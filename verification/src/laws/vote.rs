//! How signals are combined.

use vstd::prelude::*;
use crate::laws::decimal::{division_is_near, is_near, product_is_near, whole_multiple_is_exact};
use crate::models::{
    blended, conflict_dampening, contradicts, fused_signal, scale_weight, signal_votes,
};
use crate::number::{Fixed, Number, UNITS};
use crate::types::{TrendDirection, TrendSignal};
use crate::votes::Votes;

verus! {

/// The weight of a scale in hundredths.
pub open spec fn hundredths(i: int) -> int {
    if i == 0 {
        15
    } else if i == 1 {
        35
    } else if i == 2 {
        30
    } else {
        20
    }
}

/// What the first `n` signals put behind a direction: confidence times weight, in
/// hundredths of units.
pub open spec fn support(signals: Seq<TrendSignal<Fixed>>, n: int, direction: TrendDirection) -> int
    decreases n,
{
    if n <= 0 {
        0
    } else if signals[n - 1].direction == direction {
        support(signals, n - 1, direction) + hundredths(n - 1) * signals[n - 1].confidence.units
    } else {
        support(signals, n - 1, direction)
    }
}

/// Four signals with confidences between 0 and 1.
pub open spec fn are_signals(signals: Seq<TrendSignal<Fixed>>) -> bool {
    &&& signals.len() == 4
    &&& forall|i: int| 0 <= i < 4 ==> 0 <= (#[trigger] signals[i]).confidence.units <= UNITS
}

/// `x` hundredths of units, up to less than a unit for each of `n` summands.
pub open spec fn counts_support(x: int, hundredths: int, n: int) -> bool {
    hundredths - 100 * n <= 100 * x <= hundredths
}

proof fn votes_count_support(signals: Seq<TrendSignal<Fixed>>, n: nat)
    requires
        are_signals(signals),
        n <= 4,
    ensures
        forall|d: TrendDirection|
            {
                &&& counts_support(
                    #[trigger] signal_votes(signals, n).behind(d).units as int,
                    support(signals, n as int, d),
                    n as int,
                )
                &&& 0 <= signal_votes(signals, n).behind(d).units <= n * UNITS
                &&& support(signals, n as int, d) >= 0
            },
    decreases n,
{
    let u = UNITS as int;
    assert(u == 100_000_000);
    if n > 0 {
        votes_count_support(signals, (n - 1) as nat);
        let s = signals[n - 1];
        let w = hundredths(n - 1);
        let weight = scale_weight::<Fixed>(n - 1);
        assert(weight.units == w * 1_000_000);
        let c = s.confidence.units as int;
        let x = weight.units * c;
        assert(x == 1_000_000 * (w * c) && 0 <= w * c && 0 <= x <= u * u) by (nonlinear_arith)
            requires
                x == weight.units * c,
                weight.units == w * 1_000_000,
                0 <= w <= 100,
                0 <= c <= u,
                u == 100_000_000,
        ;
        product_is_near(weight, s.confidence);
        division_is_near(x, u);
        let cast = weight.product(s.confidence);
        assert(100 * cast.units <= w * c && w * c - 100 < 100 * cast.units);
        let before = signal_votes(signals, (n - 1) as nat);
        let after = signal_votes(signals, n);
        assert(after == before.with(s.direction, cast));
        assert forall|d: TrendDirection|
            {
                &&& counts_support(
                    #[trigger] after.behind(d).units as int,
                    support(signals, n as int, d),
                    n as int,
                )
                &&& 0 <= after.behind(d).units <= n * UNITS
                &&& support(signals, n as int, d) >= 0
            } by {
            let b = before.behind(d);
            assert(counts_support(b.units as int, support(signals, n - 1, d), n - 1));
            if d == s.direction {
                assert(after.behind(d) == b.sum(cast));
            } else {
                assert(after.behind(d) == b);
            }
        }
    } else {
        assert forall|d: TrendDirection|
            {
                &&& counts_support(
                    #[trigger] signal_votes(signals, n).behind(d).units as int,
                    support(signals, n as int, d),
                    n as int,
                )
                &&& 0 <= signal_votes(signals, n).behind(d).units <= n * UNITS
                &&& support(signals, n as int, d) >= 0
            } by {}
    }
}

/// How many of the two longer scales have a direction that is not the short scale's.
pub open spec fn conflicts(signals: Seq<TrendSignal<Fixed>>) -> int {
    let short = signals[1].direction;
    let (medium, broad) = (signals[2].direction, signals[3].direction);
    (if !(medium is Sideways) && medium != short { 1int } else { 0 }) + (if !(broad is Sideways)
        && broad != short { 1int } else { 0 })
}

/// A direction and a confidence fuse four signals: the direction has the most support, the
/// confidence is its part of all support, and one conflict between the scales takes 15 %
/// off it and two take 40 %; where nothing has support, it is Sideways with none.
pub open spec fn is_fusion_of(
    signals: Seq<TrendSignal<Fixed>>,
    direction: TrendDirection,
    confidence: int,
    lead: int,
    total: int,
    share: int,
) -> bool {
    let u = UNITS as int;
    let all = support(signals, 4, TrendDirection::Bullish) + support(
        signals,
        4,
        TrendDirection::Bearish,
    ) + support(signals, 4, TrendDirection::Sideways);
    &&& counts_support(total, all, 12)
    &&& total == 0 ==> direction is Sideways && confidence == 0
    &&& total > 0 ==> {
        &&& counts_support(lead, support(signals, 4, direction), 4)
        &&& forall|d: TrendDirection| #[trigger]
            support(signals, 4, d) <= support(signals, 4, direction) + 400
        &&& 0 <= lead <= total
        &&& share * total <= lead * u < share * total + total
        &&& is_near(
            confidence,
            share * (if conflicts(signals) == 0 {
                100int
            } else if conflicts(signals) == 1 {
                85
            } else {
                60
            }),
            100,
        )
        &&& 0 <= confidence <= share
    }
}

/// What fusing four signals gives is a fusion of them.
pub proof fn fused_direction_has_the_most_support(signals: Seq<TrendSignal<Fixed>>) -> (r: (
    int,
    int,
    int,
))
    requires
        are_signals(signals),
    ensures
        is_fusion_of(
            signals,
            fused_signal(signals).0,
            fused_signal(signals).1.units as int,
            r.0,
            r.1,
            r.2,
        ),
{
    let u = UNITS as int;
    assert(u == 100_000_000);
    votes_count_support(signals, 4);
    let votes = signal_votes(signals, 4);
    let (a, b, c) = (
        votes.behind(TrendDirection::Bullish).units as int,
        votes.behind(TrendDirection::Bearish).units as int,
        votes.behind(TrendDirection::Sideways).units as int,
    );
    let total = a + b + c;
    assert(votes.weight().units == total);
    let direction = votes.leader();
    let lead = votes.behind(direction).units as int;
    if total > 0 {
        let share = (lead * u) / total;
        assert(0 <= share <= u && share * total <= lead * u < share * total + total)
            by (nonlinear_arith)
            requires
                0 <= lead <= total,
                total > 0,
                u == 100_000_000,
                share == (lead * u) / total,
        ;
        assert forall|d: TrendDirection| #[trigger]
            support(signals, 4, d) <= support(signals, 4, direction) + 400 by {
            assert(votes.behind(d).units <= lead);
            assert(counts_support(votes.behind(d).units as int, support(signals, 4, d), 4));
        }
        let part = votes.behind(direction).quotient(votes.weight());
        assert(part.units == share);
        let damp = conflict_dampening(signals);
        assert(Fixed::of_ratio(6, 10).units == 60_000_000);
        assert(Fixed::of_ratio(85, 100).units == 85_000_000);
        assert(Fixed::of_int(1).units == 100_000_000);
        assert(contradicts(signals[2], signals[1]) == (!(signals[2].direction is Sideways)
            && signals[2].direction != signals[1].direction));
        assert(contradicts(signals[3], signals[1]) == (!(signals[3].direction is Sideways)
            && signals[3].direction != signals[1].direction));
        let k = if conflicts(signals) == 0 {
            100int
        } else if conflicts(signals) == 1 {
            85
        } else {
            60
        };
        assert(damp.units == k * 1_000_000);
        let x = part.units * damp.units;
        assert(x == 1_000_000 * (share * k) && 0 <= x && x <= u * share) by (nonlinear_arith)
            requires
                x == part.units * damp.units,
                part.units == share,
                damp.units == k * 1_000_000,
                0 <= k <= 100,
                share >= 0,
                u == 100_000_000,
        ;
        product_is_near(part, damp);
        division_is_near(x, u);
        let y = part.product(damp).units as int;
        assert(y <= share);
        assert(is_near(y, share * k, 100));
        (lead, total, share)
    } else {
        (lead, total, 0)
    }
}

/// Where all four scales agree, the fused direction is theirs, with full confidence.
pub proof fn agreement_is_certain(signals: Seq<TrendSignal<Fixed>>, direction: TrendDirection)
    requires
        are_signals(signals),
        forall|i: int| 0 <= i < 4 ==> (#[trigger] signals[i]).direction == direction,
        exists|i: int| 0 <= i < 4 && (#[trigger] signals[i]).confidence.units >= 100,
    ensures
        fused_signal(signals).0 == direction,
        fused_signal(signals).1.units == UNITS,
{
    let u = UNITS as int;
    assert(u == 100_000_000);
    votes_count_support(signals, 4);
    let votes = signal_votes(signals, 4);
    reveal_with_fuel(support, 5);
    reveal_with_fuel(signal_votes, 5);
    assert(signals[0].direction == direction && signals[1].direction == direction);
    assert(signals[2].direction == direction && signals[3].direction == direction);
    assert forall|d: TrendDirection| d != direction implies #[trigger] votes.behind(d).units
        == 0 by {
        assert(support(signals, 4, d) == 0);
        assert(counts_support(votes.behind(d).units as int, 0, 4));
    }
    let lead = votes.behind(direction).units as int;
    some_support_counts(signals, direction);
    assert(lead > 0);
    assert(votes.behind(TrendDirection::Bullish) == votes.bull);
    assert(votes.behind(TrendDirection::Bearish) == votes.bear);
    assert(votes.behind(TrendDirection::Sideways) == votes.side);
    assert(votes.weight().units == lead);
    assert((lead * u) / lead == u) by (nonlinear_arith)
        requires
            lead > 0,
    ;
    assert(votes.leader() == direction);
    let part = votes.behind(direction).quotient(votes.weight());
    assert(part.units == u);
    assert(conflict_dampening(signals) == Fixed::of_int(1));
    whole_multiple_is_exact(part, 1);
}

proof fn some_support_counts(signals: Seq<TrendSignal<Fixed>>, direction: TrendDirection)
    requires
        are_signals(signals),
        forall|i: int| 0 <= i < 4 ==> (#[trigger] signals[i]).direction == direction,
        exists|i: int| 0 <= i < 4 && (#[trigger] signals[i]).confidence.units >= 100,
    ensures
        signal_votes(signals, 4).behind(direction).units > 0,
{
    let u = UNITS as int;
    assert(u == 100_000_000);
    reveal_with_fuel(signal_votes, 5);
    assert(signals[0].direction == direction && signals[1].direction == direction);
    assert(signals[2].direction == direction && signals[3].direction == direction);
    cast_counts(15, signals[0].confidence);
    cast_counts(35, signals[1].confidence);
    cast_counts(30, signals[2].confidence);
    cast_counts(20, signals[3].confidence);
    let i = choose|i: int| 0 <= i < 4 && (#[trigger] signals[i]).confidence.units >= 100;
    assert(i == 0 || i == 1 || i == 2 || i == 3);
}

proof fn cast_counts(w: int, c: Fixed)
    requires
        15 <= w <= 35,
        0 <= c.units <= UNITS,
    ensures
        0 <= Fixed::of_ratio(w, 100).product(c).units <= UNITS,
        c.units >= 100 ==> Fixed::of_ratio(w, 100).product(c).units > 0,
{
    let u = UNITS as int;
    assert(u == 100_000_000);
    let weight = Fixed::of_ratio(w, 100);
    assert(weight.units == w * 1_000_000);
    let x = weight.units * c.units;
    assert(0 <= x <= u * u && (c.units >= 100 ==> x >= u)) by (nonlinear_arith)
        requires
            x == weight.units * c.units,
            weight.units == w * 1_000_000,
            15 <= w <= 35,
            0 <= c.units <= u,
            u == 100_000_000,
    ;
    product_is_near(weight, c);
    division_is_near(x, u);
}

/// Two signals blended: each counts by its weight times its confidence, the one that
/// counts for more sets the direction, and the confidence is its part of both; where they
/// agree it is full, and where neither counts it is 0.
pub proof fn blend_weighs_two_signals(
    a: TrendSignal<Fixed>,
    b: TrendSignal<Fixed>,
    wa: Fixed,
) -> (r: (int, int))
    requires
        0 <= wa.units <= UNITS,
        0 <= a.confidence.units <= UNITS,
        0 <= b.confidence.units <= UNITS,
    ensures
        ({
            let u = UNITS as int;
            let (x, y) = r;
            let s = blended(a, b, wa);
            let c = s.confidence.units as int;
            &&& is_near(x, wa.units * a.confidence.units, u)
            &&& is_near(y, (u - wa.units) * b.confidence.units, u)
            &&& x >= 0 && y >= 0
            &&& x + y == 0 ==> c == 0
            &&& x + y > 0 && a.direction == b.direction ==> s.direction == a.direction && c == u
            &&& a.direction != b.direction && x > y ==> s.direction == a.direction && c * (x + y)
                <= x * u < c * (x + y) + (x + y)
            &&& a.direction != b.direction && y > x ==> s.direction == b.direction && c * (x + y)
                <= y * u < c * (x + y) + (x + y)
            &&& s.scale == a.scale
            &&& s.computed_at == a.computed_at
        }),
{
    let u = UNITS as int;
    assert(u == 100_000_000);
    let wb = Fixed::of_int(1).difference(wa);
    assert(wb.units == u - wa.units);
    let (p, q) = (wa.units * a.confidence.units, wb.units * b.confidence.units);
    assert(0 <= p <= u * u && 0 <= q <= u * u) by (nonlinear_arith)
        requires
            p == wa.units * a.confidence.units,
            q == wb.units * b.confidence.units,
            0 <= wa.units <= u,
            0 <= wb.units <= u,
            0 <= a.confidence.units <= u,
            0 <= b.confidence.units <= u,
    ;
    product_is_near(wa, a.confidence);
    product_is_near(wb, b.confidence);
    let (va, vb) = (wa.product(a.confidence), wb.product(b.confidence));
    let (x, y) = (va.units as int, vb.units as int);
    division_is_near(p, u);
    division_is_near(q, u);
    assert(x <= u && y <= u);
    let votes = Votes::none().with(a.direction, va).with(b.direction, vb);
    assert(Fixed::of_int(0).units == 0);
    assert(votes.weight().units == x + y);
    let t = x + y;
    if t > 0 {
        let lead = votes.behind(votes.leader()).units as int;
        assert(0 <= lead <= t);
        let c = (lead * u) / t;
        assert(0 <= c <= u && c * t <= lead * u < c * t + t) by (nonlinear_arith)
            requires
                0 <= lead <= t,
                t > 0,
                u == 100_000_000,
                c == (lead * u) / t,
        ;
        assert(votes.behind(votes.leader()).quotient(votes.weight()).units == c);
        if a.direction == b.direction {
            assert(lead == t);
            assert(c == u) by (nonlinear_arith)
                requires
                    c * t <= lead * u < c * t + t,
                    lead == t,
                    t > 0,
            ;
        }
    }
    (x, y)
}

/// Bullish comes first, then Bearish, then Sideways.
pub open spec fn rank(direction: TrendDirection) -> int {
    match direction {
        TrendDirection::Bullish => 0,
        TrendDirection::Bearish => 1,
        TrendDirection::Sideways => 2,
    }
}

/// The leader is the first of the directions with the most weight: no other has more, and
/// none that comes before it has as much.
pub proof fn leader_is_the_first_of_the_heaviest(votes: Votes<Fixed>, other: TrendDirection)
    ensures
        votes.behind(other).units <= votes.behind(votes.leader()).units,
        rank(other) < rank(votes.leader()) ==> votes.behind(other).units < votes.behind(
            votes.leader(),
        ).units,
        votes.behind(TrendDirection::Bullish) == votes.bull,
        votes.behind(TrendDirection::Bearish) == votes.bear,
        votes.behind(TrendDirection::Sideways) == votes.side,
{
}

/// A vote adds its weight to its own direction and to no other.
pub proof fn votes_add_to_their_direction(
    votes: Votes<Fixed>,
    direction: TrendDirection,
    weight: Fixed,
    other: TrendDirection,
)
    requires
        i64::MIN <= votes.behind(direction).units + weight.units <= i64::MAX,
    ensures
        votes.with(direction, weight).behind(direction).units == votes.behind(direction).units
            + weight.units,
        other != direction ==> votes.with(direction, weight).behind(other) == votes.behind(other),
{
}

} // verus!
