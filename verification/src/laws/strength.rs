//! How the relative strength index follows the prices.

use vstd::prelude::*;
use crate::features::rsi::{rsi_after, RsiState};
use crate::number::{Fixed, Number, UNITS};

verus! {

/// Prices that exact decimals can subtract and average.
pub open spec fn is_price(p: Fixed) -> bool {
    0 <= p.units <= 600_000_000_000_000_000
}

/// The averages of a state lie in the range of price changes.
pub open spec fn averages_changes(s: RsiState<Fixed>) -> bool {
    &&& 0 <= s.avg_gain.units <= 600_000_000_000_000_000
    &&& 0 <= s.avg_loss.units <= 600_000_000_000_000_000
    &&& s.count <= 14
    &&& s.prev matches Some(p) ==> is_price(p)
}

/// `new` is the average `old` after an amount: a fourteenth of the amount is added to it
/// while the first period fills, and then it moves a fourteenth of the way; less than a
/// unit is dropped.
pub open spec fn takes_a_fourteenth(old: int, amount: int, new: int, filling: bool) -> bool {
    if filling {
        amount - 14 < 14 * (new - old) <= amount
    } else {
        13 * old + amount - 14 < 14 * new <= 13 * old + amount
    }
}

/// How far a price rose.
pub open spec fn rise(from: int, to: int) -> int {
    if to > from { to - from } else { 0 }
}

proof fn a_fourteenth(count: usize, avg: Fixed, amount: Fixed)
    requires
        0 <= avg.units <= 600_000_000_000_000_000,
        0 <= amount.units <= 600_000_000_000_000_000,
        count <= 14,
    ensures
        takes_a_fourteenth(
            avg.units as int,
            amount.units as int,
            crate::features::rsi::wilder(count, avg, amount).units as int,
            count < 14,
        ),
{
    let (a, x, u) = (avg.units as int, amount.units as int, UNITS as int);
    let period = Fixed::of_int(14);
    let rest = period.difference(Fixed::of_int(1));
    assert(period.units == 14 * u && rest.units == 13 * u);
    assert((x * u) / (14 * u) == x / 14 && x * u >= 0) by (nonlinear_arith)
        requires
            x >= 0,
            u == 100_000_000,
    ;
    assert(a * (13 * u) == (13 * a) * u && (13 * a) * u >= 0 && ((13 * a) * u) / u == 13 * a)
        by (nonlinear_arith)
        requires
            a >= 0,
            u == 100_000_000,
    ;
    assert(avg.product(rest).units == 13 * a);
    let total = 13 * a + x;
    assert((total * u) / (14 * u) == total / 14 && total * u >= 0) by (nonlinear_arith)
        requires
            total >= 0,
            u == 100_000_000,
    ;
}

/// Every price moves the averages: a rise enters the average gain, a fall the average
/// loss, each with the weight of one in fourteen, and the other average decays.
pub proof fn each_price_moves_the_averages(s: RsiState<Fixed>, prev: Fixed, price: Fixed)
    requires
        averages_changes(s),
        s.prev == Some(prev),
        is_price(price),
    ensures
        ({
            let after = s.with(price);
            let (from, to) = (prev.units as int, price.units as int);
            &&& takes_a_fourteenth(
                s.avg_gain.units as int,
                rise(from, to),
                after.avg_gain.units as int,
                s.count < 14,
            )
            &&& takes_a_fourteenth(
                s.avg_loss.units as int,
                rise(to, from),
                after.avg_loss.units as int,
                s.count < 14,
            )
            &&& after.count == (if s.count < 14 { s.count + 1 } else { 14 })
            &&& after.prev == Some(price)
        }),
{
    let zero = Fixed::of_int(0);
    let change = price.difference(prev);
    assert(change.units == price.units - prev.units);
    a_fourteenth(s.count, s.avg_gain, change.larger(zero));
    a_fourteenth(s.count, s.avg_loss, zero.difference(change).larger(zero));
}

/// Once the first period is full, a rise above the average gain raises it, and a positive
/// average loss falls; a fall does the opposite. So the index moves with each price.
pub proof fn averages_follow_the_prices(s: RsiState<Fixed>, prev: Fixed, price: Fixed)
    requires
        averages_changes(s),
        s.count == 14,
        s.prev == Some(prev),
        is_price(price),
    ensures
        price.units - prev.units >= s.avg_gain.units + 14 ==> s.with(price).avg_gain.units
            > s.avg_gain.units,
        price.units >= prev.units && s.avg_loss.units > 0 ==> s.with(price).avg_loss.units
            < s.avg_loss.units,
        prev.units - price.units >= s.avg_loss.units + 14 ==> s.with(price).avg_loss.units
            > s.avg_loss.units,
        price.units <= prev.units && s.avg_gain.units > 0 ==> s.with(price).avg_gain.units
            < s.avg_gain.units,
{
    each_price_moves_the_averages(s, prev, price);
}

/// Along a history of prices the averages stay in range, and the period is full after
/// fourteen changes.
proof fn history_stays_in_range(prices: Seq<Fixed>)
    requires
        forall|i: int| 0 <= i < prices.len() ==> is_price(#[trigger] prices[i]),
    ensures
        averages_changes(rsi_after(prices)),
        prices.len() > 0 ==> rsi_after(prices).prev == Some(prices.last()),
        prices.len() == 0 ==> rsi_after(prices).prev is None,
        rsi_after(prices).count == (if prices.len() == 0 {
            0
        } else if prices.len() <= 14 {
            prices.len() - 1
        } else {
            14
        }),
        rsi_after(prices).count < 14 ==> {
            &&& 14 * rsi_after(prices).avg_gain.units <= rsi_after(prices).count
                * 600_000_000_000_000_000
            &&& 14 * rsi_after(prices).avg_loss.units <= rsi_after(prices).count
                * 600_000_000_000_000_000
        },
    decreases prices.len(),
{
    if prices.len() > 0 {
        let rest = prices.drop_last();
        assert forall|i: int| 0 <= i < rest.len() implies is_price(#[trigger] rest[i]) by {
            assert(rest[i] == prices[i]);
        }
        history_stays_in_range(rest);
        let s = rsi_after(rest);
        let price = prices[prices.len() - 1];
        assert(is_price(price));
        if let Some(prev) = s.prev {
            each_price_moves_the_averages(s, prev, price);
        }
    }
}

/// Along any history of prices, each further price moves both averages by a fourteenth;
/// the index is there from the fifteenth price on, and only then.
pub proof fn index_follows_a_history(prices: Seq<Fixed>, price: Fixed)
    requires
        prices.len() > 0,
        forall|i: int| 0 <= i < prices.len() ==> is_price(#[trigger] prices[i]),
        is_price(price),
    ensures
        ({
            let (before, after) = (rsi_after(prices), rsi_after(prices.push(price)));
            let (from, to) = (prices.last().units as int, price.units as int);
            let filling = prices.len() < 15;
            &&& takes_a_fourteenth(
                before.avg_gain.units as int,
                rise(from, to),
                after.avg_gain.units as int,
                filling,
            )
            &&& takes_a_fourteenth(
                before.avg_loss.units as int,
                rise(to, from),
                after.avg_loss.units as int,
                filling,
            )
            &&& before.index() is Some <==> prices.len() >= 15
            &&& prices.len() == 1 ==> before.avg_gain.units == 0 && before.avg_loss.units == 0
        }),
{
    history_stays_in_range(prices);
    assert(prices.push(price).drop_last() =~= prices);
    each_price_moves_the_averages(rsi_after(prices), prices.last(), price);
    if prices.len() == 1 {
        reveal_with_fuel(rsi_after, 3);
        assert(prices.drop_last() =~= Seq::empty());
    }
}

/// The index is the average gain's part of gain and loss together, in percent, up to a
/// millionth; without losses it is 100.
pub proof fn index_is_the_share_of_gains(s: RsiState<Fixed>)
    requires
        averages_changes(s),
    ensures
        s.index() is Some <==> s.count == 14,
        s.index() matches Some(x) ==> {
            let (g, l) = (s.avg_gain.units as int, s.avg_loss.units as int);
            &&& l == 0 ==> x.units == 100 * UNITS
            &&& l > 0 ==> -101 * (g + l) <= x.units * (g + l) - 100 * UNITS * g <= 2 * (g + l)
        },
{
    let (g, l, u) = (s.avg_gain.units as int, s.avg_loss.units as int, UNITS as int);
    if s.count == 14 && l > 0 {
        let top = i64::MAX as int;
        let q = (g * u) / l;
        assert(0 <= g * u && 0 <= q && q * l <= g * u < q * l + l) by (nonlinear_arith)
            requires
                g >= 0,
                l > 0,
                u == 100_000_000,
                q == (g * u) / l,
        ;
        let strength = s.avg_gain.quotient(s.avg_loss);
        let base = Fixed::of_int(1).sum(strength).units as int;
        let hundred = 100 * u;
        assert(Fixed::of_int(100).units == hundred);
        let part = (hundred * u) / base;
        assert(base >= u);
        assert(0 <= part <= hundred && part * base <= hundred * u < part * base + base)
            by (nonlinear_arith)
            requires
                base >= u,
                u == 100_000_000,
                hundred == 100 * u,
                part == (hundred * u) / base,
        ;
        let x = hundred - part;
        assert(s.index() == Some(Fixed { units: x as i64 }));
        let t = g + l;
        // 100 * l is the part of the losses.
        assert(x * t - hundred * g == hundred * l - part * t) by (nonlinear_arith)
            requires
                x == hundred - part,
                t == g + l,
        ;
        if u + q <= top {
            assert(base == u + q);
            index_part_is_close(g, l, q, base, part);
        } else {
            assert(base == top);
            assert(part == 0) by (nonlinear_arith)
                requires
                    part * base <= hundred * u,
                    part >= 0,
                    base == 9_223_372_036_854_775_807,
                    hundred == 100 * u,
                    u == 100_000_000,
            ;
            assert(0 <= hundred * l <= 2 * t) by (nonlinear_arith)
                requires
                    q * l <= g * u,
                    u + q > 9_223_372_036_854_775_807,
                    u == 100_000_000,
                    hundred == 100 * u,
                    l > 0,
                    g >= 0,
                    t == g + l,
            ;
        }
    }
}

proof fn index_part_is_close(g: int, l: int, q: int, base: int, part: int)
    requires
        g >= 0,
        l > 0,
        q >= 0,
        q * l <= g * UNITS < q * l + l,
        base == UNITS + q,
        0 <= part <= 100 * UNITS,
        part * base <= 100 * UNITS * UNITS < part * base + base,
    ensures
        -101 * (g + l) <= 100 * UNITS * l - part * (g + l) <= 2 * (g + l),
{
    let u = UNITS as int;
    let t = g + l;
    let h = 100 * u;
    // u * t lies between base * l and base * l + l.
    assert(base * l <= u * t < base * l + l) by (nonlinear_arith)
        requires
            base == u + q,
            q * l <= g * u < q * l + l,
            t == g + l,
    ;
    let pt = part * t;
    assert((part * base) * l <= pt * u && pt * u <= (part * base) * l + part * l)
        by (nonlinear_arith)
        requires
            base * l <= u * t,
            u * t < base * l + l,
            part >= 0,
            pt == part * t,
    ;
    assert((part * base) * l <= (h * u) * l && (h * u) * l < (part * base) * l + base * l)
        by (nonlinear_arith)
        requires
            part * base <= h * u,
            h * u < part * base + base,
            l > 0,
    ;
    assert(part * l <= 100 * u * t) by (nonlinear_arith)
        requires
            0 <= part <= 100 * u,
            l <= t,
            l > 0,
    ;
    let hl = h * l;
    assert((h * u) * l == hl * u) by (nonlinear_arith)
        requires
            hl == h * l,
    ;
    assert(100 * u * t == u * (100 * t)) by (nonlinear_arith);
    assert(u * t == t * u) by (nonlinear_arith);
    assert((hl - pt) * u == hl * u - pt * u) by (nonlinear_arith);
    assert((hl - pt) * u <= t * u && (hl - pt) * u >= -(100 * t) * u) by (nonlinear_arith)
        requires
            (hl - pt) * u == hl * u - pt * u,
            (h * u) * l == hl * u,
            (part * base) * l <= pt * u,
            pt * u <= (part * base) * l + part * l,
            (part * base) * l <= (h * u) * l,
            (h * u) * l < (part * base) * l + base * l,
            base * l <= u * t,
            part * l <= 100 * u * t,
    ;
    assert(hl - pt <= t && hl - pt >= -(100 * t)) by (nonlinear_arith)
        requires
            (hl - pt) * u <= t * u,
            (hl - pt) * u >= -(100 * t) * u,
            u == 100_000_000,
    ;
    assert(100 * u * l == hl) by (nonlinear_arith)
        requires
            hl == h * l,
            h == 100 * u,
    ;
}

} // verus!
