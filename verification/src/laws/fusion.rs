//! What a fused tick says of the ticks in its bucket.

use vstd::prelude::*;
use crate::number::{greatest, is_ordered, least, towards_zero, Fixed, Number, UNITS};
use crate::price_fusion::{bucket_centre, fuses, last_price, spread_fraction, FusedTick};
use crate::types::tick_store::{
    any_side, bar_of, bought_of, high_of, low_of, notional_of, quantity_of, quantity_units,
    value_units,
};
use crate::types::per_exchange::entry_seq;
use crate::types::{Exchange, Tick, TradeSide};

verus! {

/// The `i`-th tick is the last one of an exchange.
pub open spec fn is_last_of<N>(ticks: Seq<Tick<N>>, i: int, exchange: Exchange) -> bool {
    &&& 0 <= i < ticks.len()
    &&& ticks[i].exchange == exchange
    &&& forall|j: int| i < j < ticks.len() ==> (#[trigger] ticks[j]).exchange != exchange
}

proof fn last_tick_sets_the_last_price<N>(ticks: Seq<Tick<N>>, i: int, exchange: Exchange)
    requires
        is_last_of(ticks, i, exchange),
    ensures
        last_price(ticks, exchange) == Some(ticks[i].price),
    decreases ticks.len(),
{
    let n = ticks.len() - 1;
    if i < n {
        assert(ticks[n].exchange != exchange);
        let rest = ticks.drop_last();
        assert forall|j: int| i < j < rest.len() implies (#[trigger] rest[j]).exchange
            != exchange by {
            assert(rest[j] == ticks[j]);
        }
        last_tick_sets_the_last_price(rest, i, exchange);
    }
}

proof fn last_price_has_a_tick<N>(ticks: Seq<Tick<N>>, exchange: Exchange) -> (i: int)
    requires
        last_price(ticks, exchange) is Some,
    ensures
        is_last_of(ticks, i, exchange),
    decreases ticks.len(),
{
    let n = ticks.len() - 1;
    if ticks[n].exchange == exchange {
        n
    } else {
        let rest = ticks.drop_last();
        let i = last_price_has_a_tick(rest, exchange);
        assert forall|j: int| i < j < ticks.len() implies (#[trigger] ticks[j]).exchange
            != exchange by {
            if j < n {
                assert(rest[j] == ticks[j]);
            }
        }
        i
    }
}

/// The price is a number strictly inside the range of its type.
pub open spec fn is_inner<N: Number>(p: N) -> bool {
    N::bottom().is_below(p) && p.is_below(N::top())
}

proof fn extremes_are_members<N: Number>(xs: Seq<N>) -> (r: (int, int))
    requires
        is_ordered::<N>(),
        xs.len() > 0,
        forall|i: int| 0 <= i < xs.len() ==> is_inner(#[trigger] xs[i]),
    ensures
        0 <= r.0 < xs.len(),
        0 <= r.1 < xs.len(),
        greatest(xs) == xs[r.0],
        least(xs) == xs[r.1],
        forall|i: int|
            0 <= i < xs.len() ==> !greatest(xs).is_below(#[trigger] xs[i]) && !xs[i].is_below(
                least(xs),
            ),
    decreases xs.len(),
{
    let rest = xs.drop_last();
    let n = xs.len() - 1;
    let last = xs[n];
    assert(is_inner(last));
    assert(greatest(xs) == greatest(rest).larger(last));
    assert(least(xs) == least(rest).smaller(last));
    if n == 0 {
        assert(greatest(xs) == last && least(xs) == last);
        (0, 0)
    } else {
        assert forall|i: int| 0 <= i < rest.len() implies is_inner(#[trigger] rest[i]) by {
            assert(rest[i] == xs[i]);
        }
        let (a, b) = extremes_are_members(rest);
        let (hi, lo) = (greatest(rest), least(rest));
        assert(is_inner(rest[a]) && is_inner(rest[b]));
        assert forall|i: int| 0 <= i < xs.len() implies !greatest(xs).is_below(#[trigger] xs[i])
            && !xs[i].is_below(least(xs)) by {
            if i < n {
                assert(rest[i] == xs[i]);
                assert(is_inner(rest[i]));
                if greatest(xs).is_below(xs[i]) {
                    assert(greatest(xs).is_below(hi) || hi.is_below(xs[i]));
                }
                if xs[i].is_below(least(xs)) {
                    assert(xs[i].is_below(lo) || lo.is_below(least(xs)));
                }
            }
        }
        (if greatest(xs) == last { n } else { a }, if least(xs) == last { n } else { b })
    }
}

proof fn entry_is_listed<N: Number>(fused: FusedTick<N>, exchange: Exchange)
    requires
        fused.exchange_prices.entry(exchange) is Some,
    ensures
        exists|k: int|
            0 <= k < fused.exchange_prices.entries().len()
                && #[trigger] fused.exchange_prices.entries()[k]
                == fused.exchange_prices.entry(exchange)->0,
{
    let table = fused.exchange_prices;
    let (b, c, k, s) = (
        entry_seq(table.entry(Exchange::Binance)),
        entry_seq(table.entry(Exchange::Coinbase)),
        entry_seq(table.entry(Exchange::Kraken)),
        entry_seq(table.entry(Exchange::Bitstamp)),
    );
    let all = table.entries();
    assert(all == b + c + k + s);
    let at: int = match exchange {
        Exchange::Binance => 0,
        Exchange::Coinbase => b.len() as int,
        Exchange::Kraken => (b.len() + c.len()) as int,
        Exchange::Bitstamp => (b.len() + c.len() + k.len()) as int,
    };
    assert(all[at] == table.entry(exchange)->0);
}

proof fn listed_is_an_entry<N: Number>(fused: FusedTick<N>, k: int) -> (e: Exchange)
    requires
        0 <= k < fused.exchange_prices.entries().len(),
    ensures
        fused.exchange_prices.entry(e) == Some(fused.exchange_prices.entries()[k]),
{
    let table = fused.exchange_prices;
    let x = Some(table.entries()[k]);
    if table.entry(Exchange::Binance) == x {
        Exchange::Binance
    } else if table.entry(Exchange::Coinbase) == x {
        Exchange::Coinbase
    } else if table.entry(Exchange::Kraken) == x {
        Exchange::Kraken
    } else {
        Exchange::Bitstamp
    }
}

/// The spread of a bucket is the distance between the last prices of two exchanges:
/// one that no exchange ends above, and one that no exchange ends below.
pub proof fn spread_spans_the_last_prices<N: Number>(
    ticks: Seq<Tick<N>>,
    centre: int,
    fused: FusedTick<N>,
    a: int,
    b: int,
) -> (r: (int, int))
    requires
        is_ordered::<N>(),
        fuses(ticks, centre, fused),
        forall|i: int| 0 <= i < ticks.len() ==> is_inner((#[trigger] ticks[i]).price),
        0 <= a < ticks.len(),
        0 <= b < ticks.len(),
        ticks[a].exchange != ticks[b].exchange,
    ensures
        is_last_of(ticks, r.0, ticks[r.0].exchange),
        is_last_of(ticks, r.1, ticks[r.1].exchange),
        fused.cross_exchange_spread == ticks[r.0].price.difference(ticks[r.1].price),
        forall|i: int|
            is_last_of(ticks, i, (#[trigger] ticks[i]).exchange) ==> {
                &&& !ticks[r.0].price.is_below(ticks[i].price)
                &&& !ticks[i].price.is_below(ticks[r.1].price)
            },
{
    let table = fused.exchange_prices;
    let all = table.entries();
    let (e, f) = (ticks[a].exchange, ticks[b].exchange);
    sources_have_prices(ticks, a);
    sources_have_prices(ticks, b);
    assert(table.entry(e) is Some && table.entry(f) is Some);
    assert(all.len() > 1);
    assert forall|k: int| 0 <= k < all.len() implies is_inner(#[trigger] all[k]) by {
        let x = listed_is_an_entry(fused, k);
        assert(table.entry(x) == last_price(ticks, x));
        let i = last_price_has_a_tick(ticks, x);
        last_tick_sets_the_last_price(ticks, i, x);
        assert(is_inner(ticks[i].price));
    }
    let (hi, lo) = extremes_are_members(all);
    let (x, y) = (listed_is_an_entry(fused, hi), listed_is_an_entry(fused, lo));
    assert(table.entry(x) == last_price(ticks, x) && table.entry(y) == last_price(ticks, y));
    let (i, j) = (last_price_has_a_tick(ticks, x), last_price_has_a_tick(ticks, y));
    last_tick_sets_the_last_price(ticks, i, x);
    last_tick_sets_the_last_price(ticks, j, y);
    assert forall|m: int| is_last_of(ticks, m, (#[trigger] ticks[m]).exchange) implies {
        &&& !ticks[i].price.is_below(ticks[m].price)
        &&& !ticks[m].price.is_below(ticks[j].price)
    } by {
        let z = ticks[m].exchange;
        last_tick_sets_the_last_price(ticks, m, z);
        assert(table.entry(z) == last_price(ticks, z));
        entry_is_listed(fused, z);
    }
    (i, j)
}

proof fn sources_have_prices<N>(ticks: Seq<Tick<N>>, a: int)
    requires
        0 <= a < ticks.len(),
    ensures
        last_price(ticks, ticks[a].exchange) is Some,
    decreases ticks.len(),
{
    if a < ticks.len() - 1 {
        sources_have_prices(ticks.drop_last(), a);
    }
}

/// A bucket of one exchange's ticks has no spread.
pub proof fn one_exchange_has_no_spread<N: Number>(
    ticks: Seq<Tick<N>>,
    centre: int,
    fused: FusedTick<N>,
    exchange: Exchange,
)
    requires
        fuses(ticks, centre, fused),
        forall|i: int| 0 <= i < ticks.len() ==> (#[trigger] ticks[i]).exchange == exchange,
    ensures
        fused.cross_exchange_spread == N::of_int(0),
        fused.exchange_count <= 1,
{
    let table = fused.exchange_prices;
    assert forall|e: Exchange| e != exchange implies #[trigger] table.entry(e) is None by {
        assert(table.entry(e) == last_price(ticks, e));
        if last_price(ticks, e) is Some {
            let i = last_price_has_a_tick(ticks, e);
            assert(ticks[i].exchange == exchange);
        }
    }
}

/// In exact decimals, the spread is the largest difference of two exchanges' last prices:
/// no two of them differ by more, and two of them differ by as much. So it is positive
/// whenever two exchanges disagree.
pub proof fn spread_is_the_largest_difference(
    ticks: Seq<Tick<Fixed>>,
    centre: int,
    fused: FusedTick<Fixed>,
    i: int,
    j: int,
)
    requires
        fuses(ticks, centre, fused),
        forall|k: int|
            0 <= k < ticks.len() ==> 0 <= (#[trigger] ticks[k]).price.units < i64::MAX,
        is_last_of(ticks, i, ticks[i].exchange),
        is_last_of(ticks, j, ticks[j].exchange),
    ensures
        ticks[i].price.units - ticks[j].price.units <= fused.cross_exchange_spread.units,
        ticks[i].price.units != ticks[j].price.units ==> fused.cross_exchange_spread.units > 0,
        exists|a: int, b: int|
            {
                &&& #[trigger] is_last_of(ticks, a, ticks[a].exchange)
                &&& #[trigger] is_last_of(ticks, b, ticks[b].exchange)
                &&& fused.cross_exchange_spread.units == ticks[a].price.units
                    - ticks[b].price.units
            },
{
    assert forall|k: int| 0 <= k < ticks.len() implies is_inner((#[trigger] ticks[k]).price) by {}
    if ticks[i].exchange == ticks[j].exchange {
        assert(i == j);
        let e = ticks[i].exchange;
        if exists|k: int| 0 <= k < ticks.len() && (#[trigger] ticks[k]).exchange != e {
            let k = choose|k: int| 0 <= k < ticks.len() && (#[trigger] ticks[k]).exchange != e;
            let (a, b) = spread_spans_the_last_prices(ticks, centre, fused, i, k);
            assert(is_last_of(ticks, a, ticks[a].exchange));
            assert(is_last_of(ticks, b, ticks[b].exchange));
        } else {
            one_exchange_has_no_spread(ticks, centre, fused, e);
            assert(fused.cross_exchange_spread.units == ticks[i].price.units
                - ticks[i].price.units);
        }
    } else {
        let (a, b) = spread_spans_the_last_prices(ticks, centre, fused, i, j);
        assert(is_last_of(ticks, a, ticks[a].exchange));
        assert(is_last_of(ticks, b, ticks[b].exchange));
    }
}

/// One if an exchange has a tick in the bucket, else zero.
pub open spec fn takes_part<N>(ticks: Seq<Tick<N>>, exchange: Exchange) -> int {
    if exists|i: int| 0 <= i < ticks.len() && (#[trigger] ticks[i]).exchange == exchange {
        1
    } else {
        0
    }
}

/// The exchange count is the number of exchanges that have a tick in the bucket, and the
/// table holds the last price of each of them and no other.
pub proof fn each_exchange_counts_once<N: Number>(
    ticks: Seq<Tick<N>>,
    centre: int,
    fused: FusedTick<N>,
)
    requires
        fuses(ticks, centre, fused),
    ensures
        fused.exchange_count == takes_part(ticks, Exchange::Binance) + takes_part(
            ticks,
            Exchange::Coinbase,
        ) + takes_part(ticks, Exchange::Kraken) + takes_part(ticks, Exchange::Bitstamp),
        forall|i: int|
            is_last_of(ticks, i, (#[trigger] ticks[i]).exchange)
                ==> fused.exchange_prices.entry(ticks[i].exchange) == Some(ticks[i].price),
{
    let table = fused.exchange_prices;
    assert forall|e: Exchange| (#[trigger] table.entry(e) is Some) == (takes_part(ticks, e)
        == 1) by {
        assert(table.entry(e) == last_price(ticks, e));
        if last_price(ticks, e) is Some {
            let i = last_price_has_a_tick(ticks, e);
            assert(ticks[i].exchange == e);
        }
        if takes_part(ticks, e) == 1 {
            let i = choose|i: int| 0 <= i < ticks.len() && (#[trigger] ticks[i]).exchange == e;
            sources_have_prices(ticks, i);
        }
    }
    assert(table.entry(Exchange::Binance) is Some == (takes_part(ticks, Exchange::Binance) == 1));
    assert(table.entry(Exchange::Coinbase) is Some == (takes_part(ticks, Exchange::Coinbase) == 1));
    assert(table.entry(Exchange::Kraken) is Some == (takes_part(ticks, Exchange::Kraken) == 1));
    assert(table.entry(Exchange::Bitstamp) is Some == (takes_part(ticks, Exchange::Bitstamp) == 1));
    assert forall|i: int| is_last_of(ticks, i, (#[trigger] ticks[i]).exchange) implies table.entry(
        ticks[i].exchange,
    ) == Some(ticks[i].price) by {
        last_tick_sets_the_last_price(ticks, i, ticks[i].exchange);
        assert(table.entry(ticks[i].exchange) == last_price(ticks, ticks[i].exchange));
    }
}

/// The quantity that takers bought in some trades, in units.
pub open spec fn bought_units(ticks: Seq<Tick<Fixed>>) -> int
    decreases ticks.len(),
{
    if ticks.len() == 0 {
        0
    } else if ticks.last().side == Some(TradeSide::Buy) {
        bought_units(ticks.drop_last()) + ticks.last().quantity.units
    } else {
        bought_units(ticks.drop_last())
    }
}

/// Trades in exact decimals: no price or quantity is negative.
pub open spec fn are_plain(ticks: Seq<Tick<Fixed>>) -> bool {
    forall|i: int|
        0 <= i < ticks.len() ==> (#[trigger] ticks[i]).price.units >= 0 && ticks[i].quantity.units
            >= 0
}

proof fn sums_are_exact(ticks: Seq<Tick<Fixed>>, high: int)
    requires
        are_plain(ticks),
        quantity_units(ticks) <= i64::MAX,
        value_units(ticks) <= i64::MAX * UNITS,
        forall|i: int| 0 <= i < ticks.len() ==> (#[trigger] ticks[i]).price.units <= high,
        0 <= high,
    ensures
        quantity_of(ticks).units == quantity_units(ticks),
        0 <= quantity_units(ticks),
        0 <= notional_of(ticks).units,
        value_units(ticks) - ticks.len() * UNITS <= notional_of(ticks).units * UNITS
            <= value_units(ticks),
        0 <= value_units(ticks) <= high * quantity_units(ticks),
        0 <= bought_units(ticks) <= quantity_units(ticks),
        bought_of(ticks).units == bought_units(ticks),
    decreases ticks.len(),
{
    let u = UNITS as int;
    assert(u == 100_000_000);
    if ticks.len() == 0 {
        assert(Fixed::of_int(0).units == 0);
    } else {
        let rest = ticks.drop_last();
        let last = ticks.last();
        let (p, q) = (last.price.units as int, last.quantity.units as int);
        assert(ticks[ticks.len() - 1] == last);
        assert forall|i: int| 0 <= i < rest.len() implies (#[trigger] rest[i]).price.units >= 0
            && rest[i].quantity.units >= 0 && rest[i].price.units <= high by {
            assert(rest[i] == ticks[i]);
        }
        let x = p * q;
        assert(0 <= x <= high * q) by (nonlinear_arith)
            requires
                x == p * q,
                0 <= p <= high,
                q >= 0,
        ;
        sums_are_exact(rest, high);
        let v = quantity_units(rest);
        assert(high * v + high * q == high * (v + q)) by (nonlinear_arith);
        crate::laws::decimal::division_is_near(x, u);
        let kept = x / u;
        let n = notional_of(rest).units as int;
        assert(kept == towards_zero(x, u));
        assert(n * u + kept * u <= value_units(ticks));
        assert(last.price.product(last.quantity).units == kept);
        assert(notional_of(ticks).units == n + kept);
        let count = rest.len() as int;
        assert(ticks.len() * u == count * u + u) by (nonlinear_arith)
            requires
                ticks.len() == count + 1,
        ;
    }
}

/// `x` is `num / den` in units, rounded down.
pub open spec fn is_floor_of(x: int, num: int, den: int) -> bool {
    x * den <= num && num < x * den + den
}

/// Trades whose totals exact decimals can hold.
pub open spec fn are_countable(ticks: Seq<Tick<Fixed>>) -> bool {
    &&& ticks.len() > 0
    &&& are_plain(ticks)
    &&& quantity_units(ticks) <= i64::MAX
    &&& value_units(ticks) <= i64::MAX * UNITS
}

/// What totals and averages of trades amount to in exact decimals: the price times the
/// quantity is the value of the trades, of which less than a unit is dropped for each
/// trade and less than one more for each unit of the quantity. Without any quantity there
/// is no buy ratio, and `otherwise` stands in for the price.
pub open spec fn averages(
    ticks: Seq<Tick<Fixed>>,
    volume: Fixed,
    notional: Fixed,
    price: Fixed,
    otherwise: Fixed,
    buy_ratio: Option<Fixed>,
) -> bool {
    let (v, w) = (quantity_units(ticks), value_units(ticks));
    &&& volume.units == v
    &&& w - ticks.len() * UNITS <= notional.units * UNITS <= w
    &&& v == 0 ==> price == otherwise && buy_ratio is None
    &&& v > 0 ==> {
        &&& w - ticks.len() * UNITS - v < price.units * v <= w
        &&& match buy_ratio {
            Some(b) => is_floor_of(b.units as int, bought_units(ticks) * UNITS, v) && exists|i: int|
                0 <= i < ticks.len() && (#[trigger] ticks[i]).side is Some,
            None => forall|i: int| 0 <= i < ticks.len() ==> (#[trigger] ticks[i]).side is None,
        }
    }
}

proof fn totals_average(ticks: Seq<Tick<Fixed>>, otherwise: Fixed)
    requires
        are_countable(ticks),
    ensures
        ({
            let traded = Fixed::of_int(0).is_below(quantity_of(ticks));
            averages(
                ticks,
                quantity_of(ticks),
                notional_of(ticks),
                if traded {
                    notional_of(ticks).quotient(quantity_of(ticks))
                } else {
                    otherwise
                },
                otherwise,
                if any_side(ticks) && traded {
                    Some(bought_of(ticks).quotient(quantity_of(ticks)))
                } else {
                    None
                },
            )
        }),
{
    let high = i64::MAX as int;
    sums_are_exact(ticks, high);
    let (n, v, u) = (notional_of(ticks).units as int, quantity_of(ticks).units as int, UNITS as int);
    assert(u == 100_000_000);
    assert(Fixed::of_int(0).units == 0);
    let (w, b) = (value_units(ticks), bought_units(ticks));
    if v > 0 {
        let a = (n * u) / v;
        assert(0 <= n * u && 0 <= a && n * u - v < a * v <= n * u) by (nonlinear_arith)
            requires
                n >= 0,
                v > 0,
                u > 0,
                a == (n * u) / v,
        ;
        assert(a <= high) by (nonlinear_arith)
            requires
                a * v <= n * u,
                n * u <= w,
                w <= high * v,
                v > 0,
        ;
        let share = (b * u) / v;
        assert(0 <= b * u && share * v <= b * u && b * u < share * v + v && 0 <= share <= u)
            by (nonlinear_arith)
            requires
                0 <= b <= v,
                v > 0,
                u > 0,
                share == (b * u) / v,
        ;
    }
}

/// The totals of a bucket: its volume is that of its trades, its price is their value over
/// their quantity, and its buy ratio the bought part of the quantity, given whenever some
/// trade says who the taker was.
pub proof fn bucket_totals_are_those_of_its_trades(
    ticks: Seq<Tick<Fixed>>,
    centre: int,
    fused: FusedTick<Fixed>,
)
    requires
        are_countable(ticks),
        fuses(ticks, centre, fused),
    ensures
        averages(
            ticks,
            fused.volume,
            fused.notional,
            fused.price,
            Fixed::of_int(0),
            fused.buy_ratio,
        ),
        fused.tick_count == ticks.len(),
        fused.ts_micros == centre,
{
    totals_average(ticks, Fixed::of_int(0));
}

/// The totals of a bar are those of its trades, as a bucket's are; it opens with the first
/// price and closes with the last one, its range reaches to two of its prices, and no
/// price lies outside.
pub proof fn bar_totals_are_those_of_its_trades(ticks: Seq<Tick<Fixed>>) -> (r: (int, int))
    requires
        are_countable(ticks),
        forall|i: int| 0 <= i < ticks.len() ==> (#[trigger] ticks[i]).price.units < i64::MAX,
        ticks.len() <= usize::MAX,
    ensures
        0 <= r.0 < ticks.len(),
        0 <= r.1 < ticks.len(),
        bar_of(ticks) matches Some(bar) && {
            &&& averages(
                ticks,
                bar.volume,
                bar.notional,
                bar.vwap,
                ticks[0].price,
                bar.buy_ratio,
            )
            &&& bar.tick_count == ticks.len()
            &&& bar.open == ticks[0].price
            &&& bar.close == ticks[ticks.len() - 1].price
            &&& bar.open_ts == ticks[0].ts_micros
            &&& bar.close_ts == ticks[ticks.len() - 1].ts_micros
            &&& bar.high == ticks[r.0].price
            &&& bar.low == ticks[r.1].price
            &&& forall|i: int|
                0 <= i < ticks.len() ==> bar.low.units <= (#[trigger] ticks[i]).price.units
                    <= bar.high.units
        },
{
    totals_average(ticks, ticks[0].price);
    bar_reaches_its_prices(ticks)
}

proof fn bar_reaches_its_prices(ticks: Seq<Tick<Fixed>>) -> (r: (int, int))
    requires
        ticks.len() > 0,
        forall|i: int|
            0 <= i < ticks.len() ==> 0 <= (#[trigger] ticks[i]).price.units < i64::MAX,
    ensures
        0 <= r.0 < ticks.len(),
        0 <= r.1 < ticks.len(),
        high_of(ticks) == ticks[r.0].price,
        low_of(ticks) == ticks[r.1].price,
        forall|i: int|
            0 <= i < ticks.len() ==> low_of(ticks).units <= (#[trigger] ticks[i]).price.units
                <= high_of(ticks).units,
    decreases ticks.len(),
{
    let rest = ticks.drop_last();
    let n = ticks.len() - 1;
    let p = ticks[n].price;
    if n == 0 {
        assert(high_of(rest) == Fixed::bottom() && low_of(rest) == Fixed::top());
        (0, 0)
    } else {
        assert forall|i: int| 0 <= i < rest.len() implies 0 <= (#[trigger] rest[i]).price.units
            < i64::MAX by {
            assert(rest[i] == ticks[i]);
        }
        let (a, b) = bar_reaches_its_prices(rest);
        assert forall|i: int| 0 <= i < ticks.len() implies low_of(ticks).units <= (
        #[trigger] ticks[i]).price.units <= high_of(ticks).units by {
            if i < n {
                assert(rest[i] == ticks[i]);
            }
        }
        (if high_of(ticks) == p { n } else { a }, if low_of(ticks) == p { n } else { b })
    }
}

/// A bucket's time is the middle of it: it lies as far behind the start as before the end,
/// up to a microsecond.
pub proof fn bucket_time_is_its_middle(id: int, width: int)
    requires
        width > 0,
    ensures
        ({
            let from_start = bucket_centre(id, width) - id * width;
            let to_end = (id + 1) * width - bucket_centre(id, width);
            0 <= to_end - from_start <= 1
        }),
{
    assert((id + 1) * width == id * width + width) by (nonlinear_arith);
}

/// In exact decimals the spread fraction times the price is the spread, up to what the
/// division drops.
pub proof fn spread_fraction_is_of_the_price(spread: Fixed, price: Fixed)
    requires
        spread.units >= 0,
        spread.units * UNITS < i64::MAX * price.units,
    ensures
        price.units > 0 ==> is_floor_of(
            spread_fraction(spread, price).units as int,
            spread.units * UNITS,
            price.units as int,
        ),
{
    let (s, p, u) = (spread.units as int, price.units as int, UNITS as int);
    if p > 0 {
        let q = (s * u) / p;
        assert(0 <= s * u && q * p <= s * u && s * u < q * p + p && 0 <= q) by (nonlinear_arith)
            requires
                s >= 0,
                p > 0,
                u > 0,
                q == (s * u) / p,
        ;
        assert(q <= i64::MAX) by (nonlinear_arith)
            requires
                q * p <= s * u,
                s * u < i64::MAX * p,
                p > 0,
        ;
    }
}

} // verus!
