//! Log-returns over a time horizon and their realised volatility.

use vstd::prelude::*;
use crate::features::running::{RunningSums, SumsView};
use crate::number::{is_ln, is_sqrt, towards_zero, Analytic, Number};
use std::collections::VecDeque;

verus! {

// ---------------------------------------------------------------------------
// Time-windowed log-return tracker
// ---------------------------------------------------------------------------
/// What is left once every entry is gone whose successor is at `limit` or before
/// it: the front is then the last entry at the limit, if one is that old.
pub open spec fn from_reference<N>(entries: Seq<(i64, N)>, limit: int) -> Seq<(i64, N)>
    decreases entries.len(),
{
    if entries.len() > 1 && entries[1].0 <= limit {
        from_reference(entries.drop_first(), limit)
    } else {
        entries
    }
}

/// What is left once the front entries before `cutoff` are gone; the last entry
/// always stays.
pub open spec fn without_ancient<N>(entries: Seq<(i64, N)>, cutoff: int) -> Seq<(i64, N)>
    decreases entries.len(),
{
    if entries.len() > 1 && entries[0].0 < cutoff {
        without_ancient(entries.drop_first(), cutoff)
    } else {
        entries
    }
}

/// The entries that a horizon keeps at time `ts`.
pub open spec fn horizon_entries<N>(entries: Seq<(i64, N)>, ts: int, horizon: int) -> Seq<
    (i64, N),
> {
    without_ancient(from_reference(entries, ts - horizon), ts - horizon * 2)
}

/// Tracks the price a horizon ago and delivers a log-return on demand.
#[derive(Debug)]
pub struct WindowedReturn<N> {
    horizon_micros: i64,
    /// (time, log price), oldest first.
    buf: VecDeque<(i64, N)>,
}

impl<N: Analytic> WindowedReturn<N> {
    /// The horizon in microseconds.
    pub closed spec fn horizon(self) -> int {
        self.horizon_micros as int
    }

    /// (time, log price), oldest first.
    pub closed spec fn entries(self) -> Seq<(i64, N)> {
        self.buf@
    }

    /// No price yet, and a horizon of `horizon_secs` seconds.
    pub fn new(horizon_secs: i64) -> (r: Self)
        requires
            i64::MIN <= horizon_secs * 1_000_000 <= i64::MAX,
        ensures
            r.horizon() == horizon_secs * 1_000_000,
            r.entries() == Seq::<(i64, N)>::empty(),
    {
        WindowedReturn { horizon_micros: horizon_secs * 1_000_000, buf: VecDeque::new() }
    }

    /// Records a price (unless it is not positive) and drops the prices that are
    /// too old to be the reference.
    pub fn update(&mut self, ts: i64, price: N)
        requires
            i64::MIN <= old(self).horizon() * 2 <= i64::MAX,
            i64::MIN <= ts - old(self).horizon() <= i64::MAX,
            i64::MIN <= ts - old(self).horizon() * 2 <= i64::MAX,
        ensures
            final(self).horizon() == old(self).horizon(),
            return_recorded(
                old(self).entries(),
                final(self).entries(),
                ts,
                price,
                old(self).horizon(),
            ),
    {
        let ghost mut recorded = self.buf@;
        if N::from_int(0).below(price) {
            let lp = price.ln();
            self.buf.push_back((ts, lp));
            proof {
                recorded = recorded.push((ts, lp));
                assert(is_ln(price, lp));
            }
        }
        let limit: i64 = ts - self.horizon_micros;
        let cutoff: i64 = ts - self.horizon_micros * 2;
        while self.buf.len() > 1 && self.buf[1].0 <= limit
            invariant
                self.horizon_micros == old(self).horizon_micros,
                from_reference(self.buf@, limit as int) == from_reference(recorded, limit as int),
            ensures
                self.horizon_micros == old(self).horizon_micros,
                self.buf@ == from_reference(recorded, limit as int),
            decreases self.buf@.len(),
        {
            assert(self.buf@.subrange(1, self.buf@.len() as int) =~= self.buf@.drop_first());
            self.buf.pop_front();
        }
        let ghost referenced = self.buf@;
        while self.buf.len() > 1 && self.buf[0].0 < cutoff
            invariant
                self.horizon_micros == old(self).horizon_micros,
                without_ancient(self.buf@, cutoff as int) == without_ancient(
                    referenced,
                    cutoff as int,
                ),
            ensures
                self.horizon_micros == old(self).horizon_micros,
                self.buf@ == without_ancient(referenced, cutoff as int),
            decreases self.buf@.len(),
        {
            assert(self.buf@.subrange(1, self.buf@.len() as int) =~= self.buf@.drop_first());
            self.buf.pop_front();
        }
    }

    /// Log-return from the reference price to `log_price_now`.
    /// `None` until the history covers half the horizon.
    pub fn value(&self, log_price_now: N) -> (r: Option<N>)
        ensures
            r == return_over(self.entries(), self.horizon(), log_price_now),
    {
        let n: usize = self.buf.len();
        if n == 0 {
            return None;
        }
        let (oldest_ts, oldest_lp) = self.buf[0];
        let newest_ts: i64 = self.buf[n - 1].0;
        let half: i64 = match self.horizon_micros.checked_div(2) {
            Some(h) => h,
            None => 0,
        };
        if (newest_ts as i128 - oldest_ts as i128) < half as i128 {
            return None;
        }
        Some(log_price_now.sub(oldest_lp))
    }
}

/// The entries after a price was recorded at `ts`.
pub open spec fn return_recorded<N: Analytic>(
    old_entries: Seq<(i64, N)>,
    new_entries: Seq<(i64, N)>,
    ts: i64,
    price: N,
    horizon: int,
) -> bool {
    if N::of_int(0).is_below(price) {
        exists|lp: N|
            #[trigger] is_ln(price, lp) && new_entries == horizon_entries(
                old_entries.push((ts, lp)),
                ts as int,
                horizon,
            )
    } else {
        new_entries == horizon_entries(old_entries, ts as int, horizon)
    }
}

/// The log-return of a window, once it spans half its horizon.
pub open spec fn return_over<N: Number>(
    entries: Seq<(i64, N)>,
    horizon: int,
    log_price_now: N,
) -> Option<N> {
    if entries.len() == 0 || entries.last().0 - entries[0].0 < towards_zero(horizon, 2) {
        None
    } else {
        Some(log_price_now.difference(entries[0].1))
    }
}

/// In a window whose times never go back, the reference is the latest price that
/// is at least a horizon old, whenever there is one.
pub proof fn reference_is_a_horizon_old<N>(entries: Seq<(i64, N)>, limit: int, k: int)
    requires
        forall|i: int, j: int| 0 <= i <= j < entries.len() ==> entries[i].0 <= entries[j].0,
        0 <= k < entries.len(),
        entries[k].0 <= limit,
        forall|i: int| k < i < entries.len() ==> (#[trigger] entries[i]).0 > limit,
    ensures
        from_reference(entries, limit) == entries.skip(k),
    decreases k,
{
    if k == 0 {
        if entries.len() > 1 {
            assert(entries[1].0 > limit);
        }
        assert(entries.skip(0) =~= entries);
    } else {
        assert(entries[1].0 <= entries[k].0);
        let rest = entries.drop_first();
        assert forall|i: int| k - 1 < i < rest.len() implies (#[trigger] rest[i]).0 > limit by {
            assert(entries[i + 1].0 > limit);
        }
        reference_is_a_horizon_old(rest, limit, k - 1);
        assert(rest.skip(k - 1) =~= entries.skip(k));
    }
}

/// A window never loses its newest entry, so it stays usable through a silence.
pub proof fn newest_entry_stays<N>(entries: Seq<(i64, N)>, ts: int, horizon: int)
    requires
        entries.len() > 0,
    ensures
        horizon_entries(entries, ts, horizon).len() > 0,
        horizon_entries(entries, ts, horizon).last() == entries.last(),
{
    newest_after_reference(entries, ts - horizon);
    newest_after_ancient(from_reference(entries, ts - horizon), ts - horizon * 2);
}

proof fn newest_after_reference<N>(entries: Seq<(i64, N)>, limit: int)
    requires
        entries.len() > 0,
    ensures
        from_reference(entries, limit).len() > 0,
        from_reference(entries, limit).last() == entries.last(),
    decreases entries.len(),
{
    if entries.len() > 1 && entries[1].0 <= limit {
        newest_after_reference(entries.drop_first(), limit);
    }
}

proof fn newest_after_ancient<N>(entries: Seq<(i64, N)>, cutoff: int)
    requires
        entries.len() > 0,
    ensures
        without_ancient(entries, cutoff).len() > 0,
        without_ancient(entries, cutoff).last() == entries.last(),
    decreases entries.len(),
{
    if entries.len() > 1 && entries[0].0 < cutoff {
        newest_after_ancient(entries.drop_first(), cutoff);
    }
}

// ---------------------------------------------------------------------------
// Realised volatility
// ---------------------------------------------------------------------------
/// Sample variance of `n` returns from their sum and their sum of squares.
pub open spec fn sample_variance<N: Number>(n: nat, sum: N, sum_sq: N) -> N {
    let nf = N::of_int(n as int);
    sum_sq.difference(sum.product(sum).quotient(nf)).quotient(nf.difference(N::of_int(1)))
}

/// `v` is the volatility that a window of returns reads: none before there are two
/// returns, then a square root of the sample variance (or of zero, if rounding has
/// made the variance negative).
pub open spec fn is_volatility<N: Analytic>(moves: SumsView<N>, v: Option<N>) -> bool {
    match v {
        None => moves.entries.len() < 2,
        Some(sigma) => {
            &&& moves.entries.len() >= 2
            &&& is_sqrt(
                sample_variance(moves.entries.len(), moves.first, moves.second).larger(
                    N::of_int(0),
                ),
                sigma,
            )
        },
    }
}

/// The returns after a price was recorded at `ts`: a log-return is added when both
/// the previous price and this one are positive.
pub open spec fn volatility_recorded<N: Analytic>(
    before: SumsView<N>,
    prev: Option<(i64, N)>,
    ts: i64,
    price: N,
    after: SumsView<N>,
) -> bool {
    let zero = N::of_int(0);
    match prev {
        Some((_, pp)) if zero.is_below(pp) && zero.is_below(price) => exists|r: N|
            #[trigger] is_ln(price.quotient(pp), r) && after == before.updated(
                ts,
                r,
                r.product(r),
            ),
        _ => after == before,
    }
}

/// Rolling realised volatility: sample std-dev of log-returns in a time window.
///
/// Maintains running sums so that `value` takes constant time.
#[derive(Debug)]
pub struct RealisedVol<N> {
    moves: RunningSums<N>,
    prev: Option<(i64, N)>,
}

impl<N: Analytic> RealisedVol<N> {
    /// The window of (time, return, squared return) with its totals.
    pub closed spec fn moves(self) -> SumsView<N> {
        self.moves@
    }

    /// The last recorded (time, price).
    pub closed spec fn prev(self) -> Option<(i64, N)> {
        self.prev
    }

    /// No price yet, and a window of `window_secs` seconds.
    pub fn new(window_secs: i64) -> (r: Self)
        requires
            i64::MIN <= window_secs * 1_000_000 <= i64::MAX,
        ensures
            r.moves() == SumsView::<N>::empty(window_secs * 1_000_000),
            r.prev() is None,
    {
        RealisedVol { moves: RunningSums::new(window_secs), prev: None }
    }

    /// Records a price.
    pub fn update_fused(&mut self, ts: i64, price: N)
        requires
            i64::MIN <= ts - old(self).moves().window <= i64::MAX,
        ensures
            final(self).prev() == Some((ts, price)),
            volatility_recorded(
                old(self).moves(),
                old(self).prev(),
                ts,
                price,
                final(self).moves(),
            ),
    {
        let zero = N::from_int(0);
        if let Some((_, pp)) = self.prev {
            if zero.below(pp) && zero.below(price) {
                let r = price.div(pp).ln();
                self.moves.update(ts, r, r.mul(r));
                assert(is_ln(price.quotient(pp), r));
            }
        }
        self.prev = Some((ts, price));
    }

    /// Sample standard deviation of the log-returns.
    pub fn value(&self) -> (r: Option<N>)
        ensures
            is_volatility(self.moves(), r),
    {
        let n: usize = self.moves.len();
        if n < 2 {
            return None;
        }
        let nf = N::from_int(n as i128);
        let sum = self.moves.first();
        let variance = self.moves.second().sub(sum.mul(sum).div(nf)).div(
            nf.sub(N::from_int(1)),
        );
        Some(variance.max(N::from_int(0)).sqrt())
    }
}

} // verus!
