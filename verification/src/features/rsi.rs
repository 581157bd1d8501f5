//! Relative strength index.

use vstd::prelude::*;
use crate::number::{is_between, is_monotone, not_negative, zero_is_not_negative, Number};

verus! {

/// How many price changes the index averages over.
pub const RSI_PERIOD: usize = 14;

/// What a [`Rsi`] remembers.
#[derive(Debug, Clone, Copy)]
pub struct RsiState<N> {
    /// The last price.
    pub prev: Option<N>,
    /// How many changes have been counted, up to the period.
    pub count: usize,
    pub avg_gain: N,
    pub avg_loss: N,
}

/// An average after one more amount: the plain mean of the first changes, then
/// Wilder's smoothing, in which the newest change has the weight of one period.
pub open spec fn wilder<N: Number>(count: usize, avg: N, amount: N) -> N {
    let period = N::of_int(RSI_PERIOD as int);
    if count < RSI_PERIOD {
        avg.sum(amount.quotient(period))
    } else {
        avg.product(period.difference(N::of_int(1))).sum(amount).quotient(period)
    }
}

impl<N: Number> RsiState<N> {
    /// No price yet.
    pub open spec fn start() -> Self {
        RsiState { prev: None, count: 0, avg_gain: N::of_int(0), avg_loss: N::of_int(0) }
    }

    /// After one more price.
    pub open spec fn with(self, price: N) -> Self {
        let zero = N::of_int(0);
        match self.prev {
            None => RsiState { prev: Some(price), ..self },
            Some(prev) => {
                let change = price.difference(prev);
                RsiState {
                    prev: Some(price),
                    count: if self.count < RSI_PERIOD { (self.count + 1) as usize } else { self.count },
                    avg_gain: wilder(self.count, self.avg_gain, change.larger(zero)),
                    avg_loss: wilder(self.count, self.avg_loss, zero.difference(change).larger(zero)),
                }
            },
        }
    }

    /// 100 - 100 / (1 + gain / loss); 100 without losses, `None` before the first
    /// period is full.
    pub open spec fn index(self) -> Option<N> {
        let hundred = N::of_int(100);
        if self.count < RSI_PERIOD {
            None
        } else if self.avg_loss.is_same(N::of_int(0)) {
            Some(hundred)
        } else {
            Some(
                hundred.difference(
                    hundred.quotient(N::of_int(1).sum(self.avg_gain.quotient(self.avg_loss))),
                ),
            )
        }
    }
}

/// Wilder's relative strength index over 14 price changes.
#[derive(Debug)]
pub struct Rsi<N> {
    state: RsiState<N>,
}

impl<N: Number> View for Rsi<N> {
    type V = RsiState<N>;

    closed spec fn view(&self) -> RsiState<N> {
        self.state
    }
}

fn smooth<N: Number>(count: usize, avg: N, amount: N) -> (r: N)
    ensures
        r == wilder(count, avg, amount),
{
    let period = N::from_int(RSI_PERIOD as i128);
    if count < RSI_PERIOD {
        avg.add(amount.div(period))
    } else {
        avg.mul(period.sub(N::from_int(1))).add(amount).div(period)
    }
}

impl<N: Number> Rsi<N> {
    pub fn new() -> (r: Self)
        ensures
            r@ == RsiState::<N>::start(),
    {
        Rsi {
            state: RsiState {
                prev: None,
                count: 0,
                avg_gain: N::from_int(0),
                avg_loss: N::from_int(0),
            },
        }
    }

    /// Takes in one more price.
    pub fn update(&mut self, price: N)
        ensures
            final(self)@ == old(self)@.with(price),
    {
        let zero = N::from_int(0);
        match self.state.prev {
            None => {},
            Some(prev) => {
                let change = price.sub(prev);
                let count: usize = self.state.count;
                self.state.avg_gain = smooth(count, self.state.avg_gain, change.max(zero));
                self.state.avg_loss = smooth(count, self.state.avg_loss, zero.sub(change).max(zero));
                if count < RSI_PERIOD {
                    self.state.count = count + 1;
                }
            },
        }
        self.state.prev = Some(price);
    }

    /// The index, between 0 and 100; `None` before the first period is full.
    pub fn value(&self) -> (r: Option<N>)
        ensures
            r == self@.index(),
    {
        let hundred = N::from_int(100);
        if self.state.count < RSI_PERIOD {
            None
        } else if self.state.avg_loss.same(N::from_int(0)) {
            Some(hundred)
        } else {
            let strength = self.state.avg_gain.div(self.state.avg_loss);
            Some(hundred.sub(hundred.div(N::from_int(1).add(strength))))
        }
    }
}

/// The averages never turn negative, whatever the prices.
pub proof fn rsi_averages_are_not_negative<N: Number>(state: RsiState<N>, price: N)
    requires
        is_monotone::<N>(),
        not_negative(state.avg_gain),
        not_negative(state.avg_loss),
    ensures
        not_negative(state.with(price).avg_gain),
        not_negative(state.with(price).avg_loss),
{
    reveal(is_monotone);
    if let Some(prev) = state.prev {
        let zero = N::of_int(0);
        let change = price.difference(prev);
        wilder_is_not_negative(state.count, state.avg_gain, change.larger(zero));
        wilder_is_not_negative(state.count, state.avg_loss, zero.difference(change).larger(zero));
    }
}

proof fn wilder_is_not_negative<N: Number>(count: usize, avg: N, amount: N)
    requires
        is_monotone::<N>(),
        not_negative(avg),
        not_negative(amount),
    ensures
        not_negative(wilder(count, avg, amount)),
{
    reveal(is_monotone);
    let (zero, one, period) = (N::of_int(0), N::of_int(1), N::of_int(RSI_PERIOD as int));
    assert(zero.is_below(period));
    assert(!period.is_same(zero));
    let rest = period.difference(one);
    assert(!period.is_below(one));
    assert(not_negative(rest));
    assert(not_negative(amount.quotient(period)));
    assert(not_negative(avg.product(rest)));
    assert(not_negative(avg.product(rest).sum(amount)));
}

/// The index lies between 0 and 100 on averages that are not negative.
pub proof fn rsi_keeps_its_range<N: Number>(state: RsiState<N>)
    requires
        is_monotone::<N>(),
        not_negative(state.avg_gain),
        not_negative(state.avg_loss),
    ensures
        state.index() matches Some(x) ==> is_between(N::of_int(0), x, N::of_int(100)),
{
    reveal(is_monotone);
    let (zero, one, hundred) = (N::of_int(0), N::of_int(1), N::of_int(100));
    assert(zero.is_below(hundred) && zero.is_below(one));
    let strength = state.avg_gain.quotient(state.avg_loss);
    let base = one.sum(strength);
    let part = hundred.quotient(base);
    if state.index() is Some && !state.avg_loss.is_same(zero) {
        assert(not_negative(strength));
        assert(!base.is_below(one));
        assert(is_between(zero, part, hundred));
        assert(not_negative(hundred.difference(part)));
    }
}

/// The state after some prices.
pub open spec fn rsi_after<N: Number>(prices: Seq<N>) -> RsiState<N>
    decreases prices.len(),
{
    if prices.len() == 0 {
        RsiState::start()
    } else {
        rsi_after(prices.drop_last()).with(prices.last())
    }
}

/// Whatever prices there have been, the index lies between 0 and 100.
pub proof fn rsi_keeps_its_range_over_a_history<N: Number>(prices: Seq<N>)
    requires
        is_monotone::<N>(),
    ensures
        not_negative(rsi_after(prices).avg_gain),
        not_negative(rsi_after(prices).avg_loss),
        rsi_after(prices).index() matches Some(x) ==> is_between(
            N::of_int(0),
            x,
            N::of_int(100),
        ),
    decreases prices.len(),
{
    zero_is_not_negative::<N>();
    if prices.len() > 0 {
        rsi_keeps_its_range_over_a_history(prices.drop_last());
        rsi_averages_are_not_negative(rsi_after(prices.drop_last()), prices.last());
    }
    rsi_keeps_its_range(rsi_after(prices));
}

} // verus!
