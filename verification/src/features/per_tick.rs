//! Returns from one fused tick to the next: their smoothed variance and how far each
//! follows the one before.

use vstd::prelude::*;
use crate::features::running::{RunningSums, SumsView};
use crate::number::{
    clamp, clamped, clamped_in_interval, is_between, is_ln, is_monotone, is_sqrt, Analytic, Number,
};

verus! {

/// How long a pair of returns counts for the autocorrelation, in seconds.
pub const AUTOCORR_SECS: i64 = 300;

/// The weight of the newest squared return in the smoothed variance.
pub open spec fn newest_weight<N: Number>() -> N {
    N::of_ratio(1, 100)
}

/// The variance that the smoothing starts from: that of a volatility of 0.001, which
/// stands for one that is not known yet.
pub open spec fn prior_variance<N: Number>() -> N {
    N::of_ratio(1, 1_000_000)
}

/// What a [`TickReturns`] has accumulated.
#[verifier::ext_equal]
pub struct TickReturnsView<N> {
    /// The last price.
    pub price: Option<N>,
    /// The return that led to it.
    pub last: Option<N>,
    /// Has there been a return?
    pub seeded: bool,
    /// The smoothed squared return.
    pub variance: N,
    /// Each return's product with the one before, twice, and the sum of their squares.
    pub pairs: SumsView<N>,
}

/// The smoothed variance after a squared return.
pub open spec fn smoothed_variance<N: Number>(variance: N, square: N) -> N {
    variance.sum(newest_weight::<N>().product(square.difference(variance)))
}

impl<N: Number> TickReturnsView<N> {
    /// No price yet.
    pub open spec fn start() -> Self {
        TickReturnsView {
            price: None,
            last: None,
            seeded: false,
            variance: prior_variance(),
            pairs: SumsView::empty(AUTOCORR_SECS * 1_000_000),
        }
    }

    /// After a return `r` that led to a price.
    pub open spec fn with_return(self, ts: i64, price: N, r: N) -> Self {
        TickReturnsView {
            price: Some(price),
            last: Some(r),
            seeded: true,
            variance: smoothed_variance(self.variance, r.product(r)),
            pairs: match self.last {
                Some(q) => self.pairs.updated(
                    ts,
                    q.product(r).sum(q.product(r)),
                    q.product(q).sum(r.product(r)),
                ),
                None => self.pairs,
            },
        }
    }

    /// After a price to which no return leads.
    pub open spec fn without_return(self, price: N) -> Self {
        TickReturnsView { price: Some(price), last: None, ..self }
    }

    /// Lag-1 autocorrelation of the returns: twice the products of neighbours over the
    /// sum of their squares; `None` before there are two returns that are not both 0.
    pub open spec fn autocorrelation(self) -> Option<N> {
        if N::of_int(0).is_below(self.pairs.second) {
            Some(
                clamped(
                    self.pairs.first.quotient(self.pairs.second),
                    N::of_int(-1),
                    N::of_int(1),
                ),
            )
        } else {
            None
        }
    }
}

/// The returns after a price: a log-return counts when both the previous price and this
/// one are positive.
pub open spec fn tick_return_recorded<N: Analytic>(
    before: TickReturnsView<N>,
    ts: i64,
    price: N,
    after: TickReturnsView<N>,
) -> bool {
    let zero = N::of_int(0);
    match before.price {
        Some(pp) if zero.is_below(pp) && zero.is_below(price) => exists|r: N|
            #[trigger] is_ln(price.quotient(pp), r) && after == before.with_return(ts, price, r),
        _ => after == before.without_return(price),
    }
}

/// `v` is the volatility per tick: none before there has been a return, then a square
/// root of the smoothed variance (or of zero, if rounding has made it negative).
pub open spec fn is_tick_volatility<N: Analytic>(acc: TickReturnsView<N>, v: Option<N>) -> bool {
    match v {
        None => !acc.seeded,
        Some(sigma) => {
            &&& acc.seeded
            &&& is_sqrt(acc.variance.larger(N::of_int(0)), sigma)
        },
    }
}

/// Smoothed variance and autocorrelation of the returns between fused ticks.
#[derive(Debug)]
pub struct TickReturns<N> {
    price: Option<N>,
    last: Option<N>,
    seeded: bool,
    variance: N,
    pairs: RunningSums<N>,
}

impl<N: Analytic> View for TickReturns<N> {
    type V = TickReturnsView<N>;

    closed spec fn view(&self) -> TickReturnsView<N> {
        TickReturnsView {
            price: self.price,
            last: self.last,
            seeded: self.seeded,
            variance: self.variance,
            pairs: self.pairs@,
        }
    }
}

impl<N: Analytic> TickReturns<N> {
    pub fn new() -> (r: Self)
        ensures
            r@ == TickReturnsView::<N>::start(),
    {
        TickReturns {
            price: None,
            last: None,
            seeded: false,
            variance: N::ratio(1, 1_000_000),
            pairs: RunningSums::new(AUTOCORR_SECS),
        }
    }

    /// Records a price.
    pub fn update(&mut self, ts: i64, price: N)
        requires
            i64::MIN <= ts - old(self)@.pairs.window <= i64::MAX,
        ensures
            tick_return_recorded(old(self)@, ts, price, final(self)@),
    {
        let zero = N::from_int(0);
        let ghost before = self@;
        let mut last: Option<N> = None;
        if let Some(pp) = self.price {
            if zero.below(pp) && zero.below(price) {
                let r = price.div(pp).ln();
                assert(is_ln(price.quotient(pp), r));
                let square = r.mul(r);
                self.variance = self.variance.add(
                    N::ratio(1, 100).mul(square.sub(self.variance)),
                );
                self.seeded = true;
                if let Some(q) = self.last {
                    self.pairs.update(ts, q.mul(r).add(q.mul(r)), q.mul(q).add(square));
                }
                last = Some(r);
            }
        }
        self.last = last;
        self.price = Some(price);
        proof {
            if let Some(r) = last {
                assert(self@ == before.with_return(ts, price, r));
            } else {
                assert(self@ == before.without_return(price));
            }
        }
    }

    /// The smoothed squared return.
    pub fn ewma_variance(&self) -> (r: N)
        ensures
            r == self@.variance,
    {
        self.variance
    }

    /// The smoothed volatility per tick.
    pub fn ewma_vol(&self) -> (r: Option<N>)
        ensures
            is_tick_volatility(self@, r),
    {
        if self.seeded {
            Some(self.variance.max(N::from_int(0)).sqrt())
        } else {
            None
        }
    }

    /// Lag-1 autocorrelation of the returns, between -1 and 1.
    pub fn autocorr(&self) -> (r: Option<N>)
        ensures
            r == self@.autocorrelation(),
    {
        let squares = self.pairs.second();
        if N::from_int(0).below(squares) {
            Some(clamp(self.pairs.first().div(squares), N::from_int(-1), N::from_int(1)))
        } else {
            None
        }
    }
}

/// The autocorrelation lies between -1 and 1.
pub proof fn autocorrelation_keeps_its_range<N: Number>(acc: TickReturnsView<N>)
    requires
        is_monotone::<N>(),
    ensures
        acc.autocorrelation() matches Some(x) ==> is_between(N::of_int(-1), x, N::of_int(1)),
{
    reveal(is_monotone);
    assert(N::of_int(-1).is_below(N::of_int(1)));
    clamped_in_interval(
        acc.pairs.first.quotient(acc.pairs.second),
        N::of_int(-1),
        N::of_int(1),
    );
}

} // verus!
