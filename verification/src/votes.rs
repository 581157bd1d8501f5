//! Weighted votes on the direction of the market.

use vstd::prelude::*;
use crate::number::{is_ordered, Number};
use crate::types::TrendDirection;

verus! {

/// The weight behind each direction.
#[derive(Debug, Clone, Copy)]
pub struct Votes<N> {
    pub bull: N,
    pub bear: N,
    pub side: N,
}

impl<N: Number> Votes<N> {
    /// No vote yet.
    pub open spec fn none() -> Self {
        Votes { bull: N::of_int(0), bear: N::of_int(0), side: N::of_int(0) }
    }

    /// One more vote.
    pub open spec fn with(self, direction: TrendDirection, weight: N) -> Self {
        match direction {
            TrendDirection::Bullish => Votes { bull: self.bull.sum(weight), ..self },
            TrendDirection::Bearish => Votes { bear: self.bear.sum(weight), ..self },
            TrendDirection::Sideways => Votes { side: self.side.sum(weight), ..self },
        }
    }

    /// The weight of all votes.
    pub open spec fn weight(self) -> N {
        self.bull.sum(self.bear).sum(self.side)
    }

    /// The weight behind one direction.
    pub open spec fn behind(self, direction: TrendDirection) -> N {
        match direction {
            TrendDirection::Bullish => self.bull,
            TrendDirection::Bearish => self.bear,
            TrendDirection::Sideways => self.side,
        }
    }

    /// The direction with the most weight: the first of bullish, bearish and
    /// sideways that no other outweighs.
    pub open spec fn leader(self) -> TrendDirection {
        if self.bear.is_at_most(self.bull) && self.side.is_at_most(self.bull) {
            TrendDirection::Bullish
        } else if self.side.is_at_most(self.bear) {
            TrendDirection::Bearish
        } else {
            TrendDirection::Sideways
        }
    }

    /// No vote yet.
    pub fn new() -> (r: Self)
        ensures
            r == Self::none(),
    {
        let zero = N::from_int(0);
        Votes { bull: zero, bear: zero, side: zero }
    }

    /// Counts one more vote.
    pub fn cast(&mut self, direction: TrendDirection, weight: N)
        ensures
            *final(self) == old(self).with(direction, weight),
    {
        match direction {
            TrendDirection::Bullish => self.bull = self.bull.add(weight),
            TrendDirection::Bearish => self.bear = self.bear.add(weight),
            TrendDirection::Sideways => self.side = self.side.add(weight),
        }
    }

    /// The weight of all votes.
    pub fn total(&self) -> (r: N)
        ensures
            r == self.weight(),
    {
        self.bull.add(self.bear).add(self.side)
    }

    /// The leading direction and the weight behind it.
    pub fn winner(&self) -> (r: (TrendDirection, N))
        ensures
            r == (self.leader(), self.behind(self.leader())),
    {
        if self.bear.at_most(self.bull) && self.side.at_most(self.bull) {
            (TrendDirection::Bullish, self.bull)
        } else if self.side.at_most(self.bear) {
            (TrendDirection::Bearish, self.bear)
        } else {
            (TrendDirection::Sideways, self.side)
        }
    }
}

/// No direction outweighs the leader.
pub proof fn leader_is_not_outweighed<N: Number>(votes: Votes<N>, other: TrendDirection)
    requires
        is_ordered::<N>(),
        votes.bull.is_number(),
        votes.bear.is_number(),
        votes.side.is_number(),
    ensures
        !votes.behind(votes.leader()).is_below(votes.behind(other)),
{
}

} // verus!
