//! A time window of paired amounts with running totals.

use vstd::prelude::*;
use crate::number::{Fixed, Number};
use crate::window::{fresh_suffix, pop_stale, stale_prefix, stale_prefix_step};
use std::collections::VecDeque;

verus! {

/// What a [`RunningSums`] holds.
#[verifier::ext_equal]
pub struct SumsView<N> {
    /// The window's length in microseconds.
    pub window: int,
    /// (time, first amount, second amount), oldest first.
    pub entries: Seq<(i64, N, N)>,
    /// Running total of the first amounts.
    pub first: N,
    /// Running total of the second amounts.
    pub second: N,
}

/// A total once the first amounts of `gone` are taken off, oldest first.
pub open spec fn less_first<N: Number>(total: N, gone: Seq<(i64, N, N)>) -> N
    decreases gone.len(),
{
    if gone.len() == 0 {
        total
    } else {
        less_first(total, gone.drop_last()).difference(gone.last().1)
    }
}

/// A total once the second amounts of `gone` are taken off, oldest first.
pub open spec fn less_second<N: Number>(total: N, gone: Seq<(i64, N, N)>) -> N
    decreases gone.len(),
{
    if gone.len() == 0 {
        total
    } else {
        less_second(total, gone.drop_last()).difference(gone.last().2)
    }
}

/// The sum of the first amounts of a window.
pub open spec fn first_total<N: Number>(entries: Seq<(i64, N, N)>) -> N
    decreases entries.len(),
{
    if entries.len() == 0 {
        N::of_int(0)
    } else {
        first_total(entries.drop_last()).sum(entries.last().1)
    }
}

/// The sum of the second amounts of a window.
pub open spec fn second_total<N: Number>(entries: Seq<(i64, N, N)>) -> N
    decreases entries.len(),
{
    if entries.len() == 0 {
        N::of_int(0)
    } else {
        second_total(entries.drop_last()).sum(entries.last().2)
    }
}

impl<N: Number> SumsView<N> {
    /// The running totals are the sums over the window: no rounding has got between
    /// what an entry added and what it took off again.
    pub open spec fn undrifted(self) -> bool {
        &&& self.first == first_total(self.entries)
        &&& self.second == second_total(self.entries)
    }

    /// An empty window.
    pub open spec fn empty(window: int) -> Self {
        SumsView { window, entries: Seq::empty(), first: N::of_int(0), second: N::of_int(0) }
    }

    /// A pair of amounts is recorded, and what has left the window is taken off.
    pub open spec fn updated(self, ts: i64, a: N, b: N) -> Self {
        let all = self.entries.push((ts, a, b));
        let gone = all.take(stale_prefix(all, ts - self.window) as int);
        SumsView {
            window: self.window,
            entries: fresh_suffix(all, ts - self.window),
            first: less_first(self.first.sum(a), gone),
            second: less_second(self.second.sum(b), gone),
        }
    }
}

/// A time window of paired amounts: the totals are kept up as entries come and go,
/// so that reading them takes constant time.
#[derive(Debug)]
pub struct RunningSums<N> {
    window_micros: i64,
    entries: VecDeque<(i64, N, N)>,
    first: N,
    second: N,
}

impl<N: Number> View for RunningSums<N> {
    type V = SumsView<N>;

    closed spec fn view(&self) -> SumsView<N> {
        SumsView {
            window: self.window_micros as int,
            entries: self.entries@,
            first: self.first,
            second: self.second,
        }
    }
}

impl<N: Number> RunningSums<N> {
    /// An empty window of `window_secs` seconds.
    pub fn new(window_secs: i64) -> (r: Self)
        requires
            i64::MIN <= window_secs * 1_000_000 <= i64::MAX,
        ensures
            r@ == SumsView::<N>::empty(window_secs * 1_000_000),
    {
        RunningSums {
            window_micros: window_secs * 1_000_000,
            entries: VecDeque::new(),
            first: N::from_int(0),
            second: N::from_int(0),
        }
    }

    /// Records a pair of amounts and takes off what has left the window.
    pub fn update(&mut self, ts: i64, a: N, b: N)
        requires
            i64::MIN <= ts - old(self)@.window <= i64::MAX,
        ensures
            final(self)@ == old(self)@.updated(ts, a, b),
    {
        self.first = self.first.add(a);
        self.second = self.second.add(b);
        self.entries.push_back((ts, a, b));
        let cutoff: i64 = ts - self.window_micros;
        let ghost all = self.entries@;
        let ghost (start_first, start_second) = (self.first, self.second);
        let ghost mut k: int = 0;
        assert(all.skip(0) =~= all);
        loop
            invariant
                self.window_micros == old(self).window_micros,
                cutoff == ts - self.window_micros,
                0 <= k <= all.len(),
                self.entries@ == all.skip(k),
                stale_prefix(all, cutoff as int) == k + stale_prefix(self.entries@, cutoff as int),
                self.first == less_first(start_first, all.take(k)),
                self.second == less_second(start_second, all.take(k)),
            ensures
                self.window_micros == old(self).window_micros,
                k == stale_prefix(all, cutoff as int),
                self.entries@ == all.skip(k),
                self.first == less_first(start_first, all.take(k)),
                self.second == less_second(start_second, all.take(k)),
            decreases self.entries@.len(),
        {
            let ghost before = self.entries@;
            match pop_stale(&mut self.entries, cutoff) {
                Some(e) => {
                    proof {
                        stale_prefix_step(before, cutoff as int);
                        assert(before.drop_first() =~= all.skip(k + 1));
                        assert(all.take(k + 1).drop_last() =~= all.take(k));
                        assert(all.take(k + 1).last() == e);
                        k = k + 1;
                    }
                    self.first = self.first.sub(e.1);
                    self.second = self.second.sub(e.2);
                },
                None => {
                    break;
                },
            }
        }
    }

    /// How many entries the window holds.
    pub fn len(&self) -> (r: usize)
        ensures
            r == self@.entries.len(),
    {
        self.entries.len()
    }

    /// Running total of the first amounts.
    pub fn first(&self) -> (r: N)
        ensures
            r == self@.first,
    {
        self.first
    }

    /// Running total of the second amounts.
    pub fn second(&self) -> (r: N)
        ensures
            r == self@.second,
    {
        self.second
    }
}

// ---------------------------------------------------------------------------
// The running totals are the window's totals
// ---------------------------------------------------------------------------
/// The sum of the first amounts of a window of exact decimals, in units.
pub open spec fn first_units(entries: Seq<(i64, Fixed, Fixed)>) -> int
    decreases entries.len(),
{
    if entries.len() == 0 {
        0
    } else {
        first_units(entries.drop_last()) + entries.last().1.units
    }
}

/// The sum of the second amounts of a window of exact decimals, in units.
pub open spec fn second_units(entries: Seq<(i64, Fixed, Fixed)>) -> int
    decreases entries.len(),
{
    if entries.len() == 0 {
        0
    } else {
        second_units(entries.drop_last()) + entries.last().2.units
    }
}

proof fn units_split(entries: Seq<(i64, Fixed, Fixed)>, k: int)
    requires
        0 <= k <= entries.len(),
    ensures
        first_units(entries) == first_units(entries.take(k)) + first_units(entries.skip(k)),
        second_units(entries) == second_units(entries.take(k)) + second_units(entries.skip(k)),
    decreases entries.len() - k,
{
    if k == entries.len() {
        assert(entries.take(k) =~= entries);
        assert(entries.skip(k).len() == 0);
    } else {
        units_split(entries.drop_last(), k);
        assert(entries.drop_last().take(k) =~= entries.take(k));
        assert(entries.drop_last().skip(k) =~= entries.skip(k).drop_last());
        assert(entries.skip(k).last() == entries.last());
    }
}

proof fn less_is_exact(all: Seq<(i64, Fixed, Fixed)>, k: int, first: Fixed, second: Fixed)
    requires
        0 <= k <= all.len(),
        first.units == first_units(all),
        second.units == second_units(all),
        forall|j: int|
            0 <= j <= k ==> {
                &&& i64::MIN <= #[trigger] first_units(all.skip(j)) <= i64::MAX
                &&& i64::MIN <= second_units(all.skip(j)) <= i64::MAX
            },
    ensures
        less_first(first, all.take(k)).units == first_units(all.skip(k)),
        less_second(second, all.take(k)).units == second_units(all.skip(k)),
    decreases k,
{
    if k == 0 {
        assert(all.skip(0) =~= all);
    } else {
        less_is_exact(all, k - 1, first, second);
        assert(all.take(k).drop_last() =~= all.take(k - 1));
        units_split(all.skip(k - 1), 1);
        assert(all.skip(k - 1).skip(1) =~= all.skip(k));
        let head = all.skip(k - 1).take(1);
        assert(head =~= seq![all[k - 1]]);
        assert(head.drop_last().len() == 0);
        assert(first_units(head.drop_last()) == 0 && second_units(head.drop_last()) == 0);
        assert(head.last() == all[k - 1]);
        assert(first_units(all.skip(k)) == first_units(all.skip(k)));
    }
}

/// On exact decimals the running totals never drift: while no total leaves the
/// range, an update keeps each equal to the sum over the window's entries.
pub proof fn running_sums_are_window_sums(v: SumsView<Fixed>, ts: i64, a: Fixed, b: Fixed)
    requires
        v.first.units == first_units(v.entries),
        v.second.units == second_units(v.entries),
        forall|j: int|
            0 <= j <= v.entries.len() + 1 ==> {
                &&& i64::MIN <= #[trigger] first_units(v.entries.push((ts, a, b)).skip(j))
                    <= i64::MAX
                &&& i64::MIN <= second_units(v.entries.push((ts, a, b)).skip(j)) <= i64::MAX
            },
    ensures
        v.updated(ts, a, b).first.units == first_units(v.updated(ts, a, b).entries),
        v.updated(ts, a, b).second.units == second_units(v.updated(ts, a, b).entries),
{
    let all = v.entries.push((ts, a, b));
    assert(all.drop_last() =~= v.entries);
    assert(all.skip(0) =~= all);
    assert(i64::MIN <= first_units(all.skip(0)) <= i64::MAX);
    crate::window::eviction_drops_the_stale_front(all, ts - v.window);
    less_is_exact(all, stale_prefix(all, ts - v.window) as int, v.first.sum(a), v.second.sum(b));
}

/// Every amount of a window of exact decimals is not negative.
pub open spec fn units_not_negative(entries: Seq<(i64, Fixed, Fixed)>) -> bool {
    forall|i: int|
        0 <= i < entries.len() ==> (#[trigger] entries[i]).1.units >= 0 && entries[i].2.units >= 0
}

proof fn units_are_not_negative(entries: Seq<(i64, Fixed, Fixed)>)
    requires
        units_not_negative(entries),
    ensures
        first_units(entries) >= 0,
        second_units(entries) >= 0,
    decreases entries.len(),
{
    if entries.len() > 0 {
        assert forall|i: int| 0 <= i < entries.drop_last().len() implies (
        #[trigger] entries.drop_last()[i]).1.units >= 0 && entries.drop_last()[i].2.units >= 0 by {
            assert(entries.drop_last()[i] == entries[i]);
        }
        units_are_not_negative(entries.drop_last());
        assert(entries[entries.len() - 1].1.units >= 0);
    }
}

proof fn totals_are_units(entries: Seq<(i64, Fixed, Fixed)>)
    requires
        units_not_negative(entries),
        first_units(entries) <= i64::MAX,
        second_units(entries) <= i64::MAX,
    ensures
        first_total(entries).units == first_units(entries),
        second_total(entries).units == second_units(entries),
    decreases entries.len(),
{
    if entries.len() > 0 {
        let rest = entries.drop_last();
        assert forall|i: int| 0 <= i < rest.len() implies (#[trigger] rest[i]).1.units >= 0
            && rest[i].2.units >= 0 by {
            assert(rest[i] == entries[i]);
        }
        units_are_not_negative(rest);
        assert(entries[entries.len() - 1].1.units >= 0);
        totals_are_units(rest);
    }
}

/// On exact decimals a window of amounts that are not negative never drifts, while its
/// totals stay within the range.
pub proof fn exact_windows_do_not_drift(v: SumsView<Fixed>, ts: i64, a: Fixed, b: Fixed)
    requires
        v.undrifted(),
        units_not_negative(v.entries),
        a.units >= 0,
        b.units >= 0,
        first_units(v.entries) + a.units <= i64::MAX,
        second_units(v.entries) + b.units <= i64::MAX,
    ensures
        v.updated(ts, a, b).undrifted(),
        units_not_negative(v.updated(ts, a, b).entries),
{
    let all = v.entries.push((ts, a, b));
    assert(all.drop_last() =~= v.entries);
    totals_are_units(v.entries);
    assert forall|j: int| 0 <= j <= all.len() implies {
        &&& units_not_negative(all.skip(j))
        &&& 0 <= #[trigger] first_units(all.skip(j)) <= i64::MAX
        &&& 0 <= second_units(all.skip(j)) <= i64::MAX
    } by {
        assert forall|i: int| 0 <= i < all.len() implies (#[trigger] all[i]).1.units >= 0
            && all[i].2.units >= 0 by {
            if i < v.entries.len() {
                assert(all[i] == v.entries[i]);
            }
        }
        let (head, tail) = (all.take(j), all.skip(j));
        assert forall|i: int| 0 <= i < head.len() implies (#[trigger] head[i]).1.units >= 0
            && head[i].2.units >= 0 by {
            assert(head[i] == all[i]);
        }
        assert forall|i: int| 0 <= i < tail.len() implies (#[trigger] tail[i]).1.units >= 0
            && tail[i].2.units >= 0 by {
            assert(tail[i] == all[i + j]);
        }
        units_split(all, j);
        units_are_not_negative(head);
        units_are_not_negative(tail);
    }
    running_sums_are_window_sums(v, ts, a, b);
    crate::window::eviction_drops_the_stale_front(all, ts - v.window);
    let k = stale_prefix(all, ts - v.window) as int;
    assert(0 <= first_units(all.skip(k)) <= i64::MAX);
    totals_are_units(all.skip(k));
}

} // verus!
