//! What time windows hold of everything that was recorded.

use vstd::prelude::*;
use crate::features::running::{less_first, less_second, SumsView};
use crate::laws::decimal::{counts_in_decimals, units_in};
use crate::number::{Fixed, Number};
use crate::window::{eviction_drops_the_stale_front, fresh_suffix, in_order, stale_prefix, Stamped};

verus! {

/// `kept` is what was recorded at a time or later.
pub open spec fn is_since<T: Stamped>(all: Seq<T>, from: int, kept: Seq<T>) -> bool {
    exists|k: int|
        {
            &&& 0 <= k <= all.len()
            &&& #[trigger] all.skip(k) == kept
            &&& forall|i: int| 0 <= i < k ==> (#[trigger] all[i]).at() < from
            &&& forall|i: int| k <= i < all.len() ==> (#[trigger] all[i]).at() >= from
        }
}

/// `kept` is what was recorded up to a window before the last record.
pub open spec fn is_window<T: Stamped>(all: Seq<T>, window: int, kept: Seq<T>) -> bool {
    if all.len() == 0 {
        kept.len() == 0
    } else {
        is_since(all, all.last().at() - window, kept)
    }
}

/// A later record is more than a window younger than the `i`-th.
pub open spec fn is_outlived<T: Stamped>(all: Seq<T>, i: int, window: int) -> bool {
    exists|j: int| i < j < all.len() && all[i].at() < (#[trigger] all[j]).at() - window
}

/// `kept` is what a window holds whatever order the times come in: the last records, of
/// which the first is not too old for the last, and all that is gone had been outlived.
pub open spec fn is_recent<T: Stamped>(all: Seq<T>, window: int, kept: Seq<T>) -> bool {
    if all.len() == 0 {
        kept.len() == 0
    } else {
        exists|k: int|
            {
                &&& 0 <= k < all.len()
                &&& #[trigger] all.skip(k) == kept
                &&& all[k].at() >= all.last().at() - window
                &&& forall|i: int| 0 <= i < k ==> #[trigger] is_outlived(all, i, window)
            }
    }
}

/// A window that takes in one more record and drops what has grown too old holds what is
/// recent, whatever the times.
pub proof fn windows_stay_recent<T: Stamped>(all: Seq<T>, window: int, kept: Seq<T>, e: T)
    requires
        is_recent(all, window, kept),
        window >= 0,
    ensures
        is_recent(all.push(e), window, fresh_suffix(kept.push(e), e.at() - window)),
{
    let longer = all.push(e);
    let from = e.at() - window;
    let n = all.len() as int;
    let k = if n == 0 {
        0
    } else {
        choose|k: int|
            {
                &&& 0 <= k < all.len()
                &&& #[trigger] all.skip(k) == kept
                &&& all[k].at() >= all.last().at() - window
                &&& forall|i: int| 0 <= i < k ==> #[trigger] is_outlived(all, i, window)
            }
    };
    let held = kept.push(e);
    assert(held =~= longer.skip(k));
    assert(longer[n] == e);
    assert(held[held.len() - 1] == e);
    eviction_drops_the_stale_front(held, from);
    let m = stale_prefix(held, from) as int;
    assert(m < held.len());
    assert(fresh_suffix(held, from) =~= longer.skip(k + m));
    assert(held[m] == longer[k + m]);
    assert forall|i: int| 0 <= i < k + m implies #[trigger] is_outlived(longer, i, window) by {
        if i < k {
            assert(is_outlived(all, i, window));
            let j = choose|j: int|
                i < j < all.len() && all[i].at() < (#[trigger] all[j]).at() - window;
            assert(longer[i] == all[i] && longer[j] == all[j]);
        } else {
            assert(held[i - k] == longer[i]);
            assert(longer[i].at() < longer[n].at() - window);
        }
    }
    assert(longer.last() == e);
    assert(longer.skip(k + m) == fresh_suffix(held, from));
}

/// Where the times never go back, what is recent is the window.
pub proof fn recent_records_are_the_window<T: Stamped>(all: Seq<T>, window: int, kept: Seq<T>)
    requires
        is_recent(all, window, kept),
        in_order(all),
    ensures
        is_window(all, window, kept),
{
    if all.len() > 0 {
        let k = choose|k: int|
            {
                &&& 0 <= k < all.len()
                &&& #[trigger] all.skip(k) == kept
                &&& all[k].at() >= all.last().at() - window
                &&& forall|i: int| 0 <= i < k ==> #[trigger] is_outlived(all, i, window)
            };
        assert forall|i: int| 0 <= i < k implies (#[trigger] all[i]).at() < all.last().at()
            - window by {
            assert(is_outlived(all, i, window));
            let j = choose|j: int|
                i < j < all.len() && all[i].at() < (#[trigger] all[j]).at() - window;
            assert(all[j].at() <= all[all.len() - 1].at());
        }
        assert forall|i: int| k <= i < all.len() implies (#[trigger] all[i]).at()
            >= all.last().at() - window by {
            assert(all[k].at() <= all[i].at());
        }
        assert(all.skip(k) == kept);
    }
}

// ---------------------------------------------------------------------------
// Totals
// ---------------------------------------------------------------------------
/// The first amounts of some records in units, added up.
pub open spec fn first_in<N: Number>(d: spec_fn(N) -> Fixed, xs: Seq<(i64, N, N)>) -> int
    decreases xs.len(),
{
    if xs.len() == 0 {
        0
    } else {
        first_in(d, xs.drop_last()) + units_in(d, xs.last().1)
    }
}

/// The second amounts of some records in units, added up.
pub open spec fn second_in<N: Number>(d: spec_fn(N) -> Fixed, xs: Seq<(i64, N, N)>) -> int
    decreases xs.len(),
{
    if xs.len() == 0 {
        0
    } else {
        second_in(d, xs.drop_last()) + units_in(d, xs.last().2)
    }
}

/// Without its sign.
pub open spec fn size(x: int) -> int {
    if x >= 0 { x } else { -x }
}

/// The sizes of all amounts of some records, added up.
pub open spec fn bulk<N: Number>(d: spec_fn(N) -> Fixed, xs: Seq<(i64, N, N)>) -> int
    decreases xs.len(),
{
    if xs.len() == 0 {
        0
    } else {
        bulk(d, xs.drop_last()) + size(units_in(d, xs.last().1)) + size(units_in(d, xs.last().2))
    }
}

/// No total exceeds the bulk.
pub proof fn bulk_bounds<N: Number>(d: spec_fn(N) -> Fixed, xs: Seq<(i64, N, N)>)
    ensures
        0 <= bulk(d, xs),
        -bulk(d, xs) <= first_in(d, xs) <= bulk(d, xs),
        -bulk(d, xs) <= second_in(d, xs) <= bulk(d, xs),
    decreases xs.len(),
{
    if xs.len() > 0 {
        bulk_bounds(d, xs.drop_last());
    }
}

proof fn totals_split<N: Number>(d: spec_fn(N) -> Fixed, xs: Seq<(i64, N, N)>, k: int)
    requires
        0 <= k <= xs.len(),
    ensures
        first_in(d, xs) == first_in(d, xs.take(k)) + first_in(d, xs.skip(k)),
        second_in(d, xs) == second_in(d, xs.take(k)) + second_in(d, xs.skip(k)),
        bulk(d, xs) == bulk(d, xs.take(k)) + bulk(d, xs.skip(k)),
    decreases xs.len() - k,
{
    if k == xs.len() {
        assert(xs.take(k) =~= xs);
        assert(xs.skip(k).len() == 0);
    } else {
        totals_split(d, xs.drop_last(), k);
        assert(xs.drop_last().take(k) =~= xs.take(k));
        assert(xs.drop_last().skip(k) =~= xs.skip(k).drop_last());
        assert(xs.skip(k).last() == xs.last());
    }
}

/// A part of some records is no bulkier than all of them.
pub proof fn part_is_no_bulkier<N: Number>(d: spec_fn(N) -> Fixed, xs: Seq<(i64, N, N)>, k: int)
    requires
        0 <= k <= xs.len(),
    ensures
        bulk(d, xs.skip(k)) <= bulk(d, xs),
        bulk(d, xs.take(k)) <= bulk(d, xs),
{
    totals_split(d, xs, k);
    bulk_bounds(d, xs.take(k));
    bulk_bounds(d, xs.skip(k));
}

proof fn taking_off_is_exact<N: Number>(
    d: spec_fn(N) -> Fixed,
    all: Seq<(i64, N, N)>,
    k: int,
    first: N,
    second: N,
)
    requires
        counts_in_decimals(d),
        0 <= k <= all.len(),
        bulk(d, all) <= i64::MAX,
        units_in(d, first) == first_in(d, all),
        units_in(d, second) == second_in(d, all),
    ensures
        units_in(d, less_first(first, all.take(k))) == first_in(d, all.skip(k)),
        units_in(d, less_second(second, all.take(k))) == second_in(d, all.skip(k)),
    decreases k,
{
    if k == 0 {
        assert(all.skip(0) =~= all);
    } else {
        taking_off_is_exact(d, all, k - 1, first, second);
        assert(all.take(k).drop_last() =~= all.take(k - 1));
        assert(all.take(k).last() == all[k - 1]);
        let rest = all.skip(k - 1);
        totals_split(d, rest, 1);
        assert(rest.skip(1) =~= all.skip(k));
        let head = rest.take(1);
        assert(head.drop_last() =~= Seq::empty());
        assert(head.last() == all[k - 1]);
        assert(first_in(d, head) == units_in(d, all[k - 1].1)) by {
            reveal_with_fuel(first_in, 2);
        }
        assert(second_in(d, head) == units_in(d, all[k - 1].2)) by {
            reveal_with_fuel(second_in, 2);
        }
        bulk_bounds(d, all.skip(k));
        part_is_no_bulkier(d, all, k);
        reveal(counts_in_decimals);
    }
}

/// The running totals are those of the window's records.
pub open spec fn adds_up<N: Number>(d: spec_fn(N) -> Fixed, v: SumsView<N>) -> bool {
    &&& units_in(d, v.first) == first_in(d, v.entries)
    &&& units_in(d, v.second) == second_in(d, v.entries)
}

/// An empty window adds up.
pub proof fn empty_window_adds_up<N: Number>(d: spec_fn(N) -> Fixed, window: int)
    requires
        counts_in_decimals(d),
    ensures
        adds_up(d, SumsView::<N>::empty(window)),
{
    reveal(counts_in_decimals);
    assert(Fixed::of_int(0).units == 0);
}

/// A window that takes in a record still adds up, and holds what is recent.
pub proof fn sums_follow_the_records<N: Number>(
    d: spec_fn(N) -> Fixed,
    all: Seq<(i64, N, N)>,
    window: int,
    v: SumsView<N>,
    ts: i64,
    a: N,
    b: N,
)
    requires
        counts_in_decimals(d),
        is_recent(all, window, v.entries),
        v.window == window,
        window >= 0,
        adds_up(d, v),
        bulk(d, all.push((ts, a, b))) <= i64::MAX,
    ensures
        v.updated(ts, a, b).window == window,
        is_recent(all.push((ts, a, b)), window, v.updated(ts, a, b).entries),
        adds_up(d, v.updated(ts, a, b)),
        bulk(d, all) <= i64::MAX,
{
    let e = (ts, a, b);
    let longer = all.push(e);
    assert(longer.drop_last() =~= all);
    windows_stay_recent(all, window, v.entries, e);
    let held = v.entries.push(e);
    assert(held.drop_last() =~= v.entries);
    window_is_no_bulkier(d, all, window, v.entries);
    bulk_bounds(d, v.entries);
    bulk_bounds(d, held);
    assert(units_in(d, v.first.sum(a)) == first_in(d, held) && units_in(d, v.second.sum(b))
        == second_in(d, held)) by {
        reveal(counts_in_decimals);
    }
    eviction_drops_the_stale_front(held, ts - window);
    taking_off_is_exact(
        d,
        held,
        stale_prefix(held, ts - window) as int,
        v.first.sum(a),
        v.second.sum(b),
    );
}

proof fn window_is_no_bulkier<N: Number>(
    d: spec_fn(N) -> Fixed,
    all: Seq<(i64, N, N)>,
    window: int,
    kept: Seq<(i64, N, N)>,
)
    requires
        is_recent(all, window, kept),
    ensures
        bulk(d, kept) <= bulk(d, all),
{
    if all.len() > 0 {
        let k = choose|k: int|
            {
                &&& 0 <= k < all.len()
                &&& #[trigger] all.skip(k) == kept
                &&& all[k].at() >= all.last().at() - window
                &&& forall|i: int| 0 <= i < k ==> #[trigger] is_outlived(all, i, window)
            };
        part_is_no_bulkier(d, all, k);
    }
}

} // verus!
