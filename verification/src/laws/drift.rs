//! How ticks find their buckets: clock offsets, bucket numbers and flushes.

use vstd::prelude::*;
use crate::laws::classifier::held;
use crate::laws::decimal::{division_is_near, is_near};
use crate::number::{scaled_step_is_no_longer, towards_zero, Fixed, Number, UNITS};
use crate::price_fusion::{
    emits, fuses, has_corrected, offset_sample, routed, timed_out, BucketView, FusedTick,
    NtpCorrector, PriceFuser,
};
use crate::types::{Exchange, Tick};

verus! {

/// A tick's clock sample is how far the local clock is ahead of the tick's, held within
/// the limit. The first one is the exchange's offset; later ones move the offset by the
/// smoothing factor's part of the way. The tick's time moves by the offset, rounded to the
/// nearest microsecond, and no other exchange's offset changes.
pub proof fn offsets_follow_the_samples(
    before: NtpCorrector<Fixed>,
    tick: Tick<Fixed>,
    local_wall: i64,
    after: NtpCorrector<Fixed>,
    r: Option<i64>,
)
    requires
        has_corrected(before, tick, local_wall, after, r),
        0 <= before.max_abs() <= 40_000_000_000,
        0 <= before.alpha().units <= UNITS,
        before.offset(tick.exchange) matches Some(o) ==> -4_000_000_000_000_000_000 <= o.units
            <= 4_000_000_000_000_000_000,
    ensures
        ({
            let sample = held(local_wall - tick.ts_micros, before.max_abs() as int) * UNITS;
            let e = tick.exchange;
            let new = after.offset(e)->0.units as int;
            &&& after.offset(e) is Some
            &&& before.offset(e) is None ==> new == sample
            &&& before.offset(e) matches Some(o) ==> {
                let gap = sample - o.units;
                &&& is_near(new - o.units, before.alpha().units * gap, UNITS as int)
                &&& gap >= 0 ==> o.units <= new <= sample
                &&& gap <= 0 ==> sample <= new <= o.units
            }
            &&& r matches Some(t) ==> -UNITS <= 2 * ((t - tick.ts_micros) * UNITS - new) <= UNITS
            &&& forall|x: Exchange| x != e ==> #[trigger] after.offset(x) == before.offset(x)
            &&& after.alpha() == before.alpha()
            &&& after.max_abs() == before.max_abs()
        }),
{
    let u = UNITS as int;
    assert(u == 100_000_000);
    let s = offset_sample(local_wall as int, tick.ts_micros as int, before.max_abs() as int);
    assert(s == held(local_wall - tick.ts_micros, before.max_abs() as int));
    let target = Fixed::of_int(s);
    assert(target.units == s * u);
    let from = match before.offset(tick.exchange) {
        Some(o) => o,
        None => target,
    };
    let gap = s * u - from.units;
    assert(target.difference(from).units == gap);
    let alpha = before.alpha().units as int;
    scaled_step_is_no_longer(alpha, gap);
    division_is_near(alpha * gap, u);
    let step = towards_zero(alpha * gap, u);
    let new = before.offset_after(tick, local_wall);
    assert(new.units == from.units + step);
    if before.offset(tick.exchange) is None {
        assert(gap == 0);
        assert(alpha * gap == 0) by (nonlinear_arith)
            requires
                gap == 0,
        ;
        assert(step == 0);
    }
    let x = new.units as int;
    let half = UNITS / 2;
    let y = if x < 0 { x - half } else { x + half };
    division_is_near(y, u);
    assert(new.rounded() == towards_zero(y, u));
}

/// A bucket number covers the times of a width, and a tick's corrected time lies in the
/// bucket that it is put into.
pub proof fn ticks_go_where_their_time_lies(
    fuser: PriceFuser<Fixed>,
    tick: Tick<Fixed>,
    local_wall: i64,
)
    requires
        fuser.config().bucket_width_micros > 0,
    ensures
        fuser.place_of(tick, local_wall) matches Some(id) ==> {
            let w = fuser.config().bucket_width_micros;
            let t = tick.ts_micros + fuser.corrector().offset_after(tick, local_wall).rounded();
            id * w <= t < (id + 1) * w
        },
{
    let w = fuser.config().bucket_width_micros as int;
    let t = tick.ts_micros + fuser.corrector().offset_after(tick, local_wall).rounded();
    if fuser.place_of(tick, local_wall) is Some {
        let id = t / w;
        assert(id * w <= t < (id + 1) * w) by (nonlinear_arith)
            requires
                w > 0,
                id == t / w,
        ;
    }
}

/// A tick joins the open bucket if that has its number, at the end; else the open bucket
/// closes as it is, and the tick opens one of its own. A tick without a place changes
/// nothing.
pub proof fn ticks_join_or_close_the_bucket<N>(
    open: Option<BucketView<N>>,
    place: Option<i64>,
    tick: Tick<N>,
    now: i64,
)
    ensures
        ({
            let (after, closed) = routed(open, place, tick, now);
            &&& place is None ==> after == open && closed is None
            &&& place matches Some(id) ==> {
                let joins = open is Some && open->0.id == id;
                &&& after is Some
                &&& after->0.id == id
                &&& after->0.ticks.len() > 0
                &&& after->0.ticks.last() == tick
                &&& joins ==> {
                    &&& closed is None
                    &&& after->0.ticks.drop_last() == open->0.ticks
                    &&& after->0.opened_at == open->0.opened_at
                }
                &&& !joins ==> {
                    &&& closed == open
                    &&& after->0.ticks.len() == 1
                    &&& after->0.opened_at == now
                }
            }
        }),
{
    if place is Some && open is Some && open->0.id == place->0 {
        let b = open->0;
        assert(b.ticks.push(tick).drop_last() =~= b.ticks);
    }
}

/// The flush timer closes the open bucket exactly when it has been open for its maximum
/// age, and leaves a younger one alone.
pub proof fn old_buckets_are_flushed<N>(open: BucketView<N>, now: i64, max_age: nat)
    requires
        max_age > 0,
    ensures
        ({
            let (after, closed) = timed_out(Some(open), now, max_age);
            &&& now - open.opened_at >= max_age ==> after is None && closed == Some(open)
            &&& now - open.opened_at < max_age ==> after == Some(open) && closed is None
        }),
        timed_out::<N>(None, now, max_age) == (None::<BucketView<N>>, None::<BucketView<N>>),
{
}

/// A bucket that closes gives one fused tick of all its ticks, and nothing else does.
pub proof fn closing_buckets_are_fused<N: Number>(
    closed: Option<BucketView<N>>,
    width: int,
    fused: Option<FusedTick<N>>,
)
    requires
        emits(closed, width, fused),
        width > 0,
    ensures
        fused is Some <==> closed is Some,
        closed matches Some(b) ==> {
            &&& fused->0.tick_count == b.ticks.len()
            &&& 2 * b.id * width <= 2 * fused->0.ts_micros <= 2 * b.id * width + width
            &&& 2 * fused->0.ts_micros >= 2 * b.id * width + width - 1
        },
{
    if let Some(b) = closed {
        let x = b.id * width;
        assert(2 * b.id * width == 2 * x) by (nonlinear_arith)
            requires
                x == b.id * width,
        ;
        assert(fuses(b.ticks, crate::price_fusion::bucket_centre(b.id as int, width), fused->0));
    }
}

} // verus!
