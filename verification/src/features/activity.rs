//! Tick activity: rolling tick rates and their ratio.

use vstd::prelude::*;
use crate::number::Number;
use crate::window::{drop_stale, fresh_suffix};
use std::collections::VecDeque;

verus! {

/// Events per second of a window: gaps over the time from first to last event, on a
/// clock with so many units in a second.
pub open spec fn event_rate<N: Number>(stamps: Seq<i64>, per_sec: int) -> N {
    if stamps.len() < 2 {
        N::of_int(0)
    } else {
        let span = N::of_int(stamps.last() - stamps.first()).quotient(N::of_int(per_sec));
        if span.is_same(N::of_int(0)) {
            N::of_int(0)
        } else {
            N::of_int(stamps.len() as int).difference(N::of_int(1)).quotient(span)
        }
    }
}

/// Events per second of a window of microsecond timestamps.
pub open spec fn tick_rate_of<N: Number>(stamps: Seq<i64>) -> N {
    event_rate(stamps, 1_000_000)
}

/// Events per second of a window, on a clock with so many units in a second.
pub fn rate_in<N: Number>(stamps: &VecDeque<i64>, per_sec: i128) -> (r: N)
    ensures
        r == event_rate::<N>(stamps@, per_sec as int),
{
    let n: usize = stamps.len();
    let zero = N::from_int(0);
    if n < 2 {
        return zero;
    }
    let gap: i128 = stamps[n - 1] as i128 - stamps[0] as i128;
    let span = N::from_int(gap).div(N::from_int(per_sec));
    if span.same(zero) {
        zero
    } else {
        N::from_int(n as i128).sub(N::from_int(1)).div(span)
    }
}

/// Rolling tick rate (events per second) in a real-time window.
#[derive(Debug)]
pub struct TickVelocity {
    window_micros: i64,
    buf: VecDeque<i64>,
}

impl TickVelocity {
    /// The window's length in microseconds.
    pub closed spec fn window(self) -> int {
        self.window_micros as int
    }

    /// The timestamps in the window, oldest first.
    pub closed spec fn stamps(self) -> Seq<i64> {
        self.buf@
    }

    /// An empty window of `window_secs` seconds.
    pub fn new(window_secs: i64) -> (r: Self)
        requires
            i64::MIN <= window_secs * 1_000_000 <= i64::MAX,
        ensures
            r.window() == window_secs * 1_000_000,
            r.stamps() == Seq::<i64>::empty(),
    {
        TickVelocity { window_micros: window_secs * 1_000_000, buf: VecDeque::new() }
    }

    /// Records an event and drops the events that have left the window.
    pub fn update(&mut self, ts: i64)
        requires
            i64::MIN <= ts - old(self).window() <= i64::MAX,
        ensures
            final(self).window() == old(self).window(),
            final(self).stamps() == fresh_suffix(
                old(self).stamps().push(ts),
                ts - old(self).window(),
            ),
    {
        self.buf.push_back(ts);
        let cutoff: i64 = ts - self.window_micros;
        drop_stale(&mut self.buf, cutoff);
    }

    /// Events per second; 0 while the window holds fewer than two.
    pub fn rate<N: Number>(&self) -> (r: N)
        ensures
            r == tick_rate_of::<N>(self.stamps()),
    {
        rate_in(&self.buf, 1_000_000)
    }
}

/// Maintains two tick-velocity windows to produce an activity-regime ratio.
#[derive(Debug)]
pub struct ActivityRegime {
    fast: TickVelocity,
    slow: TickVelocity,
}

impl ActivityRegime {
    /// The timestamps of the last 30 seconds.
    pub closed spec fn fast_stamps(self) -> Seq<i64> {
        self.fast.stamps()
    }

    /// The timestamps of the last 1800 seconds.
    pub closed spec fn slow_stamps(self) -> Seq<i64> {
        self.slow.stamps()
    }

    /// The windows are 30 and 1800 seconds long.
    pub closed spec fn wf(self) -> bool {
        self.fast.window() == 30_000_000 && self.slow.window() == 1_800_000_000
    }

    pub fn new() -> (r: Self)
        ensures
            r.wf(),
            r.fast_stamps() == Seq::<i64>::empty(),
            r.slow_stamps() == Seq::<i64>::empty(),
    {
        ActivityRegime { fast: TickVelocity::new(30), slow: TickVelocity::new(1800) }
    }

    /// Records an event in both windows.
    pub fn update(&mut self, ts: i64)
        requires
            old(self).wf(),
            ts >= i64::MIN + 1_800_000_000,
        ensures
            final(self).wf(),
            final(self).fast_stamps() == fresh_suffix(
                old(self).fast_stamps().push(ts),
                ts - 30_000_000,
            ),
            final(self).slow_stamps() == fresh_suffix(
                old(self).slow_stamps().push(ts),
                ts - 1_800_000_000,
            ),
    {
        self.fast.update(ts);
        self.slow.update(ts);
    }

    /// tick_rate_30s / tick_rate_1800s. Values > 1 indicate a burst of activity.
    pub fn ratio<N: Number>(&self) -> (r: N)
        ensures
            r == activity_ratio_of::<N>(self.fast_stamps(), self.slow_stamps()),
    {
        let slow = self.slow.rate::<N>();
        if slow.same(N::from_int(0)) {
            N::from_int(1)
        } else {
            self.fast.rate::<N>().div(slow)
        }
    }

    /// Events per second over the last 30 seconds.
    pub fn fast_rate<N: Number>(&self) -> (r: N)
        ensures
            r == tick_rate_of::<N>(self.fast_stamps()),
    {
        self.fast.rate::<N>()
    }
}

/// The recent rate over the long-run rate; 1 while the latter is 0.
pub open spec fn activity_ratio_of<N: Number>(fast: Seq<i64>, slow: Seq<i64>) -> N {
    let base = tick_rate_of::<N>(slow);
    if base.is_same(N::of_int(0)) {
        N::of_int(1)
    } else {
        tick_rate_of::<N>(fast).quotient(base)
    }
}

} // verus!
