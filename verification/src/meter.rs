//! Throughput meter: events observed in the last completed one-second window.
//!
//! The meter keeps a running count for the current window and republishes it
//! once at least one second has passed since the last publish. Publishing is
//! driven by event arrival, so during a quiet period the published value goes
//! stale at its last value rather than resetting.

use vstd::prelude::*;
use crate::sat_inc;

verus! {

/// Number of milliseconds a window must span before the count is republished.
pub const WINDOW_MS: u64 = 1000;

/// A throughput meter. `published` is the only externally meaningful value;
/// `window_count` and `last_publish_ms` are the working state of the current
/// window.
pub struct ThroughputMeter {
    pub window_count: u64,
    pub published: u64,
    pub last_publish_ms: u64,
}

/// One event arriving at time `now_ms`: the window count rises by one, and if
/// at least a second has passed since the last publish, the (new) window count
/// is published and the window restarts.
pub open spec fn meter_step(m: ThroughputMeter, now_ms: u64) -> ThroughputMeter {
    let bumped = sat_inc(m.window_count);
    if now_ms >= m.last_publish_ms && now_ms - m.last_publish_ms >= WINDOW_MS {
        ThroughputMeter { window_count: 0, published: bumped, last_publish_ms: now_ms }
    } else {
        ThroughputMeter { window_count: bumped, ..m }
    }
}

/// The meter after a whole sequence of events, each given by its arrival time.
pub open spec fn meter_run(m: ThroughputMeter, times: Seq<u64>) -> ThroughputMeter
    decreases times.len(),
{
    if times.len() == 0 {
        m
    } else {
        meter_step(meter_run(m, times.drop_last()), times.last())
    }
}

impl ThroughputMeter {
    /// A fresh meter: nothing counted, nothing published, window starting now.
    pub fn new(start_ms: u64) -> (r: ThroughputMeter)
        ensures
            r == (ThroughputMeter { window_count: 0, published: 0, last_publish_ms: start_ms }),
    {
        ThroughputMeter { window_count: 0, published: 0, last_publish_ms: start_ms }
    }

    /// Record one ingested event arriving at `now_ms`.
    pub fn record_event(&mut self, now_ms: u64)
        ensures
            *final(self) == meter_step(*old(self), now_ms),
    {
        if self.window_count < u64::MAX {
            self.window_count = self.window_count + 1;
        }
        if now_ms >= self.last_publish_ms && now_ms - self.last_publish_ms >= WINDOW_MS {
            self.published = self.window_count;
            self.window_count = 0;
            self.last_publish_ms = now_ms;
        }
    }

    /// The most recently published events-per-window value. Reading never
    /// changes the meter, so two reads within one window see the same value.
    pub fn published_value(&self) -> (r: u64)
        ensures
            r == self.published,
    {
        self.published
    }
}

/// A window in which no events arrive leaves the meter — in particular its
/// published value — exactly as it was: the published value never goes back
/// to zero spontaneously.
pub proof fn lemma_quiet_window_keeps_published(m: ThroughputMeter, times: Seq<u64>)
    requires
        times.len() == 0,
    ensures
        meter_run(m, times) == m,
        meter_run(m, times).published == m.published,
{
}

/// A single event either leaves the published value alone or publishes the
/// new window count, which is at least one: an event never publishes zero.
pub proof fn lemma_publish_only_at_boundary(m: ThroughputMeter, now_ms: u64)
    ensures
        meter_step(m, now_ms).published == m.published || meter_step(m, now_ms).published
            == sat_inc(m.window_count),
        sat_inc(m.window_count) >= 1,
{
}

/// Once the published value is positive, no sequence of events — and no quiet
/// stretch — ever brings it back to zero.
pub proof fn lemma_published_never_resets(m: ThroughputMeter, times: Seq<u64>)
    requires
        m.published > 0,
    ensures
        meter_run(m, times).published > 0,
    decreases times.len(),
{
    if times.len() > 0 {
        lemma_published_never_resets(m, times.drop_last());
    }
}

} // verus!
