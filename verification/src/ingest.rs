//! Ingestion: what one matching commit event does to the shared state.
//!
//! The upstream stream and its decoding live outside the library; this is the
//! computation applied once an event has been recognised as a creation of the
//! watched record kind and its free-text payload has been read: tick the
//! throughput meter, extract the wide glyph clusters, and count each one.

use vstd::prelude::*;
use crate::extract::{extract, extracted};
use crate::meter::{meter_step, ThroughputMeter};
use crate::store::{apply_events, FrequencyData};

verus! {

/// Ingest one matching post: the meter takes one event at `now_ms`, and every
/// wide glyph cluster of `text` is counted once, in text order.
pub fn process_post(
    store: &mut FrequencyData,
    meter: &mut ThroughputMeter,
    text: &str,
    now_ms: u64,
)
    requires
        old(store).wf(),
    ensures
        final(store).wf(),
        final(store)@ == apply_events(old(store)@, extracted(text@)),
        *final(meter) == meter_step(*old(meter), now_ms),
{
    meter.record_event(now_ms);
    let clusters = extract(text);
    let ghost evs = extracted(text@);
    let n = clusters.len();
    proof {
        assert(clusters.deep_view().len() == clusters@.len());
    }
    let mut i: usize = 0;
    while i < n
        invariant
            i <= n,
            store.wf(),
            store@ == apply_events(old(store)@, evs.take(i as int)),
        decreases n - i,
    {
        let g = clusters[i].clone();
        proof {
            assert(g@ == clusters.deep_view()[i as int]);
            assert(evs.take(i + 1 as int).drop_last() =~= evs.take(i as int));
        }
        store.increment(g);
        i = i + 1;
    }
    proof {
        assert(evs.take(n as int) =~= evs);
    }
}

} // verus!
