//! A live emoji-frequency dashboard pipeline: a glyph extractor that isolates
//! wide (emoji-class) grapheme clusters from post text, a frequency aggregate
//! store, an events-per-second throughput meter, a terminal-frame renderer,
//! a latest-frame fan-out discipline for viewers, and a persistence codec
//! for the aggregate.
#![verifier::loop_isolation(false)]

use vstd::prelude::*;

pub mod cli;
pub mod commentary;
pub mod extract;
pub mod fanout;
pub mod ingest;
pub mod meter;
pub mod numfmt;
pub mod persist;
pub mod prompts;
pub mod render;
pub mod store;

verus! {

/// Increment that stays put at `u64::MAX` instead of wrapping.
pub open spec fn sat_inc(c: u64) -> u64 {
    if c < u64::MAX {
        (c + 1) as u64
    } else {
        c
    }
}

} // verus!
