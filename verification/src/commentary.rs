//! Commentary state and the enrichment relay's decisions: the current and
//! previous analysis lines, rotated only when the trend analyzer returns a
//! result, and the exact text handed to it.

use vstd::prelude::*;
use vstd::string::StrSliceExecFns;
use vstd::string::StringExecFns;
use crate::numfmt::dec_chars;
use crate::numfmt::u64_to_string;

verus! {

/// How many aggregate entries at most are handed to the trend analyzer.
pub const ANALYSIS_ENTRIES: usize = 100;

/// The two commentary lines: the current analysis and the one before it.
/// One writer (the enrichment relay), many readers (the renderer).
pub struct CommentaryState {
    pub current: String,
    pub previous: String,
}

impl CommentaryState {
    /// The placeholder lines shown before the first analysis arrives.
    pub fn new() -> (r: CommentaryState)
        ensures
            r.current@ == "Analyzing emoji trends..."@,
            r.previous@ == "No previous analysis."@,
    {
        CommentaryState {
            current: "Analyzing emoji trends...".to_owned(),
            previous: "No previous analysis.".to_owned(),
        }
    }

    /// One relay tick's outcome. On success the lines rotate: the old current
    /// becomes the previous (an independent copy), and the result becomes the
    /// current. On failure both lines stay exactly as they were.
    pub fn apply_analysis(&mut self, result: Option<String>)
        ensures
            match result {
                Some(r) => final(self).previous == old(self).current && final(self).current == r,
                None => *final(self) == *old(self),
            },
    {
        match result {
            Some(r) => {
                let cur = self.current.clone();
                self.previous = cur;
                self.current = r;
            },
            None => {},
        }
    }
}

/// One aggregate entry as the analyzer sees it.
pub open spec fn entry_text_chars(key: Seq<char>, count: u64) -> Seq<char> {
    key + ": "@ + dec_chars(count as nat)
}

/// The entries joined with commas, in snapshot order.
pub open spec fn joined_entries_chars(entries: Seq<(String, u64)>) -> Seq<char>
    decreases entries.len(),
{
    if entries.len() == 0 {
        Seq::empty()
    } else if entries.len() == 1 {
        entry_text_chars(entries[0].0@, entries[0].1)
    } else {
        joined_entries_chars(entries.drop_last()) + ", "@ + entry_text_chars(
            entries.last().0@,
            entries.last().1,
        )
    }
}

/// The whole analyzer input: the previous commentary and the joined entries.
pub open spec fn analysis_input_chars(
    entries: Seq<(String, u64)>,
    previous: Seq<char>,
) -> Seq<char> {
    "Previous analysis: '"@ + previous + "'. Here are the current top emoji frequencies: "@
        + joined_entries_chars(entries) + ". What's interesting about this?"@
}

/// Builds the text handed to the trend analyzer from a snapshot (its first
/// hundred entries at most) and the previous commentary.
pub fn build_analysis_input(snapshot: &Vec<(String, u64)>, previous: &str) -> (r: String)
    ensures
        r@ == analysis_input_chars(
            snapshot@.take(
                if snapshot@.len() <= ANALYSIS_ENTRIES as nat {
                    snapshot@.len() as int
                } else {
                    ANALYSIS_ENTRIES as int
                },
            ),
            previous@,
        ),
{
    let n = if snapshot.len() <= ANALYSIS_ENTRIES {
        snapshot.len()
    } else {
        ANALYSIS_ENTRIES
    };
    let ghost taken = snapshot@.take(n as int);
    let mut data = String::new();
    let mut i: usize = 0;
    while i < n
        invariant
            i <= n,
            n <= snapshot@.len(),
            taken == snapshot@.take(n as int),
            data@ == joined_entries_chars(taken.take(i as int)),
        decreases n - i,
    {
        if i > 0 {
            data.append(", ");
        }
        let ghost before = data@;
        data.append(snapshot[i].0.as_str());
        data.append(": ");
        let cs = u64_to_string(snapshot[i].1);
        data.append(cs.as_str());
        proof {
            let t1 = taken.take(i + 1 as int);
            assert(t1.drop_last() =~= taken.take(i as int));
            assert(t1.last() == snapshot@[i as int]);
            assert(t1[0] == taken[0]);
            assert(data@ =~= joined_entries_chars(t1));
        }
        i = i + 1;
    }
    proof {
        assert(taken.take(n as int) =~= taken);
    }
    let mut out = String::new();
    out.append("Previous analysis: '");
    out.append(previous);
    out.append("'. Here are the current top emoji frequencies: ");
    out.append(data.as_str());
    out.append(". What's interesting about this?");
    proof {
        assert(out@ =~= analysis_input_chars(taken, previous@));
    }
    out
}

} // verus!
