//! Glyph extractor: splits a text into grapheme clusters and keeps only the
//! clusters that contain at least one codepoint whose UTF-8 encoding takes
//! four or more bytes — the heuristic that isolates emoji and other
//! supplementary-plane symbols from ordinary text.

use vstd::prelude::*;
use vstd::string::StrSliceExecFns;
use unicode_segmentation::UnicodeSegmentation;

verus! {

/// The extended grapheme clusters of a text, in order. What exactly they are
/// is settled by the Unicode segmentation rules; here only their relation to
/// the text is stated, at the trusted boundary below.
pub uninterp spec fn graphemes_of(s: Seq<char>) -> Seq<Seq<char>>;

/// Concatenation of a sequence of character sequences.
pub open spec fn concat_all(parts: Seq<Seq<char>>) -> Seq<char>
    decreases parts.len(),
{
    if parts.len() == 0 {
        Seq::empty()
    } else {
        concat_all(parts.drop_last()) + parts.last()
    }
}

/// A codepoint outside the basic multilingual plane, i.e. one whose UTF-8
/// encoding is at least four bytes long.
pub open spec fn is_wide_char(c: char) -> bool {
    c as u32 >= 0x10000
}

/// Whether a cluster contains at least one wide codepoint.
pub open spec fn has_wide_char(g: Seq<char>) -> bool {
    exists|i: int| 0 <= i < g.len() && is_wide_char(g[i])
}

/// What the extractor returns on a given text: its grapheme clusters,
/// restricted to those with a wide codepoint.
pub open spec fn extracted(s: Seq<char>) -> Seq<Seq<char>> {
    graphemes_of(s).filter(|g: Seq<char>| has_wide_char(g))
}

/// Relies on unicode_segmentation's `UnicodeSegmentation::graphemes` with
/// extended clusters: the clusters are nonempty substrings of the text that
/// concatenate back to it, and they depend on the characters alone.
#[verifier::external_body]
fn split_graphemes(text: &str) -> (r: Vec<String>)
    ensures
        r.deep_view() == graphemes_of(text@),
        concat_all(r.deep_view()) == text@,
        forall|i: int| 0 <= i < r.deep_view().len() ==> r.deep_view()[i].len() > 0,
{
    text.graphemes(true).map(|g| g.to_string()).collect()
}

/// Whether the cluster holds a codepoint at or above U+10000.
fn cluster_has_wide(g: &str) -> (b: bool)
    ensures
        b == has_wide_char(g@),
{
    let n = g.unicode_len();
    let mut i: usize = 0;
    while i < n
        invariant
            i <= n,
            n == g@.len(),
            forall|j: int| 0 <= j < i ==> !is_wide_char(g@[j]),
        decreases n - i,
    {
        let c = g.get_char(i);
        if c as u32 >= 0x10000 {
            assert(is_wide_char(g@[i as int]));
            return true;
        }
        i = i + 1;
    }
    false
}

/// The glyph extractor: the grapheme clusters of `text` that contain at least
/// one codepoint whose encoded length is four bytes or more, in text order.
/// On an empty text it returns the empty sequence.
pub fn extract(text: &str) -> (r: Vec<String>)
    ensures
        r.deep_view() == extracted(text@),
        text@.len() == 0 ==> r@.len() == 0,
{
    let gs = split_graphemes(text);
    let ghost all = graphemes_of(text@);
    let ghost pred = |g: Seq<char>| has_wide_char(g);
    let mut out: Vec<String> = Vec::new();
    proof {
        assert(gs.deep_view().len() == gs@.len());
        assert(out.deep_view() =~= all.take(0).filter(pred)) by {
            reveal(Seq::filter);
        }
    }
    let n = gs.len();
    let mut i: usize = 0;
    while i < n
        invariant
            i <= n,
            n == gs@.len(),
            gs.deep_view() == all,
            all.len() == n,
            pred == (|g: Seq<char>| has_wide_char(g)),
            out.deep_view() == all.take(i as int).filter(pred),
        decreases n - i,
    {
        let g = gs[i].clone();
        proof {
            assert(gs.deep_view()[i as int] == gs@[i as int]@);
            assert(g@ == all[i as int]);
        }
        let keep = cluster_has_wide(g.as_str());
        let ghost prev = out.deep_view();
        if keep {
            out.push(g);
            proof {
                assert(out.deep_view() =~= prev.push(all[i as int]));
            }
        }
        proof {
            let taken = all.take(i as int);
            let taken1 = all.take(i + 1 as int);
            assert(taken1.drop_last() =~= taken);
            assert(taken1.last() == all[i as int]);
            assert(taken1.filter(pred) == if pred(all[i as int]) {
                taken.filter(pred).push(all[i as int])
            } else {
                taken.filter(pred)
            }) by {
                reveal(Seq::filter);
            }
        }
        i = i + 1;
    }
    proof {
        assert(all.take(n as int) =~= all);
        if text@.len() == 0 {
            lemma_empty_text_has_no_clusters(text@);
            assert(all.filter(pred).len() <= all.len()) by {
                all.lemma_filter_len(pred);
            }
            assert(out.deep_view().len() == out@.len());
        }
    }
    out
}

/// On an empty text the segmentation yields no clusters: each cluster is a
/// nonempty part of the text, and together they concatenate back to it.
proof fn lemma_empty_text_has_no_clusters(s: Seq<char>)
    requires
        s.len() == 0,
        concat_all(graphemes_of(s)) == s,
        forall|i: int| 0 <= i < graphemes_of(s).len() ==> graphemes_of(s)[i].len() > 0,
    ensures
        graphemes_of(s).len() == 0,
{
    let gs = graphemes_of(s);
    if gs.len() > 0 {
        assert(concat_all(gs) == concat_all(gs.drop_last()) + gs.last());
        assert(concat_all(gs).len() >= gs.last().len());
    }
}

/// Every cluster the extractor returns contains at least one codepoint whose
/// encoded length is four bytes or more; clusters of narrow codepoints only
/// are never returned.
pub proof fn lemma_extracted_clusters_are_wide(text: Seq<char>, i: int)
    requires
        0 <= i < extracted(text).len(),
    ensures
        has_wide_char(extracted(text)[i]),
{
    graphemes_of(text).lemma_filter_pred(|g: Seq<char>| has_wide_char(g), i);
}

} // verus!
