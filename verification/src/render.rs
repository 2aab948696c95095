//! Renderer: one immutable dashboard frame from a snapshot of the shared
//! state — banner, the top 25 clusters by count with a colored magnitude bar,
//! the commentary line, and a footer with viewer count, throughput and
//! uptime. A frame is built fully before any byte of it is sent.

use vstd::prelude::*;
use vstd::string::StrSliceExecFns;
use vstd::string::StringExecFns;
use vstd::seq_lib::group_to_multiset_ensures;
use crate::numfmt::{
    append_pad_left, append_pad_right, dec_chars, log10_floor, log10_floor_u64, pad_left,
    pad_right, u64_to_string,
};

verus! {

/// How many entries a frame shows.
pub const TOP_ENTRIES: usize = 25;

/// Widest bar a frame draws, in cells.
pub const BAR_CELLS: u64 = 50;

/// Counts never rise from left to right.
pub open spec fn sorted_desc(s: Seq<(String, u64)>) -> bool {
    forall|i: int, j: int| 0 <= i < j < s.len() ==> s[i].1 >= s[j].1
}

/// `r` is the top of `all`: some descending ordering of all entries,
/// truncated to its first `k`.
pub open spec fn is_top_of(r: Seq<(String, u64)>, all: Seq<(String, u64)>, k: nat) -> bool {
    exists|s: Seq<(String, u64)>|
        s.to_multiset() == all.to_multiset() && sorted_desc(s) && r == s.take(
            if k <= s.len() {
                k as int
            } else {
                s.len() as int
            },
        )
}

/// The entries reordered so that counts never rise: a permutation of the
/// input; ties keep no particular order but are stable within the result.
pub fn sort_by_count_desc(entries: Vec<(String, u64)>) -> (r: Vec<(String, u64)>)
    ensures
        sorted_desc(r@),
        r@.to_multiset() == entries@.to_multiset(),
        r@.len() == entries@.len(),
{
    proof {
        broadcast use group_to_multiset_ensures;

    }
    let mut rest = entries;
    let mut out: Vec<(String, u64)> = Vec::new();
    proof {
        assert(out@.to_multiset().add(rest@.to_multiset()) =~= entries@.to_multiset());
    }
    while rest.len() > 0
        invariant
            out@.to_multiset().add(rest@.to_multiset()) == entries@.to_multiset(),
            out@.len() + rest@.len() == entries@.len(),
            sorted_desc(out@),
            forall|i: int, j: int|
                0 <= i < out@.len() && 0 <= j < rest@.len() ==> out@[i].1 >= rest@[j].1,
        decreases rest.len(),
    {
        let mut mi: usize = 0;
        let mut k: usize = 1;
        while k < rest.len()
            invariant
                mi < k <= rest@.len(),
                forall|j: int| 0 <= j < k ==> rest@[mi as int].1 >= rest@[j].1,
            decreases rest.len() - k,
        {
            if rest[k].1 > rest[mi].1 {
                mi = k;
            }
            k = k + 1;
        }
        let ghost rest0 = rest@;
        let ghost out0 = out@;
        let e = rest.remove(mi);
        out.push(e);
        proof {
            assert(rest@.to_multiset() =~= rest0.to_multiset().remove(e));
            assert(out@.to_multiset() =~= out0.to_multiset().insert(e));
            assert(out@.to_multiset().add(rest@.to_multiset()) =~= out0.to_multiset().add(
                rest0.to_multiset(),
            ));
            assert(forall|j: int|
                0 <= j < rest@.len() ==> rest0.contains(#[trigger] rest@[j]) && e.1 >= rest@[j].1)
                by {
                assert(forall|j: int|
                    0 <= j < rest@.len() ==> rest@[j] == if j < mi as int {
                        rest0[j]
                    } else {
                        rest0[j + 1]
                    });
            }
            assert(forall|i: int, j: int|
                0 <= i < out@.len() && 0 <= j < rest@.len() ==> out@[i].1 >= rest@[j].1);
        }
    }
    out
}

/// The top `k` entries of a snapshot by count, descending: exactly the `k`
/// largest (all of them when fewer), and no more.
pub fn top_entries(entries: Vec<(String, u64)>, k: usize) -> (r: Vec<(String, u64)>)
    ensures
        sorted_desc(r@),
        is_top_of(r@, entries@, k as nat),
        r@.len() == if k as int <= entries@.len() {
            k as int
        } else {
            entries@.len() as int
        },
{
    let ghost all = entries@;
    let mut s = sort_by_count_desc(entries);
    let ghost sorted = s@;
    if k < s.len() {
        s.truncate(k);
        proof {
            assert(s@ =~= sorted.take(k as int));
        }
    } else {
        proof {
            assert(s@ =~= sorted.take(sorted.len() as int));
        }
    }
    proof {
        assert(is_top_of(s@, all, k as nat));
    }
    s
}

/// Everything a truncation leaves out is dominated by everything it keeps:
/// with a descending ordering, the first `k` entries are exactly the top.
pub proof fn lemma_top_entries_dominate(s: Seq<(String, u64)>, k: int)
    requires
        sorted_desc(s),
        0 <= k <= s.len(),
    ensures
        forall|i: int, j: int| 0 <= i < k <= j < s.len() ==> s.take(k)[i].1 >= s[j].1,
{
}

/// The bar's cell count: one per occurrence, at most `BAR_CELLS`.
pub open spec fn bar_width(count: u64) -> nat {
    if count < BAR_CELLS {
        count as nat
    } else {
        BAR_CELLS as nat
    }
}

/// The palette bucket of cell `i`: the cell's position across the bar scaled
/// by one-and-a-half times the integer base-ten logarithm of `count + 1`,
/// clamped to the five buckets.
pub open spec fn bucket_of(count: u64, i: nat) -> nat
    recommends
        i < bar_width(count),
{
    let raw = (i * 3 * log10_floor(count as nat + 1)) / (2 * bar_width(count));
    if raw < 4 {
        raw
    } else {
        4
    }
}

/// One full-block cell in the bucket's color, brightest green to red in
/// ascending magnitude.
pub open spec fn palette_chars(b: nat) -> Seq<char> {
    if b == 0 {
        "\u{1b}[38;5;46m\u{2588}\u{1b}[0m"@
    } else if b == 1 {
        "\u{1b}[38;5;82m\u{2588}\u{1b}[0m"@
    } else if b == 2 {
        "\u{1b}[38;5;226m\u{2588}\u{1b}[0m"@
    } else if b == 3 {
        "\u{1b}[38;5;214m\u{2588}\u{1b}[0m"@
    } else {
        "\u{1b}[38;5;196m\u{2588}\u{1b}[0m"@
    }
}

/// The first `i` cells of the bar for `count`.
pub open spec fn bar_prefix_chars(count: u64, i: nat) -> Seq<char>
    decreases i,
{
    if i == 0 {
        Seq::empty()
    } else {
        bar_prefix_chars(count, (i - 1) as nat) + palette_chars(bucket_of(count, (i - 1) as nat))
    }
}

/// The whole gradient bar for `count`.
pub open spec fn gradient_bar_chars(count: u64) -> Seq<char> {
    bar_prefix_chars(count, bar_width(count))
}

fn palette_str(b: u64) -> (r: &'static str)
    ensures
        r@ == palette_chars(b as nat),
{
    if b == 0 {
        "\u{1b}[38;5;46m\u{2588}\u{1b}[0m"
    } else if b == 1 {
        "\u{1b}[38;5;82m\u{2588}\u{1b}[0m"
    } else if b == 2 {
        "\u{1b}[38;5;226m\u{2588}\u{1b}[0m"
    } else if b == 3 {
        "\u{1b}[38;5;214m\u{2588}\u{1b}[0m"
    } else {
        "\u{1b}[38;5;196m\u{2588}\u{1b}[0m"
    }
}

/// The colored magnitude bar for one count: one cell per occurrence up to
/// fifty, each cell's color ramping with position and the count's magnitude.
pub fn create_gradient_bar(count: u64) -> (r: String)
    ensures
        r@ == gradient_bar_chars(count),
{
    let width: u64 = if count < BAR_CELLS {
        count
    } else {
        BAR_CELLS
    };
    let l: u64 = if count < u64::MAX {
        log10_floor_u64(count + 1)
    } else {
        proof {
            assert(log10_floor(0x10000000000000000nat) == 19) by {
                reveal_with_fuel(log10_floor, 21);
            }
        }
        19
    };
    proof {
        assert(l as nat == log10_floor(count as nat + 1));
        assert(l <= 19) by {
            if l > 19 {
                assert(log10_floor(count as nat + 1) <= 19) by {
                    crate::numfmt::lemma_log10_le_19(count as nat + 1);
                }
            }
        }
    }
    let mut bar = String::new();
    let mut i: u64 = 0;
    while i < width
        invariant
            i <= width,
            width <= BAR_CELLS,
            bar@ == bar_prefix_chars(count, i as nat),
            l as nat == log10_floor(count as nat + 1),
            l <= 19,
        decreases width - i,
    {
        assert((i as nat) * 3 * (l as nat) <= 2793) by (nonlinear_arith)
            requires
                i < 50,
                l <= 19,
        ;
        let raw = (i * 3 * l) / (2 * width);
        let b = if raw < 4 {
            raw
        } else {
            4
        };
        proof {
            assert(b as nat == bucket_of(count, i as nat));
        }
        bar.append(palette_str(b));
        i = i + 1;
    }
    bar
}

/// The uptime line: days, hours, minutes and seconds, leading zero units
/// omitted.
pub open spec fn uptime_chars(secs: u64) -> Seq<char> {
    let days = secs / 86400;
    let hours = (secs % 86400) / 3600;
    let minutes = (secs % 3600) / 60;
    let seconds = secs % 60;
    if days > 0 {
        dec_chars(days as nat) + "d "@ + dec_chars(hours as nat) + "h "@ + dec_chars(
            minutes as nat,
        ) + "m "@ + dec_chars(seconds as nat) + "s"@
    } else if hours > 0 {
        dec_chars(hours as nat) + "h "@ + dec_chars(minutes as nat) + "m "@ + dec_chars(
            seconds as nat,
        ) + "s"@
    } else if minutes > 0 {
        dec_chars(minutes as nat) + "m "@ + dec_chars(seconds as nat) + "s"@
    } else {
        dec_chars(seconds as nat) + "s"@
    }
}

/// Renders the uptime as days/hours/minutes/seconds with leading zero units
/// omitted.
pub fn format_uptime(secs: u64) -> (r: String)
    ensures
        r@ == uptime_chars(secs),
{
    let days = secs / 86400;
    let hours = (secs % 86400) / 3600;
    let minutes = (secs % 3600) / 60;
    let seconds = secs % 60;
    let mut out = String::new();
    if days > 0 {
        let p = u64_to_string(days);
        out.append(p.as_str());
        out.append("d ");
    }
    if days > 0 || hours > 0 {
        let p = u64_to_string(hours);
        out.append(p.as_str());
        out.append("h ");
    }
    if days > 0 || hours > 0 || minutes > 0 {
        let p = u64_to_string(minutes);
        out.append(p.as_str());
        out.append("m ");
    }
    let p = u64_to_string(seconds);
    out.append(p.as_str());
    out.append("s");
    proof {
        assert(out@ =~= uptime_chars(secs));
    }
    out
}

/// `s` repeated `n` times.
pub open spec fn repeat_chars(s: Seq<char>, n: nat) -> Seq<char>
    decreases n,
{
    if n == 0 {
        Seq::empty()
    } else {
        repeat_chars(s, (n - 1) as nat) + s
    }
}

/// The horizontal rule between dashboard sections.
pub open spec fn rule_chars() -> Seq<char> {
    repeat_chars("\u{2500}"@, 100)
}

/// Appends the horizontal rule.
fn append_rule(out: &mut String)
    ensures
        final(out)@ == old(out)@ + rule_chars(),
{
    let mut i: usize = 0;
    while i < 100
        invariant
            i <= 100,
            out@ == old(out)@ + repeat_chars("\u{2500}"@, i as nat),
        decreases 100 - i,
    {
        out.append("\u{2500}");
        i = i + 1;
    }
}

/// The static banner at the top of every frame.
pub open spec fn banner_chars() -> Seq<char> {
    "
 \u{2588}\u{2588}\u{2588}\u{2588}\u{2588}\u{2588}\u{2588} \u{2588}\u{2588}\u{2588}   \u{2588}\u{2588}\u{2588}  \u{2588}\u{2588}\u{2588}\u{2588}\u{2588}      \u{2588}\u{2588} \u{2588}\u{2588}  \u{2588}\u{2588}\u{2588}\u{2588}\u{2588}  \u{2588}\u{2588}\u{2588}\u{2588}\u{2588}\u{2588} \u{2588}\u{2588}\u{2588}\u{2588}\u{2588}\u{2588}\u{2588}\u{2588} \u{2588}\u{2588}  \u{2588}\u{2588}\u{2588}\u{2588}\u{2588}  \u{2588}\u{2588}\u{2588}\u{2588}\u{2588}  \u{2588}\u{2588}\u{2588}   \u{2588}\u{2588}
 \u{2588}\u{2588}      \u{2588}\u{2588}\u{2588}\u{2588} \u{2588}\u{2588}\u{2588}\u{2588} \u{2588}\u{2588}   \u{2588}\u{2588}     \u{2588}\u{2588} \u{2588}\u{2588} \u{2588}\u{2588}   \u{2588}\u{2588} \u{2588}\u{2588}  \u{2588}\u{2588}    \u{2588}\u{2588}    \u{2588}\u{2588} \u{2588}\u{2588}     \u{2588}\u{2588}   \u{2588}\u{2588} \u{2588}\u{2588}\u{2588}\u{2588}  \u{2588}\u{2588}
 \u{2588}\u{2588}\u{2588}\u{2588}\u{2588}   \u{2588}\u{2588} \u{2588}\u{2588}\u{2588} \u{2588}\u{2588} \u{2588}\u{2588}   \u{2588}\u{2588}     \u{2588}\u{2588} \u{2588}\u{2588} \u{2588}\u{2588}   \u{2588}\u{2588} \u{2588}\u{2588}\u{2588}\u{2588}\u{2588}     \u{2588}\u{2588}    \u{2588}\u{2588} \u{2588}\u{2588}     \u{2588}\u{2588}   \u{2588}\u{2588} \u{2588}\u{2588} \u{2588}\u{2588} \u{2588}\u{2588}
 \u{2588}\u{2588}      \u{2588}\u{2588}  \u{2588}  \u{2588}\u{2588} \u{2588}\u{2588}   \u{2588}\u{2588} \u{2588}\u{2588}  \u{2588}\u{2588} \u{2588}\u{2588} \u{2588}\u{2588}   \u{2588}\u{2588} \u{2588}\u{2588}        \u{2588}\u{2588}    \u{2588}\u{2588} \u{2588}\u{2588}     \u{2588}\u{2588}   \u{2588}\u{2588} \u{2588}\u{2588}  \u{2588}\u{2588}\u{2588}\u{2588}
 \u{2588}\u{2588}\u{2588}\u{2588}\u{2588}\u{2588}\u{2588} \u{2588}\u{2588}     \u{2588}\u{2588}  \u{2588}\u{2588}\u{2588}\u{2588}\u{2588}   \u{2588}\u{2588}\u{2588}\u{2588}\u{2588}  \u{2588}\u{2588}  \u{2588}\u{2588}\u{2588}\u{2588}\u{2588}  \u{2588}\u{2588}        \u{2588}\u{2588}    \u{2588}\u{2588}  \u{2588}\u{2588}\u{2588}\u{2588}\u{2588}  \u{2588}\u{2588}\u{2588}\u{2588}\u{2588}   \u{2588}\u{2588}   \u{2588}\u{2588}\u{2588}
"@
}

/// One dashboard line: the cluster left-padded to four cells, its count
/// right-aligned to five, and its gradient bar.
pub open spec fn entry_line_chars(key: Seq<char>, count: u64) -> Seq<char> {
    pad_right(key, 4) + " "@ + pad_left(dec_chars(count as nat), 5) + " "@ + gradient_bar_chars(
        count,
    ) + "\n"@
}

/// The dashboard lines for a sequence of entries, in order.
pub open spec fn entry_lines_chars(entries: Seq<(String, u64)>) -> Seq<char>
    decreases entries.len(),
{
    if entries.len() == 0 {
        Seq::empty()
    } else {
        entry_lines_chars(entries.drop_last()) + entry_line_chars(
            entries.last().0@,
            entries.last().1,
        )
    }
}

/// One whole frame: screen clear, banner, rule, the top entries, the
/// commentary line, and the footer with viewer count, throughput and uptime.
pub open spec fn frame_chars(
    top: Seq<(String, u64)>,
    connected: u64,
    ops_per_sec: u64,
    analysis: Seq<char>,
    uptime_secs: u64,
) -> Seq<char> {
    "\u{1b}[2J\u{1b}[H"@ + banner_chars() + rule_chars() + "\n\n"@ + entry_lines_chars(top)
        + "\n"@ + rule_chars() + "\n\u{1f4ca} Analysis: "@ + analysis + "\n"@ + rule_chars()
        + "\n\u{1f680} by @aparker.io | connected: "@ + dec_chars(connected as nat)
        + " | posts/sec: "@ + dec_chars(ops_per_sec as nat) + " | uptime: "@ + uptime_chars(
        uptime_secs,
    ) + " | press ctrl+c to disconnect.\n"@
}

/// Builds one dashboard frame from a snapshot of the shared state: the top 25
/// entries by count, descending, followed by commentary and footer. The frame
/// is a pure derivation of its inputs.
pub fn format_display(
    entries: Vec<(String, u64)>,
    connected_clients: u64,
    ops_per_sec: u64,
    current_analysis: &str,
    uptime_secs: u64,
) -> (r: String)
    ensures
        exists|top: Seq<(String, u64)>|
            #[trigger] is_top_of(top, entries@, TOP_ENTRIES as nat) && r@ == frame_chars(
                top,
                connected_clients,
                ops_per_sec,
                current_analysis@,
                uptime_secs,
            ),
{
    let ghost all = entries@;
    let top = top_entries(entries, TOP_ENTRIES);
    let mut out = String::new();
    out.append("\u{1b}[2J\u{1b}[H");
    out.append(
        "
 \u{2588}\u{2588}\u{2588}\u{2588}\u{2588}\u{2588}\u{2588} \u{2588}\u{2588}\u{2588}   \u{2588}\u{2588}\u{2588}  \u{2588}\u{2588}\u{2588}\u{2588}\u{2588}      \u{2588}\u{2588} \u{2588}\u{2588}  \u{2588}\u{2588}\u{2588}\u{2588}\u{2588}  \u{2588}\u{2588}\u{2588}\u{2588}\u{2588}\u{2588} \u{2588}\u{2588}\u{2588}\u{2588}\u{2588}\u{2588}\u{2588}\u{2588} \u{2588}\u{2588}  \u{2588}\u{2588}\u{2588}\u{2588}\u{2588}  \u{2588}\u{2588}\u{2588}\u{2588}\u{2588}  \u{2588}\u{2588}\u{2588}   \u{2588}\u{2588}
 \u{2588}\u{2588}      \u{2588}\u{2588}\u{2588}\u{2588} \u{2588}\u{2588}\u{2588}\u{2588} \u{2588}\u{2588}   \u{2588}\u{2588}     \u{2588}\u{2588} \u{2588}\u{2588} \u{2588}\u{2588}   \u{2588}\u{2588} \u{2588}\u{2588}  \u{2588}\u{2588}    \u{2588}\u{2588}    \u{2588}\u{2588} \u{2588}\u{2588}     \u{2588}\u{2588}   \u{2588}\u{2588} \u{2588}\u{2588}\u{2588}\u{2588}  \u{2588}\u{2588}
 \u{2588}\u{2588}\u{2588}\u{2588}\u{2588}   \u{2588}\u{2588} \u{2588}\u{2588}\u{2588} \u{2588}\u{2588} \u{2588}\u{2588}   \u{2588}\u{2588}     \u{2588}\u{2588} \u{2588}\u{2588} \u{2588}\u{2588}   \u{2588}\u{2588} \u{2588}\u{2588}\u{2588}\u{2588}\u{2588}     \u{2588}\u{2588}    \u{2588}\u{2588} \u{2588}\u{2588}     \u{2588}\u{2588}   \u{2588}\u{2588} \u{2588}\u{2588} \u{2588}\u{2588} \u{2588}\u{2588}
 \u{2588}\u{2588}      \u{2588}\u{2588}  \u{2588}  \u{2588}\u{2588} \u{2588}\u{2588}   \u{2588}\u{2588} \u{2588}\u{2588}  \u{2588}\u{2588} \u{2588}\u{2588} \u{2588}\u{2588}   \u{2588}\u{2588} \u{2588}\u{2588}        \u{2588}\u{2588}    \u{2588}\u{2588} \u{2588}\u{2588}     \u{2588}\u{2588}   \u{2588}\u{2588} \u{2588}\u{2588}  \u{2588}\u{2588}\u{2588}\u{2588}
 \u{2588}\u{2588}\u{2588}\u{2588}\u{2588}\u{2588}\u{2588} \u{2588}\u{2588}     \u{2588}\u{2588}  \u{2588}\u{2588}\u{2588}\u{2588}\u{2588}   \u{2588}\u{2588}\u{2588}\u{2588}\u{2588}  \u{2588}\u{2588}  \u{2588}\u{2588}\u{2588}\u{2588}\u{2588}  \u{2588}\u{2588}        \u{2588}\u{2588}    \u{2588}\u{2588}  \u{2588}\u{2588}\u{2588}\u{2588}\u{2588}  \u{2588}\u{2588}\u{2588}\u{2588}\u{2588}   \u{2588}\u{2588}   \u{2588}\u{2588}\u{2588}
",
    );
    append_rule(&mut out);
    out.append("\n\n");
    let ghost head = out@;
    let n = top.len();
    let mut i: usize = 0;
    while i < n
        invariant
            i <= n,
            n == top@.len(),
            out@ == head + entry_lines_chars(top@.take(i as int)),
        decreases n - i,
    {
        let ghost before = out@;
        append_pad_right(&mut out, top[i].0.as_str(), 4);
        out.append(" ");
        let cs = u64_to_string(top[i].1);
        append_pad_left(&mut out, cs.as_str(), 5);
        out.append(" ");
        let bar = create_gradient_bar(top[i].1);
        out.append(bar.as_str());
        out.append("\n");
        proof {
            let t1 = top@.take(i + 1 as int);
            assert(t1.drop_last() =~= top@.take(i as int));
            assert(t1.last() == top@[i as int]);
            assert(out@ =~= before + entry_line_chars(top@[i as int].0@, top@[i as int].1));
            assert(out@ =~= head + entry_lines_chars(t1));
        }
        i = i + 1;
    }
    proof {
        assert(top@.take(n as int) =~= top@);
    }
    out.append("\n");
    append_rule(&mut out);
    out.append("\n\u{1f4ca} Analysis: ");
    out.append(current_analysis);
    out.append("\n");
    append_rule(&mut out);
    out.append("\n\u{1f680} by @aparker.io | connected: ");
    let cc = u64_to_string(connected_clients);
    out.append(cc.as_str());
    out.append(" | posts/sec: ");
    let os = u64_to_string(ops_per_sec);
    out.append(os.as_str());
    out.append(" | uptime: ");
    let up = format_uptime(uptime_secs);
    out.append(up.as_str());
    out.append(" | press ctrl+c to disconnect.\n");
    proof {
        assert(out@ =~= frame_chars(
            top@,
            connected_clients,
            ops_per_sec,
            current_analysis@,
            uptime_secs,
        ));
        assert(is_top_of(top@, all, TOP_ENTRIES as nat));
    }
    out
}

} // verus!
