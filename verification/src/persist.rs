//! Persistence codec for the aggregate: a flat text rendering of the mapping,
//! one entry per line — the key's character count and the occurrence count as
//! fixed-width decimal fields, then the key itself. Decoding accepts exactly
//! what encoding produces; a corrupt input decodes to nothing, and a
//! round trip reproduces the identical mapping.

use vstd::prelude::*;
use vstd::string::StrSliceExecFns;
use vstd::string::StringExecFns;
use crate::numfmt::{
    dec_chars, is_digit, digit_val, lemma_dec_chars_digits, lemma_dec_chars_len,
    lemma_log10_le_19, lemma_num_val_dec_chars, num_val, pow10, u64_to_string,
};
use crate::store::{counts_map, distinct_keys, FrequencyData};

verus! {

/// The characters of one entry seen through views: the key's characters and
/// the count.
pub open spec fn entry_views(entries: Seq<(String, u64)>) -> Seq<(Seq<char>, u64)> {
    entries.map_values(|e: (String, u64)| (e.0@, e.1))
}

/// Pairwise different keys, at the character level.
pub open spec fn distinct_view_keys(es: Seq<(Seq<char>, u64)>) -> bool {
    forall|i: int, j: int| 0 <= i < j < es.len() ==> es[i].0 != es[j].0
}

/// `k` zero characters.
pub open spec fn zeros(k: nat) -> Seq<char> {
    Seq::new(k, |i: int| '0')
}

/// A number as exactly twenty decimal digits, zero-padded on the left.
pub open spec fn zpad20(n: nat) -> Seq<char> {
    if dec_chars(n).len() <= 20 {
        zeros((20 - dec_chars(n).len()) as nat) + dec_chars(n)
    } else {
        dec_chars(n)
    }
}

/// One persisted entry: the key's character count, a space, the occurrence
/// count, a space, the key, a newline.
pub open spec fn encode_entry(key: Seq<char>, count: u64) -> Seq<char> {
    zpad20(key.len()) + seq![' '] + zpad20(count as nat) + seq![' '] + key + seq!['\n']
}

/// The persisted text for a sequence of entries, in order.
pub open spec fn encode_entries(es: Seq<(Seq<char>, u64)>) -> Seq<char>
    decreases es.len(),
{
    if es.len() == 0 {
        Seq::empty()
    } else {
        encode_entry(es[0].0, es[0].1) + encode_entries(es.drop_first())
    }
}

/// Every character in `[from, to)` is a decimal digit.
pub open spec fn all_digits_at(s: Seq<char>, from: int, to: int) -> bool {
    forall|m: int| from <= m < to ==> is_digit(#[trigger] s[m])
}

/// One entry read off the front of the text, with what follows it; nothing
/// when the front is not exactly an encoded entry.
pub open spec fn parse_entry(s: Seq<char>) -> Option<((Seq<char>, u64), Seq<char>)> {
    if s.len() < 43 {
        None
    } else if !all_digits_at(s, 0, 20) {
        None
    } else if s[20] != ' ' {
        None
    } else if !all_digits_at(s, 21, 41) {
        None
    } else if s[41] != ' ' {
        None
    } else {
        let klen = num_val(s.subrange(0, 20));
        let cnt = num_val(s.subrange(21, 41));
        if cnt > u64::MAX {
            None
        } else if s.len() < 43 + klen {
            None
        } else if s[42 + klen as int] != '\n' {
            None
        } else {
            Some(((s.subrange(42, 42 + klen as int), cnt as u64), s.skip(43 + klen as int)))
        }
    }
}

/// All entries read off the text: nothing unless the text is exactly a
/// sequence of encoded entries.
pub open spec fn decode_entries(s: Seq<char>) -> Option<Seq<(Seq<char>, u64)>>
    decreases s.len(),
{
    if s.len() == 0 {
        Some(Seq::empty())
    } else {
        match parse_entry(s) {
            None => None,
            Some((e, rest)) => if rest.len() < s.len() {
                match decode_entries(rest) {
                    None => None,
                    Some(tail) => Some(seq![e] + tail),
                }
            } else {
                None
            },
        }
    }
}

/// Leading zeros denote nothing: zeros, then any digits, read as the digits.
proof fn lemma_leading_zeros(k: nat, s: Seq<char>)
    ensures
        num_val(zeros(k) + s) == num_val(s),
    decreases s.len(),
{
    if s.len() == 0 {
        assert(zeros(k) + s =~= zeros(k));
        lemma_zeros_val(k);
    } else {
        lemma_leading_zeros(k, s.drop_last());
        assert((zeros(k) + s).drop_last() =~= zeros(k) + s.drop_last());
        assert((zeros(k) + s).last() == s.last());
    }
}

proof fn lemma_zeros_val(k: nat)
    ensures
        num_val(zeros(k)) == 0,
    decreases k,
{
    if k > 0 {
        lemma_zeros_val((k - 1) as nat);
        assert(zeros(k).drop_last() =~= zeros((k - 1) as nat));
        assert(zeros(k).last() == '0');
    }
}

/// The fixed-width rendering of a counter: twenty digits denoting it.
proof fn lemma_zpad20(n: nat)
    requires
        n <= u64::MAX,
    ensures
        zpad20(n).len() == 20,
        forall|m: int| 0 <= m < 20 ==> is_digit(#[trigger] zpad20(n)[m]),
        num_val(zpad20(n)) == n,
{
    lemma_dec_chars_len(n);
    lemma_log10_le_19(n);
    lemma_dec_chars_digits(n);
    let d = dec_chars(n);
    assert(d.len() <= 20);
    let z = zeros((20 - d.len()) as nat);
    assert(zpad20(n) == z + d);
    assert(forall|m: int| 0 <= m < z.len() ==> (z + d)[m] == '0');
    assert(forall|m: int| z.len() <= m < 20 ==> (z + d)[m] == d[m - z.len()]);
    lemma_leading_zeros((20 - d.len()) as nat, d);
    lemma_num_val_dec_chars(n);
}

/// Reading the front of an encoded entry followed by anything gives back the
/// entry and that remainder.
proof fn lemma_parse_encode_entry(key: Seq<char>, count: u64, rest: Seq<char>)
    requires
        key.len() <= u64::MAX,
    ensures
        parse_entry(encode_entry(key, count) + rest) == Some(((key, count), rest)),
{
    lemma_zpad20(key.len());
    lemma_zpad20(count as nat);
    let zp1 = zpad20(key.len());
    let zp2 = zpad20(count as nat);
    let s = encode_entry(key, count) + rest;
    let kl = key.len() as int;
    assert(s.len() == 43 + key.len() + rest.len());
    assert(s.subrange(0, 20) =~= zp1);
    assert(all_digits_at(s, 0, 20));
    assert(s[20] == ' ');
    assert(s.subrange(21, 41) =~= zp2);
    assert(all_digits_at(s, 21, 41));
    assert(s[41] == ' ');
    assert(num_val(s.subrange(0, 20)) == key.len());
    assert(num_val(s.subrange(21, 41)) == count as nat);
    assert(s[42 + kl] == '\n');
    assert(s.subrange(42, 42 + kl) =~= key);
    assert(s.skip(43 + kl) =~= rest);
}

/// Decoding what encoding produced gives back exactly the entries: the
/// persisted aggregate, loaded, is the identical sequence of keys and counts.
pub proof fn lemma_decode_encode(es: Seq<(Seq<char>, u64)>)
    requires
        forall|i: int| 0 <= i < es.len() ==> (#[trigger] es[i]).0.len() <= u64::MAX,
    ensures
        decode_entries(encode_entries(es)) == Some(es),
    decreases es.len(),
{
    if es.len() == 0 {
        assert(encode_entries(es) == Seq::<char>::empty());
        assert(es =~= Seq::<(Seq<char>, u64)>::empty());
    } else {
        let e0 = es[0];
        let tail_text = encode_entries(es.drop_first());
        let enc = encode_entries(es);
        assert(enc == encode_entry(e0.0, e0.1) + tail_text);
        lemma_zpad20(e0.0.len());
        lemma_zpad20(e0.1 as nat);
        assert(enc.len() == 43 + e0.0.len() + tail_text.len());
        lemma_parse_encode_entry(e0.0, e0.1, tail_text);
        assert(parse_entry(enc) == Some(((e0.0, e0.1), tail_text)));
        assert((e0.0, e0.1) == e0);
        assert(forall|i: int|
            0 <= i < es.drop_first().len() ==> (#[trigger] es.drop_first()[i]).0.len()
                <= u64::MAX) by {
            assert(forall|i: int|
                0 <= i < es.drop_first().len() ==> es.drop_first()[i] == es[i + 1]);
        }
        lemma_decode_encode(es.drop_first());
        assert(decode_entries(enc) == Some(seq![e0] + es.drop_first()));
        assert(seq![e0] + es.drop_first() =~= es);
    }
}

/// The mapping a store holds is settled by its keys' characters and counts
/// alone: two entry sequences with the same views hold the same mapping.
pub proof fn lemma_counts_map_of_views(e1: Seq<(String, u64)>, e2: Seq<(String, u64)>)
    requires
        entry_views(e1) == entry_views(e2),
    ensures
        counts_map(e1) == counts_map(e2),
    decreases e1.len(),
{
    assert(entry_views(e1).len() == e1.len());
    assert(entry_views(e2).len() == e2.len());
    assert(e1.len() == e2.len());
    if e1.len() > 0 {
        assert(entry_views(e1.drop_last()) =~= entry_views(e2.drop_last())) by {
            assert(forall|i: int|
                0 <= i < e1.len() ==> entry_views(e1)[i] == (#[trigger] e1[i].0@, e1[i].1)
                    && entry_views(e2)[i] == (e2[i].0@, e2[i].1));
        }
        lemma_counts_map_of_views(e1.drop_last(), e2.drop_last());
        assert(entry_views(e1)[e1.len() - 1] == entry_views(e2)[e2.len() - 1]);
        assert(e1.last().0@ == e2.last().0@ && e1.last().1 == e2.last().1);
    }
}

/// A window of digits reads the same whether the text is skipped first or
/// indexed in place.
proof fn lemma_digits_window(s: Seq<char>, pos: int, a: int, b: int)
    requires
        0 <= pos,
        0 <= a <= b,
        pos + b <= s.len(),
    ensures
        all_digits_at(s.skip(pos), a, b) <==> all_digits_at(s, pos + a, pos + b),
{
    if all_digits_at(s.skip(pos), a, b) {
        assert forall|m: int| pos + a <= m < pos + b implies is_digit(#[trigger] s[m]) by {
            assert(s.skip(pos)[m - pos] == s[m]);
            assert(is_digit(s.skip(pos)[m - pos]));
        }
    }
    if all_digits_at(s, pos + a, pos + b) {
        assert forall|m: int| a <= m < b implies is_digit(#[trigger] s.skip(pos)[m]) by {
            assert(s.skip(pos)[m] == s[pos + m]);
            assert(is_digit(s[pos + m]));
        }
    }
}

/// The digit value of one character, if it is a digit.
fn digit_value_of(c: char) -> (r: Option<u64>)
    ensures
        match r {
            Some(d) => is_digit(c) && d < 10 && d as nat == digit_val(c),
            None => !is_digit(c),
        },
{
    if c == '0' {
        Some(0)
    } else if c == '1' {
        Some(1)
    } else if c == '2' {
        Some(2)
    } else if c == '3' {
        Some(3)
    } else if c == '4' {
        Some(4)
    } else if c == '5' {
        Some(5)
    } else if c == '6' {
        Some(6)
    } else if c == '7' {
        Some(7)
    } else if c == '8' {
        Some(8)
    } else if c == '9' {
        Some(9)
    } else {
        None
    }
}

/// Reads the twenty-digit field at `pos`; nothing when a character there is
/// not a digit or the value does not fit a counter.
fn read_fixed20(s: &str, pos: usize) -> (r: Option<u64>)
    requires
        pos + 20 <= s@.len(),
        s@.len() <= usize::MAX,
    ensures
        match r {
            Some(v) => all_digits_at(s@, pos as int, pos + 20) && v as nat == num_val(
                s@.subrange(pos as int, pos + 20),
            ),
            None => !all_digits_at(s@, pos as int, pos + 20) || num_val(
                s@.subrange(pos as int, pos + 20),
            ) > u64::MAX,
        },
{
    let mut acc: u128 = 0;
    let mut j: usize = 0;
    proof {
        assert(s@.subrange(pos as int, pos as int) =~= Seq::<char>::empty());
    }
    while j < 20
        invariant
            j <= 20,
            pos + 20 <= s@.len(),
            all_digits_at(s@, pos as int, pos + j),
            acc as nat == num_val(s@.subrange(pos as int, pos + j)),
            (acc as nat) < pow10(j as nat),
        decreases 20 - j,
    {
        let c = s.get_char(pos + j);
        match digit_value_of(c) {
            None => {
                assert(!is_digit(s@[pos + j]));
                return None;
            },
            Some(d) => {
                proof {
                    let sub1 = s@.subrange(pos as int, pos + j + 1);
                    assert(sub1.drop_last() =~= s@.subrange(pos as int, pos + j));
                    assert(sub1.last() == s@[pos + j]);
                    assert(pow10(20) == 100000000000000000000) by {
                        reveal_with_fuel(pow10, 21);
                    }
                    assert((acc as nat) * 10 + 9 < pow10((j + 1) as nat)) by (nonlinear_arith)
                        requires
                            (acc as nat) < pow10(j as nat),
                            pow10((j + 1) as nat) == 10 * pow10(j as nat),
                    ;
                    crate::numfmt::lemma_pow10_le(j as nat + 1, 20);
                }
                acc = acc * 10 + d as u128;
            },
        }
        j = j + 1;
    }
    if acc > u64::MAX as u128 {
        return None;
    }
    Some(acc as u64)
}

/// Appends the twenty-digit zero-padded rendering of `v`.
fn append_zpad20(out: &mut String, v: u64)
    ensures
        final(out)@ == old(out)@ + zpad20(v as nat),
{
    let ds = u64_to_string(v);
    let dl = ds.as_str().unicode_len();
    proof {
        lemma_dec_chars_len(v as nat);
        lemma_log10_le_19(v as nat);
        reveal_strlit("0");
    }
    let pad = 20 - dl;
    let mut i: usize = 0;
    while i < pad
        invariant
            i <= pad,
            out@ == old(out)@ + zeros(i as nat),
        decreases pad - i,
    {
        out.append("0");
        proof {
            assert(zeros(i as nat) + "0"@ =~= zeros((i + 1) as nat));
            assert(old(out)@ + zeros(i as nat) + "0"@ =~= old(out)@ + zeros((i + 1) as nat));
        }
        i = i + 1;
    }
    out.append(ds.as_str());
    proof {
        assert(out@ =~= old(out)@ + zpad20(v as nat));
    }
}

/// The persisted text for the whole aggregate, entries in store order.
pub fn encode_frequencies(store: &FrequencyData) -> (r: String)
    ensures
        r@ == encode_entries(entry_views(store.emoji_counts@)),
{
    let entries = &store.emoji_counts;
    let n = entries.len();
    let mut out = String::new();
    proof {
        assert(entry_views(entries@.take(0)) =~= Seq::<(Seq<char>, u64)>::empty());
    }
    let mut i: usize = 0;
    while i < n
        invariant
            i <= n,
            n == entries@.len(),
            out@ == encode_entries(entry_views(entries@.take(i as int))),
        decreases n - i,
    {
        let ghost before = out@;
        let key = &entries[i].0;
        let klen = key.as_str().unicode_len();
        append_zpad20(&mut out, klen as u64);
        out.append(" ");
        append_zpad20(&mut out, entries[i].1);
        out.append(" ");
        out.append(key.as_str());
        out.append("\n");
        proof {
            reveal_strlit(" ");
            reveal_strlit("\n");
            assert(" "@ =~= seq![' ']);
            assert("\n"@ =~= seq!['\n']);
            assert(out@ =~= before + encode_entry(key@, entries@[i as int].1));
            let v0 = entry_views(entries@.take(i as int));
            let v1 = entry_views(entries@.take(i + 1 as int));
            assert(v1.drop_last() =~= v0);
            assert(v1.last() == (entries@[i as int].0@, entries@[i as int].1));
            lemma_encode_push(v0, v1.last());
            assert(v0.push(v1.last()) =~= v1);
        }
        i = i + 1;
    }
    proof {
        assert(entries@.take(n as int) =~= entries@);
    }
    out
}

/// Appending one entry appends its encoding.
proof fn lemma_encode_push(es: Seq<(Seq<char>, u64)>, e: (Seq<char>, u64))
    ensures
        encode_entries(es.push(e)) == encode_entries(es) + encode_entry(e.0, e.1),
    decreases es.len(),
{
    if es.len() == 0 {
        assert(es.push(e)[0] == e);
        assert(es.push(e).drop_first() =~= es);
        assert(encode_entries(es) == Seq::<char>::empty());
        assert(encode_entries(es.push(e)) == encode_entry(e.0, e.1) + encode_entries(es));
        assert(encode_entry(e.0, e.1) + encode_entries(es) =~= encode_entries(es) + encode_entry(
            e.0,
            e.1,
        ));
    } else {
        assert(es.push(e)[0] == es[0]);
        assert(es.push(e).drop_first() =~= es.drop_first().push(e));
        lemma_encode_push(es.drop_first(), e);
        assert(encode_entries(es.push(e)) =~= encode_entries(es) + encode_entry(e.0, e.1));
    }
}

/// Loads entries from persisted text: the entries the text encodes, in order,
/// with their keys distinct — or nothing, when the text is not exactly an
/// encoding of such entries.
#[verifier::rlimit(100)]
pub fn decode_frequencies(input: &str) -> (r: Option<Vec<(String, u64)>>)
    ensures
        match r {
            Some(v) => decode_entries(input@) == Some(entry_views(v@)) && distinct_keys(v@),
            None => match decode_entries(input@) {
                None => true,
                Some(es) => !distinct_view_keys(es),
            },
        },
{
    let n = input.unicode_len();
    let mut out: Vec<(String, u64)> = Vec::new();
    let mut pos: usize = 0;
    proof {
        assert(entry_views(out@) =~= Seq::<(Seq<char>, u64)>::empty());
        assert(input@.skip(0) =~= input@);
        let d0 = decode_entries(input@);
        if d0 is Some {
            assert(entry_views(out@) + d0.unwrap() =~= d0.unwrap());
        }
    }
    while pos < n
        invariant
            pos <= n,
            n == input@.len(),
            distinct_keys(out@),
            match decode_entries(input@.skip(pos as int)) {
                None => decode_entries(input@) == None::<Seq<(Seq<char>, u64)>>,
                Some(tail) => decode_entries(input@) == Some(entry_views(out@) + tail),
            },
        decreases n - pos,
    {
        let ghost t = input@.skip(pos as int);
        assert(t.len() == n - pos);
        if n - pos < 43 {
            assert(parse_entry(t) == None::<((Seq<char>, u64), Seq<char>)>);
            return None;
        }
        let klen = match read_fixed20(input, pos) {
            None => {
                proof {
                    lemma_digits_window(input@, pos as int, 0, 20);
                    assert(t.subrange(0, 20) =~= input@.subrange(pos as int, pos + 20));
                    assert(t.len() <= u64::MAX);
                    assert(parse_entry(t) == None::<((Seq<char>, u64), Seq<char>)>) by {
                        if all_digits_at(t, 0, 20) {
                            assert(num_val(t.subrange(0, 20)) > u64::MAX);
                        }
                    }
                }
                return None;
            },
            Some(v) => v,
        };
        proof {
            lemma_digits_window(input@, pos as int, 0, 20);
            assert(t.subrange(0, 20) =~= input@.subrange(pos as int, pos + 20));
            assert(all_digits_at(t, 0, 20));
            assert(num_val(t.subrange(0, 20)) == klen as nat);
        }
        if input.get_char(pos + 20) != ' ' {
            assert(t[20] != ' ');
            return None;
        }
        let cnt = match read_fixed20(input, pos + 21) {
            None => {
                proof {
                    lemma_digits_window(input@, pos as int, 21, 41);
                    assert(t.subrange(21, 41) =~= input@.subrange(pos + 21, pos + 41));
                    assert(parse_entry(t) == None::<((Seq<char>, u64), Seq<char>)>) by {
                        if all_digits_at(t, 21, 41) {
                            assert(num_val(t.subrange(21, 41)) > u64::MAX);
                        }
                    }
                }
                return None;
            },
            Some(v) => v,
        };
        proof {
            lemma_digits_window(input@, pos as int, 21, 41);
            assert(t.subrange(21, 41) =~= input@.subrange(pos + 21, pos + 41));
            assert(all_digits_at(t, 21, 41));
            assert(num_val(t.subrange(21, 41)) == cnt as nat);
        }
        if input.get_char(pos + 41) != ' ' {
            assert(t[41] != ' ');
            return None;
        }
        let rem = n - pos - 43;
        if klen > rem as u64 {
            assert(t.len() < 43 + num_val(t.subrange(0, 20)));
            return None;
        }
        let kl = klen as usize;
        if input.get_char(pos + 42 + kl) != '\n' {
            assert(t[42 + klen as int] != '\n');
            return None;
        }
        let key = input.substring_char(pos + 42, pos + 42 + kl).to_owned();
        proof {
            assert(key@ =~= t.subrange(42, 42 + klen as int));
            assert(t.skip(43 + klen as int) =~= input@.skip(pos + 43 + kl));
            assert(parse_entry(t) == Some(((key@, cnt), input@.skip(pos + 43 + kl))));
        }
        // a key seen twice is not a well-formed aggregate
        let mut d: usize = 0;
        let dn = out.len();
        while d < dn
            invariant
                d <= dn,
                dn == out@.len(),
                forall|m: int| 0 <= m < d ==> out@[m].0@ != key@,
            decreases dn - d,
        {
            if out[d].0 == key {
                proof {
                    let rest = input@.skip(pos + 43 + kl);
                    assert(decode_entries(t) == match decode_entries(rest) {
                        None => None::<Seq<(Seq<char>, u64)>>,
                        Some(tail) => Some(seq![(key@, cnt)] + tail),
                    });
                    if decode_entries(rest) is Some {
                        let tail = decode_entries(rest).unwrap();
                        let es = entry_views(out@) + (seq![(key@, cnt)] + tail);
                        assert(decode_entries(input@) == Some(es));
                        assert(es[d as int].0 == out@[d as int].0@);
                        assert(es[out@.len() as int].0 == key@);
                        assert(!distinct_view_keys(es));
                    }
                }
                return None;
            }
            d = d + 1;
        }
        let ghost out0 = out@;
        out.push((key, cnt));
        let newpos = pos + 43 + kl;
        proof {
            let rest = input@.skip(newpos as int);
            assert(rest.len() < t.len());
            assert(decode_entries(t) == match decode_entries(rest) {
                None => None::<Seq<(Seq<char>, u64)>>,
                Some(tail) => Some(seq![(out@.last().0@, cnt)] + tail),
            });
            assert(entry_views(out@) =~= entry_views(out0) + seq![(out@.last().0@, cnt)]);
            if decode_entries(rest) is Some {
                let tail = decode_entries(rest).unwrap();
                assert(entry_views(out0) + (seq![(out@.last().0@, cnt)] + tail) =~= entry_views(
                    out@,
                ) + tail);
            }
            assert(distinct_keys(out@)) by {
                assert(forall|m: int| 0 <= m < out0.len() ==> out@[m] == out0[m]);
            }
        }
        pos = newpos;
    }
    proof {
        assert(input@.skip(n as int) =~= Seq::<char>::empty());
        assert(decode_entries(input@.skip(n as int)) == Some(Seq::<(Seq<char>, u64)>::empty()));
        assert(entry_views(out@) + Seq::<(Seq<char>, u64)>::empty() =~= entry_views(out@));
    }
    Some(out)
}

} // verus!
