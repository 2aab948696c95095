//! Decimal rendering of counters, space padding, and the integer part of the
//! base-ten logarithm — the numeric plumbing of the renderer and of the
//! persistence codec.

use vstd::prelude::*;
use vstd::string::StrSliceExecFns;
use vstd::string::StringExecFns;

verus! {

/// The character for one decimal digit value.
pub open spec fn digit_char(d: nat) -> char {
    if d == 0 {
        '0'
    } else if d == 1 {
        '1'
    } else if d == 2 {
        '2'
    } else if d == 3 {
        '3'
    } else if d == 4 {
        '4'
    } else if d == 5 {
        '5'
    } else if d == 6 {
        '6'
    } else if d == 7 {
        '7'
    } else if d == 8 {
        '8'
    } else {
        '9'
    }
}

/// Whether a character is a decimal digit.
pub open spec fn is_digit(c: char) -> bool {
    c == '0' || c == '1' || c == '2' || c == '3' || c == '4' || c == '5' || c == '6' || c == '7'
        || c == '8' || c == '9'
}

/// The value of one decimal digit character.
pub open spec fn digit_val(c: char) -> nat {
    if c == '0' {
        0
    } else if c == '1' {
        1
    } else if c == '2' {
        2
    } else if c == '3' {
        3
    } else if c == '4' {
        4
    } else if c == '5' {
        5
    } else if c == '6' {
        6
    } else if c == '7' {
        7
    } else if c == '8' {
        8
    } else {
        9
    }
}

/// The usual decimal rendering of a number: most significant digit first,
/// no leading zeroes (a single zero for zero itself).
pub open spec fn dec_chars(n: nat) -> Seq<char>
    decreases n,
{
    if n < 10 {
        seq![digit_char(n)]
    } else {
        dec_chars(n / 10).push(digit_char(n % 10))
    }
}

/// The number a sequence of digit characters denotes.
pub open spec fn num_val(s: Seq<char>) -> nat
    decreases s.len(),
{
    if s.len() == 0 {
        0
    } else {
        num_val(s.drop_last()) * 10 + digit_val(s.last())
    }
}

/// A decimal rendering is nonempty and consists of digit characters only.
pub proof fn lemma_dec_chars_digits(n: nat)
    ensures
        dec_chars(n).len() >= 1,
        forall|i: int| 0 <= i < dec_chars(n).len() ==> is_digit(#[trigger] dec_chars(n)[i]),
    decreases n,
{
    if n >= 10 {
        lemma_dec_chars_digits(n / 10);
    }
}

/// Reading a decimal rendering back gives the number it renders.
pub proof fn lemma_num_val_dec_chars(n: nat)
    ensures
        num_val(dec_chars(n)) == n,
    decreases n,
{
    if n < 10 {
        assert(dec_chars(n) == seq![digit_char(n)]);
        assert(dec_chars(n).drop_last() =~= Seq::<char>::empty());
        assert(dec_chars(n).last() == digit_char(n));
        assert(num_val(Seq::<char>::empty()) == 0);
        assert(digit_val(digit_char(n)) == n);
    } else {
        lemma_num_val_dec_chars(n / 10);
        assert(dec_chars(n) == dec_chars(n / 10).push(digit_char(n % 10)));
        assert(dec_chars(n).drop_last() =~= dec_chars(n / 10));
        assert(dec_chars(n).last() == digit_char(n % 10));
        assert(digit_val(digit_char(n % 10)) == n % 10);
        assert(n == (n / 10) * 10 + n % 10) by (nonlinear_arith);
    }
}

/// A decimal rendering has one more character than the number's integer
/// base-ten logarithm.
pub proof fn lemma_dec_chars_len(n: nat)
    ensures
        dec_chars(n).len() == log10_floor(n) + 1,
    decreases n,
{
    if n >= 10 {
        lemma_dec_chars_len(n / 10);
    }
}

/// A one-character string slice for one digit value.
fn digit_str(d: u64) -> (r: &'static str)
    requires
        d < 10,
    ensures
        r@ =~= seq![digit_char(d as nat)],
{
    proof {
        reveal_strlit("0");
        reveal_strlit("1");
        reveal_strlit("2");
        reveal_strlit("3");
        reveal_strlit("4");
        reveal_strlit("5");
        reveal_strlit("6");
        reveal_strlit("7");
        reveal_strlit("8");
        reveal_strlit("9");
    }
    if d == 0 {
        "0"
    } else if d == 1 {
        "1"
    } else if d == 2 {
        "2"
    } else if d == 3 {
        "3"
    } else if d == 4 {
        "4"
    } else if d == 5 {
        "5"
    } else if d == 6 {
        "6"
    } else if d == 7 {
        "7"
    } else if d == 8 {
        "8"
    } else {
        "9"
    }
}

/// The decimal rendering of a counter.
pub fn u64_to_string(n: u64) -> (r: String)
    ensures
        r@ == dec_chars(n as nat),
    decreases n,
{
    if n < 10 {
        let r = digit_str(n).to_owned();
        r
    } else {
        let mut s = u64_to_string(n / 10);
        let d = digit_str(n % 10);
        s.append(d);
        proof {
            assert((n as nat) / 10 == (n / 10) as nat);
            assert((n as nat) % 10 == (n % 10) as nat);
            assert(dec_chars((n / 10) as nat) + seq![digit_char((n % 10) as nat)] =~= dec_chars(
                (n / 10) as nat,
            ).push(digit_char((n % 10) as nat)));
        }
        s
    }
}

/// `n` spaces.
pub open spec fn spaces(n: nat) -> Seq<char> {
    Seq::new(n, |i: int| ' ')
}

/// `s` padded on the left with spaces to width `w` (unchanged when already
/// that wide).
pub open spec fn pad_left(s: Seq<char>, w: nat) -> Seq<char> {
    if s.len() >= w {
        s
    } else {
        spaces((w - s.len()) as nat) + s
    }
}

/// `s` padded on the right with spaces to width `w`.
pub open spec fn pad_right(s: Seq<char>, w: nat) -> Seq<char> {
    if s.len() >= w {
        s
    } else {
        s + spaces((w - s.len()) as nat)
    }
}

/// Appends `n` spaces to `out`.
pub fn append_spaces(out: &mut String, n: usize)
    ensures
        final(out)@ == old(out)@ + spaces(n as nat),
{
    proof {
        reveal_strlit(" ");
    }
    let mut i: usize = 0;
    while i < n
        invariant
            i <= n,
            out@ == old(out)@ + spaces(i as nat),
        decreases n - i,
    {
        out.append(" ");
        proof {
            assert(spaces(i as nat) + " "@ =~= spaces((i + 1) as nat));
            assert(old(out)@ + spaces(i as nat) + " "@ =~= old(out)@ + spaces((i + 1) as nat));
        }
        i = i + 1;
    }
    proof {
        assert(old(out)@ + spaces(0nat) =~= old(out)@);
        assert(out@ =~= old(out)@ + spaces(n as nat));
    }
}

/// Appends `piece` left-padded with spaces to width `w`.
pub fn append_pad_left(out: &mut String, piece: &str, w: usize)
    ensures
        final(out)@ == old(out)@ + pad_left(piece@, w as nat),
{
    let len = piece.unicode_len();
    if len < w {
        append_spaces(out, w - len);
    }
    out.append(piece);
    proof {
        if piece@.len() < w as nat {
            assert(old(out)@ + spaces((w - piece@.len()) as nat) + piece@ =~= old(out)@ + pad_left(
                piece@,
                w as nat,
            ));
        }
    }
}

/// Appends `piece` right-padded with spaces to width `w`.
pub fn append_pad_right(out: &mut String, piece: &str, w: usize)
    ensures
        final(out)@ == old(out)@ + pad_right(piece@, w as nat),
{
    let len = piece.unicode_len();
    out.append(piece);
    if len < w {
        append_spaces(out, w - len);
        proof {
            assert(old(out)@ + piece@ + spaces((w - piece@.len()) as nat) =~= old(out)@ + pad_right(
                piece@,
                w as nat,
            ));
        }
    }
}

/// Ten to the `k`.
pub open spec fn pow10(k: nat) -> nat
    decreases k,
{
    if k == 0 {
        1
    } else {
        10 * pow10((k - 1) as nat)
    }
}

/// The integer part of the base-ten logarithm (zero for zero).
pub open spec fn log10_floor(n: nat) -> nat
    decreases n,
{
    if n < 10 {
        0
    } else {
        1 + log10_floor(n / 10)
    }
}

/// Powers of ten grow with the exponent.
pub proof fn lemma_pow10_le(a: nat, b: nat)
    requires
        a <= b,
    ensures
        pow10(a) <= pow10(b),
    decreases b,
{
    if a < b {
        lemma_pow10_le(a, (b - 1) as nat);
        assert(pow10(b) == 10 * pow10((b - 1) as nat));
        assert(pow10((b - 1) as nat) <= 10 * pow10((b - 1) as nat)) by (nonlinear_arith)
            requires
                pow10((b - 1) as nat) >= 0,
        ;
    }
}

/// Numbers below ten to the `k + 1` have integer logarithm at most `k`.
pub proof fn lemma_log10_bound(n: nat, k: nat)
    requires
        n < pow10(k + 1),
    ensures
        log10_floor(n) <= k,
    decreases n,
{
    if n >= 10 {
        assert(k >= 1) by {
            if k == 0 {
                assert(pow10(1) == 10);
            }
        }
        assert(pow10(k + 1) == 10 * pow10(k));
        assert(n / 10 < pow10(k)) by (nonlinear_arith)
            requires
                n < 10 * pow10(k),
        ;
        lemma_log10_bound(n / 10, (k - 1) as nat);
    }
}

/// Nothing a 64-bit counter can reach has integer logarithm above nineteen.
pub proof fn lemma_log10_le_19(n: nat)
    requires
        n <= 0x10000000000000000,
    ensures
        log10_floor(n) <= 19,
{
    assert(pow10(20) == 100000000000000000000) by {
        reveal_with_fuel(pow10, 21);
    }
    lemma_log10_bound(n, 19);
}

/// The integer base-ten logarithm of a positive counter.
pub fn log10_floor_u64(n: u64) -> (r: u64)
    ensures
        r as nat == log10_floor(n as nat),
{
    let mut m: u64 = n;
    let mut l: u64 = 0;
    proof {
        assert(pow10(0) == 1);
        assert((n as nat) * 1 == n as nat) by (nonlinear_arith);
    }
    while m >= 10
        invariant
            log10_floor(n as nat) == l + log10_floor(m as nat),
            (m as nat) * pow10(l as nat) <= n as nat,
            l <= 19,
        decreases m,
    {
        proof {
            assert((m as nat / 10) * pow10((l + 1) as nat) <= (m as nat) * pow10(l as nat)) by (
            nonlinear_arith)
                requires
                    m >= 10,
            ;
            assert(l < 19) by {
                if l >= 19 {
                    assert(pow10(19) == 10000000000000000000) by {
                        reveal_with_fuel(pow10, 20);
                    }
                    assert((m as nat) * pow10(l as nat) >= 10 * pow10(19)) by (nonlinear_arith)
                        requires
                            m >= 10,
                            l == 19,
                    ;
                }
            }
        }
        m = m / 10;
        l = l + 1;
    }
    l
}

} // verus!
