//! Decimal digit strings: the mathematical value of a digit sequence, the
//! canonical rendering of a number, and executable conversions between the
//! two, each proved against the spec-level definitions.

use vstd::prelude::*;
use vstd::string::StrSliceExecFns;
use vstd::string::StringExecFns;

verus! {

/// `c` is one of the ten decimal digit characters.
pub open spec fn is_dec_digit(c: char) -> bool {
    48 <= c as int && c as int <= 57
}

/// Numeric value of a digit character.
pub open spec fn digit_value(c: char) -> nat {
    (c as int - 48) as nat
}

/// Every character of `s` is a decimal digit.
pub open spec fn all_dec_digits(s: Seq<char>) -> bool {
    forall|i: int| 0 <= i < s.len() ==> is_dec_digit(#[trigger] s[i])
}

/// The number a digit sequence denotes, most significant digit first.
pub open spec fn dec_value(s: Seq<char>) -> nat
    decreases s.len(),
{
    if s.len() == 0 {
        0
    } else {
        10 * dec_value(s.drop_last()) + digit_value(s.last())
    }
}

/// The digit character for a value below ten.
pub open spec fn digit_char(d: nat) -> char {
    if d == 0 { '0' }
    else if d == 1 { '1' }
    else if d == 2 { '2' }
    else if d == 3 { '3' }
    else if d == 4 { '4' }
    else if d == 5 { '5' }
    else if d == 6 { '6' }
    else if d == 7 { '7' }
    else if d == 8 { '8' }
    else { '9' }
}

/// The decimal rendering of `n`: no sign, no leading zero except for `0`.
pub open spec fn dec_str(n: nat) -> Seq<char>
    decreases n,
{
    if n < 10 {
        seq![digit_char(n)]
    } else {
        dec_str(n / 10).push(digit_char(n % 10))
    }
}

/// Ten to the `e`.
pub open spec fn pow10(e: nat) -> nat
    decreases e,
{
    if e == 0 {
        1
    } else {
        10 * pow10((e - 1) as nat)
    }
}

pub proof fn lemma_pow10_pos(e: nat)
    ensures
        pow10(e) >= 1,
    decreases e,
{
    if e > 0 {
        lemma_pow10_pos((e - 1) as nat);
    }
}

/// The largest power of ten a `u64` can hold.
pub proof fn lemma_pow10_19_fits()
    ensures
        pow10(19) == 10_000_000_000_000_000_000,
{
    reveal_with_fuel(pow10, 20);
    assert(pow10(19) == 10_000_000_000_000_000_000);
}

pub proof fn lemma_pow10_mono(a: nat, b: nat)
    requires
        a <= b,
    ensures
        pow10(a) <= pow10(b),
    decreases b,
{
    if a < b {
        lemma_pow10_mono(a, (b - 1) as nat);
        lemma_pow10_pos((b - 1) as nat);
    }
}

/// Rendering a value below ten and reading it back is the identity.
pub proof fn lemma_digit_char_value(d: nat)
    requires
        d < 10,
    ensures
        digit_value(digit_char(d)) == d,
        is_dec_digit(digit_char(d)),
{
}

/// `dec_str` produces at least one character, all of them digits.
pub proof fn lemma_dec_str_digits(n: nat)
    ensures
        dec_str(n).len() >= 1,
        all_dec_digits(dec_str(n)),
    decreases n,
{
    if n < 10 {
        lemma_digit_char_value(n);
        assert(all_dec_digits(dec_str(n))) by {
            assert(forall|i: int| 0 <= i < dec_str(n).len() ==> dec_str(n)[i] == digit_char(n));
        }
    } else {
        lemma_dec_str_digits(n / 10);
        lemma_digit_char_value(n % 10);
        let s = dec_str(n);
        let p = dec_str(n / 10);
        assert(forall|i: int| 0 <= i < s.len() ==> is_dec_digit(#[trigger] s[i])) by {
            assert(forall|i: int| 0 <= i < p.len() ==> is_dec_digit(#[trigger] p[i]));
            assert(forall|i: int| 0 <= i < s.len() ==> s[i] == (if i < p.len() { p[i] } else {
                digit_char(n % 10)
            }));
        }
    }
}

/// Reading back the decimal rendering of `n` yields `n`.
pub proof fn lemma_dec_str_value(n: nat)
    ensures
        dec_value(dec_str(n)) == n,
    decreases n,
{
    if n < 10 {
        lemma_digit_char_value(n);
        let s = dec_str(n);
        assert(s.drop_last() =~= Seq::<char>::empty());
        assert(dec_value(s) == 10 * dec_value(s.drop_last()) + digit_value(s.last()));
    } else {
        lemma_dec_str_value(n / 10);
        lemma_digit_char_value(n % 10);
        let s = dec_str(n);
        assert(s.drop_last() =~= dec_str(n / 10));
        assert(s.last() == digit_char(n % 10));
    }
}

/// The value of a concatenation: the left part is scaled by ten to the
/// length of the right part.
pub proof fn lemma_dec_value_concat(a: Seq<char>, b: Seq<char>)
    ensures
        dec_value(a + b) == dec_value(a) * pow10(b.len()) + dec_value(b),
    decreases b.len(),
{
    if b.len() == 0 {
        assert(a + b =~= a);
        assert(pow10(0) == 1);
        assert(dec_value(a) * pow10(0) == dec_value(a));
    } else {
        lemma_dec_value_concat(a, b.drop_last());
        let s = a + b;
        assert(s.drop_last() =~= a + b.drop_last());
        assert(s.last() == b.last());
        assert(dec_value(s) == 10 * dec_value(a + b.drop_last()) + digit_value(b.last()));
        assert(10 * (dec_value(a) * pow10((b.len() - 1) as nat) + dec_value(b.drop_last()))
            == dec_value(a) * (10 * pow10((b.len() - 1) as nat)) + 10 * dec_value(b.drop_last()))
            by (nonlinear_arith);
        assert(pow10(b.len()) == 10 * pow10((b.len() - 1) as nat));
    }
}

/// A digit string is worth at least its prefix scaled up by the length of
/// the rest.
pub proof fn lemma_dec_value_prefix_bound(s: Seq<char>, i: int)
    requires
        0 <= i <= s.len(),
    ensures
        dec_value(s) >= dec_value(s.take(i)) * pow10((s.len() - i) as nat),
{
    assert(s =~= s.take(i) + s.skip(i));
    lemma_dec_value_concat(s.take(i), s.skip(i));
}

/// Renders a single digit.
fn digit_str(d: u64) -> (r: &'static str)
    requires
        d < 10,
    ensures
        r@ == seq![digit_char(d as nat)],
{
    let r: &'static str = if d == 0 { "0" }
    else if d == 1 { "1" }
    else if d == 2 { "2" }
    else if d == 3 { "3" }
    else if d == 4 { "4" }
    else if d == 5 { "5" }
    else if d == 6 { "6" }
    else if d == 7 { "7" }
    else if d == 8 { "8" }
    else { "9" };
    proof {
        reveal_strlit("0");
        reveal_strlit("1");
        reveal_strlit("2");
        reveal_strlit("3");
        reveal_strlit("4");
        reveal_strlit("5");
        reveal_strlit("6");
        reveal_strlit("7");
        reveal_strlit("8");
        reveal_strlit("9");
        assert(r@ =~= seq![digit_char(d as nat)]);
    }
    r
}

/// Renders `n` in decimal.
pub fn u64_to_string(n: u64) -> (r: String)
    ensures
        r@ == dec_str(n as nat),
    decreases n,
{
    if n < 10 {
        let r = String::from_str(digit_str(n));
        proof {
            assert(r@ =~= dec_str(n as nat));
        }
        r
    } else {
        let mut s = u64_to_string(n / 10);
        s.append(digit_str(n % 10));
        proof {
            assert(s@ =~= dec_str(n as nat));
        }
        s
    }
}

/// `s` is the kind of string `parse_u64` accepts: nonempty, digits only,
/// small enough for a `u64`.
pub open spec fn is_u64_string(s: Seq<char>) -> bool {
    s.len() > 0 && all_dec_digits(s) && dec_value(s) <= u64::MAX
}

/// Reads a decimal `u64`; `None` exactly on empty input, a non-digit, or a
/// value above `u64::MAX`.
pub fn parse_u64(s: &str) -> (r: Option<u64>)
    ensures
        r is Some <==> is_u64_string(s@),
        r matches Some(v) ==> v as nat == dec_value(s@),
{
    let len = s.unicode_len();
    if len == 0 {
        return None;
    }
    let mut acc: u64 = 0;
    let mut i: usize = 0;
    while i < len
        invariant
            0 <= i <= len,
            len == s@.len(),
            forall|j: int| 0 <= j < i ==> is_dec_digit(#[trigger] s@[j]),
            acc as nat == dec_value(s@.take(i as int)),
        decreases len - i,
    {
        let c = s.get_char(i);
        let u = c as u32;
        if u < 48 || u > 57 {
            proof {
                assert(!is_dec_digit(s@[i as int]));
            }
            return None;
        }
        let d: u64 = (u - 48) as u64;
        proof {
            assert(s@.take(i + 1).drop_last() =~= s@.take(i as int));
            assert(s@.take(i + 1).last() == s@[i as int]);
            assert(digit_value(s@[i as int]) == d as nat);
            assert(dec_value(s@.take(i + 1)) == 10 * (acc as nat) + d as nat);
        }
        if acc > (u64::MAX - d) / 10 {
            proof {
                let hi = (u64::MAX - d) as nat;
                assert(hi == 10 * (hi / 10) + hi % 10 && hi % 10 < 10);
                assert(10 * (acc as nat) >= 10 * (hi / 10 + 1)) by (nonlinear_arith)
                    requires
                        acc as nat >= hi / 10 + 1,
                ;
                assert(dec_value(s@.take(i + 1)) > u64::MAX);
                lemma_dec_value_prefix_bound(s@, i + 1);
                lemma_pow10_pos((s@.len() - i - 1) as nat);
                assert(dec_value(s@.take(i + 1)) * pow10((s@.len() - i - 1) as nat)
                    >= dec_value(s@.take(i + 1)) * 1) by (nonlinear_arith)
                    requires
                        pow10((s@.len() - i - 1) as nat) >= 1,
                ;
                assert(dec_value(s@) > u64::MAX);
            }
            return None;
        }
        proof {
            let hi = (u64::MAX - d) as nat;
            assert(hi == 10 * (hi / 10) + hi % 10 && hi % 10 < 10);
            assert(10 * (acc as nat) <= 10 * (hi / 10)) by (nonlinear_arith)
                requires
                    acc as nat <= hi / 10,
            ;
        }
        acc = acc * 10 + d;
        i = i + 1;
    }
    proof {
        assert(s@.take(len as int) =~= s@);
    }
    Some(acc)
}

/// Ten to the `e` as a machine word; `e` up to 19 fits.
pub fn pow10_u64(e: u8) -> (r: u64)
    requires
        e <= 19,
    ensures
        r as nat == pow10(e as nat),
{
    let mut r: u64 = 1;
    let mut i: u8 = 0;
    while i < e
        invariant
            0 <= i <= e,
            e <= 19,
            r as nat == pow10(i as nat),
        decreases e - i,
    {
        proof {
            lemma_pow10_mono((i + 1) as nat, 19);
            lemma_pow10_19_fits();
            assert(pow10((i + 1) as nat) == 10 * pow10(i as nat));
        }
        r = r * 10;
        i = i + 1;
    }
    r
}

} // verus!
