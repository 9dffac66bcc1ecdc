//! Fixed-point formatting of a raw token supply: a `u64` amount scaled down
//! by `10^decimals`, rendered as a trimmed decimal string.

use vstd::prelude::*;
use vstd::arithmetic::div_mod::lemma_fundamental_div_mod;
use vstd::string::StrSliceExecFns;
use vstd::string::StringExecFns;

use crate::digits::{
    all_dec_digits, dec_str, dec_value, digit_value, is_dec_digit, is_u64_string, parse_u64,
    pow10, pow10_u64, u64_to_string, lemma_dec_str_digits, lemma_dec_str_value,
    lemma_dec_value_concat, lemma_pow10_pos,
};
use crate::error::Error;

verus! {

/// A raw supply as the lookup service reports it: the amount in base units,
/// as a decimal string, and the number of decimal places of the token.
pub struct SupplyReading {
    pub amount: String,
    pub decimals: u8,
}

/// `k` zero characters.
pub open spec fn zeros(k: nat) -> Seq<char> {
    Seq::new(k, |i: int| '0')
}

/// The rendering of `n`, left-padded with zeros to width `w`.
pub open spec fn padded_dec_str(n: nat, w: nat) -> Seq<char> {
    if dec_str(n).len() >= w {
        dec_str(n)
    } else {
        zeros((w - dec_str(n).len()) as nat) + dec_str(n)
    }
}

/// `s` with every trailing zero character removed.
pub open spec fn trim_zeros(s: Seq<char>) -> Seq<char>
    decreases s.len(),
{
    if s.len() > 0 && s.last() == '0' {
        trim_zeros(s.drop_last())
    } else {
        s
    }
}

/// The canonical rendering of `v` base units at `d` decimal places: the
/// whole part in decimal; then, unless it is empty after trimming trailing
/// zeros, a point and the fractional part zero-padded to exactly `d` digits
/// before the trim.
pub open spec fn format_spec(v: nat, d: nat) -> Seq<char> {
    if d == 0 {
        dec_str(v)
    } else {
        let whole = dec_str(v / pow10(d));
        let frac = trim_zeros(padded_dec_str(v % pow10(d), d));
        if frac.len() == 0 {
            whole
        } else {
            whole + seq!['.'] + frac
        }
    }
}

/// Index of the first point character, or the length if there is none.
pub open spec fn first_dot(s: Seq<char>) -> int
    decreases s.len(),
{
    if s.len() == 0 {
        0
    } else if s[0] == '.' {
        0
    } else {
        1 + first_dot(s.skip(1))
    }
}

/// The numeric value a formatted string denotes at `d` decimal places:
/// split at the first point, scale the whole part by `10^d` and the
/// fractional digits by ten to the number of trimmed places.
pub open spec fn parse_formatted(s: Seq<char>, d: nat) -> nat {
    let i = first_dot(s);
    if i == s.len() {
        dec_value(s) * pow10(d)
    } else {
        let whole = s.take(i);
        let frac = s.skip(i + 1);
        if frac.len() <= d {
            dec_value(whole) * pow10(d) + dec_value(frac) * pow10((d - frac.len()) as nat)
        } else {
            dec_value(whole) * pow10(d) + dec_value(frac)
        }
    }
}

proof fn lemma_zeros_value(z: Seq<char>)
    requires
        forall|j: int| 0 <= j < z.len() ==> z[j] == '0',
    ensures
        dec_value(z) == 0,
    decreases z.len(),
{
    if z.len() > 0 {
        lemma_zeros_value(z.drop_last());
        assert(digit_value(z.last()) == 0);
    }
}

proof fn lemma_dec_str_len_le(n: nat, k: nat)
    requires
        n < pow10(k),
        k >= 1,
    ensures
        dec_str(n).len() <= k,
    decreases n,
{
    if n < 10 {
    } else {
        reveal_with_fuel(pow10, 2);
        assert(k >= 2);
        lemma_fundamental_div_mod(n as int, 10);
        assert(n / 10 < pow10((k - 1) as nat)) by (nonlinear_arith)
            requires
                n < 10 * pow10((k - 1) as nat),
                n == 10 * (n / 10) + n % 10,
                0 <= n % 10 < 10,
        ;
        lemma_dec_str_len_le(n / 10, (k - 1) as nat);
    }
}

pub proof fn lemma_trim_zeros_take(s: Seq<char>, t: int)
    requires
        0 <= t <= s.len(),
        forall|j: int| t <= j < s.len() ==> s[j] == '0',
        t > 0 ==> s[t - 1] != '0',
    ensures
        trim_zeros(s) == s.take(t),
    decreases s.len(),
{
    if s.len() == t {
        assert(s.take(t) =~= s);
    } else {
        assert(s.last() == '0');
        lemma_trim_zeros_take(s.drop_last(), t);
        assert(s.drop_last().take(t) =~= s.take(t));
    }
}

/// Dropping trailing zeros divides the value by the matching power of ten.
proof fn lemma_dec_value_trailing_zeros(s: Seq<char>, t: int)
    requires
        0 <= t <= s.len(),
        forall|j: int| t <= j < s.len() ==> s[j] == '0',
    ensures
        dec_value(s) == dec_value(s.take(t)) * pow10((s.len() - t) as nat),
{
    assert(s =~= s.take(t) + s.skip(t));
    lemma_dec_value_concat(s.take(t), s.skip(t));
    lemma_zeros_value(s.skip(t));
}

/// The value the padded fractional rendering denotes is the number itself.
proof fn lemma_padded_value(n: nat, w: nat)
    ensures
        dec_value(padded_dec_str(n, w)) == n,
        all_dec_digits(padded_dec_str(n, w)),
        padded_dec_str(n, w).len() >= dec_str(n).len(),
        dec_str(n).len() < w ==> padded_dec_str(n, w).len() == w,
{
    lemma_dec_str_value(n);
    lemma_dec_str_digits(n);
    let s = dec_str(n);
    if s.len() < w {
        let z = zeros((w - s.len()) as nat);
        lemma_dec_value_concat(z, s);
        lemma_zeros_value(z);
        assert(forall|i: int| 0 <= i < (z + s).len() ==> is_dec_digit(#[trigger] (z + s)[i]))
            by {
            assert(forall|i: int| 0 <= i < z.len() ==> (z + s)[i] == '0');
            assert(forall|i: int| z.len() <= i < (z + s).len() ==> (z + s)[i] == s[i - z.len()]);
        }
    }
}

proof fn lemma_first_dot_dotless(s: Seq<char>)
    requires
        all_dec_digits(s),
    ensures
        first_dot(s) == s.len(),
    decreases s.len(),
{
    if s.len() > 0 {
        assert(is_dec_digit(s[0]));
        assert(s[0] != '.');
        assert(all_dec_digits(s.skip(1))) by {
            assert(forall|j: int| 0 <= j < s.skip(1).len() ==> s.skip(1)[j] == s[j + 1]);
        }
        lemma_first_dot_dotless(s.skip(1));
    }
}

proof fn lemma_first_dot_concat(w: Seq<char>, rest: Seq<char>)
    requires
        all_dec_digits(w),
        rest.len() > 0,
        rest[0] == '.',
    ensures
        first_dot(w + rest) == w.len(),
    decreases w.len(),
{
    let s = w + rest;
    if w.len() == 0 {
        assert(s[0] == '.');
    } else {
        assert(is_dec_digit(w[0]));
        assert(s[0] != '.');
        assert(s.skip(1) =~= w.skip(1) + rest);
        assert(all_dec_digits(w.skip(1))) by {
            assert(forall|j: int| 0 <= j < w.skip(1).len() ==> w.skip(1)[j] == w[j + 1]);
        }
        lemma_first_dot_concat(w.skip(1), rest);
    }
}

/// Re-parsing the formatted rendering of `v` at `d` decimal places, as
/// whole part times `10^d` plus the trimmed fractional digits scaled back
/// up, recovers `v` exactly, for every `d` a `u64` divisor can hold.
pub proof fn lemma_format_round_trip(v: u64, d: nat)
    requires
        d <= 19,
    ensures
        parse_formatted(format_spec(v as nat, d), d) == v,
{
    let n = v as nat;
    if d == 0 {
        lemma_dec_str_digits(n);
        lemma_dec_str_value(n);
        lemma_first_dot_dotless(dec_str(n));
        assert(pow10(0) == 1);
        assert(dec_value(dec_str(n)) * pow10(0) == n);
    } else {
        lemma_pow10_pos(d);
        let dv = pow10(d);
        let w = n / dv;
        let f = n % dv;
        vstd::arithmetic::div_mod::lemma_fundamental_div_mod(n as int, dv as int);
        let whole = dec_str(w);
        let pf = padded_dec_str(f, d);
        lemma_padded_value(f, d);
        assert(f < dv) by {
            vstd::arithmetic::div_mod::lemma_mod_bound(n as int, dv as int);
        }
        lemma_dec_str_len_le(f, d);
        assert(pf.len() == d);
        let frac = trim_zeros(pf);
        let t = frac.len() as int;
        lemma_trim_shape(pf);
        assert(frac =~= pf.take(t));
        lemma_dec_value_trailing_zeros(pf, t);
        assert(f == dec_value(frac) * pow10((d - t) as nat));
        lemma_dec_str_digits(w);
        lemma_dec_str_value(w);
        if frac.len() == 0 {
            assert(dec_value(frac) == 0);
            assert(f == 0) by {
                assert(dec_value(frac) * pow10((d - t) as nat) == 0) by (nonlinear_arith)
                    requires
                        dec_value(frac) == 0,
                ;
            }
            let s = format_spec(n, d);
            assert(s == whole);
            lemma_first_dot_dotless(whole);
            assert(parse_formatted(s, d) == dec_value(whole) * pow10(d));
            assert(dec_value(whole) == w);
            assert(w * dv == dv * w) by (nonlinear_arith);
            assert(n == dv * w + f);
        } else {
            let s = whole + seq!['.'] + frac;
            assert(format_spec(n, d) == s);
            let rest = seq!['.'] + frac;
            assert(s =~= whole + rest);
            lemma_first_dot_concat(whole, rest);
            let i = first_dot(s);
            assert(i == whole.len());
            assert(i < s.len());
            assert(s.take(i) =~= whole);
            assert(s.skip(i + 1) =~= frac);
            assert(t <= d);
            assert(parse_formatted(s, d) == dec_value(whole) * pow10(d) + dec_value(frac)
                * pow10((d - t) as nat));
            assert(w * dv == dv * w) by (nonlinear_arith);
            assert(n == dv * w + f);
        }
    }
}

/// Round trip over the raw amount string: for every amount `format_amount`
/// accepts and every decimal count up to 19, re-parsing the formatted
/// rendering recovers the amount's numeric value.
pub proof fn lemma_format_amount_round_trip(amount: Seq<char>, d: nat)
    requires
        is_u64_string(amount),
        d <= 19,
    ensures
        parse_formatted(format_spec(dec_value(amount), d), d) == dec_value(amount),
{
    lemma_format_round_trip(dec_value(amount) as u64, d);
}

/// The trimmed string is a prefix, what follows it is all zeros, and it
/// does not itself end in a zero.
pub proof fn lemma_trim_shape(s: Seq<char>)
    ensures
        trim_zeros(s).len() <= s.len(),
        trim_zeros(s) == s.take(trim_zeros(s).len() as int),
        forall|j: int| trim_zeros(s).len() <= j < s.len() ==> s[j] == '0',
        trim_zeros(s).len() > 0 ==> s[trim_zeros(s).len() - 1] != '0',
    decreases s.len(),
{
    if s.len() > 0 && s.last() == '0' {
        lemma_trim_shape(s.drop_last());
        let t = trim_zeros(s).len() as int;
        assert(trim_zeros(s) == trim_zeros(s.drop_last()));
        assert(s.drop_last().take(t) =~= s.take(t));
        assert(forall|j: int| 0 <= j < s.len() - 1 ==> s.drop_last()[j] == s[j]);
        assert(s[s.len() - 1] == '0');
    } else {
        assert(s.take(s.len() as int) =~= s);
    }
}

/// Formats a raw amount: parses it as a decimal `u64`, scales it down by
/// `10^decimals`, and renders whole and fractional parts with trailing
/// fractional zeros trimmed. Rejects a string that is not a `u64` with
/// `InvalidAmount`, and a decimal count whose divisor cannot fit in 64 bits
/// with `Overflow`.
pub fn format_amount(amount: &str, decimals: u8) -> (r: Result<String, Error>)
    ensures
        is_u64_string(amount@) && decimals <= 19 ==> (r matches Ok(s) && s@ == format_spec(
            dec_value(amount@),
            decimals as nat,
        )),
        !is_u64_string(amount@) ==> r == Err::<String, Error>(Error::InvalidAmount),
        is_u64_string(amount@) && decimals > 19 ==> r == Err::<String, Error>(Error::Overflow),
{
    let v: u64 = match parse_u64(amount) {
        Some(v) => v,
        None => {
            return Err(Error::InvalidAmount);
        },
    };
    if decimals > 19 {
        return Err(Error::Overflow);
    }
    if decimals == 0 {
        return Ok(u64_to_string(v));
    }
    let divisor = pow10_u64(decimals);
    proof {
        lemma_pow10_pos(decimals as nat);
    }
    let whole: u64 = v / divisor;
    let frac: u64 = v % divisor;
    let mut out = u64_to_string(whole);
    let frac_str = u64_to_string(frac);
    let frac_len = frac_str.as_str().unicode_len();
    proof {
        lemma_dec_str_len_le(frac as nat, decimals as nat);
    }
    let width = decimals as usize;
    let mut padded = String::new();
    let mut k: usize = 0;
    proof {
        assert(padded@ =~= zeros(0));
    }
    while k < width - frac_len
        invariant
            k <= width - frac_len,
            frac_len <= width,
            padded@ =~= zeros(k as nat),
        decreases width - frac_len - k,
    {
        padded.append("0");
        k = k + 1;
        proof {
            reveal_strlit("0");
            assert(padded@ =~= zeros(k as nat));
        }
    }
    padded.append(frac_str.as_str());
    proof {
        assert(padded@ =~= padded_dec_str(frac as nat, decimals as nat));
        lemma_padded_value(frac as nat, decimals as nat);
        assert(padded@.len() == width);
    }
    let mut t: usize = width;
    while t > 0 && padded.as_str().get_char(t - 1) == '0'
        invariant
            0 <= t <= width,
            padded@.len() == width,
            forall|j: int| t <= j < width ==> padded@[j] == '0',
        decreases t,
    {
        t = t - 1;
    }
    proof {
        lemma_trim_zeros_take(padded@, t as int);
    }
    if t == 0 {
        Ok(out)
    } else {
        out.append(".");
        let frac_part = padded.as_str().substring_char(0, t);
        out.append(frac_part);
        proof {
            reveal_strlit(".");
            assert(out@ =~= dec_str((v / divisor) as nat) + seq!['.'] + trim_zeros(padded@));
        }
        Ok(out)
    }
}

} // verus!
