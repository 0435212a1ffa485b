//! Prices as fixed-point numbers. A price text such as `"26123.45"` is held
//! as a whole number of hundred-millionths, so the arithmetic on samples and
//! averages is exact integer arithmetic.

use vstd::prelude::*;
use vstd::string::StrSliceExecFns;
use vstd::string::StringExecFns;
use crate::digits::all_digits;
use crate::digits::digits_val;
use crate::digits::digit_char;
use crate::digits::spec_digits;
use crate::digits::lemma_digits_val_nonneg;
use crate::digits::parse_u64;
use crate::digits::render_u64;

verus! {

/// How many fixed-point units one whole currency unit is worth.
pub const SCALE: u64 = 100000000;

/// The greatest number of fractional digits a price text may carry.
pub const MAX_FRAC_DIGITS: u64 = 8;

/// Ten to the given power.
pub open spec fn pow10(e: int) -> int
    decreases e,
{
    if e <= 0 {
        1
    } else {
        10 * pow10(e - 1)
    }
}

/// A run of digits of length `n` denotes a value below ten to the `n`.
pub proof fn lemma_digits_val_bound(s: Seq<char>)
    requires
        all_digits(s),
    ensures
        digits_val(s) < pow10(s.len() as int),
    decreases s.len(),
{
    if s.len() > 0 {
        lemma_digits_val_bound(s.drop_last());
        assert(digits_val(s.drop_last()) * 10 <= (pow10(s.len() - 1) - 1) * 10)
            by (nonlinear_arith)
            requires digits_val(s.drop_last()) <= pow10(s.len() - 1) - 1;
    }
}

/// What a price text denotes in fixed-point units, if it is well formed:
/// a nonempty run of digits, optionally followed by a point and one to
/// eight fractional digits.
pub open spec fn spec_price_val(s: Seq<char>) -> Option<int> {
    match s.index_of_first('.') {
        None => if s.len() > 0 && all_digits(s) {
            Some(digits_val(s) * SCALE)
        } else {
            None
        },
        Some(i) => {
            let whole = s.take(i);
            let frac = s.skip(i + 1);
            if whole.len() > 0 && all_digits(whole) && 1 <= frac.len() <= MAX_FRAC_DIGITS
                && all_digits(frac) {
                Some(digits_val(whole) * SCALE + digits_val(frac) * pow10(
                    MAX_FRAC_DIGITS - frac.len(),
                ))
            } else {
                None
            }
        },
    }
}

/// The sample value a price text contributes: its fixed-point value when it
/// is well formed and fits the machine word, and zero otherwise.
pub open spec fn spec_sample(s: Seq<char>) -> int {
    match spec_price_val(s) {
        Some(v) => if v <= u64::MAX { v } else { 0 },
        None => 0,
    }
}

/// Ten to the given power, for small exponents.
fn pow10_u64(e: u64) -> (r: u64)
    requires
        e <= MAX_FRAC_DIGITS,
    ensures
        r as int == pow10(e as int),
{
    let mut r: u64 = 1;
    let mut k: u64 = 0;
    while k < e
        invariant
            0 <= k <= e <= MAX_FRAC_DIGITS,
            r as int == pow10(k as int),
        decreases e - k,
    {
        proof {
            lemma_pow10_le(k as int, 7);
            lemma_pow10_concrete();
        }
        r = r * 10;
        k = k + 1;
    }
    r
}

/// Ten to a power grows with the exponent.
pub proof fn lemma_pow10_le(a: int, b: int)
    requires
        a <= b,
    ensures
        pow10(a) <= pow10(b),
    decreases b - a,
{
    if a < b {
        lemma_pow10_le(a, b - 1);
        assert(pow10(b - 1) >= 1) by {
            lemma_pow10_pos(b - 1);
        }
    }
}

/// Ten to any power is positive.
pub proof fn lemma_pow10_pos(e: int)
    ensures
        pow10(e) >= 1,
    decreases e,
{
    if e > 0 {
        lemma_pow10_pos(e - 1);
    }
}

/// The small powers of ten, written out.
pub proof fn lemma_pow10_concrete()
    ensures
        pow10(7) == 10000000,
        pow10(8) == 100000000,
{
    reveal_with_fuel(pow10, 10);
}

/// Find the first point character, if any.
fn find_dot(s: &str) -> (r: Option<usize>)
    ensures
        match r {
            Some(i) => s@.index_of_first('.') == Some(i as int),
            None => s@.index_of_first('.') is None,
        },
{
    let len = s.unicode_len();
    let mut i: usize = 0;
    while i < len
        invariant
            len == s@.len(),
            0 <= i <= len,
            forall|j: int| 0 <= j < i ==> s@[j] != '.',
        decreases len - i,
    {
        if s.get_char(i) == '.' {
            proof {
                s@.index_of_first_ensures('.');
            }
            return Some(i);
        }
        i = i + 1;
    }
    proof {
        s@.index_of_first_ensures('.');
    }
    None
}

/// Parse a price text into fixed-point units. Returns the value exactly when
/// the text is well formed and the value fits in `u64`; returns nothing on a
/// malformed text or on overflow.
pub fn parse_price(s: &str) -> (r: Option<u64>)
    ensures
        match r {
            Some(v) => spec_price_val(s@) == Some(v as int),
            None => spec_price_val(s@) is None || spec_price_val(s@)->0 > u64::MAX,
        },
{
    match find_dot(s) {
        None => {
            match parse_u64(s) {
                Some(w) => {
                    match w.checked_mul(SCALE) {
                        Some(v) => Some(v),
                        None => {
                            proof {
                                lemma_digits_val_nonneg(s@);
                            }
                            None
                        },
                    }
                },
                None => {
                    proof {
                        if s@.len() > 0 && all_digits(s@) {
                            lemma_digits_val_nonneg(s@);
                            assert(digits_val(s@) * SCALE >= digits_val(s@))
                                by (nonlinear_arith)
                                requires digits_val(s@) > u64::MAX;
                        }
                    }
                    None
                },
            }
        },
        Some(i) => {
            proof {
                s@.index_of_first_ensures('.');
            }
            let len = s.unicode_len();
            let whole_part = s.substring_char(0, i);
            let frac_part = s.substring_char(i + 1, len);
            proof {
                assert(whole_part@ =~= s@.take(i as int));
                assert(frac_part@ =~= s@.skip(i as int + 1));
            }
            let frac_len = len - (i + 1);
            if frac_len < 1 || frac_len > 8 {
                return None;
            }
            let whole = match parse_u64(whole_part) {
                Some(w) => w,
                None => {
                    proof {
                        if whole_part@.len() > 0 && all_digits(whole_part@) {
                            lemma_digits_val_nonneg(whole_part@);
                            assert(digits_val(whole_part@) * SCALE >= digits_val(whole_part@))
                                by (nonlinear_arith)
                                requires digits_val(whole_part@) > u64::MAX;
                            if spec_price_val(s@) is Some {
                                lemma_digits_val_nonneg(frac_part@);
                                lemma_pow10_pos(MAX_FRAC_DIGITS - frac_part@.len());
                                assert(digits_val(frac_part@) * pow10(
                                    MAX_FRAC_DIGITS - frac_part@.len()) >= 0)
                                    by (nonlinear_arith)
                                    requires digits_val(frac_part@) >= 0,
                                        pow10(MAX_FRAC_DIGITS - frac_part@.len()) >= 1;
                            }
                        }
                    }
                    return None;
                },
            };
            let frac = match parse_u64(frac_part) {
                Some(f) => f,
                None => {
                    proof {
                        if all_digits(frac_part@) {
                            lemma_digits_val_bound(frac_part@);
                            lemma_pow10_le(frac_part@.len() as int, 8);
                            lemma_pow10_concrete();
                        }
                    }
                    return None;
                },
            };
            proof {
                lemma_digits_val_bound(frac_part@);
                lemma_pow10_le(frac_part@.len() as int, 8);
                lemma_pow10_le(MAX_FRAC_DIGITS - frac_len as int, 8);
                lemma_pow10_pos(MAX_FRAC_DIGITS - frac_len as int);
                assert(digits_val(frac_part@) * pow10(MAX_FRAC_DIGITS - frac_len as int)
                    < pow10(frac_len as int) * pow10(MAX_FRAC_DIGITS - frac_len as int))
                    by (nonlinear_arith)
                    requires digits_val(frac_part@) < pow10(frac_len as int),
                        pow10(MAX_FRAC_DIGITS - frac_len as int) >= 1;
                lemma_pow10_mul(frac_len as int, MAX_FRAC_DIGITS - frac_len as int);
                lemma_pow10_concrete();
                lemma_digits_val_nonneg(frac_part@);
                assert(digits_val(frac_part@) * pow10(MAX_FRAC_DIGITS - frac_len as int) >= 0)
                    by (nonlinear_arith)
                    requires digits_val(frac_part@) >= 0,
                        pow10(MAX_FRAC_DIGITS - frac_len as int) >= 1;
            }
            let frac_scaled = frac * pow10_u64(8 - frac_len as u64);
            match whole.checked_mul(SCALE) {
                Some(wv) => {
                    match wv.checked_add(frac_scaled) {
                        Some(v) => Some(v),
                        None => None,
                    }
                },
                None => {
                    proof {
                        lemma_digits_val_nonneg(whole_part@);
                        assert(digits_val(whole_part@) * SCALE > u64::MAX ==>
                            digits_val(whole_part@) * SCALE
                            + digits_val(frac_part@) * pow10(MAX_FRAC_DIGITS - frac_len as int)
                            > u64::MAX);
                    }
                    None
                },
            }
        },
    }
}

/// Ten-to-the-`a` times ten-to-the-`b` is ten-to-the-`a + b`.
pub proof fn lemma_pow10_mul(a: int, b: int)
    requires
        a >= 0,
        b >= 0,
    ensures
        pow10(a) * pow10(b) == pow10(a + b),
    decreases a,
{
    if a > 0 {
        lemma_pow10_mul(a - 1, b);
        assert((10 * pow10(a - 1)) * pow10(b) == 10 * (pow10(a - 1) * pow10(b)))
            by (nonlinear_arith);
    }
}

/// The sample value of a price text: its fixed-point value when it is well
/// formed and fits, and zero otherwise.
pub fn sample_value(s: &str) -> (r: u64)
    ensures
        r as int == spec_sample(s@),
{
    match parse_price(s) {
        Some(v) => v,
        None => 0,
    }
}

/// The fractional digits of a fixed-point remainder, most significant first,
/// with trailing zeros left off. `scale` is the weight of the leading digit.
pub open spec fn spec_frac_digits(f: int, scale: int) -> Seq<char>
    decreases scale,
{
    if f <= 0 || scale <= 0 {
        Seq::empty()
    } else {
        seq![digit_char(f / scale)] + spec_frac_digits(f % scale, scale / 10)
    }
}

/// The decimal text of a fixed-point price value: the whole part, then, if
/// the fractional part is not zero, a point and the fractional digits with
/// trailing zeros left off.
pub open spec fn spec_price_text(m: int) -> Seq<char> {
    if m % (SCALE as int) == 0 {
        spec_digits(m / (SCALE as int))
    } else {
        spec_digits(m / (SCALE as int)) + seq!['.'] + spec_frac_digits(
            m % (SCALE as int),
            SCALE as int / 10,
        )
    }
}

/// The number is one followed by zeros: a power of ten.
pub open spec fn is_pow10(s: int) -> bool
    decreases s,
{
    s == 1 || (s >= 10 && s % 10 == 0 && is_pow10(s / 10))
}

/// Render the fractional digits of a remainder, trailing zeros left off.
fn render_frac(f: u64, scale: u64) -> (r: String)
    requires
        f == 0 || (is_pow10(scale as int) && f < 10 * scale),
    ensures
        r@ == spec_frac_digits(f as int, scale as int),
    decreases scale,
{
    if f == 0 || scale == 0 {
        String::new()
    } else {
        let d = f / scale;
        proof {
            assert(f / scale < 10) by (nonlinear_arith)
                requires 1 <= scale, f < 10 * scale;
            assert(f % scale < scale) by (nonlinear_arith)
                requires 1 <= scale;
        }
        let rest = render_frac(f % scale, scale / 10);
        String::from_str(crate::digits::digit_str(d)).concat(rest.as_str())
    }
}

/// The decimal text of a fixed-point price value.
pub fn render_price(m: u64) -> (r: String)
    ensures
        r@ == spec_price_text(m as int),
{
    let whole = render_u64(m / SCALE);
    let rem = m % SCALE;
    if rem == 0 {
        whole
    } else {
        proof {
            reveal_strlit(".");
            assert(is_pow10(10000000)) by {
                reveal_with_fuel(is_pow10, 10);
            }
        }
        let frac = render_frac(rem, SCALE / 10);
        whole.concat(".").concat(frac.as_str())
    }
}

} // verus!
