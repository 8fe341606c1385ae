use vstd::prelude::*;
use vstd::arithmetic::mul::lemma_mul_upper_bound;
use crate::units::{MAX_PRICE, SCALE};

verus! {

/// The byte value of the decimal point.
pub const DOT: u8 = 46;

/// The byte values of the decimal digits.
pub const DIGIT_ZERO: u8 = 48;

pub const DIGIT_FIVE: u8 = 53;

pub const DIGIT_NINE: u8 = 57;

pub open spec fn is_digit(b: u8) -> bool {
    DIGIT_ZERO <= b && b <= DIGIT_NINE
}

pub open spec fn digit_val(b: u8) -> int {
    b - DIGIT_ZERO
}

pub open spec fn all_digits(s: Seq<u8>) -> bool {
    forall|i: int| 0 <= i < s.len() ==> is_digit(s[i])
}

/// Index of the first decimal point, or the length when none occurs.
pub open spec fn point_pos(s: Seq<u8>) -> int
    decreases s.len(),
{
    if s.len() == 0 {
        0
    } else if s[0] == DOT {
        0
    } else {
        1 + point_pos(s.drop_first())
    }
}

/// A price text is a non-empty run of digits, optionally followed by a
/// point and a non-empty run of digits.
pub open spec fn valid_price_text(s: Seq<u8>) -> bool {
    let p = point_pos(s);
    &&& p >= 1
    &&& all_digits(s.subrange(0, p))
    &&& (p < s.len() ==> p + 1 < s.len() && all_digits(s.subrange(p + 1, s.len() as int)))
}

/// The numeric value of a run of digits, most significant first.
pub open spec fn digits_val(s: Seq<u8>) -> int
    decreases s.len(),
{
    if s.len() == 0 {
        0
    } else {
        digits_val(s.drop_last()) * 10 + digit_val(s.last())
    }
}

pub open spec fn pow10(n: int) -> int
    decreases n,
{
    if n <= 0 {
        1
    } else {
        10 * pow10(n - 1)
    }
}

/// A fraction's contribution in fixed-point units: scaled up when it
/// is shorter than five places, rounded half-up at the fifth place
/// when it is longer (only the sixth digit can tip the rounding).
pub open spec fn frac_scaled(f: Seq<u8>) -> int {
    if f.len() <= 5 {
        digits_val(f) * pow10(5 - f.len())
    } else {
        digits_val(f.subrange(0, 5)) + (if f[5] >= DIGIT_FIVE {
            1int
        } else {
            0int
        })
    }
}

/// The fixed-point value of a well-formed price text.
pub open spec fn price_of_text(s: Seq<u8>) -> int {
    let p = point_pos(s);
    digits_val(s.subrange(0, p)) * SCALE + (if p < s.len() {
        frac_scaled(s.subrange(p + 1, s.len() as int))
    } else {
        0int
    })
}

pub proof fn lemma_point_pos_bounds(s: Seq<u8>)
    ensures
        0 <= point_pos(s) <= s.len(),
    decreases s.len(),
{
    if s.len() > 0 && s[0] != DOT {
        lemma_point_pos_bounds(s.drop_first());
    }
}

/// A prefix free of points, ending at a point or at the end of the
/// text, pins the point position down.
pub proof fn lemma_point_pos_determined(s: Seq<u8>, i: int)
    requires
        0 <= i <= s.len(),
        forall|j: int| 0 <= j < i ==> s[j] != DOT,
        i < s.len() ==> s[i] == DOT,
    ensures
        point_pos(s) == i,
    decreases s.len(),
{
    if s.len() == 0 || i == 0 {
    } else {
        assert forall|j: int| 0 <= j < i - 1 implies s.drop_first()[j] != DOT by {
            assert(s.drop_first()[j] == s[j + 1]);
        }
        assert(i - 1 < s.drop_first().len() ==> s.drop_first()[i - 1] == s[i]);
        lemma_point_pos_determined(s.drop_first(), i - 1);
    }
}

/// A prefix free of points keeps the point position at or past it.
pub proof fn lemma_point_pos_at_least(s: Seq<u8>, i: int)
    requires
        0 <= i <= s.len(),
        forall|j: int| 0 <= j < i ==> s[j] != DOT,
    ensures
        point_pos(s) >= i,
    decreases s.len(),
{
    if i > 0 {
        assert(s[0] != DOT);
        assert forall|j: int| 0 <= j < i - 1 implies s.drop_first()[j] != DOT by {
            assert(s.drop_first()[j] == s[j + 1]);
        }
        lemma_point_pos_at_least(s.drop_first(), i - 1);
        assert(point_pos(s) == 1 + point_pos(s.drop_first()));
    } else {
        lemma_point_pos_bounds(s);
    }
}

pub proof fn lemma_digits_val_nonneg(s: Seq<u8>)
    requires
        all_digits(s),
    ensures
        digits_val(s) >= 0,
    decreases s.len(),
{
    if s.len() > 0 {
        assert(all_digits(s.drop_last()));
        lemma_digits_val_nonneg(s.drop_last());
    }
}

/// A run of digits is worth less than ten to its length.
pub proof fn lemma_digits_val_bound(s: Seq<u8>)
    requires
        all_digits(s),
    ensures
        0 <= digits_val(s) < pow10(s.len() as int),
    decreases s.len(),
{
    if s.len() > 0 {
        assert(all_digits(s.drop_last()));
        lemma_digits_val_bound(s.drop_last());
    }
}

/// Appending digits never shrinks the value.
pub proof fn lemma_digits_val_prefix_le(s: Seq<u8>, i: int, j: int)
    requires
        0 <= i <= j <= s.len(),
        all_digits(s.subrange(0, j)),
    ensures
        digits_val(s.subrange(0, i)) <= digits_val(s.subrange(0, j)),
    decreases j - i,
{
    if i < j {
        assert(s.subrange(0, j - 1) =~= s.subrange(0, j).drop_last());
        assert(all_digits(s.subrange(0, j - 1)));
        lemma_digits_val_prefix_le(s, i, j - 1);
        lemma_digits_val_nonneg(s.subrange(0, j - 1));
        assert(digits_val(s.subrange(0, j)) == digits_val(s.subrange(0, j - 1)) * 10
            + digit_val(s.subrange(0, j).last()));
        assert(digits_val(s.subrange(0, j - 1)) * 10 >= digits_val(s.subrange(0, j - 1)));
        assert(is_digit(s.subrange(0, j)[j - 1]));
    }
}

/// Parses a decimal price text into fixed-point units, rounding the
/// fraction half-up at the fifth decimal place. Returns `None` exactly
/// on malformed text and on values beyond the accepted price range.
pub fn parse_price(s: &[u8]) -> (r: Option<u64>)
    ensures
        match r {
            Some(v) => {
                &&& valid_price_text(s@)
                &&& v as int == price_of_text(s@)
                &&& v <= MAX_PRICE
            },
            None => !(valid_price_text(s@) && price_of_text(s@) <= MAX_PRICE),
        },
{
    let n = s.len();
    if n == 0 {
        proof {
            lemma_point_pos_bounds(s@);
        }
        return None;
    }
    let mut i: usize = 0;
    let mut v: u128 = 0;
    while i < n && s[i] != DOT
        invariant
            0 <= i <= n,
            n == s@.len(),
            all_digits(s@.subrange(0, i as int)),
            forall|j: int| 0 <= j < i ==> s@[j] != DOT,
            v == digits_val(s@.subrange(0, i as int)),
            v <= MAX_PRICE,
        decreases n - i,
    {
        let b = s[i];
        if b < DIGIT_ZERO || b > DIGIT_NINE {
            proof {
                lemma_invalid_at(s@, i as int);
            }
            return None;
        }
        proof {
            assert(s@.subrange(0, i + 1).drop_last() =~= s@.subrange(0, i as int));
            assert(s@.subrange(0, i + 1).last() == s@[i as int]);
        }
        v = v * 10 + ((b - DIGIT_ZERO) as u128);
        i = i + 1;
        if v > MAX_PRICE as u128 {
            proof {
                lemma_too_large(s@, i as int, v as int);
            }
            return None;
        }
    }
    if i == n {
        // the whole text is the integer part
        proof {
            lemma_point_pos_determined(s@, n as int);
            assert(s@.subrange(0, n as int) =~= s@);
            lemma_mul_upper_bound(v as int, MAX_PRICE as int, SCALE as int, SCALE as int);
        }
        let total: u128 = v * (SCALE as u128);
        if total > MAX_PRICE as u128 {
            return None;
        }
        return Some(total as u64);
    }
    // a decimal point stands at position i
    proof {
        lemma_point_pos_determined(s@, i as int);
    }
    if i == 0 {
        // the integer part is empty
        return None;
    }
    if i + 1 == n {
        // the fraction is empty
        return None;
    }
    // validate the fraction
    let mut j: usize = i + 1;
    while j < n
        invariant
            i + 1 <= j <= n,
            n == s@.len(),
            1 <= i,
            i + 2 <= n,
            point_pos(s@) == i as int,
            forall|k: int| i + 1 <= k < j ==> is_digit(s@[k]),
        decreases n - j,
    {
        let b = s[j];
        if b < DIGIT_ZERO || b > DIGIT_NINE {
            proof {
                assert(!is_digit(s@[j as int]));
                if valid_price_text(s@) {
                    let f = s@.subrange(i + 1, n as int);
                    assert(f[j - (i + 1)] == s@[j as int]);
                    assert(is_digit(f[j - (i + 1)]));
                }
            }
            return None;
        }
        j = j + 1;
    }
    let flen = n - (i + 1);
    let take: usize = if flen < 5 {
        flen
    } else {
        5
    };
    let mut fv: u64 = 0;
    let mut k: usize = 0;
    while k < take
        invariant
            0 <= k <= take,
            take <= 5,
            n == s@.len(),
            i + 1 + take <= n,
            forall|m: int| i + 1 <= m < n ==> is_digit(s@[m]),
            fv == digits_val(s@.subrange(i + 1, i + 1 + k)),
            fv < 100_000,
        decreases take - k,
    {
        proof {
            reveal_with_fuel(pow10, 6);
            assert(s@.subrange(i + 1, i + 1 + (k + 1)).drop_last() =~= s@.subrange(
                i + 1,
                i + 1 + k as int,
            ));
            assert(s@.subrange(i + 1, i + 1 + (k + 1)).last() == s@[i + 1 + k]);
            assert(all_digits(s@.subrange(i + 1, i + 1 + k as int)));
            lemma_digits_val_bound(s@.subrange(i + 1, i + 1 + k as int));
            assert(pow10(k as int) <= pow10(4)) by {
                lemma_pow10_le(k as int, 4);
            }
            assert(is_digit(s@[i + 1 + k]));
        }
        fv = fv * 10 + ((s[i + 1 + k] - DIGIT_ZERO) as u64);
        k = k + 1;
    }
    let fscaled: u64 = if flen <= 5 {
        let mult = pow10_small(5 - flen);
        proof {
            lemma_mul_upper_bound(fv as int, 99_999, mult as int, 100_000);
        }
        fv * mult
    } else {
        // round half-up by the sixth fractional digit
        if s[i + 6] >= DIGIT_FIVE {
            fv + 1
        } else {
            fv
        }
    };
    proof {
        let f = s@.subrange(i + 1, n as int);
        assert forall|m: int| 0 <= m < f.len() implies is_digit(f[m]) by {
            assert(f[m] == s@[i + 1 + m]);
        }
        assert(valid_price_text(s@));
        if flen <= 5 {
            assert(f =~= s@.subrange(i + 1, i + 1 + take as int));
        } else {
            assert(f.subrange(0, 5) =~= s@.subrange(i + 1, i + 1 + take as int));
            assert(f[5] == s@[i + 6]);
            lemma_digits_val_bound(s@.subrange(i + 1, i + 1 + take as int));
        }
        assert(fscaled == frac_scaled(f));
    }
    proof {
        lemma_mul_upper_bound(v as int, MAX_PRICE as int, SCALE as int, SCALE as int);
    }
    let total: u128 = v * (SCALE as u128) + fscaled as u128;
    if total > MAX_PRICE as u128 {
        return None;
    }
    Some(total as u64)
}

/// Ten to a small power, for scaling short fractions.
fn pow10_small(e: usize) -> (r: u64)
    requires
        e <= 5,
    ensures
        r == pow10(e as int),
        r <= 100_000,
{
    proof {
        reveal_with_fuel(pow10, 6);
    }
    if e == 0 {
        1
    } else if e == 1 {
        10
    } else if e == 2 {
        100
    } else if e == 3 {
        1_000
    } else if e == 4 {
        10_000
    } else {
        100_000
    }
}

pub proof fn lemma_pow10_le(a: int, b: int)
    requires
        a <= b,
    ensures
        pow10(a) <= pow10(b),
    decreases b,
{
    if a < b && b > 0 {
        lemma_pow10_le(a, b - 1);
        assert(pow10(b - 1) >= 1) by {
            lemma_pow10_pos(b - 1);
        }
    }
}

pub proof fn lemma_pow10_pos(n: int)
    ensures
        pow10(n) >= 1,
    decreases n,
{
    if n > 0 {
        lemma_pow10_pos(n - 1);
    }
}

/// A non-digit, non-point byte after a clean digit prefix makes the
/// text malformed.
proof fn lemma_invalid_at(s: Seq<u8>, i: int)
    requires
        0 <= i < s.len(),
        forall|j: int| 0 <= j < i ==> s[j] != DOT,
        !is_digit(s[i]),
        s[i] != DOT,
    ensures
        !valid_price_text(s),
{
    if valid_price_text(s) {
        lemma_point_pos_at_least(s, i + 1);
        let p = point_pos(s);
        lemma_point_pos_bounds(s);
        assert(s.subrange(0, p)[i] == s[i]);
        assert(is_digit(s[i]));
    }
}

/// Once the scanned digit prefix alone is worth more than the price
/// cap, no completion of the text can fit.
proof fn lemma_too_large(s: Seq<u8>, i: int, v: int)
    requires
        0 <= i <= s.len(),
        forall|j: int| 0 <= j < i ==> s[j] != DOT,
        v == digits_val(s.subrange(0, i)),
        v > MAX_PRICE,
    ensures
        !(valid_price_text(s) && price_of_text(s) <= MAX_PRICE),
{
    if valid_price_text(s) {
        lemma_point_pos_at_least(s, i);
        let p = point_pos(s);
        lemma_point_pos_bounds(s);
        lemma_digits_val_prefix_le(s, i, p);
        let ip = digits_val(s.subrange(0, p));
        assert(ip >= v);
        assert(ip * SCALE >= ip) by (nonlinear_arith)
            requires
                ip >= 0,
        ;
        if p < s.len() {
            let f = s.subrange(p + 1, s.len() as int);
            assert(frac_scaled(f) >= 0) by {
                if f.len() <= 5 {
                    lemma_digits_val_nonneg(f);
                    lemma_pow10_pos(5 - f.len());
                    assert(digits_val(f) * pow10(5 - f.len()) >= 0) by (nonlinear_arith)
                        requires
                            digits_val(f) >= 0,
                            pow10(5 - f.len()) >= 0,
                    ;
                } else {
                    assert(all_digits(f.subrange(0, 5)));
                    lemma_digits_val_nonneg(f.subrange(0, 5));
                }
            }
        }
    }
}

} // verus!
