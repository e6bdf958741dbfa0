//! Fixed-point parsing of the decimal strings that exchanges put on the
//! wire. A price such as `"72.49000000"` becomes an integer number of
//! ticks, with [`SCALE_DIGITS`] decimal places of resolution.

use vstd::prelude::*;

verus! {

/// Number of decimal places one tick resolves.
pub const SCALE_DIGITS: usize = 8;

/// Ticks in one whole unit: ten to the [`SCALE_DIGITS`].
pub const TICKS_PER_UNIT: u64 = 100_000_000;

/// Ten to the `n`.
pub open spec fn pow10(n: nat) -> int
    decreases n,
{
    if n == 0 {
        1
    } else {
        10 * pow10((n - 1) as nat)
    }
}

/// `c` is an ASCII decimal digit.
pub open spec fn is_digit(c: char) -> bool {
    '0' as u32 <= c as u32 && c as u32 <= '9' as u32
}

/// Numeric value of the digit `c`.
pub open spec fn digit_val(c: char) -> int {
    c as u32 - '0' as u32
}

/// Every character of `s` is a decimal digit.
pub open spec fn all_digits(s: Seq<char>) -> bool {
    forall|i: int| 0 <= i < s.len() ==> is_digit(#[trigger] s[i])
}

/// The number the digit string `s` denotes in base ten; 0 for the empty
/// string.
pub open spec fn digits_val(s: Seq<char>) -> int
    decreases s.len(),
{
    if s.len() == 0 {
        0
    } else {
        digits_val(s.drop_last()) * 10 + digit_val(s.last())
    }
}

/// Index of the first `'.'` in `s`, or `s.len()` if there is none.
pub open spec fn find_dot(s: Seq<char>) -> int
    decreases s.len(),
{
    if s.len() == 0 {
        0
    } else if s[0] == '.' {
        0
    } else {
        1 + find_dot(s.drop_first())
    }
}

/// The digits before the first dot.
pub open spec fn int_part(s: Seq<char>) -> Seq<char> {
    s.subrange(0, find_dot(s))
}

/// The digits after the first dot; empty if there is no dot.
pub open spec fn frac_part(s: Seq<char>) -> Seq<char> {
    if find_dot(s) == s.len() {
        Seq::empty()
    } else {
        s.subrange(find_dot(s) + 1, s.len() as int)
    }
}

/// `s` is a decimal number this module accepts: a nonempty run of digits,
/// optionally followed by a dot and at most [`SCALE_DIGITS`] digits.
pub open spec fn valid_decimal(s: Seq<char>) -> bool {
    &&& int_part(s).len() >= 1
    &&& all_digits(int_part(s))
    &&& all_digits(frac_part(s))
    &&& frac_part(s).len() <= SCALE_DIGITS
}

/// The tick count a valid decimal string denotes.
pub open spec fn decimal_ticks(s: Seq<char>) -> int {
    digits_val(int_part(s)) * TICKS_PER_UNIT + digits_val(frac_part(s)) * pow10(
        (SCALE_DIGITS - frac_part(s).len()) as nat,
    )
}

/// `find_dot` is pinned by what the exec scan observed: no dot before `d`,
/// and a dot (or the end) at `d`.
proof fn lemma_find_dot_of(s: Seq<char>, d: int)
    requires
        0 <= d <= s.len(),
        forall|k: int| 0 <= k < d ==> s[k] != '.',
        d < s.len() ==> s[d] == '.',
    ensures
        find_dot(s) == d,
    decreases d,
{
    if d == 0 {
    } else {
        assert(s[0] != '.');
        lemma_find_dot_of(s.drop_first(), d - 1);
    }
}

/// An all-digit string denotes a value between zero and ten to its length.
pub proof fn lemma_digits_val_bounds(s: Seq<char>)
    requires
        all_digits(s),
    ensures
        0 <= digits_val(s) < pow10(s.len() as nat),
    decreases s.len(),
{
    if s.len() > 0 {
        assert(all_digits(s.drop_last()));
        lemma_digits_val_bounds(s.drop_last());
        assert(is_digit(s.last()));
    }
}

proof fn lemma_digits_val_prefix(s: Seq<char>, k: int)
    requires
        all_digits(s),
        0 <= k <= s.len(),
    ensures
        digits_val(s.subrange(0, k)) <= digits_val(s),
    decreases s.len() - k,
{
    if k == s.len() {
        assert(s.subrange(0, k) =~= s);
    } else {
        let p = s.subrange(0, k);
        let q = s.subrange(0, k + 1);
        assert(q.drop_last() =~= p);
        assert(all_digits(p)) by {
            assert(forall|i: int| 0 <= i < p.len() ==> p[i] == s[i]);
        }
        lemma_digits_val_bounds(p);
        assert(is_digit(s[k]));
        assert(digits_val(q) == digits_val(p) * 10 + digit_val(s[k]));
        lemma_digits_val_prefix(s, k + 1);
    }
}

/// Parses a digit string to a `u64`.
///
/// Returns the denoted number exactly when `s` is a nonempty all-digit
/// string whose value fits in a `u64`; `None` otherwise.
pub fn parse_u64(s: &str) -> (r: Option<u64>)
    ensures
        r == if s@.len() >= 1 && all_digits(s@) && digits_val(s@) <= u64::MAX {
            Some(digits_val(s@) as u64)
        } else {
            None::<u64>
        },
{
    let n = s.unicode_len();
    if n == 0 {
        return None;
    }
    let mut acc: u64 = 0;
    let mut i: usize = 0;
    while i < n
        invariant
            0 <= i <= n,
            n == s@.len(),
            all_digits(s@.subrange(0, i as int)),
            acc == digits_val(s@.subrange(0, i as int)),
        decreases n - i,
    {
        let c = s.get_char(i);
        let u: u32 = c as u32;
        if u < 48 || u > 57 {
            assert(!is_digit(s@[i as int]));
            return None;
        }
        let d: u64 = (u - 48) as u64;
        proof {
            assert(s@.subrange(0, i + 1).drop_last() =~= s@.subrange(0, i as int));
        }
        let next = match acc.checked_mul(10) {
            Some(t) => t.checked_add(d),
            None => None,
        };
        match next {
            Some(v) => {
                acc = v;
            },
            None => {
                // The prefix already exceeds u64::MAX, so the whole string does.
                proof {
                    assert(digits_val(s@.subrange(0, i + 1)) > u64::MAX);
                    if all_digits(s@) {
                        lemma_digits_val_prefix(s@, i + 1);
                    }
                }
                return None;
            },
        }
        i += 1;
    }
    proof {
        assert(s@.subrange(0, n as int) =~= s@);
    }
    Some(acc)
}

/// Parses a decimal string to fixed-point ticks.
///
/// Returns exactly `decimal_ticks(s@)` when `s` is a valid decimal (a
/// nonempty run of digits, optionally followed by a dot and at most
/// [`SCALE_DIGITS`] fractional digits) whose tick count fits in a `u64`;
/// `None` otherwise.
pub fn parse_ticks(s: &str) -> (r: Option<u64>)
    ensures
        r == if valid_decimal(s@) && decimal_ticks(s@) <= u64::MAX {
            Some(decimal_ticks(s@) as u64)
        } else {
            None::<u64>
        },
{
    let n = s.unicode_len();
    // Locate the first dot.
    let mut d: usize = 0;
    while d < n && s.get_char(d) != '.'
        invariant
            0 <= d <= n,
            n == s@.len(),
            forall|k: int| 0 <= k < d ==> s@[k] != '.',
        decreases n - d,
    {
        d += 1;
    }
    proof {
        lemma_find_dot_of(s@, d as int);
        assert(int_part(s@) =~= s@.subrange(0, d as int));
    }
    if d == 0 {
        // Empty integer part: invalid.
        return None;
    }

    // Integer part.
    let mut acc: u64 = 0;
    let mut i: usize = 0;
    while i < d
        invariant
            0 <= i <= d <= n,
            n == s@.len(),
            find_dot(s@) == d,
            int_part(s@) == s@.subrange(0, d as int),
            all_digits(s@.subrange(0, i as int)),
            acc == digits_val(s@.subrange(0, i as int)),
        decreases d - i,
    {
        let c = s.get_char(i);
        let u: u32 = c as u32;
        if u < 48 || u > 57 {
            assert(!is_digit(int_part(s@)[i as int]));
            return None;
        }
        let dv: u64 = (u - 48) as u64;
        proof {
            assert(s@.subrange(0, i + 1).drop_last() =~= s@.subrange(0, i as int));
        }
        let next = match acc.checked_mul(10) {
            Some(t) => t.checked_add(dv),
            None => None,
        };
        match next {
            Some(v) => {
                acc = v;
            },
            None => {
                proof {
                    overflow_of_int_prefix(s@, i as int, d as int);
                }
                return None;
            },
        }
        i += 1;
    }
    proof {
        assert(s@.subrange(0, d as int) =~= int_part(s@));
    }
    // `acc` is the integer part's value.

    // Fractional part.
    let fl: usize = if d == n {
        0
    } else {
        n - d - 1
    };
    if fl > SCALE_DIGITS {
        proof {
            assert(frac_part(s@).len() > SCALE_DIGITS);
        }
        return None;
    }
    let mut facc: u64 = 0;
    let mut j: usize = 0;
    proof {
        if d < n {
            assert(frac_part(s@) =~= s@.subrange(d + 1, n as int));
        }
        assert(frac_part(s@).len() == fl);
    }
    while j < fl
        invariant
            0 <= j <= fl,
            d < n || fl == 0,
            fl == frac_part(s@).len(),
            fl <= SCALE_DIGITS,
            n == s@.len(),
            find_dot(s@) == d,
            frac_part(s@) == if d == n { Seq::<char>::empty() } else { s@.subrange(d + 1, n as int) },
            all_digits(frac_part(s@).subrange(0, j as int)),
            facc == digits_val(frac_part(s@).subrange(0, j as int)),
            facc < pow10(j as nat),
        decreases fl - j,
    {
        let c = s.get_char(d + 1 + j);
        let u: u32 = c as u32;
        if u < 48 || u > 57 {
            assert(!is_digit(frac_part(s@)[j as int]));
            return None;
        }
        let dv: u64 = (u - 48) as u64;
        proof {
            let f = frac_part(s@);
            assert(f.subrange(0, j + 1).drop_last() =~= f.subrange(0, j as int));
            lemma_pow10_le_scale(j as nat + 1);
            assert(facc * 10 + dv < pow10((j + 1) as nat));
        }
        facc = facc * 10 + dv;
        j += 1;
    }
    proof {
        assert(frac_part(s@).subrange(0, fl as int) =~= frac_part(s@));
        assert(valid_decimal(s@));
    }

    // Scale the fraction to tick resolution and combine.
    let mult: u64 = pow10_u64(SCALE_DIGITS - fl);
    proof {
        lemma_digits_val_bounds(frac_part(s@));
        lemma_pow10_mul(fl as nat, (SCALE_DIGITS - fl) as nat);
        lemma_pow10_pos((SCALE_DIGITS - fl) as nat);
        lemma_pow10_scale();
        assert(facc * mult < TICKS_PER_UNIT) by (nonlinear_arith)
            requires
                0 <= facc < pow10(fl as nat),
                mult == pow10((SCALE_DIGITS - fl) as nat),
                mult >= 1,
                pow10(fl as nat) * pow10((SCALE_DIGITS - fl) as nat) == pow10(
                    (fl + (SCALE_DIGITS - fl)) as nat,
                ),
                pow10((fl + (SCALE_DIGITS - fl)) as nat) == TICKS_PER_UNIT;
    }
    let frac_ticks: u64 = facc * mult;
    match acc.checked_mul(TICKS_PER_UNIT) {
        Some(whole) => match whole.checked_add(frac_ticks) {
            Some(total) => Some(total),
            None => {
                proof {
                    assert(decimal_ticks(s@) > u64::MAX);
                }
                None
            },
        },
        None => {
            proof {
                assert(digits_val(int_part(s@)) * TICKS_PER_UNIT > u64::MAX);
                lemma_digits_val_bounds(frac_part(s@));
                lemma_pow10_pos((SCALE_DIGITS - frac_part(s@).len()) as nat);
                assert(decimal_ticks(s@) > u64::MAX);
            }
            None
        },
    }
}

/// When the scan of the integer part overflows at index `i`, the whole
/// string cannot denote a value that fits.
proof fn overflow_of_int_prefix(s: Seq<char>, i: int, d: int)
    requires
        0 <= i < d <= s.len(),
        find_dot(s) == d,
        all_digits(s.subrange(0, i)),
        is_digit(s[i]),
        digits_val(s.subrange(0, i + 1)) > u64::MAX,
    ensures
        valid_decimal(s) ==> decimal_ticks(s) > u64::MAX,
{
    if valid_decimal(s) {
        assert(int_part(s) == s.subrange(0, d));
        assert(s.subrange(0, i + 1) =~= int_part(s).subrange(0, i + 1));
        lemma_digits_val_prefix(int_part(s), i + 1);
        lemma_digits_val_bounds(frac_part(s));
        lemma_pow10_pos((SCALE_DIGITS - frac_part(s).len()) as nat);
        assert(digits_val(int_part(s)) * TICKS_PER_UNIT >= digits_val(int_part(s))) by (nonlinear_arith)
            requires digits_val(int_part(s)) > u64::MAX;
        assert(decimal_ticks(s) >= digits_val(int_part(s)) * TICKS_PER_UNIT) by (nonlinear_arith)
            requires
                digits_val(frac_part(s)) >= 0,
                pow10((SCALE_DIGITS - frac_part(s).len()) as nat) > 0,
                decimal_ticks(s) == digits_val(int_part(s)) * TICKS_PER_UNIT + digits_val(frac_part(s)) * pow10((SCALE_DIGITS - frac_part(s).len()) as nat);
    }
}

proof fn lemma_pow10_pos(n: nat)
    ensures
        pow10(n) >= 1,
    decreases n,
{
    if n > 0 {
        lemma_pow10_pos((n - 1) as nat);
    }
}

/// `pow10` of a sum is the product of the `pow10`s.
proof fn lemma_pow10_mul(a: nat, b: nat)
    ensures
        pow10(a) * pow10(b) == pow10(a + b),
    decreases a,
{
    if a == 0 {
        assert(pow10(0) * pow10(b) == pow10(b));
    } else {
        lemma_pow10_mul((a - 1) as nat, b);
        assert(pow10(a) * pow10(b) == 10 * (pow10((a - 1) as nat) * pow10(b))) by (nonlinear_arith)
            requires pow10(a) == 10 * pow10((a - 1) as nat);
    }
}

/// `pow10` never decreases in its exponent.
proof fn lemma_pow10_mono(a: nat, b: nat)
    requires
        a <= b,
    ensures
        pow10(a) <= pow10(b),
    decreases b,
{
    if a < b {
        lemma_pow10_mono(a, (b - 1) as nat);
        lemma_pow10_pos((b - 1) as nat);
    }
}

/// The fixed-point scale itself, as a power of ten.
proof fn lemma_pow10_scale()
    ensures
        pow10(SCALE_DIGITS as nat) == TICKS_PER_UNIT,
{
    assert(pow10(8) == 100_000_000) by {
        reveal_with_fuel(pow10, 9);
    }
}

/// Small powers of ten stay within `u64` range.
proof fn lemma_pow10_le_scale(n: nat)
    requires
        n <= SCALE_DIGITS,
    ensures
        pow10(n) <= TICKS_PER_UNIT,
{
    lemma_pow10_scale();
    lemma_pow10_mono(n, SCALE_DIGITS as nat);
}

/// Ten to the `k` for the small exponents the fixed-point scale uses.
fn pow10_u64(k: usize) -> (r: u64)
    requires
        k <= SCALE_DIGITS,
    ensures
        r == pow10(k as nat),
{
    let mut r: u64 = 1;
    let mut i: usize = 0;
    proof {
        lemma_pow10_le_scale(k as nat);
    }
    while i < k
        invariant
            0 <= i <= k <= SCALE_DIGITS,
            r == pow10(i as nat),
        decreases k - i,
    {
        proof {
            lemma_pow10_mono(i as nat + 1, SCALE_DIGITS as nat);
            lemma_pow10_scale();
            assert(pow10(i as nat + 1) == 10 * pow10(i as nat));
        }
        r = r * 10;
        i += 1;
    }
    r
}

} // verus!
