//! Fixed-point scalars: an `i64` that counts thousandths, with saturating
//! arithmetic, division to either side and integer square roots.

use vstd::prelude::*;

verus! {

/// Number of fixed-point steps in one whole unit.
pub const SCALE: i64 = 1000;

/// The value `v` brought into the range of an `i64`.
pub open spec fn sat(v: int) -> int {
    if v > i64::MAX {
        i64::MAX as int
    } else if v < i64::MIN {
        i64::MIN as int
    } else {
        v
    }
}

/// Division that rounds toward zero, so that `tdiv(-n, d) == -tdiv(n, d)`.
pub open spec fn tdiv(n: int, d: int) -> int
    recommends
        d != 0,
{
    if n >= 0 && d > 0 {
        n / d
    } else if n < 0 && d > 0 {
        -((-n) / d)
    } else if n >= 0 {
        -(n / (-d))
    } else {
        (-n) / (-d)
    }
}

/// Product of two fixed-point numbers.
pub open spec fn fx_mul(a: int, b: int) -> int {
    sat(tdiv(a * b, SCALE as int))
}

/// `a * b / c` in one rounding step; dividing by zero gives zero.
pub open spec fn mul_div(a: int, b: int, c: int) -> int {
    if c == 0 {
        0
    } else {
        sat(tdiv(a * b, c))
    }
}

/// `r` is the largest natural number whose square does not exceed `n`.
pub open spec fn is_sqrt_floor(n: nat, r: nat) -> bool {
    r * r <= n < (r + 1) * (r + 1)
}

/// The floor of the square root of `n`.
pub open spec fn sqrt_floor(n: nat) -> nat {
    choose|r: nat| is_sqrt_floor(n, r)
}

/// The square root of `n`, rounded up.
pub open spec fn sqrt_ceil(n: nat) -> nat {
    if sqrt_floor(n) * sqrt_floor(n) == n {
        sqrt_floor(n)
    } else {
        sqrt_floor(n) + 1
    }
}

/// Division that rounds away from zero: the quotient is zero only where the
/// dividend is.
pub open spec fn adiv(n: int, d: int) -> int
    recommends
        d != 0,
{
    let whole = abs_int(n) / abs_int(d);
    let magnitude = if abs_int(n) % abs_int(d) == 0 {
        whole
    } else {
        whole + 1
    };
    if (n >= 0) == (d > 0) {
        magnitude
    } else {
        -magnitude
    }
}

/// The quotient of two integers, rounded away from zero and brought into
/// the range of an `i64`; dividing by zero gives zero.
pub open spec fn ratio_away(n: int, d: int) -> int {
    if d == 0 {
        0
    } else {
        sat(adiv(n, d))
    }
}

/// Quotient of two fixed-point numbers, rounded away from zero; dividing by
/// zero gives zero.
pub open spec fn fx_div_away(a: int, b: int) -> int {
    if b == 0 {
        0
    } else {
        sat(adiv(a * SCALE, b))
    }
}

/// Squaring is monotone on the natural numbers.
pub proof fn lemma_square_monotone(a: nat, b: nat)
    requires
        a <= b,
    ensures
        a * a <= b * b,
{
    assert(a * a <= b * b) by (nonlinear_arith)
        requires
            a <= b,
    ;
}

/// At most one number is the floor square root of `n`.
pub proof fn lemma_sqrt_floor_unique(n: nat, r1: nat, r2: nat)
    requires
        is_sqrt_floor(n, r1),
        is_sqrt_floor(n, r2),
    ensures
        r1 == r2,
{
    if r1 < r2 {
        lemma_square_monotone(r1 + 1, r2);
    } else if r2 < r1 {
        lemma_square_monotone(r2 + 1, r1);
    }
}

/// Whatever meets the defining inequality is the floor square root.
pub proof fn lemma_sqrt_floor_is(n: nat, r: nat)
    requires
        is_sqrt_floor(n, r),
    ensures
        sqrt_floor(n) == r,
{
    lemma_sqrt_floor_unique(n, r, sqrt_floor(n));
}

/// The floor square root is monotone.
pub proof fn lemma_sqrt_floor_monotone(a: nat, ra: nat, b: nat, rb: nat)
    requires
        is_sqrt_floor(a, ra),
        is_sqrt_floor(b, rb),
        a <= b,
    ensures
        ra <= rb,
{
    if rb < ra {
        lemma_square_monotone(rb + 1, ra);
    }
}

/// The wide integer `v` brought into the range of an `i64`.
pub fn saturate(v: i128) -> (r: i64)
    ensures
        r == sat(v as int),
{
    if v > 9223372036854775807i128 {
        i64::MAX
    } else if v < -9223372036854775808i128 {
        i64::MIN
    } else {
        v as i64
    }
}

/// Truncating division of wide integers.
pub(crate) fn trunc_div(n: i128, d: i128) -> (r: i128)
    requires
        d != 0,
        i128::MIN < n,
        i128::MIN < d,
    ensures
        r == tdiv(n as int, d as int),
        -abs_int(n as int) <= r <= abs_int(n as int),
{
    let an: u128 = if n < 0 { (-n) as u128 } else { n as u128 };
    let ad: u128 = if d < 0 { (-d) as u128 } else { d as u128 };
    let q: u128 = an / ad;
    proof {
        vstd::arithmetic::div_mod::lemma_div_is_ordered_by_denominator(an as int, 1, ad as int);
        vstd::arithmetic::div_mod::lemma_div_basics(an as int);
    }
    let qi: i128 = q as i128;
    if (n < 0) != (d < 0) {
        -qi
    } else {
        qi
    }
}

/// The magnitude of `v`.
pub open spec fn abs_int(v: int) -> int {
    if v < 0 {
        -v
    } else {
        v
    }
}

/// Floor square root by bisection.
pub fn isqrt(n: u128) -> (r: u64)
    ensures
        is_sqrt_floor(n as nat, r as nat),
        r == sqrt_floor(n as nat),
{
    let mut lo: u128 = 0;
    let mut hi: u128 = 0x1_0000_0000_0000_0000u128;
    assert(n < hi * hi) by (nonlinear_arith)
        requires
            hi == 0x1_0000_0000_0000_0000u128,
            n <= u128::MAX,
    ;
    while hi - lo > 1
        invariant
            lo < hi <= 0x1_0000_0000_0000_0000u128,
            lo * lo <= n < hi * hi,
        decreases hi - lo,
    {
        let mid: u128 = lo + (hi - lo) / 2;
        assert(mid * mid <= 0xffff_ffff_ffff_ffffu128 * 0xffff_ffff_ffff_ffffu128)
            by (nonlinear_arith)
            requires
                mid <= 0xffff_ffff_ffff_ffffu128,
        ;
        if mid * mid <= n {
            lo = mid;
        } else {
            hi = mid;
        }
    }
    proof {
        lemma_sqrt_floor_is(n as nat, lo as nat);
    }
    lo as u64
}

/// Square root by bisection, rounded up.
pub fn isqrt_ceil(n: u128) -> (r: u128)
    ensures
        r == sqrt_ceil(n as nat),
        r <= 0x1_0000_0000_0000_0000u128,
{
    let root: u128 = isqrt(n) as u128;
    assert(root * root <= n);
    if root * root == n {
        root
    } else {
        root + 1
    }
}

/// The quotient of a wide integer by a wide natural number, rounded away
/// from zero and saturating; zero when `d` is zero.
pub fn div_away_wide(n: i128, d: u128) -> (r: i64)
    requires
        i128::MIN < n,
    ensures
        r == ratio_away(n as int, d as int),
{
    if d == 0 {
        return 0;
    }
    let an: u128 = if n < 0 { (-n) as u128 } else { n as u128 };
    let whole: u128 = an / d;
    let magnitude: u128 = if an % d == 0 { whole } else { whole + 1 };
    proof {
        vstd::arithmetic::div_mod::lemma_div_is_ordered_by_denominator(an as int, 1, d as int);
        vstd::arithmetic::div_mod::lemma_div_basics(an as int);
    }
    if magnitude > 9223372036854775808u128 {
        return if n >= 0 {
            i64::MAX
        } else {
            i64::MIN
        };
    }
    let wide: i128 = magnitude as i128;
    if n >= 0 {
        saturate(wide)
    } else {
        saturate(-wide)
    }
}

/// Quotient of two fixed-point numbers, rounded away from zero and
/// saturating; zero when `b` is zero.
pub fn div_away_fixed(a: i64, b: i64) -> (r: i64)
    ensures
        r == fx_div_away(a as int, b as int),
{
    if b == 0 {
        return 0;
    }
    let n: i128 = (a as i128) * 1000;
    let an: u128 = if n < 0 { (-n) as u128 } else { n as u128 };
    let ad: u128 = if b < 0 { (-(b as i128)) as u128 } else { b as u128 };
    let whole: u128 = an / ad;
    let magnitude: u128 = if an % ad == 0 { whole } else { whole + 1 };
    proof {
        vstd::arithmetic::div_mod::lemma_div_is_ordered_by_denominator(an as int, 1, ad as int);
        vstd::arithmetic::div_mod::lemma_div_basics(an as int);
    }
    let wide: i128 = magnitude as i128;
    if (n >= 0) == (b > 0) {
        saturate(wide)
    } else {
        saturate(-wide)
    }
}

/// Product of two fixed-point numbers, saturating.
pub fn mul_fixed(a: i64, b: i64) -> (r: i64)
    ensures
        r == fx_mul(a as int, b as int),
{
    let wa: i128 = a as i128;
    let wb: i128 = b as i128;
    assert(-0x4000_0000_0000_0000_0000_0000_0000_0000 <= wa * wb
        <= 0x4000_0000_0000_0000_0000_0000_0000_0000) by (nonlinear_arith)
        requires
            -0x8000_0000_0000_0000 <= wa <= 0x7fff_ffff_ffff_ffff,
            -0x8000_0000_0000_0000 <= wb <= 0x7fff_ffff_ffff_ffff,
    ;
    saturate(trunc_div(wa * wb, 1000))
}

/// `a * b / c` with one rounding, saturating; zero when `c` is zero.
pub(crate) fn mul_div_wide(a: i64, b: i64, c: i128) -> (r: i64)
    requires
        i128::MIN < c,
    ensures
        r == mul_div(a as int, b as int, c as int),
{
    if c == 0 {
        return 0;
    }
    let wa: i128 = a as i128;
    let wb: i128 = b as i128;
    assert(-0x4000_0000_0000_0000_0000_0000_0000_0000 <= wa * wb
        <= 0x4000_0000_0000_0000_0000_0000_0000_0000) by (nonlinear_arith)
        requires
            -0x8000_0000_0000_0000 <= wa <= 0x7fff_ffff_ffff_ffff,
            -0x8000_0000_0000_0000 <= wb <= 0x7fff_ffff_ffff_ffff,
    ;
    saturate(trunc_div(wa * wb, c))
}

/// `a * b / c` with one rounding, saturating; zero when `c` is zero.
pub fn mul_div_fixed(a: i64, b: i64, c: i64) -> (r: i64)
    ensures
        r == mul_div(a as int, b as int, c as int),
{
    mul_div_wide(a, b, c as i128)
}

/// Sum of two fixed-point numbers, saturating.
pub fn add_fixed(a: i64, b: i64) -> (r: i64)
    ensures
        r == sat(a + b),
{
    saturate(a as i128 + b as i128)
}

/// Difference of two fixed-point numbers, saturating.
pub fn sub_fixed(a: i64, b: i64) -> (r: i64)
    ensures
        r == sat(a - b),
{
    saturate(a as i128 - b as i128)
}

/// Zero is its own floor square root.
pub proof fn lemma_sqrt_floor_zero()
    ensures
        is_sqrt_floor(0, 0),
        sqrt_floor(0) == 0,
{
    let r: nat = 0;
    assert(r * r == 0 && (r + 1) * (r + 1) == 1) by (nonlinear_arith)
        requires
            r == 0,
    ;
    lemma_sqrt_floor_is(0, 0);
}

/// Every natural number has a floor square root, and `sqrt_floor` is it.
pub proof fn lemma_sqrt_floor(n: nat)
    ensures
        is_sqrt_floor(n, sqrt_floor(n)),
    decreases n,
{
    if n == 0 {
        lemma_sqrt_floor_zero();
    } else {
        lemma_sqrt_floor((n - 1) as nat);
        let r = sqrt_floor((n - 1) as nat);
        if n < (r + 1) * (r + 1) {
            assert(is_sqrt_floor(n, r));
        } else {
            assert((r + 2) * (r + 2) > (r + 1) * (r + 1)) by (nonlinear_arith);
            assert(is_sqrt_floor(n, r + 1));
        }
    }
}

/// Truncating division by a positive number: the quotient has the sign of
/// the dividend, and its magnitude is the floor of the quotient of the
/// magnitudes.
pub proof fn lemma_tdiv(a: int, d: int)
    requires
        d > 0,
    ensures
        abs_int(tdiv(a, d)) * d <= abs_int(a) < (abs_int(tdiv(a, d)) + 1) * d,
        a >= 0 ==> tdiv(a, d) >= 0,
        a <= 0 ==> tdiv(a, d) <= 0,
{
    let m = abs_int(a);
    vstd::arithmetic::div_mod::lemma_fundamental_div_mod(m, d);
    vstd::arithmetic::div_mod::lemma_div_pos_is_pos(m, d);
    vstd::arithmetic::div_mod::lemma_mod_bound(m, d);
    let q = m / d;
    assert(abs_int(tdiv(a, d)) == q);
    assert(q * d == d * q) by (nonlinear_arith);
    assert((q + 1) * d == d * q + d) by (nonlinear_arith);
}

/// Multiplying by a positive number and dividing by it again gives the
/// number back.
pub proof fn lemma_tdiv_cancels(a: int, d: int)
    requires
        d > 0,
    ensures
        tdiv(a * d, d) == a,
{
    let m = abs_int(a);
    lemma_tdiv(a * d, d);
    assert(abs_int(a * d) == m * d && (a >= 0 ==> a * d >= 0) && (a <= 0 ==> a * d <= 0))
        by (nonlinear_arith)
        requires
            m == abs_int(a),
            d > 0,
    ;
    let t = abs_int(tdiv(a * d, d));
    assert(t == m) by (nonlinear_arith)
        requires
            t * d <= m * d < (t + 1) * d,
            d > 0,
    ;
}

/// Truncating division is monotone in the dividend.
pub proof fn lemma_tdiv_monotone(a: int, b: int, d: int)
    requires
        d > 0,
        0 <= a <= b,
    ensures
        0 <= tdiv(a, d) <= tdiv(b, d),
{
    vstd::arithmetic::div_mod::lemma_div_is_ordered(a, b, d);
    vstd::arithmetic::div_mod::lemma_div_pos_is_pos(a, d);
}

/// The square root rounded up is the least number whose square reaches
/// `n`, and is not under the square root rounded down.
pub proof fn lemma_sqrt_ceil(n: nat)
    ensures
        n <= sqrt_ceil(n) * sqrt_ceil(n),
        n > 0 ==> sqrt_ceil(n) > 0 && (sqrt_ceil(n) - 1) * (sqrt_ceil(n) - 1) < n,
        sqrt_floor(n) <= sqrt_ceil(n),
{
    lemma_sqrt_floor(n);
    let r = sqrt_floor(n);
    let c = sqrt_ceil(n);
    if r * r == n {
        if n > 0 {
            assert(r > 0 && (r - 1) * (r - 1) < r * r) by (nonlinear_arith)
                requires
                    r * r > 0,
                    r >= 0,
            ;
        }
    } else {
        assert((c - 1) * (c - 1) == r * r);
    }
}

/// Division that rounds away from zero, by a positive number: the quotient
/// has the sign of the dividend and is zero only where the dividend is.
pub proof fn lemma_adiv_sign(n: int, d: int)
    requires
        d > 0,
    ensures
        n > 0 ==> adiv(n, d) > 0,
        n < 0 ==> adiv(n, d) < 0,
        n == 0 ==> adiv(n, d) == 0,
{
    let m = abs_int(n);
    vstd::arithmetic::div_mod::lemma_fundamental_div_mod(m, d);
    vstd::arithmetic::div_mod::lemma_div_pos_is_pos(m, d);
    vstd::arithmetic::div_mod::lemma_mod_bound(m, d);
    if m > 0 && m % d == 0 && m / d == 0 {
        assert(d * (m / d) == 0) by (nonlinear_arith)
            requires
                m / d == 0,
        ;
    }
}

/// Division that rounds away from zero, of a number that is not negative
/// by a positive one: the quotient is the least number that, times the
/// divisor, reaches the dividend.
pub proof fn lemma_adiv_bounds(n: int, d: int)
    requires
        n >= 0,
        d > 0,
    ensures
        adiv(n, d) >= 0,
        (adiv(n, d) - 1) * d < n <= adiv(n, d) * d,
{
    vstd::arithmetic::div_mod::lemma_fundamental_div_mod(n, d);
    vstd::arithmetic::div_mod::lemma_div_pos_is_pos(n, d);
    vstd::arithmetic::div_mod::lemma_mod_bound(n, d);
    let q = n / d;
    assert(q * d == d * q && (q + 1) * d == d * q + d && (q - 1) * d == d * q - d)
        by (nonlinear_arith);
}

/// Division that rounds away from zero is monotone in the dividend, and a
/// dividend that is larger by `gap` divisors gives a quotient larger by
/// `gap`.
pub proof fn lemma_adiv_monotone(a: int, b: int, d: int, gap: nat)
    requires
        d > 0,
        0 <= a,
        a + gap * d <= b,
    ensures
        0 <= adiv(a, d),
        adiv(a, d) + gap <= adiv(b, d),
{
    assert(gap * d >= 0) by (nonlinear_arith)
        requires
            d > 0,
            gap >= 0,
    ;
    lemma_adiv_bounds(a, d);
    lemma_adiv_bounds(b, d);
    let qa = adiv(a, d);
    let qb = adiv(b, d);
    assert(qa + gap <= qb) by (nonlinear_arith)
        requires
            (qa - 1) * d < a,
            a + gap * d <= b,
            b <= qb * d,
            d > 0,
    ;
}

} // verus!
