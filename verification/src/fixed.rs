//! Fixed-point scalars: constants, truncated division and integer square
//! root, with their specifications.

use vstd::prelude::*;

verus! {

/// Number of fixed-point units in `1.0`: coordinates carry nine decimal
/// places.
pub const SCALE: i64 = 1_000_000_000;

/// Comparison tolerance, one millionth, expressed in fixed-point units.
pub const EPSILON: i64 = 1_000;

/// Largest coordinate magnitude that the geometric operations accept; it
/// keeps the sum of four squared coordinates inside `u128` and the magnitude
/// inside `i64`.
pub const MAX_COORD: i64 = 0x3fff_ffff_ffff_ffff;

/// Smallest magnitude, in units, at which normalizing is guaranteed to land
/// within the tolerance of unit length; shorter tuples lose too much to
/// rounding.
pub const MIN_NORM_MAG: i64 = 10_000_000;

/// Absolute value of a mathematical integer.
pub open spec fn abs_val(v: int) -> int {
    if v >= 0 {
        v
    } else {
        -v
    }
}

/// Whether a mathematical integer fits in an `i64`.
pub open spec fn in_i64(v: int) -> bool {
    i64::MIN <= v <= i64::MAX
}

/// Two scalars agree within the tolerance.
pub open spec fn approx(a: int, b: int) -> bool {
    abs_val(a - b) < EPSILON
}

/// Division truncated toward zero, the rounding that all scaling operations
/// use.
pub open spec fn tdiv(n: int, d: int) -> int
    recommends
        d != 0,
{
    if (n >= 0) == (d >= 0) {
        abs_val(n) / abs_val(d)
    } else {
        -(abs_val(n) / abs_val(d))
    }
}

/// A quotient that fits in an `i64` bounds its dividend: `|n| < 2^127`, so
/// the dividend's negation cannot overflow an `i128`.
proof fn lemma_tdiv_input_bound(n: int, d: int)
    requires
        d != 0,
        abs_val(d) <= 0x8000_0000_0000_0000,
        in_i64(tdiv(n, d)),
    ensures
        abs_val(n) < 0x8000_0000_0000_0000_0000_0000_0000_0000,
{
    let a = abs_val(n);
    let b = abs_val(d);
    let q = a / b;
    vstd::arithmetic::div_mod::lemma_div_pos_is_pos(a, b);
    assert(q <= 0x8000_0000_0000_0000);
    vstd::arithmetic::div_mod::lemma_fundamental_div_mod(a, b);
    vstd::arithmetic::div_mod::lemma_mod_division_less_than_divisor(a, b);
    assert(a < b * (q + 1)) by (nonlinear_arith)
        requires
            a == b * q + a % b,
            a % b < b,
    ;
    assert(b * (q + 1) < 0x8000_0000_0000_0000_0000_0000_0000_0000) by (nonlinear_arith)
        requires
            0 < b <= 0x8000_0000_0000_0000,
            0 <= q <= 0x8000_0000_0000_0000,
    ;
}

/// Truncated division of an `i128` by a nonzero `i64`, for a quotient that
/// fits in an `i64`.
pub(crate) fn tdiv_by_i64(n: i128, d: i64) -> (r: i64)
    requires
        d != 0,
        in_i64(tdiv(n as int, d as int)),
    ensures
        r == tdiv(n as int, d as int),
{
    proof {
        lemma_tdiv_input_bound(n as int, d as int);
    }
    let nn: u128 = if n >= 0 {
        n as u128
    } else {
        (-n) as u128
    };
    let dd: u128 = if d >= 0 {
        d as u128
    } else {
        (-(d as i128)) as u128
    };
    let q: u128 = nn / dd;
    if (n < 0) != (d < 0) {
        if q >= 0x8000_0000_0000_0000u128 {
            i64::MIN
        } else {
            -(q as i64)
        }
    } else {
        q as i64
    }
}

/// The product of two fixed-point scalars: rescaled by `SCALE`, truncated
/// toward zero.
pub open spec fn scale_mul(a: int, b: int) -> int {
    tdiv(a * b, SCALE as int)
}

/// The quotient of two fixed-point scalars: rescaled by `SCALE`, truncated
/// toward zero.
pub open spec fn scale_div(a: int, b: int) -> int
    recommends
        b != 0,
{
    tdiv(a * SCALE, b)
}

/// The product of two `i64` values fits in an `i128`.
proof fn lemma_i64_mul_fits(a: int, b: int)
    requires
        in_i64(a),
        in_i64(b),
    ensures
        i128::MIN <= a * b <= i128::MAX,
{
    assert(-0x4000_0000_0000_0000_0000_0000_0000_0000 <= a * b
        <= 0x4000_0000_0000_0000_0000_0000_0000_0000) by (nonlinear_arith)
        requires
            -0x8000_0000_0000_0000 <= a <= 0x7fff_ffff_ffff_ffff,
            -0x8000_0000_0000_0000 <= b <= 0x7fff_ffff_ffff_ffff,
    ;
}

/// Multiply two fixed-point scalars, for a product that fits.
pub(crate) fn scale_mul_exec(a: i64, b: i64) -> (r: i64)
    requires
        in_i64(scale_mul(a as int, b as int)),
    ensures
        r == scale_mul(a as int, b as int),
{
    proof {
        lemma_i64_mul_fits(a as int, b as int);
    }
    let p: i128 = (a as i128) * (b as i128);
    tdiv_by_i64(p, SCALE)
}

/// Divide two fixed-point scalars, for a nonzero divisor and a quotient that
/// fits.
pub(crate) fn scale_div_exec(a: i64, b: i64) -> (r: i64)
    requires
        b != 0,
        in_i64(scale_div(a as int, b as int)),
    ensures
        r == scale_div(a as int, b as int),
{
    proof {
        lemma_i64_mul_fits(a as int, SCALE as int);
    }
    let p: i128 = (a as i128) * (SCALE as i128);
    tdiv_by_i64(p, b)
}

/// A dividend no larger in magnitude than `m` times the divisor yields a
/// quotient no larger in magnitude than `m`.
pub(crate) proof fn lemma_tdiv_magnitude_le(c: int, m: int, k: int)
    requires
        m >= 1,
        k >= 0,
        abs_val(c) <= m,
    ensures
        abs_val(tdiv(c * k, m)) <= k,
{
    let a = abs_val(c * k);
    assert(a == abs_val(c) * k) by (nonlinear_arith)
        requires
            k >= 0,
            a == abs_val(c * k),
            abs_val(c) == if c >= 0 { c } else { -c },
            abs_val(c * k) == if c * k >= 0 { c * k } else { -(c * k) },
    ;
    assert(a <= m * k) by (nonlinear_arith)
        requires
            a == abs_val(c) * k,
            0 <= abs_val(c) <= m,
            k >= 0,
    ;
    vstd::arithmetic::div_mod::lemma_div_is_ordered(a, m * k, m);
    vstd::arithmetic::div_mod::lemma_div_multiples_vanish(k, m);
    vstd::arithmetic::div_mod::lemma_div_pos_is_pos(a, m);
}

/// The square of a coordinate, exact.
pub(crate) fn square_u128(c: i64) -> (r: u128)
    ensures
        r == (c as int) * (c as int),
{
    let m: u128 = if c >= 0 {
        c as u128
    } else {
        (-(c as i128)) as u128
    };
    proof {
        let cc = c as int;
        assert(m * m == cc * cc && m * m <= 0x4000_0000_0000_0000_0000_0000_0000_0000)
            by (nonlinear_arith)
            requires
                m == if cc >= 0 { cc } else { -cc },
                -0x8000_0000_0000_0000 <= cc <= 0x7fff_ffff_ffff_ffff,
        ;
    }
    m * m
}

/// Whether `r` is the square root of `s` rounded down.
pub open spec fn is_sqrt_floor(s: int, r: int) -> bool {
    &&& 0 <= r
    &&& r * r <= s
    &&& s < (r + 1) * (r + 1)
}

/// The square root of a nonnegative integer, rounded down.
pub open spec fn sqrt_floor(s: int) -> int
    recommends
        s >= 0,
{
    choose|r: int| is_sqrt_floor(s, r)
}

/// Every nonnegative integer has a rounded-down square root.
pub proof fn lemma_sqrt_floor_exists(s: int)
    requires
        s >= 0,
    ensures
        is_sqrt_floor(s, sqrt_floor(s)),
    decreases s,
{
    if s == 0 {
        assert(is_sqrt_floor(0, 0));
    } else {
        lemma_sqrt_floor_exists(s - 1);
        let r = sqrt_floor(s - 1);
        if (r + 1) * (r + 1) <= s {
            // s - 1 < (r + 1)^2 <= s forces s == (r + 1)^2.
            assert(s == (r + 1) * (r + 1));
            assert((r + 1) * (r + 1) < (r + 2) * (r + 2)) by (nonlinear_arith)
                requires
                    r >= 0,
            ;
            assert(is_sqrt_floor(s, r + 1));
        } else {
            assert(is_sqrt_floor(s, r));
        }
    }
}

/// The rounded-down square root is unique.
pub proof fn lemma_sqrt_floor_is(s: int, r: int)
    requires
        is_sqrt_floor(s, r),
    ensures
        sqrt_floor(s) == r,
{
    lemma_sqrt_floor_exists(s);
    let q = sqrt_floor(s);
    assert(q == r) by (nonlinear_arith)
        requires
            0 <= q,
            q * q <= s,
            s < (q + 1) * (q + 1),
            0 <= r,
            r * r <= s,
            s < (r + 1) * (r + 1),
    ;
}

/// Squaring a rounded-down square root recovers a perfect square.
pub proof fn lemma_sqrt_floor_perfect_square(r: int)
    requires
        r >= 0,
    ensures
        sqrt_floor(r * r) == r,
{
    assert(r * r < (r + 1) * (r + 1)) by (nonlinear_arith)
        requires
            r >= 0,
    ;
    lemma_sqrt_floor_is(r * r, r);
}

/// Integer square root of a `u128`, rounded down, by bisection.
pub(crate) fn isqrt_u128(n: u128) -> (r: u128)
    ensures
        is_sqrt_floor(n as int, r as int),
{
    let mut lo: u128 = 0;
    let mut hi: u128 = 0x1_0000_0000_0000_0000;
    proof {
        assert((0x1_0000_0000_0000_0000int) * 0x1_0000_0000_0000_0000 > u128::MAX);
    }
    while hi - lo > 1
        invariant
            lo < hi,
            hi <= 0x1_0000_0000_0000_0000,
            lo * lo <= n,
            n < hi * hi,
        decreases hi - lo,
    {
        let mid: u128 = lo + (hi - lo) / 2;
        proof {
            assert(mid * mid <= u128::MAX) by (nonlinear_arith)
                requires
                    mid < 0x1_0000_0000_0000_0000,
            ;
        }
        if mid * mid <= n {
            lo = mid;
        } else {
            hi = mid;
        }
    }
    lo
}

} // verus!
