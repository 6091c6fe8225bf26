//! Algebraic laws of the tuple operations, stated over the same
//! specifications that the operations' contracts use.

use vstd::prelude::*;

use crate::fixed::EPSILON;
use crate::fixed::MIN_NORM_MAG;
use crate::fixed::SCALE;
use crate::fixed::abs_val;
use crate::fixed::approx;
use crate::fixed::lemma_sqrt_floor_exists;
use crate::fixed::lemma_sqrt_floor_perfect_square;
use crate::fixed::sqrt_floor;
use crate::fixed::tdiv;
use crate::tuple::Tuple;
use crate::tuple::is_neg_of;
use crate::tuple::is_normalized_of;
use crate::tuple::lemma_components_le_root;
use crate::tuple::spec_cross_x;
use crate::tuple::spec_cross_y;
use crate::tuple::spec_cross_z;

verus! {

/// A freshly built point classifies as a point and not as a vector,
/// whatever its coordinates.
pub proof fn lemma_point_classification(t: Tuple)
    requires
        t.w == SCALE,
    ensures
        t.spec_is_point(),
        !t.spec_is_vector(),
{
}

/// A freshly built vector classifies as a vector and not as a point,
/// whatever its coordinates.
pub proof fn lemma_vector_classification(t: Tuple)
    requires
        t.w == 0,
    ensures
        t.spec_is_vector(),
        !t.spec_is_point(),
{
}

/// Spatial equality is reflexive.
pub proof fn lemma_spatial_eq_reflexive(t: Tuple)
    ensures
        t.spatial_eq(t),
{
}

/// Spatial equality is symmetric.
pub proof fn lemma_spatial_eq_symmetric(a: Tuple, b: Tuple)
    ensures
        a.spatial_eq(b) == b.spatial_eq(a),
{
}

/// Negation is an involution: negating a tuple twice restores every
/// component, `w` included.
pub proof fn lemma_neg_involution(t: Tuple, u: Tuple, v: Tuple)
    requires
        is_neg_of(u, t),
        is_neg_of(v, u),
    ensures
        v == t,
{
}

/// A tuple whose squared norm is a perfect square has that exact root as its
/// magnitude: an axis unit vector has magnitude one, with no rounding.
pub proof fn lemma_exact_magnitude(t: Tuple, c: int)
    requires
        c >= 0,
        t.mag_sq() == c * c,
    ensures
        sqrt_floor(t.mag_sq()) == c,
{
    lemma_sqrt_floor_perfect_square(c);
}

/// Negation preserves the squared norm, and with it the magnitude.
pub proof fn lemma_magnitude_of_neg(t: Tuple, u: Tuple)
    requires
        is_neg_of(u, t),
    ensures
        u.mag_sq() == t.mag_sq(),
        sqrt_floor(u.mag_sq()) == sqrt_floor(t.mag_sq()),
{
    assert((-t.x) * (-t.x) == t.x * t.x && (-t.y) * (-t.y) == t.y * t.y && (-t.z) * (-t.z) == t.z
        * t.z && (-t.w) * (-t.w) == t.w * t.w) by (nonlinear_arith);
}

/// The dot product is commutative.
pub proof fn lemma_dot_commutative(a: Tuple, b: Tuple)
    ensures
        a.spec_dot(b) == b.spec_dot(a),
{
    assert(a.x * b.x == b.x * a.x && a.y * b.y == b.y * a.y && a.z * b.z == b.z * a.z && a.w * b.w
        == b.w * a.w) by (nonlinear_arith);
}

/// The cross product is anti-commutative: swapping the operands negates
/// every coordinate of the result.
pub proof fn lemma_cross_anticommutative(a: Tuple, b: Tuple)
    ensures
        spec_cross_x(a, b) == -spec_cross_x(b, a),
        spec_cross_y(a, b) == -spec_cross_y(b, a),
        spec_cross_z(a, b) == -spec_cross_z(b, a),
{
    assert(a.y * b.z - a.z * b.y == -(b.y * a.z - b.z * a.y) && a.z * b.x - a.x * b.z == -(b.z * a.x
        - b.x * a.z) && a.x * b.y - a.y * b.x == -(b.x * a.y - b.y * a.x)) by (nonlinear_arith);
    lemma_tdiv_neg(a.y * b.z - a.z * b.y, SCALE as int);
    lemma_tdiv_neg(a.z * b.x - a.x * b.z, SCALE as int);
    lemma_tdiv_neg(a.x * b.y - a.y * b.x, SCALE as int);
}

/// Normalizing a tuple whose magnitude is at least `MIN_NORM_MAG` yields a
/// tuple whose magnitude is within the tolerance of one unit.
pub proof fn lemma_normalize_unit_magnitude(t: Tuple, n: Tuple)
    requires
        t.mag_sq() >= MIN_NORM_MAG * MIN_NORM_MAG,
        is_normalized_of(n, t),
    ensures
        approx(sqrt_floor(n.mag_sq()), SCALE as int),
{
    let k = SCALE as int;
    let e = EPSILON as int;
    let m0 = MIN_NORM_MAG as int;
    let s = t.mag_sq();
    lemma_sqrt_floor_exists(s);
    let m = sqrt_floor(s);
    assert(m >= m0) by (nonlinear_arith)
        requires
            m >= 0,
            m0 >= 0,
            s >= m0 * m0,
            s < (m + 1) * (m + 1),
    ;
    lemma_components_le_root(t, m);
    let cx = t.x as int;
    let cy = t.y as int;
    let cz = t.z as int;
    let cw = t.w as int;
    let dx = n.x as int;
    let dy = n.y as int;
    let dz = n.z as int;
    let dw = n.w as int;
    lemma_scaled_component_square(cx, m);
    lemma_scaled_component_square(cy, m);
    lemma_scaled_component_square(cz, m);
    lemma_scaled_component_square(cw, m);
    let tt = n.mag_sq();
    assert(tt * (m * m) == dx * dx * (m * m) + dy * dy * (m * m) + dz * dz * (m * m) + dw * dw * (m
        * m)) by (nonlinear_arith)
        requires
            tt == dx * dx + dy * dy + dz * dz + dw * dw,
    ;
    assert(s * (k * k) == (cx * cx) * (k * k) + (cy * cy) * (k * k) + (cz * cz) * (k * k) + (cw
        * cw) * (k * k)) by (nonlinear_arith)
        requires
            s == cx * cx + cy * cy + cz * cz + cw * cw,
    ;
    // The squared norm of the result, scaled by m^2, sits within 8 k m^2 of
    // k^2 s.
    assert(tt * (m * m) <= s * (k * k));
    assert(tt * (m * m) >= s * (k * k) - 8 * (m * m) * k);
    // Lower bound: s >= m^2, so tt >= k^2 - 8 k.
    assert(s * (k * k) >= (m * m) * (k * k)) by (nonlinear_arith)
        requires
            s >= m * m,
            k * k >= 0,
    ;
    assert(tt >= k * k - 8 * k) by (nonlinear_arith)
        requires
            tt * (m * m) >= (m * m) * (k * k) - 8 * (m * m) * k,
            m >= 1,
    ;
    // Upper bound: s < (m+1)^2 and k (m+1) <= (k+e) m, so tt < (k+e)^2.
    assert(k * (m + 1) <= (k + e) * m) by (nonlinear_arith)
        requires
            k == 1_000_000_000,
            e == 1_000,
            m >= 10_000_000,
    ;
    assert(s * (k * k) < (k * (m + 1)) * (k * (m + 1))) by (nonlinear_arith)
        requires
            s < (m + 1) * (m + 1),
            k > 0,
    ;
    assert((k * (m + 1)) * (k * (m + 1)) <= ((k + e) * m) * ((k + e) * m)) by (nonlinear_arith)
        requires
            0 <= k * (m + 1),
            k * (m + 1) <= (k + e) * m,
    ;
    assert(tt < (k + e) * (k + e)) by (nonlinear_arith)
        requires
            tt * (m * m) < ((k + e) * m) * ((k + e) * m),
            m >= 1,
            k + e > 0,
    ;
    lemma_sqrt_floor_exists(tt);
    let r = sqrt_floor(tt);
    assert(r < k + e) by (nonlinear_arith)
        requires
            r >= 0,
            r * r <= tt,
            tt < (k + e) * (k + e),
            k + e > 0,
    ;
    assert(r > k - e) by (nonlinear_arith)
        requires
            tt < (r + 1) * (r + 1),
            tt >= k * k - 8 * k,
            k == 1_000_000_000,
            e == 1_000,
            r >= 0,
    ;
}

/// One component of a normalized tuple, squared and scaled by the squared
/// magnitude, sits within `2 k m^2` of the squared scaled component.
proof fn lemma_scaled_component_square(c: int, m: int)
    requires
        m >= 1,
        abs_val(c) <= m,
    ensures
        ({
            let k = SCALE as int;
            let d = tdiv(c * k, m);
            d * d * (m * m) <= (c * c) * (k * k) && d * d * (m * m) >= (c * c) * (k * k) - 2 * (m
                * m) * k
        }),
{
    let k = SCALE as int;
    let d = tdiv(c * k, m);
    let a = abs_val(c * k);
    assert(a == abs_val(c) * k && (c * c) * (k * k) == a * a) by (nonlinear_arith)
        requires
            k > 0,
            a == if c * k >= 0 { c * k } else { -(c * k) },
            abs_val(c) == if c >= 0 { c } else { -c },
    ;
    let q = a / m;
    vstd::arithmetic::div_mod::lemma_fundamental_div_mod(a, m);
    vstd::arithmetic::div_mod::lemma_mod_division_less_than_divisor(a, m);
    vstd::arithmetic::div_mod::lemma_div_pos_is_pos(a, m);
    assert(a - m < q * m <= a);
    assert(d * d == q * q) by (nonlinear_arith)
        requires
            d == q || d == -q,
    ;
    assert(q * q * (m * m) == (q * m) * (q * m)) by (nonlinear_arith);
    assert((q * m) * (q * m) <= a * a) by (nonlinear_arith)
        requires
            0 <= q * m <= a,
    ;
    assert((q * m) * (q * m) >= a * a - 2 * a * m) by (nonlinear_arith)
        requires
            q * m > a - m,
            q * m >= 0,
            a >= 0,
            m >= 1,
    ;
    assert(2 * a * m <= 2 * (m * m) * k) by (nonlinear_arith)
        requires
            a == abs_val(c) * k,
            0 <= abs_val(c) <= m,
            k > 0,
            m >= 1,
    ;
}

/// Truncated division carries negation of the dividend through.
proof fn lemma_tdiv_neg(n: int, d: int)
    requires
        d > 0,
    ensures
        tdiv(-n, d) == -tdiv(n, d),
{
}

} // verus!
