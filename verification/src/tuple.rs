//! The tuple type: a four-component homogeneous coordinate over fixed-point
//! scalars, with its arithmetic and geometric operations.

use vstd::prelude::*;

use crate::fixed::EPSILON;
use crate::fixed::MAX_COORD;
use crate::fixed::MIN_NORM_MAG;
use crate::fixed::SCALE;
use crate::fixed::abs_val;
use crate::fixed::approx;
use crate::fixed::in_i64;
use crate::fixed::is_sqrt_floor;
use crate::fixed::isqrt_u128;
use crate::fixed::lemma_sqrt_floor_is;
use crate::fixed::lemma_tdiv_magnitude_le;
use crate::fixed::scale_div;
use crate::fixed::scale_div_exec;
use crate::fixed::scale_mul;
use crate::fixed::scale_mul_exec;
use crate::fixed::sqrt_floor;
use crate::fixed::square_u128;
use crate::fixed::tdiv;
use crate::fixed::tdiv_by_i64;

verus! {

/// A point (`w == SCALE`) or a vector (`w == 0`), in fixed-point coordinates
/// of `SCALE` units per `1.0`.  Arithmetic treats `w` like any other
/// component and does not re-establish the point/vector reading: adding two
/// points leaves `w == 2 * SCALE`, which is neither, and is kept as is.
#[derive(Clone, Copy, PartialEq, Eq, Structural, Debug)]
pub struct Tuple {
    pub x: i64,
    pub y: i64,
    pub z: i64,
    pub w: i64,
}

impl Default for Tuple {
    /// The all-zero tuple, a zero-length vector.
    fn default() -> (t: Tuple)
        ensures
            t == (Tuple { x: 0, y: 0, z: 0, w: 0 }),
    {
        Tuple { x: 0, y: 0, z: 0, w: 0 }
    }
}

impl Tuple {
    /// Whether the discriminant reads as a point, within the tolerance.
    pub open spec fn spec_is_point(self) -> bool {
        approx(self.w as int, SCALE as int)
    }

    /// Whether the discriminant reads as a vector, within the tolerance.
    pub open spec fn spec_is_vector(self) -> bool {
        approx(self.w as int, 0)
    }

    /// Spatial equality: the three coordinates agree within the tolerance;
    /// `w` is deliberately not compared.
    pub open spec fn spatial_eq(self, other: Tuple) -> bool {
        &&& approx(self.x as int, other.x as int)
        &&& approx(self.y as int, other.y as int)
        &&& approx(self.z as int, other.z as int)
    }

    /// The squared Euclidean norm over all four components, exact.
    pub open spec fn mag_sq(self) -> int {
        self.x * self.x + self.y * self.y + self.z * self.z + self.w * self.w
    }

    /// The dot product over all four components: the rescaled, truncated sum
    /// of the component products.
    pub open spec fn spec_dot(self, other: Tuple) -> int {
        tdiv(
            self.x * other.x + self.y * other.y + self.z * other.z + self.w * other.w,
            SCALE as int,
        )
    }

    /// Whether every component is small enough for the geometric operations.
    pub open spec fn bounded(self) -> bool {
        &&& abs_val(self.x as int) <= MAX_COORD
        &&& abs_val(self.y as int) <= MAX_COORD
        &&& abs_val(self.z as int) <= MAX_COORD
        &&& abs_val(self.w as int) <= MAX_COORD
    }

    /// Create a point tuple.
    pub fn new_point(x: i64, y: i64, z: i64) -> (t: Tuple)
        ensures
            t == (Tuple { x, y, z, w: SCALE }),
    {
        Tuple { x, y, z, w: SCALE }
    }

    /// Create a vector tuple.
    pub fn new_vector(x: i64, y: i64, z: i64) -> (t: Tuple)
        ensures
            t == (Tuple { x, y, z, w: 0 }),
    {
        Tuple { x, y, z, w: 0 }
    }

    /// Test if the tuple is a point.
    pub fn is_point(&self) -> (r: bool)
        ensures
            r == self.spec_is_point(),
    {
        let d: i128 = self.w as i128 - SCALE as i128;
        -(EPSILON as i128) < d && d < EPSILON as i128
    }

    /// Test if the tuple is a vector.
    pub fn is_vector(&self) -> (r: bool)
        ensures
            r == self.spec_is_vector(),
    {
        let d: i128 = self.w as i128;
        -(EPSILON as i128) < d && d < EPSILON as i128
    }

    /// Test if this tuple is spatially equal to another.  Only the three
    /// coordinates are compared, each within the tolerance: a point and a
    /// vector at the same position compare equal.
    pub fn is_equal_to(&self, other: &Tuple) -> (r: bool)
        ensures
            r == self.spatial_eq(*other),
    {
        let dx: i128 = self.x as i128 - other.x as i128;
        let dy: i128 = self.y as i128 - other.y as i128;
        let dz: i128 = self.z as i128 - other.z as i128;
        let e: i128 = EPSILON as i128;
        -e < dx && dx < e && -e < dy && dy < e && -e < dz && dz < e
    }

    /// Add two tuples component-wise, `w` included.
    pub fn add(&self, rhs: &Tuple) -> (t: Tuple)
        requires
            in_i64(self.x + rhs.x),
            in_i64(self.y + rhs.y),
            in_i64(self.z + rhs.z),
            in_i64(self.w + rhs.w),
        ensures
            t.x == self.x + rhs.x,
            t.y == self.y + rhs.y,
            t.z == self.z + rhs.z,
            t.w == self.w + rhs.w,
    {
        Tuple { x: self.x + rhs.x, y: self.y + rhs.y, z: self.z + rhs.z, w: self.w + rhs.w }
    }

    /// Subtract a tuple component-wise, `w` included.
    pub fn sub(&self, rhs: &Tuple) -> (t: Tuple)
        requires
            in_i64(self.x - rhs.x),
            in_i64(self.y - rhs.y),
            in_i64(self.z - rhs.z),
            in_i64(self.w - rhs.w),
        ensures
            t.x == self.x - rhs.x,
            t.y == self.y - rhs.y,
            t.z == self.z - rhs.z,
            t.w == self.w - rhs.w,
    {
        Tuple { x: self.x - rhs.x, y: self.y - rhs.y, z: self.z - rhs.z, w: self.w - rhs.w }
    }

    /// Negate all four components, `w` included.
    pub fn neg(&self) -> (t: Tuple)
        requires
            in_i64(-self.x),
            in_i64(-self.y),
            in_i64(-self.z),
            in_i64(-self.w),
        ensures
            is_neg_of(t, *self),
    {
        Tuple { x: -self.x, y: -self.y, z: -self.z, w: -self.w }
    }

    /// Scale all four components by a fixed-point scalar, `w` included.
    pub fn mul(&self, scalar: i64) -> (t: Tuple)
        requires
            in_i64(scale_mul(self.x as int, scalar as int)),
            in_i64(scale_mul(self.y as int, scalar as int)),
            in_i64(scale_mul(self.z as int, scalar as int)),
            in_i64(scale_mul(self.w as int, scalar as int)),
        ensures
            t.x == scale_mul(self.x as int, scalar as int),
            t.y == scale_mul(self.y as int, scalar as int),
            t.z == scale_mul(self.z as int, scalar as int),
            t.w == scale_mul(self.w as int, scalar as int),
    {
        Tuple {
            x: scale_mul_exec(self.x, scalar),
            y: scale_mul_exec(self.y, scalar),
            z: scale_mul_exec(self.z, scalar),
            w: scale_mul_exec(self.w, scalar),
        }
    }

    /// Divide all four components by a nonzero fixed-point scalar, `w`
    /// included.
    pub fn div(&self, scalar: i64) -> (t: Tuple)
        requires
            scalar != 0,
            in_i64(scale_div(self.x as int, scalar as int)),
            in_i64(scale_div(self.y as int, scalar as int)),
            in_i64(scale_div(self.z as int, scalar as int)),
            in_i64(scale_div(self.w as int, scalar as int)),
        ensures
            t.x == scale_div(self.x as int, scalar as int),
            t.y == scale_div(self.y as int, scalar as int),
            t.z == scale_div(self.z as int, scalar as int),
            t.w == scale_div(self.w as int, scalar as int),
    {
        Tuple {
            x: scale_div_exec(self.x, scalar),
            y: scale_div_exec(self.y, scalar),
            z: scale_div_exec(self.z, scalar),
            w: scale_div_exec(self.w, scalar),
        }
    }

    /// Compute the magnitude of the tuple: the square root of the sum of the
    /// four squared components, rounded down to whole units.
    pub fn magnitude(&self) -> (r: i64)
        requires
            self.bounded(),
        ensures
            r >= 0,
            is_sqrt_floor(self.mag_sq(), r as int),
            r == sqrt_floor(self.mag_sq()),
    {
        let sx: u128 = square_u128(self.x);
        let sy: u128 = square_u128(self.y);
        let sz: u128 = square_u128(self.z);
        let sw: u128 = square_u128(self.w);
        proof {
            lemma_square_of_bounded(self.x as int, sx as int);
            lemma_square_of_bounded(self.y as int, sy as int);
            lemma_square_of_bounded(self.z as int, sz as int);
            lemma_square_of_bounded(self.w as int, sw as int);
        }
        let s: u128 = sx + sy + sz + sw;
        let root: u128 = isqrt_u128(s);
        proof {
            let b = 2 * MAX_COORD as int;
            assert(root <= b) by (nonlinear_arith)
                requires
                    root * root <= s,
                    s <= b * b,
                    root >= 0,
                    b >= 0,
            ;
            lemma_sqrt_floor_is(self.mag_sq(), root as int);
        }
        root as i64
    }

    /// Return a new tuple that is this tuple normalized: every component
    /// divided by the magnitude, `w` included.
    pub fn normalize(&self) -> (t: Tuple)
        requires
            self.bounded(),
            self.mag_sq() > 0,
        ensures
            is_normalized_of(t, *self),
            self.mag_sq() >= MIN_NORM_MAG * MIN_NORM_MAG ==> approx(
                sqrt_floor(t.mag_sq()),
                SCALE as int,
            ),
    {
        let m: i64 = self.magnitude();
        proof {
            lemma_components_le_root(*self, m as int);
            lemma_tdiv_magnitude_le(self.x as int, m as int, SCALE as int);
            lemma_tdiv_magnitude_le(self.y as int, m as int, SCALE as int);
            lemma_tdiv_magnitude_le(self.z as int, m as int, SCALE as int);
            lemma_tdiv_magnitude_le(self.w as int, m as int, SCALE as int);
        }
        let res = Tuple {
            x: scale_div_exec(self.x, m),
            y: scale_div_exec(self.y, m),
            z: scale_div_exec(self.z, m),
            w: scale_div_exec(self.w, m),
        };
        proof {
            if self.mag_sq() >= MIN_NORM_MAG * MIN_NORM_MAG {
                crate::laws::lemma_normalize_unit_magnitude(*self, res);
            }
        }
        res
    }

    /// Compute the dot product with another tuple, all four components
    /// included.
    pub fn dot_product(&self, other: &Tuple) -> (r: i64)
        requires
            self.bounded(),
            other.bounded(),
            in_i64(self.spec_dot(*other)),
        ensures
            r == self.spec_dot(*other),
    {
        proof {
            lemma_product_of_bounded(self.x as int, other.x as int);
            lemma_product_of_bounded(self.y as int, other.y as int);
            lemma_product_of_bounded(self.z as int, other.z as int);
            lemma_product_of_bounded(self.w as int, other.w as int);
        }
        let px: i128 = self.x as i128 * other.x as i128;
        let py: i128 = self.y as i128 * other.y as i128;
        let pz: i128 = self.z as i128 * other.z as i128;
        let pw: i128 = self.w as i128 * other.w as i128;
        tdiv_by_i64(px + py + pz + pw, SCALE)
    }

    /// Compute the cross product with another tuple over the three
    /// coordinates; the result is always a vector.
    pub fn cross_product(&self, other: &Tuple) -> (t: Tuple)
        requires
            self.bounded(),
            other.bounded(),
            in_i64(spec_cross_x(*self, *other)),
            in_i64(spec_cross_y(*self, *other)),
            in_i64(spec_cross_z(*self, *other)),
        ensures
            t.x == spec_cross_x(*self, *other),
            t.y == spec_cross_y(*self, *other),
            t.z == spec_cross_z(*self, *other),
            t.w == 0,
    {
        proof {
            lemma_product_of_bounded(self.y as int, other.z as int);
            lemma_product_of_bounded(self.z as int, other.y as int);
            lemma_product_of_bounded(self.z as int, other.x as int);
            lemma_product_of_bounded(self.x as int, other.z as int);
            lemma_product_of_bounded(self.x as int, other.y as int);
            lemma_product_of_bounded(self.y as int, other.x as int);
        }
        Tuple::new_vector(
            tdiv_by_i64(self.y as i128 * other.z as i128 - self.z as i128 * other.y as i128, SCALE),
            tdiv_by_i64(self.z as i128 * other.x as i128 - self.x as i128 * other.z as i128, SCALE),
            tdiv_by_i64(self.x as i128 * other.y as i128 - self.y as i128 * other.x as i128, SCALE),
        )
    }
}

/// The first coordinate of a cross product, before construction.
pub open spec fn spec_cross_x(a: Tuple, b: Tuple) -> int {
    tdiv(a.y * b.z - a.z * b.y, SCALE as int)
}

/// The second coordinate of a cross product, before construction.
pub open spec fn spec_cross_y(a: Tuple, b: Tuple) -> int {
    tdiv(a.z * b.x - a.x * b.z, SCALE as int)
}

/// The third coordinate of a cross product, before construction.
pub open spec fn spec_cross_z(a: Tuple, b: Tuple) -> int {
    tdiv(a.x * b.y - a.y * b.x, SCALE as int)
}

/// A square of a coordinate within the accepted bound stays under the square
/// of the bound.
proof fn lemma_square_of_bounded(c: int, s: int)
    requires
        abs_val(c) <= MAX_COORD,
        s == c * c,
    ensures
        0 <= s <= (MAX_COORD as int) * (MAX_COORD as int),
{
    assert(0 <= c * c <= (MAX_COORD as int) * (MAX_COORD as int)) by (nonlinear_arith)
        requires
            -(MAX_COORD as int) <= c <= MAX_COORD as int,
    ;
}

/// A product of two coordinates within the accepted bound stays under the
/// square of the bound.
proof fn lemma_product_of_bounded(a: int, b: int)
    ensures
        abs_val(a) <= MAX_COORD && abs_val(b) <= MAX_COORD ==> -((MAX_COORD as int)
            * (MAX_COORD as int)) <= a * b <= (MAX_COORD as int) * (MAX_COORD as int),
{
    if abs_val(a) <= MAX_COORD && abs_val(b) <= MAX_COORD {
        assert(-((MAX_COORD as int) * (MAX_COORD as int)) <= a * b <= (MAX_COORD as int) * (
        MAX_COORD as int)) by (nonlinear_arith)
            requires
                -(MAX_COORD as int) <= a <= MAX_COORD as int,
                -(MAX_COORD as int) <= b <= MAX_COORD as int,
        ;
    }
}

/// Every component of a tuple is bounded in magnitude by the rounded-down
/// square root of the tuple's squared norm, which is at least one when the
/// squared norm is positive.
pub(crate) proof fn lemma_components_le_root(t: Tuple, m: int)
    requires
        t.mag_sq() > 0,
        is_sqrt_floor(t.mag_sq(), m),
    ensures
        m >= 1,
        abs_val(t.x as int) <= m,
        abs_val(t.y as int) <= m,
        abs_val(t.z as int) <= m,
        abs_val(t.w as int) <= m,
{
    let s = t.mag_sq();
    if m == 0 {
        assert(s < 1) by (nonlinear_arith)
            requires
                m == 0,
                s < (m + 1) * (m + 1),
        ;
        assert(false);
    }
    lemma_component_le_root(t.x as int, t.y as int, t.z as int, t.w as int, m);
    lemma_component_le_root(t.y as int, t.x as int, t.z as int, t.w as int, m);
    lemma_component_le_root(t.z as int, t.y as int, t.x as int, t.w as int, m);
    lemma_component_le_root(t.w as int, t.y as int, t.z as int, t.x as int, m);
}

/// One coordinate against the root of the sum of squares.
proof fn lemma_component_le_root(c: int, p: int, q: int, r: int, m: int)
    requires
        m >= 0,
        c * c + p * p + q * q + r * r < (m + 1) * (m + 1),
    ensures
        abs_val(c) <= m,
{
    assert(-m <= c <= m) by (nonlinear_arith)
        requires
            m >= 0,
            c * c + p * p + q * q + r * r < (m + 1) * (m + 1),
    ;
}

/// Whether `n` is `t` normalized: every component of `t` divided by `t`'s
/// magnitude, `w` included.
pub open spec fn is_normalized_of(n: Tuple, t: Tuple) -> bool {
    &&& n.x == scale_div(t.x as int, sqrt_floor(t.mag_sq()))
    &&& n.y == scale_div(t.y as int, sqrt_floor(t.mag_sq()))
    &&& n.z == scale_div(t.z as int, sqrt_floor(t.mag_sq()))
    &&& n.w == scale_div(t.w as int, sqrt_floor(t.mag_sq()))
}

/// Whether `r` is the component-wise negation of `t`, `w` included.
pub open spec fn is_neg_of(r: Tuple, t: Tuple) -> bool {
    &&& r.x == -t.x
    &&& r.y == -t.y
    &&& r.z == -t.z
    &&& r.w == -t.w
}

} // verus!
