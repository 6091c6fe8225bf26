use tracer_tuples::fixed::EPSILON;
use tracer_tuples::fixed::MAX_COORD;
use tracer_tuples::fixed::MIN_NORM_MAG;
use tracer_tuples::fixed::SCALE;
use tracer_tuples::tuple::Tuple;

/// Fixed-point units for a real value.
fn u(v: f64) -> i64 {
    (v * 1_000_000_000.0).round() as i64
}

#[test]
fn classification_is_exclusive() {
    let point = Tuple::new_point(0, u(-123.25), u(7.5));
    assert!(point.is_point());
    assert!(!point.is_vector());

    let vector = Tuple::new_vector(0, u(-123.25), u(7.5));
    assert!(vector.is_vector());
    assert!(!vector.is_point());

    // A drifted discriminant reads as neither.
    let drifted = point.add(&point);
    assert_eq!(drifted.w, 2 * SCALE);
    assert!(!drifted.is_point());
    assert!(!drifted.is_vector());
}

#[test]
fn spatial_equality_reflexive_and_symmetric() {
    let a = Tuple::new_point(u(0.1), u(-0.2), u(0.3));
    let b = Tuple::new_vector(u(0.1) + 999, u(-0.2), u(0.3));
    assert!(a.is_equal_to(&a));
    assert!(a.is_equal_to(&b));
    assert!(b.is_equal_to(&a));

    // One more unit of difference crosses the tolerance.
    let c = Tuple::new_vector(u(0.1) + 1000, u(-0.2), u(0.3));
    assert!(!a.is_equal_to(&c));
    assert!(!c.is_equal_to(&a));
}

#[test]
fn negation_is_involutive() {
    let t = Tuple { x: u(12345.875), y: -1, z: 0, w: u(-2.5) };
    let back = t.neg().neg();
    assert_eq!(back.x, t.x);
    assert_eq!(back.y, t.y);
    assert_eq!(back.z, t.z);
    assert_eq!(back.w, t.w);
}

#[test]
fn scaling_truncates_toward_zero() {
    // Half a unit is dropped, on either side of zero.
    let t = Tuple { x: 1, y: 3, z: -3, w: 0 };
    let scaled = t.mul(u(0.5));
    assert_eq!(scaled.x, 0);
    assert_eq!(scaled.y, 1);
    assert_eq!(scaled.z, -1);
    assert_eq!(scaled.w, 0);

    let divided = t.div(u(2.0));
    assert_eq!(divided.x, 0);
    assert_eq!(divided.y, 1);
    assert_eq!(divided.z, -1);
    assert_eq!(divided.w, 0);
}

#[test]
fn magnitude_ignores_sign_and_handles_extremes() {
    let v = Tuple::new_vector(u(8.25), u(-11.0), u(0.5));
    let n = v.neg();
    assert_eq!(v.magnitude(), n.magnitude());

    assert_eq!(Tuple::new_vector(0, 0, 0).magnitude(), 0);
    assert_eq!(Tuple::new_vector(MAX_COORD, 0, 0).magnitude(), MAX_COORD);
}

#[test]
fn magnitude_counts_the_discriminant() {
    // A point's w enters the norm: |point(1,0,0)| = sqrt(2).
    let p = Tuple::new_point(u(1.0), 0, 0);
    assert!((p.magnitude() - u(2.0_f64.sqrt())).abs() < EPSILON);
}

#[test]
fn normalize_unit_magnitude_at_minimum_length() {
    let shortest = Tuple::new_vector(MIN_NORM_MAG, 0, 0);
    assert!((shortest.normalize().magnitude() - SCALE).abs() < EPSILON);

    let slanted = Tuple::new_vector(u(0.006), u(-0.006), u(0.006));
    assert!((slanted.normalize().magnitude() - SCALE).abs() < EPSILON);

    let long = Tuple::new_vector(u(-250.5), u(31.25), u(17.125));
    assert!((long.normalize().magnitude() - SCALE).abs() < EPSILON);
}

#[test]
fn dot_product_is_commutative_and_counts_w() {
    let a = Tuple::new_vector(u(0.1), u(-2.25), u(3.5));
    let b = Tuple::new_vector(u(1.5), u(2.5), u(-3.125));
    assert_eq!(a.dot_product(&b), b.dot_product(&a));

    // Two points: the w components contribute 1.0 to the product.
    let p = Tuple::new_point(u(1.0), 0, 0);
    let q = Tuple::new_point(u(1.0), 0, 0);
    assert_eq!(p.dot_product(&q), u(2.0));
}

#[test]
fn cross_product_is_anticommutative_and_yields_vectors() {
    let a = Tuple::new_vector(u(0.5), u(-1.25), u(2.75));
    let b = Tuple::new_vector(u(-3.5), u(4.0), u(0.125));
    let ab = a.cross_product(&b);
    let ba = b.cross_product(&a);
    assert_eq!(ab.x, -ba.x);
    assert_eq!(ab.y, -ba.y);
    assert_eq!(ab.z, -ba.z);
    assert!(ab.is_vector());
    assert!(ba.is_vector());
}

#[test]
fn default_is_the_zero_vector() {
    let t = Tuple::default();
    assert_eq!(t.x, 0);
    assert_eq!(t.y, 0);
    assert_eq!(t.z, 0);
    assert_eq!(t.w, 0);
    assert!(t.is_vector());
}
