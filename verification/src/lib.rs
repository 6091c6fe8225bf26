//! Fixed-point tuples for a ray tracer.
//!
//! A `Tuple` is a four-component homogeneous coordinate `(x, y, z, w)` that
//! represents either a 3-D point (`w == SCALE`) or a 3-D direction vector
//! (`w == 0`).  Coordinates are decimal fixed-point values: an `i64` counts
//! units of one billionth, so `SCALE` units stand for `1.0`.  Every
//! arithmetic and geometric operation is specified exactly over the
//! mathematical integers and verified.

pub mod fixed;
pub mod tuple;
pub mod laws;
