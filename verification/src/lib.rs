//! A procedural mesh generator for six parametric primitives: plane, disk,
//! cube, sphere, cylinder and tube.
//!
//! Given a shape selector and a few numeric parameters, the generator
//! deterministically produces a flat, scale-applied, triangle-list vertex
//! buffer together with its triangle count, and can serialize such a buffer
//! into a minimal face/vertex text format.
//!
//! Coordinates are kept in exact symbolic form (see [`frac`] and [`scalar`]):
//! rational numbers for grid geometry, and rational coefficients attached to
//! trigonometric or sphere-normalizing terms for the round shapes. A renderer
//! evaluates these symbols to machine floats; everything up to that final
//! evaluation is specified and verified exactly.

pub mod cube;
pub mod cylinder;
pub mod disk;
pub mod export;
pub mod frac;
pub mod plane;
pub mod scalar;
pub mod shapes;
pub mod sphere;
pub mod tube;
