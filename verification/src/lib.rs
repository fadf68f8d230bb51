//! Projection of a three-dimensional grid onto a centred, uniformly scaled
//! cloud of points.
//!
//! A grid of `W x H x D` cells yields one point per cell. The point of cell
//! `(x, y, z)` is `((x, y, z) - (W/2, H/2, D/2)) * (scale / min(W, H, D))`.
//! This crate computes the part of that formula that is exact: the offsets
//! `(2x - W, 2y - H, 2z - D)`, counted in half cells, together with the
//! smallest axis length, in the grid's own order (`x` outermost, `z`
//! innermost). Scaling an offset to a rendered coordinate is left to the
//! caller, because it rounds.
//!
//! The `scale` and `radius` parameters are carried as IEEE 754 binary32 bit
//! patterns, so that they can be validated without rounding as well.

pub mod params;
pub mod shape;
pub mod lattice;
pub mod project;
pub mod laws;

pub use lattice::{LatticePoint, Offset};
pub use params::{is_positive_finite, ProjectionParams};
pub use project::{lattice_point, project, PointCloud, Projection, ProjectionError};
pub use shape::{Dims, Shape};
