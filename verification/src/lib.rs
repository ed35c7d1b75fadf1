//! The decision core of a recursive Monte-Carlo ray tracer.
//!
//! Everything a path tracer decides, as opposed to what it computes in
//! single-precision arithmetic, lives here: how two numbers compare, which
//! root of a sphere's quadratic counts as the crossing, which member of a
//! scene is struck first, whether a material scatters or absorbs, when a
//! light path is cut off, in which order pixels are visited and how the
//! finished raster is written down.
//!
//! Numbers cross the boundary as bit patterns (`Scalar`), so the caller
//! keeps the arithmetic and this crate keeps the control.

pub mod hitable_list;
pub mod integrator;
pub mod material;
pub mod ppm;
pub mod raster;
pub mod sampling;
pub mod scalar;
pub mod scene;
pub mod sphere;
