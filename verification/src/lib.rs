//! A software renderer for meshes made of triangle strips.
//!
//! A mesh is transformed by a matrix in homogeneous coordinates, lit per vertex,
//! culled and drawn triangle by triangle with a scanline rasterizer that keeps
//! a depth buffer and interpolates depth and brightness along each scanline.
//! All arithmetic is done on fixed-point scalars with sixteen fractional bits
//! and saturates at the ends of their range, so that no operation overflows.
//!
//! What a drawing function does to a frame buffer is stated over the sequence
//! of fragments that it offers to the buffer: see `buffer::paint` and the
//! functions of `cg` that end in `_fragments`. The module `laws` proves what
//! holds of every drawing.

pub mod buffer;
pub mod cg;
pub mod constants;
pub mod controller;
pub mod fixed;
pub mod keys;
pub mod laws;
pub mod matrix;
pub mod nodes;
pub mod primitives;
pub mod utils;

pub use buffer::{clear_buffers, flush, FrameBuffer};
pub use cg::transform_and_add;
pub use fixed::Fixed;
pub use matrix::{Matrix4, Transformator};
pub use primitives::{Axis, IntYPoint3d, Point3d, Polygon, Section, Vec2d, Vec3d};
pub use utils::cycle_extend;
