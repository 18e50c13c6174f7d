use vstd::prelude::*;

verus! {

/// Width of the viewport in pixels.
pub const WIDTH: usize = 800;

/// Height of the viewport in pixels.
pub const HEIGHT: usize = 600;

/// Depth of a pixel that nothing has been drawn on: farther than any drawn depth.
pub const MIN_Z: i64 = -0x8000_0000_0000_0000;

/// Packed colour of a pixel that nothing has been drawn on.
pub const DEFAULT_COLOR: u32 = 0x1E1E1EFF;

/// Packed colour of the muscle mesh.
pub const MUSCLE_COLOR: u32 = 0xCC0000FF;

/// Packed colour of the carcass mesh.
pub const CARCASS_COLOR: u32 = 0xCCCCCCFF;

/// Raw brightness of a surface that faces away from the light (0.6).
pub const ZERO_BRIGHTNESS: i64 = 39322;

/// Raw range of brightness that the lighting term adds (0.4).
pub const BRIGHTNESS_RANGE: i64 = 26214;

/// Raw threshold on the depth component of a normal below which a vertex
/// counts as turned away from the camera (-0.2).
pub const NEGATIVE_Z_PROJECTION: i64 = -13107;

/// Raw angle in radians of one rotation step (0.1).
pub const ROTATE_VAL: i64 = 6554;

/// Raw distance of one movement step (5.0).
pub const MOVE_VAL: i64 = 327680;

/// Raw factor of one step of enlargement (1.25).
pub const SCALE_VAL: i64 = 81920;

/// Raw factor of one step of reduction, the inverse of `SCALE_VAL` (0.8).
pub const SCALE_BACK_VAL: i64 = 52429;

/// Raw change of length of one step of deformation (2.0).
pub const ATOM_DIFF: i64 = 131072;

/// Raw components of the direction from which the light comes, a unit vector.
pub const LIGHT_SOURCE_X: i64 = 37837;

pub const LIGHT_SOURCE_Y: i64 = -37837;

pub const LIGHT_SOURCE_Z: i64 = -37837;

} // verus!
