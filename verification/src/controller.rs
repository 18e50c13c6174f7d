use vstd::prelude::*;
use crate::constants::{
    ATOM_DIFF, HEIGHT, LIGHT_SOURCE_X, LIGHT_SOURCE_Y, LIGHT_SOURCE_Z, MOVE_VAL, ROTATE_VAL,
    SCALE_BACK_VAL, SCALE_VAL, WIDTH,
};
use crate::fixed::{Fixed, ONE};
use crate::keys::{A, D, E, F, H, J, K, L, M, P, Q, S, T, V, W, X};
use crate::matrix::{identity_entries, moved, Matrix4, Transformator};
use crate::primitives::{Axis, Vec3d};

verus! {

/// A change of the view transform.
#[derive(Clone, Copy, Debug, PartialEq, Eq, Structural)]
pub enum Operation {
    Scale,
    Rotate(Axis),
    Move(Axis),
}

/// What a key asks for.
#[derive(Clone, Copy, Debug, PartialEq, Eq, Structural)]
pub enum KeyCommand {
    /// Change the view transform by the operation with the given amount: a
    /// factor, an angle in radians or a distance.
    Transform(Operation, Fixed),
    /// Change the length of the model by the given amount.
    Deform(Fixed),
    /// The key has no meaning.
    Unknown,
}

/// The command that belongs to a key code.
pub open spec fn command_of(key: u16) -> KeyCommand {
    if key == H {
        KeyCommand::Transform(Operation::Rotate(Axis::Y), Fixed { raw: ROTATE_VAL })
    } else if key == L {
        KeyCommand::Transform(Operation::Rotate(Axis::Y), Fixed { raw: (-ROTATE_VAL) as i64 })
    } else if key == J {
        KeyCommand::Transform(Operation::Rotate(Axis::X), Fixed { raw: ROTATE_VAL })
    } else if key == K {
        KeyCommand::Transform(Operation::Rotate(Axis::X), Fixed { raw: (-ROTATE_VAL) as i64 })
    } else if key == F {
        KeyCommand::Transform(Operation::Rotate(Axis::Z), Fixed { raw: ROTATE_VAL })
    } else if key == T {
        KeyCommand::Transform(Operation::Rotate(Axis::Z), Fixed { raw: (-ROTATE_VAL) as i64 })
    } else if key == A {
        KeyCommand::Transform(Operation::Move(Axis::X), Fixed { raw: (-MOVE_VAL) as i64 })
    } else if key == D {
        KeyCommand::Transform(Operation::Move(Axis::X), Fixed { raw: MOVE_VAL })
    } else if key == S {
        KeyCommand::Transform(Operation::Move(Axis::Y), Fixed { raw: MOVE_VAL })
    } else if key == W {
        KeyCommand::Transform(Operation::Move(Axis::Y), Fixed { raw: (-MOVE_VAL) as i64 })
    } else if key == Q {
        KeyCommand::Transform(Operation::Move(Axis::Z), Fixed { raw: MOVE_VAL })
    } else if key == E {
        KeyCommand::Transform(Operation::Move(Axis::Z), Fixed { raw: (-MOVE_VAL) as i64 })
    } else if key == P {
        KeyCommand::Transform(Operation::Scale, Fixed { raw: SCALE_VAL })
    } else if key == M {
        KeyCommand::Transform(Operation::Scale, Fixed { raw: SCALE_BACK_VAL })
    } else if key == X {
        KeyCommand::Deform(Fixed { raw: (-ATOM_DIFF) as i64 })
    } else if key == V {
        KeyCommand::Deform(Fixed { raw: ATOM_DIFF })
    } else {
        KeyCommand::Unknown
    }
}

/// Decides what a pressed key asks for.
pub fn key_command(key: u16) -> (r: KeyCommand)
    ensures
        r == command_of(key),
{
    if key == H {
        KeyCommand::Transform(Operation::Rotate(Axis::Y), Fixed { raw: ROTATE_VAL })
    } else if key == L {
        KeyCommand::Transform(Operation::Rotate(Axis::Y), Fixed { raw: -ROTATE_VAL })
    } else if key == J {
        KeyCommand::Transform(Operation::Rotate(Axis::X), Fixed { raw: ROTATE_VAL })
    } else if key == K {
        KeyCommand::Transform(Operation::Rotate(Axis::X), Fixed { raw: -ROTATE_VAL })
    } else if key == F {
        KeyCommand::Transform(Operation::Rotate(Axis::Z), Fixed { raw: ROTATE_VAL })
    } else if key == T {
        KeyCommand::Transform(Operation::Rotate(Axis::Z), Fixed { raw: -ROTATE_VAL })
    } else if key == A {
        KeyCommand::Transform(Operation::Move(Axis::X), Fixed { raw: -MOVE_VAL })
    } else if key == D {
        KeyCommand::Transform(Operation::Move(Axis::X), Fixed { raw: MOVE_VAL })
    } else if key == S {
        KeyCommand::Transform(Operation::Move(Axis::Y), Fixed { raw: MOVE_VAL })
    } else if key == W {
        KeyCommand::Transform(Operation::Move(Axis::Y), Fixed { raw: -MOVE_VAL })
    } else if key == Q {
        KeyCommand::Transform(Operation::Move(Axis::Z), Fixed { raw: MOVE_VAL })
    } else if key == E {
        KeyCommand::Transform(Operation::Move(Axis::Z), Fixed { raw: -MOVE_VAL })
    } else if key == P {
        KeyCommand::Transform(Operation::Scale, Fixed { raw: SCALE_VAL })
    } else if key == M {
        KeyCommand::Transform(Operation::Scale, Fixed { raw: SCALE_BACK_VAL })
    } else if key == X {
        KeyCommand::Deform(Fixed { raw: -ATOM_DIFF })
    } else if key == V {
        KeyCommand::Deform(Fixed { raw: ATOM_DIFF })
    } else {
        KeyCommand::Unknown
    }
}

/// The view transform that a viewer starts with: the origin of the model lies in
/// the middle of the screen.
pub fn initial_view() -> (r: Matrix4)
    ensures
        r@ == moved(
            moved(identity_entries(), (WIDTH / 2) * ONE, Axis::X),
            (HEIGHT / 2) * ONE,
            Axis::Y,
        ),
{
    let mut matrix = Matrix4::identity();
    matrix.mov(Fixed { raw: ((WIDTH / 2) as i64) * ONE }, Axis::X);
    matrix.mov(Fixed { raw: ((HEIGHT / 2) as i64) * ONE }, Axis::Y);
    matrix
}

/// The direction from which the light comes.
pub fn light_source_direction() -> (r: Vec3d)
    ensures
        r.x@ == LIGHT_SOURCE_X && r.y@ == LIGHT_SOURCE_Y && r.z@ == LIGHT_SOURCE_Z,
{
    Vec3d {
        x: Fixed { raw: LIGHT_SOURCE_X },
        y: Fixed { raw: LIGHT_SOURCE_Y },
        z: Fixed { raw: LIGHT_SOURCE_Z },
    }
}

} // verus!
