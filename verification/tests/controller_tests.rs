use muscle::constants::{
    ATOM_DIFF, LIGHT_SOURCE_X, LIGHT_SOURCE_Y, LIGHT_SOURCE_Z, MOVE_VAL, ROTATE_VAL,
    SCALE_BACK_VAL, SCALE_VAL,
};
use muscle::controller::{
    initial_view, key_command, light_source_direction, KeyCommand, Operation,
};
use muscle::fixed::Fixed;
use muscle::keys;
use muscle::matrix::Transformator;
use muscle::nodes::{change_allowed, NodeChange};
use muscle::primitives::{Axis, Point3d};

fn raw(v: i64) -> Fixed {
    Fixed::from_raw(v)
}

#[test]
fn key_codes() {
    assert_eq!(
        [keys::H, keys::L, keys::J, keys::K, keys::F, keys::T],
        [43, 46, 44, 45, 41, 28]
    );
    assert_eq!(
        [keys::A, keys::S, keys::D, keys::W, keys::Q, keys::E],
        [38, 39, 40, 25, 24, 26]
    );
    assert_eq!([keys::P, keys::M, keys::X, keys::V], [33, 58, 53, 55]);
}

#[test]
fn step_sizes() {
    assert_eq!(ROTATE_VAL, 6554);
    assert_eq!(MOVE_VAL, 5 * 65536);
    assert_eq!(SCALE_VAL, 65536 + 16384);
    assert_eq!(SCALE_BACK_VAL, 52429);
    assert_eq!(ATOM_DIFF, 2 * 65536);
    assert_eq!(raw(SCALE_VAL).times(raw(SCALE_BACK_VAL)).raw, 65536);
}

#[test]
fn rotation_keys() {
    let rotate = |axis, v| KeyCommand::Transform(Operation::Rotate(axis), raw(v));
    assert_eq!(key_command(keys::H), rotate(Axis::Y, 6554));
    assert_eq!(key_command(keys::L), rotate(Axis::Y, -6554));
    assert_eq!(key_command(keys::J), rotate(Axis::X, 6554));
    assert_eq!(key_command(keys::K), rotate(Axis::X, -6554));
    assert_eq!(key_command(keys::F), rotate(Axis::Z, 6554));
    assert_eq!(key_command(keys::T), rotate(Axis::Z, -6554));
}

#[test]
fn movement_keys() {
    let shift = |axis, v| KeyCommand::Transform(Operation::Move(axis), raw(v));
    assert_eq!(key_command(keys::A), shift(Axis::X, -327680));
    assert_eq!(key_command(keys::D), shift(Axis::X, 327680));
    assert_eq!(key_command(keys::S), shift(Axis::Y, 327680));
    assert_eq!(key_command(keys::W), shift(Axis::Y, -327680));
    assert_eq!(key_command(keys::Q), shift(Axis::Z, 327680));
    assert_eq!(key_command(keys::E), shift(Axis::Z, -327680));
}

#[test]
fn scaling_and_deforming_keys() {
    assert_eq!(key_command(keys::P), KeyCommand::Transform(Operation::Scale, raw(81920)));
    assert_eq!(key_command(keys::M), KeyCommand::Transform(Operation::Scale, raw(52429)));
    assert_eq!(key_command(keys::X), KeyCommand::Deform(raw(-131072)));
    assert_eq!(key_command(keys::V), KeyCommand::Deform(raw(131072)));
}

#[test]
fn other_keys_mean_nothing() {
    let known = [43, 46, 44, 45, 41, 28, 38, 39, 40, 25, 24, 26, 33, 58, 53, 55];
    let mut unknown = 0;
    for key in 0..=u16::MAX {
        if known.contains(&key) {
            assert_ne!(key_command(key), KeyCommand::Unknown);
        } else {
            assert_eq!(key_command(key), KeyCommand::Unknown);
            unknown += 1;
        }
    }
    assert_eq!(unknown, 65536 - 16);
}

#[test]
fn initial_view_puts_the_origin_in_the_middle() {
    let m = initial_view();
    let mut p = Point3d::default();
    m.apply_to_point(&mut p);
    assert_eq!(p, Point3d::new(Fixed::from_int(400), Fixed::from_int(300), Fixed::from_int(0)));
    let mut q = Point3d::new(Fixed::from_int(-1), Fixed::from_int(2), Fixed::from_int(3));
    m.apply_to_point(&mut q);
    assert_eq!(q, Point3d::new(Fixed::from_int(399), Fixed::from_int(302), Fixed::from_int(3)));
}

#[test]
fn light_comes_from_a_unit_direction() {
    let l = light_source_direction();
    assert_eq!((l.x.raw, l.y.raw, l.z.raw), (37837, -37837, -37837));
    assert_eq!((LIGHT_SOURCE_X, LIGHT_SOURCE_Y, LIGHT_SOURCE_Z), (37837, -37837, -37837));
    let len = l.len().raw;
    assert!((65536 - len).abs() <= 2);
}

#[test]
fn nodes_can_be_added_up_to_the_end() {
    assert!(change_allowed(NodeChange::Add, 0, 0));
    assert!(change_allowed(NodeChange::Add, 0, 4));
    assert!(change_allowed(NodeChange::Add, 4, 4));
    assert!(!change_allowed(NodeChange::Add, 5, 4));
    assert!(!change_allowed(NodeChange::Add, usize::MAX, 4));
}

#[test]
fn only_nodes_of_the_chain_can_be_changed() {
    assert!(change_allowed(NodeChange::Mod, 0, 1));
    assert!(change_allowed(NodeChange::Mod, 3, 4));
    assert!(!change_allowed(NodeChange::Mod, 4, 4));
    assert!(!change_allowed(NodeChange::Mod, 0, 0));
}

#[test]
fn nodes_can_be_deleted_while_two_stay() {
    assert!(change_allowed(NodeChange::Del, 0, 3));
    assert!(change_allowed(NodeChange::Del, 2, 3));
    assert!(!change_allowed(NodeChange::Del, 3, 3));
    assert!(!change_allowed(NodeChange::Del, 0, 2));
    assert!(!change_allowed(NodeChange::Del, 1, 2));
    assert!(!change_allowed(NodeChange::Del, 0, 0));
    assert!(change_allowed(NodeChange::Del, 9, 10));
}
