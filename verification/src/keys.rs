use vstd::prelude::*;

verus! {

/// Hardware key codes of the keys that the viewer reacts to.
pub const H: u16 = 43;

pub const L: u16 = 46;

pub const J: u16 = 44;

pub const K: u16 = 45;

pub const F: u16 = 41;

pub const T: u16 = 28;

pub const A: u16 = 38;

pub const S: u16 = 39;

pub const D: u16 = 40;

pub const W: u16 = 25;

pub const Q: u16 = 24;

pub const E: u16 = 26;

pub const P: u16 = 33;

pub const M: u16 = 58;

pub const X: u16 = 53;

pub const V: u16 = 55;

} // verus!
