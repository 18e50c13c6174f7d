use vstd::prelude::*;
use crate::fixed::{
    integer_sqrt, narrow, nearest_integer, quotient, root, saturate, scaled_product,
    wide_product, Fixed, ONE,
};

verus! {

/// A placeholder for a polygon of a mesh.
pub struct Polygon;

impl Polygon {
    pub fn new() -> (r: Self)
        ensures
            r == Polygon,
    {
        Polygon
    }
}

/// The three coordinate axes.
#[derive(Clone, Copy, Debug, PartialEq, Eq, Structural)]
pub enum Axis {
    X,
    Y,
    Z,
}

/// A position in the current coordinate space.
#[derive(Clone, Copy, Debug, PartialEq, Eq, Structural)]
pub struct Point3d {
    pub x: Fixed,
    pub y: Fixed,
    pub z: Fixed,
}

impl Point3d {
    pub fn new(x: Fixed, y: Fixed, z: Fixed) -> (r: Self)
        ensures
            r == (Point3d { x, y, z }),
    {
        Point3d { x, y, z }
    }
}

impl Default for Point3d {
    fn default() -> (r: Self)
        ensures
            r.x@ == 0 && r.y@ == 0 && r.z@ == 0,
    {
        Point3d { x: Fixed { raw: 0 }, y: Fixed { raw: 0 }, z: Fixed { raw: 0 } }
    }
}

/// The scanline nearest to a raw vertical coordinate, kept within 32 bits.
pub open spec fn scanline_of(y: int) -> int {
    let r = nearest_integer(y);
    if r < i32::MIN as int {
        i32::MIN as int
    } else if r > i32::MAX as int {
        i32::MAX as int
    } else {
        r
    }
}

/// A screen vertex: its vertical coordinate is a scanline index.
#[derive(Clone, Copy, Debug, PartialEq, Eq, Structural)]
pub struct IntYPoint3d {
    pub x: Fixed,
    pub y: i32,
    pub z: Fixed,
}

impl IntYPoint3d {
    /// Rounds the vertical coordinate of `point` to its scanline.
    pub fn from(point: Point3d) -> (r: Self)
        ensures
            r.x == point.x,
            r.z == point.z,
            r.y == scanline_of(point.y@),
    {
        let row: i64 = point.y.round();
        let y: i32 = if row < i32::MIN as i64 {
            i32::MIN
        } else if row > i32::MAX as i64 {
            i32::MAX
        } else {
            row as i32
        };
        IntYPoint3d { x: point.x, y, z: point.z }
    }
}

/// Sum of the squares of three raw components.
pub open spec fn square_sum(x: int, y: int, z: int) -> int {
    x * x + y * y + z * z
}

/// Raw length of the vector with the given raw components.
pub open spec fn length_of(x: int, y: int, z: int) -> int {
    saturate(root(square_sum(x, y, z)))
}

/// A raw component divided by a raw length; a zero length leaves it as it is.
pub open spec fn unit_component(c: int, len: int) -> int {
    if len == 0 {
        c
    } else {
        saturate(quotient(c * ONE, len))
    }
}

/// The vector scaled to unit length; a vector of length zero is left as it is.
pub open spec fn unit(v: Vec3d) -> Vec3d {
    let len = length_of(v.x@, v.y@, v.z@);
    Vec3d {
        x: Fixed { raw: unit_component(v.x@, len) as i64 },
        y: Fixed { raw: unit_component(v.y@, len) as i64 },
        z: Fixed { raw: unit_component(v.z@, len) as i64 },
    }
}

/// The vector that leads from `p1` to `p2`.
pub open spec fn vector_between(p1: Point3d, p2: Point3d) -> Vec3d {
    Vec3d {
        x: Fixed { raw: saturate(p2.x@ - p1.x@) as i64 },
        y: Fixed { raw: saturate(p2.y@ - p1.y@) as i64 },
        z: Fixed { raw: saturate(p2.z@ - p1.z@) as i64 },
    }
}

/// A direction.
#[derive(Clone, Copy, Debug, PartialEq, Eq, Structural)]
pub struct Vec3d {
    pub x: Fixed,
    pub y: Fixed,
    pub z: Fixed,
}

impl Vec3d {
    pub fn new(x: Fixed, y: Fixed, z: Fixed) -> (r: Self)
        ensures
            r == (Vec3d { x, y, z }),
    {
        Vec3d { x, y, z }
    }

    /// The vector that leads from `p1` to `p2`.
    pub fn from_pts(p1: &Point3d, p2: &Point3d) -> (r: Self)
        ensures
            r == vector_between(*p1, *p2),
    {
        Vec3d { x: p2.x.minus(p1.x), y: p2.y.minus(p1.y), z: p2.z.minus(p1.z) }
    }

    /// Scales the vector to unit length. A vector of length zero is left unchanged.
    pub fn normalize(&mut self)
        ensures
            *final(self) == unit(*old(self)),
    {
        let len = self.len();
        if len.raw != 0 {
            self.x = self.x.over(len);
            self.y = self.y.over(len);
            self.z = self.z.over(len);
        }
    }

    /// The Euclidean length of the vector.
    pub fn len(&self) -> (r: Fixed)
        ensures
            r@ == length_of(self.x@, self.y@, self.z@),
    {
        let xx: u128 = square(self.x.raw);
        let yy: u128 = square(self.y.raw);
        let zz: u128 = square(self.z.raw);
        let r: u64 = integer_sqrt(xx + yy + zz);
        narrow(r as i128)
    }

    /// Component-wise saturating sum.
    pub fn add(&self, other: &Self) -> (r: Self)
        ensures
            r.x@ == saturate(self.x@ + other.x@),
            r.y@ == saturate(self.y@ + other.y@),
            r.z@ == saturate(self.z@ + other.z@),
    {
        Vec3d { x: self.x.plus(other.x), y: self.y.plus(other.y), z: self.z.plus(other.z) }
    }

    /// The dot product of two vectors.
    pub fn scalar_mul(&self, other: &Self) -> (r: Fixed)
        ensures
            r@ == dot_of(*self, *other),
    {
        let s: i128 = wide_product(self.x, other.x) + wide_product(self.y, other.y)
            + wide_product(self.z, other.z);
        narrow(s)
    }
}

/// Raw dot product of two vectors: the three rescaled products are summed, then saturated.
pub open spec fn dot_of(a: Vec3d, b: Vec3d) -> int {
    saturate(
        scaled_product(a.x@, b.x@) + scaled_product(a.y@, b.y@) + scaled_product(a.z@, b.z@),
    )
}

/// The square of a raw component.
fn square(v: i64) -> (r: u128)
    ensures
        r == v * v,
        r <= 0x4000_0000_0000_0000_0000_0000_0000_0000,
{
    let x: i128 = v as i128;
    assert(0 <= x * x <= 0x4000_0000_0000_0000_0000_0000_0000_0000) by (nonlinear_arith)
        requires
            -0x8000_0000_0000_0000 <= x <= 0x8000_0000_0000_0000,
    ;
    (x * x) as u128
}

impl Default for Vec3d {
    fn default() -> (r: Self)
        ensures
            r.x@ == 0 && r.y@ == 0 && r.z@ == 0,
    {
        Vec3d { x: Fixed { raw: 0 }, y: Fixed { raw: 0 }, z: Fixed { raw: 0 } }
    }
}

/// A direction in the plane.
#[derive(Clone, Copy, Debug, PartialEq, Eq, Structural)]
pub struct Vec2d {
    pub x: Fixed,
    pub y: Fixed,
}

impl Vec2d {
    pub fn new(x: Fixed, y: Fixed) -> (r: Self)
        ensures
            r == (Vec2d { x, y }),
    {
        Vec2d { x, y }
    }
}

/// The step per scanline that leads from raw value `from` to `to` in `rows` scanlines.
/// An edge without height has step zero.
pub open spec fn step_between(from: int, to: int, rows: int) -> int {
    if rows == 0 {
        0
    } else {
        saturate(quotient(saturate(to - from), rows))
    }
}

/// One edge of a trapezoid while it is scanned: the values on the current scanline
/// and what each further scanline adds to them.
#[derive(Clone, Copy, Debug, PartialEq, Eq, Structural)]
pub struct Section {
    pub y_start: i32,
    pub y_end: i32,
    pub x_start: Fixed,
    pub x_step: Fixed,
    pub z_start: Fixed,
    pub z_step: Fixed,
    pub br_start: Fixed,
    pub br_step: Fixed,
}

/// The edge that leads from `from` to `to`, with the brightness at both ends.
pub open spec fn section_between(
    from: IntYPoint3d,
    to: IntYPoint3d,
    from_br: Fixed,
    to_br: Fixed,
) -> Section {
    Section {
        y_start: from.y,
        y_end: to.y,
        x_start: from.x,
        x_step: Fixed { raw: step_between(from.x@, to.x@, to.y - from.y) as i64 },
        z_start: from.z,
        z_step: Fixed { raw: step_between(from.z@, to.z@, to.y - from.y) as i64 },
        br_start: from_br,
        br_step: Fixed { raw: step_between(from_br@, to_br@, to.y - from.y) as i64 },
    }
}

/// The step per scanline between two scalars over `rows` scanlines.
pub fn step_over(from: Fixed, to: Fixed, rows: i64) -> (r: Fixed)
    ensures
        r@ == step_between(from@, to@, rows as int),
{
    if rows == 0 {
        Fixed { raw: 0 }
    } else {
        to.minus(from).over_int(rows)
    }
}

impl Section {
    pub fn new(from: &IntYPoint3d, to: &IntYPoint3d, from_br: Fixed, to_br: Fixed) -> (r: Self)
        ensures
            r == section_between(*from, *to, from_br, to_br),
    {
        let diff_y: i64 = to.y as i64 - from.y as i64;
        Section {
            y_start: from.y,
            y_end: to.y,
            x_start: from.x,
            x_step: step_over(from.x, to.x, diff_y),
            z_start: from.z,
            z_step: step_over(from.z, to.z, diff_y),
            br_start: from_br,
            br_step: step_over(from_br, to_br, diff_y),
        }
    }
}

} // verus!
