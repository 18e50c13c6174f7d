use vstd::prelude::*;
use crate::fixed::{narrow, saturate, scaled_product, wide_product, Fixed, ONE};
use crate::primitives::{Axis, Point3d};

verus! {

/// Index of the coordinate that an axis names.
pub open spec fn axis_index(axis: Axis) -> int {
    match axis {
        Axis::X => 0,
        Axis::Y => 1,
        Axis::Z => 2,
    }
}

/// Row `i` of `a` times column `j` of `b`: the four rescaled products are summed,
/// then saturated.
pub open spec fn row_by_column(a: Seq<Seq<int>>, i: int, b: Seq<Seq<int>>, j: int) -> int {
    saturate(
        scaled_product(a[i][0], b[0][j]) + scaled_product(a[i][1], b[1][j]) + scaled_product(
            a[i][2],
            b[2][j],
        ) + scaled_product(a[i][3], b[3][j]),
    )
}

/// The matrix product `a * b`.
pub open spec fn product(a: Seq<Seq<int>>, b: Seq<Seq<int>>) -> Seq<Seq<int>> {
    Seq::new(4, |i: int| Seq::new(4, |j: int| row_by_column(a, i, b, j)))
}

/// The identity matrix.
pub open spec fn identity_entries() -> Seq<Seq<int>> {
    Seq::new(
        4,
        |i: int|
            Seq::new(
                4,
                |j: int|
                    if i == j {
                        ONE as int
                    } else {
                        0
                    },
            ),
    )
}

/// The matrix of zeros.
pub open spec fn zero_entries() -> Seq<Seq<int>> {
    Seq::new(4, |i: int| Seq::new(4, |j: int| 0))
}

/// The matrix `m` with `val` added to the translation along `axis`.
pub open spec fn moved(m: Seq<Seq<int>>, val: int, axis: Axis) -> Seq<Seq<int>> {
    m.update(3, m[3].update(axis_index(axis), saturate(m[3][axis_index(axis)] + val)))
}

/// The matrix of the rotation about `axis` with the given raw cosine and sine.
pub open spec fn rotation(cos: int, sin: int, axis: Axis) -> Seq<Seq<int>> {
    let one = ONE as int;
    let neg = saturate(-sin);
    match axis {
        Axis::X => seq![
            seq![one, 0, 0, 0],
            seq![0, cos, neg, 0],
            seq![0, sin, cos, 0],
            seq![0, 0, 0, one],
        ],
        Axis::Y => seq![
            seq![cos, 0, sin, 0],
            seq![0, one, 0, 0],
            seq![neg, 0, cos, 0],
            seq![0, 0, 0, one],
        ],
        Axis::Z => seq![
            seq![cos, neg, 0, 0],
            seq![sin, cos, 0, 0],
            seq![0, 0, one, 0],
            seq![0, 0, 0, one],
        ],
    }
}

/// The matrix `m` with each entry of its upper left three by three part multiplied by `val`.
pub open spec fn scaled(m: Seq<Seq<int>>, val: int) -> Seq<Seq<int>> {
    Seq::new(
        4,
        |i: int|
            Seq::new(
                4,
                |j: int|
                    if i < 3 && j < 3 {
                        saturate(scaled_product(m[i][j], val))
                    } else {
                        m[i][j]
                    },
            ),
    )
}

/// Coordinate `k` of the row vector `(x, y, z, 1)` times `m`.
pub open spec fn transformed_coordinate(m: Seq<Seq<int>>, p: Point3d, k: int) -> int {
    saturate(
        scaled_product(p.x@, m[0][k]) + scaled_product(p.y@, m[1][k]) + scaled_product(
            p.z@,
            m[2][k],
        ) + m[3][k],
    )
}

/// The point `p` under the transform `m`.
pub open spec fn transformed(m: Seq<Seq<int>>, p: Point3d) -> Point3d {
    Point3d {
        x: Fixed { raw: transformed_coordinate(m, p, 0) as i64 },
        y: Fixed { raw: transformed_coordinate(m, p, 1) as i64 },
        z: Fixed { raw: transformed_coordinate(m, p, 2) as i64 },
    }
}

/// A transform in homogeneous coordinates: four rows of four scalars. Points are
/// row vectors and stand left of the matrix.
#[derive(Clone, Copy, Debug)]
pub struct Matrix4 {
    pub data: [[Fixed; 4]; 4],
}

impl View for Matrix4 {
    type V = Seq<Seq<int>>;

    open spec fn view(&self) -> Seq<Seq<int>> {
        Seq::new(4, |i: int| Seq::new(4, |j: int| self.data[i][j]@))
    }
}

/// The operations that build up and apply a transform.
pub trait Transformator {
    /// The entries of the transform, row by row.
    spec fn entries(&self) -> Seq<Seq<int>>;

    /// Adds `val` to the translation along `axis`.
    fn mov(&mut self, val: Fixed, axis: Axis)
        ensures
            final(self).entries() == moved(old(self).entries(), val@, axis),
    ;

    /// Composes the transform with the rotation about `axis` whose cosine and
    /// sine are given; the rotation applies after what the transform did before.
    fn rotate(&mut self, cos: Fixed, sin: Fixed, axis: Axis)
        ensures
            final(self).entries() == product(old(self).entries(), rotation(cos@, sin@, axis)),
    ;

    /// Scales the linear part of the transform by `val`, which is not zero.
    fn scale(&mut self, val: Fixed)
        requires
            val@ != 0,
        ensures
            final(self).entries() == scaled(old(self).entries(), val@),
    ;

    /// Replaces the point by its image under the transform.
    fn apply_to_point(&self, point: &mut Point3d)
        ensures
            *final(point) == transformed(self.entries(), *old(point)),
    ;
}

/// One entry of a matrix product.
fn entry_of_product(a: &[[Fixed; 4]; 4], i: usize, b: &[[Fixed; 4]; 4], j: usize) -> (r: Fixed)
    requires
        i < 4,
        j < 4,
    ensures
        r@ == saturate(
            scaled_product(a[i as int][0]@, b[0][j as int]@) + scaled_product(
                a[i as int][1]@,
                b[1][j as int]@,
            ) + scaled_product(a[i as int][2]@, b[2][j as int]@) + scaled_product(
                a[i as int][3]@,
                b[3][j as int]@,
            ),
        ),
{
    let s: i128 = wide_product(a[i][0], b[0][j]) + wide_product(a[i][1], b[1][j]) + wide_product(
        a[i][2],
        b[2][j],
    ) + wide_product(a[i][3], b[3][j]);
    narrow(s)
}

/// One row of a matrix product.
fn row_of_product(a: &[[Fixed; 4]; 4], i: usize, b: &[[Fixed; 4]; 4]) -> (r: [Fixed; 4])
    requires
        i < 4,
    ensures
        forall|j: int|
            0 <= j < 4 ==> (#[trigger] r[j])@ == saturate(
                scaled_product(a[i as int][0]@, b[0][j]@) + scaled_product(
                    a[i as int][1]@,
                    b[1][j]@,
                ) + scaled_product(a[i as int][2]@, b[2][j]@) + scaled_product(
                    a[i as int][3]@,
                    b[3][j]@,
                ),
            ),
{
    [
        entry_of_product(a, i, b, 0),
        entry_of_product(a, i, b, 1),
        entry_of_product(a, i, b, 2),
        entry_of_product(a, i, b, 3),
    ]
}

/// One coordinate of a transformed point.
fn coordinate(m: &[[Fixed; 4]; 4], p: &Point3d, k: usize) -> (r: Fixed)
    requires
        k < 3,
    ensures
        r@ == saturate(
            scaled_product(p.x@, m[0][k as int]@) + scaled_product(p.y@, m[1][k as int]@)
                + scaled_product(p.z@, m[2][k as int]@) + m[3][k as int]@,
        ),
{
    let s: i128 = wide_product(p.x, m[0][k]) + wide_product(p.y, m[1][k]) + wide_product(
        p.z,
        m[2][k],
    ) + m[3][k].raw as i128;
    narrow(s)
}

/// One row of a matrix whose upper left part is scaled.
fn row_scaled(row: &[Fixed; 4], val: Fixed) -> (r: [Fixed; 4])
    ensures
        r[0]@ == saturate(scaled_product(row[0]@, val@)),
        r[1]@ == saturate(scaled_product(row[1]@, val@)),
        r[2]@ == saturate(scaled_product(row[2]@, val@)),
        r[3] == row[3],
{
    [row[0].times(val), row[1].times(val), row[2].times(val), row[3]]
}

impl Matrix4 {
    /// The transform that leaves every point where it is.
    pub fn identity() -> (r: Self)
        ensures
            r@ == identity_entries(),
    {
        let o = Fixed { raw: 0 };
        let l = Fixed { raw: ONE };
        let r = Matrix4 { data: [[l, o, o, o], [o, l, o, o], [o, o, l, o], [o, o, o, l]] };
        assert(r@ =~~= identity_entries());
        r
    }

    /// The matrix of zeros.
    pub fn new() -> (r: Self)
        ensures
            r@ == zero_entries(),
    {
        let o = Fixed { raw: 0 };
        let r = Matrix4 { data: [[o, o, o, o], [o, o, o, o], [o, o, o, o], [o, o, o, o]] };
        assert(r@ =~~= zero_entries());
        r
    }

    /// The matrix with the given rows.
    pub fn from(data: [[Fixed; 4]; 4]) -> (r: Self)
        ensures
            r.data == data,
    {
        Matrix4 { data }
    }

    /// Replaces the matrix by its product with `rhs`, which stands on the right.
    pub fn mul_assign(&mut self, rhs: Matrix4)
        ensures
            final(self)@ == product(old(self)@, rhs@),
    {
        let res = [
            row_of_product(&self.data, 0, &rhs.data),
            row_of_product(&self.data, 1, &rhs.data),
            row_of_product(&self.data, 2, &rhs.data),
            row_of_product(&self.data, 3, &rhs.data),
        ];
        let ghost before = self@;
        self.data = res;
        assert(self@ =~~= product(before, rhs@));
    }
}

impl Transformator for Matrix4 {
    open spec fn entries(&self) -> Seq<Seq<int>> {
        self@
    }

    fn apply_to_point(&self, point: &mut Point3d) {
        let x = coordinate(&self.data, point, 0);
        let y = coordinate(&self.data, point, 1);
        let z = coordinate(&self.data, point, 2);
        point.x = x;
        point.y = y;
        point.z = z;
    }

    fn mov(&mut self, val: Fixed, axis: Axis) {
        let ghost before = self@;
        let k: usize = match axis {
            Axis::X => 0,
            Axis::Y => 1,
            Axis::Z => 2,
        };
        let mut row = self.data[3];
        row[k] = row[k].plus(val);
        self.data[3] = row;
        assert(self@ =~~= moved(before, val@, axis));
    }

    fn rotate(&mut self, cos: Fixed, sin: Fixed, axis: Axis) {
        let o = Fixed { raw: 0 };
        let l = Fixed { raw: ONE };
        let n = sin.neg();
        let rhs = match axis {
            Axis::Y => Matrix4::from([[cos, o, sin, o], [o, l, o, o], [n, o, cos, o], [o, o, o, l]]),
            Axis::X => Matrix4::from([[l, o, o, o], [o, cos, n, o], [o, sin, cos, o], [o, o, o, l]]),
            Axis::Z => Matrix4::from([[cos, n, o, o], [sin, cos, o, o], [o, o, l, o], [o, o, o, l]]),
        };
        assert(rhs@ =~~= rotation(cos@, sin@, axis));
        self.mul_assign(rhs);
    }

    fn scale(&mut self, val: Fixed) {
        let ghost before = self@;
        let res = [
            row_scaled(&self.data[0], val),
            row_scaled(&self.data[1], val),
            row_scaled(&self.data[2], val),
            self.data[3],
        ];
        self.data = res;
        assert(self@ =~~= scaled(before, val@));
    }
}

} // verus!
