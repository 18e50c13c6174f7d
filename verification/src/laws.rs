use vstd::prelude::*;
use crate::buffer::{
    alpha, blue, green, lemma_paint_well_formed, lit, offset, on_screen, pack, paint, red, shade,
    well_formed, Canvas, Fragment, PIXELS,
};
use crate::cg::{
    advanced, along, brightnesses_of, carried, column_of, exchanged, group_fragments,
    in_scan_order, lit_vertex, null_vector, origin, strip_fragments, visible,
    mid_brightness, midpoint_of, pair_fragments, polygon_fragments, quantized, row_fragments,
    rows_fragments, sections_fragments, sections_of, skipped, sort_step, sorted_by_y,
    span_br_step, span_lead, span_z_step, stepped, window_fragments,
};
use crate::constants::{HEIGHT, MIN_Z, WIDTH};
use crate::fixed::{
    lemma_quotient_bounds, lemma_quotient_of_multiple, lemma_quotient_times_divisor,
    lemma_root_exists, quotient, root, saturate, scaled_product, Fixed, ONE,
};
use crate::matrix::{
    identity_entries, moved, product, row_by_column, transformed, transformed_coordinate, Matrix4,
};
use crate::primitives::{
    section_between, square_sum, step_between, unit, unit_component, Axis, IntYPoint3d, Point3d,
    Section, Vec3d,
};

verus! {

/// Multiplying by one keeps a scalar, multiplying by zero gives zero.
pub proof fn lemma_product_with_one_and_zero(a: int)
    ensures
        scaled_product(a, ONE as int) == a,
        scaled_product(a, 0) == 0,
{
    lemma_quotient_of_multiple(a, ONE as int);
    assert(a * 0 == 0);
}

/// The identity transform leaves every point where it is.
pub proof fn lemma_identity_keeps_point(p: Point3d)
    ensures
        transformed(identity_entries(), p) == p,
{
    lemma_product_with_one_and_zero(p.x@);
    lemma_product_with_one_and_zero(p.y@);
    lemma_product_with_one_and_zero(p.z@);
    let m = identity_entries();
    assert(transformed_coordinate(m, p, 0) == p.x@);
    assert(transformed_coordinate(m, p, 1) == p.y@);
    assert(transformed_coordinate(m, p, 2) == p.z@);
}

/// The identity matrix is neutral on both sides of the matrix product.
pub proof fn lemma_identity_is_neutral(m: Matrix4)
    ensures
        product(m@, identity_entries()) == m@,
        product(identity_entries(), m@) == m@,
{
    let id = identity_entries();
    assert forall|i: int, j: int| 0 <= i < 4 && 0 <= j < 4 implies row_by_column(m@, i, id, j)
        == m@[i][j] && row_by_column(id, i, m@, j) == m@[i][j] by {
        lemma_product_with_one_and_zero(m@[i][0]);
        lemma_product_with_one_and_zero(m@[i][1]);
        lemma_product_with_one_and_zero(m@[i][2]);
        lemma_product_with_one_and_zero(m@[i][3]);
        lemma_one_and_zero_times(m@[0][j]);
        lemma_one_and_zero_times(m@[1][j]);
        lemma_one_and_zero_times(m@[2][j]);
        lemma_one_and_zero_times(m@[3][j]);
    }
    assert(product(m@, id) =~~= m@);
    assert(product(id, m@) =~~= m@);
}

/// One times a scalar is the scalar, zero times a scalar is zero.
pub proof fn lemma_one_and_zero_times(a: int)
    ensures
        scaled_product(ONE as int, a) == a,
        scaled_product(0, a) == 0,
{
    lemma_product_with_one_and_zero(a);
    assert(ONE * a == a * ONE) by (nonlinear_arith);
    assert(0 * a == 0);
}

/// Moving the identity transform by `d` along an axis and then by the negation of
/// `d` along the same axis gives the identity transform again, which leaves
/// every point exactly where it is. The most negative scalar has no negation and
/// is left out.
pub proof fn lemma_move_there_and_back(d: Fixed, axis: Axis, p: Point3d)
    requires
        d@ > i64::MIN,
    ensures
        moved(moved(identity_entries(), d@, axis), saturate(-d@), axis) == identity_entries(),
        transformed(moved(moved(identity_entries(), d@, axis), saturate(-d@), axis), p) == p,
{
    let back = moved(moved(identity_entries(), d@, axis), saturate(-d@), axis);
    assert(back =~~= identity_entries());
    lemma_identity_keeps_point(p);
}

/// The fragment falls on the pixel at place `i` of the planes.
pub open spec fn covers(f: Fragment, i: int) -> bool {
    on_screen(f.x, f.y) && offset(f.x, f.y) == i
}

/// The larger of two depths, which is the nearer one.
pub open spec fn nearer(a: int, b: int) -> int {
    if a >= b {
        a
    } else {
        b
    }
}

/// The nearest depth among the fragments that fall on the pixel at place `i`;
/// the depth of an empty pixel where none does.
pub open spec fn nearest(fragments: Seq<Fragment>, i: int) -> int
    decreases fragments.len(),
{
    if fragments.len() == 0 {
        MIN_Z as int
    } else {
        let rest = nearest(fragments.drop_last(), i);
        let f = fragments.last();
        if covers(f, i) && f.z > rest {
            f.z as int
        } else {
            rest
        }
    }
}

/// No fragment that falls on a pixel is nearer than the nearest depth there.
pub proof fn lemma_nearest_bounds(fragments: Seq<Fragment>, i: int, k: int)
    requires
        0 <= k < fragments.len(),
        covers(fragments[k], i),
    ensures
        fragments[k].z <= nearest(fragments, i),
    decreases fragments.len(),
{
    if k < fragments.len() - 1 {
        lemma_nearest_bounds(fragments.drop_last(), i, k);
    } else {
        lemma_nearest_floor(fragments.drop_last(), i);
    }
}

/// The nearest depth on a pixel is never below the depth of an empty pixel.
pub proof fn lemma_nearest_floor(fragments: Seq<Fragment>, i: int)
    ensures
        nearest(fragments, i) >= MIN_Z,
    decreases fragments.len(),
{
    if fragments.len() > 0 {
        lemma_nearest_floor(fragments.drop_last(), i);
    }
}

/// The nearest depth on a pixel is the depth of one of the fragments that fall on
/// it, unless it is the depth of an empty pixel.
pub proof fn lemma_nearest_attained(fragments: Seq<Fragment>, i: int)
    ensures
        nearest(fragments, i) == MIN_Z || exists|k: int|
            0 <= k < fragments.len() && covers(#[trigger] fragments[k], i) && fragments[k].z
                == nearest(fragments, i),
    decreases fragments.len(),
{
    if fragments.len() > 0 {
        let rest = fragments.drop_last();
        let f = fragments.last();
        lemma_nearest_attained(rest, i);
        if covers(f, i) && f.z > nearest(rest, i) {
            let k = fragments.len() - 1;
            assert(covers(fragments[k], i) && fragments[k].z == nearest(fragments, i));
        } else if nearest(rest, i) != MIN_Z {
            let k = choose|k: int|
                0 <= k < rest.len() && covers(#[trigger] rest[k], i) && rest[k].z == nearest(
                    rest,
                    i,
                );
            assert(covers(fragments[k], i) && fragments[k].z == nearest(fragments, i));
        }
    }
}

/// After any fragments have been painted, in whatever order they came, each pixel
/// holds the nearest depth among what it held before and the fragments that fall on it.
pub proof fn lemma_depth_is_nearest(c: Canvas, fragments: Seq<Fragment>, color: u32, i: int)
    requires
        well_formed(c),
        0 <= i < PIXELS,
    ensures
        paint(c, fragments, color).depth[i] == nearer(c.depth[i] as int, nearest(fragments, i)),
    decreases fragments.len(),
{
    if fragments.len() > 0 {
        lemma_depth_is_nearest(c, fragments.drop_last(), color, i);
        lemma_paint_well_formed(c, fragments.drop_last(), color);
    } else {
        assert(c.depth[i] >= MIN_Z);
    }
}

/// Painting never moves the depth of a pixel farther away.
pub proof fn lemma_depth_never_recedes(c: Canvas, fragments: Seq<Fragment>, color: u32, i: int)
    requires
        well_formed(c),
        0 <= i < PIXELS,
    ensures
        paint(c, fragments, color).depth[i] >= c.depth[i],
{
    lemma_depth_is_nearest(c, fragments, color, i);
}

/// The depths after two batches of fragments do not depend on which batch was
/// painted first, whatever the colours of the two.
pub proof fn lemma_depth_order_independent(
    c: Canvas,
    first: Seq<Fragment>,
    first_color: u32,
    second: Seq<Fragment>,
    second_color: u32,
)
    requires
        well_formed(c),
    ensures
        paint(paint(c, first, first_color), second, second_color).depth == paint(
            paint(c, second, second_color),
            first,
            first_color,
        ).depth,
{
    let a = paint(c, first, first_color);
    let b = paint(c, second, second_color);
    lemma_paint_well_formed(c, first, first_color);
    lemma_paint_well_formed(c, second, second_color);
    let ab = paint(a, second, second_color);
    let ba = paint(b, first, first_color);
    lemma_paint_well_formed(a, second, second_color);
    lemma_paint_well_formed(b, first, first_color);
    assert forall|i: int| 0 <= i < PIXELS implies ab.depth[i] == ba.depth[i] by {
        lemma_depth_is_nearest(c, first, first_color, i);
        lemma_depth_is_nearest(c, second, second_color, i);
        lemma_depth_is_nearest(a, second, second_color, i);
        lemma_depth_is_nearest(b, first, first_color, i);
    }
    assert(ab.depth =~= ba.depth);
}

/// A pixel on which no fragment falls keeps its depth and its colour.
pub proof fn lemma_uncovered_pixel_is_kept(c: Canvas, fragments: Seq<Fragment>, color: u32, i: int)
    requires
        well_formed(c),
        0 <= i < PIXELS,
        forall|k: int| 0 <= k < fragments.len() ==> !covers(#[trigger] fragments[k], i),
    ensures
        paint(c, fragments, color).depth[i] == c.depth[i],
        paint(c, fragments, color).color[i] == c.color[i],
    decreases fragments.len(),
{
    if fragments.len() > 0 {
        let rest = fragments.drop_last();
        assert forall|k: int| 0 <= k < rest.len() implies !covers(#[trigger] rest[k], i) by {
            assert(rest[k] == fragments[k]);
        }
        lemma_uncovered_pixel_is_kept(c, rest, color, i);
        lemma_paint_well_formed(c, rest, color);
        assert(!covers(fragments[fragments.len() - 1], i));
    }
}

/// A pixel whose depth has not changed keeps its colour; one whose depth has
/// changed holds the shaded colour of a fragment that falls on it and has the
/// depth that the pixel now holds. So the depth, not the order of drawing,
/// decides to which fragment a pixel belongs.
pub proof fn lemma_colour_follows_depth(c: Canvas, fragments: Seq<Fragment>, color: u32, i: int)
    requires
        well_formed(c),
        0 <= i < PIXELS,
    ensures
        paint(c, fragments, color).depth[i] == c.depth[i] ==> paint(c, fragments, color).color[i]
            == c.color[i],
        paint(c, fragments, color).depth[i] != c.depth[i] ==> exists|k: int|
            0 <= k < fragments.len() && covers(#[trigger] fragments[k], i) && fragments[k].z
                == paint(c, fragments, color).depth[i] && paint(c, fragments, color).color[i]
                == shade(color, fragments[k].br as int),
    decreases fragments.len(),
{
    if fragments.len() > 0 {
        let rest = fragments.drop_last();
        let f = fragments.last();
        let before = paint(c, rest, color);
        let after = paint(c, fragments, color);
        lemma_colour_follows_depth(c, rest, color, i);
        lemma_paint_well_formed(c, rest, color);
        lemma_depth_never_recedes(c, rest, color, i);
        if covers(f, i) && f.z > before.depth[i] {
            let k = fragments.len() - 1;
            assert(covers(fragments[k], i) && fragments[k].z == after.depth[i] && after.color[i]
                == shade(color, fragments[k].br as int));
        } else {
            assert(after.depth[i] == before.depth[i] && after.color[i] == before.color[i]);
            if before.depth[i] != c.depth[i] {
                let k = choose|k: int|
                    0 <= k < rest.len() && covers(#[trigger] rest[k], i) && rest[k].z
                        == before.depth[i] && before.color[i] == shade(color, rest[k].br as int);
                assert(covers(fragments[k], i) && fragments[k].z == after.depth[i]
                    && after.color[i] == shade(color, fragments[k].br as int));
            }
        }
    }
}

/// A triangle whose three corners all lie left of the screen, or all right of it,
/// or all above it, or all below it, changes no pixel.
pub proof fn lemma_culled_triangle_draws_nothing(
    c: Canvas,
    points: Seq<Point3d>,
    normals: Seq<Vec3d>,
    light: Vec3d,
    color: u32,
)
    requires
        !visible(points),
    ensures
        paint(c, window_fragments(points, normals, light), color) == c,
{
}

/// A mesh of one triangle whose three corners, once transformed, all lie off the
/// same side of the screen changes no pixel.
pub proof fn lemma_culled_mesh_draws_nothing(
    c: Canvas,
    points: Seq<Point3d>,
    normals: Seq<Point3d>,
    m: Seq<Seq<int>>,
    light: Vec3d,
    color: u32,
)
    requires
        points.len() == 3,
        normals.len() == 3,
        !visible(seq![transformed(m, points[0]), transformed(m, points[1]), transformed(m, points[2])]),
    ensures
        group_fragments(points, normals, m, light) == Seq::<Fragment>::empty(),
        paint(c, group_fragments(points, normals, m, light), color) == c,
{
    let first = lit_vertex(points[0], normals[0], m);
    let second = lit_vertex(points[1], normals[1], m);
    let third = lit_vertex(points[2], normals[2], m);
    let start_points = seq![first.0, second.0, origin()];
    let start_normals = seq![first.1, second.1, null_vector()];
    let window_points = start_points.update(2, third.0);
    let window_normals = start_normals.update(2, third.1);
    assert(window_points =~= seq![
        transformed(m, points[0]),
        transformed(m, points[1]),
        transformed(m, points[2]),
    ]);
    assert(window_fragments(window_points, window_normals, light) == Seq::<Fragment>::empty());
    let rest = strip_fragments(points, normals, m, light, window_points, window_normals, 3);
    assert(rest == Seq::<Fragment>::empty());
    assert(strip_fragments(points, normals, m, light, start_points, start_normals, 2)
        == window_fragments(window_points, window_normals, light) + rest);
    assert(Seq::<Fragment>::empty() + Seq::<Fragment>::empty() =~= Seq::<Fragment>::empty());
}

/// `v` lies between `a` and `b`, whichever of the two is larger.
pub open spec fn within(v: int, a: int, b: int) -> bool {
    (a <= v <= b) || (b <= v <= a)
}

/// The scalar can be held in 64 bits.
pub open spec fn fits(v: int) -> bool {
    i64::MIN <= v <= i64::MAX
}

/// Steps of size zero stay where they start.
pub proof fn lemma_stepped_by_zero(a: int, k: nat)
    requires
        fits(a),
    ensures
        stepped(a, 0, k) == a,
    decreases k,
{
    if k > 0 {
        lemma_stepped_by_zero(a, (k - 1) as nat);
    }
}

/// Up to `n` steps of the step that leads from `a` to `b` in `n` steps stay
/// between `a` and `b`, and none of them saturates.
pub proof fn lemma_stepped_exact(a: int, b: int, n: int, k: nat)
    requires
        fits(a),
        fits(b),
        n > 0,
        k <= n,
    ensures
        stepped(a, step_between(a, b, n), k) == a + k * step_between(a, b, n),
        within(a + k * step_between(a, b, n), a, b),
        fits(k * step_between(a, b, n)),
    decreases k,
{
    let d = saturate(b - a);
    let q = quotient(d, n);
    let s = step_between(a, b, n);
    lemma_quotient_bounds(d, n);
    lemma_quotient_times_divisor(d, n);
    assert(s == q);
    if b >= a {
        assert(0 <= k * s <= q * n) by (nonlinear_arith)
            requires
                0 <= k <= n,
                s == q,
                q >= 0,
        ;
    } else {
        assert(q * n <= k * s <= 0) by (nonlinear_arith)
            requires
                0 <= k <= n,
                s == q,
                q <= 0,
        ;
    }
    if k > 0 {
        lemma_stepped_exact(a, b, n, (k - 1) as nat);
        assert((k - 1) * s + s == k * s) by (nonlinear_arith);
    } else {
        assert(0 * s == 0);
    }
}

/// A value that takes steps from `a` towards `b` stays between the two, as long
/// as it takes no more steps than the step was made for.
pub proof fn lemma_interpolated_within(a: int, b: int, n: int, k: nat)
    requires
        fits(a),
        fits(b),
        n >= 0,
        n > 0 ==> k <= n,
    ensures
        within(stepped(a, step_between(a, b, n), k), a, b),
{
    if n == 0 {
        lemma_stepped_by_zero(a, k);
    } else {
        lemma_stepped_exact(a, b, n, k);
    }
}

/// Steps taken after other steps of the same size are steps taken together.
pub proof fn lemma_stepped_twice(v: int, s: int, r: nat, j: nat)
    ensures
        stepped(stepped(v, s, r), s, j) == stepped(v, s, r + j),
    decreases j,
{
    if j > 0 {
        lemma_stepped_twice(v, s, r, (j - 1) as nat);
        assert(r + j - 1 == (r + j - 1) as nat);
    }
}

/// A stride over `r` scanlines reaches what `r` single steps reach, as long as
/// the edge has that many scanlines.
pub proof fn lemma_stride_is_steps(a: int, b: int, n: int, r: nat)
    requires
        fits(a),
        fits(b),
        n >= 0,
        r <= n,
    ensures
        carried(a, step_between(a, b, n), r as int) == stepped(a, step_between(a, b, n), r),
{
    let s = step_between(a, b, n);
    if n == 0 {
        assert(s * r == 0);
    } else {
        lemma_stepped_exact(a, b, n, r);
        assert(s * r == r * s) by (nonlinear_arith);
    }
}

/// The value part of the way from `from` to `to` lies between the two.
pub proof fn lemma_along_within(from: int, to: int, num: int, den: int)
    requires
        fits(from),
        fits(to),
        0 <= num <= den,
        den > 0,
    ensures
        within(along(from, to, num, den), from, to),
{
    let d = saturate(to - from);
    lemma_quotient_bounds(d * num, den);
    if d >= 0 {
        assert(0 <= d * num <= d * den) by (nonlinear_arith)
            requires
                d >= 0,
                0 <= num <= den,
        ;
        assert((d * num) / den <= d) by (nonlinear_arith)
            requires
                0 <= d * num <= d * den,
                den > 0,
        ;
    } else {
        assert(0 <= (-d) * num <= (-d) * den && -(d * num) == (-d) * num) by (nonlinear_arith)
            requires
                d < 0,
                0 <= num <= den,
        ;
        assert(((-d) * num) / den <= -d) by (nonlinear_arith)
            requires
                0 <= (-d) * num <= (-d) * den,
                den > 0,
        ;
    }
}

/// For `m` scanlines the stepped value stays between `lo` and `hi`.
pub open spec fn edge_stays(v: int, s: int, m: int, lo: int, hi: int) -> bool {
    forall|j: nat| j <= m ==> lo <= #[trigger] stepped(v, s, j) <= hi
}

/// The brightness of every fragment lies between `lo` and `hi`.
pub open spec fn brightness_within(fragments: Seq<Fragment>, lo: int, hi: int) -> bool {
    forall|k: int| 0 <= k < fragments.len() ==> lo <= (#[trigger] fragments[k]).br <= hi
}

/// A stride over `r` columns or scanlines followed by `j` single steps reaches
/// the start plus `r + j` steps exactly, as long as the edge or span has that
/// many steps.
pub proof fn lemma_carried_then_stepped(a: int, b: int, n: int, r: nat, j: nat)
    requires
        fits(a),
        fits(b),
        n >= 0,
        r + j <= n,
    ensures
        stepped(carried(a, step_between(a, b, n), r as int), step_between(a, b, n), j) == a + (r
            + j) * step_between(a, b, n),
        within(a + (r + j) * step_between(a, b, n), a, b),
{
    let s = step_between(a, b, n);
    lemma_stride_is_steps(a, b, n, r);
    lemma_stepped_twice(a, s, r, j);
    if n == 0 {
        lemma_stepped_by_zero(a, r + j);
        assert((r + j) * s == 0);
    } else {
        lemma_stepped_exact(a, b, n, r + j);
    }
}

/// On one scanline depth and brightness are linear in the column: the fragment
/// in a column holds the value of the left edge plus one step for each column
/// that lies between the left end of the span and it.
pub proof fn lemma_row_is_linear(y: int, left: Section, right: Section, k: int)
    requires
        0 <= k < row_fragments(y, left, right).len(),
    ensures
        row_fragments(y, left, right)[k].z == left.z_start@ + (span_lead(left) + k) * span_z_step(
            left,
            right,
        ),
        row_fragments(y, left, right)[k].br == left.br_start@ + (span_lead(left) + k)
            * span_br_step(left, right),
        within(row_fragments(y, left, right)[k].z as int, left.z_start@, right.z_start@),
        within(row_fragments(y, left, right)[k].br as int, left.br_start@, right.br_start@),
{
    let n = column_of(right.x_start@) - column_of(left.x_start@);
    let lead = span_lead(left);
    lemma_carried_then_stepped(left.z_start@, right.z_start@, n, lead as nat, k as nat);
    lemma_carried_then_stepped(left.br_start@, right.br_start@, n, lead as nat, k as nat);
}

/// On one scanline the brightness of every fragment lies between the brightness
/// of the two edges.
pub proof fn lemma_row_brightness(y: int, left: Section, right: Section, lo: int, hi: int)
    requires
        lo <= left.br_start@ <= hi,
        lo <= right.br_start@ <= hi,
    ensures
        brightness_within(row_fragments(y, left, right), lo, hi),
{
    let row = row_fragments(y, left, right);
    assert forall|k: int| 0 <= k < row.len() implies lo <= (#[trigger] row[k]).br <= hi by {
        lemma_row_is_linear(y, left, right, k);
    }
}

/// In a run of scanlines between two edges whose brightness stays between `lo`
/// and `hi`, the brightness of every fragment does too.
pub proof fn lemma_rows_brightness(
    left: Section,
    right: Section,
    y: int,
    y_end: int,
    lo: int,
    hi: int,
)
    requires
        edge_stays(left.br_start@, left.br_step@, y_end - y, lo, hi),
        edge_stays(right.br_start@, right.br_step@, y_end - y, lo, hi),
    ensures
        brightness_within(rows_fragments(left, right, y, y_end), lo, hi),
    decreases y_end - y + 1,
{
    if !(y > y_end || y >= HEIGHT) {
        let row = row_fragments(y, left, right);
        let rest = rows_fragments(advanced(left), advanced(right), y + 1, y_end);
        assert(stepped(left.br_start@, left.br_step@, 0) == left.br_start@);
        assert(stepped(right.br_start@, right.br_step@, 0) == right.br_start@);
        lemma_row_brightness(y, left, right, lo, hi);
        assert forall|j: nat| j <= y_end - y - 1 implies lo <= #[trigger] stepped(
            advanced(left).br_start@,
            left.br_step@,
            j,
        ) <= hi by {
            lemma_stepped_twice(left.br_start@, left.br_step@, 1, j);
            assert(stepped(left.br_start@, left.br_step@, 1) == advanced(left).br_start@);
            assert(lo <= stepped(left.br_start@, left.br_step@, 1 + j) <= hi);
        }
        assert forall|j: nat| j <= y_end - y - 1 implies lo <= #[trigger] stepped(
            advanced(right).br_start@,
            right.br_step@,
            j,
        ) <= hi by {
            lemma_stepped_twice(right.br_start@, right.br_step@, 1, j);
            assert(stepped(right.br_start@, right.br_step@, 1) == advanced(right).br_start@);
            assert(lo <= stepped(right.br_start@, right.br_step@, 1 + j) <= hi);
        }
        lemma_rows_brightness(advanced(left), advanced(right), y + 1, y_end, lo, hi);
        assert forall|k: int| 0 <= k < (row + rest).len() implies lo <= (#[trigger] (row
            + rest)[k]).br <= hi by {
            if k < row.len() {
                assert((row + rest)[k] == row[k]);
            } else {
                assert((row + rest)[k] == rest[k - row.len()]);
            }
        }
    }
}

/// The brightness of an edge between two vertices, after a stride over `r`
/// scanlines and `j` further steps, stays between the brightness of the two
/// vertices as long as the edge has that many scanlines.
pub proof fn lemma_edge_brightness(a: int, b: int, n: int, r: nat, lo: int, hi: int)
    requires
        fits(a),
        fits(b),
        n >= 0,
        r <= n,
        lo <= a <= hi,
        lo <= b <= hi,
    ensures
        edge_stays(
            carried(a, step_between(a, b, n), r as int),
            step_between(a, b, n),
            n - r,
            lo,
            hi,
        ),
        edge_stays(a, step_between(a, b, n), n, lo, hi),
{
    let s = step_between(a, b, n);
    lemma_stride_is_steps(a, b, n, r);
    assert forall|j: nat| j <= n - r implies lo <= #[trigger] stepped(
        carried(a, s, r as int),
        s,
        j,
    ) <= hi by {
        lemma_stepped_twice(a, s, r, j);
        lemma_interpolated_within(a, b, n, r + j);
    }
    assert forall|j: nat| j <= n implies lo <= #[trigger] stepped(a, s, j) <= hi by {
        lemma_interpolated_within(a, b, n, j);
    }
}

/// In the trapezoid between two edges that span the same scanlines, the
/// brightness of every fragment lies between `lo` and `hi` if the brightness at
/// the four ends of the edges does.
pub proof fn lemma_pair_brightness(
    from_left: IntYPoint3d,
    to_left: IntYPoint3d,
    from_left_br: Fixed,
    to_left_br: Fixed,
    from_right: IntYPoint3d,
    to_right: IntYPoint3d,
    from_right_br: Fixed,
    to_right_br: Fixed,
    lo: int,
    hi: int,
)
    requires
        from_left.y == from_right.y,
        to_left.y == to_right.y,
        from_left.y <= to_left.y,
        lo <= from_left_br@ <= hi,
        lo <= to_left_br@ <= hi,
        lo <= from_right_br@ <= hi,
        lo <= to_right_br@ <= hi,
    ensures
        brightness_within(
            pair_fragments(
                section_between(from_left, to_left, from_left_br, to_left_br),
                section_between(from_right, to_right, from_right_br, to_right_br),
            ),
            lo,
            hi,
        ),
{
    let left = section_between(from_left, to_left, from_left_br, to_left_br);
    let right = section_between(from_right, to_right, from_right_br, to_right_br);
    let n = to_left.y - from_left.y;
    if left.x_start@ > right.x_start@ {
    } else if left.y_start < 0 {
        let r = -left.y_start;
        if left.y_end >= 0 {
            lemma_edge_brightness(from_left_br@, to_left_br@, n, r as nat, lo, hi);
            lemma_edge_brightness(from_right_br@, to_right_br@, n, r as nat, lo, hi);
            assert(n - r == left.y_end - 0);
        }
        lemma_rows_brightness(skipped(left, r), skipped(right, r), 0, left.y_end as int, lo, hi);
    } else {
        lemma_edge_brightness(from_left_br@, to_left_br@, n, 0, lo, hi);
        lemma_edge_brightness(from_right_br@, to_right_br@, n, 0, lo, hi);
        lemma_rows_brightness(left, right, left.y_start as int, left.y_end as int, lo, hi);
    }
}

/// The smallest of three brightness values.
pub open spec fn darkest(b: Seq<Fixed>) -> int {
    if b[0]@ <= b[1]@ && b[0]@ <= b[2]@ {
        b[0]@
    } else if b[1]@ <= b[2]@ {
        b[1]@
    } else {
        b[2]@
    }
}

/// The largest of three brightness values.
pub open spec fn brightest(b: Seq<Fixed>) -> int {
    if b[0]@ >= b[1]@ && b[0]@ >= b[2]@ {
        b[0]@
    } else if b[1]@ >= b[2]@ {
        b[1]@
    } else {
        b[2]@
    }
}

/// Two batches of fragments whose brightness lies between `lo` and `hi` make one
/// such batch.
pub proof fn lemma_brightness_concat(a: Seq<Fragment>, b: Seq<Fragment>, lo: int, hi: int)
    requires
        brightness_within(a, lo, hi),
        brightness_within(b, lo, hi),
    ensures
        brightness_within(a + b, lo, hi),
{
    assert forall|k: int| 0 <= k < (a + b).len() implies lo <= (#[trigger] (a + b)[k]).br
        <= hi by {
        if k < a.len() {
            assert((a + b)[k] == a[k]);
        } else {
            assert((a + b)[k] == b[k - a.len()]);
        }
    }
}

/// The brightness of every fragment of a triangle without height lies between
/// `lo` and `hi` if the brightness of its outer vertices does.
proof fn lemma_flat_brightness(p: Seq<IntYPoint3d>, b: Seq<Fixed>, lo: int, hi: int)
    requires
        p[0].y == p[2].y,
        lo <= b[0]@ <= hi,
        lo <= b[2]@ <= hi,
    ensures
        brightness_within(sections_fragments(sections_of(p, b)), lo, hi),
{
    let s = sections_of(p, b);
    let there = section_between(p[0], p[2], b[0], b[2]);
    let back = section_between(p[2], p[0], b[2], b[0]);
    assert(s[0] == there && s[1] == back && s[2] == back && s[3] == there);
    lemma_pair_brightness(p[0], p[2], b[0], b[2], p[2], p[0], b[2], b[0], lo, hi);
    lemma_pair_brightness(p[2], p[0], b[2], b[0], p[0], p[2], b[0], b[2], lo, hi);
    lemma_brightness_concat(pair_fragments(there, back), pair_fragments(back, there), lo, hi);
}

/// The brightness of every fragment of a triangle with height lies between `lo`
/// and `hi` if the brightness of its vertices does.
proof fn lemma_split_brightness(p: Seq<IntYPoint3d>, b: Seq<Fixed>, lo: int, hi: int)
    requires
        p[0].y <= p[1].y <= p[2].y,
        p[0].y != p[2].y,
        lo <= b[0]@ <= hi,
        lo <= b[1]@ <= hi,
        lo <= b[2]@ <= hi,
    ensures
        brightness_within(sections_fragments(sections_of(p, b)), lo, hi),
{
    let s = sections_of(p, b);
    let mid = midpoint_of(p[0], p[2], p[1].y);
    let mb = mid_brightness(p, b);
    lemma_along_within(b[0]@, b[2]@, p[1].y - p[0].y, p[2].y - p[0].y);
    assert(lo <= mb@ <= hi);
    assert(mid.y == p[1].y);
    let upper_short = section_between(p[0], p[1], b[0], b[1]);
    let upper_long = section_between(p[0], mid, b[0], mb);
    let lower_short = section_between(p[1], p[2], b[1], b[2]);
    let lower_long = section_between(mid, p[2], mb, b[2]);
    if mid.x@ > p[1].x@ {
        assert(s[0] == upper_short && s[1] == upper_long && s[2] == lower_short && s[3]
            == lower_long);
        lemma_pair_brightness(p[0], p[1], b[0], b[1], p[0], mid, b[0], mb, lo, hi);
        lemma_pair_brightness(p[1], p[2], b[1], b[2], mid, p[2], mb, b[2], lo, hi);
        lemma_brightness_concat(
            pair_fragments(upper_short, upper_long),
            pair_fragments(lower_short, lower_long),
            lo,
            hi,
        );
    } else {
        assert(s[0] == upper_long && s[1] == upper_short && s[2] == lower_long && s[3]
            == lower_short);
        lemma_pair_brightness(p[0], mid, b[0], mb, p[0], p[1], b[0], b[1], lo, hi);
        lemma_pair_brightness(mid, p[2], mb, b[2], p[1], p[2], b[1], b[2], lo, hi);
        lemma_brightness_concat(
            pair_fragments(upper_long, upper_short),
            pair_fragments(lower_long, lower_short),
            lo,
            hi,
        );
    }
}

/// The brightness of every fragment of a triangle whose vertices are in scan
/// order lies between the smallest and the largest brightness of its vertices.
pub proof fn lemma_brightness_within_vertices(p: Seq<IntYPoint3d>, b: Seq<Fixed>)
    requires
        in_scan_order(p),
    ensures
        brightness_within(sections_fragments(sections_of(p, b)), darkest(b), brightest(b)),
{
    if p[0].y == p[2].y {
        lemma_flat_brightness(p, b, darkest(b), brightest(b));
    } else {
        lemma_split_brightness(p, b, darkest(b), brightest(b));
    }
}

/// A triangle without height whose outer vertices lie in different columns is
/// drawn as one trapezoid without height between its outer vertices, which is
/// the one scanline between them; off the screen it is not drawn at all.
pub proof fn lemma_flat_triangle_is_one_row(p: Seq<IntYPoint3d>, b: Seq<Fixed>)
    requires
        in_scan_order(p),
        p[0].y == p[2].y,
        p[0].x@ < p[2].x@,
    ensures
        sections_fragments(sections_of(p, b)) == pair_fragments(
            section_between(p[0], p[2], b[0], b[2]),
            section_between(p[2], p[0], b[2], b[0]),
        ),
        sections_fragments(sections_of(p, b)) == if 0 <= p[0].y < HEIGHT {
            row_fragments(
                p[0].y as int,
                section_between(p[0], p[2], b[0], b[2]),
                section_between(p[2], p[0], b[2], b[0]),
            )
        } else {
            Seq::<Fragment>::empty()
        },
{
    reveal_with_fuel(rows_fragments, 2);
    let there = section_between(p[0], p[2], b[0], b[2]);
    let back = section_between(p[2], p[0], b[2], b[0]);
    let s = sections_of(p, b);
    assert(s[0] == there && s[1] == back && s[2] == back && s[3] == there);
    assert(pair_fragments(back, there) =~= Seq::<Fragment>::empty());
    assert(sections_fragments(s) =~= pair_fragments(there, back));
    if 0 <= p[0].y < HEIGHT {
        assert(pair_fragments(there, back) =~= row_fragments(p[0].y as int, there, back));
    } else {
        assert(pair_fragments(there, back) =~= Seq::<Fragment>::empty());
    }
}

/// A scanline whose left edge lies on the screen, and not right of its right
/// edge, starts with the fragment of the left edge.
pub proof fn lemma_row_starts_at_left_edge(y: int, left: Section, right: Section)
    requires
        0 <= column_of(left.x_start@) < WIDTH,
        left.x_start@ <= right.x_start@,
    ensures
        row_fragments(y, left, right).len() > 0,
        row_fragments(y, left, right)[0] == (Fragment {
            x: column_of(left.x_start@),
            y,
            z: left.z_start.raw,
            br: left.br_start.raw,
        }),
{
    let zs = span_z_step(left, right);
    let bs = span_br_step(left, right);
    assert(column_of(left.x_start@) <= column_of(right.x_start@));
    assert(span_lead(left) == 0);
    assert(zs * 0 == 0);
    assert(bs * 0 == 0);
    assert(carried(left.z_start@, zs, 0) == left.z_start@);
    assert(carried(left.br_start@, bs, 0) == left.br_start@);
    assert(stepped(left.z_start@, zs, 0) == left.z_start@);
    assert(stepped(left.br_start@, bs, 0) == left.br_start@);
}

/// A trapezoid whose left edge starts on the screen, and not right of its right
/// edge, starts with the fragment of the start of its left edge.
pub proof fn lemma_pair_starts_at_left_edge(left: Section, right: Section)
    requires
        0 <= column_of(left.x_start@) < WIDTH,
        left.x_start@ <= right.x_start@,
        0 <= left.y_start < HEIGHT,
        left.y_start <= left.y_end,
    ensures
        pair_fragments(left, right).len() > 0,
        pair_fragments(left, right)[0] == (Fragment {
            x: column_of(left.x_start@),
            y: left.y_start as int,
            z: left.z_start.raw,
            br: left.br_start.raw,
        }),
{
    let y = left.y_start as int;
    let row = row_fragments(y, left, right);
    let rest = rows_fragments(advanced(left), advanced(right), y + 1, left.y_end as int);
    lemma_row_starts_at_left_edge(y, left, right);
    assert(pair_fragments(left, right) == row + rest);
    assert((row + rest)[0] == row[0]);
}

/// A triangle whose first vertex in scan order lies on the screen starts with
/// the fragment of that vertex.
pub proof fn lemma_first_fragment_is_first_vertex(p: Seq<IntYPoint3d>, b: Seq<Fixed>)
    requires
        in_scan_order(p),
        0 <= p[0].y < HEIGHT,
        0 <= column_of(p[0].x@) < WIDTH,
    ensures
        sections_fragments(sections_of(p, b)).len() > 0,
        sections_fragments(sections_of(p, b))[0] == (Fragment {
            x: column_of(p[0].x@),
            y: p[0].y as int,
            z: p[0].z.raw,
            br: b[0].raw,
        }),
{
    let s = sections_of(p, b);
    if p[0].y == p[2].y {
        assert(s[0] == section_between(p[0], p[2], b[0], b[2]));
        assert(s[1] == section_between(p[2], p[0], b[2], b[0]));
    } else {
        let mid = midpoint_of(p[0], p[2], p[1].y);
        let mb = mid_brightness(p, b);
        if mid.x@ > p[1].x@ {
            assert(s[0] == section_between(p[0], p[1], b[0], b[1]));
            assert(s[1] == section_between(p[0], mid, b[0], mb));
        } else {
            assert(s[0] == section_between(p[0], mid, b[0], mb));
            assert(s[1] == section_between(p[0], p[1], b[0], b[1]));
        }
    }
    assert(s[0].x_start == p[0].x && s[0].z_start == p[0].z && s[0].br_start == b[0]);
    assert(s[0].y_start == p[0].y && s[0].y_end >= p[0].y);
    assert(s[0].x_start@ <= s[1].x_start@);
    lemma_pair_starts_at_left_edge(s[0], s[1]);
    let first = pair_fragments(s[0], s[1]);
    let second = pair_fragments(s[2], s[3]);
    assert((first + second)[0] == first[0]);
}

/// After a triangle whose first vertex in scan order lies on the screen has been
/// drawn, the pixel of that vertex is at least as near as the vertex: if it was
/// farther before, the triangle has been drawn on it.
pub proof fn lemma_first_vertex_is_drawn(
    c: Canvas,
    p: Seq<IntYPoint3d>,
    b: Seq<Fixed>,
    color: u32,
)
    requires
        well_formed(c),
        in_scan_order(p),
        0 <= p[0].y < HEIGHT,
        0 <= column_of(p[0].x@) < WIDTH,
    ensures
        paint(c, sections_fragments(sections_of(p, b)), color).depth[offset(
            column_of(p[0].x@),
            p[0].y as int,
        )] >= p[0].z@,
{
    let fragments = sections_fragments(sections_of(p, b));
    let i = offset(column_of(p[0].x@), p[0].y as int);
    lemma_first_fragment_is_first_vertex(p, b);
    lemma_nearest_bounds(fragments, i, 0);
    lemma_depth_is_nearest(c, fragments, color, i);
}

/// Sorting brings any three vertices into scan order.
pub proof fn lemma_sorted_is_in_scan_order(points: Seq<IntYPoint3d>, normals: Seq<Vec3d>)
    requires
        points.len() == 3,
        normals.len() == 3,
    ensures
        in_scan_order(sorted_by_y(points, normals).0),
{
}

/// Sorting keeps the three normals, each once.
pub proof fn lemma_sorted_keeps_normals(points: Seq<IntYPoint3d>, normals: Seq<Vec3d>)
    requires
        points.len() == 3,
        normals.len() == 3,
    ensures
        sorted_by_y(points, normals).1.to_multiset() == normals.to_multiset(),
        sorted_by_y(points, normals).0.to_multiset() == points.to_multiset(),
{
    let a = sort_step((points, normals), 0, 2);
    let b = sort_step(a, 0, 1);
    let c = sort_step(b, 1, 2);
    lemma_exchange_keeps_items(points, 0, 2);
    lemma_exchange_keeps_items(normals, 0, 2);
    lemma_exchange_keeps_items(a.0, 0, 1);
    lemma_exchange_keeps_items(a.1, 0, 1);
    lemma_exchange_keeps_items(b.0, 1, 2);
    lemma_exchange_keeps_items(b.1, 1, 2);
}

/// Exchanging two items of a sequence keeps its items, each as often as before.
pub proof fn lemma_exchange_keeps_items<T>(s: Seq<T>, i: int, j: int)
    requires
        0 <= i < s.len(),
        0 <= j < s.len(),
    ensures
        exchanged(s, i, j).to_multiset() == s.to_multiset(),
{
    broadcast use vstd::multiset::group_multiset_axioms;

    let t = exchanged(s, i, j);
    if i == j {
        assert(t =~= s);
    } else {
        let half = s.update(i, s[j]);
        vstd::seq_lib::to_multiset_update(s, i, s[j]);
        vstd::seq_lib::to_multiset_update(half, j, s[i]);
        s.to_multiset_ensures();
        assert(s.contains(s[i]));
        assert(s.contains(s[j]));
        assert(t.to_multiset() =~= s.to_multiset());
    }
}

/// The brightness of every fragment of a triangle lies between the smallest and
/// the largest brightness of its three vertices.
pub proof fn lemma_polygon_brightness(points: Seq<Point3d>, normals: Seq<Vec3d>, light: Vec3d)
    requires
        points.len() == 3,
        normals.len() == 3,
    ensures
        brightness_within(
            polygon_fragments(points, normals, light),
            darkest(brightnesses_of(normals, light)),
            brightest(brightnesses_of(normals, light)),
        ),
{
    let sorted = sorted_by_y(quantized(points), normals);
    let b = brightnesses_of(sorted.1, light);
    let lo = darkest(brightnesses_of(normals, light));
    let hi = brightest(brightnesses_of(normals, light));
    lemma_sorted_is_in_scan_order(quantized(points), normals);
    assert(lo <= b[0]@ <= hi && lo <= b[1]@ <= hi && lo <= b[2]@ <= hi);
    if sorted.0[0].y == sorted.0[2].y {
        lemma_flat_brightness(sorted.0, b, lo, hi);
    } else {
        lemma_split_brightness(sorted.0, b, lo, hi);
    }
}

/// The four channels of a packed colour pack to the same colour again.
pub proof fn lemma_channels_repack(color: u32)
    ensures
        pack(red(color), green(color), blue(color), alpha(color)) == color,
        0 <= red(color) <= 255,
        0 <= green(color) <= 255,
        0 <= blue(color) <= 255,
        0 <= alpha(color) <= 255,
{
}

/// Under the brightness one a colour stays as it is.
pub proof fn lemma_full_brightness_keeps_colour(color: u32)
    ensures
        shade(color, ONE as int) == color,
{
    lemma_channels_repack(color);
    assert(lit(red(color), ONE as int) == red(color));
    assert(lit(green(color), ONE as int) == green(color));
    assert(lit(blue(color), ONE as int) == blue(color));
}

/// A component of a vector, divided by the length of the vector, lies between
/// minus one and one.
pub proof fn lemma_component_is_bounded(c: int, sum: int)
    requires
        fits(c),
        0 <= c * c <= sum,
    ensures
        -ONE <= unit_component(c, saturate(root(sum))) <= ONE,
{
    lemma_root_exists(sum);
    let r = root(sum);
    let len = saturate(r);
    let a = if c >= 0 {
        c
    } else {
        -c
    };
    assert(a * a == c * c) by (nonlinear_arith)
        requires
            a == c || a == -c,
    ;
    if a > r {
        assert((r + 1) * (r + 1) <= a * a) by (nonlinear_arith)
            requires
                0 <= r,
                r + 1 <= a,
        ;
    }
    if len == 0 {
        assert(r == 0);
        assert((r + 1) * (r + 1) == 1) by (nonlinear_arith)
            requires
                r == 0,
        ;
        assert(a * a < 1);
        assert(a == 0) by (nonlinear_arith)
            requires
                a >= 0,
                a * a < 1,
        ;
    } else {
        assert(a <= len + 1);
        assert(a > len ==> len > ONE);
        assert(a * ONE < len * (ONE + 1)) by (nonlinear_arith)
            requires
                0 <= a <= len + 1,
                a > len ==> len > ONE,
                len > 0,
        ;
        assert((a * ONE) / len <= ONE) by (nonlinear_arith)
            requires
                0 <= a * ONE < len * (ONE + 1),
                len > 0,
        ;
        assert(0 <= (a * ONE) / len) by (nonlinear_arith)
            requires
                0 <= a * ONE,
                len > 0,
        ;
        if c >= 0 {
            assert(quotient(c * ONE, len) == (a * ONE) / len);
        } else {
            assert(-(c * ONE) == a * ONE) by (nonlinear_arith)
                requires
                    a == -c,
            ;
            assert(c * ONE < 0) by (nonlinear_arith)
                requires
                    c < 0,
            ;
            assert(quotient(c * ONE, len) == -((a * ONE) / len));
        }
    }
}

/// Each component of a vector that has been scaled to unit length lies between
/// minus one and one.
pub proof fn lemma_unit_is_bounded(v: Vec3d)
    ensures
        -ONE <= unit(v).x@ <= ONE,
        -ONE <= unit(v).y@ <= ONE,
        -ONE <= unit(v).z@ <= ONE,
{
    let sum = square_sum(v.x@, v.y@, v.z@);
    assert(0 <= v.x@ * v.x@ && 0 <= v.y@ * v.y@ && 0 <= v.z@ * v.z@) by (nonlinear_arith);
    lemma_component_is_bounded(v.x@, sum);
    lemma_component_is_bounded(v.y@, sum);
    lemma_component_is_bounded(v.z@, sum);
}

} // verus!
