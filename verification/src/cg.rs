use vstd::prelude::*;
use crate::buffer::{lemma_paint_concat, lemma_paint_push, paint, Fragment, FrameBuffer};
use crate::constants::{BRIGHTNESS_RANGE, HEIGHT, NEGATIVE_Z_PROJECTION, WIDTH, ZERO_BRIGHTNESS};
use crate::fixed::{
    narrow, nearest_integer, quotient, saturate, scaled_product, wide_product, Fixed, ONE,
};
use crate::matrix::{transformed, Matrix4, Transformator};
use crate::primitives::{
    dot_of, scanline_of, section_between, step_between, step_over, unit, vector_between,
    IntYPoint3d, Point3d, Section, Vec3d,
};

verus! {

/// The raw value reached from `v` after `k` saturating additions of `step`.
pub open spec fn stepped(v: int, step: int, k: nat) -> int
    decreases k,
{
    if k == 0 {
        v
    } else {
        saturate(stepped(v, step, (k - 1) as nat) + step)
    }
}

/// The column nearest to a raw horizontal coordinate.
pub open spec fn column_of(x: int) -> int {
    nearest_integer(x)
}

/// The first column on the screen of a span that starts in column `x_from`.
pub open spec fn first_column(x_from: int) -> int {
    if x_from < 0 {
        0
    } else {
        x_from
    }
}

/// Number of columns of the span from `x_from` to `x_to` that lie on the screen.
pub open spec fn span_len(x_from: int, x_to: int) -> nat {
    let last = if x_to < WIDTH {
        x_to
    } else {
        WIDTH - 1
    };
    if last < first_column(x_from) {
        0
    } else {
        (last - first_column(x_from) + 1) as nat
    }
}

/// The raw value `count` steps further, reached in one stride.
pub open spec fn carried(v: int, step: int, count: int) -> int {
    saturate(v + saturate(step * count))
}

/// The step per column of the depth along the span between two edges.
pub open spec fn span_z_step(left: Section, right: Section) -> int {
    step_between(
        left.z_start@,
        right.z_start@,
        column_of(right.x_start@) - column_of(left.x_start@),
    )
}

/// The step per column of the brightness along the span between two edges.
pub open spec fn span_br_step(left: Section, right: Section) -> int {
    step_between(
        left.br_start@,
        right.br_start@,
        column_of(right.x_start@) - column_of(left.x_start@),
    )
}

/// Number of columns of the span between two edges that lie left of the screen.
pub open spec fn span_lead(left: Section) -> int {
    first_column(column_of(left.x_start@)) - column_of(left.x_start@)
}

/// The fragments of scanline `y` between two edges, from the left edge to the
/// right. The span leads from the column nearest to the left edge to the column
/// nearest to the right edge; depth and brightness take the values of the left
/// edge in its first column and one step per column from there. Only the columns
/// on the screen yield a fragment.
pub open spec fn row_fragments(y: int, left: Section, right: Section) -> Seq<Fragment> {
    Seq::new(
        span_len(column_of(left.x_start@), column_of(right.x_start@)),
        |k: int|
            Fragment {
                x: first_column(column_of(left.x_start@)) + k,
                y,
                z: stepped(
                    carried(left.z_start@, span_z_step(left, right), span_lead(left)),
                    span_z_step(left, right),
                    k as nat,
                ) as i64,
                br: stepped(
                    carried(left.br_start@, span_br_step(left, right), span_lead(left)),
                    span_br_step(left, right),
                    k as nat,
                ) as i64,
            },
    )
}

/// The edge one scanline further.
pub open spec fn advanced(s: Section) -> Section {
    Section {
        y_start: s.y_start,
        y_end: s.y_end,
        x_start: Fixed { raw: saturate(s.x_start@ + s.x_step@) as i64 },
        x_step: s.x_step,
        z_start: Fixed { raw: saturate(s.z_start@ + s.z_step@) as i64 },
        z_step: s.z_step,
        br_start: Fixed { raw: saturate(s.br_start@ + s.br_step@) as i64 },
        br_step: s.br_step,
    }
}

/// The edge `rows` scanlines further, reached in one stride.
pub open spec fn skipped(s: Section, rows: int) -> Section {
    Section {
        y_start: s.y_start,
        y_end: s.y_end,
        x_start: Fixed { raw: carried(s.x_start@, s.x_step@, rows) as i64 },
        x_step: s.x_step,
        z_start: Fixed { raw: carried(s.z_start@, s.z_step@, rows) as i64 },
        z_step: s.z_step,
        br_start: Fixed { raw: carried(s.br_start@, s.br_step@, rows) as i64 },
        br_step: s.br_step,
    }
}

/// The fragments of the scanlines from `y` to `y_end` that lie on the screen,
/// where `left` and `right` are the edges on scanline `y`.
pub open spec fn rows_fragments(left: Section, right: Section, y: int, y_end: int) -> Seq<
    Fragment,
>
    decreases y_end - y + 1,
{
    if y > y_end || y >= HEIGHT {
        Seq::empty()
    } else {
        row_fragments(y, left, right) + rows_fragments(
            advanced(left),
            advanced(right),
            y + 1,
            y_end,
        )
    }
}

/// The fragments of the trapezoid between two edges. A pair whose left edge starts
/// right of its right edge yields none; scanlines above the screen are skipped in one stride.
pub open spec fn pair_fragments(left: Section, right: Section) -> Seq<Fragment> {
    if left.x_start@ > right.x_start@ {
        Seq::empty()
    } else if left.y_start < 0 {
        rows_fragments(
            skipped(left, -left.y_start),
            skipped(right, -left.y_start),
            0,
            left.y_end as int,
        )
    } else {
        rows_fragments(left, right, left.y_start as int, left.y_end as int)
    }
}

/// The fragments of two trapezoids given by four edges: first the pair of the
/// first two edges, then the pair of the last two.
pub open spec fn sections_fragments(s: Seq<Section>) -> Seq<Fragment> {
    pair_fragments(s[0], s[1]) + pair_fragments(s[2], s[3])
}

/// The raw value at `num / den` of the way from `from` to `to`; with `den` zero, at its end.
pub open spec fn along(from: int, to: int, num: int, den: int) -> int {
    let d = saturate(to - from);
    let part = if den == 0 {
        d
    } else {
        saturate(quotient(d * num, den))
    };
    saturate(from + part)
}

/// The point of the edge from `min` to `max` that lies on scanline `mid_y`.
pub open spec fn midpoint_of(min: IntYPoint3d, max: IntYPoint3d, mid_y: i32) -> IntYPoint3d {
    IntYPoint3d {
        x: Fixed { raw: along(min.x@, max.x@, mid_y - min.y, max.y - min.y) as i64 },
        y: mid_y,
        z: Fixed { raw: along(min.z@, max.z@, mid_y - min.y, max.y - min.y) as i64 },
    }
}

/// The brightness on the long edge at the scanline of the middle vertex.
pub open spec fn mid_brightness(p: Seq<IntYPoint3d>, b: Seq<Fixed>) -> Fixed {
    Fixed { raw: along(b[0]@, b[2]@, p[1].y - p[0].y, p[2].y - p[0].y) as i64 }
}

/// The four edges of a triangle whose vertices are in scan order, with the brightness
/// of each vertex. A triangle without height gives two mirrored pairs between its
/// outer vertices. Any other is split at the scanline of its middle vertex; the
/// point of the long edge on that scanline is left or right of the middle vertex,
/// which decides the side of each edge.
pub open spec fn sections_of(p: Seq<IntYPoint3d>, b: Seq<Fixed>) -> Seq<Section> {
    if p[0].y == p[2].y {
        seq![
            section_between(p[0], p[2], b[0], b[2]),
            section_between(p[2], p[0], b[2], b[0]),
            section_between(p[2], p[0], b[2], b[0]),
            section_between(p[0], p[2], b[0], b[2]),
        ]
    } else {
        let mid = midpoint_of(p[0], p[2], p[1].y);
        let mb = mid_brightness(p, b);
        if mid.x@ > p[1].x@ {
            seq![
                section_between(p[0], p[1], b[0], b[1]),
                section_between(p[0], mid, b[0], mb),
                section_between(p[1], p[2], b[1], b[2]),
                section_between(mid, p[2], mb, b[2]),
            ]
        } else {
            seq![
                section_between(p[0], mid, b[0], mb),
                section_between(p[0], p[1], b[0], b[1]),
                section_between(mid, p[2], mb, b[2]),
                section_between(p[1], p[2], b[1], b[2]),
            ]
        }
    }
}

/// The scalar at `num / den` of the way from `from` to `to`.
pub fn between(from: Fixed, to: Fixed, num: i64, den: i64) -> (r: Fixed)
    ensures
        r@ == along(from@, to@, num as int, den as int),
{
    let d = to.minus(from);
    let part = if den == 0 {
        d
    } else {
        d.ratio(num, den)
    };
    from.plus(part)
}

/// The point of the edge from `min` to `max` that lies on scanline `mid_y`.
pub fn find_midpoint2(min: &IntYPoint3d, max: &IntYPoint3d, mid_y: i32) -> (r: IntYPoint3d)
    ensures
        r == midpoint_of(*min, *max, mid_y),
{
    let num: i64 = mid_y as i64 - min.y as i64;
    let den: i64 = max.y as i64 - min.y as i64;
    IntYPoint3d {
        x: between(min.x, max.x, num, den),
        y: mid_y,
        z: between(min.z, max.z, num, den),
    }
}

/// Splits a triangle whose vertices are in scan order into the edges of two trapezoids.
pub fn divide_on_sections(int_points: [IntYPoint3d; 3], brightnesses: [Fixed; 3]) -> (r: [
    Section; 4
])
    ensures
        r@ == sections_of(int_points@, brightnesses@),
{
    if int_points[0].y == int_points[2].y {
        let r = [
            Section::new(&int_points[0], &int_points[2], brightnesses[0], brightnesses[2]),
            Section::new(&int_points[2], &int_points[0], brightnesses[2], brightnesses[0]),
            Section::new(&int_points[2], &int_points[0], brightnesses[2], brightnesses[0]),
            Section::new(&int_points[0], &int_points[2], brightnesses[0], brightnesses[2]),
        ];
        assert(r@ =~= sections_of(int_points@, brightnesses@));
        return r;
    }
    let midpoint2 = find_midpoint2(&int_points[0], &int_points[2], int_points[1].y);
    let midbrightness = between(
        brightnesses[0],
        brightnesses[2],
        int_points[1].y as i64 - int_points[0].y as i64,
        int_points[2].y as i64 - int_points[0].y as i64,
    );
    if midpoint2.x.raw > int_points[1].x.raw {
        let r = [
            Section::new(&int_points[0], &int_points[1], brightnesses[0], brightnesses[1]),
            Section::new(&int_points[0], &midpoint2, brightnesses[0], midbrightness),
            Section::new(&int_points[1], &int_points[2], brightnesses[1], brightnesses[2]),
            Section::new(&midpoint2, &int_points[2], midbrightness, brightnesses[2]),
        ];
        assert(r@ =~= sections_of(int_points@, brightnesses@));
        r
    } else {
        let r = [
            Section::new(&int_points[0], &midpoint2, brightnesses[0], midbrightness),
            Section::new(&int_points[0], &int_points[1], brightnesses[0], brightnesses[1]),
            Section::new(&midpoint2, &int_points[2], midbrightness, brightnesses[2]),
            Section::new(&int_points[1], &int_points[2], brightnesses[1], brightnesses[2]),
        ];
        assert(r@ =~= sections_of(int_points@, brightnesses@));
        r
    }
}

/// The edge one scanline further.
pub fn advance(s: Section) -> (r: Section)
    ensures
        r == advanced(s),
{
    Section {
        y_start: s.y_start,
        y_end: s.y_end,
        x_start: s.x_start.plus(s.x_step),
        x_step: s.x_step,
        z_start: s.z_start.plus(s.z_step),
        z_step: s.z_step,
        br_start: s.br_start.plus(s.br_step),
        br_step: s.br_step,
    }
}

/// The edge `rows` scanlines further.
pub fn skip(s: Section, rows: i64) -> (r: Section)
    ensures
        r == skipped(s, rows as int),
{
    Section {
        y_start: s.y_start,
        y_end: s.y_end,
        x_start: s.x_start.plus(s.x_step.times_int(rows)),
        x_step: s.x_step,
        z_start: s.z_start.plus(s.z_step.times_int(rows)),
        z_step: s.z_step,
        br_start: s.br_start.plus(s.br_step.times_int(rows)),
        br_step: s.br_step,
    }
}

/// Offers the fragments of one scanline between two edges to the buffer.
pub fn fill_row(buf: &mut FrameBuffer, y: usize, left: &Section, right: &Section, color: u32)
    requires
        old(buf).wf(),
        y < HEIGHT,
    ensures
        final(buf).wf(),
        final(buf)@ == paint(old(buf)@, row_fragments(y as int, *left, *right), color),
{
    let x_from: i64 = left.x_start.round();
    let x_to: i64 = right.x_start.round();
    let ghost fragments = row_fragments(y as int, *left, *right);
    if x_to < x_from {
        assert(fragments.len() == 0);
        return ;
    }
    let z_step = step_over(left.z_start, right.z_start, x_to - x_from);
    let br_step = step_over(left.br_start, right.br_start, x_to - x_from);
    let first: i64 = if x_from < 0 {
        0
    } else {
        x_from
    };
    let mut z = left.z_start.plus(z_step.times_int(first - x_from));
    let mut br = left.br_start.plus(br_step.times_int(first - x_from));
    let ghost z_first = z@;
    let ghost br_first = br@;
    let mut x: i64 = first;
    let ghost mut k: nat = 0;
    assert(fragments.take(0) =~= Seq::<Fragment>::empty());
    while x <= x_to && x < WIDTH as i64
        invariant
            buf.wf(),
            y < HEIGHT,
            0 <= first,
            x == first + k,
            x_from == column_of(left.x_start@),
            x_to == column_of(right.x_start@),
            first == first_column(x_from as int),
            fragments == row_fragments(y as int, *left, *right),
            k <= fragments.len(),
            x <= x_to && x < WIDTH ==> k < fragments.len(),
            !(x <= x_to && x < WIDTH) ==> k == fragments.len(),
            z_step@ == span_z_step(*left, *right),
            br_step@ == span_br_step(*left, *right),
            z_first == carried(left.z_start@, z_step@, span_lead(*left)),
            br_first == carried(left.br_start@, br_step@, span_lead(*left)),
            z@ == stepped(z_first, z_step@, k),
            br@ == stepped(br_first, br_step@, k),
            buf@ == paint(old(buf)@, fragments.take(k as int), color),
        decreases WIDTH - x,
    {
        proof {
            lemma_paint_push(old(buf)@, fragments.take(k as int), fragments[k as int], color);
            assert(fragments.take(k as int + 1) =~= fragments.take(k as int).push(
                fragments[k as int],
            ));
        }
        buf.plot(x as usize, y, z, br, color);
        z = z.plus(z_step);
        br = br.plus(br_step);
        x = x + 1;
        proof {
            k = k + 1;
        }
    }
    assert(fragments.take(k as int) =~= fragments);
}

/// Offers the fragments of the trapezoid between two edges to the buffer.
pub fn fill_pair(buf: &mut FrameBuffer, left: Section, right: Section, color: u32)
    requires
        old(buf).wf(),
    ensures
        final(buf).wf(),
        final(buf)@ == paint(old(buf)@, pair_fragments(left, right), color),
{
    if left.x_start.raw > right.x_start.raw {
        return ;
    }
    let mut l = left;
    let mut r = right;
    let mut y: i64 = left.y_start as i64;
    if left.y_start < 0 {
        let diff: i64 = -(left.y_start as i64);
        l = skip(left, diff);
        r = skip(right, diff);
        y = 0;
    }
    let y_end: i64 = left.y_end as i64;
    let ghost total = rows_fragments(l, r, y as int, y_end as int);
    let ghost mut done: Seq<Fragment> = Seq::empty();
    assert(done + total =~= total);
    while y <= y_end && y < HEIGHT as i64
        invariant
            buf.wf(),
            0 <= y,
            buf@ == paint(old(buf)@, done, color),
            done + rows_fragments(l, r, y as int, y_end as int) =~= total,
        decreases HEIGHT - y,
    {
        let ghost row = row_fragments(y as int, l, r);
        let ghost rest = rows_fragments(advanced(l), advanced(r), y + 1, y_end as int);
        proof {
            lemma_paint_concat(old(buf)@, done, row, color);
            assert((done + row) + rest =~= done + (row + rest));
        }
        fill_row(buf, y as usize, &l, &r, color);
        l = advance(l);
        r = advance(r);
        y = y + 1;
        proof {
            done = done + row;
        }
    }
    assert(done + Seq::<Fragment>::empty() =~= done);
}

/// Offers the fragments of the two trapezoids given by four edges to the buffer.
pub fn process_sections(buf: &mut FrameBuffer, sections: [Section; 4], color: u32)
    requires
        old(buf).wf(),
    ensures
        final(buf).wf(),
        final(buf)@ == paint(old(buf)@, sections_fragments(sections@), color),
{
    proof {
        lemma_paint_concat(
            old(buf)@,
            pair_fragments(sections[0], sections[1]),
            pair_fragments(sections[2], sections[3]),
            color,
        );
    }
    fill_pair(buf, sections[0], sections[1], color);
    fill_pair(buf, sections[2], sections[3], color);
}

/// The sequence `s` with the items at `i` and `j` exchanged.
pub open spec fn exchanged<T>(s: Seq<T>, i: int, j: int) -> Seq<T> {
    s.update(i, s[j]).update(j, s[i])
}

/// Vertex `a` comes after vertex `b` in scan order: it lies on a later scanline,
/// or on the same scanline and further right.
pub open spec fn comes_after(a: IntYPoint3d, b: IntYPoint3d) -> bool {
    a.y > b.y || (a.y == b.y && a.x@ > b.x@)
}

/// Vertices and normals with the places `i` and `j` exchanged in both where the
/// vertex at `i` comes after the vertex at `j`.
pub open spec fn sort_step(v: (Seq<IntYPoint3d>, Seq<Vec3d>), i: int, j: int) -> (
    Seq<IntYPoint3d>,
    Seq<Vec3d>,
) {
    if comes_after(v.0[i], v.0[j]) {
        (exchanged(v.0, i, j), exchanged(v.1, i, j))
    } else {
        v
    }
}

/// Three vertices brought into scan order by comparing the first with the third,
/// the first with the second and the second with the third; the normals follow
/// their vertices.
pub open spec fn sorted_by_y(points: Seq<IntYPoint3d>, normals: Seq<Vec3d>) -> (
    Seq<IntYPoint3d>,
    Seq<Vec3d>,
) {
    sort_step(sort_step(sort_step((points, normals), 0, 2), 0, 1), 1, 2)
}

/// No vertex comes after a later one.
pub open spec fn in_scan_order(p: Seq<IntYPoint3d>) -> bool {
    !comes_after(p[0], p[1]) && !comes_after(p[1], p[2]) && !comes_after(p[0], p[2])
}

/// Exchanges the vertices at `i` and `j`, and their normals, where the first comes
/// after the second.
fn order_pair(int_points: &mut [IntYPoint3d; 3], normals: &mut [Vec3d; 3], i: usize, j: usize)
    requires
        i < 3,
        j < 3,
    ensures
        (final(int_points)@, final(normals)@) == sort_step(
            (old(int_points)@, old(normals)@),
            i as int,
            j as int,
        ),
{
    let a = int_points[i];
    let b = int_points[j];
    if a.y > b.y || (a.y == b.y && a.x.raw > b.x.raw) {
        int_points[i] = b;
        int_points[j] = a;
        let na = normals[i];
        let nb = normals[j];
        normals[i] = nb;
        normals[j] = na;
        assert(int_points@ =~= exchanged(old(int_points)@, i as int, j as int));
        assert(normals@ =~= exchanged(old(normals)@, i as int, j as int));
    }
}

/// Brings three vertices into scan order: by scanline, and by column on one
/// scanline. Each normal stays with its vertex.
pub fn sort_by_y(int_points: &mut [IntYPoint3d; 3], normals: &mut [Vec3d; 3])
    ensures
        (final(int_points)@, final(normals)@) == sorted_by_y(old(int_points)@, old(normals)@),
        in_scan_order(final(int_points)@),
{
    order_pair(int_points, normals, 0, 2);
    order_pair(int_points, normals, 0, 1);
    order_pair(int_points, normals, 1, 2);
}

/// Raw brightness of a vertex with unit normal `normal` under light from `light`.
pub open spec fn brightness_of(normal: Vec3d, light: Vec3d) -> int {
    saturate(ZERO_BRIGHTNESS + scaled_product(BRIGHTNESS_RANGE as int, dot_of(normal, light)))
}

/// The brightness of each of three vertices.
pub open spec fn brightnesses_of(normals: Seq<Vec3d>, light: Vec3d) -> Seq<Fixed> {
    Seq::new(3, |i: int| Fixed { raw: brightness_of(normals[i], light) as i64 })
}

/// The brightness of one vertex.
fn find_brightness(normal: &Vec3d, light_source: &Vec3d) -> (r: Fixed)
    ensures
        r@ == brightness_of(*normal, *light_source),
{
    let d = normal.scalar_mul(light_source);
    narrow(ZERO_BRIGHTNESS as i128 + wide_product(Fixed { raw: BRIGHTNESS_RANGE }, d))
}

/// The brightness of each vertex of a triangle from its unit normal and the
/// direction of the light.
pub fn find_brightnesses(normals: [Vec3d; 3], light_source: &Vec3d) -> (r: [Fixed; 3])
    ensures
        r@ == brightnesses_of(normals@, *light_source),
{
    let r = [
        find_brightness(&normals[0], light_source),
        find_brightness(&normals[1], light_source),
        find_brightness(&normals[2], light_source),
    ];
    assert(r@ =~= brightnesses_of(normals@, *light_source));
    r
}

/// Three points as screen vertices, each on the scanline nearest to it.
pub open spec fn quantized(points: Seq<Point3d>) -> Seq<IntYPoint3d> {
    Seq::new(
        3,
        |i: int|
            IntYPoint3d {
                x: points[i].x,
                y: scanline_of(points[i].y@) as i32,
                z: points[i].z,
            },
    )
}

/// The fragments of the triangle with the given corners and unit normals under
/// light from `light`.
pub open spec fn polygon_fragments(points: Seq<Point3d>, normals: Seq<Vec3d>, light: Vec3d) -> Seq<
    Fragment,
> {
    let sorted = sorted_by_y(quantized(points), normals);
    sections_fragments(sections_of(sorted.0, brightnesses_of(sorted.1, light)))
}

/// Draws one triangle: its fragments are offered to the buffer in scan order.
pub fn add_polygon(
    buf: &mut FrameBuffer,
    points: [Point3d; 3],
    normals: [Vec3d; 3],
    light_source: &Vec3d,
    color: u32,
)
    requires
        old(buf).wf(),
    ensures
        final(buf).wf(),
        final(buf)@ == paint(
            old(buf)@,
            polygon_fragments(points@, normals@, *light_source),
            color,
        ),
{
    let mut normals = normals;
    let mut int_points = [
        IntYPoint3d::from(points[0]),
        IntYPoint3d::from(points[1]),
        IntYPoint3d::from(points[2]),
    ];
    assert(int_points@ =~= quantized(points@));
    sort_by_y(&mut int_points, &mut normals);
    let brightnesses = find_brightnesses(normals, light_source);
    let sections = divide_on_sections(int_points, brightnesses);
    process_sections(buf, sections, color);
}

/// Not all three points lie left of the screen, nor all right of it, nor all
/// above it, nor all below it.
pub open spec fn visible(p: Seq<Point3d>) -> bool {
    !((p[0].x@ < 0 && p[1].x@ < 0 && p[2].x@ < 0) || (p[0].x@ >= WIDTH * ONE && p[1].x@ >= WIDTH
        * ONE && p[2].x@ >= WIDTH * ONE) || (p[0].y@ < 0 && p[1].y@ < 0 && p[2].y@ < 0) || (p[0].y@
        >= HEIGHT * ONE && p[1].y@ >= HEIGHT * ONE && p[2].y@ >= HEIGHT * ONE))
}

/// At least one of three normals does not point away from the camera by more than
/// the threshold.
pub open spec fn facing(n: Seq<Vec3d>) -> bool {
    n[0].z@ >= NEGATIVE_Z_PROJECTION || n[1].z@ >= NEGATIVE_Z_PROJECTION || n[2].z@
        >= NEGATIVE_Z_PROJECTION
}

/// The depth component of the sum of three normals is above the threshold.
pub open spec fn facing_in_sum(n: Seq<Vec3d>) -> bool {
    saturate(saturate(n[0].z@ + n[1].z@) + n[2].z@) > NEGATIVE_Z_PROJECTION
}

/// Whether a triangle may touch the screen.
pub fn check_pos_all(points: &[Point3d; 3]) -> (r: bool)
    ensures
        r == visible(points@),
{
    let right: i64 = (WIDTH as i64) * ONE;
    let bottom: i64 = (HEIGHT as i64) * ONE;
    let all_left = points[0].x.raw < 0 && points[1].x.raw < 0 && points[2].x.raw < 0;
    let all_right = points[0].x.raw >= right && points[1].x.raw >= right && points[2].x.raw
        >= right;
    let all_down = points[0].y.raw < 0 && points[1].y.raw < 0 && points[2].y.raw < 0;
    let all_up = points[0].y.raw >= bottom && points[1].y.raw >= bottom && points[2].y.raw
        >= bottom;
    !(all_left || all_right || all_down || all_up)
}

/// Whether a triangle is turned towards the camera at one vertex at least.
pub fn check_normals_all(normals: &[Vec3d; 3]) -> (r: bool)
    ensures
        r == facing(normals@),
{
    let mut res = normals[0].z.raw >= NEGATIVE_Z_PROJECTION;
    res = res || normals[1].z.raw >= NEGATIVE_Z_PROJECTION;
    res = res || normals[2].z.raw >= NEGATIVE_Z_PROJECTION;
    res
}

/// Whether the sum of the normals of a triangle is turned towards the camera.
pub fn check_normals_all_sum(normals: &[Vec3d; 3]) -> (r: bool)
    ensures
        r == facing_in_sum(normals@),
{
    let mut res = normals[0];
    res = res.add(&normals[1]);
    res = res.add(&normals[2]);
    res.z.raw > NEGATIVE_Z_PROJECTION
}

/// A vertex as it is drawn: the point under the transform, and the unit vector
/// that leads from it to the transformed point that marks its normal.
pub open spec fn lit_vertex(point: Point3d, norm_point: Point3d, m: Seq<Seq<int>>) -> (
    Point3d,
    Vec3d,
) {
    (
        transformed(m, point),
        unit(vector_between(transformed(m, point), transformed(m, norm_point))),
    )
}

/// Transforms a point and the point that marks its normal, and gives the
/// transformed point with its unit normal.
pub fn transform_and_normalize(point: Point3d, norm_point: Point3d, matrix: &Matrix4) -> (r: (
    Point3d,
    Vec3d,
))
    ensures
        r == lit_vertex(point, norm_point, matrix@),
{
    let mut point = point;
    let mut norm_point = norm_point;
    matrix.apply_to_point(&mut point);
    matrix.apply_to_point(&mut norm_point);
    let mut norm_vec = Vec3d::from_pts(&point, &norm_point);
    norm_vec.normalize();
    (point, norm_vec)
}

/// The fragments of the triangle in the window, if it may touch the screen and is
/// turned towards the camera; none otherwise.
pub open spec fn window_fragments(points: Seq<Point3d>, normals: Seq<Vec3d>, light: Vec3d) -> Seq<
    Fragment,
> {
    if visible(points) && facing(normals) {
        polygon_fragments(points, normals, light)
    } else {
        Seq::empty()
    }
}

/// The fragments of a strip from its vertex `k` on. Each vertex replaces the
/// vertex at place `k % 3` of the window of the last three, and the window is
/// then drawn as a triangle.
pub open spec fn strip_fragments(
    points: Seq<Point3d>,
    normals: Seq<Point3d>,
    m: Seq<Seq<int>>,
    light: Vec3d,
    window_points: Seq<Point3d>,
    window_normals: Seq<Vec3d>,
    k: int,
) -> Seq<Fragment>
    decreases points.len() - k,
{
    if k >= points.len() {
        Seq::empty()
    } else {
        let v = lit_vertex(points[k], normals[k], m);
        let wp = window_points.update(k % 3, v.0);
        let wn = window_normals.update(k % 3, v.1);
        window_fragments(wp, wn, light) + strip_fragments(points, normals, m, light, wp, wn, k + 1)
    }
}

/// The point at the origin.
pub open spec fn origin() -> Point3d {
    Point3d { x: Fixed { raw: 0 }, y: Fixed { raw: 0 }, z: Fixed { raw: 0 } }
}

/// The vector of length zero.
pub open spec fn null_vector() -> Vec3d {
    Vec3d { x: Fixed { raw: 0 }, y: Fixed { raw: 0 }, z: Fixed { raw: 0 } }
}

/// The fragments of one strip of triangles. The window starts with the first two
/// vertices of the strip.
pub open spec fn group_fragments(
    points: Seq<Point3d>,
    normals: Seq<Point3d>,
    m: Seq<Seq<int>>,
    light: Vec3d,
) -> Seq<Fragment> {
    strip_fragments(
        points,
        normals,
        m,
        light,
        seq![lit_vertex(points[0], normals[0], m).0, lit_vertex(points[1], normals[1], m).0, origin()],
        seq![
            lit_vertex(points[0], normals[0], m).1,
            lit_vertex(points[1], normals[1], m).1,
            null_vector(),
        ],
        2,
    )
}

/// The fragments of the strips from strip `g` on, one strip after the other.
pub open spec fn groups_fragments(
    points_groups: Seq<Vec<Point3d>>,
    normals_groups: Seq<Vec<Point3d>>,
    m: Seq<Seq<int>>,
    light: Vec3d,
    g: int,
) -> Seq<Fragment>
    decreases points_groups.len() - g,
{
    if g >= points_groups.len() {
        Seq::empty()
    } else {
        group_fragments(points_groups[g]@, normals_groups[g]@, m, light) + groups_fragments(
            points_groups,
            normals_groups,
            m,
            light,
            g + 1,
        )
    }
}

/// Every strip has a point that marks the normal for each of its vertices, and
/// two vertices at least.
pub open spec fn strips_well_formed(
    points_groups: Seq<Vec<Point3d>>,
    normals_groups: Seq<Vec<Point3d>>,
) -> bool {
    &&& points_groups.len() == normals_groups.len()
    &&& forall|g: int|
        0 <= g < points_groups.len() ==> (#[trigger] points_groups[g])@.len() >= 2
            && points_groups[g]@.len() == normals_groups[g]@.len()
}

/// Decides whether the strips of a mesh can be drawn: whether every strip has
/// two vertices at least and a point that marks the normal for each vertex.
pub fn check_strips(groups: &(Vec<Vec<Point3d>>, Vec<Vec<Point3d>>)) -> (r: bool)
    ensures
        r == strips_well_formed(groups.0@, groups.1@),
{
    if groups.0.len() != groups.1.len() {
        return false;
    }
    let mut g: usize = 0;
    while g < groups.0.len()
        invariant
            g <= groups.0@.len(),
            groups.0@.len() == groups.1@.len(),
            forall|k: int|
                0 <= k < g ==> (#[trigger] groups.0@[k])@.len() >= 2 && groups.0@[k]@.len()
                    == groups.1@[k]@.len(),
        decreases groups.0@.len() - g,
    {
        if groups.0[g].len() < 2 || groups.0[g].len() != groups.1[g].len() {
            return false;
        }
        g = g + 1;
    }
    true
}

/// The last three vertices of a strip, each kept together with its normal.
#[derive(Clone, Copy, Debug)]
pub struct Window {
    pub points: [Point3d; 3],
    pub normals: [Vec3d; 3],
}

impl Window {
    /// The window at the start of a strip: its first two vertices and a slot
    /// that holds nothing yet.
    pub fn start(first: (Point3d, Vec3d), second: (Point3d, Vec3d)) -> (r: Window)
        ensures
            r.points@ == seq![first.0, second.0, origin()],
            r.normals@ == seq![first.1, second.1, null_vector()],
    {
        let r = Window {
            points: [first.0, second.0, Point3d::default()],
            normals: [first.1, second.1, Vec3d::default()],
        };
        assert(r.points@ =~= seq![first.0, second.0, origin()]);
        assert(r.normals@ =~= seq![first.1, second.1, null_vector()]);
        r
    }

    /// Puts vertex `k` of the strip in the place of the oldest vertex of the
    /// window, which is the place `k % 3`.
    pub fn put(&mut self, k: usize, vertex: (Point3d, Vec3d))
        ensures
            final(self).points@ == old(self).points@.update(k as int % 3, vertex.0),
            final(self).normals@ == old(self).normals@.update(k as int % 3, vertex.1),
    {
        self.points[k % 3] = vertex.0;
        self.normals[k % 3] = vertex.1;
        assert(self.points@ =~= old(self).points@.update(k as int % 3, vertex.0));
        assert(self.normals@ =~= old(self).normals@.update(k as int % 3, vertex.1));
    }

    /// Draws the triangle in the window if it may touch the screen and is turned
    /// towards the camera.
    pub fn draw(&self, buf: &mut FrameBuffer, light_source: &Vec3d, color: u32)
        requires
            old(buf).wf(),
        ensures
            final(buf).wf(),
            final(buf)@ == paint(
                old(buf)@,
                window_fragments(self.points@, self.normals@, *light_source),
                color,
            ),
    {
        if check_pos_all(&self.points) && check_normals_all(&self.normals) {
            add_polygon(buf, self.points, self.normals, light_source, color);
        }
    }
}

/// Draws one strip of triangles.
pub fn add_group(
    buf: &mut FrameBuffer,
    points: &Vec<Point3d>,
    normals: &Vec<Point3d>,
    matrix: &Matrix4,
    light_source: &Vec3d,
    color: u32,
)
    requires
        old(buf).wf(),
        points@.len() >= 2,
        points@.len() == normals@.len(),
    ensures
        final(buf).wf(),
        final(buf)@ == paint(
            old(buf)@,
            group_fragments(points@, normals@, matrix@, *light_source),
            color,
        ),
{
    let mut window = Window::start(
        transform_and_normalize(points[0], normals[0], matrix),
        transform_and_normalize(points[1], normals[1], matrix),
    );
    let ghost total = group_fragments(points@, normals@, matrix@, *light_source);
    let ghost mut done: Seq<Fragment> = Seq::empty();
    assert(done + total =~= total);
    let mut k: usize = 2;
    while k < points.len()
        invariant
            buf.wf(),
            2 <= k <= points@.len(),
            points@.len() == normals@.len(),
            buf@ == paint(old(buf)@, done, color),
            done + strip_fragments(
                points@,
                normals@,
                matrix@,
                *light_source,
                window.points@,
                window.normals@,
                k as int,
            ) =~= total,
        decreases points@.len() - k,
    {
        window.put(k, transform_and_normalize(points[k], normals[k], matrix));
        let ghost piece = window_fragments(window.points@, window.normals@, *light_source);
        let ghost rest = strip_fragments(
            points@,
            normals@,
            matrix@,
            *light_source,
            window.points@,
            window.normals@,
            k + 1,
        );
        proof {
            lemma_paint_concat(old(buf)@, done, piece, color);
            assert((done + piece) + rest =~= done + (piece + rest));
        }
        window.draw(buf, light_source, color);
        proof {
            done = done + piece;
        }
        k = k + 1;
    }
    assert(done + Seq::<Fragment>::empty() =~= done);
}

/// Draws a mesh: every strip is walked with a window of three vertices, each
/// vertex is transformed and lit, and each triangle that may touch the screen and
/// is turned towards the camera is drawn.
pub fn transform_and_add(
    buf: &mut FrameBuffer,
    groups: &(Vec<Vec<Point3d>>, Vec<Vec<Point3d>>),
    matrix: &Matrix4,
    light_source: Vec3d,
    color: u32,
)
    requires
        old(buf).wf(),
        strips_well_formed(groups.0@, groups.1@),
    ensures
        final(buf).wf(),
        final(buf)@ == paint(
            old(buf)@,
            groups_fragments(groups.0@, groups.1@, matrix@, light_source, 0),
            color,
        ),
{
    let ghost total = groups_fragments(groups.0@, groups.1@, matrix@, light_source, 0);
    let ghost mut done: Seq<Fragment> = Seq::empty();
    assert(done + total =~= total);
    let mut g: usize = 0;
    while g < groups.0.len()
        invariant
            buf.wf(),
            g <= groups.0@.len(),
            strips_well_formed(groups.0@, groups.1@),
            buf@ == paint(old(buf)@, done, color),
            done + groups_fragments(groups.0@, groups.1@, matrix@, light_source, g as int)
                =~= total,
        decreases groups.0@.len() - g,
    {
        let ghost piece = group_fragments(groups.0@[g as int]@, groups.1@[g as int]@, matrix@, light_source);
        let ghost rest = groups_fragments(groups.0@, groups.1@, matrix@, light_source, g + 1);
        proof {
            lemma_paint_concat(old(buf)@, done, piece, color);
            assert((done + piece) + rest =~= done + (piece + rest));
        }
        add_group(buf, &groups.0[g], &groups.1[g], matrix, &light_source, color);
        proof {
            done = done + piece;
        }
        g = g + 1;
    }
    assert(done + Seq::<Fragment>::empty() =~= done);
}

} // verus!
