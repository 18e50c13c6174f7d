use muscle::buffer::FrameBuffer;
use muscle::cg::{
    advance, between, divide_on_sections, fill_pair, fill_row, find_brightnesses,
    find_midpoint2, process_sections, skip, sort_by_y,
};
use muscle::constants::{DEFAULT_COLOR, HEIGHT, MIN_Z, WIDTH};
use muscle::fixed::Fixed;
use muscle::primitives::{IntYPoint3d, Section, Vec3d};

const S: i64 = 65536;
const RED: u32 = 0xFF0000FF;
const GREEN: u32 = 0x00FF00FF;

fn fx(v: i32) -> Fixed {
    Fixed::from_int(v)
}

fn vertex(x: i32, y: i32, z: i32) -> IntYPoint3d {
    IntYPoint3d { x: fx(x), y, z: fx(z) }
}

fn normal(tag: i32) -> Vec3d {
    Vec3d::new(fx(tag), fx(0), fx(0))
}

fn draw(buf: &mut FrameBuffer, vertices: [IntYPoint3d; 3], brightnesses: [Fixed; 3], color: u32) {
    let mut points = vertices;
    let mut normals = [normal(0), normal(1), normal(2)];
    sort_by_y(&mut points, &mut normals);
    let mut sorted = [Fixed::zero(); 3];
    for i in 0..3 {
        sorted[i] = brightnesses[normals[i].x.round() as usize];
    }
    process_sections(buf, divide_on_sections(points, sorted), color);
}

fn scenario(z_outer: i32, z_apex: i32) -> [IntYPoint3d; 3] {
    [vertex(100, 100, z_outer), vertex(200, 100, z_outer), vertex(150, 50, z_apex)]
}

fn in_scenario(x: usize, y: usize) -> bool {
    (50..=100).contains(&y) && (x as i64 - 150).abs() <= y as i64 - 50
}

fn same_pixels(a: &FrameBuffer, b: &FrameBuffer) -> bool {
    for y in 0..HEIGHT {
        for x in 0..WIDTH {
            if a.color_at(x, y) != b.color_at(x, y) || a.depth_at(x, y) != b.depth_at(x, y) {
                return false;
            }
        }
    }
    true
}

fn written(buf: &FrameBuffer) -> usize {
    let mut n = 0;
    for y in 0..HEIGHT {
        for x in 0..WIDTH {
            if buf.depth_at(x, y).raw != MIN_Z {
                n += 1;
            }
        }
    }
    n
}

#[test]
fn sort_by_y_orders_by_scanline_then_column() {
    let mut points = [vertex(200, 100, 1), vertex(150, 50, 2), vertex(100, 100, 3)];
    let mut normals = [normal(0), normal(1), normal(2)];
    sort_by_y(&mut points, &mut normals);
    assert_eq!(points, [vertex(150, 50, 2), vertex(100, 100, 3), vertex(200, 100, 1)]);
    assert_eq!(normals, [normal(1), normal(2), normal(0)]);
}

#[test]
fn sort_by_y_handles_every_order() {
    let a = vertex(5, 1, 0);
    let b = vertex(3, 2, 0);
    let c = vertex(4, 2, 0);
    let orders = [[0, 1, 2], [0, 2, 1], [1, 0, 2], [1, 2, 0], [2, 0, 1], [2, 1, 0]];
    let all = [a, b, c];
    for order in orders {
        let mut points = [all[order[0]], all[order[1]], all[order[2]]];
        let mut normals = [
            normal(order[0] as i32),
            normal(order[1] as i32),
            normal(order[2] as i32),
        ];
        sort_by_y(&mut points, &mut normals);
        assert_eq!(points, [a, b, c]);
        assert_eq!(normals, [normal(0), normal(1), normal(2)]);
    }
}

#[test]
fn sort_by_y_leaves_equal_vertices_in_place() {
    let mut points = [vertex(7, 7, 1), vertex(7, 7, 2), vertex(7, 7, 3)];
    let mut normals = [normal(0), normal(1), normal(2)];
    sort_by_y(&mut points, &mut normals);
    assert_eq!(points, [vertex(7, 7, 1), vertex(7, 7, 2), vertex(7, 7, 3)]);
    assert_eq!(normals, [normal(0), normal(1), normal(2)]);
}

#[test]
fn between_interpolates() {
    assert_eq!(between(fx(150), fx(200), 25, 50), fx(175));
    assert_eq!(between(fx(150), fx(200), 0, 50), fx(150));
    assert_eq!(between(fx(150), fx(200), 50, 50), fx(200));
    assert_eq!(between(fx(200), fx(150), 25, 50), fx(175));
    assert_eq!(between(fx(150), fx(200), 10, 0), fx(200));
    assert_eq!(between(Fixed::from_raw(0), Fixed::from_raw(7), 1, 2).raw, 3);
    assert_eq!(between(Fixed::from_raw(0), Fixed::from_raw(-7), 1, 2).raw, -3);
}

#[test]
fn find_midpoint2_lies_on_the_edge() {
    let min = vertex(150, 50, 1);
    let max = vertex(200, 100, 5);
    assert_eq!(find_midpoint2(&min, &max, 100), vertex(200, 100, 5));
    assert_eq!(find_midpoint2(&min, &max, 75), vertex(175, 75, 3));
    assert_eq!(find_midpoint2(&min, &max, 50), vertex(150, 50, 1));
    let flat = vertex(300, 50, 9);
    assert_eq!(find_midpoint2(&min, &flat, 50), vertex(300, 50, 9));
}

#[test]
fn find_brightnesses_follow_the_angle_to_the_light() {
    let light = Vec3d::new(fx(0), fx(0), fx(1));
    let normals = [
        Vec3d::new(fx(0), fx(0), fx(1)),
        Vec3d::new(fx(1), fx(0), fx(0)),
        Vec3d::new(fx(0), fx(0), fx(-1)),
    ];
    let b = find_brightnesses(normals, &light);
    assert_eq!([b[0].raw, b[1].raw, b[2].raw], [65536, 39322, 13108]);
    let half = Vec3d::new(fx(0), fx(0), Fixed::from_raw(32768));
    let c = find_brightnesses([half, half, half], &light);
    assert_eq!(c[0].raw, 39322 + 13107);
    let zero = Vec3d::default();
    assert_eq!(find_brightnesses([zero, zero, zero], &light)[1].raw, 39322);
}

#[test]
fn find_brightnesses_are_not_clamped() {
    let light = Vec3d::new(fx(0), fx(0), fx(1));
    let long = Vec3d::new(fx(0), fx(0), fx(10));
    assert_eq!(find_brightnesses([long, long, long], &light)[0].raw, 39322 + 262140);
    let away = Vec3d::new(fx(0), fx(0), fx(-10));
    assert_eq!(find_brightnesses([away, away, away], &light)[0].raw, 39322 - 262140);
}

#[test]
fn divide_with_the_middle_vertex_on_the_left() {
    let p = [vertex(150, 50, 1), vertex(100, 100, 5), vertex(200, 100, 5)];
    let b = [fx(1), fx(2), fx(3)];
    let mid = vertex(200, 100, 5);
    let s = divide_on_sections(p, b);
    assert_eq!(s[0], Section::new(&p[0], &p[1], b[0], b[1]));
    assert_eq!(s[1], Section::new(&p[0], &mid, b[0], fx(3)));
    assert_eq!(s[2], Section::new(&p[1], &p[2], b[1], b[2]));
    assert_eq!(s[3], Section::new(&mid, &p[2], fx(3), b[2]));
    assert_eq!(s[0].x_step, fx(-1));
    assert_eq!(s[1].x_step, fx(1));
}

#[test]
fn divide_with_the_middle_vertex_on_the_right() {
    let p = [vertex(150, 50, 0), vertex(200, 100, 4), vertex(100, 150, 8)];
    let b = [fx(1), fx(5), fx(3)];
    let mid = vertex(125, 100, 4);
    let s = divide_on_sections(p, b);
    assert_eq!(s[0], Section::new(&p[0], &mid, b[0], fx(2)));
    assert_eq!(s[1], Section::new(&p[0], &p[1], b[0], b[1]));
    assert_eq!(s[2], Section::new(&mid, &p[2], fx(2), b[2]));
    assert_eq!(s[3], Section::new(&p[1], &p[2], b[1], b[2]));
}

#[test]
fn divide_a_triangle_without_height() {
    let p = [vertex(100, 10, 1), vertex(150, 10, 2), vertex(200, 10, 3)];
    let b = [fx(1), fx(2), fx(3)];
    let s = divide_on_sections(p, b);
    let there = Section::new(&p[0], &p[2], b[0], b[2]);
    let back = Section::new(&p[2], &p[0], b[2], b[0]);
    assert_eq!(s, [there, back, back, there]);
    assert_eq!(there.x_step.raw, 0);
}

#[test]
fn advance_and_skip_move_an_edge() {
    let s = Section::new(&vertex(100, -20, 1), &vertex(80, 20, 5), fx(0), fx(4));
    let one = advance(s);
    assert_eq!(one.x_start.raw, 100 * S - 32768);
    assert_eq!(one.z_start.raw, S + 6553);
    assert_eq!(one.br_start.raw, 6553);
    assert_eq!((one.y_start, one.y_end), (-20, 20));
    assert_eq!((one.x_step, one.z_step, one.br_step), (s.x_step, s.z_step, s.br_step));
    let twenty = skip(s, 20);
    assert_eq!(twenty.x_start, fx(90));
    assert_eq!(twenty.z_start.raw, S + 20 * 6553);
    assert_eq!(twenty.br_start.raw, 20 * 6553);
    let mut stepped = s;
    for _ in 0..20 {
        stepped = advance(stepped);
    }
    assert_eq!(stepped, twenty);
}

#[test]
fn fill_row_interpolates_depth_and_brightness() {
    let mut buf = FrameBuffer::new();
    let left = Section::new(&vertex(10, 5, 0), &vertex(10, 5, 0), fx(0), fx(0));
    let right = Section::new(&vertex(14, 5, 8), &vertex(14, 5, 8), fx(1), fx(1));
    fill_row(&mut buf, 5, &left, &right, 0xFFFFFFFF);
    for x in 10..=14usize {
        assert_eq!(buf.depth_at(x, 5), fx(2 * (x as i32 - 10)));
    }
    assert_eq!(buf.color_at(10, 5), 0x000000FF);
    assert_eq!(buf.color_at(11, 5), 0x404040FF);
    assert_eq!(buf.color_at(12, 5), 0x808080FF);
    assert_eq!(buf.color_at(13, 5), 0xBFBFBFFF);
    assert_eq!(buf.color_at(14, 5), 0xFFFFFFFF);
    assert_eq!(written(&buf), 5);
}

#[test]
fn fill_row_of_one_column() {
    let mut buf = FrameBuffer::new();
    let left = Section::new(&vertex(10, 5, 3), &vertex(10, 5, 3), fx(1), fx(1));
    let right = Section::new(&vertex(10, 5, 9), &vertex(10, 5, 9), fx(0), fx(0));
    fill_row(&mut buf, 5, &left, &right, RED);
    assert_eq!(buf.depth_at(10, 5), fx(3));
    assert_eq!(buf.color_at(10, 5), RED);
    assert_eq!(written(&buf), 1);
}

#[test]
fn fill_row_stops_at_the_right_border() {
    let mut buf = FrameBuffer::new();
    let left = Section::new(&vertex(790, 0, 1), &vertex(790, 0, 1), fx(1), fx(1));
    let right = Section::new(&vertex(900, 0, 1), &vertex(900, 0, 1), fx(1), fx(1));
    fill_row(&mut buf, 0, &left, &right, RED);
    for x in 790..800usize {
        assert_eq!(buf.color_at(x, 0), RED);
    }
    assert_eq!(written(&buf), 10);
    let mut off = FrameBuffer::new();
    let far = Section::new(&vertex(800, 0, 1), &vertex(800, 0, 1), fx(1), fx(1));
    fill_row(&mut off, 0, &far, &right, RED);
    assert_eq!(written(&off), 0);
}

#[test]
fn fill_row_that_begins_left_of_the_screen_is_carried_to_column_zero() {
    let mut buf = FrameBuffer::new();
    let left = Section::new(&vertex(-50, 3, 0), &vertex(-50, 3, 0), fx(0), fx(0));
    let right = Section::new(&vertex(4, 3, 8), &vertex(4, 3, 8), fx(1), fx(1));
    fill_row(&mut buf, 3, &left, &right, 0xFFFFFFFF);
    for x in 0..=4usize {
        assert_eq!(buf.depth_at(x, 3).raw, (50 + x as i64) * 9709);
    }
    assert_eq!(buf.color_at(0, 3), 0xECECECFF);
    assert_eq!(written(&buf), 5);
}

#[test]
fn fill_row_left_of_the_screen_draws_nothing() {
    let mut buf = FrameBuffer::new();
    let left = Section::new(&vertex(-50, 3, 1), &vertex(-50, 3, 1), fx(1), fx(1));
    let right = Section::new(&vertex(-1, 3, 1), &vertex(-1, 3, 1), fx(1), fx(1));
    fill_row(&mut buf, 3, &left, &right, RED);
    assert_eq!(written(&buf), 0);
    let edge = Section::new(&vertex(0, 3, 1), &vertex(0, 3, 1), fx(1), fx(1));
    fill_row(&mut buf, 3, &left, &edge, RED);
    assert_eq!(written(&buf), 1);
    assert_eq!(buf.color_at(0, 3), RED);
}

#[test]
fn fill_row_with_the_right_edge_left_of_the_left_edge_draws_nothing() {
    let mut buf = FrameBuffer::new();
    let left = Section::new(&vertex(20, 3, 1), &vertex(20, 3, 1), fx(1), fx(1));
    let right = Section::new(&vertex(10, 3, 1), &vertex(10, 3, 1), fx(1), fx(1));
    fill_row(&mut buf, 3, &left, &right, RED);
    assert_eq!(written(&buf), 0);
}

#[test]
fn fill_pair_skips_the_rows_above_the_screen() {
    let mut buf = FrameBuffer::new();
    let left = Section::new(&vertex(100, -20, 1), &vertex(80, 20, 1), fx(1), fx(1));
    let right = Section::new(&vertex(100, -20, 1), &vertex(120, 20, 1), fx(1), fx(1));
    fill_pair(&mut buf, left, right, RED);
    let mut expected = 0;
    for y in 0..=20usize {
        let from = 90 - y / 2;
        let to = 110 + (y + 1) / 2;
        for x in from..=to {
            assert_eq!(buf.color_at(x, y), RED);
        }
        assert_eq!(buf.color_at(from - 1, y), DEFAULT_COLOR);
        assert_eq!(buf.color_at(to + 1, y), DEFAULT_COLOR);
        expected += to - from + 1;
    }
    assert_eq!(written(&buf), expected);
}

#[test]
fn fill_pair_stops_at_the_bottom_border() {
    let mut buf = FrameBuffer::new();
    let left = Section::new(&vertex(10, 590, 1), &vertex(10, 700, 1), fx(1), fx(1));
    let right = Section::new(&vertex(12, 590, 1), &vertex(12, 700, 1), fx(1), fx(1));
    fill_pair(&mut buf, left, right, RED);
    assert_eq!(written(&buf), 3 * 10);
    assert_eq!(buf.color_at(11, 599), RED);
    assert_eq!(buf.color_at(11, 589), DEFAULT_COLOR);
}

#[test]
fn fill_pair_entirely_off_the_screen_draws_nothing() {
    let mut above = FrameBuffer::new();
    let left = Section::new(&vertex(10, -50, 1), &vertex(10, -1, 1), fx(1), fx(1));
    let right = Section::new(&vertex(12, -50, 1), &vertex(12, -1, 1), fx(1), fx(1));
    fill_pair(&mut above, left, right, RED);
    assert_eq!(written(&above), 0);
    let mut below = FrameBuffer::new();
    let left = Section::new(&vertex(10, 600, 1), &vertex(10, 650, 1), fx(1), fx(1));
    let right = Section::new(&vertex(12, 600, 1), &vertex(12, 650, 1), fx(1), fx(1));
    fill_pair(&mut below, left, right, RED);
    assert_eq!(written(&below), 0);
}

#[test]
fn fill_pair_with_inverted_start_draws_nothing() {
    let mut buf = FrameBuffer::new();
    let left = Section::new(&vertex(20, 5, 1), &vertex(20, 9, 1), fx(1), fx(1));
    let right = Section::new(&vertex(10, 5, 1), &vertex(30, 9, 1), fx(1), fx(1));
    fill_pair(&mut buf, left, right, RED);
    assert_eq!(written(&buf), 0);
}

#[test]
fn scenario_triangle_is_filled_in_pure_red() {
    let mut buf = FrameBuffer::new();
    draw(&mut buf, scenario(5, 1), [Fixed::one(); 3], RED);
    for y in 0..HEIGHT {
        for x in 0..WIDTH {
            if in_scenario(x, y) {
                assert_eq!(buf.color_at(x, y), RED);
            } else {
                assert_eq!(buf.color_at(x, y), DEFAULT_COLOR);
                assert_eq!(buf.depth_at(x, y).raw, MIN_Z);
            }
        }
    }
    assert_eq!(buf.depth_at(150, 50), fx(1));
    assert_eq!(buf.depth_at(100, 100), fx(5));
    assert_eq!(buf.depth_at(150, 100), fx(5));
    assert_eq!(buf.depth_at(200, 100), fx(5));
    assert_eq!(buf.depth_at(150, 75).raw, S + 25 * 5242);
}

#[test]
fn nearer_triangle_overwrites_the_footprint() {
    let mut buf = FrameBuffer::new();
    draw(&mut buf, scenario(5, 1), [Fixed::one(); 3], RED);
    draw(&mut buf, scenario(10, 10), [Fixed::one(); 3], GREEN);
    for y in 0..HEIGHT {
        for x in 0..WIDTH {
            if in_scenario(x, y) {
                assert_eq!(buf.color_at(x, y), GREEN);
                assert_eq!(buf.depth_at(x, y), fx(10));
            } else {
                assert_eq!(buf.color_at(x, y), DEFAULT_COLOR);
            }
        }
    }
}

#[test]
fn farther_triangle_does_not_overwrite() {
    let mut buf = FrameBuffer::new();
    draw(&mut buf, scenario(10, 10), [Fixed::one(); 3], GREEN);
    draw(&mut buf, scenario(5, 1), [Fixed::one(); 3], RED);
    let mut other = FrameBuffer::new();
    draw(&mut other, scenario(5, 1), [Fixed::one(); 3], RED);
    draw(&mut other, scenario(10, 10), [Fixed::one(); 3], GREEN);
    assert!(same_pixels(&buf, &other));
}

#[test]
fn depth_does_not_depend_on_the_order_of_drawing() {
    let a = [vertex(100, 100, 5), vertex(300, 120, 9), vertex(180, 300, 1)];
    let b = [vertex(150, 80, 7), vertex(120, 280, 2), vertex(320, 200, 6)];
    let mut first = FrameBuffer::new();
    draw(&mut first, a, [fx(1), fx(1), fx(1)], RED);
    draw(&mut first, b, [fx(1), fx(1), fx(1)], GREEN);
    let mut second = FrameBuffer::new();
    draw(&mut second, b, [fx(1), fx(1), fx(1)], GREEN);
    draw(&mut second, a, [fx(1), fx(1), fx(1)], RED);
    let mut only_a = FrameBuffer::new();
    draw(&mut only_a, a, [fx(1), fx(1), fx(1)], RED);
    let mut only_b = FrameBuffer::new();
    draw(&mut only_b, b, [fx(1), fx(1), fx(1)], GREEN);
    let mut overlap = 0;
    for y in 0..HEIGHT {
        for x in 0..WIDTH {
            assert_eq!(first.depth_at(x, y), second.depth_at(x, y));
            let za = only_a.depth_at(x, y).raw;
            let zb = only_b.depth_at(x, y).raw;
            assert_eq!(first.depth_at(x, y).raw, za.max(zb));
            if za != MIN_Z && zb != MIN_Z {
                overlap += 1;
            }
        }
    }
    assert!(overlap > 1000);
}

#[test]
fn flat_triangle_is_one_row() {
    let mut buf = FrameBuffer::new();
    let flat = [vertex(100, 10, 1), vertex(150, 10, 2), vertex(200, 10, 3)];
    draw(&mut buf, flat, [fx(1), fx(1), fx(1)], RED);
    for y in 0..HEIGHT {
        for x in 0..WIDTH {
            if y == 10 && (100..=200).contains(&x) {
                assert_eq!(buf.color_at(x, y), RED);
            } else {
                assert_eq!(buf.color_at(x, y), DEFAULT_COLOR);
            }
        }
    }
    assert_eq!(buf.depth_at(100, 10), fx(1));
    assert_eq!(buf.depth_at(200, 10).raw, S + 100 * 1310);
    let mut row = FrameBuffer::new();
    let there = Section::new(&flat[0], &flat[2], fx(1), fx(1));
    let back = Section::new(&flat[2], &flat[0], fx(1), fx(1));
    fill_row(&mut row, 10, &there, &back, RED);
    assert!(same_pixels(&buf, &row));
}

#[test]
fn flat_triangle_equals_the_first_row_of_a_trapezoid() {
    let mut flat = FrameBuffer::new();
    draw(&mut flat, [vertex(100, 10, 4), vertex(150, 10, 4), vertex(200, 10, 4)], [fx(1); 3], RED);
    let mut pair = FrameBuffer::new();
    let left = Section::new(&vertex(100, 10, 4), &vertex(100, 10, 4), fx(1), fx(1));
    let right = Section::new(&vertex(200, 10, 4), &vertex(200, 10, 4), fx(1), fx(1));
    fill_pair(&mut pair, left, right, RED);
    assert!(same_pixels(&flat, &pair));
    assert_eq!(written(&flat), 101);
}

#[test]
fn a_single_point_draws_one_pixel() {
    let mut buf = FrameBuffer::new();
    draw(&mut buf, [vertex(40, 30, 2), vertex(40, 30, 2), vertex(40, 30, 2)], [fx(1); 3], RED);
    assert_eq!(written(&buf), 1);
    assert_eq!(buf.color_at(40, 30), RED);
}

#[test]
fn brightness_of_every_pixel_lies_between_the_vertices() {
    let mut buf = FrameBuffer::new();
    let b = [Fixed::from_raw(13107), Fixed::from_raw(39322), Fixed::from_raw(65536)];
    draw(&mut buf, [vertex(100, 100, 5), vertex(300, 120, 9), vertex(180, 300, 1)], b, 0xFFFFFFFF);
    let mut seen = 0;
    for y in 0..HEIGHT {
        for x in 0..WIDTH {
            if buf.depth_at(x, y).raw != MIN_Z {
                let c = buf.color_at(x, y);
                let r = c >> 24;
                assert!((51..=255).contains(&r));
                assert_eq!((c >> 16) & 0xFF, r);
                assert_eq!((c >> 8) & 0xFF, r);
                assert_eq!(c & 0xFF, 0xFF);
                seen += 1;
            }
        }
    }
    assert!(seen > 10000);
    assert_eq!(buf.color_at(100, 100), 0x333333FF);
}

#[test]
fn first_vertex_on_the_screen_is_drawn() {
    let mut buf = FrameBuffer::new();
    draw(&mut buf, [vertex(-50, 700, 3), vertex(900, 650, 3), vertex(10, 599, 3)], [fx(1); 3], RED);
    assert_eq!(buf.color_at(10, 599), RED);
    assert_eq!(buf.depth_at(10, 599), fx(3));
}

#[test]
fn triangles_with_extreme_coordinates_are_clipped() {
    let far = |x: i64, y: i32, z: i64| IntYPoint3d {
        x: Fixed::from_raw(x),
        y,
        z: Fixed::from_raw(z),
    };
    let mut buf = FrameBuffer::new();
    draw(
        &mut buf,
        [far(i64::MIN, i32::MIN, i64::MIN), far(i64::MAX, i32::MIN, i64::MAX), far(0, i32::MAX, 0)],
        [Fixed::from_raw(i64::MIN), Fixed::from_raw(i64::MAX), Fixed::zero()],
        RED,
    );
    draw(
        &mut buf,
        [far(i64::MAX, i32::MAX, 0), far(i64::MAX, i32::MAX, 0), far(i64::MAX, i32::MAX, 0)],
        [Fixed::one(); 3],
        RED,
    );
    draw(
        &mut buf,
        [far(i64::MIN, 5, 1), far(i64::MAX, 5, 1), far(0, 5, 1)],
        [Fixed::one(); 3],
        GREEN,
    );
    for x in 0..WIDTH {
        assert_eq!(buf.depth_at(x, 5).raw, 1);
        assert_eq!(buf.color_at(x, 5), GREEN);
    }
}

#[test]
fn whole_screen_is_covered_by_a_large_triangle() {
    let mut buf = FrameBuffer::new();
    draw(
        &mut buf,
        [vertex(-2000, -100, 3), vertex(3000, -100, 3), vertex(400, 5000, 3)],
        [Fixed::one(); 3],
        RED,
    );
    assert_eq!(written(&buf), WIDTH * HEIGHT);
    assert_eq!(buf.color_at(0, 0), RED);
    assert_eq!(buf.color_at(799, 599), RED);
    assert_eq!(buf.depth_at(400, 300), fx(3));
}

#[test]
fn collinear_triangle_draws_a_line() {
    let mut buf = FrameBuffer::new();
    draw(
        &mut buf,
        [vertex(30, 30, 3), vertex(10, 10, 1), vertex(20, 20, 2)],
        [Fixed::one(); 3],
        RED,
    );
    for y in 10..=30usize {
        assert_eq!(buf.color_at(y, y), RED);
        assert_eq!(buf.color_at(y + 1, y), DEFAULT_COLOR);
        assert_eq!(buf.color_at(y - 1, y), DEFAULT_COLOR);
    }
    assert_eq!(written(&buf), 21);
    assert_eq!(buf.depth_at(10, 10), fx(1));
    assert_eq!(buf.depth_at(20, 20), fx(2));
    assert_eq!(buf.depth_at(30, 30).raw, 2 * S + 10 * (S / 10));
}

#[test]
fn triangle_with_a_flat_top_and_one_with_a_flat_bottom_meet() {
    let mut buf = FrameBuffer::new();
    draw(&mut buf, [vertex(100, 100, 0), vertex(100, 200, 0), vertex(200, 100, 0)], [Fixed::one(); 3], RED);
    for y in 100..=200usize {
        for x in 90..=210usize {
            let inside = x >= 100 && x + y <= 300;
            assert_eq!(buf.color_at(x, y), if inside { RED } else { DEFAULT_COLOR });
        }
    }
    draw(&mut buf, [vertex(200, 200, 0), vertex(100, 200, 0), vertex(200, 100, 0)], [Fixed::one(); 3], GREEN);
    for y in 100..=200usize {
        for x in 90..=210usize {
            let first = x >= 100 && x + y <= 300;
            let second = x <= 200 && x + y > 300;
            let expected = if first { RED } else if second { GREEN } else { DEFAULT_COLOR };
            assert_eq!(buf.color_at(x, y), expected);
        }
    }
}
