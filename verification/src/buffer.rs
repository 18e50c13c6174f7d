use vstd::prelude::*;
use crate::constants::{DEFAULT_COLOR, HEIGHT, MIN_Z, WIDTH};
use crate::fixed::{nearest_integer, Fixed, HALF};

verus! {

/// Number of pixels of the viewport.
pub const PIXELS: usize = 480000;

/// What a frame buffer holds: for each pixel, row by row, the depth of the nearest
/// fragment drawn on it and its packed colour.
pub struct Canvas {
    pub depth: Seq<i64>,
    pub color: Seq<u32>,
}

/// A candidate for one pixel: its column and row, its raw depth and its raw brightness.
pub struct Fragment {
    pub x: int,
    pub y: int,
    pub z: i64,
    pub br: i64,
}

/// Both planes of the canvas cover the whole viewport.
pub open spec fn well_formed(c: Canvas) -> bool {
    c.depth.len() == PIXELS && c.color.len() == PIXELS
}

/// The canvas on which nothing has been drawn.
pub open spec fn cleared() -> Canvas {
    Canvas {
        depth: Seq::new(PIXELS as nat, |i: int| MIN_Z),
        color: Seq::new(PIXELS as nat, |i: int| DEFAULT_COLOR),
    }
}

/// Place of the pixel in column `x` of row `y` within a plane.
pub open spec fn offset(x: int, y: int) -> int {
    y * WIDTH + x
}

/// The pixel lies within the viewport.
pub open spec fn on_screen(x: int, y: int) -> bool {
    0 <= x < WIDTH && 0 <= y < HEIGHT
}

/// The red channel of a packed colour.
pub open spec fn red(color: u32) -> int {
    color as int / 0x100_0000
}

/// The green channel of a packed colour.
pub open spec fn green(color: u32) -> int {
    (color as int / 0x1_0000) % 0x100
}

/// The blue channel of a packed colour.
pub open spec fn blue(color: u32) -> int {
    (color as int / 0x100) % 0x100
}

/// The alpha channel of a packed colour.
pub open spec fn alpha(color: u32) -> int {
    color as int % 0x100
}

/// The packed colour with the given channels, each within a byte.
pub open spec fn pack(r: int, g: int, b: int, a: int) -> int {
    r * 0x100_0000 + g * 0x1_0000 + b * 0x100 + a
}

/// A channel under a raw brightness: the product rounded to the nearest integer
/// and kept within a byte.
pub open spec fn lit(channel: int, br: int) -> int {
    let v = nearest_integer(channel * br);
    if v < 0 {
        0
    } else if v > 255 {
        255
    } else {
        v
    }
}

/// A packed colour under a raw brightness: red, green and blue are lit, alpha is kept.
pub open spec fn shade(color: u32, br: int) -> int {
    pack(lit(red(color), br), lit(green(color), br), lit(blue(color), br), alpha(color))
}

/// The canvas after the fragment has been offered to it: a fragment on the screen that
/// is strictly nearer than what its pixel holds replaces depth and colour there.
pub open spec fn plot(c: Canvas, f: Fragment, color: u32) -> Canvas {
    if on_screen(f.x, f.y) && f.z > c.depth[offset(f.x, f.y)] {
        Canvas {
            depth: c.depth.update(offset(f.x, f.y), f.z),
            color: c.color.update(offset(f.x, f.y), shade(color, f.br as int) as u32),
        }
    } else {
        c
    }
}

/// The canvas after the fragments have been offered to it in order.
pub open spec fn paint(c: Canvas, fragments: Seq<Fragment>, color: u32) -> Canvas
    decreases fragments.len(),
{
    if fragments.len() == 0 {
        c
    } else {
        plot(paint(c, fragments.drop_last(), color), fragments.last(), color)
    }
}

/// Painting keeps the canvas well formed.
pub proof fn lemma_paint_well_formed(c: Canvas, fragments: Seq<Fragment>, color: u32)
    requires
        well_formed(c),
    ensures
        well_formed(paint(c, fragments, color)),
    decreases fragments.len(),
{
    if fragments.len() > 0 {
        lemma_paint_well_formed(c, fragments.drop_last(), color);
    }
}

/// Painting a concatenation is painting its parts one after the other.
pub proof fn lemma_paint_concat(c: Canvas, a: Seq<Fragment>, b: Seq<Fragment>, color: u32)
    ensures
        paint(c, a + b, color) == paint(paint(c, a, color), b, color),
    decreases b.len(),
{
    if b.len() == 0 {
        assert(a + b =~= a);
    } else {
        assert((a + b).drop_last() =~= a + b.drop_last());
        assert((a + b).last() == b.last());
        lemma_paint_concat(c, a, b.drop_last(), color);
    }
}

/// Painting one more fragment is plotting it on what was painted before.
pub proof fn lemma_paint_push(c: Canvas, a: Seq<Fragment>, f: Fragment, color: u32)
    ensures
        paint(c, a.push(f), color) == plot(paint(c, a, color), f, color),
{
    assert(a.push(f).drop_last() =~= a);
}

/// One pixel as it is handed to a display: its place and its four channels.
#[derive(Clone, Copy, Debug, PartialEq, Eq, Structural)]
pub struct Pixel {
    pub x: u32,
    pub y: u32,
    pub r: u8,
    pub g: u8,
    pub b: u8,
    pub a: u8,
}

/// The pixel at place `i` of the colour plane.
pub open spec fn pixel_at(c: Canvas, i: int) -> Pixel {
    Pixel {
        x: (i % WIDTH as int) as u32,
        y: (i / WIDTH as int) as u32,
        r: red(c.color[i]) as u8,
        g: green(c.color[i]) as u8,
        b: blue(c.color[i]) as u8,
        a: alpha(c.color[i]) as u8,
    }
}

/// A channel under a brightness.
pub fn lit_channel(channel: u32, br: Fixed) -> (r: u32)
    requires
        channel <= 255,
    ensures
        r == lit(channel as int, br@),
{
    let c: i128 = channel as i128;
    let b: i128 = br.raw as i128;
    assert(-0x8000_0000_0000_0000 * 255 <= c * b <= 0x8000_0000_0000_0000 * 255)
        by (nonlinear_arith)
        requires
            0 <= c <= 255,
            -0x8000_0000_0000_0000 <= b <= 0x8000_0000_0000_0000,
    ;
    let p: i128 = c * b;
    let v: i128 = if p >= 0 {
        (p + HALF as i128) / 65536
    } else {
        -((-p + HALF as i128) / 65536)
    };
    if v < 0 {
        0
    } else if v > 255 {
        255
    } else {
        v as u32
    }
}

/// The colour under a brightness, packed again with its own alpha.
pub fn shaded(color: u32, br: Fixed) -> (r: u32)
    ensures
        r == shade(color, br@),
{
    let r: u32 = lit_channel(color / 0x100_0000, br);
    let g: u32 = lit_channel((color / 0x1_0000) % 0x100, br);
    let b: u32 = lit_channel((color / 0x100) % 0x100, br);
    let a: u32 = color % 0x100;
    r * 0x100_0000 + g * 0x1_0000 + b * 0x100 + a
}

/// The depth plane and the colour plane of one viewport.
pub struct FrameBuffer {
    depth: Vec<i64>,
    color: Vec<u32>,
}

impl View for FrameBuffer {
    type V = Canvas;

    closed spec fn view(&self) -> Canvas {
        Canvas { depth: self.depth@, color: self.color@ }
    }
}

impl FrameBuffer {
    /// Both planes cover the whole viewport.
    pub open spec fn wf(&self) -> bool {
        well_formed(self@)
    }

    /// A buffer on which nothing has been drawn.
    pub fn new() -> (r: Self)
        ensures
            r.wf(),
            r@ == cleared(),
    {
        let mut depth: Vec<i64> = Vec::new();
        let mut color: Vec<u32> = Vec::new();
        let mut i: usize = 0;
        while i < PIXELS
            invariant
                i <= PIXELS,
                depth@ =~= Seq::new(i as nat, |k: int| MIN_Z),
                color@ =~= Seq::new(i as nat, |k: int| DEFAULT_COLOR),
            decreases PIXELS - i,
        {
            depth.push(MIN_Z);
            color.push(DEFAULT_COLOR);
            i += 1;
        }
        FrameBuffer { depth, color }
    }

    /// The depth stored for the pixel in column `x` of row `y`.
    pub fn depth_at(&self, x: usize, y: usize) -> (r: Fixed)
        requires
            self.wf(),
            x < WIDTH,
            y < HEIGHT,
        ensures
            r.raw == self@.depth[offset(x as int, y as int)],
    {
        assert(y * WIDTH + x < PIXELS) by (nonlinear_arith)
            requires
                x < 800,
                y < 600,
                WIDTH == 800,
        ;
        Fixed { raw: self.depth[y * WIDTH + x] }
    }

    /// The packed colour stored for the pixel in column `x` of row `y`.
    pub fn color_at(&self, x: usize, y: usize) -> (r: u32)
        requires
            self.wf(),
            x < WIDTH,
            y < HEIGHT,
        ensures
            r == self@.color[offset(x as int, y as int)],
    {
        assert(y * WIDTH + x < PIXELS) by (nonlinear_arith)
            requires
                x < 800,
                y < 600,
                WIDTH == 800,
        ;
        self.color[y * WIDTH + x]
    }

    /// Offers one fragment to the buffer.
    pub fn plot(&mut self, x: usize, y: usize, z: Fixed, br: Fixed, color: u32)
        requires
            old(self).wf(),
            x < WIDTH,
            y < HEIGHT,
        ensures
            final(self).wf(),
            final(self)@ == plot(
                old(self)@,
                (Fragment { x: x as int, y: y as int, z: z.raw, br: br.raw }),
                color,
            ),
    {
        assert(y * WIDTH + x < PIXELS) by (nonlinear_arith)
            requires
                x < 800,
                y < 600,
                WIDTH == 800,
        ;
        let i: usize = y * WIDTH + x;
        if z.raw > self.depth[i] {
            self.depth[i] = z.raw;
            put_color(self, x, y, color, br);
        }
    }
}

/// Stores the colour under the brightness in the pixel in column `x` of row `y`.
pub fn put_color(buf: &mut FrameBuffer, x: usize, y: usize, color: u32, br: Fixed)
    requires
        old(buf).wf(),
        x < WIDTH,
        y < HEIGHT,
    ensures
        final(buf).wf(),
        final(buf)@.depth == old(buf)@.depth,
        final(buf)@.color == old(buf)@.color.update(
            offset(x as int, y as int),
            shade(color, br@) as u32,
        ),
{
    assert(y * WIDTH + x < PIXELS) by (nonlinear_arith)
        requires
            x < 800,
            y < 600,
            WIDTH == 800,
    ;
    let c: u32 = shaded(color, br);
    buf.color[y * WIDTH + x] = c;
}

/// Resets every pixel to the depth and the colour of an empty canvas.
pub fn clear_buffers(buf: &mut FrameBuffer)
    requires
        old(buf).wf(),
    ensures
        final(buf).wf(),
        final(buf)@ == cleared(),
{
    let mut i: usize = 0;
    while i < PIXELS
        invariant
            i <= PIXELS,
            buf.depth@.len() == PIXELS,
            buf.color@.len() == PIXELS,
            forall|k: int| 0 <= k < i ==> buf.depth@[k] == MIN_Z,
            forall|k: int| 0 <= k < i ==> buf.color@[k] == DEFAULT_COLOR,
        decreases PIXELS - i,
    {
        buf.depth[i] = MIN_Z;
        buf.color[i] = DEFAULT_COLOR;
        i += 1;
    }
    assert(buf.depth@ =~= cleared().depth);
    assert(buf.color@ =~= cleared().color);
}

/// The pixels of the colour plane, row by row, each with its place and its channels.
pub fn flush(buf: &FrameBuffer) -> (r: Vec<Pixel>)
    requires
        buf.wf(),
    ensures
        r@.len() == PIXELS,
        forall|i: int| 0 <= i < PIXELS ==> r@[i] == pixel_at(buf@, i),
{
    let mut out: Vec<Pixel> = Vec::new();
    let mut i: usize = 0;
    while i < PIXELS
        invariant
            i <= PIXELS,
            buf.wf(),
            out@.len() == i,
            forall|k: int| 0 <= k < i ==> out@[k] == pixel_at(buf@, k),
        decreases PIXELS - i,
    {
        let pixel: u32 = buf.color[i];
        out.push(
            Pixel {
                x: (i % WIDTH) as u32,
                y: (i / WIDTH) as u32,
                r: (pixel / 0x100_0000) as u8,
                g: ((pixel / 0x1_0000) % 0x100) as u8,
                b: ((pixel / 0x100) % 0x100) as u8,
                a: (pixel % 0x100) as u8,
            },
        );
        i += 1;
    }
    out
}

} // verus!
