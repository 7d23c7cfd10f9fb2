//! CPU-side software rasterizing primitives that draw directly into a
//! framebuffer's pixel slice.

use vstd::prelude::*;

use crate::paint::{
    block_covers, block_fits, block_fits_exec, covers, fill_block, fits_i32, fits_i32_exec,
    lemma_pixel_in_buffer, lemma_scan_done, lemma_scan_next_row, lemma_scan_pixel, lemma_scan_start,
    max_pos_x, max_pos_y, painted, pixel_index, scan_state, scanned_before,
};

verus! {

/// The colors the rasterizer can paint with.
#[derive(Clone, Copy, PartialEq, Eq, Debug, Structural)]
pub enum Color {
    Black,
    White,
    Red,
    Green,
    Blue,
}

/// The 0x00RRGGBB pixel value of a color.
pub open spec fn color_value(c: Color) -> u32 {
    match c {
        Color::Black => 0x0000_0000u32,
        Color::White => 0x00FF_FFFFu32,
        Color::Red => 0x00FF_0000u32,
        Color::Green => 0x0000_FF00u32,
        Color::Blue => 0x0000_00FFu32,
    }
}

impl Color {
    /// Encodes the color as a 0x00RRGGBB pixel.
    pub fn to_u32(self) -> (v: u32)
        ensures
            v == color_value(self),
    {
        match self {
            Color::Black => 0x0000_0000,
            Color::White => 0x00FF_FFFF,
            Color::Red => 0x00FF_0000,
            Color::Green => 0x0000_FF00,
            Color::Blue => 0x0000_00FF,
        }
    }
}

/// A filled circle of the given radius.
pub struct Circle {
    pub radius: u32,
    pub color: Color,
}

impl Circle {
    /// The radius as the drawing reads it: the `u32` taken as an `i32`.
    pub open spec fn r(self) -> int {
        (self.radius as i32) as int
    }

    /// Whether the bounding box of the circle centred on (pos_x, pos_y)
    /// leaves a buffer of `len` pixels with rows `pitch` apart.
    pub open spec fn rejected(self, len: int, pos_x: i32, pos_y: i32, pitch: usize) -> bool {
        let r = self.r();
        ||| pos_x - r < 0
        ||| pos_x + r >= max_pos_x(pitch)
        ||| pos_y - r < 0
        ||| pos_y + r >= max_pos_y(len, pitch)
    }

    /// The inputs on which drawing runs to its end: the pitch is not zero,
    /// the bounds checks and the squared distances stay within `i32`.
    pub open spec fn draw_defined(self, len: int, pos_x: i32, pos_y: i32, pitch: usize) -> bool {
        let r = self.r();
        &&& pitch > 0
        &&& fits_i32(pos_x - r)
        &&& pos_x - r >= 0 ==> fits_i32(pos_x + r)
        &&& pos_x - r >= 0 && pos_x + r < max_pos_x(pitch) ==> fits_i32(pos_y - r)
        &&& pos_x - r >= 0 && pos_x + r < max_pos_x(pitch) && pos_y - r >= 0 ==> fits_i32(pos_y + r)
        &&& !self.rejected(len, pos_x, pos_y, pitch) ==> if r >= 0 {
            2 * r * r <= i32::MAX
        } else {
            r * r <= i32::MAX
        }
    }

    /// The pixels of the disc around (pos_x, pos_y).
    pub open spec fn inside(self, pos_x: int, pos_y: int) -> spec_fn(int, int) -> bool {
        |x: int, y: int| (x - pos_x) * (x - pos_x) + (y - pos_y) * (y - pos_y) <= self.r() * self.r()
    }

    /// Whether buffer position `i` is a pixel of the disc around
    /// (pos_x, pos_y), scanned over the square of side 2r + 1.
    pub open spec fn covers_index(self, pos_x: int, pos_y: int, pitch: int, i: int) -> bool {
        let r = self.r();
        covers(self.inside(pos_x, pos_y), pos_x - r, pos_x + r, pos_y - r, pos_y + r, pitch, i)
    }

    /// Draws the disc centred on (pos_x, pos_y). Refuses, and leaves the
    /// buffer alone, when the circle's bounding box leaves the buffer.
    #[verifier::loop_isolation(false)]
    pub fn draw(&self, framebuffer: &mut [u32], pos_x: i32, pos_y: i32, pitch_pixels: usize) -> (result: Result<(), &'static str>)
        requires
            self.draw_defined(old(framebuffer)@.len() as int, pos_x, pos_y, pitch_pixels),
        ensures
            result is Err <==> self.rejected(old(framebuffer)@.len() as int, pos_x, pos_y, pitch_pixels),
            result matches Err(e) ==> e@ == "Circle out of the bounds of the framebuffer"@
                && final(framebuffer)@ == old(framebuffer)@,
            result is Ok ==> painted(
                old(framebuffer)@,
                final(framebuffer)@,
                |i: int| self.covers_index(pos_x as int, pos_y as int, pitch_pixels as int, i),
                color_value(self.color),
            ),
    {
        let max_pos_x: i32 = #[verifier::truncate] (pitch_pixels as i32);
        let max_pos_y: i32 = #[verifier::truncate] ((framebuffer.len() / pitch_pixels) as i32);
        let r: i32 = #[verifier::truncate] (self.radius as i32);

        // Reject if the circle's bounding box leaves the framebuffer.
        if pos_x - r < 0 || pos_x + r >= max_pos_x || pos_y - r < 0 || pos_y + r >= max_pos_y {
            return Err("Circle out of the bounds of the framebuffer");
        }

        assert(0 <= r * r <= i32::MAX && (r >= 0 ==> 2 * r * r == r * r + r * r)) by (nonlinear_arith)
            requires
                r >= 0 ==> 2 * r * r <= i32::MAX,
                r < 0 ==> r * r <= i32::MAX,
        ;
        let r2 = r * r;
        let color = self.color.to_u32();
        let ghost before = framebuffer@;
        let ghost len = before.len() as int;
        let ghost inside = self.inside(pos_x as int, pos_y as int);
        let ghost x_lo = pos_x - r;
        let ghost x_hi = pos_x + r;
        let ghost y_lo = pos_y - r;
        let ghost p = pitch_pixels as int;
        proof {
            lemma_scan_start(before, inside, x_lo, x_hi, y_lo, p, color);
        }
        if r < 0 {
            assert forall|i: int| !#[trigger] self.covers_index(pos_x as int, pos_y as int, p, i) by {}
            return Ok(());
        }
        let mut dy: i32 = -r;
        while dy <= r
            invariant
                0 <= r * r <= i32::MAX,
                r * r + r * r <= i32::MAX,
                r2 == r * r,
                -r <= dy <= r + 1,
                scan_state(before, framebuffer@, inside, x_lo, x_hi, y_lo, x_lo, pos_y + dy, p, color),
            decreases r + 1 - dy,
        {
            let mut dx: i32 = -r;
            while dx <= r
                invariant
                    0 <= r * r <= i32::MAX,
                    r * r + r * r <= i32::MAX,
                    r2 == r * r,
                    -r <= dx <= r + 1,
                    -r <= dy <= r,
                    scan_state(before, framebuffer@, inside, x_lo, x_hi, y_lo, pos_x + dx, pos_y + dy, p, color),
                decreases r + 1 - dx,
            {
                let ghost prev = framebuffer@;
                assert(0 <= dx * dx <= r * r && 0 <= dy * dy <= r * r) by (nonlinear_arith)
                    requires
                        -r <= dx <= r,
                        -r <= dy <= r,
                ;
                let xc = pos_x + dx;
                let yc = pos_y + dy;
                if dx * dx + dy * dy <= r2 {
                    proof {
                        lemma_pixel_in_buffer(xc as int, yc as int, len, pitch_pixels);
                    }
                    let x = xc as usize;
                    let y = yc as usize;
                    framebuffer[y * pitch_pixels + x] = color;
                }
                proof {
                    lemma_pixel_in_buffer(xc as int, yc as int, len, pitch_pixels);
                    lemma_scan_pixel(before, prev, inside, x_lo, x_hi, y_lo, xc as int, yc as int, p, color);
                }
                dx = dx + 1;
            }
            proof {
                lemma_scan_next_row(before, framebuffer@, inside, x_lo, x_hi, y_lo, pos_y + dy, p, color);
            }
            dy = dy + 1;
        }
        proof {
            lemma_scan_done(before, framebuffer@, inside, x_lo, x_hi, y_lo, pos_y + r, p, color);
        }
        Ok(())
    }
}

/// A point with integer coordinates, as the specifications read vertices.
pub open spec fn point(v: [i32; 2]) -> (int, int) {
    (v[0] as int, v[1] as int)
}

/// Twice the signed area of the triangle (a, b, p): positive when p lies to
/// one side of the directed line a -> b, negative on the other, zero on it.
pub open spec fn edge_value(a: (int, int), b: (int, int), p: (int, int)) -> int {
    (b.0 - a.0) * (p.1 - a.1) - (b.1 - a.1) * (p.0 - a.0)
}

/// Whether every intermediate of the `i32` evaluation of `edge_value` fits
/// in an `i32`.
pub open spec fn edge_fits(a: (int, int), b: (int, int), p: (int, int)) -> bool {
    &&& fits_i32(b.0 - a.0)
    &&& fits_i32(p.1 - a.1)
    &&& fits_i32((b.0 - a.0) * (p.1 - a.1))
    &&& fits_i32(b.1 - a.1)
    &&& fits_i32(p.0 - a.0)
    &&& fits_i32((b.1 - a.1) * (p.0 - a.0))
    &&& fits_i32(edge_value(a, b, p))
}

/// Whether a vertex lies outside the columns `[0, max_x)` and rows
/// `[0, max_y)`.
pub open spec fn vertex_outside(v: (int, int), max_x: int, max_y: int) -> bool {
    v.0 < 0 || v.0 >= max_x || v.1 < 0 || v.1 >= max_y
}

/// The sign of an integer: 1, 0 or -1.
pub open spec fn sign_of(v: int) -> int {
    if v > 0 {
        1
    } else if v < 0 {
        -1
    } else {
        0
    }
}

/// The smallest of three integers.
pub open spec fn min3(a: int, b: int, c: int) -> int {
    if a <= b && a <= c {
        a
    } else if b <= c {
        b
    } else {
        c
    }
}

/// The largest of three integers.
pub open spec fn max3(a: int, b: int, c: int) -> int {
    if a >= b && a >= c {
        a
    } else if b >= c {
        b
    } else {
        c
    }
}

/// Decides `vertex_outside` for a vertex computed in `i64`.
fn outside_exec(v0: i64, v1: i64, max_x: i64, max_y: i64) -> (out: bool)
    ensures
        out == vertex_outside((v0 as int, v1 as int), max_x as int, max_y as int),
{
    v0 < 0 || v0 >= max_x || v1 < 0 || v1 >= max_y
}

/// Evaluates an edge value in `i64`, telling whether its `i32` evaluation
/// would overflow nowhere.
fn edge_exec(a0: i64, a1: i64, b0: i64, b1: i64, p0: i64, p1: i64) -> (res: (bool, i64))
    requires
        fits_i32(a0 as int) && fits_i32(a1 as int),
        fits_i32(b0 as int) && fits_i32(b1 as int),
        fits_i32(p0 as int) && fits_i32(p1 as int),
    ensures
        res.0 == edge_fits((a0 as int, a1 as int), (b0 as int, b1 as int), (p0 as int, p1 as int)),
        res.0 ==> res.1 == edge_value((a0 as int, a1 as int), (b0 as int, b1 as int), (p0 as int, p1 as int)),
{
    let d0 = b0 - a0;
    let d1 = p1 - a1;
    let d2 = b1 - a1;
    let d3 = p0 - a0;
    if !(fits_i32_exec(d0) && fits_i32_exec(d1) && fits_i32_exec(d2) && fits_i32_exec(d3)) {
        return (false, 0);
    }
    assert(-0x4000_0000_0000_0000 <= d0 * d1 <= 0x4000_0000_0000_0000 && -0x4000_0000_0000_0000
        <= d2 * d3 <= 0x4000_0000_0000_0000) by (nonlinear_arith)
        requires
            fits_i32(d0 as int),
            fits_i32(d1 as int),
            fits_i32(d2 as int),
            fits_i32(d3 as int),
    ;
    let m0 = d0 * d1;
    let m1 = d2 * d3;
    if !(fits_i32_exec(m0) && fits_i32_exec(m1)) {
        return (false, 0);
    }
    let e = m0 - m1;
    (fits_i32_exec(e), e)
}

/// The smallest of three values.
fn min3_exec(a: i64, b: i64, c: i64) -> (m: i64)
    ensures
        m == min3(a as int, b as int, c as int),
{
    if a <= b && a <= c {
        a
    } else if b <= c {
        b
    } else {
        c
    }
}

/// The largest of three values.
fn max3_exec(a: i64, b: i64, c: i64) -> (m: i64)
    ensures
        m == max3(a as int, b as int, c as int),
{
    if a >= b && a >= c {
        a
    } else if b >= c {
        b
    } else {
        c
    }
}

/// A filled triangle. The vertices are relative to the position passed to
/// `draw`.
pub struct Triangle {
    /// Vertices, relative to the `pos_x` / `pos_y` passed to `draw`.
    pub p1: [i32; 2],
    pub p2: [i32; 2],
    pub p3: [i32; 2],
    pub color: Color,
}

impl Triangle {
    /// First vertex placed at (pos_x, pos_y).
    pub open spec fn a(self, pos_x: int, pos_y: int) -> (int, int) {
        (self.p1[0] + pos_x, self.p1[1] + pos_y)
    }

    /// Second vertex placed at (pos_x, pos_y).
    pub open spec fn b(self, pos_x: int, pos_y: int) -> (int, int) {
        (self.p2[0] + pos_x, self.p2[1] + pos_y)
    }

    /// Third vertex placed at (pos_x, pos_y).
    pub open spec fn c(self, pos_x: int, pos_y: int) -> (int, int) {
        (self.p3[0] + pos_x, self.p3[1] + pos_y)
    }

    /// Whether a placed vertex leaves a buffer of `len` pixels with rows
    /// `pitch` apart.
    pub open spec fn out_of_frame(self, len: int, pos_x: int, pos_y: int, pitch: usize) -> bool {
        let mx = max_pos_x(pitch);
        let my = max_pos_y(len, pitch);
        ||| vertex_outside(self.a(pos_x, pos_y), mx, my)
        ||| vertex_outside(self.b(pos_x, pos_y), mx, my)
        ||| vertex_outside(self.c(pos_x, pos_y), mx, my)
    }

    /// Twice the signed area of the placed triangle; zero when the vertices
    /// are collinear.
    pub open spec fn area(self, pos_x: int, pos_y: int) -> int {
        edge_value(self.a(pos_x, pos_y), self.b(pos_x, pos_y), self.c(pos_x, pos_y))
    }

    /// The three edge values of pixel (x, y), each oriented by the winding of
    /// the triangle.
    pub open spec fn weights(self, pos_x: int, pos_y: int, x: int, y: int) -> (int, int, int) {
        let a = self.a(pos_x, pos_y);
        let b = self.b(pos_x, pos_y);
        let c = self.c(pos_x, pos_y);
        let s = sign_of(self.area(pos_x, pos_y));
        (edge_value(b, c, (x, y)) * s, edge_value(c, a, (x, y)) * s, edge_value(a, b, (x, y)) * s)
    }

    /// The pixels on the inner side of all three edges, edges included.
    pub open spec fn inside(self, pos_x: int, pos_y: int) -> spec_fn(int, int) -> bool {
        |x: int, y: int|
            {
                let w = self.weights(pos_x, pos_y, x, y);
                w.0 >= 0 && w.1 >= 0 && w.2 >= 0
            }
    }

    /// Whether evaluating the inside test of pixel (x, y) in `i32` overflows
    /// nowhere.
    pub open spec fn pixel_test_fits(self, pos_x: int, pos_y: int, x: int, y: int) -> bool {
        let a = self.a(pos_x, pos_y);
        let b = self.b(pos_x, pos_y);
        let c = self.c(pos_x, pos_y);
        let w = self.weights(pos_x, pos_y, x, y);
        &&& edge_fits(b, c, (x, y))
        &&& fits_i32(w.0)
        &&& edge_fits(c, a, (x, y))
        &&& fits_i32(w.1)
        &&& edge_fits(a, b, (x, y))
        &&& fits_i32(w.2)
    }

    /// Leftmost column of the bounding box.
    pub open spec fn min_x(self, pos_x: int, pos_y: int) -> int {
        min3(self.a(pos_x, pos_y).0, self.b(pos_x, pos_y).0, self.c(pos_x, pos_y).0)
    }

    /// Rightmost column of the bounding box.
    pub open spec fn max_x(self, pos_x: int, pos_y: int) -> int {
        max3(self.a(pos_x, pos_y).0, self.b(pos_x, pos_y).0, self.c(pos_x, pos_y).0)
    }

    /// Top row of the bounding box.
    pub open spec fn min_y(self, pos_x: int, pos_y: int) -> int {
        min3(self.a(pos_x, pos_y).1, self.b(pos_x, pos_y).1, self.c(pos_x, pos_y).1)
    }

    /// Bottom row of the bounding box.
    pub open spec fn max_y(self, pos_x: int, pos_y: int) -> int {
        max3(self.a(pos_x, pos_y).1, self.b(pos_x, pos_y).1, self.c(pos_x, pos_y).1)
    }

    /// Whether buffer position `i` is a pixel of the triangle placed at
    /// (pos_x, pos_y), scanned over its bounding box.
    pub open spec fn covers_index(self, pos_x: int, pos_y: int, pitch: int, i: int) -> bool {
        covers(
            self.inside(pos_x, pos_y),
            self.min_x(pos_x, pos_y),
            self.max_x(pos_x, pos_y),
            self.min_y(pos_x, pos_y),
            self.max_y(pos_x, pos_y),
            pitch,
            i,
        )
    }

    /// The inputs on which drawing runs to its end: the pitch is not zero and
    /// no `i32` computation overflows (placing the vertices, the area, the
    /// inside test of every pixel of the bounding box).
    pub open spec fn draw_defined(self, len: int, pos_x: i32, pos_y: i32, pitch: usize) -> bool {
        let a = self.a(pos_x as int, pos_y as int);
        let b = self.b(pos_x as int, pos_y as int);
        let c = self.c(pos_x as int, pos_y as int);
        &&& pitch > 0
        &&& fits_i32(a.0) && fits_i32(a.1)
        &&& fits_i32(b.0) && fits_i32(b.1)
        &&& fits_i32(c.0) && fits_i32(c.1)
        &&& !self.out_of_frame(len, pos_x as int, pos_y as int, pitch) ==> edge_fits(a, b, c)
        &&& !self.out_of_frame(len, pos_x as int, pos_y as int, pitch) && self.area(pos_x as int, pos_y as int)
            != 0 ==> forall|x: int, y: int|
            self.min_x(pos_x as int, pos_y as int) <= x <= self.max_x(pos_x as int, pos_y as int)
                && self.min_y(pos_x as int, pos_y as int) <= y <= self.max_y(pos_x as int, pos_y as int)
                ==> #[trigger] self.pixel_test_fits(pos_x as int, pos_y as int, x, y)
    }

    /// Whether the inside test of every pixel of the bounding box scanned
    /// before (xc, yc) evaluates without overflow.
    pub open spec fn pixel_tests_fit_before(self, pos_x: int, pos_y: int, xc: int, yc: int) -> bool {
        forall|x: int, y: int|
            self.min_x(pos_x, pos_y) <= x <= self.max_x(pos_x, pos_y) && self.min_y(pos_x, pos_y) <= y
                && scanned_before(x, y, xc, yc) ==> #[trigger] self.pixel_test_fits(pos_x, pos_y, x, y)
    }

    /// Whether `draw` runs to its end (with `Ok` or `Err`) on a buffer of
    /// `len` pixels.
    pub fn can_draw(&self, len: usize, pos_x: i32, pos_y: i32, pitch_pixels: usize) -> (ok: bool)
        ensures
            ok == self.draw_defined(len as int, pos_x, pos_y, pitch_pixels),
    {
        if pitch_pixels == 0 {
            return false;
        }
        let mx = (#[verifier::truncate] (pitch_pixels as i32)) as i64;
        let my = (#[verifier::truncate] ((len / pitch_pixels) as i32)) as i64;
        let ghost px = pos_x as int;
        let ghost py = pos_y as int;
        let a0 = self.p1[0] as i64 + pos_x as i64;
        let a1 = self.p1[1] as i64 + pos_y as i64;
        let b0 = self.p2[0] as i64 + pos_x as i64;
        let b1 = self.p2[1] as i64 + pos_y as i64;
        let c0 = self.p3[0] as i64 + pos_x as i64;
        let c1 = self.p3[1] as i64 + pos_y as i64;
        if !(fits_i32_exec(a0) && fits_i32_exec(a1) && fits_i32_exec(b0) && fits_i32_exec(b1) && fits_i32_exec(c0)
            && fits_i32_exec(c1)) {
            return false;
        }
        if outside_exec(a0, a1, mx, my) || outside_exec(b0, b1, mx, my) || outside_exec(c0, c1, mx, my) {
            return true;
        }
        let (area_fits, area) = edge_exec(a0, a1, b0, b1, c0, c1);
        if !area_fits {
            return false;
        }
        if area == 0 {
            return true;
        }
        let s: i64 = if area > 0 {
            1
        } else {
            -1
        };
        let min_x = min3_exec(a0, b0, c0);
        let max_x = max3_exec(a0, b0, c0);
        let min_y = min3_exec(a1, b1, c1);
        let max_y = max3_exec(a1, b1, c1);
        let mut y = min_y;
        while y <= max_y
            invariant
                min_y <= y <= max_y + 1,
                fits_i32(max_y as int),
                min_x == self.min_x(px, py),
                max_x == self.max_x(px, py),
                min_y == self.min_y(px, py),
                max_y == self.max_y(px, py),
                self.pixel_tests_fit_before(px, py, min_x as int, y as int),
                fits_i32(a0 as int) && fits_i32(a1 as int) && fits_i32(b0 as int) && fits_i32(b1 as int) && fits_i32(c0 as int) && fits_i32(c1 as int),
                self.a(px, py) == (a0 as int, a1 as int),
                self.b(px, py) == (b0 as int, b1 as int),
                self.c(px, py) == (c0 as int, c1 as int),
                s == sign_of(self.area(px, py)),
                !self.out_of_frame(len as int, px, py, pitch_pixels),
                self.area(px, py) != 0,
                pitch_pixels > 0,
                px == pos_x as int && py == pos_y as int,
                min_x <= max_x,
                fits_i32(min_x as int) && fits_i32(max_x as int),
            decreases max_y + 1 - y,
        {
            let mut x = min_x;
            while x <= max_x
                invariant
                    min_x <= x <= max_x + 1,
                    min_y <= y <= max_y,
                    fits_i32(max_y as int),
                    min_x == self.min_x(px, py),
                    max_x == self.max_x(px, py),
                    min_y == self.min_y(px, py),
                    max_y == self.max_y(px, py),
                    self.pixel_tests_fit_before(px, py, x as int, y as int),
                    fits_i32(a0 as int) && fits_i32(a1 as int) && fits_i32(b0 as int) && fits_i32(b1 as int) && fits_i32(c0 as int) && fits_i32(c1 as int),
                    self.a(px, py) == (a0 as int, a1 as int),
                    self.b(px, py) == (b0 as int, b1 as int),
                    self.c(px, py) == (c0 as int, c1 as int),
                    s == sign_of(self.area(px, py)),
                    !self.out_of_frame(len as int, px, py, pitch_pixels),
                    self.area(px, py) != 0,
                    pitch_pixels > 0,
                    px == pos_x as int && py == pos_y as int,
                    fits_i32(min_x as int) && fits_i32(max_x as int),
                decreases max_x + 1 - x,
            {
                let (f0, e0) = edge_exec(b0, b1, c0, c1, x, y);
                let (f1, e1) = edge_exec(c0, c1, a0, a1, x, y);
                let (f2, e2) = edge_exec(a0, a1, b0, b1, x, y);
                let ok = f0 && fits_i32_exec(e0 * s) && f1 && fits_i32_exec(e1 * s) && f2 && fits_i32_exec(e2 * s);
                if !ok {
                    assert(!self.pixel_test_fits(pos_x as int, pos_y as int, x as int, y as int));
                    assert(self.min_x(pos_x as int, pos_y as int) <= x <= self.max_x(pos_x as int, pos_y as int));
                    assert(self.min_y(pos_x as int, pos_y as int) <= y <= self.max_y(pos_x as int, pos_y as int));
                    return false;
                }
                assert forall|x2: int, y2: int|
                    self.min_x(px, py) <= x2 <= self.max_x(px, py) && self.min_y(px, py) <= y2
                        && scanned_before(x2, y2, x + 1, y as int) implies #[trigger] self.pixel_test_fits(px, py, x2, y2) by {
                    if !(x2 == x && y2 == y) {
                        assert(scanned_before(x2, y2, x as int, y as int));
                    }
                }
                x = x + 1;
            }
            assert forall|x2: int, y2: int|
                self.min_x(px, py) <= x2 <= self.max_x(px, py) && self.min_y(px, py) <= y2
                    && scanned_before(x2, y2, min_x as int, y + 1) implies #[trigger] self.pixel_test_fits(px, py, x2, y2) by {
                assert(scanned_before(x2, y2, max_x + 1, y as int));
            }
            y = y + 1;
        }
        assert forall|x2: int, y2: int|
            self.min_x(px, py) <= x2 <= self.max_x(px, py) && self.min_y(px, py) <= y2 <= self.max_y(px, py)
            implies #[trigger] self.pixel_test_fits(px, py, x2, y2) by {
            assert(scanned_before(x2, y2, min_x as int, max_y + 1));
        }
        true
    }

    /// Signed area of the triangle used to know if a given point is inside a
    /// triangle or not.
    fn edge(a: [i32; 2], b: [i32; 2], p: [i32; 2]) -> (e: i32)
        requires
            edge_fits(point(a), point(b), point(p)),
        ensures
            e == edge_value(point(a), point(b), point(p)),
    {
        (b[0] - a[0]) * (p[1] - a[1]) - (b[1] - a[1]) * (p[0] - a[0])
    }

    /// Draws the triangle with its vertices placed at (pos_x, pos_y). Refuses,
    /// and leaves the buffer alone, when a vertex leaves the buffer or the
    /// vertices are collinear.
    #[verifier::loop_isolation(false)]
    pub fn draw(&self, framebuffer: &mut [u32], pos_x: i32, pos_y: i32, pitch_pixels: usize) -> (result: Result<(), &'static str>)
        requires
            self.draw_defined(old(framebuffer)@.len() as int, pos_x, pos_y, pitch_pixels),
        ensures
            match result {
                Ok(_) => {
                    &&& !self.out_of_frame(old(framebuffer)@.len() as int, pos_x as int, pos_y as int, pitch_pixels)
                    &&& self.area(pos_x as int, pos_y as int) != 0
                    &&& painted(
                        old(framebuffer)@,
                        final(framebuffer)@,
                        |i: int| self.covers_index(pos_x as int, pos_y as int, pitch_pixels as int, i),
                        color_value(self.color),
                    )
                },
                Err(e) => {
                    &&& final(framebuffer)@ == old(framebuffer)@
                    &&& if self.out_of_frame(old(framebuffer)@.len() as int, pos_x as int, pos_y as int, pitch_pixels) {
                        e@ == "Triangle out of the bounds of the framebuffer"@
                    } else {
                        self.area(pos_x as int, pos_y as int) == 0
                            && e@ == "Degenerate triangle (vertices are collinear)"@
                    }
                },
            },
    {
        let max_pos_x: i32 = #[verifier::truncate] (pitch_pixels as i32);
        let max_pos_y: i32 = #[verifier::truncate] ((framebuffer.len() / pitch_pixels) as i32);

        // vertices
        let a = [self.p1[0] + pos_x, self.p1[1] + pos_y];
        let b = [self.p2[0] + pos_x, self.p2[1] + pos_y];
        let c = [self.p3[0] + pos_x, self.p3[1] + pos_y];

        // reject if a vertex is out of bound
        let vertices = [a, b, c];
        let mut k: usize = 0;
        while k < 3
            invariant
                0 <= k <= 3,
                forall|j: int| 0 <= j < k ==> !vertex_outside(#[trigger] point(vertices[j]), max_pos_x as int, max_pos_y as int),
            decreases 3 - k,
        {
            let v = vertices[k];
            if v[0] < 0 || v[0] >= max_pos_x || v[1] < 0 || v[1] >= max_pos_y {
                return Err("Triangle out of the bounds of the framebuffer");
            }
            k = k + 1;
        }
        assert(point(vertices[0]) == point(a) && point(vertices[1]) == point(b) && point(vertices[2]) == point(c));

        // Degenerate triangles that have no area
        let area = Self::edge(a, b, c);
        if area == 0 {
            return Err("Degenerate triangle (vertices are collinear)");
        }

        // Bounding box of the triangle.
        let min_x = a[0].min(b[0]).min(c[0]);
        let max_x = a[0].max(b[0]).max(c[0]);
        let min_y = a[1].min(b[1]).min(c[1]);
        let max_y = a[1].max(b[1]).max(c[1]);

        // A pixel is inside when all three edge functions share the triangle's winding sign
        let sign: i32 = if area > 0 {
            1
        } else {
            -1
        };
        let color = self.color.to_u32();
        let ghost before = framebuffer@;
        let ghost len = before.len() as int;
        let ghost px = pos_x as int;
        let ghost py = pos_y as int;
        let ghost inside = self.inside(px, py);
        let ghost p = pitch_pixels as int;
        proof {
            lemma_scan_start(before, inside, min_x as int, max_x as int, min_y as int, p, color);
        }
        let mut y = min_y;
        while y <= max_y
            invariant
                min_y <= y <= max_y + 1,
                scan_state(before, framebuffer@, inside, min_x as int, max_x as int, min_y as int, min_x as int, y as int, p, color),
            decreases max_y + 1 - y,
        {
            let mut x = min_x;
            while x <= max_x
                invariant
                    min_x <= x <= max_x + 1,
                    min_y <= y <= max_y,
                    scan_state(before, framebuffer@, inside, min_x as int, max_x as int, min_y as int, x as int, y as int, p, color),
                decreases max_x + 1 - x,
            {
                let ghost prev = framebuffer@;
                assert(self.pixel_test_fits(px, py, x as int, y as int));
                let q = [x, y];
                assert(point(q) == (x as int, y as int));
                let w0 = Self::edge(b, c, q) * sign;
                let w1 = Self::edge(c, a, q) * sign;
                let w2 = Self::edge(a, b, q) * sign;
                proof {
                    lemma_pixel_in_buffer(x as int, y as int, len, pitch_pixels);
                }
                if w0 >= 0 && w1 >= 0 && w2 >= 0 {
                    framebuffer[y as usize * pitch_pixels + x as usize] = color;
                }
                proof {
                    lemma_scan_pixel(before, prev, inside, min_x as int, max_x as int, min_y as int, x as int, y as int, p, color);
                }
                x = x + 1;
            }
            proof {
                lemma_scan_next_row(before, framebuffer@, inside, min_x as int, max_x as int, min_y as int, y as int, p, color);
            }
            y = y + 1;
        }
        proof {
            lemma_scan_done(before, framebuffer@, inside, min_x as int, max_x as int, min_y as int, max_y as int, p, color);
        }
        Ok(())
    }
}

/// A filled axis-aligned rectangle.
pub struct Rectangle {
    pub width: u32,
    pub height: u32,
    pub color: Color,
}

impl Rectangle {
    /// Whether the rectangle placed at (pos_x, pos_y) is refused: the
    /// position, or the far edge, passes the last column or row of a buffer
    /// of `len` pixels with rows `pitch` apart (width and height read as
    /// `i32`).
    pub open spec fn rejected(self, len: int, pos_x: i32, pos_y: i32, pitch: usize) -> bool {
        let w = (self.width as i32) as int;
        let h = (self.height as i32) as int;
        ||| pos_x > max_pos_x(pitch)
        ||| pos_x + w > max_pos_x(pitch)
        ||| pos_y > max_pos_y(len, pitch)
        ||| pos_y + h > max_pos_y(len, pitch)
    }

    /// The inputs on which drawing runs to its end: the pitch is not zero,
    /// the bounds checks stay within `i32`, and an accepted rectangle's
    /// pixels lie inside the buffer.
    pub open spec fn draw_defined(self, len: int, pos_x: i32, pos_y: i32, pitch: usize) -> bool {
        let w = (self.width as i32) as int;
        let h = (self.height as i32) as int;
        &&& pitch > 0
        &&& pos_x <= max_pos_x(pitch) ==> fits_i32(pos_x + w)
        &&& pos_x <= max_pos_x(pitch) && pos_x + w <= max_pos_x(pitch) && pos_y <= max_pos_y(len, pitch)
            ==> fits_i32(pos_y + h)
        &&& !self.rejected(len, pos_x, pos_y, pitch) ==> block_fits(
            len,
            self.width as int,
            self.height as int,
            pitch as int,
        )
    }

    /// Whether `draw` runs to its end (with `Ok` or `Err`) on a buffer of
    /// `len` pixels.
    pub fn can_draw(&self, len: usize, pos_x: i32, pos_y: i32, pitch_pixels: usize) -> (ok: bool)
        ensures
            ok == self.draw_defined(len as int, pos_x, pos_y, pitch_pixels),
    {
        if pitch_pixels == 0 {
            return false;
        }
        let mx = (#[verifier::truncate] (pitch_pixels as i32)) as i64;
        let my = (#[verifier::truncate] ((len / pitch_pixels) as i32)) as i64;
        let w = (#[verifier::truncate] (self.width as i32)) as i64;
        let h = (#[verifier::truncate] (self.height as i32)) as i64;
        let px = pos_x as i64;
        let py = pos_y as i64;
        if px <= mx && !fits_i32_exec(px + w) {
            return false;
        }
        if px <= mx && px + w <= mx && py <= my && !fits_i32_exec(py + h) {
            return false;
        }
        let rejected = px > mx || px + w > mx || py > my || py + h > my;
        rejected || block_fits_exec(len, self.width, self.height, pitch_pixels)
    }

    /// Checks the rectangle placed at (pos_x, pos_y) against the buffer, then
    /// fills the block of `height` rows of `width` pixels at the start of the
    /// buffer. Refuses, and leaves the buffer alone, when the check fails.
    pub fn draw(&self, framebuffer: &mut [u32], pos_x: i32, pos_y: i32, pitch_pixels: usize) -> (result: Result<(), &'static str>)
        requires
            self.draw_defined(old(framebuffer)@.len() as int, pos_x, pos_y, pitch_pixels),
        ensures
            result is Err <==> self.rejected(old(framebuffer)@.len() as int, pos_x, pos_y, pitch_pixels),
            result matches Err(e) ==> e@
                == "PosX or PosY overflows from the buffer or the rectangle is drawn out of bounds from the framebuffer"@
                && final(framebuffer)@ == old(framebuffer)@,
            result is Ok ==> painted(
                old(framebuffer)@,
                final(framebuffer)@,
                |i: int| block_covers(self.width as int, self.height as int, pitch_pixels as int, i),
                color_value(self.color),
            ),
    {
        let max_pos_x: i32 = #[verifier::truncate] (pitch_pixels as i32);
        let max_pos_y: i32 = #[verifier::truncate] ((framebuffer.len() / pitch_pixels) as i32);
        let w: i32 = #[verifier::truncate] (self.width as i32);
        let h: i32 = #[verifier::truncate] (self.height as i32);

        if pos_x > max_pos_x || pos_x + w > max_pos_x || pos_y > max_pos_y || pos_y + h > max_pos_y {
            return Err(
                "PosX or PosY overflows from the buffer or the rectangle is drawn out of bounds from the framebuffer",
            );
        }

        fill_block(framebuffer, self.width, self.height, pitch_pixels, self.color.to_u32());
        Ok(())
    }
}

/// Whole-screen operations.
pub struct Rasterizer {}

impl Rasterizer {
    /// Paints the block of `height` rows of `width` pixels at the start of the
    /// buffer black.
    pub fn clear_screen(buffer: &mut [u32], height: u32, width: u32, pitch_pixels: usize)
        requires
            block_fits(old(buffer)@.len() as int, width as int, height as int, pitch_pixels as int),
        ensures
            painted(
                old(buffer)@,
                final(buffer)@,
                |i: int| block_covers(width as int, height as int, pitch_pixels as int, i),
                color_value(Color::Black),
            ),
    {
        fill_block(buffer, width, height, pitch_pixels, Color::Black.to_u32());
    }
}

/// Every color encodes as 0x00RRGGBB: the top byte of its pixel value is
/// zero.
pub proof fn lemma_color_value_is_rgb(c: Color)
    ensures
        color_value(c) < 0x0100_0000,
{
}

/// Distinct colors encode to distinct pixel values.
pub proof fn lemma_color_value_injective(c1: Color, c2: Color)
    ensures
        color_value(c1) == color_value(c2) ==> c1 == c2,
{
}

/// Reversing the direction of an edge negates its edge value.
pub proof fn lemma_edge_antisymmetric(a: (int, int), b: (int, int), p: (int, int))
    ensures
        edge_value(b, a, p) == -edge_value(a, b, p),
{
    assert((a.0 - b.0) * (p.1 - b.1) - (a.1 - b.1) * (p.0 - b.0) == -((b.0 - a.0) * (p.1 - a.1) - (
    b.1 - a.1) * (p.0 - a.0))) by (nonlinear_arith);
}

/// The signed area of a triangle does not change when its vertices are
/// rotated.
pub proof fn lemma_edge_rotation(a: (int, int), b: (int, int), c: (int, int))
    ensures
        edge_value(a, b, c) == edge_value(b, c, a),
{
    assert((b.0 - a.0) * (c.1 - a.1) - (b.1 - a.1) * (c.0 - a.0) == (c.0 - b.0) * (a.1 - b.1) - (c.1
        - b.1) * (a.0 - b.0)) by (nonlinear_arith);
}

/// An accepted triangle paints each of its three vertices: at a vertex two
/// edge values are zero and the third is the oriented area.
pub proof fn lemma_triangle_paints_vertices(t: Triangle, len: int, pos_x: int, pos_y: int, pitch: usize)
    requires
        !t.out_of_frame(len, pos_x, pos_y, pitch),
        t.area(pos_x, pos_y) != 0,
    ensures
        t.covers_index(pos_x, pos_y, pitch as int, pixel_index(t.a(pos_x, pos_y).0, t.a(pos_x, pos_y).1, pitch as int)),
        t.covers_index(pos_x, pos_y, pitch as int, pixel_index(t.b(pos_x, pos_y).0, t.b(pos_x, pos_y).1, pitch as int)),
        t.covers_index(pos_x, pos_y, pitch as int, pixel_index(t.c(pos_x, pos_y).0, t.c(pos_x, pos_y).1, pitch as int)),
{
    let a = t.a(pos_x, pos_y);
    let b = t.b(pos_x, pos_y);
    let c = t.c(pos_x, pos_y);
    let s = sign_of(t.area(pos_x, pos_y));
    let area = t.area(pos_x, pos_y);
    assert(area * s > 0) by (nonlinear_arith)
        requires
            area != 0,
            s == sign_of(area),
    ;
    lemma_edge_rotation(a, b, c);
    lemma_edge_rotation(b, c, a);
    assert(edge_value(a, b, a) == 0 && edge_value(c, a, a) == 0) by (nonlinear_arith);
    assert(edge_value(b, c, b) == 0 && edge_value(a, b, b) == 0) by (nonlinear_arith);
    assert(edge_value(c, a, c) == 0 && edge_value(b, c, c) == 0) by (nonlinear_arith);
    let inside = t.inside(pos_x, pos_y);
    assert(inside(a.0, a.1));
    assert(inside(b.0, b.1));
    assert(inside(c.0, c.1));
    let p = pitch as int;
}

/// Swapping the second and third vertices changes nothing of what is drawn:
/// the triangle is refused on the same inputs, its area only changes sign,
/// and it paints the same pixels.
pub proof fn lemma_triangle_vertex_swap(t: Triangle, u: Triangle, len: int, pos_x: int, pos_y: int, pitch: usize)
    requires
        u.p1 == t.p1,
        u.p2 == t.p3,
        u.p3 == t.p2,
    ensures
        u.out_of_frame(len, pos_x, pos_y, pitch) == t.out_of_frame(len, pos_x, pos_y, pitch),
        u.area(pos_x, pos_y) == -t.area(pos_x, pos_y),
        forall|i: int|
            #[trigger] u.covers_index(pos_x, pos_y, pitch as int, i) == t.covers_index(
                pos_x,
                pos_y,
                pitch as int,
                i,
            ),
{
    let a = t.a(pos_x, pos_y);
    let b = t.b(pos_x, pos_y);
    let c = t.c(pos_x, pos_y);
    lemma_edge_antisymmetric(a, c, b);
    lemma_edge_rotation(a, b, c);
    lemma_edge_rotation(b, c, a);
    let s = sign_of(t.area(pos_x, pos_y));
    assert(sign_of(u.area(pos_x, pos_y)) == -s);
    assert forall|x: int, y: int| #[trigger] u.inside(pos_x, pos_y)(x, y) == t.inside(pos_x, pos_y)(x, y) by {
        let q = (x, y);
        lemma_edge_antisymmetric(b, c, q);
        lemma_edge_antisymmetric(a, b, q);
        lemma_edge_antisymmetric(c, a, q);
        let e0 = edge_value(b, c, q);
        let e1 = edge_value(c, a, q);
        let e2 = edge_value(a, b, q);
        assert((-e0) * (-s) == e0 * s && (-e2) * (-s) == e2 * s && (-e1) * (-s) == e1 * s)
            by (nonlinear_arith);
    }
    assert(u.inside(pos_x, pos_y) =~= t.inside(pos_x, pos_y));
}

/// Rotating the vertices changes nothing of what is drawn: the triangle is
/// refused on the same inputs, has the same area and paints the same pixels.
pub proof fn lemma_triangle_vertex_rotation(t: Triangle, u: Triangle, len: int, pos_x: int, pos_y: int, pitch: usize)
    requires
        u.p1 == t.p2,
        u.p2 == t.p3,
        u.p3 == t.p1,
    ensures
        u.out_of_frame(len, pos_x, pos_y, pitch) == t.out_of_frame(len, pos_x, pos_y, pitch),
        u.area(pos_x, pos_y) == t.area(pos_x, pos_y),
        forall|i: int|
            #[trigger] u.covers_index(pos_x, pos_y, pitch as int, i) == t.covers_index(
                pos_x,
                pos_y,
                pitch as int,
                i,
            ),
{
    let a = t.a(pos_x, pos_y);
    let b = t.b(pos_x, pos_y);
    let c = t.c(pos_x, pos_y);
    lemma_edge_rotation(a, b, c);
    assert forall|x: int, y: int| #[trigger] u.inside(pos_x, pos_y)(x, y) == t.inside(pos_x, pos_y)(x, y) by {}
    assert(u.inside(pos_x, pos_y) =~= t.inside(pos_x, pos_y));
}

/// An accepted circle with a radius that reads as a non-negative `i32`
/// paints its centre.
pub proof fn lemma_circle_paints_center(c: Circle, len: int, pos_x: i32, pos_y: i32, pitch: usize)
    requires
        !c.rejected(len, pos_x, pos_y, pitch),
        c.r() >= 0,
    ensures
        c.covers_index(pos_x as int, pos_y as int, pitch as int, pixel_index(pos_x as int, pos_y as int, pitch as int)),
{
    let r = c.r();
    assert(0 <= r * r) by (nonlinear_arith);
    assert(c.inside(pos_x as int, pos_y as int)(pos_x as int, pos_y as int));
}

} // verus!
