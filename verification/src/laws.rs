//! What the drawing operations do, stated over the shapes' fields, the
//! position, the pitch and the buffers before and after, for every input.

use vstd::prelude::*;

use crate::paint::{block_covers, block_fits, lemma_pixel_in_buffer, painted, pixel_index};
use crate::rasterizer::{color_value, Circle, Color, Rasterizer, Rectangle, Triangle};

verus! {

/// Filling a block of `height` rows of `width` pixels sets every pixel
/// (x, y) with x < width and y < height to the value, and changes no
/// position that is not such a pixel.
pub proof fn law_block_fill(before: Seq<u32>, after: Seq<u32>, width: u32, height: u32, pitch: usize, value: u32)
    requires
        block_fits(before.len() as int, width as int, height as int, pitch as int),
        painted(before, after, |i: int| block_covers(width as int, height as int, pitch as int, i), value),
    ensures
        after.len() == before.len(),
        forall|x: int, y: int|
            #![trigger pixel_index(x, y, pitch as int)]
            0 <= x < width && 0 <= y < height ==> 0 <= pixel_index(x, y, pitch as int) < before.len()
                && after[pixel_index(x, y, pitch as int)] == value,
        forall|i: int|
            0 <= i < before.len() && #[trigger] after[i] != before[i] ==> exists|x: int, y: int|
                #![trigger pixel_index(x, y, pitch as int)]
                0 <= x < width && 0 <= y < height && pixel_index(x, y, pitch as int) == i,
{
    let p = pitch as int;
    assert forall|x: int, y: int|
        #![trigger pixel_index(x, y, p)]
        0 <= x < width && 0 <= y < height implies 0 <= pixel_index(x, y, p) < before.len()
            && after[pixel_index(x, y, p)] == value by {
        assert(0 <= pixel_index(x, y, p) <= pixel_index(width - 1, height - 1, p)) by (nonlinear_arith)
            requires
                0 <= x <= width - 1,
                0 <= y <= height - 1,
                0 <= p,
        ;
        assert(block_covers(width as int, height as int, p, pixel_index(x, y, p)));
    }
    assert forall|i: int| 0 <= i < before.len() && #[trigger] after[i] != before[i] implies exists|x: int, y: int|
        #![trigger pixel_index(x, y, p)]
        0 <= x < width && 0 <= y < height && pixel_index(x, y, p) == i by {
        assert(block_covers(width as int, height as int, p, i));
    }
}

/// A `usize` up to `i32::MAX` reads as itself when taken as an `i32`.
proof fn lemma_usize_reads_as_i32(u: usize)
    ensures
        u <= i32::MAX ==> (u as i32) as int == u as int,
{
    assert(u <= 0x7fff_ffffusize ==> (u as i32) >= 0i32 && (u as i32) as usize == u) by (bit_vector);
}

/// A `u32` below 2^31 reads as itself when taken as an `i32`; from 2^31 on
/// it reads as a negative number.
proof fn lemma_u32_reads_as_i32(u: u32)
    ensures
        u <= i32::MAX ==> (u as i32) as int == u as int,
        u > i32::MAX ==> (u as i32) < 0,
{
    assert(u <= 0x7fff_ffffu32 ==> (u as i32) >= 0i32 && (u as i32) as u32 == u) by (bit_vector);
    assert(u > 0x7fff_ffffu32 ==> (u as i32) < 0i32) by (bit_vector);
}

/// Drawing a rectangle: it is refused, with the buffer left alone, exactly
/// when its position or its far edge passes the last column (the pitch read
/// as an `i32`) or the last row (the number of whole rows, `len / pitch`,
/// read as an `i32`); when pitch, row count, width and height fit in an
/// `i32` that is when `pos_x + width > pitch` or `pos_y + height > len /
/// pitch` (or the position alone passes them). An accepted rectangle sets
/// every pixel (x, y) with x < width and y < height, counted from the start
/// of the buffer, to its color and changes nothing else.
pub proof fn law_rectangle_draw(
    r: Rectangle,
    before: Seq<u32>,
    after: Seq<u32>,
    result: Result<(), &'static str>,
    pos_x: i32,
    pos_y: i32,
    pitch: usize,
)
    requires
        r.draw_defined(before.len() as int, pos_x, pos_y, pitch),
        result is Err <==> r.rejected(before.len() as int, pos_x, pos_y, pitch),
        result matches Err(e) ==> after == before,
        result is Ok ==> painted(
            before,
            after,
            |i: int| block_covers(r.width as int, r.height as int, pitch as int, i),
            color_value(r.color),
        ),
    ensures
        ({
            let cols = (pitch as i32) as int;
            let rows = ((before.len() as int / pitch as int) as i32) as int;
            result is Err <==> (pos_x > cols || pos_x + (r.width as i32) > cols || pos_y > rows || pos_y + (
            r.height as i32) > rows)
        }),
        pitch <= i32::MAX && before.len() as int / pitch as int <= i32::MAX && r.width <= i32::MAX && r.height
            <= i32::MAX ==> (result is Err <==> (pos_x > pitch || pos_x + r.width > pitch || pos_y > before.len() as int
            / pitch as int || pos_y + r.height > before.len() as int / pitch as int)),
        result is Err ==> after == before,
        result is Ok ==> after.len() == before.len(),
        result is Ok ==> forall|x: int, y: int|
            #![trigger pixel_index(x, y, pitch as int)]
            0 <= x < r.width && 0 <= y < r.height ==> 0 <= pixel_index(x, y, pitch as int) < before.len()
                && after[pixel_index(x, y, pitch as int)] == color_value(r.color),
        result is Ok ==> forall|i: int|
            0 <= i < before.len() && #[trigger] after[i] != before[i] ==> exists|x: int, y: int|
                #![trigger pixel_index(x, y, pitch as int)]
                0 <= x < r.width && 0 <= y < r.height && pixel_index(x, y, pitch as int) == i,
{
    lemma_usize_reads_as_i32(pitch);
    lemma_usize_reads_as_i32((before.len() as int / pitch as int) as usize);
    lemma_u32_reads_as_i32(r.width);
    lemma_u32_reads_as_i32(r.height);
    if result is Ok {
        law_block_fill(before, after, r.width, r.height, pitch, color_value(r.color));
    }
}

/// Clearing the screen makes every pixel (x, y) with x < width and
/// y < height black (zero) and changes nothing else.
pub proof fn law_clear_screen(before: Seq<u32>, after: Seq<u32>, height: u32, width: u32, pitch: usize)
    requires
        block_fits(before.len() as int, width as int, height as int, pitch as int),
        painted(
            before,
            after,
            |i: int| block_covers(width as int, height as int, pitch as int, i),
            color_value(Color::Black),
        ),
    ensures
        after.len() == before.len(),
        forall|x: int, y: int|
            #![trigger pixel_index(x, y, pitch as int)]
            0 <= x < width && 0 <= y < height ==> 0 <= pixel_index(x, y, pitch as int) < before.len()
                && after[pixel_index(x, y, pitch as int)] == 0,
        forall|i: int|
            0 <= i < before.len() && #[trigger] after[i] != before[i] ==> after[i] == 0,
{
    law_block_fill(before, after, width, height, pitch, color_value(Color::Black));
}

/// Whether d * d <= r * r bounds d by r.
proof fn lemma_square_bound(d: int, e: int, r: int)
    requires
        0 <= r,
        d * d + e * e <= r * r,
    ensures
        -r <= d <= r,
        -r <= e <= r,
{
    assert(-r <= d <= r && -r <= e <= r) by (nonlinear_arith)
        requires
            0 <= r,
            d * d + e * e <= r * r,
    ;
}

/// Drawing a circle of radius `radius` below 2^31 centred on (pos_x, pos_y):
/// it is refused, with the buffer left alone, exactly when
/// `pos_x - radius < 0`, `pos_x + radius` reaches the pitch (read as an
/// `i32`), `pos_y - radius < 0` or `pos_y + radius` reaches the number of
/// whole rows `len / pitch` (read as an `i32`). An accepted circle paints
/// exactly the Euclidean disc: every pixel (x, y) with
/// `(x - pos_x)^2 + (y - pos_y)^2 <= radius^2` gets its color, and a
/// position changes only if it is such a pixel. A radius of 2^31 or more
/// reads as a negative number, and then nothing is painted.
pub proof fn law_circle_draw(
    c: Circle,
    before: Seq<u32>,
    after: Seq<u32>,
    result: Result<(), &'static str>,
    pos_x: i32,
    pos_y: i32,
    pitch: usize,
)
    requires
        c.draw_defined(before.len() as int, pos_x, pos_y, pitch),
        result is Err <==> c.rejected(before.len() as int, pos_x, pos_y, pitch),
        result matches Err(e) ==> after == before,
        result is Ok ==> painted(
            before,
            after,
            |i: int| c.covers_index(pos_x as int, pos_y as int, pitch as int, i),
            color_value(c.color),
        ),
    ensures
        result is Err ==> after == before,
        c.radius <= i32::MAX ==> ({
            let cols = (pitch as i32) as int;
            let rows = ((before.len() as int / pitch as int) as i32) as int;
            result is Err <==> (pos_x - c.radius < 0 || pos_x + c.radius >= cols || pos_y - c.radius < 0
                || pos_y + c.radius >= rows)
        }),
        result is Ok ==> after.len() == before.len(),
        result is Ok && c.radius <= i32::MAX ==> forall|x: int, y: int|
            #![trigger pixel_index(x, y, pitch as int)]
            (x - pos_x) * (x - pos_x) + (y - pos_y) * (y - pos_y) <= c.radius * c.radius && 0
                <= pixel_index(x, y, pitch as int) < before.len() ==> after[pixel_index(x, y, pitch as int)]
                == color_value(c.color),
        result is Ok && c.radius <= i32::MAX ==> forall|i: int|
            0 <= i < before.len() && #[trigger] after[i] != before[i] ==> exists|x: int, y: int|
                #![trigger pixel_index(x, y, pitch as int)]
                (x - pos_x) * (x - pos_x) + (y - pos_y) * (y - pos_y) <= c.radius * c.radius
                    && pixel_index(x, y, pitch as int) == i,
        result is Ok && c.radius > i32::MAX ==> after == before,
{
    lemma_u32_reads_as_i32(c.radius);
    let p = pitch as int;
    let px = pos_x as int;
    let py = pos_y as int;
    let rad = c.radius as int;
    if result is Ok {
        if c.radius <= i32::MAX {
            assert(c.r() == rad);
            assert forall|x: int, y: int|
                #![trigger pixel_index(x, y, p)]
                (x - px) * (x - px) + (y - py) * (y - py) <= rad * rad && 0 <= pixel_index(x, y, p)
                    < before.len() implies after[pixel_index(x, y, p)] == color_value(c.color) by {
                lemma_square_bound(x - px, y - py, rad);
                assert(c.inside(px, py)(x, y));
                assert(c.covers_index(px, py, p, pixel_index(x, y, p)));
            }
            assert forall|i: int| 0 <= i < before.len() && #[trigger] after[i] != before[i] implies exists|
                x: int,
                y: int,
            |
                #![trigger pixel_index(x, y, p)]
                (x - px) * (x - px) + (y - py) * (y - py) <= rad * rad && pixel_index(x, y, p) == i by {
                assert(c.covers_index(px, py, p, i));
                let (x, y) = choose|x: int, y: int|
                    #![trigger pixel_index(x, y, p)]
                    px - c.r() <= x <= px + c.r() && py - c.r() <= y <= py + c.r() && c.inside(px, py)(x, y)
                        && pixel_index(x, y, p) == i;
                assert(pixel_index(x, y, p) == i);
            }
        } else {
            assert(c.r() < 0);
            assert(after =~= before) by {
                assert forall|i: int| 0 <= i < before.len() implies after[i] == before[i] by {
                    assert(!c.covers_index(px, py, p, i));
                }
            }
        }
    }
}

/// Drawing a triangle with vertices p1, p2, p3 placed at (pos_x, pos_y): it
/// is refused, with the buffer left alone, exactly when a placed vertex has
/// a negative coordinate, a column reaching the pitch (read as an `i32`) or
/// a row reaching the number of whole rows `len / pitch` (read as an `i32`),
/// or when the three placed vertices are collinear. An accepted triangle
/// sets every pixel of its bounding box that lies on the inner side of all
/// three edges (edges included) to its color, and a position changes only
/// if it is such a pixel.
pub proof fn law_triangle_draw(
    t: Triangle,
    before: Seq<u32>,
    after: Seq<u32>,
    result: Result<(), &'static str>,
    pos_x: i32,
    pos_y: i32,
    pitch: usize,
)
    requires
        before.len() <= usize::MAX,
        t.draw_defined(before.len() as int, pos_x, pos_y, pitch),
        match result {
            Ok(_) => {
                &&& !t.out_of_frame(before.len() as int, pos_x as int, pos_y as int, pitch)
                &&& t.area(pos_x as int, pos_y as int) != 0
                &&& painted(
                    before,
                    after,
                    |i: int| t.covers_index(pos_x as int, pos_y as int, pitch as int, i),
                    color_value(t.color),
                )
            },
            Err(e) => after == before && (t.out_of_frame(before.len() as int, pos_x as int, pos_y as int, pitch)
                || t.area(pos_x as int, pos_y as int) == 0),
        },
    ensures
        result is Err ==> after == before,
        ({
            let ax = t.p1[0] + pos_x;
            let ay = t.p1[1] + pos_y;
            let bx = t.p2[0] + pos_x;
            let by = t.p2[1] + pos_y;
            let cx = t.p3[0] + pos_x;
            let cy = t.p3[1] + pos_y;
            let cols = (pitch as i32) as int;
            let rows = ((before.len() as int / pitch as int) as i32) as int;
            result is Err <==> (ax < 0 || ax >= cols || ay < 0 || ay >= rows || bx < 0 || bx >= cols || by < 0
                || by >= rows || cx < 0 || cx >= cols || cy < 0 || cy >= rows || (bx - ax) * (cy - ay) - (by
                - ay) * (cx - ax) == 0)
        }),
        result is Ok ==> after.len() == before.len(),
        result is Ok ==> forall|x: int, y: int|
            #![trigger pixel_index(x, y, pitch as int)]
            ({
                let (ax, ay, bx, by, cx, cy) = (
                    t.p1[0] + pos_x,
                    t.p1[1] + pos_y,
                    t.p2[0] + pos_x,
                    t.p2[1] + pos_y,
                    t.p3[0] + pos_x,
                    t.p3[1] + pos_y,
                );
                let area = (bx - ax) * (cy - ay) - (by - ay) * (cx - ax);
                let e0 = (cx - bx) * (y - by) - (cy - by) * (x - bx);
                let e1 = (ax - cx) * (y - cy) - (ay - cy) * (x - cx);
                let e2 = (bx - ax) * (y - ay) - (by - ay) * (x - ax);
                &&& ax <= x || bx <= x || cx <= x
                &&& x <= ax || x <= bx || x <= cx
                &&& ay <= y || by <= y || cy <= y
                &&& y <= ay || y <= by || y <= cy
                &&& (area > 0 && e0 >= 0 && e1 >= 0 && e2 >= 0) || (area < 0 && e0 <= 0 && e1 <= 0 && e2 <= 0)
            }) ==> 0 <= pixel_index(x, y, pitch as int) < before.len() && after[pixel_index(x, y, pitch as int)]
                == color_value(t.color),
        result is Ok ==> forall|i: int|
            0 <= i < before.len() && #[trigger] after[i] != before[i] ==> exists|x: int, y: int|
                #![trigger pixel_index(x, y, pitch as int)]
                ({
                let (ax, ay, bx, by, cx, cy) = (
                    t.p1[0] + pos_x,
                    t.p1[1] + pos_y,
                    t.p2[0] + pos_x,
                    t.p2[1] + pos_y,
                    t.p3[0] + pos_x,
                    t.p3[1] + pos_y,
                );
                let area = (bx - ax) * (cy - ay) - (by - ay) * (cx - ax);
                let e0 = (cx - bx) * (y - by) - (cy - by) * (x - bx);
                let e1 = (ax - cx) * (y - cy) - (ay - cy) * (x - cx);
                let e2 = (bx - ax) * (y - ay) - (by - ay) * (x - ax);
                &&& ax <= x || bx <= x || cx <= x
                &&& x <= ax || x <= bx || x <= cx
                &&& ay <= y || by <= y || cy <= y
                &&& y <= ay || y <= by || y <= cy
                &&& (area > 0 && e0 >= 0 && e1 >= 0 && e2 >= 0) || (area < 0 && e0 <= 0 && e1 <= 0 && e2 <= 0)
            }) && pixel_index(x, y, pitch as int) == i,
{
    let px = pos_x as int;
    let py = pos_y as int;
    let p = pitch as int;
    let len = before.len() as int;
    let a = t.a(px, py);
    let b = t.b(px, py);
    let c = t.c(px, py);
    let area = t.area(px, py);
    let s = crate::rasterizer::sign_of(area);
    assert forall|x: int, y: int|
        #![trigger t.inside(px, py)(x, y)]
        area != 0 implies ({
                let (ax, ay, bx, by, cx, cy) = (
                    t.p1[0] + pos_x,
                    t.p1[1] + pos_y,
                    t.p2[0] + pos_x,
                    t.p2[1] + pos_y,
                    t.p3[0] + pos_x,
                    t.p3[1] + pos_y,
                );
                let area = (bx - ax) * (cy - ay) - (by - ay) * (cx - ax);
                let e0 = (cx - bx) * (y - by) - (cy - by) * (x - bx);
                let e1 = (ax - cx) * (y - cy) - (ay - cy) * (x - cx);
                let e2 = (bx - ax) * (y - ay) - (by - ay) * (x - ax);
                &&& ax <= x || bx <= x || cx <= x
                &&& x <= ax || x <= bx || x <= cx
                &&& ay <= y || by <= y || cy <= y
                &&& y <= ay || y <= by || y <= cy
                &&& (area > 0 && e0 >= 0 && e1 >= 0 && e2 >= 0) || (area < 0 && e0 <= 0 && e1 <= 0 && e2 <= 0)
            }) == (t.min_x(px, py) <= x
            <= t.max_x(px, py) && t.min_y(px, py) <= y <= t.max_y(px, py) && t.inside(px, py)(x, y)) by {
        let w = t.weights(px, py, x, y);
        if area > 0 {
            assert(s == 1);
        } else {
            assert(s == -1);
        }
    }
    if result is Ok {
        assert forall|x: int, y: int|
            #![trigger pixel_index(x, y, p)]
            ({
                let (ax, ay, bx, by, cx, cy) = (
                    t.p1[0] + pos_x,
                    t.p1[1] + pos_y,
                    t.p2[0] + pos_x,
                    t.p2[1] + pos_y,
                    t.p3[0] + pos_x,
                    t.p3[1] + pos_y,
                );
                let area = (bx - ax) * (cy - ay) - (by - ay) * (cx - ax);
                let e0 = (cx - bx) * (y - by) - (cy - by) * (x - bx);
                let e1 = (ax - cx) * (y - cy) - (ay - cy) * (x - cx);
                let e2 = (bx - ax) * (y - ay) - (by - ay) * (x - ax);
                &&& ax <= x || bx <= x || cx <= x
                &&& x <= ax || x <= bx || x <= cx
                &&& ay <= y || by <= y || cy <= y
                &&& y <= ay || y <= by || y <= cy
                &&& (area > 0 && e0 >= 0 && e1 >= 0 && e2 >= 0) || (area < 0 && e0 <= 0 && e1 <= 0 && e2 <= 0)
            }) implies 0 <= pixel_index(x, y, p) < len
                && after[pixel_index(x, y, p)] == color_value(t.color) by {
            assert(t.inside(px, py)(x, y));
            lemma_pixel_in_buffer(x, y, len, pitch);
            assert(t.covers_index(px, py, p, pixel_index(x, y, p)));
        }
        assert forall|i: int| 0 <= i < len && #[trigger] after[i] != before[i] implies exists|x: int, y: int|
            #![trigger pixel_index(x, y, p)]
            ({
                let (ax, ay, bx, by, cx, cy) = (
                    t.p1[0] + pos_x,
                    t.p1[1] + pos_y,
                    t.p2[0] + pos_x,
                    t.p2[1] + pos_y,
                    t.p3[0] + pos_x,
                    t.p3[1] + pos_y,
                );
                let area = (bx - ax) * (cy - ay) - (by - ay) * (cx - ax);
                let e0 = (cx - bx) * (y - by) - (cy - by) * (x - bx);
                let e1 = (ax - cx) * (y - cy) - (ay - cy) * (x - cx);
                let e2 = (bx - ax) * (y - ay) - (by - ay) * (x - ax);
                &&& ax <= x || bx <= x || cx <= x
                &&& x <= ax || x <= bx || x <= cx
                &&& ay <= y || by <= y || cy <= y
                &&& y <= ay || y <= by || y <= cy
                &&& (area > 0 && e0 >= 0 && e1 >= 0 && e2 >= 0) || (area < 0 && e0 <= 0 && e1 <= 0 && e2 <= 0)
            }) && pixel_index(x, y, p) == i by {
            assert(t.covers_index(px, py, p, i));
            let (x, y) = choose|x: int, y: int|
                #![trigger pixel_index(x, y, p)]
                t.min_x(px, py) <= x <= t.max_x(px, py) && t.min_y(px, py) <= y <= t.max_y(px, py) && t.inside(
                    px,
                    py,
                )(x, y) && pixel_index(x, y, p) == i;
            assert(t.inside(px, py)(x, y));
            assert(({
                let (ax, ay, bx, by, cx, cy) = (
                    t.p1[0] + pos_x,
                    t.p1[1] + pos_y,
                    t.p2[0] + pos_x,
                    t.p2[1] + pos_y,
                    t.p3[0] + pos_x,
                    t.p3[1] + pos_y,
                );
                let area = (bx - ax) * (cy - ay) - (by - ay) * (cx - ax);
                let e0 = (cx - bx) * (y - by) - (cy - by) * (x - bx);
                let e1 = (ax - cx) * (y - cy) - (ay - cy) * (x - cx);
                let e2 = (bx - ax) * (y - ay) - (by - ay) * (x - ax);
                &&& ax <= x || bx <= x || cx <= x
                &&& x <= ax || x <= bx || x <= cx
                &&& ay <= y || by <= y || cy <= y
                &&& y <= ay || y <= by || y <= cy
                &&& (area > 0 && e0 >= 0 && e1 >= 0 && e2 >= 0) || (area < 0 && e0 <= 0 && e1 <= 0 && e2 <= 0)
            }));
        }
    }
}

/// Pixels are 0x00RRGGBB: red fills bits 16..24, green bits 8..16, blue
/// bits 0..8; white is all three together and black is none; the top byte
/// is always zero.
pub proof fn law_color_channels()
    ensures
        color_value(Color::Red) == 0xFFu32 << 16u32,
        color_value(Color::Green) == 0xFFu32 << 8u32,
        color_value(Color::Blue) == 0xFFu32,
        color_value(Color::White) == color_value(Color::Red) | color_value(Color::Green) | color_value(Color::Blue),
        color_value(Color::Black) == 0,
        forall|c: Color| #[trigger] color_value(c) >> 24u32 == 0,
{
    assert(0xFFu32 << 16u32 == 0x00FF_0000u32) by (bit_vector);
    assert(0xFFu32 << 8u32 == 0x0000_FF00u32) by (bit_vector);
    assert(0x00FF_0000u32 | 0x0000_FF00u32 | 0x0000_00FFu32 == 0x00FF_FFFFu32) by (bit_vector);
    assert forall|c: Color| #[trigger] color_value(c) >> 24u32 == 0 by {
        let v = color_value(c);
        assert(v < 0x0100_0000u32 ==> v >> 24u32 == 0) by (bit_vector);
    }
}

/// A rectangle placed at a non-negative position is drawn (accepted or
/// refused, but never failing) whenever the pitch is not zero and the
/// pitch plus the width, and the number of rows plus the height, fit in an
/// `i32`.
pub proof fn law_rectangle_drawable(r: Rectangle, len: nat, pos_x: i32, pos_y: i32, pitch: usize)
    requires
        len <= usize::MAX,
        pitch > 0,
        pitch + r.width <= i32::MAX,
        len as int / pitch as int + r.height <= i32::MAX,
        0 <= pos_x,
        0 <= pos_y,
    ensures
        r.draw_defined(len as int, pos_x, pos_y, pitch),
{
    let p = pitch as int;
    let rows = len as int / p;
    lemma_usize_reads_as_i32(pitch);
    vstd::arithmetic::div_mod::lemma_div_pos_is_pos(len as int, p);
    vstd::arithmetic::div_mod::lemma_div_is_ordered_by_denominator(len as int, 1, p);
    lemma_usize_reads_as_i32(rows as usize);
    lemma_u32_reads_as_i32(r.width);
    lemma_u32_reads_as_i32(r.height);
    if !r.rejected(len as int, pos_x, pos_y, pitch) && r.width > 0 && r.height > 0 {
        let w = r.width as int;
        let h = r.height as int;
        vstd::arithmetic::div_mod::lemma_fundamental_div_mod(len as int, p);
        vstd::arithmetic::div_mod::lemma_mod_pos_bound(len as int, p);
        let m = len as int % p;
        assert(pixel_index(w - 1, h - 1, p) < len) by (nonlinear_arith)
            requires
                1 <= w <= p,
                1 <= h <= rows,
                len == p * rows + m,
                0 <= m,
                p > 0,
        ;
    }
}

/// A circle of radius below 2^15 centred at a position with both
/// coordinates in `[0, 2^30]` is drawn (accepted or refused, but never
/// failing) on any buffer whose pitch is not zero.
pub proof fn law_circle_drawable(c: Circle, len: nat, pos_x: i32, pos_y: i32, pitch: usize)
    requires
        pitch > 0,
        c.radius < 0x8000,
        0 <= pos_x <= 0x4000_0000,
        0 <= pos_y <= 0x4000_0000,
    ensures
        c.draw_defined(len as int, pos_x, pos_y, pitch),
{
    lemma_u32_reads_as_i32(c.radius);
    let r = c.radius as int;
    assert(2 * r * r <= i32::MAX) by (nonlinear_arith)
        requires
            0 <= r < 0x8000,
    ;
}

/// A triangle whose vertex coordinates and position all lie in
/// `[-4096, 4096]` is drawn (accepted or refused, but never failing) on any
/// buffer whose pitch is not zero.
pub proof fn law_triangle_drawable(t: Triangle, len: nat, pos_x: i32, pos_y: i32, pitch: usize)
    requires
        len <= usize::MAX,
        pitch > 0,
        -4096 <= pos_x <= 4096,
        -4096 <= pos_y <= 4096,
        -4096 <= t.p1[0] <= 4096 && -4096 <= t.p1[1] <= 4096,
        -4096 <= t.p2[0] <= 4096 && -4096 <= t.p2[1] <= 4096,
        -4096 <= t.p3[0] <= 4096 && -4096 <= t.p3[1] <= 4096,
    ensures
        t.draw_defined(len as int, pos_x, pos_y, pitch),
{
    let px = pos_x as int;
    let py = pos_y as int;
    let a = t.a(px, py);
    let b = t.b(px, py);
    let c = t.c(px, py);
    assert forall|u: (int, int), v: (int, int), q: (int, int)|
        -8192 <= u.0 <= 8192 && -8192 <= u.1 <= 8192 && -8192 <= v.0 <= 8192 && -8192 <= v.1 <= 8192 && -8192
            <= q.0 <= 8192 && -8192 <= q.1 <= 8192 implies #[trigger] crate::rasterizer::edge_fits(u, v, q)
        && -0x2000_0000 <= crate::rasterizer::edge_value(u, v, q) <= 0x2000_0000 by {
        let d0 = v.0 - u.0;
        let d1 = q.1 - u.1;
        let d2 = v.1 - u.1;
        let d3 = q.0 - u.0;
        assert(-0x1000_0000 <= d0 * d1 <= 0x1000_0000 && -0x1000_0000 <= d2 * d3 <= 0x1000_0000)
            by (nonlinear_arith)
            requires
                -16384 <= d0 <= 16384,
                -16384 <= d1 <= 16384,
                -16384 <= d2 <= 16384,
                -16384 <= d3 <= 16384,
        ;
    }
    assert(crate::rasterizer::edge_fits(a, b, c));
    let s = crate::rasterizer::sign_of(t.area(px, py));
    assert forall|x: int, y: int|
        t.min_x(px, py) <= x <= t.max_x(px, py) && t.min_y(px, py) <= y <= t.max_y(px, py) implies #[trigger] t.pixel_test_fits(
        px,
        py,
        x,
        y,
    ) by {
        let q = (x, y);
        assert(crate::rasterizer::edge_fits(b, c, q));
        assert(crate::rasterizer::edge_fits(c, a, q));
        assert(crate::rasterizer::edge_fits(a, b, q));
        let e0 = crate::rasterizer::edge_value(b, c, q);
        let e1 = crate::rasterizer::edge_value(c, a, q);
        let e2 = crate::rasterizer::edge_value(a, b, q);
        assert(-0x2000_0000 <= e0 * s <= 0x2000_0000 && -0x2000_0000 <= e1 * s <= 0x2000_0000 && -0x2000_0000
            <= e2 * s <= 0x2000_0000) by (nonlinear_arith)
            requires
                -0x2000_0000 <= e0 <= 0x2000_0000,
                -0x2000_0000 <= e1 <= 0x2000_0000,
                -0x2000_0000 <= e2 <= 0x2000_0000,
                -1 <= s <= 1,
        ;
    }
}

} // verus!
