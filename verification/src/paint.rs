//! Row-major scan filling: which buffer positions a shape covers, and the
//! facts that carry a row-by-row fill loop from one pixel to the next.

use vstd::prelude::*;

verus! {

/// Position in a row-major buffer of the pixel (x, y), rows being `pitch`
/// positions apart.
pub open spec fn pixel_index(x: int, y: int, pitch: int) -> int {
    y * pitch + x
}

/// Whether (x, y) comes before (xc, yc) in row-major scan order.
pub open spec fn scanned_before(x: int, y: int, xc: int, yc: int) -> bool {
    y < yc || (y == yc && x < xc)
}

/// Whether buffer position `i` is the index of a pixel (x, y) of the box
/// `[x_lo, x_hi] x [y_lo, y_hi]` that `inside` selects.
pub open spec fn covers(
    inside: spec_fn(int, int) -> bool,
    x_lo: int,
    x_hi: int,
    y_lo: int,
    y_hi: int,
    pitch: int,
    i: int,
) -> bool {
    exists|x: int, y: int|
        #![trigger pixel_index(x, y, pitch)]
        x_lo <= x <= x_hi && y_lo <= y <= y_hi && inside(x, y) && pixel_index(x, y, pitch) == i
}

/// `after` is `before` with every position that `covered` holds of set to
/// `value`, and every other position left as it was.
pub open spec fn painted(before: Seq<u32>, after: Seq<u32>, covered: spec_fn(int) -> bool, value: u32) -> bool {
    &&& after.len() == before.len()
    &&& forall|i: int|
        0 <= i < before.len() ==> #[trigger] after[i] == if covered(i) {
            value
        } else {
            before[i]
        }
}

/// Whether buffer position `i` is the index of a pixel of the column range
/// `[x_lo, x_hi]`, at or below row `y_lo`, scanned before (xc, yc), that
/// `inside` selects.
pub open spec fn painted_before(
    inside: spec_fn(int, int) -> bool,
    x_lo: int,
    x_hi: int,
    y_lo: int,
    xc: int,
    yc: int,
    pitch: int,
    i: int,
) -> bool {
    exists|x: int, y: int|
        #![trigger pixel_index(x, y, pitch)]
        x_lo <= x <= x_hi && y_lo <= y && scanned_before(x, y, xc, yc) && inside(x, y)
            && pixel_index(x, y, pitch) == i
}

/// State of a row-major fill loop that has reached (xc, yc): exactly the
/// selected pixels scanned so far hold `value`, the rest is as in `before`.
pub open spec fn scan_state(
    before: Seq<u32>,
    fb: Seq<u32>,
    inside: spec_fn(int, int) -> bool,
    x_lo: int,
    x_hi: int,
    y_lo: int,
    xc: int,
    yc: int,
    pitch: int,
    value: u32,
) -> bool {
    &&& fb.len() == before.len()
    &&& forall|i: int|
        0 <= i < fb.len() ==> #[trigger] fb[i] == if painted_before(
            inside,
            x_lo,
            x_hi,
            y_lo,
            xc,
            yc,
            pitch,
            i,
        ) {
            value
        } else {
            before[i]
        }
}

/// Nothing is scanned before the first pixel of the box.
pub proof fn lemma_scan_start(
    before: Seq<u32>,
    inside: spec_fn(int, int) -> bool,
    x_lo: int,
    x_hi: int,
    y_lo: int,
    pitch: int,
    value: u32,
)
    ensures
        scan_state(before, before, inside, x_lo, x_hi, y_lo, x_lo, y_lo, pitch, value),
{
    assert forall|i: int| 0 <= i < before.len() implies !painted_before(
        inside,
        x_lo,
        x_hi,
        y_lo,
        x_lo,
        y_lo,
        pitch,
        i,
    ) by {}
}

/// Visiting pixel (xc, yc): it is painted exactly when `inside` selects it.
pub proof fn lemma_scan_pixel(
    before: Seq<u32>,
    fb: Seq<u32>,
    inside: spec_fn(int, int) -> bool,
    x_lo: int,
    x_hi: int,
    y_lo: int,
    xc: int,
    yc: int,
    pitch: int,
    value: u32,
)
    requires
        scan_state(before, fb, inside, x_lo, x_hi, y_lo, xc, yc, pitch, value),
        x_lo <= xc <= x_hi,
        y_lo <= yc,
        inside(xc, yc) ==> 0 <= pixel_index(xc, yc, pitch) < fb.len(),
    ensures
        scan_state(
            before,
            if inside(xc, yc) {
                fb.update(pixel_index(xc, yc, pitch), value)
            } else {
                fb
            },
            inside,
            x_lo,
            x_hi,
            y_lo,
            xc + 1,
            yc,
            pitch,
            value,
        ),
{
    let idx = pixel_index(xc, yc, pitch);
    let fb2 = if inside(xc, yc) {
        fb.update(idx, value)
    } else {
        fb
    };
    assert forall|i: int| 0 <= i < fb2.len() implies #[trigger] fb2[i] == if painted_before(
        inside,
        x_lo,
        x_hi,
        y_lo,
        xc + 1,
        yc,
        pitch,
        i,
    ) {
        value
    } else {
        before[i]
    } by {
        assert(fb[i] == if painted_before(inside, x_lo, x_hi, y_lo, xc, yc, pitch, i) {
            value
        } else {
            before[i]
        });
        if painted_before(inside, x_lo, x_hi, y_lo, xc + 1, yc, pitch, i) {
            let (x, y) = choose|x: int, y: int|
                #![trigger pixel_index(x, y, pitch)]
                x_lo <= x <= x_hi && y_lo <= y && scanned_before(x, y, xc + 1, yc) && inside(x, y)
                    && pixel_index(x, y, pitch) == i;
            if x == xc && y == yc {
                assert(i == idx);
            } else {
                assert(scanned_before(x, y, xc, yc));
                assert(painted_before(inside, x_lo, x_hi, y_lo, xc, yc, pitch, i));
            }
        } else {
            if painted_before(inside, x_lo, x_hi, y_lo, xc, yc, pitch, i) {
                let (x, y) = choose|x: int, y: int|
                    #![trigger pixel_index(x, y, pitch)]
                    x_lo <= x <= x_hi && y_lo <= y && scanned_before(x, y, xc, yc) && inside(x, y)
                        && pixel_index(x, y, pitch) == i;
                assert(scanned_before(x, y, xc + 1, yc));
                assert(false);
            }
            if inside(xc, yc) && i == idx {
                assert(scanned_before(xc, yc, xc + 1, yc));
                assert(painted_before(inside, x_lo, x_hi, y_lo, xc + 1, yc, pitch, i));
                assert(false);
            }
        }
    }
}

/// Passing the end of row yc is the same as standing at the start of row
/// yc + 1.
pub proof fn lemma_scan_next_row(
    before: Seq<u32>,
    fb: Seq<u32>,
    inside: spec_fn(int, int) -> bool,
    x_lo: int,
    x_hi: int,
    y_lo: int,
    yc: int,
    pitch: int,
    value: u32,
)
    requires
        scan_state(before, fb, inside, x_lo, x_hi, y_lo, x_hi + 1, yc, pitch, value),
    ensures
        scan_state(before, fb, inside, x_lo, x_hi, y_lo, x_lo, yc + 1, pitch, value),
{
    assert forall|i: int|
        #[trigger] painted_before(inside, x_lo, x_hi, y_lo, x_hi + 1, yc, pitch, i) == painted_before(
            inside,
            x_lo,
            x_hi,
            y_lo,
            x_lo,
            yc + 1,
            pitch,
            i,
        ) by {
        if painted_before(inside, x_lo, x_hi, y_lo, x_hi + 1, yc, pitch, i) {
            let (x, y) = choose|x: int, y: int|
                #![trigger pixel_index(x, y, pitch)]
                x_lo <= x <= x_hi && y_lo <= y && scanned_before(x, y, x_hi + 1, yc) && inside(x, y)
                    && pixel_index(x, y, pitch) == i;
            assert(scanned_before(x, y, x_lo, yc + 1));
        }
        if painted_before(inside, x_lo, x_hi, y_lo, x_lo, yc + 1, pitch, i) {
            let (x, y) = choose|x: int, y: int|
                #![trigger pixel_index(x, y, pitch)]
                x_lo <= x <= x_hi && y_lo <= y && scanned_before(x, y, x_lo, yc + 1) && inside(x, y)
                    && pixel_index(x, y, pitch) == i;
            assert(scanned_before(x, y, x_hi + 1, yc));
        }
    }
}

/// Once every row up to y_hi is scanned, the painted positions are exactly
/// those the box covers.
pub proof fn lemma_scan_done(
    before: Seq<u32>,
    fb: Seq<u32>,
    inside: spec_fn(int, int) -> bool,
    x_lo: int,
    x_hi: int,
    y_lo: int,
    y_hi: int,
    pitch: int,
    value: u32,
)
    requires
        scan_state(before, fb, inside, x_lo, x_hi, y_lo, x_lo, y_hi + 1, pitch, value),
    ensures
        painted(before, fb, |i: int| covers(inside, x_lo, x_hi, y_lo, y_hi, pitch, i), value),
{
    assert forall|i: int|
        #[trigger] painted_before(inside, x_lo, x_hi, y_lo, x_lo, y_hi + 1, pitch, i) == covers(
            inside,
            x_lo,
            x_hi,
            y_lo,
            y_hi,
            pitch,
            i,
        ) by {
        if painted_before(inside, x_lo, x_hi, y_lo, x_lo, y_hi + 1, pitch, i) {
            let (x, y) = choose|x: int, y: int|
                #![trigger pixel_index(x, y, pitch)]
                x_lo <= x <= x_hi && y_lo <= y && scanned_before(x, y, x_lo, y_hi + 1) && inside(x, y)
                    && pixel_index(x, y, pitch) == i;
            assert(y <= y_hi);
        }
        if covers(inside, x_lo, x_hi, y_lo, y_hi, pitch, i) {
            let (x, y) = choose|x: int, y: int|
                #![trigger pixel_index(x, y, pitch)]
                x_lo <= x <= x_hi && y_lo <= y <= y_hi && inside(x, y) && pixel_index(x, y, pitch) == i;
            assert(scanned_before(x, y, x_lo, y_hi + 1));
        }
    }
}

/// Whether `v` is representable as an `i32`.
pub open spec fn fits_i32(v: int) -> bool {
    i32::MIN <= v <= i32::MAX
}

/// The column bound that the shapes check against: the pitch read as an
/// `i32`.
pub open spec fn max_pos_x(pitch: usize) -> int {
    (pitch as i32) as int
}

/// The row bound that the shapes check against: the number of whole rows
/// read as an `i32`.
pub open spec fn max_pos_y(len: int, pitch: usize) -> int {
    ((len / (pitch as int)) as i32) as int
}

/// An unsigned value read as an `i32`, when that reading is not negative, is
/// no larger than the value.
pub proof fn lemma_i32_reading_le(u: usize)
    ensures
        (u as i32) >= 0 ==> (u as i32) as int <= u as int,
{
    assert((u as i32) >= 0i32 ==> (u as i32) as usize <= u) by (bit_vector);
}

/// A pixel with a column below `max_pos_x` and a row below `max_pos_y` lies
/// inside the buffer.
pub proof fn lemma_pixel_in_buffer(x: int, y: int, len: int, pitch: usize)
    requires
        0 <= x < max_pos_x(pitch),
        0 <= y < max_pos_y(len, pitch),
        0 <= len <= usize::MAX,
        pitch > 0,
    ensures
        0 <= pixel_index(x, y, pitch as int) < len,
        x < pitch,
{
    let p = pitch as int;
    let q = len / p;
    lemma_i32_reading_le(pitch);
    vstd::arithmetic::div_mod::lemma_div_pos_is_pos(len, p);
    assert(q <= usize::MAX) by {
        vstd::arithmetic::div_mod::lemma_div_is_ordered_by_denominator(len, 1, p);
    }
    lemma_i32_reading_le(q as usize);
    vstd::arithmetic::div_mod::lemma_fundamental_div_mod(len, p);
    vstd::arithmetic::div_mod::lemma_mod_pos_bound(len, p);
    let m = len % p;
    assert(0 <= y * p + x < len) by (nonlinear_arith)
        requires
            0 <= x < p,
            0 <= y < q,
            len == p * q + m,
            0 <= m,
    ;
}

/// Selects every pixel.
pub open spec fn every_pixel() -> spec_fn(int, int) -> bool {
    |x: int, y: int| true
}

/// Whether buffer position `i` is a pixel of the block of `height` rows of
/// `width` pixels whose top-left pixel is position 0, rows `pitch` apart.
pub open spec fn block_covers(width: int, height: int, pitch: int, i: int) -> bool {
    covers(every_pixel(), 0, width - 1, 0, height - 1, pitch, i)
}

/// Whether that block lies inside a buffer of `len` pixels: it is empty, or
/// its last pixel is inside.
pub open spec fn block_fits(len: int, width: int, height: int, pitch: int) -> bool {
    width == 0 || height == 0 || pixel_index(width - 1, height - 1, pitch) < len
}

/// Sets every pixel of the block of `height` rows of `width` pixels at the
/// start of the buffer to `value`.
#[verifier::loop_isolation(false)]
pub fn fill_block(framebuffer: &mut [u32], width: u32, height: u32, pitch_pixels: usize, value: u32)
    requires
        block_fits(old(framebuffer)@.len() as int, width as int, height as int, pitch_pixels as int),
    ensures
        painted(
            old(framebuffer)@,
            final(framebuffer)@,
            |i: int| block_covers(width as int, height as int, pitch_pixels as int, i),
            value,
        ),
{
    let len = framebuffer.len();
    let ghost before = framebuffer@;
    let ghost inside = every_pixel();
    let ghost p = pitch_pixels as int;
    let ghost x_hi = width - 1;
    proof {
        lemma_scan_start(before, inside, 0, x_hi, 0, p, value);
    }
    let mut y: u32 = 0;
    while y < height
        invariant
            y <= height,
            len == framebuffer@.len(),
            scan_state(before, framebuffer@, inside, 0, x_hi, 0, 0, y as int, p, value),
        decreases height - y,
    {
        let mut x: u32 = 0;
        while x < width
            invariant
                x <= width,
                y < height,
                len == framebuffer@.len(),
                scan_state(before, framebuffer@, inside, 0, x_hi, 0, x as int, y as int, p, value),
            decreases width - x,
        {
            let ghost prev = framebuffer@;
            assert(0 <= y * p && 0 <= pixel_index(x as int, y as int, p) <= pixel_index(width - 1, height - 1, p))
                by (nonlinear_arith)
                requires
                    0 <= x <= width - 1,
                    0 <= y <= height - 1,
                    0 <= p,
            ;
            framebuffer[y as usize * pitch_pixels + x as usize] = value;
            proof {
                lemma_scan_pixel(before, prev, inside, 0, x_hi, 0, x as int, y as int, p, value);
            }
            x = x + 1;
        }
        proof {
            lemma_scan_next_row(before, framebuffer@, inside, 0, x_hi, 0, y as int, p, value);
        }
        y = y + 1;
    }
    proof {
        lemma_scan_done(before, framebuffer@, inside, 0, x_hi, 0, height - 1, p, value);
    }
}

/// Painting the same positions with the same value a second time changes
/// nothing: a draw repeated on its own result leaves the buffer as the first
/// draw left it.
pub proof fn lemma_painted_idempotent(
    before: Seq<u32>,
    once: Seq<u32>,
    twice: Seq<u32>,
    covered: spec_fn(int) -> bool,
    value: u32,
)
    requires
        painted(before, once, covered, value),
        painted(once, twice, covered, value),
    ensures
        twice == once,
{
    assert(twice =~= once);
}

/// Whether a value computed in `i64` is representable as an `i32`.
pub fn fits_i32_exec(v: i64) -> (ok: bool)
    ensures
        ok == fits_i32(v as int),
{
    -0x8000_0000i64 <= v && v <= 0x7fff_ffffi64
}

/// Decides `block_fits` for a buffer of `len` pixels.
pub fn block_fits_exec(len: usize, width: u32, height: u32, pitch_pixels: usize) -> (ok: bool)
    ensures
        ok == block_fits(len as int, width as int, height as int, pitch_pixels as int),
{
    if width == 0 || height == 0 {
        return true;
    }
    let rows = (height - 1) as u128;
    let p = pitch_pixels as u128;
    assert(rows * p <= 0xffff_ffffu128 * 0xffff_ffff_ffff_ffffu128) by (nonlinear_arith)
        requires
            rows <= 0xffff_ffffu128,
            p <= 0xffff_ffff_ffff_ffffu128,
    ;
    let last = rows * p + (width - 1) as u128;
    last < len as u128
}

} // verus!
