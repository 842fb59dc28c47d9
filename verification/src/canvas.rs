//! A 128x64 one-bit frame buffer laid out in the SSD1306 page format:
//! byte `(y / 8) * 128 + x` holds the column `x` of page `y / 8`, and bit
//! `y % 8` of that byte is the pixel `(x, y)`.

use vstd::prelude::*;

verus! {

/// Display width in pixels.
pub const WIDTH: i32 = 128;
/// Display height in pixels.
pub const HEIGHT: i32 = 64;
/// Size of the frame buffer in bytes.
pub const BUF_LEN: usize = 1024;

/// Whether `(x, y)` lies on the display.
pub open spec fn on_screen(x: int, y: int) -> bool {
    0 <= x < 128 && 0 <= y < 64
}

/// Index of the byte that holds pixel `(x, y)`.
pub open spec fn byte_index(x: int, y: int) -> int {
    (y / 8) * 128 + x
}

/// Bit `k` of byte `b`.
pub open spec fn bit_of(b: u8, k: u8) -> bool {
    (b >> k) & 1u8 == 1u8
}

/// The pixel `(x, y)` of a frame buffer given by its bytes.
pub open spec fn pixel_of(buf: Seq<u8>, x: int, y: int) -> bool {
    bit_of(buf[byte_index(x, y)], (y % 8) as u8)
}

/// Setting bit `k` of a byte gives a byte whose bit `k` is set and whose
/// other bits are unchanged; clearing and toggling likewise.
pub proof fn lemma_bit_ops(b: u8, k: u8, j: u8)
    requires
        k < 8,
        j < 8,
    ensures
        bit_of(b | (1u8 << k), j) == (if j == k { true } else { bit_of(b, j) }),
        bit_of(b & !(1u8 << k), j) == (if j == k { false } else { bit_of(b, j) }),
        bit_of(b ^ (1u8 << k), j) == (if j == k { !bit_of(b, k) } else { bit_of(b, j) }),
{
    assert(bit_of(b | (1u8 << k), j) == (if j == k { true } else { bit_of(b, j) })) by (bit_vector)
        requires
            k < 8,
            j < 8,
    ;
    assert(bit_of(b & !(1u8 << k), j) == (if j == k { false } else { bit_of(b, j) }))
        by (bit_vector)
        requires
            k < 8,
            j < 8,
    ;
    assert(bit_of(b ^ (1u8 << k), j) == (if j == k { !bit_of(b, k) } else { bit_of(b, j) }))
        by (bit_vector)
        requires
            k < 8,
            j < 8,
    ;
}

/// Two bytes whose eight bits agree are equal.
pub proof fn lemma_byte_from_bits(a: u8, b: u8)
    requires
        forall|k: u8| k < 8 ==> bit_of(a, k) == bit_of(b, k),
    ensures
        a == b,
{
    assert(bit_of(a, 0) == bit_of(b, 0));
    assert(bit_of(a, 1) == bit_of(b, 1));
    assert(bit_of(a, 2) == bit_of(b, 2));
    assert(bit_of(a, 3) == bit_of(b, 3));
    assert(bit_of(a, 4) == bit_of(b, 4));
    assert(bit_of(a, 5) == bit_of(b, 5));
    assert(bit_of(a, 6) == bit_of(b, 6));
    assert(bit_of(a, 7) == bit_of(b, 7));
    assert(a == b) by (bit_vector)
        requires
            ((a >> 0u8) & 1u8 == 1u8) == ((b >> 0u8) & 1u8 == 1u8),
            ((a >> 1u8) & 1u8 == 1u8) == ((b >> 1u8) & 1u8 == 1u8),
            ((a >> 2u8) & 1u8 == 1u8) == ((b >> 2u8) & 1u8 == 1u8),
            ((a >> 3u8) & 1u8 == 1u8) == ((b >> 3u8) & 1u8 == 1u8),
            ((a >> 4u8) & 1u8 == 1u8) == ((b >> 4u8) & 1u8 == 1u8),
            ((a >> 5u8) & 1u8 == 1u8) == ((b >> 5u8) & 1u8 == 1u8),
            ((a >> 6u8) & 1u8 == 1u8) == ((b >> 6u8) & 1u8 == 1u8),
            ((a >> 7u8) & 1u8 == 1u8) == ((b >> 7u8) & 1u8 == 1u8),
    ;
}

/// Corner radius actually used for a `w` x `h` rectangle asked to have
/// radius `r`: `min(r, w / 2, h / 2)`.
pub open spec fn corner_radius(w: int, h: int, r: int) -> int {
    let a = if r < w / 2 { r } else { w / 2 };
    if a < h / 2 { a } else { h / 2 }
}

/// Horizontal (or vertical) distance of coordinate `p` from the straight part
/// of a rounded edge running from `lo` over `len` pixels with corner radius `rr`.
pub open spec fn corner_dist(p: int, lo: int, len: int, rr: int) -> int {
    if p < lo + rr {
        lo + rr - p
    } else if p >= lo + len - rr {
        p - (lo + len - 1 - rr)
    } else {
        0
    }
}

/// Whether `invert_rect(x, y, w, h, r)` flips pixel `(px, py)`: the pixel is
/// on screen, inside the rectangle, and not in a cut-away corner. A width or
/// height beyond `i32::MAX` reads as negative, and then nothing is inside.
pub open spec fn in_rounded_rect(px: int, py: int, x: int, y: int, w: int, h: int, r: int) -> bool {
    let rr = corner_radius(w, h, r);
    let dx = corner_dist(px, x, w, rr);
    let dy = corner_dist(py, y, h, rr);
    &&& w <= i32::MAX
    &&& h <= i32::MAX
    &&& on_screen(px, py)
    &&& x <= px < x + w
    &&& y <= py < y + h
    &&& dx * dx + dy * dy <= rr * rr
}

/// Whether the on-screen pixel `(px, py)` inside the rectangle lies in its
/// rounded shape, given the corner radius `rr` already reduced.
fn rounded_rect_contains(px: i32, py: i32, x: i32, y: i32, w: u32, h: u32, rr: i64) -> (inside: bool)
    requires
        on_screen(px as int, py as int),
        x <= px < x + w,
        y <= py < y + h,
        0 <= rr <= w / 2,
        rr <= h / 2,
        w <= i32::MAX,
        h <= i32::MAX,
    ensures
        inside == (corner_dist(px as int, x as int, w as int, rr as int) * corner_dist(px as int, x as int, w as int, rr as int)
            + corner_dist(py as int, y as int, h as int, rr as int) * corner_dist(py as int, y as int, h as int, rr as int)
            <= rr * rr),
{
    let pxl: i64 = px as i64;
    let pyl: i64 = py as i64;
    let xl: i64 = x as i64;
    let yl: i64 = y as i64;
    let wl: i64 = w as i64;
    let hl: i64 = h as i64;
    let dx: i64 = if pxl < xl + rr {
        xl + rr - pxl
    } else if pxl >= xl + wl - rr {
        pxl - (xl + wl - 1 - rr)
    } else {
        0
    };
    let dy: i64 = if pyl < yl + rr {
        yl + rr - pyl
    } else if pyl >= yl + hl - rr {
        pyl - (yl + hl - 1 - rr)
    } else {
        0
    };
    assert(0 <= dx <= rr && 0 <= dy <= rr);
    assert(dx * dx <= rr * rr && dy * dy <= rr * rr && rr * rr <= 0x1000_0000_0000_0000)
        by (nonlinear_arith)
        requires
            0 <= dx <= rr,
            0 <= dy <= rr,
            rr <= 0x4000_0000,
    ;
    dx * dx + dy * dy <= rr * rr
}

/// `after` is `before` with exactly the pixels of the rounded rectangle
/// `(x, y, w, h, r)` inverted.
pub open spec fn inverted_by(before: Seq<u8>, after: Seq<u8>, x: int, y: int, w: int, h: int, r: int) -> bool {
    forall|px: int, py: int|
        #![trigger pixel_of(after, px, py)]
        on_screen(px, py) ==> pixel_of(after, px, py) == (pixel_of(before, px, py) != in_rounded_rect(
            px,
            py,
            x,
            y,
            w,
            h,
            r,
        ))
}

/// Every bit of every byte of the frame buffer is some pixel.
pub proof fn lemma_byte_bit_is_pixel(buf: Seq<u8>, i: int, k: u8)
    requires
        0 <= i < 1024,
        k < 8,
    ensures
        on_screen(i % 128, (i / 128) * 8 + k),
        byte_index(i % 128, (i / 128) * 8 + k) == i,
        pixel_of(buf, i % 128, (i / 128) * 8 + k) == bit_of(buf[i], k),
{
    let y = (i / 128) * 8 + k;
    assert(y / 8 == i / 128);
    assert(y % 8 == k);
}

/// Two frame buffers that agree on every pixel are the same bytes.
pub proof fn lemma_same_pixels_same_bytes(a: Seq<u8>, b: Seq<u8>)
    requires
        a.len() == 1024,
        b.len() == 1024,
        forall|px: int, py: int| #![trigger pixel_of(a, px, py)]
            on_screen(px, py) ==> pixel_of(a, px, py) == pixel_of(b, px, py),
    ensures
        a == b,
{
    assert forall|i: int| 0 <= i < 1024 implies a[i] == b[i] by {
        assert forall|k: u8| k < 8 implies bit_of(a[i], k) == bit_of(b[i], k) by {
            lemma_byte_bit_is_pixel(a, i, k);
            lemma_byte_bit_is_pixel(b, i, k);
        }
        lemma_byte_from_bits(a[i], b[i]);
    }
    assert(a =~= b);
}

/// Inverting the same rounded rectangle twice gives back the frame buffer
/// one started from, byte for byte.
pub proof fn lemma_invert_rect_twice(
    b0: Seq<u8>,
    b1: Seq<u8>,
    b2: Seq<u8>,
    x: int,
    y: int,
    w: int,
    h: int,
    r: int,
)
    requires
        b0.len() == 1024,
        b2.len() == 1024,
        inverted_by(b0, b1, x, y, w, h, r),
        inverted_by(b1, b2, x, y, w, h, r),
    ensures
        b2 == b0,
{
    assert forall|px: int, py: int| #![trigger pixel_of(b2, px, py)]
        on_screen(px, py) implies pixel_of(b2, px, py) == pixel_of(b0, px, py) by {
        assert(pixel_of(b1, px, py) == (pixel_of(b0, px, py) != in_rounded_rect(px, py, x, y, w, h, r)));
    }
    lemma_same_pixels_same_bytes(b2, b0);
}

/// The frame buffer `buf` with pixel `(x, y)` set to `val` (unchanged when
/// the pixel is off the screen).
pub open spec fn with_pixel(buf: Seq<u8>, x: int, y: int, val: bool) -> Seq<u8> {
    if !on_screen(x, y) {
        buf
    } else {
        let i = byte_index(x, y);
        let k = (y % 8) as u8;
        buf.update(i, if val { buf[i] | (1u8 << k) } else { buf[i] & !(1u8 << k) })
    }
}

/// Setting a pixel affects that pixel only: it then reads `val`, and every
/// other pixel reads as before.
pub proof fn lemma_with_pixel_reads(buf: Seq<u8>, x: int, y: int, val: bool, px: int, py: int)
    requires
        buf.len() == 1024,
        on_screen(px, py),
    ensures
        pixel_of(with_pixel(buf, x, y, val), px, py) == if px == x && py == y {
            val
        } else {
            pixel_of(buf, px, py)
        },
{
    if on_screen(x, y) {
        let k = (y % 8) as u8;
        lemma_bit_ops(buf[byte_index(x, y)], k, (py % 8) as u8);
    }
}

/// Setting a pixel to a value and then back to the value it had restores
/// the frame buffer byte for byte.
pub proof fn lemma_set_pixel_undo(buf: Seq<u8>, x: int, y: int, val: bool)
    requires
        buf.len() == 1024,
    ensures
        with_pixel(with_pixel(buf, x, y, val), x, y, on_screen(x, y) && pixel_of(buf, x, y)) == buf,
{
    let b1 = with_pixel(buf, x, y, val);
    let b2 = with_pixel(b1, x, y, on_screen(x, y) && pixel_of(buf, x, y));
    assert forall|px: int, py: int| #![trigger pixel_of(b2, px, py)]
        on_screen(px, py) implies pixel_of(b2, px, py) == pixel_of(buf, px, py) by {
        lemma_with_pixel_reads(buf, x, y, val, px, py);
        lemma_with_pixel_reads(b1, x, y, on_screen(x, y) && pixel_of(buf, x, y), px, py);
    }
    lemma_same_pixels_same_bytes(b2, buf);
}

/// Setting the same pixel to the same value twice is the same as once.
pub proof fn lemma_set_pixel_twice(buf: Seq<u8>, x: int, y: int, val: bool)
    requires
        buf.len() == 1024,
    ensures
        with_pixel(with_pixel(buf, x, y, val), x, y, val) == with_pixel(buf, x, y, val),
{
    let b1 = with_pixel(buf, x, y, val);
    let b2 = with_pixel(b1, x, y, val);
    assert forall|px: int, py: int| #![trigger pixel_of(b2, px, py)]
        on_screen(px, py) implies pixel_of(b2, px, py) == pixel_of(b1, px, py) by {
        lemma_with_pixel_reads(buf, x, y, val, px, py);
        lemma_with_pixel_reads(b1, x, y, val, px, py);
    }
    lemma_same_pixels_same_bytes(b2, b1);
}

/// The 128x64 frame buffer.
pub struct BufCanvas(pub [u8; 1024]);

impl BufCanvas {
    /// A frame buffer with every pixel off.
    pub fn new() -> (c: Self)
        ensures
            forall|i: int| 0 <= i < 1024 ==> c.0@[i] == 0u8,
    {
        BufCanvas([0u8; 1024])
    }

    /// Turns every pixel off.
    pub fn clear(&mut self)
        ensures
            forall|i: int| 0 <= i < 1024 ==> final(self).0@[i] == 0u8,
    {
        self.0 = [0u8; 1024];
    }

    /// Reads pixel `(x, y)`; off-screen pixels read as off.
    pub fn pixel(&self, x: i32, y: i32) -> (on: bool)
        ensures
            on == (on_screen(x as int, y as int) && pixel_of(self.0@, x as int, y as int)),
    {
        if x < 0 || x >= 128 || y < 0 || y >= 64 {
            return false;
        }
        let idx = (y as usize / 8) * 128 + x as usize;
        let bit = (y % 8) as u8;
        (self.0[idx] >> bit) & 1u8 == 1u8
    }

    /// Inverts every pixel of the rectangle with top-left corner `(x, y)`,
    /// width `w` and height `h` whose corners are rounded with radius
    /// `min(r, w / 2, h / 2)`; the part off the screen is clipped. The far
    /// edges `x + w` and `y + h` (with `w` and `h` read as `i32`) must not
    /// overflow.
    pub fn invert_rect(&mut self, x: i32, y: i32, w: u32, h: u32, r: u32)
        requires
            w <= i32::MAX ==> x + w <= i32::MAX,
            w > i32::MAX ==> x + w - 0x1_0000_0000 >= i32::MIN,
            h <= i32::MAX ==> y + h <= i32::MAX,
            h > i32::MAX ==> y + h - 0x1_0000_0000 >= i32::MIN,
        ensures
            inverted_by(old(self).0@, final(self).0@, x as int, y as int, w as int, h as int, r as int),
    {
        if w > 0x7fff_ffff || h > 0x7fff_ffff {
            proof {
                assert forall|px: int, py: int| #![trigger pixel_of(self.0@, px, py)]
                    on_screen(px, py) implies pixel_of(self.0@, px, py) == (pixel_of(old(self).0@, px, py)
                        != in_rounded_rect(px, py, x as int, y as int, w as int, h as int, r as int)) by {}
            }
            return;
        }
        let x1: i32 = if x > 0 { x } else { 0 };
        let y1: i32 = if y > 0 { y } else { 0 };
        let xe: i64 = x as i64 + w as i64;
        let ye: i64 = y as i64 + h as i64;
        let x2: i32 = if xe < 128 { xe as i32 } else { 128 };
        let y2: i32 = if ye < 64 { ye as i32 } else { 64 };
        let half_w: u32 = w / 2;
        let half_h: u32 = h / 2;
        let ra: u32 = if r < half_w { r } else { half_w };
        let rr32: u32 = if ra < half_h { ra } else { half_h };
        let rr: i64 = rr32 as i64;
        let ghost old_buf = self.0@;
        let mut px: i32 = x1;
        while px < x2
            invariant
                0 <= x1 <= px,
                x2 <= 128,
                x1 < x2 ==> px <= x2,
                0 <= y1,
                y2 <= 64,
                x1 == (if x > 0 { x } else { 0 }),
                y1 == (if y > 0 { y } else { 0 }),
                x2 == (if x + w < 128 { x + w } else { 128 }),
                y2 == (if y + h < 64 { y + h } else { 64 }),
                rr == corner_radius(w as int, h as int, r as int),
                0 <= rr <= w / 2,
                rr <= h / 2,
                w <= i32::MAX,
                h <= i32::MAX,
                x + w <= i32::MAX,
                y + h <= i32::MAX,
                forall|qx: int, qy: int|
                    #![trigger pixel_of(self.0@, qx, qy)]
                    on_screen(qx, qy) ==> pixel_of(self.0@, qx, qy) == (pixel_of(old_buf, qx, qy)
                        != (in_rounded_rect(qx, qy, x as int, y as int, w as int, h as int, r as int) && qx < px)),
            decreases x2 - px,
        {
            let mut py: i32 = y1;
            while py < y2
                invariant
                    0 <= x1 <= px < x2 <= 128,
                    0 <= y1 <= py,
                    y1 < y2 ==> py <= y2,
                    y2 <= 64,
                    x1 == (if x > 0 { x } else { 0 }),
                    y1 == (if y > 0 { y } else { 0 }),
                    x2 == (if x + w < 128 { x + w } else { 128 }),
                    y2 == (if y + h < 64 { y + h } else { 64 }),
                    rr == corner_radius(w as int, h as int, r as int),
                    0 <= rr <= w / 2,
                    rr <= h / 2,
                    w <= i32::MAX,
                    h <= i32::MAX,
                    x + w <= i32::MAX,
                    y + h <= i32::MAX,
                    forall|qx: int, qy: int|
                        #![trigger pixel_of(self.0@, qx, qy)]
                        on_screen(qx, qy) ==> pixel_of(self.0@, qx, qy) == (pixel_of(
                            old_buf,
                            qx,
                            qy,
                        ) != (in_rounded_rect(qx, qy, x as int, y as int, w as int, h as int, r as int) && (qx < px || (qx == px && qy < py)))),
                decreases y2 - py,
            {
                let inside = rounded_rect_contains(px, py, x, y, w, h, rr);
                if inside {
                    let ghost prev = self.0@;
                    self.toggle_pixel(px, py);
                    proof {
                        assert forall|qx: int, qy: int| #![trigger pixel_of(self.0@, qx, qy)]
                            on_screen(qx, qy) implies pixel_of(self.0@, qx, qy) == (pixel_of(
                                old_buf,
                                qx,
                                qy,
                            ) != (in_rounded_rect(qx, qy, x as int, y as int, w as int, h as int, r as int) && (qx < px || (qx == px && qy < py + 1)))) by {
                            assert(pixel_of(prev, qx, qy) == (pixel_of(old_buf, qx, qy) != (in_rounded_rect(qx, qy, x as int, y as int, w as int, h as int, r as int) && (qx < px || (qx == px && qy < py)))));
                        }
                    }
                }
                py = py + 1;
            }
            px = px + 1;
        }
    }

    /// Inverts the on-screen pixel `(x, y)`.
    fn toggle_pixel(&mut self, x: i32, y: i32)
        requires
            on_screen(x as int, y as int),
        ensures
            forall|px: int, py: int|
                #![trigger pixel_of(final(self).0@, px, py)]
                on_screen(px, py) ==> pixel_of(final(self).0@, px, py) == if px == x && py == y {
                    !pixel_of(old(self).0@, px, py)
                } else {
                    pixel_of(old(self).0@, px, py)
                },
    {
        let idx = (y as usize / 8) * 128 + x as usize;
        let bit = (y % 8) as u8;
        let b = self.0[idx];
        self.0[idx] = b ^ (1u8 << bit);
        proof {
            assert forall|px: int, py: int| #![trigger pixel_of(self.0@, px, py)]
                on_screen(px, py) implies pixel_of(self.0@, px, py) == if px == x && py == y {
                    !pixel_of(old(self).0@, px, py)
                } else {
                    pixel_of(old(self).0@, px, py)
                } by {
                lemma_bit_ops(b, bit, (py % 8) as u8);
            }
        }
    }

    /// Sets pixel `(x, y)` to `val`; coordinates off the screen are ignored.
    pub fn set_pixel(&mut self, x: i32, y: i32, val: bool)
        ensures
            final(self).0@ == with_pixel(old(self).0@, x as int, y as int, val),
            forall|px: int, py: int|
                #![trigger pixel_of(final(self).0@, px, py)]
                on_screen(px, py) ==> pixel_of(final(self).0@, px, py) == if px == x && py == y {
                    val
                } else {
                    pixel_of(old(self).0@, px, py)
                },
    {
        if x < 0 || x >= 128 || y < 0 || y >= 64 {
            return;
        }
        let idx = (y as usize / 8) * 128 + x as usize;
        let bit = (y % 8) as u8;
        let b = self.0[idx];
        let nb = if val { b | (1u8 << bit) } else { b & !(1u8 << bit) };
        self.0[idx] = nb;
        proof {
            assert forall|px: int, py: int| #![trigger pixel_of(self.0@, px, py)]
                on_screen(px, py) implies pixel_of(self.0@, px, py) == if px == x && py == y {
                    val
                } else {
                    pixel_of(old(self).0@, px, py)
                } by {
                lemma_bit_ops(b, bit, (py % 8) as u8);
            }
        }
    }
}

} // verus!
