//! A linear framebuffer, and what can be drawn on one.
//!
//! The loader is asked for a graphics mode and reports what it produced: a
//! base address, a pitch, a size and a pixel format. There is no GPU driver
//! and no acceleration: every pixel is a store. The stores go to a back
//! buffer of the same shape, which is copied out to the base address.
//!
//! The contracts speak of pixels. [`Framebuffer::pixel`] is the word stored
//! for a pixel, [`stored`] the word a colour becomes and [`seen`] the colour a
//! word reads back as; [`painted`] says that a region of the surface, and
//! nothing else, has taken a colour.

use vstd::prelude::*;

verus! {

/// A colour, as the framebuffer wants it.
pub type Colour = u32;

/// A surface: where the loader put it, how it is laid out, and its contents.
pub struct Framebuffer {
    /// Where the loader put the surface; zero where there is none.
    pub base: u64,
    pub width: u32,
    pub height: u32,
    /// Bytes per scanline. Not always `width * bytes_per_pixel`: the loader
    /// may pad rows, and assuming it does not is how a display ends up
    /// sheared diagonally.
    pub pitch: u32,
    pub bytes_per_pixel: u32,
    /// The bytes of the surface, scanline by scanline.
    pub store: Vec<u8>,
}

/// The word a colour is stored as: itself at four bytes, its low three bytes
/// at three, and 5:6:5 at two.
pub open spec fn stored(colour: Colour, bytes_per_pixel: int) -> u32 {
    if bytes_per_pixel == 4 {
        colour
    } else if bytes_per_pixel == 3 {
        colour & 0x00FF_FFFF
    } else {
        ((colour >> 19 & 0x1F) << 11) | ((colour >> 10 & 0x3F) << 5) | (colour >> 3 & 0x1F)
    }
}

/// The colour a stored word reads back as.
pub open spec fn seen(word: u32, bytes_per_pixel: int) -> Colour {
    if bytes_per_pixel == 4 || bytes_per_pixel == 3 {
        word
    } else {
        ((word >> 11 & 0x1F) << 19) | ((word >> 5 & 0x3F) << 10) | ((word & 0x1F) << 3)
    }
}

/// The little-endian word of `count` bytes starting at `at`.
spec fn word_at(bytes: Seq<u8>, at: int, count: int) -> u32 {
    let low = bytes[at] as u32 + 256 * bytes[at + 1] as u32;
    (if count == 2 {
        low as int
    } else if count == 3 {
        low + 65536 * bytes[at + 2] as u32
    } else {
        low + 65536 * bytes[at + 2] as u32 + 16777216 * bytes[at + 3] as u32
    }) as u32
}

impl Framebuffer {
    /// Rows fit their pitch, the rows fit the memory, and every offset into
    /// it fits the arithmetic that computes it.
    pub open spec fn wf(self) -> bool {
        &&& self.width * self.bytes_per_pixel <= self.pitch
        &&& self.pitch * self.height <= self.store@.len()
        &&& self.pitch * self.height <= u32::MAX
    }

    /// A surface with a pixel format this can draw in.
    pub open spec fn drawable(self) -> bool {
        self.wf() && 2 <= self.bytes_per_pixel <= 4
    }

    /// Whether a pixel is on the surface.
    pub open spec fn on_surface(self, x: int, y: int) -> bool {
        0 <= x < self.width && 0 <= y < self.height
    }

    /// Where a pixel's bytes start.
    spec fn offset(self, x: int, y: int) -> int {
        y * self.pitch + x * self.bytes_per_pixel
    }

    /// The word stored for a pixel.
    pub closed spec fn pixel(self, x: int, y: int) -> u32 {
        word_at(self.store@, self.offset(x, y), self.bytes_per_pixel as int)
    }

    /// Whether a byte belongs to a pixel, rather than to a row's padding.
    pub closed spec fn in_a_pixel(self, i: int) -> bool {
        exists|x: int, y: int|
            self.on_surface(x, y) && #[trigger] self.offset(x, y) <= i < self.offset(x, y)
                + self.bytes_per_pixel
    }

    /// The same surface, whatever is on it.
    pub open spec fn same_surface(self, other: Framebuffer) -> bool {
        &&& self.base == other.base
        &&& self.width == other.width
        &&& self.height == other.height
        &&& self.pitch == other.pitch
        &&& self.bytes_per_pixel == other.bytes_per_pixel
        &&& self.store@.len() == other.store@.len()
    }

    /// The bytes that belong to no pixel are as they were.
    pub open spec fn same_padding(self, other: Framebuffer) -> bool {
        forall|i: int|
            0 <= i < self.store@.len() && !self.in_a_pixel(i) ==> #[trigger] self.store@[i]
                == other.store@[i]
    }

    /// Every pixel is as it was.
    pub open spec fn same_pixels(self, other: Framebuffer) -> bool {
        forall|x: int, y: int|
            self.on_surface(x, y) ==> #[trigger] self.pixel(x, y) == other.pixel(x, y)
    }
}

/// `after` is `before` with `region` painted in `colour` and nothing else
/// changed.
pub open spec fn painted(
    before: Framebuffer,
    after: Framebuffer,
    colour: Colour,
    region: spec_fn(int, int) -> bool,
) -> bool {
    &&& after.same_surface(before)
    &&& after.same_padding(before)
    &&& forall|x: int, y: int|
        after.on_surface(x, y) ==> #[trigger] after.pixel(x, y) == if region(x, y) {
            stored(colour, before.bytes_per_pixel as int)
        } else {
            before.pixel(x, y)
        }
}

/// Painting two regions one after the other paints their union.
pub proof fn painted_union(
    before: Framebuffer,
    between: Framebuffer,
    after: Framebuffer,
    colour: Colour,
    first: spec_fn(int, int) -> bool,
    second: spec_fn(int, int) -> bool,
)
    requires
        painted(before, between, colour, first),
        painted(between, after, colour, second),
    ensures
        painted(before, after, colour, |x: int, y: int| first(x, y) || second(x, y)),
{
    padding_carries(before, between, after);
}

/// Padding that two steps leave alone is left alone by both together.
pub proof fn padding_carries(before: Framebuffer, between: Framebuffer, after: Framebuffer)
    requires
        between.same_surface(before),
        after.same_surface(between),
        between.same_padding(before),
        after.same_padding(between),
    ensures
        after.same_padding(before),
{
    assert forall|i: int|
        0 <= i < after.store@.len() && !after.in_a_pixel(i) implies #[trigger] after.store@[i]
        == before.store@[i] by {
        same_surface_same_pixels(between, after, i);
        assert(after.store@[i] == between.store@[i]);
        assert(between.store@[i] == before.store@[i]);
    }
}

/// Which bytes belong to pixels is a matter of the surface, not of its
/// contents.
proof fn same_surface_same_pixels(a: Framebuffer, b: Framebuffer, i: int)
    requires
        a.same_surface(b),
    ensures
        a.in_a_pixel(i) == b.in_a_pixel(i),
{
    if a.in_a_pixel(i) {
        let (x, y) = choose|x: int, y: int|
            a.on_surface(x, y) && #[trigger] a.offset(x, y) <= i < a.offset(x, y)
                + a.bytes_per_pixel;
        assert(b.on_surface(x, y) && b.offset(x, y) <= i < b.offset(x, y) + b.bytes_per_pixel);
    }
    if b.in_a_pixel(i) {
        let (x, y) = choose|x: int, y: int|
            b.on_surface(x, y) && #[trigger] b.offset(x, y) <= i < b.offset(x, y)
                + b.bytes_per_pixel;
        assert(a.on_surface(x, y) && a.offset(x, y) <= i < a.offset(x, y) + a.bytes_per_pixel);
    }
}

/// A pixel's bytes lie inside the surface.
proof fn offset_in_bounds(fb: Framebuffer, x: int, y: int)
    requires
        fb.wf(),
        fb.on_surface(x, y),
    ensures
        0 <= fb.offset(x, y),
        fb.offset(x, y) + fb.bytes_per_pixel <= fb.pitch * fb.height,
        0 <= x * fb.bytes_per_pixel <= fb.pitch,
        0 <= y * fb.pitch <= fb.pitch * fb.height,
{
    let (w, h, p, b) = (
        fb.width as int,
        fb.height as int,
        fb.pitch as int,
        fb.bytes_per_pixel as int,
    );
    assert(0 <= y * p && y * p + p <= p * h) by (nonlinear_arith)
        requires
            0 <= y < h,
            0 <= p,
    ;
    assert(0 <= x * b && x * b + b <= w * b) by (nonlinear_arith)
        requires
            0 <= x < w,
            0 <= b,
    ;
}

/// Two pixels share no byte.
proof fn pixels_are_apart(fb: Framebuffer, x: int, y: int, u: int, v: int)
    requires
        fb.wf(),
        fb.on_surface(x, y),
        fb.on_surface(u, v),
        x != u || y != v,
    ensures
        fb.offset(x, y) + fb.bytes_per_pixel <= fb.offset(u, v) || fb.offset(u, v)
            + fb.bytes_per_pixel <= fb.offset(x, y),
{
    let (w, p, b) = (fb.width as int, fb.pitch as int, fb.bytes_per_pixel as int);
    assert(0 <= x * b && x * b + b <= w * b && 0 <= u * b && u * b + b <= w * b)
        by (nonlinear_arith)
        requires
            0 <= x < w,
            0 <= u < w,
            0 <= b,
    ;
    if y < v {
        assert(y * p + p <= v * p) by (nonlinear_arith)
            requires
                y + 1 <= v,
                0 <= p,
        ;
    } else if v < y {
        assert(v * p + p <= y * p) by (nonlinear_arith)
            requires
                v + 1 <= y,
                0 <= p,
        ;
    } else if x < u {
        assert(x * b + b <= u * b) by (nonlinear_arith)
            requires
                x + 1 <= u,
                0 <= b,
        ;
    } else {
        assert(u * b + b <= x * b) by (nonlinear_arith)
            requires
                u + 1 <= x,
                0 <= b,
        ;
    }
}

/// A word is its bytes.
proof fn word_of_bytes(c: u32)
    ensures
        c == (c as u8) as u32 + 256 * ((c >> 8) as u8) as u32 + 65536 * ((c >> 16) as u8) as u32
            + 16777216 * ((c >> 24) as u8) as u32,
        c & 0x00FF_FFFF == (c as u8) as u32 + 256 * ((c >> 8) as u8) as u32 + 65536 * ((c
            >> 16) as u8) as u32,
        c <= 0xFFFF ==> c == (c as u8) as u32 + 256 * ((c >> 8) as u8) as u32,
{
    assert(c == (c as u8) as u32 + 256 * ((c >> 8) as u8) as u32 + 65536 * ((c >> 16) as u8) as u32
        + 16777216 * ((c >> 24) as u8) as u32 && c & 0x00FF_FFFF == (c as u8) as u32 + 256 * ((c
        >> 8) as u8) as u32 + 65536 * ((c >> 16) as u8) as u32 && (c <= 0xFFFF ==> c == (
    c as u8) as u32 + 256 * ((c >> 8) as u8) as u32)) by (bit_vector);
}

/// What is read back of a colour that was written: all of it at four bytes,
/// its low three bytes at three, and the high bits of each channel at two.
pub proof fn what_a_write_leaves(colour: Colour, bytes_per_pixel: int)
    ensures
        bytes_per_pixel == 4 ==> seen(stored(colour, bytes_per_pixel), bytes_per_pixel) == colour,
        bytes_per_pixel == 3 ==> seen(stored(colour, bytes_per_pixel), bytes_per_pixel) == colour
            & 0x00FF_FFFF,
        bytes_per_pixel == 2 ==> seen(stored(colour, bytes_per_pixel), bytes_per_pixel) == colour
            & 0x00F8_FCF8,
{
    let p = ((colour >> 19 & 0x1F) << 11) | ((colour >> 10 & 0x3F) << 5) | (colour >> 3 & 0x1F);
    assert(((p >> 11 & 0x1F) << 19) | ((p >> 5 & 0x3F) << 10) | ((p & 0x1F) << 3) == colour
        & 0x00F8_FCF8) by (bit_vector)
        requires
            p == ((colour >> 19 & 0x1F) << 11) | ((colour >> 10 & 0x3F) << 5) | (colour >> 3
                & 0x1F),
    ;
}

/// Writing back what was read restores the word that was there, in every
/// format: the bits a read loses are bits the format never held.
pub proof fn writing_back_restores(word: u32, bytes_per_pixel: int)
    requires
        2 <= bytes_per_pixel <= 4,
        bytes_per_pixel == 2 ==> word <= 0xFFFF,
        bytes_per_pixel == 3 ==> word <= 0x00FF_FFFF,
    ensures
        stored(seen(word, bytes_per_pixel), bytes_per_pixel) == word,
{
    if bytes_per_pixel == 3 {
        assert(word <= 0x00FF_FFFF ==> word & 0x00FF_FFFF == word) by (bit_vector);
    } else if bytes_per_pixel == 2 {
        let c = ((word >> 11 & 0x1F) << 19) | ((word >> 5 & 0x3F) << 10) | ((word & 0x1F) << 3);
        assert(((c >> 19 & 0x1F) << 11) | ((c >> 10 & 0x3F) << 5) | (c >> 3 & 0x1F) == word)
            by (bit_vector)
            requires
                word <= 0xFFFF,
                c == ((word >> 11 & 0x1F) << 19) | ((word >> 5 & 0x3F) << 10) | ((word & 0x1F)
                    << 3),
        ;
    }
}

/// A stored pixel never has more bits than its format.
pub proof fn pixel_fits_its_format(fb: Framebuffer, x: int, y: int)
    ensures
        fb.bytes_per_pixel == 2 ==> fb.pixel(x, y) <= 0xFFFF,
        fb.bytes_per_pixel == 3 ==> fb.pixel(x, y) <= 0x00FF_FFFF,
{
}

impl Framebuffer {
    /// Wraps a surface the loader described, with the memory behind it.
    pub fn new(
        base: u64,
        memory: Vec<u8>,
        width: u32,
        height: u32,
        pitch: u32,
        bits_per_pixel: u8,
    ) -> (r: Framebuffer)
        requires
            pitch * height <= memory@.len(),
            pitch * height <= u32::MAX,
            width * ((bits_per_pixel + 7) / 8) <= pitch,
        ensures
            r.wf(),
            r.base == base,
            r.width == width,
            r.height == height,
            r.pitch == pitch,
            r.bytes_per_pixel == (bits_per_pixel + 7) / 8,
            r.store@ == memory@,
    {
        let bytes_per_pixel: u32 = (bits_per_pixel as u32 + 7) / 8;
        Framebuffer { base, width, height, pitch, bytes_per_pixel, store: memory }
    }

    /// Whether this describes a usable surface.
    pub open spec fn usable(self) -> bool {
        self.base != 0 && self.width > 0 && self.height > 0 && 2 <= self.bytes_per_pixel <= 4
    }

    pub fn is_usable(&self) -> (r: bool)
        ensures
            r == self.usable(),
            r && self.wf() ==> self.drawable(),
    {
        self.base != 0 && self.width > 0 && self.height > 0 && self.bytes_per_pixel >= 2
            && self.bytes_per_pixel <= 4
    }

    /// The bytes to copy out, in scanline order.
    pub fn bytes(&self) -> (r: &[u8])
        ensures
            r@ == self.store@,
    {
        self.store.as_slice()
    }

    /// Writes one pixel, ignoring anything outside the surface.
    pub fn set(&mut self, x: u32, y: u32, colour: Colour)
        requires
            old(self).drawable(),
        ensures
            final(self).drawable(),
            painted(*old(self), *final(self), colour, |u: int, v: int| u == x && v == y),
    {
        if x >= self.width || y >= self.height {
            return;
        }
        proof {
            offset_in_bounds(*self, x as int, y as int);
        }
        let offset: usize = (y * self.pitch + x * self.bytes_per_pixel) as usize;
        let ghost n = self.bytes_per_pixel as int;
        let word: u32 = if self.bytes_per_pixel == 4 {
            colour
        } else if self.bytes_per_pixel == 3 {
            colour & 0x00FF_FFFF
        } else {
            // 5:6:5, the only packed format worth supporting.
            let r: u32 = (colour >> 19) & 0x1F;
            let g: u32 = (colour >> 10) & 0x3F;
            let b: u32 = (colour >> 3) & 0x1F;
            (r << 11) | (g << 5) | b
        };
        proof {
            word_of_bytes(word);
            let p = ((colour >> 19 & 0x1F) << 11) | ((colour >> 10 & 0x3F) << 5) | (colour >> 3
                & 0x1F);
            assert(p <= 0xFFFF) by (bit_vector)
                requires
                    p == ((colour >> 19 & 0x1F) << 11) | ((colour >> 10 & 0x3F) << 5) | (colour >> 3
                        & 0x1F),
            ;
            assert(colour & 0x00FF_FFFF <= 0x00FF_FFFF && (colour & 0x00FF_FFFF) & 0x00FF_FFFF
                == colour & 0x00FF_FFFF) by (bit_vector);
        }
        self.store[offset] = #[verifier::truncate] (word as u8);
        self.store[offset + 1] = #[verifier::truncate] ((word >> 8) as u8);
        if self.bytes_per_pixel >= 3 {
            self.store[offset + 2] = #[verifier::truncate] ((word >> 16) as u8);
        }
        if self.bytes_per_pixel == 4 {
            self.store[offset + 3] = #[verifier::truncate] ((word >> 24) as u8);
        }
        proof {
            let before = *old(self);
            let after = *self;
            assert(after.offset(x as int, y as int) == offset);
            assert forall|u: int, v: int| after.on_surface(u, v) implies #[trigger] after.pixel(u, v)
                == (if u == x && v == y {
                stored(colour, n)
            } else {
                before.pixel(u, v)
            }) by {
                offset_in_bounds(before, u, v);
                if u != x || v != y {
                    pixels_are_apart(before, u, v, x as int, y as int);
                }
            }
            assert forall|i: int|
                0 <= i < after.store@.len() && !after.in_a_pixel(
                    i,
                ) implies #[trigger] after.store@[i] == before.store@[i] by {
                assert(after.on_surface(x as int, y as int));
                assert(!(after.offset(x as int, y as int) <= i < after.offset(x as int, y as int)
                    + after.bytes_per_pixel));
            }
        }
    }

    /// The colour of a pixel; nothing outside the surface.
    pub open spec fn colour_at(self, x: int, y: int) -> Colour {
        if self.on_surface(x, y) {
            seen(self.pixel(x, y), self.bytes_per_pixel as int)
        } else {
            0
        }
    }

    /// Reads one pixel back; nothing outside the surface.
    ///
    /// A framebuffer is readable memory, which is what lets a software cursor
    /// restore what it covered: there is no hardware overlay to put it on.
    pub fn get(&self, x: u32, y: u32) -> (r: Colour)
        requires
            self.drawable(),
        ensures
            r == self.colour_at(x as int, y as int),
    {
        if x >= self.width || y >= self.height {
            return 0;
        }
        proof {
            offset_in_bounds(*self, x as int, y as int);
        }
        let offset: usize = (y * self.pitch + x * self.bytes_per_pixel) as usize;
        let low: u32 = self.store[offset] as u32 + 256 * self.store[offset + 1] as u32;
        if self.bytes_per_pixel == 4 {
            low + 65536 * self.store[offset + 2] as u32 + 16777216 * self.store[offset + 3] as u32
        } else if self.bytes_per_pixel == 3 {
            low + 65536 * self.store[offset + 2] as u32
        } else {
            let r: u32 = (low >> 11) & 0x1F;
            let g: u32 = (low >> 5) & 0x3F;
            let b: u32 = low & 0x1F;
            (r << 19) | (g << 10) | (b << 3)
        }
    }

    /// Fills a rectangle; what lies outside the surface is ignored.
    pub fn fill(&mut self, x: u32, y: u32, w: u32, h: u32, colour: Colour)
        requires
            old(self).drawable(),
        ensures
            final(self).drawable(),
            painted(*old(self), *final(self), colour, rectangle(x as int, y as int, w as int, h as int)),
    {
        let bottom: u32 = lower(y.saturating_add(h), self.height);
        let right: u32 = lower(x.saturating_add(w), self.width);
        let mut row: u32 = y;
        while row < bottom
            invariant
                self.drawable(),
                bottom == lower_of(y + h, self.height as int),
                right == lower_of(x + w, self.width as int),
                y <= row,
                row <= bottom || row == y,
                painted(
                    *old(self),
                    *self,
                    colour,
                    |u: int, v: int| x <= u < x + w && y <= v < row && v < y + h,
                ),
            decreases bottom - row,
        {
            let mut col: u32 = x;
            while col < right
                invariant
                    self.drawable(),
                    bottom == lower_of(y + h, self.height as int),
                    right == lower_of(x + w, self.width as int),
                    y <= row < bottom,
                    x <= col,
                    col <= right || col == x,
                    painted(
                        *old(self),
                        *self,
                        colour,
                        |u: int, v: int|
                            x <= u < x + w && y <= v <= row && v < y + h && (v < row || u < col),
                    ),
                decreases right - col,
            {
                let ghost between = *self;
                self.set(col, row, colour);
                proof {
                    padding_carries(*old(self), between, *self);
                }
                col += 1;
            }
            row += 1;
        }
    }

    /// Fills the whole surface.
    pub fn clear(&mut self, colour: Colour)
        requires
            old(self).drawable(),
        ensures
            final(self).drawable(),
            painted(*old(self), *final(self), colour, |u: int, v: int| true),
    {
        self.fill(0, 0, self.width, self.height, colour);
    }

    /// Draws a one-pixel rectangle outline.
    pub fn outline(&mut self, x: u32, y: u32, w: u32, h: u32, colour: Colour)
        requires
            old(self).drawable(),
            w > 0 && h > 0 ==> x + w <= u32::MAX && y + h <= u32::MAX,
        ensures
            final(self).drawable(),
            painted(*old(self), *final(self), colour, frame(x as int, y as int, w as int, h as int)),
    {
        if w == 0 || h == 0 {
            return;
        }
        let ghost a = *self;
        self.fill(x, y, w, 1, colour);
        let ghost b = *self;
        self.fill(x, y + h - 1, w, 1, colour);
        let ghost c = *self;
        self.fill(x, y, 1, h, colour);
        let ghost d = *self;
        self.fill(x + w - 1, y, 1, h, colour);
        proof {
            padding_carries(a, b, c);
            padding_carries(a, c, d);
            padding_carries(a, d, *self);
        }
    }
}

/// A rectangle of pixels.
pub open spec fn rectangle(x: int, y: int, w: int, h: int) -> spec_fn(int, int) -> bool {
    |u: int, v: int| x <= u < x + w && y <= v < y + h
}

/// The edge of a rectangle: its pixels with a neighbour outside it.
pub open spec fn frame(x: int, y: int, w: int, h: int) -> spec_fn(int, int) -> bool {
    |u: int, v: int|
        x <= u < x + w && y <= v < y + h && (u == x || u == x + w - 1 || v == y || v == y + h - 1)
}

/// Whether a pixel is no further from a centre than a radius.
pub open spec fn in_disc(cx: int, cy: int, r: int, u: int, v: int) -> bool {
    (u - cx) * (u - cx) + (v - cy) * (v - cy) <= r * r
}

/// A disc of pixels.
pub open spec fn disc_region(cx: int, cy: int, r: int) -> spec_fn(int, int) -> bool {
    |u: int, v: int| in_disc(cx, cy, r, u, v)
}

/// The lower of two numbers.
pub open spec fn lower_of(a: int, b: int) -> int {
    if a < b {
        a
    } else {
        b
    }
}

/// The lower of two numbers.
pub fn lower(a: u32, b: u32) -> (r: u32)
    ensures
        r == lower_of(a as int, b as int),
{
    if a < b {
        a
    } else {
        b
    }
}

/// A filled circle.
pub fn disc(fb: &mut Framebuffer, cx: u32, cy: u32, r: u32, colour: Colour)
    requires
        old(fb).drawable(),
        r <= 32767,
        cx + r <= i32::MAX,
        cy + r <= i32::MAX,
    ensures
        final(fb).drawable(),
        painted(*old(fb), *final(fb), colour, disc_region(cx as int, cy as int, r as int)),
{
    let reach: i32 = r as i32;
    proof {
        disc_is_bounded(cx as int, cy as int, r as int);
    }
    let mut dy: i32 = -reach;
    while dy <= reach
        invariant
            fb.drawable(),
            reach == r <= 32767,
            cx + r <= i32::MAX,
            cy + r <= i32::MAX,
            -reach <= dy <= reach + 1,
            painted(
                *old(fb),
                *fb,
                colour,
                |u: int, v: int| in_disc(cx as int, cy as int, r as int, u, v) && v < cy + dy,
            ),
        decreases reach + 1 - dy,
    {
        proof {
            disc_is_bounded(cx as int, cy as int, r as int);
        }
        let mut dx: i32 = -reach;
        while dx <= reach
            invariant
                fb.drawable(),
                reach == r <= 32767,
                cx + r <= i32::MAX,
                cy + r <= i32::MAX,
                -reach <= dy <= reach,
                -reach <= dx <= reach + 1,
                painted(
                    *old(fb),
                    *fb,
                    colour,
                    |u: int, v: int|
                        in_disc(cx as int, cy as int, r as int, u, v) && (v < cy + dy || (v == cy
                            + dy && u < cx + dx)),
                ),
            decreases reach + 1 - dx,
        {
            proof {
                squares_fit(dx as int, dy as int, reach as int);
            }
            if dx * dx + dy * dy <= reach * reach {
                let x: i32 = cx as i32 + dx;
                let y: i32 = cy as i32 + dy;
                if x >= 0 && y >= 0 {
                    let ghost between = *fb;
                    fb.set(x as u32, y as u32, colour);
                    proof {
                        padding_carries(*old(fb), between, *fb);
                    }
                }
            }
            dx += 1;
        }
        dy += 1;
    }
}

/// A disc lies within its radius in both directions.
proof fn disc_is_bounded(cx: int, cy: int, r: int)
    requires
        0 <= r,
    ensures
        forall|u: int, v: int|
            #[trigger] in_disc(cx, cy, r, u, v) ==> cx - r <= u <= cx + r && cy - r <= v <= cy + r,
{
    assert forall|u: int, v: int| #[trigger] in_disc(cx, cy, r, u, v) implies cx - r <= u <= cx + r
        && cy - r <= v <= cy + r by {
        let (dx, dy) = (u - cx, v - cy);
        assert(-r <= dx <= r && -r <= dy <= r) by (nonlinear_arith)
            requires
                dx * dx + dy * dy <= r * r,
                0 <= r,
        ;
    }
}

/// Offsets within a radius have squares that fit.
proof fn squares_fit(dx: int, dy: int, r: int)
    requires
        -r <= dx <= r,
        -r <= dy <= r,
        0 <= r <= 32767,
    ensures
        0 <= dx * dx <= r * r,
        0 <= dy * dy <= r * r,
        0 <= r * r <= 1_073_676_289,
{
    assert(0 <= dx * dx <= r * r && 0 <= dy * dy <= r * r && 0 <= r * r <= 1_073_676_289)
        by (nonlinear_arith)
        requires
            -r <= dx <= r,
            -r <= dy <= r,
            0 <= r <= 32767,
    ;
}

/// A pixel's word is in its row, a pitch for each row above it and its own width
/// for each pixel before it, with the lowest byte first.
pub proof fn a_pixel_is_in_its_place(fb: Framebuffer, x: int, y: int)
    ensures
        ({
            let at = fb.pitch * y + fb.bytes_per_pixel * x;
            let word = fb.store@[at] + 256 * fb.store@[at + 1];
            &&& fb.bytes_per_pixel == 2 ==> fb.pixel(x, y) == word
            &&& fb.bytes_per_pixel == 3 ==> fb.pixel(x, y) == word + 65536 * fb.store@[at + 2]
            &&& fb.bytes_per_pixel == 4 ==> fb.pixel(x, y) == word + 65536 * fb.store@[at + 2]
                + 16777216 * fb.store@[at + 3]
        }),
{
    assert(y * fb.pitch == fb.pitch * y) by (nonlinear_arith);
    assert(x * fb.bytes_per_pixel == fb.bytes_per_pixel * x) by (nonlinear_arith);
}

/// In two bytes a colour keeps the top five bits of its red, the top six of its
/// green and the top five of its blue, red the highest; in three it keeps all of
/// the three, and in four all it has. What is read back has each where it was.
pub proof fn colours_keep_their_channels(colour: Colour, word: u32)
    ensures
        ({
            let (red, green, blue) = (colour / 65536 % 256, colour / 256 % 256, colour % 256);
            &&& stored(colour, 2) == red / 8 * 2048 + green / 4 * 32 + blue / 8
            &&& stored(colour, 3) == red * 65536 + green * 256 + blue
            &&& stored(colour, 4) == colour
        }),
        seen(word, 2) == word / 2048 % 32 * 8 * 65536 + word / 32 % 64 * 4 * 256 + word % 32 * 8,
        seen(word, 3) == word,
        seen(word, 4) == word,
{
    assert(((colour >> 19 & 0x1F) << 11) | ((colour >> 10 & 0x3F) << 5) | (colour >> 3 & 0x1F)
        == colour / 65536 % 256 / 8 * 2048 + colour / 256 % 256 / 4 * 32 + colour % 256 / 8)
        by (bit_vector);
    assert(colour & 0x00FF_FFFF == colour / 65536 % 256 * 65536 + colour / 256 % 256 * 256 + colour
        % 256) by (bit_vector);
    assert(((word >> 11 & 0x1F) << 19) | ((word >> 5 & 0x3F) << 10) | ((word & 0x1F) << 3) == word
        / 2048 % 32 * 8 * 65536 + word / 32 % 64 * 4 * 256 + word % 32 * 8) by (bit_vector);
}

/// A rectangle starts at its corner and ends where its width and height do; its
/// frame is what of it has a neighbour outside, so the frame and the rectangle
/// one pixel smaller on every side make it up and do not meet.
pub proof fn a_rectangle_is_its_frame_and_its_inside(
    x: int,
    y: int,
    w: int,
    h: int,
    u: int,
    v: int,
)
    ensures
        rectangle(x, y, w, h)(u, v) <==> 0 <= u - x < w && 0 <= v - y < h,
        rectangle(x, y, w, h)(u, v) <==> frame(x, y, w, h)(u, v) || rectangle(
            x + 1,
            y + 1,
            w - 2,
            h - 2,
        )(u, v),
        !(frame(x, y, w, h)(u, v) && rectangle(x + 1, y + 1, w - 2, h - 2)(u, v)),
{
}

/// A disc is what lies within its radius: its centre does and the four points
/// straight out at the radius do, nothing one further out does, and it is the
/// same mirrored either way.
pub proof fn a_disc_is_round(cx: int, cy: int, r: int, dx: int, dy: int)
    requires
        r >= 0,
    ensures
        disc_region(cx, cy, r)(cx, cy),
        disc_region(cx, cy, r)(cx + r, cy) && disc_region(cx, cy, r)(cx - r, cy),
        disc_region(cx, cy, r)(cx, cy + r) && disc_region(cx, cy, r)(cx, cy - r),
        !disc_region(cx, cy, r)(cx + r + 1, cy) && !disc_region(cx, cy, r)(cx, cy + r + 1),
        disc_region(cx, cy, r)(cx + dx, cy + dy) <==> dx * dx + dy * dy <= r * r,
        disc_region(cx, cy, r)(cx + dx, cy + dy) == disc_region(cx, cy, r)(cx - dx, cy + dy),
        disc_region(cx, cy, r)(cx + dx, cy + dy) == disc_region(cx, cy, r)(cx + dx, cy - dy),
{
    assert((-dx) * (-dx) == dx * dx && (-dy) * (-dy) == dy * dy) by (nonlinear_arith);
    assert((-r) * (-r) == r * r) by (nonlinear_arith);
    assert((r + 1) * (r + 1) > r * r && 0 <= r * r) by (nonlinear_arith)
        requires
            r >= 0,
    ;
    assert(cx - dx - cx == -dx && cy - dy - cy == -dy && cx - r - cx == -r && cy - r - cy == -r);
    assert(cx + dx - cx == dx && cy + dy - cy == dy && cx + r - cx == r && cy + r - cy == r);
    assert(cx + r + 1 - cx == r + 1 && cy + r + 1 - cy == r + 1);
    assert(0int * 0int == 0);
}

/// What is drawn at a point is read back there, in full at four bytes to a pixel,
/// without the top byte at three and without the low bits of its channels at two;
/// nothing else is touched, and outside the surface there is nothing to read.
pub proof fn what_is_drawn_is_read_back(
    before: Framebuffer,
    after: Framebuffer,
    colour: Colour,
    x: int,
    y: int,
    u: int,
    v: int,
)
    requires
        painted(before, after, colour, |u: int, v: int| u == x && v == y),
        before.drawable(),
    ensures
        after.on_surface(u, v) <==> 0 <= u < before.width && 0 <= v < before.height,
        !after.on_surface(u, v) ==> after.colour_at(u, v) == 0,
        !(u == x && v == y) ==> after.colour_at(u, v) == before.colour_at(u, v),
        after.on_surface(x, y) ==> {
            let (red, green, blue) = (colour / 65536 % 256, colour / 256 % 256, colour % 256);
            let read = after.colour_at(x, y);
            &&& before.bytes_per_pixel == 4 ==> read == colour
            &&& before.bytes_per_pixel == 3 ==> read == red * 65536 + green * 256 + blue
            &&& before.bytes_per_pixel == 2 ==> read == red / 8 * 8 * 65536 + green / 4 * 4 * 256
                + blue / 8 * 8
        },
        before.drawable() <==> before.wf() && (before.bytes_per_pixel == 2
            || before.bytes_per_pixel == 3 || before.bytes_per_pixel == 4),
        before.usable() <==> before.base != 0 && before.width != 0 && before.height != 0,
{
    let depth = before.bytes_per_pixel as int;
    colours_keep_their_channels(colour, stored(colour, depth));
    if depth == 2 {
        let (red, green, blue) = (colour / 65536 % 256, colour / 256 % 256, colour % 256);
        let word = stored(colour, 2);
        assert(word == red / 8 * 2048 + green / 4 * 32 + blue / 8);
        assert(word / 2048 % 32 == red / 8);
        assert(word / 32 % 64 == green / 4);
        assert(word % 32 == blue / 8);
    }
}

} // verus!
