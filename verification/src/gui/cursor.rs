//! The pointer's arrow, drawn in software.

use crate::framebuffer::{pixel_fits_its_format, padding_carries, seen, stored};
use crate::framebuffer::{writing_back_restores, Colour, Framebuffer};
use vstd::prelude::*;

verus! {

/// Cursor side, in pixels. Square and small: every move copies this many
/// pixels twice.
pub const CURSOR: u32 = 12;

/// Whether a cell of the square is part of the arrow: a triangle with its
/// right side cut.
pub open spec fn in_arrow(col: int, row: int) -> bool {
    0 <= col <= row && row < 12 - col / 2
}

/// Whether a cell of the arrow is its edge, one pixel wide, so it stays
/// visible over the accent as well as over the background.
pub open spec fn is_edge(col: int, row: int) -> bool {
    col == 0 || col == row || row + 1 >= 12 - col / 2
}

/// Whether a cell of the arrow comes before another, row by row.
pub open spec fn comes_before(col: int, row: int, to_col: int, to_row: int) -> bool {
    row < to_row || row == to_row && col < to_col
}

/// A software cursor: there is no hardware overlay, so the pixels under it are
/// saved and restored as it moves.
pub struct Cursor {
    pub x: i32,
    pub y: i32,
    /// Where it was when `under` was filled, which is not where it is now if
    /// it has been moved since.
    pub drawn_x: i32,
    pub drawn_y: i32,
    pub under: [Colour; 144],
    pub drawn: bool,
}

/// What a pixel shows once the first cells of an arrow at a point have been
/// drawn.
pub open spec fn arrow_pixel(
    before: Framebuffer,
    x: int,
    y: int,
    to_col: int,
    to_row: int,
    edge: Colour,
    face: Colour,
    u: int,
    v: int,
) -> u32 {
    let (col, row) = (u - x, v - y);
    if in_arrow(col, row) && comes_before(col, row, to_col, to_row) {
        stored(
            if is_edge(col, row) {
                edge
            } else {
                face
            },
            before.bytes_per_pixel as int,
        )
    } else {
        before.pixel(u, v)
    }
}

/// What is read of a pixel; nothing outside the surface.
pub open spec fn read_at(fb: Framebuffer, u: int, v: int) -> Colour {
    fb.colour_at(u, v)
}

impl Cursor {
    pub fn new() -> (r: Cursor)
        ensures
            r.x == 0 && r.y == 0 && r.drawn_x == 0 && r.drawn_y == 0 && !r.drawn,
            r.under@ == Seq::new(144, |i: int| 0u32),
    {
        Cursor { x: 0, y: 0, drawn_x: 0, drawn_y: 0, under: [0u32; 144], drawn: false }
    }

    pub fn move_to(&mut self, x: i32, y: i32)
        ensures
            *final(self) == (Cursor { x, y, ..*old(self) }),
    {
        self.x = x;
        self.y = y;
    }

    /// The cursor holds what was under each cell of its arrow on a surface.
    pub open spec fn holds(self, fb: Framebuffer) -> bool {
        &&& self.drawn
        &&& forall|col: int, row: int|
            #![trigger in_arrow(col, row)]
            in_arrow(col, row) ==> self.under@[row * 12 + col] == read_at(
                fb,
                self.drawn_x + col,
                self.drawn_y + row,
            )
    }

    /// Saves what is under the arrow, and draws it: its edge in one colour and
    /// its face in another.
    pub fn draw(&mut self, fb: &mut Framebuffer, edge: Colour, face: Colour)
        requires
            old(fb).drawable(),
            old(self).x >= 0,
            old(self).y >= 0,
        ensures
            final(fb).drawable(),
            final(fb).same_surface(*old(fb)),
            final(fb).same_padding(*old(fb)),
            forall|u: int, v: int|
                final(fb).on_surface(u, v) ==> #[trigger] final(fb).pixel(u, v) == arrow_pixel(
                    *old(fb),
                    old(self).x as int,
                    old(self).y as int,
                    0,
                    12,
                    edge,
                    face,
                    u,
                    v,
                ),
            final(self).holds(*old(fb)),
            *final(self) == (Cursor {
                drawn_x: old(self).x,
                drawn_y: old(self).y,
                under: final(self).under,
                drawn: true,
                ..*old(self)
            }),
    {
        self.drawn_x = self.x;
        self.drawn_y = self.y;
        let left: u32 = self.x as u32;
        let top: u32 = self.y as u32;
        let mut under: [Colour; 144] = [0u32; 144];
        let ghost before = *fb;
        let mut row: u32 = 0;
        while row < CURSOR
            invariant
                row <= 12,
                left <= i32::MAX,
                top <= i32::MAX,
                before == *old(fb),
                before.drawable(),
                fb.drawable(),
                fb.same_surface(before),
                fb.same_padding(before),
                forall|u: int, v: int|
                    fb.on_surface(u, v) ==> #[trigger] fb.pixel(u, v) == arrow_pixel(
                        before,
                        left as int,
                        top as int,
                        0,
                        row as int,
                        edge,
                        face,
                        u,
                        v,
                    ),
                forall|c: int, r: int|
                    #![trigger in_arrow(c, r)]
                    in_arrow(c, r) && comes_before(c, r, 0, row as int) ==> under@[r * 12 + c]
                        == read_at(before, left + c, top + r),
            decreases 12 - row,
        {
            let mut col: u32 = 0;
            while col < CURSOR
                invariant
                    row < 12,
                    col <= 12,
                    left <= i32::MAX,
                    top <= i32::MAX,
                    before == *old(fb),
                    before.drawable(),
                    fb.drawable(),
                    fb.same_surface(before),
                    fb.same_padding(before),
                    forall|u: int, v: int|
                        fb.on_surface(u, v) ==> #[trigger] fb.pixel(u, v) == arrow_pixel(
                            before,
                            left as int,
                            top as int,
                            col as int,
                            row as int,
                            edge,
                            face,
                            u,
                            v,
                        ),
                    forall|c: int, r: int|
                        #![trigger in_arrow(c, r)]
                        in_arrow(c, r) && comes_before(c, r, col as int, row as int)
                            ==> under@[r * 12 + c] == read_at(before, left + c, top + r),
                decreases 12 - col,
            {
                if col <= row && row < CURSOR - col / 2 {
                    let x: u32 = left + col;
                    let y: u32 = top + row;
                    let ghost between = *fb;
                    let saved: Colour = fb.get(x, y);
                    assert(saved == read_at(before, x as int, y as int));
                    under[(row * CURSOR + col) as usize] = saved;
                    let is_edge: bool = col == 0 || col == row || row + 1 >= CURSOR - col / 2;
                    let colour: Colour = if is_edge {
                        edge
                    } else {
                        face
                    };
                    fb.set(x, y, colour);
                    proof {
                        padding_carries(before, between, *fb);
                    }
                }
                col += 1;
            }
            row += 1;
        }
        self.under = under;
        self.drawn = true;
    }

    /// Puts back what was under the arrow, if it is drawn.
    pub fn erase(&mut self, fb: &mut Framebuffer)
        requires
            old(fb).drawable(),
            old(self).drawn ==> old(self).drawn_x >= 0 && old(self).drawn_y >= 0,
        ensures
            final(fb).drawable(),
            final(fb).same_surface(*old(fb)),
            final(fb).same_padding(*old(fb)),
            *final(self) == (Cursor { drawn: false, ..*old(self) }),
            !old(self).drawn ==> *final(fb) == *old(fb),
            old(self).drawn ==> forall|u: int, v: int|
                final(fb).on_surface(u, v) ==> #[trigger] final(fb).pixel(u, v) == old(
                    self,
                ).erased_pixel(*old(fb), 0, 12, u, v),
    {
        if !self.drawn {
            return;
        }
        let left: u32 = self.drawn_x as u32;
        let top: u32 = self.drawn_y as u32;
        let ghost before = *fb;
        let ghost held = *self;
        let mut row: u32 = 0;
        while row < CURSOR
            invariant
                row <= 12,
                *self == held,
                held.drawn_x == left <= i32::MAX,
                held.drawn_y == top <= i32::MAX,
                before == *old(fb),
                before.drawable(),
                fb.drawable(),
                fb.same_surface(before),
                fb.same_padding(before),
                forall|u: int, v: int|
                    fb.on_surface(u, v) ==> #[trigger] fb.pixel(u, v) == held.erased_pixel(
                        before,
                        0,
                        row as int,
                        u,
                        v,
                    ),
            decreases 12 - row,
        {
            let mut col: u32 = 0;
            while col < CURSOR
                invariant
                    row < 12,
                    col <= 12,
                    *self == held,
                    held.drawn_x == left <= i32::MAX,
                    held.drawn_y == top <= i32::MAX,
                    before == *old(fb),
                    before.drawable(),
                    fb.drawable(),
                    fb.same_surface(before),
                    fb.same_padding(before),
                    forall|u: int, v: int|
                        fb.on_surface(u, v) ==> #[trigger] fb.pixel(u, v) == held.erased_pixel(
                            before,
                            col as int,
                            row as int,
                            u,
                            v,
                        ),
                decreases 12 - col,
            {
                if col <= row && row < CURSOR - col / 2 {
                    let ghost between = *fb;
                    fb.set(left + col, top + row, self.under[(row * CURSOR + col) as usize]);
                    proof {
                        padding_carries(before, between, *fb);
                    }
                }
                col += 1;
            }
            row += 1;
        }
        self.drawn = false;
    }

    /// What a pixel shows once the first cells of the arrow have been put
    /// back.
    pub open spec fn erased_pixel(
        self,
        before: Framebuffer,
        to_col: int,
        to_row: int,
        u: int,
        v: int,
    ) -> u32 {
        let (col, row) = (u - self.drawn_x, v - self.drawn_y);
        if in_arrow(col, row) && comes_before(col, row, to_col, to_row) {
            stored(self.under@[row * 12 + col], before.bytes_per_pixel as int)
        } else {
            before.pixel(u, v)
        }
    }
}

/// Drawing the cursor and erasing it leaves every pixel as it was, in every
/// pixel format, wherever on the surface it is and however much of it hangs
/// over an edge.
pub proof fn a_cursor_leaves_no_trace(
    cursor: Cursor,
    clean: Framebuffer,
    with_cursor: Framebuffer,
    after: Framebuffer,
    edge: Colour,
    face: Colour,
)
    requires
        clean.drawable(),
        cursor.holds(clean),
        with_cursor.same_surface(clean),
        after.same_surface(with_cursor),
        forall|u: int, v: int|
            with_cursor.on_surface(u, v) ==> #[trigger] with_cursor.pixel(u, v) == arrow_pixel(
                clean,
                cursor.drawn_x as int,
                cursor.drawn_y as int,
                0,
                12,
                edge,
                face,
                u,
                v,
            ),
        forall|u: int, v: int|
            after.on_surface(u, v) ==> #[trigger] after.pixel(u, v) == cursor.erased_pixel(
                with_cursor,
                0,
                12,
                u,
                v,
            ),
    ensures
        after.same_pixels(clean),
{
    assert forall|u: int, v: int| after.on_surface(u, v) implies #[trigger] after.pixel(u, v)
        == clean.pixel(u, v) by {
        let (col, row) = (u - cursor.drawn_x, v - cursor.drawn_y);
        assert(with_cursor.on_surface(u, v) && clean.on_surface(u, v));
        let w = with_cursor.pixel(u, v);
        if in_arrow(col, row) {
            assert(cursor.under@[row * 12 + col] == read_at(clean, u, v));
            pixel_fits_its_format(clean, u, v);
            writing_back_restores(clean.pixel(u, v), clean.bytes_per_pixel as int);
        }
    }
}

/// The arrow's tip is at the pointer: it is straight down its left side, twelve
/// rows of it, goes out by a pixel a row, and is cut on the right by a row for
/// every two columns. Its outline is in one colour and what is inside in the
/// other; beside it nothing changes.
pub proof fn an_arrow_points_at_the_pointer(
    before: Framebuffer,
    x: int,
    y: int,
    edge: Colour,
    face: Colour,
    u: int,
    v: int,
)
    ensures
        ({
            let (col, row) = (u - x, v - y);
            let inside = 0 <= col && col <= row && 2 * row + col < 24 + col % 2;
            let outline = col == 0 || col == row || 2 * row + col + 2 >= 24 + col % 2;
            let depth = before.bytes_per_pixel as int;
            let shown = arrow_pixel(before, x, y, 0, 12, edge, face, u, v);
            &&& inside && outline ==> shown == stored(edge, depth)
            &&& inside && !outline ==> shown == stored(face, depth)
            &&& !inside ==> shown == before.pixel(u, v)
        }),
        in_arrow(0, 0) && in_arrow(0, 11) && !in_arrow(0, 12) && !in_arrow(1, 0),
{
}

} // verus!
