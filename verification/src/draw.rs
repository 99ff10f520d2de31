//! Text and widgets on a raw framebuffer.
//!
//! Everything is a loop over pixels: there is no renderer and no glyph cache.
//! The contracts say which pixels take which colour.

use crate::framebuffer::{frame, painted, padding_carries, rectangle};
use crate::framebuffer::{stored, Colour, Framebuffer};
use crate::text::utf8;
use vstd::prelude::*;

verus! {

/// The colours one screen uses.
#[derive(Debug, Clone, Copy)]
pub struct Palette {
    pub background: Colour,
    pub panel: Colour,
    pub title: Colour,
    pub text: Colour,
    pub muted: Colour,
    pub accent: Colour,
    pub button: Colour,
    pub button_edge: Colour,
}

/// The stop screen's colours: green, and deliberately not the blue every other
/// system uses for the same situation.
pub open spec fn stop_colours() -> Palette {
    Palette {
        background: 0x0011_3322,
        panel: 0x0017_4A33,
        title: 0x00D8_FFE8,
        text: 0x00E6_FFF0,
        muted: 0x0085_C79E,
        accent: 0x0046_E58C,
        button: 0x0020_6644,
        button_edge: 0x0046_E58C,
    }
}

/// The measurement interface's dark theme.
pub open spec fn app_colours() -> Palette {
    Palette {
        background: 0x000C_0F14,
        panel: 0x0014_1A22,
        title: 0x00E8_EEF5,
        text: 0x00D4_DCE6,
        muted: 0x0074_8397,
        accent: 0x0035_D6A0,
        button: 0x001C_2530,
        button_edge: 0x0035_D6A0,
    }
}

impl Palette {
    /// The stop screen's colours.
    pub fn stop() -> (r: Palette)
        ensures
            r == stop_colours(),
    {
        Palette {
            background: 0x0011_3322,
            panel: 0x0017_4A33,
            title: 0x00D8_FFE8,
            text: 0x00E6_FFF0,
            muted: 0x0085_C79E,
            accent: 0x0046_E58C,
            button: 0x0020_6644,
            button_edge: 0x0046_E58C,
        }
    }

    /// The measurement interface's dark theme.
    pub fn app() -> (r: Palette)
        ensures
            r == app_colours(),
    {
        Palette {
            background: 0x000C_0F14,
            panel: 0x0014_1A22,
            title: 0x00E8_EEF5,
            text: 0x00D4_DCE6,
            muted: 0x0074_8397,
            accent: 0x0035_D6A0,
            button: 0x001C_2530,
            button_edge: 0x0035_D6A0,
        }
    }
}

/// How many pixels wide a glyph is.
pub const GLYPH_WIDTH: u32 = 8;

/// A bitmap font: 128 glyphs of eight pixels across, a byte per row with the
/// leftmost pixel in the high bit.
pub struct Font {
    /// Rows per glyph.
    pub height: u32,
    /// The rows of every glyph, glyph by glyph.
    pub rows: Vec<u8>,
}

impl Font {
    /// Every glyph is there, and a glyph is a glyph rather than a poster.
    pub open spec fn wf(self) -> bool {
        self.height <= 64 && self.rows@.len() == 128 * self.height
    }

    /// Whether it is such a font.
    pub fn is_whole(&self) -> (r: bool)
        ensures
            r == self.wf(),
    {
        self.height <= 64 && self.rows.len() == 128 * self.height as usize
    }

    /// Whether a glyph's pixel is lit. A byte that is not ASCII shows as a
    /// question mark.
    pub open spec fn lit(self, byte: u8, row: int, col: int) -> bool {
        let shown = if byte < 128 { byte } else { 63u8 };
        self.rows@[shown * self.height + row] & (0x80u8 >> (col as u8)) != 0
    }
}

/// Where the glyph of the `k`th byte starts: eight pixels and a gap each.
pub open spec fn pen(x: int, scale: int, k: int) -> int {
    x + k * (9 * scale)
}

/// Whether the `k`th glyph is drawn: the first always, the others while the
/// pen is still on a surface of this width.
pub open spec fn is_drawn(x: int, scale: int, width: int, k: int) -> bool {
    k == 0 || pen(x, scale, k) < width
}

/// Whether a pixel lies in the square of one lit glyph pixel.
pub open spec fn in_cell(
    font: Font,
    byte: u8,
    left: int,
    top: int,
    scale: int,
    row: int,
    col: int,
    u: int,
    v: int,
) -> bool {
    &&& font.lit(byte, row, col)
    &&& left + col * scale <= u < left + col * scale + scale
    &&& top + row * scale <= v < top + row * scale + scale
}

/// Whether a pixel lies in one of the lit squares of a glyph, up to a row and
/// a column of that row.
pub open spec fn in_glyph(
    font: Font,
    byte: u8,
    left: int,
    top: int,
    scale: int,
    rows: int,
    cols: int,
    u: int,
    v: int,
) -> bool {
    exists|row: int, col: int|
        0 <= row <= rows && 0 <= col < 8 && row < font.height && (row < rows || col < cols)
            && #[trigger] in_cell(font, byte, left, top, scale, row, col, u, v)
}

/// Whether a pixel is lit by one of the first `count` glyphs of a line of
/// text.
pub open spec fn in_text(
    font: Font,
    bytes: Seq<u8>,
    x: int,
    y: int,
    scale: int,
    width: int,
    count: int,
    u: int,
    v: int,
) -> bool {
    exists|k: int|
        0 <= k < count && is_drawn(x, scale, width, k) && #[trigger] in_glyph(
            font,
            bytes[k],
            pen(x, scale, k),
            y,
            scale,
            font.height as int,
            0,
            u,
            v,
        )
}

/// The pixels a line of text lights.
pub open spec fn text_region(
    font: Font,
    bytes: Seq<u8>,
    x: int,
    y: int,
    scale: int,
    width: int,
) -> spec_fn(int, int) -> bool {
    |u: int, v: int| in_text(font, bytes, x, y, scale, width, bytes.len() as int, u, v)
}

/// Whether a line of text can be drawn without the pen leaving the numbers it
/// is kept in.
pub open spec fn text_fits(font: Font, count: nat, x: int, y: int, scale: int, width: int) -> bool {
    count > 0 ==> {
        &&& x + 9 * scale <= u32::MAX
        &&& width + 9 * scale <= u32::MAX
        &&& y + font.height * scale <= u32::MAX
    }
}

/// Draws one glyph.
fn glyph(fb: &mut Framebuffer, font: &Font, left: u32, top: u32, byte: u8, colour: Colour, scale: u32)
    requires
        old(fb).drawable(),
        font.wf(),
        left + 9 * scale <= u32::MAX,
        top + font.height * scale <= u32::MAX,
    ensures
        final(fb).drawable(),
        painted(
            *old(fb),
            *final(fb),
            colour,
            |u: int, v: int|
                in_glyph(
                    *font,
                    byte,
                    left as int,
                    top as int,
                    scale as int,
                    font.height as int,
                    0,
                    u,
                    v,
                ),
        ),
{
    let shown: u8 = if byte < 128 {
        byte
    } else {
        63
    };
    let mut row: u32 = 0;
    while row < font.height
        invariant
            fb.drawable(),
            font.wf(),
            row <= font.height,
            left + 9 * scale <= u32::MAX,
            top + font.height * scale <= u32::MAX,
            shown == if byte < 128 { byte } else { 63u8 },
            painted(
                *old(fb),
                *fb,
                colour,
                |u: int, v: int|
                    in_glyph(*font, byte, left as int, top as int, scale as int, row as int, 0, u, v),
            ),
        decreases font.height - row,
    {
        proof {
            assert(row * scale + scale <= font.height * scale) by (nonlinear_arith)
                requires
                    row + 1 <= font.height,
                    0 <= scale,
            ;
            assert(0 <= row * scale) by (nonlinear_arith)
                requires
                    0 <= row,
                    0 <= scale,
            ;
            assert(shown * font.height + font.height <= 128 * font.height && 0 <= shown
                * font.height) by (nonlinear_arith)
                requires
                    shown + 1 <= 128,
                    0 <= font.height,
            ;
        }
        let at: usize = (shown as u32 * font.height + row) as usize;
        let bits: u8 = font.rows[at];
        let mut col: u32 = 0;
        while col < GLYPH_WIDTH
            invariant
                fb.drawable(),
                font.wf(),
                row < font.height,
                col <= 8,
                left + 9 * scale <= u32::MAX,
                top + font.height * scale <= u32::MAX,
                top + row * scale <= u32::MAX,
                0 <= row * scale,
                shown == if byte < 128 { byte } else { 63u8 },
                bits == font.rows@[shown * font.height + row],
                painted(
                    *old(fb),
                    *fb,
                    colour,
                    |u: int, v: int|
                        in_glyph(
                            *font,
                            byte,
                            left as int,
                            top as int,
                            scale as int,
                            row as int,
                            col as int,
                            u,
                            v,
                        ),
                ),
            decreases 8 - col,
        {
            let ghost between = *fb;
            let ghost lit = font.lit(byte, row as int, col as int);
            if bits & (0x80u8 >> (col as u8)) != 0 {
                proof {
                    assert(col * scale <= 8 * scale && 0 <= col * scale) by (nonlinear_arith)
                        requires
                            0 <= col <= 8,
                            0 <= scale,
                    ;
                }
                fb.fill(left + col * scale, top + row * scale, scale, scale, colour);
                proof {
                    padding_carries(*old(fb), between, *fb);
                }
            }
            proof {
                glyph_grows(
                    *font,
                    byte,
                    left as int,
                    top as int,
                    scale as int,
                    row as int,
                    col as int,
                );
            }
            col += 1;
        }
        proof {
            glyph_row_ends(*font, byte, left as int, top as int, scale as int, row as int);
        }
        row += 1;
    }
}

/// One more column of a glyph is one more square.
proof fn glyph_grows(
    font: Font,
    byte: u8,
    left: int,
    top: int,
    scale: int,
    row: int,
    col: int,
)
    requires
        0 <= row < font.height,
        0 <= col < 8,
    ensures
        forall|u: int, v: int|
            #[trigger] in_glyph(font, byte, left, top, scale, row, col + 1, u, v) == (in_glyph(
                font,
                byte,
                left,
                top,
                scale,
                row,
                col,
                u,
                v,
            ) || in_cell(font, byte, left, top, scale, row, col, u, v)),
{
    assert forall|u: int, v: int|
        #[trigger] in_glyph(font, byte, left, top, scale, row, col + 1, u, v) == (in_glyph(
            font,
            byte,
            left,
            top,
            scale,
            row,
            col,
            u,
            v,
        ) || in_cell(font, byte, left, top, scale, row, col, u, v)) by {
        if in_glyph(font, byte, left, top, scale, row, col + 1, u, v) {
            let (r, c) = choose|r: int, c: int|
                0 <= r <= row && 0 <= c < 8 && r < font.height && (r < row || c < col + 1)
                    && #[trigger] in_cell(font, byte, left, top, scale, r, c, u, v);
            assert(in_cell(font, byte, left, top, scale, r, c, u, v));
        }
    }
}

/// Eight columns are a row.
proof fn glyph_row_ends(font: Font, byte: u8, left: int, top: int, scale: int, row: int)
    requires
        0 <= row < font.height,
    ensures
        forall|u: int, v: int|
            #[trigger] in_glyph(font, byte, left, top, scale, row + 1, 0, u, v) == in_glyph(
                font,
                byte,
                left,
                top,
                scale,
                row,
                8,
                u,
                v,
            ),
{
    assert forall|u: int, v: int|
        #[trigger] in_glyph(font, byte, left, top, scale, row + 1, 0, u, v) == in_glyph(
            font,
            byte,
            left,
            top,
            scale,
            row,
            8,
            u,
            v,
        ) by {
        if in_glyph(font, byte, left, top, scale, row + 1, 0, u, v) {
            let (r, c) = choose|r: int, c: int|
                0 <= r <= row + 1 && 0 <= c < 8 && r < font.height && (r < row + 1 || c < 0)
                    && #[trigger] in_cell(font, byte, left, top, scale, r, c, u, v);
            assert(in_cell(font, byte, left, top, scale, r, c, u, v));
        }
        if in_glyph(font, byte, left, top, scale, row, 8, u, v) {
            let (r, c) = choose|r: int, c: int|
                0 <= r <= row && 0 <= c < 8 && r < font.height && (r < row || c < 8)
                    && #[trigger] in_cell(font, byte, left, top, scale, r, c, u, v);
            assert(in_cell(font, byte, left, top, scale, r, c, u, v));
        }
    }
}

/// Draws one line of text, `scale` pixels per font pixel.
///
/// A byte that is not ASCII is rendered as the replacement glyph rather than
/// skipped, so a mangled string is visible rather than silently shortened.
pub fn text(fb: &mut Framebuffer, font: &Font, x: u32, y: u32, s: &str, colour: Colour, scale: u32)
    requires
        old(fb).drawable(),
        font.wf(),
        text_fits(*font, utf8(s).len(), x as int, y as int, scale as int, old(fb).width as int),
    ensures
        final(fb).drawable(),
        painted(
            *old(fb),
            *final(fb),
            colour,
            text_region(*font, utf8(s), x as int, y as int, scale as int, old(fb).width as int),
        ),
{
    let bytes: &[u8] = s.as_bytes();
    let width: u32 = fb.width;
    let mut cursor: u32 = x;
    let mut k: usize = 0;
    proof {
        assert(0 * (9 * scale) == 0);
    }
    while k < bytes.len()
        invariant
            fb.drawable(),
            font.wf(),
            bytes@ == utf8(s),
            width == old(fb).width,
            fb.width == old(fb).width,
            k <= bytes@.len(),
            text_fits(*font, bytes@.len(), x as int, y as int, scale as int, width as int),
            cursor == pen(x as int, scale as int, k as int),
            k == 0 && cursor == x || cursor < width,
            painted(
                *old(fb),
                *fb,
                colour,
                |u: int, v: int|
                    in_text(
                        *font,
                        bytes@,
                        x as int,
                        y as int,
                        scale as int,
                        width as int,
                        k as int,
                        u,
                        v,
                    ),
            ),
        decreases bytes@.len() - k,
    {
        let ghost between = *fb;
        glyph(fb, font, cursor, y, bytes[k], colour, scale);
        proof {
            padding_carries(*old(fb), between, *fb);
            text_grows(*font, bytes@, x as int, y as int, scale as int, width as int, k as int);
            assert((k + 1) * (9 * scale) == k * (9 * scale) + 9 * scale) by (nonlinear_arith);
        }
        cursor = cursor + (GLYPH_WIDTH + 1) * scale;
        k += 1;
        if cursor >= width {
            proof {
                text_is_cut(*font, bytes@, x as int, y as int, scale as int, width as int, k as int);
            }
            return;
        }
    }
}

/// One more drawn glyph lights its own pixels and no others.
proof fn text_grows(font: Font, bytes: Seq<u8>, x: int, y: int, scale: int, width: int, k: int)
    requires
        0 <= k < bytes.len(),
        is_drawn(x, scale, width, k),
    ensures
        forall|u: int, v: int|
            #[trigger] in_text(font, bytes, x, y, scale, width, k + 1, u, v) == (in_text(
                font,
                bytes,
                x,
                y,
                scale,
                width,
                k,
                u,
                v,
            ) || in_glyph(
                font,
                bytes[k],
                pen(x, scale, k),
                y,
                scale,
                font.height as int,
                0,
                u,
                v,
            )),
{
}

/// Once the pen has left the surface, no later glyph is drawn.
proof fn text_is_cut(font: Font, bytes: Seq<u8>, x: int, y: int, scale: int, width: int, k: int)
    requires
        0 < k <= bytes.len(),
        pen(x, scale, k) >= width,
        scale >= 0,
    ensures
        forall|u: int, v: int|
            #[trigger] in_text(font, bytes, x, y, scale, width, bytes.len() as int, u, v)
                == in_text(font, bytes, x, y, scale, width, k, u, v),
{
    assert forall|j: int| j >= k implies !is_drawn(x, scale, width, j) by {
        assert(j * (9 * scale) >= k * (9 * scale)) by (nonlinear_arith)
            requires
                j >= k,
                scale >= 0,
        ;
    }
}

/// Where a label of `count` bytes starts in a button: centred, eighteen pixels
/// to a glyph.
pub open spec fn label_left(x: int, w: int, count: int) -> int {
    x + (if w > count * 18 {
        w - count * 18
    } else {
        0
    }) / 2
}

/// The row a button's label starts on: centred too.
pub open spec fn label_top(font: Font, y: int, h: int) -> int {
    y + (if h > font.height * 2 {
        h - font.height * 2
    } else {
        0
    }) / 2
}

/// What a pixel shows once a button has been drawn over it: the label above
/// the edge, the edge above the face, and what was there outside.
pub open spec fn button_pixel(
    before: Framebuffer,
    font: Font,
    x: int,
    y: int,
    w: int,
    h: int,
    label: Seq<u8>,
    p: Palette,
    u: int,
    v: int,
) -> u32 {
    let depth = before.bytes_per_pixel as int;
    let left = label_left(x, w, label.len() as int);
    let top = label_top(font, y, h);
    if text_region(font, label, left, top, 2, before.width as int)(u, v) {
        stored(p.title, depth)
    } else if frame(x, y, w, h)(u, v) {
        stored(p.button_edge, depth)
    } else if rectangle(x, y, w, h)(u, v) {
        stored(p.button, depth)
    } else {
        before.pixel(u, v)
    }
}

/// Draws a labelled button.
pub fn button(
    fb: &mut Framebuffer,
    font: &Font,
    x: u32,
    y: u32,
    w: u32,
    h: u32,
    label: &str,
    p: &Palette,
)
    requires
        old(fb).drawable(),
        font.wf(),
        x + w <= u32::MAX,
        y + h <= u32::MAX,
        utf8(label).len() * 18 <= u32::MAX,
        text_fits(
            *font,
            utf8(label).len(),
            label_left(x as int, w as int, utf8(label).len() as int),
            label_top(*font, y as int, h as int),
            2,
            old(fb).width as int,
        ),
    ensures
        final(fb).drawable(),
        final(fb).same_surface(*old(fb)),
        final(fb).same_padding(*old(fb)),
        forall|u: int, v: int|
            final(fb).on_surface(u, v) ==> #[trigger] final(fb).pixel(u, v) == button_pixel(
                *old(fb),
                *font,
                x as int,
                y as int,
                w as int,
                h as int,
                utf8(label),
                *p,
                u,
                v,
            ),
{
    let ghost a = *fb;
    fb.fill(x, y, w, h, p.button);
    let ghost b = *fb;
    fb.outline(x, y, w, h, p.button_edge);
    let ghost c = *fb;
    // The glyph advance is nine pixels at scale one.
    let text_w: u32 = label.as_bytes().len() as u32 * 18;
    let text_x: u32 = x + w.saturating_sub(text_w) / 2;
    let text_y: u32 = y + h.saturating_sub(font.height * 2) / 2;
    text(fb, font, text_x, text_y, label, p.title, 2);
    proof {
        padding_carries(a, b, c);
        padding_carries(a, c, *fb);
    }
}

/// Unicode white space.
pub open spec fn is_white(c: char) -> bool {
    ||| '\u{9}' <= c <= '\u{d}'
    ||| c == ' '
    ||| c == '\u{85}'
    ||| c == '\u{a0}'
    ||| c == '\u{1680}'
    ||| '\u{2000}' <= c <= '\u{200a}'
    ||| c == '\u{2028}'
    ||| c == '\u{2029}'
    ||| c == '\u{202f}'
    ||| c == '\u{205f}'
    ||| c == '\u{3000}'
}

/// `s` without the white space at its end.
pub open spec fn trimmed(s: Seq<char>) -> Seq<char>
    decreases s.len(),
{
    if s.len() > 0 && is_white(s.last()) {
        trimmed(s.drop_last())
    } else {
        s
    }
}

/// Where a line of at most `columns` characters ends: after the last space
/// within them, or after `columns` where no space is.
pub open spec fn line_end(s: Seq<char>, columns: int) -> int {
    last_space(s, columns, columns)
}

/// The end of the last space before `from`, or `otherwise` where there is
/// none.
pub open spec fn last_space(s: Seq<char>, from: int, otherwise: int) -> int
    decreases from,
{
    if from <= 0 {
        otherwise
    } else if s[from - 1] == ' ' {
        from
    } else {
        last_space(s, from - 1, otherwise)
    }
}

/// The pieces `s` is cut into: each as long as a line may be, all of `s` in
/// order.
pub open spec fn pieces(s: Seq<char>, columns: int) -> Seq<Seq<char>>
    decreases s.len(),
{
    if s.len() == 0 || columns <= 0 {
        seq![]
    } else if s.len() <= columns {
        seq![s]
    } else {
        let end = line_end(s, columns);
        if 0 < end <= s.len() {
            seq![s.take(end)] + pieces(s.skip(end), columns)
        } else {
            seq![]
        }
    }
}

/// The lines `s` is wrapped into: its pieces, without the white space that a
/// break leaves at the end of all but the last.
pub open spec fn lines(s: Seq<char>, columns: int) -> Seq<Seq<char>> {
    let cut = pieces(s, columns);
    Seq::new(
        cut.len(),
        |i: int|
            if i + 1 < cut.len() {
                trimmed(cut[i])
            } else {
                cut[i]
            },
    )
}

/// A space found is a space, with none after it; and one is found if there is
/// one.
proof fn last_space_is_last(s: Seq<char>, from: int, otherwise: int)
    requires
        0 <= from <= s.len(),
        from <= otherwise,
    ensures
        ({
            let end = last_space(s, from, otherwise);
            ||| end == otherwise && forall|i: int| 0 <= i < from ==> s[i] != ' '
            ||| 0 < end <= from && s[end - 1] == ' ' && forall|i: int|
                end <= i < from ==> s[i] != ' '
        }),
    decreases from,
{
    if from > 0 && s[from - 1] != ' ' {
        last_space_is_last(s, from - 1, otherwise);
    }
}

/// Trimming shortens, and only from the end.
pub proof fn trimmed_is_a_prefix(s: Seq<char>)
    ensures
        trimmed(s).len() <= s.len(),
        trimmed(s) == s.take(trimmed(s).len() as int),
        trimmed(s).len() > 0 ==> !is_white(trimmed(s).last()),
        forall|i: int| trimmed(s).len() <= i < s.len() ==> is_white(s[i]),
    decreases s.len(),
{
    if s.len() > 0 && is_white(s.last()) {
        trimmed_is_a_prefix(s.drop_last());
        assert(trimmed(s) =~= s.take(trimmed(s).len() as int));
    } else {
        assert(s =~= s.take(s.len() as int));
    }
}

/// Wrapping loses nothing: the pieces are the text, end to end, and none is
/// empty or longer than a line.
pub proof fn pieces_make_the_text(s: Seq<char>, columns: int)
    requires
        columns > 0,
    ensures
        pieces(s, columns).flatten() == s,
        forall|i: int|
            0 <= i < pieces(s, columns).len() ==> 0 < (#[trigger] pieces(s, columns)[i]).len()
                <= columns,
    decreases s.len(),
{
    let cut = pieces(s, columns);
    if s.len() == 0 {
        assert(cut.flatten() =~= s);
    } else if s.len() <= columns {
        seq![s].lemma_flatten_one_element();
        assert(cut == seq![s]);
    } else {
        let end = line_end(s, columns);
        last_space_is_last(s, columns, columns);
        let rest = pieces(s.skip(end), columns);
        pieces_make_the_text(s.skip(end), columns);
        assert(cut.drop_first() =~= rest);
        assert(cut.first() == s.take(end));
        assert(cut.flatten() == s.take(end) + rest.flatten());
        assert(s.take(end) + s.skip(end) =~= s);
        assert forall|i: int| 0 <= i < cut.len() implies 0 < (#[trigger] cut[i]).len() <= columns by {
            if i > 0 {
                assert(cut[i] == rest[i - 1]);
            }
        }
    }
}

/// No line is longer than it may be, and what wrapping drops of a piece is
/// white space at its end.
pub proof fn lines_fit(s: Seq<char>, columns: int, i: int)
    requires
        columns > 0,
        0 <= i < lines(s, columns).len(),
    ensures
        lines(s, columns)[i].len() <= columns,
        lines(s, columns)[i].is_prefix_of(pieces(s, columns)[i]),
        forall|j: int|
            lines(s, columns)[i].len() <= j < pieces(s, columns)[i].len() ==> is_white(
                pieces(s, columns)[i][j],
            ),
{
    pieces_make_the_text(s, columns);
    trimmed_is_a_prefix(pieces(s, columns)[i]);
}

/// Splits `s` into lines of at most `columns` characters, at spaces where
/// there are any.
pub fn wrap(s: &str, columns: usize) -> (r: Vec<&str>)
    requires
        columns > 0,
    ensures
        r@.len() == lines(s@, columns as int).len(),
        forall|i: int| 0 <= i < r@.len() ==> (#[trigger] r@[i])@ == lines(s@, columns as int)[i],
{
    let total: usize = s.unicode_len();
    let mut out: Vec<&str> = Vec::new();
    let mut start: usize = 0;
    let ghost all = pieces(s@, columns as int);
    proof {
        assert(s@.skip(0) =~= s@);
        assert(all.skip(0) =~= all);
    }
    while total - start > columns
        invariant
            columns > 0,
            start <= total == s@.len(),
            all == pieces(s@, columns as int),
            out@.len() <= all.len(),
            pieces(s@.skip(start as int), columns as int) == all.skip(out@.len() as int),
            out@.len() == 0 || out@.len() < all.len(),
            forall|i: int| 0 <= i < out@.len() ==> (#[trigger] out@[i])@ == trimmed(all[i]),
        decreases total - start,
    {
        let ghost rest = s@.skip(start as int);
        // Break at the last space inside the budget; if the word is longer
        // than a line, break it rather than overflow.
        let mut end: usize = columns;
        while end > 0 && s.get_char(start + end - 1) != ' '
            invariant
                columns > 0,
                end <= columns,
                total == s@.len(),
                start + columns <= total,
                rest == s@.skip(start as int),
                line_end(rest, columns as int) == last_space(rest, end as int, columns as int),
            decreases end,
        {
            end -= 1;
        }
        if end == 0 {
            end = columns;
        }
        assert(end == line_end(rest, columns as int));
        let mut stop: usize = start + end;
        let ghost piece = rest.take(end as int);
        proof {
            assert(piece =~= s@.subrange(start as int, stop as int));
        }
        while stop > start && white(s.get_char(stop - 1))
            invariant
                start <= stop <= start + end <= total,
                total == s@.len(),
                trimmed(piece) == trimmed(s@.subrange(start as int, stop as int)),
            decreases stop,
        {
            proof {
                let now = s@.subrange(start as int, stop as int);
                assert(now.drop_last() =~= s@.subrange(start as int, stop - 1));
            }
            stop -= 1;
        }
        let ghost line = s@.subrange(start as int, stop as int);
        proof {
            if stop > start {
                assert(line.last() == s@[stop - 1]);
            }
            assert(trimmed(piece) == line);
            let here = pieces(rest, columns as int);
            let after = pieces(rest.skip(end as int), columns as int);
            pieces_make_the_text(rest.skip(end as int), columns as int);
            assert(here == seq![piece] + after);
            assert(all.skip(out@.len() as int) == here);
            assert(here.len() == all.len() - out@.len());
            assert(here[0] == all.skip(out@.len() as int)[0]);
            assert(here[0] == all[out@.len() as int]);
            assert(rest.skip(end as int) =~= s@.skip(start + end));
            assert(here.skip(1) =~= after);
            assert(all.skip(out@.len() as int).skip(1) =~= all.skip(out@.len() as int + 1));
            if after.len() == 0 {
                assert(after.flatten() =~= Seq::<char>::empty());
                assert(rest.skip(end as int).len() > 0);
            }
        }
        out.push(s.substring_char(start, stop));
        start = start + end;
    }
    proof {
        assert(all.skip(out@.len() as int).len() == all.len() - out@.len());
    }
    if start < total {
        let ghost rest = s@.skip(start as int);
        proof {
            assert(pieces(rest, columns as int) == seq![rest]);
            assert(all.skip(out@.len() as int)[0] == all[out@.len() as int]);
            assert(rest =~= s@.subrange(start as int, total as int));
        }
        out.push(s.substring_char(start, total));
    } else {
        assert(pieces(s@.skip(start as int), columns as int).len() == 0);
    }
    out
}

/// Whether a character is white space.
fn white(c: char) -> (r: bool)
    ensures
        r == is_white(c),
{
    ('\u{9}' <= c && c <= '\u{d}') || c == ' ' || c == '\u{85}' || c == '\u{a0}' || c == '\u{1680}' || (
    '\u{2000}' <= c && c <= '\u{200a}') || c == '\u{2028}' || c == '\u{2029}' || c == '\u{202f}' || c
        == '\u{205f}' || c == '\u{3000}'
}

/// The stop screen is green: of every one of its colours green is the strongest
/// part. The interface is not: its background is darker than the stop screen's.
pub proof fn the_stop_screen_is_green()
    ensures
        ({
            let p = stop_colours();
            &&& is_green(p.background) && is_green(p.panel) && is_green(p.title) && is_green(p.text)
            &&& is_green(p.muted) && is_green(p.accent) && is_green(p.button)
            &&& is_green(p.button_edge)
        }),
        !is_green(app_colours().background),
{
}

/// Green is the strongest part of a colour.
pub open spec fn is_green(colour: Colour) -> bool {
    colour / 256 % 256 > colour / 65536 % 256 && colour / 256 % 256 > colour % 256
}

/// A glyph's rows follow one another, glyph by glyph, and the leftmost of its
/// eight pixels is the highest bit; what is not ASCII shows as a question mark.
pub proof fn a_glyph_is_its_rows(font: Font, byte: u8, row: int)
    ensures
        ({
            let shown = if byte < 128 {
                byte as int
            } else {
                63
            };
            let bits = font.rows@[shown * font.height + row];
            &&& font.lit(byte, row, 0) == (bits & 128 != 0)
            &&& font.lit(byte, row, 1) == (bits & 64 != 0)
            &&& font.lit(byte, row, 2) == (bits & 32 != 0)
            &&& font.lit(byte, row, 3) == (bits & 16 != 0)
            &&& font.lit(byte, row, 4) == (bits & 8 != 0)
            &&& font.lit(byte, row, 5) == (bits & 4 != 0)
            &&& font.lit(byte, row, 6) == (bits & 2 != 0)
            &&& font.lit(byte, row, 7) == (bits & 1 != 0)
        }),
{
    assert(0x80u8 >> 0u8 == 128 && 0x80u8 >> 1u8 == 64 && 0x80u8 >> 2u8 == 32 && 0x80u8 >> 3u8
        == 16 && 0x80u8 >> 4u8 == 8 && 0x80u8 >> 5u8 == 4 && 0x80u8 >> 6u8 == 2 && 0x80u8 >> 7u8
        == 1) by (bit_vector);
}

/// Each glyph starts nine font pixels after the one before, so glyphs do not
/// touch; the first is drawn wherever it starts, and the others while their start
/// is on the surface.
pub proof fn glyphs_follow_one_another(x: int, scale: int, width: int, k: int)
    ensures
        pen(x, scale, 0) == x,
        pen(x, scale, k + 1) - pen(x, scale, k) == 9 * scale,
        is_drawn(x, scale, width, 0),
        k > 0 ==> (is_drawn(x, scale, width, k) <==> pen(x, scale, k) < width),
{
    assert((k + 1) * (9 * scale) == k * (9 * scale) + 9 * scale) by (nonlinear_arith);
    assert(0 * (9 * scale) == 0);
}

/// A lit font pixel is a square of the scale, as far from the glyph's corner as
/// its row and its column are from the first.
pub proof fn a_lit_pixel_is_a_square(
    font: Font,
    byte: u8,
    left: int,
    top: int,
    scale: int,
    row: int,
    col: int,
    u: int,
    v: int,
)
    ensures
        in_cell(font, byte, left, top, scale, row, col, u, v) <==> font.lit(byte, row, col) && 0
            <= u - left - scale * col < scale && 0 <= v - top - scale * row < scale,
{
    assert(col * scale == scale * col && row * scale == scale * row) by (nonlinear_arith);
}

/// A label is in the middle of its button: what is left of it and what is right
/// of it differ by a pixel at most, and the same above and below; one that does
/// not fit starts at the edge.
pub proof fn a_label_is_centred(font: Font, x: int, y: int, w: int, h: int, count: int)
    requires
        count >= 0,
    ensures
        ({
            let left = label_left(x, w, count) - x;
            let right = w - left - 18 * count;
            &&& w >= 18 * count ==> 0 <= right - left <= 1
            &&& w < 18 * count ==> left == 0
        }),
        ({
            let above = label_top(font, y, h) - y;
            let below = h - above - 2 * font.height;
            &&& h >= 2 * font.height ==> 0 <= below - above <= 1
            &&& h < 2 * font.height ==> above == 0
        }),
{
}

/// Of a button, the label is over the edge and the edge over the face; beside it
/// nothing changes.
pub proof fn a_button_is_layered(
    before: Framebuffer,
    font: Font,
    x: int,
    y: int,
    w: int,
    h: int,
    label: Seq<u8>,
    p: Palette,
    u: int,
    v: int,
)
    ensures
        ({
            let shown = button_pixel(before, font, x, y, w, h, label, p, u, v);
            let depth = before.bytes_per_pixel as int;
            let inside = x <= u < x + w && y <= v < y + h;
            let edge = inside && (u == x || u == x + w - 1 || v == y || v == y + h - 1);
            let lit = in_text(
                font,
                label,
                label_left(x, w, label.len() as int),
                label_top(font, y, h),
                2,
                before.width as int,
                label.len() as int,
                u,
                v,
            );
            &&& lit ==> shown == stored(p.title, depth)
            &&& !lit && edge ==> shown == stored(p.button_edge, depth)
            &&& !lit && inside && !edge ==> shown == stored(p.button, depth)
            &&& !lit && !inside ==> shown == before.pixel(u, v)
        }),
{
}

/// A text longer than a line breaks after the last space there is room for, and
/// after as many characters as there is room for where there is none; one that
/// fits is not broken.
pub proof fn lines_break_at_the_last_space(s: Seq<char>, columns: int)
    requires
        columns > 0,
        s.len() > 0,
    ensures
        s.len() <= columns ==> lines(s, columns) == seq![s],
        s.len() > columns ==> {
            let first = pieces(s, columns)[0];
            &&& pieces(s, columns).len() > 0
            &&& first == s.take(first.len() as int)
            &&& 0 < first.len() <= columns
            &&& first.last() == ' ' || first.len() == columns && forall|i: int|
                0 <= i < columns ==> s[i] != ' '
            &&& forall|i: int| first.len() <= i < columns ==> s[i] != ' '
        },
{
    if s.len() > columns {
        last_space_is_last(s, columns, columns);
        let end = line_end(s, columns);
        assert(pieces(s, columns)[0] =~= s.take(end));
    } else {
        assert(lines(s, columns) =~= seq![s]);
    }
}

} // verus!
