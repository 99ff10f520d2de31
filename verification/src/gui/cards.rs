//! The cards: the selected panel, the current mode, and what this machine is.

use crate::gui::canvas::{widths_add_up, Canvas, Drawn, Face, FaceId, Ink, Op, Tone, Typeface};
use crate::gui::layout::{card_content, less, rest, Layout, Panel, Tab};
use crate::gui::motion::{lit, lit_of, Tween};
use crate::gui::rows::{cards_have_room, machine_rows, machine_table, panel_rows, panel_table};
use crate::gui::rows::{session_rows, session_table, Machine, Rows};
use crate::gui::watch::{Clock, Stopwatch, Timer};
use crate::input::Input;
use crate::text::utf8;
use vstd::prelude::*;

verus! {

// ---------------------------------------------------------------------------
// Text that has to fit
// ---------------------------------------------------------------------------

/// How many bytes of a string fit in a width, one after the other, from the
/// `i`th on, with `used` already taken.
pub open spec fn fitting(face: Face, bytes: Seq<u8>, width: int, used: int, i: int) -> int
    decreases bytes.len() - i,
{
    if i >= bytes.len() || used + face.advance@[bytes[i] as int] > width {
        i
    } else {
        fitting(face, bytes, width, used + face.advance@[bytes[i] as int], i + 1)
    }
}

/// Whether a byte continues a character.
pub open spec fn continues(byte: u8) -> bool {
    0x80 <= byte < 0xC0
}

/// The last place at or before one where a character starts.
pub open spec fn whole(bytes: Seq<u8>, end: int) -> int
    decreases end,
{
    if 0 < end < bytes.len() && continues(bytes[end]) {
        whole(bytes, end - 1)
    } else {
        end
    }
}

/// The longest prefix of a string that fits in a width, in whole characters.
pub open spec fn truncated(face: Face, bytes: Seq<u8>, width: int) -> Seq<u8> {
    if face.width(bytes) <= width {
        bytes
    } else {
        bytes.take(whole(bytes, fitting(face, bytes, width, 0, 0)))
    }
}

/// What fits is a prefix, and is no wider than what was used up to there.
proof fn fitting_fits(face: Face, bytes: Seq<u8>, width: int, used: int, i: int)
    requires
        0 <= i <= bytes.len(),
        used == face.width(bytes.take(i)),
        used <= width || i == 0,
    ensures
        ({
            let end = fitting(face, bytes, width, used, i);
            &&& i <= end <= bytes.len()
            &&& face.width(bytes.take(end)) <= width || end == 0
            &&& end < bytes.len() ==> face.width(bytes.take(end + 1)) > width
        }),
    decreases bytes.len() - i,
{
    if i < bytes.len() {
        let advance = face.advance@[bytes[i] as int];
        assert(bytes.take(i + 1).drop_last() =~= bytes.take(i));
        if used + advance <= width {
            fitting_fits(face, bytes, width, used + advance, i + 1);
        }
    }
}

/// Stepping back to the start of a character stays in the string, and what is
/// left out is part of one character or fits nowhere.
proof fn whole_is_before(bytes: Seq<u8>, end: int)
    requires
        0 <= end <= bytes.len(),
    ensures
        0 <= whole(bytes, end) <= end,
        whole(bytes, end) == 0 || whole(bytes, end) == bytes.len() || !continues(
            bytes[whole(bytes, end)],
        ),
    decreases end,
{
    if 0 < end < bytes.len() && continues(bytes[end]) {
        whole_is_before(bytes, end - 1);
    }
}

/// A shorter prefix is no wider.
proof fn prefix_is_no_wider(face: Face, bytes: Seq<u8>, a: int, b: int)
    requires
        0 <= a <= b <= bytes.len(),
    ensures
        face.width(bytes.take(a)) <= face.width(bytes.take(b)),
{
    assert(bytes.take(b) =~= bytes.take(a) + bytes.subrange(a, b));
    widths_add_up(face, bytes.take(a), bytes.subrange(a, b));
}

/// What truncation leaves is a prefix that fits, and is all of the string
/// where all of it fits.
pub proof fn truncation_fits(face: Face, bytes: Seq<u8>, width: int)
    requires
        width >= 0,
    ensures
        truncated(face, bytes, width).is_prefix_of(bytes),
        face.width(truncated(face, bytes, width)) <= width,
        face.width(bytes) <= width ==> truncated(face, bytes, width) == bytes,
{
    assert(bytes.take(0) =~= Seq::<u8>::empty());
    fitting_fits(face, bytes, width, 0, 0);
    let end = fitting(face, bytes, width, 0, 0);
    whole_is_before(bytes, end);
    prefix_is_no_wider(face, bytes, whole(bytes, end), end);
    assert(bytes.take(0) =~= Seq::<u8>::empty());
}

/// Truncating well-formed text leaves well-formed text.
pub proof fn truncation_keeps_characters_whole(face: Face, bytes: Seq<u8>, width: int)
    requires
        vstd::utf8::valid_utf8(bytes),
        width >= 0,
    ensures
        vstd::utf8::valid_utf8(truncated(face, bytes, width)),
{
    if face.width(bytes) > width {
        assert(bytes.take(0) =~= Seq::<u8>::empty());
        fitting_fits(face, bytes, width, 0, 0);
        let end = fitting(face, bytes, width, 0, 0);
        whole_is_before(bytes, end);
        let cut = whole(bytes, end);
        if cut == 0 {
            assert(bytes.take(0) =~= Seq::<u8>::empty());
            assert(vstd::utf8::valid_utf8(Seq::<u8>::empty()));
        } else if cut == bytes.len() {
            assert(bytes.take(cut) =~= bytes);
        } else {
            vstd::utf8::is_char_boundary_iff_not_is_continuation_byte(bytes, cut);
            vstd::utf8::valid_utf8_split(bytes, cut);
            assert(bytes.take(cut) =~= bytes.subrange(0, cut));
        }
    }
}

/// More than any width a screen has.
pub const WIDEST: u64 = 0x1_0000_0000;

/// How wide a run of bytes is, as far as it matters on a screen.
fn capped_width(face: &Face, bytes: &[u8]) -> (r: u64)
    ensures
        r == less(face.width(bytes@) as int, WIDEST as int),
{
    let mut total: u64 = 0;
    let mut i: usize = 0;
    assert(bytes@.take(0) =~= Seq::<u8>::empty());
    while i < bytes.len()
        invariant
            i <= bytes@.len(),
            total == less(face.width(bytes@.take(i as int)) as int, WIDEST as int),
        decreases bytes@.len() - i,
    {
        proof {
            assert(bytes@.take(i + 1).drop_last() =~= bytes@.take(i as int));
        }
        total = total + face.advance[bytes[i] as usize] as u64;
        if total > WIDEST {
            total = WIDEST;
        }
        i += 1;
    }
    assert(bytes@.take(i as int) =~= bytes@);
    total
}

/// The longest prefix of a string that fits in a width.
///
/// By measured width, not character count: the typeface is proportional.
pub fn truncate_to_width<'a>(face: &Face, bytes: &'a [u8], width: u32) -> (r: &'a [u8])
    ensures
        r@ == truncated(*face, bytes@, width as int),
{
    if capped_width(face, bytes) <= width as u64 {
        return bytes;
    }
    let mut used: u64 = 0;
    let mut end: usize = 0;
    while end < bytes.len() && used + face.advance[bytes[end] as usize] as u64 <= width as u64
        invariant
            end <= bytes@.len(),
            used <= width,
            fitting(*face, bytes@, width as int, 0, 0) == fitting(
                *face,
                bytes@,
                width as int,
                used as int,
                end as int,
            ),
        decreases bytes@.len() - end,
    {
        used = used + face.advance[bytes[end] as usize] as u64;
        end += 1;
    }
    let ghost cut = end as int;
    while end > 0 && end < bytes.len() && 0x80 <= bytes[end] && bytes[end] < 0xC0
        invariant
            end <= bytes@.len(),
            whole(bytes@, cut) == whole(bytes@, end as int),
        decreases end,
    {
        end -= 1;
    }
    let r: &[u8] = vstd::slice::slice_subrange(bytes, 0, end);
    assert(r@ =~= bytes@.take(end as int));
    r
}

// ---------------------------------------------------------------------------
// Rows and cards
// ---------------------------------------------------------------------------

/// How far down the next row is.
pub open spec fn row_pitch(faces: Typeface) -> int {
    faces.body.line_height + 7
}

/// One row: the value right-aligned inside the card, and as much of the label
/// as there is room for beside it. The value is what the row exists to show,
/// so it keeps its place and the label gives way.
pub open spec fn row_picture(
    faces: Typeface,
    x: int,
    w: int,
    y: int,
    row: (Seq<u8>, Seq<u8>),
) -> Seq<Drawn> {
    let right = x + w - 20;
    let room = rest(right, faces.body.width(row.1) + faces.body.width(utf8("  ")) + x + 20);
    seq![
        Op::Right {
            face: FaceId::Body,
            right: right as u32,
            y: y as u32,
            text: row.1,
            ink: Ink::Flat(Tone::Text),
        },
        Op::Text {
            face: FaceId::Body,
            x: (x + 20) as u32,
            y: y as u32,
            text: truncated(faces.body, row.0, room),
            ink: Ink::Flat(Tone::Muted),
        },
    ]
}

/// The first `n` rows of a table, one under the other.
pub open spec fn rows_picture(
    faces: Typeface,
    x: int,
    w: int,
    y: int,
    table: Seq<(Seq<u8>, Seq<u8>)>,
    n: int,
) -> Seq<Drawn>
    decreases n,
{
    if n <= 0 {
        seq![]
    } else {
        rows_picture(faces, x, w, y, table, n - 1) + row_picture(
            faces,
            x,
            w,
            y + (n - 1) * row_pitch(faces),
            table[n - 1],
        )
    }
}

/// Two spaces are two bytes.
proof fn two_spaces()
    ensures
        utf8("  ").len() == 2,
{
    reveal_strlit("  ");
    assert(vstd::utf8::is_ascii_chars("  "@));
    vstd::utf8::is_ascii_chars_encode_utf8("  "@);
}

/// Draws one row, and says where the next one goes.
fn row(
    canvas: &mut Canvas,
    faces: &Typeface,
    x: u32,
    w: u32,
    y: u32,
    label: &[u8],
    value: &[u8],
) -> (r: u32)
    requires
        x + w <= i32::MAX,
        w >= 20,
        y <= i32::MAX,
    ensures
        final(canvas)@ == old(canvas)@ + row_picture(
            *faces,
            x as int,
            w as int,
            y as int,
            (label@, value@),
        ),
        r == y + row_pitch(*faces),
{
    proof {
        two_spaces();
    }
    let right: u32 = x + w - 20;
    canvas.push(
        Op::Right {
            face: FaceId::Body,
            right,
            y,
            text: vstd::slice::slice_to_vec(value),
            ink: Ink::Flat(Tone::Text),
        },
    );
    let taken: u64 = capped_width(&faces.body, value) + (faces.body.width_of("  ") + x + 20) as u64;
    let room: u32 = if right as u64 > taken {
        right - taken as u32
    } else {
        0
    };
    let shown: &[u8] = truncate_to_width(&faces.body, label, room);
    canvas.push(
        Op::Text {
            face: FaceId::Body,
            x: x + 20,
            y,
            text: vstd::slice::slice_to_vec(shown),
            ink: Ink::Flat(Tone::Muted),
        },
    );
    assert(canvas@ =~= old(canvas)@ + row_picture(
        *faces,
        x as int,
        w as int,
        y as int,
        (label@, value@),
    ));
    y + faces.body.line_height as u32 + 7
}

/// Draws a table, and says where the next row would go.
fn lay_rows(canvas: &mut Canvas, faces: &Typeface, x: u32, w: u32, y: u32, rows: &Rows) -> (r: u32)
    requires
        x + w <= i32::MAX,
        w >= 20,
        y + rows@.len() * row_pitch(*faces) <= i32::MAX,
    ensures
        final(canvas)@ == old(canvas)@ + rows_picture(
            *faces,
            x as int,
            w as int,
            y as int,
            rows@,
            rows@.len() as int,
        ),
        r == y + rows@.len() * row_pitch(*faces),
{
    let mut at: u32 = y;
    let mut i: usize = 0;
    let ghost start = canvas@;
    let ghost pitch = row_pitch(*faces);
    proof {
        assert(start + rows_picture(*faces, x as int, w as int, y as int, rows@, 0) =~= start);
        assert(0 * pitch == 0);
    }
    while i < rows.rows.len()
        invariant
            i <= rows.rows@.len() == rows@.len(),
            x + w <= i32::MAX,
            w >= 20,
            pitch == row_pitch(*faces),
            y + rows@.len() * pitch <= i32::MAX,
            at == y + i * pitch,
            canvas@ == start + rows_picture(
                *faces,
                x as int,
                w as int,
                y as int,
                rows@,
                i as int,
            ),
        decreases rows.rows@.len() - i,
    {
        let line = &rows.rows[i];
        proof {
            assert(rows@[i as int] == (line.label@, line.value@));
            assert(i * pitch <= rows@.len() * pitch) by (nonlinear_arith)
                requires
                    0 <= i <= rows@.len(),
                    0 <= pitch,
            ;
            assert((i + 1) * pitch == i * pitch + pitch) by (nonlinear_arith);
        }
        let ghost before = rows_picture(*faces, x as int, w as int, y as int, rows@, i as int);
        at = row(canvas, faces, x, w, at, line.label.as_slice(), line.value.as_slice());
        proof {
            let this = row_picture(
                *faces,
                x as int,
                w as int,
                y + i * pitch,
                rows@[i as int],
            );
            assert(start + before + this =~= start + (before + this));
        }
        i += 1;
    }
    at
}

/// A card: a shadow, a panel with an edge, a title and a rule under it.
pub open spec fn card_picture(
    faces: Typeface,
    x: int,
    y: int,
    w: int,
    h: int,
    title: Seq<u8>,
) -> Seq<Drawn> {
    seq![
        Op::Rounded {
            x: (x + 2) as u32,
            y: (y + 3) as u32,
            w: w as u32,
            h: h as u32,
            r: 14,
            ink: Ink::Flat(Tone::Shadow),
        },
        Op::Rounded {
            x: x as u32,
            y: y as u32,
            w: w as u32,
            h: h as u32,
            r: 14,
            ink: Ink::Flat(Tone::Panel),
        },
        Op::RoundedOutline {
            x: x as u32,
            y: y as u32,
            w: w as u32,
            h: h as u32,
            r: 14,
            ink: Ink::Flat(Tone::Divider),
        },
        Op::Text {
            face: FaceId::Heading,
            x: (x + 20) as u32,
            y: (y + 14) as u32,
            text: title,
            ink: Ink::Flat(Tone::Accent),
        },
        Op::Fill {
            x: (x + 20) as u32,
            y: (y + 18 + faces.heading.line_height) as u32,
            w: (w - 40) as u32,
            h: 1,
            ink: Ink::Flat(Tone::Divider),
        },
    ]
}

/// Draws a card and returns the y its rows start at.
fn card(
    canvas: &mut Canvas,
    faces: &Typeface,
    x: u32,
    y: u32,
    w: u32,
    h: u32,
    title: &str,
) -> (r: u32)
    requires
        x + w <= i32::MAX,
        y <= i32::MAX,
        w >= 40,
    ensures
        final(canvas)@ == old(canvas)@ + card_picture(
            *faces,
            x as int,
            y as int,
            w as int,
            h as int,
            utf8(title),
        ),
        r == y + 28 + faces.heading.line_height,
{
    let heading: u32 = faces.heading.line_height as u32;
    canvas.push(
        Op::Rounded { x: x + 2, y: y + 3, w, h, r: 14, ink: Ink::Flat(Tone::Shadow) },
    );
    canvas.push(Op::Rounded { x, y, w, h, r: 14, ink: Ink::Flat(Tone::Panel) });
    canvas.push(Op::RoundedOutline { x, y, w, h, r: 14, ink: Ink::Flat(Tone::Divider) });
    canvas.text(FaceId::Heading, x + 20, y + 14, title, Ink::Flat(Tone::Accent));
    canvas.fill(x + 20, y + 18 + heading, w - 40, 1, Ink::Flat(Tone::Divider));
    assert(canvas@ =~= old(canvas)@ + card_picture(
        *faces,
        x as int,
        y as int,
        w as int,
        h as int,
        utf8(title),
    ));
    y + 28 + heading
}

/// How opaque a tween is, in 255ths.
pub open spec fn alpha_of(tween: Tween) -> u8 {
    (lit_of(tween) * 255 / 1000) as u8
}

pub fn alpha(tween: &Tween) -> (r: u8)
    ensures
        r == alpha_of(*tween),
{
    (lit(tween) * 255 / 1000) as u8
}

/// What a column's card is called.
pub open spec fn column_title(panel: Panel, column: int, columns: int) -> Seq<u8> {
    if column == 0 {
        vstd::utf8::encode_utf8(panel.label())
    } else if column == 1 && columns < 3 {
        utf8("SESSION / MACHINE")
    } else if column == 1 {
        utf8("SESSION")
    } else {
        utf8("MACHINE")
    }
}

/// What the cards report.
pub struct Report<'a, F: Fn(u64) -> u64> {
    pub panel: Panel,
    pub tab: Tab,
    pub stopwatch: &'a Stopwatch,
    pub timer: &'a Timer,
    pub machine: &'a Machine,
    pub clock: &'a Clock<F>,
    pub input: &'a Input,
    /// Hypercalls issued so far.
    pub calls: u32,
}

/// What the cards say: which panel is selected, and the tables of the panel,
/// of the current mode and of the machine.
pub struct Tables {
    pub panel: Panel,
    pub selected: Seq<(Seq<u8>, Seq<u8>)>,
    pub session: Seq<(Seq<u8>, Seq<u8>)>,
    pub machine: Seq<(Seq<u8>, Seq<u8>)>,
}

impl<'a, F: Fn(u64) -> u64> Report<'a, F> {
    /// What the cards say of it.
    pub open spec fn tables(self) -> Tables {
        Tables {
            panel: self.panel,
            selected: panel_table(
                self.panel,
                *self.machine,
                *self.clock,
                *self.input,
                self.calls,
            ),
            session: session_table(self.tab, self.stopwatch@, *self.timer, *self.clock),
            machine: machine_table(*self.machine, self.clock.hz),
        }
    }

    /// Everything reported is in order.
    pub open spec fn wf(self) -> bool {
        &&& self.clock.wf()
        &&& self.stopwatch.wf()
    }
}

/// Where a column's card is.
pub open spec fn column_x(layout: Layout, column: int) -> int {
    layout.margin + column * (layout.card_w + layout.margin)
}

/// Where a card's rows start.
pub open spec fn rows_y(layout: Layout, faces: Typeface) -> int {
    layout.cards_y + 28 + faces.heading.line_height
}

/// A column: its card, and its rows in it. On a mode too narrow for three
/// cards the machine summary stands under the session, behind a rule.
pub open spec fn column_picture(
    layout: Layout,
    faces: Typeface,
    tables: Tables,
    column: int,
) -> Seq<Drawn> {
    let x = column_x(layout, column);
    let w = layout.card_w as int;
    let y = rows_y(layout, faces);
    let session = tables.session;
    let machine = tables.machine;
    let frame = card_picture(
        faces,
        x,
        layout.cards_y as int,
        w,
        layout.cards_h as int,
        column_title(tables.panel, column, layout.columns as int),
    );
    if column == 0 {
        let table = tables.selected;
        frame + rows_picture(faces, x, w, y, table, table.len() as int)
    } else if column == 1 {
        let upper = frame + rows_picture(faces, x, w, y, session, session.len() as int);
        if layout.columns < 3 {
            let rule = y + session.len() * row_pitch(faces) + 6;
            upper.push(
                Op::Fill {
                    x: (x + 20) as u32,
                    y: rule as u32,
                    w: (w - 40) as u32,
                    h: 1,
                    ink: Ink::Flat(Tone::Divider),
                },
            ) + rows_picture(faces, x, w, rule + 10, machine, machine.len() as int)
        } else {
            upper
        }
    } else {
        frame + rows_picture(faces, x, w, y, machine, machine.len() as int)
    }
}

/// Where the row after a column's last would go.
pub open spec fn rows_end(layout: Layout, faces: Typeface, tables: Tables, column: int) -> int {
    let y = rows_y(layout, faces);
    if column == 0 {
        y + tables.selected.len() * row_pitch(faces)
    } else if column == 1 && layout.columns < 3 {
        y + tables.session.len() * row_pitch(faces) + 16 + tables.machine.len() * row_pitch(faces)
    } else if column == 1 {
        y + tables.session.len() * row_pitch(faces)
    } else {
        y + tables.machine.len() * row_pitch(faces)
    }
}

/// The cards are sized by what they hold: on a screen with room for their full
/// height, no card's rows run past its end, whatever there is to report.
pub proof fn cards_hold_their_rows<F: Fn(u64) -> u64>(
    layout: Layout,
    faces: Typeface,
    report: Report<F>,
    column: int,
)
    requires
        report.wf(),
        0 <= column < layout.columns <= 3,
        layout.cards_h == card_content(layout.columns as int, faces),
    ensures
        rows_end(layout, faces, report.tables(), column) <= layout.cards_y + layout.cards_h,
{
    let tables = report.tables();
    let pitch = row_pitch(faces);
    let selected = tables.selected.len() as int;
    let session = tables.session.len() as int;
    let machine = tables.machine.len() as int;
    cards_have_room(
        report.panel,
        report.tab,
        report.stopwatch@,
        *report.timer,
        *report.clock,
        *report.machine,
        *report.input,
        report.calls,
    );
    assert(selected * pitch <= 12 * pitch && session * pitch <= 12 * pitch && machine * pitch <= 12
        * pitch && session * pitch + machine * pitch <= 15 * pitch) by (nonlinear_arith)
        requires
            selected <= 12,
            session <= 12,
            machine <= 12,
            session + machine <= 15,
            pitch >= 0,
    ;
}

/// The first `n` columns.
pub open spec fn columns_picture(
    layout: Layout,
    faces: Typeface,
    tables: Tables,
    n: int,
) -> Seq<Drawn>
    decreases n,
{
    if n <= 0 {
        seq![
            Op::Fill {
                x: 0,
                y: layout.cards_y,
                w: layout.width,
                h: layout.cards_h,
                ink: Ink::Flat(Tone::Background),
            },
        ]
    } else {
        columns_picture(layout, faces, tables, n - 1) + column_picture(
            layout,
            faces,
            tables,
            n - 1,
        )
    }
}

/// The cards, faded to where they are in their transition; nothing where
/// there is no room for them.
pub open spec fn cards_picture(
    layout: Layout,
    faces: Typeface,
    tables: Tables,
    fade: Tween,
) -> Seq<Drawn> {
    if layout.cards_h < 80 {
        seq![]
    } else {
        columns_picture(layout, faces, tables, layout.columns as int).push(
            Op::Fade {
                x: 0,
                y: layout.cards_y,
                w: layout.width,
                h: layout.cards_h,
                to: Tone::Background,
                alpha: alpha_of(fade),
            },
        )
    }
}

/// Draws one column.
fn column<F: Fn(u64) -> u64>(
    layout: &Layout,
    faces: &Typeface,
    report: &Report<F>,
    index: u32,
) -> (r: Canvas)
    requires
        layout.wf(),
        report.wf(),
        layout.card_w >= 40,
        layout.width < 0x7000_0000,
        layout.cards_y < 0x7000_0000,
        index < layout.columns,
    ensures
        r@ == column_picture(*layout, *faces, report.tables(), index as int),
{
    proof {
        let step = layout.card_w + layout.margin;
        assert(index * step + step <= layout.columns * step && 0 <= index * step)
            by (nonlinear_arith)
            requires
                0 <= index,
                index + 1 <= layout.columns,
                0 <= step,
        ;
        let pitch = row_pitch(*faces);
        cards_have_room(
            report.panel,
            report.tab,
            report.stopwatch@,
            *report.timer,
            *report.clock,
            *report.machine,
            *report.input,
            report.calls,
        );
        assert(report.tables().selected.len() * pitch <= 20 * pitch) by (nonlinear_arith)
            requires
                report.tables().selected.len() <= 20,
                pitch >= 0,
        ;
        assert(report.tables().session.len() * pitch <= 20 * pitch) by (nonlinear_arith)
            requires
                report.tables().session.len() <= 20,
                pitch >= 0,
        ;
        assert(report.tables().machine.len() * pitch <= 20 * pitch) by (nonlinear_arith)
            requires
                report.tables().machine.len() <= 20,
                pitch >= 0,
        ;
    }
    let x: u32 = layout.margin + index * (layout.card_w + layout.margin);
    let w: u32 = layout.card_w;
    let title: &str = if index == 0 {
        report.panel.name()
    } else if index == 1 && layout.columns < 3 {
        "SESSION / MACHINE"
    } else if index == 1 {
        "SESSION"
    } else {
        "MACHINE"
    };
    let mut canvas = Canvas::new();
    let y: u32 = card(&mut canvas, faces, x, layout.cards_y, w, layout.cards_h, title);
    proof {
        assert(Seq::<Drawn>::empty() + card_picture(
            *faces,
            x as int,
            layout.cards_y as int,
            w as int,
            layout.cards_h as int,
            utf8(title),
        ) =~= card_picture(
            *faces,
            x as int,
            layout.cards_y as int,
            w as int,
            layout.cards_h as int,
            utf8(title),
        ));
    }
    if index == 0 {
        let rows = panel_rows(
            report.panel,
            report.machine,
            report.clock,
            report.input,
            report.calls,
        );
        let _ = lay_rows(&mut canvas, faces, x, w, y, &rows);
    } else if index == 1 {
        let rows = session_rows(report.tab, report.stopwatch, report.timer, report.clock);
        let after: u32 = lay_rows(&mut canvas, faces, x, w, y, &rows);
        if layout.columns < 3 {
            canvas.fill(x + 20, after + 6, w - 40, 1, Ink::Flat(Tone::Divider));
            let more = machine_rows(report.machine, report.clock.hz);
            let _ = lay_rows(&mut canvas, faces, x, w, after + 16, &more);
        }
    } else {
        let rows = machine_rows(report.machine, report.clock.hz);
        let _ = lay_rows(&mut canvas, faces, x, w, y, &rows);
    }
    canvas
}

/// Three cards: the selected panel, the current mode, and what this machine
/// is. Redrawn on a change rather than every frame.
pub fn cards<F: Fn(u64) -> u64>(
    layout: &Layout,
    faces: &Typeface,
    report: &Report<F>,
    fade: &Tween,
) -> (r: Canvas)
    requires
        layout.wf(),
        report.wf(),
        layout.cards_h >= 80 ==> layout.card_w >= 40 && layout.width < 0x7000_0000
            && layout.cards_y < 0x7000_0000,
    ensures
        r@ == cards_picture(*layout, *faces, report.tables(), *fade),
{
    let mut canvas = Canvas::new();
    if layout.cards_h < 80 {
        return canvas;
    }
    canvas.fill(0, layout.cards_y, layout.width, layout.cards_h, Ink::Flat(Tone::Background));
    let mut i: u32 = 0;
    while i < layout.columns
        invariant
            i <= layout.columns,
            layout.wf(),
            report.wf(),
            layout.card_w >= 40,
            layout.width < 0x7000_0000,
            layout.cards_y < 0x7000_0000,
            canvas@ == columns_picture(*layout, *faces, report.tables(), i as int),
        decreases layout.columns - i,
    {
        let drawn = column(layout, faces, report, i);
        canvas.append(drawn);
        i += 1;
    }
    canvas.push(
        Op::Fade {
            x: 0,
            y: layout.cards_y,
            w: layout.width,
            h: layout.cards_h,
            to: Tone::Background,
            alpha: alpha(fade),
        },
    );
    canvas
}

/// Every byte between where a character starts and where it was cut continues
/// it.
proof fn what_is_stepped_over(bytes: Seq<u8>, end: int, k: int)
    requires
        0 <= end <= bytes.len(),
        whole(bytes, end) < k <= end,
    ensures
        k < bytes.len(),
        continues(bytes[k]),
    decreases end,
{
    if k < end {
        what_is_stepped_over(bytes, end - 1, k);
    }
}

/// Nothing more would fit: every longer part of a text that does not end inside
/// a character is wider than the room there is.
pub proof fn truncation_keeps_all_it_can(face: Face, bytes: Seq<u8>, width: int, k: int)
    requires
        width >= 0,
        truncated(face, bytes, width).len() < k <= bytes.len(),
        k == bytes.len() || !(0x80 <= bytes[k] < 0xC0),
    ensures
        face.width(bytes.take(k)) > width,
{
    if face.width(bytes) > width {
        let end = fitting(face, bytes, width, 0, 0);
        assert(bytes.take(0) =~= Seq::<u8>::empty());
        fitting_fits(face, bytes, width, 0, 0);
        whole_is_before(bytes, end);
        if k <= end {
            what_is_stepped_over(bytes, end, k);
        } else {
            prefix_is_no_wider(face, bytes, end + 1, k);
        }
    }
}

/// The value ends twenty pixels before the card does and the label starts twenty
/// pixels into it. They keep two spaces between them, and the label is there in
/// full wherever that leaves room for it; where the value leaves none, it is not
/// there at all.
pub proof fn a_label_gives_way(faces: Typeface, x: int, w: int, y: int, row: (Seq<u8>, Seq<u8>))
    requires
        0 <= x,
        40 <= w,
        x + w <= u32::MAX,
        0 <= y <= u32::MAX,
    ensures
        ({
            let ops = row_picture(faces, x, w, y, row);
            let value = faces.body.width(row.1);
            let gap = faces.body.width(utf8("  "));
            let label = faces.body.width(row.0);
            &&& ops.len() == 2
            &&& (ops[0] matches Op::Right { face, right, y: at, text, ink } && face == FaceId::Body
                && right + 20 == x + w && at == y && text == row.1 && ink == Ink::Flat(Tone::Text))
            &&& (ops[1] matches Op::Text { face, x: left, y: at, text, ink } && {
                &&& face == FaceId::Body && left == x + 20 && at == y && ink == Ink::Flat(
                    Tone::Muted,
                )
                &&& text.is_prefix_of(row.0)
                &&& label + gap + value + 40 <= w ==> text == row.0
                &&& gap + value + 40 <= w ==> faces.body.width(text) + gap + value + 40 <= w
                &&& gap + value + 40 >= w ==> faces.body.width(text) == 0
            })
        }),
{
    let right = x + w - 20;
    let room = rest(right, faces.body.width(row.1) + faces.body.width(utf8("  ")) + x + 20);
    truncation_fits(faces.body, row.0, room);
}

/// The rows stand one under the other in the order of the table, a line and
/// seven pixels apart, and each is that row.
pub proof fn rows_stand_one_under_the_other(
    faces: Typeface,
    x: int,
    w: int,
    y: int,
    table: Seq<(Seq<u8>, Seq<u8>)>,
    n: int,
    i: int,
)
    requires
        0 <= i < n <= table.len(),
    ensures
        ({
            let ops = rows_picture(faces, x, w, y, table, n);
            let row = row_picture(
                faces,
                x,
                w,
                y + i * (faces.body.line_height + 7),
                table[i],
            );
            &&& ops.len() == 2 * n
            &&& ops[2 * i] == row[0]
            &&& ops[2 * i + 1] == row[1]
        }),
    decreases n,
{
    if n > 1 {
        rows_stand_one_under_the_other(faces, x, w, y, table, n - 1, 0);
    } else {
        assert(rows_picture(faces, x, w, y, table, 0).len() == 0);
    }
    if i < n - 1 {
        rows_stand_one_under_the_other(faces, x, w, y, table, n - 1, i);
    }
}

/// What a transition has come to is what is left of the cards: all of them at
/// its end, and none at its start.
pub proof fn a_fade_is_a_share(tween: Tween)
    ensures
        tween.value <= 0 ==> alpha_of(tween) == 0,
        tween.value >= 1000 ==> alpha_of(tween) == 255,
        0 <= tween.value <= 1000 ==> alpha_of(tween) == tween.value * 255 / 1000,
{
}

/// The first card is the selected panel's and is called that; the second is the
/// session's, with the machine's under it where there is no third; the third is
/// the machine's. They stand a margin apart, from the margin on.
pub proof fn every_card_has_its_place(panel: Panel, layout: Layout, column: int)
    ensures
        column_title(panel, 0, layout.columns as int) == vstd::utf8::encode_utf8(panel.label()),
        column_title(panel, 1, 3) == utf8("SESSION"),
        column_title(panel, 1, 2) == utf8("SESSION / MACHINE"),
        column_title(panel, 2, 3) == utf8("MACHINE"),
        column_x(layout, 0) == layout.margin,
        column_x(layout, column + 1) - (column_x(layout, column) + layout.card_w) == layout.margin,
{
    assert((column + 1) * (layout.card_w + layout.margin) == column * (layout.card_w
        + layout.margin) + (layout.card_w + layout.margin)) by (nonlinear_arith);
}

/// A card is a panel with an edge over its shadow, its title in it, a rule under
/// the title, and its rows from ten pixels under the rule.
pub proof fn a_card_frames_its_rows(
    layout: Layout,
    faces: Typeface,
    x: int,
    y: int,
    w: int,
    h: int,
    title: Seq<u8>,
)
    requires
        0 <= x,
        0 <= y <= i32::MAX,
        40 <= w,
        x + w <= i32::MAX,
        0 <= h <= i32::MAX,
    ensures
        ({
            let ops = card_picture(faces, x, y, w, h, title);
            &&& ops.len() == 5
            &&& (ops[0] matches Op::Rounded { x: a, y: b, w: c, h: d, ink, .. } && a == x + 2 && b
                == y + 3 && c == w && d == h && ink == Ink::Flat(Tone::Shadow))
            &&& (ops[1] matches Op::Rounded { x: a, y: b, w: c, h: d, ink, .. } && a == x && b == y
                && c == w && d == h && ink == Ink::Flat(Tone::Panel))
            &&& (ops[2] matches Op::RoundedOutline { x: a, y: b, w: c, h: d, ink, .. } && a == x && b
                == y && c == w && d == h && ink == Ink::Flat(Tone::Divider))
            &&& (ops[3] matches Op::Text { face, x: a, y: b, text, ink } && face == FaceId::Heading
                && a == x + 20 && b == y + 14 && text == title && ink == Ink::Flat(Tone::Accent))
            &&& (ops[4] matches Op::Fill { x: a, y: b, w: c, h: d, ink } && a == x + 20 && a + c + 20
                == x + w && d == 1 && b == y + 18 + faces.heading.line_height && ink == Ink::Flat(
                Tone::Divider,
            ))
        }),
        rows_y(layout, faces) == layout.cards_y + 18 + faces.heading.line_height + 10,
{
}

/// A column is its card and, after that, its table, row for row; where there is
/// no third card, the machine's table stands under the session's behind a rule.
pub proof fn a_column_is_its_table(layout: Layout, faces: Typeface, tables: Tables, i: int)
    ensures
        0 <= i < tables.selected.len() ==> column_picture(layout, faces, tables, 0)[5 + 2 * i]
            == row_picture(
            faces,
            column_x(layout, 0),
            layout.card_w as int,
            rows_y(layout, faces) + i * (faces.body.line_height + 7),
            tables.selected[i],
        )[0],
        0 <= i < tables.session.len() ==> column_picture(layout, faces, tables, 1)[5 + 2 * i]
            == row_picture(
            faces,
            column_x(layout, 1),
            layout.card_w as int,
            rows_y(layout, faces) + i * (faces.body.line_height + 7),
            tables.session[i],
        )[0],
        0 <= i < tables.machine.len() ==> column_picture(layout, faces, tables, 2)[5 + 2 * i]
            == row_picture(
            faces,
            column_x(layout, 2),
            layout.card_w as int,
            rows_y(layout, faces) + i * (faces.body.line_height + 7),
            tables.machine[i],
        )[0],
        0 <= i < tables.machine.len() && layout.columns < 3 ==> column_picture(
            layout,
            faces,
            tables,
            1,
        )[6 + 2 * tables.session.len() + 2 * i] == row_picture(
            faces,
            column_x(layout, 1),
            layout.card_w as int,
            rows_y(layout, faces) + tables.session.len() * (faces.body.line_height + 7) + 16 + i * (
            faces.body.line_height + 7),
            tables.machine[i],
        )[0],
{
    let (w, y) = (layout.card_w as int, rows_y(layout, faces));
    let (selected, session, machine) = (tables.selected, tables.session, tables.machine);
    let (a, b, c) = (column_x(layout, 0), column_x(layout, 1), column_x(layout, 2));
    if 0 <= i < selected.len() {
        let n = selected.len() as int;
        rows_stand_one_under_the_other(faces, a, w, y, selected, n, i);
    }
    if 0 <= i < session.len() {
        let n = session.len() as int;
        rows_stand_one_under_the_other(faces, b, w, y, session, n, i);
    }
    if 0 <= i < machine.len() {
        let n = machine.len() as int;
        rows_stand_one_under_the_other(faces, c, w, y, machine, n, i);
        if layout.columns < 3 {
            let under = y + session.len() * row_pitch(faces) + 16;
            rows_stand_one_under_the_other(faces, b, w, under, machine, n, i);
            if session.len() > 0 {
                rows_stand_one_under_the_other(faces, b, w, y, session, session.len() as int, 0);
            } else {
                assert(rows_picture(faces, b, w, y, session, 0).len() == 0);
            }
        }
    }
}

/// Cards are drawn from eighty pixels of height on: what was there is cleared
/// first and the whole is faded last.
pub proof fn cards_are_cleared_and_faded(
    layout: Layout,
    faces: Typeface,
    tables: Tables,
    fade: Tween,
)
    requires
        1 <= layout.columns <= 3,
    ensures
        ({
            let ops = cards_picture(layout, faces, tables, fade);
            &&& layout.cards_h < 80 <==> ops.len() == 0
            &&& layout.cards_h >= 80 ==> (ops[0] matches Op::Fill { x, y, w, h, ink } && x == 0 && y
                == layout.cards_y && w == layout.width && h == layout.cards_h && ink == Ink::Flat(
                Tone::Background,
            ))
            &&& layout.cards_h >= 80 ==> (ops.last() matches Op::Fade { x, y, w, h, to, alpha } && x
                == 0 && y == layout.cards_y && w == layout.width && h == layout.cards_h && to
                == Tone::Background && alpha == alpha_of(fade))
            &&& layout.cards_h >= 80 ==> ops.drop_last() == columns_picture(
                layout,
                faces,
                tables,
                layout.columns as int,
            )
        }),
{
    reveal_with_fuel(columns_picture, 4);
    assert(layout.columns == 1 || layout.columns == 2 || layout.columns == 3);
    assert(columns_picture(layout, faces, tables, layout.columns as int)[0]
        == columns_picture(layout, faces, tables, 0)[0]);
    if layout.cards_h >= 80 {
        assert(cards_picture(layout, faces, tables, fade).drop_last() =~= columns_picture(
            layout,
            faces,
            tables,
            layout.columns as int,
        ));
    }
}

} // verus!
