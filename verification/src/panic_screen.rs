//! The screen a freestanding kernel shows when it cannot continue.
//!
//! Green rather than blue, and it stops rather than restarting. A kernel that
//! reboots on panic loses the one thing worth having, what went wrong, and a
//! machine that reboots into the same fault does it forever. This waits, shows
//! the reason, and lets the operator choose.
//!
//! There is no window manager and no mouse, so the two controls are drawn as
//! buttons and driven from the keyboard: `R` restarts, `S` powers off.

use crate::draw;
use crate::draw::{label_left, label_top, lines, pieces, stop_colours, text_fits, text_region};
use crate::draw::{Font, Palette};
use crate::framebuffer::{frame, padding_carries, rectangle, stored, Colour, Framebuffer};
use crate::log::Log;
use crate::text::utf8;
use vstd::prelude::*;

verus! {

/// The 8042 keyboard controller's data and status ports.
pub const PS2_DATA: u16 = 0x60;

pub const PS2_STATUS: u16 = 0x64;

/// Set 1 scancodes for the keys this screen listens for.
pub const SCAN_R: u8 = 0x13;

pub const SCAN_S: u8 = 0x1F;

// ---------------------------------------------------------------------------
// Marks on a surface
// ---------------------------------------------------------------------------

/// One thing on the screen. Text is `S`: a string where it is drawn, its
/// bytes where it is spoken of.
pub enum Mark<S> {
    /// A filled rectangle.
    Fill { x: u32, y: u32, w: u32, h: u32, colour: Colour },
    /// A line of text.
    Line { x: u32, y: u32, text: S, colour: Colour, scale: u32 },
    /// A labelled button.
    Button { x: u32, y: u32, w: u32, h: u32, text: S },
}

impl Mark<&str> {
    /// What it puts on the screen.
    pub open spec fn view(self) -> Mark<Seq<u8>> {
        match self {
            Mark::Fill { x, y, w, h, colour } => Mark::Fill { x, y, w, h, colour },
            Mark::Line { x, y, text, colour, scale } => Mark::Line {
                x,
                y,
                text: utf8(text),
                colour,
                scale,
            },
            Mark::Button { x, y, w, h, text } => Mark::Button { x, y, w, h, text: utf8(text) },
        }
    }
}

/// Marks, as they are spoken of.
pub open spec fn marks_view(marks: Seq<Mark<&str>>) -> Seq<Mark<Seq<u8>>> {
    Seq::new(marks.len(), |i: int| marks[i].view())
}

/// Whether a mark can be drawn without its numbers leaving the range they are
/// kept in.
pub open spec fn mark_fits(mark: Mark<Seq<u8>>, font: Font, width: int) -> bool {
    match mark {
        Mark::Fill { .. } => true,
        Mark::Line { x, y, text, scale, .. } => text_fits(
            font,
            text.len(),
            x as int,
            y as int,
            scale as int,
            width,
        ),
        Mark::Button { x, y, w, h, text } => {
            &&& x + w <= u32::MAX
            &&& y + h <= u32::MAX
            &&& text.len() * 18 <= u32::MAX
            &&& text_fits(
                font,
                text.len(),
                label_left(x as int, w as int, text.len() as int),
                label_top(font, y as int, h as int),
                2,
                width,
            )
        },
    }
}

/// What a pixel shows once a mark has been made over what was under it.
pub open spec fn over(
    mark: Mark<Seq<u8>>,
    font: Font,
    p: Palette,
    width: int,
    depth: int,
    under: u32,
    u: int,
    v: int,
) -> u32 {
    match mark {
        Mark::Fill { x, y, w, h, colour } => if rectangle(x as int, y as int, w as int, h as int)(
            u,
            v,
        ) {
            stored(colour, depth)
        } else {
            under
        },
        Mark::Line { x, y, text, colour, scale } => if text_region(
            font,
            text,
            x as int,
            y as int,
            scale as int,
            width,
        )(u, v) {
            stored(colour, depth)
        } else {
            under
        },
        Mark::Button { x, y, w, h, text } => if text_region(
            font,
            text,
            label_left(x as int, w as int, text.len() as int),
            label_top(font, y as int, h as int),
            2,
            width,
        )(u, v) {
            stored(p.title, depth)
        } else if frame(x as int, y as int, w as int, h as int)(u, v) {
            stored(p.button_edge, depth)
        } else if rectangle(x as int, y as int, w as int, h as int)(u, v) {
            stored(p.button, depth)
        } else {
            under
        },
    }
}

/// What a pixel shows once the first `n` marks have been made, one over the
/// other.
pub open spec fn layered(
    marks: Seq<Mark<Seq<u8>>>,
    font: Font,
    p: Palette,
    before: Framebuffer,
    n: int,
    u: int,
    v: int,
) -> u32
    decreases n,
{
    if n <= 0 {
        before.pixel(u, v)
    } else {
        over(
            marks[n - 1],
            font,
            p,
            before.width as int,
            before.bytes_per_pixel as int,
            layered(marks, font, p, before, n - 1, u, v),
            u,
            v,
        )
    }
}

/// Makes one mark.
fn make(fb: &mut Framebuffer, font: &Font, p: &Palette, mark: &Mark<&str>)
    requires
        old(fb).drawable(),
        font.wf(),
        mark_fits(mark.view(), *font, old(fb).width as int),
    ensures
        final(fb).drawable(),
        final(fb).same_surface(*old(fb)),
        final(fb).same_padding(*old(fb)),
        forall|u: int, v: int|
            final(fb).on_surface(u, v) ==> #[trigger] final(fb).pixel(u, v) == over(
                mark.view(),
                *font,
                *p,
                old(fb).width as int,
                old(fb).bytes_per_pixel as int,
                old(fb).pixel(u, v),
                u,
                v,
            ),
{
    match mark {
        Mark::Fill { x, y, w, h, colour } => fb.fill(*x, *y, *w, *h, *colour),
        Mark::Line { x, y, text, colour, scale } => draw::text(
            fb,
            font,
            *x,
            *y,
            *text,
            *colour,
            *scale,
        ),
        Mark::Button { x, y, w, h, text } => draw::button(fb, font, *x, *y, *w, *h, *text, p),
    }
}

/// Makes marks, one over the other.
pub fn paint(fb: &mut Framebuffer, font: &Font, p: &Palette, marks: &Vec<Mark<&str>>)
    requires
        old(fb).drawable(),
        font.wf(),
        forall|i: int|
            0 <= i < marks@.len() ==> mark_fits(
                (#[trigger] marks_view(marks@)[i]),
                *font,
                old(fb).width as int,
            ),
    ensures
        final(fb).drawable(),
        final(fb).same_surface(*old(fb)),
        final(fb).same_padding(*old(fb)),
        forall|u: int, v: int|
            final(fb).on_surface(u, v) ==> #[trigger] final(fb).pixel(u, v) == layered(
                marks_view(marks@),
                *font,
                *p,
                *old(fb),
                marks@.len() as int,
                u,
                v,
            ),
{
    let ghost start = *fb;
    let mut i: usize = 0;
    while i < marks.len()
        invariant
            i <= marks@.len(),
            fb.drawable(),
            font.wf(),
            fb.same_surface(start),
            fb.same_padding(start),
            forall|k: int|
                0 <= k < marks@.len() ==> mark_fits(
                    (#[trigger] marks_view(marks@)[k]),
                    *font,
                    start.width as int,
                ),
            forall|u: int, v: int|
                fb.on_surface(u, v) ==> #[trigger] fb.pixel(u, v) == layered(
                    marks_view(marks@),
                    *font,
                    *p,
                    start,
                    i as int,
                    u,
                    v,
                ),
        decreases marks@.len() - i,
    {
        let ghost between = *fb;
        assert(marks_view(marks@)[i as int] == marks@[i as int].view());
        make(fb, font, p, &marks[i]);
        proof {
            padding_carries(start, between, *fb);
            assert forall|u: int, v: int| fb.on_surface(u, v) implies #[trigger] fb.pixel(u, v)
                == layered(marks_view(marks@), *font, *p, start, i + 1, u, v) by {
                assert(between.on_surface(u, v));
                assert(between.pixel(u, v) == layered(
                    marks_view(marks@),
                    *font,
                    *p,
                    start,
                    i as int,
                    u,
                    v,
                ));
            }
        }
        i += 1;
    }
}

// ---------------------------------------------------------------------------
// The stop screen
// ---------------------------------------------------------------------------

/// The size the title is drawn at.
pub open spec fn title_scale(width: int) -> int {
    if width >= 1280 {
        3
    } else {
        2
    }
}

/// How many characters of the reason go on a line.
pub open spec fn reason_columns(width: int) -> int {
    let columns = (width - 48) / 16;
    if columns > 16 {
        columns
    } else {
        16
    }
}

/// A line of ordinary text on the stop screen.
pub open spec fn line(y: int, text: Seq<u8>, colour: Colour) -> Mark<Seq<u8>> {
    Mark::Line { x: 24, y: y as u32, text, colour, scale: 2 }
}

/// What the screen says before the reason: a band across the top with the
/// title, and three lines of explanation.
pub open spec fn heading_marks(width: int, height: int, p: Palette) -> Seq<Mark<Seq<u8>>> {
    let scale = title_scale(width);
    let y = 8 * scale + 60;
    seq![
        Mark::Fill { x: 0, y: 0, w: width as u32, h: height as u32, colour: p.background },
        Mark::Fill {
            x: 0,
            y: 0,
            w: width as u32,
            h: (8 * scale + 24) as u32,
            colour: p.panel,
        },
        Mark::Line {
            x: 24,
            y: 12,
            text: utf8("NANOCHRONOMETER — STOPPED"),
            colour: p.title,
            scale: scale as u32,
        },
        line(y, utf8("The kernel stopped and cannot continue."), p.text),
        line(y + 34, utf8("It is waiting instead of restarting, so the"), p.muted),
        line(y + 56, utf8("reason below is not lost to a reboot loop."), p.muted),
        line(y + 104, utf8("REASON"), p.accent),
    ]
}

/// The first `n` lines of the reason, wrapped rather than running off the
/// edge.
pub open spec fn reason_marks(
    width: int,
    height: int,
    reason: Seq<char>,
    p: Palette,
    n: int,
) -> Seq<Mark<Seq<u8>>>
    decreases n,
{
    if n <= 0 {
        heading_marks(width, height, p)
    } else {
        reason_marks(width, height, reason, p, n - 1).push(
            line(
                8 * title_scale(width) + 190 + 20 * (n - 1),
                vstd::utf8::encode_utf8(lines(reason, reason_columns(width))[n - 1]),
                p.text,
            ),
        )
    }
}

/// How many lines of the reason start above the bottom edge. Nothing of one
/// that does not would show.
pub open spec fn reason_room(width: int, height: int) -> int {
    let y = 8 * title_scale(width) + 190;
    if height > y {
        (height - y + 19) / 20
    } else {
        0
    }
}

/// How many lines of the reason are shown.
pub open spec fn reason_lines(width: int, height: int, reason: Seq<char>) -> int {
    let wrapped = lines(reason, reason_columns(width)).len() as int;
    if wrapped < reason_room(width, height) {
        wrapped
    } else {
        reason_room(width, height)
    }
}

/// The stop screen. The two controls stand in the corner a desktop puts its
/// window buttons in.
pub open spec fn stop_marks(
    width: int,
    height: int,
    reason: Seq<char>,
    tables: bool,
    p: Palette,
) -> Seq<Mark<Seq<u8>>> {
    let y = if height > 96 {
        height - 96
    } else {
        0
    };
    let said = reason_marks(
        width,
        height,
        reason,
        p,
        reason_lines(width, height, reason),
    );
    let buttons = said.push(
        Mark::Button {
            x: (if width > 580 {
                width - 580
            } else {
                0
            }) as u32,
            y: y as u32,
            w: 260,
            h: 56,
            text: utf8("[R]  RESTART"),
        },
    ).push(
        Mark::Button {
            x: (if width > 290 {
                width - 290
            } else {
                0
            }) as u32,
            y: y as u32,
            w: 260,
            h: 56,
            text: utf8("[S]  SHUT DOWN"),
        },
    );
    if tables {
        buttons
    } else {
        buttons.push(line(y + 20, utf8("no ACPI tables found; using fallbacks"), p.muted))
    }
}

/// How long the two labels are.
proof fn labels_are_short()
    ensures
        utf8("[R]  RESTART").len() == 12,
        utf8("[S]  SHUT DOWN").len() == 14,
{
    broadcast use vstd::utf8::is_ascii_chars_encode_utf8;

    reveal_strlit("[R]  RESTART");
    reveal_strlit("[S]  SHUT DOWN");
    assert(vstd::utf8::is_ascii_chars("[R]  RESTART"@));
    assert(vstd::utf8::is_ascii_chars("[S]  SHUT DOWN"@));
}

/// Text at the sizes used here fits wherever it starts on a screen.
proof fn small_text_fits(font: Font, count: nat, x: int, y: int, scale: int, width: int)
    requires
        font.wf(),
        0 <= scale <= 3,
        x <= 0xC000_0000,
        y <= 0xC000_0000,
        width <= i32::MAX,
    ensures
        text_fits(font, count, x, y, scale, width),
{
    assert(font.height * scale <= 192) by (nonlinear_arith)
        requires
            font.height <= 64,
            0 <= scale <= 3,
    ;
}

/// A mark whose text starts on a screen, at the sizes used here.
pub open spec fn is_plain(mark: Mark<Seq<u8>>) -> bool {
    match mark {
        Mark::Fill { .. } => true,
        Mark::Line { x, y, scale, .. } => x == 24 && y <= 0xC000_0000 && scale <= 3,
        Mark::Button { x, y, w, h, text } => x <= i32::MAX && y <= i32::MAX && w == 260
            && h == 56 && text.len() <= 14,
    }
}

/// Every mark is such a one.
pub open spec fn all_plain(marks: Seq<Mark<Seq<u8>>>) -> bool {
    forall|i: int| 0 <= i < marks.len() ==> is_plain(#[trigger] marks[i])
}

/// Such a mark fits.
proof fn plain_marks_fit(mark: Mark<Seq<u8>>, font: Font, width: int)
    requires
        font.wf(),
        is_plain(mark),
        width <= i32::MAX,
    ensures
        mark_fits(mark, font, width),
{
    match mark {
        Mark::Fill { .. } => {},
        Mark::Line { x, y, text, scale, .. } => small_text_fits(
            font,
            text.len(),
            x as int,
            y as int,
            scale as int,
            width,
        ),
        Mark::Button { x, y, w, h, text } => small_text_fits(
            font,
            text.len(),
            label_left(x as int, w as int, text.len() as int),
            label_top(font, y as int, h as int),
            2,
            width,
        ),
    }
}

/// Adds a mark.
fn add_mark<'a>(marks: &mut Vec<Mark<&'a str>>, mark: Mark<&'a str>)
    ensures
        marks_view(final(marks)@) == marks_view(old(marks)@).push(mark.view()),
        all_plain(marks_view(old(marks)@)) && is_plain(mark.view()) ==> all_plain(
            marks_view(final(marks)@),
        ),
{
    marks.push(mark);
    assert(marks_view(marks@) =~= marks_view(old(marks)@).push(mark.view()));
}

fn text_line<'a>(y: u32, text: &'a str, colour: Colour) -> (r: Mark<&'a str>)
    ensures
        r.view() == line(y as int, utf8(text), colour),
{
    Mark::Line { x: 24, y, text, colour, scale: 2 }
}

/// What is on the stop screen.
pub fn stop_screen<'a>(
    width: u32,
    height: u32,
    reason: &'a str,
    tables: bool,
    p: &Palette,
) -> (r: Vec<Mark<&'a str>>)
    requires
        48 <= width <= i32::MAX,
        height <= i32::MAX,
    ensures
        marks_view(r@) == stop_marks(width as int, height as int, reason@, tables, *p),
        all_plain(marks_view(r@)),
{
    let scale: u32 = if width >= 1280 {
        3
    } else {
        2
    };
    let mut marks: Vec<Mark<&'a str>> = Vec::new();
    assert(marks_view(marks@) =~= Seq::<Mark<Seq<u8>>>::empty());
    add_mark(
        &mut marks,
        Mark::Fill { x: 0, y: 0, w: width, h: height, colour: p.background },
    );
    add_mark(
        &mut marks,
        Mark::Fill { x: 0, y: 0, w: width, h: 8 * scale + 24, colour: p.panel },
    );
    add_mark(
        &mut marks,
        Mark::Line { x: 24, y: 12, text: "NANOCHRONOMETER — STOPPED", colour: p.title, scale },
    );
    let mut y: u32 = 8 * scale + 60;
    add_mark(&mut marks, text_line(y, "The kernel stopped and cannot continue.", p.text));
    y += 34;
    add_mark(&mut marks, text_line(y, "It is waiting instead of restarting, so the", p.muted));
    y += 22;
    add_mark(&mut marks, text_line(y, "reason below is not lost to a reboot loop.", p.muted));
    y += 48;
    add_mark(&mut marks, text_line(y, "REASON", p.accent));
    y += 26;
    let columns: u32 = (width - 48) / 16;
    let columns: usize = if columns > 16 {
        columns as usize
    } else {
        16
    };
    proof {
        labels_are_short();
    }
    let chunks: Vec<&str> = draw::wrap(reason, columns);
    let mut i: usize = 0;
    while i < chunks.len() && y < height
        invariant
            i <= chunks@.len(),
            i <= reason_room(width as int, height as int),
            height <= i32::MAX,
            columns == reason_columns(width as int),
            48 <= width <= i32::MAX,
            scale == title_scale(width as int),
            y == 8 * scale + 190 + 20 * i,
            chunks@.len() == lines(reason@, columns as int).len(),
            forall|k: int|
                0 <= k < chunks@.len() ==> (#[trigger] chunks@[k])@ == lines(
                    reason@,
                    columns as int,
                )[k],
            marks_view(marks@) == reason_marks(
                width as int,
                height as int,
                reason@,
                *p,
                i as int,
            ),
            all_plain(marks_view(marks@)),
        decreases chunks@.len() - i,
    {
        add_mark(&mut marks, text_line(y, chunks[i], p.text));
        y += 20;
        i += 1;
    }
    let by: u32 = height.saturating_sub(96);
    add_mark(
        &mut marks,
        Mark::Button {
            x: width.saturating_sub(580),
            y: by,
            w: 260,
            h: 56,
            text: "[R]  RESTART",
        },
    );
    add_mark(
        &mut marks,
        Mark::Button {
            x: width.saturating_sub(290),
            y: by,
            w: 260,
            h: 56,
            text: "[S]  SHUT DOWN",
        },
    );
    if !tables {
        add_mark(
            &mut marks,
            text_line(by + 20, "no ACPI tables found; using fallbacks", p.muted),
        );
    }
    marks
}

/// Draws the stop screen.
pub fn graphical(fb: &mut Framebuffer, font: &Font, reason: &str, tables: bool)
    requires
        old(fb).drawable(),
        font.wf(),
        48 <= old(fb).width <= i32::MAX,
        old(fb).height <= i32::MAX,
    ensures
        final(fb).drawable(),
        final(fb).same_surface(*old(fb)),
        final(fb).same_padding(*old(fb)),
        ({
            let marks = stop_marks(
                old(fb).width as int,
                old(fb).height as int,
                reason@,
                tables,
                stop_colours(),
            );
            forall|u: int, v: int|
                final(fb).on_surface(u, v) ==> #[trigger] final(fb).pixel(u, v) == layered(
                    marks,
                    *font,
                    stop_colours(),
                    *old(fb),
                    marks.len() as int,
                    u,
                    v,
                )
        }),
{
    let p = Palette::stop();
    let marks: Vec<Mark<&str>> = stop_screen(fb.width, fb.height, reason, tables, &p);
    proof {
        assert forall|i: int| 0 <= i < marks@.len() implies mark_fits(
            (#[trigger] marks_view(marks@)[i]),
            *font,
            fb.width as int,
        ) by {
            plain_marks_fit(marks_view(marks@)[i], *font, fb.width as int);
        }
    }
    paint(fb, font, &p, &marks);
}

/// Whatever the screen held, a pixel of the stop screen does not depend on
/// it: the first mark covers everything.
pub proof fn nothing_shows_through(
    marks: Seq<Mark<Seq<u8>>>,
    font: Font,
    p: Palette,
    before: Framebuffer,
    other: Framebuffer,
    n: int,
    u: int,
    v: int,
)
    requires
        0 < n <= marks.len(),
        before.width == other.width,
        before.height == other.height,
        before.bytes_per_pixel == other.bytes_per_pixel,
        before.on_surface(u, v),
        marks[0] == (Mark::<Seq<u8>>::Fill {
            x: 0,
            y: 0,
            w: before.width,
            h: before.height,
            colour: p.background,
        }),
    ensures
        layered(marks, font, p, before, n, u, v) == layered(marks, font, p, other, n, u, v),
    decreases n,
{
    if n > 1 {
        nothing_shows_through(marks, font, p, before, other, n - 1, u, v);
    } else {
        assert(rectangle(0, 0, before.width as int, before.height as int)(u, v));
    }
}

// ---------------------------------------------------------------------------
// The choice
// ---------------------------------------------------------------------------

/// What is said over the serial port where there is no graphics mode.
pub open spec fn stopped_text() -> Seq<u8> {
    (((seq![10u8] + utf8("=== STOPPED ===")).push(10u8) + utf8(
        "No graphics mode; not restarting.",
    )).push(10u8) + utf8("  R = restart      S = shut down")).push(10u8)
}

/// Offers the same choice over the serial port, which has already carried the
/// reason.
pub fn serial_only() -> (r: Log)
    ensures
        r@ == stopped_text(),
{
    let mut log = Log::new();
    log.end();
    assert(log@ =~= seq![10u8]);
    log.str("=== STOPPED ===").end();
    log.str("No graphics mode; not restarting.").end();
    log.str("  R = restart      S = shut down").end();
    log
}

/// What the operator chose.
#[derive(Debug, Clone, Copy, PartialEq, Eq, Structural)]
pub enum Choice {
    Restart,
    ShutDown,
}

impl Choice {
    /// What is said before it is done.
    pub open spec fn words(self) -> Seq<char> {
        match self {
            Choice::Restart => "restarting"@,
            Choice::ShutDown => "shutting down"@,
        }
    }

    pub fn announcement(self) -> (r: &'static str)
        ensures
            r@ == self.words(),
    {
        match self {
            Choice::Restart => "restarting",
            Choice::ShutDown => "shutting down",
        }
    }
}

/// What is said once every way of switching off has come back.
pub fn shutdown_failed() -> (r: &'static str)
    ensures
        r@ == "shutdown failed: no method this platform answers"@,
{
    "shutdown failed: no method this platform answers"
}

/// Whether the controller's status says a byte is waiting.
pub open spec fn is_waiting(status: u8) -> bool {
    status % 2 == 1
}

pub fn byte_waiting(status: u8) -> (r: bool)
    ensures
        r == is_waiting(status),
{
    status % 2 == 1
}

/// What a scancode chooses. A key that is let go has the high bit set, so only
/// presses count.
pub fn wait_for_choice(code: u8) -> (r: Option<Choice>)
    ensures
        r == chosen(code),
{
    if code == SCAN_R {
        Some(Choice::Restart)
    } else if code == SCAN_S {
        Some(Choice::ShutDown)
    } else {
        None
    }
}

pub open spec fn chosen(code: u8) -> Option<Choice> {
    if code == SCAN_R {
        Some(Choice::Restart)
    } else if code == SCAN_S {
        Some(Choice::ShutDown)
    } else {
        None
    }
}

/// Letting a key go chooses nothing.
pub proof fn a_release_chooses_nothing(code: u8)
    requires
        code >= 0x80,
    ensures
        chosen(code) is None,
{
}

/// R restarts and S switches off, by the codes their keys have; no other key
/// does anything.
pub proof fn what_a_key_chooses(code: u8)
    ensures
        code == 0x13 ==> chosen(code) == Some(Choice::Restart),
        code == 0x1F ==> chosen(code) == Some(Choice::ShutDown),
        code != 0x13 && code != 0x1F ==> chosen(code) is None,
{
}

/// The screen is covered first, then come the band with the title, larger on a
/// wide screen, and the four lines of explanation below it.
pub proof fn the_screen_says_it_stopped(width: int, height: int, p: Palette)
    requires
        0 <= width <= u32::MAX,
        0 <= height <= u32::MAX,
    ensures
        ({
            let marks = heading_marks(width, height, p);
            let scale = if width >= 1280 {
                3int
            } else {
                2
            };
            &&& marks.len() == 7
            &&& (marks[0] matches Mark::Fill { x, y, w, h, colour } && x == 0 && y == 0 && w == width
                && h == height && colour == p.background)
            &&& (marks[1] matches Mark::Fill { x, y, w, h, colour } && x == 0 && y == 0 && w == width
                && h == 8 * scale + 24 && colour == p.panel)
            &&& (marks[2] matches Mark::Line { x, y, text, colour, scale: size } && x == 24 && y
                == 12 && size == scale && colour == p.title && text == utf8(
                "NANOCHRONOMETER — STOPPED",
            ))
            &&& marks[3] == line(
                8 * scale + 60,
                utf8("The kernel stopped and cannot continue."),
                p.text,
            )
            &&& marks[6] == line(8 * scale + 164, utf8("REASON"), p.accent)
        }),
{
}

/// The reason is below its heading, line after line at twenty pixels, in the
/// order it was wrapped, as many of them as start on the screen; the width of a
/// line is what fits between the margins, and sixteen characters at the least.
pub proof fn the_reason_is_shown(width: int, height: int, reason: Seq<char>, p: Palette, n: int)
    requires
        0 <= n,
    ensures
        ({
            let scale = if width >= 1280 {
                3int
            } else {
                2
            };
            let next = reason_marks(width, height, reason, p, n + 1);
            &&& next.len() == reason_marks(width, height, reason, p, n).len() + 1
            &&& next.drop_last() == reason_marks(width, height, reason, p, n)
            &&& next.last() == line(
                8 * scale + 190 + 20 * n,
                vstd::utf8::encode_utf8(lines(reason, reason_columns(width))[n]),
                p.text,
            )
        }),
        reason_marks(width, height, reason, p, 0) == heading_marks(width, height, p),
        width >= 48 + 16 * 16 ==> 16 * reason_columns(width) <= width - 48 < 16 * (reason_columns(
            width,
        ) + 1),
        width < 48 + 16 * 16 ==> reason_columns(width) == 16,
{
    assert(reason_marks(width, height, reason, p, n + 1).drop_last() =~= reason_marks(
        width,
        height,
        reason,
        p,
        n,
    ));
}

/// Every line of the reason that starts on the screen is shown, and none that
/// does not.
pub proof fn what_starts_on_the_screen_is_shown(
    width: int,
    height: int,
    reason: Seq<char>,
    i: int,
)
    requires
        0 <= i < lines(reason, reason_columns(width)).len(),
    ensures
        ({
            let scale = if width >= 1280 {
                3int
            } else {
                2
            };
            i < reason_lines(width, height, reason) <==> 8 * scale + 190 + 20 * i < height
        }),
        reason_lines(width, height, reason) <= lines(reason, reason_columns(width)).len(),
{
}

/// The two controls come last, side by side at the bottom right, each 260 by 56:
/// restart on the left and shut down on the right of it, thirty pixels from the
/// edge and from one another. That there are no tables is said only where there
/// are none.
pub proof fn the_controls_are_in_their_corner(
    width: int,
    height: int,
    reason: Seq<char>,
    tables: bool,
    p: Palette,
)
    requires
        580 <= width <= u32::MAX,
        96 <= height <= u32::MAX,
    ensures
        ({
            let marks = stop_marks(width, height, reason, tables, p);
            let said = reason_marks(
                width,
                height,
                reason,
                p,
                reason_lines(width, height, reason),
            );
            let n = said.len() as int;
            &&& marks.len() == n + if tables {
                2int
            } else {
                3
            }
            &&& marks.take(n) == said
            &&& (marks[n] matches Mark::Button { x, y, w, h, text } && x + w == width - 320 && y
                == height - 96 && w == 260 && h == 56 && text == utf8("[R]  RESTART"))
            &&& (marks[n + 1] matches Mark::Button { x, y, w, h, text } && x + w == width - 30 && y
                == height - 96 && w == 260 && h == 56 && text == utf8("[S]  SHUT DOWN"))
            &&& !tables ==> marks[n + 2] == line(
                height - 76,
                utf8("no ACPI tables found; using fallbacks"),
                p.muted,
            )
        }),
{
    let said = reason_marks(width, height, reason, p, reason_lines(width, height, reason));
    assert(stop_marks(width, height, reason, tables, p).take(said.len() as int) =~= said);
}

/// A mark covers what is under it only where it has something to show, in the
/// colour it has it in; marks later in the list are over earlier ones.
pub proof fn marks_are_over_one_another(
    marks: Seq<Mark<Seq<u8>>>,
    font: Font,
    p: Palette,
    before: Framebuffer,
    n: int,
    u: int,
    v: int,
)
    requires
        0 <= n < marks.len(),
    ensures
        layered(marks, font, p, before, 0, u, v) == before.pixel(u, v),
        ({
            let under = layered(marks, font, p, before, n, u, v);
            let shown = layered(marks, font, p, before, n + 1, u, v);
            let depth = before.bytes_per_pixel as int;
            match marks[n] {
                Mark::Fill { x, y, w, h, colour } => if x <= u < x + w && y <= v < y + h {
                    shown == stored(colour, depth)
                } else {
                    shown == under
                },
                Mark::Line { x, y, text, colour, scale } => if draw::in_text(
                    font,
                    text,
                    x as int,
                    y as int,
                    scale as int,
                    before.width as int,
                    text.len() as int,
                    u,
                    v,
                ) {
                    shown == stored(colour, depth)
                } else {
                    shown == under
                },
                Mark::Button { x, y, w, h, .. } => !(x <= u < x + w && y <= v < y + h) ==> shown
                    == under || shown == stored(p.title, depth),
            }
        }),
{
}

/// The lowest bit of the status says whether a byte is waiting, and no other bit
/// has a say.
pub proof fn the_lowest_bit_says_what_waits(status: u8)
    ensures
        is_waiting(status) <==> status & 0x01 != 0,
        is_waiting(status) <==> is_waiting(status ^ 0xFE),
{
    assert((status & 0x01 != 0) <==> status % 2 == 1) by (bit_vector);
    assert((status ^ 0xFE) % 2 == status % 2) by (bit_vector);
}

/// Over the serial port the same two keys are offered as on the screen, under a
/// line that says that the machine has stopped, and every line is ended; what was
/// chosen is said before it is done.
pub proof fn the_choice_is_offered_in_words()
    ensures
        stopped_text() == seq![10u8] + utf8("=== STOPPED ===") + seq![10u8] + utf8(
            "No graphics mode; not restarting.",
        ) + seq![10u8] + utf8("  R = restart      S = shut down") + seq![10u8],
        Choice::Restart.words() == "restarting"@,
        Choice::ShutDown.words() == "shutting down"@,
{
    assert(stopped_text() =~= seq![10u8] + utf8("=== STOPPED ===") + seq![10u8] + utf8(
        "No graphics mode; not restarting.",
    ) + seq![10u8] + utf8("  R = restart      S = shut down") + seq![10u8]);
}

} // verus!
