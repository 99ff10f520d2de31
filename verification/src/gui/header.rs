//! The title bar: identity on the left, the live clock, and restart and shut
//! down on the right.

use crate::gui::canvas::{printed, Canvas, Drawn, FaceId, Ink, Op, Tone, Typeface, MAX_TEXT};
use crate::gui::layout::{less, rest, smaller, Layout, Precision};
use crate::gui::motion::{clamp, held, lit, lit_of, Control, Ease, Hitbox};
use crate::gui::rows::Machine;
use crate::gui::state::{is_button, State, Ui};
use crate::gui::watch::Clock;
use crate::text;
use crate::text::{clip, duration_text, group_clip, shown, utf8, Text};
use vstd::prelude::*;

verus! {

/// How long the labels measured here are.
proof fn labels_are_short()
    ensures
        utf8("NanoChrono").len() == 10,
        utf8(" v").len() == 2,
        utf8("00:00:00:000:000:000 RTC").len() == 24,
        utf8("|").len() == 1,
        utf8("INVARIANT").len() == 9,
        utf8("COUNTER").len() == 7,
{
    broadcast use vstd::utf8::is_ascii_chars_encode_utf8;

    reveal_strlit("NanoChrono");
    reveal_strlit(" v");
    reveal_strlit("00:00:00:000:000:000 RTC");
    reveal_strlit("|");
    reveal_strlit("INVARIANT");
    reveal_strlit("COUNTER");
    assert(vstd::utf8::is_ascii_chars("NanoChrono"@));
    assert(vstd::utf8::is_ascii_chars(" v"@));
    assert(vstd::utf8::is_ascii_chars("00:00:00:000:000:000 RTC"@));
    assert(vstd::utf8::is_ascii_chars("|"@));
    assert(vstd::utf8::is_ascii_chars("INVARIANT"@));
    assert(vstd::utf8::is_ascii_chars("COUNTER"@));
}

/// Where the live clock sits in the header, so only that box is repainted.
/// Wide enough for the longest form, suffix and all.
pub open spec fn clock_box(layout: Layout, faces: Typeface, version: Seq<u8>) -> Hitbox {
    let x = layout.margin + layout.header_h * 2 / 3 + 12 + less(
        faces.title.width(utf8("NanoChrono")) as int,
        (layout.width / 3) as int,
    ) + faces.body.width(utf8(" v")) + faces.body.width(version) + 26;
    let w = faces.body.width(utf8("00:00:00:000:000:000 RTC")) + 12;
    Hitbox {
        x: x as u32,
        y: (rest(layout.header_h as int, faces.body.line_height as int) / 2) as u32,
        w: less(w as int, rest(layout.width as int, x)) as u32,
        h: faces.body.line_height as u32,
    }
}

pub fn header_clock_box(layout: &Layout, faces: &Typeface, version: &str) -> (r: Hitbox)
    requires
        layout.wf(),
        utf8(version).len() <= MAX_TEXT,
    ensures
        r == clock_box(*layout, *faces, utf8(version)),
        r.x <= 1_000_000_000,
        r.w <= 6_132,
        r.w > 0 ==> r.x + r.w <= layout.width,
{
    proof {
        labels_are_short();
    }
    let logo: u32 = layout.header_h * 2 / 3;
    let x: u32 = layout.margin + logo + 12 + smaller(
        faces.title.width_of("NanoChrono"),
        layout.width / 3,
    ) + (faces.body.width_of(" v") + faces.body.width_of(version) + 26);
    let w: u32 = faces.body.width_of("00:00:00:000:000:000 RTC") + 12;
    Hitbox {
        x,
        y: layout.header_h.saturating_sub(faces.body.line_height as u32) / 2,
        w: smaller(w, layout.width.saturating_sub(x)),
        h: faces.body.line_height as u32,
    }
}

// ---------------------------------------------------------------------------
// The buttons
// ---------------------------------------------------------------------------

/// A circular arrow: a ring, and a head at its open end.
pub open spec fn restart_glyph(x: int, y: int, ink: Ink) -> Seq<Drawn> {
    seq![
        Op::RestartRing { x: x as u32, y: y as u32, ink },
        Op::Fill { x: (x + 4) as u32, y: (y - 11) as u32, w: 8, h: 2, ink },
        Op::Fill { x: (x + 10) as u32, y: (y - 11) as u32, w: 2, h: 8, ink },
    ]
}

/// A circular arrow: restart.
pub fn glyph_restart(x: u32, y: u32, ink: Ink) -> (r: Canvas)
    requires
        11 <= y,
        x <= i32::MAX,
    ensures
        r@ == restart_glyph(x as int, y as int, ink),
{
    let mut canvas = Canvas::new();
    canvas.push(Op::RestartRing { x, y, ink });
    canvas.fill(x + 4, y - 11, 8, 2, ink);
    canvas.fill(x + 10, y - 11, 2, 8, ink);
    canvas
}

/// A power symbol: a broken ring with a stem.
pub open spec fn power_glyph(x: int, y: int, ink: Ink) -> Seq<Drawn> {
    seq![
        Op::PowerRing { x: x as u32, y: y as u32, ink },
        Op::Fill { x: (x - 1) as u32, y: (y - 12) as u32, w: 2, h: 11, ink },
    ]
}

pub fn glyph_power(x: u32, y: u32, ink: Ink) -> (r: Canvas)
    requires
        12 <= y,
        1 <= x,
    ensures
        r@ == power_glyph(x as int, y as int, ink),
{
    let mut canvas = Canvas::new();
    canvas.push(Op::PowerRing { x, y, ink });
    canvas.fill(x - 1, y - 12, 2, 11, ink);
    canvas
}

/// One title-bar button at its current highlight; nothing while it is
/// nowhere.
pub open spec fn button_picture(control: Control, danger: bool) -> Seq<Drawn> {
    let b = control.box_;
    let (x, y) = (b.x + b.w / 2, b.y + b.h / 2);
    let tone = if danger {
        Tone::Danger
    } else {
        Tone::Accent
    };
    let edge = if danger {
        Tone::Danger
    } else {
        Tone::ButtonEdge
    };
    if b.w == 0 {
        seq![]
    } else {
        seq![
            Op::Rounded {
                x: b.x,
                y: b.y,
                w: b.w,
                h: b.h,
                r: 10,
                ink: Ink::Mix {
                    from: Tone::Button,
                    to: tone,
                    permille: (lit_of(control.highlight) / 3) as u32,
                },
            },
            Op::RoundedOutline { x: b.x, y: b.y, w: b.w, h: b.h, r: 10, ink: Ink::Flat(edge) },
        ] + if danger {
            power_glyph(x as int, y as int, Ink::Flat(Tone::Danger))
        } else {
            restart_glyph(x as int, y as int, Ink::Flat(Tone::Title))
        }
    }
}

fn header_button(control: &Control, danger: bool) -> (r: Canvas)
    requires
        is_button(control.box_),
    ensures
        r@ == button_picture(*control, danger),
{
    let b = control.box_;
    let mut canvas = Canvas::new();
    if b.w == 0 {
        return canvas;
    }
    let tone: Tone = if danger {
        Tone::Danger
    } else {
        Tone::Accent
    };
    let edge: Tone = if danger {
        Tone::Danger
    } else {
        Tone::ButtonEdge
    };
    let ink = Ink::Mix { from: Tone::Button, to: tone, permille: lit(&control.highlight) / 3 };
    canvas.push(Op::Rounded { x: b.x, y: b.y, w: b.w, h: b.h, r: 10, ink });
    canvas.push(
        Op::RoundedOutline { x: b.x, y: b.y, w: b.w, h: b.h, r: 10, ink: Ink::Flat(edge) },
    );
    let (x, y): (u32, u32) = (b.x + b.w / 2, b.y + b.h / 2);
    if danger {
        canvas.append(glyph_power(x, y, Ink::Flat(Tone::Danger)));
    } else {
        canvas.append(glyph_restart(x, y, Ink::Flat(Tone::Title)));
    }
    canvas
}

/// The two title-bar buttons at their current highlight.
pub open spec fn buttons_picture(restart: Control, shutdown: Control) -> Seq<Drawn> {
    button_picture(restart, false) + button_picture(shutdown, true)
}

pub fn header_buttons(ui: &Ui) -> (r: Canvas)
    requires
        ui@.wf(),
    ensures
        r@ == buttons_picture(ui.restart, ui.shutdown),
{
    let mut canvas = header_button(&ui.restart, false);
    canvas.append(header_button(&ui.shutdown, true));
    canvas
}

/// Where the shutdown button goes, and the restart button beside it.
pub open spec fn shutdown_box(layout: Layout) -> Hitbox {
    let h = layout.header_h as int;
    let (bw, bh) = (held(h * 5 / 4, 40, 64), held(h * 3 / 5, 26, 44));
    Hitbox {
        x: rest(layout.width as int, bw + layout.margin) as u32,
        y: ((h - bh) / 2) as u32,
        w: bw as u32,
        h: bh as u32,
    }
}

pub open spec fn restart_box(layout: Layout) -> Hitbox {
    let off = shutdown_box(layout);
    Hitbox { x: rest(off.x as int, off.w + 10) as u32, ..off }
}

/// On a screen wide enough for both, the two buttons are in the header, apart
/// from each other and inside the margin.
pub proof fn buttons_do_not_overlap(layout: Layout)
    requires
        layout.wf(),
        layout.width >= 200,
    ensures
        ({
            let (a, b) = (restart_box(layout), shutdown_box(layout));
            &&& a.x + a.w + 10 == b.x
            &&& b.x + b.w + layout.margin == layout.width
            &&& a.y + a.h <= layout.header_h && b.y + b.h <= layout.header_h
            &&& is_button(a) && is_button(b)
        }),
{
}

// ---------------------------------------------------------------------------
// The header itself
// ---------------------------------------------------------------------------

/// The mark, the name and the version. The mark is a disc with the
/// application's initial, plotted rather than decoded.
pub open spec fn identity_picture(layout: Layout, faces: Typeface, version: Seq<u8>) -> Seq<
    Drawn,
> {
    let h = layout.header_h as int;
    let logo = h * 2 / 3;
    let cx = (layout.margin + logo / 2) as u32;
    let cy = (h / 2) as u32;
    let x = layout.margin + logo + 12;
    let small_y = rest(h, faces.body.line_height as int) / 2;
    seq![
        Op::Gradient {
            x: 0,
            y: 0,
            w: layout.width,
            h: layout.header_h,
            from: Tone::HeaderFrom,
            to: Tone::HeaderTo,
        },
        Op::Fill {
            x: 0,
            y: (h - 1) as u32,
            w: layout.width,
            h: 1,
            ink: Ink::Flat(Tone::Divider),
        },
        Op::Disc { x: cx, y: cy, r: (logo / 2) as u32, ink: Ink::Flat(Tone::Accent) },
        Op::Disc { x: cx, y: cy, r: (logo / 2 - 2) as u32, ink: Ink::Flat(Tone::HeaderFrom) },
        Op::Centred {
            face: FaceId::Body,
            x: layout.margin,
            w: logo as u32,
            y: (h / 2 - faces.body.line_height / 2) as u32,
            text: utf8("N"),
            ink: Ink::Flat(Tone::Accent),
        },
        Op::Text {
            face: FaceId::Title,
            x: x as u32,
            y: (rest(h, faces.title.line_height as int) / 2) as u32,
            text: utf8("NanoChrono"),
            ink: Ink::Flat(Tone::Title),
        },
        Op::Text {
            face: FaceId::Body,
            x: (x + faces.title.width(utf8("NanoChrono")) + 10) as u32,
            y: small_y as u32,
            text: printed(clip(utf8("v") + version, 16)),
            ink: Ink::Flat(Tone::Muted),
        },
    ]
}

fn identity(layout: &Layout, faces: &Typeface, version: &str) -> (r: Canvas)
    requires
        layout.wf(),
        faces.body.line_height / 2 <= layout.header_h / 2,
    ensures
        r@ == identity_picture(*layout, *faces, utf8(version)),
{
    broadcast use group_clip;

    proof {
        labels_are_short();
    }
    let h: u32 = layout.header_h;
    let logo: u32 = h * 2 / 3;
    let cx: u32 = layout.margin + logo / 2;
    let cy: u32 = h / 2;
    let x: u32 = layout.margin + logo + 12;
    let mut canvas = Canvas::new();
    canvas.push(
        Op::Gradient {
            x: 0,
            y: 0,
            w: layout.width,
            h,
            from: Tone::HeaderFrom,
            to: Tone::HeaderTo,
        },
    );
    canvas.fill(0, h - 1, layout.width, 1, Ink::Flat(Tone::Divider));
    canvas.push(Op::Disc { x: cx, y: cy, r: logo / 2, ink: Ink::Flat(Tone::Accent) });
    canvas.push(Op::Disc { x: cx, y: cy, r: logo / 2 - 2, ink: Ink::Flat(Tone::HeaderFrom) });
    canvas.centred(
        FaceId::Body,
        layout.margin,
        logo,
        cy - faces.body.line_height as u32 / 2,
        "N",
        Ink::Flat(Tone::Accent),
    );
    canvas.text(
        FaceId::Title,
        x,
        h.saturating_sub(faces.title.line_height as u32) / 2,
        "NanoChrono",
        Ink::Flat(Tone::Title),
    );
    let mut label: Text<16> = Text::new();
    label.str("v").str(version);
    canvas.text(
        FaceId::Body,
        x + faces.title.width_of("NanoChrono") + 10,
        h.saturating_sub(faces.body.line_height as u32) / 2,
        label.as_str(),
        Ink::Flat(Tone::Muted),
    );
    canvas
}

/// What the counter is called.
pub open spec fn counter_label(invariant: bool) -> Seq<u8> {
    if invariant {
        utf8("INVARIANT")
    } else {
        utf8("COUNTER")
    }
}

/// The identity, and after the live clock's box what the SIMD backend and the
/// counter are, each where it ends before the middle.
pub open spec fn captions_picture(
    layout: Layout,
    faces: Typeface,
    machine: Machine,
    version: Seq<u8>,
) -> Seq<Drawn> {
    let y = (rest(layout.header_h as int, faces.body.line_height as int) / 2) as u32;
    let half = (layout.width / 2) as int;
    let clock = clock_box(layout, faces, version);
    let pen = clock.x + clock.w + 18;
    let simd = utf8(machine.backend);
    let bar = pen + faces.body.width(simd) + 14;
    let named = pen + faces.body.width(simd) < half;
    let first = if named {
        identity_picture(layout, faces, version).push(
            Op::Text {
                face: FaceId::Body,
                x: pen as u32,
                y,
                text: simd,
                ink: Ink::Flat(Tone::Muted),
            },
        ).push(
            Op::Text {
                face: FaceId::Body,
                x: bar as u32,
                y,
                text: utf8("|"),
                ink: Ink::Flat(Tone::Divider),
            },
        )
    } else {
        identity_picture(layout, faces, version)
    };
    let after = if named {
        bar + faces.body.width(utf8("|")) + 14
    } else {
        pen
    };
    let counter = counter_label(machine.invariant_counter);
    if after + faces.body.width(counter) < half {
        first.push(
            Op::Text {
                face: FaceId::Body,
                x: after as u32,
                y,
                text: counter,
                ink: Ink::Flat(Tone::Accent),
            },
        )
    } else {
        first
    }
}

fn captions(layout: &Layout, faces: &Typeface, machine: &Machine, version: &str) -> (r: Canvas)
    requires
        layout.wf(),
        faces.body.line_height / 2 <= layout.header_h / 2,
        utf8(version).len() <= MAX_TEXT,
        utf8(machine.backend).len() <= MAX_TEXT,
    ensures
        r@ == captions_picture(*layout, *faces, *machine, utf8(version)),
{
    proof {
        labels_are_short();
    }
    let mut canvas = identity(layout, faces, version);
    let small_y: u32 = layout.header_h.saturating_sub(faces.body.line_height as u32) / 2;
    let clock: Hitbox = header_clock_box(layout, faces, version);
    let mut pen: u32 = clock.x + clock.w + 18;
    let simd_w: u32 = faces.body.width_of(machine.backend);
    if pen + simd_w < layout.width / 2 {
        canvas.text(FaceId::Body, pen, small_y, machine.backend, Ink::Flat(Tone::Muted));
        pen = pen + simd_w + 14;
        canvas.text(FaceId::Body, pen, small_y, "|", Ink::Flat(Tone::Divider));
        pen = pen + faces.body.width_of("|") + 14;
    }
    let counter: &str = if machine.invariant_counter {
        "INVARIANT"
    } else {
        "COUNTER"
    };
    if pen + faces.body.width_of(counter) < layout.width / 2 {
        canvas.text(FaceId::Body, pen, small_y, counter, Ink::Flat(Tone::Accent));
    }
    canvas
}

/// Everything in the header but the live clock.
pub open spec fn header_picture(
    layout: Layout,
    faces: Typeface,
    machine: Machine,
    version: Seq<u8>,
    restart: Control,
    shutdown: Control,
) -> Seq<Drawn> {
    captions_picture(layout, faces, machine, version) + buttons_picture(restart, shutdown)
}

/// The interface once the header has been laid out: the two buttons placed.
pub open spec fn with_buttons(state: State, layout: Layout) -> State {
    State {
        restart: Control { box_: restart_box(layout), ..state.restart },
        shutdown: Control { box_: shutdown_box(layout), ..state.shutdown },
        ..state
    }
}

/// The title bar. Where a desktop window puts minimise and close stand
/// restart and shut down: there is no window manager to minimise into and
/// nothing to close to.
pub fn header(
    layout: &Layout,
    faces: &Typeface,
    ui: &mut Ui,
    machine: &Machine,
    version: &str,
) -> (r: Canvas)
    requires
        layout.wf(),
        old(ui)@.wf(),
        faces.body.line_height / 2 <= layout.header_h / 2,
        utf8(version).len() <= MAX_TEXT,
        utf8(machine.backend).len() <= MAX_TEXT,
    ensures
        final(ui)@.wf(),
        final(ui)@ == with_buttons(old(ui)@, *layout),
        r@ == header_picture(
            *layout,
            *faces,
            *machine,
            utf8(version),
            final(ui)@.restart,
            final(ui)@.shutdown,
        ),
{
    let mut canvas = captions(layout, faces, machine, version);
    let h: u32 = layout.header_h;
    let bw: u32 = clamp(h * 5 / 4, 40, 64);
    let bh: u32 = clamp(h * 3 / 5, 26, 44);
    let by: u32 = (h - bh) / 2;
    let off_x: u32 = layout.width.saturating_sub(bw + layout.margin);
    let restart_x: u32 = off_x.saturating_sub(bw + 10);
    ui.restart.box_ = Hitbox { x: restart_x, y: by, w: bw, h: bh };
    ui.shutdown.box_ = Hitbox { x: off_x, y: by, w: bw, h: bh };
    canvas.append(header_buttons(ui));
    canvas
}

// ---------------------------------------------------------------------------
// The live clock
// ---------------------------------------------------------------------------

/// What the live clock says. The real-time clock is read exactly as the
/// firmware keeps it, and firmware is configured either way, so it is marked
/// rather than silently called one or the other.
pub open spec fn clock_label(wall_ns: Option<u64>, precision: Precision) -> Seq<u8> {
    match wall_ns {
        Some(ns) => clip(
            printed(clip(duration_text(ns as nat, precision.is_nano()), 24)) + utf8(" RTC"),
            24,
        ),
        None => clip(utf8("no rtc"), 24),
    }
}

fn clock_text(wall_ns: Option<u64>, precision: Precision) -> (r: Text<24>)
    ensures
        r@ == clock_label(wall_ns, precision),
{
    broadcast use group_clip;

    let mut label: Text<24> = Text::new();
    match wall_ns {
        Some(ns) => {
            label.str(text::duration(ns, precision.nanoseconds()).as_str());
            label.str(" RTC");
        },
        None => {
            label.str("no rtc");
        },
    }
    label
}

/// The header's own background under its box, one column at a time: the
/// header is a gradient, so filling it with either end would leave a visible
/// rectangle.
pub open spec fn strips(b: Hitbox, width: u32, n: int) -> Seq<Drawn>
    decreases n,
{
    if n <= 0 {
        seq![]
    } else {
        strips(b, width, n - 1).push(
            Op::Fill {
                x: (b.x + n - 1) as u32,
                y: b.y,
                w: 1,
                h: b.h,
                ink: Ink::Blend {
                    from: Tone::HeaderFrom,
                    to: Tone::HeaderTo,
                    part: ((b.x + n - 1) * 255 / width as int) as u8,
                },
            },
        )
    }
}

/// The interface once the live clock has been drawn: what it said is kept,
/// and the buttons have taken their step.
pub open spec fn clock_shown<F: Fn(i32, i32, i32) -> i32>(
    state: State,
    label: Seq<u8>,
    ease: Ease<F>,
) -> State {
    let (x, y) = (state.pointer_x as int, state.pointer_y as int);
    State {
        last_header_clock: clip(printed(label), 24),
        restart: state.restart.stepped(state.restart.box_.covers(x, y), false, ease),
        shutdown: state.shutdown.stepped(state.shutdown.box_.covers(x, y), false, ease),
        ..state
    }
}

/// The live clock, and the buttons where either of them moved.
pub open spec fn clock_picture(
    layout: Layout,
    faces: Typeface,
    version: Seq<u8>,
    label: Seq<u8>,
    before: State,
    after: State,
) -> Seq<Drawn> {
    let b = clock_box(layout, faces, version);
    let clock = strips(b, layout.width, b.w as int).push(
        Op::Text {
            face: FaceId::Body,
            x: b.x,
            y: b.y,
            text: printed(label),
            ink: Ink::Flat(Tone::Text),
        },
    );
    if after.restart.highlight.value != before.restart.highlight.value
        || after.shutdown.highlight.value != before.shutdown.highlight.value {
        clock + buttons_picture(after.restart, after.shutdown)
    } else {
        clock
    }
}

/// What the interface is once the live clock has had its turn: as it was
/// where the clock says what it said.
pub open spec fn clock_after<F: Fn(u64) -> u64, E: Fn(i32, i32, i32) -> i32>(
    state: State,
    clock: Clock<F>,
    ease: Ease<E>,
) -> State {
    let label = clock_label(clock.wall_ns, state.precision);
    if shown(label) == shown(state.last_header_clock) {
        state
    } else {
        clock_shown(state, label, ease)
    }
}

/// What is drawn in its turn.
pub open spec fn clock_drawn<F: Fn(u64) -> u64, E: Fn(i32, i32, i32) -> i32>(
    layout: Layout,
    faces: Typeface,
    version: Seq<u8>,
    state: State,
    clock: Clock<F>,
    ease: Ease<E>,
) -> Seq<Drawn> {
    let label = clock_label(clock.wall_ns, state.precision);
    if shown(label) == shown(state.last_header_clock) {
        seq![]
    } else {
        clock_picture(layout, faces, version, label, state, clock_shown(state, label, ease))
    }
}

/// Whether the box's columns can be told apart in the arithmetic their shades
/// are worked out in.
pub open spec fn shades_fit(b: Hitbox) -> bool {
    b.w > 0 ==> (b.x + b.w - 1) * 255 <= u32::MAX
}

/// Repaints just the live clock in the header, where what it says has
/// changed. The buttons share the repaint: a control that only lit up when
/// something else happened to redraw would respond a frame late.
pub fn header_clock<F: Fn(u64) -> u64, E: Fn(i32, i32, i32) -> i32>(
    layout: &Layout,
    faces: &Typeface,
    ui: &mut Ui,
    clock: &Clock<F>,
    ease: &Ease<E>,
    version: &str,
) -> (r: Canvas)
    requires
        layout.wf(),
        shades_fit(clock_box(*layout, *faces, utf8(version))),
        old(ui)@.wf(),
        ease.wf(),
        utf8(version).len() <= MAX_TEXT,
    ensures
        final(ui)@.wf(),
        final(ui)@ == clock_after(old(ui)@, *clock, *ease),
        r@ == clock_drawn(*layout, *faces, utf8(version), old(ui)@, *clock, *ease),
{
    broadcast use group_clip;

    let label: Text<24> = clock_text(clock.wall_ns, ui.precision);
    let mut canvas = Canvas::new();
    if text::same(label.as_str(), ui.last_header_clock.as_str()) {
        return canvas;
    }
    ui.last_header_clock.clear();
    ui.last_header_clock.str(label.as_str());
    let b: Hitbox = header_clock_box(layout, faces, version);
    let mut col: u32 = 0;
    while col < b.w
        invariant
            col <= b.w,
            b.w > 0 ==> b.x + b.w <= layout.width,
            shades_fit(b),
            canvas@ == strips(b, layout.width, col as int),
        decreases b.w - col,
    {
        let at: u32 = b.x + col;
        proof {
            assert(at * 255 / layout.width as int <= 255) by (nonlinear_arith)
                requires
                    at < layout.width,
            ;
        }
        let part: u8 = (at * 255 / layout.width) as u8;
        canvas.fill(
            at,
            b.y,
            1,
            b.h,
            Ink::Blend { from: Tone::HeaderFrom, to: Tone::HeaderTo, part },
        );
        col += 1;
    }
    canvas.text(FaceId::Body, b.x, b.y, label.as_str(), Ink::Flat(Tone::Text));
    let over_restart: bool = ui.restart.box_.contains(ui.pointer_x, ui.pointer_y);
    let over_shutdown: bool = ui.shutdown.box_.contains(ui.pointer_x, ui.pointer_y);
    let restart_moved: bool = ui.restart.step(over_restart, false, ease);
    let shutdown_moved: bool = ui.shutdown.step(over_shutdown, false, ease);
    if restart_moved || shutdown_moved {
        canvas.append(header_buttons(ui));
    }
    canvas
}

/// The live clock says the time of day, at the readout's precision and marked as
/// the real-time clock's, or that there is none. The time in it reads back.
pub proof fn the_clock_says_the_time(ns: u64, precision: Precision)
    requires
        ns < 360_000_000_000_000,
    ensures
        ({
            let label = clock_label(Some(ns), precision);
            let seconds = (text::number_in(label.take(2)) * 60 + text::number_in(
                label.subrange(3, 5),
            )) * 60 + text::number_in(label.subrange(6, 8));
            let milli = seconds * 1000 + text::number_in(label.subrange(9, 12));
            &&& label.len() >= 4 && label.skip(label.len() - 4) == utf8(" RTC")
            &&& precision == Precision::Simple ==> label.len() == 16 && milli == ns / 1_000_000
            &&& precision == Precision::Nano ==> label.len() == 24 && (milli * 1000
                + text::number_in(label.subrange(13, 16))) * 1000 + text::number_in(
                label.subrange(17, 20),
            ) == ns
        }),
        clock_label(None, precision) == utf8("no rtc"),
{
    reveal_strlit(" RTC");
    reveal_strlit("no rtc");
    assert(vstd::utf8::is_ascii_chars(" RTC"@));
    assert(vstd::utf8::is_ascii_chars("no rtc"@));
    vstd::utf8::is_ascii_chars_encode_utf8(" RTC"@);
    vstd::utf8::is_ascii_chars_encode_utf8("no rtc"@);
    text::duration_fits(ns as nat);
    text::figures_are_ascii(ns as nat, true);
    text::figures_are_ascii(ns as nat, false);
    text::ascii_is_shown_as_it_is(duration_text(ns as nat, true));
    text::ascii_is_shown_as_it_is(duration_text(ns as nat, false));
    text::a_duration_reads_back(ns as nat);
    text::a_duration_is_digits(ns as nat);
    let time = duration_text(ns as nat, true);
    let label = clock_label(Some(ns), precision);
    assert(label.take(2) =~= time.take(2));
    assert(label.subrange(3, 5) =~= time.subrange(3, 5));
    assert(label.subrange(6, 8) =~= time.subrange(6, 8));
    assert(label.subrange(9, 12) =~= time.subrange(9, 12));
    assert(label.skip(label.len() - 4) =~= utf8(" RTC"));
    if precision == Precision::Nano {
        assert(label.subrange(13, 16) =~= time.subrange(13, 16));
        assert(label.subrange(17, 20) =~= time.subrange(17, 20));
    }
}

/// The clock's box is after the mark, the name and the version, in the middle of
/// the header, and wide enough for the longest time unless the screen ends
/// first.
pub proof fn the_clock_has_its_box(layout: Layout, faces: Typeface, version: Seq<u8>)
    requires
        layout.wf(),
        version.len() <= MAX_TEXT,
    ensures
        ({
            let b = clock_box(layout, faces, version);
            let name = faces.title.width(utf8("NanoChrono"));
            let third = layout.width / 3;
            let tail = faces.body.width(utf8(" v")) + faces.body.width(version) + 26;
            let longest = faces.body.width(utf8("00:00:00:000:000:000 RTC")) + 12;
            &&& name <= third ==> b.x == layout.margin + layout.header_h * 2 / 3 + 12 + name + tail
            &&& name > third ==> b.x == layout.margin + layout.header_h * 2 / 3 + 12 + third + tail
            &&& b.x + longest <= layout.width ==> b.w == longest
            &&& b.x + longest > layout.width && b.x <= layout.width ==> b.x + b.w == layout.width
            &&& b.x > layout.width ==> b.w == 0
            &&& b.h == faces.body.line_height
            &&& faces.body.line_height <= layout.header_h ==> 0 <= (layout.header_h - b.y - b.h)
                - b.y <= 1
        }),
{
    labels_are_short();
    crate::gui::canvas::width_is_bounded(faces.body, utf8(" v"));
    crate::gui::canvas::width_is_bounded(faces.body, version);
    crate::gui::canvas::width_is_bounded(faces.title, utf8("NanoChrono"));
    crate::gui::canvas::width_is_bounded(faces.body, utf8("00:00:00:000:000:000 RTC"));
}

/// What is under the clock is the header's own gradient: a column for every pixel
/// of the box, in order, each as far along the gradient as it is along the
/// screen.
pub proof fn the_gradient_is_put_back(b: Hitbox, width: u32, n: int, i: int)
    requires
        0 <= i < n,
    ensures
        strips(b, width, n).len() == n,
        (strips(b, width, n)[i] matches Op::Fill { x, y, w, h, ink } && x == (b.x + i) as u32 && y
            == b.y && w == 1 && h == b.h && (ink matches Ink::Blend { from, to, part } && from
            == Tone::HeaderFrom && to == Tone::HeaderTo && part == ((b.x + i) * 255
            / width as int) as u8)),
    decreases n,
{
    if n > 1 {
        the_gradient_is_put_back(b, width, n - 1, 0);
    } else {
        assert(strips(b, width, 0).len() == 0);
    }
    if i < n - 1 {
        the_gradient_is_put_back(b, width, n - 1, i);
    }
}

/// The clock is left as it is exactly where it says what it said. Otherwise what
/// it says is remembered, the label stands in its box over the gradient, and the
/// buttons follow where either of them moved.
pub proof fn the_clock_is_drawn_when_it_changes<F: Fn(u64) -> u64, E: Fn(i32, i32, i32) -> i32>(
    layout: Layout,
    faces: Typeface,
    version: Seq<u8>,
    state: State,
    clock: Clock<F>,
    ease: Ease<E>,
)
    ensures
        ({
            let label = clock_label(clock.wall_ns, state.precision);
            let same = shown(label) == shown(state.last_header_clock);
            let after = clock_after(state, clock, ease);
            let ops = clock_drawn(layout, faces, version, state, clock, ease);
            let b = clock_box(layout, faces, version);
            let (x, y) = (state.pointer_x as int, state.pointer_y as int);
            let text = Op::<Seq<u8>>::Text {
                face: FaceId::Body,
                x: b.x,
                y: b.y,
                text: printed(label),
                ink: Ink::Flat(Tone::Text),
            };
            let clock_only = strips(b, layout.width, b.w as int).push(text);
            let moved = after.restart.highlight.value != state.restart.highlight.value
                || after.shutdown.highlight.value != state.shutdown.highlight.value;
            &&& same ==> ops.len() == 0 && after == state
            &&& !same ==> after.last_header_clock == clip(printed(label), 24)
            &&& !same && !moved ==> ops == clock_only
            &&& !same && moved ==> ops == clock_only + buttons_picture(
                after.restart,
                after.shutdown,
            )
            &&& !same ==> after.restart.highlight.value == ease.next(
                state.restart.highlight.value,
                if state.restart.box_.covers(x, y) {
                    420i32
                } else {
                    0i32
                },
                state.restart.highlight.rate,
            )
            &&& !same ==> after.shutdown.highlight.value == ease.next(
                state.shutdown.highlight.value,
                if state.shutdown.box_.covers(x, y) {
                    420i32
                } else {
                    0i32
                },
                state.shutdown.highlight.rate,
            )
            &&& after.watch == state.watch && after.timer == state.timer && after.tab == state.tab
        }),
{
}

/// A button is a third as lit as its highlight, in red where it is the one that
/// switches off, with its glyph in its middle; one that is nowhere is not drawn.
pub proof fn a_button_shows_what_it_does(control: Control, danger: bool)
    ensures
        ({
            let ops = button_picture(control, danger);
            let b = control.box_;
            let (x, y) = (b.x + b.w / 2, b.y + b.h / 2);
            &&& b.w == 0 ==> ops.len() == 0
            &&& b.w > 0 ==> (ops[0] matches Op::Rounded { x, y, w, h, ink, .. } && x == b.x && y
                == b.y && w == b.w && h == b.h && (ink matches Ink::Mix { from, to, permille }
                && from == Tone::Button && permille == lit_of(control.highlight) / 3 && (danger
                ==> to == Tone::Danger) && (!danger ==> to == Tone::Accent)))
            &&& b.w > 0 ==> (ops[1] matches Op::RoundedOutline { x, y, w, h, ink, .. } && x == b.x
                && y == b.y && w == b.w && h == b.h && (danger ==> ink == Ink::Flat(Tone::Danger))
                && (!danger ==> ink == Ink::Flat(Tone::ButtonEdge)))
            &&& b.w > 0 && danger ==> ops.len() == 4 && (ops[2] matches Op::PowerRing {
                x: at,
                y: down,
                ink,
            } && at == x as u32 && down == y as u32 && ink == Ink::Flat(Tone::Danger))
            &&& b.w > 0 && !danger ==> ops.len() == 5 && (ops[2] matches Op::RestartRing {
                x: at,
                y: down,
                ink,
            } && at == x as u32 && down == y as u32 && ink == Ink::Flat(Tone::Title))
        }),
        buttons_picture(control, Control::dark()) == button_picture(control, false),
        buttons_picture(Control::dark(), control) == button_picture(control, true),
{
    assert(button_picture(Control::dark(), true).len() == 0);
    assert(button_picture(Control::dark(), false).len() == 0);
    assert(buttons_picture(control, Control::dark()) =~= button_picture(control, false));
    assert(buttons_picture(Control::dark(), control) =~= button_picture(control, true));
}

/// The power glyph has a stem down to its middle, and the restart glyph a corner
/// at the open end of its ring.
pub proof fn glyphs_are_centred(x: int, y: int, ink: Ink)
    requires
        12 <= x <= i32::MAX,
        12 <= y <= i32::MAX,
    ensures
        power_glyph(x, y, ink).len() == 2,
        (power_glyph(x, y, ink)[1] matches Op::Fill { x: a, y: b, w, h, ink: i } && a + w / 2 == x
            && w == 2 && b + h + 1 == y && h == 11 && i == ink),
        restart_glyph(x, y, ink).len() == 3,
        (restart_glyph(x, y, ink)[1] matches Op::Fill { x: a, y: b, w, h, ink: i } && a == x + 4
            && a + w == x + 12 && b + 11 == y && h == 2 && i == ink),
        (restart_glyph(x, y, ink)[2] matches Op::Fill { x: a, y: b, w, h, ink: i } && a + w == x + 12
            && b + 11 == y && w == 2 && h == 8 && i == ink),
{
}

/// A button is five quarters as wide as the header is tall and three fifths as
/// tall, within bounds, and in its middle; both are of one size.
pub proof fn buttons_have_their_size(layout: Layout)
    requires
        layout.wf(),
    ensures
        ({
            let (a, b) = (restart_box(layout), shutdown_box(layout));
            let h = layout.header_h;
            &&& h < 52 ==> b.w == h * 5 / 4 || b.w == 40 && h * 5 / 4 < 40
            &&& h >= 52 ==> b.w == 64
            &&& h >= 44 ==> b.h == h * 3 / 5
            &&& h < 44 ==> b.h == 26
            &&& 0 <= (h - b.y - b.h) - b.y <= 1
            &&& a.w == b.w && a.h == b.h && a.y == b.y
        }),
{
}

/// The header starts with its gradient and a rule under it, the mark with its
/// initial, the name and the version; the buttons are laid where they go.
pub proof fn the_header_says_what_this_is(
    layout: Layout,
    faces: Typeface,
    machine: Machine,
    version: Seq<u8>,
    state: State,
)
    ensures
        ({
            let placed = with_buttons(state, layout);
            let ops = header_picture(
                layout,
                faces,
                machine,
                version,
                placed.restart,
                placed.shutdown,
            );
            let identity = identity_picture(layout, faces, version);
            &&& placed.restart.box_ == restart_box(layout)
            &&& placed.shutdown.box_ == shutdown_box(layout)
            &&& placed.restart.highlight == state.restart.highlight
            &&& placed.shutdown.highlight == state.shutdown.highlight
            &&& identity.len() == 7
            &&& forall|i: int| 0 <= i < 7 ==> #[trigger] ops[i] == identity[i]
            &&& (ops[0] matches Op::Gradient { x, y, w, h, from, to } && x == 0 && y == 0 && w
                == layout.width && h == layout.header_h && from == Tone::HeaderFrom && to
                == Tone::HeaderTo)
            &&& (ops[4] matches Op::Centred { x, w, text, .. } && text == utf8("N") && x
                == layout.margin && w == (layout.header_h * 2 / 3) as u32)
            &&& (ops[5] matches Op::Text { face, text, .. } && text == utf8("NanoChrono") && face
                == FaceId::Title)
            &&& (ops[6] matches Op::Text { face, text, .. } && text == printed(
                clip(utf8("v") + version, 16),
            ) && face == FaceId::Body)
        }),
{
}

/// After the clock the backend is named, where it ends before the middle, with a
/// bar after it, and the counter is called invariant exactly where it is.
pub proof fn the_header_names_the_backend(
    layout: Layout,
    faces: Typeface,
    machine: Machine,
    version: Seq<u8>,
)
    ensures
        ({
            let ops = captions_picture(layout, faces, machine, version);
            let clock = clock_box(layout, faces, version);
            let start = clock.x + clock.w + 18;
            let named = start + faces.body.width(utf8(machine.backend)) < layout.width / 2;
            let counter = if machine.invariant_counter {
                utf8("INVARIANT")
            } else {
                utf8("COUNTER")
            };
            let after = if named {
                start + faces.body.width(utf8(machine.backend)) + 14 + faces.body.width(utf8("|"))
                    + 14
            } else {
                start as int
            };
            let fits = after + faces.body.width(counter) < layout.width / 2;
            &&& ops.len() == 7 + (if named {
                2int
            } else {
                0
            }) + (if fits {
                1int
            } else {
                0
            })
            &&& named ==> (ops[7] matches Op::Text { x, text, ink, .. } && x == start as u32 && text
                == utf8(machine.backend) && ink == Ink::Flat(Tone::Muted))
            &&& named ==> (ops[8] matches Op::Text { text, .. } && text == utf8("|"))
            &&& fits ==> (ops.last() matches Op::Text { x, text, ink, .. } && x == after as u32
                && text == counter && ink == Ink::Flat(Tone::Accent))
        }),
{
}

} // verus!
