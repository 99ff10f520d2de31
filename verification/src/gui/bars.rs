//! The bars along the bottom: the key legend and the status readings.

use crate::gui::canvas::{printed, Canvas, Drawn, FaceId, Ink, Op, Tone, Typeface};
use crate::gui::layout::{rest, Layout};
use crate::gui::motion::{clamp, held, length, length_of, Ease, Tween};
use crate::gui::rows::{bytes_of, Machine};
use crate::gui::state::{State, Ui};
use crate::gui::watch::Clock;
use crate::hypervisor::signature_text;
use crate::input::Input;
use crate::text;
use crate::text::{bytes_text, clip, digits, frequency_text, group_clip, shown, utf8, Text};
use vstd::prelude::*;

verus! {

// ---------------------------------------------------------------------------
// The key legend
// ---------------------------------------------------------------------------

/// The legend's keys and what each does.
pub open spec fn hint(i: int) -> (Seq<u8>, Seq<u8>) {
    if i == 0 {
        (utf8("1-3"), utf8("Mode"))
    } else if i == 1 {
        (utf8("SPACE"), utf8("Start"))
    } else if i == 2 {
        (utf8("L"), utf8("Lap"))
    } else if i == 3 {
        (utf8("Z"), utf8("Zero"))
    } else if i == 4 {
        (utf8("N"), utf8("Precision"))
    } else if i == 5 {
        (utf8("TAB"), utf8("Panel"))
    } else if i == 6 {
        (utf8("R"), utf8("Restart"))
    } else {
        (utf8("S"), utf8("Shut down"))
    }
}

fn hint_at(i: usize) -> (r: (&'static str, &'static str))
    ensures
        utf8(r.0) == hint(i as int).0,
        utf8(r.1) == hint(i as int).1,
{
    if i == 0 {
        ("1-3", "Mode")
    } else if i == 1 {
        ("SPACE", "Start")
    } else if i == 2 {
        ("L", "Lap")
    } else if i == 3 {
        ("Z", "Zero")
    } else if i == 4 {
        ("N", "Precision")
    } else if i == 5 {
        ("TAB", "Panel")
    } else if i == 6 {
        ("R", "Restart")
    } else {
        ("S", "Shut down")
    }
}

/// A hint in full, and its bracketed key.
pub open spec fn hint_label(i: int) -> Seq<u8> {
    clip(utf8("[") + hint(i).0 + utf8("] ") + hint(i).1, 24)
}

pub open spec fn hint_key(i: int) -> Seq<u8> {
    clip(utf8("[") + hint(i).0 + utf8("]"), 12)
}

/// How wide a hint is.
pub open spec fn hint_w(faces: Typeface, i: int) -> int {
    faces.body.width(printed(hint_label(i))) as int
}

/// Where a hint starts, one after the other from the margin.
pub open spec fn hint_x(layout: Layout, faces: Typeface, n: int) -> int
    decreases n,
{
    if n <= 0 {
        layout.margin as int
    } else {
        hint_x(layout, faces, n - 1) + hint_w(faces, n - 1) + 22
    }
}

/// Whether the first `n` hints all end before the right margin.
pub open spec fn hints_fit(layout: Layout, faces: Typeface, n: int) -> bool
    decreases n,
{
    n <= 0 || hints_fit(layout, faces, n - 1) && hint_x(layout, faces, n - 1) + hint_w(
        faces,
        n - 1,
    ) + layout.margin <= layout.width
}

/// How tall the legend's row is, and where its text goes.
pub open spec fn hint_h(layout: Layout) -> int {
    rest(layout.status_y as int, layout.hint_y as int)
}

pub open spec fn hint_text_y(layout: Layout, faces: Typeface) -> int {
    layout.hint_y + rest(hint_h(layout), faces.body.line_height as int) / 2
}

/// The row's background.
pub open spec fn hint_background(layout: Layout) -> Seq<Drawn> {
    seq![
        Op::Fill {
            x: 0,
            y: layout.hint_y,
            w: layout.width,
            h: hint_h(layout) as u32,
            ink: Ink::Flat(Tone::Background),
        },
    ]
}

/// The first `n` hints, as far as they fit: laid out one at a time and
/// stopped when the row is full, rather than as one string that would run off
/// the edge on a narrow mode. The bracketed key in the accent and the action
/// muted, so the row scans as keys rather than as a sentence.
pub open spec fn hints_picture(layout: Layout, faces: Typeface, n: int) -> Seq<Drawn>
    decreases n,
{
    if n <= 0 {
        hint_background(layout)
    } else if !hints_fit(layout, faces, n) {
        hints_picture(layout, faces, n - 1)
    } else {
        let x = hint_x(layout, faces, n - 1);
        let y = hint_text_y(layout, faces) as u32;
        hints_picture(layout, faces, n - 1).push(
            Op::Text {
                face: FaceId::Body,
                x: x as u32,
                y,
                text: printed(hint_key(n - 1)),
                ink: Ink::Flat(Tone::Accent),
            },
        ).push(
            Op::Text {
                face: FaceId::Body,
                x: (x + faces.body.width(printed(hint_key(n - 1))) + faces.body.width(
                    utf8(" "),
                )) as u32,
                y,
                text: hint(n - 1).1,
                ink: Ink::Flat(Tone::Muted),
            },
        )
    }
}

/// Once one does not fit, none after it is drawn.
proof fn no_more_hints(layout: Layout, faces: Typeface, from: int, to: int)
    requires
        0 < from <= to,
        !hints_fit(layout, faces, from),
    ensures
        !hints_fit(layout, faces, to),
        hints_picture(layout, faces, to) == hints_picture(layout, faces, from - 1),
    decreases to - from,
{
    if from < to {
        no_more_hints(layout, faces, from, to - 1);
    }
}

/// The key legend, or, where a stack came up short, what happened instead. A
/// legend of keyboard shortcuts is worse than useless on a machine whose
/// keyboard did not come up.
pub open spec fn legend_picture(layout: Layout, faces: Typeface, state: State) -> Seq<Drawn> {
    match state.input_note {
        Some(note) => {
            let y = hint_text_y(layout, faces) as u32;
            hint_background(layout).push(
                Op::Text {
                    face: FaceId::Body,
                    x: layout.margin,
                    y,
                    text: utf8("INPUT"),
                    ink: Ink::Flat(Tone::Danger),
                },
            ).push(
                Op::Text {
                    face: FaceId::Body,
                    x: (layout.margin + faces.body.width(utf8("INPUT  "))) as u32,
                    y,
                    text: bytes_of(note),
                    ink: Ink::Flat(Tone::Text),
                },
            )
        },
        None => hints_picture(layout, faces, 8),
    }
}

/// How long the labels measured here are.
proof fn labels_are_short()
    ensures
        utf8("INPUT  ").len() == 7,
        utf8(" ").len() == 1,
        utf8("MEM").len() == 3,
        utf8("CPU").len() == 3,
{
    broadcast use vstd::utf8::is_ascii_chars_encode_utf8;

    reveal_strlit("INPUT  ");
    reveal_strlit(" ");
    reveal_strlit("MEM");
    reveal_strlit("CPU");
    assert(vstd::utf8::is_ascii_chars("INPUT  "@));
    assert(vstd::utf8::is_ascii_chars(" "@));
    assert(vstd::utf8::is_ascii_chars("MEM"@));
    assert(vstd::utf8::is_ascii_chars("CPU"@));
}

/// The key legend, or what happened instead.
pub fn hint_bar(layout: &Layout, faces: &Typeface, ui: &Ui) -> (r: Canvas)
    requires
        layout.wf(),
    ensures
        r@ == legend_picture(*layout, *faces, ui@),
{
    broadcast use group_clip;

    proof {
        labels_are_short();
    }
    let h: u32 = layout.status_y.saturating_sub(layout.hint_y);
    let y: u32 = layout.hint_y + h.saturating_sub(faces.body.line_height as u32) / 2;
    let mut canvas = Canvas::new();
    canvas.fill(0, layout.hint_y, layout.width, h, Ink::Flat(Tone::Background));
    if let Some(note) = ui.input_note {
        canvas.text(FaceId::Body, layout.margin, y, "INPUT", Ink::Flat(Tone::Danger));
        let x: u32 = layout.margin + faces.body.width_of("INPUT  ");
        canvas.text(FaceId::Body, x, y, note, Ink::Flat(Tone::Text));
        return canvas;
    }
    let mut pen: u32 = layout.margin;
    let mut i: usize = 0;
    while i < 8
        invariant
            i <= 8,
            layout.wf(),
            ui@.input_note is None,
            utf8(" ").len() == 1,
            y == hint_text_y(*layout, *faces),
            pen == hint_x(*layout, *faces, i as int),
            pen <= 32 + 300_000 * i,
            hints_fit(*layout, *faces, i as int),
            canvas@ == hints_picture(*layout, *faces, i as int),
        decreases 8 - i,
    {
        let (key, action): (&str, &str) = hint_at(i);
        let mut label: Text<24> = Text::new();
        label.str("[").str(key).str("] ").str(action);
        assert(label@ == hint_label(i as int));
        let w: u32 = faces.body.width_of_text(&label);
        if pen + w + layout.margin > layout.width {
            proof {
                no_more_hints(*layout, *faces, i + 1, 8);
            }
            return canvas;
        }
        let mut bracket: Text<12> = Text::new();
        bracket.str("[").str(key).str("]");
        assert(bracket@ == hint_key(i as int));
        canvas.text(FaceId::Body, pen, y, bracket.as_str(), Ink::Flat(Tone::Accent));
        let x: u32 = pen + faces.body.width_of_text(&bracket) + faces.body.width_of(" ");
        canvas.text(FaceId::Body, x, y, action, Ink::Flat(Tone::Muted));
        pen = pen + w + 22;
        i += 1;
    }
    canvas
}

// ---------------------------------------------------------------------------
// The status bar
// ---------------------------------------------------------------------------

/// The panel the status readings sit on.
pub open spec fn status_frame_picture(layout: Layout) -> Seq<Drawn> {
    seq![
        Op::Fill {
            x: 0,
            y: layout.status_y,
            w: layout.width,
            h: layout.status_h,
            ink: Ink::Flat(Tone::Panel),
        },
        Op::Fill {
            x: 0,
            y: layout.status_y,
            w: layout.width,
            h: 1,
            ink: Ink::Flat(Tone::Divider),
        },
    ]
}

/// The panel the status readings sit on, drawn once.
pub fn status_frame(layout: &Layout) -> (r: Canvas)
    ensures
        r@ == status_frame_picture(*layout),
{
    let mut canvas = Canvas::new();
    canvas.fill(0, layout.status_y, layout.width, layout.status_h, Ink::Flat(Tone::Panel));
    canvas.fill(0, layout.status_y, layout.width, 1, Ink::Flat(Tone::Divider));
    canvas
}

/// What is said once every way of switching off has come back.
pub open spec fn still_on_picture(layout: Layout, faces: Typeface) -> Seq<Drawn> {
    seq![
        Op::Fill {
            x: 0,
            y: layout.hint_y,
            w: layout.width,
            h: (faces.body.line_height + 4) as u32,
            ink: Ink::Flat(Tone::Panel),
        },
        Op::Text {
            face: FaceId::Body,
            x: layout.margin,
            y: layout.hint_y,
            text: utf8("shutdown: no method this platform answers"),
            ink: Ink::Flat(Tone::Danger),
        },
    ]
}

/// Every method returned, so none of them worked. Saying so beats a machine
/// that looks hung for no stated reason.
pub fn power_off(layout: &Layout, faces: &Typeface) -> (r: Canvas)
    ensures
        r@ == still_on_picture(*layout, *faces),
{
    let mut canvas = Canvas::new();
    canvas.fill(
        0,
        layout.hint_y,
        layout.width,
        faces.body.line_height as u32 + 4,
        Ink::Flat(Tone::Panel),
    );
    canvas.text(
        FaceId::Body,
        layout.margin,
        layout.hint_y,
        "shutdown: no method this platform answers",
        Ink::Flat(Tone::Danger),
    );
    canvas
}

/// The share of memory the kernel takes, in thousandths.
pub open spec fn memory_share(machine: Machine) -> int {
    if machine.memory.total == 0 {
        0
    } else {
        held(machine.footprint * 1000 / machine.memory.total as int, 0, 1000)
    }
}

/// The interface with the meters aimed at their readings and stepped.
pub open spec fn metered<E: Fn(i32, i32, i32) -> i32>(
    state: State,
    machine: Machine,
    ease: Ease<E>,
) -> State {
    State {
        memory_meter: (Tween {
            target: memory_share(machine) as i32,
            ..state.memory_meter
        }).stepped(ease),
        load_meter: (Tween { target: state.load_permille as i32, ..state.load_meter }).stepped(
            ease,
        ),
        ..state
    }
}

/// The load, as it is written.
pub open spec fn load_label(state: State) -> Seq<u8> {
    clip(digits((length_of(state.load_meter) / 10) as nat).push(37u8), 8)
}

/// Whether the status bar is left as it is: neither meter moved, and the load
/// says what it said.
pub open spec fn is_settled(before: State, after: State) -> bool {
    &&& before.memory_meter.value == after.memory_meter.value
    &&& before.load_meter.value == after.load_meter.value
    &&& shown(load_label(after)) == shown(before.last_load)
}

/// Memory used of memory installed, each side scaled to its own magnitude: a
/// kernel using nine megabytes of a thirty-gigabyte machine expressed in the
/// machine's units is a number that rounds to nothing.
pub open spec fn memory_label(machine: Machine) -> Seq<u8> {
    clip(
        printed(clip(bytes_text(machine.footprint as nat), 16)) + utf8(" / ") + if machine.memory.total
            > 0 {
            printed(clip(bytes_text(machine.memory.total as nat), 16))
        } else {
            utf8("unreported")
        },
        32,
    )
}

/// The counter's rate and where it came from, which is what every number is
/// denominated in.
pub open spec fn rate_label<F: Fn(u64) -> u64>(clock: Clock<F>) -> Seq<u8> {
    clip(
        printed(clip(frequency_text(clock.hz as nat), 16)) + utf8("  ") + utf8(clock.source),
        32,
    )
}

/// What the counter is and how it reads.
pub open spec fn route_label(machine: Machine, state: State) -> Seq<u8> {
    clip(
        utf8("route: ") + bytes_of(machine.route.label()) + utf8("   overhead: ") + digits(
            machine.read_overhead as nat,
        ) + utf8("   jitter: ") + digits(machine.jitter() as nat) + utf8("   ecc: ") + utf8(
            state.watch.integrity.name,
        ),
        96,
    )
}

/// What supplied the input, and what is underneath, if anything is.
pub open spec fn source_label(machine: Machine, input: Input) -> Seq<u8> {
    let signature = signature_text(machine.hypervisor.signature@);
    let source = bytes_of(input.source_text());
    clip(
        if signature.len() == 0 {
            source
        } else {
            source + utf8("   ") + bytes_of(signature)
        },
        64,
    )
}

/// Where the two rows are, and the size and place of a meter.
pub open spec fn row_one(layout: Layout) -> int {
    layout.status_y + 7
}

pub open spec fn row_two(layout: Layout, faces: Typeface) -> int {
    row_one(layout) + faces.body.line_height + 6
}

pub open spec fn meter_w(layout: Layout) -> int {
    held((layout.width / 8) as int, 70, 150)
}

pub open spec fn meter_h(faces: Typeface) -> int {
    let half = faces.body.line_height / 2;
    if half > 6 {
        half as int
    } else {
        6
    }
}

pub open spec fn meter_y(layout: Layout, faces: Typeface) -> int {
    row_one(layout) + (faces.body.line_height - meter_h(faces)) / 2
}

/// Where the text beside the memory meter starts, and what comes after it.
pub open spec fn memory_x(layout: Layout, faces: Typeface) -> int {
    layout.margin + faces.body.width(utf8("MEM")) + 10
}

pub open spec fn load_x(layout: Layout, faces: Typeface, machine: Machine) -> int {
    memory_x(layout, faces) + meter_w(layout) + 12 + faces.body.width(
        printed(memory_label(machine)),
    ) + 28
}

/// Row one: memory, load where there is room for it, and the counter's rate.
pub open spec fn row_one_picture<F: Fn(u64) -> u64>(
    layout: Layout,
    faces: Typeface,
    state: State,
    machine: Machine,
    clock: Clock<F>,
) -> Seq<Drawn> {
    let y = row_one(layout) as u32;
    let (w, h, my) = (
        meter_w(layout) as u32,
        meter_h(faces) as u32,
        meter_y(layout, faces) as u32,
    );
    let pen = memory_x(layout, faces);
    let memory = seq![
        Op::Fill {
            x: 0,
            y: (layout.status_y + 1) as u32,
            w: layout.width,
            h: (layout.status_h - 1) as u32,
            ink: Ink::Flat(Tone::Panel),
        },
        Op::Text {
            face: FaceId::Body,
            x: layout.margin,
            y,
            text: utf8("MEM"),
            ink: Ink::Flat(Tone::Muted),
        },
        Op::Meter {
            x: pen as u32,
            y: my,
            w,
            h,
            permille: length_of(state.memory_meter) as u32,
            track: Tone::Track,
            tone: Tone::Accent,
        },
        Op::Text {
            face: FaceId::Body,
            x: (pen + w + 12) as u32,
            y,
            text: printed(memory_label(machine)),
            ink: Ink::Flat(Tone::Text),
        },
    ];
    let at = load_x(layout, faces, machine);
    let meter = at + faces.body.width(utf8("CPU")) + 10;
    let load = if at + w + 90 < layout.width {
        memory.push(
            Op::Text {
                face: FaceId::Body,
                x: at as u32,
                y,
                text: utf8("CPU"),
                ink: Ink::Flat(Tone::Muted),
            },
        ).push(
            Op::Meter {
                x: meter as u32,
                y: my,
                w,
                h,
                permille: length_of(state.load_meter) as u32,
                track: Tone::Track,
                tone: if length_of(state.load_meter) > 800 {
                    Tone::Warn
                } else {
                    Tone::Accent
                },
            },
        ).push(
            Op::Text {
                face: FaceId::Body,
                x: (meter + w + 12) as u32,
                y,
                text: printed(load_label(state)),
                ink: Ink::Flat(Tone::Text),
            },
        )
    } else {
        memory
    };
    load.push(
        Op::Right {
            face: FaceId::Body,
            right: (layout.width - layout.margin) as u32,
            y,
            text: printed(rate_label(clock)),
            ink: Ink::Flat(
                if clock.trustworthy {
                    Tone::Accent
                } else {
                    Tone::Danger
                },
            ),
        },
    )
}

/// Both rows: under the first, what the counter is, and on the right, where
/// it fits, what supplied the input.
pub open spec fn status_picture<F: Fn(u64) -> u64>(
    layout: Layout,
    faces: Typeface,
    state: State,
    machine: Machine,
    clock: Clock<F>,
    input: Input,
) -> Seq<Drawn> {
    let y = row_two(layout, faces) as u32;
    let left = printed(route_label(machine, state));
    let right = printed(source_label(machine, input));
    let rows = row_one_picture(layout, faces, state, machine, clock).push(
        Op::Text {
            face: FaceId::Body,
            x: layout.margin,
            y,
            text: left,
            ink: Ink::Flat(Tone::Muted),
        },
    );
    if layout.margin + faces.body.width(left) + faces.body.width(right) + 40 < layout.width {
        rows.push(
            Op::Right {
                face: FaceId::Body,
                right: (layout.width - layout.margin) as u32,
                y,
                text: right,
                ink: Ink::Flat(Tone::Muted),
            },
        )
    } else {
        rows
    }
}

fn memory_text(machine: &Machine) -> (r: Text<32>)
    ensures
        r@ == memory_label(*machine),
{
    broadcast use group_clip;

    let mut memory: Text<32> = Text::new();
    memory.str(text::bytes(machine.footprint).as_str());
    memory.str(" / ");
    if machine.memory.total > 0 {
        memory.str(text::bytes(machine.memory.total).as_str());
    } else {
        memory.str("unreported");
    }
    memory
}

fn rate_text<F: Fn(u64) -> u64>(clock: &Clock<F>) -> (r: Text<32>)
    ensures
        r@ == rate_label(*clock),
{
    broadcast use group_clip;

    let mut rate: Text<32> = Text::new();
    rate.str(text::frequency(clock.hz).as_str()).str("  ").str(clock.source);
    rate
}

fn route_text(machine: &Machine, ui: &Ui) -> (r: Text<96>)
    ensures
        r@ == route_label(*machine, ui@),
{
    broadcast use group_clip;

    let mut left: Text<96> = Text::new();
    left.str("route: ")
        .str(machine.route.name())
        .str("   overhead: ")
        .num(machine.read_overhead)
        .str("   jitter: ")
        .num(machine.worst_read.saturating_sub(machine.read_overhead))
        .str("   ecc: ")
        .str(ui.stopwatch.integrity.name);
    left
}

fn source_text(machine: &Machine, input: &Input) -> (r: Text<64>)
    ensures
        r@ == source_label(*machine, *input),
{
    broadcast use group_clip;

    let mut right: Text<64> = Text::new();
    right.str(input.source());
    let signature: &str = machine.hypervisor.signature_str();
    if !signature.is_empty() {
        right.str("   ").str(signature);
    }
    right
}

/// Draws row one.
fn draw_row_one<F: Fn(u64) -> u64>(
    layout: &Layout,
    faces: &Typeface,
    ui: &Ui,
    machine: &Machine,
    clock: &Clock<F>,
    load: &Text<8>,
) -> (r: Canvas)
    requires
        layout.wf(),
        layout.margin <= layout.width,
        faces.body.line_height >= 6,
        load@ == load_label(ui@),
    ensures
        r@ == row_one_picture(*layout, *faces, ui@, *machine, *clock),
{
    proof {
        labels_are_short();
    }
    let row_h: u32 = faces.body.line_height as u32;
    let y: u32 = layout.status_y + 7;
    let w: u32 = clamp(layout.width / 8, 70, 150);
    let h: u32 = if row_h / 2 > 6 {
        row_h / 2
    } else {
        6
    };
    let at: u32 = y + (row_h - h) / 2;
    let mut canvas = Canvas::new();
    canvas.fill(
        0,
        layout.status_y + 1,
        layout.width,
        layout.status_h - 1,
        Ink::Flat(Tone::Panel),
    );
    let mut pen: u32 = layout.margin;
    canvas.text(FaceId::Body, pen, y, "MEM", Ink::Flat(Tone::Muted));
    pen = pen + faces.body.width_of("MEM") + 10;
    canvas.push(
        Op::Meter {
            x: pen,
            y: at,
            w,
            h,
            permille: length(&ui.memory_meter),
            track: Tone::Track,
            tone: Tone::Accent,
        },
    );
    pen = pen + w + 12;
    let memory: Text<32> = memory_text(machine);
    canvas.text(FaceId::Body, pen, y, memory.as_str(), Ink::Flat(Tone::Text));
    pen = pen + faces.body.width_of_text(&memory) + 28;
    if pen + w + 90 < layout.width {
        canvas.text(FaceId::Body, pen, y, "CPU", Ink::Flat(Tone::Muted));
        pen = pen + faces.body.width_of("CPU") + 10;
        let permille: u32 = length(&ui.load_meter);
        let tone: Tone = if permille > 800 {
            Tone::Warn
        } else {
            Tone::Accent
        };
        canvas.push(Op::Meter { x: pen, y: at, w, h, permille, track: Tone::Track, tone });
        pen = pen + w + 12;
        canvas.text(FaceId::Body, pen, y, load.as_str(), Ink::Flat(Tone::Text));
    }
    let tone: Tone = if clock.trustworthy {
        Tone::Accent
    } else {
        Tone::Danger
    };
    canvas.right(
        FaceId::Body,
        layout.width - layout.margin,
        y,
        rate_text(clock).as_str(),
        Ink::Flat(tone),
    );
    canvas
}

/// Draws both rows.
fn draw_status<F: Fn(u64) -> u64>(
    layout: &Layout,
    faces: &Typeface,
    ui: &Ui,
    machine: &Machine,
    clock: &Clock<F>,
    input: &Input,
    load: &Text<8>,
) -> (r: Canvas)
    requires
        layout.wf(),
        layout.margin <= layout.width,
        faces.body.line_height >= 6,
        load@ == load_label(ui@),
    ensures
        r@ == status_picture(*layout, *faces, ui@, *machine, *clock, *input),
{
    let mut canvas = draw_row_one(layout, faces, ui, machine, clock, load);
    let y: u32 = layout.status_y + 7 + faces.body.line_height as u32 + 6;
    let left: Text<96> = route_text(machine, ui);
    canvas.text(FaceId::Body, layout.margin, y, left.as_str(), Ink::Flat(Tone::Muted));
    let right: Text<64> = source_text(machine, input);
    let taken: u32 = faces.body.width_of_text(&left) + faces.body.width_of_text(&right);
    if layout.margin + taken + 40 < layout.width {
        canvas.right(
            FaceId::Body,
            layout.width - layout.margin,
            y,
            right.as_str(),
            Ink::Flat(Tone::Muted),
        );
    }
    canvas
}

/// What the interface is once the status bar has had its turn.
pub open spec fn status_after<E: Fn(i32, i32, i32) -> i32>(
    state: State,
    machine: Machine,
    ease: Ease<E>,
) -> State {
    let after = metered(state, machine, ease);
    if is_settled(state, after) {
        after
    } else {
        State { last_load: clip(printed(load_label(after)), 8), ..after }
    }
}

/// What is drawn in its turn.
pub open spec fn status_drawn<F: Fn(u64) -> u64, E: Fn(i32, i32, i32) -> i32>(
    layout: Layout,
    faces: Typeface,
    state: State,
    machine: Machine,
    clock: Clock<F>,
    input: Input,
    ease: Ease<E>,
) -> Seq<Drawn> {
    if is_settled(state, metered(state, machine, ease)) {
        seq![]
    } else {
        status_picture(
            layout,
            faces,
            status_after(state, machine, ease),
            machine,
            clock,
            input,
        )
    }
}

/// The two rows of readings at the bottom, redrawn only when something in
/// them moved. Most of what they show was measured once and does not change.
pub fn status_bar<F: Fn(u64) -> u64, E: Fn(i32, i32, i32) -> i32>(
    layout: &Layout,
    faces: &Typeface,
    ui: &mut Ui,
    machine: &Machine,
    clock: &Clock<F>,
    input: &Input,
    ease: &Ease<E>,
) -> (r: Canvas)
    requires
        layout.wf(),
        old(ui)@.wf(),
        ease.wf(),
        layout.margin <= layout.width,
        faces.body.line_height >= 6,
    ensures
        final(ui)@.wf(),
        final(ui)@ == status_after(old(ui)@, *machine, *ease),
        r@ == status_drawn(*layout, *faces, old(ui)@, *machine, *clock, *input, *ease),
{
    broadcast use group_clip;

    let share: u128 = if machine.memory.total == 0 {
        0
    } else {
        machine.footprint as u128 * 1000 / machine.memory.total as u128
    };
    let permille: i32 = if share > 1000 {
        1000
    } else {
        share as i32
    };
    proof {
        if machine.memory.total > 0 {
            assert(machine.footprint * 1000 / machine.memory.total as int >= 0)
                by (nonlinear_arith)
                requires
                    machine.memory.total > 0,
                    machine.footprint >= 0,
            ;
        }
    }
    ui.memory_meter.retarget(permille);
    ui.load_meter.retarget(ui.load_permille as i32);
    let memory_moved: bool = ui.memory_meter.step(ease);
    let load_moved: bool = ui.load_meter.step(ease);
    let mut load: Text<8> = Text::new();
    load.num((length(&ui.load_meter) / 10) as u64).push(37);
    if !memory_moved && !load_moved && text::same(load.as_str(), ui.last_load.as_str()) {
        return Canvas::new();
    }
    ui.last_load.clear();
    ui.last_load.str(load.as_str());
    draw_status(layout, faces, ui, machine, clock, input, &load)
}

/// The memory meter never reads more than full.
pub proof fn the_meter_is_a_share(machine: Machine)
    ensures
        0 <= memory_share(machine) <= 1000,
        machine.memory.total > 0 && machine.footprint >= machine.memory.total
            ==> memory_share(machine) == 1000,
        machine.footprint == 0 ==> memory_share(machine) == 0,
{
    if machine.memory.total > 0 {
        assert(machine.footprint >= machine.memory.total ==> machine.footprint * 1000
            / machine.memory.total as int >= 1000) by (nonlinear_arith)
            requires
                machine.memory.total > 0,
        ;
        assert(machine.footprint == 0 ==> machine.footprint * 1000 / machine.memory.total as int
            == 0) by (nonlinear_arith)
            requires
                machine.memory.total > 0,
        ;
    }
}

/// The legend says what each key does: the keys the interface answers to.
pub proof fn the_legend_names_the_keys()
    ensures
        hint(0) == (utf8("1-3"), utf8("Mode")),
        hint(1) == (utf8("SPACE"), utf8("Start")),
        hint(2) == (utf8("L"), utf8("Lap")),
        hint(3) == (utf8("Z"), utf8("Zero")),
        hint(4) == (utf8("N"), utf8("Precision")),
        hint(5) == (utf8("TAB"), utf8("Panel")),
        hint(6) == (utf8("R"), utf8("Restart")),
        hint(7) == (utf8("S"), utf8("Shut down")),
{
}

/// Hints start at the margin, twenty-two pixels apart, and one is drawn exactly
/// where it and all before it end before the right margin: its key in brackets
/// and the accent, and what it does after a space, muted.
pub proof fn hints_stand_side_by_side(layout: Layout, faces: Typeface, i: int)
    requires
        0 <= i < 8,
    ensures
        hint_x(layout, faces, 0) == layout.margin,
        hint_x(layout, faces, i + 1) - (hint_x(layout, faces, i) + hint_w(faces, i)) == 22,
        hints_fit(layout, faces, i + 1) <==> hints_fit(layout, faces, i) && hint_x(layout, faces, i)
            + hint_w(faces, i) + layout.margin <= layout.width,
        !hints_fit(layout, faces, i + 1) ==> hints_picture(layout, faces, i + 1) == hints_picture(
            layout,
            faces,
            i,
        ),
        hints_fit(layout, faces, i + 1) ==> {
            let (ops, before) = (
                hints_picture(layout, faces, i + 1),
                hints_picture(layout, faces, i),
            );
            let key = printed(clip(utf8("[") + hint(i).0 + utf8("]"), 12));
            let n = before.len() as int;
            &&& ops.len() == n + 2 && ops.take(n) == before
            &&& (ops[n] matches Op::Text { x, text, ink, .. } && x == hint_x(
                layout,
                faces,
                i,
            ) as u32 && text == key && ink == Ink::Flat(Tone::Accent))
            &&& (ops[n + 1] matches Op::Text { x, text, ink, .. } && x == (hint_x(layout, faces, i)
                + faces.body.width(key) + faces.body.width(utf8(" "))) as u32 && text == hint(i).1
                && ink == Ink::Flat(Tone::Muted))
        },
        hint_label(i) == clip(utf8("[") + hint(i).0 + utf8("] ") + hint(i).1, 24),
{
    if hints_fit(layout, faces, i + 1) {
        let before = hints_picture(layout, faces, i);
        assert(hints_picture(layout, faces, i + 1).take(before.len() as int) =~= before);
    }
}

/// Where there is something to say of the input, that stands in the legend's
/// place, in full and marked; otherwise the keys do.
pub proof fn trouble_takes_the_legends_place(layout: Layout, faces: Typeface, state: State)
    ensures
        ({
            let ops = legend_picture(layout, faces, state);
            &&& (hint_background(layout)[0] matches Op::Fill { x, y, w, h, ink } && x == 0 && y
                == layout.hint_y && w == layout.width && (layout.hint_y <= layout.status_y ==> h
                == layout.status_y - layout.hint_y) && ink == Ink::Flat(Tone::Background))
            &&& state.input_note is None ==> ops == hints_picture(layout, faces, 8)
            &&& state.input_note matches Some(note) ==> {
                &&& ops.len() == 3
                &&& (ops[1] matches Op::Text { x, text, ink, .. } && x == layout.margin && text
                    == utf8("INPUT") && ink == Ink::Flat(Tone::Danger))
                &&& (ops[2] matches Op::Text { x, text, ink, .. } && x == (layout.margin
                    + faces.body.width(utf8("INPUT  "))) as u32 && text == vstd::utf8::encode_utf8(
                    note,
                ) && ink == Ink::Flat(Tone::Text))
            }
        }),
        layout.hint_y + faces.body.line_height <= layout.status_y ==> {
            let above = hint_text_y(layout, faces) - layout.hint_y;
            let below = layout.status_y - hint_text_y(layout, faces) - faces.body.line_height;
            0 <= below - above <= 1
        },
{
}

/// The memory meter is aimed at the share of memory the kernel takes, rounded
/// down to thousandths, and the load's at the load.
pub proof fn the_meters_are_aimed<E: Fn(i32, i32, i32) -> i32>(
    state: State,
    machine: Machine,
    ease: Ease<E>,
)
    requires
        0 < machine.footprint < machine.memory.total,
    ensures
        memory_share(machine) * machine.memory.total <= machine.footprint * 1000 < (memory_share(
            machine,
        ) + 1) * machine.memory.total,
        metered(state, machine, ease).memory_meter.value == ease.next(
            state.memory_meter.value,
            memory_share(machine) as i32,
            state.memory_meter.rate,
        ),
        metered(state, machine, ease).load_meter.value == ease.next(
            state.load_meter.value,
            state.load_permille as i32,
            state.load_meter.rate,
        ),
        status_after(state, machine, ease).memory_meter == metered(
            state,
            machine,
            ease,
        ).memory_meter,
        status_after(state, machine, ease).load_meter == metered(state, machine, ease).load_meter,
{
    let (f, t) = (machine.footprint as int, machine.memory.total as int);
    assert(0 <= f * 1000 / t < 1000) by (nonlinear_arith)
        requires
            0 <= f < t,
    ;
    let q = f * 1000 / t;
    assert(q * t <= f * 1000 < (q + 1) * t) by (nonlinear_arith)
        requires
            q == f * 1000 / t,
            0 < t,
            0 <= f,
    ;
}

/// The load is written in percent, rounded down.
pub proof fn the_load_reads_back(state: State)
    requires
        0 <= state.load_meter.value <= 1000,
    ensures
        ({
            let label = load_label(state);
            &&& 2 <= label.len() <= 4
            &&& label.last() == 37
            &&& text::number_in(label.drop_last()) == state.load_meter.value / 10
            &&& printed(label) == label
        }),
{
    let percent = (length_of(state.load_meter) / 10) as nat;
    reveal(vstd::arithmetic::power::pow);
    reveal_with_fuel(vstd::arithmetic::power::pow, 4);
    text::digits_len(percent, 3);
    text::digits_are_ascii(percent);
    text::digits_stand_for_their_number(percent, 0);
    let label = load_label(state);
    assert(label.drop_last() =~= digits(percent));
    text::ascii_is_shown_as_it_is(label);
}

/// The status bar is left as it is exactly where neither meter moved and the
/// load says what it said; what it says is remembered otherwise.
pub proof fn the_status_is_drawn_when_it_moves<F: Fn(u64) -> u64, E: Fn(i32, i32, i32) -> i32>(
    layout: Layout,
    faces: Typeface,
    state: State,
    machine: Machine,
    clock: Clock<F>,
    input: Input,
    ease: Ease<E>,
)
    ensures
        ({
            let after = status_after(state, machine, ease);
            let ops = status_drawn(layout, faces, state, machine, clock, input, ease);
            let still = after.memory_meter.value == state.memory_meter.value
                && after.load_meter.value == state.load_meter.value && shown(load_label(after))
                == shown(state.last_load);
            &&& still ==> ops.len() == 0 && after.last_load == state.last_load
            &&& !still ==> ops.len() > 0 && after.last_load == clip(printed(load_label(after)), 8)
            &&& !still ==> ops == status_picture(layout, faces, after, machine, clock, input)
        }),
{
}

/// The first row shows what memory is taken and what is there, each as a byte
/// count, beside its meter; the load beside its own where there is room, which
/// warns above eight tenths; and on the right the counter's rate and where that
/// came from, in red where it cannot be relied on.
pub proof fn what_the_first_row_shows<F: Fn(u64) -> u64>(
    layout: Layout,
    faces: Typeface,
    state: State,
    machine: Machine,
    clock: Clock<F>,
)
    ensures
        ({
            let ops = row_one_picture(layout, faces, state, machine, clock);
            let at = load_x(layout, faces, machine);
            let loaded = at + meter_w(layout) + 90 < layout.width;
            &&& (ops[1] matches Op::Text { text, .. } && text == utf8("MEM"))
            &&& (ops[2] matches Op::Meter { permille, tone, w, h, .. } && permille == length_of(
                state.memory_meter,
            ) as u32 && tone == Tone::Accent && w == meter_w(layout) as u32 && h == meter_h(
                faces,
            ) as u32)
            &&& (ops[3] matches Op::Text { text, .. } && text == printed(memory_label(machine)))
            &&& loaded <==> ops.len() == 8
            &&& !loaded <==> ops.len() == 5
            &&& loaded ==> (ops[4] matches Op::Text { text, .. } && text == utf8("CPU"))
            &&& loaded ==> (ops[5] matches Op::Meter { permille, tone, .. } && permille == length_of(
                state.load_meter,
            ) as u32 && (tone == Tone::Warn <==> state.load_meter.value > 800) && (tone
                == Tone::Accent <==> state.load_meter.value <= 800))
            &&& loaded ==> (ops[6] matches Op::Text { text, .. } && text == printed(
                load_label(state),
            ))
            &&& (ops.last() matches Op::Right { right, text, ink, .. } && right == (layout.width
                - layout.margin) as u32 && text == printed(rate_label(clock)) && (clock.trustworthy
                ==> ink == Ink::Flat(Tone::Accent)) && (!clock.trustworthy ==> ink == Ink::Flat(
                Tone::Danger,
            )))
        }),
        machine.memory.total > 0 ==> memory_label(machine) == clip(
            printed(clip(bytes_text(machine.footprint as nat), 16)) + utf8(" / ") + printed(
                clip(bytes_text(machine.memory.total as nat), 16),
            ),
            32,
        ),
        machine.memory.total == 0 ==> memory_label(machine) == clip(
            printed(clip(bytes_text(machine.footprint as nat), 16)) + utf8(" / ") + utf8(
                "unreported",
            ),
            32,
        ),
        rate_label(clock) == clip(
            printed(clip(frequency_text(clock.hz as nat), 16)) + utf8("  ") + utf8(clock.source),
            32,
        ),
{
}

/// The second row says by which route the counter is read, what a read costs and
/// how far that varies, and what the store found; on the right, where both fit,
/// what supplies the input and the hypervisor's name where there is one.
pub proof fn what_the_second_row_shows<F: Fn(u64) -> u64>(
    layout: Layout,
    faces: Typeface,
    state: State,
    machine: Machine,
    clock: Clock<F>,
    input: Input,
)
    ensures
        ({
            let ops = status_picture(layout, faces, state, machine, clock, input);
            let first = row_one_picture(layout, faces, state, machine, clock);
            let (left, right) = (
                printed(route_label(machine, state)),
                printed(source_label(machine, input)),
            );
            let both = layout.margin + faces.body.width(left) + faces.body.width(right) + 40
                < layout.width;
            let n = first.len() as int;
            &&& ops.take(n) == first
            &&& both <==> ops.len() == n + 2
            &&& !both <==> ops.len() == n + 1
            &&& (ops[n] matches Op::Text { x, text, ink, .. } && x == layout.margin && text == left
                && ink == Ink::Flat(Tone::Muted))
            &&& both ==> (ops[n + 1] matches Op::Right { right: at, text, .. } && at == (
            layout.width - layout.margin) as u32 && text == right)
        }),
        ({
            let jitter = if machine.worst_read >= machine.read_overhead {
                (machine.worst_read - machine.read_overhead) as nat
            } else {
                0
            };
            route_label(machine, state) == clip(
                utf8("route: ") + vstd::utf8::encode_utf8(machine.route.label()) + utf8(
                    "   overhead: ",
                ) + digits(machine.read_overhead as nat) + utf8("   jitter: ") + digits(jitter)
                    + utf8("   ecc: ") + utf8(state.watch.integrity.name),
                96,
            )
        }),
        ({
            let name = signature_text(machine.hypervisor.signature@);
            let source = vstd::utf8::encode_utf8(input.source_text());
            &&& name.len() == 0 ==> source_label(machine, input) == clip(source, 64)
            &&& name.len() > 0 ==> source_label(machine, input) == clip(
                source + utf8("   ") + vstd::utf8::encode_utf8(name),
                64,
            )
        }),
{
    let first = row_one_picture(layout, faces, state, machine, clock);
    assert(status_picture(layout, faces, state, machine, clock, input).take(first.len() as int)
        =~= first);
}

/// The rows of the status bar are seven pixels into it and six apart; a meter is
/// an eighth of the screen wide within bounds and half a line tall, in the middle
/// of its row, ten pixels after its name.
pub proof fn the_status_rows_have_their_places(layout: Layout, faces: Typeface)
    requires
        layout.wf(),
    ensures
        row_one(layout) - layout.status_y == 7,
        row_two(layout, faces) - (row_one(layout) + faces.body.line_height) == 6,
        560 <= layout.width < 1208 ==> meter_w(layout) == layout.width / 8,
        layout.width < 560 ==> meter_w(layout) == 70,
        layout.width >= 1208 ==> meter_w(layout) == 150,
        faces.body.line_height >= 12 ==> meter_h(faces) == faces.body.line_height / 2,
        faces.body.line_height < 12 ==> meter_h(faces) == 6,
        faces.body.line_height >= 6 ==> {
            let above = meter_y(layout, faces) - row_one(layout);
            let below = faces.body.line_height - meter_h(faces) - above;
            0 <= below - above <= 1
        },
        memory_x(layout, faces) - layout.margin == faces.body.width(utf8("MEM")) + 10,
{
}

/// A machine that would not switch off says so where the legend was.
pub proof fn a_failed_shutdown_is_told(layout: Layout, faces: Typeface)
    ensures
        ({
            let ops = still_on_picture(layout, faces);
            &&& ops.len() == 2
            &&& (ops[0] matches Op::Fill { x, y, w, h, .. } && x == 0 && y == layout.hint_y && w
                == layout.width && h == faces.body.line_height + 4)
            &&& (ops[1] matches Op::Text { x, y, text, ink, .. } && x == layout.margin && y
                == layout.hint_y && text == utf8("shutdown: no method this platform answers") && ink
                == Ink::Flat(Tone::Danger))
        }),
        ({
            let ops = status_frame_picture(layout);
            &&& ops.len() == 2
            &&& (ops[0] matches Op::Fill { x, y, w, h, ink } && x == 0 && y == layout.status_y && w
                == layout.width && h == layout.status_h && ink == Ink::Flat(Tone::Panel))
            &&& (ops[1] matches Op::Fill { x, y, w, h, ink } && x == 0 && y == layout.status_y && w
                == layout.width && h == 1 && ink == Ink::Flat(Tone::Divider))
        }),
{
}

} // verus!
