//! The large elapsed-time display, and the one line of context under it.

use crate::gui::canvas::{printed, Canvas, Drawn, FaceId, Ink, Op, Tone, Typeface};
use crate::gui::cards::{alpha, alpha_of};
use crate::gui::layout::{rest, Layout, Tab};
use crate::gui::motion::Ease;
use crate::gui::state::{State, Ui};
use crate::gui::watch::Clock;
use crate::text;
use crate::text::{clip, duration_text, group_clip, shown, utf8, Text};
use vstd::prelude::*;

verus! {

/// What the current instrument reads, in nanoseconds: the time of day (or
/// since boot, where nothing keeps it), the stopwatch's total, or what is
/// left of the timer.
pub open spec fn reading<F: Fn(u64) -> u64>(state: State, clock: Clock<F>) -> u64 {
    match state.tab {
        Tab::Clock => match clock.wall_ns {
            Some(ns) => ns,
            None => clock.elapsed_ns,
        },
        Tab::Stopwatch => clock.ns(state.watch.elapsed(clock.now) as u64),
        Tab::Timer => state.timer.left(clock.now, clock),
    }
}

/// Whether it is running.
pub open spec fn is_running(state: State) -> bool {
    match state.tab {
        Tab::Clock => true,
        Tab::Stopwatch => state.watch.running,
        Tab::Timer => state.timer.running,
    }
}

/// The interface once the current instrument has been read, and the readout's
/// fade stepped.
pub open spec fn read<F: Fn(u64) -> u64, E: Fn(i32, i32, i32) -> i32>(
    state: State,
    clock: Clock<F>,
    ease: Ease<E>,
) -> State {
    let faded = State { readout_fade: state.readout_fade.stepped(ease), ..state };
    match state.tab {
        Tab::Clock => faded,
        Tab::Stopwatch => State { watch: state.watch.noted(), ..faded },
        Tab::Timer => State { timer: state.timer.looked_at(clock.now, clock), ..faded },
    }
}

/// The digits.
pub open spec fn reading_label<F: Fn(u64) -> u64>(state: State, clock: Clock<F>) -> Seq<u8> {
    clip(duration_text(reading(state, clock) as nat, state.precision.is_nano()), 24)
}

/// Whether the readout is left as it is: not fading, and saying what it said.
pub open spec fn is_unchanged(before: State, after: State, label: Seq<u8>) -> bool {
    before.readout_fade.value == after.readout_fade.value && shown(label) == shown(
        before.last_readout,
    )
}

/// One line of context, so the number is not left to speak for itself.
pub open spec fn note_label<F: Fn(u64) -> u64>(state: State, clock: Clock<F>) -> Seq<u8> {
    clip(
        match state.tab {
            Tab::Clock => utf8("wall clock · rtc + counter · ") + utf8(clock.source),
            Tab::Stopwatch => if state.watch.running {
                utf8("running · SPACE stops · L records a lap")
            } else if state.watch.accumulated.value == 0 {
                utf8("ready · SPACE starts")
            } else {
                utf8("stopped · SPACE resumes · Z zeroes")
            },
            Tab::Timer => if state.timer.expired {
                utf8("elapsed · Z resets")
            } else {
                utf8("counting down from ") + printed(
                    clip(duration_text(state.timer.target_ns as nat, false), 24),
                ) + utf8(" · UP and DOWN adjust")
            },
        },
        64,
    )
}

fn note<F: Fn(u64) -> u64>(ui: &Ui, clock: &Clock<F>) -> (r: Text<64>)
    ensures
        r@ == note_label(ui@, *clock),
{
    broadcast use group_clip;

    let mut note: Text<64> = Text::new();
    match ui.tab {
        Tab::Clock => {
            note.str("wall clock · rtc + counter · ").str(clock.source);
        },
        Tab::Stopwatch => {
            let line: &str = if ui.stopwatch.running {
                "running · SPACE stops · L records a lap"
            } else if ui.stopwatch.accumulated.value == 0 {
                "ready · SPACE starts"
            } else {
                "stopped · SPACE resumes · Z zeroes"
            };
            note.str(line);
        },
        Tab::Timer => {
            if ui.timer.expired {
                note.str("elapsed · Z resets");
            } else {
                note.str("counting down from ")
                    .str(text::duration(ui.timer.target_ns, false).as_str())
                    .str(" · UP and DOWN adjust");
            }
        },
    }
    note
}

/// The readout: the digits centred in their box with a halo, the line of
/// context where there is room for it, and the fade over both. Red once the
/// timer has run out, lit while anything runs; a stopped stopwatch is still a
/// reading, so it stays legible.
///
/// The whole box is cleared rather than the text's own width: crossing from
/// one to two hours changes the width, and a clear that only covers the new
/// string leaves the old one's tail behind.
pub open spec fn readout_picture<F: Fn(u64) -> u64>(
    layout: Layout,
    faces: Typeface,
    state: State,
    running: bool,
    label: Seq<u8>,
    clock: Clock<F>,
) -> Seq<Drawn> {
    let face = faces.of(layout.readout);
    let x = layout.readout_x + rest(
        layout.readout_w as int,
        face.width(printed(label)) as int,
    ) / 2;
    let y = layout.readout_y + rest(layout.readout_h as int, face.line_height as int) / 2;
    let tone = if state.tab == Tab::Timer && state.timer.expired {
        Tone::Danger
    } else if running {
        Tone::Accent
    } else {
        Tone::Text
    };
    let halo = if running {
        Tone::Glow
    } else {
        Tone::Shadow
    };
    let digits = seq![
        Op::Fill {
            x: layout.readout_x,
            y: layout.readout_y,
            w: layout.readout_w,
            h: layout.readout_h,
            ink: Ink::Flat(Tone::Background),
        },
        Op::Glow {
            face: layout.readout,
            x: x as u32,
            y: y as u32,
            text: printed(label),
            ink: Ink::Flat(tone),
            halo,
            spread: 2,
        },
    ];
    let note_y = y + face.line_height + 6;
    let captioned = if note_y + faces.body.line_height <= layout.readout_y + layout.readout_h {
        digits.push(
            Op::Centred {
                face: FaceId::Body,
                x: layout.readout_x,
                w: layout.readout_w,
                y: note_y as u32,
                text: printed(note_label(state, clock)),
                ink: Ink::Flat(Tone::Muted),
            },
        )
    } else {
        digits
    };
    captioned.push(
        Op::Fade {
            x: layout.readout_x,
            y: layout.readout_y,
            w: layout.readout_w,
            h: layout.readout_h,
            to: Tone::Background,
            alpha: alpha_of(state.readout_fade),
        },
    )
}

/// Reads the current instrument: what it says and whether it runs.
fn take_reading<F: Fn(u64) -> u64>(ui: &mut Ui, clock: &Clock<F>) -> (r: (u64, bool))
    requires
        old(ui)@.wf(),
        old(ui)@.readable(clock.now),
        clock.wf(),
    ensures
        r == (reading(old(ui)@, *clock), is_running(old(ui)@)),
        final(ui)@ == (State {
            watch: if old(ui).tab == Tab::Stopwatch {
                old(ui)@.watch.noted()
            } else {
                old(ui)@.watch
            },
            timer: if old(ui).tab == Tab::Timer {
                old(ui).timer.looked_at(clock.now, *clock)
            } else {
                old(ui).timer
            },
            ..old(ui)@
        }),
{
    match ui.tab {
        Tab::Clock => match clock.wall_ns {
            Some(ns) => (ns, true),
            None => (clock.elapsed_ns, true),
        },
        Tab::Stopwatch => {
            let running: bool = ui.stopwatch.running;
            let ticks: u64 = ui.stopwatch.ticks(clock.now);
            (clock.ticks_to_ns(ticks), running)
        },
        Tab::Timer => {
            let running: bool = ui.timer.running;
            (ui.timer.remaining_ns(clock.now, clock), running)
        },
    }
}

/// Draws the readout.
fn draw_readout<F: Fn(u64) -> u64>(
    layout: &Layout,
    faces: &Typeface,
    ui: &Ui,
    running: bool,
    label: &Text<24>,
    clock: &Clock<F>,
) -> (r: Canvas)
    requires
        layout.wf(),
    ensures
        r@ == readout_picture(*layout, *faces, ui@, running, label@, *clock),
{
    let face = faces.face(layout.readout);
    let text_w: u32 = face.width_of_text(label);
    let x: u32 = layout.readout_x + layout.readout_w.saturating_sub(text_w) / 2;
    let y: u32 = layout.readout_y + layout.readout_h.saturating_sub(face.line_height as u32) / 2;
    let mut canvas = Canvas::new();
    canvas.fill(
        layout.readout_x,
        layout.readout_y,
        layout.readout_w,
        layout.readout_h,
        Ink::Flat(Tone::Background),
    );
    let tone: Tone = if ui.tab == Tab::Timer && ui.timer.expired {
        Tone::Danger
    } else if running {
        Tone::Accent
    } else {
        Tone::Text
    };
    let halo: Tone = if running {
        Tone::Glow
    } else {
        Tone::Shadow
    };
    canvas.glow(layout.readout, x, y, label.as_str(), Ink::Flat(tone), halo, 2);
    let note_y: u32 = y + face.line_height as u32 + 6;
    if note_y + faces.body.line_height as u32 <= layout.readout_y + layout.readout_h {
        canvas.centred(
            FaceId::Body,
            layout.readout_x,
            layout.readout_w,
            note_y,
            note(ui, clock).as_str(),
            Ink::Flat(Tone::Muted),
        );
    }
    canvas.push(
        Op::Fade {
            x: layout.readout_x,
            y: layout.readout_y,
            w: layout.readout_w,
            h: layout.readout_h,
            to: Tone::Background,
            alpha: alpha(&ui.readout_fade),
        },
    );
    canvas
}

/// What the interface is once the readout has had its turn.
pub open spec fn readout_after<F: Fn(u64) -> u64, E: Fn(i32, i32, i32) -> i32>(
    state: State,
    clock: Clock<F>,
    ease: Ease<E>,
) -> State {
    let label = reading_label(state, clock);
    let after = read(state, clock, ease);
    if is_unchanged(state, after, label) {
        after
    } else {
        State { last_readout: clip(printed(label), 24), ..after }
    }
}

/// What is drawn in its turn.
pub open spec fn readout_drawn<F: Fn(u64) -> u64, E: Fn(i32, i32, i32) -> i32>(
    layout: Layout,
    faces: Typeface,
    state: State,
    clock: Clock<F>,
    ease: Ease<E>,
) -> Seq<Drawn> {
    let label = reading_label(state, clock);
    if is_unchanged(state, read(state, clock, ease), label) {
        seq![]
    } else {
        readout_picture(
            layout,
            faces,
            readout_after(state, clock, ease),
            is_running(state),
            label,
            clock,
        )
    }
}

/// The large elapsed-time display. Draws nothing where it would draw what is
/// already there.
pub fn readout<F: Fn(u64) -> u64, E: Fn(i32, i32, i32) -> i32>(
    layout: &Layout,
    faces: &Typeface,
    ui: &mut Ui,
    clock: &Clock<F>,
    ease: &Ease<E>,
) -> (r: Canvas)
    requires
        layout.wf(),
        old(ui)@.wf(),
        old(ui)@.readable(clock.now),
        clock.wf(),
        ease.wf(),
    ensures
        final(ui)@.wf(),
        final(ui)@ == readout_after(old(ui)@, *clock, *ease),
        r@ == readout_drawn(*layout, *faces, old(ui)@, *clock, *ease),
{
    broadcast use group_clip;

    let (value, running): (u64, bool) = take_reading(ui, clock);
    let label: Text<24> = text::duration(value, ui.precision.nanoseconds());
    let fading: bool = ui.readout_fade.step(ease);
    if !fading && text::same(label.as_str(), ui.last_readout.as_str()) {
        return Canvas::new();
    }
    ui.last_readout.clear();
    ui.last_readout.str(label.as_str());
    draw_readout(layout, faces, ui, running, &label, clock)
}

/// What the readout shows is what the instrument reads: under a hundred
/// hours, at full precision, two readings that look the same are the same.
pub proof fn the_readout_is_exact(a: nat, b: nat)
    requires
        a < 360_000_000_000_000,
        b < 360_000_000_000_000,
        shown(clip(duration_text(a, true), 24)) == shown(clip(duration_text(b, true), 24)),
    ensures
        a == b,
{
    text::duration_fits(a);
    text::duration_fits(b);
    text::figures_are_ascii(a, true);
    text::figures_are_ascii(b, true);
    text::ascii_is_shown_as_it_is(duration_text(a, true));
    text::ascii_is_shown_as_it_is(duration_text(b, true));
    text::durations_differ(a, b);
}

/// The readout shows the current instrument: the time of day where there is a
/// clock and the time since boot where there is none, what the stopwatch has
/// measured, or what is left of the timer. It is lit while that runs.
pub proof fn the_readout_is_the_instruments<F: Fn(u64) -> u64, E: Fn(i32, i32, i32) -> i32>(
    state: State,
    clock: Clock<F>,
    ease: Ease<E>,
)
    ensures
        state.tab == Tab::Clock && clock.wall_ns is Some ==> reading(state, clock)
            == clock.wall_ns->0,
        state.tab == Tab::Clock && clock.wall_ns is None ==> reading(state, clock)
            == clock.elapsed_ns,
        state.tab == Tab::Stopwatch ==> reading(state, clock) == clock.ns(
            state.watch.elapsed(clock.now) as u64,
        ),
        state.tab == Tab::Timer ==> reading(state, clock) == state.timer.left(clock.now, clock),
        state.tab == Tab::Clock ==> is_running(state),
        state.tab == Tab::Stopwatch ==> is_running(state) == state.watch.running,
        state.tab == Tab::Timer ==> is_running(state) == state.timer.running,
        state.tab == Tab::Timer ==> read(state, clock, ease).timer == state.timer.looked_at(
            clock.now,
            clock,
        ),
        state.tab != Tab::Timer ==> read(state, clock, ease).timer == state.timer,
        state.tab == Tab::Stopwatch ==> read(state, clock, ease).watch == state.watch.noted(),
        state.tab != Tab::Stopwatch ==> read(state, clock, ease).watch == state.watch,
        read(state, clock, ease).tab == state.tab && read(state, clock, ease).readout_fade.value
            == ease.next(
            state.readout_fade.value,
            state.readout_fade.target,
            state.readout_fade.rate,
        ),
{
}

/// The digits are those of the reading, to the nanosecond at full precision and
/// to the millisecond otherwise: under a hundred hours every one of them is
/// there, and they read back as it.
pub proof fn the_digits_are_the_reading<F: Fn(u64) -> u64>(state: State, clock: Clock<F>)
    requires
        reading(state, clock) < 360_000_000_000_000,
    ensures
        ({
            let label = reading_label(state, clock);
            let ns = reading(state, clock);
            let seconds = crate::text::number_in(label.take(2)) * 3600 + crate::text::number_in(
                label.subrange(3, 5),
            ) * 60 + crate::text::number_in(label.subrange(6, 8));
            let milli = crate::text::number_in(label.subrange(9, 12));
            &&& state.precision == crate::gui::layout::Precision::Nano ==> label.len() == 20 && ns
                == (seconds * 1000 + milli) * 1_000_000 + crate::text::number_in(
                label.subrange(13, 16),
            ) * 1000 + crate::text::number_in(label.subrange(17, 20))
            &&& state.precision == crate::gui::layout::Precision::Simple ==> label.len() == 12
                && seconds * 1000 + milli == ns / 1_000_000
        }),
{
    let ns = reading(state, clock) as nat;
    crate::text::duration_fits(ns);
    crate::text::a_duration_reads_back(ns);
    let whole = duration_text(ns, true);
    let short = duration_text(ns, false);
    assert(short.take(2) =~= whole.take(2));
    assert(short.subrange(3, 5) =~= whole.subrange(3, 5));
    assert(short.subrange(6, 8) =~= whole.subrange(6, 8));
    assert(short.subrange(9, 12) =~= whole.subrange(9, 12));
    readings_are_not_negative(whole);
}

/// The fields of a duration are digits.
proof fn readings_are_not_negative(text: Seq<u8>)
    requires
        text.len() == 20,
        exists|ns: nat| text == duration_text(ns, true),
    ensures
        crate::text::number_in(text.subrange(13, 16)) >= 0,
        crate::text::number_in(text.subrange(17, 20)) >= 0,
{
    let ns = choose|ns: nat| text == duration_text(ns, true);
    crate::text::a_duration_reads_back(ns);
    crate::text::a_duration_is_digits(ns);
}

/// The digits are in the middle of their box, red once the timer has run out,
/// lit while anything runs and plain otherwise, with a halo that goes with it;
/// the box is cleared before them and faded over after them.
pub proof fn the_digits_are_in_the_middle<F: Fn(u64) -> u64>(
    layout: Layout,
    faces: Typeface,
    state: State,
    running: bool,
    label: Seq<u8>,
    clock: Clock<F>,
)
    requires
        layout.wf(),
        faces.of(layout.readout).width(printed(label)) <= layout.readout_w,
        faces.of(layout.readout).line_height <= layout.readout_h,
    ensures
        ({
            let ops = readout_picture(layout, faces, state, running, label, clock);
            let face = faces.of(layout.readout);
            let out = state.tab == Tab::Timer && state.timer.expired;
            &&& ops.len() == 3 || ops.len() == 4
            &&& (ops[0] matches Op::Fill { x, y, w, h, ink } && x == layout.readout_x && y
                == layout.readout_y && w == layout.readout_w && h == layout.readout_h && ink
                == Ink::Flat(Tone::Background))
            &&& (ops[1] matches Op::Glow { face: id, x, y, text, ink, halo, .. } && {
                let left = x - layout.readout_x;
                let right = layout.readout_w - face.width(printed(label)) - left;
                let above = y - layout.readout_y;
                let below = layout.readout_h - face.line_height - above;
                &&& id == layout.readout
                &&& text == printed(label)
                &&& 0 <= right - left <= 1
                &&& 0 <= below - above <= 1
                &&& out ==> ink == Ink::Flat(Tone::Danger)
                &&& !out && running ==> ink == Ink::Flat(Tone::Accent)
                &&& !out && !running ==> ink == Ink::Flat(Tone::Text)
                &&& running ==> halo == Tone::Glow
                &&& !running ==> halo == Tone::Shadow
            })
            &&& (ops.last() matches Op::Fade { x, y, w, h, to, alpha } && x == layout.readout_x && y
                == layout.readout_y && w == layout.readout_w && h == layout.readout_h && to
                == Tone::Background && alpha == alpha_of(state.readout_fade))
            &&& ops.len() == 4 ==> (ops[2] matches Op::Centred { text, .. } && text == printed(
                note_label(state, clock),
            ))
        }),
{
}

/// Nothing is drawn exactly where the fade has stopped and the digits are those
/// that are there; what is drawn is what is remembered.
pub proof fn the_readout_is_drawn_when_it_changes<
    F: Fn(u64) -> u64,
    E: Fn(i32, i32, i32) -> i32,
>(layout: Layout, faces: Typeface, state: State, clock: Clock<F>, ease: Ease<E>)
    ensures
        ({
            let label = reading_label(state, clock);
            let still = ease.next(
                state.readout_fade.value,
                state.readout_fade.target,
                state.readout_fade.rate,
            ) == state.readout_fade.value;
            let same = still && shown(label) == shown(state.last_readout);
            &&& same ==> readout_drawn(layout, faces, state, clock, ease).len() == 0
            &&& !same ==> readout_drawn(layout, faces, state, clock, ease).len() > 0
                && readout_after(state, clock, ease).last_readout == clip(printed(label), 24)
            &&& same ==> readout_after(state, clock, ease).last_readout == state.last_readout
        }),
{
}

} // verus!
