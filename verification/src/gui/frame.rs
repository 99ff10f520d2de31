//! One frame, part by part.

use crate::gui::bars::{hint_bar, legend_picture, status_after, status_bar, status_drawn};
use crate::gui::bars::{status_frame, status_frame_picture};
use crate::gui::canvas::{Canvas, Drawn, FaceId, Ink, Op, Tone, Typeface, MAX_TEXT};
use crate::gui::cards::{cards, cards_picture, Report, Tables};
use crate::gui::header::{clock_after, clock_box, clock_drawn, header, header_clock};
use crate::gui::header::{header_clock_box, header_picture, shades_fit, with_buttons};
use crate::gui::layout::Layout;
use crate::gui::motion::{Ease, Hitbox};
use crate::gui::readout::{readout, readout_after, readout_drawn};
use crate::gui::rows::{machine_table, panel_table, session_table, Machine};
use crate::gui::state::{State, Ui};
use crate::gui::tabs::{at_rest, bar_picture, laid, lit_up, tab_bar};
use crate::gui::watch::Clock;
use crate::input::Input;
use crate::text::utf8;
use vstd::prelude::*;

verus! {

/// What does not change from frame to frame: where everything sits, what it is
/// set in, how things move, and what the machine is.
pub struct Scene<'a, E: Fn(i32, i32, i32) -> i32> {
    pub layout: Layout,
    pub faces: &'a Typeface,
    pub ease: &'a Ease<E>,
    pub machine: &'a Machine,
    pub version: &'a str,
}

/// Whether a layout has room for what is drawn on it: the margins, a line of
/// text in each row, the cards it gives height to, and the live clock's box.
pub open spec fn has_room(layout: Layout, faces: Typeface, version: Seq<u8>) -> bool {
    &&& layout.margin <= layout.width
    &&& 6 <= faces.body.line_height <= layout.tabs_h
    &&& faces.body.line_height / 2 <= layout.header_h / 2
    &&& layout.cards_h >= 80 ==> layout.card_w >= 40 && layout.width < 0x7000_0000
        && layout.cards_y < 0x7000_0000
    &&& shades_fit(clock_box(layout, faces, version))
}

/// Whether a layout has room for what is drawn on it.
fn room(layout: &Layout, faces: &Typeface, version: &str) -> (r: bool)
    requires
        layout.wf(),
        utf8(version).len() <= MAX_TEXT,
    ensures
        r == has_room(*layout, *faces, utf8(version)),
{
    let b: Hitbox = header_clock_box(layout, faces, version);
    if b.w > 0 && b.x + (b.w - 1) > u32::MAX / 255 {
        return false;
    }
    if layout.cards_h >= 80 && (layout.card_w < 40 || layout.width >= 0x7000_0000
        || layout.cards_y >= 0x7000_0000) {
        return false;
    }
    let line: u32 = faces.body.line_height as u32;
    if line < 6 || line > layout.tabs_h || line / 2 > layout.header_h / 2 {
        return false;
    }
    layout.margin <= layout.width
}

impl<'a, E: Fn(i32, i32, i32) -> i32> Scene<'a, E> {
    /// A screen this can be drawn on: wide enough for its margins and for
    /// the cards it has room for, and set in a face that fits the rows it
    /// goes in.
    pub open spec fn wf(self) -> bool {
        &&& self.layout.wf()
        &&& has_room(self.layout, *self.faces, utf8(self.version))
        &&& self.ease.wf()
        &&& utf8(self.version).len() <= MAX_TEXT
        &&& utf8(self.machine.backend).len() <= MAX_TEXT
    }

    /// The scene of a screen, where it can be drawn on.
    pub fn new(
        width: u32,
        height: u32,
        faces: &'a Typeface,
        ease: &'a Ease<E>,
        machine: &'a Machine,
        version: &'a str,
    ) -> (r: Option<Scene<'a, E>>)
        requires
            ease.wf(),
        ensures
            r is Some <==> {
                &&& width <= i32::MAX && height <= i32::MAX
                &&& utf8(version).len() <= MAX_TEXT
                &&& has_room(
                    crate::gui::layout::laid_out(width as int, height as int, *faces),
                    *faces,
                    utf8(version),
                )
                &&& utf8(machine.backend).len() <= MAX_TEXT
            },
            r matches Some(scene) ==> {
                &&& scene.wf()
                &&& scene.layout == crate::gui::layout::laid_out(
                    width as int,
                    height as int,
                    *faces,
                )
                &&& scene.faces == faces && scene.ease == ease && scene.machine == machine
                &&& scene.version == version
            },
    {
        if width > i32::MAX as u32 || height > i32::MAX as u32 {
            return None;
        }
        if version.as_bytes().len() > MAX_TEXT as usize || machine.backend.as_bytes().len()
            > MAX_TEXT as usize {
            return None;
        }
        let layout = Layout::for_screen(width, height, faces);
        if !room(&layout, faces, version) {
            return None;
        }
        Some(Scene { layout, faces, ease, machine, version })
    }
}

/// What is drawn before the input devices are looked for: the whole screen,
/// with a note of what is going on. Finding a keyboard can take time or fail
/// slowly, and a machine where it stalls would otherwise show nothing at all.
pub open spec fn first_picture<E: Fn(i32, i32, i32) -> i32>(
    scene: Scene<E>,
    height: u32,
    before: State,
    after: State,
) -> Seq<Drawn> {
    let layout = scene.layout;
    let placed = with_buttons(before, layout);
    let cleared = seq![
        Op::Fill { x: 0, y: 0, w: layout.width, h: height, ink: Ink::Flat(Tone::Background) },
    ] + header_picture(
        layout,
        *scene.faces,
        *scene.machine,
        utf8(scene.version),
        placed.restart,
        placed.shutdown,
    );
    let tabbed = if at_rest(laid(placed, layout, *scene.faces), after) {
        cleared
    } else {
        cleared + bar_picture(after, layout, *scene.faces)
    };
    (tabbed + legend_picture(layout, *scene.faces, after) + status_frame_picture(layout)).push(
        Op::Centred {
            face: FaceId::Heading,
            x: layout.readout_x,
            w: layout.readout_w,
            y: (layout.readout_y + layout.readout_h / 2) as u32,
            text: utf8("detecting input devices"),
            ink: Ink::Flat(Tone::Muted),
        },
    )
}

/// Draws the screen for the first time.
pub fn first_frame<E: Fn(i32, i32, i32) -> i32>(scene: &Scene<'_, E>, height: u32, ui: &mut Ui) -> (r:
    Canvas)
    requires
        scene.wf(),
        old(ui)@.wf(),
    ensures
        final(ui)@.wf(),
        final(ui)@ == lit_up(
            laid(with_buttons(old(ui)@, scene.layout), scene.layout, *scene.faces),
            *scene.ease,
        ),
        r@ == first_picture(*scene, height, old(ui)@, final(ui)@),
{
    let layout = &scene.layout;
    let mut canvas = Canvas::new();
    canvas.fill(0, 0, layout.width, height, Ink::Flat(Tone::Background));
    canvas.append(header(layout, scene.faces, ui, scene.machine, scene.version));
    if let Some(bar) = tab_bar(layout, scene.faces, ui, scene.ease) {
        canvas.append(bar);
    }
    canvas.append(hint_bar(layout, scene.faces, ui));
    canvas.append(status_frame(layout));
    canvas.centred(
        FaceId::Heading,
        layout.readout_x,
        layout.readout_w,
        layout.readout_y + layout.readout_h / 2,
        "detecting input devices",
        Ink::Flat(Tone::Muted),
    );
    canvas
}

/// What a frame draws, in the order it is presented.
pub struct Frame {
    pub clock: Canvas,
    pub tabs: Option<Canvas>,
    pub readout: Canvas,
    pub cards: Option<Canvas>,
    pub status: Canvas,
}

/// What the cards say.
pub open spec fn tables_of<F: Fn(u64) -> u64>(
    state: State,
    machine: Machine,
    clock: Clock<F>,
    input: Input,
    calls: u32,
) -> Tables {
    Tables {
        panel: state.panel,
        selected: panel_table(state.panel, machine, clock, input, calls),
        session: session_table(state.tab, state.watch, state.timer, clock),
        machine: machine_table(machine, clock.hz),
    }
}

/// The interface after each part of a frame in turn: the live clock, the row
/// of tabs, the readout, the cards, the status bar.
pub open spec fn after_tabs<F: Fn(u64) -> u64, E: Fn(i32, i32, i32) -> i32>(
    scene: Scene<E>,
    state: State,
    clock: Clock<F>,
) -> State {
    lit_up(
        laid(clock_after(state, clock, *scene.ease), scene.layout, *scene.faces),
        *scene.ease,
    )
}

pub open spec fn after_readout<F: Fn(u64) -> u64, E: Fn(i32, i32, i32) -> i32>(
    scene: Scene<E>,
    state: State,
    clock: Clock<F>,
) -> State {
    readout_after(after_tabs(scene, state, clock), clock, *scene.ease)
}

pub open spec fn after_cards<F: Fn(u64) -> u64, E: Fn(i32, i32, i32) -> i32>(
    scene: Scene<E>,
    state: State,
    clock: Clock<F>,
) -> State {
    after_readout(scene, state, clock).cards_after(*scene.ease)
}

/// Draws a frame, at one reading of the clock.
pub fn frame<F: Fn(u64) -> u64, E: Fn(i32, i32, i32) -> i32>(
    scene: &Scene<'_, E>,
    ui: &mut Ui,
    clock: &Clock<F>,
    input: &Input,
    calls: u32,
) -> (r: Frame)
    requires
        scene.wf(),
        old(ui)@.wf(),
        old(ui)@.readable(clock.now),
        clock.wf(),
    ensures
        final(ui)@.wf(),
        final(ui)@ == status_after(
            after_cards(*scene, old(ui)@, *clock),
            *scene.machine,
            *scene.ease,
        ),
        r.clock@ == clock_drawn(
            scene.layout,
            *scene.faces,
            utf8(scene.version),
            old(ui)@,
            *clock,
            *scene.ease,
        ),
        r.tabs is None <==> at_rest(
            laid(clock_after(old(ui)@, *clock, *scene.ease), scene.layout, *scene.faces),
            after_tabs(*scene, old(ui)@, *clock),
        ),
        r.tabs matches Some(tabs) ==> tabs@ == bar_picture(
            after_tabs(*scene, old(ui)@, *clock),
            scene.layout,
            *scene.faces,
        ),
        r.readout@ == readout_drawn(
            scene.layout,
            *scene.faces,
            after_tabs(*scene, old(ui)@, *clock),
            *clock,
            *scene.ease,
        ),
        r.cards is Some <==> after_readout(*scene, old(ui)@, *clock).cards_are_due(),
        r.cards matches Some(drawn) ==> drawn@ == cards_picture(
            scene.layout,
            *scene.faces,
            tables_of(
                after_cards(*scene, old(ui)@, *clock),
                *scene.machine,
                *clock,
                *input,
                calls,
            ),
            after_cards(*scene, old(ui)@, *clock).cards_fade,
        ),
        r.status@ == status_drawn(
            scene.layout,
            *scene.faces,
            after_cards(*scene, old(ui)@, *clock),
            *scene.machine,
            *clock,
            *input,
            *scene.ease,
        ),
{
    let layout = &scene.layout;
    let clock_canvas = header_clock(layout, scene.faces, ui, clock, scene.ease, scene.version);
    let tabs = tab_bar(layout, scene.faces, ui, scene.ease);
    let readout_canvas = readout(layout, scene.faces, ui, clock, scene.ease);
    let due: bool = ui.cards_due(scene.ease);
    let drawn: Option<Canvas> = if due {
        let report = Report {
            panel: ui.panel,
            tab: ui.tab,
            stopwatch: &ui.stopwatch,
            timer: &ui.timer,
            machine: scene.machine,
            clock,
            input,
            calls,
        };
        Some(cards(layout, scene.faces, &report, &ui.cards_fade))
    } else {
        None
    };
    let status = status_bar(layout, scene.faces, ui, scene.machine, clock, input, scene.ease);
    Frame { clock: clock_canvas, tabs, readout: readout_canvas, cards: drawn, status }
}

/// Drawing measures nothing: a frame leaves the mode, the panel, the precision
/// and the pointer alone, what the stopwatch has measured and recorded, and
/// what the timer was set to. All it does to an instrument is to note a
/// verdict, and to stop a timer that has run out.
pub proof fn drawing_measures_nothing<F: Fn(u64) -> u64, E: Fn(i32, i32, i32) -> i32>(
    scene: Scene<E>,
    state: State,
    clock: Clock<F>,
)
    ensures
        ({
            let after = status_after(
                after_cards(scene, state, clock),
                *scene.machine,
                *scene.ease,
            );
            &&& after.tab == state.tab && after.panel == state.panel
            &&& after.precision == state.precision
            &&& after.pointer_x == state.pointer_x && after.pointer_y == state.pointer_y
            &&& after.watch == state.watch || after.watch == state.watch.noted()
            &&& after.timer == state.timer || after.timer == state.timer.looked_at(
                clock.now,
                clock,
            )
        }),
{
    let a = clock_after(state, clock, *scene.ease);
    let b = after_tabs(scene, state, clock);
    let c = after_readout(scene, state, clock);
    assert(a.watch == state.watch && a.timer == state.timer && a.tab == state.tab);
    assert(b.watch == a.watch && b.timer == a.timer && b.tab == a.tab);
    assert(c.watch == b.watch || c.watch == b.watch.noted());
    assert(c.timer == b.timer || c.timer == b.timer.looked_at(clock.now, clock));
}

/// The first picture covers the whole screen, has the header and the legend in
/// it, and says in the readout's place that the devices are being looked for.
pub proof fn the_first_picture_covers_the_screen<E: Fn(i32, i32, i32) -> i32>(
    scene: Scene<E>,
    height: u32,
    before: State,
    after: State,
)
    ensures
        ({
            let ops = first_picture(scene, height, before, after);
            let layout = scene.layout;
            &&& (ops[0] matches Op::Fill { x, y, w, h, ink } && x == 0 && y == 0 && w == layout.width
                && h == height && ink == Ink::Flat(Tone::Background))
            &&& (ops.last() matches Op::Centred { face, x, w, y, text, ink } && face
                == FaceId::Heading && x == layout.readout_x && w == layout.readout_w && y == (
            layout.readout_y + layout.readout_h / 2) as u32 && text == utf8(
                "detecting input devices",
            ) && ink == Ink::Flat(Tone::Muted))
        }),
{
}

/// The cards say what the interface has selected, and of the instrument that is
/// current.
pub proof fn the_cards_are_of_the_selection<F: Fn(u64) -> u64>(
    state: State,
    machine: Machine,
    clock: Clock<F>,
    input: Input,
    calls: u32,
)
    ensures
        ({
            let tables = tables_of(state, machine, clock, input, calls);
            &&& tables.panel == state.panel
            &&& tables.selected == panel_table(state.panel, machine, clock, input, calls)
            &&& tables.session == session_table(state.tab, state.watch, state.timer, clock)
            &&& tables.machine == machine_table(machine, clock.hz)
        }),
{
}

/// A frame leaves the selection, the pointer and the instruments' settings as
/// they are; what was asked to be drawn is, so nothing is left to draw again.
pub proof fn a_frame_leaves_the_selection<F: Fn(u64) -> u64, E: Fn(i32, i32, i32) -> i32>(
    scene: Scene<E>,
    state: State,
    clock: Clock<F>,
)
    ensures
        ({
            let after = status_after(after_cards(scene, state, clock), *scene.machine, *scene.ease);
            &&& after.tab == state.tab && after.panel == state.panel && after.precision
                == state.precision
            &&& after.pointer_x == state.pointer_x && after.pointer_y == state.pointer_y
            &&& after.watch.accumulated == state.watch.accumulated && after.watch.laps == state.watch.laps
                && after.watch.running == state.watch.running
            &&& after.timer.target_ns == state.timer.target_ns
            &&& !after.chrome_dirty && !after.cards_dirty
        }),
{
}

} // verus!
