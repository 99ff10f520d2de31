//! The row under the header: modes on the left, panel chips on the right.

use crate::gui::canvas::{Canvas, Drawn, FaceId, Ink, Op, Tone, Typeface};
use crate::gui::layout::{rest, short_ascii, Layout, Panel, Tab};
use crate::gui::motion::{clamp, held, length, length_of, lit, lit_of, Control, Ease, Hitbox};
use crate::gui::motion::Tween;
use crate::gui::state::{State, Ui};
use crate::text::utf8;
use vstd::prelude::*;

verus! {

// ---------------------------------------------------------------------------
// Where everything in the row goes
// ---------------------------------------------------------------------------

/// What a tab's cell says.
pub open spec fn tab_label(i: int) -> Seq<u8> {
    vstd::utf8::encode_utf8(Tab::nth(i).label())
}

/// How wide a tab's cell is.
pub open spec fn tab_w(faces: Typeface, i: int) -> int {
    faces.body.width(tab_label(i)) as int + 40
}

/// Where the `n`th tab's cell starts, one after the other from the margin.
pub open spec fn tab_x(layout: Layout, faces: Typeface, n: int) -> int
    decreases n,
{
    if n <= 0 {
        layout.margin as int
    } else {
        tab_x(layout, faces, n - 1) + tab_w(faces, n - 1)
    }
}

/// A tab's cell.
pub open spec fn tab_box(layout: Layout, faces: Typeface, i: int) -> Hitbox {
    Hitbox {
        x: tab_x(layout, faces, i) as u32,
        y: layout.tabs_y,
        w: tab_w(faces, i) as u32,
        h: layout.tabs_h,
    }
}

/// How tall a chip is, and where it hangs in the row.
pub open spec fn chip_h(layout: Layout) -> int {
    held(layout.tabs_h * 3 / 5, 22, 34)
}

pub open spec fn chip_y(layout: Layout) -> int {
    layout.tabs_y + (layout.tabs_h - chip_h(layout)) / 2
}

/// What a chip says, long or short.
pub open spec fn chip_label(short: bool, i: int) -> Seq<u8> {
    vstd::utf8::encode_utf8(
        if short {
            Panel::nth(i).short_label()
        } else {
            Panel::nth(i).label()
        },
    )
}

/// How wide a chip is.
pub open spec fn chip_w(faces: Typeface, short: bool, i: int) -> int {
    faces.body.width(chip_label(short, i)) as int + 22
}

/// Where the `i`th chip starts, one before the other from the right margin.
pub open spec fn chip_x(layout: Layout, faces: Typeface, short: bool, i: int) -> int
    decreases 6 - i,
{
    if i >= 6 {
        rest(layout.width as int, layout.margin as int)
    } else {
        chip_x(layout, faces, short, i + 1) - chip_w(faces, short, i) - 8
    }
}

/// Whether the `i`th chip stays clear of the tabs.
pub open spec fn chip_clears(layout: Layout, faces: Typeface, short: bool, i: int) -> bool {
    chip_x(layout, faces, short, i + 1) - chip_w(faces, short, i) > tab_x(layout, faces, 3) + 24
}

/// Whether all of them do.
pub open spec fn chips_fit(layout: Layout, faces: Typeface, short: bool) -> bool {
    forall|i: int| 0 <= i < 6 ==> #[trigger] chip_clears(layout, faces, short, i)
}

/// Which labels the chips carry: the long ones where they fit, the short ones
/// where only those do, and none where the row is too narrow for either. Any
/// that will not fit are dropped rather than overlapping the tabs.
pub open spec fn chip_labels(layout: Layout, faces: Typeface) -> Option<bool> {
    if chips_fit(layout, faces, false) {
        Some(false)
    } else if chips_fit(layout, faces, true) {
        Some(true)
    } else {
        None
    }
}

/// A chip's box, with labels of one kind.
pub open spec fn chip_box_at(layout: Layout, faces: Typeface, short: bool, i: int) -> Hitbox {
    Hitbox {
        x: chip_x(layout, faces, short, i) as u32,
        y: chip_y(layout) as u32,
        w: chip_w(faces, short, i) as u32,
        h: chip_h(layout) as u32,
    }
}

/// A chip's box.
pub open spec fn chip_box(layout: Layout, faces: Typeface, i: int) -> Hitbox {
    match chip_labels(layout, faces) {
        Some(short) => chip_box_at(layout, faces, short, i),
        None => Hitbox::nowhere(),
    }
}

/// Where the run of chips starts.
pub open spec fn chips_left(layout: Layout, faces: Typeface) -> int {
    match chip_labels(layout, faces) {
        Some(short) => chip_x(layout, faces, short, 0),
        None => rest(layout.width as int, layout.margin as int),
    }
}

/// The precision toggle's box, left of the chips where there is room for it.
pub open spec fn precision_box(layout: Layout, faces: Typeface) -> Hitbox {
    let w = faces.body.width(utf8("SIMPLE")) as int + 22;
    let left = chips_left(layout, faces);
    if rest(left, w + 12) > tab_x(layout, faces, 3) + 24 {
        Hitbox {
            x: (left - w - 12) as u32,
            y: chip_y(layout) as u32,
            w: w as u32,
            h: chip_h(layout) as u32,
        }
    } else {
        Hitbox::nowhere()
    }
}

/// Nothing in the row overlaps: the tabs stand side by side, and every chip
/// that is shown starts after the tabs and ends before the next one does, and
/// before the right margin.
pub proof fn the_row_does_not_overlap(layout: Layout, faces: Typeface, i: int)
    requires
        layout.wf(),
        0 <= i < 6,
    ensures
        i < 2 ==> tab_x(layout, faces, i) + tab_w(faces, i) == tab_x(layout, faces, i + 1),
        chip_labels(layout, faces) matches Some(short) ==> {
            let x = chip_x(layout, faces, short, i);
            &&& tab_x(layout, faces, 3) + 16 < x
            &&& x + chip_w(faces, short, i) + 8 == chip_x(layout, faces, short, i + 1)
            &&& x + chip_w(faces, short, i) + layout.margin <= layout.width
        },
{
    if let Some(short) = chip_labels(layout, faces) {
        assert(chip_clears(layout, faces, short, i));
        assert(tab_x(layout, faces, 3) >= 0) by {
            reveal_with_fuel(tab_x, 4);
        }
        chips_end_before(layout, faces, short, i + 1);
        assert(chip_clears(layout, faces, short, 5));
    }
}

/// Chips start one before the other.
proof fn chips_end_before(layout: Layout, faces: Typeface, short: bool, i: int)
    ensures
        chip_x(layout, faces, short, i) <= rest(layout.width as int, layout.margin as int),
    decreases 6 - i,
{
    if i < 6 {
        chips_end_before(layout, faces, short, i + 1);
    }
}

/// The tabs end within a few cells of the margin.
proof fn tabs_end_soon(layout: Layout, faces: Typeface)
    requires
        layout.wf(),
    ensures
        forall|i: int|
            0 <= i < 3 ==> #[trigger] tab_w(faces, i) <= 2_335,
        forall|i: int| 0 <= i <= 3 ==> 0 <= #[trigger] tab_x(layout, faces, i) <= 8_000,
{
    short_ascii();
    crate::gui::canvas::width_is_bounded(faces.body, utf8("CLOCK"));
    crate::gui::canvas::width_is_bounded(faces.body, utf8("STOPWATCH"));
    crate::gui::canvas::width_is_bounded(faces.body, utf8("TIMER"));
    reveal_with_fuel(tab_x, 4);
    assert forall|i: int| 0 <= i < 3 implies #[trigger] tab_w(faces, i) <= 2_335 by {
        assert(i == 0 || i == 1 || i == 2);
    }
    assert forall|i: int| 0 <= i <= 3 implies 0 <= #[trigger] tab_x(layout, faces, i) <= 8_000 by {
        assert(i == 0 || i == 1 || i == 2 || i == 3);
        assert(tab_x(layout, faces, 1) == layout.margin + tab_w(faces, 0));
        assert(tab_x(layout, faces, 2) == tab_x(layout, faces, 1) + tab_w(faces, 1));
        assert(tab_x(layout, faces, 3) == tab_x(layout, faces, 2) + tab_w(faces, 2));
    }
}

// ---------------------------------------------------------------------------
// The row's state
// ---------------------------------------------------------------------------

/// The interface with the row laid out.
pub open spec fn laid(state: State, layout: Layout, faces: Typeface) -> State {
    State {
        tabs: Seq::new(
            3,
            |i: int| Control { box_: tab_box(layout, faces, i), ..state.tabs[i] },
        ),
        chips: Seq::new(
            6,
            |i: int| Control { box_: chip_box(layout, faces, i), ..state.chips[i] },
        ),
        precision_chip: Control {
            box_: precision_box(layout, faces),
            ..state.precision_chip
        },
        ..state
    }
}

/// A control one frame on, under a pointer.
pub open spec fn under_pointer<F: Fn(i32, i32, i32) -> i32>(
    state: State,
    control: Control,
    selected: bool,
    ease: Ease<F>,
) -> Control {
    control.stepped(
        control.box_.covers(state.pointer_x as int, state.pointer_y as int),
        selected,
        ease,
    )
}

/// The interface with every highlight in the row stepped. The underline
/// chases the selected tab rather than jumping to it.
pub open spec fn lit_up<F: Fn(i32, i32, i32) -> i32>(state: State, ease: Ease<F>) -> State {
    let selected = state.tabs[state.tab.place()].box_;
    State {
        chrome_dirty: false,
        tabs: Seq::new(
            3,
            |i: int| under_pointer(state, state.tabs[i], Tab::nth(i) == state.tab, ease),
        ),
        chips: Seq::new(
            6,
            |i: int| under_pointer(state, state.chips[i], Panel::nth(i) == state.panel, ease),
        ),
        precision_chip: under_pointer(state, state.precision_chip, false, ease),
        underline_x: (Tween { target: selected.x as i32, ..state.underline_x }).stepped(ease),
        underline_w: (Tween { target: selected.w as i32, ..state.underline_w }).stepped(ease),
        ..state
    }
}

/// Whether nothing in the row moved, and nothing asked for it to be drawn.
pub open spec fn at_rest(before: State, after: State) -> bool {
    &&& !before.chrome_dirty
    &&& forall|i: int|
        0 <= i < 3 ==> (#[trigger] after.tabs[i]).highlight.value
            == before.tabs[i].highlight.value
    &&& forall|i: int|
        0 <= i < 6 ==> (#[trigger] after.chips[i]).highlight.value
            == before.chips[i].highlight.value
    &&& after.precision_chip.highlight.value == before.precision_chip.highlight.value
    &&& after.underline_x.value == before.underline_x.value
    &&& after.underline_w.value == before.underline_w.value
}

// ---------------------------------------------------------------------------
// The row's picture
// ---------------------------------------------------------------------------

/// The first `n` tabs, over the row's background. A tab is not a pill: it
/// fills its cell and is marked by the underline.
pub open spec fn tabs_picture(state: State, layout: Layout, faces: Typeface, n: int) -> Seq<Drawn>
    decreases n,
{
    if n <= 0 {
        seq![
            Op::Fill {
                x: 0,
                y: layout.tabs_y,
                w: layout.width,
                h: layout.tabs_h,
                ink: Ink::Flat(Tone::Background),
            },
            Op::Fill {
                x: 0,
                y: (layout.tabs_y + layout.tabs_h - 1) as u32,
                w: layout.width,
                h: 1,
                ink: Ink::Flat(Tone::Divider),
            },
        ]
    } else {
        let before = tabs_picture(state, layout, faces, n - 1);
        let b = state.tabs[n - 1].box_;
        let lit = lit_of(state.tabs[n - 1].highlight);
        let filled = if lit > 0 {
            before.push(
                Op::Fill {
                    x: b.x,
                    y: b.y,
                    w: b.w,
                    h: (b.h - 1) as u32,
                    ink: Ink::Mix {
                        from: Tone::Background,
                        to: Tone::Panel,
                        permille: lit as u32,
                    },
                },
            )
        } else {
            before
        };
        filled.push(
            Op::Centred {
                face: FaceId::Body,
                x: b.x,
                w: b.w,
                y: (b.y + (b.h - faces.body.line_height) / 2) as u32,
                text: tab_label(n - 1),
                ink: Ink::Mix { from: Tone::Muted, to: Tone::Title, permille: lit as u32 },
            },
        )
    }
}

/// The first `n` chips, after the tabs and their underline.
pub open spec fn chips_picture(
    state: State,
    layout: Layout,
    faces: Typeface,
    short: bool,
    n: int,
) -> Seq<Drawn>
    decreases n,
{
    if n <= 0 {
        tabs_picture(state, layout, faces, 3).push(
            Op::Underline {
                x: length_of(state.underline_x) as u32,
                y: (layout.tabs_y + layout.tabs_h - 3) as u32,
                w: length_of(state.underline_w) as u32,
                tone: Tone::Accent,
                glow: Tone::Glow,
            },
        )
    } else {
        let before = chips_picture(state, layout, faces, short, n - 1);
        let control = state.chips[n - 1];
        let b = control.box_;
        if b.w == 0 {
            before
        } else {
            before.push(
                Op::Chip {
                    face: FaceId::Body,
                    x: b.x,
                    y: b.y,
                    w: b.w,
                    h: b.h,
                    text: chip_label(short, n - 1),
                    ink: control.ink(),
                    label: control.label_ink(),
                },
            )
        }
    }
}

/// The row.
pub open spec fn bar_picture(state: State, layout: Layout, faces: Typeface) -> Seq<Drawn> {
    let short = chip_labels(layout, faces) == Some(true);
    let before = chips_picture(state, layout, faces, short, 6);
    let b = state.precision_chip.box_;
    if b.w == 0 {
        before
    } else {
        before.push(
            Op::Chip {
                face: FaceId::Body,
                x: b.x,
                y: b.y,
                w: b.w,
                h: b.h,
                text: vstd::utf8::encode_utf8(state.precision.label()),
                ink: Ink::Mix { from: Tone::Panel, to: Tone::Hover, permille: 600 },
                label: Ink::Flat(Tone::Accent),
            },
        )
    }
}

// ---------------------------------------------------------------------------
// The row itself
// ---------------------------------------------------------------------------

/// Lays the tabs out, and says where they end.
fn lay_tabs(layout: &Layout, faces: &Typeface, tabs: &mut [Control; 3]) -> (r: u32)
    requires
        layout.wf(),
    ensures
        r == tab_x(*layout, *faces, 3),
        r <= 8_000,
        forall|i: int|
            0 <= i < 3 ==> #[trigger] final(tabs)@[i] == (Control {
                box_: tab_box(*layout, *faces, i),
                ..old(tabs)@[i]
            }),
{
    proof {
        tabs_end_soon(*layout, *faces);
    }
    let mut x: u32 = layout.margin;
    let mut i: usize = 0;
    while i < 3
        invariant
            i <= 3,
            layout.wf(),
            x == tab_x(*layout, *faces, i as int),
            forall|k: int| 0 <= k < 3 ==> #[trigger] tab_w(*faces, k) <= 2_335,
            forall|k: int|
                0 <= k <= 3 ==> 0 <= #[trigger] tab_x(*layout, *faces, k) <= 8_000,
            forall|k: int|
                0 <= k < i ==> #[trigger] tabs@[k] == (Control {
                    box_: tab_box(*layout, *faces, k),
                    ..old(tabs)@[k]
                }),
            forall|k: int| i <= k < 3 ==> #[trigger] tabs@[k] == old(tabs)@[k],
        decreases 3 - i,
    {
        let w: u32 = faces.body.width_of(Tab::at(i).name()) + 40;
        assert(w == tab_w(*faces, i as int));
        let control = Control {
            box_: Hitbox { x, y: layout.tabs_y, w, h: layout.tabs_h },
            highlight: tabs[i].highlight,
        };
        tabs[i] = control;
        x = x + w;
        i += 1;
    }
    x
}

/// What a chip says, long or short.
fn chip_name(short: bool, i: usize) -> (r: &'static str)
    ensures
        utf8(r) == chip_label(short, i as int),
        utf8(r).len() <= 10,
{
    if short {
        Panel::at(i).short()
    } else {
        Panel::at(i).name()
    }
}

/// The chips' boxes with labels of one kind, and where the run starts, if all
/// of them stay clear of the tabs.
fn lay_chips(layout: &Layout, faces: &Typeface, tabs_end: u32, short: bool) -> (r: Option<
    ([Hitbox; 6], u32),
>)
    requires
        layout.wf(),
        tabs_end == tab_x(*layout, *faces, 3),
        tabs_end <= 8_000,
    ensures
        r is Some <==> chips_fit(*layout, *faces, short),
        r matches Some((boxes, left)) ==> {
            &&& left == chip_x(*layout, *faces, short, 0)
            &&& forall|i: int|
                0 <= i < 6 ==> #[trigger] boxes@[i] == chip_box_at(*layout, *faces, short, i)
                    && boxes@[i].wf()
        },
{
    let nowhere = Hitbox::default();
    let mut boxes: [Hitbox; 6] = [nowhere, nowhere, nowhere, nowhere, nowhere, nowhere];
    let height: u32 = clamp(layout.tabs_h * 3 / 5, 22, 34);
    let y: u32 = layout.tabs_y + (layout.tabs_h - height) / 2;
    let mut cursor: u32 = layout.width.saturating_sub(layout.margin);
    let mut i: usize = 6;
    while i > 0
        invariant
            i <= 6,
            layout.wf(),
            tabs_end == tab_x(*layout, *faces, 3),
            tabs_end <= 8_000,
            height == chip_h(*layout),
            y == chip_y(*layout),
            cursor == chip_x(*layout, *faces, short, i as int),
            cursor <= layout.width,
            forall|k: int| i <= k < 6 ==> #[trigger] chip_clears(*layout, *faces, short, k),
            forall|k: int|
                i <= k < 6 ==> #[trigger] boxes@[k] == chip_box_at(*layout, *faces, short, k)
                    && boxes@[k].wf(),
        decreases i,
    {
        i -= 1;
        let w: u32 = faces.body.width_of(chip_name(short, i)) + 22;
        assert(w == chip_w(*faces, short, i as int));
        if cursor.saturating_sub(w) <= tabs_end + 24 {
            assert(!chip_clears(*layout, *faces, short, i as int));
            return None;
        }
        assert(chip_clears(*layout, *faces, short, i as int));
        cursor = cursor - (w + 8);
        boxes[i] = Hitbox { x: cursor, y, w, h: height };
    }
    Some((boxes, cursor))
}

/// The chips' boxes, where the run starts, and whether they carry their short
/// labels. Short labels are tried before a chip is given up entirely.
fn choose_chips(layout: &Layout, faces: &Typeface, tabs_end: u32) -> (r: (
    [Hitbox; 6],
    u32,
    bool,
))
    requires
        layout.wf(),
        tabs_end == tab_x(*layout, *faces, 3),
        tabs_end <= 8_000,
    ensures
        forall|i: int|
            0 <= i < 6 ==> #[trigger] r.0@[i] == chip_box(*layout, *faces, i) && r.0@[i].wf(),
        r.1 == chips_left(*layout, *faces),
        chip_labels(*layout, *faces) is Some ==> r.2 == (chip_labels(*layout, *faces)
            == Some(true)),
{
    if let Some((boxes, left)) = lay_chips(layout, faces, tabs_end, false) {
        return (boxes, left, false);
    }
    if let Some((boxes, left)) = lay_chips(layout, faces, tabs_end, true) {
        return (boxes, left, true);
    }
    let nowhere = Hitbox::default();
    let boxes: [Hitbox; 6] = [nowhere, nowhere, nowhere, nowhere, nowhere, nowhere];
    (boxes, layout.width.saturating_sub(layout.margin), true)
}

/// Puts the chips in their boxes.
fn place_chips(chips: &mut [Control; 6], boxes: &[Hitbox; 6])
    ensures
        forall|i: int|
            0 <= i < 6 ==> #[trigger] final(chips)@[i] == (Control {
                box_: boxes@[i],
                ..old(chips)@[i]
            }),
{
    let mut i: usize = 0;
    while i < 6
        invariant
            i <= 6,
            forall|k: int|
                0 <= k < i ==> #[trigger] chips@[k] == (Control {
                    box_: boxes@[k],
                    ..old(chips)@[k]
                }),
            forall|k: int| i <= k < 6 ==> #[trigger] chips@[k] == old(chips)@[k],
        decreases 6 - i,
    {
        let control = Control { box_: boxes[i], highlight: chips[i].highlight };
        chips[i] = control;
        i += 1;
    }
}

/// The precision toggle's box.
fn lay_precision(layout: &Layout, faces: &Typeface, tabs_end: u32, left: u32) -> (r: Hitbox)
    requires
        layout.wf(),
        tabs_end == tab_x(*layout, *faces, 3),
        tabs_end <= 8_000,
        left == chips_left(*layout, *faces),
        left <= layout.width,
    ensures
        r == precision_box(*layout, *faces),
        r.wf(),
{
    proof {
        short_ascii();
    }
    let w: u32 = faces.body.width_of("SIMPLE") + 22;
    if left.saturating_sub(w + 12) > tabs_end + 24 {
        let height: u32 = clamp(layout.tabs_h * 3 / 5, 22, 34);
        let y: u32 = layout.tabs_y + (layout.tabs_h - height) / 2;
        Hitbox { x: left - w - 12, y, w, h: height }
    } else {
        Hitbox::default()
    }
}

/// Lays the whole row out; whether the chips carry their short labels.
fn lay_row(layout: &Layout, faces: &Typeface, ui: &mut Ui) -> (r: bool)
    requires
        layout.wf(),
        old(ui)@.wf(),
    ensures
        final(ui)@.wf(),
        final(ui)@ == laid(old(ui)@, *layout, *faces),
        chip_labels(*layout, *faces) is Some ==> r == (chip_labels(*layout, *faces) == Some(
            true,
        )),
{
    let end: u32 = lay_tabs(layout, faces, &mut ui.tabs);
    let (boxes, left, short): ([Hitbox; 6], u32, bool) = choose_chips(layout, faces, end);
    proof {
        chips_end_before(*layout, *faces, false, 0);
        chips_end_before(*layout, *faces, true, 0);
        tabs_end_soon(*layout, *faces);
    }
    place_chips(&mut ui.chips, &boxes);
    ui.precision_chip.box_ = lay_precision(layout, faces, end, left);
    proof {
        assert(ui@.tabs =~= laid(old(ui)@, *layout, *faces).tabs);
        assert(ui@.chips =~= laid(old(ui)@, *layout, *faces).chips);
        assert forall|i: int| 0 <= i < 3 implies (#[trigger] ui@.tabs[i]).box_.wf() by {
            assert(tab_x(*layout, *faces, i) <= 8_000 && tab_w(*faces, i) <= 2_335);
        }
        assert forall|i: int| 0 <= i < 6 implies (#[trigger] ui@.chips[i]).box_.wf() by {
            assert(boxes@[i].wf());
        }
    }
    short
}

/// Steps every highlight in the row; whether any of them moved, or something
/// asked for the row to be drawn.
fn step_row<F: Fn(i32, i32, i32) -> i32>(ui: &mut Ui, ease: &Ease<F>) -> (r: bool)
    requires
        old(ui)@.wf(),
        ease.wf(),
    ensures
        final(ui)@.wf(),
        final(ui)@ == lit_up(old(ui)@, *ease),
        r == !at_rest(old(ui)@, final(ui)@),
{
    let ghost start = ui@;
    let (px, py): (i32, i32) = (ui.pointer_x, ui.pointer_y);
    let dirty: bool = ui.chrome_dirty;
    let mut moved: bool = dirty;
    ui.chrome_dirty = false;
    let mut i: usize = 0;
    while i < 3
        invariant
            i <= 3,
            start.wf(),
            ease.wf(),
            dirty == start.chrome_dirty,
            px == start.pointer_x && py == start.pointer_y,
            ui@ == (State { tabs: ui.tabs@, chrome_dirty: false, ..start }),
            forall|k: int|
                0 <= k < i ==> #[trigger] ui.tabs@[k] == under_pointer(
                    start,
                    start.tabs[k],
                    Tab::nth(k) == start.tab,
                    *ease,
                ),
            forall|k: int| i <= k < 3 ==> #[trigger] ui.tabs@[k] == start.tabs[k],
            moved == (dirty || exists|k: int|
                0 <= k < i && (#[trigger] ui.tabs@[k]).highlight.value
                    != start.tabs[k].highlight.value),
        decreases 3 - i,
    {
        let mut control: Control = ui.tabs[i];
        assert(control == start.tabs[i as int]);
        let hovered: bool = control.box_.contains(px, py);
        let ghost so_far = ui.tabs@;
        let stepped: bool = control.step(hovered, Tab::at(i) == ui.tab, ease);
        ui.tabs[i] = control;
        proof {
            assert(forall|k: int| 0 <= k < 3 && k != i ==> ui.tabs@[k] == so_far[k]);
            assert(ui.tabs@[i as int] == control);
            if moved && !dirty {
                let k = choose|k: int|
                    0 <= k < i && (#[trigger] so_far[k]).highlight.value
                        != start.tabs[k].highlight.value;
                assert(ui.tabs@[k].highlight.value != start.tabs[k].highlight.value);
            }
        }
        moved = moved || stepped;
        i += 1;
    }
    let ghost tabs = ui.tabs@;
    let ghost after_tabs = moved;
    let mut i: usize = 0;
    while i < 6
        invariant
            i <= 6,
            start.wf(),
            ease.wf(),
            px == start.pointer_x && py == start.pointer_y,
            tabs.len() == 3,
            ui@ == (State { tabs, chips: ui.chips@, chrome_dirty: false, ..start }),
            forall|k: int|
                0 <= k < i ==> #[trigger] ui.chips@[k] == under_pointer(
                    start,
                    start.chips[k],
                    Panel::nth(k) == start.panel,
                    *ease,
                ),
            forall|k: int| i <= k < 6 ==> #[trigger] ui.chips@[k] == start.chips[k],
            moved == (after_tabs || exists|k: int|
                0 <= k < i && (#[trigger] ui.chips@[k]).highlight.value
                    != start.chips[k].highlight.value),
        decreases 6 - i,
    {
        let mut control: Control = ui.chips[i];
        assert(control == start.chips[i as int]);
        let hovered: bool = control.box_.contains(px, py);
        let ghost so_far = ui.chips@;
        let stepped: bool = control.step(hovered, Panel::at(i) == ui.panel, ease);
        ui.chips[i] = control;
        proof {
            assert(forall|k: int| 0 <= k < 6 && k != i ==> ui.chips@[k] == so_far[k]);
            assert(ui.chips@[i as int] == control);
            if moved && !after_tabs {
                let k = choose|k: int|
                    0 <= k < i && (#[trigger] so_far[k]).highlight.value
                        != start.chips[k].highlight.value;
                assert(ui.chips@[k].highlight.value != start.chips[k].highlight.value);
            }
        }
        moved = moved || stepped;
        i += 1;
    }
    let hovered: bool = ui.precision_chip.box_.contains(px, py);
    let chip_moved: bool = ui.precision_chip.step(hovered, false, ease);
    let place: usize = ui.tab.position();
    let selected: Hitbox = ui.tabs[place].box_;
    assert(selected == start.tabs[start.tab.place()].box_);
    ui.underline_x.retarget(selected.x as i32);
    ui.underline_w.retarget(selected.w as i32);
    let x_moved: bool = ui.underline_x.step(ease);
    let w_moved: bool = ui.underline_w.step(ease);
    proof {
        assert(ui@.tabs =~= lit_up(start, *ease).tabs);
        assert(ui@.chips =~= lit_up(start, *ease).chips);
        assert forall|i: int| 0 <= i < 3 implies (#[trigger] ui@.tabs[i]).box_.wf() by {
            assert(ui@.tabs[i].box_ == start.tabs[i].box_);
        }
        assert forall|i: int| 0 <= i < 6 implies (#[trigger] ui@.chips[i]).box_.wf() by {
            assert(ui@.chips[i].box_ == start.chips[i].box_);
        }
    }
    moved || chip_moved || x_moved || w_moved
}

/// Draws the row.
fn draw_row(layout: &Layout, faces: &Typeface, ui: &Ui, short: bool) -> (r: Canvas)
    requires
        layout.wf(),
        ui@.wf(),
        faces.body.line_height <= layout.tabs_h,
        forall|i: int|
            0 <= i < 3 ==> (#[trigger] ui@.tabs[i]).box_ == tab_box(*layout, *faces, i),
        forall|i: int|
            0 <= i < 6 ==> (#[trigger] ui@.chips[i]).box_ == chip_box(*layout, *faces, i),
        chip_labels(*layout, *faces) is Some ==> short == (chip_labels(*layout, *faces)
            == Some(true)),
    ensures
        r@ == bar_picture(ui@, *layout, *faces),
{
    let (y, h): (u32, u32) = (layout.tabs_y, layout.tabs_h);
    let ghost named = chip_labels(*layout, *faces) == Some(true);
    let mut canvas = Canvas::new();
    canvas.fill(0, y, layout.width, h, Ink::Flat(Tone::Background));
    canvas.fill(0, y + h - 1, layout.width, 1, Ink::Flat(Tone::Divider));
    let mut i: usize = 0;
    while i < 3
        invariant
            i <= 3,
            layout.wf(),
            h == layout.tabs_h,
            faces.body.line_height <= layout.tabs_h,
            forall|k: int|
                0 <= k < 3 ==> (#[trigger] ui@.tabs[k]).box_ == tab_box(*layout, *faces, k),
            canvas@ == tabs_picture(ui@, *layout, *faces, i as int),
        decreases 3 - i,
    {
        assert(ui@.tabs[i as int].box_ == tab_box(*layout, *faces, i as int));
        let b: Hitbox = ui.tabs[i].box_;
        let lit: u32 = lit(&ui.tabs[i].highlight);
        if lit > 0 {
            canvas.fill(
                b.x,
                b.y,
                b.w,
                b.h - 1,
                Ink::Mix { from: Tone::Background, to: Tone::Panel, permille: lit },
            );
        }
        canvas.centred(
            FaceId::Body,
            b.x,
            b.w,
            b.y + (b.h - faces.body.line_height as u32) / 2,
            Tab::at(i).name(),
            Ink::Mix { from: Tone::Muted, to: Tone::Title, permille: lit },
        );
        i += 1;
    }
    canvas.push(
        Op::Underline {
            x: length(&ui.underline_x),
            y: y + h - 3,
            w: length(&ui.underline_w),
            tone: Tone::Accent,
            glow: Tone::Glow,
        },
    );
    let mut i: usize = 0;
    while i < 6
        invariant
            i <= 6,
            named == (chip_labels(*layout, *faces) == Some(true)),
            chip_labels(*layout, *faces) is Some ==> short == named,
            forall|k: int|
                0 <= k < 6 ==> (#[trigger] ui@.chips[k]).box_ == chip_box(*layout, *faces, k),
            canvas@ == chips_picture(ui@, *layout, *faces, named, i as int),
        decreases 6 - i,
    {
        assert(ui@.chips[i as int].box_ == chip_box(*layout, *faces, i as int));
        let b: Hitbox = ui.chips[i].box_;
        if b.w != 0 {
            canvas.chip(
                b.x,
                b.y,
                b.w,
                b.h,
                chip_name(short, i),
                ui.chips[i].colour(),
                ui.chips[i].label_colour(),
            );
        }
        i += 1;
    }
    let b: Hitbox = ui.precision_chip.box_;
    if b.w > 0 {
        canvas.chip(
            b.x,
            b.y,
            b.w,
            b.h,
            ui.precision.name(),
            Ink::Mix { from: Tone::Panel, to: Tone::Hover, permille: 600 },
            Ink::Flat(Tone::Accent),
        );
    }
    canvas
}

/// The row under the header. Returns what to draw where anything moved, so
/// the caller only presents a row that actually changed.
pub fn tab_bar<F: Fn(i32, i32, i32) -> i32>(
    layout: &Layout,
    faces: &Typeface,
    ui: &mut Ui,
    ease: &Ease<F>,
) -> (r: Option<Canvas>)
    requires
        layout.wf(),
        old(ui)@.wf(),
        ease.wf(),
        faces.body.line_height <= layout.tabs_h,
    ensures
        final(ui)@.wf(),
        final(ui)@ == lit_up(laid(old(ui)@, *layout, *faces), *ease),
        r is None <==> at_rest(laid(old(ui)@, *layout, *faces), final(ui)@),
        r matches Some(canvas) ==> canvas@ == bar_picture(final(ui)@, *layout, *faces),
{
    let short: bool = lay_row(layout, faces, ui);
    let ghost placed = ui@;
    let moved: bool = step_row(ui, ease);
    if !moved {
        return None;
    }
    proof {
        assert forall|i: int| 0 <= i < 3 implies (#[trigger] ui@.tabs[i]).box_ == tab_box(
            *layout,
            *faces,
            i,
        ) by {
            assert(ui@.tabs[i].box_ == placed.tabs[i].box_);
        }
        assert forall|i: int| 0 <= i < 6 implies (#[trigger] ui@.chips[i]).box_ == chip_box(
            *layout,
            *faces,
            i,
        ) by {
            assert(ui@.chips[i].box_ == placed.chips[i].box_);
        }
    }
    Some(draw_row(layout, faces, ui, short))
}

/// The tabs say what they are and are forty pixels wider than that; the chips
/// are twenty-two wider than theirs, three fifths as tall as the row within
/// bounds, and in its middle. Where none fits there is none, and the short labels
/// are taken only where the long ones do not fit.
pub proof fn every_control_has_its_size(layout: Layout, faces: Typeface, i: int)
    requires
        layout.wf(),
        0 <= i < 6,
    ensures
        tab_label(0) == utf8("CLOCK") && tab_label(1) == utf8("STOPWATCH") && tab_label(2) == utf8(
            "TIMER",
        ),
        i < 3 ==> tab_w(faces, i) == 40 + faces.body.width(tab_label(i)),
        tab_x(layout, faces, 0) == layout.margin,
        i < 3 ==> tab_box(layout, faces, i).y == layout.tabs_y && tab_box(layout, faces, i).h
            == layout.tabs_h && tab_box(layout, faces, i).x == tab_x(layout, faces, i) && tab_box(
            layout,
            faces,
            i,
        ).w == tab_w(faces, i),
        chip_w(faces, false, i) == 22 + faces.body.width(
            vstd::utf8::encode_utf8(Panel::nth(i).label()),
        ),
        chip_w(faces, true, i) == 22 + faces.body.width(
            vstd::utf8::encode_utf8(Panel::nth(i).short_label()),
        ),
        37 <= layout.tabs_h ==> chip_h(layout) == layout.tabs_h * 3 / 5,
        layout.tabs_h < 37 ==> chip_h(layout) == 22,
        0 <= (layout.tabs_y + layout.tabs_h) - (chip_y(layout) + chip_h(layout)) - (chip_y(layout)
            - layout.tabs_y) <= 1,
        chips_fit(layout, faces, false) ==> chip_labels(layout, faces) == Some(false),
        !chips_fit(layout, faces, false) && chips_fit(layout, faces, true) ==> chip_labels(
            layout,
            faces,
        ) == Some(true),
        !chips_fit(layout, faces, false) && !chips_fit(layout, faces, true) ==> chip_box(
            layout,
            faces,
            i,
        ).w == 0,
{
    reveal_with_fuel(tab_x, 4);
    tabs_end_soon(layout, faces);
}

/// Labels of a kind fit exactly where the first chip would still start more than
/// twenty-four pixels after the tabs end.
pub proof fn chips_fit_where_the_first_does(layout: Layout, faces: Typeface, short: bool)
    ensures
        chips_fit(layout, faces, short) <==> chip_x(layout, faces, short, 1) - chip_w(
            faces,
            short,
            0,
        ) > tab_x(layout, faces, 3) + 24,
{
    if chip_clears(layout, faces, short, 0) {
        assert forall|i: int| 0 <= i < 6 implies #[trigger] chip_clears(
            layout,
            faces,
            short,
            i,
        ) by {
            later_chips_are_further_right(layout, faces, short, i);
        }
    }
}

proof fn later_chips_are_further_right(layout: Layout, faces: Typeface, short: bool, i: int)
    requires
        0 <= i < 6,
    ensures
        chip_x(layout, faces, short, 1) - chip_w(faces, short, 0) <= chip_x(
            layout,
            faces,
            short,
            i + 1,
        ) - chip_w(faces, short, i),
    decreases i,
{
    if i > 0 {
        later_chips_are_further_right(layout, faces, short, i - 1);
    }
}

/// The precision toggle stands twelve pixels left of the chips, is there where
/// that is more than twenty-four pixels after the tabs, and does not overlap
/// either.
pub proof fn the_toggle_is_left_of_the_chips(layout: Layout, faces: Typeface)
    requires
        layout.wf(),
    ensures
        ({
            let b = precision_box(layout, faces);
            let w = faces.body.width(utf8("SIMPLE")) + 22;
            let left = chips_left(layout, faces);
            let there = left - w - 12 > tab_x(layout, faces, 3) + 24;
            &&& there ==> b.w == w && b.x + b.w + 12 == left && b.y == chip_y(layout) && b.h
                == chip_h(layout) && b.x > tab_x(layout, faces, 3) + 24
            &&& !there ==> b.w == 0
            &&& chip_labels(layout, faces) matches Some(short) ==> left == chip_x(
                layout,
                faces,
                short,
                0,
            )
            &&& chip_labels(layout, faces) is None && layout.margin <= layout.width ==> left
                + layout.margin == layout.width
        }),
{
    tabs_end_soon(layout, faces);
    short_ascii();
    crate::gui::canvas::width_is_bounded(faces.body, utf8("SIMPLE"));
    chips_end_before(layout, faces, false, 0);
    chips_end_before(layout, faces, true, 0);
}

/// The selected tab and the selected panel's chip light up fully, what the
/// pointer is over lights up part of the way, and everything else goes dark; the
/// underline makes for the selected tab.
pub proof fn what_lights_up<F: Fn(i32, i32, i32) -> i32>(state: State, ease: Ease<F>, i: int)
    requires
        state.wf(),
        0 <= i < 6,
    ensures
        ({
            let after = lit_up(state, ease);
            let (x, y) = (state.pointer_x as int, state.pointer_y as int);
            &&& i < 3 ==> {
                let (h, over) = (state.tabs[i].highlight, state.tabs[i].box_.covers(x, y));
                let goal = if Tab::nth(i) == state.tab {
                    1000i32
                } else if over {
                    420i32
                } else {
                    0i32
                };
                &&& after.tabs[i].highlight.value == ease.next(h.value, goal, h.rate)
                &&& after.tabs[i].box_ == state.tabs[i].box_
            }
            &&& ({
                let (h, over) = (state.chips[i].highlight, state.chips[i].box_.covers(x, y));
                let goal = if Panel::nth(i) == state.panel {
                    1000i32
                } else if over {
                    420i32
                } else {
                    0i32
                };
                &&& after.chips[i].highlight.value == ease.next(h.value, goal, h.rate)
                &&& after.chips[i].box_ == state.chips[i].box_
            })
            &&& ({
                let h = state.precision_chip.highlight;
                let goal = if state.precision_chip.box_.covers(x, y) {
                    420i32
                } else {
                    0i32
                };
                after.precision_chip.highlight.value == ease.next(h.value, goal, h.rate)
            })
            &&& i < 3 && Tab::nth(i) == state.tab ==> after.underline_x.value == ease.next(
                state.underline_x.value,
                state.tabs[i].box_.x as i32,
                state.underline_x.rate,
            ) && after.underline_w.value == ease.next(
                state.underline_w.value,
                state.tabs[i].box_.w as i32,
                state.underline_w.rate,
            )
            &&& !after.chrome_dirty
            &&& after.tab == state.tab && after.panel == state.panel && after.precision
                == state.precision
        }),
{
}

/// The row is left as it is exactly where nothing asked for it to be drawn and
/// nothing in it moved.
pub proof fn the_row_is_drawn_when_it_moves(before: State, after: State, i: int)
    requires
        0 <= i < 6,
    ensures
        at_rest(before, after) ==> !before.chrome_dirty,
        at_rest(before, after) && i < 3 ==> before.tabs[i].highlight.value
            == after.tabs[i].highlight.value,
        at_rest(before, after) ==> before.chips[i].highlight.value == after.chips[i].highlight.value,
        at_rest(before, after) ==> before.precision_chip.highlight.value
            == after.precision_chip.highlight.value && before.underline_x.value
            == after.underline_x.value && before.underline_w.value == after.underline_w.value,
        !before.chrome_dirty && before.tabs == after.tabs && before.chips == after.chips
            && before.precision_chip == after.precision_chip && before.underline_x
            == after.underline_x && before.underline_w == after.underline_w ==> at_rest(
            before,
            after,
        ),
{
    if at_rest(before, after) {
        if i < 3 {
            assert(after.tabs[i].highlight.value == before.tabs[i].highlight.value);
        }
        assert(after.chips[i].highlight.value == before.chips[i].highlight.value);
    }
}

/// A picture has this in it.
pub open spec fn shows(picture: Seq<Drawn>, i: int, op: Drawn) -> bool {
    0 <= i < picture.len() && picture[i] == op
}

/// The row shows every tab with its label in the middle of its cell, from the
/// muted tone to the title's as it lights up, and over a panel of the same share
/// where it is lit at all.
pub proof fn every_tab_is_shown(state: State, layout: Layout, faces: Typeface, i: int, n: int)
    requires
        0 <= i < n <= 3,
    ensures
        ({
            let ops = tabs_picture(state, layout, faces, n);
            let (b, lit) = (state.tabs[i].box_, lit_of(state.tabs[i].highlight) as u32);
            exists|k: int|
                2 <= k && #[trigger] shows(
                    ops,
                    k,
                    Op::Centred {
                        face: FaceId::Body,
                        x: b.x,
                        w: b.w,
                        y: (b.y + (b.h - faces.body.line_height) / 2) as u32,
                        text: tab_label(i),
                        ink: Ink::Mix { from: Tone::Muted, to: Tone::Title, permille: lit },
                    },
                ) && (lit > 0 ==> shows(
                    ops,
                    k - 1,
                    Op::Fill {
                        x: b.x,
                        y: b.y,
                        w: b.w,
                        h: (b.h - 1) as u32,
                        ink: Ink::Mix { from: Tone::Background, to: Tone::Panel, permille: lit },
                    },
                ))
        }),
        tabs_picture(state, layout, faces, n).len() >= 2,
        shows(
            tabs_picture(state, layout, faces, n),
            0,
            Op::Fill {
                x: 0,
                y: layout.tabs_y,
                w: layout.width,
                h: layout.tabs_h,
                ink: Ink::Flat(Tone::Background),
            },
        ),
    decreases n,
{
    let ops = tabs_picture(state, layout, faces, n);
    let before = tabs_picture(state, layout, faces, n - 1);
    let (b, lit) = (state.tabs[i].box_, lit_of(state.tabs[i].highlight) as u32);
    let label = Op::Centred {
        face: FaceId::Body,
        x: b.x,
        w: b.w,
        y: (b.y + (b.h - faces.body.line_height) / 2) as u32,
        text: tab_label(i),
        ink: Ink::Mix { from: Tone::Muted, to: Tone::Title, permille: lit },
    };
    let cell = Op::Fill {
        x: b.x,
        y: b.y,
        w: b.w,
        h: (b.h - 1) as u32,
        ink: Ink::Mix { from: Tone::Background, to: Tone::Panel, permille: lit },
    };
    if n > 1 {
        every_tab_is_shown(state, layout, faces, 0, n - 1);
    }
    assert(before.len() >= 2);
    if i == n - 1 {
        let k = ops.len() - 1;
        assert(shows(ops, k, label));
        assert(lit > 0 ==> shows(ops, k - 1, cell));
    } else {
        every_tab_is_shown(state, layout, faces, i, n - 1);
        let k = choose|k: int|
            2 <= k && #[trigger] shows(before, k, label) && (lit > 0 ==> shows(
                before,
                k - 1,
                cell,
            ));
        assert(shows(ops, k, label));
        assert(lit > 0 ==> shows(ops, k - 1, cell));
    }
}

/// The row shows every chip that is anywhere, with its label, and under the tabs
/// the underline where it has got to.
pub proof fn every_chip_is_shown(
    state: State,
    layout: Layout,
    faces: Typeface,
    short: bool,
    n: int,
    i: int,
)
    requires
        0 <= i < n <= 6,
        state.chips[i].box_.w > 0,
    ensures
        ({
            let c = state.chips[i];
            let b = c.box_;
            exists|k: int|
                #[trigger] shows(
                    chips_picture(state, layout, faces, short, n),
                    k,
                    Op::Chip {
                        face: FaceId::Body,
                        x: b.x,
                        y: b.y,
                        w: b.w,
                        h: b.h,
                        text: chip_label(short, i),
                        ink: c.ink(),
                        label: c.label_ink(),
                    },
                )
        }),
        short ==> chip_label(short, i) == vstd::utf8::encode_utf8(Panel::nth(i).short_label()),
        !short ==> chip_label(short, i) == vstd::utf8::encode_utf8(Panel::nth(i).label()),
    decreases n,
{
    let ops = chips_picture(state, layout, faces, short, n);
    let before = chips_picture(state, layout, faces, short, n - 1);
    let c = state.chips[i];
    let b = c.box_;
    let chip = Op::Chip {
        face: FaceId::Body,
        x: b.x,
        y: b.y,
        w: b.w,
        h: b.h,
        text: chip_label(short, i),
        ink: c.ink(),
        label: c.label_ink(),
    };
    if i == n - 1 {
        assert(shows(ops, ops.len() - 1, chip));
    } else {
        every_chip_is_shown(state, layout, faces, short, n - 1, i);
        let k = choose|k: int| #[trigger] shows(before, k, chip);
        assert(shows(ops, k, chip));
    }
}

/// Before the chips comes the underline, three pixels above where the row ends
/// and as far along and as wide as it has got.
pub proof fn the_underline_is_under_the_tabs(
    state: State,
    layout: Layout,
    faces: Typeface,
    short: bool,
)
    ensures
        chips_picture(state, layout, faces, short, 0).last() == (Op::<Seq<u8>>::Underline {
            x: length_of(state.underline_x) as u32,
            y: (layout.tabs_y + layout.tabs_h - 3) as u32,
            w: length_of(state.underline_w) as u32,
            tone: Tone::Accent,
            glow: Tone::Glow,
        }),
        chips_picture(state, layout, faces, short, 0).drop_last() == tabs_picture(
            state,
            layout,
            faces,
            3,
        ),
{
    assert(chips_picture(state, layout, faces, short, 0).drop_last() =~= tabs_picture(
        state,
        layout,
        faces,
        3,
    ));
}

/// The row ends with the precision toggle, where it is anywhere, which says how
/// precise the readout is; the chips carry the short labels exactly where those
/// were chosen.
pub proof fn the_toggle_says_the_precision(state: State, layout: Layout, faces: Typeface)
    ensures
        ({
            let ops = bar_picture(state, layout, faces);
            let short = chip_labels(layout, faces) == Some(true);
            let chips = chips_picture(state, layout, faces, short, 6);
            let b = state.precision_chip.box_;
            &&& b.w == 0 ==> ops == chips
            &&& b.w > 0 ==> ops.drop_last() == chips && (ops.last() matches Op::Chip {
                x,
                y,
                w,
                h,
                text,
                label,
                ..
            } && x == b.x && y == b.y && w == b.w && h == b.h && label == Ink::Flat(Tone::Accent)
                && text == vstd::utf8::encode_utf8(
                if state.precision.is_nano() {
                    "NANO"@
                } else {
                    "SIMPLE"@
                },
            ))
        }),
{
    let short = chip_labels(layout, faces) == Some(true);
    if state.precision_chip.box_.w > 0 {
        assert(bar_picture(state, layout, faces).drop_last() =~= chips_picture(
            state,
            layout,
            faces,
            short,
            6,
        ));
    }
}

} // verus!
