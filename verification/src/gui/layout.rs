//! Where everything sits, worked out once from the mode the loader gave.

use crate::gui::canvas::{width_is_bounded, FaceId, Typeface};
use crate::gui::motion::{clamp, held, Hitbox};
use crate::text::utf8;
use vstd::prelude::*;

verus! {

/// The three things this application is.
#[derive(Debug, Clone, Copy, PartialEq, Eq, Structural)]
pub enum Tab {
    Clock,
    Stopwatch,
    Timer,
}

impl Tab {
    /// The modes, left to right.
    pub open spec fn nth(i: int) -> Tab {
        if i == 0 {
            Tab::Clock
        } else if i == 1 {
            Tab::Stopwatch
        } else {
            Tab::Timer
        }
    }

    /// Where a mode stands.
    pub open spec fn place(self) -> int {
        match self {
            Tab::Clock => 0,
            Tab::Stopwatch => 1,
            Tab::Timer => 2,
        }
    }

    pub fn at(i: usize) -> (r: Tab)
        ensures
            r == Tab::nth(i as int),
    {
        if i == 0 {
            Tab::Clock
        } else if i == 1 {
            Tab::Stopwatch
        } else {
            Tab::Timer
        }
    }

    pub fn position(self) -> (r: usize)
        ensures
            r == self.place(),
            r < 3,
    {
        match self {
            Tab::Clock => 0,
            Tab::Stopwatch => 1,
            Tab::Timer => 2,
        }
    }

    pub open spec fn label(self) -> Seq<char> {
        match self {
            Tab::Clock => "CLOCK"@,
            Tab::Stopwatch => "STOPWATCH"@,
            Tab::Timer => "TIMER"@,
        }
    }

    pub fn name(self) -> (r: &'static str)
        ensures
            r@ == self.label(),
            utf8(r).len() <= 9,
    {
        proof {
            short_ascii();
        }
        match self {
            Tab::Clock => "CLOCK",
            Tab::Stopwatch => "STOPWATCH",
            Tab::Timer => "TIMER",
        }
    }
}

/// What the lower panel reports.
#[derive(Debug, Clone, Copy, PartialEq, Eq, Structural)]
pub enum Panel {
    Cpu,
    Pmu,
    Counter,
    Memory,
    Usb,
    Hypervisor,
}

impl Panel {
    /// The panels, left to right.
    pub open spec fn nth(i: int) -> Panel {
        if i == 0 {
            Panel::Cpu
        } else if i == 1 {
            Panel::Pmu
        } else if i == 2 {
            Panel::Counter
        } else if i == 3 {
            Panel::Memory
        } else if i == 4 {
            Panel::Usb
        } else {
            Panel::Hypervisor
        }
    }

    /// Where a panel stands.
    pub open spec fn place(self) -> int {
        match self {
            Panel::Cpu => 0,
            Panel::Pmu => 1,
            Panel::Counter => 2,
            Panel::Memory => 3,
            Panel::Usb => 4,
            Panel::Hypervisor => 5,
        }
    }

    pub fn at(i: usize) -> (r: Panel)
        ensures
            r == Panel::nth(i as int),
    {
        if i == 0 {
            Panel::Cpu
        } else if i == 1 {
            Panel::Pmu
        } else if i == 2 {
            Panel::Counter
        } else if i == 3 {
            Panel::Memory
        } else if i == 4 {
            Panel::Usb
        } else {
            Panel::Hypervisor
        }
    }

    /// The panel after this one, round and round.
    pub open spec fn following(self) -> Panel {
        Panel::nth((self.place() + 1) % 6)
    }

    pub fn next(self) -> (r: Panel)
        ensures
            r == self.following(),
    {
        match self {
            Panel::Cpu => Panel::Pmu,
            Panel::Pmu => Panel::Counter,
            Panel::Counter => Panel::Memory,
            Panel::Memory => Panel::Usb,
            Panel::Usb => Panel::Hypervisor,
            Panel::Hypervisor => Panel::Cpu,
        }
    }

    pub open spec fn label(self) -> Seq<char> {
        match self {
            Panel::Cpu => "CPU"@,
            Panel::Pmu => "PMU"@,
            Panel::Counter => "COUNTER"@,
            Panel::Memory => "MEMORY"@,
            Panel::Usb => "USB"@,
            Panel::Hypervisor => "HYPERVISOR"@,
        }
    }

    pub fn name(self) -> (r: &'static str)
        ensures
            r@ == self.label(),
            utf8(r).len() <= 10,
    {
        proof {
            short_ascii();
        }
        match self {
            Panel::Cpu => "CPU",
            Panel::Pmu => "PMU",
            Panel::Counter => "COUNTER",
            Panel::Memory => "MEMORY",
            Panel::Usb => "USB",
            Panel::Hypervisor => "HYPERVISOR",
        }
    }

    /// The label to use when the long one will not fit.
    pub open spec fn short_label(self) -> Seq<char> {
        match self {
            Panel::Counter => "CNT"@,
            Panel::Memory => "MEM"@,
            Panel::Hypervisor => "HYP"@,
            other => other.label(),
        }
    }

    pub fn short(self) -> (r: &'static str)
        ensures
            r@ == self.short_label(),
            utf8(r).len() <= 10,
    {
        proof {
            short_ascii();
        }
        match self {
            Panel::Counter => "CNT",
            Panel::Memory => "MEM",
            Panel::Hypervisor => "HYP",
            other => other.name(),
        }
    }
}

/// The panels are six, each in one place.
pub proof fn panels_have_their_places(panel: Panel, tab: Tab)
    ensures
        Panel::nth(panel.place()) == panel,
        0 <= panel.place() < 6,
        Tab::nth(tab.place()) == tab,
        0 <= tab.place() < 3,
{
}

/// Six presses go round every panel and back.
pub proof fn six_presses_come_round(panel: Panel)
    ensures
        panel.following().following().following().following().following().following() == panel,
        panel.following() != panel,
{
}

/// How much of a duration the readout shows.
#[derive(Debug, Clone, Copy, PartialEq, Eq, Structural)]
pub enum Precision {
    /// `hh:mm:ss:mmm`, a wall clock.
    Simple,
    /// `hh:mm:ss:mmm:uuu:nnn`, what this instrument is for.
    Nano,
}

impl Precision {
    pub open spec fn is_nano(self) -> bool {
        self == Precision::Nano
    }

    pub fn nanoseconds(self) -> (r: bool)
        ensures
            r == self.is_nano(),
    {
        matches!(self, Precision::Nano)
    }

    pub open spec fn other(self) -> Precision {
        match self {
            Precision::Nano => Precision::Simple,
            Precision::Simple => Precision::Nano,
        }
    }

    pub open spec fn label(self) -> Seq<char> {
        match self {
            Precision::Nano => "NANO"@,
            Precision::Simple => "SIMPLE"@,
        }
    }

    /// What its chip says.
    pub fn name(self) -> (r: &'static str)
        ensures
            r@ == self.label(),
    {
        match self {
            Precision::Nano => "NANO",
            Precision::Simple => "SIMPLE",
        }
    }
}

/// The widest string the readout can ever hold.
pub open spec fn readout_sample() -> Seq<u8> {
    utf8("00:00:00:000:000:000")
}

/// How long the labels measured here are.
pub proof fn short_ascii()
    ensures
        utf8("CLOCK").len() == 5,
        utf8("STOPWATCH").len() == 9,
        utf8("TIMER").len() == 5,
        utf8("CPU").len() == 3,
        utf8("PMU").len() == 3,
        utf8("COUNTER").len() == 7,
        utf8("MEMORY").len() == 6,
        utf8("USB").len() == 3,
        utf8("HYPERVISOR").len() == 10,
        utf8("CNT").len() == 3,
        utf8("MEM").len() == 3,
        utf8("HYP").len() == 3,
        utf8("SIMPLE").len() == 6,
        utf8("00:00:00:000:000:000").len() == 20,
        utf8("invariant TSC").len() == 13,
        utf8("unavailable").len() == 11,
{
    broadcast use vstd::utf8::is_ascii_chars_encode_utf8;

    reveal_strlit("CLOCK");
    reveal_strlit("STOPWATCH");
    reveal_strlit("TIMER");
    reveal_strlit("CPU");
    reveal_strlit("PMU");
    reveal_strlit("COUNTER");
    reveal_strlit("MEMORY");
    reveal_strlit("USB");
    reveal_strlit("HYPERVISOR");
    reveal_strlit("CNT");
    reveal_strlit("MEM");
    reveal_strlit("HYP");
    reveal_strlit("SIMPLE");
    reveal_strlit("00:00:00:000:000:000");
    reveal_strlit("invariant TSC");
    reveal_strlit("unavailable");
    assert(vstd::utf8::is_ascii_chars("CLOCK"@));
    assert(vstd::utf8::is_ascii_chars("STOPWATCH"@));
    assert(vstd::utf8::is_ascii_chars("TIMER"@));
    assert(vstd::utf8::is_ascii_chars("CPU"@));
    assert(vstd::utf8::is_ascii_chars("PMU"@));
    assert(vstd::utf8::is_ascii_chars("COUNTER"@));
    assert(vstd::utf8::is_ascii_chars("MEMORY"@));
    assert(vstd::utf8::is_ascii_chars("USB"@));
    assert(vstd::utf8::is_ascii_chars("HYPERVISOR"@));
    assert(vstd::utf8::is_ascii_chars("CNT"@));
    assert(vstd::utf8::is_ascii_chars("MEM"@));
    assert(vstd::utf8::is_ascii_chars("HYP"@));
    assert(vstd::utf8::is_ascii_chars("SIMPLE"@));
    assert(vstd::utf8::is_ascii_chars("00:00:00:000:000:000"@));
    assert(vstd::utf8::is_ascii_chars("invariant TSC"@));
    assert(vstd::utf8::is_ascii_chars("unavailable"@));
}

/// Where everything sits.
///
/// Proportions rather than pixel offsets, with floors so nothing collapses at
/// the small end: the same layout has to hold at 800x600 and at 1920x1200.
#[derive(Debug, Clone, Copy, PartialEq, Eq, Structural)]
pub struct Layout {
    pub width: u32,
    pub header_h: u32,
    pub tabs_y: u32,
    pub tabs_h: u32,
    /// The readout's own box, which is narrower than the screen. Only this is
    /// cleared and copied out each frame.
    pub readout_x: u32,
    pub readout_w: u32,
    pub readout_y: u32,
    pub readout_h: u32,
    pub cards_y: u32,
    pub cards_h: u32,
    /// How many cards fit, and how wide each is. The card height depends on
    /// it: a narrow mode folds the machine summary into the session card.
    pub columns: u32,
    pub card_w: u32,
    pub hint_y: u32,
    pub status_y: u32,
    pub status_h: u32,
    pub margin: u32,
    /// Which readout face fits this width.
    pub readout: FaceId,
}

/// What is left of `a` once `b` is taken: nothing where there is not enough.
pub open spec fn rest(a: int, b: int) -> int {
    if a > b {
        a - b
    } else {
        0
    }
}

/// The smaller of two numbers.
pub open spec fn less(a: int, b: int) -> int {
    if a < b {
        a
    } else {
        b
    }
}

/// The smaller of two numbers.
pub fn smaller(a: u32, b: u32) -> (r: u32)
    ensures
        r == less(a as int, b as int),
{
    if a < b {
        a
    } else {
        b
    }
}

/// The margin at a width.
pub open spec fn margin_at(width: int) -> int {
    held(width / 40, 12, 32)
}

/// The readout's face at a width: the large one if its box fits with margins
/// to spare.
pub open spec fn readout_face(width: int, faces: Typeface) -> FaceId {
    if faces.readout_big.width(readout_sample()) + margin_at(width) * 4 <= width {
        FaceId::ReadoutBig
    } else {
        FaceId::Readout
    }
}

/// How many cards fit at a width: three at a width that still holds a label
/// beside its value, two when that would make them narrower, one on a small
/// mode. Measured from the widest ordinary pair rather than picked.
pub open spec fn columns_at(width: int, faces: Typeface) -> int {
    let total = rest(width, margin_at(width) * 2);
    let narrowest = faces.body.width(utf8("invariant TSC")) + faces.body.width(utf8("unavailable"))
        + 70;
    if total / 3 >= narrowest {
        3
    } else if total / 2 >= narrowest {
        2
    } else {
        1
    }
}

/// How many rows a card has room for: those of the longest table it may hold.
///
/// That is the input panel's twelve, with a touchpad to describe. Two cards or
/// one means the machine summary folds into the session card, which then holds
/// its own two lines, six laps and the seven lines of the machine.
pub open spec fn card_rows(columns: int) -> int {
    if columns < 3 {
        15
    } else {
        12
    }
}

/// How tall a card's contents are.
pub open spec fn card_content(columns: int, faces: Typeface) -> int {
    30 + faces.heading.line_height + card_rows(columns) * (faces.body.line_height + 7) + 18
}

/// The layout of a screen.
///
/// The status bar and the hint row hang from the bottom and the header and
/// tabs from the top. The cards are sized by what they hold and anchored
/// above the hints, and the readout is centred in what is left.
pub open spec fn laid_out(width: int, height: int, faces: Typeface) -> Layout {
    let margin = margin_at(width);
    let header_h = held(height / 18, 34, 64);
    let tabs_h = held(height / 16, 34, 56);
    let content_y = header_h + tabs_h;
    let status_h = faces.body.line_height * 2 + 22;
    let status_y = rest(height, status_h);
    let hint_y = rest(status_y, faces.body.line_height + 14);
    let face = readout_face(width, faces);
    let readout_h = faces.of(face).line_height + faces.body.line_height + 30;
    let total = rest(width, margin * 2);
    let columns = columns_at(width, faces);
    let available = rest(hint_y, content_y);
    let readout_box = less(readout_h, available);
    let cards_h = less(
        card_content(columns, faces),
        rest(available, readout_box + margin + 8),
    );
    let cards_y = rest(hint_y, cards_h + 8);
    let readout_w = less(faces.of(face).width(readout_sample()) + margin * 2, width);
    Layout {
        width: width as u32,
        header_h: header_h as u32,
        tabs_y: header_h as u32,
        tabs_h: tabs_h as u32,
        readout_x: ((width - readout_w) / 2) as u32,
        readout_w: readout_w as u32,
        readout_y: (content_y + rest(cards_y, content_y + readout_box) / 2) as u32,
        readout_h: readout_box as u32,
        cards_y: cards_y as u32,
        cards_h: cards_h as u32,
        columns: columns as u32,
        card_w: ((total - margin * (columns - 1)) / columns) as u32,
        hint_y: hint_y as u32,
        status_y: status_y as u32,
        status_h: status_h as u32,
        margin: margin as u32,
        readout: face,
    }
}

impl Layout {
    /// What every layout keeps, whatever the screen.
    pub open spec fn wf(self) -> bool {
        &&& 12 <= self.margin <= 32
        &&& 34 <= self.header_h <= 64
        &&& self.tabs_y == self.header_h
        &&& 34 <= self.tabs_h <= 56
        &&& self.width <= i32::MAX
        &&& self.readout_x + self.readout_w <= self.width
        &&& self.readout_y + self.readout_h <= i32::MAX
        &&& self.readout_h <= 131_100
        &&& self.cards_y + self.cards_h <= i32::MAX
        &&& self.cards_h <= 1_200_000
        &&& 1 <= self.columns <= 3
        &&& self.card_w <= self.width
        &&& self.hint_y <= self.status_y
        &&& self.status_y <= i32::MAX
        &&& 22 <= self.status_h <= 131_092
        &&& self.margin + self.columns * (self.card_w + self.margin) <= self.width + self.margin * 4
        &&& self.readout == FaceId::Readout || self.readout == FaceId::ReadoutBig
    }

    /// The layout of a screen.
    pub fn for_screen(width: u32, height: u32, faces: &Typeface) -> (r: Layout)
        requires
            width <= i32::MAX,
            height <= i32::MAX,
        ensures
            r == laid_out(width as int, height as int, *faces),
            r.wf(),
            width >= 64 ==> r.card_w >= 40,
    {
        proof {
            short_ascii();
        }
        let margin: u32 = clamp(width / 40, 12, 32);
        let header_h: u32 = clamp(height / 18, 34, 64);
        let tabs_h: u32 = clamp(height / 16, 34, 56);
        let content_y: u32 = header_h + tabs_h;
        let body_h: u32 = faces.body.line_height as u32;
        let status_h: u32 = body_h * 2 + 22;
        let status_y: u32 = height.saturating_sub(status_h);
        let hint_y: u32 = status_y.saturating_sub(body_h + 14);
        // A bitmap cannot be scaled, so this is a choice between two baked
        // sizes rather than a computed one.
        let readout: FaceId = if faces.readout_big.width_of("00:00:00:000:000:000") + margin * 4
            <= width {
            FaceId::ReadoutBig
        } else {
            FaceId::Readout
        };
        let face = faces.face(readout);
        // The face's line box, the caption under it, and the space between.
        let readout_h: u32 = face.line_height as u32 + body_h + 30;
        let total: u32 = width.saturating_sub(margin * 2);
        let narrowest: u32 = faces.body.width_of("invariant TSC") + faces.body.width_of(
            "unavailable",
        ) + 70;
        let columns: u32 = if total / 3 >= narrowest {
            3
        } else if total / 2 >= narrowest {
            2
        } else {
            1
        };
        proof {
            assert(margin * (columns - 1) <= total) by (nonlinear_arith)
                requires
                    margin <= 32,
                    1 <= columns <= 3,
                    columns == 3 ==> total >= 210,
                    columns == 2 ==> total >= 140,
                    total >= 0,
            ;
        }
        let card_w: u32 = (total - margin * (columns - 1)) / columns;
        let room: u32 = if columns < 3 {
            15
        } else {
            12
        };
        let content: u32 = 30 + faces.heading.line_height as u32 + room * (body_h + 7) + 18;
        let available: u32 = hint_y.saturating_sub(content_y);
        let readout_box: u32 = smaller(readout_h, available);
        let cards_h: u32 = smaller(content, available.saturating_sub(readout_box + margin + 8));
        let cards_y: u32 = hint_y.saturating_sub(cards_h + 8);
        let readout_y: u32 = content_y + cards_y.saturating_sub(content_y + readout_box) / 2;
        // Wide enough for the longest readout the face can produce.
        let readout_w: u32 = smaller(face.width_of("00:00:00:000:000:000") + margin * 2, width);
        let readout_x: u32 = (width - readout_w) / 2;
        proof {
            // The cards and the margins between them add up to the width.
            let spare = total - margin * (columns - 1);
            assert(card_w * columns <= spare) by (nonlinear_arith)
                requires
                    card_w == spare / (columns as int),
                    spare >= 0,
                    columns >= 1,
            ;
            assert(columns * (card_w + margin) == card_w * columns + margin * columns)
                by (nonlinear_arith);
            assert(margin * columns == margin * (columns - 1) + margin) by (nonlinear_arith);
            assert(card_w <= card_w * columns) by (nonlinear_arith)
                requires
                    columns >= 1,
                    card_w >= 0,
            ;
            if columns == 3 {
                assert(spare / 3 >= 48);
            } else if columns == 2 {
                assert(spare / 2 >= 54);
            }
        }
        Layout {
            width,
            header_h,
            tabs_y: header_h,
            tabs_h,
            readout_x,
            readout_w,
            readout_y,
            readout_h: readout_box,
            cards_y,
            cards_h,
            columns,
            card_w,
            hint_y,
            status_y,
            status_h,
            margin,
            readout,
        }
    }

    /// The readout's box.
    pub open spec fn readout_hit(self) -> Hitbox {
        Hitbox { x: self.readout_x, y: self.readout_y, w: self.readout_w, h: self.readout_h }
    }

    pub fn readout_box(&self) -> (r: Hitbox)
        ensures
            r == self.readout_hit(),
    {
        Hitbox { x: self.readout_x, y: self.readout_y, w: self.readout_w, h: self.readout_h }
    }
}

/// On a screen with room for the bars, nothing overlaps: the readout lies
/// below the tabs and above the hints, the cards, where there are any, below
/// the readout and above the hints, and the status bar ends where the screen
/// does. Left to right, the readout is centred and the cards fit.
pub proof fn nothing_overlaps(width: int, height: int, faces: Typeface)
    requires
        64 <= width <= i32::MAX,
        height <= i32::MAX,
        height >= 200 + faces.body.line_height * 3,
    ensures
        ({
            let l = laid_out(width, height, faces);
            let content_y = l.tabs_y + l.tabs_h;
            &&& l.header_h == l.tabs_y
            &&& content_y <= l.readout_y
            &&& l.readout_y + l.readout_h <= l.hint_y
            &&& l.cards_h > 0 ==> l.readout_y + l.readout_h <= l.cards_y
            &&& l.cards_y + l.cards_h + 8 <= l.hint_y
            &&& l.hint_y < l.status_y
            &&& l.status_y + l.status_h == height
            &&& l.readout_x + l.readout_w <= width
            &&& 0 <= width - l.readout_w - 2 * l.readout_x <= 1
        }),
{
    short_ascii();
    width_is_bounded(faces.readout, readout_sample());
    width_is_bounded(faces.readout_big, readout_sample());
}

/// The modes stand as clock, stopwatch and timer, and the panels as processor,
/// counters, counter, memory, input and hypervisor; the one after the last is
/// the first. Each is called what it is, and shorter where there is less room.
pub proof fn what_stands_where()
    ensures
        Tab::nth(0) == Tab::Clock && Tab::nth(1) == Tab::Stopwatch && Tab::nth(2) == Tab::Timer,
        Panel::nth(0) == Panel::Cpu && Panel::nth(1) == Panel::Pmu && Panel::nth(2)
            == Panel::Counter && Panel::nth(3) == Panel::Memory && Panel::nth(4) == Panel::Usb
            && Panel::nth(5) == Panel::Hypervisor,
        Panel::Cpu.following() == Panel::Pmu && Panel::Pmu.following() == Panel::Counter
            && Panel::Counter.following() == Panel::Memory && Panel::Memory.following()
            == Panel::Usb && Panel::Usb.following() == Panel::Hypervisor
            && Panel::Hypervisor.following() == Panel::Cpu,
        Tab::Clock.label() == "CLOCK"@ && Tab::Stopwatch.label() == "STOPWATCH"@
            && Tab::Timer.label() == "TIMER"@,
        Panel::Cpu.label() == "CPU"@ && Panel::Pmu.label() == "PMU"@ && Panel::Counter.label()
            == "COUNTER"@ && Panel::Memory.label() == "MEMORY"@ && Panel::Usb.label() == "USB"@
            && Panel::Hypervisor.label() == "HYPERVISOR"@,
        Panel::Cpu.short_label() == "CPU"@ && Panel::Pmu.short_label() == "PMU"@
            && Panel::Counter.short_label() == "CNT"@ && Panel::Memory.short_label() == "MEM"@
            && Panel::Usb.short_label() == "USB"@ && Panel::Hypervisor.short_label() == "HYP"@,
        Precision::Nano.is_nano() && !Precision::Simple.is_nano(),
        Precision::Nano.other() == Precision::Simple && Precision::Simple.other()
            == Precision::Nano,
{
}

/// Every part has its size: the margin a fortieth of the width, the header an
/// eighteenth and the tabs a sixteenth of the height, each within its bounds; the
/// status bar two lines and the hints one. The readout takes the large face
/// wherever its widest reading fits with four margins, and there are as many
/// cards, three at the most, as hold the widest pair side by side. The cards end
/// above the hints, as tall as what they hold or what room there is, and the
/// readout is in the middle of what is left.
pub proof fn every_part_has_its_size(width: int, height: int, faces: Typeface)
    requires
        64 <= width <= i32::MAX,
        200 + faces.body.line_height * 3 <= height <= i32::MAX,
    ensures
        ({
            let l = laid_out(width, height, faces);
            let widest = faces.readout_big.width(utf8("00:00:00:000:000:000"));
            let pair = faces.body.width(utf8("invariant TSC")) + faces.body.width(
                utf8("unavailable"),
            ) + 70;
            let total = width - 2 * l.margin;
            &&& 480 <= width < 1320 ==> l.margin == width / 40
            &&& width < 480 ==> l.margin == 12
            &&& width >= 1320 ==> l.margin == 32
            &&& 612 <= height < 1170 ==> l.header_h == height / 18
            &&& height < 612 ==> l.header_h == 34
            &&& height >= 1170 ==> l.header_h == 64
            &&& 544 <= height < 912 ==> l.tabs_h == height / 16
            &&& height < 544 ==> l.tabs_h == 34
            &&& height >= 912 ==> l.tabs_h == 56
            &&& l.status_h == 2 * faces.body.line_height + 22
            &&& l.status_y - l.hint_y == faces.body.line_height + 14
            &&& l.readout == FaceId::ReadoutBig <==> widest + 4 * l.margin <= width
            &&& l.columns == 3 <==> total / 3 >= pair
            &&& l.columns >= 2 <==> total / 2 >= pair || total / 3 >= pair
            &&& l.columns == 3 ==> 0 <= total - 2 * l.margin - 3 * l.card_w < 3
            &&& l.columns == 2 ==> 0 <= total - l.margin - 2 * l.card_w < 2
            &&& l.columns == 1 ==> l.card_w == total
            &&& card_rows(3) == 12 && card_rows(2) == 15 && card_rows(1) == 15
            &&& l.cards_h <= 48 + faces.heading.line_height + card_rows(l.columns as int) * (
            faces.body.line_height + 7)
            &&& l.cards_h + l.cards_y + 8 == l.hint_y
            &&& l.readout_w <= width && l.readout_w <= faces.of(l.readout).width(
                utf8("00:00:00:000:000:000"),
            ) + 2 * l.margin
            &&& l.readout_w == width || l.readout_w == faces.of(l.readout).width(
                utf8("00:00:00:000:000:000"),
            ) + 2 * l.margin
            &&& l.readout_h == l.hint_y - l.tabs_y - l.tabs_h || l.readout_h == faces.of(
                l.readout,
            ).line_height + faces.body.line_height + 30
            &&& l.cards_h > 0 ==> 0 <= (l.cards_y - l.readout_y - l.readout_h) - (l.readout_y
                - l.tabs_y - l.tabs_h) <= 1
            &&& l.cards_h > 0 ==> l.cards_h == 48 + faces.heading.line_height + card_rows(
                l.columns as int,
            ) * (faces.body.line_height + 7) || l.readout_h + l.margin + 8 + l.cards_h == l.hint_y
                - l.tabs_y - l.tabs_h
        }),
{
    let margin = margin_at(width);
    let total = rest(width, margin * 2);
    let columns = columns_at(width, faces);
    let l = laid_out(width, height, faces);
    assert(total == width - 2 * margin);
    if columns == 3 {
        assert(margin * (columns - 1) == margin * 2);
        assert((total - margin * (columns - 1)) / columns == (total - margin * 2) / 3);
    } else if columns == 2 {
        assert(margin * (columns - 1) == margin * 1);
        assert((total - margin * (columns - 1)) / columns == (total - margin) / 2);
    } else {
        assert(columns == 1);
        assert(margin * (columns - 1) == margin * 0);
        assert((total - margin * (columns - 1)) / columns == total / 1);
    }
    assert(card_rows(columns) * (faces.body.line_height + 7) == if columns == 3 {
        12 * (faces.body.line_height + 7)
    } else {
        15 * (faces.body.line_height + 7)
    });
}

} // verus!
