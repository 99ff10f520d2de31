//! Everything that changes, and what a key or a click does to it.

use crate::gui::cursor::Cursor;
use crate::gui::layout::{Layout, Panel, Precision, Tab};
use crate::gui::motion::{held, Control, Ease, Hitbox, Tween};
use crate::gui::watch::{Stopwatch, Timer, Verdict, Watch};
use crate::gui::watch::DEFAULT_NS;
use crate::input::{Event, Input, Key, Motion};
use crate::text::Text;
use vstd::prelude::*;

verus! {

// Set 1 scancodes for everything the interface binds.
pub const SCAN_1: u8 = 0x02;

pub const SCAN_2: u8 = 0x03;

pub const SCAN_3: u8 = 0x04;

pub const SCAN_B: u8 = 0x30;

pub const SCAN_C: u8 = 0x2E;

pub const SCAN_H: u8 = 0x23;

pub const SCAN_L: u8 = 0x26;

pub const SCAN_M: u8 = 0x32;

pub const SCAN_N: u8 = 0x31;

pub const SCAN_P: u8 = 0x19;

pub const SCAN_R: u8 = 0x13;

pub const SCAN_S: u8 = 0x1F;

pub const SCAN_U: u8 = 0x16;

pub const SCAN_Z: u8 = 0x2C;

pub const SCAN_SPACE: u8 = 0x39;

pub const SCAN_TAB: u8 = 0x0F;

pub const SCAN_UP: u8 = 0x48;

pub const SCAN_DOWN: u8 = 0x50;

/// Everything that changes.
pub struct Ui {
    pub tab: Tab,
    pub panel: Panel,
    pub precision: Precision,
    pub stopwatch: Stopwatch,
    pub timer: Timer,
    /// The tab controls, the panel chips, the precision toggle and the two
    /// title-bar buttons.
    pub tabs: [Control; 3],
    pub chips: [Control; 6],
    pub precision_chip: Control,
    pub restart: Control,
    pub shutdown: Control,
    /// Where the selected tab's underline is, sliding between tabs.
    pub underline_x: Tween,
    pub underline_w: Tween,
    /// The two status meters, easing towards their readings.
    pub memory_meter: Tween,
    pub load_meter: Tween,
    /// How faded in the readout and the cards are. Restarted on a tab or
    /// panel change, which is what makes a switch read as a transition rather
    /// than a repaint.
    pub readout_fade: Tween,
    pub cards_fade: Tween,
    /// What to say instead of the key legend, when a stack came up short.
    pub input_note: Option<&'static str>,
    /// Set when something changed a label in the tab row without moving any
    /// of its highlights. The row is only repainted when it moved.
    pub chrome_dirty: bool,
    /// The same for the cards, whose contents change with the session state.
    /// Separate from the fade because starting a stopwatch should update the
    /// card, not replay the transition every time the space bar is pressed.
    pub cards_dirty: bool,
    pub cursor: Cursor,
    pub pointer_x: i32,
    pub pointer_y: i32,
    /// Counter ticks spent drawing in the current second, and the total the
    /// second covered, which together are the only honest "CPU" figure a
    /// kernel with no scheduler can report.
    pub busy_ticks: u64,
    pub window_ticks: u64,
    pub window_started: u64,
    pub load_permille: u32,
    /// What the readout showed last frame, so an unchanged one is not
    /// redrawn.
    pub last_readout: Text<24>,
    pub last_header_clock: Text<24>,
    pub last_load: Text<8>,
}

/// What the interface's state is: the same, with sequences for what is listed
/// and written.
#[verifier::ext_equal]
pub struct State {
    pub tab: Tab,
    pub panel: Panel,
    pub precision: Precision,
    pub watch: Watch,
    pub timer: Timer,
    pub tabs: Seq<Control>,
    pub chips: Seq<Control>,
    pub precision_chip: Control,
    pub restart: Control,
    pub shutdown: Control,
    pub underline_x: Tween,
    pub underline_w: Tween,
    pub memory_meter: Tween,
    pub load_meter: Tween,
    pub readout_fade: Tween,
    pub cards_fade: Tween,
    pub input_note: Option<Seq<char>>,
    pub chrome_dirty: bool,
    pub cards_dirty: bool,
    pub cursor: Cursor,
    pub pointer_x: i32,
    pub pointer_y: i32,
    pub busy_ticks: u64,
    pub window_ticks: u64,
    pub window_started: u64,
    pub load_permille: u32,
    pub last_readout: Seq<u8>,
    pub last_header_clock: Seq<u8>,
    pub last_load: Seq<u8>,
}

impl View for Ui {
    type V = State;

    open spec fn view(&self) -> State {
        State {
            tab: self.tab,
            panel: self.panel,
            precision: self.precision,
            watch: self.stopwatch@,
            timer: self.timer,
            tabs: self.tabs@,
            chips: self.chips@,
            precision_chip: self.precision_chip,
            restart: self.restart,
            shutdown: self.shutdown,
            underline_x: self.underline_x,
            underline_w: self.underline_w,
            memory_meter: self.memory_meter,
            load_meter: self.load_meter,
            readout_fade: self.readout_fade,
            cards_fade: self.cards_fade,
            input_note: match self.input_note {
                Some(note) => Some(note@),
                None => None,
            },
            chrome_dirty: self.chrome_dirty,
            cards_dirty: self.cards_dirty,
            cursor: self.cursor,
            pointer_x: self.pointer_x,
            pointer_y: self.pointer_y,
            busy_ticks: self.busy_ticks,
            window_ticks: self.window_ticks,
            window_started: self.window_started,
            load_permille: self.load_permille,
            last_readout: self.last_readout@,
            last_header_clock: self.last_header_clock@,
            last_load: self.last_load@,
        }
    }
}

/// What the machine is asked to do on account of an event.
#[derive(Debug, Clone, Copy, PartialEq, Eq, Structural)]
pub enum Action {
    /// Nothing.
    Stay,
    /// Start again.
    Restart,
    /// Switch off.
    PowerOff,
}

/// A box that is nowhere yet, or large enough for a glyph to be drawn in.
pub open spec fn is_button(b: Hitbox) -> bool {
    b.wf() && (b.w == 0 || b.w >= 40 && b.h >= 26)
}

impl State {
    /// Every box is one a point can be tested against, no more laps are kept
    /// than there is room for, and the load is a share.
    pub open spec fn wf(self) -> bool {
        &&& self.tabs.len() == 3
        &&& self.chips.len() == 6
        &&& forall|i: int| 0 <= i < 3 ==> (#[trigger] self.tabs[i]).box_.wf()
        &&& forall|i: int| 0 <= i < 6 ==> (#[trigger] self.chips[i]).box_.wf()
        &&& self.precision_chip.box_.wf()
        &&& is_button(self.restart.box_)
        &&& is_button(self.shutdown.box_)
        &&& self.watch.laps.len() <= 6
        &&& self.load_permille <= 1000
    }

    /// The current instrument reads a number the counter can hold.
    pub open spec fn readable(self, now: u64) -> bool {
        match self.tab {
            Tab::Clock => true,
            Tab::Stopwatch => self.watch.fits(now),
            Tab::Timer => self.timer.fits(now),
        }
    }

    /// It does, or starting and stopping it reads nothing: an expired timer
    /// waits for a reset.
    pub open spec fn toggles(self, now: u64) -> bool {
        self.readable(now) || self.tab == Tab::Timer && self.timer.expired
    }

    /// What a key reads is a number the counter can hold. Only starting,
    /// stopping and recording a lap read anything.
    pub open spec fn can_key(self, key: Key, now: u64) -> bool {
        &&& key.pressed && (key.scancode == SCAN_SPACE || key.scancode == SCAN_P) ==> self.toggles(
            now,
        )
        &&& key.pressed && key.scancode == SCAN_L ==> self.tab == Tab::Stopwatch ==> self.readable(
            now,
        )
    }

    /// What a motion reads is a number the counter can hold. Only a click on
    /// the readout reads anything, in the mode that click leaves selected.
    pub open spec fn can_point(
        self,
        m: Motion,
        now: u64,
        layout: Layout,
        width: int,
        height: int,
    ) -> bool {
        let there = self.moved(m, width, height);
        let (x, y) = (there.pointer_x as int, there.pointer_y as int);
        m.left && !there.restart.box_.covers(x, y) && layout.readout_hit().covers(x, y)
            ==> there.tabs_clicked(x, y, 3).toggles(now)
    }

    /// What an event reads is a number the counter can hold.
    pub open spec fn can_handle(
        self,
        event: Event,
        now: u64,
        layout: Layout,
        width: int,
        height: int,
    ) -> bool {
        match event {
            Event::Key(key) => self.can_key(key, now),
            Event::Motion(m) => self.can_point(m, now, layout, width, height),
        }
    }

    /// The readout starting to fade in, and forgotten, so it is drawn.
    pub open spec fn readout_restarted(self) -> State {
        State {
            readout_fade: Tween { value: 0, target: 1000, rate: 130 },
            last_readout: seq![],
            ..self
        }
    }

    /// The cards starting to fade in.
    pub open spec fn cards_restarted(self) -> State {
        State {
            cards_fade: Tween { value: 0, target: 1000, rate: 110 },
            cards_dirty: true,
            ..self
        }
    }

    /// The cards due to be drawn again as they are.
    pub open spec fn cards_refreshed(self) -> State {
        State { cards_dirty: true, ..self }
    }

    /// Another mode selected. The session card reports the selected mode, so
    /// it changes with it.
    pub open spec fn on_tab(self, tab: Tab) -> State {
        if self.tab == tab {
            self
        } else {
            (State { tab, ..self }).readout_restarted().cards_restarted()
        }
    }

    /// Another panel selected.
    pub open spec fn on_panel(self, panel: Panel) -> State {
        if self.panel == panel {
            self
        } else {
            (State { panel, ..self }).cards_restarted()
        }
    }

    /// The other precision. The header clock is drawn at the same one, so it
    /// is forgotten too.
    pub open spec fn at_other_precision(self) -> State {
        let flipped = State {
            precision: self.precision.other(),
            chrome_dirty: true,
            ..self
        };
        State { last_header_clock: seq![], ..flipped.readout_restarted() }
    }

    /// The current instrument started or stopped.
    pub open spec fn session_toggled(self, now: u64) -> State {
        match self.tab {
            Tab::Stopwatch => State { watch: self.watch.toggled(now), ..self },
            Tab::Timer => State { timer: self.timer.toggled(now), ..self },
            Tab::Clock => self,
        }.cards_refreshed()
    }

    /// The current instrument back to where it starts from.
    pub open spec fn session_zeroed(self) -> State {
        match self.tab {
            Tab::Stopwatch => (State { watch: self.watch.zeroed(), ..self }).cards_restarted(),
            Tab::Timer => (State {
                timer: Timer { running: false, spent: 0, expired: false, ..self.timer },
                ..self
            }).cards_refreshed(),
            Tab::Clock => self,
        }
    }

    /// The timer's target moved, where it can be.
    pub open spec fn timer_adjusted(self, up: bool) -> State {
        let timer = if self.timer.running {
            self.timer
        } else {
            Timer {
                target_ns: Timer::stepped(self.timer.target_ns, up),
                expired: false,
                spent: 0,
                ..self.timer
            }
        };
        (State { timer, ..self }).cards_refreshed()
    }

    /// Whether the cards are drawn this frame.
    pub open spec fn cards_are_due(self) -> bool {
        self.cards_dirty || self.cards_fade.value != self.cards_fade.target
    }

    /// The interface once the cards have had their turn.
    pub open spec fn cards_after<F: Fn(i32, i32, i32) -> i32>(self, ease: Ease<F>) -> State {
        if self.cards_are_due() {
            State {
                cards_dirty: false,
                cards_fade: self.cards_fade.stepped(ease),
                ..self
            }
        } else {
            self
        }
    }

    /// What pressing a key leaves.
    pub open spec fn pressed(self, scancode: u8, now: u64) -> State {
        if scancode == SCAN_1 || scancode == SCAN_C {
            self.on_tab(Tab::Clock)
        } else if scancode == SCAN_2 {
            self.on_tab(Tab::Stopwatch)
        } else if scancode == SCAN_3 {
            self.on_tab(Tab::Timer)
        } else if scancode == SCAN_SPACE || scancode == SCAN_P {
            self.session_toggled(now)
        } else if scancode == SCAN_L && self.tab == Tab::Stopwatch {
            (State { watch: self.watch.lapped(now), ..self }).cards_restarted()
        } else if scancode == SCAN_Z {
            self.session_zeroed()
        } else if scancode == SCAN_UP && self.tab == Tab::Timer {
            self.timer_adjusted(true)
        } else if scancode == SCAN_DOWN && self.tab == Tab::Timer {
            self.timer_adjusted(false)
        } else if scancode == SCAN_N {
            self.at_other_precision()
        } else if scancode == SCAN_B {
            self.on_panel(Panel::Pmu)
        } else if scancode == SCAN_M {
            self.on_panel(Panel::Memory)
        } else if scancode == SCAN_U {
            self.on_panel(Panel::Usb)
        } else if scancode == SCAN_H {
            self.on_panel(Panel::Hypervisor)
        } else if scancode == SCAN_TAB {
            self.on_panel(self.panel.following())
        } else {
            self
        }
    }

    /// What a key leaves. The input panel shows the raw bytes that arrived,
    /// so it is drawn again for every one of them.
    pub open spec fn keyed(self, key: Key, now: u64) -> State {
        let seen = if self.panel == Panel::Usb {
            self.cards_refreshed()
        } else {
            self
        };
        if key.pressed {
            seen.pressed(key.scancode, now)
        } else {
            seen
        }
    }

    /// The pointer moved: held to the screen rather than wrapped, since a
    /// cursor that leaves one edge and appears at the other is not a cursor.
    pub open spec fn moved(self, m: Motion, width: int, height: int) -> State {
        let x = held(self.pointer_x + m.dx, 0, width - 1) as i32;
        let y = held(self.pointer_y + m.dy, 0, height - 1) as i32;
        State { pointer_x: x, pointer_y: y, cursor: Cursor { x, y, ..self.cursor }, ..self }
    }

    /// What a click leaves, of the first `n` tabs.
    pub open spec fn tabs_clicked(self, x: int, y: int, n: int) -> State
        decreases n,
    {
        if n <= 0 {
            self
        } else {
            let before = self.tabs_clicked(x, y, n - 1);
            if self.tabs[n - 1].box_.covers(x, y) {
                before.on_tab(Tab::nth(n - 1))
            } else {
                before
            }
        }
    }

    /// What a click leaves, of the first `n` chips.
    pub open spec fn chips_clicked(self, x: int, y: int, n: int) -> State
        decreases n,
    {
        if n <= 0 {
            self
        } else {
            let before = self.chips_clicked(x, y, n - 1);
            if self.chips[n - 1].box_.covers(x, y) {
                before.on_panel(Panel::nth(n - 1))
            } else {
                before
            }
        }
    }

    /// What a click at the pointer leaves. Clicking the readout starts and
    /// stops it, the way a stopwatch face does.
    pub open spec fn clicked(self, now: u64, layout: Layout) -> State {
        let (x, y) = (self.pointer_x as int, self.pointer_y as int);
        let selected = self.tabs_clicked(x, y, 3).chips_clicked(x, y, 6);
        let shown = if self.precision_chip.box_.covers(x, y) {
            selected.at_other_precision()
        } else {
            selected
        };
        if layout.readout_hit().covers(x, y) {
            shown.session_toggled(now)
        } else {
            shown
        }
    }

    /// What a motion leaves. A machine that is about to restart is left as it
    /// is.
    pub open spec fn pointed(
        self,
        m: Motion,
        now: u64,
        layout: Layout,
        width: int,
        height: int,
    ) -> State {
        let there = self.moved(m, width, height);
        if m.left && !there.restart.box_.covers(there.pointer_x as int, there.pointer_y as int) {
            there.clicked(now, layout)
        } else {
            there
        }
    }

    /// What an event leaves.
    pub open spec fn handled(
        self,
        event: Event,
        now: u64,
        layout: Layout,
        width: int,
        height: int,
    ) -> State {
        match event {
            Event::Key(key) => self.keyed(key, now),
            Event::Motion(m) => self.pointed(m, now, layout, width, height),
        }
    }

    /// What a motion asks for: the two buttons in the corner.
    pub open spec fn pointing_asks(self, m: Motion, width: int, height: int) -> Action {
        let there = self.moved(m, width, height);
        let (x, y) = (there.pointer_x as int, there.pointer_y as int);
        if m.left && there.restart.box_.covers(x, y) {
            Action::Restart
        } else if m.left && there.shutdown.box_.covers(x, y) {
            Action::PowerOff
        } else {
            Action::Stay
        }
    }

    /// What an event asks for.
    pub open spec fn asks(self, event: Event, width: int, height: int) -> Action {
        match event {
            Event::Key(key) => if key.pressed && key.scancode == SCAN_R {
                Action::Restart
            } else if key.pressed && key.scancode == SCAN_S {
                Action::PowerOff
            } else {
                Action::Stay
            },
            Event::Motion(m) => self.pointing_asks(m, width, height),
        }
    }
}

impl State {
    /// The interface as it starts.
    pub open spec fn first(clean: Verdict, cursor: Cursor) -> State {
        State {
            tab: Tab::Stopwatch,
            panel: Panel::Cpu,
            precision: Precision::Nano,
            watch: Watch::fresh(clean),
            timer: Timer::fresh(),
            tabs: Seq::new(3, |i: int| Control::dark()),
            chips: Seq::new(6, |i: int| Control::dark()),
            precision_chip: Control::dark(),
            restart: Control::dark(),
            shutdown: Control::dark(),
            underline_x: Tween::at(0, 180),
            underline_w: Tween::at(0, 180),
            memory_meter: Tween::at(0, 90),
            load_meter: Tween::at(0, 90),
            readout_fade: Tween::at(1000, 130),
            cards_fade: Tween::at(1000, 110),
            input_note: None,
            chrome_dirty: false,
            cards_dirty: false,
            cursor,
            pointer_x: 0,
            pointer_y: 0,
            busy_ticks: 0,
            window_ticks: 0,
            window_started: 0,
            load_permille: 0,
            last_readout: seq![],
            last_header_clock: seq![],
            last_load: seq![],
        }
    }

    /// The interface with the pointer in the middle of a screen.
    pub open spec fn centred(self, width: u32, height: u32, now: u64) -> State {
        State {
            pointer_x: (width / 2) as i32,
            pointer_y: (height / 2) as i32,
            cursor: Cursor { x: (width / 2) as i32, y: (height / 2) as i32, ..self.cursor },
            window_started: now,
            ..self
        }
    }

    /// The interface once it is known what there is to put in with.
    pub open spec fn told_of(self, input: Input) -> State {
        if input.is_short() {
            State { panel: Panel::Usb, input_note: Some(input.trouble_text()), ..self }
        } else {
            self
        }
    }

    /// The interface once a frame has been accounted for.
    pub open spec fn accounted(self, spent: u64, elapsed: u64, hz: u64, now: u64) -> State {
        if elapsed >= hz {
            State {
                busy_ticks: 0,
                window_ticks: elapsed,
                window_started: now,
                load_permille: load_of(self.busy_ticks + spent, elapsed as int) as u32,
                ..self
            }
        } else {
            State { busy_ticks: (self.busy_ticks + spent) as u64, ..self }
        }
    }
}

impl Ui {
    /// The interface as it starts: a stopwatch, at full precision.
    pub fn new(clean: Verdict) -> (r: Ui)
        ensures
            r@.wf(),
            r@ == State::first(clean, r.cursor),
            r.cursor.x == 0 && r.cursor.y == 0 && !r.cursor.drawn,
    {
        let dark = Control::new();
        let r = Ui {
            tab: Tab::Stopwatch,
            panel: Panel::Cpu,
            precision: Precision::Nano,
            stopwatch: Stopwatch::new(clean),
            timer: Timer::new(),
            tabs: [dark, dark, dark],
            chips: [dark, dark, dark, dark, dark, dark],
            precision_chip: dark,
            restart: dark,
            shutdown: dark,
            underline_x: Tween::with_rate(0, 180),
            underline_w: Tween::with_rate(0, 180),
            memory_meter: Tween::with_rate(0, 90),
            load_meter: Tween::with_rate(0, 90),
            readout_fade: Tween::with_rate(1000, 130),
            cards_fade: Tween::with_rate(1000, 110),
            input_note: None,
            chrome_dirty: false,
            cards_dirty: false,
            cursor: Cursor::new(),
            pointer_x: 0,
            pointer_y: 0,
            busy_ticks: 0,
            window_ticks: 0,
            window_started: 0,
            load_permille: 0,
            last_readout: Text::new(),
            last_header_clock: Text::new(),
            last_load: Text::new(),
        };
        assert(r@.tabs =~= Seq::new(3, |i: int| Control::dark()));
        assert(r@.chips =~= Seq::new(6, |i: int| Control::dark()));
        r
    }

    /// Puts the pointer in the middle of the screen, the way a display server
    /// places a cursor, and starts the load window. Set on the cursor as well:
    /// it remembers where it was last drawn.
    pub fn centre(&mut self, width: u32, height: u32, now: u64)
        requires
            width <= i32::MAX,
            height <= i32::MAX,
        ensures
            final(self)@ == old(self)@.centred(width, height, now),
    {
        self.pointer_x = (width / 2) as i32;
        self.pointer_y = (height / 2) as i32;
        self.cursor.move_to(self.pointer_x, self.pointer_y);
        self.window_started = now;
    }

    /// Opens on the panel that says which stack came up short, if one did;
    /// whether one did. The diagnosis is no use behind a keypress where the
    /// keyboard is what did not work.
    pub fn note_input(&mut self, input: &Input) -> (r: bool)
        ensures
            r == input.is_short(),
            final(self)@ == old(self)@.told_of(*input),
    {
        if !input.has_keyboard() || !input.has_pointer() {
            self.panel = Panel::Usb;
            self.input_note = Some(input.trouble());
            true
        } else {
            false
        }
    }

    /// Restarts the readout's fade-in. For when what it shows changes kind,
    /// not when its digits change.
    pub fn transition_readout(&mut self)
        ensures
            final(self)@ == old(self)@.readout_restarted(),
    {
        self.readout_fade = Tween::with_rate(0, 130);
        self.readout_fade.retarget(1000);
        self.last_readout.clear();
    }

    pub fn transition_cards(&mut self)
        ensures
            final(self)@ == old(self)@.cards_restarted(),
    {
        self.cards_fade = Tween::with_rate(0, 110);
        self.cards_fade.retarget(1000);
        self.cards_dirty = true;
    }

    /// Redraws the cards without replaying the fade.
    ///
    /// For a state change the cards report, where the card is stale but
    /// nothing has arrived. A fade on every keypress reads as a stutter rather
    /// than as motion.
    pub fn refresh_cards(&mut self)
        ensures
            final(self)@ == old(self)@.cards_refreshed(),
    {
        self.cards_dirty = true;
    }

    pub fn select_tab(&mut self, tab: Tab)
        ensures
            final(self)@ == old(self)@.on_tab(tab),
    {
        if self.tab == tab {
            return;
        }
        self.tab = tab;
        self.transition_readout();
        self.transition_cards();
    }

    /// Switches between the full and the abbreviated readout.
    pub fn toggle_precision(&mut self)
        ensures
            final(self)@ == old(self)@.at_other_precision(),
    {
        self.precision = match self.precision {
            Precision::Nano => Precision::Simple,
            Precision::Simple => Precision::Nano,
        };
        self.chrome_dirty = true;
        self.transition_readout();
        self.last_header_clock.clear();
    }

    pub fn select_panel(&mut self, panel: Panel)
        ensures
            final(self)@ == old(self)@.on_panel(panel),
    {
        if self.panel == panel {
            return;
        }
        self.panel = panel;
        self.transition_cards();
    }

    /// Starts or stops the current instrument.
    fn toggle_session(&mut self, now: u64)
        requires
            old(self)@.wf(),
            old(self)@.toggles(now),
        ensures
            final(self)@ == old(self)@.session_toggled(now),
    {
        match self.tab {
            Tab::Stopwatch => self.stopwatch.toggle(now),
            Tab::Timer => self.timer.toggle(now),
            Tab::Clock => {},
        }
        self.refresh_cards();
    }

    /// Acts on a key that went down.
    fn press(&mut self, scancode: u8, now: u64)
        requires
            old(self)@.wf(),
            old(self)@.can_key((Key { scancode, pressed: true }), now),
        ensures
            final(self)@.wf(),
            final(self)@ == old(self)@.pressed(scancode, now),
    {
        if scancode == SCAN_1 || scancode == SCAN_C {
            self.select_tab(Tab::Clock);
        } else if scancode == SCAN_2 {
            self.select_tab(Tab::Stopwatch);
        } else if scancode == SCAN_3 {
            self.select_tab(Tab::Timer);
        } else if scancode == SCAN_SPACE || scancode == SCAN_P {
            self.toggle_session(now);
        } else if scancode == SCAN_L && self.tab == Tab::Stopwatch {
            self.stopwatch.lap(now);
            self.transition_cards();
        } else if scancode == SCAN_Z {
            match self.tab {
                Tab::Stopwatch => {
                    self.stopwatch.reset();
                    self.transition_cards();
                },
                Tab::Timer => {
                    self.timer.reset();
                    self.refresh_cards();
                },
                Tab::Clock => {},
            }
        } else if scancode == SCAN_UP && self.tab == Tab::Timer {
            self.timer.adjust(true);
            self.refresh_cards();
        } else if scancode == SCAN_DOWN && self.tab == Tab::Timer {
            self.timer.adjust(false);
            self.refresh_cards();
        } else if scancode == SCAN_N {
            self.toggle_precision();
        } else if scancode == SCAN_B {
            self.select_panel(Panel::Pmu);
        } else if scancode == SCAN_M {
            self.select_panel(Panel::Memory);
        } else if scancode == SCAN_U {
            self.select_panel(Panel::Usb);
        } else if scancode == SCAN_H {
            self.select_panel(Panel::Hypervisor);
        } else if scancode == SCAN_TAB {
            let next: Panel = self.panel.next();
            self.select_panel(next);
        }
    }

    /// Acts on one input event, and says what is asked of the machine.
    pub fn handle(
        &mut self,
        event: Event,
        now: u64,
        layout: &Layout,
        width: u32,
        height: u32,
    ) -> (r: Action)
        requires
            old(self)@.wf(),
            old(self)@.can_handle(event, now, *layout, width as int, height as int),
            layout.wf(),
            1 <= width <= i32::MAX,
            1 <= height <= i32::MAX,
            event matches Event::Motion(m) ==> {
                &&& i32::MIN <= old(self).pointer_x + m.dx <= i32::MAX
                &&& i32::MIN <= old(self).pointer_y + m.dy <= i32::MAX
            },
        ensures
            final(self)@.wf(),
            final(self)@ == old(self)@.handled(
                event,
                now,
                *layout,
                width as int,
                height as int,
            ),
            r == old(self)@.asks(event, width as int, height as int),
    {
        match event {
            Event::Key(key) => {
                self.key(key, now);
                if key.pressed && key.scancode == SCAN_R {
                    Action::Restart
                } else if key.pressed && key.scancode == SCAN_S {
                    Action::PowerOff
                } else {
                    Action::Stay
                }
            },
            Event::Motion(m) => self.pointer(m, now, layout, width, height),
        }
    }

    /// Acts on a key.
    fn key(&mut self, key: Key, now: u64)
        requires
            old(self)@.wf(),
            old(self)@.can_key(key, now),
        ensures
            final(self)@.wf(),
            final(self)@ == old(self)@.keyed(key, now),
    {
        if self.panel == Panel::Usb {
            self.refresh_cards();
        }
        if key.pressed {
            self.press(key.scancode, now);
        }
    }

    /// Whether the current instrument reads a number the counter can hold.
    pub fn readable_at(&self, now: u64) -> (r: bool)
        ensures
            r == self@.readable(now),
    {
        match self.tab {
            Tab::Clock => true,
            Tab::Stopwatch => self.stopwatch.readable_at(now),
            Tab::Timer => self.timer.readable_at(now),
        }
    }

    /// Whether what an event reads is a number the counter can hold.
    pub fn ready_for(
        &self,
        event: Event,
        now: u64,
        layout: &Layout,
        width: u32,
        height: u32,
    ) -> (r: bool)
        requires
            self@.wf(),
            layout.wf(),
            1 <= width <= i32::MAX,
            1 <= height <= i32::MAX,
            event matches Event::Motion(m) ==> {
                &&& i32::MIN <= self.pointer_x + m.dx <= i32::MAX
                &&& i32::MIN <= self.pointer_y + m.dy <= i32::MAX
            },
        ensures
            r == self@.can_handle(event, now, *layout, width as int, height as int),
    {
        match event {
            Event::Key(key) => {
                if !key.pressed {
                    true
                } else if key.scancode == SCAN_SPACE || key.scancode == SCAN_P {
                    self.tab == Tab::Timer && self.timer.expired || self.readable_at(now)
                } else if key.scancode == SCAN_L && self.tab == Tab::Stopwatch {
                    self.readable_at(now)
                } else {
                    true
                }
            },
            Event::Motion(m) => {
                let x: i32 = held_to(self.pointer_x + m.dx, width as i32 - 1);
                let y: i32 = held_to(self.pointer_y + m.dy, height as i32 - 1);
                if !m.left || self.restart.box_.contains(x, y) || !layout.readout_box().contains(
                    x,
                    y,
                ) {
                    return true;
                }
                let ghost there = self@.moved(m, width as int, height as int);
                let mut tab: Tab = self.tab;
                let mut i: usize = 0;
                while i < 3
                    invariant
                        i <= 3,
                        there.wf(),
                        there.tabs == self@.tabs,
                        self.tabs@ == there.tabs,
                        tab == there.tabs_clicked(x as int, y as int, i as int).tab,
                    decreases 3 - i,
                {
                    if self.tabs[i].box_.contains(x, y) {
                        tab = Tab::at(i);
                    }
                    i += 1;
                }
                proof {
                    clicks_keep(there, x as int, y as int, 3);
                }
                match tab {
                    Tab::Clock => true,
                    Tab::Stopwatch => self.stopwatch.readable_at(now),
                    Tab::Timer => self.timer.expired || self.timer.readable_at(now),
                }
            },
        }
    }

    /// Moves the cursor and acts on a click.
    pub fn pointer(
        &mut self,
        m: Motion,
        now: u64,
        layout: &Layout,
        width: u32,
        height: u32,
    ) -> (r: Action)
        requires
            old(self)@.wf(),
            old(self)@.can_point(m, now, *layout, width as int, height as int),
            layout.wf(),
            1 <= width <= i32::MAX,
            1 <= height <= i32::MAX,
            i32::MIN <= old(self).pointer_x + m.dx <= i32::MAX,
            i32::MIN <= old(self).pointer_y + m.dy <= i32::MAX,
        ensures
            final(self)@.wf(),
            final(self)@ == old(self)@.pointed(m, now, *layout, width as int, height as int),
            r == old(self)@.pointing_asks(m, width as int, height as int),
    {
        let x: i32 = held_to(self.pointer_x + m.dx, width as i32 - 1);
        let y: i32 = held_to(self.pointer_y + m.dy, height as i32 - 1);
        self.pointer_x = x;
        self.pointer_y = y;
        self.cursor.move_to(x, y);
        let ghost there = self@;
        assert(there == old(self)@.moved(m, width as int, height as int));
        if !m.left {
            return Action::Stay;
        }
        if self.restart.box_.contains(x, y) {
            return Action::Restart;
        }
        let asked: Action = if self.shutdown.box_.contains(x, y) {
            Action::PowerOff
        } else {
            Action::Stay
        };
        let mut i: usize = 0;
        while i < 3
            invariant
                i <= 3,
                there.wf(),
                there.pointer_x == x && there.pointer_y == y,
                self@ == there.tabs_clicked(x as int, y as int, i as int),
                self@.tabs == there.tabs,
                self@.chips == there.chips,
                self@.wf(),
                self@.watch == there.watch && self@.timer == there.timer,
                self@.precision_chip == there.precision_chip,
            decreases 3 - i,
        {
            if self.tabs[i].box_.contains(x, y) {
                self.select_tab(Tab::at(i));
            }
            i += 1;
        }
        let ghost tabbed = self@;
        let mut i: usize = 0;
        while i < 6
            invariant
                i <= 6,
                tabbed.wf(),
                self@ == tabbed.chips_clicked(x as int, y as int, i as int),
                self@.chips == tabbed.chips,
                self@.wf(),
                self@.watch == tabbed.watch && self@.timer == tabbed.timer,
                self@.tab == tabbed.tab,
                self@.precision_chip == tabbed.precision_chip,
            decreases 6 - i,
        {
            if self.chips[i].box_.contains(x, y) {
                self.select_panel(Panel::at(i));
            }
            i += 1;
        }
        if self.precision_chip.box_.contains(x, y) {
            self.toggle_precision();
        }
        if layout.readout_box().contains(x, y) {
            self.toggle_session(now);
        }
        asked
    }

    /// Whether the cards are due this frame: drawn when they are dirty and
    /// for as long as they are fading in. Takes the fade's step where they
    /// are.
    pub fn cards_due<F: Fn(i32, i32, i32) -> i32>(&mut self, ease: &Ease<F>) -> (r: bool)
        requires
            ease.wf(),
        ensures
            r == old(self)@.cards_are_due(),
            final(self)@ == old(self)@.cards_after(*ease),
    {
        let due: bool = self.cards_dirty || !self.cards_fade.settled();
        self.cards_dirty = false;
        if due {
            let _ = self.cards_fade.step(ease);
        }
        due
    }

    /// Accounts for a frame that took `spent` ticks to draw, `elapsed` ticks
    /// into the load window. A window is a second long; the share of it spent
    /// drawing is the load, and the next one starts at `now`.
    pub fn account(&mut self, spent: u64, elapsed: u64, hz: u64, now: u64)
        requires
            old(self).busy_ticks + spent <= u64::MAX,
        ensures
            final(self)@ == old(self)@.accounted(spent, elapsed, hz, now),
            old(self)@.wf() ==> final(self)@.wf(),
    {
        self.busy_ticks = self.busy_ticks + spent;
        if elapsed >= hz {
            self.window_ticks = elapsed;
            let span: u64 = if elapsed > 1 {
                elapsed
            } else {
                1
            };
            let share: u128 = self.busy_ticks as u128 * 1000 / span as u128;
            self.load_permille = if share > 1000 {
                1000
            } else {
                share as u32
            };
            self.busy_ticks = 0;
            self.window_started = now;
        }
    }
}

/// The share of a window spent drawing, in thousandths.
pub open spec fn load_of(busy: int, elapsed: int) -> int {
    let span = if elapsed > 1 {
        elapsed
    } else {
        1
    };
    held(busy * 1000 / span, 0, 1000)
}

/// A coordinate held to a screen.
fn held_to(value: i32, last: i32) -> (r: i32)
    requires
        last >= 0,
    ensures
        r == held(value as int, 0, last as int),
{
    if value < 0 {
        0
    } else if value > last {
        last
    } else {
        value
    }
}

/// How long a frame is meant to take, in nanoseconds: sixty a second. Nothing
/// enforces it, so this is a floor on how often the loop redraws, not a
/// ceiling on how fast it could.
pub const FRAME_NS: u64 = 16_666_666;

/// How many input events to take before drawing. Bounded so a pointer being
/// moved continuously cannot starve the draw.
pub const EVENTS_PER_FRAME: usize = 24;

/// When the frame after this one is due, if one is due now.
pub open spec fn next_frame(now_ns: u64, due: u64) -> Option<u64> {
    if now_ns < due {
        None
    } else {
        Some((now_ns + FRAME_NS) as u64)
    }
}

/// When the frame after this one is due, if one is due now. Counted from the
/// current time rather than from when this one was due, so a frame that
/// overran does not leave the loop trying to catch up with a burst of frames
/// it cannot draw either.
pub fn pace(now_ns: u64, due: u64) -> (r: Option<u64>)
    requires
        now_ns >= due ==> now_ns + FRAME_NS <= u64::MAX,
    ensures
        r == next_frame(now_ns, due),
{
    if now_ns < due {
        None
    } else {
        Some(now_ns + FRAME_NS)
    }
}

/// Frames are a frame's length apart, however late the first of them was.
pub proof fn frames_are_spaced(now_ns: u64, due: u64, later_ns: u64)
    requires
        now_ns + FRAME_NS <= u64::MAX,
        next_frame(now_ns, due) is Some,
        next_frame(later_ns, next_frame(now_ns, due)->0) is Some,
    ensures
        later_ns >= now_ns + FRAME_NS,
{
}

/// Whatever arrives, the pointer stays on the screen, and the cursor is where
/// the pointer is.
pub proof fn the_pointer_stays_on_the_screen(
    state: State,
    event: Event,
    now: u64,
    layout: Layout,
    width: int,
    height: int,
)
    requires
        1 <= width <= i32::MAX,
        1 <= height <= i32::MAX,
        0 <= state.pointer_x < width,
        0 <= state.pointer_y < height,
        state.cursor.x == state.pointer_x,
        state.cursor.y == state.pointer_y,
    ensures
        ({
            let after = state.handled(event, now, layout, width, height);
            &&& 0 <= after.pointer_x < width
            &&& 0 <= after.pointer_y < height
            &&& after.cursor.x == after.pointer_x
            &&& after.cursor.y == after.pointer_y
        }),
{
    match event {
        Event::Key(key) => keys_move_nothing(state, key, now),
        Event::Motion(m) => clicks_move_nothing(state.moved(m, width, height), now, layout),
    }
}

/// No key moves the pointer.
proof fn keys_move_nothing(state: State, key: Key, now: u64)
    ensures
        ({
            let after = state.keyed(key, now);
            &&& after.pointer_x == state.pointer_x && after.pointer_y == state.pointer_y
            &&& after.cursor == state.cursor
        }),
{
}

/// No click moves the pointer.
proof fn clicks_move_nothing(state: State, now: u64, layout: Layout)
    ensures
        ({
            let after = state.clicked(now, layout);
            &&& after.pointer_x == state.pointer_x && after.pointer_y == state.pointer_y
            &&& after.cursor == state.cursor
        }),
{
    let (x, y) = (state.pointer_x as int, state.pointer_y as int);
    clicks_keep(state, x, y, 3);
    clicks_keep(state.tabs_clicked(x, y, 3), x, y, 6);
}

/// Clicking tabs and chips moves nothing and touches no instrument.
proof fn clicks_keep(state: State, x: int, y: int, n: int)
    ensures
        ({
            let a = state.tabs_clicked(x, y, n);
            let b = state.chips_clicked(x, y, n);
            &&& a.pointer_x == state.pointer_x && a.pointer_y == state.pointer_y
            &&& b.pointer_x == state.pointer_x && b.pointer_y == state.pointer_y
            &&& a.cursor == state.cursor && b.cursor == state.cursor
            &&& a.watch == state.watch && b.watch == state.watch
            &&& a.timer == state.timer && b.timer == state.timer
            &&& a.precision_chip == state.precision_chip
        }),
    decreases n,
{
    if n > 0 {
        clicks_keep(state, x, y, n - 1);
    }
}

/// Changing what is shown measures nothing: no mode, panel or precision
/// change touches the stopwatch or the timer, and neither does a key that is
/// let go.
pub proof fn looking_does_not_measure(state: State, tab: Tab, panel: Panel, key: Key, now: u64)
    requires
        !key.pressed,
    ensures
        state.on_tab(tab).watch == state.watch && state.on_tab(tab).timer == state.timer,
        state.on_panel(panel).watch == state.watch && state.on_panel(panel).timer == state.timer,
        state.at_other_precision().watch == state.watch,
        state.at_other_precision().timer == state.timer,
        state.keyed(key, now).watch == state.watch && state.keyed(key, now).timer == state.timer,
        state.at_other_precision().at_other_precision().precision == state.precision,
{
}

/// A machine is only ever restarted or switched off by its key or its button,
/// and a key that is let go asks for nothing.
pub proof fn nothing_else_ends_it(state: State, key: Key, m: Motion, width: int, height: int)
    ensures
        state.asks(Event::Key(key), width, height) != Action::Stay ==> key.pressed
            && (key.scancode == SCAN_R || key.scancode == SCAN_S),
        state.asks(Event::Motion(m), width, height) != Action::Stay ==> m.left && {
            let there = state.moved(m, width, height);
            let (x, y) = (there.pointer_x as int, there.pointer_y as int);
            there.restart.box_.covers(x, y) || there.shutdown.box_.covers(x, y)
        },
{
}

/// A press of tab, as the interface hears it.
pub open spec fn tab_key() -> Event {
    Event::Key(Key { scancode: SCAN_TAB, pressed: true })
}

/// What a press of tab leaves.
#[verifier::opaque]
pub open spec fn tabbed(state: State, now: u64, layout: Layout, width: int, height: int) -> State {
    state.handled(tab_key(), now, layout, width, height)
}

/// What a number of presses of tab leave.
pub open spec fn tabbed_often(
    state: State,
    presses: nat,
    now: u64,
    layout: Layout,
    width: int,
    height: int,
) -> State
    decreases presses,
{
    if presses == 0 {
        state
    } else {
        let before = tabbed_often(state, (presses - 1) as nat, now, layout, width, height);
        tabbed(before, now, layout, width, height)
    }
}

/// Tab moves the panel one on and nothing else: the mode, the precision and
/// both instruments stay as they are, and nothing is asked of the machine. It
/// can always be pressed.
pub proof fn tab_moves_one_on(state: State, now: u64, layout: Layout, width: int, height: int)
    ensures
        ({
            let after = tabbed(state, now, layout, width, height);
            &&& after == state.handled(tab_key(), now, layout, width, height)
            &&& after.panel == Panel::nth((state.panel.place() + 1) % 6)
            &&& after.tab == state.tab && after.precision == state.precision
            &&& after.watch == state.watch && after.timer == state.timer
            &&& after.pointer_x == state.pointer_x && after.pointer_y == state.pointer_y
        }),
        state.asks(tab_key(), width, height) == Action::Stay,
        state.can_handle(tab_key(), now, layout, width, height),
{
    reveal(tabbed);
}

/// However often tab is pressed, the panel is as many on, so six presses
/// restore it; and nothing else has changed but what is to be drawn.
pub proof fn six_tabs_restore_the_panel(
    state: State,
    presses: nat,
    now: u64,
    layout: Layout,
    width: int,
    height: int,
)
    ensures
        ({
            let after = tabbed_often(state, presses, now, layout, width, height);
            &&& after.panel == Panel::nth((state.panel.place() + presses) % 6)
            &&& presses % 6 == 0 ==> after.panel == state.panel
            &&& after.tab == state.tab && after.precision == state.precision
            &&& after.watch == state.watch && after.timer == state.timer
        }),
    decreases presses,
{
    if presses > 0 {
        let before = tabbed_often(state, (presses - 1) as nat, now, layout, width, height);
        six_tabs_restore_the_panel(state, (presses - 1) as nat, now, layout, width, height);
        tab_moves_one_on(before, now, layout, width, height);
        let place = state.panel.place();
        assert(before.panel.place() == (place + presses - 1) % 6);
        assert(((place + presses - 1) % 6 + 1) % 6 == (place + presses) % 6);
    }
}

/// A key that is let go changes neither the panel nor the mode nor the
/// precision, touches no instrument, moves nothing and asks for nothing; and it
/// can always be let go.
pub proof fn a_release_changes_nothing(
    state: State,
    key: Key,
    now: u64,
    layout: Layout,
    width: int,
    height: int,
)
    requires
        !key.pressed,
    ensures
        ({
            let after = state.handled(Event::Key(key), now, layout, width, height);
            &&& after.panel == state.panel && after.tab == state.tab
            &&& after.precision == state.precision
            &&& after.watch == state.watch && after.timer == state.timer
            &&& after.pointer_x == state.pointer_x && after.pointer_y == state.pointer_y
        }),
        state.asks(Event::Key(key), width, height) == Action::Stay,
        state.can_handle(Event::Key(key), now, layout, width, height),
{
}

/// A mode that is not changed is not replayed: selecting the selected tab or
/// panel leaves everything as it was.
pub proof fn selecting_the_selected_changes_nothing(state: State)
    ensures
        state.on_tab(state.tab) == state,
        state.on_panel(state.panel) == state,
{
}

/// The interface starts on the stopwatch at full precision with nothing
/// measured, the timer at a minute and the processor's panel; the pointer is put
/// in the middle, and a missing device opens its panel and says what it is.
pub proof fn how_the_interface_starts(
    clean: Verdict,
    cursor: Cursor,
    width: u32,
    height: u32,
    now: u64,
    input: Input,
)
    requires
        width <= i32::MAX,
        height <= i32::MAX,
    ensures
        ({
            let start = State::first(clean, cursor);
            &&& start.tab == Tab::Stopwatch && start.panel == Panel::Cpu && start.precision
                == Precision::Nano
            &&& start.watch.elapsed(now) == 0 && !start.watch.running && start.watch.laps.len() == 0
            &&& start.timer.target_ns == 60_000_000_000 && !start.timer.running
                && !start.timer.expired
            &&& start.readout_fade.value == 1000 && start.cards_fade.value == 1000
            &&& start.input_note is None
        }),
        ({
            let there = State::first(clean, cursor).centred(width, height, now);
            &&& 0 <= width - 2 * there.pointer_x <= 1 && 0 <= height - 2 * there.pointer_y <= 1
            &&& there.cursor.x == there.pointer_x && there.cursor.y == there.pointer_y
            &&& there.window_started == now
        }),
        ({
            let told = State::first(clean, cursor).told_of(input);
            let short = !input.keyboard || input.pointer == crate::input::PointerKind::Absent;
            &&& short ==> told.panel == Panel::Usb && told.input_note == Some(input.trouble_text())
            &&& !short ==> told == State::first(clean, cursor)
        }),
{
}

/// What every key does, by its code: 1 and C, 2 and 3 select the three modes;
/// space and P start and stop the current instrument; L records a lap on the
/// stopwatch; Z puts the current instrument back; up and down move the timer's
/// target; N changes the precision; B, M, U and H select a panel. No other key
/// does anything.
pub proof fn what_a_key_does(state: State, code: u8, now: u64)
    requires
        state.panel != Panel::Usb,
    ensures
        ({
            let after = state.keyed(Key { scancode: code, pressed: true }, now);
            &&& code == 0x02 || code == 0x2E ==> after.tab == Tab::Clock
            &&& code == 0x03 ==> after.tab == Tab::Stopwatch
            &&& code == 0x04 ==> after.tab == Tab::Timer
            &&& code != 0x02 && code != 0x2E && code != 0x03 && code != 0x04 ==> after.tab
                == state.tab
            &&& (code == 0x39 || code == 0x19) && state.tab == Tab::Stopwatch ==> after.watch
                == state.watch.toggled(now) && after.timer == state.timer
            &&& (code == 0x39 || code == 0x19) && state.tab == Tab::Timer ==> after.timer
                == state.timer.toggled(now) && after.watch == state.watch
            &&& code == 0x26 && state.tab == Tab::Stopwatch ==> after.watch == state.watch.lapped(
                now,
            )
            &&& code == 0x2C && state.tab == Tab::Stopwatch ==> after.watch == state.watch.zeroed()
            &&& code == 0x2C && state.tab == Tab::Timer ==> after.timer == state.timer.zeroed()
            &&& code == 0x48 && state.tab == Tab::Timer ==> after.timer == state.timer.adjusted(true)
            &&& code == 0x50 && state.tab == Tab::Timer ==> after.timer == state.timer.adjusted(
                false,
            )
            &&& state.tab == Tab::Clock ==> after.watch == state.watch && after.timer == state.timer
            &&& state.tab != Tab::Stopwatch ==> after.watch == state.watch
            &&& state.tab != Tab::Timer ==> after.timer == state.timer
            &&& code == 0x31 <==> after.precision != state.precision
            &&& code == 0x30 ==> after.panel == Panel::Pmu
            &&& code == 0x32 ==> after.panel == Panel::Memory
            &&& code == 0x16 ==> after.panel == Panel::Usb
            &&& code == 0x23 ==> after.panel == Panel::Hypervisor
            &&& code != 0x30 && code != 0x32 && code != 0x16 && code != 0x23 && code != 0x0F
                ==> after.panel == state.panel
            &&& code != 0x39 && code != 0x19 && code != 0x26 && code != 0x2C ==> after.watch
                == state.watch
            &&& code != 0x39 && code != 0x19 && code != 0x2C && code != 0x48 && code != 0x50
                ==> after.timer == state.timer
        }),
{
}

/// What changes is drawn: another mode fades the readout and the cards in, and
/// another panel the cards; the precision fades the readout in and draws the row
/// again; starting, stopping and setting draw the cards as they are, and a byte
/// on the input panel does too.
pub proof fn what_changes_is_drawn(state: State, tab: Tab, panel: Panel, key: Key, now: u64)
    ensures
        ({
            let other = state.on_tab(tab);
            &&& tab != state.tab ==> other.tab == tab && other.readout_fade.value == 0
                && other.readout_fade.target == 1000 && other.cards_fade.value == 0
                && other.cards_fade.target == 1000 && other.cards_dirty && other.last_readout.len()
                == 0
        }),
        ({
            let other = state.on_panel(panel);
            &&& panel != state.panel ==> other.panel == panel && other.cards_fade.value == 0
                && other.cards_fade.target == 1000 && other.cards_dirty && other.readout_fade
                == state.readout_fade
        }),
        ({
            let other = state.at_other_precision();
            &&& other.precision != state.precision && other.chrome_dirty && other.readout_fade.value
                == 0 && other.readout_fade.target == 1000 && other.last_header_clock.len() == 0
                && other.last_readout.len() == 0
        }),
        state.session_toggled(now).cards_dirty,
        state.session_toggled(now).cards_fade == state.cards_fade,
        state.timer_adjusted(true).cards_dirty && state.timer_adjusted(false).cards_dirty,
        state.tab != Tab::Clock ==> state.session_zeroed().cards_dirty,
        state.panel == Panel::Usb && !key.pressed ==> state.keyed(key, now).cards_dirty,
        state.panel == Panel::Usb ==> state.keyed(key, now).tab == state.cards_refreshed().keyed(
            key,
            now,
        ).tab,
{
}

/// The cards are drawn where they changed and for as long as they fade in, and
/// are then clean; otherwise they are left as they are.
pub proof fn cards_are_drawn_when_due<F: Fn(i32, i32, i32) -> i32>(state: State, ease: Ease<F>)
    ensures
        state.cards_are_due() <==> state.cards_dirty || state.cards_fade.value
            != state.cards_fade.target,
        !state.cards_are_due() ==> state.cards_after(ease) == state,
        state.cards_are_due() ==> !state.cards_after(ease).cards_dirty && state.cards_after(
            ease,
        ).cards_fade.value == ease.next(
            state.cards_fade.value,
            state.cards_fade.target,
            state.cards_fade.rate,
        ),
{
}

/// The pointer moves by exactly what was reported, and stops at the edges.
pub proof fn the_pointer_moves_as_reported(state: State, m: Motion, width: int, height: int)
    requires
        1 <= width <= i32::MAX,
        1 <= height <= i32::MAX,
    ensures
        ({
            let there = state.moved(m, width, height);
            let (x, y) = (state.pointer_x + m.dx, state.pointer_y + m.dy);
            &&& 0 <= x < width ==> there.pointer_x == x
            &&& x < 0 ==> there.pointer_x == 0
            &&& x >= width ==> there.pointer_x == width - 1
            &&& 0 <= y < height ==> there.pointer_y == y
            &&& y < 0 ==> there.pointer_y == 0
            &&& y >= height ==> there.pointer_y == height - 1
            &&& there.tab == state.tab && there.watch == state.watch && there.timer == state.timer
        }),
{
}

/// A motion without the left button only moves the pointer; the button selects
/// the tab or the panel it is over, toggles the precision on its chip, and starts
/// or stops the current instrument on the readout. What is beside all of them
/// does nothing.
pub proof fn what_a_click_does(state: State, now: u64, layout: Layout, i: int)
    requires
        state.wf(),
        0 <= i < 6,
        forall|j: int|
            0 <= j < 3 && j != i ==> !(#[trigger] state.tabs[j]).box_.covers(
                state.pointer_x as int,
                state.pointer_y as int,
            ),
        forall|j: int|
            0 <= j < 6 && j != i ==> !(#[trigger] state.chips[j]).box_.covers(
                state.pointer_x as int,
                state.pointer_y as int,
            ),
    ensures
        ({
            let (x, y) = (state.pointer_x as int, state.pointer_y as int);
            let after = state.clicked(now, layout);
            let on_tab = i < 3 && state.tabs[i].box_.covers(x, y);
            let on_chip = state.chips[i].box_.covers(x, y);
            let on_readout = layout.readout_x <= x < layout.readout_x + layout.readout_w
                && layout.readout_y <= y < layout.readout_y + layout.readout_h;
            &&& on_tab ==> after.tab == Tab::nth(i)
            &&& !on_tab ==> after.tab == state.tab
            &&& on_chip ==> after.panel == Panel::nth(i)
            &&& !on_chip ==> after.panel == state.panel
            &&& state.precision_chip.box_.covers(x, y) <==> after.precision != state.precision
            &&& !on_readout ==> after.watch == state.watch && after.timer == state.timer
            &&& on_readout && after.tab == Tab::Stopwatch ==> after.watch == state.watch.toggled(now)
                && after.timer == state.timer
            &&& on_readout && after.tab == Tab::Timer ==> after.timer == state.timer.toggled(now)
                && after.watch == state.watch
            &&& on_readout && after.tab == Tab::Clock ==> after.timer == state.timer && after.watch
                == state.watch
        }),
{
    let (x, y) = (state.pointer_x as int, state.pointer_y as int);
    reveal_with_fuel(State::tabs_clicked, 4);
    reveal_with_fuel(State::chips_clicked, 7);
    let tabbed = state.tabs_clicked(x, y, 3);
    clicks_keep(state, x, y, 3);
    clicks_keep(tabbed, x, y, 6);
    assert(tabbed.chips == state.chips && tabbed.panel == state.panel && tabbed.precision
        == state.precision);
    let picked = tabbed.chips_clicked(x, y, 6);
    assert(picked.tab == tabbed.tab && picked.precision == state.precision);
    assert(i == 0 || i == 1 || i == 2 || i == 3 || i == 4 || i == 5);
    assert(tabbed.tab == if i < 3 && state.tabs[i].box_.covers(x, y) {
        Tab::nth(i)
    } else {
        state.tab
    });
    assert(picked.panel == if state.chips[i].box_.covers(x, y) {
        Panel::nth(i)
    } else {
        state.panel
    });
}

/// R restarts and S switches off, and so do the two buttons under a click, the
/// restart button first; without a click, or beside them, nothing is asked. A
/// click that restarts does nothing else.
pub proof fn what_is_asked_of_the_machine(
    state: State,
    code: u8,
    m: Motion,
    now: u64,
    layout: Layout,
    width: int,
    height: int,
)
    ensures
        state.asks(Event::Key(Key { scancode: code, pressed: true }), width, height) == (
        if code == 0x13 {
            Action::Restart
        } else if code == 0x1F {
            Action::PowerOff
        } else {
            Action::Stay
        }),
        ({
            let there = state.moved(m, width, height);
            let (x, y) = (there.pointer_x as int, there.pointer_y as int);
            let asked = state.asks(Event::Motion(m), width, height);
            let after = state.handled(Event::Motion(m), now, layout, width, height);
            &&& !m.left ==> asked == Action::Stay && after == there
            &&& m.left && state.restart.box_.covers(x, y) ==> asked == Action::Restart && after
                == there
            &&& m.left && !state.restart.box_.covers(x, y) && state.shutdown.box_.covers(x, y)
                ==> asked == Action::PowerOff
            &&& m.left && !state.restart.box_.covers(x, y) && !state.shutdown.box_.covers(x, y)
                ==> asked == Action::Stay
            &&& m.left && !state.restart.box_.covers(x, y) ==> after == there.clicked(now, layout)
        }),
{
}

/// The load is the share of the window that was spent drawing, in thousandths
/// and never more than all of it. A window ends once a second has passed, and
/// the next starts with nothing spent; until then what is spent adds up.
pub proof fn the_load_is_a_share(state: State, spent: u64, elapsed: u64, hz: u64, now: u64)
    requires
        state.busy_ticks + spent <= u64::MAX,
    ensures
        ({
            let after = state.accounted(spent, elapsed, hz, now);
            let busy = state.busy_ticks + spent;
            &&& elapsed < hz ==> after.busy_ticks == busy && after.load_permille
                == state.load_permille && after.window_started == state.window_started
            &&& elapsed >= hz ==> after.busy_ticks == 0 && after.window_started == now
                && after.window_ticks == elapsed
            &&& elapsed >= hz && 0 < elapsed && busy <= elapsed ==> after.load_permille == busy * 1000
                / elapsed as int
            &&& elapsed >= hz && 0 < elapsed && busy > elapsed ==> after.load_permille == 1000
        }),
{
    let busy = state.busy_ticks + spent;
    if 0 < elapsed {
        let e = elapsed as int;
        if busy <= e {
            assert(0 <= busy * 1000 / e <= 1000) by (nonlinear_arith)
                requires
                    0 <= busy <= e,
                    0 < e,
            ;
        } else {
            assert(busy * 1000 / e >= 1000) by (nonlinear_arith)
                requires
                    busy > e,
                    0 < e,
            ;
        }
        if e == 1 {
            assert(busy * 1000 / 1 == busy * 1000);
        }
    }
}

/// A frame is drawn as soon as it is due, and the next is due a sixtieth of a
/// second after that.
pub proof fn a_frame_is_drawn_when_due(now_ns: u64, due: u64)
    requires
        now_ns <= u64::MAX - 16_666_666,
    ensures
        now_ns < due ==> next_frame(now_ns, due) is None,
        now_ns >= due ==> next_frame(now_ns, due) == Some((now_ns + 1_000_000_000u64 / 60) as u64),
{
}

} // verus!
