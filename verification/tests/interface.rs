//! The interface: where things sit, what they say, and what input does.

use nanochrono::acpi::RootSource;
use nanochrono::gui::bars::{power_off, status_frame};
use nanochrono::gui::canvas::{Canvas, Face, FaceId, Ink, Op, Tone, Typeface};
use nanochrono::gui::cards::{alpha, truncate_to_width};
use nanochrono::gui::frame::{first_frame, frame, Scene};
use nanochrono::gui::header::{glyph_power, glyph_restart, header_clock_box};
use nanochrono::gui::layout::{Layout, Panel, Precision, Tab};
use nanochrono::gui::motion::{clamp, Control, Ease, Hitbox, Tween};
use nanochrono::gui::rows::{
    machine_rows, panel_rows, session_rows, Machine, MemoryMap, Rows,
};
use nanochrono::gui::state::{
    pace, Action, Ui, FRAME_NS, SCAN_2, SCAN_3, SCAN_C, SCAN_DOWN, SCAN_H, SCAN_L, SCAN_M,
    SCAN_N, SCAN_R, SCAN_S, SCAN_SPACE, SCAN_TAB, SCAN_U, SCAN_UP, SCAN_Z,
};
use nanochrono::gui::watch::{Banked, Clock, Date, Stopwatch, Timer, Verdict};
use nanochrono::hypervisor;
use nanochrono::i2c_hid::{Discovery, Gate, HidDescriptor, I2cHid, Kind};
use nanochrono::input::{Event, Input, Key, Motion, PointerKind};
use nanochrono::pmu::{CorePmu, CoreType, CounterRoute, PmuLeaf};

const CLEAN: Verdict = Verdict { rank: 0, name: "clean" };

fn face(advance: u8, line_height: u16) -> Face {
    Face { advance: [advance; 256], line_height }
}

fn faces() -> Typeface {
    Typeface {
        body: face(8, 16),
        heading: face(10, 22),
        title: face(12, 26),
        readout: face(20, 40),
        readout_big: face(30, 60),
    }
}

fn machine() -> Machine {
    let leaf = PmuLeaf {
        available: true,
        version: 5,
        general_counters: 8,
        general_width: 48,
        fixed_counters: 3,
        fixed_width: 48,
        events_unavailable: 0,
    };
    Machine {
        backend: "avx2",
        avx2: true,
        avx512f: false,
        aesni: true,
        shani: false,
        invariant_counter: true,
        pmu: CorePmu::detect(0x20, leaf, CoreType::Performance),
        core_type: "P-core",
        route: CounterRoute::Fixed,
        cycles_per_op: Some(4),
        read_overhead: 18,
        worst_read: 60,
        hypervisor: hypervisor::detect(0, [0; 4], &hypervisor::Hypercalls::default()),
        memory: MemoryMap { total: 8 << 30, regions: 12 },
        footprint: 9 << 20,
        acpi: None,
        root: (RootSource::LegacyScan, true),
        composited: true,
    }
}

/// A clock of one tick a nanosecond.
fn clock(now: u64) -> Clock<fn(u64) -> u64> {
    fn same(ticks: u64) -> u64 {
        ticks
    }
    Clock {
        now,
        elapsed_ns: now,
        wall_ns: Some(45_296_000_000_000),
        date: Some(Date { year: 2025, month: 3, day: 9 }),
        hz: 1_000_000_000,
        source: "pit",
        trustworthy: true,
        to_ns: same,
    }
}

/// Arrives at once.
fn jump() -> Ease<fn(i32, i32, i32) -> i32> {
    fn arrive(_value: i32, target: i32, _rate: i32) -> i32 {
        target
    }
    Ease { step: arrive }
}

/// Never arrives.
fn hold() -> Ease<fn(i32, i32, i32) -> i32> {
    fn stay(value: i32, _target: i32, _rate: i32) -> i32 {
        value
    }
    Ease { step: stay }
}

fn touchpad() -> I2cHid {
    I2cHid {
        address: 0x15,
        descriptor: HidDescriptor {
            report_descriptor_length: 200,
            report_descriptor_register: 0x21,
            input_register: 0x24,
            max_input_length: 40,
            command_register: 0x22,
            data_register: 0x23,
            vendor: 0x06CB,
            product: 0x7E7E,
        },
        layout: Kind::Pointer,
        report: Some(2),
        controller: (0, 0x15, 1),
        vendor: 0x06CB,
        product: 0x7E7E,
        interrupt_pin: None,
        discovery: Discovery::Firmware,
        evaluated: true,
        gate: Gate::Blind,
        polls: 0,
        failures: 0,
    }
}

fn keys() -> Input {
    Input::init(1, true, PointerKind::Wheel)
}

fn layout() -> Layout {
    Layout::for_screen(1280, 800, &faces())
}

fn key(ui: &mut Ui, scancode: u8, now: u64) -> Action {
    let event = Event::Key(Key { scancode, pressed: true });
    ui.handle(event, now, &layout(), 1280, 800)
}

fn click(ui: &mut Ui, x: i32, y: i32) -> Action {
    let motion = Motion {
        dx: x - ui.pointer_x,
        dy: y - ui.pointer_y,
        left: true,
        ..Motion::default()
    };
    ui.handle(Event::Motion(motion), 0, &layout(), 1280, 800)
}

/// Every string a canvas draws.
fn texts(canvas: &Canvas) -> Vec<String> {
    let mut all = Vec::new();
    for op in &canvas.ops {
        let text = match op {
            Op::Text { text, .. }
            | Op::Centred { text, .. }
            | Op::Right { text, .. }
            | Op::Glow { text, .. }
            | Op::Chip { text, .. } => text,
            _ => continue,
        };
        all.push(String::from_utf8(text.clone()).unwrap());
    }
    all
}

/// A table as pairs of strings.
fn table(rows: &Rows) -> Vec<(String, String)> {
    let text = |bytes: &Vec<u8>| String::from_utf8(bytes.clone()).unwrap();
    rows.rows.iter().map(|row| (text(&row.label), text(&row.value))).collect()
}

fn value<'a>(rows: &'a [(String, String)], label: &str) -> &'a str {
    &rows.iter().find(|row| row.0 == label).unwrap().1
}

#[test]
fn a_screen_is_divided_once() {
    let l = layout();
    assert_eq!((l.margin, l.header_h, l.tabs_y, l.tabs_h), (32, 44, 44, 50));
    assert_eq!((l.status_y, l.status_h, l.hint_y), (746, 54, 716));
    assert_eq!(l.readout, FaceId::ReadoutBig);
    assert_eq!((l.columns, l.card_w), (3, 384));
    assert_eq!((l.cards_y, l.cards_h), (362, 346));
    let b = l.readout_box();
    assert_eq!((b.x, b.y, b.w, b.h), (308, 175, 664, 106));
}

#[test]
fn a_narrow_screen_folds() {
    let l = Layout::for_screen(640, 480, &faces());
    assert_eq!(l.readout, FaceId::Readout);
    assert_eq!(l.columns, 2);
    let tiny = Layout::for_screen(64, 64, &faces());
    assert_eq!((tiny.columns, tiny.cards_h), (1, 0));
}

#[test]
fn modes_and_panels_have_names() {
    for i in 0..3 {
        assert_eq!(Tab::at(i).position(), i);
    }
    assert_eq!(Tab::Stopwatch.name(), "STOPWATCH");
    let mut panel = Panel::Cpu;
    for i in 0..6 {
        assert_eq!(panel, Panel::at(i));
        panel = panel.next();
    }
    assert_eq!(panel, Panel::Cpu);
    assert_eq!(Panel::Memory.short(), "MEM");
    assert_eq!(Panel::Hypervisor.short(), "HYP");
    assert_eq!((Precision::Nano.name(), Precision::Simple.name()), ("NANO", "SIMPLE"));
    assert!(Precision::Nano.nanoseconds());
}

#[test]
fn a_stopwatch_banks_its_runs() {
    let mut watch = Stopwatch::new(CLEAN);
    watch.toggle(100);
    assert_eq!(watch.ticks(150), 50);
    watch.toggle(160);
    assert_eq!(watch.ticks(9_999), 60);
    watch.toggle(10_000);
    assert_eq!(watch.ticks(10_005), 65);
    assert!(watch.readable_at(10_005));
    // The counter rolls over and the reading does not.
    let mut late = Stopwatch::new(CLEAN);
    late.toggle(u64::MAX - 9);
    assert_eq!(late.ticks(10), 20);
    late.accumulated.value = u64::MAX;
    assert!(!late.readable_at(10));
}

#[test]
fn the_latest_six_laps_are_kept() {
    let mut watch = Stopwatch::new(CLEAN);
    watch.toggle(0);
    for i in 1..=8 {
        watch.lap(i);
    }
    assert_eq!(watch.laps, vec![3, 4, 5, 6, 7, 8]);
    watch.reset();
    assert!(watch.laps.is_empty() && !watch.running);
    assert_eq!(watch.ticks(99), 0);
}

#[test]
fn the_total_goes_through_its_store() {
    let mut watch = Stopwatch::new(CLEAN);
    assert_eq!((watch.save(), watch.save()), (Some(0), None));
    watch.reload(Banked { value: 40, verdict: CLEAN });
    watch.toggle(100);
    assert_eq!(watch.save(), None);
    // Read back corrected, and noticed with the next reading.
    let corrected = Verdict { rank: 1, name: "corrected" };
    watch.reload(Banked { value: 41, verdict: corrected });
    assert_eq!((watch.ticks(110), watch.integrity.name), (51, "corrected"));
    assert_eq!(watch.save(), None);
    watch.toggle(110);
    // What has not been stored yet is not lost to what was.
    watch.reload(Banked { value: 7, verdict: CLEAN });
    assert_eq!(watch.save(), Some(51));
    watch.reload(Banked { value: 51, verdict: CLEAN });
    assert_eq!((watch.ticks(0), watch.integrity.name), (51, "corrected"));
    watch.reset();
    assert_eq!((watch.save(), watch.integrity.name), (Some(0), "clean"));
}

#[test]
fn the_worst_verdict_stays_until_a_reset() {
    let mut watch = Stopwatch::new(CLEAN);
    watch.accumulated =
        Banked { value: 5, verdict: Verdict { rank: 2, name: "two banks agree" } };
    watch.ticks(0);
    watch.toggle(0);
    watch.toggle(10);
    assert_eq!(watch.accumulated.verdict.name, "clean");
    watch.ticks(20);
    assert_eq!(watch.integrity.name, "two banks agree");
    watch.reset();
    assert_eq!(watch.integrity.name, "clean");
}

#[test]
fn a_timer_stops_at_zero() {
    let mut timer = Timer::new();
    assert_eq!(timer.remaining_ns(0, &clock(0)), 60_000_000_000);
    timer.toggle(0);
    assert_eq!(timer.elapsed_ticks(7), 7);
    assert_eq!(timer.remaining_ns(59_999_999_999, &clock(0)), 1);
    assert_eq!(timer.remaining_ns(60_000_000_000, &clock(0)), 0);
    assert!(timer.expired && !timer.running);
    timer.toggle(60_000_000_001);
    assert!(!timer.running);
    assert_eq!(timer.remaining_ns(70_000_000_000, &clock(0)), 0);
    timer.reset();
    assert!(!timer.expired);
    assert_eq!(timer.remaining_ns(70_000_000_000, &clock(0)), 60_000_000_000);
    assert!(timer.readable_at(u64::MAX));
}

#[test]
fn a_timer_is_set_in_steps() {
    let mut timer = Timer::new();
    timer.adjust(true);
    assert_eq!(timer.target_ns, 70_000_000_000);
    timer.adjust(false);
    assert_eq!(timer.target_ns, 60_000_000_000);
    for _ in 0..20 {
        timer.adjust(false);
    }
    assert_eq!(timer.target_ns, 10_000_000_000);
    timer.toggle(0);
    timer.adjust(true);
    assert_eq!(timer.target_ns, 10_000_000_000);
}

#[test]
fn keys_select_and_start() {
    let mut ui = Ui::new(CLEAN);
    assert_eq!((ui.tab, ui.panel, ui.precision), (Tab::Stopwatch, Panel::Cpu, Precision::Nano));
    key(&mut ui, SCAN_C, 0);
    assert_eq!((ui.tab, ui.readout_fade.value, ui.cards_dirty), (Tab::Clock, 0, true));
    key(&mut ui, SCAN_3, 0);
    assert_eq!(ui.tab, Tab::Timer);
    key(&mut ui, SCAN_UP, 0);
    assert_eq!(ui.timer.target_ns, 70_000_000_000);
    key(&mut ui, SCAN_DOWN, 0);
    assert_eq!(ui.timer.target_ns, 60_000_000_000);
    key(&mut ui, SCAN_SPACE, 5);
    assert!(ui.timer.running);
    key(&mut ui, SCAN_Z, 6);
    assert!(!ui.timer.running);
    key(&mut ui, SCAN_2, 7);
    key(&mut ui, SCAN_SPACE, 10);
    key(&mut ui, SCAN_L, 15);
    assert_eq!(ui.stopwatch.laps, vec![5]);
    key(&mut ui, SCAN_SPACE, 30);
    assert_eq!(ui.stopwatch.accumulated.value, 20);
    key(&mut ui, SCAN_Z, 40);
    assert_eq!(ui.stopwatch.accumulated.value, 0);
    key(&mut ui, SCAN_N, 0);
    assert_eq!((ui.precision, ui.chrome_dirty), (Precision::Simple, true));
}

#[test]
fn keys_choose_a_panel() {
    let mut ui = Ui::new(CLEAN);
    key(&mut ui, SCAN_M, 0);
    assert_eq!(ui.panel, Panel::Memory);
    key(&mut ui, SCAN_TAB, 0);
    assert_eq!(ui.panel, Panel::Usb);
    key(&mut ui, SCAN_H, 0);
    assert_eq!(ui.panel, Panel::Hypervisor);
    key(&mut ui, SCAN_U, 0);
    ui.cards_dirty = false;
    // The input panel shows every byte, so a release redraws it.
    let event = Event::Key(Key { scancode: SCAN_M, pressed: false });
    assert_eq!(ui.handle(event, 0, &layout(), 1280, 800), Action::Stay);
    assert_eq!((ui.panel, ui.cards_dirty), (Panel::Usb, true));
}

#[test]
fn two_keys_end_it() {
    let mut ui = Ui::new(CLEAN);
    assert_eq!(key(&mut ui, SCAN_R, 0), Action::Restart);
    assert_eq!(key(&mut ui, SCAN_S, 0), Action::PowerOff);
    assert_eq!(key(&mut ui, SCAN_SPACE, 0), Action::Stay);
}

#[test]
fn the_pointer_is_held_to_the_screen() {
    let mut ui = Ui::new(CLEAN);
    ui.centre(1280, 800, 77);
    assert_eq!((ui.pointer_x, ui.pointer_y, ui.window_started), (640, 400, 77));
    let far = Motion { dx: 9_000, dy: -9_000, ..Motion::default() };
    assert_eq!(ui.handle(Event::Motion(far), 0, &layout(), 1280, 800), Action::Stay);
    assert_eq!((ui.pointer_x, ui.pointer_y), (1279, 0));
    assert_eq!((ui.cursor.x, ui.cursor.y), (1279, 0));
}

#[test]
fn clicks_land_where_things_are() {
    let (faces, ease, machine) = (faces(), jump(), machine());
    let scene = Scene::new(1280, 800, &faces, &ease, &machine, "1.0").unwrap();
    let mut ui = Ui::new(CLEAN);
    first_frame(&scene, 800, &mut ui);
    let middle = |b: Hitbox| ((b.x + b.w / 2) as i32, (b.y + b.h / 2) as i32);
    let (x, y) = middle(ui.tabs[2].box_);
    assert_eq!(click(&mut ui, x, y), Action::Stay);
    assert_eq!(ui.tab, Tab::Timer);
    let (x, y) = middle(ui.chips[3].box_);
    click(&mut ui, x, y);
    assert_eq!(ui.panel, Panel::Memory);
    let (x, y) = middle(layout().readout_box());
    click(&mut ui, x, y);
    assert!(ui.timer.running);
    let (x, y) = middle(ui.restart.box_);
    assert_eq!(click(&mut ui, x, y), Action::Restart);
    let (x, y) = middle(ui.shutdown.box_);
    assert_eq!(click(&mut ui, x, y), Action::PowerOff);
}

#[test]
fn the_tabs_and_chips_stay_apart() {
    let (faces, ease, machine) = (faces(), jump(), machine());
    let scene = Scene::new(1280, 800, &faces, &ease, &machine, "1.0").unwrap();
    let mut ui = Ui::new(CLEAN);
    let canvas = first_frame(&scene, 800, &mut ui);
    let mut right = 0;
    for control in ui.tabs.iter().chain(ui.chips.iter()) {
        assert!(control.box_.x >= right);
        right = control.box_.x + control.box_.w;
    }
    assert!(right <= 1280 - 32);
    assert!(ui.restart.box_.x + ui.restart.box_.w <= ui.shutdown.box_.x);
    let said = texts(&canvas);
    for text in ["NanoChrono", "CLOCK", "STOPWATCH", "TIMER", "detecting input devices"] {
        assert!(said.iter().any(|s| s == text), "{}", text);
    }
}

#[test]
fn a_scene_needs_room() {
    let (faces, ease, mut machine) = (faces(), jump(), machine());
    assert!(Scene::new(63, 800, &faces, &ease, &machine, "1.0").is_none());
    assert!(Scene::new(64, 800, &faces, &ease, &machine, "1.0").is_some());
    // With no height for cards there is nothing to be too narrow for.
    assert!(Scene::new(63, 200, &faces, &ease, &machine, "1.0").is_some());
    assert!(Scene::new(11, 200, &faces, &ease, &machine, "1.0").is_none());
    // Any amount of memory can be shown.
    machine.memory.total = u64::MAX;
    machine.footprint = u64::MAX;
    let scene = Scene::new(1280, 800, &faces, &ease, &machine, "1.0").unwrap();
    let rows = panel_rows(Panel::Memory, scene.machine, &clock(0), &keys(), 0);
    assert_eq!(value(&table(&rows), "installed"), "16777215 TB");
}

#[test]
fn the_cards_hold_the_longest_table() {
    let m = machine();
    let mut input = Input::init(1, true, PointerKind::Absent);
    input.attach_i2c(Ok(touchpad()));
    let rows = panel_rows(Panel::Usb, &m, &clock(0), &input, 0);
    assert_eq!(rows.rows.len(), 12);
    let rows = table(&rows);
    assert_eq!(value(&rows, "i2c-hid pad"), "0x15 on 21.1");
    assert_eq!(value(&rows, "  vendor:product"), "0x06CB:0x7E7E");
    assert_eq!(value(&rows, "  input"), "report 2 @ 0x0024");
    assert_eq!(value(&rows, "ps/2 pointer"), "none");
    let l = layout();
    let end = l.cards_y + 28 + 22 + 12 * (16 + 7);
    assert!(end <= l.cards_y + l.cards_h);
}

#[test]
fn tab_goes_round_the_panels() {
    let mut ui = Ui::new(CLEAN);
    let (panel, tab, precision) = (ui.panel, ui.tab, ui.precision);
    let place = (0..6).find(|i| Panel::at(*i) == panel).unwrap();
    for i in 1..=6 {
        assert_eq!(key(&mut ui, SCAN_TAB, 0), Action::Stay);
        assert_eq!(ui.panel, Panel::at((place + i) % 6));
        assert_eq!((ui.tab, ui.precision), (tab, precision));
        assert!(!ui.stopwatch.running && !ui.timer.running);
    }
    assert_eq!(ui.panel, panel);
}

#[test]
fn letting_go_does_nothing() {
    let mut ui = Ui::new(CLEAN);
    let (panel, tab, precision) = (ui.panel, ui.tab, ui.precision);
    for scancode in 0..=255u8 {
        let event = Event::Key(Key { scancode, pressed: false });
        assert_eq!(ui.handle(event, 0, &layout(), 1280, 800), Action::Stay);
    }
    assert_eq!((ui.panel, ui.tab, ui.precision), (panel, tab, precision));
    assert!(!ui.stopwatch.running && !ui.timer.running);
}

#[test]
fn only_what_reads_an_instrument_needs_it_readable() {
    let mut ui = Ui::new(CLEAN);
    let ready = |ui: &Ui, scancode| {
        let event = Event::Key(Key { scancode, pressed: true });
        ui.ready_for(event, 10, &layout(), 1280, 800)
    };
    ui.stopwatch.accumulated.value = u64::MAX;
    ui.stopwatch.running = true;
    ui.stopwatch.started_at = 0;
    assert!(!ui.readable_at(10));
    assert!(!ready(&ui, SCAN_SPACE) && !ready(&ui, SCAN_L));
    assert!(ready(&ui, SCAN_TAB) && ready(&ui, SCAN_Z) && ready(&ui, SCAN_2));
    let l = layout().readout_box();
    let at = |ui: &Ui, left| {
        Event::Motion(Motion {
            dx: (l.x + 1) as i32 - ui.pointer_x,
            dy: (l.y + 1) as i32 - ui.pointer_y,
            left,
            ..Motion::default()
        })
    };
    assert!(!ui.ready_for(at(&ui, true), 10, &layout(), 1280, 800));
    assert!(ui.ready_for(at(&ui, false), 10, &layout(), 1280, 800));
    key(&mut ui, SCAN_3, 10);
    assert!(ui.readable_at(10) && ready(&ui, SCAN_SPACE));
    assert!(ui.ready_for(at(&ui, true), 10, &layout(), 1280, 800));
}

#[test]
fn a_frame_draws_what_changed() {
    let (faces, ease, machine) = (faces(), jump(), machine());
    let scene = Scene::new(1280, 800, &faces, &ease, &machine, "1.0").unwrap();
    let mut ui = Ui::new(CLEAN);
    first_frame(&scene, 800, &mut ui);
    ui.stopwatch.toggle(0);
    ui.refresh_cards();
    let shown = frame(&scene, &mut ui, &clock(1_234_567_890), &keys(), 0);
    let said = texts(&shown.readout);
    assert_eq!(said[0], "00:00:01:234:567:890");
    assert_eq!(said[1], "running · SPACE stops · L records a lap");
    assert_eq!(texts(&shown.clock)[0], "12:34:56:000:000:000 RTC");
    assert!(shown.cards.is_some());
    assert!(texts(&shown.status).iter().any(|s| s == "9.0 MB / 8.0 GB"));
    // Nothing has changed by the next frame at the same instant.
    let again = frame(&scene, &mut ui, &clock(1_234_567_890), &keys(), 0);
    assert!(again.readout.ops.is_empty() && again.clock.ops.is_empty());
    assert!(again.tabs.is_none() && again.cards.is_none());
    assert!(again.status.ops.is_empty());
    assert_eq!(ui.stopwatch.ticks(2_000_000_000), 2_000_000_000);
}

#[test]
fn the_readout_says_what_the_instrument_is_doing() {
    let (faces, ease, machine) = (faces(), jump(), machine());
    let scene = Scene::new(1280, 800, &faces, &ease, &machine, "1.0").unwrap();
    let mut ui = Ui::new(CLEAN);
    let shown = frame(&scene, &mut ui, &clock(5), &keys(), 0);
    assert_eq!(texts(&shown.readout), ["00:00:00:000:000:000", "ready · SPACE starts"]);
    ui.select_tab(Tab::Timer);
    let shown = frame(&scene, &mut ui, &clock(5), &keys(), 0);
    assert_eq!(
        texts(&shown.readout),
        ["00:01:00:000:000:000", "counting down from 00:01:00:000 · UP and DOWN adjust"]
    );
    ui.timer.expired = true;
    ui.transition_readout();
    let shown = frame(&scene, &mut ui, &clock(5), &keys(), 0);
    assert_eq!(texts(&shown.readout)[1], "elapsed · Z resets");
    assert!(matches!(
        shown.readout.ops[1],
        Op::Glow { ink: Ink::Flat(Tone::Danger), halo: Tone::Shadow, spread: 2, .. }
    ));
    ui.select_tab(Tab::Clock);
    ui.toggle_precision();
    let shown = frame(&scene, &mut ui, &clock(5), &keys(), 0);
    assert_eq!(texts(&shown.readout), ["12:34:56:000", "wall clock · rtc + counter · pit"]);
}

#[test]
fn cards_report_the_machine() {
    let (m, c, input) = (machine(), clock(0), keys());
    let cpu = table(&panel_rows(Panel::Cpu, &m, &c, &input, 0));
    assert_eq!(value(&cpu, "backend"), "avx2");
    assert_eq!((value(&cpu, "AVX2"), value(&cpu, "AVX-512F")), ("yes", "no"));
    let pmu = table(&panel_rows(Panel::Pmu, &m, &c, &input, 0));
    assert_eq!((value(&pmu, "route"), value(&pmu, "cycles/op")), ("fixed", "4"));
    let counter = table(&panel_rows(Panel::Counter, &m, &c, &input, 0));
    assert_eq!((value(&counter, "jitter"), value(&counter, "rate from")), ("42", "pit"));
    let memory = table(&panel_rows(Panel::Memory, &m, &c, &input, 0));
    assert_eq!((value(&memory, "installed"), value(&memory, "map entries")), ("8.0 GB", "12"));
    let hypervisor = table(&panel_rows(Panel::Hypervisor, &m, &c, &input, 3));
    assert_eq!(value(&hypervisor, "signature"), "none");
    assert_eq!(value(&hypervisor, "hypercalls"), "3 (once, at boot)");
    let summary = table(&machine_rows(&m, c.hz));
    assert_eq!(value(&summary, "acpi root"), "legacy scan");
    assert_eq!(value(&summary, "root table"), "xsdt (64-bit)");
    assert_eq!((value(&summary, "acpi"), value(&summary, "compositing")), ("absent", "back buffer"));
}

#[test]
fn the_input_panel_shows_raw_bytes() {
    let (m, c) = (machine(), clock(0));
    let mut input = keys();
    let rows = table(&panel_rows(Panel::Usb, &m, &c, &input, 0));
    assert_eq!(value(&rows, "8042 bytes"), "none yet - press a key");
    assert_eq!(value(&rows, "i2c-hid pad"), "not probed");
    assert_eq!(value(&rows, "ps/2 pointer"), "ps/2 wheel (4-byte)");
    input.poll(0x01, 0xF0);
    input.poll(0x01, 0x1A);
    let rows = table(&panel_rows(Panel::Usb, &m, &c, &input, 0));
    assert_eq!(value(&rows, "8042 bytes"), "F0 1A ");
    assert_eq!(value(&rows, "  scancodes"), "set 2 (untransla");
}

#[test]
fn the_session_card_follows_the_mode() {
    let c = clock(2_000_000_000);
    let mut watch = Stopwatch::new(CLEAN);
    let mut timer = Timer::new();
    watch.toggle(0);
    watch.lap(1_500_000_000);
    let laps = table(&session_rows(Tab::Stopwatch, &watch, &timer, &c));
    assert!(laps.iter().any(|row| row.1 == "00:00:01:500"));
    timer.toggle(0);
    let rows = table(&session_rows(Tab::Timer, &watch, &timer, &c));
    assert_eq!(value(&rows, "set to"), "00:01:00:000");
    assert_eq!(value(&rows, "state"), "running");
    timer.remaining_ns(60_000_000_000, &c);
    let rows = table(&session_rows(Tab::Timer, &watch, &timer, &c));
    assert_eq!(value(&rows, "state"), "elapsed");
    assert!(!table(&session_rows(Tab::Clock, &watch, &timer, &c)).is_empty());
}

#[test]
fn labels_are_cut_between_characters() {
    let body = face(8, 16);
    assert_eq!(truncate_to_width(&body, b"counter", 56), b"counter");
    assert_eq!(truncate_to_width(&body, b"counter", 55), b"counte");
    assert_eq!(truncate_to_width(&body, b"counter", 7), b"");
    // Room for half of the last character is room for none of it.
    let dashed = "ab—".as_bytes();
    assert_eq!(truncate_to_width(&body, dashed, 33), b"ab");
    assert_eq!(truncate_to_width(&body, dashed, 40), dashed);
    assert_eq!(body.width_of("abc"), 24);
}

#[test]
fn things_fade_between_nothing_and_all() {
    assert_eq!(alpha(&Tween::with_rate(0, 1)), 0);
    assert_eq!(alpha(&Tween::with_rate(1000, 1)), 255);
    assert_eq!(alpha(&Tween::with_rate(500, 1)), 127);
    assert_eq!(alpha(&Tween::with_rate(5000, 1)), 255);
}

#[test]
fn controls_light_up() {
    let mut control = Control::new();
    assert_eq!(
        control.colour(),
        Ink::Mix { from: Tone::Panel, to: Tone::Hover, permille: 0 }
    );
    assert!(control.step(true, false, &jump()));
    assert_eq!(control.highlight.value, 420);
    assert_eq!(
        control.colour(),
        Ink::Mix { from: Tone::Panel, to: Tone::Hover, permille: 1000 }
    );
    assert!(!control.step(true, true, &hold()));
    assert!(!control.highlight.settled());
    assert!(control.step(true, true, &jump()));
    assert_eq!(
        control.colour(),
        Ink::Mix { from: Tone::Hover, to: Tone::Accent, permille: 1000 }
    );
    assert_eq!(
        control.label_colour(),
        Ink::Mix { from: Tone::Text, to: Tone::Background, permille: 1000 }
    );
    assert_eq!(clamp(5, 7, 9), 7);
}

#[test]
fn boxes_are_half_open() {
    let b = Hitbox { x: 10, y: 20, w: 5, h: 5 };
    assert!(b.contains(10, 20) && b.contains(14, 24));
    assert!(!b.contains(15, 20) && !b.contains(10, 25) && !b.contains(-1, -1));
    assert!(!Hitbox::default().contains(0, 0));
}

#[test]
fn frames_do_not_catch_up() {
    assert_eq!(pace(99, 100), None);
    assert_eq!(pace(u64::MAX - 1, u64::MAX), None);
    assert_eq!(pace(100, 100), Some(100 + FRAME_NS));
    assert_eq!(pace(5_000_000_000, 100), Some(5_000_000_000 + FRAME_NS));
}

#[test]
fn the_load_is_a_share_of_a_second() {
    let mut ui = Ui::new(CLEAN);
    ui.account(100, 500, 1_000, 7);
    assert_eq!((ui.busy_ticks, ui.load_permille, ui.window_started), (100, 0, 0));
    ui.account(150, 1_000, 1_000, 9);
    assert_eq!((ui.busy_ticks, ui.load_permille, ui.window_started), (0, 250, 9));
    assert_eq!(ui.window_ticks, 1_000);
    ui.account(9_000, 1_000, 1_000, 9);
    assert_eq!(ui.load_permille, 1_000);
}

#[test]
fn missing_input_opens_its_panel() {
    let mut ui = Ui::new(CLEAN);
    assert!(!ui.note_input(&keys()));
    let none = Input::init(1, true, PointerKind::Absent);
    assert!(ui.note_input(&none));
    assert_eq!(ui.panel, Panel::Usb);
    assert_eq!(ui.input_note, Some("no pointer answered on any bus"));
    assert_eq!(ui.input_note, Some(none.trouble()));
}

#[test]
fn cards_are_drawn_while_they_fade() {
    let mut ui = Ui::new(CLEAN);
    assert!(!ui.cards_due(&jump()));
    ui.transition_cards();
    assert!(ui.cards_due(&hold()));
    assert!(ui.cards_due(&jump()));
    assert!(!ui.cards_due(&jump()));
}

#[test]
fn a_shutdown_that_failed_says_so() {
    let canvas = power_off(&layout(), &faces());
    assert_eq!(texts(&canvas), ["shutdown: no method this platform answers"]);
    assert!(matches!(canvas.ops[0], Op::Fill { x: 0, y: 716, w: 1280, h: 20, .. }));
    assert!(matches!(status_frame(&layout()).ops[1], Op::Fill { y: 746, h: 1, .. }));
}

#[test]
fn the_glyphs_are_rings_with_a_mark() {
    let ink = Ink::Flat(Tone::Title);
    let restart = glyph_restart(100, 50, ink);
    assert!(matches!(restart.ops[0], Op::RestartRing { x: 100, y: 50, .. }));
    assert!(matches!(restart.ops[1], Op::Fill { x: 104, y: 39, w: 8, h: 2, .. }));
    let power = glyph_power(100, 50, ink);
    assert!(matches!(power.ops[0], Op::PowerRing { x: 100, y: 50, .. }));
    assert!(matches!(power.ops[1], Op::Fill { x: 99, y: 38, w: 2, h: 11, .. }));
    // Ten letters of title, two and three of version.
    let b = header_clock_box(&layout(), &faces(), "1.0");
    assert_eq!((b.x, b.y, b.w, b.h), (32 + 29 + 12 + 120 + 16 + 24 + 26, 14, 204, 16));
}
