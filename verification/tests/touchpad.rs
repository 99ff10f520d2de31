//! The touchpad: its descriptor, its readiness gate, and finding it.

use nanochrono::i2c_hid::{
    ahead, candidates, controller_address, find_device_nth, is_controller_at, open_gate,
    power_command, power_on, wait_us, Ask, ControllerEntry, Declared, Discovery, Fact, Failure,
    Gate, GateState, Heard, HidDescriptor, I2cHid, Kind, Located, Mapping, Movement, Observation,
    PciFunction, Place, PowerOn, Probe, Question, Round, Search,
};

fn descriptor_bytes() -> [u8; 30] {
    let mut bytes = [0u8; 30];
    let words: [(usize, u16); 10] = [
        (0, 30),
        (2, 0x0100),
        (4, 200),
        (6, 0x21),
        (8, 0x24),
        (10, 40),
        (14, 0x22),
        (16, 0x23),
        (20, 0x06CB),
        (22, 0x7E7E),
    ];
    for (at, value) in words {
        bytes[at] = value.to_le_bytes()[0];
        bytes[at + 1] = value.to_le_bytes()[1];
    }
    bytes
}

fn descriptor() -> HidDescriptor {
    HidDescriptor::parse(&descriptor_bytes()).unwrap()
}

fn located() -> Located {
    Located {
        address: 0x15,
        register: 0x20,
        descriptor: descriptor(),
        discovery: Discovery::Firmware,
    }
}

fn declared() -> Declared {
    Declared {
        slave_address: 0x15,
        descriptor_register: Some(0x20),
        connection_speed: 400_000,
        interrupt: Some(23),
        evaluated: false,
    }
}

fn device(gate: Gate) -> I2cHid {
    I2cHid {
        address: 0x15,
        descriptor: descriptor(),
        layout: Kind::Pointer,
        report: Some(1),
        controller: (0, 0x15, 1),
        vendor: 0x06CB,
        product: 0x7E7E,
        interrupt_pin: Some(23),
        discovery: Discovery::Firmware,
        evaluated: false,
        gate,
        polls: 0,
        failures: 0,
    }
}

fn gated() -> Gate {
    Gate::Gated {
        pad: 9,
        asserted: false,
        mapping: Mapping::Tabled("part"),
        skipped: 0,
        strikes: 0,
    }
}

#[test]
fn the_descriptor_names_the_registers() {
    let parsed = descriptor();
    assert_eq!(parsed.report_descriptor_length, 200);
    assert_eq!(parsed.report_descriptor_register, 0x21);
    assert_eq!(parsed.input_register, 0x24);
    assert_eq!(parsed.max_input_length, 40);
    assert_eq!(parsed.command_register, 0x22);
    assert_eq!(parsed.data_register, 0x23);
    assert_eq!((parsed.vendor, parsed.product), (0x06CB, 0x7E7E));
}

#[test]
fn anything_else_is_not_a_descriptor() {
    for (at, value) in [(0, 31), (2, 1), (3, 2), (6, 0), (8, 0), (14, 0)] {
        let mut bytes = descriptor_bytes();
        bytes[at] = value;
        assert!(HidDescriptor::parse(&bytes).is_none());
    }
}

#[test]
fn an_idle_report_is_still() {
    let mut movement =
        Movement { dx: 0, dy: 0, wheel: 0, left: false, right: false, middle: false };
    assert!(movement.still());
    movement.wheel = -1;
    assert!(!movement.still());
    assert_eq!(Kind::Pointer.name(), "touchpad");
    assert_eq!(Kind::Keyboard.name(), "keyboard");
}

#[test]
fn failures_say_which_link_broke() {
    let named = [
        (Failure::NoDsdt, "no dsdt"),
        (Failure::NoDevice, "no pnp0c50 device"),
        (Failure::NoControllerDevice, "controller device in no acpi table"),
        (Failure::NoControllerAddress, "controller has no _ADR"),
        (Failure::NoControllerPci, "no pci device at the controller's _ADR"),
        (Failure::ControllerFailed, "controller reset failed"),
        (Failure::NoHidDescriptor, "no hid descriptor"),
        (Failure::ResetFailed, "reset failed"),
        (Failure::DescriptorTooLarge, "report descriptor too large"),
        (Failure::ReportDescriptorFailed, "report descriptor unreadable"),
        (Failure::NoPointerReport, "no relative pointer report"),
    ];
    for (failure, name) in named {
        assert_eq!(failure.name(), name);
    }
}

#[test]
fn a_blind_device_is_read_every_time() {
    let mut pad = device(Gate::Blind);
    for poll in 1..=64u32 {
        assert_eq!(pad.poll(true), Ask::Read { want: 40, audit: poll == 64, sample: false });
    }
}

#[test]
fn a_quiet_pin_skips_the_bus_but_not_for_ever() {
    let mut pad = device(gated());
    for _ in 0..63 {
        assert_eq!(pad.poll(true), Ask::Nothing);
    }
    assert!(matches!(
        pad.gate_state(),
        GateState::Gated { mapping: Mapping::Tabled("part"), skipped: 63 }
    ));
    assert_eq!(pad.poll(true), Ask::Read { want: 40, audit: true, sample: false });
    assert_eq!(pad.poll(false), Ask::Read { want: 40, audit: false, sample: false });
}

#[test]
fn three_unannounced_reports_drop_the_pin() {
    let mut pad = device(gated());
    pad.judge(None, true, true, true);
    pad.judge(None, true, true, true);
    pad.judge(None, true, true, false);
    pad.judge(None, true, true, true);
    pad.judge(None, true, true, true);
    pad.judge(None, false, true, true);
    assert!(matches!(pad.gate, Gate::Gated { strikes: 2, .. }));
    pad.judge(None, true, true, true);
    assert!(matches!(pad.gate_state(), GateState::Blind));
    pad.judge(None, true, true, true);
    assert!(matches!(pad.gate, Gate::Blind));
}

#[test]
fn a_report_the_pin_announced_is_no_strike() {
    let mut pad = device(gated());
    for _ in 0..3 {
        for _ in 0..63 {
            assert_eq!(pad.poll(true), Ask::Nothing);
        }
        assert_eq!(pad.poll(false), Ask::Read { want: 40, audit: true, sample: false });
        pad.judge(None, true, false, true);
    }
    assert!(matches!(pad.gate, Gate::Gated { strikes: 0, skipped: 189, .. }));
    // One that it did announce comes between the others.
    pad.judge(None, true, true, true);
    pad.judge(None, true, true, true);
    pad.judge(None, true, false, true);
    pad.judge(None, true, true, true);
    assert!(matches!(pad.gate, Gate::Gated { strikes: 1, .. }));
}

#[test]
fn a_correlation_closes_the_search_for_a_pin() {
    let mut pad = device(Gate::Learning { watching: 12, reports: 0, quiet: 0 });
    assert_eq!(pad.poll(true), Ask::Read { want: 40, audit: false, sample: true });
    pad.judge(
        Some(Observation { settled: None, watching: 7, reports: 3, quiet: 4 }),
        false,
        true,
        true,
    );
    assert!(matches!(
        pad.gate_state(),
        GateState::Learning { watching: 7, reports: 3, quiet: 4 }
    ));
    pad.judge(
        Some(Observation { settled: Some((31, true)), watching: 1, reports: 9, quiet: 9 }),
        false,
        true,
        true,
    );
    assert!(matches!(
        pad.gate,
        Gate::Gated { pad: 31, asserted: true, mapping: Mapping::Calibrated, .. }
    ));
}

#[test]
fn a_reply_holds_a_report_or_nothing() {
    let mut pad = device(Gate::Blind);
    let mut reply = [0u8; 40];
    assert_eq!(pad.receive(40, Some(&reply[..])), None);
    reply[0] = 6;
    assert_eq!(pad.receive(40, Some(&reply[..])), Some(6));
    reply[0] = 40;
    assert_eq!(pad.receive(40, Some(&reply[..])), Some(40));
    reply[0] = 41;
    assert_eq!(pad.receive(40, Some(&reply[..])), None);
    reply[0] = 2;
    assert_eq!(pad.receive(40, Some(&reply[..])), None);
}

#[test]
fn a_device_that_stops_answering_is_given_up_on() {
    let mut pad = device(Gate::Blind);
    for _ in 0..15 {
        assert_eq!(pad.receive(40, None), None);
    }
    assert!(!pad.abandoned());
    pad.receive(40, None);
    assert!(pad.abandoned());
    assert_eq!(pad.poll(true), Ask::Nothing);
    let mut mute = device(Gate::Blind);
    mute.descriptor.max_input_length = 2;
    assert_eq!(mute.poll(true), Ask::Nothing);
    let mut long = device(Gate::Blind);
    long.descriptor.max_input_length = 500;
    assert_eq!(long.poll(true), Ask::Read { want: 64, audit: false, sample: false });
}

#[test]
fn a_device_describes_itself() {
    let pad = device(Gate::Blind);
    assert_eq!(pad.kind(), Kind::Pointer);
    assert_eq!(pad.slave_address(), 0x15);
    assert_eq!(pad.report_id(), Some(1));
    assert_eq!(pad.input_register(), 0x24);
}

#[test]
fn a_gate_opens_on_what_is_known_of_the_pin() {
    assert!(matches!(open_gate(None, true, Some((3, true)), None, 4), Gate::Blind));
    assert!(matches!(open_gate(Some(23), false, Some((3, true)), None, 4), Gate::Blind));
    assert!(matches!(
        open_gate(Some(23), true, Some((3, true)), Some("part"), 4),
        Gate::Gated { pad: 3, asserted: false, mapping: Mapping::Tabled("part"), .. }
    ));
    assert!(matches!(
        open_gate(Some(23), true, Some((3, true)), None, 4),
        Gate::Gated { mapping: Mapping::Tabled("tabled"), .. }
    ));
    assert!(matches!(
        open_gate(Some(23), true, Some((3, false)), None, 4),
        Gate::Learning { watching: 4, reports: 0, quiet: 0 }
    ));
    assert!(matches!(open_gate(Some(23), true, None, None, 0), Gate::Blind));
}

#[test]
fn devices_are_counted_across_the_tables() {
    let counts = [Some(0), None, Some(2), Some(1)];
    assert_eq!(find_device_nth(true, 1, &counts, 0), Some(Place::Dsdt { index: 0 }));
    assert_eq!(
        find_device_nth(false, 1, &counts, 1),
        Some(Place::Ssdt { table: 2, index: 0 })
    );
    assert_eq!(
        find_device_nth(false, 1, &counts, 2),
        Some(Place::Ssdt { table: 2, index: 1 })
    );
    assert_eq!(
        find_device_nth(false, 1, &counts, 3),
        Some(Place::Ssdt { table: 3, index: 0 })
    );
    assert_eq!(find_device_nth(false, 1, &counts, 4), None);
}

#[test]
fn a_controller_without_an_address_is_told_from_one_nowhere() {
    let nowhere = [None, Some(ControllerEntry { named: false, address: None })];
    let here = ControllerEntry { named: true, address: Some(7) };
    assert_eq!(controller_address(AT_HOME, Some(here), &nowhere), Ok(7));
    assert_eq!(controller_address(AT_HOME, None, &nowhere), Err(Failure::NoControllerDevice));
    let named = [Some(ControllerEntry { named: true, address: None }), None];
    assert_eq!(controller_address(AT_HOME, None, &named), Err(Failure::NoControllerAddress));
    let addressed = [
        Some(ControllerEntry { named: true, address: None }),
        Some(ControllerEntry { named: true, address: Some(0x0015_0001) }),
    ];
    assert_eq!(controller_address(AT_HOME, None, &addressed), Ok(0x0015_0001));
    // Declared in the first table, which does not say where it is.
    let mute = Some(ControllerEntry { named: true, address: None });
    assert_eq!(controller_address(AT_HOME, mute, &nowhere), Err(Failure::NoControllerAddress));
    assert_eq!(controller_address(AT_HOME, mute, &[]), Err(Failure::NoControllerAddress));
    assert_eq!(controller_address(AT_HOME, mute, &addressed), Ok(0x0015_0001));
    let absent = Some(ControllerEntry { named: false, address: None });
    assert_eq!(controller_address(AT_HOME, absent, &nowhere), Err(Failure::NoControllerDevice));
}

/// A device in the DSDT.
const AT_HOME: Place = Place::Dsdt { index: 0 };

#[test]
fn the_table_a_device_stands_in_is_looked_in_first() {
    let dsdt = Some(ControllerEntry { named: true, address: Some(1) });
    let tables = [
        Some(ControllerEntry { named: true, address: Some(2) }),
        Some(ControllerEntry { named: true, address: Some(3) }),
        Some(ControllerEntry { named: true, address: None }),
    ];
    assert_eq!(controller_address(AT_HOME, dsdt, &tables), Ok(1));
    let second = Place::Ssdt { table: 1, index: 0 };
    assert_eq!(controller_address(second, dsdt, &tables), Ok(3));
    // Its own table does not say; the DSDT is next, then the rest in order.
    let third = Place::Ssdt { table: 2, index: 0 };
    assert_eq!(controller_address(third, dsdt, &tables), Ok(1));
    assert_eq!(controller_address(third, None, &tables), Ok(2));
    assert_eq!(
        controller_address(third, None, &[None, None, tables[2]]),
        Err(Failure::NoControllerAddress)
    );
    assert_eq!(
        controller_address(third, None, &[None, None, None]),
        Err(Failure::NoControllerDevice)
    );
}

#[test]
fn an_address_names_a_slot_and_a_function() {
    let found = PciFunction { bus: 0, slot: 0x15, function: 1, class: 0x0C, subclass: 0x80 };
    assert!(is_controller_at(&found, 0x0015_0001));
    assert!(!is_controller_at(&found, 0x0015_0002));
    assert!(!is_controller_at(&found, 0x0019_0001));
    let other = PciFunction { class: 0x02, ..found };
    assert!(!is_controller_at(&other, 0x0015_0001));
}

#[test]
fn registers_are_tried_once_each() {
    assert_eq!(candidates(Some(0x20), (0x01, 0x20)), vec![0x20, 0x01]);
    assert_eq!(candidates(Some(0x30), (0x01, 0x20)), vec![0x30, 0x01, 0x20]);
    assert_eq!(candidates(None, (0x01, 0x20)), vec![0x01, 0x20]);
    assert_eq!(candidates(None, (0x01, 0x01)), vec![0x01]);
}

#[test]
fn the_firmware_is_believed_first() {
    let mut search = Search::new(0x15, Some(0x20), (0x01, 0x20));
    assert_eq!(search.ask(), Question::Descriptor { address: 0x15, register: 0x20 });
    let found = search.answer(Some(&descriptor_bytes()), false).unwrap();
    assert_eq!(found.discovery, Discovery::Firmware);
    assert_eq!((found.address, found.register), (0x15, 0x20));
    assert_eq!(search.round, Round::Over);
    assert_eq!(search.ask(), Question::Nothing);
}

#[test]
fn a_wrong_register_is_probed_for() {
    let mut search = Search::new(0x15, Some(0x30), (0x01, 0x20));
    assert_eq!(search.answer(Some(&[0; 30]), false), None);
    assert_eq!(search.ask(), Question::Descriptor { address: 0x15, register: 0x01 });
    let found = search.answer(Some(&descriptor_bytes()), false).unwrap();
    assert_eq!(found.discovery, Discovery::ProbedRegister);
}

#[test]
fn a_scan_only_pokes_what_answers() {
    let mut search = Search::new(0x09, None, (0x01, 0x20));
    search.answer(None, false);
    search.answer(None, false);
    assert_eq!(search.ask(), Question::Presence { address: 0x08 });
    search.answer(None, false);
    // The declared address has been tried.
    assert_eq!(search.ask(), Question::Presence { address: 0x0A });
    search.answer(None, true);
    assert_eq!(search.ask(), Question::Descriptor { address: 0x0A, register: 0x01 });
    search.answer(None, false);
    let found = search.answer(Some(&descriptor_bytes()), false).unwrap();
    assert_eq!((found.address, found.register), (0x0A, 0x20));
    assert_eq!(found.discovery, Discovery::Scanned);
}

#[test]
fn an_empty_bus_is_searched_once() {
    let mut search = Search::new(0x15, None, (0x01, 0x20));
    let mut asked = 0;
    while search.ask() != Question::Nothing {
        assert_eq!(search.answer(None, false), None);
        asked += 1;
    }
    // Two registers at the declared address, then every other address.
    assert_eq!(asked, 2 + 111);
}

#[test]
fn a_power_on_waits_and_forgives() {
    let state = power_on(PowerOn::SetPower, Heard::Acknowledged(true), 1_000, 10);
    assert_eq!(state, PowerOn::Settle { deadline: 11_000 });
    assert_eq!(power_on(state, Heard::Tick, 10_999, 10), state);
    let state = power_on(state, Heard::Tick, 11_000, 10);
    assert_eq!(state, PowerOn::Reset);
    let state = power_on(state, Heard::Acknowledged(true), 11_000, 10);
    assert_eq!(state, PowerOn::Await { deadline: 2_511_000 });
    assert_eq!(power_on(state, Heard::Length(9), 12_000, 10), state);
    assert_eq!(power_on(state, Heard::Length(0), 12_000, 10), PowerOn::Up);
    assert_eq!(power_on(state, Heard::Tick, 2_511_000, 10), PowerOn::Up);
    assert_eq!(
        power_on(PowerOn::SetPower, Heard::Acknowledged(false), 0, 10),
        PowerOn::Failed
    );
    assert_eq!(power_on(PowerOn::Reset, Heard::Acknowledged(false), 0, 10), PowerOn::Failed);
}

#[test]
fn deadlines_work_across_a_rollover() {
    let deadline = wait_us(u64::MAX - 10, 1, 100);
    assert_eq!(deadline, 89);
    assert!(ahead(deadline, u64::MAX - 10));
    assert!(ahead(deadline, 88));
    assert!(!ahead(deadline, 89));
    assert_eq!(wait_us(5, 0, 100), 105);
}

#[test]
fn commands_are_four_bytes() {
    let mut registers = descriptor();
    registers.command_register = 0x0122;
    assert_eq!(power_command(PowerOn::SetPower, &registers), Some([0x22, 0x01, 0, 8]));
    assert_eq!(power_command(PowerOn::Reset, &registers), Some([0x22, 0x01, 0, 1]));
    assert_eq!(power_command(PowerOn::Up, &registers), None);
}

#[test]
fn a_probe_goes_link_by_link() {
    let facts = [
        Fact::Tables(true),
        Fact::Device(Some(declared())),
        Fact::Controller(Ok(0x0015_0001)),
        Fact::Pci(Some((0, 0x15, 1))),
        Fact::Master(true),
        Fact::Found(Some(located())),
        Fact::Powered(true),
        Fact::Fetched(true),
        Fact::Layout { pointer: Some(Some(1)), keyboard: Some(None) },
        Fact::Gate(Gate::Blind),
    ];
    let broken = [
        (Fact::Tables(false), Failure::NoDsdt),
        (Fact::Device(None), Failure::NoDevice),
        (Fact::Controller(Err(Failure::NoControllerAddress)), Failure::NoControllerAddress),
        (Fact::Pci(None), Failure::NoControllerPci),
        (Fact::Master(false), Failure::ControllerFailed),
        (Fact::Found(None), Failure::NoHidDescriptor),
        (Fact::Powered(false), Failure::ResetFailed),
        (Fact::Fetched(false), Failure::ReportDescriptorFailed),
        (Fact::Layout { pointer: None, keyboard: None }, Failure::NoPointerReport),
    ];
    let mut state = I2cHid::probe();
    for (i, fact) in facts.iter().enumerate() {
        if i < broken.len() {
            match I2cHid::probe_nth(state, broken[i].0) {
                Probe::Failed(why) => assert_eq!(why, broken[i].1),
                other => panic!("{:?}", other),
            }
        }
        // A fact about another link changes nothing.
        if i > 0 {
            let same = I2cHid::probe_nth(state, Fact::Tables(false));
            assert_eq!(format!("{:?}", same), format!("{:?}", state));
        }
        state = I2cHid::probe_nth(state, *fact);
    }
    match state {
        Probe::Ready(pad) => {
            assert_eq!(pad.kind(), Kind::Pointer);
            assert_eq!(pad.report_id(), Some(1));
            assert_eq!(pad.controller, (0, 0x15, 1));
            assert_eq!(pad.interrupt_pin, Some(23));
            assert_eq!((pad.polls, pad.failures), (0, 0));
        }
        other => panic!("{:?}", other),
    }
}

#[test]
fn a_report_descriptor_has_to_fit() {
    for (length, readable) in [(0, false), (1, true), (2048, true), (2049, false)] {
        let mut place = located();
        place.descriptor.report_descriptor_length = length;
        let state =
            Probe::Power { device: declared(), controller: (0, 0x15, 1), located: place };
        match I2cHid::probe_nth(state, Fact::Powered(true)) {
            Probe::Fetch { .. } => assert!(readable),
            Probe::Failed(why) => {
                assert!(!readable);
                assert_eq!(why, Failure::DescriptorTooLarge);
            }
            other => panic!("{:?}", other),
        }
    }
}

#[test]
fn a_keyboard_is_taken_where_there_is_no_pointer() {
    let state =
        Probe::Layout { device: declared(), controller: (0, 0x15, 1), located: located() };
    match I2cHid::probe_nth(state, Fact::Layout { pointer: None, keyboard: Some(Some(2)) }) {
        Probe::Gate { layout, report, .. } => {
            assert_eq!((layout, report), (Kind::Keyboard, Some(2)));
        }
        other => panic!("{:?}", other),
    }
}
