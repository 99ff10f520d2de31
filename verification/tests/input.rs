//! The keyboard and the pointer, by every way they can arrive.

use nanochrono::i2c_hid::{
    Discovery, Failure, Gate, GateState, HidDescriptor, I2cHid, Kind, Movement, Report,
};
use nanochrono::input::{
    hid_to_scancode, keys_changed, setup, sign_extend, translate_set2, Event, HidKind, Input, Key,
    Motion, PointerKind, Polled, PortOp, Setup, UsbInput,
};

fn press(scancode: u8) -> Option<Event> {
    Some(Event::Key(Key { scancode, pressed: true }))
}

fn release(scancode: u8) -> Option<Event> {
    Some(Event::Key(Key { scancode, pressed: false }))
}

fn input(keyboard: bool, pointer: PointerKind) -> Input {
    Input::init(2_000, keyboard, pointer)
}

fn touchpad() -> I2cHid {
    let registers = HidDescriptor {
        report_descriptor_length: 200,
        report_descriptor_register: 0x21,
        input_register: 0x24,
        max_input_length: 40,
        command_register: 0x22,
        data_register: 0x23,
        vendor: 0x06CB,
        product: 0x7E7E,
    };
    I2cHid {
        address: 0x15,
        descriptor: registers,
        layout: Kind::Pointer,
        report: None,
        controller: (0, 0x15, 1),
        vendor: 0x06CB,
        product: 0x7E7E,
        interrupt_pin: None,
        discovery: Discovery::Scanned,
        evaluated: true,
        gate: Gate::Blind,
        polls: 0,
        failures: 16,
    }
}

#[test]
fn usages_and_scancodes_agree() {
    assert_eq!(hid_to_scancode(0x04), 0x1E);
    assert_eq!(hid_to_scancode(0x2C), 0x39);
    assert_eq!(hid_to_scancode(0x29), 0x01);
    assert_eq!(hid_to_scancode(0x03), 0);
    assert_eq!(hid_to_scancode(0x53), 0x45);
    assert_eq!(hid_to_scancode(0x54), 0);
    assert_eq!(translate_set2(0x29), 0x39);
    assert_eq!(translate_set2(0x1C), 0x1E);
    assert_eq!(translate_set2(0xE0), 0xE0);
}

#[test]
fn pointers_have_names_and_packets() {
    let kinds = [
        (PointerKind::Standard, "ps/2 (3-byte)", 3),
        (PointerKind::Wheel, "ps/2 wheel (4-byte)", 4),
        (PointerKind::FiveButton, "ps/2 5-button (4-byte)", 4),
        (PointerKind::Usb, "usb hid boot", 0),
        (PointerKind::I2cHid, "i2c-hid touchpad", 0),
        (PointerKind::Absent, "none", 0),
    ];
    for (kind, name, len) in kinds {
        assert_eq!((kind.name(), kind.packet_len()), (name, len));
    }
}

#[test]
fn nine_bits_carry_a_sign() {
    assert_eq!(sign_extend(0xFF, true), -1);
    assert_eq!(sign_extend(0xFF, false), 255);
    assert_eq!(sign_extend(0, true), -256);
}

#[test]
fn held_keys_become_events() {
    let none = [0u8; 8];
    let space = [0, 0, 0x2C, 0, 0, 0, 0, 0];
    let both = [0, 0, 0x2C, 0x04, 0, 0, 0, 0];
    assert_eq!(keys_changed(&none, &space), press(0x39));
    assert_eq!(keys_changed(&space, &both), press(0x1E));
    assert_eq!(keys_changed(&both, &space), release(0x1E));
    assert_eq!(keys_changed(&space, &space), None);
    // A press comes before a release.
    assert_eq!(keys_changed(&space, &[0, 0, 0x04, 0, 0, 0, 0, 0]), press(0x1E));
}

#[test]
fn the_first_set_marks_a_release_with_its_top_bit() {
    let mut keys = input(true, PointerKind::Absent);
    assert_eq!(keys.keystroke(0x39), press(0x39));
    assert_eq!(keys.keystroke(0xB9), release(0x39));
    assert_eq!(keys.scancode_set(), 1);
}

#[test]
fn a_break_prefix_settles_the_set() {
    let mut keys = input(true, PointerKind::Absent);
    assert_eq!(keys.keystroke(0xF0), None);
    assert_eq!(keys.scancode_set(), 2);
    assert_eq!(keys.keystroke(0x29), release(0x39));
    assert_eq!(keys.keystroke(0x29), press(0x39));
}

#[test]
fn three_bytes_make_a_movement() {
    let mut mouse = input(true, PointerKind::Standard);
    // Waiting for a first byte that can be one.
    assert_eq!(mouse.accumulate(0x00), None);
    assert_eq!(mouse.accumulate(0x29), None);
    assert_eq!(mouse.accumulate(5), None);
    assert_eq!(
        mouse.accumulate(0xFE),
        Some(Event::Motion(Motion { dx: 5, dy: 2, left: true, ..Motion::default() }))
    );
    assert!(mouse.packet.is_empty());
}

#[test]
fn a_fourth_byte_is_the_wheel() {
    let mut mouse = input(true, PointerKind::Wheel);
    for byte in [0x0E, 0, 3] {
        assert_eq!(mouse.accumulate(byte), None);
    }
    let expected =
        Motion { dy: -3, wheel: -1, right: true, middle: true, ..Motion::default() };
    assert_eq!(mouse.accumulate(0x0F), Some(Event::Motion(expected)));
    // More movement than a packet can carry says nothing.
    for byte in [0x48, 1, 1, 0] {
        assert_eq!(mouse.accumulate(byte), None);
    }
    let mut usb = input(true, PointerKind::Usb);
    assert_eq!(usb.accumulate(0x08), None);
    assert!(usb.packet.is_empty());
}

#[test]
fn one_bit_tells_the_mouse_from_the_keyboard() {
    let mut both = input(true, PointerKind::Standard);
    assert_eq!(both.poll(0x00, 0x39), Polled::Empty);
    assert_eq!(both.poll(0x01, 0x39), Polled::Byte(press(0x39)));
    assert_eq!(both.poll(0x21, 0x08), Polled::Byte(None));
    assert_eq!(both.recent_bytes(), [0x39, 0x08]);
    for byte in 1..=9 {
        both.poll(0x01, byte);
    }
    assert_eq!(both.recent_bytes(), [2, 3, 4, 5, 6, 7, 8, 9]);
}

#[test]
fn usb_devices_take_turns() {
    let mut usb = UsbInput::new();
    assert!(usb.wants_port(0));
    assert!(!usb.wants_port(32));
    usb.offer(0, HidKind::Other);
    usb.offer(1, HidKind::Pointer);
    usb.offer(2, HidKind::Pointer);
    assert!(usb.wants_port(3));
    usb.offer(3, HidKind::Keyboard);
    assert!(!usb.wants_port(4));
    assert_eq!(usb.poll(), (HidKind::Keyboard, Some(3)));
    assert_eq!(usb.poll(), (HidKind::Pointer, Some(1)));
    assert_eq!(usb.poll(), (HidKind::Keyboard, Some(3)));
    assert!(UsbInput::new().bring_up().is_none());
    assert!(usb.bring_up().is_some());
}

#[test]
fn usb_reports_are_decoded() {
    let mut usb = UsbInput::new();
    assert_eq!(usb.poll_keyboard([0, 0, 0x04, 0, 0, 0, 0, 0]), press(0x1E));
    assert_eq!(usb.poll_keyboard([0, 0, 0x04, 0, 0, 0, 0, 0]), None);
    assert_eq!(usb.poll_keyboard([0; 8]), release(0x1E));
    assert_eq!(
        usb.poll_pointer([0x05, 0xFF, 0x02, 0x80, 0, 0, 0, 0]),
        Event::Motion(Motion {
            dx: -1,
            dy: 2,
            wheel: -128,
            left: true,
            right: false,
            middle: true
        })
    );
}

#[test]
fn what_is_missing_is_looked_for_elsewhere() {
    let full = input(true, PointerKind::Wheel);
    assert!(!full.wants_usb());
    assert_eq!(full.source(), "ps/2");
    assert_eq!(full.trouble(), "");

    let mut half = input(true, PointerKind::Absent);
    assert!(half.wants_usb() && half.wants_i2c());
    assert_eq!(half.source(), "keyboard only (no pointer found)");
    assert_eq!(half.trouble(), "no pointer answered on any bus");
    let mut usb = UsbInput::new();
    usb.offer(0, HidKind::Pointer);
    half.attach_usb(true, Some(usb));
    assert_eq!(half.pointer_kind(), PointerKind::Usb);
    assert_eq!(half.source(), "ps/2 keyboard + usb pointer");
    assert!(!half.wants_i2c());

    let mut none = input(false, PointerKind::Absent);
    assert_eq!(none.source(), "no input device");
    let mut usb = UsbInput::new();
    usb.offer(0, HidKind::Keyboard);
    usb.offer(1, HidKind::Pointer);
    none.attach_usb(true, Some(usb));
    assert!(none.has_keyboard() && none.has_pointer());
    assert_eq!(none.source(), "usb hid");
    let found = none.found();
    assert!(!found.ps2_keyboard && found.usb_keyboard && found.usb_pointer);
    assert_eq!(found.ps2_pointer, None);

    assert_eq!(
        input(false, PointerKind::Standard).source(),
        "pointer only (no keyboard found)"
    );
}

#[test]
fn a_touchpad_is_the_last_resort() {
    let mut pad = input(true, PointerKind::Absent);
    pad.attach_i2c(Ok(touchpad()));
    assert_eq!(pad.source(), "ps/2 keyboard + i2c-hid touchpad");
    let found = pad.found();
    // It is on no port of the 8042.
    assert_eq!(found.ps2_pointer, None);
    assert!(found.i2c_abandoned);
    let seen = found.i2c.unwrap();
    assert_eq!((seen.slave_address, seen.controller), (0x15, (0, 0x15, 1)));
    assert_eq!((seen.input_register, seen.report_id), (0x24, None));
    assert!(matches!(seen.gate, GateState::Blind));
    assert_eq!(seen.discovery, Discovery::Scanned);

    assert!(found.i2c_failure.is_none());

    let mut bare = input(false, PointerKind::Absent);
    bare.attach_i2c(Ok(touchpad()));
    assert_eq!(bare.source(), "i2c-hid touchpad");

    let mut mixed = input(false, PointerKind::Absent);
    let mut usb = UsbInput::new();
    usb.offer(4, HidKind::Keyboard);
    mixed.attach_usb(true, Some(usb));
    mixed.attach_i2c(Ok(touchpad()));
    assert_eq!(mixed.source(), "usb keyboard + i2c-hid touchpad");
}

#[test]
fn what_the_8042_supplies_is_not_read_twice() {
    let both = || {
        let mut usb = UsbInput::new();
        usb.offer(0, HidKind::Keyboard);
        usb.offer(1, HidKind::Pointer);
        Some(usb)
    };
    let mut half = input(true, PointerKind::Absent);
    half.attach_usb(true, both());
    let usb = half.usb.as_mut().unwrap();
    assert_eq!(usb.poll(), (HidKind::Keyboard, None));
    assert_eq!(usb.poll(), (HidKind::Pointer, Some(1)));
    // It is enumerated all the same.
    assert!(half.found().usb_keyboard);
    let mut other = input(false, PointerKind::Wheel);
    other.attach_usb(true, both());
    assert_eq!(other.pointer_kind(), PointerKind::Wheel);
    let usb = other.usb.as_mut().unwrap();
    assert_eq!(usb.poll(), (HidKind::Keyboard, Some(0)));
    assert_eq!(usb.poll(), (HidKind::Pointer, None));
    assert_eq!(other.found().ps2_pointer, Some(PointerKind::Wheel));
}

#[test]
fn a_controller_with_nothing_on_it_is_still_up() {
    let mut bare = input(true, PointerKind::Absent);
    assert!(!bare.found().usb_controller);
    bare.attach_usb(true, None);
    assert!(bare.found().usb_controller && !bare.found().usb_keyboard);
    bare.attach_usb(false, None);
    assert!(!bare.found().usb_controller);
}

#[test]
fn trouble_names_the_link_that_broke() {
    let said = [
        (
            Failure::NoDevice,
            "no pointer: nothing on PS/2 or USB, and no I2C-HID device in this firmware",
        ),
        (Failure::NoDsdt, "no pointer: the DSDT could not be read"),
        (
            Failure::NoControllerDevice,
            "no pointer: no ACPI table declares the controller named in _CRS",
        ),
        (
            Failure::NoControllerAddress,
            "no pointer: the I2C controller declares no _ADR, so its PCI slot is unknown",
        ),
        (
            Failure::NoControllerPci,
            "no pointer: no LPSS I2C controller at the slot _ADR names",
        ),
        (Failure::ControllerFailed, "no pointer: the I2C controller did not leave reset"),
        (
            Failure::NoHidDescriptor,
            "no pointer: the touchpad did not answer at its descriptor register",
        ),
        (Failure::ResetFailed, "no pointer: the touchpad would not reset"),
        (
            Failure::ReportDescriptorFailed,
            "no pointer: the touchpad's report descriptor could not be read",
        ),
        (
            Failure::DescriptorTooLarge,
            "no pointer: the touchpad's report descriptor could not be read",
        ),
        (
            Failure::NoPointerReport,
            "no pointer: the touchpad reports contacts only, not a cursor",
        ),
    ];
    for (failure, text) in said {
        let mut pad = input(true, PointerKind::Absent);
        pad.attach_i2c(Err(failure));
        assert_eq!(pad.trouble(), text);
        assert_eq!(pad.found().i2c_failure, Some(failure));
    }
    assert_eq!(
        input(false, PointerKind::Absent).trouble(),
        "no keyboard and no pointer answered. Keys are read from the 8042 regardless, so they may still work"
    );
    assert_eq!(
        input(false, PointerKind::Usb).trouble(),
        "no keyboard answered its probes. Keys are read from the 8042 regardless, so they may still work"
    );
}

#[test]
fn the_touchpad_is_read_at_its_own_rate() {
    let mut pad = input(true, PointerKind::Absent);
    // Two thousand ticks a microsecond, two hundred and fifty times a second.
    assert_eq!(pad.i2c_interval, 8_000_000);
    assert!(pad.i2c_due(100));
    assert!(!pad.i2c_due(8_000_099));
    assert!(pad.i2c_due(8_000_100));
    assert_eq!(pad.i2c_next, 16_000_100);
}

#[test]
fn a_settled_finger_says_nothing() {
    let mut pad = input(true, PointerKind::Absent);
    let still = Movement { dx: 0, dy: 0, wheel: 0, left: false, right: false, middle: false };
    assert_eq!(pad.poll_i2c(Report::Motion(still)), None);
    let moved = Movement { dx: -4, dy: 7, ..still };
    assert_eq!(
        pad.poll_i2c(Report::Motion(moved)),
        Some(Event::Motion(Motion { dx: -4, dy: 7, ..Motion::default() }))
    );
    assert_eq!(pad.poll_i2c(Report::Keys([0, 0, 0x2C, 0, 0, 0, 0, 0])), press(0x39));
    assert_eq!(pad.poll_i2c(Report::Keys([0; 8])), release(0x39));
}

/// Runs a setup to its end against a controller that answers in this order,
/// and not at all after that.
fn settle(replies: &[u8], force_usb: bool) -> (bool, PointerKind, Vec<PortOp>) {
    let mut all = Vec::new();
    let mut state = Setup::Start;
    let mut reply = None;
    let mut taken = 0;
    loop {
        if let Setup::Done { keyboard, pointer } = state {
            return (keyboard, pointer, all);
        }
        let (next, ops) = setup(state, force_usb, reply);
        reply = None;
        if ops.last() == Some(&PortOp::Read) {
            reply = replies.get(taken).copied();
            taken += 1;
        }
        all.extend(ops);
        state = next;
    }
}

#[test]
fn a_whole_controller_comes_up() {
    let mut replies = vec![0x13, 0x55, 0xFA, 0x00, 0xFA, 0xAA, 0x00];
    replies.extend([0xFA; 7]);
    replies.push(3);
    replies.extend([0xFA; 7]);
    replies.push(4);
    let (keyboard, pointer, ops) = settle(&replies, false);
    assert_eq!((keyboard, pointer), (true, PointerKind::FiveButton));
    assert_eq!(ops[0], PortOp::Command(0xAD));
    assert_eq!(ops[5], PortOp::Command(0x60));
    // Interrupts and disables off, translation on.
    assert_eq!(ops[6], PortOp::Data(0x40));
    assert_eq!(ops[9], PortOp::Command(0x60));
    assert_eq!(ops[10], PortOp::Data(0x40));
}

#[test]
fn the_system_flag_is_carried_through() {
    for (read, written) in [(0x00, 0x40), (0x04, 0x44), (0x47, 0x44), (0xFB, 0xC8), (0xFF, 0xCC)] {
        let (_, _, ops) = settle(&[read, 0x55], false);
        assert_eq!(ops[5..7], [PortOp::Command(0x60), PortOp::Data(written)]);
        assert_eq!(ops[9..11], [PortOp::Command(0x60), PortOp::Data(written)]);
    }
}

#[test]
fn a_plain_mouse_and_a_wheel_are_told_apart() {
    let mut replies = vec![0x13, 0x55, 0xFA, 0x00, 0xFA, 0xAA, 0x00];
    replies.extend([0xFA; 7]);
    replies.push(0);
    assert_eq!(settle(&replies, false).1, PointerKind::Standard);
    replies.pop();
    replies.push(3);
    assert_eq!(settle(&replies, false).1, PointerKind::Wheel);
}

#[test]
fn a_silent_controller_is_left_alone() {
    let (keyboard, pointer, ops) = settle(&[], false);
    assert_eq!((keyboard, pointer), (false, PointerKind::Absent));
    // A command byte that could not be read is not written.
    assert!(!ops.contains(&PortOp::Command(0x60)));
    // The keyboard is reset twice and no more.
    assert_eq!(ops.iter().filter(|op| **op == PortOp::Data(0xFF)).count(), 2);
}

#[test]
fn a_keyboard_that_needs_a_reset_gets_one() {
    // No answer to enabling, then a reset that takes.
    let (keyboard, pointer, _) =
        settle(&[0x13, 0x55, 0x00, 0xFA, 0xAA, 0xFA, 0x01], false);
    assert_eq!((keyboard, pointer), (true, PointerKind::Absent));
}

#[test]
fn forcing_usb_leaves_both_ports_alone() {
    let (keyboard, pointer, ops) = settle(&[0x13, 0x55], true);
    assert_eq!((keyboard, pointer), (false, PointerKind::Absent));
    assert!(!ops.contains(&PortOp::Data(0xF4)));
    assert!(!ops.contains(&PortOp::Command(0xD4)));
}
