//! Keyboard, mouse and touchpad.
//!
//! Three stacks. Under every hypervisor the emulated keyboard and mouse are
//! 8042 devices, so that is the native path there; on real hardware it is
//! usually mixed, and a notebook's touchpad may be on I2C and on neither of
//! the others. So USB is brought up whenever either device is missing, and
//! I2C-HID is tried when the other two produce no pointer.
//!
//! The ports and the buses are driven by the caller. What stands here is the
//! order they are driven in, and what the bytes they deliver mean.

use crate::i2c_hid::{is_ahead, Discovery, Failure, GateState, I2cHid, Report, GIVE_UP_AFTER};
use crate::i2c_hid;
use vstd::prelude::*;

verus! {

// ---------------------------------------------------------------------------
// Scan codes
// ---------------------------------------------------------------------------

/// Set 2's break prefix. A byte of this on the keyboard port means the *next*
/// byte is a release, and that this controller is not translating.
pub const SET2_BREAK: u8 = 0xF0;

/// Set 2 scan code to set 1, indexed by the set 2 code: the table the 8042
/// itself applies when translation is enabled.
pub const SET2_TO_SET1: [u8; 132] = [
    0xFF, 0x43, 0x41, 0x3F, 0x3D, 0x3B, 0x3C, 0x58, 0x64, 0x44, 0x42, 0x40, 0x3E, 0x0F, 0x29, 0x59,
    0x65, 0x38, 0x2A, 0x70, 0x1D, 0x10, 0x02, 0x5A, 0x66, 0x71, 0x2C, 0x1F, 0x1E, 0x11, 0x03, 0x5B,
    0x67, 0x2E, 0x2D, 0x20, 0x12, 0x05, 0x04, 0x5C, 0x68, 0x39, 0x2F, 0x21, 0x14, 0x13, 0x06, 0x5D,
    0x69, 0x31, 0x30, 0x23, 0x22, 0x15, 0x07, 0x5E, 0x6A, 0x72, 0x32, 0x24, 0x16, 0x08, 0x09, 0x5F,
    0x6B, 0x33, 0x25, 0x17, 0x18, 0x0B, 0x0A, 0x60, 0x6C, 0x34, 0x35, 0x26, 0x27, 0x19, 0x0C, 0x61,
    0x6D, 0x73, 0x28, 0x74, 0x1A, 0x0D, 0x62, 0x6E, 0x3A, 0x36, 0x1C, 0x1B, 0x75, 0x2B, 0x63, 0x76,
    0x55, 0x56, 0x77, 0x78, 0x79, 0x7A, 0x0E, 0x7B, 0x7C, 0x4F, 0x7D, 0x4B, 0x47, 0x7E, 0x7F, 0x6F,
    0x52, 0x53, 0x50, 0x4C, 0x4D, 0x48, 0x01, 0x45, 0x57, 0x4E, 0x51, 0x4A, 0x37, 0x49, 0x46, 0x54,
    0x80, 0x81, 0x82, 0x41,
];

/// HID usage ID to set 1 scancode, indexed from usage `0x04`, the first key
/// usage: the printable keys, the navigation keys and the function row.
pub const HID_TO_SET1: [u8; 80] = [
    // 0x04..0x1D: a to z
    0x1E, 0x30, 0x2E, 0x20, 0x12, 0x21, 0x22, 0x23, 0x17, 0x24, 0x25, 0x26, 0x32, 0x31, 0x18, 0x19,
    0x10, 0x13, 0x1F, 0x14, 0x16, 0x2F, 0x11, 0x2D, 0x15, 0x2C,
    // 0x1E..0x27: 1 to 9, 0
    0x02, 0x03, 0x04, 0x05, 0x06, 0x07, 0x08, 0x09, 0x0A, 0x0B,
    // 0x28..0x2C: enter escape backspace tab space
    0x1C, 0x01, 0x0E, 0x0F, 0x39,
    // 0x2D..0x38: punctuation
    0x0C, 0x0D, 0x1A, 0x1B, 0x2B, 0x2B, 0x27, 0x28, 0x29, 0x33, 0x34, 0x35,
    // 0x39: caps lock
    0x3A,
    // 0x3A..0x45: F1 to F12
    0x3B, 0x3C, 0x3D, 0x3E, 0x3F, 0x40, 0x41, 0x42, 0x43, 0x44, 0x57, 0x58,
    // 0x46..0x4E: print scroll pause insert home pageup delete end pagedown
    0x00, 0x46, 0x00, 0x52, 0x47, 0x49, 0x53, 0x4F, 0x51,
    // 0x4F..0x52: right left down up
    0x4D, 0x4B, 0x50, 0x48,
    // 0x53: num lock
    0x45,
];

/// The first HID usage the table covers.
pub const HID_FIRST_USAGE: u8 = 0x04;

/// The set 1 scancode of a HID usage; zero, which no key uses, for one this
/// interface has no name for.
pub open spec fn scancode_of_usage(usage: u8) -> u8 {
    if HID_FIRST_USAGE <= usage < HID_FIRST_USAGE + 80 {
        HID_TO_SET1@[usage - HID_FIRST_USAGE]
    } else {
        0
    }
}

/// Translates a HID usage ID to a set 1 scancode.
pub fn hid_to_scancode(usage: u8) -> (r: u8)
    ensures
        r == scancode_of_usage(usage),
{
    if usage >= HID_FIRST_USAGE && usage < HID_FIRST_USAGE + 80 {
        HID_TO_SET1[(usage - HID_FIRST_USAGE) as usize]
    } else {
        0
    }
}

/// The set 1 scancode of a set 2 code; a code outside the table is left
/// alone.
pub open spec fn set1_of_set2(code: u8) -> u8 {
    if code < 132 {
        SET2_TO_SET1@[code as int]
    } else {
        code
    }
}

/// Maps a set 2 code to set 1.
pub fn translate_set2(code: u8) -> (r: u8)
    ensures
        r == set1_of_set2(code),
{
    if code < 132 {
        SET2_TO_SET1[code as usize]
    } else {
        code
    }
}

/// Set 1 numbers the keys in the order they stand in, so the letters of a row
/// follow one another; the digits and the function keys do too. A usage that is
/// no key of these has no scancode.
pub proof fn scancodes_follow_the_rows(usage: u8)
    ensures
        scancode_of_usage(0x14) == 0x10,  // q
        scancode_of_usage(0x1A) == 0x11,  // w
        scancode_of_usage(0x08) == 0x12,  // e
        scancode_of_usage(0x15) == 0x13,  // r
        scancode_of_usage(0x17) == 0x14,  // t
        scancode_of_usage(0x1C) == 0x15,  // y
        scancode_of_usage(0x18) == 0x16,  // u
        scancode_of_usage(0x0C) == 0x17,  // i
        scancode_of_usage(0x12) == 0x18,  // o
        scancode_of_usage(0x13) == 0x19,  // p
        scancode_of_usage(0x04) == 0x1E,  // a
        scancode_of_usage(0x16) == 0x1F,  // s
        scancode_of_usage(0x07) == 0x20,  // d
        scancode_of_usage(0x09) == 0x21,  // f
        scancode_of_usage(0x0A) == 0x22,  // g
        scancode_of_usage(0x0B) == 0x23,  // h
        scancode_of_usage(0x0D) == 0x24,  // j
        scancode_of_usage(0x0E) == 0x25,  // k
        scancode_of_usage(0x0F) == 0x26,  // l
        scancode_of_usage(0x1D) == 0x2C,  // z
        scancode_of_usage(0x1B) == 0x2D,  // x
        scancode_of_usage(0x06) == 0x2E,  // c
        scancode_of_usage(0x19) == 0x2F,  // v
        scancode_of_usage(0x05) == 0x30,  // b
        scancode_of_usage(0x11) == 0x31,  // n
        scancode_of_usage(0x10) == 0x32,  // m
        0x1E <= usage <= 0x27 ==> scancode_of_usage(usage) == usage - 0x1C,
        0x3A <= usage <= 0x43 ==> scancode_of_usage(usage) == usage + 1,
        scancode_of_usage(0x28) == 0x1C,  // enter
        scancode_of_usage(0x29) == 0x01,  // escape
        scancode_of_usage(0x2A) == 0x0E,  // backspace
        scancode_of_usage(0x2B) == 0x0F,  // tab
        scancode_of_usage(0x2C) == 0x39,  // space
        scancode_of_usage(0x51) == 0x50,  // down
        scancode_of_usage(0x52) == 0x48,  // up
        usage < 0x04 || usage > 0x53 ==> scancode_of_usage(usage) == 0,
{
}

/// A key has one scancode, whichever set it arrives in: a keyboard that sends
/// set 2 and one that sends usages name the same key. A code of set 2 past its
/// table is left as it is.
pub proof fn a_key_has_one_scancode(code: u8)
    ensures
        set1_of_set2(0x15) == scancode_of_usage(0x14),  // q
        set1_of_set2(0x1D) == scancode_of_usage(0x1A),  // w
        set1_of_set2(0x24) == scancode_of_usage(0x08),  // e
        set1_of_set2(0x2D) == scancode_of_usage(0x15),  // r
        set1_of_set2(0x2C) == scancode_of_usage(0x17),  // t
        set1_of_set2(0x35) == scancode_of_usage(0x1C),  // y
        set1_of_set2(0x3C) == scancode_of_usage(0x18),  // u
        set1_of_set2(0x43) == scancode_of_usage(0x0C),  // i
        set1_of_set2(0x44) == scancode_of_usage(0x12),  // o
        set1_of_set2(0x4D) == scancode_of_usage(0x13),  // p
        set1_of_set2(0x1C) == scancode_of_usage(0x04),  // a
        set1_of_set2(0x1B) == scancode_of_usage(0x16),  // s
        set1_of_set2(0x23) == scancode_of_usage(0x07),  // d
        set1_of_set2(0x2B) == scancode_of_usage(0x09),  // f
        set1_of_set2(0x34) == scancode_of_usage(0x0A),  // g
        set1_of_set2(0x33) == scancode_of_usage(0x0B),  // h
        set1_of_set2(0x3B) == scancode_of_usage(0x0D),  // j
        set1_of_set2(0x42) == scancode_of_usage(0x0E),  // k
        set1_of_set2(0x4B) == scancode_of_usage(0x0F),  // l
        set1_of_set2(0x1A) == scancode_of_usage(0x1D),  // z
        set1_of_set2(0x22) == scancode_of_usage(0x1B),  // x
        set1_of_set2(0x21) == scancode_of_usage(0x06),  // c
        set1_of_set2(0x2A) == scancode_of_usage(0x19),  // v
        set1_of_set2(0x32) == scancode_of_usage(0x05),  // b
        set1_of_set2(0x31) == scancode_of_usage(0x11),  // n
        set1_of_set2(0x3A) == scancode_of_usage(0x10),  // m
        set1_of_set2(0x16) == scancode_of_usage(0x1E),  // 1
        set1_of_set2(0x1E) == scancode_of_usage(0x1F),  // 2
        set1_of_set2(0x26) == scancode_of_usage(0x20),  // 3
        set1_of_set2(0x25) == scancode_of_usage(0x21),  // 4
        set1_of_set2(0x2E) == scancode_of_usage(0x22),  // 5
        set1_of_set2(0x36) == scancode_of_usage(0x23),  // 6
        set1_of_set2(0x3D) == scancode_of_usage(0x24),  // 7
        set1_of_set2(0x3E) == scancode_of_usage(0x25),  // 8
        set1_of_set2(0x46) == scancode_of_usage(0x26),  // 9
        set1_of_set2(0x45) == scancode_of_usage(0x27),  // 0
        set1_of_set2(0x05) == scancode_of_usage(0x3A),  // f1
        set1_of_set2(0x06) == scancode_of_usage(0x3B),  // f2
        set1_of_set2(0x04) == scancode_of_usage(0x3C),  // f3
        set1_of_set2(0x0C) == scancode_of_usage(0x3D),  // f4
        set1_of_set2(0x03) == scancode_of_usage(0x3E),  // f5
        set1_of_set2(0x0B) == scancode_of_usage(0x3F),  // f6
        set1_of_set2(0x0A) == scancode_of_usage(0x41),  // f8
        set1_of_set2(0x01) == scancode_of_usage(0x42),  // f9
        set1_of_set2(0x09) == scancode_of_usage(0x43),  // f10
        set1_of_set2(0x78) == scancode_of_usage(0x44),  // f11
        set1_of_set2(0x07) == scancode_of_usage(0x45),  // f12
        set1_of_set2(0x5A) == scancode_of_usage(0x28),  // enter
        set1_of_set2(0x76) == scancode_of_usage(0x29),  // escape
        set1_of_set2(0x66) == scancode_of_usage(0x2A),  // backspace
        set1_of_set2(0x0D) == scancode_of_usage(0x2B),  // tab
        set1_of_set2(0x29) == scancode_of_usage(0x2C),  // space
        set1_of_set2(0x4E) == scancode_of_usage(0x2D),  // -
        set1_of_set2(0x55) == scancode_of_usage(0x2E),  // =
        set1_of_set2(0x54) == scancode_of_usage(0x2F),  // [
        set1_of_set2(0x5B) == scancode_of_usage(0x30),  // ]
        set1_of_set2(0x5D) == scancode_of_usage(0x31),  // backslash
        set1_of_set2(0x4C) == scancode_of_usage(0x33),  // ;
        set1_of_set2(0x52) == scancode_of_usage(0x34),  // '
        set1_of_set2(0x0E) == scancode_of_usage(0x35),  // `
        set1_of_set2(0x41) == scancode_of_usage(0x36),  // ,
        set1_of_set2(0x49) == scancode_of_usage(0x37),  // .
        set1_of_set2(0x4A) == scancode_of_usage(0x38),  // /
        set1_of_set2(0x58) == scancode_of_usage(0x39),  // caps lock
        set1_of_set2(0x7E) == scancode_of_usage(0x47),  // scroll lock
        set1_of_set2(0x70) == scancode_of_usage(0x49),  // insert
        set1_of_set2(0x6C) == scancode_of_usage(0x4A),  // home
        set1_of_set2(0x7D) == scancode_of_usage(0x4B),  // page up
        set1_of_set2(0x71) == scancode_of_usage(0x4C),  // delete
        set1_of_set2(0x69) == scancode_of_usage(0x4D),  // end
        set1_of_set2(0x7A) == scancode_of_usage(0x4E),  // page down
        set1_of_set2(0x74) == scancode_of_usage(0x4F),  // right
        set1_of_set2(0x6B) == scancode_of_usage(0x50),  // left
        set1_of_set2(0x72) == scancode_of_usage(0x51),  // down
        set1_of_set2(0x75) == scancode_of_usage(0x52),  // up
        set1_of_set2(0x77) == scancode_of_usage(0x53),  // num lock
        set1_of_set2(0x83) == scancode_of_usage(0x40),  // f7
        code > 0x83 ==> set1_of_set2(code) == code,
{
}

// ---------------------------------------------------------------------------
// What arrives
// ---------------------------------------------------------------------------

/// What the pointer turned out to be.
#[derive(Debug, Clone, Copy, PartialEq, Eq, Structural)]
pub enum PointerKind {
    /// Three-byte packets: two buttons plus movement.
    Standard,
    /// Four-byte packets with a scroll wheel. Device ID 3.
    Wheel,
    /// Four-byte packets with five buttons. Device ID 4.
    FiveButton,
    /// A USB HID boot-protocol mouse.
    Usb,
    /// A touchpad on the chipset's I2C bus.
    I2cHid,
    /// Nothing answered.
    Absent,
}

impl PointerKind {
    pub open spec fn label(self) -> Seq<char> {
        match self {
            PointerKind::Standard => "ps/2 (3-byte)"@,
            PointerKind::Wheel => "ps/2 wheel (4-byte)"@,
            PointerKind::FiveButton => "ps/2 5-button (4-byte)"@,
            PointerKind::Usb => "usb hid boot"@,
            PointerKind::I2cHid => "i2c-hid touchpad"@,
            PointerKind::Absent => "none"@,
        }
    }

    pub fn name(self) -> (r: &'static str)
        ensures
            r@ == self.label(),
    {
        match self {
            PointerKind::Standard => "ps/2 (3-byte)",
            PointerKind::Wheel => "ps/2 wheel (4-byte)",
            PointerKind::FiveButton => "ps/2 5-button (4-byte)",
            PointerKind::Usb => "usb hid boot",
            PointerKind::I2cHid => "i2c-hid touchpad",
            PointerKind::Absent => "none",
        }
    }

    /// How many bytes a packet has; none where the device is not on the 8042.
    pub open spec fn packet_size(self) -> nat {
        match self {
            PointerKind::Standard => 3,
            PointerKind::Wheel | PointerKind::FiveButton => 4,
            PointerKind::Usb | PointerKind::I2cHid | PointerKind::Absent => 0,
        }
    }

    pub fn packet_len(self) -> (r: usize)
        ensures
            r == self.packet_size(),
    {
        match self {
            PointerKind::Standard => 3,
            PointerKind::Wheel | PointerKind::FiveButton => 4,
            PointerKind::Usb | PointerKind::I2cHid | PointerKind::Absent => 0,
        }
    }
}

/// One pointer movement, already decoded.
#[derive(Debug, Clone, Copy, PartialEq, Eq, Structural)]
pub struct Motion {
    pub dx: i32,
    pub dy: i32,
    pub wheel: i32,
    pub left: bool,
    pub right: bool,
    pub middle: bool,
}

impl Default for Motion {
    fn default() -> (r: Motion)
        ensures
            r == (Motion { dx: 0, dy: 0, wheel: 0, left: false, right: false, middle: false }),
    {
        Motion { dx: 0, dy: 0, wheel: 0, left: false, right: false, middle: false }
    }
}

/// A key press or release, as a set 1 scancode.
#[derive(Debug, Clone, Copy, PartialEq, Eq, Structural)]
pub struct Key {
    pub scancode: u8,
    pub pressed: bool,
}

/// What arrived.
#[derive(Debug, Clone, Copy, PartialEq, Eq, Structural)]
pub enum Event {
    Key(Key),
    Motion(Motion),
}

/// A nine-bit two's complement number: eight bits in the byte, the sign
/// beside it.
pub open spec fn nine_bit(value: u8, negative: bool) -> int {
    if negative {
        value - 256
    } else {
        value as int
    }
}

pub fn sign_extend(value: u8, negative: bool) -> (r: i32)
    ensures
        r == nine_bit(value, negative),
{
    if negative {
        value as i32 - 256
    } else {
        value as i32
    }
}

/// An eight-bit two's complement number.
pub open spec fn eight_bit(value: u8) -> int {
    if value < 128 {
        value as int
    } else {
        value - 256
    }
}

fn signed_byte(value: u8) -> (r: i32)
    ensures
        r == eight_bit(value),
{
    if value < 128 {
        value as i32
    } else {
        value as i32 - 256
    }
}

/// A four-bit two's complement number, in the low half of a byte.
pub open spec fn four_bit(value: u8) -> int {
    let z = value & 0x0F;
    if z & 0x08 != 0 {
        z - 16
    } else {
        z as int
    }
}

/// The movement a whole 8042 packet says, unless it overflowed: then the
/// value is meaningless and the packet is dropped.
///
/// The protocol's Y axis points up and a framebuffer's points down, so it is
/// negated once here rather than at every use.
pub open spec fn packet_motion(kind: PointerKind, packet: Seq<u8>) -> Option<Event> {
    let flags = packet[0];
    if flags & 0xC0 != 0 {
        None
    } else {
        Some(
            Event::Motion(
                Motion {
                    dx: nine_bit(packet[1], flags & 0x10 != 0) as i32,
                    dy: -nine_bit(packet[2], flags & 0x20 != 0) as i32,
                    wheel: if kind.packet_size() == 4 {
                        four_bit(packet[3]) as i32
                    } else {
                        0
                    },
                    left: flags & 0x01 != 0,
                    right: flags & 0x02 != 0,
                    middle: flags & 0x04 != 0,
                },
            ),
        )
    }
}

/// The movement a boot-protocol pointer report says: buttons, then signed X,
/// Y and wheel as single bytes.
pub open spec fn boot_motion(report: Seq<u8>) -> Event {
    Event::Motion(
        Motion {
            dx: eight_bit(report[1]) as i32,
            dy: eight_bit(report[2]) as i32,
            wheel: eight_bit(report[3]) as i32,
            left: report[0] & 0x01 != 0,
            right: report[0] & 0x02 != 0,
            middle: report[0] & 0x04 != 0,
        },
    )
}

// ---------------------------------------------------------------------------
// Held keys
// ---------------------------------------------------------------------------

/// Whether a key is held in a boot-protocol report: among its last six bytes.
pub open spec fn is_held(report: Seq<u8>, code: u8) -> bool {
    exists|i: int| 2 <= i < 8 && #[trigger] report[i] == code
}

/// The first key from an offset on that `report` holds and `other` does not.
pub open spec fn first_new(report: Seq<u8>, other: Seq<u8>, i: int) -> Option<u8>
    decreases 8 - i,
{
    if i >= 8 {
        None
    } else if report[i] != 0 && !is_held(other, report[i]) {
        Some(report[i])
    } else {
        first_new(report, other, i + 1)
    }
}

/// The event between two reports: the first key newly held, pressed; where
/// there is none, the first key no longer held, released.
pub open spec fn key_change(previous: Seq<u8>, current: Seq<u8>) -> Option<Event> {
    match first_new(current, previous, 2) {
        Some(code) => Some(
            Event::Key(Key { scancode: scancode_of_usage(code), pressed: true }),
        ),
        None => match first_new(previous, current, 2) {
            Some(code) => Some(
                Event::Key(Key { scancode: scancode_of_usage(code), pressed: false }),
            ),
            None => None,
        },
    }
}

/// Whether a key is held in a report.
fn held(report: &[u8; 8], code: u8) -> (r: bool)
    ensures
        r == is_held(report@, code),
{
    let mut i: usize = 2;
    while i < 8
        invariant
            2 <= i <= 8,
            forall|j: int| 2 <= j < i ==> report@[j] != code,
        decreases 8 - i,
    {
        if report[i] == code {
            assert(report@[i as int] == code);
            return true;
        }
        i += 1;
    }
    false
}

/// The first key that `report` holds and `other` does not.
fn newly_held(report: &[u8; 8], other: &[u8; 8]) -> (r: Option<u8>)
    ensures
        r == first_new(report@, other@, 2),
{
    let mut i: usize = 2;
    while i < 8
        invariant
            2 <= i <= 8,
            first_new(report@, other@, 2) == first_new(report@, other@, i as int),
        decreases 8 - i,
    {
        let code: u8 = report[i];
        if code != 0 && !held(other, code) {
            return Some(code);
        }
        i += 1;
    }
    None
}

/// Turns a change between two boot-protocol reports into one event.
///
/// Both keyboards that are not on the 8042 deliver *state*, the keys
/// currently held, where the interface wants events; the difference between
/// two reports is where the events are.
pub fn keys_changed(previous: &[u8; 8], current: &[u8; 8]) -> (r: Option<Event>)
    ensures
        r == key_change(previous@, current@),
{
    if let Some(code) = newly_held(current, previous) {
        return Some(Event::Key(Key { scancode: hid_to_scancode(code), pressed: true }));
    }
    if let Some(code) = newly_held(previous, current) {
        return Some(Event::Key(Key { scancode: hid_to_scancode(code), pressed: false }));
    }
    None
}

/// A report that repeats what was held says nothing.
pub proof fn nothing_changed_is_no_event(report: Seq<u8>)
    ensures
        key_change(report, report) is None,
{
    nothing_is_new(report, 2);
}

proof fn nothing_is_new(report: Seq<u8>, i: int)
    requires
        2 <= i <= 8,
    ensures
        first_new(report, report, i) is None,
    decreases 8 - i,
{
    if i < 8 {
        assert(is_held(report, report[i]));
        nothing_is_new(report, i + 1);
    }
}

/// A press is of a key that is held now and was not before, and a release the
/// other way round.
pub proof fn a_change_is_a_change(previous: Seq<u8>, current: Seq<u8>)
    ensures
        key_change(previous, current) matches Some(Event::Key(key)) ==> exists|code: u8|
            code != 0 && key.scancode == scancode_of_usage(code) && (if key.pressed {
                is_held(current, code) && !is_held(previous, code)
            } else {
                is_held(previous, code) && !is_held(current, code)
            }),
        !(key_change(previous, current) matches Some(Event::Motion(_))),
{
    new_is_held(current, previous, 2);
    new_is_held(previous, current, 2);
}

proof fn new_is_held(report: Seq<u8>, other: Seq<u8>, i: int)
    requires
        2 <= i <= 8,
    ensures
        first_new(report, other, i) matches Some(code) ==> code != 0 && is_held(report, code)
            && !is_held(other, code),
    decreases 8 - i,
{
    if i < 8 {
        assert(is_held(report, report[i]));
        new_is_held(report, other, i + 1);
    }
}

/// A key that is held now and was not before is told of as pressed, the first
/// of them in the report; a key that has gone is told of as released where none
/// is newly held; and where neither happened there is nothing to tell.
pub proof fn every_change_is_told(previous: Seq<u8>, current: Seq<u8>, k: int)
    requires
        2 <= k < 8,
    ensures
        comes_first(current, previous, k) ==> key_change(previous, current) == Some(
            Event::Key(Key { scancode: scancode_of_usage(current[k]), pressed: true }),
        ),
        comes_first(previous, current, k) && (forall|j: int|
            2 <= j < 8 ==> !is_alone(current, previous, j)) ==> key_change(previous, current)
            == Some(Event::Key(Key { scancode: scancode_of_usage(previous[k]), pressed: false })),
        (forall|j: int|
            2 <= j < 8 ==> !is_alone(current, previous, j) && !is_alone(previous, current, j))
            ==> key_change(previous, current) is None,
{
    if comes_first(current, previous, k) {
        the_first_is_found(current, previous, 2, k);
    }
    if forall|j: int| 2 <= j < 8 ==> !is_alone(current, previous, j) {
        none_is_found(current, previous, 2);
        if comes_first(previous, current, k) {
            the_first_is_found(previous, current, 2, k);
        }
    }
    if forall|j: int| 2 <= j < 8 ==> !is_alone(previous, current, j) {
        none_is_found(previous, current, 2);
    }
}

/// A place of a report holds a key that another report has in no place.
pub open spec fn is_alone(report: Seq<u8>, other: Seq<u8>, k: int) -> bool {
    report[k] != 0 && forall|j: int| 2 <= j < 8 ==> #[trigger] other[j] != report[k]
}

/// It is the first such place.
pub open spec fn comes_first(report: Seq<u8>, other: Seq<u8>, k: int) -> bool {
    is_alone(report, other, k) && forall|j: int| 2 <= j < k ==> !#[trigger] is_alone(report, other, j)
}

proof fn the_first_is_found(report: Seq<u8>, other: Seq<u8>, i: int, k: int)
    requires
        2 <= i <= k < 8,
        comes_first(report, other, k),
    ensures
        first_new(report, other, i) == Some(report[k]),
    decreases k - i,
{
    if i < k {
        assert(!is_alone(report, other, i));
        the_first_is_found(report, other, i + 1, k);
    }
}

proof fn none_is_found(report: Seq<u8>, other: Seq<u8>, i: int)
    requires
        2 <= i <= 8,
        forall|j: int| 2 <= j < 8 ==> !#[trigger] is_alone(report, other, j),
    ensures
        first_new(report, other, i) is None,
    decreases 8 - i,
{
    if i < 8 {
        assert(!is_alone(report, other, i));
        none_is_found(report, other, i + 1);
    }
}

// ---------------------------------------------------------------------------
// The USB devices
// ---------------------------------------------------------------------------

/// What an enumerated USB device is.
#[derive(Debug, Clone, Copy, PartialEq, Eq, Structural)]
pub enum HidKind {
    Keyboard,
    Pointer,
    /// Anything that is not a boot-protocol keyboard or mouse.
    Other,
}

/// How many root ports are tried.
pub const MAX_PORTS: usize = 32;

/// The HID devices enumerated on an xHCI controller.
pub struct UsbInput {
    /// Which device index is the keyboard, and which the pointer. Separate
    /// because a notebook has both and they are different devices.
    pub keyboard: Option<usize>,
    pub pointer: Option<usize>,
    /// Previous keyboard report, to turn a held-key state into press and
    /// release events.
    pub previous: [u8; 8],
    /// Whether the pointer is to be serviced next, so a device that reports
    /// constantly cannot starve the other.
    pub pointer_next: bool,
    /// Whether each is read. One whose role the 8042 already supplies is
    /// enumerated and not read: a keypress that firmware translates would be
    /// delivered twice.
    pub reads_keyboard: bool,
    pub reads_pointer: bool,
}

impl UsbInput {
    /// Before any port has been tried.
    pub fn new() -> (r: UsbInput)
        ensures
            r.keyboard is None,
            r.pointer is None,
            r.previous@ == Seq::new(8, |i: int| 0u8),
            !r.pointer_next,
            r.reads_keyboard && r.reads_pointer,
    {
        let previous: [u8; 8] = [0u8; 8];
        assert(previous@ =~= Seq::new(8, |i: int| 0u8));
        UsbInput {
            keyboard: None,
            pointer: None,
            previous,
            pointer_next: false,
            reads_keyboard: true,
            reads_pointer: true,
        }
    }

    /// Whether another port is worth trying: a kind is still missing, and
    /// fewer ports than the limit have been tried.
    pub open spec fn goes_on(self, tried: int) -> bool {
        tried < MAX_PORTS && (self.keyboard is None || self.pointer is None)
    }

    pub fn wants_port(&self, tried: usize) -> (r: bool)
        ensures
            r == self.goes_on(tried as int),
    {
        tried < MAX_PORTS && (self.keyboard.is_none() || self.pointer.is_none())
    }

    /// The stack once a device has been offered to it.
    pub open spec fn offered(self, index: usize, kind: HidKind) -> UsbInput {
        UsbInput {
            keyboard: if kind == HidKind::Keyboard && self.keyboard is None {
                Some(index)
            } else {
                self.keyboard
            },
            pointer: if kind == HidKind::Pointer && self.pointer is None {
                Some(index)
            } else {
                self.pointer
            },
            ..self
        }
    }

    /// Takes a device that enumerated: the first keyboard and the first
    /// pointer are kept, and anything else is addressed and left alone.
    pub fn offer(&mut self, index: usize, kind: HidKind)
        ensures
            *final(self) == old(self).offered(index, kind),
    {
        match kind {
            HidKind::Keyboard => {
                if self.keyboard.is_none() {
                    self.keyboard = Some(index);
                }
            },
            HidKind::Pointer => {
                if self.pointer.is_none() {
                    self.pointer = Some(index);
                }
            },
            HidKind::Other => {},
        }
    }

    /// The stack, where it found anything.
    pub open spec fn if_any(self) -> Option<UsbInput> {
        if self.keyboard is Some || self.pointer is Some {
            Some(self)
        } else {
            None
        }
    }

    pub fn bring_up(self) -> (r: Option<UsbInput>)
        ensures
            r == self.if_any(),
    {
        if self.keyboard.is_some() || self.pointer.is_some() {
            Some(self)
        } else {
            None
        }
    }

    /// The keyboard that is read, where one is.
    pub open spec fn keyboard_read(self) -> Option<usize> {
        if self.reads_keyboard {
            self.keyboard
        } else {
            None
        }
    }

    /// The pointer that is read, where one is.
    pub open spec fn pointer_read(self) -> Option<usize> {
        if self.reads_pointer {
            self.pointer
        } else {
            None
        }
    }

    /// Whose turn it is, and which device that is.
    pub open spec fn turn(self) -> (HidKind, Option<usize>) {
        if self.pointer_next {
            (HidKind::Pointer, self.pointer_read())
        } else {
            (HidKind::Keyboard, self.keyboard_read())
        }
    }

    /// The stack once that turn has been taken.
    pub open spec fn turned(self) -> UsbInput {
        UsbInput { pointer_next: !self.pointer_next, ..self }
    }

    /// Whose turn it is, and which device that is: none where that role is not
    /// read here. Two turns make a poll: the devices are serviced in turn
    /// rather than keyboard-first.
    pub fn poll(&mut self) -> (r: (HidKind, Option<usize>))
        ensures
            *final(self) == old(self).turned(),
            r == old(self).turn(),
    {
        let pointer: bool = self.pointer_next;
        self.pointer_next = !pointer;
        if pointer {
            (
                HidKind::Pointer,
                if self.reads_pointer {
                    self.pointer
                } else {
                    None
                },
            )
        } else {
            (
                HidKind::Keyboard,
                if self.reads_keyboard {
                    self.keyboard
                } else {
                    None
                },
            )
        }
    }

    /// Takes a keyboard report.
    ///
    /// Byte 0 is modifiers, byte 1 reserved, bytes 2 to 7 are up to six held
    /// keycodes. A press is a keycode that was not in the previous report and
    /// a release is one that has left it.
    pub fn poll_keyboard(&mut self, report: [u8; 8]) -> (r: Option<Event>)
        ensures
            r == key_change(old(self).previous@, report@),
            *final(self) == (UsbInput { previous: report, ..*old(self) }),
    {
        let event: Option<Event> = keys_changed(&self.previous, &report);
        self.previous = report;
        event
    }

    /// Takes a pointer report.
    pub fn poll_pointer(&self, report: [u8; 8]) -> (r: Event)
        ensures
            r == boot_motion(report@),
    {
        Event::Motion(
            Motion {
                dx: signed_byte(report[1]),
                dy: signed_byte(report[2]),
                wheel: signed_byte(report[3]),
                left: report[0] & 0x01 != 0,
                right: report[0] & 0x02 != 0,
                middle: report[0] & 0x04 != 0,
            },
        )
    }
}

/// The first keyboard and the first pointer offered are the ones kept, in
/// whatever order they come, and nothing else is.
pub proof fn the_first_of_each_is_kept(usb: UsbInput, a: usize, b: usize, kind: HidKind)
    requires
        usb.keyboard is None,
        usb.pointer is None,
    ensures
        usb.offered(a, HidKind::Keyboard).keyboard == Some(a),
        usb.offered(a, HidKind::Keyboard).pointer is None,
        usb.offered(a, HidKind::Pointer).pointer == Some(a),
        usb.offered(a, HidKind::Pointer).keyboard is None,
        usb.offered(a, HidKind::Other) == usb,
        usb.offered(a, HidKind::Keyboard).offered(b, kind).keyboard == Some(a),
        usb.offered(a, HidKind::Pointer).offered(b, kind).pointer == Some(a),
        usb.offered(a, HidKind::Pointer).offered(b, HidKind::Keyboard).keyboard == Some(b),
        usb.offered(a, kind).previous == usb.previous,
        usb.offered(a, kind).pointer_next == usb.pointer_next,
{
}

/// Two turns in a row service the keyboard and the pointer, one each, and
/// leave everything as it was.
pub proof fn both_get_a_turn(usb: UsbInput)
    ensures
        usb.turned().turned() == usb,
        usb.turn().0 == HidKind::Keyboard <==> usb.turned().turn().0 == HidKind::Pointer,
        usb.turn().0 == HidKind::Keyboard || usb.turn().0 == HidKind::Pointer,
        usb.turn().0 == HidKind::Keyboard ==> usb.turn().1 == (if usb.reads_keyboard {
            usb.keyboard
        } else {
            None
        }),
        usb.turn().0 == HidKind::Pointer ==> usb.turn().1 == (if usb.reads_pointer {
            usb.pointer
        } else {
            None
        }),
{
}

/// Two turns service both devices, whichever goes first.
pub proof fn turns_alternate(first: UsbInput, second: UsbInput)
    requires
        second == (UsbInput { pointer_next: !first.pointer_next, ..first }),
    ensures
        first.pointer_next != second.pointer_next,
        (UsbInput { pointer_next: !second.pointer_next, ..second }) == first,
{
}

// ---------------------------------------------------------------------------
// All of it together
// ---------------------------------------------------------------------------

/// How many raw bytes to remember.
pub const RECENT_BYTES: usize = 8;

/// How often the touchpad is read, in hertz: twice what one reports at, and
/// far below the rate an unthrottled draw loop would ask at.
pub const TOUCHPAD_POLL_HZ: u64 = 250;

/// What the I2C-HID probe turned up, for the interface to report.
#[derive(Debug, Clone, Copy)]
pub struct I2cFound {
    pub slave_address: u16,
    /// Bus, slot and function of the controller it hangs off.
    pub controller: (u8, u8, u8),
    pub vendor: u16,
    pub product: u16,
    pub report_id: Option<u8>,
    pub input_register: u16,
    pub interrupt_pin: Option<u16>,
    /// Whether that pin is being read as a readiness signal.
    pub gate: GateState,
    /// How the address above was arrived at.
    pub discovery: Discovery,
}

/// What each stack turned up, one field per question worth asking.
#[derive(Debug, Clone, Copy)]
pub struct Found {
    pub ps2_keyboard: bool,
    pub ps2_pointer: Option<PointerKind>,
    /// An xHCI controller was found and brought up.
    pub usb_controller: bool,
    pub usb_keyboard: bool,
    pub usb_pointer: bool,
    /// The I2C-HID touchpad, when one was brought up.
    pub i2c: Option<I2cFound>,
    /// Whether it came up and then stopped answering.
    pub i2c_abandoned: bool,
    /// Why it was not, when it was not.
    pub i2c_failure: Option<Failure>,
}

/// The 8042 and whatever is attached to it, plus what the other two stacks
/// found.
pub struct Input {
    pub pointer: PointerKind,
    /// Bytes of a mouse packet collected so far.
    pub packet: Vec<u8>,
    /// Whether a keyboard answered.
    pub keyboard: bool,
    /// Whether an xHCI controller was found and brought up.
    pub usb_controller: bool,
    /// The USB stack, when it was brought up and found something.
    pub usb: Option<UsbInput>,
    /// The I2C-HID touchpad, when there is one and it could be reached.
    pub i2c: Option<I2cHid>,
    /// Why there is not one, when there is not.
    pub i2c_failure: Option<Failure>,
    /// When the touchpad may next be read, and how often. A rate limit: every
    /// read is a whole bus transaction.
    pub i2c_next: u64,
    pub i2c_interval: u64,
    /// The last few bytes the 8042 handed over, oldest first.
    pub recent: Vec<u8>,
    /// The previous I2C-HID keyboard report.
    pub i2c_previous: [u8; 8],
    /// Set once a `0xF0` arrives: this controller delivers set 2.
    pub set2: bool,
    /// The next byte is a set 2 release.
    pub set2_break: bool,
}

/// The last bytes of `seen` that are remembered once `byte` has arrived.
pub open spec fn remembered(seen: Seq<u8>, byte: u8) -> Seq<u8> {
    if seen.len() < RECENT_BYTES {
        seen.push(byte)
    } else {
        seen.skip(seen.len() - RECENT_BYTES + 1).push(byte)
    }
}

/// What one keyboard byte means, and whether set 2 and its release prefix
/// have been seen after it.
pub open spec fn keystroke_of(set2: bool, set2_break: bool, byte: u8) -> (
    Option<Event>,
    bool,
    bool,
) {
    if set2_break {
        (
            Some(Event::Key(Key { scancode: set1_of_set2(byte), pressed: false })),
            set2,
            false,
        )
    } else if byte == SET2_BREAK {
        (None, true, true)
    } else if set2 {
        (Some(Event::Key(Key { scancode: set1_of_set2(byte), pressed: true })), set2, false)
    } else {
        // Set 1: bit 7 marks a release.
        (
            Some(Event::Key(Key { scancode: byte & 0x7F, pressed: byte & 0x80 == 0 })),
            set2,
            false,
        )
    }
}

/// What one pointer byte means, and what of a packet has been collected after
/// it.
///
/// Bit 3 of the first byte is always set in a valid packet. Waiting for it is
/// what keeps a dropped byte from turning every packet after it into
/// nonsense.
pub open spec fn accumulated(kind: PointerKind, packet: Seq<u8>, byte: u8) -> (
    Seq<u8>,
    Option<Event>,
) {
    if kind.packet_size() == 0 || packet.len() == 0 && byte & 0x08 == 0 {
        (packet, None)
    } else if packet.len() + 1 < kind.packet_size() {
        (packet.push(byte), None)
    } else {
        (seq![], packet_motion(kind, packet.push(byte)))
    }
}

/// What became of a look at the controller.
#[derive(Debug, Clone, Copy, PartialEq, Eq, Structural)]
pub enum Polled {
    /// A byte was waiting, and this is what it came to.
    Byte(Option<Event>),
    /// Nothing was waiting: ask the other stacks.
    Empty,
}

/// The ticks between two reads of the touchpad.
pub open spec fn touchpad_interval(ticks_per_us: u64) -> int {
    (if ticks_per_us > 1 {
        ticks_per_us as int
    } else {
        1
    }) * 1_000_000 / TOUCHPAD_POLL_HZ as int
}

/// When the touchpad may be read next, once it has been read.
pub open spec fn due_after(now: u64, interval: u64) -> u64 {
    ((now + interval) % 0x1_0000_0000_0000_0000) as u64
}

/// Two hundred and fifty intervals make a second, and one that was just read is
/// not read again before one has passed, even where the counter rolls over on
/// the way.
pub proof fn the_touchpad_is_read_at_its_rate(
    ticks_per_us: u64,
    now: u64,
    interval: u64,
    passed: u64,
)
    requires
        interval < 0x8000_0000_0000_0000,
        passed < 0x8000_0000_0000_0000,
    ensures
        ticks_per_us > 0 ==> touchpad_interval(ticks_per_us) * 250 == ticks_per_us * 1_000_000,
        touchpad_interval(0) == 4000,
        ({
            let then = ((now + passed) % 0x1_0000_0000_0000_0000) as u64;
            is_ahead(due_after(now, interval), then) == (passed < interval)
        }),
{
    i2c_hid::deadlines_survive_a_rollover(now, interval, passed);
}

/// What a look at the controller comes to: nothing where its status says that
/// nothing waits, else what the byte says to the device the status names.
pub open spec fn poll_event(input: Input, status: u8, byte: u8) -> Polled {
    if status & 0x01 == 0 {
        Polled::Empty
    } else if status & 0x20 == 0 {
        Polled::Byte(keystroke_of(input.set2, input.set2_break, byte).0)
    } else {
        Polled::Byte(accumulated(input.pointer, input.packet@, byte).1)
    }
}

/// Bit 0 of the status says whether a byte waits and bit 5 whose it is, so a
/// press on a set 1 keyboard is an event at once, whatever the pointer was in
/// the middle of, and a pointer's byte is never a key.
pub proof fn a_byte_goes_to_its_device(input: Input, status: u8, byte: u8)
    ensures
        status & 0x01 == 0 ==> poll_event(input, status, byte) == Polled::Empty,
        status & 0x01 != 0 ==> poll_event(input, status, byte) is Byte,
        status & 0x01 != 0 && status & 0x20 == 0 && byte < 0x80 && !input.set2 && !input.set2_break
            ==> poll_event(input, status, byte) == Polled::Byte(
            Some(Event::Key(Key { scancode: byte, pressed: true })),
        ),
        status & 0x20 != 0 ==> !(poll_event(input, status, byte) matches Polled::Byte(
            Some(Event::Key(_)),
        )),
        status & 0x20 == 0 ==> !(poll_event(input, status, byte) matches Polled::Byte(
            Some(Event::Motion(_)),
        )),
{
    a_set_1_byte_is_a_press_or_a_release(byte);
}

/// What a touchpad's report comes to, given the keys held before it.
pub open spec fn touchpad_event(previous: Seq<u8>, report: Report) -> Option<Event> {
    match report {
        Report::Motion(m) => if m.is_still() {
            None
        } else {
            Some(
                Event::Motion(
                    Motion {
                        dx: m.dx,
                        dy: m.dy,
                        wheel: m.wheel,
                        left: m.left,
                        right: m.right,
                        middle: m.middle,
                    },
                ),
            )
        },
        Report::Keys(keys) => key_change(previous, keys@),
    }
}

/// A touchpad's movement arrives as it was reported, axis for axis and button
/// for button, and only one that says nothing at all is left out.
pub proof fn a_touchpad_moves_as_reported(previous: Seq<u8>, m: i2c_hid::Movement)
    ensures
        match touchpad_event(previous, Report::Motion(m)) {
            Some(Event::Motion(e)) => e.dx == m.dx && e.dy == m.dy && e.wheel == m.wheel && e.left
                == m.left && e.right == m.right && e.middle == m.middle,
            Some(Event::Key(_)) => false,
            None => m.dx == 0 && m.dy == 0 && m.wheel == 0 && !m.left && !m.right && !m.middle,
        },
        m.dx != 0 || m.dy != 0 || m.wheel != 0 || m.left || m.right || m.middle
            ==> touchpad_event(previous, Report::Motion(m)) is Some,
        m.dx == 0 && m.dy == 0 && m.wheel == 0 && !m.left && !m.right && !m.middle
            ==> touchpad_event(previous, Report::Motion(m)) is None,
{
}

impl Input {
    /// A packet is never whole before it is taken, and no more bytes are
    /// remembered than asked for.
    pub open spec fn wf(self) -> bool {
        &&& self.packet@.len() == 0 || self.packet@.len() < self.pointer.packet_size()
        &&& self.recent@.len() <= RECENT_BYTES
    }

    /// Whether a USB keyboard, and a USB pointer, was found.
    pub open spec fn usb_has_keyboard(self) -> bool {
        self.usb matches Some(usb) && usb.keyboard is Some
    }

    pub open spec fn usb_has_pointer(self) -> bool {
        self.usb matches Some(usb) && usb.pointer is Some
    }

    fn usb_keyboard(&self) -> (r: bool)
        ensures
            r == self.usb_has_keyboard(),
    {
        match &self.usb {
            Some(usb) => usb.keyboard.is_some(),
            None => false,
        }
    }

    fn usb_pointer(&self) -> (r: bool)
        ensures
            r == self.usb_has_pointer(),
    {
        match &self.usb {
            Some(usb) => usb.pointer.is_some(),
            None => false,
        }
    }

    /// The input state, with what the 8042 turned out to have.
    pub fn init(ticks_per_us: u64, keyboard: bool, pointer: PointerKind) -> (r: Input)
        requires
            ticks_per_us * 1_000_000 <= u64::MAX,
        ensures
            r.wf(),
            r.pointer == pointer,
            r.keyboard == keyboard,
            r.packet@ == Seq::<u8>::empty(),
            r.recent@ == Seq::<u8>::empty(),
            !r.usb_controller,
            r.usb is None,
            r.i2c is None,
            r.i2c_failure is None,
            r.i2c_next == 0,
            r.i2c_interval == touchpad_interval(ticks_per_us),
            r.i2c_previous@ == Seq::new(8, |i: int| 0u8),
            !r.set2,
            !r.set2_break,
    {
        let rate: u64 = if ticks_per_us > 1 {
            ticks_per_us
        } else {
            1
        };
        let i2c_previous: [u8; 8] = [0u8; 8];
        assert(i2c_previous@ =~= Seq::new(8, |i: int| 0u8));
        Input {
            pointer,
            packet: Vec::new(),
            keyboard,
            usb_controller: false,
            usb: None,
            i2c: None,
            i2c_failure: None,
            i2c_next: 0,
            i2c_interval: rate * 1_000_000 / TOUCHPAD_POLL_HZ,
            recent: Vec::new(),
            i2c_previous,
            set2: false,
            set2_break: false,
        }
    }

    /// Whether a device is missing.
    pub open spec fn is_short(self) -> bool {
        !self.keyboard || self.pointer == PointerKind::Absent
    }

    /// Whether the USB stack is to be brought up: whenever *either* device is
    /// missing, not only when both are. A notebook's built-in keyboard
    /// answers the 8042 and its touchpad does not.
    pub fn wants_usb(&self) -> (r: bool)
        ensures
            r == self.is_short(),
    {
        !self.keyboard || self.pointer == PointerKind::Absent
    }

    /// The input state once the USB stack has been looked at: whether there was
    /// a controller, and what was found on it. A role the 8042 supplies is not
    /// read over USB as well.
    pub open spec fn with_usb(self, controller: bool, usb: Option<UsbInput>) -> Input {
        Input {
            usb_controller: controller || usb is Some,
            keyboard: self.keyboard || (usb matches Some(u) && u.keyboard is Some),
            pointer: if self.pointer == PointerKind::Absent && (usb matches Some(u)
                && u.pointer is Some) {
                PointerKind::Usb
            } else {
                self.pointer
            },
            usb: match usb {
                Some(found) => Some(
                    UsbInput {
                        reads_keyboard: !self.keyboard,
                        reads_pointer: self.pointer == PointerKind::Absent,
                        ..found
                    },
                ),
                None => None,
            },
            ..self
        }
    }

    /// The input state once the I2C-HID stack has been looked at.
    pub open spec fn with_i2c(self, probed: Result<I2cHid, Failure>) -> Input {
        match probed {
            Ok(touchpad) => Input {
                i2c: Some(touchpad),
                pointer: PointerKind::I2cHid,
                ..self
            },
            Err(why) => Input { i2c_failure: Some(why), ..self },
        }
    }

    /// The input state once every stack that is wanted has been looked at.
    pub open spec fn brought_up(
        self,
        controller: bool,
        usb: Option<UsbInput>,
        probed: Result<I2cHid, Failure>,
    ) -> Input {
        let second = if self.is_short() {
            self.with_usb(controller, usb)
        } else {
            self
        };
        if second.pointer == PointerKind::Absent {
            second.with_i2c(probed)
        } else {
            second
        }
    }

    /// Takes what the USB stack found: whether there was a controller, and the
    /// devices on it. A device the 8042 already supplies keeps its place.
    pub fn attach_usb(&mut self, controller: bool, usb: Option<UsbInput>)
        requires
            old(self).wf(),
        ensures
            final(self).wf(),
            *final(self) == old(self).with_usb(controller, usb),
    {
        self.usb_controller = controller;
        self.usb = None;
        if let Some(found) = usb {
            let mut found = found;
            found.reads_keyboard = !self.keyboard;
            found.reads_pointer = self.pointer == PointerKind::Absent;
            if found.keyboard.is_some() {
                self.keyboard = true;
            }
            if found.pointer.is_some() && self.pointer == PointerKind::Absent {
                self.pointer = PointerKind::Usb;
            }
            self.usb_controller = true;
            self.usb = Some(found);
        }
    }

    /// Whether the I2C-HID stack is to be tried: last, and only for a
    /// pointer.
    pub open spec fn lacks_pointer(self) -> bool {
        self.pointer == PointerKind::Absent
    }

    pub fn wants_i2c(&self) -> (r: bool)
        ensures
            r == self.lacks_pointer(),
    {
        self.pointer == PointerKind::Absent
    }

    /// Takes what the I2C-HID probe came to.
    pub fn attach_i2c(&mut self, probed: Result<I2cHid, Failure>)
        requires
            old(self).wf(),
            old(self).pointer == PointerKind::Absent,
        ensures
            final(self).wf(),
            *final(self) == old(self).with_i2c(probed),
    {
        match probed {
            Ok(touchpad) => {
                self.i2c = Some(touchpad);
                self.pointer = PointerKind::I2cHid;
            },
            Err(why) => {
                self.i2c_failure = Some(why);
            },
        }
    }

    /// What the status bar says supplied the input.
    pub open spec fn source_text(self) -> Seq<char> {
        let usb = self.usb_has_keyboard() || self.usb_has_pointer();
        if self.pointer == PointerKind::I2cHid {
            if self.usb_has_keyboard() {
                "usb keyboard + i2c-hid touchpad"@
            } else if self.keyboard {
                "ps/2 keyboard + i2c-hid touchpad"@
            } else {
                "i2c-hid touchpad"@
            }
        } else if self.pointer == PointerKind::Absent {
            if self.keyboard {
                "keyboard only (no pointer found)"@
            } else {
                "no input device"@
            }
        } else if !self.keyboard {
            "pointer only (no keyboard found)"@
        } else if !usb {
            "ps/2"@
        } else if !self.usb_has_keyboard() {
            "ps/2 keyboard + usb pointer"@
        } else {
            "usb hid"@
        }
    }

    /// What supplied the input, for the status bar.
    ///
    /// Named rather than assumed: "no cursor because there is no pointer" and
    /// "no cursor because the driver failed" look identical from the outside.
    pub fn source(&self) -> (r: &'static str)
        ensures
            r@ == self.source_text(),
    {
        let usb_keyboard: bool = self.usb_keyboard();
        if self.pointer == PointerKind::I2cHid {
            return if usb_keyboard {
                "usb keyboard + i2c-hid touchpad"
            } else if self.keyboard {
                "ps/2 keyboard + i2c-hid touchpad"
            } else {
                "i2c-hid touchpad"
            };
        }
        let usb: bool = usb_keyboard || self.usb_pointer();
        match (self.keyboard, self.pointer != PointerKind::Absent) {
            (true, true) => {
                if !usb {
                    "ps/2"
                } else if !usb_keyboard {
                    "ps/2 keyboard + usb pointer"
                } else {
                    "usb hid"
                }
            },
            (true, false) => "keyboard only (no pointer found)",
            (false, true) => "pointer only (no keyboard found)",
            (false, false) => "no input device",
        }
    }

    /// Whether a touchpad or mouse was found at all.
    pub fn has_pointer(&self) -> (r: bool)
        ensures
            r == !self.lacks_pointer(),
    {
        self.pointer != PointerKind::Absent
    }

    pub fn pointer_kind(&self) -> (r: PointerKind)
        ensures
            r == self.pointer,
    {
        self.pointer
    }

    pub fn has_keyboard(&self) -> (r: bool)
        ensures
            r == self.keyboard,
    {
        self.keyboard
    }

    /// Records a raw byte for the diagnostic readout.
    pub fn remember(&mut self, byte: u8)
        requires
            old(self).wf(),
        ensures
            final(self).wf(),
            final(self).recent@ == remembered(old(self).recent@, byte),
            *final(self) == (Input { recent: final(self).recent, ..*old(self) }),
    {
        if self.recent.len() == RECENT_BYTES {
            let _ = self.recent.remove(0);
        }
        self.recent.push(byte);
        assert(self.recent@ =~= remembered(old(self).recent@, byte));
    }

    /// The last bytes the 8042 delivered, oldest first.
    pub fn recent_bytes(&self) -> (r: &[u8])
        ensures
            r@ == self.recent@,
    {
        self.recent.as_slice()
    }

    /// What is said of a pointer that did not come up.
    pub open spec fn pointer_trouble(failure: Option<Failure>) -> Seq<char> {
        match failure {
            None => "no pointer answered on any bus"@,
            Some(Failure::NoDevice) =>
                "no pointer: nothing on PS/2 or USB, and no I2C-HID device in this firmware"@,
            Some(Failure::NoDsdt) => "no pointer: the DSDT could not be read"@,
            Some(Failure::NoControllerDevice) =>
                "no pointer: no ACPI table declares the controller named in _CRS"@,
            Some(Failure::NoControllerAddress) =>
                "no pointer: the I2C controller declares no _ADR, so its PCI slot is unknown"@,
            Some(Failure::NoControllerPci) =>
                "no pointer: no LPSS I2C controller at the slot _ADR names"@,
            Some(Failure::ControllerFailed) =>
                "no pointer: the I2C controller did not leave reset"@,
            Some(Failure::NoHidDescriptor) =>
                "no pointer: the touchpad did not answer at its descriptor register"@,
            Some(Failure::ResetFailed) => "no pointer: the touchpad would not reset"@,
            Some(Failure::ReportDescriptorFailed) | Some(Failure::DescriptorTooLarge) =>
                "no pointer: the touchpad's report descriptor could not be read"@,
            Some(Failure::NoPointerReport) =>
                "no pointer: the touchpad reports contacts only, not a cursor"@,
        }
    }

    /// What is said of what did not come up.
    pub open spec fn trouble_text(self) -> Seq<char> {
        match (self.keyboard, self.pointer != PointerKind::Absent) {
            (false, false) =>
                "no keyboard and no pointer answered. Keys are read from the 8042 regardless, so they may still work"@,
            (false, true) =>
                "no keyboard answered its probes. Keys are read from the 8042 regardless, so they may still work"@,
            (true, false) => Input::pointer_trouble(self.i2c_failure),
            (true, true) => ""@,
        }
    }

    /// One line naming what did not come up, and what it means.
    ///
    /// Written for someone looking at a screen they cannot type into, so it
    /// says *which* stack failed rather than that something did.
    pub fn trouble(&self) -> (r: &'static str)
        ensures
            r@ == self.trouble_text(),
    {
        match (self.has_keyboard(), self.has_pointer()) {
            (false, false) =>
                "no keyboard and no pointer answered. Keys are read from the 8042 regardless, so they may still work",
            (false, true) =>
                "no keyboard answered its probes. Keys are read from the 8042 regardless, so they may still work",
            (true, false) => match self.i2c_failure {
                None => "no pointer answered on any bus",
                Some(Failure::NoDevice) =>
                    "no pointer: nothing on PS/2 or USB, and no I2C-HID device in this firmware",
                Some(Failure::NoDsdt) => "no pointer: the DSDT could not be read",
                Some(Failure::NoControllerDevice) =>
                    "no pointer: no ACPI table declares the controller named in _CRS",
                Some(Failure::NoControllerAddress) =>
                    "no pointer: the I2C controller declares no _ADR, so its PCI slot is unknown",
                Some(Failure::NoControllerPci) =>
                    "no pointer: no LPSS I2C controller at the slot _ADR names",
                Some(Failure::ControllerFailed) =>
                    "no pointer: the I2C controller did not leave reset",
                Some(Failure::NoHidDescriptor) =>
                    "no pointer: the touchpad did not answer at its descriptor register",
                Some(Failure::ResetFailed) => "no pointer: the touchpad would not reset",
                Some(Failure::ReportDescriptorFailed) | Some(Failure::DescriptorTooLarge) =>
                    "no pointer: the touchpad's report descriptor could not be read",
                Some(Failure::NoPointerReport) =>
                    "no pointer: the touchpad reports contacts only, not a cursor",
            },
            (true, true) => "",
        }
    }

    /// What the interface reports of a touchpad.
    pub open spec fn i2c_found(touchpad: I2cHid) -> I2cFound {
        I2cFound {
            slave_address: touchpad.address,
            controller: touchpad.controller,
            vendor: touchpad.vendor,
            product: touchpad.product,
            report_id: touchpad.report,
            input_register: touchpad.descriptor.input_register,
            interrupt_pin: touchpad.interrupt_pin,
            gate: match touchpad.gate {
                i2c_hid::Gate::Blind => GateState::Blind,
                i2c_hid::Gate::Learning { watching, reports, quiet } => GateState::Learning {
                    watching,
                    reports,
                    quiet,
                },
                i2c_hid::Gate::Gated { mapping, skipped, .. } => GateState::Gated {
                    mapping,
                    skipped,
                },
            },
            discovery: touchpad.discovery,
        }
    }

    /// What each stack found.
    pub open spec fn findings(self) -> Found {
        Found {
            ps2_keyboard: self.keyboard && !self.usb_has_keyboard(),
            ps2_pointer: match self.pointer {
                PointerKind::Usb | PointerKind::I2cHid | PointerKind::Absent => None,
                kind => Some(kind),
            },
            usb_controller: self.usb_controller,
            usb_keyboard: self.usb_has_keyboard(),
            usb_pointer: self.usb_has_pointer(),
            i2c: match self.i2c {
                Some(touchpad) => Some(Input::i2c_found(touchpad)),
                None => None,
            },
            i2c_abandoned: self.i2c matches Some(touchpad) && touchpad.failures
                >= GIVE_UP_AFTER,
            i2c_failure: self.i2c_failure,
        }
    }

    /// What each stack found, for the interface to report.
    ///
    /// Reported rather than summarised: "no cursor" has several causes and
    /// they need different answers from the person reading it.
    pub fn found(&self) -> (r: Found)
        ensures
            r == self.findings(),
    {
        let i2c: Option<I2cFound> = match &self.i2c {
            Some(touchpad) => Some(
                I2cFound {
                    slave_address: touchpad.slave_address(),
                    controller: touchpad.controller,
                    vendor: touchpad.vendor,
                    product: touchpad.product,
                    report_id: touchpad.report_id(),
                    input_register: touchpad.input_register(),
                    interrupt_pin: touchpad.interrupt_pin,
                    gate: touchpad.gate_state(),
                    discovery: touchpad.discovery,
                },
            ),
            None => None,
        };
        let abandoned: bool = match &self.i2c {
            Some(touchpad) => touchpad.abandoned(),
            None => false,
        };
        Found {
            ps2_keyboard: self.keyboard && !self.usb_keyboard(),
            ps2_pointer: match self.pointer {
                PointerKind::Usb | PointerKind::I2cHid | PointerKind::Absent => None,
                kind => Some(kind),
            },
            usb_controller: self.usb_controller,
            usb_keyboard: self.usb_keyboard(),
            usb_pointer: self.usb_pointer(),
            i2c,
            i2c_abandoned: abandoned,
            i2c_failure: self.i2c_failure,
        }
    }

    /// Which scan code set the keyboard turned out to be using.
    pub open spec fn code_set(self) -> u8 {
        if self.set2 {
            2
        } else {
            1
        }
    }

    pub fn scancode_set(&self) -> (r: u8)
        ensures
            r == self.code_set(),
    {
        if self.set2 {
            2
        } else {
            1
        }
    }

    /// Turns one keyboard byte into an event, in whichever set arrives.
    ///
    /// The set is not configured, it is *observed*: a `0xF0` is set 2's break
    /// prefix and cannot appear as a make code, so seeing one settles which
    /// numbering this controller is delivering.
    pub fn keystroke(&mut self, byte: u8) -> (r: Option<Event>)
        requires
            old(self).wf(),
        ensures
            final(self).wf(),
            ({
                let (event, set2, set2_break) = keystroke_of(
                    old(self).set2,
                    old(self).set2_break,
                    byte,
                );
                r == event && *final(self) == (Input { set2, set2_break, ..*old(self) })
            }),
    {
        if self.set2_break {
            self.set2_break = false;
            return Some(Event::Key(Key { scancode: translate_set2(byte), pressed: false }));
        }
        if byte == SET2_BREAK {
            self.set2 = true;
            self.set2_break = true;
            return None;
        }
        if self.set2 {
            return Some(Event::Key(Key { scancode: translate_set2(byte), pressed: true }));
        }
        Some(Event::Key(Key { scancode: byte & 0x7F, pressed: byte & 0x80 == 0 }))
    }

    /// Collects a mouse packet, returning it once complete.
    pub fn accumulate(&mut self, byte: u8) -> (r: Option<Event>)
        requires
            old(self).wf(),
        ensures
            final(self).wf(),
            (final(self).packet@, r) == accumulated(old(self).pointer, old(self).packet@, byte),
            *final(self) == (Input { packet: final(self).packet, ..*old(self) }),
    {
        let len: usize = self.pointer.packet_len();
        if len == 0 {
            return None;
        }
        if self.packet.len() == 0 && byte & 0x08 == 0 {
            return None;
        }
        self.packet.push(byte);
        if self.packet.len() < len {
            return None;
        }
        let flags: u8 = self.packet[0];
        let dx: i32 = sign_extend(self.packet[1], flags & 0x10 != 0);
        let dy: i32 = sign_extend(self.packet[2], flags & 0x20 != 0);
        let wheel: i32 = if len == 4 {
            let z: u8 = self.packet[3] & 0x0F;
            if z & 0x08 != 0 {
                z as i32 - 16
            } else {
                z as i32
            }
        } else {
            0
        };
        self.packet.clear();
        // Overflow bits 6 and 7: the movement exceeded what the packet can
        // carry, so the value is meaningless and the packet is dropped.
        if flags & 0xC0 != 0 {
            return None;
        }
        Some(
            Event::Motion(
                Motion {
                    dx,
                    dy: -dy,
                    wheel,
                    left: flags & 0x01 != 0,
                    right: flags & 0x02 != 0,
                    middle: flags & 0x04 != 0,
                },
            ),
        )
    }

    /// Takes a look at the controller: its status, and the byte waiting where
    /// the status says one is.
    ///
    /// The 8042 first: where firmware translates USB it is the *same* device
    /// arriving by a cheaper path.
    pub fn poll(&mut self, status: u8, byte: u8) -> (r: Polled)
        requires
            old(self).wf(),
        ensures
            final(self).wf(),
            r == poll_event(*old(self), status, byte),
            status & 0x01 == 0 ==> r == Polled::Empty && *final(self) == *old(self),
            status & 0x01 != 0 && status & 0x20 == 0 ==> ({
                let (event, set2, set2_break) = keystroke_of(
                    old(self).set2,
                    old(self).set2_break,
                    byte,
                );
                &&& r == Polled::Byte(event)
                &&& final(self).recent@ == remembered(old(self).recent@, byte)
                &&& *final(self) == (Input {
                    set2,
                    set2_break,
                    recent: final(self).recent,
                    ..*old(self)
                })
            }),
            status & 0x01 != 0 && status & 0x20 != 0 ==> ({
                let (packet, event) = accumulated(old(self).pointer, old(self).packet@, byte);
                &&& r == Polled::Byte(event)
                &&& final(self).packet@ == packet
                &&& final(self).recent@ == remembered(old(self).recent@, byte)
                &&& *final(self) == (Input {
                    packet: final(self).packet,
                    recent: final(self).recent,
                    ..*old(self)
                })
            }),
    {
        if status & 0x01 == 0 {
            return Polled::Empty;
        }
        self.remember(byte);
        // Bit 5 is the only thing separating a mouse packet from a keystroke.
        if status & 0x20 == 0 {
            return Polled::Byte(self.keystroke(byte));
        }
        Polled::Byte(self.accumulate(byte))
    }

    /// Whether the touchpad is due to be read at this counter value; if it
    /// is, when it is due next.
    pub open spec fn is_due(self, now: u64) -> bool {
        !is_ahead(self.i2c_next, now)
    }

    /// The input state once the touchpad has been asked about.
    pub open spec fn asked_at(self, now: u64) -> Input {
        Input {
            i2c_next: if self.is_due(now) {
                due_after(now, self.i2c_interval)
            } else {
                self.i2c_next
            },
            ..self
        }
    }

    pub fn i2c_due(&mut self, now: u64) -> (r: bool)
        requires
            old(self).wf(),
        ensures
            final(self).wf(),
            r == old(self).is_due(now),
            *final(self) == old(self).asked_at(now),
    {
        if i2c_hid::ahead(self.i2c_next, now) {
            return false;
        }
        self.i2c_next = now.wrapping_add(self.i2c_interval);
        true
    }

    /// Takes a touchpad report.
    ///
    /// A report with no movement and no button is what the device sends when
    /// a finger settles; passing it on would cost a cursor redraw for
    /// nothing. The HID axis points down, the way a framebuffer's does.
    pub fn poll_i2c(&mut self, report: Report) -> (r: Option<Event>)
        requires
            old(self).wf(),
        ensures
            final(self).wf(),
            r == touchpad_event(old(self).i2c_previous@, report),
            match report {
                Report::Motion(m) => *final(self) == *old(self) && r == if m.is_still() {
                    None
                } else {
                    Some(
                        Event::Motion(
                            Motion {
                                dx: m.dx,
                                dy: m.dy,
                                wheel: m.wheel,
                                left: m.left,
                                right: m.right,
                                middle: m.middle,
                            },
                        ),
                    )
                },
                Report::Keys(keys) => *final(self) == (Input { i2c_previous: keys, ..*old(self) })
                    && r == key_change(old(self).i2c_previous@, keys@),
            },
    {
        match report {
            Report::Motion(m) => {
                if m.still() {
                    return None;
                }
                Some(
                    Event::Motion(
                        Motion {
                            dx: m.dx,
                            dy: m.dy,
                            wheel: m.wheel,
                            left: m.left,
                            right: m.right,
                            middle: m.middle,
                        },
                    ),
                )
            },
            Report::Keys(keys) => {
                let event: Option<Event> = keys_changed(&self.i2c_previous, &keys);
                self.i2c_previous = keys;
                event
            },
        }
    }
}

/// Once a packet has started, its remaining bytes are taken as they come and
/// the last of them completes it: three bytes for a plain mouse, four for a
/// wheel.
pub proof fn a_packet_completes(kind: PointerKind, bytes: Seq<u8>)
    requires
        kind.packet_size() > 0,
        bytes.len() == kind.packet_size(),
        bytes[0] & 0x08 != 0,
    ensures
        ({
            let one = accumulated(kind, seq![], bytes[0]);
            let two = accumulated(kind, one.0, bytes[1]);
            let three = accumulated(kind, two.0, bytes[2]);
            let last = if bytes.len() == 3 {
                three
            } else {
                accumulated(kind, three.0, bytes[3])
            };
            &&& one.1 is None
            &&& two.1 is None
            &&& bytes.len() == 4 ==> three.1 is None
            &&& last == (Seq::<u8>::empty(), packet_motion(kind, bytes))
        }),
{
    let start = Seq::<u8>::empty();
    let one = start.push(bytes[0]);
    let two = one.push(bytes[1]);
    let three = two.push(bytes[2]);
    if bytes.len() == 3 {
        assert(three =~= bytes);
    } else {
        assert(three.push(bytes[3]) =~= bytes);
    }
}

/// What a packet means, from its first byte to its last. A plain mouse sends
/// three bytes and the other two kinds four. X is the nine-bit number whose sign
/// is bit 4 of the first byte, Y the one whose sign is bit 5, pointing the other
/// way; the wheel is the low half of the fourth byte, from minus eight to seven;
/// the buttons are the low three bits. One that overflowed says nothing.
pub proof fn a_packet_says_how_far_it_moved(kind: PointerKind, bytes: Seq<u8>)
    requires
        kind == PointerKind::Standard && bytes.len() == 3 || (kind == PointerKind::Wheel || kind
            == PointerKind::FiveButton) && bytes.len() == 4,
        bytes[0] & 0x08 != 0,
    ensures
        ({
            let two = accumulated(kind, accumulated(kind, seq![], bytes[0]).0, bytes[1]);
            let three = accumulated(kind, two.0, bytes[2]);
            let (left, event) = if bytes.len() == 3 {
                three
            } else {
                accumulated(kind, three.0, bytes[3])
            };
            &&& left.len() == 0
            &&& bytes[0] & 0xC0 != 0 ==> event is None
            &&& bytes[0] & 0xC0 == 0 ==> (event matches Some(Event::Motion(m)) && {
                &&& m.dx == if bytes[0] & 0x10 != 0 {
                    bytes[1] - 256
                } else {
                    bytes[1] as int
                }
                &&& m.dy == if bytes[0] & 0x20 != 0 {
                    256 - bytes[2]
                } else {
                    -bytes[2]
                }
                &&& bytes.len() == 3 ==> m.wheel == 0
                &&& bytes.len() == 4 ==> -8 <= m.wheel < 8 && (bytes[3] - m.wheel) % 16 == 0
                &&& m.left == (bytes[0] & 0x01 != 0)
                &&& m.right == (bytes[0] & 0x02 != 0)
                &&& m.middle == (bytes[0] & 0x04 != 0)
            })
        }),
{
    a_packet_completes(kind, bytes);
    if bytes.len() == 4 {
        let z = bytes[3];
        assert(z & 0x0F == z % 16 && ((z & 0x0F) & 0x08 != 0) == (z % 16 >= 8)) by (bit_vector);
    }
}

/// Nothing is told before a packet is whole, and a pointer that is not on the
/// controller has no packets there.
pub proof fn a_part_of_a_packet_says_nothing(kind: PointerKind, packet: Seq<u8>, byte: u8)
    ensures
        kind == PointerKind::Standard && packet.len() < 2 ==> accumulated(kind, packet, byte).1
            is None,
        (kind == PointerKind::Wheel || kind == PointerKind::FiveButton) && packet.len() < 3
            ==> accumulated(kind, packet, byte).1 is None,
        kind == PointerKind::Usb || kind == PointerKind::I2cHid || kind == PointerKind::Absent
            ==> accumulated(kind, packet, byte) == (packet, None::<Event>),
        kind == PointerKind::Standard && packet.len() == 1 ==> accumulated(kind, packet, byte).0
            == packet.push(byte),
{
}

/// A boot report's bytes are signed: one moves as far as it says, in the
/// direction it says, and Y points down as it does on the screen.
pub proof fn a_boot_report_says_how_far_it_moved(report: Seq<u8>)
    ensures
        boot_motion(report) matches Event::Motion(m) && {
            &&& m.dx == if report[1] < 128 {
                report[1] as int
            } else {
                report[1] - 256
            }
            &&& m.dy == if report[2] < 128 {
                report[2] as int
            } else {
                report[2] - 256
            }
            &&& m.wheel == if report[3] < 128 {
                report[3] as int
            } else {
                report[3] - 256
            }
            &&& m.left == (report[0] & 0x01 != 0)
            &&& m.right == (report[0] & 0x02 != 0)
            &&& m.middle == (report[0] & 0x04 != 0)
        },
{
}

/// In set 1 a code is a press and the same code with its top bit set is the
/// release of that key; nothing of set 2 is taken to have been seen. The one
/// byte that means otherwise is set 2's prefix.
pub proof fn a_set_1_byte_is_a_press_or_a_release(byte: u8)
    ensures
        byte < 0x80 ==> keystroke_of(false, false, byte) == (
            Some(Event::Key(Key { scancode: byte, pressed: true })),
            false,
            false,
        ),
        byte >= 0x80 && byte != 0xF0 ==> keystroke_of(false, false, byte) == (
            Some(Event::Key(Key { scancode: (byte - 0x80) as u8, pressed: false })),
            false,
            false,
        ),
        keystroke_of(false, false, 0xF0) == (None::<Event>, true, true),
{
    assert(byte < 0x80 ==> byte & 0x7F == byte && byte & 0x80 == 0) by (bit_vector);
    assert(byte >= 0x80 ==> byte & 0x7F == byte - 0x80 && byte & 0x80 != 0) by (bit_vector);
}

/// Once a set 2 prefix has been seen the keyboard is a set 2 keyboard: every
/// code is that set's, and only the code behind a prefix is a release.
pub proof fn set_2_stays_set_2(set2_break: bool, byte: u8)
    ensures
        keystroke_of(true, set2_break, byte).1,
        keystroke_of(true, true, byte) == (
            Some(Event::Key(Key { scancode: set1_of_set2(byte), pressed: false })),
            true,
            false,
        ),
        byte != 0xF0 ==> keystroke_of(true, false, byte) == (
            Some(Event::Key(Key { scancode: set1_of_set2(byte), pressed: true })),
            true,
            false,
        ),
        keystroke_of(true, false, 0xF0) == (None::<Event>, true, true),
{
}

/// The bytes remembered are the last eight, the latest at the end.
pub proof fn the_last_eight_are_remembered(seen: Seq<u8>, byte: u8)
    requires
        seen.len() <= 8,
    ensures
        ({
            let after = remembered(seen, byte);
            &&& after.last() == byte
            &&& after.len() == (if seen.len() < 8 {
                seen.len() + 1
            } else {
                8
            })
            &&& forall|i: int|
                #![trigger after[i]]
                0 <= i < after.len() - 1 ==> after[i] == seen[i + (seen.len() + 1 - after.len())]
        }),
{
}

/// A byte that cannot start a packet never does, so a reader that lost its
/// place finds it again at the next byte that can.
pub proof fn a_stray_byte_is_dropped(kind: PointerKind, byte: u8)
    requires
        byte & 0x08 == 0,
    ensures
        accumulated(kind, seq![], byte) == (Seq::<u8>::empty(), None::<Event>),
{
}

/// In set 2 the release of a key carries the scancode its press carried.
pub proof fn a_release_matches_its_press(code: u8)
    requires
        code != SET2_BREAK,
    ensures
        ({
            let (press, _, _) = keystroke_of(true, false, code);
            let (prefix, set2, set2_break) = keystroke_of(true, false, SET2_BREAK);
            let (release, _, after) = keystroke_of(set2, set2_break, code);
            &&& prefix is None
            &&& !after
            &&& press matches Some(Event::Key(down))
            &&& release matches Some(Event::Key(up))
            &&& down.pressed && !up.pressed && down.scancode == up.scancode
        }),
{
}

/// What bringing everything up leaves to report, whatever the 8042, the USB
/// stack and the I2C-HID probe answer: a failure is kept exactly where there is
/// no pointer, a touchpad is reported exactly where it is the pointer, a USB
/// keyboard is a keyboard and is not reported as a PS/2 one, a PS/2 pointer is
/// reported exactly where the 8042 has it, and a USB device is reported only
/// with the controller it is on.
///
/// `start` is what [`Input::init`] gives once the 8042 has been looked at.
pub proof fn what_was_found(
    start: Input,
    controller: bool,
    usb: Option<UsbInput>,
    probed: Result<I2cHid, Failure>,
)
    requires
        start.usb is None,
        start.i2c is None,
        start.i2c_failure is None,
        start.pointer != PointerKind::I2cHid && start.pointer != PointerKind::Usb,
    ensures
        ({
            let input = start.brought_up(controller, usb, probed);
            let found = input.findings();
            &&& found.i2c_failure is Some <==> input.pointer == PointerKind::Absent
            &&& found.i2c is Some <==> input.pointer == PointerKind::I2cHid
            &&& found.usb_keyboard ==> input.keyboard && !found.ps2_keyboard
            &&& found.usb_keyboard || found.usb_pointer ==> found.usb_controller
            &&& found.ps2_keyboard ==> start.keyboard
            &&& found.ps2_pointer == if start.pointer == PointerKind::Absent {
                None
            } else {
                Some(start.pointer)
            }
            &&& input.pointer == PointerKind::Usb ==> found.usb_pointer
        }),
{
}

/// Where the keyboard and the pointer come from: the 8042 wherever it has them,
/// USB wherever it does not and USB does, and I2C-HID for a pointer that neither
/// has. With both on the 8042 no other stack is looked at.
pub proof fn each_role_has_its_source(
    start: Input,
    controller: bool,
    usb: Option<UsbInput>,
    probed: Result<I2cHid, Failure>,
)
    requires
        start.usb is None,
        start.i2c is None,
        start.i2c_failure is None,
        !start.usb_controller,
    ensures
        ({
            let input = start.brought_up(controller, usb, probed);
            let usb_key = usb matches Some(u) && u.keyboard is Some;
            let usb_point = usb matches Some(u) && u.pointer is Some;
            let missing = start.pointer == PointerKind::Absent;
            &&& start.is_short() <==> !start.keyboard || missing
            &&& start.keyboard && !missing ==> input == start
            &&& input.keyboard == (start.keyboard || usb_key)
            &&& !missing ==> input.pointer == start.pointer
            &&& missing && usb_point ==> input.pointer == PointerKind::Usb && input.i2c is None
            &&& missing && !usb_point && probed is Ok ==> input.pointer == PointerKind::I2cHid
                && input.i2c == Some(probed->Ok_0)
            &&& missing && !usb_point && probed is Err ==> input.pointer == PointerKind::Absent
                && input.i2c_failure == Some(probed->Err_0)
            &&& !start.keyboard || missing ==> input.usb_controller == (controller || usb is Some)
        }),
{
}

/// A role the 8042 supplies is never read over USB as well, so nothing arrives
/// twice; and one it does not supply is read wherever USB has a device for it.
pub proof fn nothing_is_read_twice(
    start: Input,
    controller: bool,
    usb: Option<UsbInput>,
    probed: Result<I2cHid, Failure>,
)
    requires
        start.usb is None,
    ensures
        start.brought_up(controller, usb, probed).usb matches Some(read) ==> usb is Some && {
            let found = usb->0;
            &&& start.keyboard ==> read.keyboard_read() is None
            &&& !start.keyboard ==> read.keyboard_read() == found.keyboard
            &&& start.pointer != PointerKind::Absent ==> read.pointer_read() is None
            &&& start.pointer == PointerKind::Absent ==> read.pointer_read() == found.pointer
        },
{
}

// ---------------------------------------------------------------------------
// Bringing the controller up
// ---------------------------------------------------------------------------

/// One thing to do with the 8042. Commands and data wait for its input buffer
/// to drain; a read waits for a byte, and gives up.
#[derive(Debug, Clone, Copy, PartialEq, Eq, Structural)]
pub enum PortOp {
    /// Send a controller command.
    Command(u8),
    /// Write a byte to the data port.
    Data(u8),
    /// Discard anything already waiting.
    Drain,
    /// Read a byte. The last of the things to do, if it is there.
    Read,
}

/// Controller commands.
pub const KBDC_GET_COMMAND_BYTE: u8 = 0x20;

pub const KBDC_SET_COMMAND_BYTE: u8 = 0x60;

pub const KBDC_DISABLE_AUX_PORT: u8 = 0xA7;

pub const KBDC_ENABLE_AUX_PORT: u8 = 0xA8;

pub const KBDC_TEST_AUX_PORT: u8 = 0xA9;

/// Controller self-test. Answers `0x55`.
pub const KBDC_SELF_TEST: u8 = 0xAA;

pub const KBDC_DISABLE_KBD_PORT: u8 = 0xAD;

pub const KBDC_ENABLE_KBD_PORT: u8 = 0xAE;

pub const KBDC_WRITE_TO_AUX: u8 = 0xD4;

/// Device commands. Enabling is sent to **both** devices: a notebook's
/// keyboard may come up detected and silent without it.
pub const DEV_RESET: u8 = 0xFF;

pub const DEV_ENABLE: u8 = 0xF4;

pub const DEV_SET_DEFAULTS: u8 = 0xF6;

pub const DEV_SET_SAMPLE_RATE: u8 = 0xF3;

pub const DEV_GET_DEVICE_ID: u8 = 0xF2;

/// Replies.
pub const ACK: u8 = 0xFA;

pub const RESET_DONE: u8 = 0xAA;

pub const SELF_TEST_PASSED: u8 = 0x55;

/// The command byte to write over one that was read: translation on, both
/// ports enabled, both interrupts off.
///
/// Interrupts stay off because there is no IDT, and one that fired would be a
/// triple fault. The system flag is carried through: firmware sets it after a
/// successful power-on test, and a controller that sees it cleared believes it
/// is still in one.
pub open spec fn command_byte(current: u8) -> u8 {
    (current | 0x40) & 0xCC
}

/// Whether a command byte may be written over one that was read: both
/// interrupts off, both ports enabled, translation on, and the rest, the
/// system flag among it, as it was.
pub open spec fn is_safe(byte: u8, current: u8) -> bool {
    &&& byte & 0x03 == 0
    &&& byte & 0x30 == 0
    &&& byte & 0x40 != 0
    &&& byte & 0x04 == current & 0x04
    &&& byte & 0x88 == current & 0x88
}

/// The command byte written has both interrupts off, both ports enabled and
/// translation on, and is otherwise the one that was read.
pub proof fn the_command_byte_is_safe(current: u8)
    ensures
        is_safe(command_byte(current), current),
{
    let byte = command_byte(current);
    assert(byte & 0x03 == 0 && byte & 0x30 == 0 && byte & 0x40 != 0 && byte & 0x04 == current & 0x04
        && byte & 0x88 == current & 0x88) by (bit_vector)
        requires
            byte == (current | 0x40) & 0xCC,
    ;
}

/// How far bringing the controller up has got: each step waits for the byte
/// it names.
#[derive(Debug, Clone, Copy, PartialEq, Eq, Structural)]
pub enum Setup {
    /// Nothing done yet.
    Start,
    /// The command byte.
    CommandByte,
    /// The self-test's answer.
    SelfTest { byte: u8 },
    /// The keyboard's answer to being enabled.
    KeyboardEnable,
    /// Its answer to a reset, on this attempt of two.
    KeyboardReset { second: bool },
    /// The result of its self-test.
    KeyboardResult { second: bool },
    /// Its answer to being enabled again.
    KeyboardAgain,
    /// The auxiliary port's test.
    AuxTest { keyboard: bool },
    /// The pointer's answer to a reset.
    AuxReset { keyboard: bool },
    /// The result of its self-test.
    AuxResult { keyboard: bool },
    /// The device ID it follows that with.
    AuxFirstId { keyboard: bool },
    /// Its answer to a step of the knock that unlocks the wheel.
    WheelKnock { keyboard: bool, step: usize },
    /// The ID it answers that knock with.
    WheelId { keyboard: bool },
    /// Its answer to a step of the knock that unlocks five buttons.
    ButtonKnock { keyboard: bool, step: usize },
    /// The ID it answers that knock with.
    ButtonId { keyboard: bool },
    /// Its answer to being set to its defaults.
    AuxDefaults { keyboard: bool, pointer: PointerKind },
    /// Its answer to being enabled.
    AuxEnable { keyboard: bool, pointer: PointerKind },
    /// Done: whether a keyboard answered, and what the pointer is.
    Done { keyboard: bool, pointer: PointerKind },
}

/// Three sample-rate settings in a fixed order make a mouse with a wheel
/// report ID 3; then it is asked.
pub const WHEEL_KNOCK: [u8; 7] = [0xF3, 200, 0xF3, 100, 0xF3, 80, 0xF2];

/// A second sequence makes one with five buttons report ID 4.
pub const BUTTON_KNOCK: [u8; 7] = [0xF3, 200, 0xF3, 200, 0xF3, 80, 0xF2];

/// Sends a byte to the pointer rather than the keyboard, and reads its answer.
pub open spec fn to_aux(byte: u8) -> Seq<PortOp> {
    seq![PortOp::Command(KBDC_WRITE_TO_AUX), PortOp::Data(byte), PortOp::Read]
}

/// Turns from the controller to the keyboard: enable scanning first, reset
/// only if that fails. Firmware has already initialised this keyboard; it is
/// what the boot menu was typed on.
pub open spec fn to_keyboard(force_usb: bool) -> (Setup, Seq<PortOp>) {
    if force_usb {
        (
            Setup::Done { keyboard: false, pointer: PointerKind::Absent },
            seq![
                PortOp::Command(KBDC_ENABLE_KBD_PORT),
                PortOp::Drain,
                PortOp::Command(KBDC_TEST_AUX_PORT),
                PortOp::Drain,
            ],
        )
    } else {
        (
            Setup::KeyboardEnable,
            seq![
                PortOp::Command(KBDC_ENABLE_KBD_PORT),
                PortOp::Drain,
                PortOp::Data(DEV_ENABLE),
                PortOp::Read,
            ],
        )
    }
}

/// Turns from the keyboard to the auxiliary port: testing it first avoids a
/// long wait on a machine with none.
pub open spec fn to_aux_port(keyboard: bool) -> (Setup, Seq<PortOp>) {
    (Setup::AuxTest { keyboard }, seq![PortOp::Command(KBDC_TEST_AUX_PORT), PortOp::Read])
}

/// A keyboard reset that did not come off: once more, and then on without it.
/// The port stays enabled and is read regardless.
pub open spec fn reset_failed(second: bool) -> (Setup, Seq<PortOp>) {
    if second {
        (
            Setup::AuxTest { keyboard: false },
            seq![PortOp::Drain, PortOp::Command(KBDC_TEST_AUX_PORT), PortOp::Read],
        )
    } else {
        (
            Setup::KeyboardReset { second: true },
            seq![PortOp::Drain, PortOp::Data(DEV_RESET), PortOp::Read],
        )
    }
}

/// Ends without a pointer.
pub open spec fn without_pointer(keyboard: bool) -> (Setup, Seq<PortOp>) {
    (Setup::Done { keyboard, pointer: PointerKind::Absent }, seq![PortOp::Drain])
}

/// What to do next, given the byte that came back, or none.
pub open spec fn setup_step(state: Setup, force_usb: bool, reply: Option<u8>) -> (
    Setup,
    Seq<PortOp>,
) {
    match state {
        // Both ports are quiesced before the command byte is touched, so a
        // device cannot inject a byte into the middle of the sequence.
        Setup::Start => (
            Setup::CommandByte,
            seq![
                PortOp::Command(KBDC_DISABLE_KBD_PORT),
                PortOp::Command(KBDC_DISABLE_AUX_PORT),
                PortOp::Drain,
                PortOp::Command(KBDC_GET_COMMAND_BYTE),
                PortOp::Read,
            ],
        ),
        // Only written if it could be read.
        Setup::CommandByte => match reply {
            Some(current) => (
                Setup::SelfTest { byte: command_byte(current) },
                seq![
                    PortOp::Command(KBDC_SET_COMMAND_BYTE),
                    PortOp::Data(command_byte(current)),
                    PortOp::Command(KBDC_SELF_TEST),
                    PortOp::Read,
                ],
            ),
            None => to_keyboard(force_usb),
        },
        // Several controllers reset the byte as part of the test, so it is
        // written again if the test says it passed.
        Setup::SelfTest { byte } => if reply == Some(SELF_TEST_PASSED) {
            (
                to_keyboard(force_usb).0,
                seq![PortOp::Command(KBDC_SET_COMMAND_BYTE), PortOp::Data(byte)] + to_keyboard(
                    force_usb,
                ).1,
            )
        } else {
            to_keyboard(force_usb)
        },
        Setup::KeyboardEnable => if reply == Some(ACK) {
            to_aux_port(true)
        } else {
            (
                Setup::KeyboardReset { second: false },
                seq![PortOp::Drain, PortOp::Data(DEV_RESET), PortOp::Read],
            )
        },
        Setup::KeyboardReset { second } => if reply == Some(ACK) {
            (Setup::KeyboardResult { second }, seq![PortOp::Read])
        } else {
            reset_failed(second)
        },
        Setup::KeyboardResult { second } => if reply == Some(RESET_DONE) {
            (Setup::KeyboardAgain, seq![PortOp::Data(DEV_ENABLE), PortOp::Read])
        } else {
            reset_failed(second)
        },
        Setup::KeyboardAgain => to_aux_port(true),
        Setup::AuxTest { keyboard } => if reply == Some(0u8) {
            (
                Setup::AuxReset { keyboard },
                seq![PortOp::Command(KBDC_ENABLE_AUX_PORT)] + to_aux(DEV_RESET),
            )
        } else {
            without_pointer(keyboard)
        },
        Setup::AuxReset { keyboard } => if reply == Some(ACK) {
            (Setup::AuxResult { keyboard }, seq![PortOp::Read])
        } else {
            without_pointer(keyboard)
        },
        Setup::AuxResult { keyboard } => if reply == Some(RESET_DONE) {
            (Setup::AuxFirstId { keyboard }, seq![PortOp::Read])
        } else {
            without_pointer(keyboard)
        },
        Setup::AuxFirstId { keyboard } => (
            Setup::WheelKnock { keyboard, step: 0 },
            to_aux(WHEEL_KNOCK@[0]),
        ),
        Setup::WheelKnock { keyboard, step } => if step < 6 {
            (
                Setup::WheelKnock { keyboard, step: (step + 1) as usize },
                to_aux(WHEEL_KNOCK@[step + 1]),
            )
        } else {
            (Setup::WheelId { keyboard }, seq![PortOp::Read])
        },
        Setup::WheelId { keyboard } => if reply == Some(3u8) {
            (Setup::ButtonKnock { keyboard, step: 0 }, to_aux(BUTTON_KNOCK@[0]))
        } else {
            (
                Setup::AuxDefaults { keyboard, pointer: PointerKind::Standard },
                to_aux(DEV_SET_DEFAULTS),
            )
        },
        Setup::ButtonKnock { keyboard, step } => if step < 6 {
            (
                Setup::ButtonKnock { keyboard, step: (step + 1) as usize },
                to_aux(BUTTON_KNOCK@[step + 1]),
            )
        } else {
            (Setup::ButtonId { keyboard }, seq![PortOp::Read])
        },
        Setup::ButtonId { keyboard } => (
            Setup::AuxDefaults {
                keyboard,
                pointer: if reply == Some(4u8) {
                    PointerKind::FiveButton
                } else {
                    PointerKind::Wheel
                },
            },
            to_aux(DEV_SET_DEFAULTS),
        ),
        Setup::AuxDefaults { keyboard, pointer } => (
            Setup::AuxEnable { keyboard, pointer },
            to_aux(DEV_ENABLE),
        ),
        Setup::AuxEnable { keyboard, pointer } => (
            Setup::Done { keyboard, pointer },
            seq![PortOp::Drain],
        ),
        Setup::Done { .. } => (state, seq![]),
    }
}

/// Sends a byte to the pointer, after what is already to be done.
fn push_aux(ops: &mut Vec<PortOp>, byte: u8)
    ensures
        final(ops)@ == old(ops)@ + to_aux(byte),
{
    ops.push(PortOp::Command(KBDC_WRITE_TO_AUX));
    ops.push(PortOp::Data(byte));
    ops.push(PortOp::Read);
}

/// Turns to the keyboard, after what is already to be done.
fn push_keyboard(ops: &mut Vec<PortOp>, force_usb: bool) -> (r: Setup)
    ensures
        r == to_keyboard(force_usb).0,
        final(ops)@ == old(ops)@ + to_keyboard(force_usb).1,
{
    ops.push(PortOp::Command(KBDC_ENABLE_KBD_PORT));
    ops.push(PortOp::Drain);
    if force_usb {
        ops.push(PortOp::Command(KBDC_TEST_AUX_PORT));
        ops.push(PortOp::Drain);
        Setup::Done { keyboard: false, pointer: PointerKind::Absent }
    } else {
        ops.push(PortOp::Data(DEV_ENABLE));
        ops.push(PortOp::Read);
        Setup::KeyboardEnable
    }
}

/// A keyboard reset that did not come off.
fn push_reset_failed(ops: &mut Vec<PortOp>, second: bool) -> (r: Setup)
    ensures
        r == reset_failed(second).0,
        final(ops)@ == old(ops)@ + reset_failed(second).1,
{
    ops.push(PortOp::Drain);
    if second {
        ops.push(PortOp::Command(KBDC_TEST_AUX_PORT));
        ops.push(PortOp::Read);
        Setup::AuxTest { keyboard: false }
    } else {
        ops.push(PortOp::Data(DEV_RESET));
        ops.push(PortOp::Read);
        Setup::KeyboardReset { second: true }
    }
}

/// Brings up the controller and both its ports, one exchange at a time: what
/// to do next, given the byte the last read returned, or none.
///
/// `force_usb` leaves both PS/2 devices alone.
pub fn setup(state: Setup, force_usb: bool, reply: Option<u8>) -> (r: (Setup, Vec<PortOp>))
    ensures
        r.0 == setup_step(state, force_usb, reply).0,
        r.1@ == setup_step(state, force_usb, reply).1,
{
    let mut ops: Vec<PortOp> = Vec::new();
    let ghost nothing = ops@;
    let next: Setup = match state {
        Setup::Start => {
            ops.push(PortOp::Command(KBDC_DISABLE_KBD_PORT));
            ops.push(PortOp::Command(KBDC_DISABLE_AUX_PORT));
            ops.push(PortOp::Drain);
            ops.push(PortOp::Command(KBDC_GET_COMMAND_BYTE));
            ops.push(PortOp::Read);
            Setup::CommandByte
        },
        Setup::CommandByte => match reply {
            Some(current) => {
                let byte: u8 = (current | 0x40) & 0xCC;
                ops.push(PortOp::Command(KBDC_SET_COMMAND_BYTE));
                ops.push(PortOp::Data(byte));
                ops.push(PortOp::Command(KBDC_SELF_TEST));
                ops.push(PortOp::Read);
                Setup::SelfTest { byte }
            },
            None => push_keyboard(&mut ops, force_usb),
        },
        Setup::SelfTest { byte } => {
            if is_reply(reply, SELF_TEST_PASSED) {
                ops.push(PortOp::Command(KBDC_SET_COMMAND_BYTE));
                ops.push(PortOp::Data(byte));
            }
            push_keyboard(&mut ops, force_usb)
        },
        Setup::KeyboardEnable => {
            if is_reply(reply, ACK) {
                ops.push(PortOp::Command(KBDC_TEST_AUX_PORT));
                ops.push(PortOp::Read);
                Setup::AuxTest { keyboard: true }
            } else {
                ops.push(PortOp::Drain);
                ops.push(PortOp::Data(DEV_RESET));
                ops.push(PortOp::Read);
                Setup::KeyboardReset { second: false }
            }
        },
        Setup::KeyboardReset { second } => {
            if is_reply(reply, ACK) {
                ops.push(PortOp::Read);
                Setup::KeyboardResult { second }
            } else {
                push_reset_failed(&mut ops, second)
            }
        },
        Setup::KeyboardResult { second } => {
            if is_reply(reply, RESET_DONE) {
                ops.push(PortOp::Data(DEV_ENABLE));
                ops.push(PortOp::Read);
                Setup::KeyboardAgain
            } else {
                push_reset_failed(&mut ops, second)
            }
        },
        Setup::KeyboardAgain => {
            ops.push(PortOp::Command(KBDC_TEST_AUX_PORT));
            ops.push(PortOp::Read);
            Setup::AuxTest { keyboard: true }
        },
        Setup::AuxTest { keyboard } => {
            if is_reply(reply, 0) {
                ops.push(PortOp::Command(KBDC_ENABLE_AUX_PORT));
                push_aux(&mut ops, DEV_RESET);
                Setup::AuxReset { keyboard }
            } else {
                ops.push(PortOp::Drain);
                Setup::Done { keyboard, pointer: PointerKind::Absent }
            }
        },
        Setup::AuxReset { keyboard } => {
            if is_reply(reply, ACK) {
                ops.push(PortOp::Read);
                Setup::AuxResult { keyboard }
            } else {
                ops.push(PortOp::Drain);
                Setup::Done { keyboard, pointer: PointerKind::Absent }
            }
        },
        Setup::AuxResult { keyboard } => {
            if is_reply(reply, RESET_DONE) {
                ops.push(PortOp::Read);
                Setup::AuxFirstId { keyboard }
            } else {
                ops.push(PortOp::Drain);
                Setup::Done { keyboard, pointer: PointerKind::Absent }
            }
        },
        Setup::AuxFirstId { keyboard } => {
            push_aux(&mut ops, WHEEL_KNOCK[0]);
            Setup::WheelKnock { keyboard, step: 0 }
        },
        Setup::WheelKnock { keyboard, step } => {
            if step < 6 {
                push_aux(&mut ops, WHEEL_KNOCK[step + 1]);
                Setup::WheelKnock { keyboard, step: step + 1 }
            } else {
                ops.push(PortOp::Read);
                Setup::WheelId { keyboard }
            }
        },
        Setup::WheelId { keyboard } => {
            if is_reply(reply, 3) {
                push_aux(&mut ops, BUTTON_KNOCK[0]);
                Setup::ButtonKnock { keyboard, step: 0 }
            } else {
                push_aux(&mut ops, DEV_SET_DEFAULTS);
                Setup::AuxDefaults { keyboard, pointer: PointerKind::Standard }
            }
        },
        Setup::ButtonKnock { keyboard, step } => {
            if step < 6 {
                push_aux(&mut ops, BUTTON_KNOCK[step + 1]);
                Setup::ButtonKnock { keyboard, step: step + 1 }
            } else {
                ops.push(PortOp::Read);
                Setup::ButtonId { keyboard }
            }
        },
        Setup::ButtonId { keyboard } => {
            push_aux(&mut ops, DEV_SET_DEFAULTS);
            Setup::AuxDefaults {
                keyboard,
                pointer: if is_reply(reply, 4) {
                    PointerKind::FiveButton
                } else {
                    PointerKind::Wheel
                },
            }
        },
        Setup::AuxDefaults { keyboard, pointer } => {
            push_aux(&mut ops, DEV_ENABLE);
            Setup::AuxEnable { keyboard, pointer }
        },
        Setup::AuxEnable { keyboard, pointer } => {
            ops.push(PortOp::Drain);
            Setup::Done { keyboard, pointer }
        },
        Setup::Done { keyboard, pointer } => Setup::Done { keyboard, pointer },
    };
    assert(ops@ =~= setup_step(state, force_usb, reply).1);
    (next, ops)
}

/// Whether a read returned this byte.
fn is_reply(reply: Option<u8>, byte: u8) -> (r: bool)
    ensures
        r == (reply == Some(byte)),
{
    match reply {
        Some(b) => b == byte,
        None => false,
    }
}

/// How many exchanges are left at most.
pub open spec fn exchanges_left(state: Setup) -> int {
    match state {
        Setup::Start => 40,
        Setup::CommandByte => 39,
        Setup::SelfTest { .. } => 38,
        Setup::KeyboardEnable => 37,
        Setup::KeyboardReset { second } => if second {
            33
        } else {
            35
        },
        Setup::KeyboardResult { second } => if second {
            32
        } else {
            34
        },
        Setup::KeyboardAgain => 31,
        Setup::AuxTest { .. } => 30,
        Setup::AuxReset { .. } => 29,
        Setup::AuxResult { .. } => 28,
        Setup::AuxFirstId { .. } => 27,
        Setup::WheelKnock { step, .. } => if step < 6 {
            26 - step
        } else {
            20
        },
        Setup::WheelId { .. } => 19,
        Setup::ButtonKnock { step, .. } => if step < 6 {
            18 - step
        } else {
            12
        },
        Setup::ButtonId { .. } => 11,
        Setup::AuxDefaults { .. } => 3,
        Setup::AuxEnable { .. } => 2,
        Setup::Done { .. } => 0,
    }
}

/// Bringing the controller up ends, whatever the hardware answers and however
/// often it does not.
pub proof fn setup_ends(state: Setup, force_usb: bool, reply: Option<u8>)
    requires
        !(state is Done),
    ensures
        0 <= exchanges_left(setup_step(state, force_usb, reply).0) < exchanges_left(state),
{
}

/// A step asks for one byte at the end of what it does, or it is the last
/// step.
pub proof fn a_step_reads_last(state: Setup, force_usb: bool, reply: Option<u8>)
    ensures
        ({
            let (next, ops) = setup_step(state, force_usb, reply);
            &&& next is Done || ops.len() > 0 && ops.last() == PortOp::Read
            &&& forall|i: int| 0 <= i < ops.len() - 1 ==> ops[i] != PortOp::Read
        }),
{
    let (next, ops) = setup_step(state, force_usb, reply);
    let keyboard = to_keyboard(force_usb).1;
    assert(forall|i: int| 0 <= i < keyboard.len() - 1 ==> keyboard[i] != PortOp::Read);
}

/// The command byte is only ever written over one that was read, and what is
/// written over it is safe, the second time as the first.
///
/// `current` is the byte the controller gave when it was asked for it; the
/// steps after that one write nothing that was made of any other.
pub proof fn the_command_byte_is_only_written_if_read(
    state: Setup,
    force_usb: bool,
    reply: Option<u8>,
    current: u8,
)
    requires
        state == Setup::CommandByte && reply is Some ==> reply == Some(current),
        state matches Setup::SelfTest { byte } ==> byte == command_byte(current),
    ensures
        ({
            let (next, ops) = setup_step(state, force_usb, reply);
            &&& next matches Setup::SelfTest { byte } ==> byte == command_byte(current)
                && state == Setup::CommandByte && reply is Some
            &&& forall|i: int|
                0 <= i < ops.len() && #[trigger] ops[i] == PortOp::Command(KBDC_SET_COMMAND_BYTE)
                    ==> {
                    &&& i + 1 < ops.len()
                    &&& ops[i + 1] == PortOp::Data(command_byte(current))
                    &&& is_safe(command_byte(current), current)
                    &&& (state == Setup::CommandByte && reply is Some) || state is SelfTest
                }
        }),
{
    the_command_byte_is_safe(current);
    let (next, ops) = setup_step(state, force_usb, reply);
    if let Setup::SelfTest { byte } = state {
        if reply == Some(SELF_TEST_PASSED) {
            assert(ops[1] == PortOp::Data(byte));
        }
    }
}

/// What an answer leads to. An acknowledgement is 0xFA, a passed reset 0xAA and
/// a passed controller test 0x55; an auxiliary port that tests clear answers
/// zero. A pointer that gives ID 3 has a wheel, one that then gives ID 4 five
/// buttons, and one that gives neither is a plain one.
pub proof fn what_an_answer_leads_to(
    force_usb: bool,
    reply: Option<u8>,
    keyboard: bool,
    pointer: PointerKind,
    second: bool,
)
    ensures
        setup_step(Setup::Start, force_usb, reply).0 == Setup::CommandByte,
        force_usb ==> setup_step(Setup::CommandByte, force_usb, None).0 == (Setup::Done {
            keyboard: false,
            pointer: PointerKind::Absent,
        }),
        !force_usb ==> setup_step(Setup::CommandByte, force_usb, None).0 == Setup::KeyboardEnable,
        setup_step(Setup::KeyboardEnable, force_usb, reply).0 == (if reply == Some(0xFAu8) {
            Setup::AuxTest { keyboard: true }
        } else {
            Setup::KeyboardReset { second: false }
        }),
        setup_step(Setup::KeyboardReset { second }, force_usb, Some(0xFA)).0
            == (Setup::KeyboardResult { second }),
        reply != Some(0xFAu8) ==> setup_step(Setup::KeyboardReset { second }, force_usb, reply).0
            == (if second {
            Setup::AuxTest { keyboard: false }
        } else {
            Setup::KeyboardReset { second: true }
        }),
        setup_step(Setup::KeyboardResult { second }, force_usb, Some(0xAA)).0
            == Setup::KeyboardAgain,
        reply != Some(0xAAu8) ==> setup_step(Setup::KeyboardResult { second }, force_usb, reply).0
            == (if second {
            Setup::AuxTest { keyboard: false }
        } else {
            Setup::KeyboardReset { second: true }
        }),
        setup_step(Setup::KeyboardAgain, force_usb, reply).0 == (Setup::AuxTest { keyboard: true }),
        setup_step(Setup::AuxTest { keyboard }, force_usb, reply).0 == (if reply == Some(0u8) {
            Setup::AuxReset { keyboard }
        } else {
            Setup::Done { keyboard, pointer: PointerKind::Absent }
        }),
        setup_step(Setup::AuxReset { keyboard }, force_usb, reply).0 == (if reply == Some(0xFAu8) {
            Setup::AuxResult { keyboard }
        } else {
            Setup::Done { keyboard, pointer: PointerKind::Absent }
        }),
        setup_step(Setup::AuxResult { keyboard }, force_usb, reply).0 == (if reply == Some(0xAAu8) {
            Setup::AuxFirstId { keyboard }
        } else {
            Setup::Done { keyboard, pointer: PointerKind::Absent }
        }),
        setup_step(Setup::WheelId { keyboard }, force_usb, reply).0 == (if reply == Some(3u8) {
            Setup::ButtonKnock { keyboard, step: 0 }
        } else {
            Setup::AuxDefaults { keyboard, pointer: PointerKind::Standard }
        }),
        setup_step(Setup::ButtonId { keyboard }, force_usb, reply).0 == (Setup::AuxDefaults {
            keyboard,
            pointer: if reply == Some(4u8) {
                PointerKind::FiveButton
            } else {
                PointerKind::Wheel
            },
        }),
        setup_step(Setup::AuxDefaults { keyboard, pointer }, force_usb, reply).0
            == (Setup::AuxEnable { keyboard, pointer }),
        setup_step(Setup::AuxEnable { keyboard, pointer }, force_usb, reply).0 == (Setup::Done {
            keyboard,
            pointer,
        }),
{
}

/// What is said to the devices. Both ports are shut before the command byte is
/// asked for and opened again afterwards; both devices are told to report; a
/// byte for the pointer always goes through the controller; and the two knocks
/// set the sample rate to 200, 100 and 80, and to 200, 200 and 80, and then ask
/// who is there.
pub proof fn what_is_said_to_the_devices(
    force_usb: bool,
    reply: Option<u8>,
    keyboard: bool,
    pointer: PointerKind,
    step: usize,
)
    requires
        step < 7,
    ensures
        setup_step(Setup::Start, force_usb, reply).1 == seq![
            PortOp::Command(0xAD),
            PortOp::Command(0xA7),
            PortOp::Drain,
            PortOp::Command(0x20),
            PortOp::Read,
        ],
        setup_step(Setup::CommandByte, false, None).1 == seq![
            PortOp::Command(0xAE),
            PortOp::Drain,
            PortOp::Data(0xF4),
            PortOp::Read,
        ],
        setup_step(Setup::KeyboardEnable, force_usb, Some(0xFA)).1 == seq![
            PortOp::Command(0xA9),
            PortOp::Read,
        ],
        reply != Some(0xFAu8) ==> setup_step(Setup::KeyboardEnable, force_usb, reply).1 == seq![
            PortOp::Drain,
            PortOp::Data(0xFF),
            PortOp::Read,
        ],
        setup_step(Setup::AuxTest { keyboard }, force_usb, Some(0)).1 == seq![
            PortOp::Command(0xA8),
            PortOp::Command(0xD4),
            PortOp::Data(0xFF),
            PortOp::Read,
        ],
        knock_of(setup_step(Setup::AuxFirstId { keyboard }, force_usb, reply)) == Some(0xF3u8),
        step < 6 ==> knock_of(setup_step(Setup::WheelKnock { keyboard, step }, force_usb, reply))
            == Some(seq![200u8, 0xF3, 100, 0xF3, 80, 0xF2][step as int]),
        knock_of(setup_step(Setup::WheelId { keyboard }, force_usb, Some(3))) == Some(0xF3u8),
        step < 6 ==> knock_of(setup_step(Setup::ButtonKnock { keyboard, step }, force_usb, reply))
            == Some(seq![200u8, 0xF3, 200, 0xF3, 80, 0xF2][step as int]),
        step < 6 ==> setup_step(Setup::WheelKnock { keyboard, step }, force_usb, reply).0
            == (Setup::WheelKnock { keyboard, step: (step + 1) as usize }),
        step < 6 ==> setup_step(Setup::ButtonKnock { keyboard, step }, force_usb, reply).0
            == (Setup::ButtonKnock { keyboard, step: (step + 1) as usize }),
        step == 6 ==> setup_step(Setup::WheelKnock { keyboard, step }, force_usb, reply).0
            == (Setup::WheelId { keyboard }),
        step == 6 ==> setup_step(Setup::ButtonKnock { keyboard, step }, force_usb, reply).0
            == (Setup::ButtonId { keyboard }),
        knock_of(setup_step(Setup::AuxDefaults { keyboard, pointer }, force_usb, reply)) == Some(
            0xF4u8,
        ),
        knock_of(setup_step(Setup::ButtonId { keyboard }, force_usb, reply)) == Some(0xF6u8),
{
}

/// The byte a step sends to the pointer, where that is all it does.
pub open spec fn knock_of(step: (Setup, Seq<PortOp>)) -> Option<u8> {
    if step.1.len() == 3 && step.1[0] == PortOp::Command(0xD4) && step.1[2] == PortOp::Read {
        match step.1[1] {
            PortOp::Data(byte) => Some(byte),
            _ => None,
        }
    } else {
        None
    }
}

/// What a step has found so far is on the 8042: no pointer it names is on
/// another bus.
pub open spec fn is_ps2(state: Setup) -> bool {
    match state {
        Setup::AuxDefaults { pointer, .. } | Setup::AuxEnable { pointer, .. } | Setup::Done {
            pointer,
            ..
        } => pointer != PointerKind::Usb && pointer != PointerKind::I2cHid,
        _ => true,
    }
}

/// Whatever the hardware answers, the pointer that bringing the controller up
/// ends with is one of its own, or none.
pub proof fn setup_finds_its_own(state: Setup, force_usb: bool, reply: Option<u8>)
    requires
        is_ps2(state),
    ensures
        is_ps2(Setup::Start),
        is_ps2(setup_step(state, force_usb, reply).0),
{
}

/// A keyboard is reported only where one acknowledged being enabled, or a
/// reset followed by a passed self-test; and the only pointers reported are
/// the three the protocol has.
pub proof fn what_setup_reports(state: Setup, force_usb: bool, reply: Option<u8>)
    ensures
        setup_step(state, force_usb, reply).0 matches Setup::AuxTest { keyboard: true } ==> (state
            == Setup::KeyboardEnable && reply == Some(ACK)) || state == Setup::KeyboardAgain,
        setup_step(state, force_usb, reply).0 == Setup::KeyboardAgain ==> (state
            matches Setup::KeyboardResult { .. }) && reply == Some(RESET_DONE),
        setup_step(state, force_usb, reply).0 matches Setup::AuxDefaults { pointer, .. }
            ==> pointer.packet_size() == 3 || pointer.packet_size() == 4,
{
}

/// Ports are tried until both kinds have been found, thirty-two of them at the
/// most, and the stack is there where either kind was.
pub proof fn ports_are_tried_until_both_are_found(
    usb: UsbInput,
    tried: int,
    index: usize,
    other: usize,
)
    ensures
        tried >= 32 ==> !usb.goes_on(tried),
        usb.keyboard is None && tried < 32 ==> usb.goes_on(tried),
        usb.pointer is None && tried < 32 ==> usb.goes_on(tried),
        !usb.offered(index, HidKind::Keyboard).offered(other, HidKind::Pointer).goes_on(tried),
        usb.offered(index, HidKind::Other) == usb,
        usb.offered(index, HidKind::Keyboard).if_any() == Some(
            usb.offered(index, HidKind::Keyboard),
        ),
        usb.offered(index, HidKind::Pointer).if_any() == Some(
            usb.offered(index, HidKind::Pointer),
        ),
        usb.keyboard is None && usb.pointer is None ==> usb.if_any() is None,
{
}

/// A touchpad is looked for exactly where there is no pointer, which one that is
/// found then is; a missing keyboard alone does not ask for one. The set that is
/// reported is the second exactly where that was seen.
pub proof fn a_touchpad_is_the_last_resort(input: Input, pad: I2cHid, why: Failure)
    ensures
        input.lacks_pointer() <==> input.pointer is Absent,
        input.lacks_pointer() ==> input.is_short(),
        input.keyboard && !input.lacks_pointer() ==> !input.is_short(),
        !input.with_i2c(Ok(pad)).lacks_pointer(),
        input.with_i2c(Ok(pad)).i2c == Some(pad),
        input.with_i2c(Err(why)).lacks_pointer() == input.lacks_pointer(),
        input.with_i2c(Err(why)).i2c_failure == Some(why),
        input.code_set() == 2 <==> input.set2,
        input.code_set() == 1 <==> !input.set2,
{
}

/// Once the touchpad has been read it is not due again before its interval has
/// passed, and is from there on; asking before then puts nothing off.
pub proof fn a_touchpad_that_was_read_can_wait(input: Input, now: u64, passed: u64)
    requires
        input.is_due(now),
        input.i2c_interval < 0x8000_0000_0000_0000,
        passed < 0x8000_0000_0000_0000,
    ensures
        ({
            let then = ((now + passed) % 0x1_0000_0000_0000_0000) as u64;
            let read = input.asked_at(now);
            &&& read.is_due(then) <==> passed >= input.i2c_interval
            &&& passed < input.i2c_interval ==> read.asked_at(then) == read
            &&& read.pointer == input.pointer && read.i2c == input.i2c && read.recent == input.recent
        }),
{
    i2c_hid::deadlines_survive_a_rollover(now, input.i2c_interval, passed);
}

} // verus!
