//! HID over I2C: the notebook touchpad.
//!
//! A built-in touchpad is the least discoverable device in a modern laptop.
//! Reaching one needs firmware bytecode to be walked, a PCI controller to be
//! found and driven, and a report descriptor to be understood; miss any one
//! and there is no cursor. What stands here is every decision along that
//! chain. The bus, the pins and the bytecode are asked by the caller, who
//! hands back what they answered.
//!
//! The device is polled rather than interrupt-driven: a handler running
//! between two counter reads becomes part of what the chronometer measures.
//! Polling blind is expensive, so the interrupt pin is *read*, and the bus is
//! touched only when it says there is something to fetch. That gate is an
//! optimisation and never a gate on correctness: it is audited on a schedule,
//! and dropped when it disagrees with what the bus says.

use vstd::prelude::*;

verus! {

// ---------------------------------------------------------------------------
// The HID descriptor
// ---------------------------------------------------------------------------

/// The fixed size of the HID descriptor, and what its first field must read.
pub const HID_DESCRIPTOR_LEN: u16 = 30;

/// Version 1.00, the only one defined.
pub const HID_VERSION: u16 = 0x0100;

/// How large a report descriptor this will read. Two kilobytes is past
/// anything a pointer device produces; a larger one is refused rather than
/// truncated, because a truncated descriptor parses into field offsets that
/// are quietly wrong.
pub const MAX_REPORT_DESCRIPTOR: u16 = 2048;

/// How large an input report this will read.
pub const MAX_INPUT_REPORT: u16 = 64;

/// The registers a device's HID descriptor names.
#[derive(Debug, Clone, Copy, PartialEq, Eq, Structural)]
pub struct HidDescriptor {
    pub report_descriptor_length: u16,
    pub report_descriptor_register: u16,
    /// Where input reports live. Recorded but not written before a read: the
    /// device's read pointer already sits there.
    pub input_register: u16,
    pub max_input_length: u16,
    pub command_register: u16,
    pub data_register: u16,
    pub vendor: u16,
    pub product: u16,
}

/// The little-endian word at an offset.
pub open spec fn word_at(bytes: Seq<u8>, at: int) -> u16 {
    (bytes[at] + 256 * bytes[at + 1]) as u16
}

/// The little-endian word at an offset.
fn word(bytes: &[u8], at: usize) -> (r: u16)
    requires
        at + 1 < bytes@.len(),
    ensures
        r == word_at(bytes@, at as int),
{
    bytes[at] as u16 + 256 * bytes[at + 1] as u16
}

/// Whether thirty bytes are a HID descriptor: the two fields the
/// specification fixes are as it fixes them, and none of the registers that
/// are read from or written to is zero.
pub open spec fn is_descriptor(bytes: Seq<u8>) -> bool {
    &&& word_at(bytes, 0) == HID_DESCRIPTOR_LEN
    &&& word_at(bytes, 2) == HID_VERSION
    &&& word_at(bytes, 6) != 0
    &&& word_at(bytes, 8) != 0
    &&& word_at(bytes, 14) != 0
}

/// The registers thirty bytes name.
pub open spec fn descriptor_of(bytes: Seq<u8>) -> HidDescriptor {
    HidDescriptor {
        report_descriptor_length: word_at(bytes, 4),
        report_descriptor_register: word_at(bytes, 6),
        input_register: word_at(bytes, 8),
        max_input_length: word_at(bytes, 10),
        command_register: word_at(bytes, 14),
        data_register: word_at(bytes, 16),
        vendor: word_at(bytes, 20),
        product: word_at(bytes, 22),
    }
}

/// The descriptor thirty bytes are, where they are one.
pub open spec fn parsed(bytes: Seq<u8>) -> Option<HidDescriptor> {
    if is_descriptor(bytes) {
        Some(descriptor_of(bytes))
    } else {
        None
    }
}

/// A descriptor starts with its own length, thirty, and version 1.00, and each
/// of its fields is a word with its low byte first: the report descriptor's
/// length and register at 4 and 6, the input register and length at 8 and 10, the
/// command and data registers at 14 and 16, the vendor and the product at 20 and
/// 22. One that starts otherwise, or whose report, input or command register is
/// zero, is none.
pub proof fn a_descriptor_is_its_words(bytes: Seq<u8>)
    requires
        bytes.len() == 30,
    ensures
        ({
            let sound = bytes[0] == 30 && bytes[1] == 0 && bytes[2] == 0 && bytes[3] == 1
                && bytes[6] + bytes[7] > 0 && bytes[8] + bytes[9] > 0 && bytes[14] + bytes[15] > 0;
            &&& !sound ==> parsed(bytes) is None
            &&& sound ==> (parsed(bytes) matches Some(d) && {
                &&& d.report_descriptor_length == bytes[4] + 256 * bytes[5]
                &&& d.report_descriptor_register == bytes[6] + 256 * bytes[7]
                &&& d.input_register == bytes[8] + 256 * bytes[9]
                &&& d.max_input_length == bytes[10] + 256 * bytes[11]
                &&& d.command_register == bytes[14] + 256 * bytes[15]
                &&& d.data_register == bytes[16] + 256 * bytes[17]
                &&& d.vendor == bytes[20] + 256 * bytes[21]
                &&& d.product == bytes[22] + 256 * bytes[23]
            })
        }),
{
}

impl HidDescriptor {
    /// Reads the fixed layout out of the thirty bytes the device returned.
    ///
    /// A device that answers with neither fixed field is not an I2C-HID
    /// device at this register, and going on would mean interpreting
    /// arbitrary bytes as register addresses.
    pub fn parse(bytes: &[u8; 30]) -> (r: Option<HidDescriptor>)
        ensures
            r == parsed(bytes@),
    {
        let b: &[u8] = bytes.as_slice();
        if word(b, 0) != HID_DESCRIPTOR_LEN || word(b, 2) != HID_VERSION {
            return None;
        }
        // A register of zero is not a register.
        if word(b, 6) == 0 || word(b, 8) == 0 || word(b, 14) == 0 {
            return None;
        }
        Some(
            HidDescriptor {
                report_descriptor_length: word(b, 4),
                report_descriptor_register: word(b, 6),
                input_register: word(b, 8),
                max_input_length: word(b, 10),
                command_register: word(b, 14),
                data_register: word(b, 16),
                vendor: word(b, 20),
                product: word(b, 22),
            },
        )
    }
}

// ---------------------------------------------------------------------------
// What a device is, and what it says
// ---------------------------------------------------------------------------

/// One relative movement, decoded from a report.
#[derive(Debug, Clone, Copy, PartialEq, Eq, Structural)]
pub struct Movement {
    pub dx: i32,
    pub dy: i32,
    pub wheel: i32,
    pub left: bool,
    pub right: bool,
    pub middle: bool,
}

impl Movement {
    /// No movement and no button.
    pub open spec fn is_still(self) -> bool {
        self == (Movement {
            dx: 0,
            dy: 0,
            wheel: 0,
            left: false,
            right: false,
            middle: false,
        })
    }

    /// Whether this says nothing.
    pub fn still(&self) -> (r: bool)
        ensures
            r == self.is_still(),
    {
        self.dx == 0 && self.dy == 0 && self.wheel == 0 && !self.left && !self.right
            && !self.middle
    }
}

/// What a poll produced.
#[derive(Debug, Clone, Copy)]
pub enum Report {
    Motion(Movement),
    /// Held keys, in the eight-byte shape a boot keyboard sends: modifiers, a
    /// reserved byte, then up to six usages.
    Keys([u8; 8]),
}

/// Which kind a device is, for reporting.
#[derive(Debug, Clone, Copy, PartialEq, Eq, Structural)]
pub enum Kind {
    Pointer,
    Keyboard,
}

impl Kind {
    pub open spec fn label(self) -> Seq<char> {
        match self {
            Kind::Pointer => "touchpad"@,
            Kind::Keyboard => "keyboard"@,
        }
    }

    pub fn name(self) -> (r: &'static str)
        ensures
            r@ == self.label(),
    {
        match self {
            Kind::Pointer => "touchpad",
            Kind::Keyboard => "keyboard",
        }
    }
}

/// Why a probe did not produce a touchpad.
///
/// Named individually because each says something different to whoever is
/// looking at the screen.
#[derive(Debug, Clone, Copy, PartialEq, Eq, Structural)]
pub enum Failure {
    /// No DSDT, or one whose checksum did not verify.
    NoDsdt,
    /// The namespace holds no `PNP0C50` device, or its resources could not be
    /// read.
    NoDevice,
    /// No table in the namespace declares the controller the device names.
    NoControllerDevice,
    /// The controller was found but has no readable `_ADR`.
    NoControllerAddress,
    /// There is no LPSS I2C controller at the slot and function of the `_ADR`.
    NoControllerPci,
    /// The controller did not come out of reset.
    ControllerFailed,
    /// The device did not answer with a HID descriptor.
    NoHidDescriptor,
    /// It would not reset or power on.
    ResetFailed,
    /// Its report descriptor is larger than this will read.
    DescriptorTooLarge,
    /// The report descriptor could not be read off the bus.
    ReportDescriptorFailed,
    /// It has neither a relative pointer report nor a key array.
    NoPointerReport,
}

impl Failure {
    pub open spec fn label(self) -> Seq<char> {
        match self {
            Failure::NoDsdt => "no dsdt"@,
            Failure::NoDevice => "no pnp0c50 device"@,
            Failure::NoControllerDevice => "controller device in no acpi table"@,
            Failure::NoControllerAddress => "controller has no _ADR"@,
            Failure::NoControllerPci => "no pci device at the controller's _ADR"@,
            Failure::ControllerFailed => "controller reset failed"@,
            Failure::NoHidDescriptor => "no hid descriptor"@,
            Failure::ResetFailed => "reset failed"@,
            Failure::DescriptorTooLarge => "report descriptor too large"@,
            Failure::ReportDescriptorFailed => "report descriptor unreadable"@,
            Failure::NoPointerReport => "no relative pointer report"@,
        }
    }

    pub fn name(self) -> (r: &'static str)
        ensures
            r@ == self.label(),
    {
        match self {
            Failure::NoDsdt => "no dsdt",
            Failure::NoDevice => "no pnp0c50 device",
            Failure::NoControllerDevice => "controller device in no acpi table",
            Failure::NoControllerAddress => "controller has no _ADR",
            Failure::NoControllerPci => "no pci device at the controller's _ADR",
            Failure::ControllerFailed => "controller reset failed",
            Failure::NoHidDescriptor => "no hid descriptor",
            Failure::ResetFailed => "reset failed",
            Failure::DescriptorTooLarge => "report descriptor too large",
            Failure::ReportDescriptorFailed => "report descriptor unreadable",
            Failure::NoPointerReport => "no relative pointer report",
        }
    }
}

/// How the device's address and descriptor register were arrived at.
#[derive(Debug, Clone, Copy, PartialEq, Eq, Structural)]
pub enum Discovery {
    /// The firmware's own numbers, used as given.
    Firmware,
    /// The firmware's address, with a register found by trying the known
    /// ones.
    ProbedRegister,
    /// Neither worked. The bus was scanned and the device answered somewhere
    /// else.
    Scanned,
}

// ---------------------------------------------------------------------------
// The readiness gate
// ---------------------------------------------------------------------------

/// How a pad was arrived at.
#[derive(Debug, Clone, Copy, PartialEq, Eq)]
pub enum Mapping {
    /// Out of the pad-group table of the named part.
    Tabled(&'static str),
    /// By correlation.
    Calibrated,
}

/// How the driver decides whether the bus is worth touching.
#[derive(Debug, Clone, Copy)]
pub enum Gate {
    /// No usable GPIO controller. Every poll reads the bus.
    Blind,
    /// The controller is open and the pad is not known yet. Every poll still
    /// reads the bus, and each one also contributes a labelled sample.
    Learning { watching: usize, reports: u32, quiet: u32 },
    /// The pad is known. The bus is read only when the pin says a report is
    /// waiting.
    Gated {
        pad: u32,
        /// The level that means "a report is waiting".
        asserted: bool,
        /// How the pad was arrived at, for reporting.
        mapping: Mapping,
        /// Polls skipped because the pin was quiet.
        skipped: u32,
        /// Consecutive audits that found a report the pin did not announce.
        strikes: u32,
    },
}

/// What the readiness gate is doing, for reporting.
#[derive(Debug, Clone, Copy)]
pub enum GateState {
    /// No GPIO controller; every poll reads the bus.
    Blind,
    /// Watching pads, waiting for the correlation to resolve.
    Learning { watching: usize, reports: u32, quiet: u32 },
    /// The pin is known and is deciding which polls touch the bus.
    Gated { mapping: Mapping, skipped: u32 },
}

/// Wrong-gate strikes tolerated before a gate is abandoned.
///
/// One is not enough: a report can arrive between reading the pin and reading
/// the bus. Three in a row is not a race, it is the wrong pad.
pub const GATE_STRIKES: u32 = 3;

/// How often a gated driver reads the bus even though the pin said quiet.
pub const AUDIT_EVERY: u32 = 64;

/// How many failed reads in a row before the touchpad is given up on.
pub const GIVE_UP_AFTER: u32 = 16;

/// What the correlation says once a sample has been filed with it.
#[derive(Debug, Clone, Copy)]
pub struct Observation {
    /// The pad and the level that means "waiting", once they are clear.
    pub settled: Option<(u32, bool)>,
    pub watching: usize,
    pub reports: u32,
    pub quiet: u32,
}

/// Where a gate stands once a poll's outcome has been filed against it.
///
/// While learning, a gate closes the moment the correlation resolves. While
/// gated, an audit that finds a report the pin did not announce is a strike,
/// any other audit clears the strikes, and enough strikes in a row drop it.
pub open spec fn judged(
    gate: Gate,
    observation: Option<Observation>,
    audit: bool,
    level: bool,
    had_report: bool,
) -> Gate {
    match gate {
        Gate::Blind => Gate::Blind,
        Gate::Learning { .. } => match observation {
            None => gate,
            Some(seen) => match seen.settled {
                Some((pad, asserted)) => Gate::Gated {
                    pad,
                    asserted,
                    mapping: Mapping::Calibrated,
                    skipped: 0,
                    strikes: 0,
                },
                None => Gate::Learning {
                    watching: seen.watching,
                    reports: seen.reports,
                    quiet: seen.quiet,
                },
            },
        },
        Gate::Gated { pad, asserted, mapping, skipped, strikes } => {
            let strikes = strikes_after(strikes, audit, had_report && level != asserted);
            if strikes >= GATE_STRIKES {
                Gate::Blind
            } else {
                Gate::Gated { pad, asserted, mapping, skipped, strikes }
            }
        },
    }
}

/// The strikes after a poll: only an audit changes them, and only one that
/// found a report the pin did not announce adds to them.
pub open spec fn strikes_after(strikes: u32, audit: bool, unannounced: bool) -> u32 {
    if !audit {
        strikes
    } else if !unannounced {
        0
    } else if strikes < u32::MAX {
        (strikes + 1) as u32
    } else {
        strikes
    }
}

/// A touchpad, brought up and ready to poll.
#[derive(Debug, Clone, Copy)]
pub struct I2cHid {
    pub address: u16,
    pub descriptor: HidDescriptor,
    /// Whether it is a pointer or a keyboard, and which report that is on.
    pub layout: Kind,
    pub report: Option<u8>,
    /// Where the controller sits, for reporting.
    pub controller: (u8, u8, u8),
    pub vendor: u16,
    pub product: u16,
    /// The pin it raises when it has a report.
    pub interrupt_pin: Option<u16>,
    /// How its address and descriptor register were arrived at.
    pub discovery: Discovery,
    /// Whether its resources were evaluated, rather than taken from the
    /// buffers the device declares.
    pub evaluated: bool,
    /// Whether, and how, that pin is being read.
    pub gate: Gate,
    /// Polls taken, for the audit schedule.
    pub polls: u32,
    /// Consecutive failed reads.
    pub failures: u32,
}

/// What a poll needs of the bus.
#[derive(Debug, Clone, Copy, PartialEq, Eq, Structural)]
pub enum Ask {
    /// Nothing: do not touch it.
    Nothing,
    /// Read this many bytes of the input register.
    Read {
        want: u16,
        /// Whether the pin has no say in this poll, to check up on it.
        audit: bool,
        /// Whether the pads are to be sampled before the read, and the sample
        /// filed after it.
        sample: bool,
    },
}

/// How many bytes of input a device is asked for.
pub open spec fn wanted(descriptor: HidDescriptor) -> u16 {
    if descriptor.max_input_length < MAX_INPUT_REPORT {
        descriptor.max_input_length
    } else {
        MAX_INPUT_REPORT
    }
}

/// Whether a reply of this length holds a report: its own header and more,
/// and no more than was asked for.
pub open spec fn holds_report(length: int, want: int) -> bool {
    3 <= length <= want
}

impl I2cHid {
    /// Given up on, or with nothing it could say.
    pub open spec fn is_silent(self) -> bool {
        self.failures >= GIVE_UP_AFTER || wanted(self.descriptor) < 3
    }

    /// The number of the next poll.
    pub open spec fn next_poll(self) -> u32 {
        if self.polls == u32::MAX {
            0
        } else {
            (self.polls + 1) as u32
        }
    }

    /// Whether the readiness gate says the next poll need not touch the bus.
    pub open spec fn is_skipped(self, level: bool) -> bool {
        self.gate matches Gate::Gated { asserted, .. } && self.next_poll() % AUDIT_EVERY != 0
            && level != asserted
    }

    /// What the next poll needs of the bus.
    pub open spec fn need(self, level: bool) -> Ask {
        if self.is_silent() || self.is_skipped(level) {
            Ask::Nothing
        } else {
            Ask::Read {
                want: wanted(self.descriptor),
                audit: self.next_poll() % AUDIT_EVERY == 0,
                sample: self.gate is Learning,
            }
        }
    }

    /// The length of the report a reply holds, where it holds one.
    pub open spec fn report_in(want: u16, reply: Option<Seq<u8>>) -> Option<u16> {
        match reply {
            Some(bytes) => if holds_report(word_at(bytes, 0) as int, want as int) {
                Some(word_at(bytes, 0))
            } else {
                None
            },
            None => None,
        }
    }

    /// This device once a read has come back, or has not.
    pub open spec fn heard(self, came: bool) -> I2cHid {
        I2cHid {
            failures: if came {
                0
            } else {
                (self.failures + 1) as u32
            },
            ..self
        }
    }

    /// What the readiness gate is doing.
    pub open spec fn gate_told(self) -> GateState {
        match self.gate {
            Gate::Blind => GateState::Blind,
            Gate::Learning { watching, reports, quiet } => GateState::Learning {
                watching,
                reports,
                quiet,
            },
            Gate::Gated { mapping, skipped, .. } => GateState::Gated { mapping, skipped },
        }
    }

    /// This device with one poll counted, and one skip where it was skipped.
    pub open spec fn after_ask(self, level: bool) -> I2cHid {
        if self.is_silent() {
            self
        } else {
            I2cHid {
                polls: self.next_poll(),
                gate: match self.gate {
                    Gate::Gated { pad, asserted, mapping, skipped, strikes } => Gate::Gated {
                        pad,
                        asserted,
                        mapping,
                        skipped: if self.is_skipped(level) && skipped < u32::MAX {
                            (skipped + 1) as u32
                        } else {
                            skipped
                        },
                        strikes,
                    },
                    gate => gate,
                },
                ..self
            }
        }
    }

    /// Starts a poll, given the level of the gating pad; says what it needs
    /// of the bus.
    ///
    /// The pin is read *before* the bus: reading the input register is what
    /// makes the device drop its line.
    pub fn poll(&mut self, level: bool) -> (r: Ask)
        ensures
            *final(self) == old(self).after_ask(level),
            r == old(self).need(level),
    {
        if self.failures >= GIVE_UP_AFTER {
            return Ask::Nothing;
        }
        let want: u16 = if self.descriptor.max_input_length < MAX_INPUT_REPORT {
            self.descriptor.max_input_length
        } else {
            MAX_INPUT_REPORT
        };
        if want < 3 {
            return Ask::Nothing;
        }
        self.polls = self.polls.wrapping_add(1);
        let audit: bool = self.polls % AUDIT_EVERY == 0;
        let mut sample: bool = false;
        match self.gate {
            Gate::Blind => {},
            Gate::Learning { .. } => {
                sample = true;
            },
            Gate::Gated { pad, asserted, mapping, skipped, strikes } => {
                if !audit && level != asserted {
                    self.gate = Gate::Gated {
                        pad,
                        asserted,
                        mapping,
                        skipped: skipped.saturating_add(1),
                        strikes,
                    };
                    return Ask::Nothing;
                }
            },
        }
        Ask::Read { want, audit, sample }
    }

    /// Takes what the bus returned, or nothing where the read failed. The
    /// result is the length of the report, header included, where there is
    /// one: `reply[2..length]` is what to decode.
    ///
    /// Zero is "nothing waiting", which is the answer to most polls. A length
    /// larger than was asked for is a device disagreeing with its own
    /// descriptor.
    pub fn receive(&mut self, want: u16, reply: Option<&[u8]>) -> (r: Option<u16>)
        requires
            want >= 3,
            reply matches Some(bytes) ==> bytes@.len() >= want,
            old(self).failures < GIVE_UP_AFTER,
        ensures
            *final(self) == old(self).heard(reply is Some),
            r == I2cHid::report_in(
                want,
                match reply {
                    Some(bytes) => Some(bytes@),
                    None => None,
                },
            ),
    {
        match reply {
            None => {
                self.failures += 1;
                None
            },
            Some(bytes) => {
                self.failures = 0;
                let length: u16 = word(bytes, 0);
                if length >= 3 && length <= want {
                    Some(length)
                } else {
                    None
                }
            },
        }
    }

    /// Files a poll's outcome against the readiness gate, and moves it if warranted.
    ///
    /// `observation` is the correlation's answer where a sample was taken, and
    /// `level` is the level of the gating pad before the bus was read.
    pub fn judge(
        &mut self,
        observation: Option<Observation>,
        audit: bool,
        level: bool,
        had_report: bool,
    )
        ensures
            *final(self) == (I2cHid {
                gate: judged(old(self).gate, observation, audit, level, had_report),
                ..*old(self)
            }),
    {
        match self.gate {
            Gate::Blind => {},
            Gate::Learning { .. } => {
                if let Some(seen) = observation {
                    self.gate = match seen.settled {
                        Some((pad, asserted)) => Gate::Gated {
                            pad,
                            asserted,
                            mapping: Mapping::Calibrated,
                            skipped: 0,
                            strikes: 0,
                        },
                        None => Gate::Learning {
                            watching: seen.watching,
                            reports: seen.reports,
                            quiet: seen.quiet,
                        },
                    };
                }
            },
            Gate::Gated { pad, asserted, mapping, skipped, strikes } => {
                let mut now: u32 = strikes;
                if audit {
                    if had_report && level != asserted {
                        now = now.saturating_add(1);
                    } else {
                        now = 0;
                    }
                }
                self.gate = if now >= GATE_STRIKES {
                    Gate::Blind
                } else {
                    Gate::Gated { pad, asserted, mapping, skipped, strikes: now }
                };
            },
        }
    }

    /// What the readiness gate is doing, for the interface.
    pub fn gate_state(&self) -> (r: GateState)
        ensures
            r == self.gate_told(),
    {
        match self.gate {
            Gate::Blind => GateState::Blind,
            Gate::Learning { watching, reports, quiet } => GateState::Learning {
                watching,
                reports,
                quiet,
            },
            Gate::Gated { mapping, skipped, .. } => GateState::Gated { mapping, skipped },
        }
    }

    /// Whether this device is a pointer or a keyboard.
    pub fn kind(&self) -> (r: Kind)
        ensures
            r == self.layout,
    {
        self.layout
    }

    /// The slave address, for reporting.
    pub fn slave_address(&self) -> (r: u16)
        ensures
            r == self.address,
    {
        self.address
    }

    /// Which report the pointer is on, for reporting.
    pub fn report_id(&self) -> (r: Option<u8>)
        ensures
            r == self.report,
    {
        self.report
    }

    /// The register input reports are read from, for reporting.
    pub fn input_register(&self) -> (r: u16)
        ensures
            r == self.descriptor.input_register,
    {
        self.descriptor.input_register
    }

    /// Whether the device has stopped answering and been given up on.
    pub open spec fn is_abandoned(self) -> bool {
        self.failures >= GIVE_UP_AFTER
    }

    pub fn abandoned(&self) -> (r: bool)
        ensures
            r == self.is_abandoned(),
    {
        self.failures >= GIVE_UP_AFTER
    }
}

/// The number of the `k`th poll from a count, in the arithmetic the count is
/// kept in.
pub open spec fn poll_number(polls: u32, k: int) -> int {
    (polls + k) % 0x1_0000_0000
}

/// A pin that is wrong, or never speaks, cannot keep the bus unread: of any
/// sixty-four polls in a row one ignores it.
pub proof fn the_pin_is_ignored_on_schedule(device: I2cHid)
    ensures
        exists|k: int|
            1 <= k <= AUDIT_EVERY && #[trigger] poll_number(device.polls, k) % (AUDIT_EVERY as int)
                == 0,
        device.next_poll() == poll_number(device.polls, 1),
        forall|level: bool|
            device.next_poll() % AUDIT_EVERY == 0 ==> !#[trigger] device.is_skipped(level),
{
    let k = 64 - device.polls as int % 64;
    assert((device.polls + k) % 64 == 0);
    assert(poll_number(device.polls, k) % 64 == 0);
}

/// A poll that is not an audit never moves a closed gate, and an audit that
/// finds nothing, or finds what the pin announced, clears its strikes.
pub proof fn a_gate_in_agreement_stays(
    gate: Gate,
    observation: Option<Observation>,
    level: bool,
    had_report: bool,
)
    requires
        gate matches Gate::Gated { strikes, .. } && strikes < GATE_STRIKES,
    ensures
        judged(gate, observation, false, level, had_report) == gate,
        !had_report || level == gate->asserted ==> judged(
            gate,
            observation,
            true,
            level,
            had_report,
        ) == (Gate::Gated {
            pad: gate->pad,
            asserted: gate->asserted,
            mapping: gate->mapping,
            skipped: gate->skipped,
            strikes: 0,
        }),
{
}

/// Strikes grow only at an audit that finds a report while the pin is quiet.
pub proof fn only_the_unannounced_is_a_strike(
    gate: Gate,
    observation: Option<Observation>,
    audit: bool,
    level: bool,
    had_report: bool,
)
    requires
        gate matches Gate::Gated { strikes, .. } && strikes < GATE_STRIKES,
    ensures
        match judged(gate, observation, audit, level, had_report) {
            Gate::Gated { strikes, .. } => strikes > gate->strikes,
            _ => true,
        } ==> audit && had_report && level != gate->asserted,
{
}

/// Three audits in a row that find reports the pin did not announce drop the
/// gate, and no fewer do.
pub proof fn three_strikes_drop_the_gate(gate: Gate, observation: Option<Observation>)
    requires
        gate matches Gate::Gated { strikes, .. } && strikes == 0,
    ensures
        ({
            let quiet = !gate->asserted;
            let once = judged(gate, observation, true, quiet, true);
            let twice = judged(once, observation, true, quiet, true);
            &&& once is Gated
            &&& twice is Gated
            &&& judged(twice, observation, true, quiet, true) == Gate::Blind
        }),
{
}

/// A gate that has been dropped stays dropped: from there every poll reads
/// the bus.
pub proof fn a_dropped_gate_reads_every_time(
    device: I2cHid,
    observation: Option<Observation>,
    audit: bool,
    level: bool,
    had_report: bool,
)
    requires
        device.gate == Gate::Blind,
    ensures
        judged(device.gate, observation, audit, level, had_report) == Gate::Blind,
        !device.is_skipped(level),
        device.after_ask(level).gate == Gate::Blind,
{
}

/// A poll leaves the bus alone only where the device was given up on after
/// sixteen failures, where it has no room for a report, or where a known pin is
/// quiet and it is not the sixty-fourth poll; otherwise it reads as much as the
/// device sends, sixty-four bytes at the most, and samples the pads while they
/// are being learnt. Every poll of a device that was not given up on is counted,
/// and so is every one that was skipped.
pub proof fn when_the_bus_is_read(device: I2cHid, level: bool)
    requires
        device.polls < u32::MAX,
    ensures
        ({
            let most = if device.descriptor.max_input_length < 64 {
                device.descriptor.max_input_length
            } else {
                64
            };
            let silent = device.failures >= 16 || most < 3;
            let quiet = device.gate matches Gate::Gated { asserted, .. } && asserted != level;
            let audit = (device.polls + 1) % 64 == 0;
            let after = device.after_ask(level);
            &&& silent || quiet && !audit ==> device.need(level) == Ask::Nothing
            &&& !silent && (audit || !quiet) ==> device.need(level) == (Ask::Read {
                want: most,
                audit,
                sample: device.gate is Learning,
            })
            &&& silent ==> after == device
            &&& !silent ==> after.polls == device.polls + 1
            &&& after.failures == device.failures && after.descriptor == device.descriptor
            &&& device.gate matches Gate::Gated { skipped, .. } ==> (after.gate matches Gate::Gated {
                skipped: now,
                strikes,
                pad,
                asserted,
                ..
            } && strikes == device.gate->strikes && pad == device.gate->pad && asserted
                == device.gate->asserted && (skipped < u32::MAX ==> now == skipped + if !silent
                && quiet && !audit {
                1int
            } else {
                0
            }))
            &&& !(device.gate is Gated) ==> after.gate == device.gate
        }),
{
}

/// A reply holds a report where its first word, its own length, is more than
/// its header and no more than was asked for; a failed read holds none. A read
/// that came back clears the failures and one that did not adds to them.
pub proof fn what_a_reply_holds(device: I2cHid, want: u16, bytes: Seq<u8>)
    requires
        bytes.len() >= 2,
        device.failures < 16,
    ensures
        ({
            let length = bytes[0] + 256 * bytes[1];
            let held = I2cHid::report_in(want, Some(bytes));
            &&& 2 < length <= want ==> (held matches Some(n) && n == length)
            &&& length <= 2 || length > want ==> held is None
        }),
        I2cHid::report_in(want, None) is None,
        device.heard(true).failures == 0,
        device.heard(false).failures == device.failures + 1,
        device.heard(true).gate == device.gate && device.heard(false).gate == device.gate,
        device.heard(false).polls == device.polls && device.heard(true).polls == device.polls,
{
}

/// What is told of the readiness gate is what it does, with the counts it has.
pub proof fn the_gate_is_told_of(device: I2cHid)
    ensures
        device.gate is Blind <==> device.gate_told() is Blind,
        device.gate matches Gate::Learning { watching, reports, quiet } ==> (
        device.gate_told() matches GateState::Learning { watching: w, reports: r, quiet: q } && w
            == watching && r == reports && q == quiet),
        device.gate matches Gate::Gated { mapping, skipped, .. } ==> (
        device.gate_told() matches GateState::Gated { mapping: m, skipped: n } && m == mapping && n
            == skipped),
{
}

/// A gate that is being learnt closes on the pad that the samples settle on,
/// with the level they found and nothing counted yet; until then it is told what
/// they say, and without a sample it stays.
pub proof fn a_gate_closes_when_the_samples_settle(
    gate: Gate,
    seen: Observation,
    audit: bool,
    level: bool,
    had_report: bool,
)
    requires
        gate is Learning,
    ensures
        judged(gate, None, audit, level, had_report) == gate,
        seen.settled matches Some((pad, asserted)) ==> judged(
            gate,
            Some(seen),
            audit,
            level,
            had_report,
        ) == (Gate::Gated {
            pad,
            asserted,
            mapping: Mapping::Calibrated,
            skipped: 0,
            strikes: 0,
        }),
        seen.settled is None ==> judged(gate, Some(seen), audit, level, had_report)
            == (Gate::Learning {
            watching: seen.watching,
            reports: seen.reports,
            quiet: seen.quiet,
        }),
{
}

/// The readiness gate that a device starts with.
pub open spec fn first_gate(
    pin: Option<u16>,
    opened: bool,
    resolved: Option<(u32, bool)>,
    platform: Option<&'static str>,
    watching: usize,
) -> Gate {
    if pin is None || !opened {
        Gate::Blind
    } else if resolved matches Some((pad, verified)) && verified {
        Gate::Gated {
            pad: resolved.unwrap().0,
            // An interrupt line idles released and is pulled down to signal.
            asserted: false,
            mapping: Mapping::Tabled(
                match platform {
                    Some(name) => name,
                    None => "tabled",
                },
            ),
            skipped: 0,
            strikes: 0,
        }
    } else if watching == 0 {
        Gate::Blind
    } else {
        Gate::Learning { watching, reports: 0, quiet: 0 }
    }
}

/// A device without a pin, or whose controller does not open, is read blind. A
/// pad of the table is used only where the hardware bears it out, and is active
/// low; else the pads that there are to watch are learnt from.
pub proof fn which_gate_a_device_starts_with(
    pin: Option<u16>,
    opened: bool,
    resolved: Option<(u32, bool)>,
    platform: Option<&'static str>,
    watching: usize,
)
    ensures
        ({
            let gate = first_gate(pin, opened, resolved, platform, watching);
            let there = pin is Some && opened;
            let tabled = there && (resolved matches Some((_, verified)) && verified);
            &&& !there ==> gate == Gate::Blind
            &&& tabled ==> (gate matches Gate::Gated { pad, asserted, skipped, strikes, .. } && pad
                == resolved.unwrap().0 && !asserted && skipped == 0 && strikes == 0)
            &&& tabled ==> gate->mapping is Tabled
            &&& tabled && platform is Some ==> gate->mapping == Mapping::Tabled(platform->0)
            &&& there && !tabled && watching == 0 ==> gate == Gate::Blind
            &&& there && !tabled && watching > 0 ==> gate == (Gate::Learning {
                watching,
                reports: 0,
                quiet: 0,
            })
        }),
{
}

/// Opens a readiness gate for a device, or decides there will not be one.
///
/// `pin` is the interrupt the device declares, `opened` whether its
/// controller could be opened, `resolved` the pad the controller's table
/// gives the pin and whether the hardware bears that out, `platform` the name
/// of the table, and `watching` how many pads a correlation would watch.
///
/// The table is exact when it applies; correlation applies everywhere and
/// takes a while to resolve. Either way the failure mode is
/// [`Gate::Blind`], the absence of an optimisation.
pub fn open_gate(
    pin: Option<u16>,
    opened: bool,
    resolved: Option<(u32, bool)>,
    platform: Option<&'static str>,
    watching: usize,
) -> (r: Gate)
    ensures
        r == first_gate(pin, opened, resolved, platform, watching),
{
    if pin.is_none() || !opened {
        return Gate::Blind;
    }
    if let Some((pad, verified)) = resolved {
        if verified {
            let name: &'static str = match platform {
                Some(name) => name,
                None => "tabled",
            };
            return Gate::Gated {
                pad,
                asserted: false,
                mapping: Mapping::Tabled(name),
                skipped: 0,
                strikes: 0,
            };
        }
    }
    if watching == 0 {
        return Gate::Blind;
    }
    Gate::Learning { watching, reports: 0, quiet: 0 }
}

// ---------------------------------------------------------------------------
// Finding the device in the firmware's tables
// ---------------------------------------------------------------------------

/// Which table a device stands in.
#[derive(Debug, Clone, Copy, PartialEq, Eq, Structural)]
pub enum Place {
    /// The DSDT, by its index there.
    Dsdt { index: usize },
    /// An SSDT, by its place in the root table's list and the index there.
    Ssdt { table: usize, index: usize },
}

/// How many devices the first `n` secondary tables hold. One that cannot be
/// read holds none.
pub open spec fn devices_in(counts: Seq<Option<usize>>, n: int) -> nat
    decreases n,
{
    if n <= 0 {
        0
    } else {
        devices_in(counts, n - 1) + match counts[n - 1] {
            Some(count) => count as nat,
            None => 0,
        }
    }
}

/// Whether the device numbered `index` across all tables is in secondary
/// table `t`: the tables before it do not reach that far, and it does.
pub open spec fn stands_in(
    first: usize,
    counts: Seq<Option<usize>>,
    index: usize,
    t: int,
) -> bool {
    &&& 0 <= t < counts.len()
    &&& counts[t] is Some
    &&& first + devices_in(counts, t) <= index < first + devices_in(counts, t + 1)
}

/// Finds the `index`th I2C-HID device across the whole namespace.
///
/// The DSDT first, then each SSDT in the order the root table lists them,
/// with `index` counting across all of them, so a machine that declares its
/// touchpad in one table and its keyboard in another is enumerated as one
/// list rather than two. `in_dsdt` says whether the DSDT has a device of that
/// index, `first` how many it has in all, and `counts` how many each SSDT has
/// that can be read.
pub fn find_device_nth(
    in_dsdt: bool,
    first: usize,
    counts: &[Option<usize>],
    index: usize,
) -> (r: Option<Place>)
    requires
        first + devices_in(counts@, counts@.len() as int) <= usize::MAX,
        in_dsdt || index >= first || forall|t: int|
            0 <= t < counts@.len() ==> #[trigger] counts@[t] is None,
    ensures
        in_dsdt ==> r == Some(Place::Dsdt { index }),
        !in_dsdt ==> match r {
            Some(Place::Ssdt { table, index: inner }) => stands_in(
                first,
                counts@,
                index,
                table as int,
            ) && inner == index - first - devices_in(counts@, table as int),
            Some(Place::Dsdt { .. }) => false,
            None => forall|t: int| !stands_in(first, counts@, index, t),
        },
{
    if in_dsdt {
        return Some(Place::Dsdt { index });
    }
    let mut skipped: usize = first;
    let mut t: usize = 0;
    while t < counts.len()
        invariant
            !in_dsdt,
            t <= counts@.len(),
            first + devices_in(counts@, counts@.len() as int) <= usize::MAX,
            skipped == first + devices_in(counts@, t as int),
            index >= skipped || index < first && forall|u: int|
                0 <= u < counts@.len() ==> #[trigger] counts@[u] is None,
        decreases counts@.len() - t,
    {
        proof {
            devices_accumulate(counts@, t + 1, counts@.len() as int);
        }
        if let Some(count) = counts[t] {
            if index < skipped + count {
                return Some(Place::Ssdt { table: t, index: index - skipped });
            }
            skipped = skipped + count;
        }
        t += 1;
    }
    assert forall|u: int| !stands_in(first, counts@, index, u) by {
        if 0 <= u < counts@.len() {
            devices_accumulate(counts@, u + 1, counts@.len() as int);
        }
    }
    None
}

/// More tables hold no fewer devices.
proof fn devices_accumulate(counts: Seq<Option<usize>>, a: int, b: int)
    requires
        0 <= a <= b,
    ensures
        devices_in(counts, a) <= devices_in(counts, b),
    decreases b,
{
    if a < b {
        devices_accumulate(counts, a, b - 1);
    }
}

/// No device is counted twice: a number stands in one secondary table at
/// most.
pub proof fn devices_are_one_list(
    first: usize,
    counts: Seq<Option<usize>>,
    index: usize,
    t: int,
    u: int,
)
    requires
        stands_in(first, counts, index, t),
        stands_in(first, counts, index, u),
    ensures
        t == u,
{
    if t < u {
        devices_accumulate(counts, t + 1, u);
    } else if u < t {
        devices_accumulate(counts, u + 1, t);
    }
}

/// What one table says of the controller a device names.
#[derive(Debug, Clone, Copy)]
pub struct ControllerEntry {
    /// Whether it declares a device by that name.
    pub named: bool,
    /// Its `_ADR`, where it declares one that reads as an integer.
    pub address: Option<u64>,
}

/// The first address among what the tables say, from the `i`th on.
pub open spec fn first_address(tables: Seq<Option<ControllerEntry>>, i: int) -> Option<u64>
    decreases tables.len() - i,
{
    if i >= tables.len() {
        None
    } else if address_in(tables[i]) is Some {
        address_in(tables[i])
    } else {
        first_address(tables, i + 1)
    }
}

/// The address a table gives, where it can be read and gives one.
pub open spec fn address_in(table: Option<ControllerEntry>) -> Option<u64> {
    match table {
        Some(entry) => entry.address,
        None => None,
    }
}

/// Whether a table can be read and declares the controller by name.
pub open spec fn names_it(table: Option<ControllerEntry>) -> bool {
    table matches Some(entry) && entry.named
}

/// Whether some readable table declares the controller by name.
pub open spec fn is_named(tables: Seq<Option<ControllerEntry>>) -> bool {
    exists|i: int| 0 <= i < tables.len() && names_it(#[trigger] tables[i])
}

/// What the table a device stands in says of its controller.
pub open spec fn beside(
    place: Place,
    in_dsdt: Option<ControllerEntry>,
    tables: Seq<Option<ControllerEntry>>,
) -> Option<ControllerEntry> {
    match place {
        Place::Dsdt { .. } => in_dsdt,
        Place::Ssdt { table, .. } => if table < tables.len() {
            tables[table as int]
        } else {
            None
        },
    }
}

/// The address of the controller a device names, or why there is none.
pub open spec fn resolved_to(
    place: Place,
    in_dsdt: Option<ControllerEntry>,
    tables: Seq<Option<ControllerEntry>>,
) -> Result<u64, Failure> {
    match address_in(beside(place, in_dsdt, tables)) {
        Some(address) => Ok(address),
        None => match address_in(in_dsdt) {
            Some(address) => Ok(address),
            None => match first_address(tables, 0) {
                Some(address) => Ok(address),
                None => if names_it(in_dsdt) || is_named(tables) {
                    Err(Failure::NoControllerAddress)
                } else {
                    Err(Failure::NoControllerDevice)
                },
            },
        },
    }
}

/// The address is the one its own table gives, where it gives one; else the
/// DSDT's; else that of the first secondary table, the `k`th, that has one. With
/// no address anywhere, a controller that some table declares has no address and
/// one that none does is not there.
pub proof fn where_the_controller_is_looked_for(
    place: Place,
    in_dsdt: Option<ControllerEntry>,
    tables: Seq<Option<ControllerEntry>>,
    k: int,
)
    requires
        0 <= k <= tables.len(),
        forall|j: int| 0 <= j < k ==> #[trigger] says_nowhere(tables[j]),
    ensures
        ({
            let found = resolved_to(place, in_dsdt, tables);
            let own = match place {
                Place::Dsdt { .. } => in_dsdt,
                Place::Ssdt { table, .. } => if 0 <= table < tables.len() {
                    tables[table as int]
                } else {
                    None
                },
            };
            let named = in_dsdt is Some && in_dsdt->0.named || exists|j: int|
                0 <= j < tables.len() && (#[trigger] tables[j]) is Some && tables[j]->0.named;
            &&& !says_nowhere(own) ==> found == Ok::<u64, Failure>(own->0.address->0)
            &&& says_nowhere(own) && !says_nowhere(in_dsdt) ==> found == Ok::<u64, Failure>(
                in_dsdt->0.address->0,
            )
            &&& says_nowhere(own) && says_nowhere(in_dsdt) && k < tables.len() && !says_nowhere(
                tables[k],
            ) ==> found == Ok::<u64, Failure>(tables[k]->0.address->0)
            &&& says_nowhere(own) && says_nowhere(in_dsdt) && k == tables.len() && named ==> found
                == Err::<u64, Failure>(Failure::NoControllerAddress)
            &&& says_nowhere(own) && says_nowhere(in_dsdt) && k == tables.len() && !named ==> found
                == Err::<u64, Failure>(Failure::NoControllerDevice)
        }),
{
    the_first_address_is_found(tables, 0, k);
    let named = in_dsdt is Some && in_dsdt->0.named || exists|j: int|
        0 <= j < tables.len() && (#[trigger] tables[j]) is Some && tables[j]->0.named;
    assert(named == (names_it(in_dsdt) || is_named(tables))) by {
        if is_named(tables) {
            let j = choose|j: int| 0 <= j < tables.len() && names_it(#[trigger] tables[j]);
            assert(tables[j] is Some && tables[j]->0.named);
        }
        if exists|j: int|
            0 <= j < tables.len() && (#[trigger] tables[j]) is Some && tables[j]->0.named {
            let j = choose|j: int|
                0 <= j < tables.len() && (#[trigger] tables[j]) is Some && tables[j]->0.named;
            assert(names_it(tables[j]));
        }
    }
}

/// A table that cannot be read, or gives no address.
pub open spec fn says_nowhere(table: Option<ControllerEntry>) -> bool {
    table is None || table->0.address is None
}

proof fn the_first_address_is_found(tables: Seq<Option<ControllerEntry>>, i: int, k: int)
    requires
        0 <= i <= k <= tables.len(),
        forall|j: int| i <= j < k ==> #[trigger] says_nowhere(tables[j]),
    ensures
        k == tables.len() ==> first_address(tables, i) is None,
        k < tables.len() && !says_nowhere(tables[k]) ==> first_address(tables, i)
            == tables[k]->0.address,
    decreases k - i,
{
    if i < k {
        assert(says_nowhere(tables[i]));
        the_first_address_is_found(tables, i + 1, k);
    }
}

/// Resolves a controller named by a device to its address.
///
/// Looks in the table the device stands in first, usually the DSDT, then in
/// the DSDT and every SSDT that can be read: firmware routinely puts a device
/// in one table and the bus it sits on in another. A controller found by name
/// in any of them with no readable address is told apart from one in no table
/// at all.
pub fn controller_address(
    place: Place,
    in_dsdt: Option<ControllerEntry>,
    tables: &[Option<ControllerEntry>],
) -> (r: Result<u64, Failure>)
    ensures
        r == resolved_to(place, in_dsdt, tables@),
{
    if let Place::Ssdt { table, .. } = place {
        if table < tables.len() {
            if let Some(entry) = tables[table] {
                if let Some(address) = entry.address {
                    return Ok(address);
                }
            }
        }
    }
    let mut named: bool = false;
    if let Some(entry) = in_dsdt {
        if let Some(address) = entry.address {
            return Ok(address);
        }
        named = entry.named;
    }
    let mut i: usize = 0;
    while i < tables.len()
        invariant
            address_in(beside(place, in_dsdt, tables@)) is None,
            address_in(in_dsdt) is None,
            i <= tables@.len(),
            first_address(tables@, 0) == first_address(tables@, i as int),
            named == (names_it(in_dsdt) || exists|j: int|
                0 <= j < i && names_it(#[trigger] tables@[j])),
        decreases tables@.len() - i,
    {
        if let Some(entry) = tables[i] {
            if let Some(address) = entry.address {
                return Ok(address);
            }
            if entry.named {
                named = true;
                assert(names_it(tables@[i as int]));
            }
        }
        i += 1;
    }
    if named {
        Err(Failure::NoControllerAddress)
    } else {
        Err(Failure::NoControllerDevice)
    }
}

/// PCI class and subclass of an LPSS I2C controller: a serial bus controller
/// of a kind with no assigned subclass.
pub const LPSS_CLASS: u8 = 0x0C;

pub const LPSS_SUBCLASS: u8 = 0x80;

/// A PCI function, as far as finding the controller needs it.
#[derive(Debug, Clone, Copy, PartialEq, Eq, Structural)]
pub struct PciFunction {
    pub bus: u8,
    pub slot: u8,
    pub function: u8,
    pub class: u8,
    pub subclass: u8,
}

/// The slot an `_ADR` names: its high word, five bits of it.
pub open spec fn slot_of(address: u64) -> u8 {
    (address >> 16 & 0x1F) as u8
}

/// The function an `_ADR` names: its low three bits.
pub open spec fn function_of(address: u64) -> u8 {
    (address & 0x07) as u8
}

/// Whether a PCI function is the controller an `_ADR` names.
pub open spec fn is_at(candidate: PciFunction, address: u64) -> bool {
    candidate.slot == slot_of(address) && candidate.function == function_of(address)
        && candidate.class == LPSS_CLASS && candidate.subclass == LPSS_SUBCLASS
}

/// The slot is in bits 20 to 16 and the function in bits 2 to 0; the function
/// there is the controller where it is a serial bus controller, class 0x0C, of
/// subclass 0x80.
pub proof fn an_address_names_a_function(candidate: PciFunction, address: u64)
    ensures
        is_at(candidate, address) <==> candidate.slot == address / 65536 % 32
            && candidate.function == address % 8 && candidate.class == 0x0C && candidate.subclass
            == 0x80,
{
    assert((address >> 16 & 0x1F) as u8 == address / 65536 % 32) by (bit_vector);
    assert((address & 0x07) as u8 == address % 8) by (bit_vector);
}

/// Whether a PCI function is the controller an `_ADR` names.
pub fn is_controller_at(candidate: &PciFunction, address: u64) -> (r: bool)
    ensures
        r == is_at(*candidate, address),
{
    let slot: u8 = #[verifier::truncate] (((address >> 16) & 0x1F) as u8);
    let function: u8 = #[verifier::truncate] ((address & 0x07) as u8);
    candidate.slot == slot && candidate.function == function && candidate.class == LPSS_CLASS
        && candidate.subclass == LPSS_SUBCLASS
}

// ---------------------------------------------------------------------------
// Finding the device on the bus
// ---------------------------------------------------------------------------

/// The lowest and highest addresses a seven-bit I2C device may use. Below and
/// above are reserved for general calls and the like.
pub const FIRST_ADDRESS: u16 = 0x08;

pub const LAST_ADDRESS: u16 = 0x77;

/// The registers to try: the declared one first where there is one, then the
/// two known ones, none of them twice.
pub open spec fn candidates_of(register: Option<u16>, known: (u16, u16)) -> Seq<u16> {
    let start = match register {
        Some(register) => seq![register],
        None => seq![],
    };
    let with_first = if start.contains(known.0) {
        start
    } else {
        start.push(known.0)
    };
    if with_first.contains(known.1) {
        with_first
    } else {
        with_first.push(known.1)
    }
}

/// Whether a register is among those listed.
fn lists(registers: &Vec<u16>, register: u16) -> (r: bool)
    ensures
        r == registers@.contains(register),
{
    let mut i: usize = 0;
    while i < registers.len()
        invariant
            i <= registers@.len(),
            forall|j: int| 0 <= j < i ==> registers@[j] != register,
        decreases registers@.len() - i,
    {
        if registers[i] == register {
            assert(registers@[i as int] == register);
            return true;
        }
        i += 1;
    }
    false
}

/// The registers to try.
pub fn candidates(register: Option<u16>, known: (u16, u16)) -> (r: Vec<u16>)
    ensures
        r@ == candidates_of(register, known),
        1 <= r@.len() <= 3,
{
    let mut list: Vec<u16> = Vec::new();
    if let Some(register) = register {
        list.push(register);
    }
    assert(list@ =~= match register {
        Some(register) => seq![register],
        None => seq![],
    });
    if !lists(&list, known.0) {
        list.push(known.0);
    }
    if !lists(&list, known.1) {
        list.push(known.1);
    }
    proof {
        if register is Some {
            assert(list@[0] == register->0);
        }
    }
    list
}

/// No register is tried twice, and every known one is tried.
pub proof fn candidates_are_distinct(register: Option<u16>, known: (u16, u16))
    ensures
        candidates_of(register, known).no_duplicates(),
        candidates_of(register, known).contains(known.0),
        candidates_of(register, known).contains(known.1),
        register matches Some(declared) ==> candidates_of(register, known)[0] == declared,
{
    let all = candidates_of(register, known);
    let start = match register {
        Some(register) => seq![register],
        None => seq![],
    };
    let middle = if start.contains(known.0) {
        start
    } else {
        start.push(known.0)
    };
    if start.contains(known.0) {
        let i = choose|i: int| 0 <= i < start.len() && start[i] == known.0;
        assert(all[i] == known.0);
    } else {
        assert(all[start.len() as int] == known.0);
    }
    if middle.contains(known.1) {
        let i = choose|i: int| 0 <= i < middle.len() && middle[i] == known.1;
        assert(all[i] == known.1);
    } else {
        assert(all[middle.len() as int] == known.1);
    }
}

/// Where the search for a device has got to.
#[derive(Debug, Clone, Copy, PartialEq, Eq, Structural)]
pub enum Round {
    /// The declared address, with the candidate register of this index.
    Declared { index: usize },
    /// Whether anything is at this address at all.
    Presence { address: u16 },
    /// This address, with the candidate register of this index.
    Scan { address: u16, index: usize },
    /// Nowhere left.
    Over,
}

/// A search for a device on a bus.
///
/// The firmware's word is taken first and then checked against the bus: a
/// descriptor is thirty bytes whose first two fields are fixed and three of
/// whose registers cannot be zero, so a wrong address or a wrong register is
/// rejected rather than misread.
pub struct Search {
    /// The address the firmware named.
    pub declared: u16,
    /// The descriptor register it named, if it did.
    pub register: Option<u16>,
    /// The registers to try anyway.
    pub known: (u16, u16),
    pub round: Round,
}

/// What to ask the bus next.
#[derive(Debug, Clone, Copy, PartialEq, Eq, Structural)]
pub enum Question {
    /// Write the register, read thirty bytes.
    Descriptor { address: u16, register: u16 },
    /// Read one byte, writing nothing: an address that turns out to belong to
    /// something else is not poked with a register number it might act on.
    Presence { address: u16 },
    /// Nothing: the search is over.
    Nothing,
}

/// Where a device was found.
#[derive(Debug, Clone, Copy, PartialEq, Eq, Structural)]
pub struct Located {
    pub address: u16,
    pub register: u16,
    pub descriptor: HidDescriptor,
    pub discovery: Discovery,
}

impl Search {
    /// The registers tried at the declared address.
    pub open spec fn first(self) -> Seq<u16> {
        candidates_of(self.register, self.known)
    }

    /// The registers tried at every other address.
    pub open spec fn others(self) -> Seq<u16> {
        candidates_of(None, self.known)
    }

    /// The round is about a register and an address there are.
    pub open spec fn wf(self) -> bool {
        match self.round {
            Round::Declared { index } => index < self.first().len(),
            Round::Presence { address } => FIRST_ADDRESS <= address <= LAST_ADDRESS && address
                != self.declared,
            Round::Scan { address, index } => FIRST_ADDRESS <= address <= LAST_ADDRESS && address
                != self.declared && index < self.others().len(),
            Round::Over => true,
        }
    }

    /// What this round asks.
    pub open spec fn question(self) -> Question {
        match self.round {
            Round::Declared { index } => Question::Descriptor {
                address: self.declared,
                register: self.first()[index as int],
            },
            Round::Presence { address } => Question::Presence { address },
            Round::Scan { address, index } => Question::Descriptor {
                address,
                register: self.others()[index as int],
            },
            Round::Over => Question::Nothing,
        }
    }

    /// The round about the next address from this one on, the declared one
    /// left out.
    pub open spec fn scan_from(self, address: int) -> Round {
        let next = if address == self.declared {
            address + 1
        } else {
            address
        };
        if next > LAST_ADDRESS {
            Round::Over
        } else {
            Round::Presence { address: next as u16 }
        }
    }

    /// The round after one that found nothing. `answered` is whether the
    /// address of a presence round answered.
    pub open spec fn after(self, answered: bool) -> Round {
        match self.round {
            Round::Declared { index } => if index + 1 < self.first().len() {
                Round::Declared { index: (index + 1) as usize }
            } else {
                self.scan_from(FIRST_ADDRESS as int)
            },
            Round::Presence { address } => if answered {
                Round::Scan { address, index: 0 }
            } else {
                self.scan_from(address + 1)
            },
            Round::Scan { address, index } => if index + 1 < self.others().len() {
                Round::Scan { address, index: (index + 1) as usize }
            } else {
                self.scan_from(address + 1)
            },
            Round::Over => Round::Over,
        }
    }

    /// How a device found in this round was found.
    pub open spec fn how(self) -> Discovery {
        match self.round {
            Round::Declared { index } => if index == 0 && self.register is Some {
                Discovery::Firmware
            } else {
                Discovery::ProbedRegister
            },
            _ => Discovery::Scanned,
        }
    }

    /// The device this round found, where the bytes that came are a descriptor.
    pub open spec fn found_by(self, bytes: Option<Seq<u8>>) -> Option<Located> {
        match (self.question(), bytes) {
            (Question::Descriptor { address, register }, Some(bytes)) => if is_descriptor(bytes) {
                Some(
                    Located {
                        address,
                        register,
                        descriptor: descriptor_of(bytes),
                        discovery: self.how(),
                    },
                )
            } else {
                None
            },
            _ => None,
        }
    }

    /// A search that has not asked anything yet.
    pub fn new(declared: u16, register: Option<u16>, known: (u16, u16)) -> (r: Search)
        ensures
            r.wf(),
            r == (Search { declared, register, known, round: Round::Declared { index: 0 } }),
    {
        proof {
            candidates_are_distinct(register, known);
        }
        Search { declared, register, known, round: Round::Declared { index: 0 } }
    }

    /// What to ask the bus next.
    pub fn ask(&self) -> (r: Question)
        requires
            self.wf(),
        ensures
            r == self.question(),
    {
        match self.round {
            Round::Declared { index } => {
                let registers: Vec<u16> = candidates(self.register, self.known);
                Question::Descriptor { address: self.declared, register: registers[index] }
            },
            Round::Presence { address } => Question::Presence { address },
            Round::Scan { address, index } => {
                let registers: Vec<u16> = candidates(None, self.known);
                Question::Descriptor { address, register: registers[index] }
            },
            Round::Over => Question::Nothing,
        }
    }

    /// The round about the next address from this one on.
    fn scan_on(&self, address: u16) -> (r: Round)
        requires
            FIRST_ADDRESS <= address <= LAST_ADDRESS + 1,
        ensures
            r == self.scan_from(address as int),
    {
        let next: u16 = if address == self.declared {
            address + 1
        } else {
            address
        };
        if next > LAST_ADDRESS {
            Round::Over
        } else {
            Round::Presence { address: next }
        }
    }

    /// Takes what the bus answered: the descriptor bytes, where a descriptor
    /// was asked for and came; and whether a presence question was answered.
    /// The device, where that settles it.
    pub fn answer(&mut self, bytes: Option<&[u8; 30]>, answered: bool) -> (r: Option<Located>)
        requires
            old(self).wf(),
        ensures
            final(self).wf(),
            final(self).declared == old(self).declared,
            final(self).register == old(self).register,
            final(self).known == old(self).known,
            r == old(self).found_by(
                match bytes {
                    Some(bytes) => Some(bytes@),
                    None => None,
                },
            ),
            final(self).round == if r is Some {
                Round::Over
            } else {
                old(self).after(answered)
            },
    {
        proof {
            candidates_are_distinct(self.register, self.known);
            candidates_are_distinct(None, self.known);
        }
        let question = self.ask();
        if let Question::Descriptor { address, register } = question {
            if let Some(bytes) = bytes {
                if let Some(descriptor) = HidDescriptor::parse(bytes) {
                    let discovery: Discovery = match self.round {
                        Round::Declared { index } => {
                            if index == 0 && self.register.is_some() {
                                Discovery::Firmware
                            } else {
                                Discovery::ProbedRegister
                            }
                        },
                        _ => Discovery::Scanned,
                    };
                    self.round = Round::Over;
                    return Some(Located { address, register, descriptor, discovery });
                }
            }
        }
        self.round = match self.round {
            Round::Declared { index } => {
                if index + 1 < candidates(self.register, self.known).len() {
                    Round::Declared { index: index + 1 }
                } else {
                    self.scan_on(FIRST_ADDRESS)
                }
            },
            Round::Presence { address } => {
                if answered {
                    Round::Scan { address, index: 0 }
                } else {
                    self.scan_on(address + 1)
                }
            },
            Round::Scan { address, index } => {
                if index + 1 < candidates(None, self.known).len() {
                    Round::Scan { address, index: index + 1 }
                } else {
                    self.scan_on(address + 1)
                }
            },
            Round::Over => Round::Over,
        };
        None
    }

    /// How many rounds can still come.
    pub open spec fn rounds_left(self) -> int {
        match self.round {
            Round::Declared { index } => 1000 - index,
            Round::Presence { address } => 4 * (0x78 - address),
            Round::Scan { address, index } => 4 * (0x78 - address) - 1 - index,
            Round::Over => 0,
        }
    }
}

/// Every search ends: each unanswered question brings the end nearer, and the
/// scan goes up the bus without returning to an address.
pub proof fn a_search_ends(search: Search, answered: bool)
    requires
        search.wf(),
        search.round != Round::Over,
    ensures
        ({
            let next = Search { round: search.after(answered), ..search };
            &&& 0 <= next.rounds_left() < search.rounds_left()
            &&& search.round matches Round::Scan { address, .. }
                ==> (next.round matches Round::Presence { address: later } ==> later > address)
            &&& search.round matches Round::Presence { address }
                ==> (next.round matches Round::Presence { address: later } ==> later > address)
        }),
{
    assert(candidates_of(search.register, search.known).len() <= 3);
    assert(candidates_of(None, search.known).len() <= 3);
}

/// What is asked where. At the declared address every register is tried, the
/// declared one first; then every other address from 0x08 to 0x77 is asked
/// whether it is there, in order, and one that is has the known registers tried.
pub proof fn the_bus_is_gone_through_in_order(search: Search, answered: bool)
    requires
        search.wf(),
    ensures
        search.round matches Round::Declared { index } ==> {
            let tried = candidates_of(search.register, search.known);
            &&& search.question() == (Question::Descriptor {
                address: search.declared,
                register: tried[index as int],
            })
            &&& index + 1 < tried.len() ==> search.after(answered) == (Round::Declared {
                index: (index + 1) as usize,
            })
            &&& index + 1 >= tried.len() ==> search.after(answered) == (Round::Presence {
                address: if search.declared == 8 {
                    9
                } else {
                    8
                },
            })
        },
        search.round matches Round::Presence { address } ==> {
            &&& search.question() == (Question::Presence { address })
            &&& answered ==> search.after(answered) == (Round::Scan { address, index: 0 })
            &&& !answered ==> search.after(answered) == next_address(search.declared, address)
        },
        search.round matches Round::Scan { address, index } ==> {
            let tried = candidates_of(None, search.known);
            &&& search.question() == (Question::Descriptor {
                address,
                register: tried[index as int],
            })
            &&& index + 1 < tried.len() ==> search.after(answered) == (Round::Scan {
                address,
                index: (index + 1) as usize,
            })
            &&& index + 1 >= tried.len() ==> search.after(answered) == next_address(
                search.declared,
                address,
            )
        },
        search.round == Round::Over ==> search.question() == Question::Nothing && search.after(
            answered,
        ) == Round::Over,
{
}

/// The presence round after an address: the next one that is not the declared
/// one, and none past 0x77.
pub open spec fn next_address(declared: u16, address: u16) -> Round {
    if address + 1 != declared && address + 1 <= 119 {
        Round::Presence { address: (address + 1) as u16 }
    } else if address + 1 == declared && address + 2 <= 119 {
        Round::Presence { address: (address + 2) as u16 }
    } else {
        Round::Over
    }
}

/// A device is found where the bytes that were asked for are a descriptor, at
/// the address and the register they were asked of; whether those are the
/// firmware's, or the register was guessed, or the bus was scanned, is told.
pub proof fn how_a_device_was_found(search: Search, bytes: Seq<u8>)
    requires
        search.wf(),
    ensures
        search.found_by(None) is None,
        search.round is Presence || search.round == Round::Over ==> search.found_by(Some(bytes))
            is None,
        parsed(bytes) is None ==> search.found_by(Some(bytes)) is None,
        parsed(bytes) is Some && search.question() is Descriptor ==> (search.found_by(
            Some(bytes),
        ) matches Some(device) && search.question() == (Question::Descriptor {
            address: device.address,
            register: device.register,
        }) && Some(device.descriptor) == parsed(bytes) && device.discovery == (
        if search.round is Scan {
            Discovery::Scanned
        } else if search.round == (Round::Declared { index: 0 }) && search.register is Some {
            Discovery::Firmware
        } else {
            Discovery::ProbedRegister
        })),
{
}

/// A register number is written to an address of the scan only after the
/// address has answered a read that writes nothing.
pub proof fn nothing_unanswered_is_poked(search: Search, answered: bool)
    requires
        search.wf(),
    ensures
        search.after(answered) matches Round::Scan { address, index } ==> (search.round
            == Round::Presence { address } && answered) || (search.round matches Round::Scan {
            address: before,
            ..
        } && before == address),
{
}

// ---------------------------------------------------------------------------
// Powering it on
// ---------------------------------------------------------------------------

/// How long to look for the reset completion, in microseconds. A device that
/// has not answered by then is one whose completion read is not coming, which
/// is not fatal: it is already acknowledging on the bus.
pub const RESET_TIMEOUT_US: u64 = 250_000;

/// How long to wait between the power-on and the reset, in microseconds.
pub const POWER_SETTLE_US: u64 = 1_000;

/// The counter value a wait ends at.
pub open spec fn deadline_after(now: u64, ticks_per_us: u64, microseconds: u64) -> u64 {
    let ticks = (if ticks_per_us > 1 {
        ticks_per_us as int
    } else {
        1
    }) * microseconds;
    ((now + ticks) % 0x1_0000_0000_0000_0000) as u64
}

/// Whether a deadline is still ahead: by the difference on the counter's
/// circle, so a counter that rolls over does not make every deadline fire at
/// once.
pub open spec fn is_ahead(deadline: u64, now: u64) -> bool {
    0 < (deadline - now) % 0x1_0000_0000_0000_0000 < 0x8000_0000_0000_0000
}

/// The counter value a wait ends at.
pub fn wait_us(now: u64, ticks_per_us: u64, microseconds: u64) -> (r: u64)
    requires
        ticks_per_us * microseconds <= u64::MAX,
    ensures
        r == deadline_after(now, ticks_per_us, microseconds),
{
    let rate: u64 = if ticks_per_us > 1 {
        ticks_per_us
    } else {
        1
    };
    proof {
        assert(rate * microseconds <= u64::MAX) by (nonlinear_arith)
            requires
                rate == ticks_per_us || rate == 1,
                ticks_per_us * microseconds <= u64::MAX,
                microseconds <= u64::MAX,
        ;
    }
    now.wrapping_add(rate * microseconds)
}

/// Whether a deadline is still ahead.
pub fn ahead(deadline: u64, now: u64) -> (r: bool)
    ensures
        r == is_ahead(deadline, now),
{
    let left: u64 = deadline.wrapping_sub(now);
    left != 0 && left < 0x8000_0000_0000_0000
}

/// A deadline less than half the counter's circle away is ahead until the
/// counter reaches it and not after, whether or not the counter rolls over on
/// the way.
pub proof fn deadlines_survive_a_rollover(start: u64, wait: u64, elapsed: u64)
    requires
        wait < 0x8000_0000_0000_0000,
        elapsed < 0x8000_0000_0000_0000,
    ensures
        ({
            let deadline = ((start + wait) % 0x1_0000_0000_0000_0000) as u64;
            let now = ((start + elapsed) % 0x1_0000_0000_0000_0000) as u64;
            is_ahead(deadline, now) == (elapsed < wait)
        }),
{
    let deadline = ((start + wait) % 0x1_0000_0000_0000_0000) as u64;
    let now = ((start + elapsed) % 0x1_0000_0000_0000_0000) as u64;
    assert((deadline - now) % 0x1_0000_0000_0000_0000 == (wait - elapsed) % 0x1_0000_0000_0000_0000);
}

/// A wait of some microseconds ends as many ticks later as they have, one to
/// the microsecond at the least.
pub proof fn a_wait_lasts_its_microseconds(now: u64, ticks_per_us: u64, microseconds: u64)
    requires
        ticks_per_us >= 1,
        now + ticks_per_us * microseconds <= u64::MAX,
    ensures
        deadline_after(now, ticks_per_us, microseconds) == now + ticks_per_us * microseconds,
        deadline_after(now, 0, microseconds) == deadline_after(now, 1, microseconds),
{
}

/// How far a power-on has got.
#[derive(Debug, Clone, Copy, PartialEq, Eq, Structural)]
pub enum PowerOn {
    /// Write the power-on command.
    SetPower,
    /// Wait until this counter value.
    Settle { deadline: u64 },
    /// Write the reset command.
    Reset,
    /// Read four bytes until they say zero, or this counter value passes.
    Await { deadline: u64 },
    /// Up.
    Up,
    /// It would not take a command.
    Failed,
}

/// What a power-on step heard.
#[derive(Debug, Clone, Copy, PartialEq, Eq, Structural)]
pub enum Heard {
    /// A command was acknowledged, or was not.
    Acknowledged(bool),
    /// Time passed.
    Tick,
    /// The length field of a completion read.
    Length(u16),
}

/// What a power-on does with what it heard at a counter value.
pub open spec fn power_step(state: PowerOn, heard: Heard, now: u64, ticks_per_us: u64) -> PowerOn {
    match (state, heard) {
        (PowerOn::SetPower, Heard::Acknowledged(ok)) => if ok {
            PowerOn::Settle { deadline: deadline_after(now, ticks_per_us, POWER_SETTLE_US) }
        } else {
            PowerOn::Failed
        },
        (PowerOn::Settle { deadline }, Heard::Tick) => if is_ahead(deadline, now) {
            state
        } else {
            PowerOn::Reset
        },
        (PowerOn::Reset, Heard::Acknowledged(ok)) => if ok {
            PowerOn::Await { deadline: deadline_after(now, ticks_per_us, RESET_TIMEOUT_US) }
        } else {
            PowerOn::Failed
        },
        // Several devices never send the completion, and refusing to use one
        // that is otherwise answering would be the wrong call.
        (PowerOn::Await { deadline }, Heard::Length(length)) => if length == 0 || !is_ahead(
            deadline,
            now,
        ) {
            PowerOn::Up
        } else {
            state
        },
        (PowerOn::Await { deadline }, Heard::Tick) => if is_ahead(deadline, now) {
            state
        } else {
            PowerOn::Up
        },
        _ => state,
    }
}

/// Powers the device on and resets it, one step at a time.
///
/// Power on first: a device in its low-power state acknowledges a reset and
/// then does nothing with it. Then a pause, which some devices depend on.
/// Then the reset, and a bounded wait for the device to say it finished.
pub fn power_on(state: PowerOn, heard: Heard, now: u64, ticks_per_us: u64) -> (r: PowerOn)
    requires
        ticks_per_us * RESET_TIMEOUT_US <= u64::MAX,
    ensures
        r == power_step(state, heard, now, ticks_per_us),
{
    match (state, heard) {
        (PowerOn::SetPower, Heard::Acknowledged(ok)) => {
            if ok {
                PowerOn::Settle { deadline: wait_us(now, ticks_per_us, POWER_SETTLE_US) }
            } else {
                PowerOn::Failed
            }
        },
        (PowerOn::Settle { deadline }, Heard::Tick) => {
            if ahead(deadline, now) {
                state
            } else {
                PowerOn::Reset
            }
        },
        (PowerOn::Reset, Heard::Acknowledged(ok)) => {
            if ok {
                PowerOn::Await { deadline: wait_us(now, ticks_per_us, RESET_TIMEOUT_US) }
            } else {
                PowerOn::Failed
            }
        },
        (PowerOn::Await { deadline }, Heard::Length(length)) => {
            if length == 0 || !ahead(deadline, now) {
                PowerOn::Up
            } else {
                state
            }
        },
        (PowerOn::Await { deadline }, Heard::Tick) => {
            if ahead(deadline, now) {
                state
            } else {
                PowerOn::Up
            }
        },
        _ => state,
    }
}

/// A device comes up exactly where it acknowledges both commands: a missing
/// completion never fails it, and a refused command always does.
pub proof fn only_a_refused_command_fails(
    state: PowerOn,
    heard: Heard,
    now: u64,
    ticks_per_us: u64,
)
    requires
        state != PowerOn::Failed,
    ensures
        power_step(state, heard, now, ticks_per_us) == PowerOn::Failed <==> (state
            == PowerOn::SetPower || state == PowerOn::Reset) && heard == Heard::Acknowledged(false),
{
}

/// A power-on goes from the power command to a pause of a millisecond, to the
/// reset, to a wait of a quarter of a second at the most, which ends at once where
/// the device says it has finished; and then the device is up.
pub proof fn a_power_on_goes_step_by_step(
    now: u64,
    ticks_per_us: u64,
    deadline: u64,
    length: u16,
)
    ensures
        power_step(PowerOn::SetPower, Heard::Acknowledged(true), now, ticks_per_us)
            == (PowerOn::Settle { deadline: deadline_after(now, ticks_per_us, 1_000) }),
        power_step(PowerOn::Settle { deadline }, Heard::Tick, now, ticks_per_us) == (
        if is_ahead(deadline, now) {
            PowerOn::Settle { deadline }
        } else {
            PowerOn::Reset
        }),
        power_step(PowerOn::Reset, Heard::Acknowledged(true), now, ticks_per_us)
            == (PowerOn::Await { deadline: deadline_after(now, ticks_per_us, 250_000) }),
        power_step(PowerOn::Await { deadline }, Heard::Length(0), now, ticks_per_us) == PowerOn::Up,
        length != 0 ==> power_step(
            PowerOn::Await { deadline },
            Heard::Length(length),
            now,
            ticks_per_us,
        ) == (if is_ahead(deadline, now) {
            PowerOn::Await { deadline }
        } else {
            PowerOn::Up
        }),
        power_step(PowerOn::Await { deadline }, Heard::Tick, now, ticks_per_us) == (
        if is_ahead(deadline, now) {
            PowerOn::Await { deadline }
        } else {
            PowerOn::Up
        }),
        power_step(PowerOn::Up, Heard::Tick, now, ticks_per_us) == PowerOn::Up,
{
}

/// The bytes of a command: the command register, then a byte of type and
/// report ID, then the opcode.
pub open spec fn command_bytes(register: u16, opcode: u8) -> Seq<u8> {
    seq![(register % 256) as u8, (register / 256) as u8, 0u8, opcode]
}

/// The opcode that sets the power state; state zero is on.
pub const CMD_SET_POWER: u8 = 0x08;

/// The opcode that resets.
pub const CMD_RESET: u8 = 0x01;

/// The bytes of the command a power-on step writes, where it writes one.
pub open spec fn power_bytes(state: PowerOn, descriptor: HidDescriptor) -> Option<Seq<u8>> {
    match state {
        PowerOn::SetPower => Some(command_bytes(descriptor.command_register, CMD_SET_POWER)),
        PowerOn::Reset => Some(command_bytes(descriptor.command_register, CMD_RESET)),
        _ => None,
    }
}

/// A command is four bytes: the command register, low byte first, a zero, and
/// the opcode, 8 to switch on and 1 to reset. No other step writes one.
pub proof fn what_a_command_is(descriptor: HidDescriptor, state: PowerOn)
    ensures
        power_bytes(PowerOn::SetPower, descriptor) matches Some(b) && b.len() == 4 && b[0] + 256
            * b[1] == descriptor.command_register && b[2] == 0 && b[3] == 8,
        power_bytes(PowerOn::Reset, descriptor) matches Some(b) && b.len() == 4 && b[0] + 256 * b[1]
            == descriptor.command_register && b[2] == 0 && b[3] == 1,
        state != PowerOn::SetPower && state != PowerOn::Reset ==> power_bytes(state, descriptor)
            is None,
{
}

/// The bytes of the command a power-on step writes, where it writes one.
pub fn power_command(state: PowerOn, descriptor: &HidDescriptor) -> (r: Option<[u8; 4]>)
    ensures
        r is Some <==> power_bytes(state, *descriptor) is Some,
        r is Some ==> r->0@ == power_bytes(state, *descriptor)->0,
{
    let low: u8 = (descriptor.command_register % 256) as u8;
    let high: u8 = (descriptor.command_register / 256) as u8;
    match state {
        PowerOn::SetPower => {
            let bytes: [u8; 4] = [low, high, 0, CMD_SET_POWER];
            assert(bytes@ =~= command_bytes(descriptor.command_register, CMD_SET_POWER));
            Some(bytes)
        },
        PowerOn::Reset => {
            let bytes: [u8; 4] = [low, high, 0, CMD_RESET];
            assert(bytes@ =~= command_bytes(descriptor.command_register, CMD_RESET));
            Some(bytes)
        },
        _ => None,
    }
}

// ---------------------------------------------------------------------------
// The whole chain
// ---------------------------------------------------------------------------

/// What the firmware declares of a device.
#[derive(Debug, Clone, Copy)]
pub struct Declared {
    pub slave_address: u16,
    pub descriptor_register: Option<u16>,
    /// The bus speed it asks for, in hertz.
    pub connection_speed: u32,
    /// The pin it raises when it has a report.
    pub interrupt: Option<u16>,
    /// Whether its resources were evaluated, rather than taken from the
    /// buffers it declares.
    pub evaluated: bool,
}

/// How far a probe has got: each step names what it waits for.
#[derive(Debug, Clone, Copy)]
pub enum Probe {
    /// The DSDT.
    Tables,
    /// The device, in any table.
    Device,
    /// The address of the controller it hangs off.
    Controller { device: Declared },
    /// The PCI function at that address.
    Pci { device: Declared, address: u64 },
    /// The controller, out of reset.
    Master { device: Declared, controller: (u8, u8, u8) },
    /// The device, on the bus.
    Find { device: Declared, controller: (u8, u8, u8) },
    /// The device, powered on.
    Power { device: Declared, controller: (u8, u8, u8), located: Located },
    /// Its report descriptor.
    Fetch { device: Declared, controller: (u8, u8, u8), located: Located },
    /// What that describes.
    Layout { device: Declared, controller: (u8, u8, u8), located: Located },
    /// The readiness gate.
    Gate {
        device: Declared,
        controller: (u8, u8, u8),
        located: Located,
        layout: Kind,
        report: Option<u8>,
    },
    /// A touchpad.
    Ready(I2cHid),
    /// None, and why.
    Failed(Failure),
}

/// What a probe step came back with.
#[derive(Debug, Clone, Copy)]
pub enum Fact {
    /// Whether there is a DSDT that can be walked.
    Tables(bool),
    Device(Option<Declared>),
    Controller(Result<u64, Failure>),
    Pci(Option<(u8, u8, u8)>),
    /// Whether the controller came out of reset.
    Master(bool),
    Found(Option<Located>),
    /// Whether the device powered on and reset.
    Powered(bool),
    /// Whether the report descriptor was read.
    Fetched(bool),
    /// The report a pointer is on and the report a keyboard is on, where
    /// there is such a report; the report's number where reports are numbered.
    Layout { pointer: Option<Option<u8>>, keyboard: Option<Option<u8>> },
    Gate(Gate),
}

/// Whether a report descriptor's length is one this will read.
pub open spec fn is_readable(length: u16) -> bool {
    0 < length <= MAX_REPORT_DESCRIPTOR
}

/// Where a probe goes from a step, given what the step came back with. A fact
/// that answers no question in hand changes nothing.
pub open spec fn probe_step(state: Probe, fact: Fact) -> Probe {
    match (state, fact) {
        (Probe::Tables, Fact::Tables(ok)) => if ok {
            Probe::Device
        } else {
            Probe::Failed(Failure::NoDsdt)
        },
        (Probe::Device, Fact::Device(found)) => match found {
            Some(device) => Probe::Controller { device },
            None => Probe::Failed(Failure::NoDevice),
        },
        (Probe::Controller { device }, Fact::Controller(found)) => match found {
            Ok(address) => Probe::Pci { device, address },
            Err(why) => Probe::Failed(why),
        },
        (Probe::Pci { device, .. }, Fact::Pci(found)) => match found {
            Some(controller) => Probe::Master { device, controller },
            None => Probe::Failed(Failure::NoControllerPci),
        },
        (Probe::Master { device, controller }, Fact::Master(ok)) => if ok {
            Probe::Find { device, controller }
        } else {
            Probe::Failed(Failure::ControllerFailed)
        },
        (Probe::Find { device, controller }, Fact::Found(found)) => match found {
            Some(located) => Probe::Power { device, controller, located },
            None => Probe::Failed(Failure::NoHidDescriptor),
        },
        (Probe::Power { device, controller, located }, Fact::Powered(ok)) => if !ok {
            Probe::Failed(Failure::ResetFailed)
        } else if is_readable(located.descriptor.report_descriptor_length) {
            Probe::Fetch { device, controller, located }
        } else {
            Probe::Failed(Failure::DescriptorTooLarge)
        },
        (Probe::Fetch { device, controller, located }, Fact::Fetched(ok)) => if ok {
            Probe::Layout { device, controller, located }
        } else {
            Probe::Failed(Failure::ReportDescriptorFailed)
        },
        // A pointer first: a touchpad that also declares a keyboard page, for
        // its media keys, is a pointer.
        (Probe::Layout { device, controller, located }, Fact::Layout { pointer, keyboard }) => {
            match (pointer, keyboard) {
                (Some(report), _) => Probe::Gate {
                    device,
                    controller,
                    located,
                    layout: Kind::Pointer,
                    report,
                },
                (None, Some(report)) => Probe::Gate {
                    device,
                    controller,
                    located,
                    layout: Kind::Keyboard,
                    report,
                },
                (None, None) => Probe::Failed(Failure::NoPointerReport),
            }
        },
        (Probe::Gate { device, controller, located, layout, report }, Fact::Gate(gate)) => {
            Probe::Ready(
                I2cHid {
                    address: located.address,
                    descriptor: located.descriptor,
                    layout,
                    report,
                    controller,
                    vendor: located.descriptor.vendor,
                    product: located.descriptor.product,
                    interrupt_pin: device.interrupt,
                    discovery: located.discovery,
                    evaluated: device.evaluated,
                    gate,
                    polls: 0,
                    failures: 0,
                },
            )
        },
        (state, _) => state,
    }
}

impl I2cHid {
    /// Where a probe for a touchpad starts: at the firmware's tables.
    pub fn probe() -> (r: Probe)
        ensures
            r == Probe::Tables,
    {
        Probe::Tables
    }

    /// Takes a probe one step on.
    ///
    /// Every step can fail on its own, and each failure means something
    /// different to whoever is looking at the screen.
    pub fn probe_nth(state: Probe, fact: Fact) -> (r: Probe)
        ensures
            r == probe_step(state, fact),
    {
        match (state, fact) {
            (Probe::Tables, Fact::Tables(ok)) => {
                if ok {
                    Probe::Device
                } else {
                    Probe::Failed(Failure::NoDsdt)
                }
            },
            (Probe::Device, Fact::Device(found)) => match found {
                Some(device) => Probe::Controller { device },
                None => Probe::Failed(Failure::NoDevice),
            },
            (Probe::Controller { device }, Fact::Controller(found)) => match found {
                Ok(address) => Probe::Pci { device, address },
                Err(why) => Probe::Failed(why),
            },
            (Probe::Pci { device, .. }, Fact::Pci(found)) => match found {
                Some(controller) => Probe::Master { device, controller },
                None => Probe::Failed(Failure::NoControllerPci),
            },
            (Probe::Master { device, controller }, Fact::Master(ok)) => {
                if ok {
                    Probe::Find { device, controller }
                } else {
                    Probe::Failed(Failure::ControllerFailed)
                }
            },
            (Probe::Find { device, controller }, Fact::Found(found)) => match found {
                Some(located) => Probe::Power { device, controller, located },
                None => Probe::Failed(Failure::NoHidDescriptor),
            },
            (Probe::Power { device, controller, located }, Fact::Powered(ok)) => {
                let length: u16 = located.descriptor.report_descriptor_length;
                if !ok {
                    Probe::Failed(Failure::ResetFailed)
                } else if length == 0 || length > MAX_REPORT_DESCRIPTOR {
                    Probe::Failed(Failure::DescriptorTooLarge)
                } else {
                    Probe::Fetch { device, controller, located }
                }
            },
            (Probe::Fetch { device, controller, located }, Fact::Fetched(ok)) => {
                if ok {
                    Probe::Layout { device, controller, located }
                } else {
                    Probe::Failed(Failure::ReportDescriptorFailed)
                }
            },
            (Probe::Layout { device, controller, located }, Fact::Layout { pointer, keyboard }) => {
                if let Some(report) = pointer {
                    Probe::Gate { device, controller, located, layout: Kind::Pointer, report }
                } else if let Some(report) = keyboard {
                    Probe::Gate { device, controller, located, layout: Kind::Keyboard, report }
                } else {
                    Probe::Failed(Failure::NoPointerReport)
                }
            },
            (Probe::Gate { device, controller, located, layout, report }, Fact::Gate(gate)) => {
                Probe::Ready(
                    I2cHid {
                        address: located.address,
                        descriptor: located.descriptor,
                        layout,
                        report,
                        controller,
                        vendor: located.descriptor.vendor,
                        product: located.descriptor.product,
                        interrupt_pin: device.interrupt,
                        discovery: located.discovery,
                        evaluated: device.evaluated,
                        gate,
                        polls: 0,
                        failures: 0,
                    },
                )
            },
            (state, _) => state,
        }
    }
}

/// What a missing link is called: each step fails in its own way, and only
/// where what it waited for did not come.
pub proof fn each_link_fails_in_its_own_way(
    device: Declared,
    address: u64,
    controller: (u8, u8, u8),
    located: Located,
    why: Failure,
)
    ensures
        probe_step(Probe::Tables, Fact::Tables(false)) == Probe::Failed(Failure::NoDsdt),
        probe_step(Probe::Device, Fact::Device(None)) == Probe::Failed(Failure::NoDevice),
        probe_step(Probe::Controller { device }, Fact::Controller(Err(why))) == Probe::Failed(why),
        probe_step(Probe::Pci { device, address }, Fact::Pci(None)) == Probe::Failed(
            Failure::NoControllerPci,
        ),
        probe_step(Probe::Master { device, controller }, Fact::Master(false)) == Probe::Failed(
            Failure::ControllerFailed,
        ),
        probe_step(Probe::Find { device, controller }, Fact::Found(None)) == Probe::Failed(
            Failure::NoHidDescriptor,
        ),
        probe_step(Probe::Power { device, controller, located }, Fact::Powered(false))
            == Probe::Failed(Failure::ResetFailed),
        probe_step(Probe::Power { device, controller, located }, Fact::Powered(true)) == (if 1
            <= located.descriptor.report_descriptor_length <= 2048 {
            Probe::Fetch { device, controller, located }
        } else {
            Probe::Failed(Failure::DescriptorTooLarge)
        }),
        probe_step(Probe::Fetch { device, controller, located }, Fact::Fetched(false))
            == Probe::Failed(Failure::ReportDescriptorFailed),
        probe_step(
            Probe::Layout { device, controller, located },
            Fact::Layout { pointer: None, keyboard: None },
        ) == Probe::Failed(Failure::NoPointerReport),
{
}

/// What a link that came is carried on as, and what the device made ready is: a
/// pointer wherever it has a pointer's report and a keyboard where it has only
/// that, at the address it was found at and on the controller it was found on,
/// with the pin the firmware declares.
pub proof fn what_is_carried_along_the_chain(
    device: Declared,
    address: u64,
    controller: (u8, u8, u8),
    located: Located,
    report: Option<u8>,
    keyboard: Option<Option<u8>>,
    layout: Kind,
    gate: Gate,
)
    ensures
        probe_step(Probe::Tables, Fact::Tables(true)) == Probe::Device,
        probe_step(Probe::Device, Fact::Device(Some(device))) == (Probe::Controller { device }),
        probe_step(Probe::Controller { device }, Fact::Controller(Ok(address))) == (Probe::Pci {
            device,
            address,
        }),
        probe_step(Probe::Pci { device, address }, Fact::Pci(Some(controller)))
            == (Probe::Master { device, controller }),
        probe_step(Probe::Master { device, controller }, Fact::Master(true)) == (Probe::Find {
            device,
            controller,
        }),
        probe_step(Probe::Find { device, controller }, Fact::Found(Some(located)))
            == (Probe::Power { device, controller, located }),
        probe_step(Probe::Fetch { device, controller, located }, Fact::Fetched(true))
            == (Probe::Layout { device, controller, located }),
        probe_step(
            Probe::Layout { device, controller, located },
            Fact::Layout { pointer: Some(report), keyboard },
        ) == (Probe::Gate { device, controller, located, layout: Kind::Pointer, report }),
        probe_step(
            Probe::Layout { device, controller, located },
            Fact::Layout { pointer: None, keyboard: Some(report) },
        ) == (Probe::Gate { device, controller, located, layout: Kind::Keyboard, report }),
        probe_step(
            Probe::Gate { device, controller, located, layout, report },
            Fact::Gate(gate),
        ) matches Probe::Ready(ready) && {
            &&& ready.address == located.address
            &&& ready.descriptor == located.descriptor
            &&& ready.vendor == located.descriptor.vendor
            &&& ready.product == located.descriptor.product
            &&& ready.discovery == located.discovery
            &&& ready.layout == layout
            &&& ready.report == report
            &&& ready.controller == controller
            &&& ready.interrupt_pin == device.interrupt
            &&& ready.evaluated == device.evaluated
            &&& ready.gate == gate
            &&& ready.polls == 0 && ready.failures == 0
        },
{
}

/// How far along the chain a step is.
pub open spec fn links_made(state: Probe) -> int {
    match state {
        Probe::Tables => 0,
        Probe::Device => 1,
        Probe::Controller { .. } => 2,
        Probe::Pci { .. } => 3,
        Probe::Master { .. } => 4,
        Probe::Find { .. } => 5,
        Probe::Power { .. } => 6,
        Probe::Fetch { .. } => 7,
        Probe::Layout { .. } => 8,
        Probe::Gate { .. } => 9,
        Probe::Ready(_) => 10,
        Probe::Failed(_) => 11,
    }
}

/// A probe goes through every link of the chain or stops: a step goes one link
/// on, or fails, or stays where it is; and once it has ended nothing moves it.
pub proof fn no_link_is_skipped(state: Probe, fact: Fact)
    ensures
        ({
            let next = probe_step(state, fact);
            ||| next == state
            ||| next is Failed && !(state is Ready)
            ||| links_made(next) == links_made(state) + 1
        }),
        state is Ready || state is Failed ==> probe_step(state, fact) == state,
{
}

/// A report descriptor is fetched only where all of it will be read, and a
/// device made ready has polled nothing and failed nothing yet.
pub proof fn what_a_probe_leaves(state: Probe, fact: Fact)
    requires
        !(state is Ready),
        !(state is Fetch),
    ensures
        probe_step(state, fact) matches Probe::Fetch { located, .. } ==> is_readable(
            located.descriptor.report_descriptor_length,
        ),
        probe_step(state, fact) matches Probe::Ready(device) ==> device.polls == 0
            && device.failures == 0,
{
}

/// A device is given up on after sixteen reads in a row that failed, and not
/// before; one that comes off puts that off again.
pub proof fn a_silent_device_is_given_up_on(device: I2cHid)
    requires
        device.failures < u32::MAX,
    ensures
        device.is_abandoned() <==> device.failures >= 16,
        device.failures == 15 ==> !device.is_abandoned() && device.heard(false).is_abandoned(),
        device.failures < 15 ==> !device.heard(false).is_abandoned(),
        !device.heard(true).is_abandoned(),
{
}

/// The tables are counted through one after the other: the `j`th device of a
/// table follows all of those before it, and no device is in two tables.
pub proof fn devices_are_numbered_across_tables(
    first: usize,
    counts: Seq<Option<usize>>,
    t: int,
    j: usize,
    index: usize,
    u: int,
)
    requires
        0 <= t < counts.len(),
    ensures
        devices_in(counts, 0) == 0,
        counts[t] matches Some(count) ==> devices_in(counts, t + 1) == devices_in(counts, t) + count,
        counts[t] is None ==> devices_in(counts, t + 1) == devices_in(counts, t) && !stands_in(
            first,
            counts,
            index,
            t,
        ),
        counts[t] matches Some(count) ==> (index == first + devices_in(counts, t) + j ==> (stands_in(
            first,
            counts,
            index,
            t,
        ) <==> j < count)),
        index < first ==> !stands_in(first, counts, index, t),
        stands_in(first, counts, index, t) && stands_in(first, counts, index, u) ==> t == u,
{
    if stands_in(first, counts, index, t) && stands_in(first, counts, index, u) {
        if t < u {
            tables_add_devices(counts, t + 1, u);
        } else if u < t {
            tables_add_devices(counts, u + 1, t);
        }
    }
}

/// More tables hold no fewer devices.
proof fn tables_add_devices(counts: Seq<Option<usize>>, a: int, b: int)
    requires
        0 <= a <= b,
    ensures
        devices_in(counts, a) <= devices_in(counts, b),
    decreases b - a,
{
    if a < b {
        tables_add_devices(counts, a, b - 1);
    }
}

} // verus!
