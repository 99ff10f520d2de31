//! What the cards say: tables of labels and values.

use crate::acpi::{PowerRegisters, RootSource};
use crate::gui::canvas::printed;
use crate::gui::layout::{card_rows, Panel, Tab};
use crate::gui::watch::{Clock, Stopwatch, Timer, Watch};
use crate::hypervisor;
use crate::hypervisor::signature_text;
use crate::i2c_hid::{Discovery, GateState, Mapping};
use crate::input::{Found, I2cFound, Input};
use crate::pmu::{CorePmu, CounterRoute};
use crate::text;
use crate::text::{bytes_text, clip, digits, duration_text, frequency_text, group_clip};
use crate::text::{number_in, padded, utf8, Text};
use vstd::prelude::*;

verus! {

/// One line of a card.
pub struct Row {
    pub label: Vec<u8>,
    pub value: Vec<u8>,
}

/// The lines of a card.
pub struct Rows {
    pub rows: Vec<Row>,
}

impl View for Rows {
    type V = Seq<(Seq<u8>, Seq<u8>)>;

    open spec fn view(&self) -> Seq<(Seq<u8>, Seq<u8>)> {
        Seq::new(self.rows@.len(), |i: int| (self.rows@[i].label@, self.rows@[i].value@))
    }
}

impl Rows {
    pub fn new() -> (r: Rows)
        ensures
            r@ == Seq::<(Seq<u8>, Seq<u8>)>::empty(),
    {
        let r = Rows { rows: Vec::new() };
        assert(r@ =~= Seq::<(Seq<u8>, Seq<u8>)>::empty());
        r
    }

    /// Adds a line.
    pub fn row(&mut self, label: &str, value: &str)
        ensures
            final(self)@ == old(self)@.push((utf8(label), utf8(value))),
    {
        self.rows.push(Row { label: label.as_bytes_vec(), value: value.as_bytes_vec() });
        assert(self@ =~= old(self)@.push((utf8(label), utf8(value))));
    }

    /// Adds a line with a number.
    pub fn value_row(&mut self, label: &str, value: u64)
        ensures
            final(self)@ == old(self)@.push((utf8(label), number(value))),
    {
        broadcast use group_clip;

        let mut text: Text<24> = Text::new();
        text.num(value);
        self.row(label, text.as_str());
    }
}

/// How a number shows in a row.
pub open spec fn number(value: u64) -> Seq<u8> {
    printed(clip(digits(value as nat), 24))
}

/// What the loader says of memory.
#[derive(Debug, Clone, Copy, PartialEq, Eq, Structural)]
pub struct MemoryMap {
    /// Bytes installed; zero where the loader did not say.
    pub total: u64,
    /// Entries of the map.
    pub regions: u64,
}

/// What the machine turned out to be. Measured once, at boot, with nothing
/// else running.
pub struct Machine {
    /// The SIMD backend in use.
    pub backend: &'static str,
    pub avx2: bool,
    pub avx512f: bool,
    pub aesni: bool,
    pub shani: bool,
    pub invariant_counter: bool,
    pub pmu: CorePmu,
    /// What the core type is called.
    pub core_type: &'static str,
    pub route: CounterRoute,
    pub cycles_per_op: Option<u64>,
    pub read_overhead: u64,
    pub worst_read: u64,
    pub hypervisor: hypervisor::Report,
    pub memory: MemoryMap,
    pub footprint: u64,
    pub acpi: Option<PowerRegisters>,
    /// Where the root table came from, and whether it is the 64-bit kind.
    pub root: (RootSource, bool),
    /// Whether there is a back buffer.
    pub composited: bool,
}

impl Machine {
    /// What is left of the worst read once the best is taken.
    pub open spec fn jitter(self) -> u64 {
        if self.worst_read > self.read_overhead {
            (self.worst_read - self.read_overhead) as u64
        } else {
            0
        }
    }
}

/// Yes or no.
pub open spec fn yes_or_no(v: bool) -> Seq<u8> {
    if v {
        utf8("yes")
    } else {
        utf8("no")
    }
}

pub fn yes_no(v: bool) -> (r: &'static str)
    ensures
        utf8(r) == yes_or_no(v),
{
    if v {
        "yes"
    } else {
        "no"
    }
}

// ---------------------------------------------------------------------------
// The processor, its counters and its memory
// ---------------------------------------------------------------------------

/// The processor's panel.
pub open spec fn cpu_table(m: Machine) -> Seq<(Seq<u8>, Seq<u8>)> {
    seq![
        (utf8("backend"), utf8(m.backend)),
        (utf8("AVX2"), yes_or_no(m.avx2)),
        (utf8("AVX-512F"), yes_or_no(m.avx512f)),
        (utf8("AES-NI"), yes_or_no(m.aesni)),
        (utf8("SHA-NI"), yes_or_no(m.shani)),
        (utf8("invariant TSC"), yes_or_no(m.invariant_counter)),
    ]
}

fn cpu_rows(m: &Machine) -> (r: Rows)
    ensures
        r@ == cpu_table(*m),
{
    let mut rows = Rows::new();
    rows.row("backend", m.backend);
    rows.row("AVX2", yes_no(m.avx2));
    rows.row("AVX-512F", yes_no(m.avx512f));
    rows.row("AES-NI", yes_no(m.aesni));
    rows.row("SHA-NI", yes_no(m.shani));
    rows.row("invariant TSC", yes_no(m.invariant_counter));
    rows
}

/// The bytes of a string of characters.
pub open spec fn bytes_of(s: Seq<char>) -> Seq<u8> {
    vstd::utf8::encode_utf8(s)
}

/// The performance counters' panel.
pub open spec fn pmu_table(m: Machine) -> Seq<(Seq<u8>, Seq<u8>)> {
    seq![
        (utf8("core type"), utf8(m.core_type)),
        (utf8("version"), number(m.pmu.leaf.version as u64)),
        (utf8("fixed counters"), number(m.pmu.leaf.fixed_counters as u64)),
        (utf8("general counters"), number(m.pmu.leaf.general_counters as u64)),
        (utf8("route"), bytes_of(m.route.label())),
        (
            utf8("cycles/op"),
            match m.cycles_per_op {
                Some(c) => number(c),
                None => utf8("unavailable"),
            },
        ),
    ]
}

fn pmu_rows(m: &Machine) -> (r: Rows)
    ensures
        r@ == pmu_table(*m),
{
    let mut rows = Rows::new();
    rows.row("core type", m.core_type);
    rows.value_row("version", m.pmu.leaf.version as u64);
    rows.value_row("fixed counters", m.pmu.leaf.fixed_counters as u64);
    rows.value_row("general counters", m.pmu.leaf.general_counters as u64);
    rows.row("route", m.route.name());
    match m.cycles_per_op {
        Some(c) => rows.value_row("cycles/op", c),
        None => rows.row("cycles/op", "unavailable"),
    }
    rows
}

/// The counter's panel.
pub open spec fn counter_table(m: Machine, hz: u64, source: &str) -> Seq<(Seq<u8>, Seq<u8>)> {
    seq![
        (utf8("read overhead"), number(m.read_overhead)),
        (utf8("worst read"), number(m.worst_read)),
        (utf8("jitter"), number(m.jitter())),
        (utf8("frequency"), printed(clip(frequency_text(hz as nat), 16))),
        (utf8("rate from"), utf8(source)),
    ]
}

fn counter_rows<F: Fn(u64) -> u64>(m: &Machine, clock: &Clock<F>) -> (r: Rows)
    ensures
        r@ == counter_table(*m, clock.hz, clock.source),
{
    let mut rows = Rows::new();
    rows.value_row("read overhead", m.read_overhead);
    rows.value_row("worst read", m.worst_read);
    rows.value_row("jitter", m.worst_read.saturating_sub(m.read_overhead));
    rows.row("frequency", text::frequency(clock.hz).as_str());
    rows.row("rate from", clock.source);
    rows
}

/// The memory panel. With no allocator the image *is* the footprint.
pub open spec fn memory_table(m: Machine) -> Seq<(Seq<u8>, Seq<u8>)> {
    seq![
        (
            utf8("installed"),
            if m.memory.total > 0 {
                printed(clip(bytes_text(m.memory.total as nat), 16))
            } else {
                utf8("unreported")
            },
        ),
        (utf8("kernel image"), printed(clip(bytes_text(m.footprint as nat), 16))),
        (utf8("map entries"), number(m.memory.regions)),
        (utf8("allocator"), utf8("none")),
        (utf8("paging"), utf8("identity, 1 GiB pages")),
    ]
}

fn memory_rows(m: &Machine) -> (r: Rows)
    ensures
        r@ == memory_table(*m),
{
    let mut rows = Rows::new();
    let installed = text::bytes(m.memory.total);
    if m.memory.total > 0 {
        rows.row("installed", installed.as_str());
    } else {
        rows.row("installed", "unreported");
    }
    rows.row("kernel image", text::bytes(m.footprint).as_str());
    rows.value_row("map entries", m.memory.regions);
    rows.row("allocator", "none");
    rows.row("paging", "identity, 1 GiB pages");
    rows
}

// ---------------------------------------------------------------------------
// The input devices
// ---------------------------------------------------------------------------

/// How a touchpad's address was arrived at, where that is worth saying.
pub open spec fn discovery_note(discovery: Discovery) -> Seq<u8> {
    match discovery {
        Discovery::Firmware => utf8(""),
        Discovery::ProbedRegister => utf8(" (probed)"),
        Discovery::Scanned => utf8(" (found by scan)"),
    }
}

/// A hexadecimal digit.
pub open spec fn hex_digit(value: int) -> u8 {
    (if value < 10 {
        48 + value
    } else {
        55 + value
    }) as u8
}

/// A number in hexadecimal, zero-padded to at least `width` digits.
pub open spec fn in_hex(value: nat, width: nat) -> Seq<u8>
    decreases value + width,
{
    if value < 16 && width <= 1 {
        seq![hex_digit(value as int)]
    } else {
        in_hex(
            value / 16,
            (if width > 1 {
                width - 1
            } else {
                0
            }) as nat,
        ).push(hex_digit((value % 16) as int))
    }
}

/// Where a touchpad is.
pub open spec fn address_text(pad: I2cFound) -> Seq<u8> {
    (utf8("0x") + in_hex(pad.slave_address as nat, 2) + utf8(" on ") + padded(
        pad.controller.1 as nat,
        2,
    )).push(46u8) + digits(pad.controller.2 as nat) + discovery_note(pad.discovery)
}

/// Who made a touchpad, and which it is.
pub open spec fn ids_text(pad: I2cFound) -> Seq<u8> {
    utf8("0x") + in_hex(pad.vendor as nat, 4) + utf8(":0x") + in_hex(pad.product as nat, 4)
}

/// Which report a touchpad is on, and where its input is.
pub open spec fn detail_text(pad: I2cFound) -> Seq<u8> {
    utf8("report ") + match pad.report_id {
        Some(id) => digits(id as nat),
        None => utf8("none"),
    } + utf8(" @ 0x") + in_hex(pad.input_register as nat, 4)
}

/// What the readiness gate is doing.
pub open spec fn gate_text(gate: GateState) -> Seq<u8> {
    match gate {
        GateState::Blind => utf8("blind — every poll reads the bus"),
        GateState::Learning { watching, reports, quiet } => {
            ((utf8("learning ") + digits(watching as nat) + utf8(" pads (") + digits(
                reports as nat,
            )).push(47u8) + digits(quiet as nat)).push(41u8)
        },
        GateState::Gated { mapping, skipped } => {
            let how = match mapping {
                Mapping::Tabled(part) => utf8(part),
                Mapping::Calibrated => utf8("calibrated"),
            };
            how + utf8(", skipped ") + digits(skipped as nat)
        },
    }
}

/// The touchpad's part of the panel: first, because it is the one that was
/// hardest to reach.
pub open spec fn touchpad_table(found: Found) -> Seq<(Seq<u8>, Seq<u8>)> {
    match found.i2c {
        Some(pad) => seq![
            (utf8("i2c-hid pad"), printed(clip(address_text(pad), 48))),
            (utf8("  vendor:product"), printed(clip(ids_text(pad), 32))),
            (utf8("  input"), printed(clip(detail_text(pad), 32))),
            (utf8("  gpio gate"), printed(clip(gate_text(pad.gate), 48))),
        ],
        None => seq![
            (
                utf8("i2c-hid pad"),
                match found.i2c_failure {
                    Some(why) => bytes_of(why.label()),
                    None => utf8("not probed"),
                },
            ),
        ],
    }
}

/// Appends a number in hexadecimal, zero-padded to at least `width` digits.
fn push_hex<const N: usize>(out: &mut Text<N>, value: u16, width: usize)
    requires
        width <= 4,
    ensures
        final(out)@ == clip(old(out)@ + in_hex(value as nat, width as nat), N as nat),
    decreases value + width,
{
    if value >= 16 || width > 1 {
        push_hex(
            out,
            value / 16,
            if width > 1 {
                width - 1
            } else {
                0
            },
        );
    }
    out.push(hex((value % 16) as u8));
}

fn address_label(pad: &I2cFound) -> (r: Text<48>)
    ensures
        r@ == clip(address_text(*pad), 48),
{
    broadcast use group_clip;

    let mut out: Text<48> = Text::new();
    out.str("0x");
    push_hex(&mut out, pad.slave_address, 2);
    out.str(" on ").pad(pad.controller.1 as u64, 2).push(46).num(pad.controller.2 as u64);
    let note: &str = match pad.discovery {
        Discovery::Firmware => "",
        Discovery::ProbedRegister => " (probed)",
        Discovery::Scanned => " (found by scan)",
    };
    out.str(note);
    out
}

fn ids_label(pad: &I2cFound) -> (r: Text<32>)
    ensures
        r@ == clip(ids_text(*pad), 32),
{
    broadcast use group_clip;

    let mut out: Text<32> = Text::new();
    out.str("0x");
    push_hex(&mut out, pad.vendor, 4);
    out.str(":0x");
    push_hex(&mut out, pad.product, 4);
    out
}

fn detail_label(pad: &I2cFound) -> (r: Text<32>)
    ensures
        r@ == clip(detail_text(*pad), 32),
{
    broadcast use group_clip;

    let mut out: Text<32> = Text::new();
    out.str("report ");
    match pad.report_id {
        Some(id) => {
            out.num(id as u64);
        },
        None => {
            out.str("none");
        },
    }
    out.str(" @ 0x");
    push_hex(&mut out, pad.input_register, 4);
    out
}

fn gate_label(gate: &GateState) -> (r: Text<48>)
    ensures
        r@ == clip(gate_text(*gate), 48),
{
    broadcast use group_clip;

    let mut out: Text<48> = Text::new();
    match *gate {
        GateState::Blind => {
            out.str("blind — every poll reads the bus");
        },
        GateState::Learning { watching, reports, quiet } => {
            out.str("learning ").num(watching as u64).str(" pads (").num(reports as u64).push(
                47,
            ).num(quiet as u64).push(41);
        },
        GateState::Gated { mapping, skipped } => {
            let part: &str = match mapping {
                Mapping::Tabled(part) => part,
                Mapping::Calibrated => "calibrated",
            };
            out.str(part);
            out.str(", skipped ").num(skipped as u64);
        },
    }
    out
}

fn touchpad_rows(found: &Found) -> (r: Rows)
    ensures
        r@ == touchpad_table(*found),
{
    let mut rows = Rows::new();
    match &found.i2c {
        Some(pad) => {
            rows.row("i2c-hid pad", address_label(pad).as_str());
            rows.row("  vendor:product", ids_label(pad).as_str());
            rows.row("  input", detail_label(pad).as_str());
            rows.row("  gpio gate", gate_label(&pad.gate).as_str());
        },
        None => {
            let why: &str = match found.i2c_failure {
                Some(why) => why.name(),
                None => "not probed",
            };
            rows.row("i2c-hid pad", why);
        },
    }
    rows
}

/// Bytes in hexadecimal, a space after each.
pub open spec fn hex_text(bytes: Seq<u8>) -> Seq<u8>
    decreases bytes.len(),
{
    if bytes.len() == 0 {
        seq![]
    } else {
        hex_text(bytes.drop_last()).push(hex_digit(bytes.last() as int / 16)).push(
            hex_digit(bytes.last() as int % 16),
        ).push(32u8)
    }
}

/// The raw bytes, which is the row that settles an argument about a keyboard
/// that does nothing.
pub open spec fn raw_text(recent: Seq<u8>) -> Seq<u8> {
    if recent.len() == 0 {
        utf8("none yet - press a key")
    } else {
        hex_text(recent)
    }
}

/// Which scan code set is in use.
pub open spec fn set_text(set2: bool) -> Seq<u8> {
    if set2 {
        utf8("set ") + digits(2) + utf8(" (untranslated)")
    } else {
        utf8("set ") + digits(1)
    }
}

fn hex(value: u8) -> (r: u8)
    requires
        value < 16,
    ensures
        r == hex_digit(value as int),
{
    if value < 10 {
        48 + value
    } else {
        55 + value
    }
}

fn raw_label(recent: &[u8]) -> (r: Text<48>)
    ensures
        r@ == clip(raw_text(recent@), 48),
{
    broadcast use group_clip;

    let mut out: Text<48> = Text::new();
    if recent.len() == 0 {
        out.str("none yet - press a key");
        return out;
    }
    let mut i: usize = 0;
    assert(recent@.take(0) =~= Seq::<u8>::empty());
    assert(clip(Seq::<u8>::empty(), 48) =~= Seq::<u8>::empty());
    while i < recent.len()
        invariant
            i <= recent@.len(),
            out@ == clip(hex_text(recent@.take(i as int)), 48),
        decreases recent@.len() - i,
    {
        proof {
            assert(recent@.take(i + 1).drop_last() =~= recent@.take(i as int));
        }
        out.push(hex(recent[i] / 16)).push(hex(recent[i] % 16)).push(32);
        i += 1;
    }
    assert(recent@.take(i as int) =~= recent@);
    out
}

fn set_label(set2: bool) -> (r: Text<16>)
    ensures
        r@ == clip(set_text(set2), 16),
{
    broadcast use group_clip;

    let mut out: Text<16> = Text::new();
    if set2 {
        out.str("set ").num(2).str(" (untranslated)");
    } else {
        out.str("set ").num(1);
    }
    out
}

/// The input panel.
pub open spec fn usb_table(input: Input) -> Seq<(Seq<u8>, Seq<u8>)> {
    let found = input.findings();
    touchpad_table(found) + seq![
        (utf8("ps/2 keyboard"), yes_or_no(found.ps2_keyboard)),
        (
            utf8("ps/2 pointer"),
            match found.ps2_pointer {
                Some(kind) => bytes_of(kind.label()),
                None => utf8("none"),
            },
        ),
        (
            utf8("xhci"),
            if found.usb_controller {
                utf8("up")
            } else {
                utf8("not found")
            },
        ),
        (utf8("usb keyboard"), yes_or_no(found.usb_keyboard)),
        (utf8("usb pointer"), yes_or_no(found.usb_pointer)),
        (utf8("ehci / ohci"), utf8("seen, not driven")),
        (utf8("8042 bytes"), printed(clip(raw_text(input.recent@), 48))),
        (utf8("  scancodes"), printed(clip(set_text(input.set2), 16))),
    ]
}

fn usb_rows(input: &Input) -> (r: Rows)
    ensures
        r@ == usb_table(*input),
{
    let found = input.found();
    let mut rows = touchpad_rows(&found);
    rows.row("ps/2 keyboard", yes_no(found.ps2_keyboard));
    let pointer: &str = match found.ps2_pointer {
        Some(kind) => kind.name(),
        None => "none",
    };
    rows.row("ps/2 pointer", pointer);
    let xhci: &str = if found.usb_controller {
        "up"
    } else {
        "not found"
    };
    rows.row("xhci", xhci);
    rows.row("usb keyboard", yes_no(found.usb_keyboard));
    rows.row("usb pointer", yes_no(found.usb_pointer));
    rows.row("ehci / ohci", "seen, not driven");
    rows.row("8042 bytes", raw_label(input.recent_bytes()).as_str());
    rows.row("  scancodes", set_label(input.set2).as_str());
    assert(rows@ =~= usb_table(*input));
    rows
}

// ---------------------------------------------------------------------------
// The hypervisor
// ---------------------------------------------------------------------------

/// How often the host has been asked. Live, not the value taken at boot: if
/// it climbs while the stopwatch runs, a hypercall has got into the frame
/// loop.
pub open spec fn calls_text(calls: u32) -> Seq<u8> {
    digits(calls as nat) + utf8(" (once, at boot)")
}

/// The hypervisor's panel.
pub open spec fn hypervisor_table(report: hypervisor::Report, calls: u32) -> Seq<
    (Seq<u8>, Seq<u8>),
> {
    let signature = signature_text(report.signature@);
    let first = seq![
        (
            utf8("signature"),
            if signature.len() == 0 {
                utf8("none")
            } else {
                bytes_of(signature)
            },
        ),
        (utf8("hypercall"), yes_or_no(report.hypercall_ok)),
    ];
    let last = (utf8("hypercalls"), printed(clip(calls_text(calls), 32)));
    match report.pairing {
        Some(pair) => first.push((utf8("host ns"), number(pair.host_ns))).push(
            (utf8("paired"), utf8("yes")),
        ).push(last),
        None => first.push((utf8("paired"), utf8("no"))).push(last),
    }
}

fn hypervisor_rows(report: &hypervisor::Report, calls: u32) -> (r: Rows)
    ensures
        r@ == hypervisor_table(*report, calls),
{
    broadcast use group_clip;

    let mut rows = Rows::new();
    let signature: &str = report.signature_str();
    if signature.is_empty() {
        rows.row("signature", "none");
    } else {
        rows.row("signature", signature);
    }
    rows.row("hypercall", yes_no(report.hypercall_ok));
    match report.pairing {
        Some(pair) => {
            rows.value_row("host ns", pair.host_ns);
            rows.row("paired", "yes");
        },
        None => {
            rows.row("paired", "no");
        },
    }
    let mut label: Text<32> = Text::new();
    label.num(calls as u64);
    label.str(" (once, at boot)");
    rows.row("hypercalls", label.as_str());
    rows
}

// ---------------------------------------------------------------------------
// The cards
// ---------------------------------------------------------------------------

/// What the selected panel says.
pub open spec fn panel_table<F: Fn(u64) -> u64>(
    panel: Panel,
    m: Machine,
    clock: Clock<F>,
    input: Input,
    calls: u32,
) -> Seq<(Seq<u8>, Seq<u8>)> {
    match panel {
        Panel::Cpu => cpu_table(m),
        Panel::Pmu => pmu_table(m),
        Panel::Counter => counter_table(m, clock.hz, clock.source),
        Panel::Memory => memory_table(m),
        Panel::Usb => usb_table(input),
        Panel::Hypervisor => hypervisor_table(m.hypervisor, calls),
    }
}

/// What the selected panel says.
pub fn panel_rows<F: Fn(u64) -> u64>(
    panel: Panel,
    m: &Machine,
    clock: &Clock<F>,
    input: &Input,
    calls: u32,
) -> (r: Rows)
    ensures
        r@ == panel_table(panel, *m, *clock, *input, calls),
{
    match panel {
        Panel::Cpu => cpu_rows(m),
        Panel::Pmu => pmu_rows(m),
        Panel::Counter => counter_rows(m, clock),
        Panel::Memory => memory_rows(m),
        Panel::Usb => usb_rows(input),
        Panel::Hypervisor => hypervisor_rows(&m.hypervisor, calls),
    }
}

/// A date, as `yyyy-mm-dd`.
pub open spec fn date_text(year: nat, month: nat, day: nat) -> Seq<u8> {
    (padded(year, 4).push(45u8) + padded(month, 2)).push(45u8) + padded(day, 2)
}

/// What the session card says in clock mode.
pub open spec fn clock_table<F: Fn(u64) -> u64>(clock: Clock<F>) -> Seq<(Seq<u8>, Seq<u8>)> {
    let first = match clock.date {
        Some(d) => seq![
            (
                utf8("date"),
                printed(clip(date_text(d.year as nat, d.month as nat, d.day as nat), 16)),
            ),
            (utf8("source"), utf8("cmos rtc")),
        ],
        None => seq![
            (utf8("date"), utf8("no rtc")),
            (utf8("showing"), utf8("time since boot")),
        ],
    };
    first.push((utf8("sub-second from"), utf8("counter"))).push(
        (utf8("resolution"), utf8("1 ns")),
    )
}

/// What a lap is called.
pub open spec fn lap_label(i: nat) -> Seq<u8> {
    printed(clip(utf8("lap ") + digits(i + 1), 8))
}

/// What the session card says of the first `n` laps.
pub open spec fn lap_table<F: Fn(u64) -> u64>(laps: Seq<u64>, clock: Clock<F>, n: int) -> Seq<
    (Seq<u8>, Seq<u8>),
>
    decreases n,
{
    if n <= 0 {
        seq![]
    } else {
        lap_table(laps, clock, n - 1).push(
            (
                lap_label((n - 1) as nat),
                printed(clip(duration_text(clock.ns(laps[n - 1]) as nat, false), 24)),
            ),
        )
    }
}

/// What the session card says in stopwatch mode.
pub open spec fn stopwatch_table<F: Fn(u64) -> u64>(watch: Watch, clock: Clock<F>) -> Seq<
    (Seq<u8>, Seq<u8>),
> {
    let first = seq![
        (
            utf8("state"),
            if watch.running {
                utf8("running")
            } else {
                utf8("stopped")
            },
        ),
        (utf8("ecc"), utf8(watch.integrity.name)),
    ];
    if watch.laps.len() == 0 {
        first.push((utf8("laps"), utf8("none — press L")))
    } else {
        first + lap_table(watch.laps, clock, watch.laps.len() as int)
    }
}

/// What the session card says in timer mode.
pub open spec fn timer_table(timer: Timer) -> Seq<(Seq<u8>, Seq<u8>)> {
    seq![
        (utf8("set to"), printed(clip(duration_text(timer.target_ns as nat, false), 24))),
        (
            utf8("state"),
            if timer.expired {
                utf8("elapsed")
            } else if timer.running {
                utf8("running")
            } else {
                utf8("stopped")
            },
        ),
        (utf8("step"), utf8("10 s")),
        (utf8("alarm"), utf8("visual only (no sound device)")),
    ]
}

/// What the session card says.
pub open spec fn session_table<F: Fn(u64) -> u64>(
    tab: Tab,
    watch: Watch,
    timer: Timer,
    clock: Clock<F>,
) -> Seq<(Seq<u8>, Seq<u8>)> {
    match tab {
        Tab::Clock => clock_table(clock),
        Tab::Stopwatch => stopwatch_table(watch, clock),
        Tab::Timer => timer_table(timer),
    }
}

fn clock_rows<F: Fn(u64) -> u64>(clock: &Clock<F>) -> (r: Rows)
    ensures
        r@ == clock_table(*clock),
{
    broadcast use group_clip;

    let mut rows = Rows::new();
    match clock.date {
        Some(d) => {
            let mut date: Text<16> = Text::new();
            date.pad(d.year as u64, 4).push(45).pad(d.month as u64, 2).push(45).pad(
                d.day as u64,
                2,
            );
            rows.row("date", date.as_str());
            rows.row("source", "cmos rtc");
        },
        None => {
            rows.row("date", "no rtc");
            rows.row("showing", "time since boot");
        },
    }
    rows.row("sub-second from", "counter");
    rows.row("resolution", "1 ns");
    rows
}

fn lap_name(i: usize) -> (r: Text<8>)
    requires
        i < 1000,
    ensures
        printed(r@) == lap_label(i as nat),
{
    broadcast use group_clip;

    let mut label: Text<8> = Text::new();
    label.str("lap ").num(i as u64 + 1);
    label
}

fn stopwatch_rows<F: Fn(u64) -> u64>(watch: &Stopwatch, clock: &Clock<F>) -> (r: Rows)
    requires
        clock.wf(),
        watch.wf(),
    ensures
        r@ == stopwatch_table(watch@, *clock),
{
    let mut rows = Rows::new();
    let state: &str = if watch.running {
        "running"
    } else {
        "stopped"
    };
    rows.row("state", state);
    rows.row("ecc", watch.integrity.name);
    let ghost first = rows@;
    if watch.laps.len() == 0 {
        rows.row("laps", "none — press L");
        return rows;
    }
    let mut i: usize = 0;
    assert(first + lap_table(watch.laps@, *clock, 0) =~= first);
    while i < watch.laps.len()
        invariant
            clock.wf(),
            watch.wf(),
            i <= watch.laps@.len(),
            rows@ == first + lap_table(watch.laps@, *clock, i as int),
        decreases watch.laps@.len() - i,
    {
        let ns: u64 = clock.ticks_to_ns(watch.laps[i]);
        let label = lap_name(i);
        let value = text::duration(ns, false);
        rows.row(label.as_str(), value.as_str());
        i += 1;
        proof {
            let before = lap_table(watch.laps@, *clock, i - 1);
            let row = (
                lap_label((i - 1) as nat),
                printed(clip(duration_text(clock.ns(watch.laps@[i - 1]) as nat, false), 24)),
            );
            assert((first + before).push(row) =~= first + before.push(row));
        }
    }
    rows
}

fn timer_rows(timer: &Timer) -> (r: Rows)
    ensures
        r@ == timer_table(*timer),
{
    let mut rows = Rows::new();
    rows.row("set to", text::duration(timer.target_ns, false).as_str());
    let state: &str = if timer.expired {
        "elapsed"
    } else if timer.running {
        "running"
    } else {
        "stopped"
    };
    rows.row("state", state);
    rows.row("step", "10 s");
    rows.row("alarm", "visual only (no sound device)");
    rows
}

/// What the session card says.
pub fn session_rows<F: Fn(u64) -> u64>(
    tab: Tab,
    watch: &Stopwatch,
    timer: &Timer,
    clock: &Clock<F>,
) -> (r: Rows)
    requires
        clock.wf(),
        watch.wf(),
    ensures
        r@ == session_table(tab, watch@, *timer, *clock),
{
    match tab {
        Tab::Clock => clock_rows(clock),
        Tab::Stopwatch => stopwatch_rows(watch, clock),
        Tab::Timer => timer_rows(timer),
    }
}

/// What the machine card says.
pub open spec fn machine_table(m: Machine, hz: u64) -> Seq<(Seq<u8>, Seq<u8>)> {
    seq![
        (utf8("operating system"), utf8("none")),
        (utf8("acpi root"), bytes_of(m.root.0.label())),
        (
            utf8("root table"),
            if m.root.1 {
                utf8("xsdt (64-bit)")
            } else {
                utf8("rsdt (32-bit)")
            },
        ),
        (utf8("counter rate"), printed(clip(frequency_text(hz as nat), 16))),
        (
            utf8("acpi"),
            if m.acpi is Some {
                utf8("present")
            } else {
                utf8("absent")
            },
        ),
        (
            utf8("compositing"),
            if m.composited {
                utf8("back buffer")
            } else {
                utf8("direct")
            },
        ),
        (utf8("interrupts"), utf8("masked")),
    ]
}

/// What the machine card says.
pub fn machine_rows(m: &Machine, hz: u64) -> (r: Rows)
    ensures
        r@ == machine_table(*m, hz),
{
    let mut rows = Rows::new();
    rows.row("operating system", "none");
    rows.row("acpi root", m.root.0.name());
    let kind: &str = if m.root.1 {
        "xsdt (64-bit)"
    } else {
        "rsdt (32-bit)"
    };
    rows.row("root table", kind);
    rows.row("counter rate", text::frequency(hz).as_str());
    let acpi: &str = if m.acpi.is_some() {
        "present"
    } else {
        "absent"
    };
    rows.row("acpi", acpi);
    let compositing: &str = if m.composited {
        "back buffer"
    } else {
        "direct"
    };
    rows.row("compositing", compositing);
    rows.row("interrupts", "masked");
    rows
}

/// No card holds more rows than the layout makes room for: not the panel's,
/// whichever is selected, not the session's, with the machine summary folded
/// into it where there are fewer than three cards, and not the machine's.
pub proof fn cards_have_room<F: Fn(u64) -> u64>(
    panel: Panel,
    tab: Tab,
    watch: Watch,
    timer: Timer,
    clock: Clock<F>,
    m: Machine,
    input: Input,
    calls: u32,
)
    requires
        watch.laps.len() <= 6,
    ensures
        panel_table(panel, m, clock, input, calls).len() <= card_rows(3) <= card_rows(2),
        session_table(tab, watch, timer, clock).len() <= card_rows(3),
        machine_table(m, clock.hz).len() <= card_rows(3),
        session_table(tab, watch, timer, clock).len() + machine_table(m, clock.hz).len()
            <= card_rows(2),
{
    match panel {
        Panel::Cpu => cpu_table_len(m),
        Panel::Pmu => pmu_table_len(m),
        Panel::Counter => counter_table_len(m, clock.hz, clock.source),
        Panel::Memory => memory_table_len(m),
        Panel::Usb => usb_table_len(input),
        Panel::Hypervisor => hypervisor_table_len(m.hypervisor, calls),
    }
    clock_table_len(clock);
    stopwatch_table_len(watch, clock);
    timer_table_len(timer);
    machine_table_len(m, clock.hz);
}

proof fn clock_table_len<F: Fn(u64) -> u64>(clock: Clock<F>)
    ensures
        clock_table(clock).len() == 4,
{
}

proof fn stopwatch_table_len<F: Fn(u64) -> u64>(watch: Watch, clock: Clock<F>)
    requires
        watch.laps.len() <= 6,
    ensures
        stopwatch_table(watch, clock).len() <= 8,
{
    lap_table_len(watch.laps, clock, watch.laps.len() as int);
}

proof fn timer_table_len(timer: Timer)
    ensures
        timer_table(timer).len() == 4,
{
}

proof fn machine_table_len(m: Machine, hz: u64)
    ensures
        machine_table(m, hz).len() == 7,
{
}

proof fn lap_table_len<F: Fn(u64) -> u64>(laps: Seq<u64>, clock: Clock<F>, n: int)
    requires
        n >= 0,
    ensures
        lap_table(laps, clock, n).len() == n,
    decreases n,
{
    if n > 0 {
        lap_table_len(laps, clock, n - 1);
    }
}

proof fn cpu_table_len(m: Machine)
    ensures
        cpu_table(m).len() == 6,
{
}

proof fn pmu_table_len(m: Machine)
    ensures
        pmu_table(m).len() == 6,
{
}

proof fn counter_table_len(m: Machine, hz: u64, source: &str)
    ensures
        counter_table(m, hz, source).len() == 5,
{
}

proof fn memory_table_len(m: Machine)
    ensures
        memory_table(m).len() == 5,
{
}

proof fn touchpad_table_len(found: Found)
    ensures
        touchpad_table(found).len() <= 4,
{
}

proof fn usb_table_len(input: Input)
    ensures
        usb_table(input).len() <= 12,
{
    touchpad_table_len(input.findings());
}

proof fn hypervisor_table_len(report: hypervisor::Report, calls: u32)
    ensures
        hypervisor_table(report, calls).len() <= 5,
{
}

// ---------------------------------------------------------------------------
// What is said, and under which label
// ---------------------------------------------------------------------------

/// A table has a row with this label and this value.
pub open spec fn says(
    table: Seq<(Seq<u8>, Seq<u8>)>,
    i: int,
    label: &str,
    value: Seq<u8>,
) -> bool {
    &&& 0 <= i < table.len()
    &&& table[i] == (utf8(label), value)
}

/// A table has a row with this label that says yes where something is so and no
/// where it is not.
pub open spec fn tells(
    table: Seq<(Seq<u8>, Seq<u8>)>,
    i: int,
    label: &str,
    value: bool,
) -> bool {
    &&& 0 <= i < table.len()
    &&& table[i].0 == utf8(label)
    &&& value ==> table[i].1 == utf8("yes")
    &&& !value ==> table[i].1 == utf8("no")
}

/// A table has a row with this label whose digits read as a number.
pub open spec fn counts(
    table: Seq<(Seq<u8>, Seq<u8>)>,
    i: int,
    label: &str,
    value: int,
) -> bool {
    &&& 0 <= i < table.len()
    &&& table[i].0 == utf8(label)
    &&& number_in(table[i].1) == value
    &&& 1 <= table[i].1.len() <= 20
}

/// A number in a row is there in full and reads back.
pub proof fn a_number_is_shown_in_full(value: u64)
    ensures
        number(value) == digits(value as nat),
        number_in(number(value)) == value,
        1 <= number(value).len() <= 20,
{
    reveal(vstd::arithmetic::power::pow);
    reveal_with_fuel(vstd::arithmetic::power::pow, 21);
    text::digits_len(value as nat, 20);
    text::digits_are_ascii(value as nat);
    text::ascii_is_shown_as_it_is(digits(value as nat));
    text::digits_stand_for_their_number(value as nat, 0);
}

/// The processor's panel says of every feature whether it is there.
pub proof fn what_is_said_of_the_processor(m: Machine)
    ensures
        says(cpu_table(m), 0, "backend", utf8(m.backend)),
        tells(cpu_table(m), 1, "AVX2", m.avx2),
        tells(cpu_table(m), 2, "AVX-512F", m.avx512f),
        tells(cpu_table(m), 3, "AES-NI", m.aesni),
        tells(cpu_table(m), 4, "SHA-NI", m.shani),
        tells(cpu_table(m), 5, "invariant TSC", m.invariant_counter),
        cpu_table(m).len() == 6,
{
}

/// The counters' panel counts them, and says how they are read and what an
/// operation costs where that was measured.
pub proof fn what_is_said_of_the_counters(m: Machine)
    ensures
        says(pmu_table(m), 0, "core type", utf8(m.core_type)),
        counts(pmu_table(m), 1, "version", m.pmu.leaf.version as int),
        counts(pmu_table(m), 2, "fixed counters", m.pmu.leaf.fixed_counters as int),
        counts(pmu_table(m), 3, "general counters", m.pmu.leaf.general_counters as int),
        says(pmu_table(m), 4, "route", bytes_of(m.route.label())),
        m.cycles_per_op matches Some(cost) ==> counts(pmu_table(m), 5, "cycles/op", cost as int),
        m.cycles_per_op is None ==> says(pmu_table(m), 5, "cycles/op", utf8("unavailable")),
        pmu_table(m).len() == 6,
{
    a_number_is_shown_in_full(m.pmu.leaf.version as u64);
    a_number_is_shown_in_full(m.pmu.leaf.fixed_counters as u64);
    a_number_is_shown_in_full(m.pmu.leaf.general_counters as u64);
    if let Some(cost) = m.cycles_per_op {
        a_number_is_shown_in_full(cost);
    }
}

/// The counter's panel says what a read costs at best and at worst, and how far
/// apart the two are: nothing where the worst is no more than the best.
pub proof fn what_is_said_of_the_counter(m: Machine, hz: u64, source: &str)
    ensures
        counts(counter_table(m, hz, source), 0, "read overhead", m.read_overhead as int),
        counts(counter_table(m, hz, source), 1, "worst read", m.worst_read as int),
        m.worst_read >= m.read_overhead ==> counts(
            counter_table(m, hz, source),
            2,
            "jitter",
            m.worst_read - m.read_overhead,
        ),
        m.worst_read <= m.read_overhead ==> counts(
            counter_table(m, hz, source),
            2,
            "jitter",
            0,
        ),
        says(
            counter_table(m, hz, source),
            3,
            "frequency",
            printed(clip(frequency_text(hz as nat), 16)),
        ),
        says(counter_table(m, hz, source), 4, "rate from", utf8(source)),
        counter_table(m, hz, source).len() == 5,
{
    a_number_is_shown_in_full(m.read_overhead);
    a_number_is_shown_in_full(m.worst_read);
    a_number_is_shown_in_full(m.jitter());
}

/// The memory panel says what there is, where the loader reported it, and what
/// of it the kernel takes.
pub proof fn what_is_said_of_memory(m: Machine)
    ensures
        m.memory.total > 0 ==> says(
            memory_table(m),
            0,
            "installed",
            printed(clip(bytes_text(m.memory.total as nat), 16)),
        ),
        m.memory.total == 0 ==> says(memory_table(m), 0, "installed", utf8("unreported")),
        says(
            memory_table(m),
            1,
            "kernel image",
            printed(clip(bytes_text(m.footprint as nat), 16)),
        ),
        counts(memory_table(m), 2, "map entries", m.memory.regions as int),
        says(memory_table(m), 3, "allocator", utf8("none")),
        says(memory_table(m), 4, "paging", utf8("identity, 1 GiB pages")),
        memory_table(m).len() == 5,
{
    a_number_is_shown_in_full(m.memory.regions);
}

/// A hexadecimal number reads back, in capitals and in as many digits as it was
/// asked for at least.
pub proof fn hexadecimal_reads_back(value: nat, width: nat)
    ensures
        crate::log::hex_number_in(in_hex(value, width)) == value,
        in_hex(value, width).len() >= width,
        in_hex(value, width).len() >= 1,
        value < 16 && width <= 1 ==> in_hex(value, width).len() == 1,
        value < 256 && width == 2 ==> in_hex(value, width).len() == 2,
        value < 65536 && width == 4 ==> in_hex(value, width).len() == 4,
        forall|i: int|
            0 <= i < in_hex(value, width).len() ==> 48 <= #[trigger] in_hex(value, width)[i] <= 57
                || 65 <= in_hex(value, width)[i] <= 70,
    decreases value + width,
{
    reveal_with_fuel(in_hex, 5);
    if value < 16 && width <= 1 {
        assert(in_hex(value, width).drop_last() =~= Seq::<u8>::empty());
        assert(crate::log::hex_number_in(Seq::<u8>::empty()) == 0);
    } else {
        let less = (if width > 1 {
            width - 1
        } else {
            0
        }) as nat;
        hexadecimal_reads_back(value / 16, less);
        assert(in_hex(value, width).drop_last() =~= in_hex(value / 16, less));
    }
}

/// Who made a touchpad and which it is read back from its row, and so does where
/// it is on its bus.
pub proof fn what_is_said_of_a_touchpad(pad: I2cFound)
    ensures
        ({
            let ids = ids_text(pad);
            &&& ids.len() == 13
            &&& ids[0] == 48 && ids[1] == 120 && ids[6] == 58 && ids[7] == 48 && ids[8] == 120
            &&& crate::log::hex_number_in(ids.subrange(2, 6)) == pad.vendor
            &&& crate::log::hex_number_in(ids.subrange(9, 13)) == pad.product
        }),
        ({
            let (place, slot) = (address_text(pad), padded(pad.controller.1 as nat, 2));
            &&& place.take(2) == utf8("0x")
            &&& pad.slave_address < 256 ==> crate::log::hex_number_in(place.subrange(2, 4))
                == pad.slave_address && place.subrange(4, 8 + slot.len() as int) == utf8(" on ") + slot
            &&& pad.discovery == Discovery::Firmware ==> text::holds(
                place,
                seq![46u8] + digits(pad.controller.2 as nat),
            )
            &&& pad.discovery == Discovery::ProbedRegister ==> text::holds(
                place,
                seq![46u8] + digits(pad.controller.2 as nat) + utf8(" (probed)"),
            )
            &&& pad.discovery == Discovery::Scanned ==> text::holds(
                place,
                seq![46u8] + digits(pad.controller.2 as nat) + utf8(" (found by scan)"),
            )
        }),
        ({
            let detail = detail_text(pad);
            &&& pad.report_id matches Some(id) ==> text::holds(
                detail,
                utf8("report ") + digits(id as nat),
            )
            &&& pad.report_id is None ==> text::holds(detail, utf8("report ") + utf8("none"))
            &&& crate::log::hex_number_in(detail.skip(detail.len() - 4)) == pad.input_register
        }),
{
    reveal_strlit("0x");
    reveal_strlit(":0x");
    reveal_strlit(" on ");
    broadcast use vstd::utf8::is_ascii_chars_encode_utf8;

    assert(vstd::utf8::is_ascii_chars("0x"@));
    assert(vstd::utf8::is_ascii_chars(":0x"@));
    assert(vstd::utf8::is_ascii_chars(" on "@));
    hexadecimal_reads_back(pad.vendor as nat, 4);
    hexadecimal_reads_back(pad.product as nat, 4);
    hexadecimal_reads_back(pad.slave_address as nat, 2);
    hexadecimal_reads_back(pad.input_register as nat, 4);
    let ids = ids_text(pad);
    assert(ids.subrange(2, 6) =~= in_hex(pad.vendor as nat, 4));
    assert(ids.subrange(9, 13) =~= in_hex(pad.product as nat, 4));
    let (place, slot) = (address_text(pad), padded(pad.controller.1 as nat, 2));
    let address = in_hex(pad.slave_address as nat, 2);
    let bus = utf8("0x") + address + utf8(" on ") + slot;
    let function = digits(pad.controller.2 as nat);
    let note = discovery_note(pad.discovery);
    assert(place.take(2) =~= utf8("0x"));
    if pad.slave_address < 256 {
        assert(place.subrange(2, 4) =~= address);
        assert(place.subrange(4, 8 + slot.len() as int) =~= utf8(" on ") + slot);
    }
    assert(place =~= bus + (seq![46u8] + function + note) + Seq::<u8>::empty());
    assert(text::splits(place, bus, seq![46u8] + function + note, Seq::<u8>::empty()));
    assert(place =~= bus + (seq![46u8] + function) + note);
    assert(text::splits(place, bus, seq![46u8] + function, note));
    let detail = detail_text(pad);
    let id = match pad.report_id {
        Some(id) => digits(id as nat),
        None => utf8("none"),
    };
    let rest = utf8(" @ 0x") + in_hex(pad.input_register as nat, 4);
    assert(detail =~= Seq::<u8>::empty() + (utf8("report ") + id) + rest);
    assert(text::splits(detail, Seq::<u8>::empty(), utf8("report ") + id, rest));
    assert(detail.skip(detail.len() - 4) =~= in_hex(pad.input_register as nat, 4));
}

/// What the readiness gate's row says: nothing is known, what has been seen so
/// far while learning, or how the pad was found and how many reads it saved.
pub proof fn what_is_said_of_the_gate(gate: GateState)
    ensures
        gate is Blind ==> gate_text(gate) == utf8("blind — every poll reads the bus"),
        gate matches GateState::Learning { watching, reports, quiet } ==> {
            &&& text::holds(gate_text(gate), utf8("learning ") + digits(watching as nat))
            &&& text::holds(gate_text(gate), utf8(" pads (") + digits(reports as nat))
            &&& text::holds(gate_text(gate), seq![47u8] + digits(quiet as nat) + seq![41u8])
        },
        gate matches GateState::Gated { mapping, skipped } ==> {
            &&& text::holds(gate_text(gate), utf8(", skipped ") + digits(skipped as nat))
            &&& mapping matches Mapping::Tabled(part) ==> utf8(part).is_prefix_of(gate_text(gate))
            &&& mapping is Calibrated ==> utf8("calibrated").is_prefix_of(gate_text(gate))
        },
{
    match gate {
        GateState::Blind => {},
        GateState::Learning { watching, reports, quiet } => {
            let (a, b, c) = (digits(watching as nat), digits(reports as nat), digits(quiet as nat));
            let (l, p) = (utf8("learning "), utf8(" pads ("));
            let line = gate_text(gate);
            let none = Seq::<u8>::empty();
            let back = p + b + seq![47u8] + c + seq![41u8];
            assert(line =~= none + (l + a) + back);
            assert(text::splits(line, none, l + a, back));
            assert(line =~= (l + a) + (p + b) + (seq![47u8] + c + seq![41u8]));
            assert(text::splits(line, l + a, p + b, seq![47u8] + c + seq![41u8]));
            assert(line =~= (l + a + p + b) + (seq![47u8] + c + seq![41u8]) + none);
            assert(text::splits(line, l + a + p + b, seq![47u8] + c + seq![41u8], none));
        },
        GateState::Gated { mapping, skipped } => {
            let how = match mapping {
                Mapping::Tabled(part) => utf8(part),
                Mapping::Calibrated => utf8("calibrated"),
            };
            text::held_there(how, utf8(", skipped "), digits(skipped as nat));
            assert(how =~= gate_text(gate).take(how.len() as int));
        },
    }
}

/// Every byte takes three places: two hexadecimal digits that read back as it,
/// and a space.
pub proof fn bytes_read_back(bytes: Seq<u8>, i: int)
    requires
        0 <= i < bytes.len(),
    ensures
        hex_text(bytes).len() == 3 * bytes.len(),
        crate::log::hex_number_in(hex_text(bytes).subrange(3 * i, 3 * i + 2)) == bytes[i],
        hex_text(bytes)[3 * i + 2] == 32,
    decreases bytes.len(),
{
    let front = bytes.drop_last();
    let last = bytes.last() as int;
    if front.len() > 0 {
        bytes_read_back(front, 0);
    } else {
        assert(hex_text(front).len() == 0);
    }
    if i < front.len() {
        bytes_read_back(front, i);
        assert(hex_text(bytes).subrange(3 * i, 3 * i + 2) =~= hex_text(front).subrange(
            3 * i,
            3 * i + 2,
        ));
    } else {
        let pair = hex_text(bytes).subrange(3 * i, 3 * i + 2);
        assert(pair =~= seq![hex_digit(last / 16), hex_digit(last % 16)]);
        reveal_with_fuel(crate::log::hex_number_in, 3);
        assert(pair.drop_last() =~= seq![hex_digit(last / 16)]);
        assert(pair.drop_last().drop_last() =~= Seq::<u8>::empty());
    }
}

/// The input panel says of every device whether it was found, and of a touchpad
/// that was not why.
pub proof fn what_is_said_of_the_input(input: Input)
    ensures
        ({
            let found = input.findings();
            let table = usb_table(input);
            let n = table.len() - 8;
            &&& found.i2c matches Some(pad) ==> {
                &&& n == 4
                &&& says(table, 0, "i2c-hid pad", printed(clip(address_text(pad), 48)))
                &&& says(table, 1, "  vendor:product", printed(clip(ids_text(pad), 32)))
                &&& says(table, 2, "  input", printed(clip(detail_text(pad), 32)))
                &&& says(table, 3, "  gpio gate", printed(clip(gate_text(pad.gate), 48)))
            }
            &&& found.i2c is None ==> n == 1
            &&& found.i2c is None && found.i2c_failure is None ==> says(
                table,
                0,
                "i2c-hid pad",
                utf8("not probed"),
            )
            &&& found.i2c is None ==> (found.i2c_failure matches Some(why) ==> says(
                table,
                0,
                "i2c-hid pad",
                bytes_of(why.label()),
            ))
            &&& tells(table, n, "ps/2 keyboard", found.ps2_keyboard)
            &&& found.ps2_pointer matches Some(kind) ==> says(
                table,
                n + 1,
                "ps/2 pointer",
                bytes_of(kind.label()),
            )
            &&& found.ps2_pointer is None ==> says(table, n + 1, "ps/2 pointer", utf8("none"))
            &&& found.usb_controller ==> says(table, n + 2, "xhci", utf8("up"))
            &&& !found.usb_controller ==> says(table, n + 2, "xhci", utf8("not found"))
            &&& tells(table, n + 3, "usb keyboard", found.usb_keyboard)
            &&& tells(table, n + 4, "usb pointer", found.usb_pointer)
            &&& says(table, n + 5, "ehci / ohci", utf8("seen, not driven"))
            &&& input.recent@.len() == 0 ==> says(
                table,
                n + 6,
                "8042 bytes",
                printed(clip(utf8("none yet - press a key"), 48)),
            )
            &&& input.recent@.len() > 0 ==> says(
                table,
                n + 6,
                "8042 bytes",
                printed(clip(hex_text(input.recent@), 48)),
            )
            &&& input.set2 ==> says(
                table,
                n + 7,
                "  scancodes",
                printed(clip(utf8("set ") + digits(2) + utf8(" (untranslated)"), 16)),
            )
            &&& !input.set2 ==> says(
                table,
                n + 7,
                "  scancodes",
                printed(clip(utf8("set ") + digits(1), 16)),
            )
        }),
{
    let pad = touchpad_table(input.findings());
    assert(pad.len() == 4 || pad.len() == 1);
}

/// The hypervisor's panel names it, where there is one, says whether it answers,
/// what the host's clock said where the two were paired, and how often it was
/// asked.
pub proof fn what_is_said_of_the_hypervisor(report: hypervisor::Report, calls: u32)
    ensures
        ({
            let table = hypervisor_table(report, calls);
            let signature = signature_text(report.signature@);
            &&& signature.len() == 0 ==> says(table, 0, "signature", utf8("none"))
            &&& signature.len() > 0 ==> says(table, 0, "signature", bytes_of(signature))
            &&& tells(table, 1, "hypercall", report.hypercall_ok)
            &&& report.pairing matches Some(pair) ==> table.len() == 5 && counts(
                table,
                2,
                "host ns",
                pair.host_ns as int,
            ) && tells(table, 3, "paired", true)
            &&& report.pairing is None ==> table.len() == 4 && tells(table, 2, "paired", false)
            &&& table.last().0 == utf8("hypercalls")
            &&& table.last().1 == printed(
                clip(digits(calls as nat) + utf8(" (once, at boot)"), 32),
            )
        }),
{
    if let Some(pair) = report.pairing {
        a_number_is_shown_in_full(pair.host_ns);
    }
}

/// Every panel has its own table.
pub proof fn every_panel_has_its_table<F: Fn(u64) -> u64>(
    panel: Panel,
    m: Machine,
    clock: Clock<F>,
    input: Input,
    calls: u32,
)
    ensures
        ({
            let table = panel_table(panel, m, clock, input, calls);
            &&& panel == Panel::Cpu ==> is_table(table, cpu_table(m))
            &&& panel == Panel::Pmu ==> is_table(table, pmu_table(m))
            &&& panel == Panel::Counter ==> is_table(
                table,
                counter_table(m, clock.hz, clock.source),
            )
            &&& panel == Panel::Memory ==> is_table(table, memory_table(m))
            &&& panel == Panel::Usb ==> is_table(table, usb_table(input))
            &&& panel == Panel::Hypervisor ==> is_table(
                table,
                hypervisor_table(m.hypervisor, calls),
            )
        }),
{
}

/// Every mode has its own table.
pub proof fn every_mode_has_its_table<F: Fn(u64) -> u64>(
    tab: Tab,
    watch: Watch,
    timer: Timer,
    clock: Clock<F>,
)
    ensures
        ({
            let table = session_table(tab, watch, timer, clock);
            &&& tab == Tab::Clock ==> is_table(table, clock_table(clock))
            &&& tab == Tab::Stopwatch ==> is_table(table, stopwatch_table(watch, clock))
            &&& tab == Tab::Timer ==> is_table(table, timer_table(timer))
        }),
{
}

/// Two tables are one.
pub open spec fn is_table(a: Seq<(Seq<u8>, Seq<u8>)>, b: Seq<(Seq<u8>, Seq<u8>)>) -> bool {
    a == b
}

/// A date in this era reads back: four digits of a year, two of a month and two
/// of a day, with dashes between.
pub proof fn a_date_reads_back(year: nat, month: nat, day: nat)
    requires
        year < 10_000,
        month < 100,
        day < 100,
    ensures
        ({
            let date = date_text(year, month, day);
            &&& date.len() == 10 && date[4] == 45 && date[7] == 45
            &&& number_in(date.take(4)) == year
            &&& number_in(date.subrange(5, 7)) == month
            &&& number_in(date.subrange(8, 10)) == day
            &&& printed(clip(date, 16)) == date
        }),
{
    reveal(vstd::arithmetic::power::pow);
    reveal_with_fuel(vstd::arithmetic::power::pow, 5);
    text::digits_len(year, 4);
    text::digits_len(month, 2);
    text::digits_len(day, 2);
    text::padded_is_at_least_as_wide(year, 4);
    text::padded_is_at_least_as_wide(month, 2);
    text::padded_is_at_least_as_wide(day, 2);
    text::digits_stand_for_their_number(year, 4);
    text::digits_stand_for_their_number(month, 2);
    text::digits_stand_for_their_number(day, 2);
    text::padded_is_ascii(year, 4);
    text::padded_is_ascii(month, 2);
    text::padded_is_ascii(day, 2);
    let date = date_text(year, month, day);
    assert(date.take(4) =~= padded(year, 4));
    assert(date.subrange(5, 7) =~= padded(month, 2));
    assert(date.subrange(8, 10) =~= padded(day, 2));
    text::ascii_is_shown_as_it_is(date);
}

/// The session card says the date and where it is from, or that there is none
/// and what is shown instead.
pub proof fn what_is_said_of_the_time<F: Fn(u64) -> u64>(clock: Clock<F>)
    ensures
        clock.date matches Some(d) ==> says(
            clock_table(clock),
            0,
            "date",
            printed(clip(date_text(d.year as nat, d.month as nat, d.day as nat), 16)),
        ) && says(clock_table(clock), 1, "source", utf8("cmos rtc")),
        clock.date is None ==> says(clock_table(clock), 0, "date", utf8("no rtc")) && says(
            clock_table(clock),
            1,
            "showing",
            utf8("time since boot"),
        ),
        says(clock_table(clock), 2, "sub-second from", utf8("counter")),
        says(clock_table(clock), 3, "resolution", utf8("1 ns")),
        clock_table(clock).len() == 4,
{
}

/// The session card says whether the stopwatch runs, what the store found, and
/// every lap under its number, counted from one, in the order they were recorded
/// and as the time at which each was.
pub proof fn what_is_said_of_the_stopwatch<F: Fn(u64) -> u64>(watch: Watch, clock: Clock<F>, i: int)
    requires
        0 <= i < watch.laps.len() <= 6,
        clock.ns(watch.laps[i]) < 360_000_000_000_000,
    ensures
        ({
            let table = stopwatch_table(watch, clock);
            let ns = clock.ns(watch.laps[i]);
            let (label, value) = table[2 + i];
            &&& table.len() == 2 + watch.laps.len()
            &&& watch.running ==> says(table, 0, "state", utf8("running"))
            &&& !watch.running ==> says(table, 0, "state", utf8("stopped"))
            &&& says(table, 1, "ecc", utf8(watch.integrity.name))
            &&& label == utf8("lap ") + seq![(49 + i) as u8]
            &&& value.len() == 12
            &&& (number_in(value.take(2)) * 3600 + number_in(value.subrange(3, 5)) * 60 + number_in(
                value.subrange(6, 8),
            )) * 1000 + number_in(value.subrange(9, 12)) == ns / 1_000_000
        }),
{
    lap_table_len(watch.laps, clock, watch.laps.len() as int);
    a_lap_has_its_row(watch.laps, clock, watch.laps.len() as int, i);
    let ns = clock.ns(watch.laps[i]) as nat;
    text::duration_fits(ns);
    text::figures_are_ascii(ns, false);
    text::ascii_is_shown_as_it_is(duration_text(ns, false));
    text::a_duration_reads_back(ns);
    text::a_duration_is_digits(ns);
    let (value, whole) = (duration_text(ns, false), duration_text(ns, true));
    assert(value.take(2) =~= whole.take(2));
    assert(value.subrange(3, 5) =~= whole.subrange(3, 5));
    assert(value.subrange(6, 8) =~= whole.subrange(6, 8));
    assert(value.subrange(9, 12) =~= whole.subrange(9, 12));
    assert(digits((i + 1) as nat) =~= seq![(49 + i) as u8]);
    reveal_strlit("lap ");
    assert(vstd::utf8::is_ascii_chars("lap "@));
    vstd::utf8::is_ascii_chars_encode_utf8("lap "@);
    text::ascii_is_shown_as_it_is(utf8("lap ") + digits((i + 1) as nat));
}

/// Each lap has one row, and the rows follow the laps.
proof fn a_lap_has_its_row<F: Fn(u64) -> u64>(laps: Seq<u64>, clock: Clock<F>, n: int, i: int)
    requires
        0 <= i < n,
    ensures
        lap_table(laps, clock, n).len() == n,
        lap_table(laps, clock, n)[i] == (
            lap_label(i as nat),
            printed(clip(duration_text(clock.ns(laps[i]) as nat, false), 24)),
        ),
    decreases n,
{
    lap_table_len(laps, clock, n - 1);
    if i < n - 1 {
        a_lap_has_its_row(laps, clock, n - 1, i);
    }
}

/// Without a lap the card says how to record one.
pub proof fn what_is_said_without_a_lap<F: Fn(u64) -> u64>(watch: Watch, clock: Clock<F>)
    requires
        watch.laps.len() == 0,
    ensures
        stopwatch_table(watch, clock).len() == 3,
        watch.running ==> says(stopwatch_table(watch, clock), 0, "state", utf8("running")),
        !watch.running ==> says(stopwatch_table(watch, clock), 0, "state", utf8("stopped")),
        says(stopwatch_table(watch, clock), 1, "ecc", utf8(watch.integrity.name)),
        says(stopwatch_table(watch, clock), 2, "laps", utf8("none — press L")),
{
}

/// The session card says what the timer is set to, and whether it has run out,
/// runs or is stopped.
pub proof fn what_is_said_of_the_timer(timer: Timer)
    ensures
        says(
            timer_table(timer),
            0,
            "set to",
            printed(clip(duration_text(timer.target_ns as nat, false), 24)),
        ),
        timer.expired ==> says(timer_table(timer), 1, "state", utf8("elapsed")),
        !timer.expired && timer.running ==> says(timer_table(timer), 1, "state", utf8("running")),
        !timer.expired && !timer.running ==> says(timer_table(timer), 1, "state", utf8("stopped")),
        says(timer_table(timer), 2, "step", utf8("10 s")),
        says(timer_table(timer), 3, "alarm", utf8("visual only (no sound device)")),
        timer_table(timer).len() == 4,
{
}

/// The machine card says which root table was found and where, the counter's
/// rate, and whether there is power management and a back buffer.
pub proof fn what_is_said_of_the_machine(m: Machine, hz: u64)
    ensures
        says(machine_table(m, hz), 0, "operating system", utf8("none")),
        says(machine_table(m, hz), 1, "acpi root", bytes_of(m.root.0.label())),
        m.root.1 ==> says(machine_table(m, hz), 2, "root table", utf8("xsdt (64-bit)")),
        !m.root.1 ==> says(machine_table(m, hz), 2, "root table", utf8("rsdt (32-bit)")),
        says(
            machine_table(m, hz),
            3,
            "counter rate",
            printed(clip(frequency_text(hz as nat), 16)),
        ),
        m.acpi is Some ==> says(machine_table(m, hz), 4, "acpi", utf8("present")),
        m.acpi is None ==> says(machine_table(m, hz), 4, "acpi", utf8("absent")),
        m.composited ==> says(machine_table(m, hz), 5, "compositing", utf8("back buffer")),
        !m.composited ==> says(machine_table(m, hz), 5, "compositing", utf8("direct")),
        says(machine_table(m, hz), 6, "interrupts", utf8("masked")),
        machine_table(m, hz).len() == 7,
{
}

} // verus!
