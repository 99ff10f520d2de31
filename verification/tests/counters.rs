//! Counters, the machine underneath, and the console.

use nanochrono::abi::{
    flatten, must_enable, nc_bm_abi_version, nc_bm_counter_source, nc_bm_counter_source_set,
    nc_bm_pmu_detect, nc_bm_pmu_enable, nc_bm_pmu_read, nc_bm_pmu_t, route_code,
};
use nanochrono::arch::{counter_source, current_el, set_counter_source, CounterCell, CounterSource};
use nanochrono::hypervisor::{
    clock_pairing, detect, detect_arm, hypercalls, next_call, Asking, ClockPairing, Hypercalls,
    Report, KVM_PTP, NOT_SUPPORTED, SMCCC_VERSION, VENDOR_HYP_UID,
};
use nanochrono::pmu::{
    arm_control, core_leaves, counter_advances, measure, reads_arm, reads_route_arm, CorePmu, CoreType, CounterRoute, Enabling,
    MsrOp, PmuLeaf, Reading,
};
use nanochrono::serial::{pl011_ready, uart_ready, Serial};
use nanochrono::vga::{Console, ATTRIBUTE, BLANK};

fn leaf(general: u8, fixed: u8) -> PmuLeaf {
    PmuLeaf {
        available: true,
        version: 5,
        general_counters: general,
        general_width: 48,
        fixed_counters: fixed,
        fixed_width: 48,
        events_unavailable: 0,
    }
}

fn unit(general: u8, fixed: u8) -> CorePmu {
    CorePmu::detect(0x20, leaf(general, fixed), CoreType::Performance)
}

#[test]
fn a_processor_without_the_leaf_has_no_counters() {
    let pmu = CorePmu::detect(0x09, leaf(8, 3), CoreType::Uniform);
    assert!(!pmu.is_available());
    assert_eq!(pmu.leaf.general_counters, 0);
    assert!(unit(8, 3).is_available());
}

#[test]
fn a_leaf_past_the_last_says_nothing() {
    assert_eq!(core_leaves(0x20, 5, 6), (5, 6));
    assert_eq!(core_leaves(0x1A, 5, 6), (5, 6));
    assert_eq!(core_leaves(0x19, 5, 6), (5, 0));
    assert_eq!(core_leaves(0x06, 5, 6), (0, 0));
}

#[test]
fn the_fixed_counters_are_programmed_in_order() {
    let ops = unit(8, 3).enable_fixed();
    assert_eq!(
        ops,
        vec![
            MsrOp::Write { msr: 0x390, value: u64::MAX },
            MsrOp::Write { msr: 0x38D, value: 0x333 },
            MsrOp::SetBits { msr: 0x38F, bits: 0x7_0000_0000 },
        ]
    );
    assert_eq!(unit(8, 0).enable_fixed(), vec![]);
    assert_eq!(unit(8, 1).enable_fixed()[1], MsrOp::Write { msr: 0x38D, value: 0x3 });
}

#[test]
fn a_general_counter_is_the_fallback() {
    let (index, ops) = unit(4, 0).enable_general_cycles().unwrap();
    assert_eq!(index, 0);
    assert_eq!(ops[1], MsrOp::Write { msr: 0x186, value: 0x43_003C });
    assert!(unit(0, 3).enable_general_cycles().is_none());
    let mut masked = unit(4, 0);
    masked.leaf.events_unavailable = 1;
    assert!(masked.enable_general_cycles().is_none());
}

#[test]
fn only_a_counter_that_moved_is_settled_on() {
    let mut pmu = unit(4, 3);
    let (state, _) = pmu.enable(Enabling::Start, false);
    let (state, ops) = pmu.enable(state, true);
    assert_eq!((state, ops.len()), (Enabling::Settled, 0));
    assert_eq!(pmu.route, CounterRoute::Fixed);

    let mut pmu = unit(4, 3);
    let (state, _) = pmu.enable(Enabling::Start, false);
    let (state, ops) = pmu.enable(state, false);
    assert_eq!((state, ops.len()), (Enabling::General { index: 0 }, 3));
    let (state, _) = pmu.enable(state, true);
    assert_eq!(state, Enabling::Settled);
    assert_eq!(pmu.route, CounterRoute::General(0));

    let mut pmu = unit(0, 3);
    let (state, _) = pmu.enable(Enabling::Start, false);
    let (state, _) = pmu.enable(state, false);
    assert_eq!((state, pmu.route), (Enabling::Settled, CounterRoute::Absent));
}

#[test]
fn counters_are_only_read_where_they_exist() {
    let mut pmu = unit(4, 3);
    assert_eq!(pmu.read(1), Some((0x4000_0001, 48)));
    assert_eq!(pmu.read(3), None);
    assert_eq!(pmu.read_general(3), Some((3, 48)));
    assert_eq!(pmu.read_general(4), None);
    assert_eq!(pmu.read_cycles(), None);
    pmu.route = CounterRoute::Fixed;
    assert_eq!(pmu.read_cycles(), Some((0x4000_0001, 48)));
    assert_eq!(unit(4, 1).read_route(CounterRoute::Fixed), None);
    assert_eq!(pmu.read_route(CounterRoute::General(2)), Some((2, 48)));
}

#[test]
fn routes_have_names_and_numbers() {
    assert_eq!(CounterRoute::Fixed.name(), "fixed");
    assert_eq!(CounterRoute::General(0).name(), "general-purpose");
    assert_eq!(CounterRoute::Absent.name(), "none");
    assert_eq!(route_code(CounterRoute::Absent), 0);
    assert_eq!(route_code(CounterRoute::Fixed), 1);
    assert_eq!(route_code(CounterRoute::General(5)), 2);
}

#[test]
fn a_measurement_needs_both_readings() {
    let at = |value| Some(Reading { value, core_type: CoreType::Uniform });
    assert!(counter_advances(at(1), at(2)));
    assert!(!counter_advances(at(2), at(2)));
    assert!(!counter_advances(None, at(2)));
    assert_eq!(measure(at(1), at(9), Some(8)), Some(8));
    assert_eq!(measure(at(1), at(9), None), None);
    assert_eq!(measure(None, at(9), Some(8)), None);
    // Moved from one kind of core to another in between.
    let on = |core_type| Some(Reading { value: 9, core_type });
    assert_eq!(measure(on(CoreType::Performance), on(CoreType::Efficiency), Some(8)), None);
    assert_eq!(measure(on(CoreType::Unknown(1)), on(CoreType::Unknown(2)), Some(8)), None);
    assert_eq!(measure(on(CoreType::Unknown(2)), on(CoreType::Unknown(2)), Some(8)), Some(8));
}

#[test]
fn arm_cores_have_one_cycle_counter() {
    let pmu = nanochrono::pmu::detect_arm(6 << 11, 0x410F_D0C0);
    assert_eq!(pmu.leaf.general_counters, 6);
    assert_eq!((pmu.leaf.fixed_counters, pmu.leaf.fixed_width), (1, 64));
    assert_eq!(pmu.core_type, CoreType::Unknown(0x0C ^ 0x0D));
    assert!(reads_arm(1));
    assert!(!reads_arm(0));
    assert!(reads_route_arm(CounterRoute::Fixed));
    assert!(!reads_route_arm(CounterRoute::General(0)));
    assert!(!reads_route_arm(CounterRoute::Absent));
    assert_eq!(arm_control(0x08), 0x41);
    assert_eq!(arm_control(0x4100), 0x4141);
}

#[test]
fn user_code_is_let_at_the_counters_by_one_bit() {
    assert_eq!(CorePmu::allow_rdpmc_from_user(0x20), 0x120);
    assert_eq!(CorePmu::allow_rdpmc_from_user(0x120), 0x120);
}

#[test]
fn the_flat_interface_describes_a_core() {
    assert_eq!(nc_bm_abi_version(), 1);
    let mut pmu = unit(4, 3);
    pmu.route = CounterRoute::Fixed;
    let flat = flatten(&pmu);
    assert_eq!(
        flat,
        nc_bm_pmu_t {
            version: 5,
            general_counters: 4,
            general_width: 48,
            fixed_counters: 3,
            fixed_width: 48,
            core_type: 1,
            route: 1,
            _pad: 0,
        }
    );
    assert_eq!(nc_bm_pmu_detect(&pmu, false), (-1, None));
    assert_eq!(nc_bm_pmu_detect(&pmu, true), (0, Some(flat)));
    assert_eq!(nc_bm_pmu_enable(&pmu), (1, flat));
    assert!(!must_enable(&pmu, &flat));
    assert!(must_enable(&unit(4, 3), &flat));
    let reading = Some(Reading { value: 77, core_type: CoreType::Uniform });
    assert_eq!(nc_bm_pmu_read(true, reading), (1, Some(77)));
    assert_eq!(nc_bm_pmu_read(false, reading), (0, None));
    assert_eq!(nc_bm_pmu_read(true, None), (0, None));
}

#[test]
fn an_arm_core_that_counts_is_read() {
    let mut pmu = nanochrono::pmu::detect_arm(6 << 11, 0x410F_D0C0);
    assert!(!pmu.reads_cycles_arm());
    assert_eq!(pmu.enable_arm(true), CounterRoute::Fixed);
    assert!(pmu.reads_cycles_arm());
    assert_eq!(pmu.enable_arm(false), CounterRoute::Absent);
    assert!(!pmu.reads_cycles_arm());
}

#[test]
fn one_counter_is_no_choice() {
    let mut cell = CounterCell::new(false);
    set_counter_source(&mut cell, CounterSource::Physical);
    assert_eq!(counter_source(&cell), CounterSource::Virtual);
    assert_eq!(nc_bm_counter_source_set(&mut cell, 1), 0);
    assert_eq!(nc_bm_counter_source(&cell), 0);
}

#[test]
fn the_virtual_counter_is_the_default() {
    let mut cell = CounterCell::new(true);
    assert_eq!(counter_source(&cell), CounterSource::Virtual);
    set_counter_source(&mut cell, CounterSource::Physical);
    assert_eq!(counter_source(&cell).name(), "cntpct_el0");
    assert_eq!(nc_bm_counter_source_set(&mut cell, 0), 1);
    assert_eq!(nc_bm_counter_source(&cell), 0);
    assert_eq!(nc_bm_counter_source_set(&mut cell, 0x101), 0);
    assert_eq!(nc_bm_counter_source(&cell), 1);
    assert_eq!(nc_bm_counter_source_set(&mut cell, 7), 1);
    assert_eq!(nc_bm_counter_source(&cell), 0);
    assert_eq!(CounterSource::from_u8(CounterSource::Physical.as_u8()), CounterSource::Physical);
}

#[test]
fn the_exception_level_is_two_bits() {
    assert_eq!(current_el(0b0100), 1);
    assert_eq!(current_el(0b1000), 2);
    assert_eq!(current_el(0xFFFF_FFF3), 0);
}

fn word(text: &[u8; 4]) -> u32 {
    u32::from_le_bytes(*text)
}

#[test]
fn a_guest_gives_itself_away() {
    let kvm = detect(
        0x8000_0000,
        [0x4000_0001, word(b"KVMK"), word(b"VMKV"), word(b"M\0\0\0")],
        &Hypercalls::default(),
    );
    assert!(kvm.is_virtualized());
    assert_eq!(kvm.signature_str(), "KVMKVMKVM");
    assert!(kvm.may_pair());
    let leaf = [0x4000_0001, word(b"TCGT"), word(b"CGTC"), word(b"GTCG")];
    let qemu = detect(0, leaf, &Hypercalls::default());
    assert_eq!(qemu.signature_str(), "TCGTCGTCGTCG");
    assert!(!qemu.may_pair());
    assert!(!qemu.is_virtualized());
    let metal = detect(0x7FFF_FFFF, [0x16, 1, 2, 3], &Hypercalls::default());
    assert_eq!((metal.signature_str(), metal.max_leaf), ("", 0));
    assert!(!metal.is_virtualized());
}

#[test]
fn a_signature_that_is_not_text_reads_as_nothing() {
    let odd = detect(0, [0x4000_0000, 0xFFFF_FFFF, 0, 0], &Hypercalls::default());
    assert_eq!(odd.signature_str(), "");
}

#[test]
fn a_pairing_needs_a_clock_past_the_epoch() {
    let pair = clock_pairing(0, 2, 5, 99);
    assert_eq!(pair, Some(ClockPairing { host_ns: 2_000_000_005, counter: 99 }));
    assert_eq!(clock_pairing(-1, 2, 5, 99), None);
    assert_eq!(clock_pairing(0, 0, 5, 99), None);
    assert_eq!(clock_pairing(0, 2, -5, 99).unwrap().host_ns, 2_000_000_000);
    let mut calls = Hypercalls::default();
    calls.issue();
    let mut report = detect(0, [0, 0, 0, 0], &calls);
    assert_eq!(report.hypercalls, 1);
    report.paired(pair, &calls);
    assert_eq!((report.pairing, report.hypercall_ok, report.hypercalls), (pair, true, 1));
    assert_eq!(hypercalls(&calls), 1);
}

#[test]
fn an_arm_guest_is_asked_three_times_at_most() {
    let mut calls = Hypercalls::default();
    let blank = || Report {
        cpuid_bit: false,
        signature: [0; 12],
        max_leaf: 0,
        hypercall_ok: false,
        pairing: None,
        hypercalls: 0,
    };
    let mut report = blank();
    assert_eq!(
        detect_arm(&mut report, Asking::Start, 24_000_000, [0; 4], &calls),
        Asking::Done
    );
    let mut report = blank();
    let state = detect_arm(&mut report, Asking::Start, 62_500_000, [0; 4], &calls);
    assert_eq!(next_call(state), Some(SMCCC_VERSION));
    calls.issue();
    assert_eq!(
        detect_arm(&mut report, state, 62_500_000, [NOT_SUPPORTED, 0, 0, 0], &calls),
        Asking::Done
    );
    // A call nothing took was issued all the same.
    assert_eq!((report.hypercall_ok, report.hypercalls), (false, 1));
    let state = detect_arm(&mut report, state, 62_500_000, [0x1_0001, 0, 0, 0], &calls);
    assert!(report.hypercall_ok);
    assert_eq!(next_call(state), Some(VENDOR_HYP_UID));
    let state = detect_arm(&mut report, state, 62_500_000, [0x4B56_4D4B, 0, 0, 0], &calls);
    assert_eq!(next_call(state), Some(KVM_PTP));
    assert_eq!(report.signature_str(), "KMVK");
    let state = detect_arm(&mut report, state, 62_500_000, [1, 2, 3, 4], &calls);
    assert_eq!(state, Asking::Done);
    assert_eq!(
        report.pairing,
        Some(ClockPairing { host_ns: 0x1_0000_0002, counter: 0x3_0000_0004 })
    );
    assert_eq!(next_call(state), None);
}

#[test]
fn the_port_is_set_up_in_the_documented_order() {
    let (serial, writes) = Serial::init();
    assert!(serial.is_live());
    let bytes: Vec<(u16, u8)> = writes.iter().map(|w| (w.port, w.value)).collect();
    assert_eq!(
        bytes,
        vec![
            (0x3F9, 0x00),
            (0x3FB, 0x80),
            (0x3F8, 0x01),
            (0x3F9, 0x00),
            (0x3FB, 0x03),
            (0x3FA, 0xC7),
            (0x3FC, 0x0B),
        ]
    );
}

#[test]
fn a_dead_port_is_not_tried_again() {
    let (mut serial, _) = Serial::init();
    serial.put(true);
    assert!(serial.is_live());
    serial.put(false);
    serial.put(true);
    assert!(!serial.is_live());
    assert!(uart_ready(0x60));
    assert!(!uart_ready(0x40));
    assert!(pl011_ready(0x90));
    assert!(!pl011_ready(0x20));
}

#[test]
fn newlines_go_out_with_a_carriage_return() {
    assert_eq!(Serial::write_str("a\nb\n"), b"a\r\nb\r\n".to_vec());
    assert_eq!(Serial::write_str(""), Vec::<u8>::new());
}

#[test]
fn the_text_console_wraps_and_scrolls() {
    let mut console = Console::new();
    console.put(b'x');
    assert_eq!(console.cells[0], BLANK);
    console.activate();
    assert!(console.is_active());
    for byte in b"ab\r\nc" {
        console.put(*byte);
    }
    assert_eq!(console.cells[0], ATTRIBUTE + b'a' as u16);
    assert_eq!(console.cells[80], ATTRIBUTE + b'c' as u16);
    assert_eq!(console.cursor, 81);
    for _ in 0..24 {
        console.put(b'\n');
    }
    // One line too many: the first has scrolled off.
    assert_eq!(console.cells[0], ATTRIBUTE + b'c' as u16);
    assert_eq!(console.cells[1999], BLANK);
    assert_eq!(console.cursor, 24 * 80);
}
