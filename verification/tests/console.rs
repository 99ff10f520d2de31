//! What the console says, and the screen it stops on.

use nanochrono::boot::{
    direct_drawing, report_loader, report_no_interface, report_surface, report_text_mode,
    report_text_mode_hint, Loader,
};
use nanochrono::draw::{Font, Palette};
use nanochrono::framebuffer::Framebuffer;
use nanochrono::log::Log;
use nanochrono::panic_screen::{
    byte_waiting, graphical, paint, serial_only, shutdown_failed, stop_screen, wait_for_choice,
    Choice, Mark,
};
use nanochrono::pmu::{CorePmu, CoreType, CounterRoute, PmuLeaf};
use nanochrono::selftest::{
    chain, cycles_per_op, report_arm_cpu, report_banner, report_counter, report_cpu,
    report_integrity, report_no_simd, report_pmu, report_simd, run_chain, ArmFeatures,
    FamilyProbe, PmuRun, ReadCost, Recovery, StoreCounts, X86Features,
};

fn pmu(available: bool) -> CorePmu {
    let leaf = PmuLeaf {
        available,
        version: 5,
        general_counters: 8,
        general_width: 48,
        fixed_counters: 3,
        fixed_width: 40,
        events_unavailable: 0,
    };
    CorePmu { leaf, core_type: CoreType::Uniform, route: CounterRoute::Absent }
}

fn measured(route: CounterRoute, cycles: Option<u64>) -> PmuRun {
    PmuRun { route, cycles, instructions: Some(300), core_cycles: Some(7) }
}

#[test]
fn lines_are_written_piece_by_piece() {
    let mut log = Log::new();
    log.str("a=").num(10).str(" b=").two(7).str(" c=").hex(0xBEEF).end();
    log.word(0xABC).str(" ").flag(true).end();
    log.column("ab", 5).str("|").column("abcdef", 5).str("|");
    assert_eq!(log.as_str(), "a=10 b=07 c=0xbeef\n0000000000000ABC true\nab   |abcdef|");
}

#[test]
fn the_loader_is_known_by_its_magic() {
    assert_eq!(Loader::from_magic(0x36D7_6289), Loader::Multiboot2);
    assert_eq!(Loader::from_magic(0x2BAD_B002), Loader::Multiboot1);
    assert_eq!(Loader::from_magic(0), Loader::Unknown);
    assert_eq!(Loader::Multiboot1.name(), "multiboot1");
    assert_eq!(Loader::Multiboot2.information(0x9000), 0x9000);
    assert_eq!(Loader::Unknown.information(0x9000), 0);
    assert_eq!(report_loader(0x36D7_6289).as_str(), "booted by: multiboot2\n");
    assert_eq!(
        report_loader(0x1234).as_str(),
        "warning: boot magic is 0x1234, neither multiboot1 nor 2\n         the boot information structure is not being read\nbooted by: unknown\n"
    );
}

#[test]
fn the_screen_is_announced() {
    assert_eq!(
        report_surface(1280, 800).as_str(),
        "framebuffer: 1280x800, drawing the interface\n"
    );
    assert_eq!(
        report_text_mode("1.0").as_str(),
        "\nNanoChronometer 1.0 — freestanding\n\nNo linear framebuffer: the loader handed over a text mode.\nThe graphical interface needs one; the measurements below do not.\n\n"
    );
    assert_eq!(
        report_text_mode_hint().as_str(),
        "\nBoot with gfxpayload=keep for the interface.\n"
    );
    assert_eq!(direct_drawing(), "mode too large for the back buffer; drawing directly");
    assert_eq!(
        report_no_interface(4096).as_str(),
        "interface : the AArch64 frame is in progress; halting (4096 bytes usable)\n"
    );
}

#[test]
fn the_banner_names_the_machine() {
    assert_eq!(
        report_banner("1.0", "x86_64").as_str(),
        "NanoChronometer 1.0 — freestanding\narch: x86_64\n\n"
    );
}

#[test]
fn a_core_reports_both_sides() {
    let features = X86Features {
        sse2: true,
        avx: true,
        avx2: true,
        avx512f: false,
        aesni: true,
        shani: false,
        invariant_counter: true,
        xcr0: 0x7,
        supported: 0xE7,
        leaf7: 1 << 16,
        leaf1: 1 << 27,
        backend: "avx2",
    };
    assert_eq!(
        report_cpu(&features).as_str(),
        "== CPU ==\n  sse2=true avx=true avx2=true\n  avx512f=false aesni=true shani=false\n  invariant tsc=true\n  xcr0=0x7 (supported 0xe7)\n  cpuid avx512f=true osxsave=true\n  backend: avx2\n\n"
    );
    let arm = ArmFeatures {
        neon: true,
        sve: false,
        sve2: false,
        aes: true,
        sha2: true,
        sme: false,
        el: 1,
        backend: "neon",
    };
    assert_eq!(
        report_arm_cpu(&arm).as_str(),
        "== CPU ==\n  neon=true sve=false sve2=false\n  aes=true sha2=true sme=false\n  el=1\n  backend: neon\n\n"
    );
}

#[test]
fn families_line_up() {
    let ran = vec![
        FamilyProbe { name: "sse2", units: Some(64) },
        FamilyProbe { name: "avx512f", units: None },
    ];
    assert_eq!(
        report_simd(&ran).as_str(),
        "== SIMD (state enabled by the boot stub) ==\n  sse2         xor 64 units\n  avx512f      probe declined\n\n"
    );
    let none = vec![FamilyProbe { name: "sse2", units: None }];
    assert!(report_simd(&none).as_str().ends_with("  no family available on this CPU\n\n"));
    assert!(report_no_simd().as_str().starts_with("== SIMD ==\n  not built:"));
}

#[test]
fn a_measurement_is_reported_in_hundredths() {
    let text = report_pmu(
        &pmu(true),
        "P-core",
        &measured(CounterRoute::Fixed, Some(412_345)),
    );
    let lines: Vec<&str> = text.as_str().lines().collect();
    assert_eq!(lines[1], "  core type      : P-core");
    assert_eq!(lines[3], "  general        : 8 counters, 48 bits");
    assert_eq!(lines[4], "  fixed          : 3 counters, 40 bits");
    assert_eq!(lines[5], "  counter route  : fixed");
    assert_eq!(lines[6], "  100000 dependent ops");
    assert_eq!(lines[8], "    cycles/op    : 4.12");
    assert_eq!(lines[9], "    instructions : 300");
    assert_eq!(lines[10], "    core cycles  : 7");
}

#[test]
fn a_measurement_can_be_withheld() {
    let run = measured(CounterRoute::General(0), None);
    let text = report_pmu(&pmu(true), "uniform", &run);
    assert!(text.as_str().contains("measurement discarded: the core type changed mid-run"));
    // Instructions are only counted by the fixed counter.
    assert!(!text.as_str().contains("instructions"));
    let run = measured(CounterRoute::Absent, None);
    let text = report_pmu(&pmu(true), "uniform", &run);
    assert!(text.as_str().ends_with(
        "  counter route  : none\n  no counter advanced; the measurement would be zeros\n\n"
    ));
    let text = report_pmu(&pmu(false), "uniform", &run);
    assert!(text.as_str().ends_with("  no PMU on this core; skipping the measurement\n\n"));
}

#[test]
fn reads_cost_between_the_best_and_the_worst() {
    let mut cost = ReadCost::new();
    cost.sample(100, 120);
    cost.sample(u64::MAX, 29);
    cost.sample(5, 23);
    assert_eq!((cost.best, cost.worst, cost.jitter()), (18, 30, 12));
    assert_eq!(
        report_counter(&cost, Some(24_000_000)).as_str(),
        "== Counter ==\n  read overhead  : 18 units (min of 1024)\n  worst read     : 30 units\n  jitter         : 12 units\n  cntfrq_el0     : 24000000 Hz\n\n"
    );
    assert!(!report_counter(&cost, None).as_str().contains("cntfrq"));
}

#[test]
fn the_chain_depends_on_every_step() {
    assert_eq!(chain(0, 1), 8);
    assert_eq!(chain(8, 2), 80);
    assert_eq!(chain(1 << 63, 0), 4);
    let mut acc = 0;
    for i in 0..100_000 {
        acc = chain(acc, i);
    }
    assert_eq!(run_chain(), acc);
    assert_eq!(cycles_per_op(Some(412_345)), Some(4));
    assert_eq!(cycles_per_op(None), None);
}

#[test]
fn damage_is_reported_with_what_came_back() {
    let one = Recovery { verdict: "corrected", recovered: true };
    let two = Recovery { verdict: "voted", recovered: false };
    let counts = StoreCounts { checks: 3, ecc: 1, tmr: 2, lost: 0 };
    assert_eq!(
        report_integrity("clean", &one, &two, &counts).as_str(),
        "== Stored-state integrity ==\n  clean          : clean\n  one bit        : corrected (recovered: true)\n  two bits       : voted (recovered: false)\n  checks=3 ecc=1 tmr=2 lost=0\n\nselftest complete; halting\n"
    );
}

#[test]
fn the_stop_screen_says_why() {
    let p = Palette::stop();
    let marks = stop_screen(1280, 800, "divide by zero in the frame loop", true, &p);
    assert!(matches!(
        marks[1],
        Mark::Fill { x: 0, y: 0, w: 1280, h: 48, colour: 0x0017_4A33 }
    ));
    assert!(matches!(
        marks[2],
        Mark::Line { x: 24, y: 12, text: "NANOCHRONOMETER — STOPPED", scale: 3, .. }
    ));
    assert!(matches!(
        marks[7],
        Mark::Line { y: 214, text: "divide by zero in the frame loop", scale: 2, .. }
    ));
    assert!(matches!(
        marks[8],
        Mark::Button { x: 700, y: 704, w: 260, h: 56, text: "[R]  RESTART" }
    ));
    assert!(matches!(
        marks[9],
        Mark::Button { x: 990, y: 704, text: "[S]  SHUT DOWN", .. }
    ));
    assert_eq!(marks.len(), 10);
    let fewer = stop_screen(640, 480, "a reason long enough to need a second line", false, &p);
    assert!(matches!(
        fewer[fewer.len() - 1],
        Mark::Line { y: 404, text: "no ACPI tables found; using fallbacks", .. }
    ));
    assert_eq!(fewer.len(), 12);
    // Of a reason too long for the screen, the lines that start on it.
    let long = "a reason that goes on and on ".repeat(100);
    assert_eq!(stop_screen(640, 480, &long, true, &p).len(), 7 + 14 + 2);
    assert_eq!(stop_screen(640, 206, &long, true, &p).len(), 7 + 2);
    assert_eq!(stop_screen(640, 207, &long, true, &p).len(), 7 + 1 + 2);
}

#[test]
fn the_stop_screen_covers_everything() {
    let blank = || {
        let pitch = 320 * 4;
        Framebuffer::new(0, vec![0xFF; pitch * 200], 320, 200, pitch as u32, 32)
    };
    let font = Font { height: 1, rows: vec![0; 128] };
    assert!(font.is_whole());
    assert!(!Font { height: 2, rows: vec![0; 128] }.is_whole());
    let mut fb = blank();
    graphical(&mut fb, &font, "stopped", true);
    assert_eq!(fb.get(319, 60), Palette::stop().background);
    assert_eq!(fb.get(0, 0), Palette::stop().panel);
    assert_eq!(fb.get(0, 104), Palette::stop().button_edge);
    assert_eq!(fb.get(5, 110), Palette::stop().button);
    // What was there before does not show through.
    let mut other = blank();
    other.clear(0);
    graphical(&mut other, &font, "stopped", true);
    assert_eq!(fb.bytes(), other.bytes());
    let mark = Mark::Fill { x: 1, y: 1, w: 1, h: 1, colour: 0x0012_3456 };
    paint(&mut fb, &font, &Palette::app(), &vec![mark]);
    assert_eq!(fb.get(1, 1), 0x0012_3456);
}

#[test]
fn two_keys_choose() {
    assert_eq!(wait_for_choice(0x13), Some(Choice::Restart));
    assert_eq!(wait_for_choice(0x1F), Some(Choice::ShutDown));
    assert_eq!(wait_for_choice(0x93), None);
    assert_eq!(wait_for_choice(0x9F), None);
    assert!(byte_waiting(0x01) && !byte_waiting(0x20));
    assert_eq!(Choice::Restart.announcement(), "restarting");
    assert_eq!(Choice::ShutDown.announcement(), "shutting down");
    assert_eq!(shutdown_failed(), "shutdown failed: no method this platform answers");
    assert_eq!(
        serial_only().as_str(),
        "\n=== STOPPED ===\nNo graphics mode; not restarting.\n  R = restart      S = shut down\n"
    );
}
