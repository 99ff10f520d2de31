//! What the freestanding kernel actually measures, and how it says so.
//!
//! Everything here runs with interrupts masked on a core nothing else is
//! using. The numbers are therefore the floor: whatever a hosted process
//! measures for the same work is that floor plus the operating system.

use crate::log::{hex, spaces, truth, Log};
use crate::pmu::{CorePmu, CounterRoute};
use crate::text::{digits, from_nothing, holds, padded, utf8};
use vstd::prelude::*;

verus! {

// ---------------------------------------------------------------------------
// What one read of the counter costs
// ---------------------------------------------------------------------------

/// How many reads are timed.
pub const ROUNDS: u32 = 1024;

/// How many dependent operations are measured. Each needs the previous
/// result, so the core cannot overlap them and the cycle count reflects real
/// work rather than how wide the machine is.
pub const ITERATIONS: u64 = 100_000;

/// The cheapest and the dearest read seen. Anything above the minimum is
/// interference, and with interrupts masked there should be very little of
/// it.
#[derive(Debug, Clone, Copy, PartialEq, Eq, Structural)]
pub struct ReadCost {
    pub best: u64,
    pub worst: u64,
}

/// What one pair of reads says a read costs, on the counter's circle.
pub open spec fn cost(pair: (u64, u64)) -> u64 {
    ((pair.1 - pair.0) % 0x1_0000_0000_0000_0000) as u64
}

impl ReadCost {
    /// What a run of pairs of reads comes to.
    pub open spec fn over(pairs: Seq<(u64, u64)>) -> ReadCost
        decreases pairs.len(),
    {
        if pairs.len() == 0 {
            ReadCost { best: u64::MAX, worst: 0 }
        } else {
            ReadCost::over(pairs.drop_last()).with(pairs.last())
        }
    }

    /// What it comes to with one pair more.
    pub open spec fn with(self, pair: (u64, u64)) -> ReadCost {
        let d = cost(pair);
        ReadCost {
            best: if d < self.best {
                d
            } else {
                self.best
            },
            worst: if d > self.worst {
                d
            } else {
                self.worst
            },
        }
    }

    pub fn new() -> (r: ReadCost)
        ensures
            r == ReadCost::over(seq![]),
    {
        ReadCost { best: u64::MAX, worst: 0 }
    }

    /// Takes one pair of reads into account.
    pub fn sample(&mut self, before: u64, after: u64)
        ensures
            *final(self) == old(self).with((before, after)),
    {
        let d: u64 = after.wrapping_sub(before);
        if d < self.best {
            self.best = d;
        }
        if d > self.worst {
            self.worst = d;
        }
    }

    /// The spread between the best and the worst read: the machine's own
    /// jitter and nothing else, where nothing schedules and nothing
    /// interrupts.
    pub fn jitter(&self) -> (r: u64)
        requires
            self.best <= self.worst,
        ensures
            r == self.worst - self.best,
    {
        self.worst - self.best
    }
}

/// A read costs what passed between two of them, even where the counter has
/// rolled over in between.
pub proof fn a_cost_is_what_passed(before: u64, after: u64)
    ensures
        before <= after ==> cost((before, after)) == after - before,
        after < before ==> cost((before, after)) == 0x1_0000_0000_0000_0000 - (before - after),
        ReadCost::over(seq![]) == (ReadCost { best: u64::MAX, worst: 0 }),
{
}

/// The costs of a run of reads are the least and the greatest of them: every
/// read lies between, and both were seen.
pub proof fn costs_are_the_extremes(pairs: Seq<(u64, u64)>)
    ensures
        forall|i: int|
            0 <= i < pairs.len() ==> ReadCost::over(pairs).best <= cost(#[trigger] pairs[i])
                <= ReadCost::over(pairs).worst,
        pairs.len() > 0 ==> exists|i: int|
            0 <= i < pairs.len() && cost(#[trigger] pairs[i]) == ReadCost::over(pairs).best,
        pairs.len() > 0 ==> exists|i: int|
            0 <= i < pairs.len() && cost(#[trigger] pairs[i]) == ReadCost::over(pairs).worst,
    decreases pairs.len(),
{
    if pairs.len() > 0 {
        let front = pairs.drop_last();
        let last = pairs.len() - 1;
        costs_are_the_extremes(front);
        assert(pairs[last] == pairs.last());
        assert(ReadCost::over(pairs) == ReadCost::over(front).with(pairs.last()));
        if front.len() == 0 {
            assert(ReadCost::over(front) == (ReadCost { best: u64::MAX, worst: 0 }));
        }
        assert forall|i: int| 0 <= i < pairs.len() implies ReadCost::over(pairs).best <= cost(
            #[trigger] pairs[i],
        ) <= ReadCost::over(pairs).worst by {
            if i < last {
                assert(front[i] == pairs[i]);
            }
        }
        if ReadCost::over(pairs).best == cost(pairs.last()) {
            assert(cost(pairs[last]) == ReadCost::over(pairs).best);
        } else if front.len() > 0 {
            let i = choose|i: int|
                0 <= i < front.len() && cost(#[trigger] front[i]) == ReadCost::over(front).best;
            assert(cost(pairs[i]) == ReadCost::over(pairs).best);
        }
        if ReadCost::over(pairs).worst == cost(pairs.last()) {
            assert(cost(pairs[last]) == ReadCost::over(pairs).worst);
        } else if front.len() > 0 {
            let i = choose|i: int|
                0 <= i < front.len() && cost(#[trigger] front[i]) == ReadCost::over(front).worst;
            assert(cost(pairs[i]) == ReadCost::over(pairs).worst);
        }
    }
}

/// The work that is measured: one step of a dependent chain.
pub fn chain(acc: u64, i: u64) -> (r: u64)
    ensures
        r == chained(acc, i),
{
    let sum: u64 = acc.wrapping_add(i);
    (sum << 3u64) | (sum >> 61u64)
}

/// A sum, turned left by three bits.
pub open spec fn chained(acc: u64, i: u64) -> u64 {
    let sum = ((acc + i) % 0x1_0000_0000_0000_0000) as u64;
    (sum << 3u64) | (sum >> 61u64)
}

/// The whole chain.
pub fn run_chain() -> (r: u64)
    ensures
        r == chained_to(ITERATIONS as nat),
{
    let mut acc: u64 = 0;
    let mut i: u64 = 0;
    while i < ITERATIONS
        invariant
            i <= ITERATIONS,
            acc == chained_to(i as nat),
        decreases ITERATIONS - i,
    {
        acc = chain(acc, i);
        i += 1;
    }
    acc
}

/// The chain's value after so many steps.
pub open spec fn chained_to(n: nat) -> u64
    decreases n,
{
    if n == 0 {
        0
    } else {
        chained(chained_to((n - 1) as nat), (n - 1) as u64)
    }
}

/// Cycles per operation, where the chain was measured.
pub open spec fn per_op(cycles: Option<u64>) -> Option<u64> {
    match cycles {
        Some(c) => Some((c / ITERATIONS) as u64),
        None => None,
    }
}

/// The cycles of the chain are those of its hundred thousand operations and a
/// rest that is less than one more for each; without a measurement there is no
/// figure.
pub proof fn operations_share_the_cycles(cycles: Option<u64>)
    ensures
        per_op(cycles) is Some <==> cycles is Some,
        cycles matches Some(c) ==> per_op(cycles)->0 * 100_000 <= c < (per_op(cycles)->0 + 1)
            * 100_000,
{
}

/// A step of the chain adds and then turns the sum left by three bits: the top
/// three come back at the bottom and nothing is lost, so no two sums lead to the
/// same.
pub proof fn a_step_turns_the_sum(acc: u64, i: u64, other: u64)
    ensures
        ({
            let sum = (acc + i) % 0x1_0000_0000_0000_0000;
            chained(acc, i) == sum % 0x2000_0000_0000_0000 * 8 + sum / 0x2000_0000_0000_0000
        }),
        other != acc ==> chained(acc, i) != chained(other, i),
        chained_to(0) == 0,
{
    turned(((acc + i) % 0x1_0000_0000_0000_0000) as u64);
    turned(((other + i) % 0x1_0000_0000_0000_0000) as u64);
}

proof fn turned(sum: u64)
    ensures
        (sum << 3u64) | (sum >> 61u64) == sum % 0x2000_0000_0000_0000 * 8 + sum
            / 0x2000_0000_0000_0000,
{
    assert((sum << 3u64) | (sum >> 61u64) == sum % 0x2000_0000_0000_0000 * 8 + sum
        / 0x2000_0000_0000_0000) by (bit_vector);
}

/// The chain is its steps, one after the other, each with its own number.
pub proof fn the_chain_is_its_steps(n: u64)
    ensures
        chained_to(n as nat + 1) == chained(chained_to(n as nat), n),
{
}

/// Cycles per operation, where the chain was measured.
pub fn cycles_per_op(cycles: Option<u64>) -> (r: Option<u64>)
    ensures
        r == per_op(cycles),
{
    match cycles {
        Some(c) => Some(c / ITERATIONS),
        None => None,
    }
}

// ---------------------------------------------------------------------------
// What is said about it
// ---------------------------------------------------------------------------

/// What is said first.
pub open spec fn banner_text(version: Seq<u8>, arch: Seq<u8>) -> Seq<u8> {
    ((utf8("NanoChronometer ") + version + utf8(" — freestanding")).push(10u8) + utf8("arch: ")
        + arch).push(10u8).push(10u8)
}

pub fn report_banner(version: &str, arch: &str) -> (r: Log)
    ensures
        r@ == banner_text(utf8(version), utf8(arch)),
{
    broadcast use from_nothing;

    let mut log = Log::new();
    log.str("NanoChronometer ").str(version).str(" — freestanding").end();
    log.str("arch: ").str(arch).end().end();
    log
}

/// What an x86 core turned out to have. CPUID can advertise AVX or AVX-512
/// while XCR0 says the state is not being saved, and then every such
/// instruction faults: both sides are reported, so a mismatch is visible.
#[derive(Debug, Clone, Copy)]
pub struct X86Features {
    pub sse2: bool,
    pub avx: bool,
    pub avx2: bool,
    pub avx512f: bool,
    pub aesni: bool,
    pub shani: bool,
    pub invariant_counter: bool,
    pub xcr0: u64,
    /// `EAX` of CPUID leaf 0x0D.
    pub supported: u32,
    /// `EBX` of CPUID leaf 7.
    pub leaf7: u32,
    /// `ECX` of CPUID leaf 1.
    pub leaf1: u32,
    pub backend: &'static str,
}

/// What CPUID says of AVX-512, and of the operating system saving its state.
pub open spec fn advertises_avx512f(leaf7: u32) -> bool {
    leaf7 / 0x1_0000 % 2 == 1
}

pub open spec fn advertises_osxsave(leaf1: u32) -> bool {
    leaf1 / 0x800_0000 % 2 == 1
}

pub open spec fn x86_text(f: X86Features) -> Seq<u8> {
    let flags = ((utf8("== CPU ==").push(10u8) + utf8("  sse2=") + truth(f.sse2) + utf8(" avx=")
        + truth(f.avx) + utf8(" avx2=") + truth(f.avx2)).push(10u8) + utf8("  avx512f=") + truth(
        f.avx512f,
    ) + utf8(" aesni=") + truth(f.aesni) + utf8(" shani=") + truth(f.shani)).push(10u8) + utf8(
        "  invariant tsc=",
    ) + truth(f.invariant_counter);
    let state = flags.push(10u8) + utf8("  xcr0=") + utf8("0x") + hex(f.xcr0 as nat) + utf8(
        " (supported ",
    ) + utf8("0x") + hex(f.supported as nat) + utf8(")");
    let cpuid = state.push(10u8) + utf8("  cpuid avx512f=") + truth(advertises_avx512f(f.leaf7))
        + utf8(" osxsave=") + truth(advertises_osxsave(f.leaf1));
    (cpuid.push(10u8) + utf8("  backend: ") + utf8(f.backend)).push(10u8).push(10u8)
}

pub fn report_cpu(f: &X86Features) -> (r: Log)
    ensures
        r@ == x86_text(*f),
{
    broadcast use from_nothing;

    let mut log = Log::new();
    log.str("== CPU ==").end();
    log.str("  sse2=").flag(f.sse2).str(" avx=").flag(f.avx).str(" avx2=").flag(f.avx2).end();
    log.str("  avx512f=").flag(f.avx512f).str(" aesni=").flag(f.aesni).str(" shani=").flag(
        f.shani,
    ).end();
    log.str("  invariant tsc=").flag(f.invariant_counter).end();
    log.str("  xcr0=").hex(f.xcr0).str(" (supported ").hex(f.supported as u64).str(")").end();
    log.str("  cpuid avx512f=").flag(f.leaf7 / 0x1_0000 % 2 == 1).str(" osxsave=").flag(
        f.leaf1 / 0x800_0000 % 2 == 1,
    ).end();
    log.str("  backend: ").str(f.backend).end().end();
    log
}

/// What an Arm core turned out to have.
#[derive(Debug, Clone, Copy)]
pub struct ArmFeatures {
    pub neon: bool,
    pub sve: bool,
    pub sve2: bool,
    pub aes: bool,
    pub sha2: bool,
    pub sme: bool,
    /// The exception level.
    pub el: u8,
    pub backend: &'static str,
}

pub open spec fn arm_text(f: ArmFeatures) -> Seq<u8> {
    let flags = (utf8("== CPU ==").push(10u8) + utf8("  neon=") + truth(f.neon) + utf8(" sve=")
        + truth(f.sve) + utf8(" sve2=") + truth(f.sve2)).push(10u8) + utf8("  aes=") + truth(f.aes)
        + utf8(" sha2=") + truth(f.sha2) + utf8(" sme=") + truth(f.sme);
    ((flags.push(10u8) + utf8("  el=") + digits(f.el as nat)).push(10u8) + utf8("  backend: ")
        + utf8(f.backend)).push(10u8).push(10u8)
}

pub fn report_arm_cpu(f: &ArmFeatures) -> (r: Log)
    ensures
        r@ == arm_text(*f),
{
    broadcast use from_nothing;

    let mut log = Log::new();
    log.str("== CPU ==").end();
    log.str("  neon=").flag(f.neon).str(" sve=").flag(f.sve).str(" sve2=").flag(f.sve2).end();
    log.str("  aes=").flag(f.aes).str(" sha2=").flag(f.sha2).str(" sme=").flag(f.sme).end();
    log.str("  el=").num(f.el as u64).end();
    log.str("  backend: ").str(f.backend).end().end();
    log
}

/// What probing one SIMD family came to: how many units it ran, unless it
/// declined.
#[derive(Debug, Clone, Copy)]
pub struct FamilyProbe {
    pub name: &'static str,
    pub units: Option<u64>,
}

/// What is said of the first `n` families.
pub open spec fn families_text(probes: Seq<FamilyProbe>, n: int) -> Seq<u8>
    decreases n,
{
    if n <= 0 {
        utf8("== SIMD (state enabled by the boot stub) ==").push(10u8)
    } else {
        let probe = probes[n - 1];
        let named = families_text(probes, n - 1) + utf8("  ") + utf8(probe.name) + spaces(
            12 - probe.name@.len(),
        );
        match probe.units {
            Some(units) => named + utf8(" xor ") + digits(units as nat) + utf8(" units"),
            None => named + utf8(" probe declined"),
        }.push(10u8)
    }
}

/// Whether any of the first `n` ran.
pub open spec fn any_ran(probes: Seq<FamilyProbe>, n: int) -> bool {
    exists|i: int| 0 <= i < n && (#[trigger] probes[i]).units is Some
}

pub open spec fn simd_text(probes: Seq<FamilyProbe>) -> Seq<u8> {
    let families = families_text(probes, probes.len() as int);
    if any_ran(probes, probes.len() as int) {
        families.push(10u8)
    } else {
        (families + utf8("  no family available on this CPU")).push(10u8).push(10u8)
    }
}

/// What the SIMD probes came to. If this prints numbers, the state the wide
/// registers need was enabled: a vector instruction without it faults rather
/// than running slowly.
pub fn report_simd(probes: &Vec<FamilyProbe>) -> (r: Log)
    ensures
        r@ == simd_text(probes@),
{
    broadcast use from_nothing;

    let mut log = Log::new();
    log.str("== SIMD (state enabled by the boot stub) ==").end();
    let mut ran: bool = false;
    let mut i: usize = 0;
    while i < probes.len()
        invariant
            i <= probes@.len(),
            log@ == families_text(probes@, i as int),
            ran == any_ran(probes@, i as int),
        decreases probes@.len() - i,
    {
        let probe = probes[i];
        log.str("  ").column(probe.name, 12);
        match probe.units {
            Some(units) => {
                log.str(" xor ").num(units).str(" units").end();
                assert(probes@[i as int].units is Some);
                ran = true;
            },
            None => {
                log.str(" probe declined").end();
            },
        }
        i += 1;
    }
    if !ran {
        log.str("  no family available on this CPU").end();
    }
    log.end();
    log
}

/// What is said where no vector register can be allocated at all.
pub open spec fn no_simd_text() -> Seq<u8> {
    ((utf8("== SIMD ==").push(10u8) + utf8("  not built: this target's ABI is soft-float")).push(
        10u8,
    ) + utf8("  (build with the x86_64-nanochrono-none target for SIMD)")).push(10u8).push(10u8)
}

pub fn report_no_simd() -> (r: Log)
    ensures
        r@ == no_simd_text(),
{
    broadcast use from_nothing;

    let mut log = Log::new();
    log.str("== SIMD ==").end();
    log.str("  not built: this target's ABI is soft-float").end();
    log.str("  (build with the x86_64-nanochrono-none target for SIMD)").end().end();
    log
}

/// What measuring with the counters came to: cycles over the chain, unless
/// the core changed under it; instructions, where the fixed counter counts
/// them; and the cycle counter itself, where it could be read.
#[derive(Debug, Clone, Copy)]
pub struct PmuRun {
    pub route: CounterRoute,
    pub cycles: Option<u64>,
    pub instructions: Option<u64>,
    pub core_cycles: Option<u64>,
}

/// What is said of the counters there are.
pub open spec fn pmu_heading(pmu: CorePmu, core_type: Seq<u8>) -> Seq<u8> {
    let named = (utf8("== PMU (direct, no kernel) ==").push(10u8) + utf8("  core type      : ")
        + core_type).push(10u8) + utf8("  version        : ") + digits(pmu.leaf.version as nat);
    let general = named.push(10u8) + utf8("  general        : ") + digits(
        pmu.leaf.general_counters as nat,
    ) + utf8(" counters, ") + digits(pmu.leaf.general_width as nat) + utf8(" bits");
    (general.push(10u8) + utf8("  fixed          : ") + digits(pmu.leaf.fixed_counters as nat)
        + utf8(" counters, ") + digits(pmu.leaf.fixed_width as nat) + utf8(" bits")).push(10u8)
}

/// What is said of the measurement.
pub open spec fn pmu_cycles(before: Seq<u8>, cycles: Option<u64>) -> Seq<u8> {
    match cycles {
        Some(cycles) => (((before + utf8("  ") + digits(ITERATIONS as nat) + utf8(
            " dependent ops",
        )).push(10u8) + utf8("    cycles       : ") + digits(cycles as nat)).push(10u8) + utf8(
            "    cycles/op    : ",
        ) + digits((cycles / ITERATIONS) as nat) + utf8(".") + padded(
            ((cycles % ITERATIONS) * 100 / ITERATIONS as int) as nat,
            2,
        )).push(10u8),
        None => (before + utf8("  measurement discarded: the core type changed mid-run")).push(
            10u8,
        ),
    }
}

pub open spec fn pmu_text(pmu: CorePmu, core_type: Seq<u8>, run: PmuRun) -> Seq<u8> {
    let heading = pmu_heading(pmu, core_type);
    if !pmu.leaf.available {
        (heading + utf8("  no PMU on this core; skipping the measurement")).push(10u8).push(10u8)
    } else {
        let routed = (heading + utf8("  counter route  : ") + vstd::utf8::encode_utf8(
            run.route.label(),
        )).push(10u8);
        if run.route == CounterRoute::Absent {
            (routed + utf8("  no counter advanced; the measurement would be zeros")).push(
                10u8,
            ).push(10u8)
        } else {
            let measured = pmu_cycles(routed, run.cycles);
            let counted = if run.route == CounterRoute::Fixed && run.instructions is Some {
                (measured + utf8("    instructions : ") + digits(
                    run.instructions.unwrap() as nat,
                )).push(10u8)
            } else {
                measured
            };
            let read = if run.core_cycles is Some {
                (counted + utf8("    core cycles  : ") + digits(
                    run.core_cycles.unwrap() as nat,
                )).push(10u8)
            } else {
                counted
            };
            read.push(10u8)
        }
    }
}

fn report_cycles(log: &mut Log, cycles: Option<u64>)
    ensures
        final(log)@ == pmu_cycles(old(log)@, cycles),
{
    match cycles {
        Some(cycles) => {
            log.str("  ").num(ITERATIONS).str(" dependent ops").end();
            log.str("    cycles       : ").num(cycles).end();
            // Integer arithmetic only, and exact enough to read.
            log.str("    cycles/op    : ").num(cycles / ITERATIONS).str(".").two(
                cycles % ITERATIONS * 100 / ITERATIONS,
            ).end();
        },
        None => {
            log.str("  measurement discarded: the core type changed mid-run").end();
        },
    }
}

/// The part that needs no kernel and could not be done with one.
pub fn report_pmu(pmu: &CorePmu, core_type: &str, run: &PmuRun) -> (r: Log)
    ensures
        r@ == pmu_text(*pmu, utf8(core_type), *run),
{
    broadcast use from_nothing;

    let mut log = Log::new();
    log.str("== PMU (direct, no kernel) ==").end();
    log.str("  core type      : ").str(core_type).end();
    log.str("  version        : ").num(pmu.leaf.version as u64).end();
    log.str("  general        : ").num(pmu.leaf.general_counters as u64).str(" counters, ").num(
        pmu.leaf.general_width as u64,
    ).str(" bits").end();
    log.str("  fixed          : ").num(pmu.leaf.fixed_counters as u64).str(" counters, ").num(
        pmu.leaf.fixed_width as u64,
    ).str(" bits").end();
    if !pmu.is_available() {
        log.str("  no PMU on this core; skipping the measurement").end().end();
        return log;
    }
    log.str("  counter route  : ").str(run.route.name()).end();
    if run.route == CounterRoute::Absent {
        log.str("  no counter advanced; the measurement would be zeros").end().end();
        return log;
    }
    report_cycles(&mut log, run.cycles);
    // The instruction count is only meaningful from the fixed counter.
    if run.route == CounterRoute::Fixed {
        if let Some(count) = run.instructions {
            log.str("    instructions : ").num(count).end();
        }
    }
    if let Some(count) = run.core_cycles {
        log.str("    core cycles  : ").num(count).end();
    }
    log.end();
    log
}

/// What is said of the counter, and of its frequency where it has one.
pub open spec fn counter_text(reads: ReadCost, frequency: Option<u64>) -> Seq<u8> {
    let costs = (((utf8("== Counter ==").push(10u8) + utf8("  read overhead  : ") + digits(
        reads.best as nat,
    ) + utf8(" units (min of ") + digits(ROUNDS as nat) + utf8(")")).push(10u8) + utf8(
        "  worst read     : ",
    ) + digits(reads.worst as nat) + utf8(" units")).push(10u8) + utf8("  jitter         : ")
        + digits((reads.worst - reads.best) as nat) + utf8(" units")).push(10u8);
    match frequency {
        Some(hz) => (costs + utf8("  cntfrq_el0     : ") + digits(hz as nat) + utf8(" Hz")).push(
            10u8,
        ),
        None => costs,
    }.push(10u8)
}

/// The architectural counter, and what one read of it costs.
pub fn report_counter(reads: &ReadCost, frequency: Option<u64>) -> (r: Log)
    requires
        reads.best <= reads.worst,
    ensures
        r@ == counter_text(*reads, frequency),
{
    broadcast use from_nothing;

    let mut log = Log::new();
    log.str("== Counter ==").end();
    log.str("  read overhead  : ").num(reads.best).str(" units (min of ").num(ROUNDS as u64).str(
        ")",
    ).end();
    log.str("  worst read     : ").num(reads.worst).str(" units").end();
    log.str("  jitter         : ").num(reads.jitter()).str(" units").end();
    if let Some(hz) = frequency {
        log.str("  cntfrq_el0     : ").num(hz).str(" Hz").end();
    }
    log.end();
    log
}

/// What the redundant store made of a damaged value: what it called it, and
/// whether it gave the value back.
#[derive(Debug, Clone, Copy)]
pub struct Recovery {
    pub verdict: &'static str,
    pub recovered: bool,
}

/// What the store has seen.
#[derive(Debug, Clone, Copy)]
pub struct StoreCounts {
    pub checks: u64,
    pub ecc: u64,
    pub tmr: u64,
    pub lost: u64,
}

/// The value that is damaged, and the bits that are flipped: one, and then
/// two more.
pub const VALUE: u64 = 0x0000_0002_4126_D2BC;

pub const FIRST_FLIP: u32 = 40;

pub const SECOND_FLIP: u32 = 5;

pub const THIRD_FLIP: u32 = 37;

pub open spec fn integrity_text(
    clean: Seq<u8>,
    one: Recovery,
    two: Recovery,
    counts: StoreCounts,
) -> Seq<u8> {
    let first = (utf8("== Stored-state integrity ==").push(10u8) + utf8("  clean          : ")
        + clean).push(10u8) + utf8("  one bit        : ") + utf8(one.verdict) + utf8(
        " (recovered: ",
    ) + truth(one.recovered) + utf8(")");
    let second = first.push(10u8) + utf8("  two bits       : ") + utf8(two.verdict) + utf8(
        " (recovered: ",
    ) + truth(two.recovered) + utf8(")");
    ((second.push(10u8) + utf8("  checks=") + digits(counts.checks as nat) + utf8(" ecc=")
        + digits(counts.ecc as nat) + utf8(" tmr=") + digits(counts.tmr as nat) + utf8(" lost=")
        + digits(counts.lost as nat)).push(10u8).push(10u8) + utf8(
        "selftest complete; halting",
    )).push(10u8)
}

/// What the redundant store makes of damage. It matters more here: a
/// freestanding kernel has no one to report a corrupted value to.
pub fn report_integrity(clean: &str, one: &Recovery, two: &Recovery, counts: &StoreCounts) -> (r:
    Log)
    ensures
        r@ == integrity_text(utf8(clean), *one, *two, *counts),
{
    broadcast use from_nothing;

    let mut log = Log::new();
    log.str("== Stored-state integrity ==").end();
    log.str("  clean          : ").str(clean).end();
    log.str("  one bit        : ").str(one.verdict).str(" (recovered: ").flag(
        one.recovered,
    ).str(")").end();
    log.str("  two bits       : ").str(two.verdict).str(" (recovered: ").flag(
        two.recovered,
    ).str(")").end();
    log.str("  checks=").num(counts.checks).str(" ecc=").num(counts.ecc).str(" tmr=").num(
        counts.tmr,
    ).str(" lost=").num(counts.lost).end().end();
    log.str("selftest complete; halting").end();
    log
}

/// A figure with two digits after its point that, without the point, reads as
/// this number.
pub open spec fn is_in_hundredths(figure: Seq<u8>, hundredths: int) -> bool {
    let point = figure.len() - 3;
    &&& point >= 1
    &&& figure[point] == 46
    &&& figure[point + 1] >= 48 && figure[point + 1] <= 57
    &&& figure[point + 2] >= 48 && figure[point + 2] <= 57
    &&& crate::text::number_in(figure.take(point) + figure.skip(point + 1)) == hundredths
}

/// The cycles per operation that are told, with what was told before them.
pub open spec fn tells_cycles(text: Seq<u8>, front: Seq<u8>, figure: Seq<u8>) -> bool {
    text == (front + utf8("    cycles/op    : ") + figure).push(10u8)
}

/// The figure that is told reads back as the measurement in hundredths: two
/// digits after the point, and all of them together are the cycles times a
/// hundred over the hundred thousand operations. The cycles themselves are told
/// before it; a measurement that was thrown away is told of as that.
pub proof fn the_cycles_read_back(before: Seq<u8>, cycles: u64)
    ensures
        exists|front: Seq<u8>, figure: Seq<u8>|
            tells_cycles(pmu_cycles(before, Some(cycles)), front, figure) && is_in_hundredths(
                figure,
                cycles * 100 / 100_000,
            ),
        holds(
            pmu_cycles(before, Some(cycles)),
            utf8("    cycles       : ") + digits(cycles as nat),
        ),
        pmu_cycles(before, None) == (before + utf8(
            "  measurement discarded: the core type changed mid-run",
        )).push(10u8),
{
    broadcast use crate::text::group_holds;

    let whole = digits((cycles / ITERATIONS) as nat);
    let rest = ((cycles % ITERATIONS) * 100 / ITERATIONS as int) as nat;
    let part = padded(rest, 2);
    let figure = whole + utf8(".") + part;
    point_is_a_byte();
    reveal(vstd::arithmetic::power::pow);
    reveal_with_fuel(vstd::arithmetic::power::pow, 3);
    crate::text::digits_len(rest, 2);
    crate::text::padded_is_at_least_as_wide(rest, 2);
    crate::text::digits_stand_for_their_number(rest, 2);
    crate::text::digits_stand_for_their_number((cycles / ITERATIONS) as nat, 0);
    crate::text::digits_are_ascii((cycles / ITERATIONS) as nat);
    crate::text::digits_are_two((cycles / ITERATIONS) as nat);
    crate::text::digits_are_ascii(rest);
    crate::text::digits_are_two(rest);
    crate::text::numbers_join(whole, part);
    let point = figure.len() - 3;
    assert(figure.take(point) =~= whole);
    assert(figure.skip(point + 1) =~= part);
    assert(figure[point + 1] == part[0] && figure[point + 2] == part[1]);
    assert(cycles * 100 / 100_000 == (cycles / ITERATIONS) * 100 + rest);
    assert(is_in_hundredths(figure, cycles * 100 / 100_000));
    let text = pmu_cycles(before, Some(cycles));
    let front = (((before + utf8("  ") + digits(ITERATIONS as nat) + utf8(
        " dependent ops",
    )).push(10u8) + utf8("    cycles       : ") + digits(cycles as nat)).push(10u8));
    assert(text =~= (front + utf8("    cycles/op    : ") + figure).push(10u8));
    assert(tells_cycles(text, front, figure));
}

proof fn point_is_a_byte()
    ensures
        utf8(".") == seq![46u8],
{
    reveal_strlit(".");
    let bytes = seq![46u8];
    crate::text::ascii_is_shown_as_it_is(bytes);
    assert(crate::text::shown(bytes) =~= "."@);
}

/// Every flag of an x86 core is told under its name, and so are the two words
/// of its state and the two bits that CPUID gives for AVX-512: bit 16 of leaf 7
/// and bit 27 of leaf 1.
pub proof fn an_x86_core_is_told_of(f: X86Features)
    ensures
        holds(x86_text(f), utf8("  sse2=") + truth(f.sse2)),
        holds(x86_text(f), utf8(" avx=") + truth(f.avx)),
        holds(x86_text(f), utf8(" avx2=") + truth(f.avx2)),
        holds(x86_text(f), utf8("  avx512f=") + truth(f.avx512f)),
        holds(x86_text(f), utf8(" aesni=") + truth(f.aesni)),
        holds(x86_text(f), utf8(" shani=") + truth(f.shani)),
        holds(x86_text(f), utf8("  invariant tsc=") + truth(f.invariant_counter)),
        holds(x86_text(f), utf8("0x") + hex(f.xcr0 as nat)),
        holds(x86_text(f), utf8("0x") + hex(f.supported as nat)),
        holds(x86_text(f), utf8("  cpuid avx512f=") + truth(f.leaf7 / 65536 % 2 == 1)),
        holds(x86_text(f), utf8(" osxsave=") + truth(f.leaf1 / 134_217_728 % 2 == 1)),
        holds(x86_text(f), utf8("  backend: ") + utf8(f.backend)),
{
    broadcast use crate::text::group_holds;

}

/// Every flag of an Arm core is told under its name, and its exception level.
pub proof fn an_arm_core_is_told_of(f: ArmFeatures)
    ensures
        holds(arm_text(f), utf8("  neon=") + truth(f.neon)),
        holds(arm_text(f), utf8(" sve=") + truth(f.sve)),
        holds(arm_text(f), utf8(" sve2=") + truth(f.sve2)),
        holds(arm_text(f), utf8("  aes=") + truth(f.aes)),
        holds(arm_text(f), utf8(" sha2=") + truth(f.sha2)),
        holds(arm_text(f), utf8(" sme=") + truth(f.sme)),
        holds(arm_text(f), utf8("  el=") + digits(f.el as nat)),
        holds(arm_text(f), utf8("  backend: ") + utf8(f.backend)),
{
    broadcast use crate::text::group_holds;

}

/// Every family that ran is told of with its units and every one that declined
/// as that, in the order they were probed; and that there is none is said
/// exactly where none ran.
pub proof fn every_family_is_told_of(probes: Seq<FamilyProbe>, n: int)
    requires
        0 <= n < probes.len(),
    ensures
        probes[n].units matches Some(units) ==> holds(
            families_text(probes, n + 1),
            utf8(" xor ") + digits(units as nat),
        ),
        probes[n].units is None ==> families_text(probes, n + 1) == (families_text(probes, n)
            + utf8("  ") + utf8(probes[n].name) + spaces(12 - probes[n].name@.len()) + utf8(
            " probe declined",
        )).push(10u8),
        families_text(probes, n).is_prefix_of(families_text(probes, n + 1)),
        (forall|i: int| 0 <= i < probes.len() ==> (#[trigger] probes[i]).units is None)
            ==> simd_text(probes) == (families_text(probes, probes.len() as int) + utf8(
            "  no family available on this CPU",
        )).push(10u8).push(10u8),
        probes[n].units is Some ==> simd_text(probes) == families_text(
            probes,
            probes.len() as int,
        ).push(10u8),
{
    broadcast use crate::text::group_holds;

    let before = families_text(probes, n);
    let after = families_text(probes, n + 1);
    assert(after.take(before.len() as int) =~= before);
}

/// What the counters are is told with their numbers.
pub proof fn the_counters_are_told_of(pmu: CorePmu, core_type: Seq<u8>)
    ensures
        holds(pmu_heading(pmu, core_type), utf8("  core type      : ") + core_type),
        holds(
            pmu_heading(pmu, core_type),
            utf8("  version        : ") + digits(pmu.leaf.version as nat),
        ),
        holds(
            pmu_heading(pmu, core_type),
            utf8("  general        : ") + digits(pmu.leaf.general_counters as nat),
        ),
        holds(
            pmu_heading(pmu, core_type),
            utf8(" counters, ") + digits(pmu.leaf.general_width as nat),
        ),
        holds(
            pmu_heading(pmu, core_type),
            utf8("  fixed          : ") + digits(pmu.leaf.fixed_counters as nat),
        ),
        holds(
            pmu_heading(pmu, core_type),
            utf8(" counters, ") + digits(pmu.leaf.fixed_width as nat),
        ),
{
    broadcast use crate::text::group_holds;

}

/// What was counted is told only where it was: nothing is measured without a
/// PMU or on a route that does not advance, and instructions are told only of
/// the fixed counters.
#[verifier::rlimit(60)]
pub proof fn what_was_counted_is_told_of(pmu: CorePmu, core_type: Seq<u8>, run: PmuRun)
    ensures
        !pmu.leaf.available ==> pmu_text(pmu, core_type, run) == (pmu_heading(pmu, core_type)
            + utf8("  no PMU on this core; skipping the measurement")).push(10u8).push(10u8),
        pmu.leaf.available ==> {
            let text = pmu_text(pmu, core_type, run);
            let routed = (pmu_heading(pmu, core_type) + utf8("  counter route  : ")
                + vstd::utf8::encode_utf8(run.route.label())).push(10u8);
            &&& routed.is_prefix_of(text)
            &&& run.route == CounterRoute::Absent ==> text == (routed + utf8(
                "  no counter advanced; the measurement would be zeros",
            )).push(10u8).push(10u8)
            &&& run.route != CounterRoute::Absent ==> {
                &&& pmu_cycles(routed, run.cycles).is_prefix_of(text)
                &&& run.route == CounterRoute::Fixed && run.instructions is Some ==> holds(
                    text,
                    utf8("    instructions : ") + digits(run.instructions->0 as nat),
                )
                &&& run.core_cycles is Some ==> holds(
                    text,
                    utf8("    core cycles  : ") + digits(run.core_cycles->0 as nat),
                )
                &&& run.route != CounterRoute::Fixed && run.core_cycles is None ==> text
                    == pmu_cycles(routed, run.cycles).push(10u8)
            }
        },
{
    let text = pmu_text(pmu, core_type, run);
    let heading = pmu_heading(pmu, core_type);
    let routed = (heading + utf8("  counter route  : ") + vstd::utf8::encode_utf8(
        run.route.label(),
    )).push(10u8);
    if pmu.leaf.available {
        if run.route == CounterRoute::Absent {
            assert(text.take(routed.len() as int) =~= routed);
        } else {
            measured_is_a_prefix(pmu, core_type, run, routed);
            let measured = pmu_cycles(routed, run.cycles);
            prefix_of_measured(routed, run.cycles);
            assert(text.take(routed.len() as int) =~= measured.take(routed.len() as int));
        }
        if run.route == CounterRoute::Fixed && run.instructions is Some || run.core_cycles is Some {
            broadcast use crate::text::group_holds;

        }
    }
}

proof fn prefix_of_measured(before: Seq<u8>, cycles: Option<u64>)
    ensures
        before.is_prefix_of(pmu_cycles(before, cycles)),
{
    assert(pmu_cycles(before, cycles).take(before.len() as int) =~= before);
}

proof fn measured_is_a_prefix(pmu: CorePmu, core_type: Seq<u8>, run: PmuRun, routed: Seq<u8>)
    requires
        pmu.leaf.available,
        run.route != CounterRoute::Absent,
        routed == (pmu_heading(pmu, core_type) + utf8("  counter route  : ")
            + vstd::utf8::encode_utf8(run.route.label())).push(10u8),
    ensures
        pmu_cycles(routed, run.cycles).is_prefix_of(pmu_text(pmu, core_type, run)),
{
    let measured = pmu_cycles(routed, run.cycles);
    assert(pmu_text(pmu, core_type, run).take(measured.len() as int) =~= measured);
}

/// What a read costs is told as it was measured: the least, the greatest and
/// the difference between them, and the frequency where there is one.
pub proof fn the_reads_are_told_of(reads: ReadCost, frequency: Option<u64>)
    requires
        reads.best <= reads.worst,
    ensures
        holds(
            counter_text(reads, frequency),
            utf8("  read overhead  : ") + digits(reads.best as nat),
        ),
        holds(
            counter_text(reads, frequency),
            utf8("  worst read     : ") + digits(reads.worst as nat),
        ),
        holds(
            counter_text(reads, frequency),
            utf8("  jitter         : ") + digits((reads.worst - reads.best) as nat),
        ),
        holds(counter_text(reads, frequency), utf8(" units (min of ") + digits(1024)),
        frequency matches Some(hz) ==> holds(
            counter_text(reads, frequency),
            utf8("  cntfrq_el0     : ") + digits(hz as nat),
        ),
{
    broadcast use crate::text::group_holds;

}

/// What the store made of each damage is told in its place, and what it has
/// counted.
pub proof fn the_store_is_told_of(
    clean: Seq<u8>,
    one: Recovery,
    two: Recovery,
    counts: StoreCounts,
)
    ensures
        ({
            let text = integrity_text(clean, one, two, counts);
            &&& holds(text, utf8("  clean          : ") + clean)
            &&& holds(text, utf8("  one bit        : ") + utf8(one.verdict))
            &&& holds(text, utf8("  two bits       : ") + utf8(two.verdict))
            &&& holds(text, utf8(" (recovered: ") + truth(one.recovered))
            &&& holds(text, utf8(" (recovered: ") + truth(two.recovered))
            &&& holds(text, utf8("  checks=") + digits(counts.checks as nat))
            &&& holds(text, utf8(" ecc=") + digits(counts.ecc as nat))
            &&& holds(text, utf8(" tmr=") + digits(counts.tmr as nat))
            &&& holds(text, utf8(" lost=") + digits(counts.lost as nat))
        }),
{
    broadcast use crate::text::group_holds;

}

/// The report starts with the version and then the architecture, each on a line
/// of its own and with an empty line after them.
pub proof fn the_banner_names_the_build(version: Seq<u8>, arch: Seq<u8>)
    ensures
        ({
            let banner = banner_text(version, arch);
            let n = utf8("NanoChronometer ").len() + version.len() + utf8(" — freestanding").len();
            &&& banner.take(n as int) == utf8("NanoChronometer ") + version + utf8(
                " — freestanding",
            )
            &&& banner[n as int] == 10
            &&& banner.skip(n as int + 1) == utf8("arch: ") + arch + seq![10u8, 10u8]
        }),
{
    let banner = banner_text(version, arch);
    let line = utf8("NanoChronometer ") + version + utf8(" — freestanding");
    let n = line.len() as int;
    assert(banner.take(n) =~= line);
    assert(banner.skip(n + 1) =~= utf8("arch: ") + arch + seq![10u8, 10u8]);
}

/// A build without vector registers says so under the usual heading, and how to
/// get one that has them.
pub proof fn a_build_without_simd_says_so()
    ensures
        no_simd_text() == utf8("== SIMD ==") + seq![10u8] + utf8(
            "  not built: this target's ABI is soft-float",
        ) + seq![10u8] + utf8("  (build with the x86_64-nanochrono-none target for SIMD)") + seq![
            10u8,
            10u8,
        ],
{
    assert(no_simd_text() =~= utf8("== SIMD ==") + seq![10u8] + utf8(
        "  not built: this target's ABI is soft-float",
    ) + seq![10u8] + utf8("  (build with the x86_64-nanochrono-none target for SIMD)") + seq![
        10u8,
        10u8,
    ]);
}

} // verus!
