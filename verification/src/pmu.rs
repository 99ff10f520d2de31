//! Performance counters with no kernel underneath.
//!
//! The counters are programmed directly, and a counter is believed only once
//! it has been seen to move: firmware may have left one frozen behind a
//! latched overflow, a hypervisor may swallow the writes, an event may not
//! exist on this core type. In every case a read then returns a fixed value,
//! and a caller subtracting two of them gets a plausible duration of nothing.
//!
//! On a hybrid part the two core types have different counters, and a cycle
//! count from one is not comparable with one from the other. So a description
//! belongs to the core it was taken on, and every reading carries its core
//! type.

use vstd::prelude::*;

verus! {

/// What kind of core a description was taken on.
#[derive(Debug, Clone, Copy, PartialEq, Eq, Structural)]
pub enum CoreType {
    /// Every core is the same.
    Uniform,
    Performance,
    Efficiency,
    /// A kind this has no name for, and its number.
    Unknown(u8),
}

/// What one core's performance-monitoring leaf says.
#[derive(Debug, Clone, Copy, PartialEq, Eq, Structural)]
pub struct PmuLeaf {
    /// Whether there is anything to program.
    pub available: bool,
    pub version: u8,
    pub general_counters: u8,
    pub general_width: u8,
    pub fixed_counters: u8,
    pub fixed_width: u8,
    /// Bit `n` set means architectural event `n` is *not* available.
    pub events_unavailable: u32,
}

/// The leaf that describes the performance counters.
pub const PMU_LEAF: u32 = 0x0A;

/// A leaf that describes nothing.
pub open spec fn no_leaf() -> PmuLeaf {
    PmuLeaf {
        available: false,
        version: 0,
        general_counters: 0,
        general_width: 0,
        fixed_counters: 0,
        fixed_width: 0,
        events_unavailable: 0,
    }
}

/// The two leaves a core's type is told from: the hybrid flag's, and the one
/// that names the kind of core.
pub const HYBRID_LEAF: u32 = 0x07;

pub const CORE_KIND_LEAF: u32 = 0x1A;

/// The two registers a core's type is told from, as far as it has their leaves.
pub open spec fn leaves_of(max_leaf: u32, hybrid: u32, kind: u32) -> (u32, u32) {
    (
        if max_leaf >= HYBRID_LEAF {
            hybrid
        } else {
            0
        },
        if max_leaf >= CORE_KIND_LEAF {
            kind
        } else {
            0
        },
    )
}

/// A leaf past the processor's last is never believed: leaf 7 is read from 7 on
/// and leaf 26 from 26 on.
pub proof fn no_leaf_past_the_last_is_believed(max_leaf: u32, hybrid: u32, kind: u32)
    ensures
        max_leaf < 7 ==> leaves_of(max_leaf, hybrid, kind) == (0u32, 0u32),
        7 <= max_leaf < 26 ==> leaves_of(max_leaf, hybrid, kind) == (hybrid, 0u32),
        26 <= max_leaf ==> leaves_of(max_leaf, hybrid, kind) == (hybrid, kind),
{
}

/// What a core's type is told from: a register of each of the two leaves, and
/// zero for a leaf the processor does not have. A processor asked for a leaf
/// past its last answers with the last one's, which would be misread.
pub fn core_leaves(max_leaf: u32, hybrid: u32, kind: u32) -> (r: (u32, u32))
    ensures
        r == leaves_of(max_leaf, hybrid, kind),
{
    (
        if max_leaf >= HYBRID_LEAF {
            hybrid
        } else {
            0
        },
        if max_leaf >= CORE_KIND_LEAF {
            kind
        } else {
            0
        },
    )
}

/// One counter value, and the core it came from.
#[derive(Debug, Clone, Copy, PartialEq, Eq, Structural)]
pub struct Reading {
    pub value: u64,
    pub core_type: CoreType,
}

/// Which counter was found to work.
#[derive(Debug, Clone, Copy, PartialEq, Eq, Structural)]
pub enum CounterRoute {
    /// The architectural fixed counter. Preferred: it means the same thing on
    /// every core type.
    Fixed,
    /// A general-purpose counter programmed with an architectural event.
    General(u32),
    /// Nothing on this core counts. No measurement will be reported.
    Absent,
}

impl CounterRoute {
    pub open spec fn label(self) -> Seq<char> {
        match self {
            CounterRoute::Fixed => "fixed"@,
            CounterRoute::General(_) => "general-purpose"@,
            CounterRoute::Absent => "none"@,
        }
    }

    pub fn name(self) -> (r: &'static str)
        ensures
            r@ == self.label(),
    {
        match self {
            CounterRoute::Fixed => "fixed",
            CounterRoute::General(_) => "general-purpose",
            CounterRoute::Absent => "none",
        }
    }
}

/// What one core's PMU can do, and which core said so.
#[derive(Debug, Clone, Copy, PartialEq, Eq, Structural)]
pub struct CorePmu {
    pub leaf: PmuLeaf,
    pub core_type: CoreType,
    /// Filled in by enabling; absent until then.
    pub route: CounterRoute,
}

/// Fixed counter indices: instructions retired, this core's cycles, and the
/// reference clock.
pub const FIXED_INSTRUCTIONS: u32 = 0;

pub const FIXED_CORE_CYCLES: u32 = 1;

pub const FIXED_REF_CYCLES: u32 = 2;

/// Model-specific registers.
pub const IA32_PMC0: u32 = 0xC1;

pub const IA32_PERFEVTSEL0: u32 = 0x186;

pub const IA32_FIXED_CTR_CTRL: u32 = 0x38D;

pub const IA32_PERF_GLOBAL_CTRL: u32 = 0x38F;

pub const IA32_PERF_GLOBAL_OVF_CTRL: u32 = 0x390;

/// The bit of the unavailable-events mask for core cycles.
pub const EBX_BIT_UNHALTED_CORE_CYCLES: u32 = 1;

/// A fixed counter is selected by setting bit 30.
pub const RDPMC_FIXED: u32 = 0x4000_0000;

/// The architectural core-cycles event, `0x3C`, counted at both privilege
/// levels (bits 16 and 17) and enabled (bit 22), with no interrupt on
/// overflow because there is no handler for one.
pub const SELECT_CORE_CYCLES: u64 = 0x43_003C;

/// One thing to do with a model-specific register.
#[derive(Debug, Clone, Copy, PartialEq, Eq, Structural)]
pub enum MsrOp {
    /// Write a value.
    Write { msr: u32, value: u64 },
    /// Read the value and write it back with these bits set.
    SetBits { msr: u32, bits: u64 },
}

/// How to count: four bits a counter, of which the low two count at both
/// privilege levels and raise nothing on overflow. Three counters at most.
pub open spec fn fixed_control(counters: u8) -> u64 {
    if counters == 0 {
        0
    } else if counters == 1 {
        0x3
    } else if counters == 2 {
        0x33
    } else {
        0x333
    }
}

/// What starts them: bit `32 + n` for fixed counter `n`. Three at most.
pub open spec fn fixed_enables(counters: u8) -> u64 {
    if counters == 0 {
        0
    } else if counters == 1 {
        0x1_0000_0000
    } else if counters == 2 {
        0x3_0000_0000
    } else {
        0x7_0000_0000
    }
}

impl CorePmu {
    /// The description of a core that has been looked at and not programmed.
    pub open spec fn detected(max_leaf: u32, leaf: PmuLeaf, core_type: CoreType) -> CorePmu {
        CorePmu {
            leaf: if max_leaf < PMU_LEAF {
                no_leaf()
            } else {
                leaf
            },
            core_type,
            route: CounterRoute::Absent,
        }
    }

    /// The description of a core, from what its leaf says; nothing where the
    /// processor's highest leaf comes before it.
    ///
    /// Must be taken on the core it will be used for.
    pub fn detect(max_leaf: u32, leaf: PmuLeaf, core_type: CoreType) -> (r: CorePmu)
        ensures
            r == CorePmu::detected(max_leaf, leaf, core_type),
    {
        if max_leaf < PMU_LEAF {
            let none = PmuLeaf {
                available: false,
                version: 0,
                general_counters: 0,
                general_width: 0,
                fixed_counters: 0,
                fixed_width: 0,
                events_unavailable: 0,
            };
            return CorePmu { leaf: none, core_type, route: CounterRoute::Absent };
        }
        CorePmu { leaf, core_type, route: CounterRoute::Absent }
    }

    /// Whether this core has a usable PMU.
    pub fn is_available(&self) -> (r: bool)
        ensures
            r == self.leaf.available,
    {
        self.leaf.available
    }

    /// What starts the fixed counters. Clearing any overflow the firmware
    /// left latched comes first: one can leave a counter frozen.
    pub open spec fn fixed_program(self) -> Seq<MsrOp> {
        if self.leaf.fixed_counters == 0 {
            seq![]
        } else {
            seq![
                MsrOp::Write { msr: IA32_PERF_GLOBAL_OVF_CTRL, value: u64::MAX },
                MsrOp::Write {
                    msr: IA32_FIXED_CTR_CTRL,
                    value: fixed_control(self.leaf.fixed_counters),
                },
                MsrOp::SetBits {
                    msr: IA32_PERF_GLOBAL_CTRL,
                    bits: fixed_enables(self.leaf.fixed_counters),
                },
            ]
        }
    }

    /// Whether a general-purpose counter can count core cycles: there is one,
    /// and the architectural event is not marked unavailable. Only an
    /// architectural event is used: a model-specific encoding means different
    /// things on a P-core and an E-core.
    pub open spec fn has_general_cycles(self) -> bool {
        self.leaf.general_counters != 0 && self.leaf.events_unavailable
            & EBX_BIT_UNHALTED_CORE_CYCLES == 0
    }

    /// What starts general-purpose counter 0 on core cycles.
    pub open spec fn general_program(self) -> Seq<MsrOp> {
        seq![
            MsrOp::Write { msr: IA32_PMC0, value: 0 },
            MsrOp::Write { msr: IA32_PERFEVTSEL0, value: SELECT_CORE_CYCLES },
            MsrOp::SetBits { msr: IA32_PERF_GLOBAL_CTRL, bits: 1 },
        ]
    }

    /// Starts the fixed counters on this core.
    pub fn enable_fixed(&self) -> (r: Vec<MsrOp>)
        ensures
            r@ == self.fixed_program(),
    {
        let n: u8 = self.leaf.fixed_counters;
        let mut ops: Vec<MsrOp> = Vec::new();
        if n == 0 {
            return ops;
        }
        let (control, enables): (u64, u64) = if n == 1 {
            (0x3, 0x1_0000_0000)
        } else if n == 2 {
            (0x33, 0x3_0000_0000)
        } else {
            (0x333, 0x7_0000_0000)
        };
        ops.push(MsrOp::Write { msr: IA32_PERF_GLOBAL_OVF_CTRL, value: u64::MAX });
        ops.push(MsrOp::Write { msr: IA32_FIXED_CTR_CTRL, value: control });
        ops.push(MsrOp::SetBits { msr: IA32_PERF_GLOBAL_CTRL, bits: enables });
        ops
    }

    /// Programs a general-purpose counter with the architectural core-cycles
    /// event: its index and what to write, where there is one.
    pub fn enable_general_cycles(&self) -> (r: Option<(u32, Vec<MsrOp>)>)
        ensures
            r is Some <==> self.has_general_cycles(),
            r matches Some((index, ops)) ==> index == 0 && ops@ == self.general_program(),
    {
        if self.leaf.general_counters == 0 {
            return None;
        }
        if self.leaf.events_unavailable & EBX_BIT_UNHALTED_CORE_CYCLES != 0 {
            return None;
        }
        let mut ops: Vec<MsrOp> = Vec::new();
        ops.push(MsrOp::Write { msr: IA32_PMC0, value: 0 });
        ops.push(MsrOp::Write { msr: IA32_PERFEVTSEL0, value: SELECT_CORE_CYCLES });
        ops.push(MsrOp::SetBits { msr: IA32_PERF_GLOBAL_CTRL, bits: 1 });
        Some((0, ops))
    }
}

/// How far finding a counter that counts has got.
#[derive(Debug, Clone, Copy, PartialEq, Eq, Structural)]
pub enum Enabling {
    /// Nothing programmed yet.
    Start,
    /// The fixed counters are programmed; has one moved?
    Fixed,
    /// A general-purpose counter is programmed; has it moved?
    General { index: u32 },
    /// Settled.
    Settled,
}

/// The next step: where it leaves finding a counter, what to program, and the
/// route where that is settled. `advanced` is whether the counter just
/// programmed moved over a short known workload.
pub open spec fn enable_step(pmu: CorePmu, state: Enabling, advanced: bool) -> (
    Enabling,
    Seq<MsrOp>,
    CounterRoute,
) {
    match state {
        Enabling::Start => (Enabling::Fixed, pmu.fixed_program(), pmu.route),
        Enabling::Fixed => if advanced {
            (Enabling::Settled, seq![], CounterRoute::Fixed)
        } else if pmu.has_general_cycles() {
            (Enabling::General { index: 0 }, pmu.general_program(), pmu.route)
        } else {
            (Enabling::Settled, seq![], CounterRoute::Absent)
        },
        Enabling::General { index } => (
            Enabling::Settled,
            seq![],
            if advanced {
                CounterRoute::General(index)
            } else {
                CounterRoute::Absent
            },
        ),
        Enabling::Settled => (Enabling::Settled, seq![], pmu.route),
    }
}

impl CorePmu {
    /// Starts the counters on this core and confirms one of them counts, one
    /// step at a time.
    ///
    /// Rather than trusting the enumeration, a short known workload is run
    /// and the counter checked. If the fixed counters do not count, a
    /// general-purpose one is tried; if neither does, nothing downstream
    /// reports a measurement.
    pub fn enable(&mut self, state: Enabling, advanced: bool) -> (r: (Enabling, Vec<MsrOp>))
        ensures
            r.0 == enable_step(*old(self), state, advanced).0,
            r.1@ == enable_step(*old(self), state, advanced).1,
            *final(self) == (CorePmu {
                route: enable_step(*old(self), state, advanced).2,
                ..*old(self)
            }),
    {
        match state {
            Enabling::Start => (Enabling::Fixed, self.enable_fixed()),
            Enabling::Fixed => {
                if advanced {
                    self.route = CounterRoute::Fixed;
                    return (Enabling::Settled, Vec::new());
                }
                match self.enable_general_cycles() {
                    Some((index, ops)) => (Enabling::General { index }, ops),
                    None => {
                        self.route = CounterRoute::Absent;
                        (Enabling::Settled, Vec::new())
                    },
                }
            },
            Enabling::General { index } => {
                self.route = if advanced {
                    CounterRoute::General(index)
                } else {
                    CounterRoute::Absent
                };
                (Enabling::Settled, Vec::new())
            },
            Enabling::Settled => (Enabling::Settled, Vec::new()),
        }
    }

    /// Starts the cycle counter on AArch64 and confirms it counts.
    pub fn enable_arm(&mut self, advanced: bool) -> (r: CounterRoute)
        ensures
            r == arm_route(advanced),
            *final(self) == (CorePmu { route: r, ..*old(self) }),
    {
        self.route = if advanced {
            CounterRoute::Fixed
        } else {
            CounterRoute::Absent
        };
        self.route
    }

    /// What selects a fixed counter on x86-64, where this core has it.
    pub open spec fn fixed_selector(self, index: u32) -> Option<(u32, u8)> {
        if index < self.leaf.fixed_counters {
            Some((RDPMC_FIXED | index, self.leaf.fixed_width))
        } else {
            None
        }
    }

    /// What selects a general-purpose counter on x86-64, where this core has it.
    pub open spec fn general_selector(self, index: u32) -> Option<(u32, u8)> {
        if index < self.leaf.general_counters {
            Some((index, self.leaf.general_width))
        } else {
            None
        }
    }

    /// What selects a fixed counter on x86-64, and the width to mask its value
    /// to.
    pub fn read(&self, index: u32) -> (r: Option<(u32, u8)>)
        ensures
            r == self.fixed_selector(index),
    {
        if index >= self.leaf.fixed_counters as u32 {
            return None;
        }
        Some((RDPMC_FIXED | index, self.leaf.fixed_width))
    }

    /// What selects a general-purpose counter on x86-64, and the width to mask
    /// its value to.
    pub fn read_general(&self, index: u32) -> (r: Option<(u32, u8)>)
        ensures
            r == self.general_selector(index),
    {
        if index >= self.leaf.general_counters as u32 {
            return None;
        }
        Some((index, self.leaf.general_width))
    }

    /// What a route reads on x86-64: nothing, the fixed core-cycles counter, or
    /// the general-purpose one, where this core has it.
    pub open spec fn selected(self, route: CounterRoute) -> Option<(u32, u8)> {
        match route {
            CounterRoute::Absent => None,
            CounterRoute::Fixed => if FIXED_CORE_CYCLES < self.leaf.fixed_counters {
                Some((RDPMC_FIXED | FIXED_CORE_CYCLES, self.leaf.fixed_width))
            } else {
                None
            },
            CounterRoute::General(index) => if index < self.leaf.general_counters {
                Some((index, self.leaf.general_width))
            } else {
                None
            },
        }
    }

    /// What a route reads on x86-64.
    pub fn read_route(&self, route: CounterRoute) -> (r: Option<(u32, u8)>)
        ensures
            r == self.selected(route),
    {
        match route {
            CounterRoute::Absent => None,
            CounterRoute::Fixed => self.read(FIXED_CORE_CYCLES),
            CounterRoute::General(index) => self.read_general(index),
        }
    }

    /// What the counter that was settled on reads on x86-64.
    pub fn read_cycles(&self) -> (r: Option<(u32, u8)>)
        ensures
            r == self.selected(self.route),
    {
        self.read_route(self.route)
    }

    /// Whether the counter that was settled on can be read on AArch64, where
    /// reading it gives the cycle counter.
    pub fn reads_cycles_arm(&self) -> (r: bool)
        ensures
            r == arm_reads(self.route),
    {
        reads_route_arm(self.route)
    }
}

impl CorePmu {
    /// What the control register is set to so that code outside the kernel may
    /// read the counters: the one bit for it, and no other disturbed.
    pub fn allow_rdpmc_from_user(cr4: u64) -> (r: u64)
        ensures
            r == with_user_reads(cr4),
    {
        cr4 | 0x100
    }
}

/// The control register with reads of the counters allowed outside the kernel.
pub open spec fn with_user_reads(cr4: u64) -> u64 {
    cr4 | 0x100
}

/// Bit 8 is set and every other bit is as it was.
pub proof fn only_the_one_bit_is_set(cr4: u64)
    ensures
        with_user_reads(cr4) & 0x100 == 0x100,
        with_user_reads(cr4) & !0x100u64 == cr4 & !0x100u64,
{
    assert((cr4 | 0x100) & 0x100 == 0x100 && (cr4 | 0x100) & !0x100u64 == cr4 & !0x100u64)
        by (bit_vector);
}

/// Whether a counter moved between two reads of it.
pub open spec fn has_moved(before: Option<Reading>, after: Option<Reading>) -> bool {
    before matches Some(a) && after matches Some(b) && a.value != b.value
}

/// The cycles between two readings, where they can be compared.
pub open spec fn cycles_between(
    before: Option<Reading>,
    after: Option<Reading>,
    difference: Option<u64>,
) -> Option<u64> {
    match (before, after) {
        (Some(a), Some(b)) => if a.core_type == b.core_type {
            difference
        } else {
            None
        },
        _ => None,
    }
}

/// Two readings make a measurement only where both are there and both are from
/// one kind of core, and then it is their difference; a counter has moved only
/// where both are there and are not the same.
pub proof fn readings_are_compared_on_one_core(a: Reading, b: Reading, difference: Option<u64>)
    ensures
        a.core_type == b.core_type ==> cycles_between(Some(a), Some(b), difference) == difference,
        a.core_type != b.core_type ==> cycles_between(Some(a), Some(b), difference) is None,
        cycles_between(None, Some(b), difference) is None,
        cycles_between(Some(a), None, difference) is None,
        cycles_between(None, None, difference) is None,
        has_moved(Some(a), Some(b)) == (a.value != b.value),
        !has_moved(None, Some(b)) && !has_moved(Some(a), None) && !has_moved(None, None),
{
}

/// Whether a counter moved between two reads of it.
pub fn counter_advances(before: Option<Reading>, after: Option<Reading>) -> (r: bool)
    ensures
        r == has_moved(before, after),
{
    match (before, after) {
        (Some(a), Some(b)) => a.value != b.value,
        _ => false,
    }
}

/// Cycles between two readings, given their difference where it is one:
/// nothing where either reading is missing, or where they came from different
/// kinds of core. A measurement that was moved from one to the other is not a
/// duration at all.
pub fn measure(before: Option<Reading>, after: Option<Reading>, difference: Option<u64>) -> (r:
    Option<u64>)
    ensures
        r == cycles_between(before, after, difference),
{
    match (before, after) {
        (Some(a), Some(b)) => {
            if a.core_type == b.core_type {
                difference
            } else {
                None
            }
        },
        _ => None,
    }
}

/// Finding a counter takes three steps at most, and what it settles on is a
/// counter that was seen to move, or none.
pub proof fn only_a_counter_that_moves_is_used(pmu: CorePmu, first: bool, second: bool)
    ensures
        ({
            let a = enable_step(pmu, Enabling::Start, first);
            let b = enable_step(pmu, a.0, first);
            let c = enable_step(pmu, b.0, second);
            &&& a.0 == Enabling::Fixed
            &&& first ==> b.0 == Enabling::Settled && b.2 == CounterRoute::Fixed
            &&& !first && b.0 != Enabling::Settled ==> c.0 == Enabling::Settled && c.2 == (
            if second {
                CounterRoute::General(0)
            } else {
                CounterRoute::Absent
            })
            &&& !first && b.0 == Enabling::Settled ==> b.2 == CounterRoute::Absent
        }),
{
}

/// What starting a counter writes. Latched overflows are cleared first, in
/// register 0x390; then each fixed counter there is, three at most, gets the two
/// bits that count at both levels in its four bits of 0x38D, and its own bit from
/// 32 on in 0x38F. A general counter is zeroed in 0xC1, given event 0x3C at both
/// levels in 0x186, and started by bit 0 of 0x38F. Without fixed counters none
/// is programmed.
pub proof fn what_starts_a_counter(pmu: CorePmu)
    ensures
        pmu.leaf.fixed_counters == 0 ==> pmu.fixed_program().len() == 0,
        pmu.leaf.fixed_counters > 0 ==> {
            let n = pmu.leaf.fixed_counters;
            let control = if n == 1 {
                0x003u64
            } else if n == 2 {
                0x033
            } else {
                0x333
            };
            let started = if n == 1 {
                0x1u64
            } else if n == 2 {
                0x3
            } else {
                0x7
            };
            &&& pmu.fixed_program().len() == 3
            &&& pmu.fixed_program()[0] == (MsrOp::Write { msr: 0x390, value: u64::MAX })
            &&& pmu.fixed_program()[1] == (MsrOp::Write { msr: 0x38D, value: control })
            &&& pmu.fixed_program()[2] == (MsrOp::SetBits {
                msr: 0x38F,
                bits: (started * 0x1_0000_0000) as u64,
            })
        },
        pmu.general_program().len() == 3,
        pmu.general_program()[0] == (MsrOp::Write { msr: 0xC1, value: 0 }),
        pmu.general_program()[1] == (MsrOp::Write { msr: 0x186, value: 0x43_003C }),
        pmu.general_program()[2] == (MsrOp::SetBits { msr: 0x38F, bits: 1 }),
        pmu.has_general_cycles() <==> pmu.leaf.general_counters > 0 && pmu.leaf.events_unavailable
            % 2 == 0,
{
    let mask = pmu.leaf.events_unavailable;
    assert((mask & 1 == 0) == (mask % 2 == 0)) by (bit_vector);
}

/// What is programmed when: the fixed counters first, and a general one only
/// where they did not move and this core has one for core cycles. A settled
/// search programs nothing more and keeps its route.
pub proof fn counters_are_tried_in_order(pmu: CorePmu, advanced: bool)
    ensures
        enable_step(pmu, Enabling::Start, advanced).1 == pmu.fixed_program(),
        enable_step(pmu, Enabling::Fixed, false).1 == (if pmu.has_general_cycles() {
            pmu.general_program()
        } else {
            seq![]
        }),
        pmu.has_general_cycles() ==> enable_step(pmu, Enabling::Fixed, false).0
            == (Enabling::General { index: 0 }),
        !pmu.has_general_cycles() ==> enable_step(pmu, Enabling::Fixed, false).0
            == Enabling::Settled,
        enable_step(pmu, Enabling::Fixed, true).1.len() == 0,
        enable_step(pmu, Enabling::Settled, advanced) == (
            Enabling::Settled,
            Seq::<MsrOp>::empty(),
            pmu.route,
        ),
{
}

/// A fixed counter is selected by bit 30 and its number, the settled one being
/// number 1, and a general one by its number alone; each with its own width, and
/// only where this core has it. What is settled on is what is read.
pub proof fn what_selects_a_counter(pmu: CorePmu, index: u32)
    ensures
        index < pmu.leaf.fixed_counters ==> pmu.fixed_selector(index) == Some(
            ((0x4000_0000 + index) as u32, pmu.leaf.fixed_width),
        ),
        index >= pmu.leaf.fixed_counters ==> pmu.fixed_selector(index) is None,
        index < pmu.leaf.general_counters ==> pmu.general_selector(index) == Some(
            (index, pmu.leaf.general_width),
        ),
        index >= pmu.leaf.general_counters ==> pmu.general_selector(index) is None,
        pmu.selected(CounterRoute::Fixed) == pmu.fixed_selector(1),
        pmu.selected(CounterRoute::General(index)) == pmu.general_selector(index),
        pmu.selected(CounterRoute::Absent) is None,
{
    assert(index < 256 ==> 0x4000_0000u32 | index == 0x4000_0000 + index) by (bit_vector);
}

/// A core without leaf 10 has no counters; any other has what the leaf says. No
/// route is settled on yet.
pub proof fn a_core_has_what_its_leaf_says(max_leaf: u32, leaf: PmuLeaf, core_type: CoreType)
    ensures
        max_leaf >= 10 ==> CorePmu::detected(max_leaf, leaf, core_type).leaf == leaf,
        max_leaf < 10 ==> {
            let none = CorePmu::detected(max_leaf, leaf, core_type).leaf;
            !none.available && none.fixed_counters == 0 && none.general_counters == 0
                && none.version == 0
        },
        CorePmu::detected(max_leaf, leaf, core_type).core_type == core_type,
        CorePmu::detected(max_leaf, leaf, core_type).route == CounterRoute::Absent,
{
}

/// A counter is only ever selected on a core that says it has it.
pub proof fn only_a_counter_there_is_selected(pmu: CorePmu, route: CounterRoute)
    ensures
        pmu.selected(route) is Some && route == CounterRoute::Fixed ==> pmu.leaf.fixed_counters
            >= 2,
        pmu.selected(route) is Some ==> (route matches CounterRoute::General(index) ==> index
            < pmu.leaf.general_counters),
        pmu.selected(CounterRoute::Absent) is None,
{
}

/// What an AArch64 core's PMU offers, from its control register: the event
/// counters its bits 15:11 count, and the one 64-bit cycle counter.
pub open spec fn arm_leaf(pmcr: u64) -> PmuLeaf {
    PmuLeaf {
        available: true,
        version: 1,
        general_counters: (pmcr / 2048 % 32) as u8,
        general_width: 32,
        fixed_counters: 1,
        fixed_width: 64,
        events_unavailable: 0,
    }
}

/// The number an AArch64 core's identity register folds to: the part number
/// in bits 15:4, its high four bits folded into its low eight. Different
/// parts that fold differently compare unequal, which is all that is asked.
pub open spec fn arm_part(midr: u64) -> u8 {
    let part = (midr / 16 % 4096) as u16;
    (part ^ (part >> 8)) as u8
}

/// The description of an AArch64 core.
pub open spec fn arm_core(pmcr: u64, midr: u64) -> CorePmu {
    CorePmu {
        leaf: arm_leaf(pmcr),
        core_type: CoreType::Unknown(arm_part(midr)),
        route: CounterRoute::Absent,
    }
}

/// An AArch64 core has as many event counters as bits 15 to 11 of its control
/// register say and one 64-bit cycle counter. No counter is in use yet.
pub proof fn an_arm_core_has_one_cycle_counter(pmcr: u64, midr: u64)
    ensures
        arm_core(pmcr, midr).leaf.available,
        arm_core(pmcr, midr).leaf.general_counters == pmcr % 65536 / 2048,
        arm_core(pmcr, midr).leaf.general_width == 32,
        arm_core(pmcr, midr).leaf.fixed_counters == 1,
        arm_core(pmcr, midr).leaf.fixed_width == 64,
        arm_core(pmcr, midr).core_type == CoreType::Unknown(arm_part(midr)),
        arm_core(pmcr, midr).route == CounterRoute::Absent,
{
}

/// An AArch64 core's type is its part: only bits 15 to 4 of its identity count,
/// a part of eight bits is its own type, and two parts that differ in their low
/// eight bits alone are two types.
pub proof fn an_arm_core_is_its_part(midr: u64, other: u64)
    ensures
        arm_part(midr) == (midr % 4096 / 16) as u8 ^ (midr % 65536 / 4096) as u8,
        midr % 65536 / 4096 == 0 ==> arm_part(midr) == midr % 4096 / 16,
        midr % 65536 / 4096 == other % 65536 / 4096 && midr % 4096 / 16 != other % 4096 / 16
            ==> arm_part(midr) != arm_part(other),
{
    folds(midr);
    folds(other);
    let (a, b, h) = (
        (midr % 4096 / 16) as u8,
        (other % 4096 / 16) as u8,
        (midr % 65536 / 4096) as u8,
    );
    assert(a != b ==> a ^ h != b ^ h) by (bit_vector);
    assert(h == 0 ==> a ^ h == a) by (bit_vector);
}

proof fn folds(midr: u64)
    ensures
        arm_part(midr) == (midr % 4096 / 16) as u8 ^ (midr % 65536 / 4096) as u8,
{
    let part = (midr / 16 % 4096) as u16;
    let low = (part % 256) as u8;
    let high = (part / 256) as u8;
    assert(part < 4096 && low == part % 256 && high == part / 256 ==> (part ^ (part >> 8)) as u8
        == low ^ high) by (bit_vector);
    assert(midr / 16 % 4096 % 256 == midr % 4096 / 16 && midr / 16 % 4096 / 256 == midr % 65536
        / 4096) by (bit_vector);
}

/// Describes an AArch64 core's PMU.
pub fn detect_arm(pmcr: u64, midr: u64) -> (r: CorePmu)
    ensures
        r == arm_core(pmcr, midr),
{
    let part: u16 = (midr / 16 % 4096) as u16;
    let leaf = PmuLeaf {
        available: true,
        version: 1,
        general_counters: (pmcr / 2048 % 32) as u8,
        general_width: 32,
        fixed_counters: 1,
        fixed_width: 64,
        events_unavailable: 0,
    };
    let folded: u8 = #[verifier::truncate] ((part ^ (part >> 8)) as u8);
    CorePmu { leaf, core_type: CoreType::Unknown(folded), route: CounterRoute::Absent }
}

/// The route settled on on AArch64, by whether the counter counted.
pub open spec fn arm_route(advanced: bool) -> CounterRoute {
    if advanced {
        CounterRoute::Fixed
    } else {
        CounterRoute::Absent
    }
}

/// Whether a fixed counter index can be read on AArch64.
pub open spec fn arm_has(index: u32) -> bool {
    index == FIXED_CORE_CYCLES
}

/// Whether a route can be read on AArch64.
pub open spec fn arm_reads(route: CounterRoute) -> bool {
    route == CounterRoute::Fixed
}

/// On AArch64 a counter that counted can be read and one that did not cannot.
/// There is one fixed counter, the second, and no general one.
pub proof fn what_counts_on_arm_is_read(advanced: bool, index: u32)
    ensures
        arm_reads(arm_route(advanced)) == advanced,
        !arm_reads(CounterRoute::Absent),
        !arm_reads(CounterRoute::General(index)),
        arm_has(index) <==> index == 1,
{
}

/// Whether a fixed counter index can be read on AArch64: there is exactly one
/// fixed counter, and it counts cycles.
pub fn reads_arm(index: u32) -> (r: bool)
    ensures
        r == arm_has(index),
{
    index == FIXED_CORE_CYCLES
}

/// Whether a route can be read on AArch64: the one that goes to the cycle
/// counter can, and there is no other.
pub fn reads_route_arm(route: CounterRoute) -> (r: bool)
    ensures
        r == arm_reads(route),
{
    match route {
        CounterRoute::Absent => false,
        CounterRoute::Fixed => reads_arm(FIXED_CORE_CYCLES),
        CounterRoute::General(_) => false,
    }
}

/// The control register with the cycle counter running.
pub open spec fn arm_started(pmcr: u64) -> u64 {
    (pmcr | 0x41) & !0x08u64
}

/// Bit 0 enables, bit 6 makes the counter 64 bits wide and bit 3, which would
/// count every sixty-fourth cycle, is cleared; every other bit is as it was.
pub proof fn the_cycle_counter_is_started(pmcr: u64)
    ensures
        arm_started(pmcr) & 0x01 == 0x01,
        arm_started(pmcr) & 0x40 == 0x40,
        arm_started(pmcr) & 0x08 == 0,
        arm_started(pmcr) & !0x49u64 == pmcr & !0x49u64,
{
    let r = arm_started(pmcr);
    assert(r == (pmcr | 0x41) & !0x08u64 ==> r & 0x01 == 0x01 && r & 0x40 == 0x40 && r & 0x08 == 0
        && r & !0x49u64 == pmcr & !0x49u64) by (bit_vector);
}

/// The control register that starts the AArch64 cycle counter: enabled,
/// 64 bits wide, and counting cycles rather than every sixty-fourth.
pub fn arm_control(pmcr: u64) -> (r: u64)
    ensures
        r == arm_started(pmcr),
        r & 0x01 != 0,
        r & 0x40 != 0,
        r & 0x08 == 0,
        r & !0x49u64 == pmcr & !0x49u64,
{
    proof {
        assert(((pmcr | 0x41) & !0x08u64) & 0x01 != 0 && ((pmcr | 0x41) & !0x08u64) & 0x40 != 0 && (
        (pmcr | 0x41) & !0x08u64) & 0x08 == 0 && ((pmcr | 0x41) & !0x08u64) & !0x49u64 == pmcr
            & !0x49u64) by (bit_vector);
    }
    (pmcr | 0x41) & !0x08u64
}

} // verus!
