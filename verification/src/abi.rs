//! The flat interface a loaded module is reached through.

use crate::arch::{counter_source, set_counter_source, CounterCell, CounterSource};
use crate::pmu::{CorePmu, CoreType, CounterRoute, Reading};
use vstd::prelude::*;

verus! {

/// Layout version, so a loader can refuse a module it does not understand.
pub const NC_BM_ABI_VERSION: u32 = 1;

/// What one core's PMU offers, flattened.
#[allow(non_camel_case_types)]
#[derive(Debug, Clone, Copy, PartialEq, Eq, Structural)]
pub struct nc_bm_pmu_t {
    pub version: u32,
    pub general_counters: u32,
    pub general_width: u32,
    pub fixed_counters: u32,
    pub fixed_width: u32,
    /// 0 uniform, 1 performance, 2 efficiency, 3 unknown.
    pub core_type: u32,
    /// 0 none, 1 fixed, 2 general-purpose.
    pub route: u32,
    pub _pad: u32,
}

/// The number of a route.
pub open spec fn code_of_route(route: CounterRoute) -> u32 {
    match route {
        CounterRoute::Absent => 0,
        CounterRoute::Fixed => 1,
        CounterRoute::General(_) => 2,
    }
}

/// The number of a core type.
pub open spec fn code_of_core(core_type: CoreType) -> u32 {
    match core_type {
        CoreType::Uniform => 0,
        CoreType::Performance => 1,
        CoreType::Efficiency => 2,
        CoreType::Unknown(_) => 3,
    }
}

/// The number of a route.
pub fn route_code(route: CounterRoute) -> (r: u32)
    ensures
        r == code_of_route(route),
{
    match route {
        CounterRoute::Absent => 0,
        CounterRoute::Fixed => 1,
        CounterRoute::General(_) => 2,
    }
}

/// A description, flattened.
pub open spec fn flat(pmu: CorePmu) -> nc_bm_pmu_t {
    nc_bm_pmu_t {
        version: pmu.leaf.version as u32,
        general_counters: pmu.leaf.general_counters as u32,
        general_width: pmu.leaf.general_width as u32,
        fixed_counters: pmu.leaf.fixed_counters as u32,
        fixed_width: pmu.leaf.fixed_width as u32,
        core_type: code_of_core(pmu.core_type),
        route: code_of_route(pmu.route),
        _pad: 0,
    }
}

/// A description, flattened.
pub fn flatten(pmu: &CorePmu) -> (r: nc_bm_pmu_t)
    ensures
        r == flat(*pmu),
{
    nc_bm_pmu_t {
        version: pmu.leaf.version as u32,
        general_counters: pmu.leaf.general_counters as u32,
        general_width: pmu.leaf.general_width as u32,
        fixed_counters: pmu.leaf.fixed_counters as u32,
        fixed_width: pmu.leaf.fixed_width as u32,
        core_type: match pmu.core_type {
            CoreType::Uniform => 0,
            CoreType::Performance => 1,
            CoreType::Efficiency => 2,
            CoreType::Unknown(_) => 3,
        },
        route: route_code(pmu.route),
        _pad: 0,
    }
}

/// The version this module was built with.
pub fn nc_bm_abi_version() -> (r: u32)
    ensures
        r == NC_BM_ABI_VERSION,
{
    NC_BM_ABI_VERSION
}

/// What describing a core's PMU is answered with.
pub open spec fn detect_reply(pmu: CorePmu, wanted: bool) -> (i32, Option<nc_bm_pmu_t>) {
    if wanted {
        (0i32, Some(flat(pmu)))
    } else {
        (-1i32, None)
    }
}

/// What reading a counter is answered with.
pub open spec fn read_reply(given: bool, reading: Option<Reading>) -> (i32, Option<u64>) {
    match reading {
        Some(reading) => if given {
            (1i32, Some(reading.value))
        } else {
            (0i32, None)
        },
        None => (0i32, None),
    }
}

/// A description goes over field by field, with its core type as 0 to 3 and its
/// route as 0 to 2; without anywhere to put it the answer is minus one.
pub proof fn a_description_goes_over_whole(pmu: CorePmu)
    ensures
        detect_reply(pmu, false) == (-1i32, None::<nc_bm_pmu_t>),
        detect_reply(pmu, true).0 == 0,
        detect_reply(pmu, true).1 matches Some(out) && {
            &&& out.version == pmu.leaf.version
            &&& out.general_counters == pmu.leaf.general_counters
            &&& out.general_width == pmu.leaf.general_width
            &&& out.fixed_counters == pmu.leaf.fixed_counters
            &&& out.fixed_width == pmu.leaf.fixed_width
            &&& out.core_type == match pmu.core_type {
                CoreType::Uniform => 0u32,
                CoreType::Performance => 1,
                CoreType::Efficiency => 2,
                CoreType::Unknown(_) => 3,
            }
            &&& out.route == match pmu.route {
                CounterRoute::Absent => 0u32,
                CounterRoute::Fixed => 1,
                CounterRoute::General(_) => 2,
            }
        },
        code_of_route(pmu.route) == flat(pmu).route,
{
}

/// A value is handed over with one, and only where there is one and somewhere
/// to put it; otherwise the answer is zero.
pub proof fn a_value_is_handed_over_where_there_is_one(given: bool, reading: Option<Reading>)
    ensures
        given && reading is Some ==> read_reply(given, reading) == (1i32, Some(reading->0.value)),
        !given || reading is None ==> read_reply(given, reading) == (0i32, None::<u64>),
{
}

/// Describes a core's PMU without programming it: a status, and the
/// description where the caller gave somewhere to put it.
pub fn nc_bm_pmu_detect(pmu: &CorePmu, wanted: bool) -> (r: (i32, Option<nc_bm_pmu_t>))
    ensures
        r == detect_reply(*pmu, wanted),
{
    if !wanted {
        return (-1, None);
    }
    (0, Some(flatten(pmu)))
}

/// The route a core's counters settled on once they were programmed, and the
/// description that goes with it. Zero means no counter on this core moves,
/// and no measurement should be reported.
pub fn nc_bm_pmu_enable(pmu: &CorePmu) -> (r: (u32, nc_bm_pmu_t))
    ensures
        r == (code_of_route(pmu.route), flat(*pmu)),
{
    (route_code(pmu.route), flatten(pmu))
}

/// A counter's value for a caller that gave a description and somewhere to
/// put it: one and the value, or zero where nothing counts on this core.
pub fn nc_bm_pmu_read(given: bool, reading: Option<Reading>) -> (r: (i32, Option<u64>))
    ensures
        r == read_reply(given, reading),
{
    if !given {
        return (0, None);
    }
    match reading {
        Some(reading) => (1, Some(reading.value)),
        None => (0, None),
    }
}

/// Whether a live description has to be enabled before it is read: its route
/// is not the one the caller's description names. The caller's is never
/// trusted to describe *this* core.
pub fn must_enable(live: &CorePmu, flat: &nc_bm_pmu_t) -> (r: bool)
    ensures
        r == (code_of_route(live.route) != flat.route),
{
    route_code(live.route) != flat.route
}

/// Which counter is read: 0 virtual, 1 physical.
pub fn nc_bm_counter_source(cell: &CounterCell) -> (r: u32)
    ensures
        r == cell.selected().code(),
{
    counter_source(cell).as_u8() as u32
}

/// Selects which counter is read, by the number's low byte: 1 for the
/// physical counter, anything else for the virtual one. A no-op where there is
/// no choice of counter. Returns the number of the one selected before.
pub fn nc_bm_counter_source_set(cell: &mut CounterCell, counter: u32) -> (r: u32)
    ensures
        r == old(cell).selected().code(),
        *final(cell) == old(cell).asked_for(CounterSource::of_code((counter % 256) as u8)),
{
    let source = CounterSource::from_u8((counter % 256) as u8);
    let previous = counter_source(cell);
    set_counter_source(cell, source);
    previous.as_u8() as u32
}

/// What was selected is what is read back, and setting back what was returned
/// restores the selection.
pub proof fn selections_round_trip(cell: CounterCell, counter: u32)
    ensures
        ({
            let source = CounterSource::of_code((counter % 256) as u8);
            let before = cell.selected().code() as u32;
            let back = CounterSource::of_code((before % 256) as u8);
            &&& cell.choice ==> cell.asked_for(source).selected() == source
            &&& cell.asked_for(source).asked_for(back).selected() == cell.selected()
        }),
{
}

} // verus!
