//! Power control on AArch64.
//!
//! There are no I/O ports and no FADT registers to write. The platform's
//! power state is owned by firmware at EL3, reached through PSCI.

use vstd::prelude::*;

verus! {

pub const PSCI_SYSTEM_OFF: u64 = 0x8400_0008;

pub const PSCI_SYSTEM_RESET: u64 = 0x8400_0009;

/// Nothing to read: PSCI needs no table walk, so this only reports that the
/// mechanism exists.
#[derive(Debug, Clone, Copy, PartialEq, Eq, Structural)]
pub struct PowerRegisters;

/// How a PSCI call is made.
#[derive(Debug, Clone, Copy, PartialEq, Eq, Structural)]
pub enum Conduit {
    Hvc,
    Smc,
}

/// A PSCI call.
#[derive(Debug, Clone, Copy, PartialEq, Eq, Structural)]
pub struct Call {
    pub function: u64,
    pub conduit: Conduit,
}

/// How to make a PSCI call from an exception level: `HVC` from EL1, where
/// there is an EL2 to take it; `SMC` from EL2, above which there is none.
pub open spec fn call_from(function: u64, el: u8) -> Call {
    Call {
        function,
        conduit: if el >= 2 {
            Conduit::Smc
        } else {
            Conduit::Hvc
        },
    }
}

fn call(function: u64, el: u8) -> (r: Call)
    ensures
        r == call_from(function, el),
{
    Call {
        function,
        conduit: if el >= 2 {
            Conduit::Smc
        } else {
            Conduit::Hvc
        },
    }
}

/// The call that powers the machine off, and the one that restarts it.
pub open spec fn off_call(el: u8) -> Call {
    call_from(PSCI_SYSTEM_OFF, el)
}

pub open spec fn reset_call(el: u8) -> Call {
    call_from(PSCI_SYSTEM_RESET, el)
}

/// Off is function 0x84000008 and reset the one after it; both go to the
/// hypervisor from below EL2 and to the firmware from there on.
pub proof fn the_calls_are_the_firmwares(el: u8)
    ensures
        off_call(el).function == 0x8400_0008,
        reset_call(el).function == 0x8400_0009,
        el < 2 ==> off_call(el).conduit == Conduit::Hvc && reset_call(el).conduit == Conduit::Hvc,
        el >= 2 ==> off_call(el).conduit == Conduit::Smc && reset_call(el).conduit == Conduit::Smc,
{
}

/// The mechanism, which is always there.
pub fn power_registers() -> (r: Option<PowerRegisters>)
    ensures
        r == Some(PowerRegisters),
{
    Some(PowerRegisters)
}

/// The call that powers the machine off. Returning from it means firmware
/// does not implement it.
pub fn shutdown(el: u8) -> (r: Call)
    ensures
        r == off_call(el),
{
    call(PSCI_SYSTEM_OFF, el)
}

/// The call that restarts the machine. There is no way to force a reset from
/// EL1, so where firmware declines it the honest outcome is to stop.
pub fn reboot(el: u8) -> (r: Call)
    ensures
        r == reset_call(el),
{
    call(PSCI_SYSTEM_RESET, el)
}

} // verus!
