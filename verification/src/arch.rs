//! Which counter a freestanding kernel reads.

use vstd::prelude::*;

verus! {

/// Which AArch64 counter is read, and why it is a choice.
///
/// The virtual counter is the safe choice for any kernel that might run
/// inside a hypervisor, because a guest sees a timeline that starts when the
/// guest did. The physical counter exposes the host's real timeline, which is
/// what this exists to opt into for bare metal only.
#[derive(Debug, Clone, Copy, PartialEq, Eq, Structural)]
pub enum CounterSource {
    /// `CNTVCT_EL0`, the virtual counter. The safe default.
    Virtual,
    /// `CNTPCT_EL0`, the physical counter. Not recommended inside a VM.
    Physical,
}

impl CounterSource {
    /// The number a source is stored as.
    pub open spec fn code(self) -> u8 {
        match self {
            CounterSource::Virtual => 0,
            CounterSource::Physical => 1,
        }
    }

    /// The source a number stands for: the virtual one unless it is one.
    pub open spec fn of_code(v: u8) -> CounterSource {
        if v == 1 {
            CounterSource::Physical
        } else {
            CounterSource::Virtual
        }
    }

    pub fn as_u8(self) -> (r: u8)
        ensures
            r == self.code(),
    {
        match self {
            CounterSource::Virtual => 0,
            CounterSource::Physical => 1,
        }
    }

    pub fn from_u8(v: u8) -> (r: CounterSource)
        ensures
            r == CounterSource::of_code(v),
    {
        match v {
            1 => CounterSource::Physical,
            _ => CounterSource::Virtual,
        }
    }

    pub open spec fn label(self) -> Seq<char> {
        match self {
            CounterSource::Virtual => "cntvct_el0"@,
            CounterSource::Physical => "cntpct_el0"@,
        }
    }

    pub fn name(self) -> (r: &'static str)
        ensures
            r@ == self.label(),
    {
        match self {
            CounterSource::Virtual => "cntvct_el0",
            CounterSource::Physical => "cntpct_el0",
        }
    }
}

/// The selected source, as the number it is stored as.
pub struct CounterCell {
    pub stored: u8,
    /// Whether there is a choice to make: on AArch64 there is, on x86-64 there
    /// is one counter.
    pub choice: bool,
}

impl CounterCell {
    /// The source selected.
    pub open spec fn selected(self) -> CounterSource {
        CounterSource::of_code(self.stored)
    }

    /// This cell once a source has been asked for: it is selected where there
    /// is a choice, and nothing changes where there is none.
    pub open spec fn asked_for(self, source: CounterSource) -> CounterCell {
        if self.choice {
            CounterCell { stored: source.code(), ..self }
        } else {
            self
        }
    }

    /// The virtual counter selected, on a machine with or without a choice.
    pub fn new(choice: bool) -> (r: CounterCell)
        ensures
            r.choice == choice,
            r.selected() == CounterSource::Virtual,
    {
        CounterCell { stored: 0, choice }
    }
}

/// Selects which counter is read. A no-op where there is only one.
pub fn set_counter_source(cell: &mut CounterCell, source: CounterSource)
    ensures
        *final(cell) == old(cell).asked_for(source),
{
    if cell.choice {
        cell.stored = source.as_u8();
    }
}

/// Which counter source is currently selected.
pub fn counter_source(cell: &CounterCell) -> (r: CounterSource)
    ensures
        r == cell.selected(),
{
    CounterSource::from_u8(cell.stored)
}

/// Where there is a choice, what was asked for is what is selected; where there
/// is none, asking changes nothing.
pub proof fn a_selection_is_kept(cell: CounterCell, source: CounterSource)
    ensures
        cell.choice ==> cell.asked_for(source).selected() == source,
        !cell.choice ==> cell.asked_for(source) == cell,
{
}

/// The exception level in a `CurrentEL` register.
pub open spec fn el_in(register: u64) -> u64 {
    register / 4 % 4
}

/// The level is in bits 3 and 2, and no other bit counts.
pub proof fn the_level_is_in_its_bits(high: u64, el: u64, low: u64)
    requires
        el < 4,
        low < 4,
        high < 0x1000_0000_0000_0000,
    ensures
        el_in((high * 16 + el * 4 + low) as u64) == el,
{
}

/// The physical counter is one and the virtual counter zero, and anything that
/// is not one stands for the virtual one. What is stored reads back.
pub proof fn sources_have_their_numbers(v: u8, source: CounterSource)
    ensures
        CounterSource::Virtual.code() == 0,
        CounterSource::Physical.code() == 1,
        CounterSource::of_code(1) == CounterSource::Physical,
        v != 1 ==> CounterSource::of_code(v) == CounterSource::Virtual,
        CounterSource::of_code(source.code()) == source,
{
}

/// The exception level in a `CurrentEL` register: bits 3:2.
pub fn current_el(register: u64) -> (r: u8)
    ensures
        r == el_in(register),
{
    (register / 4 % 4) as u8
}

} // verus!
