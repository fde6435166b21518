//! Core runtime value types.

pub mod outcome;
pub mod wasm_abi;

use vstd::prelude::*;

verus! {

/// A point in runtime time, in nanoseconds since the runtime's epoch.
#[derive(Debug, Clone, Copy, PartialEq, Eq, PartialOrd, Ord, Hash, Structural)]
pub struct Time {
    nanos: u64,
}

impl Time {
    /// Nanoseconds since the epoch.
    pub closed spec fn nanos_spec(self) -> u64 {
        self.nanos
    }

    /// The instant `nanos` nanoseconds after the epoch.
    pub fn from_nanos(nanos: u64) -> (t: Self)
        ensures
            t.nanos_spec() == nanos,
    {
        Time { nanos }
    }

    /// Nanoseconds since the epoch.
    pub fn as_nanos(&self) -> (n: u64)
        ensures
            n == self.nanos_spec(),
    {
        self.nanos
    }
}

/// Identifier of an obligation in the obligation ledger.
#[derive(Debug, Clone, Copy, PartialEq, Eq, PartialOrd, Ord, Hash, Structural)]
pub struct ObligationId {
    raw: u64,
}

impl ObligationId {
    /// The raw identifier.
    pub closed spec fn raw_spec(self) -> u64 {
        self.raw
    }

    /// An identifier with raw value `raw`.
    pub fn from_raw(raw: u64) -> (id: Self)
        ensures
            id.raw_spec() == raw,
    {
        ObligationId { raw }
    }

    /// The identifier of arena slot `index` at generation `generation`.
    pub fn new_for_test(index: u32, generation: u32) -> (id: Self)
        ensures
            id.raw_spec() == index as int + generation as int * 0x1_0000_0000,
    {
        let raw = (index as u64) | ((generation as u64) << 32u64);
        assert(raw == index as int + generation as int * 0x1_0000_0000) by (bit_vector)
            requires
                raw == (index as u64) | ((generation as u64) << 32u64);
        ObligationId { raw }
    }

    /// The raw identifier.
    pub fn raw(&self) -> (r: u64)
        ensures
            r == self.raw_spec(),
    {
        self.raw
    }
}


/// Identifier of a region: an arena slot and its generation.
#[derive(Debug, Clone, Copy, PartialEq, Eq, PartialOrd, Ord, Hash, Structural)]
pub struct RegionId {
    /// Arena slot.
    pub index: u32,
    /// Slot generation.
    pub generation: u32,
}

impl RegionId {
    /// The region at slot `index`, generation `generation`.
    pub fn new_for_test(index: u32, generation: u32) -> (r: Self)
        ensures
            r == (RegionId { index, generation }),
    {
        RegionId { index, generation }
    }

    /// Display text: `R` and the slot.
    pub fn to_string(&self) -> (s: String)
        ensures
            s@ == seq!['R'] + crate::text::decimal(self.index as nat),
    {
        let mut s = String::new();
        crate::text::push_char(&mut s, 'R');
        let d = crate::text::decimal_text(self.index as u64);
        crate::text::push_str(&mut s, d.as_str());
        s
    }
}

/// Identifier of a task: an arena slot and its generation.
#[derive(Debug, Clone, Copy, PartialEq, Eq, PartialOrd, Ord, Hash, Structural)]
pub struct TaskId {
    /// Arena slot.
    pub index: u32,
    /// Slot generation.
    pub generation: u32,
}

impl TaskId {
    /// The task at slot `index`, generation `generation`.
    pub fn new_for_test(index: u32, generation: u32) -> (t: Self)
        ensures
            t == (TaskId { index, generation }),
    {
        TaskId { index, generation }
    }

    /// Display text: `T` and the slot.
    pub fn to_string(&self) -> (s: String)
        ensures
            s@ == seq!['T'] + crate::text::decimal(self.index as nat),
    {
        let mut s = String::new();
        crate::text::push_char(&mut s, 'T');
        let d = crate::text::decimal_text(self.index as u64);
        crate::text::push_str(&mut s, d.as_str());
        s
    }
}

} // verus!
