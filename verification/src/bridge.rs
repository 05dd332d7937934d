//! The bridge between the engine's memory accesses and a memory capability.
//!
//! The engine knows no failed access: it asks for a value and goes on. The
//! bridge forwards each access to the capability it owns, hands the engine a
//! placeholder where the capability fails, and remembers the failure until
//! the driver collects it with the report of the cycle.

use crate::harness::CycleReport;
use crate::memory::MemoryInterface;
use vstd::prelude::*;

verus! {

/// What the engine is handed for a byte that could not be read.
pub const UNSERVED_BYTE: u8 = 0;

/// What the engine is handed for a half-word that could not be read.
pub const UNSERVED_HALF_WORD: u16 = 0;

/// The value that an access yields for the engine: what the capability
/// returned, or the placeholder where it failed.
pub open spec fn settled_value<T>(result: Option<T>, placeholder: T) -> T {
    match result {
        Some(value) => value,
        None => placeholder,
    }
}

/// Settles one access: the value for the engine, and whether memory is still
/// in order, which it is when it was before and this access was served.
pub fn settle<T>(result: Option<T>, placeholder: T, memory_ok: bool) -> (r: (T, bool))
    ensures
        r.0 == settled_value(result, placeholder),
        r.1 == (memory_ok && result is Some),
{
    match result {
        Some(value) => (value, memory_ok),
        None => (placeholder, false),
    }
}

/// A memory capability together with the record of whether every access
/// since the last report was served.
pub struct MemoryBridge<M: MemoryInterface> {
    capability: M,
    memory_ok: bool,
}

impl<M: MemoryInterface> MemoryBridge<M> {
    /// Every access since the last report was served.
    pub closed spec fn memory_ok(&self) -> bool {
        self.memory_ok
    }

    /// The capability that the bridge forwards to.
    pub closed spec fn capability(&self) -> M {
        self.capability
    }

    /// What a forwarded byte read may give: the capability is asked with the
    /// cycle and the address, the engine's value `r` is its answer or the
    /// placeholder, and memory is in order afterwards when it was before and
    /// the read was served.
    pub open spec fn forwards_read_u8(&self, cycle: u32, address: u32, after: &Self, r: u8) -> bool {
        exists|answer: Option<u8>|
            {
                &&& #[trigger] self.capability().reads_u8(
                    cycle,
                    address,
                    &after.capability(),
                    answer,
                )
                &&& r == settled_value(answer, UNSERVED_BYTE)
                &&& after.memory_ok() == (self.memory_ok() && answer is Some)
            }
    }

    /// What a forwarded half-word read may give, in the same way.
    pub open spec fn forwards_read_u16(&self, cycle: u32, address: u32, after: &Self, r: u16) -> bool {
        exists|answer: Option<u16>|
            {
                &&& #[trigger] self.capability().reads_u16(
                    cycle,
                    address,
                    &after.capability(),
                    answer,
                )
                &&& r == settled_value(answer, UNSERVED_HALF_WORD)
                &&& after.memory_ok() == (self.memory_ok() && answer is Some)
            }
    }

    /// What a forwarded byte write may leave: the capability is asked with
    /// the cycle, the address and the value, and memory is in order
    /// afterwards when it was before and the write was served.
    pub open spec fn forwards_write_u8(&self, cycle: u32, address: u32, value: u8, after: &Self) -> bool {
        exists|answer: Option<()>|
            {
                &&& #[trigger] self.capability().writes_u8(
                    cycle,
                    address,
                    value,
                    &after.capability(),
                    answer,
                )
                &&& after.memory_ok() == (self.memory_ok() && answer is Some)
            }
    }

    /// What a forwarded half-word write may leave, in the same way.
    pub open spec fn forwards_write_u16(
        &self,
        cycle: u32,
        address: u32,
        value: u16,
        after: &Self,
    ) -> bool {
        exists|answer: Option<()>|
            {
                &&& #[trigger] self.capability().writes_u16(
                    cycle,
                    address,
                    value,
                    &after.capability(),
                    answer,
                )
                &&& after.memory_ok() == (self.memory_ok() && answer is Some)
            }
    }

    /// A bridge to `capability` with no failure on record.
    pub fn new(capability: M) -> (r: Self)
        ensures
            r.memory_ok(),
            r.capability() == capability,
    {
        MemoryBridge { capability, memory_ok: true }
    }

    /// Forwards a byte read to the capability, with the cycle and the address
    /// as the engine gave them. The engine gets the capability's answer, or
    /// the placeholder where there is none; memory stays in order when it was
    /// in order and the read was served.
    pub fn read_u8(&mut self, cycle: u32, address: u32) -> (r: u8)
        ensures
            old(self).forwards_read_u8(cycle, address, final(self), r),
            final(self).memory_ok() ==> old(self).memory_ok(),
    {
        let result = self.capability.read_u8(cycle, address);
        let (value, ok) = settle(result, UNSERVED_BYTE, self.memory_ok);
        self.memory_ok = ok;
        assert(old(self).capability().reads_u8(cycle, address, &self.capability(), result));
        value
    }

    /// Forwards a half-word read to the capability, with the cycle and the
    /// address as the engine gave them. The engine gets the capability's
    /// answer, or the placeholder where there is none; memory stays in order
    /// when it was in order and the read was served.
    pub fn read_u16(&mut self, cycle: u32, address: u32) -> (r: u16)
        ensures
            old(self).forwards_read_u16(cycle, address, final(self), r),
            final(self).memory_ok() ==> old(self).memory_ok(),
    {
        let result = self.capability.read_u16(cycle, address);
        let (value, ok) = settle(result, UNSERVED_HALF_WORD, self.memory_ok);
        self.memory_ok = ok;
        assert(old(self).capability().reads_u16(cycle, address, &self.capability(), result));
        value
    }

    /// Forwards a byte write to the capability, with the cycle, the address
    /// and the value as the engine gave them. Memory stays in order when it
    /// was in order and the write was served.
    pub fn write_u8(&mut self, cycle: u32, address: u32, value: u8)
        ensures
            old(self).forwards_write_u8(cycle, address, value, final(self)),
            final(self).memory_ok() ==> old(self).memory_ok(),
    {
        let result = self.capability.write_u8(cycle, address, value);
        let (_, ok) = settle(result, (), self.memory_ok);
        self.memory_ok = ok;
        assert(old(self).capability().writes_u8(cycle, address, value, &self.capability(), result));
    }

    /// Forwards a half-word write to the capability, with the cycle, the
    /// address and the value as the engine gave them. Memory stays in order
    /// when it was in order and the write was served.
    pub fn write_u16(&mut self, cycle: u32, address: u32, value: u16)
        ensures
            old(self).forwards_write_u16(cycle, address, value, final(self)),
            final(self).memory_ok() ==> old(self).memory_ok(),
    {
        let result = self.capability.write_u16(cycle, address, value);
        let (_, ok) = settle(result, (), self.memory_ok);
        self.memory_ok = ok;
        assert(old(self).capability().writes_u16(cycle, address, value, &self.capability(), result));
    }

    /// Closes a cycle: reports the program counter read after it together
    /// with the record of its memory accesses, and clears the record for the
    /// next cycle. The capability is not touched.
    pub fn report(&mut self, pc: u32) -> (r: CycleReport)
        ensures
            r == (CycleReport { pc, memory_ok: old(self).memory_ok() }),
            final(self).memory_ok(),
            final(self).capability() == old(self).capability(),
    {
        let memory_ok = self.memory_ok;
        self.memory_ok = true;
        CycleReport { pc, memory_ok }
    }

    /// The capability, for inspection.
    pub fn get(&self) -> (r: &M)
        ensures
            *r == self.capability(),
    {
        &self.capability
    }
}

} // verus!
