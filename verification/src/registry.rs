//! The table of live memory bridges.
//!
//! The engine is handed a small number in place of an address: the handle
//! under which the bridge of its core was registered. Each access of the
//! engine is resolved by a lookup that borrows the bridge and leaves it in
//! the table. A handle is issued once; releasing it empties its place for
//! good.

use crate::bridge::MemoryBridge;
use crate::harness::CycleReport;
use crate::memory::MemoryInterface;
use vstd::prelude::*;

verus! {

/// The context that stands for a handle on the engine's side: the handle's
/// successor, so that no context is zero. The largest number has none.
pub open spec fn spec_context_of(handle: usize) -> Option<usize> {
    if handle < usize::MAX {
        Some((handle + 1) as usize)
    } else {
        None
    }
}

/// The handle that a context stands for. Zero stands for none.
pub open spec fn spec_handle_of(context: usize) -> Option<usize> {
    if context != 0 {
        Some((context - 1) as usize)
    } else {
        None
    }
}

/// The context to hand to the engine for a handle.
pub fn context_of(handle: usize) -> (r: Option<usize>)
    ensures
        r == spec_context_of(handle),
        r matches Some(context) ==> context != 0,
{
    if handle < usize::MAX {
        Some(handle + 1)
    } else {
        None
    }
}

/// The handle behind a context that the engine handed back.
pub fn handle_of(context: usize) -> (r: Option<usize>)
    ensures
        r == spec_handle_of(context),
{
    if context != 0 {
        Some(context - 1)
    } else {
        None
    }
}

/// A context leads back to the handle it was made for, and to no other.
pub proof fn lemma_context_round_trip(handle: usize, context: usize)
    ensures
        spec_context_of(handle) == Some(context) <==> spec_handle_of(context) == Some(handle),
{
}

/// The bridges of the live cores, each under the handle it was issued.
pub struct HandleRegistry<M: MemoryInterface> {
    slots: Vec<Option<MemoryBridge<M>>>,
}

impl<M: MemoryInterface> HandleRegistry<M> {
    /// Number of handles issued so far: the handles are the numbers below it.
    pub closed spec fn issued(&self) -> nat {
        self.slots@.len()
    }

    /// The bridge that a handle resolves to, if it is live.
    pub closed spec fn resolve(&self, handle: usize) -> Option<MemoryBridge<M>> {
        if handle < self.slots@.len() {
            self.slots@[handle as int]
        } else {
            None
        }
    }

    /// The handle resolves to a bridge.
    pub open spec fn is_live(&self, handle: usize) -> bool {
        self.resolve(handle) is Some
    }

    /// Every handle but `handle` resolves in `self` as it does in `other`, and
    /// both have issued the same handles.
    pub open spec fn same_but(&self, other: &Self, handle: usize) -> bool {
        &&& self.issued() == other.issued()
        &&& forall|h: usize| h != handle ==> #[trigger] self.resolve(h) == other.resolve(h)
    }

    /// Only issued handles are live: a handle that is still to be issued
    /// resolves to nothing.
    pub proof fn lemma_live_handle_was_issued(&self, handle: usize)
        ensures
            self.is_live(handle) ==> handle < self.issued(),
    {
    }

    /// A registry that has issued no handle.
    pub fn new() -> (r: Self)
        ensures
            r.issued() == 0,
            forall|h: usize| #[trigger] r.resolve(h) is None,
    {
        HandleRegistry { slots: Vec::new() }
    }

    /// Registers a capability behind a fresh bridge and issues its handle:
    /// the next number, which no earlier core was given. The other handles
    /// resolve as before.
    pub fn register(&mut self, capability: M) -> (handle: usize)
        ensures
            handle == old(self).issued(),
            final(self).issued() == old(self).issued() + 1,
            final(self).resolve(handle) is Some,
            final(self).resolve(handle).unwrap().capability() == capability,
            final(self).resolve(handle).unwrap().memory_ok(),
            forall|h: usize| h != handle ==> #[trigger] final(self).resolve(h) == old(self).resolve(h),
    {
        let handle: usize = self.slots.len();
        self.slots.push(Some(MemoryBridge::new(capability)));
        handle
    }

    /// Releases a handle and hands back its bridge; `None` for a handle that
    /// is not live. The handle is dead afterwards, the others resolve as before.
    pub fn release(&mut self, handle: usize) -> (r: Option<MemoryBridge<M>>)
        ensures
            r == old(self).resolve(handle),
            !final(self).is_live(handle),
            final(self).same_but(old(self), handle),
    {
        if handle < self.slots.len() {
            let mut taken: Option<MemoryBridge<M>> = None;
            core::mem::swap(&mut self.slots[handle], &mut taken);
            taken
        } else {
            None
        }
    }

    /// Forwards a byte read of the engine to the bridge behind `handle`.
    /// `None` exactly when the handle is not live; otherwise the bridge stays
    /// in its place and does the forwarding.
    pub fn read_u8(&mut self, handle: usize, cycle: u32, address: u32) -> (r: Option<u8>)
        ensures
            r is Some <==> old(self).is_live(handle),
            final(self).is_live(handle) == old(self).is_live(handle),
            final(self).same_but(old(self), handle),
            r matches Some(value) ==> old(self).resolve(handle).unwrap().forwards_read_u8(
                cycle,
                address,
                &final(self).resolve(handle).unwrap(),
                value,
            ),
    {
        if handle < self.slots.len() {
            match &mut self.slots[handle] {
                Some(bridge) => Some(bridge.read_u8(cycle, address)),
                None => None,
            }
        } else {
            None
        }
    }

    /// Forwards a half-word read of the engine to the bridge behind `handle`.
    /// `None` exactly when the handle is not live; otherwise the bridge stays
    /// in its place and does the forwarding.
    pub fn read_u16(&mut self, handle: usize, cycle: u32, address: u32) -> (r: Option<u16>)
        ensures
            r is Some <==> old(self).is_live(handle),
            final(self).is_live(handle) == old(self).is_live(handle),
            final(self).same_but(old(self), handle),
            r matches Some(value) ==> old(self).resolve(handle).unwrap().forwards_read_u16(
                cycle,
                address,
                &final(self).resolve(handle).unwrap(),
                value,
            ),
    {
        if handle < self.slots.len() {
            match &mut self.slots[handle] {
                Some(bridge) => Some(bridge.read_u16(cycle, address)),
                None => None,
            }
        } else {
            None
        }
    }

    /// Forwards a byte write of the engine to the bridge behind `handle`.
    /// `None` exactly when the handle is not live; otherwise the bridge stays
    /// in its place and does the forwarding.
    pub fn write_u8(&mut self, handle: usize, cycle: u32, address: u32, value: u8) -> (r: Option<()>)
        ensures
            r is Some <==> old(self).is_live(handle),
            final(self).is_live(handle) == old(self).is_live(handle),
            final(self).same_but(old(self), handle),
            r is Some ==> old(self).resolve(handle).unwrap().forwards_write_u8(
                cycle,
                address,
                value,
                &final(self).resolve(handle).unwrap(),
            ),
    {
        if handle < self.slots.len() {
            match &mut self.slots[handle] {
                Some(bridge) => {
                    bridge.write_u8(cycle, address, value);
                    Some(())
                },
                None => None,
            }
        } else {
            None
        }
    }

    /// Forwards a half-word write of the engine to the bridge behind `handle`.
    /// `None` exactly when the handle is not live; otherwise the bridge stays
    /// in its place and does the forwarding.
    pub fn write_u16(&mut self, handle: usize, cycle: u32, address: u32, value: u16) -> (r: Option<()>)
        ensures
            r is Some <==> old(self).is_live(handle),
            final(self).is_live(handle) == old(self).is_live(handle),
            final(self).same_but(old(self), handle),
            r is Some ==> old(self).resolve(handle).unwrap().forwards_write_u16(
                cycle,
                address,
                value,
                &final(self).resolve(handle).unwrap(),
            ),
    {
        if handle < self.slots.len() {
            match &mut self.slots[handle] {
                Some(bridge) => {
                    bridge.write_u16(cycle, address, value);
                    Some(())
                },
                None => None,
            }
        } else {
            None
        }
    }

    /// Closes a cycle of the core behind `handle`: the report of the program
    /// counter read after it and of the memory accesses on record, which are
    /// cleared. `None` exactly when the handle is not live.
    pub fn report(&mut self, handle: usize, pc: u32) -> (r: Option<CycleReport>)
        ensures
            r == (match old(self).resolve(handle) {
                Some(bridge) => Some(CycleReport { pc, memory_ok: bridge.memory_ok() }),
                None => None,
            }),
            final(self).is_live(handle) == old(self).is_live(handle),
            final(self).same_but(old(self), handle),
            final(self).is_live(handle) ==> final(self).resolve(handle).unwrap().memory_ok()
                && final(self).resolve(handle).unwrap().capability() == old(self).resolve(
                handle,
            ).unwrap().capability(),
    {
        if handle < self.slots.len() {
            match &mut self.slots[handle] {
                Some(bridge) => Some(bridge.report(pc)),
                None => None,
            }
        } else {
            None
        }
    }

    /// The bridge behind a live handle, for inspection.
    pub fn get(&self, handle: usize) -> (r: Option<&MemoryBridge<M>>)
        ensures
            r is Some <==> self.is_live(handle),
            r matches Some(bridge) ==> Some(*bridge) == self.resolve(handle),
    {
        if handle < self.slots.len() {
            self.slots[handle].as_ref()
        } else {
            None
        }
    }

    /// Number of handles issued so far.
    pub fn handles_issued(&self) -> (r: usize)
        ensures
            r == self.issued(),
    {
        self.slots.len()
    }
}

} // verus!
