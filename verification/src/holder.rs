//! The reader's handle: one rented hazard slot and the protection protocol.

use crate::domain::{DomainId, DomainState, HazPtrDomain};
use crate::heap::{Block, Heap};
use crate::object::{HazPtrObject, HazPtrObjectRef};
use vstd::prelude::*;

verus! {

/// A reader's handle on one hazard slot of one domain. The holder owns the
/// slot from [`HazPtrHolder::for_domain`] until [`HazPtrHolder::drop`].
pub struct HazPtrHolder {
    slot: usize,
    domain: DomainId,
}

impl HazPtrHolder {
    /// The index of the slot that the holder rents.
    pub closed spec fn slot(&self) -> int {
        self.slot as int
    }

    /// The identity of the domain that issued the holder.
    pub closed spec fn domain_id(&self) -> DomainId {
        self.domain
    }

    /// Whether `domain` is the one that issued the holder and the holder
    /// still owns its slot there.
    pub open spec fn held_in(&self, domain: DomainState) -> bool {
        domain.id == self.domain_id() && domain.owns(self.slot())
    }

    /// Whether the holder may protect the candidate `ptr` through `src`: a
    /// cell that records a domain must record the holder's; for a cell that
    /// records none, the object that a successful protection would return
    /// must report the holder's domain.
    pub open spec fn domain_agrees<O: HazPtrObject, R: HazPtrObjectRef<O>>(
        &self,
        heap: Map<usize, Block<O>>,
        src: &R,
        ptr: usize,
    ) -> bool {
        match src.spec_domain_id() {
            Some(id) => id == self.domain_id(),
            None => ptr == src.spec_ptr() && heap.contains_key(ptr)
                ==> heap[ptr].value.spec_domain() == self.domain_id(),
        }
    }

    /// A holder on the process-wide domain.
    pub fn global(domain: &mut HazPtrDomain) -> (holder: Self)
        requires
            old(domain)@.id == DomainId::global_id(),
        ensures
            old(domain)@.is_first_free(holder.slot()),
            final(domain)@ == old(domain)@.acquired(holder.slot()),
            holder.domain_id() == DomainId::global_id(),
            holder.held_in(final(domain)@),
    {
        HazPtrHolder::for_domain(domain)
    }

    /// Rents a slot of `domain`: the lowest one that no holder owns, or a
    /// new one when every slot is owned.
    pub fn for_domain(domain: &mut HazPtrDomain) -> (holder: Self)
        ensures
            old(domain)@.is_first_free(holder.slot()),
            final(domain)@ == old(domain)@.acquired(holder.slot()),
            holder.domain_id() == old(domain)@.id,
            holder.held_in(final(domain)@),
    {
        let slot = domain.acquire();
        HazPtrHolder { slot, domain: domain.id() }
    }

    /// The index of the slot that the holder rents.
    pub fn slot_index(&self) -> (slot: usize)
        ensures
            slot == self.slot(),
    {
        self.slot
    }

    /// The address that the holder protects at the moment, `0` for none.
    pub fn protected(&self, domain: &HazPtrDomain) -> (ptr: usize)
        requires
            self.held_in(domain@),
        ensures
            ptr == domain@.slots[self.slot()].protected,
    {
        domain.protected_by(self.slot)
    }

    /// Executable form of [`HazPtrHolder::held_in`].
    pub fn is_held_in(&self, domain: &HazPtrDomain) -> (held: bool)
        ensures
            held == self.held_in(domain@),
    {
        domain.id() == self.domain && domain.owns(self.slot)
    }

    /// Executable form of [`HazPtrHolder::domain_agrees`]: the test to make
    /// before protecting through a cell of unknown origin.
    pub fn same_domain<O: HazPtrObject, R: HazPtrObjectRef<O>>(
        &self,
        heap: &Heap<O>,
        src: &R,
        ptr: usize,
    ) -> (agrees: bool)
        ensures
            agrees == self.domain_agrees(heap@, src, ptr),
    {
        match src.domain_id() {
            Some(id) => id == self.domain,
            None => {
                if ptr == src.ptr() {
                    match heap.get(ptr) {
                        Some(object) => object.domain() == self.domain,
                        None => true,
                    }
                } else {
                    true
                }
            },
        }
    }

    /// One round of the protection protocol for the candidate `ptr`, which
    /// the caller read from `src` earlier. The holder publishes `ptr` in its
    /// slot and reloads the cell. If the cell still holds `ptr`, the object
    /// at `ptr` is protected and comes back: `None` for a null or vacant
    /// address. If the cell holds another address by now, the slot is
    /// cleared and that address comes back as the error.
    pub fn try_protect<'h, O: HazPtrObject, R: HazPtrObjectRef<O>>(
        &mut self,
        ptr: usize,
        domain: &mut HazPtrDomain,
        heap: &'h Heap<O>,
        src: &R,
    ) -> (outcome: Result<Option<&'h O>, usize>)
        requires
            old(self).held_in(old(domain)@),
            old(self).domain_agrees(heap@, src, ptr),
        ensures
            *final(self) == *old(self),
            outcome is Ok <==> ptr == src.spec_ptr(),
            match outcome {
                Ok(object) => {
                    &&& final(domain)@ == old(domain)@.protecting(old(self).slot(), ptr)
                    &&& object is Some <==> heap@.contains_key(ptr)
                    &&& object is Some ==> *object.unwrap() == heap@[ptr].value
                },
                Err(fresh) => {
                    &&& fresh == src.spec_ptr()
                    &&& final(domain)@ == old(domain)@.cleared(old(self).slot())
                },
            },
    {
        domain.protect_slot(self.slot, ptr);
        let reloaded = src.ptr();
        if ptr != reloaded {
            domain.reset_slot(self.slot);
            assert(domain@ =~= old(domain)@.cleared(self.slot()));
            Err(reloaded)
        } else {
            Ok(heap.get(ptr))
        }
    }

    /// Protects the object that `src` publishes: loads the cell and runs the
    /// protection protocol until the cell holds the address that the slot
    /// publishes. Returns the object, `None` for a null or vacant address.
    /// Until the holder is reset or dropped, no scan of the domain hands
    /// that object to a deleter.
    pub fn protect<'h, O: HazPtrObject, R: HazPtrObjectRef<O>>(
        &mut self,
        domain: &mut HazPtrDomain,
        heap: &'h Heap<O>,
        src: &R,
    ) -> (object: Option<&'h O>)
        requires
            old(self).held_in(old(domain)@),
            old(self).domain_agrees(heap@, src, src.spec_ptr()),
        ensures
            *final(self) == *old(self),
            final(domain)@ == old(domain)@.protecting(old(self).slot(), src.spec_ptr()),
            object is Some <==> heap@.contains_key(src.spec_ptr()),
            object is Some ==> *object.unwrap() == heap@[src.spec_ptr()].value,
            src.spec_ptr() == 0 ==> object is None,
    {
        proof {
            heap.lemma_null_is_vacant();
        }
        let ghost start = domain@;
        let ghost slot = self.slot();
        let mut ptr = src.ptr();
        loop
            invariant
                *self == *old(self),
                slot == self.slot(),
                start == old(domain)@,
                self.held_in(domain@),
                start.owns(slot),
                self.domain_agrees(heap@, src, src.spec_ptr()),
                domain@ == start || domain@ == start.cleared(slot),
                !heap@.contains_key(0),
            decreases
                (if ptr == src.spec_ptr() {
                    0int
                } else {
                    1int
                }),
        {
            let ghost before = domain@;
            match self.try_protect(ptr, domain, heap, src) {
                Ok(object) => {
                    assert(before.protecting(slot, ptr) =~= start.protecting(slot, ptr));
                    return object;
                },
                Err(fresh) => {
                    assert(before.cleared(slot) =~= start.cleared(slot));
                    ptr = fresh;
                },
            }
        }
    }

    /// Clears the holder's slot. What the holder protected may be reclaimed
    /// by the next scan.
    pub fn reset(&mut self, domain: &mut HazPtrDomain)
        requires
            old(self).held_in(old(domain)@),
        ensures
            *final(self) == *old(self),
            final(domain)@ == old(domain)@.cleared(old(self).slot()),
    {
        domain.reset_slot(self.slot);
    }

    /// Gives the holder up: clears its slot, then returns the slot to the
    /// domain's free pool.
    pub fn drop(self, domain: &mut HazPtrDomain)
        requires
            self.held_in(old(domain)@),
        ensures
            final(domain)@ == old(domain)@.released(self.slot()),
    {
        domain.reset_slot(self.slot);
        domain.release(self.slot);
        assert(domain@ =~= old(domain)@.released(self.slot()));
    }
}

} // verus!
