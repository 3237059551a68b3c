//! The domain: hazard slots, the retire list, and the reclamation scan.

use crate::deleters::Deleter;
use crate::heap::{released, Block, Heap};
use vstd::prelude::*;

verus! {

/// The identity of a domain. Two domains are the same domain exactly when
/// their identities are equal.
#[derive(Clone, Copy, Debug, PartialEq, Eq, Structural)]
pub struct DomainId {
    pub serial: u64,
}

impl DomainId {
    /// The identity of the process-wide domain.
    pub open spec fn global_id() -> DomainId {
        DomainId { serial: 0 }
    }

    /// The identity of the process-wide domain.
    pub fn global() -> (id: DomainId)
        ensures
            id == DomainId::global_id(),
    {
        DomainId { serial: 0 }
    }
}

/// The witness from which new domains draw their identities: a counter of
/// the identities handed out so far.
pub struct DomainFamily {
    issued: u64,
}

impl DomainFamily {
    /// How many identities this family has handed out.
    pub closed spec fn issued(&self) -> nat {
        self.issued as nat
    }

    /// The identity of the domain made when the family had handed out
    /// `issued` identities before.
    pub open spec fn next_identity(issued: nat) -> DomainId {
        DomainId { serial: (issued + 1) as u64 }
    }

    /// A family that has handed out no identity yet.
    pub fn new() -> (family: Self)
        ensures
            family.issued() == 0,
    {
        DomainFamily { issued: 0 }
    }

    /// Whether the family can still hand out an identity.
    pub fn has_room(&self) -> (room: bool)
        ensures
            room == (self.issued() < u64::MAX),
    {
        self.issued < u64::MAX
    }
}

/// One hazard slot: the address that its holder is reading, `0` for none,
/// and whether a holder owns the slot.
#[derive(Clone, Copy, Debug, PartialEq, Eq, Structural)]
pub struct HazPtr {
    pub protected: usize,
    pub active: bool,
}

/// A retired object awaiting reclamation: its address and its deleter.
#[derive(Clone, Copy, Debug, PartialEq, Eq, Structural)]
pub struct Retired {
    pub ptr: usize,
    pub deleter: Deleter,
}

/// What the heap holds after each of `records` was handed to its deleter,
/// first to last.
pub open spec fn release_all<T>(heap: Map<usize, Block<T>>, records: Seq<Retired>) -> Map<
    usize,
    Block<T>,
>
    decreases records.len(),
{
    if records.len() == 0 {
        heap
    } else {
        released(release_all(heap, records.drop_last()), records.last().ptr, records.last().deleter)
    }
}

/// Whether one of the first `n` slots holds the non-null address `ptr`.
pub open spec fn guarded_within(slots: Seq<HazPtr>, n: int, ptr: usize) -> bool {
    ptr != 0 && exists|i: int| 0 <= i < n && i < slots.len() && (#[trigger] slots[i]).protected == ptr
}

/// Whether some slot holds the non-null address `ptr`.
pub open spec fn guarded(slots: Seq<HazPtr>, ptr: usize) -> bool {
    guarded_within(slots, slots.len() as int, ptr)
}

/// The non-null addresses that the slots hold, in slot order.
pub open spec fn protected_in(slots: Seq<HazPtr>) -> Seq<usize>
    decreases slots.len(),
{
    if slots.len() == 0 {
        Seq::empty()
    } else if slots.last().protected != 0 {
        protected_in(slots.drop_last()).push(slots.last().protected)
    } else {
        protected_in(slots.drop_last())
    }
}

/// The test that keeps a retired record on the list: a slot holds its address.
pub open spec fn hazardous(slots: Seq<HazPtr>) -> spec_fn(Retired) -> bool {
    |record: Retired| guarded(slots, record.ptr)
}

/// The test that lets a retired record go: no slot holds its address.
pub open spec fn freeable(slots: Seq<HazPtr>) -> spec_fn(Retired) -> bool {
    |record: Retired| !guarded(slots, record.ptr)
}

/// The mathematical state of a domain.
#[verifier::ext_equal]
pub struct DomainState {
    pub id: DomainId,
    /// The slot list, in the order the slots were appended.
    pub slots: Seq<HazPtr>,
    /// The retire list, oldest first.
    pub retired: Seq<Retired>,
}

impl DomainState {
    /// A slot that no holder owns protects nothing.
    pub open spec fn wf(self) -> bool {
        forall|i: int|
            0 <= i < self.slots.len() && !(#[trigger] self.slots[i]).active
                ==> self.slots[i].protected == 0
    }

    /// Whether some slot holds the non-null address `ptr`.
    pub open spec fn guards(self, ptr: usize) -> bool {
        guarded(self.slots, ptr)
    }

    /// The set of addresses that the slots protect.
    pub open spec fn hazards(self) -> Set<usize> {
        Set::new(|ptr: usize| self.guards(ptr))
    }

    /// The retired records that a scan must keep, in retire order.
    pub open spec fn survivors(self) -> Seq<Retired> {
        self.retired.filter(hazardous(self.slots))
    }

    /// The retired records that a scan hands to their deleters, in retire order.
    pub open spec fn reclaimable(self) -> Seq<Retired> {
        self.retired.filter(freeable(self.slots))
    }

    /// The state after a reclamation scan.
    pub open spec fn scanned(self) -> DomainState {
        DomainState { retired: self.survivors(), ..self }
    }

    /// The number of pending records from which a retirement triggers a scan.
    pub open spec fn threshold(self) -> nat {
        if 2 * self.slots.len() > 1000 {
            2 * self.slots.len()
        } else {
            1000
        }
    }

    /// Whether enough records are pending for a scan.
    pub open spec fn due(self) -> bool {
        self.retired.len() >= self.threshold()
    }

    /// The state after `record` was appended to the retire list.
    pub open spec fn retiring(self, record: Retired) -> DomainState {
        DomainState { retired: self.retired.push(record), ..self }
    }

    /// Whether `slot` is where the next acquisition lands: the lowest slot
    /// that no holder owns, or one past the end when every slot is owned.
    pub open spec fn is_first_free(self, slot: int) -> bool {
        &&& 0 <= slot <= self.slots.len()
        &&& slot < self.slots.len() ==> !self.slots[slot].active
        &&& forall|j: int| 0 <= j < slot ==> (#[trigger] self.slots[j]).active
    }

    /// The state after `slot` was acquired: it is owned and protects nothing.
    /// A `slot` past the end is appended.
    pub open spec fn acquired(self, slot: int) -> DomainState {
        let fresh = HazPtr { protected: 0, active: true };
        if 0 <= slot < self.slots.len() {
            DomainState { slots: self.slots.update(slot, fresh), ..self }
        } else {
            DomainState { slots: self.slots.push(fresh), ..self }
        }
    }

    /// Whether a holder owns `slot`.
    pub open spec fn owns(self, slot: int) -> bool {
        0 <= slot < self.slots.len() && self.slots[slot].active
    }

    /// The state after the owner of `slot` published `ptr` in it.
    pub open spec fn protecting(self, slot: int, ptr: usize) -> DomainState {
        DomainState { slots: self.slots.update(slot, (HazPtr { protected: ptr, active: true })), ..self }
    }

    /// The state after the owner of `slot` cleared it.
    pub open spec fn cleared(self, slot: int) -> DomainState {
        self.protecting(slot, 0)
    }

    /// The state after `slot` went back to the free pool.
    pub open spec fn released(self, slot: int) -> DomainState {
        DomainState { slots: self.slots.update(slot, (HazPtr { protected: 0, active: false })), ..self }
    }

    /// Whether no holder owns a slot.
    pub open spec fn idle(self) -> bool {
        forall|i: int| 0 <= i < self.slots.len() ==> !(#[trigger] self.slots[i]).active
    }
}

/// The coordinator: it hands out hazard slots, accepts retirements and
/// reclaims retired objects that no slot protects.
///
/// A domain serves one heap: the addresses in its slots and on its retire
/// list are addresses of that heap, and every operation that may run a
/// deleter is to be given that heap.
pub struct HazPtrDomain {
    id: DomainId,
    slots: Vec<HazPtr>,
    retired: Vec<Retired>,
}

impl View for HazPtrDomain {
    type V = DomainState;

    closed spec fn view(&self) -> DomainState {
        DomainState { id: self.id, slots: self.slots@, retired: self.retired@ }
    }
}

impl HazPtrDomain {
    /// The process-wide domain in its initial state: no slots, nothing retired.
    pub fn global() -> (domain: Self)
        ensures
            domain@ == (DomainState {
                id: DomainId::global_id(),
                slots: Seq::<HazPtr>::empty(),
                retired: Seq::<Retired>::empty(),
            }),
    {
        HazPtrDomain { id: DomainId::global(), slots: Vec::new(), retired: Vec::new() }
    }

    /// A new domain whose identity differs from the global one and from that
    /// of every domain made from `family` before.
    pub fn new(family: &mut DomainFamily) -> (domain: Self)
        requires
            old(family).issued() < u64::MAX,
        ensures
            final(family).issued() == old(family).issued() + 1,
            domain@ == (DomainState {
                id: DomainFamily::next_identity(old(family).issued()),
                slots: Seq::<HazPtr>::empty(),
                retired: Seq::<Retired>::empty(),
            }),
    {
        family.issued = family.issued + 1;
        HazPtrDomain {
            id: DomainId { serial: family.issued },
            slots: Vec::new(),
            retired: Vec::new(),
        }
    }

    /// The identity of this domain.
    pub fn id(&self) -> (id: DomainId)
        ensures
            id == self@.id,
    {
        self.id
    }

    /// The number of slots in the slot list.
    pub fn slot_count(&self) -> (n: usize)
        ensures
            n == self@.slots.len(),
    {
        self.slots.len()
    }

    /// The number of retired records awaiting reclamation.
    pub fn pending(&self) -> (n: usize)
        ensures
            n == self@.retired.len(),
    {
        self.retired.len()
    }

    /// Whether no holder owns a slot.
    pub fn is_idle(&self) -> (idle: bool)
        ensures
            idle == self@.idle(),
    {
        let mut i: usize = 0;
        while i < self.slots.len()
            invariant
                i <= self.slots.len(),
                forall|j: int| 0 <= j < i ==> !(#[trigger] self.slots@[j]).active,
            decreases self.slots.len() - i,
        {
            if self.slots[i].active {
                assert(self@.slots[i as int].active);
                return false;
            }
            i += 1;
        }
        true
    }

    /// Whether a holder owns `slot`.
    pub fn owns(&self, slot: usize) -> (owned: bool)
        ensures
            owned == self@.owns(slot as int),
    {
        slot < self.slots.len() && self.slots[slot].active
    }

    /// The address that `slot` protects, `0` for none or for a slot that
    /// does not exist.
    pub fn protected_by(&self, slot: usize) -> (ptr: usize)
        ensures
            ptr == if slot < self@.slots.len() {
                self@.slots[slot as int].protected
            } else {
                0
            },
    {
        if slot < self.slots.len() {
            self.slots[slot].protected
        } else {
            0
        }
    }

    /// Rents a slot: the lowest one that no holder owns, or a new one
    /// appended to the list when every slot is owned. The slot comes back
    /// owned and protecting nothing; no other slot changes.
    pub fn acquire(&mut self) -> (slot: usize)
        ensures
            old(self)@.is_first_free(slot as int),
            final(self)@ == old(self)@.acquired(slot as int),
    {
        let fresh = HazPtr { protected: 0, active: true };
        let mut i: usize = 0;
        while i < self.slots.len()
            invariant
                i <= self.slots.len(),
                self@ == old(self)@,
                fresh == (HazPtr { protected: 0, active: true }),
                forall|j: int| 0 <= j < i ==> (#[trigger] self.slots@[j]).active,
            decreases self.slots.len() - i,
        {
            if !self.slots[i].active {
                self.slots.set(i, fresh);
                return i;
            }
            i += 1;
        }
        self.slots.push(fresh);
        i
    }

    /// Returns `slot` to the free pool. The slot stays in the list, cleared.
    pub fn release(&mut self, slot: usize)
        requires
            old(self)@.owns(slot as int),
        ensures
            final(self)@ == old(self)@.released(slot as int),
    {
        self.slots.set(slot, HazPtr { protected: 0, active: false });
    }

    /// Publishes `ptr` in `slot` on behalf of the holder that owns it.
    pub fn protect_slot(&mut self, slot: usize, ptr: usize)
        requires
            old(self)@.owns(slot as int),
        ensures
            final(self)@ == old(self)@.protecting(slot as int, ptr),
    {
        self.slots.set(slot, HazPtr { protected: ptr, active: true });
    }

    /// Clears `slot` on behalf of the holder that owns it.
    pub fn reset_slot(&mut self, slot: usize)
        requires
            old(self)@.owns(slot as int),
        ensures
            final(self)@ == old(self)@.cleared(slot as int),
    {
        self.protect_slot(slot, 0);
    }
}

/// Handing one more record to its deleter acts on the heap that the earlier
/// records left behind.
pub proof fn lemma_release_all_push<T>(heap: Map<usize, Block<T>>, records: Seq<Retired>, record: Retired)
    ensures
        release_all(heap, records.push(record)) == released(
            release_all(heap, records),
            record.ptr,
            record.deleter,
        ),
{
    assert(records.push(record).drop_last() =~= records);
}

/// Whether `ptr` is among `found`.
fn is_listed(found: &Vec<usize>, ptr: usize) -> (yes: bool)
    ensures
        yes == found@.contains(ptr),
{
    let mut i: usize = 0;
    while i < found.len()
        invariant
            i <= found.len(),
            forall|j: int| 0 <= j < i ==> found@[j] != ptr,
        decreases found.len() - i,
    {
        if found[i] == ptr {
            return true;
        }
        i += 1;
    }
    false
}

impl HazPtrDomain {
    /// Walks the slot list and collects the addresses that the slots
    /// protect: every non-null `protected` value, in slot order.
    pub fn hazards(&self) -> (found: Vec<usize>)
        ensures
            found@ == protected_in(self@.slots),
            forall|ptr: usize| found@.contains(ptr) <==> self@.hazards().contains(ptr),
    {
        let mut found: Vec<usize> = Vec::new();
        let mut i: usize = 0;
        while i < self.slots.len()
            invariant
                i <= self.slots.len(),
                found@ == protected_in(self.slots@.take(i as int)),
                forall|ptr: usize| found@.contains(ptr) <==> guarded_within(self.slots@, i as int, ptr),
            decreases self.slots.len() - i,
        {
            let ptr = self.slots[i].protected;
            let ghost prev = found@;
            if ptr != 0 {
                found.push(ptr);
            }
            proof {
                let state = self@;
                assert(state.slots.take(i + 1).drop_last() =~= state.slots.take(i as int));
                assert(state.slots.take(i + 1).last() == state.slots[i as int]);
                assert forall|q: usize| found@.contains(q) <==> guarded_within(state.slots, i + 1, q) by {
                    if found@.contains(q) {
                        let k = choose|k: int| 0 <= k < found@.len() && found@[k] == q;
                        if k < prev.len() {
                            assert(prev[k] == q);
                            assert(prev.contains(q));
                            assert(guarded_within(state.slots, i as int, q));
                        } else {
                            assert(state.slots[i as int].protected == q);
                        }
                        assert(guarded_within(state.slots, i + 1, q));
                    }
                    if guarded_within(state.slots, i + 1, q) {
                        let j = choose|j: int|
                            0 <= j < i + 1 && j < state.slots.len() && (
                            #[trigger] state.slots[j]).protected == q;
                        if j < i {
                            assert(guarded_within(state.slots, i as int, q));
                            assert(prev.contains(q));
                            let k = choose|k: int| 0 <= k < prev.len() && prev[k] == q;
                            assert(found@[k] == q);
                        } else {
                            assert(found@[prev.len() as int] == q);
                        }
                        assert(found@.contains(q));
                    }
                }
            }
            i += 1;
        }
        assert(self.slots@.take(i as int) =~= self.slots@);
        found
    }

    /// The reclamation scan. It detaches the retire list, collects the
    /// addresses that the slots protect, hands every detached record whose
    /// address no slot protects to its deleter, oldest first, and puts the
    /// other records back in their order. Returns how many records went to
    /// their deleters. The slots are left as they were.
    pub fn eager_reclaim<O>(&mut self, heap: &mut Heap<O>) -> (freed: usize)
        ensures
            final(self)@ == old(self)@.scanned(),
            final(heap)@ == release_all(old(heap)@, old(self)@.reclaimable()),
            freed == old(self)@.reclaimable().len(),
            freed + final(self)@.retired.len() == old(self)@.retired.len(),
    {
        let ghost before = self@;
        let ghost heap_before = heap@;
        let mut detached: Vec<Retired> = Vec::new();
        std::mem::swap(&mut self.retired, &mut detached);
        let hazards = self.hazards();
        let mut kept: Vec<Retired> = Vec::new();
        let mut freed: usize = 0;
        let mut i: usize = 0;
        proof {
            reveal(Seq::filter);
            assert forall|ptr: usize| hazards@.contains(ptr) <==> before.guards(ptr) by {
                assert(self@.guards(ptr) == before.guards(ptr));
            }
        }
        while i < detached.len()
            invariant
                i <= detached.len(),
                detached@ == before.retired,
                forall|ptr: usize| hazards@.contains(ptr) <==> before.guards(ptr),
                kept@ == detached@.take(i as int).filter(hazardous(before.slots)),
                freed == detached@.take(i as int).filter(freeable(before.slots)).len(),
                freed + kept@.len() == i,
                heap@ == release_all(
                    heap_before,
                    detached@.take(i as int).filter(freeable(before.slots)),
                ),
            decreases detached.len() - i,
        {
            let record = detached[i];
            let ghost prefix = detached@.take(i as int);
            proof {
                assert(detached@.take(i + 1) =~= prefix.push(record));
                prefix.lemma_filter_push(record, hazardous(before.slots));
                prefix.lemma_filter_push(record, freeable(before.slots));
                assert(hazardous(before.slots)(record) == before.guards(record.ptr));
                assert(freeable(before.slots)(record) == !before.guards(record.ptr));
            }
            if is_listed(&hazards, record.ptr) {
                kept.push(record);
            } else {
                let _ = heap.release(record.ptr, record.deleter);
                proof {
                    lemma_release_all_push(
                        heap_before,
                        prefix.filter(freeable(before.slots)),
                        record,
                    );
                }
                freed += 1;
            }
            i += 1;
        }
        assert(detached@.take(i as int) =~= detached@);
        self.retired = kept;
        freed
    }

    /// Appends the record `(ptr, deleter)` to the retire list. When the
    /// number of pending records has then reached the threshold, the larger
    /// of 1000 and twice the number of slots, a reclamation scan follows.
    /// Returns how many records went to their deleters.
    pub fn retire<O>(&mut self, ptr: usize, deleter: Deleter, heap: &mut Heap<O>) -> (freed: usize)
        ensures
            ({
                let pushed = old(self)@.retiring((Retired { ptr, deleter }));
                if pushed.due() {
                    &&& final(self)@ == pushed.scanned()
                    &&& final(heap)@ == release_all(old(heap)@, pushed.reclaimable())
                    &&& freed == pushed.reclaimable().len()
                } else {
                    &&& final(self)@ == pushed
                    &&& final(heap)@ == old(heap)@
                    &&& freed == 0
                }
            }),
    {
        self.retired.push(Retired { ptr, deleter });
        let pending = self.retired.len();
        if pending >= 1000 && pending / 2 >= self.slots.len() {
            self.eager_reclaim(heap)
        } else {
            0
        }
    }

    /// Ends the domain: every record still on the retire list goes to its
    /// deleter, oldest first, whatever the slots hold. No holder may still
    /// own a slot. Returns how many records went to their deleters.
    pub fn teardown<O>(self, heap: &mut Heap<O>) -> (freed: usize)
        requires
            self@.idle(),
        ensures
            final(heap)@ == release_all(old(heap)@, self@.retired),
            freed == self@.retired.len(),
    {
        let ghost heap_before = heap@;
        let mut i: usize = 0;
        while i < self.retired.len()
            invariant
                i <= self.retired.len(),
                heap@ == release_all(heap_before, self.retired@.take(i as int)),
            decreases self.retired.len() - i,
        {
            let record = self.retired[i];
            let _ = heap.release(record.ptr, record.deleter);
            proof {
                assert(self.retired@.take(i + 1) =~= self.retired@.take(i as int).push(record));
                lemma_release_all_push(heap_before, self.retired@.take(i as int), record);
            }
            i += 1;
        }
        assert(self.retired@.take(i as int) =~= self.retired@);
        i
    }
}

} // verus!
