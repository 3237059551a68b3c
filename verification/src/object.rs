//! Objects that a domain protects, and the pointer cells that publish them.

use crate::deleters::Deleter;
use crate::domain::{release_all, DomainId, HazPtrDomain, Retired};
use crate::heap::{Block, Heap};
use std::marker::PhantomData;
use vstd::prelude::*;

verus! {

/// An object that can be published behind a pointer cell and retired to a
/// domain. It reports the domain through which it must be reclaimed.
pub trait HazPtrObject: Sized {
    /// The identity of the domain that reclaims this object.
    spec fn spec_domain(&self) -> DomainId;

    /// The identity of the domain that reclaims this object.
    fn domain(&self) -> (id: DomainId)
        ensures
            id == self.spec_domain(),
    ;

    /// Retires the object at `ptr` to `domain`, to be destroyed by `deleter`
    /// once no hazard slot holds `ptr`. The object must be live and `domain`
    /// must be the one that it reports. The caller must have unlinked the
    /// object from every cell first; readers that protected it earlier may
    /// go on reading it.
    fn retire(ptr: usize, deleter: Deleter, domain: &mut HazPtrDomain, heap: &mut Heap<Self>) -> (freed: usize)
        requires
            old(heap)@.contains_key(ptr),
            old(heap)@[ptr].value.spec_domain() == old(domain)@.id,
        ensures
            ({
                let pushed = old(domain)@.retiring((Retired { ptr, deleter }));
                if pushed.due() {
                    &&& final(domain)@ == pushed.scanned()
                    &&& final(heap)@ == release_all(old(heap)@, pushed.reclaimable())
                    &&& freed == pushed.reclaimable().len()
                } else {
                    &&& final(domain)@ == pushed
                    &&& final(heap)@ == old(heap)@
                    &&& freed == 0
                }
            }),
    {
        domain.retire(ptr, deleter, heap)
    }
}

/// A pointer cell that readers protect and writers swap.
pub trait HazPtrObjectRef<O: HazPtrObject> {
    /// The domain identity recorded in the cell, if it records one.
    spec fn spec_domain_id(&self) -> Option<DomainId>;

    /// The address that the cell holds, `0` for null.
    spec fn spec_ptr(&self) -> usize;

    /// The domain identity recorded in the cell, if it records one.
    fn domain_id(&self) -> (id: Option<DomainId>)
        ensures
            id == self.spec_domain_id(),
    ;

    /// Loads the address that the cell holds.
    fn ptr(&self) -> (ptr: usize)
        ensures
            ptr == self.spec_ptr(),
    ;

    /// Exclusive access to the address that the cell holds. The recorded
    /// domain identity stays as it is.
    fn ptr_mut(&mut self) -> (ptr: &mut usize)
        ensures
            *ptr == old(self).spec_ptr(),
            final(self).spec_ptr() == *final(ptr),
            final(self).spec_domain_id() == old(self).spec_domain_id(),
    ;
}

/// A pointer cell that owns the object it publishes: it can create it,
/// exchange it and retire it with the deleter of its allocation scheme.
pub trait HazPtrObjectRefExt<O: HazPtrObject>: HazPtrObjectRef<O> + Sized {
    /// The deleter for every object that a cell of this type publishes.
    spec fn spec_deleter() -> Deleter;

    /// The deleter for the object that this cell publishes.
    fn deleter(&self) -> (deleter: Deleter)
        ensures
            deleter == Self::spec_deleter(),
    ;

    /// Moves `object` to the heap, under the scheme that the deleter
    /// reverses, and returns a cell that holds its address and records its
    /// domain identity.
    fn create(object: O, heap: &mut Heap<O>) -> (cell: Self)
        ensures
            cell.spec_ptr() == old(heap).next_addr(),
            final(heap).next_addr() == old(heap).next_addr() + 1,
            cell.spec_ptr() != 0,
            !old(heap)@.contains_key(cell.spec_ptr()),
            final(heap)@ == old(heap)@.insert(
                cell.spec_ptr(),
                (Block { scheme: Self::spec_deleter().scheme(), value: object }),
            ),
            cell.spec_domain_id() == Some(object.spec_domain()),
    ;

    /// Exchanges the addresses that the two cells hold. Both cells must
    /// record the same domain identity.
    fn swap(&mut self, other: &mut Self)
        requires
            old(self).spec_domain_id() == old(other).spec_domain_id(),
        ensures
            final(self).spec_ptr() == old(other).spec_ptr(),
            final(other).spec_ptr() == old(self).spec_ptr(),
            final(self).spec_domain_id() == old(self).spec_domain_id(),
            final(other).spec_domain_id() == old(other).spec_domain_id(),
    {
        let mine = self.ptr_mut();
        let theirs = other.ptr_mut();
        let displaced = *mine;
        *mine = *theirs;
        *theirs = displaced;
    }

    /// Publishes `object` in this cell and returns a cell that holds the
    /// displaced address. `object` must belong to the domain that this cell
    /// records.
    fn replace(&mut self, object: O, heap: &mut Heap<O>) -> (displaced: Self)
        requires
            old(self).spec_domain_id() == Some(object.spec_domain()),
        ensures
            displaced.spec_ptr() == old(self).spec_ptr(),
            displaced.spec_domain_id() == old(self).spec_domain_id(),
            final(self).spec_domain_id() == old(self).spec_domain_id(),
            final(self).spec_ptr() == old(heap).next_addr(),
            final(heap).next_addr() == old(heap).next_addr() + 1,
            final(self).spec_ptr() != 0,
            !old(heap)@.contains_key(final(self).spec_ptr()),
            final(heap)@ == old(heap)@.insert(
                final(self).spec_ptr(),
                (Block { scheme: Self::spec_deleter().scheme(), value: object }),
            ),
    {
        let mut other = Self::create(object, heap);
        self.swap(&mut other);
        other
    }

    /// Retires the object that this cell publishes to `domain`, with the
    /// cell's deleter, and consumes the cell. The object must be live and
    /// `domain` must be the one that it reports.
    fn retire(self, domain: &mut HazPtrDomain, heap: &mut Heap<O>) -> (freed: usize)
        requires
            old(heap)@.contains_key(self.spec_ptr()),
            old(heap)@[self.spec_ptr()].value.spec_domain() == old(domain)@.id,
        ensures
            ({
                let pushed = old(domain)@.retiring(
                    (Retired { ptr: self.spec_ptr(), deleter: Self::spec_deleter() }),
                );
                if pushed.due() {
                    &&& final(domain)@ == pushed.scanned()
                    &&& final(heap)@ == release_all(old(heap)@, pushed.reclaimable())
                    &&& freed == pushed.reclaimable().len()
                } else {
                    &&& final(domain)@ == pushed
                    &&& final(heap)@ == old(heap)@
                    &&& freed == 0
                }
            }),
    {
        let deleter = self.deleter();
        let ptr = self.ptr();
        O::retire(ptr, deleter, domain, heap)
    }
}

/// A cell that owns a boxed object and records the object's domain.
pub struct AtomicBox<O> {
    ptr: usize,
    domain_id: DomainId,
    _phantom: PhantomData<O>,
}

impl<O: HazPtrObject> HazPtrObjectRef<O> for AtomicBox<O> {
    closed spec fn spec_domain_id(&self) -> Option<DomainId> {
        Some(self.domain_id)
    }

    closed spec fn spec_ptr(&self) -> usize {
        self.ptr
    }

    fn domain_id(&self) -> (id: Option<DomainId>) {
        Some(self.domain_id)
    }

    fn ptr(&self) -> (ptr: usize) {
        self.ptr
    }

    fn ptr_mut(&mut self) -> (ptr: &mut usize) {
        &mut self.ptr
    }
}

impl<O: HazPtrObject> HazPtrObjectRefExt<O> for AtomicBox<O> {
    open spec fn spec_deleter() -> Deleter {
        Deleter::DropBox
    }

    fn deleter(&self) -> (deleter: Deleter) {
        crate::deleters::drop_box()
    }

    fn create(object: O, heap: &mut Heap<O>) -> (cell: Self) {
        let domain_id = object.domain();
        let ptr = heap.allocate_box(object);
        AtomicBox { ptr, domain_id, _phantom: PhantomData }
    }
}

/// A cell without a recorded domain. It holds an address and nothing else:
/// whoever protects through it must use a holder of the domain that the
/// published object reports, and whoever retires what it published must
/// name the deleter. It serves objects whose allocation scheme changes from
/// one published object to the next.
pub struct BareAtomic {
    ptr: usize,
}

impl BareAtomic {
    /// The address that the cell holds, `0` for null.
    pub closed spec fn addr(&self) -> usize {
        self.ptr
    }

    /// A cell that holds `ptr`.
    pub fn new(ptr: usize) -> (cell: Self)
        ensures
            cell.addr() == ptr,
    {
        BareAtomic { ptr }
    }

    /// Loads the address that the cell holds.
    pub fn load(&self) -> (ptr: usize)
        ensures
            ptr == self.addr(),
    {
        self.ptr
    }

    /// Stores `ptr` in the cell.
    pub fn store(&mut self, ptr: usize)
        ensures
            final(self).addr() == ptr,
    {
        self.ptr = ptr;
    }

    /// Stores `ptr` in the cell and returns the address it held.
    pub fn swap(&mut self, ptr: usize) -> (displaced: usize)
        ensures
            final(self).addr() == ptr,
            displaced == old(self).addr(),
    {
        let displaced = self.ptr;
        self.ptr = ptr;
        displaced
    }

    /// Retires the object at `ptr`, which a bare cell published, to
    /// `domain`, to be destroyed by `deleter`. The object must be live and
    /// `domain` must be the one that it reports.
    pub fn retire<O: HazPtrObject>(
        ptr: usize,
        deleter: Deleter,
        domain: &mut HazPtrDomain,
        heap: &mut Heap<O>,
    ) -> (freed: usize)
        requires
            old(heap)@.contains_key(ptr),
            old(heap)@[ptr].value.spec_domain() == old(domain)@.id,
        ensures
            ({
                let pushed = old(domain)@.retiring((Retired { ptr, deleter }));
                if pushed.due() {
                    &&& final(domain)@ == pushed.scanned()
                    &&& final(heap)@ == release_all(old(heap)@, pushed.reclaimable())
                    &&& freed == pushed.reclaimable().len()
                } else {
                    &&& final(domain)@ == pushed
                    &&& final(heap)@ == old(heap)@
                    &&& freed == 0
                }
            }),
    {
        O::retire(ptr, deleter, domain, heap)
    }
}

impl<O: HazPtrObject> HazPtrObjectRef<O> for BareAtomic {
    open spec fn spec_domain_id(&self) -> Option<DomainId> {
        None
    }

    open spec fn spec_ptr(&self) -> usize {
        self.addr()
    }

    fn domain_id(&self) -> (id: Option<DomainId>) {
        None
    }

    fn ptr(&self) -> (ptr: usize) {
        self.ptr
    }

    fn ptr_mut(&mut self) -> (ptr: &mut usize) {
        &mut self.ptr
    }
}

/// Wraps any value into an object that a domain can protect: the value and
/// the identity of the domain that reclaims it.
pub struct HazPtrObjectWrapper<T> {
    inner: T,
    domain: DomainId,
}

impl<T> HazPtrObjectWrapper<T> {
    /// The wrapped value.
    pub closed spec fn value(&self) -> T {
        self.inner
    }

    /// The identity of the domain that reclaims the object.
    pub closed spec fn domain_id(&self) -> DomainId {
        self.domain
    }

    /// Wraps `t` for the process-wide domain.
    pub fn with_global_domain(t: T) -> (object: Self)
        ensures
            object.value() == t,
            object.domain_id() == DomainId::global_id(),
    {
        HazPtrObjectWrapper { inner: t, domain: DomainId::global() }
    }

    /// Wraps `t` for `domain`.
    pub fn with_domain(domain: &HazPtrDomain, t: T) -> (object: Self)
        ensures
            object.value() == t,
            object.domain_id() == domain@.id,
    {
        HazPtrObjectWrapper { inner: t, domain: domain.id() }
    }

    /// Moves the object to the heap and returns the cell that publishes it.
    pub fn into_ref<R: HazPtrObjectRefExt<Self>>(self, heap: &mut Heap<Self>) -> (cell: R)
        ensures
            cell.spec_ptr() == old(heap).next_addr(),
            final(heap).next_addr() == old(heap).next_addr() + 1,
            cell.spec_ptr() != 0,
            !old(heap)@.contains_key(cell.spec_ptr()),
            final(heap)@ == old(heap)@.insert(
                cell.spec_ptr(),
                (Block { scheme: R::spec_deleter().scheme(), value: self }),
            ),
            cell.spec_domain_id() == Some(self.domain_id()),
    {
        R::create(self, heap)
    }

    /// The wrapped value.
    pub fn get(&self) -> (inner: &T)
        ensures
            *inner == self.value(),
    {
        &self.inner
    }

    /// Exclusive access to the wrapped value. The domain stays as it is.
    pub fn get_mut(&mut self) -> (inner: &mut T)
        ensures
            *inner == old(self).value(),
            final(self).value() == *final(inner),
            final(self).domain_id() == old(self).domain_id(),
    {
        &mut self.inner
    }

    /// Unwraps the value.
    pub fn into_inner(self) -> (inner: T)
        ensures
            inner == self.value(),
    {
        self.inner
    }
}

impl<T> HazPtrObject for HazPtrObjectWrapper<T> {
    open spec fn spec_domain(&self) -> DomainId {
        self.domain_id()
    }

    fn domain(&self) -> (id: DomainId) {
        self.domain
    }
}

impl<T> std::ops::Deref for HazPtrObjectWrapper<T> {
    type Target = T;

    fn deref(&self) -> (inner: &T)
        ensures
            *inner == self.value(),
    {
        &self.inner
    }
}

} // verus!
