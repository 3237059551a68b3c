//! The object arena that stands for the allocator.

use crate::deleters::{Allocation, Deleter};
use vstd::prelude::*;

verus! {

/// One live allocation: the object and the scheme that placed it.
pub struct Block<T> {
    pub scheme: Allocation,
    pub value: T,
}

/// An arena of objects addressed by `usize`. Address `0` is the null pointer
/// and never holds an object. Addresses are handed out in increasing order
/// and each only once: freeing an object leaves its address vacant for good,
/// so a stale address can never name a different object.
pub struct Heap<T> {
    cells: Vec<Option<Block<T>>>,
}

/// What a heap holds after the deleter `deleter` ran on address `ptr`: the
/// object at `ptr` is gone if there was one and the deleter reverses its
/// allocation scheme; otherwise nothing changes.
pub open spec fn released<T>(heap: Map<usize, Block<T>>, ptr: usize, deleter: Deleter) -> Map<
    usize,
    Block<T>,
> {
    if heap.contains_key(ptr) && deleter.reverses(heap[ptr].scheme) {
        heap.remove(ptr)
    } else {
        heap
    }
}

impl<T> View for Heap<T> {
    type V = Map<usize, Block<T>>;

    /// The live allocations, by address.
    closed spec fn view(&self) -> Map<usize, Block<T>> {
        Map::new(
            |a: usize| 0 < a < self.cells@.len() && self.cells@[a as int] is Some,
            |a: usize| self.cells@[a as int].unwrap(),
        )
    }
}

impl<T> Heap<T> {
    /// The address that the next allocation returns.
    pub closed spec fn next_addr(&self) -> nat {
        if self.cells@.len() == 0 {
            1
        } else {
            self.cells@.len()
        }
    }

    /// The null pointer is never a live address.
    pub proof fn lemma_null_is_vacant(&self)
        ensures
            !self@.contains_key(0),
    {
    }

    /// Every live address was handed out already.
    pub proof fn lemma_live_is_below_next(&self, ptr: usize)
        requires
            self@.contains_key(ptr),
        ensures
            0 < ptr < self.next_addr(),
    {
    }

    /// An empty heap.
    pub fn new() -> (heap: Self)
        ensures
            heap@ == Map::<usize, Block<T>>::empty(),
            heap.next_addr() == 1,
    {
        let heap = Heap { cells: Vec::new() };
        assert(heap@ =~= Map::<usize, Block<T>>::empty());
        heap
    }

    /// Places `value` on the heap under `scheme` and returns its address:
    /// the next one in line, which is non-null and was never live before.
    pub fn allocate(&mut self, scheme: Allocation, value: T) -> (ptr: usize)
        ensures
            ptr == old(self).next_addr(),
            final(self).next_addr() == ptr + 1,
            ptr != 0,
            !old(self)@.contains_key(ptr),
            final(self)@ == old(self)@.insert(ptr, (Block { scheme, value })),
    {
        if self.cells.len() == 0 {
            self.cells.push(None);
        }
        let ptr = self.cells.len();
        self.cells.push(Some(Block { scheme, value }));
        assert(self@ =~= old(self)@.insert(ptr, (Block { scheme, value })));
        ptr
    }

    /// Moves `value` into a heap box.
    pub fn allocate_box(&mut self, value: T) -> (ptr: usize)
        ensures
            ptr == old(self).next_addr(),
            final(self).next_addr() == ptr + 1,
            ptr != 0,
            !old(self)@.contains_key(ptr),
            final(self)@ == old(self)@.insert(ptr, (Block { scheme: Allocation::Boxed, value })),
    {
        self.allocate(Allocation::Boxed, value)
    }

    /// Moves `value` into a shared-count allocation.
    pub fn allocate_shared(&mut self, value: T) -> (ptr: usize)
        ensures
            ptr == old(self).next_addr(),
            final(self).next_addr() == ptr + 1,
            ptr != 0,
            !old(self)@.contains_key(ptr),
            final(self)@ == old(self)@.insert(ptr, (Block { scheme: Allocation::Shared, value })),
    {
        self.allocate(Allocation::Shared, value)
    }

    /// Whether `ptr` is the address of a live object.
    pub fn is_live(&self, ptr: usize) -> (live: bool)
        ensures
            live == self@.contains_key(ptr),
    {
        ptr != 0 && ptr < self.cells.len() && self.cells[ptr].is_some()
    }

    /// The object at `ptr`, or `None` if `ptr` is null or not live.
    pub fn get(&self, ptr: usize) -> (object: Option<&T>)
        ensures
            object is Some <==> self@.contains_key(ptr),
            object is Some ==> *object.unwrap() == self@[ptr].value,
    {
        if ptr != 0 && ptr < self.cells.len() {
            match &self.cells[ptr] {
                Some(block) => Some(&block.value),
                None => None,
            }
        } else {
            None
        }
    }

    /// Runs `deleter` on `ptr`: destroys the object there and vacates the
    /// address, provided the address is live and the deleter reverses the
    /// object's allocation scheme. Returns whether an object was destroyed.
    pub fn release(&mut self, ptr: usize, deleter: Deleter) -> (done: bool)
        ensures
            done == (old(self)@.contains_key(ptr) && deleter.reverses(old(self)@[ptr].scheme)),
            final(self)@ == released(old(self)@, ptr, deleter),
            final(self).next_addr() == old(self).next_addr(),
    {
        let matches = ptr != 0 && ptr < self.cells.len() && match &self.cells[ptr] {
            Some(block) => deleter.undoes(block.scheme),
            None => false,
        };
        if matches {
            self.cells.set(ptr, None);
        }
        assert(self@ =~= released(old(self)@, ptr, deleter));
        matches
    }
}

} // verus!
