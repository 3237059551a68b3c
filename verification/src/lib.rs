//! Hazard-pointer safe memory reclamation, modelled for a single owner.
//!
//! A [`HazPtrDomain`] keeps a list of hazard slots and a list of retired
//! objects. A reader rents one slot through a [`HazPtrHolder`] and publishes
//! the address it is about to read; a writer swaps a new object into an
//! [`AtomicBox`] or a [`BareAtomic`] and retires the old one. A reclamation
//! scan hands a retired object to its deleter only when no slot holds its
//! address.
//!
//! Objects live in a [`Heap`], an arena that stands for the allocator: an
//! address is an index into it and `0` is the null pointer. Every operation
//! takes the state it works on by reference, so there is one owner at a time
//! and no memory ordering to choose; the contracts describe each step of the
//! protocol exactly. What holds of every state and every sequence of
//! operations is proved in [`laws`], over the model in [`history`].

pub mod deleters;
pub mod domain;
pub mod heap;
pub mod history;
pub mod holder;
pub mod laws;
pub mod object;

pub use deleters::{Allocation, Deleter};
pub use domain::{DomainFamily, DomainId, DomainState, HazPtr, HazPtrDomain, Retired};
pub use heap::{Block, Heap};
pub use history::Step;
pub use holder::HazPtrHolder;
pub use object::{
    AtomicBox, BareAtomic, HazPtrObject, HazPtrObjectRef, HazPtrObjectRefExt,
    HazPtrObjectWrapper,
};
