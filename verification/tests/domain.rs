use haphazard::deleters::{drop_box, drop_shared};
use haphazard::{
    Allocation, AtomicBox, BareAtomic, Deleter, DomainFamily, DomainId, HazPtr, HazPtrDomain,
    HazPtrHolder, HazPtrObject, HazPtrObjectRef, HazPtrObjectRefExt, HazPtrObjectWrapper, Heap,
};

type Plain = HazPtrObjectWrapper<u32>;

#[test]
fn new_domains_have_unequal_identities() {
    let mut family = DomainFamily::new();
    assert!(family.has_room());
    let a = HazPtrDomain::new(&mut family);
    let b = HazPtrDomain::new(&mut family);
    let c = HazPtrDomain::new(&mut family);
    assert_ne!(a.id(), b.id());
    assert_ne!(a.id(), c.id());
    assert_ne!(b.id(), c.id());
    assert_eq!(a.id(), DomainId { serial: 1 });
    assert_eq!(b.id(), DomainId { serial: 2 });
    assert_eq!(c.id(), DomainId { serial: 3 });
}

#[test]
fn global_domain_has_the_global_identity() {
    let global = HazPtrDomain::global();
    assert_eq!(global.id(), DomainId::global());
    assert_eq!(global.id(), DomainId { serial: 0 });
    assert_eq!(global.slot_count(), 0);
    assert_eq!(global.pending(), 0);
    let mut family = DomainFamily::new();
    assert_ne!(HazPtrDomain::new(&mut family).id(), global.id());
}

#[test]
fn acquire_reuses_the_lowest_free_slot_and_never_shrinks_the_list() {
    let mut domain = HazPtrDomain::global();
    assert_eq!(domain.acquire(), 0);
    assert_eq!(domain.acquire(), 1);
    assert_eq!(domain.acquire(), 2);
    assert_eq!(domain.slot_count(), 3);

    domain.release(1);
    assert_eq!(domain.slot_count(), 3);
    assert!(!domain.owns(1));
    assert!(domain.owns(0));
    assert!(domain.owns(2));
    assert!(!domain.owns(3));

    domain.release(0);
    assert_eq!(domain.acquire(), 0);
    assert_eq!(domain.acquire(), 1);
    assert_eq!(domain.acquire(), 3);
    assert_eq!(domain.slot_count(), 4);
}

#[test]
fn two_holders_never_share_a_slot() {
    let mut domain = HazPtrDomain::global();
    let a = HazPtrHolder::for_domain(&mut domain);
    let b = HazPtrHolder::for_domain(&mut domain);
    assert_ne!(a.slot_index(), b.slot_index());
    assert!(a.is_held_in(&domain));
    assert!(b.is_held_in(&domain));
    let gone = a.slot_index();
    a.drop(&mut domain);
    assert!(!domain.owns(gone));
    let c = HazPtrHolder::for_domain(&mut domain);
    assert_eq!(c.slot_index(), gone);
    assert_ne!(c.slot_index(), b.slot_index());
}

#[test]
fn holder_is_not_held_in_another_domain() {
    let mut family = DomainFamily::new();
    let mut one = HazPtrDomain::new(&mut family);
    let mut two = HazPtrDomain::new(&mut family);
    let h = HazPtrHolder::for_domain(&mut one);
    let _other = HazPtrHolder::for_domain(&mut two);
    assert!(h.is_held_in(&one));
    assert!(!h.is_held_in(&two));
}

#[test]
fn reset_twice_is_reset_once() {
    let mut domain = HazPtrDomain::global();
    let mut heap: Heap<Plain> = Heap::new();
    let cell: AtomicBox<_> = HazPtrObjectWrapper::with_global_domain(5).into_ref(&mut heap);
    let mut h = HazPtrHolder::global(&mut domain);
    let _ = h.protect(&mut domain, &heap, &cell);
    assert_eq!(h.protected(&domain), cell.ptr());

    h.reset(&mut domain);
    let once = (domain.hazards(), domain.protected_by(h.slot_index()), domain.owns(h.slot_index()));
    h.reset(&mut domain);
    let twice = (domain.hazards(), domain.protected_by(h.slot_index()), domain.owns(h.slot_index()));
    assert_eq!(once, twice);
    assert_eq!(once, (Vec::new(), 0, true));
}

#[test]
fn empty_scan_returns_zero_and_changes_nothing() {
    let mut domain = HazPtrDomain::global();
    let mut heap: Heap<Plain> = Heap::new();
    let cell: AtomicBox<_> = HazPtrObjectWrapper::with_global_domain(5).into_ref(&mut heap);
    assert_eq!(domain.eager_reclaim(&mut heap), 0);
    assert_eq!(domain.pending(), 0);
    assert_eq!(domain.slot_count(), 0);
    assert_eq!(**heap.get(cell.ptr()).expect("still live"), 5);

    let h = HazPtrHolder::global(&mut domain);
    h.drop(&mut domain);
    assert_eq!(domain.eager_reclaim(&mut heap), 0);
    assert_eq!(domain.slot_count(), 1);
    assert!(heap.is_live(cell.ptr()));
}

#[test]
fn protecting_a_null_cell_returns_no_object() {
    let mut family = DomainFamily::new();
    let mut domain = HazPtrDomain::new(&mut family);
    let mut heap: Heap<Plain> = Heap::new();
    let live = heap.allocate_box(HazPtrObjectWrapper::with_domain(&domain, 9));
    let _ = Plain::retire(live, drop_box(), &mut domain, &mut heap);

    let null = BareAtomic::new(0);
    let mut h = HazPtrHolder::for_domain(&mut domain);
    assert!(h.same_domain(&heap, &null, 0));
    assert!(h.protect(&mut domain, &heap, &null).is_none());
    assert_eq!(h.protected(&domain), 0);
    // no deleter ran: the retired object is still pending and live
    assert_eq!(domain.pending(), 1);
    assert!(heap.is_live(live));
    match h.try_protect(0, &mut domain, &heap, &null) {
        Ok(object) => assert!(object.is_none()),
        Err(_) => panic!("the cell holds the candidate"),
    }
}

#[test]
fn retired_object_lives_while_a_holder_protects_it() {
    let mut domain = HazPtrDomain::global();
    let mut heap: Heap<Plain> = Heap::new();
    let cell: AtomicBox<_> = HazPtrObjectWrapper::with_global_domain(77).into_ref(&mut heap);
    let ptr = cell.ptr();
    let mut h = HazPtrHolder::global(&mut domain);
    assert_eq!(**h.protect(&mut domain, &heap, &cell).expect("not null"), 77);
    assert_eq!(domain.hazards(), vec![ptr]);

    assert_eq!(cell.retire(&mut domain, &mut heap), 0);
    assert_eq!(domain.pending(), 1);
    assert_eq!(domain.eager_reclaim(&mut heap), 0);
    assert_eq!(domain.pending(), 1);
    assert_eq!(**heap.get(ptr).expect("still live"), 77);

    h.drop(&mut domain);
    assert_eq!(domain.eager_reclaim(&mut heap), 1);
    assert_eq!(domain.pending(), 0);
    assert!(heap.get(ptr).is_none());
    assert!(!heap.is_live(ptr));
}

#[test]
fn replace_then_retire_then_scan_frees_exactly_one() {
    let mut domain = HazPtrDomain::global();
    let mut heap: Heap<Plain> = Heap::new();
    let mut cell: AtomicBox<_> = HazPtrObjectWrapper::with_global_domain(1).into_ref(&mut heap);
    let first = cell.ptr();
    let old = cell.replace(HazPtrObjectWrapper::with_global_domain(2), &mut heap);
    assert_eq!(old.ptr(), first);
    assert_eq!(old.domain_id(), Some(DomainId::global()));
    assert_eq!(old.deleter(), Deleter::DropBox);
    old.retire(&mut domain, &mut heap);
    let pending = domain.pending();
    assert_eq!(pending, 1);
    assert_eq!(domain.eager_reclaim(&mut heap), 1);
    assert_eq!(domain.pending(), pending - 1);
    assert!(!heap.is_live(first));
    assert_eq!(**heap.get(cell.ptr()).expect("not null"), 2);
}

#[test]
fn scan_keeps_hazardous_records_in_retire_order() {
    let mut domain = HazPtrDomain::global();
    let mut heap: Heap<Plain> = Heap::new();
    let mut ptrs = Vec::new();
    for i in 0..6 {
        ptrs.push(heap.allocate_box(HazPtrObjectWrapper::with_global_domain(i)));
    }
    let mut h1 = HazPtrHolder::global(&mut domain);
    let mut h4 = HazPtrHolder::global(&mut domain);
    let _ = h1.protect(&mut domain, &heap, &BareAtomic::new(ptrs[1]));
    let _ = h4.protect(&mut domain, &heap, &BareAtomic::new(ptrs[4]));
    assert_eq!(domain.hazards(), vec![ptrs[1], ptrs[4]]);
    for p in &ptrs {
        assert_eq!(Plain::retire(*p, drop_box(), &mut domain, &mut heap), 0);
    }
    assert_eq!(domain.eager_reclaim(&mut heap), 4);
    assert_eq!(domain.pending(), 2);
    for (i, p) in ptrs.iter().enumerate() {
        assert_eq!(heap.is_live(*p), i == 1 || i == 4);
    }
    // the slot list is untouched by the scan
    assert_eq!(domain.slot_count(), 2);
    assert_eq!(h1.protected(&domain), ptrs[1]);
    assert_eq!(h4.protected(&domain), ptrs[4]);

    h1.reset(&mut domain);
    assert_eq!(domain.eager_reclaim(&mut heap), 1);
    assert!(!heap.is_live(ptrs[1]));
    assert!(heap.is_live(ptrs[4]));
    h4.drop(&mut domain);
    h1.drop(&mut domain);
    assert_eq!(domain.teardown(&mut heap), 1);
    assert!(!heap.is_live(ptrs[4]));
}

#[test]
fn retire_scans_when_a_thousand_records_are_pending() {
    let mut domain = HazPtrDomain::global();
    let mut heap: Heap<Plain> = Heap::new();
    let keep = heap.allocate_box(HazPtrObjectWrapper::with_global_domain(0));
    let mut h = HazPtrHolder::global(&mut domain);
    let _ = h.protect(&mut domain, &heap, &BareAtomic::new(keep));
    assert_eq!(Plain::retire(keep, drop_box(), &mut domain, &mut heap), 0);
    for i in 1..999 {
        let p = heap.allocate_box(HazPtrObjectWrapper::with_global_domain(i));
        assert_eq!(Plain::retire(p, drop_box(), &mut domain, &mut heap), 0);
    }
    assert_eq!(domain.pending(), 999);
    let last = heap.allocate_box(HazPtrObjectWrapper::with_global_domain(999));
    // the thousandth pending record triggers the scan; one record is hazardous
    assert_eq!(Plain::retire(last, drop_box(), &mut domain, &mut heap), 999);
    assert_eq!(domain.pending(), 1);
    assert!(heap.is_live(keep));
    assert!(!heap.is_live(last));
}

#[test]
fn threshold_is_twice_the_slot_count_above_five_hundred_slots() {
    let mut domain = HazPtrDomain::global();
    let mut heap: Heap<Plain> = Heap::new();
    let mut holders = Vec::new();
    for _ in 0..600 {
        holders.push(HazPtrHolder::global(&mut domain));
    }
    assert_eq!(domain.slot_count(), 600);
    for i in 0..1199 {
        let p = heap.allocate_box(HazPtrObjectWrapper::with_global_domain(i));
        assert_eq!(Plain::retire(p, drop_box(), &mut domain, &mut heap), 0);
    }
    assert_eq!(domain.pending(), 1199);
    let p = heap.allocate_box(HazPtrObjectWrapper::with_global_domain(1199));
    assert_eq!(Plain::retire(p, drop_box(), &mut domain, &mut heap), 1200);
    assert_eq!(domain.pending(), 0);
}

#[test]
fn deleter_must_reverse_the_allocation_scheme() {
    let mut heap: Heap<u8> = Heap::new();
    let boxed = heap.allocate_box(1);
    let shared = heap.allocate_shared(2);
    let other = heap.allocate(Allocation::Shared, 3);
    assert_ne!(boxed, 0);
    assert_ne!(boxed, shared);
    assert_ne!(shared, other);

    assert!(!heap.release(boxed, drop_shared()));
    assert!(!heap.release(shared, drop_box()));
    assert_eq!(heap.get(boxed), Some(&1));
    assert_eq!(heap.get(shared), Some(&2));

    assert!(heap.release(boxed, drop_box()));
    assert!(heap.release(shared, drop_shared()));
    assert_eq!(heap.get(boxed), None);
    assert_eq!(heap.get(shared), None);
    // a second run of the deleter finds nothing
    assert!(!heap.release(boxed, drop_box()));
    assert!(!heap.release(0, drop_box()));
    assert!(!heap.release(1000, drop_box()));
    assert_eq!(heap.get(other), Some(&3));

    assert!(Deleter::DropBox.undoes(Allocation::Boxed));
    assert!(!Deleter::DropBox.undoes(Allocation::Shared));
    assert!(Deleter::DropShared.undoes(Allocation::Shared));
    assert_eq!(Deleter::DropShared.allocation(), Allocation::Shared);
    assert_eq!(drop_box().allocation(), Allocation::Boxed);
}

#[test]
fn heap_never_hands_out_null_or_a_used_address() {
    let mut heap: Heap<u8> = Heap::new();
    assert!(!heap.is_live(0));
    assert_eq!(heap.get(0), None);
    let a = heap.allocate_box(1);
    assert!(heap.release(a, drop_box()));
    let b = heap.allocate_box(2);
    assert_ne!(a, 0);
    assert_ne!(b, 0);
    assert_ne!(a, b);
    assert_eq!(heap.get(a), None);
    assert_eq!(heap.get(b), Some(&2));
}

#[test]
fn swap_exchanges_the_pointers_of_two_cells() {
    let mut heap: Heap<Plain> = Heap::new();
    let mut a: AtomicBox<_> = HazPtrObjectWrapper::with_global_domain(1).into_ref(&mut heap);
    let mut b: AtomicBox<_> = HazPtrObjectWrapper::with_global_domain(2).into_ref(&mut heap);
    let (pa, pb) = (a.ptr(), b.ptr());
    assert_eq!(a.domain_id(), b.domain_id());
    a.swap(&mut b);
    assert_eq!((a.ptr(), b.ptr()), (pb, pa));
    assert_eq!(**heap.get(a.ptr()).expect("not null"), 2);
    *a.ptr_mut() = pa;
    assert_eq!(a.ptr(), pa);
}

#[test]
fn bare_cell_checks_the_domain_that_the_object_reports() {
    let mut family = DomainFamily::new();
    let writer = HazPtrDomain::new(&mut family);
    let mut reader = HazPtrDomain::new(&mut family);
    let mut heap: Heap<Plain> = Heap::new();
    let object = HazPtrObjectWrapper::with_domain(&writer, 3);
    assert_eq!(object.domain(), writer.id());
    assert_eq!(*object.get(), 3);
    let ptr = heap.allocate_box(object);
    let mut cell = BareAtomic::new(0);
    cell.store(ptr);
    assert_eq!(cell.load(), ptr);
    assert_eq!(HazPtrObjectRef::<Plain>::domain_id(&cell), None);

    let h = HazPtrHolder::for_domain(&mut reader);
    assert!(!h.same_domain(&heap, &cell, ptr));
    // a stale candidate is turned away before any object is read
    assert!(h.same_domain(&heap, &cell, ptr + 1));

    let mut writer = writer;
    let hw = HazPtrHolder::for_domain(&mut writer);
    assert!(hw.same_domain(&heap, &cell, ptr));
    assert_eq!(HazPtrObjectWrapper::with_global_domain(4u32).into_inner(), 4);
}

#[test]
fn slot_states_after_protect_reset_and_drop() {
    let mut domain = HazPtrDomain::global();
    let mut heap: Heap<Plain> = Heap::new();
    let ptr = heap.allocate_box(HazPtrObjectWrapper::with_global_domain(1));
    let cell = BareAtomic::new(ptr);
    let mut h = HazPtrHolder::global(&mut domain);
    let slot = h.slot_index();
    let state = |d: &HazPtrDomain| HazPtr { protected: d.protected_by(slot), active: d.owns(slot) };
    assert_eq!(state(&domain), HazPtr { protected: 0, active: true });
    let _ = h.protect(&mut domain, &heap, &cell);
    assert_eq!(state(&domain), HazPtr { protected: ptr, active: true });
    h.reset(&mut domain);
    assert_eq!(state(&domain), HazPtr { protected: 0, active: true });
    let _ = h.protect(&mut domain, &heap, &cell);
    h.drop(&mut domain);
    assert_eq!(state(&domain), HazPtr { protected: 0, active: false });
    assert_eq!(domain.protected_by(99), 0);
}
