//! What holds of every domain, every heap and every history.

use crate::deleters::Deleter;
use crate::domain::{
    freeable, hazardous, release_all, DomainFamily, DomainId, DomainState, HazPtr, Retired,
};
use crate::heap::Block;
use crate::history::{leaves_alone, retired_during, Step};
use vstd::prelude::*;

verus! {

/// A scan splits the records: each is either kept or handed to its deleter.
pub proof fn lemma_scan_splits(slots: Seq<HazPtr>, records: Seq<Retired>)
    ensures
        records.filter(hazardous(slots)).len() + records.filter(freeable(slots)).len()
            == records.len(),
    decreases records.len(),
{
    reveal(Seq::filter);
    if records.len() > 0 {
        lemma_scan_splits(slots, records.drop_last());
    }
}

/// Every record that a scan hands to a deleter is on the retire list, and no
/// slot holds its address.
pub proof fn lemma_freed_is_retired_and_unguarded(state: DomainState, k: int)
    requires
        0 <= k < state.reclaimable().len(),
    ensures
        state.retired.contains(state.reclaimable()[k]),
        !state.guards(state.reclaimable()[k].ptr),
{
    let record = state.reclaimable()[k];
    state.retired.lemma_filter_pred(freeable(state.slots), k);
    assert(state.reclaimable().contains(record));
    state.retired.lemma_filter_contains_rev(freeable(state.slots), record);
}

/// Deleters only take objects away: what is live afterwards was live before,
/// unchanged.
pub proof fn lemma_release_all_shrinks<T>(heap: Map<usize, Block<T>>, records: Seq<Retired>, ptr: usize)
    requires
        release_all(heap, records).contains_key(ptr),
    ensures
        heap.contains_key(ptr),
        release_all(heap, records)[ptr] == heap[ptr],
    decreases records.len(),
{
    if records.len() > 0 {
        lemma_release_all_shrinks(heap, records.drop_last(), ptr);
    }
}

/// An object whose address is on none of the records is left as it is.
pub proof fn lemma_release_all_keeps<T>(heap: Map<usize, Block<T>>, records: Seq<Retired>, ptr: usize)
    requires
        forall|k: int| 0 <= k < records.len() ==> (#[trigger] records[k]).ptr != ptr,
    ensures
        release_all(heap, records).contains_key(ptr) == heap.contains_key(ptr),
        heap.contains_key(ptr) ==> release_all(heap, records)[ptr] == heap[ptr],
    decreases records.len(),
{
    if records.len() > 0 {
        let rest = records.drop_last();
        assert forall|k: int| 0 <= k < rest.len() implies (#[trigger] rest[k]).ptr != ptr by {
            assert(rest[k] == records[k]);
        }
        lemma_release_all_keeps(heap, rest, ptr);
        assert(records.last() == records[records.len() - 1]);
    }
}

/// A live object is gone once a record with its address and the deleter that
/// reverses its allocation scheme went to the deleter.
pub proof fn lemma_release_all_removes<T>(heap: Map<usize, Block<T>>, records: Seq<Retired>, k: int)
    requires
        0 <= k < records.len(),
        heap.contains_key(records[k].ptr),
        records[k].deleter.reverses(heap[records[k].ptr].scheme),
    ensures
        !release_all(heap, records).contains_key(records[k].ptr),
    decreases records.len(),
{
    let ptr = records[k].ptr;
    let rest = records.drop_last();
    if k < rest.len() {
        assert(rest[k] == records[k]);
        lemma_release_all_removes(heap, rest, k);
    } else {
        assert(records.last() == records[k]);
        if release_all(heap, rest).contains_key(ptr) {
            lemma_release_all_shrinks(heap, rest, ptr);
        }
    }
}

/// Domain identities are fresh: a domain made from a family differs in
/// identity from every domain made from that family before, and from the
/// process-wide domain.
pub proof fn law_identities_are_fresh(earlier: nat, later: nat)
    requires
        earlier < later < u64::MAX,
    ensures
        DomainFamily::next_identity(earlier) != DomainFamily::next_identity(later),
        DomainFamily::next_identity(earlier) != DomainId::global_id(),
        DomainFamily::next_identity(later) != DomainId::global_id(),
{
}

/// While a holder owns a slot, no other holder gets it: the slot that an
/// acquisition lands on was free, is owned afterwards, and the next
/// acquisition lands elsewhere. Every other slot stays as it was.
pub proof fn law_slots_are_exclusive(state: DomainState, first: int, second: int)
    requires
        state.is_first_free(first),
        state.acquired(first).is_first_free(second),
    ensures
        !state.owns(first),
        state.acquired(first).owns(first),
        first != second,
        forall|j: int|
            0 <= j < state.slots.len() && j != first ==> state.acquired(first).slots[j]
                == #[trigger] state.slots[j],
{
}

/// Resetting a holder twice is the same as resetting it once.
pub proof fn law_reset_is_idempotent(state: DomainState, slot: int)
    requires
        state.owns(slot),
    ensures
        state.cleared(slot).cleared(slot) == state.cleared(slot),
        state.cleared(slot).owns(slot),
        !state.cleared(slot).guards(0),
{
    assert(state.cleared(slot).cleared(slot).slots =~= state.cleared(slot).slots);
}

/// A scan never hands a protected object to a deleter: while a slot holds
/// an address, every record with that address stays on the retire list, the
/// slot goes on holding it, and the object at that address is left as it is.
pub proof fn law_scan_spares_protected<T>(state: DomainState, heap: Map<usize, Block<T>>, slot: int)
    requires
        0 <= slot < state.slots.len(),
        state.slots[slot].protected != 0,
    ensures
        forall|k: int|
            0 <= k < state.reclaimable().len() ==> (#[trigger] state.reclaimable()[k]).ptr
                != state.slots[slot].protected,
        forall|k: int|
            0 <= k < state.retired.len() && (#[trigger] state.retired[k]).ptr
                == state.slots[slot].protected ==> state.scanned().retired.contains(
                state.retired[k],
            ),
        state.scanned().slots == state.slots,
        release_all(heap, state.reclaimable()).contains_key(state.slots[slot].protected)
            == heap.contains_key(state.slots[slot].protected),
        heap.contains_key(state.slots[slot].protected) ==> release_all(
            heap,
            state.reclaimable(),
        )[state.slots[slot].protected] == heap[state.slots[slot].protected],
{
    let ptr = state.slots[slot].protected;
    assert(state.guards(ptr));
    assert forall|k: int| 0 <= k < state.reclaimable().len() implies (
    #[trigger] state.reclaimable()[k]).ptr != ptr by {
        lemma_freed_is_retired_and_unguarded(state, k);
    }
    assert forall|k: int|
        0 <= k < state.retired.len() && (#[trigger] state.retired[k]).ptr
            == ptr implies state.scanned().retired.contains(state.retired[k]) by {
        assert(hazardous(state.slots)(state.retired[k]));
        state.retired.lemma_filter_contains(hazardous(state.slots), k);
    }
    lemma_release_all_keeps(heap, state.reclaimable(), ptr);
}

/// Where no holder owns a slot, no address is protected, so a scan hands
/// every pending record to its deleter, as the end of the domain does.
pub proof fn law_idle_domain_guards_nothing(state: DomainState)
    requires
        state.wf(),
        state.idle(),
    ensures
        forall|ptr: usize| !state.guards(ptr),
        state.reclaimable() == state.retired,
        state.scanned().retired.len() == 0,
{
    assert forall|ptr: usize| !state.guards(ptr) by {
        if state.guards(ptr) {
            let i = choose|i: int|
                0 <= i < state.slots.len() && (#[trigger] state.slots[i]).protected == ptr;
            assert(!state.slots[i].active);
        }
    }
    lemma_filter_keeps_all(state.retired, freeable(state.slots));
    lemma_scan_splits(state.slots, state.retired);
}

/// A filter whose test every element passes keeps the sequence as it is.
pub proof fn lemma_filter_keeps_all<A>(items: Seq<A>, test: spec_fn(A) -> bool)
    requires
        forall|i: int| 0 <= i < items.len() ==> test(#[trigger] items[i]),
    ensures
        items.filter(test) == items,
    decreases items.len(),
{
    reveal(Seq::filter);
    if items.len() > 0 {
        let rest = items.drop_last();
        assert forall|i: int| 0 <= i < rest.len() implies test(#[trigger] rest[i]) by {
            assert(rest[i] == items[i]);
        }
        lemma_filter_keeps_all(rest, test);
        assert(rest.push(items.last()) =~= items);
    }
}

/// Nothing is lost or made up by a scan: the records that it hands to
/// deleters and the records that it keeps are together the records that
/// were pending.
pub proof fn law_scan_conserves_records(state: DomainState)
    ensures
        state.reclaimable().len() + state.scanned().retired.len() == state.retired.len(),
{
    lemma_scan_splits(state.slots, state.retired);
}

/// A scan with nothing pending hands nothing to a deleter and changes
/// neither the domain nor the heap.
pub proof fn law_empty_scan_is_noop<T>(state: DomainState, heap: Map<usize, Block<T>>)
    requires
        state.retired.len() == 0,
    ensures
        state.reclaimable().len() == 0,
        state.scanned() == state,
        release_all(heap, state.reclaimable()) == heap,
{
    reveal(Seq::filter);
    assert(state.scanned().retired =~= state.retired);
}

/// Retiring an object that no slot holds and scanning hands exactly that one
/// more record to its deleter: the scan frees what it would have freed
/// before, then the new record, and keeps what it would have kept. Where
/// nothing else was reclaimable, the scan frees that record alone, once, and
/// the number of pending records goes down by exactly one.
pub proof fn law_retired_object_is_reclaimed(state: DomainState, record: Retired)
    requires
        !state.guards(record.ptr),
    ensures
        state.retiring(record).reclaimable() == state.reclaimable().push(record),
        state.retiring(record).scanned().retired == state.scanned().retired,
        state.reclaimable().len() == 0 ==> {
            &&& state.retiring(record).reclaimable() == seq![record]
            &&& state.retiring(record).scanned().retired.len() + 1 == state.retiring(
                record,
            ).retired.len()
        },
{
    state.retired.lemma_filter_push(record, hazardous(state.slots));
    state.retired.lemma_filter_push(record, freeable(state.slots));
    assert(freeable(state.slots)(record));
    assert(!hazardous(state.slots)(record));
    lemma_scan_splits(state.slots, state.retired);
    if state.reclaimable().len() == 0 {
        assert(state.reclaimable().push(record) =~= seq![record]);
    }
}

/// Retiring an object that a holder protects and scanning leaves it alive:
/// its record stays pending, last in line, and the heap is untouched at its
/// address.
pub proof fn law_protected_object_outlives_scan<T>(
    state: DomainState,
    heap: Map<usize, Block<T>>,
    slot: int,
    deleter: Deleter,
)
    requires
        0 <= slot < state.slots.len(),
        state.slots[slot].protected != 0,
    ensures
        ({
            let record = Retired { ptr: state.slots[slot].protected, deleter };
            let retired = state.retiring(record);
            &&& retired.reclaimable() == state.reclaimable()
            &&& retired.scanned().retired == state.scanned().retired.push(record)
            &&& release_all(heap, retired.reclaimable()).contains_key(record.ptr)
                == heap.contains_key(record.ptr)
            &&& heap.contains_key(record.ptr) ==> release_all(
                heap,
                retired.reclaimable(),
            )[record.ptr] == heap[record.ptr]
        }),
{
    let record = Retired { ptr: state.slots[slot].protected, deleter };
    assert(state.guards(record.ptr));
    state.retired.lemma_filter_push(record, hazardous(state.slots));
    state.retired.lemma_filter_push(record, freeable(state.slots));
    assert(hazardous(state.slots)(record));
    assert(!freeable(state.slots)(record));
    law_scan_spares_protected(state, heap, slot);
}

/// Once the only holder that protected a retired object is dropped, the
/// next scan hands the object's record to its deleter; if the object is
/// live and the deleter reverses its allocation scheme, it is gone
/// afterwards.
pub proof fn law_dropped_holder_frees<T>(
    state: DomainState,
    heap: Map<usize, Block<T>>,
    slot: int,
    k: int,
)
    requires
        state.owns(slot),
        0 <= k < state.retired.len(),
        forall|j: int|
            0 <= j < state.slots.len() && j != slot ==> (#[trigger] state.slots[j]).protected
                != state.retired[k].ptr,
    ensures
        !state.released(slot).guards(state.retired[k].ptr),
        state.released(slot).reclaimable().contains(state.retired[k]),
        !state.released(slot).scanned().retired.contains(state.retired[k]),
        heap.contains_key(state.retired[k].ptr) && state.retired[k].deleter.reverses(
            heap[state.retired[k].ptr].scheme,
        ) ==> !release_all(heap, state.released(slot).reclaimable()).contains_key(
            state.retired[k].ptr,
        ),
{
    let after = state.released(slot);
    let record = state.retired[k];
    assert(!after.guards(record.ptr)) by {
        if after.guards(record.ptr) {
            let j = choose|j: int|
                0 <= j < after.slots.len() && (#[trigger] after.slots[j]).protected == record.ptr;
            if j != slot {
                assert(state.slots[j].protected == record.ptr);
            }
        }
    }
    assert(freeable(after.slots)(record));
    after.retired.lemma_filter_contains(freeable(after.slots), k);
    assert(after.reclaimable().contains(record));
    if after.scanned().retired.contains(record) {
        let i = choose|i: int| 0 <= i < after.survivors().len() && after.survivors()[i] == record;
        after.retired.lemma_filter_pred(hazardous(after.slots), i);
    }
    if heap.contains_key(record.ptr) && record.deleter.reverses(heap[record.ptr].scheme) {
        let i = choose|i: int|
            0 <= i < after.reclaimable().len() && after.reclaimable()[i] == record;
        lemma_release_all_removes(heap, after.reclaimable(), i);
    }
}

/// One operation keeps a domain sound: a slot that no holder owns still
/// protects nothing, the identity is the same, and the slot list has not
/// shrunk.
pub proof fn lemma_step_keeps_sound(state: DomainState, step: Step)
    requires
        state.wf(),
        state.admits(step),
    ensures
        state.step(step).wf(),
        state.step(step).id == state.id,
        state.step(step).slots.len() >= state.slots.len(),
{
}

/// One operation that is not an action of the holder of `slot` leaves that
/// slot as it is and hands no record with the slot's address to a deleter.
pub proof fn lemma_step_spares(state: DomainState, step: Step, slot: int)
    requires
        state.owns(slot),
        state.slots[slot].protected != 0,
        state.admits(step),
        !step.touches(slot),
    ensures
        state.step(step).owns(slot),
        state.step(step).slots[slot] == state.slots[slot],
        forall|k: int|
            0 <= k < state.freed_by(step).len() ==> (#[trigger] state.freed_by(step)[k]).ptr
                != state.slots[slot].protected,
{
    let ptr = state.slots[slot].protected;
    assert forall|k: int| 0 <= k < state.freed_by(step).len() implies (
    #[trigger] state.freed_by(step)[k]).ptr != ptr by {
        match step {
            Step::Retire { record } => {
                let pushed = state.retiring(record);
                assert(pushed.guards(ptr)) by {
                    assert(pushed.slots[slot].protected == ptr);
                }
                lemma_freed_is_retired_and_unguarded(pushed, k);
            },
            Step::Scan => {
                assert(state.guards(ptr));
                lemma_freed_is_retired_and_unguarded(state, k);
            },
            _ => {},
        }
    }
}

/// One operation conserves the records: what it hands to deleters and what
/// is pending afterwards are together what was pending before and what it
/// retired. Every record that it hands to a deleter was pending before or
/// is the one it retired.
pub proof fn lemma_step_conserves(state: DomainState, step: Step)
    ensures
        state.freed_by(step).len() + state.step(step).retired.len() == state.retired.len()
            + retired_during(seq![step]).len(),
        forall|k: int|
            0 <= k < state.freed_by(step).len() ==> state.retired.contains(
                #[trigger] state.freed_by(step)[k],
            ) || retired_during(seq![step]).contains(state.freed_by(step)[k]),
{
    let one = seq![step];
    assert(one.last() == step);
    assert(one.drop_last() =~= Seq::<Step>::empty());
    assert(retired_during(one.drop_last()) =~= Seq::<Retired>::empty());
    match step {
        Step::Retire { record } => {
            let pushed = state.retiring(record);
            assert(retired_during(one) =~= seq![record]);
            assert(retired_during(one)[0] == record);
            lemma_scan_splits(pushed.slots, pushed.retired);
            assert forall|k: int| 0 <= k < state.freed_by(step).len() implies state.retired.contains(
                #[trigger] state.freed_by(step)[k],
            ) || retired_during(one).contains(state.freed_by(step)[k]) by {
                let freed = state.freed_by(step)[k];
                lemma_freed_is_retired_and_unguarded(pushed, k);
                let i = choose|i: int| 0 <= i < pushed.retired.len() && pushed.retired[i] == freed;
                if i < state.retired.len() {
                    assert(state.retired[i] == freed);
                } else {
                    assert(freed == record);
                }
            }
        },
        Step::Scan => {
            lemma_scan_splits(state.slots, state.retired);
            assert forall|k: int| 0 <= k < state.freed_by(step).len() implies state.retired.contains(
                #[trigger] state.freed_by(step)[k],
            ) by {
                lemma_freed_is_retired_and_unguarded(state, k);
            }
        },
        _ => {},
    }
}

/// Every history keeps a domain sound: a slot that no holder owns protects
/// nothing, the identity never changes, and the slot list only grows.
pub proof fn law_history_keeps_domain_sound(state: DomainState, steps: Seq<Step>)
    requires
        state.wf(),
        state.admits_all(steps),
    ensures
        state.run(steps).wf(),
        state.run(steps).id == state.id,
        state.run(steps).slots.len() >= state.slots.len(),
    decreases steps.len(),
{
    if steps.len() > 0 {
        law_history_keeps_domain_sound(state, steps.drop_last());
        lemma_step_keeps_sound(state.run(steps.drop_last()), steps.last());
    }
}

/// Over every history, the records handed to deleters and the records
/// still pending are together the records that were pending at the start
/// and the records retired since. From an empty retire list, and with the
/// pending records freed at the domain's end, as many records go to their
/// deleters as were retired.
pub proof fn law_retires_are_conserved(state: DomainState, steps: Seq<Step>)
    ensures
        state.freed_during(steps).len() + state.run(steps).retired.len() == state.retired.len()
            + retired_during(steps).len(),
        state.retired.len() == 0 ==> state.freed_during(steps).len() + state.run(
            steps,
        ).retired.len() == retired_during(steps).len(),
    decreases steps.len(),
{
    if steps.len() > 0 {
        let before = state.run(steps.drop_last());
        law_retires_are_conserved(state, steps.drop_last());
        lemma_step_conserves(before, steps.last());
        let one = seq![steps.last()];
        assert(one.last() == steps.last());
        assert(one.drop_last() =~= Seq::<Step>::empty());
        assert(retired_during(one.drop_last()) =~= Seq::<Retired>::empty());
    }
}

/// A deleter runs only after the retirement: every record that a history
/// hands to a deleter was pending at the start or was retired by a step of
/// the history.
pub proof fn law_deleter_follows_retire(state: DomainState, steps: Seq<Step>, k: int)
    requires
        0 <= k < state.freed_during(steps).len(),
    ensures
        state.retired.contains(state.freed_during(steps)[k]) || retired_during(steps).contains(
            state.freed_during(steps)[k],
        ),
    decreases steps.len(),
{
    if steps.len() > 0 {
        let rest = steps.drop_last();
        let before = state.run(rest);
        let freed = state.freed_during(steps)[k];
        if k < state.freed_during(rest).len() {
            law_deleter_follows_retire(state, rest, k);
            if retired_during(rest).contains(freed) {
                lemma_retired_during_grows(steps, freed);
            }
        } else {
            let i = k - state.freed_during(rest).len();
            assert(before.freed_by(steps.last())[i] == freed);
            lemma_step_conserves(before, steps.last());
            let one = seq![steps.last()];
            assert(one.last() == steps.last());
            assert(one.drop_last() =~= Seq::<Step>::empty());
            assert(retired_during(one.drop_last()) =~= Seq::<Retired>::empty());
            if retired_during(one).contains(freed) {
                assert(steps.last() == (Step::Retire { record: freed }));
                assert(retired_during(steps).last() == freed);
            } else {
                lemma_history_records_come_from(state, rest, freed);
                if retired_during(rest).contains(freed) {
                    lemma_retired_during_grows(steps, freed);
                }
            }
        }
    }
}

/// What was retired by all but the last step was retired by the whole history.
pub proof fn lemma_retired_during_grows(steps: Seq<Step>, record: Retired)
    requires
        steps.len() > 0,
        retired_during(steps.drop_last()).contains(record),
    ensures
        retired_during(steps).contains(record),
{
    let rest = retired_during(steps.drop_last());
    let i = choose|i: int| 0 <= i < rest.len() && rest[i] == record;
    match steps.last() {
        Step::Retire { record: last } => {
            assert(rest.push(last)[i] == record);
        },
        _ => {},
    }
}

/// Every record pending after a history was pending at the start or was
/// retired by a step of the history.
pub proof fn lemma_history_records_come_from(state: DomainState, steps: Seq<Step>, record: Retired)
    requires
        state.run(steps).retired.contains(record),
    ensures
        state.retired.contains(record) || retired_during(steps).contains(record),
    decreases steps.len(),
{
    if steps.len() > 0 {
        let rest = steps.drop_last();
        let before = state.run(rest);
        let after = state.run(steps);
        let from_before = match steps.last() {
            Step::Retire { record: last } => {
                let pushed = before.retiring(last);
                if pushed.due() {
                    pushed.retired.lemma_filter_contains_rev(hazardous(pushed.slots), record);
                }
                let i = choose|i: int| 0 <= i < pushed.retired.len() && pushed.retired[i] == record;
                if i < before.retired.len() {
                    assert(before.retired[i] == record);
                    true
                } else {
                    assert(retired_during(steps).last() == record);
                    false
                }
            },
            Step::Scan => {
                before.retired.lemma_filter_contains_rev(hazardous(before.slots), record);
                true
            },
            _ => true,
        };
        if from_before {
            lemma_history_records_come_from(state, rest, record);
            if retired_during(rest).contains(record) {
                lemma_retired_during_grows(steps, record);
            }
        }
    }
}

/// A protected object stays valid until its holder is reset or dropped:
/// over every history in which the holder of `slot` takes no action, the
/// slot goes on holding the address it protects, no record with that
/// address goes to a deleter, and a heap on which those deleters ran is
/// left as it was at that address.
pub proof fn law_borrow_stays_valid<T>(
    state: DomainState,
    heap: Map<usize, Block<T>>,
    steps: Seq<Step>,
    slot: int,
)
    requires
        state.owns(slot),
        state.slots[slot].protected != 0,
        state.admits_all(steps),
        leaves_alone(steps, slot),
    ensures
        state.run(steps).owns(slot),
        state.run(steps).slots[slot] == state.slots[slot],
        forall|k: int|
            0 <= k < state.freed_during(steps).len() ==> (#[trigger] state.freed_during(
                steps,
            )[k]).ptr != state.slots[slot].protected,
        release_all(heap, state.freed_during(steps)).contains_key(state.slots[slot].protected)
            == heap.contains_key(state.slots[slot].protected),
        heap.contains_key(state.slots[slot].protected) ==> release_all(
            heap,
            state.freed_during(steps),
        )[state.slots[slot].protected] == heap[state.slots[slot].protected],
    decreases steps.len(),
{
    let ptr = state.slots[slot].protected;
    if steps.len() > 0 {
        let rest = steps.drop_last();
        let before = state.run(rest);
        assert(leaves_alone(rest, slot)) by {
            assert forall|k: int| 0 <= k < rest.len() implies !(#[trigger] rest[k]).touches(
                slot,
            ) by {
                assert(rest[k] == steps[k]);
            }
        }
        law_borrow_stays_valid(state, heap, rest, slot);
        assert(!steps.last().touches(slot)) by {
            assert(steps.last() == steps[steps.len() - 1]);
        }
        lemma_step_spares(before, steps.last(), slot);
    }
    lemma_release_all_keeps(heap, state.freed_during(steps), ptr);
}

} // verus!
