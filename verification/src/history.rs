//! Histories: sequences of operations on a domain, as a mathematical model.
//!
//! Each [`Step`] stands for one operation of the library and moves the
//! [`DomainState`] exactly as that operation's contract says.

use crate::domain::{DomainState, Retired};
use vstd::prelude::*;

verus! {

/// One operation on a domain.
pub enum Step {
    /// A holder is made and rents `slot`.
    Acquire { slot: int },
    /// The holder of `slot` protects `ptr`.
    Protect { slot: int, ptr: usize },
    /// The holder of `slot` is reset.
    Reset { slot: int },
    /// The holder of `slot` is dropped.
    Release { slot: int },
    /// `record` is retired.
    Retire { record: Retired },
    /// An eager reclamation scan.
    Scan,
}

impl Step {
    /// Whether the step is an action of the holder that owns `slot`.
    pub open spec fn touches(self, slot: int) -> bool {
        match self {
            Step::Protect { slot: s, .. } => s == slot,
            Step::Reset { slot: s } => s == slot,
            Step::Release { slot: s } => s == slot,
            _ => false,
        }
    }
}

impl DomainState {
    /// Whether `step` can be taken in this state: a new holder gets the
    /// first free slot, and a holder acts only on a slot that it owns.
    pub open spec fn admits(self, step: Step) -> bool {
        match step {
            Step::Acquire { slot } => self.is_first_free(slot),
            Step::Protect { slot, .. } => self.owns(slot),
            Step::Reset { slot } => self.owns(slot),
            Step::Release { slot } => self.owns(slot),
            Step::Retire { .. } => true,
            Step::Scan => true,
        }
    }

    /// The state after `step`.
    pub open spec fn step(self, step: Step) -> DomainState {
        match step {
            Step::Acquire { slot } => self.acquired(slot),
            Step::Protect { slot, ptr } => self.protecting(slot, ptr),
            Step::Reset { slot } => self.cleared(slot),
            Step::Release { slot } => self.released(slot),
            Step::Retire { record } => if self.retiring(record).due() {
                self.retiring(record).scanned()
            } else {
                self.retiring(record)
            },
            Step::Scan => self.scanned(),
        }
    }

    /// The records that `step` hands to their deleters, in that order.
    pub open spec fn freed_by(self, step: Step) -> Seq<Retired> {
        match step {
            Step::Retire { record } => if self.retiring(record).due() {
                self.retiring(record).reclaimable()
            } else {
                Seq::empty()
            },
            Step::Scan => self.reclaimable(),
            _ => Seq::empty(),
        }
    }

    /// Whether the steps can be taken one after the other from this state.
    pub open spec fn admits_all(self, steps: Seq<Step>) -> bool
        decreases steps.len(),
    {
        if steps.len() == 0 {
            true
        } else {
            self.admits_all(steps.drop_last()) && self.run(steps.drop_last()).admits(steps.last())
        }
    }

    /// The state after the steps were taken one after the other.
    pub open spec fn run(self, steps: Seq<Step>) -> DomainState
        decreases steps.len(),
    {
        if steps.len() == 0 {
            self
        } else {
            self.run(steps.drop_last()).step(steps.last())
        }
    }

    /// The records that the steps hand to their deleters, in that order.
    pub open spec fn freed_during(self, steps: Seq<Step>) -> Seq<Retired>
        decreases steps.len(),
    {
        if steps.len() == 0 {
            Seq::empty()
        } else {
            self.freed_during(steps.drop_last()) + self.run(steps.drop_last()).freed_by(
                steps.last(),
            )
        }
    }
}

/// The records that the steps retire, in that order.
pub open spec fn retired_during(steps: Seq<Step>) -> Seq<Retired>
    decreases steps.len(),
{
    if steps.len() == 0 {
        Seq::empty()
    } else {
        match steps.last() {
            Step::Retire { record } => retired_during(steps.drop_last()).push(record),
            _ => retired_during(steps.drop_last()),
        }
    }
}

/// Whether the holder that owns `slot` takes no action in `steps`.
pub open spec fn leaves_alone(steps: Seq<Step>, slot: int) -> bool {
    forall|k: int| 0 <= k < steps.len() ==> !(#[trigger] steps[k]).touches(slot)
}

} // verus!
