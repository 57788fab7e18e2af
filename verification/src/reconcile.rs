//! The course of a reconciliation: which operation is due, and how the whole
//! ends.
//!
//! The operations are carried out on the file system by whoever drives the
//! reconciliation.  The library hands them out one at a time, takes note of
//! how each went, and gives the whole up at the first that fails.
use crate::error::Error;
use crate::plan::{plan_view, Operation, OperationView};
use vstd::prelude::*;

verus! {

/// What a reconciliation stands for: its operations, how many of them were
/// carried out, and whether the one after those failed.
pub struct ReconciliationView {
    pub plan: Seq<OperationView>,
    pub done: nat,
    pub failed: bool,
}

impl ReconciliationView {
    /// Not more operations were carried out than there are.
    pub open spec fn wf(self) -> bool {
        self.done <= self.plan.len()
    }

    /// The operation that is due: the one after those that were carried out,
    /// unless one failed or none is left.
    pub open spec fn pending(self) -> Option<OperationView> {
        if !self.failed && self.done < self.plan.len() {
            Some(self.plan[self.done as int])
        } else {
            None
        }
    }

    /// The reconciliation once the operation that was due went as
    /// `succeeded` says: one more is carried out, or the whole has failed.
    /// Where no operation was due, nothing changes.
    pub open spec fn record(self, succeeded: bool) -> ReconciliationView {
        if self.pending() is None {
            self
        } else if succeeded {
            ReconciliationView { done: self.done + 1, ..self }
        } else {
            ReconciliationView { failed: true, ..self }
        }
    }
}

/// A reconciliation under way.
#[derive(Debug)]
pub struct Reconciliation {
    plan: Vec<Operation>,
    done: usize,
    failed: bool,
}

impl View for Reconciliation {
    type V = ReconciliationView;

    closed spec fn view(&self) -> ReconciliationView {
        ReconciliationView {
            plan: plan_view(self.plan@),
            done: self.done as nat,
            failed: self.failed,
        }
    }
}

impl Reconciliation {
    /// Not more operations were carried out than there are.
    #[verifier::type_invariant]
    closed spec fn inv(&self) -> bool {
        self.done <= self.plan.len()
    }

    /// The reconciliation that carries out `plan`, with nothing done yet.
    pub fn new(plan: Vec<Operation>) -> (run: Reconciliation)
        ensures
            run@ == (ReconciliationView { plan: plan_view(plan@), done: 0, failed: false }),
            run@.wf(),
    {
        Reconciliation { plan, done: 0, failed: false }
    }

    /// The operation to carry out next; none once all were carried out or one
    /// has failed.
    pub fn pending(&self) -> (operation: Option<&Operation>)
        ensures
            match operation {
                Some(operation) => self@.pending() == Some(operation@),
                None => self@.pending() is None,
            },
    {
        proof {
            use_type_invariant(self);
        }
        if !self.failed && self.done < self.plan.len() {
            Some(&self.plan[self.done])
        } else {
            None
        }
    }

    /// Takes note of how the pending operation went.  After a failure no
    /// further operation is handed out; what was carried out before stays as
    /// it is.
    pub fn record(&mut self, succeeded: bool)
        ensures
            final(self)@ == old(self)@.record(succeeded),
            final(self)@.wf(),
    {
        proof {
            use_type_invariant(&*self);
        }
        if !self.failed && self.done < self.plan.len() {
            if succeeded {
                self.done = self.done + 1;
            } else {
                self.failed = true;
            }
        }
    }

    /// How the reconciliation stands: `CopyError` once an operation has
    /// failed.
    pub fn outcome(&self) -> (outcome: Result<(), Error>)
        ensures
            outcome == if self@.failed {
                Err::<(), Error>(Error::CopyError)
            } else {
                Ok::<(), Error>(())
            },
    {
        if self.failed {
            Err(Error::CopyError)
        } else {
            Ok(())
        }
    }
}

} // verus!
