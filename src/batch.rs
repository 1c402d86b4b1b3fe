//! Carrying out a plan of gateway calls one at a time. A failed call is
//! recorded and the batch moves on: the unit of failure is one call.
use vstd::prelude::*;
use crate::engine::{calls, Action, Call};

verus! {

/// The state of a batch: its calls, the index of the next one, and the
/// indices of the calls that failed.
pub struct BatchView {
    pub actions: Seq<Call>,
    pub next: nat,
    pub failed: Seq<nat>,
}

/// A batch at its start.
pub open spec fn fresh(actions: Seq<Call>) -> BatchView {
    BatchView { actions, next: 0, failed: seq![] }
}

/// The batch after the outcome of its next call is known.
pub open spec fn step(b: BatchView, succeeded: bool) -> BatchView {
    BatchView {
        actions: b.actions,
        next: b.next + 1,
        failed: if succeeded {
            b.failed
        } else {
            b.failed.push(b.next)
        },
    }
}

/// The batch after a run of outcomes, in order.
pub open spec fn drive(b: BatchView, outcomes: Seq<bool>) -> BatchView
    decreases outcomes.len(),
{
    if outcomes.len() == 0 {
        b
    } else {
        step(drive(b, outcomes.drop_last()), outcomes.last())
    }
}

/// The indices of the failed outcomes, in order.
pub open spec fn failed_indices(outcomes: Seq<bool>) -> Seq<nat>
    decreases outcomes.len(),
{
    if outcomes.len() == 0 {
        seq![]
    } else {
        let prev = failed_indices(outcomes.drop_last());
        if outcomes.last() {
            prev
        } else {
            prev.push((outcomes.len() - 1) as nat)
        }
    }
}

/// A plan of gateway calls being carried out.
pub struct Batch {
    actions: Vec<Action>,
    next: usize,
    failed: Vec<usize>,
}

impl View for Batch {
    type V = BatchView;

    closed spec fn view(&self) -> BatchView {
        BatchView {
            actions: calls(self.actions@),
            next: self.next as nat,
            failed: self.failed@.map_values(|i: usize| i as nat),
        }
    }
}

impl Batch {
    pub closed spec fn wf(&self) -> bool {
        self.next <= self.actions.len()
    }

    pub fn new(actions: Vec<Action>) -> (r: Batch)
        ensures
            r.wf(),
            r@ == fresh(calls(actions@)),
    {
        let r = Batch { actions, next: 0, failed: Vec::new() };
        assert(r@.failed =~= Seq::<nat>::empty());
        r
    }

    /// The call to make next, if any is left.
    pub fn current(&self) -> (r: Option<&Action>)
        requires
            self.wf(),
        ensures
            r is Some <==> self@.next < self@.actions.len(),
            r is Some ==> r->0@ == self@.actions[self@.next as int],
    {
        if self.next < self.actions.len() {
            Some(&self.actions[self.next])
        } else {
            None
        }
    }

    /// Records the outcome of the current call and moves to the next one,
    /// whatever the outcome.
    pub fn record(&mut self, succeeded: bool)
        requires
            old(self).wf(),
            old(self)@.next < old(self)@.actions.len(),
        ensures
            final(self).wf(),
            final(self)@ == step(old(self)@, succeeded),
    {
        let ghost before = self.failed@;
        if !succeeded {
            self.failed.push(self.next);
            assert(self.failed@.map_values(|i: usize| i as nat) =~= before.map_values(
                |i: usize| i as nat,
            ).push(old(self).next as nat));
        }
        self.next = self.next + 1;
    }

    /// Whether every call has been made.
    pub fn is_done(&self) -> (r: bool)
        requires
            self.wf(),
        ensures
            r == (self@.next == self@.actions.len()),
    {
        self.next == self.actions.len()
    }

    /// The indices of the calls that failed, in order.
    pub fn failures(&self) -> (r: &Vec<usize>)
        ensures
            r@.map_values(|i: usize| i as nat) == self@.failed,
    {
        &self.failed
    }
}

/// Whatever the outcomes of a batch's calls, a failure stops nothing: after
/// `k` outcomes the next call is the `k`-th of the plan, and the failures
/// recorded are exactly the failed outcomes.
pub proof fn lemma_failure_isolation(actions: Seq<Call>, outcomes: Seq<bool>)
    requires
        outcomes.len() <= actions.len(),
    ensures
        drive(fresh(actions), outcomes).actions == actions,
        drive(fresh(actions), outcomes).next == outcomes.len(),
        drive(fresh(actions), outcomes).failed == failed_indices(outcomes),
    decreases outcomes.len(),
{
    if outcomes.len() > 0 {
        lemma_failure_isolation(actions, outcomes.drop_last());
    }
}

} // verus!
