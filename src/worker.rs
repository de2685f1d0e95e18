use vstd::prelude::*;

use crate::router::{backoff_of, target_of, FailoverRouter, RouteDecision};

verus! {

/// Where a settlement worker stands in its pipeline.
#[derive(Clone, Copy, Debug, PartialEq, Eq, Structural)]
pub enum Phase {
    /// Inserting the payment's record.
    Persisting,
    /// Submitting the payment to processors until one accepts it.
    Routing,
    /// Recording that `target` settled the payment.
    Reconciling { target: usize },
    /// Finished: the worker's admission slot is to be released.
    Done,
}

/// The outcome of inserting a payment's record.
#[derive(Clone, Copy, Debug, PartialEq, Eq, Structural)]
pub enum InsertOutcome {
    Inserted,
    /// The store's uniqueness constraint refused the record.
    Duplicate,
    /// Any other store failure.
    Failed,
}

/// What the worker asks its runner to do next.
#[derive(Clone, Copy, Debug, PartialEq, Eq, Structural)]
pub enum WorkerAction {
    /// Insert the payment's record.
    Insert,
    /// Submit the payment to the target at this registry position.
    Submit { target: usize },
    /// Wait, then submit the payment to `target`.
    RetryAfter { target: usize, wait_millis: u64 },
    /// Record that `target` settled the payment.
    Update { target: usize },
    /// Stop and release the admission slot.
    Finish,
}

/// The decisions of one payment's settlement: persist once, then route with
/// failover, then reconcile. Store failures are retried without end; a
/// duplicate submission ends the work silently.
#[derive(Clone, Copy, Debug)]
pub struct SettlementWorker {
    pub phase: Phase,
    pub router: FailoverRouter,
}

impl SettlementWorker {
    pub open spec fn wf(&self) -> bool {
        &&& self.router.wf()
        &&& self.phase matches Phase::Reconciling { target } ==> target < self.router.n_targets
    }

    /// A worker for a payment over `n_targets` processors; its first action
    /// is `WorkerAction::Insert`.
    pub fn new(n_targets: usize, min_wait_millis: u64) -> (r: SettlementWorker)
        requires
            n_targets > 0,
        ensures
            r.wf(),
            r.phase == Phase::Persisting,
            r.router.attempts == 0,
            r.router.n_targets == n_targets,
            r.router.min_wait_millis == min_wait_millis,
    {
        SettlementWorker { phase: Phase::Persisting, router: FailoverRouter::new(n_targets, min_wait_millis) }
    }

    /// Takes the outcome of the insert. Inserted: routing starts on the first
    /// target. Duplicate: the payment was already accepted, the worker
    /// finishes. Failed: the same insert is tried again.
    pub fn on_insert(&mut self, outcome: InsertOutcome) -> (r: WorkerAction)
        requires
            old(self).wf(),
            old(self).phase == Phase::Persisting,
        ensures
            final(self).wf(),
            final(self).router == old(self).router,
            outcome == InsertOutcome::Inserted ==> final(self).phase == Phase::Routing && r
                == (WorkerAction::Submit {
                target: target_of(old(self).router.attempts as nat, old(self).router.n_targets as nat) as usize,
            }),
            outcome == InsertOutcome::Duplicate ==> final(self).phase == Phase::Done && r
                == WorkerAction::Finish,
            outcome == InsertOutcome::Failed ==> final(self).phase == Phase::Persisting && r
                == WorkerAction::Insert,
    {
        match outcome {
            InsertOutcome::Inserted => {
                self.phase = Phase::Routing;
                WorkerAction::Submit { target: self.router.current_target() }
            },
            InsertOutcome::Duplicate => {
                self.phase = Phase::Done;
                WorkerAction::Finish
            },
            InsertOutcome::Failed => WorkerAction::Insert,
        }
    }

    /// Takes the outcome of a submission to the current target. Accepted: the
    /// worker goes on to record that target. Refused: it waits and retries on
    /// the next target in round-robin order.
    pub fn on_response(&mut self, accepted: bool) -> (r: WorkerAction)
        requires
            old(self).wf(),
            old(self).phase == Phase::Routing,
            old(self).router.attempts < usize::MAX,
        ensures
            final(self).wf(),
            final(self).router.n_targets == old(self).router.n_targets,
            final(self).router.min_wait_millis == old(self).router.min_wait_millis,
            accepted ==> {
                let t = target_of(old(self).router.attempts as nat, old(self).router.n_targets as nat) as usize;
                &&& final(self).phase == (Phase::Reconciling { target: t })
                &&& r == (WorkerAction::Update { target: t })
                &&& final(self).router.attempts == old(self).router.attempts
            },
            !accepted ==> {
                &&& final(self).phase == Phase::Routing
                &&& final(self).router.attempts == old(self).router.attempts + 1
                &&& r == (WorkerAction::RetryAfter {
                    target: target_of(
                        (old(self).router.attempts + 1) as nat,
                        old(self).router.n_targets as nat,
                    ) as usize,
                    wait_millis: backoff_of(
                        old(self).router.attempts as nat,
                        old(self).router.min_wait_millis as nat,
                    ) as u64,
                })
            },
    {
        match self.router.on_outcome(accepted) {
            RouteDecision::Settled { target } => {
                self.phase = Phase::Reconciling { target };
                WorkerAction::Update { target }
            },
            RouteDecision::Retry { target, wait_millis } => WorkerAction::RetryAfter {
                target,
                wait_millis,
            },
        }
    }

    /// Takes the outcome of recording the settling processor: on success the
    /// worker finishes, on failure the same update is tried again.
    pub fn on_update(&mut self, updated: bool) -> (r: WorkerAction)
        requires
            old(self).wf(),
            old(self).phase matches Phase::Reconciling { .. },
        ensures
            final(self).wf(),
            final(self).router == old(self).router,
            updated ==> final(self).phase == Phase::Done && r == WorkerAction::Finish,
            !updated ==> final(self).phase == old(self).phase && (old(self).phase matches Phase::Reconciling { target } && r == (WorkerAction::Update { target })),
    {
        match self.phase {
            Phase::Reconciling { target } => {
                if updated {
                    self.phase = Phase::Done;
                    WorkerAction::Finish
                } else {
                    WorkerAction::Update { target }
                }
            },
            _ => WorkerAction::Finish,
        }
    }

    /// Whether the worker has finished.
    pub fn is_done(&self) -> (r: bool)
        ensures
            r == (self.phase == Phase::Done),
    {
        match self.phase {
            Phase::Done => true,
            _ => false,
        }
    }
}

} // verus!
