use vstd::prelude::*;

verus! {

/// Failover routing of one payment over the registry's targets.
///
/// Attempt `k` (counted from zero) goes to target `k % n_targets`; after a
/// refused attempt the router waits `max(k + 1, min_wait_millis)`
/// milliseconds and moves on to the next target. The attempt counter belongs
/// to one payment's routing and is never shared.
#[derive(Clone, Copy, Debug)]
pub struct FailoverRouter {
    pub attempts: usize,
    pub n_targets: usize,
    pub min_wait_millis: u64,
}

/// What the router asks for after an attempt's outcome is known.
#[derive(Clone, Copy, Debug, PartialEq, Eq, Structural)]
pub enum RouteDecision {
    /// The target accepted the payment: routing ends.
    Settled { target: usize },
    /// Wait `wait_millis`, then submit to `target`.
    Retry { target: usize, wait_millis: u64 },
}

/// The target chosen on attempt `attempt`.
pub open spec fn target_of(attempt: nat, n_targets: nat) -> nat {
    attempt % n_targets
}

/// The wait after the refused attempt `attempt`: it grows with the attempt
/// count and never falls below `min_wait`.
pub open spec fn backoff_of(attempt: nat, min_wait: nat) -> nat {
    if attempt + 1 >= min_wait {
        attempt + 1
    } else {
        min_wait
    }
}

/// The target that settles the payment when the attempts from `attempt` on
/// meet the outcomes `outcomes` (true: accepted), if one of them accepts.
pub open spec fn settled_target(n_targets: nat, attempt: nat, outcomes: Seq<bool>) -> Option<nat>
    decreases outcomes.len(),
{
    if outcomes.len() == 0 {
        None
    } else if outcomes[0] {
        Some(target_of(attempt, n_targets))
    } else {
        settled_target(n_targets, attempt + 1, outcomes.drop_first())
    }
}

/// The targets tried, in order, when the attempts from `attempt` on meet the
/// outcomes `outcomes`; trying stops at the first acceptance.
pub open spec fn targets_tried(n_targets: nat, attempt: nat, outcomes: Seq<bool>) -> Seq<nat>
    decreases outcomes.len(),
{
    if outcomes.len() == 0 {
        Seq::empty()
    } else if outcomes[0] {
        seq![target_of(attempt, n_targets)]
    } else {
        seq![target_of(attempt, n_targets)] + targets_tried(
            n_targets,
            attempt + 1,
            outcomes.drop_first(),
        )
    }
}

impl FailoverRouter {
    pub open spec fn wf(&self) -> bool {
        self.n_targets > 0
    }

    /// A router for one payment, before its first attempt.
    pub fn new(n_targets: usize, min_wait_millis: u64) -> (r: FailoverRouter)
        requires
            n_targets > 0,
        ensures
            r.wf(),
            r.attempts == 0,
            r.n_targets == n_targets,
            r.min_wait_millis == min_wait_millis,
    {
        FailoverRouter { attempts: 0, n_targets, min_wait_millis }
    }

    /// The target of the current attempt.
    pub fn current_target(&self) -> (r: usize)
        requires
            self.wf(),
        ensures
            r == target_of(self.attempts as nat, self.n_targets as nat),
            r < self.n_targets,
    {
        self.attempts % self.n_targets
    }

    /// The wait after the refused attempt `attempt`.
    pub fn backoff_millis(attempt: usize, min_wait_millis: u64) -> (r: u64)
        requires
            attempt < usize::MAX,
        ensures
            r == backoff_of(attempt as nat, min_wait_millis as nat),
    {
        let grown: u64 = (attempt + 1) as u64;
        if grown >= min_wait_millis {
            grown
        } else {
            min_wait_millis
        }
    }

    /// Takes the outcome of the current attempt. An acceptance ends routing
    /// with the current target; a refusal (a non-2xx status or a transport
    /// failure) counts the attempt and asks to wait and retry on the next
    /// target.
    pub fn on_outcome(&mut self, accepted: bool) -> (r: RouteDecision)
        requires
            old(self).wf(),
            old(self).attempts < usize::MAX,
        ensures
            final(self).wf(),
            final(self).n_targets == old(self).n_targets,
            final(self).min_wait_millis == old(self).min_wait_millis,
            accepted ==> final(self).attempts == old(self).attempts && r == (RouteDecision::Settled {
                target: target_of(old(self).attempts as nat, old(self).n_targets as nat) as usize,
            }),
            !accepted ==> final(self).attempts == old(self).attempts + 1 && r == (RouteDecision::Retry {
                target: target_of((old(self).attempts + 1) as nat, old(self).n_targets as nat) as usize,
                wait_millis: backoff_of(
                    old(self).attempts as nat,
                    old(self).min_wait_millis as nat,
                ) as u64,
            }),
    {
        if accepted {
            RouteDecision::Settled { target: self.current_target() }
        } else {
            let wait_millis = FailoverRouter::backoff_millis(self.attempts, self.min_wait_millis);
            self.attempts = self.attempts + 1;
            RouteDecision::Retry { target: self.current_target(), wait_millis }
        }
    }
}

/// Round-robin sequencing: when the attempts from `attempt` on are refused
/// `j` times and then accepted, the targets tried are `attempt % n`,
/// `(attempt + 1) % n`, ... in turn, `j + 1` of them, and the last of them
/// settles the payment.
pub proof fn lemma_round_robin(n_targets: nat, attempt: nat, outcomes: Seq<bool>, j: int)
    requires
        n_targets > 0,
        0 <= j < outcomes.len(),
        outcomes[j],
        forall|i: int| 0 <= i < j ==> !outcomes[i],
    ensures
        targets_tried(n_targets, attempt, outcomes) == Seq::new(
            (j + 1) as nat,
            |i: int| target_of((attempt + i) as nat, n_targets),
        ),
        settled_target(n_targets, attempt, outcomes) == Some(
            target_of((attempt + j) as nat, n_targets),
        ),
    decreases j,
{
    if j > 0 {
        let rest = outcomes.drop_first();
        assert forall|i: int| 0 <= i < j - 1 implies !rest[i] by {
            assert(rest[i] == outcomes[i + 1]);
        }
        lemma_round_robin(n_targets, attempt + 1, rest, j - 1);
        assert(targets_tried(n_targets, attempt, outcomes) =~= Seq::new(
            (j + 1) as nat,
            |i: int| target_of((attempt + i) as nat, n_targets),
        ));
    } else {
        assert(targets_tried(n_targets, attempt, outcomes) =~= Seq::new(
            (j + 1) as nat,
            |i: int| target_of((attempt + i) as nat, n_targets),
        ));
    }
}

/// Failover: when each target either always accepts or always refuses
/// (`healthy`), and some target accepts, a payment routed from its first
/// attempt is settled by the first healthy target in registry order, however
/// many attempts are allowed, as long as they reach it.
pub proof fn lemma_failover(healthy: Seq<bool>, first: int, n_attempts: nat)
    requires
        healthy.len() > 0,
        0 <= first < healthy.len(),
        healthy[first],
        forall|i: int| 0 <= i < first ==> !healthy[i],
        n_attempts > first,
    ensures
        settled_target(
            healthy.len(),
            0,
            Seq::new(n_attempts, |i: int| healthy[i % (healthy.len() as int)]),
        ) == Some(first as nat),
{
    let n = healthy.len();
    let outcomes = Seq::new(n_attempts, |i: int| healthy[i % (n as int)]);
    assert forall|i: int| 0 <= i < first implies !outcomes[i] by {
        assert(i % (n as int) == i) by (nonlinear_arith)
            requires
                0 <= i < n,
        ;
    }
    assert(first % (n as int) == first) by (nonlinear_arith)
        requires
            0 <= first < n,
    ;
    lemma_round_robin(n, 0, outcomes, first);
}

} // verus!
