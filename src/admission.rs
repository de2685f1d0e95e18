use vstd::prelude::*;

verus! {

/// The admission gate: bounds how many settlement workers are active at once.
///
/// `in_flight` counts the workers that were admitted and have not yet
/// finished their pipeline; it never exceeds `max_in_flight`.
#[derive(Clone, Copy, Debug)]
pub struct AdmissionGate {
    pub in_flight: usize,
    pub max_in_flight: usize,
}

/// One admission operation: a worker asks to be admitted, or an admitted
/// worker finishes.
#[derive(Clone, Copy, Debug, PartialEq, Eq, Structural)]
pub enum GateOp {
    Admit,
    Release,
}

/// One operation on the abstract state (in flight, bound): an admission
/// takes a slot if one is free; a release frees one (a release with nobody
/// admitted never happens, and changes nothing here).
pub open spec fn gate_step(s: (nat, nat), op: GateOp) -> (nat, nat) {
    match op {
        GateOp::Admit => if s.0 < s.1 {
            (s.0 + 1, s.1)
        } else {
            s
        },
        GateOp::Release => if s.0 > 0 {
            ((s.0 - 1) as nat, s.1)
        } else {
            s
        },
    }
}

/// The state after applying `ops` in order.
pub open spec fn gate_run(s: (nat, nat), ops: Seq<GateOp>) -> (nat, nat)
    decreases ops.len(),
{
    if ops.len() == 0 {
        s
    } else {
        gate_step(gate_run(s, ops.drop_last()), ops.last())
    }
}

impl AdmissionGate {
    pub open spec fn wf(&self) -> bool {
        self.in_flight <= self.max_in_flight
    }

    pub open spec fn view(&self) -> (nat, nat) {
        (self.in_flight as nat, self.max_in_flight as nat)
    }

    /// A gate with nobody admitted.
    pub fn new(max_in_flight: usize) -> (r: AdmissionGate)
        ensures
            r.wf(),
            r.in_flight == 0,
            r.max_in_flight == max_in_flight,
    {
        AdmissionGate { in_flight: 0, max_in_flight }
    }

    /// Admits one worker if a slot is free: returns whether it was admitted,
    /// and counts it if so. A refused worker waits and asks again.
    pub fn try_admit(&mut self) -> (admitted: bool)
        requires
            old(self).wf(),
        ensures
            final(self).wf(),
            admitted == (old(self).in_flight < old(self).max_in_flight),
            final(self)@ == gate_step(old(self)@, GateOp::Admit),
            final(self).max_in_flight == old(self).max_in_flight,
            final(self).in_flight == if admitted {
                old(self).in_flight + 1
            } else {
                old(self).in_flight as int
            },
    {
        if self.in_flight < self.max_in_flight {
            self.in_flight = self.in_flight + 1;
            true
        } else {
            false
        }
    }

    /// An admitted worker has finished its pipeline, whatever its outcome.
    pub fn release(&mut self)
        requires
            old(self).wf(),
            old(self).in_flight > 0,
        ensures
            final(self).wf(),
            final(self).in_flight == old(self).in_flight - 1,
            final(self).max_in_flight == old(self).max_in_flight,
            final(self)@ == gate_step(old(self)@, GateOp::Release),
    {
        self.in_flight = self.in_flight - 1;
    }

    /// Whether at least one worker is counted as active.
    pub fn is_busy(&self) -> (r: bool)
        ensures
            r == (self.in_flight > 0),
    {
        self.in_flight > 0
    }
}

/// Whatever the load, that is for every sequence of admissions and releases
/// from a gate within its bound, the number of active workers stays within
/// the bound after every operation.
pub proof fn lemma_admission_bound(s: (nat, nat), ops: Seq<GateOp>)
    requires
        s.0 <= s.1,
    ensures
        forall|i: int|
            0 <= i <= ops.len() ==> #[trigger] gate_run(s, ops.take(i)).0 <= s.1
                && gate_run(s, ops.take(i)).1 == s.1,
    decreases ops.len(),
{
    if ops.len() > 0 {
        lemma_admission_bound(s, ops.drop_last());
        assert forall|i: int| 0 <= i <= ops.len() implies #[trigger] gate_run(s, ops.take(i)).0
            <= s.1 && gate_run(s, ops.take(i)).1 == s.1 by {
            if i < ops.len() {
                assert(ops.take(i) =~= ops.drop_last().take(i));
            } else {
                assert(ops.take(i) =~= ops);
                let prev = ops.drop_last();
                assert(prev.take(prev.len() as int) =~= prev);
                assert(gate_run(s, prev.take(prev.len() as int)).0 <= s.1);
            }
        }
    }
}

/// With a bound of one, once a worker is admitted no other worker is admitted
/// until it releases its slot: every admission asked for meanwhile is refused
/// and changes nothing.
pub proof fn lemma_single_slot_serializes(ops: Seq<GateOp>)
    requires
        forall|i: int| 0 <= i < ops.len() ==> ops[i] == GateOp::Admit,
    ensures
        gate_run(gate_step((0, 1), GateOp::Admit), ops) == (1nat, 1nat),
        gate_step(gate_run(gate_step((0, 1), GateOp::Admit), ops), GateOp::Admit) == (1nat, 1nat),
        gate_step(gate_step(gate_run(gate_step((0, 1), GateOp::Admit), ops), GateOp::Release), GateOp::Admit) == (1nat, 1nat),
    decreases ops.len(),
{
    if ops.len() > 0 {
        lemma_single_slot_serializes(ops.drop_last());
    }
}

} // verus!
