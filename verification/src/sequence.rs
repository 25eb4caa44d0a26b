//! The write sequencer: hands out the register writes of a plan one at a
//! time, in order, and stops for good at the first write that the bus
//! refuses.
//!
//! The sequencer does no bus traffic. Its caller sends the pending write and
//! records how the bus answered; the sequencer decides what happens next.

use vstd::prelude::*;
use crate::encoder::RegisterWrite;

verus! {

/// How far a frequency change has come.
#[derive(Copy, Clone, Debug, PartialEq, Eq, Structural)]
pub enum Stage {
    /// Nothing is planned.
    Idle,
    /// The parameters are computed; the PLL registers are being written.
    ComputedParameters,
    /// The eight PLL registers are written.
    PllProgrammed,
    /// The eight output-divider registers are written too.
    MultisynthProgrammed,
    /// The PLL has been reset.
    PllReset,
    /// The output is enabled: the change is complete.
    ClockEnabled,
    /// A write was refused; nothing further is written.
    Failed,
}

/// The state of a sequencer as contracts see it.
pub struct SequenceState {
    /// The writes to issue, in order.
    pub plan: Seq<RegisterWrite>,
    /// How many writes of the plan the bus has accepted.
    pub acknowledged: nat,
    /// Whether the bus has refused a write.
    pub failed: bool,
}

impl SequenceState {
    /// The state before any write of `plan` is issued.
    pub open spec fn fresh(plan: Seq<RegisterWrite>) -> SequenceState {
        SequenceState { plan, acknowledged: 0, failed: false }
    }

    pub open spec fn wf(self) -> bool {
        self.acknowledged <= self.plan.len()
    }

    /// The write to send next: none once the plan is through or a write has
    /// been refused.
    pub open spec fn pending(self) -> Option<RegisterWrite> {
        if !self.failed && self.acknowledged < self.plan.len() {
            Some(self.plan[self.acknowledged as int])
        } else {
            None
        }
    }

    /// The state after the bus has answered the pending write: one more
    /// write acknowledged where it accepted, failed where it refused. With
    /// no write pending the state stays as it is.
    pub open spec fn record(self, accepted: bool) -> SequenceState {
        if self.pending().is_none() {
            self
        } else if accepted {
            SequenceState { acknowledged: self.acknowledged + 1, ..self }
        } else {
            SequenceState { failed: true, ..self }
        }
    }

    /// Whether every write of the plan has been accepted.
    pub open spec fn complete(self) -> bool {
        !self.failed && self.acknowledged == self.plan.len()
    }

    /// The stage of a frequency change, whose plan holds the eight PLL
    /// writes, the eight output-divider writes, the PLL reset and the
    /// output enable. A sequencer without a plan is idle.
    pub open spec fn stage(self) -> Stage {
        if self.plan.len() == 0 {
            Stage::Idle
        } else if self.failed {
            Stage::Failed
        } else if self.acknowledged < 8 {
            Stage::ComputedParameters
        } else if self.acknowledged < 16 {
            Stage::PllProgrammed
        } else if self.acknowledged == 16 {
            Stage::MultisynthProgrammed
        } else if self.acknowledged == 17 {
            Stage::PllReset
        } else {
            Stage::ClockEnabled
        }
    }

    /// The state after a caller has sent pending writes for as long as
    /// there is one and `outcomes` holds an answer for it.
    pub open spec fn run(self, outcomes: Seq<bool>) -> SequenceState
        decreases outcomes.len(),
    {
        if self.pending().is_none() || outcomes.len() == 0 {
            self
        } else {
            self.record(outcomes[0]).run(outcomes.drop_first())
        }
    }

    /// The writes that reach the bus during [`Self::run`], in the order in
    /// which they are sent.
    pub open spec fn issued(self, outcomes: Seq<bool>) -> Seq<RegisterWrite>
        decreases outcomes.len(),
    {
        if self.pending().is_none() || outcomes.len() == 0 {
            Seq::empty()
        } else {
            seq![self.pending().unwrap()] + self.record(outcomes[0]).issued(outcomes.drop_first())
        }
    }
}

/// Number of leading answers that accept.
pub open spec fn accepted_prefix(outcomes: Seq<bool>) -> nat
    decreases outcomes.len(),
{
    if outcomes.len() == 0 || !outcomes[0] {
        0
    } else {
        1 + accepted_prefix(outcomes.drop_first())
    }
}

/// Number of writes that reach the bus when `remaining` writes are left and
/// the bus answers with `outcomes`: every write up to and including the
/// first one refused, as far as writes and answers last.
pub open spec fn attempts(remaining: nat, outcomes: Seq<bool>) -> nat {
    let accepted = accepted_prefix(outcomes);
    let sent = if accepted < outcomes.len() {
        accepted + 1
    } else {
        accepted
    };
    if sent < remaining {
        sent
    } else {
        remaining
    }
}

/// The bus sees a stretch of the plan, in the plan's order and without a
/// gap: it starts at the first write not yet acknowledged and ends with the
/// first write refused, or where the plan or the answers end. The run fails
/// exactly if a write was refused, and leaves the plan as it was.
pub proof fn issued_writes_follow_the_plan(state: SequenceState, outcomes: Seq<bool>)
    requires
        state.wf(),
        !state.failed,
    ensures
        state.issued(outcomes) == state.plan.subrange(
            state.acknowledged as int,
            state.acknowledged + attempts(
                (state.plan.len() - state.acknowledged) as nat,
                outcomes,
            ) as int,
        ),
        state.run(outcomes).plan == state.plan,
        state.run(outcomes).wf(),
        state.run(outcomes).failed <==> accepted_prefix(outcomes) < outcomes.len()
            && accepted_prefix(outcomes) < state.plan.len() - state.acknowledged,
        state.run(outcomes).acknowledged == state.acknowledged + if accepted_prefix(outcomes)
            < state.plan.len() - state.acknowledged {
            accepted_prefix(outcomes)
        } else {
            (state.plan.len() - state.acknowledged) as nat
        },
    decreases outcomes.len(),
{
    let remaining: nat = (state.plan.len() - state.acknowledged) as nat;
    let from: int = state.acknowledged as int;
    if state.pending().is_none() || outcomes.len() == 0 {
        assert(attempts(remaining, outcomes) == 0);
        assert(state.issued(outcomes) =~= state.plan.subrange(from, from));
    } else {
        let next: SequenceState = state.record(outcomes[0]);
        let rest: Seq<bool> = outcomes.drop_first();
        if outcomes[0] {
            issued_writes_follow_the_plan(next, rest);
            assert(accepted_prefix(outcomes) == 1 + accepted_prefix(rest));
            assert(attempts(remaining, outcomes) == 1 + attempts((remaining - 1) as nat, rest));
            assert(state.issued(outcomes) =~= state.plan.subrange(
                from,
                from + attempts(remaining, outcomes),
            ));
        } else {
            assert(next.pending().is_none());
            assert(next.issued(rest) =~= Seq::<RegisterWrite>::empty());
            assert(next.run(rest) == next);
            assert(accepted_prefix(outcomes) == 0);
            assert(attempts(remaining, outcomes) == 1);
            assert(state.issued(outcomes) =~= state.plan.subrange(from, from + 1));
        }
    }
}

/// Where the bus accepts every write, the whole plan reaches it, each write
/// once and in the plan's order, and the run is complete.
pub proof fn accepting_bus_gets_the_whole_plan(plan: Seq<RegisterWrite>, outcomes: Seq<bool>)
    requires
        outcomes.len() >= plan.len(),
        forall|i: int| 0 <= i < outcomes.len() ==> outcomes[i],
    ensures
        SequenceState::fresh(plan).issued(outcomes) == plan,
        SequenceState::fresh(plan).run(outcomes).complete(),
{
    all_accepted(outcomes);
    issued_writes_follow_the_plan(SequenceState::fresh(plan), outcomes);
    assert(plan.subrange(0, plan.len() as int) =~= plan);
}

/// Where the bus refuses write number `k` (counted from 0) after accepting
/// the ones before it, that write is the last to reach the bus: none of the
/// later writes is sent, whatever answers are left, and the run has failed
/// with `k` writes acknowledged.
pub proof fn refused_write_ends_the_run(plan: Seq<RegisterWrite>, outcomes: Seq<bool>, k: nat)
    requires
        k < plan.len(),
        k < outcomes.len(),
        !outcomes[k as int],
        forall|i: int| 0 <= i < k ==> outcomes[i],
    ensures
        SequenceState::fresh(plan).issued(outcomes) == plan.take(k + 1 as int),
        SequenceState::fresh(plan).run(outcomes).failed,
        SequenceState::fresh(plan).run(outcomes).acknowledged == k,
        SequenceState::fresh(plan).run(outcomes).pending().is_none(),
{
    accepted_up_to(outcomes, k);
    issued_writes_follow_the_plan(SequenceState::fresh(plan), outcomes);
}

/// Once a write has been refused, no answer brings the sequencer to issue
/// another write or to leave the failed state.
pub proof fn failure_is_final(state: SequenceState, outcomes: Seq<bool>)
    requires
        state.failed,
    ensures
        state.run(outcomes) == state,
        state.issued(outcomes) == Seq::<RegisterWrite>::empty(),
        state.record(true) == state,
        state.record(false) == state,
{
}

proof fn all_accepted(outcomes: Seq<bool>)
    requires
        forall|i: int| 0 <= i < outcomes.len() ==> outcomes[i],
    ensures
        accepted_prefix(outcomes) == outcomes.len(),
    decreases outcomes.len(),
{
    if outcomes.len() > 0 {
        let rest: Seq<bool> = outcomes.drop_first();
        assert forall|i: int| 0 <= i < rest.len() implies rest[i] by {
            assert(rest[i] == outcomes[i + 1]);
        }
        all_accepted(rest);
    }
}

proof fn accepted_up_to(outcomes: Seq<bool>, k: nat)
    requires
        k < outcomes.len(),
        !outcomes[k as int],
        forall|i: int| 0 <= i < k ==> outcomes[i],
    ensures
        accepted_prefix(outcomes) == k,
    decreases k,
{
    if k > 0 {
        let rest: Seq<bool> = outcomes.drop_first();
        assert forall|i: int| 0 <= i < k - 1 implies rest[i] by {
            assert(rest[i] == outcomes[i + 1]);
        }
        assert(rest[k - 1] == outcomes[k as int]);
        accepted_up_to(rest, (k - 1) as nat);
    }
}

/// A plan of register writes on its way to the device.
pub struct WriteSequence {
    writes: Vec<RegisterWrite>,
    acknowledged: usize,
    failed: bool,
}

impl View for WriteSequence {
    type V = SequenceState;

    closed spec fn view(&self) -> SequenceState {
        SequenceState {
            plan: self.writes@,
            acknowledged: self.acknowledged as nat,
            failed: self.failed,
        }
    }
}

impl WriteSequence {
    /// Every sequencer has acknowledged no more writes than its plan holds.
    #[verifier::type_invariant]
    closed spec fn inv(&self) -> bool {
        self.acknowledged <= self.writes@.len()
    }

    /// A sequencer with nothing to write.
    pub fn idle() -> (s: WriteSequence)
        ensures
            s@ == SequenceState::fresh(Seq::empty()),
            s@.stage() == Stage::Idle,
            s@.complete(),
    {
        WriteSequence { writes: Vec::new(), acknowledged: 0, failed: false }
    }

    /// A sequencer that has issued nothing yet of `writes`.
    pub fn new(writes: Vec<RegisterWrite>) -> (s: WriteSequence)
        ensures
            s@ == SequenceState::fresh(writes@),
            s@.wf(),
    {
        WriteSequence { writes, acknowledged: 0, failed: false }
    }

    /// The write to send next, if there is one.
    pub fn pending(&self) -> (w: Option<RegisterWrite>)
        ensures
            w == self@.pending(),
            self@.wf(),
    {
        proof {
            use_type_invariant(self);
        }
        if !self.failed && self.acknowledged < self.writes.len() {
            Some(self.writes[self.acknowledged])
        } else {
            None
        }
    }

    /// Records how the bus answered the pending write and hands the answer
    /// back unchanged: after `Ok` the next write is pending, after `Err`
    /// none ever is.
    pub fn record<E>(&mut self, outcome: Result<(), E>) -> (r: Result<(), E>)
        ensures
            r == outcome,
            final(self)@ == old(self)@.record(outcome.is_ok()),
            final(self)@.wf(),
    {
        proof {
            use_type_invariant(&*self);
        }
        if !self.failed && self.acknowledged < self.writes.len() {
            if outcome.is_ok() {
                self.acknowledged = self.acknowledged + 1;
            } else {
                self.failed = true;
            }
        }
        outcome
    }

    /// Number of writes that the bus has accepted.
    pub fn acknowledged(&self) -> (n: usize)
        ensures
            n == self@.acknowledged,
    {
        self.acknowledged
    }

    /// Number of writes in the plan.
    pub fn len(&self) -> (n: usize)
        ensures
            n == self@.plan.len(),
    {
        self.writes.len()
    }

    /// Whether the bus has refused a write.
    pub fn has_failed(&self) -> (b: bool)
        ensures
            b == self@.failed,
    {
        self.failed
    }

    /// Whether every write of the plan has been accepted.
    pub fn is_complete(&self) -> (b: bool)
        ensures
            b == self@.complete(),
    {
        !self.failed && self.acknowledged == self.writes.len()
    }

    /// The stage that a frequency change has reached.
    pub fn stage(&self) -> (stage: Stage)
        ensures
            stage == self@.stage(),
    {
        proof {
            use_type_invariant(self);
        }
        if self.writes.len() == 0 {
            Stage::Idle
        } else if self.failed {
            Stage::Failed
        } else if self.acknowledged < 8 {
            Stage::ComputedParameters
        } else if self.acknowledged < 16 {
            Stage::PllProgrammed
        } else if self.acknowledged == 16 {
            Stage::MultisynthProgrammed
        } else if self.acknowledged == 17 {
            Stage::PllReset
        } else {
            Stage::ClockEnabled
        }
    }
}

} // verus!
