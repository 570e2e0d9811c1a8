//! Retrying an execution, with feedback on the instincts that proposed how.

use crate::error::NexusError;
use crate::hypervisor::recovery::RecoveryAction;
use crate::hypervisor::tool::ToolOutput;
use vstd::prelude::*;
use vstd::string::*;

verus! {

/// An instinct that proposed an action: its identifier and the action.
#[derive(Debug, Clone, PartialEq, Eq)]
pub struct Proposal {
    pub instinct_id: String,
    pub description: String,
}

/// A proposal, by its contents.
pub struct Proposed {
    pub instinct_id: Seq<char>,
    pub description: Seq<char>,
}

impl View for Proposal {
    type V = Proposed;

    open spec fn view(&self) -> Proposed {
        Proposed { instinct_id: self.instinct_id@, description: self.description@ }
    }
}

/// The contents of a list of proposals.
pub open spec fn proposals(v: Seq<Proposal>) -> Seq<Proposed> {
    Seq::new(v.len(), |i: int| v[i]@)
}

/// The proposals among some actions: those that an instinct made, in their
/// order.
pub open spec fn proposed_by_instincts(actions: Seq<RecoveryAction>) -> Seq<Proposed>
    decreases actions.len(),
{
    if actions.len() == 0 {
        Seq::empty()
    } else {
        let rest = proposed_by_instincts(actions.drop_last());
        match actions.last().instinct_id {
            Some(id) => rest.push(
                Proposed { instinct_id: id@, description: actions.last().description@ },
            ),
            None => rest,
        }
    }
}

/// Collects the proposals among some actions.
pub fn collect_proposals(actions: &Vec<RecoveryAction>) -> (r: Vec<Proposal>)
    ensures
        proposals(r@) == proposed_by_instincts(actions@),
{
    let mut out: Vec<Proposal> = Vec::new();
    let mut i: usize = 0;
    proof {
        assert(proposals(out@) =~= Seq::<Proposed>::empty());
    }
    while i < actions.len()
        invariant
            i <= actions.len(),
            proposals(out@) == proposed_by_instincts(actions@.take(i as int)),
        decreases actions.len() - i,
    {
        proof {
            assert(actions@.take(i + 1).drop_last() =~= actions@.take(i as int));
            assert(actions@.take(i + 1).last() == actions@[i as int]);
        }
        let ghost before = proposals(out@);
        if let Some(id) = &actions[i].instinct_id {
            let p = Proposal {
                instinct_id: id.clone(),
                description: actions[i].description.clone(),
            };
            let ghost pv = p@;
            out.push(p);
            proof {
                assert(proposals(out@) =~= before.push(pv));
            }
        }
        i = i + 1;
    }
    proof {
        assert(actions@.take(i as int) =~= actions@);
    }
    out
}

/// Where a series of attempts stands: the number of the next attempt, counted
/// from zero, and what the last failure proposed.
#[derive(Debug, PartialEq, Eq)]
pub struct Retry {
    pub attempt: u32,
    pub max_retries: u32,
    pub pending: Vec<Proposal>,
}

/// What a series of attempts does next.
pub enum RetryNext {
    /// Wait for the retry delay and try again.
    Again(Retry),
    /// Return this.
    Return(Result<ToolOutput, NexusError>),
}

/// What is to be told to the instinct store: these instincts helped, or did
/// not.
#[derive(Debug, PartialEq, Eq)]
pub struct Feedback {
    pub proposals: Vec<Proposal>,
    pub success: bool,
}

/// What the next attempt has pending after an attempt that ended in `output`.
pub open spec fn pending_after(r: Retry, output: ToolOutput) -> Seq<Proposed> {
    match output.error_log {
        Some(log) => proposed_by_instincts(log.recovery_actions@),
        None => if r.attempt > 0 {
            Seq::empty()
        } else {
            proposals(r.pending@)
        },
    }
}

/// Whether `f` is what is to be told of an attempt that ended in `result`.
pub open spec fn is_credited(
    r: Retry,
    result: Result<ToolOutput, NexusError>,
    store: bool,
    f: Option<Feedback>,
) -> bool {
    match f {
        Some(f) => result is Ok && store && r.attempt > 0 && r.pending@.len() > 0 && f.proposals
            == r.pending && f.success == result->Ok_0.success,
        None => !(result is Ok && store && r.attempt > 0 && r.pending@.len() > 0),
    }
}

/// Whether `next` is what follows an attempt that ended in `result`.
pub open spec fn is_followed(
    r: Retry,
    result: Result<ToolOutput, NexusError>,
    next: RetryNext,
) -> bool {
    match next {
        RetryNext::Return(out) => out == result && (r.attempt == r.max_retries || (result is Ok
            && result->Ok_0.success)),
        RetryNext::Again(next) => {
            &&& r.attempt < r.max_retries
            &&& !(result is Ok && result->Ok_0.success)
            &&& next.valid()
            &&& next.attempt == r.attempt + 1
            &&& next.max_retries == r.max_retries
            &&& proposals(next.pending@) == (match result {
                Ok(out) => pending_after(r, out),
                Err(_) => proposals(r.pending@),
            })
        },
    }
}

impl Retry {
    /// The attempts are within bounds, and before the first one nothing is
    /// pending.
    pub open spec fn valid(self) -> bool {
        &&& self.attempt <= self.max_retries
        &&& self.attempt == 0 ==> self.pending@.len() == 0
    }

    /// How many attempts may follow this one.
    pub open spec fn left(self) -> nat {
        (self.max_retries - self.attempt) as nat
    }

    /// Before the first attempt.
    pub fn new(max_retries: u32) -> (r: Self)
        ensures
            r.valid(),
            r.attempt == 0,
            r.max_retries == max_retries,
            r.pending@.len() == 0,
    {
        Retry { attempt: 0, max_retries, pending: Vec::new() }
    }

    /// Whether to wait before the attempt.
    pub fn waits(&self) -> (r: bool)
        ensures
            r == (self.attempt > 0),
    {
        self.attempt > 0
    }

    /// Takes in how the attempt ended. A success is returned at once, and so is
    /// whatever the last attempt gives. What the previous failure proposed is
    /// credited with a success and debited with a failure, if a store is
    /// attached; an attempt that could not be carried out says nothing about
    /// it, and leaves it pending.
    pub fn after_attempt(self, result: Result<ToolOutput, NexusError>, store: bool) -> (r: (
        Option<Feedback>,
        RetryNext,
    ))
        requires
            self.valid(),
        ensures
            is_credited(self, result, store, r.0),
            is_followed(self, result, r.1),
    {
        let Retry { attempt, max_retries, pending } = self;
        let last = attempt == max_retries;
        match result {
            Err(e) => if last {
                (None, RetryNext::Return(Err(e)))
            } else {
                (None, RetryNext::Again(Retry { attempt: attempt + 1, max_retries, pending }))
            },
            Ok(output) => {
                let credited = attempt > 0 && pending.len() > 0;
                let mut kept: Vec<Proposal> = Vec::new();
                let mut feedback: Option<Feedback> = None;
                if credited && store {
                    feedback = Some(Feedback { proposals: pending, success: output.success });
                } else if !credited {
                    kept = pending;
                }
                proof {
                    assert(proposals(kept@) =~= (if attempt > 0 {
                        Seq::<Proposed>::empty()
                    } else {
                        proposals(self.pending@)
                    }));
                }
                if output.success || last {
                    return (feedback, RetryNext::Return(Ok(output)));
                }
                if let Some(log) = &output.error_log {
                    kept = collect_proposals(&log.recovery_actions);
                }
                (
                    feedback,
                    RetryNext::Again(Retry { attempt: attempt + 1, max_retries, pending: kept }),
                )
            },
        }
    }
}

/// How many attempts are made from attempt `k` on, when `ends` says which
/// attempts end the series.
pub open spec fn attempts_made(k: nat, max_retries: nat, ends: spec_fn(nat) -> bool) -> nat
    decreases max_retries - k,
{
    if k >= max_retries || ends(k) {
        1
    } else {
        1 + attempts_made(k + 1, max_retries, ends)
    }
}

/// There is at least one attempt, there are at most one more than the retries,
/// and none follows the first that ends the series.
pub proof fn lemma_attempts_are_bounded(k: nat, max_retries: nat, ends: spec_fn(nat) -> bool)
    requires
        k <= max_retries,
    ensures
        1 <= attempts_made(k, max_retries, ends) <= max_retries - k + 1,
        forall|i: nat|
            k <= i <= max_retries && #[trigger] ends(i) ==> attempts_made(k, max_retries, ends) <= i
                - k + 1,
    decreases max_retries - k,
{
    if k < max_retries && !ends(k) {
        lemma_attempts_are_bounded(k + 1, max_retries, ends);
    }
}

/// Bounds for the fuel of the runs that record a trace.
pub open spec fn trace_cap(interval: u64, k: u64) -> nat {
    let step = if interval == 0 {
        1
    } else {
        interval as nat
    };
    if step * k > u64::MAX {
        u64::MAX as nat
    } else {
        step * (k as nat)
    }
}

/// The fuel of the `k`th run of a trace: `k` intervals, where an interval is at
/// least one.
pub fn trace_fuel_cap(interval: u64, k: u64) -> (r: u64)
    ensures
        r == trace_cap(interval, k),
{
    let step: u64 = if interval == 0 {
        1
    } else {
        interval
    };
    match step.checked_mul(k) {
        Some(n) => n,
        None => u64::MAX,
    }
}

/// The number of the run after run `k`, if there is one: a run that completed
/// is the last.
pub fn trace_next(k: u64, max_checkpoints: u64, completed: bool) -> (r: Option<u64>)
    ensures
        r == (if !completed && k < max_checkpoints {
            Some((k + 1) as u64)
        } else {
            None::<u64>
        }),
{
    if !completed && k < max_checkpoints {
        Some(k + 1)
    } else {
        None
    }
}

/// A later run never has less fuel.
pub proof fn lemma_trace_caps_grow(interval: u64, j: u64, k: u64)
    requires
        j <= k,
    ensures
        trace_cap(interval, j) <= trace_cap(interval, k),
{
    let step = if interval == 0 {
        1nat
    } else {
        interval as nat
    };
    assert(step * j <= step * k) by (nonlinear_arith)
        requires
            j <= k,
            step >= 0,
    ;
}

/// What is proposed to the store is what instincts proposed: a proposal is
/// listed exactly if some action carries its instinct and its words, and there
/// are no more of them than actions.
pub proof fn lemma_proposals_come_from_actions(actions: Seq<RecoveryAction>, p: Proposed)
    ensures
        proposed_by_instincts(actions).contains(p) <==> exists|i: int|
            0 <= i < actions.len() && (#[trigger] actions[i]).instinct_id is Some
                && actions[i].instinct_id->0@ == p.instinct_id && actions[i].description@
                == p.description,
        proposed_by_instincts(actions).len() <= actions.len(),
    decreases actions.len(),
{
    if actions.len() > 0 {
        let before = actions.drop_last();
        lemma_proposals_come_from_actions(before, p);
        let rest = proposed_by_instincts(before);
        let all = proposed_by_instincts(actions);
        if all.contains(p) {
            let j = choose|j: int| 0 <= j < all.len() && all[j] == p;
            if j < rest.len() {
                assert(rest[j] == p);
                let i = choose|i: int|
                    0 <= i < before.len() && (#[trigger] before[i]).instinct_id is Some
                        && before[i].instinct_id->0@ == p.instinct_id && before[i].description@
                        == p.description;
                assert(actions[i] == before[i]);
            } else {
                assert(actions[actions.len() - 1].instinct_id is Some);
            }
        }
        if exists|i: int|
            0 <= i < actions.len() && (#[trigger] actions[i]).instinct_id is Some
                && actions[i].instinct_id->0@ == p.instinct_id && actions[i].description@
                == p.description {
            let i = choose|i: int|
                0 <= i < actions.len() && (#[trigger] actions[i]).instinct_id is Some
                    && actions[i].instinct_id->0@ == p.instinct_id && actions[i].description@
                    == p.description;
            if i < before.len() {
                assert(before[i] == actions[i]);
                let j = choose|j: int| 0 <= j < rest.len() && rest[j] == p;
                assert(all[j] == p);
            } else {
                assert(all[all.len() - 1] == p);
            }
        }
    }
}

/// After a logged failure the next attempt answers for what that failure
/// proposed, and for nothing older; after a failure without a log, what was
/// credited or debited is not so again.
pub proof fn lemma_pending_is_of_the_last_failure(r: Retry, output: ToolOutput, p: Proposed)
    requires
        r.valid(),
    ensures
        output.error_log is Some && pending_after(r, output).contains(p) ==> exists|i: int|
            0 <= i < output.error_log->0.recovery_actions@.len() && (
            #[trigger] output.error_log->0.recovery_actions@[i]).instinct_id is Some
                && output.error_log->0.recovery_actions@[i].instinct_id->0@ == p.instinct_id,
        output.error_log is None ==> pending_after(r, output).len() == 0,
{
    if output.error_log is Some {
        lemma_proposals_come_from_actions(output.error_log->0.recovery_actions@, p);
    }
}

/// A run of a trace gets as many intervals of fuel as its number says, as far as
/// the fuel can be counted, and never less than its number.
pub proof fn lemma_trace_caps_are_intervals(interval: u64, k: u64)
    ensures
        interval > 0 && interval * k <= u64::MAX ==> trace_cap(interval, k) == interval * k,
        interval * k > u64::MAX ==> trace_cap(interval, k) == u64::MAX,
        trace_cap(0, k) == k,
        trace_cap(interval, k) >= k,
{
    let step: int = if interval == 0 {
        1
    } else {
        interval as int
    };
    assert(step * k >= k) by (nonlinear_arith)
        requires
            step >= 1,
            k >= 0,
    ;
    assert(0 * k == 0);
}

/// A success ends the attempts and is returned, and so does the last attempt,
/// whatever it gives; any other failure is tried again, once for each retry.
/// Nothing but what the attempt gave is ever returned.
pub proof fn lemma_failures_are_tried_again(
    r: Retry,
    result: Result<ToolOutput, NexusError>,
    next: RetryNext,
)
    requires
        r.valid(),
        is_followed(r, result, next),
    ensures
        next is Again <==> r.attempt < r.max_retries && (result matches Ok(out) ==> !out.success),
        next matches RetryNext::Return(out) ==> out == result,
        next matches RetryNext::Again(n) ==> n.attempt == r.attempt + 1 && n.max_retries
            == r.max_retries && n.left() + 1 == r.left(),
{
}

/// The instincts whose advice was followed answer for how the attempt went, and
/// only they: those of the last failure, with a store to tell, and never for the
/// first attempt or for one that could not be carried out.
pub proof fn lemma_instincts_answer_for_the_attempt(
    r: Retry,
    result: Result<ToolOutput, NexusError>,
    store: bool,
    f: Option<Feedback>,
)
    requires
        r.valid(),
        is_credited(r, result, store, f),
    ensures
        f is Some <==> store && r.pending@.len() > 0 && result is Ok,
        f matches Some(x) ==> x.proposals == r.pending && x.success == result->Ok_0.success
            && r.attempt > 0,
{
}

} // verus!
