//! What a hypervisor keeps between executions.

use crate::attestation::signing;
use crate::error;
use crate::error::NexusError;
use crate::hypervisor::config::{
    recovery_from_config, HypervisorConfig, RecoveryConfig, SnapshotStrategy,
};
use crate::hypervisor::snapshots;
use crate::hypervisor::snapshots::{
    RuntimeSnapshot, SnapshotMade, SnapshotRequest, SnapshotSlots,
};
use crate::text;
use vstd::prelude::*;

verus! {

/// What going back to a snapshot restored: the memory, and the state of the
/// execution that it was captured from.
#[derive(Debug, PartialEq, Eq)]
pub struct RollbackResult<S> {
    pub snapshot_id: String,
    pub memory: Vec<u8>,
    pub execution_state: S,
}

/// A hypervisor between executions: how it was set up, which snapshots it
/// captured, and what the latest rollback restored.
#[derive(Debug, PartialEq, Eq)]
pub struct NexusHypervisor<S> {
    pub config: HypervisorConfig,
    /// Whether executions run on a pool of warm sandboxes.
    pub pooled: bool,
    /// Whether a store of instincts is attached.
    pub learning: bool,
    pub slots: SnapshotSlots,
    pub restored_memory: Option<Vec<u8>>,
    pub restored_state: Option<S>,
    /// The key that capsules are signed with.
    pub proof_key: [u8; 32],
}

/// What happens to the memory that a rollback restored.
pub enum Keeping {
    /// A rollback restored this memory.
    Restored(Seq<u8>),
    /// A rollback failed.
    Failed,
    /// An execution captured a snapshot.
    Captured,
    /// The memory was taken out.
    Taken,
}

/// What is kept after one more of these.
pub open spec fn after(kept: Option<Seq<u8>>, op: Keeping) -> Option<Seq<u8>> {
    match op {
        Keeping::Restored(memory) => Some(memory),
        Keeping::Taken => None,
        _ => kept,
    }
}

/// What is kept after all of these, in their order.
pub open spec fn kept_after(ops: Seq<Keeping>) -> Option<Seq<u8>>
    decreases ops.len(),
{
    if ops.len() == 0 {
        None
    } else {
        after(kept_after(ops.drop_last()), ops.last())
    }
}

/// What a rollback comes to: the restored result, or both reasons why there is
/// none.
pub open spec fn rollback_outcome<S>(
    snapshot_id: Seq<char>,
    full: Result<RollbackResult<S>, String>,
    diff: Result<RollbackResult<S>, String>,
) -> Result<RollbackResult<S>, error::Fault> {
    match (full, diff) {
        (Ok(t), _) => Ok(t),
        (Err(_), Ok(t)) => Ok(t),
        (Err(a), Err(b)) => Err(
            error::Fault::RollbackFailed(
                "snapshot "@ + snapshot_id
                    + " was not restorable as a full or differential snapshot (full: "@ + a@
                    + "; diff: "@ + b@ + ")"@,
            ),
        ),
    }
}

impl<S> NexusHypervisor<S> {
    /// The memory that is kept.
    pub open spec fn kept(self) -> Option<Seq<u8>> {
        match self.restored_memory {
            Some(m) => Some(m@),
            None => None,
        }
    }

    /// Whether `next` is set up as this one, with the same key and store.
    pub open spec fn same_setup(self, next: Self) -> bool {
        &&& next.config == self.config
        &&& next.pooled == self.pooled
        &&& next.learning == self.learning
        &&& next.proof_key == self.proof_key
    }

    /// A hypervisor that has done nothing yet. It learns from the start where
    /// its configuration names a store.
    pub fn new(config: HypervisorConfig, pooled: bool, proof_key: [u8; 32]) -> (r: Self)
        ensures
            r.config == config,
            r.pooled == pooled,
            r.learning == (config.recovery_config is LayeredInstinct),
            r.proof_key == proof_key,
            r.slots.current is None,
            r.slots.latest is None,
            r.kept() is None,
            r.restored_state is None,
    {
        let plan = recovery_from_config(&config.recovery_config);
        NexusHypervisor {
            config,
            pooled,
            learning: plan.store_dir.is_some(),
            slots: SnapshotSlots::new(),
            restored_memory: None,
            restored_state: None,
            proof_key,
        }
    }

    /// The hypervisor with a store attached: what retries come to then counts
    /// for or against the instincts that proposed them.
    pub fn with_instinct_store(self) -> (r: Self)
        ensures
            r == (NexusHypervisor { learning: true, ..self }),
    {
        let mut next = self;
        next.learning = true;
        next
    }

    /// The hypervisor with a store attached.
    pub fn with_self_correction(self) -> (r: Self)
        ensures
            r == (NexusHypervisor { learning: true, ..self }),
    {
        self.with_instinct_store()
    }

    /// Whether a store is attached.
    pub fn self_correction_enabled(&self) -> (r: bool)
        ensures
            r == self.learning,
    {
        self.learning
    }

    /// Whether executions run on a pool.
    pub fn pool_enabled(&self) -> (r: bool)
        ensures
            r == self.pooled,
    {
        self.pooled
    }

    /// How snapshots are taken.
    pub fn snapshot_strategy(&self) -> (r: SnapshotStrategy)
        ensures
            r == self.config.snapshot_strategy,
    {
        self.config.snapshot_strategy
    }

    /// Which recovery policies are used.
    pub fn recovery_config(&self) -> (r: &RecoveryConfig)
        ensures
            *r == self.config.recovery_config,
    {
        &self.config.recovery_config
    }

    /// The public key that capsules are checked with.
    pub fn proof_verifying_key(&self) -> (r: [u8; 32])
        ensures
            r@ == signing::ed25519_public(self.proof_key@),
    {
        signing::verifying_key(&self.proof_key)
    }

    /// The name of that key in an envelope.
    pub fn proof_key_id(&self) -> (r: String)
        ensures
            r@ == text::hex_of(signing::ed25519_public(self.proof_key@)),
    {
        text::hex_lower(self.proof_verifying_key().as_slice())
    }

    /// What to ask the snapshot manager for when memory is captured.
    pub fn snapshot_request(&self) -> (r: SnapshotRequest)
        ensures
            match r {
                SnapshotRequest::Full => self.config.snapshot_strategy == SnapshotStrategy::Full
                    || self.slots.latest is None,
                SnapshotRequest::DiffFrom(id) => self.config.snapshot_strategy
                    == SnapshotStrategy::Differential && snapshots::latest_ref(self.slots) is Some
                    && id@ == snapshots::latest_ref(self.slots)->0.id(),
            },
    {
        self.slots.request(self.config.snapshot_strategy)
    }

    /// Takes note of a captured snapshot.
    pub fn create_runtime_snapshot(&mut self, made: SnapshotMade) -> (r: RuntimeSnapshot)
        ensures
            r@ == snapshots::made_ref(made),
            snapshots::latest_ref(final(self).slots) == Some(snapshots::made_ref(made)),
            text::opt_text(final(self).slots.current) == (if made is Diff {
                text::opt_text(old(self).slots.current)
            } else {
                Some(snapshots::made_ref(made).id())
            }),
            old(self).same_setup(*final(self)),
            final(self).kept() == after(old(self).kept(), Keeping::Captured),
            final(self).restored_state == old(self).restored_state,
    {
        self.slots.record(made)
    }

    /// The identifier of the snapshot that was captured last.
    pub fn latest_runtime_snapshot_id(&self) -> (r: Option<String>)
        ensures
            text::opt_text(r) == (match snapshots::latest_ref(self.slots) {
                Some(s) => Some(s.id()),
                None => None,
            }),
    {
        self.slots.latest_runtime_snapshot_id()
    }

    /// Goes back to a snapshot that may be full or hold differences: `full` and
    /// `diff` are what the two ways of restoring it returned. What was restored
    /// is kept; where nothing was, what was kept before stays.
    pub fn rollback_snapshot(
        &mut self,
        snapshot_id: &str,
        full: Result<RollbackResult<S>, String>,
        diff: Result<RollbackResult<S>, String>,
    ) -> (r: Result<String, NexusError>)
        ensures
            old(self).same_setup(*final(self)),
            final(self).slots == old(self).slots,
            is_kept(*old(self), *final(self), rollback_outcome(snapshot_id@, full, diff)),
            match rollback_outcome(snapshot_id@, full, diff) {
                Ok(done) => r is Ok && r->Ok_0 == done.snapshot_id,
                Err(e) => r is Err && r->Err_0@ == e,
            },
    {
        match snapshots::rollback_snapshot(snapshot_id, full, diff) {
            Ok(done) => {
                let RollbackResult { snapshot_id: id, memory, execution_state } = done;
                self.restored_memory = Some(memory);
                self.restored_state = Some(execution_state);
                Ok(id)
            },
            Err(e) => Err(e),
        }
    }

    /// Goes back to a snapshot.
    pub fn manual_rollback(
        &mut self,
        snapshot_id: &str,
        full: Result<RollbackResult<S>, String>,
        diff: Result<RollbackResult<S>, String>,
    ) -> (r: Result<(), NexusError>)
        ensures
            old(self).same_setup(*final(self)),
            final(self).slots == old(self).slots,
            is_kept(*old(self), *final(self), rollback_outcome(snapshot_id@, full, diff)),
            match rollback_outcome(snapshot_id@, full, diff) {
                Ok(done) => r is Ok,
                Err(e) => r is Err && r->Err_0@ == e,
            },
    {
        match self.rollback_snapshot(snapshot_id, full, diff) {
            Ok(_) => Ok(()),
            Err(e) => Err(e),
        }
    }

    /// Goes back to the snapshot of the execution that failed, when `outcome` is
    /// what restoring it returned.
    pub fn rollback_runtime_snapshot(
        &mut self,
        outcome: Result<RollbackResult<S>, NexusError>,
    ) -> (r: Result<(), NexusError>)
        ensures
            old(self).same_setup(*final(self)),
            final(self).slots == old(self).slots,
            is_kept(
                *old(self),
                *final(self),
                match outcome {
                    Ok(done) => Ok(done),
                    Err(e) => Err(e@),
                },
            ),
            match outcome {
                Ok(done) => r is Ok,
                Err(e) => r == Err::<(), NexusError>(e),
            },
    {
        match outcome {
            Ok(done) => {
                self.restored_memory = Some(done.memory);
                self.restored_state = Some(done.execution_state);
                Ok(())
            },
            Err(e) => Err(e),
        }
    }

    /// Takes out the memory that the latest rollback restored. There is none
    /// again until the next rollback.
    pub fn take_rollback_memory(&mut self) -> (r: Option<Vec<u8>>)
        ensures
            r == old(self).restored_memory,
            *final(self) == (NexusHypervisor { restored_memory: None, ..*old(self) }),
            final(self).kept() == after(old(self).kept(), Keeping::Taken),
    {
        self.restored_memory.take()
    }

    /// The memory that the latest rollback restored, which stays.
    pub fn last_rollback_memory(&self) -> (r: Option<Vec<u8>>)
        ensures
            match r {
                Some(m) => self.kept() == Some(m@),
                None => self.kept() is None,
            },
    {
        match &self.restored_memory {
            Some(m) => {
                let copy = m.clone();
                assert(copy@ =~= m@);
                Some(copy)
            },
            None => None,
        }
    }

    /// Takes out the state that the latest rollback restored.
    pub fn take_rollback_execution_state(&mut self) -> (r: Option<S>)
        ensures
            r == old(self).restored_state,
            *final(self) == (NexusHypervisor { restored_state: None, ..*old(self) }),
    {
        self.restored_state.take()
    }

    /// The state that the latest rollback restored, which stays.
    pub fn last_rollback_execution_state(&self) -> (r: Option<&S>)
        ensures
            r is Some <==> self.restored_state is Some,
            r is Some ==> *r->0 == self.restored_state->0,
    {
        match &self.restored_state {
            Some(s) => Some(s),
            None => None,
        }
    }
}

/// A restored memory is handed out once: after it was taken there is none, until
/// a rollback restores one.
pub proof fn lemma_taken_once(before: Seq<Keeping>, rest: Seq<Keeping>)
    requires
        forall|i: int| 0 <= i < rest.len() ==> !(#[trigger] rest[i] is Restored),
    ensures
        kept_after(before.push(Keeping::Taken) + rest) is None,
    decreases rest.len(),
{
    let ops = before.push(Keeping::Taken) + rest;
    if rest.len() == 0 {
        assert(ops =~= before.push(Keeping::Taken));
        assert(ops.drop_last() =~= before);
    } else {
        assert(ops.drop_last() =~= before.push(Keeping::Taken) + rest.drop_last());
        assert(ops.last() == rest[rest.len() - 1]);
        assert forall|i: int| 0 <= i < rest.drop_last().len() implies !(
        #[trigger] rest.drop_last()[i] is Restored) by {
            assert(rest.drop_last()[i] == rest[i]);
        }
        lemma_taken_once(before, rest.drop_last());
    }
}

/// A restored memory stays until it is taken or another one is restored, however
/// many snapshots are captured and rollbacks fail.
pub proof fn lemma_restored_stays(before: Seq<Keeping>, memory: Seq<u8>, rest: Seq<Keeping>)
    requires
        forall|i: int|
            0 <= i < rest.len() ==> (#[trigger] rest[i] is Captured || rest[i] is Failed),
    ensures
        kept_after(before.push(Keeping::Restored(memory)) + rest) == Some(memory),
    decreases rest.len(),
{
    let first = before.push(Keeping::Restored(memory));
    let ops = first + rest;
    if rest.len() == 0 {
        assert(ops =~= first);
        assert(ops.drop_last() =~= before);
    } else {
        assert(ops.drop_last() =~= first + rest.drop_last());
        assert(ops.last() == rest[rest.len() - 1]);
        assert forall|i: int| 0 <= i < rest.drop_last().len() implies (
        #[trigger] rest.drop_last()[i] is Captured || rest.drop_last()[i] is Failed) by {
            assert(rest.drop_last()[i] == rest[i]);
        }
        lemma_restored_stays(before, memory, rest.drop_last());
    }
}

/// A snapshot is restored in full where that works, and else by its differences;
/// only where neither works does it fail, and then it tells which snapshot it
/// was and what was wrong both ways.
pub proof fn lemma_rollback_tries_both_ways<S>(
    snapshot_id: Seq<char>,
    full: Result<RollbackResult<S>, String>,
    diff: Result<RollbackResult<S>, String>,
)
    ensures
        full is Ok ==> rollback_outcome(snapshot_id, full, diff) is Ok && rollback_outcome(
            snapshot_id,
            full,
            diff,
        )->Ok_0 == full->Ok_0,
        full is Err && diff is Ok ==> rollback_outcome(snapshot_id, full, diff) is Ok
            && rollback_outcome(snapshot_id, full, diff)->Ok_0 == diff->Ok_0,
        full is Err && diff is Err ==> (rollback_outcome(snapshot_id, full, diff) matches Err(
            error::Fault::RollbackFailed(t),
        ) && text::has_text(t, snapshot_id) && text::has_text(t, full->Err_0@)
            && text::has_text(t, diff->Err_0@)),
{
    if full is Err && diff is Err {
        let a = full->Err_0@;
        let b = diff->Err_0@;
        let lead = "snapshot "@;
        let mid = " was not restorable as a full or differential snapshot (full: "@;
        let head = lead + snapshot_id + mid;
        let whole = head + a + "; diff: "@ + b + ")"@;
        text::lemma_part_is_held(lead, snapshot_id, mid);
        text::lemma_held_in_longer(Seq::empty(), head, a + "; diff: "@ + b + ")"@, snapshot_id);
        assert(whole =~= head + (a + "; diff: "@ + b + ")"@));
        text::lemma_part_is_held(head, a, "; diff: "@ + b + ")"@);
        assert(whole =~= head + a + ("; diff: "@ + b + ")"@));
        text::lemma_part_is_held(head + a + "; diff: "@, b, ")"@);
    }
}

/// Whether `next` keeps what a rollback restored, or what was kept before where
/// it failed.
pub open spec fn is_kept<S>(
    before: NexusHypervisor<S>,
    next: NexusHypervisor<S>,
    outcome: Result<RollbackResult<S>, error::Fault>,
) -> bool {
    match outcome {
        Ok(done) => {
            &&& next.kept() == after(before.kept(), Keeping::Restored(done.memory@))
            &&& next.restored_state == Some(done.execution_state)
        },
        Err(_) => {
            &&& next.kept() == after(before.kept(), Keeping::Failed)
            &&& next.restored_state == before.restored_state
        },
    }
}

/// After a rollback that was done exactly what it restored is kept, memory and
/// state; after one that failed everything is as it was.
pub proof fn lemma_rollbacks_keep_what_they_restored<S>(
    before: NexusHypervisor<S>,
    next: NexusHypervisor<S>,
    outcome: Result<RollbackResult<S>, error::Fault>,
)
    requires
        is_kept(before, next, outcome),
    ensures
        outcome matches Ok(done) ==> next.restored_memory is Some && next.restored_memory->0@
            == done.memory@ && next.restored_state == Some(done.execution_state),
        outcome is Err ==> next.restored_state == before.restored_state && (
        next.restored_memory is Some <==> before.restored_memory is Some) && (
        before.restored_memory is Some ==> next.restored_memory->0@ == before.restored_memory->0@),
{
}

/// Whatever is done, a hypervisor keeps its configuration, its place in a pool,
/// its key, and whether it learns.
pub proof fn lemma_setups_are_kept<S>(a: NexusHypervisor<S>, b: NexusHypervisor<S>)
    requires
        a.same_setup(b),
    ensures
        b.config == a.config && b.pooled == a.pooled && b.learning == a.learning && b.proof_key
            == a.proof_key,
{
}

} // verus!
