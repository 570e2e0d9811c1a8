//! Which snapshots are taken and which one is restored.

use crate::attestation::digest;
use crate::attestation::schema::{SnapshotEvidence, SnapshotKind, TypedDigest};
use crate::error;
use crate::error::NexusError;
use crate::hypervisor::config::SnapshotStrategy;
use crate::text;
use vstd::prelude::*;
use vstd::string::*;

verus! {

/// A snapshot that an execution captured, by its identifier.
#[derive(Debug, Clone, PartialEq, Eq)]
pub enum RuntimeSnapshot {
    Full(String),
    Diff(String),
}

/// A snapshot, by its contents.
pub enum SnapshotRef {
    Full(Seq<char>),
    Diff(Seq<char>),
}

impl View for RuntimeSnapshot {
    type V = SnapshotRef;

    open spec fn view(&self) -> SnapshotRef {
        match self {
            RuntimeSnapshot::Full(id) => SnapshotRef::Full(id@),
            RuntimeSnapshot::Diff(id) => SnapshotRef::Diff(id@),
        }
    }
}

impl SnapshotRef {
    pub open spec fn id(self) -> Seq<char> {
        match self {
            SnapshotRef::Full(id) => id,
            SnapshotRef::Diff(id) => id,
        }
    }
}

impl RuntimeSnapshot {
    /// The identifier.
    pub fn id(&self) -> (r: String)
        ensures
            r@ == self@.id(),
    {
        match self {
            RuntimeSnapshot::Full(id) => id.clone(),
            RuntimeSnapshot::Diff(id) => id.clone(),
        }
    }

    /// A copy.
    pub fn copy(&self) -> (r: RuntimeSnapshot)
        ensures
            r@ == self@,
    {
        match self {
            RuntimeSnapshot::Full(id) => RuntimeSnapshot::Full(id.clone()),
            RuntimeSnapshot::Diff(id) => RuntimeSnapshot::Diff(id.clone()),
        }
    }
}

/// The size of a page of linear memory.
pub const PAGE_BYTES: usize = 65_536;

/// How many pages hold this many bytes, as far as 32 bits can count.
pub open spec fn pages_for(byte_len: nat) -> nat {
    let pages = (byte_len + 65_535) / 65_536;
    if pages > u32::MAX {
        u32::MAX as nat
    } else {
        pages
    }
}

/// How many pages hold this many bytes.
pub fn wasm_pages_for_bytes(byte_len: usize) -> (r: u32)
    ensures
        r == pages_for(byte_len as nat),
{
    let whole: usize = byte_len / PAGE_BYTES;
    let pages: u64 = if byte_len % PAGE_BYTES == 0 {
        whole as u64
    } else {
        whole as u64 + 1
    };
    proof {
        assert(pages == (byte_len as nat + 65_535) / 65_536);
    }
    if pages > u32::MAX as u64 {
        u32::MAX
    } else {
        pages as u32
    }
}

/// The pages hold the bytes, and no fewer would, as long as they can be
/// counted.
pub proof fn lemma_pages_hold_bytes(byte_len: nat)
    requires
        byte_len <= u32::MAX * 65_536,
    ensures
        pages_for(byte_len) * 65_536 >= byte_len,
        pages_for(byte_len) > 0 ==> (pages_for(byte_len) - 1) * 65_536 < byte_len,
{
}

/// What the snapshot manager is asked for.
#[derive(Debug, Clone, PartialEq, Eq)]
pub enum SnapshotRequest {
    /// A full snapshot.
    Full,
    /// The differences to the snapshot of this identifier.
    DiffFrom(String),
}

/// What the snapshot manager has made.
#[derive(Debug, Clone, PartialEq, Eq)]
pub enum SnapshotMade {
    Full(String),
    Diff(String),
    /// A full snapshot in place of differences.
    Promoted(String),
}

/// The snapshot that can be looked at, and the one that the next execution
/// builds on.
#[derive(Debug, Clone, PartialEq, Eq)]
pub struct SnapshotSlots {
    pub current: Option<String>,
    pub latest: Option<RuntimeSnapshot>,
}

pub open spec fn latest_ref(s: SnapshotSlots) -> Option<SnapshotRef> {
    match s.latest {
        Some(l) => Some(l@),
        None => None,
    }
}

/// What was made, as a runtime snapshot.
pub open spec fn made_ref(m: SnapshotMade) -> SnapshotRef {
    match m {
        SnapshotMade::Full(id) => SnapshotRef::Full(id@),
        SnapshotMade::Promoted(id) => SnapshotRef::Full(id@),
        SnapshotMade::Diff(id) => SnapshotRef::Diff(id@),
    }
}

/// What is noted beside a captured memory.
#[derive(Debug, Clone, PartialEq, Eq)]
pub struct SnapshotMetadata {
    pub operation_name: String,
    /// The SHA-256 of the input, in hexadecimal.
    pub input_hash: String,
    pub memory_pages: u32,
    /// The capabilities that the tool required, as texts.
    pub preconditions: Vec<String>,
}

/// What is noted beside the memory that an execution captured.
pub fn snapshot_metadata(
    tool_name: &str,
    input: &[u8],
    memory_len: usize,
    preconditions: Vec<String>,
) -> (r: SnapshotMetadata)
    ensures
        r.operation_name@ == tool_name@,
        r.input_hash@ == text::hex_of(digest::sha256_of(input@)),
        r.memory_pages == pages_for(memory_len as nat),
        r.preconditions == preconditions,
{
    SnapshotMetadata {
        operation_name: tool_name.to_string(),
        input_hash: text::hex_lower(digest::sha256(input).as_slice()),
        memory_pages: wasm_pages_for_bytes(memory_len),
        preconditions,
    }
}

/// Whether `r` is what to ask the snapshot manager for.
pub open spec fn is_requested(
    slots: SnapshotSlots,
    strategy: SnapshotStrategy,
    r: SnapshotRequest,
) -> bool {
    match r {
        SnapshotRequest::Full => strategy == SnapshotStrategy::Full || slots.latest is None,
        SnapshotRequest::DiffFrom(id) => strategy == SnapshotStrategy::Differential && latest_ref(
            slots,
        ) is Some && id@ == latest_ref(slots)->0.id(),
    }
}

/// Whether `after` is what is remembered once `made` was made.
pub open spec fn is_recorded(
    before: SnapshotSlots,
    after: SnapshotSlots,
    made: SnapshotMade,
) -> bool {
    &&& latest_ref(after) == Some(made_ref(made))
    &&& text::opt_text(after.current) == (if made is Diff {
        text::opt_text(before.current)
    } else {
        Some(made_ref(made).id())
    })
}

impl SnapshotSlots {
    /// No snapshot yet.
    pub fn new() -> (r: Self)
        ensures
            r.current is None,
            r.latest is None,
    {
        SnapshotSlots { current: None, latest: None }
    }

    /// What to ask the snapshot manager for: differences only under the
    /// differential strategy, and only to a snapshot that is there.
    pub fn request(&self, strategy: SnapshotStrategy) -> (r: SnapshotRequest)
        ensures
            is_requested(*self, strategy, r),
    {
        match strategy {
            SnapshotStrategy::Full => SnapshotRequest::Full,
            SnapshotStrategy::Differential => match &self.latest {
                Some(l) => SnapshotRequest::DiffFrom(l.id()),
                None => SnapshotRequest::Full,
            },
        }
    }

    /// Takes note of a new snapshot. It is the latest one in any case, and the
    /// current one unless it holds only differences.
    pub fn record(&mut self, made: SnapshotMade) -> (r: RuntimeSnapshot)
        ensures
            r@ == made_ref(made),
            is_recorded(*old(self), *final(self), made),
    {
        let snapshot = match made {
            SnapshotMade::Full(id) => {
                self.current = Some(id.clone());
                RuntimeSnapshot::Full(id)
            },
            SnapshotMade::Promoted(id) => {
                self.current = Some(id.clone());
                RuntimeSnapshot::Full(id)
            },
            SnapshotMade::Diff(id) => RuntimeSnapshot::Diff(id),
        };
        self.latest = Some(snapshot.copy());
        snapshot
    }

    /// The identifier of the latest snapshot.
    pub fn latest_runtime_snapshot_id(&self) -> (r: Option<String>)
        ensures
            text::opt_text(r) == (match latest_ref(*self) {
                Some(s) => Some(s.id()),
                None => None,
            }),
    {
        match &self.latest {
            Some(l) => Some(l.id()),
            None => None,
        }
    }
}

/// Restores a snapshot that may be full or hold differences: `full` and `diff`
/// are what the two ways of restoring it returned. The first is preferred; if
/// both fail, both reasons are told.
pub fn rollback_snapshot<T>(
    snapshot_id: &str,
    full: Result<T, String>,
    diff: Result<T, String>,
) -> (r: Result<T, NexusError>)
    ensures
        match (full, diff) {
            (Ok(t), _) => r == Ok::<T, NexusError>(t),
            (Err(_), Ok(t)) => r == Ok::<T, NexusError>(t),
            (Err(a), Err(b)) => r is Err && r->Err_0@ == error::Fault::RollbackFailed(
                "snapshot "@ + snapshot_id@
                    + " was not restorable as a full or differential snapshot (full: "@ + a@
                    + "; diff: "@ + b@ + ")"@,
            ),
        },
{
    match full {
        Ok(t) => Ok(t),
        Err(a) => match diff {
            Ok(t) => Ok(t),
            Err(b) => {
                let head = text::cat5(
                    "snapshot ",
                    snapshot_id,
                    " was not restorable as a full or differential snapshot (full: ",
                    a.as_str(),
                    "; diff: ",
                );
                Err(NexusError::RollbackFailed(text::cat3(head.as_str(), b.as_str(), ")")))
            },
        },
    }
}

/// What is known of the current snapshot.
#[derive(Debug, Clone, PartialEq, Eq)]
pub struct SnapshotFacts {
    pub id: String,
    pub memory_checksum: String,
    pub original_size: usize,
    pub compressed_size: usize,
}

/// Whether `e` is the evidence for a snapshot, when `current` is the current
/// one: its checksum and sizes if it is that one, and nothing more than the
/// identifier if it is not.
pub open spec fn is_snapshot_evidence(
    e: SnapshotEvidence,
    current: Option<SnapshotFacts>,
    snapshot_id: Seq<char>,
) -> bool {
    &&& e.snapshot_id@ == snapshot_id
    &&& if current is Some && current->0.id@ == snapshot_id {
        &&& e.snapshot_kind == SnapshotKind::LatestRuntime
        &&& e.memory_digest.algorithm@ == "sha256"@
        &&& e.memory_digest.value@ == current->0.memory_checksum@
        &&& e.memory_digest.public_recomputable
        &&& e.original_size == current->0.original_size
        &&& e.compressed_size == current->0.compressed_size
    } else {
        &&& e.snapshot_kind == SnapshotKind::Diff
        &&& digest::is_redacted(e.memory_digest)
        &&& e.original_size == 0
        &&& e.compressed_size == 0
    }
}

/// The evidence for a snapshot.
pub fn snapshot_evidence(current: &Option<SnapshotFacts>, snapshot_id: &str) -> (r:
    SnapshotEvidence)
    ensures
        is_snapshot_evidence(r, *current, snapshot_id@),
{
    if let Some(s) = current {
        if text::same_text(s.id.as_str(), snapshot_id) {
            return SnapshotEvidence {
                snapshot_id: snapshot_id.to_string(),
                snapshot_kind: SnapshotKind::LatestRuntime,
                memory_digest: TypedDigest {
                    algorithm: "sha256".to_string(),
                    value: s.memory_checksum.clone(),
                    public_recomputable: true,
                },
                original_size: s.original_size as u64,
                compressed_size: s.compressed_size as u64,
            };
        }
    }
    SnapshotEvidence {
        snapshot_id: snapshot_id.to_string(),
        snapshot_kind: SnapshotKind::Diff,
        memory_digest: TypedDigest::redacted(),
        original_size: 0,
        compressed_size: 0,
    }
}

/// What was made is remembered as what it is: differences as differences, and
/// anything else as a full snapshot, under its own identifier.
pub proof fn lemma_made_snapshots_keep_their_kind(m: SnapshotMade, id: String)
    requires
        m == SnapshotMade::Full(id) || m == SnapshotMade::Diff(id) || m == SnapshotMade::Promoted(
            id,
        ),
    ensures
        made_ref(m) is Diff <==> m is Diff,
        made_ref(m).id() == id@,
{
}

/// Evidence of a snapshot is of that snapshot: the checksum and the sizes are
/// those of the current one only if that is the one asked for; of any other
/// nothing but the identifier is told.
pub proof fn lemma_evidence_is_of_the_snapshot_asked_for(
    e: SnapshotEvidence,
    current: Option<SnapshotFacts>,
    snapshot_id: Seq<char>,
)
    requires
        is_snapshot_evidence(e, current, snapshot_id),
    ensures
        e.snapshot_id@ == snapshot_id,
        e.snapshot_kind == SnapshotKind::LatestRuntime <==> current is Some && current->0.id@
            == snapshot_id,
        e.snapshot_kind == SnapshotKind::LatestRuntime || e.snapshot_kind == SnapshotKind::Diff,
        current is Some && current->0.id@ == snapshot_id ==> e.memory_digest.value@
            == current->0.memory_checksum@ && e.original_size == current->0.original_size
            && e.compressed_size == current->0.compressed_size && e.memory_digest.algorithm@
            == "sha256"@ && e.memory_digest.public_recomputable,
        current is None || current->0.id@ != snapshot_id ==> e.original_size == 0
            && e.compressed_size == 0 && !e.memory_digest.public_recomputable,
{
}

/// Differences are asked for exactly under the differential strategy and where
/// there is a snapshot to differ from; and then to the latest one.
pub proof fn lemma_differences_are_to_the_latest(
    slots: SnapshotSlots,
    strategy: SnapshotStrategy,
    r: SnapshotRequest,
)
    requires
        is_requested(slots, strategy, r),
    ensures
        r is DiffFrom <==> strategy == SnapshotStrategy::Differential && slots.latest is Some,
        r matches SnapshotRequest::DiffFrom(id) ==> (match slots.latest->0 {
            RuntimeSnapshot::Full(x) => id@ == x@,
            RuntimeSnapshot::Diff(x) => id@ == x@,
        }),
{
}

/// What was made last is the latest, of its own kind; the current one is the last
/// that is whole, so differences do not replace it, and one that took the place
/// of differences does.
pub proof fn lemma_last_made_is_latest(
    before: SnapshotSlots,
    after: SnapshotSlots,
    made: SnapshotMade,
)
    requires
        is_recorded(before, after, made),
    ensures
        after.latest is Some,
        made matches SnapshotMade::Full(id) ==> (after.latest->0 matches RuntimeSnapshot::Full(x)
            && x@ == id@) && after.current is Some && after.current->0@ == id@,
        made matches SnapshotMade::Promoted(id) ==> (after.latest->0 matches RuntimeSnapshot::Full(
            x,
        ) && x@ == id@) && after.current is Some && after.current->0@ == id@,
        made matches SnapshotMade::Diff(id) ==> (after.latest->0 matches RuntimeSnapshot::Diff(x)
            && x@ == id@) && text::opt_text(after.current) == text::opt_text(before.current),
{
}

} // verus!
