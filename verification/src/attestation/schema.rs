//! The data of an attestation capsule. Identifiers are held in their
//! hyphenated text form, and times in their RFC 3339 text form.

use vstd::prelude::*;

verus! {

/// A digest, with the algorithm that made it.
#[derive(Debug, Clone, PartialEq, Eq)]
pub struct TypedDigest {
    pub algorithm: String,
    pub value: String,
    /// Whether anyone who has the data can compute the digest again.
    pub public_recomputable: bool,
}

#[derive(Debug, Clone, Copy, PartialEq, Eq, Structural)]
pub enum DigestMode {
    Sha256Public,
    HmacSha256Private,
    RedactedNoDigest,
}

#[derive(Debug, Clone, Copy, PartialEq, Eq, Structural)]
pub enum SnapshotKind {
    LatestRuntime,
    EmptyBaseline,
    Diff,
}

/// Which run a capsule speaks of.
#[derive(Debug, Clone, PartialEq, Eq)]
pub struct ProofSubject {
    pub run_id: String,
    pub tool_name: String,
    pub started_at: String,
    pub finished_at: String,
    pub duration_ms: u64,
}

/// Which module ran.
#[derive(Debug, Clone, PartialEq, Eq)]
pub struct ToolIdentity {
    pub module_digest: TypedDigest,
    pub module_name: String,
    pub entrypoint: String,
}

/// What it ran on.
#[derive(Debug, Clone, PartialEq, Eq)]
pub struct InputIdentity {
    pub digest: TypedDigest,
    pub media_type: String,
    pub raw_included: bool,
}

#[derive(Debug, Clone, Copy, PartialEq, Eq, Structural)]
pub enum PolicyEnforcementMode {
    UnprofiledDev,
    ProfileValidatedOnly,
    ProfileLoadedMcp,
    ProfileEnforcedMcpCapabilitiesOnly,
    /// Reserved.
    ProfileEnforcedMcpToolAndCapability,
    /// Reserved.
    ProfileEnforcedRuntime,
}

/// Under which profile it ran.
#[derive(Debug, Clone, PartialEq, Eq)]
pub struct PolicyProfileRef {
    pub profile_digest: Option<TypedDigest>,
    pub profile_name: Option<String>,
    pub mode: PolicyEnforcementMode,
}

/// What it was allowed to do.
#[derive(Debug, Clone, PartialEq, Eq)]
pub struct CapabilityEvidence {
    pub required: Vec<String>,
    pub granted: Vec<String>,
    pub mismatch: Option<Vec<String>>,
    pub negotiation_rounds: Option<u32>,
}

/// From which snapshot it could be restored.
#[derive(Debug, Clone, PartialEq, Eq)]
pub struct SnapshotEvidence {
    pub snapshot_id: String,
    pub snapshot_kind: SnapshotKind,
    pub memory_digest: TypedDigest,
    pub original_size: u64,
    pub compressed_size: u64,
}

/// How it failed.
#[derive(Debug, Clone, PartialEq, Eq)]
pub struct FailureEvidence {
    pub failure_category: String,
    pub requires_rollback: bool,
    pub deterministic: Option<bool>,
    pub error_summary: String,
}

/// Whether state was restored.
#[derive(Debug, Clone, PartialEq, Eq)]
pub struct RollbackEvidence {
    pub occurred: bool,
    pub from_snapshot_id: Option<String>,
    pub reason: Option<String>,
}

/// Which branch of a race won.
#[derive(Debug, Clone, PartialEq, Eq)]
pub struct BranchRaceEvidence {
    pub source_snapshot_id: Option<String>,
    pub winner_branch_id: String,
    pub branches_tried: u32,
    pub branches_succeeded: u32,
}

/// Which fields were redacted, and how.
#[derive(Debug, Clone, PartialEq, Eq)]
pub struct RedactionReport {
    pub hashed_fields: Vec<String>,
    pub truncated_fields: Vec<String>,
    pub removed_fields: Vec<String>,
    pub hmac_fields: Vec<String>,
}

/// Whether memory was consulted, and with what result.
#[derive(Debug, Clone, Copy, PartialEq, Eq, Structural)]
pub enum MemoryAttestationMode {
    /// Memory was not configured or not consulted.
    Advisory,
    /// Memory was consulted, and the evidence is attested.
    Attested,
    /// Attested, and nothing was found.
    AttestedNoHit,
    /// Attested, and something was found.
    AttestedWithRecall,
    /// Memory was consulted, but the evidence could not be attested in full.
    Degraded,
    /// There is no memory service, or no key for it.
    Absent,
}

impl Default for MemoryAttestationMode {
    fn default() -> (r: Self)
        ensures
            r == MemoryAttestationMode::Advisory,
    {
        MemoryAttestationMode::Advisory
    }
}

/// A reference to memory evidence: its digest, and the whole of it in its
/// canonical JSON form.
#[derive(Debug, Clone, PartialEq, Eq)]
pub struct MemoryEvidenceRef {
    pub digest_value: String,
    pub json: String,
}

/// A signature over the canonical form of a capsule.
#[derive(Debug, Clone, PartialEq, Eq)]
pub struct SignatureEnvelope {
    pub signer: String,
    pub key_id: String,
    pub signature: String,
    pub signed_payload_digest: TypedDigest,
}

/// An attestation of one run.
#[derive(Debug, Clone, PartialEq, Eq)]
pub struct ProofCapsule {
    pub version: String,
    pub capsule_id: String,
    pub subject: ProofSubject,
    pub tool: ToolIdentity,
    pub input: InputIdentity,
    pub policy: PolicyProfileRef,
    pub capabilities: CapabilityEvidence,
    pub snapshot: Option<SnapshotEvidence>,
    pub failure: Option<FailureEvidence>,
    pub rollback: Option<RollbackEvidence>,
    pub branches: Option<BranchRaceEvidence>,
    pub redaction: RedactionReport,
    pub limitations: Vec<String>,
    pub memory_evidence: Option<MemoryEvidenceRef>,
    pub memory_mode: Option<MemoryAttestationMode>,
    pub signature: Option<SignatureEnvelope>,
}

/// A capsule at a glance.
#[derive(Debug, Clone, PartialEq, Eq)]
pub struct ProofScorecard {
    pub capsule_id: String,
    pub version: String,
    pub has_signature: bool,
    pub has_failure: bool,
    pub has_rollback: bool,
    pub redaction_count: usize,
    pub limitations_count: usize,
    pub scorecard_pass: bool,
}

} // verus!
