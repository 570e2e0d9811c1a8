//! What is written down while a tool runs, from which a capsule is made.

use crate::attestation::schema::{
    BranchRaceEvidence, PolicyEnforcementMode, ProofScorecard, SnapshotEvidence, TypedDigest,
};
use vstd::prelude::*;

verus! {

/// A failure, as far as a receipt keeps it.
#[derive(Debug, Clone, PartialEq, Eq)]
pub struct FailureModeLite {
    pub category: String,
    pub requires_rollback: bool,
    pub is_deterministic: Option<bool>,
}

#[derive(Debug, Clone, PartialEq, Eq)]
pub struct ActiveCapabilityProfile {
    pub manifest_name: String,
    pub source_digest: TypedDigest,
    pub source_path_redacted: Option<String>,
}

/// How a reply refers to a capsule.
#[derive(Debug, Clone, PartialEq, Eq)]
pub struct McpProofReference {
    pub capsule_digest: TypedDigest,
    pub artifact_id: Option<String>,
    pub inline_summary: ProofScorecard,
}

/// Where the HMAC key for redaction comes from. `FromEnv` holds the name of an
/// environment variable, not its value.
#[derive(Debug, Clone, PartialEq, Eq)]
pub enum ProofHmacKey {
    Disabled,
    FromEnv(String),
    EphemeralTestOnly,
}

#[derive(Debug, Clone, Copy, PartialEq, Eq, Structural)]
pub enum ProofCaptureMode {
    Disabled,
    ReceiptOnly,
}

/// What is known of one run. Identifiers and times are held in their text form.
#[derive(Debug, Clone, PartialEq, Eq)]
pub struct ExecutionReceipt {
    pub run_id: String,
    pub started_at: String,
    pub finished_at: String,
    pub tool_name: String,
    pub entrypoint: String,
    pub module_sha256: String,
    pub input_sha256: String,
    pub input_bytes_len: usize,
    pub required_caps: Vec<String>,
    pub granted_caps: Vec<String>,
    pub policy_mode: PolicyEnforcementMode,
    /// Name and SHA-256 of the profile.
    pub profile: Option<(String, String)>,
    pub snapshot: Option<SnapshotEvidence>,
    pub failure: Option<FailureModeLite>,
    /// Whether state was restored, from which snapshot, and why.
    pub rollback: Option<(bool, String, String)>,
    pub branches: Option<BranchRaceEvidence>,
    pub aeon_agent_id: Option<String>,
    pub aeon_session_id: Option<String>,
    pub negotiation_rounds: Option<u32>,
    pub aeon_memory_evidence_digest: Option<String>,
}

} // verus!
