//! What the tools are called with. Inputs are held as JSON text.

use vstd::prelude::*;

verus! {

#[derive(Debug, Clone, PartialEq, Eq)]
pub struct ExecuteParams {
    pub wasm_path: String,
    pub entry: Option<String>,
    pub input: Option<String>,
}

#[derive(Debug, Clone, PartialEq, Eq)]
pub struct ExecuteRetryParams {
    pub wasm_path: String,
    pub entry: Option<String>,
    pub input: Option<String>,
}

#[derive(Debug, Clone, PartialEq, Eq)]
pub struct ExecuteProofParams {
    pub wasm_path: String,
    pub input: Option<String>,
    pub aeon_agent_id: Option<String>,
    pub aeon_session_id: Option<String>,
}

#[derive(Debug, Clone, PartialEq, Eq)]
pub struct ExecuteWasiParams {
    pub wasm_path: String,
    pub entry: Option<String>,
    pub input: Option<String>,
    pub capabilities: Option<Vec<CapabilitySpec>>,
    pub parent_token_id: Option<String>,
}

/// A capability as a caller writes it: its type, and the path or the pattern
/// that it speaks of.
#[derive(Debug, Clone, PartialEq, Eq)]
pub struct CapabilitySpec {
    pub kind: String,
    pub path: Option<String>,
}

#[derive(Debug, Clone, PartialEq, Eq)]
pub struct SnapshotCreateParams {
    pub label: Option<String>,
    pub source: Option<String>,
}

#[derive(Debug, Clone, PartialEq, Eq)]
pub struct SnapshotRollbackParams {
    pub snapshot_id: String,
    pub include_restored_state: Option<bool>,
    pub caller_capabilities: Option<Vec<CapabilitySpec>>,
    pub parent_token_id: Option<String>,
    pub expected_digest: Option<String>,
}

#[derive(Debug, Clone, PartialEq, Eq)]
pub struct IssueTokenParams {
    pub capability: String,
    pub path: Option<String>,
    pub validity_secs: Option<u64>,
}

#[derive(Debug, Clone, PartialEq, Eq)]
pub struct AttenuateTokenParams {
    pub parent_token_id: String,
    pub capability: String,
    pub path: Option<String>,
    pub validity_secs: Option<u64>,
}

#[derive(Debug, Clone, PartialEq, Eq)]
pub struct ForkAndRaceParams {
    pub wasm_path: String,
    pub base_snapshot_id: Option<String>,
    pub source: Option<String>,
    pub branches: Vec<BranchSpec>,
    pub strategy: Option<String>,
}

#[derive(Debug, Clone, PartialEq, Eq)]
pub struct BranchSpec {
    pub entry: Option<String>,
    pub input: Option<String>,
}

#[derive(Debug, Clone, Copy, PartialEq, Eq)]
pub struct InstinctStatsParams {}

#[derive(Debug, Clone, PartialEq, Eq)]
pub struct InstinctQueryParams {
    pub failure_category: String,
    pub operation: String,
}

#[derive(Debug, Clone, PartialEq, Eq)]
pub struct InstinctRegisterParams {
    pub failure_category: String,
    pub operation_pattern: String,
    pub recovery_description: String,
}

#[derive(Debug, Clone, PartialEq, Eq)]
pub struct InstinctRecordOutcomeParams {
    pub instinct_id: String,
    pub success: bool,
}

#[derive(Debug, Clone, Copy, PartialEq, Eq)]
pub struct InstinctExportParams {}

#[derive(Debug, Clone, PartialEq, Eq)]
pub struct InstinctImportParams {
    pub json: String,
}

#[derive(Debug, Clone, Copy, PartialEq, Eq)]
pub struct GetHistoryParams {
    pub limit: Option<u64>,
}

#[derive(Debug, Clone, Copy, PartialEq, Eq)]
pub struct GetStatsParams {}

#[derive(Debug, Clone, PartialEq, Eq)]
pub struct AeonTimelineExecuteParams {
    pub wasm_path: String,
    pub entry: Option<String>,
    pub input: Option<String>,
    pub capabilities: Option<Vec<CapabilitySpec>>,
    pub caller_capabilities: Option<Vec<CapabilitySpec>>,
    pub parent_token_id: Option<String>,
    pub aeon_agent_id: Option<String>,
    pub aeon_session_id: Option<String>,
}

#[derive(Debug, Clone, PartialEq, Eq)]
pub struct NexusIqExecuteParams {
    pub tool_name: String,
    /// The module, in base64.
    pub tool_wasm: String,
    pub input: String,
    pub aeon_agent_id: String,
    pub aeon_session_id: Option<String>,
    pub attestation_mode: Option<String>,
    pub required_capabilities: Option<Vec<String>>,
    pub memory_query: Option<String>,
    pub memory_limit: Option<usize>,
}

} // verus!
