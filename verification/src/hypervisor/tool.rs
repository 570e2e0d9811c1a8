//! What is executed, and what comes out.

use crate::hypervisor::validator::error_log::ErrorLog;
use crate::security::Capability;
use vstd::prelude::*;
use vstd::string::*;

verus! {

/// A tool: a module, its entry point and what it needs.
#[derive(Debug, Clone, PartialEq, Eq)]
pub struct ToolDefinition {
    pub name: String,
    pub wasm_bytes: Vec<u8>,
    pub entry_point: String,
    /// The schema of the input, as JSON.
    pub input_schema: String,
    pub required_capabilities: Vec<Capability>,
    pub aeon_agent_id: Option<String>,
    pub aeon_session_id: Option<String>,
    /// The digest of the memory evidence that goes into a capsule.
    pub aeon_memory_evidence_digest: Option<String>,
}

impl ToolDefinition {
    /// A tool that starts at `_start` and needs nothing.
    pub fn new(name: String, wasm_bytes: Vec<u8>) -> (r: Self)
        ensures
            r.name == name,
            r.wasm_bytes == wasm_bytes,
            r.entry_point@ == "_start"@,
            r.input_schema@ == "{}"@,
            r.required_capabilities@.len() == 0,
            r.aeon_agent_id is None,
            r.aeon_session_id is None,
            r.aeon_memory_evidence_digest is None,
    {
        ToolDefinition {
            name,
            wasm_bytes,
            entry_point: "_start".to_string(),
            input_schema: "{}".to_string(),
            required_capabilities: Vec::new(),
            aeon_agent_id: None,
            aeon_session_id: None,
            aeon_memory_evidence_digest: None,
        }
    }

    /// The tool with this entry point.
    pub fn with_entry(self, entry: &str) -> (r: Self)
        ensures
            r == (ToolDefinition { entry_point: r.entry_point, ..self }),
            r.entry_point@ == entry@,
    {
        let mut tool = self;
        tool.entry_point = entry.to_string();
        tool
    }

    /// The tool with these required capabilities.
    pub fn with_capabilities(self, caps: Vec<Capability>) -> (r: Self)
        ensures
            r == (ToolDefinition { required_capabilities: caps, ..self }),
    {
        let mut tool = self;
        tool.required_capabilities = caps;
        tool
    }

    /// The tool with this agent and session.
    pub fn with_aeon_context(self, agent_id: Option<String>, session_id: Option<String>) -> (r:
        Self)
        ensures
            r == (ToolDefinition { aeon_agent_id: agent_id, aeon_session_id: session_id, ..self }),
    {
        let mut tool = self;
        tool.aeon_agent_id = agent_id;
        tool.aeon_session_id = session_id;
        tool
    }

    /// The tool with this digest of memory evidence, which its capsules hold.
    pub fn with_aeon_memory_evidence_digest(self, digest: Option<String>) -> (r: Self)
        ensures
            r == (ToolDefinition { aeon_memory_evidence_digest: digest, ..self }),
    {
        let mut tool = self;
        tool.aeon_memory_evidence_digest = digest;
        tool
    }
}

/// What an execution returns.
#[derive(Debug, Clone, PartialEq, Eq)]
pub struct ToolOutput {
    pub success: bool,
    pub result: Option<Vec<u8>>,
    pub error: Option<String>,
    pub rollback_performed: bool,
    pub execution_time_ms: u64,
    pub fuel_consumed: u64,
    pub error_log: Option<ErrorLog>,
    /// The snapshot that was captured for this execution.
    pub snapshot_id: Option<String>,
}

} // verus!
