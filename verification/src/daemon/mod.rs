//! The daemon: what it is asked, what it answers, and how both travel.

use crate::aeon::timeline::TimelineDeliveryStatus;
use crate::attestation::schema::{MemoryEvidenceRef, ProofCapsule};
use crate::hypervisor::tool::ToolOutput;
use crate::paths;
use crate::security::Capability;
use vstd::prelude::*;
use vstd::string::*;

pub mod agentd;
pub mod pool;
pub mod protocol;

verus! {

/// A request. Inputs are held as JSON text.
#[derive(Debug, Clone, PartialEq, Eq)]
pub enum DaemonRequest {
    /// Is the daemon there?
    Ping,
    /// Run a module. Where both the bytes and a path are given, the bytes count.
    Execute {
        name: String,
        wasm_bytes: Option<Vec<u8>>,
        wasm_path: Option<String>,
        entry: String,
        input: String,
        auth_token: Option<String>,
        aeon: DaemonAeonExecuteOptions,
    },
    /// Stop.
    Shutdown { auth_token: Option<String> },
}

/// What a request may say of memory and attestation. Caller capabilities are
/// held as JSON text.
#[derive(Debug, Clone, PartialEq, Eq)]
pub struct DaemonAeonExecuteOptions {
    pub aeon_agent_id: Option<String>,
    pub aeon_session_id: Option<String>,
    pub aeon_memory_evidence_digest: Option<String>,
    pub required_capabilities: Option<Vec<Capability>>,
    pub emit_proof: bool,
    pub caller_capabilities: Option<Vec<String>>,
    pub attestation_mode: Option<String>,
}

impl Default for DaemonAeonExecuteOptions {
    fn default() -> (r: Self)
        ensures
            r == (DaemonAeonExecuteOptions {
                aeon_agent_id: None,
                aeon_session_id: None,
                aeon_memory_evidence_digest: None,
                required_capabilities: None,
                emit_proof: false,
                caller_capabilities: None,
                attestation_mode: None,
            }),
    {
        DaemonAeonExecuteOptions {
            aeon_agent_id: None,
            aeon_session_id: None,
            aeon_memory_evidence_digest: None,
            required_capabilities: None,
            emit_proof: false,
            caller_capabilities: None,
            attestation_mode: None,
        }
    }
}

/// The entry point of a request that names none.
pub fn default_entry() -> (r: String)
    ensures
        r@ == "_start"@,
{
    "_start".to_string()
}

/// Something worth telling the memory service about an execution.
#[derive(Debug, Clone, PartialEq, Eq)]
pub enum NexusExecutionEvent {
    CapabilityDenied { denied_category: String },
    SnapshotCreated { snapshot_id: String },
    ProofCapsuleEmitted { capsule_id: String },
}

/// What an attested execution says of its evidence.
#[derive(Debug, Clone, PartialEq, Eq)]
pub struct DaemonNexusIqEvidence {
    pub proof_capsule: Option<ProofCapsule>,
    pub proof_capsule_ref: Option<String>,
    pub memory_evidence_ref: Option<MemoryEvidenceRef>,
    pub timeline_delivery_status: Option<TimelineDeliveryStatus>,
    pub denial_negotiation: Option<DaemonDenialNegotiation>,
}

/// Whether a denial was negotiated, and in how many rounds.
#[derive(Debug, Clone, Copy, PartialEq, Eq)]
pub struct DaemonDenialNegotiation {
    pub negotiated: bool,
    pub rounds: Option<u32>,
}

/// A response.
#[derive(Debug, Clone, PartialEq, Eq)]
pub enum DaemonResponse {
    Pong { version: String },
    Executed {
        output: ToolOutput,
        events: Vec<NexusExecutionEvent>,
        nexusiq: Option<DaemonNexusIqEvidence>,
    },
    Error {
        message: String,
        events: Vec<NexusExecutionEvent>,
        nexusiq: Option<DaemonNexusIqEvidence>,
    },
}

/// The name of the daemon's pipe.
pub const PIPE_NAME: &'static str = "\\\\.\\pipe\\nexus-agentd";

/// Where the daemon listens. `chosen` is what `NEXUS_AGENTD_SOCKET` says, and
/// `runtime_dir` what `XDG_RUNTIME_DIR` says; an empty one counts for nothing.
pub open spec fn socket_path(
    chosen: Option<Seq<char>>,
    pipes: bool,
    runtime_dir: Option<Seq<char>>,
) -> Seq<char> {
    match chosen {
        Some(p) => p,
        None => if pipes {
            PIPE_NAME@
        } else {
            paths::joined_path(
                match runtime_dir {
                    Some(d) if d.len() > 0 => d,
                    _ => "/tmp"@,
                },
                "nexus-agentd.sock"@,
            )
        },
    }
}

/// The view of an optional text slice.
pub open spec fn slice_text(o: Option<&str>) -> Option<Seq<char>> {
    match o {
        Some(t) => Some(t@),
        None => None,
    }
}

/// Where the daemon listens.
pub fn default_socket_path(
    chosen: Option<&str>,
    pipes: bool,
    runtime_dir: Option<&str>,
) -> (r: String)
    ensures
        r@ == socket_path(slice_text(chosen), pipes, slice_text(runtime_dir)),
{
    match chosen {
        Some(p) => p.to_string(),
        None => if pipes {
            PIPE_NAME.to_string()
        } else {
            let dir: &str = match runtime_dir {
                Some(d) => if d.is_empty() {
                    "/tmp"
                } else {
                    d
                },
                None => "/tmp",
            };
            paths::join_path(dir, "nexus-agentd.sock")
        },
    }
}

/// Bytes in the standard base64 alphabet, padded.
pub uninterp spec fn base64_of(b: Seq<u8>) -> Seq<char>;

/// The bytes that a base64 text stands for, or what is wrong with the text.
pub uninterp spec fn base64_reading(s: Seq<char>) -> Result<Seq<u8>, Seq<char>>;

/// `base64::engine::general_purpose::STANDARD.encode`: the text depends on the
/// bytes alone.
#[verifier::external_body]
pub(crate) fn base64_encode(b: &[u8]) -> (r: String)
    ensures
        r@ == base64_of(b@),
{
    base64::Engine::encode(&base64::engine::general_purpose::STANDARD, b)
}

/// What a base64 reading comes to.
pub open spec fn bytes_reading(r: Result<Vec<u8>, String>) -> Result<Seq<u8>, Seq<char>> {
    match r {
        Ok(b) => Ok(b@),
        Err(e) => Err(e@),
    }
}

/// `base64::engine::general_purpose::STANDARD.decode`, with the error as text:
/// both depend on the text alone, and what was encoded is decoded again.
#[verifier::external_body]
pub(crate) fn base64_decode(s: &str) -> (r: Result<Vec<u8>, String>)
    ensures
        bytes_reading(r) == base64_reading(s@),
        forall|b: Seq<u8>| #[trigger] base64_of(b) == s@ ==> r is Ok && r->Ok_0@ == b,
{
    base64::Engine::decode(&base64::engine::general_purpose::STANDARD, s).map_err(|e| e.to_string())
}

/// A module as a request carries it.
pub fn module_to_text(bytes: &Option<Vec<u8>>) -> (r: Option<String>)
    ensures
        r is Some <==> bytes is Some,
        r is Some ==> r->0@ == base64_of(bytes->0@),
{
    match bytes {
        Some(b) => Some(base64_encode(b.as_slice())),
        None => None,
    }
}

/// The module that a request carries. What was written is read back.
pub fn module_from_text(field: &Option<String>) -> (r: Result<Option<Vec<u8>>, String>)
    ensures
        field is None ==> r == Ok::<Option<Vec<u8>>, String>(None),
        field is Some ==> match r {
            Ok(b) => b is Some && base64_reading(field->0@) == Ok::<Seq<u8>, Seq<char>>(b->0@),
            Err(e) => base64_reading(field->0@) == Err::<Seq<u8>, Seq<char>>(e@),
        },
        field is Some ==> forall|b: Seq<u8>| #[trigger]
            base64_of(b) == field->0@ ==> r is Ok && r->Ok_0 is Some && r->Ok_0->0@ == b,
{
    match field {
        Some(t) => match base64_decode(t.as_str()) {
            Ok(b) => Ok(Some(b)),
            Err(e) => Err(e),
        },
        None => Ok(None),
    }
}

/// The socket that was chosen is taken as it is; otherwise there is one for each
/// directory of a user's own, and an empty one counts as none.
pub proof fn lemma_sockets_are_chosen(
    chosen: Seq<char>,
    pipes: bool,
    runtime_dir: Option<Seq<char>>,
    dir: Seq<char>,
)
    requires
        dir.len() > 0,
    ensures
        socket_path(Some(chosen), pipes, runtime_dir) == chosen,
        socket_path(None, false, Some(dir)) == paths::joined_path(dir, "nexus-agentd.sock"@),
        socket_path(None, false, None) == socket_path(None, false, Some("/tmp"@)),
        socket_path(None, false, Some(Seq::empty())) == socket_path(None, false, None),
        socket_path(None, true, runtime_dir) == PIPE_NAME@,
{
    reveal_strlit("/tmp");
    assert("/tmp"@.len() == 4);
}

} // verus!
