//! The tools that run modules: what they run, and what they answer.

use crate::attestation::canonical;
use crate::attestation::digest;
use crate::attestation::receipt::McpProofReference;
use crate::attestation::schema::{MemoryEvidenceRef, ProofCapsule, ProofScorecard};
use crate::attestation::scorecard;
use crate::daemon;
use crate::daemon::{base64_encode, NexusExecutionEvent};
use crate::error::NexusError;
use crate::hypervisor::speculative::{SelectionStrategy, SpeculativeConfig};
use crate::hypervisor::tool::{ToolDefinition, ToolOutput};
use crate::mcp::capability;
use crate::mcp::error;
use crate::mcp::error::{DenialReason, ToolError};
use crate::mcp::gate;
use crate::mcp::gate::ToolGate;
use crate::mcp::params::{
    BranchSpec, CapabilitySpec, ExecuteParams, ExecuteProofParams, ExecuteRetryParams,
    ExecuteWasiParams, ForkAndRaceParams, GetHistoryParams,
};
use crate::profile;
use crate::security;
use crate::security::{Cap, Capability};
use crate::text;
use vstd::prelude::*;
use vstd::string::*;

verus! {

/// What came of a request for a module.
#[derive(Debug, Clone, PartialEq, Eq)]
pub enum ModuleFound {
    /// Its path was refused.
    Refused(NexusError),
    /// It could not be read.
    Unreadable,
    Bytes(Vec<u8>),
}

/// A tool and its input, ready to be run.
#[derive(Debug, Clone, PartialEq, Eq)]
pub struct Prepared {
    pub tool: ToolDefinition,
    pub input: String,
}

/// The input that is given, or an empty object.
pub open spec fn input_or(input: Option<Seq<char>>) -> Seq<char> {
    match input {
        Some(t) => t,
        None => "{}"@,
    }
}

fn input_text(input: &Option<String>) -> (r: String)
    ensures
        r@ == input_or(text::opt_text(*input)),
{
    match input {
        Some(t) => t.clone(),
        None => "{}".to_string(),
    }
}

/// The entry point that is given, or `_start`.
pub open spec fn entry_or(entry: Option<Seq<char>>) -> Seq<char> {
    match entry {
        Some(t) => t,
        None => "_start"@,
    }
}

/// A tool with these parts.
pub open spec fn is_tool(
    t: ToolDefinition,
    name: Seq<char>,
    bytes: Seq<u8>,
    entry: Seq<char>,
    caps: Seq<Cap>,
    agent: Option<Seq<char>>,
    session: Option<Seq<char>>,
    digest: Option<Seq<char>>,
) -> bool {
    &&& t.name@ == name
    &&& t.wasm_bytes@ == bytes
    &&& t.entry_point@ == entry
    &&& security::caps(t.required_capabilities@) == caps
    &&& text::opt_text(t.aeon_agent_id) == agent
    &&& text::opt_text(t.aeon_session_id) == session
    &&& text::opt_text(t.aeon_memory_evidence_digest) == digest
}

/// Why a module cannot be run, if it cannot.
pub open spec fn module_fault(found: ModuleFound) -> Option<error::Why> {
    match found {
        ModuleFound::Refused(e) => Some(error::Why::Nexus(e@)),
        ModuleFound::Unreadable => Some(
            error::Why::Other(error::safe_text(DenialReason::WasmPathInaccessible)),
        ),
        ModuleFound::Bytes(_) => None,
    }
}

pub(crate) fn module_bytes(found: ModuleFound) -> (r: Result<Vec<u8>, ToolError>)
    ensures
        match r {
            Ok(b) => module_fault(found) is None && found == ModuleFound::Bytes(b),
            Err(e) => module_fault(found) == Some(e@),
        },
{
    match found {
        ModuleFound::Refused(e) => Err(ToolError::Nexus(e)),
        ModuleFound::Unreadable => Err(
            ToolError::Other(DenialReason::WasmPathInaccessible.safe_message().to_string()),
        ),
        ModuleFound::Bytes(b) => Ok(b),
    }
}

fn plain_tool(name: &str, bytes: Vec<u8>, entry: &Option<String>) -> (r: ToolDefinition)
    ensures
        is_tool(
            r,
            name@,
            bytes@,
            entry_or(text::opt_text(*entry)),
            Seq::empty(),
            None,
            None,
            None,
        ),
{
    let tool = ToolDefinition::new(name.to_string(), bytes);
    let made = match entry {
        Some(e) => tool.with_entry(e.as_str()),
        None => tool,
    };
    assert(security::caps(made.required_capabilities@) =~= Seq::<Cap>::empty());
    made
}

/// Why a tool is not run, if it is not: it may not be called, or its module
/// cannot be run.
pub open spec fn run_refusal(refused: Option<error::Why>, found: ModuleFound) -> Option<
    error::Why,
> {
    match refused {
        Some(e) => Some(e),
        None => module_fault(found),
    }
}

/// The refusal of a tool that the lists do not permit.
pub open spec fn refused(tools: ToolGate, tool: Seq<char>) -> Option<error::Why> {
    gate::tool_refusal(
        profile::opt_texts(tools.forced_tool_allowlist),
        gate::profile_list(tools.policy),
        tool,
    )
}

/// The first of two refusals.
pub open spec fn first_refusal(a: Option<error::Why>, b: Option<error::Why>) -> Option<
    error::Why,
> {
    match a {
        Some(e) => Some(e),
        None => b,
    }
}

/// What is run of a module: its bytes under a name, from the entry point and on
/// the input that were asked for, with no capabilities.
pub open spec fn prepared_plain(
    r: Result<Prepared, ToolError>,
    refusal: Option<error::Why>,
    found: ModuleFound,
    name: Seq<char>,
    entry: Option<Seq<char>>,
    input: Option<Seq<char>>,
) -> bool {
    match r {
        Ok(p) => {
            &&& refusal is None
            &&& found is Bytes
            &&& is_tool(
                p.tool,
                name,
                found->Bytes_0@,
                entry_or(entry),
                Seq::empty(),
                None,
                None,
                None,
            )
            &&& p.input@ == input_or(input)
        },
        Err(e) => refusal == Some(e@),
    }
}

/// What is run when a module is executed.
pub fn do_execute(tools: &ToolGate, params: &ExecuteParams, found: ModuleFound) -> (r: Result<
    Prepared,
    ToolError,
>)
    ensures
        prepared_plain(
            r,
            run_refusal(refused(*tools, "nexus_execute"@), found),
            found,
            "mcp_tool"@,
            text::opt_text(params.entry),
            text::opt_text(params.input),
        ),
{
    match tools.ensure_tool_allowed("nexus_execute") {
        Ok(_) => {},
        Err(e) => {
            return Err(e);
        },
    }
    match module_bytes(found) {
        Err(e) => Err(e),
        Ok(b) => Ok(
            Prepared {
                tool: plain_tool("mcp_tool", b, &params.entry),
                input: input_text(&params.input),
            },
        ),
    }
}

/// What is run when a module is executed with retries.
pub fn do_execute_retry(tools: &ToolGate, params: &ExecuteRetryParams, found: ModuleFound) -> (r:
    Result<Prepared, ToolError>)
    ensures
        prepared_plain(
            r,
            run_refusal(refused(*tools, "nexus_execute_retry"@), found),
            found,
            "mcp_tool"@,
            text::opt_text(params.entry),
            text::opt_text(params.input),
        ),
{
    match tools.ensure_tool_allowed("nexus_execute_retry") {
        Ok(_) => {},
        Err(e) => {
            return Err(e);
        },
    }
    match module_bytes(found) {
        Err(e) => Err(e),
        Ok(b) => Ok(
            Prepared {
                tool: plain_tool("mcp_tool", b, &params.entry),
                input: input_text(&params.input),
            },
        ),
    }
}

/// The refusal of the attesting tools, by the lists or by the profile.
pub open spec fn proof_refused(tools: ToolGate, tool: Seq<char>) -> Option<error::Why> {
    first_refusal(
        refused(tools, tool),
        gate::group_refusal(
            tools.policy is None || tools.policy->0.proof_enabled,
            "nexus_execute_proof is disabled by the active profile"@,
        ),
    )
}

pub(crate) fn ensure_proof_tool(tools: &ToolGate, tool: &str) -> (r: Result<(), ToolError>)
    ensures
        gate::refusal(r) == proof_refused(*tools, tool@),
{
    match tools.ensure_tool_allowed(tool) {
        Ok(_) => tools.ensure_proof_enabled(),
        Err(e) => Err(e),
    }
}

/// Whether `r` is what is run when an execution is attested.
pub open spec fn is_proof_job(
    r: Result<Prepared, ToolError>,
    tools: ToolGate,
    params: ExecuteProofParams,
    found: ModuleFound,
) -> bool {
    match r {
        Ok(p) => {
            &&& run_refusal(proof_refused(tools, "nexus_execute_proof"@), found) is None
            &&& found is Bytes
            &&& is_tool(
                p.tool,
                "mcp_tool_proof"@,
                found->Bytes_0@,
                "_start"@,
                Seq::empty(),
                text::opt_text(params.aeon_agent_id),
                text::opt_text(params.aeon_session_id),
                None,
            )
            &&& p.input@ == input_or(text::opt_text(params.input))
        },
        Err(e) => run_refusal(proof_refused(tools, "nexus_execute_proof"@), found) == Some(e@),
    }
}

/// What is run when an execution is attested.
pub fn do_execute_proof(tools: &ToolGate, params: &ExecuteProofParams, found: ModuleFound) -> (r:
    Result<Prepared, ToolError>)
    ensures
        is_proof_job(r, *tools, *params, found),
{
    match ensure_proof_tool(tools, "nexus_execute_proof") {
        Ok(_) => {},
        Err(e) => {
            return Err(e);
        },
    }
    match module_bytes(found) {
        Err(e) => Err(e),
        Ok(b) => {
            let tool = ToolDefinition::new("mcp_tool_proof".to_string(), b).with_aeon_context(
                text::clone_opt(&params.aeon_agent_id),
                text::clone_opt(&params.aeon_session_id),
            );
            assert(security::caps(tool.required_capabilities@) =~= Seq::<Cap>::empty());
            Ok(Prepared { tool, input: input_text(&params.input) })
        },
    }
}

/// The capabilities that are given, or none.
pub open spec fn specs_or(o: Option<Vec<CapabilitySpec>>) -> Seq<CapabilitySpec> {
    match o {
        Some(v) => v@,
        None => Seq::empty(),
    }
}

/// Reads the capabilities that are given.
pub(crate) fn read_specs(o: &Option<Vec<CapabilitySpec>>) -> (r: Result<Vec<Capability>, ToolError>)
    ensures
        match r {
            Ok(v) => capability::capabilities_from_specs(specs_or(*o)) == Ok::<Seq<Cap>, Seq<char>>(
                security::caps(v@),
            ),
            Err(e) => {
                &&& capability::capabilities_from_specs(specs_or(*o)) is Err
                &&& e@ == error::Why::Other(
                    capability::capabilities_from_specs(specs_or(*o))->Err_0,
                )
            },
        },
{
    match o {
        None => {
            let none: Vec<Capability> = Vec::new();
            assert(security::caps(none@) =~= Seq::<Cap>::empty());
            Ok(none)
        },
        Some(v) => match capability::parse_capabilities(v) {
            Ok(c) => Ok(c),
            Err(e) => Err(ToolError::Other(e)),
        },
    }
}

/// The refusal of the tool with system access.
pub open spec fn wasi_refused(tools: ToolGate) -> Option<error::Why> {
    first_refusal(
        refused(tools, "nexus_execute_wasi"@),
        gate::group_refusal(
            tools.policy is None || tools.policy->0.wasi_enabled,
            "nexus_execute_wasi is disabled by the active profile"@,
        ),
    )
}

/// Whether `r` is what a reading of a request with system access came to.
pub open spec fn is_wasi_job(
    r: Result<Prepared, ToolError>,
    tools: ToolGate,
    params: ExecuteWasiParams,
    found: ModuleFound,
) -> bool {
    let refusal = run_refusal(wasi_refused(tools), found);
    let caps = capability::capabilities_from_specs(specs_or(params.capabilities));
    match r {
        Ok(p) => {
            &&& refusal is None
            &&& caps is Ok
            &&& found is Bytes
            &&& is_tool(
                p.tool,
                "mcp_tool_wasi"@,
                found->Bytes_0@,
                entry_or(text::opt_text(params.entry)),
                caps->Ok_0,
                None,
                None,
                None,
            )
            &&& p.input@ == input_or(text::opt_text(params.input))
        },
        Err(e) => match refusal {
            Some(w) => e@ == w,
            None => caps is Err && e@ == error::Why::Other(caps->Err_0),
        },
    }
}

/// What is run when a module is executed with system access: with the
/// capabilities that were asked for, for which the caller must have tokens.
pub fn do_execute_wasi(tools: &ToolGate, params: &ExecuteWasiParams, found: ModuleFound) -> (r:
    Result<Prepared, ToolError>)
    ensures
        is_wasi_job(r, *tools, *params, found),
{
    match tools.ensure_tool_allowed("nexus_execute_wasi") {
        Ok(_) => {},
        Err(e) => {
            return Err(e);
        },
    }
    match tools.ensure_wasi_enabled() {
        Ok(_) => {},
        Err(e) => {
            return Err(e);
        },
    }
    let bytes = match module_bytes(found) {
        Err(e) => {
            return Err(e);
        },
        Ok(b) => b,
    };
    match read_specs(&params.capabilities) {
        Err(e) => Err(e),
        Ok(caps) => Ok(
            Prepared {
                tool: plain_tool("mcp_tool_wasi", bytes, &params.entry).with_capabilities(caps),
                input: input_text(&params.input),
            },
        ),
    }
}

/// `String::from_utf8`: a text whose encoding is the bytes, and none where they
/// are not the encoding of a text.
#[verifier::external_body]
fn utf8_text(b: &Vec<u8>) -> (r: Option<String>)
    ensures
        r is Some <==> vstd::utf8::valid_utf8(b@),
        r is Some ==> vstd::utf8::encode_utf8(r->0@) == b@,
{
    String::from_utf8(b.to_vec()).ok()
}

/// What an answer says of an execution.
#[derive(Debug, Clone, PartialEq, Eq)]
pub struct ToolOutputResponse {
    pub success: bool,
    pub result: Option<String>,
    pub error: Option<String>,
    pub execution_time_ms: u64,
    pub fuel_consumed: u64,
    pub rollback_performed: bool,
    pub snapshot_id: Option<String>,
}

/// Bytes as an answer shows them: as the text that they encode, and otherwise
/// in base64.
pub open spec fn shown_as(b: Seq<u8>, t: Seq<char>) -> bool {
    if vstd::utf8::valid_utf8(b) {
        vstd::utf8::encode_utf8(t) == b
    } else {
        t == daemon::base64_of(b)
    }
}

/// The answer for an execution.
pub open spec fn answers(r: ToolOutputResponse, o: ToolOutput) -> bool {
    &&& r.success == o.success
    &&& r.result is Some <==> o.result is Some
    &&& r.result is Some ==> shown_as(o.result->0@, r.result->0@)
    &&& r.error == o.error
    &&& r.execution_time_ms == o.execution_time_ms
    &&& r.fuel_consumed == o.fuel_consumed
    &&& r.rollback_performed == o.rollback_performed
    &&& r.snapshot_id == o.snapshot_id
}

impl ToolOutputResponse {
    /// The answer for an execution.
    pub fn from_output(o: ToolOutput) -> (r: Self)
        ensures
            answers(r, o),
    {
        let result: Option<String> = match &o.result {
            None => None,
            Some(b) => match utf8_text(b) {
                Some(t) => Some(t),
                None => Some(base64_encode(b.as_slice())),
            },
        };
        ToolOutputResponse {
            success: o.success,
            result,
            error: o.error,
            execution_time_ms: o.execution_time_ms,
            fuel_consumed: o.fuel_consumed,
            rollback_performed: o.rollback_performed,
            snapshot_id: o.snapshot_id,
        }
    }
}

/// What an answer says of a capsule.
pub fn proof_reference(capsule: &ProofCapsule) -> (r: McpProofReference)
    requires
        scorecard::redactions(capsule.redaction) <= usize::MAX,
    ensures
        digest::is_sha256_public(r.capsule_digest, canonical::canonical(*capsule)),
        r.artifact_id is None,
        scorecard::is_scorecard(r.inline_summary, *capsule),
{
    McpProofReference {
        capsule_digest: canonical::capsule_digest(capsule),
        artifact_id: None,
        inline_summary: ProofScorecard::from_capsule(capsule),
    }
}

/// What there is to tell of an attested execution, by its contents.
pub enum Told {
    Denied(Seq<char>),
    Snapshot(Seq<char>),
    Capsule(Seq<char>),
}

/// An event, by its contents.
pub open spec fn event_view(e: NexusExecutionEvent) -> Told {
    match e {
        NexusExecutionEvent::CapabilityDenied { denied_category } => Told::Denied(denied_category@),
        NexusExecutionEvent::SnapshotCreated { snapshot_id } => Told::Snapshot(snapshot_id@),
        NexusExecutionEvent::ProofCapsuleEmitted { capsule_id } => Told::Capsule(capsule_id@),
    }
}

/// Events, by their contents.
pub open spec fn event_views(v: Seq<NexusExecutionEvent>) -> Seq<Told> {
    Seq::new(v.len(), |i: int| event_view(v[i]))
}

/// What there is to tell of an attested execution: that a denial was
/// negotiated, the snapshot, and the capsule.
pub open spec fn told_of(
    snapshot: Option<Seq<char>>,
    capsule: Seq<char>,
    rounds: Option<u32>,
) -> Seq<Told> {
    (if rounds is Some {
        seq![Told::Denied("capability_denial_negotiated"@)]
    } else {
        Seq::empty()
    }) + (match snapshot {
        Some(s) => seq![Told::Snapshot(s)],
        None => Seq::empty(),
    }) + seq![Told::Capsule(capsule)]
}

/// What there is to tell of an attested execution.
pub fn proof_events(
    snapshot_id: &Option<String>,
    capsule_id: &str,
    negotiation_rounds: Option<u32>,
) -> (r: Vec<NexusExecutionEvent>)
    ensures
        event_views(r@) == told_of(text::opt_text(*snapshot_id), capsule_id@, negotiation_rounds),
{
    let mut events: Vec<NexusExecutionEvent> = Vec::new();
    if negotiation_rounds.is_some() {
        events.push(
            NexusExecutionEvent::CapabilityDenied {
                denied_category: "capability_denial_negotiated".to_string(),
            },
        );
    }
    if let Some(s) = snapshot_id {
        events.push(NexusExecutionEvent::SnapshotCreated { snapshot_id: s.clone() });
    }
    events.push(NexusExecutionEvent::ProofCapsuleEmitted { capsule_id: capsule_id.to_string() });
    assert(event_views(events@) =~= told_of(
        text::opt_text(*snapshot_id),
        capsule_id@,
        negotiation_rounds,
    ));
    events
}

/// What is wrong with the memory digest of a capsule.
pub open spec fn memory_digest_fault(
    found: Option<Seq<char>>,
    expected: Seq<char>,
) -> Option<Seq<char>> {
    match found {
        None => Some(
            "proof capsule missing AEON memory evidence digest; expected "@ + expected,
        ),
        Some(d) => if text::ascii_lowered(d) == text::ascii_lowered(expected) {
            None
        } else {
            Some(
                "proof capsule AEON memory evidence digest mismatch: expected "@ + expected
                    + ", got "@ + d,
            )
        },
    }
}

/// The memory digest of a capsule.
pub open spec fn memory_digest_in(e: Option<MemoryEvidenceRef>) -> Option<Seq<char>> {
    match e {
        Some(m) => Some(m.digest_value@),
        None => None,
    }
}

/// Checks that a capsule holds the memory digest that went into its execution.
pub fn verify_proof_capsule_memory_digest(
    evidence: &Option<MemoryEvidenceRef>,
    expected_digest: &str,
) -> (r: Result<(), String>)
    ensures
        match r {
            Ok(_) => memory_digest_fault(memory_digest_in(*evidence), expected_digest@) is None,
            Err(e) => memory_digest_fault(memory_digest_in(*evidence), expected_digest@) == Some(
                e@,
            ),
        },
{
    match evidence {
        None => Err(
            text::cat2(
                "proof capsule missing AEON memory evidence digest; expected ",
                expected_digest,
            ),
        ),
        Some(m) => if text::same_ignoring_case(m.digest_value.as_str(), expected_digest) {
            Ok(())
        } else {
            Err(
                text::cat4(
                    "proof capsule AEON memory evidence digest mismatch: expected ",
                    expected_digest,
                    ", got ",
                    m.digest_value.as_str(),
                ),
            )
        },
    }
}

/// Branches that are raced: a tool and an input for each, and how.
#[derive(Debug, Clone, PartialEq, Eq)]
pub struct RacePlan {
    pub branches: Vec<Prepared>,
    pub config: SpeculativeConfig,
    pub base: ForkBase,
}

/// What branches start from.
#[derive(Debug, Clone, PartialEq, Eq)]
pub struct ForkBase {
    pub snapshot_id: Option<String>,
    pub source: String,
    pub semantics: String,
}

/// What branches start from, by its contents.
pub struct Base {
    pub snapshot_id: Option<Seq<char>>,
    pub source: Seq<char>,
    pub semantics: Seq<char>,
}

impl View for ForkBase {
    type V = Base;

    open spec fn view(&self) -> Base {
        Base {
            snapshot_id: text::opt_text(self.snapshot_id),
            source: self.source@,
            semantics: self.semantics@,
        }
    }
}

/// What branches start from, or why they cannot. `reading` is what a reading of
/// the given identifier came to, and `latest` the latest snapshot.
pub open spec fn fork_base(
    id: Option<Seq<char>>,
    reading: Result<Seq<char>, Seq<char>>,
    source: Option<Seq<char>>,
    latest: Option<Seq<char>>,
) -> Result<Base, error::Why> {
    if id is Some && source is Some {
        Err(
            error::Why::Other(
                "base_snapshot_id and source are mutually exclusive; provide one snapshot seed or omit both for from-scratch racing"@,
            ),
        )
    } else if id is Some {
        match reading {
            Err(e) => Err(error::Why::Other("Invalid base_snapshot_id UUID: "@ + e)),
            Ok(u) => Ok(
                Base {
                    snapshot_id: Some(u),
                    source: "explicit_snapshot_id"@,
                    semantics: "fork_from_captured_runtime_snapshot"@,
                },
            ),
        }
    } else {
        match source {
            None => Ok(
                Base {
                    snapshot_id: None,
                    source: "from_scratch"@,
                    semantics: "from_scratch_no_snapshot_restore"@,
                },
            ),
            Some(s) => if s != "latest_runtime"@ {
                Err(
                    error::Why::Other(
                        "unsupported fork_and_race snapshot source '"@ + s
                            + "'; expected 'latest_runtime' or omit source for from-scratch racing"@,
                    ),
                )
            } else {
                match latest {
                    None => Err(
                        error::Why::Other(
                            "no latest runtime snapshot is available; call nexus_execute first or omit source for from-scratch racing"@,
                        ),
                    ),
                    Some(l) => Ok(
                        Base {
                            snapshot_id: Some(l),
                            source: "latest_runtime"@,
                            semantics: "fork_from_captured_runtime_snapshot"@,
                        },
                    ),
                }
            },
        }
    }
}

/// The outcome of looking for a base.
pub open spec fn base_outcome(r: Result<ForkBase, ToolError>) -> Result<Base, error::Why> {
    match r {
        Ok(b) => Ok(b@),
        Err(e) => Err(e@),
    }
}

/// What branches start from, when `reading` is what a reading of the given
/// identifier came to.
pub fn choose_fork_base(
    params: &ForkAndRaceParams,
    reading: &Result<String, String>,
    latest: Option<&str>,
) -> (r: Result<ForkBase, ToolError>)
    ensures
        base_outcome(r) == fork_base(
            text::opt_text(params.base_snapshot_id),
            crate::ids::reading(*reading),
            text::opt_text(params.source),
            daemon::slice_text(latest),
        ),
{
    if params.base_snapshot_id.is_some() && params.source.is_some() {
        return Err(
            ToolError::Other(
                "base_snapshot_id and source are mutually exclusive; provide one snapshot seed or omit both for from-scratch racing".to_string(),
            ),
        );
    }
    if params.base_snapshot_id.is_some() {
        return match reading {
            Err(e) => Err(
                ToolError::Other(text::cat2("Invalid base_snapshot_id UUID: ", e.as_str())),
            ),
            Ok(u) => Ok(
                ForkBase {
                    snapshot_id: Some(u.clone()),
                    source: "explicit_snapshot_id".to_string(),
                    semantics: "fork_from_captured_runtime_snapshot".to_string(),
                },
            ),
        };
    }
    match &params.source {
        None => Ok(
            ForkBase {
                snapshot_id: None,
                source: "from_scratch".to_string(),
                semantics: "from_scratch_no_snapshot_restore".to_string(),
            },
        ),
        Some(s) => {
            if !text::same_text(s.as_str(), "latest_runtime") {
                return Err(
                    ToolError::Other(
                        text::cat3(
                            "unsupported fork_and_race snapshot source '",
                            s.as_str(),
                            "'; expected 'latest_runtime' or omit source for from-scratch racing",
                        ),
                    ),
                );
            }
            match latest {
                None => Err(
                    ToolError::Other(
                        "no latest runtime snapshot is available; call nexus_execute first or omit source for from-scratch racing".to_string(),
                    ),
                ),
                Some(l) => Ok(
                    ForkBase {
                        snapshot_id: Some(l.to_string()),
                        source: "latest_runtime".to_string(),
                        semantics: "fork_from_captured_runtime_snapshot".to_string(),
                    },
                ),
            }
        },
    }
}

/// The identifier that is given, or nothing.
pub open spec fn id_or_empty(o: Option<Seq<char>>) -> Seq<char> {
    match o {
        Some(t) => t,
        None => ""@,
    }
}

/// What branches start from.
pub fn resolve_fork_base_snapshot(params: &ForkAndRaceParams, latest: Option<&str>) -> (r: Result<
    ForkBase,
    ToolError,
>)
    ensures
        base_outcome(r) == fork_base(
            text::opt_text(params.base_snapshot_id),
            crate::ids::uuid_reading(id_or_empty(text::opt_text(params.base_snapshot_id))),
            text::opt_text(params.source),
            daemon::slice_text(latest),
        ),
{
    let reading = match &params.base_snapshot_id {
        Some(id) => crate::ids::parse_uuid(id.as_str()),
        None => crate::ids::parse_uuid(""),
    };
    choose_fork_base(params, &reading, latest)
}

fn copy_bytes(b: &Vec<u8>) -> (r: Vec<u8>)
    ensures
        r@ == b@,
{
    let mut out: Vec<u8> = Vec::new();
    let mut i: usize = 0;
    while i < b.len()
        invariant
            i <= b.len(),
            out@ == b@.take(i as int),
        decreases b.len() - i,
    {
        out.push(b[i]);
        i = i + 1;
        assert(b@.take(i as int) =~= b@.take(i - 1).push(b@[i - 1]));
    }
    assert(b@.take(b.len() as int) =~= b@);
    out
}

/// The refusal of the racing tool.
pub open spec fn race_refused(tools: ToolGate) -> Option<error::Why> {
    first_refusal(
        refused(tools, "nexus_fork_and_race"@),
        gate::group_refusal(
            tools.policy is None || tools.policy->0.fork_enabled,
            "fork_and_race is disabled by the active profile"@,
        ),
    )
}

/// The strategy that a word stands for.
pub open spec fn strategy_of(s: Option<Seq<char>>) -> SelectionStrategy {
    if s == Some("wait_all"@) {
        SelectionStrategy::WaitAll
    } else {
        SelectionStrategy::FirstSuccess
    }
}

/// A branch that was asked for.
pub open spec fn is_branch(p: Prepared, spec: BranchSpec, bytes: Seq<u8>) -> bool {
    &&& is_tool(
        p.tool,
        "fork_branch"@,
        bytes,
        entry_or(text::opt_text(spec.entry)),
        Seq::empty(),
        None,
        None,
        None,
    )
    &&& p.input@ == input_or(text::opt_text(spec.input))
}

/// The race that was asked for: all branches, from one base, for thirty seconds
/// each.
pub open spec fn is_race(p: RacePlan, params: ForkAndRaceParams, bytes: Seq<u8>) -> bool {
    &&& p.branches@.len() == params.branches@.len()
    &&& forall|i: int|
        0 <= i < p.branches@.len() ==> is_branch(
            #[trigger] p.branches@[i],
            params.branches@[i],
            bytes,
        )
    &&& p.config == (SpeculativeConfig {
        max_branches: params.branches@.len() as usize,
        branch_timeout_ms: 30_000,
        selection_strategy: strategy_of(text::opt_text(params.strategy)),
    })
}

/// The race that was asked for. `base` is what the branches start from.
pub fn do_fork_and_race(
    tools: &ToolGate,
    params: &ForkAndRaceParams,
    found: ModuleFound,
    base: Result<ForkBase, ToolError>,
) -> (r: Result<RacePlan, ToolError>)
    ensures
        is_race_answer(*tools, *params, found, base, r),
{
    match tools.ensure_tool_allowed("nexus_fork_and_race") {
        Ok(_) => {},
        Err(e) => {
            return Err(e);
        },
    }
    match tools.ensure_fork_enabled() {
        Ok(_) => {},
        Err(e) => {
            return Err(e);
        },
    }
    let bytes = match module_bytes(found) {
        Err(e) => {
            return Err(e);
        },
        Ok(b) => b,
    };
    let base = match base {
        Err(e) => {
            return Err(e);
        },
        Ok(b) => b,
    };
    let mut branches: Vec<Prepared> = Vec::new();
    let mut i: usize = 0;
    while i < params.branches.len()
        invariant
            i <= params.branches.len(),
            branches@.len() == i,
            forall|j: int|
                0 <= j < i ==> is_branch(
                    #[trigger] branches@[j],
                    params.branches@[j],
                    bytes@,
                ),
        decreases params.branches.len() - i,
    {
        let spec = &params.branches[i];
        branches.push(
            Prepared {
                tool: plain_tool("fork_branch", copy_bytes(&bytes), &spec.entry),
                input: input_text(&spec.input),
            },
        );
        i = i + 1;
    }
    let wait: bool = match &params.strategy {
        Some(s) => text::same_text(s.as_str(), "wait_all"),
        None => false,
    };
    let config = SpeculativeConfig {
        max_branches: branches.len(),
        branch_timeout_ms: 30_000,
        selection_strategy: if wait {
            SelectionStrategy::WaitAll
        } else {
            SelectionStrategy::FirstSuccess
        },
    };
    Ok(RacePlan { branches, config, base })
}

/// An execution of the past.
#[derive(Debug, Clone, PartialEq, Eq)]
pub struct ExecutionRecord {
    pub id: String,
    pub timestamp: String,
    pub operation: String,
    pub success: bool,
    pub duration_ms: u64,
    pub fuel_consumed: u64,
    pub error: Option<String>,
}

/// What is told of an execution of the past.
#[derive(Debug, Clone, PartialEq, Eq)]
pub struct ExecutionRecordSummary {
    pub id: String,
    pub timestamp: String,
    pub operation: String,
    pub success: bool,
    pub duration_ms: u64,
    pub fuel_consumed: u64,
    pub has_error: bool,
}

/// What is told of an execution: everything but what its error says.
pub open spec fn sums_up(s: ExecutionRecordSummary, r: ExecutionRecord) -> bool {
    &&& s.id@ == r.id@
    &&& s.timestamp@ == r.timestamp@
    &&& s.operation@ == r.operation@
    &&& s.success == r.success
    &&& s.duration_ms == r.duration_ms
    &&& s.fuel_consumed == r.fuel_consumed
    &&& s.has_error == r.error is Some
}

/// How many executions are asked for.
pub fn history_limit(params: &GetHistoryParams) -> (r: usize)
    ensures
        r == (match params.limit {
            Some(n) => n as usize,
            None => 50,
        }),
{
    match params.limit {
        Some(n) => n as usize,
        None => 50,
    }
}

/// What is told of the executions of the past.
pub fn do_get_history(tools: &ToolGate, records: &Vec<ExecutionRecord>) -> (r: Result<
    Vec<ExecutionRecordSummary>,
    ToolError,
>)
    ensures
        is_history(*tools, records@, r),
{
    match tools.ensure_tool_allowed("nexus_get_history") {
        Ok(_) => {},
        Err(e) => {
            return Err(e);
        },
    }
    let mut out: Vec<ExecutionRecordSummary> = Vec::new();
    let mut i: usize = 0;
    while i < records.len()
        invariant
            i <= records.len(),
            out@.len() == i,
            forall|j: int| 0 <= j < i ==> sums_up(#[trigger] out@[j], records@[j]),
        decreases records.len() - i,
    {
        let rec = &records[i];
        out.push(
            ExecutionRecordSummary {
                id: rec.id.clone(),
                timestamp: rec.timestamp.clone(),
                operation: rec.operation.clone(),
                success: rec.success,
                duration_ms: rec.duration_ms,
                fuel_consumed: rec.fuel_consumed,
                has_error: rec.error.is_some(),
            },
        );
        i = i + 1;
    }
    Ok(out)
}

/// What is told of an attested execution ends with its capsule, and nothing is
/// told twice.
pub proof fn lemma_capsule_is_told_last(
    snapshot: Option<Seq<char>>,
    capsule: Seq<char>,
    rounds: Option<u32>,
)
    ensures
        told_of(snapshot, capsule, rounds).last() == Told::Capsule(capsule),
        1 <= told_of(snapshot, capsule, rounds).len() <= 3,
        told_of(snapshot, capsule, rounds).no_duplicates(),
{
}

/// What is run without rights is the module that was found, at the entry point
/// and on the input that were given, or at the usual ones; it needs no
/// capability and belongs to no agent. What was refused is not run, and answered
/// with the refusal.
pub proof fn lemma_plain_runs_are_of_the_module(
    r: Result<Prepared, ToolError>,
    refusal: Option<error::Why>,
    found: ModuleFound,
    name: Seq<char>,
    entry: Option<Seq<char>>,
    input: Option<Seq<char>>,
)
    requires
        prepared_plain(r, refusal, found, name, entry, input),
    ensures
        r is Ok ==> refusal is None,
        r matches Err(e) ==> refusal == Some(e@),
        r matches Ok(p) ==> {
            &&& found is Bytes && p.tool.wasm_bytes@ == found->Bytes_0@
            &&& p.tool.name@ == name
            &&& entry is Some ==> p.tool.entry_point@ == entry->0
            &&& entry is None ==> p.tool.entry_point@ == "_start"@
            &&& input is Some ==> p.input@ == input->0
            &&& input is None ==> p.input@ == "{}"@
            &&& p.tool.required_capabilities@.len() == 0
            &&& p.tool.aeon_agent_id is None && p.tool.aeon_session_id is None
                && p.tool.aeon_memory_evidence_digest is None
        },
{
    if r is Ok {
        let p = r->Ok_0;
        assert(security::caps(p.tool.required_capabilities@).len()
            == p.tool.required_capabilities@.len());
    }
}

/// A run with WASI imports needs exactly the capabilities that its caller wrote,
/// one by one; it is of the module that was found.
pub proof fn lemma_wasi_jobs_need_what_was_written(
    r: Result<Prepared, ToolError>,
    tools: ToolGate,
    params: ExecuteWasiParams,
    found: ModuleFound,
    i: int,
)
    requires
        is_wasi_job(r, tools, params, found),
        params.capabilities is Some,
        0 <= i < params.capabilities->0@.len(),
    ensures
        r matches Ok(p) ==> {
            let spec = params.capabilities->0@[i];
            &&& found is Bytes && p.tool.wasm_bytes@ == found->Bytes_0@
            &&& p.tool.required_capabilities@.len() == params.capabilities->0@.len()
            &&& Ok::<Cap, Seq<char>>(p.tool.required_capabilities@[i]@)
                == capability::capability_from_spec(spec.kind@, text::opt_text(spec.path))
            &&& wasi_refused(tools) is None
        },
        wasi_refused(tools) matches Some(w) ==> (r matches Err(e) && e@ == w),
        wasi_refused(tools) is None && found is Bytes && capability::capability_from_spec(
            params.capabilities->0@[i].kind@,
            text::opt_text(params.capabilities->0@[i].path),
        ) is Err ==> r is Err,
{
    let specs = params.capabilities->0@;
    capability::lemma_written_lists_are_read_in_order(specs, i);
    if r is Ok {
        let p = r->Ok_0;
        let caps = security::caps(p.tool.required_capabilities@);
        assert(caps.len() == p.tool.required_capabilities@.len());
        assert(caps[i] == p.tool.required_capabilities@[i]@);
    }
}

/// A tool of a group is refused by the lists as any tool is, and besides exactly
/// if the active profile has switched the group off.
pub proof fn lemma_groups_follow_the_profile(tools: ToolGate, tool: Seq<char>)
    ensures
        proof_refused(tools, tool) is None <==> refused(tools, tool) is None && (tools.policy
            is None || tools.policy->0.proof_enabled),
        wasi_refused(tools) is None <==> refused(tools, "nexus_execute_wasi"@) is None && (
        tools.policy is None || tools.policy->0.wasi_enabled),
        race_refused(tools) is None <==> refused(tools, "nexus_fork_and_race"@) is None && (
        tools.policy is None || tools.policy->0.fork_enabled),
        refused(tools, tool) is Some ==> proof_refused(tools, tool) == refused(tools, tool),
{
}

/// A refused call is answered with its refusal before its module is looked at; a
/// module that was refused or cannot be read is not run.
pub proof fn lemma_refusals_come_first(refusal: Option<error::Why>, found: ModuleFound)
    ensures
        refusal is Some ==> run_refusal(refusal, found) == refusal,
        refusal is None ==> (run_refusal(refusal, found) is None <==> found is Bytes),
        refusal is None && found is Refused ==> run_refusal(refusal, found) == Some(
            error::Why::Nexus(found->Refused_0@),
        ),
{
}

/// What a caller is answered is what came of the run, field by field; bytes are
/// shown as the text that they are, or else in base 64.
pub proof fn lemma_answers_tell_the_output(r: ToolOutputResponse, o: ToolOutput)
    requires
        answers(r, o),
    ensures
        r.success <==> o.success,
        r.rollback_performed <==> o.rollback_performed,
        r.fuel_consumed == o.fuel_consumed && r.execution_time_ms == o.execution_time_ms,
        text::opt_text(r.error) == text::opt_text(o.error),
        text::opt_text(r.snapshot_id) == text::opt_text(o.snapshot_id),
        r.result is Some <==> o.result is Some,
        o.result is Some && vstd::utf8::valid_utf8(o.result->0@) ==> vstd::utf8::encode_utf8(
            r.result->0@,
        ) == o.result->0@,
        o.result is Some && !vstd::utf8::valid_utf8(o.result->0@) ==> r.result->0@
            == daemon::base64_of(o.result->0@),
{
}

/// A capsule passes exactly if it holds the digest that was expected, in either
/// case of its letters; what does not pass is told with what was expected.
pub proof fn lemma_memory_digests_must_match(found: Option<Seq<char>>, expected: Seq<char>)
    ensures
        memory_digest_fault(found, expected) is None <==> found is Some && text::ascii_lowered(
            found->0,
        ) == text::ascii_lowered(expected),
        memory_digest_fault(found, expected) matches Some(t) ==> text::has_text(t, expected),
        found == Some(expected) ==> memory_digest_fault(found, expected) is None,
{
    let missing = "proof capsule missing AEON memory evidence digest; expected "@;
    text::lemma_part_is_held(missing, expected, Seq::empty());
    assert(missing + expected + Seq::<char>::empty() =~= missing + expected);
    if found is Some {
        let lead = "proof capsule AEON memory evidence digest mismatch: expected "@;
        text::lemma_part_is_held(lead, expected, ", got "@);
        text::lemma_held_in_longer(
            Seq::empty(),
            lead + expected + ", got "@,
            found->0,
            expected,
        );
    }
}

/// Where a race starts from: from the snapshot that was named, from the latest
/// one if that was asked for and there is one, from scratch if nothing was asked
/// for, and from nowhere if both were. What it starts from is told.
pub proof fn lemma_races_start_where_asked(
    id: Option<Seq<char>>,
    reading: Result<Seq<char>, Seq<char>>,
    source: Option<Seq<char>>,
    latest: Option<Seq<char>>,
)
    ensures
        fork_base(id, reading, source, latest) matches Ok(b) ==> {
            &&& !(id is Some && source is Some)
            &&& id is Some ==> reading is Ok && b.snapshot_id == Some(reading->Ok_0)
            &&& source is Some ==> source->0 == "latest_runtime"@ && latest is Some
                && b.snapshot_id == latest && b.source == source->0
            &&& b.snapshot_id is None <==> id is None && source is None
            &&& b.snapshot_id is None <==> b.semantics == "from_scratch_no_snapshot_restore"@
        },
        id is None && source is None ==> fork_base(id, reading, source, latest) is Ok,
        id is Some && source is None && reading is Ok ==> fork_base(
            id,
            reading,
            source,
            latest,
        ) is Ok,
        id is None && source == Some("latest_runtime"@) && latest is Some ==> fork_base(
            id,
            reading,
            source,
            latest,
        ) is Ok,
{
    reveal_strlit("from_scratch_no_snapshot_restore");
    reveal_strlit("fork_from_captured_runtime_snapshot");
    assert("from_scratch_no_snapshot_restore"@.len()
        != "fork_from_captured_runtime_snapshot"@.len());
}

/// A race runs one branch for each that was asked for, in their order, all of
/// them the same module, each at its own entry point and on its own input; it
/// awaits them all exactly where that was asked for.
pub proof fn lemma_races_run_what_was_asked(
    p: RacePlan,
    params: ForkAndRaceParams,
    bytes: Seq<u8>,
    i: int,
)
    requires
        is_race(p, params, bytes),
        0 <= i < params.branches@.len(),
    ensures
        p.branches@.len() == params.branches@.len(),
        p.branches@[i].tool.wasm_bytes@ == bytes,
        params.branches@[i].entry matches Some(e) ==> p.branches@[i].tool.entry_point@ == e@,
        params.branches@[i].entry is None ==> p.branches@[i].tool.entry_point@ == "_start"@,
        params.branches@[i].input matches Some(t) ==> p.branches@[i].input@ == t@,
        params.branches@[i].input is None ==> p.branches@[i].input@ == "{}"@,
        p.branches@[i].tool.required_capabilities@.len() == 0,
        p.config.selection_strategy == SelectionStrategy::WaitAll <==> params.strategy is Some
            && params.strategy->0@ == "wait_all"@,
        p.config.branch_timeout_ms == 30_000,
{
    let b = p.branches@[i];
    assert(is_branch(b, params.branches@[i], bytes));
    assert(security::caps(b.tool.required_capabilities@).len()
        == b.tool.required_capabilities@.len());
}

/// A summary keeps everything of a record but the text of its error, of which it
/// keeps that there is one.
pub proof fn lemma_summaries_keep_the_record(s: ExecutionRecordSummary, r: ExecutionRecord)
    requires
        sums_up(s, r),
    ensures
        s.id@ == r.id@ && s.timestamp@ == r.timestamp@ && s.operation@ == r.operation@,
        s.success == r.success && s.duration_ms == r.duration_ms,
        s.fuel_consumed == r.fuel_consumed,
        s.has_error <==> r.error is Some,
{
}

/// An attested execution is of the module that was found, on the given input, and
/// in the name of the given agent and session; what the lists, the profile or the
/// search for the module refused is not run.
pub proof fn lemma_proof_jobs_are_of_the_module(
    r: Result<Prepared, ToolError>,
    tools: ToolGate,
    params: ExecuteProofParams,
    found: ModuleFound,
)
    requires
        is_proof_job(r, tools, params, found),
    ensures
        r is Ok <==> proof_refused(tools, "nexus_execute_proof"@) is None && found is Bytes,
        r matches Ok(p) ==> {
            &&& p.tool.wasm_bytes@ == found->Bytes_0@
            &&& p.tool.entry_point@ == "_start"@
            &&& params.input matches Some(t) ==> p.input@ == t@
            &&& params.input is None ==> p.input@ == "{}"@
            &&& text::opt_text(p.tool.aeon_agent_id) == text::opt_text(params.aeon_agent_id)
            &&& text::opt_text(p.tool.aeon_session_id) == text::opt_text(params.aeon_session_id)
        },
        proof_refused(tools, "nexus_execute_proof"@) matches Some(w) ==> (r matches Err(e) && e@
            == w),
{
}

/// Whether `r` tells the executions of the past.
pub open spec fn is_history(
    tools: ToolGate,
    records: Seq<ExecutionRecord>,
    r: Result<Vec<ExecutionRecordSummary>, ToolError>,
) -> bool {
    match r {
        Ok(v) => {
            &&& refused(tools, "nexus_get_history"@) is None
            &&& v@.len() == records.len()
            &&& forall|i: int| 0 <= i < v@.len() ==> sums_up(#[trigger] v@[i], records[i])
        },
        Err(e) => refused(tools, "nexus_get_history"@) == Some(e@),
    }
}

/// The past is told in full and in order, to who may call the tool: an entry for
/// each execution, under its identifier and with how it ended.
pub proof fn lemma_the_past_is_told_in_order(
    tools: ToolGate,
    records: Seq<ExecutionRecord>,
    r: Result<Vec<ExecutionRecordSummary>, ToolError>,
    i: int,
)
    requires
        is_history(tools, records, r),
        0 <= i < records.len(),
    ensures
        r matches Ok(v) ==> v@.len() == records.len() && v@[i].id@ == records[i].id@
            && v@[i].success == records[i].success,
        r is Ok <==> refused(tools, "nexus_get_history"@) is None,
{
    if let Ok(v) = r {
        assert(sums_up(v@[i], records[i]));
        lemma_summaries_keep_the_record(v@[i], records[i]);
    }
}

/// Whether `r` is the race that was asked for, or why there is none.
pub open spec fn is_race_answer(
    tools: ToolGate,
    params: ForkAndRaceParams,
    found: ModuleFound,
    base: Result<ForkBase, ToolError>,
    r: Result<RacePlan, ToolError>,
) -> bool {
    let refusal = run_refusal(race_refused(tools), found);
    match r {
        Ok(p) => refusal is None && found is Bytes && base is Ok && p.base == base->Ok_0 && is_race(
            p,
            params,
            found->Bytes_0@,
        ),
        Err(e) => match refusal {
            Some(w) => e@ == w,
            None => base is Err && e == base->Err_0,
        },
    }
}

/// No race is run where the profile refuses it, where there is no module or
/// nothing to start from; the refusal of the profile is told first. A race that
/// is run starts from what was found.
pub proof fn lemma_races_need_leave_and_a_base(
    tools: ToolGate,
    params: ForkAndRaceParams,
    found: ModuleFound,
    base: Result<ForkBase, ToolError>,
    r: Result<RacePlan, ToolError>,
)
    requires
        is_race_answer(tools, params, found, base, r),
    ensures
        race_refused(tools) matches Some(w) ==> r is Err && r->Err_0@ == w,
        !(found is Bytes) ==> r is Err,
        base is Err ==> r is Err,
        r matches Ok(p) ==> base == Ok::<ForkBase, ToolError>(p.base),
        race_refused(tools) is None && found is Bytes && base is Ok ==> r is Ok,
{
    lemma_refusals_come_first(race_refused(tools), found);
}

} // verus!
