//! What the daemon does with a request: who is let in, which module is run,
//! and what is answered.

use crate::aeon::timeline::TimelineDeliveryStatus;
use crate::attestation::schema::{MemoryEvidenceRef, ProofCapsule};
use crate::constant_time;
use crate::daemon::{
    DaemonAeonExecuteOptions, DaemonDenialNegotiation, DaemonNexusIqEvidence, DaemonRequest,
    DaemonResponse,
};
use crate::env::EnvValue;
use crate::error::NexusError;
use crate::hypervisor::tool::{ToolDefinition, ToolOutput};
use crate::mcp::execute;
use crate::mcp::execute::proof_events;
use crate::mcp::iq::{denial_events, is_capability_denial};
use crate::paths;
use crate::profile::CapabilityProfileManifest;
use crate::text;
use vstd::prelude::*;
use vstd::string::*;

verus! {

pub const AUTH_TOKEN_ENV: &'static str = "NEXUS_AGENTD_AUTH_TOKEN";

pub const PROFILE_ENV: &'static str = "NEXUS_AGENTD_PROFILE";

pub const MODULE_DIR_ENV: &'static str = "NEXUS_AGENTD_MODULE_DIR";

pub const UNAUTHORIZED_MESSAGE: &'static str = "Unauthorized: daemon request authentication failed";

pub const WASM_PATH_REJECTED_MESSAGE: &'static str = "wasm_path rejected: configure an allowed module directory";

/// Who may open the daemon's pipe: its owner, and nobody over the network.
pub const RESTRICTED_PIPE_SDDL: &'static str = "D:P(D;;GA;;;NU)(A;;GA;;;OW)";

/// Why the daemon does not start without a token.
pub const AUTH_REQUIRED_MESSAGE: &'static str = "NEXUS_AGENTD_AUTH_TOKEN must be set: the active profile requires daemon authentication";

/// Whether `r` is the token that callers must show, as it is set and required.
pub open spec fn is_token_setting(
    value: EnvValue,
    required: bool,
    r: Result<Option<String>, String>,
) -> bool {
    match value {
        EnvValue::Value(t) => r is Ok && r->Ok_0 is Some && r->Ok_0->0@ == t@,
        EnvValue::Absent => if required {
            r is Err && r->Err_0@ == AUTH_REQUIRED_MESSAGE@
        } else {
            r == Ok::<Option<String>, String>(None)
        },
        EnvValue::NotUnicode => r is Err && r->Err_0@ == AUTH_TOKEN_ENV@
            + " must be valid Unicode"@,
    }
}

/// The token that callers must show, if any. Where the profile requires one,
/// the daemon does not start without it.
pub fn configured_auth_token(value: &EnvValue, required: bool) -> (r: Result<
    Option<String>,
    String,
>)
    ensures
        is_token_setting(*value, required, r),
{
    match value {
        EnvValue::Value(t) => Ok(Some(t.clone())),
        EnvValue::Absent => if required {
            Err(AUTH_REQUIRED_MESSAGE.to_string())
        } else {
            Ok(None)
        },
        EnvValue::NotUnicode => Err(text::cat2(AUTH_TOKEN_ENV, " must be valid Unicode")),
    }
}

/// Whether a daemon under this profile, if there is one, asks for a token.
pub open spec fn profile_asks(profile: Option<CapabilityProfileManifest>) -> bool {
    profile is Some && profile->0.execution.daemon_auth_required
}

/// The token of a daemon that starts under this profile, if there is one: it
/// does not start without a token where the profile asks for one.
pub fn start_with_profile(
    value: &EnvValue,
    profile: &Option<CapabilityProfileManifest>,
) -> (r: Result<Option<String>, String>)
    ensures
        profile_asks(*profile) && r is Ok ==> r->Ok_0 is Some,
        value is Absent && profile_asks(*profile) ==> r is Err && r->Err_0@
            == AUTH_REQUIRED_MESSAGE@,
        value is Absent && !profile_asks(*profile) ==> r == Ok::<Option<String>, String>(None),
        value matches EnvValue::Value(t) ==> r is Ok && r->Ok_0 is Some && r->Ok_0->0@ == t@,
        value is NotUnicode ==> r is Err && r->Err_0@ == AUTH_TOKEN_ENV@
            + " must be valid Unicode"@,
{
    let required = match profile {
        Some(p) => p.execution_policy().daemon_auth_required,
        None => false,
    };
    configured_auth_token(value, required)
}

/// An error response with this message, and nothing else.
pub open spec fn is_error(r: DaemonResponse, message: Seq<char>) -> bool {
    match r {
        DaemonResponse::Error { message: m, events, nexusiq } => m@ == message && events@.len() == 0
            && nexusiq is None,
        _ => false,
    }
}

/// The response to a probe.
pub open spec fn is_pong(r: DaemonResponse) -> bool {
    match r {
        DaemonResponse::Pong { version } => version@ == crate::VERSION@,
        _ => false,
    }
}

fn error_response(message: String) -> (r: DaemonResponse)
    ensures
        is_error(r, message@),
{
    DaemonResponse::Error { message, events: Vec::new(), nexusiq: None }
}

fn pong() -> (r: DaemonResponse)
    ensures
        is_pong(r),
{
    DaemonResponse::Pong { version: crate::VERSION.to_string() }
}

/// The token that a request shows.
pub open spec fn shown_token(req: DaemonRequest) -> Option<Seq<char>> {
    match req {
        DaemonRequest::Ping => None,
        DaemonRequest::Execute {
            name,
            wasm_bytes,
            wasm_path,
            entry,
            input,
            auth_token,
            aeon,
        } => text::opt_text(auth_token),
        DaemonRequest::Shutdown { auth_token } => text::opt_text(auth_token),
    }
}

/// Whether a request may be served: a probe always, and anything else where no
/// token is asked for or the right one is shown.
pub open spec fn admitted(req: DaemonRequest, token: Option<Seq<char>>) -> bool {
    req is Ping || token is None || shown_token(req) == token
}

/// The refusal of a request that may not be served.
pub fn unauthorized_response(req: &DaemonRequest, auth_token: Option<&str>) -> (r: Option<
    DaemonResponse,
>)
    ensures
        r is None <==> admitted(*req, crate::daemon::slice_text(auth_token)),
        r is Some ==> is_error(r->0, UNAUTHORIZED_MESSAGE@),
{
    let configured: &str = match auth_token {
        Some(t) => t,
        None => {
            return None;
        },
    };
    let supplied: &Option<String> = match req {
        DaemonRequest::Ping => {
            return None;
        },
        DaemonRequest::Execute { auth_token, .. } => auth_token,
        DaemonRequest::Shutdown { auth_token } => auth_token,
    };
    let ok: bool = match supplied {
        Some(t) => constant_time::same_secret(t.as_str(), configured),
        None => false,
    };
    if ok {
        None
    } else {
        Some(error_response(UNAUTHORIZED_MESSAGE.to_string()))
    }
}

/// A request whose module must still be read.
#[derive(Debug, Clone, PartialEq, Eq)]
pub struct PendingModule {
    pub name: String,
    pub path: String,
    pub entry: String,
    pub input: String,
    pub aeon: DaemonAeonExecuteOptions,
}

/// How an attested execution is asked for.
#[derive(Debug, Clone, PartialEq, Eq)]
pub struct ProofOptions {
    /// The tokens that the caller shows, as JSON. Without them nothing is
    /// checked; with them a denial may be negotiated.
    pub caller_capabilities: Option<Vec<String>>,
    /// The mode in which the execution is told.
    pub attestation_mode: Option<String>,
}

/// A tool that is ready to be run, with its input.
#[derive(Debug, Clone, PartialEq, Eq)]
pub struct Job {
    pub tool: ToolDefinition,
    pub input: String,
    /// How the execution is attested, if it is.
    pub proof: Option<ProofOptions>,
}

/// What is done with a request.
#[derive(Debug, Clone, PartialEq, Eq)]
pub enum Serving {
    /// Answer this.
    Reply(DaemonResponse),
    /// Stop the daemon, and answer this.
    Stop(DaemonResponse),
    /// Read the module.
    Read(PendingModule),
    /// Run the tool on a free instance.
    Run(Job),
}

/// Whether the options of a request ask for this attestation: one is made only
/// where it is asked for.
pub open spec fn is_proof(p: Option<ProofOptions>, aeon: DaemonAeonExecuteOptions) -> bool {
    if aeon.emit_proof {
        &&& p is Some
        &&& p->0.caller_capabilities == aeon.caller_capabilities
        &&& p->0.attestation_mode == aeon.attestation_mode
    } else {
        p is None
    }
}

/// The job of running these bytes with these options. The tool carries the
/// agent, the session and the digest of the request. What the request says the
/// tool requires counts where the execution is attested.
pub open spec fn is_job(
    j: Job,
    name: Seq<char>,
    bytes: Seq<u8>,
    entry: Seq<char>,
    input: Seq<char>,
    aeon: DaemonAeonExecuteOptions,
) -> bool {
    &&& j.tool.name@ == name
    &&& j.tool.wasm_bytes@ == bytes
    &&& j.tool.entry_point@ == entry
    &&& j.tool.required_capabilities@ == (if aeon.emit_proof && aeon.required_capabilities
        is Some {
        aeon.required_capabilities->0@
    } else {
        Seq::empty()
    })
    &&& j.tool.aeon_agent_id == aeon.aeon_agent_id
    &&& j.tool.aeon_session_id == aeon.aeon_session_id
    &&& j.tool.aeon_memory_evidence_digest == aeon.aeon_memory_evidence_digest
    &&& j.input@ == input
    &&& is_proof(j.proof, aeon)
}

fn job_of(
    name: String,
    bytes: Vec<u8>,
    entry: &str,
    input: String,
    aeon: DaemonAeonExecuteOptions,
) -> (r: Job)
    ensures
        is_job(r, name@, bytes@, entry@, input@, aeon),
{
    let plain = ToolDefinition::new(name, bytes).with_entry(entry).with_aeon_context(
        aeon.aeon_agent_id,
        aeon.aeon_session_id,
    ).with_aeon_memory_evidence_digest(aeon.aeon_memory_evidence_digest);
    assert(plain.required_capabilities@ =~= Seq::empty());
    if !aeon.emit_proof {
        return Job { tool: plain, input, proof: None };
    }
    let tool = match aeon.required_capabilities {
        Some(caps) => plain.with_capabilities(caps),
        None => plain,
    };
    Job {
        tool,
        input,
        proof: Some(
            ProofOptions {
                caller_capabilities: aeon.caller_capabilities,
                attestation_mode: aeon.attestation_mode,
            },
        ),
    }
}

/// What is done with a request.
pub open spec fn served(req: DaemonRequest, token: Option<Seq<char>>, r: Serving) -> bool {
    if !admitted(req, token) {
        r is Reply && is_error(r->Reply_0, UNAUTHORIZED_MESSAGE@)
    } else {
        match req {
            DaemonRequest::Ping => r is Reply && is_pong(r->Reply_0),
            DaemonRequest::Shutdown { auth_token } => r is Stop && is_pong(r->Stop_0),
            DaemonRequest::Execute {
                name,
                wasm_bytes,
                wasm_path,
                entry,
                input,
                auth_token,
                aeon,
            } => match (wasm_bytes, wasm_path) {
                (Some(b), _) => r is Run && is_job(r->Run_0, name@, b@, entry@, input@, aeon),
                (None, Some(p)) => {
                    &&& r is Read
                    &&& r->Read_0.name@ == name@
                    &&& r->Read_0.path@ == p@
                    &&& r->Read_0.entry@ == entry@
                    &&& r->Read_0.input@ == input@
                    &&& r->Read_0.aeon == aeon
                },
                (None, None) => r is Reply && is_error(
                    r->Reply_0,
                    "request missing wasm_bytes and wasm_path"@,
                ),
            },
        }
    }
}

/// Decides what is done with a request.
pub fn serve(req: DaemonRequest, auth_token: Option<&str>) -> (r: Serving)
    ensures
        served(req, crate::daemon::slice_text(auth_token), r),
{
    if let Some(refusal) = unauthorized_response(&req, auth_token) {
        return Serving::Reply(refusal);
    }
    match req {
        DaemonRequest::Ping => Serving::Reply(pong()),
        DaemonRequest::Shutdown { .. } => Serving::Stop(pong()),
        DaemonRequest::Execute { name, wasm_bytes, wasm_path, entry, input, auth_token: _, aeon } => {
            match wasm_bytes {
                Some(b) => Serving::Run(job_of(name, b, entry.as_str(), input, aeon)),
                None => match wasm_path {
                    Some(path) => Serving::Read(PendingModule { name, path, entry, input, aeon }),
                    None => Serving::Reply(
                        error_response("request missing wasm_bytes and wasm_path".to_string()),
                    ),
                },
            }
        },
    }
}

/// Goes on once the module was read, or could not be.
pub fn after_read(pending: PendingModule, bytes: Option<Vec<u8>>) -> (r: Result<
    Job,
    DaemonResponse,
>)
    ensures
        match r {
            Ok(j) => bytes is Some && is_job(
                j,
                pending.name@,
                bytes->0@,
                pending.entry@,
                pending.input@,
                pending.aeon,
            ),
            Err(e) => bytes is None && is_error(e, WASM_PATH_REJECTED_MESSAGE@),
        },
{
    match bytes {
        Some(b) => Ok(
            job_of(pending.name, b, pending.entry.as_str(), pending.input, pending.aeon),
        ),
        None => Err(error_response(WASM_PATH_REJECTED_MESSAGE.to_string())),
    }
}

/// Goes on once an instance was lent, or could not be.
pub fn after_acquire(job: Job, outcome: Result<(), String>) -> (r: Result<Job, DaemonResponse>)
    ensures
        match r {
            Ok(j) => outcome is Ok && j == job,
            Err(e) => outcome is Err && is_error(e, "pool acquire failed: "@ + outcome->Err_0@),
        },
{
    match outcome {
        Ok(_) => Ok(job),
        Err(e) => Err(error_response(text::cat2("pool acquire failed: ", e.as_str()))),
    }
}

/// Goes on once the module was compiled, or could not be.
pub fn after_compile(job: Job, outcome: Result<(), String>) -> (r: Result<Job, DaemonResponse>)
    ensures
        match r {
            Ok(j) => outcome is Ok && j == job,
            Err(e) => outcome is Err && is_error(e, "module compile failed: "@ + outcome->Err_0@),
        },
{
    match outcome {
        Ok(_) => Ok(job),
        Err(e) => Err(error_response(text::cat2("module compile failed: ", e.as_str()))),
    }
}

/// Whether `r` answers with what an execution came to.
pub open spec fn is_run_answer(outcome: Result<ToolOutput, String>, r: DaemonResponse) -> bool {
    match outcome {
        Ok(out) => match r {
            DaemonResponse::Executed { output, events, nexusiq } => output == out && events@.len()
                == 0 && nexusiq is None,
            _ => false,
        },
        Err(e) => is_error(r, e@),
    }
}

/// Answers with what an execution came to.
pub fn after_run(outcome: Result<ToolOutput, String>) -> (r: DaemonResponse)
    ensures
        is_run_answer(outcome, r),
{
    match outcome {
        Ok(output) => DaemonResponse::Executed { output, events: Vec::new(), nexusiq: None },
        Err(e) => error_response(e),
    }
}

/// What an answer says of the evidence of an attested execution.
pub open spec fn is_evidence(
    e: DaemonNexusIqEvidence,
    capsule: ProofCapsule,
    status: Option<TimelineDeliveryStatus>,
) -> bool {
    &&& e.proof_capsule == Some(capsule)
    &&& text::opt_text(e.proof_capsule_ref) == Some(capsule.capsule_id@)
    &&& match capsule.memory_evidence {
        Some(m) => {
            &&& e.memory_evidence_ref is Some
            &&& e.memory_evidence_ref->0.digest_value@ == m.digest_value@
            &&& e.memory_evidence_ref->0.json@ == m.json@
        },
        None => e.memory_evidence_ref is None,
    }
    &&& e.timeline_delivery_status == status
    &&& e.denial_negotiation == (match capsule.capabilities.negotiation_rounds {
        Some(n) => Some(DaemonDenialNegotiation { negotiated: true, rounds: Some(n) }),
        None => None,
    })
}

/// Whether `r` answers with what an attested execution came to.
pub open spec fn is_proof_answer(
    outcome: Result<(ToolOutput, ProofCapsule), (NexusError, String)>,
    status: Option<TimelineDeliveryStatus>,
    r: DaemonResponse,
) -> bool {
    match outcome {
        Ok(p) => match r {
            DaemonResponse::Executed { output, events, nexusiq } => {
                &&& output == p.0
                &&& execute::event_views(events@) == execute::told_of(
                    text::opt_text(p.0.snapshot_id),
                    p.1.capsule_id@,
                    p.1.capabilities.negotiation_rounds,
                )
                &&& nexusiq is Some
                &&& is_evidence(nexusiq->0, p.1, status)
            },
            _ => false,
        },
        Err(e) => match r {
            DaemonResponse::Error { message, events, nexusiq } => {
                &&& message == e.1
                &&& execute::event_views(events@) == (if e.0@ is CapabilityDenied {
                    seq![execute::Told::Denied("capability_denied"@)]
                } else {
                    Seq::empty()
                })
                &&& nexusiq is None
            },
            _ => false,
        },
    }
}

/// Answers with what an attested execution came to: its output and capsule, or
/// its error and how that reads. `status` is how telling it went, where it was
/// told.
pub fn after_proof(
    outcome: Result<(ToolOutput, ProofCapsule), (NexusError, String)>,
    status: Option<TimelineDeliveryStatus>,
) -> (r: DaemonResponse)
    ensures
        is_proof_answer(outcome, status, r),
{
    match outcome {
        Ok(p) => {
            let (output, capsule) = p;
            let events = proof_events(
                &output.snapshot_id,
                capsule.capsule_id.as_str(),
                capsule.capabilities.negotiation_rounds,
            );
            let memory_evidence_ref: Option<MemoryEvidenceRef> = match &capsule.memory_evidence {
                Some(m) => Some(
                    MemoryEvidenceRef {
                        digest_value: m.digest_value.clone(),
                        json: m.json.clone(),
                    },
                ),
                None => None,
            };
            let denial_negotiation: Option<DaemonDenialNegotiation> =
                match capsule.capabilities.negotiation_rounds {
                Some(n) => Some(DaemonDenialNegotiation { negotiated: true, rounds: Some(n) }),
                None => None,
            };
            let evidence = DaemonNexusIqEvidence {
                proof_capsule_ref: Some(capsule.capsule_id.clone()),
                proof_capsule: Some(capsule),
                memory_evidence_ref,
                timeline_delivery_status: status,
                denial_negotiation,
            };
            DaemonResponse::Executed { output, events, nexusiq: Some(evidence) }
        },
        Err(e) => {
            let events = if is_capability_denial(&e.0) {
                denial_events()
            } else {
                Vec::new()
            };
            assert(!(e.0@ is CapabilityDenied) ==> execute::event_views(events@) =~= Seq::empty());
            DaemonResponse::Error { message: e.1, events, nexusiq: None }
        },
    }
}

/// The directories that modules may be read from. `dirs` holds each configured
/// directory, resolved, and none for one that could not be; the list is none
/// where nothing is configured.
pub fn allowed_agentd_module_dirs(dirs: &Option<Vec<Option<String>>>) -> (r: Result<
    Vec<String>,
    String,
>)
    ensures
        are_module_dirs(*dirs, r),
{
    match dirs {
        None => Err(WASM_PATH_REJECTED_MESSAGE.to_string()),
        Some(list) => {
            if list.len() == 0 {
                return Err(WASM_PATH_REJECTED_MESSAGE.to_string());
            }
            let mut out: Vec<String> = Vec::new();
            let mut i: usize = 0;
            while i < list.len()
                invariant
                    i <= list.len(),
                    out@.len() == i,
                    list@.len() > 0,
                    dirs is Some,
                    *list == dirs->0,
                    forall|j: int|
                        0 <= j < i ==> (#[trigger] list@[j]) is Some && out@[j]@ == list@[j]->0@,
                decreases list.len() - i,
            {
                match &list[i] {
                    Some(d) => {
                        out.push(d.clone());
                    },
                    None => {
                        assert(list@[i as int] is None);
                        return Err(WASM_PATH_REJECTED_MESSAGE.to_string());
                    },
                }
                i = i + 1;
            }
            Ok(out)
        },
    }
}

/// Judges an open file by its resolved path: it must be a plain file below an
/// allowed directory. `resolved` is none where the file could not be opened or
/// its path not be resolved.
pub fn open_agentd_wasm_path_with_dirs(
    is_file: bool,
    resolved: Option<&str>,
    allowed_dirs: &Vec<String>,
) -> (r: Result<String, String>)
    ensures
        is_opened(is_file, crate::daemon::slice_text(resolved), text::texts(allowed_dirs@), r),
{
    match resolved {
        Some(p) => if is_file && paths::path_is_under_any(p, allowed_dirs) {
            Ok(p.to_string())
        } else {
            Err(WASM_PATH_REJECTED_MESSAGE.to_string())
        },
        None => Err(WASM_PATH_REJECTED_MESSAGE.to_string()),
    }
}

/// Where a token is asked for, nothing is run, read or stopped for a caller
/// that does not show it.
pub proof fn lemma_refused_callers_do_nothing(req: DaemonRequest, token: Seq<char>, r: Serving)
    requires
        !(req is Ping),
        shown_token(req) != Some(token),
        served(req, Some(token), r),
    ensures
        r is Reply,
        is_error(r->Reply_0, UNAUTHORIZED_MESSAGE@),
{
}

/// What a request says of memory and attestation reaches its job, whether the
/// module came with the request or is read first.
pub proof fn lemma_options_reach_the_job(
    req: DaemonRequest,
    token: Option<Seq<char>>,
    r: Serving,
    bytes: Seq<u8>,
    j: Job,
)
    requires
        req is Execute,
        served(req, token, r),
        match r {
            Serving::Run(x) => j == x,
            Serving::Read(p) => is_job(j, p.name@, bytes, p.entry@, p.input@, p.aeon),
            _ => false,
        },
    ensures
        j.tool.aeon_agent_id == req->aeon.aeon_agent_id,
        j.tool.aeon_session_id == req->aeon.aeon_session_id,
        j.tool.aeon_memory_evidence_digest == req->aeon.aeon_memory_evidence_digest,
        j.proof is Some <==> req->aeon.emit_proof,
        j.proof is Some ==> j.proof->0.caller_capabilities == req->aeon.caller_capabilities
            && j.proof->0.attestation_mode == req->aeon.attestation_mode,
        j.proof is None ==> j.tool.required_capabilities@.len() == 0,
{
}

/// A request is served as what it is: a ping is answered to anybody, a stop
/// stops, and an execution runs the given bytes, or reads the given path where
/// there are none, at the given entry point and on the given input.
pub proof fn lemma_requests_are_served(req: DaemonRequest, token: Option<Seq<char>>, r: Serving)
    requires
        served(req, token, r),
    ensures
        req is Ping ==> r is Reply && r->Reply_0 is Pong,
        r is Stop ==> req is Shutdown && (token is None || req->Shutdown_auth_token is Some
            && req->Shutdown_auth_token->0@ == token->0),
        req is Shutdown && token is None ==> r is Stop,
        r matches Serving::Run(j) ==> (req matches DaemonRequest::Execute {
            name,
            wasm_bytes,
            entry,
            input,
            auth_token,
            ..
        } && wasm_bytes is Some && j.tool.wasm_bytes@ == wasm_bytes->0@ && j.tool.name@ == name@
            && j.tool.entry_point@ == entry@ && j.input@ == input@ && (token is Some
            ==> auth_token is Some && auth_token->0@ == token->0)),
        r matches Serving::Read(p) ==> (req matches DaemonRequest::Execute {
            name,
            wasm_bytes,
            wasm_path,
            entry,
            input,
            auth_token,
            ..
        } && wasm_bytes is None && wasm_path is Some && p.path@ == wasm_path->0@ && p.name@ == name@
            && p.entry@ == entry@ && p.input@ == input@ && (token is Some ==> auth_token is Some
            && auth_token->0@ == token->0)),
        token is None && (req matches DaemonRequest::Execute { wasm_bytes, .. } && wasm_bytes
            is Some) ==> r is Run,
{
}

/// Evidence that goes with an answer is that of the capsule: the capsule itself,
/// its name, the memory that it is bound to, and how often was negotiated; and
/// how the delivery went.
pub proof fn lemma_evidence_is_of_the_capsule(
    e: DaemonNexusIqEvidence,
    capsule: ProofCapsule,
    status: Option<TimelineDeliveryStatus>,
)
    requires
        is_evidence(e, capsule, status),
    ensures
        e.proof_capsule == Some(capsule),
        e.proof_capsule_ref is Some && e.proof_capsule_ref->0@ == capsule.capsule_id@,
        e.memory_evidence_ref is Some <==> capsule.memory_evidence is Some,
        e.memory_evidence_ref is Some ==> e.memory_evidence_ref->0.digest_value@
            == capsule.memory_evidence->0.digest_value@,
        e.denial_negotiation is Some <==> capsule.capabilities.negotiation_rounds is Some,
        e.denial_negotiation matches Some(d) ==> d.negotiated && d.rounds
            == capsule.capabilities.negotiation_rounds,
        e.timeline_delivery_status == status,
{
}

/// A token that is set is asked for; without one nobody is asked, unless one is
/// required: then, or where it cannot be read, the daemon does not start.
pub proof fn lemma_tokens_are_asked_for(
    value: EnvValue,
    required: bool,
    r: Result<Option<String>, String>,
)
    requires
        is_token_setting(value, required, r),
    ensures
        value matches EnvValue::Value(t) ==> (r matches Ok(Some(x)) && x@ == t@),
        r matches Ok(None) ==> value is Absent && !required,
        value is Absent && required ==> r is Err,
        value is NotUnicode ==> r is Err,
        required && r is Ok ==> r->Ok_0 is Some,
{
}

/// An execution is answered with its output where it came about, and else with
/// the error; an attested one with its capsule and its events besides, the
/// capsule's last, and a denial with one event that says so.
pub proof fn lemma_executions_are_answered(
    run: Result<ToolOutput, String>,
    ran: DaemonResponse,
    outcome: Result<(ToolOutput, ProofCapsule), (NexusError, String)>,
    status: Option<TimelineDeliveryStatus>,
    r: DaemonResponse,
)
    requires
        is_run_answer(run, ran),
        is_proof_answer(outcome, status, r),
    ensures
        run matches Ok(out) ==> (ran matches DaemonResponse::Executed { output, nexusiq, .. }
            && output == out && nexusiq is None),
        run matches Err(e) ==> (ran matches DaemonResponse::Error { message, .. } && message@ == e@),
        outcome matches Ok(p) ==> (r matches DaemonResponse::Executed { output, events, nexusiq }
            && output == p.0 && nexusiq is Some && nexusiq->0.proof_capsule == Some(p.1)
            && events@.len() > 0 && execute::event_view(events@.last()) == execute::Told::Capsule(
            p.1.capsule_id@,
        )),
        outcome matches Err(e) ==> (r matches DaemonResponse::Error { message, events, nexusiq }
            && message == e.1 && nexusiq is None && (events@.len() == 1 <==> e.0 is CapabilityDenied)
            && events@.len() <= 1),
{
    match r {
        DaemonResponse::Executed { output, events, nexusiq } => {
            let views = execute::event_views(events@);
            assert(views.len() == events@.len());
            if outcome is Ok {
                assert(views.last() == execute::event_view(events@.last()));
            }
        },
        DaemonResponse::Error { message, events, nexusiq } => {
            assert(execute::event_views(events@).len() == events@.len());
        },
        _ => {},
    }
}

/// Whether `r` is the file that may be read, or the refusal.
pub open spec fn is_opened(
    is_file: bool,
    resolved: Option<Seq<char>>,
    dirs: Seq<Seq<char>>,
    r: Result<String, String>,
) -> bool {
    match r {
        Ok(p) => is_file && resolved == Some(p@) && paths::under_any(p@, dirs),
        Err(e) => e@ == WASM_PATH_REJECTED_MESSAGE@ && (!is_file || resolved is None
            || !paths::under_any(resolved->0, dirs)),
    }
}

/// A plain file below an allowed directory is opened, under its resolved path;
/// anything else is refused, and the refusals do not differ.
pub proof fn lemma_files_inside_are_opened(
    is_file: bool,
    resolved: Option<Seq<char>>,
    dirs: Seq<Seq<char>>,
    r: Result<String, String>,
    q: Result<String, String>,
    other: Option<Seq<char>>,
)
    requires
        is_opened(is_file, resolved, dirs, r),
        is_opened(is_file, other, dirs, q),
    ensures
        r is Ok <==> is_file && resolved is Some && paths::under_any(resolved->0, dirs),
        r matches Ok(p) ==> resolved == Some(p@),
        dirs.len() == 0 ==> r is Err,
        r is Err && q is Err ==> r->Err_0@ == q->Err_0@,
{
}

/// Whether `r` holds the directories that modules may be read from.
pub open spec fn are_module_dirs(
    dirs: Option<Vec<Option<String>>>,
    r: Result<Vec<String>, String>,
) -> bool {
    match r {
        Ok(v) => dirs is Some && dirs->0@.len() > 0 && v@.len() == dirs->0@.len() && forall|i: int|
            0 <= i < v@.len() ==> (#[trigger] dirs->0@[i]) is Some && v@[i]@ == dirs->0@[i]->0@,
        Err(e) => e@ == WASM_PATH_REJECTED_MESSAGE@ && (dirs is None || dirs->0@.len() == 0
            || exists|i: int| 0 <= i < dirs->0@.len() && #[trigger] dirs->0@[i] is None),
    }
}

/// Every directory that is configured must be there, and there must be one: then
/// they are all taken, in order, and otherwise none.
pub proof fn lemma_configured_directories_must_be_there(
    dirs: Option<Vec<Option<String>>>,
    r: Result<Vec<String>, String>,
    i: int,
)
    requires
        are_module_dirs(dirs, r),
    ensures
        dirs is None ==> r is Err,
        dirs is Some && dirs->0@.len() == 0 ==> r is Err,
        dirs is Some && 0 <= i < dirs->0@.len() && dirs->0@[i] is None ==> r is Err,
        r is Ok && 0 <= i < r->Ok_0@.len() ==> dirs is Some && i < dirs->0@.len()
            && dirs->0@[i] is Some && r->Ok_0@[i]@ == dirs->0@[i]->0@,
        dirs is Some && dirs->0@.len() > 0 && (forall|j: int|
            0 <= j < dirs->0@.len() ==> (#[trigger] dirs->0@[j]) is Some) ==> r is Ok
            && r->Ok_0@.len() == dirs->0@.len(),
{
    if r is Ok && 0 <= i < r->Ok_0@.len() {
        assert(dirs->0@[i] is Some);
    }
}

/// A token is asked for exactly where there is a profile that says so.
pub proof fn lemma_profiles_ask_for_tokens(p: CapabilityProfileManifest)
    ensures
        profile_asks(Some(p)) <==> p.execution.daemon_auth_required,
        !profile_asks(None),
{
}

} // verus!
