//! The attested tool as a whole: which step follows which. What memory, tokens,
//! execution and delivery come to is told by events, and what is done next is
//! an action.

use crate::aeon::config::AeonConfig;
use crate::aeon::memory;
use crate::aeon::memory::{AeonMemoryClient, MemoryRecallEvidence, SearchHit};
use crate::aeon::timeline;
use crate::aeon::timeline::{TimelineDeliveryMode, TimelineDeliveryStatus};
use crate::attestation::schema::ProofCapsule;
use crate::daemon;
use crate::daemon::NexusExecutionEvent;
use crate::error::NexusError;
use crate::hypervisor::proof_run;
use crate::hypervisor::proof_run::{ProofAction, ProofEvent, ProofRun};
use crate::hypervisor::tool::ToolOutput;
use crate::json;
use crate::mcp::capability::opt_str;
use crate::mcp::error;
use crate::mcp::error::{DenialReason, ToolError};
use crate::mcp::execute;
use crate::mcp::gate::ToolGate;
use crate::mcp::iq;
use crate::mcp::iq::{
    deliver_nexus_iq_timeline, iq_admit, iq_authorize, iq_conclude, iq_job, iq_memory_client,
    iq_memory_digest, iq_memory_limit, iq_memory_scope, iq_recall, iq_response, iq_scope_refusal,
    nexus_iq_denial_response, IqAdmission, IqAuthorization, IqConclusion, IqJob,
    NexusIqExecuteResponse,
};
use crate::mcp::params::{CapabilitySpec, NexusIqExecuteParams};
use crate::mcp::tokens::TokenState;
use crate::profile;
use crate::security::Capability;
use crate::text;
use vstd::prelude::*;

verus! {

/// A request, with what its stages read.
#[derive(Clone, PartialEq, Eq)]
pub struct IqRequest {
    pub params: NexusIqExecuteParams,
    /// How memory is reached, if it is.
    pub config: Option<AeonConfig>,
    /// For each needed capability the JSON object that it is written as, if it
    /// is.
    pub objects: Vec<Option<CapabilitySpec>>,
    /// For each needed capability what is wrong with it as a pattern of
    /// addresses.
    pub url_faults: Vec<Option<String>>,
    /// Whether a profile is active.
    pub profiled: bool,
}

impl IqRequest {
    /// There is one reading for each needed capability.
    pub open spec fn valid(self) -> bool {
        &&& self.objects@.len() == iq::needed(self.params).len()
        &&& self.url_faults@.len() == iq::needed(self.params).len()
    }

    /// The mode in which events are told.
    pub open spec fn mode(self) -> TimelineDeliveryMode {
        timeline::mode_of(text::opt_text(self.params.attestation_mode))
    }

    /// Whether there is somewhere to tell events.
    pub open spec fn has_sink(self) -> bool {
        self.config is Some && memory::usable(self.config->0@)
    }
}

/// Where a request stands.
pub enum IqPhase {
    /// The caller's right to the memory is checked.
    Scoping,
    /// The recall is counted.
    Limiting,
    /// Memory is recalled through this client, if there is one.
    Recalling { client: Option<AeonMemoryClient> },
    /// Tokens are issued for what the job needs.
    Authorizing { job: IqJob, recall: MemoryRecallEvidence },
    /// The job is run.
    Running { job: IqJob, recall: MemoryRecallEvidence },
    /// The denial is told.
    TellingDenial { recall: MemoryRecallEvidence, reason: DenialReason },
    /// The execution is told.
    TellingRun {
        output: ToolOutput,
        capsule: ProofCapsule,
        events: Vec<NexusExecutionEvent>,
        recall: MemoryRecallEvidence,
    },
    Finished,
}

/// What happens to a request.
pub enum IqEvent {
    ScopeGranted,
    /// Why the right to the memory is refused.
    ScopeRefused(String),
    RecallCounted,
    /// The complaint about too many recalls.
    RecallLimited(ToolError),
    /// What the memory service replied, if it did.
    Recalled(Option<(u16, Option<Vec<SearchHit>>)>),
    /// Whether tokens were refused, and the tokens as they were issued and as
    /// they are now.
    Tokens { refused: bool, issued: Vec<TokenState>, used: Vec<TokenState> },
    Ran(Result<(ToolOutput, ProofCapsule), NexusError>),
    /// How the delivery went that was awaited.
    Told(TimelineDeliveryStatus),
}

/// What is done next for a request.
pub enum IqAction {
    /// Check that the caller has this right.
    CheckScope(Capability),
    /// Count a recall of the agent's memory.
    CountRecall,
    /// Recall at most so many memories.
    Recall { limit: usize },
    /// Issue tokens for what the job needs.
    IssueTokens,
    /// Run the job.
    Run { with_tokens: bool },
    /// Tell the events.
    Tell,
    /// Answer this.
    Finish(Result<NexusIqExecuteResponse, ToolError>),
}

/// A request on its way.
pub struct IqRun {
    pub request: IqRequest,
    pub phase: IqPhase,
}

/// Whether an event can come in a phase.
pub open spec fn expected(phase: IqPhase, event: IqEvent) -> bool {
    match phase {
        IqPhase::Scoping => event is ScopeGranted || event is ScopeRefused,
        IqPhase::Limiting => event is RecallCounted || event is RecallLimited,
        IqPhase::Recalling { .. } => event is Recalled,
        IqPhase::Authorizing { .. } => event is Tokens,
        IqPhase::Running { .. } => event is Ran,
        IqPhase::TellingDenial { .. } => event is Told,
        IqPhase::TellingRun { .. } => event is Told,
        IqPhase::Finished => false,
    }
}

/// Whether the request ends with this complaint.
pub open spec fn fails(next: IqPhase, action: IqAction, why: error::Why) -> bool {
    &&& next is Finished
    &&& action matches IqAction::Finish(Err(e)) && e@ == why
}

/// Whether `r` is what a reading of the request's job came to.
pub open spec fn is_job(
    r: Result<IqJob, ToolError>,
    q: IqRequest,
    digest: Option<Seq<char>>,
) -> bool {
    iq::is_job_of(
        r,
        q.params,
        daemon::base64_reading(text::trimmed(q.params.tool_wasm@)),
        json::json_fault(q.params.input@),
        iq::all_described(iq::needed(q.params), q.objects@, q.url_faults@),
        digest,
    )
}

/// What follows a recall: the job is prepared, and needs tokens or not.
pub open spec fn follows_recall(
    q: IqRequest,
    client: Option<AeonMemoryClient>,
    reply: Option<(u16, Option<Vec<SearchHit>>)>,
    next: IqPhase,
    action: IqAction,
) -> bool {
    match next {
        IqPhase::Finished => action matches IqAction::Finish(Err(e)) && is_job(Err(e), q, None),
        IqPhase::Authorizing { job, recall } => {
            &&& action is IssueTokens
            &&& job.tool.required_capabilities@.len() > 0
            &&& iq::is_recall(recall, text::opt_text(q.params.memory_query), client, reply)
            &&& is_job(Ok(job), q, iq::memory_digest_of(recall.evidence, iq::key_of(q.config)))
        },
        IqPhase::Running { job, recall } => {
            &&& action == IqAction::Run { with_tokens: false }
            &&& job.tool.required_capabilities@.len() == 0
            &&& iq::is_recall(recall, text::opt_text(q.params.memory_query), client, reply)
            &&& is_job(Ok(job), q, iq::memory_digest_of(recall.evidence, iq::key_of(q.config)))
        },
        _ => false,
    }
}

/// Whether the denial of a request is told next.
pub open spec fn is_denied(
    recall: MemoryRecallEvidence,
    reason: DenialReason,
    next: IqPhase,
    action: IqAction,
) -> bool {
    next == (IqPhase::TellingDenial { recall, reason }) && action is Tell
}

/// What follows from an event: the next phase, and what is done.
pub open spec fn follows(
    q: IqRequest,
    phase: IqPhase,
    event: IqEvent,
    next: IqPhase,
    action: IqAction,
) -> bool {
    match (phase, event) {
        (IqPhase::Scoping, IqEvent::ScopeGranted) => next is Limiting && action is CountRecall,
        (IqPhase::Scoping, IqEvent::ScopeRefused(why)) => fails(
            next,
            action,
            iq::scope_refusal(why@),
        ),
        (IqPhase::Limiting, IqEvent::RecallCounted) => {
            &&& action == (IqAction::Recall { limit: iq::memory_limit(q.params) })
            &&& next matches IqPhase::Recalling { client } && iq::is_iq_client(
                client,
                q.params,
                q.config,
            )
        },
        (IqPhase::Limiting, IqEvent::RecallLimited(e)) => fails(next, action, e@),
        (IqPhase::Recalling { client }, IqEvent::Recalled(reply)) => follows_recall(
            q,
            client,
            reply,
            next,
            action,
        ),
        (IqPhase::Authorizing { job, recall }, IqEvent::Tokens { refused, issued, used }) =>
            match iq::authorization(
                job.tool.required_capabilities@.len() > 0,
                refused,
                issued@,
                used@,
                q.profiled,
            ) {
                Err(w) => fails(next, action, w),
                Ok(IqAuthorization::Denied) => is_denied(
                    recall,
                    DenialReason::CapabilityNotPermitted,
                    next,
                    action,
                ),
                Ok(a) => next == (IqPhase::Running { job, recall }) && action == (IqAction::Run {
                    with_tokens: a == IqAuthorization::WithTokens,
                }),
            },
        (IqPhase::Running { job, recall }, IqEvent::Ran(outcome)) => {
            let expected = text::opt_text(job.memory_digest);
            match next {
                IqPhase::Finished => action matches IqAction::Finish(Err(e)) && iq::concluded(
                    Err(e),
                    outcome,
                    expected,
                ),
                IqPhase::TellingDenial { recall: kept, reason } => is_denied(
                    recall,
                    DenialReason::CapabilityNotPermitted,
                    next,
                    action,
                ) && iq::concluded(Ok(IqConclusion::Denied), outcome, expected),
                IqPhase::TellingRun { output, capsule, events, recall: kept } => action is Tell
                    && kept == recall && iq::concluded(
                    Ok(IqConclusion::Ran { output, capsule, events }),
                    outcome,
                    expected,
                ),
                _ => false,
            }
        },
        (IqPhase::TellingDenial { recall, reason }, IqEvent::Told(status)) => {
            &&& next is Finished
            &&& action matches IqAction::Finish(Ok(r)) && iq::is_denial(
                r,
                recall.evidence,
                recall.hits@.len() as usize,
                q.mode(),
                iq::telling_status(q.has_sink(), q.mode(), status),
                reason,
            )
        },
        (
            IqPhase::TellingRun { output, capsule, events, recall },
            IqEvent::Told(status),
        ) => {
            &&& next is Finished
            &&& action matches IqAction::Finish(Ok(r)) && iq::is_answer(
                r,
                output,
                capsule,
                events,
                recall.evidence,
                recall.hits@.len() as usize,
                q.mode(),
                iq::telling_status(q.has_sink(), q.mode(), status),
            )
        },
        _ => false,
    }
}

/// What begins a request: it is refused, denied, or admitted; and where it
/// recalls memory, the right to that memory is checked first.
pub open spec fn begins(
    tools: ToolGate,
    iq_allowlist: Option<Vec<String>>,
    q: IqRequest,
    next: IqPhase,
    action: IqAction,
) -> bool {
    match execute::proof_refused(tools, "nexus_iq_execute"@) {
        Some(w) => fails(next, action, w),
        None => if !profile::list_permits(
            profile::opt_texts(iq_allowlist),
            q.params.tool_name@,
        ) {
            next matches IqPhase::TellingDenial { recall, reason } && action is Tell && reason
                == DenialReason::ToolNotAllowed && iq::is_recall(recall, None, None, None)
        } else if q.params.memory_query is Some {
            next is Scoping && (action matches IqAction::CheckScope(c) && c@ == iq::memory_right(
                q.params,
            ))
        } else {
            follows_recall(q, None, None, next, action)
        },
    }
}

/// What was recalled where nothing is.
fn nothing_recalled() -> (r: MemoryRecallEvidence)
    ensures
        iq::is_recall(r, None, None, None),
{
    let hits: Vec<memory::MemoryHit> = Vec::new();
    let evidence = memory::MemoryEvidenceV1::new(
        "",
        &hits,
        crate::attestation::schema::MemoryAttestationMode::Absent,
    );
    assert(memory::hits_view(hits@) =~= Seq::<memory::Hit>::empty());
    MemoryRecallEvidence { hits, evidence }
}

/// Goes on once memory was recalled, or was not to be.
fn after_recall(
    request: IqRequest,
    client: &Option<AeonMemoryClient>,
    reply: &Option<(u16, Option<Vec<SearchHit>>)>,
) -> (r: (IqRun, IqAction))
    requires
        request.valid(),
    ensures
        r.0.request == request,
        follows_recall(request, *client, *reply, r.0.phase, r.1),
{
    let recall = iq_recall(&request.params, client, reply);
    let digest = iq_memory_digest(&recall.evidence, &request.config);
    match iq_job(&request.params, &request.objects, &request.url_faults, digest) {
        Err(e) => (IqRun { request, phase: IqPhase::Finished }, IqAction::Finish(Err(e))),
        Ok(job) => if job.tool.required_capabilities.len() == 0 {
            (
                IqRun { request, phase: IqPhase::Running { job, recall } },
                IqAction::Run { with_tokens: false },
            )
        } else {
            (
                IqRun { request, phase: IqPhase::Authorizing { job, recall } },
                IqAction::IssueTokens,
            )
        },
    }
}

/// Begins a request.
pub fn do_nexus_iq_execute(
    tools: &ToolGate,
    iq_allowlist: &Option<Vec<String>>,
    request: IqRequest,
) -> (r: (IqRun, IqAction))
    requires
        request.valid(),
    ensures
        r.0.request == request,
        begins(*tools, *iq_allowlist, request, r.0.phase, r.1),
{
    match iq_admit(tools, iq_allowlist, &request.params) {
        Err(e) => (IqRun { request, phase: IqPhase::Finished }, IqAction::Finish(Err(e))),
        Ok(IqAdmission::Denied) => {
            let recall = nothing_recalled();
            (
                IqRun {
                    request,
                    phase: IqPhase::TellingDenial { recall, reason: DenialReason::ToolNotAllowed },
                },
                IqAction::Tell,
            )
        },
        Ok(IqAdmission::Admitted) => match iq_memory_scope(&request.params) {
            Some(c) => (IqRun { request, phase: IqPhase::Scoping }, IqAction::CheckScope(c)),
            None => after_recall(request, &None, &None),
        },
    }
}

/// How telling events went.
fn told(request: &IqRequest, status: TimelineDeliveryStatus) -> (r: TimelineDeliveryStatus)
    ensures
        r == iq::telling_status(request.has_sink(), request.mode(), status),
{
    let has_sink = match &request.config {
        Some(c) => AeonMemoryClient::from_enabled_config(c).is_some(),
        None => false,
    };
    let mode = TimelineDeliveryMode::parse(opt_str(&request.params.attestation_mode));
    deliver_nexus_iq_timeline(has_sink, mode, status)
}

impl IqRun {
    /// The request is valid.
    pub open spec fn valid(self) -> bool {
        self.request.valid()
    }

    /// Takes the next step.
    pub fn step(self, event: IqEvent) -> (r: (IqRun, IqAction))
        requires
            self.valid(),
            expected(self.phase, event),
        ensures
            r.0.request == self.request,
            r.0.valid(),
            follows(self.request, self.phase, event, r.0.phase, r.1),
    {
        let IqRun { request, phase } = self;
        match (phase, event) {
            (IqPhase::Scoping, IqEvent::ScopeGranted) => (
                IqRun { request, phase: IqPhase::Limiting },
                IqAction::CountRecall,
            ),
            (IqPhase::Scoping, IqEvent::ScopeRefused(why)) => (
                IqRun { request, phase: IqPhase::Finished },
                IqAction::Finish(Err(iq_scope_refusal(why.as_str()))),
            ),
            (IqPhase::Limiting, IqEvent::RecallCounted) => {
                let client = iq_memory_client(&request.params, &request.config);
                let limit = iq_memory_limit(&request.params);
                (IqRun { request, phase: IqPhase::Recalling { client } }, IqAction::Recall { limit })
            },
            (IqPhase::Limiting, IqEvent::RecallLimited(e)) => (
                IqRun { request, phase: IqPhase::Finished },
                IqAction::Finish(Err(e)),
            ),
            (IqPhase::Recalling { client }, IqEvent::Recalled(reply)) => after_recall(
                request,
                &client,
                &reply,
            ),
            (IqPhase::Authorizing { job, recall }, IqEvent::Tokens { refused, issued, used }) => {
                match iq_authorize(&job, refused, &issued, &used, request.profiled) {
                    Err(e) => (
                        IqRun { request, phase: IqPhase::Finished },
                        IqAction::Finish(Err(e)),
                    ),
                    Ok(IqAuthorization::Denied) => (
                        IqRun {
                            request,
                            phase: IqPhase::TellingDenial {
                                recall,
                                reason: DenialReason::CapabilityNotPermitted,
                            },
                        },
                        IqAction::Tell,
                    ),
                    Ok(IqAuthorization::WithTokens) => (
                        IqRun { request, phase: IqPhase::Running { job, recall } },
                        IqAction::Run { with_tokens: true },
                    ),
                    Ok(IqAuthorization::Direct) => (
                        IqRun { request, phase: IqPhase::Running { job, recall } },
                        IqAction::Run { with_tokens: false },
                    ),
                }
            },
            (IqPhase::Running { job, recall }, IqEvent::Ran(outcome)) => {
                match iq_conclude(outcome, &job.memory_digest) {
                    Err(e) => (
                        IqRun { request, phase: IqPhase::Finished },
                        IqAction::Finish(Err(e)),
                    ),
                    Ok(IqConclusion::Denied) => (
                        IqRun {
                            request,
                            phase: IqPhase::TellingDenial {
                                recall,
                                reason: DenialReason::CapabilityNotPermitted,
                            },
                        },
                        IqAction::Tell,
                    ),
                    Ok(IqConclusion::Ran { output, capsule, events }) => (
                        IqRun {
                            request,
                            phase: IqPhase::TellingRun { output, capsule, events, recall },
                        },
                        IqAction::Tell,
                    ),
                }
            },
            (IqPhase::TellingDenial { recall, reason }, IqEvent::Told(status)) => {
                let status = told(&request, status);
                let mode = TimelineDeliveryMode::parse(opt_str(&request.params.attestation_mode));
                let hits = recall.hits.len();
                let answer = nexus_iq_denial_response(recall.evidence, hits, mode, status, reason);
                (IqRun { request, phase: IqPhase::Finished }, IqAction::Finish(Ok(answer)))
            },
            (
                IqPhase::TellingRun { output, capsule, events, recall },
                IqEvent::Told(status),
            ) => {
                let status = told(&request, status);
                let mode = TimelineDeliveryMode::parse(opt_str(&request.params.attestation_mode));
                let hits = recall.hits.len();
                let answer = iq_response(
                    output,
                    &capsule,
                    events,
                    recall.evidence,
                    hits,
                    mode,
                    status,
                );
                (IqRun { request, phase: IqPhase::Finished }, IqAction::Finish(Ok(answer)))
            },
            (phase, _) => {
                proof {
                    assert(false);
                }
                (IqRun { request, phase }, IqAction::Tell)
            },
        }
    }
}

/// How many steps are left at most.
pub open spec fn steps_left(phase: IqPhase) -> nat {
    match phase {
        IqPhase::Scoping => 6,
        IqPhase::Limiting => 5,
        IqPhase::Recalling { .. } => 4,
        IqPhase::Authorizing { .. } => 3,
        IqPhase::Running { .. } => 2,
        IqPhase::TellingDenial { .. } => 1,
        IqPhase::TellingRun { .. } => 1,
        IqPhase::Finished => 0,
    }
}

/// Every request is answered, after a bounded number of steps.
pub proof fn lemma_requests_end(
    q: IqRequest,
    phase: IqPhase,
    event: IqEvent,
    next: IqPhase,
    action: IqAction,
)
    requires
        follows(q, phase, event, next, action),
    ensures
        steps_left(next) < steps_left(phase),
        next is Finished <==> action is Finish,
{
}

/// Memory is recalled only for a caller whose right to it was granted, and only
/// where the recall was counted within the limit.
pub proof fn lemma_recalls_are_guarded(
    q: IqRequest,
    phase: IqPhase,
    event: IqEvent,
    next: IqPhase,
    action: IqAction,
)
    requires
        follows(q, phase, event, next, action),
    ensures
        action is CountRecall ==> phase is Scoping && event is ScopeGranted,
        action is Recall ==> phase is Limiting && event is RecallCounted,
{
}

/// Nothing is run without leave: a job is run right after it was prepared only
/// where it needs nothing, and otherwise only with tokens that are good; and a
/// denied request is never run.
pub proof fn lemma_runs_have_leave(
    q: IqRequest,
    phase: IqPhase,
    event: IqEvent,
    next: IqPhase,
    action: IqAction,
)
    requires
        follows(q, phase, event, next, action),
        action is Run,
    ensures
        next is Running,
        next->Running_job.tool.required_capabilities@.len() > 0 ==> {
            &&& phase is Authorizing
            &&& event is Tokens
            &&& !event->refused
            &&& crate::mcp::tokens::token_refusal(event->issued@, q.profiled) is None
            &&& crate::mcp::tokens::token_refusal(event->used@, q.profiled) is None
            &&& action == IqAction::Run { with_tokens: true }
        },
{
}

/// What was denied is answered as denied: with no output and no capsule.
pub proof fn lemma_denials_are_answered(
    q: IqRequest,
    recall: MemoryRecallEvidence,
    reason: DenialReason,
    event: IqEvent,
    next: IqPhase,
    action: IqAction,
)
    requires
        follows(q, IqPhase::TellingDenial { recall, reason }, event, next, action),
    ensures
        action matches IqAction::Finish(Ok(r)) && r.denied && r.output is None
            && r.proof_capsule_ref is None,
{
}

/// Whether the tool of a prepared job carries the digest that is expected in
/// its capsule.
pub open spec fn carries_digest(phase: IqPhase) -> bool {
    match phase {
        IqPhase::Authorizing { job, .. } => text::opt_text(job.tool.aeon_memory_evidence_digest)
            == text::opt_text(job.memory_digest),
        IqPhase::Running { job, .. } => text::opt_text(job.tool.aeon_memory_evidence_digest)
            == text::opt_text(job.memory_digest),
        _ => true,
    }
}

/// From the beginning of a request to its end, the tool of a prepared job
/// carries the digest of the evidence.
pub proof fn lemma_digest_is_carried(
    tools: ToolGate,
    iq_allowlist: Option<Vec<String>>,
    q: IqRequest,
    phase: IqPhase,
    event: IqEvent,
    next: IqPhase,
    action: IqAction,
)
    requires
        begins(tools, iq_allowlist, q, next, action) || (carries_digest(phase) && follows(
            q,
            phase,
            event,
            next,
            action,
        )),
    ensures
        carries_digest(next),
{
}

/// A job whose attested execution ends well is answered as a success: its
/// capsule holds exactly the digest that is expected of it.
pub proof fn lemma_attested_runs_are_answered(
    q: IqRequest,
    job: IqJob,
    recall: MemoryRecallEvidence,
    proved: ProofRun,
    last: ProofEvent,
    key: Seq<u8>,
    ended: ProofRun,
    output: ToolOutput,
    capsule: ProofCapsule,
    next: IqPhase,
    action: IqAction,
)
    requires
        carries_digest(IqPhase::Running { job, recall }),
        text::opt_text(proved.tool.aeon_memory_evidence_digest) == text::opt_text(
            job.tool.aeon_memory_evidence_digest,
        ),
        proof_run::follows(proved, last, key, ended, ProofAction::Finish(Ok((output, capsule)))),
        follows(
            q,
            IqPhase::Running { job, recall },
            IqEvent::Ran(Ok((output, capsule))),
            next,
            action,
        ),
    ensures
        execute::memory_digest_in(capsule.memory_evidence) == text::opt_text(job.memory_digest),
        action is Tell,
        next matches IqPhase::TellingRun { output: told, capsule: shown, .. } && told == output
            && shown == capsule,
{
    proof_run::lemma_digest_is_bound(
        proved,
        last,
        key,
        ended,
        ProofAction::Finish(Ok((output, capsule))),
    );
}

/// What a request goes through on its way to a run: once the right to the memory
/// was granted the recall is counted, and once it was counted no more memories
/// are recalled than asked for, five where no number is given. A refusal of
/// either ends the request with its reason.
pub proof fn lemma_recalls_go_step_by_step(
    q: IqRequest,
    phase: IqPhase,
    event: IqEvent,
    next: IqPhase,
    action: IqAction,
)
    requires
        follows(q, phase, event, next, action),
    ensures
        event is ScopeGranted ==> action is CountRecall && next is Limiting,
        event matches IqEvent::ScopeRefused(why) ==> (action matches IqAction::Finish(Err(e))
            && e@ is Other && text::ends(e@->Other_0, why@)),
        event is RecallCounted ==> (action matches IqAction::Recall { limit } && (
        q.params.memory_limit matches Some(n) ==> limit == n) && (q.params.memory_limit is None
            ==> limit == 5)),
        event is RecallCounted ==> (next matches IqPhase::Recalling { client } && (client is Some
            ==> q.config is Some && q.config->0.hmac_key is Some && q.params.memory_query is Some
            && client->0.agent_id@ == q.config->0.agent_id@)),
        event matches IqEvent::RecallLimited(e) ==> (action matches IqAction::Finish(Err(w)) && w@
            == e@),
{
    if let IqEvent::ScopeRefused(why) = event {
        let t = "memory recall requires matching read_memory capability for scope: "@ + why@;
        assert(t.subrange(t.len() - why@.len(), t.len() as int) =~= why@);
    }
}

/// What comes of tokens and of a run: refused tokens are a denial, tokens gone bad
/// an error, and good ones run the job that was prepared, with what was recalled;
/// a denied run is told as a denial and a good one as what it came to.
pub proof fn lemma_runs_are_told_as_they_went(
    q: IqRequest,
    phase: IqPhase,
    event: IqEvent,
    next: IqPhase,
    action: IqAction,
)
    requires
        follows(q, phase, event, next, action),
    ensures
        match (phase, event) {
            (IqPhase::Authorizing { job, recall }, IqEvent::Tokens { refused, issued, used }) => {
                &&& job.tool.required_capabilities@.len() > 0 && refused ==> next == (
                IqPhase::TellingDenial { recall, reason: DenialReason::CapabilityNotPermitted })
                &&& next is Running ==> next == (IqPhase::Running { job, recall }) && action is Run
                &&& next is Running || next is TellingDenial || action is Finish
            },
            (IqPhase::Running { recall, .. }, IqEvent::Ran(Err(e))) => {
                &&& next is TellingDenial <==> e@ is CapabilityDenied
                &&& next matches IqPhase::TellingDenial { recall: kept, .. } ==> kept == recall
                &&& !(next is TellingRun)
            },
            (IqPhase::Running { job, recall }, IqEvent::Ran(Ok(p))) => {
                &&& next matches IqPhase::TellingRun { output, capsule, recall: kept, .. } ==> output
                    == p.0 && capsule == p.1 && kept == recall
                &&& job.memory_digest is None ==> next is TellingRun
                &&& !(next is TellingDenial)
            },
            (IqPhase::TellingRun { output, recall, .. }, IqEvent::Told(_)) => {
                action matches IqAction::Finish(Ok(r)) && !r.denied && r.output is Some
                    && r.output->0.success == output.success && r.memory_hits_count
                    == recall.hits@.len() as usize
            },
            _ => true,
        },
{
}

/// A request begins as its caller may: it is refused where the attesting tools
/// are, told as denied where the operator's list leaves its tool out, and where
/// it asks for memory the right to exactly that memory is checked first.
pub proof fn lemma_requests_begin_as_allowed(
    tools: ToolGate,
    iq_allowlist: Option<Vec<String>>,
    q: IqRequest,
    next: IqPhase,
    action: IqAction,
)
    requires
        begins(tools, iq_allowlist, q, next, action),
    ensures
        execute::proof_refused(tools, "nexus_iq_execute"@) matches Some(w) ==> (
        action matches IqAction::Finish(Err(e)) && e@ == w),
        action is Run || action is IssueTokens || action is CheckScope ==> execute::proof_refused(
            tools,
            "nexus_iq_execute"@,
        ) is None && (iq_allowlist matches Some(names) ==> text::texts(names@).contains(
            q.params.tool_name@,
        )),
        action is Run || action is IssueTokens ==> q.params.memory_query is None,
        action matches IqAction::CheckScope(c) ==> c@ is ReadMemory && q.params.memory_query
            is Some,
        action matches IqAction::Run { with_tokens } ==> !with_tokens,
        !(action is Recall) && !(action is CountRecall),
        next matches IqPhase::TellingDenial { recall, reason } ==> recall.hits@.len() == 0 && reason
            == DenialReason::ToolNotAllowed,
{
    if let IqPhase::TellingDenial { recall, reason } = next {
        assert(memory::hits_view(recall.hits@).len() == recall.hits@.len());
    }
}

} // verus!
