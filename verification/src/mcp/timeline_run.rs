//! The tool whose execution is told, as a whole: its tokens are issued and
//! checked, the tool is run and attested, and the execution is told and
//! answered.

use crate::attestation::schema::ProofCapsule;
use crate::error::NexusError;
use crate::hypervisor::tool::ToolOutput;
use crate::mcp::error;
use crate::mcp::error::ToolError;
use crate::mcp::execute;
use crate::mcp::gate::ToolGate;
use crate::mcp::iq;
use crate::mcp::iq::{
    do_aeon_execute_timeline, timeline_response, AeonTimelineExecuteResponse, TimelineJob,
};
use crate::mcp::params::AeonTimelineExecuteParams;
use crate::mcp::tokens;
use crate::mcp::tokens::{check_tokens_against_active_profile, TokenState};
use crate::security;
use crate::security::{push_capabilities, Capability};
use vstd::prelude::*;

verus! {

/// Where a request stands.
pub enum TimelinePhase {
    /// Tokens are issued for what the caller claims.
    Issuing(TimelineJob),
    /// The job is run with the tokens, and attested.
    Running(TimelineJob),
    Finished,
}

/// What came of the last action.
pub enum TimelineEvent {
    TokensRefused(ToolError),
    /// The tokens as they were issued, and as they are when they are used.
    Tokens { issued: Vec<TokenState>, used: Vec<TokenState> },
    /// What the execution came to, and whether there is somewhere to tell it.
    Ran { outcome: Result<(ToolOutput, ProofCapsule), NexusError>, has_sink: bool },
}

/// What is done next.
pub enum TimelineAction {
    /// Issue tokens for these capabilities.
    IssueTokens(Vec<Capability>),
    /// Run the job with the tokens that were issued.
    Run,
    /// Answer this; where `tell` is set, tell the events of the answer as well,
    /// and do not wait for it.
    Finish { answer: Result<AeonTimelineExecuteResponse, ToolError>, tell: bool },
}

/// A request on its way.
pub struct TimelineRun {
    pub params: AeonTimelineExecuteParams,
    /// Whether a profile is active.
    pub profiled: bool,
    pub phase: TimelinePhase,
}

/// Whether a request ends with this complaint, and nothing is told.
pub open spec fn fails(next: TimelinePhase, action: TimelineAction, why: error::Why) -> bool {
    &&& next is Finished
    &&& action matches TimelineAction::Finish { answer: Err(e), tell } && e@ == why && !tell
}

/// What begins a request: it is refused, or tokens are issued for what its caller
/// claims.
pub open spec fn begins(
    tools: ToolGate,
    params: AeonTimelineExecuteParams,
    found: execute::ModuleFound,
    next: TimelinePhase,
    action: TimelineAction,
) -> bool {
    match next {
        TimelinePhase::Issuing(job) => {
            &&& iq::is_timeline_job(Ok(job), tools, params, found)
            &&& action matches TimelineAction::IssueTokens(caps) && security::caps(caps@)
                == security::caps(job.caller_capabilities@)
        },
        TimelinePhase::Finished => action matches TimelineAction::Finish { answer: Err(e), tell }
            && !tell && iq::is_timeline_job(Err(e), tools, params, found),
        TimelinePhase::Running(_) => false,
    }
}

/// Whether an event can come in a phase.
pub open spec fn expected(phase: TimelinePhase, event: TimelineEvent) -> bool {
    match phase {
        TimelinePhase::Issuing(_) => event is TokensRefused || event is Tokens,
        TimelinePhase::Running(_) => event is Ran,
        TimelinePhase::Finished => false,
    }
}

/// What follows from an event: the next phase, and what is done. The tokens are
/// checked when they are issued, and again right before they are used.
pub open spec fn follows(
    params: AeonTimelineExecuteParams,
    profiled: bool,
    phase: TimelinePhase,
    event: TimelineEvent,
    next: TimelinePhase,
    action: TimelineAction,
) -> bool {
    match (phase, event) {
        (TimelinePhase::Issuing(_), TimelineEvent::TokensRefused(e)) => fails(next, action, e@),
        (TimelinePhase::Issuing(job), TimelineEvent::Tokens { issued, used }) => match (
            tokens::token_refusal(issued@, profiled),
            tokens::token_refusal(used@, profiled),
        ) {
            (Some(w), _) => fails(next, action, w),
            (None, Some(w)) => fails(next, action, w),
            (None, None) => next == TimelinePhase::Running(job) && action is Run,
        },
        (TimelinePhase::Running(_), TimelineEvent::Ran { outcome, has_sink }) => match outcome {
            Err(e) => fails(next, action, error::Why::Nexus(e@)),
            Ok(p) => {
                &&& next is Finished
                &&& action matches TimelineAction::Finish { answer: Ok(r), tell }
                    && iq::is_timeline_response(r, p.0, p.1, params, has_sink) && tell == (
                has_sink && params.aeon_agent_id is Some)
            },
        },
        _ => false,
    }
}

impl TimelineRun {
    /// Begins a request.
    pub fn start(
        tools: &ToolGate,
        params: AeonTimelineExecuteParams,
        profiled: bool,
        found: execute::ModuleFound,
    ) -> (r: (TimelineRun, TimelineAction))
        ensures
            r.0.params == params,
            r.0.profiled == profiled,
            begins(*tools, params, found, r.0.phase, r.1),
    {
        match do_aeon_execute_timeline(tools, &params, found) {
            Err(e) => (
                TimelineRun { params, profiled, phase: TimelinePhase::Finished },
                TimelineAction::Finish { answer: Err(e), tell: false },
            ),
            Ok(job) => {
                let mut caps: Vec<Capability> = Vec::new();
                push_capabilities(&mut caps, &job.caller_capabilities);
                assert(security::caps(caps@) =~= security::caps(job.caller_capabilities@));
                (
                    TimelineRun { params, profiled, phase: TimelinePhase::Issuing(job) },
                    TimelineAction::IssueTokens(caps),
                )
            },
        }
    }

    /// Takes the next step.
    pub fn step(self, event: TimelineEvent) -> (r: (TimelineRun, TimelineAction))
        requires
            expected(self.phase, event),
        ensures
            r.0.params == self.params,
            r.0.profiled == self.profiled,
            follows(self.params, self.profiled, self.phase, event, r.0.phase, r.1),
    {
        let TimelineRun { params, profiled, phase } = self;
        match (phase, event) {
            (TimelinePhase::Issuing(_), TimelineEvent::TokensRefused(e)) => (
                TimelineRun { params, profiled, phase: TimelinePhase::Finished },
                TimelineAction::Finish { answer: Err(e), tell: false },
            ),
            (TimelinePhase::Issuing(job), TimelineEvent::Tokens { issued, used }) => {
                if let Err(e) = check_tokens_against_active_profile(&issued, profiled) {
                    return (
                        TimelineRun { params, profiled, phase: TimelinePhase::Finished },
                        TimelineAction::Finish { answer: Err(e), tell: false },
                    );
                }
                if let Err(e) = check_tokens_against_active_profile(&used, profiled) {
                    return (
                        TimelineRun { params, profiled, phase: TimelinePhase::Finished },
                        TimelineAction::Finish { answer: Err(e), tell: false },
                    );
                }
                (
                    TimelineRun { params, profiled, phase: TimelinePhase::Running(job) },
                    TimelineAction::Run,
                )
            },
            (TimelinePhase::Running(_), TimelineEvent::Ran { outcome, has_sink }) => {
                match outcome {
                    Err(e) => (
                        TimelineRun { params, profiled, phase: TimelinePhase::Finished },
                        TimelineAction::Finish { answer: Err(ToolError::Nexus(e)), tell: false },
                    ),
                    Ok(p) => {
                        let (output, capsule) = p;
                        let answer = timeline_response(output, capsule, &params, has_sink);
                        let tell = has_sink && params.aeon_agent_id.is_some();
                        (
                            TimelineRun { params, profiled, phase: TimelinePhase::Finished },
                            TimelineAction::Finish { answer: Ok(answer), tell },
                        )
                    },
                }
            },
            (phase, _) => {
                proof {
                    assert(false);
                }
                (TimelineRun { params, profiled, phase }, TimelineAction::Run)
            },
        }
    }
}

/// A job is run only with tokens that were good when they were issued and are
/// good when they are used, and only an execution that ended well is told.
pub proof fn lemma_checked_before_run_and_tell(
    params: AeonTimelineExecuteParams,
    profiled: bool,
    phase: TimelinePhase,
    event: TimelineEvent,
    next: TimelinePhase,
    action: TimelineAction,
)
    requires
        follows(params, profiled, phase, event, next, action),
    ensures
        action is Run ==> phase is Issuing && event is Tokens && tokens::token_refusal(
            event->issued@,
            profiled,
        ) is None && tokens::token_refusal(event->used@, profiled) is None,
        action is Finish && action->tell ==> phase is Running && event is Ran && event->outcome
            is Ok && action->answer is Ok,
        next is Finished <==> action is Finish,
{
}

/// What a request goes through: tokens are asked for exactly what its caller
/// claims, the job that is run is the one they were asked for, a refusal or an
/// error is answered as it came and not told, and a run is answered with its
/// output and told wherever there is an agent and somewhere to tell it.
pub proof fn lemma_requests_are_run_told_and_answered(
    tools: ToolGate,
    params: AeonTimelineExecuteParams,
    found: execute::ModuleFound,
    profiled: bool,
    begun: TimelinePhase,
    first: TimelineAction,
    phase: TimelinePhase,
    event: TimelineEvent,
    next: TimelinePhase,
    action: TimelineAction,
)
    requires
        begins(tools, params, found, begun, first),
        follows(params, profiled, phase, event, next, action),
    ensures
        !(first is Run),
        first is Finish ==> first->answer is Err && !first->tell && begun is Finished,
        first matches TimelineAction::IssueTokens(caps) ==> (begun matches TimelinePhase::Issuing(
            job,
        ) && security::caps(caps@) == security::caps(job.caller_capabilities@) && found is Bytes
            && job.tool.wasm_bytes@ == found->Bytes_0@),
        execute::proof_refused(tools, "nexus_aeon_execute_timeline"@) is Some ==> first is Finish,
        next matches TimelinePhase::Running(job) ==> phase == TimelinePhase::Issuing(job),
        event matches TimelineEvent::Tokens { issued, used } ==> (action is Run
            <==> tokens::token_refusal(issued@, profiled) is None && tokens::token_refusal(
            used@,
            profiled,
        ) is None),
        event matches TimelineEvent::TokensRefused(e) ==> (
        action matches TimelineAction::Finish { answer: Err(w), tell } && w@ == e@ && !tell),
        event matches TimelineEvent::Ran { outcome: Err(e), .. } ==> (
        action matches TimelineAction::Finish { answer: Err(w), tell } && w@ == error::Why::Nexus(
            e@,
        ) && !tell),
        event matches TimelineEvent::Ran { outcome: Ok(p), has_sink } ==> (
        action matches TimelineAction::Finish { answer: Ok(r), tell } && r.proof_capsule == p.1
            && r.output.success == p.0.success && (tell <==> has_sink && params.aeon_agent_id
            is Some)),
{
    execute::lemma_refusals_come_first(
        execute::proof_refused(tools, "nexus_aeon_execute_timeline"@),
        found,
    );
}

} // verus!
