//! The tool that runs a module with system access, as a whole: tokens are issued
//! for what it asks for and checked, and only then is it run.

use crate::error::NexusError;
use crate::hypervisor::tool::ToolOutput;
use crate::mcp::error;
use crate::mcp::error::ToolError;
use crate::mcp::execute;
use crate::mcp::execute::{do_execute_wasi, ModuleFound, Prepared, ToolOutputResponse};
use crate::mcp::gate::ToolGate;
use crate::mcp::params::ExecuteWasiParams;
use crate::mcp::tokens;
use crate::mcp::tokens::{check_tokens_against_active_profile, TokenState};
use crate::security;
use crate::security::{push_capabilities, Capability};
use vstd::prelude::*;

verus! {

/// Where a request stands.
pub enum WasiToolPhase {
    /// Tokens are issued for what the tool needs.
    Issuing(Prepared),
    /// The job is run with the tokens.
    Running(Prepared),
    Finished,
}

/// What came of the last action.
pub enum WasiToolEvent {
    TokensRefused(ToolError),
    /// The tokens as they were issued, and as they are when they are used.
    Tokens { issued: Vec<TokenState>, used: Vec<TokenState> },
    Ran(Result<ToolOutput, NexusError>),
}

/// What is done next.
pub enum WasiToolAction {
    /// Issue tokens for these capabilities.
    IssueTokens(Vec<Capability>),
    /// Run the job with the tokens that were issued.
    Run,
    Finish(Result<ToolOutputResponse, ToolError>),
}

/// A request on its way.
pub struct WasiToolRun {
    /// Whether a profile is active.
    pub profiled: bool,
    pub phase: WasiToolPhase,
}

/// Whether a request ends with this complaint.
pub open spec fn fails(next: WasiToolPhase, action: WasiToolAction, why: error::Why) -> bool {
    &&& next is Finished
    &&& action matches WasiToolAction::Finish(Err(e)) && e@ == why
}

/// What begins a request: it is refused, or tokens are issued for what its tool
/// needs.
pub open spec fn begins(
    tools: ToolGate,
    params: ExecuteWasiParams,
    found: ModuleFound,
    next: WasiToolPhase,
    action: WasiToolAction,
) -> bool {
    match next {
        WasiToolPhase::Issuing(job) => {
            &&& execute::is_wasi_job(Ok(job), tools, params, found)
            &&& action matches WasiToolAction::IssueTokens(caps) && security::caps(caps@)
                == security::caps(job.tool.required_capabilities@)
        },
        WasiToolPhase::Finished => action matches WasiToolAction::Finish(Err(e))
            && execute::is_wasi_job(Err(e), tools, params, found),
        WasiToolPhase::Running(_) => false,
    }
}

/// Whether an event can come in a phase.
pub open spec fn expected(phase: WasiToolPhase, event: WasiToolEvent) -> bool {
    match phase {
        WasiToolPhase::Issuing(_) => event is TokensRefused || event is Tokens,
        WasiToolPhase::Running(_) => event is Ran,
        WasiToolPhase::Finished => false,
    }
}

/// What follows from an event: the next phase, and what is done. The tokens are
/// checked when they are issued, and again right before they are used.
pub open spec fn follows(
    profiled: bool,
    phase: WasiToolPhase,
    event: WasiToolEvent,
    next: WasiToolPhase,
    action: WasiToolAction,
) -> bool {
    match (phase, event) {
        (WasiToolPhase::Issuing(_), WasiToolEvent::TokensRefused(e)) => fails(next, action, e@),
        (WasiToolPhase::Issuing(job), WasiToolEvent::Tokens { issued, used }) => match (
            tokens::token_refusal(issued@, profiled),
            tokens::token_refusal(used@, profiled),
        ) {
            (Some(w), _) => fails(next, action, w),
            (None, Some(w)) => fails(next, action, w),
            (None, None) => next == WasiToolPhase::Running(job) && action is Run,
        },
        (WasiToolPhase::Running(_), WasiToolEvent::Ran(outcome)) => match outcome {
            Err(e) => fails(next, action, error::Why::Nexus(e@)),
            Ok(o) => {
                &&& next is Finished
                &&& action matches WasiToolAction::Finish(Ok(r)) && execute::answers(r, o)
            },
        },
        _ => false,
    }
}

impl WasiToolRun {
    fn refused(profiled: bool, e: ToolError) -> (r: (WasiToolRun, WasiToolAction))
        ensures
            r.0.profiled == profiled,
            r.0.phase is Finished,
            r.1 == WasiToolAction::Finish(Err(e)),
    {
        (
            WasiToolRun { profiled, phase: WasiToolPhase::Finished },
            WasiToolAction::Finish(Err(e)),
        )
    }

    /// Begins a request.
    pub fn start(
        tools: &ToolGate,
        params: &ExecuteWasiParams,
        profiled: bool,
        found: ModuleFound,
    ) -> (r: (WasiToolRun, WasiToolAction))
        ensures
            r.0.profiled == profiled,
            begins(*tools, *params, found, r.0.phase, r.1),
    {
        match do_execute_wasi(tools, params, found) {
            Err(e) => Self::refused(profiled, e),
            Ok(job) => {
                let mut caps: Vec<Capability> = Vec::new();
                push_capabilities(&mut caps, &job.tool.required_capabilities);
                assert(security::caps(caps@) =~= security::caps(job.tool.required_capabilities@));
                (
                    WasiToolRun { profiled, phase: WasiToolPhase::Issuing(job) },
                    WasiToolAction::IssueTokens(caps),
                )
            },
        }
    }

    /// Takes the next step.
    pub fn step(self, event: WasiToolEvent) -> (r: (WasiToolRun, WasiToolAction))
        requires
            expected(self.phase, event),
        ensures
            r.0.profiled == self.profiled,
            follows(self.profiled, self.phase, event, r.0.phase, r.1),
    {
        let WasiToolRun { profiled, phase } = self;
        match (phase, event) {
            (WasiToolPhase::Issuing(_), WasiToolEvent::TokensRefused(e)) => Self::refused(
                profiled,
                e,
            ),
            (WasiToolPhase::Issuing(job), WasiToolEvent::Tokens { issued, used }) => {
                if let Err(e) = check_tokens_against_active_profile(&issued, profiled) {
                    return Self::refused(profiled, e);
                }
                if let Err(e) = check_tokens_against_active_profile(&used, profiled) {
                    return Self::refused(profiled, e);
                }
                (WasiToolRun { profiled, phase: WasiToolPhase::Running(job) }, WasiToolAction::Run)
            },
            (WasiToolPhase::Running(_), WasiToolEvent::Ran(outcome)) => match outcome {
                Err(e) => Self::refused(profiled, ToolError::Nexus(e)),
                Ok(o) => (
                    WasiToolRun { profiled, phase: WasiToolPhase::Finished },
                    WasiToolAction::Finish(Ok(ToolOutputResponse::from_output(o))),
                ),
            },
            (phase, _) => {
                proof {
                    assert(false);
                }
                (WasiToolRun { profiled, phase }, WasiToolAction::Run)
            },
        }
    }
}

/// A module is run only with tokens that were good when they were issued and are
/// good when they are used; every other outcome of issuing them ends the request
/// with an error.
pub proof fn lemma_checked_before_run(
    profiled: bool,
    phase: WasiToolPhase,
    event: WasiToolEvent,
    next: WasiToolPhase,
    action: WasiToolAction,
)
    requires
        follows(profiled, phase, event, next, action),
    ensures
        action is Run <==> phase is Issuing && event is Tokens && tokens::token_refusal(
            event->issued@,
            profiled,
        ) is None && tokens::token_refusal(event->used@, profiled) is None,
        next is Finished <==> action is Finish,
        phase is Issuing && action is Finish ==> action->Finish_0 is Err,
{
}

/// What a request goes through: tokens are asked for exactly what the tool needs,
/// the job that is run is the one they were asked for, a refusal or an error is
/// answered as it came, and a run with its output.
pub proof fn lemma_requests_are_run_and_answered(
    tools: ToolGate,
    params: ExecuteWasiParams,
    found: ModuleFound,
    profiled: bool,
    begun: WasiToolPhase,
    first: WasiToolAction,
    phase: WasiToolPhase,
    event: WasiToolEvent,
    next: WasiToolPhase,
    action: WasiToolAction,
)
    requires
        begins(tools, params, found, begun, first),
        follows(profiled, phase, event, next, action),
    ensures
        !(first is Run),
        first is Finish ==> first->Finish_0 is Err && begun is Finished,
        first matches WasiToolAction::IssueTokens(caps) ==> (begun matches WasiToolPhase::Issuing(
            job,
        ) && security::caps(caps@) == security::caps(job.tool.required_capabilities@) && found
            is Bytes && job.tool.wasm_bytes@ == found->Bytes_0@),
        execute::wasi_refused(tools) is Some ==> first is Finish,
        next matches WasiToolPhase::Running(job) ==> phase == WasiToolPhase::Issuing(job),
        event matches WasiToolEvent::TokensRefused(e) ==> (action matches WasiToolAction::Finish(
            Err(w),
        ) && w@ == e@),
        event matches WasiToolEvent::Ran(Err(e)) ==> (action matches WasiToolAction::Finish(Err(w))
            && w@ == error::Why::Nexus(e@)),
        event matches WasiToolEvent::Ran(Ok(o)) ==> (action matches WasiToolAction::Finish(Ok(r))
            && r.success == o.success && r.error == o.error && r.fuel_consumed == o.fuel_consumed
            && r.rollback_performed == o.rollback_performed && r.execution_time_ms
            == o.execution_time_ms && r.snapshot_id == o.snapshot_id),
{
    execute::lemma_refusals_come_first(execute::wasi_refused(tools), found);
}

} // verus!
