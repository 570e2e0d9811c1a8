//! Executions with WASI imports. What the tool and its mounts need is derived
//! and authorized first; only then are the mounts prepared, and only then is the
//! module run.

use crate::error::NexusError;
use crate::hypervisor::execution;
use crate::hypervisor::failure_mode;
use crate::hypervisor::failure_mode::FailureMode;
use crate::hypervisor::tool::ToolOutput;
use crate::security;
use crate::security::{push_capabilities, Cap, Capability};
use vstd::prelude::*;
use vstd::string::*;

verus! {

/// Whether `r` is what a run with WASI imports returns: the output, and the
/// failure that is recorded. No snapshot is taken, and an unclassified failure
/// counts as a host error.
pub open spec fn is_wasi_output(
    r: (ToolOutput, Option<FailureMode>),
    success: bool,
    failure_mode: Option<FailureMode>,
    return_value: Option<Vec<u8>>,
    duration_ms: u64,
    fuel_consumed: u64,
) -> bool {
    &&& r.0.success == success
    &&& r.0.result == (if success {
        return_value
    } else {
        None
    })
    &&& success ==> r.0.error is None && r.1 is None
    &&& !success ==> r.1 is Some && r.1->0@ == (match execution::opt_failure(failure_mode) {
        Some(f) => f,
        None => failure_mode::Failure::HostError("unknown WASI error"@),
    }) && r.0.error is Some && r.0.error->0@ == r.1->0@.description()
    &&& !r.0.rollback_performed
    &&& r.0.execution_time_ms == duration_ms
    &&& r.0.fuel_consumed == fuel_consumed
    &&& r.0.error_log is None
    &&& r.0.snapshot_id is None
}

/// What a run with WASI imports returns, and the failure that is recorded.
pub fn wasi_output(
    success: bool,
    failure_mode: Option<FailureMode>,
    return_value: Option<Vec<u8>>,
    duration_ms: u64,
    fuel_consumed: u64,
) -> (r: (ToolOutput, Option<FailureMode>))
    ensures
        is_wasi_output(r, success, failure_mode, return_value, duration_ms, fuel_consumed),
{
    if success {
        let out = ToolOutput {
            success: true,
            result: return_value,
            error: None,
            rollback_performed: false,
            execution_time_ms: duration_ms,
            fuel_consumed,
            error_log: None,
            snapshot_id: None,
        };
        (out, None)
    } else {
        let mode = match failure_mode {
            Some(m) => m,
            None => FailureMode::HostError("unknown WASI error".to_string()),
        };
        let out = ToolOutput {
            success: false,
            result: None,
            error: Some(mode.describe()),
            rollback_performed: false,
            execution_time_ms: duration_ms,
            fuel_consumed,
            error_log: None,
            snapshot_id: None,
        };
        (out, Some(mode))
    }
}

/// What the sandbox reports of a run with WASI imports.
#[derive(Debug, Clone, PartialEq, Eq)]
pub struct WasiOutcome {
    pub success: bool,
    pub failure_mode: Option<FailureMode>,
    pub return_value: Option<Vec<u8>>,
    pub duration_ms: u64,
    pub fuel_consumed: u64,
}

/// Where an execution with WASI imports stands.
#[derive(Debug, Clone, Copy, PartialEq, Eq, Structural)]
pub enum WasiPhase {
    /// The caller's tokens are checked against what is needed.
    Authorizing,
    /// The mounts are prepared.
    Mounting,
    /// The module is run.
    Running,
    /// Over.
    Finished,
}

/// What came of the last action.
pub enum WasiEvent {
    /// The tokens cover what is needed.
    Authorized,
    /// They do not, or are not valid.
    Denied(NexusError),
    /// The directories behind the mounts are there.
    Mounted,
    /// They could not be prepared.
    NotMounted(NexusError),
    /// The module could not be run at all.
    NotRun(NexusError),
    /// The module was run.
    Ran(WasiOutcome),
}

/// What is done next.
pub enum WasiAction {
    /// Check the caller's tokens against these capabilities.
    Authorize(Vec<Capability>),
    /// Create the directories behind the mounts, and open them.
    PrepareMounts,
    /// Run the module.
    Run,
    /// Answer with this output, and record this failure.
    Finish(Result<(ToolOutput, Option<FailureMode>), NexusError>),
}

/// An execution with WASI imports on its way.
pub struct WasiExecution {
    pub phase: WasiPhase,
}

/// What an execution needs: what the tool needs, and then what its mounts do.
pub open spec fn needed(tool_caps: Seq<Cap>, mount_caps: Seq<Cap>) -> Seq<Cap> {
    tool_caps + mount_caps
}

/// What begins an execution: what it needs is authorized. Where it needs
/// nothing its mounts are prepared, and where the needs of its mounts cannot be
/// told it ends.
pub open spec fn begins(
    tool_caps: Seq<Capability>,
    mount_caps: Result<Vec<Capability>, NexusError>,
    phase: WasiPhase,
    action: WasiAction,
) -> bool {
    match mount_caps {
        Err(e) => phase is Finished && action == WasiAction::Finish(Err(e)),
        Ok(m) => if tool_caps.len() + m@.len() > 0 {
            &&& phase is Authorizing
            &&& action matches WasiAction::Authorize(caps) && security::caps(caps@) == needed(
                security::caps(tool_caps),
                security::caps(m@),
            )
        } else {
            phase is Mounting && action is PrepareMounts
        },
    }
}

/// Whether an event can come in a phase.
pub open spec fn expected(phase: WasiPhase, event: WasiEvent) -> bool {
    match phase {
        WasiPhase::Authorizing => event is Authorized || event is Denied,
        WasiPhase::Mounting => event is Mounted || event is NotMounted,
        WasiPhase::Running => event is NotRun || event is Ran,
        WasiPhase::Finished => false,
    }
}

/// Whether an execution ends with this error.
pub open spec fn fails(next: WasiPhase, action: WasiAction, e: NexusError) -> bool {
    next is Finished && action == WasiAction::Finish(Err(e))
}

/// What follows from an event: the next phase, and what is done.
pub open spec fn follows(
    phase: WasiPhase,
    event: WasiEvent,
    next: WasiPhase,
    action: WasiAction,
) -> bool {
    match (phase, event) {
        (WasiPhase::Authorizing, WasiEvent::Authorized) => next is Mounting && action
            is PrepareMounts,
        (WasiPhase::Authorizing, WasiEvent::Denied(e)) => fails(next, action, e),
        (WasiPhase::Mounting, WasiEvent::Mounted) => next is Running && action is Run,
        (WasiPhase::Mounting, WasiEvent::NotMounted(e)) => fails(next, action, e),
        (WasiPhase::Running, WasiEvent::NotRun(e)) => fails(next, action, e),
        (WasiPhase::Running, WasiEvent::Ran(o)) => {
            &&& next is Finished
            &&& action matches WasiAction::Finish(Ok(r)) && is_wasi_output(
                r,
                o.success,
                o.failure_mode,
                o.return_value,
                o.duration_ms,
                o.fuel_consumed,
            )
        },
        _ => false,
    }
}

impl WasiExecution {
    /// Begins an execution. `mount_caps` is what the mounts need, as far as that
    /// can be told without touching any directory.
    pub fn start(
        tool_caps: &Vec<Capability>,
        mount_caps: Result<Vec<Capability>, NexusError>,
    ) -> (r: (WasiExecution, WasiAction))
        ensures
            begins(tool_caps@, mount_caps, r.0.phase, r.1),
    {
        let mounts = match mount_caps {
            Err(e) => {
                return (
                    WasiExecution { phase: WasiPhase::Finished },
                    WasiAction::Finish(Err(e)),
                );
            },
            Ok(m) => m,
        };
        if tool_caps.len() == 0 && mounts.len() == 0 {
            return (WasiExecution { phase: WasiPhase::Mounting }, WasiAction::PrepareMounts);
        }
        let mut caps: Vec<Capability> = Vec::new();
        push_capabilities(&mut caps, tool_caps);
        push_capabilities(&mut caps, &mounts);
        assert(security::caps(caps@) =~= needed(
            security::caps(tool_caps@),
            security::caps(mounts@),
        ));
        (WasiExecution { phase: WasiPhase::Authorizing }, WasiAction::Authorize(caps))
    }

    /// Takes the next step.
    pub fn step(self, event: WasiEvent) -> (r: (WasiExecution, WasiAction))
        requires
            expected(self.phase, event),
        ensures
            follows(self.phase, event, r.0.phase, r.1),
    {
        match event {
            WasiEvent::Authorized => (
                WasiExecution { phase: WasiPhase::Mounting },
                WasiAction::PrepareMounts,
            ),
            WasiEvent::Mounted => (WasiExecution { phase: WasiPhase::Running }, WasiAction::Run),
            WasiEvent::Denied(e) => (
                WasiExecution { phase: WasiPhase::Finished },
                WasiAction::Finish(Err(e)),
            ),
            WasiEvent::NotMounted(e) => (
                WasiExecution { phase: WasiPhase::Finished },
                WasiAction::Finish(Err(e)),
            ),
            WasiEvent::NotRun(e) => (
                WasiExecution { phase: WasiPhase::Finished },
                WasiAction::Finish(Err(e)),
            ),
            WasiEvent::Ran(o) => (
                WasiExecution { phase: WasiPhase::Finished },
                WasiAction::Finish(
                    Ok(
                        wasi_output(
                            o.success,
                            o.failure_mode,
                            o.return_value,
                            o.duration_ms,
                            o.fuel_consumed,
                        ),
                    ),
                ),
            ),
        }
    }
}

/// Mounts are prepared only once everything that the tool and its mounts need
/// was authorized, or where they need nothing.
pub proof fn lemma_mounts_are_authorized(
    tool_caps: Seq<Capability>,
    mount_caps: Result<Vec<Capability>, NexusError>,
    phase: WasiPhase,
    event: WasiEvent,
    next: WasiPhase,
    action: WasiAction,
)
    ensures
        begins(tool_caps, mount_caps, next, action) && action is PrepareMounts ==> mount_caps is Ok
            && needed(security::caps(tool_caps), security::caps(mount_caps->Ok_0@)).len() == 0,
        follows(phase, event, next, action) && action is PrepareMounts ==> phase is Authorizing
            && event is Authorized,
{
}

/// A module is run only once its mounts are prepared, and a denied execution
/// prepares and runs nothing.
pub proof fn lemma_runs_are_mounted(
    phase: WasiPhase,
    event: WasiEvent,
    next: WasiPhase,
    action: WasiAction,
)
    requires
        follows(phase, event, next, action),
    ensures
        action is Run ==> phase is Mounting && event is Mounted,
        event is Denied ==> action is Finish && action->Finish_0 is Err,
{
}

/// How many events are still to come, at most.
pub open spec fn remaining(phase: WasiPhase) -> nat {
    match phase {
        WasiPhase::Authorizing => 3,
        WasiPhase::Mounting => 2,
        WasiPhase::Running => 1,
        WasiPhase::Finished => 0,
    }
}

/// Every event brings an execution nearer to its end, and the end comes exactly
/// with the result.
pub proof fn lemma_wasi_execution_ends(
    phase: WasiPhase,
    event: WasiEvent,
    next: WasiPhase,
    action: WasiAction,
)
    requires
        follows(phase, event, next, action),
    ensures
        remaining(next) < remaining(phase),
        next is Finished <==> action is Finish,
{
}

/// A run with WASI imports is answered as the sandbox reports it: a success
/// gives back what the guest returned, a failure tells the failure that is
/// recorded. Nothing is ever restored after such a run.
pub proof fn lemma_wasi_output_tells_the_run(
    r: (ToolOutput, Option<FailureMode>),
    success: bool,
    failure_mode: Option<FailureMode>,
    return_value: Option<Vec<u8>>,
    duration_ms: u64,
    fuel_consumed: u64,
)
    requires
        is_wasi_output(r, success, failure_mode, return_value, duration_ms, fuel_consumed),
    ensures
        r.0.success <==> success,
        r.1 is Some <==> !success,
        r.0.error is Some <==> !success,
        success ==> r.0.result == return_value,
        !success ==> r.0.result is None,
        !success && failure_mode is Some ==> r.1->0@ == failure_mode->0@ && r.0.error->0@
            == failure_mode->0@.description(),
        !success && failure_mode is None ==> r.1->0 is HostError,
        !r.0.rollback_performed && r.0.snapshot_id is None && r.0.error_log is None,
        r.0.execution_time_ms == duration_ms && r.0.fuel_consumed == fuel_consumed,
{
}

/// Who is refused does not run: a refusal of the tokens, of the mounts or of the
/// module is handed back as it came, and a run that came about is answered.
pub proof fn lemma_refused_wasi_runs_do_not_start(
    phase: WasiPhase,
    event: WasiEvent,
    next: WasiPhase,
    action: WasiAction,
)
    requires
        follows(phase, event, next, action),
    ensures
        action is Run <==> event is Mounted,
        action is PrepareMounts <==> event is Authorized,
        event matches WasiEvent::Denied(e) ==> action == WasiAction::Finish(Err(e)),
        event matches WasiEvent::NotMounted(e) ==> action == WasiAction::Finish(Err(e)),
        event matches WasiEvent::NotRun(e) ==> action == WasiAction::Finish(Err(e)),
        event matches WasiEvent::Ran(o) ==> (action matches WasiAction::Finish(Ok(r))
            && r.0.success == o.success && r.0.fuel_consumed == o.fuel_consumed
            && r.0.execution_time_ms == o.duration_ms && (o.success ==> r.0.result
            == o.return_value)),
{
}

} // verus!
