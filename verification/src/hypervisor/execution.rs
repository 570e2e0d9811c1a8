//! One execution as a machine: it says what to do next, and is told what came
//! of it.

use crate::error::NexusError;
use crate::hypervisor::failure_mode;
use crate::hypervisor::failure_mode::FailureMode;
use crate::hypervisor::recovery::RecoveryAction;
use crate::hypervisor::snapshots;
use crate::hypervisor::snapshots::RuntimeSnapshot;
use crate::hypervisor::tool::ToolOutput;
use crate::hypervisor::validator::error_log;
use crate::hypervisor::validator::error_log::{CapturedCallStack, ErrorLog};
use crate::hypervisor::validator::health::{HealthStatus, ResourceSnapshot};
use crate::text;
use vstd::prelude::*;
use vstd::string::*;

verus! {

/// How a module is run.
#[derive(Debug, Clone, Copy, PartialEq, Eq, Structural)]
pub enum Route {
    /// A compiled module, in a fresh instance.
    Precompiled,
    /// A compiled module, in an instance with restored state.
    PrecompiledRestored,
    /// On the warm pool.
    Pooled,
    /// On the warm pool, with restored state.
    PooledRestored,
    /// In a sandbox of its own.
    Sandbox,
    /// In a sandbox of its own, with restored state.
    SandboxRestored,
}

/// The route: a compiled module never goes to the pool.
pub open spec fn route_for(precompiled: bool, restored: bool, pool: bool) -> Route {
    if precompiled {
        if restored {
            Route::PrecompiledRestored
        } else {
            Route::Precompiled
        }
    } else if pool {
        if restored {
            Route::PooledRestored
        } else {
            Route::Pooled
        }
    } else if restored {
        Route::SandboxRestored
    } else {
        Route::Sandbox
    }
}

/// Chooses the route.
pub fn execution_route(precompiled: bool, restored: bool, pool: bool) -> (r: Route)
    ensures
        r == route_for(precompiled, restored, pool),
{
    match (precompiled, restored) {
        (true, true) => Route::PrecompiledRestored,
        (true, false) => Route::Precompiled,
        (false, true) => if pool {
            Route::PooledRestored
        } else {
            Route::SandboxRestored
        },
        (false, false) => if pool {
            Route::Pooled
        } else {
            Route::Sandbox
        },
    }
}

/// The fuel that a sandbox has to be rebuilt with, if it has to: the pool keeps
/// its own, and a sandbox that has the budget stays.
pub fn fuel_to_apply(pool: bool, budget: u64, current: u64) -> (r: Option<u64>)
    ensures
        r == (if !pool && budget != current {
            Some(budget)
        } else {
            None::<u64>
        }),
{
    if !pool && budget != current {
        Some(budget)
    } else {
        None
    }
}

/// What the sandbox reports of a run.
#[derive(Debug, Clone, PartialEq, Eq)]
pub struct RunOutcome {
    pub failure_mode: Option<FailureMode>,
    pub return_value: Option<Vec<u8>>,
    pub fuel_consumed: u64,
    pub duration_ms: u64,
    /// How many bytes of memory were captured before the call, if any.
    pub pre_call_memory: Option<usize>,
    pub call_stack: Option<CapturedCallStack>,
}

/// Where an execution stands.
pub enum Phase {
    /// The tokens of the caller are being checked.
    Authorizing,
    /// The module is being run.
    Running,
    /// A snapshot of the memory before the call is being made.
    Capturing(RunOutcome),
    /// The host is being examined.
    Judging(RunOutcome, Option<RuntimeSnapshot>),
    /// The recovery policy is being asked about a failure.
    Recovering(FailureMode, RunOutcome, Option<RuntimeSnapshot>, ResourceSnapshot),
    /// The snapshot of that identifier is being restored.
    RollingBack(ErrorLog, u64, u64, String),
    /// Over.
    Finished,
}

/// What came of the last action.
pub enum Event {
    /// The tokens cover what is required.
    Authorized,
    /// They do not, or are not valid.
    Denied(NexusError),
    /// The module could not be run at all.
    NotRun(NexusError),
    /// The module was run.
    Ran(RunOutcome),
    /// The snapshot is made.
    Captured(RuntimeSnapshot),
    /// The snapshot could not be made.
    NotCaptured(NexusError),
    /// The host was examined: its status, damage if there is any, and a sample
    /// of its resources.
    Judged(HealthStatus, Option<String>, ResourceSnapshot),
    /// The recovery policy has answered. With it come an identifier and a time
    /// for the log, and patterns that have worked.
    Advised(String, String, Vec<RecoveryAction>, Vec<String>),
    /// The snapshot was restored, or could not be.
    RolledBack(bool),
}

/// What is to be done next.
pub enum Action {
    Authorize,
    Run(Route),
    /// Make a snapshot of this many pages.
    Capture(u32),
    Judge,
    Advise,
    RollBack(RuntimeSnapshot),
    Finish(Result<ToolOutput, NexusError>),
}

/// One execution.
pub struct Execution {
    pub tool_name: String,
    pub route: Route,
    pub phase: Phase,
}

/// The failure of a run: what the sandbox reports, or else damage to the host,
/// or else ill health of the host.
pub open spec fn reconciled(
    reported: Option<failure_mode::Failure>,
    corruption: Option<Seq<char>>,
    health: HealthStatus,
) -> Option<failure_mode::Failure> {
    match reported {
        Some(f) => Some(f),
        None => match corruption {
            Some(detail) => Some(failure_mode::Failure::HostError(detail)),
            None => if health.healthy() {
                None
            } else {
                Some(
                    failure_mode::Failure::HostError(
                        "host health degraded: "@ + health.category_name(),
                    ),
                )
            },
        },
    }
}

/// The optional failure mode as its contents.
pub open spec fn opt_failure(o: Option<FailureMode>) -> Option<failure_mode::Failure> {
    match o {
        Some(m) => Some(m@),
        None => None,
    }
}

/// Reconciles what the sandbox reports with what the host shows.
pub fn reconcile_failure(
    reported: &Option<FailureMode>,
    corruption: Option<String>,
    health: HealthStatus,
) -> (r: Option<FailureMode>)
    ensures
        opt_failure(r) == reconciled(opt_failure(*reported), text::opt_text(corruption), health),
{
    match reported {
        Some(m) => Some(failure_mode::clone_mode(m)),
        None => match corruption {
            Some(detail) => Some(FailureMode::HostError(detail)),
            None => if health.is_healthy() {
                None
            } else {
                Some(
                    FailureMode::HostError(
                        text::cat2("host health degraded: ", health.category()),
                    ),
                )
            },
        },
    }
}

/// The host can turn a success into a failure, but never changes what the
/// sandbox reports, and a run on a sound host fails only if the sandbox says
/// so.
pub proof fn lemma_sandbox_report_prevails(
    reported: Option<failure_mode::Failure>,
    corruption: Option<Seq<char>>,
    health: HealthStatus,
)
    ensures
        reported is Some ==> reconciled(reported, corruption, health) == reported,
        reported is None && reconciled(reported, corruption, health) is Some ==> reconciled(
            reported,
            corruption,
            health,
        )->0 is HostError,
        corruption is None && health.healthy() ==> reconciled(reported, corruption, health)
            == reported,
{
}

/// Whether an event can come in a phase.
pub open spec fn expected(phase: Phase, event: Event) -> bool {
    match phase {
        Phase::Authorizing => event is Authorized || event is Denied,
        Phase::Running => event is NotRun || event is Ran,
        Phase::Capturing(_) => event is Captured || event is NotCaptured,
        Phase::Judging(_, _) => event is Judged,
        Phase::Recovering(_, _, _, _) => event is Advised,
        Phase::RollingBack(_, _, _, _) => event is RolledBack,
        Phase::Finished => false,
    }
}

/// The output of a run without failure.
pub open spec fn is_success_output(
    out: ToolOutput,
    outcome: RunOutcome,
    snapshot: Option<RuntimeSnapshot>,
) -> bool {
    &&& out.success
    &&& out.result == outcome.return_value
    &&& out.error is None
    &&& !out.rollback_performed
    &&& out.execution_time_ms == outcome.duration_ms
    &&& out.fuel_consumed == outcome.fuel_consumed
    &&& out.error_log is None
    &&& text::opt_text(out.snapshot_id) == snapshot_text(snapshot)
}

/// The identifier of an optional snapshot.
pub open spec fn snapshot_text(snapshot: Option<RuntimeSnapshot>) -> Option<Seq<char>> {
    match snapshot {
        Some(s) => Some(s@.id()),
        None => None,
    }
}

/// The output of a failed run.
pub open spec fn is_failure_output(
    out: ToolOutput,
    log: ErrorLog,
    rolled_back: bool,
    duration_ms: u64,
    fuel: u64,
    snapshot_id: Option<Seq<char>>,
) -> bool {
    &&& !out.success
    &&& out.result is None
    &&& out.error is Some && out.error->0@ == log.description@
    &&& out.rollback_performed == rolled_back
    &&& out.execution_time_ms == duration_ms
    &&& out.fuel_consumed == fuel
    &&& out.error_log == Some(log)
    &&& text::opt_text(out.snapshot_id) == snapshot_id
}

/// The log of a failed run.
pub open spec fn is_run_log(
    log: ErrorLog,
    tool_name: Seq<char>,
    mode: FailureMode,
    outcome: RunOutcome,
    resources: ResourceSnapshot,
    advice: Event,
) -> bool {
    &&& error_log::log_consistent(log)
    &&& log.operation@ == tool_name
    &&& log.failure_mode == mode
    &&& log.resources == resources
    &&& log.call_stack == outcome.call_stack
    &&& error_log::nothing_noted(log.system_state)
    &&& advice matches Event::Advised(id, time, actions, patterns) && log.id == id && log.timestamp
        == time && log.recovery_actions == actions && log.successful_patterns == patterns
}

/// What follows from a phase and an event: the next phase and the next action.
pub open spec fn follows(
    tool_name: Seq<char>,
    route: Route,
    phase: Phase,
    event: Event,
    next: Phase,
    action: Action,
) -> bool {
    match (phase, event) {
        (Phase::Authorizing, Event::Authorized) => next is Running && action == Action::Run(route),
        (Phase::Authorizing, Event::Denied(e)) => next is Finished && action == Action::Finish(
            Err(e),
        ),
        (Phase::Running, Event::NotRun(e)) => next is Finished && action == Action::Finish(Err(e)),
        (Phase::Running, Event::Ran(outcome)) => match outcome.pre_call_memory {
            Some(bytes) => {
                &&& next == Phase::Capturing(outcome)
                &&& action matches Action::Capture(pages) && pages == snapshots::pages_for(
                    bytes as nat,
                )
            },
            None => next == Phase::Judging(outcome, None) && action is Judge,
        },
        (Phase::Capturing(outcome), Event::Captured(s)) => next == Phase::Judging(outcome, Some(s))
            && action is Judge,
        (Phase::Capturing(_), Event::NotCaptured(e)) => next is Finished && action
            == Action::Finish(Err(e)),
        (Phase::Judging(outcome, snapshot), Event::Judged(health, corruption, resources)) =>
            match reconciled(opt_failure(outcome.failure_mode), text::opt_text(corruption), health) {
                None => {
                    &&& next is Finished
                    &&& action matches Action::Finish(Ok(out)) && is_success_output(
                        out,
                        outcome,
                        snapshot,
                    )
                },
                Some(f) => {
                    &&& action is Advise
                    &&& next matches Phase::Recovering(m, o, s, r) && m@ == f && o == outcome && s
                        == snapshot && r == resources
                },
            },
        (Phase::Recovering(mode, outcome, snapshot, resources), Event::Advised(_, _, _, _)) =>
            if !mode@.load_time() && snapshot is Some {
                &&& action matches Action::RollBack(s) && s@ == snapshot->0@
                &&& next matches Phase::RollingBack(log, duration, fuel, id) && is_run_log(
                    log,
                    tool_name,
                    mode,
                    outcome,
                    resources,
                    event,
                ) && duration == outcome.duration_ms && fuel == outcome.fuel_consumed && id@
                    == snapshot->0@.id()
            } else {
                &&& next is Finished
                &&& action matches Action::Finish(Ok(out)) && out.error_log is Some && is_run_log(
                    out.error_log->0,
                    tool_name,
                    mode,
                    outcome,
                    resources,
                    event,
                ) && is_failure_output(
                    out,
                    out.error_log->0,
                    false,
                    outcome.duration_ms,
                    outcome.fuel_consumed,
                    snapshot_text(snapshot),
                )
            },
        (Phase::RollingBack(log, duration, fuel, id), Event::RolledBack(done)) => {
            &&& next is Finished
            &&& action matches Action::Finish(Ok(out)) && is_failure_output(
                out,
                log,
                done,
                duration,
                fuel,
                Some(id@),
            )
        },
        _ => false,
    }
}

fn opt_id(snapshot: &Option<RuntimeSnapshot>) -> (r: Option<String>)
    ensures
        text::opt_text(r) == snapshot_text(*snapshot),
{
    match snapshot {
        Some(s) => Some(s.id()),
        None => None,
    }
}

fn failure_output(
    log: ErrorLog,
    rolled_back: bool,
    duration_ms: u64,
    fuel: u64,
    snapshot_id: Option<String>,
) -> (r: ToolOutput)
    ensures
        is_failure_output(r, log, rolled_back, duration_ms, fuel, text::opt_text(snapshot_id)),
{
    ToolOutput {
        success: false,
        result: None,
        error: Some(log.description.clone()),
        rollback_performed: rolled_back,
        execution_time_ms: duration_ms,
        fuel_consumed: fuel,
        error_log: Some(log),
        snapshot_id,
    }
}

impl Execution {
    /// Starts an execution: tokens are checked only if something is required.
    pub fn start(tool_name: String, route: Route, requires_capabilities: bool) -> (r: (
        Execution,
        Action,
    ))
        ensures
            starts(tool_name, route, requires_capabilities, r.0, r.1),
    {
        if requires_capabilities {
            (Execution { tool_name, route, phase: Phase::Authorizing }, Action::Authorize)
        } else {
            (Execution { tool_name, route, phase: Phase::Running }, Action::Run(route))
        }
    }

    /// Takes in what came of the last action and says what to do next.
    pub fn step(self, event: Event) -> (r: (Execution, Action))
        requires
            expected(self.phase, event),
        ensures
            r.0.tool_name == self.tool_name,
            r.0.route == self.route,
            follows(self.tool_name@, self.route, self.phase, event, r.0.phase, r.1),
    {
        let Execution { tool_name, route, phase } = self;
        let (next, action) = match phase {
            Phase::Authorizing => match event {
                Event::Denied(e) => (Phase::Finished, Action::Finish(Err(e))),
                _ => (Phase::Running, Action::Run(route)),
            },
            Phase::Running => match event {
                Event::NotRun(e) => (Phase::Finished, Action::Finish(Err(e))),
                Event::Ran(outcome) => match outcome.pre_call_memory {
                    Some(bytes) => {
                        let pages = snapshots::wasm_pages_for_bytes(bytes);
                        (Phase::Capturing(outcome), Action::Capture(pages))
                    },
                    None => (Phase::Judging(outcome, None), Action::Judge),
                },
                _ => (Phase::Running, Action::Judge),
            },
            Phase::Capturing(outcome) => match event {
                Event::Captured(s) => (Phase::Judging(outcome, Some(s)), Action::Judge),
                Event::NotCaptured(e) => (Phase::Finished, Action::Finish(Err(e))),
                _ => (Phase::Capturing(outcome), Action::Judge),
            },
            Phase::Judging(outcome, snapshot) => match event {
                Event::Judged(health, corruption, resources) => {
                    match reconcile_failure(&outcome.failure_mode, corruption, health) {
                        None => {
                            let snapshot_id = opt_id(&snapshot);
                            (
                                Phase::Finished,
                                Action::Finish(
                                    Ok(
                                        ToolOutput {
                                            success: true,
                                            result: outcome.return_value,
                                            error: None,
                                            rollback_performed: false,
                                            execution_time_ms: outcome.duration_ms,
                                            fuel_consumed: outcome.fuel_consumed,
                                            error_log: None,
                                            snapshot_id,
                                        },
                                    ),
                                ),
                            )
                        },
                        Some(mode) => (
                            Phase::Recovering(mode, outcome, snapshot, resources),
                            Action::Advise,
                        ),
                    }
                },
                _ => (Phase::Judging(outcome, snapshot), Action::Judge),
            },
            Phase::Recovering(mode, outcome, snapshot, resources) => match event {
                Event::Advised(id, time, actions, patterns) => {
                    let rolls_back = mode.requires_rollback();
                    let log = ErrorLog::new(id, time, tool_name.clone(), mode, resources)
                        .with_recovery(actions).with_patterns(patterns).with_call_stack(
                        outcome.call_stack,
                    );
                    match snapshot {
                        Some(s) => if rolls_back {
                            let id = s.id();
                            (
                                Phase::RollingBack(
                                    log,
                                    outcome.duration_ms,
                                    outcome.fuel_consumed,
                                    id,
                                ),
                                Action::RollBack(s),
                            )
                        } else {
                            let out = failure_output(
                                log,
                                false,
                                outcome.duration_ms,
                                outcome.fuel_consumed,
                                Some(s.id()),
                            );
                            (Phase::Finished, Action::Finish(Ok(out)))
                        },
                        None => {
                            let out = failure_output(
                                log,
                                false,
                                outcome.duration_ms,
                                outcome.fuel_consumed,
                                None,
                            );
                            (Phase::Finished, Action::Finish(Ok(out)))
                        },
                    }
                },
                _ => (Phase::Recovering(mode, outcome, snapshot, resources), Action::Advise),
            },
            Phase::RollingBack(log, duration, fuel, id) => {
                let done = match event {
                    Event::RolledBack(done) => done,
                    _ => false,
                };
                let out = failure_output(log, done, duration, fuel, Some(id));
                (Phase::Finished, Action::Finish(Ok(out)))
            },
            Phase::Finished => (Phase::Finished, Action::Judge),
        };
        (Execution { tool_name, route, phase: next }, action)
    }
}

/// State is restored only after a failure that ran, and only from the snapshot
/// that this execution captured.
pub proof fn lemma_rollback_only_after_running(
    tool_name: Seq<char>,
    route: Route,
    phase: Phase,
    event: Event,
    next: Phase,
    action: Action,
)
    requires
        follows(tool_name, route, phase, event, next, action),
        action is RollBack,
    ensures
        phase matches Phase::Recovering(mode, _, snapshot, _) && !mode@.load_time() && snapshot
            is Some && action->RollBack_0@ == snapshot->0@,
{
}

/// The same snapshot, of the same kind and under the same identifier.
pub open spec fn same_snapshot(a: RuntimeSnapshot, b: RuntimeSnapshot) -> bool {
    match (a, b) {
        (RuntimeSnapshot::Full(x), RuntimeSnapshot::Full(y)) => x@ == y@,
        (RuntimeSnapshot::Diff(x), RuntimeSnapshot::Diff(y)) => x@ == y@,
        _ => false,
    }
}

/// The identifier that a snapshot carries, of either kind.
pub open spec fn carried_id(s: RuntimeSnapshot) -> Seq<char> {
    match s {
        RuntimeSnapshot::Full(id) => id@,
        RuntimeSnapshot::Diff(id) => id@,
    }
}

/// After every failure but a module that did not load or has no entry point,
/// the snapshot that was captured is restored: exactly that one, full or
/// differential. Nothing is restored without a snapshot, nor after a module
/// that never ran.
pub proof fn lemma_every_failed_run_is_rolled_back(
    tool_name: Seq<char>,
    route: Route,
    mode: FailureMode,
    outcome: RunOutcome,
    snapshot: Option<RuntimeSnapshot>,
    resources: ResourceSnapshot,
    event: Event,
    next: Phase,
    action: Action,
)
    requires
        follows(
            tool_name,
            route,
            Phase::Recovering(mode, outcome, snapshot, resources),
            event,
            next,
            action,
        ),
    ensures
        event is Advised,
        action is RollBack <==> snapshot is Some && !(mode is InvalidModule)
            && !(mode is MissingEntrypoint),
        action is RollBack ==> same_snapshot(action->RollBack_0, snapshot->0),
        action is RollBack ==> (next matches Phase::RollingBack(log, duration, fuel, id) && id@
            == carried_id(snapshot->0) && duration == outcome.duration_ms && fuel
            == outcome.fuel_consumed && log.failure_mode == mode && log.operation@ == tool_name),
        !(action is RollBack) ==> (action matches Action::Finish(Ok(out))
            && !out.rollback_performed && !out.success && (snapshot is Some ==> out.snapshot_id
            is Some && out.snapshot_id->0@ == carried_id(snapshot->0)) && (snapshot is None
            ==> out.snapshot_id is None)),
{
}

/// What a failed run goes through, from its end to the answer: the memory as
/// it was before the call is captured, the failure is put down to what the
/// sandbox reported, the captured snapshot is restored, and the answer tells
/// whether that was done, which snapshot it was, and what the run cost.
pub proof fn lemma_failed_run_from_end_to_end(
    tool_name: Seq<char>,
    route: Route,
    outcome: RunOutcome,
    captured: RuntimeSnapshot,
    judged: Event,
    advised: Event,
    done: bool,
    phases: Seq<Phase>,
    actions: Seq<Action>,
)
    requires
        outcome.pre_call_memory is Some,
        outcome.failure_mode is Some,
        !(outcome.failure_mode->0 is InvalidModule),
        !(outcome.failure_mode->0 is MissingEntrypoint),
        phases.len() == 5,
        actions.len() == 5,
        follows(tool_name, route, Phase::Running, Event::Ran(outcome), phases[0], actions[0]),
        follows(tool_name, route, phases[0], Event::Captured(captured), phases[1], actions[1]),
        follows(tool_name, route, phases[1], judged, phases[2], actions[2]),
        follows(tool_name, route, phases[2], advised, phases[3], actions[3]),
        follows(tool_name, route, phases[3], Event::RolledBack(done), phases[4], actions[4]),
    ensures
        actions[0] is Capture,
        actions[1] is Judge,
        actions[2] is Advise,
        actions[3] is RollBack && same_snapshot(actions[3]->RollBack_0, captured),
        actions[4] matches Action::Finish(Ok(out)) && !out.success && out.result is None
            && out.rollback_performed == done && out.snapshot_id is Some && out.snapshot_id->0@
            == carried_id(captured) && out.execution_time_ms == outcome.duration_ms
            && out.fuel_consumed == outcome.fuel_consumed && out.error_log is Some
            && out.error_log->0.failure_mode@ == outcome.failure_mode->0@
            && out.error_log->0.operation@ == tool_name && out.error_log->0.call_stack
            == outcome.call_stack,
{
}

/// What a sound run goes through: the memory is captured where there is one,
/// nothing is restored, and the answer is what the guest returned, with what
/// the run cost.
pub proof fn lemma_sound_run_from_end_to_end(
    tool_name: Seq<char>,
    route: Route,
    outcome: RunOutcome,
    captured: RuntimeSnapshot,
    resources: ResourceSnapshot,
    phases: Seq<Phase>,
    actions: Seq<Action>,
)
    requires
        outcome.pre_call_memory is Some,
        outcome.failure_mode is None,
        phases.len() == 3,
        actions.len() == 3,
        follows(tool_name, route, Phase::Running, Event::Ran(outcome), phases[0], actions[0]),
        follows(tool_name, route, phases[0], Event::Captured(captured), phases[1], actions[1]),
        follows(
            tool_name,
            route,
            phases[1],
            Event::Judged(HealthStatus::Healthy, None, resources),
            phases[2],
            actions[2],
        ),
    ensures
        actions[2] matches Action::Finish(Ok(out)) && out.success && out.result
            == outcome.return_value && out.error is None && out.error_log is None
            && !out.rollback_performed && out.execution_time_ms == outcome.duration_ms
            && out.fuel_consumed == outcome.fuel_consumed && out.snapshot_id is Some
            && out.snapshot_id->0@ == carried_id(captured),
{
}

/// A run that the sandbox does not report as failed is still answered as failed
/// if the host's memory was found corrupted, or the host is anything but
/// healthy: then the failure is an error of the host, with what was found. One
/// that it does report as failed is never answered as a success.
pub proof fn lemma_no_success_on_an_unsound_host(
    tool_name: Seq<char>,
    route: Route,
    outcome: RunOutcome,
    snapshot: Option<RuntimeSnapshot>,
    health: HealthStatus,
    corruption: Option<String>,
    resources: ResourceSnapshot,
    next: Phase,
    action: Action,
)
    requires
        follows(
            tool_name,
            route,
            Phase::Judging(outcome, snapshot),
            Event::Judged(health, corruption, resources),
            next,
            action,
        ),
    ensures
        action is Finish <==> outcome.failure_mode is None && corruption is None && health
            == HealthStatus::Healthy,
        action is Advise <==> !(action is Finish),
        action is Advise ==> (next matches Phase::Recovering(m, o, s, r) && o == outcome && s
            == snapshot && r == resources && (outcome.failure_mode is Some ==> m@
            == outcome.failure_mode->0@) && (outcome.failure_mode is None && corruption is Some
            ==> m@ == failure_mode::Failure::HostError(corruption->0@)) && (
        outcome.failure_mode is None && corruption is None ==> m is HostError && text::ends(
            m->HostError_0@,
            health.category_name(),
        ))),
{
    if outcome.failure_mode is None && corruption is None && health != HealthStatus::Healthy {
        let lead = "host health degraded: "@;
        let t = lead + health.category_name();
        assert(t.subrange(lead.len() as int, t.len() as int) =~= health.category_name());
        assert(text::ends(t, health.category_name()));
    }
}

/// Nothing runs before a denial is ruled out: a refused caller gets the refusal
/// and nothing else, an admitted one gets the route that was chosen for it, and
/// what could not be run or captured is answered with the error that came.
pub proof fn lemma_refused_runs_do_not_start(
    tool_name: Seq<char>,
    route: Route,
    phase: Phase,
    event: Event,
    next: Phase,
    action: Action,
)
    requires
        follows(tool_name, route, phase, event, next, action),
    ensures
        action is Run <==> phase is Authorizing && event is Authorized,
        action matches Action::Run(taken) ==> taken == route,
        event matches Event::Denied(e) ==> action == Action::Finish(Err(e)),
        event matches Event::NotRun(e) ==> action == Action::Finish(Err(e)),
        event matches Event::NotCaptured(e) ==> action == Action::Finish(Err(e)),
        action matches Action::Finish(Err(_)) ==> event is Denied || event is NotRun || event
            is NotCaptured,
        action is Capture <==> (event matches Event::Ran(outcome) && outcome.pre_call_memory
            is Some),
        action matches Action::Capture(pages) ==> (event matches Event::Ran(outcome) && (
        outcome.pre_call_memory->0 <= u32::MAX * 65_536 ==> pages * 65_536
            >= outcome.pre_call_memory->0 && (pages > 0 ==> (pages - 1) * 65_536
            < outcome.pre_call_memory->0))),
{
}

/// An execution that ends in success restored nothing and logged no error; one
/// that ends in failure has a log whose description is the error. What was
/// restored is named.
pub proof fn lemma_outputs_are_consistent(
    tool_name: Seq<char>,
    route: Route,
    phase: Phase,
    event: Event,
    next: Phase,
    out: ToolOutput,
)
    requires
        follows(tool_name, route, phase, event, next, Action::Finish(Ok(out))),
    ensures
        next is Finished,
        out.success ==> !out.rollback_performed && out.error is None && out.error_log is None,
        !out.success ==> out.result is None && out.error is Some && out.error_log is Some
            && out.error->0@ == out.error_log->0.description@,
        out.success == (phase is Judging),
        out.rollback_performed ==> phase is RollingBack && out.snapshot_id is Some,
{
}

/// How many events are still to come, at most.
pub open spec fn remaining(phase: Phase) -> nat {
    match phase {
        Phase::Authorizing => 6,
        Phase::Running => 5,
        Phase::Capturing(_) => 4,
        Phase::Judging(_, _) => 3,
        Phase::Recovering(_, _, _, _) => 2,
        Phase::RollingBack(_, _, _, _) => 1,
        Phase::Finished => 0,
    }
}

/// Every event brings an execution nearer to its end, and the end comes exactly
/// with the result.
pub proof fn lemma_execution_ends(
    tool_name: Seq<char>,
    route: Route,
    phase: Phase,
    event: Event,
    next: Phase,
    action: Action,
)
    requires
        follows(tool_name, route, phase, event, next, action),
    ensures
        remaining(next) < remaining(phase),
        next is Finished <==> action is Finish,
{
}

/// A module is run where it belongs: compiled ones never on the pool, others on
/// the pool exactly where there is one; and with restored state exactly where
/// there is some.
pub proof fn lemma_routes(precompiled: bool, restored: bool, pool: bool)
    ensures
        route_for(precompiled, restored, pool) == Route::Precompiled || route_for(
            precompiled,
            restored,
            pool,
        ) == Route::PrecompiledRestored <==> precompiled,
        route_for(precompiled, restored, pool) == Route::Pooled || route_for(
            precompiled,
            restored,
            pool,
        ) == Route::PooledRestored <==> !precompiled && pool,
        route_for(precompiled, restored, pool) == Route::PrecompiledRestored || route_for(
            precompiled,
            restored,
            pool,
        ) == Route::PooledRestored || route_for(precompiled, restored, pool)
            == Route::SandboxRestored <==> restored,
{
}

/// How an execution starts.
pub open spec fn starts(
    tool_name: String,
    route: Route,
    requires_capabilities: bool,
    e: Execution,
    a: Action,
) -> bool {
    &&& e.tool_name == tool_name
    &&& e.route == route
    &&& if requires_capabilities {
        e.phase is Authorizing && a is Authorize
    } else {
        e.phase is Running && a == Action::Run(route)
    }
}

/// Where anything is required nothing is run at first, and the only events that
/// are awaited are leave and refusal; where nothing is, the module is run at
/// once, on the route that was chosen.
pub proof fn lemma_nothing_runs_without_leave(
    tool_name: String,
    route: Route,
    requires_capabilities: bool,
    e: Execution,
    a: Action,
    event: Event,
)
    requires
        starts(tool_name, route, requires_capabilities, e, a),
    ensures
        e.tool_name == tool_name,
        a is Run <==> !requires_capabilities,
        a matches Action::Run(on) ==> on == route,
        e.route == route,
        requires_capabilities && expected(e.phase, event) ==> event is Authorized || event
            is Denied,
        !requires_capabilities && expected(e.phase, event) ==> event is NotRun || event is Ran,
{
}

} // verus!
