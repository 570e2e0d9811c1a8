//! The tool that goes back to a snapshot, as a whole: the snapshot is the expected
//! one, tokens are issued for what the caller claims and checked, and only then
//! is anything restored.

use crate::daemon;
use crate::error::NexusError;
use crate::ids;
use crate::mcp::error;
use crate::mcp::error::ToolError;
use crate::mcp::gate::ToolGate;
use crate::mcp::params::SnapshotRollbackParams;
use crate::mcp::snapshot_tools;
use crate::mcp::snapshot_tools::{
    do_snapshot_rollback, restored_state_summary, RestoredStateSummary, RollbackRequest,
};
use crate::mcp::tokens;
use crate::mcp::tokens::{
    caller_has_memory_preview, check_tokens_against_active_profile, TokenState,
};
use crate::security;
use crate::security::{push_capabilities, Cap, Capability};
use vstd::prelude::*;

verus! {

/// What was restored.
#[derive(Debug, Clone, PartialEq, Eq)]
pub struct Restored {
    pub snapshot_id: String,
    /// When the snapshot was made.
    pub timestamp: String,
    /// How many operations on files were undone.
    pub fs_operations: usize,
    pub memory: Vec<u8>,
    pub captured_globals: usize,
    pub captured_tables: usize,
}

/// What an answer says of a rollback.
#[derive(Debug, Clone, PartialEq, Eq)]
pub struct RollbackResponse {
    pub snapshot_id: String,
    pub timestamp: String,
    pub fs_operations: usize,
    pub restored_state: Option<RestoredStateSummary>,
}

/// Where a request stands.
pub enum RollbackPhase {
    /// Tokens are issued for what the caller claims.
    Issuing(RollbackRequest),
    /// The snapshot is restored, for a caller that may see its memory or not.
    Restoring { shown: bool },
    Finished,
}

/// What came of the last action.
pub enum RollbackEvent {
    TokensRefused(ToolError),
    /// The tokens that were issued, and of each whether it shows memory.
    Tokens { issued: Vec<TokenState>, shows: Vec<bool> },
    NotRestored(NexusError),
    Restored(Restored),
}

/// What is done next.
pub enum RollbackAction {
    /// Issue tokens for these capabilities.
    IssueTokens(Vec<Capability>),
    /// Restore the snapshot of this identifier.
    Restore(String),
    Finish(Result<RollbackResponse, ToolError>),
}

/// A request on its way.
pub struct RollbackRun {
    /// Whether a profile is active.
    pub profiled: bool,
    /// Whether the answer tells of what was restored.
    pub told: bool,
    pub phase: RollbackPhase,
}

/// Whether the answer tells of what was restored: where that is asked for.
pub open spec fn is_told(params: SnapshotRollbackParams) -> bool {
    params.include_restored_state == Some(true)
}

/// The snapshot that a request asks for, or why it is refused.
pub open spec fn asked(
    tools: ToolGate,
    params: SnapshotRollbackParams,
    actual_digest: Option<Seq<char>>,
) -> Result<(Seq<char>, Seq<Cap>), error::Why> {
    match snapshot_tools::snapshot_refused(tools, "nexus_snapshot_rollback"@) {
        Some(w) => Err(w),
        None => snapshot_tools::rollback_asked(
            params,
            ids::uuid_reading(params.snapshot_id@),
            actual_digest,
        ),
    }
}

/// Whether a request ends with this complaint.
pub open spec fn fails(next: RollbackPhase, action: RollbackAction, why: error::Why) -> bool {
    &&& next is Finished
    &&& action matches RollbackAction::Finish(Err(e)) && e@ == why
}

/// What begins a request: it is refused, or tokens are issued for what its caller
/// claims.
pub open spec fn begins(
    tools: ToolGate,
    params: SnapshotRollbackParams,
    actual_digest: Option<Seq<char>>,
    next: RollbackPhase,
    action: RollbackAction,
) -> bool {
    match asked(tools, params, actual_digest) {
        Err(w) => fails(next, action, w),
        Ok(q) => {
            &&& next matches RollbackPhase::Issuing(request) && request.snapshot_id@ == q.0
                && security::caps(request.capabilities@) == q.1
            &&& action matches RollbackAction::IssueTokens(caps) && security::caps(caps@) == q.1
        },
    }
}

/// Whether an event can come in a phase.
pub open spec fn expected(phase: RollbackPhase, event: RollbackEvent) -> bool {
    match phase {
        RollbackPhase::Issuing(_) => event is TokensRefused || event is Tokens,
        RollbackPhase::Restoring { .. } => event is NotRestored || event is Restored,
        RollbackPhase::Finished => false,
    }
}

/// Whether `r` answers that this was restored.
pub open spec fn is_response(
    r: RollbackResponse,
    restored: Restored,
    told: bool,
    shown: bool,
) -> bool {
    &&& r.snapshot_id == restored.snapshot_id
    &&& r.timestamp == restored.timestamp
    &&& r.fs_operations == restored.fs_operations
    &&& if told {
        &&& r.restored_state is Some
        &&& snapshot_tools::is_memory_summary(
            r.restored_state->0.memory,
            restored.memory@,
            shown,
        )
        &&& r.restored_state->0.captured_globals == restored.captured_globals
        &&& r.restored_state->0.captured_tables == restored.captured_tables
    } else {
        r.restored_state is None
    }
}

/// What follows from an event: the next phase, and what is done.
pub open spec fn follows(
    profiled: bool,
    told: bool,
    phase: RollbackPhase,
    event: RollbackEvent,
    next: RollbackPhase,
    action: RollbackAction,
) -> bool {
    match (phase, event) {
        (RollbackPhase::Issuing(_), RollbackEvent::TokensRefused(e)) => fails(next, action, e@),
        (RollbackPhase::Issuing(request), RollbackEvent::Tokens { issued, shows }) =>
            match tokens::token_refusal(issued@, profiled) {
                Some(w) => fails(next, action, w),
                None => {
                    &&& next == (RollbackPhase::Restoring { shown: shows@.contains(true) })
                    &&& action == RollbackAction::Restore(request.snapshot_id)
                },
            },
        (RollbackPhase::Restoring { .. }, RollbackEvent::NotRestored(e)) => fails(
            next,
            action,
            error::Why::Nexus(e@),
        ),
        (RollbackPhase::Restoring { shown }, RollbackEvent::Restored(restored)) => {
            &&& next is Finished
            &&& action matches RollbackAction::Finish(Ok(r)) && is_response(
                r,
                restored,
                told,
                shown,
            )
        },
        _ => false,
    }
}

impl RollbackRun {
    fn refused(profiled: bool, told: bool, e: ToolError) -> (r: (RollbackRun, RollbackAction))
        ensures
            r.0.profiled == profiled,
            r.0.told == told,
            r.0.phase is Finished,
            r.1 == RollbackAction::Finish(Err(e)),
    {
        (
            RollbackRun { profiled, told, phase: RollbackPhase::Finished },
            RollbackAction::Finish(Err(e)),
        )
    }

    /// Begins a request. `actual_digest` is the digest of what the snapshot
    /// holds.
    pub fn start(
        tools: &ToolGate,
        params: &SnapshotRollbackParams,
        profiled: bool,
        actual_digest: Option<&str>,
    ) -> (r: (RollbackRun, RollbackAction))
        ensures
            r.0.profiled == profiled,
            r.0.told == is_told(*params),
            begins(*tools, *params, daemon::slice_text(actual_digest), r.0.phase, r.1),
    {
        let told = match params.include_restored_state {
            Some(told) => told,
            None => false,
        };
        match do_snapshot_rollback(tools, params, actual_digest) {
            Err(e) => Self::refused(profiled, told, e),
            Ok(request) => {
                let mut caps: Vec<Capability> = Vec::new();
                push_capabilities(&mut caps, &request.capabilities);
                assert(security::caps(caps@) =~= security::caps(request.capabilities@));
                (
                    RollbackRun { profiled, told, phase: RollbackPhase::Issuing(request) },
                    RollbackAction::IssueTokens(caps),
                )
            },
        }
    }

    /// Takes the next step.
    pub fn step(self, event: RollbackEvent) -> (r: (RollbackRun, RollbackAction))
        requires
            expected(self.phase, event),
        ensures
            r.0.profiled == self.profiled,
            r.0.told == self.told,
            follows(self.profiled, self.told, self.phase, event, r.0.phase, r.1),
    {
        let RollbackRun { profiled, told, phase } = self;
        match (phase, event) {
            (RollbackPhase::Issuing(_), RollbackEvent::TokensRefused(e)) => Self::refused(
                profiled,
                told,
                e,
            ),
            (RollbackPhase::Issuing(request), RollbackEvent::Tokens { issued, shows }) => {
                if let Err(e) = check_tokens_against_active_profile(&issued, profiled) {
                    return Self::refused(profiled, told, e);
                }
                let shown = caller_has_memory_preview(&shows);
                (
                    RollbackRun { profiled, told, phase: RollbackPhase::Restoring { shown } },
                    RollbackAction::Restore(request.snapshot_id),
                )
            },
            (RollbackPhase::Restoring { .. }, RollbackEvent::NotRestored(e)) => Self::refused(
                profiled,
                told,
                ToolError::Nexus(e),
            ),
            (RollbackPhase::Restoring { shown }, RollbackEvent::Restored(restored)) => {
                let restored_state: Option<RestoredStateSummary> = if told {
                    Some(
                        restored_state_summary(
                            &restored.memory,
                            restored.captured_globals,
                            restored.captured_tables,
                            shown,
                        ),
                    )
                } else {
                    None
                };
                (
                    RollbackRun { profiled, told, phase: RollbackPhase::Finished },
                    RollbackAction::Finish(
                        Ok(
                            RollbackResponse {
                                snapshot_id: restored.snapshot_id,
                                timestamp: restored.timestamp,
                                fs_operations: restored.fs_operations,
                                restored_state,
                            },
                        ),
                    ),
                )
            },
            (phase, _) => {
                proof {
                    assert(false);
                }
                (RollbackRun { profiled, told, phase }, RollbackAction::Restore(String::new()))
            },
        }
    }
}

/// Nothing is restored but with tokens that are good, and restored memory is
/// shown only to a caller one of whose tokens shows it.
pub proof fn lemma_checked_before_restore(
    profiled: bool,
    told: bool,
    phase: RollbackPhase,
    event: RollbackEvent,
    next: RollbackPhase,
    action: RollbackAction,
)
    requires
        follows(profiled, told, phase, event, next, action),
    ensures
        action is Restore <==> phase is Issuing && event is Tokens && tokens::token_refusal(
            event->issued@,
            profiled,
        ) is None,
        next matches RollbackPhase::Restoring { shown } ==> event is Tokens && shown
            == event->shows@.contains(true),
        next is Finished <==> action is Finish,
        match (phase, action) {
            (RollbackPhase::Restoring { shown }, RollbackAction::Finish(Ok(r))) =>
                r.restored_state is Some && !shown ==> r.restored_state->0.memory.preview_len == 0,
            _ => true,
        },
{
}

/// A snapshot is restored only with tokens that passed, and it is the one that
/// was asked for; memory is shown only if some token shows it. What was refused
/// or not restored is answered with the reason.
pub proof fn lemma_restores_what_was_asked(
    profiled: bool,
    told: bool,
    phase: RollbackPhase,
    event: RollbackEvent,
    next: RollbackPhase,
    action: RollbackAction,
)
    requires
        follows(profiled, told, phase, event, next, action),
    ensures
        action matches RollbackAction::Restore(id) ==> (phase matches RollbackPhase::Issuing(request)
            && id@ == request.snapshot_id@) && (event matches RollbackEvent::Tokens { issued, shows }
            && tokens::token_refusal(issued@, profiled) is None && next == (
        RollbackPhase::Restoring { shown: shows@.contains(true) })),
        event matches RollbackEvent::Tokens { issued, .. } ==> (action is Restore
            <==> tokens::token_refusal(issued@, profiled) is None),
        event matches RollbackEvent::TokensRefused(e) ==> (action matches RollbackAction::Finish(
            Err(w),
        ) && w@ == e@),
        event matches RollbackEvent::NotRestored(e) ==> (action matches RollbackAction::Finish(
            Err(w),
        ) && w@ == error::Why::Nexus(e@)),
        event matches RollbackEvent::Restored(x) ==> (action matches RollbackAction::Finish(Ok(r))
            && r.snapshot_id == x.snapshot_id && r.timestamp == x.timestamp && r.fs_operations
            == x.fs_operations && (r.restored_state is Some <==> told) && (told
            ==> r.restored_state->0.memory.byte_len == x.memory@.len()
            && r.restored_state->0.captured_globals == x.captured_globals
            && r.restored_state->0.captured_tables == x.captured_tables && (phase
            == RollbackPhase::Restoring { shown: false } ==> r.restored_state->0.memory.preview_len
            == 0))),
{
}

/// A request begins with tokens for exactly what its caller claims, for the
/// snapshot that its identifier names; where it is refused it ends at once, with
/// the reason, and nothing is restored.
pub proof fn lemma_rollbacks_begin_with_tokens(
    tools: ToolGate,
    params: SnapshotRollbackParams,
    actual_digest: Option<Seq<char>>,
    next: RollbackPhase,
    action: RollbackAction,
)
    requires
        begins(tools, params, actual_digest, next, action),
    ensures
        !(action is Restore),
        snapshot_tools::snapshot_refused(tools, "nexus_snapshot_rollback"@) matches Some(w) ==> (
        action matches RollbackAction::Finish(Err(e)) && e@ == w),
        action matches RollbackAction::IssueTokens(caps) ==> (next matches RollbackPhase::Issuing(
            request,
        ) && ids::uuid_reading(params.snapshot_id@) == Ok::<Seq<char>, Seq<char>>(
            request.snapshot_id@,
        ) && security::caps(request.capabilities@) == security::caps(caps@)
            && crate::mcp::capability::capabilities_from_specs(
            crate::mcp::execute::specs_or(params.caller_capabilities),
        ) == Ok::<Seq<Cap>, Seq<char>>(security::caps(caps@))),
        ids::uuid_reading(params.snapshot_id@) is Err ==> action is Finish,
        action matches RollbackAction::Finish(r) ==> r is Err,
        is_told(params) <==> params.include_restored_state == Some(true),
{
}

} // verus!
