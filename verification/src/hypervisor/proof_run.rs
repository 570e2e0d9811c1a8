//! An attested execution as a whole: the caller's tokens are checked, a denial
//! may be negotiated down, the tool is run, and the run is put into a capsule.

use crate::attestation::schema::{ProofCapsule, SnapshotEvidence};
use crate::attestation::signing;
use crate::error::NexusError;
use crate::hypervisor::capsule;
use crate::hypervisor::capsule::{
    describe_execution, proof_gate, prove_execution, Negotiated, ProofGate, RunStamp,
};
use crate::hypervisor::tool::{ToolDefinition, ToolOutput};
use crate::security;
use crate::text;
use vstd::prelude::*;

verus! {

/// Where an attested execution stands.
pub enum ProofPhase {
    /// The caller's tokens are checked against what the tool requires.
    Checking,
    /// A narrower set of capabilities is sought; without one this denial stands.
    Negotiating(NexusError),
    /// The tool is run, after so many rounds of negotiation.
    Running(Option<u32>),
    Finished,
}

/// What was noted of a run, beside its output.
pub struct RunNotes {
    pub stamp: RunStamp,
    /// The input as it was handed to the tool.
    pub input: Vec<u8>,
    /// How the capabilities that the tool requires describe themselves.
    pub required: Vec<String>,
    pub snapshot: Option<SnapshotEvidence>,
    /// A fresh identifier for the capsule.
    pub capsule_id: String,
}

/// What happens in an attested execution.
pub enum ProofEvent {
    /// What the check of the tokens returned, and whether there is a memory
    /// service to negotiate with.
    Checked { denial: Option<NexusError>, memory_service: bool },
    Negotiated(Option<Negotiated>),
    NotRun(NexusError),
    Ran(ToolOutput, RunNotes),
}

/// What is done next in an attested execution.
pub enum ProofAction {
    CheckTokens,
    Negotiate,
    Run,
    Finish(Result<(ToolOutput, ProofCapsule), NexusError>),
}

/// An attested execution on its way.
pub struct ProofRun {
    pub tool: ToolDefinition,
    /// Whether the caller shows tokens. Without them nothing is reported as
    /// granted.
    pub with_tokens: bool,
    /// Whether a signature is asked for. A caller with tokens gets one in any
    /// case.
    pub signing: bool,
    pub phase: ProofPhase,
}

/// Whether an event can come in a phase.
pub open spec fn expected(tool: ToolDefinition, phase: ProofPhase, event: ProofEvent) -> bool {
    match phase {
        ProofPhase::Checking => event is Checked,
        ProofPhase::Negotiating(_) => event matches ProofEvent::Negotiated(outcome) && (
        outcome matches Some(n) ==> capsule::narrows(
            security::caps(n.capabilities@),
            security::caps(tool.required_capabilities@),
        )),
        ProofPhase::Running(_) => event is NotRun || event is Ran,
        ProofPhase::Finished => false,
    }
}

/// What a capsule reports as granted.
pub open spec fn granted(with_tokens: bool, required: Seq<String>) -> Seq<Seq<char>> {
    if with_tokens {
        text::texts(required)
    } else {
        Seq::empty()
    }
}

/// Whether the capsule of a run is signed.
pub open spec fn is_to_be_signed(with_tokens: bool, signing: bool) -> bool {
    with_tokens || signing
}

/// Whether `c` is the capsule of a run, and signed exactly where it is to be.
pub open spec fn attests(
    c: ProofCapsule,
    tool: ToolDefinition,
    with_tokens: bool,
    signing: bool,
    rounds: Option<u32>,
    output: ToolOutput,
    notes: RunNotes,
    key: Seq<u8>,
) -> bool {
    &&& if is_to_be_signed(with_tokens, signing) {
        signing::is_signed(c, key)
    } else {
        c.signature is None
    }
    &&& capsule::describes_run(
        c,
        notes.stamp,
        tool,
        notes.input@,
        text::texts(notes.required@),
        granted(with_tokens, notes.required@),
        rounds,
        output,
        notes.snapshot,
        notes.capsule_id@,
    )
}

/// What follows from an event: the tool, the next phase, and what is done.
pub open spec fn follows(
    run: ProofRun,
    event: ProofEvent,
    key: Seq<u8>,
    next: ProofRun,
    action: ProofAction,
) -> bool {
    &&& next.with_tokens == run.with_tokens
    &&& next.signing == run.signing
    &&& match (run.phase, event) {
        (ProofPhase::Checking, ProofEvent::Checked { denial, memory_service }) => {
            &&& next.tool == run.tool
            &&& if run.tool.required_capabilities@.len() == 0 || denial is None {
                next.phase == ProofPhase::Running(None) && action is Run
            } else if denial->0 is CapabilityDenied && memory_service
                && run.tool.aeon_agent_id is Some && run.tool.aeon_session_id is Some {
                next.phase == ProofPhase::Negotiating(denial->0) && action is Negotiate
            } else {
                next.phase is Finished && action == ProofAction::Finish(Err(denial->0))
            }
        },
        (ProofPhase::Negotiating(denial), ProofEvent::Negotiated(outcome)) => match outcome {
            None => next.tool == run.tool && next.phase is Finished && action
                == ProofAction::Finish(Err(denial)),
            Some(n) => {
                &&& next.tool == (ToolDefinition {
                    required_capabilities: n.capabilities,
                    ..run.tool
                })
                &&& next.phase == ProofPhase::Running(Some(n.rounds))
                &&& action is Run
            },
        },
        (ProofPhase::Running(_), ProofEvent::NotRun(e)) => next.tool == run.tool
            && next.phase is Finished && action == ProofAction::Finish(Err(e)),
        (ProofPhase::Running(rounds), ProofEvent::Ran(output, notes)) => {
            &&& next.tool == run.tool
            &&& next.phase is Finished
            &&& action matches ProofAction::Finish(Ok(p)) && p.0 == output && attests(
                p.1,
                run.tool,
                run.with_tokens,
                run.signing,
                rounds,
                output,
                notes,
                key,
            )
        },
        _ => false,
    }
}

impl ProofRun {
    /// Begins an attested execution. A caller's tokens are checked where the
    /// tool requires anything. `signing` says whether a signature is asked for.
    pub fn start(tool: ToolDefinition, with_tokens: bool, signing: bool) -> (r: (
        ProofRun,
        ProofAction,
    ))
        ensures
            begins(tool, with_tokens, signing, r.0, r.1),
    {
        if with_tokens && tool.required_capabilities.len() > 0 {
            (
                ProofRun { tool, with_tokens, signing, phase: ProofPhase::Checking },
                ProofAction::CheckTokens,
            )
        } else {
            (ProofRun { tool, with_tokens, signing, phase: ProofPhase::Running(None) }, ProofAction::Run)
        }
    }

    /// Takes the next step. `key` is the key that signs capsules.
    pub fn step(self, event: ProofEvent, key: &[u8; 32]) -> (r: (ProofRun, ProofAction))
        requires
            expected(self.tool, self.phase, event),
        ensures
            follows(self, event, key@, r.0, r.1),
    {
        let ProofRun { tool, with_tokens, signing, phase } = self;
        match (phase, event) {
            (ProofPhase::Checking, ProofEvent::Checked { denial, memory_service }) => {
                let gate = proof_gate(
                    tool.required_capabilities.len() > 0,
                    denial,
                    memory_service,
                    tool.aeon_agent_id.is_some(),
                    tool.aeon_session_id.is_some(),
                );
                match gate {
                    ProofGate::Run => (
                        ProofRun { tool, with_tokens, signing, phase: ProofPhase::Running(None) },
                        ProofAction::Run,
                    ),
                    ProofGate::Negotiate(e) => (
                        ProofRun { tool, with_tokens, signing, phase: ProofPhase::Negotiating(e) },
                        ProofAction::Negotiate,
                    ),
                    ProofGate::Refuse(e) => (
                        ProofRun { tool, with_tokens, signing, phase: ProofPhase::Finished },
                        ProofAction::Finish(Err(e)),
                    ),
                }
            },
            (ProofPhase::Negotiating(denial), ProofEvent::Negotiated(outcome)) => match outcome {
                None => (
                    ProofRun { tool, with_tokens, signing, phase: ProofPhase::Finished },
                    ProofAction::Finish(Err(denial)),
                ),
                Some(n) => (
                    ProofRun {
                        tool: tool.with_capabilities(n.capabilities),
                        with_tokens,
                        signing,
                        phase: ProofPhase::Running(Some(n.rounds)),
                    },
                    ProofAction::Run,
                ),
            },
            (ProofPhase::Running(_), ProofEvent::NotRun(e)) => (
                ProofRun { tool, with_tokens, signing, phase: ProofPhase::Finished },
                ProofAction::Finish(Err(e)),
            ),
            (ProofPhase::Running(rounds), ProofEvent::Ran(output, notes)) => {
                let given: Vec<String> = if with_tokens {
                    text::clone_texts(&notes.required)
                } else {
                    Vec::new()
                };
                assert(text::texts(given@) =~= granted(with_tokens, notes.required@));
                let capsule = if with_tokens || signing {
                    prove_execution(
                        notes.stamp,
                        &tool,
                        notes.input.as_slice(),
                        notes.required,
                        given,
                        rounds,
                        &output,
                        notes.snapshot,
                        notes.capsule_id,
                        key,
                    )
                } else {
                    describe_execution(
                        notes.stamp,
                        &tool,
                        notes.input.as_slice(),
                        notes.required,
                        given,
                        rounds,
                        &output,
                        notes.snapshot,
                        notes.capsule_id,
                    )
                };
                (
                    ProofRun { tool, with_tokens, signing, phase: ProofPhase::Finished },
                    ProofAction::Finish(Ok((output, capsule))),
                )
            },
            (phase, _) => {
                proof {
                    assert(false);
                }
                (ProofRun { tool, with_tokens, signing, phase }, ProofAction::Run)
            },
        }
    }
}

/// A tool that requires something is run for a caller with tokens only once the
/// tokens were found good, or once less was agreed on.
pub proof fn lemma_checked_before_run(
    run: ProofRun,
    event: ProofEvent,
    key: Seq<u8>,
    next: ProofRun,
    action: ProofAction,
)
    requires
        expected(run.tool, run.phase, event),
        follows(run, event, key, next, action),
        action is Run,
        run.tool.required_capabilities@.len() > 0,
    ensures
        (run.phase is Checking && event is Checked && event->denial is None) || (
        run.phase is Negotiating && next.tool.required_capabilities@.len()
            < run.tool.required_capabilities@.len()),
{
    match (run.phase, event) {
        (ProofPhase::Negotiating(_), ProofEvent::Negotiated(Some(n))) => {
            assert(security::caps(n.capabilities@).len() == n.capabilities@.len());
            assert(security::caps(run.tool.required_capabilities@).len()
                == run.tool.required_capabilities@.len());
        },
        _ => {},
    }
}

/// An attested execution ends with a capsule or with an error. The capsule is
/// signed for a caller with tokens and where a signature was asked for; it has
/// no signature otherwise.
pub proof fn lemma_signed_where_asked(
    run: ProofRun,
    event: ProofEvent,
    key: Seq<u8>,
    next: ProofRun,
    action: ProofAction,
)
    requires
        follows(run, event, key, next, action),
    ensures
        next.phase is Finished <==> action is Finish,
        action matches ProofAction::Finish(Ok(p)) ==> if run.with_tokens || run.signing {
            signing::is_signed(p.1, key)
        } else {
            p.1.signature is None
        },
{
}

/// The capsule that an attested execution ends with holds the digest of memory
/// evidence that the tool was given.
pub proof fn lemma_digest_is_bound(
    run: ProofRun,
    event: ProofEvent,
    key: Seq<u8>,
    next: ProofRun,
    action: ProofAction,
)
    requires
        follows(run, event, key, next, action),
    ensures
        text::opt_text(next.tool.aeon_memory_evidence_digest) == text::opt_text(
            run.tool.aeon_memory_evidence_digest,
        ),
        action matches ProofAction::Finish(Ok(p)) ==> capsule::is_memory_evidence(
            p.1.memory_evidence,
            text::opt_text(run.tool.aeon_memory_evidence_digest),
        ),
{
}

/// What is proved of a run is that run: the output is handed back as it came,
/// and its capsule names the module that ran and the input that it was given by
/// their digests. A caller with tokens is told what was granted, one without
/// tokens that nothing was; and the capsule is signed for a caller with tokens,
/// or where that was asked for, and not otherwise.
pub proof fn lemma_proof_is_of_the_run(
    run: ProofRun,
    output: ToolOutput,
    notes: RunNotes,
    key: Seq<u8>,
    next: ProofRun,
    action: ProofAction,
)
    requires
        follows(run, ProofEvent::Ran(output, notes), key, next, action),
    ensures
        action matches ProofAction::Finish(Ok(p)) && p.0 == output && p.1.tool.module_digest.value@
            == text::hex_of(crate::attestation::digest::sha256_of(run.tool.wasm_bytes@)) && p.1.input.digest.value@
            == text::hex_of(crate::attestation::digest::sha256_of(notes.input@)) && p.1.subject.tool_name@
            == run.tool.name@ && p.1.subject.run_id@ == notes.stamp.run_id@ && p.1.capsule_id@
            == notes.capsule_id@ && text::texts(p.1.capabilities.required@) == text::texts(
            notes.required@,
        ) && (run.with_tokens ==> text::texts(p.1.capabilities.granted@) == text::texts(
            notes.required@,
        )) && (!run.with_tokens ==> p.1.capabilities.granted@.len() == 0) && (p.1.signature is Some
            <==> run.with_tokens || run.signing) && (p.1.signature is Some ==> signing::is_signed(
            p.1,
            key,
        )) && (run.phase matches ProofPhase::Running(rounds)
            && p.1.capabilities.negotiation_rounds == rounds),
{
    if let ProofAction::Finish(Ok(p)) = action {
        let rounds = match run.phase {
            ProofPhase::Running(rounds) => rounds,
            _ => None,
        };
        capsule::lemma_capsule_tells_the_run(
            p.1,
            notes.stamp,
            run.tool,
            notes.input@,
            text::texts(notes.required@),
            granted(run.with_tokens, notes.required@),
            rounds,
            output,
            notes.snapshot,
            notes.capsule_id@,
        );
        assert(text::texts(p.1.capabilities.granted@).len() == p.1.capabilities.granted@.len());
    }
}

/// Who is denied does not run: only where nothing is required, or nothing was
/// denied, or a narrower set was agreed on, is the tool run, and in the last
/// case it requires that set and nothing else of it changes. A negotiation is
/// begun only over a denied capability, with a memory service and an agent in a
/// session. A denial that stands is handed back as it came.
pub proof fn lemma_denied_proofs_do_not_run(
    run: ProofRun,
    event: ProofEvent,
    key: Seq<u8>,
    next: ProofRun,
    action: ProofAction,
)
    requires
        follows(run, event, key, next, action),
    ensures
        action is Run <==> (match event {
            ProofEvent::Checked { denial, memory_service } => denial is None
                || run.tool.required_capabilities@.len() == 0,
            ProofEvent::Negotiated(n) => n is Some,
            _ => false,
        }),
        action is Negotiate <==> (match event {
            ProofEvent::Checked { denial: Some(d), memory_service } =>
                run.tool.required_capabilities@.len() > 0 && d is CapabilityDenied
                    && memory_service && run.tool.aeon_agent_id is Some
                    && run.tool.aeon_session_id is Some,
            _ => false,
        }),
        event matches ProofEvent::Negotiated(Some(n)) ==> next.tool == (ToolDefinition {
            required_capabilities: n.capabilities,
            ..run.tool
        }) && next.phase == ProofPhase::Running(Some(n.rounds)),
        !(event is Negotiated) ==> next.tool == run.tool,
        event matches ProofEvent::Checked { denial: Some(d), .. } ==> action is Run || action
            is Negotiate || action == ProofAction::Finish(Err(d)),
        event is Negotiated && !(action is Run) ==> (run.phase matches ProofPhase::Negotiating(d)
            && action == ProofAction::Finish(Err(d))),
        event matches ProofEvent::NotRun(e) ==> action == ProofAction::Finish(Err(e)),
        action matches ProofAction::Finish(Ok(_)) ==> event is Ran && run.phase is Running,
{
}

/// How an attested execution begins.
pub open spec fn begins(
    tool: ToolDefinition,
    with_tokens: bool,
    signing: bool,
    p: ProofRun,
    a: ProofAction,
) -> bool {
    &&& p.tool == tool
    &&& p.with_tokens == with_tokens
    &&& p.signing == signing
    &&& if with_tokens && tool.required_capabilities@.len() > 0 {
        p.phase is Checking && a is CheckTokens
    } else {
        p.phase == ProofPhase::Running(None) && a is Run
    }
}

/// A caller's tokens are checked before anything is run wherever the tool
/// requires a capability, and what was asked for is remembered.
pub proof fn lemma_tokens_are_checked_first(
    tool: ToolDefinition,
    with_tokens: bool,
    signing: bool,
    p: ProofRun,
    a: ProofAction,
)
    requires
        begins(tool, with_tokens, signing, p, a),
    ensures
        with_tokens && tool.required_capabilities@.len() > 0 <==> a is CheckTokens,
        a is CheckTokens || a is Run,
        p.tool == tool && p.signing == signing && p.with_tokens == with_tokens,
        a is Run ==> p.phase is Running,
{
}

} // verus!
