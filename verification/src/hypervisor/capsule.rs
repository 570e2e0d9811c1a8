//! From an execution to its attestation.

use crate::attestation::canonical;
use crate::attestation::digest;
use crate::attestation::receipt::{ExecutionReceipt, FailureModeLite};
use crate::attestation::schema::{
    BranchRaceEvidence, CapabilityEvidence, FailureEvidence, InputIdentity, MemoryAttestationMode,
    MemoryEvidenceRef, PolicyEnforcementMode, PolicyProfileRef, ProofCapsule, ProofSubject,
    RedactionReport, RollbackEvidence, SnapshotEvidence, ToolIdentity, TypedDigest,
};
use crate::attestation::signing;
use crate::error::NexusError;
use crate::hypervisor::tool::{ToolDefinition, ToolOutput};
use crate::security;
use crate::security::Capability;
use crate::text;
use vstd::prelude::*;
use vstd::string::*;

verus! {

/// Whether a proof-producing execution may run, has to be negotiated, or is
/// refused.
pub enum ProofGate {
    Run,
    /// Ask for a narrower set of capabilities; this is the denial to return if
    /// there is none.
    Negotiate(NexusError),
    Refuse(NexusError),
}

/// Whether `r` is the decision on a proof-producing execution, where a denial can
/// be negotiated or not.
pub open spec fn is_decided(
    requires_capabilities: bool,
    denial: Option<NexusError>,
    negotiable: bool,
    r: ProofGate,
) -> bool {
    if !requires_capabilities || denial is None {
        r is Run
    } else if denial->0 is CapabilityDenied && negotiable {
        r == ProofGate::Negotiate(denial->0)
    } else {
        r == ProofGate::Refuse(denial->0)
    }
}

/// Decides on a proof-producing execution. `denial` is what the check of the
/// caller's tokens returned. Only a denial can be negotiated, and only with a
/// memory service and a known agent and session.
pub fn proof_gate(
    requires_capabilities: bool,
    denial: Option<NexusError>,
    memory_service: bool,
    agent_known: bool,
    session_known: bool,
) -> (r: ProofGate)
    ensures
        is_decided(
            requires_capabilities,
            denial,
            memory_service && agent_known && session_known,
            r,
        ),
{
    if !requires_capabilities {
        return ProofGate::Run;
    }
    match denial {
        None => ProofGate::Run,
        Some(e) => {
            let negotiable = matches!(e, NexusError::CapabilityDenied(_));
            if negotiable && memory_service && agent_known && session_known {
                ProofGate::Negotiate(e)
            } else {
                ProofGate::Refuse(e)
            }
        },
    }
}

/// What a negotiation came to: a narrower set, and how many rounds it took.
#[derive(Debug, PartialEq, Eq)]
pub struct Negotiated {
    pub capabilities: Vec<Capability>,
    pub rounds: u32,
}

/// Whether `narrow` holds fewer capabilities than `wide`, and only such as
/// `wide` holds.
pub open spec fn narrows(narrow: Seq<security::Cap>, wide: Seq<security::Cap>) -> bool {
    &&& narrow.len() < wide.len()
    &&& forall|i: int| 0 <= i < narrow.len() ==> wide.contains(#[trigger] narrow[i])
}

/// A failure as a receipt keeps it.
pub open spec fn is_failure_lite(f: Option<FailureModeLite>, output: ToolOutput) -> bool {
    match output.error_log {
        Some(log) => {
            &&& f is Some
            &&& f->0.category@ == log.failure_mode@.category()
            &&& f->0.requires_rollback == !log.failure_mode@.load_time()
            &&& f->0.is_deterministic == Some(!log.failure_mode@.retryable())
        },
        None => if output.success {
            f is None
        } else {
            &&& f is Some
            &&& f->0.category@ == "UNKNOWN"@
            &&& f->0.requires_rollback == output.rollback_performed
            &&& f->0.is_deterministic is None
        },
    }
}

/// The failure of an output, if it has one.
pub fn failure_lite(output: &ToolOutput) -> (r: Option<FailureModeLite>)
    ensures
        is_failure_lite(r, *output),
{
    match &output.error_log {
        Some(log) => Some(
            FailureModeLite {
                category: log.failure_mode.category().to_string(),
                requires_rollback: log.failure_mode.requires_rollback(),
                is_deterministic: Some(log.failure_mode.is_deterministic()),
            },
        ),
        None => if output.success {
            None
        } else {
            Some(
                FailureModeLite {
                    category: "UNKNOWN".to_string(),
                    requires_rollback: output.rollback_performed,
                    is_deterministic: None,
                },
            )
        },
    }
}

/// What names one run: its identifier and its times.
#[derive(Debug, PartialEq, Eq)]
pub struct RunStamp {
    pub run_id: String,
    pub started_at: String,
    pub finished_at: String,
}

/// Why state is restored.
pub const ROLLBACK_REASON: &'static str = "restore latest runtime state after failed execution";

/// Whether `c` is the receipt of the run of `tool` on `input`.
pub open spec fn is_receipt(
    c: ExecutionReceipt,
    stamp: RunStamp,
    tool: ToolDefinition,
    input: Seq<u8>,
    required: Seq<Seq<char>>,
    granted: Seq<Seq<char>>,
    rounds: Option<u32>,
    output: ToolOutput,
    snapshot: Option<SnapshotEvidence>,
) -> bool {
    &&& c.run_id == stamp.run_id && c.started_at == stamp.started_at && c.finished_at
        == stamp.finished_at
    &&& c.tool_name@ == tool.name@
    &&& c.entrypoint@ == tool.entry_point@
    &&& c.module_sha256@ == text::hex_of(digest::sha256_of(tool.wasm_bytes@))
    &&& c.input_sha256@ == text::hex_of(digest::sha256_of(input))
    &&& c.input_bytes_len == input.len()
    &&& text::texts(c.required_caps@) == required
    &&& text::texts(c.granted_caps@) == granted
    &&& c.policy_mode == PolicyEnforcementMode::UnprofiledDev
    &&& c.profile is None
    &&& c.snapshot == snapshot
    &&& is_failure_lite(c.failure, output)
    &&& if output.rollback_performed && output.snapshot_id is Some {
        &&& c.rollback is Some
        &&& (c.rollback->0).0
        &&& (c.rollback->0).1@ == output.snapshot_id->0@
        &&& (c.rollback->0).2@ == ROLLBACK_REASON@
    } else {
        c.rollback is None
    }
    &&& c.branches is None
    &&& text::opt_text(c.aeon_agent_id) == text::opt_text(tool.aeon_agent_id)
    &&& text::opt_text(c.aeon_session_id) == text::opt_text(tool.aeon_session_id)
    &&& c.negotiation_rounds == rounds
    &&& text::opt_text(c.aeon_memory_evidence_digest) == text::opt_text(
        tool.aeon_memory_evidence_digest,
    )
}

/// The receipt of a run. The required and granted capabilities are given by
/// their descriptions, and the snapshot by its evidence.
pub fn execution_receipt(
    stamp: RunStamp,
    tool: &ToolDefinition,
    input: &[u8],
    required: Vec<String>,
    granted: Vec<String>,
    rounds: Option<u32>,
    output: &ToolOutput,
    snapshot: Option<SnapshotEvidence>,
) -> (r: ExecutionReceipt)
    ensures
        is_receipt(
            r,
            stamp,
            *tool,
            input@,
            text::texts(required@),
            text::texts(granted@),
            rounds,
            *output,
            snapshot,
        ),
{
    let module_digest = TypedDigest::sha256_public(tool.wasm_bytes.as_slice());
    let input_digest = TypedDigest::sha256_public(input);
    let rollback = match &output.snapshot_id {
        Some(id) => if output.rollback_performed {
            Some((true, id.clone(), ROLLBACK_REASON.to_string()))
        } else {
            None
        },
        None => None,
    };
    ExecutionReceipt {
        run_id: stamp.run_id,
        started_at: stamp.started_at,
        finished_at: stamp.finished_at,
        tool_name: tool.name.clone(),
        entrypoint: tool.entry_point.clone(),
        module_sha256: module_digest.value,
        input_sha256: input_digest.value,
        input_bytes_len: input.len(),
        required_caps: required,
        granted_caps: granted,
        policy_mode: PolicyEnforcementMode::UnprofiledDev,
        profile: None,
        snapshot,
        failure: failure_lite(output),
        rollback,
        branches: None,
        aeon_agent_id: text::clone_opt(&tool.aeon_agent_id),
        aeon_session_id: text::clone_opt(&tool.aeon_session_id),
        negotiation_rounds: rounds,
        aeon_memory_evidence_digest: text::clone_opt(&tool.aeon_memory_evidence_digest),
    }
}

/// A public SHA-256 that was computed elsewhere.
pub open spec fn is_given_sha256(d: TypedDigest, value: Seq<char>) -> bool {
    d.algorithm@ == "sha256"@ && d.value@ == value && d.public_recomputable
}

/// Two pieces of snapshot evidence with the same contents.
pub open spec fn same_snapshot(a: SnapshotEvidence, b: SnapshotEvidence) -> bool {
    &&& a.snapshot_id@ == b.snapshot_id@
    &&& a.snapshot_kind == b.snapshot_kind
    &&& digest::same_digest(a.memory_digest, b.memory_digest)
    &&& a.original_size == b.original_size
    &&& a.compressed_size == b.compressed_size
}

/// Two pieces of race evidence with the same contents.
pub open spec fn same_race(a: BranchRaceEvidence, b: BranchRaceEvidence) -> bool {
    &&& text::opt_text(a.source_snapshot_id) == text::opt_text(b.source_snapshot_id)
    &&& a.winner_branch_id@ == b.winner_branch_id@
    &&& a.branches_tried == b.branches_tried
    &&& a.branches_succeeded == b.branches_succeeded
}

/// What the capsule says of capabilities: everything required is listed as
/// missing, unless nothing is required or exactly that was granted.
pub open spec fn is_capability_evidence(e: CapabilityEvidence, c: ExecutionReceipt) -> bool {
    let required = text::texts(c.required_caps@);
    let granted = text::texts(c.granted_caps@);
    &&& text::texts(e.required@) == required
    &&& text::texts(e.granted@) == granted
    &&& if required.len() == 0 || required == granted {
        e.mismatch is None
    } else {
        e.mismatch is Some && text::texts(e.mismatch->0@) == required
    }
    &&& e.negotiation_rounds == c.negotiation_rounds
}

/// What the capsule says of the failure: the error text, or the category if
/// there is none.
pub open spec fn is_failure_evidence(
    e: Option<FailureEvidence>,
    f: Option<FailureModeLite>,
    error: Option<String>,
) -> bool {
    match f {
        None => e is None,
        Some(l) => {
            &&& e is Some
            &&& e->0.failure_category@ == l.category@
            &&& e->0.requires_rollback == l.requires_rollback
            &&& e->0.deterministic == l.is_deterministic
            &&& e->0.error_summary@ == (match error {
                Some(t) => t@,
                None => l.category@,
            })
        },
    }
}

/// What a reference to memory evidence holds when nothing but the digest of the
/// evidence is known.
pub open spec fn digest_reference(digest: Seq<char>) -> Seq<char> {
    canonical::object(
        seq![
            canonical::field(
                "digest"@,
                canonical::object(
                    seq![canonical::field("value"@, canonical::json_quoted(digest))],
                ),
            ),
        ],
    )
}

/// What the capsule says of memory evidence: the digest that the receipt holds.
pub open spec fn is_memory_evidence(
    e: Option<MemoryEvidenceRef>,
    digest: Option<Seq<char>>,
) -> bool {
    match digest {
        Some(d) => e is Some && e->0.digest_value@ == d && e->0.json@ == digest_reference(d),
        None => e is None,
    }
}

/// Whether `p` is the unsigned capsule of a receipt and an output.
pub open spec fn is_capsule(
    p: ProofCapsule,
    c: ExecutionReceipt,
    output: ToolOutput,
    capsule_id: Seq<char>,
) -> bool {
    &&& p.version@ == "1"@
    &&& p.capsule_id@ == capsule_id
    &&& p.subject.run_id@ == c.run_id@
    &&& p.subject.tool_name@ == c.tool_name@
    &&& p.subject.started_at@ == c.started_at@
    &&& p.subject.finished_at@ == c.finished_at@
    &&& p.subject.duration_ms == output.execution_time_ms
    &&& is_given_sha256(p.tool.module_digest, c.module_sha256@)
    &&& p.tool.module_name@ == c.tool_name@
    &&& p.tool.entrypoint@ == c.entrypoint@
    &&& is_given_sha256(p.input.digest, c.input_sha256@)
    &&& p.input.media_type@ == "application/json"@
    &&& !p.input.raw_included
    &&& p.policy.profile_digest is None
    &&& text::opt_text(p.policy.profile_name) == (match c.profile {
        Some(f) => Some(f.0@),
        None => None,
    })
    &&& p.policy.mode == c.policy_mode
    &&& is_capability_evidence(p.capabilities, c)
    &&& match c.snapshot {
        Some(s) => p.snapshot is Some && same_snapshot(p.snapshot->0, s),
        None => p.snapshot is None,
    }
    &&& is_failure_evidence(p.failure, c.failure, output.error)
    &&& match c.rollback {
        Some(r) => {
            &&& p.rollback is Some
            &&& p.rollback->0.occurred == r.0
            &&& text::opt_text(p.rollback->0.from_snapshot_id) == Some(r.1@)
            &&& text::opt_text(p.rollback->0.reason) == Some(r.2@)
        },
        None => p.rollback is None,
    }
    &&& match c.branches {
        Some(b) => p.branches is Some && same_race(p.branches->0, b),
        None => p.branches is None,
    }
    &&& p.redaction.hashed_fields@.len() == 0 && p.redaction.truncated_fields@.len() == 0
        && p.redaction.removed_fields@.len() == 0 && p.redaction.hmac_fields@.len() == 0
    &&& p.limitations@.len() == 0
    &&& is_memory_evidence(p.memory_evidence, text::opt_text(c.aeon_memory_evidence_digest))
    &&& p.memory_mode == (if c.aeon_agent_id is Some && c.aeon_session_id is Some {
        Some(MemoryAttestationMode::Advisory)
    } else {
        None
    })
}

fn given_sha256(value: &String) -> (r: TypedDigest)
    ensures
        is_given_sha256(r, value@),
{
    TypedDigest {
        algorithm: "sha256".to_string(),
        value: value.clone(),
        public_recomputable: true,
    }
}

fn capability_evidence(c: &ExecutionReceipt) -> (r: CapabilityEvidence)
    ensures
        is_capability_evidence(r, *c),
{
    proof {
        assert(text::texts(c.required_caps@).len() == c.required_caps@.len());
    }
    let mismatch = if c.required_caps.len() == 0 || text::same_texts(
        &c.required_caps,
        &c.granted_caps,
    ) {
        None
    } else {
        Some(text::clone_texts(&c.required_caps))
    };
    CapabilityEvidence {
        required: text::clone_texts(&c.required_caps),
        granted: text::clone_texts(&c.granted_caps),
        mismatch,
        negotiation_rounds: c.negotiation_rounds,
    }
}

fn failure_evidence(f: &Option<FailureModeLite>, error: &Option<String>) -> (r: Option<
    FailureEvidence,
>)
    ensures
        is_failure_evidence(r, *f, *error),
{
    match f {
        None => None,
        Some(l) => Some(
            FailureEvidence {
                failure_category: l.category.clone(),
                requires_rollback: l.requires_rollback,
                deterministic: l.is_deterministic,
                error_summary: match error {
                    Some(t) => t.clone(),
                    None => l.category.clone(),
                },
            },
        ),
    }
}

fn memory_evidence(digest: &Option<String>) -> (r: Option<MemoryEvidenceRef>)
    ensures
        is_memory_evidence(r, text::opt_text(*digest)),
{
    match digest {
        None => None,
        Some(d) => {
            let value: Vec<String> = vec![
                canonical::field_text("value", canonical::quote(d.as_str())),
            ];
            assert(text::texts(value@) =~= seq![
                canonical::field("value"@, canonical::json_quoted(d@)),
            ]);
            let inner = canonical::object_text(&value);
            let fields: Vec<String> = vec![canonical::field_text("digest", inner)];
            assert(text::texts(fields@) =~= seq![canonical::field("digest"@, inner@)]);
            Some(
                MemoryEvidenceRef {
                    digest_value: d.clone(),
                    json: canonical::object_text(&fields),
                },
            )
        },
    }
}

/// The unsigned capsule of a receipt and an output.
pub fn capsule_from_receipt(
    receipt: &ExecutionReceipt,
    output: &ToolOutput,
    capsule_id: String,
) -> (r: ProofCapsule)
    ensures
        is_capsule(r, *receipt, *output, capsule_id@),
        r.signature is None,
{
    ProofCapsule {
        version: "1".to_string(),
        capsule_id,
        subject: ProofSubject {
            run_id: receipt.run_id.clone(),
            tool_name: receipt.tool_name.clone(),
            started_at: receipt.started_at.clone(),
            finished_at: receipt.finished_at.clone(),
            duration_ms: output.execution_time_ms,
        },
        tool: ToolIdentity {
            module_digest: given_sha256(&receipt.module_sha256),
            module_name: receipt.tool_name.clone(),
            entrypoint: receipt.entrypoint.clone(),
        },
        input: InputIdentity {
            digest: given_sha256(&receipt.input_sha256),
            media_type: "application/json".to_string(),
            raw_included: false,
        },
        policy: PolicyProfileRef {
            profile_digest: None,
            profile_name: match &receipt.profile {
                Some(f) => Some(f.0.clone()),
                None => None,
            },
            mode: receipt.policy_mode,
        },
        capabilities: capability_evidence(receipt),
        snapshot: match &receipt.snapshot {
            Some(s) => Some(
                SnapshotEvidence {
                    snapshot_id: s.snapshot_id.clone(),
                    snapshot_kind: s.snapshot_kind,
                    memory_digest: s.memory_digest.copy(),
                    original_size: s.original_size,
                    compressed_size: s.compressed_size,
                },
            ),
            None => None,
        },
        failure: failure_evidence(&receipt.failure, &output.error),
        rollback: match &receipt.rollback {
            Some(r) => Some(
                RollbackEvidence {
                    occurred: r.0,
                    from_snapshot_id: Some(r.1.clone()),
                    reason: Some(r.2.clone()),
                },
            ),
            None => None,
        },
        branches: match &receipt.branches {
            Some(b) => Some(
                BranchRaceEvidence {
                    source_snapshot_id: text::clone_opt(&b.source_snapshot_id),
                    winner_branch_id: b.winner_branch_id.clone(),
                    branches_tried: b.branches_tried,
                    branches_succeeded: b.branches_succeeded,
                },
            ),
            None => None,
        },
        redaction: RedactionReport {
            hashed_fields: Vec::new(),
            truncated_fields: Vec::new(),
            removed_fields: Vec::new(),
            hmac_fields: Vec::new(),
        },
        limitations: Vec::new(),
        memory_evidence: memory_evidence(&receipt.aeon_memory_evidence_digest),
        memory_mode: match (&receipt.aeon_agent_id, &receipt.aeon_session_id) {
            (Some(_), Some(_)) => Some(MemoryAttestationMode::Advisory),
            _ => None,
        },
        signature: None,
    }
}

/// Whether `c` is the capsule of the run of `tool` on `input`, signature aside.
pub open spec fn describes_run(
    c: ProofCapsule,
    stamp: RunStamp,
    tool: ToolDefinition,
    input: Seq<u8>,
    required: Seq<Seq<char>>,
    granted: Seq<Seq<char>>,
    rounds: Option<u32>,
    output: ToolOutput,
    snapshot: Option<SnapshotEvidence>,
    capsule_id: Seq<char>,
) -> bool {
    exists|e: ExecutionReceipt|
        #[trigger] is_receipt(
            e,
            stamp,
            tool,
            input,
            required,
            granted,
            rounds,
            output,
            snapshot,
        ) && is_capsule(c, e, output, capsule_id)
}

/// The capsule of a run, without a signature: receipt and capsule in one.
pub fn describe_execution(
    stamp: RunStamp,
    tool: &ToolDefinition,
    input: &[u8],
    required: Vec<String>,
    granted: Vec<String>,
    rounds: Option<u32>,
    output: &ToolOutput,
    snapshot: Option<SnapshotEvidence>,
    capsule_id: String,
) -> (r: ProofCapsule)
    ensures
        r.signature is None,
        describes_run(
            r,
            stamp,
            *tool,
            input@,
            text::texts(required@),
            text::texts(granted@),
            rounds,
            *output,
            snapshot,
            capsule_id@,
        ),
{
    let receipt = execution_receipt(
        stamp,
        tool,
        input,
        required,
        granted,
        rounds,
        output,
        snapshot,
    );
    capsule_from_receipt(&receipt, output, capsule_id)
}

/// The capsule of a run, signed: receipt, capsule and signature in one.
pub fn prove_execution(
    stamp: RunStamp,
    tool: &ToolDefinition,
    input: &[u8],
    required: Vec<String>,
    granted: Vec<String>,
    rounds: Option<u32>,
    output: &ToolOutput,
    snapshot: Option<SnapshotEvidence>,
    capsule_id: String,
    key: &[u8; 32],
) -> (r: ProofCapsule)
    ensures
        signing::is_signed(r, key@),
        describes_run(
            r,
            stamp,
            *tool,
            input@,
            text::texts(required@),
            text::texts(granted@),
            rounds,
            *output,
            snapshot,
            capsule_id@,
        ),
{
    let capsule = describe_execution(
        stamp,
        tool,
        input,
        required,
        granted,
        rounds,
        output,
        snapshot,
        capsule_id,
    );
    signing::sign_capsule(capsule, key)
}

/// The capsule of a run holds the digest of memory evidence that the tool was
/// given, and none where it was given none.
pub proof fn lemma_capsule_holds_digest(
    c: ProofCapsule,
    stamp: RunStamp,
    tool: ToolDefinition,
    input: Seq<u8>,
    required: Seq<Seq<char>>,
    granted: Seq<Seq<char>>,
    rounds: Option<u32>,
    output: ToolOutput,
    snapshot: Option<SnapshotEvidence>,
    capsule_id: Seq<char>,
)
    requires
        describes_run(
            c,
            stamp,
            tool,
            input,
            required,
            granted,
            rounds,
            output,
            snapshot,
            capsule_id,
        ),
    ensures
        is_memory_evidence(c.memory_evidence, text::opt_text(tool.aeon_memory_evidence_digest)),
{
}

/// What the capsule of a run says, told from the run itself: whose module ran,
/// on what input, under which name and entry point, when and for how long,
/// which capabilities were asked for and granted in how many rounds, whether it
/// failed and how, and which snapshot was restored.
pub proof fn lemma_capsule_tells_the_run(
    c: ProofCapsule,
    stamp: RunStamp,
    tool: ToolDefinition,
    input: Seq<u8>,
    required: Seq<Seq<char>>,
    granted: Seq<Seq<char>>,
    rounds: Option<u32>,
    output: ToolOutput,
    snapshot: Option<SnapshotEvidence>,
    capsule_id: Seq<char>,
)
    requires
        describes_run(
            c,
            stamp,
            tool,
            input,
            required,
            granted,
            rounds,
            output,
            snapshot,
            capsule_id,
        ),
    ensures
        c.tool.module_digest.value@ == text::hex_of(digest::sha256_of(tool.wasm_bytes@)),
        c.input.digest.value@ == text::hex_of(digest::sha256_of(input)),
        c.tool.module_digest.algorithm@ == "sha256"@ && c.input.digest.algorithm@ == "sha256"@,
        c.tool.module_digest.public_recomputable && c.input.digest.public_recomputable,
        c.tool.module_name@ == tool.name@ && c.subject.tool_name@ == tool.name@,
        c.tool.entrypoint@ == tool.entry_point@,
        c.capsule_id@ == capsule_id && c.subject.run_id@ == stamp.run_id@,
        c.subject.started_at@ == stamp.started_at@ && c.subject.finished_at@ == stamp.finished_at@,
        c.subject.duration_ms == output.execution_time_ms,
        text::texts(c.capabilities.required@) == required,
        text::texts(c.capabilities.granted@) == granted,
        c.capabilities.negotiation_rounds == rounds,
        c.capabilities.mismatch is Some <==> required.len() > 0 && required != granted,
        c.capabilities.mismatch is Some ==> text::texts(c.capabilities.mismatch->0@) == required,
        c.snapshot is Some <==> snapshot is Some,
        snapshot is Some ==> c.snapshot->0.snapshot_id@ == snapshot->0.snapshot_id@
            && c.snapshot->0.memory_digest.value@ == snapshot->0.memory_digest.value@
            && c.snapshot->0.snapshot_kind == snapshot->0.snapshot_kind
            && c.snapshot->0.original_size == snapshot->0.original_size
            && c.snapshot->0.compressed_size == snapshot->0.compressed_size,
        c.rollback is Some <==> output.rollback_performed && output.snapshot_id is Some,
        c.rollback is Some ==> c.rollback->0.occurred && c.rollback->0.from_snapshot_id is Some
            && c.rollback->0.from_snapshot_id->0@ == output.snapshot_id->0@,
        c.failure is Some <==> output.error_log is Some || !output.success,
        output.error_log is Some ==> c.failure->0.failure_category@
            == output.error_log->0.failure_mode@.category() && (c.failure->0.requires_rollback
            <==> !(output.error_log->0.failure_mode is InvalidModule)
            && !(output.error_log->0.failure_mode is MissingEntrypoint))
            && c.failure->0.deterministic == Some(!output.error_log->0.failure_mode@.retryable()),
        c.failure is Some && output.error is Some ==> c.failure->0.error_summary@
            == output.error->0@,
        c.branches is None && !c.input.raw_included,
        c.memory_evidence is Some <==> tool.aeon_memory_evidence_digest is Some,
        c.memory_evidence is Some ==> c.memory_evidence->0.digest_value@
            == tool.aeon_memory_evidence_digest->0@,
        c.memory_mode is Some <==> tool.aeon_agent_id is Some && tool.aeon_session_id is Some,
{
    let e = choose|e: ExecutionReceipt|
        #[trigger] is_receipt(
            e,
            stamp,
            tool,
            input,
            required,
            granted,
            rounds,
            output,
            snapshot,
        ) && is_capsule(c, e, output, capsule_id);
    assert(text::opt_text(e.aeon_agent_id) == text::opt_text(tool.aeon_agent_id));
}

/// Two runs whose modules, or whose inputs, have different digests have
/// different capsules, and so have two runs that differ in what was restored.
pub proof fn lemma_capsules_tell_runs_apart(
    c: ProofCapsule,
    stamp: RunStamp,
    tool: ToolDefinition,
    input: Seq<u8>,
    output: ToolOutput,
    other_tool: ToolDefinition,
    other_input: Seq<u8>,
    other_output: ToolOutput,
    required: Seq<Seq<char>>,
    granted: Seq<Seq<char>>,
    rounds: Option<u32>,
    snapshot: Option<SnapshotEvidence>,
    capsule_id: Seq<char>,
)
    requires
        describes_run(
            c,
            stamp,
            tool,
            input,
            required,
            granted,
            rounds,
            output,
            snapshot,
            capsule_id,
        ),
        describes_run(
            c,
            stamp,
            other_tool,
            other_input,
            required,
            granted,
            rounds,
            other_output,
            snapshot,
            capsule_id,
        ),
    ensures
        text::hex_of(digest::sha256_of(tool.wasm_bytes@)) == text::hex_of(
            digest::sha256_of(other_tool.wasm_bytes@),
        ),
        text::hex_of(digest::sha256_of(input)) == text::hex_of(digest::sha256_of(other_input)),
        tool.name@ == other_tool.name@ && tool.entry_point@ == other_tool.entry_point@,
        output.execution_time_ms == other_output.execution_time_ms,
        output.rollback_performed && output.snapshot_id is Some && other_output.rollback_performed
            && other_output.snapshot_id is Some ==> output.snapshot_id->0@
            == other_output.snapshot_id->0@,
{
    lemma_capsule_tells_the_run(
        c,
        stamp,
        tool,
        input,
        required,
        granted,
        rounds,
        output,
        snapshot,
        capsule_id,
    );
    lemma_capsule_tells_the_run(
        c,
        stamp,
        other_tool,
        other_input,
        required,
        granted,
        rounds,
        other_output,
        snapshot,
        capsule_id,
    );
}

/// When exactly what is required was granted, nothing is reported as missing;
/// when something is required and nothing was granted, all of it is.
pub proof fn lemma_mismatch_reports_missing(e: CapabilityEvidence, c: ExecutionReceipt)
    requires
        is_capability_evidence(e, c),
    ensures
        text::texts(c.required_caps@) == text::texts(c.granted_caps@) ==> e.mismatch is None,
        c.required_caps@.len() > 0 && c.granted_caps@.len() == 0 ==> e.mismatch is Some
            && text::texts(e.mismatch->0@) == text::texts(c.required_caps@),
{
    assert(text::texts(c.required_caps@).len() == c.required_caps@.len());
    assert(text::texts(c.granted_caps@).len() == c.granted_caps@.len());
}

/// Who needs nothing, or was not denied, runs; who was denied a capability may
/// negotiate, where there is somebody to negotiate with; and anybody else is
/// refused with what they were denied for.
pub proof fn lemma_denied_executions_do_not_run(
    requires_capabilities: bool,
    denial: Option<NexusError>,
    negotiable: bool,
    r: ProofGate,
)
    requires
        is_decided(requires_capabilities, denial, negotiable, r),
    ensures
        r is Run <==> !requires_capabilities || denial is None,
        r is Negotiate ==> negotiable && denial->0 is CapabilityDenied,
        r matches ProofGate::Negotiate(e) ==> denial == Some(e),
        r matches ProofGate::Refuse(e) ==> denial == Some(e),
        requires_capabilities && denial is Some && !negotiable ==> r is Refuse,
{
}

/// What a capsule says of any receipt: the profile that it was run under and how
/// strictly, the race that it came out of, and the failure in the words of the
/// error where there are any, and else by its category. It holds nothing raw and
/// has redacted nothing.
pub proof fn lemma_capsule_tells_the_receipt(
    p: ProofCapsule,
    c: ExecutionReceipt,
    output: ToolOutput,
    capsule_id: Seq<char>,
)
    requires
        is_capsule(p, c, output, capsule_id),
    ensures
        p.version@ == "1"@ && p.input.media_type@ == "application/json"@,
        p.tool.module_digest.value@ == c.module_sha256@ && p.input.digest.value@ == c.input_sha256@,
        p.policy.mode == c.policy_mode && p.policy.profile_digest is None,
        p.policy.profile_name is Some <==> c.profile is Some,
        c.profile is Some ==> p.policy.profile_name->0@ == (c.profile->0).0@,
        p.branches is Some <==> c.branches is Some,
        c.branches is Some ==> p.branches->0.winner_branch_id@ == c.branches->0.winner_branch_id@
            && p.branches->0.branches_tried == c.branches->0.branches_tried
            && p.branches->0.branches_succeeded == c.branches->0.branches_succeeded && (
        p.branches->0.source_snapshot_id is Some <==> c.branches->0.source_snapshot_id is Some),
        c.failure is Some ==> p.failure is Some && p.failure->0.failure_category@
            == c.failure->0.category@ && p.failure->0.requires_rollback
            == c.failure->0.requires_rollback && p.failure->0.error_summary@ == (
        if output.error is Some {
            output.error->0@
        } else {
            c.failure->0.category@
        }),
        c.rollback is Some ==> p.rollback->0.occurred == (c.rollback->0).0
            && p.rollback->0.from_snapshot_id->0@ == (c.rollback->0).1@ && p.rollback->0.reason->0@
            == (c.rollback->0).2@,
        !p.input.raw_included && p.redaction.hashed_fields@.len() == 0
            && p.redaction.removed_fields@.len() == 0 && p.redaction.truncated_fields@.len() == 0
            && p.redaction.hmac_fields@.len() == 0,
        p.memory_mode is Some ==> p.memory_mode->0 is Advisory,
{
    assert(text::opt_text(p.policy.profile_name) is Some <==> p.policy.profile_name is Some);
}

/// What a receipt says of a run: the digests of its module and of its input, each
/// its own, how long the input was, and that no profile was in force.
pub proof fn lemma_receipt_tells_the_run(
    c: ExecutionReceipt,
    stamp: RunStamp,
    tool: ToolDefinition,
    input: Seq<u8>,
    required: Seq<Seq<char>>,
    granted: Seq<Seq<char>>,
    rounds: Option<u32>,
    output: ToolOutput,
    snapshot: Option<SnapshotEvidence>,
)
    requires
        is_receipt(c, stamp, tool, input, required, granted, rounds, output, snapshot),
    ensures
        c.module_sha256@ == text::hex_of(digest::sha256_of(tool.wasm_bytes@)),
        c.input_sha256@ == text::hex_of(digest::sha256_of(input)) && c.input_bytes_len
            == input.len(),
        c.tool_name@ == tool.name@ && c.entrypoint@ == tool.entry_point@,
        c.profile is None && c.policy_mode is UnprofiledDev && c.branches is None,
        c.run_id == stamp.run_id && c.started_at == stamp.started_at && c.finished_at
            == stamp.finished_at,
        text::texts(c.required_caps@) == required && text::texts(c.granted_caps@) == granted,
        c.snapshot == snapshot && c.negotiation_rounds == rounds,
        c.failure is None <==> output.success && output.error_log is None,
        c.rollback is Some <==> output.rollback_performed && output.snapshot_id is Some,
        c.rollback is Some ==> (c.rollback->0).1@ == output.snapshot_id->0@,
        tool.aeon_agent_id is Some ==> c.aeon_agent_id is Some && c.aeon_agent_id->0@
            == tool.aeon_agent_id->0@,
        tool.aeon_session_id is Some ==> c.aeon_session_id is Some && c.aeon_session_id->0@
            == tool.aeon_session_id->0@,
{
}

} // verus!
