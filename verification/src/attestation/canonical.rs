//! The canonical form of a capsule: JSON without white space, the keys of
//! every object in ascending order, and no signature.

use crate::attestation::digest;
use crate::attestation::schema::{
    BranchRaceEvidence, CapabilityEvidence, FailureEvidence, InputIdentity, MemoryAttestationMode,
    PolicyEnforcementMode, PolicyProfileRef, ProofCapsule, ProofSubject, RedactionReport,
    RollbackEvidence, SnapshotEvidence, SnapshotKind, ToolIdentity, TypedDigest,
};
use crate::text;
use vstd::prelude::*;
use vstd::string::*;

verus! {

/// A character inside a JSON string: quotes, backslashes and control characters
/// are escaped, by a letter where there is one.
pub open spec fn escaped(c: char) -> Seq<char> {
    if c == '"' {
        seq!['\\', '"']
    } else if c == '\\' {
        seq!['\\', '\\']
    } else if c == '\u{8}' {
        seq!['\\', 'b']
    } else if c == '\t' {
        seq!['\\', 't']
    } else if c == '\n' {
        seq!['\\', 'n']
    } else if c == '\u{c}' {
        seq!['\\', 'f']
    } else if c == '\r' {
        seq!['\\', 'r']
    } else if (c as u32) < 0x20 {
        let u = c as u8;
        seq!['\\', 'u', '0', '0', text::hex_digit(u / 16), text::hex_digit(u % 16)]
    } else {
        seq![c]
    }
}

/// The characters of a text inside a JSON string.
pub open spec fn all_escaped(s: Seq<char>) -> Seq<char>
    decreases s.len(),
{
    if s.len() == 0 {
        Seq::empty()
    } else {
        all_escaped(s.drop_last()) + escaped(s.last())
    }
}

/// A text as a JSON string, quotes and escapes included.
pub open spec fn json_quoted(s: Seq<char>) -> Seq<char> {
    seq!['"'] + all_escaped(s) + seq!['"']
}

/// `serde_json::to_string` on a text: the text between quotes, with quotes,
/// backslashes and control characters escaped, and everything else as it is.
/// Writing a text cannot fail.
#[verifier::external_body]
pub(crate) fn quote(s: &str) -> (r: String)
    ensures
        r@ == json_quoted(s@),
{
    serde_json::to_string(s).expect("a text can always be written")
}

/// One field of an object.
pub open spec fn field(key: Seq<char>, value: Seq<char>) -> Seq<char> {
    "\""@ + key + "\":"@ + value
}

/// An object of these fields.
pub open spec fn object(fields: Seq<Seq<char>>) -> Seq<char> {
    "{"@ + text::joined(fields, ","@) + "}"@
}

/// A list of these values.
pub open spec fn list(items: Seq<Seq<char>>) -> Seq<char> {
    "["@ + text::joined(items, ","@) + "]"@
}

/// A truth value.
pub open spec fn bool_json(b: bool) -> Seq<char> {
    if b {
        "true"@
    } else {
        "false"@
    }
}

/// An optional text.
pub open spec fn opt_text_json(o: Option<String>) -> Seq<char> {
    match o {
        Some(t) => json_quoted(t@),
        None => "null"@,
    }
}

/// A list of texts.
pub open spec fn texts_json(v: Seq<String>) -> Seq<char> {
    list(Seq::new(v.len(), |i: int| json_quoted(v[i]@)))
}

pub(crate) fn bool_text(b: bool) -> (r: String)
    ensures
        r@ == bool_json(b),
{
    if b {
        "true".to_string()
    } else {
        "false".to_string()
    }
}

pub(crate) fn field_text(key: &str, value: String) -> (r: String)
    ensures
        r@ == field(key@, value@),
{
    text::cat4("\"", key, "\":", value.as_str())
}

pub(crate) fn object_text(fields: &Vec<String>) -> (r: String)
    ensures
        r@ == object(text::texts(fields@)),
{
    let inner = text::join(fields, ",");
    text::cat3("{", inner.as_str(), "}")
}

pub(crate) fn opt_text(o: &Option<String>) -> (r: String)
    ensures
        r@ == opt_text_json(*o),
{
    match o {
        Some(t) => quote(t.as_str()),
        None => "null".to_string(),
    }
}

pub(crate) fn list_text(v: &Vec<String>) -> (r: String)
    ensures
        r@ == texts_json(v@),
{
    let mut items: Vec<String> = Vec::new();
    let mut i: usize = 0;
    while i < v.len()
        invariant
            i <= v.len(),
            items@.len() == i,
            forall|j: int| 0 <= j < i ==> (#[trigger] items@[j])@ == json_quoted(v@[j]@),
        decreases v.len() - i,
    {
        items.push(quote(v[i].as_str()));
        i = i + 1;
    }
    proof {
        assert(text::texts(items@) =~= Seq::new(v@.len(), |i: int| json_quoted(v@[i]@)));
    }
    let inner = text::join(&items, ",");
    text::cat3("[", inner.as_str(), "]")
}

/// The kind of a snapshot.
pub open spec fn kind_json(m: SnapshotKind) -> Seq<char> {
    match m {
        SnapshotKind::LatestRuntime => "\"LatestRuntime\""@,
        SnapshotKind::EmptyBaseline => "\"EmptyBaseline\""@,
        SnapshotKind::Diff => "\"Diff\""@,
    }
}

fn kind_text(m: SnapshotKind) -> (r: String)
    ensures
        r@ == kind_json(m),
{
    match m {
        SnapshotKind::LatestRuntime => "\"LatestRuntime\"".to_string(),
        SnapshotKind::EmptyBaseline => "\"EmptyBaseline\"".to_string(),
        SnapshotKind::Diff => "\"Diff\"".to_string(),
    }
}

/// How a profile is enforced.
pub open spec fn policy_mode_json(m: PolicyEnforcementMode) -> Seq<char> {
    match m {
        PolicyEnforcementMode::UnprofiledDev => "\"UnprofiledDev\""@,
        PolicyEnforcementMode::ProfileValidatedOnly => "\"ProfileValidatedOnly\""@,
        PolicyEnforcementMode::ProfileLoadedMcp => "\"ProfileLoadedMcp\""@,
        PolicyEnforcementMode::ProfileEnforcedMcpCapabilitiesOnly => "\"ProfileEnforcedMcpCapabilitiesOnly\""@,
        PolicyEnforcementMode::ProfileEnforcedMcpToolAndCapability => "\"ProfileEnforcedMcpToolAndCapability\""@,
        PolicyEnforcementMode::ProfileEnforcedRuntime => "\"ProfileEnforcedRuntime\""@,
    }
}

fn policy_mode_text(m: PolicyEnforcementMode) -> (r: String)
    ensures
        r@ == policy_mode_json(m),
{
    match m {
        PolicyEnforcementMode::UnprofiledDev => "\"UnprofiledDev\"".to_string(),
        PolicyEnforcementMode::ProfileValidatedOnly => "\"ProfileValidatedOnly\"".to_string(),
        PolicyEnforcementMode::ProfileLoadedMcp => "\"ProfileLoadedMcp\"".to_string(),
        PolicyEnforcementMode::ProfileEnforcedMcpCapabilitiesOnly => "\"ProfileEnforcedMcpCapabilitiesOnly\"".to_string(),
        PolicyEnforcementMode::ProfileEnforcedMcpToolAndCapability => "\"ProfileEnforcedMcpToolAndCapability\"".to_string(),
        PolicyEnforcementMode::ProfileEnforcedRuntime => "\"ProfileEnforcedRuntime\"".to_string(),
    }
}

/// How memory was attested.
pub open spec fn memory_mode_json(m: MemoryAttestationMode) -> Seq<char> {
    match m {
        MemoryAttestationMode::Advisory => "\"Advisory\""@,
        MemoryAttestationMode::Attested => "\"Attested\""@,
        MemoryAttestationMode::AttestedNoHit => "\"AttestedNoHit\""@,
        MemoryAttestationMode::AttestedWithRecall => "\"AttestedWithRecall\""@,
        MemoryAttestationMode::Degraded => "\"Degraded\""@,
        MemoryAttestationMode::Absent => "\"Absent\""@,
    }
}

pub(crate) fn memory_mode_text(m: MemoryAttestationMode) -> (r: String)
    ensures
        r@ == memory_mode_json(m),
{
    match m {
        MemoryAttestationMode::Advisory => "\"Advisory\"".to_string(),
        MemoryAttestationMode::Attested => "\"Attested\"".to_string(),
        MemoryAttestationMode::AttestedNoHit => "\"AttestedNoHit\"".to_string(),
        MemoryAttestationMode::AttestedWithRecall => "\"AttestedWithRecall\"".to_string(),
        MemoryAttestationMode::Degraded => "\"Degraded\"".to_string(),
        MemoryAttestationMode::Absent => "\"Absent\"".to_string(),
    }
}

/// A digest.
pub open spec fn digest_json(x: TypedDigest) -> Seq<char> {
    object(digest_fields(x))
}

pub open spec fn digest_fields(x: TypedDigest) -> Seq<Seq<char>> {
    seq![
        field("algorithm"@, json_quoted(x.algorithm@)),
        field("public_recomputable"@, bool_json(x.public_recomputable)),
        field("value"@, json_quoted(x.value@)),
    ]
}

fn digest_text(x: &TypedDigest) -> (r: String)
    ensures
        r@ == digest_json(*x),
{
    let mut fields: Vec<String> = Vec::new();
    fields.push(field_text("algorithm", quote(x.algorithm.as_str())));
    fields.push(field_text("public_recomputable", bool_text(x.public_recomputable)));
    fields.push(field_text("value", quote(x.value.as_str())));
    proof {
        assert(text::texts(fields@) =~= digest_fields(*x));
    }
    object_text(&fields)
}

/// The run.
pub open spec fn subject_json(x: ProofSubject) -> Seq<char> {
    object(subject_fields(x))
}

pub open spec fn subject_fields(x: ProofSubject) -> Seq<Seq<char>> {
    seq![
        field("duration_ms"@, text::decimal(x.duration_ms as nat)),
        field("finished_at"@, json_quoted(x.finished_at@)),
        field("run_id"@, json_quoted(x.run_id@)),
        field("started_at"@, json_quoted(x.started_at@)),
        field("tool_name"@, json_quoted(x.tool_name@)),
    ]
}

fn subject_text(x: &ProofSubject) -> (r: String)
    ensures
        r@ == subject_json(*x),
{
    let mut fields: Vec<String> = Vec::new();
    fields.push(field_text("duration_ms", text::to_decimal(x.duration_ms as u64)));
    fields.push(field_text("finished_at", quote(x.finished_at.as_str())));
    fields.push(field_text("run_id", quote(x.run_id.as_str())));
    fields.push(field_text("started_at", quote(x.started_at.as_str())));
    fields.push(field_text("tool_name", quote(x.tool_name.as_str())));
    proof {
        assert(text::texts(fields@) =~= subject_fields(*x));
    }
    object_text(&fields)
}

/// The module.
pub open spec fn tool_json(x: ToolIdentity) -> Seq<char> {
    object(tool_fields(x))
}

pub open spec fn tool_fields(x: ToolIdentity) -> Seq<Seq<char>> {
    seq![
        field("entrypoint"@, json_quoted(x.entrypoint@)),
        field("module_digest"@, digest_json(x.module_digest)),
        field("module_name"@, json_quoted(x.module_name@)),
    ]
}

fn tool_text(x: &ToolIdentity) -> (r: String)
    ensures
        r@ == tool_json(*x),
{
    let mut fields: Vec<String> = Vec::new();
    fields.push(field_text("entrypoint", quote(x.entrypoint.as_str())));
    fields.push(field_text("module_digest", digest_text(&x.module_digest)));
    fields.push(field_text("module_name", quote(x.module_name.as_str())));
    proof {
        assert(text::texts(fields@) =~= tool_fields(*x));
    }
    object_text(&fields)
}

/// The input.
pub open spec fn input_json(x: InputIdentity) -> Seq<char> {
    object(input_fields(x))
}

pub open spec fn input_fields(x: InputIdentity) -> Seq<Seq<char>> {
    seq![
        field("digest"@, digest_json(x.digest)),
        field("media_type"@, json_quoted(x.media_type@)),
        field("raw_included"@, bool_json(x.raw_included)),
    ]
}

fn input_text(x: &InputIdentity) -> (r: String)
    ensures
        r@ == input_json(*x),
{
    let mut fields: Vec<String> = Vec::new();
    fields.push(field_text("digest", digest_text(&x.digest)));
    fields.push(field_text("media_type", quote(x.media_type.as_str())));
    fields.push(field_text("raw_included", bool_text(x.raw_included)));
    proof {
        assert(text::texts(fields@) =~= input_fields(*x));
    }
    object_text(&fields)
}

pub open spec fn opt_digest_json(o: Option<TypedDigest>) -> Seq<char> {
    match o {
        Some(v) => digest_json(v),
        None => "null"@,
    }
}

fn opt_digest_text(o: &Option<TypedDigest>) -> (r: String)
    ensures
        r@ == opt_digest_json(*o),
{
    match o {
        Some(v) => digest_text(v),
        None => "null".to_string(),
    }
}

/// The profile.
pub open spec fn policy_json(x: PolicyProfileRef) -> Seq<char> {
    object(policy_fields(x))
}

pub open spec fn policy_fields(x: PolicyProfileRef) -> Seq<Seq<char>> {
    seq![
        field("mode"@, policy_mode_json(x.mode)),
        field("profile_digest"@, opt_digest_json(x.profile_digest)),
        field("profile_name"@, opt_text_json(x.profile_name)),
    ]
}

fn policy_text(x: &PolicyProfileRef) -> (r: String)
    ensures
        r@ == policy_json(*x),
{
    let mut fields: Vec<String> = Vec::new();
    fields.push(field_text("mode", policy_mode_text(x.mode)));
    fields.push(field_text("profile_digest", opt_digest_text(&x.profile_digest)));
    fields.push(field_text("profile_name", opt_text(&x.profile_name)));
    proof {
        assert(text::texts(fields@) =~= policy_fields(*x));
    }
    object_text(&fields)
}

pub open spec fn opt_texts_json(o: Option<Vec<String>>) -> Seq<char> {
    match o {
        Some(v) => texts_json(v@),
        None => "null"@,
    }
}

fn opt_texts_text(o: &Option<Vec<String>>) -> (r: String)
    ensures
        r@ == opt_texts_json(*o),
{
    match o {
        Some(v) => list_text(v),
        None => "null".to_string(),
    }
}

/// The capabilities. The number of negotiation rounds is left out if there is none.
pub open spec fn capabilities_json(x: CapabilityEvidence) -> Seq<char> {
    object(capabilities_fields(x))
}

pub open spec fn capabilities_fields(x: CapabilityEvidence) -> Seq<Seq<char>> {
    let head = seq![
        field("granted"@, texts_json(x.granted@)),
        field("mismatch"@, opt_texts_json(x.mismatch)),
    ];
    let last = field("required"@, texts_json(x.required@));
    match x.negotiation_rounds {
        Some(n) => head.push(field("negotiation_rounds"@, text::decimal(n as nat))).push(last),
        None => head.push(last),
    }
}

fn capabilities_text(x: &CapabilityEvidence) -> (r: String)
    ensures
        r@ == capabilities_json(*x),
{
    let mut fields: Vec<String> = Vec::new();
    fields.push(field_text("granted", list_text(&x.granted)));
    fields.push(field_text("mismatch", opt_texts_text(&x.mismatch)));
    if let Some(n) = x.negotiation_rounds {
        fields.push(field_text("negotiation_rounds", text::to_decimal(n as u64)));
    }
    fields.push(field_text("required", list_text(&x.required)));
    proof {
        assert(text::texts(fields@) =~= capabilities_fields(*x));
    }
    object_text(&fields)
}

/// The snapshot.
pub open spec fn snapshot_json(x: SnapshotEvidence) -> Seq<char> {
    object(snapshot_fields(x))
}

pub open spec fn snapshot_fields(x: SnapshotEvidence) -> Seq<Seq<char>> {
    seq![
        field("compressed_size"@, text::decimal(x.compressed_size as nat)),
        field("memory_digest"@, digest_json(x.memory_digest)),
        field("original_size"@, text::decimal(x.original_size as nat)),
        field("snapshot_id"@, json_quoted(x.snapshot_id@)),
        field("snapshot_kind"@, kind_json(x.snapshot_kind)),
    ]
}

fn snapshot_text(x: &SnapshotEvidence) -> (r: String)
    ensures
        r@ == snapshot_json(*x),
{
    let mut fields: Vec<String> = Vec::new();
    fields.push(field_text("compressed_size", text::to_decimal(x.compressed_size as u64)));
    fields.push(field_text("memory_digest", digest_text(&x.memory_digest)));
    fields.push(field_text("original_size", text::to_decimal(x.original_size as u64)));
    fields.push(field_text("snapshot_id", quote(x.snapshot_id.as_str())));
    fields.push(field_text("snapshot_kind", kind_text(x.snapshot_kind)));
    proof {
        assert(text::texts(fields@) =~= snapshot_fields(*x));
    }
    object_text(&fields)
}

pub open spec fn opt_bool_json(o: Option<bool>) -> Seq<char> {
    match o {
        Some(v) => bool_json(v),
        None => "null"@,
    }
}

fn opt_bool_text(o: &Option<bool>) -> (r: String)
    ensures
        r@ == opt_bool_json(*o),
{
    match o {
        Some(v) => bool_text(*v),
        None => "null".to_string(),
    }
}

/// The failure.
pub open spec fn failure_json(x: FailureEvidence) -> Seq<char> {
    object(failure_fields(x))
}

pub open spec fn failure_fields(x: FailureEvidence) -> Seq<Seq<char>> {
    seq![
        field("deterministic"@, opt_bool_json(x.deterministic)),
        field("error_summary"@, json_quoted(x.error_summary@)),
        field("failure_category"@, json_quoted(x.failure_category@)),
        field("requires_rollback"@, bool_json(x.requires_rollback)),
    ]
}

fn failure_text(x: &FailureEvidence) -> (r: String)
    ensures
        r@ == failure_json(*x),
{
    let mut fields: Vec<String> = Vec::new();
    fields.push(field_text("deterministic", opt_bool_text(&x.deterministic)));
    fields.push(field_text("error_summary", quote(x.error_summary.as_str())));
    fields.push(field_text("failure_category", quote(x.failure_category.as_str())));
    fields.push(field_text("requires_rollback", bool_text(x.requires_rollback)));
    proof {
        assert(text::texts(fields@) =~= failure_fields(*x));
    }
    object_text(&fields)
}

/// The rollback.
pub open spec fn rollback_json(x: RollbackEvidence) -> Seq<char> {
    object(rollback_fields(x))
}

pub open spec fn rollback_fields(x: RollbackEvidence) -> Seq<Seq<char>> {
    seq![
        field("from_snapshot_id"@, opt_text_json(x.from_snapshot_id)),
        field("occurred"@, bool_json(x.occurred)),
        field("reason"@, opt_text_json(x.reason)),
    ]
}

fn rollback_text(x: &RollbackEvidence) -> (r: String)
    ensures
        r@ == rollback_json(*x),
{
    let mut fields: Vec<String> = Vec::new();
    fields.push(field_text("from_snapshot_id", opt_text(&x.from_snapshot_id)));
    fields.push(field_text("occurred", bool_text(x.occurred)));
    fields.push(field_text("reason", opt_text(&x.reason)));
    proof {
        assert(text::texts(fields@) =~= rollback_fields(*x));
    }
    object_text(&fields)
}

/// The race.
pub open spec fn branches_json(x: BranchRaceEvidence) -> Seq<char> {
    object(branches_fields(x))
}

pub open spec fn branches_fields(x: BranchRaceEvidence) -> Seq<Seq<char>> {
    seq![
        field("branches_succeeded"@, text::decimal(x.branches_succeeded as nat)),
        field("branches_tried"@, text::decimal(x.branches_tried as nat)),
        field("source_snapshot_id"@, opt_text_json(x.source_snapshot_id)),
        field("winner_branch_id"@, json_quoted(x.winner_branch_id@)),
    ]
}

fn branches_text(x: &BranchRaceEvidence) -> (r: String)
    ensures
        r@ == branches_json(*x),
{
    let mut fields: Vec<String> = Vec::new();
    fields.push(field_text("branches_succeeded", text::to_decimal(x.branches_succeeded as u64)));
    fields.push(field_text("branches_tried", text::to_decimal(x.branches_tried as u64)));
    fields.push(field_text("source_snapshot_id", opt_text(&x.source_snapshot_id)));
    fields.push(field_text("winner_branch_id", quote(x.winner_branch_id.as_str())));
    proof {
        assert(text::texts(fields@) =~= branches_fields(*x));
    }
    object_text(&fields)
}

/// The redactions.
pub open spec fn redaction_json(x: RedactionReport) -> Seq<char> {
    object(redaction_fields(x))
}

pub open spec fn redaction_fields(x: RedactionReport) -> Seq<Seq<char>> {
    seq![
        field("hashed_fields"@, texts_json(x.hashed_fields@)),
        field("hmac_fields"@, texts_json(x.hmac_fields@)),
        field("removed_fields"@, texts_json(x.removed_fields@)),
        field("truncated_fields"@, texts_json(x.truncated_fields@)),
    ]
}

fn redaction_text(x: &RedactionReport) -> (r: String)
    ensures
        r@ == redaction_json(*x),
{
    let mut fields: Vec<String> = Vec::new();
    fields.push(field_text("hashed_fields", list_text(&x.hashed_fields)));
    fields.push(field_text("hmac_fields", list_text(&x.hmac_fields)));
    fields.push(field_text("removed_fields", list_text(&x.removed_fields)));
    fields.push(field_text("truncated_fields", list_text(&x.truncated_fields)));
    proof {
        assert(text::texts(fields@) =~= redaction_fields(*x));
    }
    object_text(&fields)
}

pub open spec fn opt_snapshot_json(o: Option<SnapshotEvidence>) -> Seq<char> {
    match o {
        Some(v) => snapshot_json(v),
        None => "null"@,
    }
}

fn opt_snapshot_text(o: &Option<SnapshotEvidence>) -> (r: String)
    ensures
        r@ == opt_snapshot_json(*o),
{
    match o {
        Some(v) => snapshot_text(v),
        None => "null".to_string(),
    }
}

pub open spec fn opt_failure_json(o: Option<FailureEvidence>) -> Seq<char> {
    match o {
        Some(v) => failure_json(v),
        None => "null"@,
    }
}

fn opt_failure_text(o: &Option<FailureEvidence>) -> (r: String)
    ensures
        r@ == opt_failure_json(*o),
{
    match o {
        Some(v) => failure_text(v),
        None => "null".to_string(),
    }
}

pub open spec fn opt_rollback_json(o: Option<RollbackEvidence>) -> Seq<char> {
    match o {
        Some(v) => rollback_json(v),
        None => "null"@,
    }
}

fn opt_rollback_text(o: &Option<RollbackEvidence>) -> (r: String)
    ensures
        r@ == opt_rollback_json(*o),
{
    match o {
        Some(v) => rollback_text(v),
        None => "null".to_string(),
    }
}

pub open spec fn opt_branches_json(o: Option<BranchRaceEvidence>) -> Seq<char> {
    match o {
        Some(v) => branches_json(v),
        None => "null"@,
    }
}

fn opt_branches_text(o: &Option<BranchRaceEvidence>) -> (r: String)
    ensures
        r@ == opt_branches_json(*o),
{
    match o {
        Some(v) => branches_text(v),
        None => "null".to_string(),
    }
}

/// The fields about memory that a capsule has: each is left out if there is
/// nothing to say.
pub open spec fn memory_fields(x: ProofCapsule) -> Seq<Seq<char>> {
    let evidence = match x.memory_evidence {
        Some(e) => seq![field("memory_evidence"@, e.json@)],
        None => Seq::empty(),
    };
    match x.memory_mode {
        Some(m) => evidence.push(field("memory_mode"@, memory_mode_json(m))),
        None => evidence,
    }
}

/// The fields of a capsule, in ascending order of their keys. The signature is
/// always left empty.
pub open spec fn capsule_fields(x: ProofCapsule) -> Seq<Seq<char>> {
    seq![
        field("branches"@, opt_branches_json(x.branches)),
        field("capabilities"@, capabilities_json(x.capabilities)),
        field("capsule_id"@, json_quoted(x.capsule_id@)),
        field("failure"@, opt_failure_json(x.failure)),
        field("input"@, input_json(x.input)),
        field("limitations"@, texts_json(x.limitations@)),
    ] + memory_fields(x) + seq![
        field("policy"@, policy_json(x.policy)),
        field("redaction"@, redaction_json(x.redaction)),
        field("rollback"@, opt_rollback_json(x.rollback)),
        field("signature"@, "null"@),
        field("snapshot"@, opt_snapshot_json(x.snapshot)),
        field("subject"@, subject_json(x.subject)),
        field("tool"@, tool_json(x.tool)),
        field("version"@, json_quoted(x.version@)),
    ]
}

/// The canonical bytes of a capsule.
pub open spec fn canonical(x: ProofCapsule) -> Seq<u8> {
    vstd::utf8::encode_utf8(object(capsule_fields(x)))
}

/// The canonical bytes of a capsule.
pub fn canonical_bytes(capsule: &ProofCapsule) -> (r: Vec<u8>)
    ensures
        r@ == canonical(*capsule),
{
    let x = capsule;
    let mut fields: Vec<String> = Vec::new();
    fields.push(field_text("branches", opt_branches_text(&x.branches)));
    fields.push(field_text("capabilities", capabilities_text(&x.capabilities)));
    fields.push(field_text("capsule_id", quote(x.capsule_id.as_str())));
    fields.push(field_text("failure", opt_failure_text(&x.failure)));
    fields.push(field_text("input", input_text(&x.input)));
    fields.push(field_text("limitations", list_text(&x.limitations)));
    if let Some(e) = &x.memory_evidence {
        fields.push(field_text("memory_evidence", e.json.clone()));
    }
    if let Some(m) = x.memory_mode {
        fields.push(field_text("memory_mode", memory_mode_text(m)));
    }
    fields.push(field_text("policy", policy_text(&x.policy)));
    fields.push(field_text("redaction", redaction_text(&x.redaction)));
    fields.push(field_text("rollback", opt_rollback_text(&x.rollback)));
    fields.push(field_text("signature", "null".to_string()));
    fields.push(field_text("snapshot", opt_snapshot_text(&x.snapshot)));
    fields.push(field_text("subject", subject_text(&x.subject)));
    fields.push(field_text("tool", tool_text(&x.tool)));
    fields.push(field_text("version", quote(x.version.as_str())));
    proof {
        assert(text::texts(fields@) =~= capsule_fields(*x));
    }
    let whole = object_text(&fields);
    whole.as_str().as_bytes_vec()
}

/// The digest of a capsule: the public digest of its canonical bytes.
pub fn capsule_digest(capsule: &ProofCapsule) -> (r: TypedDigest)
    ensures
        digest::is_sha256_public(r, canonical(*capsule)),
{
    let bytes = canonical_bytes(capsule);
    TypedDigest::sha256_public(bytes.as_slice())
}

/// Two capsules that differ at most in their signature have the same canonical
/// bytes.
pub proof fn lemma_canonical_ignores_signature(a: ProofCapsule, b: ProofCapsule)
    requires
        a == (ProofCapsule { signature: a.signature, ..b }),
    ensures
        canonical(a) == canonical(b),
{
}

/// A written text is one line: no control character is left in it.
pub proof fn lemma_quoted_has_no_controls(s: Seq<char>, i: int)
    requires
        0 <= i < json_quoted(s).len(),
    ensures
        (json_quoted(s)[i] as u32) >= 0x20,
{
    let inner = all_escaped(s);
    lemma_escaped_has_no_controls(s);
    if 0 < i <= inner.len() {
        assert(json_quoted(s)[i] == inner[i - 1]);
    }
}

proof fn lemma_escaped_has_no_controls(s: Seq<char>)
    ensures
        forall|i: int| 0 <= i < all_escaped(s).len() ==> (#[trigger] all_escaped(s)[i]) as u32 >= 0x20,
    decreases s.len(),
{
    if s.len() > 0 {
        let t = all_escaped(s.drop_last());
        lemma_escaped_has_no_controls(s.drop_last());
        let e = escaped(s.last());
        assert forall|i: int| 0 <= i < all_escaped(s).len() implies (
        #[trigger] all_escaped(s)[i]) as u32 >= 0x20 by {
            if i < t.len() {
                assert(all_escaped(s)[i] == t[i]);
            } else {
                assert(all_escaped(s)[i] == e[i - t.len()]);
            }
        }
    }
}

/// An object holds each of its fields.
pub proof fn lemma_object_holds(fields: Seq<Seq<char>>)
    ensures
        forall|i: int|
            0 <= i < fields.len() ==> text::has_text(object(fields), #[trigger] fields[i]),
{
    assert forall|i: int| 0 <= i < fields.len() implies text::has_text(
        object(fields),
        #[trigger] fields[i],
    ) by {
        text::lemma_joined_holds(fields, ","@, i);
        text::lemma_held_in_longer("{"@, text::joined(fields, ","@), "}"@, fields[i]);
    }
}

/// A field holds its value.
pub proof fn lemma_field_holds(key: Seq<char>, value: Seq<char>)
    ensures
        text::has_text(field(key, value), value),
{
    text::lemma_part_is_held("\""@ + key + "\":"@, value, Seq::empty());
    assert("\""@ + key + "\":"@ + value + Seq::<char>::empty() =~= field(key, value));
}

/// A digest is signed as it is: its value under `value`, how it was made under
/// `algorithm`, and whether anybody can make it again.
pub proof fn lemma_digests_are_written(d: TypedDigest)
    ensures
        text::has_text(digest_json(d), field("value"@, json_quoted(d.value@))),
        text::has_text(digest_json(d), field("algorithm"@, json_quoted(d.algorithm@))),
        text::has_text(
            digest_json(d),
            field("public_recomputable"@, bool_json(d.public_recomputable)),
        ),
{
    let f = digest_fields(d);
    lemma_object_holds(f);
    assert(f[0] == field("algorithm"@, json_quoted(d.algorithm@)));
    assert(f[1] == field("public_recomputable"@, bool_json(d.public_recomputable)));
    assert(f[2] == field("value"@, json_quoted(d.value@)));
}

/// What a signature covers: the bytes that are signed hold the run, the module
/// and the input, each under its own key and with its own digest.
pub proof fn lemma_signature_covers_the_run(c: ProofCapsule, t: Seq<char>)
    requires
        t == object(capsule_fields(c)),
    ensures
        canonical(c) == vstd::utf8::encode_utf8(t),
        text::has_text(t, field("capsule_id"@, json_quoted(c.capsule_id@))),
        text::has_text(t, field("version"@, json_quoted(c.version@))),
        text::has_text(t, field("subject"@, subject_json(c.subject))),
        text::has_text(t, field("run_id"@, json_quoted(c.subject.run_id@))),
        text::has_text(t, field("tool_name"@, json_quoted(c.subject.tool_name@))),
        text::has_text(t, field("started_at"@, json_quoted(c.subject.started_at@))),
        text::has_text(t, field("finished_at"@, json_quoted(c.subject.finished_at@))),
        text::has_text(
            t,
            field("duration_ms"@, text::decimal(c.subject.duration_ms as nat)),
        ),
        text::has_text(t, field("tool"@, tool_json(c.tool))),
        text::has_text(t, field("entrypoint"@, json_quoted(c.tool.entrypoint@))),
        text::has_text(t, field("module_name"@, json_quoted(c.tool.module_name@))),
        text::has_text(t, field("module_digest"@, digest_json(c.tool.module_digest))),
        text::has_text(t, field("value"@, json_quoted(c.tool.module_digest.value@))),
        text::has_text(t, field("input"@, input_json(c.input))),
        text::has_text(input_json(c.input), field("digest"@, digest_json(c.input.digest))),
        text::has_text(t, field("value"@, json_quoted(c.input.digest.value@))),
        text::has_text(t, field("media_type"@, json_quoted(c.input.media_type@))),
        text::has_text(t, field("raw_included"@, bool_json(c.input.raw_included))),
{
    let f = capsule_fields(c);
    let n = f.len() as int;
    lemma_object_holds(f);
    assert(f[2] == field("capsule_id"@, json_quoted(c.capsule_id@)));
    assert(f[4] == field("input"@, input_json(c.input)));
    assert(f[n - 1] == field("version"@, json_quoted(c.version@)));
    assert(f[n - 2] == field("tool"@, tool_json(c.tool)));
    assert(f[n - 3] == field("subject"@, subject_json(c.subject)));
    lemma_field_holds("subject"@, subject_json(c.subject));
    text::lemma_held_through(t, f[n - 3], subject_json(c.subject));
    let s = subject_fields(c.subject);
    lemma_object_holds(s);
    assert(s[0] == field("duration_ms"@, text::decimal(c.subject.duration_ms as nat)));
    assert(s[1] == field("finished_at"@, json_quoted(c.subject.finished_at@)));
    assert(s[2] == field("run_id"@, json_quoted(c.subject.run_id@)));
    assert(s[3] == field("started_at"@, json_quoted(c.subject.started_at@)));
    assert(s[4] == field("tool_name"@, json_quoted(c.subject.tool_name@)));
    text::lemma_held_through(t, subject_json(c.subject), s[0]);
    text::lemma_held_through(t, subject_json(c.subject), s[1]);
    text::lemma_held_through(t, subject_json(c.subject), s[2]);
    text::lemma_held_through(t, subject_json(c.subject), s[3]);
    text::lemma_held_through(t, subject_json(c.subject), s[4]);
    lemma_field_holds("tool"@, tool_json(c.tool));
    text::lemma_held_through(t, f[n - 2], tool_json(c.tool));
    let u = tool_fields(c.tool);
    lemma_object_holds(u);
    assert(u[0] == field("entrypoint"@, json_quoted(c.tool.entrypoint@)));
    assert(u[1] == field("module_digest"@, digest_json(c.tool.module_digest)));
    assert(u[2] == field("module_name"@, json_quoted(c.tool.module_name@)));
    text::lemma_held_through(t, tool_json(c.tool), u[0]);
    text::lemma_held_through(t, tool_json(c.tool), u[1]);
    text::lemma_held_through(t, tool_json(c.tool), u[2]);
    lemma_field_holds("module_digest"@, digest_json(c.tool.module_digest));
    text::lemma_held_through(t, u[1], digest_json(c.tool.module_digest));
    lemma_digests_are_written(c.tool.module_digest);
    text::lemma_held_through(
        t,
        digest_json(c.tool.module_digest),
        field("value"@, json_quoted(c.tool.module_digest.value@)),
    );
    lemma_field_holds("input"@, input_json(c.input));
    text::lemma_held_through(t, f[4], input_json(c.input));
    let v = input_fields(c.input);
    lemma_object_holds(v);
    assert(v[0] == field("digest"@, digest_json(c.input.digest)));
    assert(v[1] == field("media_type"@, json_quoted(c.input.media_type@)));
    assert(v[2] == field("raw_included"@, bool_json(c.input.raw_included)));
    text::lemma_held_through(t, input_json(c.input), v[0]);
    text::lemma_held_through(t, input_json(c.input), v[1]);
    text::lemma_held_through(t, input_json(c.input), v[2]);
    lemma_field_holds("digest"@, digest_json(c.input.digest));
    text::lemma_held_through(t, v[0], digest_json(c.input.digest));
    lemma_digests_are_written(c.input.digest);
    text::lemma_held_through(
        t,
        digest_json(c.input.digest),
        field("value"@, json_quoted(c.input.digest.value@)),
    );
}

/// The fields of a capsule that hold objects or lists of their own.
proof fn lemma_capsule_holds(c: ProofCapsule, t: Seq<char>)
    requires
        t == object(capsule_fields(c)),
    ensures
        text::has_text(t, field("branches"@, opt_branches_json(c.branches))),
        text::has_text(t, field("capabilities"@, capabilities_json(c.capabilities))),
        text::has_text(t, field("failure"@, opt_failure_json(c.failure))),
        text::has_text(t, field("limitations"@, texts_json(c.limitations@))),
        text::has_text(t, field("snapshot"@, opt_snapshot_json(c.snapshot))),
        text::has_text(t, field("signature"@, "null"@)),
        text::has_text(t, field("rollback"@, opt_rollback_json(c.rollback))),
        text::has_text(t, field("redaction"@, redaction_json(c.redaction))),
        text::has_text(t, field("policy"@, policy_json(c.policy))),
        c.memory_evidence matches Some(e) ==> text::has_text(
            t,
            field("memory_evidence"@, e.json@),
        ),
        c.memory_mode matches Some(m) ==> text::has_text(
            t,
            field("memory_mode"@, memory_mode_json(m)),
        ),
{
    let f = capsule_fields(c);
    let n = f.len() as int;
    lemma_object_holds(f);
    assert(f[0] == field("branches"@, opt_branches_json(c.branches)));
    assert(f[1] == field("capabilities"@, capabilities_json(c.capabilities)));
    assert(f[3] == field("failure"@, opt_failure_json(c.failure)));
    assert(f[5] == field("limitations"@, texts_json(c.limitations@)));
    assert(f[n - 4] == field("snapshot"@, opt_snapshot_json(c.snapshot)));
    assert(f[n - 5] == field("signature"@, "null"@));
    assert(f[n - 6] == field("rollback"@, opt_rollback_json(c.rollback)));
    assert(f[n - 7] == field("redaction"@, redaction_json(c.redaction)));
    assert(f[n - 8] == field("policy"@, policy_json(c.policy)));
    if c.memory_evidence is Some {
        assert(f[6] == field("memory_evidence"@, c.memory_evidence->0.json@));
    }
    if c.memory_mode is Some {
        assert(f[n - 9] == field("memory_mode"@, memory_mode_json(c.memory_mode->0)));
    }
}

/// A signature covers what was asked for and granted, under which policy, what
/// was redacted, and which memory was used, each under its own key. It does not
/// cover itself.
pub proof fn lemma_signature_covers_the_rights(c: ProofCapsule, t: Seq<char>)
    requires
        t == object(capsule_fields(c)),
    ensures
        text::has_text(t, field("granted"@, texts_json(c.capabilities.granted@))),
        text::has_text(t, field("required"@, texts_json(c.capabilities.required@))),
        text::has_text(t, field("mismatch"@, opt_texts_json(c.capabilities.mismatch))),
        c.capabilities.negotiation_rounds matches Some(n) ==> text::has_text(
            t,
            field("negotiation_rounds"@, text::decimal(n as nat)),
        ),
        text::has_text(t, field("mode"@, policy_mode_json(c.policy.mode))),
        text::has_text(t, field("profile_name"@, opt_text_json(c.policy.profile_name))),
        text::has_text(t, field("profile_digest"@, opt_digest_json(c.policy.profile_digest))),
        text::has_text(t, field("limitations"@, texts_json(c.limitations@))),
        c.memory_evidence matches Some(e) ==> text::has_text(
            t,
            field("memory_evidence"@, e.json@),
        ),
        c.memory_mode matches Some(m) ==> text::has_text(
            t,
            field("memory_mode"@, memory_mode_json(m)),
        ),
        text::has_text(t, field("signature"@, "null"@)),
{
    lemma_capsule_holds(c, t);
    let a = capabilities_fields(c.capabilities);
    lemma_nested_object(
        t,
        field("capabilities"@, capabilities_json(c.capabilities)),
        "capabilities"@,
        a,
    );
    assert(a[0] == field("granted"@, texts_json(c.capabilities.granted@)));
    assert(a[1] == field("mismatch"@, opt_texts_json(c.capabilities.mismatch)));
    assert(a[a.len() - 1] == field("required"@, texts_json(c.capabilities.required@)));
    if c.capabilities.negotiation_rounds is Some {
        assert(a[2] == field(
            "negotiation_rounds"@,
            text::decimal(c.capabilities.negotiation_rounds->0 as nat),
        ));
    }
    let p = policy_fields(c.policy);
    lemma_nested_object(t, field("policy"@, policy_json(c.policy)), "policy"@, p);
    assert(p[0] == field("mode"@, policy_mode_json(c.policy.mode)));
    assert(p[1] == field("profile_digest"@, opt_digest_json(c.policy.profile_digest)));
    assert(p[2] == field("profile_name"@, opt_text_json(c.policy.profile_name)));
}

/// A signature covers what was redacted, list by list.
pub proof fn lemma_signature_covers_the_redactions(c: ProofCapsule, t: Seq<char>)
    requires
        t == object(capsule_fields(c)),
    ensures
        text::has_text(t, field("hmac_fields"@, texts_json(c.redaction.hmac_fields@))),
        text::has_text(t, field("hashed_fields"@, texts_json(c.redaction.hashed_fields@))),
        text::has_text(t, field("removed_fields"@, texts_json(c.redaction.removed_fields@))),
        text::has_text(t, field("truncated_fields"@, texts_json(c.redaction.truncated_fields@))),
{
    lemma_capsule_holds(c, t);
    let r = redaction_fields(c.redaction);
    lemma_nested_object(t, field("redaction"@, redaction_json(c.redaction)), "redaction"@, r);
    assert(r[0] == field("hashed_fields"@, texts_json(c.redaction.hashed_fields@)));
    assert(r[1] == field("hmac_fields"@, texts_json(c.redaction.hmac_fields@)));
    assert(r[2] == field("removed_fields"@, texts_json(c.redaction.removed_fields@)));
    assert(r[3] == field("truncated_fields"@, texts_json(c.redaction.truncated_fields@)));
}

/// A signature covers what went wrong and what was restored, and `null` where
/// nothing did or was.
pub proof fn lemma_signature_covers_the_failure(c: ProofCapsule, t: Seq<char>)
    requires
        t == object(capsule_fields(c)),
    ensures
        c.failure is None ==> text::has_text(t, field("failure"@, "null"@)),
        c.failure matches Some(x) ==> {
            &&& text::has_text(t, field("failure_category"@, json_quoted(x.failure_category@)))
            &&& text::has_text(t, field("error_summary"@, json_quoted(x.error_summary@)))
            &&& text::has_text(t, field("requires_rollback"@, bool_json(x.requires_rollback)))
            &&& text::has_text(t, field("deterministic"@, opt_bool_json(x.deterministic)))
        },
        c.rollback is None ==> text::has_text(t, field("rollback"@, "null"@)),
        c.rollback matches Some(x) ==> {
            &&& text::has_text(t, field("from_snapshot_id"@, opt_text_json(x.from_snapshot_id)))
            &&& text::has_text(t, field("occurred"@, bool_json(x.occurred)))
            &&& text::has_text(t, field("reason"@, opt_text_json(x.reason)))
        },
{
    lemma_capsule_holds(c, t);
    if c.failure is Some {
        let x = c.failure->0;
        let g = failure_fields(x);
        lemma_nested_object(t, field("failure"@, opt_failure_json(c.failure)), "failure"@, g);
        assert(g[0] == field("deterministic"@, opt_bool_json(x.deterministic)));
        assert(g[1] == field("error_summary"@, json_quoted(x.error_summary@)));
        assert(g[2] == field("failure_category"@, json_quoted(x.failure_category@)));
        assert(g[3] == field("requires_rollback"@, bool_json(x.requires_rollback)));
    }
    if c.rollback is Some {
        let x = c.rollback->0;
        let g = rollback_fields(x);
        lemma_nested_object(t, field("rollback"@, opt_rollback_json(c.rollback)), "rollback"@, g);
        assert(g[0] == field("from_snapshot_id"@, opt_text_json(x.from_snapshot_id)));
        assert(g[1] == field("occurred"@, bool_json(x.occurred)));
        assert(g[2] == field("reason"@, opt_text_json(x.reason)));
    }
}

/// A signature covers the snapshot that was taken and the race that was run, and
/// `null` where there is none.
pub proof fn lemma_signature_covers_the_state(c: ProofCapsule, t: Seq<char>)
    requires
        t == object(capsule_fields(c)),
    ensures
        c.snapshot is None ==> text::has_text(t, field("snapshot"@, "null"@)),
        c.snapshot matches Some(x) ==> {
            &&& text::has_text(t, field("snapshot_id"@, json_quoted(x.snapshot_id@)))
            &&& text::has_text(t, field("memory_digest"@, digest_json(x.memory_digest)))
            &&& text::has_text(t, field("snapshot_kind"@, kind_json(x.snapshot_kind)))
            &&& text::has_text(t, field("original_size"@, text::decimal(x.original_size as nat)))
            &&& text::has_text(
                t,
                field("compressed_size"@, text::decimal(x.compressed_size as nat)),
            )
        },
        c.branches is None ==> text::has_text(t, field("branches"@, "null"@)),
        c.branches matches Some(x) ==> {
            &&& text::has_text(t, field("winner_branch_id"@, json_quoted(x.winner_branch_id@)))
            &&& text::has_text(t, field("branches_tried"@, text::decimal(x.branches_tried as nat)))
            &&& text::has_text(
                t,
                field("branches_succeeded"@, text::decimal(x.branches_succeeded as nat)),
            )
            &&& text::has_text(
                t,
                field("source_snapshot_id"@, opt_text_json(x.source_snapshot_id)),
            )
        },
{
    lemma_capsule_holds(c, t);
    if c.snapshot is Some {
        let x = c.snapshot->0;
        let g = snapshot_fields(x);
        lemma_nested_object(t, field("snapshot"@, opt_snapshot_json(c.snapshot)), "snapshot"@, g);
        assert(g[0] == field("compressed_size"@, text::decimal(x.compressed_size as nat)));
        assert(g[1] == field("memory_digest"@, digest_json(x.memory_digest)));
        assert(g[2] == field("original_size"@, text::decimal(x.original_size as nat)));
        assert(g[3] == field("snapshot_id"@, json_quoted(x.snapshot_id@)));
        assert(g[4] == field("snapshot_kind"@, kind_json(x.snapshot_kind)));
    }
    if c.branches is Some {
        let x = c.branches->0;
        let g = branches_fields(x);
        lemma_nested_object(t, field("branches"@, opt_branches_json(c.branches)), "branches"@, g);
        assert(g[0] == field("branches_succeeded"@, text::decimal(x.branches_succeeded as nat)));
        assert(g[1] == field("branches_tried"@, text::decimal(x.branches_tried as nat)));
        assert(g[2] == field("source_snapshot_id"@, opt_text_json(x.source_snapshot_id)));
        assert(g[3] == field("winner_branch_id"@, json_quoted(x.winner_branch_id@)));
    }
}

/// The fields of an object that is the value of a held field are held.
proof fn lemma_nested_object(
    t: Seq<char>,
    held: Seq<char>,
    key: Seq<char>,
    fields: Seq<Seq<char>>,
)
    requires
        text::has_text(t, held),
        held == field(key, object(fields)),
    ensures
        forall|i: int| 0 <= i < fields.len() ==> text::has_text(t, #[trigger] fields[i]),
{
    lemma_field_holds(key, object(fields));
    text::lemma_held_through(t, held, object(fields));
    lemma_object_holds(fields);
    assert forall|i: int| 0 <= i < fields.len() implies text::has_text(
        t,
        #[trigger] fields[i],
    ) by {
        text::lemma_held_through(t, object(fields), fields[i]);
    }
}

/// Modes and kinds are signed under names of their own, and `true` is not signed
/// like `false`.
pub proof fn lemma_names_are_told_apart(
    p: PolicyEnforcementMode,
    q: PolicyEnforcementMode,
    m: MemoryAttestationMode,
    n: MemoryAttestationMode,
    k: SnapshotKind,
    l: SnapshotKind,
)
    ensures
        policy_mode_json(p) == policy_mode_json(q) ==> p == q,
        memory_mode_json(m) == memory_mode_json(n) ==> m == n,
        kind_json(k) == kind_json(l) ==> k == l,
        bool_json(true) != bool_json(false),
{
    reveal_strlit("\"UnprofiledDev\"");
    reveal_strlit("\"ProfileValidatedOnly\"");
    reveal_strlit("\"ProfileLoadedMcp\"");
    reveal_strlit("\"ProfileEnforcedMcpCapabilitiesOnly\"");
    reveal_strlit("\"ProfileEnforcedMcpToolAndCapability\"");
    reveal_strlit("\"ProfileEnforcedRuntime\"");
    reveal_strlit("\"Advisory\"");
    reveal_strlit("\"Attested\"");
    reveal_strlit("\"AttestedNoHit\"");
    reveal_strlit("\"AttestedWithRecall\"");
    reveal_strlit("\"Degraded\"");
    reveal_strlit("\"Absent\"");
    reveal_strlit("\"LatestRuntime\"");
    reveal_strlit("\"EmptyBaseline\"");
    reveal_strlit("\"Diff\"");
    reveal_strlit("true");
    reveal_strlit("false");
    if policy_mode_json(p) == policy_mode_json(q) {
        assert(policy_mode_json(p).len() == policy_mode_json(q).len());
    }
    if memory_mode_json(m) == memory_mode_json(n) {
        assert(memory_mode_json(m)[1] == memory_mode_json(n)[1]);
        assert(memory_mode_json(m)[2] == memory_mode_json(n)[2]);
        assert(memory_mode_json(m).len() == memory_mode_json(n).len());
    }
    if kind_json(k) == kind_json(l) {
        assert(kind_json(k)[1] == kind_json(l)[1]);
    }
    assert("true"@.len() != "false"@.len());
}

} // verus!
