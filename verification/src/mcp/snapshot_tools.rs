//! The tools that make snapshots and go back to them.

use crate::attestation::digest;
use crate::daemon;
use crate::daemon::base64_encode;
use crate::ids;
use crate::mcp::capability;
use crate::mcp::error;
use crate::mcp::error::ToolError;
use crate::mcp::execute;
use crate::mcp::execute::read_specs;
use crate::mcp::gate;
use crate::mcp::gate::ToolGate;
use crate::mcp::params::{SnapshotCreateParams, SnapshotRollbackParams};
use crate::security;
use crate::security::{Cap, Capability};
use crate::text;
use vstd::prelude::*;
use vstd::string::*;

verus! {

/// How much restored memory is shown, in bytes.
pub const RESTORED_MEMORY_PREVIEW_BYTES: usize = 64;

/// What an answer says of a snapshot.
#[derive(Debug, Clone, PartialEq, Eq)]
pub struct SnapshotCreateResponse {
    pub snapshot_id: String,
    pub success: bool,
    pub source: String,
    pub semantics: String,
}

/// A snapshot that was asked for.
#[derive(Debug, Clone, PartialEq, Eq)]
pub enum SnapshotRequest {
    /// One that is there.
    Existing(SnapshotCreateResponse),
    /// A new one, of nothing, under this label.
    Baseline(String),
}

/// The refusal of the snapshot tools.
pub open spec fn snapshot_refused(tools: ToolGate, tool: Seq<char>) -> Option<error::Why> {
    execute::first_refusal(
        execute::refused(tools, tool),
        gate::group_refusal(
            tools.policy is None || tools.policy->0.snapshot_enabled,
            "snapshot tools are disabled by the active profile"@,
        ),
    )
}

fn ensure_snapshot_tool(tools: &ToolGate, tool: &str) -> (r: Result<(), ToolError>)
    ensures
        gate::refusal(r) == snapshot_refused(*tools, tool@),
{
    match tools.ensure_tool_allowed(tool) {
        Ok(_) => tools.ensure_snapshot_enabled(),
        Err(e) => Err(e),
    }
}

/// A snapshot that was asked for, by its contents.
pub enum Asked {
    Existing(Seq<char>),
    Baseline(Seq<char>),
}

/// Which snapshot was asked for, or why there is none. `latest` is the latest
/// that an execution left.
pub open spec fn snapshot_asked(
    label: Option<Seq<char>>,
    source: Option<Seq<char>>,
    latest: Option<Seq<char>>,
) -> Result<Asked, error::Why> {
    let s = match source {
        Some(t) => t,
        None => "empty_baseline"@,
    };
    if s == "latest_runtime"@ {
        match latest {
            Some(id) => Ok(Asked::Existing(id)),
            None => Err(
                error::Why::Other(
                    "no latest runtime snapshot is available; call nexus_execute first or omit source for an empty/stateless baseline"@,
                ),
            ),
        }
    } else if s != "empty_baseline"@ {
        Err(
            error::Why::Other(
                "unsupported snapshot source '"@ + s
                    + "'; expected 'latest_runtime' or omit source for the empty/stateless baseline"@,
            ),
        )
    } else {
        Ok(
            Asked::Baseline(
                match label {
                    Some(l) => l,
                    None => "mcp_snapshot"@,
                },
            ),
        )
    }
}

/// Whether a request is the one that was asked for.
pub open spec fn is_asked(r: SnapshotRequest, a: Asked) -> bool {
    match (r, a) {
        (SnapshotRequest::Existing(x), Asked::Existing(id)) => x.snapshot_id@ == id && x.success
            && x.source@ == "latest_runtime"@ && x.semantics@ == "runtime_capture_from_execute"@,
        (SnapshotRequest::Baseline(l), Asked::Baseline(m)) => l@ == m,
        _ => false,
    }
}

/// Which snapshot was asked for.
pub fn do_snapshot_create(
    tools: &ToolGate,
    params: &SnapshotCreateParams,
    latest: Option<&str>,
) -> (r: Result<SnapshotRequest, ToolError>)
    ensures
        is_create_answer(*tools, *params, daemon::slice_text(latest), r),
{
    match ensure_snapshot_tool(tools, "nexus_snapshot_create") {
        Ok(_) => {},
        Err(e) => {
            return Err(e);
        },
    }
    let source: String = match &params.source {
        Some(s) => s.clone(),
        None => "empty_baseline".to_string(),
    };
    if text::same_text(source.as_str(), "latest_runtime") {
        return match latest {
            Some(id) => Ok(
                SnapshotRequest::Existing(
                    SnapshotCreateResponse {
                        snapshot_id: id.to_string(),
                        success: true,
                        source: "latest_runtime".to_string(),
                        semantics: "runtime_capture_from_execute".to_string(),
                    },
                ),
            ),
            None => Err(
                ToolError::Other(
                    "no latest runtime snapshot is available; call nexus_execute first or omit source for an empty/stateless baseline".to_string(),
                ),
            ),
        };
    }
    if !text::same_text(source.as_str(), "empty_baseline") {
        return Err(
            ToolError::Other(
                text::cat3(
                    "unsupported snapshot source '",
                    source.as_str(),
                    "'; expected 'latest_runtime' or omit source for the empty/stateless baseline",
                ),
            ),
        );
    }
    match &params.label {
        Some(l) => Ok(SnapshotRequest::Baseline(l.clone())),
        None => Ok(SnapshotRequest::Baseline("mcp_snapshot".to_string())),
    }
}

/// The answer for a new snapshot.
pub fn baseline_response(snapshot_id: &str) -> (r: SnapshotCreateResponse)
    ensures
        r.snapshot_id@ == snapshot_id@,
        r.success,
        r.source@ == "empty_baseline"@,
        r.semantics@ == "empty_stateless_baseline_no_wasm_memory_or_execution_state"@,
{
    SnapshotCreateResponse {
        snapshot_id: snapshot_id.to_string(),
        success: true,
        source: "empty_baseline".to_string(),
        semantics: "empty_stateless_baseline_no_wasm_memory_or_execution_state".to_string(),
    }
}

/// A snapshot to go back to, with the capabilities that the caller claims.
#[derive(Debug, Clone, PartialEq, Eq)]
pub struct RollbackRequest {
    pub snapshot_id: String,
    pub capabilities: Vec<Capability>,
}

/// The snapshot to go back to, or why there is none. `reading` is what a
/// reading of its identifier came to, and `actual` the digest of what it holds.
pub open spec fn rollback_asked(
    params: SnapshotRollbackParams,
    reading: Result<Seq<char>, Seq<char>>,
    actual: Option<Seq<char>>,
) -> Result<(Seq<char>, Seq<Cap>), error::Why> {
    match reading {
        Err(e) => Err(error::Why::Other("Invalid snapshot UUID: "@ + e)),
        Ok(id) => match capability::capabilities_from_specs(
            execute::specs_or(params.caller_capabilities),
        ) {
            Err(e) => Err(error::Why::Other(e)),
            Ok(caps) => if params.expected_digest is Some && !(actual is Some
                && text::ascii_lowered(actual->0) == text::ascii_lowered(
                params.expected_digest->0@,
            )) {
                Err(error::Why::Other("snapshot digest mismatch"@))
            } else {
                Ok((id, caps))
            },
        },
    }
}

/// The outcome of a request to go back.
pub open spec fn rollback_outcome(r: Result<RollbackRequest, ToolError>) -> Result<
    (Seq<char>, Seq<Cap>),
    error::Why,
> {
    match r {
        Ok(q) => Ok((q.snapshot_id@, security::caps(q.capabilities@))),
        Err(e) => Err(e@),
    }
}

/// The snapshot to go back to, when `reading` is what a reading of its
/// identifier came to.
pub fn plan_rollback(
    tools: &ToolGate,
    params: &SnapshotRollbackParams,
    reading: &Result<String, String>,
    actual_digest: Option<&str>,
) -> (r: Result<RollbackRequest, ToolError>)
    ensures
        rollback_outcome(r) == rollback_planned(
            *tools,
            *params,
            ids::reading(*reading),
            daemon::slice_text(actual_digest),
        ),
{
    match ensure_snapshot_tool(tools, "nexus_snapshot_rollback") {
        Ok(_) => {},
        Err(e) => {
            return Err(e);
        },
    }
    let id: String = match reading {
        Err(e) => {
            return Err(ToolError::Other(text::cat2("Invalid snapshot UUID: ", e.as_str())));
        },
        Ok(id) => id.clone(),
    };
    let capabilities = match read_specs(&params.caller_capabilities) {
        Err(e) => {
            return Err(e);
        },
        Ok(c) => c,
    };
    if let Some(expected) = &params.expected_digest {
        let same: bool = match actual_digest {
            Some(actual) => text::same_ignoring_case(actual, expected.as_str()),
            None => false,
        };
        if !same {
            return Err(ToolError::Other("snapshot digest mismatch".to_string()));
        }
    }
    Ok(RollbackRequest { snapshot_id: id, capabilities })
}

/// The snapshot to go back to.
pub fn do_snapshot_rollback(
    tools: &ToolGate,
    params: &SnapshotRollbackParams,
    actual_digest: Option<&str>,
) -> (r: Result<RollbackRequest, ToolError>)
    ensures
        rollback_outcome(r) == rollback_planned(
            *tools,
            *params,
            ids::uuid_reading(params.snapshot_id@),
            daemon::slice_text(actual_digest),
        ),
{
    let reading = ids::parse_uuid(params.snapshot_id.as_str());
    plan_rollback(tools, params, &reading, actual_digest)
}

/// What is told of restored memory: its length and its digest, and of its
/// contents only what the caller may see.
#[derive(Debug, Clone, PartialEq, Eq)]
pub struct RestoredMemorySummary {
    pub byte_len: usize,
    pub sha256: String,
    pub preview_len: usize,
    pub preview_base64: String,
}

/// What is told of restored state.
#[derive(Debug, Clone, PartialEq, Eq)]
pub struct RestoredStateSummary {
    pub memory: RestoredMemorySummary,
    pub captured_globals: usize,
    pub captured_tables: usize,
}

/// How much restored memory is shown.
pub open spec fn preview_size(len: nat, shown: bool) -> nat {
    if !shown {
        0
    } else if len < RESTORED_MEMORY_PREVIEW_BYTES {
        len
    } else {
        RESTORED_MEMORY_PREVIEW_BYTES as nat
    }
}

/// What is told of restored memory.
pub open spec fn is_memory_summary(
    s: RestoredMemorySummary,
    memory: Seq<u8>,
    shown: bool,
) -> bool {
    let n = preview_size(memory.len(), shown);
    &&& s.byte_len == memory.len()
    &&& s.sha256@ == text::hex_of(digest::sha256_of(memory))
    &&& s.preview_len == n
    &&& s.preview_base64@ == daemon::base64_of(memory.take(n as int))
}

/// What is told of restored state. Memory is shown only to a caller that may
/// see it.
pub fn restored_state_summary(
    memory: &Vec<u8>,
    captured_globals: usize,
    captured_tables: usize,
    include_memory_preview: bool,
) -> (r: RestoredStateSummary)
    ensures
        is_memory_summary(r.memory, memory@, include_memory_preview),
        r.captured_globals == captured_globals,
        r.captured_tables == captured_tables,
{
    let preview_len: usize = if !include_memory_preview {
        0
    } else if memory.len() < RESTORED_MEMORY_PREVIEW_BYTES {
        memory.len()
    } else {
        RESTORED_MEMORY_PREVIEW_BYTES
    };
    let mut preview: Vec<u8> = Vec::new();
    let mut i: usize = 0;
    while i < preview_len
        invariant
            i <= preview_len <= memory.len(),
            preview@ == memory@.take(i as int),
        decreases preview_len - i,
    {
        preview.push(memory[i]);
        i = i + 1;
        assert(memory@.take(i as int) =~= memory@.take(i - 1).push(memory@[i - 1]));
    }
    let d = digest::sha256(memory.as_slice());
    RestoredStateSummary {
        memory: RestoredMemorySummary {
            byte_len: memory.len(),
            sha256: text::hex_lower(d.as_slice()),
            preview_len,
            preview_base64: base64_encode(preview.as_slice()),
        },
        captured_globals,
        captured_tables,
    }
}

/// Without leave nothing of restored memory is shown: the summary is the same
/// for all memories of one length and digest.
pub proof fn lemma_preview_needs_leave(
    a: RestoredMemorySummary,
    b: RestoredMemorySummary,
    x: Seq<u8>,
    y: Seq<u8>,
)
    requires
        x.len() == y.len(),
        digest::sha256_of(x) == digest::sha256_of(y),
        is_memory_summary(a, x, false),
        is_memory_summary(b, y, false),
    ensures
        a.byte_len == b.byte_len,
        a.sha256@ == b.sha256@,
        a.preview_len == 0,
        b.preview_len == 0,
        a.preview_base64@ == b.preview_base64@,
{
    assert(x.take(0) =~= y.take(0));
}

/// A snapshot that is not the expected one is never gone back to.
pub proof fn lemma_wrong_digest_stops_rollback(
    params: SnapshotRollbackParams,
    reading: Result<Seq<char>, Seq<char>>,
    actual: Option<Seq<char>>,
)
    requires
        params.expected_digest is Some,
        actual is None || text::ascii_lowered(actual->0) != text::ascii_lowered(
            params.expected_digest->0@,
        ),
    ensures
        rollback_asked(params, reading, actual) is Err,
{
}

/// The snapshot tools are refused by the lists as any tool is, and besides
/// exactly if the active profile has switched them off.
pub proof fn lemma_snapshot_tools_follow_the_profile(tools: ToolGate, tool: Seq<char>)
    ensures
        snapshot_refused(tools, tool) is None <==> execute::refused(tools, tool) is None && (
        tools.policy is None || tools.policy->0.snapshot_enabled),
{
}

/// Which snapshot is asked for: the latest one by its name, where there is one;
/// an empty one under the given label, or the usual one, where nothing is asked
/// for; and nothing else.
pub proof fn lemma_snapshots_are_asked_for_by_name(
    label: Option<Seq<char>>,
    source: Option<Seq<char>>,
    latest: Option<Seq<char>>,
)
    ensures
        source == Some("latest_runtime"@) && latest is Some ==> snapshot_asked(
            label,
            source,
            latest,
        ) == Ok::<Asked, error::Why>(Asked::Existing(latest->0)),
        source == Some("latest_runtime"@) && latest is None ==> snapshot_asked(
            label,
            source,
            latest,
        ) is Err,
        source is None && label is Some ==> snapshot_asked(label, source, latest) == Ok::<
            Asked,
            error::Why,
        >(Asked::Baseline(label->0)),
        source is None && label is None ==> snapshot_asked(label, source, latest) == Ok::<
            Asked,
            error::Why,
        >(Asked::Baseline("mcp_snapshot"@)),
        snapshot_asked(label, source, latest) is Ok ==> source is None || source->0
            == "latest_runtime"@ || source->0 == "empty_baseline"@,
        source == Some("empty_baseline"@) ==> snapshot_asked(label, source, latest)
            == snapshot_asked(label, None, latest),
{
    reveal_strlit("latest_runtime");
    reveal_strlit("empty_baseline");
    assert("latest_runtime"@[0] != "empty_baseline"@[0]);
}

/// A rollback is to the snapshot that was named, with what its caller claims;
/// where a digest was expected, only to a snapshot of that digest.
pub proof fn lemma_rollbacks_are_to_the_named_snapshot(
    params: SnapshotRollbackParams,
    reading: Result<Seq<char>, Seq<char>>,
    actual: Option<Seq<char>>,
)
    ensures
        rollback_asked(params, reading, actual) matches Ok(q) ==> {
            &&& reading is Ok && q.0 == reading->Ok_0
            &&& capability::capabilities_from_specs(execute::specs_or(params.caller_capabilities))
                == Ok::<Seq<Cap>, Seq<char>>(q.1)
            &&& params.expected_digest is Some ==> actual is Some && text::ascii_lowered(actual->0)
                == text::ascii_lowered(params.expected_digest->0@)
        },
        reading is Ok && params.caller_capabilities is None && params.expected_digest is None
            ==> rollback_asked(params, reading, actual) is Ok,
{
}

/// What is told of restored memory is its size and its digest, and of its bytes
/// no more than the first few, and those only to who may see them.
pub proof fn lemma_memory_is_summed_up(
    s: RestoredMemorySummary,
    memory: Seq<u8>,
    shown: bool,
)
    requires
        is_memory_summary(s, memory, shown),
    ensures
        s.byte_len == memory.len(),
        s.sha256@ == text::hex_of(digest::sha256_of(memory)),
        s.preview_len <= 64 && s.preview_len <= memory.len(),
        !shown ==> s.preview_len == 0 && s.preview_base64@ == daemon::base64_of(Seq::empty()),
        shown && memory.len() <= 64 ==> s.preview_base64@ == daemon::base64_of(memory),
        shown && memory.len() > 64 ==> s.preview_len == 64 && s.preview_base64@ == daemon::base64_of(
            memory.take(64),
        ),
{
    assert(memory.take(0) =~= Seq::empty());
    if memory.len() <= 64 {
        assert(memory.take(memory.len() as int) =~= memory);
    }
}

/// Whether `r` answers a request for a snapshot.
pub open spec fn is_create_answer(
    tools: ToolGate,
    params: SnapshotCreateParams,
    latest: Option<Seq<char>>,
    r: Result<SnapshotRequest, ToolError>,
) -> bool {
    let refusal = snapshot_refused(tools, "nexus_snapshot_create"@);
    let asked = snapshot_asked(text::opt_text(params.label), text::opt_text(params.source), latest);
    match r {
        Ok(s) => refusal is None && asked is Ok && is_asked(s, asked->Ok_0),
        Err(e) => match refusal {
            Some(w) => e@ == w,
            None => asked == Err::<Asked, error::Why>(e@),
        },
    }
}

/// Who asks for the latest snapshot is told the latest, and who names no source
/// gets a baseline under their label; neither where the tool may not be called.
pub proof fn lemma_snapshots_are_those_asked_for(
    tools: ToolGate,
    params: SnapshotCreateParams,
    latest: Option<Seq<char>>,
    r: Result<SnapshotRequest, ToolError>,
)
    requires
        is_create_answer(tools, params, latest, r),
    ensures
        snapshot_refused(tools, "nexus_snapshot_create"@) matches Some(w) ==> r is Err && r->Err_0@
            == w,
        r is Ok && text::opt_text(params.source) == Some("latest_runtime"@) ==> (
        r->Ok_0 matches SnapshotRequest::Existing(x) && latest == Some(x.snapshot_id@) && x.success
            && x.source@ == "latest_runtime"@),
        r is Ok && text::opt_text(params.source) != Some("latest_runtime"@) ==> (
        r->Ok_0 matches SnapshotRequest::Baseline(l) && (params.label is Some ==> l@
            == params.label->0@)),
        snapshot_refused(tools, "nexus_snapshot_create"@) is None && params.source is None
            ==> r is Ok,
{
    lemma_snapshots_are_asked_for_by_name(
        text::opt_text(params.label),
        text::opt_text(params.source),
        latest,
    );
}

/// The snapshot to go back to, or why there is none, the profile's refusal first.
pub open spec fn rollback_planned(
    tools: ToolGate,
    params: SnapshotRollbackParams,
    reading: Result<Seq<char>, Seq<char>>,
    actual: Option<Seq<char>>,
) -> Result<(Seq<char>, Seq<Cap>), error::Why> {
    match snapshot_refused(tools, "nexus_snapshot_rollback"@) {
        Some(w) => Err(w),
        None => rollback_asked(params, reading, actual),
    }
}

/// Nothing is gone back to where the tool may not be called, and otherwise only
/// to the snapshot that was named.
pub proof fn lemma_rollbacks_follow_the_profile(
    tools: ToolGate,
    params: SnapshotRollbackParams,
    reading: Result<Seq<char>, Seq<char>>,
    actual: Option<Seq<char>>,
)
    ensures
        snapshot_refused(tools, "nexus_snapshot_rollback"@) matches Some(w) ==> rollback_planned(
            tools,
            params,
            reading,
            actual,
        ) == Err::<(Seq<char>, Seq<Cap>), error::Why>(w),
        rollback_planned(tools, params, reading, actual) matches Ok(q) ==> reading == Ok::<
            Seq<char>,
            Seq<char>,
        >(q.0) && (params.expected_digest is Some ==> actual is Some),
        reading is Err ==> rollback_planned(tools, params, reading, actual) is Err,
{
}

} // verus!
