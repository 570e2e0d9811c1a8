//! The attested tool: a module is run with what memory recalls, and the
//! execution, its evidence and its capsule are told to the memory service.
//!
//! A request goes through these stages, in this order: it is admitted; where it
//! recalls memory, the caller's right to that memory and the recall limit are
//! checked; memory is recalled; the job is prepared; its capabilities are
//! authorised; it is run; and its outcome is concluded. A request that is denied
//! at any stage is answered, and told, as denied, and nothing is run for it.

use crate::aeon::config;
use crate::aeon::config::AeonConfig;
use crate::aeon::memory;
use crate::aeon::memory::{
    recall_memory_evidence_v1, AeonMemoryClient, MemoryEvidenceV1, MemoryHit, MemoryRecallEvidence,
    SearchHit,
};
use crate::aeon::timeline::{AeonTimelineSink, TimelineDeliveryMode, TimelineDeliveryStatus};
use crate::attestation::digest;
use crate::attestation::schema::{MemoryAttestationMode, ProofCapsule};
use crate::daemon;
use crate::daemon::{base64_decode, NexusExecutionEvent};
use crate::error::NexusError;
use crate::hypervisor::tool::{ToolDefinition, ToolOutput};
use crate::json;
use crate::mcp::capability;
use crate::mcp::capability::{opt_str, parse_iq_capability, required_read_memory_scope};
use crate::mcp::error;
use crate::mcp::error::{DenialReason, ToolError};
use crate::mcp::execute;
use crate::mcp::execute::{
    proof_events, verify_proof_capsule_memory_digest, ToolOutputResponse,
};
use crate::mcp::gate::ToolGate;
use crate::mcp::params::{AeonTimelineExecuteParams, CapabilitySpec, NexusIqExecuteParams};
use crate::mcp::tokens;
use crate::mcp::tokens::{check_tokens_against_active_profile, TokenState};
use crate::profile;
use crate::security;
use crate::security::{Cap, Capability};
use crate::text;
use vstd::prelude::*;
use vstd::string::*;

verus! {

/// How often an agent's memory is recalled within a window.
pub const RECALL_RATE_MAX: usize = 10;

/// How long that window is, in nanoseconds.
pub const RECALL_RATE_WINDOW: u128 = 60_000_000_000;

/// The name of a mode.
pub open spec fn mode_label(m: TimelineDeliveryMode) -> Seq<char> {
    match m {
        TimelineDeliveryMode::Advisory => "advisory"@,
        TimelineDeliveryMode::Attested => "attested"@,
        TimelineDeliveryMode::Offline => "offline"@,
    }
}

/// The name of a mode.
pub fn timeline_mode_label(mode: TimelineDeliveryMode) -> (r: &'static str)
    ensures
        r@ == mode_label(mode),
{
    match mode {
        TimelineDeliveryMode::Advisory => "advisory",
        TimelineDeliveryMode::Attested => "attested",
        TimelineDeliveryMode::Offline => "offline",
    }
}

/// Whether a request is admitted.
#[derive(Debug, Clone, Copy, PartialEq, Eq, Structural)]
pub enum IqAdmission {
    Admitted,
    /// The tool is not on the operator's list.
    Denied,
}

/// Whether `r` says whether a request for this tool is admitted.
pub open spec fn is_admission(
    tools: ToolGate,
    list: Option<Seq<Seq<char>>>,
    tool: Seq<char>,
    r: Result<IqAdmission, ToolError>,
) -> bool {
    match r {
        Err(e) => execute::proof_refused(tools, "nexus_iq_execute"@) == Some(e@),
        Ok(a) => execute::proof_refused(tools, "nexus_iq_execute"@) is None && (a
            == IqAdmission::Admitted <==> profile::list_permits(list, tool)),
    }
}

/// Whether a request is admitted: the attesting tools must be permitted, and
/// where the operator has a list, the tool must be on it.
pub fn iq_admit(
    tools: &ToolGate,
    iq_allowlist: &Option<Vec<String>>,
    params: &NexusIqExecuteParams,
) -> (r: Result<IqAdmission, ToolError>)
    ensures
        is_admission(*tools, profile::opt_texts(*iq_allowlist), params.tool_name@, r),
{
    match execute::ensure_proof_tool(tools, "nexus_iq_execute") {
        Ok(_) => {},
        Err(e) => {
            return Err(e);
        },
    }
    match iq_allowlist {
        None => Ok(IqAdmission::Admitted),
        Some(list) => if text::list_has(list, params.tool_name.as_str()) {
            Ok(IqAdmission::Admitted)
        } else {
            Ok(IqAdmission::Denied)
        },
    }
}

/// The client that recalls memory for a request: there is one only where memory
/// is asked for, fully configured, and bound by a key.
pub open spec fn is_iq_client(
    r: Option<AeonMemoryClient>,
    params: NexusIqExecuteParams,
    config: Option<AeonConfig>,
) -> bool {
    &&& r is Some <==> params.memory_query is Some && config is Some && config->0.hmac_key is Some
        && memory::usable(config->0@)
    &&& r matches Some(c) ==> c.base_url@ == config::unslashed(config->0.base_url@) && c.agent_id@
        == config->0.agent_id@ && text::opt_text(c.management_key) == text::opt_text(
        config->0.management_key,
    )
}

/// The client that recalls memory for a request.
pub fn iq_memory_client(params: &NexusIqExecuteParams, config: &Option<AeonConfig>) -> (r: Option<
    AeonMemoryClient,
>)
    ensures
        is_iq_client(r, *params, *config),
{
    if params.memory_query.is_none() {
        return None;
    }
    match config {
        None => None,
        Some(c) => if c.hmac_key.is_some() {
            AeonMemoryClient::from_enabled_config(c)
        } else {
            None
        },
    }
}

/// The right to the memory that a request recalls.
pub open spec fn memory_right(params: NexusIqExecuteParams) -> Cap {
    Cap::ReadMemory(
        match params.aeon_session_id {
            Some(s) => security::Scope::Session {
                agent_id: params.aeon_agent_id@,
                session_id: s@,
            },
            None => security::Scope::Agent(params.aeon_agent_id@),
        },
    )
}

/// What a caller must be allowed to have memory recalled.
pub fn iq_memory_scope(params: &NexusIqExecuteParams) -> (r: Option<Capability>)
    ensures
        r is Some <==> params.memory_query is Some,
        r matches Some(c) ==> c@ == memory_right(*params),
{
    match &params.memory_query {
        None => None,
        Some(_) => Some(
            required_read_memory_scope(
                params.aeon_agent_id.as_str(),
                opt_str(&params.aeon_session_id),
            ),
        ),
    }
}

/// The complaint of a caller without the right to a memory.
pub open spec fn scope_refusal(why: Seq<char>) -> error::Why {
    error::Why::Other("memory recall requires matching read_memory capability for scope: "@ + why)
}

/// The complaint of a caller without the right to a memory.
pub fn iq_scope_refusal(why: &str) -> (r: ToolError)
    ensures
        r@ == scope_refusal(why@),
{
    ToolError::Other(
        text::cat2("memory recall requires matching read_memory capability for scope: ", why),
    )
}

/// When an agent's memory was recalled. Moments are held as nanoseconds on a
/// clock that never goes back.
#[derive(Debug, Clone, PartialEq, Eq)]
pub struct RecallBucket {
    pub agent_id: String,
    pub calls: Vec<u128>,
}

/// When memory was recalled.
#[derive(Debug, Clone, PartialEq, Eq)]
pub struct RecallLimiter {
    pub buckets: Vec<RecallBucket>,
}

/// When an agent's memory was recalled.
pub open spec fn calls_of(buckets: Seq<RecallBucket>, agent: Seq<char>) -> Seq<u128>
    decreases buckets.len(),
{
    if buckets.len() == 0 {
        Seq::empty()
    } else if buckets[0].agent_id@ == agent {
        buckets[0].calls@
    } else {
        calls_of(buckets.skip(1), agent)
    }
}

/// Whether a moment still counts at `now`.
pub open spec fn counts(t: u128, now: u128) -> bool {
    t > now || now - t < RECALL_RATE_WINDOW
}

/// The moments that still count.
pub open spec fn recent(calls: Seq<u128>, now: u128) -> Seq<u128>
    decreases calls.len(),
{
    if calls.len() == 0 {
        Seq::empty()
    } else if counts(calls.last(), now) {
        recent(calls.drop_last(), now).push(calls.last())
    } else {
        recent(calls.drop_last(), now)
    }
}

/// An agent's moments after one more request, and whether it is let through.
pub open spec fn recalled(calls: Seq<u128>, now: u128) -> (Seq<u128>, bool) {
    let still = recent(calls, now);
    if still.len() >= RECALL_RATE_MAX {
        (still, false)
    } else {
        (still.push(now), true)
    }
}

fn keep_recent(calls: &Vec<u128>, now: u128) -> (r: Vec<u128>)
    ensures
        r@ == recent(calls@, now),
{
    let mut out: Vec<u128> = Vec::new();
    let mut i: usize = 0;
    while i < calls.len()
        invariant
            i <= calls.len(),
            out@ == recent(calls@.take(i as int), now),
        decreases calls.len() - i,
    {
        assert(calls@.take(i + 1).drop_last() =~= calls@.take(i as int));
        let t: u128 = calls[i];
        if t > now || now - t < RECALL_RATE_WINDOW {
            out.push(t);
        }
        i = i + 1;
    }
    assert(calls@.take(calls.len() as int) =~= calls@);
    out
}

proof fn lemma_calls_at(buckets: Seq<RecallBucket>, agent: Seq<char>, i: int)
    requires
        0 <= i < buckets.len(),
        buckets[i].agent_id@ == agent,
        forall|j: int| 0 <= j < i ==> (#[trigger] buckets[j]).agent_id@ != agent,
    ensures
        calls_of(buckets, agent) == buckets[i].calls@,
    decreases i,
{
    if i > 0 {
        let rest = buckets.skip(1);
        assert(rest[i - 1] == buckets[i]);
        assert forall|j: int| 0 <= j < i - 1 implies (#[trigger] rest[j]).agent_id@ != agent by {
            assert(rest[j] == buckets[j + 1]);
        }
        lemma_calls_at(rest, agent, i - 1);
        assert(buckets[0].agent_id@ != agent);
    }
}

proof fn lemma_no_calls(buckets: Seq<RecallBucket>, agent: Seq<char>)
    requires
        forall|j: int| 0 <= j < buckets.len() ==> (#[trigger] buckets[j]).agent_id@ != agent,
    ensures
        calls_of(buckets, agent) == Seq::<u128>::empty(),
    decreases buckets.len(),
{
    if buckets.len() > 0 {
        let rest = buckets.skip(1);
        assert forall|j: int| 0 <= j < rest.len() implies (#[trigger] rest[j]).agent_id@
            != agent by {
            assert(rest[j] == buckets[j + 1]);
        }
        lemma_no_calls(rest, agent);
        assert(buckets[0].agent_id@ != agent);
    }
}

// To change a bucket leaves those of the other agents alone.
proof fn lemma_bucket_update_is_local(
    buckets: Seq<RecallBucket>,
    i: int,
    b: RecallBucket,
    other: Seq<char>,
)
    requires
        0 <= i < buckets.len(),
        b.agent_id@ == buckets[i].agent_id@,
        other != b.agent_id@,
    ensures
        calls_of(buckets.update(i, b), other) == calls_of(buckets, other),
    decreases buckets.len(),
{
    let changed = buckets.update(i, b);
    if i == 0 {
        assert(changed.skip(1) =~= buckets.skip(1));
    } else {
        assert(changed.skip(1) =~= buckets.skip(1).update(i - 1, b));
        lemma_bucket_update_is_local(buckets.skip(1), i - 1, b, other);
    }
}

// To add a bucket leaves those of the other agents alone.
proof fn lemma_bucket_push_is_local(buckets: Seq<RecallBucket>, b: RecallBucket, other: Seq<char>)
    requires
        other != b.agent_id@,
    ensures
        calls_of(buckets.push(b), other) == calls_of(buckets, other),
    decreases buckets.len(),
{
    reveal_with_fuel(calls_of, 2);
    let longer = buckets.push(b);
    if buckets.len() == 0 {
        assert(longer.skip(1) =~= Seq::<RecallBucket>::empty());
    } else {
        assert(longer.skip(1) =~= buckets.skip(1).push(b));
        lemma_bucket_push_is_local(buckets.skip(1), b, other);
    }
}

/// The complaint of an agent whose memory is recalled too often.
pub open spec fn recall_limit_text() -> Seq<char> {
    "memory recall rate limit exceeded: max 10 calls per 60s per agent"@
}

impl RecallLimiter {
    /// Nothing was recalled yet.
    pub fn new() -> (r: Self)
        ensures
            r.buckets@.len() == 0,
    {
        RecallLimiter { buckets: Vec::new() }
    }

    /// Counts one more request to recall an agent's memory, and refuses it where
    /// there were too many. The other agents are not touched.
    pub fn note_recall(&mut self, agent_id: &str, now: u128) -> (r: Result<(), ToolError>)
        ensures
            is_noted(old(self).buckets@, final(self).buckets@, agent_id@, now, r),
    {
        let ghost before = self.buckets@;
        let mut i: usize = 0;
        let mut found = false;
        while i < self.buckets.len() && !found
            invariant
                i <= self.buckets.len(),
                self.buckets@ == before,
                forall|j: int|
                    0 <= j < i ==> (#[trigger] self.buckets@[j]).agent_id@ != agent_id@,
                found ==> i < self.buckets.len() && self.buckets@[i as int].agent_id@
                    == agent_id@,
            decreases self.buckets.len() - i, if found { 0int } else { 1int },
        {
            if text::same_text(self.buckets[i].agent_id.as_str(), agent_id) {
                found = true;
            } else {
                i = i + 1;
            }
        }
        if !found {
            let mut calls: Vec<u128> = Vec::new();
            calls.push(now);
            let b = RecallBucket { agent_id: agent_id.to_string(), calls };
            proof {
                lemma_no_calls(before, agent_id@);
                assert(recent(Seq::<u128>::empty(), now) =~= Seq::<u128>::empty());
                assert(b.calls@ =~= Seq::<u128>::empty().push(now));
                assert forall|t: Seq<char>| t != agent_id@ implies #[trigger] calls_of(
                    before.push(b),
                    t,
                ) == calls_of(before, t) by {
                    lemma_bucket_push_is_local(before, b, t);
                }
                let longer = before.push(b);
                assert forall|j: int| 0 <= j < before.len() implies (
                #[trigger] longer[j]).agent_id@ != agent_id@ by {
                    assert(longer[j] == before[j]);
                }
                lemma_calls_at(longer, agent_id@, before.len() as int);
            }
            self.buckets.push(b);
            return Ok(());
        }
        proof {
            lemma_calls_at(before, agent_id@, i as int);
        }
        let mut calls = keep_recent(&self.buckets[i].calls, now);
        let full = calls.len() >= RECALL_RATE_MAX;
        if !full {
            calls.push(now);
        }
        let b = RecallBucket { agent_id: self.buckets[i].agent_id.clone(), calls };
        proof {
            assert forall|t: Seq<char>| t != agent_id@ implies #[trigger] calls_of(
                before.update(i as int, b),
                t,
            ) == calls_of(before, t) by {
                lemma_bucket_update_is_local(before, i as int, b, t);
            }
            let changed = before.update(i as int, b);
            assert forall|j: int| 0 <= j < i implies (#[trigger] changed[j]).agent_id@
                != agent_id@ by {
                assert(changed[j] == before[j]);
            }
            lemma_calls_at(changed, agent_id@, i as int);
        }
        self.buckets.set(i, b);
        if full {
            Err(
                ToolError::Other(
                    "memory recall rate limit exceeded: max 10 calls per 60s per agent".to_string(),
                ),
            )
        } else {
            Ok(())
        }
    }
}

/// How many memories are asked for.
pub open spec fn memory_limit(params: NexusIqExecuteParams) -> usize {
    match params.memory_limit {
        Some(n) => n,
        None => 5,
    }
}

/// How many memories are asked for.
pub fn iq_memory_limit(params: &NexusIqExecuteParams) -> (r: usize)
    ensures
        r == memory_limit(*params),
{
    match params.memory_limit {
        Some(n) => n,
        None => 5,
    }
}

/// What was recalled for a request: nothing where nothing was asked for.
pub open spec fn is_recall(
    r: MemoryRecallEvidence,
    query: Option<Seq<char>>,
    client: Option<AeonMemoryClient>,
    reply: Option<(u16, Option<Vec<SearchHit>>)>,
) -> bool {
    let found = if query is Some && client is Some {
        memory::search_result(
            text::opt_text(client->0.management_key),
            memory::endpoint_url(client->0.base_url@ + "/"@, memory::search_path()),
            reply,
        )
    } else {
        (Seq::empty(), MemoryAttestationMode::Absent)
    };
    &&& memory::hits_view(r.hits@) == found.0
    &&& memory::is_evidence_of(
        r.evidence,
        match query {
            Some(q) => q,
            None => ""@,
        },
        found.0,
        found.1,
    )
}

/// What was recalled for a request.
pub fn iq_recall(
    params: &NexusIqExecuteParams,
    client: &Option<AeonMemoryClient>,
    reply: &Option<(u16, Option<Vec<SearchHit>>)>,
) -> (r: MemoryRecallEvidence)
    ensures
        is_recall(r, text::opt_text(params.memory_query), *client, *reply),
{
    match &params.memory_query {
        Some(q) => {
            let c: Option<&AeonMemoryClient> = match client {
                Some(c) => Some(c),
                None => None,
            };
            let r = recall_memory_evidence_v1(c, q.as_str(), reply);
            proof {
                if client is None {
                    assert(memory::hits_view(r.hits@) =~= Seq::<memory::Hit>::empty());
                }
            }
            r
        },
        None => {
            let hits: Vec<MemoryHit> = Vec::new();
            let evidence = MemoryEvidenceV1::new("", &hits, MemoryAttestationMode::Absent);
            assert(memory::hits_view(hits@) =~= Seq::<memory::Hit>::empty());
            MemoryRecallEvidence { hits, evidence }
        },
    }
}

/// Whether evidence is attested.
pub open spec fn attested(m: MemoryAttestationMode) -> bool {
    m == MemoryAttestationMode::Attested || m == MemoryAttestationMode::AttestedNoHit || m
        == MemoryAttestationMode::AttestedWithRecall
}

/// The digest that binds attested evidence: under the key where there is one.
pub open spec fn memory_digest_of(e: MemoryEvidenceV1, key: Option<Seq<u8>>) -> Option<Seq<char>> {
    if !attested(e.attestation) {
        None
    } else {
        match key {
            Some(k) => Some(
                text::hex_of(
                    digest::hmac_sha256_of(
                        k,
                        vstd::utf8::encode_utf8(memory::evidence_json(e)),
                    ),
                ),
            ),
            None => Some(memory::text_digest(memory::evidence_json(e))),
        }
    }
}

/// The key of a configuration, if there is either.
pub open spec fn key_of(c: Option<AeonConfig>) -> Option<Seq<u8>> {
    match c {
        Some(x) => config::key_view(x.hmac_key),
        None => None,
    }
}

/// The digest that binds attested evidence. Evidence that is not attested is
/// not bound.
pub fn iq_memory_digest(evidence: &MemoryEvidenceV1, config: &Option<AeonConfig>) -> (r: Option<
    String,
>)
    ensures
        text::opt_text(r) == memory_digest_of(*evidence, key_of(*config)),
{
    let bound = match evidence.attestation {
        MemoryAttestationMode::Attested => true,
        MemoryAttestationMode::AttestedNoHit => true,
        MemoryAttestationMode::AttestedWithRecall => true,
        _ => false,
    };
    if !bound {
        return None;
    }
    match config {
        Some(c) => match &c.hmac_key {
            Some(k) => {
                let json = evidence.to_json();
                let d = digest::hmac_sha256(k.as_slice(), json.as_str().as_bytes());
                Some(text::hex_lower(d.as_slice()))
            },
            None => evidence.evidence_digest(),
        },
        None => evidence.evidence_digest(),
    }
}

/// A job: a tool, its input, and the digest of the evidence that goes into its
/// capsule.
#[derive(Debug, Clone, PartialEq, Eq)]
pub struct IqJob {
    pub tool: ToolDefinition,
    pub input: String,
    pub memory_digest: Option<String>,
}

/// The descriptions of the capabilities that a request needs.
pub open spec fn needed(params: NexusIqExecuteParams) -> Seq<String> {
    match params.required_capabilities {
        Some(v) => v@,
        None => Seq::empty(),
    }
}

/// The capabilities that some descriptions stand for: the first that is wrong
/// decides.
pub open spec fn all_described(
    specs: Seq<String>,
    objects: Seq<Option<CapabilitySpec>>,
    url_faults: Seq<Option<String>>,
) -> Result<Seq<Cap>, Seq<char>>
    decreases specs.len(),
{
    if specs.len() == 0 {
        Ok(Seq::empty())
    } else {
        match all_described(specs.drop_last(), objects.drop_last(), url_faults.drop_last()) {
            Err(e) => Err(e),
            Ok(before) => match capability::described(
                specs.last()@,
                objects.last(),
                text::opt_text(url_faults.last()),
            ) {
                Err(e) => Err(e),
                Ok(c) => Ok(before.push(c)),
            },
        }
    }
}

proof fn lemma_described_error_stays(
    specs: Seq<String>,
    objects: Seq<Option<CapabilitySpec>>,
    url_faults: Seq<Option<String>>,
    k: int,
)
    requires
        objects.len() == specs.len(),
        url_faults.len() == specs.len(),
        0 <= k <= specs.len(),
        all_described(specs.take(k), objects.take(k), url_faults.take(k)) is Err,
    ensures
        all_described(specs, objects, url_faults) == all_described(
            specs.take(k),
            objects.take(k),
            url_faults.take(k),
        ),
    decreases specs.len() - k,
{
    if k < specs.len() {
        assert(specs.take(k + 1).drop_last() =~= specs.take(k));
        assert(objects.take(k + 1).drop_last() =~= objects.take(k));
        assert(url_faults.take(k + 1).drop_last() =~= url_faults.take(k));
        lemma_described_error_stays(specs, objects, url_faults, k + 1);
    } else {
        assert(specs.take(k) =~= specs);
        assert(objects.take(k) =~= objects);
        assert(url_faults.take(k) =~= url_faults);
    }
}

fn read_described(
    specs: &Vec<String>,
    objects: &Vec<Option<CapabilitySpec>>,
    url_faults: &Vec<Option<String>>,
) -> (r: Result<Vec<Capability>, String>)
    requires
        objects@.len() == specs@.len(),
        url_faults@.len() == specs@.len(),
    ensures
        capability::caps_outcome(r) == all_described(specs@, objects@, url_faults@),
{
    let mut out: Vec<Capability> = Vec::new();
    let mut i: usize = 0;
    assert(security::caps(out@) =~= Seq::<Cap>::empty());
    while i < specs.len()
        invariant
            i <= specs.len(),
            objects@.len() == specs@.len(),
            url_faults@.len() == specs@.len(),
            all_described(
                specs@.take(i as int),
                objects@.take(i as int),
                url_faults@.take(i as int),
            ) == Ok::<Seq<Cap>, Seq<char>>(security::caps(out@)),
        decreases specs.len() - i,
    {
        let ghost had = security::caps(out@);
        proof {
            assert(specs@.take(i + 1).drop_last() =~= specs@.take(i as int));
            assert(objects@.take(i + 1).drop_last() =~= objects@.take(i as int));
            assert(url_faults@.take(i + 1).drop_last() =~= url_faults@.take(i as int));
        }
        match parse_iq_capability(specs[i].as_str(), &objects[i], &url_faults[i]) {
            Err(e) => {
                proof {
                    lemma_described_error_stays(specs@, objects@, url_faults@, i + 1);
                }
                return Err(e);
            },
            Ok(c) => {
                let ghost cv = c@;
                out.push(c);
                assert(security::caps(out@) =~= had.push(cv));
            },
        }
        i = i + 1;
    }
    proof {
        assert(specs@.take(i as int) =~= specs@);
        assert(objects@.take(i as int) =~= objects@);
        assert(url_faults@.take(i as int) =~= url_faults@);
    }
    Ok(out)
}

/// The job of a request, or what is wrong with the request. `module` is what a
/// reading of the module came to, `input_fault` what is wrong with the input,
/// and `caps` what a reading of the needed capabilities came to.
pub open spec fn is_job_of(
    r: Result<IqJob, ToolError>,
    params: NexusIqExecuteParams,
    module: Result<Seq<u8>, Seq<char>>,
    input_fault: Option<Seq<char>>,
    caps: Result<Seq<Cap>, Seq<char>>,
    memory_digest: Option<Seq<char>>,
) -> bool {
    match module {
        Err(e) => r is Err && r->Err_0@ == error::Why::Other(
            "tool_wasm is not valid base64: "@ + e,
        ),
        Ok(bytes) => match input_fault {
            Some(e) => r is Err && r->Err_0@ == error::Why::Other("input is not valid JSON: "@ + e),
            None => match caps {
                Err(e) => r is Err && r->Err_0@ == error::Why::Other(e),
                Ok(c) => {
                    &&& r is Ok
                    &&& execute::is_tool(
                        r->Ok_0.tool,
                        params.tool_name@,
                        bytes,
                        "_start"@,
                        c,
                        Some(params.aeon_agent_id@),
                        text::opt_text(params.aeon_session_id),
                        memory_digest,
                    )
                    &&& r->Ok_0.input@ == params.input@
                    &&& text::opt_text(r->Ok_0.memory_digest) == memory_digest
                },
            },
        },
    }
}

/// The job of a request, when `module` is what a reading of its module came to,
/// and `input_fault` what is wrong with its input. For each needed capability
/// `objects` holds the JSON object that it is written as, if it is, and
/// `url_faults` what is wrong with it as a pattern of addresses.
pub fn plan_iq_job(
    params: &NexusIqExecuteParams,
    module: Result<Vec<u8>, String>,
    input_fault: &Option<String>,
    objects: &Vec<Option<CapabilitySpec>>,
    url_faults: &Vec<Option<String>>,
    memory_digest: Option<String>,
) -> (r: Result<IqJob, ToolError>)
    requires
        objects@.len() == needed(*params).len(),
        url_faults@.len() == needed(*params).len(),
    ensures
        is_job_of(
            r,
            *params,
            daemon::bytes_reading(module),
            text::opt_text(*input_fault),
            all_described(needed(*params), objects@, url_faults@),
            text::opt_text(memory_digest),
        ),
{
    let bytes = match module {
        Err(e) => {
            return Err(
                ToolError::Other(text::cat2("tool_wasm is not valid base64: ", e.as_str())),
            );
        },
        Ok(b) => b,
    };
    if let Some(e) = input_fault {
        return Err(ToolError::Other(text::cat2("input is not valid JSON: ", e.as_str())));
    }
    let caps = match &params.required_capabilities {
        None => {
            let none: Vec<Capability> = Vec::new();
            assert(security::caps(none@) =~= Seq::<Cap>::empty());
            none
        },
        Some(specs) => match read_described(specs, objects, url_faults) {
            Err(e) => {
                return Err(ToolError::Other(e));
            },
            Ok(c) => c,
        },
    };
    let tool = ToolDefinition::new(params.tool_name.clone(), bytes).with_capabilities(
        caps,
    ).with_aeon_context(
        Some(params.aeon_agent_id.clone()),
        text::clone_opt(&params.aeon_session_id),
    ).with_aeon_memory_evidence_digest(text::clone_opt(&memory_digest));
    Ok(IqJob { tool, input: params.input.clone(), memory_digest })
}

/// The job of a request. For each needed capability `objects` holds the JSON
/// object that it is written as, if it is, and `url_faults` what is wrong with
/// it as a pattern of addresses.
pub fn iq_job(
    params: &NexusIqExecuteParams,
    objects: &Vec<Option<CapabilitySpec>>,
    url_faults: &Vec<Option<String>>,
    memory_digest: Option<String>,
) -> (r: Result<IqJob, ToolError>)
    requires
        objects@.len() == needed(*params).len(),
        url_faults@.len() == needed(*params).len(),
    ensures
        is_job_of(
            r,
            *params,
            daemon::base64_reading(text::trimmed(params.tool_wasm@)),
            json::json_fault(params.input@),
            all_described(needed(*params), objects@, url_faults@),
            text::opt_text(memory_digest),
        ),
{
    let trimmed = text::trim(params.tool_wasm.as_str());
    let module = base64_decode(trimmed.as_str());
    let input_fault = json::json_fault_text(params.input.as_str());
    plan_iq_job(params, module, &input_fault, objects, url_faults, memory_digest)
}

/// How a job is run.
#[derive(Debug, Clone, Copy, PartialEq, Eq, Structural)]
pub enum IqAuthorization {
    /// It needs nothing, and is run as it is.
    Direct,
    /// It is run with the tokens that were issued.
    WithTokens,
    /// It is not run.
    Denied,
}

/// How a job is run, when `refused` says whether tokens were refused, `issued`
/// holds them as they were issued, and `used` as they are when they are used.
pub open spec fn authorization(
    needs: bool,
    refused: bool,
    issued: Seq<TokenState>,
    used: Seq<TokenState>,
    profiled: bool,
) -> Result<IqAuthorization, error::Why> {
    if !needs {
        Ok(IqAuthorization::Direct)
    } else if refused || tokens::token_refusal(issued, profiled) is Some {
        Ok(IqAuthorization::Denied)
    } else {
        match tokens::token_refusal(used, profiled) {
            Some(w) => Err(w),
            None => Ok(IqAuthorization::WithTokens),
        }
    }
}

/// The outcome of authorising a job.
pub open spec fn authorization_outcome(r: Result<IqAuthorization, ToolError>) -> Result<
    IqAuthorization,
    error::Why,
> {
    match r {
        Ok(a) => Ok(a),
        Err(e) => Err(e@),
    }
}

/// How a job is run: where it needs capabilities, only with tokens that are good
/// when they are issued and still good when they are used.
pub fn iq_authorize(
    job: &IqJob,
    refused: bool,
    issued: &Vec<TokenState>,
    used: &Vec<TokenState>,
    profiled: bool,
) -> (r: Result<IqAuthorization, ToolError>)
    ensures
        authorization_outcome(r) == authorization(
            job.tool.required_capabilities@.len() > 0,
            refused,
            issued@,
            used@,
            profiled,
        ),
{
    if job.tool.required_capabilities.len() == 0 {
        return Ok(IqAuthorization::Direct);
    }
    if refused {
        return Ok(IqAuthorization::Denied);
    }
    match check_tokens_against_active_profile(issued, profiled) {
        Err(_) => {
            return Ok(IqAuthorization::Denied);
        },
        Ok(_) => {},
    }
    match check_tokens_against_active_profile(used, profiled) {
        Err(e) => Err(e),
        Ok(_) => Ok(IqAuthorization::WithTokens),
    }
}

/// Whether an error is a denial.
pub fn is_capability_denial(error: &NexusError) -> (r: bool)
    ensures
        r == error@ is CapabilityDenied,
{
    match error {
        NexusError::CapabilityDenied(_) => true,
        _ => false,
    }
}

/// The evidence as an answer shows it: without what was asked.
#[derive(Debug, Clone, PartialEq, Eq)]
pub struct MemoryEvidenceForMcp {
    pub version: u8,
    pub hit_count: usize,
    pub hit_digests: Vec<String>,
    pub attestation: MemoryAttestationMode,
    pub capsule_digest: Option<String>,
}

impl MemoryEvidenceForMcp {
    /// The evidence as an answer shows it.
    pub fn from_evidence(e: MemoryEvidenceV1) -> (r: Self)
        ensures
            shows_evidence(r, e),
    {
        MemoryEvidenceForMcp {
            version: e.version,
            hit_count: e.hit_count,
            hit_digests: e.hit_digests,
            attestation: e.attestation,
            capsule_digest: e.capsule_digest,
        }
    }
}

/// The evidence as an answer shows it.
pub open spec fn shows_evidence(m: MemoryEvidenceForMcp, e: MemoryEvidenceV1) -> bool {
    m == (MemoryEvidenceForMcp {
        version: e.version,
        hit_count: e.hit_count,
        hit_digests: e.hit_digests,
        attestation: e.attestation,
        capsule_digest: e.capsule_digest,
    })
}

/// What an answer says of a denial.
#[derive(Debug, Clone, PartialEq, Eq)]
pub struct DenialNegotiationResponse {
    pub denied: bool,
    pub negotiated: bool,
    pub rounds: Option<u32>,
    pub reason: Option<String>,
}

/// An answer.
#[derive(Debug, Clone, PartialEq, Eq)]
pub struct NexusIqExecuteResponse {
    pub output: Option<ToolOutputResponse>,
    pub proof_capsule_ref: Option<String>,
    pub memory_evidence_ref: MemoryEvidenceForMcp,
    pub memory_hits_count: usize,
    pub timeline_status: TimelineDeliveryStatus,
    pub denial_negotiation: Option<DenialNegotiationResponse>,
    pub attestation_mode: String,
    pub denied: bool,
    pub events: Vec<NexusExecutionEvent>,
}

/// The answer to a denied request: nothing was run, and why it was denied.
pub open spec fn is_denial(
    r: NexusIqExecuteResponse,
    evidence: MemoryEvidenceV1,
    hits: usize,
    mode: TimelineDeliveryMode,
    status: TimelineDeliveryStatus,
    reason: DenialReason,
) -> bool {
    &&& r.output is None
    &&& r.proof_capsule_ref is None
    &&& shows_evidence(r.memory_evidence_ref, evidence)
    &&& r.memory_hits_count == hits
    &&& r.timeline_status == status
    &&& r.denial_negotiation is Some
    &&& r.denial_negotiation->0.denied
    &&& !r.denial_negotiation->0.negotiated
    &&& r.denial_negotiation->0.rounds is None
    &&& r.denial_negotiation->0.reason is Some
    &&& r.denial_negotiation->0.reason->0@ == error::safe_text(reason)
    &&& r.attestation_mode@ == mode_label(mode)
    &&& r.denied
    &&& execute::event_views(r.events@) == seq![execute::Told::Denied("capability_denied"@)]
}

/// What there is to tell of a denied request.
pub fn denial_events() -> (r: Vec<NexusExecutionEvent>)
    ensures
        execute::event_views(r@) == seq![execute::Told::Denied("capability_denied"@)],
{
    let mut events: Vec<NexusExecutionEvent> = Vec::new();
    events.push(
        NexusExecutionEvent::CapabilityDenied { denied_category: "capability_denied".to_string() },
    );
    assert(execute::event_views(events@) =~= seq![execute::Told::Denied("capability_denied"@)]);
    events
}

/// The answer to a denied request, when `status` is how telling it went.
pub fn nexus_iq_denial_response(
    evidence: MemoryEvidenceV1,
    hits: usize,
    mode: TimelineDeliveryMode,
    status: TimelineDeliveryStatus,
    reason: DenialReason,
) -> (r: NexusIqExecuteResponse)
    ensures
        is_denial(r, evidence, hits, mode, status, reason),
{
    NexusIqExecuteResponse {
        output: None,
        proof_capsule_ref: None,
        memory_evidence_ref: MemoryEvidenceForMcp::from_evidence(evidence),
        memory_hits_count: hits,
        timeline_status: status,
        denial_negotiation: Some(
            DenialNegotiationResponse {
                denied: true,
                negotiated: false,
                rounds: None,
                reason: Some(reason.safe_message().to_string()),
            },
        ),
        attestation_mode: timeline_mode_label(mode).to_string(),
        denied: true,
        events: denial_events(),
    }
}

/// What an execution came to.
#[derive(Debug, Clone, PartialEq, Eq)]
pub enum IqConclusion {
    /// It ran: these events are told, and then it is answered.
    Ran { output: ToolOutput, capsule: ProofCapsule, events: Vec<NexusExecutionEvent> },
    /// It was denied.
    Denied,
}

/// What an execution came to: its capsule must hold the digest of the evidence
/// that went in.
pub open spec fn concluded(
    r: Result<IqConclusion, ToolError>,
    outcome: Result<(ToolOutput, ProofCapsule), NexusError>,
    expected: Option<Seq<char>>,
) -> bool {
    match outcome {
        Err(e) => if e@ is CapabilityDenied {
            r == Ok::<IqConclusion, ToolError>(IqConclusion::Denied)
        } else {
            r == Err::<IqConclusion, ToolError>(ToolError::Nexus(e))
        },
        Ok(p) => if expected is Some && execute::memory_digest_fault(
            execute::memory_digest_in(p.1.memory_evidence),
            expected->0,
        ) is Some {
            r is Err && r->Err_0@ == error::Why::Other(
                execute::memory_digest_fault(
                    execute::memory_digest_in(p.1.memory_evidence),
                    expected->0,
                )->0,
            )
        } else {
            match r {
                Ok(IqConclusion::Ran { output, capsule, events }) => output == p.0 && capsule == p.1
                    && execute::event_views(events@) == execute::told_of(
                    text::opt_text(p.0.snapshot_id),
                    p.1.capsule_id@,
                    p.1.capabilities.negotiation_rounds,
                ),
                _ => false,
            }
        },
    }
}

/// Concludes an execution.
pub fn iq_conclude(
    outcome: Result<(ToolOutput, ProofCapsule), NexusError>,
    memory_digest: &Option<String>,
) -> (r: Result<IqConclusion, ToolError>)
    ensures
        concluded(r, outcome, text::opt_text(*memory_digest)),
{
    match outcome {
        Err(e) => if is_capability_denial(&e) {
            Ok(IqConclusion::Denied)
        } else {
            Err(ToolError::Nexus(e))
        },
        Ok(p) => {
            if let Some(expected) = memory_digest {
                match verify_proof_capsule_memory_digest(&p.1.memory_evidence, expected.as_str()) {
                    Ok(_) => {},
                    Err(e) => {
                        return Err(ToolError::Other(e));
                    },
                }
            }
            let events = proof_events(
                &p.0.snapshot_id,
                p.1.capsule_id.as_str(),
                p.1.capabilities.negotiation_rounds,
            );
            Ok(IqConclusion::Ran { output: p.0, capsule: p.1, events })
        },
    }
}

/// The answer to a request that was run.
pub open spec fn is_answer(
    r: NexusIqExecuteResponse,
    output: ToolOutput,
    capsule: ProofCapsule,
    events: Vec<NexusExecutionEvent>,
    evidence: MemoryEvidenceV1,
    hits: usize,
    mode: TimelineDeliveryMode,
    status: TimelineDeliveryStatus,
) -> bool {
    &&& r.output is Some
    &&& execute::answers(r.output->0, output)
    &&& r.proof_capsule_ref is Some
    &&& r.proof_capsule_ref->0@ == capsule.capsule_id@
    &&& r.memory_evidence_ref.version == evidence.version
    &&& r.memory_evidence_ref.hit_count == evidence.hit_count
    &&& r.memory_evidence_ref.hit_digests == evidence.hit_digests
    &&& r.memory_evidence_ref.attestation == evidence.attestation
    &&& text::opt_text(r.memory_evidence_ref.capsule_digest) == Some(capsule.capsule_id@)
    &&& r.memory_hits_count == hits
    &&& r.timeline_status == status
    &&& (match capsule.capabilities.negotiation_rounds {
        Some(n) => {
            &&& r.denial_negotiation is Some
            &&& r.denial_negotiation->0 == (DenialNegotiationResponse {
                denied: false,
                negotiated: true,
                rounds: Some(n),
                reason: None,
            })
        },
        None => r.denial_negotiation is None,
    })
    &&& r.attestation_mode@ == mode_label(mode)
    &&& !r.denied
    &&& r.events == events
}

/// The answer to a request that was run, when `status` is how telling it went.
pub fn iq_response(
    output: ToolOutput,
    capsule: &ProofCapsule,
    events: Vec<NexusExecutionEvent>,
    evidence: MemoryEvidenceV1,
    hits: usize,
    mode: TimelineDeliveryMode,
    status: TimelineDeliveryStatus,
) -> (r: NexusIqExecuteResponse)
    ensures
        is_answer(r, output, *capsule, events, evidence, hits, mode, status),
{
    let bound = evidence.with_capsule_digest(Some(capsule.capsule_id.clone()));
    let denial_negotiation: Option<DenialNegotiationResponse> =
        match capsule.capabilities.negotiation_rounds {
        Some(n) => Some(
            DenialNegotiationResponse {
                denied: false,
                negotiated: true,
                rounds: Some(n),
                reason: None,
            },
        ),
        None => None,
    };
    NexusIqExecuteResponse {
        output: Some(ToolOutputResponse::from_output(output)),
        proof_capsule_ref: Some(capsule.capsule_id.clone()),
        memory_evidence_ref: MemoryEvidenceForMcp::from_evidence(bound),
        memory_hits_count: hits,
        timeline_status: status,
        denial_negotiation,
        attestation_mode: timeline_mode_label(mode).to_string(),
        denied: false,
        events,
    }
}

/// How events are told.
#[derive(Clone, PartialEq, Eq)]
pub struct Telling {
    /// Where they go, if anywhere.
    pub sink: Option<AeonTimelineSink>,
    /// Whether the answer waits for it.
    pub awaited: bool,
}

/// How events are told: nowhere without a usable configuration, and awaited
/// only where the mode asks for it.
pub fn plan_telling(
    config: &Option<AeonConfig>,
    mode: TimelineDeliveryMode,
    spool_path: String,
) -> (r: Telling)
    ensures
        r.sink is Some <==> config is Some && memory::usable(config->0@),
        r.sink matches Some(s) ==> s.mode == mode && s.spool_path == spool_path && s.base_url@
            == config::unslashed(config->0.base_url@) && text::opt_text(s.management_key)
            == text::opt_text(config->0.management_key),
        r.awaited == (r.sink is Some && mode == TimelineDeliveryMode::Attested),
{
    match config {
        None => Telling { sink: None, awaited: false },
        Some(c) => match AeonTimelineSink::from_enabled_config(c, spool_path) {
            None => Telling { sink: None, awaited: false },
            Some(s) => Telling {
                sink: Some(s.with_mode(mode)),
                awaited: mode == TimelineDeliveryMode::Attested,
            },
        },
    }
}

/// How telling events went, when `delivered` is the status of the delivery that
/// was awaited.
pub open spec fn telling_status(
    sink: bool,
    mode: TimelineDeliveryMode,
    delivered: TimelineDeliveryStatus,
) -> TimelineDeliveryStatus {
    if !sink {
        if mode == TimelineDeliveryMode::Attested {
            TimelineDeliveryStatus::RequiredButFailed
        } else {
            TimelineDeliveryStatus::FailedOpen
        }
    } else if mode == TimelineDeliveryMode::Attested {
        delivered
    } else {
        TimelineDeliveryStatus::FireAndForget
    }
}

/// How telling events went.
pub fn deliver_nexus_iq_timeline(
    has_sink: bool,
    mode: TimelineDeliveryMode,
    delivered: TimelineDeliveryStatus,
) -> (r: TimelineDeliveryStatus)
    ensures
        r == telling_status(has_sink, mode, delivered),
{
    if !has_sink {
        return if mode == TimelineDeliveryMode::Attested {
            TimelineDeliveryStatus::RequiredButFailed
        } else {
            TimelineDeliveryStatus::FailedOpen
        };
    }
    if mode == TimelineDeliveryMode::Attested {
        delivered
    } else {
        TimelineDeliveryStatus::FireAndForget
    }
}

/// A job whose execution is told: a tool, its input, and the capabilities that
/// the caller claims.
#[derive(Debug, Clone, PartialEq, Eq)]
pub struct TimelineJob {
    pub tool: ToolDefinition,
    pub input: String,
    pub caller_capabilities: Vec<Capability>,
}

/// The capabilities that a caller claims: those it names, and otherwise those
/// that the tool needs.
pub open spec fn claimed(params: AeonTimelineExecuteParams) -> Seq<CapabilitySpec> {
    match params.caller_capabilities {
        Some(v) => v@,
        None => execute::specs_or(params.capabilities),
    }
}

/// Whether `r` is what the reading of a request whose execution is told came to.
pub open spec fn is_timeline_job(
    r: Result<TimelineJob, ToolError>,
    tools: ToolGate,
    params: AeonTimelineExecuteParams,
    found: execute::ModuleFound,
) -> bool {
    let refusal = execute::run_refusal(
        execute::proof_refused(tools, "nexus_aeon_execute_timeline"@),
        found,
    );
    let caps = capability::capabilities_from_specs(execute::specs_or(params.capabilities));
    let claims = capability::capabilities_from_specs(claimed(params));
    match r {
        Ok(j) => {
            &&& refusal is None
            &&& caps is Ok
            &&& claims is Ok
            &&& found is Bytes
            &&& execute::is_tool(
                j.tool,
                "mcp_aeon_timeline"@,
                found->Bytes_0@,
                execute::entry_or(text::opt_text(params.entry)),
                caps->Ok_0,
                text::opt_text(params.aeon_agent_id),
                text::opt_text(params.aeon_session_id),
                None,
            )
            &&& j.input@ == execute::input_or(text::opt_text(params.input))
            &&& security::caps(j.caller_capabilities@) == claims->Ok_0
        },
        Err(e) => match refusal {
            Some(w) => e@ == w,
            None => match caps {
                Err(m) => e@ == error::Why::Other(m),
                Ok(_) => claims is Err && e@ == error::Why::Other(claims->Err_0),
            },
        },
    }
}

/// The job of a request whose execution is told. The caller's tokens are checked
/// before it is run.
pub fn do_aeon_execute_timeline(
    tools: &ToolGate,
    params: &AeonTimelineExecuteParams,
    found: execute::ModuleFound,
) -> (r: Result<TimelineJob, ToolError>)
    ensures
        is_timeline_job(r, *tools, *params, found),
{
    match execute::ensure_proof_tool(tools, "nexus_aeon_execute_timeline") {
        Ok(_) => {},
        Err(e) => {
            return Err(e);
        },
    }
    let bytes = match execute::module_bytes(found) {
        Err(e) => {
            return Err(e);
        },
        Ok(b) => b,
    };
    let caps = match execute::read_specs(&params.capabilities) {
        Err(e) => {
            return Err(e);
        },
        Ok(c) => c,
    };
    let claims = match &params.caller_capabilities {
        Some(_) => match execute::read_specs(&params.caller_capabilities) {
            Err(e) => {
                return Err(e);
            },
            Ok(c) => c,
        },
        None => match execute::read_specs(&params.capabilities) {
            Err(e) => {
                return Err(e);
            },
            Ok(c) => c,
        },
    };
    let base = ToolDefinition::new("mcp_aeon_timeline".to_string(), bytes).with_capabilities(
        caps,
    ).with_aeon_context(
        text::clone_opt(&params.aeon_agent_id),
        text::clone_opt(&params.aeon_session_id),
    );
    let tool = match &params.entry {
        Some(e) => base.with_entry(e.as_str()),
        None => base,
    };
    let input: String = match &params.input {
        Some(t) => t.clone(),
        None => "{}".to_string(),
    };
    Ok(TimelineJob { tool, input, caller_capabilities: claims })
}

/// The answer to a request whose execution is told.
#[derive(Debug, Clone, PartialEq, Eq)]
pub struct AeonTimelineExecuteResponse {
    pub output: ToolOutputResponse,
    pub proof_capsule: ProofCapsule,
    pub events: Vec<NexusExecutionEvent>,
    pub timeline_delivery_status: Option<TimelineDeliveryStatus>,
    pub aeon_agent_id: Option<String>,
    pub aeon_session_id: Option<String>,
    pub aeon_timeline_path: Option<String>,
}

/// Whether `r` answers a request whose execution is told.
pub open spec fn is_timeline_response(
    r: AeonTimelineExecuteResponse,
    output: ToolOutput,
    capsule: ProofCapsule,
    params: AeonTimelineExecuteParams,
    has_sink: bool,
) -> bool {
    &&& execute::answers(r.output, output)
    &&& r.proof_capsule == capsule
    &&& execute::event_views(r.events@) == execute::told_of(
        text::opt_text(output.snapshot_id),
        capsule.capsule_id@,
        capsule.capabilities.negotiation_rounds,
    )
    &&& r.timeline_delivery_status == (if params.aeon_agent_id is None {
        None
    } else if has_sink {
        Some(TimelineDeliveryStatus::FireAndForget)
    } else {
        Some(TimelineDeliveryStatus::FailedOpen)
    })
    &&& text::opt_text(r.aeon_agent_id) == text::opt_text(params.aeon_agent_id)
    &&& text::opt_text(r.aeon_session_id) == text::opt_text(params.aeon_session_id)
    &&& text::opt_text(r.aeon_timeline_path) == (match params.aeon_agent_id {
        Some(a) => Some("/agents/"@ + a@ + "/timeline"@),
        None => None,
    })
}

/// The answer to a request whose execution is told. `has_sink` says whether
/// there is somewhere to tell it.
pub fn timeline_response(
    output: ToolOutput,
    capsule: ProofCapsule,
    params: &AeonTimelineExecuteParams,
    has_sink: bool,
) -> (r: AeonTimelineExecuteResponse)
    ensures
        is_timeline_response(r, output, capsule, *params, has_sink),
{
    let events = proof_events(
        &output.snapshot_id,
        capsule.capsule_id.as_str(),
        capsule.capabilities.negotiation_rounds,
    );
    let status: Option<TimelineDeliveryStatus> = match &params.aeon_agent_id {
        None => None,
        Some(_) => if has_sink {
            Some(TimelineDeliveryStatus::FireAndForget)
        } else {
            Some(TimelineDeliveryStatus::FailedOpen)
        },
    };
    let path: Option<String> = match &params.aeon_agent_id {
        Some(a) => Some(text::cat3("/agents/", a.as_str(), "/timeline")),
        None => None,
    };
    AeonTimelineExecuteResponse {
        output: ToolOutputResponse::from_output(output),
        proof_capsule: capsule,
        events,
        timeline_delivery_status: status,
        aeon_agent_id: text::clone_opt(&params.aeon_agent_id),
        aeon_session_id: text::clone_opt(&params.aeon_session_id),
        aeon_timeline_path: path,
    }
}

/// What a run of requests for one agent leaves behind: the moments that are
/// kept, and the moments at which a request was let through.
pub open spec fn recall_run(times: Seq<u128>) -> (Seq<u128>, Seq<u128>)
    decreases times.len(),
{
    if times.len() == 0 {
        (Seq::empty(), Seq::empty())
    } else {
        let before = recall_run(times.drop_last());
        let step = recalled(before.0, times.last());
        (
            step.0,
            if step.1 {
                before.1.push(times.last())
            } else {
                before.1
            },
        )
    }
}

/// How many of some moments lie in the window that starts at `from`.
pub open spec fn in_window(moments: Seq<u128>, from: int) -> nat
    decreases moments.len(),
{
    if moments.len() == 0 {
        0
    } else {
        in_window(moments.drop_last(), from) + (if from <= moments.last() < from
            + RECALL_RATE_WINDOW {
            1nat
        } else {
            0nat
        })
    }
}

/// The moments of a run, in order.
pub open spec fn in_order(times: Seq<u128>) -> bool {
    forall|i: int, j: int| 0 <= i <= j < times.len() ==> times[i] <= times[j]
}

proof fn lemma_recent_twice(calls: Seq<u128>, then: u128, now: u128)
    requires
        then <= now,
        forall|i: int| 0 <= i < calls.len() ==> #[trigger] calls[i] <= then,
    ensures
        recent(recent(calls, then), now) == recent(calls, now),
    decreases calls.len(),
{
    if calls.len() > 0 {
        let rest = calls.drop_last();
        assert forall|i: int| 0 <= i < rest.len() implies #[trigger] rest[i] <= then by {
            assert(rest[i] == calls[i]);
        }
        lemma_recent_twice(rest, then, now);
        assert(calls[calls.len() - 1] <= then);
        let kept = recent(rest, then);
        if counts(calls.last(), then) {
            assert(kept.push(calls.last()).drop_last() =~= kept);
        }
    }
}

proof fn lemma_window_within_recent(moments: Seq<u128>, from: int, now: u128)
    requires
        now < from + RECALL_RATE_WINDOW,
    ensures
        in_window(moments, from) <= recent(moments, now).len(),
    decreases moments.len(),
{
    if moments.len() > 0 {
        lemma_window_within_recent(moments.drop_last(), from, now);
    }
}

proof fn lemma_recall_run(times: Seq<u128>)
    requires
        in_order(times),
    ensures
        ({
            let run = recall_run(times);
            &&& run.0.len() <= RECALL_RATE_MAX
            &&& forall|i: int|
                0 <= i < run.1.len() ==> times.len() > 0 && #[trigger] run.1[i] <= times.last()
            &&& times.len() > 0 ==> run.0 == recent(run.1, times.last())
        }),
    decreases times.len(),
{
    if times.len() > 0 {
        let rest = times.drop_last();
        let now = times.last();
        lemma_recall_run(rest);
        let before = recall_run(rest);
        let run = recall_run(times);
        assert forall|i: int| 0 <= i < before.1.len() implies #[trigger] before.1[i] <= now by {
            assert(rest.last() == times[rest.len() - 1]);
        }
        if rest.len() > 0 {
            assert(rest.last() == times[rest.len() - 1]);
            lemma_recent_twice(before.1, rest.last(), now);
        }
        assert(recent(before.0, now) == recent(before.1, now));
        lemma_recent_shrinks(before.0, now);
        if recalled(before.0, now).1 {
            assert(before.1.push(now).drop_last() =~= before.1);
        }
        assert forall|i: int| 0 <= i < run.1.len() implies #[trigger] run.1[i] <= now by {
            if i < before.1.len() {
                assert(run.1[i] == before.1[i]);
            }
        }
    }
}

/// However an agent's requests fall, no window of a minute has more of them let
/// through than the limit says.
pub proof fn lemma_recalls_are_limited(times: Seq<u128>, from: int)
    requires
        in_order(times),
    ensures
        in_window(recall_run(times).1, from) <= RECALL_RATE_MAX,
    decreases times.len(),
{
    if times.len() > 0 {
        let rest = times.drop_last();
        let now = times.last();
        let before = recall_run(rest);
        let run = recall_run(times);
        lemma_recalls_are_limited(rest, from);
        lemma_recall_run(times);
        if recalled(before.0, now).1 {
            assert(run.1.drop_last() =~= before.1);
            if from <= now < from + RECALL_RATE_WINDOW {
                lemma_window_within_recent(run.1, from, now);
            }
        }
    }
}

proof fn lemma_recent_shrinks(calls: Seq<u128>, now: u128)
    ensures
        recent(calls, now).len() <= calls.len(),
    decreases calls.len(),
{
    if calls.len() > 0 {
        lemma_recent_shrinks(calls.drop_last(), now);
    }
}

/// A job that needs capabilities is run with tokens that are neither revoked nor
/// stale when they are used, or not at all.
pub proof fn lemma_needy_jobs_have_good_tokens(
    refused: bool,
    issued: Seq<TokenState>,
    used: Seq<TokenState>,
    profiled: bool,
)
    ensures
        authorization(true, refused, issued, used, profiled) != Ok::<
            IqAuthorization,
            error::Why,
        >(IqAuthorization::Direct),
        authorization(true, refused, issued, used, profiled) == Ok::<IqAuthorization, error::Why>(
            IqAuthorization::WithTokens,
        ) ==> !refused && tokens::all_fresh(used) && !tokens::any_revoked(used),
{
}

/// A capsule that does not hold the digest of the evidence is never answered as
/// a success.
pub proof fn lemma_answers_are_bound(
    r: Result<IqConclusion, ToolError>,
    output: ToolOutput,
    capsule: ProofCapsule,
    expected: Seq<char>,
)
    requires
        concluded(r, Ok((output, capsule)), Some(expected)),
        r is Ok,
    ensures
        capsule.memory_evidence is Some,
        text::ascii_lowered(capsule.memory_evidence->0.digest_value@) == text::ascii_lowered(
            expected,
        ),
{
}

/// Modes are told under names of their own.
pub proof fn lemma_mode_labels_differ(a: TimelineDeliveryMode, b: TimelineDeliveryMode)
    ensures
        mode_label(a) == mode_label(b) ==> a == b,
{
    reveal_strlit("advisory");
    reveal_strlit("attested");
    reveal_strlit("offline");
    if mode_label(a) == mode_label(b) {
        assert(mode_label(a)[0] == mode_label(b)[0]);
        assert(mode_label(a)[1] == mode_label(b)[1]);
    }
}

/// Recalling memory takes the right to read it, at the narrowest scope that the
/// request speaks of: who may read the whole agent may recall any of its
/// sessions, and the right to write opens nothing.
pub proof fn lemma_recall_rights(params: NexusIqExecuteParams, held: Cap)
    ensures
        security::kind_name(memory_right(params)) == "read_memory"@,
        params.aeon_session_id is None ==> security::scope_spoken_of(memory_right(params)) == Some(
            security::Scope::Agent(params.aeon_agent_id@),
        ),
        params.aeon_session_id matches Some(s) ==> security::scope_spoken_of(memory_right(params))
            == Some(
            security::Scope::Session { agent_id: params.aeon_agent_id@, session_id: s@ },
        ),
        security::within(
            memory_right(params),
            Cap::ReadMemory(security::Scope::Agent(params.aeon_agent_id@)),
        ),
        held is WriteMemory ==> !security::within(memory_right(params), held),
{
}

/// The recalls that still count are those of the last minute, none else and each
/// in its place.
pub proof fn lemma_recent_calls_are_of_the_last_minute(calls: Seq<u128>, now: u128, t: u128)
    ensures
        recent(calls, now).contains(t) <==> calls.contains(t) && (t > now || now - t
            < 60_000_000_000),
        recent(calls, now).len() <= calls.len(),
    decreases calls.len(),
{
    if calls.len() > 0 {
        let before = calls.drop_last();
        lemma_recent_calls_are_of_the_last_minute(before, now, t);
        let kept = recent(before, now);
        let all = recent(calls, now);
        if all.contains(t) {
            let i = choose|i: int| 0 <= i < all.len() && all[i] == t;
            if i < kept.len() {
                assert(kept[i] == t);
                let j = choose|j: int| 0 <= j < before.len() && before[j] == t;
                assert(calls[j] == t);
            } else {
                assert(calls[calls.len() - 1] == t);
            }
        }
        if calls.contains(t) && (t > now || now - t < 60_000_000_000) {
            let j = choose|j: int| 0 <= j < calls.len() && calls[j] == t;
            if j < before.len() {
                assert(before[j] == t);
                let i = choose|i: int| 0 <= i < kept.len() && kept[i] == t;
                assert(all[i] == t);
            } else {
                assert(all[all.len() - 1] == t);
            }
        }
    }
}

/// A recall is refused exactly if ten of the last minute count already; one that
/// passes counts from now on.
pub proof fn lemma_eleventh_recall_is_refused(calls: Seq<u128>, now: u128)
    ensures
        recalled(calls, now).1 <==> recent(calls, now).len() < 10,
        recalled(calls, now).1 ==> recalled(calls, now).0.len() == recent(calls, now).len() + 1
            && recalled(calls, now).0.last() == now && recalled(calls, now).0.drop_last() == recent(
            calls,
            now,
        ),
        !recalled(calls, now).1 ==> recalled(calls, now).0 == recent(calls, now),
{
    assert(recent(calls, now).push(now).drop_last() =~= recent(calls, now));
}

/// Recalls are counted for each agent alone.
pub proof fn lemma_recalls_are_kept_apart(buckets: Seq<RecallBucket>, agent: Seq<char>, i: int)
    requires
        0 <= i < buckets.len(),
        buckets[i].agent_id@ == agent,
        forall|j: int| 0 <= j < i ==> (#[trigger] buckets[j]).agent_id@ != agent,
    ensures
        calls_of(buckets, agent) == buckets[i].calls@,
    decreases buckets.len(),
{
    if i > 0 {
        let rest = buckets.skip(1);
        assert forall|j: int| 0 <= j < i - 1 implies (#[trigger] rest[j]).agent_id@ != agent by {
            assert(rest[j] == buckets[j + 1]);
        }
        assert(rest[i - 1] == buckets[i]);
        assert(buckets[0].agent_id@ != agent);
        lemma_recalls_are_kept_apart(rest, agent, i - 1);
    }
}

/// Memory is bound to a run exactly where it is attested, with or without a hit:
/// by the digest of the evidence, under the key where there is one.
pub proof fn lemma_attested_memory_is_bound(e: MemoryEvidenceV1, key: Option<Seq<u8>>)
    ensures
        memory_digest_of(e, key) is Some <==> e.attestation == MemoryAttestationMode::Attested
            || e.attestation == MemoryAttestationMode::AttestedNoHit || e.attestation
            == MemoryAttestationMode::AttestedWithRecall,
        memory_digest_of(e, key) is Some && key is Some ==> memory_digest_of(e, key)->0
            == text::hex_of(
            digest::hmac_sha256_of(key->0, vstd::utf8::encode_utf8(memory::evidence_json(e))),
        ),
        memory_digest_of(e, key) is Some && key is None ==> memory_digest_of(e, key)->0
            == text::hex_of(
            digest::sha256_of(vstd::utf8::encode_utf8(memory::evidence_json(e))),
        ),
{
}

/// Descriptions are read one by one and in their order.
pub proof fn lemma_descriptions_are_read_in_order(
    specs: Seq<String>,
    objects: Seq<Option<CapabilitySpec>>,
    url_faults: Seq<Option<String>>,
    i: int,
)
    requires
        objects.len() == specs.len(),
        url_faults.len() == specs.len(),
        0 <= i < specs.len(),
    ensures
        all_described(specs, objects, url_faults) matches Ok(v) ==> v.len() == specs.len() && Ok::<
            Cap,
            Seq<char>,
        >(v[i]) == capability::described(specs[i]@, objects[i], text::opt_text(url_faults[i])),
    decreases specs.len(),
{
    lemma_described_len(specs.drop_last(), objects.drop_last(), url_faults.drop_last());
    if i < specs.len() - 1 {
        lemma_descriptions_are_read_in_order(
            specs.drop_last(),
            objects.drop_last(),
            url_faults.drop_last(),
            i,
        );
    }
}

proof fn lemma_described_len(
    specs: Seq<String>,
    objects: Seq<Option<CapabilitySpec>>,
    url_faults: Seq<Option<String>>,
)
    ensures
        all_described(specs, objects, url_faults) matches Ok(v) ==> v.len() == specs.len(),
    decreases specs.len(),
{
    if specs.len() > 0 {
        lemma_described_len(specs.drop_last(), objects.drop_last(), url_faults.drop_last());
    }
}

/// A job is of the request: of the module that it holds and on its input, in the
/// name of its agent and session, bound to its memory, and it needs what the
/// request describes. A request whose module, input or descriptions cannot be
/// read is no job.
pub proof fn lemma_jobs_are_of_the_request(
    r: Result<IqJob, ToolError>,
    params: NexusIqExecuteParams,
    module: Result<Seq<u8>, Seq<char>>,
    input_fault: Option<Seq<char>>,
    caps: Result<Seq<Cap>, Seq<char>>,
    memory_digest: Option<Seq<char>>,
)
    requires
        is_job_of(r, params, module, input_fault, caps, memory_digest),
    ensures
        r is Ok <==> module is Ok && input_fault is None && caps is Ok,
        r matches Ok(j) ==> {
            &&& j.tool.wasm_bytes@ == module->Ok_0
            &&& j.tool.name@ == params.tool_name@
            &&& j.tool.entry_point@ == "_start"@
            &&& j.input@ == params.input@
            &&& security::caps(j.tool.required_capabilities@) == caps->Ok_0
            &&& j.tool.aeon_agent_id is Some && j.tool.aeon_agent_id->0@ == params.aeon_agent_id@
            &&& text::opt_text(j.tool.aeon_session_id) == text::opt_text(params.aeon_session_id)
            &&& text::opt_text(j.tool.aeon_memory_evidence_digest) == memory_digest
            &&& text::opt_text(j.memory_digest) == memory_digest
        },
        module is Err ==> (r matches Err(e) && (e@ matches error::Why::Other(t) && text::ends(
            t,
            module->Err_0,
        ))),
{
    if module is Err {
        let lead = "tool_wasm is not valid base64: "@;
        let t = lead + module->Err_0;
        assert(t.subrange(lead.len() as int, t.len() as int) =~= module->Err_0);
    }
}

/// Who needs nothing runs as they are; who needs something runs with tokens that
/// all passed, both when they were issued and when they were used, and else not
/// at all.
pub proof fn lemma_leave_to_run(
    needs: bool,
    refused: bool,
    issued: Seq<TokenState>,
    used: Seq<TokenState>,
    profiled: bool,
)
    ensures
        authorization(needs, refused, issued, used, profiled) == Ok::<IqAuthorization, error::Why>(
            IqAuthorization::Direct,
        ) <==> !needs,
        authorization(needs, refused, issued, used, profiled) == Ok::<IqAuthorization, error::Why>(
            IqAuthorization::WithTokens,
        ) <==> needs && !refused && tokens::token_refusal(issued, profiled) is None
            && tokens::token_refusal(used, profiled) is None,
        needs && refused ==> authorization(needs, refused, issued, used, profiled) == Ok::<
            IqAuthorization,
            error::Why,
        >(IqAuthorization::Denied),
{
}

/// A denial is answered as one: denied, without an output or a capsule, with the
/// reason as far as it is safe, and with one event that says so. What ran is
/// never answered like that.
pub proof fn lemma_denials_and_answers_differ(
    d: NexusIqExecuteResponse,
    a: NexusIqExecuteResponse,
    output: ToolOutput,
    capsule: ProofCapsule,
    events: Vec<NexusExecutionEvent>,
    evidence: MemoryEvidenceV1,
    hits: usize,
    mode: TimelineDeliveryMode,
    status: TimelineDeliveryStatus,
    reason: DenialReason,
)
    requires
        is_denial(d, evidence, hits, mode, status, reason),
        is_answer(a, output, capsule, events, evidence, hits, mode, status),
    ensures
        d.denied && !a.denied,
        d.output is None && d.proof_capsule_ref is None,
        d.denial_negotiation is Some && d.denial_negotiation->0.denied
            && !d.denial_negotiation->0.negotiated && d.denial_negotiation->0.reason is Some
            && d.denial_negotiation->0.reason->0@ == error::safe_text(reason),
        d.events@.len() == 1,
        a.output is Some && a.output->0.success == output.success
            && a.output->0.rollback_performed == output.rollback_performed,
        a.proof_capsule_ref is Some && a.proof_capsule_ref->0@ == capsule.capsule_id@,
        a.memory_evidence_ref.capsule_digest is Some && a.memory_evidence_ref.capsule_digest->0@
            == capsule.capsule_id@,
        a.denial_negotiation is Some <==> capsule.capabilities.negotiation_rounds is Some,
        a.denial_negotiation is Some ==> a.denial_negotiation->0.negotiated
            && !a.denial_negotiation->0.denied && a.denial_negotiation->0.rounds
            == capsule.capabilities.negotiation_rounds,
        a.events == events,
        d.memory_hits_count == hits && a.memory_hits_count == hits,
        d.memory_evidence_ref.attestation == evidence.attestation
            && a.memory_evidence_ref.attestation == evidence.attestation,
        d.memory_evidence_ref.hit_digests == evidence.hit_digests
            && a.memory_evidence_ref.hit_digests == evidence.hit_digests,
        d.timeline_status == status && a.timeline_status == status,
        d.attestation_mode@ == a.attestation_mode@ && d.attestation_mode@ == mode_label(mode),
{
    assert(execute::event_views(d.events@).len() == d.events@.len());
}

/// What a run comes to: a denied capability is a denial, any other error is that
/// error, and a run whose capsule lacks the memory that it was bound to is
/// refused; anything else is handed on as it came.
pub proof fn lemma_runs_are_concluded(
    r: Result<IqConclusion, ToolError>,
    outcome: Result<(ToolOutput, ProofCapsule), NexusError>,
    expected: Option<Seq<char>>,
)
    requires
        concluded(r, outcome, expected),
    ensures
        outcome matches Err(e) ==> (e is CapabilityDenied <==> r == Ok::<IqConclusion, ToolError>(
            IqConclusion::Denied,
        )),
        r matches Ok(IqConclusion::Ran { output, capsule, .. }) ==> outcome is Ok && output
            == outcome->Ok_0.0 && capsule == outcome->Ok_0.1,
        r matches Ok(IqConclusion::Ran { capsule, .. }) ==> (expected is Some
            ==> capsule.memory_evidence is Some && text::ascii_lowered(
            capsule.memory_evidence->0.digest_value@,
        ) == text::ascii_lowered(expected->0)),
        outcome is Ok && expected is None ==> r is Ok && r->Ok_0 is Ran,
{
    if let Ok(IqConclusion::Ran { capsule, .. }) = r {
        if expected is Some {
            execute::lemma_memory_digests_must_match(
                execute::memory_digest_in(capsule.memory_evidence),
                expected->0,
            );
        }
    }
}

/// Where nothing receives the events, that is told, as a failure exactly where
/// the delivery was required; how an awaited delivery went is told as it went,
/// and what is not awaited is told as that.
pub proof fn lemma_telling_is_told(
    sink: bool,
    mode: TimelineDeliveryMode,
    delivered: TimelineDeliveryStatus,
)
    ensures
        mode == TimelineDeliveryMode::Attested && !sink ==> telling_status(sink, mode, delivered)
            == TimelineDeliveryStatus::RequiredButFailed,
        mode == TimelineDeliveryMode::Attested && sink ==> telling_status(sink, mode, delivered)
            == delivered,
        mode != TimelineDeliveryMode::Attested && sink ==> telling_status(sink, mode, delivered)
            == TimelineDeliveryStatus::FireAndForget,
        mode != TimelineDeliveryMode::Attested && !sink ==> telling_status(sink, mode, delivered)
            == TimelineDeliveryStatus::FailedOpen,
{
}

/// A timeline job is of the module that was found, at the given entry point and
/// on the given input, in the name of the given agent and session; it needs the
/// capabilities that were written, and its caller holds those that they claim,
/// which are the same unless they claim others.
pub proof fn lemma_timeline_jobs_are_of_the_request(
    r: Result<TimelineJob, ToolError>,
    tools: ToolGate,
    params: AeonTimelineExecuteParams,
    found: execute::ModuleFound,
)
    requires
        is_timeline_job(r, tools, params, found),
    ensures
        r matches Ok(j) ==> {
            &&& found is Bytes && j.tool.wasm_bytes@ == found->Bytes_0@
            &&& execute::proof_refused(tools, "nexus_aeon_execute_timeline"@) is None
            &&& text::opt_text(j.tool.aeon_agent_id) == text::opt_text(params.aeon_agent_id)
            &&& text::opt_text(j.tool.aeon_session_id) == text::opt_text(params.aeon_session_id)
            &&& params.entry is None ==> j.tool.entry_point@ == "_start"@
            &&& params.entry matches Some(e) ==> j.tool.entry_point@ == e@
            &&& params.input matches Some(t) ==> j.input@ == t@
            &&& params.input is None ==> j.input@ == "{}"@
            &&& params.caller_capabilities is None ==> security::caps(j.caller_capabilities@)
                == security::caps(j.tool.required_capabilities@)
            &&& params.caller_capabilities matches Some(v) ==> capability::capabilities_from_specs(
                v@,
            ) == Ok::<Seq<Cap>, Seq<char>>(security::caps(j.caller_capabilities@))
            &&& params.capabilities matches Some(v) ==> capability::capabilities_from_specs(v@)
                == Ok::<Seq<Cap>, Seq<char>>(security::caps(j.tool.required_capabilities@))
        },
        execute::proof_refused(tools, "nexus_aeon_execute_timeline"@) matches Some(w) ==> (
        r matches Err(e) && e@ == w),
{
}

/// A timeline run is answered with its output and its capsule; a delivery is
/// told exactly where there is an agent to deliver for, and under that agent's
/// path.
pub proof fn lemma_timeline_runs_are_answered(
    r: AeonTimelineExecuteResponse,
    output: ToolOutput,
    capsule: ProofCapsule,
    params: AeonTimelineExecuteParams,
    has_sink: bool,
)
    requires
        is_timeline_response(r, output, capsule, params, has_sink),
    ensures
        r.proof_capsule == capsule && r.output.success == output.success,
        r.timeline_delivery_status is Some <==> params.aeon_agent_id is Some,
        r.aeon_timeline_path is Some <==> params.aeon_agent_id is Some,
        params.aeon_agent_id matches Some(a) ==> text::has_text(r.aeon_timeline_path->0@, a@)
            && r.aeon_agent_id is Some && r.aeon_agent_id->0@ == a@,
        params.aeon_agent_id is Some && has_sink ==> r.timeline_delivery_status == Some(
            TimelineDeliveryStatus::FireAndForget,
        ),
        params.aeon_agent_id is Some && !has_sink ==> r.timeline_delivery_status == Some(
            TimelineDeliveryStatus::FailedOpen,
        ),
        text::opt_text(r.aeon_session_id) == text::opt_text(params.aeon_session_id),
{
    if params.aeon_agent_id is Some {
        text::lemma_part_is_held("/agents/"@, params.aeon_agent_id->0@, "/timeline"@);
    }
}

/// A request is admitted exactly if the attesting tools may be called and the
/// operator's list, where there is one, names its tool.
pub proof fn lemma_listed_tools_are_admitted(
    tools: ToolGate,
    list: Option<Seq<Seq<char>>>,
    tool: Seq<char>,
    r: Result<IqAdmission, ToolError>,
)
    requires
        is_admission(tools, list, tool, r),
    ensures
        r == Ok::<IqAdmission, ToolError>(IqAdmission::Admitted) <==> execute::proof_refused(
            tools,
            "nexus_iq_execute"@,
        ) is None && (list matches Some(names) ==> names.contains(tool)),
        r matches Err(e) ==> execute::proof_refused(tools, "nexus_iq_execute"@) == Some(e@),
{
}

/// Whether one more request to recall an agent's memory was counted.
pub open spec fn is_noted(
    before: Seq<RecallBucket>,
    after: Seq<RecallBucket>,
    agent: Seq<char>,
    now: u128,
    r: Result<(), ToolError>,
) -> bool {
    let step = recalled(calls_of(before, agent), now);
    &&& calls_of(after, agent) == step.0
    &&& match r {
        Ok(_) => step.1,
        Err(e) => !step.1 && e@ == error::Why::Other(recall_limit_text()),
    }
    &&& forall|t: Seq<char>| t != agent ==> #[trigger] calls_of(after, t) == calls_of(before, t)
}

/// A recall counts for its agent alone, and is refused exactly if ten of that
/// agent's last minute count already.
pub proof fn lemma_recalls_count_for_their_agent(
    before: Seq<RecallBucket>,
    after: Seq<RecallBucket>,
    agent: Seq<char>,
    other: Seq<char>,
    now: u128,
    r: Result<(), ToolError>,
)
    requires
        is_noted(before, after, agent, now, r),
    ensures
        other != agent ==> calls_of(after, other) == calls_of(before, other),
        r is Err <==> recent(calls_of(before, agent), now).len() >= 10,
        r is Ok ==> calls_of(after, agent).contains(now),
        calls_of(before, agent).len() == 0 ==> r is Ok,
{
    let calls = calls_of(before, agent);
    lemma_eleventh_recall_is_refused(calls, now);
    lemma_recent_calls_are_of_the_last_minute(calls, now, now);
    if r is Ok {
        let s = recalled(calls, now).0;
        assert(s[s.len() - 1] == now);
    }
}

/// What was recalled for a request is evidenced: the question is told, each memory
/// by the digest of its words, and where there was no question or nobody to ask
/// there are none.
pub proof fn lemma_recalls_for_requests_are_evidenced(
    r: MemoryRecallEvidence,
    query: Option<Seq<char>>,
    client: Option<AeonMemoryClient>,
    reply: Option<(u16, Option<Vec<SearchHit>>)>,
    i: int,
)
    requires
        is_recall(r, query, client, reply),
    ensures
        query matches Some(q) ==> r.evidence.query@ == q,
        query is None ==> r.evidence.query@.len() == 0,
        query is None || client is None ==> r.hits@.len() == 0 && r.evidence.attestation
            == MemoryAttestationMode::Absent,
        r.evidence.hit_count == r.hits@.len() && r.evidence.hit_digests@.len() == r.hits@.len(),
        0 <= i < r.hits@.len() ==> r.evidence.hit_digests@[i]@ == memory::text_digest(
            r.hits@[i].content@,
        ),
{
    reveal_strlit("");
    let found = memory::hits_view(r.hits@);
    assert(found.len() == r.hits@.len());
    assert(text::texts(r.evidence.hit_digests@).len() == r.evidence.hit_digests@.len());
    if 0 <= i < r.hits@.len() {
        memory::lemma_evidence_tells_the_search(
            r.evidence,
            r.evidence.query@,
            found,
            r.evidence.attestation,
            i,
        );
    }
}

/// An answer shows all of the evidence but the question.
pub proof fn lemma_shown_evidence_hides_the_question(
    m: MemoryEvidenceForMcp,
    n: MemoryEvidenceForMcp,
    e: MemoryEvidenceV1,
    query: String,
)
    requires
        shows_evidence(m, e),
        shows_evidence(n, (MemoryEvidenceV1 { query, ..e })),
    ensures
        m == n,
        m.version == e.version && m.hit_count == e.hit_count && m.hit_digests == e.hit_digests,
        m.attestation == e.attestation && m.capsule_digest == e.capsule_digest,
{
}

} // verus!
