//! Recall: what is asked of the service, what is made of its answer, and the
//! evidence of it. The service is advisory: whatever goes wrong, the answer is
//! an empty one that says how far it can be trusted.

use crate::aeon::config;
use crate::aeon::config::AeonConfig;
use crate::attestation::canonical;
use crate::attestation::digest;
use crate::attestation::schema::{MemoryAttestationMode, MemoryEvidenceRef};
use crate::env;
use crate::ids;
use crate::json;
use crate::text;
use vstd::prelude::*;
use vstd::string::*;

verus! {

/// One memory that was recalled. The score is held as the bits of a number of
/// double precision.
#[derive(Debug, Clone, PartialEq, Eq)]
pub struct MemoryHit {
    pub id: String,
    pub content: String,
    pub score: Option<u64>,
}

/// A recalled memory, by its contents.
pub struct Hit {
    pub id: Seq<char>,
    pub content: Seq<char>,
    pub score: Option<u64>,
}

impl View for MemoryHit {
    type V = Hit;

    open spec fn view(&self) -> Hit {
        Hit { id: self.id@, content: self.content@, score: self.score }
    }
}

/// The contents of a list of memories.
pub open spec fn hits_view(v: Seq<MemoryHit>) -> Seq<Hit> {
    Seq::new(v.len(), |i: int| v[i]@)
}

/// One entry of a search answer, as it was sent.
#[derive(Debug, Clone, PartialEq, Eq)]
pub struct SearchHit {
    pub id: Option<String>,
    pub content: Option<String>,
    pub score: Option<u64>,
    pub distance: Option<u64>,
    pub similarity: Option<u64>,
}

/// The text, or nothing.
pub open spec fn or_empty(o: Option<String>) -> Seq<char> {
    match o {
        Some(t) => t@,
        None => Seq::empty(),
    }
}

/// What an entry stands for. Of the three measures the first that is given is
/// the score.
pub open spec fn hit_of(h: SearchHit) -> Hit {
    Hit {
        id: or_empty(h.id),
        content: or_empty(h.content),
        score: match h.score {
            Some(x) => Some(x),
            None => match h.distance {
                Some(x) => Some(x),
                None => h.similarity,
            },
        },
    }
}

fn text_or_empty(o: &Option<String>) -> (r: String)
    ensures
        r@ == or_empty(*o),
{
    match o {
        Some(t) => t.clone(),
        None => String::new(),
    }
}

/// What the entries of an answer stand for.
pub fn hits_from(entries: &Vec<SearchHit>) -> (r: Vec<MemoryHit>)
    ensures
        hits_view(r@) == Seq::new(entries@.len(), |i: int| hit_of(entries@[i])),
{
    let mut out: Vec<MemoryHit> = Vec::new();
    let mut i: usize = 0;
    while i < entries.len()
        invariant
            i <= entries.len(),
            out@.len() == i,
            forall|j: int| 0 <= j < i ==> (#[trigger] out@[j])@ == hit_of(entries@[j]),
        decreases entries.len() - i,
    {
        let h = &entries[i];
        let score: Option<u64> = match h.score {
            Some(x) => Some(x),
            None => match h.distance {
                Some(x) => Some(x),
                None => h.similarity,
            },
        };
        out.push(
            MemoryHit { id: text_or_empty(&h.id), content: text_or_empty(&h.content), score },
        );
        i = i + 1;
    }
    assert(hits_view(out@) =~= Seq::new(entries@.len(), |i: int| hit_of(entries@[i])));
    out
}

/// What a search came to.
#[derive(Debug, Clone, PartialEq, Eq)]
pub struct MemorySearchOutcome {
    pub hits: Vec<MemoryHit>,
    pub attestation: MemoryAttestationMode,
}

/// A client of the service: where it is, who asks, and with which key.
#[derive(Clone, PartialEq, Eq)]
pub struct AeonMemoryClient {
    pub base_url: String,
    pub agent_id: String,
    pub management_key: Option<String>,
}

/// The URL of a path below `base`; none where `base` is no URL that can have
/// one.
pub uninterp spec fn endpoint_url(base: Seq<char>, segments: Seq<Seq<char>>) -> Option<Seq<char>>;

/// `reqwest::Url::parse`, `path_segments_mut`, `clear` and `extend`: the URL, or
/// its absence, depends on the base and the segments alone.
#[verifier::external_body]
fn endpoint(base: &str, segments: &Vec<String>) -> (r: Option<String>)
    ensures
        text::opt_text(r) == endpoint_url(base@, text::texts(segments@)),
{
    let mut url = reqwest::Url::parse(base).ok()?;
    url.path_segments_mut().ok()?.clear().extend(segments);
    Some(url.to_string())
}

/// The endpoint of a client for a path.
pub fn client_url(base_url: &str, segments: &Vec<String>) -> (r: Option<String>)
    ensures
        text::opt_text(r) == endpoint_url(base_url@ + "/"@, text::texts(segments@)),
{
    let base = text::cat2(base_url, "/");
    endpoint(base.as_str(), segments)
}

/// Whether a status says that a request succeeded.
pub fn is_success(status: u16) -> (r: bool)
    ensures
        r == (200 <= status < 300),
{
    200 <= status && status < 300
}

/// Whether a configuration has all that a client needs.
pub open spec fn usable(c: config::Aeon) -> bool {
    &&& c.enabled
    &&& !env::blank(c.base_url)
    &&& !env::blank(c.agent_id)
    &&& c.management_key is Some
    &&& !env::blank(c.management_key->0)
}

/// What a search came to: no key, no evidence; no usable answer, no trust.
pub open spec fn search_result(
    key: Option<Seq<char>>,
    url: Option<Seq<char>>,
    reply: Option<(u16, Option<Vec<SearchHit>>)>,
) -> (Seq<Hit>, MemoryAttestationMode) {
    if key is None {
        (Seq::empty(), MemoryAttestationMode::Absent)
    } else if url is None || reply is None {
        (Seq::empty(), MemoryAttestationMode::Degraded)
    } else if !(200 <= (reply->0).0 < 300) || (reply->0).1 is None {
        (Seq::empty(), MemoryAttestationMode::Degraded)
    } else {
        let entries = (reply->0).1->0@;
        (
            Seq::new(entries.len(), |i: int| hit_of(entries[i])),
            if entries.len() == 0 {
                MemoryAttestationMode::AttestedNoHit
            } else {
                MemoryAttestationMode::AttestedWithRecall
            },
        )
    }
}

/// The path of the search endpoint.
pub open spec fn search_path() -> Seq<Seq<char>> {
    seq!["api"@, "v1"@, "memories"@, "search"@]
}

/// The path of an agent's memories.
pub open spec fn store_path(agent: Seq<char>) -> Seq<Seq<char>> {
    seq!["api"@, "v1"@, "agents"@, agent, "memories"@]
}

/// The URL and the key of a request.
pub open spec fn target_view(t: Option<(String, String)>) -> Option<(Seq<char>, Seq<char>)> {
    match t {
        Some(p) => Some((p.0@, p.1@)),
        None => None,
    }
}

/// The URL and the key of a request, where both are at hand.
pub open spec fn target_of(key: Option<Seq<char>>, url: Option<Seq<char>>) -> Option<
    (Seq<char>, Seq<char>),
> {
    match (url, key) {
        (Some(u), Some(k)) => Some((u, k)),
        _ => None,
    }
}

impl AeonMemoryClient {
    /// The client of a configuration.
    pub fn from_config(config: &AeonConfig) -> (r: Self)
        ensures
            r.base_url@ == config::unslashed(config.base_url@),
            r.agent_id@ == config.agent_id@,
            text::opt_text(r.management_key) == text::opt_text(config.management_key),
    {
        AeonMemoryClient {
            base_url: config.trimmed_base_url(),
            agent_id: config.agent_id.clone(),
            management_key: text::clone_opt(&config.management_key),
        }
    }

    /// The client of a configuration that has all it needs.
    pub fn from_enabled_config(config: &AeonConfig) -> (r: Option<Self>)
        ensures
            r is Some <==> usable(config@),
            match r {
                Some(c) => {
                    &&& c.base_url@ == config::unslashed(config.base_url@)
                    &&& c.agent_id@ == config.agent_id@
                    &&& text::opt_text(c.management_key) == text::opt_text(config.management_key)
                },
                None => true,
            },
    {
        let has_key: bool = match &config.management_key {
            Some(k) => !env::is_blank(k.as_str()),
            None => false,
        };
        if config.enabled && !env::is_blank(config.base_url.as_str()) && !env::is_blank(
            config.agent_id.as_str(),
        ) && has_key {
            Some(AeonMemoryClient::from_config(config))
        } else {
            None
        }
    }

    fn target(&self, segments: &Vec<String>) -> (r: Option<(String, String)>)
        ensures
            target_view(r) == target_of(
                text::opt_text(self.management_key),
                endpoint_url(self.base_url@ + "/"@, text::texts(segments@)),
            ),
    {
        match &self.management_key {
            None => None,
            Some(key) => match client_url(self.base_url.as_str(), segments) {
                Some(url) => Some((url, key.clone())),
                None => None,
            },
        }
    }

    /// Where a search is sent, and with which key. Without either nothing is
    /// sent.
    pub fn search_target(&self) -> (r: Option<(String, String)>)
        ensures
            target_view(r) == target_of(
                text::opt_text(self.management_key),
                endpoint_url(self.base_url@ + "/"@, search_path()),
            ),
    {
        let mut segments: Vec<String> = Vec::new();
        segments.push("api".to_string());
        segments.push("v1".to_string());
        segments.push("memories".to_string());
        segments.push("search".to_string());
        assert(text::texts(segments@) =~= search_path());
        self.target(&segments)
    }

    /// Where a memory is stored, and with which key.
    pub fn store_target(&self) -> (r: Option<(String, String)>)
        ensures
            target_view(r) == target_of(
                text::opt_text(self.management_key),
                endpoint_url(self.base_url@ + "/"@, store_path(self.agent_id@)),
            ),
    {
        let mut segments: Vec<String> = Vec::new();
        segments.push("api".to_string());
        segments.push("v1".to_string());
        segments.push("agents".to_string());
        segments.push(self.agent_id.clone());
        segments.push("memories".to_string());
        assert(text::texts(segments@) =~= store_path(self.agent_id@));
        self.target(&segments)
    }

    /// Where the service is asked whether it is well, and with which key.
    pub fn health_target(&self) -> (r: Option<(String, String)>)
        ensures
            target_view(r) == target_of(
                text::opt_text(self.management_key),
                endpoint_url(self.base_url@ + "/"@, seq!["health"@]),
            ),
    {
        let mut segments: Vec<String> = Vec::new();
        segments.push("health".to_string());
        assert(text::texts(segments@) =~= seq!["health"@]);
        self.target(&segments)
    }

    /// What is sent to search.
    pub fn search_body(&self, query: &str, limit: usize) -> (r: String)
        ensures
            r@ == canonical::object(
                seq![
                    canonical::field("agent_id"@, canonical::json_quoted(self.agent_id@)),
                    canonical::field("query"@, canonical::json_quoted(query@)),
                    canonical::field("limit"@, text::decimal(limit as nat)),
                ],
            ),
    {
        let mut fields: Vec<String> = Vec::new();
        fields.push(canonical::field_text("agent_id", canonical::quote(self.agent_id.as_str())));
        fields.push(canonical::field_text("query", canonical::quote(query)));
        fields.push(canonical::field_text("limit", text::to_decimal(limit as u64)));
        assert(text::texts(fields@) =~= seq![
            canonical::field("agent_id"@, canonical::json_quoted(self.agent_id@)),
            canonical::field("query"@, canonical::json_quoted(query@)),
            canonical::field("limit"@, text::decimal(limit as nat)),
        ]);
        canonical::object_text(&fields)
    }

    /// What a search came to. `reply` is the status and the entries of the
    /// answer: none where nothing came back, and no entries where the answer
    /// could not be read.
    pub fn search_with_status(&self, reply: &Option<(u16, Option<Vec<SearchHit>>)>) -> (r:
        MemorySearchOutcome)
        ensures
            (hits_view(r.hits@), r.attestation) == search_result(
                text::opt_text(self.management_key),
                endpoint_url(self.base_url@ + "/"@, search_path()),
                *reply,
            ),
    {
        let nothing: Vec<MemoryHit> = Vec::new();
        assert(hits_view(nothing@) =~= Seq::<Hit>::empty());
        if self.management_key.is_none() {
            return MemorySearchOutcome { hits: nothing, attestation: MemoryAttestationMode::Absent };
        }
        if self.search_target().is_none() {
            return MemorySearchOutcome {
                hits: nothing,
                attestation: MemoryAttestationMode::Degraded,
            };
        }
        match reply {
            Some(answer) => {
                if !is_success(answer.0) {
                    return MemorySearchOutcome {
                        hits: nothing,
                        attestation: MemoryAttestationMode::Degraded,
                    };
                }
                match &answer.1 {
                    Some(entries) => {
                        let hits = hits_from(entries);
                        assert(hits_view(hits@).len() == entries@.len());
                        let attestation = if hits.len() == 0 {
                            MemoryAttestationMode::AttestedNoHit
                        } else {
                            MemoryAttestationMode::AttestedWithRecall
                        };
                        MemorySearchOutcome { hits, attestation }
                    },
                    None => MemorySearchOutcome {
                        hits: nothing,
                        attestation: MemoryAttestationMode::Degraded,
                    },
                }
            },
            None => MemorySearchOutcome {
                hits: nothing,
                attestation: MemoryAttestationMode::Degraded,
            },
        }
    }

    /// The memories that a search found.
    pub fn search(&self, reply: &Option<(u16, Option<Vec<SearchHit>>)>) -> (r: Vec<MemoryHit>)
        ensures
            hits_view(r@) == search_result(
                text::opt_text(self.management_key),
                endpoint_url(self.base_url@ + "/"@, search_path()),
                *reply,
            ).0,
    {
        self.search_with_status(reply).hits
    }

    /// Whether the service is well, given the status of its answer.
    pub fn health(&self, status: Option<u16>) -> (r: bool)
        ensures
            r == (self.management_key is Some && endpoint_url(
                self.base_url@ + "/"@,
                seq!["health"@],
            ) is Some && status is Some && 200 <= status->0 < 300),
    {
        if self.health_target().is_none() {
            return false;
        }
        match status {
            Some(s) => is_success(s),
            None => false,
        }
    }

    /// The identifier of a stored memory, given the status and the text of the
    /// answer.
    pub fn store(&self, reply: &Option<(u16, String)>) -> (r: Option<String>)
        ensures
            text::opt_text(r) == (if self.management_key is Some && endpoint_url(
                self.base_url@ + "/"@,
                store_path(self.agent_id@),
            ) is Some && reply is Some && 200 <= (reply->0).0 < 300 {
                memory_id(
                    json::json_text((reply->0).1@, ""@),
                    json::json_text((reply->0).1@, "/id"@),
                    json::json_text((reply->0).1@, "/memory_id"@),
                )
            } else {
                None
            }),
    {
        if self.store_target().is_none() {
            return None;
        }
        match reply {
            Some(answer) => {
                if is_success(answer.0) {
                    extract_memory_id(
                        json::json_text_at(answer.1.as_str(), ""),
                        json::json_text_at(answer.1.as_str(), "/id"),
                        json::json_text_at(answer.1.as_str(), "/memory_id"),
                    )
                } else {
                    None
                }
            },
            None => None,
        }
    }
}

/// The first of three texts that is there, where it is an identifier.
pub open spec fn memory_id(
    root: Option<Seq<char>>,
    id: Option<Seq<char>>,
    other: Option<Seq<char>>,
) -> Option<Seq<char>> {
    let chosen = match root {
        Some(t) => Some(t),
        None => match id {
            Some(t) => Some(t),
            None => other,
        },
    };
    match chosen {
        Some(t) => match ids::uuid_reading(t) {
            Ok(u) => Some(u),
            Err(_) => None,
        },
        None => None,
    }
}

/// The identifier in an answer: the answer itself where it is a text, else its
/// `id`, else its `memory_id`.
pub fn extract_memory_id(root: Option<String>, id: Option<String>, other: Option<String>) -> (r:
    Option<String>)
    ensures
        text::opt_text(r) == memory_id(
            text::opt_text(root),
            text::opt_text(id),
            text::opt_text(other),
        ),
{
    let chosen: Option<String> = match root {
        Some(t) => Some(t),
        None => match id {
            Some(t) => Some(t),
            None => other,
        },
    };
    match chosen {
        Some(t) => match ids::parse_uuid(t.as_str()) {
            Ok(u) => Some(u),
            Err(_) => None,
        },
        None => None,
    }
}

/// Evidence of a recall: what was asked, and the digest of each memory that
/// came back.
#[derive(Debug, Clone, PartialEq, Eq)]
pub struct MemoryEvidenceV1 {
    pub version: u8,
    pub query: String,
    pub hit_count: usize,
    pub hit_digests: Vec<String>,
    pub attestation: MemoryAttestationMode,
    pub capsule_digest: Option<String>,
}

/// The digest of a text, in lower-case hexadecimal.
pub open spec fn text_digest(s: Seq<char>) -> Seq<char> {
    text::hex_of(digest::sha256_of(vstd::utf8::encode_utf8(s)))
}

/// The digest of bytes, in lower-case hexadecimal.
pub fn sha256_hex(bytes: &[u8]) -> (r: String)
    ensures
        r@ == text::hex_of(digest::sha256_of(bytes@)),
{
    let d = digest::sha256(bytes);
    text::hex_lower(d.as_slice())
}

/// What is wrong with evidence.
pub open spec fn evidence_fault(e: MemoryEvidenceV1) -> Option<Seq<char>> {
    if e.version != MemoryEvidenceV1::VERSION {
        Some(
            "unsupported version "@ + text::decimal(e.version as nat) + "; expected "@
                + text::decimal(MemoryEvidenceV1::VERSION as nat),
        )
    } else if e.hit_count != e.hit_digests@.len() {
        Some(
            "hit_count "@ + text::decimal(e.hit_count as nat)
                + " does not match hit_digests length "@ + text::decimal(e.hit_digests@.len()),
        )
    } else if e.capsule_digest is Some && env::blank(e.capsule_digest->0@) {
        Some("capsule_digest must be non-empty when set"@)
    } else {
        None
    }
}

/// Judges evidence.
pub fn validate_memory_evidence_v1(evidence: &MemoryEvidenceV1) -> (r: Result<(), String>)
    ensures
        match r {
            Ok(_) => evidence_fault(*evidence) is None,
            Err(e) => evidence_fault(*evidence) == Some(e@),
        },
{
    if evidence.version != MemoryEvidenceV1::VERSION {
        let got = text::to_decimal(evidence.version as u64);
        let want = text::to_decimal(MemoryEvidenceV1::VERSION as u64);
        return Err(
            text::cat4("unsupported version ", got.as_str(), "; expected ", want.as_str()),
        );
    }
    if evidence.hit_count != evidence.hit_digests.len() {
        let count = text::to_decimal(evidence.hit_count as u64);
        let len = text::to_decimal(evidence.hit_digests.len() as u64);
        return Err(
            text::cat4(
                "hit_count ",
                count.as_str(),
                " does not match hit_digests length ",
                len.as_str(),
            ),
        );
    }
    if let Some(d) = &evidence.capsule_digest {
        if env::is_blank(d.as_str()) {
            return Err("capsule_digest must be non-empty when set".to_string());
        }
    }
    Ok(())
}

/// Evidence as JSON, its fields in the order in which they are declared.
pub open spec fn evidence_json(e: MemoryEvidenceV1) -> Seq<char> {
    let fields = seq![
        canonical::field("version"@, text::decimal(e.version as nat)),
        canonical::field("query"@, canonical::json_quoted(e.query@)),
        canonical::field("hit_count"@, text::decimal(e.hit_count as nat)),
        canonical::field("hit_digests"@, canonical::texts_json(e.hit_digests@)),
        canonical::field("attestation"@, canonical::memory_mode_json(e.attestation)),
    ];
    canonical::object(
        match e.capsule_digest {
            Some(d) => fields.push(
                canonical::field("capsule_digest"@, canonical::json_quoted(d@)),
            ),
            None => fields,
        },
    )
}

/// Evidence of a recall that found these memories.
pub open spec fn is_evidence_of(
    e: MemoryEvidenceV1,
    query: Seq<char>,
    hits: Seq<Hit>,
    mode: MemoryAttestationMode,
) -> bool {
    &&& e.version == MemoryEvidenceV1::VERSION
    &&& e.query@ == query
    &&& e.hit_count == hits.len()
    &&& text::texts(e.hit_digests@) == Seq::new(hits.len(), |i: int| text_digest(hits[i].content))
    &&& e.attestation == mode
    &&& e.capsule_digest is None
}

impl MemoryEvidenceV1 {
    /// The version of the evidence.
    pub const VERSION: u8 = 1;

    /// Evidence of a recall.
    pub fn new(query: &str, hits: &Vec<MemoryHit>, attestation: MemoryAttestationMode) -> (r: Self)
        ensures
            is_evidence_of(r, query@, hits_view(hits@), attestation),
    {
        let mut digests: Vec<String> = Vec::new();
        let mut i: usize = 0;
        while i < hits.len()
            invariant
                i <= hits.len(),
                digests@.len() == i,
                forall|j: int|
                    0 <= j < i ==> (#[trigger] digests@[j])@ == text_digest(hits@[j].content@),
            decreases hits.len() - i,
        {
            digests.push(sha256_hex(hits[i].content.as_str().as_bytes()));
            i = i + 1;
        }
        assert(text::texts(digests@) =~= Seq::new(
            hits@.len(),
            |i: int| text_digest(hits_view(hits@)[i].content),
        ));
        MemoryEvidenceV1 {
            version: MemoryEvidenceV1::VERSION,
            query: query.to_string(),
            hit_count: hits.len(),
            hit_digests: digests,
            attestation,
            capsule_digest: None,
        }
    }

    /// The evidence, bound to a capsule.
    pub fn with_capsule_digest(self, capsule_digest: Option<String>) -> (r: Self)
        ensures
            r == (MemoryEvidenceV1 { capsule_digest, ..self }),
    {
        let mut e = self;
        e.capsule_digest = capsule_digest;
        e
    }

    /// The evidence as JSON.
    pub fn to_json(&self) -> (r: String)
        ensures
            r@ == evidence_json(*self),
    {
        let mut fields: Vec<String> = Vec::new();
        fields.push(canonical::field_text("version", text::to_decimal(self.version as u64)));
        fields.push(canonical::field_text("query", canonical::quote(self.query.as_str())));
        fields.push(canonical::field_text("hit_count", text::to_decimal(self.hit_count as u64)));
        fields.push(canonical::field_text("hit_digests", canonical::list_text(&self.hit_digests)));
        fields.push(
            canonical::field_text("attestation", canonical::memory_mode_text(self.attestation)),
        );
        let ghost base = text::texts(fields@);
        assert(base =~= seq![
            canonical::field("version"@, text::decimal(self.version as nat)),
            canonical::field("query"@, canonical::json_quoted(self.query@)),
            canonical::field("hit_count"@, text::decimal(self.hit_count as nat)),
            canonical::field("hit_digests"@, canonical::texts_json(self.hit_digests@)),
            canonical::field("attestation"@, canonical::memory_mode_json(self.attestation)),
        ]);
        if let Some(d) = &self.capsule_digest {
            let f = canonical::field_text("capsule_digest", canonical::quote(d.as_str()));
            let ghost fv = f@;
            fields.push(f);
            assert(text::texts(fields@) =~= base.push(fv));
        }
        canonical::object_text(&fields)
    }

    /// The digest of the evidence.
    pub fn evidence_digest(&self) -> (r: Option<String>)
        ensures
            r is Some,
            r->0@ == text_digest(evidence_json(*self)),
    {
        let json = self.to_json();
        Some(sha256_hex(json.as_str().as_bytes()))
    }

    /// Judges the evidence.
    pub fn validate(&self) -> (r: Result<(), String>)
        ensures
            match r {
                Ok(_) => evidence_fault(*self) is None,
                Err(e) => evidence_fault(*self) == Some(e@),
            },
    {
        validate_memory_evidence_v1(self)
    }
}

/// What was recalled, with the evidence of it.
#[derive(Debug, Clone, PartialEq, Eq)]
pub struct MemoryRecallEvidence {
    pub hits: Vec<MemoryHit>,
    pub evidence: MemoryEvidenceV1,
}

/// Whether `r` is what a search recalls, with the evidence of it.
pub open spec fn is_recalled(
    client: Option<AeonMemoryClient>,
    query: Seq<char>,
    reply: Option<(u16, Option<Vec<SearchHit>>)>,
    r: MemoryRecallEvidence,
) -> bool {
    match client {
        None => r.hits@.len() == 0 && is_evidence_of(
            r.evidence,
            query,
            Seq::empty(),
            MemoryAttestationMode::Absent,
        ),
        Some(c) => {
            let found = search_result(
                text::opt_text(c.management_key),
                endpoint_url(c.base_url@ + "/"@, search_path()),
                reply,
            );
            &&& hits_view(r.hits@) == found.0
            &&& is_evidence_of(r.evidence, query, found.0, found.1)
        },
    }
}

/// Recalls memories, with evidence. Without a client nothing is recalled.
pub fn recall_memory_evidence_v1(
    client: Option<&AeonMemoryClient>,
    query: &str,
    reply: &Option<(u16, Option<Vec<SearchHit>>)>,
) -> (r: MemoryRecallEvidence)
    ensures
        is_recalled(
            match client {
                Some(c) => Some(*c),
                None => None,
            },
            query@,
            *reply,
            r,
        ),
{
    match client {
        None => {
            let hits: Vec<MemoryHit> = Vec::new();
            let evidence = MemoryEvidenceV1::new(query, &hits, MemoryAttestationMode::Absent);
            assert(hits_view(hits@) =~= Seq::<Hit>::empty());
            MemoryRecallEvidence { hits, evidence }
        },
        Some(c) => {
            let outcome = c.search_with_status(reply);
            let evidence = MemoryEvidenceV1::new(query, &outcome.hits, outcome.attestation);
            MemoryRecallEvidence { hits: outcome.hits, evidence }
        },
    }
}

/// What was recalled, as evidence that the service can check, and how it is
/// attested.
pub open spec fn evidence_bound(
    keyed: bool,
    hits: nat,
    bound: Option<MemoryEvidenceRef>,
) -> (Option<MemoryEvidenceRef>, MemoryAttestationMode) {
    if !keyed {
        (None, MemoryAttestationMode::Absent)
    } else if bound is None {
        (None, MemoryAttestationMode::Degraded)
    } else {
        (
            bound,
            if hits == 0 {
                MemoryAttestationMode::AttestedNoHit
            } else {
                MemoryAttestationMode::AttestedWithRecall
            },
        )
    }
}

/// Binds what was recalled into evidence that the service can check. `bound` is
/// the evidence under the configured key, and none where it could not be made.
/// Without a key there is no evidence: no other key is ever used.
pub fn build_memory_evidence_ref(
    config: &AeonConfig,
    hits: &Vec<MemoryHit>,
    bound: Option<MemoryEvidenceRef>,
) -> (r: (Option<MemoryEvidenceRef>, MemoryAttestationMode))
    ensures
        r == evidence_bound(config.hmac_key is Some, hits@.len(), bound),
{
    if config.hmac_key.is_none() {
        return (None, MemoryAttestationMode::Absent);
    }
    match bound {
        None => (None, MemoryAttestationMode::Degraded),
        Some(e) => {
            let mode = if hits.len() == 0 {
                MemoryAttestationMode::AttestedNoHit
            } else {
                MemoryAttestationMode::AttestedWithRecall
            };
            (Some(e), mode)
        },
    }
}

/// Memories are reported only with an attested recall: whatever goes wrong, an
/// outcome that is not attested is empty.
pub proof fn lemma_fails_open(
    key: Option<Seq<char>>,
    url: Option<Seq<char>>,
    reply: Option<(u16, Option<Vec<SearchHit>>)>,
)
    ensures
        ({
            let r = search_result(key, url, reply);
            &&& r.0.len() > 0 <==> r.1 == MemoryAttestationMode::AttestedWithRecall
            &&& r.1 == MemoryAttestationMode::Absent <==> key is None
        }),
{
}

/// Fresh evidence is valid, and stays so when it is bound to a capsule whose
/// digest is not blank.
pub proof fn lemma_fresh_evidence_is_valid(
    e: MemoryEvidenceV1,
    query: Seq<char>,
    hits: Seq<Hit>,
    mode: MemoryAttestationMode,
    capsule: Option<String>,
)
    requires
        is_evidence_of(e, query, hits, mode),
        capsule is Some ==> !env::blank(capsule->0@),
    ensures
        evidence_fault(e) is None,
        evidence_fault((MemoryEvidenceV1 { capsule_digest: capsule, ..e })) is None,
{
    assert(text::texts(e.hit_digests@).len() == hits.len());
}

/// A memory is shown as it was found: under its identifier, with its words, and
/// with the first measure of how well it fits that there is.
pub proof fn lemma_hits_are_taken_as_found(h: SearchHit)
    ensures
        h.id matches Some(t) ==> hit_of(h).id == t@,
        h.content matches Some(t) ==> hit_of(h).content == t@,
        h.id is None ==> hit_of(h).id.len() == 0,
        h.content is None ==> hit_of(h).content.len() == 0,
        h.score is Some ==> hit_of(h).score == h.score,
        h.score is None && h.distance is Some ==> hit_of(h).score == h.distance,
        h.score is None && h.distance is None ==> hit_of(h).score == h.similarity,
{
}

/// Memory is searched only where it is configured whole: switched on, with an
/// address, an agent and a key.
pub proof fn lemma_memory_needs_all_its_settings(c: config::Aeon)
    ensures
        usable(c) <==> c.enabled && text::trimmed(c.base_url).len() > 0 && text::trimmed(
            c.agent_id,
        ).len() > 0 && c.management_key is Some && text::trimmed(c.management_key->0).len() > 0,
{
}

/// What a search comes to: without a key nothing was searched; without an
/// address or a good answer the search failed and says so; a good answer gives
/// each of its hits, in their order, and is attested with or without one.
pub proof fn lemma_searches_tell_what_they_found(
    key: Option<Seq<char>>,
    url: Option<Seq<char>>,
    reply: Option<(u16, Option<Vec<SearchHit>>)>,
    i: int,
)
    ensures
        ({
            let r = search_result(key, url, reply);
            let good = key is Some && url is Some && reply is Some && 200 <= (reply->0).0 <= 299
                && (reply->0).1 is Some;
            &&& !good ==> r.0.len() == 0
            &&& key is None <==> r.1 == MemoryAttestationMode::Absent
            &&& key is Some && !good <==> r.1 == MemoryAttestationMode::Degraded
            &&& good ==> r.0.len() == (reply->0).1->0@.len()
            &&& good && 0 <= i < r.0.len() ==> r.0[i] == hit_of((reply->0).1->0@[i])
            &&& r.1 == MemoryAttestationMode::AttestedWithRecall <==> r.0.len() > 0
            &&& good && r.0.len() == 0 ==> r.1 == MemoryAttestationMode::AttestedNoHit
        }),
{
}

/// Memories are found at one place and stored at another, which names the agent.
pub proof fn lemma_memory_paths(agent: Seq<char>, other: Seq<char>)
    ensures
        search_path() != store_path(agent),
        store_path(agent) == store_path(other) ==> agent == other,
        store_path(agent).contains(agent),
        search_path().last() == "search"@ && store_path(agent).last() == "memories"@,
        search_path().take(2) == store_path(agent).take(2),
{
    assert(search_path().len() != store_path(agent).len());
    assert(store_path(agent)[3] == agent);
    assert(store_path(other)[3] == other);
}

/// Nothing is asked of the service without both an address and a key, and what
/// is asked is asked there and with that.
pub proof fn lemma_targets_have_address_and_key(key: Option<Seq<char>>, url: Option<Seq<char>>)
    ensures
        target_of(key, url) is Some <==> key is Some && url is Some,
        target_of(key, url) matches Some(t) ==> t.0 == url->0 && t.1 == key->0,
{
}

/// A stored memory is known by the first identifier that the answer gives, if
/// that one can be read.
pub proof fn lemma_stored_memories_are_known(
    root: Option<Seq<char>>,
    id: Option<Seq<char>>,
    other: Option<Seq<char>>,
)
    ensures
        root matches Some(t) ==> memory_id(root, id, other) == memory_id(Some(t), None, None),
        root is None && id is Some ==> memory_id(root, id, other) == memory_id(id, None, None),
        root is None && id is None && other is None ==> memory_id(root, id, other) is None,
        root matches Some(t) ==> (memory_id(root, id, other) is Some <==> ids::uuid_reading(t)
            is Ok),
{
}

/// Evidence is sound exactly if it is of this version, counts its digests right,
/// and names no empty capsule.
pub proof fn lemma_sound_evidence(e: MemoryEvidenceV1)
    ensures
        evidence_fault(e) is None <==> e.version == 1 && e.hit_count == e.hit_digests@.len() && (
        e.capsule_digest is Some ==> text::trimmed(e.capsule_digest->0@).len() > 0),
{
}

/// Evidence of a search tells the question, how many memories were found, and
/// each of them by the digest of its words; nothing of their words.
pub proof fn lemma_evidence_tells_the_search(
    e: MemoryEvidenceV1,
    query: Seq<char>,
    hits: Seq<Hit>,
    mode: MemoryAttestationMode,
    i: int,
)
    requires
        is_evidence_of(e, query, hits, mode),
        0 <= i < hits.len(),
    ensures
        e.query@ == query && e.hit_count == hits.len() && e.hit_digests@.len() == hits.len(),
        e.hit_digests@[i]@ == text::hex_of(
            digest::sha256_of(vstd::utf8::encode_utf8(hits[i].content)),
        ),
        e.attestation == mode && e.capsule_digest is None,
{
    assert(text::texts(e.hit_digests@).len() == e.hit_digests@.len());
    assert(text::texts(e.hit_digests@)[i] == e.hit_digests@[i]@);
}

/// What is digested of evidence is all of it: the question, the count, the
/// digests and how it was attested, each under its own key.
pub proof fn lemma_evidence_is_digested_whole(e: MemoryEvidenceV1)
    ensures
        text::has_text(
            evidence_json(e),
            canonical::field("query"@, canonical::json_quoted(e.query@)),
        ),
        text::has_text(
            evidence_json(e),
            canonical::field("hit_count"@, text::decimal(e.hit_count as nat)),
        ),
        text::has_text(
            evidence_json(e),
            canonical::field("hit_digests"@, canonical::texts_json(e.hit_digests@)),
        ),
        text::has_text(
            evidence_json(e),
            canonical::field("attestation"@, canonical::memory_mode_json(e.attestation)),
        ),
        text::has_text(
            evidence_json(e),
            canonical::field("version"@, text::decimal(e.version as nat)),
        ),
        e.capsule_digest matches Some(d) ==> text::has_text(
            evidence_json(e),
            canonical::field("capsule_digest"@, canonical::json_quoted(d@)),
        ),
{
    let fields = seq![
        canonical::field("version"@, text::decimal(e.version as nat)),
        canonical::field("query"@, canonical::json_quoted(e.query@)),
        canonical::field("hit_count"@, text::decimal(e.hit_count as nat)),
        canonical::field("hit_digests"@, canonical::texts_json(e.hit_digests@)),
        canonical::field("attestation"@, canonical::memory_mode_json(e.attestation)),
    ];
    let all = match e.capsule_digest {
        Some(d) => fields.push(canonical::field("capsule_digest"@, canonical::json_quoted(d@))),
        None => fields,
    };
    canonical::lemma_object_holds(all);
    assert(all[0] == fields[0]);
    assert(all[1] == fields[1]);
    assert(all[2] == fields[2]);
    assert(all[3] == fields[3]);
    assert(all[4] == fields[4]);
    if e.capsule_digest is Some {
        assert(all[5] == canonical::field(
            "capsule_digest"@,
            canonical::json_quoted(e.capsule_digest->0@),
        ));
    }
}

/// Evidence is of what was recalled: it counts the memories, holds the digest of
/// the words of each, and says how the search went; without a client nothing was
/// searched.
pub proof fn lemma_recalls_are_evidenced(
    client: Option<AeonMemoryClient>,
    query: Seq<char>,
    reply: Option<(u16, Option<Vec<SearchHit>>)>,
    r: MemoryRecallEvidence,
    i: int,
)
    requires
        is_recalled(client, query, reply, r),
    ensures
        r.evidence.query@ == query,
        r.evidence.hit_count == r.hits@.len() && r.evidence.hit_digests@.len() == r.hits@.len(),
        0 <= i < r.hits@.len() ==> r.evidence.hit_digests@[i]@ == text_digest(r.hits@[i].content@),
        client is None ==> r.hits@.len() == 0 && r.evidence.attestation
            == MemoryAttestationMode::Absent,
        r.hits@.len() > 0 <==> r.evidence.attestation == MemoryAttestationMode::AttestedWithRecall,
        (client matches Some(c) && c.management_key is None) ==> r.hits@.len() == 0
            && r.evidence.attestation == MemoryAttestationMode::Absent,
{
    let digests = text::texts(r.evidence.hit_digests@);
    assert(digests.len() == r.evidence.hit_digests@.len());
    assert(hits_view(r.hits@).len() == r.hits@.len());
    if 0 <= i < r.hits@.len() {
        assert(digests[i] == r.evidence.hit_digests@[i]@);
        assert(hits_view(r.hits@)[i] == r.hits@[i]@);
    }
}

/// Without a key nothing is bound, and what could not be bound is told as that;
/// what was bound is handed on as it is, attested with or without a hit.
pub proof fn lemma_evidence_needs_a_key(keyed: bool, hits: nat, bound: Option<MemoryEvidenceRef>)
    ensures
        evidence_bound(keyed, hits, bound).0 is Some <==> keyed && bound is Some,
        keyed && bound is Some ==> evidence_bound(keyed, hits, bound).0 == bound,
        !keyed <==> evidence_bound(keyed, hits, bound).1 == MemoryAttestationMode::Absent,
        keyed && bound is None <==> evidence_bound(keyed, hits, bound).1
            == MemoryAttestationMode::Degraded,
        evidence_bound(keyed, hits, bound).1 == MemoryAttestationMode::AttestedWithRecall <==> keyed
            && bound is Some && hits > 0,
{
}

} // verus!
