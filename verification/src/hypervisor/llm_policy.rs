//! Asking a language model how to recover. What goes into a prompt is cleaned
//! and cut to size first, and how often a model is asked is limited.

use crate::aeon::config;
use crate::aeon::config::AeonConfig;
use crate::attestation::canonical;
use crate::hypervisor::failure_mode::FailureMode;
use crate::hypervisor::recovery::{Ratio, RecoveryAction, RecoverySource};
use crate::json;
use crate::text;
use vstd::prelude::*;
use vstd::string::*;

verus! {

/// Which model is asked.
#[derive(Debug, Clone, PartialEq, Eq)]
pub enum LlmProvider {
    Openai { api_key: String, model: String, endpoint: String },
    Anthropic { api_key: String, model: String, endpoint: String },
}

/// What asking may cost.
#[derive(Debug, Clone, Copy, PartialEq, Eq, Structural)]
pub struct LlmBudget {
    pub max_calls_per_minute: u32,
    /// How much of a description goes into a prompt, in characters.
    pub max_input_chars: usize,
    pub timeout_ms: u64,
}

impl Default for LlmBudget {
    fn default() -> (r: Self)
        ensures
            r == (LlmBudget {
                max_calls_per_minute: 30,
                max_input_chars: 2048,
                timeout_ms: 3_000,
            }),
    {
        LlmBudget { max_calls_per_minute: 30, max_input_chars: 2048, timeout_ms: 3_000 }
    }
}

/// A policy that asks a model. Times are held as milliseconds since the epoch.
#[derive(Clone, PartialEq, Eq)]
pub struct LLMPolicy {
    pub provider: LlmProvider,
    pub budget: LlmBudget,
    pub window_start_ms: u64,
    pub count: u64,
    pub aeon: Option<AeonConfig>,
}

/// How long a window of the call limit is, in milliseconds.
pub const WINDOW_MS: u64 = 60_000;

/// The words that begin an attempt to take a prompt over, in lower case.
pub open spec fn injection_markers() -> Seq<Seq<char>> {
    seq![
        "ignore previous"@,
        "ignore the above"@,
        "disregard prior"@,
        "you are now"@,
        "system:"@,
        "<|im_start|>"@,
        "</prompt>"@,
        "[inst]"@,
        "<<sys>>"@,
    ]
}

/// Whether a text in lower case holds one of those words.
pub open spec fn looks_injected(lowered: Seq<char>) -> bool {
    exists|i: int|
        0 <= i < injection_markers().len() && text::has_text(
            lowered,
            #[trigger] injection_markers()[i],
        )
}

/// Whether a text, given in lower case, holds a word that begins an attempt to
/// take a prompt over.
pub fn has_injection_marker(lowered: &str) -> (r: bool)
    ensures
        r == looks_injected(lowered@),
{
    let m0 = text::contains_text(lowered, "ignore previous");
    let m1 = text::contains_text(lowered, "ignore the above");
    let m2 = text::contains_text(lowered, "disregard prior");
    let m3 = text::contains_text(lowered, "you are now");
    let m4 = text::contains_text(lowered, "system:");
    let m5 = text::contains_text(lowered, "<|im_start|>");
    let m6 = text::contains_text(lowered, "</prompt>");
    let m7 = text::contains_text(lowered, "[inst]");
    let m8 = text::contains_text(lowered, "<<sys>>");
    proof {
        let m = injection_markers();
        assert(m0 == text::has_text(lowered@, m[0]));
        assert(m1 == text::has_text(lowered@, m[1]));
        assert(m2 == text::has_text(lowered@, m[2]));
        assert(m3 == text::has_text(lowered@, m[3]));
        assert(m4 == text::has_text(lowered@, m[4]));
        assert(m5 == text::has_text(lowered@, m[5]));
        assert(m6 == text::has_text(lowered@, m[6]));
        assert(m7 == text::has_text(lowered@, m[7]));
        assert(m8 == text::has_text(lowered@, m[8]));
    }
    m0 || m1 || m2 || m3 || m4 || m5 || m6 || m7 || m8
}

/// A text in lower case, by the rules of Unicode.
pub uninterp spec fn lowercased(s: Seq<char>) -> Seq<char>;

/// `str::to_lowercase`: the result depends on the text alone.
#[verifier::external_body]
fn to_lowercase(s: &str) -> (r: String)
    ensures
        r@ == lowercased(s@),
{
    s.to_lowercase()
}

/// A description as it goes into a prompt: without control characters but line
/// breaks and tabs, and cut to size.
pub open spec fn cleaned(raw: Seq<char>, max: nat) -> Seq<char> {
    text::first_chars(text::printable(raw), max)
}

/// A call limiter after one more call at `now`: the start of its window, the
/// calls in it, and whether the call may be made.
pub open spec fn rate_step(start: u64, count: u64, now: u64, max: u32) -> (u64, u64, bool) {
    let fresh = now >= start && now - start >= WINDOW_MS;
    let from = if fresh {
        now
    } else {
        start
    };
    let made: u64 = if fresh {
        0
    } else {
        count
    };
    (
        from,
        if made == u64::MAX {
            made
        } else {
            (made + 1) as u64
        },
        made < max,
    )
}

/// Where a request goes, and what stands above it.
#[derive(Debug, Clone, PartialEq, Eq)]
pub struct RecoveryRequest {
    pub url: String,
    /// The headers, each a name and a value.
    pub headers: Vec<(String, String)>,
    /// The body, as JSON.
    pub body: String,
}

/// A list of headers, by its contents.
pub open spec fn header_views(v: Seq<(String, String)>) -> Seq<(Seq<char>, Seq<char>)> {
    Seq::new(v.len(), |i: int| (v[i].0@, v[i].1@))
}

/// The configuration of the memory service, where it is in use.
pub open spec fn memory_in_use(aeon: Option<AeonConfig>) -> Option<config::Aeon> {
    match aeon {
        Some(c) => if c.enabled {
            Some(c@)
        } else {
            None
        },
        None => None,
    }
}

/// Where a chat request goes: to the memory service where that is in use.
pub open spec fn chat_url(aeon: Option<config::Aeon>, endpoint: Seq<char>) -> Seq<char> {
    match aeon {
        Some(c) => config::unslashed(c.base_url) + "/v1/chat/completions"@,
        None => endpoint,
    }
}

/// The headers of a chat request: who asks, and for the memory service whose
/// memory it is.
pub open spec fn chat_headers(aeon: Option<config::Aeon>, api_key: Seq<char>) -> Seq<
    (Seq<char>, Seq<char>),
> {
    let base = seq![("authorization"@, "Bearer "@ + api_key)];
    match aeon {
        None => base,
        Some(c) => {
            let named = base.push(("x-agent-id"@, c.agent_id));
            match c.session_id {
                Some(s) => named.push(("x-session-id"@, s)),
                None => named,
            }
        },
    }
}

fn push_header(headers: &mut Vec<(String, String)>, name: &str, value: String)
    ensures
        header_views(final(headers)@) == header_views(old(headers)@).push((name@, value@)),
{
    let ghost before = header_views(headers@);
    let ghost v = value@;
    headers.push((name.to_string(), value));
    assert(header_views(headers@) =~= before.push((name@, v)));
}

/// What a model is told about its part.
pub const SYSTEM_PROMPT: &'static str = "You are a sandbox-recovery advisor. Given a WASM failure mode and operation name, return at most 3 short, concrete recovery actions as a JSON array of strings. Do not include any other text. Each action should be specific to the failure type (e.g. for divide-by-zero, suggest a divisor guard).";

/// The question.
pub open spec fn prompt_text(
    description: Seq<char>,
    category: Seq<char>,
    operation: Seq<char>,
) -> Seq<char> {
    "Operation: "@ + operation + "\nFailure category: "@ + category + "\nFailure description: "@ + (
    description + "\n\nReturn JSON array."@)
}

/// The question about a failure.
pub fn build_prompt(sanitized: &str, mode: &FailureMode, operation: &str) -> (r: String)
    ensures
        r@ == prompt_text(sanitized@, mode@.category(), operation@),
{
    let category = mode.category();
    let tail = text::cat2(sanitized, "\n\nReturn JSON array.");
    let head = text::cat5(
        "Operation: ",
        operation,
        "\nFailure category: ",
        category,
        "\nFailure description: ",
    );
    text::cat2(head.as_str(), tail.as_str())
}

/// One message of a chat, as JSON.
pub open spec fn message_json(role: Seq<char>, content: Seq<char>) -> Seq<char> {
    canonical::object(
        seq![
            canonical::field("content"@, canonical::json_quoted(content)),
            canonical::field("role"@, canonical::json_quoted(role)),
        ],
    )
}

fn message_text(role: &str, content: &str) -> (r: String)
    ensures
        r@ == message_json(role@, content@),
{
    let mut fields: Vec<String> = Vec::new();
    fields.push(canonical::field_text("content", canonical::quote(content)));
    fields.push(canonical::field_text("role", canonical::quote(role)));
    assert(text::texts(fields@) =~= seq![
        canonical::field("content"@, canonical::json_quoted(content@)),
        canonical::field("role"@, canonical::json_quoted(role@)),
    ]);
    canonical::object_text(&fields)
}

/// The body of a chat request, as JSON.
pub open spec fn chat_json(model: Seq<char>, messages: Seq<Seq<char>>) -> Seq<char> {
    canonical::object(
        seq![
            canonical::field("max_tokens"@, "512"@),
            canonical::field("messages"@, canonical::list(messages)),
            canonical::field("model"@, canonical::json_quoted(model)),
        ],
    )
}

fn chat_text(model: &str, messages: &Vec<String>) -> (r: String)
    ensures
        r@ == chat_json(model@, text::texts(messages@)),
{
    let inner = text::join(messages, ",");
    let list = text::cat3("[", inner.as_str(), "]");
    let mut fields: Vec<String> = Vec::new();
    fields.push(canonical::field_text("max_tokens", "512".to_string()));
    fields.push(canonical::field_text("messages", list));
    fields.push(canonical::field_text("model", canonical::quote(model)));
    assert(text::texts(fields@) =~= seq![
        canonical::field("max_tokens"@, "512"@),
        canonical::field("messages"@, canonical::list(text::texts(messages@))),
        canonical::field("model"@, canonical::json_quoted(model@)),
    ]);
    canonical::object_text(&fields)
}

/// A request, by its contents.
pub struct Request {
    pub url: Seq<char>,
    pub headers: Seq<(Seq<char>, Seq<char>)>,
    pub body: Seq<char>,
}

impl View for RecoveryRequest {
    type V = Request;

    open spec fn view(&self) -> Request {
        Request { url: self.url@, headers: header_views(self.headers@), body: self.body@ }
    }
}

/// What is sent to ask a question.
pub open spec fn request_for(
    provider: LlmProvider,
    aeon: Option<config::Aeon>,
    prompt: Seq<char>,
) -> Request {
    match provider {
        LlmProvider::Openai { api_key, model, endpoint } => Request {
            url: chat_url(aeon, endpoint@),
            headers: chat_headers(aeon, api_key@),
            body: chat_json(
                model@,
                seq![message_json("system"@, SYSTEM_PROMPT@), message_json("user"@, prompt)],
            ),
        },
        LlmProvider::Anthropic { api_key, model, endpoint } => Request {
            url: endpoint@,
            headers: seq![("x-api-key"@, api_key@), ("anthropic-version"@, "2023-06-01"@)],
            body: chat_json(
                model@,
                seq![message_json("user"@, SYSTEM_PROMPT@ + "\n\n"@ + prompt)],
            ),
        },
    }
}

/// What a model's answer comes to, given its text, when `listed` is the list of
/// texts that the answer holds: none where it holds no such list.
pub open spec fn actions_are(actions: Seq<RecoveryAction>, listed: Seq<Seq<char>>) -> bool {
    &&& actions.len() == listed.len()
    &&& forall|i: int|
        0 <= i < actions.len() ==> {
            &&& (#[trigger] actions[i]).description@ == listed[i]
            &&& actions[i].confidence == Ratio { num: 3, den: 5 }
            &&& actions[i].source == RecoverySource::Llm
            &&& !actions[i].non_retryable
            &&& actions[i].instinct_id is None
        }
}

/// The text of an answer, in either of its two shapes.
pub open spec fn answer_text(body: Seq<char>) -> Option<Seq<char>> {
    match json::first_item_text(body, "choices"@, "/message/content"@) {
        Some(t) => Some(t),
        None => json::first_item_text(body, "content"@, "/text"@),
    }
}

/// The actions that an answer lists; none where it cannot be read.
pub open spec fn listed_actions(body: Seq<char>) -> Seq<Seq<char>> {
    match answer_text(body) {
        None => Seq::empty(),
        Some(t) => match json::text_list(t) {
            Ok(v) => v,
            Err(_) => Seq::empty(),
        },
    }
}

/// The actions that stand for these texts.
pub fn actions_from(listed: Vec<String>) -> (r: Vec<RecoveryAction>)
    ensures
        actions_are(r@, text::texts(listed@)),
{
    let mut out: Vec<RecoveryAction> = Vec::new();
    let mut i: usize = 0;
    while i < listed.len()
        invariant
            i <= listed.len(),
            actions_are(out@, text::texts(listed@).take(i as int)),
        decreases listed.len() - i,
    {
        let ghost before = out@;
        let action = RecoveryAction {
            description: listed[i].clone(),
            confidence: Ratio { num: 3, den: 5 },
            source: RecoverySource::Llm,
            non_retryable: false,
            instinct_id: None,
        };
        out.push(action);
        proof {
            let now = text::texts(listed@).take(i + 1);
            assert forall|k: int| 0 <= k < out@.len() implies {
                &&& (#[trigger] out@[k]).description@ == now[k]
                &&& out@[k].confidence == Ratio { num: 3, den: 5 }
                &&& out@[k].source == RecoverySource::Llm
                &&& !out@[k].non_retryable
                &&& out@[k].instinct_id is None
            } by {
                if k < i {
                    assert(out@[k] == before[k]);
                    assert(before[k].description@ == text::texts(listed@).take(i as int)[k]);
                }
            }
        }
        i = i + 1;
    }
    assert(text::texts(listed@).take(listed.len() as int) =~= text::texts(listed@));
    out
}

/// The actions that an answer proposes.
pub fn extract_recovery_actions(body: &str) -> (r: Vec<RecoveryAction>)
    ensures
        actions_are(r@, listed_actions(body@)),
{
    let answer: Option<String> = match json::first_item_text_at(
        body,
        "choices",
        "/message/content",
    ) {
        Some(t) => Some(t),
        None => json::first_item_text_at(body, "content", "/text"),
    };
    let nothing: Vec<RecoveryAction> = Vec::new();
    match answer {
        None => nothing,
        Some(t) => match json::parse_text_list(t.as_str()) {
            Ok(v) => actions_from(v),
            Err(_) => nothing,
        },
    }
}

impl LLMPolicy {
    /// A policy whose first window starts at `now_ms`.
    pub fn new(provider: LlmProvider, budget: LlmBudget, now_ms: u64) -> (r: Self)
        ensures
            r == (LLMPolicy { provider, budget, window_start_ms: now_ms, count: 0, aeon: None }),
    {
        LLMPolicy { provider, budget, window_start_ms: now_ms, count: 0, aeon: None }
    }

    /// A policy that asks through the memory service, where that is enabled.
    pub fn new_with_aeon(
        provider: LlmProvider,
        budget: LlmBudget,
        aeon: AeonConfig,
        now_ms: u64,
    ) -> (r: Self)
        ensures
            r == (LLMPolicy {
                provider,
                budget,
                window_start_ms: now_ms,
                count: 0,
                aeon: Some(aeon),
            }),
    {
        LLMPolicy { provider, budget, window_start_ms: now_ms, count: 0, aeon: Some(aeon) }
    }

    /// A description as it goes into a prompt: cleaned, then cut to size, and
    /// refused where what is left looks like an attempt to take the prompt over.
    pub fn sanitize_for_prompt(&self, raw: &str) -> (r: Option<String>)
        ensures
            text::opt_text(r) == prompt_part(raw@, self.budget.max_input_chars as nat),
            r is Some ==> r->0@.len() <= self.budget.max_input_chars,
    {
        let printable = text::strip_control(raw);
        let cut = text::take_chars(printable.as_str(), self.budget.max_input_chars);
        let lowered = to_lowercase(cut.as_str());
        if has_injection_marker(lowered.as_str()) {
            None
        } else {
            Some(cut)
        }
    }

    /// Counts one more call, and says whether it may be made.
    pub fn rate_limit_check(&mut self, now_ms: u64) -> (r: bool)
        ensures
            *final(self) == (LLMPolicy {
                window_start_ms: final(self).window_start_ms,
                count: final(self).count,
                ..*old(self)
            }),
            (final(self).window_start_ms, final(self).count, r) == rate_step(
                old(self).window_start_ms,
                old(self).count,
                now_ms,
                old(self).budget.max_calls_per_minute,
            ),
    {
        if now_ms >= self.window_start_ms && now_ms - self.window_start_ms >= WINDOW_MS {
            self.window_start_ms = now_ms;
            self.count = 0;
        }
        let made: u64 = self.count;
        self.count = if made == u64::MAX {
            made
        } else {
            made + 1
        };
        made < self.budget.max_calls_per_minute as u64
    }

    /// Where a chat request goes, and under which headers.
    pub fn build_openai_recovery_request(
        &self,
        api_key: &str,
        endpoint: &str,
        body: String,
    ) -> (r: RecoveryRequest)
        ensures
            r@ == (Request {
                url: chat_url(memory_in_use(self.aeon), endpoint@),
                headers: chat_headers(memory_in_use(self.aeon), api_key@),
                body: body@,
            }),
    {
        let mut headers: Vec<(String, String)> = Vec::new();
        assert(header_views(headers@) =~= Seq::<(Seq<char>, Seq<char>)>::empty());
        push_header(&mut headers, "authorization", text::cat2("Bearer ", api_key));
        assert(header_views(headers@) =~= seq![("authorization"@, "Bearer "@ + api_key@)]);
        let mut url: String = endpoint.to_string();
        if let Some(c) = &self.aeon {
            if c.enabled {
                url = c.chat_completions_url();
                push_header(&mut headers, "x-agent-id", c.agent_id.clone());
                if let Some(s) = &c.session_id {
                    push_header(&mut headers, "x-session-id", s.clone());
                }
            }
        }
        RecoveryRequest { url, headers, body }
    }

    /// What is sent to ask a question.
    pub fn request(&self, prompt: &str) -> (r: RecoveryRequest)
        ensures
            r@ == request_for(self.provider, memory_in_use(self.aeon), prompt@),
    {
        match &self.provider {
            LlmProvider::Openai { api_key, model, endpoint } => {
                let mut messages: Vec<String> = Vec::new();
                messages.push(message_text("system", SYSTEM_PROMPT));
                messages.push(message_text("user", prompt));
                assert(text::texts(messages@) =~= seq![
                    message_json("system"@, SYSTEM_PROMPT@),
                    message_json("user"@, prompt@),
                ]);
                let body = chat_text(model.as_str(), &messages);
                self.build_openai_recovery_request(api_key.as_str(), endpoint.as_str(), body)
            },
            LlmProvider::Anthropic { api_key, model, endpoint } => {
                let mut headers: Vec<(String, String)> = Vec::new();
                assert(header_views(headers@) =~= Seq::<(Seq<char>, Seq<char>)>::empty());
                push_header(&mut headers, "x-api-key", api_key.clone());
                push_header(&mut headers, "anthropic-version", "2023-06-01".to_string());
                assert(header_views(headers@) =~= seq![
                    ("x-api-key"@, api_key@),
                    ("anthropic-version"@, "2023-06-01"@),
                ]);
                let whole = text::cat3(SYSTEM_PROMPT, "\n\n", prompt);
                let mut messages: Vec<String> = Vec::new();
                messages.push(message_text("user", whole.as_str()));
                assert(text::texts(messages@) =~= seq![
                    message_json("user"@, SYSTEM_PROMPT@ + "\n\n"@ + prompt@),
                ]);
                let body = chat_text(model.as_str(), &messages);
                RecoveryRequest { url: endpoint.clone(), headers, body }
            },
        }
    }

    /// What is sent to ask about a failure; nothing where the description is
    /// refused, or too much was asked already. A refused description costs no
    /// call.
    pub fn prepare_recovery(&mut self, mode: &FailureMode, operation: &str, now_ms: u64) -> (r:
        Option<RecoveryRequest>)
        ensures
            is_prepared(*old(self), *final(self), mode@, operation@, now_ms, r),
    {
        let description = mode.describe();
        let sanitized = match self.sanitize_for_prompt(description.as_str()) {
            Some(s) => s,
            None => {
                return None;
            },
        };
        if !self.rate_limit_check(now_ms) {
            return None;
        }
        let prompt = build_prompt(sanitized.as_str(), mode, operation);
        Some(self.request(prompt.as_str()))
    }
}

/// Whether `r` is what is sent to ask about a failure, and `after` the policy
/// then.
pub open spec fn is_prepared(
    before: LLMPolicy,
    after: LLMPolicy,
    failure: crate::hypervisor::failure_mode::Failure,
    operation: Seq<char>,
    now_ms: u64,
    r: Option<RecoveryRequest>,
) -> bool {
    let c = cleaned(failure.description(), before.budget.max_input_chars as nat);
    let step = rate_step(
        before.window_start_ms,
        before.count,
        now_ms,
        before.budget.max_calls_per_minute,
    );
    if looks_injected(lowercased(c)) {
        r is None && after == before
    } else {
        &&& after == (LLMPolicy { window_start_ms: step.0, count: step.1, ..before })
        &&& r is Some <==> step.2
        &&& r is Some ==> r->0@ == request_for(
            before.provider,
            memory_in_use(before.aeon),
            prompt_text(c, failure.category(), operation),
        )
    }
}

/// How many calls of a run are allowed, when the limiter starts at `start` with
/// `count` calls made.
pub open spec fn allowed_calls(start: u64, count: u64, times: Seq<u64>, max: u32) -> nat
    decreases times.len(),
{
    if times.len() == 0 {
        0
    } else {
        let step = rate_step(start, count, times[0], max);
        allowed_calls(step.0, step.1, times.skip(1), max) + (if step.2 {
            1nat
        } else {
            0nat
        })
    }
}

/// Within one window no more calls are allowed than the budget says, and none
/// fewer while there are calls to make.
pub proof fn lemma_window_budget(start: u64, count: u64, times: Seq<u64>, max: u32)
    requires
        forall|i: int| 0 <= i < times.len() ==> #[trigger] times[i] < start + WINDOW_MS,
    ensures
        allowed_calls(start, count, times, max) == (if count >= max {
            0
        } else if count + times.len() <= max {
            times.len()
        } else {
            (max - count) as nat
        }),
    decreases times.len(),
{
    if times.len() > 0 {
        let step = rate_step(start, count, times[0], max);
        assert(times[0] < start + WINDOW_MS);
        assert(step.0 == start);
        assert forall|i: int| 0 <= i < times.skip(1).len() implies #[trigger] times.skip(1)[i]
            < start + WINDOW_MS by {
            assert(times.skip(1)[i] == times[i + 1]);
        }
        lemma_window_budget(start, step.1, times.skip(1), max);
    }
}

/// What goes into a prompt has no control characters but line breaks and tabs,
/// and at most so many characters.
pub proof fn lemma_cleaned_is_safe(raw: Seq<char>, max: nat)
    ensures
        cleaned(raw, max).len() <= max,
        forall|i: int|
            0 <= i < cleaned(raw, max).len() ==> !text::control(#[trigger] cleaned(raw, max)[i])
                || cleaned(raw, max)[i] == '\n' || cleaned(raw, max)[i] == '\t',
{
    text::lemma_printable_is_clean(raw);
    let p = text::printable(raw);
    assert forall|i: int| 0 <= i < cleaned(raw, max).len() implies !text::control(
        #[trigger] cleaned(raw, max)[i],
    ) || cleaned(raw, max)[i] == '\n' || cleaned(raw, max)[i] == '\t' by {
        assert(cleaned(raw, max)[i] == p[i]);
    }
}

/// A description that holds any of the known markers, in small letters, looks
/// injected, wherever the marker stands in it.
pub proof fn lemma_markers_are_recognised(lowered: Seq<char>, m: Seq<char>)
    requires
        text::has_text(lowered, m),
        m == "ignore previous"@ || m == "ignore the above"@ || m == "disregard prior"@ || m
            == "you are now"@ || m == "system:"@ || m == "<|im_start|>"@ || m == "</prompt>"@ || m
            == "[inst]"@ || m == "<<sys>>"@,
    ensures
        looks_injected(lowered),
{
    let all = injection_markers();
    assert(all[0] == "ignore previous"@);
    assert(all[1] == "ignore the above"@);
    assert(all[2] == "disregard prior"@);
    assert(all[3] == "you are now"@);
    assert(all[4] == "system:"@);
    assert(all[5] == "<|im_start|>"@);
    assert(all[6] == "</prompt>"@);
    assert(all[7] == "[inst]"@);
    assert(all[8] == "<<sys>>"@);
}

/// Calls are counted minute by minute: within a minute of the first, a call is
/// allowed exactly while fewer than the limit were made, and every call counts.
/// A minute later a new count begins, with this call. A clock that runs back
/// does not begin a new one.
pub proof fn lemma_calls_are_counted_by_the_minute(start: u64, count: u64, now: u64, max: u32)
    ensures
        now < start + 60_000 ==> rate_step(start, count, now, max).0 == start && (rate_step(
            start,
            count,
            now,
            max,
        ).2 <==> count < max) && (count < u64::MAX ==> rate_step(start, count, now, max).1 == count
            + 1),
        now >= start + 60_000 ==> rate_step(start, count, now, max).0 == now && rate_step(
            start,
            count,
            now,
            max,
        ).1 == 1 && (rate_step(start, count, now, max).2 <==> max > 0),
{
}

/// Where a request goes and what it shows: the provider's address, or the memory
/// service's where one is in use; the key in the header that the provider
/// reads, and nowhere else among the headers; the agent and the session only to
/// the memory service.
pub proof fn lemma_requests_go_to_their_provider(
    provider: LlmProvider,
    aeon: Option<config::Aeon>,
    prompt: Seq<char>,
)
    ensures
        provider matches LlmProvider::Anthropic { api_key, endpoint, .. } ==> {
            let r = request_for(provider, aeon, prompt);
            &&& r.url == endpoint@
            &&& r.headers.contains(("x-api-key"@, api_key@))
            &&& r.headers.len() == 2
        },
        provider matches LlmProvider::Openai { api_key, endpoint, .. } ==> {
            let r = request_for(provider, aeon, prompt);
            &&& aeon is None ==> r.url == endpoint@ && r.headers.len() == 1
            &&& aeon is Some ==> text::starts(r.url, config::unslashed(aeon->0.base_url))
                && text::ends(r.url, "/v1/chat/completions"@)
            &&& r.headers.contains(("authorization"@, "Bearer "@ + api_key@))
            &&& aeon is Some ==> r.headers.contains(("x-agent-id"@, aeon->0.agent_id))
            &&& aeon is Some && aeon->0.session_id is Some ==> r.headers.contains(
                ("x-session-id"@, aeon->0.session_id->0),
            ) && r.headers.len() == 3
            &&& aeon is Some && aeon->0.session_id is None ==> r.headers.len() == 2
        },
{
    let r = request_for(provider, aeon, prompt);
    match provider {
        LlmProvider::Anthropic { api_key, .. } => {
            assert(r.headers[0] == ("x-api-key"@, api_key@));
        },
        LlmProvider::Openai { api_key, .. } => {
            assert(r.headers[0] == ("authorization"@, "Bearer "@ + api_key@));
            if aeon is Some {
                let base = config::unslashed(aeon->0.base_url);
                let tail = "/v1/chat/completions"@;
                assert(r.url.subrange(0, base.len() as int) =~= base);
                assert(r.url.subrange(r.url.len() - tail.len(), r.url.len() as int) =~= tail);
                assert(r.headers[1] == ("x-agent-id"@, aeon->0.agent_id));
                if aeon->0.session_id is Some {
                    assert(r.headers[2] == ("x-session-id"@, aeon->0.session_id->0));
                }
            }
        },
    }
}

/// What a request asks: the provider's model, the instructions, and the prompt
/// as the user's words.
pub proof fn lemma_requests_ask_the_prompt(
    provider: LlmProvider,
    aeon: Option<config::Aeon>,
    prompt: Seq<char>,
)
    ensures
        provider matches LlmProvider::Openai { model, .. } ==> {
            let r = request_for(provider, aeon, prompt);
            &&& text::has_text(r.body, canonical::field("model"@, canonical::json_quoted(model@)))
            &&& text::has_text(r.body, message_json("user"@, prompt))
            &&& text::has_text(r.body, message_json("system"@, SYSTEM_PROMPT@))
            &&& text::has_text(r.body, canonical::field("max_tokens"@, "512"@))
        },
        provider matches LlmProvider::Anthropic { model, .. } ==> {
            let r = request_for(provider, aeon, prompt);
            &&& text::has_text(r.body, canonical::field("model"@, canonical::json_quoted(model@)))
            &&& text::has_text(r.body, message_json("user"@, SYSTEM_PROMPT@ + "\n\n"@ + prompt))
            &&& text::has_text(r.body, canonical::field("max_tokens"@, "512"@))
        },
{
    match provider {
        LlmProvider::Openai { model, .. } => {
            let messages = seq![
                message_json("system"@, SYSTEM_PROMPT@),
                message_json("user"@, prompt),
            ];
            lemma_chat_holds(model@, messages, 0);
            lemma_chat_holds(model@, messages, 1);
        },
        LlmProvider::Anthropic { model, .. } => {
            let messages = seq![message_json("user"@, SYSTEM_PROMPT@ + "\n\n"@ + prompt)];
            lemma_chat_holds(model@, messages, 0);
        },
    }
}

proof fn lemma_chat_holds(model: Seq<char>, messages: Seq<Seq<char>>, i: int)
    requires
        0 <= i < messages.len(),
    ensures
        text::has_text(
            chat_json(model, messages),
            canonical::field("model"@, canonical::json_quoted(model)),
        ),
        text::has_text(chat_json(model, messages), messages[i]),
        text::has_text(chat_json(model, messages), canonical::field("max_tokens"@, "512"@)),
{
    let fields = seq![
        canonical::field("max_tokens"@, "512"@),
        canonical::field("messages"@, canonical::list(messages)),
        canonical::field("model"@, canonical::json_quoted(model)),
    ];
    let body = chat_json(model, messages);
    canonical::lemma_object_holds(fields);
    assert(fields[0] == canonical::field("max_tokens"@, "512"@));
    assert(fields[1] == canonical::field("messages"@, canonical::list(messages)));
    assert(fields[2] == canonical::field("model"@, canonical::json_quoted(model)));
    canonical::lemma_field_holds("messages"@, canonical::list(messages));
    text::lemma_held_through(body, fields[1], canonical::list(messages));
    text::lemma_joined_holds(messages, ","@, i);
    text::lemma_held_in_longer("["@, text::joined(messages, ","@), "]"@, messages[i]);
    text::lemma_held_through(body, canonical::list(messages), messages[i]);
}

/// A message says who speaks and what they say.
pub proof fn lemma_messages_tell_who_speaks(role: Seq<char>, content: Seq<char>)
    ensures
        text::has_text(
            message_json(role, content),
            canonical::field("role"@, canonical::json_quoted(role)),
        ),
        text::has_text(
            message_json(role, content),
            canonical::field("content"@, canonical::json_quoted(content)),
        ),
{
    let fields = seq![
        canonical::field("content"@, canonical::json_quoted(content)),
        canonical::field("role"@, canonical::json_quoted(role)),
    ];
    canonical::lemma_object_holds(fields);
    assert(fields[0] == canonical::field("content"@, canonical::json_quoted(content)));
    assert(fields[1] == canonical::field("role"@, canonical::json_quoted(role)));
}

/// A prompt names the operation, the category and the description, each behind
/// the words that introduce it.
pub proof fn lemma_prompts_name_the_failure(
    description: Seq<char>,
    category: Seq<char>,
    operation: Seq<char>,
)
    ensures
        text::starts(prompt_text(description, category, operation), "Operation: "@ + operation),
        text::has_text(
            prompt_text(description, category, operation),
            "Failure category: "@ + category,
        ),
        text::has_text(
            prompt_text(description, category, operation),
            "Failure description: "@ + description,
        ),
{
    let whole = prompt_text(description, category, operation);
    let head = "Operation: "@ + operation;
    assert(whole.subrange(0, head.len() as int) =~= head);
    assert("\nFailure category: "@ =~= "\n"@ + "Failure category: "@) by {
        reveal_strlit("\nFailure category: ");
        reveal_strlit("\n");
        reveal_strlit("Failure category: ");
    }
    assert("\nFailure description: "@ =~= "\n"@ + "Failure description: "@) by {
        reveal_strlit("\nFailure description: ");
        reveal_strlit("\n");
        reveal_strlit("Failure description: ");
    }
    lemma_inner_told(
        head,
        "Failure category: "@ + category,
        "\nFailure description: "@ + (description + "\n\nReturn JSON array."@),
    );
    assert(whole =~= head + ("\n"@ + ("Failure category: "@ + category)) + (
    "\nFailure description: "@ + (description + "\n\nReturn JSON array."@)));
    lemma_inner_told(
        head + "\nFailure category: "@ + category,
        "Failure description: "@ + description,
        "\n\nReturn JSON array."@,
    );
    assert(whole =~= (head + "\nFailure category: "@ + category) + ("\n"@ + (
    "Failure description: "@ + description)) + "\n\nReturn JSON array."@);
}

proof fn lemma_inner_told(before: Seq<char>, part: Seq<char>, after: Seq<char>)
    ensures
        text::has_text(before + ("\n"@ + part) + after, part),
{
    text::lemma_part_is_held(before + "\n"@, part, after);
    assert(before + ("\n"@ + part) + after =~= before + "\n"@ + part + after);
}

/// A model is asked only about a description without a marker, and only within
/// the budget of the minute; what looks injected is not asked and costs no call.
/// The question names the operation and the category of the failure.
pub proof fn lemma_models_are_asked_within_budget(
    before: LLMPolicy,
    after: LLMPolicy,
    failure: crate::hypervisor::failure_mode::Failure,
    operation: Seq<char>,
    now_ms: u64,
    r: Option<RecoveryRequest>,
)
    requires
        is_prepared(before, after, failure, operation, now_ms, r),
    ensures
        r is Some ==> !looks_injected(
            lowercased(cleaned(failure.description(), before.budget.max_input_chars as nat)),
        ),
        r is Some && now_ms < before.window_start_ms + 60_000 ==> before.count
            < before.budget.max_calls_per_minute,
        r is Some && before.count < u64::MAX && now_ms < before.window_start_ms + 60_000
            ==> after.count == before.count + 1,
        looks_injected(
            lowercased(cleaned(failure.description(), before.budget.max_input_chars as nat)),
        ) ==> after == before,
        after.provider == before.provider && after.budget == before.budget && after.aeon
            == before.aeon,
        r is Some ==> r->0@ == request_for(
            before.provider,
            memory_in_use(before.aeon),
            prompt_text(
                cleaned(failure.description(), before.budget.max_input_chars as nat),
                failure.category(),
                operation,
            ),
        ),
{
}

/// A description as it goes into a prompt; none where it is refused.
pub open spec fn prompt_part(raw: Seq<char>, max: nat) -> Option<Seq<char>> {
    let c = cleaned(raw, max);
    if looks_injected(lowercased(c)) {
        None
    } else {
        Some(c)
    }
}

/// What goes into a prompt begins what was said, but for control characters, and
/// a short plain description goes in as it is. It is refused exactly if what
/// would go in, in small letters, holds a marker: so nothing that goes in does.
pub proof fn lemma_prompts_hold_what_was_said(raw: Seq<char>, max: nat, m: Seq<char>)
    requires
        injection_markers().contains(m),
    ensures
        prompt_part(raw, max) matches Some(c) ==> c.len() <= max && c.is_prefix_of(
            text::printable(raw),
        ) && !text::has_text(lowercased(c), m),
        (forall|i: int| 0 <= i < raw.len() ==> !text::control(#[trigger] raw[i])) && raw.len()
            <= max && !looks_injected(lowercased(raw)) ==> prompt_part(raw, max) == Some(raw),
        (forall|i: int| 0 <= i < raw.len() ==> !text::control(#[trigger] raw[i])) && raw.len()
            <= max && text::has_text(lowercased(raw), m) ==> prompt_part(raw, max) is None,
{
    text::lemma_plain_text_is_printed(raw, Seq::empty());
    text::lemma_first_chars_begin_the_text(text::printable(raw), max);
    let k = choose|k: int| 0 <= k < injection_markers().len() && injection_markers()[k] == m;
    assert(injection_markers()[k] == m);
}

} // verus!
