//! Telling the memory service what happened: at once, with retries, or later,
//! from a spool.

use crate::aeon::config;
use crate::aeon::config::AeonConfig;
use crate::aeon::memory;
use crate::aeon::memory::AeonMemoryClient;
use crate::attestation::canonical;
use crate::daemon::NexusExecutionEvent;
use crate::env;
use crate::paths;
use crate::text;
use vstd::prelude::*;
use vstd::string::*;

verus! {

/// How often an event is posted before it is given up.
pub const TIMELINE_MAX_ATTEMPTS: usize = 3;

/// How a delivery went.
#[derive(Debug, Clone, Copy, PartialEq, Eq, Structural)]
pub enum TimelineDeliveryStatus {
    /// Put aside for later; nothing is promised.
    FireAndForget,
    /// Everything was delivered.
    Delivered,
    /// Something was not delivered, and nothing depends on it.
    FailedOpen,
    /// Something was not delivered that should have been.
    RequiredButFailed,
}

/// How much a delivery matters.
#[derive(Debug, Clone, Copy, PartialEq, Eq, Structural)]
pub enum TimelineDeliveryMode {
    /// Failures are noted.
    Advisory,
    /// Failures are reported as such.
    Attested,
    /// Nothing is sent now.
    Offline,
}

/// The mode that a word stands for. What is not known is advisory.
pub open spec fn mode_of(value: Option<Seq<char>>) -> TimelineDeliveryMode {
    match value {
        None => TimelineDeliveryMode::Advisory,
        Some(v) => {
            let w = text::ascii_lowered(text::trimmed(v));
            if w == "attested"@ || w == "required"@ {
                TimelineDeliveryMode::Attested
            } else if w == "offline"@ || w == "spool"@ {
                TimelineDeliveryMode::Offline
            } else {
                TimelineDeliveryMode::Advisory
            }
        },
    }
}

impl TimelineDeliveryMode {
    /// The mode that a word stands for.
    pub fn parse(value: Option<&str>) -> (r: Self)
        ensures
            r == mode_of(crate::daemon::slice_text(value)),
    {
        match value {
            None => TimelineDeliveryMode::Advisory,
            Some(v) => {
                let trimmed = text::trim(v);
                let w = text::ascii_lowercase(trimmed.as_str());
                if text::same_text(w.as_str(), "attested") || text::same_text(
                    w.as_str(),
                    "required",
                ) {
                    TimelineDeliveryMode::Attested
                } else if text::same_text(w.as_str(), "offline") || text::same_text(
                    w.as_str(),
                    "spool",
                ) {
                    TimelineDeliveryMode::Offline
                } else {
                    TimelineDeliveryMode::Advisory
                }
            },
        }
    }
}

/// What a replay of the spool came to.
#[derive(Debug, Clone, Copy, PartialEq, Eq, Structural)]
pub struct TimelineReplayReport {
    pub delivered: usize,
    pub failed: usize,
    pub skipped: usize,
}

impl Default for TimelineReplayReport {
    fn default() -> (r: Self)
        ensures
            r == (TimelineReplayReport { delivered: 0, failed: 0, skipped: 0 }),
    {
        TimelineReplayReport { delivered: 0, failed: 0, skipped: 0 }
    }
}

/// Where events go.
#[derive(Clone, PartialEq, Eq)]
pub struct AeonTimelineSink {
    pub base_url: String,
    pub management_key: Option<String>,
    pub mode: TimelineDeliveryMode,
    pub spool_path: String,
}

/// The file that the spool is kept in.
pub const SPOOL_FILE: &'static str = "nexus-aeon-timeline-events.jsonl";

/// The spool: a file below the chosen directory, or below the one for temporary
/// files where none is chosen.
pub open spec fn spool_path_of(chosen: Option<Seq<char>>, temp_dir: Seq<char>) -> Seq<char> {
    paths::joined_path(
        match chosen {
            Some(dir) => dir,
            None => temp_dir,
        },
        SPOOL_FILE@,
    )
}

/// The spool, given the directory that its variable names and where temporary
/// files go.
pub fn default_timeline_spool_path(chosen: Option<&str>, temp_dir: &str) -> (r: String)
    ensures
        r@ == spool_path_of(crate::daemon::slice_text(chosen), temp_dir@),
{
    match chosen {
        Some(dir) => paths::join_path(dir, SPOOL_FILE),
        None => paths::join_path(temp_dir, SPOOL_FILE),
    }
}

/// What is to be done with events.
#[derive(Debug, Clone, Copy, PartialEq, Eq, Structural)]
pub enum DeliveryPlan {
    /// There is nothing to do.
    Nothing,
    /// Append each to the spool.
    Spool,
    /// Post each.
    Post,
}

/// How a delivery went, when `spooled` says whether the spool took the events
/// and `posted` says of each event whether it was posted.
pub open spec fn delivery_status(
    mode: TimelineDeliveryMode,
    count: nat,
    spooled: bool,
    posted: Seq<bool>,
) -> TimelineDeliveryStatus {
    if count == 0 {
        TimelineDeliveryStatus::Delivered
    } else if mode == TimelineDeliveryMode::Offline {
        if spooled {
            TimelineDeliveryStatus::FireAndForget
        } else {
            TimelineDeliveryStatus::FailedOpen
        }
    } else if !posted.contains(false) {
        TimelineDeliveryStatus::Delivered
    } else if mode == TimelineDeliveryMode::Attested {
        TimelineDeliveryStatus::RequiredButFailed
    } else {
        TimelineDeliveryStatus::FailedOpen
    }
}

/// The path of an agent's timeline.
pub open spec fn timeline_path(agent: Seq<char>) -> Seq<Seq<char>> {
    seq!["api"@, "v1"@, "agents"@, agent, "timeline"@]
}

impl AeonTimelineSink {
    /// The sink of a client, with the spool at `spool_path`.
    pub fn from_memory_client(client: &AeonMemoryClient, spool_path: String) -> (r: Self)
        ensures
            r.base_url@ == client.base_url@,
            text::opt_text(r.management_key) == text::opt_text(client.management_key),
            r.mode == TimelineDeliveryMode::Advisory,
            r.spool_path == spool_path,
    {
        AeonTimelineSink {
            base_url: client.base_url.clone(),
            management_key: text::clone_opt(&client.management_key),
            mode: TimelineDeliveryMode::Advisory,
            spool_path,
        }
    }

    /// The sink of a configuration.
    pub fn from_config(config: &AeonConfig, spool_path: String) -> (r: Self)
        ensures
            r.base_url@ == config::unslashed(config.base_url@),
            text::opt_text(r.management_key) == text::opt_text(config.management_key),
            r.mode == TimelineDeliveryMode::Advisory,
            r.spool_path == spool_path,
    {
        let client = AeonMemoryClient::from_config(config);
        AeonTimelineSink::from_memory_client(&client, spool_path)
    }

    /// The sink of a configuration that has all it needs.
    pub fn from_enabled_config(config: &AeonConfig, spool_path: String) -> (r: Option<Self>)
        ensures
            r is Some <==> memory::usable(config@),
            match r {
                Some(s) => {
                    &&& s.base_url@ == config::unslashed(config.base_url@)
                    &&& text::opt_text(s.management_key) == text::opt_text(config.management_key)
                    &&& s.mode == TimelineDeliveryMode::Advisory
                    &&& s.spool_path == spool_path
                },
                None => true,
            },
    {
        match AeonMemoryClient::from_enabled_config(config) {
            Some(client) => Some(AeonTimelineSink::from_memory_client(&client, spool_path)),
            None => None,
        }
    }

    /// The sink with this mode.
    pub fn with_mode(self, mode: TimelineDeliveryMode) -> (r: Self)
        ensures
            r == (AeonTimelineSink { mode, ..self }),
    {
        let mut sink = self;
        sink.mode = mode;
        sink
    }

    /// The sink with this spool.
    pub fn with_spool_path(self, path: String) -> (r: Self)
        ensures
            r == (AeonTimelineSink { spool_path: path, ..self }),
    {
        let mut sink = self;
        sink.spool_path = path;
        sink
    }

    /// What is to be done with these events.
    pub fn plan(&self, events: &Vec<NexusExecutionEvent>) -> (r: DeliveryPlan)
        ensures
            r == planned(self.mode, events@.len()),
    {
        if events.len() == 0 {
            DeliveryPlan::Nothing
        } else if self.mode == TimelineDeliveryMode::Offline {
            DeliveryPlan::Spool
        } else {
            DeliveryPlan::Post
        }
    }

    /// How the delivery of these events went, once the plan was carried out:
    /// `posted` says of each event whether it was posted, where they were to be.
    pub fn deliver(
        &self,
        events: &Vec<NexusExecutionEvent>,
        spooled: bool,
        posted: &Vec<bool>,
    ) -> (r: TimelineDeliveryStatus)
        requires
            self.mode != TimelineDeliveryMode::Offline ==> posted@.len() == events@.len(),
        ensures
            r == delivery_status(self.mode, events@.len(), spooled, posted@),
    {
        match self.plan(events) {
            DeliveryPlan::Nothing => TimelineDeliveryStatus::Delivered,
            DeliveryPlan::Spool => if spooled {
                TimelineDeliveryStatus::FireAndForget
            } else {
                TimelineDeliveryStatus::FailedOpen
            },
            DeliveryPlan::Post => {
                let mut all = true;
                let mut i: usize = 0;
                while i < posted.len()
                    invariant
                        i <= posted.len(),
                        all == !posted@.take(i as int).contains(false),
                    decreases posted.len() - i,
                {
                    let ok: bool = posted[i];
                    proof {
                        let before = posted@.take(i as int);
                        let now = posted@.take(i + 1);
                        assert(now =~= before.push(ok));
                        if before.contains(false) {
                            let k = choose|k: int| 0 <= k < before.len() && before[k] == false;
                            assert(now[k] == false);
                        }
                        if now.contains(false) && ok {
                            let k = choose|k: int| 0 <= k < now.len() && now[k] == false;
                            assert(before[k] == false);
                        }
                        if !ok {
                            assert(now[i as int] == false);
                        }
                    }
                    if !ok {
                        all = false;
                    }
                    i = i + 1;
                }
                assert(posted@.take(posted.len() as int) =~= posted@);
                if all {
                    TimelineDeliveryStatus::Delivered
                } else if self.mode == TimelineDeliveryMode::Attested {
                    TimelineDeliveryStatus::RequiredButFailed
                } else {
                    TimelineDeliveryStatus::FailedOpen
                }
            },
        }
    }

    /// Where an agent's events are posted, and with which key.
    pub fn post_target(&self, agent_id: &str) -> (r: Option<(String, String)>)
        ensures
            memory::target_view(r) == memory::target_of(
                text::opt_text(self.management_key),
                memory::endpoint_url(self.base_url@ + "/"@, timeline_path(agent_id@)),
            ),
    {
        match &self.management_key {
            None => None,
            Some(key) => {
                let mut segments: Vec<String> = Vec::new();
                segments.push("api".to_string());
                segments.push("v1".to_string());
                segments.push("agents".to_string());
                segments.push(agent_id.to_string());
                segments.push("timeline".to_string());
                assert(text::texts(segments@) =~= timeline_path(agent_id@));
                match memory::client_url(self.base_url.as_str(), &segments) {
                    Some(url) => Some((url, key.clone())),
                    None => None,
                }
            },
        }
    }
}

/// What follows a post.
#[derive(Debug, Clone, Copy, PartialEq, Eq, Structural)]
pub enum PostStep {
    /// It was taken.
    Done,
    /// It is given up.
    GiveUp,
    /// It is posted again after this many milliseconds.
    RetryAfter(u64),
}

/// How long to wait after a failed post: each time twice as long, up to a
/// limit.
pub open spec fn retry_delay(attempt: nat) -> nat {
    (25 * vstd::arithmetic::power2::pow2(
        if attempt < 5 {
            attempt
        } else {
            5
        },
    )) as nat
}

/// How long to wait after post number `attempt`, counted from zero, in
/// milliseconds.
pub fn timeline_retry_delay(attempt: usize) -> (r: u64)
    ensures
        r == retry_delay(attempt as nat),
{
    proof {
        vstd::arithmetic::power2::lemma2_to64();
    }
    if attempt == 0 {
        25
    } else if attempt == 1 {
        50
    } else if attempt == 2 {
        100
    } else if attempt == 3 {
        200
    } else if attempt == 4 {
        400
    } else {
        800
    }
}

/// What follows post number `attempt`, counted from zero, when `status` is the
/// status of the answer, if one came.
pub open spec fn post_step(attempt: nat, status: Option<u16>) -> PostStep {
    match status {
        Some(s) => if 200 <= s < 300 {
            PostStep::Done
        } else if s >= 500 && attempt + 1 < TIMELINE_MAX_ATTEMPTS {
            PostStep::RetryAfter(retry_delay(attempt) as u64)
        } else {
            PostStep::GiveUp
        },
        None => if attempt + 1 < TIMELINE_MAX_ATTEMPTS {
            PostStep::RetryAfter(retry_delay(attempt) as u64)
        } else {
            PostStep::GiveUp
        },
    }
}

/// What follows a post.
pub fn after_post(attempt: usize, status: Option<u16>) -> (r: PostStep)
    ensures
        r == post_step(attempt as nat, status),
{
    let again: bool = attempt < TIMELINE_MAX_ATTEMPTS - 1;
    match status {
        Some(s) => if memory::is_success(s) {
            PostStep::Done
        } else if s >= 500 && again {
            PostStep::RetryAfter(timeline_retry_delay(attempt))
        } else {
            PostStep::GiveUp
        },
        None => if again {
            PostStep::RetryAfter(timeline_retry_delay(attempt))
        } else {
            PostStep::GiveUp
        },
    }
}

/// What is posted of an event.
#[derive(Debug, Clone, PartialEq, Eq)]
pub struct TimelineEventBody {
    pub session_id: Option<String>,
    pub nexus_snapshot_id: Option<String>,
    pub capsule_digest: Option<String>,
    pub event_type: String,
}

/// The body of an event, by its contents.
pub struct EventBody {
    pub session_id: Option<Seq<char>>,
    pub nexus_snapshot_id: Option<Seq<char>>,
    pub capsule_digest: Option<Seq<char>>,
    pub event_type: Seq<char>,
}

impl View for TimelineEventBody {
    type V = EventBody;

    open spec fn view(&self) -> EventBody {
        EventBody {
            session_id: text::opt_text(self.session_id),
            nexus_snapshot_id: text::opt_text(self.nexus_snapshot_id),
            capsule_digest: text::opt_text(self.capsule_digest),
            event_type: self.event_type@,
        }
    }
}

/// What is posted of an event. Which capability was denied is not told.
pub open spec fn body_of(session: Option<Seq<char>>, event: NexusExecutionEvent) -> EventBody {
    match event {
        NexusExecutionEvent::SnapshotCreated { snapshot_id } => EventBody {
            session_id: session,
            nexus_snapshot_id: Some(snapshot_id@),
            capsule_digest: None,
            event_type: "snapshot_created"@,
        },
        NexusExecutionEvent::CapabilityDenied { denied_category } => EventBody {
            session_id: session,
            nexus_snapshot_id: None,
            capsule_digest: None,
            event_type: "capability_denied"@,
        },
        NexusExecutionEvent::ProofCapsuleEmitted { capsule_id } => EventBody {
            session_id: session,
            nexus_snapshot_id: None,
            capsule_digest: Some(capsule_id@),
            event_type: "proof_capsule_emitted"@,
        },
    }
}

fn owned(o: Option<&str>) -> (r: Option<String>)
    ensures
        text::opt_text(r) == crate::daemon::slice_text(o),
{
    match o {
        Some(t) => Some(t.to_string()),
        None => None,
    }
}

/// The fields of an optional text: one, or none.
pub open spec fn optional_field(key: Seq<char>, value: Option<Seq<char>>) -> Seq<Seq<char>> {
    match value {
        Some(v) => seq![canonical::field(key, canonical::json_quoted(v))],
        None => Seq::empty(),
    }
}

fn push_optional(fields: &mut Vec<String>, key: &str, value: &Option<String>)
    ensures
        text::texts(final(fields)@) == text::texts(old(fields)@) + optional_field(
            key@,
            text::opt_text(*value),
        ),
{
    let ghost before = text::texts(fields@);
    match value {
        Some(v) => {
            let f = canonical::field_text(key, canonical::quote(v.as_str()));
            let ghost fv = f@;
            fields.push(f);
            assert(text::texts(fields@) =~= before + seq![fv]);
        },
        None => {
            assert(before + Seq::<Seq<char>>::empty() =~= before);
        },
    }
}

/// An event as JSON. What is not there is left out.
pub open spec fn event_json(e: EventBody) -> Seq<char> {
    canonical::object(
        optional_field("session_id"@, e.session_id) + optional_field(
            "nexus_snapshot_id"@,
            e.nexus_snapshot_id,
        ) + optional_field("capsule_digest"@, e.capsule_digest) + seq![
            canonical::field("event_type"@, canonical::json_quoted(e.event_type)),
        ],
    )
}

/// A line of the spool.
pub open spec fn spool_json(created_at: Seq<char>, agent: Seq<char>, e: EventBody) -> Seq<char> {
    canonical::object(
        seq![
            canonical::field("created_at"@, canonical::json_quoted(created_at)),
            canonical::field("agent_id"@, canonical::json_quoted(agent)),
            canonical::field("event"@, event_json(e)),
        ],
    )
}

impl TimelineEventBody {
    /// What is posted of an event.
    pub fn from_event(session_id: Option<&str>, event: &NexusExecutionEvent) -> (r: Self)
        ensures
            r@ == body_of(crate::daemon::slice_text(session_id), *event),
    {
        match event {
            NexusExecutionEvent::SnapshotCreated { snapshot_id } => TimelineEventBody {
                session_id: owned(session_id),
                nexus_snapshot_id: Some(snapshot_id.clone()),
                capsule_digest: None,
                event_type: "snapshot_created".to_string(),
            },
            NexusExecutionEvent::CapabilityDenied { .. } => TimelineEventBody {
                session_id: owned(session_id),
                nexus_snapshot_id: None,
                capsule_digest: None,
                event_type: "capability_denied".to_string(),
            },
            NexusExecutionEvent::ProofCapsuleEmitted { capsule_id } => TimelineEventBody {
                session_id: owned(session_id),
                nexus_snapshot_id: None,
                capsule_digest: Some(capsule_id.clone()),
                event_type: "proof_capsule_emitted".to_string(),
            },
        }
    }

    /// The event as JSON.
    pub fn to_json(&self) -> (r: String)
        ensures
            r@ == event_json(self@),
    {
        let mut fields: Vec<String> = Vec::new();
        assert(text::texts(fields@) =~= Seq::<Seq<char>>::empty());
        push_optional(&mut fields, "session_id", &self.session_id);
        push_optional(&mut fields, "nexus_snapshot_id", &self.nexus_snapshot_id);
        push_optional(&mut fields, "capsule_digest", &self.capsule_digest);
        let ghost before = text::texts(fields@);
        assert(before =~= optional_field("session_id"@, self@.session_id) + optional_field(
            "nexus_snapshot_id"@,
            self@.nexus_snapshot_id,
        ) + optional_field("capsule_digest"@, self@.capsule_digest));
        let f = canonical::field_text("event_type", canonical::quote(self.event_type.as_str()));
        let ghost fv = f@;
        fields.push(f);
        assert(text::texts(fields@) =~= before + seq![fv]);
        canonical::object_text(&fields)
    }
}

/// The lines that put events into the spool, when `created_at` holds the time
/// of each.
pub fn spool_lines(
    agent_id: &str,
    session_id: Option<&str>,
    events: &Vec<NexusExecutionEvent>,
    created_at: &Vec<String>,
) -> (r: Vec<String>)
    requires
        created_at@.len() == events@.len(),
    ensures
        text::texts(r@) == Seq::new(
            events@.len(),
            |i: int|
                spool_json(
                    created_at@[i]@,
                    agent_id@,
                    body_of(crate::daemon::slice_text(session_id), events@[i]),
                ),
        ),
{
    let mut out: Vec<String> = Vec::new();
    let mut i: usize = 0;
    while i < events.len()
        invariant
            i <= events.len(),
            created_at@.len() == events@.len(),
            out@.len() == i,
            forall|j: int|
                0 <= j < i ==> (#[trigger] out@[j])@ == spool_json(
                    created_at@[j]@,
                    agent_id@,
                    body_of(crate::daemon::slice_text(session_id), events@[j]),
                ),
        decreases events.len() - i,
    {
        let body = TimelineEventBody::from_event(session_id, &events[i]);
        let mut fields: Vec<String> = Vec::new();
        fields.push(canonical::field_text("created_at", canonical::quote(created_at[i].as_str())));
        fields.push(canonical::field_text("agent_id", canonical::quote(agent_id)));
        fields.push(canonical::field_text("event", body.to_json()));
        assert(text::texts(fields@) =~= seq![
            canonical::field("created_at"@, canonical::json_quoted(created_at@[i as int]@)),
            canonical::field("agent_id"@, canonical::json_quoted(agent_id@)),
            canonical::field("event"@, event_json(body@)),
        ]);
        out.push(canonical::object_text(&fields));
        i = i + 1;
    }
    assert(text::texts(out@) =~= Seq::new(
        events@.len(),
        |i: int|
            spool_json(
                created_at@[i]@,
                agent_id@,
                body_of(crate::daemon::slice_text(session_id), events@[i]),
            ),
    ));
    out
}

/// The lines of a spool that hold something.
pub open spec fn filled(lines: Seq<Seq<char>>) -> Seq<Seq<char>>
    decreases lines.len(),
{
    if lines.len() == 0 {
        Seq::empty()
    } else if env::blank(lines.last()) {
        filled(lines.drop_last())
    } else {
        filled(lines.drop_last()).push(lines.last())
    }
}

/// The lines of a spool that hold something.
pub fn pending_lines(content: &str) -> (r: Vec<String>)
    ensures
        text::texts(r@) == filled(text::lines(content@)),
{
    let lines = text::lines_of(content);
    let mut out: Vec<String> = Vec::new();
    let mut i: usize = 0;
    while i < lines.len()
        invariant
            i <= lines.len(),
            text::texts(out@) == filled(text::texts(lines@).take(i as int)),
        decreases lines.len() - i,
    {
        let ghost had = text::texts(out@);
        let ghost before = text::texts(lines@).take(i as int);
        let line = lines[i].clone();
        let ghost lv = line@;
        if !env::is_blank(line.as_str()) {
            out.push(line);
            assert(text::texts(out@) =~= had.push(lv));
        }
        i = i + 1;
        proof {
            let now = text::texts(lines@).take(i as int);
            assert(now.drop_last() =~= before);
            assert(now.last() == lv);
        }
    }
    assert(text::texts(lines@).take(lines.len() as int) =~= text::texts(lines@));
    out
}

/// A line of the spool, read back. Times are held as nanoseconds since the
/// epoch.
#[derive(Debug, Clone, PartialEq, Eq)]
pub struct TimelineSpoolRecord {
    pub created_at: i128,
    pub agent_id: String,
    pub event: TimelineEventBody,
}

/// What is to be done with a line of the spool.
#[derive(Debug, Clone, Copy, PartialEq, Eq, Structural)]
pub enum LineTask {
    /// It cannot be read: keep it, as failed.
    Broken,
    /// It is for someone else, or too old: keep it, as skipped.
    Skip,
    /// Post it.
    Post,
}

/// What is to be done with a line.
pub open spec fn line_task(
    record: Option<TimelineSpoolRecord>,
    agent: Seq<char>,
    since: Option<i128>,
) -> LineTask {
    match record {
        None => LineTask::Broken,
        Some(r) => if r.agent_id@ != agent || (since is Some && r.created_at < since->0) {
            LineTask::Skip
        } else {
            LineTask::Post
        },
    }
}

/// What is to be done with a line of the spool that was read as `record`.
pub fn judge_line(
    record: &Option<TimelineSpoolRecord>,
    agent_id: &str,
    since: Option<i128>,
) -> (r: LineTask)
    ensures
        r == line_task(*record, agent_id@, since),
{
    match record {
        None => LineTask::Broken,
        Some(rec) => {
            let old: bool = match since {
                Some(s) => rec.created_at < s,
                None => false,
            };
            if !text::same_text(rec.agent_id.as_str(), agent_id) || old {
                LineTask::Skip
            } else {
                LineTask::Post
            }
        },
    }
}

/// How often a line ended with `wanted`, as its task and whether it was posted.
pub open spec fn ended(tasks: Seq<LineTask>, posted: Seq<bool>, wanted: spec_fn(LineTask, bool) -> bool) -> nat
    decreases tasks.len(),
{
    if tasks.len() == 0 || posted.len() == 0 {
        0
    } else {
        ended(tasks.drop_last(), posted.drop_last(), wanted) + (if wanted(
            tasks.last(),
            posted.last(),
        ) {
            1nat
        } else {
            0nat
        })
    }
}

/// A line that was delivered.
pub open spec fn was_delivered() -> spec_fn(LineTask, bool) -> bool {
    |t: LineTask, p: bool| t == LineTask::Post && p
}

/// A line that failed.
pub open spec fn was_failed() -> spec_fn(LineTask, bool) -> bool {
    |t: LineTask, p: bool| t == LineTask::Broken || (t == LineTask::Post && !p)
}

/// A line that was skipped.
pub open spec fn was_skipped() -> spec_fn(LineTask, bool) -> bool {
    |t: LineTask, p: bool| t == LineTask::Skip
}

/// The lines that stay in the spool: all that were not delivered.
pub open spec fn kept(lines: Seq<Seq<char>>, tasks: Seq<LineTask>, posted: Seq<bool>) -> Seq<
    Seq<char>,
>
    decreases lines.len(),
{
    if lines.len() == 0 || tasks.len() == 0 || posted.len() == 0 {
        Seq::empty()
    } else {
        let before = kept(lines.drop_last(), tasks.drop_last(), posted.drop_last());
        if was_delivered()(tasks.last(), posted.last()) {
            before
        } else {
            before.push(lines.last())
        }
    }
}

/// What a replay came to, and what stays in the spool. For each line `tasks`
/// holds what was to be done with it, and `posted` whether it was posted.
pub fn replay_spooled_events(
    lines: &Vec<String>,
    tasks: &Vec<LineTask>,
    posted: &Vec<bool>,
) -> (r: (TimelineReplayReport, Vec<String>))
    requires
        tasks@.len() == lines@.len(),
        posted@.len() == lines@.len(),
    ensures
        r.0.delivered == ended(tasks@, posted@, was_delivered()),
        r.0.failed == ended(tasks@, posted@, was_failed()),
        r.0.skipped == ended(tasks@, posted@, was_skipped()),
        text::texts(r.1@) == kept(text::texts(lines@), tasks@, posted@),
{
    let mut report = TimelineReplayReport::default();
    let mut retained: Vec<String> = Vec::new();
    let mut i: usize = 0;
    while i < lines.len()
        invariant
            i <= lines.len(),
            tasks@.len() == lines@.len(),
            posted@.len() == lines@.len(),
            report.delivered + report.failed + report.skipped == i,
            report.delivered == ended(
                tasks@.take(i as int),
                posted@.take(i as int),
                was_delivered(),
            ),
            report.failed == ended(tasks@.take(i as int), posted@.take(i as int), was_failed()),
            report.skipped == ended(tasks@.take(i as int), posted@.take(i as int), was_skipped()),
            text::texts(retained@) == kept(
                text::texts(lines@).take(i as int),
                tasks@.take(i as int),
                posted@.take(i as int),
            ),
        decreases lines.len() - i,
    {
        let ghost had = text::texts(retained@);
        let task: LineTask = tasks[i];
        let sent: bool = posted[i];
        let line = lines[i].clone();
        let ghost lv = line@;
        match task {
            LineTask::Broken => {
                report.failed = report.failed + 1;
                retained.push(line);
                assert(text::texts(retained@) =~= had.push(lv));
            },
            LineTask::Skip => {
                report.skipped = report.skipped + 1;
                retained.push(line);
                assert(text::texts(retained@) =~= had.push(lv));
            },
            LineTask::Post => {
                if sent {
                    report.delivered = report.delivered + 1;
                } else {
                    report.failed = report.failed + 1;
                    retained.push(line);
                    assert(text::texts(retained@) =~= had.push(lv));
                }
            },
        }
        proof {
            let t = tasks@.take(i + 1);
            let p = posted@.take(i + 1);
            let l = text::texts(lines@).take(i + 1);
            assert(t.drop_last() =~= tasks@.take(i as int));
            assert(p.drop_last() =~= posted@.take(i as int));
            assert(l.drop_last() =~= text::texts(lines@).take(i as int));
            assert(t.last() == task && p.last() == sent && l.last() == lv);
        }
        i = i + 1;
    }
    proof {
        assert(tasks@.take(i as int) =~= tasks@);
        assert(posted@.take(i as int) =~= posted@);
        assert(text::texts(lines@).take(i as int) =~= text::texts(lines@));
    }
    (report, retained)
}

/// What a replay came to where the spool could not be read: nothing where there
/// is none, and one failure otherwise.
pub fn unread_spool(missing: bool) -> (r: TimelineReplayReport)
    ensures
        r == (TimelineReplayReport {
            delivered: 0,
            failed: if missing {
                0
            } else {
                1
            },
            skipped: 0,
        }),
{
    TimelineReplayReport {
        delivered: 0,
        failed: if missing {
            0
        } else {
            1
        },
        skipped: 0,
    }
}

/// What the spool holds after a replay; none where it is to be removed.
pub fn rewrite_spool(retained: &Vec<String>) -> (r: Option<String>)
    ensures
        text::opt_text(r) == (if retained@.len() == 0 {
            None::<Seq<char>>
        } else {
            Some(text::joined(text::texts(retained@), "\n"@) + "\n"@)
        }),
{
    if retained.len() == 0 {
        None
    } else {
        let joined = text::join(retained, "\n");
        Some(text::cat2(joined.as_str(), "\n"))
    }
}

/// No line is lost: each is delivered, failed or skipped, and all but the
/// delivered ones stay in the spool.
pub proof fn lemma_no_line_is_lost(
    lines: Seq<Seq<char>>,
    tasks: Seq<LineTask>,
    posted: Seq<bool>,
)
    requires
        tasks.len() == lines.len(),
        posted.len() == lines.len(),
    ensures
        ended(tasks, posted, was_delivered()) + ended(tasks, posted, was_failed()) + ended(
            tasks,
            posted,
            was_skipped(),
        ) == lines.len(),
        kept(lines, tasks, posted).len() == ended(tasks, posted, was_failed()) + ended(
            tasks,
            posted,
            was_skipped(),
        ),
    decreases lines.len(),
{
    if lines.len() > 0 {
        lemma_no_line_is_lost(lines.drop_last(), tasks.drop_last(), posted.drop_last());
    }
}

/// Delivery fails open: only an attested delivery is ever reported as required
/// and failed, and only when an event was not posted.
pub proof fn lemma_delivery_fails_open(
    mode: TimelineDeliveryMode,
    count: nat,
    spooled: bool,
    posted: Seq<bool>,
)
    ensures
        delivery_status(mode, count, spooled, posted) == TimelineDeliveryStatus::RequiredButFailed
            <==> mode == TimelineDeliveryMode::Attested && count > 0 && posted.contains(false),
{
}

/// A post is repeated only while attempts are left, never after an answer that
/// blames the request, and each wait is at most 800 milliseconds.
pub proof fn lemma_posts_are_bounded(attempt: nat, status: Option<u16>)
    ensures
        post_step(attempt, status) is RetryAfter ==> {
            &&& attempt + 1 < TIMELINE_MAX_ATTEMPTS
            &&& status is None || status->0 >= 500
            &&& post_step(attempt, status)->RetryAfter_0 <= 800
        },
{
    vstd::arithmetic::power2::lemma2_to64();
    if attempt < 5 {
        assert(attempt == 0 || attempt == 1 || attempt == 2 || attempt == 3 || attempt == 4);
    }
}

/// A mode is chosen by its word, in whatever case and with white space round it;
/// without a word, or with another one, failures are only noted.
pub proof fn lemma_modes_are_chosen_by_word(v: Seq<char>, w: Seq<char>)
    requires
        w == text::ascii_lowered(text::trimmed(v)),
    ensures
        mode_of(None) == TimelineDeliveryMode::Advisory,
        mode_of(Some(v)) == TimelineDeliveryMode::Attested <==> w == "attested"@ || w
            == "required"@,
        mode_of(Some(v)) == TimelineDeliveryMode::Offline <==> w == "offline"@ || w == "spool"@,
{
    reveal_strlit("attested");
    reveal_strlit("required");
    reveal_strlit("offline");
    reveal_strlit("spool");
    assert("attested"@[0] == 'a' && "required"@[0] == 'r' && "offline"@[0] == 'o' && "spool"@[0]
        == 's');
}

/// How a delivery went: all of it is delivered only if nothing had to be, or
/// every post was taken; a failure counts as one of something required exactly
/// where the delivery is attested; and what is spooled is promised nothing.
pub proof fn lemma_deliveries_are_told(
    mode: TimelineDeliveryMode,
    count: nat,
    spooled: bool,
    posted: Seq<bool>,
    i: int,
)
    ensures
        count == 0 ==> delivery_status(mode, count, spooled, posted)
            == TimelineDeliveryStatus::Delivered,
        count > 0 && mode != TimelineDeliveryMode::Offline ==> (delivery_status(
            mode,
            count,
            spooled,
            posted,
        ) == TimelineDeliveryStatus::Delivered <==> forall|j: int|
            0 <= j < posted.len() ==> #[trigger] posted[j]),
        delivery_status(mode, count, spooled, posted) == TimelineDeliveryStatus::RequiredButFailed
            ==> mode == TimelineDeliveryMode::Attested,
        count > 0 && mode == TimelineDeliveryMode::Attested && 0 <= i < posted.len() && !posted[i]
            ==> delivery_status(mode, count, spooled, posted)
            == TimelineDeliveryStatus::RequiredButFailed,
        count > 0 && mode == TimelineDeliveryMode::Advisory && 0 <= i < posted.len() && !posted[i]
            ==> delivery_status(mode, count, spooled, posted) == TimelineDeliveryStatus::FailedOpen,
        count > 0 && mode == TimelineDeliveryMode::Offline ==> (delivery_status(
            mode,
            count,
            spooled,
            posted,
        ) == TimelineDeliveryStatus::FireAndForget <==> spooled),
{
    if forall|j: int| 0 <= j < posted.len() ==> #[trigger] posted[j] {
        assert(!posted.contains(false));
    } else {
        let j = choose|j: int| 0 <= j < posted.len() && !(#[trigger] posted[j]);
        assert(posted[j] == false);
        assert(posted.contains(false));
    }
    if 0 <= i < posted.len() && !posted[i] {
        assert(posted.contains(false));
    }
}

/// A post is done when it was taken, tried again only after a fault of the
/// service or no answer, each time after twice as long, and given up at the third
/// attempt or when the service refuses it.
pub proof fn lemma_posts_are_tried_again(attempt: nat, status: Option<u16>)
    ensures
        post_step(attempt, status) == PostStep::Done <==> status is Some && 200 <= status->0 <= 299,
        post_step(attempt, status) is RetryAfter <==> attempt < 2 && (status is None || status->0
            >= 500),
        attempt < 5 ==> retry_delay(attempt + 1) == 2 * retry_delay(attempt),
        retry_delay(0) == 25,
        post_step(0, None) == PostStep::RetryAfter(25),
        post_step(1, None) == PostStep::RetryAfter(50),
{
    vstd::arithmetic::power2::lemma2_to64();
    if attempt < 5 {
        vstd::arithmetic::power2::lemma_pow2_unfold(attempt + 1);
    }
}

/// What is told of an event is that event: a snapshot by its identifier, a
/// capsule by its own, and a denial without what was denied; each in the session
/// that it belongs to, and each under a name of its own.
pub proof fn lemma_events_are_told(session: Option<Seq<char>>, event: NexusExecutionEvent)
    ensures
        body_of(session, event).session_id == session,
        event matches NexusExecutionEvent::SnapshotCreated { snapshot_id } ==> body_of(
            session,
            event,
        ).nexus_snapshot_id == Some(snapshot_id@),
        event matches NexusExecutionEvent::ProofCapsuleEmitted { capsule_id } ==> body_of(
            session,
            event,
        ).capsule_digest == Some(capsule_id@),
        body_of(session, event).nexus_snapshot_id is Some <==> event is SnapshotCreated,
        body_of(session, event).capsule_digest is Some <==> event is ProofCapsuleEmitted,
        event is SnapshotCreated <==> body_of(session, event).event_type == "snapshot_created"@,
        event is CapabilityDenied <==> body_of(session, event).event_type == "capability_denied"@,
        event is ProofCapsuleEmitted <==> body_of(session, event).event_type
            == "proof_capsule_emitted"@,
{
    reveal_strlit("snapshot_created");
    reveal_strlit("capability_denied");
    reveal_strlit("proof_capsule_emitted");
    assert("snapshot_created"@.len() == 16 && "capability_denied"@.len() == 17
        && "proof_capsule_emitted"@.len() == 21);
}

/// What is written of an event holds what is told of it, each under its own key.
pub proof fn lemma_events_are_written_whole(created_at: Seq<char>, agent: Seq<char>, e: EventBody)
    ensures
        text::has_text(
            event_json(e),
            canonical::field("event_type"@, canonical::json_quoted(e.event_type)),
        ),
        e.session_id matches Some(s) ==> text::has_text(
            event_json(e),
            canonical::field("session_id"@, canonical::json_quoted(s)),
        ),
        e.nexus_snapshot_id matches Some(s) ==> text::has_text(
            event_json(e),
            canonical::field("nexus_snapshot_id"@, canonical::json_quoted(s)),
        ),
        e.capsule_digest matches Some(s) ==> text::has_text(
            event_json(e),
            canonical::field("capsule_digest"@, canonical::json_quoted(s)),
        ),
        text::has_text(
            spool_json(created_at, agent, e),
            canonical::field("agent_id"@, canonical::json_quoted(agent)),
        ),
        text::has_text(
            spool_json(created_at, agent, e),
            canonical::field("created_at"@, canonical::json_quoted(created_at)),
        ),
        text::has_text(
            spool_json(created_at, agent, e),
            canonical::field("event"@, event_json(e)),
        ),
{
    let a = optional_field("session_id"@, e.session_id);
    let b = optional_field("nexus_snapshot_id"@, e.nexus_snapshot_id);
    let c = optional_field("capsule_digest"@, e.capsule_digest);
    let last = canonical::field("event_type"@, canonical::json_quoted(e.event_type));
    let all = a + b + c + seq![last];
    canonical::lemma_object_holds(all);
    assert(all[all.len() - 1] == last);
    if e.session_id is Some {
        assert(all[0] == a[0]);
    }
    if e.nexus_snapshot_id is Some {
        assert(all[a.len() as int] == b[0]);
    }
    if e.capsule_digest is Some {
        assert(all[(a.len() + b.len()) as int] == c[0]);
    }
    let fields = seq![
        canonical::field("created_at"@, canonical::json_quoted(created_at)),
        canonical::field("agent_id"@, canonical::json_quoted(agent)),
        canonical::field("event"@, event_json(e)),
    ];
    canonical::lemma_object_holds(fields);
    assert(fields[0] == canonical::field("created_at"@, canonical::json_quoted(created_at)));
    assert(fields[1] == canonical::field("agent_id"@, canonical::json_quoted(agent)));
    assert(fields[2] == canonical::field("event"@, event_json(e)));
}

/// Of a spool, the lines that are for this agent and not too old are posted; what
/// cannot be read is kept as broken, and the rest as it is.
pub proof fn lemma_spooled_lines_find_their_agent(
    record: Option<TimelineSpoolRecord>,
    agent: Seq<char>,
    since: Option<i128>,
)
    ensures
        line_task(record, agent, since) == LineTask::Broken <==> record is None,
        line_task(record, agent, since) == LineTask::Post <==> record is Some
            && record->0.agent_id@ == agent && (since is Some ==> record->0.created_at >= since->0),
{
}

/// Blank lines are passed over, and no others.
pub proof fn lemma_filled_lines_are_kept(lines: Seq<Seq<char>>, l: Seq<char>)
    ensures
        filled(lines).contains(l) <==> lines.contains(l) && text::trimmed(l).len() > 0,
    decreases lines.len(),
{
    if lines.len() > 0 {
        let before = lines.drop_last();
        lemma_filled_lines_are_kept(before, l);
        let kept_before = filled(before);
        let all = filled(lines);
        if all.contains(l) {
            let i = choose|i: int| 0 <= i < all.len() && all[i] == l;
            if i < kept_before.len() {
                assert(kept_before[i] == l);
                let j = choose|j: int| 0 <= j < before.len() && before[j] == l;
                assert(lines[j] == l);
            } else {
                assert(lines[lines.len() - 1] == l);
            }
        }
        if lines.contains(l) && text::trimmed(l).len() > 0 {
            let j = choose|j: int| 0 <= j < lines.len() && lines[j] == l;
            if j < before.len() {
                assert(before[j] == l);
                let i = choose|i: int| 0 <= i < kept_before.len() && kept_before[i] == l;
                assert(all[i] == l);
            } else {
                assert(all[all.len() - 1] == l);
            }
        }
    }
}

/// What is to be done with so many events.
pub open spec fn planned(mode: TimelineDeliveryMode, events: nat) -> DeliveryPlan {
    if events == 0 {
        DeliveryPlan::Nothing
    } else if mode == TimelineDeliveryMode::Offline {
        DeliveryPlan::Spool
    } else {
        DeliveryPlan::Post
    }
}

/// Nothing leaves the machine offline: events are spooled there, and posted
/// otherwise; without events there is nothing to do.
pub proof fn lemma_offline_events_are_spooled(mode: TimelineDeliveryMode, events: nat)
    ensures
        planned(mode, events) is Nothing <==> events == 0,
        mode is Offline ==> !(planned(mode, events) is Post),
        events > 0 && mode is Offline ==> planned(mode, events) is Spool,
        events > 0 && !(mode is Offline) ==> planned(mode, events) is Post,
{
}

} // verus!
