//! Structured errors, and how they are told to a language model.

use crate::hypervisor::failure_mode::FailureMode;
use crate::hypervisor::recovery::RecoveryAction;
use crate::hypervisor::validator::health::{HealthStatus, ResourceSnapshot};
use crate::text;
use vstd::prelude::*;
use vstd::string::*;

verus! {

/// One frame of a captured call stack.
#[derive(Debug, Clone, PartialEq, Eq)]
pub struct StackFrame {
    pub func_name: Option<String>,
    pub module_name: Option<String>,
    pub module_offset: Option<u64>,
    pub func_index: u32,
}

/// The frames of the guest at the point of failure, innermost first.
#[derive(Debug, Clone, PartialEq, Eq)]
pub struct CapturedCallStack {
    pub captured_at: String,
    pub frames: Vec<StackFrame>,
}

/// The system at the time of an error.
#[derive(Debug, Clone, PartialEq, Eq)]
pub struct SystemState {
    pub files_affected: Vec<String>,
    pub reverted: bool,
    pub snapshot_id: Option<String>,
    pub execution_time_ms: u64,
}

/// Whether nothing is noted of the system.
pub open spec fn nothing_noted(s: SystemState) -> bool {
    &&& s.files_affected@.len() == 0
    &&& !s.reverted
    &&& s.snapshot_id is None
    &&& s.execution_time_ms == 0
}

impl Default for SystemState {
    fn default() -> (r: Self)
        ensures
            nothing_noted(r),
    {
        SystemState {
            files_affected: Vec::new(),
            reverted: false,
            snapshot_id: None,
            execution_time_ms: 0,
        }
    }
}

/// A structured error.
#[derive(Debug, Clone, PartialEq, Eq)]
pub struct ErrorLog {
    pub id: String,
    pub error_type: String,
    pub timestamp: String,
    pub operation: String,
    pub description: String,
    pub system_state: SystemState,
    pub failure_mode: FailureMode,
    pub recovery_actions: Vec<RecoveryAction>,
    pub successful_patterns: Vec<String>,
    /// For diagnosis only.
    pub call_stack: Option<CapturedCallStack>,
    pub trigger_status: HealthStatus,
    pub resources: ResourceSnapshot,
}

/// Whether type, description and status of a log follow from its failure.
pub open spec fn log_consistent(log: ErrorLog) -> bool {
    &&& log.error_type@ == log.failure_mode@.category()
    &&& log.description@ == log.failure_mode@.description()
    &&& log.trigger_status == log.failure_mode@.status()
}

/// How many frames are told.
pub const MAX_FRAMES: usize = 8;

/// One line of the call stack.
pub open spec fn frame_line(number: nat, f: StackFrame) -> Seq<char> {
    text::decimal(number) + ". "@ + name_or_unknown(f.module_name) + "!"@ + name_or_unknown(
        f.func_name,
    ) + " func_index="@ + text::decimal(f.func_index as nat) + offset_text(f.module_offset)
        + "\n"@
}

pub open spec fn name_or_unknown(o: Option<String>) -> Seq<char> {
    match o {
        Some(t) => t@,
        None => "<unknown>"@,
    }
}

pub open spec fn offset_text(o: Option<u64>) -> Seq<char> {
    match o {
        Some(n) => " module_offset=0x"@ + text::hexadecimal(n as nat),
        None => Seq::empty(),
    }
}

/// The lines of the first frames.
pub open spec fn frame_lines(frames: Seq<StackFrame>) -> Seq<char>
    decreases frames.len(),
{
    if frames.len() == 0 {
        Seq::empty()
    } else {
        frame_lines(frames.drop_last()) + frame_line(frames.len(), frames.last())
    }
}

/// The first `n` frames.
pub open spec fn top_frames(frames: Seq<StackFrame>, n: int) -> Seq<StackFrame> {
    if frames.len() > n {
        frames.take(n)
    } else {
        frames
    }
}

/// The section on the call stack; empty without frames.
pub open spec fn stack_section(o: Option<CapturedCallStack>) -> Seq<char> {
    match o {
        Some(s) => if s.frames@.len() == 0 {
            Seq::empty()
        } else {
            "## WASM Call Stack\n"@ + "Captured at: "@ + s.captured_at@ + "\n"@ + frame_lines(
                top_frames(s.frames@, MAX_FRAMES as int),
            ) + "\n"@
        },
        None => Seq::empty(),
    }
}

/// One line of the recovery actions.
pub open spec fn action_line(number: nat, a: RecoveryAction, confidence: Seq<char>) -> Seq<char> {
    text::decimal(number) + ". ("@ + a.source.name_spec() + ", conf="@ + confidence + ")"@ + (
    if a.non_retryable {
        " [non-retryable]"@
    } else {
        ""@
    }) + " "@ + a.description@ + "\n"@
}

/// The lines of the recovery actions.
pub open spec fn action_lines(
    actions: Seq<RecoveryAction>,
    confidences: Seq<Seq<char>>,
) -> Seq<char>
    decreases actions.len(),
{
    if actions.len() == 0 {
        Seq::empty()
    } else {
        action_lines(actions.drop_last(), confidences) + action_line(
            actions.len(),
            actions.last(),
            confidences[actions.len() - 1],
        )
    }
}

/// The section on recovery; empty without actions.
pub open spec fn recovery_section(
    actions: Seq<RecoveryAction>,
    confidences: Seq<Seq<char>>,
) -> Seq<char> {
    if actions.len() == 0 {
        Seq::empty()
    } else {
        "## Suggested Recovery Actions\n"@ + action_lines(actions, confidences) + "\n"@
    }
}

/// The lines of the patterns.
pub open spec fn pattern_lines(patterns: Seq<Seq<char>>) -> Seq<char>
    decreases patterns.len(),
{
    if patterns.len() == 0 {
        Seq::empty()
    } else {
        pattern_lines(patterns.drop_last()) + "- "@ + patterns.last() + "\n"@
    }
}

/// The section on patterns; empty without them.
pub open spec fn pattern_section(patterns: Seq<Seq<char>>) -> Seq<char> {
    if patterns.len() == 0 {
        Seq::empty()
    } else {
        "## Previously Successful Approaches\n"@ + pattern_lines(patterns)
    }
}

/// The whole text for a language model, where `confidences` are those of the
/// actions with two decimals.
pub open spec fn llm_context(log: ErrorLog, confidences: Seq<Seq<char>>) -> Seq<char> {
    "## Error Detected\n"@ + "Type: "@ + log.error_type@ + "\n"@ + "Operation: "@ + log.operation@
        + "\n"@ + "Description: "@ + log.description@ + "\n\n"@ + stack_section(log.call_stack)
        + "## System State\n"@ + "CPU: "@ + log.resources.cpu_usage@ + "%\n"@ + "Memory: "@ + text::decimal(
        log.resources.memory_used_mb as nat,
    ) + " MB / "@ + text::decimal(log.resources.memory_limit_mb as nat) + " MB\n\n"@
        + recovery_section(log.recovery_actions@, confidences) + pattern_section(
        text::texts(log.successful_patterns@),
    )
}

fn frame_text(number: u64, f: &StackFrame) -> (r: String)
    ensures
        r@ == frame_line(number as nat, *f),
{
    let mut out = text::to_decimal(number);
    out.append(". ");
    match &f.module_name {
        Some(t) => {
            out.append(t.as_str());
        },
        None => {
            out.append("<unknown>");
        },
    }
    out.append("!");
    match &f.func_name {
        Some(t) => {
            out.append(t.as_str());
        },
        None => {
            out.append("<unknown>");
        },
    }
    out.append(" func_index=");
    out.append(text::to_decimal(f.func_index as u64).as_str());
    let ghost before = out@;
    if let Some(n) = f.module_offset {
        let offset = text::cat2(" module_offset=0x", text::to_hexadecimal(n).as_str());
        out.append(offset.as_str());
    }
    proof {
        assert(out@ =~= before + offset_text(f.module_offset));
    }
    out.append("\n");
    out
}

fn stack_text(o: &Option<CapturedCallStack>) -> (r: String)
    ensures
        r@ == stack_section(*o),
{
    let mut out = String::new();
    if let Some(s) = o {
        if s.frames.len() > 0 {
            let head = text::cat4("## WASM Call Stack\n", "Captured at: ", s.captured_at.as_str(), "\n");
            let n: usize = if s.frames.len() > MAX_FRAMES {
                MAX_FRAMES
            } else {
                s.frames.len()
            };
            let ghost top = top_frames(s.frames@, MAX_FRAMES as int);
            let mut lines = String::new();
            let mut i: usize = 0;
            while i < n
                invariant
                    i <= n,
                    n <= s.frames.len(),
                    n <= MAX_FRAMES,
                    top == s.frames@.take(n as int),
                    lines@ == frame_lines(top.take(i as int)),
                decreases n - i,
            {
                proof {
                    assert(top.take(i + 1).drop_last() =~= top.take(i as int));
                    assert(top.take(i + 1).last() == s.frames@[i as int]);
                }
                lines.append(frame_text(i as u64 + 1, &s.frames[i]).as_str());
                i = i + 1;
            }
            proof {
                assert(top.take(i as int) =~= top);
            }
            out = text::cat3(head.as_str(), lines.as_str(), "\n");
        }
    }
    out
}

fn action_text(number: u64, a: &RecoveryAction, confidence: &str) -> (r: String)
    ensures
        r@ == action_line(number as nat, *a, confidence@),
{
    let mut out = text::to_decimal(number);
    out.append(". (");
    out.append(a.source.name());
    out.append(", conf=");
    out.append(confidence);
    out.append(")");
    if a.non_retryable {
        out.append(" [non-retryable]");
    } else {
        out.append("");
    }
    out.append(" ");
    out.append(a.description.as_str());
    out.append("\n");
    out
}

fn recovery_text(actions: &Vec<RecoveryAction>, confidences: &Vec<String>) -> (r: String)
    requires
        confidences@.len() == actions@.len(),
    ensures
        r@ == recovery_section(actions@, text::texts(confidences@)),
{
    if actions.len() == 0 {
        return String::new();
    }
    let ghost all = actions@;
    let mut lines = String::new();
    let mut i: usize = 0;
    while i < actions.len()
        invariant
            i <= actions.len(),
            all == actions@,
            confidences@.len() == actions@.len(),
            lines@ == action_lines(all.take(i as int), text::texts(confidences@)),
        decreases actions.len() - i,
    {
        proof {
            assert(all.take(i + 1).drop_last() =~= all.take(i as int));
            assert(all.take(i + 1).last() == actions@[i as int]);
        }
        lines.append(action_text(i as u64 + 1, &actions[i], confidences[i].as_str()).as_str());
        i = i + 1;
    }
    proof {
        assert(all.take(i as int) =~= all);
    }
    text::cat3("## Suggested Recovery Actions\n", lines.as_str(), "\n")
}

fn pattern_text(patterns: &Vec<String>) -> (r: String)
    ensures
        r@ == pattern_section(text::texts(patterns@)),
{
    if patterns.len() == 0 {
        return String::new();
    }
    let ghost all = text::texts(patterns@);
    let mut lines = String::new();
    let mut i: usize = 0;
    while i < patterns.len()
        invariant
            i <= patterns.len(),
            all == text::texts(patterns@),
            lines@ == pattern_lines(all.take(i as int)),
        decreases patterns.len() - i,
    {
        proof {
            assert(all.take(i + 1).drop_last() =~= all.take(i as int));
            assert(all.take(i + 1).last() == patterns@[i as int]@);
        }
        lines.append("- ");
        lines.append(patterns[i].as_str());
        lines.append("\n");
        i = i + 1;
    }
    proof {
        assert(all.take(i as int) =~= all);
    }
    text::cat2("## Previously Successful Approaches\n", lines.as_str())
}

impl ErrorLog {
    /// The log of a failure. Its identifier and its time are passed in.
    pub fn new(
        id: String,
        timestamp: String,
        operation: String,
        failure_mode: FailureMode,
        resources: ResourceSnapshot,
    ) -> (r: Self)
        ensures
            log_consistent(r),
            r.id == id,
            r.timestamp == timestamp,
            r.operation == operation,
            r.failure_mode == failure_mode,
            r.resources == resources,
            r.recovery_actions@.len() == 0,
            r.successful_patterns@.len() == 0,
            r.call_stack is None,
            nothing_noted(r.system_state),
    {
        let trigger_status = HealthStatus::from(&failure_mode);
        let error_type = failure_mode.category().to_string();
        let description = failure_mode.describe();
        ErrorLog {
            id,
            error_type,
            timestamp,
            operation,
            description,
            system_state: SystemState::default(),
            failure_mode,
            recovery_actions: Vec::new(),
            successful_patterns: Vec::new(),
            call_stack: None,
            trigger_status,
            resources,
        }
    }

    /// The log with these recovery actions.
    pub fn with_recovery(self, actions: Vec<RecoveryAction>) -> (r: Self)
        ensures
            r == (ErrorLog { recovery_actions: actions, ..self }),
    {
        let mut log = self;
        log.recovery_actions = actions;
        log
    }

    /// The log with these patterns.
    pub fn with_patterns(self, patterns: Vec<String>) -> (r: Self)
        ensures
            r == (ErrorLog { successful_patterns: patterns, ..self }),
    {
        let mut log = self;
        log.successful_patterns = patterns;
        log
    }

    /// The log with this system state.
    pub fn with_system_state(self, system_state: SystemState) -> (r: Self)
        ensures
            r == (ErrorLog { system_state, ..self }),
    {
        let mut log = self;
        log.system_state = system_state;
        log
    }

    /// The log with this call stack.
    pub fn with_call_stack(self, call_stack: Option<CapturedCallStack>) -> (r: Self)
        ensures
            r == (ErrorLog { call_stack, ..self }),
    {
        let mut log = self;
        log.call_stack = call_stack;
        log
    }

    /// The text for a language model. The confidences of the actions are passed in
    /// as texts with two decimals.
    pub fn to_llm_context(&self, confidences: &Vec<String>) -> (r: String)
        requires
            confidences@.len() == self.recovery_actions@.len(),
        ensures
            r@ == llm_context(*self, text::texts(confidences@)),
    {
        let mut out = String::new();
        out.append("## Error Detected\n");
        out.append("Type: ");
        out.append(self.error_type.as_str());
        out.append("\n");
        out.append("Operation: ");
        out.append(self.operation.as_str());
        out.append("\n");
        out.append("Description: ");
        out.append(self.description.as_str());
        out.append("\n\n");
        out.append(stack_text(&self.call_stack).as_str());
        out.append("## System State\n");
        out.append("CPU: ");
        out.append(self.resources.cpu_usage.as_str());
        out.append("%\n");
        out.append("Memory: ");
        out.append(text::to_decimal(self.resources.memory_used_mb).as_str());
        out.append(" MB / ");
        out.append(text::to_decimal(self.resources.memory_limit_mb).as_str());
        out.append(" MB\n\n");
        out.append(recovery_text(&self.recovery_actions, confidences).as_str());
        out.append(pattern_text(&self.successful_patterns).as_str());
        proof {
            assert(out@ =~= llm_context(*self, text::texts(confidences@)));
        }
        out
    }
}

/// A log tells one failure: its type, its description and its status are those
/// of the failure.
pub proof fn lemma_logs_tell_their_failure(log: ErrorLog)
    requires
        log_consistent(log),
    ensures
        log.error_type@ == log.failure_mode@.category(),
        log.description@ == log.failure_mode@.description(),
        log.trigger_status == log.failure_mode@.status(),
        log.trigger_status != HealthStatus::Healthy,
{
}

/// A line of the stack numbers its frame and names the module, the function and
/// where it stands, as far as they are known.
pub proof fn lemma_frames_are_named(number: nat, f: StackFrame)
    ensures
        text::starts(frame_line(number, f), text::decimal(number) + ". "@),
        f.module_name matches Some(m) ==> f.func_name matches Some(n) ==> text::has_text(
            frame_line(number, f),
            m@ + "!"@ + n@,
        ),
        f.module_offset matches Some(n) ==> text::ends(
            frame_line(number, f),
            text::hexadecimal(n as nat) + "\n"@,
        ),
{
    let head = text::decimal(number) + ". "@;
    let m = name_or_unknown(f.module_name);
    let n = name_or_unknown(f.func_name);
    let mid = m + "!"@ + n;
    let at = " func_index="@ + text::decimal(f.func_index as nat);
    let tail = offset_text(f.module_offset) + "\n"@;
    let line = frame_line(number, f);
    assert(line =~= head + mid + (at + tail));
    assert(line.subrange(0, head.len() as int) =~= head);
    text::lemma_part_is_held(head, mid, at + tail);
    if f.module_offset is Some {
        let h = text::hexadecimal(f.module_offset->0 as nat) + "\n"@;
        assert(line =~= head + mid + at + " module_offset=0x"@ + h);
        assert(line.subrange(line.len() - h.len(), line.len() as int) =~= h);
    }
}

/// A line of an action numbers it and says who proposes it and what; what must
/// not be tried again is marked.
pub proof fn lemma_actions_are_told(number: nat, a: RecoveryAction, confidence: Seq<char>)
    ensures
        text::starts(
            action_line(number, a, confidence),
            text::decimal(number) + ". ("@ + a.source.name_spec(),
        ),
        text::ends(action_line(number, a, confidence), " "@ + a.description@ + "\n"@),
        a.non_retryable ==> text::has_text(
            action_line(number, a, confidence),
            " [non-retryable]"@,
        ),
        text::has_text(action_line(number, a, confidence), ", conf="@ + confidence),
{
    let head = text::decimal(number) + ". ("@ + a.source.name_spec();
    let conf = ", conf="@ + confidence;
    let mark = if a.non_retryable {
        " [non-retryable]"@
    } else {
        ""@
    };
    let tail = " "@ + a.description@ + "\n"@;
    let line = action_line(number, a, confidence);
    assert(line =~= head + conf + ")"@ + mark + tail);
    assert(line.subrange(0, head.len() as int) =~= head);
    assert(line.subrange(line.len() - tail.len(), line.len() as int) =~= tail);
    text::lemma_part_is_held(head, conf, ")"@ + mark + tail);
    assert(line =~= head + conf + (")"@ + mark + tail));
    text::lemma_part_is_held(head + conf + ")"@, mark, tail);
}

/// All the actions are told, in their order and each with its confidence.
pub proof fn lemma_all_actions_are_told(
    actions: Seq<RecoveryAction>,
    confidences: Seq<Seq<char>>,
    i: int,
)
    requires
        0 <= i < actions.len(),
    ensures
        text::has_text(
            action_lines(actions, confidences),
            action_line((i + 1) as nat, actions[i], confidences[i]),
        ),
    decreases actions.len(),
{
    let before = action_lines(actions.drop_last(), confidences);
    let last = action_line(actions.len(), actions.last(), confidences[actions.len() - 1]);
    if i < actions.len() - 1 {
        lemma_all_actions_are_told(actions.drop_last(), confidences, i);
        text::lemma_held_in_longer(
            Seq::empty(),
            before,
            last,
            action_line((i + 1) as nat, actions[i], confidences[i]),
        );
    } else {
        text::lemma_part_is_held(before, last, Seq::empty());
        assert(before + last + Seq::<char>::empty() =~= before + last);
    }
}

/// Of a stack the topmost frames are told, all of them up to eight.
pub proof fn lemma_top_frames_are_told(frames: Seq<StackFrame>)
    ensures
        frames.len() <= 8 ==> top_frames(frames, 8) == frames,
        frames.len() > 8 ==> top_frames(frames, 8).len() == 8 && top_frames(frames, 8)
            == frames.subrange(0, 8),
{
    if frames.len() > 8 {
        assert(frames.take(8) =~= frames.subrange(0, 8));
    }
}

/// What a model is told of a failure: its type, the operation and the
/// description in front; then, where there are any, the stack, the suggested
/// actions and what helped before.
pub proof fn lemma_context_tells_the_failure(log: ErrorLog, confidences: Seq<Seq<char>>)
    ensures
        text::starts(llm_context(log, confidences), "## Error Detected\nType: "@ + log.error_type@),
        text::has_text(
            llm_context(log, confidences),
            recovery_section(log.recovery_actions@, confidences),
        ),
        text::ends(
            llm_context(log, confidences),
            pattern_section(text::texts(log.successful_patterns@)),
        ),
        text::has_text(llm_context(log, confidences), stack_section(log.call_stack)),
        text::has_text(llm_context(log, confidences), "Operation: "@ + log.operation@),
        text::has_text(llm_context(log, confidences), "Description: "@ + log.description@),
{
    let none = Seq::<char>::empty();
    let h0 = "## Error Detected\n"@ + "Type: "@ + log.error_type@;
    let h1 = h0 + "\n"@;
    let h2 = h1 + "Operation: "@ + log.operation@;
    let h3 = h2 + "\n"@;
    let h4 = h3 + "Description: "@ + log.description@;
    let h5 = h4 + "\n\n"@;
    let stack = stack_section(log.call_stack);
    let h6 = h5 + stack;
    let state = "## System State\n"@ + "CPU: "@ + log.resources.cpu_usage@ + "%\n"@ + "Memory: "@
        + text::decimal(log.resources.memory_used_mb as nat) + " MB / "@ + text::decimal(
        log.resources.memory_limit_mb as nat,
    ) + " MB\n\n"@;
    let rec = recovery_section(log.recovery_actions@, confidences);
    let pat = pattern_section(text::texts(log.successful_patterns@));
    let whole = llm_context(log, confidences);
    lemma_state_regrouped(
        h6,
        log.resources.cpu_usage@,
        text::decimal(log.resources.memory_used_mb as nat),
        text::decimal(log.resources.memory_limit_mb as nat),
    );
    assert(whole == h6 + state + rec + pat);
    let rest = stack + state + rec + pat;
    assert(whole =~= h5 + rest);
    lemma_head_told(log.error_type@, log.operation@, log.description@, rest);
    text::lemma_part_is_held(h5, stack, state);
    text::lemma_held_in_longer(none, h6 + state, rec, stack);
    text::lemma_held_in_longer(none, h6 + state + rec, pat, stack);
    text::lemma_part_is_held(h6 + state, rec, pat);
    assert(whole.subrange(whole.len() - pat.len(), whole.len() as int) =~= pat);
}

proof fn lemma_state_regrouped(
    h: Seq<char>,
    cpu: Seq<char>,
    used: Seq<char>,
    limit: Seq<char>,
)
    ensures
        h + "## System State\n"@ + "CPU: "@ + cpu + "%\n"@ + "Memory: "@ + used + " MB / "@ + limit
            + " MB\n\n"@ == h + ("## System State\n"@ + "CPU: "@ + cpu + "%\n"@ + "Memory: "@
            + used + " MB / "@ + limit + " MB\n\n"@),
{
    let s1 = "## System State\n"@ + "CPU: "@;
    assert(h + "## System State\n"@ + "CPU: "@ =~= h + s1);
    let s2 = s1 + cpu;
    assert(h + s1 + cpu =~= h + s2);
    let s3 = s2 + "%\n"@;
    assert(h + s2 + "%\n"@ =~= h + s3);
    let s4 = s3 + "Memory: "@;
    assert(h + s3 + "Memory: "@ =~= h + s4);
    let s5 = s4 + used;
    assert(h + s4 + used =~= h + s5);
    let s6 = s5 + " MB / "@;
    assert(h + s5 + " MB / "@ =~= h + s6);
    let s7 = s6 + limit;
    assert(h + s6 + limit =~= h + s7);
    assert(h + s7 + " MB\n\n"@ =~= h + (s7 + " MB\n\n"@));
}

proof fn lemma_head_told(
    kind: Seq<char>,
    operation: Seq<char>,
    description: Seq<char>,
    rest: Seq<char>,
)
    ensures
        ({
            let whole = "## Error Detected\n"@ + "Type: "@ + kind + "\n"@ + "Operation: "@
                + operation + "\n"@ + "Description: "@ + description + "\n\n"@ + rest;
            &&& text::starts(whole, "## Error Detected\nType: "@ + kind)
            &&& text::has_text(whole, "Operation: "@ + operation)
            &&& text::has_text(whole, "Description: "@ + description)
        }),
{
    assert("## Error Detected\nType: "@ =~= "## Error Detected\n"@ + "Type: "@) by {
        reveal_strlit("## Error Detected\nType: ");
        reveal_strlit("## Error Detected\n");
        reveal_strlit("Type: ");
    }
    let h0 = "## Error Detected\n"@ + "Type: "@ + kind;
    let h1 = h0 + "\n"@;
    lemma_part_told(h1, "Operation: "@, operation, "\n"@);
    let h3 = h1 + "Operation: "@ + operation + "\n"@;
    let op = "Operation: "@ + operation;
    lemma_told_on(h3, "Description: "@, description, "\n\n"@, rest, op);
    lemma_part_told(h3, "Description: "@, description, "\n\n"@);
    let h5 = h3 + "Description: "@ + description + "\n\n"@;
    text::lemma_held_in_longer(Seq::empty(), h5, rest, "Description: "@ + description);
    lemma_start_told(
        h0,
        "\n"@ + "Operation: "@ + operation + "\n"@ + "Description: "@ + description + "\n\n"@
            + rest,
    );
    lemma_rest_regrouped(h0, operation, description, rest);
}

proof fn lemma_part_told(h: Seq<char>, name: Seq<char>, value: Seq<char>, after: Seq<char>)
    ensures
        text::has_text(h + name + value + after, name + value),
{
    text::lemma_part_is_held(h, name + value, after);
    assert(h + (name + value) + after =~= h + name + value + after);
}

proof fn lemma_told_on(
    h: Seq<char>,
    a: Seq<char>,
    b: Seq<char>,
    c: Seq<char>,
    d: Seq<char>,
    p: Seq<char>,
)
    requires
        text::has_text(h, p),
    ensures
        text::has_text(h + a + b + c + d, p),
{
    let none = Seq::<char>::empty();
    text::lemma_held_in_longer(none, h, a, p);
    text::lemma_held_in_longer(none, h + a, b, p);
    text::lemma_held_in_longer(none, h + a + b, c, p);
    text::lemma_held_in_longer(none, h + a + b + c, d, p);
}

proof fn lemma_start_told(h: Seq<char>, rest: Seq<char>)
    ensures
        text::starts(h + rest, h),
{
    assert((h + rest).subrange(0, h.len() as int) =~= h);
}

proof fn lemma_rest_regrouped(
    h: Seq<char>,
    operation: Seq<char>,
    description: Seq<char>,
    rest: Seq<char>,
)
    ensures
        h + "\n"@ + "Operation: "@ + operation + "\n"@ + "Description: "@ + description + "\n\n"@
            + rest == h + ("\n"@ + "Operation: "@ + operation + "\n"@ + "Description: "@
            + description + "\n\n"@ + rest),
{
    let s1 = "\n"@ + "Operation: "@;
    assert(h + "\n"@ + "Operation: "@ =~= h + s1);
    let s2 = s1 + operation;
    assert(h + s1 + operation =~= h + s2);
    let s3 = s2 + "\n"@;
    assert(h + s2 + "\n"@ =~= h + s3);
    let s4 = s3 + "Description: "@;
    assert(h + s3 + "Description: "@ =~= h + s4);
    let s5 = s4 + description;
    assert(h + s4 + description =~= h + s5);
    let s6 = s5 + "\n\n"@;
    assert(h + s5 + "\n\n"@ =~= h + s6);
    assert(h + s6 + rest =~= h + (s6 + rest));
}

/// Every frame that is told has its line, under its number.
pub proof fn lemma_every_frame_has_its_line(frames: Seq<StackFrame>, i: int)
    requires
        0 <= i < frames.len(),
    ensures
        text::has_text(frame_lines(frames), frame_line((i + 1) as nat, frames[i])),
    decreases frames.len(),
{
    let before = frame_lines(frames.drop_last());
    let last = frame_line(frames.len(), frames.last());
    let none = Seq::<char>::empty();
    if i < frames.len() - 1 {
        lemma_every_frame_has_its_line(frames.drop_last(), i);
        let l = frame_line((i + 1) as nat, frames[i]);
        text::lemma_held_in_longer(none, before, last, l);
        assert(none + before + last =~= before + last);
    } else {
        text::lemma_part_is_held(before, last, none);
        assert(before + last + none =~= before + last);
    }
}

} // verus!
