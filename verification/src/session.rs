//! The command line: what a line of a session asks for, how the daemon is
//! reached, and what is reported.

use crate::daemon::{DaemonAeonExecuteOptions, DaemonRequest, DaemonResponse};
use crate::env;
use crate::hypervisor::tool::ToolOutput;
use crate::ids;
use crate::mcp::execute::ExecutionRecord;
use crate::profile::ValidationError;
use crate::text;
use vstd::prelude::*;
use vstd::string::*;

verus! {

/// Whether a session goes on.
#[derive(Debug, Clone, Copy, PartialEq, Eq, Structural)]
pub enum SessionFlow {
    Continue,
    Quit,
}

/// What a line asks for.
#[derive(Debug, Clone, PartialEq, Eq)]
pub enum SessionCommand {
    /// Nothing: the line is blank.
    Nothing,
    Help,
    Stats,
    /// The latest executions, so many of them.
    History(usize),
    Snapshots,
    /// To go back to this snapshot.
    Rollback(String),
    Quit,
    /// The line is wrong; this is said about it.
    Wrong(String),
    /// The command is not known.
    Unknown(String),
}

/// What a line asks for, by its contents.
pub enum Order {
    Nothing,
    Help,
    Stats,
    History(usize),
    Snapshots,
    Rollback(Seq<char>),
    Quit,
    Wrong(Seq<char>),
    Unknown(Seq<char>),
}

impl View for SessionCommand {
    type V = Order;

    open spec fn view(&self) -> Order {
        match self {
            SessionCommand::Nothing => Order::Nothing,
            SessionCommand::Help => Order::Help,
            SessionCommand::Stats => Order::Stats,
            SessionCommand::History(n) => Order::History(*n),
            SessionCommand::Snapshots => Order::Snapshots,
            SessionCommand::Rollback(id) => Order::Rollback(id@),
            SessionCommand::Quit => Order::Quit,
            SessionCommand::Wrong(m) => Order::Wrong(m@),
            SessionCommand::Unknown(c) => Order::Unknown(c@),
        }
    }
}

/// The complaint about a number of executions.
pub open spec fn limit_fault(raw: Seq<char>) -> Seq<char> {
    "❌ Invalid history limit '"@ + raw + "': "@ + (match text::number(raw) {
        Some(n) => if n <= u64::MAX {
            "number too large to fit in target type"@
        } else {
            env::number_fault(raw)
        },
        None => env::number_fault(raw),
    })
}

/// What the words behind `history` ask for.
pub open spec fn history_order(rest: Seq<Seq<char>>) -> Order {
    if rest.len() == 0 {
        Order::History(10)
    } else {
        match text::number(rest[0]) {
            Some(n) => if n <= usize::MAX {
                if rest.len() > 1 {
                    Order::Wrong("❌ Usage: history [N]"@)
                } else {
                    Order::History(n as usize)
                }
            } else {
                Order::Wrong(limit_fault(rest[0]))
            },
            None => Order::Wrong(limit_fault(rest[0])),
        }
    }
}

/// What the words behind `rollback` ask for, when `reading` is what a reading of
/// the identifier came to.
pub open spec fn rollback_order(
    rest: Seq<Seq<char>>,
    reading: Result<Seq<char>, Seq<char>>,
) -> Order {
    if rest.len() != 1 {
        Order::Wrong("❌ Usage: rollback <uuid>"@)
    } else {
        match reading {
            Ok(id) => Order::Rollback(id),
            Err(e) => Order::Wrong("❌ Invalid snapshot id '"@ + rest[0] + "': "@ + e),
        }
    }
}

/// The word behind the command, or nothing.
pub open spec fn second_word(line: Seq<char>) -> Seq<char> {
    let words = text::words(line);
    if words.len() > 1 {
        words[1]
    } else {
        ""@
    }
}

/// What a line asks for, when `reading` is what a reading of its second word as
/// an identifier came to.
pub open spec fn order_of(line: Seq<char>, reading: Result<Seq<char>, Seq<char>>) -> Order {
    let words = text::words(line);
    if words.len() == 0 {
        Order::Nothing
    } else if words[0] == "help"@ {
        Order::Help
    } else if words[0] == "stats"@ {
        Order::Stats
    } else if words[0] == "history"@ {
        history_order(words.skip(1))
    } else if words[0] == "snapshots"@ {
        Order::Snapshots
    } else if words[0] == "rollback"@ {
        rollback_order(words.skip(1), reading)
    } else if words[0] == "quit"@ || words[0] == "exit"@ {
        Order::Quit
    } else {
        Order::Unknown(words[0])
    }
}

/// What a line asks for, when `reading` is what a reading of its second word as
/// an identifier came to.
pub fn parse_session_line(line: &str, reading: &Result<String, String>) -> (r: SessionCommand)
    ensures
        r@ == order_of(line@, ids::reading(*reading)),
{
    let words = text::split_words(line);
    let ghost all = text::words(line@);
    assert(all == text::texts(words@));
    if words.len() == 0 {
        return SessionCommand::Nothing;
    }
    let command = words[0].as_str();
    let count = words.len();
    proof {
        assert(all[0] == words@[0]@);
        assert(all.skip(1).len() == count - 1);
        if count > 1 {
            assert(all.skip(1)[0] == words@[1]@);
        }
    }
    if text::same_text(command, "help") {
        SessionCommand::Help
    } else if text::same_text(command, "stats") {
        SessionCommand::Stats
    } else if text::same_text(command, "history") {
        if count == 1 {
            return SessionCommand::History(10);
        }
        let raw = words[1].as_str();
        match text::parse_number(raw) {
            Some(n) => {
                if n <= usize::MAX as u64 {
                    if count > 2 {
                        SessionCommand::Wrong("❌ Usage: history [N]".to_string())
                    } else {
                        SessionCommand::History(n as usize)
                    }
                } else {
                    SessionCommand::Wrong(
                        text::cat4(
                            "❌ Invalid history limit '",
                            raw,
                            "': ",
                            "number too large to fit in target type",
                        ),
                    )
                }
            },
            None => {
                let why = env::number_fault_text(raw);
                SessionCommand::Wrong(
                    text::cat4("❌ Invalid history limit '", raw, "': ", why.as_str()),
                )
            },
        }
    } else if text::same_text(command, "snapshots") {
        SessionCommand::Snapshots
    } else if text::same_text(command, "rollback") {
        if count != 2 {
            return SessionCommand::Wrong("❌ Usage: rollback <uuid>".to_string());
        }
        match reading {
            Ok(id) => SessionCommand::Rollback(id.clone()),
            Err(e) => SessionCommand::Wrong(
                text::cat4("❌ Invalid snapshot id '", words[1].as_str(), "': ", e.as_str()),
            ),
        }
    } else if text::same_text(command, "quit") || text::same_text(command, "exit") {
        SessionCommand::Quit
    } else {
        SessionCommand::Unknown(words[0].clone())
    }
}

/// What a line asks for, and whether the session goes on after it.
pub fn dispatch_session_command(line: &str) -> (r: (SessionCommand, SessionFlow))
    ensures
        (r.0)@ == order_of(line@, ids::uuid_reading(second_word(line@))),
        r.1 == SessionFlow::Quit <==> (r.0)@ is Quit,
{
    let words = text::split_words(line);
    assert(text::words(line@) == text::texts(words@));
    let second: String = if words.len() > 1 {
        words[1].clone()
    } else {
        "".to_string()
    };
    let reading = ids::parse_uuid(second.as_str());
    let command = parse_session_line(line, &reading);
    let flow = match &command {
        SessionCommand::Quit => SessionFlow::Quit,
        _ => SessionFlow::Continue,
    };
    (command, flow)
}

/// The demonstrations.
#[derive(Debug, Clone, Copy, PartialEq, Eq, Structural)]
pub enum Demo {
    InfiniteLoop,
    Corruption,
    Memory,
}

/// The demonstrations that a name stands for; none where it is not known.
pub fn choose_demos(name: &str) -> (r: Vec<Demo>)
    ensures
        r@ == demos_named(name@),
{
    let mut v: Vec<Demo> = Vec::new();
    if text::same_text(name, "infinite-loop") {
        v.push(Demo::InfiniteLoop);
    } else if text::same_text(name, "corruption") {
        v.push(Demo::Corruption);
    } else if text::same_text(name, "memory") {
        v.push(Demo::Memory);
    } else if text::same_text(name, "all") {
        v.push(Demo::InfiniteLoop);
        v.push(Demo::Corruption);
        v.push(Demo::Memory);
    }
    v
}

/// How often the daemon is tried.
pub const CONNECT_ATTEMPTS: u64 = 20;

/// What follows an attempt to reach the daemon.
#[derive(Debug, Clone, Copy, PartialEq, Eq, Structural)]
pub enum ConnectStep {
    Connected,
    /// Start the daemon, and try again after so many milliseconds.
    StartAndWait(u64),
    /// Try again after so many milliseconds.
    Wait(u64),
    GiveUp,
}

/// What follows attempt number `attempt`, counted from zero.
pub open spec fn connect_step(attempt: nat, connected: bool, started: bool) -> ConnectStep {
    if attempt >= CONNECT_ATTEMPTS {
        ConnectStep::GiveUp
    } else if connected {
        ConnectStep::Connected
    } else if !started {
        ConnectStep::StartAndWait((50 * (attempt + 1)) as u64)
    } else {
        ConnectStep::Wait((50 * (attempt + 1)) as u64)
    }
}

/// What follows an attempt to reach the daemon. It is started after the first
/// attempt that fails, and then given longer and longer to come up.
pub fn after_connect(attempt: u64, connected: bool, started: bool) -> (r: ConnectStep)
    ensures
        r == connect_step(attempt as nat, connected, started),
{
    if attempt >= CONNECT_ATTEMPTS {
        ConnectStep::GiveUp
    } else if connected {
        ConnectStep::Connected
    } else if !started {
        ConnectStep::StartAndWait(50 * (attempt + 1))
    } else {
        ConnectStep::Wait(50 * (attempt + 1))
    }
}

/// Whether `r` is the request to run a module from a file of this stem.
pub open spec fn is_run_request(
    r: DaemonRequest,
    stem: Option<Seq<char>>,
    bytes: Vec<u8>,
    entry: String,
    auth_token: Option<String>,
) -> bool {
    match r {
        DaemonRequest::Execute {
            name,
            wasm_bytes,
            wasm_path,
            entry: e,
            input,
            auth_token: t,
            aeon,
        } => {
            &&& name@ == (match stem {
                Some(s) => s,
                None => "tool"@,
            })
            &&& wasm_bytes == Some(bytes)
            &&& wasm_path is None
            &&& e == entry
            &&& input@ == "{}"@
            &&& t == auth_token
            &&& aeon == (DaemonAeonExecuteOptions {
                aeon_agent_id: None,
                aeon_session_id: None,
                aeon_memory_evidence_digest: None,
                required_capabilities: None,
                emit_proof: false,
                caller_capabilities: None,
                attestation_mode: None,
            })
        },
        _ => false,
    }
}

/// The request to run a module. `stem` is the name of its file, without the
/// ending.
pub fn run_request(
    stem: Option<&str>,
    bytes: Vec<u8>,
    entry: String,
    auth_token: Option<String>,
) -> (r: DaemonRequest)
    ensures
        is_run_request(
            r,
            match stem {
                Some(s) => Some(s@),
                None => None,
            },
            bytes,
            entry,
            auth_token,
        ),
{
    let name: String = match stem {
        Some(s) => s.to_string(),
        None => "tool".to_string(),
    };
    DaemonRequest::Execute {
        name,
        wasm_bytes: Some(bytes),
        wasm_path: None,
        entry,
        input: "{}".to_string(),
        auth_token,
        aeon: DaemonAeonExecuteOptions::default(),
    }
}

/// What is reported of an execution.
pub open spec fn run_lines(o: ToolOutput) -> Seq<Seq<char>> {
    if o.success {
        seq![
            "[nexus run] OK ("@ + text::decimal(o.execution_time_ms as nat) + "ms, fuel="@
                + text::decimal(o.fuel_consumed as nat) + ")"@,
        ]
    } else {
        let first = "[nexus run] FAIL ("@ + text::decimal(o.execution_time_ms as nat) + "ms): "@ + (
        match o.error {
            Some(e) => e@,
            None => "<no message>"@,
        });
        if o.rollback_performed {
            seq![first, "           rollback_performed=true"@]
        } else {
            seq![first]
        }
    }
}

/// What is reported of the daemon's answer to a request to run a module, or why
/// it failed.
pub fn run_via_daemon(resp: &DaemonResponse) -> (r: Result<Vec<String>, String>)
    ensures
        is_run_report(*resp, r),
{
    match resp {
        DaemonResponse::Error { message, .. } => Err(
            text::cat2("daemon error: ", message.as_str()),
        ),
        DaemonResponse::Pong { .. } => Err("unexpected Pong reply to Execute".to_string()),
        DaemonResponse::Executed { output, .. } => {
            let mut lines: Vec<String> = Vec::new();
            let ms = text::to_decimal(output.execution_time_ms);
            if output.success {
                let fuel = text::to_decimal(output.fuel_consumed);
                lines.push(
                    text::cat5("[nexus run] OK (", ms.as_str(), "ms, fuel=", fuel.as_str(), ")"),
                );
            } else {
                let why: String = match &output.error {
                    Some(e) => e.clone(),
                    None => "<no message>".to_string(),
                };
                lines.push(text::cat4("[nexus run] FAIL (", ms.as_str(), "ms): ", why.as_str()));
                if output.rollback_performed {
                    lines.push("           rollback_performed=true".to_string());
                }
            }
            assert(text::texts(lines@) =~= run_lines(*output));
            Ok(lines)
        },
    }
}

/// What is reported of a profile: one line where it is valid, and otherwise one
/// more for each thing that is wrong with it.
pub fn profile_report(path: &str, errors: &Vec<ValidationError>) -> (r: Vec<String>)
    ensures
        text::texts(r@) == validation_lines(path@, errors@),
{
    let mut lines: Vec<String> = Vec::new();
    if errors.len() == 0 {
        lines.push(text::cat2("profile validation OK: ", path));
        assert(text::texts(lines@) =~= seq!["profile validation OK: "@ + path@]);
        return lines;
    }
    lines.push(text::cat2("profile validation failed: ", path));
    let mut i: usize = 0;
    while i < errors.len()
        invariant
            i <= errors.len(),
            lines@.len() == i + 1,
            lines@[0]@ == "profile validation failed: "@ + path@,
            forall|j: int|
                0 <= j < i ==> (#[trigger] lines@[j + 1])@ == "  - "@ + errors@[j]@.message(),
        decreases errors.len() - i,
    {
        let said = errors[i].to_text();
        lines.push(text::cat2("  - ", said.as_str()));
        i = i + 1;
    }
    proof {
        let want = seq!["profile validation failed: "@ + path@] + Seq::new(
            errors@.len(),
            |i: int| "  - "@ + errors@[i]@.message(),
        );
        assert forall|k: int| 0 <= k < want.len() implies text::texts(lines@)[k] == want[k] by {
            if k > 0 {
                assert(lines@[(k - 1) + 1]@ == "  - "@ + errors@[k - 1]@.message());
            }
        }
        assert(text::texts(lines@) =~= want);
    }
    lines
}

/// What is reported of an execution of the past.
pub open spec fn record_line(r: ExecutionRecord) -> Seq<char> {
    "  "@ + r.timestamp@ + "  "@ + (if r.success {
        "ok"@
    } else {
        "failed"@
    }) + "  "@ + (r.operation@ + "  "@ + text::decimal(r.duration_ms as nat) + "ms  fuel="@
        + text::decimal(r.fuel_consumed as nat))
}

/// What is reported of the executions of the past.
pub open spec fn history_report(records: Seq<ExecutionRecord>) -> Seq<Seq<char>>
    decreases records.len(),
{
    if records.len() == 0 {
        Seq::empty()
    } else {
        let last = records.last();
        let before = history_report(records.drop_last()).push(record_line(last));
        match last.error {
            Some(e) => before.push("      error: "@ + e@),
            None => before,
        }
    }
}

/// What is reported of the executions of the past.
pub fn history_lines(records: &Vec<ExecutionRecord>) -> (r: Vec<String>)
    ensures
        text::texts(r@) == (if records@.len() == 0 {
            seq!["  No execution history yet."@]
        } else {
            history_report(records@)
        }),
{
    let mut lines: Vec<String> = Vec::new();
    if records.len() == 0 {
        lines.push("  No execution history yet.".to_string());
        assert(text::texts(lines@) =~= seq!["  No execution history yet."@]);
        return lines;
    }
    let mut i: usize = 0;
    assert(text::texts(lines@) =~= Seq::<Seq<char>>::empty());
    while i < records.len()
        invariant
            i <= records.len(),
            records@.len() > 0,
            text::texts(lines@) == history_report(records@.take(i as int)),
        decreases records.len() - i,
    {
        let rec = &records[i];
        let ghost had = text::texts(lines@);
        let status: &str = if rec.success {
            "ok"
        } else {
            "failed"
        };
        let ms = text::to_decimal(rec.duration_ms);
        let fuel = text::to_decimal(rec.fuel_consumed);
        let tail = text::cat5(
            rec.operation.as_str(),
            "  ",
            ms.as_str(),
            "ms  fuel=",
            fuel.as_str(),
        );
        let head = text::cat5("  ", rec.timestamp.as_str(), "  ", status, "  ");
        let line = text::cat2(head.as_str(), tail.as_str());
        let ghost lv = line@;
        lines.push(line);
        assert(text::texts(lines@) =~= had.push(lv));
        let ghost mid = text::texts(lines@);
        if let Some(e) = &rec.error {
            let more = text::cat2("      error: ", e.as_str());
            let ghost mv = more@;
            lines.push(more);
            assert(text::texts(lines@) =~= mid.push(mv));
        }
        proof {
            assert(records@.take(i + 1).drop_last() =~= records@.take(i as int));
            assert(records@.take(i + 1).last() == *rec);
        }
        i = i + 1;
    }
    assert(records@.take(records.len() as int) =~= records@);
    lines
}

/// A blank line asks for nothing.
pub proof fn lemma_blank_lines_ask_nothing(
    line: Seq<char>,
    reading: Result<Seq<char>, Seq<char>>,
)
    requires
        env::blank(line),
    ensures
        order_of(line, reading) is Nothing,
{
    text::lemma_blank_has_no_words(line);
}

/// The daemon is started at most once, and tried a bounded number of times: once
/// it was started no step starts it again.
pub proof fn lemma_daemon_is_started_once(attempt: nat, connected: bool)
    ensures
        !(connect_step(attempt, connected, true) is StartAndWait),
        attempt >= CONNECT_ATTEMPTS ==> connect_step(attempt, connected, false) is GiveUp,
        attempt < CONNECT_ATTEMPTS && connected ==> connect_step(attempt, connected, false)
            is Connected,
{
}

/// A line asks for what its first word says.
pub proof fn lemma_lines_ask_by_their_first_word(
    line: Seq<char>,
    reading: Result<Seq<char>, Seq<char>>,
    w: Seq<char>,
)
    requires
        text::words(line).len() > 0,
        w == text::words(line)[0],
    ensures
        order_of(line, reading) is Help <==> w == "help"@,
        order_of(line, reading) is Stats <==> w == "stats"@,
        order_of(line, reading) is Snapshots <==> w == "snapshots"@,
        order_of(line, reading) is Quit <==> w == "quit"@ || w == "exit"@,
        order_of(line, reading) is History ==> w == "history"@,
        order_of(line, reading) is Rollback ==> w == "rollback"@ && reading is Ok && order_of(
            line,
            reading,
        )->Rollback_0 == reading->Ok_0 && text::words(line).len() == 2,
        w == "rollback"@ && text::words(line).len() == 2 && reading is Ok ==> order_of(
            line,
            reading,
        ) == Order::Rollback(reading->Ok_0),
        order_of(line, reading) matches Order::Unknown(u) ==> u == w,
        w == "history"@ && text::words(line).len() == 1 ==> order_of(line, reading)
            == Order::History(10),
        order_of(line, reading) matches Order::History(n) ==> text::words(line).len() == 1 || (
        text::words(line).len() == 2 && text::number(text::words(line)[1]) == Some(n as nat)),
{
    reveal_strlit("help");
    reveal_strlit("stats");
    reveal_strlit("history");
    reveal_strlit("snapshots");
    reveal_strlit("rollback");
    reveal_strlit("quit");
    reveal_strlit("exit");
    assert("help"@[0] == 'h' && "stats"@[0] == 's' && "history"@[0] == 'h' && "snapshots"@[0]
        == 's' && "rollback"@[0] == 'r' && "quit"@[0] == 'q' && "exit"@[0] == 'e');
    assert("help"@.len() == 4 && "stats"@.len() == 5 && "history"@.len() == 7
        && "snapshots"@.len() == 9 && "rollback"@.len() == 8 && "quit"@.len() == 4
        && "exit"@.len() == 4);
    let rest = text::words(line).skip(1);
    assert(rest.len() == text::words(line).len() - 1);
    if rest.len() > 0 {
        assert(rest[0] == text::words(line)[1]);
    }
}

/// A daemon is waited for a little longer each time, and not for ever.
pub proof fn lemma_waits_grow_and_end(attempt: nat, started: bool)
    ensures
        connect_step(attempt, true, started) == ConnectStep::Connected <==> attempt < 20,
        attempt >= 20 ==> connect_step(attempt, false, started) == ConnectStep::GiveUp,
        attempt < 20 ==> connect_step(attempt, false, true) == ConnectStep::Wait(
            (50 * (attempt + 1)) as u64,
        ),
        attempt < 20 ==> connect_step(attempt, false, false) == ConnectStep::StartAndWait(
            (50 * (attempt + 1)) as u64,
        ),
{
}

/// A run is told as it went: what succeeded with what it cost, what failed with
/// its error and, where state was restored, with that.
pub proof fn lemma_runs_are_told(o: ToolOutput)
    ensures
        run_lines(o).len() >= 1,
        run_lines(o).len() == 2 <==> !o.success && o.rollback_performed,
        o.success ==> text::starts(run_lines(o)[0], "[nexus run] OK ("@),
        !o.success ==> text::starts(run_lines(o)[0], "[nexus run] FAIL ("@),
        !o.success && o.error is Some ==> text::ends(run_lines(o)[0], o.error->0@),
        o.success ==> text::has_text(
            run_lines(o)[0],
            "fuel="@ + text::decimal(o.fuel_consumed as nat),
        ),
{
    let l = run_lines(o)[0];
    if o.success {
        let head = "[nexus run] OK ("@;
        assert(l.subrange(0, head.len() as int) =~= head);
        assert("ms, fuel="@ =~= "ms, "@ + "fuel="@) by {
            reveal_strlit("ms, fuel=");
            reveal_strlit("ms, ");
            reveal_strlit("fuel=");
        }
        let before = head + text::decimal(o.execution_time_ms as nat);
        text::lemma_middle_is_held(
            before + "ms, "@,
            "fuel="@,
            text::decimal(o.fuel_consumed as nat),
            Seq::empty(),
            ")"@,
        );
        let part = "fuel="@ + text::decimal(o.fuel_consumed as nat);
        assert(part + Seq::<char>::empty() =~= part);
        assert(l =~= (before + "ms, "@ + "fuel="@) + text::decimal(o.fuel_consumed as nat) + (
        Seq::<char>::empty() + ")"@));
    } else {
        let head = "[nexus run] FAIL ("@;
        assert(l.subrange(0, head.len() as int) =~= head);
        if o.error is Some {
            let e = o.error->0@;
            assert(l.subrange(l.len() - e.len(), l.len() as int) =~= e);
        }
    }
}

/// A history tells each of its runs in a line, and each error in another.
pub proof fn lemma_histories_tell_every_run(records: Seq<ExecutionRecord>, i: int)
    requires
        0 <= i < records.len(),
    ensures
        history_report(records).contains(record_line(records[i])),
        records[i].error matches Some(e) ==> history_report(records).contains(
            "      error: "@ + e@,
        ),
        history_report(records).len() >= records.len(),
    decreases records.len(),
{
    let before = records.drop_last();
    let kept = history_report(before);
    let all = history_report(records);
    if i < records.len() - 1 {
        lemma_histories_tell_every_run(before, i);
        assert(before[i] == records[i]);
        let j = choose|j: int| 0 <= j < kept.len() && kept[j] == record_line(records[i]);
        assert(all[j] == kept[j]);
        if records[i].error is Some {
            let said = "      error: "@ + records[i].error->0@;
            let k = choose|k: int| 0 <= k < kept.len() && kept[k] == said;
            assert(all[k] == kept[k]);
        }
    } else {
        lemma_history_len(before);
        assert(all[kept.len() as int] == record_line(records[i]));
        if records[i].error is Some {
            assert(all[kept.len() as int + 1] == "      error: "@ + records[i].error->0@);
        }
    }
}

proof fn lemma_history_len(records: Seq<ExecutionRecord>)
    ensures
        history_report(records).len() >= records.len(),
    decreases records.len(),
{
    if records.len() > 0 {
        lemma_history_len(records.drop_last());
    }
}

/// A request to run a module is one to run that module: with its bytes, at the
/// given entry point, in the name of its file, and with the caller's token; no
/// proof is asked for.
pub proof fn lemma_run_requests_run_the_module(
    r: DaemonRequest,
    stem: Option<Seq<char>>,
    bytes: Vec<u8>,
    entry: String,
    auth_token: Option<String>,
)
    requires
        is_run_request(r, stem, bytes, entry, auth_token),
    ensures
        r is Execute,
        r->Execute_wasm_bytes is Some && r->Execute_wasm_bytes->0@ == bytes@,
        r->Execute_entry@ == entry@,
        text::opt_text(r->Execute_auth_token) == text::opt_text(auth_token),
        stem matches Some(s) ==> r->Execute_name@ == s,
        !r->Execute_aeon.emit_proof && r->Execute_wasm_path is None,
{
}

/// The demonstrations that a name stands for, in order.
pub open spec fn demos_named(name: Seq<char>) -> Seq<Demo> {
    if name == "infinite-loop"@ {
        seq![Demo::InfiniteLoop]
    } else if name == "corruption"@ {
        seq![Demo::Corruption]
    } else if name == "memory"@ {
        seq![Demo::Memory]
    } else if name == "all"@ {
        seq![Demo::InfiniteLoop, Demo::Corruption, Demo::Memory]
    } else {
        Seq::empty()
    }
}

/// The name of a demonstration.
pub open spec fn demo_name(d: Demo) -> Seq<char> {
    match d {
        Demo::Memory => "memory"@,
        Demo::InfiniteLoop => "infinite-loop"@,
        Demo::Corruption => "corruption"@,
    }
}

/// A demonstration is shown exactly under its own name and under the name for
/// all of them, and no demonstration twice.
pub proof fn lemma_demonstrations_go_by_their_names(name: Seq<char>, d: Demo)
    ensures
        demos_named(name).contains(d) <==> name == demo_name(d) || name == "all"@,
        name == "all"@ ==> demos_named(name).len() == 3,
        name != "all"@ ==> demos_named(name).len() <= 1,
{
    reveal_strlit("infinite-loop");
    reveal_strlit("corruption");
    reveal_strlit("memory");
    reveal_strlit("all");
    assert("infinite-loop"@.len() == 13 && "corruption"@.len() == 10);
    assert("memory"@.len() == 6 && "all"@.len() == 3);
    let s = demos_named(name);
    if s.len() > 0 {
        assert(s[0] == s[0]);
        assert(s.contains(s[0]));
    }
    if name == "all"@ {
        assert(s[0] == Demo::InfiniteLoop && s[1] == Demo::Corruption && s[2] == Demo::Memory);
        assert(s.contains(s[1]) && s.contains(s[2]));
    }
}

/// Whether `r` reports the daemon's answer to a request to run a module.
pub open spec fn is_run_report(resp: DaemonResponse, r: Result<Vec<String>, String>) -> bool {
    match resp {
        DaemonResponse::Executed { output, events, nexusiq } => r is Ok && text::texts(r->Ok_0@)
            == run_lines(output),
        DaemonResponse::Error { message, events, nexusiq } => r is Err && r->Err_0@
            == "daemon error: "@ + message@,
        DaemonResponse::Pong { version } => r is Err && r->Err_0@
            == "unexpected Pong reply to Execute"@,
    }
}

/// A run that the daemon made is reported, whether it went well or not; an error
/// of the daemon is told with its message, and no other answer will do.
pub proof fn lemma_answers_of_the_daemon_are_reported(
    resp: DaemonResponse,
    r: Result<Vec<String>, String>,
)
    requires
        is_run_report(resp, r),
    ensures
        r is Ok <==> resp is Executed,
        resp matches DaemonResponse::Executed { output, .. } ==> r->Ok_0@.len() > 0 && text::starts(
            r->Ok_0@[0]@,
            if output.success {
                "[nexus run] OK ("@
            } else {
                "[nexus run] FAIL ("@
            },
        ),
        resp matches DaemonResponse::Error { message, .. } ==> text::ends(r->Err_0@, message@),
{
    if let DaemonResponse::Executed { output, .. } = resp {
        lemma_runs_are_told(output);
        let t = text::texts(r->Ok_0@);
        assert(t.len() == r->Ok_0@.len());
        assert(t[0] == r->Ok_0@[0]@);
        assert(t[0] == run_lines(output)[0]);
        let head = if output.success {
            "[nexus run] OK ("@
        } else {
            "[nexus run] FAIL ("@
        };
        assert(t[0].subrange(0, head.len() as int) =~= head);
    }
    if let DaemonResponse::Error { message, .. } = resp {
        let t = r->Err_0@;
        assert(t.subrange(t.len() - message@.len(), t.len() as int) =~= message@);
    }
}

/// What is reported of the validation of a profile.
pub open spec fn validation_lines(path: Seq<char>, errors: Seq<ValidationError>) -> Seq<Seq<char>> {
    if errors.len() == 0 {
        seq!["profile validation OK: "@ + path]
    } else {
        seq!["profile validation failed: "@ + path] + Seq::new(
            errors.len(),
            |i: int| "  - "@ + errors[i]@.message(),
        )
    }
}

/// The report names the file, and says that all is well exactly if nothing is
/// wrong; each thing that is wrong is told in a line of its own, in order.
pub proof fn lemma_validation_tells_everything_wrong(
    path: Seq<char>,
    errors: Seq<ValidationError>,
    i: int,
)
    ensures
        validation_lines(path, errors).len() == errors.len() + 1,
        text::ends(validation_lines(path, errors)[0], path),
        validation_lines(path, errors)[0] == "profile validation OK: "@ + path <==> errors.len()
            == 0,
        0 <= i < errors.len() ==> text::ends(
            validation_lines(path, errors)[i + 1],
            errors[i]@.message(),
        ),
{
    let l = validation_lines(path, errors)[0];
    assert(l.subrange(l.len() - path.len(), l.len() as int) =~= path);
    reveal_strlit("profile validation OK: ");
    reveal_strlit("profile validation failed: ");
    assert("profile validation OK: "@.len() == 23 && "profile validation failed: "@.len() == 27);
    assert(("profile validation OK: "@ + path).len() != ("profile validation failed: "@
        + path).len());
    if 0 <= i < errors.len() {
        let m = errors[i]@.message();
        let t = validation_lines(path, errors)[i + 1];
        assert(t == "  - "@ + m);
        assert(t.subrange(t.len() - m.len(), t.len() as int) =~= m);
    }
}

/// A number of executions is taken as it is written, up to the largest that can
/// be counted; a second word is too many.
pub proof fn lemma_history_takes_a_number(rest: Seq<Seq<char>>, n: usize)
    requires
        rest.len() > 0,
    ensures
        rest.len() == 1 && text::number(rest[0]) == Some(n as nat) ==> history_order(rest)
            == Order::History(n),
        rest.len() > 1 || text::number(rest[0]) is None ==> history_order(rest) is Wrong,
{
}

} // verus!
