use nexus::daemon::{DaemonRequest, DaemonResponse};
use nexus::hypervisor::tool::ToolOutput;
use nexus::mcp::execute::ExecutionRecord;
use nexus::profile::ValidationError;
use nexus::session::{
    after_connect, choose_demos, dispatch_session_command, history_lines, parse_session_line,
    profile_report, run_request, run_via_daemon, ConnectStep, Demo, SessionCommand, SessionFlow,
    CONNECT_ATTEMPTS,
};

fn output(success: bool, rollback_performed: bool, error: Option<&str>) -> ToolOutput {
    ToolOutput {
        success,
        result: None,
        error: error.map(str::to_string),
        rollback_performed,
        execution_time_ms: 12,
        fuel_consumed: 345,
        error_log: None,
        snapshot_id: None,
    }
}

fn executed(output: ToolOutput) -> DaemonResponse {
    DaemonResponse::Executed {
        output,
        events: vec![],
        nexusiq: None,
    }
}

#[test]
fn session_help_continues() {
    assert_eq!(dispatch_session_command("help").1, SessionFlow::Continue);
}

#[test]
fn session_stats_continues() {
    assert_eq!(dispatch_session_command("stats").1, SessionFlow::Continue);
}

#[test]
fn session_empty_line_continues() {
    let (command, flow) = dispatch_session_command("   \t\n");
    assert_eq!(command, SessionCommand::Nothing);
    assert_eq!(flow, SessionFlow::Continue);
}

#[test]
fn session_quit_exits() {
    assert_eq!(dispatch_session_command("quit").1, SessionFlow::Quit);
    assert_eq!(dispatch_session_command(" exit ").1, SessionFlow::Quit);
}

#[test]
fn session_unknown_command_continues() {
    let (command, flow) = dispatch_session_command("launch");
    assert_eq!(command, SessionCommand::Unknown("launch".to_string()));
    assert_eq!(flow, SessionFlow::Continue);
}

#[test]
fn session_lines_ask_for_things() {
    let id = "550e8400-e29b-41d4-a716-446655440000";
    let command = |line: &str| dispatch_session_command(line).0;

    assert_eq!(command("help"), SessionCommand::Help);
    assert_eq!(command("stats"), SessionCommand::Stats);
    assert_eq!(command("snapshots"), SessionCommand::Snapshots);
    assert_eq!(command("history"), SessionCommand::History(10));
    assert_eq!(command("history 25"), SessionCommand::History(25));
    assert_eq!(
        command("history 25 26"),
        SessionCommand::Wrong("❌ Usage: history [N]".to_string())
    );
    assert_eq!(
        command("history many"),
        SessionCommand::Wrong(
            "❌ Invalid history limit 'many': invalid digit found in string".to_string()
        )
    );
    assert_eq!(command(&format!("rollback {id}")), SessionCommand::Rollback(id.to_string()));
    assert_eq!(
        command("rollback"),
        SessionCommand::Wrong("❌ Usage: rollback <uuid>".to_string())
    );
    assert!(matches!(
        command("rollback nowhere"),
        SessionCommand::Wrong(m) if m.starts_with("❌ Invalid snapshot id 'nowhere': ")
    ));
    assert_eq!(
        parse_session_line("rollback x", &Err("too short".to_string())),
        SessionCommand::Wrong("❌ Invalid snapshot id 'x': too short".to_string())
    );
}

#[test]
fn demonstrations_are_chosen_by_name() {
    assert_eq!(choose_demos("memory"), vec![Demo::Memory]);
    assert_eq!(choose_demos("infinite-loop"), vec![Demo::InfiniteLoop]);
    assert_eq!(choose_demos("corruption"), vec![Demo::Corruption]);
    assert_eq!(
        choose_demos("all"),
        vec![Demo::InfiniteLoop, Demo::Corruption, Demo::Memory]
    );
    assert!(choose_demos("none").is_empty());
}

#[test]
fn the_daemon_is_started_once_and_then_awaited() {
    assert_eq!(after_connect(0, true, false), ConnectStep::Connected);
    assert_eq!(after_connect(0, false, false), ConnectStep::StartAndWait(50));
    assert_eq!(after_connect(1, false, true), ConnectStep::Wait(100));
    assert_eq!(after_connect(19, false, true), ConnectStep::Wait(1000));
    assert_eq!(after_connect(CONNECT_ATTEMPTS, false, true), ConnectStep::GiveUp);
}

#[test]
fn a_run_is_requested_by_its_bytes() {
    match run_request(Some("adder"), vec![1, 2], "main".to_string(), None) {
        DaemonRequest::Execute {
            name,
            wasm_bytes,
            wasm_path,
            entry,
            input,
            ..
        } => {
            assert_eq!(name, "adder");
            assert_eq!(wasm_bytes, Some(vec![1, 2]));
            assert_eq!(wasm_path, None);
            assert_eq!(entry, "main");
            assert_eq!(input, "{}");
        }
        other => panic!("{other:?}"),
    }
    assert!(matches!(
        run_request(None, vec![], "main".to_string(), None),
        DaemonRequest::Execute { name, .. } if name == "tool"
    ));
}

#[test]
fn runs_are_reported() {
    assert_eq!(
        run_via_daemon(&executed(output(true, false, None))),
        Ok(vec!["[nexus run] OK (12ms, fuel=345)".to_string()])
    );
    assert_eq!(
        run_via_daemon(&executed(output(false, true, Some("trap")))),
        Ok(vec![
            "[nexus run] FAIL (12ms): trap".to_string(),
            "           rollback_performed=true".to_string(),
        ])
    );
    assert_eq!(
        run_via_daemon(&executed(output(false, false, None))),
        Ok(vec!["[nexus run] FAIL (12ms): <no message>".to_string()])
    );
    assert_eq!(
        run_via_daemon(&DaemonResponse::Pong {
            version: "0.1.0".to_string()
        }),
        Err("unexpected Pong reply to Execute".to_string())
    );
    assert_eq!(
        run_via_daemon(&DaemonResponse::Error {
            message: "no".to_string(),
            events: vec![],
            nexusiq: None,
        }),
        Err("daemon error: no".to_string())
    );
}

#[test]
fn profiles_are_reported() {
    let missing = ValidationError::EmptyCapabilities;

    assert_eq!(
        profile_report("p.toml", &vec![]),
        vec!["profile validation OK: p.toml".to_string()]
    );
    let lines = profile_report("p.toml", &vec![missing.clone()]);
    assert_eq!(lines[0], "profile validation failed: p.toml");
    assert_eq!(lines[1], format!("  - {}", missing.to_text()));
}

#[test]
fn history_is_reported() {
    let record = ExecutionRecord {
        id: "i".to_string(),
        timestamp: "2026-01-01T00:00:00Z".to_string(),
        operation: "add".to_string(),
        success: false,
        duration_ms: 5,
        fuel_consumed: 6,
        error: Some("trap".to_string()),
    };

    assert_eq!(
        history_lines(&vec![]),
        vec!["  No execution history yet.".to_string()]
    );
    assert_eq!(
        history_lines(&vec![record]),
        vec![
            "  2026-01-01T00:00:00Z  failed  add  5ms  fuel=6".to_string(),
            "      error: trap".to_string(),
        ]
    );
}
