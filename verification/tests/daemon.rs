use nexus::aeon::timeline::TimelineDeliveryStatus;
use nexus::constant_time::same_secret;
use nexus::daemon::agentd::{
    after_acquire, after_compile, after_proof, after_read, after_run, allowed_agentd_module_dirs,
    configured_auth_token, open_agentd_wasm_path_with_dirs, serve, start_with_profile,
    unauthorized_response, Job, Serving, AUTH_REQUIRED_MESSAGE, AUTH_TOKEN_ENV,
    RESTRICTED_PIPE_SDDL, UNAUTHORIZED_MESSAGE, WASM_PATH_REJECTED_MESSAGE,
};
use nexus::daemon::pool::HypervisorPool;
use nexus::daemon::protocol::{
    payload_length, read_frame, read_raw_frame_with_limit, write_raw_frame, FrameError, FrameRead,
    DEFAULT_MAX_PAYLOAD,
};
use nexus::daemon::{
    default_entry, default_socket_path, module_from_text, module_to_text, DaemonAeonExecuteOptions,
    DaemonRequest, DaemonResponse, NexusExecutionEvent, PIPE_NAME,
};
use nexus::env::EnvValue;
use nexus::error::NexusError;
use nexus::hypervisor::capsule::{prove_execution, RunStamp};
use nexus::hypervisor::tool::ToolOutput;
use nexus::profile::load_and_validate;
use nexus::security::Capability;

fn execute_request(
    wasm_bytes: Option<Vec<u8>>,
    wasm_path: Option<&str>,
    auth_token: Option<&str>,
) -> DaemonRequest {
    DaemonRequest::Execute {
        name: "tool".to_string(),
        wasm_bytes,
        wasm_path: wasm_path.map(str::to_string),
        entry: default_entry(),
        input: "{}".to_string(),
        auth_token: auth_token.map(str::to_string),
        aeon: DaemonAeonExecuteOptions::default(),
    }
}

fn shutdown_request(auth_token: Option<String>) -> DaemonRequest {
    DaemonRequest::Shutdown { auth_token }
}

fn output() -> ToolOutput {
    ToolOutput {
        success: true,
        result: Some(vec![1, 2]),
        error: None,
        rollback_performed: false,
        execution_time_ms: 3,
        fuel_consumed: 4,
        error_log: None,
        snapshot_id: None,
    }
}

#[test]
fn restricted_pipe_sddl_denies_network_and_allows_owner_only() {
    assert!(RESTRICTED_PIPE_SDDL.contains("(D;;GA;;;NU)"));
    assert!(RESTRICTED_PIPE_SDDL.contains("(A;;GA;;;OW)"));
    assert!(!RESTRICTED_PIPE_SDDL.contains(";;;WD)"));
}

#[test]
fn configured_auth_rejects_execute_without_token() {
    let req = execute_request(Some(vec![]), None, None);
    let resp = unauthorized_response(&req, Some("secret"));

    assert!(matches!(
        resp,
        Some(DaemonResponse::Error { message, .. }) if message == UNAUTHORIZED_MESSAGE
    ));
}

#[test]
fn configured_auth_rejects_shutdown_with_wrong_token() {
    let resp = unauthorized_response(&shutdown_request(Some("wrong".into())), Some("secret"));

    assert!(matches!(
        resp,
        Some(DaemonResponse::Error { message, .. }) if message == UNAUTHORIZED_MESSAGE
    ));
}

#[test]
fn configured_auth_accepts_shutdown_with_correct_token() {
    let resp = unauthorized_response(&shutdown_request(Some("secret".into())), Some("secret"));

    assert!(resp.is_none());
}

#[test]
fn unconfigured_auth_accepts_tokenless_shutdown() {
    let resp = unauthorized_response(&shutdown_request(None), None);

    assert!(resp.is_none());
}

#[test]
fn probes_need_no_token() {
    assert!(unauthorized_response(&DaemonRequest::Ping, Some("secret")).is_none());
    assert!(matches!(
        serve(DaemonRequest::Ping, Some("secret")),
        Serving::Reply(DaemonResponse::Pong { version }) if version == "0.1.0"
    ));
}

#[test]
fn refused_callers_stop_and_run_nothing() {
    assert!(matches!(
        serve(shutdown_request(None), Some("secret")),
        Serving::Reply(DaemonResponse::Error { .. })
    ));
    assert!(matches!(
        serve(execute_request(Some(vec![1]), None, Some("guess")), Some("secret")),
        Serving::Reply(DaemonResponse::Error { .. })
    ));
}

#[test]
fn requests_are_served_by_what_they_carry() {
    match serve(execute_request(Some(vec![7]), Some("/m.wasm"), None), None) {
        Serving::Run(job) => {
            assert_eq!(job.tool.name, "tool");
            assert_eq!(job.tool.wasm_bytes, vec![7]);
            assert_eq!(job.tool.entry_point, default_entry());
            assert_eq!(job.input, "{}");
        }
        other => panic!("{other:?}"),
    }
    match serve(execute_request(None, Some("/m.wasm"), None), None) {
        Serving::Read(pending) => {
            assert_eq!(pending.path, "/m.wasm");
            assert_eq!(after_read(pending.clone(), Some(vec![9])).unwrap().tool.wasm_bytes, vec![9]);
            assert!(matches!(
                after_read(pending, None),
                Err(DaemonResponse::Error { message, .. }) if message == WASM_PATH_REJECTED_MESSAGE
            ));
        }
        other => panic!("{other:?}"),
    }
    assert!(matches!(
        serve(execute_request(None, None, None), None),
        Serving::Reply(DaemonResponse::Error { message, .. })
            if message == "request missing wasm_bytes and wasm_path"
    ));
    assert!(matches!(serve(shutdown_request(None), None), Serving::Stop(DaemonResponse::Pong { .. })));
}

#[test]
fn failures_on_the_way_are_told() {
    let job = match serve(execute_request(Some(vec![7]), None, None), None) {
        Serving::Run(job) => job,
        other => panic!("{other:?}"),
    };

    assert_eq!(after_acquire(job.clone(), Ok(())).unwrap(), job);
    assert!(matches!(
        after_acquire(job.clone(), Err("closed".to_string())),
        Err(DaemonResponse::Error { message, .. }) if message == "pool acquire failed: closed"
    ));
    assert!(matches!(
        after_compile(job, Err("bad magic".to_string())),
        Err(DaemonResponse::Error { message, .. }) if message == "module compile failed: bad magic"
    ));
    assert!(matches!(
        after_run(Ok(output())),
        DaemonResponse::Executed { output: o, .. } if o == output()
    ));
    assert!(matches!(
        after_run(Err("boom".to_string())),
        DaemonResponse::Error { message, .. } if message == "boom"
    ));
}

#[test]
fn the_token_comes_from_the_environment() {
    assert_eq!(configured_auth_token(&EnvValue::Absent, false), Ok(None));
    assert_eq!(
        configured_auth_token(&EnvValue::Value("s".to_string()), true),
        Ok(Some("s".to_string()))
    );
    assert_eq!(
        configured_auth_token(&EnvValue::NotUnicode, false),
        Err(format!("{AUTH_TOKEN_ENV} must be valid Unicode"))
    );
}

#[test]
fn nexus_agentd_rejects_wasm_path_outside_allowed_module_dir() {
    let allowed_dirs = vec!["/tmp/t/allowed".to_string()];
    let err =
        open_agentd_wasm_path_with_dirs(true, Some("/tmp/t/outside/tool.wasm"), &allowed_dirs)
            .unwrap_err();

    assert_eq!(err, WASM_PATH_REJECTED_MESSAGE);
}

#[test]
fn nexus_agentd_accepts_wasm_path_inside_allowed_module_dir() {
    let allowed_dirs = vec!["/tmp/t/allowed".to_string()];
    let resolved =
        open_agentd_wasm_path_with_dirs(true, Some("/tmp/t/allowed/tool.wasm"), &allowed_dirs)
            .unwrap();

    assert_eq!(resolved, "/tmp/t/allowed/tool.wasm");
}

#[test]
fn rejects_wasm_path_directory_inside_allowed_module_dir() {
    let allowed_dirs = vec!["/tmp/t/allowed".to_string()];
    let err =
        open_agentd_wasm_path_with_dirs(false, Some("/tmp/t/allowed/tool_dir"), &allowed_dirs)
            .unwrap_err();

    assert_eq!(err, WASM_PATH_REJECTED_MESSAGE);
}

#[test]
fn nexus_agentd_rejects_wasm_path_symlink_escape() {
    // The link lies in the allowed directory; what it leads to does not.
    let allowed_dirs = vec!["/tmp/t/allowed".to_string()];
    let err =
        open_agentd_wasm_path_with_dirs(true, Some("/tmp/t/outside/tool.wasm"), &allowed_dirs)
            .unwrap_err();

    assert_eq!(err, WASM_PATH_REJECTED_MESSAGE);
}

#[test]
fn rejects_wasm_path_parent_traversal_escape() {
    let allowed_dirs = vec!["/tmp/t/allowed".to_string()];
    let err = open_agentd_wasm_path_with_dirs(
        true,
        Some("/tmp/t/outside/tool.wasm"),
        &allowed_dirs,
    )
    .unwrap_err();

    assert_eq!(err, WASM_PATH_REJECTED_MESSAGE);
    assert_eq!(
        open_agentd_wasm_path_with_dirs(true, None, &allowed_dirs),
        Err(WASM_PATH_REJECTED_MESSAGE.to_string())
    );
    assert_eq!(
        open_agentd_wasm_path_with_dirs(true, Some("/tmp/t/allowed2/tool.wasm"), &allowed_dirs),
        Err(WASM_PATH_REJECTED_MESSAGE.to_string())
    );
}

#[test]
fn module_directories_must_all_resolve() {
    let two = Some(vec![Some("/a".to_string()), Some("/b".to_string())]);
    let broken = Some(vec![Some("/a".to_string()), None]);

    assert_eq!(
        allowed_agentd_module_dirs(&two),
        Ok(vec!["/a".to_string(), "/b".to_string()])
    );
    assert_eq!(
        allowed_agentd_module_dirs(&broken),
        Err(WASM_PATH_REJECTED_MESSAGE.to_string())
    );
    assert!(allowed_agentd_module_dirs(&Some(vec![])).is_err());
    assert!(allowed_agentd_module_dirs(&None).is_err());
}

#[test]
fn old_client_execute_missing_correlation_is_backward_compat() {
    let aeon = DaemonAeonExecuteOptions::default();

    assert_eq!(module_from_text(&Some("".to_string())), Ok(Some(vec![])));
    assert_eq!(default_entry(), "_start");
    assert!(aeon.aeon_agent_id.is_none());
    assert!(aeon.aeon_session_id.is_none());
    assert!(aeon.aeon_memory_evidence_digest.is_none());
    assert!(aeon.required_capabilities.is_none());
    assert!(!aeon.emit_proof);
    assert!(aeon.caller_capabilities.is_none());
    assert!(aeon.attestation_mode.is_none());
}

fn correlated(emit_proof: bool) -> DaemonAeonExecuteOptions {
    DaemonAeonExecuteOptions {
        aeon_agent_id: Some("agent-42".to_string()),
        aeon_session_id: Some("session-99".to_string()),
        aeon_memory_evidence_digest: Some("abc123digest".to_string()),
        required_capabilities: Some(vec![Capability::ReadFile("/data".to_string())]),
        emit_proof,
        caller_capabilities: Some(Vec::new()),
        attestation_mode: Some("attested".to_string()),
    }
}

fn correlated_request(wasm_bytes: Option<Vec<u8>>, emit_proof: bool) -> DaemonRequest {
    DaemonRequest::Execute {
        name: "test_tool".to_string(),
        wasm_bytes,
        wasm_path: Some("/m.wasm".to_string()),
        entry: "_start".to_string(),
        input: "{}".to_string(),
        auth_token: None,
        aeon: correlated(emit_proof),
    }
}

fn job(request: DaemonRequest) -> Job {
    match serve(request, None) {
        Serving::Run(job) => job,
        Serving::Read(pending) => after_read(pending, Some(vec![0, 97])).unwrap(),
        other => panic!("{other:?}"),
    }
}

#[test]
fn daemon_request_execute_round_trips_correlation_fields() {
    for request in [correlated_request(Some(vec![0, 97]), true), correlated_request(None, true)] {
        let job = job(request);
        assert_eq!(job.tool.aeon_agent_id.as_deref(), Some("agent-42"));
        assert_eq!(job.tool.aeon_session_id.as_deref(), Some("session-99"));
        assert_eq!(job.tool.aeon_memory_evidence_digest.as_deref(), Some("abc123digest"));
        assert_eq!(job.tool.required_capabilities.len(), 1);
        let proof = job.proof.unwrap();
        assert_eq!(proof.caller_capabilities.as_ref().map(Vec::len), Some(0));
        assert_eq!(proof.attestation_mode.as_deref(), Some("attested"));
    }
}

#[test]
fn proofs_are_made_on_demand_only() {
    let job = job(correlated_request(Some(vec![0, 97]), false));

    assert_eq!(job.proof, None);
    assert!(job.tool.required_capabilities.is_empty());
    assert_eq!(job.tool.aeon_agent_id.as_deref(), Some("agent-42"));
}

#[test]
fn attested_runs_are_answered_with_their_evidence() {
    let tool = job(correlated_request(Some(vec![0, 97]), true)).tool;
    let stamp = RunStamp {
        run_id: "r".to_string(),
        started_at: "t0".to_string(),
        finished_at: "t1".to_string(),
    };
    let capsule = prove_execution(
        stamp, &tool, b"{}", vec![], vec![], Some(2), &output(), None, "c-1".to_string(), &[7; 32],
    );
    match after_proof(Ok((output(), capsule)), Some(TimelineDeliveryStatus::Delivered)) {
        DaemonResponse::Executed { output: out, events, nexusiq } => {
            assert_eq!(out, output());
            assert_eq!(events.len(), 2);
            let evidence = nexusiq.unwrap();
            assert_eq!(evidence.proof_capsule_ref.as_deref(), Some("c-1"));
            assert_eq!(evidence.memory_evidence_ref.unwrap().digest_value, "abc123digest");
            assert_eq!(evidence.timeline_delivery_status, Some(TimelineDeliveryStatus::Delivered));
            assert_eq!(evidence.denial_negotiation.unwrap().rounds, Some(2));
        }
        other => panic!("{other:?}"),
    }
    let denied = NexusError::CapabilityDenied("no".to_string());
    match after_proof(Err((denied, "Capability denied: no".to_string())), None) {
        DaemonResponse::Error { message, events, nexusiq } => {
            assert_eq!(message, "Capability denied: no");
            assert!(matches!(&events[0], NexusExecutionEvent::CapabilityDenied { .. }));
            assert_eq!(nexusiq, None);
        }
        other => panic!("{other:?}"),
    }
    let broken = NexusError::WasmError("x".to_string());
    assert!(matches!(
        after_proof(Err((broken, "x".to_string())), None),
        DaemonResponse::Error { events, .. } if events.is_empty()
    ));
}

#[test]
fn a_profile_that_asks_for_a_token_is_obeyed() {
    let asks = |flag: &str| {
        let contents = format!(
            "[[capabilities]]\ntype = \"all\"\n[execution]\ndaemon_auth_required = {flag}\n"
        );
        Some(load_and_validate(&contents, Some("p")).unwrap())
    };
    let token = EnvValue::Value("s".to_string());

    assert_eq!(
        start_with_profile(&EnvValue::Absent, &asks("true")),
        Err(AUTH_REQUIRED_MESSAGE.to_string())
    );
    assert_eq!(start_with_profile(&token, &asks("true")), Ok(Some("s".to_string())));
    assert_eq!(start_with_profile(&EnvValue::Absent, &asks("false")), Ok(None));
    assert_eq!(start_with_profile(&EnvValue::Absent, &None), Ok(None));
    assert_eq!(
        configured_auth_token(&EnvValue::Absent, true),
        Err(AUTH_REQUIRED_MESSAGE.to_string())
    );
}

#[test]
fn modules_travel_as_text() {
    let bytes = Some(b"\0asm\x01".to_vec());
    let text = module_to_text(&bytes);

    assert_eq!(text, Some("AGFzbQE=".to_string()));
    assert_eq!(module_from_text(&text), Ok(bytes));
    assert_eq!(module_from_text(&None), Ok(None));
    assert!(module_from_text(&Some("@".to_string())).is_err());
}

#[test]
fn the_socket_path_can_be_chosen() {
    assert_eq!(default_socket_path(Some("/x.sock"), false, Some("/run")), "/x.sock");
    assert_eq!(default_socket_path(None, false, Some("/run/user/7")), "/run/user/7/nexus-agentd.sock");
    assert_eq!(default_socket_path(None, false, None), "/tmp/nexus-agentd.sock");
    assert_eq!(default_socket_path(None, false, Some("")), "/tmp/nexus-agentd.sock");
    assert_eq!(default_socket_path(None, true, None), PIPE_NAME);
}

#[test]
fn round_trip() {
    let body = "{\"x\":42,\"name\":\"hi\"}".as_bytes();
    let frame = write_raw_frame(body).unwrap();

    assert_eq!(frame[..4], [0, 0, 0, 20]);
    assert_eq!(
        read_frame(&frame),
        FrameRead::Payload {
            body: body.to_vec(),
            end: 24,
        }
    );
}

#[test]
fn rejects_oversize_frame() {
    // A fraudulent length prefix announcing 100 MB.
    let header = (100u32 * 1024 * 1024).to_be_bytes();
    let refused = FrameError::TooLarge {
        announced: 104_857_600,
        limit: 1024,
    };

    assert_eq!(read_raw_frame_with_limit(&header, 1024), FrameRead::Refused(refused));
    assert_eq!(payload_length(&header, 1024), Err(refused));
    assert_eq!(refused.to_text(), "frame too large: 104857600 > 1024");
    assert_eq!(FrameError::LengthOverflow.to_text(), "payload exceeds u32 max");
    assert!(matches!(read_frame(&header), FrameRead::Refused(_)));
    assert_eq!(DEFAULT_MAX_PAYLOAD, 64 * 1024 * 1024);
}

#[test]
fn unfinished_frames_wait() {
    assert_eq!(read_frame(&[0, 0]), FrameRead::Unfinished);
    assert_eq!(read_frame(&[0, 0, 0, 3, 1, 2]), FrameRead::Unfinished);
    assert_eq!(
        read_frame(&[0, 0, 0, 2, 1, 2, 9, 9]),
        FrameRead::Payload {
            body: vec![1, 2],
            end: 6,
        }
    );
}

#[test]
fn instances_are_lent_once() {
    let mut pool = HypervisorPool::new(&vec![true, true]).unwrap();

    assert_eq!(HypervisorPool::new(&vec![true, false]), Err(1));
    assert_eq!(pool.acquire(), Some(0));
    assert_eq!(pool.acquire(), Some(1));
    assert_eq!(pool.acquire(), None);
    assert!(pool.release(0));
    assert!(!pool.release(0));
    assert_eq!(pool.acquire(), Some(0));
    assert!(!pool.release(5));
}

#[test]
fn secrets_are_compared_whole() {
    assert!(same_secret("secret", "secret"));
    assert!(!same_secret("secret", "secre"));
    assert!(!same_secret("secret\0", "secret"));
    assert!(!same_secret("", "x"));
}
