use nexus::aeon::config::AeonConfig;
use nexus::aeon::memory::{MemoryEvidenceV1, MemoryHit, SearchHit};
use nexus::aeon::timeline::{TimelineDeliveryMode, TimelineDeliveryStatus};
use nexus::attestation::schema::{MemoryAttestationMode, MemoryEvidenceRef, ProofCapsule};
use nexus::daemon::NexusExecutionEvent;
use nexus::env::EnvValue;
use nexus::error::NexusError;
use nexus::hypervisor::capsule::{prove_execution, RunStamp};
use nexus::hypervisor::failure_mode::failure_mode_from_category;
use nexus::hypervisor::proof_run::{ProofAction, ProofEvent, ProofRun, RunNotes};
use nexus::hypervisor::speculative::SelectionStrategy;
use nexus::hypervisor::tool::{ToolDefinition, ToolOutput};
use nexus::instinct::InstinctStore;
use nexus::mcp::capability::{
    parse_capabilities, parse_capability, parse_capability_from_str, parse_iq_capability,
    required_read_memory_scope, sanitize_token_request, MAX_TOKEN_VALIDITY_SECS,
};
use nexus::mcp::error::{
    profile_denial, tool_anyhow_error_response, tool_error_response, DenialReason, ToolError,
};
use nexus::mcp::execute::{
    choose_fork_base, do_execute, do_execute_proof, do_execute_retry, do_execute_wasi,
    do_fork_and_race, do_get_history, history_limit, proof_events, proof_reference,
    resolve_fork_base_snapshot, verify_proof_capsule_memory_digest, ExecutionRecord, ModuleFound,
    ToolOutputResponse,
};
use nexus::mcp::gate::{read_only_http_tool_allowlist, ToolGate};
use nexus::mcp::instinct_tools::{
    check_import, do_instinct_export, do_instinct_import, do_instinct_query,
    do_instinct_record_outcome, do_instinct_register, ensure_instincts,
};
use nexus::mcp::iq::{
    deliver_nexus_iq_timeline, denial_events, iq_admit, iq_authorize, iq_conclude, iq_job,
    iq_memory_client, iq_memory_digest, iq_memory_limit, iq_memory_scope, iq_recall, iq_response,
    is_capability_denial, nexus_iq_denial_response, plan_telling, IqAdmission, IqAuthorization,
    IqConclusion, RecallLimiter,
};
use nexus::mcp::iq_run::{do_nexus_iq_execute, IqAction, IqEvent, IqPhase, IqRequest, IqRun};
use nexus::mcp::params::{
    AeonTimelineExecuteParams, AttenuateTokenParams, BranchSpec, CapabilitySpec, ExecuteParams, ExecuteProofParams,
    ExecuteRetryParams, ExecuteWasiParams, ForkAndRaceParams, GetHistoryParams,
    InstinctImportParams, InstinctQueryParams, InstinctRecordOutcomeParams, InstinctRegisterParams,
    IssueTokenParams, NexusIqExecuteParams, SnapshotCreateParams, SnapshotRollbackParams,
};
use nexus::mcp::rollback_run::{Restored, RollbackAction, RollbackEvent, RollbackRun};
use nexus::mcp::server::{
    allowed_wasm_module_dirs, apply_mcp_sandbox_env, capability_allowlist_from_env, http_addr_text,
    module_dirs, nexus_iq_allowlist_from_env, parse_nexus_mcp_transport, resolve_wasm_path,
    should_include_full_proof_capsule, AllowlistSetting, NamedDir, ResolvedDir, SandboxLimits,
    Transport, HTTP_DEFAULT_ADDR, MCP_FUEL_ENV,
};
use nexus::mcp::snapshot_tools::{
    baseline_response, do_snapshot_create, do_snapshot_rollback, restored_state_summary,
    SnapshotRequest, RESTORED_MEMORY_PREVIEW_BYTES,
};
use nexus::mcp::timeline_run::{TimelineAction, TimelineEvent, TimelineRun};
use nexus::mcp::tokens::{
    caller_has_memory_preview, check_tokens_against_active_profile, check_tokens_against_profile,
    check_tokens_fresh, do_attenuate_token, do_issue_token, ensure_operator_allowlisted,
    execute_wasi_tokens, iq_caller_tokens_for_required, operator_verdicts, TokenPlan, TokenState,
};
use nexus::mcp::wasi_run::{WasiToolAction, WasiToolEvent, WasiToolRun};
use nexus::profile::McpPolicy;
use nexus::security::{first_uncovered, Capability, MemoryScope};

const ID: &str = "550e8400-e29b-41d4-a716-446655440000";

fn open_gate() -> ToolGate {
    ToolGate {
        forced_tool_allowlist: None,
        policy: None,
        instinct_enabled: true,
        retry_enabled: true,
    }
}

fn gate_with(policy: McpPolicy) -> ToolGate {
    ToolGate {
        policy: Some(policy),
        ..open_gate()
    }
}

fn text(error: ToolError) -> String {
    match error {
        ToolError::Other(m) => m,
        ToolError::Nexus(e) => format!("{e:?}"),
    }
}

fn now() -> String {
    "2026-01-01T00:00:00Z".to_string()
}

fn value(text: &str) -> EnvValue {
    EnvValue::Value(text.to_string())
}

fn data() -> Capability {
    Capability::ReadFile("/data".to_string())
}

fn token(fresh: bool, permitted: bool, revoked: bool) -> TokenState {
    TokenState {
        revoked,
        fresh,
        permitted,
        description: "read:/data".to_string(),
    }
}

fn output() -> ToolOutput {
    ToolOutput {
        success: true,
        result: Some(b"done".to_vec()),
        error: None,
        rollback_performed: false,
        execution_time_ms: 3,
        fuel_consumed: 4,
        error_log: None,
        snapshot_id: Some("snap".to_string()),
    }
}

fn capsule(memory_evidence: Option<MemoryEvidenceRef>) -> ProofCapsule {
    let capsule = prove_execution(
        RunStamp {
            run_id: ID.to_string(),
            started_at: now(),
            finished_at: now(),
        },
        &ToolDefinition::new("t".to_string(), vec![]),
        b"{}",
        vec![],
        vec![],
        None,
        &output(),
        None,
        "capsule-1".to_string(),
        &[3; 32],
    );
    ProofCapsule {
        memory_evidence,
        ..capsule
    }
}

#[test]
fn get_history_returns_empty_for_fresh_hypervisor() {
    let response = do_get_history(&open_gate(), &vec![]).unwrap();

    assert!(response.is_empty());
}

#[test]
fn history_says_whether_there_was_an_error() {
    let record = ExecutionRecord {
        id: "i".to_string(),
        timestamp: now(),
        operation: "op".to_string(),
        success: false,
        duration_ms: 1,
        fuel_consumed: 2,
        error: Some("inner detail".to_string()),
    };
    let told = do_get_history(&open_gate(), &vec![record]).unwrap();

    assert!(told[0].has_error);
    assert_eq!(told[0].operation, "op");
    assert_eq!(history_limit(&GetHistoryParams { limit: None }), 50);
    assert_eq!(history_limit(&GetHistoryParams { limit: Some(5) }), 5);
}

#[test]
fn instinct_stats_errors_when_store_not_initialised() {
    let error = ensure_instincts(&open_gate(), "nexus_instinct_stats", false).unwrap_err();

    assert!(text(error).contains("not initialised"));
}

#[test]
fn instinct_import_errors_when_store_not_initialised() {
    let params = InstinctImportParams {
        json: "[]".to_string(),
    };
    let error = check_import(&open_gate(), false, &params).unwrap_err();

    assert!(text(error).contains("not initialised"));
}

#[test]
fn instinct_query_errors_when_store_not_initialised() {
    let error = ensure_instincts(&open_gate(), "nexus_instinct_query", false).unwrap_err();

    assert!(text(error).contains("not initialised"));
}

#[test]
fn instinct_query_rejects_unknown_category() {
    assert!(failure_mode_from_category("NOT_A_REAL_CATEGORY").is_err());
}

#[test]
fn instincts_can_be_taught_and_asked() {
    let mut store = InstinctStore::new();
    let register = |category: &str, pattern: &str, description: String| InstinctRegisterParams {
        failure_category: category.to_string(),
        operation_pattern: pattern.to_string(),
        recovery_description: description,
    };
    let good = register("TRAP_DIV_BY_ZERO", "tool_a", "guard".to_string());
    let gate = open_gate();

    assert_eq!(
        do_instinct_register(&gate, &mut store, &good, ID.to_string(), now()),
        Ok(ID.to_string())
    );
    let hits = do_instinct_query(
        &gate,
        &store,
        &InstinctQueryParams {
            failure_category: "TRAP_DIV_BY_ZERO".to_string(),
            operation: "tool_a".to_string(),
        },
    )
    .unwrap();
    assert_eq!(hits[0].recovery_description, "guard");
    let outcome = |id: &str| InstinctRecordOutcomeParams {
        instinct_id: id.to_string(),
        success: true,
    };
    assert_eq!(do_instinct_record_outcome(&gate, &mut store, &outcome(ID), now()), Ok(true));
    assert!(do_instinct_record_outcome(&gate, &mut store, &outcome("x"), now())
        .is_err_and(|e| text(e).contains("invalid instinct UUID")));
    let (exported, count) = do_instinct_export(&gate, &store).unwrap();
    assert_eq!(count, 1);
    assert_eq!(exported[0].support_count, 1);
    let import = InstinctImportParams {
        json: "[]".to_string(),
    };
    let mut fresh = InstinctStore::new();
    let (added, _, changed) =
        do_instinct_import(&gate, &mut fresh, &import, exported.clone()).unwrap();
    assert_eq!((added, changed), (1, vec![exported[0].failure_category.clone()]));
    let (added, merged, changed) =
        do_instinct_import(&gate, &mut store, &import, exported).unwrap();
    assert_eq!((added, merged), (0, 1));
    assert!(changed.is_empty());

    let refused = |params: InstinctRegisterParams| {
        text(do_instinct_register(&gate, &mut InstinctStore::new(), &params, ID.to_string(), now())
            .unwrap_err())
    };
    assert!(refused(register("NOPE", "*", "x".to_string())).contains("unknown failure_category"));
    assert!(refused(register("TIMEOUT", "a b", "x".to_string())).contains("operation_pattern"));
    assert!(refused(register("TIMEOUT", "*", "x".repeat(1025))).contains("exceeds 1024"));
    let huge = InstinctImportParams {
        json: "x".repeat(10_485_761),
    };
    assert!(text(check_import(&gate, true, &huge).unwrap_err()).contains("10 MiB"));
}

#[test]
fn rejects_all_capability_for_mcp_clients() {
    let r = sanitize_token_request(Capability::All, Some(60));
    assert!(
        r.is_err(),
        "MCP clients must not be able to mint Capability::All"
    );
}

#[test]
fn clamps_excessive_validity() {
    let (_, secs) = sanitize_token_request(data(), Some(u64::MAX)).unwrap();
    assert_eq!(secs, MAX_TOKEN_VALIDITY_SECS);
}

#[test]
fn preserves_reasonable_validity() {
    let (_, secs) = sanitize_token_request(data(), Some(120)).unwrap();
    assert_eq!(secs, 120);
}

#[test]
fn defaults_to_max_when_unset() {
    let (_, secs) = sanitize_token_request(data(), None).unwrap();
    assert_eq!(secs, MAX_TOKEN_VALIDITY_SECS);
}

#[test]
fn token_recheck_fires_before_execution() {
    let error = check_tokens_against_profile(&vec![token(false, true, false)]).unwrap_err();

    match error {
        NexusError::InvalidCapability(message) => {
            assert!(message.contains("expired"), "unexpected error: {message}");
        }
        other => panic!("expected InvalidCapability, got: {other:?}"),
    }
}

#[test]
fn expired_token_error_omits_identifier_and_expiry() {
    let error = check_tokens_fresh(&vec![token(false, true, false)]).unwrap_err();
    let message = match error {
        NexusError::InvalidCapability(message) => message,
        other => panic!("expected InvalidCapability, got: {other:?}"),
    };

    assert_eq!(message, DenialReason::TokenExpired.safe_message());
    assert!(
        !message.contains('-'),
        "expired token denial must not include token UUID: {message}"
    );
    assert!(
        !message.contains("expired at"),
        "expired token denial must not include expiry timestamp: {message}"
    );
}

#[test]
fn tokens_are_judged_by_age_profile_and_revocation() {
    let good = token(true, true, false);

    assert!(check_tokens_against_profile(&vec![good.clone()]).is_ok());
    assert!(matches!(
        check_tokens_against_profile(&vec![good.clone(), token(true, false, false)]),
        Err(NexusError::CapabilityDenied(m)) if m.ends_with("read:/data")
    ));
    assert!(check_tokens_against_active_profile(&vec![token(true, false, false)], false).is_ok());
    assert!(check_tokens_against_active_profile(&vec![token(true, true, true)], false).is_err());
}

#[test]
fn preview_base64_requires_capability() {
    let memory = b"secret-memory-preview".to_vec();

    let without_preview = restored_state_summary(&memory, 0, 0, caller_has_memory_preview(&vec![]));
    assert_eq!(without_preview.memory.preview_len, 0);
    assert!(without_preview.memory.preview_base64.is_empty());

    let with_preview = restored_state_summary(&memory, 0, 0, caller_has_memory_preview(&vec![true]));
    assert_eq!(
        with_preview.memory.preview_len,
        memory.len().min(RESTORED_MEMORY_PREVIEW_BYTES)
    );
    assert!(!with_preview.memory.preview_base64.is_empty());
    assert_eq!(with_preview.memory.preview_base64, "c2VjcmV0LW1lbW9yeS1wcmV2aWV3");
    assert_eq!(with_preview.memory.byte_len, 21);
    assert_eq!(with_preview.memory.sha256.len(), 64);
}

#[test]
fn attenuate_token_rejects_invalid_uuid() {
    let params = |parent: &str| AttenuateTokenParams {
        parent_token_id: parent.to_string(),
        capability: "read_file".to_string(),
        path: Some("/tmp".to_string()),
        validity_secs: None,
    };
    let error = text(do_attenuate_token(&open_gate(), &params("not-a-uuid")).unwrap_err());

    assert!(
        error.contains("invalid parent_token_id UUID"),
        "unexpected error: {error}"
    );
    assert_eq!(
        do_attenuate_token(&open_gate(), &params(ID)),
        Ok((ID.to_string(), Capability::ReadFile("/tmp".to_string()), MAX_TOKEN_VALIDITY_SECS))
    );
}

#[test]
fn tokens_are_issued_within_the_operator_list() {
    let params = |capability: &str| IssueTokenParams {
        capability: capability.to_string(),
        path: Some("/tmp".to_string()),
        validity_secs: Some(60),
    };
    let gate = open_gate();
    let list = |path: &str| Some(vec![Capability::ReadFile(path.to_string())]);

    assert_eq!(
        do_issue_token(&gate, &params("read_file"), &None, &list("/")),
        Ok((Capability::ReadFile("/tmp".to_string()), 60))
    );
    assert!(do_issue_token(&gate, &params("read_file"), &None, &list("/tmp/x")).is_err());
    assert!(do_issue_token(&gate, &params("read_file"), &None, &None).is_err());
    assert!(do_issue_token(&gate, &params("all"), &None, &Some(vec![Capability::All])).is_err());
    assert!(do_issue_token(&gate, &params("bogus"), &None, &Some(vec![Capability::All])).is_err());
}

#[test]
fn tokens_come_from_a_parent_or_from_the_list() {
    let caps = vec![data()];

    assert!(matches!(execute_wasi_tokens(&vec![], None, &None), Ok(TokenPlan::Nothing)));
    match execute_wasi_tokens(&caps, Some(ID), &None) {
        Ok(TokenPlan::Attenuate { parent, grants }) => {
            assert_eq!(parent, ID);
            assert_eq!(grants, caps);
        }
        other => panic!("{other:?}"),
    }
    assert!(text(execute_wasi_tokens(&caps, Some("nope"), &None).unwrap_err())
        .contains("invalid parent_token_id 'nope'"));
    let granted = iq_caller_tokens_for_required(&caps, &Some(vec![data()]));
    assert_eq!(granted.issue, caps);
    assert!(granted.refusal.is_none());
    let refused = iq_caller_tokens_for_required(&caps, &Some(vec![]));
    assert!(refused.issue.is_empty());
    assert!(refused.refusal.is_none());
    assert!(iq_caller_tokens_for_required(&caps, &None).issue.is_empty());
    let all = iq_caller_tokens_for_required(&vec![Capability::All], &Some(vec![Capability::All]));
    assert!(all.refusal.is_some());
}

#[test]
fn the_operator_list_decides_what_is_issued() {
    let below = Capability::ReadFile("/data/x".to_string());
    let write = Capability::WriteFile("/data".to_string());
    let asked = vec![below.clone(), write.clone(), data()];
    let list = Some(vec![data()]);

    assert_eq!(operator_verdicts(&list, &asked), Some(vec![true, false, true]));
    assert_eq!(operator_verdicts(&None, &asked), None);
    match execute_wasi_tokens(&asked, None, &list) {
        Ok(TokenPlan::Issue(grants)) => {
            assert_eq!(grants.issue, vec![below.clone()]);
            assert!(grants.refusal.is_some());
        }
        other => panic!("{other:?}"),
    }
    assert!(execute_wasi_tokens(&asked, None, &None).is_err());
    assert_eq!(iq_caller_tokens_for_required(&asked, &list).issue, vec![below, data()]);
    assert!(ensure_operator_allowlisted(&list, &data()).is_ok());
    assert!(ensure_operator_allowlisted(&list, &write).is_err());
    let state = TokenState::of(&write, "w".to_string(), false, true, &list);
    assert!(!state.permitted && state.fresh && !state.revoked);
    assert!(TokenState::of(&write, "w".to_string(), false, true, &None).permitted);
    assert_eq!(first_uncovered(&asked, &vec![data()]), Some(1));
    assert_eq!(first_uncovered(&asked, &vec![Capability::All]), None);
}

fn wasi_params() -> ExecuteWasiParams {
    ExecuteWasiParams {
        wasm_path: "/m.wasm".to_string(),
        entry: None,
        input: None,
        capabilities: Some(vec![CapabilitySpec {
            kind: "read_file".to_string(),
            path: Some("/data".to_string()),
        }]),
        parent_token_id: None,
    }
}

fn wasi_run() -> WasiToolRun {
    let found = ModuleFound::Bytes(vec![1]);
    let (run, action) = WasiToolRun::start(&open_gate(), &wasi_params(), true, found);
    match action {
        WasiToolAction::IssueTokens(caps) => assert_eq!(caps, vec![data()]),
        _ => panic!("tokens are issued first"),
    }
    run
}

#[test]
fn modules_with_access_run_with_good_tokens_only() {
    let good = || vec![token(true, true, false)];
    let tokens = |issued: Vec<TokenState>, used: Vec<TokenState>| WasiToolEvent::Tokens { issued, used };

    let (run, action) = wasi_run().step(tokens(good(), good()));
    assert!(matches!(action, WasiToolAction::Run));
    assert!(matches!(
        run.step(WasiToolEvent::Ran(Ok(output()))).1,
        WasiToolAction::Finish(Ok(answer)) if answer.success == output().success
    ));
    let (run, _) = wasi_run().step(tokens(good(), good()));
    assert!(matches!(
        run.step(WasiToolEvent::Ran(Err(NexusError::WasmError("x".to_string())))).1,
        WasiToolAction::Finish(Err(ToolError::Nexus(NexusError::WasmError(_))))
    ));
    for bad in [token(false, true, false), token(true, false, false), token(true, true, true)] {
        for event in [tokens(vec![bad.clone()], good()), tokens(good(), vec![bad.clone()])] {
            assert!(matches!(wasi_run().step(event).1, WasiToolAction::Finish(Err(_))));
        }
    }
    let refused = WasiToolEvent::TokensRefused(ToolError::Other("no".to_string()));
    assert!(matches!(
        wasi_run().step(refused).1,
        WasiToolAction::Finish(Err(ToolError::Other(m))) if m == "no"
    ));
    let unread = WasiToolRun::start(&open_gate(), &wasi_params(), true, ModuleFound::Unreadable).1;
    assert!(matches!(unread, WasiToolAction::Finish(Err(_))));
}

fn rollback_run(told: Option<bool>) -> RollbackRun {
    let params = SnapshotRollbackParams {
        snapshot_id: ID.to_uppercase(),
        include_restored_state: told,
        caller_capabilities: None,
        parent_token_id: None,
        expected_digest: Some("AB".to_string()),
    };
    assert!(matches!(
        RollbackRun::start(&open_gate(), &params, true, Some("ac")).1,
        RollbackAction::Finish(Err(ToolError::Other(m))) if m == "snapshot digest mismatch"
    ));
    let (run, action) = RollbackRun::start(&open_gate(), &params, true, Some("ab"));
    assert!(matches!(action, RollbackAction::IssueTokens(caps) if caps.is_empty()));
    run
}

#[test]
fn snapshots_are_restored_with_good_tokens_only() {
    let tokens = |fresh: bool, shows: Vec<bool>| RollbackEvent::Tokens {
        issued: vec![token(fresh, true, false)],
        shows,
    };
    let restored = || {
        RollbackEvent::Restored(Restored {
            snapshot_id: ID.to_string(),
            timestamp: now(),
            fs_operations: 3,
            memory: vec![1, 2, 3],
            captured_globals: 4,
            captured_tables: 5,
        })
    };

    for (told, shows, preview) in [
        (Some(true), vec![false, true], Some(3)),
        (Some(true), vec![false], Some(0)),
        (Some(false), vec![true], None),
        (None, vec![true], None),
    ] {
        let (run, action) = rollback_run(told).step(tokens(true, shows));
        assert!(matches!(action, RollbackAction::Restore(id) if id == ID));
        match run.step(restored()).1 {
            RollbackAction::Finish(Ok(answer)) => {
                assert_eq!(answer.snapshot_id, ID);
                assert_eq!(answer.fs_operations, 3);
                assert_eq!(answer.restored_state.map(|s| s.memory.preview_len), preview);
            }
            _ => panic!("the request is answered"),
        }
    }
    assert!(matches!(
        rollback_run(None).step(tokens(false, vec![])).1,
        RollbackAction::Finish(Err(_))
    ));
    let refused = RollbackEvent::TokensRefused(ToolError::Other("no".to_string()));
    assert!(matches!(rollback_run(None).step(refused).1, RollbackAction::Finish(Err(_))));
    let (run, _) = rollback_run(None).step(tokens(true, vec![]));
    let failed = RollbackEvent::NotRestored(NexusError::RollbackFailed("x".to_string()));
    assert!(matches!(
        run.step(failed).1,
        RollbackAction::Finish(Err(ToolError::Nexus(NexusError::RollbackFailed(_))))
    ));
}

#[test]
fn capabilities_are_read_from_their_kind_and_path() {
    let spec = |kind: &str, path: Option<&str>| CapabilitySpec {
        kind: kind.to_string(),
        path: path.map(str::to_string),
    };

    assert_eq!(parse_capability(&spec("write_file", Some("/w"))), Ok(Capability::WriteFile("/w".to_string())));
    assert_eq!(
        parse_capability(&spec("read_file", None)),
        Err("capability type 'read_file' requires a 'path' field".to_string())
    );
    assert_eq!(
        parse_capability(&spec("http_get", None)),
        Err("capability type 'http_get' requires a 'path' (URL pattern) field".to_string())
    );
    assert_eq!(
        parse_capability(&spec("bogus", Some("/x"))),
        Err("Unknown capability type: bogus".to_string())
    );
    assert_eq!(parse_capability_from_str("memory_preview", None), Some(Capability::MemoryPreview));
    assert_eq!(parse_capability_from_str("all", None), Some(Capability::All));
    assert!(parse_capabilities(&vec![spec("read_file", Some("/a")), spec("bogus", None)]).is_err());
    assert_eq!(
        parse_iq_capability("read:/a", &None, &None),
        Ok(Capability::ReadFile("/a".to_string()))
    );
    assert_eq!(
        parse_iq_capability("nexus:memory_recall", &None, &None),
        Ok(Capability::MemoryRecall)
    );
    assert!(parse_iq_capability("plain", &None, &None).unwrap_err().contains("expected kind:value"));
    assert!(parse_iq_capability("odd:x", &None, &None).unwrap_err().contains("unknown capability type"));
    assert_eq!(
        required_read_memory_scope("a", Some("s")),
        Capability::ReadMemory(MemoryScope::Session {
            agent_id: "a".to_string(),
            session_id: "s".to_string(),
        })
    );
    assert_eq!(
        required_read_memory_scope("a", None),
        Capability::ReadMemory(MemoryScope::Agent("a".to_string()))
    );
}

fn resolve(path: &str, resolved: Option<&str>, is_file: bool) -> Result<String, String> {
    let dirs = vec!["/tmp/t/allowed".to_string()];
    match resolve_wasm_path(path, "/tmp/t", &dirs, resolved, is_file) {
        Ok(p) => Ok(p),
        Err(NexusError::FilesystemError(m)) => Err(m),
        Err(other) => panic!("{other:?}"),
    }
}

#[test]
fn nexus_mcp_rejects_wasm_path_outside_allowed_module_dir() {
    let path = "/tmp/t/outside/tool.wasm";
    let err = resolve(path, Some(path), true).unwrap_err();

    assert!(
        err.contains("outside allowed MCP module"),
        "unexpected error: {err}"
    );
}

#[test]
fn rejects_missing_wasm_path_outside_allowed_module_dir_without_stat_leak() {
    let message = resolve("/tmp/t/outside/missing.wasm", None, false).unwrap_err();

    assert!(
        message.contains("outside allowed MCP module"),
        "unexpected error: {message}"
    );
    assert!(
        !message.contains("No such file"),
        "outside-root misses must not reveal host path existence: {message}"
    );
}

#[test]
fn rejects_missing_wasm_path_inside_allowed_module_dir_without_os_error() {
    let message = resolve("/tmp/t/allowed/missing.wasm", None, false).unwrap_err();

    assert!(
        message.contains("not found or inaccessible"),
        "unexpected error: {message}"
    );
    assert!(
        !message.contains("Failed to canonicalize"),
        "canonicalization failure detail must not be exposed: {message}"
    );
    assert!(
        !message.contains("No such file") && !message.contains("os error"),
        "OS error detail must not be exposed: {message}"
    );
}

#[test]
fn rejects_wasm_directory_without_canonical_path_leak() {
    let canonical = "/tmp/t/allowed/module-dir.wasm";
    let message = resolve("allowed/module-dir.wasm", Some(canonical), false).unwrap_err();

    assert!(message.contains("is not a file"), "unexpected error: {message}");
    assert!(
        !message.contains("non-file"),
        "directory denial must not use the canonical-path leak wording: {message}"
    );
    assert!(
        !message.contains(canonical),
        "directory denial must not expose canonical host path: {message}"
    );
    assert!(
        !message.contains("'/") && !message.contains("\"/"),
        "directory denial must not expose absolute host paths: {message}"
    );
}

#[test]
fn rejects_wasm_path_symlink_to_directory_without_canonical_path_leak() {
    let canonical = "/tmp/t/outside";
    let message = resolve("/tmp/t/allowed/linked-dir.wasm", Some(canonical), false).unwrap_err();

    assert!(message.contains("is not a file"), "unexpected error: {message}");
    assert!(
        !message.contains("non-file"),
        "directory symlink denial must not use the canonical-path leak wording: {message}"
    );
    assert!(
        !message.contains(canonical),
        "directory symlink denial must not expose canonical host path: {message}"
    );
}

#[test]
fn nexus_mcp_accepts_wasm_path_inside_allowed_module_dir() {
    let path = "/tmp/t/allowed/tool.wasm";

    assert_eq!(resolve(path, Some(path), true), Ok(path.to_string()));
}

#[test]
fn nexus_mcp_rejects_wasm_path_symlink_escape() {
    let err = resolve("/tmp/t/allowed/linked.wasm", Some("/tmp/t/outside/tool.wasm"), true)
        .unwrap_err();

    assert!(
        err.contains("outside allowed MCP module"),
        "unexpected error: {err}"
    );
}

#[test]
fn ensure_tool_allowed_enforces_read_only_forced_allowlist() {
    let gate = ToolGate {
        forced_tool_allowlist: Some(read_only_http_tool_allowlist()),
        ..open_gate()
    };

    let error = text(gate.ensure_tool_allowed("nexus_execute_wasi").unwrap_err());
    assert!(error.contains("not allowed in HTTP read-only mode"));

    assert!(gate.ensure_tool_allowed("nexus_get_stats").is_ok());
}

#[test]
fn the_profile_switches_tools_off() {
    let off = gate_with(McpPolicy {
        tool_allowlist: Some(vec!["nexus_execute".to_string()]),
        snapshot_enabled: false,
        fork_enabled: false,
        proof_enabled: false,
        wasi_enabled: false,
    });

    assert!(off.ensure_tool_allowed("nexus_execute").is_ok());
    assert!(text(off.ensure_tool_allowed("nexus_get_stats").unwrap_err())
        .contains("is not in the MCP tool allowlist"));
    assert!(off.ensure_snapshot_enabled().is_err());
    assert!(off.ensure_fork_enabled().is_err());
    assert!(off.ensure_proof_enabled().is_err());
    assert!(off.ensure_wasi_enabled().is_err());
    assert!(open_gate().ensure_snapshot_enabled().is_ok());
    let quiet = ToolGate {
        instinct_enabled: false,
        retry_enabled: false,
        ..gate_with(McpPolicy::default())
    };
    assert!(quiet.ensure_instinct_enabled().is_err());
    assert!(quiet.ensure_retry_enabled().is_err());
}

#[test]
fn callers_learn_why_but_not_from_where() {
    let told = |error: ToolError| tool_anyhow_error_response(&error, "shown", "inc-1");
    let nexus = |e: NexusError| told(ToolError::Nexus(e));

    assert_eq!(
        nexus(NexusError::InvalidCapability(format!("token {ID} expired at noon"))),
        tool_anyhow_error_response(
            &ToolError::Nexus(NexusError::InvalidCapability("expired".to_string())),
            "other",
            "inc-2"
        )
    );
    assert!(nexus(NexusError::InvalidCapability("revoked".to_string())).contains("revoked"));
    assert!(told(ToolError::Other("/etc/shadow".to_string())).contains("internal error [inc-1]"));
    assert!(!told(ToolError::Other("/etc/shadow".to_string())).contains("shadow"));
    assert!(told(profile_denial("read:/data")).contains("-32602"));
    assert_eq!(tool_error_response("a\"b"), "{\"error\":\"a\\\"b\"}");
}

#[test]
fn tools_are_prepared_from_their_parameters() {
    let gate = open_gate();
    let params = ExecuteParams {
        wasm_path: "/m.wasm".to_string(),
        entry: Some("main".to_string()),
        input: None,
    };
    let run = do_execute(&gate, &params, ModuleFound::Bytes(vec![1])).unwrap();
    assert_eq!(run.tool.name, "mcp_tool");
    assert_eq!(run.tool.entry_point, "main");
    assert_eq!(run.input, "{}");
    assert!(do_execute(&gate, &params, ModuleFound::Unreadable).is_err());
    let denial = NexusError::FilesystemError("no".to_string());
    assert_eq!(
        do_execute(&gate, &params, ModuleFound::Refused(denial.clone())),
        Err(ToolError::Nexus(denial))
    );

    let proof = ExecuteProofParams {
        wasm_path: "/m.wasm".to_string(),
        input: Some("[1]".to_string()),
        aeon_agent_id: Some("a".to_string()),
        aeon_session_id: None,
    };
    let run = do_execute_proof(&gate, &proof, ModuleFound::Bytes(vec![1])).unwrap();
    assert_eq!(run.tool.entry_point, "_start");
    assert_eq!(run.tool.aeon_agent_id, Some("a".to_string()));
    assert_eq!(run.input, "[1]");

    let wasi = ExecuteWasiParams {
        wasm_path: "/m.wasm".to_string(),
        entry: None,
        input: None,
        capabilities: Some(vec![CapabilitySpec {
            kind: "read_file".to_string(),
            path: Some("/data".to_string()),
        }]),
        parent_token_id: None,
    };
    let run = do_execute_wasi(&gate, &wasi, ModuleFound::Bytes(vec![1])).unwrap();
    assert_eq!(run.tool.required_capabilities, vec![data()]);

    let retry = ExecuteRetryParams {
        wasm_path: "/m.wasm".to_string(),
        entry: None,
        input: None,
    };
    let closed = ToolGate {
        retry_enabled: false,
        ..gate_with(McpPolicy::default())
    };
    assert!(do_execute_retry(&gate, &retry, ModuleFound::Bytes(vec![1])).is_ok());
    assert!(closed.ensure_retry_enabled().is_err());
}

#[test]
fn outputs_are_told_as_text() {
    let told = ToolOutputResponse::from_output(output());
    let bytes = ToolOutputResponse::from_output(ToolOutput {
        result: Some(vec![0xff]),
        ..output()
    });

    assert_eq!(told.result, Some("done".to_string()));
    assert_eq!(told.snapshot_id, Some("snap".to_string()));
    assert_ne!(bytes.result, Some("\u{ff}".to_string()));
}

#[test]
fn capsules_are_told_last() {
    let events = proof_events(&Some("snap".to_string()), "cap", Some(2));

    assert!(matches!(
        events.last(),
        Some(NexusExecutionEvent::ProofCapsuleEmitted { capsule_id }) if capsule_id == "cap"
    ));
    assert_eq!(events.len(), 3);
    assert_eq!(proof_events(&None, "cap", None).len(), 1);
    let reference = proof_reference(&capsule(None));
    assert!(reference.inline_summary.scorecard_pass);
}

#[test]
fn memory_digests_must_match() {
    let evidence = Some(MemoryEvidenceRef {
        digest_value: "abc".to_string(),
        json: "{}".to_string(),
    });

    assert_eq!(verify_proof_capsule_memory_digest(&evidence, "abc"), Ok(()));
    assert!(verify_proof_capsule_memory_digest(&evidence, "abd").unwrap_err().contains("mismatch"));
    assert!(verify_proof_capsule_memory_digest(&None, "abc").unwrap_err().contains("missing"));
}

fn fork(base: Option<&str>, source: Option<&str>) -> ForkAndRaceParams {
    ForkAndRaceParams {
        wasm_path: "/m.wasm".to_string(),
        base_snapshot_id: base.map(str::to_string),
        source: source.map(str::to_string),
        branches: vec![
            BranchSpec {
                entry: Some("a".to_string()),
                input: None,
            },
            BranchSpec {
                entry: None,
                input: Some("[2]".to_string()),
            },
        ],
        strategy: Some("wait_all".to_string()),
    }
}

#[test]
fn races_start_from_one_base() {
    let base = resolve_fork_base_snapshot(&fork(Some(ID), None), None).unwrap();
    assert_eq!(base.snapshot_id, Some(ID.to_string()));
    assert_eq!(base.source, "explicit_snapshot_id");
    assert!(resolve_fork_base_snapshot(&fork(Some("x"), None), None).is_err());
    assert!(resolve_fork_base_snapshot(&fork(Some(ID), Some("latest_runtime")), None).is_err());
    assert!(resolve_fork_base_snapshot(&fork(None, Some("latest_runtime")), None).is_err());
    assert!(resolve_fork_base_snapshot(&fork(None, Some("odd")), Some("s")).is_err());
    let latest = resolve_fork_base_snapshot(&fork(None, Some("latest_runtime")), Some("s")).unwrap();
    assert_eq!(latest.snapshot_id, Some("s".to_string()));
    let scratch = choose_fork_base(&fork(None, None), &Err("".to_string()), None).unwrap();
    assert_eq!(scratch.snapshot_id, None);

    let plan = do_fork_and_race(&open_gate(), &fork(None, None), ModuleFound::Bytes(vec![1]), Ok(scratch))
        .unwrap();
    assert_eq!(plan.branches.len(), 2);
    assert_eq!(plan.branches[0].tool.entry_point, "a");
    assert_eq!(plan.branches[1].input, "[2]");
    assert_eq!(plan.config.selection_strategy, SelectionStrategy::WaitAll);
}

#[test]
fn snapshots_are_created_and_gone_back_to() {
    let gate = open_gate();
    let create = |source: Option<&str>| SnapshotCreateParams {
        label: None,
        source: source.map(str::to_string),
    };

    assert_eq!(
        do_snapshot_create(&gate, &create(None), None),
        Ok(SnapshotRequest::Baseline("mcp_snapshot".to_string()))
    );
    assert!(do_snapshot_create(&gate, &create(Some("latest_runtime")), None).is_err());
    assert!(matches!(
        do_snapshot_create(&gate, &create(Some("latest_runtime")), Some("s")),
        Ok(SnapshotRequest::Existing(r)) if r.snapshot_id == "s"
    ));
    assert!(do_snapshot_create(&gate, &create(Some("odd")), Some("s")).is_err());
    assert_eq!(baseline_response("b").source, "empty_baseline");

    let rollback = |id: &str, digest: Option<&str>| SnapshotRollbackParams {
        snapshot_id: id.to_string(),
        include_restored_state: None,
        caller_capabilities: None,
        parent_token_id: None,
        expected_digest: digest.map(str::to_string),
    };
    assert_eq!(
        do_snapshot_rollback(&gate, &rollback(ID, Some("AB")), Some("ab")).unwrap().snapshot_id,
        ID
    );
    assert!(text(do_snapshot_rollback(&gate, &rollback(ID, Some("ac")), Some("ab")).unwrap_err())
        .contains("digest mismatch"));
    assert!(do_snapshot_rollback(&gate, &rollback(ID, Some("ab")), None).is_err());
    assert!(text(do_snapshot_rollback(&gate, &rollback("x", None), None).unwrap_err())
        .contains("Invalid snapshot UUID"));
}

fn iq_params(capabilities: Option<Vec<&str>>, query: Option<&str>) -> NexusIqExecuteParams {
    NexusIqExecuteParams {
        tool_name: "tool".to_string(),
        tool_wasm: "AGFzbQ==".to_string(),
        input: "{\"a\":1}".to_string(),
        aeon_agent_id: "agent-1".to_string(),
        aeon_session_id: Some("session-1".to_string()),
        attestation_mode: None,
        required_capabilities: capabilities.map(|c| c.iter().map(|s| s.to_string()).collect()),
        memory_query: query.map(str::to_string),
        memory_limit: None,
    }
}

fn aeon() -> Option<AeonConfig> {
    Some(AeonConfig {
        enabled: true,
        base_url: "http://aeon.test".to_string(),
        agent_id: "other".to_string(),
        management_key: Some("k".to_string()),
        ..AeonConfig::default()
    })
}

#[test]
fn attested_requests_are_admitted_by_the_list() {
    let params = iq_params(None, None);

    assert_eq!(iq_admit(&open_gate(), &None, &params), Ok(IqAdmission::Admitted));
    assert_eq!(
        iq_admit(&open_gate(), &Some(vec!["tool".to_string()]), &params),
        Ok(IqAdmission::Admitted)
    );
    assert_eq!(iq_admit(&open_gate(), &Some(vec![]), &params), Ok(IqAdmission::Denied));
    let off = gate_with(McpPolicy {
        proof_enabled: false,
        ..McpPolicy::default()
    });
    assert!(iq_admit(&off, &None, &params).is_err());
}

#[test]
fn memory_is_recalled_for_the_caller() {
    let params = iq_params(None, Some("q"));
    let keyed = Some(AeonConfig {
        hmac_key: Some(vec![1; 32]),
        ..aeon().unwrap()
    });
    let client = iq_memory_client(&params, &keyed);

    assert_eq!(client.as_ref().unwrap().base_url, "http://aeon.test");
    assert!(iq_memory_client(&params, &aeon()).is_none());
    assert!(iq_memory_client(&params, &None).is_none());
    assert!(iq_memory_scope(&params).is_some());
    assert!(iq_memory_scope(&iq_params(None, None)).is_none());
    assert_eq!(iq_memory_limit(&params), 5);
    let recall = iq_recall(&params, &client, &Some((200, Some(vec![]))));
    assert_eq!(recall.evidence.attestation, MemoryAttestationMode::AttestedNoHit);
}

#[test]
fn recalls_are_limited_within_a_minute() {
    let mut limiter = RecallLimiter::new();
    for k in 0..10u128 {
        assert!(limiter.note_recall("a", k).is_ok());
    }
    assert!(text(limiter.note_recall("a", 11).unwrap_err()).contains("rate limit exceeded"));
    assert!(limiter.note_recall("b", 11).is_ok());
    assert!(limiter.note_recall("a", 60_000_000_001).is_ok());
}

#[test]
fn attested_jobs_are_prepared() {
    let params = iq_params(Some(vec!["read:/data"]), None);
    let job = iq_job(&params, &vec![None], &vec![None], Some("d".to_string())).unwrap();

    assert_eq!(job.tool.wasm_bytes, b"\0asm");
    assert_eq!(job.tool.required_capabilities, vec![data()]);
    assert_eq!(job.tool.aeon_session_id, Some("session-1".to_string()));
    assert_eq!(job.memory_digest, Some("d".to_string()));
    let broken = NexusIqExecuteParams {
        tool_wasm: "@@".to_string(),
        ..iq_params(None, None)
    };
    assert!(text(iq_job(&broken, &vec![], &vec![], None).unwrap_err()).contains("not valid base64"));
    let garbled = NexusIqExecuteParams {
        input: "{".to_string(),
        ..iq_params(None, None)
    };
    assert!(text(iq_job(&garbled, &vec![], &vec![], None).unwrap_err()).contains("not valid JSON"));

    let states = vec![token(true, true, false)];
    assert_eq!(
        iq_authorize(&job, false, &states, &states, true),
        Ok(IqAuthorization::WithTokens)
    );
    assert_eq!(iq_authorize(&job, true, &vec![], &vec![], true), Ok(IqAuthorization::Denied));
    let free = iq_job(&iq_params(None, None), &vec![], &vec![], None).unwrap();
    assert_eq!(iq_authorize(&free, false, &vec![], &vec![], true), Ok(IqAuthorization::Direct));
}

#[test]
fn attested_runs_are_concluded() {
    let denied = NexusError::CapabilityDenied("no".to_string());
    assert!(is_capability_denial(&denied));
    assert!(matches!(iq_conclude(Err(denied), &None), Ok(IqConclusion::Denied)));
    assert!(iq_conclude(Err(NexusError::WasmError("x".to_string())), &None).is_err());
    match iq_conclude(Ok((output(), capsule(None))), &None) {
        Ok(IqConclusion::Ran { events, .. }) => assert!(!events.is_empty()),
        other => panic!("{other:?}"),
    }
    assert!(iq_conclude(Ok((output(), capsule(None))), &Some("d".to_string())).is_err());

    let evidence = MemoryEvidenceV1::new("q", &vec![], MemoryAttestationMode::Absent);
    let response = iq_response(
        output(),
        &capsule(None),
        vec![],
        evidence.clone(),
        0,
        TimelineDeliveryMode::Attested,
        TimelineDeliveryStatus::Delivered,
    );
    assert!(!response.denied);
    assert_eq!(response.attestation_mode, "attested");
    let refusal = nexus_iq_denial_response(
        evidence,
        0,
        TimelineDeliveryMode::Advisory,
        TimelineDeliveryStatus::FailedOpen,
        DenialReason::ToolNotAllowed,
    );
    assert!(refusal.denied);
    assert!(refusal.output.is_none());
    assert_eq!(denial_events().len(), 1);
}

fn begin(params: NexusIqExecuteParams, needed: usize, list: Option<Vec<String>>) -> (IqRun, IqAction) {
    let request = IqRequest {
        params,
        config: None,
        objects: vec![None; needed],
        url_faults: vec![None; needed],
        profiled: true,
    };
    do_nexus_iq_execute(&open_gate(), &list, request)
}

#[test]
fn attested_requests_run_and_are_told() {
    let (run, action) = begin(iq_params(None, None), 0, None);
    assert!(matches!(action, IqAction::Run { with_tokens: false }));
    let (run, action) = run.step(IqEvent::Ran(Ok((output(), capsule(None)))));
    assert!(matches!(action, IqAction::Tell));
    match run.step(IqEvent::Told(TimelineDeliveryStatus::Delivered)).1 {
        IqAction::Finish(Ok(answer)) => {
            assert!(!answer.denied);
            assert_eq!(answer.proof_capsule_ref, Some("capsule-1".to_string()));
            assert_eq!(answer.timeline_status, TimelineDeliveryStatus::FailedOpen);
            assert_eq!(answer.attestation_mode, "advisory");
        }
        _ => panic!("the request is answered"),
    }
}

#[test]
fn unlisted_tools_are_denied_without_a_run() {
    let (run, action) = begin(iq_params(None, None), 0, Some(vec![]));
    assert!(matches!(action, IqAction::Tell));
    match run.step(IqEvent::Told(TimelineDeliveryStatus::Delivered)).1 {
        IqAction::Finish(Ok(answer)) => {
            assert!(answer.denied);
            assert!(answer.output.is_none());
            assert_eq!(
                answer.denial_negotiation.unwrap().reason,
                Some(DenialReason::ToolNotAllowed.safe_message().to_string())
            );
        }
        _ => panic!("the request is answered"),
    }
}

#[test]
fn recalls_are_checked_counted_and_made() {
    let (run, action) = begin(iq_params(None, Some("q")), 0, None);
    assert!(matches!(action, IqAction::CheckScope(Capability::ReadMemory(_))));
    let (run, action) = run.step(IqEvent::ScopeGranted);
    assert!(matches!(action, IqAction::CountRecall));
    let (run, action) = run.step(IqEvent::RecallCounted);
    assert!(matches!(action, IqAction::Recall { limit: 5 }));
    let (_, action) = run.step(IqEvent::Recalled(None));
    assert!(matches!(action, IqAction::Run { with_tokens: false }));

    let (run, _) = begin(iq_params(None, Some("q")), 0, None);
    match run.step(IqEvent::ScopeRefused("no".to_string())).1 {
        IqAction::Finish(Err(e)) => assert!(text(e).ends_with("for scope: no")),
        _ => panic!("the request is refused"),
    }
    let (run, _) = begin(iq_params(None, Some("q")), 0, None);
    let (run, _) = run.step(IqEvent::ScopeGranted);
    let limited = IqEvent::RecallLimited(ToolError::Other("too many".to_string()));
    assert!(matches!(run.step(limited).1, IqAction::Finish(Err(_))));
}

#[test]
fn jobs_with_needs_wait_for_tokens() {
    let needy = || begin(iq_params(Some(vec!["read:/data"]), None), 1, None).0;
    let tokens = |refused: bool, used: TokenState| IqEvent::Tokens {
        refused,
        issued: vec![token(true, true, false)],
        used: vec![used],
    };

    assert!(matches!(
        needy().step(tokens(false, token(true, true, false))).1,
        IqAction::Run { with_tokens: true }
    ));
    assert!(matches!(
        needy().step(tokens(false, token(false, true, false))).1,
        IqAction::Finish(Err(_))
    ));
    let (denied, action) = needy().step(tokens(true, token(true, true, false)));
    assert!(matches!(action, IqAction::Tell));
    assert!(matches!(
        denied.step(IqEvent::Told(TimelineDeliveryStatus::FailedOpen)).1,
        IqAction::Finish(Ok(answer)) if answer.denied
    ));
}

#[test]
fn memory_digests_are_keyed_where_a_key_is_known() {
    let hits = vec![MemoryHit {
        id: "m".to_string(),
        content: "c".to_string(),
        score: None,
    }];
    let evidence = MemoryEvidenceV1::new("q", &hits, MemoryAttestationMode::AttestedWithRecall);
    let plain = iq_memory_digest(&evidence, &aeon());
    let keyed = iq_memory_digest(
        &evidence,
        &Some(AeonConfig {
            hmac_key: Some(vec![1; 32]),
            ..aeon().unwrap()
        }),
    );

    assert_eq!(plain, evidence.evidence_digest());
    assert_ne!(keyed, plain);
    assert_eq!(keyed.unwrap().len(), 64);
}

#[test]
fn tellings_are_awaited_where_they_are_owed() {
    let none = plan_telling(&None, TimelineDeliveryMode::Attested, "s".to_string());
    assert!(none.sink.is_none());
    let some = plan_telling(&aeon(), TimelineDeliveryMode::Attested, "s".to_string());
    assert!(some.sink.is_some());
    assert!(some.awaited);
    assert_eq!(
        deliver_nexus_iq_timeline(false, TimelineDeliveryMode::Attested, TimelineDeliveryStatus::Delivered),
        TimelineDeliveryStatus::RequiredButFailed
    );
}

#[test]
fn servers_are_set_up_from_the_environment() {
    assert_eq!(parse_nexus_mcp_transport(&EnvValue::Absent), Ok(Transport::Stdio));
    assert_eq!(parse_nexus_mcp_transport(&value("http")), Ok(Transport::Http));
    assert!(parse_nexus_mcp_transport(&value("smoke")).is_err());
    assert_eq!(http_addr_text(&EnvValue::Absent), HTTP_DEFAULT_ADDR);
    let limits = SandboxLimits {
        max_fuel: 1,
        time_limit_ms: 2,
    };
    assert_eq!(
        apply_mcp_sandbox_env(limits, &value("10"), &EnvValue::Absent),
        Ok(SandboxLimits {
            max_fuel: 10,
            time_limit_ms: 2,
        })
    );
    assert!(apply_mcp_sandbox_env(limits, &value("x"), &EnvValue::Absent)
        .unwrap_err()
        .starts_with(MCP_FUEL_ENV));
    assert!(should_include_full_proof_capsule(&value("true"), true));
    assert_eq!(
        nexus_iq_allowlist_from_env(&value("a, b")),
        Ok(Some(vec!["a".to_string(), "b".to_string()]))
    );
    assert_eq!(
        nexus_iq_allowlist_from_env(&value("[\"a\"]")),
        Ok(Some(vec!["a".to_string()]))
    );
    assert!(nexus_iq_allowlist_from_env(&value("[1]")).is_err());
    assert_eq!(nexus_iq_allowlist_from_env(&EnvValue::Absent), Ok(None));
}

#[test]
fn capability_lists_come_from_the_environment() {
    let spec = |kind: &str| CapabilitySpec {
        kind: kind.to_string(),
        path: Some("/data".to_string()),
    };

    assert_eq!(capability_allowlist_from_env(&AllowlistSetting::Absent), Ok(None));
    assert_eq!(
        capability_allowlist_from_env(&AllowlistSetting::Specs(vec![spec("read_file")])),
        Ok(Some(vec![data()]))
    );
    let error = capability_allowlist_from_env(&AllowlistSetting::Specs(vec![spec("all")])).unwrap_err();
    assert!(error.contains("CapabilitySpec { type: \"all\", path: Some(\"/data\") }"));
    assert_eq!(
        capability_allowlist_from_env(&AllowlistSetting::Specs(vec![spec("odd")])),
        Err("Unknown capability type: odd".to_string())
    );
    assert!(capability_allowlist_from_env(&AllowlistSetting::NotUnicode).is_err());
    assert!(capability_allowlist_from_env(&AllowlistSetting::Malformed("x".to_string())).is_err());
}

#[test]
fn module_directories_come_from_the_profile_first() {
    let dir = |found: ResolvedDir| NamedDir {
        shown: "d".to_string(),
        found,
    };
    let profile = vec![dir(ResolvedDir::Dir("/p".to_string()))];
    let env = vec![dir(ResolvedDir::Dir("/e".to_string()))];

    assert_eq!(module_dirs(&profile, &env), Ok(vec!["/p".to_string()]));
    assert_eq!(module_dirs(&vec![], &env), Ok(vec!["/e".to_string()]));
    assert!(module_dirs(&vec![], &vec![]).is_err());
    assert_eq!(
        allowed_wasm_module_dirs(&vec![dir(ResolvedDir::Missing("gone".to_string()))]),
        Err("invalid MCP module dir 'd': gone".to_string())
    );
    assert!(allowed_wasm_module_dirs(&vec![dir(ResolvedDir::NotDirectory)]).is_err());
}

#[test]
fn recalled_evidence_reaches_the_capsule() {
    let hits = vec![SearchHit {
        id: Some("m".to_string()),
        content: Some("c".to_string()),
        score: None,
        distance: None,
        similarity: None,
    }];
    let request = IqRequest {
        params: iq_params(None, Some("q")),
        config: Some(AeonConfig {
            hmac_key: Some(vec![1; 32]),
            ..aeon().unwrap()
        }),
        objects: vec![],
        url_faults: vec![],
        profiled: true,
    };
    let (run, _) = do_nexus_iq_execute(&open_gate(), &None, request);
    let (run, _) = run.step(IqEvent::ScopeGranted);
    let (run, _) = run.step(IqEvent::RecallCounted);
    let (run, action) = run.step(IqEvent::Recalled(Some((200, Some(hits)))));
    assert!(matches!(action, IqAction::Run { with_tokens: false }));
    let job = match &run.phase {
        IqPhase::Running { job, .. } => job.clone(),
        _ => panic!("the job is run"),
    };
    assert!(job.memory_digest.is_some());
    let (proof, _) = ProofRun::start(job.tool, false, false);
    let notes = RunNotes {
        stamp: RunStamp {
            run_id: ID.to_string(),
            started_at: now(),
            finished_at: now(),
        },
        input: b"{}".to_vec(),
        required: vec![],
        snapshot: None,
        capsule_id: "capsule-2".to_string(),
    };
    let proved = match proof.step(ProofEvent::Ran(output(), notes), &[3; 32]).1 {
        ProofAction::Finish(proved) => proved,
        _ => panic!("the run is attested"),
    };
    let (run, action) = run.step(IqEvent::Ran(proved));
    assert!(matches!(action, IqAction::Tell));
    match run.step(IqEvent::Told(TimelineDeliveryStatus::Delivered)).1 {
        IqAction::Finish(Ok(answer)) => {
            assert!(!answer.denied);
            assert_eq!(answer.proof_capsule_ref, Some("capsule-2".to_string()));
        }
        _ => panic!("the request is answered"),
    }
}

fn timeline_params(agent: Option<&str>) -> AeonTimelineExecuteParams {
    AeonTimelineExecuteParams {
        wasm_path: "/m.wasm".to_string(),
        entry: None,
        input: None,
        capabilities: None,
        caller_capabilities: Some(vec![CapabilitySpec {
            kind: "read_file".to_string(),
            path: Some("/data".to_string()),
        }]),
        parent_token_id: None,
        aeon_agent_id: agent.map(str::to_string),
        aeon_session_id: None,
    }
}

fn timeline(agent: Option<&str>) -> TimelineRun {
    let found = ModuleFound::Bytes(vec![1]);
    let (run, action) = TimelineRun::start(&open_gate(), timeline_params(agent), true, found);
    match action {
        TimelineAction::IssueTokens(caps) => assert_eq!(caps, vec![data()]),
        _ => panic!("tokens are issued first"),
    }
    run
}

#[test]
fn told_executions_are_checked_run_and_told() {
    let good = || vec![token(true, true, false)];
    let stale = || vec![token(false, true, false)];
    let tokens = |issued: Vec<TokenState>, used: Vec<TokenState>| TimelineEvent::Tokens { issued, used };

    let (run, action) = timeline(Some("a")).step(tokens(good(), good()));
    assert!(matches!(action, TimelineAction::Run));
    let ran = TimelineEvent::Ran {
        outcome: Ok((output(), capsule(None))),
        has_sink: true,
    };
    match run.step(ran).1 {
        TimelineAction::Finish { answer: Ok(answer), tell } => {
            assert!(tell);
            assert_eq!(answer.timeline_delivery_status, Some(TimelineDeliveryStatus::FireAndForget));
            assert_eq!(answer.aeon_timeline_path.as_deref(), Some("/agents/a/timeline"));
        }
        _ => panic!("the request is answered"),
    }
    for (issued, used) in [(stale(), good()), (good(), stale())] {
        assert!(matches!(
            timeline(None).step(tokens(issued, used)).1,
            TimelineAction::Finish { answer: Err(_), tell: false }
        ));
    }
    let refused = TimelineEvent::TokensRefused(ToolError::Other("no".to_string()));
    assert!(matches!(
        timeline(None).step(refused).1,
        TimelineAction::Finish { answer: Err(ToolError::Other(m)), .. } if m == "no"
    ));
    let (run, _) = timeline(None).step(tokens(good(), good()));
    let quiet = TimelineEvent::Ran {
        outcome: Ok((output(), capsule(None))),
        has_sink: true,
    };
    assert!(matches!(
        run.step(quiet).1,
        TimelineAction::Finish { answer: Ok(_), tell: false }
    ));
    let unread = TimelineRun::start(&open_gate(), timeline_params(None), true, ModuleFound::Unreadable).1;
    assert!(matches!(unread, TimelineAction::Finish { answer: Err(_), .. }));
}
