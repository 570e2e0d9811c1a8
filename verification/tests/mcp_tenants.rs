use nexus::env::EnvValue;
use nexus::mcp::http_auth::{
    may_bind, refusal_status, require_bearer_token, Admission, RateLimits, RATE_WINDOW_MS,
};
use nexus::mcp::postgres::{
    format_tenant_query, load_postgres_tenant_snapshot, parse_tenant_db_ssl_mode,
    quote_postgres_relation_identifier, snapshot_query, tenant_db_ssl_mode, SslMode, TenantRow,
    RELATION_DEFAULT,
};
use nexus::mcp::registry::{
    build_postgres_tenant_registry, parse_tenant_source, PostgresTenantRegistry, RefreshFault,
    RegistryEnv, RegistrySettings, TenantSnapshotState, TenantSource, TENANT_DB_RELATION_ENV,
    TENANT_DB_URL_ENV, TENANT_MAX_STALE_SECS_ENV, TENANT_REFRESH_SECS_ENV,
};
use nexus::mcp::tenants::{
    normalize_http_token, parse_bearer_token, parse_hex_sha256, parse_mcp_http_tenants_path,
    parse_mcp_http_token, parse_tenant_auth_state_from_file, parse_tenant_config_file,
    sha256_hex_bytes, tenant_for_token, TenantConfigFileEntry, TenantFile, TenantInfo,
    TenantSnapshot, DEFAULT_RATE_LIMIT_RPM, FALLBACK_TENANT,
};

const SECOND: u128 = 1_000_000_000;

fn value(text: &str) -> EnvValue {
    EnvValue::Value(text.to_string())
}

fn info(tenant_id: &str, rate_limit_rpm: u64) -> TenantInfo {
    TenantInfo {
        tenant_id: tenant_id.to_string(),
        rate_limit_rpm,
    }
}

fn tenants(tenant_id: &str, api_key: &str, rate_limit_rpm: u64) -> TenantSnapshot {
    let mut snapshot = TenantSnapshot::new();
    snapshot.insert(sha256_hex_bytes(api_key), info(tenant_id, rate_limit_rpm));
    snapshot
}

fn call(known: Option<&TenantSnapshot>, header: Option<&str>) -> (Admission, Option<u16>) {
    let admission = require_bearer_token(known, &mut RateLimits::new(), header, 0);
    let status = refusal_status(&admission);
    (admission, status)
}

fn entry(tenant_id: &str, api_key_sha256: String, rate: Option<u64>) -> TenantConfigFileEntry {
    TenantConfigFileEntry {
        tenant_id: tenant_id.to_string(),
        api_key_sha256,
        rate_limit_rpm: rate,
    }
}

#[test]
fn tenant_for_token_uses_snapshot_map_match() {
    let key = "acme-api-key";
    let snapshot = tenants("acme", key, 120);

    let tenant =
        tenant_for_token(&snapshot, &sha256_hex_bytes(key)).expect("token should resolve");
    assert_eq!(tenant.tenant_id, "acme");
    assert_eq!(tenant.rate_limit_rpm, 120);
    assert!(tenant_for_token(&snapshot, "deadbeef").is_none());
}

#[test]
fn tenant_registry_refresh_revocation_removes_access() {
    let mut served = tenants("acme", "expected-secret", 120);
    let (authorized, status) = call(Some(&served), Some("Bearer expected-secret"));
    assert_eq!(authorized, Admission::As("acme".to_string()));
    assert_eq!(status, None);

    served = TenantSnapshot::new();
    let (_, status) = call(Some(&served), Some("Bearer expected-secret"));
    assert_eq!(status, Some(401));
}

#[test]
fn tenant_auth_state_with_empty_snapshot_denies_all_requests() {
    let (_, status) = call(Some(&TenantSnapshot::new()), Some("Bearer shared-secret"));
    assert_eq!(status, Some(401));
}

fn registry(max_stale_secs: u64) -> PostgresTenantRegistry {
    PostgresTenantRegistry::new(&RegistrySettings {
        db_url: "postgres://localhost/postgres".to_string(),
        relation: RELATION_DEFAULT.to_string(),
        refresh_secs: 20,
        max_stale_secs,
        timeout_secs: 10,
    })
}

#[test]
fn postgres_registry_stale_refresh_behavior() {
    let mut registry = registry(2);
    let refreshed_at = 100 * SECOND;
    registry.state = TenantSnapshotState::fresh(tenants("acme", "known-key", 120), refreshed_at);

    registry.clear_if_stale(refreshed_at + SECOND / 2);
    assert_eq!(registry.current_snapshot().len(), 1);

    registry.clear_if_stale(refreshed_at + 3 * SECOND);
    assert!(registry.current_snapshot().is_empty());
    assert!(registry.state.refreshed_at.is_none());
}

#[test]
fn postgres_tenant_refresh_timeout_clears_stale_snapshot() {
    let mut registry = registry(2);
    let now = 100 * SECOND;
    registry.state =
        TenantSnapshotState::fresh(tenants("acme", "known-key", 120), now - 3 * SECOND / 2);
    let (_, status) = call(Some(registry.current_snapshot()), Some("Bearer known-key"));
    assert_eq!(status, None);

    let budget = registry.begin_refresh(5 * SECOND, now);
    assert!(budget < 2 * SECOND);
    let refreshed = registry.finish_refresh(Err(RefreshFault::TimedOut), now + budget);
    assert!(refreshed.is_err(), "expected timeout-based refresh error");
    assert!(registry.current_snapshot().is_empty());
    assert!(registry.state.refreshed_at.is_none());

    let (_, status) = call(Some(registry.current_snapshot()), Some("Bearer known-key"));
    assert_eq!(status, Some(401));
}

#[test]
fn a_refresh_replaces_what_is_served() {
    let mut registry = registry(60);
    registry.refresh_from_snapshot(tenants("old", "k", 1), SECOND);
    assert_eq!(
        registry.finish_refresh(Ok(tenants("new", "k", 1)), 2 * SECOND),
        Ok(())
    );
    assert_eq!(registry.state.refreshed_at, Some(2 * SECOND));
    assert_eq!(
        registry.finish_refresh(Err(RefreshFault::Failed("down".to_string())), 3 * SECOND),
        Err("down".to_string())
    );
    assert_eq!(registry.current_snapshot().len(), 1);
}

#[test]
fn parse_tenant_db_ssl_mode_requires_verification_or_require() {
    assert!(matches!(
        tenant_db_ssl_mode("postgres://localhost/postgres"),
        SslMode::Require
    ));
    assert!(matches!(
        tenant_db_ssl_mode("postgres://localhost/postgres?sslmode=prefer"),
        SslMode::Require
    ));
    assert!(matches!(
        tenant_db_ssl_mode("postgres://localhost/postgres?sslmode=verify-full"),
        SslMode::VerifyFull
    ));
    assert!(matches!(
        tenant_db_ssl_mode("postgres://localhost/postgres?sslmode=verify-ca"),
        SslMode::VerifyCa
    ));
    assert!(matches!(
        parse_tenant_db_ssl_mode("postgres://localhost/postgres?SSLMODE=disable"),
        Some(SslMode::Disable)
    ));
    assert!(parse_tenant_db_ssl_mode("postgres://localhost/postgres?sslmode=odd").is_none());
}

#[test]
fn quote_postgres_relation_identifier_quotes_segments() {
    assert_eq!(
        quote_postgres_relation_identifier("public.api_keys"),
        "\"public\".\"api_keys\""
    );
    assert_eq!(
        quote_postgres_relation_identifier(r#"schema.with"dot"#),
        "\"schema\".\"with\"\"dot\""
    );
}

#[test]
fn the_active_view_needs_no_filter() {
    assert_eq!(
        snapshot_query(RELATION_DEFAULT, true),
        "SELECT key_sha256, workspace_id::text AS workspace_id, rate_limit_rpm::bigint AS \
         rate_limit_rpm FROM \"active_api_keys\""
    );
    assert!(snapshot_query(RELATION_DEFAULT, false).ends_with("FROM \"api_keys\" WHERE status = 'active'"));
    assert!(format_tenant_query("\"x\"", true).ends_with("FROM \"x\" WHERE status = 'active'"));
}

#[test]
fn rows_become_tenants() {
    let row = |key: &str, id: &str, rate: Option<i64>| TenantRow {
        key_sha256: sha256_hex_bytes(key),
        workspace_id: id.to_string(),
        rate_limit_rpm: rate,
    };
    let loaded = load_postgres_tenant_snapshot(
        &vec![row("a", "tenant-acme", Some(180)), row("b", "tenant-b", None)],
        DEFAULT_RATE_LIMIT_RPM,
    )
    .unwrap();

    assert_eq!(loaded.len(), 2);
    assert_eq!(loaded.get(&sha256_hex_bytes("a")), Some(&info("tenant-acme", 180)));
    assert_eq!(loaded.get(&sha256_hex_bytes("b")), Some(&info("tenant-b", DEFAULT_RATE_LIMIT_RPM)));
    assert!(load_postgres_tenant_snapshot(&vec![row("a", "t", Some(-1))], 60)
        .unwrap_err()
        .contains("must be a non-negative integer"));
    assert!(load_postgres_tenant_snapshot(&vec![row("a", "t", None), row("a", "u", None)], 60)
        .unwrap_err()
        .contains("duplicate tenant api_key_sha256"));
}

fn registry_env() -> RegistryEnv {
    RegistryEnv {
        relation: EnvValue::Absent,
        refresh_secs: EnvValue::Absent,
        max_stale_secs: EnvValue::Absent,
        timeout_secs: EnvValue::Absent,
        db_url: EnvValue::Absent,
    }
}

#[test]
fn build_postgres_tenant_registry_requires_db_url() {
    assert_eq!(parse_tenant_source(&value("postgres")), Ok(TenantSource::Postgres));
    let error = build_postgres_tenant_registry(&registry_env()).unwrap_err();
    assert!(
        error.contains(&format!("{TENANT_DB_URL_ENV} is required")),
        "unexpected error: {error}"
    );
}

#[test]
fn build_postgres_tenant_registry_rejects_invalid_ttls() {
    let zero = RegistryEnv {
        db_url: value("postgres://localhost/postgres"),
        refresh_secs: value("0"),
        ..registry_env()
    };
    let zero_refresh = build_postgres_tenant_registry(&zero).unwrap_err();
    assert!(
        zero_refresh.contains(&format!("{TENANT_REFRESH_SECS_ENV} must be greater than 0")),
        "unexpected error: {zero_refresh}"
    );

    let stale = RegistryEnv {
        refresh_secs: value("10"),
        max_stale_secs: value("2"),
        ..zero
    };
    let bad_stale = build_postgres_tenant_registry(&stale).unwrap_err();
    assert!(
        bad_stale.contains(&format!(
            "{TENANT_MAX_STALE_SECS_ENV} must be >= {TENANT_REFRESH_SECS_ENV}"
        )),
        "unexpected error: {bad_stale}"
    );
}

#[test]
fn registries_are_built_from_the_environment() {
    let env = RegistryEnv {
        db_url: value(" postgres://db/x "),
        relation: value("public.keys"),
        refresh_secs: value("5"),
        max_stale_secs: value("50"),
        timeout_secs: value("3"),
    };
    let settings = build_postgres_tenant_registry(&env).unwrap();

    assert_eq!(settings.db_url, "postgres://db/x");
    assert_eq!(settings.relation, "public.keys");
    assert_eq!(settings.refresh_secs, 5);
    assert_eq!(settings.max_stale_secs, 50);
    assert_eq!(settings.timeout_secs, 3);
    assert!(build_postgres_tenant_registry(&RegistryEnv {
        relation: value("  "),
        ..env
    })
    .unwrap_err()
    .contains(TENANT_DB_RELATION_ENV));
    assert_eq!(parse_tenant_source(&EnvValue::Absent), Ok(TenantSource::File));
    assert!(parse_tenant_source(&value("ldap")).is_err());
}

#[test]
fn parse_tenant_store_loads_from_temporary_json_file() {
    let api_key = "acme-secret-key";
    let file = TenantFile::Entries(vec![entry("acme", sha256_hex_bytes(api_key), Some(120))]);
    let tenants = parse_tenant_config_file("tenants.json", &file).unwrap();
    let tenant = tenants
        .get(&sha256_hex_bytes(api_key))
        .expect("tenant should be in snapshot");

    assert_eq!(tenants.len(), 1);
    assert_eq!(tenant.tenant_id, "acme");
    assert_eq!(tenant.rate_limit_rpm, 120);
}

#[test]
fn parse_tenant_store_rejects_duplicate_api_key_hashes() {
    let file = TenantFile::Entries(vec![
        entry("acme", sha256_hex_bytes("shared-key"), None),
        entry("second", sha256_hex_bytes("shared-key"), None),
    ]);

    let error = parse_tenant_config_file("tenants.json", &file).unwrap_err();

    assert!(error.contains("duplicate tenant api_key_sha256"));
}

#[test]
fn tenant_files_are_refused_for_what_is_wrong_with_them() {
    let refused = |entries: Vec<TenantConfigFileEntry>| {
        parse_tenant_config_file("t", &TenantFile::Entries(entries)).unwrap_err()
    };

    assert_eq!(
        parse_tenant_config_file("t", &TenantFile::Unreadable("gone".to_string())).unwrap_err(),
        "failed to read tenants file 't': gone"
    );
    assert_eq!(
        parse_tenant_config_file("t", &TenantFile::Malformed("bad".to_string())).unwrap_err(),
        "invalid tenants JSON: bad"
    );
    assert!(refused(vec![]).contains("at least one tenant"));
    assert!(refused(vec![entry(" ", sha256_hex_bytes("a"), None)]).contains("must not be empty"));
    assert!(refused(vec![entry("a", "00".to_string(), None)]).contains("invalid SHA-256 hex length"));
    assert!(refused(vec![entry("a", "zz".repeat(32), None)]).contains("must be hex"));
    assert!(refused(vec![entry("a", sha256_hex_bytes("a"), Some(0))]).contains("must be greater than 0"));
    assert!(refused(vec![
        entry("a", sha256_hex_bytes("a"), None),
        entry("a", sha256_hex_bytes("b"), None),
    ])
    .contains("duplicate tenant_id 'a'"));
    assert_eq!(parse_hex_sha256(&"0f".repeat(32)), Ok(vec![15; 32]));
}

#[test]
fn parse_mcp_http_token_normalizes_empty() {
    assert!(parse_mcp_http_token(&value("   ")).unwrap().is_none());
}

#[test]
fn parse_mcp_http_tenants_path_empty_string_is_none() {
    assert!(parse_mcp_http_tenants_path(&value("   ")).unwrap().is_none());
}

#[test]
fn load_tenant_auth_state_falls_back_to_token_when_tenants_unset_or_empty() {
    let unread = TenantFile::Entries(vec![]);
    let state = parse_tenant_auth_state_from_file(&value("   "), &value("shared-secret"), &unread)
        .unwrap()
        .expect("token auth should be configured");

    let (admission, status) = call(Some(&state), Some("Bearer shared-secret"));
    assert_eq!(status, None);
    assert_eq!(admission, Admission::As(FALLBACK_TENANT.to_string()));
    assert!(matches!(
        parse_tenant_auth_state_from_file(&EnvValue::Absent, &EnvValue::Absent, &unread),
        Ok(None)
    ));
}

#[test]
fn parse_mcp_http_token_rejects_non_utf8() {
    assert!(parse_mcp_http_token(&EnvValue::NotUnicode).is_err());
}

#[test]
fn require_bearer_token_rejects_missing_and_unknown() {
    let state = tenants("acme", "expected-secret", 120);

    assert_eq!(call(Some(&state), None).1, Some(401));
    assert_eq!(call(Some(&state), Some("Bearer wrong")).1, Some(401));
}

#[test]
fn require_bearer_token_sets_tenant_context() {
    let state = tenants("acme", "expected-secret", 120);

    let (admission, status) = call(Some(&state), Some("Bearer expected-secret"));
    assert_eq!(status, None);
    assert_eq!(admission, Admission::As("acme".to_string()));
}

#[test]
fn require_bearer_token_matches_normalized_secret_with_whitespace() {
    let state = tenants("acme", "expected-secret", 120);

    let (admission, status) = call(Some(&state), Some("Bearer   expected-secret   "));
    assert_eq!(status, None);
    assert_eq!(admission, Admission::As("acme".to_string()));
}

#[test]
fn require_bearer_token_rate_limit_429() {
    let state = tenants("acme", "expected-secret", 1);
    let mut limits = RateLimits::new();
    let header = Some("Bearer expected-secret");

    let first = require_bearer_token(Some(&state), &mut limits, header, 0);
    assert_eq!(refusal_status(&first), None);

    let second = require_bearer_token(Some(&state), &mut limits, header, 1);
    assert_eq!(refusal_status(&second), Some(429));

    let later = require_bearer_token(Some(&state), &mut limits, header, RATE_WINDOW_MS + 2);
    assert_eq!(refusal_status(&later), None);
}

#[test]
fn limits_are_kept_per_tenant() {
    let mut limits = RateLimits::new();

    assert!(!limits.rate_limit_blocked("a", 1, 0));
    assert!(limits.rate_limit_blocked("a", 1, 0));
    assert!(!limits.rate_limit_blocked("b", 1, 0));
}

#[test]
fn without_tenants_nobody_is_asked() {
    assert_eq!(call(None, None), (Admission::Open, None));
    assert!(may_bind(true, false).is_ok());
    assert!(may_bind(false, true).is_ok());
    assert!(may_bind(false, false).is_err());
}

#[test]
fn bearer_tokens_are_read_from_headers() {
    assert_eq!(parse_bearer_token("bearer abc"), Some("abc".to_string()));
    assert_eq!(parse_bearer_token("Basic abc"), None);
    assert_eq!(parse_bearer_token("Bearer   "), None);
    assert_eq!(normalize_http_token(" x "), Some("x".to_string()));
    assert_eq!(normalize_http_token(" "), None);
}

#[test]
fn a_pair_may_begin_with_a_plus_sign() {
    let with = |pair: &str| format!("{pair}{}", "0".repeat(62));

    assert_eq!(parse_hex_sha256(&with("+f")), parse_hex_sha256(&with("0F")));
    assert!(parse_hex_sha256(&with("f+")).is_err());
    assert!(parse_hex_sha256(&with("++")).is_err());
    assert!(parse_hex_sha256(&with("-f")).is_err());
}

#[test]
fn a_key_has_one_tenant() {
    let mut snapshot = TenantSnapshot::new();

    assert!(snapshot.is_empty());
    assert!(!snapshot.insert("k".to_string(), info("a", 1)));
    assert!(!snapshot.insert("l".to_string(), info("b", 2)));
    assert!(snapshot.insert("k".to_string(), info("c", 3)));
    assert_eq!(snapshot.len(), 2);
    assert_eq!(snapshot.get("k"), Some(&info("c", 3)));
    assert_eq!(snapshot.clone().get("l"), Some(&info("b", 2)));
    assert_eq!(snapshot.get("m"), None);
}

#[test]
fn a_call_leaves_other_tenants_alone() {
    let mut limits = RateLimits::new();
    assert!(!limits.rate_limit_blocked("other", 1, 0));
    let state = tenants("acme", "expected-secret", 1);
    let header = Some("Bearer expected-secret");
    require_bearer_token(Some(&state), &mut limits, header, 0);

    assert!(limits.rate_limit_blocked("other", 1, 0));
    assert!(!limits.rate_limit_blocked("third", 1, 0));
}
