use nexus::aeon::config::{
    check_base_url, AeonConfig, AeonEnv, AGENT_ID_ENV, BASE_URL_ENV, ENABLED_ENV, HMAC_KEY_ENV,
    TIMEOUT_MS_ENV,
};
use nexus::aeon::memory::{
    build_memory_evidence_ref, extract_memory_id, hits_from, recall_memory_evidence_v1, sha256_hex,
    validate_memory_evidence_v1, AeonMemoryClient, MemoryEvidenceV1, MemoryHit, SearchHit,
};
use nexus::aeon::timeline::{
    after_post, default_timeline_spool_path, judge_line, pending_lines, replay_spooled_events,
    rewrite_spool, spool_lines, timeline_retry_delay, unread_spool, AeonTimelineSink, DeliveryPlan,
    LineTask, PostStep, TimelineDeliveryMode, TimelineDeliveryStatus, TimelineEventBody,
    TimelineReplayReport, TimelineSpoolRecord,
};
use nexus::attestation::schema::{MemoryAttestationMode, MemoryEvidenceRef};
use nexus::daemon::NexusExecutionEvent;
use nexus::env::EnvValue;
use nexus::error::NexusError;

fn clean_env() -> AeonEnv {
    AeonEnv {
        enabled: EnvValue::Absent,
        base_url: EnvValue::Absent,
        agent_id: EnvValue::Absent,
        session_id: EnvValue::Absent,
        timeout_ms: EnvValue::Absent,
        management_key: EnvValue::Absent,
        hmac_key: EnvValue::Absent,
    }
}

fn value(text: &str) -> EnvValue {
    EnvValue::Value(text.to_string())
}

fn shown(error: &NexusError) -> String {
    match error {
        NexusError::ConfigError(m) => format!("Configuration error: {m}"),
        other => format!("{other:?}"),
    }
}

fn config_error(env: &AeonEnv) -> String {
    match AeonConfig::from_env(env, "fresh".to_string()) {
        Ok(_) => panic!("accepted"),
        Err(e) => shown(&e),
    }
}

fn test_config(base_url: &str, management_key: Option<&str>) -> AeonConfig {
    AeonConfig {
        enabled: true,
        base_url: base_url.to_string(),
        agent_id: "agent-1".to_string(),
        session_id: None,
        timeout_ms: 100,
        management_key: management_key.map(str::to_string),
        hmac_key: None,
    }
}

fn client(management_key: Option<&str>) -> AeonMemoryClient {
    AeonMemoryClient::from_config(&test_config("http://aeon.test", management_key))
}

fn number(entry: &serde_json::Value, name: &str) -> Option<u64> {
    entry.get(name).and_then(|v| v.as_f64()).map(f64::to_bits)
}

fn text(entry: &serde_json::Value, name: &str) -> Option<String> {
    entry.get(name).and_then(|v| v.as_str()).map(str::to_string)
}

fn search_reply(status: u16, body: &str) -> Option<(u16, Option<Vec<SearchHit>>)> {
    let parsed: Option<serde_json::Value> = serde_json::from_str(body).ok();
    let hits = parsed.and_then(|v| {
        v.get("results").and_then(|r| r.as_array()).map(|list| {
            list.iter()
                .map(|entry| SearchHit {
                    id: text(entry, "id"),
                    content: text(entry, "content"),
                    score: number(entry, "score"),
                    distance: number(entry, "distance"),
                    similarity: number(entry, "similarity"),
                })
                .collect()
        })
    });
    Some((status, hits))
}

fn score(hit: &MemoryHit) -> Option<f64> {
    hit.score.map(f64::from_bits)
}

#[test]
fn default_config_is_disabled_local_proxy() {
    let cfg = AeonConfig::default();

    assert!(!cfg.enabled);
    assert_eq!(cfg.base_url, "http://localhost:8080");
    assert_eq!(cfg.agent_id, "nexus");
    assert_eq!(cfg.session_id, None);
    assert_eq!(cfg.timeout_ms, 30_000);
    assert_eq!(cfg.management_key, None);
    assert_eq!(
        cfg.chat_completions_url(),
        "http://localhost:8080/v1/chat/completions"
    );
}

#[test]
fn aeon_config_debug_redacts_secrets() {
    let cfg = AeonConfig {
        management_key: Some("mgmt-secret".to_string()),
        hmac_key: Some(vec![0x42; 32]),
        ..AeonConfig::default()
    };

    let debug = cfg.debug_text();

    assert!(debug.contains("management_key: Some(\"[REDACTED]\")"));
    assert!(debug.contains("hmac_key: Some(\"[REDACTED 32 bytes]\")"));
    assert!(!debug.contains("mgmt-secret"));
    assert!(!debug.contains("66"));
}

#[test]
fn debug_text_shows_every_field() {
    let cfg = AeonConfig {
        agent_id: "a\"b".to_string(),
        session_id: Some("s-1".to_string()),
        ..AeonConfig::default()
    };

    assert_eq!(
        cfg.debug_text(),
        "AeonConfig { enabled: false, base_url: \"http://localhost:8080\", agent_id: \"a\\\"b\", \
         session_id: Some(\"s-1\"), timeout_ms: 30000, management_key: None, hmac_key: None }"
    );
}

#[test]
fn debug_text_does_not_depend_on_the_keys() {
    let one = AeonConfig {
        management_key: Some("one".to_string()),
        hmac_key: Some(vec![1; 32]),
        ..AeonConfig::default()
    };
    let other = AeonConfig {
        management_key: Some("another".to_string()),
        hmac_key: Some(vec![2; 32]),
        ..AeonConfig::default()
    };

    assert_eq!(one.debug_text(), other.debug_text());
}

#[test]
fn from_env_rejects_invalid_base_url() {
    let env = AeonEnv {
        base_url: value("not a url"),
        ..clean_env()
    };

    assert!(config_error(&env).contains("AEON_BASE_URL is not a valid URL"));
}

#[test]
fn from_env_rejects_non_http_base_url_scheme() {
    let env = AeonEnv {
        base_url: value("file:///tmp/aeon.sock"),
        ..clean_env()
    };

    assert_eq!(
        config_error(&env),
        "Configuration error: AEON_BASE_URL must use http or https scheme, got 'file'"
    );
}

#[test]
fn from_env_rejects_short_hmac_key() {
    let env = AeonEnv {
        hmac_key: value("00010203"),
        ..clean_env()
    };

    assert_eq!(
        config_error(&env),
        "Configuration error: AEON_HMAC_KEY must be at least 32 bytes (256 bits); got 4 bytes"
    );
}

#[test]
fn from_env_reads_every_variable() {
    let env = AeonEnv {
        enabled: value("Yes"),
        base_url: value("https://aeon.example"),
        agent_id: value("agent-7"),
        session_id: value("session-9"),
        timeout_ms: value("250"),
        management_key: value("mgmt"),
        hmac_key: value(&"0f".repeat(32)),
    };
    let cfg = AeonConfig::from_env(&env, "fresh".to_string()).ok().unwrap();

    assert!(cfg.enabled);
    assert_eq!(cfg.base_url, "https://aeon.example");
    assert_eq!(cfg.agent_id, "agent-7");
    assert_eq!(cfg.session_id, Some("session-9".to_string()));
    assert_eq!(cfg.timeout_ms, 250);
    assert_eq!(cfg.management_key, Some("mgmt".to_string()));
    assert_eq!(cfg.hmac_key, Some(vec![0x0f; 32]));
}

#[test]
fn from_env_without_variables_is_the_default_in_a_fresh_session() {
    let cfg = AeonConfig::from_env(&clean_env(), "fresh".to_string()).ok().unwrap();

    assert!(
        cfg == AeonConfig {
            session_id: Some("fresh".to_string()),
            ..AeonConfig::default()
        }
    );
}

#[test]
fn a_blank_session_is_replaced_by_a_fresh_one() {
    let blank = AeonEnv {
        session_id: value("  "),
        ..clean_env()
    };
    let named = AeonEnv {
        base_url: value("http://localhost:8080"),
        session_id: value("mine"),
        ..clean_env()
    };
    let unnamed = AeonEnv {
        base_url: value("http://localhost:8080"),
        ..clean_env()
    };
    let session = |env: &AeonEnv| {
        let cfg = AeonConfig::from_env(env, "fresh".to_string()).ok().unwrap();
        cfg.session_id
    };

    assert_eq!(session(&blank), Some("fresh".to_string()));
    assert_eq!(session(&unnamed), Some("fresh".to_string()));
    assert_eq!(session(&named), Some("mine".to_string()));
}

#[test]
fn any_other_variable_switches_memory_on() {
    let with_agent = AeonEnv {
        agent_id: value("agent"),
        ..clean_env()
    };
    let switched_off = AeonEnv {
        enabled: value("false"),
        agent_id: value("agent"),
        ..clean_env()
    };
    let switched_on = AeonEnv {
        enabled: value("true"),
        ..clean_env()
    };

    assert!(AeonConfig::from_env(&with_agent, "fresh".to_string()).ok().unwrap().enabled);
    assert!(!AeonConfig::from_env(&switched_off, "fresh".to_string()).ok().unwrap().enabled);
    assert!(AeonConfig::from_env(&switched_on, "fresh".to_string()).ok().unwrap().enabled);
    assert!(!AeonConfig::from_env(&clean_env(), "fresh".to_string()).ok().unwrap().enabled);
}

#[test]
fn from_env_names_the_variable_that_is_wrong() {
    let blank = AeonEnv {
        agent_id: value("  "),
        ..clean_env()
    };
    let flag = AeonEnv {
        enabled: value("maybe"),
        ..clean_env()
    };
    let bytes = AeonEnv {
        base_url: EnvValue::NotUnicode,
        ..clean_env()
    };
    let timeout = AeonEnv {
        timeout_ms: value("soon"),
        ..clean_env()
    };
    let key = AeonEnv {
        hmac_key: value("0g"),
        ..clean_env()
    };

    assert_eq!(
        config_error(&blank),
        format!("Configuration error: {AGENT_ID_ENV} must not be empty when configured")
    );
    assert!(config_error(&flag).contains(ENABLED_ENV));
    assert!(config_error(&bytes).contains(BASE_URL_ENV));
    assert!(config_error(&timeout).contains(TIMEOUT_MS_ENV));
    assert!(config_error(&timeout).contains("invalid digit found in string"));
    assert!(config_error(&key).contains(HMAC_KEY_ENV));
}

#[test]
fn a_base_url_is_judged_by_its_scheme() {
    assert_eq!(check_base_url(&Ok("http".to_string())), None);
    assert_eq!(check_base_url(&Ok("https".to_string())), None);
    assert_eq!(
        check_base_url(&Ok("ftp".to_string())),
        Some(NexusError::ConfigError(
            "AEON_BASE_URL must use http or https scheme, got 'ftp'".to_string()
        ))
    );
    assert_eq!(
        check_base_url(&Err("empty host".to_string())),
        Some(NexusError::ConfigError(
            "AEON_BASE_URL is not a valid URL: empty host".to_string()
        ))
    );
}

#[test]
fn chat_completions_url_handles_trailing_slash() {
    let cfg = AeonConfig {
        base_url: "http://localhost:8080/".to_string(),
        ..AeonConfig::default()
    };

    assert_eq!(
        cfg.chat_completions_url(),
        "http://localhost:8080/v1/chat/completions"
    );
}

#[test]
fn aeon_memory_search_sends_management_key_and_parses_results() {
    let client = client(Some("mgmt-key"));
    let reply = search_reply(
        200,
        r#"{"results":[{"id":"mem-1","content":"first","score":0.92,"memory_type":"semantic"},{"id":"mem-2","content":"second","distance":0.31}]}"#,
    );

    let (url, key) = client.search_target().unwrap();
    assert_eq!(url, "http://aeon.test/api/v1/memories/search");
    assert_eq!(key, "mgmt-key");

    let body: serde_json::Value =
        serde_json::from_str(&client.search_body("trap recovery", 2)).unwrap();
    assert_eq!(body["agent_id"], "agent-1");
    assert_eq!(body["query"], "trap recovery");
    assert_eq!(body["limit"], 2);

    let hits = client.search(&reply);
    assert_eq!(hits.len(), 2);
    assert_eq!(hits[0].id, "mem-1");
    assert_eq!(hits[0].content, "first");
    assert_eq!(score(&hits[0]), Some(0.92));
    assert_eq!(hits[1].id, "mem-2");
    assert_eq!(hits[1].content, "second");
    assert_eq!(score(&hits[1]), Some(0.31));
}

#[test]
fn aeon_memory_search_parses_similarity_as_score() {
    let reply = search_reply(
        200,
        r#"{"results":[{"id":"m1","content":"c","similarity":0.91,"memory_type":"semantic"}]}"#,
    );

    let hits = client(Some("mgmt-key")).search(&reply);

    assert_eq!(hits.len(), 1);
    assert_eq!(hits[0].id, "m1");
    assert_eq!(hits[0].content, "c");
    assert_eq!(score(&hits[0]), Some(0.91));
}

#[test]
fn aeon_memory_search_returns_empty_on_http_500() {
    let reply = search_reply(500, r#"{"error":"boom"}"#);

    assert!(client(Some("mgmt-key")).search(&reply).is_empty());
}

#[test]
fn aeon_memory_search_returns_empty_on_malformed_body() {
    let reply = search_reply(200, "not-json");

    assert!(client(Some("mgmt-key")).search(&reply).is_empty());
}

#[test]
fn aeon_memory_search_returns_empty_on_connection_refusal() {
    assert!(client(Some("mgmt-key")).search(&None).is_empty());
}

#[test]
fn aeon_memory_store_posts_memory_and_returns_id() {
    let client = client(Some("mgmt-key"));
    let reply = Some((
        200,
        r#"{"id":"550e8400-e29b-41d4-a716-446655440000"}"#.to_string(),
    ));

    let (url, key) = client.store_target().unwrap();
    assert_eq!(url, "http://aeon.test/api/v1/agents/agent-1/memories");
    assert_eq!(key, "mgmt-key");
    assert_eq!(
        client.store(&reply),
        Some("550e8400-e29b-41d4-a716-446655440000".to_string())
    );
}

#[test]
fn aeon_memory_store_returns_none_on_error() {
    let reply = Some((500, r#"{"error":"boom"}"#.to_string()));

    assert_eq!(client(Some("mgmt-key")).store(&reply), None);
}

#[test]
fn aeon_memory_health_returns_true_only_for_200() {
    let client = client(Some("mgmt-key"));

    assert!(client.health(Some(200)));
    assert!(!client.health(Some(500)));
    assert!(!client.health(None));
    assert_eq!(client.health_target().unwrap().0, "http://aeon.test/health");
}

#[test]
fn aeon_memory_missing_management_key_noops_search_and_store() {
    let client = client(None);
    let reply = search_reply(200, r#"{"unexpected":true}"#);
    let stored = Some((
        200,
        r#"{"id":"550e8400-e29b-41d4-a716-446655440000"}"#.to_string(),
    ));

    assert!(client.search_target().is_none());
    assert!(client.store_target().is_none());
    assert!(client.search(&reply).is_empty());
    assert_eq!(client.store(&stored), None);
}

#[test]
fn aeon_memory_client_requires_enabled_config() {
    let disabled = AeonConfig {
        enabled: false,
        management_key: Some("mgmt-key".to_string()),
        ..test_config("http://aeon.test", Some("mgmt-key"))
    };
    let missing_key = AeonConfig {
        management_key: None,
        ..test_config("http://aeon.test", None)
    };
    let configured = test_config("http://aeon.test", Some("mgmt-key"));

    assert!(AeonMemoryClient::from_enabled_config(&disabled).is_none());
    assert!(AeonMemoryClient::from_enabled_config(&missing_key).is_none());
    assert!(AeonMemoryClient::from_enabled_config(&configured).is_some());
}

#[test]
fn stored_identifiers_are_read_from_three_places() {
    let id = "550e8400-e29b-41d4-a716-446655440000";
    let client = client(Some("k"));
    let plain = Some((201, format!("\"{id}\"")));
    let named = Some((201, format!("{{\"memory_id\":\"{id}\"}}")));
    let upper = Some((200, format!("{{\"id\":\"{}\"}}", id.to_uppercase())));
    let bad = Some((200, "{\"id\":\"nope\"}".to_string()));

    assert_eq!(client.store(&plain), Some(id.to_string()));
    assert_eq!(client.store(&named), Some(id.to_string()));
    assert_eq!(client.store(&upper), Some(id.to_string()));
    assert_eq!(client.store(&bad), None);
    assert_eq!(
        extract_memory_id(None, Some("bad".to_string()), Some(id.to_string())),
        None
    );
}

#[test]
fn agent_names_are_escaped_in_urls() {
    let config = AeonConfig {
        agent_id: "a b/c".to_string(),
        ..test_config("http://aeon.test/base/", Some("k"))
    };
    let client = AeonMemoryClient::from_config(&config);

    assert_eq!(
        client.store_target().unwrap().0,
        "http://aeon.test/api/v1/agents/a%20b%2Fc/memories"
    );
}

#[test]
fn the_first_measure_is_the_score() {
    let entries = vec![
        SearchHit {
            id: None,
            content: Some("c".to_string()),
            score: Some(1),
            distance: Some(2),
            similarity: Some(3),
        },
        SearchHit {
            id: Some("m".to_string()),
            content: None,
            score: None,
            distance: Some(5),
            similarity: Some(6),
        },
    ];
    let hits = hits_from(&entries);

    assert_eq!(hits.len(), 2);
    assert_eq!(hits[0].id, "");
    assert_eq!(hits[0].score, Some(1));
    assert_eq!(hits[1].content, "");
    assert_eq!(hits[1].score, Some(5));
}

#[test]
fn build_memory_evidence_ref_absent_when_no_hmac_key() {
    let config = AeonConfig {
        hmac_key: None,
        ..test_config("http://aeon.test", None)
    };
    let (evidence, mode) = build_memory_evidence_ref(&config, &vec![], None);
    assert!(evidence.is_none());
    assert_eq!(mode, MemoryAttestationMode::Absent);
}

fn bound(count: u32) -> Option<MemoryEvidenceRef> {
    Some(MemoryEvidenceRef {
        digest_value: "d".to_string(),
        json: format!("{{\"injected_count\":{count}}}"),
    })
}

#[test]
fn build_memory_evidence_ref_attested_with_valid_key_and_hits() {
    let config = AeonConfig {
        hmac_key: Some(vec![0x01, 0x02, 0x03, 0x04]),
        ..test_config("http://aeon.test", None)
    };
    let hits = vec![MemoryHit {
        id: "mem-1".to_string(),
        content: "some context".to_string(),
        score: Some(0.9f64.to_bits()),
    }];
    let (evidence, mode) = build_memory_evidence_ref(&config, &hits, bound(1));
    assert!(evidence.is_some());
    assert_eq!(mode, MemoryAttestationMode::AttestedWithRecall);
    assert_eq!(evidence.unwrap().json, "{\"injected_count\":1}");
}

#[test]
fn build_memory_evidence_ref_attested_no_hit_with_no_hits() {
    let config = AeonConfig {
        hmac_key: Some(vec![0xde, 0xad, 0xbe, 0xef]),
        ..test_config("http://aeon.test", None)
    };
    let (evidence, mode) = build_memory_evidence_ref(&config, &vec![], bound(0));
    assert!(evidence.is_some());
    assert_eq!(mode, MemoryAttestationMode::AttestedNoHit);
    assert_eq!(evidence.unwrap().json, "{\"injected_count\":0}");
}

#[test]
fn memory_evidence_attested_no_hit_on_zero_hits() {
    let client = client(Some("test-mgmt-1"));
    let reply = search_reply(200, r#"{"results":[]}"#);

    let recall = recall_memory_evidence_v1(Some(&client), "nothing", &reply);

    assert!(recall.hits.is_empty());
    assert_eq!(recall.evidence.hit_count, 0);
    assert_eq!(
        recall.evidence.attestation,
        MemoryAttestationMode::AttestedNoHit
    );
}

#[test]
fn memory_evidence_attested_with_recall_on_hits() {
    let client = client(Some("test-mgmt-2"));
    let reply = search_reply(
        200,
        r#"{"results":[{"id":"mem-1","content":"first","score":0.9},{"id":"mem-2","content":"second","score":0.8}]}"#,
    );

    let recall = recall_memory_evidence_v1(Some(&client), "context", &reply);

    assert_eq!(recall.hits.len(), 2);
    assert_eq!(recall.evidence.hit_count, 2);
    assert_eq!(recall.evidence.hit_digests.len(), 2);
    assert_eq!(
        recall.evidence.attestation,
        MemoryAttestationMode::AttestedWithRecall
    );
}

#[test]
fn memory_evidence_degraded_on_error() {
    let client = client(Some("test-mgmt-3"));
    let reply = search_reply(500, r#"{"error":"boom"}"#);

    let recall = recall_memory_evidence_v1(Some(&client), "context", &reply);

    assert!(recall.hits.is_empty());
    assert_eq!(recall.evidence.attestation, MemoryAttestationMode::Degraded);
}

#[test]
fn memory_evidence_absent_on_no_config() {
    let recall = recall_memory_evidence_v1(None, "context", &None);

    assert!(recall.hits.is_empty());
    assert_eq!(recall.evidence.attestation, MemoryAttestationMode::Absent);
}

#[test]
fn evidence_is_bound_to_what_was_recalled() {
    let hits = vec![MemoryHit {
        id: "m".to_string(),
        content: "abc".to_string(),
        score: None,
    }];
    let evidence =
        MemoryEvidenceV1::new("q", &hits, MemoryAttestationMode::AttestedWithRecall);

    assert_eq!(
        evidence.hit_digests,
        vec!["ba7816bf8f01cfea414140de5dae2223b00361a396177a9cb410ff61f20015ad".to_string()]
    );
    assert_eq!(sha256_hex(b"abc"), evidence.hit_digests[0]);
    assert!(validate_memory_evidence_v1(&evidence).is_ok());

    let bound = evidence.with_capsule_digest(Some("c".to_string()));
    let json = bound.to_json();
    let parsed: serde_json::Value = serde_json::from_str(&json).unwrap();
    assert_eq!(parsed["query"], "q");
    assert_eq!(parsed["hit_count"], 1);
    assert_eq!(bound.evidence_digest(), Some(sha256_hex(json.as_bytes())));
}

#[test]
fn evidence_that_contradicts_itself_is_refused() {
    let hits = vec![MemoryHit {
        id: "m".to_string(),
        content: "abc".to_string(),
        score: None,
    }];
    let good = MemoryEvidenceV1::new("q", &hits, MemoryAttestationMode::AttestedWithRecall);
    let version = MemoryEvidenceV1 {
        version: 9,
        ..good.clone()
    };
    let count = MemoryEvidenceV1 {
        hit_count: 4,
        ..good.clone()
    };
    let capsule = good.clone().with_capsule_digest(Some(" ".to_string()));

    assert!(good.validate().is_ok());
    assert_eq!(
        version.validate(),
        Err("unsupported version 9; expected 1".to_string())
    );
    assert_eq!(
        count.validate(),
        Err("hit_count 4 does not match hit_digests length 1".to_string())
    );
    assert_eq!(
        capsule.validate(),
        Err("capsule_digest must be non-empty when set".to_string())
    );
}

fn timeline_events() -> Vec<NexusExecutionEvent> {
    vec![
        NexusExecutionEvent::SnapshotCreated {
            snapshot_id: "550e8400-e29b-41d4-a716-446655440000".to_string(),
        },
        NexusExecutionEvent::CapabilityDenied {
            denied_category: "read:/secret".to_string(),
        },
        NexusExecutionEvent::ProofCapsuleEmitted {
            capsule_id: "550e8400-e29b-41d4-a716-446655440001".to_string(),
        },
    ]
}

fn denied() -> Vec<NexusExecutionEvent> {
    vec![NexusExecutionEvent::CapabilityDenied {
        denied_category: "read:/secret".to_string(),
    }]
}

fn sink(base_url: &str) -> AeonTimelineSink {
    AeonTimelineSink::from_config(
        &test_config(base_url, Some("mgmt-key")),
        "/tmp/spool.jsonl".to_string(),
    )
}

/// Whether an event is delivered when the service answers with these statuses
/// in turn, and how often it was posted.
fn post(statuses: &[Option<u16>]) -> (bool, usize) {
    let mut attempt: usize = 0;
    loop {
        match after_post(attempt, statuses[attempt]) {
            PostStep::Done => return (true, attempt + 1),
            PostStep::GiveUp => return (false, attempt + 1),
            PostStep::RetryAfter(_) => attempt += 1,
        }
    }
}

#[test]
fn aeon_timeline_sink_posts_expected_event_shape() {
    let sink = sink("http://aeon.test");
    let events = timeline_events();

    assert!(matches!(sink.plan(&events), DeliveryPlan::Post));
    let (url, key) = sink.post_target("agent-1").unwrap();
    assert_eq!(url, "http://aeon.test/api/v1/agents/agent-1/timeline");
    assert_eq!(key, "mgmt-key");

    let bodies: Vec<serde_json::Value> = events
        .iter()
        .map(|e| TimelineEventBody::from_event(Some("session-1"), e).to_json())
        .map(|b| serde_json::from_str(&b).unwrap())
        .collect();
    assert_eq!(bodies.len(), 3);
    assert_eq!(bodies[0]["event_type"], "snapshot_created");
    assert_eq!(bodies[0]["session_id"], "session-1");
    assert_eq!(
        bodies[0]["nexus_snapshot_id"],
        "550e8400-e29b-41d4-a716-446655440000"
    );
    assert_eq!(bodies[1]["event_type"], "capability_denied");
    assert!(bodies[1].get("denied_category").is_none());
    assert_eq!(bodies[2]["event_type"], "proof_capsule_emitted");
    assert_eq!(
        bodies[2]["capsule_digest"],
        "550e8400-e29b-41d4-a716-446655440001"
    );

    let posted = vec![post(&[Some(200)]).0; 3];
    assert_eq!(
        sink.deliver(&events, false, &posted),
        TimelineDeliveryStatus::Delivered
    );
}

#[test]
fn aeon_timeline_sink_retries_5xx_then_delivers() {
    let (delivered, attempts) = post(&[Some(500), Some(200), Some(200)]);

    assert_eq!(
        sink("http://aeon.test").deliver(&denied(), false, &vec![delivered]),
        TimelineDeliveryStatus::Delivered
    );
    assert_eq!(attempts, 2);
}

#[test]
fn aeon_timeline_sink_transport_error_fails_open() {
    let (delivered, _) = post(&[None, None, None, None]);

    assert_eq!(
        sink("http://127.0.0.1:1").deliver(&denied(), false, &vec![delivered]),
        TimelineDeliveryStatus::FailedOpen
    );
}

#[test]
fn aeon_timeline_sink_attested_mode_reports_required_failure() {
    let sink = sink("http://127.0.0.1:1").with_mode(TimelineDeliveryMode::Attested);
    let (delivered, _) = post(&[None, None, None, None]);

    assert_eq!(
        sink.deliver(&denied(), false, &vec![delivered]),
        TimelineDeliveryStatus::RequiredButFailed
    );
}

#[test]
fn posts_are_tried_three_times_at_most() {
    assert_eq!(post(&[Some(503), Some(503), Some(503), Some(200)]), (false, 3));
    assert_eq!(post(&[Some(404), Some(200)]).1, 1);
    assert_eq!(timeline_retry_delay(0), 25);
    assert_eq!(timeline_retry_delay(3), 200);
    assert_eq!(timeline_retry_delay(99), 800);
}

fn record(line: &str) -> Option<TimelineSpoolRecord> {
    let parsed: serde_json::Value = serde_json::from_str(line).ok()?;
    let event = parsed.get("event")?;
    Some(TimelineSpoolRecord {
        created_at: 1_000,
        agent_id: text(&parsed, "agent_id")?,
        event: TimelineEventBody {
            session_id: text(event, "session_id"),
            nexus_snapshot_id: text(event, "nexus_snapshot_id"),
            capsule_digest: text(event, "capsule_digest"),
            event_type: text(event, "event_type")?,
        },
    })
}

#[test]
fn aeon_timeline_replay_removes_delivered_events() {
    let offline = sink("http://aeon.test").with_mode(TimelineDeliveryMode::Offline);
    let event = vec![NexusExecutionEvent::ProofCapsuleEmitted {
        capsule_id: "550e8400-e29b-41d4-a716-446655440001".to_string(),
    }];

    assert!(matches!(offline.plan(&event), DeliveryPlan::Spool));
    let written = spool_lines(
        "agent-1",
        Some("session-1"),
        &event,
        &vec!["2026-01-01T00:00:00Z".to_string()],
    );
    assert_eq!(
        offline.deliver(&event, true, &vec![]),
        TimelineDeliveryStatus::FireAndForget
    );

    let content = format!("{}\n", written.join("\n"));
    let lines = pending_lines(&content);
    let tasks: Vec<LineTask> = lines
        .iter()
        .map(|l| judge_line(&record(l), "agent-1", None))
        .collect();
    assert_eq!(lines.len(), 1);
    assert!(matches!(tasks[0], LineTask::Post));

    let (first, retained) = replay_spooled_events(&lines, &tasks, &vec![true]);
    assert_eq!(
        first,
        TimelineReplayReport {
            delivered: 1,
            failed: 0,
            skipped: 0,
        }
    );
    assert_eq!(rewrite_spool(&retained), None);
    let second = unread_spool(true);
    assert_eq!(second, TimelineReplayReport::default());
}

#[test]
fn replay_keeps_every_line_that_was_not_delivered() {
    let lines: Vec<String> = ["a", "b", "c", "d"].iter().map(|s| s.to_string()).collect();
    let tasks = vec![LineTask::Broken, LineTask::Skip, LineTask::Post, LineTask::Post];
    let (report, retained) = replay_spooled_events(&lines, &tasks, &vec![false, false, false, true]);

    assert_eq!(report.delivered, 1);
    assert_eq!(report.failed, 2);
    assert_eq!(report.skipped, 1);
    assert_eq!(retained, vec!["a".to_string(), "b".to_string(), "c".to_string()]);
    assert_eq!(rewrite_spool(&retained), Some("a\nb\nc\n".to_string()));
}

#[test]
fn spooled_lines_are_judged_by_agent_and_age() {
    let rec = TimelineSpoolRecord {
        created_at: 500,
        agent_id: "agent-1".to_string(),
        event: TimelineEventBody {
            session_id: None,
            nexus_snapshot_id: None,
            capsule_digest: None,
            event_type: "capability_denied".to_string(),
        },
    };

    assert!(matches!(judge_line(&None, "agent-1", None), LineTask::Broken));
    assert!(matches!(judge_line(&Some(rec.clone()), "agent-2", None), LineTask::Skip));
    assert!(matches!(judge_line(&Some(rec.clone()), "agent-1", Some(501)), LineTask::Skip));
    assert!(matches!(judge_line(&Some(rec), "agent-1", Some(500)), LineTask::Post));
}

#[test]
fn delivery_modes_and_spool_paths() {
    assert!(matches!(TimelineDeliveryMode::parse(Some("attested")), TimelineDeliveryMode::Attested));
    assert!(matches!(TimelineDeliveryMode::parse(Some("offline")), TimelineDeliveryMode::Offline));
    assert!(matches!(TimelineDeliveryMode::parse(Some("other")), TimelineDeliveryMode::Advisory));
    assert!(matches!(TimelineDeliveryMode::parse(None), TimelineDeliveryMode::Advisory));
    assert_eq!(
        default_timeline_spool_path(Some("/spool"), "/tmp"),
        "/spool/nexus-aeon-timeline-events.jsonl"
    );
    assert_eq!(
        default_timeline_spool_path(None, "/tmp"),
        "/tmp/nexus-aeon-timeline-events.jsonl"
    );
    assert!(AeonTimelineSink::from_enabled_config(&AeonConfig::default(), "s".to_string()).is_none());
    assert_eq!(sink("http://a").with_spool_path("/x".to_string()).spool_path, "/x");
    assert_eq!(unread_spool(false).failed, 1);
}
