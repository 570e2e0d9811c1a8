use nexus::attestation::canonical::{canonical_bytes, capsule_digest};
use nexus::attestation::digest::digest_with_key;
use nexus::attestation::receipt::ProofHmacKey;
use nexus::attestation::redaction::{
    looks_like_path, looks_like_secret_token, remove_forbidden_markers,
    replace_ascii_case_insensitive, RedactionField, RedactionPolicy, ERROR_SUMMARY_MAX_CHARS,
};
use nexus::attestation::schema::{
    MemoryAttestationMode, ProofCapsule, ProofScorecard, TypedDigest,
};
use nexus::attestation::signing::{sign_capsule, verify_capsule, SIGNER};
use nexus::error::NexusError;
use nexus::hypervisor::capsule::{prove_execution, RunStamp};
use nexus::hypervisor::tool::{ToolDefinition, ToolOutput};
use nexus::{NAME, VERSION};

const SECRET: [u8; 32] = [9; 32];

fn public() -> [u8; 32] {
    ed25519_dalek::SigningKey::from_bytes(&SECRET).verifying_key().to_bytes()
}

fn capsule() -> ProofCapsule {
    let output = ToolOutput {
        success: true,
        result: None,
        error: None,
        rollback_performed: false,
        execution_time_ms: 4,
        fuel_consumed: 5,
        error_log: None,
        snapshot_id: None,
    };
    prove_execution(
        RunStamp {
            run_id: "550e8400-e29b-41d4-a716-446655440000".to_string(),
            started_at: "2026-01-01T00:00:00Z".to_string(),
            finished_at: "2026-01-01T00:00:01Z".to_string(),
        },
        &ToolDefinition::new("t\"1".to_string(), b"abc".to_vec()),
        b"{}",
        vec!["read:/a".to_string()],
        vec!["read:/a".to_string()],
        None,
        &output,
        None,
        "550e8400-e29b-41d4-a716-446655440001".to_string(),
        &SECRET,
    )
}

fn fault(result: Result<(), NexusError>) -> String {
    match result {
        Err(NexusError::InvalidCapability(m)) => m,
        other => panic!("{other:?}"),
    }
}

#[test]
fn test_version() {
    assert_eq!(VERSION, "0.1.0");
    assert_eq!(NAME, "nexus");
}

#[test]
fn signed_capsules_are_accepted() {
    let capsule = capsule();
    let envelope = capsule.signature.clone().unwrap();

    assert_eq!(envelope.signer, SIGNER);
    assert_eq!(envelope.signature.len(), 128);
    assert_eq!(verify_capsule(&capsule, &public()), Ok(()));
    assert_eq!(sign_capsule(capsule.clone(), &SECRET), capsule);
}

#[test]
fn changed_capsules_are_refused() {
    let capsule = capsule();
    let unsigned = ProofCapsule {
        signature: None,
        ..capsule.clone()
    };
    let mut renamed = capsule.clone();
    renamed.tool.module_name = "other".to_string();
    let mut nothex = capsule.clone();
    nothex.signature.as_mut().unwrap().signature = "zz".to_string();
    let mut short = capsule.clone();
    short.signature.as_mut().unwrap().signature = "00".to_string();
    let mut wrong = capsule.clone();
    wrong.signature.as_mut().unwrap().signature = "00".repeat(64);

    assert_eq!(fault(verify_capsule(&unsigned, &public())), "proof capsule missing signature");
    assert_eq!(
        fault(verify_capsule(&renamed, &public())),
        "proof capsule signed payload digest mismatch"
    );
    assert_eq!(
        fault(verify_capsule(&capsule, &[1; 32])),
        "proof capsule key id does not match verifying key"
    );
    assert_eq!(
        fault(verify_capsule(&nothex, &public())),
        "proof capsule signature is not valid hex"
    );
    assert_eq!(
        fault(verify_capsule(&short, &public())),
        "proof capsule signature has invalid length"
    );
    assert_eq!(
        fault(verify_capsule(&wrong, &public())),
        "proof capsule signature verification failed"
    );
}

fn sorted_keys(value: &serde_json::Value) -> bool {
    match value {
        serde_json::Value::Object(map) => {
            let keys: Vec<&String> = map.keys().collect();
            keys.windows(2).all(|w| w[0] < w[1]) && map.values().all(sorted_keys)
        }
        serde_json::Value::Array(items) => items.iter().all(sorted_keys),
        _ => true,
    }
}

#[test]
fn canonical_bytes_are_sorted_json_without_the_signature() {
    let capsule = capsule();
    let bytes = canonical_bytes(&capsule);
    let value: serde_json::Value = serde_json::from_slice(&bytes).unwrap();
    let unsigned = ProofCapsule {
        signature: None,
        ..capsule.clone()
    };

    assert_eq!(canonical_bytes(&unsigned), bytes);
    assert!(sorted_keys(&value));
    assert_eq!(serde_json::to_vec(&value).unwrap(), bytes);
    assert_eq!(value["tool"]["module_name"], "t\"1");
    assert_eq!(value["subject"]["duration_ms"], 4);
    assert_eq!(value["capabilities"]["required"][0], "read:/a");
    assert_eq!(value["policy"]["mode"], "UnprofiledDev");
    assert_eq!(
        value["tool"]["module_digest"]["value"],
        "ba7816bf8f01cfea414140de5dae2223b00361a396177a9cb410ff61f20015ad"
    );
    assert_eq!(capsule_digest(&capsule), TypedDigest::sha256_public(&bytes));
}

#[test]
fn digests_have_their_published_values() {
    let mac = TypedDigest::hmac_sha256_private(b"key", b"The quick brown fox jumps over the lazy dog");

    assert_eq!(
        TypedDigest::sha256_public(b"").value,
        "e3b0c44298fc1c149afbf4c8996fb92427ae41e4649b934ca495991b7852b855"
    );
    assert_eq!(
        mac.value,
        "f7bc83f430538424b13298e6aa6fb143ef4d59a14946175997479dbc2d1a3cd8"
    );
    assert!(!mac.public_recomputable);
    assert_eq!(TypedDigest::redacted().value, "[REDACTED]");
    assert_eq!(
        digest_with_key(&ProofHmacKey::Disabled, &None, b"x"),
        TypedDigest::redacted()
    );
    assert_eq!(
        digest_with_key(&ProofHmacKey::FromEnv("K".to_string()), &Some("key".to_string()), b"x"),
        TypedDigest::hmac_sha256_private(b"key", b"x")
    );
    assert_eq!(
        digest_with_key(&ProofHmacKey::EphemeralTestOnly, &None, b"x"),
        TypedDigest::hmac_sha256_private(&[0; 32], b"x")
    );
}

#[test]
fn scorecards_pass_when_signed() {
    let signed = ProofScorecard::from_capsule(&capsule());
    let unsigned = ProofScorecard::from_capsule(&ProofCapsule {
        signature: None,
        ..capsule()
    });

    assert!(signed.scorecard_pass);
    assert!(!unsigned.scorecard_pass);
    assert!(!signed.has_failure);
    assert_eq!(signed.capsule_id, "550e8400-e29b-41d4-a716-446655440001");
}

#[test]
fn errors_are_redacted() {
    let policy = RedactionPolicy::new(ProofHmacKey::Disabled);
    let (text, marks) = policy.redact_error_for_field(
        "failure.error_summary",
        "cannot open /etc/passwd with Bearer abc.def",
    );

    assert_eq!(text, "cannot open [PATH_REDACTED] with [TOKEN_REDACTED] [TOKEN_REDACTED]");
    assert_eq!(
        marks,
        vec![("failure.error_summary".to_string(), RedactionField::HmacOrPlaceholder)]
    );
    assert_eq!(policy.redact_path("/x").0, "[PATH_REDACTED]");
    assert_eq!(policy.redact_token("t").0, "[TOKEN_REDACTED]");
    assert_eq!(policy.redact_env_value("v").1, RedactionField::Removed);
}

#[test]
fn keyed_redaction_shows_a_code() {
    let policy =
        RedactionPolicy::new(ProofHmacKey::FromEnv("K".to_string())).with_secret("key".to_string());
    let code = TypedDigest::hmac_sha256_private(b"key", b"/x").value;

    assert!(policy.redact_path("/x").0.contains(&code));
}

#[test]
fn long_errors_are_cut() {
    let policy = RedactionPolicy::new(ProofHmacKey::Disabled);
    let (text, _) = policy.redact_error(&"word ".repeat(200));
    let report = policy.build_report(vec![
        ("a".to_string(), RedactionField::Truncated),
        ("b".to_string(), RedactionField::Removed),
        ("c".to_string(), RedactionField::HmacOrPlaceholder),
    ]);

    assert!(text.chars().count() <= ERROR_SUMMARY_MAX_CHARS);
    assert_eq!(report.truncated_fields, vec!["a".to_string()]);
    assert_eq!(report.removed_fields, vec!["b".to_string()]);
    assert_eq!(report.hmac_fields, vec!["c".to_string()]);
    assert!(report.hashed_fields.is_empty());
}

#[test]
fn markers_are_replaced_in_any_case() {
    assert_eq!(
        replace_ascii_case_insensitive("aXbxA", "x", "-"),
        ("a-b-A".to_string(), true)
    );
    assert_eq!(
        replace_ascii_case_insensitive("abc", "x", "-"),
        ("abc".to_string(), false)
    );
    assert!(!remove_forbidden_markers("nothing here").1);
    assert!(looks_like_path("/etc/passwd"));
    assert!(looks_like_path("C:\\Windows"));
    assert!(!looks_like_path("word"));
    assert!(looks_like_secret_token("sk-abcdef"));
}

#[test]
fn memory_is_advisory_by_default() {
    assert_eq!(MemoryAttestationMode::default(), MemoryAttestationMode::Advisory);
}

#[test]
fn announced_tokens_leave_no_trace() {
    let policy = RedactionPolicy::new(ProofHmacKey::Disabled);
    for token in ["abc.def", "/home/x", "sk-1", "a=b", "\u{fc}"] {
        let (text, marks) = policy.redact_error_for_field("f", &format!("Bearer {token}"));
        assert_eq!(text, "[TOKEN_REDACTED] [TOKEN_REDACTED]");
        assert_eq!(marks, vec![("f".to_string(), RedactionField::HmacOrPlaceholder)]);
    }
}

#[test]
fn texts_are_escaped_as_json() {
    let tool = ToolDefinition::new("a\"\\/\u{8}\t\n\u{c}\r\u{1}\u{1f}\u{7f}\u{e9}".to_string(), vec![]);
    let out = ToolOutput {
        success: true,
        result: None,
        error: None,
        rollback_performed: false,
        execution_time_ms: 0,
        fuel_consumed: 0,
        error_log: None,
        snapshot_id: None,
    };
    let stamp = RunStamp {
        run_id: "r".to_string(),
        started_at: "t".to_string(),
        finished_at: "t".to_string(),
    };
    let capsule = prove_execution(
        stamp, &tool, b"{}", vec![], vec![], None, &out, None, "c".to_string(), &[1; 32],
    );
    let written = String::from_utf8(canonical_bytes(&capsule)).unwrap();

    assert!(written.contains(
        "\"tool_name\":\"a\\\"\\\\/\\b\\t\\n\\f\\r\\u0001\\u001f\u{7f}\u{e9}\""
    ));
}
