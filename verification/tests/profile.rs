use nexus::profile::{
    find_unquoted_equals, load_and_validate, mcp_policy_from_raw, parse_bool_value, parse_profile,
    parse_string_array, parse_string_value, profile_name_from_path, strip_comment, McpPolicy,
    ValidationError,
};
use nexus::security::{capability_allowed_by, Capability, MemoryScope};

fn as_profile(contents: &str) -> String {
    contents.to_string()
}

#[test]
fn loads_read_file_capability() {
    let path = as_profile(
        r#"
name = "sample"

[[capabilities]]
type = "read_file"
path = "/tmp"
"#,
    );

    let manifest = load_and_validate(&path, Some("profile")).expect("valid profile");

    assert_eq!(manifest.name, "sample");
    assert_eq!(
        manifest.allowed_capabilities(),
        &[Capability::ReadFile("/tmp".to_string())]
    );
}

#[test]
fn validates_unknown_type_and_missing_path() {
    let path = as_profile(
        r#"
name = "bad"

[[capabilities]]
type = "bogus"

[[capabilities]]
type = "write_file"
"#,
    );

    let errors = load_and_validate(&path, Some("profile")).expect_err("invalid profile");

    assert!(errors.iter().any(|error| matches!(
        error,
        ValidationError::UnknownCapabilityType {
            capability_type,
            ..
        } if capability_type == "bogus"
    )));
    assert!(errors.iter().any(|error| matches!(
        error,
        ValidationError::MissingRequiredField {
            capability_type,
            field: "path",
            ..
        } if capability_type == "write_file"
    )));
}

#[test]
fn rejects_empty_capability_list() {
    let path = as_profile(r#"name = "empty""#);

    let errors = load_and_validate(&path, Some("profile")).expect_err("invalid profile");

    assert!(errors
        .iter()
        .any(|error| matches!(error, ValidationError::EmptyCapabilities)));
}

#[test]
fn accepts_http_pattern_from_path_field() {
    let path = as_profile(
        r#"
name = "network"

[[capabilities]]
type = "http_get"
path = "https://example.com/*"
"#,
    );

    let manifest = load_and_validate(&path, Some("profile")).expect("valid profile");

    assert_eq!(
        manifest.allowed_capabilities(),
        &[Capability::HttpGet("https://example.com/*".to_string())]
    );
}

#[test]
fn parses_mcp_policy_table() {
    let path = as_profile(
        r#"
name = "gated"

[[capabilities]]
type = "read_file"
path = "/tmp"

[mcp]
tool_allowlist = ["nexus_execute", "nexus_execute_wasi"]
snapshot_enabled = false
fork_enabled = true
"#,
    );

    let manifest = load_and_validate(&path, Some("profile")).expect("valid profile");

    let mcp = manifest.mcp_policy();
    assert_eq!(
        mcp.tool_allowlist,
        Some(vec![
            "nexus_execute".to_string(),
            "nexus_execute_wasi".to_string(),
        ])
    );
    assert!(!mcp.snapshot_enabled);
    assert!(mcp.fork_enabled);
    assert!(mcp.allows_tool("nexus_execute"));
    assert!(!mcp.allows_tool("nexus_fork_and_race"));
}

#[test]
fn mcp_policy_defaults_to_permissive_when_absent() {
    let path = as_profile(
        r#"
name = "no-mcp"

[[capabilities]]
type = "read_file"
path = "/tmp"
"#,
    );

    let manifest = load_and_validate(&path, Some("profile")).expect("valid profile");

    let mcp = manifest.mcp_policy();
    assert_eq!(mcp, &McpPolicy::default());
    assert!(mcp.snapshot_enabled);
    assert!(mcp.fork_enabled);
    assert!(mcp.tool_allowlist.is_none());
    assert!(mcp.allows_tool("anything"));
}

#[test]
fn mcp_policy_partial_table_keeps_field_defaults() {
    let path = as_profile(
        r#"
name = "partial"

[[capabilities]]
type = "read_file"
path = "/tmp"

[mcp]
fork_enabled = false
"#,
    );

    let manifest = load_and_validate(&path, Some("profile")).expect("valid profile");

    let mcp = manifest.mcp_policy();
    assert!(mcp.snapshot_enabled);
    assert!(!mcp.fork_enabled);
    assert!(mcp.tool_allowlist.is_none());
}

#[test]
fn parse_proof_disabled() {
    let path = as_profile(
        r#"
name = "no-proof"

[[capabilities]]
type = "read_file"
path = "/tmp"

[mcp]
proof_enabled = false
"#,
    );
    let manifest = load_and_validate(&path, Some("profile")).expect("valid profile");
    assert!(!manifest.mcp_policy().proof_enabled);
}

#[test]
fn default_proof_enabled_is_true() {
    let mcp = McpPolicy::default();
    assert!(mcp.proof_enabled);
}

#[test]
fn parse_wasi_disabled() {
    let input = "[mcp]\nwasi_enabled = false";
    let mut errors = vec![];
    let raw = parse_profile(input, &mut errors);
    assert!(errors.is_empty());
    assert!(!mcp_policy_from_raw(raw.mcp).wasi_enabled);
}

#[test]
fn default_wasi_enabled_is_true() {
    assert!(McpPolicy::default().wasi_enabled);
}

#[test]
fn mcp_empty_tool_allowlist_denies_all() {
    let path = as_profile(
        r#"
name = "empty-allow"

[[capabilities]]
type = "read_file"
path = "/tmp"

[mcp]
tool_allowlist = []
"#,
    );

    let manifest = load_and_validate(&path, Some("profile")).expect("valid profile");

    let mcp = manifest.mcp_policy();
    assert!(mcp
        .tool_allowlist
        .as_ref()
        .is_some_and(|list| list.is_empty()));
    assert!(!mcp.allows_tool("nexus_execute"));
}

#[test]
fn mcp_rejects_unknown_key() {
    let path = as_profile(
        r#"
name = "bad-mcp"

[[capabilities]]
type = "read_file"
path = "/tmp"

[mcp]
snapshots_on = true
"#,
    );

    let errors = load_and_validate(&path, Some("profile")).expect_err("invalid profile");

    assert!(errors.iter().any(|error| matches!(
        error,
        ValidationError::Parse { message, .. } if message.contains("unsupported [mcp] key")
    )));
}

#[test]
fn mcp_rejects_non_boolean_flag() {
    let path = as_profile(
        r#"
name = "bad-bool"

[[capabilities]]
type = "read_file"
path = "/tmp"

[mcp]
snapshot_enabled = "yes"
"#,
    );

    let errors = load_and_validate(&path, Some("profile")).expect_err("invalid profile");

    assert!(errors.iter().any(|error| matches!(
        error,
        ValidationError::Parse { message, .. } if message.contains("boolean")
    )));
}

#[test]
fn parses_execution_module_dirs() {
    let path = as_profile(
        r#"
name = "module-dirs"

[[capabilities]]
type = "read_file"
path = "/tmp"

[execution]
module_dirs = ["/srv/nexus/modules", "/opt/modules"]
"#,
    );

    let manifest = load_and_validate(&path, Some("profile")).expect("valid profile");

    assert_eq!(
        manifest.execution_policy().module_dirs,
        vec![
            "/srv/nexus/modules".to_string(),
            "/opt/modules".to_string(),
        ]
    );
    assert!(!manifest.execution_policy().daemon_auth_required);
}

#[test]
fn parses_execution_daemon_auth_required() {
    let path = as_profile(
        r#"
name = "auth-required"

[[capabilities]]
type = "read_file"
path = "/tmp"

[execution]
daemon_auth_required = true
"#,
    );

    let manifest = load_and_validate(&path, Some("profile")).expect("valid profile");

    assert!(manifest.execution_policy().daemon_auth_required);
    assert!(manifest.execution_policy().module_dirs.is_empty());
}

#[test]
fn execution_defaults_to_permissive_when_absent() {
    let path = as_profile(
        r#"
name = "no-execution"

[[capabilities]]
type = "read_file"
path = "/tmp"
"#,
    );

    let manifest = load_and_validate(&path, Some("profile")).expect("valid profile");

    assert!(manifest.execution_policy().module_dirs.is_empty());
    assert!(!manifest.execution_policy().daemon_auth_required);
}

#[test]
fn execution_rejects_unknown_key() {
    let path = as_profile(
        r#"
name = "bad-exec"

[[capabilities]]
type = "read_file"
path = "/tmp"

[execution]
unknown_field = "oops"
"#,
    );

    let errors = load_and_validate(&path, Some("profile")).expect_err("should reject unknown execution key");

    assert!(errors.iter().any(|e| matches!(
        e,
        ValidationError::Parse { message, .. } if message.contains("unsupported [execution] key")
    )));
}

#[test]
fn comments_end_at_the_line_and_not_in_strings() {
    assert_eq!(strip_comment("a = 1 # note"), "a = 1 ");
    assert_eq!(strip_comment("a = \"# no\" # yes"), "a = \"# no\" ");
    assert_eq!(strip_comment("a = '#' # yes"), "a = '#' ");
    assert_eq!(strip_comment("a = \"\\\"#\" # yes"), "a = \"\\\"#\" ");
}

#[test]
fn the_first_bare_equals_sign_splits_a_line() {
    assert_eq!(find_unquoted_equals("a = 1"), Some(2));
    assert_eq!(find_unquoted_equals("\"=\" = 1"), Some(4));
    assert_eq!(find_unquoted_equals("nothing"), None);
}

#[test]
fn values_are_read_by_their_first_sign() {
    assert_eq!(parse_string_value("\"a\\tb\\\"\""), Ok("a\tb\"".to_string()));
    assert_eq!(parse_string_value("'a\\b'"), Ok("a\\b".to_string()));
    assert!(parse_string_value("plain").is_err());
    assert!(parse_string_value("\"open").is_err());
    assert_eq!(parse_bool_value("true"), Ok(true));
    assert_eq!(parse_bool_value("false"), Ok(false));
    assert!(parse_bool_value("yes").is_err());
    assert_eq!(
        parse_string_array("[\"a\", 'b']"),
        Ok(vec!["a".to_string(), "b".to_string()])
    );
    assert!(parse_string_array("['b,c']").is_err());
    assert!(parse_string_array("['b',]").is_err());
    assert_eq!(parse_string_array("[]"), Ok(vec![]));
    assert!(parse_string_array("\"a\"").is_err());
}

#[test]
fn a_profile_without_a_name_is_called_after_its_file() {
    let contents = "[[capabilities]]\ntype = \"read_file\"\npath = \"/tmp\"\n";

    assert_eq!(load_and_validate(contents, Some("work")).unwrap().name, "work");
    assert_eq!(profile_name_from_path(Some("work")), "work");
    assert_ne!(profile_name_from_path(None), "");
}

#[test]
fn every_problem_is_told_in_words() {
    let contents = "name = \"x\"\n[[capabilities]]\npath = \"/tmp\"\n";
    let errors = load_and_validate(contents, None).unwrap_err();

    assert!(errors
        .iter()
        .any(|e| matches!(e, ValidationError::MissingCapabilityType { line: 2 })));
    assert!(errors.iter().all(|e| !e.to_text().is_empty()));
    let io = ValidationError::Io {
        path: "p".to_string(),
        message: "gone".to_string(),
    };
    assert!(io.to_text().contains("gone"));
}

#[test]
fn memory_scopes_are_read() {
    assert_eq!(
        MemoryScope::parse("agent:a"),
        Some(MemoryScope::Agent("a".to_string()))
    );
    assert_eq!(
        MemoryScope::parse("session:a:s"),
        Some(MemoryScope::Session {
            agent_id: "a".to_string(),
            session_id: "s".to_string(),
        })
    );
    assert_eq!(
        MemoryScope::parse("namespace:n"),
        Some(MemoryScope::Namespace("n".to_string()))
    );
    assert_eq!(MemoryScope::parse("agent:"), None);
    assert_eq!(MemoryScope::parse("other:x"), None);
}

#[test]
fn trailing_comments_change_nothing() {
    let plain = "name = \"n\" # it's\n[[capabilities]]\ntype = 'read_file'\npath = \"/a#b\"\n\nodd\n[mcp]\ntool_allowlist = [\"x\"]\r\nbad_key = 1";
    let noted: String = plain.lines().map(|line| format!("{line} # note\n")).collect();
    let (mut first, mut second) = (Vec::new(), Vec::new());

    let read = parse_profile(plain, &mut first);
    let again = parse_profile(&noted, &mut second);
    assert_eq!(format!("{read:?}"), format!("{again:?}"));
    assert_eq!(first, second);
    assert_eq!(first.len(), 2);
}

#[test]
fn wider_capabilities_grant_narrower_ones() {
    let read = |path: &str| Capability::ReadFile(path.to_string());
    let agent = Capability::ReadMemory(MemoryScope::Agent("a".to_string()));
    let session = Capability::ReadMemory(MemoryScope::Session {
        agent_id: "a".to_string(),
        session_id: "s".to_string(),
    });
    let held = vec![read("/data"), agent.clone()];

    assert!(read("/data/x").is_subset_of(&read("/data")));
    assert!(!read("/data").is_subset_of(&read("/data/x")));
    assert!(!read("/data/../etc").is_subset_of(&read("/data")));
    assert!(!read("/database").is_subset_of(&read("/data")));
    assert!(!Capability::WriteFile("/data".to_string()).is_subset_of(&read("/data")));
    assert!(session.is_subset_of(&agent));
    assert!(!agent.is_subset_of(&session));
    assert!(read("/x").is_subset_of(&Capability::All));
    assert!(Capability::Nothing.is_subset_of(&read("/x")));
    assert!(capability_allowed_by(&held, &read("/data/y")));
    assert!(capability_allowed_by(&held, &session));
    assert!(!capability_allowed_by(&held, &Capability::MemoryRecall));
}
