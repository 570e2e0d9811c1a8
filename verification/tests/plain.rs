use nexus::constant_time::constant_time_eq;
use nexus::env::{
    env_bool, env_optional_hex, env_optional_string, env_string, env_u64, parse_hex_pairs,
    parse_truth_word, EnvValue, HexFault,
};
use nexus::error::NexusError;
use nexus::paths::{
    join_path, lexical_normalize_path, lies_under, path_is_lexically_allowed, path_is_under_any,
    split_path,
};

fn value(text: &str) -> EnvValue {
    EnvValue::Value(text.to_string())
}

fn message<T>(result: Result<T, NexusError>) -> String {
    match result {
        Err(NexusError::ConfigError(m)) => m,
        _ => panic!("no configuration error"),
    }
}

#[test]
fn constant_time_compare_checks_equal_and_mismatch_values() {
    let a = b"\x01\x02\x03";
    let b = b"\x01\x02\x03";
    let c = b"\x01\x02\x04";
    let d = b"\x01\x02\x03\x04";

    assert!(constant_time_eq(a, b));
    assert!(!constant_time_eq(a, c));
    assert!(!constant_time_eq(a, d));
}

#[test]
fn texts_come_from_the_environment() {
    assert_eq!(env_string("V", &EnvValue::Absent, "d".to_string()), Ok("d".to_string()));
    assert_eq!(env_string("V", &value("x"), "d".to_string()), Ok("x".to_string()));
    assert_eq!(
        message(env_string("V", &value(" "), "d".to_string())),
        "V must not be empty when configured"
    );
    assert!(message(env_string("V", &EnvValue::NotUnicode, "d".to_string())).contains("V"));
    assert_eq!(env_optional_string("V", &EnvValue::Absent), Ok(None));
    assert_eq!(env_optional_string("V", &value("x")), Ok(Some("x".to_string())));
}

#[test]
fn truth_words_are_read_in_any_case() {
    assert_eq!(parse_truth_word("on"), Some(true));
    assert_eq!(parse_truth_word("off"), Some(false));
    assert_eq!(parse_truth_word("perhaps"), None);
    assert_eq!(env_bool("V", &value("TRUE"), false), Ok(true));
    assert_eq!(env_bool("V", &EnvValue::Absent, true), Ok(true));
    assert!(env_bool("V", &value("perhaps"), true).is_err());
}

#[test]
fn numbers_are_read_and_faults_told() {
    assert_eq!(env_u64("V", &value("17"), 3), Ok(17));
    assert_eq!(env_u64("V", &EnvValue::Absent, 3), Ok(3));
    assert!(message(env_u64("V", &value("x"), 3)).contains("invalid digit found in string"));
    assert!(message(env_u64("V", &value("99999999999999999999"), 3))
        .contains("number too large to fit in target type"));
}

#[test]
fn hexadecimal_keys_are_read() {
    assert_eq!(parse_hex_pairs(b"00fF"), Ok(vec![0, 255]));
    assert_eq!(parse_hex_pairs(b"0"), Err(HexFault::Odd));
    assert_eq!(parse_hex_pairs(b"0g"), Err(HexFault::Digit));
    assert_eq!(env_optional_hex("V", &value("0aff")), Ok(Some(vec![10, 255])));
    assert_eq!(env_optional_hex("V", &EnvValue::Absent), Ok(None));
    assert!(env_optional_hex("V", &value("0")).is_err());
}

#[test]
fn paths_are_normalized_by_their_text() {
    let normal = |p: &str| lexical_normalize_path(p).to_text();

    assert_eq!(normal("/a/./b/../c"), "/a/c");
    assert_eq!(normal("/../a"), "/a");
    assert_eq!(normal(&normal("/a/../b//c")), normal("/a/../b//c"));
    assert!(lies_under(&split_path("/a/b"), &split_path("/a")));
    assert!(!lies_under(&split_path("/ab"), &split_path("/a")));
}

#[test]
fn paths_are_allowed_by_where_they_lead() {
    let dirs = vec!["/srv/modules".to_string()];

    assert!(path_is_lexically_allowed("/srv/modules/x.wasm", &dirs));
    assert!(!path_is_lexically_allowed("/srv/modules/../x.wasm", &dirs));
    assert!(path_is_under_any("/srv/modules/a/b", &dirs));
    assert!(!path_is_under_any("/srv/modules2", &dirs));
    assert_eq!(join_path("/srv", "m"), "/srv/m");
    assert_eq!(join_path("/srv", "/m"), "/m");
}
