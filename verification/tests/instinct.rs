use nexus::hypervisor::failure_mode::FailureMode;
use nexus::hypervisor::recovery::{Ratio, RecoverySource};
use nexus::instinct::{home_dir, Instinct, InstinctPolicy, InstinctStore};

fn mode() -> FailureMode {
    FailureMode::TrapDivByZero
}

fn now() -> String {
    "2026-01-01T00:00:00Z".to_string()
}

fn register(store: &mut InstinctStore, mode: &FailureMode, pattern: &str, text: &str, id: &str) -> String {
    store.register(mode, pattern, text, id.to_string(), now())
}

fn number(r: Ratio) -> f64 {
    r.num as f64 / r.den as f64
}

#[test]
fn empty_store_returns_nothing() {
    let s = InstinctStore::new();
    assert!(s.query(&mode(), "any").is_empty());
    let st = s.stats();
    assert_eq!(st.total_instincts, 0);
}

#[test]
fn register_then_query_round_trips() {
    let mut s = InstinctStore::new();
    let id = register(&mut s, &mode(), "*", "Guard divisor != 0", "i-1");
    let hits = s.query(&mode(), "anything");
    assert_eq!(hits.len(), 1);
    assert_eq!(hits[0].id, id);
    assert!((number(hits[0].confidence) - 0.5).abs() < 1e-6);
}

#[test]
fn confidence_increases_with_support() {
    let mut s = InstinctStore::new();
    let id = register(&mut s, &mode(), "*", "guard", "i-1");
    for _ in 0..10 {
        assert!(s.record_success(&id, now()).is_some());
    }
    let q = s.query(&mode(), "x");
    // (10 + 1) / (10 + 0 + 2) = 11/12 ~ 0.9167
    assert!(number(q[0].confidence) > 0.9);
    assert_eq!(q[0].confidence, Ratio { num: 11, den: 12 });
}

#[test]
fn failures_erode_but_dont_zero() {
    let mut s = InstinctStore::new();
    let id = register(&mut s, &mode(), "*", "guard", "i-1");
    for _ in 0..3 {
        s.record_success(&id, now()).unwrap();
    }
    for _ in 0..10 {
        s.record_failure(&id, now()).unwrap();
    }
    let q = s.query(&mode(), "x");
    // (3 + 1) / (3 + 10 + 2) = 4/15 ~ 0.267: eroded, not zero
    assert!(number(q[0].confidence) > 0.0 && number(q[0].confidence) < 0.4);
    assert_eq!(q[0].confidence, Ratio { num: 4, den: 15 });
}

#[test]
fn persistence_round_trips() {
    let mut s = InstinctStore::new();
    let id = register(&mut s, &mode(), "tool_a", "guard divisor", "i-1");
    s.record_success(&id, now()).unwrap();
    s.record_success(&id, now()).unwrap();
    let kept: Vec<Instinct> = s.export_all();

    let mut s2 = InstinctStore::new();
    s2.load(kept);
    let q = s2.query(&mode(), "tool_a");
    assert_eq!(q.len(), 1);
    assert_eq!(q[0].id, id);
    assert_eq!(q[0].support_count, 2);
}

#[test]
fn export_import_round_trips() {
    let mut a = InstinctStore::new();
    register(&mut a, &mode(), "*", "guard", "i-1");
    register(&mut a, &FailureMode::TrapStackOverflow, "*", "convert to iteration", "i-2");
    let exported = a.export_all();

    let mut b = InstinctStore::new();
    let (added, merged, touched) = b.import_all(exported.clone());
    assert_eq!(added, 2);
    assert_eq!(merged, 0);
    assert_eq!(touched.len(), 2);

    // Re-importing the same payload should merge, not duplicate.
    let (added2, merged2, _) = b.import_all(exported);
    assert_eq!(added2, 0);
    assert_eq!(merged2, 2);
    assert_eq!(b.stats().total_instincts, 2);
}

#[test]
fn instinct_policy_only_emits_above_threshold() {
    let mut s = InstinctStore::new();
    let id_good = register(&mut s, &mode(), "*", "good", "i-1");
    let id_bad = register(&mut s, &mode(), "*", "bad", "i-2");
    for _ in 0..10 {
        s.record_success(&id_good, now()).unwrap();
    }
    for _ in 0..10 {
        s.record_failure(&id_bad, now()).unwrap();
    }

    let policy = InstinctPolicy::new().with_min_confidence(Ratio { num: 7, den: 10 });
    let actions = policy.recover(&s, &mode(), "x");
    assert_eq!(actions.len(), 1);
    assert_eq!(actions[0].description, "good");
    assert_eq!(actions[0].source, RecoverySource::Instinct);
    assert_eq!(actions[0].instinct_id, Some("i-1".to_string()));
}

#[test]
fn the_same_advice_is_registered_once() {
    let mut s = InstinctStore::new();
    let first = register(&mut s, &mode(), "*", "guard", "i-1");
    let second = register(&mut s, &mode(), "*", "guard", "i-2");

    assert_eq!(first, second);
    assert_eq!(s.query(&mode(), "x").len(), 1);
}

#[test]
fn the_most_confident_comes_first() {
    let mut s = InstinctStore::new();
    register(&mut s, &mode(), "*", "plain", "i-1");
    let better = register(&mut s, &mode(), "tool", "better", "i-2");
    s.record_success(&better, now()).unwrap();

    let hits = s.query(&mode(), "tool");
    assert_eq!(hits[0].recovery_description, "better");
    assert_eq!(hits[1].recovery_description, "plain");
    assert_eq!(s.query(&mode(), "other").len(), 1);
    assert_eq!(s.record_success("nobody", now()), None);
}

#[test]
fn a_store_is_summed_up() {
    let mut s = InstinctStore::new();
    let id = register(&mut s, &mode(), "*", "guard", "i-1");
    register(&mut s, &FailureMode::TrapUnreachable, "*", "check", "i-2");
    s.record_success(&id, now()).unwrap();
    s.record_failure("i-2", now()).unwrap();
    let st = s.stats();

    assert_eq!(st.total_instincts, 2);
    assert_eq!(st.total_support, 1);
    assert_eq!(st.total_failures, 1);
    assert_eq!(st.categories.len(), 2);
    assert_eq!(
        st.highest_confidence,
        Some(("guard".to_string(), Ratio { num: 2, den: 3 }))
    );
}

#[test]
fn ratios_are_compared_exactly() {
    let a = Ratio { num: 1, den: 3 };
    let b = Ratio { num: 333_333, den: 1_000_000 };

    assert!(b.is_less(&a));
    assert!(!a.is_less(&b));
    assert!(!a.is_less(&a));
}

#[test]
fn the_home_directory_is_the_first_that_is_set() {
    assert_eq!(home_dir(Some("/h"), Some("/u")), Some("/h".to_string()));
    assert_eq!(home_dir(Some(""), Some("/u")), Some("/u".to_string()));
    assert_eq!(home_dir(None, None), None);
}

#[test]
fn instincts_are_kept_below_the_home_directory() {
    assert_eq!(InstinctStore::default_dir(Some("/n"), Some("/h"), None), "/n/instincts");
    assert_eq!(InstinctStore::default_dir(None, Some("/h"), None), "/h/.nexus/instincts");
    assert_eq!(InstinctStore::default_dir(None, None, None), "./.nexus/instincts");
    assert_eq!(InstinctStore::category_file("/d", "TIMEOUT"), "/d/TIMEOUT.json");
}

#[test]
fn imports_add_what_is_new_and_keep_what_is_there() {
    let mut a = InstinctStore::new();
    register(&mut a, &mode(), "*", "guard", "i-1");
    a.record_success("i-1", now());
    let mut b = InstinctStore::new();
    register(&mut b, &mode(), "*", "guard", "j-1");
    register(&mut b, &mode(), "*", "check", "j-2");
    let mut list = b.export_all();
    list.extend(b.export_all());

    let before = a.export_all();
    let (added, merged, _) = a.import_all(list.clone());
    assert_eq!((added, merged), (1, 3));
    let after = a.export_all();
    assert_eq!(after.len(), before.len() + added);
    assert_eq!(after[..before.len()], before[..]);
    assert_eq!(a.import_all(list).0, 0);
    assert_eq!(a.export_all(), after);
}

#[test]
fn sums_that_do_not_fit_are_seen() {
    let mut store = InstinctStore::new();
    register(&mut store, &mode(), "*", "guard", "i-1");
    register(&mut store, &mode(), "*", "check", "i-2");
    assert!(store.can_be_summed());
    let mut list = store.export_all();
    for instinct in list.iter_mut() {
        instinct.support_count = u64::MAX;
    }
    let mut large = InstinctStore::new();
    large.import_all(list);
    assert!(!large.can_be_summed());
}
