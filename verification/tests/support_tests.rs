use dreas::config::AppConfig;
use dreas::error::DreasError;
use dreas::metadata::Metadata;
use dreas::string_map::StringMap;
use dreas::text::{
    clone_opt_text, clone_texts, contains_text, decimal, same_opt_text, starts_with,
};
use dreas::time::{elapsed_millis, Timestamp};

#[test]
fn decimal_writes_numbers_without_leading_zeros() {
    let cases: [(usize, &str); 9] = [
        (0, "0"),
        (7, "7"),
        (9, "9"),
        (10, "10"),
        (42, "42"),
        (100, "100"),
        (909, "909"),
        (10_000, "10000"),
        (1_234_567_890, "1234567890"),
    ];
    for (n, expected) in cases {
        assert_eq!(decimal(n), expected);
    }
    assert_eq!(decimal(usize::MAX), usize::MAX.to_string());
}

#[test]
fn prefix_test_counts_characters() {
    assert!(starts_with(&"Bearer x".to_string(), "Bearer "));
    assert!(starts_with(&"abc".to_string(), ""));
    assert!(starts_with(&"abc".to_string(), "abc"));
    assert!(!starts_with(&"ab".to_string(), "abc"));
    assert!(!starts_with(&"xbc".to_string(), "abc"));
    assert!(starts_with(&"éa".to_string(), "é"));
    assert!(!starts_with(&"ea".to_string(), "é"));
}

#[test]
fn optional_and_listed_strings() {
    let some = Some("x".to_string());
    assert_eq!(clone_opt_text(&some), some);
    assert_eq!(clone_opt_text(&None), None);
    assert!(same_opt_text(&some, &Some("x".to_string())));
    assert!(!same_opt_text(&some, &Some("y".to_string())));
    assert!(!same_opt_text(&some, &None));
    assert!(same_opt_text(&None, &None));

    let list = vec!["a".to_string(), "b".to_string()];
    assert_eq!(clone_texts(&list), list);
    assert!(contains_text(&list, &"b".to_string()));
    assert!(!contains_text(&list, &"c".to_string()));
    assert!(!contains_text(&Vec::new(), &"a".to_string()));
}

#[test]
fn string_map_keeps_one_value_for_each_key_in_arrival_order() {
    let mut map: StringMap<u32> = StringMap::new();
    assert_eq!(map.len(), 0);
    map.insert("b".to_string(), 1);
    map.insert("a".to_string(), 2);
    map.insert("b".to_string(), 3);
    map.insert("c".to_string(), 4);
    assert_eq!(map.len(), 3);
    assert_eq!(map.get(&"b".to_string()), Some(&3));
    assert_eq!(map.get(&"z".to_string()), None);
    assert!(map.contains_key(&"a".to_string()));
    assert_eq!(map.position(&"a".to_string()), Some(1));
    assert_eq!(map.position(&"z".to_string()), None);
    let keys: Vec<String> = (0..map.len()).map(|i| map.key_at(i).clone()).collect();
    let values: Vec<u32> = (0..map.len()).map(|i| *map.value_at(i)).collect();
    assert_eq!(keys, vec!["b".to_string(), "a".to_string(), "c".to_string()]);
    assert_eq!(values, vec![3, 2, 4]);

    assert_eq!(map.remove(&"a".to_string()), Some(2));
    assert_eq!(map.remove(&"a".to_string()), None);
    let keys: Vec<String> = (0..map.len()).map(|i| map.key_at(i).clone()).collect();
    assert_eq!(keys, vec!["b".to_string(), "c".to_string()]);
}

#[test]
fn string_map_retains_the_flagged_places() {
    let mut map: StringMap<u32> = StringMap::new();
    for (i, k) in ["a", "b", "c", "d", "e"].iter().enumerate() {
        map.insert(k.to_string(), i as u32);
    }
    map.retain_flagged(&vec![true, false, true, false, false]);
    let keys: Vec<String> = (0..map.len()).map(|i| map.key_at(i).clone()).collect();
    assert_eq!(keys, vec!["a".to_string(), "c".to_string()]);
    assert_eq!(map.get(&"c".to_string()), Some(&2));
    assert_eq!(map.get(&"b".to_string()), None);
    map.retain_flagged(&vec![false, false]);
    assert_eq!(map.len(), 0);
    map.retain_flagged(&vec![]);
    assert_eq!(map.len(), 0);
}

#[test]
fn metadata_behaves_as_a_map_and_clones() {
    let mut m = Metadata::new();
    m.insert("k1".to_string(), "v1".to_string());
    m.insert("k2".to_string(), "v2".to_string());
    m.insert("k1".to_string(), "v3".to_string());
    assert_eq!(m.len(), 2);
    assert_eq!(m.get(&"k1".to_string()).unwrap(), "v3");
    assert_eq!(m.key_at(0), "k1");
    assert_eq!(m.value_at(1), "v2");
    assert!(m.contains_key(&"k2".to_string()));
    assert!(!m.contains_key(&"k3".to_string()));

    let copy = m.clone();
    m.insert("k2".to_string(), "changed".to_string());
    assert_eq!(copy.len(), 2);
    assert_eq!(copy.get(&"k1".to_string()).unwrap(), "v3");
    assert_eq!(copy.get(&"k2".to_string()).unwrap(), "v2");
    assert_eq!(copy.key_at(0), "k1");
    assert_eq!(copy.key_at(1), "k2");
}

#[test]
fn timestamps_are_ordered_by_seconds_then_nanoseconds() {
    let a = Timestamp::new(5, 9);
    let b = Timestamp::new(6, 0);
    let c = Timestamp::new(6, 1);
    assert!(a.is_before(&b) && b.is_before(&c) && a.is_before(&c));
    assert!(!b.is_before(&a) && !a.is_before(&a));
    assert!(a.is_at_or_before(&a) && a.is_at_or_before(&b) && !c.is_at_or_before(&b));
    assert!(Timestamp::new(-1, 999).is_before(&Timestamp::new(0, 0)));
}

#[test]
fn offsets_in_days_and_hours() {
    let now = Timestamp::new(10 * 86_400, 100);
    assert!(Timestamp::new(9 * 86_400, 100).is_at_least_days_before(&now, 1));
    assert!(!Timestamp::new(9 * 86_400, 101).is_at_least_days_before(&now, 1));
    assert!(Timestamp::new(9 * 86_400 - 1, 999).is_at_least_days_before(&now, 1));
    assert!(now.is_at_least_days_before(&now, 0));
    assert!(!Timestamp::new(i64::MAX, 0).is_at_least_days_before(&now, u32::MAX));
    assert!(Timestamp::new(i64::MIN, 0).is_at_least_days_before(&Timestamp::new(i64::MAX, 0), u32::MAX));

    assert!(Timestamp::new(10 * 86_400 - 7_200, 100).is_at_least_hours_before(&now, 2));
    assert!(!Timestamp::new(10 * 86_400 - 7_200, 101).is_at_least_hours_before(&now, 2));
    assert!(!Timestamp::new(i64::MIN, 0).is_at_least_hours_before(&Timestamp::new(i64::MAX, 0), u64::MAX));
}

#[test]
fn elapsed_milliseconds() {
    let start = Timestamp::new(10, 500_000_000);
    assert_eq!(elapsed_millis(&start, &Timestamp::new(12, 750_000_999)), 2_250);
    assert_eq!(elapsed_millis(&start, &Timestamp::new(11, 0)), 500);
    assert_eq!(elapsed_millis(&start, &Timestamp::new(10, 500_999_999)), 0);
    assert_eq!(elapsed_millis(&start, &start), 0);
    assert_eq!(elapsed_millis(&start, &Timestamp::new(9, 0)), 0);
    assert_eq!(
        elapsed_millis(&Timestamp::new(i64::MIN, 0), &Timestamp::new(i64::MAX, 0)),
        u64::MAX
    );
    assert_eq!(
        elapsed_millis(&Timestamp::new(0, 0), &Timestamp::new(1_000_000, 0)),
        1_000_000_000
    );
}

#[test]
fn errors_show_their_heading_and_message() {
    let cases = [
        (DreasError::KmsEncryption("m".to_string()), "KMS encryption error: m"),
        (DreasError::KmsDecryption("m".to_string()), "KMS decryption error: m"),
        (DreasError::Storage("m".to_string()), "Storage error: m"),
        (DreasError::Authentication("m".to_string()), "Authentication error: m"),
        (DreasError::Expired("m".to_string()), "Expired error: m"),
        (DreasError::Configuration("m".to_string()), "Configuration error: m"),
        (DreasError::AgentCoordination("m".to_string()), "Agent coordination error: m"),
        (DreasError::AuditLogging("m".to_string()), "Audit logging error: m"),
        (DreasError::Validation("m".to_string()), "Validation error: m"),
        (DreasError::Generic("".to_string()), "Generic error: "),
    ];
    for (error, expected) in cases {
        assert_eq!(error.message(), expected);
    }
    assert_eq!(DreasError::Storage("disk full".to_string()).detail(), "disk full");
}

#[test]
fn config_defaults_and_faults() {
    let config = AppConfig::default();
    assert_eq!(config.gcp.project_id, "your-project-id");
    assert_eq!(config.gcp.kms_key_uri, "projects/../cryptoKeys/../cryptoKeyVersions/1");
    assert_eq!(config.gcp.location, "us-central1");
    assert_eq!(config.gcp.service_account_key_path, None);
    assert!(config.security.enable_audit_logging);
    assert!(config.security.enable_key_escrow);
    assert_eq!(config.security.audit_log_retention_days, 365);
    assert_eq!(config.api_port, 8080);
    assert_eq!(config.log_level, "info");

    let mut bad = config.clone();
    bad.gcp.project_id = String::new();
    bad.gcp.kms_key_uri = String::new();
    bad.api_port = 0;
    let steps: [(&str, fn(&mut AppConfig)); 3] = [
        ("GCP project ID cannot be empty", |c| c.gcp.project_id = "p".to_string()),
        ("KMS key URI cannot be empty", |c| c.gcp.kms_key_uri = "k".to_string()),
        ("API port must be greater than 0", |c| c.api_port = 1),
    ];
    for (expected, fix) in steps {
        match bad.validate().unwrap_err() {
            DreasError::Configuration(message) => assert_eq!(message, expected),
            other => panic!("unexpected error: {:?}", other),
        }
        fix(&mut bad);
    }
    assert!(bad.validate().is_ok());
}
