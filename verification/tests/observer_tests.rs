use dreas::error::DreasError;
use dreas::services::observer::{AlertSeverity, HealthCheck, HealthCheckType, HealthStatus};
use dreas::services::ObserverService;
use dreas::time::Timestamp;

fn check(name: &str, interval: u64, timeout: u64) -> HealthCheck {
    HealthCheck {
        name: name.to_string(),
        check_type: HealthCheckType::Database,
        interval_seconds: interval,
        timeout_seconds: timeout,
        threshold_bits: Some(5.0f64.to_bits()),
        last_check: None,
        status: HealthStatus::Unknown,
    }
}

#[test]
fn test_observer_service() {
    let mut observer_service = ObserverService::new();

    assert!(observer_service
        .record_metric("cpu_usage".to_string(), 75.5f64.to_bits(), "percent".to_string(), None)
        .is_ok());

    let health_check = HealthCheck {
        name: "database_check".to_string(),
        check_type: HealthCheckType::Database,
        interval_seconds: 60,
        timeout_seconds: 30,
        threshold_bits: Some(5.0f64.to_bits()),
        last_check: None,
        status: HealthStatus::Unknown,
    };

    assert!(observer_service.register_health_check(health_check).is_ok());

    let results = observer_service.run_health_checks().unwrap();
    assert!(!results.is_empty());

    let alert_id = observer_service
        .create_alert(
            "High CPU Usage".to_string(),
            AlertSeverity::High,
            "CPU usage is above 90%".to_string(),
        )
        .unwrap();

    assert!(!uuid::Uuid::from_u128(alert_id).to_string().is_empty());
}

#[test]
fn threshold_comparison_agrees_with_doubles() {
    let values = [
        0.0,
        -0.0,
        4.999,
        5.0,
        5.000_000_000_000_001,
        89.9,
        90.0,
        90.000_000_000_000_01,
        95.0,
        95.1,
        1e300,
        -91.0,
        f64::INFINITY,
        f64::NEG_INFINITY,
        f64::NAN,
        -f64::NAN,
    ];
    for value in values {
        assert_eq!(dreas::doubles::value_below_zero(value.to_bits()), value < 0.0, "{}", value);
    }
    for limit in [5.0f64, 90.0, 95.0] {
        for value in values {
            assert_eq!(
                dreas::doubles::value_exceeds(value.to_bits(), limit.to_bits()),
                value > limit,
                "{} > {}",
                value,
                limit
            );
        }
    }
}

#[test]
fn metric_rules() {
    let rule = ObserverService::check_metric_alerts("cpu_usage", 90.5f64.to_bits()).unwrap();
    assert_eq!(rule.name, "High CPU Usage");
    assert_eq!(rule.severity, AlertSeverity::High);
    assert_eq!(rule.message_head, "CPU usage is ");
    assert_eq!(rule.message_tail, "%, exceeding threshold");

    let rule = ObserverService::check_metric_alerts("memory_usage", 99.0f64.to_bits()).unwrap();
    assert_eq!(rule.name, "High Memory Usage");
    assert_eq!(rule.severity, AlertSeverity::Critical);
    assert_eq!(rule.message_head, "Memory usage is ");
    assert_eq!(rule.message_tail, "%, exceeding critical threshold");

    let rule = ObserverService::check_metric_alerts("error_rate", 5.5f64.to_bits()).unwrap();
    assert_eq!(rule.name, "High Error Rate");
    assert_eq!(rule.severity, AlertSeverity::Medium);
    assert_eq!(rule.message_head, "Error rate is ");
    assert_eq!(rule.message_tail, "%, exceeding threshold");

    for (name, value) in [
        ("cpu_usage", 90.0),
        ("cpu_usage", 75.5),
        ("memory_usage", 95.0),
        ("memory_usage", 92.0),
        ("error_rate", 5.0),
        ("disk_usage", 100.0),
        ("cpu_usage", f64::NAN),
    ] {
        assert!(ObserverService::check_metric_alerts(name, f64::to_bits(value)).is_none());
    }
}

#[test]
fn metrics_keep_the_latest_value() {
    let mut observer = ObserverService::new();
    observer.record_metric("a".to_string(), 1.0f64.to_bits(), "u".to_string(), None).unwrap();
    observer.record_metric("b".to_string(), 2.0f64.to_bits(), "u".to_string(), None).unwrap();
    observer.record_metric("a".to_string(), 3.0f64.to_bits(), "v".to_string(), None).unwrap();
    let metrics = observer.get_metrics();
    assert_eq!(metrics.len(), 2);
    assert_eq!(metrics[0].name, "a");
    assert_eq!(f64::from_bits(metrics[0].value_bits), 3.0);
    assert_eq!(metrics[0].unit, "v");
    assert_eq!(metrics[1].name, "b");
    assert_eq!(observer.get_stats().total_metrics, 2);
    assert_eq!(observer.get_stats().total_alerts, 0);
}

#[test]
fn faulty_health_checks_are_refused_in_order() {
    let mut observer = ObserverService::new();
    let cases = [
        (check("", 0, 0), "Health check name cannot be empty"),
        (check("c", 0, 0), "Health check interval must be greater than 0"),
        (check("c", 5, 0), "Health check timeout must be greater than 0"),
        (check("c", 5, 6), "Health check timeout cannot exceed interval"),
    ];
    for (c, expected) in cases {
        match observer.register_health_check(c).unwrap_err() {
            DreasError::Configuration(message) => assert_eq!(message, expected),
            other => panic!("unexpected error: {:?}", other),
        }
    }
    assert_eq!(observer.get_stats().health_checks, 0);
    assert!(observer.register_health_check(check("c", 5, 5)).is_ok());
    assert_eq!(observer.get_stats().health_checks, 1);
}

#[test]
fn a_single_run_is_healthy_below_its_timeout() {
    let c = check("c", 60, 2);
    let fast = ObserverService::run_single_health_check(
        &c,
        Timestamp::new(10, 0),
        Timestamp::new(11, 999_999_999),
    );
    assert_eq!(fast.status, HealthStatus::Healthy);
    assert_eq!(fast.last_check, Some(Timestamp::new(11, 999_999_999)));
    assert_eq!(fast.name, "c");
    assert_eq!(fast.interval_seconds, 60);
    assert_eq!(fast.timeout_seconds, 2);

    let slow =
        ObserverService::run_single_health_check(&c, Timestamp::new(10, 0), Timestamp::new(12, 0));
    assert_eq!(slow.status, HealthStatus::Unhealthy);
    let backwards =
        ObserverService::run_single_health_check(&c, Timestamp::new(10, 0), Timestamp::new(5, 0));
    assert_eq!(backwards.status, HealthStatus::Healthy);
}

#[test]
fn running_the_checks_stamps_each_of_them() {
    let mut observer = ObserverService::new();
    observer.register_health_check(check("a", 60, 30)).unwrap();
    observer.register_health_check(check("b", 10, 10)).unwrap();
    let results = observer.run_health_checks().unwrap();
    assert_eq!(results.len(), 2);
    assert_eq!(results[0].name, "a");
    assert_eq!(results[1].name, "b");
    for r in &results {
        assert!(r.last_check.is_some());
        assert_eq!(r.status, HealthStatus::Healthy);
    }
    let summary = observer.get_health_summary();
    assert_eq!(summary.total_checks, 2);
    assert_eq!(summary.healthy_checks, 2);
    assert_eq!(summary.unhealthy_checks, 0);
}

#[test]
fn alerts_are_active_until_resolved() {
    let mut observer = ObserverService::new();
    let a = observer.create_alert("a".to_string(), AlertSeverity::Critical, "m".to_string()).unwrap();
    let b = observer.create_alert("b".to_string(), AlertSeverity::Low, "m".to_string()).unwrap();
    let c = observer.create_alert("c".to_string(), AlertSeverity::Critical, "m".to_string()).unwrap();
    assert_ne!(a, b);
    let summary = observer.get_health_summary();
    assert_eq!((summary.active_alerts, summary.critical_alerts), (3, 2));

    observer.resolve_alert_at(a, Timestamp::new(50, 0)).unwrap();
    let active: Vec<String> = observer.get_active_alerts().into_iter().map(|x| x.name).collect();
    assert_eq!(active, vec!["b".to_string(), "c".to_string()]);
    let summary = observer.get_health_summary();
    assert_eq!((summary.active_alerts, summary.critical_alerts), (2, 1));
    assert_eq!(observer.get_stats().total_alerts, 3);
    assert_eq!(observer.get_stats().active_alerts, 2);

    match observer.resolve_alert(12345).unwrap_err() {
        DreasError::Generic(message) => {
            assert_eq!(message, "Alert 00000000-0000-0000-0000-000000003039 not found")
        }
        other => panic!("unexpected error: {:?}", other),
    }
    observer.resolve_alert(c).unwrap();
    assert_eq!(observer.get_active_alerts().len(), 1);
}

#[test]
fn cleanup_drops_old_metrics_and_long_resolved_alerts() {
    let mut observer = ObserverService::new();
    observer.record_metric("m".to_string(), 1.0f64.to_bits(), "u".to_string(), None).unwrap();
    let open = observer.create_alert("open".to_string(), AlertSeverity::Low, "m".to_string()).unwrap();
    let old = observer.create_alert("old".to_string(), AlertSeverity::Low, "m".to_string()).unwrap();
    let edge = observer.create_alert("edge".to_string(), AlertSeverity::Low, "m".to_string()).unwrap();
    let new = observer.create_alert("new".to_string(), AlertSeverity::Low, "m".to_string()).unwrap();
    let _ = open;

    let now_secs = chrono::Utc::now().timestamp() + 10;
    let now = Timestamp::new(now_secs, 5);
    observer.resolve_alert_at(old, Timestamp::new(now_secs - 3 * 3600, 0)).unwrap();
    observer.resolve_alert_at(edge, Timestamp::new(now_secs - 2 * 3600, 5)).unwrap();
    observer.resolve_alert_at(new, Timestamp::new(now_secs - 2 * 3600, 6)).unwrap();

    // The metric was recorded seconds ago and stays; "old" and "edge" leave.
    let removed = observer.cleanup_old_data_at(2, now).unwrap();
    assert_eq!(removed, 2);
    assert_eq!(observer.get_stats().total_alerts, 2);
    assert_eq!(observer.get_stats().total_metrics, 1);

    // With no retention everything recorded before now leaves, open alerts stay.
    let removed = observer.cleanup_old_data_at(0, now).unwrap();
    assert_eq!(removed, 2);
    let left: Vec<String> = observer.get_active_alerts().into_iter().map(|x| x.name).collect();
    assert_eq!(left, vec!["open".to_string()]);
    assert_eq!(observer.get_stats().total_metrics, 0);

    assert_eq!(observer.cleanup_old_data(u64::MAX).unwrap(), 0);
}
