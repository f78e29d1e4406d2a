//! The observer: metrics, alerts and health checks of the running system.
//!
//! A metric's value is kept as the 64 bits of its double-precision number;
//! the observer compares such values and never computes with them.

use vstd::prelude::*;
use vstd::string::StringExecFns;
use crate::doubles::{exceeds, value_exceeds};
use crate::error::{DreasError, DreasErrorView};
use crate::metadata::Metadata;
use crate::sequences::{
    lemma_filter_empty, lemma_filter_members, lemma_filter_push, lists_in_order,
};
use crate::string_map::StringMap;
use crate::time::{current_time, elapsed_millis, millis_between, Timestamp};
use crate::unique_id::{fresh_id, hyphenated_text, id_text, is_random_identity};

verus! {

/// How grave an alert is.
#[derive(Clone, Copy, Debug, PartialEq, Eq, Structural)]
pub enum AlertSeverity {
    Low,
    Medium,
    High,
    Critical,
}

/// What a health check probes.
#[derive(Clone, Copy, Debug, PartialEq, Eq, Structural)]
pub enum HealthCheckType {
    HttpEndpoint,
    Database,
    ExternalService,
    Custom,
}

/// What a health check found.
#[derive(Clone, Copy, Debug, PartialEq, Eq, Structural)]
pub enum HealthStatus {
    Healthy,
    Degraded,
    Unhealthy,
    Unknown,
}

/// The latest value of one metric.
#[derive(Debug)]
pub struct MetricValue {
    pub name: String,
    pub value_bits: u64,
    pub unit: String,
    pub timestamp: Timestamp,
    pub labels: Metadata,
}

/// The mathematical value of a [`MetricValue`].
pub struct MetricValueView {
    pub name: Seq<char>,
    pub value_bits: u64,
    pub unit: Seq<char>,
    pub timestamp: Timestamp,
    pub labels: Map<Seq<char>, Seq<char>>,
}

impl View for MetricValue {
    type V = MetricValueView;

    open spec fn view(&self) -> MetricValueView {
        MetricValueView {
            name: self.name@,
            value_bits: self.value_bits,
            unit: self.unit@,
            timestamp: self.timestamp,
            labels: self.labels@,
        }
    }
}

impl Clone for MetricValue {
    fn clone(&self) -> (r: Self)
        ensures
            r@ == self@,
    {
        MetricValue {
            name: self.name.clone(),
            value_bits: self.value_bits,
            unit: self.unit.clone(),
            timestamp: self.timestamp,
            labels: self.labels.clone(),
        }
    }
}

/// An alert, open until it is resolved.
#[derive(Debug)]
pub struct Alert {
    pub alert_id: u128,
    pub name: String,
    pub severity: AlertSeverity,
    pub message: String,
    pub triggered_at: Timestamp,
    pub resolved_at: Option<Timestamp>,
    pub metadata: Metadata,
}

/// The mathematical value of an [`Alert`].
pub struct AlertView {
    pub alert_id: u128,
    pub name: Seq<char>,
    pub severity: AlertSeverity,
    pub message: Seq<char>,
    pub triggered_at: Timestamp,
    pub resolved_at: Option<Timestamp>,
    pub metadata: Map<Seq<char>, Seq<char>>,
}

impl View for Alert {
    type V = AlertView;

    open spec fn view(&self) -> AlertView {
        AlertView {
            alert_id: self.alert_id,
            name: self.name@,
            severity: self.severity,
            message: self.message@,
            triggered_at: self.triggered_at,
            resolved_at: self.resolved_at,
            metadata: self.metadata@,
        }
    }
}

impl Clone for Alert {
    fn clone(&self) -> (r: Self)
        ensures
            r@ == self@,
    {
        Alert {
            alert_id: self.alert_id,
            name: self.name.clone(),
            severity: self.severity,
            message: self.message.clone(),
            triggered_at: self.triggered_at,
            resolved_at: self.resolved_at,
            metadata: self.metadata.clone(),
        }
    }
}

/// A health check and what it last found. Its threshold is kept as the
/// bits of a double, like a metric's value.
#[derive(Debug)]
pub struct HealthCheck {
    pub name: String,
    pub check_type: HealthCheckType,
    pub interval_seconds: u64,
    pub timeout_seconds: u64,
    pub threshold_bits: Option<u64>,
    pub last_check: Option<Timestamp>,
    pub status: HealthStatus,
}

/// The mathematical value of a [`HealthCheck`].
pub struct HealthCheckView {
    pub name: Seq<char>,
    pub check_type: HealthCheckType,
    pub interval_seconds: u64,
    pub timeout_seconds: u64,
    pub threshold_bits: Option<u64>,
    pub last_check: Option<Timestamp>,
    pub status: HealthStatus,
}

impl View for HealthCheck {
    type V = HealthCheckView;

    open spec fn view(&self) -> HealthCheckView {
        HealthCheckView {
            name: self.name@,
            check_type: self.check_type,
            interval_seconds: self.interval_seconds,
            timeout_seconds: self.timeout_seconds,
            threshold_bits: self.threshold_bits,
            last_check: self.last_check,
            status: self.status,
        }
    }
}

impl Clone for HealthCheck {
    fn clone(&self) -> (r: Self)
        ensures
            r@ == self@,
    {
        HealthCheck {
            name: self.name.clone(),
            check_type: self.check_type,
            interval_seconds: self.interval_seconds,
            timeout_seconds: self.timeout_seconds,
            threshold_bits: self.threshold_bits,
            last_check: self.last_check,
            status: self.status,
        }
    }
}

/// The alert that a metric value raises. Its message is `message_head`,
/// the value as the caller writes it, and `message_tail`.
#[derive(Debug)]
pub struct AlertRule {
    pub name: String,
    pub severity: AlertSeverity,
    pub message_head: String,
    pub message_tail: String,
}

/// The mathematical value of an [`AlertRule`].
pub struct AlertRuleView {
    pub name: Seq<char>,
    pub severity: AlertSeverity,
    pub message_head: Seq<char>,
    pub message_tail: Seq<char>,
}

impl View for AlertRule {
    type V = AlertRuleView;

    open spec fn view(&self) -> AlertRuleView {
        AlertRuleView {
            name: self.name@,
            severity: self.severity,
            message_head: self.message_head@,
            message_tail: self.message_tail@,
        }
    }
}

/// The health of the system in numbers.
#[derive(Clone, Copy, Debug)]
pub struct HealthSummary {
    pub service_id: u128,
    pub timestamp: Timestamp,
    pub total_checks: usize,
    pub healthy_checks: usize,
    pub unhealthy_checks: usize,
    pub active_alerts: usize,
    pub critical_alerts: usize,
    pub metrics_count: usize,
}

/// A snapshot of the observer.
#[derive(Clone, Copy, Debug)]
pub struct ObserverStats {
    pub service_id: u128,
    pub total_metrics: usize,
    pub total_alerts: usize,
    pub active_alerts: usize,
    pub health_checks: usize,
    pub created_at: Timestamp,
}

/// The bits of the double 90.0.
pub const NINETY_BITS: u64 = 0x4056_8000_0000_0000;

/// The bits of the double 95.0.
pub const NINETY_FIVE_BITS: u64 = 0x4057_c000_0000_0000;

/// The bits of the double 5.0.
pub const FIVE_BITS: u64 = 0x4014_0000_0000_0000;

/// The alert that a value of the metric `name` raises, if it raises one:
/// processor use above 90, memory use above 95, an error rate above 5.
pub open spec fn alert_for(name: Seq<char>, value: u64) -> Option<AlertRuleView> {
    if name == "cpu_usage"@ && exceeds(value, NINETY_BITS) {
        Some(
            AlertRuleView {
                name: "High CPU Usage"@,
                severity: AlertSeverity::High,
                message_head: "CPU usage is "@,
                message_tail: "%, exceeding threshold"@,
            },
        )
    } else if name == "memory_usage"@ && exceeds(value, NINETY_FIVE_BITS) {
        Some(
            AlertRuleView {
                name: "High Memory Usage"@,
                severity: AlertSeverity::Critical,
                message_head: "Memory usage is "@,
                message_tail: "%, exceeding critical threshold"@,
            },
        )
    } else if name == "error_rate"@ && exceeds(value, FIVE_BITS) {
        Some(
            AlertRuleView {
                name: "High Error Rate"@,
                severity: AlertSeverity::Medium,
                message_head: "Error rate is "@,
                message_tail: "%, exceeding threshold"@,
            },
        )
    } else {
        None
    }
}

/// An optional rule by its value.
pub open spec fn opt_rule_view(rule: Option<AlertRule>) -> Option<AlertRuleView> {
    match rule {
        Some(r) => Some(r@),
        None => None,
    }
}

/// The complaint about the first setting of a health check that cannot
/// work.
pub open spec fn health_check_fault(check: HealthCheckView) -> Option<Seq<char>> {
    if check.name.len() == 0 {
        Some("Health check name cannot be empty"@)
    } else if check.interval_seconds == 0 {
        Some("Health check interval must be greater than 0"@)
    } else if check.timeout_seconds == 0 {
        Some("Health check timeout must be greater than 0"@)
    } else if check.timeout_seconds > check.interval_seconds {
        Some("Health check timeout cannot exceed interval"@)
    } else {
        None
    }
}

/// The alerts by their values.
pub open spec fn alert_views(alerts: Seq<Alert>) -> Seq<AlertView> {
    alerts.map_values(|a: Alert| a@)
}

/// The test "is not resolved".
pub open spec fn is_active() -> spec_fn(AlertView) -> bool {
    |a: AlertView| a.resolved_at is None
}

/// The test "is not resolved and critical".
pub open spec fn is_active_critical() -> spec_fn(AlertView) -> bool {
    |a: AlertView| a.resolved_at is None && a.severity == AlertSeverity::Critical
}

/// The test "is kept by a cleanup at `now`": the alert is open, or it was
/// resolved after the instant `hours` hours before `now`.
pub open spec fn alert_is_kept(now: Timestamp, hours: u64) -> spec_fn(AlertView) -> bool {
    |a: AlertView|
        match a.resolved_at {
            None => true,
            Some(resolved) => !resolved.at_least_hours_before(now, hours as nat),
        }
}

/// The place of the first alert with the identity `alert_id`, if there is
/// one.
pub open spec fn is_first_with_id(alerts: Seq<AlertView>, alert_id: u128, at: int) -> bool {
    &&& 0 <= at < alerts.len()
    &&& alerts[at].alert_id == alert_id
    &&& forall|j: int| 0 <= j < at ==> (#[trigger] alerts[j]).alert_id != alert_id
}

/// The test "has the status `status`".
pub open spec fn has_status(status: HealthStatus) -> spec_fn(HealthCheckView) -> bool {
    |c: HealthCheckView| c.status == status
}

/// What running a check at `now` makes of it, when the run took `millis`
/// milliseconds: healthy if that is less than its timeout, unhealthy if
/// not.
pub open spec fn check_after_run(check: HealthCheckView, now: Timestamp, millis: u64)
    -> HealthCheckView {
    HealthCheckView {
        last_check: Some(now),
        status: if millis < check.timeout_seconds * 1000 {
            HealthStatus::Healthy
        } else {
            HealthStatus::Unhealthy
        },
        ..check
    }
}

/// `after` is `before` once it was run: it is stamped, found healthy or
/// unhealthy, and otherwise the same.
pub open spec fn was_run(before: HealthCheckView, after: HealthCheckView) -> bool {
    &&& after.last_check is Some
    &&& after.status == HealthStatus::Healthy || after.status == HealthStatus::Unhealthy
    &&& after == (HealthCheckView { last_check: after.last_check, status: after.status, ..before })
}

/// No alert has the identity `alert_id`.
pub open spec fn no_alert_with_id(alerts: Seq<AlertView>, alert_id: u128) -> bool {
    forall|j: int| 0 <= j < alerts.len() ==> (#[trigger] alerts[j]).alert_id != alert_id
}

/// The metrics that a cleanup at `now` keeps: those that were recorded
/// after the instant `hours` hours before `now`.
pub open spec fn fresh_metrics(
    metrics: Map<Seq<char>, MetricValueView>,
    now: Timestamp,
    hours: u64,
) -> Map<Seq<char>, MetricValueView> {
    metrics.restrict(
        Set::new(
            |name: Seq<char>|
                metrics.contains_key(name) && !metrics[name].timestamp.at_least_hours_before(
                    now,
                    hours as nat,
                ),
        ),
    )
}

/// A count as a `usize`, or the largest `usize` where it does not fit.
pub open spec fn capped_count(n: int) -> usize {
    if n > usize::MAX {
        usize::MAX
    } else {
        n as usize
    }
}

/// The error for an alert that is not there.
pub open spec fn alert_not_found(alert_id: u128) -> DreasErrorView {
    DreasErrorView::Generic("Alert "@ + hyphenated_text(alert_id) + " not found"@)
}

/// The observer.
#[derive(Debug)]
pub struct ObserverService {
    service_id: u128,
    metrics: StringMap<MetricValue>,
    alerts: Vec<Alert>,
    health_checks: StringMap<HealthCheck>,
}

impl ObserverService {
    /// The identity of the observer.
    pub closed spec fn service_id(&self) -> u128 {
        self.service_id
    }

    /// The latest value of each metric, by name.
    pub closed spec fn metrics(&self) -> Map<Seq<char>, MetricValueView> {
        self.metrics@.map_values(|m: MetricValue| m@)
    }

    /// The names of the metrics in the order in which they first arrived.
    pub closed spec fn metric_names(&self) -> Seq<Seq<char>> {
        self.metrics.keys()
    }

    /// The names of the health checks in the order in which they first
    /// arrived.
    pub closed spec fn health_check_names(&self) -> Seq<Seq<char>> {
        self.health_checks.keys()
    }

    /// The metric table lists its metrics, and the health check table its
    /// checks, in the order of their names.
    pub open spec fn listed(&self) -> bool {
        &&& lists_in_order(self.metric_names(), self.metric_list(), self.metrics())
        &&& lists_in_order(
            self.health_check_names(),
            self.health_check_list(),
            self.health_checks(),
        )
    }

    proof fn lemma_listed(&self)
        requires
            self.metrics.consistent(),
            self.health_checks.consistent(),
        ensures
            self.listed(),
    {
        assert(self.metrics().dom() =~= self.metrics@.dom());
        assert(self.health_checks().dom() =~= self.health_checks@.dom());
        assert forall|i: int| 0 <= i < self.metric_names().len() implies (
        #[trigger] self.metric_list()[i]) == self.metrics()[self.metric_names()[i]] by {
            assert(self.metrics@[self.metrics.keys()[i]] == self.metrics.values()[i]);
        }
        assert forall|i: int| 0 <= i < self.health_check_names().len() implies (
        #[trigger] self.health_check_list()[i])
            == self.health_checks()[self.health_check_names()[i]] by {
            assert(self.health_checks@[self.health_checks.keys()[i]]
                == self.health_checks.values()[i]);
        }
    }

    /// The metrics in the order in which their names first arrived.
    pub closed spec fn metric_list(&self) -> Seq<MetricValueView> {
        self.metrics.values().map_values(|m: MetricValue| m@)
    }

    /// The alerts, oldest first.
    pub closed spec fn alerts(&self) -> Seq<AlertView> {
        alert_views(self.alerts@)
    }

    /// The health checks by name.
    pub closed spec fn health_checks(&self) -> Map<Seq<char>, HealthCheckView> {
        self.health_checks@.map_values(|c: HealthCheck| c@)
    }

    /// The health checks in the order in which their names first arrived.
    pub closed spec fn health_check_list(&self) -> Seq<HealthCheckView> {
        self.health_checks.values().map_values(|c: HealthCheck| c@)
    }

    /// An observer that has seen nothing yet, under a randomly drawn
    /// identity: its tables and their lists are empty.
    pub fn new() -> (observer: Self)
        ensures
            is_random_identity(observer.service_id()),
            observer.metrics() == Map::<Seq<char>, MetricValueView>::empty(),
            observer.metric_names() == Seq::<Seq<char>>::empty(),
            observer.metric_list() == Seq::<MetricValueView>::empty(),
            observer.alerts() == Seq::<AlertView>::empty(),
            observer.health_checks() == Map::<Seq<char>, HealthCheckView>::empty(),
            observer.health_check_names() == Seq::<Seq<char>>::empty(),
            observer.health_check_list() == Seq::<HealthCheckView>::empty(),
            observer.listed(),
    {
        let observer = ObserverService {
            service_id: fresh_id(),
            metrics: StringMap::new(),
            alerts: Vec::new(),
            health_checks: StringMap::new(),
        };
        proof {
            assert(observer.metrics() =~= Map::<Seq<char>, MetricValueView>::empty());
            assert(observer.alerts() =~= Seq::<AlertView>::empty());
            assert(observer.health_checks() =~= Map::<Seq<char>, HealthCheckView>::empty());
            assert(observer.metric_list() =~= Seq::<MetricValueView>::empty());
            assert(observer.health_check_list() =~= Seq::<HealthCheckView>::empty());
            observer.lemma_listed();
        }
        observer
    }

    /// Keeps `value_bits` as the latest value of the metric `name`,
    /// stamped with the current time.
    pub fn record_metric(
        &mut self,
        name: String,
        value_bits: u64,
        unit: String,
        labels: Option<Metadata>,
    ) -> (r: Result<(), DreasError>)
        ensures
            r is Ok,
            final(self).metrics().dom() == old(self).metrics().dom().insert(name@),
            final(self).metrics() == old(self).metrics().insert(
                name@,
                MetricValueView {
                    name: name@,
                    value_bits,
                    unit: unit@,
                    timestamp: final(self).metrics()[name@].timestamp,
                    labels: match labels {
                        Some(l) => l@,
                        None => Map::empty(),
                    },
                },
            ),
            final(self).alerts() == old(self).alerts(),
            final(self).health_checks() == old(self).health_checks(),
            final(self).service_id() == old(self).service_id(),
    {
        let metric = MetricValue {
            name: name.clone(),
            value_bits,
            unit,
            timestamp: current_time(),
            labels: match labels {
                Some(l) => l,
                None => Metadata::new(),
            },
        };
        self.metrics.insert(name, metric);
        proof {
            assert(self.metrics() =~= old(self).metrics().insert(name@, metric@));
            assert(self.metrics().dom() =~= old(self).metrics().dom().insert(name@));
        }
        Ok(())
    }

    /// The alert that a value of the metric `metric_name` raises, if it
    /// raises one.
    pub fn check_metric_alerts(metric_name: &str, value_bits: u64) -> (rule: Option<AlertRule>)
        ensures
            opt_rule_view(rule) == alert_for(metric_name@, value_bits),
    {
        let name = metric_name.to_owned();
        if name == "cpu_usage".to_string() && value_exceeds(value_bits, NINETY_BITS) {
            Some(
                AlertRule {
                    name: "High CPU Usage".to_string(),
                    severity: AlertSeverity::High,
                    message_head: "CPU usage is ".to_string(),
                    message_tail: "%, exceeding threshold".to_string(),
                },
            )
        } else if name == "memory_usage".to_string() && value_exceeds(
            value_bits,
            NINETY_FIVE_BITS,
        ) {
            Some(
                AlertRule {
                    name: "High Memory Usage".to_string(),
                    severity: AlertSeverity::Critical,
                    message_head: "Memory usage is ".to_string(),
                    message_tail: "%, exceeding critical threshold".to_string(),
                },
            )
        } else if name == "error_rate".to_string() && value_exceeds(value_bits, FIVE_BITS) {
            Some(
                AlertRule {
                    name: "High Error Rate".to_string(),
                    severity: AlertSeverity::Medium,
                    message_head: "Error rate is ".to_string(),
                    message_tail: "%, exceeding threshold".to_string(),
                },
            )
        } else {
            None
        }
    }

    /// Raises an alert under a fresh identity at the current time and
    /// returns the identity. The alert is open and goes to the end.
    pub fn create_alert(&mut self, name: String, severity: AlertSeverity, message: String) -> (r:
        Result<u128, DreasError>)
        ensures
            r is Ok,
            final(self).alerts().len() == old(self).alerts().len() + 1,
            final(self).alerts() == old(self).alerts().push(
                AlertView {
                    alert_id: r->Ok_0,
                    name: name@,
                    severity,
                    message: message@,
                    triggered_at: final(self).alerts().last().triggered_at,
                    resolved_at: None,
                    metadata: Map::empty(),
                },
            ),
            final(self).metrics() == old(self).metrics(),
            final(self).health_checks() == old(self).health_checks(),
            final(self).service_id() == old(self).service_id(),
    {
        let alert_id = fresh_id();
        let alert = Alert {
            alert_id,
            name,
            severity,
            message,
            triggered_at: current_time(),
            resolved_at: None,
            metadata: Metadata::new(),
        };
        self.alerts.push(alert);
        proof {
            assert(self.alerts() =~= old(self).alerts().push(alert@));
        }
        Ok(alert_id)
    }

    /// Resolves, at `now`, the first alert with the identity `alert_id`.
    /// It fails where there is none, and then nothing changes.
    pub fn resolve_alert_at(&mut self, alert_id: u128, now: Timestamp) -> (r: Result<
        (),
        DreasError,
    >)
        ensures
            final(self).metrics() == old(self).metrics(),
            final(self).health_checks() == old(self).health_checks(),
            final(self).service_id() == old(self).service_id(),
            match r {
                Ok(_) => exists|at: int|
                    #![trigger old(self).alerts()[at]]
                    {
                        &&& is_first_with_id(old(self).alerts(), alert_id, at)
                        &&& final(self).alerts() == old(self).alerts().update(
                            at,
                            AlertView { resolved_at: Some(now), ..old(self).alerts()[at] },
                        )
                    },
                Err(e) => {
                    &&& e@ == alert_not_found(alert_id)
                    &&& final(self).alerts() == old(self).alerts()
                    &&& no_alert_with_id(old(self).alerts(), alert_id)
                },
            },
    {
        let mut i: usize = 0;
        while i < self.alerts.len()
            invariant
                i <= self.alerts.len(),
                *self == *old(self),
                forall|j: int| 0 <= j < i ==> (#[trigger] self.alerts()[j]).alert_id != alert_id,
            decreases self.alerts.len() - i,
        {
            if self.alerts[i].alert_id == alert_id {
                let mut alert = self.alerts[i].clone();
                alert.resolved_at = Some(now);
                let ghost view = alert@;
                self.alerts.set(i, alert);
                proof {
                    assert(old(self).alerts()[i as int] == old(self).alerts@[i as int]@);
                    assert(self.alerts() =~= old(self).alerts().update(i as int, view));
                    assert(is_first_with_id(old(self).alerts(), alert_id, i as int));
                }
                return Ok(());
            }
            i += 1;
        }
        let mut message = String::from_str("Alert ");
        message.append(id_text(alert_id).as_str());
        message.append(" not found");
        Err(DreasError::Generic(message))
    }

    /// Resolves, at the current time, the first alert with the identity
    /// `alert_id`; see [`Self::resolve_alert_at`].
    pub fn resolve_alert(&mut self, alert_id: u128) -> (r: Result<(), DreasError>)
        ensures
            final(self).metrics() == old(self).metrics(),
            final(self).health_checks() == old(self).health_checks(),
            final(self).service_id() == old(self).service_id(),
            match r {
                Ok(_) => exists|at: int|
                    #![trigger old(self).alerts()[at]]
                    {
                        &&& is_first_with_id(old(self).alerts(), alert_id, at)
                        &&& final(self).alerts()[at].resolved_at is Some
                        &&& final(self).alerts() == old(self).alerts().update(
                            at,
                            AlertView {
                                resolved_at: final(self).alerts()[at].resolved_at,
                                ..old(self).alerts()[at]
                            },
                        )
                    },
                Err(e) => {
                    &&& e@ == alert_not_found(alert_id)
                    &&& final(self).alerts() == old(self).alerts()
                    &&& no_alert_with_id(old(self).alerts(), alert_id)
                },
            },
    {
        let now = current_time();
        self.resolve_alert_at(alert_id, now)
    }

    /// Checks the settings of a health check. The error names the first
    /// one that cannot work.
    pub fn validate_health_check(&self, health_check: &HealthCheck) -> (r: Result<
        (),
        DreasError,
    >)
        ensures
            match r {
                Ok(_) => health_check_fault(health_check@) is None,
                Err(e) => health_check_fault(health_check@) is Some && e@
                    == DreasErrorView::Configuration(health_check_fault(health_check@)->0),
            },
    {
        if health_check.name.as_str().is_empty() {
            return Err(
                DreasError::Configuration("Health check name cannot be empty".to_string()),
            );
        }
        if health_check.interval_seconds == 0 {
            return Err(
                DreasError::Configuration(
                    "Health check interval must be greater than 0".to_string(),
                ),
            );
        }
        if health_check.timeout_seconds == 0 {
            return Err(
                DreasError::Configuration(
                    "Health check timeout must be greater than 0".to_string(),
                ),
            );
        }
        if health_check.timeout_seconds > health_check.interval_seconds {
            return Err(
                DreasError::Configuration(
                    "Health check timeout cannot exceed interval".to_string(),
                ),
            );
        }
        Ok(())
    }

    /// Puts a valid health check into the table under its name, replacing
    /// an earlier one of that name. A faulty one is refused and the table
    /// stays as it was.
    pub fn register_health_check(&mut self, health_check: HealthCheck) -> (r: Result<
        (),
        DreasError,
    >)
        ensures
            final(self).metrics() == old(self).metrics(),
            final(self).alerts() == old(self).alerts(),
            final(self).service_id() == old(self).service_id(),
            match r {
                Ok(_) => health_check_fault(health_check@) is None && final(self).health_checks()
                    == old(self).health_checks().insert(health_check@.name, health_check@),
                Err(e) => health_check_fault(health_check@) is Some && e@
                    == DreasErrorView::Configuration(health_check_fault(health_check@)->0)
                    && final(self).health_checks() == old(self).health_checks(),
            },
    {
        let name = health_check.name.clone();
        match self.validate_health_check(&health_check) {
            Ok(_) => {},
            Err(e) => {
                return Err(e);
            },
        }
        self.health_checks.insert(name, health_check);
        proof {
            assert(self.health_checks() =~= old(self).health_checks().insert(
                health_check@.name,
                health_check@,
            ));
        }
        Ok(())
    }

    /// Runs one check: the probe itself is a stand-in that does nothing,
    /// so the check is healthy where the time that the run took is below
    /// its timeout.
    pub fn run_single_health_check(health_check: &HealthCheck, started: Timestamp, now: Timestamp)
        -> (r: HealthCheck)
        ensures
            r@ == check_after_run(health_check@, now, millis_between(started, now)),
    {
        let millis = elapsed_millis(&started, &now);
        let limit: u128 = health_check.timeout_seconds as u128 * 1000;
        let status = if (millis as u128) < limit {
            HealthStatus::Healthy
        } else {
            HealthStatus::Unhealthy
        };
        HealthCheck {
            name: health_check.name.clone(),
            check_type: health_check.check_type,
            interval_seconds: health_check.interval_seconds,
            timeout_seconds: health_check.timeout_seconds,
            threshold_bits: health_check.threshold_bits,
            last_check: Some(now),
            status,
        }
    }

    /// Runs every health check and returns them as they are afterwards, in
    /// the order of the table. Each check is stamped and found healthy or
    /// unhealthy; its settings and its name stay.
    pub fn run_health_checks(&mut self) -> (r: Result<Vec<HealthCheck>, DreasError>)
        ensures
            r is Ok,
            final(self).metrics() == old(self).metrics(),
            final(self).alerts() == old(self).alerts(),
            final(self).service_id() == old(self).service_id(),
            final(self).health_checks().dom() == old(self).health_checks().dom(),
            final(self).health_check_names() == old(self).health_check_names(),
            final(self).listed(),
            old(self).listed(),
            r->Ok_0@.len() == old(self).health_check_list().len(),
            r->Ok_0@.map_values(|c: HealthCheck| c@) == final(self).health_check_list(),
            forall|i: int|
                0 <= i < old(self).health_check_list().len() ==> was_run(
                    old(self).health_check_list()[i],
                    (#[trigger] r->Ok_0@[i])@,
                ),
    {
        let n = self.health_checks.len();
        let _ = self.metrics.len();
        proof {
            self.lemma_listed();
        }
        let mut results: Vec<HealthCheck> = Vec::new();
        let mut i: usize = 0;
        while i < n
            invariant
                i <= n,
                n == self.health_checks.keys().len(),
                self.health_checks.consistent(),
                old(self).health_checks.consistent(),
                self.health_checks.keys() == old(self).health_checks.keys(),
                self.metrics == old(self).metrics,
                self.metrics.consistent(),
                self.alerts == old(self).alerts,
                self.service_id == old(self).service_id,
                results@.len() == i,
                forall|j: int|
                    0 <= j < i ==> (#[trigger] results@[j])@ == self.health_checks.values()[j]@,
                forall|j: int|
                    i <= j < n ==> self.health_checks.values()[j] == old(self).health_checks.values()[j],
                forall|j: int|
                    0 <= j < i ==> was_run(
                        old(self).health_checks.values()[j]@,
                        (#[trigger] results@[j])@,
                    ),
            decreases n - i,
        {
            let started = current_time();
            let now = current_time();
            let key = self.health_checks.key_at(i).clone();
            let updated = Self::run_single_health_check(self.health_checks.value_at(i), started, now);
            let returned = updated.clone();
            let ghost before = self.health_checks;
            let ghost millis = millis_between(started, now);
            proof {
                assert(before@.contains_key(before.keys()[i as int]));
                assert(was_run(old(self).health_checks.values()[i as int]@, returned@));
            }
            self.health_checks.insert(key, updated);
            proof {
                let after = self.health_checks;
                assert(after.keys() == before.keys());
                assert forall|j: int| 0 <= j < n implies after.values()[j] == (if j == i {
                    updated
                } else {
                    before.values()[j]
                }) by {
                    assert(after@[after.keys()[j]] == after.values()[j]);
                    assert(before@[before.keys()[j]] == before.values()[j]);
                    if j != i {
                        assert(before.keys()[j] != before.keys()[i as int]);
                    }
                }
            }
            results.push(returned);
            i += 1;
        }
        proof {
            self.lemma_listed();
            assert(results@.map_values(|c: HealthCheck| c@) =~= self.health_check_list());
            assert(self.health_checks().dom() =~= self.health_checks@.dom());
            assert(old(self).health_checks().dom() =~= old(self).health_checks@.dom());
            assert(self.health_checks@.dom() =~= old(self).health_checks@.dom()) by {
                assert forall|k: Seq<char>| self.health_checks@.contains_key(k)
                    <==> old(self).health_checks@.contains_key(k) by {
                    assert(self.health_checks.keys().contains(k) == old(self).health_checks.keys().contains(k));
                }
            }
            assert forall|i: int| 0 <= i < old(self).health_check_list().len() implies was_run(
                old(self).health_check_list()[i],
                (#[trigger] results@[i])@,
            ) by {
                assert(old(self).health_check_list()[i] == old(self).health_checks.values()[i]@);
            }
        }
        Ok(results)
    }

    /// The latest values of the metrics, in the order in which their names
    /// first arrived.
    pub fn get_metrics(&self) -> (list: Vec<MetricValue>)
        ensures
            list@.map_values(|m: MetricValue| m@) == self.metric_list(),
            list@.len() == self.metrics().len(),
            self.listed(),
    {
        let n = self.metrics.len();
        let _ = self.health_checks.len();
        proof {
            self.lemma_listed();
            assert(self.metrics().dom() =~= self.metrics@.dom());
        }
        let mut list: Vec<MetricValue> = Vec::new();
        let mut i: usize = 0;
        while i < n
            invariant
                i <= n,
                n == self.metrics.keys().len(),
                self.metrics.consistent(),
                list@.map_values(|m: MetricValue| m@) == self.metric_list().take(i as int),
            decreases n - i,
        {
            let ghost prior = list@.map_values(|m: MetricValue| m@);
            let item = self.metrics.value_at(i).clone();
            list.push(item);
            proof {
                assert(list@.map_values(|m: MetricValue| m@) =~= prior.push(item@));
                assert(self.metric_list().take(i as int).push(self.metric_list()[i as int])
                    =~= self.metric_list().take(i as int + 1));
            }
            i += 1;
        }
        proof {
            assert(self.metric_list().take(n as int) =~= self.metric_list());
        }
        list
    }

    /// The alerts that are not resolved, oldest first.
    pub fn get_active_alerts(&self) -> (list: Vec<Alert>)
        ensures
            alert_views(list@) == self.alerts().filter(is_active()),
    {
        let ghost all = self.alerts();
        let mut list: Vec<Alert> = Vec::new();
        let mut i: usize = 0;
        proof {
            lemma_filter_empty(is_active());
            assert(all.take(0) =~= Seq::<AlertView>::empty());
            assert(alert_views(list@) =~= Seq::<AlertView>::empty());
        }
        while i < self.alerts.len()
            invariant
                i <= self.alerts.len(),
                all == self.alerts(),
                alert_views(list@) == all.take(i as int).filter(is_active()),
            decreases self.alerts.len() - i,
        {
            let alert = &self.alerts[i];
            proof {
                assert(all[i as int] == alert@);
                assert(all.take(i as int).push(alert@) =~= all.take(i as int + 1));
                lemma_filter_push(all.take(i as int), alert@, is_active());
            }
            if alert.resolved_at.is_none() {
                let ghost prior = alert_views(list@);
                list.push(alert.clone());
                proof {
                    assert(alert_views(list@) =~= prior.push(alert@));
                }
            }
            i += 1;
        }
        proof {
            assert(all.take(self.alerts.len() as int) =~= all);
        }
        list
    }

    /// How many alerts are open, and how many of those are critical.
    fn count_active_alerts(&self) -> (counts: (usize, usize))
        ensures
            counts.0 == self.alerts().filter(is_active()).len(),
            counts.1 == self.alerts().filter(is_active_critical()).len(),
    {
        let ghost all = self.alerts();
        let mut active: usize = 0;
        let mut critical: usize = 0;
        let mut i: usize = 0;
        proof {
            lemma_filter_empty(is_active());
            lemma_filter_empty(is_active_critical());
            assert(all.take(0) =~= Seq::<AlertView>::empty());
        }
        while i < self.alerts.len()
            invariant
                i <= self.alerts.len(),
                all == self.alerts(),
                active == all.take(i as int).filter(is_active()).len(),
                critical == all.take(i as int).filter(is_active_critical()).len(),
                active <= i,
                critical <= i,
            decreases self.alerts.len() - i,
        {
            let alert = &self.alerts[i];
            proof {
                assert(all[i as int] == alert@);
                assert(all.take(i as int).push(alert@) =~= all.take(i as int + 1));
                lemma_filter_push(all.take(i as int), alert@, is_active());
                lemma_filter_push(all.take(i as int), alert@, is_active_critical());
            }
            if alert.resolved_at.is_none() {
                active += 1;
                if alert.severity == AlertSeverity::Critical {
                    critical += 1;
                }
            }
            i += 1;
        }
        proof {
            assert(all.take(self.alerts.len() as int) =~= all);
        }
        (active, critical)
    }

    /// How many health checks have the status `status`.
    fn count_checks(&self, status: HealthStatus) -> (count: usize)
        ensures
            count == self.health_check_list().filter(has_status(status)).len(),
    {
        let n = self.health_checks.len();
        let ghost list = self.health_check_list();
        let mut count: usize = 0;
        let mut i: usize = 0;
        proof {
            lemma_filter_empty(has_status(status));
            assert(list.take(0) =~= Seq::<HealthCheckView>::empty());
        }
        while i < n
            invariant
                i <= n,
                n == self.health_checks.keys().len(),
                self.health_checks.consistent(),
                list == self.health_check_list(),
                count == list.take(i as int).filter(has_status(status)).len(),
                count <= i,
            decreases n - i,
        {
            let check = self.health_checks.value_at(i);
            proof {
                assert(list[i as int] == check@);
                assert(list.take(i as int).push(check@) =~= list.take(i as int + 1));
                lemma_filter_push(list.take(i as int), check@, has_status(status));
            }
            if check.status == status {
                count += 1;
            }
            i += 1;
        }
        proof {
            assert(list.take(n as int) =~= list);
        }
        count
    }

    /// The health of the system in numbers, stamped with the current
    /// time.
    pub fn get_health_summary(&self) -> (summary: HealthSummary)
        ensures
            summary.service_id == self.service_id(),
            summary.total_checks == self.health_checks().len(),
            summary.healthy_checks == self.health_check_list().filter(
                has_status(HealthStatus::Healthy),
            ).len(),
            summary.unhealthy_checks == self.health_check_list().filter(
                has_status(HealthStatus::Unhealthy),
            ).len(),
            summary.active_alerts == self.alerts().filter(is_active()).len(),
            summary.critical_alerts == self.alerts().filter(is_active_critical()).len(),
            summary.metrics_count == self.metrics().len(),
            self.listed(),
    {
        let total_checks = self.health_checks.len();
        let metrics_count = self.metrics.len();
        proof {
            self.lemma_listed();
            assert(self.metrics().dom() =~= self.metrics@.dom());
            assert(self.health_checks().dom() =~= self.health_checks@.dom());
        }
        let healthy_checks = self.count_checks(HealthStatus::Healthy);
        let unhealthy_checks = self.count_checks(HealthStatus::Unhealthy);
        let (active_alerts, critical_alerts) = self.count_active_alerts();
        HealthSummary {
            service_id: self.service_id,
            timestamp: current_time(),
            total_checks,
            healthy_checks,
            unhealthy_checks,
            active_alerts,
            critical_alerts,
            metrics_count,
        }
    }

    /// A snapshot of the observer, stamped with the current time.
    pub fn get_stats(&self) -> (stats: ObserverStats)
        ensures
            stats.service_id == self.service_id(),
            stats.total_metrics == self.metrics().len(),
            stats.total_alerts == self.alerts().len(),
            stats.active_alerts == self.alerts().filter(is_active()).len(),
            stats.health_checks == self.health_checks().len(),
    {
        let total_metrics = self.metrics.len();
        let health_checks = self.health_checks.len();
        proof {
            assert(self.metrics().dom() =~= self.metrics@.dom());
            assert(self.health_checks().dom() =~= self.health_checks@.dom());
        }
        let (active_alerts, _) = self.count_active_alerts();
        ObserverStats {
            service_id: self.service_id,
            total_metrics,
            total_alerts: self.alerts.len(),
            active_alerts,
            health_checks,
            created_at: current_time(),
        }
    }

    /// Drops, at `now`, the metrics that were last recorded at or before
    /// the instant `retention_hours` hours before `now`, and the alerts
    /// that were resolved at or before it. Open alerts stay. Returns how
    /// many metrics and alerts left.
    pub fn cleanup_old_data_at(&mut self, retention_hours: u64, now: Timestamp) -> (r: Result<
        usize,
        DreasError,
    >)
        ensures
            r is Ok,
            final(self).health_checks() == old(self).health_checks(),
            final(self).service_id() == old(self).service_id(),
            final(self).alerts() == old(self).alerts().filter(alert_is_kept(now, retention_hours)),
            final(self).metrics() == fresh_metrics(old(self).metrics(), now, retention_hours),
            r->Ok_0 == capped_count(
                (old(self).metrics().len() - final(self).metrics().len()) + (old(self).alerts().len()
                    - final(self).alerts().len()),
            ),
    {
        let initial_metrics = self.metrics.len();
        let initial_alerts = self.alerts.len();
        proof {
            assert(self.metrics().dom() =~= self.metrics@.dom());
        }
        let mut keep: Vec<bool> = Vec::new();
        let mut i: usize = 0;
        while i < initial_metrics
            invariant
                i <= initial_metrics,
                initial_metrics == self.metrics.keys().len(),
                self.metrics.consistent(),
                keep@.len() == i,
                forall|j: int|
                    0 <= j < i ==> #[trigger] keep@[j]
                        == !self.metrics.values()[j].timestamp.at_least_hours_before(
                        now,
                        retention_hours as nat,
                    ),
            decreases initial_metrics - i,
        {
            let fresh = !self.metrics.value_at(i).timestamp.is_at_least_hours_before(
                &now,
                retention_hours,
            );
            keep.push(fresh);
            i += 1;
        }
        let ghost before = self.metrics;
        self.metrics.retain_flagged(&keep);
        proof {
            let flagged = StringMap::<MetricValue>::flagged_keys(before.keys(), keep@);
            let metrics = old(self).metrics();
            let wanted = Set::new(
                |name: Seq<char>|
                    metrics.contains_key(name) && !metrics[name].timestamp.at_least_hours_before(
                        now,
                        retention_hours as nat,
                    ),
            );
            assert forall|name: Seq<char>| before@.contains_key(name) implies (flagged.contains(
                name,
            ) <==> wanted.contains(name)) by {
                assert(before.keys().contains(name));
                let p = choose|p: int| 0 <= p < before.keys().len() && before.keys()[p] == name;
                assert(before@[before.keys()[p]] == before.values()[p]);
                if flagged.contains(name) {
                    let q = choose|q: int|
                        0 <= q < before.keys().len() && before.keys()[q] == name && keep@[q];
                    assert(p == q);
                }
            }
            assert(self.metrics() =~= metrics.restrict(wanted));
            assert(self.metrics().dom() =~= self.metrics@.dom());
        }
        let remaining_metrics = self.metrics.len();
        let mut all: Vec<Alert> = Vec::new();
        std::mem::swap(&mut all, &mut self.alerts);
        let ghost old_alerts = alert_views(all@);
        let ghost kept_test = alert_is_kept(now, retention_hours);
        let mut kept: Vec<Alert> = Vec::new();
        proof {
            lemma_filter_empty(kept_test);
            assert(old_alerts.take(0) =~= Seq::<AlertView>::empty());
            assert(alert_views(kept@) =~= Seq::<AlertView>::empty());
        }
        for alert in it: all
            invariant
                alert_views(it.seq()) == old_alerts,
                kept_test == alert_is_kept(now, retention_hours),
                alert_views(kept@) == old_alerts.take(it.index() as int).filter(kept_test),
        {
            proof {
                let seen = old_alerts.take(it.index() as int);
                assert(seen.push(alert@) =~= old_alerts.take(it.index() as int + 1));
                lemma_filter_push(seen, alert@, kept_test);
            }
            let stays = match &alert.resolved_at {
                None => true,
                Some(resolved) => !resolved.is_at_least_hours_before(&now, retention_hours),
            };
            if stays {
                let ghost prior = alert_views(kept@);
                kept.push(alert);
                proof {
                    assert(alert_views(kept@) =~= prior.push(alert@));
                }
            }
        }
        proof {
            assert(old_alerts.take(old_alerts.len() as int) =~= old_alerts);
            lemma_filter_members(old_alerts, kept_test);
        }
        let removed_metrics = initial_metrics - remaining_metrics;
        let removed_alerts = initial_alerts - kept.len();
        self.alerts = kept;
        let total_removed = if removed_metrics > usize::MAX - removed_alerts {
            usize::MAX
        } else {
            removed_metrics + removed_alerts
        };
        Ok(total_removed)
    }

    /// Drops the metrics and the resolved alerts that are older than
    /// `retention_hours` hours at the current time; see
    /// [`Self::cleanup_old_data_at`].
    pub fn cleanup_old_data(&mut self, retention_hours: u64) -> (r: Result<usize, DreasError>)
        ensures
            r is Ok,
            final(self).health_checks() == old(self).health_checks(),
            final(self).service_id() == old(self).service_id(),
            exists|now: Timestamp|
                #![trigger alert_is_kept(now, retention_hours)]
                final(self).alerts() == old(self).alerts().filter(
                    alert_is_kept(now, retention_hours),
                ),
            final(self).alerts().len() <= old(self).alerts().len(),
    {
        let now = current_time();
        let r = self.cleanup_old_data_at(retention_hours, now);
        proof {
            lemma_filter_members(old(self).alerts(), alert_is_kept(now, retention_hours));
        }
        r
    }
}

} // verus!
