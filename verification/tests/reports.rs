use memfaultd::metrics::battery::battery_reading_handler::{battery_reading_route, PostRoute};
use memfaultd::metrics::metrics_event_handler::{metrics_response_status, metrics_route};
use memfaultd::config::SessionConfig;
use memfaultd::metrics::connectivity::report_sync_event_handler::{sync_event_action, SyncEventAction};
use memfaultd::metrics::core_metrics::CoreMetricKeys;
use memfaultd::metrics::metric_report::{
    captured_metric_keys_for_report, histo_min_max_keys, histogram_report_keys, CapturedMetrics,
    MetricReportType, SessionReports,
};
use memfaultd::metrics::metric_string_key::MetricStringKey;
use memfaultd::metrics::session_event_handler::{session_route, SessionRoute};
use memfaultd::metrics::session_name::SessionName;

fn session(name: &str, keys: &[&'static str]) -> SessionConfig {
    SessionConfig {
        name: SessionName::from_str(name).ok().unwrap(),
        captured_metrics: keys.iter().map(|k| MetricStringKey::from(k)).collect(),
    }
}

#[test]
fn captured_metrics_of_reports() {
    let configs = vec![session("test-session", &["foo", "bar"]), session("other", &["baz"])];
    let core = CoreMetricKeys::get_session_core_metrics();
    assert!(matches!(
        captured_metric_keys_for_report(&configs, &core, &MetricReportType::Heartbeat),
        Some(CapturedMetrics::All)
    ));
    assert!(matches!(
        captured_metric_keys_for_report(&configs, &core, &MetricReportType::DailyHeartbeat),
        Some(CapturedMetrics::All)
    ));
    let name = SessionName::from_str("test-session").ok().unwrap();
    match captured_metric_keys_for_report(&configs, &core, &MetricReportType::Session(name)) {
        Some(CapturedMetrics::Metrics(set)) => {
            assert_eq!(set.metric_keys.len(), 2 + core.string_keys.len());
            assert_eq!(set.metric_keys[0].as_str(), "foo");
            assert_eq!(set.metric_keys[1].as_str(), "bar");
            assert!(set.contains(&MetricStringKey::from("operational_crashes")));
            assert!(!set.contains(&MetricStringKey::from("baz")));
            assert_eq!(set.wildcard_metric_keys.len(), core.wildcard_pattern_keys.len());
        }
        _ => panic!("expected the metrics of the session"),
    }
    let unknown = SessionName::from_str("unknown").ok().unwrap();
    assert!(captured_metric_keys_for_report(&configs, &core, &MetricReportType::Session(unknown)).is_none());
}

#[test]
fn sync_events() {
    assert!(matches!(sync_event_action("/v1/sync/success", false, true), SyncEventAction::NotHandled));
    assert!(matches!(sync_event_action("/v1/other", true, true), SyncEventAction::NotHandled));
    assert!(matches!(sync_event_action("/v1/sync/success", true, false), SyncEventAction::Respond(None)));
    match sync_event_action("/v1/sync/success", true, true) {
        SyncEventAction::Respond(Some(k)) => assert_eq!(k.as_str(), "sync_successful"),
        _ => panic!("expected a counter"),
    }
    match sync_event_action("/v1/sync/failure", true, true) {
        SyncEventAction::Respond(Some(k)) => assert_eq!(k.as_str(), "sync_failure"),
        _ => panic!("expected a counter"),
    }
}

#[test]
fn session_routes() {
    assert_eq!(session_route("/v1/session/start", true, true), SessionRoute::Start);
    assert_eq!(session_route("/v1/session/end", true, true), SessionRoute::End);
    assert_eq!(session_route("/v1/session/end", true, false), SessionRoute::Ignore);
    assert_eq!(session_route("/v1/session/end", false, true), SessionRoute::NotHandled);
    assert_eq!(session_route("/v1/metrics", true, true), SessionRoute::NotHandled);
}

fn min_max_key_names(name: &'static str) -> Vec<String> {
    histogram_report_keys(&histo_min_max_keys(), &MetricStringKey::from(name))
        .iter()
        .map(|k| k.as_str().to_string())
        .collect()
}

#[test]
fn histogram_min_max_keys() {
    assert_eq!(min_max_key_names("foo"), vec!["foo"]);
    assert_eq!(
        min_max_key_names("cpu_usage_memfaultd_pct"),
        vec!["cpu_usage_memfaultd_pct_max", "cpu_usage_memfaultd_pct_min", "cpu_usage_memfaultd_pct"]
    );
    assert_eq!(
        min_max_key_names("memory_pct"),
        vec!["memory_pct_max", "memory_pct_min", "memory_pct"]
    );
    assert_eq!(min_max_key_names("memory_systemd_pct").len(), 3);
    assert_eq!(min_max_key_names("interface/eth0/bytes_per_second/rx").len(), 3);
    assert_eq!(min_max_key_names("interface/eth0/packets_per_second/rx").len(), 1);
    assert_eq!(min_max_key_names("thermal/cpu/temp").len(), 3);
}

#[test]
fn test_start_session_twice() {
    let name = SessionName::from_str("test-session").ok().unwrap();
    let mut sessions: SessionReports<Vec<u32>> = SessionReports::new();
    assert!(!sessions.is_ongoing(&name));
    assert!(sessions.start(name.clone(), vec![1]));
    // The second start keeps the report of the first one.
    assert!(!sessions.start(name.clone(), vec![2]));
    assert!(sessions.is_ongoing(&name));
    assert_eq!(sessions.stop(&name), Some(vec![1]));
    assert_eq!(sessions.stop(&name), None);
    assert!(!sessions.is_ongoing(&name));
}

#[test]
fn test_unconfigured_session_name_fails() {
    let configs = vec![session("test-session", &["foo"])];
    let core = CoreMetricKeys::get_session_core_metrics();
    let unknown = SessionName::from_str("other-session").ok().unwrap();
    assert!(captured_metric_keys_for_report(&configs, &core, &MetricReportType::Session(unknown))
        .is_none());
    assert!(captured_metric_keys_for_report(&vec![], &core, &MetricReportType::Heartbeat).is_some());
}

#[test]
fn sessions_are_independent() {
    let a = SessionName::from_str("session-a").ok().unwrap();
    let b = SessionName::from_str("session-b").ok().unwrap();
    let mut sessions: SessionReports<&str> = SessionReports::new();
    assert!(sessions.start(a.clone(), "report a"));
    assert!(sessions.start(b.clone(), "report b"));
    assert_eq!(sessions.stop(&a), Some("report a"));
    assert!(sessions.is_ongoing(&b));
    assert_eq!(sessions.stop(&b), Some("report b"));
}

#[test]
fn battery_and_metrics_routes() {
    assert_eq!(battery_reading_route("/v1/battery/add_reading", true, true), PostRoute::Process);
    assert_eq!(battery_reading_route("/v1/battery/add_reading", true, false), PostRoute::Ignore);
    assert_eq!(battery_reading_route("/v1/battery/add_reading", false, true), PostRoute::NotHandled);
    assert_eq!(battery_reading_route("/v1/metrics", true, true), PostRoute::NotHandled);
    assert_eq!(metrics_route("/v1/metrics", true, true), PostRoute::Process);
    assert_eq!(metrics_route("/v1/metrics", true, false), PostRoute::Ignore);
    assert_eq!(metrics_route("/v1/metric", true, true), PostRoute::NotHandled);
    assert_eq!(metrics_response_status(false, false), 400);
    assert_eq!(metrics_response_status(true, false), 500);
    assert_eq!(metrics_response_status(true, true), 200);
}
