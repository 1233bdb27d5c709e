use memfaultd::config::SessionConfig;
use memfaultd::metrics::connectivity::connectivity_monitor::ConnectivityMonitor;
use memfaultd::metrics::core_metrics::CoreMetricKeys;
use memfaultd::metrics::metric_report::{plan_session_start, CapturedMetrics, SessionReports, SessionStart};
use memfaultd::metrics::metric_string_key::MetricStringKey;
use memfaultd::metrics::session_name::SessionName;
use memfaultd::metrics::system_metrics::disk_space::{disk_space_keys, mount_bytes, DiskSpaceInfo};
use memfaultd::util::named_store::NamedStore;

fn readings(r: &[(MetricStringKey, u128)]) -> Vec<(String, u128)> {
    r.iter().map(|(k, v)| (k.as_str().to_string(), *v)).collect()
}

#[test]
fn connectivity_first_check_counts_nothing() {
    let mut monitor = ConnectivityMonitor::new();
    let r = monitor.update_connected_time(1_000_000_000, true);
    assert_eq!(
        readings(&r),
        vec![
            ("connectivity_connected_time_ms".to_string(), 0),
            ("connectivity_expected_time_ms".to_string(), 0)
        ]
    );
}

#[test]
fn connectivity_counts_time_since_last_check() {
    let mut monitor = ConnectivityMonitor::new();
    monitor.update_connected_time(1_000_000_000, true);
    let r = monitor.update_connected_time(3_500_000_000, true);
    assert_eq!(
        readings(&r),
        vec![
            ("connectivity_connected_time_ms".to_string(), 2500),
            ("connectivity_expected_time_ms".to_string(), 2500)
        ]
    );
    let r = monitor.update_connected_time(4_500_000_000, false);
    assert_eq!(
        readings(&r),
        vec![
            ("connectivity_connected_time_ms".to_string(), 0),
            ("connectivity_expected_time_ms".to_string(), 1000)
        ]
    );
}

#[test]
fn named_store_replaces_previous_value() {
    let mut store: NamedStore<u64> = NamedStore::new();
    assert_eq!(store.replace("eth0", 1), None);
    assert_eq!(store.replace("wlan0", 2), None);
    assert_eq!(store.replace("eth0", 3), Some(1));
    assert_eq!(store.replace("eth0", 4), Some(3));
    assert_eq!(store.replace("wlan0", 5), Some(2));
}

#[test]
fn mount_bytes_of_statvfs() {
    let info = DiskSpaceInfo { block_size: 4096, blocks: 1000, blocks_free: 250 };
    assert_eq!(mount_bytes(&info), Some((4_096_000, 1_024_000)));
    let empty = DiskSpaceInfo { block_size: 4096, blocks: 0, blocks_free: 0 };
    assert_eq!(mount_bytes(&empty), None);
}

#[test]
fn disk_space_keys_of_device() {
    let (free, used) = disk_space_keys("sda1").ok().unwrap();
    assert_eq!(free.as_str(), "disk_space/sda1/free_bytes");
    assert_eq!(used.as_str(), "disk_space/sda1/used_bytes");
}

#[test]
fn session_start_plan() {
    let name = SessionName::from_str("test-session").ok().unwrap();
    let configs = vec![SessionConfig {
        name: name.clone(),
        captured_metrics: vec![MetricStringKey::from("foo")],
    }];
    let core = CoreMetricKeys::get_session_core_metrics();
    let mut sessions: SessionReports<u32> = SessionReports::new();
    match plan_session_start(&sessions, &configs, &core, &name) {
        Some(SessionStart::Start(CapturedMetrics::Metrics(set))) => {
            assert!(set.contains(&MetricStringKey::from("foo")));
            assert!(set.contains(&MetricStringKey::from("connectivity_connected_time_ms")));
            assert!(!set.contains(&MetricStringKey::from("bar")));
        }
        _ => panic!("expected a new report"),
    }
    assert!(sessions.start(name.clone(), 0));
    assert!(matches!(
        plan_session_start(&sessions, &configs, &core, &name),
        Some(SessionStart::AlreadyOngoing)
    ));
    let other = SessionName::from_str("other").ok().unwrap();
    assert!(plan_session_start(&sessions, &configs, &core, &other).is_none());
}
