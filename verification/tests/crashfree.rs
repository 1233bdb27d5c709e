use memfaultd::metrics::crashfree_interval::{
    full_interval_elapsed_since, CrashFreeIntervalTracker, TimeMod, HOUR_NS,
};

const SEC: u128 = 1_000_000_000;

#[test]
fn test_counting_intervals() {
    let now = 3600 * SEC;
    let d10 = 10 * SEC;
    assert_eq!(full_interval_elapsed_since(d10, now, now), TimeMod { count: 0, mark: now });
    assert_eq!(
        full_interval_elapsed_since(d10, now - 10 * SEC, now),
        TimeMod { count: 1, mark: now }
    );
    assert_eq!(
        full_interval_elapsed_since(d10, now - 25 * SEC, now),
        TimeMod { count: 2, mark: now - 5 * SEC }
    );
    // a mark in the future restarts from now
    assert_eq!(full_interval_elapsed_since(d10, now + SEC, now), TimeMod { count: 0, mark: now });
}

fn counts(readings: &[(memfaultd::metrics::metric_string_key::MetricStringKey, u64)]) -> (u64, u64) {
    assert_eq!(readings.len(), 3);
    assert_eq!(readings[0].0.as_str(), "operational_hours");
    assert_eq!(readings[1].0.as_str(), "operational_crashfree_hours");
    assert_eq!(readings[2].0.as_str(), "operational_crashes");
    (readings[0].1, readings[1].1)
}

#[test]
fn test_counting_hours() {
    let mut tracker = CrashFreeIntervalTracker::new_hourly(0);
    assert_eq!(counts(&tracker.update(7200 * SEC)), (2, 2));
}

#[test]
fn test_counting_minutes() {
    let mut tracker = CrashFreeIntervalTracker::new(
        60 * SEC,
        "operational_hours",
        "operational_crashfree_hours",
        "operational_crashes",
        0,
    );
    tracker.capture_crash_at(3600 * SEC);
    let readings = tracker.update(7200 * SEC);
    assert_eq!(counts(&readings), (120, 60));
    assert_eq!(readings[2].1, 1);
}

#[test]
fn test_30min_heartbeat_with_crash() {
    let mut tracker = CrashFreeIntervalTracker::new_hourly(0);
    assert_eq!(counts(&tracker.update(1800 * SEC)), (0, 0));
    tracker.capture_crash_at(1800 * SEC);
    assert_eq!(counts(&tracker.update(3600 * SEC)), (1, 0));
    assert_eq!(counts(&tracker.update(5400 * SEC)), (0, 1));
    assert_eq!(counts(&tracker.update(7200 * SEC)), (1, 0));
}

#[test]
fn test_180min_heartbeat_with_one_crash() {
    let mut tracker = CrashFreeIntervalTracker::new_hourly(0);
    let mut t = 3 * HOUR_NS;
    assert_eq!(counts(&tracker.update(t)), (3, 3));
    t += 170 * 60 * SEC;
    tracker.capture_crash_at(t);
    t += 10 * 60 * SEC;
    assert_eq!(counts(&tracker.update(t)), (3, 0));
    t += 10 * 60 * SEC;
    tracker.capture_crash_at(t);
    t += 170 * 60 * SEC;
    assert_eq!(counts(&tracker.update(t)), (3, 2));
}
