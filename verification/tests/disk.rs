use memfaultd::metrics::system_metrics::disk::{
    calc_bytes_written_reading, get_tracked_disks, lifetime_readings, DiskMetricReading,
    DiskMetricsCollector, DiskMetricsError, DiskRawReadings, DiskReadError, MmcLifeTime,
    LIFETIME_READING_INTERVAL_NS, SECTOR_SIZE,
};
use memfaultd::metrics::system_metrics::diskstats::DiskstatsMetricsConfig;
use memfaultd::util::name_map::NameMap;

fn raw(lifetime: Option<Result<Option<MmcLifeTime>, DiskReadError>>) -> DiskRawReadings {
    DiskRawReadings {
        disk_name: "mmcblk0".to_string(),
        lifetime,
        product_name: Some("SG123".to_string()),
        manufacturer_id: Some("0x00015".to_string()),
        sector_count: Some(100),
        manufacture_date: Some("11/2023".to_string()),
        revision: Some("1.0".to_string()),
        serial: Some("0x1234567890".to_string()),
    }
}

fn stats(sectors: u64) -> Vec<(String, Vec<u64>)> {
    vec![("mmcblk0".to_string(), vec![0, 0, 0, 0, 0, 0, sectors, 0])]
}

fn names(readings: &[DiskMetricReading]) -> Vec<String> {
    readings
        .iter()
        .map(|r| match r {
            DiskMetricReading::Gauge { key, .. }
            | DiskMetricReading::Counter { key, .. }
            | DiskMetricReading::ReportTag { key, .. } => key.as_str().to_string(),
        })
        .collect()
}

const LIFETIME: MmcLifeTime = MmcLifeTime { lifetime_a_pct: Some(90), lifetime_b_pct: Some(85) };

#[test]
fn test_get_disk_metrics() {
    let mut collector = DiskMetricsCollector::new();
    let now: u128 = 10 * LIFETIME_READING_INTERVAL_NS;
    assert!(collector.should_read_lifetime("mmcblk0", now));
    let metrics = collector
        .build_disk_metrics(raw(Some(Ok(Some(LIFETIME)))), &stats(1000), now)
        .unwrap();
    assert_eq!(metrics.len(), 8);
    assert_eq!(
        names(&metrics),
        vec![
            "diskstats/mmcblk0/lifetime_remaining_pct",
            "diskstats/mmcblk0/lifetime_b_remaining_pct",
            "diskstats/mmcblk0/name",
            "diskstats/mmcblk0/manufacturer_id",
            "diskstats/mmcblk0/total_size_bytes",
            "diskstats/mmcblk0/manufacture_date",
            "diskstats/mmcblk0/revision",
            "diskstats/mmcblk0/serial",
        ]
    );
    match &metrics[0] {
        DiskMetricReading::Gauge { value, .. } => assert_eq!(*value, 10),
        _ => panic!("expected a gauge"),
    }
    match &metrics[4] {
        DiskMetricReading::Gauge { value, .. } => assert_eq!(*value, 100 * SECTOR_SIZE),
        _ => panic!("expected a gauge"),
    }
    // the lifetime was read just now: not again before an hour has passed
    assert!(!collector.should_read_lifetime("mmcblk0", now + 1));
    assert!(collector.should_read_lifetime("mmcblk0", now + LIFETIME_READING_INTERVAL_NS));
    let metrics = collector
        .build_disk_metrics(raw(Some(Ok(Some(LIFETIME)))), &stats(2000), now + LIFETIME_READING_INTERVAL_NS)
        .unwrap();
    assert_eq!(metrics.len(), 9);
    match &metrics[2] {
        DiskMetricReading::Counter { key, value } => {
            assert_eq!(key.as_str(), "diskstats/mmcblk0/bytes_written");
            assert_eq!(*value, 1000 * SECTOR_SIZE);
        }
        _ => panic!("expected a counter"),
    }
}

#[test]
fn test_get_disk_metrics_without_lifetimes() {
    let mut collector = DiskMetricsCollector::new();
    let none = MmcLifeTime { lifetime_a_pct: None, lifetime_b_pct: None };
    let hour = LIFETIME_READING_INTERVAL_NS;
    let metrics = collector.build_disk_metrics(raw(Some(Ok(Some(none)))), &stats(1000), hour).unwrap();
    assert_eq!(collector.prev_sector_reading("mmcblk0"), Some(1000));
    assert_eq!(metrics.len(), 6);
    let metrics = collector
        .build_disk_metrics(raw(Some(Ok(Some(none)))), &stats(2000), 2 * hour)
        .unwrap();
    assert_eq!(collector.prev_sector_reading("mmcblk0"), Some(2000));
    assert_eq!(metrics.len(), 7);
}

#[test]
fn get_disk_metrics_multiple_disks() {
    let mut collector = DiskMetricsCollector::new();
    let hour = LIFETIME_READING_INTERVAL_NS;
    let second = || DiskRawReadings {
        disk_name: "mmcblk1".to_string(),
        lifetime: Some(Ok(Some(MmcLifeTime { lifetime_a_pct: Some(95), lifetime_b_pct: Some(90) }))),
        product_name: Some("SG456".to_string()),
        manufacturer_id: Some("0x00016".to_string()),
        sector_count: Some(200),
        manufacture_date: Some("12/2023".to_string()),
        revision: Some("1.1".to_string()),
        serial: Some("0x0987654321".to_string()),
    };
    let both = |sectors: u64| {
        vec![
            ("mmcblk0".to_string(), vec![0, 0, 0, 0, 0, 0, sectors, 0]),
            ("mmcblk1".to_string(), vec![0, 0, 0, 0, 0, 0, sectors, 0]),
        ]
    };
    let m1 = collector.build_disk_metrics(raw(Some(Ok(Some(LIFETIME)))), &both(1000), hour).unwrap();
    assert_eq!(m1.len(), 8);
    let m2 = collector.build_disk_metrics(second(), &both(1000), hour).unwrap();
    assert_eq!(m2.len(), 8);
    let m1 = collector
        .build_disk_metrics(raw(Some(Ok(Some(LIFETIME)))), &both(2000), 2 * hour)
        .unwrap();
    assert_eq!(m1.len(), 9);
    let m2 = collector.build_disk_metrics(second(), &both(2000), 2 * hour).unwrap();
    assert_eq!(m2.len(), 9);
}

#[test]
fn test_lifetime_metric_underflow() {
    let mut collector = DiskMetricsCollector::new();
    let lifetime = MmcLifeTime { lifetime_a_pct: Some(120), lifetime_b_pct: Some(80) };
    let metrics = collector.build_disk_metrics(raw(Some(Ok(Some(lifetime)))), &stats(1000), 0).unwrap();
    assert_eq!(metrics.len(), 7);
    assert_eq!(names(&metrics)[0], "diskstats/mmcblk0/lifetime_b_remaining_pct");
}

#[test]
fn test_lifetime_interval_update() {
    let mut collector = DiskMetricsCollector::new();
    let now = LIFETIME_READING_INTERVAL_NS;
    assert!(collector.should_read_lifetime("mmcblk0", now));
    let metrics = collector.build_disk_metrics(raw(Some(Ok(Some(LIFETIME)))), &vec![], now).unwrap();
    assert_eq!(metrics.len(), 8);
    assert_eq!(collector.last_lifetime_reading("mmcblk0"), Some(now));
}

#[test]
fn test_lifetime_interval_read() {
    let mut collector = DiskMetricsCollector::new();
    let hour = LIFETIME_READING_INTERVAL_NS;
    // read an hour ago: read again
    collector.build_disk_metrics(raw(Some(Ok(Some(LIFETIME)))), &vec![], hour).unwrap();
    let read = collector.should_read_lifetime("mmcblk0", 2 * hour);
    assert!(read);
    let lifetime = if read { Some(Ok(Some(LIFETIME))) } else { None };
    let metrics = collector.build_disk_metrics(raw(lifetime), &vec![], 2 * hour).unwrap();
    assert_eq!(metrics.len(), 8);
    // read just now: not again
    let read = collector.should_read_lifetime("mmcblk0", 2 * hour);
    assert!(!read);
    let lifetime = if read { Some(Ok(Some(LIFETIME))) } else { None };
    let metrics = collector.build_disk_metrics(raw(lifetime), &vec![], 2 * hour).unwrap();
    assert_eq!(metrics.len(), 6);
    // a clock that went backwards does not read
    assert!(!collector.should_read_lifetime("mmcblk0", 0));
    assert!(collector.should_read_lifetime("mmcblk1", 0));
}

#[test]
fn failed_lifetime_read_fails_the_disk_and_keeps_no_state() {
    let mut collector = DiskMetricsCollector::new();
    assert_eq!(
        collector.build_disk_metrics(raw(Some(Err(DiskReadError))), &stats(1000), 5).err(),
        Some(DiskMetricsError::LifetimeRead)
    );
    assert!(collector.should_read_lifetime("mmcblk0", 5));
    // sectors were not kept: the next collection has no bytes written
    let metrics = collector.build_disk_metrics(raw(None), &stats(2000), 6).unwrap();
    assert_eq!(metrics.len(), 6);
}

#[test]
fn test_calc_bytes_reading_overflow() {
    let cases: [(Option<u64>, u64, Option<u64>); 5] = [
        (Some(1000), 500, None),
        (Some(200), 500, Some(300 * SECTOR_SIZE)),
        (Some(1000), 1000, Some(0)),
        (None, 500, None),
        (Some(0), u64::MAX, None),
    ];
    for (prev, cur, diff) in cases {
        let mut prev_readings = NameMap::new();
        if let Some(p) = prev {
            prev_readings.insert("mmcblk0", p);
        }
        let result = calc_bytes_written_reading(cur, &mut prev_readings, "mmcblk0").unwrap();
        match diff {
            Some(d) => match result {
                Some(DiskMetricReading::Counter { value, .. }) => assert_eq!(value, d),
                _ => panic!("expected a counter reading"),
            },
            None => assert!(result.is_none()),
        }
        assert_eq!(prev_readings.get("mmcblk0"), Some(cur));
    }
}

#[test]
fn test_lifetime_readings() {
    let readings = lifetime_readings("mmcblk0", Some(LIFETIME)).unwrap();
    assert_eq!(readings.len(), 2);
    assert!(lifetime_readings("mmcblk0", None).unwrap().is_empty());
    assert_eq!(
        lifetime_readings("mmcblké", Some(LIFETIME)).err(),
        Some(DiskMetricsError::InvalidKey)
    );
}

#[test]
fn test_get_tracked_disks() {
    let entries = vec!["mmcblk0".to_string(), "nvme0n1".to_string()];
    assert_eq!(get_tracked_disks(&DiskstatsMetricsConfig::Auto, &entries), vec!["/dev/mmcblk0"]);
    let config = DiskstatsMetricsConfig::Devices(vec!["mmcblk0".to_string(), "sda".to_string()]);
    assert_eq!(get_tracked_disks(&config, &vec![]), vec!["/dev/mmcblk0"]);
}

#[test]
fn name_map_insert_and_get() {
    let mut m: NameMap<u64> = NameMap::new();
    assert_eq!(m.get("a"), None);
    assert_eq!(m.insert("a", 1), None);
    assert_eq!(m.insert("b", 2), None);
    assert_eq!(m.insert("a", 3), Some(1));
    assert_eq!(m.get("a"), Some(3));
    assert_eq!(m.get("b"), Some(2));
}
