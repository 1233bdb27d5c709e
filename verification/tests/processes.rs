use memfaultd::memfaultd::{
    loop_continuation, loop_result, should_collect_and_upload, should_refresh_device_config,
    sync_result_metric, upload_schedule, LoopContinuation, MemfaultLoopResult,
};
use memfaultd::metrics::core_metrics::{METRIC_MF_SYNC_FAILURE, METRIC_MF_SYNC_SUCCESS};
use memfaultd::metrics::system_metrics::config::{
    CpuMetricsConfig, MemoryMetricsConfig, SystemMetricConfig, ThermalMetricsConfig,
};
use memfaultd::metrics::system_metrics::processes::{
    is_pid_dir_name, parse_pid_and_comm, parse_state, process_metric_keys,
    ProcessMetricsCollector, ProcessMetricsConfig,
};
use memfaultd::metrics::system_metrics::{enabled_metric_families, MetricFamily};

const MEMFAULTD_LINE: &str = "55270 (memfaultd) S 1 55270 55270 0 -1 4194368 825 0 0 0 155 102 0 0 20 0 19 0 18548522 1411293184 4397 18446744073709551615 1 1 0 0 0 0 0 4096 17987 0 0 0 17 7 0 0 0 0 0 0 0 0 0 0 0 0 0";

#[test]
fn test_parse_single_line() {
    let (pid, after_comm) = parse_pid_and_comm(MEMFAULTD_LINE).unwrap();
    assert_eq!(pid, 55270);
    assert_eq!(after_comm, "55270 (memfaultd)".chars().count());
    let after_state = parse_state(MEMFAULTD_LINE, after_comm).unwrap();
    assert_eq!(after_state, "55270 (memfaultd) S".chars().count());
}

#[test]
fn stat_head_rejects_malformed_lines() {
    assert_eq!(parse_pid_and_comm("(memfaultd) S 1"), None);
    assert_eq!(parse_pid_and_comm("55270(memfaultd) S 1"), None);
    assert_eq!(parse_pid_and_comm("55270 memfaultd S 1"), None);
    assert_eq!(parse_pid_and_comm("55270 () S 1"), None);
    assert_eq!(parse_pid_and_comm("55270 (memfaultd S 1"), None);
    assert_eq!(parse_pid_and_comm("7  (a b) R"), Some((7, 8)));
    assert_eq!(parse_state("7 (a) 1 2", 5), None);
    assert_eq!(parse_state("7 (a)R 2", 5), None);
}

#[test]
fn process_keys_in_report_order() {
    let keys: Vec<String> = process_metric_keys("memfaultd")
        .unwrap()
        .iter()
        .map(|k| k.as_str().to_string())
        .collect();
    assert_eq!(
        keys,
        vec![
            "processes/memfaultd/rss_bytes",
            "processes/memfaultd/vm_bytes",
            "processes/memfaultd/num_threads",
            "processes/memfaultd/cpu/percent/system",
            "processes/memfaultd/cpu/percent/user",
            "processes/memfaultd/pagefaults/minor",
            "processes/memfaultd/pagefaults/major",
        ]
    );
    assert!(process_metric_keys("d\u{e6}mon").is_err());
    // The key with the shortest suffix is 128 bytes long, the others longer.
    let name = "p".repeat(128 - "processes//vm_bytes".len());
    assert!(process_metric_keys(&name).is_err());
}

#[test]
fn pid_directories() {
    assert!(is_pid_dir_name("55270"));
    assert!(is_pid_dir_name("\u{0663}"));
    assert!(!is_pid_dir_name("self"));
    assert!(!is_pid_dir_name("12a"));
}

#[test]
fn metrics_only_from_a_second_reading() {
    let mut collector: ProcessMetricsCollector<(u64, u64)> =
        ProcessMetricsCollector::new(ProcessMetricsConfig::Auto);
    assert!(collector.process_is_monitored("memfaultd"));
    assert!(!collector.process_is_monitored("systemd"));
    assert_eq!(collector.replace_reading(55270, (100, 50)), None);
    assert_eq!(collector.replace_reading(24071, (12, 2)), None);
    assert_eq!(collector.replace_reading(55270, (1100, 550)), Some((100, 50)));
    assert_eq!(collector.replace_reading(55270, (1200, 600)), Some((1100, 550)));
}

fn system_config() -> SystemMetricConfig {
    SystemMetricConfig {
        enable: true,
        poll_interval_seconds: 10,
        processes: None,
        disk_space: None,
        diskstats: None,
        network_interfaces: None,
        cpu: None,
        memory: None,
        thermal: None,
    }
}

#[test]
fn all_families_by_default() {
    assert_eq!(
        enabled_metric_families(&system_config()),
        vec![
            MetricFamily::Cpu,
            MetricFamily::Memory,
            MetricFamily::Vm,
            MetricFamily::Thermal,
            MetricFamily::Processes,
            MetricFamily::DiskSpace,
            MetricFamily::Diskstats,
            MetricFamily::Disk,
            MetricFamily::NetworkInterfaces,
        ]
    );
}

#[test]
fn families_switched_off() {
    let mut config = system_config();
    config.cpu = Some(CpuMetricsConfig { enable: false });
    config.memory = Some(MemoryMetricsConfig { enable: false });
    config.thermal = Some(ThermalMetricsConfig { enable: true });
    config.processes = Some(vec![]);
    config.disk_space = Some(vec![]);
    config.diskstats = Some(vec!["sda".to_string()]);
    config.network_interfaces = Some(vec![]);
    assert_eq!(
        enabled_metric_families(&config),
        vec![
            MetricFamily::Thermal,
            MetricFamily::Processes,
            MetricFamily::Diskstats,
            MetricFamily::Disk,
        ]
    );
}

#[test]
fn main_loop_schedule() {
    assert_eq!(upload_schedule(0), (true, 900));
    assert_eq!(upload_schedule(3600), (false, 3600));
}

#[test]
fn main_loop_refreshes_device_config() {
    let two_hours_ns: u128 = 7_200_000_000_000;
    assert!(should_refresh_device_config(true, false, None, 0, false));
    assert!(!should_refresh_device_config(true, false, Some(10), 10 + two_hours_ns, false));
    assert!(should_refresh_device_config(true, false, Some(10), 11 + two_hours_ns, false));
    assert!(!should_refresh_device_config(true, true, None, 0, false));
    assert!(should_refresh_device_config(true, true, Some(10), 20, true));
    assert!(!should_refresh_device_config(false, false, None, 0, true));
}

#[test]
fn main_loop_uploads() {
    assert!(should_collect_and_upload(true, false, false));
    assert!(!should_collect_and_upload(true, true, false));
    assert!(!should_collect_and_upload(false, false, false));
    assert!(should_collect_and_upload(false, true, true));
    assert_eq!(sync_result_metric(Some(0)), None);
    assert_eq!(sync_result_metric(Some(3)), Some(METRIC_MF_SYNC_SUCCESS));
    assert_eq!(sync_result_metric(None), Some(METRIC_MF_SYNC_FAILURE));
}

#[test]
fn main_loop_continuation_and_result() {
    assert_eq!(loop_continuation(true, false, true), LoopContinuation::Stop);
    assert_eq!(loop_continuation(false, true, false), LoopContinuation::Stop);
    assert_eq!(loop_continuation(false, false, true), LoopContinuation::RerunImmediately);
    assert_eq!(loop_continuation(false, false, false), LoopContinuation::KeepRunning);
    assert_eq!(loop_result(true), MemfaultLoopResult::Relaunch);
    assert_eq!(loop_result(false), MemfaultLoopResult::Terminate);
}
