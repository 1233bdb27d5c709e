use memfaultd::metrics::system_metrics::config::{
    CpuMetricsConfig, MemoryMetricsConfig, SystemMetricConfig, ThermalMetricsConfig,
};
use memfaultd::metrics::system_metrics::cpu::{
    cpu_state_deltas, parse_proc_stat_line_cpu, parse_proc_stat_line_ctxt,
    parse_proc_stat_line_processes, CpuMetricCollector,
};
use memfaultd::metrics::system_metrics::disk_space::{
    parse_proc_mounts_line, DiskSpaceMetricCollector, DiskSpaceMetricsConfig,
};
use memfaultd::metrics::system_metrics::diskstats::{
    device_is_monitored, parse_proc_diskstats_line, DiskstatsError, DiskstatsMetricCollector,
    DiskstatsMetricsConfig,
};
use memfaultd::metrics::system_metrics::fd::{fd_readings, parse_fd_stats};
use memfaultd::metrics::system_metrics::processes::{process_is_monitored, ProcessMetricsConfig};
use memfaultd::metrics::system_metrics::thermal::{is_thermal_zone, thermal_zone_key};
use memfaultd::metrics::system_metrics::vm::{
    parse_swap_stats, parse_vmstat_line, vm_counter_deltas, VmMetricsCollector,
};
use memfaultd::util::math::counter_delta_with_overflow;

#[test]
fn test_valid_filenr_line() {
    let cases: [(&str, (u64, u64)); 5] = [
        ("7759   0      9223372036854775807", (7759, 9223372036854775807)),
        ("1 0 2", (1, 2)),
        ("92834570876 0 0", (92834570876, 0)),
        (
            "1                                                                                          0 2",
            (1, 2),
        ),
        (
            "1 0                                                                                          2",
            (1, 2),
        ),
    ];
    for (line, expected) in cases {
        assert_eq!(parse_fd_stats(line), Some(expected));
    }
}

#[test]
fn test_invalid_filenr_line_is_err() {
    for line in [
        "1 0  ",
        "92834570876 00",
        "1 2 3 4",
        "1                                                                                           2",
    ] {
        assert_eq!(parse_fd_stats(line), None);
    }
}

#[test]
fn test_calculate_fd_metrics() {
    let readings = fd_readings("7759   0      922").unwrap();
    assert_eq!(readings.len(), 2);
    assert_eq!(readings[0].0.as_str(), "fs/file_nr/allocated");
    assert_eq!(readings[0].1, 7759);
    assert_eq!(readings[1].0.as_str(), "fs/file_nr/max");
    assert_eq!(readings[1].1, 922);
    assert!(fd_readings("garbage").is_none());
}

const VMSTAT_1: &str = "nr_free_pages 123456
nr_alloc_batch 789
nr_inactive_anon 1000
nr_active_anon 2000
pswpin 42
pswpout 84
pgpgin 5000
pgpgout 6000
other_stat 999";

#[test]
fn test_parse_vmstat_line() {
    assert_eq!(parse_vmstat_line("pswpin 12345"), Some(("pswpin".to_string(), 12345)));
    assert_eq!(parse_vmstat_line("pswpout 67890"), Some(("pswpout".to_string(), 67890)));
    assert_eq!(
        parse_vmstat_line("nr_alloc_batch 67890"),
        Some(("nr_alloc_batch".to_string(), 67890))
    );
    assert_eq!(parse_vmstat_line("pswpin"), None);
    assert_eq!(parse_vmstat_line("pswpin 99999999999999999999"), None);
}

#[test]
fn test_processes_metrics_calculation() {
    let mut collector = CpuMetricCollector::<u64>::new();
    assert!(collector.replace_processes_reading(0, 0).is_none());
    let (prev, at) = collector.replace_processes_reading(10, 10).unwrap();
    let rate = counter_delta_with_overflow(10, prev) as f64 / (10 - at) as f64;
    assert_eq!(rate, 1.0);
}

#[test]
fn test_ctxt_metrics_calculation() {
    let cases: [(&str, u64, &str, u64, u64, f64); 4] = [
        ("ctxt 0", 0, "ctxt 10", 10, 10, 1.0),
        ("ctxt 10", 10, "ctxt 12", 12, 4, 0.5),
        ("ctxt 300", 300, "ctxt 301", 301, 1, 1.0),
        ("ctxt 18446744073709551615", 0xFFFFFFFFFFFFFFFF, "ctxt 2", 2, 1, 2.0),
    ];
    for (before, expected_before, after, expected_after, secs, expected_rate) in cases {
        let b = parse_proc_stat_line_ctxt(before).unwrap();
        assert_eq!(b, expected_before);
        let a = parse_proc_stat_line_ctxt(after).unwrap();
        assert_eq!(a, expected_after);
        let mut collector = CpuMetricCollector::<u64>::new();
        assert!(collector.replace_ctxt_reading(b, 0).is_none());
        let (prev, at) = collector.replace_ctxt_reading(a, secs).unwrap();
        let rate = counter_delta_with_overflow(a, prev) as f64 / (secs - at) as f64;
        assert_eq!(rate, expected_rate);
    }
}

#[test]
fn test_parse_swap_stats() {
    let stats = parse_swap_stats(VMSTAT_1, 0u64);
    assert_eq!(stats.pswpin, 42);
    assert_eq!(stats.pswpout, 84);
    assert_eq!(stats.pgpgin, 5000);
    assert_eq!(stats.pgpgout, 6000);
}

#[test]
fn test_real_vmstat_format() {
    let content = "nr_free_pages 245760\nnr_zone_inactive_anon 12345\npswpout 156\nnr_zone_active_anon 67890\npswpin 78\npgpgin 123456\n";
    let stats = parse_swap_stats(content, 0u64);
    assert_eq!(stats.pswpin, 78);
    assert_eq!(stats.pswpout, 156);
    assert_eq!(stats.pgpgin, 123456);
    assert_eq!(stats.pgpgout, 0);
}

#[test]
fn vmstat_stops_at_first_unparsable_line() {
    let stats = parse_swap_stats("pswpin 5\nnot a line\npswpout 7\n", 0u64);
    assert_eq!(stats.pswpin, 5);
    assert_eq!(stats.pswpout, 0);
    let crlf = parse_swap_stats("pswpin 5\r\npswpout 7\r\n", 0u64);
    assert_eq!((crlf.pswpin, crlf.pswpout), (5, 7));
    let last_wins = parse_swap_stats("pswpin 5\npswpin 9\n", 0u64);
    assert_eq!(last_wins.pswpin, 9);
}

const VMSTAT_2: &str = "nr_free_pages 123456
nr_alloc_batch 789
nr_inactive_anon 1000
nr_active_anon 2000
pswpin 47
pswpout 94
pgpgin 5100
pgpgout 6200
other_stat 999";

const VMSTAT_3: &str = "nr_free_pages 123456
nr_alloc_batch 789
nr_inactive_anon 1000
nr_active_anon 2000
pswpin 100
pswpout 120
pgpgin 5000
pgpgout 6000
other_stat 999";

fn named(deltas: &[(memfaultd::metrics::metric_string_key::MetricStringKey, u64)]) -> Vec<(&str, u64)> {
    deltas.iter().map(|(k, v)| (k.as_str(), *v)).collect()
}

#[test]
fn test_vm_metrics_calculation() {
    let mut collector = VmMetricsCollector::<u64>::new();
    // No metrics from the first reading
    assert!(collector.replace_reading(parse_swap_stats(VMSTAT_1, 0u64)).is_none());
    let second = parse_swap_stats(VMSTAT_2, 10u64);
    let prev = collector.replace_reading(second).unwrap();
    assert_eq!(second.reading_time - prev.reading_time, 10);
    assert_eq!(
        named(&vm_counter_deltas(&prev, &second)),
        vec![
            ("memory/vm/swaps_in_per_second", 5),
            ("memory/vm/swaps_out_per_second", 10),
            ("memory/vm/pages_in_per_second", 100),
            ("memory/vm/pages_out_per_second", 200),
        ]
    );
    // counters that went down are left out
    let third = parse_swap_stats(VMSTAT_3, 20u64);
    let prev = collector.replace_reading(third).unwrap();
    assert_eq!(
        named(&vm_counter_deltas(&prev, &third)),
        vec![
            ("memory/vm/swaps_in_per_second", 53),
            ("memory/vm/swaps_out_per_second", 26),
        ]
    );
    // nothing changed: all counters grew by zero
    let fourth = parse_swap_stats(VMSTAT_3, 30u64);
    let prev = collector.replace_reading(fourth).unwrap();
    assert_eq!(
        named(&vm_counter_deltas(&prev, &fourth)),
        vec![
            ("memory/vm/swaps_in_per_second", 0),
            ("memory/vm/swaps_out_per_second", 0),
            ("memory/vm/pages_in_per_second", 0),
            ("memory/vm/pages_out_per_second", 0),
        ]
    );
}

#[test]
fn test_process_valid_proc_stat_line() {
    let (name, stats) = parse_proc_diskstats_line("   8       0 sda 57839 46346 3776180 24107 2868024 458991 39327918 1458693 0 839132 1568407 285564 2 308337155 49208 141738 36397").unwrap();
    assert_eq!(name, "sda");
    assert_eq!(
        stats,
        vec![57839, 46346, 3776180, 24107, 2868024, 458991, 39327918, 1458693]
    );
    let (name, stats) =
        parse_proc_diskstats_line("253       1 vda1 59 125 775 15 2 0 2 0 0 64 16 0 0 0 0 0 0").unwrap();
    assert_eq!(name, "vda1");
    assert_eq!(stats, vec![59, 125, 775, 15, 2, 0, 2, 0]);
    assert!(parse_proc_diskstats_line("8 0 sda 1 2 3").is_none());
    assert!(parse_proc_diskstats_line("sda 1 2 3 4 5 6 7 8 9 10").is_none());
}

#[test]
fn test_calculate_metrics() {
    let mut collector = DiskstatsMetricCollector::<u64>::new(DiskstatsMetricsConfig::Auto);
    let (name, stats) = parse_proc_diskstats_line("   8       0 sda 57839 46346 3776180 24107 2868024 458991 39327918 1458693 0 839132 1568407 285564 2 308337155 49208 141738 36397").unwrap();
    assert!(collector
        .delta_since_last_reading(&name, &stats, 0)
        .unwrap()
        .is_none());
    let (name, stats) = parse_proc_diskstats_line("   8       0 sda 57939 46346 3776180 24107 2868224 458991 39327918 1458693 0 839132 1568407 285564 2 308337155 49208 141738 36397").unwrap();
    let (readings, since) = collector
        .delta_since_last_reading(&name, &stats, 10)
        .unwrap()
        .unwrap();
    assert_eq!(since, 0);
    assert_eq!(readings[0].0.as_str(), "diskstats/sda/reads_per_second");
    assert_eq!(readings[0].1, 100);
    assert_eq!(readings[1].0.as_str(), "diskstats/sda/writes_per_second");
    assert_eq!(readings[1].1, 200);
    assert_eq!(
        collector.delta_since_last_reading("sda", &vec![1, 2], 20).err(),
        Some(DiskstatsError::MissingValue)
    );
}

#[test]
fn test_unmonitored_disk_ignored() {
    let config = DiskstatsMetricsConfig::Devices(vec!["vda".to_string()]);
    assert!(!device_is_monitored(&config, "sda"));
    assert!(device_is_monitored(&config, "vda"));
    assert!(!device_is_monitored(&DiskstatsMetricsConfig::Auto, "loop0"));
    assert!(!device_is_monitored(&DiskstatsMetricsConfig::Auto, "ram1"));
    assert!(device_is_monitored(&DiskstatsMetricsConfig::Auto, "mmcblk0"));
}

#[test]
fn test_counter_delta_with_overflow() {
    assert_eq!(counter_delta_with_overflow(10, 0), 10);
    assert_eq!(counter_delta_with_overflow(12, 10), 2);
    assert_eq!(counter_delta_with_overflow(2, u64::MAX), 2);
}

#[test]
fn test_process_valid_proc_mounts_line() {
    let mount = parse_proc_mounts_line("/dev/sda2 /media ext4 rw,noatime 0 0").unwrap();
    assert_eq!(mount.device, "/dev/sda2");
    assert_eq!(mount.mount_point, "/media");
    assert!(parse_proc_mounts_line("garbage").is_none());
    assert!(parse_proc_mounts_line("").is_none());
}

#[test]
fn test_initialize_mounts_skips_unparsable_lines() {
    let mut collector = DiskSpaceMetricCollector::new(DiskSpaceMetricsConfig::Auto);
    collector.initialize_mounts("\ngarbage\n/dev/sda2 /media ext4 rw,noatime 0 0\n/dev/sda3-with-no-mount-point\n");
    let mounts = collector.mounts();
    assert_eq!(mounts.len(), 1);
    assert_eq!(mounts[0].device, "/dev/sda2");
    assert_eq!(mounts[0].mount_point, "/media");
}

#[test]
fn test_initialize_mounts() {
    let mut collector = DiskSpaceMetricCollector::new(DiskSpaceMetricsConfig::Auto);
    collector.initialize_mounts("/dev/sda2 /media ext4 rw,noatime 0 0\n/dev/sda1 / ext4 rw,noatime 0 0\nproc /proc proc rw 0 0\n");
    let mounts: Vec<(&str, &str)> = collector
        .mounts()
        .iter()
        .map(|m| (m.device.as_str(), m.mount_point.as_str()))
        .collect();
    assert_eq!(mounts, vec![("/dev/sda2", "/media"), ("/dev/sda1", "/")]);
}

#[test]
fn test_unmonitored_disks_not_initialized() {
    let mut collector =
        DiskSpaceMetricCollector::new(DiskSpaceMetricsConfig::Disks(vec!["/dev/sdc1".to_string()]));
    collector.initialize_mounts("/dev/sda2 /media ext4 rw,noatime 0 0\n/dev/sda1 / ext4 rw,noatime 0 0\n");
    assert!(collector.mounts().is_empty());
}

#[test]
fn test_disk_monitored() {
    let collector = DiskSpaceMetricCollector::new(DiskSpaceMetricsConfig::Auto);
    assert!(collector.disk_is_monitored("/dev/sda2"));
    assert!(!collector.disk_is_monitored("/dev/loop0"));
    assert!(!collector.disk_is_monitored("/dev/ram0"));
    assert!(!collector.disk_is_monitored("tmpfs"));
}

#[test]
fn test_process_valid_cpu_proc_stat_line() {
    assert_eq!(
        parse_proc_stat_line_cpu("cpu 1000 5 0 0 2 0 0"),
        Some(vec![1000, 5, 0, 0, 2, 0, 0])
    );
    assert_eq!(
        parse_proc_stat_line_cpu("cpu  36675 176 11216 1552961 689 0 54 0 0 0"),
        Some(vec![36675, 176, 11216, 1552961, 689, 0, 54])
    );
}

#[test]
fn test_fails_on_invalid_cpu_proc_stat_line() {
    for line in [
        "cpu 1000 5 0 0 2",
        "1000 5 0 0 2 0 0 0 0 0",
        "processor0 1000 5 0 0 2 0 0 0 0 0",
        "softirq 403453672 10204651 21667771 199 12328940 529390 0 3519783 161759969 147995 193294974",
    ] {
        assert_eq!(parse_proc_stat_line_cpu(line), None);
    }
}

#[test]
fn test_process_valid_ctxt_proc_stat_line() {
    assert_eq!(parse_proc_stat_line_ctxt("ctxt 12345"), Some(12345));
    assert_eq!(parse_proc_stat_line_ctxt("ctxt 127987"), Some(127987));
    for line in ["ctxt ", "asdf", "processes 12345", "cpu 1000 5 0 0 2 0 0"] {
        assert_eq!(parse_proc_stat_line_ctxt(line), None);
    }
}

#[test]
fn test_process_valid_processes_proc_stat_line() {
    assert_eq!(parse_proc_stat_line_processes("processes 12345"), Some(12345));
    assert_eq!(parse_proc_stat_line_processes("processes 127987"), Some(127987));
    for line in ["processes ", "asdf", "ctxt 12345", "cpu 1000 5 0 0 2 0 0"] {
        assert_eq!(parse_proc_stat_line_processes(line), None);
    }
}

#[test]
fn test_cpu_metric_collector_calcs() {
    let mut collector = CpuMetricCollector::<u64>::new();
    let a = parse_proc_stat_line_cpu("cpu 1000 5 0 0 2 0 0").unwrap();
    assert!(collector.replace_cpu_reading(a).is_none());
    let b = parse_proc_stat_line_cpu("cpu 1500 20 4 1 2 0 0").unwrap();
    let prev = collector.replace_cpu_reading(b.clone()).unwrap();
    let deltas = cpu_state_deltas(&prev, &b);
    let got: Vec<(&str, u64)> = deltas.iter().map(|(k, v)| (k.as_str(), *v)).collect();
    assert_eq!(
        got,
        vec![
            ("cpu/cpu/percent/user", 500),
            ("cpu/cpu/percent/nice", 15),
            ("cpu/cpu/percent/system", 4),
            ("cpu/cpu/percent/idle", 1),
            ("cpu/cpu/percent/iowait", 0),
            ("cpu/cpu/percent/irq", 0),
            ("cpu/cpu/percent/softirq", 0),
        ]
    );
    assert!(collector.replace_ctxt_reading(0, 0).is_none());
    assert_eq!(collector.replace_ctxt_reading(10, 10), Some((0, 0)));
}

#[test]
fn test_parse_thermal_zone_temp() {
    let key = thermal_zone_key("cpu-temp").unwrap();
    assert_eq!(key.as_str(), "thermal/cpu-temp/temp");
    // Millidegrees Celsius; the floating-point division is the caller's.
    assert_eq!("50000".trim().parse::<f64>().unwrap() / 1000.0, 50.0);
    assert_eq!(thermal_zone_key("cpu-temp\n").unwrap().as_str(), "thermal/cpu-temp/temp");
    assert!(thermal_zone_key("température").is_err());
    assert!(is_thermal_zone("thermal_zone0"));
    assert!(!is_thermal_zone("cooling_device0"));
}

#[test]
fn test_process_is_monitored() {
    assert!(process_is_monitored(&ProcessMetricsConfig::Auto, "memfaultd"));
    assert!(!process_is_monitored(&ProcessMetricsConfig::Auto, "systemd"));
    let config = ProcessMetricsConfig::Processes(vec!["systemd".to_string()]);
    assert!(process_is_monitored(&config, "systemd"));
    assert!(!process_is_monitored(&config, "memfaultd"));
}

fn system_config(processes: Option<Vec<String>>) -> SystemMetricConfig {
    SystemMetricConfig {
        enable: true,
        poll_interval_seconds: 10,
        processes,
        disk_space: Some(vec![]),
        diskstats: None,
        network_interfaces: Some(vec!["eth0".to_string()]),
        cpu: Some(CpuMetricsConfig { enable: false }),
        memory: None,
        thermal: Some(ThermalMetricsConfig { enable: true }),
    }
}

#[test]
fn system_metric_config_enables() {
    let config = system_config(None);
    assert!(!config.cpu_metrics_enabled());
    assert!(config.memory_metrics_enabled());
    assert!(config.thermal_metrics_enabled());
    assert!(!config.disk_space_metrics_enabled());
    assert!(config.diskstats_metrics_enabled());
    assert!(config.process_metrics_enabled());
    assert!(config.network_metrics_enabled());
    assert_eq!(config.poll_interval(), 10);
    assert!(matches!(config.monitored_processes(), ProcessMetricsConfig::Auto));
    assert!(matches!(config.diskstats_config(), DiskstatsMetricsConfig::Auto));
    assert!(matches!(config.disk_space_config(), DiskSpaceMetricsConfig::Disks(d) if d.is_empty()));
    assert_eq!(config.network_interfaces_config(), Some(&vec!["eth0".to_string()]));
    let memory = MemoryMetricsConfig { enable: false };
    assert!(!memory.enable);
}

#[test]
fn monitored_processes_include_memfaultd_once() {
    let config = system_config(Some(vec!["systemd".to_string()]));
    match config.monitored_processes() {
        ProcessMetricsConfig::Processes(ps) => assert_eq!(ps, vec!["systemd", "memfaultd"]),
        ProcessMetricsConfig::Auto => panic!("expected processes"),
    }
    let config = system_config(Some(vec!["memfaultd".to_string()]));
    match config.monitored_processes() {
        ProcessMetricsConfig::Processes(ps) => assert_eq!(ps, vec!["memfaultd"]),
        ProcessMetricsConfig::Auto => panic!("expected processes"),
    }
}
