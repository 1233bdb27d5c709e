use memfaultd::metrics::system_metrics::network_interfaces::{
    interface_is_monitored, network_interface_readings, parse_proc_net_dev_line,
    parse_proc_net_wireless_line, parse_sockstat, rssi_key, socket_count_readings, NetMetricsError,
    NetReading, NetworkInterfaceMetricsConfig,
};

#[test]
fn test_parse_netdev_line() {
    let (name, stats) = parse_proc_net_dev_line("   eth0:    2707      25    0    0    0     0          0         0     2707      25    0    0    0     0       0          0").unwrap();
    assert_eq!(name, "eth0");
    assert_eq!(stats, vec![2707, 25, 0, 0, 0, 0, 0, 0, 2707, 25, 0, 0, 0, 0, 0, 0]);
    let (name, _) = parse_proc_net_dev_line("wlan1:    2707      25    0    0    0     0          0         0     2707      25    0    0    0     0       0          0").unwrap();
    assert_eq!(name, "wlan1");
}

#[test]
fn test_parse_netwireless_line() {
    for line in [
        "wlan0: 0000   56.  -54.  -256        0      0      0      0     38        0",
        "wlan0: 0000   56  -54  -256        0      0      0      0     38        0",
    ] {
        let (interface, stats) = parse_proc_net_wireless_line(line).unwrap();
        assert_eq!(interface, "wlan0");
        assert_eq!(stats, vec![56, -54]);
    }
}

#[test]
fn test_fails_on_invalid_proc_net_dev_line() {
    assert!(parse_proc_net_dev_line("wlan0   2707      25    0    0    0     0          0         0     2707      25    0    0    0     0       0          0").is_none());
    assert!(parse_proc_net_dev_line("wlan0:   2707    0    0    0     0          0         0     2707      25    0    0    0     0       0          0").is_none());
}

fn stats(line: &str) -> Vec<u64> {
    parse_proc_net_dev_line(line).unwrap().1
}

fn views(readings: &[NetReading]) -> Vec<(String, &'static str, u64)> {
    readings
        .iter()
        .map(|r| match r {
            NetReading::Rate { key, delta } => (key.as_str().to_string(), "rate", *delta),
            NetReading::Counter { key, value } => (key.as_str().to_string(), "counter", *value),
        })
        .collect()
}

#[test]
fn test_net_if_metric_collector_calcs() {
    let a = stats("   eth0:    1000      25    0    0    0     0          0         0     2000      25    0    0    0     0       0          0");
    let b = stats("   eth0:    2500      80    10   10   0     0          0         0     3000      50    0    0    0     0       0          0");
    let readings = network_interface_readings("eth0", &a, &b).unwrap();
    assert_eq!(
        views(&readings),
        vec![
            ("interface/eth0/bytes_per_second/rx".to_string(), "rate", 1500),
            ("interface/eth0/packets_per_second/rx".to_string(), "rate", 55),
            ("interface/eth0/errors_per_second/rx".to_string(), "rate", 10),
            ("interface/eth0/dropped_per_second/rx".to_string(), "rate", 10),
            ("interface/eth0/bytes_per_second/tx".to_string(), "rate", 1000),
            ("interface/eth0/packets_per_second/tx".to_string(), "rate", 25),
            ("interface/eth0/errors_per_second/tx".to_string(), "rate", 0),
            ("interface/eth0/dropped_per_second/tx".to_string(), "rate", 0),
            ("interface/eth0/total_bytes/tx".to_string(), "counter", 1000),
            ("interface/eth0/total_bytes/rx".to_string(), "counter", 1500),
        ]
    );
}

#[test]
fn net_counters_that_went_down_are_left_out() {
    let a = stats("   eth0:    4294967293     25    0    0    0     0          0         0     2000      25    0    0    0     0       0          0");
    let b = stats("   eth0:    2498           80    10   10   0     0          0         0     3000      50    0    0    0     0       0          0");
    let readings = network_interface_readings("eth0", &a, &b).unwrap();
    let names: Vec<String> = views(&readings).into_iter().map(|(k, _, _)| k).collect();
    assert!(!names.contains(&"interface/eth0/bytes_per_second/rx".to_string()));
    assert!(!names.contains(&"interface/eth0/total_bytes/rx".to_string()));
    assert!(names.contains(&"interface/eth0/total_bytes/tx".to_string()));
    assert_eq!(
        network_interface_readings("eth0", &vec![1, 2], &b).err(),
        Some(NetMetricsError::MissingValue)
    );
    assert_eq!(
        network_interface_readings("ethé", &a, &b).err(),
        Some(NetMetricsError::InvalidKey)
    );
}

#[test]
fn test_interface_is_monitored() {
    let config =
        NetworkInterfaceMetricsConfig::Interfaces(vec!["eth0".to_string(), "wlan1".to_string()]);
    assert!(!interface_is_monitored(&config, "eth1"));
    assert!(interface_is_monitored(&config, "eth0"));
    assert!(!interface_is_monitored(&config, "enp0s10"));
    assert!(interface_is_monitored(&config, "wlan1"));
}

#[test]
fn test_interface_is_monitored_auto() {
    let config = NetworkInterfaceMetricsConfig::Auto;
    for (name, expected) in [
        ("eth1", true),
        ("eth0", true),
        ("enp0s10", true),
        ("wlan1", true),
        ("tun0", false),
        ("dummy1", false),
        ("lo1", false),
        ("vethcdd37e7", false),
        ("usb1047", false),
    ] {
        assert_eq!(interface_is_monitored(&config, name), expected, "{}", name);
    }
}

const SOCKSTAT: &str = "sockets: used 97
        TCP: inuse 7 orphan 0 tw 0 alloc 8 mem 0
        UDP: inuse 4 mem 2
        UDPLITE: inuse 0
        RAW: inuse 0
        FRAG: inuse 0 memory 0
        ";

#[test]
fn test_parse_sockstat() {
    assert_eq!(parse_sockstat(SOCKSTAT), Some(vec![97, 7, 0, 0, 4]));
    assert_eq!(parse_sockstat("sockets: used"), None);
    assert_eq!(parse_sockstat("sockets: used 97\nJEFF!: inuse 4 mem lol \n"), None);
}

#[test]
fn test_socket_count_readings() {
    let readings = socket_count_readings(SOCKSTAT).unwrap();
    let got: Vec<(&str, u64)> = readings.iter().map(|(k, v)| (k.as_str(), *v)).collect();
    assert_eq!(
        got,
        vec![
            ("net/sockets/tcp_inuse", 7),
            ("net/sockets/sockets_inuse", 97),
            ("net/sockets/tcp_tw", 0),
            ("net/sockets/tcp_orphan", 0),
            ("net/sockets/udp_inuse", 4),
        ]
    );
}

#[test]
fn test_rssi_key() {
    assert_eq!(rssi_key("wlan0").unwrap().as_str(), "interfaces/wlan0/rssi");
    assert!(rssi_key("wlané").is_none());
}
