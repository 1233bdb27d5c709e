use memfaultd::metrics::system_metrics::oui::OuiMetricsCollector;
use memfaultd::metrics::system_metrics::oui_parse::{
    extract_oui, get_active_wireless_ap_ouis, is_adapter_active, is_wireless_adapter,
    parse_arp_entry,
};

#[test]
fn test_family_name() {
    let collector = OuiMetricsCollector::new();
    assert_eq!(collector.family_name(), "wireless_oui");
}

#[test]
fn test_extract_oui() {
    assert_eq!(
        extract_oui("aa:bb:cc:dd:ee:ff"),
        Some("AA:BB:CC".to_string())
    );
    assert_eq!(
        extract_oui("01:23:45:67:89:ab"),
        Some("01:23:45".to_string())
    );
    assert_eq!(extract_oui("invalid_mac"), None);
    assert_eq!(extract_oui("aa:bb:cc:dd:ee"), None);
    assert_eq!(extract_oui("aa:bb:cc:dd:ee:ff:gg"), None);
    assert_eq!(extract_oui("aa:bb:gg:dd:ee:ff"), None);
}

#[test]
fn test_parse_arp_entry() {
    assert_eq!(
        parse_arp_entry(
            "172.18.0.2       0x1         0x2         ea:6f:b3:e4:19:15     *        wlp0s20f3"
        ),
        Some(("wlp0s20f3".to_string(), "EA:6F:B3".to_string()))
    );

    assert_eq!(
        parse_arp_entry(
            "192.168.1.1    0x1         0x2         bc:db:09:c2:4c:95     *        eth0"
        ),
        Some(("eth0".to_string(), "BC:DB:09".to_string()))
    );

    assert_eq!(parse_arp_entry("invalid line"), None);
    assert_eq!(
        parse_arp_entry(
            "IP address       HW type     Flags       HW address            Mask     Device"
        ),
        None
    );
}

fn mock_arp_content() -> String {
    "IP address       HW type     Flags       HW address            Mask     Device\n172.18.0.2       0x1         0x2         ea:6f:b3:e4:19:15     *        wlp0s20f3\n192.168.128.1    0x1         0x2         bc:db:09:c2:4c:95     *        eth0\n10.0.0.1         0x1         0x2         aa:bb:cc:dd:ee:ff     *        wlan0".to_string()
}

#[test]
fn test_get_wireless_ap_ouis() {
    let wireless = vec!["wlp0s20f3".to_string(), "wlan0".to_string()];
    let ouis = get_active_wireless_ap_ouis(Some(&mock_arp_content()), &wireless).unwrap();
    assert_eq!(
        ouis,
        vec![
            ("wlp0s20f3".to_string(), "EA:6F:B3".to_string()),
            ("wlan0".to_string(), "AA:BB:CC".to_string()),
        ]
    );
}

#[test]
fn test_non_wireless_device_filtered_from_arp() {
    let content = "IP address HW type Flags HW address Mask Device\n10.0.0.2 0x1 0x2 77:88:99:aa:bb:cc * eth0";
    let ouis = get_active_wireless_ap_ouis(Some(content), &vec![]).unwrap();
    assert!(ouis.is_empty());
}

#[test]
fn test_empty_arp_content() {
    let content = "IP address       HW type     Flags       HW address            Mask     Device";
    let ouis = get_active_wireless_ap_ouis(Some(content), &vec!["wlan0".to_string()]).unwrap();
    assert!(ouis.is_empty());
    assert!(get_active_wireless_ap_ouis(None, &vec![]).is_none());
}

#[test]
fn test_malformed_arp_entries() {
    let content = "header\ninvalid line\n10.0.0.1 0x1 0x2 zz:bb:cc:dd:ee:ff * wlan0\n10.0.0.1 0x1 0x2 aa:bb:cc:dd:ee:ff * wlan0\n";
    let ouis = get_active_wireless_ap_ouis(Some(content), &vec!["wlan0".to_string()]).unwrap();
    assert_eq!(ouis, vec![("wlan0".to_string(), "AA:BB:CC".to_string())]);
}

#[test]
fn adapter_attributes() {
    assert!(is_wireless_adapter(Some("1\n"), true));
    assert!(!is_wireless_adapter(Some("1"), false));
    assert!(!is_wireless_adapter(Some("772"), true));
    assert!(!is_wireless_adapter(None, true));
    assert!(is_adapter_active(Some("up\n"), Some("1\n")));
    assert!(!is_adapter_active(Some("down"), Some("1")));
    assert!(!is_adapter_active(Some("up"), Some("0")));
    assert!(!is_adapter_active(Some("up"), None));
    assert!(!is_adapter_active(Some("up"), Some("256")));
}
