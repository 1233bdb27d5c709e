use memfaultd::metrics::battery::battery_monitor::ChargingState;
use memfaultd::metrics::battery::sysfs::{first_battery_entry, PowerSupplyType, SysfsBatteryParser};
use memfaultd::metrics::connectivity::connectivity_monitor::connected_time_readings;
use memfaultd::metrics::hrt::report::{hrt_rate_limit, HrtReadingMetadata, MetricReadingKind};
use memfaultd::metrics::hrt::schema::{DataType, HrtMetricType, Producer, RollupMetadata};
use memfaultd::metrics::metric_string_key::MetricStringKey;

#[test]
fn charging_state_from_status() {
    assert_eq!(ChargingState::from("Charging\n"), ChargingState::Charging);
    assert_eq!(ChargingState::from(" Discharging "), ChargingState::Discharging);
    assert_eq!(ChargingState::from("Full"), ChargingState::Full);
    assert_eq!(ChargingState::from("Not charging"), ChargingState::NotCharging);
    assert_eq!(ChargingState::from("Unknown"), ChargingState::Unknown);
    assert_eq!(ChargingState::from("charging"), ChargingState::Invalid);
    assert_eq!(ChargingState::from(""), ChargingState::Invalid);
}

#[test]
fn test_power_supply_type_from_valid_str() {
    let cases = [
        ("unknown", PowerSupplyType::Unknown),
        ("UNKNOWN", PowerSupplyType::Unknown),
        ("Battery", PowerSupplyType::Battery),
        ("BATTERY", PowerSupplyType::Battery),
        ("ups", PowerSupplyType::Ups),
        ("MAINS", PowerSupplyType::Mains),
        ("usb", PowerSupplyType::Usb),
        ("USB_DCP", PowerSupplyType::UsbDcp),
        ("usb_cdp", PowerSupplyType::UsbCdp),
        ("USB_ACA", PowerSupplyType::UsbAca),
        ("usb_type_c", PowerSupplyType::UsbTypeC),
        ("USB_PD", PowerSupplyType::UsbPd),
        ("usb_pd_drp", PowerSupplyType::UsbPdDrp),
        ("APPLE_BRICK_ID", PowerSupplyType::AppleBrickId),
        ("wireless", PowerSupplyType::Wireless),
    ];
    for (input, expected) in cases {
        assert_eq!(PowerSupplyType::try_from(input), Some(expected), "{}", input);
    }
}

#[test]
fn test_power_supply_type_from_invalid_str() {
    for input in ["invalid", "power_source", "", "batteryX", "usb_invalid"] {
        assert_eq!(PowerSupplyType::try_from(input), None);
    }
}

#[test]
fn sysfs_battery_parser_keeps_its_path() {
    let parser = SysfsBatteryParser::new("/sys/class/power_supply/BAT0");
    assert_eq!(parser.path(), "/sys/class/power_supply/BAT0");
}

#[test]
fn connected_time() {
    let r = connected_time_readings(1500, true);
    assert_eq!(r[0].0.as_str(), "connectivity_connected_time_ms");
    assert_eq!(r[0].1, 1500);
    assert_eq!(r[1].0.as_str(), "connectivity_expected_time_ms");
    assert_eq!(r[1].1, 1500);
    let r = connected_time_readings(1500, false);
    assert_eq!((r[0].1, r[1].1), (0, 1500));
}

#[test]
fn hrt_metadata_of_reading_kinds() {
    let m = HrtReadingMetadata::from(MetricReadingKind::Counter);
    assert_eq!((m.metric_type, m.data_type, m.internal), (HrtMetricType::Counter, DataType::Double, false));
    let m = HrtReadingMetadata::from(MetricReadingKind::ReportTag);
    assert_eq!((m.metric_type, m.data_type), (HrtMetricType::Property, DataType::String));
    let m = HrtReadingMetadata::from(MetricReadingKind::Bool);
    assert_eq!((m.metric_type, m.data_type), (HrtMetricType::Property, DataType::Boolean));
    for kind in [
        MetricReadingKind::TimeWeightedAverage,
        MetricReadingKind::Histogram,
        MetricReadingKind::Gauge,
        MetricReadingKind::Rssi,
    ] {
        let m = HrtReadingMetadata::from(kind);
        assert_eq!((m.metric_type, m.data_type), (HrtMetricType::Gauge, DataType::Double));
    }
    let key = MetricStringKey::from("cpu_usage_pct");
    let rollup = RollupMetadata::new(&key, &m_of(MetricReadingKind::Gauge));
    assert_eq!(rollup.string_key, "cpu_usage_pct");
    assert_eq!(rollup.metric_type, HrtMetricType::Gauge);
    let producer = Producer::new("1.2.3");
    assert_eq!(producer.id, "memfaultd");
    assert_eq!(producer.version, "1.2.3");
}

fn m_of(kind: MetricReadingKind) -> HrtReadingMetadata {
    HrtReadingMetadata::from(kind)
}

fn supply(path: &str, type_text: Option<&str>) -> (String, Option<String>) {
    (path.to_string(), type_text.map(|t| t.to_string()))
}

#[test]
fn test_find_sysfs_battery_entry_finds_battery() {
    let entries = vec![
        supply("/sys/class/power_supply/AC", Some("Mains\n")),
        supply("/sys/class/power_supply/BAT0", Some("Battery\n")),
        supply("/sys/class/power_supply/USBC", Some("USB_PD\n")),
    ];
    assert_eq!(first_battery_entry(&entries), Some(1));
}

#[test]
fn test_find_sysfs_battery_entry_no_battery() {
    let entries = vec![supply("/sys/class/power_supply/AC", Some("Mains\n"))];
    assert_eq!(first_battery_entry(&entries), None);
}

#[test]
fn test_find_sysfs_battery_entry_invalid_type_file() {
    let entries = vec![
        supply("/sys/class/power_supply/BAT0", Some("Battery\n")),
        supply("/sys/class/power_supply/INVALID", Some("InvalidType\n")),
    ];
    assert_eq!(first_battery_entry(&entries), Some(0));
    let unreadable_first = vec![
        supply("/sys/class/power_supply/A", None),
        supply("/sys/class/power_supply/B", Some("  BATTERY ")),
    ];
    assert_eq!(first_battery_entry(&unreadable_first), Some(1));
}

#[test]
fn test_find_sysfs_battery_entry_empty_directory() {
    assert_eq!(first_battery_entry(&vec![]), None);
}

#[test]
fn hrt_rate_limit_is_capped() {
    assert_eq!(hrt_rate_limit(2000), 1500);
    assert_eq!(hrt_rate_limit(1500), 1500);
    assert_eq!(hrt_rate_limit(750), 750);
    assert_eq!(hrt_rate_limit(1), 1);
}
