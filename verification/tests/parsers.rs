use memfaultd::metrics::metric_reading::{split_arg_reading, ArgReadingError};
use memfaultd::metrics::battery::battery_monitor::{
    split_battery_reading, BatteryReadingError, ChargingState,
};
use memfaultd::metrics::system_metrics::memory::{parse_meminfo_line, parse_meminfo_stats};
use memfaultd::metrics::system_metrics::processes::{
    parse_pid_and_comm, parse_stat_values, parse_state, STAT_VALUE_COUNT,
};
use memfaultd::parse::recognize_float_at;
use memfaultd::text::chars_of;

fn float_text(s: &str) -> Option<String> {
    let v = chars_of(s);
    recognize_float_at(&v, 0).map(|e| v[..e].iter().collect())
}

#[test]
fn float_texts_as_nom_reads_them() {
    assert_eq!(float_text("42"), Some("42".to_string()));
    assert_eq!(float_text("-87.55|g"), Some("-87.55".to_string()));
    assert_eq!(float_text("+1.5e-3 kB"), Some("+1.5e-3".to_string()));
    assert_eq!(float_text("1."), Some("1.".to_string()));
    assert_eq!(float_text(".5"), Some(".5".to_string()));
    assert_eq!(float_text("42.3.5"), Some("42.3".to_string()));
    assert_eq!(float_text("NaN"), Some("NaN".to_string()));
    assert_eq!(float_text("Infinity"), Some("Inf".to_string()));
    assert_eq!(float_text("1e"), None);
    assert_eq!(float_text("1e+x"), None);
    assert_eq!(float_text("."), None);
    assert_eq!(float_text("-inf"), None);
    assert_eq!(float_text("EIGHTY"), None);
    for text in ["42", "-87.55", "+1.5e-3", "1.", ".5", "NaN", "Inf"] {
        assert!(float_text(text).unwrap().parse::<f64>().is_ok());
    }
}

#[test]
fn test_parse_meminfo_line() {
    let cases: [(&str, &str, f64); 5] = [
        ("MemTotal:         365916 kB", "MemTotal", 365916.0),
        ("MemFree:          242276 kB", "MemFree", 242276.0),
        ("MemAvailable:     292088 kB", "MemAvailable", 292088.0),
        ("Buffers:            4544 kB", "Buffers", 4544.0),
        ("Cached:            52128 kB", "Cached", 52128.0),
    ];
    for (line, expected_key, expected_value) in cases {
        let (key, value) = parse_meminfo_line(line).unwrap();
        assert_eq!(key, expected_key);
        assert_eq!(value.parse::<f64>().unwrap(), expected_value);
    }
    assert_eq!(parse_meminfo_line("HugePages_Total:       0"), None);
    assert_eq!(parse_meminfo_line("MemTotal: 365916"), None);
    assert_eq!(parse_meminfo_line("MemTotal:365916 kB"), None);
}

#[test]
fn meminfo_text_skips_other_lines() {
    let text = "\nMemTotal:   100 kB\nHugePages_Total:  0\nMemFree:   20 kB\n\n";
    assert_eq!(
        parse_meminfo_stats(text),
        vec![
            ("MemTotal".to_string(), "100".to_string()),
            ("MemFree".to_string(), "20".to_string()),
        ]
    );
}

#[test]
fn process_stat_values() {
    let line = "55270 (memfaultd) S 1 55270 55270 0 -1 4194368 825 0 0 0 155 102 0 0 20 0 19 0 18548522 1411293184 4397 18446744073709551615 1 1 0 0 0 0 0 4096 17987 0 0 0 17 7 0 0 0 0 0 0 0 0 0 0 0 0 0";
    let (_, after_comm) = parse_pid_and_comm(line).unwrap();
    let after_state = parse_state(line, after_comm).unwrap();
    let values = parse_stat_values(line, after_state).unwrap();
    assert_eq!(values.len(), STAT_VALUE_COUNT);
    assert_eq!(values[6], "825"); // minor page faults
    assert_eq!(values[10], "155"); // user time
    assert_eq!(values[11], "102"); // system time
    assert_eq!(values[16], "19"); // threads
    assert_eq!(values[19], "1411293184"); // virtual memory
    assert_eq!(values[20], "4397"); // resident pages
    assert_eq!(values[4], "-1");
    assert_eq!(parse_stat_values("7 (a) R 1 2 3", 7), None);
}

fn battery_reading(output: &str) -> Result<(ChargingState, f64), String> {
    match split_battery_reading(output) {
        Err(BatteryReadingError::InvalidOutput) => Err("no separator".to_string()),
        Err(BatteryReadingError::InvalidChargingState(s)) => Err(s),
        Ok((state, pct)) => match pct.parse::<f64>() {
            Ok(p) if (0.0..=100.0).contains(&p) => Ok((state, p)),
            _ => Err(pct),
        },
    }
}

#[test]
fn test_parse() {
    let cases: [(&str, bool); 15] = [
        ("Charging:80", true),
        ("Discharging:80", true),
        ("Not charging:80", true),
        ("Isn't charging:80", false),
        ("Charging:EIGHTY", false),
        ("Charging:42.5", true),
        ("Charging:42.five", false),
        ("Charging:42.3.5", false),
        ("Charging:-1", false),
        ("Discharging:100.1", false),
        ("Discharging:100.0", true),
        ("Discharging:0.0", true),
        ("Discharging:-0.1", false),
        ("Full:100.0", true),
        ("Unknown:80", true),
    ];
    for (output, is_ok) in cases {
        assert_eq!(battery_reading(output).is_ok(), is_ok, "{}", output);
    }
}

#[test]
fn battery_output_parts() {
    assert_eq!(
        split_battery_reading("  Not charging:55.5\n"),
        Ok((ChargingState::NotCharging, "55.5".to_string()))
    );
    assert_eq!(split_battery_reading("Charging"), Err(BatteryReadingError::InvalidOutput));
    assert_eq!(
        split_battery_reading("Isn't charging:80"),
        Err(BatteryReadingError::InvalidChargingState("Isn't charging".to_string()))
    );
    assert_eq!(
        split_battery_reading("Full:1:2"),
        Ok((ChargingState::Full, "1:2".to_string()))
    );
}

#[test]
fn parse_valid_arg_reading() {
    for (input, key, value) in [
        ("testCounter=1", "testCounter", "1"),
        ("hello=world", "hello", "world"),
        ("float=100.0", "float", "100.0"),
        ("a=b=c", "a", "b=c"),
    ] {
        let (k, v) = split_arg_reading(input).unwrap();
        assert_eq!((k.as_str(), v.as_str()), (key, value));
    }
    assert_eq!(split_arg_reading("no separator"), Err(ArgReadingError::MissingSeparator));
    assert!(matches!(split_arg_reading("=1"), Err(ArgReadingError::InvalidKey(_))));
    assert!(matches!(split_arg_reading("k\u{e9}y=1"), Err(ArgReadingError::InvalidKey(_))));
}
