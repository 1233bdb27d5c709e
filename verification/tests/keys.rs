use memfaultd::metrics::metric_string_key::{MetricStringKey, KEY_ASCII_ERROR, KEY_LENGTH_ERROR};
use memfaultd::metrics::session_name::SessionName;
use memfaultd::parse::{parse_i64_at, parse_spaced_u64s, parse_u64_at, skip_run, CharClass};
use memfaultd::text::{
    chars_of, split_lines, split_on_range, split_whitespace_range, string_from_range, trim_range,
    usize_to_decimal,
};
use memfaultd::util::name_map::NameMap;
use memfaultd::util::patterns::{alphanum_slug_is_valid_and_starts_alpha, SlugError};
use memfaultd::util::wildcard_pattern::WildcardPattern;

#[test]
fn validation_errors() {
    let cases: [(&str, &str); 2] = [
        ("", "Invalid key: must be between 1 and 128 characters"),
        ("\u{1F4A9}", "Invalid key: must be ASCII"),
    ];
    for (input, expected) in cases {
        assert_eq!(MetricStringKey::from_str(input).err().unwrap(), expected);
    }
    assert_eq!(MetricStringKey::from_str(&"k".repeat(129)).err().unwrap(), KEY_LENGTH_ERROR);
    assert_eq!(MetricStringKey::from_str("caf\u{e9}").err().unwrap(), KEY_ASCII_ERROR);
}

#[test]
fn parsed_ok() {
    for input in ["foo", "weird valid.key-123$"] {
        assert_eq!(MetricStringKey::from_str(input).ok().unwrap().as_str(), input);
    }
    let longest = "k".repeat(128);
    assert_eq!(MetricStringKey::from_str(&longest).unwrap().as_str(), longest);
}

#[test]
fn null_gets_removed() {
    assert_eq!(MetricStringKey::from_str("foo\0").ok().unwrap().as_str(), "foo");
    assert_eq!(MetricStringKey::from_str("a\0b\0").ok().unwrap().as_str(), "ab");
}

#[test]
fn key_suffix_and_equality() {
    let key = MetricStringKey::from("cpu_usage");
    assert_eq!(key.with_suffix("_pct").as_str(), "cpu_usage_pct");
    assert!(key.same_as(&MetricStringKey::from_string("cpu_usage".to_string())));
    assert!(!key.same_as(&MetricStringKey::from("cpu")));
    assert!(key.duplicate().same_as(&key));
}

#[test]
fn session_name_validation_errors() {
    assert_eq!(SessionName::from_str(""), Err(SlugError::Empty));
    assert_eq!(SessionName::from_str("\u{1F4A9}"), Err(SlugError::InvalidCharacter));
    assert_eq!(SessionName::from_str("Wi-fi Connected"), Err(SlugError::InvalidCharacter));
    assert_eq!(SessionName::from_str("1session"), Err(SlugError::DoesNotStartAlpha));
    assert_eq!(SessionName::from_str(&"s".repeat(65)), Err(SlugError::TooLong));
}

#[test]
fn session_name_parsed_ok() {
    for input in ["foo", "valid_session-name"] {
        assert_eq!(SessionName::from_str(input).unwrap().as_str(), input);
    }
    assert!(SessionName::from_str(&"s".repeat(64)).is_ok());
    let a = SessionName::from_str("foo").unwrap();
    assert!(a.same_as(&SessionName::from_str("foo").unwrap()));
    assert!(!a.same_as(&SessionName::from_str("bar").unwrap()));
}

#[test]
fn slug_checks() {
    assert_eq!(alphanum_slug_is_valid_and_starts_alpha("abc-1_2", 7), Ok(()));
    assert_eq!(alphanum_slug_is_valid_and_starts_alpha("abc-1_2", 6), Err(SlugError::TooLong));
    assert_eq!(alphanum_slug_is_valid_and_starts_alpha("a.b", 6), Err(SlugError::InvalidCharacter));
    assert_eq!(alphanum_slug_is_valid_and_starts_alpha("_ab", 6), Err(SlugError::DoesNotStartAlpha));
}

#[test]
fn wildcard_patterns() {
    let p = WildcardPattern::new("eth", "0");
    assert!(p.matches("eth0"));
    assert!(p.matches("eth10"));
    assert!(!p.matches("eth1"));
    assert!(!p.matches("wlan0"));
    let overlapping = WildcardPattern::new("ab", "ba");
    assert!(!overlapping.matches("aba"));
    assert!(overlapping.matches("abba"));
    let any = WildcardPattern::new("", "");
    assert!(any.matches(""));
    assert!(any.duplicate().matches("anything"));
}

#[test]
fn name_map_replaces_and_keeps() {
    let mut m: NameMap<u64> = NameMap::new();
    assert_eq!(m.get("sda"), None);
    assert_eq!(m.insert("sda", 1), None);
    assert_eq!(m.insert("sdb", 2), None);
    assert_eq!(m.insert("sda", 3), Some(1));
    assert_eq!(m.get("sda"), Some(3));
    assert_eq!(m.get("sdb"), Some(2));
    assert_eq!(m.get("sdc"), None);
}

#[test]
fn text_helpers() {
    let v = chars_of("  a bb\tccc  ");
    let words: Vec<String> = split_whitespace_range(&v, 0, v.len())
        .into_iter()
        .map(|(a, b)| string_from_range(&v, a, b))
        .collect();
    assert_eq!(words, vec!["a", "bb", "ccc"]);
    let (a, b) = trim_range(&v, 0, v.len());
    assert_eq!(string_from_range(&v, a, b), "a bb\tccc");

    let lines = chars_of("one\ntwo\n\nthree");
    let parts: Vec<String> =
        split_lines(&lines).into_iter().map(|(a, b)| string_from_range(&lines, a, b)).collect();
    assert_eq!(parts, vec!["one", "two", "", "three"]);

    let csv = chars_of("x,,y");
    let fields: Vec<String> = split_on_range(&csv, 0, csv.len(), ',')
        .into_iter()
        .map(|(a, b)| string_from_range(&csv, a, b))
        .collect();
    assert_eq!(fields, vec!["x", "", "y"]);

    assert_eq!(usize_to_decimal(0), "0");
    assert_eq!(usize_to_decimal(40213), "40213");
}

#[test]
fn number_parsers() {
    let v = chars_of("123 -45 x");
    assert_eq!(parse_u64_at(&v, 0), Some((123, 3)));
    assert_eq!(parse_u64_at(&v, 3), None);
    assert_eq!(skip_run(CharClass::Space, &v, 3), 4);
    assert_eq!(parse_i64_at(&v, 4), Some((-45, 7)));
    assert_eq!(parse_i64_at(&v, 8), None);
    let big = chars_of("18446744073709551616");
    assert_eq!(parse_u64_at(&big, 0), None);
    let row = chars_of("1  2 3");
    assert_eq!(parse_u64_at(&row, 0), Some((1, 1)));
    assert_eq!(parse_spaced_u64s(CharClass::Space, &row, 1, 2), Some(vec![2, 3]));
    assert_eq!(parse_spaced_u64s(CharClass::Space, &row, 1, 3), None);
    assert_eq!(parse_spaced_u64s(CharClass::Space, &row, 0, 1), None);
}
