use memfaultd::metrics::system_metrics::buddyinfo::{
    buddyinfo_readings, parse_buddyinfo, parse_buddyinfo_line, sum_free_blocks_by_order,
};

const SINGLE_ZONE: &str =
    "Node 0, zone   Normal   1055    877    606    350    205     96     44     16      4      1      0";

const MULTI_ZONE: &str = "Node 0, zone      DMA      1      1      1      0      2      1      1      0      1      1      3
Node 0, zone    DMA32    203    210    146    120     82     53     37     22     13      7    121
Node 0, zone   Normal   1055    877    606    350    205     96     44     16      4      1      0";

const FRAGMENTED: &str =
    "Node 0, zone   Normal   4096   2048    512      0      0      0      0      0      0      0      0";

const DIFFERING_COLUMNS: &str = "Node 0, zone   Normal   1055    877    606    350    205     96     44     16      4      1      0
Node 1, zone   Normal     10      5      2      1      0      0      1      2";

#[test]
fn test_parse_buddyinfo_line_fields() {
    let row = parse_buddyinfo_line(SINGLE_ZONE).expect("valid line parses");
    assert_eq!(row.node, 0);
    assert_eq!(row.zone, "Normal");
    assert_eq!(
        row.free_blocks,
        vec![1055, 877, 606, 350, 205, 96, 44, 16, 4, 1, 0]
    );
}

#[test]
fn test_parse_buddyinfo_row_count() {
    for (content, expected_rows) in [
        (SINGLE_ZONE, 1),
        (MULTI_ZONE, 3),
        (FRAGMENTED, 1),
        (DIFFERING_COLUMNS, 2),
    ] {
        let rows = parse_buddyinfo(content).expect("valid buddyinfo parses");
        assert_eq!(rows.len(), expected_rows);
    }
}

#[test]
fn test_parse_buddyinfo_line_rejects_invalid() {
    for line in [
        "Node 0, Normal   1  2  3",
        "Node 0, zone   Normal   1  2  three  4",
        "this is not a buddyinfo line",
        "Node 0, zone   Normal",
        "",
    ] {
        assert!(parse_buddyinfo_line(line).is_none());
    }
}

#[test]
fn test_parse_buddyinfo_all_invalid_is_err() {
    assert!(parse_buddyinfo("garbage\nmore garbage").is_err());
}

#[test]
fn test_sum_free_blocks_across_zones() {
    let rows = parse_buddyinfo(MULTI_ZONE).expect("valid buddyinfo parses");
    let sums = sum_free_blocks_by_order(&rows);
    assert_eq!(
        sums,
        vec![1259, 1088, 753, 470, 289, 150, 82, 38, 18, 9, 124]
    );
}

#[test]
fn test_sum_free_blocks_differing_columns() {
    let rows = parse_buddyinfo(DIFFERING_COLUMNS).expect("valid buddyinfo parses");
    let sums = sum_free_blocks_by_order(&rows);
    assert_eq!(sums.len(), 11);
    assert_eq!(sums, vec![1065, 882, 608, 351, 205, 96, 45, 18, 4, 1, 0]);
}

#[test]
fn node_id_commas_and_plus_sign() {
    let row = parse_buddyinfo_line("Node +7,,, zone DMA 1 +2").expect("parses");
    assert_eq!(row.node, 7);
    assert_eq!(row.zone, "DMA");
    assert_eq!(row.free_blocks, vec![1, 2]);
    // a node id beyond u32 is rejected, a count beyond u64 as well
    assert!(parse_buddyinfo_line("Node 4294967296, zone DMA 1").is_none());
    assert!(parse_buddyinfo_line("Node 1, zone DMA 18446744073709551616").is_none());
    assert!(parse_buddyinfo_line("Node 1, zone DMA 18446744073709551615").is_some());
    // tabs and CRLF endings are whitespace
    let rows = parse_buddyinfo("Node\t0,\tzone\tNormal\t3\t4\r\nNode 1, zone Normal 1").unwrap();
    assert_eq!(rows.len(), 2);
    assert_eq!(rows[0].free_blocks, vec![3, 4]);
}

#[test]
fn sums_saturate() {
    let rows = parse_buddyinfo(
        "Node 0, zone A 18446744073709551615 1\nNode 1, zone B 5",
    )
    .unwrap();
    assert_eq!(sum_free_blocks_by_order(&rows), vec![u64::MAX, 1]);
}

#[test]
fn readings_keys_per_order() {
    let readings = buddyinfo_readings(DIFFERING_COLUMNS).unwrap();
    assert_eq!(readings.len(), 11);
    assert_eq!(readings[0].0.as_str(), "memory/buddyinfo/order_0");
    assert_eq!(readings[0].1, 1065);
    assert_eq!(readings[10].0.as_str(), "memory/buddyinfo/order_10");
    assert_eq!(readings[10].1, 0);
    assert!(buddyinfo_readings("garbage").is_err());
}
