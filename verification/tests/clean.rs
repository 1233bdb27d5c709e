use memfaultd::mar::clean::{
    mark_entries_for_deletion, space_left_after_cleaning, total_space_used, AgeSizePath,
    DeletionReason,
};
use memfaultd::util::disk_size::DiskSize;

const SEC: u128 = 1_000_000_000;
const NOW: u128 = 1_700_000_000 * SEC;

fn entry(path: &str, bytes: u64, inodes: u64, timestamp: u128, reference: u128) -> AgeSizePath {
    AgeSizePath::new(path, DiskSize { bytes, inodes }, timestamp, reference)
}

fn mark(
    entries: Vec<AgeSizePath>,
    max_total_size: DiskSize,
    available_space: DiskSize,
    min_space: DiskSize,
    max_age: u128,
    max_count: usize,
) -> Vec<(String, DeletionReason)> {
    let total = total_space_used(&entries);
    mark_entries_for_deletion(
        entries,
        total,
        max_total_size,
        available_space,
        min_space,
        max_age,
        max_count,
    )
    .into_iter()
    .map(|(e, r)| (e.path, r))
    .collect()
}

#[test]
fn test_no_delete_reasons_when_within_quota() {
    let entries = vec![
        entry("/mock/a", 1000, 2, NOW + SEC, NOW),
        entry("/mock/b", 1000, 2, NOW + 10 * SEC, NOW),
        entry("/mock/c", 1000, 2, NOW + 15 * SEC, NOW),
    ];
    let marked = mark(
        entries,
        DiskSize::new_capacity(25000),
        DiskSize { bytes: 20000, inodes: 100 },
        DiskSize { bytes: 20000, inodes: 20 },
        0,
        0,
    );
    assert!(marked.is_empty());
}

fn three_entries() -> Vec<AgeSizePath> {
    vec![
        entry("/mock/c", 1000, 2, NOW - 15 * SEC, NOW),
        entry("/mock/a", 1000, 2, NOW - SEC, NOW),
        entry("/mock/b", 1000, 2, NOW - 10 * SEC, NOW),
    ]
}

#[test]
fn test_oldest_marked_when_over_max_total_size() {
    for max_total_size in [DiskSize::new_capacity(2500), DiskSize { bytes: 10000, inodes: 4 }] {
        let marked = mark(
            three_entries(),
            max_total_size,
            DiskSize::new_capacity(10000),
            DiskSize::zero(),
            0,
            0,
        );
        assert_eq!(marked, vec![("/mock/c".to_string(), DeletionReason::DiskQuota)]);
    }
}

#[test]
fn test_two_oldest_marked_when_under_min_headroom() {
    for (min_headroom, available_space) in [
        (DiskSize { bytes: 3000, inodes: 100 }, DiskSize::new_capacity(1500)),
        (DiskSize { bytes: 10000, inodes: 4 }, DiskSize { bytes: 10000, inodes: 0 }),
    ] {
        let entries = vec![
            entry("/mock/c", 1000, 2, NOW - 15 * SEC, NOW),
            // collected after the reference date: age zero
            entry("/mock/a", 1000, 2, NOW, NOW - SEC),
            entry("/mock/b", 1000, 2, NOW - 10 * SEC, NOW),
        ];
        let marked = mark(
            entries,
            DiskSize::new_capacity(10000),
            available_space,
            min_headroom,
            0,
            0,
        );
        assert_eq!(
            marked,
            vec![
                ("/mock/c".to_string(), DeletionReason::DiskQuota),
                ("/mock/b".to_string(), DeletionReason::DiskQuota)
            ]
        );
    }
}

#[test]
fn expired_entries_marked() {
    let entries = vec![
        entry("/mock/c", 1000, 2, NOW - 15 * SEC, NOW),
        entry("/mock/a", 1000, 2, NOW - 5 * SEC, NOW),
        entry("/mock/b", 1000, 2, NOW - 10 * SEC, NOW),
    ];
    let marked = mark(
        entries,
        DiskSize::new_capacity(10000),
        DiskSize::new_capacity(10000),
        DiskSize::zero(),
        SEC,
        0,
    );
    assert_eq!(marked.len(), 3);
    assert!(marked.iter().all(|(_, r)| *r == DeletionReason::Expired));
    // oldest first
    assert_eq!(marked[0].0, "/mock/c");
    assert_eq!(marked[1].0, "/mock/b");
    assert_eq!(marked[2].0, "/mock/a");
}

fn five_entries() -> Vec<AgeSizePath> {
    vec![
        entry("/mock/c", 1000, 2, NOW - 200 * SEC, NOW),
        entry("/mock/d", 1000, 2, NOW - 250 * SEC, NOW),
        entry("/mock/e", 1000, 2, NOW - 300 * SEC, NOW),
        entry("/mock/a", 1000, 2, NOW - 15 * SEC, NOW),
        entry("/mock/b", 1000, 2, NOW - 30 * SEC, NOW),
    ]
}

#[test]
fn test_marks_quota_and_expired_entries() {
    let marked = mark(
        five_entries(),
        DiskSize::new_capacity(3000),
        DiskSize::new_capacity(10000),
        DiskSize::zero(),
        100 * SEC,
        0,
    );
    assert_eq!(
        marked,
        vec![
            ("/mock/e".to_string(), DeletionReason::DiskQuota),
            ("/mock/d".to_string(), DeletionReason::DiskQuota),
            ("/mock/c".to_string(), DeletionReason::Expired),
        ]
    );
}

#[test]
fn test_marks_when_different_quotas_exceeded() {
    let marked = mark(
        five_entries(),
        DiskSize::new_capacity(3000),
        DiskSize { bytes: 10000, inodes: 6 },
        DiskSize { bytes: 1024, inodes: 10 },
        0,
        0,
    );
    assert!(marked
        .iter()
        .all(|(p, r)| p != "/mock/a" && p != "/mock/b" && *r == DeletionReason::DiskQuota));
    assert_eq!(marked[0].0, "/mock/e");
    assert_eq!(marked[1].0, "/mock/d");
}

#[test]
fn deletes_oldest_entries_over_max_count() {
    for (max_count, expected) in [(0usize, 0usize), (1, 1), (2, 0), (3, 0)] {
        let entries = vec![
            entry("/mock/new", 1, 1, NOW, NOW),
            entry("/mock/old", 1, 1, NOW - 86400 * SEC, NOW),
        ];
        let marked = mark(
            entries,
            DiskSize::new_capacity(2048),
            DiskSize { bytes: u64::MAX / 2, inodes: u64::MAX / 2 },
            DiskSize::zero(),
            0,
            max_count,
        );
        assert_eq!(marked.len(), expected);
        if expected == 1 {
            assert_eq!(marked[0], ("/mock/old".to_string(), DeletionReason::EntryQuota));
        }
    }
}

#[test]
fn equal_ages_keep_their_order() {
    let entries = vec![
        entry("/mock/x", 10, 1, NOW - SEC, NOW),
        entry("/mock/y", 10, 1, NOW - SEC, NOW),
        entry("/mock/z", 10, 1, NOW - SEC, NOW),
    ];
    let marked = mark(
        entries,
        DiskSize::new_capacity(1000),
        DiskSize::new_capacity(1000),
        DiskSize::zero(),
        1,
        0,
    );
    let paths: Vec<&str> = marked.iter().map(|(p, _)| p.as_str()).collect();
    assert_eq!(paths, vec!["/mock/x", "/mock/y", "/mock/z"]);
}

#[test]
fn space_left_is_smallest_of_quota_and_headroom() {
    let max_total_size = DiskSize::new_capacity(1024);
    let available_space = DiskSize { bytes: u64::MAX / 2, inodes: u64::MAX / 2 };
    let left = space_left_after_cleaning(
        DiskSize::zero(),
        DiskSize::zero(),
        max_total_size,
        available_space,
        DiskSize::zero(),
    );
    assert_eq!(left, DiskSize::min(max_total_size, available_space));
    let left = space_left_after_cleaning(
        DiskSize { bytes: 1500, inodes: 3 },
        DiskSize { bytes: 1000, inodes: 2 },
        max_total_size,
        DiskSize { bytes: 100, inodes: 100 },
        DiskSize { bytes: 50, inodes: 10 },
    );
    assert_eq!(left, DiskSize { bytes: 524, inodes: 92 });
}

#[test]
fn deletion_reason_text() {
    assert_eq!(DeletionReason::Expired.as_str(), "Expired");
    assert_eq!(DeletionReason::DiskQuota.as_str(), "Disk quota");
    assert_eq!(DeletionReason::EntryQuota.as_str(), "Entry quota");
}
