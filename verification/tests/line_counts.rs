use jayjay::line_counts::{ChangeLineCounts, FileDiffStats, LineCounts};

#[test]
fn source_only_change_hides_extra_total() {
    let counts = ChangeLineCounts::from_path_stats(&[("lib.rs", 4, 1)]);
    assert_eq!(
        counts.source,
        LineCounts {
            insertions: 4,
            deletions: 1
        }
    );
    assert_eq!(counts.extra_total(), None);
}

#[test]
fn json_extra_keeps_source_separate() {
    let counts = ChangeLineCounts::from_path_stats(&[("lib.rs", 2, 0), ("data.json", 40, 3)]);
    assert_eq!(
        counts.source,
        LineCounts {
            insertions: 2,
            deletions: 0
        }
    );
    assert_eq!(
        counts.extra_total(),
        Some(LineCounts {
            insertions: 42,
            deletions: 3
        })
    );
}

#[test]
fn media_with_zero_lines_does_not_create_extras() {
    let counts = ChangeLineCounts::from_path_stats(&[("main.swift", 8, 2), ("beep.wav", 0, 0)]);
    assert_eq!(counts.extra_total(), None);
    assert_eq!(counts.source.insertions, 8);
}

#[test]
fn data_only_change_is_gray_total() {
    let counts = ChangeLineCounts::from_path_stats(&[("lock.json", 12, 0)]);
    assert!(counts.source.is_zero());
    assert_eq!(
        counts.extra_total(),
        Some(LineCounts {
            insertions: 12,
            deletions: 0
        })
    );
}

#[test]
fn counts_stop_at_the_largest_u32() {
    let counts = ChangeLineCounts::from_path_stats(&[
        ("a.rs", u32::MAX - 1, 7),
        ("b.rs", 5, 1),
        ("c.json", 3, 0),
    ]);
    assert_eq!(counts.source.insertions, u32::MAX);
    assert_eq!(counts.source.deletions, 8);
    assert_eq!(counts.total.insertions, u32::MAX);
    assert_eq!(counts.total.deletions, 8);
    assert_eq!(counts.extra_total(), None);
}

#[test]
fn empty_change_counts_nothing() {
    let counts = ChangeLineCounts::from_path_stats(&[]);
    assert!(counts.source.is_zero());
    assert!(counts.total.is_zero());
    assert_eq!(counts.extra_total(), None);
    assert_eq!(counts, ChangeLineCounts::default());
}

#[test]
fn source_counts_never_exceed_totals() {
    let counts = ChangeLineCounts::from_path_stats(&[
        ("src/app.ts", 10, 4),
        ("assets/logo.png", 0, 0),
        ("config.yaml", 6, 9),
        ("README.md", 1, 1),
    ]);
    assert!(counts.source.insertions <= counts.total.insertions);
    assert!(counts.source.deletions <= counts.total.deletions);
    assert_eq!(counts.source, LineCounts { insertions: 11, deletions: 5 });
    assert_eq!(counts.total, LineCounts { insertions: 17, deletions: 14 });
}

#[test]
fn file_stats_count_as_path_stats() {
    let files = vec![
        FileDiffStats { path: "src/lib.rs".to_string(), insertions: 3, deletions: 2 },
        FileDiffStats { path: "Cargo.lock".to_string(), insertions: 20, deletions: 1 },
    ];
    let counts = ChangeLineCounts::from_file_stats(&files);
    assert_eq!(
        counts,
        ChangeLineCounts::from_path_stats(&[("src/lib.rs", 3, 2), ("Cargo.lock", 20, 1)])
    );
    assert_eq!(counts.source, LineCounts { insertions: 3, deletions: 2 });
    assert_eq!(counts.extra_total(), Some(LineCounts { insertions: 23, deletions: 3 }));
}

#[test]
fn is_zero_needs_both_counts_zero() {
    assert!(LineCounts { insertions: 0, deletions: 0 }.is_zero());
    assert!(!LineCounts { insertions: 1, deletions: 0 }.is_zero());
    assert!(!LineCounts { insertions: 0, deletions: 1 }.is_zero());
}

#[test]
fn file_order_does_not_change_counts() {
    let files = [("src/a.rs", 4, 1), ("data.json", 7, 0), ("b.py", 2, 2), ("x.png", 0, 0)];
    let reordered = [("b.py", 2, 2), ("x.png", 0, 0), ("data.json", 7, 0), ("src/a.rs", 4, 1)];
    assert_eq!(ChangeLineCounts::from_path_stats(&files), ChangeLineCounts::from_path_stats(&reordered));
    let saturating = [("a.rs", u32::MAX, 1), ("b.rs", 5, u32::MAX)];
    let swapped = [("b.rs", 5, u32::MAX), ("a.rs", u32::MAX, 1)];
    assert_eq!(ChangeLineCounts::from_path_stats(&saturating), ChangeLineCounts::from_path_stats(&swapped));
}

#[test]
fn extra_total_only_when_other_files_change_lines() {
    let quiet = [("a.rs", 3, 1), ("data.json", 0, 0)];
    assert_eq!(ChangeLineCounts::from_path_stats(&quiet).extra_total(), None);
    let loud = [("a.rs", 3, 1), ("data.json", 0, 2)];
    assert_eq!(
        ChangeLineCounts::from_path_stats(&loud).extra_total(),
        Some(LineCounts { insertions: 3, deletions: 3 })
    );
}
