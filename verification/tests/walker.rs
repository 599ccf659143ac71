use dirsize::diagnostic::Diagnostic;
use dirsize::entry::{Directory, Entry, FileEntry, Stat, Timestamp};
use dirsize::walker::{aggregate, depth_below, is_pruned, Measured, Walk, WalkError};

fn at(secs: i64) -> Timestamp {
    Timestamp { secs, nanos: 0 }
}

fn file(name: &str, size: u64) -> Entry {
    Entry::File(FileEntry { name: name.to_string(), stat: Stat { size, modified: at(100) } })
}

fn dir(name: &str, own: u64, children: Vec<Entry>) -> Directory {
    Directory {
        name: name.to_string(),
        stat: Ok(Stat { size: own, modified: at(200) }),
        listing: Ok(children),
    }
}

fn unreadable(name: &str, error: &str) -> Entry {
    Entry::Unreadable { name: name.to_string(), error: error.to_string() }
}

fn measured(name: &str, total_size: u64) -> Result<Measured, WalkError> {
    Ok(Measured { name: name.to_string(), modified: Some(at(200)), total_size })
}

fn pruned() -> Walk {
    Walk {
        result: Ok(Measured { name: String::new(), modified: None, total_size: 0 }),
        diagnostics: vec![],
    }
}

#[test]
fn empty_directory_counts_its_own_size() {
    let out = aggregate(&dir("d", 4096, vec![]), 0, 5);
    assert_eq!(out, Walk { result: measured("d", 4096), diagnostics: vec![] });
}

#[test]
fn files_add_their_sizes() {
    let d = dir("d", 4096, vec![file("a", 10), file("b", 20), file("c", 0)]);
    assert_eq!(aggregate(&d, 0, 5).result, measured("d", 4126));
}

#[test]
fn nested_directories_add_own_size_at_every_level() {
    let inner = dir("inner", 100, vec![file("x", 7)]);
    let middle = dir("middle", 1000, vec![Entry::Directory(inner), file("y", 3)]);
    let outer = dir("outer", 10000, vec![file("z", 1), Entry::Directory(middle)]);
    let out = aggregate(&outer, 0, 5);
    assert_eq!(out.result, measured("outer", 10000 + 1 + 1000 + 3 + 100 + 7));
    assert!(out.diagnostics.is_empty());
}

#[test]
fn total_is_at_least_the_direct_files() {
    let deep = dir("deep", 64, vec![file("p", 500)]);
    let d = dir("d", 32, vec![file("a", 10), Entry::Directory(deep), file("b", 20)]);
    for max_depth in 0..4 {
        let total = aggregate(&d, 0, max_depth).result.unwrap().total_size;
        assert!(total >= 30);
    }
}

#[test]
fn ceiling_zero_counts_own_size_and_direct_files_only() {
    let deep = dir("deep", 64, vec![file("p", 500)]);
    let d = dir("d", 32, vec![file("a", 10), Entry::Directory(deep), file("b", 20)]);
    assert_eq!(aggregate(&d, 0, 0).result, measured("d", 32 + 30));
}

#[test]
fn ceiling_zero_with_empty_inode_equals_the_direct_files() {
    let deep = dir("deep", 64, vec![file("p", 500)]);
    let d = dir("d", 0, vec![file("a", 10), Entry::Directory(deep), file("b", 20)]);
    assert_eq!(aggregate(&d, 0, 0).result, measured("d", 30));
}

#[test]
fn beyond_the_ceiling_is_pruned_whatever_it_holds() {
    let d = dir("d", 4096, vec![file("a", 10), unreadable("gone", "no such file")]);
    assert_eq!(aggregate(&d, 1, 0), pruned());
    assert_eq!(aggregate(&d, 6, 5), pruned());
    assert_eq!(aggregate(&d, usize::MAX, 0), pruned());
    let broken = Directory {
        name: "broken".to_string(),
        stat: Err("denied".to_string()),
        listing: Err("denied".to_string()),
    };
    assert_eq!(aggregate(&broken, 3, 2), pruned());
}

#[test]
fn at_the_ceiling_is_not_pruned() {
    let d = dir("d", 4096, vec![file("a", 10)]);
    assert_eq!(aggregate(&d, 5, 5).result, measured("d", 4106));
    assert_eq!(aggregate(&d, usize::MAX, usize::MAX).result, measured("d", 4106));
}

#[test]
fn is_pruned_compares_strictly() {
    assert!(!is_pruned(0, 0));
    assert!(!is_pruned(5, 5));
    assert!(is_pruned(6, 5));
    assert!(is_pruned(1, 0));
    assert!(!is_pruned(0, usize::MAX));
}

#[test]
fn child_directories_beyond_the_ceiling_count_as_zero() {
    let level2 = dir("level2", 100, vec![file("x", 7)]);
    let level1 = dir("level1", 1000, vec![Entry::Directory(level2)]);
    let top = dir("top", 10000, vec![Entry::Directory(level1)]);
    assert_eq!(aggregate(&top, 0, 0).result, measured("top", 10000));
    assert_eq!(aggregate(&top, 0, 1).result, measured("top", 11000));
    assert_eq!(aggregate(&top, 0, 2).result, measured("top", 11107));
    assert_eq!(aggregate(&top, 0, 3).result, measured("top", 11107));
}

#[test]
fn unlisted_directory_fails() {
    let d = Directory {
        name: "d".to_string(),
        stat: Ok(Stat { size: 1, modified: at(0) }),
        listing: Err("permission denied".to_string()),
    };
    let out = aggregate(&d, 0, 5);
    assert_eq!(out.result, Err(WalkError::Unreadable("permission denied".to_string())));
    assert!(out.diagnostics.is_empty());
}

#[test]
fn failed_listing_is_reported_before_failed_metadata() {
    let d = Directory {
        name: "d".to_string(),
        stat: Err("stat failed".to_string()),
        listing: Err("list failed".to_string()),
    };
    assert_eq!(aggregate(&d, 0, 5).result, Err(WalkError::Unreadable("list failed".to_string())));
}

#[test]
fn directory_without_metadata_fails() {
    let d = Directory {
        name: "d".to_string(),
        stat: Err("stat failed".to_string()),
        listing: Ok(vec![file("a", 10)]),
    };
    assert_eq!(aggregate(&d, 0, 5).result, Err(WalkError::Unreadable("stat failed".to_string())));
}

#[test]
fn failed_child_directory_counts_as_zero_with_a_diagnostic() {
    let bad = Directory {
        name: "bad".to_string(),
        stat: Ok(Stat { size: 77, modified: at(0) }),
        listing: Err("permission denied".to_string()),
    };
    let d = dir("d", 4096, vec![file("a", 10), Entry::Directory(bad), file("b", 20)]);
    let out = aggregate(&d, 0, 5);
    assert_eq!(out.result, measured("d", 4126));
    assert_eq!(
        out.diagnostics,
        vec![Diagnostic::ChildFailed {
            name: "bad".to_string(),
            error: "permission denied".to_string(),
        }]
    );
}

#[test]
fn unreadable_child_ends_the_walk_of_its_directory() {
    let d = dir("d", 4096, vec![file("a", 10), unreadable("gone", "no such file"), file("b", 20)]);
    let out = aggregate(&d, 0, 5);
    assert_eq!(out.result, Err(WalkError::Unreadable("no such file".to_string())));
    assert!(out.diagnostics.is_empty());
}

#[test]
fn unreadable_file_below_is_caught_one_level_up() {
    let inner = dir("inner", 100, vec![unreadable("gone", "no such file")]);
    let d = dir("d", 4096, vec![Entry::Directory(inner), file("b", 20)]);
    let out = aggregate(&d, 0, 5);
    assert_eq!(out.result, measured("d", 4116));
    assert_eq!(
        out.diagnostics,
        vec![Diagnostic::ChildFailed { name: "inner".to_string(), error: "no such file".to_string() }]
    );
}

#[test]
fn diagnostics_come_in_the_order_of_the_walk() {
    let deepest = Directory {
        name: "deepest".to_string(),
        stat: Err("e1".to_string()),
        listing: Ok(vec![]),
    };
    let first = dir("first", 1, vec![Entry::Directory(deepest)]);
    let second = dir("second", 2, vec![unreadable("x", "e2")]);
    let d = dir("d", 4, vec![Entry::Directory(first), Entry::Directory(second)]);
    let out = aggregate(&d, 0, 5);
    assert_eq!(out.result, measured("d", 5));
    assert_eq!(
        out.diagnostics,
        vec![
            Diagnostic::ChildFailed { name: "deepest".to_string(), error: "e1".to_string() },
            Diagnostic::ChildFailed { name: "second".to_string(), error: "e2".to_string() },
        ]
    );
}

#[test]
fn diagnostics_before_the_failure_are_kept() {
    let bad = Directory {
        name: "bad".to_string(),
        stat: Err("e1".to_string()),
        listing: Ok(vec![]),
    };
    let late = Directory {
        name: "late".to_string(),
        stat: Err("e3".to_string()),
        listing: Ok(vec![]),
    };
    let d = dir(
        "d",
        4,
        vec![Entry::Directory(bad), unreadable("gone", "e2"), Entry::Directory(late)],
    );
    let out = aggregate(&d, 0, 5);
    assert_eq!(out.result, Err(WalkError::Unreadable("e2".to_string())));
    assert_eq!(
        out.diagnostics,
        vec![Diagnostic::ChildFailed { name: "bad".to_string(), error: "e1".to_string() }]
    );
}

#[test]
fn total_beyond_64_bits_is_an_overflow() {
    let d = dir("d", 1, vec![file("huge", u64::MAX)]);
    assert_eq!(aggregate(&d, 0, 5).result, Err(WalkError::Overflow));
    let exact = dir("d", 1, vec![file("huge", u64::MAX - 1)]);
    assert_eq!(aggregate(&exact, 0, 5).result, measured("d", u64::MAX));
}

#[test]
fn overflow_below_is_an_overflow_above() {
    let inner = dir("inner", 1, vec![file("huge", u64::MAX)]);
    let d = dir("d", 1, vec![Entry::Directory(inner), file("a", 1)]);
    let out = aggregate(&d, 0, 5);
    assert_eq!(out.result, Err(WalkError::Overflow));
    assert!(out.diagnostics.is_empty());
}

#[test]
fn failed_read_wins_over_an_overflow() {
    let d = dir(
        "d",
        1,
        vec![file("huge", u64::MAX), file("more", u64::MAX), unreadable("gone", "no such file")],
    );
    assert_eq!(
        aggregate(&d, 0, 5).result,
        Err(WalkError::Unreadable("no such file".to_string()))
    );
}

#[test]
fn walking_twice_gives_the_same_outcome() {
    let bad = Directory {
        name: "bad".to_string(),
        stat: Err("e1".to_string()),
        listing: Ok(vec![]),
    };
    let d = dir("d", 4096, vec![file("a", 10), Entry::Directory(bad)]);
    assert_eq!(aggregate(&d, 0, 3), aggregate(&d, 0, 3));
}

#[test]
fn unread_directory_fails_within_the_ceiling() {
    let d = Directory::unread("skipped".to_string());
    assert_eq!(d.name, "skipped");
    assert!(aggregate(&d, 0, 0).result.is_err());
    assert_eq!(aggregate(&d, 1, 0), pruned());
}

#[test]
fn timestamps_after_the_epoch() {
    assert_eq!(Timestamp::after_epoch(0, 0), Timestamp { secs: 0, nanos: 0 });
    assert_eq!(Timestamp::after_epoch(1431648000, 5), Timestamp { secs: 1431648000, nanos: 5 });
    assert_eq!(Timestamp::after_epoch(u64::MAX, 1), Timestamp { secs: i64::MAX, nanos: 1 });
    assert_eq!(
        Timestamp::after_epoch(i64::MAX as u64, 0),
        Timestamp { secs: i64::MAX, nanos: 0 }
    );
}

#[test]
fn timestamps_before_the_epoch() {
    assert_eq!(Timestamp::before_epoch(0, 0), Timestamp { secs: 0, nanos: 0 });
    assert_eq!(Timestamp::before_epoch(10, 0), Timestamp { secs: -10, nanos: 0 });
    assert_eq!(
        Timestamp::before_epoch(10, 250_000_000),
        Timestamp { secs: -11, nanos: 750_000_000 }
    );
    assert_eq!(Timestamp::before_epoch(0, 1), Timestamp { secs: -1, nanos: 999_999_999 });
    assert_eq!(Timestamp::before_epoch(u64::MAX, 0), Timestamp { secs: i64::MIN, nanos: 0 });
    assert_eq!(
        Timestamp::before_epoch(i64::MAX as u64, 1),
        Timestamp { secs: i64::MIN, nanos: 999_999_999 }
    );
    assert_eq!(
        Timestamp::before_epoch(1u64 << 63, 0),
        Timestamp { secs: i64::MIN, nanos: 0 }
    );
    assert_eq!(
        Timestamp::before_epoch(0, 1_500_000_000),
        Timestamp { secs: -2, nanos: 500_000_000 }
    );
    assert_eq!(Timestamp::before_epoch(3, 2_000_000_000), Timestamp { secs: -5, nanos: 0 });
    assert_eq!(
        Timestamp::before_epoch(u64::MAX, u32::MAX),
        Timestamp { secs: i64::MIN, nanos: 1_000_000_000 - u32::MAX % 1_000_000_000 }
    );
}

#[test]
fn child_directories_are_one_level_deeper() {
    assert_eq!(depth_below(0, 5), Some(1));
    assert_eq!(depth_below(4, 5), Some(5));
    assert_eq!(depth_below(5, 5), None);
    assert_eq!(depth_below(0, 0), None);
    assert_eq!(depth_below(7, 5), None);
    assert_eq!(depth_below(usize::MAX, usize::MAX), None);
    assert_eq!(depth_below(usize::MAX - 1, usize::MAX), Some(usize::MAX));
}

#[test]
fn total_grows_with_the_ceiling() {
    let bad = Directory {
        name: "bad".to_string(),
        stat: Err("denied".to_string()),
        listing: Ok(vec![]),
    };
    let level3 = dir("level3", 8, vec![file("q", 9), Entry::Directory(bad)]);
    let level2 = dir("level2", 100, vec![file("x", 7), Entry::Directory(level3)]);
    let level1 = dir("level1", 1000, vec![Entry::Directory(level2), file("y", 1)]);
    let top = dir("top", 10000, vec![Entry::Directory(level1), file("z", 2)]);
    let mut last = 0;
    for max_depth in 0..8 {
        let total = aggregate(&top, 0, max_depth).result.unwrap().total_size;
        assert!(total >= last);
        last = total;
    }
    assert_eq!(last, 10000 + 2 + 1000 + 1 + 100 + 7 + 8 + 9);
}
