//! Unit tests of the diff kernel over synthetic traversal events.

use diffcore::diff::{parse_diff, DeltaKind, DeltaPaths, DiffEvent};
use diffcore::types::FileStatus;

fn paths(new: Option<&str>, old: Option<&str>) -> DeltaPaths {
    DeltaPaths {
        new_path: new.map(|s| s.to_string()),
        old_path: old.map(|s| s.to_string()),
    }
}

fn file_start(new: Option<&str>, old: Option<&str>, kind: DeltaKind) -> DiffEvent {
    DiffEvent::FileStart { paths: paths(new, old), kind }
}

fn line(new: Option<&str>, old: Option<&str>, origin: char, content: &str) -> DiffEvent {
    DiffEvent::Line {
        paths: paths(new, old),
        origin,
        content: content.as_bytes().to_vec(),
    }
}

#[test]
fn single_modified_file_counts_and_patch() {
    let events = vec![
        file_start(Some("a.txt"), Some("a.txt"), DeltaKind::Other),
        line(Some("a.txt"), Some("a.txt"), ' ', "hi\n"),
        line(Some("a.txt"), Some("a.txt"), '+', "there\n"),
    ];
    let d = parse_diff(&events, 50000);
    assert_eq!(d.files.len(), 1);
    let f = &d.files[0];
    assert_eq!(f.path, "a.txt");
    assert!(matches!(f.status, FileStatus::Modified));
    assert_eq!(f.additions, 1);
    assert_eq!(f.deletions, 0);
    assert_eq!(f.patch, " hi\n+there\n");
    assert!(!f.is_large);
    assert!(f.old_path.is_none());
    assert!(f.old_content.is_none());
    assert!(f.new_content.is_none());
    assert_eq!(d.stats.additions, 1);
    assert_eq!(d.stats.deletions, 0);
    assert_eq!(d.stats.files, 1);
}

#[test]
fn stats_are_sums_over_files() {
    let events = vec![
        file_start(Some("a"), None, DeltaKind::Added),
        line(Some("a"), None, '+', "one\n"),
        line(Some("a"), None, '+', "two\n"),
        file_start(None, Some("b"), DeltaKind::Deleted),
        line(None, Some("b"), '-', "gone\n"),
        line(None, Some("b"), '-', "also\n"),
        line(None, Some("b"), '-', "three\n"),
    ];
    let d = parse_diff(&events, 50000);
    assert_eq!(d.files.len(), 2);
    assert_eq!(d.stats.files, 2);
    let sum_add: usize = d.files.iter().map(|f| f.additions).sum();
    let sum_del: usize = d.files.iter().map(|f| f.deletions).sum();
    assert_eq!(d.stats.additions, sum_add);
    assert_eq!(d.stats.deletions, sum_del);
    assert_eq!(d.stats.additions, 2);
    assert_eq!(d.stats.deletions, 3);
    assert!(matches!(d.files[0].status, FileStatus::Added));
    assert!(matches!(d.files[1].status, FileStatus::Deleted));
    assert_eq!(d.files[1].path, "b");
}

#[test]
fn large_patch_is_discarded_but_still_counted() {
    let events = vec![
        file_start(Some("big"), Some("big"), DeltaKind::Other),
        line(Some("big"), Some("big"), '+', "aaaaaaaaaa\n"),
        line(Some("big"), Some("big"), '+', "bbbbbbbbbb\n"),
        line(Some("big"), Some("big"), '-', "cccccccccc\n"),
    ];
    let capped = parse_diff(&events, 10);
    assert_eq!(capped.files.len(), 1);
    let f = &capped.files[0];
    assert!(f.is_large);
    assert_eq!(f.patch, "");
    assert_eq!(f.additions, 2);
    assert_eq!(f.deletions, 1);

    // The counters agree with an uncapped run of the same traversal.
    let uncapped = parse_diff(&events, usize::MAX);
    assert_eq!(uncapped.files[0].additions, f.additions);
    assert_eq!(uncapped.files[0].deletions, f.deletions);
    assert!(!uncapped.files[0].is_large);
    assert_eq!(uncapped.files[0].patch, "+aaaaaaaaaa\n+bbbbbbbbbb\n-cccccccccc\n");
}

#[test]
fn rename_keeps_old_path_others_none() {
    let events = vec![
        file_start(Some("new.txt"), Some("old.txt"), DeltaKind::Renamed),
        file_start(Some("plain.txt"), Some("plain.txt"), DeltaKind::Other),
    ];
    let d = parse_diff(&events, 50000);
    assert_eq!(d.files.len(), 2);
    assert!(matches!(d.files[0].status, FileStatus::Renamed));
    assert_eq!(d.files[0].path, "new.txt");
    assert_eq!(d.files[0].old_path.as_deref(), Some("old.txt"));
    assert!(matches!(d.files[1].status, FileStatus::Modified));
    assert!(d.files[1].old_path.is_none());
}

#[test]
fn untracked_kind_maps_to_added() {
    let events = vec![file_start(Some("fresh.txt"), None, DeltaKind::Untracked)];
    let d = parse_diff(&events, 50000);
    assert_eq!(d.files.len(), 1);
    assert!(matches!(d.files[0].status, FileStatus::Added));
}

#[test]
fn line_for_other_path_is_ignored() {
    let events = vec![
        file_start(Some("a"), None, DeltaKind::Added),
        line(Some("elsewhere"), None, '+', "x\n"),
    ];
    let d = parse_diff(&events, 50000);
    assert_eq!(d.files[0].additions, 0);
    assert_eq!(d.files[0].patch, "");
}

#[test]
fn invalid_utf8_content_counts_without_text() {
    let events = vec![
        DiffEvent::FileStart {
            paths: paths(Some("bin"), Some("bin"), ),
            kind: DeltaKind::Other,
        },
        DiffEvent::Line {
            paths: paths(Some("bin"), Some("bin")),
            origin: '+',
            content: vec![0xff, 0xfe, 0xfd],
        },
    ];
    let d = parse_diff(&events, 50000);
    assert_eq!(d.files[0].additions, 1);
    // The marker is kept; the undecodable bytes are not.
    assert_eq!(d.files[0].patch, "+");
}

#[test]
fn header_origins_keep_content_without_marker() {
    let events = vec![
        file_start(Some("a"), Some("a"), DeltaKind::Other),
        line(Some("a"), Some("a"), 'H', "@@ -1 +1 @@\n"),
        line(Some("a"), Some("a"), '+', "x\n"),
    ];
    let d = parse_diff(&events, 50000);
    assert_eq!(d.files[0].patch, "@@ -1 +1 @@\n+x\n");
    assert_eq!(d.files[0].additions, 1);
}

#[test]
fn empty_traversal_yields_empty_result() {
    let events: Vec<DiffEvent> = vec![];
    let d = parse_diff(&events, 50000);
    assert_eq!(d.files.len(), 0);
    assert_eq!(d.stats.additions, 0);
    assert_eq!(d.stats.deletions, 0);
    assert_eq!(d.stats.files, 0);
}
