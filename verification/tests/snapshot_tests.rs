use code_context_graph::snapshot::{
    diff_files, diff_lines, format_listing_line, list_lines, order_newest_first, show_lines,
    FileEntry, SnapshotMeta,
};

fn entry(path: &str, hash: &str) -> FileEntry {
    FileEntry { path: path.to_string(), hash: hash.to_string() }
}

fn meta(root: &str, files: usize, bytes: u64, timestamp: &str) -> SnapshotMeta {
    SnapshotMeta::stamped(
        root.to_string(),
        files,
        bytes,
        timestamp.to_string(),
        None,
        None,
        Vec::new(),
    )
}

fn sorted(mut v: Vec<String>) -> Vec<String> {
    v.sort();
    v
}

#[test]
fn listing_line_has_root_files_and_bytes() {
    assert_eq!(format_listing_line(&meta("abc", 3, 1234567, "t")), "abc 3 files 1234567 bytes");
    assert_eq!(format_listing_line(&meta("r", 0, 0, "t")), "r 0 files 0 bytes");
    assert_eq!(
        format_listing_line(&meta("r", 10, u64::MAX, "t")),
        "r 10 files 18446744073709551615 bytes"
    );
}

#[test]
fn listing_is_newest_first_and_keeps_the_order_of_equal_timestamps() {
    let entries = vec![
        meta("b", 1, 1, "2024-01-02T00:00:00+00:00"),
        meta("a", 1, 1, "2024-01-01T00:00:00+00:00"),
        meta("c", 1, 1, "2024-01-03T00:00:00+00:00"),
        meta("b2", 1, 1, "2024-01-02T00:00:00+00:00"),
    ];
    assert_eq!(order_newest_first(&entries), vec![2, 0, 3, 1]);
    assert_eq!(
        list_lines(&entries, None),
        vec!["c 1 files 1 bytes", "b 1 files 1 bytes", "b2 1 files 1 bytes", "a 1 files 1 bytes"]
    );
}

#[test]
fn listing_is_cut_at_the_limit() {
    let entries = vec![meta("a", 1, 1, "1"), meta("b", 1, 1, "3"), meta("c", 1, 1, "2")];
    assert_eq!(list_lines(&entries, Some(2)), vec!["b 1 files 1 bytes", "c 1 files 1 bytes"]);
    assert_eq!(list_lines(&entries, Some(0)), Vec::<String>::new());
    assert_eq!(list_lines(&entries, Some(9)).len(), 3);
    assert_eq!(list_lines(&Vec::new(), None), Vec::<String>::new());
}

#[test]
fn show_prints_user_and_message_only_where_given() {
    let mut m = meta("root1", 2, 30, "2024-05-05T10:00:00+00:00");
    assert_eq!(
        show_lines(&m),
        vec![
            "root: root1",
            "total_files: 2",
            "total_bytes: 30",
            "timestamp: 2024-05-05T10:00:00+00:00",
        ]
    );
    m.user = Some("ann".to_string());
    m.message = Some("first".to_string());
    assert_eq!(
        show_lines(&m),
        vec![
            "root: root1",
            "total_files: 2",
            "total_bytes: 30",
            "timestamp: 2024-05-05T10:00:00+00:00",
            "user: ann",
            "message: first",
        ]
    );
}

#[test]
fn new_record_is_stamped_and_has_no_files() {
    let m = SnapshotMeta::new("r".to_string(), 1, 2, Some("u".to_string()), None);
    assert_eq!(m.root, "r");
    assert_eq!(m.total_files, 1);
    assert_eq!(m.total_bytes, 2);
    assert_eq!(m.user, Some("u".to_string()));
    assert_eq!(m.message, None);
    assert!(m.files.is_empty());
    // An RFC 3339 timestamp in UTC: date, `T`, time, offset.
    assert!(m.timestamp.len() >= 20);
    assert_eq!(&m.timestamp[4..5], "-");
    assert_eq!(&m.timestamp[10..11], "T");
    assert!(m.timestamp.ends_with("+00:00"));

    let w = SnapshotMeta::with_files(
        "r".to_string(),
        1,
        2,
        vec![entry("a.py", "h")],
        None,
        Some("msg".to_string()),
    );
    assert_eq!(w.files, vec![entry("a.py", "h")]);
    assert_eq!(w.message, Some("msg".to_string()));
}

#[test]
fn diff_of_two_ingestions_reports_added_removed_changed() {
    let first = vec![entry("a.py", "h-a1"), entry("b.py", "h-b")];
    let second = vec![entry("a.py", "h-a2"), entry("c.py", "h-c")];
    let d = diff_files(&first, &second);
    assert_eq!(d.added, vec!["c.py"]);
    assert_eq!(d.removed, vec!["b.py"]);
    assert_eq!(d.changed, vec!["a.py"]);
    assert!(d.unchanged.is_empty());
    assert_eq!(
        diff_lines(&d),
        vec!["Added:", "c.py", "Removed:", "b.py", "Changed:", "a.py"]
    );
}

#[test]
fn diff_classes_are_disjoint_and_cover_all_paths() {
    let first = vec![
        entry("same", "1"),
        entry("gone", "2"),
        entry("edit", "3"),
        entry("twice", "old"),
        entry("twice", "4"),
    ];
    let second = vec![
        entry("new", "9"),
        entry("edit", "30"),
        entry("same", "1"),
        entry("twice", "4"),
        entry("new", "9"),
    ];
    let d = diff_files(&first, &second);
    assert_eq!(d.added, vec!["new"]);
    assert_eq!(d.removed, vec!["gone"]);
    assert_eq!(d.changed, vec!["edit"]);
    assert_eq!(sorted(d.unchanged.clone()), vec!["same", "twice"]);
    let mut all: Vec<String> = Vec::new();
    all.extend(d.added.iter().cloned());
    all.extend(d.removed.iter().cloned());
    all.extend(d.changed.iter().cloned());
    all.extend(d.unchanged.iter().cloned());
    let n = all.len();
    let all = sorted(all);
    let mut unique = all.clone();
    unique.dedup();
    assert_eq!(unique.len(), n);
    assert_eq!(unique, vec!["edit", "gone", "new", "same", "twice"]);
}

#[test]
fn diff_against_nothing_adds_or_removes_everything() {
    let files = vec![entry("a", "1"), entry("b", "2")];
    let none: Vec<FileEntry> = Vec::new();
    let d = diff_files(&none, &files);
    assert_eq!(d.added, vec!["a", "b"]);
    assert!(d.removed.is_empty() && d.changed.is_empty() && d.unchanged.is_empty());
    let d = diff_files(&files, &none);
    assert_eq!(d.removed, vec!["a", "b"]);
    assert!(d.added.is_empty() && d.changed.is_empty() && d.unchanged.is_empty());
    assert_eq!(diff_lines(&diff_files(&none, &none)), vec!["Added:", "Removed:", "Changed:"]);
}
