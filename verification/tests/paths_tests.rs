use auto_backup::clock::Timestamp;
use auto_backup::paths::{render_path, split_relative};
use auto_backup::report::{outcome_message, BackupOutcome};
use auto_backup::target::resolve_target;

fn path(parts: &[&str]) -> Vec<Vec<u8>> {
    parts.iter().map(|p| p.as_bytes().to_vec()).collect()
}

fn ts() -> Timestamp {
    Timestamp { year: 2024, month: 3, day: 7, hour: 9, minute: 5, second: 3 }
}

#[test]
fn depth_one_lands_in_root() {
    let src = path(&["", "src", "a.txt"]);
    let root = path(&["", "src"]);
    let parts = split_relative(&src, &root).unwrap();
    assert_eq!(parts.top_folder, b"Root".to_vec());
    assert!(parts.middle.is_empty());
    assert_eq!(parts.filename, b"a.txt".to_vec());
}

#[test]
fn depth_three_keeps_structure() {
    let src = path(&["", "src", "proj", "sub", "b.txt"]);
    let root = path(&["", "src"]);
    let parts = split_relative(&src, &root).unwrap();
    assert_eq!(parts.top_folder, b"proj".to_vec());
    assert_eq!(parts.middle, path(&["sub"]));
    assert_eq!(parts.filename, b"b.txt".to_vec());
}

#[test]
fn outside_root_is_skipped_silently() {
    let src = path(&["", "other", "a.txt"]);
    let root = path(&["", "src"]);
    assert!(split_relative(&src, &root).is_none());
    // the root itself is not a file under the root
    assert!(split_relative(&root, &root).is_none());
    // and a skip produces no log message of any kind
    assert!(outcome_message(&BackupOutcome::OutsideRoot).is_none());
    assert!(outcome_message(&BackupOutcome::SourceMissing).is_none());
}

#[test]
fn root_file_lands_in_root_generation() {
    let src = path(&["", "src", "a.txt"]);
    let root = path(&["", "src"]);
    let backup_root = path(&["", "backup"]);
    let parts = split_relative(&src, &root).unwrap();
    let t = resolve_target(&parts, &backup_root, 0, &b"$top_folder-$count".to_vec(), &ts());
    assert_eq!(t.snapshot_name, b"Root-1".to_vec());
    assert_eq!(t.dest_dir, path(&["", "backup", "Root", "Root-1"]));
    assert_eq!(t.dest_file, path(&["", "backup", "Root", "Root-1", "a.txt"]));
    let rendered = render_path(&t.dest_file);
    assert_eq!(String::from_utf8(rendered).unwrap(), "/backup/Root/Root-1/a.txt");
}

#[test]
fn nested_file_keeps_middle_folders() {
    let src = path(&["", "src", "proj", "sub", "b.txt"]);
    let root = path(&["", "src"]);
    let backup_root = path(&["", "backup"]);
    let parts = split_relative(&src, &root).unwrap();
    let t = resolve_target(&parts, &backup_root, 2, &b"$top_folder-$count".to_vec(), &ts());
    assert_eq!(t.snapshot_name, b"proj-3".to_vec());
    assert_eq!(t.dest_dir, path(&["", "backup", "proj", "proj-3", "sub"]));
    assert_eq!(
        t.dest_file,
        path(&["", "backup", "proj", "proj-3", "sub", "b.txt"])
    );
}

#[test]
fn resolution_is_idempotent_for_unchanged_input() {
    let src = path(&["", "src", "a.txt"]);
    let root = path(&["", "src"]);
    let backup_root = path(&["", "backup"]);
    let fmt = b"$top_folder-$count".to_vec();
    let p1 = split_relative(&src, &root).unwrap();
    let p2 = split_relative(&src, &root).unwrap();
    // same generation folder still on disk: the count read is the same
    let t1 = resolve_target(&p1, &backup_root, 1, &fmt, &ts());
    let t2 = resolve_target(&p2, &backup_root, 1, &fmt, &ts());
    assert_eq!(t1.dest_dir, t2.dest_dir);
    assert_eq!(t1.dest_file, t2.dest_file);
    assert_eq!(t1.snapshot_name, t2.snapshot_name);
}

#[test]
fn render_path_joins_with_slashes() {
    assert_eq!(render_path(&path(&["a"])), b"a".to_vec());
    assert_eq!(render_path(&path(&["a", "b", "c"])), b"a/b/c".to_vec());
    assert_eq!(render_path(&path(&["", "src", "a.txt"])), b"/src/a.txt".to_vec());
    assert_eq!(render_path(&Vec::new()), Vec::<u8>::new());
}
