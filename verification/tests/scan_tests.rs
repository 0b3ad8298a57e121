use auto_backup::scan::{ScanEntry, Scanner};

fn entry(parts: &[&str], mtime_ms: u64) -> ScanEntry {
    ScanEntry { path: parts.iter().map(|p| p.as_bytes().to_vec()).collect(), mtime_ms }
}

#[test]
fn first_boundary_is_worker_start() {
    // files untouched since before the worker started are never reported
    let mut s = Scanner::new(1000);
    let entries = vec![entry(&["", "src", "old.txt"], 500)];
    let due = s.scan(&entries, 2000);
    assert!(due.is_empty());
}

#[test]
fn boundary_is_previous_scan_start_not_completion() {
    // worker starts at 1000; the first pass starts at 2000 and runs three
    // seconds; a file modified at 2500, mid-scan, is missed by that pass
    // (walked before the write) but must be caught by the next one, because
    // the boundary is the previous pass's start time, not its end.
    let mut s = Scanner::new(1000);
    let due = s.scan(&vec![entry(&["", "src", "f.txt"], 500)], 2000);
    assert!(due.is_empty());
    // next pass begins at 7000 (2.0 s interval after the 3 s walk finished)
    let entries = vec![entry(&["", "src", "f.txt"], 2500)];
    let due = s.scan(&entries, 7000);
    assert_eq!(due, vec![0]);
    // and it is not reported again on the pass after that
    let due = s.scan(&entries, 9000);
    assert!(due.is_empty());
}

#[test]
fn mtime_at_boundary_is_reported() {
    let mut s = Scanner::new(1000);
    let entries = vec![
        entry(&["", "src", "at.txt"], 1000),
        entry(&["", "src", "before.txt"], 999),
        entry(&["", "src", "after.txt"], 1500),
    ];
    let due = s.scan(&entries, 3000);
    assert_eq!(due, vec![0, 2]);
}
