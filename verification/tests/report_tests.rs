use auto_backup::clock::{render_date, render_log_stamp, Timestamp};
use auto_backup::report::{
    event_banner, log_line, outcome_message, periodic_banner, scan_summary, watch_event_error,
    watch_setup_error, worker_started_message, BackupOutcome,
};

fn ts() -> Timestamp {
    Timestamp { year: 2024, month: 3, day: 7, hour: 9, minute: 5, second: 3 }
}

fn text(v: Vec<u8>) -> String {
    String::from_utf8(v).unwrap()
}

#[test]
fn log_line_shape() {
    let line = log_line(&ts(), &b"hello".to_vec());
    assert_eq!(text(line), "2024-03-07 09:05:03 - hello");
}

#[test]
fn dir_create_error_is_logged_with_os_text() {
    let o = BackupOutcome::DirCreateFailed { error: b"permission denied".to_vec() };
    let m = outcome_message(&o).unwrap();
    assert_eq!(text(m), "ERROR creating dir: permission denied");
}

#[test]
fn copy_error_is_logged_with_os_text() {
    let o = BackupOutcome::CopyFailed { error: b"disk full".to_vec() };
    let m = outcome_message(&o).unwrap();
    assert_eq!(text(m), "ERROR copy: disk full");
}

#[test]
fn success_references_both_paths() {
    let o = BackupOutcome::Copied {
        source: b"/src/a.txt".to_vec(),
        dest: b"/backup/Root/Root-1/a.txt".to_vec(),
    };
    let m = outcome_message(&o).unwrap();
    assert_eq!(text(m), "Backup Success: /src/a.txt -> /backup/Root/Root-1/a.txt");
}

#[test]
fn banners_and_summaries() {
    assert_eq!(text(worker_started_message()), "Worker started watching...");
    assert_eq!(
        text(periodic_banner(2000)),
        "--- MODE: PERIODIC SCAN (Every 2000 ms) ---"
    );
    assert_eq!(
        text(event_banner(1000)),
        "--- MODE: REAL-TIME EVENT (Debounce: 1000 ms) ---"
    );
    assert_eq!(text(scan_summary(3)), "Interval Scan: Backed up 3 files.");
    assert_eq!(
        text(watch_setup_error(&b"no such dir".to_vec())),
        "Error starting watcher: no such dir"
    );
    assert_eq!(text(watch_event_error(&b"overflow".to_vec())), "Watch error: overflow");
}

#[test]
fn date_is_zero_padded() {
    let t = Timestamp { year: 987, month: 4, day: 5, hour: 1, minute: 2, second: 3 };
    assert_eq!(text(render_date(&t)), "0987-04-05");
    assert_eq!(text(render_log_stamp(&t)), "0987-04-05 01:02:03");
}
