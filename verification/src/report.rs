//! Outcomes of one backup attempt and the wording of the append-only log.
//!
//! Every log line is `YYYY-MM-DD HH:MM:SS - <message>`. A vanished source
//! and a path outside the watched root are silent skips: they produce no
//! message at all. Directory-creation and copy failures are logged and
//! recovered from; a success line references both paths.

use vstd::prelude::*;
use crate::bytes::{append_bytes, dec_digits, u64_to_dec};
use crate::clock::{Timestamp, log_stamp_bytes, render_log_stamp};

verus! {

/// How one backup attempt ended.
pub enum BackupOutcome {
    /// The source file no longer existed when the backup ran.
    SourceMissing,
    /// The source path did not lie under the watched root.
    OutsideRoot,
    /// The destination directory could not be created; the payload is the
    /// operating system's error text.
    DirCreateFailed { error: Vec<u8> },
    /// The copy itself failed; the payload is the operating system's error
    /// text.
    CopyFailed { error: Vec<u8> },
    /// The file was copied; the payloads are the rendered source and
    /// destination path texts.
    Copied { source: Vec<u8>, dest: Vec<u8> },
}

/// `Worker started watching...`
pub open spec fn worker_started_msg() -> Seq<u8> {
    seq![87u8, 111, 114, 107, 101, 114, 32, 115, 116, 97, 114, 116, 101, 100, 32, 119, 97, 116, 99, 104, 105, 110, 103, 46, 46, 46]
}

/// `ERROR creating dir: `
pub open spec fn dir_error_prefix() -> Seq<u8> {
    seq![69u8, 82, 82, 79, 82, 32, 99, 114, 101, 97, 116, 105, 110, 103, 32, 100, 105, 114, 58, 32]
}

/// `ERROR copy: `
pub open spec fn copy_error_prefix() -> Seq<u8> {
    seq![69u8, 82, 82, 79, 82, 32, 99, 111, 112, 121, 58, 32]
}

/// `Backup Success: `
pub open spec fn success_prefix() -> Seq<u8> {
    seq![66u8, 97, 99, 107, 117, 112, 32, 83, 117, 99, 99, 101, 115, 115, 58, 32]
}

/// ` -> `
pub open spec fn arrow_sep() -> Seq<u8> {
    seq![32u8, 45, 62, 32]
}

/// ` - `
pub open spec fn stamp_sep() -> Seq<u8> {
    seq![32u8, 45, 32]
}

/// The message a finished attempt leaves in the log: none for the two
/// silent skips, an error line with the OS text for the two failures, and a
/// success line naming both paths.
pub open spec fn outcome_message_spec(o: BackupOutcome) -> Option<Seq<u8>> {
    match o {
        BackupOutcome::SourceMissing => None,
        BackupOutcome::OutsideRoot => None,
        BackupOutcome::DirCreateFailed { error } => Some(dir_error_prefix() + error@),
        BackupOutcome::CopyFailed { error } => Some(copy_error_prefix() + error@),
        BackupOutcome::Copied { source, dest } => Some(
            success_prefix() + source@ + arrow_sep() + dest@,
        ),
    }
}

/// The log message for one finished attempt, or nothing for a silent skip.
pub fn outcome_message(o: &BackupOutcome) -> (r: Option<Vec<u8>>)
    ensures
        (r is Some) == (outcome_message_spec(*o) is Some),
        r is Some ==> r.unwrap()@ == outcome_message_spec(*o).unwrap(),
{
    match o {
        BackupOutcome::SourceMissing => None,
        BackupOutcome::OutsideRoot => None,
        BackupOutcome::DirCreateFailed { error } => {
            let mut m: Vec<u8> = vec![69u8, 82, 82, 79, 82, 32, 99, 114, 101, 97, 116, 105, 110,
                103, 32, 100, 105, 114, 58, 32];
            assert(m@ =~= dir_error_prefix());
            append_bytes(&mut m, error);
            Some(m)
        },
        BackupOutcome::CopyFailed { error } => {
            let mut m: Vec<u8> = vec![69u8, 82, 82, 79, 82, 32, 99, 111, 112, 121, 58, 32];
            assert(m@ =~= copy_error_prefix());
            append_bytes(&mut m, error);
            Some(m)
        },
        BackupOutcome::Copied { source, dest } => {
            let mut m: Vec<u8> = vec![66u8, 97, 99, 107, 117, 112, 32, 83, 117, 99, 99, 101, 115,
                115, 58, 32];
            assert(m@ =~= success_prefix());
            append_bytes(&mut m, source);
            let mut a: Vec<u8> = vec![32u8, 45, 62, 32];
            assert(a@ =~= arrow_sep());
            m.append(&mut a);
            append_bytes(&mut m, dest);
            Some(m)
        },
    }
}

/// One log line: the timestamp, ` - `, and the message.
pub fn log_line(ts: &Timestamp, msg: &Vec<u8>) -> (r: Vec<u8>)
    ensures
        r@ == log_stamp_bytes(*ts) + stamp_sep() + msg@,
{
    let mut r = render_log_stamp(ts);
    let mut sep: Vec<u8> = vec![32u8, 45, 32];
    assert(sep@ =~= stamp_sep());
    r.append(&mut sep);
    append_bytes(&mut r, msg);
    r
}

/// `Worker started watching...`
pub fn worker_started_message() -> (r: Vec<u8>)
    ensures
        r@ == worker_started_msg(),
{
    let r: Vec<u8> = vec![87u8, 111, 114, 107, 101, 114, 32, 115, 116, 97, 114, 116, 101, 100, 32,
        119, 97, 116, 99, 104, 105, 110, 103, 46, 46, 46];
    assert(r@ =~= worker_started_msg());
    r
}

/// `--- MODE: PERIODIC SCAN (Every <ms> ms) ---`
pub open spec fn periodic_banner_spec(interval_ms: u64) -> Seq<u8> {
    seq![45u8, 45, 45, 32, 77, 79, 68, 69, 58, 32, 80, 69, 82, 73, 79, 68, 73, 67, 32, 83, 67, 65, 78, 32, 40, 69, 118, 101, 114, 121, 32]
        + dec_digits(interval_ms as nat)
        + seq![32u8, 109, 115, 41, 32, 45, 45, 45]
}

/// `--- MODE: REAL-TIME EVENT (Debounce: <ms> ms) ---`
pub open spec fn event_banner_spec(debounce_ms: u64) -> Seq<u8> {
    seq![45u8, 45, 45, 32, 77, 79, 68, 69, 58, 32, 82, 69, 65, 76, 45, 84, 73, 77, 69, 32, 69, 86, 69, 78, 84, 32, 40, 68, 101, 98, 111, 117, 110, 99, 101, 58, 32]
        + dec_digits(debounce_ms as nat)
        + seq![32u8, 109, 115, 41, 32, 45, 45, 45]
}

/// The banner the periodic worker logs when it starts.
pub fn periodic_banner(interval_ms: u64) -> (r: Vec<u8>)
    ensures
        r@ == periodic_banner_spec(interval_ms),
{
    let mut r: Vec<u8> = vec![45u8, 45, 45, 32, 77, 79, 68, 69, 58, 32, 80, 69, 82, 73, 79, 68,
        73, 67, 32, 83, 67, 65, 78, 32, 40, 69, 118, 101, 114, 121, 32];
    assert(r@ =~= periodic_banner_spec(interval_ms).take(31));
    let mut d = u64_to_dec(interval_ms);
    r.append(&mut d);
    let mut post: Vec<u8> = vec![32u8, 109, 115, 41, 32, 45, 45, 45];
    assert(post@ =~= seq![32u8, 109, 115, 41, 32, 45, 45, 45]);
    r.append(&mut post);
    assert(r@ =~= periodic_banner_spec(interval_ms));
    r
}

/// The banner the event worker logs when it starts.
pub fn event_banner(debounce_ms: u64) -> (r: Vec<u8>)
    ensures
        r@ == event_banner_spec(debounce_ms),
{
    let mut r: Vec<u8> = vec![45u8, 45, 45, 32, 77, 79, 68, 69, 58, 32, 82, 69, 65, 76, 45, 84,
        73, 77, 69, 32, 69, 86, 69, 78, 84, 32, 40, 68, 101, 98, 111, 117, 110, 99, 101, 58, 32];
    assert(r@ =~= event_banner_spec(debounce_ms).take(37));
    let mut d = u64_to_dec(debounce_ms);
    r.append(&mut d);
    let mut post: Vec<u8> = vec![32u8, 109, 115, 41, 32, 45, 45, 45];
    assert(post@ =~= seq![32u8, 109, 115, 41, 32, 45, 45, 45]);
    r.append(&mut post);
    assert(r@ =~= event_banner_spec(debounce_ms));
    r
}

/// `Interval Scan: Backed up <n> files.`
pub open spec fn scan_summary_spec(n: u64) -> Seq<u8> {
    seq![73u8, 110, 116, 101, 114, 118, 97, 108, 32, 83, 99, 97, 110, 58, 32, 66, 97, 99, 107, 101, 100, 32, 117, 112, 32]
        + dec_digits(n as nat)
        + seq![32u8, 102, 105, 108, 101, 115, 46]
}

/// The summary the periodic worker logs after a pass that backed files up.
pub fn scan_summary(n: u64) -> (r: Vec<u8>)
    ensures
        r@ == scan_summary_spec(n),
{
    let mut r: Vec<u8> = vec![73u8, 110, 116, 101, 114, 118, 97, 108, 32, 83, 99, 97, 110, 58, 32,
        66, 97, 99, 107, 101, 100, 32, 117, 112, 32];
    assert(r@ =~= scan_summary_spec(n).take(25));
    let mut d = u64_to_dec(n);
    r.append(&mut d);
    let mut post: Vec<u8> = vec![32u8, 102, 105, 108, 101, 115, 46];
    assert(post@ =~= seq![32u8, 102, 105, 108, 101, 115, 46]);
    r.append(&mut post);
    assert(r@ =~= scan_summary_spec(n));
    r
}

/// `Error starting watcher: <err>` — the fatal event-mode setup failure.
pub open spec fn watch_setup_error_spec(err: Seq<u8>) -> Seq<u8> {
    seq![69u8, 114, 114, 111, 114, 32, 115, 116, 97, 114, 116, 105, 110, 103, 32, 119, 97, 116, 99, 104, 101, 114, 58, 32]
        + err
}

/// The message logged when the filesystem watch cannot be set up.
pub fn watch_setup_error(err: &Vec<u8>) -> (r: Vec<u8>)
    ensures
        r@ == watch_setup_error_spec(err@),
{
    let mut r: Vec<u8> = vec![69u8, 114, 114, 111, 114, 32, 115, 116, 97, 114, 116, 105, 110, 103,
        32, 119, 97, 116, 99, 104, 101, 114, 58, 32];
    assert(r@ =~= watch_setup_error_spec(err@).take(24));
    append_bytes(&mut r, err);
    assert(r@ =~= watch_setup_error_spec(err@));
    r
}

/// `Watch error: <err>` — a non-fatal notification-stream error.
pub open spec fn watch_event_error_spec(err: Seq<u8>) -> Seq<u8> {
    seq![87u8, 97, 116, 99, 104, 32, 101, 114, 114, 111, 114, 58, 32] + err
}

/// The message logged when the notification stream reports an error.
pub fn watch_event_error(err: &Vec<u8>) -> (r: Vec<u8>)
    ensures
        r@ == watch_event_error_spec(err@),
{
    let mut r: Vec<u8> = vec![87u8, 97, 116, 99, 104, 32, 101, 114, 114, 111, 114, 58, 32];
    assert(r@ =~= watch_event_error_spec(err@).take(13));
    append_bytes(&mut r, err);
    assert(r@ =~= watch_event_error_spec(err@));
    r
}

/// A silent skip leaves no trace: neither a success nor an error message.
pub proof fn lemma_skips_are_silent()
    ensures
        outcome_message_spec(BackupOutcome::SourceMissing) is None,
        outcome_message_spec(BackupOutcome::OutsideRoot) is None,
{
}

} // verus!
