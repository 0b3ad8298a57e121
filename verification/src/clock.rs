//! Calendar timestamps and their textual renderings.
//!
//! A [`Timestamp`] holds a wall-clock instant as plain calendar fields. The
//! renderings follow the worker's fixed shapes: `YYYY-MM-DD` for dates,
//! `HH-MM-SS` for times, `YYYYMMDD_HHMMSS` compact, and
//! `YYYY-MM-DD HH:MM:SS` for log lines. Years are zero-padded to four
//! places, with a leading `-` for years before year zero.

use vstd::prelude::*;
use chrono::{Datelike, Timelike};
use crate::bytes::{pad2, pad4, u64_to_pad2, u64_to_pad4};

verus! {

/// A wall-clock instant, second resolution, as plain calendar fields.
#[derive(Clone, Copy, Debug, PartialEq, Eq, Structural)]
pub struct Timestamp {
    pub year: i32,
    pub month: u8,
    pub day: u8,
    pub hour: u8,
    pub minute: u8,
    pub second: u8,
}

impl Timestamp {
    /// The fields lie in calendar ranges.
    pub open spec fn wf(self) -> bool {
        &&& 1 <= self.month <= 12
        &&& 1 <= self.day <= 31
        &&& self.hour <= 23
        &&& self.minute <= 59
        &&& self.second <= 59
    }
}

/// The year, zero-padded to at least four places, with a sign when negative.
pub open spec fn year_bytes(y: int) -> Seq<u8> {
    if y >= 0 {
        pad4(y as nat)
    } else {
        seq![45u8] + pad4((-y) as nat)
    }
}

/// `YYYY-MM-DD`.
pub open spec fn date_bytes(t: Timestamp) -> Seq<u8> {
    year_bytes(t.year as int) + seq![45u8] + pad2(t.month as nat) + seq![45u8] + pad2(
        t.day as nat,
    )
}

/// `HH-MM-SS`.
pub open spec fn time_bytes(t: Timestamp) -> Seq<u8> {
    pad2(t.hour as nat) + seq![45u8] + pad2(t.minute as nat) + seq![45u8] + pad2(
        t.second as nat,
    )
}

/// `YYYYMMDD_HHMMSS`.
pub open spec fn compact_bytes(t: Timestamp) -> Seq<u8> {
    year_bytes(t.year as int) + pad2(t.month as nat) + pad2(t.day as nat) + seq![95u8] + pad2(
        t.hour as nat,
    ) + pad2(t.minute as nat) + pad2(t.second as nat)
}

/// `YYYY-MM-DD HH:MM:SS`, the stamp that opens every log line.
pub open spec fn log_stamp_bytes(t: Timestamp) -> Seq<u8> {
    year_bytes(t.year as int) + seq![45u8] + pad2(t.month as nat) + seq![45u8] + pad2(
        t.day as nat,
    ) + seq![32u8] + pad2(t.hour as nat) + seq![58u8] + pad2(t.minute as nat) + seq![58u8] + pad2(
        t.second as nat,
    )
}

fn year_to_bytes(y: i32) -> (r: Vec<u8>)
    ensures
        r@ == year_bytes(y as int),
{
    if y >= 0 {
        u64_to_pad4(y as u64)
    } else {
        let m: i64 = -(y as i64);
        let mut v: Vec<u8> = Vec::new();
        v.push(45);
        let mut d = u64_to_pad4(m as u64);
        v.append(&mut d);
        assert(v@ =~= year_bytes(y as int));
        v
    }
}

/// Renders `YYYY-MM-DD`.
pub fn render_date(t: &Timestamp) -> (r: Vec<u8>)
    ensures
        r@ == date_bytes(*t),
{
    let mut v = year_to_bytes(t.year);
    v.push(45);
    let mut m = u64_to_pad2(t.month as u64);
    v.append(&mut m);
    v.push(45);
    let mut d = u64_to_pad2(t.day as u64);
    v.append(&mut d);
    assert(v@ =~= date_bytes(*t));
    v
}

/// Renders `HH-MM-SS`.
pub fn render_time(t: &Timestamp) -> (r: Vec<u8>)
    ensures
        r@ == time_bytes(*t),
{
    let mut v = u64_to_pad2(t.hour as u64);
    v.push(45);
    let mut m = u64_to_pad2(t.minute as u64);
    v.append(&mut m);
    v.push(45);
    let mut s = u64_to_pad2(t.second as u64);
    v.append(&mut s);
    assert(v@ =~= time_bytes(*t));
    v
}

/// Renders `YYYYMMDD_HHMMSS`.
pub fn render_compact(t: &Timestamp) -> (r: Vec<u8>)
    ensures
        r@ == compact_bytes(*t),
{
    let mut v = year_to_bytes(t.year);
    let mut m = u64_to_pad2(t.month as u64);
    v.append(&mut m);
    let mut d = u64_to_pad2(t.day as u64);
    v.append(&mut d);
    v.push(95);
    let mut h = u64_to_pad2(t.hour as u64);
    v.append(&mut h);
    let mut mi = u64_to_pad2(t.minute as u64);
    v.append(&mut mi);
    let mut s = u64_to_pad2(t.second as u64);
    v.append(&mut s);
    assert(v@ =~= compact_bytes(*t));
    v
}

/// Renders `YYYY-MM-DD HH:MM:SS`.
pub fn render_log_stamp(t: &Timestamp) -> (r: Vec<u8>)
    ensures
        r@ == log_stamp_bytes(*t),
{
    let mut v = year_to_bytes(t.year);
    v.push(45);
    let mut m = u64_to_pad2(t.month as u64);
    v.append(&mut m);
    v.push(45);
    let mut d = u64_to_pad2(t.day as u64);
    v.append(&mut d);
    v.push(32);
    let mut h = u64_to_pad2(t.hour as u64);
    v.append(&mut h);
    v.push(58);
    let mut mi = u64_to_pad2(t.minute as u64);
    v.append(&mut mi);
    v.push(58);
    let mut s = u64_to_pad2(t.second as u64);
    v.append(&mut s);
    assert(v@ =~= log_stamp_bytes(*t));
    v
}

/// Relies on `chrono::Local::now` and chrono's `Datelike`/`Timelike`
/// accessors, whose documentation fixes the ranges: month 1–12, day 1–31,
/// hour 0–23, minute 0–59, second 0–59.
#[verifier::external_body]
fn now_local_fields() -> (t: Timestamp)
    ensures
        t.wf(),
{
    let now = chrono::Local::now();
    Timestamp {
        year: now.year(),
        month: now.month() as u8,
        day: now.day() as u8,
        hour: now.hour() as u8,
        minute: now.minute() as u8,
        second: now.second() as u8,
    }
}

/// The current local wall-clock time. Each call may return a different
/// value; only well-formedness holds of every outcome.
pub fn current_timestamp() -> (t: Timestamp)
    ensures
        t.wf(),
{
    now_local_fields()
}

} // verus!
