//! The catalog file's rows: how drives and images are written as the
//! columns of the `drives` and `images` tables, and read back.
//!
//! Dates and times are written as text by chrono: a capture time as
//! `%Y-%m-%dT%H:%M:%S`, an image's modification time in RFC 3339, and a
//! drive's last scan as `%Y-%m-%dT%H:%M:%SZ`.
use vstd::prelude::*;
use chrono::{Datelike, Timelike};
use crate::dates::{capture_fields, capture_from_fields, utc_calendar_date, CaptureDateTime, Timestamp};
use crate::models::{DriveRecord, ImageRecord};
use crate::paths::opt_view;

verus! {

/// chrono's `%Y-%m-%dT%H:%M:%S` text of the `NaiveDateTime` with the given
/// year, month, day, hour, minute, second and nanosecond; `None` when there
/// is no such date and time.
pub uninterp spec fn capture_row_text(c: (i32, u32, u32, u32, u32, u32, u32)) -> Option<Seq<char>>;

/// What chrono's `NaiveDateTime::parse_from_str(s, "%Y-%m-%dT%H:%M:%S")`
/// gives for `s`, as year, month, day, hour, minute, second, nanosecond.
pub uninterp spec fn capture_row_fields(s: Seq<char>) -> Option<(i32, u32, u32, u32, u32, u32, u32)>;

/// chrono's `to_rfc3339` text of the UTC instant `secs` seconds and `nanos`
/// nanoseconds after the Unix epoch.
pub uninterp spec fn rfc3339_text(secs: i64, nanos: u32) -> Seq<char>;

/// The instant, as seconds and nanoseconds after the Unix epoch, that
/// chrono's `DateTime::parse_from_rfc3339` reads from `s`.
pub uninterp spec fn rfc3339_instant(s: Seq<char>) -> Option<(i64, u32)>;

/// chrono's `%Y-%m-%dT%H:%M:%SZ` text of the UTC instant `secs` seconds and
/// `nanos` nanoseconds after the Unix epoch.
pub uninterp spec fn scan_time_text(secs: i64, nanos: u32) -> Seq<char>;

/// The instant, as seconds and nanoseconds after the Unix epoch, that
/// chrono's `str::parse::<DateTime<Utc>>` reads from `s`.
pub uninterp spec fn utc_text_instant(s: Seq<char>) -> Option<(i64, u32)>;

/// `NaiveDate::from_ymd_opt` and `and_hms_nano_opt` on the fields of `c`,
/// then `format("%Y-%m-%dT%H:%M:%S")`. The contract claims only that the
/// result is the value `capture_row_text` names for those fields.
#[verifier::external_body]
fn chrono_capture_text(c: CaptureDateTime) -> (res: Option<String>)
    ensures
        opt_view(res) == capture_row_text(capture_fields(c)),
{
    chrono::NaiveDate::from_ymd_opt(c.year, c.month, c.day)
        .and_then(|d| d.and_hms_nano_opt(c.hour, c.minute, c.second, c.nanosecond))
        .map(|d| d.format("%Y-%m-%dT%H:%M:%S").to_string())
}

/// `NaiveDateTime::parse_from_str(s, "%Y-%m-%dT%H:%M:%S")`. The contract
/// claims only that the result is the value `capture_row_fields` names.
#[verifier::external_body]
fn chrono_parse_capture_text(s: &str) -> (res: Option<CaptureDateTime>)
    ensures
        match res {
            Some(c) => capture_row_fields(s@) == Some(capture_fields(c)),
            None => capture_row_fields(s@) is None,
        },
{
    match chrono::NaiveDateTime::parse_from_str(s, "%Y-%m-%dT%H:%M:%S") {
        Ok(d) => Some(CaptureDateTime {
            year: d.year(),
            month: d.month(),
            day: d.day(),
            hour: d.hour(),
            minute: d.minute(),
            second: d.second(),
            nanosecond: d.nanosecond(),
        }),
        Err(_) => None,
    }
}

/// `DateTime::from_timestamp(secs, nanos)` then `to_rfc3339`, for an instant
/// chrono can represent. The contract claims only that the result is the
/// value `rfc3339_text` names.
#[verifier::external_body]
fn chrono_rfc3339(secs: i64, nanos: u32) -> (res: String)
    requires
        utc_calendar_date(secs, nanos) is Some,
    ensures
        res@ == rfc3339_text(secs, nanos),
{
    match chrono::DateTime::from_timestamp(secs, nanos) {
        Some(t) => t.to_rfc3339(),
        None => String::new(),
    }
}

/// `DateTime::parse_from_rfc3339(s)`, then the instant's `timestamp` and
/// `timestamp_subsec_nanos`. The contract claims only that the result is
/// the value `rfc3339_instant` names.
#[verifier::external_body]
fn chrono_parse_rfc3339(s: &str) -> (res: Option<(i64, u32)>)
    ensures
        res == rfc3339_instant(s@),
{
    match chrono::DateTime::parse_from_rfc3339(s) {
        Ok(t) => Some((t.timestamp(), t.timestamp_subsec_nanos())),
        Err(_) => None,
    }
}

/// `DateTime::from_timestamp(secs, nanos)` then
/// `format("%Y-%m-%dT%H:%M:%SZ")`, for an instant chrono can represent. The
/// contract claims only that the result is the value `scan_time_text` names.
#[verifier::external_body]
fn chrono_scan_time_text(secs: i64, nanos: u32) -> (res: String)
    requires
        utc_calendar_date(secs, nanos) is Some,
    ensures
        res@ == scan_time_text(secs, nanos),
{
    match chrono::DateTime::from_timestamp(secs, nanos) {
        Some(t) => t.format("%Y-%m-%dT%H:%M:%SZ").to_string(),
        None => String::new(),
    }
}

/// `s.parse::<DateTime<Utc>>()`, then the instant's `timestamp` and
/// `timestamp_subsec_nanos`. The contract claims only that the result is
/// the value `utc_text_instant` names.
#[verifier::external_body]
fn chrono_parse_utc(s: &str) -> (res: Option<(i64, u32)>)
    ensures
        res == utc_text_instant(s@),
{
    match s.parse::<chrono::DateTime<chrono::Utc>>() {
        Ok(t) => Some((t.timestamp(), t.timestamp_subsec_nanos())),
        Err(_) => None,
    }
}

/// A row of the `drives` table.
#[derive(Debug)]
pub struct DriveRow {
    pub id: i64,
    pub label: String,
    pub root_path: String,
    pub last_scanned_at: Option<String>,
}

/// A row of the `images` table.
#[derive(Debug)]
pub struct ImageRow {
    pub id: Option<i64>,
    pub drive_id: i64,
    pub filename: String,
    pub relative_path: String,
    pub absolute_path: String,
    pub file_size: i64,
    pub capture_date: Option<String>,
    pub file_mtime: String,
    pub blake3_hash: Option<String>,
}

/// The timestamp that the stored instant `at` reads as, if it is one.
pub open spec fn stored_instant(at: Option<(i64, u32)>, t: Option<Timestamp>) -> bool {
    match at {
        Some(p) => if utc_calendar_date(p.0, p.1) is Some {
            t matches Some(x) && x.spec_secs() == p.0 && x.spec_nanos() == p.1
        } else {
            t is None
        },
        None => t is None,
    }
}

/// Whether `t` is the stored instant `at` when that is one chrono can
/// represent, and `fallback` otherwise.
pub open spec fn instant_or(at: Option<(i64, u32)>, fallback: Timestamp, t: Timestamp) -> bool {
    match at {
        Some(p) => if utc_calendar_date(p.0, p.1) is Some {
            t.spec_secs() == p.0 && t.spec_nanos() == p.1
        } else {
            t.spec_secs() == fallback.spec_secs() && t.spec_nanos() == fallback.spec_nanos()
        },
        None => t.spec_secs() == fallback.spec_secs() && t.spec_nanos() == fallback.spec_nanos(),
    }
}

/// The row a drive is stored as: its fields, and its last scan as text.
pub fn drive_row(d: &DriveRecord) -> (res: DriveRow)
    ensures
        res.id == d.id,
        res.label@ == d.label@,
        res.root_path@ == d.root_path@,
        opt_view(res.last_scanned_at) == match d.last_scanned_at {
            Some(t) => Some(scan_time_text(t.spec_secs(), t.spec_nanos())),
            None => None,
        },
{
    let last = match &d.last_scanned_at {
        Some(t) => {
            let (secs, nanos) = (t.secs(), t.nanos());
            let _ = t.utc_date();
            Some(chrono_scan_time_text(secs, nanos))
        },
        None => None,
    };
    DriveRow { id: d.id, label: d.label.clone(), root_path: d.root_path.clone(), last_scanned_at: last }
}

/// The drive a stored row reads as; a last-scan text that does not read as
/// an instant is dropped.
pub fn drive_from_row(r: DriveRow) -> (res: DriveRecord)
    ensures
        res.id == r.id,
        res.label@ == r.label@,
        res.root_path@ == r.root_path@,
        stored_instant(
            match r.last_scanned_at {
                Some(s) => utc_text_instant(s@),
                None => None,
            },
            res.last_scanned_at,
        ),
{
    let at = match &r.last_scanned_at {
        Some(s) => chrono_parse_utc(s.as_str()),
        None => None,
    };
    let last = match at {
        Some((secs, nanos)) => {
            Timestamp::from_unix(secs, nanos)
        },
        None => None,
    };
    DriveRecord { id: r.id, label: r.label, root_path: r.root_path, last_scanned_at: last }
}

/// The row an image is stored as: its fields, its size as a signed integer,
/// its capture time (when it is a real date and time) and modification time
/// as text.
pub fn image_row(im: &ImageRecord) -> (res: ImageRow)
    ensures
        res.id == im.id,
        res.drive_id == im.drive_id,
        res.filename@ == im.filename@,
        res.relative_path@ == im.relative_path@,
        res.absolute_path@ == im.absolute_path@,
        res.file_size == im.file_size as i64,
        opt_view(res.capture_date) == match im.capture_date {
            Some(c) => capture_row_text(capture_fields(c)),
            None => None,
        },
        res.file_mtime@ == rfc3339_text(im.file_mtime.spec_secs(), im.file_mtime.spec_nanos()),
        opt_view(res.blake3_hash) == opt_view(im.blake3_hash),
{
    let capture = match im.capture_date {
        Some(c) => chrono_capture_text(c),
        None => None,
    };
    let t = &im.file_mtime;
    let _ = t.utc_date();
    let mtime = chrono_rfc3339(t.secs(), t.nanos());
    ImageRow {
        id: im.id,
        drive_id: im.drive_id,
        filename: im.filename.clone(),
        relative_path: im.relative_path.clone(),
        absolute_path: im.absolute_path.clone(),
        file_size: im.file_size as i64,
        capture_date: capture,
        file_mtime: mtime,
        blake3_hash: crate::models::clone_opt_string(&im.blake3_hash),
    }
}

/// The image a stored row reads as: its size as unsigned, a capture text
/// that does not read as a date and time dropped, and `fallback` as its
/// modification time when the stored one does not read as an instant.
pub fn image_from_row(r: ImageRow, fallback: Timestamp) -> (res: ImageRecord)
    ensures
        res.id == r.id,
        res.drive_id == r.drive_id,
        res.filename@ == r.filename@,
        res.relative_path@ == r.relative_path@,
        res.absolute_path@ == r.absolute_path@,
        res.file_size == r.file_size as u64,
        res.capture_date == match r.capture_date {
            Some(s) => match capture_row_fields(s@) {
                Some(f) => Some(capture_from_fields(f)),
                None => None,
            },
            None => None,
        },
        instant_or(rfc3339_instant(r.file_mtime@), fallback, res.file_mtime),
        opt_view(res.blake3_hash) == opt_view(r.blake3_hash),
{
    let capture = match &r.capture_date {
        Some(s) => chrono_parse_capture_text(s.as_str()),
        None => None,
    };
    let parsed = chrono_parse_rfc3339(r.file_mtime.as_str());
    let mtime = match parsed {
        Some((secs, nanos)) => match Timestamp::from_unix(secs, nanos) {
            Some(t) => t,
            None => fallback,
        },
        None => fallback,
    };
    ImageRecord {
        id: r.id,
        drive_id: r.drive_id,
        filename: r.filename,
        relative_path: r.relative_path,
        absolute_path: r.absolute_path,
        file_size: r.file_size as u64,
        capture_date: capture,
        file_mtime: mtime,
        blake3_hash: r.blake3_hash,
    }
}

} // verus!
