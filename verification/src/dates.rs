//! Calendar values: the capture time read from a photo, UTC timestamps, and
//! the text that a path template gets for a date.
use vstd::prelude::*;
use chrono::{Datelike, Timelike};
use crate::text;
use crate::text::{push_char, push_decimal, push_zero_padded, decimal_string};

verus! {

/// A date and time without time zone, as a camera records it.
#[derive(Clone, Copy, Debug, PartialEq, Eq, Structural)]
pub struct CaptureDateTime {
    pub year: i32,
    pub month: u32,
    pub day: u32,
    pub hour: u32,
    pub minute: u32,
    pub second: u32,
    pub nanosecond: u32,
}

/// The fields of a capture time, in order.
pub open spec fn capture_fields(c: CaptureDateTime) -> (i32, u32, u32, u32, u32, u32, u32) {
    (c.year, c.month, c.day, c.hour, c.minute, c.second, c.nanosecond)
}

/// What chrono's `NaiveDateTime::parse_from_str(raw, "%Y:%m:%d %H:%M:%S")`
/// gives for `raw`, as year, month, day, hour, minute, second, nanosecond.
pub uninterp spec fn exif_datetime(raw: Seq<char>) -> Option<(i32, u32, u32, u32, u32, u32, u32)>;

/// The UTC calendar date (year, month, day) of the instant `secs` seconds and
/// `nanos` nanoseconds after the Unix epoch, as chrono's
/// `DateTime::from_timestamp(secs, nanos)` gives it; `None` where chrono has
/// no such instant.
pub uninterp spec fn utc_calendar_date(secs: i64, nanos: u32) -> Option<(i32, u32, u32)>;

/// Parses the EXIF date format `YYYY:MM:DD HH:MM:SS` with chrono's
/// `NaiveDateTime::parse_from_str`. The contract claims only that the result
/// is the value that `exif_datetime` names for `raw`.
#[verifier::external_body]
fn chrono_parse_exif(raw: &str) -> (res: Option<CaptureDateTime>)
    ensures
        match res {
            Some(c) => exif_datetime(raw@) == Some(capture_fields(c)),
            None => exif_datetime(raw@) is None,
        },
{
    match chrono::NaiveDateTime::parse_from_str(raw, "%Y:%m:%d %H:%M:%S") {
        Ok(d) => Some(CaptureDateTime {
            year: d.year(),
            month: d.month(),
            day: d.day(),
            hour: d.hour(),
            minute: d.minute(),
            second: d.second(),
            nanosecond: d.nanosecond(),
        }),
        Err(_) => None,
    }
}

/// chrono's `DateTime::from_timestamp(secs, nanos)` followed by its UTC
/// date. The contract claims only that the result is the value that
/// `utc_calendar_date` names for the arguments.
#[verifier::external_body]
fn chrono_utc_date(secs: i64, nanos: u32) -> (res: Option<(i32, u32, u32)>)
    ensures
        res == utc_calendar_date(secs, nanos),
{
    match chrono::DateTime::from_timestamp(secs, nanos) {
        Some(t) => {
            let d = t.date_naive();
            Some((d.year(), d.month(), d.day()))
        },
        None => None,
    }
}

impl CaptureDateTime {
    /// Reads a capture time written as `YYYY:MM:DD HH:MM:SS`, as EXIF stores it.
    pub fn parse_exif(raw: &str) -> (res: Option<CaptureDateTime>)
        ensures
            match res {
                Some(c) => exif_datetime(raw@) == Some(capture_fields(c)),
                None => exif_datetime(raw@) is None,
            },
    {
        chrono_parse_exif(raw)
    }
}

/// Of two EXIF date fields, the first that reads as a capture time:
/// `DateTimeOriginal` is preferred over `DateTime`.
pub fn pick_capture_date(original: Option<&str>, fallback: Option<&str>) -> (res: Option<CaptureDateTime>)
    ensures
        res == match original {
            Some(o) if exif_datetime(o@) is Some => Some(capture_from_fields(exif_datetime(o@)->0)),
            _ => match fallback {
                Some(f) if exif_datetime(f@) is Some => Some(capture_from_fields(exif_datetime(f@)->0)),
                _ => None,
            },
        },
{
    match original {
        Some(o) => {
            let r = CaptureDateTime::parse_exif(o);
            if r.is_some() {
                return r;
            }
        },
        None => {},
    }
    match fallback {
        Some(f) => CaptureDateTime::parse_exif(f),
        None => None,
    }
}

/// The capture time with the given fields.
pub open spec fn capture_from_fields(f: (i32, u32, u32, u32, u32, u32, u32)) -> CaptureDateTime {
    CaptureDateTime {
        year: f.0,
        month: f.1,
        day: f.2,
        hour: f.3,
        minute: f.4,
        second: f.5,
        nanosecond: f.6,
    }
}

/// An instant in UTC, as seconds and nanoseconds since the Unix epoch; only
/// instants that chrono can represent are made.
#[derive(Clone, Copy, Debug)]
pub struct Timestamp {
    secs: i64,
    nanos: u32,
}

impl Timestamp {
    #[verifier::type_invariant]
    spec fn representable(self) -> bool {
        utc_calendar_date(self.secs, self.nanos) is Some
    }

    pub closed spec fn spec_secs(self) -> i64 {
        self.secs
    }

    pub closed spec fn spec_nanos(self) -> u32 {
        self.nanos
    }

    /// The instant `secs` seconds and `nanos` nanoseconds after the epoch,
    /// when chrono can represent it.
    pub fn from_unix(secs: i64, nanos: u32) -> (res: Option<Timestamp>)
        ensures
            match res {
                Some(t) => t.spec_secs() == secs && t.spec_nanos() == nanos && utc_calendar_date(secs, nanos) is Some,
                None => utc_calendar_date(secs, nanos) is None,
            },
    {
        match chrono_utc_date(secs, nanos) {
            Some(_) => Some(Timestamp { secs, nanos }),
            None => None,
        }
    }

    /// Seconds since the Unix epoch.
    pub fn secs(&self) -> (res: i64)
        ensures
            res == self.spec_secs(),
    {
        self.secs
    }

    /// Nanoseconds past `secs`.
    pub fn nanos(&self) -> (res: u32)
        ensures
            res == self.spec_nanos(),
    {
        self.nanos
    }

    /// The UTC calendar date of this instant.
    pub fn utc_date(&self) -> (res: (i32, u32, u32))
        ensures
            utc_calendar_date(self.spec_secs(), self.spec_nanos()) == Some(res),
    {
        proof {
            use_type_invariant(self);
        }
        match chrono_utc_date(self.secs, self.nanos) {
            Some(d) => d,
            None => (0, 0, 0),
        }
    }

    /// Whether two values name the same instant.
    pub fn same_instant(&self, other: &Timestamp) -> (res: bool)
        ensures
            res == (self.spec_secs() == other.spec_secs() && self.spec_nanos() == other.spec_nanos()),
    {
        self.secs == other.secs && self.nanos == other.nanos
    }
}

/// The text chrono's `%Y` gives for a year: four digits, zero-padded, for
/// years 0 through 9999; otherwise a sign and at least four digits.
pub open spec fn year_text(y: int) -> Seq<char> {
    if 0 <= y <= 9999 {
        text::zero_padded(text::decimal(y as nat), 4)
    } else if y < 0 {
        seq!['-'] + text::zero_padded(text::decimal((-y) as nat), 4)
    } else {
        seq!['+'] + text::zero_padded(text::decimal(y as nat), 4)
    }
}

/// The text chrono's `%m` and `%d` give for a month or day: two digits,
/// zero-padded.
pub open spec fn two_digit_text(v: nat) -> Seq<char> {
    text::zero_padded(text::decimal(v), 2)
}

/// The `%Y` text of a year.
pub fn format_year(y: i32) -> (res: String)
    ensures
        res@ == year_text(y as int),
{
    let mut s = String::new();
    if y < 0 {
        push_char(&mut s, '-');
        let abs: u64 = (0i64 - (y as i64)) as u64;
        let digits = decimal_string(abs);
        push_zero_padded(&mut s, digits.as_str(), 4);
    } else {
        if y > 9999 {
            push_char(&mut s, '+');
        }
        let digits = decimal_string(y as u64);
        push_zero_padded(&mut s, digits.as_str(), 4);
    }
    assert(s@ =~= year_text(y as int));
    s
}

/// The `%m` / `%d` text of a month or day.
pub fn format_two_digits(v: u32) -> (res: String)
    ensures
        res@ == two_digit_text(v as nat),
{
    let mut s = String::new();
    let digits = decimal_string(v as u64);
    push_zero_padded(&mut s, digits.as_str(), 2);
    assert(s@ =~= two_digit_text(v as nat));
    s
}

/// The EXIF tag `DateTimeOriginal` (Exif context, number 0x9003).
pub const DATE_TIME_ORIGINAL: (u8, u16) = (1u8, 0x9003u16);

/// The EXIF tag `DateTime` (TIFF context, number 0x132).
pub const DATE_TIME: (u8, u16) = (0u8, 0x132u16);

/// The strings of the ASCII value of the EXIF field `tag` (context number:
/// 0 TIFF, 1 Exif, 2 GPS, 3 interoperability; then the tag number) of the
/// primary image, as kamadak-exif reads it from the file bytes `data`:
/// `None` when the container or its EXIF data does not read, the field is
/// missing, or its value is not ASCII.
pub uninterp spec fn exif_ascii_field(data: Seq<u8>, tag: (u8, u16)) -> Option<Seq<Seq<u8>>>;

/// kamadak-exif's `Reader::read_from_container` on `data`, then `get_field`
/// of `tag` in the primary image, then the strings of an ASCII value. The
/// contract claims only that the result is the value that
/// `exif_ascii_field` names for `data` and `tag`.
#[verifier::external_body]
fn exif_field(data: &[u8], tag: (u8, u16)) -> (res: Option<Vec<Vec<u8>>>)
    requires
        tag.0 < 4,
    ensures
        match res {
            Some(v) => exif_ascii_field(data@, tag) == Some(v.deep_view()),
            None => exif_ascii_field(data@, tag) is None,
        },
{
    let context = match tag.0 {
        0 => exif::Context::Tiff,
        1 => exif::Context::Exif,
        2 => exif::Context::Gps,
        _ => exif::Context::Interop,
    };
    let exif = exif::Reader::new().read_from_container(&mut std::io::Cursor::new(data)).ok()?;
    match &exif.get_field(exif::Tag(context, tag.1), exif::In::PRIMARY)?.value {
        exif::Value::Ascii(v) => Some(v.clone()),
        _ => None,
    }
}

/// The characters of `bytes`, one per byte.
pub open spec fn byte_chars(bytes: Seq<u8>) -> Seq<char> {
    bytes.map_values(|b: u8| b as char)
}

/// The first string of an ASCII field, as text.
pub open spec fn field_text(field: Option<Seq<Seq<u8>>>) -> Option<Seq<char>> {
    match field {
        Some(strs) => if strs.len() > 0 {
            Some(byte_chars(strs[0]))
        } else {
            None
        },
        None => None,
    }
}

/// The capture time recorded in the EXIF data of a file whose bytes are
/// `data`: its `DateTimeOriginal`, or else its `DateTime`, read as
/// `YYYY:MM:DD HH:MM:SS`.
pub open spec fn capture_date_of(data: Seq<u8>) -> Option<CaptureDateTime> {
    match field_text(exif_ascii_field(data, DATE_TIME_ORIGINAL)) {
        Some(o) if exif_datetime(o) is Some => Some(capture_from_fields(exif_datetime(o)->0)),
        _ => match field_text(exif_ascii_field(data, DATE_TIME)) {
            Some(f) if exif_datetime(f) is Some => Some(capture_from_fields(exif_datetime(f)->0)),
            _ => None,
        },
    }
}

/// The first string of an ASCII field, as text.
fn first_text(field: &Option<Vec<Vec<u8>>>) -> (res: Option<String>)
    ensures
        crate::paths::opt_view(res) == field_text(field.deep_view()),
{
    match field {
        Some(strs) => {
            if strs.len() == 0 {
                return None;
            }
            let bytes = &strs[0];
            let mut s = String::new();
            let mut i: usize = 0;
            while i < bytes.len()
                invariant
                    i <= bytes.len(),
                    s@ == byte_chars(bytes@.take(i as int)),
                decreases bytes.len() - i,
            {
                push_char(&mut s, bytes[i] as char);
                assert(byte_chars(bytes@.take(i + 1)) =~= byte_chars(bytes@.take(i as int)).push(bytes@[i as int] as char));
                i = i + 1;
            }
            assert(bytes@.take(bytes.len() as int) =~= bytes@);
            assert(strs.deep_view()[0] == bytes@);
            Some(s)
        },
        None => None,
    }
}

/// Reads the capture time from the EXIF data of a file whose bytes are
/// `data`: `DateTimeOriginal` is preferred over `DateTime`.
pub fn read_capture_date(data: &[u8]) -> (res: Option<CaptureDateTime>)
    ensures
        res == capture_date_of(data@),
{
    let original = first_text(&exif_field(data, DATE_TIME_ORIGINAL));
    let fallback = first_text(&exif_field(data, DATE_TIME));
    let o: Option<&str> = match &original {
        Some(t) => Some(t.as_str()),
        None => None,
    };
    let f: Option<&str> = match &fallback {
        Some(t) => Some(t.as_str()),
        None => None,
    };
    pick_capture_date(o, f)
}

/// The capture date of a file is its `DateTimeOriginal` (Exif tag 0x9003)
/// whenever that field reads as a date, whatever `DateTime` holds; the
/// `DateTime` field (TIFF tag 0x132) counts only when `DateTimeOriginal` is
/// missing or unreadable, and with neither there is no capture date.
pub proof fn law_capture_date_prefers_original(data: Seq<u8>)
    ensures
        match field_text(exif_ascii_field(data, (1u8, 0x9003u16))) {
            Some(o) if exif_datetime(o) is Some => capture_date_of(data) == Some(
                capture_from_fields(exif_datetime(o)->0),
            ),
            _ => match field_text(exif_ascii_field(data, (0u8, 0x132u16))) {
                Some(f) if exif_datetime(f) is Some => capture_date_of(data) == Some(
                    capture_from_fields(exif_datetime(f)->0),
                ),
                _ => capture_date_of(data) is None,
            },
        },
{
}

} // verus!
