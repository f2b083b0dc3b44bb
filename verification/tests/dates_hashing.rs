use local_image_db::dates::{format_two_digits, format_year, pick_capture_date, CaptureDateTime, Timestamp};
use local_image_db::hashing::{hash_bytes, to_hex_lower};

#[test]
fn exif_dates_parse() {
    let c = CaptureDateTime::parse_exif("2024:07:15 14:30:00").unwrap();
    assert_eq!((c.year, c.month, c.day, c.hour, c.minute, c.second), (2024, 7, 15, 14, 30, 0));
    assert!(CaptureDateTime::parse_exif("2024-07-15 14:30:00").is_none());
    assert!(CaptureDateTime::parse_exif("").is_none());
}

#[test]
fn original_date_is_preferred() {
    let c = pick_capture_date(Some("2020:01:02 03:04:05"), Some("2021:01:01 00:00:00")).unwrap();
    assert_eq!(c.year, 2020);
    let c = pick_capture_date(Some("garbage"), Some("2021:01:01 00:00:00")).unwrap();
    assert_eq!(c.year, 2021);
    assert!(pick_capture_date(None, None).is_none());
}

#[test]
fn timestamps_give_utc_dates() {
    let t = Timestamp::from_unix(1431648000, 0).unwrap();
    assert_eq!(t.utc_date(), (2015, 5, 15));
    let t = Timestamp::from_unix(-1, 0).unwrap();
    assert_eq!(t.utc_date(), (1969, 12, 31));
    assert!(Timestamp::from_unix(i64::MAX, 0).is_none());
    assert!(Timestamp::from_unix(0, 2_000_000_000).is_none());
}

#[test]
fn years_months_days_format_as_chrono() {
    assert_eq!(format_year(2024), "2024");
    assert_eq!(format_year(999), "0999");
    assert_eq!(format_year(0), "0000");
    assert_eq!(format_year(10000), "+10000");
    assert_eq!(format_year(-5), "-0005");
    assert_eq!(format_two_digits(7), "07");
    assert_eq!(format_two_digits(12), "12");
}

#[test]
fn hex_is_lowercase_two_digits_per_byte() {
    assert_eq!(to_hex_lower(&[0x00, 0xbe, 0xef, 0x0f]), "00beef0f");
    assert_eq!(to_hex_lower(&[]), "");
}

#[test]
fn blake3_of_empty_input() {
    assert_eq!(
        hash_bytes(b""),
        "af1349b9f5f9a1a6a0404dea36dcc9499bcb25c9adc112b7cc9a93cae41f3262"
    );
    assert_ne!(hash_bytes(b"a"), hash_bytes(b"b"));
    assert_eq!(hash_bytes(b"abc").len(), 64);
}
