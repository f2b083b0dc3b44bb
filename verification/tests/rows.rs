use local_image_db::dates::{read_capture_date, CaptureDateTime, Timestamp};
use local_image_db::hasher::{hash_finished, hash_started, hash_step, HashTally};
use local_image_db::db::Database;
use local_image_db::models::{DriveRecord, ImageRecord};
use local_image_db::progress::ProgressMsg;
use local_image_db::rows::{drive_from_row, drive_row, image_from_row, image_row, DriveRow, ImageRow};

/// A little-endian TIFF whose primary image has one ASCII field `tag`.
fn tiff_with_ascii(tag: u16, value: &str) -> Vec<u8> {
    let mut v: Vec<u8> = vec![b'I', b'I', 42, 0, 8, 0, 0, 0];
    let mut text = value.as_bytes().to_vec();
    text.push(0);
    v.extend_from_slice(&1u16.to_le_bytes());
    v.extend_from_slice(&tag.to_le_bytes());
    v.extend_from_slice(&2u16.to_le_bytes());
    v.extend_from_slice(&(text.len() as u32).to_le_bytes());
    v.extend_from_slice(&26u32.to_le_bytes());
    v.extend_from_slice(&0u32.to_le_bytes());
    v.extend_from_slice(&text);
    v
}

#[test]
fn capture_date_is_read_from_exif_bytes() {
    let data = tiff_with_ascii(0x132, "2024:07:15 14:30:00");
    let c = read_capture_date(&data).unwrap();
    assert_eq!((c.year, c.month, c.day, c.hour, c.minute, c.second), (2024, 7, 15, 14, 30, 0));
    assert!(read_capture_date(&tiff_with_ascii(0x132, "not a date")).is_none());
    assert!(read_capture_date(b"plain text").is_none());
}

#[test]
fn drive_rows_round_trip() {
    let d = DriveRecord {
        id: 3,
        label: "L".to_string(),
        root_path: "/mnt/d".to_string(),
        last_scanned_at: Timestamp::from_unix(1_725_029_869, 0),
    };
    let r = drive_row(&d);
    assert_eq!(r.last_scanned_at.as_deref(), Some("2024-08-30T14:57:49Z"));
    let back = drive_from_row(r);
    assert_eq!((back.id, back.label.as_str(), back.root_path.as_str()), (3, "L", "/mnt/d"));
    assert_eq!(back.last_scanned_at.map(|t| t.secs()), Some(1_725_029_869));
    let unreadable = DriveRow { id: 1, label: "x".into(), root_path: "/x".into(), last_scanned_at: Some("yesterday".into()) };
    assert!(drive_from_row(unreadable).last_scanned_at.is_none());
}

#[test]
fn image_rows_round_trip() {
    let im = ImageRecord {
        id: Some(7),
        drive_id: 3,
        filename: "a.jpg".to_string(),
        relative_path: "a.jpg".to_string(),
        absolute_path: "/mnt/d/a.jpg".to_string(),
        file_size: 10,
        capture_date: Some(CaptureDateTime { year: 2024, month: 7, day: 15, hour: 14, minute: 30, second: 0, nanosecond: 0 }),
        file_mtime: Timestamp::from_unix(1_431_648_000, 0).unwrap(),
        blake3_hash: Some("beef".to_string()),
    };
    let r = image_row(&im);
    assert_eq!(r.capture_date.as_deref(), Some("2024-07-15T14:30:00"));
    assert_eq!(r.file_mtime, "2015-05-15T00:00:00+00:00");
    assert_eq!(r.file_size, 10);
    let fallback = Timestamp::from_unix(0, 0).unwrap();
    let back = image_from_row(r, fallback);
    assert_eq!(back.capture_date, im.capture_date);
    assert_eq!(back.file_mtime.secs(), 1_431_648_000);
    assert_eq!(back.blake3_hash.as_deref(), Some("beef"));
    let odd = ImageRow {
        id: Some(1),
        drive_id: 1,
        filename: "b".into(),
        relative_path: "b".into(),
        absolute_path: "/b".into(),
        file_size: -1,
        capture_date: Some("2024:07:15 14:30:00".into()),
        file_mtime: "garbage".into(),
        blake3_hash: None,
    };
    let back = image_from_row(odd, fallback);
    assert_eq!(back.file_size, u64::MAX);
    assert!(back.capture_date.is_none());
    assert_eq!(back.file_mtime.secs(), 0);
}

#[test]
fn hash_run_messages() {
    match hash_started(2) {
        ProgressMsg::Started { total, label } => assert_eq!((total, label.as_str()), (2, "hash")),
        other => panic!("unexpected {other:?}"),
    }
    let mut db = Database::new();
    let mut tally = HashTally { hashed: 0, errors: 0 };
    let msgs = hash_step(&mut db, &mut tally, 0, 2, "/d/a.jpg", Err("denied".to_string())).unwrap();
    assert_eq!(msgs.len(), 2);
    assert!(matches!(&msgs[0], ProgressMsg::Warning { message } if message == "/d/a.jpg: denied"));
    assert!(matches!(&msgs[1], ProgressMsg::Tick { current: 1, total: 2, detail: Some(d) } if d == "a.jpg"));
    let msgs = hash_step(&mut db, &mut tally, 1, 2, "/d/b.jpg", Ok("ff".to_string())).unwrap();
    assert_eq!(msgs.len(), 1);
    assert!(matches!(&msgs[0], ProgressMsg::Tick { current: 2, total: 2, .. }));
    assert!(matches!(hash_finished(tally), ProgressMsg::Finished { processed: 1, errors: 1 }));
}
