use local_image_db::dates::{CaptureDateTime, Timestamp};
use local_image_db::db::{Database, DbError};
use local_image_db::models::ImageRecord;

fn sample_image(drive_id: i64, filename: &str, path: &str, size: u64) -> ImageRecord {
    ImageRecord {
        id: None,
        drive_id,
        filename: filename.to_string(),
        relative_path: filename.to_string(),
        absolute_path: path.to_string(),
        file_size: size,
        capture_date: None,
        file_mtime: Timestamp::from_unix(1_700_000_000, 0).unwrap(),
        blake3_hash: None,
    }
}

#[test]
fn test_upsert_drive_and_find() {
    let mut db = Database::open_in_memory().unwrap();
    let id = db.upsert_drive("Test Drive", "/mnt/test").unwrap();
    assert!(id > 0);
    let drive = db.find_drive_by_path("/mnt/test").unwrap().unwrap();
    assert_eq!(drive.label, "Test Drive");
    assert_eq!(drive.id, id);
}

#[test]
fn test_upsert_drive_updates_label() {
    let mut db = Database::open_in_memory().unwrap();
    let id1 = db.upsert_drive("Old Label", "/mnt/test").unwrap();
    let id2 = db.upsert_drive("New Label", "/mnt/test").unwrap();
    assert_eq!(id1, id2);
    let drive = db.find_drive_by_path("/mnt/test").unwrap().unwrap();
    assert_eq!(drive.label, "New Label");
}

#[test]
fn test_upsert_and_find_image() {
    let mut db = Database::open_in_memory().unwrap();
    let drive_id = db.upsert_drive("Drive", "/mnt/d").unwrap();
    let img = sample_image(drive_id, "DSC_0001.NEF", "/mnt/d/2024/DSC_0001.NEF", 15_000_000);
    db.upsert_image(&img).unwrap();

    let results = db.find_by_filename("DSC_0001.NEF").unwrap();
    assert_eq!(results.len(), 1);
    assert_eq!(results[0].1, 15_000_000);
}

#[test]
fn test_batch_insert() {
    let mut db = Database::open_in_memory().unwrap();
    let drive_id = db.upsert_drive("Drive", "/mnt/d").unwrap();
    let images: Vec<_> = (0..100)
        .map(|i| {
            sample_image(
                drive_id,
                &format!("IMG_{i:04}.jpg"),
                &format!("/mnt/d/IMG_{i:04}.jpg"),
                1_000_000,
            )
        })
        .collect();
    db.upsert_images_batch(&images).unwrap();
    assert_eq!(db.image_count().unwrap(), 100);
}

#[test]
fn test_hash_update_and_find() {
    let mut db = Database::open_in_memory().unwrap();
    let drive_id = db.upsert_drive("Drive", "/mnt/d").unwrap();
    let img = sample_image(drive_id, "photo.arw", "/mnt/d/photo.arw", 25_000_000);
    db.upsert_image(&img).unwrap();

    db.update_hash("/mnt/d/photo.arw", "abc123").unwrap();
    let found = db.find_by_hash("abc123").unwrap();
    assert_eq!(found, Some("/mnt/d/photo.arw".to_string()));
}

#[test]
fn test_cascade_delete() {
    let mut db = Database::open_in_memory().unwrap();
    let drive_id = db.upsert_drive("Drive", "/mnt/d").unwrap();
    let img = sample_image(drive_id, "photo.jpg", "/mnt/d/photo.jpg", 5_000_000);
    db.upsert_image(&img).unwrap();
    assert_eq!(db.image_count().unwrap(), 1);

    db.remove_drive_by_path("/mnt/d").unwrap();
    assert_eq!(db.image_count().unwrap(), 0);
}

#[test]
fn test_capture_date_roundtrip() {
    let mut db = Database::open_in_memory().unwrap();
    let drive_id = db.upsert_drive("Drive", "/mnt/d").unwrap();
    let capture = CaptureDateTime::parse_exif("2024:07:15 14:30:00").unwrap();
    let mut img = sample_image(drive_id, "photo.cr2", "/mnt/d/photo.cr2", 10_000_000);
    img.capture_date = Some(capture);
    db.upsert_image(&img).unwrap();

    // Verify via find_by_filename (we just check no error and row exists)
    let results = db.find_by_filename("photo.cr2").unwrap();
    assert_eq!(results.len(), 1);
}

#[test]
fn image_for_unknown_drive_is_refused() {
    let mut db = Database::open_in_memory().unwrap();
    let img = sample_image(7, "a.jpg", "/x/a.jpg", 1);
    assert_eq!(db.upsert_image(&img), Err(DbError::UnknownDrive));
    assert_eq!(db.image_count().unwrap(), 0);
}

#[test]
fn drive_ids_count_up_and_are_not_reused() {
    let mut db = Database::open_in_memory().unwrap();
    assert_eq!(db.upsert_drive("A", "/a").unwrap(), 1);
    assert_eq!(db.upsert_drive("B", "/b").unwrap(), 2);
    assert_eq!(db.remove_drive_by_path("/b").unwrap(), 1);
    assert_eq!(db.remove_drive_by_path("/b").unwrap(), 0);
    assert_eq!(db.upsert_drive("C", "/c").unwrap(), 3);
    let drives = db.list_drives().unwrap();
    assert_eq!(drives.len(), 2);
    assert_eq!(drives[0].root_path, "/a");
    assert_eq!(drives[1].id, 3);
}

#[test]
fn upsert_image_keeps_recorded_hash_and_row_id() {
    let mut db = Database::open_in_memory().unwrap();
    let d = db.upsert_drive("D", "/d").unwrap();
    let first = db.upsert_image(&sample_image(d, "a.jpg", "/d/a.jpg", 10)).unwrap();
    db.update_hash("/d/a.jpg", "ff00").unwrap();
    let again = db.upsert_image(&sample_image(d, "a.jpg", "/d/a.jpg", 20)).unwrap();
    assert_eq!(first, again);
    let rows = db.find_by_filename("a.jpg").unwrap();
    assert_eq!(rows.len(), 1);
    assert_eq!(rows[0].1, 20);
    assert_eq!(rows[0].2, Some("ff00".to_string()));
    assert_eq!(db.image_count().unwrap(), 1);
}

#[test]
fn remove_drive_keeps_other_drives_images() {
    let mut db = Database::open_in_memory().unwrap();
    let a = db.upsert_drive("A", "/a").unwrap();
    let b = db.upsert_drive("B", "/b").unwrap();
    db.upsert_image(&sample_image(a, "x.jpg", "/a/x.jpg", 1)).unwrap();
    db.upsert_image(&sample_image(b, "x.jpg", "/b/x.jpg", 2)).unwrap();
    db.remove_drive_by_path("/a").unwrap();
    let rows = db.find_by_filename("x.jpg").unwrap();
    assert_eq!(rows.len(), 1);
    assert_eq!(rows[0].0, "/b/x.jpg");
    assert!(db.find_drive_by_path("/a").unwrap().is_none());
}

#[test]
fn batch_with_unknown_drive_writes_nothing() {
    let mut db = Database::open_in_memory().unwrap();
    let d = db.upsert_drive("D", "/d").unwrap();
    let images = vec![sample_image(d, "a.jpg", "/d/a.jpg", 1), sample_image(d + 5, "b.jpg", "/e/b.jpg", 1)];
    assert_eq!(db.upsert_images_batch(&images), Err(DbError::UnknownDrive));
    assert_eq!(db.image_count().unwrap(), 0);
}

#[test]
fn images_missing_hash_filters_by_drive() {
    let mut db = Database::open_in_memory().unwrap();
    let a = db.upsert_drive("A", "/a").unwrap();
    let b = db.upsert_drive("B", "/b").unwrap();
    db.upsert_image(&sample_image(a, "1.jpg", "/a/1.jpg", 1)).unwrap();
    db.upsert_image(&sample_image(b, "2.jpg", "/b/2.jpg", 1)).unwrap();
    db.upsert_image(&sample_image(a, "3.jpg", "/a/3.jpg", 1)).unwrap();
    db.update_hash("/a/3.jpg", "aa").unwrap();
    let all = db.images_missing_hash(None).unwrap();
    assert_eq!(all, vec![(1, "/a/1.jpg".to_string()), (2, "/b/2.jpg".to_string())]);
    let on_a = db.images_missing_hash(Some(a)).unwrap();
    assert_eq!(on_a, vec![(1, "/a/1.jpg".to_string())]);
    assert_eq!(db.find_by_hash("zz").unwrap(), None);
}

#[test]
fn scanned_time_is_recorded() {
    let mut db = Database::open_in_memory().unwrap();
    let a = db.upsert_drive("A", "/a").unwrap();
    let t = Timestamp::from_unix(1_725_029_869, 0).unwrap();
    db.update_drive_scanned_at(a, t).unwrap();
    let d = db.find_drive_by_path("/a").unwrap().unwrap();
    assert_eq!(d.last_scanned_at.map(|t| t.secs()), Some(1_725_029_869));
}

#[test]
fn restoring_listed_rows_rebuilds_the_catalog() {
    let mut db = Database::open_in_memory().unwrap();
    let d1 = db.upsert_drive("One", "/mnt/one").unwrap();
    let d2 = db.upsert_drive("Two", "/mnt/two").unwrap();
    db.upsert_image(&sample_image(d1, "a.jpg", "/mnt/one/a.jpg", 10)).unwrap();
    db.upsert_image(&sample_image(d2, "b.jpg", "/mnt/two/b.jpg", 20)).unwrap();
    db.remove_drive_by_path("/mnt/one").unwrap();
    db.update_hash("/mnt/two/b.jpg", "beef").unwrap();

    let mut back = Database::new();
    for d in db.list_drives().unwrap() {
        back.restore_drive(d).unwrap();
    }
    for im in db.list_images() {
        back.restore_image(im).unwrap();
    }
    let (ld, li) = db.last_ids();
    back.restore_counters(ld, li).unwrap();

    assert_eq!(back.last_ids(), (2, 2));
    let drives = back.list_drives().unwrap();
    assert_eq!(drives.len(), 1);
    assert_eq!(drives[0].id, d2);
    assert_eq!(drives[0].root_path, "/mnt/two");
    let images = back.list_images();
    assert_eq!(images.len(), 1);
    assert_eq!(images[0].id, Some(2));
    assert_eq!(images[0].blake3_hash.as_deref(), Some("beef"));
    // A new drive after the rebuild does not reuse a removed drive's id.
    assert_eq!(back.upsert_drive("Three", "/mnt/three").unwrap(), 3);
}

#[test]
fn restoring_inconsistent_rows_is_refused() {
    let mut db = Database::new();
    let mut drive = local_image_db::models::DriveRecord {
        id: 5,
        label: "D".to_string(),
        root_path: "/mnt/d".to_string(),
        last_scanned_at: None,
    };
    db.restore_drive(drive.duplicate()).unwrap();
    // Same id again, and same root path under a larger id.
    assert_eq!(db.restore_drive(drive.duplicate()), Err(DbError::Inconsistent));
    drive.id = 6;
    assert_eq!(db.restore_drive(drive.duplicate()), Err(DbError::Inconsistent));

    let mut im = sample_image(5, "a.jpg", "/mnt/d/a.jpg", 1);
    // Rows without an id, or of an unknown drive, are refused.
    assert_eq!(db.restore_image(im.duplicate()), Err(DbError::Inconsistent));
    im.id = Some(3);
    im.drive_id = 9;
    assert_eq!(db.restore_image(im.duplicate()), Err(DbError::Inconsistent));
    im.drive_id = 5;
    assert_eq!(db.restore_image(im.duplicate()), Ok(()));
    im.id = Some(4);
    assert_eq!(db.restore_image(im.duplicate()), Err(DbError::Inconsistent));
    // Counters may only grow.
    assert_eq!(db.restore_counters(4, 3), Err(DbError::Inconsistent));
    assert_eq!(db.restore_counters(5, 10), Ok(()));
    assert_eq!(db.last_ids(), (5, 10));
}
