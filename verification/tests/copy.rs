use local_image_db::cli::OutputFormat;
use local_image_db::copy::{classify, classify_hashed, record_copy, split_candidates, Classification, CopyError};
use local_image_db::dates::{CaptureDateTime, Timestamp};
use local_image_db::db::Database;
use local_image_db::models::{CopyCandidate, DuplicateStatus, ImageRecord};
use local_image_db::report::report_lines;
use local_image_db::scanner::{build_record, destination_path, is_image_extension, strip_root_exec};

fn image(drive_id: i64, filename: &str, path: &str, size: u64) -> ImageRecord {
    ImageRecord {
        id: None,
        drive_id,
        filename: filename.to_string(),
        relative_path: filename.to_string(),
        absolute_path: path.to_string(),
        file_size: size,
        capture_date: None,
        file_mtime: Timestamp::from_unix(1431648000, 0).unwrap(),
        blake3_hash: None,
    }
}

fn catalog() -> Database {
    let mut db = Database::open_in_memory().unwrap();
    let d = db.upsert_drive("Drive", "/d").unwrap();
    db.upsert_image(&image(d, "IMG.jpg", "/d/2024/IMG.jpg", 100)).unwrap();
    db.update_hash("/d/2024/IMG.jpg", "h1").unwrap();
    db.upsert_image(&image(d, "OTHER.jpg", "/d/2023/OTHER.jpg", 7)).unwrap();
    db.update_hash("/d/2023/OTHER.jpg", "h3").unwrap();
    db
}

fn status_name(s: &DuplicateStatus) -> String {
    match s {
        DuplicateStatus::New => "New".to_string(),
        DuplicateStatus::SizeConflict => "SizeConflict".to_string(),
        DuplicateStatus::HashConflict => "HashConflict".to_string(),
        DuplicateStatus::AlreadyExists { existing_path } => format!("AlreadyExists({existing_path})"),
    }
}

fn decided(c: Classification) -> String {
    match c {
        Classification::Decided(s) => status_name(&s),
        Classification::NeedsHash => "NeedsHash".to_string(),
    }
}

#[test]
fn unknown_name_is_new() {
    let db = catalog();
    assert_eq!(decided(classify(&db, &image(0, "NEW.jpg", "/sd/NEW.jpg", 100), false)), "New");
}

#[test]
fn known_name_other_size_is_size_conflict() {
    let db = catalog();
    assert_eq!(decided(classify(&db, &image(0, "IMG.jpg", "/sd/IMG.jpg", 200), true)), "SizeConflict");
}

#[test]
fn name_and_size_match_without_hashing() {
    let db = catalog();
    assert_eq!(
        decided(classify(&db, &image(0, "IMG.jpg", "/sd/IMG.jpg", 100), false)),
        "AlreadyExists(/d/2024/IMG.jpg)"
    );
    assert_eq!(decided(classify(&db, &image(0, "IMG.jpg", "/sd/IMG.jpg", 100), true)), "NeedsHash");
}

#[test]
fn hashing_decides() {
    let db = catalog();
    let mut img = image(0, "IMG.jpg", "/sd/IMG.jpg", 100);
    assert_eq!(status_name(&classify_hashed(&db, &mut img, "h1".to_string())), "AlreadyExists(/d/2024/IMG.jpg)");
    assert_eq!(img.blake3_hash, Some("h1".to_string()));
    let mut img = image(0, "IMG.jpg", "/sd/IMG.jpg", 100);
    assert_eq!(status_name(&classify_hashed(&db, &mut img, "h2".to_string())), "HashConflict");
    let mut img = image(0, "IMG.jpg", "/sd/IMG.jpg", 100);
    assert_eq!(status_name(&classify_hashed(&db, &mut img, "h3".to_string())), "AlreadyExists(/d/2023/OTHER.jpg)");
}

fn candidate(name: &str, status: DuplicateStatus) -> CopyCandidate {
    CopyCandidate {
        source: image(0, name, &format!("/sd/{name}"), 5),
        destination_path: format!("/d/{name}"),
        status,
    }
}

#[test]
fn split_keeps_order() {
    let cs = vec![
        candidate("a.jpg", DuplicateStatus::New),
        candidate("b.jpg", DuplicateStatus::AlreadyExists { existing_path: "/d/b.jpg".to_string() }),
        candidate("c.jpg", DuplicateStatus::HashConflict),
    ];
    let (to_copy, already) = split_candidates(&cs);
    assert_eq!(to_copy.len(), 2);
    assert_eq!(to_copy[0].source.filename, "a.jpg");
    assert_eq!(to_copy[1].source.filename, "c.jpg");
    assert_eq!(already.len(), 1);
    assert_eq!(already[0].source.filename, "b.jpg");
}

#[test]
fn table_report_lines() {
    let to_copy = vec![candidate("a.jpg", DuplicateStatus::New), candidate("b.jpg", DuplicateStatus::SizeConflict)];
    let lines = report_lines(&to_copy, 2, OutputFormat::Table);
    assert_eq!(
        lines,
        vec![
            "\n2 files to copy:".to_string(),
            "  [new           ] a.jpg -> /d/a.jpg".to_string(),
            "  [size-conflict ] b.jpg -> /d/b.jpg".to_string(),
            "\n2 files already on drive (skipped).".to_string(),
        ]
    );
    let lines = report_lines(&Vec::new(), 0, OutputFormat::Table);
    assert_eq!(lines, vec!["\n0 files to copy:".to_string()]);
}

#[test]
fn json_report_lines() {
    let to_copy = vec![candidate("a.jpg", DuplicateStatus::New), candidate("c.jpg", DuplicateStatus::HashConflict)];
    let lines = report_lines(&to_copy, 3, OutputFormat::Json);
    assert_eq!(
        lines,
        vec![
            "{".to_string(),
            "  \"to_copy\": [".to_string(),
            "    {\"filename\": \"a.jpg\", \"destination\": \"/d/a.jpg\", \"status\": \"New\"},".to_string(),
            "    {\"filename\": \"c.jpg\", \"destination\": \"/d/c.jpg\", \"status\": \"HashConflict\"}".to_string(),
            "  ],".to_string(),
            "  \"already_exists\": 3".to_string(),
            "}".to_string(),
        ]
    );
}

#[test]
fn paths_report_lines() {
    let to_copy = vec![candidate("a.jpg", DuplicateStatus::New)];
    assert_eq!(report_lines(&to_copy, 9, OutputFormat::Paths), vec!["/sd/a.jpg".to_string()]);
}

#[test]
fn copies_are_recorded_unless_sizes_differ() {
    let mut db = Database::open_in_memory().unwrap();
    let d = db.upsert_drive("Drive", "/d").unwrap();
    let mut c = candidate("a.jpg", DuplicateStatus::New);
    c.source.blake3_hash = Some("hh".to_string());
    let now = Timestamp::from_unix(1_800_000_000, 0).unwrap();
    assert_eq!(
        record_copy(&mut db, &c, "/d/2015/05/15/a_1.jpg", d, 4, now),
        Err(CopyError::SizeMismatch { expected: 5, got: 4 })
    );
    assert_eq!(db.image_count().unwrap(), 0);
    assert_eq!(record_copy(&mut db, &c, "/d/2015/05/15/a_1.jpg", d, 5, now), Ok(1));
    let rows = db.find_by_filename("a_1.jpg").unwrap();
    assert_eq!(rows, vec![("/d/2015/05/15/a_1.jpg".to_string(), 5, Some("hh".to_string()))]);
}

#[test]
fn destination_uses_capture_date_then_mtime() {
    let mut img = image(0, "IMG.jpg", "/sd/IMG.jpg", 5);
    assert_eq!(destination_path("/Volumes/MyDrive", &img, "{year}/{month}/{day}"), "/Volumes/MyDrive/2015/05/15/IMG.jpg");
    img.capture_date = CaptureDateTime::parse_exif("2024:07:05 10:00:00");
    assert_eq!(destination_path("/Volumes/MyDrive", &img, "{year}/{month}/{day}"), "/Volumes/MyDrive/2024/07/05/IMG.jpg");
    assert_eq!(destination_path("/m/", &img, "{year}-{month}"), "/m/2024-07/IMG.jpg");
    assert_eq!(destination_path("/m", &img, ""), "/m/IMG.jpg");
}

#[test]
fn image_extensions_are_matched_lowercased() {
    let exts = vec!["jpg".to_string(), "arw".to_string()];
    assert!(is_image_extension("/sd/DCIM/IMG_1.JPG", &exts));
    assert!(is_image_extension("/sd/a.arw", &exts));
    assert!(!is_image_extension("/sd/a.txt", &exts));
    assert!(!is_image_extension("/sd/jpg", &exts));
    assert!(!is_image_extension("/sd/.jpg", &exts));
}

#[test]
fn records_of_scanned_files() {
    let t = Timestamp::from_unix(0, 0).unwrap();
    assert!(build_record("/r/a.jpg", "/r", 1, 100, 99, t, None, None).is_none());
    let r = build_record("/r/x/a.jpg", "/r", 1, 100, 100, t, None, None).unwrap();
    assert_eq!(r.filename, "a.jpg");
    assert_eq!(r.relative_path, "x/a.jpg");
    assert_eq!(r.absolute_path, "/r/x/a.jpg");
    assert_eq!(r.drive_id, 1);
    let r = build_record("/other/a.jpg", "/r", 1, 0, 1, t, None, None).unwrap();
    assert_eq!(r.relative_path, "/other/a.jpg");
    assert_eq!(strip_root_exec("/rx/a", "/r"), None);
    assert_eq!(strip_root_exec("/r/a", "/r/"), Some("a".to_string()));
}

#[test]
fn a_recorded_copy_is_already_present_afterwards() {
    let mut db = catalog();
    let mut source = image(0, "NEW.jpg", "/sd/DCIM/NEW.jpg", 300);
    source.blake3_hash = Some("h9".to_string());
    let before = decided(classify(&db, &source, false));
    assert_eq!(before, "New");
    let cand = CopyCandidate {
        source: source.duplicate(),
        destination_path: "/d/2015/05/15/NEW.jpg".to_string(),
        status: DuplicateStatus::New,
    };
    let now = Timestamp::from_unix(1_700_000_000, 0).unwrap();
    record_copy(&mut db, &cand, "/d/2015/05/15/NEW.jpg", 1, 300, now).unwrap();
    assert_eq!(decided(classify(&db, &source, false)), "AlreadyExists(/d/2015/05/15/NEW.jpg)");
    assert_eq!(decided(classify(&db, &source, true)), "NeedsHash");
    let status = classify_hashed(&db, &mut source, "h9".to_string());
    assert_eq!(status_name(&status), "AlreadyExists(/d/2015/05/15/NEW.jpg)");
}

#[test]
fn relative_paths_follow_path_components() {
    assert_eq!(strip_root_exec("/mnt/d/./x", "/mnt/d"), Some("x".to_string()));
    assert_eq!(strip_root_exec("/mnt//d/x", "/mnt/d"), Some("x".to_string()));
    assert_eq!(strip_root_exec("/mnt/d/x", "/mnt//d/"), Some("x".to_string()));
    assert_eq!(strip_root_exec("/mnt/d/x/", "/mnt/d"), Some("x".to_string()));
    assert_eq!(strip_root_exec("/mnt/d/a/./b", "/mnt/d"), Some("a/./b".to_string()));
    assert_eq!(strip_root_exec("/mnt/d", "/mnt/d"), Some("".to_string()));
    assert_eq!(strip_root_exec("/mnt/dx/a", "/mnt/d"), None);
    assert_eq!(strip_root_exec("mnt/d/a", "/mnt/d"), None);
    assert_eq!(strip_root_exec("./a/b", "."), Some("a/b".to_string()));
    assert_eq!(strip_root_exec("./a/b", "a"), None);
    assert_eq!(strip_root_exec("a/b", ""), Some("a/b".to_string()));
    assert_eq!(strip_root_exec("/a/", ""), Some("/a".to_string()));
}
