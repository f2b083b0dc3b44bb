use local_image_db::config::{default_config_path, Config, DbConfig, ScanConfig};
use local_image_db::dates::Timestamp;
use local_image_db::db::Database;
use local_image_db::drives::{default_drive_label, ensure_drive_indexed, scan_label};
use local_image_db::hasher::{hash_summary, hash_targets, hash_tick, no_drive_message, record_hash_result, HashTally, HashTargets};
use local_image_db::models::ImageRecord;
use local_image_db::progress::ProgressMsg;

#[test]
fn defaults() {
    let s = ScanConfig::default();
    assert_eq!(s.extensions.len(), 12);
    assert_eq!(s.extensions[0], "jpg");
    assert_eq!(s.min_file_size, 102_400);
    let c = Config::with_data_dir(Some("/home/u/.local/share/local_image_db"));
    assert_eq!(c.db.path, "/home/u/.local/share/local_image_db/images.db");
    assert_eq!(c.copy.path_template, "{year}/{month}/{day}");
    assert_eq!(DbConfig::in_data_dir(None).path, "images.db");
    assert_eq!(default_config_path(Some("/etc/x")), "/etc/x/config.toml");
}

#[test]
fn cli_paths_override_config() {
    let mut c = Config::with_data_dir(None);
    c.sd_path = Some("/Volumes/SD".to_string());
    assert_eq!(c.effective_sd_path(None), Some("/Volumes/SD".to_string()));
    assert_eq!(c.effective_sd_path(Some("/x".to_string())), Some("/x".to_string()));
    assert_eq!(c.effective_drive_path(None), None);
}

#[test]
fn drives_get_default_labels() {
    assert_eq!(default_drive_label("/Volumes/MyDrive"), "MyDrive");
    assert_eq!(default_drive_label("/"), "");
    assert_eq!(scan_label(Some("L".to_string()), "/x/y"), "L");
    let mut db = Database::open_in_memory().unwrap();
    let id = ensure_drive_indexed(&mut db, "/Volumes/MyDrive").unwrap();
    assert_eq!(db.find_drive_by_path("/Volumes/MyDrive").unwrap().unwrap().label, "MyDrive");
    assert_eq!(ensure_drive_indexed(&mut db, "/Volumes/MyDrive").unwrap(), id);
    assert_eq!(db.list_drives().unwrap().len(), 1);
}

#[test]
fn hash_command_steps() {
    let mut db = Database::open_in_memory().unwrap();
    let d = db.upsert_drive("D", "/d").unwrap();
    let img = ImageRecord {
        id: None,
        drive_id: d,
        filename: "a.jpg".to_string(),
        relative_path: "a.jpg".to_string(),
        absolute_path: "/d/a.jpg".to_string(),
        file_size: 1,
        capture_date: None,
        file_mtime: Timestamp::from_unix(0, 0).unwrap(),
        blake3_hash: None,
    };
    db.upsert_image(&img).unwrap();
    assert!(matches!(hash_targets(&db, Some("/nope"), true), HashTargets::UnknownDrive));
    let targets = match hash_targets(&db, Some("/d"), true) {
        HashTargets::Targets(t) => t,
        HashTargets::UnknownDrive => panic!("drive exists"),
    };
    assert_eq!(targets, vec![(1, "/d/a.jpg".to_string())]);
    let mut tally = HashTally { hashed: 0, errors: 0 };
    let w = record_hash_result(&mut db, &mut tally, "/d/a.jpg", Err("denied".to_string())).unwrap();
    assert_eq!(w.as_deref(), Some("/d/a.jpg: denied"));
    assert_eq!(tally, HashTally { hashed: 0, errors: 1 });
    assert_eq!(record_hash_result(&mut db, &mut tally, "/d/a.jpg", Ok("beef".to_string())).unwrap(), None);
    assert_eq!(tally, HashTally { hashed: 1, errors: 1 });
    assert_eq!(db.find_by_hash("beef").unwrap(), Some("/d/a.jpg".to_string()));
    match hash_targets(&db, None, true) {
        HashTargets::Targets(t) => assert!(t.is_empty()),
        HashTargets::UnknownDrive => panic!("no drive given"),
    }
    // Without `missing_only`, images that already have a hash are hashed again.
    match hash_targets(&db, None, false) {
        HashTargets::Targets(t) => assert_eq!(t, vec![(1, "/d/a.jpg".to_string())]),
        HashTargets::UnknownDrive => panic!("no drive given"),
    }
    match hash_targets(&db, Some("/d"), false) {
        HashTargets::Targets(t) => assert_eq!(t.len(), 1),
        HashTargets::UnknownDrive => panic!("drive exists"),
    }
    assert_eq!(hash_summary(1, 1), "Hashed 1 files. Errors: 1.");
    assert_eq!(no_drive_message("/x"), "No drive found at /x — run `scan` first.");
    match hash_tick(0, 3, "/d/a.jpg") {
        ProgressMsg::Tick { current, total, detail } => {
            assert_eq!((current, total, detail.as_deref()), (1, 3, Some("a.jpg")));
        }
        other => panic!("unexpected {other:?}"),
    }
}
