use local_image_db::dates::Timestamp;
use local_image_db::models::{CopyCandidate, DriveRecord, DuplicateStatus, ImageRecord};
use local_image_db::screens::{
    candidate_lines, candidates_title, check_copy_hint, drive_lines, drives_title, hash_box, mode_label,
    progress_label, rehash_box, scan_hint, scanned_label,
};
use local_image_db::tui::{App, CheckCopyMode};

fn candidate(name: &str, status: DuplicateStatus) -> CopyCandidate {
    CopyCandidate {
        source: ImageRecord {
            id: None,
            drive_id: 0,
            filename: name.to_string(),
            relative_path: name.to_string(),
            absolute_path: format!("/sd/{name}"),
            file_size: 1,
            capture_date: None,
            file_mtime: Timestamp::from_unix(0, 0).unwrap(),
            blake3_hash: None,
        },
        destination_path: format!("/d/{name}"),
        status,
    }
}

#[test]
fn check_copy_screen_text() {
    let mut app = App::new();
    assert_eq!(hash_box(&app.check_copy), "[ ] Hash dedup");
    assert_eq!(check_copy_hint(&app.check_copy), "[c] Check  [x] Copy  [Tab] Next field  [h] Toggle hash");
    app.check_copy.use_hash = true;
    app.check_copy.loading = true;
    assert_eq!(hash_box(&app.check_copy), "[x] Hash dedup");
    assert_eq!(check_copy_hint(&app.check_copy), "Loading candidates…");
    app.check_copy.running = true;
    assert_eq!(check_copy_hint(&app.check_copy), "Running…");
    assert_eq!(mode_label(CheckCopyMode::Check), "Check");
    assert_eq!(mode_label(CheckCopyMode::Copy), "Copy ");

    app.check_copy.to_copy = vec![
        candidate("a.jpg", DuplicateStatus::New),
        candidate("b.jpg", DuplicateStatus::SizeConflict),
        candidate("c.jpg", DuplicateStatus::HashConflict),
    ];
    app.check_copy.already = vec![candidate("d.jpg", DuplicateStatus::AlreadyExists { existing_path: "/x".into() })];
    assert_eq!(candidates_title(&app.check_copy), " Candidates: 3 to copy, 1 already on drive ");
    app.check_copy.table_offset = 1;
    app.check_copy.selected_row = 2;
    let lines = candidate_lines(&app.check_copy, 5);
    assert_eq!(lines.len(), 2);
    assert_eq!(lines[0].cells, vec!["b.jpg", "SizeConflict", "/d/b.jpg"]);
    assert!(!lines[0].selected);
    assert_eq!(lines[1].cells, vec!["c.jpg", "HashConflict", "/d/c.jpg"]);
    assert!(lines[1].selected);
    assert_eq!(candidate_lines(&app.check_copy, 1).len(), 1);
}

#[test]
fn scan_and_drives_screen_text() {
    let mut app = App::new();
    assert_eq!(rehash_box(&app.scan), "[ ] Force rehash");
    assert_eq!(scan_hint(&app.scan), "[Enter] Start Scan  [Tab] Next field  [Space] Toggle rehash");
    app.scan.running = true;
    assert_eq!(scan_hint(&app.scan), "Running…");

    assert_eq!(drives_title(&app.drives), " Drives [a] Add  [d] Remove  [r] Refresh  [↑↓] Navigate ");
    app.drives.loading = true;
    assert_eq!(drives_title(&app.drives), " Drives (loading…) [a] Add  [d] Remove  [r] Refresh  [↑↓] Navigate ");
    app.drives.drives = vec![
        DriveRecord { id: 1, label: "A".into(), root_path: "/a".into(), last_scanned_at: Timestamp::from_unix(1_725_029_869, 0) },
        DriveRecord { id: 2, label: "B".into(), root_path: "/b".into(), last_scanned_at: None },
    ];
    app.drives.selected_row = 1;
    let lines = drive_lines(&app.drives, 10);
    assert_eq!(lines.len(), 2);
    assert_eq!(lines[0].cells, vec!["1", "A", "/a", "2024-08-30 14:57"]);
    assert_eq!(lines[1].cells, vec!["2", "B", "/b", "never"]);
    assert!(lines[1].selected && !lines[0].selected);
    assert_eq!(scanned_label(&None), "never");
}

#[test]
fn progress_labels() {
    assert_eq!(progress_label(3, 10, "a.jpg", None), "3/10  a.jpg");
    assert_eq!(progress_label(0, 0, "", None), "Idle");
    assert_eq!(progress_label(3, 10, "a.jpg", Some("Done. 3 files processed.")), "Done. 3 files processed.");
}
