use local_image_db::dates::Timestamp;
use local_image_db::db::Database;
use local_image_db::models::ImageRecord;
use local_image_db::screens::{
    add_drive_lines, check_copy_field_lines, home_lines, mode_line, scan_field_lines, status_line, tabs_title,
};
use local_image_db::tui::{load_stats, App, AppEvent, AppScreen, CheckCopyMode, KeyCode, KeyInput, TaskKind, TaskRequest, MOD_NONE};

fn key(c: char) -> AppEvent {
    AppEvent::Key(KeyInput { code: KeyCode::Char(c), modifiers: MOD_NONE })
}

#[test]
fn start_fills_fields_and_asks_for_statistics() {
    let (app, req) = App::start(Some("/sd".to_string()), Some("/drive".to_string()));
    assert!(matches!(req, TaskRequest::LoadStats));
    assert!(app.home.loading);
    assert_eq!(app.check_copy.sd_input, "/sd");
    assert_eq!(app.check_copy.drive_input, "/drive");
    assert_eq!(app.scan.path_input, "/drive");
    assert_eq!((app.scan.input_cursor, app.check_copy.sd_cursor), (0, 0));
    let (app, _) = App::start(None, None);
    assert_eq!(app.check_copy.sd_input, "");
    assert_eq!(app.scan.path_input, "");
}

#[test]
fn statistics_of_the_catalog() {
    let mut db = Database::new();
    let d = db.upsert_drive("D", "/d").unwrap();
    for (i, name) in ["a.jpg", "b.jpg"].iter().enumerate() {
        db.upsert_image(&ImageRecord {
            id: None,
            drive_id: d,
            filename: name.to_string(),
            relative_path: name.to_string(),
            absolute_path: format!("/d/{name}"),
            file_size: 1 + i as u64,
            capture_date: None,
            file_mtime: Timestamp::from_unix(0, 0).unwrap(),
            blake3_hash: None,
        })
        .unwrap();
    }
    db.update_hash("/d/a.jpg", "aa").unwrap();
    match load_stats(&db) {
        AppEvent::StatsLoaded { image_count, drive_count, unhashed_count } => {
            assert_eq!((image_count, drive_count, unhashed_count), (2, 1, 1));
        }
        other => panic!("unexpected {other:?}"),
    }
}

#[test]
fn a_quit_key_typed_into_a_field_does_not_quit() {
    let mut app = App::new();
    app.handle_event(key('2'));
    assert_eq!(app.screen, AppScreen::Scan);
    app.handle_event(key('q'));
    assert!(!app.should_quit);
    // The key that switched to the scan screen was typed into its path field
    // too, as the screen takes every character.
    assert_eq!(app.scan.path_input, "2q");
    app.handle_event(key('1'));
    assert_eq!(app.screen, AppScreen::Home);
    assert!(!app.should_quit);
    app.handle_event(key('q'));
    assert!(app.should_quit);
    app.handle_event(AppEvent::TaskDone { task: TaskKind::Scan, error: None });
    assert!(app.should_quit);
}

#[test]
fn field_and_home_lines() {
    let (mut app, _) = App::start(Some("/sd".to_string()), Some("/d".to_string()));
    let (a, b) = check_copy_field_lines(&app.check_copy);
    assert_eq!((a.as_str(), b.as_str()), ("  SD Path:    [/sd]", "  Drive Path: [/d]"));
    let (a, b) = scan_field_lines(&app.scan);
    assert_eq!((a.as_str(), b.as_str()), ("  Path:  [/d]", "  Label: []"));
    assert_eq!(mode_line(CheckCopyMode::Copy), "   Mode: Copy    ");
    let (a, b, c) = add_drive_lines(&app.drives);
    assert_eq!((a.as_str(), b.as_str(), c.as_str()), ("  Path:  []", "  Label: []", "  [Enter] Save   [Esc] Cancel"));
    assert_eq!(
        home_lines(&app.home),
        vec!["  Images indexed:   0 (loading…)", "  Drives known:     0", "  Missing hashes:   0", "  [r] Refresh stats"]
    );
    assert_eq!(status_line(&app), "Ready  [1-4] Switch tab  [q] Quit");
    assert_eq!(tabs_title(&app), " local_image_db ");
    app.active_task = Some(TaskKind::Scan);
    app.status_message = Some("Error: x".to_string());
    assert_eq!(tabs_title(&app), " local_image_db ⠋ ");
    assert_eq!(status_line(&app), "Error: x");
}
