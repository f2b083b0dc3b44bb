use local_image_db::dates::Timestamp;
use local_image_db::editing::{backspace_input, insert_char};
use local_image_db::models::DriveRecord;
use local_image_db::progress::ProgressMsg;
use local_image_db::tui::{
    handle_check_copy_key, handle_drives_key, handle_scan_key, is_quit, push_log, App, AppEvent, AppScreen,
    KeyCode, KeyInput, TaskKind, TaskRequest, MOD_CONTROL, MOD_NONE, MOD_SHIFT,
};

fn key(code: KeyCode) -> KeyInput {
    KeyInput { code, modifiers: MOD_NONE }
}

#[test]
fn insert_and_backspace_respect_utf8() {
    let mut buf = "héllo".to_string();
    let mut cursor = 3; // after "hé"
    insert_char(&mut buf, &mut cursor, 'x');
    assert_eq!(buf, "héxllo");
    assert_eq!(cursor, 4);
    backspace_input(&mut buf, &mut cursor);
    assert_eq!(buf, "héllo");
    assert_eq!(cursor, 3);
    backspace_input(&mut buf, &mut cursor);
    assert_eq!(buf, "hllo");
    assert_eq!(cursor, 1);
    let mut c0 = 0;
    backspace_input(&mut buf, &mut c0);
    assert_eq!(buf, "hllo");
    assert_eq!(c0, 0);
    let mut end = 4;
    insert_char(&mut buf, &mut end, '€');
    assert_eq!(buf, "hllo€");
    assert_eq!(end, 7);
}

#[test]
fn log_is_capped_at_200() {
    let mut log = Vec::new();
    for i in 0..201 {
        push_log(&mut log, format!("{i}"));
    }
    assert_eq!(log.len(), 200);
    assert_eq!(log[0], "1");
    assert_eq!(log[199], "200");
}

#[test]
fn quit_keys() {
    assert!(is_quit(&key(KeyCode::Char('q'))));
    assert!(is_quit(&KeyInput { code: KeyCode::Char('c'), modifiers: MOD_CONTROL }));
    assert!(!is_quit(&KeyInput { code: KeyCode::Char('q'), modifiers: MOD_SHIFT }));
    assert!(!is_quit(&key(KeyCode::Char('c'))));
}

#[test]
fn switching_to_scan_types_the_key_too() {
    let mut app = App::new();
    let (first, second) = app.handle_event(AppEvent::Key(key(KeyCode::Char('2'))));
    assert!(first.is_none() && second.is_none());
    assert_eq!(app.screen, AppScreen::Scan);
    assert_eq!(app.scan.path_input, "2");
    assert_eq!(app.scan.input_cursor, 1);
}

#[test]
fn home_switch_reloads_stats_once() {
    let mut app = App::new();
    app.screen = AppScreen::Drives;
    let (first, _) = app.handle_event(AppEvent::Key(key(KeyCode::F(1))));
    assert!(matches!(first, Some(TaskRequest::LoadStats)));
    assert!(app.home.loading);
    let (first, _) = app.handle_event(AppEvent::Key(key(KeyCode::F(1))));
    assert!(first.is_none());
}

#[test]
fn q_quits_only_outside_text_fields() {
    let mut app = App::new();
    app.handle_event(AppEvent::Key(key(KeyCode::Char('q'))));
    assert!(app.should_quit);
    let mut app = App::new();
    app.screen = AppScreen::Scan;
    app.handle_event(AppEvent::Key(key(KeyCode::Char('q'))));
    assert!(!app.should_quit);
    assert_eq!(app.scan.path_input, "q");
}

#[test]
fn scan_enter_needs_a_path_then_starts() {
    let mut app = App::new();
    app.screen = AppScreen::Scan;
    assert!(handle_scan_key(&mut app, key(KeyCode::Enter)).is_none());
    assert_eq!(app.status_message.as_deref(), Some("Path is required."));
    app.scan.path_input = "/mnt/d".to_string();
    app.scan.input_cursor = 6;
    handle_scan_key(&mut app, key(KeyCode::Char(' ')));
    assert!(app.scan.force_rehash);
    match handle_scan_key(&mut app, key(KeyCode::Enter)) {
        Some(TaskRequest::Scan { path, label, force_rehash }) => {
            assert_eq!(path, "/mnt/d");
            assert_eq!(label, None);
            assert!(force_rehash);
        }
        other => panic!("unexpected {other:?}"),
    }
    assert!(app.scan.running);
    assert_eq!(app.active_task, Some(TaskKind::Scan));
    app.handle_progress(ProgressMsg::Finished { processed: 5, errors: 0 });
    assert_eq!(app.scan.result.as_deref(), Some("Indexed 5 images."));
    app.task_done(TaskKind::Scan, Some("boom".to_string()));
    assert!(!app.scan.running);
    assert_eq!(app.active_task, None);
    assert_eq!(app.status_message.as_deref(), Some("Error: boom"));
}

#[test]
fn check_copy_keys() {
    let mut app = App::new();
    app.screen = AppScreen::CheckCopy;
    handle_check_copy_key(&mut app, key(KeyCode::Char('/')));
    handle_check_copy_key(&mut app, key(KeyCode::Tab));
    handle_check_copy_key(&mut app, key(KeyCode::Char('d')));
    handle_check_copy_key(&mut app, key(KeyCode::Char('h')));
    assert!(app.check_copy.use_hash);
    assert_eq!(app.check_copy.sd_input, "/");
    assert_eq!(app.check_copy.drive_input, "d");
    match handle_check_copy_key(&mut app, key(KeyCode::Char('c'))) {
        Some(TaskRequest::LoadCandidates { sd_path, drive_path, use_hash }) => {
            assert_eq!((sd_path.as_str(), drive_path.as_str(), use_hash), ("/", "d", true));
        }
        other => panic!("unexpected {other:?}"),
    }
    assert!(app.check_copy.loading);
    assert!(handle_check_copy_key(&mut app, key(KeyCode::Char('x'))).is_none());
    app.handle_progress(ProgressMsg::Tick { current: 3, total: 0, detail: Some("a.jpg".to_string()) });
    assert_eq!(app.check_copy.progress_current, 3);
    assert_eq!(app.check_copy.progress_total, 0);
    assert_eq!(app.check_copy.progress_detail, "a.jpg");
}

#[test]
fn drives_keys() {
    let mut app = App::new();
    app.screen = AppScreen::Drives;
    app.drives.drives = vec![DriveRecord {
        id: 1,
        label: "A".to_string(),
        root_path: "/a".to_string(),
        last_scanned_at: Timestamp::from_unix(0, 0),
    }];
    match handle_drives_key(&mut app, key(KeyCode::Delete)) {
        Some(TaskRequest::RemoveDrive { root_path }) => assert_eq!(root_path, "/a"),
        other => panic!("unexpected {other:?}"),
    }
    assert_eq!(app.active_task, Some(TaskKind::RemoveDrive));
    let (first, _) = app.handle_event(AppEvent::TaskDone { task: TaskKind::RemoveDrive, error: None });
    assert!(matches!(first, Some(TaskRequest::LoadDrives)));
    assert!(app.drives.loading);
    assert_eq!(app.active_task, None);
    handle_drives_key(&mut app, key(KeyCode::Char('a')));
    assert!(app.drives.add_open);
    for c in "/Volumes/Card".chars() {
        handle_drives_key(&mut app, key(KeyCode::Char(c)));
    }
    match handle_drives_key(&mut app, key(KeyCode::Enter)) {
        Some(TaskRequest::AddDrive { path, label }) => {
            assert_eq!(path, "/Volumes/Card");
            assert_eq!(label, "Card");
        }
        other => panic!("unexpected {other:?}"),
    }
    assert!(!app.drives.add_open);
    assert_eq!(app.drives.add_path, "");
}

#[test]
fn loaded_data_lands_on_screens() {
    let mut app = App::new();
    app.handle_event(AppEvent::StatsLoaded { image_count: 3, drive_count: 1, unhashed_count: 2 });
    assert_eq!((app.home.image_count, app.home.drive_count, app.home.unhashed_count), (3, 1, 2));
    app.active_task = Some(TaskKind::Hash);
    app.handle_event(AppEvent::Progress(ProgressMsg::Finished { processed: 4, errors: 1 }));
    assert_eq!(app.scan.result.as_deref(), Some("Hashed 4 files. Errors: 1."));
    app.active_task = None;
    app.handle_event(AppEvent::Progress(ProgressMsg::Failed { error: "x".to_string() }));
    assert_eq!(app.scan.result.as_deref(), Some("Hashed 4 files. Errors: 1."));
}
