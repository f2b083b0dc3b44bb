//! The state of the terminal interface and how keys, progress and finished
//! tasks change it. Drawing the screens, reading the keyboard and running
//! the background tasks is left to the program around it: each change here
//! says which tasks it wants started.
use vstd::prelude::*;
use crate::editing::{backspace_input, backspaced, insert_char, inserted, is_boundary, utf8_width};
use crate::hasher::{hash_summary, summary_text};
use crate::models::{candidate_views, duplicate_candidates, CopyCandidate, DriveRecord};
use crate::paths;
use crate::paths::opt_view;
use crate::progress::ProgressMsg;
use crate::db::{missing_hash, Database};
use crate::text;
use crate::text::{push_decimal, push_str};

verus! {

/// Screen identifier.
#[derive(Clone, Copy, Debug, PartialEq, Eq, Structural)]
pub enum AppScreen {
    Home,
    Scan,
    CheckCopy,
    Drives,
}

impl Default for AppScreen {
    fn default() -> (res: AppScreen)
        ensures
            res == AppScreen::Home,
    {
        AppScreen::Home
    }
}

/// The background tasks.
#[derive(Clone, Copy, Debug, PartialEq, Eq, Structural)]
pub enum TaskKind {
    Scan,
    Copy,
    LoadCandidates,
    Hash,
    LoadDrives,
    LoadStats,
    RemoveDrive,
    AddDrive,
}

/// The database statistics screen.
#[derive(Debug)]
pub struct HomeState {
    pub image_count: u64,
    pub drive_count: u64,
    pub unhashed_count: u64,
    pub loading: bool,
}

impl Default for HomeState {
    fn default() -> (res: HomeState)
        ensures
            res == (HomeState { image_count: 0, drive_count: 0, unhashed_count: 0, loading: false }),
    {
        HomeState { image_count: 0, drive_count: 0, unhashed_count: 0, loading: false }
    }
}

/// The scan screen.
#[derive(Debug)]
pub struct ScanState {
    pub path_input: String,
    pub input_cursor: usize,
    pub label_input: String,
    pub label_cursor: usize,
    /// 0 = path field, 1 = label field
    pub focused_field: usize,
    pub force_rehash: bool,
    pub running: bool,
    pub progress_current: u64,
    pub progress_total: u64,
    pub progress_detail: String,
    /// Capped at 200 lines
    pub log: Vec<String>,
    pub result: Option<String>,
}

impl Default for ScanState {
    fn default() -> (res: ScanState)
        ensures
            res.path_input@.len() == 0,
            res.input_cursor == 0,
            res.label_input@.len() == 0,
            res.label_cursor == 0,
            res.focused_field == 0,
            !res.force_rehash,
            !res.running,
            res.progress_current == 0,
            res.progress_total == 0,
            res.progress_detail@.len() == 0,
            res.log@.len() == 0,
            res.result is None,
    {
        ScanState {
            path_input: String::new(),
            input_cursor: 0,
            label_input: String::new(),
            label_cursor: 0,
            focused_field: 0,
            force_rehash: false,
            running: false,
            progress_current: 0,
            progress_total: 0,
            progress_detail: String::new(),
            log: Vec::new(),
            result: None,
        }
    }
}

/// Whether the check/copy screen last checked or copied.
#[derive(Clone, Copy, Debug, PartialEq, Eq, Structural)]
pub enum CheckCopyMode {
    Check,
    Copy,
}

impl Default for CheckCopyMode {
    fn default() -> (res: CheckCopyMode)
        ensures
            res == CheckCopyMode::Check,
    {
        CheckCopyMode::Check
    }
}

/// The check/copy screen.
#[derive(Debug)]
pub struct CheckCopyState {
    pub sd_input: String,
    pub sd_cursor: usize,
    pub drive_input: String,
    pub drive_cursor: usize,
    /// 0 = sd field, 1 = drive field
    pub focused_field: usize,
    pub use_hash: bool,
    pub mode: CheckCopyMode,
    pub to_copy: Vec<CopyCandidate>,
    pub already: Vec<CopyCandidate>,
    pub table_offset: usize,
    pub selected_row: usize,
    pub loading: bool,
    pub running: bool,
    pub progress_current: u64,
    pub progress_total: u64,
    pub progress_detail: String,
    pub log: Vec<String>,
    pub result: Option<String>,
}

impl Default for CheckCopyState {
    fn default() -> (res: CheckCopyState)
        ensures
            res.sd_input@.len() == 0,
            res.sd_cursor == 0,
            res.drive_input@.len() == 0,
            res.drive_cursor == 0,
            res.focused_field == 0,
            !res.use_hash,
            res.mode == CheckCopyMode::Check,
            res.to_copy@.len() == 0,
            res.already@.len() == 0,
            res.table_offset == 0,
            res.selected_row == 0,
            !res.loading,
            !res.running,
            res.progress_current == 0,
            res.progress_total == 0,
            res.progress_detail@.len() == 0,
            res.log@.len() == 0,
            res.result is None,
    {
        CheckCopyState {
            sd_input: String::new(),
            sd_cursor: 0,
            drive_input: String::new(),
            drive_cursor: 0,
            focused_field: 0,
            use_hash: false,
            mode: CheckCopyMode::Check,
            to_copy: Vec::new(),
            already: Vec::new(),
            table_offset: 0,
            selected_row: 0,
            loading: false,
            running: false,
            progress_current: 0,
            progress_total: 0,
            progress_detail: String::new(),
            log: Vec::new(),
            result: None,
        }
    }
}

/// The drives screen.
#[derive(Debug)]
pub struct DrivesState {
    pub drives: Vec<DriveRecord>,
    pub selected_row: usize,
    pub loading: bool,
    pub add_open: bool,
    pub add_path: String,
    pub add_path_cursor: usize,
    pub add_label: String,
    pub add_label_cursor: usize,
    pub add_focused: usize,
}

impl Default for DrivesState {
    fn default() -> (res: DrivesState)
        ensures
            res.drives@.len() == 0,
            res.selected_row == 0,
            !res.loading,
            !res.add_open,
            res.add_path@.len() == 0,
            res.add_path_cursor == 0,
            res.add_label@.len() == 0,
            res.add_label_cursor == 0,
            res.add_focused == 0,
    {
        DrivesState {
            drives: Vec::new(),
            selected_row: 0,
            loading: false,
            add_open: false,
            add_path: String::new(),
            add_path_cursor: 0,
            add_label: String::new(),
            add_label_cursor: 0,
            add_focused: 0,
        }
    }
}

impl ScanState {
    /// Whether this is the scan screen as the interface starts: empty fields,
    /// nothing running, no progress, log or result.
    pub open spec fn is_initial(self) -> bool {
        &&& self.path_input@.len() == 0
        &&& self.is_fresh()
    }

    /// Whether this is the scan screen as the interface starts, whatever its
    /// path field holds.
    pub open spec fn is_fresh(self) -> bool {
        &&& self.input_cursor == 0
        &&& self.label_input@.len() == 0
        &&& self.label_cursor == 0
        &&& self.focused_field == 0
        &&& !self.force_rehash
        &&& !self.running
        &&& self.progress_current == 0
        &&& self.progress_total == 0
        &&& self.progress_detail@.len() == 0
        &&& self.log@.len() == 0
        &&& self.result is None
    }
}

impl CheckCopyState {
    /// Whether this is the check/copy screen as the interface starts: empty
    /// fields, no candidates, nothing loading or running, no progress, log or
    /// result.
    pub open spec fn is_initial(self) -> bool {
        &&& self.sd_input@.len() == 0
        &&& self.drive_input@.len() == 0
        &&& self.is_fresh()
    }

    /// Whether this is the check/copy screen as the interface starts,
    /// whatever its card and drive fields hold.
    pub open spec fn is_fresh(self) -> bool {
        &&& self.sd_cursor == 0
        &&& self.drive_cursor == 0
        &&& self.focused_field == 0
        &&& !self.use_hash
        &&& self.mode == CheckCopyMode::Check
        &&& self.to_copy@.len() == 0
        &&& self.already@.len() == 0
        &&& self.table_offset == 0
        &&& self.selected_row == 0
        &&& !self.loading
        &&& !self.running
        &&& self.progress_current == 0
        &&& self.progress_total == 0
        &&& self.progress_detail@.len() == 0
        &&& self.log@.len() == 0
        &&& self.result is None
    }
}

impl DrivesState {
    /// Whether this is the drives screen as the interface starts: no drives
    /// listed, nothing loading, the add form closed and empty.
    pub open spec fn is_initial(self) -> bool {
        &&& self.drives@.len() == 0
        &&& self.selected_row == 0
        &&& !self.loading
        &&& !self.add_open
        &&& self.add_path@.len() == 0
        &&& self.add_path_cursor == 0
        &&& self.add_label@.len() == 0
        &&& self.add_label_cursor == 0
        &&& self.add_focused == 0
    }
}

/// The whole interface state.
#[derive(Debug)]
pub struct App {
    pub screen: AppScreen,
    pub should_quit: bool,
    pub status_message: Option<String>,
    pub active_task: Option<TaskKind>,
    pub home: HomeState,
    pub scan: ScanState,
    pub check_copy: CheckCopyState,
    pub drives: DrivesState,
}

/// The most lines a log keeps.
pub const LOG_CAPACITY: usize = 200;

/// `log` with `msg` appended, dropping its first line when it grows past
/// [`LOG_CAPACITY`].
pub open spec fn capped_log(log: Seq<String>, msg: String) -> Seq<String> {
    if log.len() + 1 > LOG_CAPACITY {
        log.push(msg).skip(1)
    } else {
        log.push(msg)
    }
}

/// Appends `msg` to `log`, keeping at most [`LOG_CAPACITY`] lines.
pub fn push_log(log: &mut Vec<String>, msg: String)
    ensures
        final(log)@ == capped_log(old(log)@, msg),
{
    log.push(msg);
    if log.len() > LOG_CAPACITY {
        log.remove(0);
        assert(final(log)@ =~= capped_log(old(log)@, msg));
    }
}

/// `"Error: {e}"`
pub open spec fn error_text(e: Seq<char>) -> Seq<char> {
    "Error: "@ + e
}

/// `"Indexed {n} images."`
pub open spec fn indexed_text(n: nat) -> Seq<char> {
    "Indexed "@ + text::decimal(n) + " images."@
}

/// `"Done. {n} files processed."`
pub open spec fn done_text(n: nat) -> Seq<char> {
    "Done. "@ + text::decimal(n) + " files processed."@
}

fn error_message(e: &str) -> (res: String)
    ensures
        res@ == error_text(e@),
{
    let mut s = String::new();
    push_str(&mut s, "Error: ");
    push_str(&mut s, e);
    s
}

fn indexed_message(n: u64) -> (res: String)
    ensures
        res@ == indexed_text(n as nat),
{
    let mut s = String::new();
    push_str(&mut s, "Indexed ");
    push_decimal(&mut s, n);
    push_str(&mut s, " images.");
    s
}

fn done_message(n: u64) -> (res: String)
    ensures
        res@ == done_text(n as nat),
{
    let mut s = String::new();
    push_str(&mut s, "Done. ");
    push_decimal(&mut s, n);
    push_str(&mut s, " files processed.");
    s
}

/// How the scan screen takes in a progress message of a scan (`hash` false)
/// or of a hash run (`hash` true).
pub open spec fn scan_progress(o: ScanState, n: ScanState, msg: ProgressMsg, hash: bool) -> bool {
    match msg {
        ProgressMsg::Started { total, .. } => n == (ScanState { progress_total: total, progress_current: 0, ..o }),
        ProgressMsg::Tick { current, total, detail } => n == (ScanState {
            progress_current: current,
            progress_total: total,
            progress_detail: match detail {
                Some(d) => d,
                None => o.progress_detail,
            },
            ..o
        }),
        ProgressMsg::Warning { message } => n.log@ == capped_log(o.log@, message) && n == (ScanState { log: n.log, ..o }),
        ProgressMsg::Finished { processed, errors } => n == (ScanState { result: n.result, ..o }) && (n.result matches Some(r)
            && r@ == if hash {
            summary_text(processed as nat, errors as nat)
        } else {
            indexed_text(processed as nat)
        }),
        ProgressMsg::Failed { error } => n == (ScanState { result: n.result, ..o }) && (n.result matches Some(r) && r@
            == error_text(error@)),
    }
}

/// How the check/copy screen takes in a progress message.
pub open spec fn check_copy_progress(o: CheckCopyState, n: CheckCopyState, msg: ProgressMsg) -> bool {
    match msg {
        ProgressMsg::Started { total, .. } => n == (CheckCopyState { progress_total: total, progress_current: 0, ..o }),
        ProgressMsg::Tick { current, total, detail } => n == (CheckCopyState {
            progress_current: current,
            progress_total: if total > 0 {
                total
            } else {
                o.progress_total
            },
            progress_detail: match detail {
                Some(d) => d,
                None => o.progress_detail,
            },
            ..o
        }),
        ProgressMsg::Warning { message } => n.log@ == capped_log(o.log@, message) && n == (CheckCopyState { log: n.log, ..o }),
        ProgressMsg::Finished { processed, .. } => n == (CheckCopyState { result: n.result, ..o }) && (n.result matches Some(r)
            && r@ == done_text(processed as nat)),
        ProgressMsg::Failed { error } => n == (CheckCopyState { result: n.result, ..o }) && (n.result matches Some(r) && r@
            == error_text(error@)),
    }
}

fn scan_take_progress(s: &mut ScanState, msg: ProgressMsg, hash: bool)
    ensures
        scan_progress(*old(s), *final(s), msg, hash),
{
    match msg {
        ProgressMsg::Started { total, .. } => {
            s.progress_total = total;
            s.progress_current = 0;
        },
        ProgressMsg::Tick { current, total, detail } => {
            s.progress_current = current;
            s.progress_total = total;
            match detail {
                Some(d) => {
                    s.progress_detail = d;
                },
                None => {},
            }
        },
        ProgressMsg::Warning { message } => push_log(&mut s.log, message),
        ProgressMsg::Finished { processed, errors } => {
            if hash {
                s.result = Some(hash_summary(processed, errors));
            } else {
                s.result = Some(indexed_message(processed));
            }
        },
        ProgressMsg::Failed { error } => {
            s.result = Some(error_message(error.as_str()));
        },
    }
}

fn check_copy_take_progress(s: &mut CheckCopyState, msg: ProgressMsg)
    ensures
        check_copy_progress(*old(s), *final(s), msg),
{
    match msg {
        ProgressMsg::Started { total, .. } => {
            s.progress_total = total;
            s.progress_current = 0;
        },
        ProgressMsg::Tick { current, total, detail } => {
            s.progress_current = current;
            if total > 0 {
                s.progress_total = total;
            }
            match detail {
                Some(d) => {
                    s.progress_detail = d;
                },
                None => {},
            }
        },
        ProgressMsg::Warning { message } => push_log(&mut s.log, message),
        ProgressMsg::Finished { processed, .. } => {
            s.result = Some(done_message(processed));
        },
        ProgressMsg::Failed { error } => {
            s.result = Some(error_message(error.as_str()));
        },
    }
}

/// How a progress message changes the interface: it goes to the screen of
/// the active task, and is ignored when no task that reports progress runs.
pub open spec fn progress_effect(o: App, n: App, msg: ProgressMsg) -> bool {
    match o.active_task {
        Some(TaskKind::Scan) => scan_progress(o.scan, n.scan, msg, false) && n == (App { scan: n.scan, ..o }),
        Some(TaskKind::Hash) => scan_progress(o.scan, n.scan, msg, true) && n == (App { scan: n.scan, ..o }),
        Some(TaskKind::Copy) | Some(TaskKind::LoadCandidates) => check_copy_progress(o.check_copy, n.check_copy, msg)
            && n == (App { check_copy: n.check_copy, ..o }),
        _ => n == o,
    }
}

/// How the end of a task changes the interface: no task is active, the
/// screen it ran for is no longer busy, and an error shows in the status
/// line.
pub open spec fn task_done_effect(o: App, n: App, task: TaskKind, error: Option<String>) -> bool {
    &&& n.active_task is None
    &&& match error {
        Some(e) => n.status_message matches Some(m) && m@ == error_text(e@),
        None => n.status_message == o.status_message,
    }
    &&& match task {
        TaskKind::Scan | TaskKind::Hash => n == (App {
            active_task: None,
            status_message: n.status_message,
            scan: ScanState { running: false, ..o.scan },
            ..o
        }),
        TaskKind::Copy => n == (App {
            active_task: None,
            status_message: n.status_message,
            check_copy: CheckCopyState { running: false, ..o.check_copy },
            ..o
        }),
        TaskKind::LoadCandidates => n == (App {
            active_task: None,
            status_message: n.status_message,
            check_copy: CheckCopyState { loading: false, ..o.check_copy },
            ..o
        }),
        TaskKind::LoadStats => n == (App {
            active_task: None,
            status_message: n.status_message,
            home: HomeState { loading: false, ..o.home },
            ..o
        }),
        _ => n == (App {
            active_task: None,
            status_message: n.status_message,
            drives: DrivesState { loading: false, ..o.drives },
            ..o
        }),
    }
}

impl App {
    /// The state the interface starts in.
    pub fn new() -> (res: App)
        ensures
            res.screen == AppScreen::Home,
            !res.should_quit,
            res.status_message is None,
            res.active_task is None,
            res.home == (HomeState { image_count: 0, drive_count: 0, unhashed_count: 0, loading: false }),
            res.scan.is_initial(),
            res.check_copy.is_initial(),
            res.drives.is_initial(),
    {
        App {
            screen: AppScreen::default(),
            should_quit: false,
            status_message: None,
            active_task: None,
            home: HomeState::default(),
            scan: ScanState::default(),
            check_copy: CheckCopyState::default(),
            drives: DrivesState::default(),
        }
    }

    /// The interface as the loop starts it: the card field holds the card
    /// path and the scan and drive fields hold the drive path, when the
    /// settings give them (with their cursors at the start), and the
    /// statistics are asked for and marked as loading.
    pub fn start(sd_path: Option<String>, drive_path: Option<String>) -> (res: (App, TaskRequest))
        ensures
            res.0.screen == AppScreen::Home,
            !res.0.should_quit,
            res.0.status_message is None,
            res.0.active_task is None,
            res.0.home == (HomeState { image_count: 0, drive_count: 0, unhashed_count: 0, loading: true }),
            res.0.scan.is_fresh(),
            res.0.scan.path_input@ == match drive_path {
                Some(p) => p@,
                None => Seq::<char>::empty(),
            },
            res.0.check_copy.is_fresh(),
            res.0.check_copy.sd_input@ == match sd_path {
                Some(p) => p@,
                None => Seq::<char>::empty(),
            },
            res.0.check_copy.drive_input@ == match drive_path {
                Some(p) => p@,
                None => Seq::<char>::empty(),
            },
            res.0.drives.is_initial(),
            res.1 is LoadStats,
    {
        let mut app = App::new();
        match sd_path {
            Some(p) => {
                app.check_copy.sd_input = p;
            },
            None => {},
        }
        match drive_path {
            Some(p) => {
                app.scan.path_input = p.clone();
                app.check_copy.drive_input = p;
            },
            None => {},
        }
        app.home.loading = true;
        (app, TaskRequest::LoadStats)
    }

    /// Handle a progress message from a background task.
    pub fn handle_progress(&mut self, msg: ProgressMsg)
        ensures
            progress_effect(*old(self), *final(self), msg),
    {
        match self.active_task {
            Some(TaskKind::Scan) => scan_take_progress(&mut self.scan, msg, false),
            Some(TaskKind::Hash) => scan_take_progress(&mut self.scan, msg, true),
            Some(TaskKind::Copy) | Some(TaskKind::LoadCandidates) => check_copy_take_progress(&mut self.check_copy, msg),
            _ => {},  // progress for an unknown/finished task — ignore
        }
    }

    /// Marks the active task as finished: the screen it ran for is no longer
    /// busy, and an error is shown in the status line.
    pub fn task_done(&mut self, task: TaskKind, error: Option<String>)
        ensures
            task_done_effect(*old(self), *final(self), task, error),
    {
        self.active_task = None;
        match task {
            TaskKind::Scan => self.scan.running = false,
            TaskKind::Copy => self.check_copy.running = false,
            TaskKind::LoadCandidates => self.check_copy.loading = false,
            TaskKind::LoadDrives => self.drives.loading = false,
            TaskKind::LoadStats => self.home.loading = false,
            TaskKind::Hash => self.scan.running = false,
            TaskKind::RemoveDrive | TaskKind::AddDrive => self.drives.loading = false,
        }
        match error {
            Some(e) => {
                self.status_message = Some(error_message(e.as_str()));
            },
            None => {},
        }
    }
}

/// A key, as the terminal reports it.
#[derive(Clone, Copy, Debug, PartialEq, Eq, Structural)]
pub enum KeyCode {
    Char(char),
    F(u8),
    Tab,
    Enter,
    Backspace,
    Esc,
    Up,
    Down,
    Delete,
    /// Any other key.
    Other,
}

/// A key press with its modifier keys (the bits of [`MOD_SHIFT`],
/// [`MOD_CONTROL`] and the terminal's other modifiers).
#[derive(Clone, Copy, Debug, PartialEq, Eq, Structural)]
pub struct KeyInput {
    pub code: KeyCode,
    pub modifiers: u8,
}

/// No modifier key.
pub const MOD_NONE: u8 = 0;

/// The Shift key.
pub const MOD_SHIFT: u8 = 1;

/// The Control key.
pub const MOD_CONTROL: u8 = 2;

/// Returns true if the key event represents a quit intent (q or Ctrl+C).
pub fn is_quit(key: &KeyInput) -> (res: bool)
    ensures
        res == ((key.code == KeyCode::Char('q') && key.modifiers == MOD_NONE) || (key.code
            == KeyCode::Char('c') && key.modifiers == MOD_CONTROL)),
{
    (key.code == KeyCode::Char('q') && key.modifiers == MOD_NONE) || (key.code == KeyCode::Char('c')
        && key.modifiers == MOD_CONTROL)
}

/// Whether the modifiers of a key leave it a character to type.
pub open spec fn typing_mods(m: u8) -> bool {
    m == MOD_NONE || m == MOD_SHIFT
}

/// A task the interface wants started.
#[derive(Debug)]
#[allow(inconsistent_fields)]
pub enum TaskRequest {
    /// Reload the database statistics.
    LoadStats,
    /// Reload the list of drives.
    LoadDrives,
    /// Scan the drive at `path`, under `label` or its default label.
    Scan { path: String, label: Option<String>, force_rehash: bool },
    /// Compare the card at `sd_path` with the drive at `drive_path`.
    LoadCandidates { sd_path: String, drive_path: String, use_hash: bool },
    /// Copy `to_copy` to the drive at `drive_root`.
    CopyPhase { to_copy: Vec<CopyCandidate>, drive_root: String },
    /// Remove the drive at `root_path` and its images.
    RemoveDrive { root_path: String },
    /// Register the drive at `path` as `label`.
    AddDrive { path: String, label: String },
}

/// Whether the focused screen takes keys as text, so that `q` is typed
/// rather than quitting.
pub open spec fn in_text_input(app: App) -> bool {
    match app.screen {
        AppScreen::Scan => !app.scan.running,
        AppScreen::CheckCopy => !app.check_copy.running,
        AppScreen::Drives => app.drives.add_open,
        AppScreen::Home => false,
    }
}

/// Whether the focused screen takes keys as text (see [`in_text_input`]).
pub fn is_in_text_input(app: &App) -> (res: bool)
    ensures
        res == in_text_input(*app),
{
    match app.screen {
        AppScreen::Scan => !app.scan.running,
        AppScreen::CheckCopy => !app.check_copy.running,
        AppScreen::Drives => app.drives.add_open,
        AppScreen::Home => false,
    }
}

/// Whether a text field holding `s` with byte cursor `c` can take `key`
/// when it types `typed`: typing needs the cursor on a character boundary,
/// deleting needs it at the start or on a boundary.
pub open spec fn field_edit_ok(s: Seq<char>, c: usize, key: KeyInput, typed: Option<char>) -> bool {
    match key.code {
        KeyCode::Backspace => c == 0 || is_boundary(s, c as int),
        _ => typed is Some ==> is_boundary(s, c as int),
    }
}

/// The text `s2` and cursor `c2` of a field after `key` (Backspace, or
/// typing `typed`) was applied to text `s` and cursor `c`.
pub open spec fn field_edited(s: Seq<char>, c: usize, s2: Seq<char>, c2: usize, key: KeyInput, typed: Option<char>) -> bool {
    match key.code {
        KeyCode::Backspace => (s2, c2 as int) == backspaced(s, c as int),
        _ => match typed {
            Some(ch) => s2 == inserted(s, c as int, ch) && c2 == c + utf8_width(ch),
            None => false,
        },
    }
}

/// `"Path is required."`
pub open spec fn path_required_text() -> Seq<char> {
    "Path is required."@
}

fn path_required() -> (res: String)
    ensures
        res@ == path_required_text(),
{
    "Path is required.".to_owned()
}

/// The character a key types into a field of the scan screen (space
/// toggles rehashing instead).
pub open spec fn scan_typed(key: KeyInput) -> Option<char> {
    match key.code {
        KeyCode::Char(c) => if c != ' ' && typing_mods(key.modifiers) {
            Some(c)
        } else {
            None
        },
        _ => None,
    }
}

/// Whether the scan screen can take `key` without failing.
pub open spec fn scan_key_ok(app: App, key: KeyInput) -> bool {
    !app.scan.running ==> {
        &&& key.code == KeyCode::Tab ==> app.scan.focused_field < usize::MAX
        &&& app.scan.focused_field == 0 ==> field_edit_ok(
            app.scan.path_input@,
            app.scan.input_cursor,
            key,
            scan_typed(key),
        )
        &&& app.scan.focused_field != 0 ==> field_edit_ok(
            app.scan.label_input@,
            app.scan.label_cursor,
            key,
            scan_typed(key),
        )
    }
}

/// How the scan screen takes `key`: Tab moves between the path and label
/// fields, space toggles rehashing, Enter starts a scan of the path (when it
/// is given and no task runs), Backspace and characters edit the focused
/// field. Nothing happens while a scan runs.
pub open spec fn scan_key_effect(o: App, n: App, key: KeyInput, req: Option<TaskRequest>) -> bool {
    if o.scan.running {
        n == o && req is None
    } else {
        match key.code {
            KeyCode::Tab => req is None && n == (App {
                scan: ScanState { focused_field: ((o.scan.focused_field + 1) % 2) as usize, ..o.scan },
                ..o
            }),
            KeyCode::Char(' ') => req is None && n == (App {
                scan: ScanState { force_rehash: !o.scan.force_rehash, ..o.scan },
                ..o
            }),
            KeyCode::Enter => if o.scan.path_input@.len() == 0 {
                req is None && n == (App { status_message: n.status_message, ..o }) && (n.status_message matches Some(
                    m,
                ) && m@ == path_required_text())
            } else if o.active_task is None {
                &&& n == (App {
                    active_task: Some(TaskKind::Scan),
                    scan: ScanState {
                        log: n.scan.log,
                        result: None,
                        progress_current: 0,
                        progress_total: 0,
                        running: true,
                        ..o.scan
                    },
                    ..o
                })
                &&& n.scan.log@.len() == 0
                &&& req matches Some(TaskRequest::Scan { path, label, force_rehash })
                &&& path@ == o.scan.path_input@
                &&& opt_view(label) == if o.scan.label_input@.len() == 0 {
                    None
                } else {
                    Some(o.scan.label_input@)
                }
                &&& force_rehash == o.scan.force_rehash
            } else {
                n == o && req is None
            },
            _ => if key.code == KeyCode::Backspace || scan_typed(key) is Some {
                &&& req is None
                &&& if o.scan.focused_field == 0 {
                    field_edited(
                        o.scan.path_input@,
                        o.scan.input_cursor,
                        n.scan.path_input@,
                        n.scan.input_cursor,
                        key,
                        scan_typed(key),
                    ) && n == (App {
                        scan: ScanState {
                            path_input: n.scan.path_input,
                            input_cursor: n.scan.input_cursor,
                            ..o.scan
                        },
                        ..o
                    })
                } else {
                    field_edited(
                        o.scan.label_input@,
                        o.scan.label_cursor,
                        n.scan.label_input@,
                        n.scan.label_cursor,
                        key,
                        scan_typed(key),
                    ) && n == (App {
                        scan: ScanState {
                            label_input: n.scan.label_input,
                            label_cursor: n.scan.label_cursor,
                            ..o.scan
                        },
                        ..o
                    })
                }
            } else {
                n == o && req is None
            },
        }
    }
}

/// Keys on the scan screen.
pub fn handle_scan_key(app: &mut App, key: KeyInput) -> (res: Option<TaskRequest>)
    requires
        scan_key_ok(*old(app), key),
    ensures
        scan_key_effect(*old(app), *final(app), key, res),
{
    if app.scan.running {
        return None;
    }
    match key.code {
        KeyCode::Tab => {
            app.scan.focused_field = (app.scan.focused_field + 1) % 2;
            None
        },
        KeyCode::Char(' ') => {
            app.scan.force_rehash = !app.scan.force_rehash;
            None
        },
        KeyCode::Enter => {
            if app.scan.path_input.as_str().is_empty() {
                app.status_message = Some(path_required());
                None
            } else if app.active_task.is_none() {
                app.scan.log = Vec::new();
                app.scan.result = None;
                app.scan.progress_current = 0;
                app.scan.progress_total = 0;
                app.scan.running = true;
                app.active_task = Some(TaskKind::Scan);
                let label = if app.scan.label_input.as_str().is_empty() {
                    None
                } else {
                    Some(app.scan.label_input.clone())
                };
                Some(
                    TaskRequest::Scan {
                        path: app.scan.path_input.clone(),
                        label,
                        force_rehash: app.scan.force_rehash,
                    },
                )
            } else {
                None
            }
        },
        KeyCode::Backspace => {
            if app.scan.focused_field == 0 {
                backspace_input(&mut app.scan.path_input, &mut app.scan.input_cursor);
            } else {
                backspace_input(&mut app.scan.label_input, &mut app.scan.label_cursor);
            }
            None
        },
        KeyCode::Char(c) => {
            if key.modifiers == MOD_NONE || key.modifiers == MOD_SHIFT {
                if app.scan.focused_field == 0 {
                    insert_char(&mut app.scan.path_input, &mut app.scan.input_cursor, c);
                } else {
                    insert_char(&mut app.scan.label_input, &mut app.scan.label_cursor, c);
                }
            }
            None
        },
        _ => None,
    }
}

/// The character a key types into a field of the check/copy screen (`h`,
/// `c` and `x` are commands there instead).
pub open spec fn check_copy_typed(key: KeyInput) -> Option<char> {
    match key.code {
        KeyCode::Char(c) => if c != 'h' && c != 'c' && c != 'x' && typing_mods(key.modifiers) {
            Some(c)
        } else {
            None
        },
        _ => None,
    }
}

/// Whether the key moves the selection in a non-empty candidate table.
pub open spec fn navigates_table(app: App, key: KeyInput) -> bool {
    app.check_copy.to_copy@.len() > 0 && (key.code == KeyCode::Down || key.code == KeyCode::Up)
}

/// Whether the check/copy screen can take `key` without failing.
pub open spec fn check_copy_key_ok(app: App, key: KeyInput) -> bool {
    (!app.check_copy.running && !navigates_table(app, key)) ==> {
        &&& key.code == KeyCode::Tab ==> app.check_copy.focused_field < usize::MAX
        &&& app.check_copy.focused_field == 0 ==> field_edit_ok(
            app.check_copy.sd_input@,
            app.check_copy.sd_cursor,
            key,
            check_copy_typed(key),
        )
        &&& app.check_copy.focused_field != 0 ==> field_edit_ok(
            app.check_copy.drive_input@,
            app.check_copy.drive_cursor,
            key,
            check_copy_typed(key),
        )
    }
}

/// How the check/copy screen takes `key`: Down and Up move the selection in
/// a non-empty candidate table; Tab moves between the card and drive fields;
/// `h` toggles hashing; `c` starts a check (when both paths are given and no
/// task runs); `x` starts copying the candidates (when there are some and no
/// task runs); Backspace and characters edit the focused field. Nothing
/// happens while copying.
pub open spec fn check_copy_key_effect(o: App, n: App, key: KeyInput, req: Option<TaskRequest>) -> bool {
    let cc = o.check_copy;
    if cc.running {
        n == o && req is None
    } else if navigates_table(o, key) {
        &&& req is None
        &&& key.code == KeyCode::Down ==> n == (App {
            check_copy: CheckCopyState {
                selected_row: if cc.selected_row < cc.to_copy@.len() - 1 {
                    (cc.selected_row + 1) as usize
                } else {
                    cc.selected_row
                },
                ..cc
            },
            ..o
        })
        &&& key.code == KeyCode::Up ==> n == (App {
            check_copy: CheckCopyState {
                selected_row: if cc.selected_row > 0 {
                    (cc.selected_row - 1) as usize
                } else {
                    cc.selected_row
                },
                ..cc
            },
            ..o
        })
    } else {
        match key.code {
            KeyCode::Tab => req is None && n == (App {
                check_copy: CheckCopyState { focused_field: ((cc.focused_field + 1) % 2) as usize, ..cc },
                ..o
            }),
            KeyCode::Char('h') => req is None && n == (App {
                check_copy: CheckCopyState { use_hash: !cc.use_hash, ..cc },
                ..o
            }),
            KeyCode::Char('c') => if o.active_task is None && cc.sd_input@.len() > 0 && cc.drive_input@.len() > 0 {
                &&& n == (App {
                    active_task: Some(TaskKind::LoadCandidates),
                    check_copy: CheckCopyState {
                        mode: CheckCopyMode::Check,
                        loading: true,
                        log: n.check_copy.log,
                        result: None,
                        ..cc
                    },
                    ..o
                })
                &&& n.check_copy.log@.len() == 0
                &&& req matches Some(TaskRequest::LoadCandidates { sd_path, drive_path, use_hash })
                &&& sd_path@ == cc.sd_input@
                &&& drive_path@ == cc.drive_input@
                &&& use_hash == cc.use_hash
            } else {
                n == o && req is None
            },
            KeyCode::Char('x') => if o.active_task is None && cc.to_copy@.len() > 0 {
                &&& n == (App {
                    active_task: Some(TaskKind::Copy),
                    check_copy: CheckCopyState { mode: CheckCopyMode::Copy, running: true, result: None, ..cc },
                    ..o
                })
                &&& req matches Some(TaskRequest::CopyPhase { to_copy, drive_root })
                &&& candidate_views(to_copy@) == candidate_views(cc.to_copy@)
                &&& drive_root@ == cc.drive_input@
            } else {
                n == o && req is None
            },
            _ => if key.code == KeyCode::Backspace || check_copy_typed(key) is Some {
                &&& req is None
                &&& if cc.focused_field == 0 {
                    field_edited(
                        cc.sd_input@,
                        cc.sd_cursor,
                        n.check_copy.sd_input@,
                        n.check_copy.sd_cursor,
                        key,
                        check_copy_typed(key),
                    ) && n == (App {
                        check_copy: CheckCopyState {
                            sd_input: n.check_copy.sd_input,
                            sd_cursor: n.check_copy.sd_cursor,
                            ..cc
                        },
                        ..o
                    })
                } else {
                    field_edited(
                        cc.drive_input@,
                        cc.drive_cursor,
                        n.check_copy.drive_input@,
                        n.check_copy.drive_cursor,
                        key,
                        check_copy_typed(key),
                    ) && n == (App {
                        check_copy: CheckCopyState {
                            drive_input: n.check_copy.drive_input,
                            drive_cursor: n.check_copy.drive_cursor,
                            ..cc
                        },
                        ..o
                    })
                }
            } else {
                n == o && req is None
            },
        }
    }
}

/// Keys on the check/copy screen.
pub fn handle_check_copy_key(app: &mut App, key: KeyInput) -> (res: Option<TaskRequest>)
    requires
        check_copy_key_ok(*old(app), key),
    ensures
        check_copy_key_effect(*old(app), *final(app), key, res),
{
    if app.check_copy.running {
        return None;
    }
    // Navigate candidate table
    if app.check_copy.to_copy.len() > 0 {
        match key.code {
            KeyCode::Down => {
                let max = app.check_copy.to_copy.len() - 1;
                if app.check_copy.selected_row < max {
                    app.check_copy.selected_row = app.check_copy.selected_row + 1;
                }
                return None;
            },
            KeyCode::Up => {
                if app.check_copy.selected_row > 0 {
                    app.check_copy.selected_row = app.check_copy.selected_row - 1;
                }
                return None;
            },
            _ => {},
        }
    }
    match key.code {
        KeyCode::Tab => {
            app.check_copy.focused_field = (app.check_copy.focused_field + 1) % 2;
            None
        },
        KeyCode::Char('h') => {
            app.check_copy.use_hash = !app.check_copy.use_hash;
            None
        },
        KeyCode::Char('c') => {
            if app.active_task.is_none() && !app.check_copy.sd_input.as_str().is_empty()
                && !app.check_copy.drive_input.as_str().is_empty() {
                app.check_copy.mode = CheckCopyMode::Check;
                app.check_copy.loading = true;
                app.check_copy.log = Vec::new();
                app.check_copy.result = None;
                app.active_task = Some(TaskKind::LoadCandidates);
                Some(
                    TaskRequest::LoadCandidates {
                        sd_path: app.check_copy.sd_input.clone(),
                        drive_path: app.check_copy.drive_input.clone(),
                        use_hash: app.check_copy.use_hash,
                    },
                )
            } else {
                None
            }
        },
        KeyCode::Char('x') => {
            if app.active_task.is_none() && app.check_copy.to_copy.len() > 0 {
                app.check_copy.mode = CheckCopyMode::Copy;
                app.check_copy.running = true;
                app.check_copy.result = None;
                app.active_task = Some(TaskKind::Copy);
                Some(
                    TaskRequest::CopyPhase {
                        to_copy: duplicate_candidates(&app.check_copy.to_copy),
                        drive_root: app.check_copy.drive_input.clone(),
                    },
                )
            } else {
                None
            }
        },
        KeyCode::Backspace => {
            if app.check_copy.focused_field == 0 {
                backspace_input(&mut app.check_copy.sd_input, &mut app.check_copy.sd_cursor);
            } else {
                backspace_input(&mut app.check_copy.drive_input, &mut app.check_copy.drive_cursor);
            }
            None
        },
        KeyCode::Char(c) => {
            if key.modifiers == MOD_NONE || key.modifiers == MOD_SHIFT {
                if app.check_copy.focused_field == 0 {
                    insert_char(&mut app.check_copy.sd_input, &mut app.check_copy.sd_cursor, c);
                } else {
                    insert_char(&mut app.check_copy.drive_input, &mut app.check_copy.drive_cursor, c);
                }
            }
            None
        },
        _ => None,
    }
}

/// The character a key types into a field of the add-drive form.
pub open spec fn form_typed(key: KeyInput) -> Option<char> {
    match key.code {
        KeyCode::Char(c) => if typing_mods(key.modifiers) {
            Some(c)
        } else {
            None
        },
        _ => None,
    }
}

/// Whether the drives screen can take `key` without failing.
pub open spec fn drives_key_ok(app: App, key: KeyInput) -> bool {
    let d = app.drives;
    if d.add_open {
        &&& key.code == KeyCode::Tab ==> d.add_focused < usize::MAX
        &&& d.add_focused == 0 ==> field_edit_ok(d.add_path@, d.add_path_cursor, key, form_typed(key))
        &&& d.add_focused != 0 ==> field_edit_ok(d.add_label@, d.add_label_cursor, key, form_typed(key))
    } else {
        key.code == KeyCode::Down ==> d.selected_row < usize::MAX
    }
}

/// How the drives screen takes `key`. With the add-drive form open: Esc
/// closes and empties it, Tab moves between its fields, Enter registers the
/// drive (named after its path when no label is given) when a path is given
/// and no task runs, Backspace and characters edit the focused field.
/// Otherwise: Down and Up move the selection, `a` opens the form, `d` or
/// Delete removes the selected drive when no task runs, `r` reloads.
pub open spec fn drives_key_effect(o: App, n: App, key: KeyInput, req: Option<TaskRequest>) -> bool {
    let d = o.drives;
    if d.add_open {
        match key.code {
            KeyCode::Esc => req is None && n == (App {
                drives: DrivesState { add_open: false, add_path: n.drives.add_path, add_label: n.drives.add_label, ..d },
                ..o
            }) && n.drives.add_path@.len() == 0 && n.drives.add_label@.len() == 0,
            KeyCode::Tab => req is None && n == (App {
                drives: DrivesState { add_focused: ((d.add_focused + 1) % 2) as usize, ..d },
                ..o
            }),
            KeyCode::Enter => if d.add_path@.len() == 0 {
                req is None && n == (App { status_message: n.status_message, ..o }) && (n.status_message matches Some(
                    m,
                ) && m@ == path_required_text())
            } else if o.active_task is None {
                &&& n == (App {
                    active_task: Some(TaskKind::AddDrive),
                    drives: DrivesState {
                        add_open: false,
                        add_path: n.drives.add_path,
                        add_label: n.drives.add_label,
                        ..d
                    },
                    ..o
                })
                &&& n.drives.add_path@.len() == 0
                &&& n.drives.add_label@.len() == 0
                &&& req matches Some(TaskRequest::AddDrive { path, label })
                &&& path@ == d.add_path@
                &&& label@ == if d.add_label@.len() == 0 {
                    crate::drives::default_label(d.add_path@)
                } else {
                    d.add_label@
                }
            } else {
                n == o && req is None
            },
            _ => if key.code == KeyCode::Backspace || form_typed(key) is Some {
                &&& req is None
                &&& if d.add_focused == 0 {
                    field_edited(
                        d.add_path@,
                        d.add_path_cursor,
                        n.drives.add_path@,
                        n.drives.add_path_cursor,
                        key,
                        form_typed(key),
                    ) && n == (App {
                        drives: DrivesState {
                            add_path: n.drives.add_path,
                            add_path_cursor: n.drives.add_path_cursor,
                            ..d
                        },
                        ..o
                    })
                } else {
                    field_edited(
                        d.add_label@,
                        d.add_label_cursor,
                        n.drives.add_label@,
                        n.drives.add_label_cursor,
                        key,
                        form_typed(key),
                    ) && n == (App {
                        drives: DrivesState {
                            add_label: n.drives.add_label,
                            add_label_cursor: n.drives.add_label_cursor,
                            ..d
                        },
                        ..o
                    })
                }
            } else {
                n == o && req is None
            },
        }
    } else {
        match key.code {
            KeyCode::Down => req is None && n == (App {
                drives: DrivesState {
                    selected_row: if d.selected_row + 1 < d.drives@.len() {
                        (d.selected_row + 1) as usize
                    } else {
                        d.selected_row
                    },
                    ..d
                },
                ..o
            }),
            KeyCode::Up => req is None && n == (App {
                drives: DrivesState {
                    selected_row: if d.selected_row > 0 {
                        (d.selected_row - 1) as usize
                    } else {
                        d.selected_row
                    },
                    ..d
                },
                ..o
            }),
            KeyCode::Char('a') => req is None && n == (App {
                drives: DrivesState { add_open: true, add_focused: 0, ..d },
                ..o
            }),
            KeyCode::Char('r') => req matches Some(TaskRequest::LoadDrives) && n == (App {
                drives: DrivesState { loading: true, ..d },
                ..o
            }),
            _ => if key.code == KeyCode::Char('d') || key.code == KeyCode::Delete {
                if d.selected_row < d.drives@.len() && o.active_task is None {
                    n == (App { active_task: Some(TaskKind::RemoveDrive), ..o }) && (req matches Some(
                        TaskRequest::RemoveDrive { root_path },
                    ) && root_path@ == d.drives@[d.selected_row as int].root_path@)
                } else {
                    n == o && req is None
                }
            } else {
                n == o && req is None
            },
        }
    }
}

/// Keys on the drives screen.
pub fn handle_drives_key(app: &mut App, key: KeyInput) -> (res: Option<TaskRequest>)
    requires
        drives_key_ok(*old(app), key),
    ensures
        drives_key_effect(*old(app), *final(app), key, res),
{
    if app.drives.add_open {
        return match key.code {
            KeyCode::Esc => {
                app.drives.add_open = false;
                app.drives.add_path = String::new();
                app.drives.add_label = String::new();
                None
            },
            KeyCode::Tab => {
                app.drives.add_focused = (app.drives.add_focused + 1) % 2;
                None
            },
            KeyCode::Enter => {
                if app.drives.add_path.as_str().is_empty() {
                    app.status_message = Some(path_required());
                    None
                } else if app.active_task.is_none() {
                    let path = app.drives.add_path.clone();
                    let label = if app.drives.add_label.as_str().is_empty() {
                        crate::drives::default_drive_label(path.as_str())
                    } else {
                        app.drives.add_label.clone()
                    };
                    app.drives.add_open = false;
                    app.drives.add_path = String::new();
                    app.drives.add_label = String::new();
                    app.active_task = Some(TaskKind::AddDrive);
                    Some(TaskRequest::AddDrive { path, label })
                } else {
                    None
                }
            },
            KeyCode::Backspace => {
                if app.drives.add_focused == 0 {
                    backspace_input(&mut app.drives.add_path, &mut app.drives.add_path_cursor);
                } else {
                    backspace_input(&mut app.drives.add_label, &mut app.drives.add_label_cursor);
                }
                None
            },
            KeyCode::Char(c) => {
                if key.modifiers == MOD_NONE || key.modifiers == MOD_SHIFT {
                    if app.drives.add_focused == 0 {
                        insert_char(&mut app.drives.add_path, &mut app.drives.add_path_cursor, c);
                    } else {
                        insert_char(&mut app.drives.add_label, &mut app.drives.add_label_cursor, c);
                    }
                }
                None
            },
            _ => None,
        };
    }
    match key.code {
        KeyCode::Down => {
            if app.drives.selected_row + 1 < app.drives.drives.len() {
                app.drives.selected_row = app.drives.selected_row + 1;
            }
            None
        },
        KeyCode::Up => {
            if app.drives.selected_row > 0 {
                app.drives.selected_row = app.drives.selected_row - 1;
            }
            None
        },
        KeyCode::Char('a') => {
            app.drives.add_open = true;
            app.drives.add_focused = 0;
            None
        },
        KeyCode::Char('d') | KeyCode::Delete => {
            if app.drives.selected_row < app.drives.drives.len() && app.active_task.is_none() {
                let path = app.drives.drives[app.drives.selected_row].root_path.clone();
                app.active_task = Some(TaskKind::RemoveDrive);
                Some(TaskRequest::RemoveDrive { root_path: path })
            } else {
                None
            }
        },
        KeyCode::Char('r') => {
            app.drives.loading = true;
            Some(TaskRequest::LoadDrives)
        },
        _ => None,
    }
}

/// How the home screen takes `key`: `r` reloads the statistics.
pub open spec fn home_key_effect(o: App, n: App, key: KeyInput, req: Option<TaskRequest>) -> bool {
    if key.code == KeyCode::Char('r') {
        req matches Some(TaskRequest::LoadStats) && n == (App { home: HomeState { loading: true, ..o.home }, ..o })
    } else {
        n == o && req is None
    }
}

/// Keys on the home screen.
pub fn handle_home_key(app: &mut App, key: KeyInput) -> (res: Option<TaskRequest>)
    ensures
        home_key_effect(*old(app), *final(app), key, res),
{
    if key.code == KeyCode::Char('r') {
        app.home.loading = true;
        Some(TaskRequest::LoadStats)
    } else {
        None
    }
}

/// Whether the current screen can take `key` without failing.
pub open spec fn screen_key_ok(app: App, key: KeyInput) -> bool {
    match app.screen {
        AppScreen::Home => true,
        AppScreen::Scan => scan_key_ok(app, key),
        AppScreen::CheckCopy => check_copy_key_ok(app, key),
        AppScreen::Drives => drives_key_ok(app, key),
    }
}

/// How the current screen takes `key`.
pub open spec fn screen_key_effect(o: App, n: App, key: KeyInput, req: Option<TaskRequest>) -> bool {
    match o.screen {
        AppScreen::Home => home_key_effect(o, n, key, req),
        AppScreen::Scan => scan_key_effect(o, n, key, req),
        AppScreen::CheckCopy => check_copy_key_effect(o, n, key, req),
        AppScreen::Drives => drives_key_effect(o, n, key, req),
    }
}

/// Dispatch keyboard events to the active screen.
pub fn handle_screen_key(app: &mut App, key: KeyInput) -> (res: Option<TaskRequest>)
    requires
        screen_key_ok(*old(app), key),
    ensures
        screen_key_effect(*old(app), *final(app), key, res),
{
    match app.screen {
        AppScreen::Home => handle_home_key(app, key),
        AppScreen::Scan => handle_scan_key(app, key),
        AppScreen::CheckCopy => handle_check_copy_key(app, key),
        AppScreen::Drives => handle_drives_key(app, key),
    }
}

/// The statistics of the home screen, as the event that reports them: how
/// many images and drives the catalog holds, and how many images lack a
/// hash.
pub fn load_stats(db: &Database) -> (res: AppEvent)
    requires
        db.wf(),
    ensures
        res matches AppEvent::StatsLoaded { image_count, drive_count, unhashed_count } && image_count
            == db@.images.len() && drive_count == db@.drives.len() && unhashed_count == missing_hash(
            db@.images,
            None,
        ).len(),
{
    let drives = match db.list_drives() {
        Ok(d) => d,
        Err(_) => Vec::new(),
    };
    let images = match db.image_count_pub() {
        Ok(n) => n,
        Err(_) => 0,
    };
    let unhashed = match db.images_missing_hash(None) {
        Ok(t) => t,
        Err(_) => Vec::new(),
    };
    proof {
        assert(crate::db::drive_views(drives@).len() == drives@.len());
        assert(crate::db::missing_views(unhashed@).len() == unhashed@.len());
    }
    AppEvent::StatsLoaded {
        image_count: images as u64,
        drive_count: drives.len() as u64,
        unhashed_count: unhashed.len() as u64,
    }
}

/// An event of the interface's loop.
#[derive(Debug)]
pub enum AppEvent {
    Key(KeyInput),
    Tick,
    Progress(ProgressMsg),
    CandidatesReady { to_copy: Vec<CopyCandidate>, already: Vec<CopyCandidate> },
    DrivesLoaded(Vec<DriveRecord>),
    StatsLoaded { image_count: u64, drive_count: u64, unhashed_count: u64 },
    TaskDone { task: TaskKind, error: Option<String> },
}

/// Whether `key` asks to quit (q, or Ctrl+C).
pub open spec fn quit_key(key: KeyInput) -> bool {
    (key.code == KeyCode::Char('q') && key.modifiers == MOD_NONE) || (key.code == KeyCode::Char('c')
        && key.modifiers == MOD_CONTROL)
}

/// The interface after the part of a key that every screen shares: the
/// status line is cleared, a quit key quits unless text is being typed,
/// and, when no task runs, 1-4 and F1-F4 switch screens (the home screen
/// reloads its statistics unless they are loading, the drives screen
/// reloads its list).
pub open spec fn key_prelude(o: App, key: KeyInput) -> App {
    let a = App {
        status_message: None,
        should_quit: if quit_key(key) && !in_text_input(o) {
            true
        } else {
            o.should_quit
        },
        ..o
    };
    if o.active_task is Some {
        a
    } else if key.code == KeyCode::Char('1') || key.code == KeyCode::F(1) {
        App { screen: AppScreen::Home, home: HomeState { loading: true, ..a.home }, ..a }
    } else if key.code == KeyCode::Char('2') || key.code == KeyCode::F(2) {
        App { screen: AppScreen::Scan, ..a }
    } else if key.code == KeyCode::Char('3') || key.code == KeyCode::F(3) {
        App { screen: AppScreen::CheckCopy, ..a }
    } else if key.code == KeyCode::Char('4') || key.code == KeyCode::F(4) {
        App { screen: AppScreen::Drives, drives: DrivesState { loading: true, ..a.drives }, ..a }
    } else {
        a
    }
}

/// Whether the screen switch of `key` asks for the statistics (home,
/// unless they are loading) or the drive list (drives).
pub open spec fn switch_loads_stats(o: App, key: KeyInput) -> bool {
    o.active_task is None && (key.code == KeyCode::Char('1') || key.code == KeyCode::F(1)) && !o.home.loading
}

/// Whether the screen switch of `key` asks for the drive list.
pub open spec fn switch_loads_drives(o: App, key: KeyInput) -> bool {
    o.active_task is None && (key.code == KeyCode::Char('4') || key.code == KeyCode::F(4))
}

/// Whether the interface can take `event` without failing.
pub open spec fn event_ok(app: App, event: AppEvent) -> bool {
    event matches AppEvent::Key(k) ==> screen_key_ok(key_prelude(app, k), k)
}

/// How the interface takes `event`, and the tasks it asks for: first the
/// one of a screen switch or of a finished task, then the one of the
/// screen's own key handling.
pub open spec fn event_effect(o: App, n: App, event: AppEvent, reqs: (Option<TaskRequest>, Option<TaskRequest>)) -> bool {
    match event {
        AppEvent::Key(k) => {
            &&& if switch_loads_stats(o, k) {
                reqs.0 matches Some(TaskRequest::LoadStats)
            } else if switch_loads_drives(o, k) {
                reqs.0 matches Some(TaskRequest::LoadDrives)
            } else {
                reqs.0 is None
            }
            &&& screen_key_effect(key_prelude(o, k), n, k, reqs.1)
        },
        AppEvent::Tick => n == o && reqs.0 is None && reqs.1 is None,
        AppEvent::Progress(msg) => progress_effect(o, n, msg) && reqs.0 is None && reqs.1 is None,
        AppEvent::CandidatesReady { to_copy, already } => reqs.0 is None && reqs.1 is None && n == (App {
            check_copy: CheckCopyState {
                to_copy: to_copy,
                already: already,
                loading: false,
                selected_row: 0,
                table_offset: 0,
                ..o.check_copy
            },
            ..o
        }),
        AppEvent::DrivesLoaded(drives) => reqs.0 is None && reqs.1 is None && n == (App {
            drives: DrivesState { drives: drives, loading: false, ..o.drives },
            ..o
        }),
        AppEvent::StatsLoaded { image_count, drive_count, unhashed_count } => reqs.0 is None && reqs.1 is None
            && n == (App {
            home: HomeState { image_count, drive_count, unhashed_count, loading: false },
            ..o
        }),
        AppEvent::TaskDone { task, error } => reqs.1 is None && if task == TaskKind::AddDrive || task
            == TaskKind::RemoveDrive {
            &&& reqs.0 matches Some(TaskRequest::LoadDrives)
            &&& n.drives.loading
            &&& task_done_effect(o, App { drives: DrivesState { loading: false, ..n.drives }, ..n }, task, error)
        } else {
            reqs.0 is None && task_done_effect(o, n, task, error)
        },
    }
}

impl App {
    /// Takes in one event of the interface's loop, returning the tasks it
    /// asks for (see [`event_effect`]).
    pub fn handle_event(&mut self, event: AppEvent) -> (res: (Option<TaskRequest>, Option<TaskRequest>))
        requires
            event_ok(*old(self), event),
        ensures
            event_effect(*old(self), *final(self), event, res),
    {
        match event {
            AppEvent::Tick => (None, None),
            AppEvent::Key(key) => {
                // Consume status message on any key
                self.status_message = None;
                // Global quit
                if is_quit(&key) && !is_in_text_input(self) {
                    self.should_quit = true;
                }
                // Global tab switching (1-4, F1-F4)
                let mut first: Option<TaskRequest> = None;
                if self.active_task.is_none() {
                    match key.code {
                        KeyCode::Char('1') | KeyCode::F(1) => {
                            self.screen = AppScreen::Home;
                            if !self.home.loading {
                                first = Some(TaskRequest::LoadStats);
                                self.home.loading = true;
                            }
                        },
                        KeyCode::Char('2') | KeyCode::F(2) => {
                            self.screen = AppScreen::Scan;
                        },
                        KeyCode::Char('3') | KeyCode::F(3) => {
                            self.screen = AppScreen::CheckCopy;
                        },
                        KeyCode::Char('4') | KeyCode::F(4) => {
                            self.screen = AppScreen::Drives;
                            first = Some(TaskRequest::LoadDrives);
                            self.drives.loading = true;
                        },
                        _ => {},
                    }
                }
                let second = handle_screen_key(self, key);
                (first, second)
            },
            AppEvent::Progress(msg) => {
                self.handle_progress(msg);
                (None, None)
            },
            AppEvent::CandidatesReady { to_copy, already } => {
                self.check_copy.to_copy = to_copy;
                self.check_copy.already = already;
                self.check_copy.loading = false;
                self.check_copy.selected_row = 0;
                self.check_copy.table_offset = 0;
                (None, None)
            },
            AppEvent::DrivesLoaded(drives) => {
                self.drives.drives = drives;
                self.drives.loading = false;
                (None, None)
            },
            AppEvent::StatsLoaded { image_count, drive_count, unhashed_count } => {
                self.home.image_count = image_count;
                self.home.drive_count = drive_count;
                self.home.unhashed_count = unhashed_count;
                self.home.loading = false;
                (None, None)
            },
            AppEvent::TaskDone { task, error } => {
                let should_reload_drives = task == TaskKind::AddDrive || task == TaskKind::RemoveDrive;
                self.task_done(task, error);
                if should_reload_drives {
                    self.drives.loading = true;
                    (Some(TaskRequest::LoadDrives), None)
                } else {
                    (None, None)
                }
            },
        }
    }
}

} // verus!

verus! {

/// A log never grows past its capacity, and the newest message is always
/// its last line.
pub proof fn law_log_is_capped(log: Seq<String>, msg: String)
    requires
        log.len() <= LOG_CAPACITY,
    ensures
        capped_log(log, msg).len() <= LOG_CAPACITY,
        capped_log(log, msg).last() == msg,
{
}

/// Whether `event` is a quit key that arrives while the interface in state
/// `app` takes no text.
pub open spec fn quits(app: App, event: AppEvent) -> bool {
    event matches AppEvent::Key(k) && quit_key(k) && !in_text_input(app)
}

/// Handling one event raises the quit flag exactly when the event is a quit
/// key that arrives while no text is typed, and never lowers it.
pub proof fn law_quit_step(
    o: App,
    n: App,
    event: AppEvent,
    reqs: (Option<TaskRequest>, Option<TaskRequest>),
)
    requires
        event_effect(o, n, event, reqs),
    ensures
        n.should_quit == (o.should_quit || quits(o, event)),
{
}

proof fn lemma_quit_chain(states: Seq<App>, events: Seq<AppEvent>, k: int)
    requires
        states.len() == events.len() + 1,
        !states[0].should_quit,
        forall|i: int|
            0 <= i < events.len() ==> #[trigger] states[i + 1].should_quit == (states[i].should_quit || quits(
                states[i],
                events[i],
            )),
        0 <= k < events.len(),
    ensures
        states[k + 1].should_quit <==> exists|j: int| 0 <= j <= k && #[trigger] quits(states[j], events[j]),
    decreases k,
{
    assert(states[k + 1].should_quit == (states[k].should_quit || quits(states[k], events[k])));
    if k > 0 {
        lemma_quit_chain(states, events, k - 1);
        if exists|j: int| 0 <= j <= k && #[trigger] quits(states[j], events[j]) {
            let j = choose|j: int| 0 <= j <= k && #[trigger] quits(states[j], events[j]);
            if j < k {
                assert(exists|j2: int| 0 <= j2 <= k - 1 && #[trigger] quits(states[j2], events[j2]));
            }
        }
    } else {
        assert(states[1].should_quit == quits(states[0], events[0]));
        if exists|j: int| 0 <= j <= k && #[trigger] quits(states[j], events[j]) {
            let j = choose|j: int| 0 <= j <= k && #[trigger] quits(states[j], events[j]);
            assert(j == 0);
        }
    }
}

/// Over a run of the loop, where each state follows from the one before by
/// the event handled in it, the quit flag is up after the `k`-th event
/// exactly when one of the events so far was a quit key that arrived while
/// no text was typed. So the loop, which stops once the flag is up, handles
/// the first such event last, and a quit key typed into a field before it
/// went to that field.
pub proof fn law_session_quits(
    states: Seq<App>,
    events: Seq<AppEvent>,
    reqs: Seq<(Option<TaskRequest>, Option<TaskRequest>)>,
    k: int,
)
    requires
        states.len() == events.len() + 1,
        reqs.len() == events.len(),
        !states[0].should_quit,
        forall|i: int| 0 <= i < events.len() ==> event_effect(#[trigger] states[i], states[i + 1], events[i], reqs[i]),
        0 <= k < events.len(),
    ensures
        states[k + 1].should_quit <==> exists|j: int| 0 <= j <= k && #[trigger] quits(states[j], events[j]),
{
    assert forall|i: int| 0 <= i < events.len() implies #[trigger] states[i + 1].should_quit == (
    states[i].should_quit || quits(states[i], events[i])) by {
        law_quit_step(states[i], states[i + 1], events[i], reqs[i]);
    }
    lemma_quit_chain(states, events, k);
}

/// On the check/copy screen, `x` copies the loaded candidates to the drive
/// typed in the Drive Path field: whenever it starts a copy, the copy's
/// drive root is that field's text (never the SD path) and its files are
/// the candidates to copy; and it does start one whenever no copy runs, no
/// task is active and there are candidates.
pub proof fn law_copy_goes_to_drive_field(o: App, n: App, key: KeyInput, req: Option<TaskRequest>)
    requires
        check_copy_key_effect(o, n, key, req),
        key.code == KeyCode::Char('x'),
    ensures
        req matches Some(TaskRequest::CopyPhase { to_copy, drive_root }) ==> drive_root@ == o.check_copy.drive_input@
            && candidate_views(to_copy@) == candidate_views(o.check_copy.to_copy@),
        (!o.check_copy.running && o.active_task is None && o.check_copy.to_copy@.len() > 0) ==> req matches Some(
            TaskRequest::CopyPhase { .. },
        ),
        req is Some ==> req matches Some(TaskRequest::CopyPhase { .. }),
{
}

/// On the drives screen (add form closed), `d` or Delete removes the drive
/// shown on the selected row: whenever it asks for a removal, the root path
/// is that of `drives[selected_row]`; and it asks whenever that row exists
/// and no task is active.
pub proof fn law_remove_takes_selected_drive(o: App, n: App, key: KeyInput, req: Option<TaskRequest>)
    requires
        drives_key_effect(o, n, key, req),
        !o.drives.add_open,
        key.code == KeyCode::Char('d') || key.code == KeyCode::Delete,
    ensures
        req matches Some(TaskRequest::RemoveDrive { root_path }) ==> o.drives.selected_row < o.drives.drives@.len()
            && root_path@ == o.drives.drives@[o.drives.selected_row as int].root_path@,
        (o.drives.selected_row < o.drives.drives@.len() && o.active_task is None) ==> req matches Some(
            TaskRequest::RemoveDrive { .. },
        ),
        req is Some ==> req matches Some(TaskRequest::RemoveDrive { .. }),
{
}

/// Whatever key the check/copy screen takes, a check it starts compares the
/// card at the SD Path field with the drive at the Drive Path field (with
/// the hash option shown), and a copy it starts goes to the Drive Path
/// field's drive with the loaded candidates.
pub proof fn law_check_copy_requests_use_fields(o: App, n: App, key: KeyInput, req: Option<TaskRequest>)
    requires
        check_copy_key_effect(o, n, key, req),
    ensures
        req matches Some(TaskRequest::LoadCandidates { sd_path, drive_path, use_hash }) ==> sd_path@
            == o.check_copy.sd_input@ && drive_path@ == o.check_copy.drive_input@ && use_hash
            == o.check_copy.use_hash,
        req matches Some(TaskRequest::CopyPhase { to_copy, drive_root }) ==> drive_root@ == o.check_copy.drive_input@
            && candidate_views(to_copy@) == candidate_views(o.check_copy.to_copy@),
        req is Some ==> (req matches Some(TaskRequest::LoadCandidates { .. }) || req matches Some(
            TaskRequest::CopyPhase { .. },
        )),
{
}

/// Whatever key the scan screen takes, a scan it starts scans the path in
/// its Path field, under the label in its Label field (none when that is
/// empty), with the rehash option shown.
pub proof fn law_scan_request_uses_fields(o: App, n: App, key: KeyInput, req: Option<TaskRequest>)
    requires
        scan_key_effect(o, n, key, req),
    ensures
        req matches Some(TaskRequest::Scan { path, label, force_rehash }) ==> path@ == o.scan.path_input@
            && force_rehash == o.scan.force_rehash && opt_view(label) == if o.scan.label_input@.len() == 0 {
            None
        } else {
            Some(o.scan.label_input@)
        },
        req is Some ==> req matches Some(TaskRequest::Scan { .. }),
{
}

/// Whatever key the drives screen takes, a removal it asks for names the
/// drive on the selected row, and a drive it adds is the one typed in the
/// form, under the typed label or, when that is empty, its default label.
pub proof fn law_drives_requests_use_fields(o: App, n: App, key: KeyInput, req: Option<TaskRequest>)
    requires
        drives_key_effect(o, n, key, req),
    ensures
        req matches Some(TaskRequest::RemoveDrive { root_path }) ==> o.drives.selected_row < o.drives.drives@.len()
            && root_path@ == o.drives.drives@[o.drives.selected_row as int].root_path@,
        req matches Some(TaskRequest::AddDrive { path, label }) ==> path@ == o.drives.add_path@ && label@ == if o.drives.add_label@.len() == 0 {
            crate::drives::default_label(o.drives.add_path@)
        } else {
            o.drives.add_label@
        },
{
}

} // verus!
