//! The text the interface shows on its screens: hints, check boxes, modes,
//! progress labels, and the rows of the candidate and drive tables.
use vstd::prelude::*;
use crate::dates::{utc_calendar_date, Timestamp};
use crate::models::{CandidateView, DriveRecord, DriveView, StatusView};
use crate::text;
use crate::text::{push_char, push_decimal, push_str};
use crate::tui::{App, CheckCopyMode, CheckCopyState, DrivesState, HomeState, ScanState};

verus! {

/// chrono's `%Y-%m-%d %H:%M` text of the UTC instant `secs` seconds and
/// `nanos` nanoseconds after the Unix epoch.
pub uninterp spec fn minute_text(secs: i64, nanos: u32) -> Seq<char>;

/// `DateTime::from_timestamp(secs, nanos)` then `format("%Y-%m-%d %H:%M")`,
/// for an instant chrono can represent. The contract claims only that the
/// result is the value `minute_text` names.
#[verifier::external_body]
fn chrono_minute_text(secs: i64, nanos: u32) -> (res: String)
    requires
        utc_calendar_date(secs, nanos) is Some,
    ensures
        res@ == minute_text(secs, nanos),
{
    match chrono::DateTime::from_timestamp(secs, nanos) {
        Some(t) => t.format("%Y-%m-%d %H:%M").to_string(),
        None => String::new(),
    }
}

/// The text of a last-scan time: its minute, or `never`.
pub open spec fn scanned_text(t: Option<Timestamp>) -> Seq<char> {
    match t {
        Some(x) => minute_text(x.spec_secs(), x.spec_nanos()),
        None => "never"@,
    }
}

/// The last-scan column of a drive: the minute of its last scan, or `never`.
pub fn scanned_label(t: &Option<Timestamp>) -> (res: String)
    ensures
        res@ == scanned_text(*t),
{
    match t {
        Some(x) => {
            let _ = x.utc_date();
            chrono_minute_text(x.secs(), x.nanos())
        },
        None => "never".to_owned(),
    }
}

/// A check box: `[x] {label}` when ticked, `[ ] {label}` when not.
pub open spec fn check_box(ticked: bool, label: Seq<char>) -> Seq<char> {
    (if ticked {
        "[x] "@
    } else {
        "[ ] "@
    }) + label
}

fn check_box_text(ticked: bool, label: &str) -> (res: String)
    ensures
        res@ == check_box(ticked, label@),
{
    let mut s = if ticked {
        "[x] ".to_owned()
    } else {
        "[ ] ".to_owned()
    };
    push_str(&mut s, label);
    s
}

/// The rehash check box of the scan screen.
pub fn rehash_box(s: &ScanState) -> (res: String)
    ensures
        res@ == check_box(s.force_rehash, "Force rehash"@),
{
    check_box_text(s.force_rehash, "Force rehash")
}

/// The hint of the scan screen: what the keys do, or that a scan runs.
pub fn scan_hint(s: &ScanState) -> (res: String)
    ensures
        res@ == if s.running {
            "Running…"@
        } else {
            "[Enter] Start Scan  [Tab] Next field  [Space] Toggle rehash"@
        },
{
    if s.running {
        "Running…".to_owned()
    } else {
        "[Enter] Start Scan  [Tab] Next field  [Space] Toggle rehash".to_owned()
    }
}

/// The hash check box of the check/copy screen.
pub fn hash_box(cc: &CheckCopyState) -> (res: String)
    ensures
        res@ == check_box(cc.use_hash, "Hash dedup"@),
{
    check_box_text(cc.use_hash, "Hash dedup")
}

/// The mode the check/copy screen shows, padded to one width.
pub fn mode_label(mode: CheckCopyMode) -> (res: String)
    ensures
        res@ == match mode {
            CheckCopyMode::Check => "Check"@,
            CheckCopyMode::Copy => "Copy "@,
        },
{
    match mode {
        CheckCopyMode::Check => "Check".to_owned(),
        CheckCopyMode::Copy => "Copy ".to_owned(),
    }
}

/// The hint of the check/copy screen: that a copy runs, that candidates
/// load, or what the keys do.
pub fn check_copy_hint(cc: &CheckCopyState) -> (res: String)
    ensures
        res@ == if cc.running {
            "Running…"@
        } else if cc.loading {
            "Loading candidates…"@
        } else {
            "[c] Check  [x] Copy  [Tab] Next field  [h] Toggle hash"@
        },
{
    if cc.running {
        "Running…".to_owned()
    } else if cc.loading {
        "Loading candidates…".to_owned()
    } else {
        "[c] Check  [x] Copy  [Tab] Next field  [h] Toggle hash".to_owned()
    }
}

/// The status column of the candidate table.
pub open spec fn status_label(s: StatusView) -> Seq<char> {
    match s {
        StatusView::New => "New"@,
        StatusView::SizeConflict => "SizeConflict"@,
        StatusView::HashConflict => "HashConflict"@,
        StatusView::AlreadyExists { .. } => "Exists"@,
    }
}

/// `" Candidates: {n} to copy, {m} already on drive "`
pub open spec fn candidates_title_text(n: nat, m: nat) -> Seq<char> {
    " Candidates: "@ + text::decimal(n) + " to copy, "@ + text::decimal(m) + " already on drive "@
}

/// The title of the candidate table.
pub fn candidates_title(cc: &CheckCopyState) -> (res: String)
    ensures
        res@ == candidates_title_text(cc.to_copy@.len(), cc.already@.len()),
{
    let mut s = " Candidates: ".to_owned();
    push_decimal(&mut s, cc.to_copy.len() as u64);
    push_str(&mut s, " to copy, ");
    push_decimal(&mut s, cc.already.len() as u64);
    push_str(&mut s, " already on drive ");
    s
}

/// One row of a table as the screen shows it, and whether it is the
/// selected one.
#[derive(Debug)]
pub struct TableLine {
    pub cells: Vec<String>,
    pub selected: bool,
}

/// The cells of the candidate table's row for `c`.
pub open spec fn candidate_cells(c: CandidateView) -> Seq<Seq<char>> {
    seq![c.source.filename, status_label(c.status), c.destination_path]
}

/// The rows of the candidate table that fit in `height` lines: those from
/// the table offset on, each marked when it is the selected row.
pub open spec fn candidate_lines_ok(cc: CheckCopyState, height: usize, lines: Seq<TableLine>) -> bool {
    let cs = crate::models::candidate_views(cc.to_copy@);
    let n = if cc.table_offset >= cs.len() {
        0
    } else if cs.len() - cc.table_offset < height {
        cs.len() - cc.table_offset
    } else {
        height as int
    };
    &&& lines.len() == n
    &&& forall|i: int|
        0 <= i < n ==> crate::paths::views((#[trigger] lines[i]).cells@) == candidate_cells(
            cs[cc.table_offset + i],
        ) && lines[i].selected == (cc.table_offset + i == cc.selected_row)
}

/// The rows of the candidate table that fit in `height` lines.
pub fn candidate_lines(cc: &CheckCopyState, height: usize) -> (res: Vec<TableLine>)
    ensures
        candidate_lines_ok(*cc, height, res@),
{
    let ghost cs = crate::models::candidate_views(cc.to_copy@);
    let mut lines: Vec<TableLine> = Vec::new();
    let mut k = cc.table_offset;
    while k < cc.to_copy.len() && k - cc.table_offset < height
        invariant
            cs == crate::models::candidate_views(cc.to_copy@),
            cc.table_offset <= k,
            k <= cc.to_copy.len() || k == cc.table_offset,
            k - cc.table_offset <= height,
            lines@.len() == k - cc.table_offset,
            forall|i: int|
                0 <= i < lines@.len() ==> crate::paths::views((#[trigger] lines@[i]).cells@)
                    == candidate_cells(cs[cc.table_offset + i]) && lines@[i].selected == (cc.table_offset
                    + i == cc.selected_row),
        decreases cc.to_copy.len() - k,
    {
        let c = &cc.to_copy[k];
        assert(cs[k as int] == c@);
        let status = match &c.status {
            crate::models::DuplicateStatus::New => "New".to_owned(),
            crate::models::DuplicateStatus::SizeConflict => "SizeConflict".to_owned(),
            crate::models::DuplicateStatus::HashConflict => "HashConflict".to_owned(),
            crate::models::DuplicateStatus::AlreadyExists { .. } => "Exists".to_owned(),
        };
        let mut cells: Vec<String> = Vec::new();
        cells.push(c.source.filename.clone());
        cells.push(status);
        cells.push(c.destination_path.clone());
        assert(crate::paths::views(cells@) =~= candidate_cells(c@));
        lines.push(TableLine { cells, selected: k == cc.selected_row });
        k = k + 1;
    }
    lines
}

/// `i` in decimal, with a leading `-` when negative.
pub open spec fn int_text(i: int) -> Seq<char> {
    if i < 0 {
        seq!['-'] + text::decimal((-i) as nat)
    } else {
        text::decimal(i as nat)
    }
}

fn int_string(i: i64) -> (res: String)
    ensures
        res@ == int_text(i as int),
{
    let mut s = String::new();
    if i < 0 {
        push_char(&mut s, '-');
        let m: u64 = (0i128 - (i as i128)) as u64;
        push_decimal(&mut s, m);
    } else {
        push_decimal(&mut s, i as u64);
    }
    s
}

/// The cells of the drive table's row for `d`.
pub open spec fn drive_cells(d: DriveView) -> Seq<Seq<char>> {
    seq![int_text(d.id as int), d.label, d.root_path, scanned_text(d.last_scanned_at)]
}

/// The rows of the drive table that fit in `height` lines, each marked when
/// it is the selected row.
pub open spec fn drive_lines_ok(d: DrivesState, height: usize, lines: Seq<TableLine>) -> bool {
    let n = if d.drives@.len() < height {
        d.drives@.len() as int
    } else {
        height as int
    };
    &&& lines.len() == n
    &&& forall|i: int|
        0 <= i < n ==> crate::paths::views((#[trigger] lines[i]).cells@) == drive_cells(d.drives@[i]@)
            && lines[i].selected == (i == d.selected_row)
}

/// The rows of the drive table that fit in `height` lines.
pub fn drive_lines(d: &DrivesState, height: usize) -> (res: Vec<TableLine>)
    ensures
        drive_lines_ok(*d, height, res@),
{
    let mut lines: Vec<TableLine> = Vec::new();
    let mut k: usize = 0;
    while k < d.drives.len() && k < height
        invariant
            k <= d.drives.len(),
            k <= height,
            lines@.len() == k,
            forall|i: int|
                0 <= i < k ==> crate::paths::views((#[trigger] lines@[i]).cells@) == drive_cells(
                    d.drives@[i]@,
                ) && lines@[i].selected == (i == d.selected_row),
        decreases d.drives.len() - k,
    {
        let dr: &DriveRecord = &d.drives[k];
        let mut cells: Vec<String> = Vec::new();
        cells.push(int_string(dr.id));
        cells.push(dr.label.clone());
        cells.push(dr.root_path.clone());
        cells.push(scanned_label(&dr.last_scanned_at));
        assert(crate::paths::views(cells@) =~= drive_cells(dr@));
        lines.push(TableLine { cells, selected: k == d.selected_row });
        k = k + 1;
    }
    lines
}

/// The title of the drive table: whether drives load, and what the keys do.
pub fn drives_title(d: &DrivesState) -> (res: String)
    ensures
        res@ == " Drives"@ + (if d.loading {
            " (loading…)"@
        } else {
            ""@
        }) + " [a] Add  [d] Remove  [r] Refresh  [↑↓] Navigate "@,
{
    let mut s = " Drives".to_owned();
    if d.loading {
        push_str(&mut s, " (loading…)");
    } else {
        push_str(&mut s, "");
    }
    push_str(&mut s, " [a] Add  [d] Remove  [r] Refresh  [↑↓] Navigate ");
    s
}

/// `"{current}/{total}  {detail}"`
pub open spec fn progress_text(current: nat, total: nat, detail: Seq<char>) -> Seq<char> {
    text::decimal(current) + "/"@ + text::decimal(total) + "  "@ + detail
}

/// The label of a progress gauge: the result once there is one, the count
/// and detail while work is known, else `Idle`.
pub fn progress_label(current: u64, total: u64, detail: &str, result: Option<&str>) -> (res: String)
    ensures
        res@ == match result {
            Some(r) => r@,
            None => if total > 0 {
                progress_text(current as nat, total as nat, detail@)
            } else {
                "Idle"@
            },
        },
{
    match result {
        Some(r) => r.to_owned(),
        None => if total > 0 {
            let mut s = String::new();
            push_decimal(&mut s, current);
            push_str(&mut s, "/");
            push_decimal(&mut s, total);
            push_str(&mut s, "  ");
            push_str(&mut s, detail);
            s
        } else {
            "Idle".to_owned()
        },
    }
}

/// A labelled input field: the label, then the field's text in brackets.
pub open spec fn field_line(label: Seq<char>, value: Seq<char>) -> Seq<char> {
    label + "["@ + value + "]"@
}

fn field_line_text(label: &str, value: &str) -> (res: String)
    ensures
        res@ == field_line(label@, value@),
{
    let mut s = label.to_owned();
    push_str(&mut s, "[");
    push_str(&mut s, value);
    push_str(&mut s, "]");
    s
}

/// The path and label lines of the scan screen.
pub fn scan_field_lines(s: &ScanState) -> (res: (String, String))
    ensures
        res.0@ == field_line("  Path:  "@, s.path_input@),
        res.1@ == field_line("  Label: "@, s.label_input@),
{
    (field_line_text("  Path:  ", s.path_input.as_str()), field_line_text("  Label: ", s.label_input.as_str()))
}

/// The card and drive path lines of the check/copy screen.
pub fn check_copy_field_lines(cc: &CheckCopyState) -> (res: (String, String))
    ensures
        res.0@ == field_line("  SD Path:    "@, cc.sd_input@),
        res.1@ == field_line("  Drive Path: "@, cc.drive_input@),
{
    (
        field_line_text("  SD Path:    ", cc.sd_input.as_str()),
        field_line_text("  Drive Path: ", cc.drive_input.as_str()),
    )
}

/// The mode part of the check/copy screen's option line.
pub fn mode_line(mode: CheckCopyMode) -> (res: String)
    ensures
        res@ == "   Mode: "@ + match mode {
            CheckCopyMode::Check => "Check"@,
            CheckCopyMode::Copy => "Copy "@,
        } + "   "@,
{
    let mut s = "   Mode: ".to_owned();
    let m = mode_label(mode);
    push_str(&mut s, m.as_str());
    push_str(&mut s, "   ");
    s
}

/// The lines of the add-drive form: its path and label fields and its keys.
pub fn add_drive_lines(d: &DrivesState) -> (res: (String, String, String))
    ensures
        res.0@ == field_line("  Path:  "@, d.add_path@),
        res.1@ == field_line("  Label: "@, d.add_label@),
        res.2@ == "  [Enter] Save   [Esc] Cancel"@,
{
    (
        field_line_text("  Path:  ", d.add_path.as_str()),
        field_line_text("  Label: ", d.add_label.as_str()),
        "  [Enter] Save   [Esc] Cancel".to_owned(),
    )
}

/// The lines of the home screen: the image count (marked while the
/// statistics load), the drive count, the number of images without a hash,
/// and the refresh key.
pub fn home_lines(h: &HomeState) -> (res: Vec<String>)
    ensures
        res@.len() == 4,
        res@[0]@ == "  Images indexed:   "@ + text::decimal(h.image_count as nat) + if h.loading {
            " (loading…)"@
        } else {
            ""@
        },
        res@[1]@ == "  Drives known:     "@ + text::decimal(h.drive_count as nat),
        res@[2]@ == "  Missing hashes:   "@ + text::decimal(h.unhashed_count as nat),
        res@[3]@ == "  [r] Refresh stats"@,
{
    let mut a = "  Images indexed:   ".to_owned();
    push_decimal(&mut a, h.image_count);
    if h.loading {
        push_str(&mut a, " (loading…)");
    } else {
        push_str(&mut a, "");
    }
    let mut b = "  Drives known:     ".to_owned();
    push_decimal(&mut b, h.drive_count);
    let mut c = "  Missing hashes:   ".to_owned();
    push_decimal(&mut c, h.unhashed_count);
    let mut lines: Vec<String> = Vec::new();
    lines.push(a);
    lines.push(b);
    lines.push(c);
    lines.push("  [r] Refresh stats".to_owned());
    lines
}

/// The status bar: the status message, or the default hint.
pub fn status_line(app: &App) -> (res: String)
    ensures
        res@ == match app.status_message {
            Some(m) => m@,
            None => "Ready  [1-4] Switch tab  [q] Quit"@,
        },
{
    match &app.status_message {
        Some(m) => m.clone(),
        None => "Ready  [1-4] Switch tab  [q] Quit".to_owned(),
    }
}

/// The title of the tab bar, with a spinner while a task runs.
pub fn tabs_title(app: &App) -> (res: String)
    ensures
        res@ == " local_image_db "@ + if app.active_task is Some {
            "⠋ "@
        } else {
            ""@
        },
{
    let mut s = " local_image_db ".to_owned();
    if app.active_task.is_some() {
        push_str(&mut s, "⠋ ");
    } else {
        push_str(&mut s, "");
    }
    s
}

} // verus!
