//! Registering drives by their root path.
use vstd::prelude::*;
use crate::db::{drive_index, upsert_drive_outcome, Database, DbError};
use crate::paths;
use crate::paths::file_name_of;

verus! {

/// The label a drive gets when none is given: the last component of its
/// root path, or nothing.
pub open spec fn default_label(path: Seq<char>) -> Seq<char> {
    match paths::file_name(path) {
        Some(n) => n,
        None => seq![],
    }
}

/// The label a drive gets when none is given (see [`default_label`]).
pub fn default_drive_label(path: &str) -> (res: String)
    ensures
        res@ == default_label(path@),
{
    match file_name_of(path) {
        Some(n) => n,
        None => String::new(),
    }
}

/// The label to scan a drive under: the one given, or the default one.
pub fn scan_label(drive_label: Option<String>, scan_path: &str) -> (res: String)
    ensures
        res@ == match drive_label {
            Some(l) => l@,
            None => default_label(scan_path@),
        },
{
    match drive_label {
        Some(l) => l,
        None => default_drive_label(scan_path),
    }
}

/// Ensure a drive record exists for this path. If not, create one with a
/// default label. Returns the drive's id.
pub fn ensure_drive_indexed(db: &mut Database, drive_path: &str) -> (res: Result<i64, DbError>)
    requires
        old(db).wf(),
    ensures
        final(db).wf(),
        drive_index(old(db)@.drives, drive_path@) >= 0 ==> final(db)@ == old(db)@ && res == Ok::<i64, DbError>(
            old(db)@.drives[drive_index(old(db)@.drives, drive_path@)].id,
        ),
        drive_index(old(db)@.drives, drive_path@) < 0 ==> (final(db)@, res) == upsert_drive_outcome(
            old(db)@,
            default_label(drive_path@),
            drive_path@,
        ),
{
    match db.find_drive_by_path(drive_path) {
        Ok(Some(d)) => Ok(d.id),
        _ => {
            let label = default_drive_label(drive_path);
            db.upsert_drive(label.as_str(), drive_path)
        },
    }
}

} // verus!
