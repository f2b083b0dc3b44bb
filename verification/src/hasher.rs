//! The `hash` command: which images still need a content hash, and what
//! each hashing attempt changes.
use vstd::prelude::*;
use crate::db::{drive_index, images_on, missing_hash, missing_views, set_hash_outcome, Database, DbError};
use crate::paths;
use crate::paths::file_name_of;
use crate::progress::ProgressMsg;
use crate::text;
use crate::text::{push_decimal, push_str};

verus! {

/// The images the `hash` command works on.
#[derive(Debug)]
pub enum HashTargets {
    /// A drive path was given, but no drive has it.
    UnknownDrive,
    /// Id and absolute path of each image without a hash.
    Targets(Vec<(i64, String)>),
}

/// The images the `hash` command works on: those on the drive at
/// `drive_path` when one is given, else all; of them only those without a
/// hash when `missing_only`, else every one.
pub fn hash_targets(db: &Database, drive_path: Option<&str>, missing_only: bool) -> (res: HashTargets)
    requires
        db.wf(),
    ensures
        match drive_path {
            Some(p) => if drive_index(db@.drives, p@) < 0 {
                res is UnknownDrive
            } else {
                res matches HashTargets::Targets(t) && missing_views(t@) == hash_scope(
                    db@.images,
                    Some(db@.drives[drive_index(db@.drives, p@)].id),
                    missing_only,
                )
            },
            None => res matches HashTargets::Targets(t) && missing_views(t@) == hash_scope(db@.images, None, missing_only),
        },
        match hash_targets_of(db@, opt_str_view(drive_path), missing_only) {
            None => res is UnknownDrive,
            Some(t) => res matches HashTargets::Targets(x) && missing_views(x@) == t,
        },
{
    let drive_id = match drive_path {
        Some(p) => match db.find_drive_by_path(p) {
            Ok(Some(d)) => Some(d.id),
            _ => {
                return HashTargets::UnknownDrive;
            },
        },
        None => None,
    };
    let rows = if missing_only {
        db.images_missing_hash(drive_id)
    } else {
        db.images_on_drive(drive_id)
    };
    match rows {
        Ok(t) => HashTargets::Targets(t),
        Err(_) => HashTargets::Targets(Vec::new()),
    }
}

/// The text of an optional path.
pub open spec fn opt_str_view(p: Option<&str>) -> Option<Seq<char>> {
    match p {
        Some(x) => Some(x@),
        None => None,
    }
}

/// The images the `hash` command works on in catalog `v`, as id and path:
/// those in the scope of the drive whose root path is `drive_path` when one
/// is given (`None` when no drive has it), else of all drives.
pub open spec fn hash_targets_of(v: crate::db::DatabaseView, drive_path: Option<Seq<char>>, missing_only: bool) -> Option<
    Seq<(i64, Seq<char>)>,
> {
    match drive_path {
        Some(p) => if drive_index(v.drives, p) < 0 {
            None
        } else {
            Some(hash_scope(v.images, Some(v.drives[drive_index(v.drives, p)].id), missing_only))
        },
        None => Some(hash_scope(v.images, None, missing_only)),
    }
}

/// The images in the scope `drive` (all when `None`) that the `hash` command
/// hashes: only those without a hash when `missing_only`.
pub open spec fn hash_scope(images: Seq<crate::models::ImageView>, drive: Option<i64>, missing_only: bool) -> Seq<(i64, Seq<char>)> {
    if missing_only {
        missing_hash(images, drive)
    } else {
        images_on(images, drive)
    }
}

/// `"No drive found at {path} — run `scan` first."`
pub open spec fn no_drive_text(path: Seq<char>) -> Seq<char> {
    "No drive found at "@ + path + " — run `scan` first."@
}

/// The message for a drive path that no drive has.
pub fn no_drive_message(path: &str) -> (res: String)
    ensures
        res@ == no_drive_text(path@),
{
    let mut s = String::new();
    push_str(&mut s, "No drive found at ");
    push_str(&mut s, path);
    push_str(&mut s, " — run `scan` first.");
    s
}

/// How many images were hashed and how many could not be.
#[derive(Debug, Clone, Copy, PartialEq, Eq, Structural)]
pub struct HashTally {
    pub hashed: u64,
    pub errors: u64,
}

/// `"{path}: {error}"`
pub open spec fn warning_text(path: Seq<char>, error: Seq<char>) -> Seq<char> {
    path + ": "@ + error
}

/// Takes in the outcome of hashing the image at `abs_path`: a hash is
/// recorded and counted; a failure is counted and its warning returned.
pub fn record_hash_result(
    db: &mut Database,
    tally: &mut HashTally,
    abs_path: &str,
    outcome: Result<String, String>,
) -> (res: Result<Option<String>, DbError>)
    requires
        old(db).wf(),
        old(tally).hashed < u64::MAX,
        old(tally).errors < u64::MAX,
    ensures
        final(db).wf(),
        match outcome {
            Ok(h) => final(db)@ == set_hash_outcome(old(db)@, abs_path@, h@) && *final(tally) == (HashTally {
                hashed: (old(tally).hashed + 1) as u64,
                errors: old(tally).errors,
            }) && res == Ok::<Option<String>, DbError>(None),
            Err(e) => final(db)@ == old(db)@ && *final(tally) == (HashTally {
                hashed: old(tally).hashed,
                errors: (old(tally).errors + 1) as u64,
            }) && (res matches Ok(Some(w)) && w@ == warning_text(abs_path@, e@)),
        },
{
    match outcome {
        Ok(h) => {
            match db.update_hash(abs_path, h.as_str()) {
                Ok(()) => {},
                Err(e) => {
                    return Err(e);
                },
            }
            tally.hashed = tally.hashed + 1;
            Ok(None)
        },
        Err(e) => {
            tally.errors = tally.errors + 1;
            let mut w = String::new();
            push_str(&mut w, abs_path);
            push_str(&mut w, ": ");
            push_str(&mut w, e.as_str());
            Ok(Some(w))
        },
    }
}

/// The progress message that reports the `index`-th of `total` images
/// (counted from 0) as done, naming its file.
pub fn hash_tick(index: u64, total: u64, abs_path: &str) -> (res: ProgressMsg)
    requires
        index < u64::MAX,
    ensures
        res matches ProgressMsg::Tick { current, total: t, detail } && current == index + 1 && t == total
            && paths::opt_view(detail) == paths::file_name(abs_path@),
{
    ProgressMsg::Tick { current: index + 1, total, detail: file_name_of(abs_path) }
}

/// `"Hashed {hashed} files. Errors: {errors}."`
pub open spec fn summary_text(hashed: nat, errors: nat) -> Seq<char> {
    "Hashed "@ + text::decimal(hashed) + " files. Errors: "@ + text::decimal(errors) + "."@
}

/// The closing line of the `hash` command.
pub fn hash_summary(hashed: u64, errors: u64) -> (res: String)
    ensures
        res@ == summary_text(hashed as nat, errors as nat),
{
    let mut s = String::new();
    push_str(&mut s, "Hashed ");
    push_decimal(&mut s, hashed);
    push_str(&mut s, " files. Errors: ");
    push_decimal(&mut s, errors);
    push_str(&mut s, ".");
    s
}

/// The message that opens a `hash` run over `total` images.
pub fn hash_started(total: u64) -> (res: ProgressMsg)
    ensures
        res matches ProgressMsg::Started { total: t, label } && t == total && label@ == "hash"@,
{
    ProgressMsg::Started { total, label: "hash".to_owned() }
}

/// Takes in the outcome of hashing the `index`-th (from 0) of `total`
/// images, at `abs_path`: the catalog and tally change as
/// [`record_hash_result`] says, and the messages are a warning when hashing
/// it failed, then the tick that reports it done.
pub fn hash_step(
    db: &mut Database,
    tally: &mut HashTally,
    index: u64,
    total: u64,
    abs_path: &str,
    outcome: Result<String, String>,
) -> (res: Result<Vec<ProgressMsg>, DbError>)
    requires
        old(db).wf(),
        old(tally).hashed < u64::MAX,
        old(tally).errors < u64::MAX,
        index < u64::MAX,
    ensures
        final(db).wf(),
        match outcome {
            Ok(h) => final(db)@ == set_hash_outcome(old(db)@, abs_path@, h@) && *final(tally) == (HashTally {
                hashed: (old(tally).hashed + 1) as u64,
                errors: old(tally).errors,
            }) && (res matches Ok(msgs) && msgs@.len() == 1),
            Err(e) => final(db)@ == old(db)@ && *final(tally) == (HashTally {
                hashed: old(tally).hashed,
                errors: (old(tally).errors + 1) as u64,
            }) && (res matches Ok(msgs) && msgs@.len() == 2 && (msgs@[0] matches ProgressMsg::Warning {
                message,
            } && message@ == warning_text(abs_path@, e@))),
        },
        *final(tally) == tally_after(*old(tally), outcome is Ok),
        res matches Ok(msgs) ==> (msgs@.last() matches ProgressMsg::Tick { current, total: t, detail }
            && current == index + 1 && t == total && paths::opt_view(detail) == paths::file_name(abs_path@)),
{
    let mut msgs: Vec<ProgressMsg> = Vec::new();
    match record_hash_result(db, tally, abs_path, outcome) {
        Ok(Some(w)) => {
            msgs.push(ProgressMsg::Warning { message: w });
        },
        Ok(None) => {},
        Err(e) => {
            return Err(e);
        },
    }
    msgs.push(hash_tick(index, total, abs_path));
    Ok(msgs)
}

/// The message that closes a `hash` run: how many images were hashed and
/// how many could not be.
pub fn hash_finished(tally: HashTally) -> (res: ProgressMsg)
    ensures
        res == (ProgressMsg::Finished { processed: tally.hashed, errors: tally.errors }),
{
    ProgressMsg::Finished { processed: tally.hashed, errors: tally.errors }
}

/// The tally after one image: one more hashed when hashing it succeeded
/// (`ok`), one more error when it failed.
pub open spec fn tally_after(t: HashTally, ok: bool) -> HashTally {
    if ok {
        HashTally { hashed: (t.hashed + 1) as u64, errors: t.errors }
    } else {
        HashTally { hashed: t.hashed, errors: (t.errors + 1) as u64 }
    }
}

/// How many of `oks` equal `ok`.
pub open spec fn count_of(oks: Seq<bool>, ok: bool) -> nat
    decreases oks.len(),
{
    if oks.len() == 0 {
        0
    } else {
        count_of(oks.drop_last(), ok) + if oks.last() == ok {
            1nat
        } else {
            0nat
        }
    }
}

/// Over a whole `hash` run that starts from an empty tally and takes in one
/// outcome per image, the closing tally counts the images hashed and the
/// images that failed, and together they are all the images of the run.
pub proof fn law_hash_run_tally(tallies: Seq<HashTally>, oks: Seq<bool>)
    requires
        tallies.len() == oks.len() + 1,
        oks.len() < u64::MAX,
        tallies[0] == (HashTally { hashed: 0, errors: 0 }),
        forall|i: int| 0 <= i < oks.len() ==> #[trigger] tallies[i + 1] == tally_after(tallies[i], oks[i]),
    ensures
        tallies.last().hashed == count_of(oks, true),
        tallies.last().errors == count_of(oks, false),
        tallies.last().hashed + tallies.last().errors == oks.len(),
    decreases oks.len(),
{
    if oks.len() > 0 {
        let n = oks.len() - 1;
        let t2 = tallies.drop_last();
        let o2 = oks.drop_last();
        assert forall|i: int| 0 <= i < o2.len() implies #[trigger] t2[i + 1] == tally_after(t2[i], o2[i]) by {
            assert(tallies[i + 1] == tally_after(tallies[i], oks[i]));
        }
        law_hash_run_tally(t2, o2);
        assert(t2.last() == tallies[n]);
        assert(tallies[n + 1] == tally_after(tallies[n], oks[n]));
    }
}

/// With a drive given, the `hash` command works on images of that drive
/// only: every target lies on it (and, with `missing_only`, has no hash),
/// and every image of it (without a hash, with `missing_only`) is a
/// target, under its id and path.
pub proof fn law_hash_targets_on_drive(images: Seq<crate::models::ImageView>, d: i64, missing_only: bool)
    ensures
        forall|i: int|
            0 <= i < hash_scope(images, Some(d), missing_only).len() ==> exists|k: int|
                0 <= k < images.len() && #[trigger] images[k].absolute_path == (#[trigger] hash_scope(
                    images,
                    Some(d),
                    missing_only,
                )[i]).1 && images[k].drive_id == d && (missing_only ==> images[k].blake3_hash is None),
        forall|k: int|
            0 <= k < images.len() && images[k].drive_id == d && (missing_only ==> images[k].blake3_hash is None)
                ==> hash_scope(images, Some(d), missing_only).contains(
                (crate::db::row_id(#[trigger] images[k]) as i64, images[k].absolute_path),
            ),
    decreases images.len(),
{
    if images.len() > 0 {
        let init = images.drop_last();
        law_hash_targets_on_drive(init, d, missing_only);
        let m0 = hash_scope(init, Some(d), missing_only);
        let m = hash_scope(images, Some(d), missing_only);
        let last = images.last();
        let takes = last.drive_id == d && (missing_only ==> last.blake3_hash is None);
        assert(m == if takes {
            m0.push((crate::db::row_id(last) as i64, last.absolute_path))
        } else {
            m0
        });
        assert forall|i: int| 0 <= i < m.len() implies exists|k: int|
            0 <= k < images.len() && #[trigger] images[k].absolute_path == (#[trigger] m[i]).1
                && images[k].drive_id == d && (missing_only ==> images[k].blake3_hash is None) by {
            if i < m0.len() {
                assert(m[i] == m0[i]);
                let k = choose|k: int|
                    0 <= k < init.len() && #[trigger] init[k].absolute_path == m0[i].1 && init[k].drive_id == d
                        && (missing_only ==> init[k].blake3_hash is None);
                assert(images[k] == init[k]);
            } else {
                assert(images[images.len() - 1].absolute_path == m[i].1);
            }
        }
        assert forall|k: int|
            0 <= k < images.len() && images[k].drive_id == d && (missing_only ==> images[k].blake3_hash is None)
                implies m.contains((crate::db::row_id(#[trigger] images[k]) as i64, images[k].absolute_path)) by {
            if k < images.len() - 1 {
                assert(images[k] == init[k]);
                let r = (crate::db::row_id(init[k]) as i64, init[k].absolute_path);
                assert(m0.contains(r));
                let j = choose|j: int| 0 <= j < m0.len() && m0[j] == r;
                assert(m[j] == r);
            } else {
                assert(m[m.len() - 1] == (crate::db::row_id(images[k]) as i64, images[k].absolute_path));
            }
        }
    }
}

/// Whether the image at `path` lies on a drive whose root path is `root`
/// (and, with `missing_only`, has no hash).
pub open spec fn image_on_root(v: crate::db::DatabaseView, path: Seq<char>, root: Seq<char>, missing_only: bool) -> bool {
    exists|k: int, j: int|
        0 <= k < v.images.len() && 0 <= j < v.drives.len() && #[trigger] v.images[k].absolute_path == path
            && #[trigger] v.drives[j].root_path == root && v.drives[j].id == v.images[k].drive_id && (missing_only
            ==> v.images[k].blake3_hash is None)
}

/// With a drive path given, the `hash` command is refused exactly when no
/// drive has that root path; otherwise it works on images of that drive
/// only (without a hash, with `missing_only`), and on every such image.
pub proof fn law_hash_targets_follow_path(v: crate::db::DatabaseView, p: Seq<char>, missing_only: bool)
    requires
        crate::db::valid(v),
    ensures
        hash_targets_of(v, Some(p), missing_only) is None <==> forall|j: int|
            0 <= j < v.drives.len() ==> (#[trigger] v.drives[j]).root_path != p,
        hash_targets_of(v, Some(p), missing_only) matches Some(t) ==> (forall|i: int|
            0 <= i < t.len() ==> image_on_root(v, (#[trigger] t[i]).1, p, missing_only)),
        hash_targets_of(v, Some(p), missing_only) matches Some(t) ==> (forall|k: int, j: int|
            0 <= k < v.images.len() && 0 <= j < v.drives.len() && #[trigger] v.drives[j].root_path == p
                && #[trigger] v.images[k].drive_id == v.drives[j].id && (missing_only
                ==> v.images[k].blake3_hash is None) ==> t.contains(
                (crate::db::row_id(v.images[k]) as i64, v.images[k].absolute_path),
            )),
{
    let idx = drive_index(v.drives, p);
    if exists|j: int| 0 <= j < v.drives.len() && #[trigger] v.drives[j].root_path == p {
        let j = choose|j: int| 0 <= j < v.drives.len() && #[trigger] v.drives[j].root_path == p;
        crate::db::lemma_drive_index_is(v.drives, p, j);
    }
    if idx >= 0 {
        let d = v.drives[idx].id;
        let t = hash_scope(v.images, Some(d), missing_only);
        law_hash_targets_on_drive(v.images, d, missing_only);
        assert forall|i: int| 0 <= i < t.len() implies image_on_root(v, (#[trigger] t[i]).1, p, missing_only) by {
            let k = choose|k: int|
                0 <= k < v.images.len() && #[trigger] v.images[k].absolute_path == t[i].1 && v.images[k].drive_id == d
                    && (missing_only ==> v.images[k].blake3_hash is None);
            assert(v.drives[idx].root_path == p);
            assert(v.images[k].absolute_path == t[i].1 && v.drives[idx].root_path == p);
        }
        assert forall|k: int, j: int|
            0 <= k < v.images.len() && 0 <= j < v.drives.len() && #[trigger] v.drives[j].root_path == p
                && #[trigger] v.images[k].drive_id == v.drives[j].id && (missing_only
                ==> v.images[k].blake3_hash is None) implies t.contains(
            (crate::db::row_id(v.images[k]) as i64, v.images[k].absolute_path),
        ) by {
            crate::db::lemma_drive_index_is(v.drives, p, j);
        }
    }
}

} // verus!
