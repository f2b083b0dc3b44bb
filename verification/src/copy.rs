//! Deciding which files on a card still need copying, and recording the
//! copies that were made.
//!
//! A file is compared with the catalog in two passes: by file name and
//! size, and, when hashing is asked for, by content hash. Only a definitive
//! match marks a file as already present.
use vstd::prelude::*;
use crate::cli::OutputFormat;
use crate::dates::Timestamp;
use crate::db::{first_path_with_hash, filename_matches, is_row_of, law_find_by_hash_sound, image_index, match_views, upsert_image_outcome, Database, DatabaseView, DbError};
use crate::models::{candidate_views, CandidateView, CopyCandidate, DuplicateStatus, ImageRecord, ImageView, StatusView};
use crate::paths;
use crate::paths::{file_name_of, opt_view};
use crate::text::str_eq;

verus! {

/// Options of the `check` and `copy` commands.
pub struct RunOptions<'a> {
    pub sd_path: &'a str,
    pub drive_root: &'a str,
    pub drive_id: i64,
    pub use_hash: bool,
    pub format: &'a OutputFormat,
    pub dry_run: bool,
    pub verbose: bool,
}

/// A catalog row found by file name: absolute path, size and hash.
pub type RowView = (Seq<char>, u64, Option<Seq<char>>);

/// The rows whose size is `size`, in order.
pub open spec fn with_size(rows: Seq<RowView>, size: u64) -> Seq<RowView>
    decreases rows.len(),
{
    if rows.len() == 0 {
        seq![]
    } else if rows.last().1 == size {
        with_size(rows.drop_last(), size).push(rows.last())
    } else {
        with_size(rows.drop_last(), size)
    }
}

/// The path of the first row whose hash is `hash`.
pub open spec fn first_hash_match(rows: Seq<RowView>, hash: Seq<char>) -> Option<Seq<char>>
    decreases rows.len(),
{
    if rows.len() == 0 {
        None
    } else {
        match first_hash_match(rows.drop_last(), hash) {
            Some(p) => Some(p),
            None => if rows.last().2 == Some(hash) {
                Some(rows.last().0)
            } else {
                None
            },
        }
    }
}

/// The verdict on a file called `filename` of `size` bytes that needs no
/// hash, or `None` when its content hash must decide: unknown names are new;
/// known names of another size are size conflicts; a known name and size is
/// already present (at the first such image) unless hashing is asked for.
pub open spec fn verdict_without_hash(v: DatabaseView, filename: Seq<char>, size: u64, use_hash: bool) -> Option<StatusView> {
    let rows = filename_matches(v.images, filename);
    let same = with_size(rows, size);
    if rows.len() == 0 {
        Some(StatusView::New)
    } else if same.len() == 0 {
        Some(StatusView::SizeConflict)
    } else if !use_hash {
        Some(StatusView::AlreadyExists { existing_path: same[0].0 })
    } else {
        None
    }
}

/// The verdict once the file's content hash is known: already present at
/// the first image of the same name and size with that hash, else at the
/// first image anywhere with that hash, else a hash conflict.
pub open spec fn verdict_with_hash(v: DatabaseView, filename: Seq<char>, size: u64, hash: Seq<char>) -> StatusView {
    let same = with_size(filename_matches(v.images, filename), size);
    match first_hash_match(same, hash) {
        Some(p) => StatusView::AlreadyExists { existing_path: p },
        None => match first_path_with_hash(v.images, hash) {
            Some(p) => StatusView::AlreadyExists { existing_path: p },
            None => StatusView::HashConflict,
        },
    }
}

/// The first pass of the comparison of a card file with the catalog.
#[derive(Debug)]
pub enum Classification {
    /// The verdict is known without the file's hash.
    Decided(DuplicateStatus),
    /// The file's content hash must be computed and given to
    /// [`classify_hashed`].
    NeedsHash,
}

/// The rows of `rows` whose size is `size`.
fn rows_with_size(rows: &Vec<(String, u64, Option<String>)>, size: u64) -> (res: Vec<(String, u64, Option<String>)>)
    ensures
        match_views(res@) == with_size(match_views(rows@), size),
{
    let mut out: Vec<(String, u64, Option<String>)> = Vec::new();
    let mut i: usize = 0;
    assert(match_views(rows@).take(0) =~= Seq::<RowView>::empty());
    while i < rows.len()
        invariant
            i <= rows.len(),
            match_views(out@) == with_size(match_views(rows@).take(i as int), size),
        decreases rows.len() - i,
    {
        let ghost prefix = match_views(rows@).take(i + 1);
        assert(prefix.drop_last() =~= match_views(rows@).take(i as int));
        assert(prefix.last() == match_views(rows@)[i as int]);
        if rows[i].1 == size {
            let r = &rows[i];
            out.push((r.0.clone(), r.1, crate::models::clone_opt_string(&r.2)));
            assert(match_views(out@) =~= with_size(prefix, size));
        }
        i = i + 1;
    }
    assert(match_views(rows@).take(rows.len() as int) =~= match_views(rows@));
    out
}

/// Compares a card file with the catalog by name and size (first pass).
pub fn classify(db: &Database, img: &ImageRecord, use_hash: bool) -> (res: Classification)
    requires
        db.wf(),
    ensures
        match res {
            Classification::Decided(s) => verdict_without_hash(db@, img.filename@, img.file_size, use_hash) == Some(s@),
            Classification::NeedsHash => verdict_without_hash(db@, img.filename@, img.file_size, use_hash) is None,
        },
{
    let matches = match db.find_by_filename(img.filename.as_str()) {
        Ok(rows) => rows,
        Err(_) => Vec::new(),
    };
    if matches.len() == 0 {
        return Classification::Decided(DuplicateStatus::New);
    }
    let size_matches = rows_with_size(&matches, img.file_size);
    if size_matches.len() == 0 {
        return Classification::Decided(DuplicateStatus::SizeConflict);
    }
    if !use_hash {
        assert(match_views(size_matches@)[0].0 == size_matches@[0].0@);
        return Classification::Decided(DuplicateStatus::AlreadyExists { existing_path: size_matches[0].0.clone() });
    }
    Classification::NeedsHash
}

/// Compares a card file whose content hash is `sd_hash` with the catalog
/// (second pass), and records that hash on the file's record.
pub fn classify_hashed(db: &Database, img: &mut ImageRecord, sd_hash: String) -> (res: DuplicateStatus)
    requires
        db.wf(),
    ensures
        res@ == verdict_with_hash(db@, old(img).filename@, old(img).file_size, sd_hash@),
        final(img)@ == (ImageView { blake3_hash: Some(sd_hash@), ..old(img)@ }),
{
    let matches = match db.find_by_filename(img.filename.as_str()) {
        Ok(rows) => rows,
        Err(_) => Vec::new(),
    };
    let size_matches = rows_with_size(&matches, img.file_size);
    let ghost same = match_views(size_matches@);
    let mut i: usize = 0;
    assert(same.take(0) =~= Seq::<RowView>::empty());
    assert(same.take(same.len() as int) =~= same);
    let mut found: Option<String> = None;
    while i < size_matches.len()
        invariant_except_break
            found is None,
            first_hash_match(same.take(i as int), sd_hash@) is None,
        invariant
            i <= size_matches.len(),
            same == match_views(size_matches@),
            same.take(same.len() as int) == same,
        ensures
            found matches Some(p) ==> first_hash_match(same, sd_hash@) == Some(p@),
            found is None ==> first_hash_match(same, sd_hash@) is None,
        decreases size_matches.len() - i,
    {
        let ghost prefix = same.take(i + 1);
        assert(prefix.drop_last() =~= same.take(i as int));
        assert(prefix.last() == same[i as int]);
        let hit = match &size_matches[i].2 {
            Some(h) => str_eq(h.as_str(), sd_hash.as_str()),
            None => false,
        };
        if hit {
            found = Some(size_matches[i].0.clone());
            proof {
                lemma_first_hash_match_extends(same, i + 1, sd_hash@);
                assert(same[i as int].0 == size_matches@[i as int].0@);
            }
            break;
        }
        i = i + 1;
    }
    let status = match found {
        Some(p) => DuplicateStatus::AlreadyExists { existing_path: p },
        None => match db.find_by_hash(sd_hash.as_str()) {
            Ok(Some(p)) => DuplicateStatus::AlreadyExists { existing_path: p },
            _ => DuplicateStatus::HashConflict,
        },
    };
    img.blake3_hash = Some(sd_hash);
    status
}

proof fn lemma_first_hash_match_extends(rows: Seq<RowView>, n: int, hash: Seq<char>)
    requires
        0 < n <= rows.len(),
        first_hash_match(rows.take(n - 1), hash) is None,
        rows[n - 1].2 == Some(hash),
    ensures
        first_hash_match(rows, hash) == Some(rows[n - 1].0),
    decreases rows.len() - n,
{
    assert(rows.take(n).drop_last() =~= rows.take(n - 1));
    if n < rows.len() {
        lemma_first_hash_match_keeps(rows, n, hash);
    } else {
        assert(rows.take(n) =~= rows);
    }
}

proof fn lemma_first_hash_match_keeps(rows: Seq<RowView>, n: int, hash: Seq<char>)
    requires
        0 <= n <= rows.len(),
        first_hash_match(rows.take(n), hash) is Some,
    ensures
        first_hash_match(rows, hash) == first_hash_match(rows.take(n), hash),
    decreases rows.len() - n,
{
    if n < rows.len() {
        assert(rows.take(n + 1).drop_last() =~= rows.take(n));
        lemma_first_hash_match_keeps(rows, n + 1, hash);
    } else {
        assert(rows.take(n) =~= rows);
    }
}

proof fn lemma_with_size_members(rows: Seq<RowView>, size: u64)
    ensures
        forall|i: int|
            0 <= i < with_size(rows, size).len() ==> (#[trigger] with_size(rows, size)[i]).1 == size
                && rows.contains(with_size(rows, size)[i]),
        with_size(rows, size).len() == 0 <==> forall|j: int| 0 <= j < rows.len() ==> (#[trigger] rows[j]).1 != size,
    decreases rows.len(),
{
    if rows.len() > 0 {
        let init = rows.drop_last();
        lemma_with_size_members(init, size);
        let r0 = with_size(init, size);
        let r = with_size(rows, size);
        assert forall|i: int| 0 <= i < r.len() implies (#[trigger] r[i]).1 == size && rows.contains(r[i]) by {
            if i < r0.len() {
                assert(r[i] == r0[i]);
                assert(r0[i].1 == size && init.contains(r0[i]));
                let j = choose|j: int| 0 <= j < init.len() && init[j] == r0[i];
                assert(rows[j] == init[j]);
            } else {
                assert(rows[rows.len() - 1] == r[i]);
            }
        }
        if r.len() == 0 {
            assert forall|j: int| 0 <= j < rows.len() implies (#[trigger] rows[j]).1 != size by {
                if j < rows.len() - 1 {
                    assert(rows[j] == init[j]);
                }
            }
        }
        if r.len() > 0 {
            assert(r[0].1 == size && rows.contains(r[0]));
        }
    }
}

proof fn lemma_first_hash_match_sound(rows: Seq<RowView>, hash: Seq<char>)
    ensures
        first_hash_match(rows, hash) matches Some(p) ==> exists|i: int|
            0 <= i < rows.len() && (#[trigger] rows[i]).0 == p && rows[i].2 == Some(hash),
    decreases rows.len(),
{
    if rows.len() > 0 {
        let init = rows.drop_last();
        lemma_first_hash_match_sound(init, hash);
        if let Some(p) = first_hash_match(init, hash) {
            let i = choose|i: int| 0 <= i < init.len() && (#[trigger] init[i]).0 == p && init[i].2 == Some(hash);
            assert(rows[i] == init[i]);
        } else if let Some(p) = first_hash_match(rows, hash) {
            assert(rows[rows.len() - 1] == rows.last());
        }
    }
}

/// A file name that nothing in the catalog carries is new, and only such
/// a file is.
pub proof fn law_new_iff_unknown_name(v: DatabaseView, filename: Seq<char>, size: u64, use_hash: bool)
    requires
        crate::db::valid(v),
    ensures
        (verdict_without_hash(v, filename, size, use_hash) == Some(StatusView::New)) <==> forall|k: int|
            0 <= k < v.images.len() ==> (#[trigger] v.images[k]).filename != filename,
{
    let rows = filename_matches(v.images, filename);
    crate::db::law_find_by_filename_sound(v, filename);
    if rows.len() > 0 {
        assert(is_row_of(v.images, filename, rows[0]));
    }
    assert forall|k: int| 0 <= k < v.images.len() && rows.len() == 0 implies (#[trigger] v.images[k]).filename != filename by {
        if v.images[k].filename == filename {
            crate::db::lemma_filename_matches_complete(v.images, filename, k);
        }
    }
}

/// Without hashing, a file is reported as already present only at the path
/// of a catalogued image with the same name and size; a size conflict means
/// the name is known but not with that size.
pub proof fn law_unhashed_verdict_evidence(v: DatabaseView, filename: Seq<char>, size: u64, use_hash: bool)
    requires
        crate::db::valid(v),
    ensures
        verdict_without_hash(v, filename, size, use_hash) matches Some(StatusView::AlreadyExists { existing_path }) ==> exists|k: int|
            0 <= k < v.images.len() && (#[trigger] v.images[k]).absolute_path == existing_path
                && v.images[k].filename == filename && v.images[k].file_size == size,
        verdict_without_hash(v, filename, size, use_hash) == Some(StatusView::SizeConflict) ==> (exists|k: int|
            0 <= k < v.images.len() && (#[trigger] v.images[k]).filename == filename) && forall|k: int|
            0 <= k < v.images.len() && (#[trigger] v.images[k]).filename == filename ==> v.images[k].file_size != size,
{
    let rows = filename_matches(v.images, filename);
    let same = with_size(rows, size);
    crate::db::law_find_by_filename_sound(v, filename);
    lemma_with_size_members(rows, size);
    if rows.len() > 0 {
        assert(is_row_of(v.images, filename, rows[0]));
        if same.len() > 0 {
            let r = same[0];
            assert(r.1 == size && rows.contains(r));
            let i = choose|i: int| 0 <= i < rows.len() && rows[i] == r;
            assert(is_row_of(v.images, filename, rows[i]));
        } else {
            assert forall|k: int| 0 <= k < v.images.len() && (#[trigger] v.images[k]).filename == filename implies v.images[k].file_size != size by {
                crate::db::lemma_filename_matches_complete(v.images, filename, k);
                let row = (v.images[k].absolute_path, v.images[k].file_size, v.images[k].blake3_hash);
                let j = choose|j: int| 0 <= j < rows.len() && rows[j] == row;
                assert(rows[j].1 != size);
            }
        }
    }
}

/// With hashing, a file is reported as already present only at the path of
/// a catalogued image with the same content hash, and a hash conflict means
/// that no catalogued image has that hash.
pub proof fn law_hashed_verdict_evidence(v: DatabaseView, filename: Seq<char>, size: u64, hash: Seq<char>)
    requires
        crate::db::valid(v),
    ensures
        verdict_with_hash(v, filename, size, hash) matches StatusView::AlreadyExists { existing_path } ==> exists|k: int|
            0 <= k < v.images.len() && (#[trigger] v.images[k]).absolute_path == existing_path
                && v.images[k].blake3_hash == Some(hash),
        verdict_with_hash(v, filename, size, hash) == StatusView::HashConflict ==> forall|k: int|
            0 <= k < v.images.len() ==> (#[trigger] v.images[k]).blake3_hash != Some(hash),
{
    let rows = filename_matches(v.images, filename);
    let same = with_size(rows, size);
    crate::db::law_find_by_filename_sound(v, filename);
    lemma_with_size_members(rows, size);
    lemma_first_hash_match_sound(same, hash);
    law_find_by_hash_sound(v, hash);
    match first_hash_match(same, hash) {
        Some(p) => {
            let i = choose|i: int| 0 <= i < same.len() && (#[trigger] same[i]).0 == p && same[i].2 == Some(hash);
            assert(rows.contains(same[i]));
            let j = choose|j: int| 0 <= j < rows.len() && rows[j] == same[i];
            assert(is_row_of(v.images, filename, rows[j]));
        },
        None => {
            if let Some(p) = first_path_with_hash(v.images, hash) {
                let k = image_index(v.images, p);
                assert(v.images[k].absolute_path == p);
            }
        },
    }
}

/// The candidates that are not already present, in order.
pub open spec fn to_copy_of(cs: Seq<CandidateView>) -> Seq<CandidateView>
    decreases cs.len(),
{
    if cs.len() == 0 {
        seq![]
    } else if cs.last().status is AlreadyExists {
        to_copy_of(cs.drop_last())
    } else {
        to_copy_of(cs.drop_last()).push(cs.last())
    }
}

/// The candidates that are already present, in order.
pub open spec fn already_of(cs: Seq<CandidateView>) -> Seq<CandidateView>
    decreases cs.len(),
{
    if cs.len() == 0 {
        seq![]
    } else if cs.last().status is AlreadyExists {
        already_of(cs.drop_last()).push(cs.last())
    } else {
        already_of(cs.drop_last())
    }
}

/// Splits candidates into those to copy and those already on the drive,
/// keeping their order.
pub fn split_candidates(candidates: &Vec<CopyCandidate>) -> (res: (Vec<CopyCandidate>, Vec<CopyCandidate>))
    ensures
        candidate_views(res.0@) == to_copy_of(candidate_views(candidates@)),
        candidate_views(res.1@) == already_of(candidate_views(candidates@)),
{
    let ghost cs = candidate_views(candidates@);
    let mut to_copy: Vec<CopyCandidate> = Vec::new();
    let mut already: Vec<CopyCandidate> = Vec::new();
    let mut i: usize = 0;
    assert(cs.take(0) =~= Seq::<CandidateView>::empty());
    while i < candidates.len()
        invariant
            i <= candidates.len(),
            cs == candidate_views(candidates@),
            candidate_views(to_copy@) == to_copy_of(cs.take(i as int)),
            candidate_views(already@) == already_of(cs.take(i as int)),
        decreases candidates.len() - i,
    {
        let ghost prefix = cs.take(i + 1);
        assert(prefix.drop_last() =~= cs.take(i as int));
        assert(prefix.last() == candidates@[i as int]@);
        if candidates[i].status.is_already_present() {
            already.push(candidates[i].duplicate());
        } else {
            to_copy.push(candidates[i].duplicate());
        }
        assert(candidate_views(to_copy@) =~= to_copy_of(prefix));
        assert(candidate_views(already@) =~= already_of(prefix));
        i = i + 1;
    }
    assert(cs.take(candidates.len() as int) =~= cs);
    (to_copy, already)
}

/// Why recording a copied file failed.
#[derive(Debug, Clone, Copy, PartialEq, Eq, Structural)]
pub enum CopyError {
    /// The copy does not have the size of its source.
    SizeMismatch { expected: u64, got: u64 },
    /// The catalog refused the new record.
    Db(DbError),
}

/// The catalog record of a copy of `source` at `dst`: it belongs to drive
/// `drive_id`, is named after the last component of `dst`, has `dst` as
/// relative and absolute path, the copied size, the source's capture date
/// and hash, and `now` as modification time.
pub open spec fn copy_record(source: ImageView, dst: Seq<char>, drive_id: i64, size: u64, now: Timestamp) -> ImageView {
    ImageView {
        id: None,
        drive_id: drive_id,
        filename: match paths::file_name(dst) {
            Some(n) => n,
            None => seq![],
        },
        relative_path: dst,
        absolute_path: dst,
        file_size: size,
        capture_date: source.capture_date,
        file_mtime: now,
        blake3_hash: source.blake3_hash,
    }
}

/// Records in the catalog that `candidate` was copied to `dst` and that the
/// copy has `copied_size` bytes; a copy whose size differs from its source
/// is refused and nothing is recorded.
pub fn record_copy(
    db: &mut Database,
    candidate: &CopyCandidate,
    dst: &str,
    drive_id: i64,
    copied_size: u64,
    now: Timestamp,
) -> (res: Result<i64, CopyError>)
    requires
        old(db).wf(),
    ensures
        final(db).wf(),
        copied_size != candidate.source.file_size ==> res == Err::<i64, CopyError>(
            CopyError::SizeMismatch { expected: candidate.source.file_size, got: copied_size },
        ) && final(db)@ == old(db)@,
        copied_size == candidate.source.file_size ==> ({
            let (w, r) = upsert_image_outcome(
                old(db)@,
                copy_record(candidate.source@, dst@, drive_id, copied_size, now),
            );
            &&& final(db)@ == w
            &&& res == match r {
                Ok(id) => Ok::<i64, CopyError>(id),
                Err(e) => Err(CopyError::Db(e)),
            }
        }),
{
    if copied_size != candidate.source.file_size {
        return Err(CopyError::SizeMismatch { expected: candidate.source.file_size, got: copied_size });
    }
    let filename = match file_name_of(dst) {
        Some(n) => n,
        None => String::new(),
    };
    let record = ImageRecord {
        id: None,
        drive_id,
        filename,
        relative_path: dst.to_owned(),
        absolute_path: dst.to_owned(),
        file_size: copied_size,
        capture_date: candidate.source.capture_date,
        file_mtime: now,
        blake3_hash: crate::models::clone_opt_string(&candidate.source.blake3_hash),
    };
    match db.upsert_image(&record) {
        Ok(id) => Ok(id),
        Err(e) => Err(CopyError::Db(e)),
    }
}

/// A copied file is known afterwards: once the copy of a card file, kept
/// under the file's own name and size, has been recorded, comparing the
/// file with the catalog again finds it already present by name and size,
/// and also by content hash when its record carries its hash.
pub proof fn law_copied_file_is_already_present(
    v: DatabaseView,
    source: ImageView,
    dst: Seq<char>,
    drive_id: i64,
    now: Timestamp,
)
    requires
        crate::db::valid(v),
        paths::file_name(dst) == Some(source.filename),
        upsert_image_outcome(v, copy_record(source, dst, drive_id, source.file_size, now)).1 is Ok,
    ensures
        ({
            let w = upsert_image_outcome(v, copy_record(source, dst, drive_id, source.file_size, now)).0;
            &&& verdict_without_hash(w, source.filename, source.file_size, false) matches Some(
                StatusView::AlreadyExists { .. },
            )
            &&& source.blake3_hash matches Some(h) ==> verdict_with_hash(
                w,
                source.filename,
                source.file_size,
                h,
            ) is AlreadyExists
        }),
{
    let rec = copy_record(source, dst, drive_id, source.file_size, now);
    let w = upsert_image_outcome(v, rec).0;
    let k = image_index(v.images, rec.absolute_path);
    let hash = if rec.blake3_hash is None && k >= 0 {
        v.images[k].blake3_hash
    } else {
        rec.blake3_hash
    };
    let row = (rec.absolute_path, rec.file_size, hash);
    crate::db::law_upserted_image_is_found_by_name(v, rec);
    let rows = filename_matches(w.images, source.filename);
    assert(rows.contains(row));
    let j = choose|j: int| 0 <= j < rows.len() && rows[j] == row;
    lemma_with_size_members(rows, source.file_size);
    assert(rows[j].1 == source.file_size);
    if let Some(h) = source.blake3_hash {
        assert(hash == Some(h));
        crate::db::law_find_by_filename_sound(w, source.filename);
        assert(is_row_of(w.images, source.filename, rows[j]));
        let i = choose|i: int| 0 <= i < w.images.len() && #[trigger] w.images[i].filename == source.filename
            && rows[j] == (w.images[i].absolute_path, w.images[i].file_size, w.images[i].blake3_hash);
        crate::db::lemma_first_path_sound(w.images, h);
        assert(w.images[i].blake3_hash == Some(h));
    }
}

/// Splitting keeps every candidate, in its order, on exactly one side: the
/// already-present list holds exactly the candidates whose status is
/// `AlreadyExists`, and the to-copy list all the others (new files, size
/// conflicts and hash conflicts alike).
pub proof fn law_split_by_presence(cs: Seq<CandidateView>)
    ensures
        to_copy_of(cs) == cs.filter(|c: CandidateView| !(c.status is AlreadyExists)),
        already_of(cs) == cs.filter(|c: CandidateView| c.status is AlreadyExists),
        forall|i: int| 0 <= i < already_of(cs).len() ==> (#[trigger] already_of(cs)[i]).status is AlreadyExists,
        forall|i: int| 0 <= i < to_copy_of(cs).len() ==> !((#[trigger] to_copy_of(cs)[i]).status is AlreadyExists),
        forall|i: int| 0 <= i < cs.len() && !(cs[i].status is AlreadyExists) ==> #[trigger] to_copy_of(cs).contains(cs[i]),
        forall|i: int| 0 <= i < cs.len() && cs[i].status is AlreadyExists ==> #[trigger] already_of(cs).contains(cs[i]),
        to_copy_of(cs).len() + already_of(cs).len() == cs.len(),
    decreases cs.len(),
{
    let keep = |c: CandidateView| !(c.status is AlreadyExists);
    let skip = |c: CandidateView| c.status is AlreadyExists;
    reveal_with_fuel(Seq::filter, 1);
    if cs.len() > 0 {
        law_split_by_presence(cs.drop_last());
    }
    assert(to_copy_of(cs) == cs.filter(keep));
    assert(already_of(cs) == cs.filter(skip));
    cs.filter_lemma(keep);
    cs.filter_lemma(skip);
}

} // verus!
