//! The catalog of drives and of the images indexed on them.
//!
//! Drives are keyed by their root path and images by their absolute path;
//! both get ids counting up from 1 that are never reused, removing a drive
//! removes its images, an image may only belong to a known drive, and
//! writing an image without a hash keeps the hash already recorded.
use vstd::prelude::*;
use crate::dates::Timestamp;
use crate::models::{DriveRecord, DriveView, ImageRecord, ImageView};
use crate::paths::opt_view;
use crate::text::str_eq;

verus! {

/// Why the catalog refused a change.
#[derive(Debug, Clone, Copy, PartialEq, Eq, Structural)]
pub enum DbError {
    /// Every id a new row could get is used up.
    IdSpaceExhausted,
    /// The image names a drive that is not in the catalog.
    UnknownDrive,
    /// Stored rows that are taken back would break the catalog's
    /// consistency (see [`valid`]).
    Inconsistent,
}

/// The content of the catalog.
pub struct DatabaseView {
    pub drives: Seq<DriveView>,
    pub images: Seq<ImageView>,
    /// The largest drive id ever handed out (0 before the first).
    pub last_drive_id: i64,
    /// The largest image id ever handed out (0 before the first).
    pub last_image_id: i64,
}

/// The id of an image row (stored rows always have one).
pub open spec fn row_id(im: ImageView) -> int {
    match im.id {
        Some(i) => i as int,
        None => -1,
    }
}

/// Whether some drive has id `id`.
pub open spec fn has_drive(drives: Seq<DriveView>, id: i64) -> bool {
    exists|i: int| 0 <= i < drives.len() && #[trigger] drives[i].id == id
}

/// The consistency of a catalog: ids count up in order and stay within what
/// was handed out, root paths and absolute paths are unique, and every image
/// belongs to a drive of the catalog.
pub open spec fn valid(v: DatabaseView) -> bool {
    &&& v.last_drive_id >= 0
    &&& v.last_image_id >= 0
    &&& forall|i: int, j: int|
        0 <= i < j < v.drives.len() ==> #[trigger] v.drives[i].id < #[trigger] v.drives[j].id
    &&& forall|i: int| 0 <= i < v.drives.len() ==> i < #[trigger] v.drives[i].id <= v.last_drive_id
    &&& forall|i: int, j: int|
        0 <= i < j < v.drives.len() ==> #[trigger] v.drives[i].root_path
            != #[trigger] v.drives[j].root_path
    &&& forall|i: int, j: int|
        0 <= i < j < v.images.len() ==> row_id(#[trigger] v.images[i]) < row_id(
            #[trigger] v.images[j],
        )
    &&& forall|i: int|
        0 <= i < v.images.len() ==> i < row_id(#[trigger] v.images[i]) <= v.last_image_id
    &&& forall|i: int, j: int|
        0 <= i < j < v.images.len() ==> #[trigger] v.images[i].absolute_path
            != #[trigger] v.images[j].absolute_path
    &&& forall|i: int|
        0 <= i < v.images.len() ==> has_drive(v.drives, #[trigger] v.images[i].drive_id)
}

/// The position of the drive with root path `root`, or -1.
pub open spec fn drive_index(drives: Seq<DriveView>, root: Seq<char>) -> int {
    if exists|i: int| 0 <= i < drives.len() && #[trigger] drives[i].root_path == root {
        choose|i: int| 0 <= i < drives.len() && #[trigger] drives[i].root_path == root
    } else {
        -1
    }
}

/// The position of the drive with id `id`, or -1.
pub open spec fn drive_id_index(drives: Seq<DriveView>, id: i64) -> int {
    if exists|i: int| 0 <= i < drives.len() && #[trigger] drives[i].id == id {
        choose|i: int| 0 <= i < drives.len() && #[trigger] drives[i].id == id
    } else {
        -1
    }
}

/// The position of the image with absolute path `path`, or -1.
pub open spec fn image_index(images: Seq<ImageView>, path: Seq<char>) -> int {
    if exists|i: int| 0 <= i < images.len() && #[trigger] images[i].absolute_path == path {
        choose|i: int| 0 <= i < images.len() && #[trigger] images[i].absolute_path == path
    } else {
        -1
    }
}

/// The catalog after writing drive `root` with label `label`, and the id of
/// its row: an existing drive keeps its id and gets the new label; a new
/// drive gets the next id, and has never been scanned.
pub open spec fn upsert_drive_outcome(v: DatabaseView, label: Seq<char>, root: Seq<char>) -> (
    DatabaseView,
    Result<i64, DbError>,
) {
    let k = drive_index(v.drives, root);
    if k >= 0 {
        (
            DatabaseView {
                drives: v.drives.update(
                    k,
                    DriveView {
                        id: v.drives[k].id,
                        label: label,
                        root_path: v.drives[k].root_path,
                        last_scanned_at: v.drives[k].last_scanned_at,
                    },
                ),
                images: v.images,
                last_drive_id: v.last_drive_id,
                last_image_id: v.last_image_id,
            },
            Ok(v.drives[k].id),
        )
    } else if v.last_drive_id == i64::MAX {
        (v, Err(DbError::IdSpaceExhausted))
    } else {
        let id = (v.last_drive_id + 1) as i64;
        (
            DatabaseView {
                drives: v.drives.push(
                    DriveView { id: id, label: label, root_path: root, last_scanned_at: None },
                ),
                images: v.images,
                last_drive_id: id,
                last_image_id: v.last_image_id,
            },
            Ok(id),
        )
    }
}

/// The images that do not belong to drive `id`, in their order.
pub open spec fn images_not_on(images: Seq<ImageView>, id: i64) -> Seq<ImageView>
    decreases images.len(),
{
    if images.len() == 0 {
        seq![]
    } else if images.last().drive_id != id {
        images_not_on(images.drop_last(), id).push(images.last())
    } else {
        images_not_on(images.drop_last(), id)
    }
}

/// The catalog after removing the drive with root path `root` and all its
/// images, and the number of drives removed.
pub open spec fn remove_drive_outcome(v: DatabaseView, root: Seq<char>) -> (DatabaseView, usize) {
    let k = drive_index(v.drives, root);
    if k >= 0 {
        (
            DatabaseView {
                drives: v.drives.remove(k),
                images: images_not_on(v.images, v.drives[k].id),
                last_drive_id: v.last_drive_id,
                last_image_id: v.last_image_id,
            },
            1,
        )
    } else {
        (v, 0)
    }
}

/// The catalog after recording `when` as the last scan of drive `id` (no
/// change when there is no such drive).
pub open spec fn mark_scanned_outcome(v: DatabaseView, id: i64, when: Timestamp) -> DatabaseView {
    let k = drive_id_index(v.drives, id);
    if k >= 0 {
        DatabaseView {
            drives: v.drives.update(
                k,
                DriveView {
                    id: v.drives[k].id,
                    label: v.drives[k].label,
                    root_path: v.drives[k].root_path,
                    last_scanned_at: Some(when),
                },
            ),
            images: v.images,
            last_drive_id: v.last_drive_id,
            last_image_id: v.last_image_id,
        }
    } else {
        v
    }
}

/// The stored row that writing `img` over `old` leaves: the id and path
/// stay, every other field is taken from `img`, except that a missing hash
/// keeps the recorded one.
pub open spec fn merged_image(old: ImageView, img: ImageView) -> ImageView {
    ImageView {
        id: old.id,
        drive_id: img.drive_id,
        filename: img.filename,
        relative_path: img.relative_path,
        absolute_path: old.absolute_path,
        file_size: img.file_size,
        capture_date: img.capture_date,
        file_mtime: img.file_mtime,
        blake3_hash: match img.blake3_hash {
            Some(h) => Some(h),
            None => old.blake3_hash,
        },
    }
}

/// The catalog after writing image `img`, and the id of its row: refused
/// when its drive is unknown; an image already recorded at the same
/// absolute path is updated in place; a new one gets the next id.
pub open spec fn upsert_image_outcome(v: DatabaseView, img: ImageView) -> (
    DatabaseView,
    Result<i64, DbError>,
) {
    if !has_drive(v.drives, img.drive_id) {
        (v, Err(DbError::UnknownDrive))
    } else {
        let k = image_index(v.images, img.absolute_path);
        if k >= 0 {
            (
                DatabaseView {
                    drives: v.drives,
                    images: v.images.update(k, merged_image(v.images[k], img)),
                    last_drive_id: v.last_drive_id,
                    last_image_id: v.last_image_id,
                },
                Ok(row_id(v.images[k]) as i64),
            )
        } else if v.last_image_id == i64::MAX {
            (v, Err(DbError::IdSpaceExhausted))
        } else {
            let id = (v.last_image_id + 1) as i64;
            (
                DatabaseView {
                    drives: v.drives,
                    images: v.images.push(
                        ImageView {
                            id: Some(id),
                            drive_id: img.drive_id,
                            filename: img.filename,
                            relative_path: img.relative_path,
                            absolute_path: img.absolute_path,
                            file_size: img.file_size,
                            capture_date: img.capture_date,
                            file_mtime: img.file_mtime,
                            blake3_hash: img.blake3_hash,
                        },
                    ),
                    last_drive_id: v.last_drive_id,
                    last_image_id: id,
                },
                Ok(id),
            )
        }
    }
}

/// The catalog after writing all of `imgs` in order as one transaction:
/// when any write is refused, nothing is written and its error is returned.
pub open spec fn batch_outcome(v: DatabaseView, imgs: Seq<ImageView>) -> (
    DatabaseView,
    Result<(), DbError>,
)
    decreases imgs.len(),
{
    if imgs.len() == 0 {
        (v, Ok(()))
    } else {
        let prev = batch_outcome(v, imgs.drop_last());
        match prev.1 {
            Err(e) => (v, Err(e)),
            Ok(_) => {
                let next = upsert_image_outcome(prev.0, imgs.last());
                match next.1 {
                    Err(e) => (v, Err(e)),
                    Ok(_) => (next.0, Ok(())),
                }
            },
        }
    }
}

/// The catalog after recording `hash` for the image at `path` (no change
/// when there is no such image).
pub open spec fn set_hash_outcome(v: DatabaseView, path: Seq<char>, hash: Seq<char>) -> DatabaseView {
    let k = image_index(v.images, path);
    if k >= 0 {
        let old = v.images[k];
        DatabaseView {
            drives: v.drives,
            images: v.images.update(
                k,
                ImageView {
                    id: old.id,
                    drive_id: old.drive_id,
                    filename: old.filename,
                    relative_path: old.relative_path,
                    absolute_path: old.absolute_path,
                    file_size: old.file_size,
                    capture_date: old.capture_date,
                    file_mtime: old.file_mtime,
                    blake3_hash: Some(hash),
                },
            ),
            last_drive_id: v.last_drive_id,
            last_image_id: v.last_image_id,
        }
    } else {
        v
    }
}

/// Absolute path, size and hash of every image called `name`, in id order.
pub open spec fn filename_matches(images: Seq<ImageView>, name: Seq<char>) -> Seq<
    (Seq<char>, u64, Option<Seq<char>>),
>
    decreases images.len(),
{
    if images.len() == 0 {
        seq![]
    } else if images.last().filename == name {
        filename_matches(images.drop_last(), name).push(
            (images.last().absolute_path, images.last().file_size, images.last().blake3_hash),
        )
    } else {
        filename_matches(images.drop_last(), name)
    }
}

/// The absolute path of the first image (in id order) whose hash is `hash`.
pub open spec fn first_path_with_hash(images: Seq<ImageView>, hash: Seq<char>) -> Option<Seq<char>>
    decreases images.len(),
{
    if images.len() == 0 {
        None
    } else {
        match first_path_with_hash(images.drop_last(), hash) {
            Some(p) => Some(p),
            None => if images.last().blake3_hash == Some(hash) {
                Some(images.last().absolute_path)
            } else {
                None
            },
        }
    }
}

/// Id and absolute path of every image without a hash, on drive `drive`
/// when one is given, in id order.
pub open spec fn missing_hash(images: Seq<ImageView>, drive: Option<i64>) -> Seq<(i64, Seq<char>)>
    decreases images.len(),
{
    if images.len() == 0 {
        seq![]
    } else if images.last().blake3_hash is None && (drive matches Some(d) ==> images.last().drive_id
        == d) {
        missing_hash(images.drop_last(), drive).push(
            (row_id(images.last()) as i64, images.last().absolute_path),
        )
    } else {
        missing_hash(images.drop_last(), drive)
    }
}

/// Id and absolute path of every image, on drive `drive` when one is
/// given, in id order.
pub open spec fn images_on(images: Seq<ImageView>, drive: Option<i64>) -> Seq<(i64, Seq<char>)>
    decreases images.len(),
{
    if images.len() == 0 {
        seq![]
    } else if drive matches Some(d) ==> images.last().drive_id == d {
        images_on(images.drop_last(), drive).push((row_id(images.last()) as i64, images.last().absolute_path))
    } else {
        images_on(images.drop_last(), drive)
    }
}

/// The views of a list of drives.
pub open spec fn drive_views(v: Seq<DriveRecord>) -> Seq<DriveView> {
    v.map_values(|d: DriveRecord| d@)
}

/// The views of a list of images.
pub open spec fn image_views(v: Seq<ImageRecord>) -> Seq<ImageView> {
    v.map_values(|m: ImageRecord| m@)
}

/// The views of the rows `find_by_filename` returns.
pub open spec fn match_views(v: Seq<(String, u64, Option<String>)>) -> Seq<
    (Seq<char>, u64, Option<Seq<char>>),
> {
    v.map_values(|t: (String, u64, Option<String>)| (t.0@, t.1, opt_view(t.2)))
}

/// The views of the rows `images_missing_hash` returns.
pub open spec fn missing_views(v: Seq<(i64, String)>) -> Seq<(i64, Seq<char>)> {
    v.map_values(|t: (i64, String)| (t.0, t.1@))
}


proof fn lemma_upsert_drive_valid(v: DatabaseView, label: Seq<char>, root: Seq<char>)
    requires
        valid(v),
    ensures
        valid(upsert_drive_outcome(v, label, root).0),
{
    let w = upsert_drive_outcome(v, label, root).0;
    let k = drive_index(v.drives, root);
    if k >= 0 {
        assert forall|i: int| 0 <= i < w.images.len() implies has_drive(w.drives, #[trigger] w.images[i].drive_id) by {
            let j = choose|j: int| 0 <= j < v.drives.len() && #[trigger] v.drives[j].id == v.images[i].drive_id;
            assert(w.drives[j].id == v.drives[j].id);
        }
    } else if v.last_drive_id != i64::MAX {
        if v.drives.len() > 0 {
            assert(v.drives[v.drives.len() - 1].id >= v.drives.len());
        }
        assert forall|i: int| 0 <= i < w.images.len() implies has_drive(w.drives, #[trigger] w.images[i].drive_id) by {
            let j = choose|j: int| 0 <= j < v.drives.len() && #[trigger] v.drives[j].id == v.images[i].drive_id;
            assert(w.drives[j].id == v.drives[j].id);
        }
        assert forall|i: int, j: int| 0 <= i < j < w.drives.len() implies #[trigger] w.drives[i].root_path
            != #[trigger] w.drives[j].root_path by {
            if j == v.drives.len() {
                assert(v.drives[i].root_path != root);
            }
        }
    }
}

/// Image rows whose ids count up, exceed their position and stay within
/// `last`, and whose absolute paths differ.
pub open spec fn images_ordered(images: Seq<ImageView>, last: i64) -> bool {
    &&& forall|i: int, j: int|
        0 <= i < j < images.len() ==> row_id(#[trigger] images[i]) < row_id(#[trigger] images[j])
    &&& forall|i: int| 0 <= i < images.len() ==> i < row_id(#[trigger] images[i]) <= last
    &&& forall|i: int, j: int|
        0 <= i < j < images.len() ==> #[trigger] images[i].absolute_path
            != #[trigger] images[j].absolute_path
}

proof fn lemma_images_not_on_members(images: Seq<ImageView>, id: i64)
    ensures
        images_not_on(images, id).len() <= images.len(),
        forall|i: int|
            0 <= i < images_not_on(images, id).len() ==> (#[trigger] images_not_on(images, id)[i]).drive_id
                != id && images.contains(images_not_on(images, id)[i]),
    decreases images.len(),
{
    if images.len() > 0 {
        let init = images.drop_last();
        lemma_images_not_on_members(init, id);
        let r0 = images_not_on(init, id);
        let r = images_not_on(images, id);
        assert forall|i: int| 0 <= i < r.len() implies (#[trigger] r[i]).drive_id != id && images.contains(r[i]) by {
            if i < r0.len() {
                assert(r[i] == r0[i]);
                assert(r0[i].drive_id != id && init.contains(r0[i]));
                let j = choose|j: int| 0 <= j < init.len() && init[j] == r0[i];
                assert(images[j] == init[j]);
            } else {
                assert(r[i] == images[images.len() - 1]);
            }
        }
    }
}

proof fn lemma_images_not_on_complete(images: Seq<ImageView>, id: i64)
    ensures
        forall|j: int|
            0 <= j < images.len() && (#[trigger] images[j]).drive_id != id ==> images_not_on(
                images,
                id,
            ).contains(images[j]),
    decreases images.len(),
{
    if images.len() > 0 {
        let init = images.drop_last();
        lemma_images_not_on_complete(init, id);
        let r0 = images_not_on(init, id);
        let r = images_not_on(images, id);
        assert forall|j: int| 0 <= j < images.len() && (#[trigger] images[j]).drive_id != id implies r.contains(images[j]) by {
            if j < images.len() - 1 {
                assert(init[j] == images[j]);
                assert(r0.contains(init[j]));
                let i = choose|i: int| 0 <= i < r0.len() && r0[i] == init[j];
                assert(r[i] == r0[i]);
            } else {
                assert(r[r.len() - 1] == images[j]);
            }
        }
    }
}

proof fn lemma_images_ordered_prefix(images: Seq<ImageView>, last: i64)
    requires
        images_ordered(images, last),
        images.len() > 0,
    ensures
        images_ordered(images.drop_last(), last),
        forall|i: int|
            0 <= i < images.len() - 1 ==> row_id(#[trigger] images.drop_last()[i]) < row_id(images.last())
                && images.drop_last()[i].absolute_path != images.last().absolute_path,
{
    let init = images.drop_last();
    assert forall|i: int| 0 <= i < init.len() implies init[i] == #[trigger] images[i] by {}
}

proof fn lemma_images_not_on_ordered(images: Seq<ImageView>, id: i64, last: i64)
    requires
        images_ordered(images, last),
    ensures
        images_ordered(images_not_on(images, id), last),
    decreases images.len(),
{
    if images.len() > 0 {
        let init = images.drop_last();
        lemma_images_ordered_prefix(images, last);
        lemma_images_not_on_ordered(init, id, last);
        lemma_images_not_on_members(init, id);
        let r0 = images_not_on(init, id);
        let r = images_not_on(images, id);
        let x = images.last();
        if x.drive_id != id {
            assert forall|i: int| 0 <= i < r0.len() implies row_id(#[trigger] r0[i]) < row_id(x)
                && r0[i].absolute_path != x.absolute_path by {
                assert(init.contains(r0[i]));
                let j = choose|j: int| 0 <= j < init.len() && init[j] == r0[i];
                assert(row_id(init[j]) < row_id(x));
            }
            assert(row_id(x) > images.len() - 1);
            assert forall|i: int, j: int| 0 <= i < j < r.len() implies row_id(#[trigger] r[i]) < row_id(#[trigger] r[j])
                && r[i].absolute_path != r[j].absolute_path by {
                assert(r[i] == r0[i]);
                if j < r.len() - 1 {
                    assert(r[j] == r0[j]);
                }
            }
            assert forall|i: int| 0 <= i < r.len() implies i < row_id(#[trigger] r[i]) <= last by {
                if i < r.len() - 1 {
                    assert(r[i] == r0[i]);
                }
            }
        }
    }
}

proof fn lemma_remove_drive_valid(v: DatabaseView, root: Seq<char>)
    requires
        valid(v),
    ensures
        valid(remove_drive_outcome(v, root).0),
{
    let k = drive_index(v.drives, root);
    if k >= 0 {
        let w = remove_drive_outcome(v, root).0;
        let id = v.drives[k].id;
        lemma_images_not_on_ordered(v.images, id, v.last_image_id);
        lemma_images_not_on_members(v.images, id);
        assert forall|i: int, j: int| 0 <= i < j < w.drives.len() implies #[trigger] w.drives[i].id < #[trigger] w.drives[j].id
            && w.drives[i].root_path != w.drives[j].root_path by {
            let a = if i < k { i } else { i + 1 };
            let b = if j < k { j } else { j + 1 };
            assert(w.drives[i] == v.drives[a] && w.drives[j] == v.drives[b]);
        }
        assert forall|i: int| 0 <= i < w.drives.len() implies i < #[trigger] w.drives[i].id <= w.last_drive_id by {
            let a = if i < k { i } else { i + 1 };
            assert(w.drives[i] == v.drives[a]);
        }
        assert forall|i: int| 0 <= i < w.images.len() implies has_drive(w.drives, #[trigger] w.images[i].drive_id) by {
            let r = images_not_on(v.images, id);
            assert(w.images == r);
            assert(r[i].drive_id != id && v.images.contains(r[i]));
            let j = choose|j: int| 0 <= j < v.images.len() && v.images[j] == r[i];
            let m = choose|m: int| 0 <= m < v.drives.len() && #[trigger] v.drives[m].id == v.images[j].drive_id;
            assert(m != k);
            let n = if m < k { m } else { m - 1 };
            assert(w.drives[n] == v.drives[m]);
        }
    }
}

proof fn lemma_upsert_image_valid(v: DatabaseView, img: ImageView)
    requires
        valid(v),
    ensures
        valid(upsert_image_outcome(v, img).0),
{
    let w = upsert_image_outcome(v, img).0;
    if has_drive(v.drives, img.drive_id) {
        let k = image_index(v.images, img.absolute_path);
        if k >= 0 {
            assert forall|i: int| 0 <= i < w.images.len() implies has_drive(w.drives, #[trigger] w.images[i].drive_id) by {
                if i != k {
                    assert(w.images[i] == v.images[i]);
                }
            }
            assert forall|i: int, j: int| 0 <= i < j < w.images.len() implies row_id(#[trigger] w.images[i]) < row_id(#[trigger] w.images[j])
                && w.images[i].absolute_path != w.images[j].absolute_path by {
                assert(row_id(w.images[i]) == row_id(v.images[i]));
                assert(row_id(w.images[j]) == row_id(v.images[j]));
                assert(w.images[i].absolute_path == v.images[i].absolute_path);
                assert(w.images[j].absolute_path == v.images[j].absolute_path);
            }
            assert forall|i: int| 0 <= i < w.images.len() implies i < row_id(#[trigger] w.images[i]) <= w.last_image_id by {
                assert(row_id(w.images[i]) == row_id(v.images[i]));
            }
        } else if v.last_image_id != i64::MAX {
            if v.images.len() > 0 {
                assert(row_id(v.images[v.images.len() - 1]) >= v.images.len());
            }
            assert forall|i: int| 0 <= i < w.images.len() implies has_drive(w.drives, #[trigger] w.images[i].drive_id) by {
                if i < v.images.len() {
                    assert(w.images[i] == v.images[i]);
                }
            }
            assert forall|i: int, j: int| 0 <= i < j < w.images.len() implies row_id(#[trigger] w.images[i]) < row_id(#[trigger] w.images[j])
                && w.images[i].absolute_path != w.images[j].absolute_path by {
                assert(w.images[i] == v.images[i]);
                if j < v.images.len() {
                    assert(w.images[j] == v.images[j]);
                }
            }
        }
    }
}

proof fn lemma_set_hash_valid(v: DatabaseView, path: Seq<char>, hash: Seq<char>)
    requires
        valid(v),
    ensures
        valid(set_hash_outcome(v, path, hash)),
{
    let w = set_hash_outcome(v, path, hash);
    let k = image_index(v.images, path);
    if k >= 0 {
        assert forall|i: int| 0 <= i < w.images.len() implies has_drive(w.drives, #[trigger] w.images[i].drive_id) by {
            assert(w.images[i].drive_id == v.images[i].drive_id);
        }
        assert forall|i: int, j: int| 0 <= i < j < w.images.len() implies row_id(#[trigger] w.images[i]) < row_id(#[trigger] w.images[j])
            && w.images[i].absolute_path != w.images[j].absolute_path by {
            assert(row_id(w.images[i]) == row_id(v.images[i]));
            assert(row_id(w.images[j]) == row_id(v.images[j]));
            assert(w.images[i].absolute_path == v.images[i].absolute_path);
            assert(w.images[j].absolute_path == v.images[j].absolute_path);
        }
        assert forall|i: int| 0 <= i < w.images.len() implies i < row_id(#[trigger] w.images[i]) <= w.last_image_id by {
            assert(row_id(w.images[i]) == row_id(v.images[i]));
        }
    }
}

proof fn lemma_first_path_extends(images: Seq<ImageView>, n: int, hash: Seq<char>)
    requires
        0 < n <= images.len(),
        first_path_with_hash(images.take(n - 1), hash) is None,
        images[n - 1].blake3_hash == Some(hash),
    ensures
        first_path_with_hash(images, hash) == Some(images[n - 1].absolute_path),
    decreases images.len() - n,
{
    assert(images.take(n).drop_last() =~= images.take(n - 1));
    assert(first_path_with_hash(images.take(n), hash) == Some(images[n - 1].absolute_path));
    if n < images.len() {
        lemma_first_path_keeps(images, n, hash);
    } else {
        assert(images.take(n) =~= images);
    }
}

proof fn lemma_first_path_keeps(images: Seq<ImageView>, n: int, hash: Seq<char>)
    requires
        0 <= n <= images.len(),
        first_path_with_hash(images.take(n), hash) is Some,
    ensures
        first_path_with_hash(images, hash) == first_path_with_hash(images.take(n), hash),
    decreases images.len() - n,
{
    if n < images.len() {
        assert(images.take(n + 1).drop_last() =~= images.take(n));
        lemma_first_path_keeps(images, n + 1, hash);
    } else {
        assert(images.take(n) =~= images);
    }
}

proof fn lemma_batch_error_sticks(v: DatabaseView, imgs: Seq<ImageView>, n: int, e: DbError)
    requires
        0 <= n <= imgs.len(),
        batch_outcome(v, imgs.take(n)) == (v, Err::<(), DbError>(e)),
    ensures
        batch_outcome(v, imgs) == (v, Err::<(), DbError>(e)),
    decreases imgs.len() - n,
{
    if n < imgs.len() {
        assert(imgs.take(n + 1).drop_last() =~= imgs.take(n));
        lemma_batch_error_sticks(v, imgs, n + 1, e);
    } else {
        assert(imgs.take(n) =~= imgs);
    }
}

/// The catalog of drives and indexed images.
pub struct Database {
    drives: Vec<DriveRecord>,
    images: Vec<ImageRecord>,
    last_drive_id: i64,
    last_image_id: i64,
}

impl View for Database {
    type V = DatabaseView;

    closed spec fn view(&self) -> DatabaseView {
        DatabaseView {
            drives: drive_views(self.drives@),
            images: image_views(self.images@),
            last_drive_id: self.last_drive_id,
            last_image_id: self.last_image_id,
        }
    }
}

impl Database {
    /// Whether the catalog is consistent (see [`valid`]).
    pub open spec fn wf(&self) -> bool {
        valid(self@)
    }

    /// An empty catalog.
    pub fn new() -> (res: Database)
        ensures
            res.wf(),
            res@.drives.len() == 0,
            res@.images.len() == 0,
            res@.last_drive_id == 0,
            res@.last_image_id == 0,
    {
        let db = Database { drives: Vec::new(), images: Vec::new(), last_drive_id: 0, last_image_id: 0 };
        assert(db@.drives =~= Seq::<DriveView>::empty());
        assert(db@.images =~= Seq::<ImageView>::empty());
        db
    }

    /// An empty catalog held in memory.
    pub fn open_in_memory() -> (res: Result<Database, DbError>)
        ensures
            res matches Ok(db) && db.wf() && db@.drives.len() == 0 && db@.images.len() == 0
                && db@.last_drive_id == 0 && db@.last_image_id == 0,
    {
        Ok(Database::new())
    }

    /// Position of the drive with root path `root`.
    fn find_drive_index(&self, root: &str) -> (res: Option<usize>)
        requires
            self.wf(),
        ensures
            match res {
                Some(k) => k as int == drive_index(self@.drives, root@) && k < self@.drives.len(),
                None => drive_index(self@.drives, root@) == -1,
            },
    {
        let mut i: usize = 0;
        while i < self.drives.len()
            invariant
                self.wf(),
                i <= self.drives.len(),
                self@.drives.len() == self.drives.len(),
                forall|j: int| 0 <= j < i ==> #[trigger] self@.drives[j].root_path != root@,
            decreases self.drives.len() - i,
        {
            assert(self@.drives[i as int] == self.drives@[i as int]@);
            if str_eq(self.drives[i].root_path.as_str(), root) {
                assert(self@.drives[i as int].root_path == root@);
                return Some(i);
            }
            i = i + 1;
        }
        None
    }
    /// Inserts or updates the drive at `root_path`, returning its id.
    pub fn upsert_drive(&mut self, label: &str, root_path: &str) -> (res: Result<i64, DbError>)
        requires
            old(self).wf(),
        ensures
            final(self).wf(),
            (final(self)@, res) == upsert_drive_outcome(old(self)@, label@, root_path@),
    {
        proof {
            lemma_upsert_drive_valid(self@, label@, root_path@);
        }
        let ghost before = self@;
        match self.find_drive_index(root_path) {
            Some(k) => {
                let id = self.drives[k].id;
                let new_label = label.to_owned();
                self.drives[k].label = new_label;
                proof {
                    assert(self@.drives =~= upsert_drive_outcome(before, label@, root_path@).0.drives);
                }
                Ok(id)
            },
            None => {
                if self.last_drive_id == i64::MAX {
                    return Err(DbError::IdSpaceExhausted);
                }
                let id = self.last_drive_id + 1;
                self.drives.push(
                    DriveRecord {
                        id,
                        label: label.to_owned(),
                        root_path: root_path.to_owned(),
                        last_scanned_at: None,
                    },
                );
                self.last_drive_id = id;
                proof {
                    assert(self@.drives =~= upsert_drive_outcome(before, label@, root_path@).0.drives);
                }
                Ok(id)
            },
        }
    }
    /// A copy of the drive at position `k`.
    fn drive_copy(&self, k: usize) -> (res: DriveRecord)
        requires
            k < self@.drives.len(),
        ensures
            res@ == self@.drives[k as int],
    {
        assert(self@.drives[k as int] == self.drives@[k as int]@);
        self.drives[k].duplicate()
    }

    /// The drive whose root path is `root_path`, if any.
    pub fn find_drive_by_path(&self, root_path: &str) -> (res: Result<Option<DriveRecord>, DbError>)
        requires
            self.wf(),
        ensures
            res matches Ok(found) && match found {
                Some(d) => drive_index(self@.drives, root_path@) >= 0 && d@ == self@.drives[drive_index(
                    self@.drives,
                    root_path@,
                )],
                None => drive_index(self@.drives, root_path@) == -1,
            },
    {
        match self.find_drive_index(root_path) {
            Some(k) => Ok(Some(self.drive_copy(k))),
            None => Ok(None),
        }
    }

    /// All drives, in id order.
    pub fn list_drives(&self) -> (res: Result<Vec<DriveRecord>, DbError>)
        requires
            self.wf(),
        ensures
            res matches Ok(drives) && drive_views(drives@) == self@.drives,
    {
        let mut res: Vec<DriveRecord> = Vec::new();
        let mut i: usize = 0;
        while i < self.drives.len()
            invariant
                i <= self.drives.len(),
                self@.drives.len() == self.drives.len(),
                res.len() == i,
                forall|j: int| 0 <= j < i ==> #[trigger] res@[j]@ == self@.drives[j],
            decreases self.drives.len() - i,
        {
            res.push(self.drive_copy(i));
            i = i + 1;
        }
        assert(drive_views(res@) =~= self@.drives);
        Ok(res)
    }

    /// Position of the drive with id `id`.
    fn find_drive_id_index(&self, id: i64) -> (res: Option<usize>)
        requires
            self.wf(),
        ensures
            match res {
                Some(k) => k as int == drive_id_index(self@.drives, id) && k < self@.drives.len(),
                None => drive_id_index(self@.drives, id) == -1 && !has_drive(self@.drives, id),
            },
    {
        let mut i: usize = 0;
        while i < self.drives.len()
            invariant
                self.wf(),
                i <= self.drives.len(),
                self@.drives.len() == self.drives.len(),
                forall|j: int| 0 <= j < i ==> #[trigger] self@.drives[j].id != id,
            decreases self.drives.len() - i,
        {
            assert(self@.drives[i as int] == self.drives@[i as int]@);
            if self.drives[i].id == id {
                proof {
                    assert(self@.drives[i as int].id == id);
                    let c = choose|j: int| 0 <= j < self@.drives.len() && #[trigger] self@.drives[j].id == id;
                    if c < i {
                    } else if c > i {
                        assert(self@.drives[i as int].id < self@.drives[c].id);
                    }
                }
                return Some(i);
            }
            i = i + 1;
        }
        None
    }

    /// Records `when` as the last scan of drive `drive_id`.
    pub fn update_drive_scanned_at(&mut self, drive_id: i64, when: Timestamp) -> (res: Result<(), DbError>)
        requires
            old(self).wf(),
        ensures
            final(self).wf(),
            final(self)@ == mark_scanned_outcome(old(self)@, drive_id, when),
            res is Ok,
    {
        let ghost before = self@;
        match self.find_drive_id_index(drive_id) {
            Some(k) => {
                self.drives[k].last_scanned_at = Some(when);
                proof {
                    assert(self@.drives =~= mark_scanned_outcome(before, drive_id, when).drives);
                    let w = self@;
                    assert forall|i: int| 0 <= i < w.images.len() implies has_drive(w.drives, #[trigger] w.images[i].drive_id) by {
                        let j = choose|j: int| 0 <= j < before.drives.len() && #[trigger] before.drives[j].id == before.images[i].drive_id;
                        assert(w.drives[j].id == before.drives[j].id);
                    }
                }
                Ok(())
            },
            None => Ok(()),
        }
    }

    /// Removes the drive at `root_path` together with all its images,
    /// returning how many drives were removed (0 or 1).
    pub fn remove_drive_by_path(&mut self, root_path: &str) -> (res: Result<usize, DbError>)
        requires
            old(self).wf(),
        ensures
            final(self).wf(),
            res matches Ok(n) && (final(self)@, n) == remove_drive_outcome(old(self)@, root_path@),
    {
        proof {
            lemma_remove_drive_valid(self@, root_path@);
        }
        let ghost before = self@;
        match self.find_drive_index(root_path) {
            None => Ok(0),
            Some(k) => {
                assert(self@.drives[k as int] == self.drives@[k as int]@);
                let id = self.drives[k].id;
                let mut kept: Vec<ImageRecord> = Vec::new();
                let mut i: usize = 0;
                assert(image_views(self.images@).take(0) =~= Seq::<ImageView>::empty());
                while i < self.images.len()
                    invariant
                        i <= self.images.len(),
                        self@ == before,
                        image_views(kept@) == images_not_on(image_views(self.images@).take(i as int), id),
                    decreases self.images.len() - i,
                {
                    let ghost prefix = image_views(self.images@).take(i + 1);
                    assert(prefix.drop_last() =~= image_views(self.images@).take(i as int));
                    assert(prefix.last() == self.images@[i as int]@);
                    if self.images[i].drive_id != id {
                        kept.push(self.images[i].duplicate());
                        assert(image_views(kept@) =~= images_not_on(prefix, id));
                    }
                    i = i + 1;
                }
                assert(image_views(self.images@).take(self.images.len() as int) =~= image_views(self.images@));
                self.images = kept;
                self.drives.remove(k);
                proof {
                    assert(self@.drives =~= remove_drive_outcome(before, root_path@).0.drives);
                }
                Ok(1)
            },
        }
    }
    /// Position of the image with absolute path `path`.
    fn find_image_index(&self, path: &str) -> (res: Option<usize>)
        requires
            self.wf(),
        ensures
            match res {
                Some(k) => k as int == image_index(self@.images, path@) && k < self@.images.len(),
                None => image_index(self@.images, path@) == -1,
            },
    {
        let mut i: usize = 0;
        while i < self.images.len()
            invariant
                self.wf(),
                i <= self.images.len(),
                self@.images.len() == self.images.len(),
                forall|j: int| 0 <= j < i ==> #[trigger] self@.images[j].absolute_path != path@,
            decreases self.images.len() - i,
        {
            assert(self@.images[i as int] == self.images@[i as int]@);
            if str_eq(self.images[i].absolute_path.as_str(), path) {
                assert(self@.images[i as int].absolute_path == path@);
                return Some(i);
            }
            i = i + 1;
        }
        None
    }

    /// Inserts the image, or updates the one recorded at the same absolute
    /// path (keeping its hash when `img` has none); returns the row id.
    pub fn upsert_image(&mut self, img: &ImageRecord) -> (res: Result<i64, DbError>)
        requires
            old(self).wf(),
        ensures
            final(self).wf(),
            (final(self)@, res) == upsert_image_outcome(old(self)@, img@),
    {
        proof {
            lemma_upsert_image_valid(self@, img@);
        }
        let ghost before = self@;
        if self.find_drive_id_index(img.drive_id).is_none() {
            return Err(DbError::UnknownDrive);
        }
        match self.find_image_index(img.absolute_path.as_str()) {
            Some(k) => {
                assert(self@.images[k as int] == self.images@[k as int]@);
                let old_id = self.images[k].id;
                let old_path = self.images[k].absolute_path.clone();
                let hash = match &img.blake3_hash {
                    Some(h) => Some(h.clone()),
                    None => crate::models::clone_opt_string(&self.images[k].blake3_hash),
                };
                let merged = ImageRecord {
                    id: old_id,
                    drive_id: img.drive_id,
                    filename: img.filename.clone(),
                    relative_path: img.relative_path.clone(),
                    absolute_path: old_path,
                    file_size: img.file_size,
                    capture_date: img.capture_date,
                    file_mtime: img.file_mtime,
                    blake3_hash: hash,
                };
                assert(merged@ == merged_image(before.images[k as int], img@));
                self.images[k] = merged;
                proof {
                    assert(self@.images =~= upsert_image_outcome(before, img@).0.images);
                }
                match old_id {
                    Some(id) => Ok(id),
                    None => Ok(-1),
                }
            },
            None => {
                if self.last_image_id == i64::MAX {
                    return Err(DbError::IdSpaceExhausted);
                }
                let id = self.last_image_id + 1;
                let row = ImageRecord {
                    id: Some(id),
                    drive_id: img.drive_id,
                    filename: img.filename.clone(),
                    relative_path: img.relative_path.clone(),
                    absolute_path: img.absolute_path.clone(),
                    file_size: img.file_size,
                    capture_date: img.capture_date,
                    file_mtime: img.file_mtime,
                    blake3_hash: crate::models::clone_opt_string(&img.blake3_hash),
                };
                self.images.push(row);
                self.last_image_id = id;
                proof {
                    assert(self@.images =~= upsert_image_outcome(before, img@).0.images);
                }
                Ok(id)
            },
        }
    }

    /// Records `hash` for the image at `absolute_path`.
    pub fn update_hash(&mut self, absolute_path: &str, hash: &str) -> (res: Result<(), DbError>)
        requires
            old(self).wf(),
        ensures
            final(self).wf(),
            final(self)@ == set_hash_outcome(old(self)@, absolute_path@, hash@),
            res is Ok,
    {
        proof {
            lemma_set_hash_valid(self@, absolute_path@, hash@);
        }
        let ghost before = self@;
        match self.find_image_index(absolute_path) {
            Some(k) => {
                self.images[k].blake3_hash = Some(hash.to_owned());
                proof {
                    assert(self@.images =~= set_hash_outcome(before, absolute_path@, hash@).images);
                }
                Ok(())
            },
            None => Ok(()),
        }
    }

    /// Absolute path, size and hash of every image named `filename`.
    pub fn find_by_filename(&self, filename: &str) -> (res: Result<Vec<(String, u64, Option<String>)>, DbError>)
        requires
            self.wf(),
        ensures
            res matches Ok(rows) && match_views(rows@) == filename_matches(self@.images, filename@),
    {
        let mut rows: Vec<(String, u64, Option<String>)> = Vec::new();
        let mut i: usize = 0;
        assert(self@.images.take(0) =~= Seq::<ImageView>::empty());
        while i < self.images.len()
            invariant
                i <= self.images.len(),
                self@.images.len() == self.images.len(),
                match_views(rows@) == filename_matches(self@.images.take(i as int), filename@),
            decreases self.images.len() - i,
        {
            let ghost prefix = self@.images.take(i + 1);
            assert(prefix.drop_last() =~= self@.images.take(i as int));
            assert(prefix.last() == self.images@[i as int]@);
            if str_eq(self.images[i].filename.as_str(), filename) {
                let im = &self.images[i];
                rows.push((im.absolute_path.clone(), im.file_size, crate::models::clone_opt_string(&im.blake3_hash)));
                assert(match_views(rows@) =~= filename_matches(prefix, filename@));
            }
            i = i + 1;
        }
        assert(self@.images.take(self.images.len() as int) =~= self@.images);
        Ok(rows)
    }

    /// The absolute path of an image whose hash is `hash` (the first in id
    /// order), if any.
    pub fn find_by_hash(&self, hash: &str) -> (res: Result<Option<String>, DbError>)
        requires
            self.wf(),
        ensures
            res matches Ok(found) && opt_view(found) == first_path_with_hash(self@.images, hash@),
    {
        let mut i: usize = 0;
        assert(self@.images.take(0) =~= Seq::<ImageView>::empty());
        while i < self.images.len()
            invariant
                i <= self.images.len(),
                self@.images.len() == self.images.len(),
                first_path_with_hash(self@.images.take(i as int), hash@) is None,
            decreases self.images.len() - i,
        {
            let ghost prefix = self@.images.take(i + 1);
            assert(prefix.drop_last() =~= self@.images.take(i as int));
            assert(prefix.last() == self.images@[i as int]@);
            let matched = match &self.images[i].blake3_hash {
                Some(h) => str_eq(h.as_str(), hash),
                None => false,
            };
            if matched {
                proof {
                    lemma_first_path_extends(self@.images, i as int + 1, hash@);
                }
                return Ok(Some(self.images[i].absolute_path.clone()));
            }
            i = i + 1;
        }
        assert(self@.images.take(self.images.len() as int) =~= self@.images);
        Ok(None)
    }

    /// Id and absolute path of every image without a hash, on drive
    /// `drive_id` when one is given.
    pub fn images_missing_hash(&self, drive_id: Option<i64>) -> (res: Result<Vec<(i64, String)>, DbError>)
        requires
            self.wf(),
        ensures
            res matches Ok(rows) && missing_views(rows@) == missing_hash(self@.images, drive_id),
    {
        let mut rows: Vec<(i64, String)> = Vec::new();
        let mut i: usize = 0;
        assert(self@.images.take(0) =~= Seq::<ImageView>::empty());
        while i < self.images.len()
            invariant
                self.wf(),
                i <= self.images.len(),
                self@.images.len() == self.images.len(),
                missing_views(rows@) == missing_hash(self@.images.take(i as int), drive_id),
            decreases self.images.len() - i,
        {
            let ghost prefix = self@.images.take(i + 1);
            assert(prefix.drop_last() =~= self@.images.take(i as int));
            assert(prefix.last() == self.images@[i as int]@);
            let im = &self.images[i];
            let on_drive = match drive_id {
                Some(d) => im.drive_id == d,
                None => true,
            };
            if im.blake3_hash.is_none() && on_drive {
                let id = match im.id {
                    Some(x) => x,
                    None => -1,
                };
                rows.push((id, im.absolute_path.clone()));
                assert(missing_views(rows@) =~= missing_hash(prefix, drive_id));
            }
            i = i + 1;
        }
        assert(self@.images.take(self.images.len() as int) =~= self@.images);
        Ok(rows)
    }

    /// Id and absolute path of every image, on drive `drive_id` when one is
    /// given.
    pub fn images_on_drive(&self, drive_id: Option<i64>) -> (res: Result<Vec<(i64, String)>, DbError>)
        requires
            self.wf(),
        ensures
            res matches Ok(rows) && missing_views(rows@) == images_on(self@.images, drive_id),
    {
        let mut rows: Vec<(i64, String)> = Vec::new();
        let mut i: usize = 0;
        assert(self@.images.take(0) =~= Seq::<ImageView>::empty());
        while i < self.images.len()
            invariant
                self.wf(),
                i <= self.images.len(),
                self@.images.len() == self.images.len(),
                missing_views(rows@) == images_on(self@.images.take(i as int), drive_id),
            decreases self.images.len() - i,
        {
            let ghost prefix = self@.images.take(i + 1);
            assert(prefix.drop_last() =~= self@.images.take(i as int));
            assert(prefix.last() == self.images@[i as int]@);
            let im = &self.images[i];
            let on_drive = match drive_id {
                Some(d) => im.drive_id == d,
                None => true,
            };
            if on_drive {
                let id = match im.id {
                    Some(x) => x,
                    None => -1,
                };
                rows.push((id, im.absolute_path.clone()));
                assert(missing_views(rows@) =~= images_on(prefix, drive_id));
            }
            i = i + 1;
        }
        assert(self@.images.take(self.images.len() as int) =~= self@.images);
        Ok(rows)
    }

    /// Number of indexed images.
    pub fn image_count_pub(&self) -> (res: Result<i64, DbError>)
        requires
            self.wf(),
        ensures
            res matches Ok(n) && n == self@.images.len(),
    {
        if self.images.len() > 0 {
            assert(row_id(self@.images[self@.images.len() - 1]) >= self@.images.len());
        }
        Ok(self.images.len() as i64)
    }

    /// Number of indexed images.
    pub fn image_count(&self) -> (res: Result<i64, DbError>)
        requires
            self.wf(),
        ensures
            res matches Ok(n) && n == self@.images.len(),
    {
        self.image_count_pub()
    }
    /// A copy of the catalog.
    pub fn duplicate(&self) -> (res: Database)
        requires
            self.wf(),
        ensures
            res.wf(),
            res@ == self@,
    {
        let mut drives: Vec<DriveRecord> = Vec::new();
        let mut i: usize = 0;
        while i < self.drives.len()
            invariant
                i <= self.drives.len(),
                drives.len() == i,
                forall|j: int| 0 <= j < i ==> #[trigger] drives@[j]@ == self.drives@[j]@,
            decreases self.drives.len() - i,
        {
            drives.push(self.drives[i].duplicate());
            i = i + 1;
        }
        let mut images: Vec<ImageRecord> = Vec::new();
        let mut i: usize = 0;
        while i < self.images.len()
            invariant
                i <= self.images.len(),
                images.len() == i,
                forall|j: int| 0 <= j < i ==> #[trigger] images@[j]@ == self.images@[j]@,
            decreases self.images.len() - i,
        {
            images.push(self.images[i].duplicate());
            i = i + 1;
        }
        let res = Database { drives, images, last_drive_id: self.last_drive_id, last_image_id: self.last_image_id };
        assert(res@.drives =~= self@.drives);
        assert(res@.images =~= self@.images);
        res
    }

    /// Writes all `images` in order as one transaction: either every write
    /// is made, or none is and the first refusal is returned.
    pub fn upsert_images_batch(&mut self, images: &[ImageRecord]) -> (res: Result<(), DbError>)
        requires
            old(self).wf(),
        ensures
            final(self).wf(),
            (final(self)@, res) == batch_outcome(old(self)@, image_views(images@)),
    {
        let ghost v = self@;
        let ghost imgs = image_views(images@);
        let mut work = self.duplicate();
        let mut i: usize = 0;
        assert(imgs.take(0) =~= Seq::<ImageView>::empty());
        while i < images.len()
            invariant
                i <= images.len(),
                imgs == image_views(images@),
                self@ == v,
                self.wf(),
                work.wf(),
                batch_outcome(v, imgs.take(i as int)) == (work@, Ok::<(), DbError>(())),
            decreases images.len() - i,
        {
            assert(imgs.take(i + 1).drop_last() =~= imgs.take(i as int));
            assert(imgs.take(i + 1).last() == images@[i as int]@);
            match work.upsert_image(&images[i]) {
                Ok(_) => {},
                Err(e) => {
                    proof {
                        lemma_batch_error_sticks(v, imgs, i + 1, e);
                    }
                    return Err(e);
                },
            }
            i = i + 1;
        }
        assert(imgs.take(images.len() as int) =~= imgs);
        *self = work;
        Ok(())
    }
}

/// The catalog after taking back drive row `d` as it was stored: it keeps
/// its id, label, root path and last scan, and its id becomes the largest
/// handed out. Refused, with nothing changed, when its id is not above every
/// drive id handed out so far or its root path is already known.
pub open spec fn restore_drive_outcome(v: DatabaseView, d: DriveView) -> (DatabaseView, Result<(), DbError>) {
    if d.id > v.last_drive_id && drive_index(v.drives, d.root_path) == -1 {
        (DatabaseView { drives: v.drives.push(d), last_drive_id: d.id, ..v }, Ok(()))
    } else {
        (v, Err(DbError::Inconsistent))
    }
}

/// The catalog after taking back image row `im` as it was stored: it keeps
/// all its fields, id included, and its id becomes the largest handed out.
/// Refused, with nothing changed, when it has no id, its id is not above
/// every image id handed out so far, its absolute path is already known, or
/// its drive is not in the catalog.
pub open spec fn restore_image_outcome(v: DatabaseView, im: ImageView) -> (DatabaseView, Result<(), DbError>) {
    match im.id {
        Some(id) => if id > v.last_image_id && image_index(v.images, im.absolute_path) == -1
            && has_drive(v.drives, im.drive_id) {
            (DatabaseView { images: v.images.push(im), last_image_id: id, ..v }, Ok(()))
        } else {
            (v, Err(DbError::Inconsistent))
        },
        None => (v, Err(DbError::Inconsistent)),
    }
}

/// The catalog after taking back the largest ids ever handed out: refused,
/// with nothing changed, when either is below the one the catalog has.
pub open spec fn restore_counters_outcome(v: DatabaseView, last_drive_id: i64, last_image_id: i64) -> (
    DatabaseView,
    Result<(), DbError>,
) {
    if last_drive_id >= v.last_drive_id && last_image_id >= v.last_image_id {
        (DatabaseView { last_drive_id: last_drive_id, last_image_id: last_image_id, ..v }, Ok(()))
    } else {
        (v, Err(DbError::Inconsistent))
    }
}

impl Database {
    /// Takes back a stored drive row (see [`restore_drive_outcome`]).
    pub fn restore_drive(&mut self, d: DriveRecord) -> (res: Result<(), DbError>)
        requires
            old(self).wf(),
        ensures
            final(self).wf(),
            (final(self)@, res) == restore_drive_outcome(old(self)@, d@),
    {
        let ghost before = self@;
        if d.id <= self.last_drive_id {
            return Err(DbError::Inconsistent);
        }
        if self.find_drive_index(d.root_path.as_str()).is_some() {
            return Err(DbError::Inconsistent);
        }
        let id = d.id;
        self.drives.push(d);
        self.last_drive_id = id;
        proof {
            assert(self@.drives =~= before.drives.push(d@));
            let w = self@;
            let n = before.drives.len() as int;
            if n > 0 {
                assert(before.drives[n - 1].id <= before.last_drive_id);
            }
            assert forall|i: int| 0 <= i < w.images.len() implies has_drive(w.drives, #[trigger] w.images[i].drive_id) by {
                let j = choose|j: int| 0 <= j < before.drives.len() && #[trigger] before.drives[j].id == before.images[i].drive_id;
                assert(w.drives[j].id == before.drives[j].id);
            }
        }
        Ok(())
    }

    /// Takes back a stored image row (see [`restore_image_outcome`]).
    pub fn restore_image(&mut self, im: ImageRecord) -> (res: Result<(), DbError>)
        requires
            old(self).wf(),
        ensures
            final(self).wf(),
            (final(self)@, res) == restore_image_outcome(old(self)@, im@),
    {
        let ghost before = self@;
        let id = match im.id {
            Some(i) => i,
            None => {
                return Err(DbError::Inconsistent);
            },
        };
        if id <= self.last_image_id {
            return Err(DbError::Inconsistent);
        }
        if self.find_image_index(im.absolute_path.as_str()).is_some() {
            return Err(DbError::Inconsistent);
        }
        if self.find_drive_id_index(im.drive_id).is_none() {
            return Err(DbError::Inconsistent);
        }
        self.images.push(im);
        self.last_image_id = id;
        proof {
            assert(self@.images =~= before.images.push(im@));
            let n = before.images.len() as int;
            if n > 0 {
                assert(row_id(before.images[n - 1]) <= before.last_image_id);
            }
        }
        Ok(())
    }

    /// Takes back the largest ids ever handed out (see
    /// [`restore_counters_outcome`]).
    pub fn restore_counters(&mut self, last_drive_id: i64, last_image_id: i64) -> (res: Result<(), DbError>)
        requires
            old(self).wf(),
        ensures
            final(self).wf(),
            (final(self)@, res) == restore_counters_outcome(old(self)@, last_drive_id, last_image_id),
    {
        if last_drive_id < self.last_drive_id || last_image_id < self.last_image_id {
            return Err(DbError::Inconsistent);
        }
        self.last_drive_id = last_drive_id;
        self.last_image_id = last_image_id;
        Ok(())
    }

    /// All images, in id order.
    pub fn list_images(&self) -> (res: Vec<ImageRecord>)
        ensures
            image_views(res@) == self@.images,
    {
        let mut res: Vec<ImageRecord> = Vec::new();
        let mut i: usize = 0;
        while i < self.images.len()
            invariant
                i <= self.images.len(),
                res.len() == i,
                forall|j: int| 0 <= j < i ==> #[trigger] res@[j]@ == self.images@[j]@,
            decreases self.images.len() - i,
        {
            res.push(self.images[i].duplicate());
            i = i + 1;
        }
        assert(image_views(res@) =~= self@.images);
        res
    }

    /// The largest drive id and the largest image id ever handed out.
    pub fn last_ids(&self) -> (res: (i64, i64))
        ensures
            res == (self@.last_drive_id, self@.last_image_id),
    {
        (self.last_drive_id, self.last_image_id)
    }
}

/// The empty catalog.
pub open spec fn empty_catalog() -> DatabaseView {
    DatabaseView { drives: seq![], images: seq![], last_drive_id: 0, last_image_id: 0 }
}

/// Takes back the drive rows `ds` in order, stopping at the first refusal.
pub open spec fn restore_drives(v: DatabaseView, ds: Seq<DriveView>) -> (DatabaseView, Result<(), DbError>)
    decreases ds.len(),
{
    if ds.len() == 0 {
        (v, Ok(()))
    } else {
        let (w, r) = restore_drives(v, ds.drop_last());
        match r {
            Ok(_) => restore_drive_outcome(w, ds.last()),
            Err(e) => (w, Err(e)),
        }
    }
}

/// Takes back the image rows `ims` in order, stopping at the first refusal.
pub open spec fn restore_images(v: DatabaseView, ims: Seq<ImageView>) -> (DatabaseView, Result<(), DbError>)
    decreases ims.len(),
{
    if ims.len() == 0 {
        (v, Ok(()))
    } else {
        let (w, r) = restore_images(v, ims.drop_last());
        match r {
            Ok(_) => restore_image_outcome(w, ims.last()),
            Err(e) => (w, Err(e)),
        }
    }
}

} // verus!

verus! {

pub proof fn lemma_drive_index_is(drives: Seq<DriveView>, root: Seq<char>, k: int)
    requires
        0 <= k < drives.len(),
        drives[k].root_path == root,
        forall|i: int, j: int|
            0 <= i < j < drives.len() ==> #[trigger] drives[i].root_path != #[trigger] drives[j].root_path,
    ensures
        drive_index(drives, root) == k,
{
    let c = drive_index(drives, root);
    assert(drives[k].root_path == root);
    assert(0 <= c < drives.len() && drives[c].root_path == root);
    if c < k {
        assert(drives[c].root_path != drives[k].root_path);
    } else if c > k {
        assert(drives[k].root_path != drives[c].root_path);
    }
}

proof fn lemma_image_index_is(images: Seq<ImageView>, path: Seq<char>, k: int)
    requires
        0 <= k < images.len(),
        images[k].absolute_path == path,
        forall|i: int, j: int|
            0 <= i < j < images.len() ==> #[trigger] images[i].absolute_path
                != #[trigger] images[j].absolute_path,
    ensures
        image_index(images, path) == k,
{
    let c = image_index(images, path);
    assert(images[k].absolute_path == path);
    assert(0 <= c < images.len() && images[c].absolute_path == path);
    if c < k {
        assert(images[c].absolute_path != images[k].absolute_path);
    } else if c > k {
        assert(images[k].absolute_path != images[c].absolute_path);
    }
}

pub proof fn lemma_first_path_sound(images: Seq<ImageView>, hash: Seq<char>)
    ensures
        match first_path_with_hash(images, hash) {
            Some(p) => exists|i: int|
                0 <= i < images.len() && #[trigger] images[i].absolute_path == p
                    && images[i].blake3_hash == Some(hash),
            None => forall|i: int| 0 <= i < images.len() ==> (#[trigger] images[i]).blake3_hash != Some(hash),
        },
    decreases images.len(),
{
    if images.len() > 0 {
        let init = images.drop_last();
        lemma_first_path_sound(init, hash);
        match first_path_with_hash(init, hash) {
            Some(p) => {
                let i = choose|i: int| 0 <= i < init.len() && #[trigger] init[i].absolute_path == p
                    && init[i].blake3_hash == Some(hash);
                assert(images[i] == init[i]);
            },
            None => {
                assert forall|i: int| 0 <= i < images.len() - 1 implies (#[trigger] images[i]).blake3_hash != Some(hash) by {
                    assert(images[i] == init[i]);
                }
            },
        }
    }
}

pub proof fn lemma_filename_matches_complete(images: Seq<ImageView>, name: Seq<char>, k: int)
    requires
        0 <= k < images.len(),
        images[k].filename == name,
    ensures
        filename_matches(images, name).contains(
            (images[k].absolute_path, images[k].file_size, images[k].blake3_hash),
        ),
    decreases images.len(),
{
    let init = images.drop_last();
    let row = (images[k].absolute_path, images[k].file_size, images[k].blake3_hash);
    if k < images.len() - 1 {
        assert(init[k] == images[k]);
        lemma_filename_matches_complete(init, name, k);
        let r0 = filename_matches(init, name);
        let i = choose|i: int| 0 <= i < r0.len() && r0[i] == row;
        if images.last().filename == name {
            assert(filename_matches(images, name)[i] == row);
        }
    } else {
        let r = filename_matches(images, name);
        assert(r[r.len() - 1] == row);
    }
}

/// Whether `row` holds the path, size and hash of an image called `name`.
pub open spec fn is_row_of(images: Seq<ImageView>, name: Seq<char>, row: (Seq<char>, u64, Option<Seq<char>>)) -> bool {
    exists|k: int|
        0 <= k < images.len() && #[trigger] images[k].filename == name && row == (
            images[k].absolute_path,
            images[k].file_size,
            images[k].blake3_hash,
        )
}

proof fn lemma_filename_matches_sound(images: Seq<ImageView>, name: Seq<char>)
    ensures
        forall|i: int|
            0 <= i < filename_matches(images, name).len() ==> is_row_of(
                images,
                name,
                #[trigger] filename_matches(images, name)[i],
            ),
    decreases images.len(),
{
    if images.len() > 0 {
        let init = images.drop_last();
        lemma_filename_matches_sound(init, name);
        let r0 = filename_matches(init, name);
        let r = filename_matches(images, name);
        assert forall|i: int| 0 <= i < r.len() implies is_row_of(images, name, #[trigger] r[i]) by {
            if i < r0.len() {
                assert(r[i] == r0[i]);
                assert(is_row_of(init, name, r0[i]));
                let k = choose|k: int|
                    0 <= k < init.len() && #[trigger] init[k].filename == name && r0[i] == (
                        init[k].absolute_path,
                        init[k].file_size,
                        init[k].blake3_hash,
                    );
                assert(images[k] == init[k]);
                assert(images[k].filename == name);
            } else {
                let last = images.len() - 1;
                assert(images[last] == images.last());
                assert(images[last].filename == name);
            }
        }
    }
}

/// After a drive is written, looking up its root path finds it, with the
/// label just written and the id that the write returned.
pub proof fn law_upserted_drive_is_found(v: DatabaseView, label: Seq<char>, root: Seq<char>)
    requires
        valid(v),
        upsert_drive_outcome(v, label, root).1 is Ok,
    ensures
        ({
            let (w, r) = upsert_drive_outcome(v, label, root);
            let k = drive_index(w.drives, root);
            &&& k >= 0
            &&& w.drives[k].label == label
            &&& w.drives[k].root_path == root
            &&& r == Ok::<i64, DbError>(w.drives[k].id)
        }),
{
    lemma_upsert_drive_valid(v, label, root);
    let w = upsert_drive_outcome(v, label, root).0;
    let k = drive_index(v.drives, root);
    if k >= 0 {
        lemma_drive_index_is(w.drives, root, k);
    } else {
        lemma_drive_index_is(w.drives, root, v.drives.len() as int);
    }
}

/// Writing the same root path a second time keeps the drive's id and
/// replaces its label.
pub proof fn law_upsert_drive_twice_keeps_id(
    v: DatabaseView,
    first_label: Seq<char>,
    second_label: Seq<char>,
    root: Seq<char>,
)
    requires
        valid(v),
        upsert_drive_outcome(v, first_label, root).1 is Ok,
    ensures
        ({
            let (w1, r1) = upsert_drive_outcome(v, first_label, root);
            let (w2, r2) = upsert_drive_outcome(w1, second_label, root);
            &&& r2 == r1
            &&& w2.drives.len() == w1.drives.len()
            &&& w2.drives[drive_index(w2.drives, root)].label == second_label
        }),
{
    law_upserted_drive_is_found(v, first_label, root);
    let w1 = upsert_drive_outcome(v, first_label, root).0;
    lemma_upsert_drive_valid(v, first_label, root);
    law_upserted_drive_is_found(w1, second_label, root);
}

/// Removing a drive removes it and exactly its images: no image of it
/// remains, and every image of another drive stays.
pub proof fn law_remove_drive_cascades(v: DatabaseView, root: Seq<char>)
    requires
        valid(v),
        drive_index(v.drives, root) >= 0,
    ensures
        ({
            let (w, n) = remove_drive_outcome(v, root);
            let id = v.drives[drive_index(v.drives, root)].id;
            &&& n == 1
            &&& drive_index(w.drives, root) == -1
            &&& w.drives.len() == v.drives.len() - 1
            &&& forall|i: int| 0 <= i < w.images.len() ==> (#[trigger] w.images[i]).drive_id != id
            &&& forall|j: int|
                0 <= j < v.images.len() && (#[trigger] v.images[j]).drive_id != id ==> w.images.contains(
                    v.images[j],
                )
        }),
{
    let k = drive_index(v.drives, root);
    let w = remove_drive_outcome(v, root).0;
    let id = v.drives[k].id;
    lemma_images_not_on_members(v.images, id);
    lemma_images_not_on_complete(v.images, id);
    if drive_index(w.drives, root) >= 0 {
        let c = drive_index(w.drives, root);
        let a = if c < k { c } else { c + 1 };
        assert(w.drives[c] == v.drives[a]);
        if a < k {
            assert(v.drives[a].root_path != v.drives[k].root_path);
        } else {
            assert(v.drives[k].root_path != v.drives[a].root_path);
        }
    }
    assert forall|i: int| 0 <= i < w.images.len() implies (#[trigger] w.images[i]).drive_id != id by {
        assert(images_not_on(v.images, id)[i].drive_id != id);
    }
}

/// What looking up a hash gives is a recorded image with that hash, and
/// nothing is given only when no image has it.
pub proof fn law_find_by_hash_sound(v: DatabaseView, hash: Seq<char>)
    requires
        valid(v),
    ensures
        match first_path_with_hash(v.images, hash) {
            Some(p) => image_index(v.images, p) >= 0 && v.images[image_index(v.images, p)].blake3_hash
                == Some(hash),
            None => forall|i: int| 0 <= i < v.images.len() ==> (#[trigger] v.images[i]).blake3_hash != Some(hash),
        },
{
    lemma_first_path_sound(v.images, hash);
    match first_path_with_hash(v.images, hash) {
        Some(p) => {
            let i = choose|i: int| 0 <= i < v.images.len() && #[trigger] v.images[i].absolute_path == p
                && v.images[i].blake3_hash == Some(hash);
            lemma_image_index_is(v.images, p, i);
        },
        None => {},
    }
}

/// Once a hash is recorded for an image, looking that hash up finds an
/// image that has it.
pub proof fn law_recorded_hash_is_found(v: DatabaseView, path: Seq<char>, hash: Seq<char>)
    requires
        valid(v),
        image_index(v.images, path) >= 0,
    ensures
        ({
            let w = set_hash_outcome(v, path, hash);
            first_path_with_hash(w.images, hash) matches Some(p) && image_index(w.images, p) >= 0
                && w.images[image_index(w.images, p)].blake3_hash == Some(hash)
        }),
{
    let w = set_hash_outcome(v, path, hash);
    let k = image_index(v.images, path);
    lemma_set_hash_valid(v, path, hash);
    law_find_by_hash_sound(w, hash);
    assert(w.images[k].blake3_hash == Some(hash));
}

/// After an image is written, looking up its file name gives its path, its
/// size and its hash (the one written, or else the one already recorded).
pub proof fn law_upserted_image_is_found_by_name(v: DatabaseView, img: ImageView)
    requires
        valid(v),
        upsert_image_outcome(v, img).1 is Ok,
    ensures
        ({
            let w = upsert_image_outcome(v, img).0;
            let k = image_index(v.images, img.absolute_path);
            let hash = if img.blake3_hash is None && k >= 0 {
                v.images[k].blake3_hash
            } else {
                img.blake3_hash
            };
            filename_matches(w.images, img.filename).contains((img.absolute_path, img.file_size, hash))
        }),
{
    let w = upsert_image_outcome(v, img).0;
    let k = image_index(v.images, img.absolute_path);
    if k >= 0 {
        lemma_filename_matches_complete(w.images, img.filename, k);
    } else {
        lemma_filename_matches_complete(w.images, img.filename, v.images.len() as int);
    }
}

/// Every row that a file-name lookup gives belongs to a recorded image of
/// that name.
pub proof fn law_find_by_filename_sound(v: DatabaseView, name: Seq<char>)
    ensures
        forall|i: int|
            0 <= i < filename_matches(v.images, name).len() ==> is_row_of(
                v.images,
                name,
                #[trigger] filename_matches(v.images, name)[i],
            ),
{
    lemma_filename_matches_sound(v.images, name);
}

/// Writing an image adds one row when its path is new and none when it is
/// already recorded; a refused write changes nothing.
pub proof fn law_upsert_image_count(v: DatabaseView, img: ImageView)
    requires
        valid(v),
    ensures
        ({
            let (w, r) = upsert_image_outcome(v, img);
            &&& r is Err ==> w == v
            &&& r is Ok ==> w.images.len() == v.images.len() + if image_index(v.images, img.absolute_path) >= 0 {
                0int
            } else {
                1int
            }
        }),
{
}

/// Writing an image without a hash over a recorded one keeps the recorded
/// hash.
pub proof fn law_upsert_without_hash_keeps_hash(v: DatabaseView, img: ImageView)
    requires
        valid(v),
        img.blake3_hash is None,
        has_drive(v.drives, img.drive_id),
        image_index(v.images, img.absolute_path) >= 0,
    ensures
        ({
            let w = upsert_image_outcome(v, img).0;
            let k = image_index(v.images, img.absolute_path);
            w.images[k].blake3_hash == v.images[k].blake3_hash
        }),
{
}

proof fn lemma_restore_drives_prefix(v: DatabaseView, n: int)
    requires
        valid(v),
        0 <= n <= v.drives.len(),
    ensures
        restore_drives(empty_catalog(), v.drives.take(n)) == (
            DatabaseView {
                drives: v.drives.take(n),
                images: seq![],
                last_drive_id: if n == 0 { 0 } else { v.drives[n - 1].id },
                last_image_id: 0,
            },
            Ok::<(), DbError>(()),
        ),
    decreases n,
{
    if n == 0 {
        assert(v.drives.take(0) =~= Seq::<DriveView>::empty());
    } else {
        lemma_restore_drives_prefix(v, n - 1);
        let ds = v.drives.take(n);
        assert(ds.drop_last() =~= v.drives.take(n - 1));
        assert(ds.last() == v.drives[n - 1]);
        let prev = v.drives.take(n - 1);
        assert forall|j: int| 0 <= j < prev.len() implies #[trigger] prev[j].root_path != v.drives[n - 1].root_path by {
            assert(prev[j] == v.drives[j]);
        }
        if n > 1 {
            assert(v.drives[n - 2].id < v.drives[n - 1].id);
        }
        assert(prev.push(v.drives[n - 1]) =~= ds);
    }
}

proof fn lemma_restore_images_prefix(v: DatabaseView, start: DatabaseView, n: int)
    requires
        valid(v),
        0 <= n <= v.images.len(),
        start.drives == v.drives,
        start.images.len() == 0,
        start.last_image_id == 0,
    ensures
        restore_images(start, v.images.take(n)) == (
            DatabaseView {
                drives: v.drives,
                images: v.images.take(n),
                last_drive_id: start.last_drive_id,
                last_image_id: if n == 0 { 0 } else { row_id(v.images[n - 1]) as i64 },
            },
            Ok::<(), DbError>(()),
        ),
    decreases n,
{
    if n == 0 {
        assert(v.images.take(0) =~= Seq::<ImageView>::empty());
        assert(start.images =~= v.images.take(0));
    } else {
        lemma_restore_images_prefix(v, start, n - 1);
        let ims = v.images.take(n);
        assert(ims.drop_last() =~= v.images.take(n - 1));
        assert(ims.last() == v.images[n - 1]);
        let prev = v.images.take(n - 1);
        let im = v.images[n - 1];
        assert(row_id(im) > n - 1);
        assert(im.id is Some);
        assert forall|j: int| 0 <= j < prev.len() implies #[trigger] prev[j].absolute_path != im.absolute_path by {
            assert(prev[j] == v.images[j]);
        }
        if n > 1 {
            assert(row_id(v.images[n - 2]) < row_id(v.images[n - 1]));
        }
        assert(has_drive(v.drives, im.drive_id));
        assert(prev.push(im) =~= ims);
    }
}

/// Taking back every drive row and then every image row of a catalog, in
/// id order, and then its largest ids, rebuilds the catalog exactly: what
/// the catalog lists is all it takes to restore it.
pub proof fn law_restore_rebuilds(v: DatabaseView)
    requires
        valid(v),
    ensures
        ({
            let (a, ra) = restore_drives(empty_catalog(), v.drives);
            let (b, rb) = restore_images(a, v.images);
            let (c, rc) = restore_counters_outcome(b, v.last_drive_id, v.last_image_id);
            ra is Ok && rb is Ok && rc is Ok && c == v
        }),
{
    let nd = v.drives.len() as int;
    let ni = v.images.len() as int;
    lemma_restore_drives_prefix(v, nd);
    assert(v.drives.take(nd) =~= v.drives);
    let a = restore_drives(empty_catalog(), v.drives).0;
    lemma_restore_images_prefix(v, a, ni);
    assert(v.images.take(ni) =~= v.images);
    if nd > 0 {
        assert(v.drives[nd - 1].id <= v.last_drive_id);
    }
    if ni > 0 {
        assert(row_id(v.images[ni - 1]) <= v.last_image_id);
    }
}

proof fn lemma_missing_hash_sound(images: Seq<ImageView>, drive: Option<i64>)
    ensures
        forall|i: int|
            0 <= i < missing_hash(images, drive).len() ==> exists|k: int|
                0 <= k < images.len() && #[trigger] images[k].absolute_path == (#[trigger] missing_hash(
                    images,
                    drive,
                )[i]).1 && images[k].blake3_hash is None,
    decreases images.len(),
{
    if images.len() > 0 {
        let init = images.drop_last();
        lemma_missing_hash_sound(init, drive);
        let m0 = missing_hash(init, drive);
        let m = missing_hash(images, drive);
        assert forall|i: int| 0 <= i < m.len() implies exists|k: int|
            0 <= k < images.len() && #[trigger] images[k].absolute_path == (#[trigger] m[i]).1
                && images[k].blake3_hash is None by {
            if i < m0.len() {
                assert(m[i] == m0[i]);
                let k = choose|k: int| 0 <= k < init.len() && #[trigger] init[k].absolute_path == m0[i].1
                    && init[k].blake3_hash is None;
                assert(images[k] == init[k]);
            } else {
                let k = images.len() - 1;
                assert(images[k].absolute_path == m[i].1);
            }
        }
    }
}

/// An image whose hash was recorded no longer waits for hashing: the
/// images that lack a hash, on any drive or on one, exclude its path.
pub proof fn law_hashed_image_leaves_missing(v: DatabaseView, path: Seq<char>, hash: Seq<char>, drive: Option<i64>)
    requires
        valid(v),
    ensures
        ({
            let m = missing_hash(set_hash_outcome(v, path, hash).images, drive);
            forall|i: int| 0 <= i < m.len() ==> (#[trigger] m[i]).1 != path
        }),
{
    let w = set_hash_outcome(v, path, hash);
    let m = missing_hash(w.images, drive);
    lemma_set_hash_valid(v, path, hash);
    lemma_missing_hash_sound(w.images, drive);
    let k = image_index(v.images, path);
    assert forall|i: int| 0 <= i < m.len() implies (#[trigger] m[i]).1 != path by {
        if m[i].1 == path {
            let j = choose|j: int| 0 <= j < w.images.len() && #[trigger] w.images[j].absolute_path == m[i].1
                && w.images[j].blake3_hash is None;
            if k >= 0 {
                if j != k {
                    if j < k {
                        assert(w.images[j].absolute_path != w.images[k].absolute_path);
                    } else {
                        assert(w.images[k].absolute_path != w.images[j].absolute_path);
                    }
                }
            } else {
                assert(v.images[j].absolute_path == path);
            }
        }
    }
}

} // verus!
