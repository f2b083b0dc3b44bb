//! The records the catalog keeps and the verdicts about files on a card.
use vstd::prelude::*;
use crate::dates::{CaptureDateTime, Timestamp};
use crate::paths::opt_view;

verus! {

/// A drive (or any root directory) whose images are indexed.
#[derive(Debug)]
pub struct DriveRecord {
    pub id: i64,
    pub label: String,
    pub root_path: String,
    pub last_scanned_at: Option<Timestamp>,
}

/// The mathematical content of a [`DriveRecord`].
pub struct DriveView {
    pub id: i64,
    pub label: Seq<char>,
    pub root_path: Seq<char>,
    pub last_scanned_at: Option<Timestamp>,
}

impl View for DriveRecord {
    type V = DriveView;

    open spec fn view(&self) -> DriveView {
        DriveView {
            id: self.id,
            label: self.label@,
            root_path: self.root_path@,
            last_scanned_at: self.last_scanned_at,
        }
    }
}

/// One image file: where it lies, its size and dates, and its content hash
/// once known.
#[derive(Debug)]
pub struct ImageRecord {
    pub id: Option<i64>,
    pub drive_id: i64,
    pub filename: String,
    pub relative_path: String,
    pub absolute_path: String,
    pub file_size: u64,
    pub capture_date: Option<CaptureDateTime>,
    pub file_mtime: Timestamp,
    pub blake3_hash: Option<String>,
}

/// The mathematical content of an [`ImageRecord`].
pub struct ImageView {
    pub id: Option<i64>,
    pub drive_id: i64,
    pub filename: Seq<char>,
    pub relative_path: Seq<char>,
    pub absolute_path: Seq<char>,
    pub file_size: u64,
    pub capture_date: Option<CaptureDateTime>,
    pub file_mtime: Timestamp,
    pub blake3_hash: Option<Seq<char>>,
}

impl View for ImageRecord {
    type V = ImageView;

    open spec fn view(&self) -> ImageView {
        ImageView {
            id: self.id,
            drive_id: self.drive_id,
            filename: self.filename@,
            relative_path: self.relative_path@,
            absolute_path: self.absolute_path@,
            file_size: self.file_size,
            capture_date: self.capture_date,
            file_mtime: self.file_mtime,
            blake3_hash: opt_view(self.blake3_hash),
        }
    }
}

/// A copy of an optional string.
pub fn clone_opt_string(o: &Option<String>) -> (res: Option<String>)
    ensures
        opt_view(res) == opt_view(*o),
{
    match o {
        Some(s) => Some(s.clone()),
        None => None,
    }
}

impl DriveRecord {
    /// A copy of this record.
    pub fn duplicate(&self) -> (res: DriveRecord)
        ensures
            res@ == self@,
    {
        DriveRecord {
            id: self.id,
            label: self.label.clone(),
            root_path: self.root_path.clone(),
            last_scanned_at: self.last_scanned_at,
        }
    }
}

impl ImageRecord {
    /// A copy of this record.
    pub fn duplicate(&self) -> (res: ImageRecord)
        ensures
            res@ == self@,
    {
        ImageRecord {
            id: self.id,
            drive_id: self.drive_id,
            filename: self.filename.clone(),
            relative_path: self.relative_path.clone(),
            absolute_path: self.absolute_path.clone(),
            file_size: self.file_size,
            capture_date: self.capture_date,
            file_mtime: self.file_mtime,
            blake3_hash: clone_opt_string(&self.blake3_hash),
        }
    }
}

/// How a file on the card relates to the images already indexed.
#[derive(Debug)]
pub enum DuplicateStatus {
    /// Not found in DB at all — copy
    New,
    /// Same filename, different size — treat as distinct file, copy
    SizeConflict,
    /// Same filename + size, different hash — treat as distinct file, copy
    HashConflict,
    /// Definitive match found — skip
    AlreadyExists { existing_path: String },
}

/// The mathematical content of a [`DuplicateStatus`].
pub enum StatusView {
    New,
    SizeConflict,
    HashConflict,
    AlreadyExists { existing_path: Seq<char> },
}

impl View for DuplicateStatus {
    type V = StatusView;

    open spec fn view(&self) -> StatusView {
        match self {
            DuplicateStatus::New => StatusView::New,
            DuplicateStatus::SizeConflict => StatusView::SizeConflict,
            DuplicateStatus::HashConflict => StatusView::HashConflict,
            DuplicateStatus::AlreadyExists { existing_path } => StatusView::AlreadyExists {
                existing_path: existing_path@,
            },
        }
    }
}

impl DuplicateStatus {
    /// A copy of this status.
    pub fn duplicate(&self) -> (res: DuplicateStatus)
        ensures
            res@ == self@,
    {
        match self {
            DuplicateStatus::New => DuplicateStatus::New,
            DuplicateStatus::SizeConflict => DuplicateStatus::SizeConflict,
            DuplicateStatus::HashConflict => DuplicateStatus::HashConflict,
            DuplicateStatus::AlreadyExists { existing_path } => DuplicateStatus::AlreadyExists {
                existing_path: existing_path.clone(),
            },
        }
    }

    /// Whether the file is already on the drive (and is not copied).
    pub fn is_already_present(&self) -> (res: bool)
        ensures
            res == (self@ is AlreadyExists),
    {
        match self {
            DuplicateStatus::AlreadyExists { .. } => true,
            _ => false,
        }
    }
}

/// A file on the card, where it would be copied to, and its verdict.
#[derive(Debug)]
pub struct CopyCandidate {
    pub source: ImageRecord,
    pub destination_path: String,
    pub status: DuplicateStatus,
}

/// The mathematical content of a [`CopyCandidate`].
pub struct CandidateView {
    pub source: ImageView,
    pub destination_path: Seq<char>,
    pub status: StatusView,
}

impl View for CopyCandidate {
    type V = CandidateView;

    open spec fn view(&self) -> CandidateView {
        CandidateView {
            source: self.source@,
            destination_path: self.destination_path@,
            status: self.status@,
        }
    }
}

impl CopyCandidate {
    /// A copy of this candidate.
    pub fn duplicate(&self) -> (res: CopyCandidate)
        ensures
            res@ == self@,
    {
        CopyCandidate {
            source: self.source.duplicate(),
            destination_path: self.destination_path.clone(),
            status: self.status.duplicate(),
        }
    }
}

/// The views of a list of candidates.
pub open spec fn candidate_views(v: Seq<CopyCandidate>) -> Seq<CandidateView> {
    v.map_values(|c: CopyCandidate| c@)
}

/// Copies of all candidates in `v`.
pub fn duplicate_candidates(v: &Vec<CopyCandidate>) -> (res: Vec<CopyCandidate>)
    ensures
        candidate_views(res@) == candidate_views(v@),
{
    let mut res: Vec<CopyCandidate> = Vec::new();
    let mut i: usize = 0;
    while i < v.len()
        invariant
            i <= v.len(),
            res.len() == i,
            forall|j: int| 0 <= j < i ==> #[trigger] res@[j]@ == v@[j]@,
        decreases v.len() - i,
    {
        res.push(v[i].duplicate());
        i = i + 1;
    }
    assert(candidate_views(res@) =~= candidate_views(v@));
    res
}

} // verus!
