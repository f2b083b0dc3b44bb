//! What scanning a card or drive decides about each file: whether it is an
//! image worth indexing, the record it gets, and where it is copied to.
use vstd::prelude::*;
use crate::dates::{format_two_digits, format_year, two_digit_text, year_text, utc_calendar_date, CaptureDateTime, Timestamp};
use crate::models::ImageRecord;
use crate::paths;
use crate::paths::{file_name_of, join_path, opt_view, split_extension};
use crate::text;
use crate::text::{chars_of, push_chars, push_str, replace_all, str_eq};

verus! {

/// What std's `str::to_lowercase` gives for `s` (full Unicode lowercasing).
pub uninterp spec fn lowercase(s: Seq<char>) -> Seq<char>;

/// `str::to_lowercase`; the contract claims only that the result is the
/// value that `lowercase` names for `s`.
#[verifier::external_body]
fn str_to_lowercase(s: &str) -> (res: String)
    ensures
        res@ == lowercase(s@),
{
    s.to_lowercase()
}

/// The extension of the file that `path` names, if it has one.
pub open spec fn path_extension(path: Seq<char>) -> Option<Seq<char>> {
    match paths::file_name(path) {
        Some(n) => paths::extension_of(n),
        None => None,
    }
}

/// Whether `path` names a file whose lowercased extension is one of
/// `extensions`.
pub open spec fn has_image_extension(path: Seq<char>, extensions: Seq<Seq<char>>) -> bool {
    path_extension(path) matches Some(e) && extensions.contains(lowercase(e))
}

/// Whether the file at `path` is one of the configured image types: its
/// extension, lowercased, is one of `extensions`.
pub fn is_image_extension(path: &str, extensions: &Vec<String>) -> (res: bool)
    ensures
        res == has_image_extension(path@, paths::views(extensions@)),
{
    match file_name_of(path) {
        None => false,
        Some(name) => {
            let (_stem, ext) = split_extension(name.as_str());
            match ext {
                None => false,
                Some(e) => {
                    let lower = str_to_lowercase(e.as_str());
                    assert(path_extension(path@) == Some(e@));
                    let mut i: usize = 0;
                    while i < extensions.len()
                        invariant
                            i <= extensions.len(),
                            lower@ == lowercase(e@),
                            path_extension(path@) == Some(e@),
                            forall|j: int| 0 <= j < i ==> extensions@[j]@ != lower@,
                        decreases extensions.len() - i,
                    {
                        if str_eq(extensions[i].as_str(), lower.as_str()) {
                            assert(paths::views(extensions@)[i as int] == lower@);
                            assert(paths::views(extensions@).contains(lower@));
                            return true;
                        }
                        i = i + 1;
                    }
                    proof {
                        if paths::views(extensions@).contains(lower@) {
                            let j = choose|j: int| 0 <= j < paths::views(extensions@).len() && paths::views(extensions@)[j] == lower@;
                            assert(extensions@[j]@ == lower@);
                        }
                    }
                    false
                },
            }
        },
    }
}

/// The length of the first segment of `s`: the characters before its
/// first separator.
pub open spec fn seg_len(s: Seq<char>) -> nat
    decreases s.len(),
{
    if s.len() == 0 || s[0] == '/' {
        0
    } else {
        1 + seg_len(s.skip(1))
    }
}

/// Whether a segment names no path component: it is empty or `.`.
pub open spec fn is_void_segment(seg: Seq<char>) -> bool {
    seg.len() == 0 || seg == seq!['.']
}

/// `s` after its first segment and the separator that ends it.
pub open spec fn after_segment(s: Seq<char>) -> Seq<char> {
    if seg_len(s) < s.len() {
        s.skip(seg_len(s) + 1int)
    } else {
        seq![]
    }
}

/// `s` without its leading empty and `.` segments, so that it starts with
/// a component (std drops these when it hands out the rest of a path).
pub open spec fn trim_left(s: Seq<char>) -> Seq<char>
    decreases s.len(),
{
    if s.len() > 0 && is_void_segment(s.take(seg_len(s) as int)) {
        trim_left(after_segment(s))
    } else {
        s
    }
}

/// `s` without its trailing empty and `.` segments.
pub open spec fn trim_right(s: Seq<char>) -> Seq<char>
    decreases s.len(),
{
    if s.len() == 0 {
        s
    } else {
        let k = paths::last_index_of(s, '/');
        proof {
            paths::lemma_last_index_bounds(s, '/');
        }
        if is_void_segment(s.skip(k + 1)) {
            if k < 0 {
                seq![]
            } else {
                trim_right(s.take(k))
            }
        } else {
            s
        }
    }
}

/// After the leading root or `.` of both paths: the rest of `p` once the
/// components of `r` have been matched, one by one, against its leading
/// components, or `None` when they differ. Repeated separators and `.`
/// components inside the paths name nothing.
pub open spec fn match_body(p: Seq<char>, r: Seq<char>) -> Option<Seq<char>>
    decreases r.len(),
{
    let r1 = trim_left(r);
    let p1 = trim_left(p);
    proof {
        lemma_trim_left_len(r);
    }
    if r1.len() == 0 {
        Some(p1)
    } else if p1.len() == 0 {
        None
    } else if p1.take(seg_len(p1) as int) != r1.take(seg_len(r1) as int) {
        None
    } else {
        match_body(after_segment(p1), after_segment(r1))
    }
}

/// The component a path starts with before its body: 1 for the root
/// directory (a leading separator), 2 for a leading `.` component, 0 for
/// none.
pub open spec fn start_comp(s: Seq<char>) -> nat {
    if s.len() > 0 && s[0] == '/' {
        1
    } else if s == seq!['.'] || (s.len() >= 2 && s[0] == '.' && s[1] == '/') {
        2
    } else {
        0
    }
}

/// `path` relative to `root`, as std's `Path::strip_prefix` gives it: `root`
/// must be a leading part of `path` component by component (repeated
/// separators count as one and `.` components other than a leading one
/// name nothing); the rest of `path` is returned without its leading and
/// trailing separators and `.` components.
pub open spec fn strip_root(path: Seq<char>, root: Seq<char>) -> Option<Seq<char>> {
    let sp = start_comp(path);
    let sr = start_comp(root);
    if sr != 0 {
        if sp != sr {
            None
        } else {
            match match_body(path.skip(1), root.skip(1)) {
                Some(rest) => Some(trim_right(rest)),
                None => None,
            }
        }
    } else if sp != 0 {
        if trim_left(root).len() == 0 {
            Some(path.take(1) + trim_right(path.skip(1)))
        } else {
            None
        }
    } else {
        match match_body(path, root) {
            Some(rest) => Some(trim_right(rest)),
            None => None,
        }
    }
}

pub proof fn lemma_trim_left_len(s: Seq<char>)
    ensures
        trim_left(s).len() <= s.len(),
    decreases s.len(),
{
    if s.len() > 0 && is_void_segment(s.take(seg_len(s) as int)) {
        lemma_trim_left_len(after_segment(s));
    }
}

/// The end of the segment of `cs` that starts at `i`.
fn seg_end(cs: &Vec<char>, i: usize) -> (j: usize)
    requires
        i <= cs.len(),
    ensures
        i <= j <= cs.len(),
        j - i == seg_len(cs@.skip(i as int)),
{
    let mut j = i;
    while j < cs.len() && cs[j] != '/'
        invariant
            i <= j <= cs.len(),
            seg_len(cs@.skip(i as int)) == (j - i) + seg_len(cs@.skip(j as int)),
        decreases cs.len() - j,
    {
        assert(cs@.skip(j as int).skip(1) =~= cs@.skip(j + 1));
        j = j + 1;
    }
    j
}

/// Where `cs` goes on after the segment `[k, e)` and its separator.
fn next_segment_start(cs: &Vec<char>, k: usize, e: usize) -> (n: usize)
    requires
        k <= e <= cs.len(),
        e - k == seg_len(cs@.skip(k as int)),
    ensures
        k < n || k == cs.len(),
        n <= cs.len(),
        cs@.skip(n as int) == after_segment(cs@.skip(k as int)),
{
    if e < cs.len() {
        assert(cs@.skip(k as int).skip(e - k + 1) =~= cs@.skip(e + 1));
        e + 1
    } else {
        assert(cs@.skip(cs.len() as int) =~= Seq::<char>::empty());
        cs.len()
    }
}

/// Whether the segment `[k, e)` of `cs` is void.
fn void_segment(cs: &Vec<char>, k: usize, e: usize) -> (res: bool)
    requires
        k <= e <= cs.len(),
        e - k == seg_len(cs@.skip(k as int)),
    ensures
        res == is_void_segment(cs@.skip(k as int).take(seg_len(cs@.skip(k as int)) as int)),
{
    let ghost seg = cs@.skip(k as int).take(seg_len(cs@.skip(k as int)) as int);
    assert(seg =~= cs@.subrange(k as int, e as int));
    if e == k {
        true
    } else if e == k + 1 && cs[k] == '.' {
        assert(seg =~= seq!['.']);
        true
    } else {
        proof {
            if seg == seq!['.'] {
                assert(seg[0] == cs@[k as int]);
            }
        }
        false
    }
}

/// Skips the empty and `.` segments of `cs` from `i` on.
fn skip_void(cs: &Vec<char>, i: usize) -> (k: usize)
    requires
        i <= cs.len(),
    ensures
        i <= k <= cs.len(),
        cs@.skip(k as int) == trim_left(cs@.skip(i as int)),
{
    let mut k = i;
    while k < cs.len()
        invariant
            i <= k <= cs.len(),
            trim_left(cs@.skip(k as int)) == trim_left(cs@.skip(i as int)),
        ensures
            i <= k <= cs.len(),
            cs@.skip(k as int) == trim_left(cs@.skip(i as int)),
        decreases cs.len() - k,
    {
        let e = seg_end(cs, k);
        if void_segment(cs, k, e) {
            k = next_segment_start(cs, k, e);
        } else {
            break;
        }
    }
    proof {
        if k == cs.len() {
            assert(cs@.skip(k as int) =~= Seq::<char>::empty());
        }
    }
    k
}

/// Whether `a[i..ie]` and `b[j..je]` hold the same characters.
fn same_chars(a: &Vec<char>, i: usize, ie: usize, b: &Vec<char>, j: usize, je: usize) -> (res: bool)
    requires
        i <= ie <= a.len(),
        j <= je <= b.len(),
    ensures
        res == (a@.subrange(i as int, ie as int) == b@.subrange(j as int, je as int)),
{
    if ie - i != je - j {
        assert(a@.subrange(i as int, ie as int).len() != b@.subrange(j as int, je as int).len());
        return false;
    }
    let mut t: usize = 0;
    while t < ie - i
        invariant
            i <= ie <= a.len(),
            j <= je <= b.len(),
            ie - i == je - j,
            t <= ie - i,
            forall|u: int| i <= u < i + t ==> #[trigger] a@[u] == b@[u - i + j],
        decreases ie - i - t,
    {
        if a[i + t] != b[j + t] {
            assert(a@.subrange(i as int, ie as int)[t as int] != b@.subrange(j as int, je as int)[t as int]);
            return false;
        }
        t = t + 1;
    }
    assert(a@.subrange(i as int, ie as int) =~= b@.subrange(j as int, je as int));
    true
}

/// Matches the components of `r` from `j` on against those of `p` from `i`
/// on (see [`match_body`]); gives where the rest of `p` starts.
fn match_body_exec(p: &Vec<char>, i: usize, r: &Vec<char>, j: usize) -> (res: Option<usize>)
    requires
        i <= p.len(),
        j <= r.len(),
    ensures
        match res {
            Some(k) => k <= p.len() && match_body(p@.skip(i as int), r@.skip(j as int)) == Some(p@.skip(k as int)),
            None => match_body(p@.skip(i as int), r@.skip(j as int)) is None,
        },
{
    let mut a = i;
    let mut b = j;
    loop
        invariant
            a <= p.len(),
            b <= r.len(),
            match_body(p@.skip(a as int), r@.skip(b as int)) == match_body(p@.skip(i as int), r@.skip(j as int)),
        decreases r.len() - b,
    {
        let b1 = skip_void(r, b);
        let a1 = skip_void(p, a);
        if b1 == r.len() {
            assert(r@.skip(b1 as int).len() == 0);
            return Some(a1);
        }
        if a1 == p.len() {
            assert(p@.skip(a1 as int).len() == 0);
            return None;
        }
        let eb = seg_end(r, b1);
        let ea = seg_end(p, a1);
        assert(p@.skip(a1 as int).take(seg_len(p@.skip(a1 as int)) as int) =~= p@.subrange(a1 as int, ea as int));
        assert(r@.skip(b1 as int).take(seg_len(r@.skip(b1 as int)) as int) =~= r@.subrange(b1 as int, eb as int));
        if !same_chars(p, a1, ea, r, b1, eb) {
            return None;
        }
        a = next_segment_start(p, a1, ea);
        b = next_segment_start(r, b1, eb);
    }
}

/// The length of `cs` once its trailing empty and `.` segments are dropped.
fn trim_right_len(cs: &Vec<char>) -> (e: usize)
    ensures
        e <= cs.len(),
        cs@.take(e as int) == trim_right(cs@),
{
    let mut e = cs.len();
    assert(cs@.take(e as int) =~= cs@);
    loop
        invariant
            e <= cs.len(),
            trim_right(cs@.take(e as int)) == trim_right(cs@),
        decreases e,
    {
        if e == 0 {
            assert(cs@.take(0) =~= Seq::<char>::empty());
            return 0;
        }
        let ghost s = cs@.take(e as int);
        proof {
            paths::lemma_last_index_bounds(s, '/');
        }
        let k = paths::last_index_in(cs, e, '/');
        let start = match k {
            Some(k) => k + 1,
            None => 0,
        };
        let ghost li = paths::last_index_of(s, '/');
        assert(s.skip(li + 1) =~= cs@.subrange(start as int, e as int));
        let void = start == e || (start + 1 == e && cs[start] == '.');
        proof {
            if start + 1 == e && cs@[start as int] == '.' {
                assert(s.skip(li + 1) =~= seq!['.']);
            }
            if s.skip(li + 1) == seq!['.'] {
                assert(s.skip(li + 1)[0] == cs@[start as int]);
            }
        }
        if !void {
            return e;
        }
        match k {
            None => {
                assert(cs@.take(0) =~= Seq::<char>::empty());
                return 0;
            },
            Some(k) => {
                assert(s.take(k as int) =~= cs@.take(k as int));
                e = k;
            },
        }
    }
}

/// `cs` from `k` on, without its trailing empty and `.` segments.
fn trimmed_rest(cs: &Vec<char>, k: usize) -> (res: String)
    requires
        k <= cs.len(),
    ensures
        res@ == trim_right(cs@.skip(k as int)),
{
    let mut rest: Vec<char> = Vec::new();
    let mut t = k;
    while t < cs.len()
        invariant
            k <= t <= cs.len(),
            rest@ == cs@.subrange(k as int, t as int),
        decreases cs.len() - t,
    {
        rest.push(cs[t]);
        assert(cs@.subrange(k as int, t + 1) =~= cs@.subrange(k as int, t as int).push(cs@[t as int]));
        t = t + 1;
    }
    assert(rest@ =~= cs@.skip(k as int));
    let e = trim_right_len(&rest);
    let mut out = String::new();
    push_chars(&mut out, &rest, 0, e);
    assert(out@ =~= rest@.take(e as int));
    out
}

/// The component a path starts with (see [`start_comp`]).
fn start_comp_exec(cs: &Vec<char>) -> (res: u8)
    ensures
        res as nat == start_comp(cs@),
{
    if cs.len() > 0 && cs[0] == '/' {
        1
    } else if (cs.len() == 1 && cs[0] == '.') || (cs.len() >= 2 && cs[0] == '.' && cs[1] == '/') {
        proof {
            if cs.len() == 1 {
                assert(cs@ =~= seq!['.']);
            }
        }
        2
    } else {
        proof {
            if cs@ == seq!['.'] {
                assert(cs@[0] == '.');
            }
        }
        0
    }
}

/// `path` relative to `root` (see [`strip_root`]).
pub fn strip_root_exec(path: &str, root: &str) -> (res: Option<String>)
    ensures
        opt_view(res) == strip_root(path@, root@),
{
    let p = chars_of(path);
    let r = chars_of(root);
    let sp = start_comp_exec(&p);
    let sr = start_comp_exec(&r);
    assert(p@.skip(0) =~= p@);
    assert(r@.skip(0) =~= r@);
    if sr != 0 {
        if sp != sr {
            return None;
        }
        match match_body_exec(&p, 1, &r, 1) {
            None => None,
            Some(k) => Some(trimmed_rest(&p, k)),
        }
    } else if sp != 0 {
        if skip_void(&r, 0) < r.len() {
            return None;
        }
        assert(trim_left(r@).len() == 0);
        let mut out = String::new();
        push_chars(&mut out, &p, 0, 1);
        let tail = trimmed_rest(&p, 1);
        push_str(&mut out, tail.as_str());
        assert(out@ =~= path@.take(1) + trim_right(path@.skip(1)));
        Some(out)
    } else {
        match match_body_exec(&p, 0, &r, 0) {
            None => None,
            Some(k) => Some(trimmed_rest(&p, k)),
        }
    }
}

/// The record for a file found under `root` at `path`, or `None` when it is
/// smaller than `min_size` bytes. Its name is the last component of `path`
/// (empty when there is none) and its relative path is `path` relative to
/// `root` (the whole `path` when `root` does not lead it).
pub fn build_record(
    path: &str,
    root: &str,
    drive_id: i64,
    min_size: u64,
    file_size: u64,
    file_mtime: Timestamp,
    capture_date: Option<CaptureDateTime>,
    blake3_hash: Option<String>,
) -> (res: Option<ImageRecord>)
    ensures
        file_size < min_size ==> res is None,
        file_size >= min_size ==> (res matches Some(r) && r@.id is None && r@.drive_id == drive_id
            && r@.filename == match paths::file_name(path@) {
            Some(n) => n,
            None => seq![],
        } && r@.relative_path == match strip_root(path@, root@) {
            Some(rel) => rel,
            None => path@,
        } && r@.absolute_path == path@ && r@.file_size == file_size && r@.capture_date
            == capture_date && r@.file_mtime == file_mtime && r@.blake3_hash == opt_view(blake3_hash)),
{
    if file_size < min_size {
        return None;
    }
    let filename = match file_name_of(path) {
        Some(n) => n,
        None => String::new(),
    };
    let relative_path = match strip_root_exec(path, root) {
        Some(rel) => rel,
        None => path.to_owned(),
    };
    Some(
        ImageRecord {
            id: None,
            drive_id,
            filename,
            relative_path,
            absolute_path: path.to_owned(),
            file_size,
            capture_date,
            file_mtime,
            blake3_hash,
        },
    )
}

/// The calendar date a copied image is filed under: its capture date when
/// known, else the UTC date of its modification time.
pub open spec fn filing_date(img: crate::models::ImageView) -> (int, int, int) {
    match img.capture_date {
        Some(c) => (c.year as int, c.month as int, c.day as int),
        None => {
            let d = utc_calendar_date(img.file_mtime.spec_secs(), img.file_mtime.spec_nanos())->0;
            (d.0 as int, d.1 as int, d.2 as int)
        },
    }
}

/// `template` with `{year}`, `{month}` and `{day}` replaced, in that order,
/// by the four-digit year and two-digit month and day of `date`.
pub open spec fn filled_template(template: Seq<char>, date: (int, int, int)) -> Seq<char> {
    text::replaced(
        text::replaced(
            text::replaced(template, seq!['{', 'y', 'e', 'a', 'r', '}'], year_text(date.0)),
            seq!['{', 'm', 'o', 'n', 't', 'h', '}'],
            two_digit_text(date.1 as nat),
        ),
        seq!['{', 'd', 'a', 'y', '}'],
        two_digit_text(date.2 as nat),
    )
}

/// Where an image is copied to: `drive_root`, then the path template filled
/// with its filing date, then its file name, joined as paths.
pub open spec fn destination(drive_root: Seq<char>, img: crate::models::ImageView, template: Seq<char>) -> Seq<char> {
    paths::joined(
        paths::joined(drive_root, filled_template(template, filing_date(img))),
        img.filename,
    )
}

/// Builds the destination path for a file: `drive_root/yyyy/mm/dd/filename`
/// with the default template.
pub fn destination_path(drive_root: &str, image: &ImageRecord, path_template: &str) -> (res: String)
    ensures
        res@ == destination(drive_root@, image@, path_template@),
{
    let (year, month, day) = match image.capture_date {
        Some(c) => (c.year, c.month, c.day),
        None => image.file_mtime.utc_date(),
    };
    let year_s = format_year(year);
    let month_s = format_two_digits(month);
    let day_s = format_two_digits(day);
    proof {
        reveal_strlit("{year}");
        reveal_strlit("{month}");
        reveal_strlit("{day}");
    }
    let a = replace_all(path_template, "{year}", year_s.as_str());
    let b = replace_all(a.as_str(), "{month}", month_s.as_str());
    let subdir = replace_all(b.as_str(), "{day}", day_s.as_str());
    let dir = join_path(drive_root, subdir.as_str());
    assert("{year}"@ == seq!['{', 'y', 'e', 'a', 'r', '}']);
    assert("{month}"@ == seq!['{', 'm', 'o', 'n', 't', 'h', '}']);
    assert("{day}"@ == seq!['{', 'd', 'a', 'y', '}']);
    assert(year_s@ == year_text(filing_date(image@).0));
    assert(month_s@ == two_digit_text(filing_date(image@).1 as nat));
    assert(day_s@ == two_digit_text(filing_date(image@).2 as nat));
    assert(subdir@ == filled_template(path_template@, filing_date(image@)));
    join_path(dir.as_str(), image.filename.as_str())
}

} // verus!

verus! {

/// A copy keeps the file name of its source: the destination of an image
/// is named after it.
pub proof fn law_destination_keeps_name(drive_root: Seq<char>, img: crate::models::ImageView, template: Seq<char>)
    requires
        paths::is_plain_name(img.filename),
    ensures
        paths::file_name(destination(drive_root, img, template)) == Some(img.filename),
{
    paths::lemma_file_name_of_joined(
        paths::joined(drive_root, filled_template(template, filing_date(img))),
        img.filename,
    );
}

} // verus!
