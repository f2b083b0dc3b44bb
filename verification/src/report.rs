//! The text of the check report, line by line.
use vstd::prelude::*;
use crate::cli::OutputFormat;
use crate::models::{candidate_views, CandidateView, CopyCandidate, DuplicateStatus, StatusView};
use crate::text;
use crate::text::{push_char, push_decimal, push_str};

verus! {

/// The reason column of the table report.
pub open spec fn reason_text(s: StatusView) -> Seq<char> {
    match s {
        StatusView::New => seq!['n', 'e', 'w'],
        StatusView::SizeConflict => seq!['s', 'i', 'z', 'e', '-', 'c', 'o', 'n', 'f', 'l', 'i', 'c', 't'],
        _ => seq!['h', 'a', 's', 'h', '-', 'c', 'o', 'n', 'f', 'l', 'i', 'c', 't'],
    }
}

/// The status as the JSON report names it.
pub open spec fn status_name(s: StatusView) -> Seq<char> {
    match s {
        StatusView::New => seq!['N', 'e', 'w'],
        StatusView::SizeConflict => seq!['S', 'i', 'z', 'e', 'C', 'o', 'n', 'f', 'l', 'i', 'c', 't'],
        _ => seq!['H', 'a', 's', 'h', 'C', 'o', 'n', 'f', 'l', 'i', 'c', 't'],
    }
}

/// Whether none of the candidates is already present.
pub open spec fn all_to_copy(cs: Seq<CandidateView>) -> bool {
    forall|i: int| 0 <= i < cs.len() ==> !((#[trigger] cs[i]).status is AlreadyExists)
}

/// `"\n{n} files to copy:"`
pub open spec fn table_header(n: nat) -> Seq<char> {
    seq!['\n'] + text::decimal(n) + " files to copy:"@
}

/// `"  [{reason:14}] {filename} -> {destination}"`
pub open spec fn table_row(c: CandidateView) -> Seq<char> {
    "  ["@ + text::space_padded(reason_text(c.status), 14) + "] "@ + c.source.filename + " -> "@
        + c.destination_path
}

/// `"\n{m} files already on drive (skipped)."`
pub open spec fn table_footer(m: nat) -> Seq<char> {
    seq!['\n'] + text::decimal(m) + " files already on drive (skipped)."@
}

/// The table report: a header, one row per file to copy, and a count of
/// the files already present when there are any.
pub open spec fn table_report(to_copy: Seq<CandidateView>, already: nat) -> Seq<Seq<char>> {
    seq![table_header(to_copy.len())] + to_copy.map_values(|c: CandidateView| table_row(c)) + if already
        > 0 {
        seq![table_footer(already)]
    } else {
        seq![]
    }
}

/// One entry of the JSON report, with a comma unless it is the last.
pub open spec fn json_row(c: CandidateView, last: bool) -> Seq<char> {
    "    {\"filename\": \""@ + c.source.filename + "\", \"destination\": \""@ + c.destination_path
        + "\", \"status\": \""@ + status_name(c.status) + "\"}"@ + if last {
        seq![]
    } else {
        seq![',']
    }
}

/// The JSON report: the files to copy and the number already present.
pub open spec fn json_report(to_copy: Seq<CandidateView>, already: nat) -> Seq<Seq<char>> {
    seq!["{"@, "  \"to_copy\": ["@] + Seq::new(
        to_copy.len(),
        |i: int| json_row(to_copy[i], i + 1 == to_copy.len()),
    ) + seq!["  ],"@, "  \"already_exists\": "@ + text::decimal(already), "}"@]
}

/// The paths report: the source path of each file to copy.
pub open spec fn paths_report(to_copy: Seq<CandidateView>) -> Seq<Seq<char>> {
    to_copy.map_values(|c: CandidateView| c.source.absolute_path)
}

/// The report in the given format.
pub open spec fn report(to_copy: Seq<CandidateView>, already: nat, format: OutputFormat) -> Seq<Seq<char>> {
    match format {
        OutputFormat::Table => table_report(to_copy, already),
        OutputFormat::Json => json_report(to_copy, already),
        OutputFormat::Paths => paths_report(to_copy),
    }
}

/// The views of a list of lines.
pub open spec fn line_views(v: Seq<String>) -> Seq<Seq<char>> {
    v.map_values(|s: String| s@)
}

fn push_reason(s: &mut String, status: &DuplicateStatus)
    requires
        !(status@ is AlreadyExists),
    ensures
        final(s)@ == old(s)@ + text::space_padded(reason_text(status@), 14),
{
    match status {
        DuplicateStatus::New => {
            proof { reveal_strlit("new           "); }
            push_str(s, "new           ");
        },
        DuplicateStatus::SizeConflict => {
            proof { reveal_strlit("size-conflict "); }
            push_str(s, "size-conflict ");
        },
        _ => {
            proof { reveal_strlit("hash-conflict "); }
            push_str(s, "hash-conflict ");
        },
    }
    assert(s@ =~= old(s)@ + text::space_padded(reason_text(status@), 14));
}

fn push_status_name(s: &mut String, status: &DuplicateStatus)
    requires
        !(status@ is AlreadyExists),
    ensures
        final(s)@ == old(s)@ + status_name(status@),
{
    match status {
        DuplicateStatus::New => {
            proof { reveal_strlit("New"); }
            push_str(s, "New");
        },
        DuplicateStatus::SizeConflict => {
            proof { reveal_strlit("SizeConflict"); }
            push_str(s, "SizeConflict");
        },
        _ => {
            proof { reveal_strlit("HashConflict"); }
            push_str(s, "HashConflict");
        },
    }
    assert(s@ =~= old(s)@ + status_name(status@));
}

/// The lines of the check report for the files to copy and the number of
/// files already on the drive.
pub fn report_lines(to_copy: &Vec<CopyCandidate>, already: usize, format: OutputFormat) -> (res: Vec<String>)
    requires
        all_to_copy(candidate_views(to_copy@)),
    ensures
        line_views(res@) == report(candidate_views(to_copy@), already as nat, format),
{
    let ghost tc = candidate_views(to_copy@);
    let mut lines: Vec<String> = Vec::new();
    match format {
        OutputFormat::Table => {
            let mut h = String::new();
            push_char(&mut h, '\n');
            push_decimal(&mut h, to_copy.len() as u64);
            push_str(&mut h, " files to copy:");
            assert(h@ =~= table_header(tc.len()));
            lines.push(h);
            assert(line_views(lines@) =~= seq![table_header(tc.len())] + tc.take(0).map_values(
                |c: CandidateView| table_row(c),
            ));
            let mut i: usize = 0;
            while i < to_copy.len()
                invariant
                    i <= to_copy.len(),
                    tc == candidate_views(to_copy@),
                    all_to_copy(tc),
                    line_views(lines@) == seq![table_header(tc.len())] + tc.take(i as int).map_values(
                        |c: CandidateView| table_row(c),
                    ),
                decreases to_copy.len() - i,
            {
                let c = &to_copy[i];
                assert(tc[i as int] == c@);
                assert(!(tc[i as int].status is AlreadyExists));
                let mut r = String::new();
                push_str(&mut r, "  [");
                push_reason(&mut r, &c.status);
                push_str(&mut r, "] ");
                push_str(&mut r, c.source.filename.as_str());
                push_str(&mut r, " -> ");
                push_str(&mut r, c.destination_path.as_str());
                assert(r@ =~= table_row(tc[i as int]));
                let ghost before = line_views(lines@);
                lines.push(r);
                assert(line_views(lines@) =~= before.push(table_row(tc[i as int])));
                assert(tc.take(i + 1).map_values(|c: CandidateView| table_row(c)) =~= tc.take(i as int).map_values(
                    |c: CandidateView| table_row(c),
                ).push(table_row(tc[i as int])));
                i = i + 1;
            }
            if already > 0 {
                let mut f = String::new();
                push_char(&mut f, '\n');
                push_decimal(&mut f, already as u64);
                push_str(&mut f, " files already on drive (skipped).");
                assert(f@ =~= table_footer(already as nat));
                lines.push(f);
            }
            assert(tc.take(tc.len() as int) =~= tc);
            assert(line_views(lines@) =~= table_report(tc, already as nat));
        },
        OutputFormat::Json => {
            lines.push("{".to_owned());
            lines.push("  \"to_copy\": [".to_owned());
            assert(line_views(lines@) =~= seq!["{"@, "  \"to_copy\": ["@] + Seq::new(
                0,
                |j: int| json_row(tc[j], j + 1 == tc.len()),
            ));
            let mut i: usize = 0;
            while i < to_copy.len()
                invariant
                    i <= to_copy.len(),
                    tc == candidate_views(to_copy@),
                    all_to_copy(tc),
                    line_views(lines@) == seq!["{"@, "  \"to_copy\": ["@] + Seq::new(
                        i as nat,
                        |j: int| json_row(tc[j], j + 1 == tc.len()),
                    ),
                decreases to_copy.len() - i,
            {
                let c = &to_copy[i];
                assert(tc[i as int] == c@);
                let mut r = String::new();
                push_str(&mut r, "    {\"filename\": \"");
                push_str(&mut r, c.source.filename.as_str());
                push_str(&mut r, "\", \"destination\": \"");
                push_str(&mut r, c.destination_path.as_str());
                push_str(&mut r, "\", \"status\": \"");
                push_status_name(&mut r, &c.status);
                push_str(&mut r, "\"}");
                if i + 1 < to_copy.len() {
                    push_char(&mut r, ',');
                }
                assert(r@ =~= json_row(tc[i as int], i + 1 == tc.len()));
                let ghost before = line_views(lines@);
                lines.push(r);
                assert(line_views(lines@) =~= before.push(json_row(tc[i as int], i + 1 == tc.len())));
                assert(Seq::new((i + 1) as nat, |j: int| json_row(tc[j], j + 1 == tc.len())) =~= Seq::new(
                    i as nat,
                    |j: int| json_row(tc[j], j + 1 == tc.len()),
                ).push(json_row(tc[i as int], i + 1 == tc.len())));
                assert(line_views(lines@) =~= seq!["{"@, "  \"to_copy\": ["@] + Seq::new(
                    (i + 1) as nat,
                    |j: int| json_row(tc[j], j + 1 == tc.len()),
                ));
                i = i + 1;
            }
            lines.push("  ],".to_owned());
            let mut a = String::new();
            push_str(&mut a, "  \"already_exists\": ");
            push_decimal(&mut a, already as u64);
            lines.push(a);
            lines.push("}".to_owned());
            assert(line_views(lines@) =~= json_report(tc, already as nat));
        },
        OutputFormat::Paths => {
            let mut i: usize = 0;
            while i < to_copy.len()
                invariant
                    i <= to_copy.len(),
                    tc == candidate_views(to_copy@),
                    lines.len() == i,
                    forall|j: int| 0 <= j < i ==> #[trigger] lines@[j]@ == tc[j].source.absolute_path,
                decreases to_copy.len() - i,
            {
                assert(tc[i as int] == to_copy@[i as int]@);
                lines.push(to_copy[i].source.absolute_path.clone());
                i = i + 1;
            }
            assert(line_views(lines@) =~= paths_report(tc));
        },
    }
    lines
}

} // verus!
