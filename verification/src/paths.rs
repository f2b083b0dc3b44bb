//! Paths as `/`-separated character strings: file names, stems and
//! extensions, joining, and the choice of a free name for a copied file.
use vstd::prelude::*;
use crate::text;
use crate::text::{chars_of, push_char, push_chars, push_decimal, push_str, string_of};

verus! {

/// Index of the last occurrence of `c` in `s`, or -1 when there is none.
pub open spec fn last_index_of(s: Seq<char>, c: char) -> int
    decreases s.len(),
{
    if s.len() == 0 {
        -1
    } else if s.last() == c {
        s.len() - 1
    } else {
        last_index_of(s.drop_last(), c)
    }
}

/// Whether `p` ends in a `.` component (`"."` itself, or `"…/."`).
pub open spec fn ends_in_dot_component(p: Seq<char>) -> bool {
    p.len() >= 1 && p.last() == '.' && (p.len() == 1 || p[p.len() - 2] == '/')
}

/// `p` without its trailing separators and trailing `.` components, which
/// name nothing of their own.
pub open spec fn trim_tail(p: Seq<char>) -> Seq<char>
    decreases p.len(),
{
    if p.len() == 0 {
        p
    } else if p.last() == '/' || ends_in_dot_component(p) {
        trim_tail(p.drop_last())
    } else {
        p
    }
}

/// The last component of `p` after trimming, which may be empty or `..`.
pub open spec fn last_component(p: Seq<char>) -> Seq<char> {
    let t = trim_tail(p);
    t.skip(last_index_of(t, '/') + 1)
}

/// The final component of `p` when it names a file or directory: `None` for
/// an empty path, the root, or a path that ends in `..`.
pub open spec fn file_name(p: Seq<char>) -> Option<Seq<char>> {
    let n = last_component(p);
    if n.len() == 0 || n == seq!['.', '.'] {
        None
    } else {
        Some(n)
    }
}

/// The directory part of `p`: what precedes its last component, without
/// trailing separators (the root stays `/`).
pub open spec fn dir_part(p: Seq<char>) -> Seq<char> {
    let t = trim_tail(p);
    let k = last_index_of(t, '/');
    if k < 0 {
        seq![]
    } else {
        let d = trim_tail(t.take(k));
        if d.len() == 0 && t[0] == '/' {
            seq!['/']
        } else {
            d
        }
    }
}

/// `p` appended to `base` as a path: an absolute `p` replaces `base`, and a
/// separator is put between them unless `base` is empty or ends in one.
pub open spec fn joined(base: Seq<char>, p: Seq<char>) -> Seq<char> {
    if p.len() > 0 && p[0] == '/' {
        p
    } else if base.len() == 0 || base.last() == '/' {
        base + p
    } else {
        base + seq!['/'] + p
    }
}

/// The stem of a file name: all of it when it has no `.` past its first
/// character, else what precedes its last `.`.
pub open spec fn stem_of(name: Seq<char>) -> Seq<char> {
    let k = last_index_of(name, '.');
    if k <= 0 {
        name
    } else {
        name.take(k)
    }
}

/// The extension of a file name: what follows its last `.`, when that `.`
/// is not its first character.
pub open spec fn extension_of(name: Seq<char>) -> Option<Seq<char>> {
    let k = last_index_of(name, '.');
    if k <= 0 {
        None
    } else {
        Some(name.skip(k + 1))
    }
}

/// The views of a list of strings.
pub open spec fn views(v: Seq<String>) -> Seq<Seq<char>> {
    v.map_values(|s: String| s@)
}

/// The view of an optional string.
pub open spec fn opt_view(o: Option<String>) -> Option<Seq<char>> {
    match o {
        Some(s) => Some(s@),
        None => None,
    }
}

pub proof fn lemma_last_index_bounds(s: Seq<char>, c: char)
    ensures
        -1 <= last_index_of(s, c) < s.len(),
        last_index_of(s, c) >= 0 ==> s[last_index_of(s, c)] == c,
        forall|j: int| last_index_of(s, c) < j < s.len() ==> s[j] != c,
    decreases s.len(),
{
    if s.len() > 0 && s.last() != c {
        lemma_last_index_bounds(s.drop_last(), c);
        assert forall|j: int| last_index_of(s, c) < j < s.len() implies s[j] != c by {
            if j < s.len() - 1 {
                assert(s[j] == s.drop_last()[j]);
            }
        }
    }
}

proof fn lemma_trim_tail_is_prefix(p: Seq<char>)
    ensures
        trim_tail(p).len() <= p.len(),
        trim_tail(p) == p.take(trim_tail(p).len() as int),
    decreases p.len(),
{
    if p.len() > 0 && (p.last() == '/' || ends_in_dot_component(p)) {
        lemma_trim_tail_is_prefix(p.drop_last());
        assert(p.drop_last().take(trim_tail(p).len() as int) =~= p.take(
            trim_tail(p).len() as int,
        ));
    } else {
        assert(p.take(p.len() as int) =~= p);
    }
}

/// Length of `trim_tail(cs)`.
fn trimmed_len(cs: &Vec<char>) -> (e: usize)
    ensures
        e <= cs.len(),
        cs@.take(e as int) == trim_tail(cs@),
{
    let mut e = cs.len();
    assert(cs@.take(e as int) =~= cs@);
    while e > 0 && (cs[e - 1] == '/' || (cs[e - 1] == '.' && (e == 1 || cs[e - 2] == '/')))
        invariant
            e <= cs.len(),
            trim_tail(cs@) == trim_tail(cs@.take(e as int)),
        decreases e,
    {
        assert(cs@.take(e as int).drop_last() =~= cs@.take(e - 1));
        e = e - 1;
    }
    e
}

/// `last_index_of(cs[..e], c)`, as an option.
pub(crate) fn last_index_in(cs: &Vec<char>, e: usize, c: char) -> (res: Option<usize>)
    requires
        e <= cs.len(),
    ensures
        match res {
            Some(k) => k as int == last_index_of(cs@.take(e as int), c),
            None => last_index_of(cs@.take(e as int), c) == -1,
        },
{
    let mut j = e;
    while j > 0
        invariant
            j <= e <= cs.len(),
            last_index_of(cs@.take(e as int), c) == last_index_of(cs@.take(j as int), c),
        decreases j,
    {
        assert(cs@.take(j as int).drop_last() =~= cs@.take(j - 1));
        if cs[j - 1] == c {
            return Some(j - 1);
        }
        j = j - 1;
    }
    None
}

/// The final component of `path` when it names something (see [`file_name`]).
pub fn file_name_of(path: &str) -> (res: Option<String>)
    ensures
        opt_view(res) == file_name(path@),
{
    let cs = chars_of(path);
    let e = trimmed_len(&cs);
    proof {
        lemma_last_index_bounds(cs@.take(e as int), '/');
    }
    let start = match last_index_in(&cs, e, '/') {
        Some(k) => k + 1,
        None => 0,
    };
    let mut name = String::new();
    push_chars(&mut name, &cs, start, e);
    assert(name@ =~= last_component(path@));
    if e == start || (e - start == 2 && cs[start] == '.' && cs[start + 1] == '.') {
        proof {
            if e - start == 2 && cs@[start as int] == '.' && cs@[start + 1] == '.' {
                assert(name@ =~= seq!['.', '.']);
            }
        }
        None
    } else {
        proof {
            if name@ == seq!['.', '.'] {
                assert(name@[0] == cs@[start as int]);
                assert(name@[1] == cs@[start + 1]);
            }
        }
        Some(name)
    }
}

/// The directory part of `path` (see [`dir_part`]).
pub fn dir_of(path: &str) -> (res: String)
    ensures
        res@ == dir_part(path@),
{
    let cs = chars_of(path);
    let e = trimmed_len(&cs);
    match last_index_in(&cs, e, '/') {
        None => String::new(),
        Some(k) => {
            proof {
                lemma_last_index_bounds(cs@.take(e as int), '/');
            }
            let head = chars_of_prefix(&cs, k);
            let d = trimmed_len(&head);
            assert(head@ =~= trim_tail(path@).take(k as int));
            if d == 0 && cs[0] == '/' {
                let mut r = String::new();
                push_char(&mut r, '/');
                assert(r@ =~= seq!['/']);
                r
            } else {
                let mut r = String::new();
                push_chars(&mut r, &head, 0, d);
                assert(r@ =~= head@.take(d as int));
                r
            }
        },
    }
}

/// The first `k` characters of `cs`.
fn chars_of_prefix(cs: &Vec<char>, k: usize) -> (res: Vec<char>)
    requires
        k <= cs.len(),
    ensures
        res@ == cs@.take(k as int),
{
    let mut res: Vec<char> = Vec::new();
    let mut i: usize = 0;
    while i < k
        invariant
            i <= k <= cs.len(),
            res@ == cs@.take(i as int),
        decreases k - i,
    {
        res.push(cs[i]);
        assert(cs@.take(i + 1) =~= cs@.take(i as int).push(cs@[i as int]));
        i = i + 1;
    }
    res
}

/// `p` appended to `base` as a path (see [`joined`]).
pub fn join_path(base: &str, p: &str) -> (res: String)
    ensures
        res@ == joined(base@, p@),
{
    let bs = chars_of(base);
    let ps = chars_of(p);
    if ps.len() > 0 && ps[0] == '/' {
        return string_of(&ps);
    }
    let mut r = string_of(&bs);
    if bs.len() > 0 && bs[bs.len() - 1] != '/' {
        push_char(&mut r, '/');
    }
    push_str(&mut r, p);
    r
}

/// The stem and extension of a file name (see [`stem_of`], [`extension_of`]).
pub fn split_extension(name: &str) -> (res: (String, Option<String>))
    ensures
        res.0@ == stem_of(name@),
        opt_view(res.1) == extension_of(name@),
{
    let cs = chars_of(name);
    proof {
        lemma_last_index_bounds(name@, '.');
    }
    assert(cs@.take(cs.len() as int) =~= cs@);
    match last_index_in(&cs, cs.len(), '.') {
        Some(k) if k > 0 => {
            let mut stem = String::new();
            push_chars(&mut stem, &cs, 0, k);
            let mut ext = String::new();
            push_chars(&mut ext, &cs, k + 1, cs.len());
            assert(stem@ =~= name@.take(k as int));
            assert(ext@ =~= name@.skip(k + 1));
            (stem, Some(ext))
        },
        _ => (string_of(&cs), None),
    }
}

/// The name tried for the `i`-th renaming of a file called `name`:
/// `{stem}_{i}` followed by `.{extension}` when it has one.
pub open spec fn numbered_name(name: Seq<char>, i: nat) -> Seq<char> {
    stem_of(name) + seq!['_'] + text::decimal(i) + match extension_of(name) {
        Some(e) => seq!['.'] + e,
        None => seq![],
    }
}

/// The `i`-th alternative path for `dst`: its numbered name in its directory.
/// A destination without a file name is numbered from an empty name.
pub open spec fn numbered_path(dst: Seq<char>, i: nat) -> Seq<char> {
    let name = match file_name(dst) {
        Some(n) => n,
        None => seq![],
    };
    joined(dir_part(dst), numbered_name(name, i))
}


/// The name of the `i`-th alternative for `dst`.
pub open spec fn numbered_file_name(dst: Seq<char>, i: nat) -> Seq<char> {
    numbered_name(
        match file_name(dst) {
            Some(n) => n,
            None => seq![],
        },
        i,
    )
}

/// What `resolve_collision` gives for `dst`, which exists exactly when
/// `dst_exists`, when the names in `taken` already exist beside it: `dst`
/// itself when it does not exist, else its `k`-th alternative for the
/// first `k` whose name is free.
pub open spec fn is_resolution(dst: Seq<char>, dst_exists: bool, taken: Seq<Seq<char>>, res: Seq<char>) -> bool {
    if !dst_exists {
        res == dst
    } else {
        exists|k: nat|
            #![trigger numbered_path(dst, k)]
            k >= 1 && res == numbered_path(dst, k) && !taken.contains(numbered_file_name(dst, k))
                && forall|j: nat|
                #![trigger numbered_file_name(dst, j)]
                1 <= j < k ==> taken.contains(numbered_file_name(dst, j))
    }
}

proof fn lemma_decimal_nonempty(n: nat)
    ensures
        text::decimal(n).len() >= 1,
        n >= 10 ==> text::decimal(n).len() >= 2,
    decreases n,
{
    if n >= 10 {
        lemma_decimal_nonempty(n / 10);
    }
}

proof fn lemma_digit_injective(a: nat, b: nat)
    requires
        a < 10,
        b < 10,
        text::digit(a) == text::digit(b),
    ensures
        a == b,
{
}

/// Different numbers have different decimal representations.
pub proof fn lemma_decimal_injective(a: nat, b: nat)
    requires
        text::decimal(a) == text::decimal(b),
    ensures
        a == b,
    decreases a,
{
    lemma_decimal_nonempty(a);
    lemma_decimal_nonempty(b);
    if a < 10 && b < 10 {
        assert(text::decimal(a)[0] == text::digit(a));
        assert(text::decimal(b)[0] == text::digit(b));
        lemma_digit_injective(a, b);
    } else if a >= 10 && b >= 10 {
        assert(text::decimal(a).drop_last() =~= text::decimal(a / 10));
        assert(text::decimal(b).drop_last() =~= text::decimal(b / 10));
        assert(text::decimal(a).last() == text::digit(a % 10));
        lemma_digit_injective(a % 10, b % 10);
        lemma_decimal_injective(a / 10, b / 10);
    }
}

proof fn lemma_numbered_name_injective(name: Seq<char>, i: nat, j: nat)
    requires
        numbered_name(name, i) == numbered_name(name, j),
    ensures
        i == j,
{
    let s = stem_of(name);
    let e = match extension_of(name) {
        Some(x) => seq!['.'] + x,
        None => seq![],
    };
    let a = numbered_name(name, i);
    assert(a =~= s + seq!['_'] + text::decimal(i) + e);
    assert(numbered_name(name, j) =~= s + seq!['_'] + text::decimal(j) + e);
    assert(text::decimal(i).len() == text::decimal(j).len());
    let lo = s.len() + 1;
    assert(a.subrange(lo as int, (lo + text::decimal(i).len()) as int) =~= text::decimal(i));
    assert(numbered_name(name, j).subrange(lo as int, (lo + text::decimal(j).len()) as int) =~= text::decimal(j));
    lemma_decimal_injective(i, j);
}

/// The name of a path, or the empty name.
fn name_or_empty(dst: &str) -> (res: String)
    ensures
        res@ == match file_name(dst@) {
            Some(n) => n,
            None => seq![],
        },
{
    match file_name_of(dst) {
        Some(n) => n,
        None => String::new(),
    }
}

/// Whether `name` is one of `taken`.
fn contains_name(taken: &Vec<String>, name: &String) -> (res: bool)
    ensures
        res == views(taken@).contains(name@),
{
    let mut i: usize = 0;
    while i < taken.len()
        invariant
            i <= taken.len(),
            forall|j: int| 0 <= j < i ==> taken@[j]@ != name@,
        decreases taken.len() - i,
    {
        if taken[i] == *name {
            assert(views(taken@)[i as int] == name@);
            return true;
        }
        i = i + 1;
    }
    proof {
        if views(taken@).contains(name@) {
            let j = choose|j: int| 0 <= j < views(taken@).len() && views(taken@)[j] == name@;
            assert(taken@[j]@ == name@);
        }
    }
    false
}

/// The numbered name for `name`, built from its stem and extension.
fn numbered_name_exec(stem: &String, ext: &Option<String>, i: u64) -> (res: String)
    ensures
        res@ == stem@ + seq!['_'] + text::decimal(i as nat) + match opt_view(*ext) {
            Some(e) => seq!['.'] + e,
            None => seq![],
        },
{
    let mut r = stem.clone();
    push_char(&mut r, '_');
    push_decimal(&mut r, i);
    match ext {
        Some(e) => {
            push_char(&mut r, '.');
            push_str(&mut r, e.as_str());
        },
        None => {},
    }
    assert(r@ =~= stem@ + seq!['_'] + text::decimal(i as nat) + match opt_view(*ext) {
        Some(e) => seq!['.'] + e,
        None => seq![],
    });
    r
}

/// Keeps `dst` when it does not exist (`dst_exists` tells); otherwise gives
/// the first of `{stem}_1{ext}`, `{stem}_2{ext}`, … beside it whose name is
/// free. `taken` holds the names that already exist in the directory of
/// `dst`.
pub fn resolve_collision(dst: &str, dst_exists: bool, taken: &Vec<String>) -> (res: String)
    requires
        taken.len() < usize::MAX,
    ensures
        is_resolution(dst@, dst_exists, views(taken@), res@),
{
    if !dst_exists {
        return dst.to_owned();
    }
    let name = name_or_empty(dst);
    let dir = dir_of(dst);
    let (stem, ext) = split_extension(name.as_str());
    let ghost tk = views(taken@);
    let ghost mut seen: Set<Seq<char>> = Set::empty();
    let mut i: usize = 1;
    proof {
        tk.lemma_cardinality_of_set();
        assert(taken@.len() == tk.len());
    }
    loop
        invariant
            1 <= i <= taken.len() + 1,
            taken.len() < usize::MAX,
            tk == views(taken@),
            dst_exists,
            name@ == match file_name(dst@) {
                Some(n) => n,
                None => seq![],
            },
            stem@ == stem_of(name@),
            opt_view(ext) == extension_of(name@),
            dir@ == dir_part(dst@),
            forall|j: nat|
                #![trigger numbered_file_name(dst@, j)]
                1 <= j < i ==> tk.contains(numbered_file_name(dst@, j)),
            seen.len() == i - 1,
            seen.finite(),
            seen.subset_of(tk.to_set()),
            forall|x: Seq<char>| seen.contains(x) ==> exists|j: nat| 1 <= j < i && x == numbered_file_name(dst@, j),
            tk.to_set().len() <= tk.len(),
        decreases taken.len() + 1 - i,
    {
        let candidate_name = numbered_name_exec(&stem, &ext, i as u64);
        assert(candidate_name@ == numbered_file_name(dst@, i as nat));
        if !contains_name(taken, &candidate_name) {
            let r = join_path(dir.as_str(), candidate_name.as_str());
            proof {
                assert(r@ == numbered_path(dst@, i as nat));
            }
            return r;
        }
        proof {
            let c = numbered_file_name(dst@, i as nat);
            if seen.contains(c) {
                let j = choose|j: nat| 1 <= j < i && c == numbered_file_name(dst@, j);
                lemma_numbered_name_injective(name@, i as nat, j);
            }
            assert(tk.to_set().contains(c));
            let next = seen.insert(c);
            vstd::set_lib::lemma_len_subset(next, tk.to_set());
            assert forall|x: Seq<char>| next.contains(x) implies exists|j: nat| 1 <= j < i + 1 && x == numbered_file_name(dst@, j) by {
                if x != c {
                    let j = choose|j: nat| 1 <= j < i && x == numbered_file_name(dst@, j);
                    assert(1 <= j < i + 1);
                }
            }
            seen = next;
        }
        i = i + 1;
    }
}

} // verus!

verus! {

/// Whether `n` can be the name of a file: non-empty, without separators,
/// and neither `.` nor `..`.
pub open spec fn is_plain_name(n: Seq<char>) -> bool {
    &&& n.len() > 0
    &&& forall|i: int| 0 <= i < n.len() ==> n[i] != '/'
    &&& n != seq!['.']
    &&& n != seq!['.', '.']
}

proof fn lemma_last_index_append(a: Seq<char>, b: Seq<char>, c: char)
    requires
        forall|i: int| 0 <= i < b.len() ==> b[i] != c,
    ensures
        last_index_of(a + b, c) == last_index_of(a, c),
    decreases b.len(),
{
    if b.len() > 0 {
        assert((a + b).drop_last() =~= a + b.drop_last());
        assert((a + b).last() == b.last());
        lemma_last_index_append(a, b.drop_last(), c);
    } else {
        assert(a + b =~= a);
    }
}

/// A plain name appended to any directory is the file name of the result.
pub proof fn lemma_file_name_of_joined(base: Seq<char>, n: Seq<char>)
    requires
        is_plain_name(n),
    ensures
        file_name(joined(base, n)) == Some(n),
{
    let p = joined(base, n);
    let pre = if base.len() == 0 || base.last() == '/' { base } else { base + seq!['/'] };
    assert(p =~= pre + n);
    assert(p.last() == n.last());
    if n.len() >= 2 {
        assert(p[p.len() - 2] == n[n.len() - 2]);
    }
    assert(!ends_in_dot_component(p)) by {
        if n.len() == 1 && n[0] == '.' {
            assert(n =~= seq!['.']);
        }
    }
    assert(trim_tail(p) == p);
    lemma_last_index_append(pre, n, '/');
    if pre.len() > 0 {
        assert(pre.last() == '/');
        assert(last_index_of(pre, '/') == pre.len() - 1);
    }
    assert(last_component(p) =~= n);
}

/// A file name holds no separator.
pub proof fn lemma_file_name_is_plain(p: Seq<char>)
    requires
        file_name(p) is Some,
    ensures
        is_plain_name(file_name(p)->0),
{
    let t = trim_tail(p);
    let k = last_index_of(t, '/');
    lemma_last_index_bounds(t, '/');
    let n = t.skip(k + 1);
    assert forall|i: int| 0 <= i < n.len() implies n[i] != '/' by {
        assert(n[i] == t[k + 1 + i]);
    }
    assert(n != seq!['.']) by {
        if n == seq!['.'] {
            lemma_trim_tail_result(p);
            assert(n.len() == 1);
            assert(k + 1 == t.len() - 1);
            assert(n[0] == t[k + 1]);
            assert(t.last() == '.');
            if t.len() >= 2 {
                assert(t[t.len() - 2] == '/');
            }
            assert(ends_in_dot_component(t));
        }
    }
}

proof fn lemma_trim_tail_result(p: Seq<char>)
    ensures
        trim_tail(p).len() == 0 || (trim_tail(p).last() != '/' && !ends_in_dot_component(trim_tail(p))),
    decreases p.len(),
{
    if p.len() > 0 && (p.last() == '/' || ends_in_dot_component(p)) {
        lemma_trim_tail_result(p.drop_last());
    }
}

/// The numbered alternative of a name is a plain name.
proof fn lemma_numbered_name_plain(name: Seq<char>, i: nat)
    requires
        name.len() == 0 || is_plain_name(name),
    ensures
        is_plain_name(numbered_name(name, i)),
{
    let s = stem_of(name);
    let e = match extension_of(name) {
        Some(x) => seq!['.'] + x,
        None => seq![],
    };
    let d = text::decimal(i);
    let r = numbered_name(name, i);
    assert(r =~= s + seq!['_'] + d + e);
    let k = last_index_of(name, '.');
    lemma_last_index_bounds(name, '.');
    lemma_decimal_digits(i);
    assert forall|j: int| 0 <= j < r.len() implies r[j] != '/' by {
        if j < s.len() {
            assert(r[j] == s[j]);
            assert(s[j] == name[j]);
        } else if j == s.len() {
            assert(r[j] == '_');
        } else if j < s.len() + 1 + d.len() {
            assert(r[j] == d[j - s.len() - 1]);
        } else {
            let m = j - s.len() - 1 - d.len();
            assert(r[j] == e[m]);
            if m > 0 {
                assert(e[m] == name[k + m]);
            }
        }
    }
    assert(r[s.len() as int] == '_');
    assert(r != seq!['.']) by {
        if r == seq!['.'] {
            assert(r.len() == 1);
            assert(s.len() == 0);
        }
    }
    assert(r != seq!['.', '.']) by {
        if r == seq!['.', '.'] {
            assert(r[s.len() as int] == '_');
        }
    }
}

proof fn lemma_decimal_digits(n: nat)
    ensures
        forall|j: int| 0 <= j < text::decimal(n).len() ==> text::decimal(n)[j] != '/',
    decreases n,
{
    if n >= 10 {
        lemma_decimal_digits(n / 10);
        let d = text::decimal(n);
        assert forall|j: int| 0 <= j < d.len() implies d[j] != '/' by {
            if j < d.len() - 1 {
                assert(d[j] == text::decimal(n / 10)[j]);
            }
        }
    }
}

/// The path that collision resolution picks does not exist: it is the
/// destination when that does not exist, or a numbered name that is free in
/// the destination's directory. When the destination's existence agrees with
/// the names beside it, the picked name is free there either way: the copy
/// never lands on an existing file.
pub proof fn law_resolution_is_free(dst: Seq<char>, dst_exists: bool, taken: Seq<Seq<char>>, res: Seq<char>)
    requires
        is_resolution(dst, dst_exists, taken, res),
    ensures
        (res == dst && !dst_exists) || (file_name(res) matches Some(n) && !taken.contains(n)),
        (file_name(dst) matches Some(n) && dst_exists == taken.contains(n)) ==> (file_name(res) matches Some(
            m,
        ) && !taken.contains(m)),
{
    if dst_exists {
        let k = choose|k: nat|
            #![trigger numbered_path(dst, k)]
            k >= 1 && res == numbered_path(dst, k) && !taken.contains(numbered_file_name(dst, k))
                && forall|j: nat|
                #![trigger numbered_file_name(dst, j)]
                1 <= j < k ==> taken.contains(numbered_file_name(dst, j));
        let name = match file_name(dst) {
            Some(n) => n,
            None => seq![],
        };
        if file_name(dst) is Some {
            lemma_file_name_is_plain(dst);
        }
        lemma_numbered_name_plain(name, k);
        lemma_file_name_of_joined(dir_part(dst), numbered_name(name, k));
    }
}

} // verus!
