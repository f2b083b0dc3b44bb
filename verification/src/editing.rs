//! Editing a text field whose cursor is a byte offset into its UTF-8
//! encoding, as the input fields of the terminal interface keep it.
use vstd::prelude::*;
use crate::text::{chars_of, push_char, push_chars};

verus! {

/// The number of bytes `c` takes in UTF-8.
pub open spec fn utf8_width(c: char) -> nat {
    let v = c as u32;
    if v < 0x80 {
        1
    } else if v < 0x800 {
        2
    } else if v < 0x10000 {
        3
    } else {
        4
    }
}

/// The number of bytes `s` takes in UTF-8.
pub open spec fn byte_len(s: Seq<char>) -> nat
    decreases s.len(),
{
    if s.len() == 0 {
        0
    } else {
        byte_len(s.drop_last()) + utf8_width(s.last())
    }
}

/// Whether byte offset `b` falls between two characters of `s` (or at
/// either end).
pub open spec fn is_boundary(s: Seq<char>, b: int) -> bool {
    exists|k: int| 0 <= k <= s.len() && #[trigger] byte_len(s.take(k)) == b
}

/// The number of characters before byte offset `b`.
pub open spec fn boundary_index(s: Seq<char>, b: int) -> int {
    choose|k: int| 0 <= k <= s.len() && #[trigger] byte_len(s.take(k)) == b
}

/// `s` with `c` inserted at byte offset `b`.
pub open spec fn inserted(s: Seq<char>, b: int, c: char) -> Seq<char> {
    let k = boundary_index(s, b);
    s.take(k).push(c) + s.skip(k)
}

/// `s` and cursor `b` after deleting the character before the cursor
/// (nothing happens at offset 0).
pub open spec fn backspaced(s: Seq<char>, b: int) -> (Seq<char>, int) {
    if b == 0 {
        (s, 0)
    } else {
        let k = boundary_index(s, b);
        (s.take(k - 1) + s.skip(k), byte_len(s.take(k - 1)) as int)
    }
}

proof fn lemma_byte_len_step(s: Seq<char>, k: int)
    requires
        0 <= k < s.len(),
    ensures
        byte_len(s.take(k + 1)) == byte_len(s.take(k)) + utf8_width(s[k]),
{
    assert(s.take(k + 1).drop_last() =~= s.take(k));
}

proof fn lemma_byte_len_increasing(s: Seq<char>, i: int, j: int)
    requires
        0 <= i < j <= s.len(),
    ensures
        byte_len(s.take(i)) < byte_len(s.take(j)),
    decreases j - i,
{
    lemma_byte_len_step(s, j - 1);
    if i < j - 1 {
        lemma_byte_len_increasing(s, i, j - 1);
    }
}

proof fn lemma_boundary_unique(s: Seq<char>, b: int, k: int)
    requires
        0 <= k <= s.len(),
        byte_len(s.take(k)) == b,
    ensures
        boundary_index(s, b) == k,
{
    let c = boundary_index(s, b);
    assert(is_boundary(s, b));
    if c < k {
        lemma_byte_len_increasing(s, c, k);
    } else if c > k {
        lemma_byte_len_increasing(s, k, c);
    }
}

proof fn lemma_byte_len_concat(a: Seq<char>, b: Seq<char>)
    ensures
        byte_len(a + b) == byte_len(a) + byte_len(b),
    decreases b.len(),
{
    if b.len() > 0 {
        assert((a + b).drop_last() =~= a + b.drop_last());
        lemma_byte_len_concat(a, b.drop_last());
    } else {
        assert(a + b =~= a);
    }
}

proof fn lemma_encode_len(s: Seq<char>)
    ensures
        vstd::utf8::encode_utf8(s).len() == byte_len(s),
    decreases s.len(),
{
    if s.len() > 0 {
        lemma_encode_len(s.drop_first());
        assert(seq![s[0]] + s.drop_first() =~= s);
        lemma_byte_len_concat(seq![s[0]], s.drop_first());
        let one = seq![s[0]];
        assert(one.drop_last() =~= Seq::<char>::empty());
        assert(byte_len(one.drop_last()) == 0);
        assert(one.last() == s[0]);
        assert(byte_len(one) == utf8_width(s[0]));
        vstd::utf8::char_is_scalar(s[0]);
        assert(vstd::utf8::encode_scalar(s[0] as u32).len() == utf8_width(s[0]));
        assert(vstd::utf8::encode_utf8(s) == vstd::utf8::encode_scalar(s[0] as u32) + vstd::utf8::encode_utf8(
            s.drop_first(),
        ));
    }
}

/// The UTF-8 width of `c`.
fn char_width(c: char) -> (w: usize)
    ensures
        w == utf8_width(c),
{
    let v = c as u32;
    if v < 0x80 {
        1
    } else if v < 0x800 {
        2
    } else if v < 0x10000 {
        3
    } else {
        4
    }
}

/// The number of characters of `cs` before byte offset `b`, a boundary.
fn index_of_boundary(cs: &Vec<char>, b: usize) -> (k: usize)
    requires
        is_boundary(cs@, b as int),
    ensures
        k as int == boundary_index(cs@, b as int),
        k <= cs.len(),
        byte_len(cs@.take(k as int)) == b,
{
    let ghost target = boundary_index(cs@, b as int);
    let mut k: usize = 0;
    let mut pos: usize = 0;
    assert(cs@.take(0) =~= Seq::<char>::empty());
    while pos < b
        invariant
            0 <= target <= cs.len(),
            byte_len(cs@.take(target)) == b,
            k <= target,
            pos == byte_len(cs@.take(k as int)),
            pos <= b,
        decreases cs.len() - k,
    {
        proof {
            if k == target {
                assert(false);
            }
            lemma_byte_len_step(cs@, k as int);
            if k + 1 < target {
                lemma_byte_len_increasing(cs@, k + 1, target);
            }
        }
        pos = pos + char_width(cs[k]);
        k = k + 1;
    }
    proof {
        if k < target {
            lemma_byte_len_increasing(cs@, k as int, target);
        }
        lemma_boundary_unique(cs@, b as int, k as int);
    }
    k
}

/// Inserts `c` into `buf` at byte offset `*cursor`, and moves the cursor
/// past it.
pub fn insert_char(buf: &mut String, cursor: &mut usize, c: char)
    requires
        is_boundary(old(buf)@, *old(cursor) as int),
    ensures
        final(buf)@ == inserted(old(buf)@, *old(cursor) as int, c),
        *final(cursor) == *old(cursor) + utf8_width(c),
{
    let cs = chars_of(buf.as_str());
    let k = index_of_boundary(&cs, *cursor);
    let mut out = String::new();
    push_chars(&mut out, &cs, 0, k);
    push_char(&mut out, c);
    push_chars(&mut out, &cs, k, cs.len());
    assert(out@ =~= inserted(old(buf)@, *old(cursor) as int, c));
    let total = out.as_str().as_bytes().len();
    proof {
        let pre = cs@.take(k as int).push(c);
        assert(out@ =~= pre + cs@.skip(k as int));
        lemma_byte_len_concat(pre, cs@.skip(k as int));
        assert(pre.drop_last() =~= cs@.take(k as int));
        lemma_encode_len(out@);
    }
    *buf = out;
    *cursor = *cursor + char_width(c);
}

/// Deletes the character before byte offset `*cursor` from `buf`, and moves
/// the cursor to where that character began (nothing happens at offset 0).
pub fn backspace_input(buf: &mut String, cursor: &mut usize)
    requires
        *old(cursor) == 0 || is_boundary(old(buf)@, *old(cursor) as int),
    ensures
        (final(buf)@, *final(cursor) as int) == backspaced(old(buf)@, *old(cursor) as int),
{
    if *cursor > 0 {
        let cs = chars_of(buf.as_str());
        let k = index_of_boundary(&cs, *cursor);
        if k == 0 {
            assert(cs@.take(0) =~= Seq::<char>::empty());
            assert(false);
        }
        proof {
            lemma_byte_len_step(cs@, k - 1);
        }
        let mut out = String::new();
        push_chars(&mut out, &cs, 0, k - 1);
        push_chars(&mut out, &cs, k, cs.len());
        let prev = *cursor - char_width(cs[k - 1]);
        assert(out@ =~= backspaced(old(buf)@, *old(cursor) as int).0);
        *buf = out;
        *cursor = prev;
    }
}

} // verus!

verus! {

/// Typing a character and then deleting it with Backspace gives back the
/// text and the cursor from before; the cursor stays on a character
/// boundary after either edit.
pub proof fn law_backspace_undoes_insert(s: Seq<char>, b: int, c: char)
    requires
        is_boundary(s, b),
    ensures
        is_boundary(inserted(s, b, c), b + utf8_width(c)),
        backspaced(inserted(s, b, c), b + utf8_width(c)) == (s, b),
{
    let k = boundary_index(s, b);
    let t = inserted(s, b, c);
    assert(t.take(k) =~= s.take(k));
    assert(t.take(k + 1).drop_last() =~= s.take(k));
    assert(t.take(k + 1).last() == c);
    assert(byte_len(t.take(k + 1)) == b + utf8_width(c));
    assert(is_boundary(t, b + utf8_width(c)));
    lemma_boundary_unique(t, b + utf8_width(c), k + 1);
    assert(t.take(k) + t.skip(k + 1) =~= s);
}

/// After Backspace the cursor is still on a character boundary.
pub proof fn law_backspace_keeps_boundary(s: Seq<char>, b: int)
    requires
        b == 0 || is_boundary(s, b),
    ensures
        is_boundary(backspaced(s, b).0, backspaced(s, b).1),
{
    if b == 0 {
        assert(s.take(0) =~= Seq::<char>::empty());
        assert(byte_len(s.take(0)) == 0);
    } else {
        let k = boundary_index(s, b);
        if k == 0 {
            assert(s.take(0) =~= Seq::<char>::empty());
        } else {
            let t = s.take(k - 1) + s.skip(k);
            assert(t.take(k - 1) =~= s.take(k - 1));
            assert(byte_len(t.take(k - 1)) == backspaced(s, b).1);
        }
    }
}

} // verus!
