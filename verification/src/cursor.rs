//! Editing a line of text at a byte cursor.
//!
//! A cursor counts the bytes of the UTF-8 encoding that stand before it, so it
//! always lies between two characters. The functions here find the character
//! position of a cursor and insert, delete and step by whole characters.
use vstd::prelude::*;
use vstd::string::*;
use crate::text::{chars_of, string_of};

verus! {

/// The number of bytes that a character takes in UTF-8.
pub open spec fn utf8_len(c: char) -> nat {
    let n = c as int;
    if n < 0x80 {
        1
    } else if n < 0x800 {
        2
    } else if n < 0x10000 {
        3
    } else {
        4
    }
}

/// The number of bytes that a character takes in UTF-8.
pub fn utf8_len_of(c: char) -> (r: usize)
    ensures
        r == utf8_len(c),
        1 <= r <= 4,
{
    let n: u32 = c as u32;
    if n < 0x80 {
        1
    } else if n < 0x800 {
        2
    } else if n < 0x10000 {
        3
    } else {
        4
    }
}

/// The number of bytes that a text takes in UTF-8.
pub open spec fn byte_len(s: Seq<char>) -> nat
    decreases s.len(),
{
    if s.len() == 0 {
        0
    } else {
        byte_len(s.drop_last()) + utf8_len(s.last())
    }
}

/// Whether a byte offset lies between two characters of `s`, or at one of its
/// ends.
pub open spec fn on_boundary(s: Seq<char>, offset: nat) -> bool {
    exists|k: int| 0 <= k <= s.len() && byte_len(s.take(k)) == offset
}

/// The number of characters that stand before a byte offset on a boundary.
pub open spec fn char_pos(s: Seq<char>, offset: nat) -> int {
    choose|k: int| 0 <= k <= s.len() && byte_len(s.take(k)) == offset
}

/// A longer prefix takes more bytes.
pub proof fn lemma_byte_len_strict(s: Seq<char>, a: int, b: int)
    requires
        0 <= a < b <= s.len(),
    ensures
        byte_len(s.take(a)) < byte_len(s.take(b)),
    decreases b - a,
{
    assert(s.take(b).drop_last() =~= s.take(b - 1));
    if a < b - 1 {
        lemma_byte_len_strict(s, a, b - 1);
    }
}

/// Only one character position has a given byte offset.
pub proof fn lemma_char_pos_unique(s: Seq<char>, offset: nat, k: int)
    requires
        0 <= k <= s.len(),
        byte_len(s.take(k)) == offset,
    ensures
        on_boundary(s, offset),
        char_pos(s, offset) == k,
{
    let j = char_pos(s, offset);
    if j < k {
        lemma_byte_len_strict(s, j, k);
    } else if k < j {
        lemma_byte_len_strict(s, k, j);
    }
}

/// The character position of a byte offset, if it lies on a boundary.
pub fn locate(v: &Vec<char>, offset: usize) -> (r: Option<usize>)
    ensures
        match r {
            Some(k) => {
                &&& k <= v.len()
                &&& byte_len(v@.take(k as int)) == offset
                &&& on_boundary(v@, offset as nat)
                &&& k == char_pos(v@, offset as nat)
            },
            None => !on_boundary(v@, offset as nat),
        },
{
    let mut i: usize = 0;
    let mut acc: usize = 0;
    assert(v@.take(0) =~= Seq::<char>::empty());
    while i < v.len() && acc < offset
        invariant
            i <= v.len(),
            acc <= offset,
            acc == byte_len(v@.take(i as int)),
        decreases v.len() - i,
    {
        let n: usize = utf8_len_of(v[i]);
        proof {
            assert(v@.take(i + 1).drop_last() =~= v@.take(i as int));
            assert(v@.take(i + 1).last() == v@[i as int]);
        }
        if n > offset - acc {
            proof {
                assert forall|k: int| 0 <= k <= v@.len() implies byte_len(v@.take(k))
                    != offset by {
                    if k < i {
                        lemma_byte_len_strict(v@, k, i as int);
                    } else if k > i + 1 {
                        lemma_byte_len_strict(v@, i + 1, k);
                    }
                }
            }
            return None;
        }
        acc += n;
        i += 1;
    }
    if acc == offset {
        proof {
            lemma_char_pos_unique(v@, offset as nat, i as int);
        }
        Some(i)
    } else {
        proof {
            assert forall|k: int| 0 <= k <= v@.len() implies byte_len(v@.take(k)) != offset by {
                if k < i {
                    lemma_byte_len_strict(v@, k, i as int);
                }
            }
        }
        None
    }
}

/// The text after the character before the cursor is deleted; the same text
/// when the cursor stands at the start.
pub open spec fn text_after_delete(s: Seq<char>, offset: nat) -> Seq<char> {
    if offset == 0 {
        s
    } else {
        s.remove(char_pos(s, offset) - 1)
    }
}

/// The cursor one character to the left; the same cursor at the start.
pub open spec fn cursor_left(s: Seq<char>, offset: nat) -> nat {
    if offset == 0 {
        0
    } else {
        (offset - utf8_len(s[char_pos(s, offset) - 1])) as nat
    }
}

/// The cursor one character to the right; the same cursor at the end.
pub open spec fn cursor_right(s: Seq<char>, offset: nat) -> nat {
    if char_pos(s, offset) < s.len() {
        offset + utf8_len(s[char_pos(s, offset)])
    } else {
        offset
    }
}

/// Inserts `c` at the cursor and returns the cursor behind it.
pub fn insert_at(s: &mut String, cursor: usize, c: char) -> (r: usize)
    requires
        on_boundary(old(s)@, cursor as nat),
        cursor <= usize::MAX - 4,
    ensures
        final(s)@ == old(s)@.insert(char_pos(old(s)@, cursor as nat), c),
        r == cursor + utf8_len(c),
{
    let mut v = chars_of(s.as_str());
    match locate(&v, cursor) {
        Some(k) => {
            v.insert(k, c);
            *s = string_of(&v);
            cursor + utf8_len_of(c)
        },
        None => cursor,
    }
}

/// Deletes the character before the cursor and returns the cursor in its
/// place.
pub fn remove_before(s: &mut String, cursor: usize) -> (r: usize)
    requires
        on_boundary(old(s)@, cursor as nat),
    ensures
        final(s)@ == text_after_delete(old(s)@, cursor as nat),
        r == cursor_left(old(s)@, cursor as nat),
{
    if cursor == 0 {
        return 0;
    }
    let mut v = chars_of(s.as_str());
    match locate(&v, cursor) {
        Some(k) => {
            assert(v@.take(0) =~= Seq::<char>::empty());
            assert(k > 0);
            assert(v@.take(k as int).drop_last() =~= v@.take(k - 1));
            assert(v@.take(k as int).last() == v@[k - 1]);
            let n: usize = utf8_len_of(v[k - 1]);
            v.remove(k - 1);
            *s = string_of(&v);
            cursor - n
        },
        None => cursor,
    }
}

/// The cursor one character to the left.
pub fn step_left(s: &str, cursor: usize) -> (r: usize)
    requires
        on_boundary(s@, cursor as nat),
    ensures
        r == cursor_left(s@, cursor as nat),
{
    if cursor == 0 {
        return 0;
    }
    let v = chars_of(s);
    match locate(&v, cursor) {
        Some(k) => {
            assert(v@.take(0) =~= Seq::<char>::empty());
            assert(k > 0);
            assert(v@.take(k as int).drop_last() =~= v@.take(k - 1));
            assert(v@.take(k as int).last() == v@[k - 1]);
            cursor - utf8_len_of(v[k - 1])
        },
        None => cursor,
    }
}

/// The cursor one character to the right.
pub fn step_right(s: &str, cursor: usize) -> (r: usize)
    requires
        on_boundary(s@, cursor as nat),
        cursor <= usize::MAX - 4,
    ensures
        r == cursor_right(s@, cursor as nat),
{
    let v = chars_of(s);
    match locate(&v, cursor) {
        Some(k) => {
            if k < v.len() {
                cursor + utf8_len_of(v[k])
            } else {
                cursor
            }
        },
        None => cursor,
    }
}

/// The number of bytes that a text takes in UTF-8, capped at the largest
/// representable value.
pub fn byte_len_of(s: &str) -> (r: usize)
    ensures
        r == if byte_len(s@) <= usize::MAX {
            byte_len(s@)
        } else {
            usize::MAX as nat
        },
{
    let v = chars_of(s);
    let mut acc: usize = 0;
    let mut i: usize = 0;
    assert(v@.take(0) =~= Seq::<char>::empty());
    while i < v.len()
        invariant
            i <= v.len(),
            v@ == s@,
            acc == byte_len(v@.take(i as int)),
        decreases v.len() - i,
    {
        let n: usize = utf8_len_of(v[i]);
        proof {
            assert(v@.take(i + 1).drop_last() =~= v@.take(i as int));
            assert(v@.take(i + 1).last() == v@[i as int]);
        }
        if n > usize::MAX - acc {
            proof {
                assert(byte_len(v@.take(i + 1)) == acc + n);
                assert(v@.take(v@.len() as int) =~= v@);
                if i + 1 < v@.len() {
                    lemma_byte_len_strict(v@, i + 1, v@.len() as int);
                }
                assert(byte_len(v@) > usize::MAX);
            }
            return usize::MAX;
        }
        acc += n;
        i += 1;
    }
    assert(v@.take(i as int) =~= v@);
    acc
}

/// The end of a text lies on a boundary, at its last character position.
pub proof fn lemma_end_on_boundary(s: Seq<char>)
    ensures
        on_boundary(s, byte_len(s)),
        char_pos(s, byte_len(s)) == s.len(),
{
    assert(s.take(s.len() as int) =~= s);
    lemma_char_pos_unique(s, byte_len(s), s.len() as int);
}

/// The start of a text lies on a boundary; so the cursor 0 is valid in every
/// text, the empty one included.
pub proof fn lemma_empty_boundary(s: Seq<char>)
    ensures
        on_boundary(s, 0),
        char_pos(s, 0) == 0,
{
    assert(s.take(0) =~= Seq::<char>::empty());
    lemma_char_pos_unique(s, 0, 0);
}

/// After an insertion at a cursor on a boundary, the cursor behind the new
/// character lies on a boundary.
pub proof fn lemma_insert_boundary(s: Seq<char>, offset: nat, c: char)
    requires
        on_boundary(s, offset),
    ensures
        on_boundary(s.insert(char_pos(s, offset), c), offset + utf8_len(c)),
{
    let k = char_pos(s, offset);
    let t = s.insert(k, c);
    assert(t.take(k + 1).drop_last() =~= s.take(k));
    assert(t.take(k + 1).last() == c);
    lemma_char_pos_unique(t, offset + utf8_len(c), k + 1);
}

/// After a step to the left from a cursor on a boundary, with or without
/// deleting the character stepped over, the cursor lies on a boundary.
pub proof fn lemma_delete_boundary(s: Seq<char>, offset: nat)
    requires
        on_boundary(s, offset),
    ensures
        on_boundary(text_after_delete(s, offset), cursor_left(s, offset)),
        on_boundary(s, cursor_left(s, offset)),
{
    let k = char_pos(s, offset);
    if offset == 0 {
        lemma_empty_boundary(s);
    } else {
        assert(s.take(0) =~= Seq::<char>::empty());
        assert(k > 0);
        assert(s.take(k).drop_last() =~= s.take(k - 1));
        assert(s.take(k).last() == s[k - 1]);
        let t = s.remove(k - 1);
        assert(t.take(k - 1) =~= s.take(k - 1));
        lemma_char_pos_unique(t, cursor_left(s, offset), k - 1);
        lemma_char_pos_unique(s, cursor_left(s, offset), k - 1);
    }
}

/// After a step to the right from a cursor on a boundary, the cursor lies on a
/// boundary.
pub proof fn lemma_right_boundary(s: Seq<char>, offset: nat)
    requires
        on_boundary(s, offset),
    ensures
        on_boundary(s, cursor_right(s, offset)),
{
    let k = char_pos(s, offset);
    if k < s.len() {
        assert(s.take(k + 1).drop_last() =~= s.take(k));
        assert(s.take(k + 1).last() == s[k]);
        lemma_char_pos_unique(s, cursor_right(s, offset), k + 1);
    }
}

} // verus!
