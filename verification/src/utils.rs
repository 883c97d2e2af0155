//! Small character and string utilities used by the motions.
use vstd::prelude::*;
use crate::text::{chars_before_byte, is_boundary, lemma_byte_offset_monotone, lemma_chars_before_offset, byte_len, byte_offset, char_len_utf8, chars_of, lemma_byte_offset_bound, lemma_byte_offset_step, utf8_len, utf_index};

verus! {

/// Unicode `White_Space` property, which `char::is_whitespace` tests.
pub open spec fn is_whitespace_char(c: char) -> bool {
    let u = c as u32;
    ||| 0x9 <= u <= 0xd
    ||| u == 0x20
    ||| u == 0x85
    ||| u == 0xa0
    ||| u == 0x1680
    ||| 0x2000 <= u <= 0x200a
    ||| u == 0x2028
    ||| u == 0x2029
    ||| u == 0x202f
    ||| u == 0x205f
    ||| u == 0x3000
}

/// ASCII punctuation, as `char::is_ascii_punctuation` defines it.
pub open spec fn is_ascii_punctuation_char(c: char) -> bool {
    let u = c as u32;
    ||| 0x21 <= u <= 0x2f
    ||| 0x3a <= u <= 0x40
    ||| 0x5b <= u <= 0x60
    ||| 0x7b <= u <= 0x7e
}

/// Whether `c` is whitespace (the Unicode `White_Space` property).
pub fn is_whitespace(c: char) -> (r: bool)
    ensures
        r == is_whitespace_char(c),
{
    let u = c as u32;
    (0x9 <= u && u <= 0xd) || u == 0x20 || u == 0x85 || u == 0xa0 || u == 0x1680 || (0x2000 <= u
        && u <= 0x200a) || u == 0x2028 || u == 0x2029 || u == 0x202f || u == 0x205f || u == 0x3000
}

/// Byte index in `line` of the character of index `idx`, or the byte length
/// of `line` when it has no such character.
pub fn get_utf_index(line: &str, idx: usize) -> (r: usize)
    ensures
        r == utf_index(line@, idx as int),
{
    let total = byte_len(line);
    let chars = chars_of(line);
    if idx >= chars.len() {
        return total;
    }
    let mut k: usize = 0;
    let mut off: usize = 0;
    while k < idx
        invariant
            chars@ == line@,
            idx < chars.len(),
            k <= idx,
            off == byte_offset(line@, k as int),
            total == utf8_len(line@),
        decreases idx - k,
    {
        proof {
            lemma_byte_offset_step(line@, k as int);
            lemma_byte_offset_bound(line@, k + 1);
        }
        off = off + char_len_utf8(chars[k]);
        k += 1;
    }
    off
}

/// The byte index that `get_utf_index` gives for column `i` falls on a
/// character boundary with exactly `min(i, len)` characters before it, and
/// it grows with the column.
pub proof fn lemma_utf_index_prefix(s: Seq<char>, i: int, j: int)
    requires
        0 <= i <= j,
    ensures
        chars_before_byte(s, utf_index(s, i) as int) == (if i < s.len() { i } else { s.len() as int }),
        is_boundary(s, utf_index(s, i) as int),
        utf_index(s, i) <= utf_index(s, j),
{
    let ki = if i < s.len() { i } else { s.len() as int };
    let kj = if j < s.len() { j } else { s.len() as int };
    lemma_byte_offset_monotone(s, ki, kj);
    lemma_chars_before_offset(s, ki);
}

/// Characters as the motions classify them.
pub trait VimCharExt {
    /// Whether the character counts as punctuation for word motions.
    spec fn spec_is_vim_punctuation(&self) -> bool;

    /// Whether the character counts as punctuation for word motions.
    fn is_vim_punctuation(&self) -> (r: bool)
        ensures
            r == self.spec_is_vim_punctuation(),
    ;
}

impl VimCharExt for char {
    open spec fn spec_is_vim_punctuation(&self) -> bool {
        is_ascii_punctuation_char(*self)
    }

    fn is_vim_punctuation(&self) -> (r: bool) {
        let u = *self as u32;
        (0x21 <= u && u <= 0x2f) || (0x3a <= u && u <= 0x40) || (0x5b <= u && u <= 0x60) || (0x7b
            <= u && u <= 0x7e)
    }
}

/// Character index of the first non-whitespace character of `line`, if any.
pub fn first_non_whitespace_idx_on(line: &str) -> (r: Option<usize>)
    ensures
        match r {
            Some(i) => i < line@.len() && !is_whitespace_char(line@[i as int]) && forall|j: int|
                0 <= j < i ==> is_whitespace_char(#[trigger] line@[j]),
            None => forall|j: int| 0 <= j < line@.len() ==> is_whitespace_char(#[trigger] line@[j]),
        },
{
    let chars = chars_of(line);
    let mut i: usize = 0;
    while i < chars.len()
        invariant
            chars@ == line@,
            i <= chars.len(),
            forall|j: int| 0 <= j < i ==> is_whitespace_char(#[trigger] line@[j]),
        decreases chars.len() - i,
    {
        if !is_whitespace(chars[i]) {
            return Some(i);
        }
        i += 1;
    }
    None
}

} // verus!
