//! Whitespace, and comparison of texts.

use vstd::prelude::*;
use vstd::utf8::encode_utf8;
use crate::text::{
    byte_len, byte_offset, char_index, char_len, lemma_boundary, lemma_char_boundary,
    lemma_index_of_offset, lemma_offset_ends, lemma_offset_monotone, lemma_offset_step, slice_text,
    split_text, text_len,
};

verus! {

/// The characters with the Unicode property `White_Space`.
pub open spec fn is_white_space(c: char) -> bool {
    ||| '\u{9}' <= c <= '\u{d}'
    ||| c == ' '
    ||| c == '\u{85}'
    ||| c == '\u{a0}'
    ||| c == '\u{1680}'
    ||| '\u{2000}' <= c <= '\u{200a}'
    ||| c == '\u{2028}'
    ||| c == '\u{2029}'
    ||| c == '\u{202f}'
    ||| c == '\u{205f}'
    ||| c == '\u{3000}'
}

/// `s` without the white space in front.
pub open spec fn trim_start(s: Seq<char>) -> Seq<char>
    decreases s.len(),
{
    if s.len() > 0 && is_white_space(s[0]) {
        trim_start(s.drop_first())
    } else {
        s
    }
}

/// `s` without the white space at the end.
pub open spec fn trim_end(s: Seq<char>) -> Seq<char>
    decreases s.len(),
{
    if s.len() > 0 && is_white_space(s.last()) {
        trim_end(s.drop_last())
    } else {
        s
    }
}

/// `s` without the white space around it.
pub open spec fn trimmed(s: Seq<char>) -> Seq<char> {
    trim_end(trim_start(s))
}

/// Whether `s` holds nothing but white space.
pub open spec fn is_blank(s: Seq<char>) -> bool {
    forall|i: int| 0 <= i < s.len() ==> is_white_space(#[trigger] s[i])
}

/// Dropping the leading white space drops exactly a blank prefix.
pub proof fn lemma_trim_start(s: Seq<char>, i: int)
    requires
        0 <= i <= s.len(),
        is_blank(s.take(i)),
        i < s.len() ==> !is_white_space(s[i]),
    ensures
        trim_start(s) == s.skip(i),
    decreases s.len(),
{
    if i > 0 {
        assert(s.take(i)[0] == s[0]);
        assert(s.drop_first().take(i - 1) =~= s.take(i).drop_first());
        assert forall|j: int| 0 <= j < i - 1 implies is_white_space(
            #[trigger] s.drop_first().take(i - 1)[j],
        ) by {
            assert(s.take(i)[j + 1] == s.drop_first().take(i - 1)[j]);
        }
        lemma_trim_start(s.drop_first(), i - 1);
        assert(s.drop_first().skip(i - 1) =~= s.skip(i));
    } else {
        assert(s.skip(0) =~= s);
    }
}

/// Dropping the trailing white space drops exactly a blank suffix.
pub proof fn lemma_trim_end(s: Seq<char>, j: int)
    requires
        0 <= j <= s.len(),
        is_blank(s.skip(j)),
        j > 0 ==> !is_white_space(s[j - 1]),
    ensures
        trim_end(s) == s.take(j),
    decreases s.len(),
{
    if j < s.len() {
        assert(s.skip(j)[s.len() - 1 - j] == s.last());
        assert forall|i: int| 0 <= i < s.len() - 1 - j implies is_white_space(
            #[trigger] s.drop_last().skip(j)[i],
        ) by {
            assert(s.skip(j)[i] == s.drop_last().skip(j)[i]);
        }
        lemma_trim_end(s.drop_last(), j);
        assert(s.drop_last().take(j) =~= s.take(j));
    } else {
        assert(s.take(j) =~= s);
    }
}

/// Trimming leaves nothing exactly of a blank text.
pub proof fn lemma_blank_trimmed(s: Seq<char>)
    ensures
        trimmed(s).len() == 0 <==> is_blank(s),
    decreases s.len(),
{
    if s.len() > 0 {
        if is_white_space(s[0]) {
            lemma_blank_trimmed(s.drop_first());
            if is_blank(s) {
                assert forall|i: int| 0 <= i < s.drop_first().len() implies is_white_space(
                    #[trigger] s.drop_first()[i],
                ) by {
                    assert(s.drop_first()[i] == s[i + 1]);
                }
            }
            if is_blank(s.drop_first()) {
                assert forall|i: int| 0 <= i < s.len() implies is_white_space(#[trigger] s[i]) by {
                    if i > 0 {
                        assert(s.drop_first()[i - 1] == s[i]);
                    }
                }
            }
        } else {
            assert(!is_blank(s));
            lemma_trim_end_keeps_first(s);
        }
    }
}

/// Trimming the end never drops a first character that is no white space.
proof fn lemma_trim_end_keeps_first(s: Seq<char>)
    requires
        s.len() > 0,
        !is_white_space(s[0]),
    ensures
        trim_end(s).len() > 0,
    decreases s.len(),
{
    if is_white_space(s.last()) {
        lemma_trim_end_keeps_first(s.drop_last());
    }
}

/// Whether `c` is white space.
pub fn white_space(c: char) -> (result: bool)
    ensures
        result == is_white_space(c),
{
    ('\u{9}' <= c && c <= '\u{d}') || c == ' ' || c == '\u{85}' || c == '\u{a0}' || c == '\u{1680}'
        || ('\u{2000}' <= c && c <= '\u{200a}') || c == '\u{2028}' || c == '\u{2029}' || c
        == '\u{202f}' || c == '\u{205f}' || c == '\u{3000}'
}

/// Whether `text` holds any white space.
pub fn contains_white_space(text: &str) -> (result: bool)
    ensures
        result == exists|i: int| 0 <= i < text@.len() && is_white_space(#[trigger] text@[i]),
{
    for c in it: text.chars()
        invariant
            it.seq() == text@,
            forall|i: int| 0 <= i < it.index() ==> !is_white_space(#[trigger] text@[i]),
    {
        if white_space(c) {
            proof {
                assert(is_white_space(text@[it.index() as int]));
            }
            return true;
        }
    }
    false
}

/// `text` without the white space around it.
pub fn trim(text: &str) -> (result: &str)
    ensures
        result@ == trimmed(text@),
{
    let ghost s: Seq<char> = text@;
    let len: usize = text_len(text);
    let mut seen: bool = false;
    let mut start: usize = 0;
    let mut end: usize = 0;
    let mut position: usize = 0;
    let ghost mut i: int = 0;
    let ghost mut j: int = 0;
    proof {
        lemma_offset_ends(s);
    }
    for c in it: text.chars()
        invariant
            it.seq() == s,
            len == byte_len(s),
            byte_offset(s, s.len() as int) == len,
            position == byte_offset(s, it.index()),
            start == byte_offset(s, i),
            end == byte_offset(s, j),
            0 <= i <= j <= it.index(),
            seen ==> i < j && !is_white_space(s[i]) && !is_white_space(s[j - 1]),
            !seen ==> i == 0 && j == 0,
            forall|m: int| 0 <= m < i ==> is_white_space(#[trigger] s[m]),
            forall|m: int| j <= m < it.index() ==> is_white_space(#[trigger] s[m]),
    {
        let ghost m: int = it.index();
        proof {
            lemma_offset_step(s, m);
            lemma_offset_monotone(s, m + 1, s.len() as int);
        }
        let after: usize = position + char_len(c);
        if !white_space(c) {
            if !seen {
                seen = true;
                start = position;
                proof {
                    i = m;
                }
            }
            end = after;
            proof {
                j = m + 1;
            }
        }
        position = after;
    }
    proof {
        if !seen {
            i = s.len() as int;
            j = s.len() as int;
        }
        let first = s.skip(i);
        assert(is_blank(s.take(i)));
        lemma_trim_start(s, i);
        assert(is_blank(first.skip(j - i)));
        lemma_trim_end(first, j - i);
        assert(first.take(j - i) =~= s.subrange(i, j));
        assert(first.take(j - i) =~= s.subrange(0, 0) || seen);
        if seen {
            lemma_index_of_offset(s, i);
            lemma_index_of_offset(s, j);
            lemma_offset_monotone(s, i, j);
        } else {
            lemma_index_of_offset(s, 0);
        }
    }
    slice_text(text, start, end)
}

/// Whether the two texts are equal.
pub fn same_text(a: &str, b: &str) -> (result: bool)
    ensures
        result == (a@ == b@),
{
    let left = a.as_bytes();
    let right = b.as_bytes();
    proof {
        vstd::utf8::encode_utf8_decode_utf8(a@);
        vstd::utf8::encode_utf8_decode_utf8(b@);
    }
    if left.len() != right.len() {
        return false;
    }
    let mut i: usize = 0;
    while i < left.len()
        invariant
            left@ == encode_utf8(a@),
            right@ == encode_utf8(b@),
            left.len() == right.len(),
            i <= left.len(),
            forall|j: int| 0 <= j < i ==> left@[j] == right@[j],
        decreases left.len() - i,
    {
        if left[i] != right[i] {
            return false;
        }
        i = i + 1;
    }
    assert(left@ =~= right@);
    true
}

/// Whether `text` starts with `prefix`.
pub fn starts_with(text: &str, prefix: &str) -> (result: bool)
    ensures
        result == prefix@.is_prefix_of(text@),
{
    let ghost s: Seq<char> = text@;
    let ghost p: Seq<char> = prefix@;
    let len: usize = text_len(prefix);
    proof {
        lemma_char_boundary(s, len as int);
        if p.is_prefix_of(s) {
            assert(s.take(p.len() as int) =~= p);
            lemma_index_of_offset(s, p.len() as int);
        }
    }
    if !text.is_char_boundary(len) {
        return false;
    }
    let (head, _) = split_text(text, len);
    proof {
        lemma_boundary(s, len as int);
        let k: int = char_index(s, len as int);
        if head@ == p {
            assert(p.len() == k);
            assert forall|i: int| 0 <= i < p.len() implies p[i] == s[i] by {
                assert(head@[i] == s[i]);
            }
            assert(p =~= s.subrange(0, p.len() as int));
        }
    }
    same_text(head, prefix)
}

/// Whether `c` ends a line of input.
pub open spec fn is_line_break(c: char) -> bool {
    c == '\n' || c == '\r'
}

/// `s` without the line breaks at its end.
pub open spec fn without_line_breaks(s: Seq<char>) -> Seq<char>
    decreases s.len(),
{
    if s.len() > 0 && is_line_break(s.last()) {
        without_line_breaks(s.drop_last())
    } else {
        s
    }
}

/// What is left of `s` where its characters from the index `j` on are its last line breaks.
pub proof fn lemma_without_line_breaks(s: Seq<char>, j: int)
    requires
        0 <= j <= s.len(),
        forall|i: int| j <= i < s.len() ==> is_line_break(#[trigger] s[i]),
        j > 0 ==> !is_line_break(s[j - 1]),
    ensures
        without_line_breaks(s) == s.take(j),
    decreases s.len(),
{
    if j < s.len() {
        lemma_without_line_breaks(s.drop_last(), j);
        assert(s.drop_last().take(j) =~= s.take(j));
    } else {
        assert(s.take(j) =~= s);
    }
}

/// `text` without the line breaks at its end.
pub fn strip_line_breaks(text: &str) -> (result: &str)
    ensures
        result@ == without_line_breaks(text@),
{
    let ghost s: Seq<char> = text@;
    let len: usize = text_len(text);
    let mut end: usize = 0;
    let mut position: usize = 0;
    let ghost mut j: int = 0;
    proof {
        lemma_offset_ends(s);
    }
    for c in it: text.chars()
        invariant
            it.seq() == s,
            len == byte_len(s),
            byte_offset(s, s.len() as int) == len,
            position == byte_offset(s, it.index()),
            end == byte_offset(s, j),
            0 <= j <= it.index(),
            j > 0 ==> !is_line_break(s[j - 1]),
            forall|m: int| j <= m < it.index() ==> is_line_break(#[trigger] s[m]),
    {
        let ghost m: int = it.index();
        proof {
            lemma_offset_step(s, m);
            lemma_offset_monotone(s, m + 1, s.len() as int);
        }
        position = position + char_len(c);
        if c != '\n' && c != '\r' {
            end = position;
            proof {
                j = m + 1;
            }
        }
    }
    proof {
        lemma_without_line_breaks(s, j);
        lemma_index_of_offset(s, j);
    }
    split_text(text, end).0
}

} // verus!
