//! Positions inside UTF-8 text.
//!
//! A position is a byte offset into a string.  The model sees the string as a
//! sequence of characters, and a position as the number of characters before it.

use vstd::prelude::*;
use vstd::string::StringExecFns;
use vstd::utf8::{
    encode_scalar, encode_utf8, is_char_boundary, length_of_first_scalar, pop_first_scalar,
};

verus! {

/// The number of bytes that `c` takes in UTF-8.
pub open spec fn width(c: char) -> int {
    encode_scalar(c as u32).len() as int
}

/// The number of bytes that the first `k` characters of `s` take in UTF-8.
pub open spec fn byte_offset(s: Seq<char>, k: int) -> int {
    encode_utf8(s.take(k)).len() as int
}

/// The length of `s` in bytes.
pub open spec fn byte_len(s: Seq<char>) -> int {
    encode_utf8(s).len() as int
}

/// Whether the byte offset `b` lies between two characters of `s`, or at one of its ends.
pub open spec fn at_boundary(s: Seq<char>, b: int) -> bool {
    exists|k: int| 0 <= k <= s.len() && #[trigger] byte_offset(s, k) == b
}

/// The number of characters of `s` before the byte offset `b`.
pub open spec fn char_index(s: Seq<char>, b: int) -> int {
    choose|k: int| 0 <= k <= s.len() && #[trigger] byte_offset(s, k) == b
}

/// `String::push` appends one character to the string.
pub assume_specification[ String::push ](text: &mut String, c: char)
    ensures
        final(text)@ == old(text)@.push(c),
;

/// `String::from`, on a string slice, gives a string with the same characters.
pub assume_specification<'a>[ <String as From<&'a str>>::from ](text: &str) -> (result: String)
    ensures
        result@ == text@,
;

/// `From::from`, from a type to itself, gives its argument back.
pub assume_specification<Value>[ <Value as std::convert::From<Value>>::from ](value: Value) -> (
    result: Value)
    ensures
        result == value,
;

/// Encoding distributes over concatenation.
pub proof fn lemma_encode_concat(a: Seq<char>, b: Seq<char>)
    ensures
        encode_utf8(a + b) == encode_utf8(a) + encode_utf8(b),
    decreases a.len(),
{
    if a.len() == 0 {
        assert(a + b =~= b);
        assert(encode_utf8(a) + encode_utf8(b) =~= encode_utf8(b));
    } else {
        assert((a + b).drop_first() =~= a.drop_first() + b);
        lemma_encode_concat(a.drop_first(), b);
        assert(encode_utf8(a + b) =~= encode_utf8(a) + encode_utf8(b));
    }
}

/// Each character takes between one and four bytes.
pub proof fn lemma_width(c: char)
    ensures
        1 <= width(c) <= 4,
{
}

/// A single character is encoded in its width.
pub proof fn lemma_byte_len_push(s: Seq<char>, c: char)
    ensures
        byte_len(s.push(c)) == byte_len(s) + width(c),
{
    assert(s.push(c) =~= s + seq![c]);
    lemma_encode_concat(s, seq![c]);
    assert(seq![c].drop_first() =~= Seq::<char>::empty());
    reveal_with_fuel(encode_utf8, 2);
}

/// Passing one character adds its width.
pub proof fn lemma_offset_step(s: Seq<char>, k: int)
    requires
        0 <= k < s.len(),
    ensures
        byte_offset(s, k + 1) == byte_offset(s, k) + width(s[k]),
        byte_offset(s, k) + 1 <= byte_offset(s, k + 1) <= byte_offset(s, k) + 4,
{
    assert(s.take(k + 1) =~= s.take(k).push(s[k]));
    lemma_byte_len_push(s.take(k), s[k]);
    lemma_width(s[k]);
}

/// The ends of a text: offset zero, and its length in bytes.
pub proof fn lemma_offset_ends(s: Seq<char>)
    ensures
        byte_offset(s, 0) == 0,
        byte_offset(s, s.len() as int) == byte_len(s),
{
    assert(s.take(0) =~= Seq::<char>::empty());
    assert(s.take(s.len() as int) =~= s);
}

/// Later positions lie at larger offsets.
pub proof fn lemma_offset_monotone(s: Seq<char>, i: int, j: int)
    requires
        0 <= i <= j <= s.len(),
    ensures
        byte_offset(s, i) + (j - i) <= byte_offset(s, j),
    decreases j - i,
{
    if i < j {
        lemma_offset_monotone(s, i, j - 1);
        lemma_offset_step(s, j - 1);
    }
}

/// The character index of a position is the one that the position was made from.
pub proof fn lemma_index_of_offset(s: Seq<char>, k: int)
    requires
        0 <= k <= s.len(),
    ensures
        at_boundary(s, byte_offset(s, k)),
        char_index(s, byte_offset(s, k)) == k,
{
    let b: int = byte_offset(s, k);
    assert(at_boundary(s, b));
    let j: int = char_index(s, b);
    assert(0 <= j <= s.len() && byte_offset(s, j) == b);
    if j < k {
        lemma_offset_monotone(s, j, k);
    } else if k < j {
        lemma_offset_monotone(s, k, j);
    }
}

/// What a boundary's character index is.
pub proof fn lemma_boundary(s: Seq<char>, b: int)
    requires
        at_boundary(s, b),
    ensures
        0 <= char_index(s, b) <= s.len(),
        byte_offset(s, char_index(s, b)) == b,
        0 <= b <= byte_len(s),
{
    let k: int = char_index(s, b);
    assert(0 <= k <= s.len() && byte_offset(s, k) == b);
    lemma_offset_monotone(s, 0, k);
    lemma_offset_monotone(s, k, s.len() as int);
    lemma_offset_ends(s);
}

/// A boundary of the encoded bytes is a boundary of the text, and the other way round.
pub proof fn lemma_char_boundary(s: Seq<char>, b: int)
    ensures
        is_char_boundary(encode_utf8(s), b) <==> at_boundary(s, b),
    decreases s.len(),
{
    vstd::utf8::encode_utf8_valid_utf8(s);
    lemma_offset_ends(s);
    if b == 0 {
        assert(byte_offset(s, 0) == 0);
    } else if b < 0 || byte_len(s) < b {
        if at_boundary(s, b) {
            lemma_boundary(s, b);
        }
    } else {
        let bytes: Seq<u8> = encode_utf8(s);
        let rest: Seq<char> = s.drop_first();
        let w: int = width(s[0]);
        vstd::utf8::encode_utf8_first_scalar(s);
        assert(pop_first_scalar(bytes) =~= encode_utf8(rest));
        assert(length_of_first_scalar(bytes) == w);
        lemma_char_boundary(rest, b - w);
        lemma_width(s[0]);
        assert forall|k: int| 0 <= k <= rest.len() implies #[trigger] byte_offset(rest, k) + w
            == byte_offset(s, k + 1) by {
            assert(s.take(k + 1).drop_first() =~= rest.take(k));
        }
        if at_boundary(rest, b - w) {
            let k: int = char_index(rest, b - w);
            assert(byte_offset(s, k + 1) == b);
        }
        if at_boundary(s, b) {
            let k: int = char_index(s, b);
            assert(byte_offset(s, k) == b);
            assert(k > 0);
            assert(byte_offset(rest, k - 1) + w == byte_offset(s, k));
        }
    }
}

/// The length of `text` in bytes.
pub fn text_len(text: &str) -> (len: usize)
    ensures
        len == byte_len(text@),
{
    text.as_bytes().len()
}

/// Splits `text` at the position `at`.
pub fn split_text(text: &str, at: usize) -> (parts: (&str, &str))
    requires
        at_boundary(text@, at as int),
    ensures
        parts.0@ == text@.take(char_index(text@, at as int)),
        parts.1@ == text@.skip(char_index(text@, at as int)),
{
    let ghost s: Seq<char> = text@;
    let ghost k: int = char_index(s, at as int);
    proof {
        lemma_char_boundary(s, at as int);
        lemma_boundary(s, at as int);
    }
    let (left, right) = text.split_at(at);
    proof {
        assert(s =~= s.take(k) + s.skip(k));
        lemma_encode_concat(s.take(k), s.skip(k));
        assert(encode_utf8(left@) =~= encode_utf8(s.take(k)));
        assert(encode_utf8(right@) =~= encode_utf8(s.skip(k)));
        vstd::utf8::encode_utf8_decode_utf8(left@);
        vstd::utf8::encode_utf8_decode_utf8(right@);
        vstd::utf8::encode_utf8_decode_utf8(s.take(k));
        vstd::utf8::encode_utf8_decode_utf8(s.skip(k));
    }
    (left, right)
}

/// The part of `text` between the positions `start` and `end`.
pub fn slice_text(text: &str, start: usize, end: usize) -> (part: &str)
    requires
        start <= end,
        at_boundary(text@, start as int),
        at_boundary(text@, end as int),
    ensures
        part@ == text@.subrange(
            char_index(text@, start as int),
            char_index(text@, end as int),
        ),
{
    let ghost s: Seq<char> = text@;
    let ghost i: int = char_index(s, start as int);
    let ghost j: int = char_index(s, end as int);
    let (left, _) = split_text(text, end);
    proof {
        lemma_boundary(s, start as int);
        lemma_boundary(s, end as int);
        if j < i {
            lemma_offset_monotone(s, j, i);
        }
        lemma_offset_of_take(s, j, i);
        lemma_index_of_offset(left@, i);
    }
    let (_, part) = split_text(left, start);
    assert(part@ =~= s.subrange(i, j));
    part
}

/// `text` with the part between the positions `start` and `end` replaced by `insertion`.
pub fn replace_text(text: &str, start: usize, end: usize, insertion: &str) -> (result: String)
    requires
        start <= end,
        at_boundary(text@, start as int),
        at_boundary(text@, end as int),
    ensures
        result@ == text@.take(char_index(text@, start as int)) + insertion@ + text@.skip(
            char_index(text@, end as int),
        ),
{
    let (left, _) = split_text(text, start);
    let (_, right) = split_text(text, end);
    let mut result = left.to_owned();
    result.append(insertion);
    result.append(right);
    result
}

/// A prefix keeps the offsets of the characters in it.
pub proof fn lemma_offset_of_take(s: Seq<char>, n: int, k: int)
    requires
        0 <= k <= n <= s.len(),
    ensures
        byte_offset(s.take(n), k) == byte_offset(s, k),
{
    assert(s.take(n).take(k) =~= s.take(k));
}

/// The number of bytes that `c` takes in UTF-8.
pub fn char_len(c: char) -> (len: usize)
    ensures
        len == width(c),
{
    let value: u32 = c as u32;
    if value < 0x80 {
        1
    } else if value < 0x800 {
        2
    } else if value < 0x10000 {
        3
    } else {
        4
    }
}

/// The position one character before `cursor`; the start of the text has none before it.
pub open spec fn previous_position(s: Seq<char>, b: int) -> int {
    let k = char_index(s, b);
    byte_offset(s, if k > 0 { k - 1 } else { 0 })
}

/// The position one character after `b`; from the end of the text on, the end.
pub open spec fn next_position(s: Seq<char>, b: int) -> int {
    if b >= byte_len(s) {
        byte_len(s)
    } else {
        byte_offset(s, char_index(s, b) + 1)
    }
}

/// The position of the character before `cursor`.
pub fn previous_boundary(text: &str, cursor: usize) -> (position: usize)
    requires
        at_boundary(text@, cursor as int),
    ensures
        position == previous_position(text@, cursor as int),
        at_boundary(text@, position as int),
{
    let ghost s: Seq<char> = text@;
    proof {
        lemma_offset_ends(s);
        lemma_boundary(s, cursor as int);
        lemma_index_of_offset(s, 0);
    }
    if cursor == 0 {
        return 0;
    }
    let ghost k: int = char_index(s, cursor as int);
    proof {
        lemma_offset_monotone(s, k - 1, k);
        lemma_index_of_offset(s, k - 1);
    }
    let mut position: usize = cursor - 1;
    proof {
        lemma_char_boundary(s, position as int);
    }
    while !text.is_char_boundary(position)
        invariant
            s == text@,
            1 <= k <= s.len(),
            byte_offset(s, k - 1) <= position < byte_offset(s, k),
            at_boundary(s, byte_offset(s, k - 1)),
            is_char_boundary(encode_utf8(s), position as int) <==> at_boundary(s, position as int),
        decreases position,
    {
        position = position - 1;
        proof {
            lemma_char_boundary(s, position as int);
        }
    }
    proof {
        lemma_boundary(s, position as int);
        let j: int = char_index(s, position as int);
        if j < k - 1 {
            lemma_offset_monotone(s, j, k - 1);
        } else if k <= j {
            lemma_offset_monotone(s, k, j);
        }
    }
    position
}

/// As [`previous_boundary`], but never in front of the colon that starts a command.
pub fn previous_command_boundary(text: &str, cursor: usize) -> (position: usize)
    requires
        at_boundary(text@, cursor as int),
    ensures
        position == (if previous_position(text@, cursor as int) < 1 {
            1
        } else {
            previous_position(text@, cursor as int)
        }),
{
    let position: usize = previous_boundary(text, cursor);
    if position < 1 {
        1
    } else {
        position
    }
}

/// The position after the character at `cursor`.
pub fn next_boundary(text: &str, cursor: usize) -> (position: usize)
    requires
        cursor < byte_len(text@) ==> at_boundary(text@, cursor as int),
    ensures
        position == next_position(text@, cursor as int),
        at_boundary(text@, position as int),
{
    let ghost s: Seq<char> = text@;
    let len: usize = text_len(text);
    proof {
        lemma_offset_ends(s);
        lemma_index_of_offset(s, s.len() as int);
    }
    if cursor >= len {
        return len;
    }
    let ghost k: int = char_index(s, cursor as int);
    proof {
        lemma_boundary(s, cursor as int);
        lemma_offset_step(s, k);
        lemma_offset_monotone(s, k + 1, s.len() as int);
        lemma_index_of_offset(s, k + 1);
    }
    let mut position: usize = cursor + 1;
    proof {
        lemma_char_boundary(s, position as int);
    }
    while !text.is_char_boundary(position)
        invariant
            s == text@,
            0 <= k < s.len(),
            len == byte_len(s),
            byte_offset(s, k) < position <= byte_offset(s, k + 1) <= len,
            at_boundary(s, byte_offset(s, k + 1)),
            is_char_boundary(encode_utf8(s), position as int) <==> at_boundary(s, position as int),
        decreases len - position,
    {
        position = position + 1;
        proof {
            lemma_char_boundary(s, position as int);
        }
    }
    proof {
        lemma_boundary(s, position as int);
        let j: int = char_index(s, position as int);
        if j < k {
            lemma_offset_monotone(s, j, k);
        } else if k + 1 < j {
            lemma_offset_monotone(s, k + 1, j);
        }
    }
    position
}

/// Where the parts of a concatenation start and end.
pub proof fn lemma_splice(a: Seq<char>, b: Seq<char>, c: Seq<char>)
    ensures
        byte_offset(a + b + c, a.len() as int) == byte_len(a),
        byte_offset(a + b + c, (a.len() + b.len()) as int) == byte_len(a) + byte_len(b),
        byte_len(a + b + c) == byte_len(a) + byte_len(b) + byte_len(c),
{
    lemma_encode_concat(a, b);
    lemma_encode_concat(a + b, c);
    assert((a + b + c).take(a.len() as int) =~= a);
    assert((a + b + c).take((a.len() + b.len()) as int) =~= a + b);
}

/// `s` with `insertion` in front of the character with the index `k`.
pub open spec fn inserted(s: Seq<char>, k: int, insertion: Seq<char>) -> Seq<char> {
    s.take(k) + insertion + s.skip(k)
}

/// `s` without the characters from the index `i` to the index `j`.
pub open spec fn removed(s: Seq<char>, i: int, j: int) -> Seq<char> {
    s.take(i) + s.skip(j)
}

/// Inserts `insertion` into `text` at the position `cursor`, and moves the position behind it.
pub fn insert_text(text: &mut String, cursor: &mut usize, insertion: &str)
    requires
        at_boundary(old(text)@, *old(cursor) as int),
    ensures
        ({
            let k = char_index(old(text)@, *old(cursor) as int);
            &&& final(text)@ == inserted(old(text)@, k, insertion@)
            &&& at_boundary(final(text)@, *final(cursor) as int)
            &&& char_index(final(text)@, *final(cursor) as int) == k + insertion@.len()
        }),
        *final(cursor) == *old(cursor) + byte_len(insertion@),
{
    let ghost s: Seq<char> = text@;
    let ghost k: int = char_index(s, *cursor as int);
    let at: usize = *cursor;
    let result = replace_text(text.as_str(), at, at, insertion);
    let added: usize = text_len(insertion);
    let total: usize = text_len(result.as_str());
    proof {
        lemma_boundary(s, at as int);
        lemma_splice(s.take(k), insertion@, s.skip(k));
        lemma_index_of_offset(result@, k + insertion@.len());
        assert(result@ =~= inserted(s, k, insertion@));
    }
    *text = result;
    *cursor = at + added;
}

/// Removes the part of `text` between the positions `start` and `end`.
pub fn remove_range(text: &mut String, start: usize, end: usize)
    requires
        start <= end,
        at_boundary(old(text)@, start as int),
        at_boundary(old(text)@, end as int),
    ensures
        ({
            let i = char_index(old(text)@, start as int);
            let j = char_index(old(text)@, end as int);
            &&& final(text)@ == removed(old(text)@, i, j)
            &&& at_boundary(final(text)@, start as int)
            &&& char_index(final(text)@, start as int) == i
        }),
{
    let ghost s: Seq<char> = text@;
    let ghost i: int = char_index(s, start as int);
    let ghost j: int = char_index(s, end as int);
    let result = replace_text(text.as_str(), start, end, "");
    proof {
        lemma_boundary(s, start as int);
        lemma_boundary(s, end as int);
        reveal_strlit("");
        assert(result@ =~= removed(s, i, j));
        lemma_splice(s.take(i), Seq::empty(), s.skip(j));
        assert(s.take(i) + Seq::<char>::empty() + s.skip(j) =~= result@);
        lemma_index_of_offset(result@, i);
    }
    *text = result;
}

/// Removes the character in front of `cursor`, if there is one.
pub fn remove_previous_char(text: &mut String, cursor: &mut usize)
    requires
        at_boundary(old(text)@, *old(cursor) as int),
    ensures
        ({
            let k = char_index(old(text)@, *old(cursor) as int);
            let j = if k > 0 { k - 1 } else { 0 };
            &&& final(text)@ == removed(old(text)@, j, k)
            &&& at_boundary(final(text)@, *final(cursor) as int)
            &&& char_index(final(text)@, *final(cursor) as int) == j
        }),
{
    let ghost s: Seq<char> = text@;
    let ghost k: int = char_index(s, *cursor as int);
    proof {
        lemma_offset_ends(s);
        lemma_boundary(s, *cursor as int);
        lemma_index_of_offset(s, 0);
    }
    if *cursor == 0 {
        assert(removed(s, 0, 0) =~= s);
        return;
    }
    let start: usize = previous_boundary(text.as_str(), *cursor);
    proof {
        lemma_index_of_offset(s, k - 1);
        lemma_offset_monotone(s, k - 1, k);
    }
    remove_range(text, start, *cursor);
    *cursor = start;
}

} // verus!
