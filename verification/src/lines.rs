//! Lines inside a text, and motion between them.

use vstd::prelude::*;
use vstd::string::StrSliceExecFns;
use crate::text::{
    at_boundary, byte_len, byte_offset, char_index, char_len, lemma_boundary, lemma_encode_concat,
    lemma_index_of_offset, lemma_offset_ends, lemma_offset_monotone, lemma_offset_step, slice_text,
    split_text, text_len, width,
};

verus! {

/// The index of the first character of the line that the index `k` lies on.
pub open spec fn line_start_index(s: Seq<char>, k: int) -> int
    decreases k,
{
    if k <= 0 {
        0
    } else if s[k - 1] == '\n' {
        k
    } else {
        line_start_index(s, k - 1)
    }
}

/// The index of the newline that ends the line of the index `k`, or of the end of the text.
pub open spec fn line_end_index(s: Seq<char>, k: int) -> int
    decreases s.len() - k,
{
    if k >= s.len() {
        s.len() as int
    } else if s[k] == '\n' {
        k
    } else {
        line_end_index(s, k + 1)
    }
}

/// The number of newlines among the first `k` characters: the row of the index `k`.
pub open spec fn row_of(s: Seq<char>, k: int) -> int
    decreases k,
{
    if k <= 0 {
        0
    } else {
        row_of(s, k - 1) + if s[k - 1] == '\n' { 1int } else { 0int }
    }
}

/// The index at which the line with the number `row` starts.
pub open spec fn row_start(s: Seq<char>, row: int) -> int
    decreases row,
{
    if row <= 0 {
        0
    } else {
        line_end_index(s, row_start(s, row - 1)) + 1
    }
}

/// The number of the last line.
pub open spec fn last_row(s: Seq<char>) -> int {
    row_of(s, s.len() as int)
}

/// Where the line of an index starts: after a newline or at the start of the text, with no
/// newline in between.
pub proof fn lemma_line_start(s: Seq<char>, k: int)
    requires
        0 <= k <= s.len(),
    ensures
        0 <= line_start_index(s, k) <= k,
        line_start_index(s, k) == 0 || s[line_start_index(s, k) - 1] == '\n',
        forall|i: int| line_start_index(s, k) <= i < k ==> s[i] != '\n',
        row_of(s, line_start_index(s, k)) == row_of(s, k),
        line_end_index(s, line_start_index(s, k)) == line_end_index(s, k),
    decreases k,
{
    if k > 0 && s[k - 1] != '\n' {
        lemma_line_start(s, k - 1);
    }
}

/// Where the line of an index ends: at a newline or at the end of the text, with no newline in
/// between.
pub proof fn lemma_line_end(s: Seq<char>, k: int)
    requires
        0 <= k <= s.len(),
    ensures
        k <= line_end_index(s, k) <= s.len(),
        line_end_index(s, k) == s.len() || s[line_end_index(s, k)] == '\n',
        forall|i: int| k <= i < line_end_index(s, k) ==> s[i] != '\n',
        row_of(s, line_end_index(s, k)) == row_of(s, k),
        line_start_index(s, line_end_index(s, k)) == line_start_index(s, k),
    decreases s.len() - k,
{
    if k < s.len() && s[k] != '\n' {
        lemma_line_end(s, k + 1);
    }
}

/// Rows do not decrease along the text.
pub proof fn lemma_row_monotone(s: Seq<char>, i: int, j: int)
    requires
        0 <= i <= j <= s.len(),
    ensures
        0 <= row_of(s, i) <= row_of(s, j) <= row_of(s, i) + (j - i),
    decreases j,
{
    if i < j {
        lemma_row_monotone(s, i, j - 1);
    } else if 0 < j {
        lemma_row_monotone(s, i - 1, j - 1);
    }
}

/// The row of an index starts where its line does.
pub proof fn lemma_row_start_of(s: Seq<char>, k: int)
    requires
        0 <= k <= s.len(),
    ensures
        row_start(s, row_of(s, k)) == line_start_index(s, k),
    decreases k,
{
    if k > 0 {
        lemma_row_start_of(s, k - 1);
        if s[k - 1] == '\n' {
            lemma_row_monotone(s, 0, k - 1);
            lemma_line_start(s, k - 1);
        }
    }
}

/// Each row up to the last starts inside the text, on that row.
pub proof fn lemma_row_start(s: Seq<char>, row: int)
    requires
        0 <= row <= last_row(s),
    ensures
        0 <= row_start(s, row) <= s.len(),
        row_of(s, row_start(s, row)) == row,
        line_start_index(s, row_start(s, row)) == row_start(s, row),
        row < last_row(s) ==> line_end_index(s, row_start(s, row)) < s.len(),
    decreases row,
{
    if row > 0 {
        lemma_row_start(s, row - 1);
        lemma_line_end(s, row_start(s, row - 1));
    }
    lemma_line_end(s, row_start(s, row));
}

/// The position at which the line of `cursor` starts.
pub fn line_start(text: &str, cursor: usize) -> (position: usize)
    requires
        at_boundary(text@, cursor as int),
    ensures
        position == byte_offset(text@, line_start_index(text@, char_index(text@, cursor as int))),
{
    let ghost s: Seq<char> = text@;
    let ghost k: int = char_index(s, cursor as int);
    proof {
        lemma_boundary(s, cursor as int);
        lemma_offset_ends(s);
    }
    let (prefix, _) = split_text(text, cursor);
    let mut start: usize = 0;
    let mut position: usize = 0;
    for c in it: prefix.chars()
        invariant
            it.seq() == prefix@,
            prefix@ == s.take(k),
            0 <= k <= s.len(),
            byte_offset(s, k) == cursor,
            position == byte_offset(s, it.index()),
            start == byte_offset(s, line_start_index(s, it.index())),
    {
        proof {
            lemma_offset_step(s, it.index());
            lemma_offset_monotone(s, it.index() + 1, k);
        }
        position = position + char_len(c);
        if c == '\n' {
            start = position;
        }
    }
    start
}

/// The position at which the line of `cursor` ends, in front of its newline.
pub fn line_end(text: &str, cursor: usize) -> (position: usize)
    requires
        at_boundary(text@, cursor as int),
    ensures
        position == byte_offset(text@, line_end_index(text@, char_index(text@, cursor as int))),
{
    let ghost s: Seq<char> = text@;
    let ghost k: int = char_index(s, cursor as int);
    let len: usize = text_len(text);
    proof {
        lemma_boundary(s, cursor as int);
        lemma_offset_ends(s);
    }
    let (_, suffix) = split_text(text, cursor);
    let mut position: usize = cursor;
    for c in it: suffix.chars()
        invariant
            it.seq() == suffix@,
            suffix@ == s.skip(k),
            s == text@,
            k == char_index(s, cursor as int),
            0 <= k <= s.len(),
            len == byte_len(s),
            byte_offset(s, s.len() as int) == len,
            position == byte_offset(s, k + it.index()),
            line_end_index(s, k) == line_end_index(s, k + it.index()),
    {
        if c == '\n' {
            return position;
        }
        proof {
            lemma_offset_step(s, k + it.index());
            lemma_offset_monotone(s, k + it.index() + 1, s.len() as int);
        }
        position = position + char_len(c);
    }
    position
}

/// The positions at which the lines of `text` start, in order.
pub fn line_starts(text: &str) -> (starts: Vec<usize>)
    ensures
        starts.len() == last_row(text@) + 1,
        forall|row: int|
            0 <= row < starts.len() ==> #[trigger] starts[row] == byte_offset(
                text@,
                row_start(text@, row),
            ),
{
    let ghost s: Seq<char> = text@;
    let len: usize = text_len(text);
    proof {
        lemma_offset_ends(s);
    }
    let mut starts: Vec<usize> = Vec::new();
    starts.push(0);
    let mut position: usize = 0;
    for c in it: text.chars()
        invariant
            it.seq() == s,
            len == byte_len(s),
            byte_offset(s, s.len() as int) == len,
            position == byte_offset(s, it.index()),
            starts.len() == row_of(s, it.index()) + 1,
            forall|row: int|
                0 <= row < starts.len() ==> #[trigger] starts[row] == byte_offset(
                    s,
                    row_start(s, row),
                ),
    {
        let ghost i: int = it.index();
        proof {
            lemma_offset_step(s, i);
            lemma_offset_monotone(s, i + 1, s.len() as int);
            lemma_row_start_of(s, i + 1);
        }
        position = position + char_len(c);
        if c == '\n' {
            starts.push(position);
        }
    }
    starts
}

/// The position of the character with the index `column`, or the end of a shorter text.
pub fn byte_index_for_char_column(text: &str, column: usize) -> (position: usize)
    ensures
        position == byte_offset(
            text@,
            if column < text@.len() {
                column as int
            } else {
                text@.len() as int
            },
        ),
{
    let ghost s: Seq<char> = text@;
    let len: usize = text_len(text);
    proof {
        lemma_offset_ends(s);
    }
    let mut current: usize = 0;
    let mut position: usize = 0;
    for c in it: text.chars()
        invariant
            it.seq() == s,
            s == text@,
            len == byte_len(s),
            byte_offset(s, s.len() as int) == len,
            position == byte_offset(s, it.index()),
            current == it.index() <= column,
    {
        if current == column {
            return position;
        }
        proof {
            lemma_offset_step(s, it.index());
            lemma_offset_monotone(s, it.index() + 1, s.len() as int);
        }
        position = position + char_len(c);
        current = current + 1;
    }
    position
}

/// The row `delta` lines from `row`, kept within the lines of the text.
pub open spec fn clamped_row(s: Seq<char>, row: int, delta: int) -> int {
    if row + delta < 0 {
        0
    } else if row + delta > last_row(s) {
        last_row(s)
    } else {
        row + delta
    }
}

/// The index in the same column as `k`, `delta` lines further down; at the end of that line where
/// it is shorter, and `k` itself where there is no other line.
pub open spec fn vertical_index(s: Seq<char>, k: int, delta: int) -> int {
    let row = row_of(s, k);
    let target = clamped_row(s, row, delta);
    if target == row {
        k
    } else {
        let column = k - line_start_index(s, k);
        let start = row_start(s, target);
        let end = line_end_index(s, start);
        if start + column < end {
            start + column
        } else {
            end
        }
    }
}

/// The index reached by a vertical motion lies in the text.
pub proof fn lemma_vertical_index(s: Seq<char>, k: int, delta: int)
    requires
        0 <= k <= s.len(),
    ensures
        0 <= vertical_index(s, k, delta) <= s.len(),
        row_of(s, vertical_index(s, k, delta)) == clamped_row(s, row_of(s, k), delta),
        line_start_index(s, vertical_index(s, k, delta)) == row_start(
            s,
            clamped_row(s, row_of(s, k), delta),
        ),
{
    let row = row_of(s, k);
    let target = clamped_row(s, row, delta);
    lemma_row_monotone(s, 0, k);
    lemma_row_monotone(s, k, s.len() as int);
    lemma_line_start(s, k);
    lemma_row_start_of(s, k);
    if target != row {
        let start = row_start(s, target);
        lemma_row_start(s, target);
        lemma_line_end(s, start);
        lemma_same_line(s, start, vertical_index(s, k, delta));
    }
}

/// Indices with no newline between them lie on one line.
pub proof fn lemma_same_line(s: Seq<char>, i: int, j: int)
    requires
        0 <= i <= j <= s.len(),
        forall|m: int| i <= m < j ==> s[m] != '\n',
    ensures
        row_of(s, i) == row_of(s, j),
        line_start_index(s, i) == line_start_index(s, j),
        line_end_index(s, i) == line_end_index(s, j),
    decreases j - i,
{
    if i < j {
        lemma_same_line(s, i, j - 1);
    }
}

/// The position `delta` lines below `cursor`, in the same column where that line is long enough.
pub fn move_vertical(text: &str, cursor: usize, delta: isize) -> (position: usize)
    requires
        at_boundary(text@, cursor as int),
    ensures
        position == byte_offset(
            text@,
            vertical_index(text@, char_index(text@, cursor as int), delta as int),
        ),
{
    let ghost s: Seq<char> = text@;
    let ghost k: int = char_index(s, cursor as int);
    let starts = line_starts(text);
    let current_start: usize = line_start(text, cursor);
    proof {
        lemma_boundary(s, cursor as int);
        lemma_line_start(s, k);
        lemma_index_of_offset(s, line_start_index(s, k));
        lemma_offset_monotone(s, line_start_index(s, k), k);
        lemma_row_start_of(s, k);
        lemma_row_monotone(s, 0, k);
        lemma_row_monotone(s, k, s.len() as int);
    }
    let current_row: usize = count_newlines(split_text(text, cursor).0);
    proof {
        lemma_row_of_take(s, k, k);
    }
    let current_column: usize = slice_text(text, current_start, cursor).unicode_len();
    let max_row: usize = starts.len() - 1;
    let target_row: usize = if delta < 0 {
        let further_up: usize = (-(delta + 1)) as usize;
        if further_up < current_row {
            current_row - 1 - further_up
        } else {
            0
        }
    } else {
        let down: usize = delta as usize;
        if down < max_row - current_row {
            current_row + down
        } else {
            max_row
        }
    };
    if target_row == current_row {
        return cursor;
    }
    let target_start: usize = starts[target_row];
    let ghost start: int = row_start(s, target_row as int);
    proof {
        lemma_row_start(s, target_row as int);
        lemma_line_end(s, start);
        lemma_index_of_offset(s, start);
        lemma_index_of_offset(s, line_end_index(s, start));
        lemma_offset_monotone(s, start, line_end_index(s, start));
    }
    let target_end: usize = line_end(text, target_start);
    let line = slice_text(text, target_start, target_end);
    let column_offset: usize = byte_index_for_char_column(line, current_column);
    proof {
        let c: int = if current_column < line@.len() {
            current_column as int
        } else {
            line@.len() as int
        };
        lemma_offset_of_slice(s, start, line_end_index(s, start), c);
        lemma_offset_monotone(s, start + c, line_end_index(s, start));
    }
    column_offset + target_start
}

/// Offsets inside a part of the text count from where the part starts.
pub proof fn lemma_offset_of_slice(s: Seq<char>, i: int, j: int, k: int)
    requires
        0 <= i <= j <= s.len(),
        0 <= k <= j - i,
    ensures
        byte_offset(s.subrange(i, j), k) + byte_offset(s, i) == byte_offset(s, i + k),
{
    assert(s.take(i + k) =~= s.take(i) + s.subrange(i, j).take(k));
    lemma_encode_concat(s.take(i), s.subrange(i, j).take(k));
}

/// A prefix keeps the rows of the indices in it.
pub proof fn lemma_row_of_take(s: Seq<char>, n: int, k: int)
    requires
        0 <= k <= n <= s.len(),
    ensures
        row_of(s.take(n), k) == row_of(s, k),
    decreases k,
{
    if k > 0 {
        lemma_row_of_take(s, n, k - 1);
    }
}

/// The number of newlines in `text`.
pub fn count_newlines(text: &str) -> (count: usize)
    ensures
        count == last_row(text@),
{
    let ghost s: Seq<char> = text@;
    let len: usize = text.unicode_len();
    let mut count: usize = 0;
    for c in it: text.chars()
        invariant
            it.seq() == s,
            len == s.len(),
            count == row_of(s, it.index()) <= it.index(),
    {
        if c == '\n' {
            count = count + 1;
        }
    }
    count
}

/// The index after the line of `k` and its newline, if it has one.
pub open spec fn line_after_index(s: Seq<char>, k: int) -> int {
    let end = line_end_index(s, k);
    if end < s.len() {
        end + 1
    } else {
        end
    }
}

/// The index from which the line of `k` is deleted: from its start, or, where nothing follows it,
/// from the newline in front of it.
pub open spec fn line_delete_index(s: Seq<char>, k: int) -> int {
    let start = line_start_index(s, k);
    if line_after_index(s, k) == s.len() && start > 0 {
        start - 1
    } else {
        start
    }
}

/// Where the line of `cursor` starts, where it ends with its newline, and from where it is
/// deleted.
pub fn current_line_delete_range(text: &str, cursor: usize) -> (range: (usize, usize, usize))
    requires
        at_boundary(text@, cursor as int),
    ensures
        ({
            let k = char_index(text@, cursor as int);
            &&& range.0 == byte_offset(text@, line_start_index(text@, k))
            &&& range.1 == byte_offset(text@, line_after_index(text@, k))
            &&& range.2 == byte_offset(text@, line_delete_index(text@, k))
        }),
{
    let ghost s: Seq<char> = text@;
    let ghost k: int = char_index(s, cursor as int);
    let ghost start: int = line_start_index(s, k);
    let ghost end: int = line_end_index(s, k);
    let len: usize = text_len(text);
    let line_start_idx: usize = line_start(text, cursor);
    let line_end_core: usize = line_end(text, cursor);
    proof {
        lemma_boundary(s, cursor as int);
        lemma_line_start(s, k);
        lemma_line_end(s, k);
        lemma_offset_ends(s);
        lemma_offset_monotone(s, end, s.len() as int);
        lemma_offset_monotone(s, 0, start);
        if end < s.len() {
            lemma_offset_step(s, end);
            lemma_offset_monotone(s, end + 1, s.len() as int);
        }
        if start > 0 {
            lemma_offset_step(s, start - 1);
        }
        lemma_newline_width();
    }
    let line_end_idx: usize = if line_end_core < len {
        line_end_core + 1
    } else {
        line_end_core
    };
    let delete_start_idx: usize = if line_end_idx == len && line_start_idx > 0 {
        line_start_idx - 1
    } else {
        line_start_idx
    };
    (line_start_idx, line_end_idx, delete_start_idx)
}

/// A newline takes one byte.
pub proof fn lemma_newline_width()
    ensures
        width('\n') == 1,
{
}

} // verus!
