//! What holds of the lines of the input.

use vstd::prelude::*;
use crate::lines::{
    clamped_row, last_row, lemma_line_end, lemma_line_start, lemma_row_monotone, lemma_row_of_take,
    lemma_row_start, lemma_row_start_of, lemma_same_line, lemma_vertical_index, line_after_index,
    line_delete_index, line_end_index, line_start_index, row_of, row_start, vertical_index,
};
use crate::model::{after_normal_char, pasted_line, EditorView};
use crate::session::{EditorMode, SessionView};
use crate::text::{inserted, removed};

verus! {

/// The lines of `s`: what stands between its newlines.
pub open spec fn lines_of(s: Seq<char>) -> Seq<Seq<char>>
    decreases s.len(),
{
    if s.len() == 0 {
        seq![Seq::empty()]
    } else {
        let before = lines_of(s.drop_last());
        if s.last() == '\n' {
            before.push(Seq::empty())
        } else {
            before.drop_last().push(before.last().push(s.last()))
        }
    }
}

/// A text has one line more than it has newlines.
pub proof fn law_lines_are_counted(s: Seq<char>)
    ensures
        lines_of(s).len() == last_row(s) + 1,
    decreases s.len(),
{
    if s.len() > 0 {
        law_lines_are_counted(s.drop_last());
        lemma_row_of_take(s, s.len() - 1, s.len() - 1);
        assert(s.take(s.len() - 1) =~= s.drop_last());
        lemma_row_monotone(s, 0, s.len() - 1);
    }
}

/// A newline separates the lines in front of it from those behind it.
pub proof fn law_newline_separates(a: Seq<char>, b: Seq<char>)
    ensures
        lines_of(a.push('\n') + b) == lines_of(a) + lines_of(b),
    decreases b.len(),
{
    let whole = a.push('\n') + b;
    if b.len() == 0 {
        assert(whole =~= a.push('\n'));
        assert(whole.drop_last() =~= a);
        assert(lines_of(whole) =~= lines_of(a) + lines_of(b));
    } else {
        law_newline_separates(a, b.drop_last());
        law_lines_are_counted(b.drop_last());
        lemma_row_monotone(b.drop_last(), 0, b.len() - 1);
        assert(whole.drop_last() =~= a.push('\n') + b.drop_last());
        assert(lines_of(whole) =~= lines_of(a) + lines_of(b));
    }
}

/// A text without newlines is its only line.
pub proof fn law_single_line(s: Seq<char>)
    requires
        forall|i: int| 0 <= i < s.len() ==> s[i] != '\n',
    ensures
        lines_of(s) == seq![s],
    decreases s.len(),
{
    if s.len() > 0 {
        law_single_line(s.drop_last());
        assert(s.drop_last().push(s.last()) =~= s);
        assert(lines_of(s) =~= seq![s]);
    } else {
        assert(s =~= Seq::empty());
    }
}

/// The line of the index `k`, without its newline.
pub open spec fn line_at(s: Seq<char>, k: int) -> Seq<char> {
    s.subrange(line_start_index(s, k), line_end_index(s, k))
}

/// The lines above that of the index `k`.
pub open spec fn lines_above(s: Seq<char>, k: int) -> Seq<Seq<char>> {
    let start = line_start_index(s, k);
    if start == 0 {
        Seq::empty()
    } else {
        lines_of(s.take(start - 1))
    }
}

/// The lines below that of the index `k`.
pub open spec fn lines_below(s: Seq<char>, k: int) -> Seq<Seq<char>> {
    let end = line_end_index(s, k);
    if end == s.len() {
        Seq::empty()
    } else {
        lines_of(s.skip(end + 1))
    }
}

/// The lines of a text that ends with the line of the index `k`.
proof fn lemma_lines_up_to(s: Seq<char>, k: int)
    requires
        0 <= k <= s.len(),
    ensures
        lines_of(s.take(line_end_index(s, k))) == lines_above(s, k).push(line_at(s, k)),
        lines_above(s, k).len() == row_of(s, k),
{
    let start = line_start_index(s, k);
    let end = line_end_index(s, k);
    lemma_line_start(s, k);
    lemma_line_end(s, k);
    let line = line_at(s, k);
    law_single_line(line);
    if start == 0 {
        assert(s.take(end) =~= line);
        assert(lines_of(s.take(end)) =~= lines_above(s, k).push(line));
    } else {
        let above = s.take(start - 1);
        assert(s.take(end) =~= above.push('\n') + line);
        law_newline_separates(above, line);
        assert(lines_of(s.take(end)) =~= lines_above(s, k).push(line));
        law_lines_are_counted(above);
        lemma_row_of_take(s, start - 1, start - 1);
    }
}

/// The lines of a text are those above a line, the line, and those below it.
pub proof fn law_lines_around(s: Seq<char>, k: int)
    requires
        0 <= k <= s.len(),
    ensures
        lines_of(s) == lines_above(s, k).push(line_at(s, k)) + lines_below(s, k),
        lines_above(s, k).len() == row_of(s, k),
        lines_of(s)[row_of(s, k)] == line_at(s, k),
{
    let end = line_end_index(s, k);
    lemma_line_end(s, k);
    lemma_lines_up_to(s, k);
    if end == s.len() {
        assert(s.take(end) =~= s);
        assert(lines_of(s) =~= lines_above(s, k).push(line_at(s, k)) + lines_below(s, k));
    } else {
        assert(s =~= s.take(end).push('\n') + s.skip(end + 1));
        law_newline_separates(s.take(end), s.skip(end + 1));
    }
}

/// After two characters in normal mode.
pub open spec fn after_two(e: EditorView, s: SessionView, first: char, second: char) -> (
    EditorView,
    SessionView,
) {
    let (e2, s2) = after_normal_char(e, s, first);
    after_normal_char(e2, s2, second)
}

/// `yy` touches nothing of the session, and yanks the line with its newline.
pub proof fn law_yank_keeps_the_session(e: EditorView, s: SessionView)
    requires
        s.mode == EditorMode::Normal,
        s.pending_operator is None,
    ensures
        after_two(e, s, 'y', 'y') == (e.with_line_yanked(s.current_line()), s),
{
}

/// `dd` yanks what `yy` does.
pub proof fn law_delete_yanks_the_line(e: EditorView, s: SessionView)
    requires
        s.mode == EditorMode::Normal,
        s.pending_operator is None,
    ensures
        after_two(e, s, 'd', 'd').0 == after_two(e, s, 'y', 'y').0,
{
}

/// `yy` and then `p` puts a copy of the line below it, unless what was yanked is empty: an empty
/// last line.
pub proof fn law_yank_and_paste_copies_the_line(e: EditorView, s: SessionView)
    requires
        s.valid(),
        s.mode == EditorMode::Normal,
        s.pending_operator is None,
        s.current_line().len() > 0,
    ensures
        ({
            let (e2, s2) = after_two(e, s, 'y', 'y');
            let (e3, s3) = after_normal_char(e2, s2, 'p');
            let row = row_of(s.text, s.cursor);
            lines_of(s3.text) == lines_of(s.text).insert(row + 1, lines_of(s.text)[row])
        }),
{
    let t = s.text;
    let k = s.cursor;
    let end = line_end_index(t, k);
    let line = line_at(t, k);
    let at = line_after_index(t, k);
    lemma_line_start(t, k);
    lemma_line_end(t, k);
    lemma_lines_up_to(t, k);
    law_lines_around(t, k);
    law_single_line(line);
    let yanked = s.current_line();
    let insertion = pasted_line(t, at, yanked);
    let pasted = inserted(t, at, insertion);
    let (e2, s2) = after_two(e, s, 'y', 'y');
    law_yank_keeps_the_session(e, s);
    assert(after_normal_char(e2, s2, 'p').1.text == pasted);
    if end < t.len() {
        assert(yanked =~= line.push('\n'));
        assert(insertion =~= line.push('\n'));
        let tail = line.push('\n') + t.skip(at);
        assert(pasted =~= t.take(end).push('\n') + tail);
        law_newline_separates(t.take(end), tail);
        law_newline_separates(line, t.skip(at));
        assert(lines_of(pasted) =~= lines_of(t).insert(row_of(t, k) + 1, line));
    } else {
        assert(yanked =~= line);
        assert(t.last() == line.last());
        assert(insertion =~= seq!['\n'] + line);
        assert(pasted =~= t.push('\n') + line);
        law_newline_separates(t, line);
        assert(t.take(end) =~= t);
        assert(lines_of(pasted) =~= lines_of(t).insert(row_of(t, k) + 1, line));
    }
}

/// After `yy` and `p` on a line with text, the cursor stands at the start of the copy.
pub proof fn law_paste_goes_to_the_copy(e: EditorView, s: SessionView)
    requires
        s.valid(),
        s.mode == EditorMode::Normal,
        s.pending_operator is None,
        line_at(s.text, s.cursor).len() > 0,
    ensures
        ({
            let (e2, s2) = after_two(e, s, 'y', 'y');
            let (e3, s3) = after_normal_char(e2, s2, 'p');
            &&& row_of(s3.text, s3.cursor) == row_of(s.text, s.cursor) + 1
            &&& line_start_index(s3.text, s3.cursor) == s3.cursor
        }),
{
    let t = s.text;
    let k = s.cursor;
    let end = line_end_index(t, k);
    let line = line_at(t, k);
    let at = line_after_index(t, k);
    lemma_line_start(t, k);
    lemma_line_end(t, k);
    let yanked = s.current_line();
    let insertion = pasted_line(t, at, yanked);
    let pasted = inserted(t, at, insertion);
    let (e2, s2) = after_two(e, s, 'y', 'y');
    law_yank_keeps_the_session(e, s);
    let s3 = after_normal_char(e2, s2, 'p').1;
    assert(s3.text == pasted);
    assert(pasted.take(end) =~= t.take(end));
    lemma_row_of_take(pasted, end, end);
    lemma_row_of_take(t, end, end);
    if end < t.len() {
        assert(yanked =~= line.push('\n'));
        assert(insertion[0] == line[0]);
        assert(line[0] == t[line_start_index(t, k)]);
        assert(s3.cursor == end + 1);
        assert(pasted[end] == t[end]);
    } else {
        assert(yanked =~= line);
        assert(t.last() == line.last());
        assert(insertion =~= seq!['\n'] + line);
        assert(s3.cursor == end + 1);
        assert(pasted[end] == '\n');
    }
}

/// `dd` takes the line of the cursor out of the lines.  Where it is the only one, an empty line is
/// left; and where only an empty last line follows, below other lines, that goes too.
pub proof fn law_delete_takes_the_line_out(e: EditorView, s: SessionView)
    requires
        s.valid(),
        s.mode == EditorMode::Normal,
        s.pending_operator is None,
    ensures
        ({
            let after = after_two(e, s, 'd', 'd').1;
            let row = row_of(s.text, s.cursor);
            let others = lines_of(s.text).remove(row);
            lines_of(after.text) == (if others.len() == 0 {
                seq![Seq::empty()]
            } else if row > 0 && row + 1 == last_row(s.text) && s.text.last() == '\n' {
                others.drop_last()
            } else {
                others
            })
        }),
{
    let t = s.text;
    let k = s.cursor;
    let start = line_start_index(t, k);
    let end = line_end_index(t, k);
    let from = line_delete_index(t, k);
    let next = line_after_index(t, k);
    lemma_line_start(t, k);
    lemma_line_end(t, k);
    law_lines_around(t, k);
    law_lines_are_counted(t);
    let above = lines_above(t, k);
    let below = lines_below(t, k);
    let others = lines_of(t).remove(row_of(t, k));
    assert(others =~= above + below);
    let left = removed(t, from, next);
    assert(after_two(e, s, 'd', 'd').1.text == left);
    lemma_row_monotone(t, 0, k);
    if start > 0 {
        let head = t.take(start - 1);
        law_lines_are_counted(head);
        lemma_row_monotone(head, 0, head.len() as int);
        if end < t.len() {
            law_lines_are_counted(t.skip(next));
            lemma_row_monotone(t.skip(next), 0, t.skip(next).len() as int);
        }
        if next < t.len() {
            assert(left =~= head.push('\n') + t.skip(next));
            law_newline_separates(head, t.skip(next));
            lemma_rest_is_last(t, k);
        } else {
            assert(left =~= head);
            if end < t.len() {
                assert(t.skip(next) =~= Seq::<char>::empty());
                assert(below =~= seq![Seq::<char>::empty()]);
                assert(others.drop_last() =~= above);
            } else {
                assert(others =~= above);
            }
        }
    } else {
        assert(left =~= t.skip(next));
        assert(above =~= Seq::<Seq<char>>::empty());
        if end < t.len() {
            law_lines_are_counted(t.skip(next));
            lemma_row_monotone(t.skip(next), 0, t.skip(next).len() as int);
            assert(others =~= below);
        } else {
            assert(others =~= Seq::<Seq<char>>::empty());
            assert(left =~= Seq::<char>::empty());
        }
    }
}

/// Where text follows the line of `k`, the next line is not an empty last one.
proof fn lemma_rest_is_last(t: Seq<char>, k: int)
    requires
        0 <= k <= t.len(),
        line_after_index(t, k) < t.len(),
    ensures
        !(row_of(t, k) + 1 == last_row(t) && t.last() == '\n'),
{
    let end = line_end_index(t, k);
    let next = line_after_index(t, k);
    lemma_line_end(t, k);
    assert(row_of(t, next) == row_of(t, k) + 1);
    if t.last() == '\n' {
        lemma_row_monotone(t, next, t.len() - 1);
    }
}

/// A vertical motion goes to the row that is asked for, as far as there are rows, and keeps the
/// column, as far as the line there reaches.
pub proof fn law_vertical_motion(s: SessionView, delta: int)
    requires
        s.valid(),
        s.mode != EditorMode::Command,
    ensures
        ({
            let row = row_of(s.text, s.cursor);
            let column = s.cursor - line_start_index(s.text, s.cursor);
            let moved = s.moved_vertically(delta);
            let start = line_start_index(s.text, moved.cursor);
            let len = line_end_index(s.text, moved.cursor) - start;
            &&& row_of(s.text, moved.cursor) == clamped_row(s.text, row, delta)
            &&& moved.cursor - start == (if column < len {
                column
            } else {
                len
            })
        }),
{
    let t = s.text;
    let k = s.cursor;
    let row = row_of(t, k);
    let target = clamped_row(t, row, delta);
    lemma_vertical_index(t, k, delta);
    lemma_line_start(t, k);
    lemma_line_end(t, k);
    lemma_row_start_of(t, k);
    lemma_row_monotone(t, 0, k);
    lemma_row_monotone(t, k, t.len() as int);
    if target != row {
        let start = row_start(t, target);
        lemma_row_start(t, target);
        lemma_line_end(t, start);
        lemma_same_line(t, start, vertical_index(t, k, delta));
    }
}

/// Going down a line and up again comes back to the row; and to the place, where the line below
/// reaches as far.
pub proof fn law_down_then_up(s: SessionView)
    requires
        s.valid(),
        s.mode != EditorMode::Command,
        row_of(s.text, s.cursor) < last_row(s.text),
    ensures
        ({
            let back = s.moved_vertically(1).moved_vertically(-1);
            let below = row_start(s.text, row_of(s.text, s.cursor) + 1);
            let column = s.cursor - line_start_index(s.text, s.cursor);
            &&& row_of(s.text, back.cursor) == row_of(s.text, s.cursor)
            &&& back.cursor <= s.cursor
            &&& column <= line_end_index(s.text, below) - below ==> back == s
        }),
{
    let t = s.text;
    let k = s.cursor;
    let down = s.moved_vertically(1);
    law_vertical_motion(s, 1);
    lemma_vertical_index(t, k, 1);
    lemma_vertical_index(t, down.cursor, -1);
    law_vertical_motion(down, -1);
    lemma_line_start(t, k);
    lemma_line_end(t, k);
    lemma_row_start_of(t, k);
    lemma_row_start_of(t, down.cursor);
    lemma_row_monotone(t, 0, k);
    lemma_row_monotone(t, k, t.len() as int);
    let row = row_of(t, k);
    lemma_row_start(t, row);
    lemma_row_start(t, row + 1);
    let back = down.moved_vertically(-1);
    lemma_line_start(t, down.cursor);
    lemma_line_end(t, down.cursor);
    lemma_line_start(t, back.cursor);
    lemma_line_end(t, back.cursor);
    assert(line_start_index(t, back.cursor) == line_start_index(t, k));
    assert(line_end_index(t, back.cursor) == line_end_index(t, k));
}

/// Whether the text of the session is `above`, then `line`, then `below`, where `line` is the line
/// that the cursor stands on: `above` holds the lines above it with their newlines, and `below`
/// starts with the newline that ends the line.
pub open spec fn cut(
    s: SessionView,
    above: Seq<char>,
    line: Seq<char>,
    below: Seq<char>,
) -> bool {
    &&& s.text == above + line + below
    &&& above.len() > 0 ==> above.last() == '\n'
    &&& below.len() > 0 ==> below[0] == '\n'
    &&& forall|i: int| 0 <= i < line.len() ==> #[trigger] line[i] != '\n'
    &&& above.len() <= s.cursor <= above.len() + line.len()
}

/// Every cursor stands on a line.
pub proof fn law_every_cursor_is_on_a_line(s: SessionView)
    requires
        0 <= s.cursor <= s.text.len(),
    ensures
        exists|above: Seq<char>, line: Seq<char>, below: Seq<char>| cut(s, above, line, below),
{
    let t = s.text;
    let start = line_start_index(t, s.cursor);
    let end = line_end_index(t, s.cursor);
    lemma_line_start(t, s.cursor);
    lemma_line_end(t, s.cursor);
    assert(t =~= t.take(start) + t.subrange(start, end) + t.skip(end));
    assert(cut(s, t.take(start), t.subrange(start, end), t.skip(end)));
}

/// Where the line of the cursor starts and ends.
pub proof fn lemma_cut(s: SessionView, above: Seq<char>, line: Seq<char>, below: Seq<char>)
    requires
        cut(s, above, line, below),
    ensures
        line_start_index(s.text, s.cursor) == above.len(),
        line_end_index(s.text, s.cursor) == above.len() + line.len(),
        s.text.take(above.len() as int) == above,
        s.text.subrange(above.len() as int, (above.len() + line.len()) as int) == line,
        s.text.skip((above.len() + line.len()) as int) == below,
        s.text.take((above.len() + line.len()) as int) == above + line,
{
    let t = s.text;
    let k = s.cursor;
    let a = above.len() as int;
    let b = a + line.len();
    let start = line_start_index(t, k);
    let end = line_end_index(t, k);
    lemma_line_start(t, k);
    lemma_line_end(t, k);
    assert(t.take(a) =~= above);
    assert(t.subrange(a, b) =~= line);
    assert(t.skip(b) =~= below);
    assert(t.take(b) =~= above + line);
    if start < a {
        assert(t[a - 1] == above.last());
    } else if a < start {
        assert(t[start - 1] == line[start - 1 - a]);
    }
    if end < b {
        assert(t[end] == line[end - a]);
    } else if b < end {
        assert(t[b] == below[0]);
    }
}

/// The row and the column of the index `k`: how many lines the text in front of it has, but one,
/// and how long the last of these is.
pub open spec fn place(s: Seq<char>, k: int) -> (int, int) {
    let lines = lines_of(s.take(k));
    (lines.len() - 1, lines.last().len() as int)
}

/// The row counts the newlines in front, and the column the characters behind the last of them.
pub proof fn lemma_place(s: Seq<char>, k: int)
    requires
        0 <= k <= s.len(),
    ensures
        place(s, k) == (row_of(s, k), k - line_start_index(s, k)),
    decreases k,
{
    let front = s.take(k);
    law_lines_are_counted(front);
    lemma_row_of_take(s, k, k);
    if k > 0 {
        lemma_place(s, k - 1);
        assert(front.drop_last() =~= s.take(k - 1));
        law_lines_are_counted(s.take(k - 1));
        lemma_row_monotone(s.take(k - 1), 0, k - 1);
    }
}

/// No two indices have the same place.
pub proof fn law_places_differ(s: Seq<char>, i: int, j: int)
    requires
        0 <= i < j <= s.len(),
    ensures
        place(s, i) != place(s, j),
{
    lemma_place(s, i);
    lemma_place(s, j);
    lemma_row_monotone(s, i, j);
    lemma_row_start_of(s, i);
    lemma_row_start_of(s, j);
}

/// Where a vertical motion leads: to the row asked for, as far as there are lines, and in it to the
/// column that it came from, as far as the line reaches.
pub proof fn law_vertical_places(s: SessionView, delta: int)
    requires
        0 <= s.cursor <= s.text.len(),
        !(s.mode is Command),
    ensures
        ({
            let moved = s.moved_vertically(delta);
            let lines = lines_of(s.text);
            let (row, column) = place(s.text, s.cursor);
            let asked = row + delta;
            let target = if asked < 0 {
                0
            } else if asked >= lines.len() {
                lines.len() - 1
            } else {
                asked
            };
            &&& moved == (SessionView { cursor: moved.cursor, ..s })
            &&& 0 <= moved.cursor <= s.text.len()
            &&& place(s.text, moved.cursor) == (
                target,
                if column <= lines[target].len() {
                    column
                } else {
                    lines[target].len() as int
                },
            )
        }),
{
    let t = s.text;
    let k = s.cursor;
    let moved = s.moved_vertically(delta);
    assert(moved == (SessionView { cursor: moved.cursor, ..s }));
    lemma_vertical_index(t, k, delta);
    lemma_place(t, k);
    lemma_place(t, moved.cursor);
    law_lines_are_counted(t);
    law_lines_around(t, moved.cursor);
    lemma_line_start(t, moved.cursor);
    lemma_line_end(t, moved.cursor);
    lemma_line_start(t, k);
    lemma_line_end(t, k);
    lemma_row_monotone(t, 0, k);
    lemma_row_monotone(t, k, t.len() as int);
    let valid = SessionView { command_buffer: Seq::empty(), command_cursor: 0, ..s };
    law_vertical_motion(valid, delta);
}

/// Each line starts in its row, in the first column, and there are as many as the text has lines.
pub proof fn law_lines_start_in_their_rows(s: Seq<char>, row: int)
    requires
        0 <= row < lines_of(s).len(),
    ensures
        0 <= row_start(s, row) <= s.len(),
        place(s, row_start(s, row)) == (row, 0int),
        last_row(s) == lines_of(s).len() - 1,
{
    law_lines_are_counted(s);
    lemma_row_start(s, row);
    lemma_place(s, row_start(s, row));
}

} // verus!
