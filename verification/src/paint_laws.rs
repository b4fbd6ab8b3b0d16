//! What holds of what is shown on the terminal.

use vstd::prelude::*;
use crate::key_laws::{buffer, point};
use crate::line_laws::{law_lines_are_counted, law_single_line, lemma_place, lines_of, place};
use crate::lines::{
    last_row, lemma_line_start, lemma_row_monotone, lemma_row_of_take, lemma_vertical_index,
    line_start_index,
};
use crate::model::after_visual_char;
use crate::selection::{larger, reverse_off, reverse_on, reversed, selected, smaller, starts_char};
use crate::session::{EditorMode, SessionView};
use crate::terminal::{clear_paint, OpView, Paint, PaintView, TerminalOp};
use crate::text::{
    at_boundary, byte_len, byte_offset, char_index, lemma_boundary, lemma_index_of_offset,
    lemma_offset_ends, lemma_offset_monotone, lemma_offset_step,
};

verus! {

/// The row of the terminal's cursor after an operation, on a terminal that is wide enough.
pub open spec fn row_after_op(op: OpView, row: int) -> int {
    match op {
        OpView::MoveUp(rows) => row - rows,
        OpView::Print(text) => row + last_row(text),
        _ => row,
    }
}

/// The row of the terminal's cursor after some operations, on a terminal that is wide enough.
pub open spec fn row_after(ops: Seq<OpView>, row: int) -> int
    decreases ops.len(),
{
    if ops.len() == 0 {
        row
    } else {
        row_after_op(ops.last(), row_after(ops.drop_last(), row))
    }
}

/// One more operation moves the cursor on from where it was.
proof fn lemma_row_after_push(ops: Seq<OpView>, op: OpView, row: int)
    ensures
        row_after(ops.push(op), row) == row_after_op(op, row_after(ops, row)),
{
    assert(ops.push(op).drop_last() =~= ops);
}

/// The newlines of a concatenation are those of its parts.
pub proof fn law_rows_add_up(a: Seq<char>, b: Seq<char>)
    ensures
        last_row(a + b) == last_row(a) + last_row(b),
    decreases b.len(),
{
    let whole = a + b;
    if b.len() == 0 {
        assert(whole =~= a);
    } else {
        law_rows_add_up(a, b.drop_last());
        assert(whole.take(whole.len() - 1) =~= a + b.drop_last());
        assert(b.take(b.len() - 1) =~= b.drop_last());
        lemma_row_of_take(whole, whole.len() - 1, whole.len() - 1);
        lemma_row_of_take(b, b.len() - 1, b.len() - 1);
    }
}

/// Text without newlines stays on its row.
proof fn lemma_no_rows(s: Seq<char>)
    requires
        forall|i: int| 0 <= i < s.len() ==> s[i] != '\n',
    ensures
        last_row(s) == 0,
    decreases s.len(),
{
    if s.len() > 0 {
        lemma_no_rows(s.drop_last());
        assert(s.take(s.len() - 1) =~= s.drop_last());
        lemma_row_of_take(s, s.len() - 1, s.len() - 1);
    }
}

/// Reverse video adds no rows.
proof fn lemma_reversed_rows(s: Seq<char>, i: int, j: int)
    requires
        0 <= i <= j <= s.len(),
    ensures
        last_row(reversed(s, i, j)) == last_row(s),
{
    reveal_strlit("\x1b[7m");
    reveal_strlit("\x1b[0m");
    lemma_no_rows(reverse_on());
    lemma_no_rows(reverse_off());
    law_rows_add_up(s.take(i), reverse_on());
    law_rows_add_up(s.take(i) + reverse_on(), s.subrange(i, j));
    law_rows_add_up(s.take(i) + reverse_on() + s.subrange(i, j), reverse_off());
    law_rows_add_up(
        s.take(i) + reverse_on() + s.subrange(i, j) + reverse_off(),
        s.skip(j),
    );
    law_rows_add_up(s.take(i), s.subrange(i, j));
    law_rows_add_up(s.take(i) + s.subrange(i, j), s.skip(j));
    assert(s.take(i) + s.subrange(i, j) + s.skip(j) =~= s);
}

/// What is shown of a session has the rows of its active text: a selection adds none.
pub proof fn law_visible_rows(s: SessionView)
    ensures
        last_row(s.visible()) == last_row(s.active_text()),
{
    if s.mode == EditorMode::Visual && s.visual_anchor is Some && s.text.len() > 0 {
        let bounds = selected(
            s.text,
            s.visual_anchor->0 as int,
            byte_offset(s.text, s.cursor),
        )->0;
        if starts_char(s.text, bounds.0) {
            lemma_boundary(s.text, bounds.0);
            lemma_reversed_rows(s.text, char_index(s.text, bounds.0), s.text.len() as int);
            if bounds.0 <= bounds.1 && starts_char(s.text, bounds.1) {
                lemma_boundary(s.text, bounds.1);
                let i = char_index(s.text, bounds.0);
                let j = char_index(s.text, bounds.1);
                if j < i {
                    lemma_offset_monotone(s.text, j, i);
                }
                lemma_reversed_rows(s.text, i, j);
            }
        }
    }
}

/// The mode in front of the prompt adds no rows.
proof fn lemma_prompt_rows(s: SessionView, base_prompt: Seq<char>, vim_enabled: bool)
    ensures
        last_row(s.prompt(base_prompt, vim_enabled)) == last_row(base_prompt),
{
    reveal_strlit("[");
    reveal_strlit("] ");
    reveal_strlit("PLAIN");
    reveal_strlit("INSERT");
    reveal_strlit("NORMAL");
    reveal_strlit("VISUAL");
    reveal_strlit("COMMAND");
    lemma_no_rows("["@);
    lemma_no_rows("] "@);
    lemma_no_rows(s.mode.name());
    law_rows_add_up("["@, s.mode.name());
    law_rows_add_up("["@ + s.mode.name(), "] "@);
    law_rows_add_up("["@ + s.mode.name() + "] "@, base_prompt);
}

/// Clearing a rendering goes back to the row that it started on.
pub proof fn law_clearing_goes_to_the_first_row(row: int)
    requires
        0 <= row <= u16::MAX,
    ensures
        clear_paint(row).outcome is Ok,
        row_after(clear_paint(row).ops, row) == 0,
{
    let up = PaintView::empty().then_move_up(row);
    let left = up.then_move_to_column(0);
    let cleared = left.then_op(OpView::ClearFromCursorDown);
    lemma_row_after_push(Seq::empty(), OpView::MoveUp(row), row);
    lemma_row_after_push(up.ops, OpView::MoveToColumn(0), row);
    lemma_row_after_push(left.ops, OpView::ClearFromCursorDown, row);
    lemma_row_after_push(cleared.ops, OpView::Flush, row);
}

/// Rendering a session over its earlier rendering leaves the terminal's cursor on the row of the
/// session's cursor, counted from the row of the prompt, where the prompt is a single line; and
/// that row is the one that the session remembers to clear from.
pub proof fn law_rendering_places_the_cursor(
    s: SessionView,
    base_prompt: Seq<char>,
    vim_enabled: bool,
)
    requires
        s.valid(),
        last_row(base_prompt) == 0,
        s.active_text().len() < usize::MAX,
        s.render_paint(base_prompt, vim_enabled).outcome is Ok,
    ensures
        row_after(
            s.render_paint(base_prompt, vim_enabled).ops,
            s.rendered_cursor_row as int,
        ) == s.cursor_row(),
        s.rendered().rendered_cursor_row == s.cursor_row(),
{
    let row = s.rendered_cursor_row as int;
    let prompt = s.prompt(base_prompt, vim_enabled);
    let text = prompt + s.visible();
    let cleared = clear_paint(row);
    let printed = cleared.then_print(text);
    let up = s.total_lines() - (s.cursor_row() + 1);
    let raised = printed.then_move_up(up);
    let column = s.cursor_column(prompt.len() as int);
    let placed = raised.then_move_to_column(column);
    law_visible_rows(s);
    lemma_prompt_rows(s, base_prompt, vim_enabled);
    law_rows_add_up(prompt, s.visible());
    lemma_row_monotone(s.active_text(), 0, s.active_cursor());
    lemma_row_monotone(s.active_text(), s.active_cursor(), s.active_text().len() as int);
    law_clearing_goes_to_the_first_row(row);
    lemma_row_after_push(cleared.ops, OpView::Print(text), row);
    lemma_row_after_push(printed.ops, OpView::MoveUp(up), row);
    lemma_row_after_push(raised.ops, OpView::MoveToColumn(column), row);
    lemma_row_after_push(placed.ops, OpView::Flush, row);
}

/// What is selected does not depend on which end of the selection is the anchor.
pub proof fn law_selection_is_symmetric(s: Seq<char>, anchor: int, cursor: int)
    ensures
        selected(s, anchor, cursor) == selected(s, cursor, anchor),
{
}

/// As long as only motions follow each other in visual mode, the selection stays where it starts
/// and can be shown.
pub proof fn law_motions_keep_the_selection(s: SessionView, ch: char)
    requires
        s.valid(),
        s.mode == EditorMode::Visual,
        s.visual_anchor matches Some(anchor) ==> at_boundary(s.text, anchor as int),
    ensures
        s.selection_fits(),
        after_visual_char(s, ch).mode == EditorMode::Visual ==> {
            &&& after_visual_char(s, ch).text == s.text
            &&& after_visual_char(s, ch).visual_anchor == s.visual_anchor
            &&& after_visual_char(s, ch).selection_fits()
        },
{
    lemma_vertical_index(s.text, s.cursor, 1);
    lemma_vertical_index(s.text, s.cursor, -1);
    lemma_index_of_offset(s.text, s.cursor);
    let after = after_visual_char(s, ch);
    if after.mode == EditorMode::Visual {
        assert(0 <= after.cursor <= after.text.len());
        lemma_index_of_offset(after.text, after.cursor);
    }
}

/// What visual mode shows: the characters from one end of the selection through the other in
/// reverse video, and nothing where the selection starts at the end of the text.
pub proof fn law_selection_is_shown(s: SessionView, anchor: int)
    requires
        s.valid(),
        s.mode == EditorMode::Visual,
        0 <= anchor <= s.text.len(),
        byte_len(s.text) <= usize::MAX,
        s.visual_anchor == Some(byte_offset(s.text, anchor) as usize),
    ensures
        ({
            let first = smaller(anchor, s.cursor);
            let last = larger(anchor, s.cursor);
            s.visible() == (if first == s.text.len() {
                s.text
            } else if last < s.text.len() {
                reversed(s.text, first, last + 1)
            } else {
                reversed(s.text, first, last)
            })
        }),
{
    let t = s.text;
    let n = t.len() as int;
    let first = smaller(anchor, s.cursor);
    let last = larger(anchor, s.cursor);
    lemma_offset_ends(t);
    lemma_offset_monotone(t, 0, first);
    lemma_offset_monotone(t, first, last);
    lemma_offset_monotone(t, last, n);
    lemma_index_of_offset(t, first);
    lemma_index_of_offset(t, last);
    lemma_index_of_offset(t, n);
    if last < n {
        lemma_offset_step(t, last);
        lemma_offset_monotone(t, last + 1, n);
        lemma_offset_monotone(t, first, last + 1);
        lemma_index_of_offset(t, last + 1);
    }
    if n > 0 {
        let bounds = selected(t, byte_offset(t, anchor), byte_offset(t, s.cursor))->0;
        assert(bounds.0 == byte_offset(t, first));
        assert(bounds.1 == byte_offset(
            t,
            if last < n {
                last + 1
            } else {
                n
            },
        ));
    }
}

/// Entering visual mode shows the character at the cursor in reverse video, if there is one.
pub proof fn law_visual_mode_starts_at_the_cursor(s: SessionView)
    requires
        s.valid(),
        byte_len(s.text) <= usize::MAX,
    ensures
        s.in_visual_mode().selection_fits(),
        s.in_visual_mode().visible() == (if s.cursor < s.text.len() {
            reversed(s.text, s.cursor, s.cursor + 1)
        } else {
            s.text
        }),
{
    let visual = s.in_visual_mode();
    lemma_offset_ends(s.text);
    lemma_offset_monotone(s.text, 0, s.cursor);
    lemma_offset_monotone(s.text, s.cursor, s.text.len() as int);
    lemma_index_of_offset(s.text, s.cursor);
    law_selection_is_shown(visual, s.cursor);
}

/// Where the cursor of a terminal that is wide enough stands after a text was printed: on its row
/// that many characters further, or, behind a newline, on a later row that many characters from its
/// start.
pub open spec fn printed_to(text: Seq<char>, from: (int, int)) -> (int, int) {
    let lines = lines_of(text);
    if lines.len() == 1 {
        (from.0, from.1 + text.len())
    } else {
        (from.0 + lines.len() - 1, lines.last().len() as int)
    }
}

/// Where the terminal's cursor, at the row and the column `from`, stands after an operation.
pub open spec fn place_after_op(op: OpView, from: (int, int)) -> (int, int) {
    match op {
        OpView::MoveUp(rows) => (from.0 - rows, from.1),
        OpView::MoveToColumn(column) => (from.0, column),
        OpView::Print(text) => printed_to(text, from),
        OpView::ClearFromCursorDown => from,
        OpView::Flush => from,
    }
}

/// Where the terminal's cursor stands after some operations.
pub open spec fn place_after(ops: Seq<OpView>, from: (int, int)) -> (int, int)
    decreases ops.len(),
{
    if ops.len() == 0 {
        from
    } else {
        place_after_op(ops.last(), place_after(ops.drop_last(), from))
    }
}

/// One more operation moves the cursor on from where it was.
proof fn lemma_place_after_push(ops: Seq<OpView>, op: OpView, from: (int, int))
    ensures
        place_after(ops.push(op), from) == place_after_op(op, place_after(ops, from)),
{
    assert(ops.push(op).drop_last() =~= ops);
}

/// The row that the operations lead to, counted by newlines.
proof fn lemma_place_row(ops: Seq<OpView>, from: (int, int))
    ensures
        place_after(ops, from).0 == row_after(ops, from.0),
    decreases ops.len(),
{
    if ops.len() > 0 {
        lemma_place_row(ops.drop_last(), from);
        match ops.last() {
            OpView::Print(text) => {
                law_lines_are_counted(text);
                lemma_row_monotone(text, 0, text.len() as int);
            },
            _ => {},
        }
    }
}

/// Printing one text behind another leads to where printing both at once does.
pub proof fn law_printing_goes_on(a: Seq<char>, b: Seq<char>, from: (int, int))
    ensures
        printed_to(b, printed_to(a, from)) == printed_to(a + b, from),
    decreases b.len(),
{
    law_lines_are_counted(a);
    law_lines_are_counted(b);
    law_lines_are_counted(a + b);
    law_rows_add_up(a, b);
    lemma_row_monotone(a, 0, a.len() as int);
    lemma_row_monotone(b, 0, b.len() as int);
    if b.len() == 0 {
        assert(a + b =~= a);
    } else {
        let front = b.drop_last();
        law_printing_goes_on(a, front, from);
        assert((a + b).drop_last() =~= a + front);
        assert((a + b).last() == b.last());
        law_lines_are_counted(front);
        law_lines_are_counted(a + front);
        law_rows_add_up(a, front);
        lemma_row_monotone(front, 0, front.len() as int);
        if lines_of(front).len() == 1 {
            lemma_only_line(front);
        }
        if lines_of(a + front).len() == 1 {
            lemma_only_line(a + front);
        }
        if lines_of(a).len() == 1 {
            lemma_only_line(a);
        }
    }
}

/// A text with one line is that line.
proof fn lemma_only_line(s: Seq<char>)
    requires
        lines_of(s).len() == 1,
    ensures
        lines_of(s)[0].len() == s.len(),
        forall|i: int| 0 <= i < s.len() ==> #[trigger] s[i] != '\n',
    decreases s.len(),
{
    if s.len() > 0 {
        law_lines_are_counted(s.drop_last());
        lemma_row_monotone(s.drop_last(), 0, s.len() - 1);
        lemma_only_line(s.drop_last());
        assert forall|i: int| 0 <= i < s.len() implies #[trigger] s[i] != '\n' by {
            if i < s.len() - 1 {
                assert(s.drop_last()[i] == s[i]);
            }
        }
    }
}

/// The place of an index is where printing the text in front of it leads from the start of the
/// terminal.
proof fn lemma_printed_place(t: Seq<char>, k: int)
    requires
        0 <= k <= t.len(),
    ensures
        printed_to(t.take(k), (0, 0)) == place(t, k),
{
    if lines_of(t.take(k)).len() == 1 {
        lemma_only_line(t.take(k));
    }
}

/// The layout of a session, in every mode: the row of the cursor and its column, as far as the text
/// goes, where the prompt shifts the first row; and the number of lines.
pub proof fn law_layout(s: SessionView, prompt_len: int)
    requires
        0 <= point(s) <= buffer(s).len(),
    ensures
        ({
            let (row, column) = place(buffer(s), point(s));
            &&& s.cursor_row() == row
            &&& s.cursor_column(prompt_len) == (if row == 0 {
                prompt_len + column
            } else {
                column
            })
            &&& s.total_lines() == lines_of(buffer(s)).len()
        }),
{
    let t = buffer(s);
    let k = point(s);
    lemma_place(t, k);
    law_lines_are_counted(t);
    lemma_line_start(t, k);
    lemma_row_monotone(t, 0, line_start_index(t, k));
    let start = line_start_index(t, k);
    if start > 0 {
        lemma_row_monotone(t, 0, start - 1);
    }
}

/// The layout is where printing a prompt of a single line and the text in front of the cursor
/// leads, in every mode.
pub proof fn law_layout_is_where_printing_leads(s: SessionView, prompt: Seq<char>)
    requires
        0 <= point(s) <= buffer(s).len(),
        forall|i: int| 0 <= i < prompt.len() ==> #[trigger] prompt[i] != '\n',
    ensures
        (s.cursor_row(), s.cursor_column(prompt.len() as int)) == printed_to(
            prompt + buffer(s).take(point(s)),
            (0, 0),
        ),
{
    let front = buffer(s).take(point(s));
    law_layout(s, prompt.len() as int);
    law_single_line(prompt);
    law_printing_goes_on(prompt, front, (0, 0));
    lemma_printed_place(buffer(s), point(s));
    if lines_of(front).len() == 1 {
        lemma_only_line(front);
    }
}

/// Rendering a session over its earlier rendering, in every mode, leaves the terminal's cursor on
/// the row and in the column that printing the prompt, where that is a single line, and the text in
/// front of the session's cursor leads to, counted from where the prompt starts.
pub proof fn law_rendering_places_row_and_column(
    s: SessionView,
    base_prompt: Seq<char>,
    vim_enabled: bool,
    column: int,
)
    requires
        s.valid(),
        forall|i: int| 0 <= i < base_prompt.len() ==> #[trigger] base_prompt[i] != '\n',
        buffer(s).len() < usize::MAX,
        s.render_paint(base_prompt, vim_enabled).outcome is Ok,
    ensures
        place_after(
            s.render_paint(base_prompt, vim_enabled).ops,
            (s.rendered_cursor_row as int, column),
        ) == printed_to(
            s.prompt(base_prompt, vim_enabled) + buffer(s).take(point(s)),
            (0, 0),
        ),
        s.rendered().rendered_cursor_row == printed_to(
            s.prompt(base_prompt, vim_enabled) + buffer(s).take(point(s)),
            (0, 0),
        ).0,
{
    let prompt = s.prompt(base_prompt, vim_enabled);
    let from = (s.rendered_cursor_row as int, column);
    lemma_no_rows(base_prompt);
    law_rendering_places_the_cursor(s, base_prompt, vim_enabled);
    let paint = s.render_paint(base_prompt, vim_enabled);
    lemma_place_row(paint.ops, from);
    lemma_prompt_rows(s, base_prompt, vim_enabled);
    law_lines_are_counted(prompt);
    lemma_only_line(prompt);
    law_layout_is_where_printing_leads(s, prompt);
    let cleared = clear_paint(s.rendered_cursor_row as int);
    let raised = cleared.then_print(prompt + s.visible()).then_move_up(
        s.total_lines() - (s.cursor_row() + 1),
    );
    let target = s.cursor_column(prompt.len() as int);
    let placed = raised.then_move_to_column(target);
    lemma_place_after_push(raised.ops, OpView::MoveToColumn(target), from);
    lemma_place_after_push(placed.ops, OpView::Flush, from);
}

/// What clears an earlier rendering: up from the row of its cursor, where that is not the first, to
/// the start of the row, and then everything from there on is cleared.  A row that does not fit in
/// 16 bits fails, with nothing done.
pub proof fn law_clearing(row: int)
    requires
        0 <= row,
    ensures
        row > 65535 ==> clear_paint(row).outcome is Err && clear_paint(row).ops.len() == 0,
        row <= 65535 ==> clear_paint(row).outcome is Ok && clear_paint(row).ops == (if row > 0 {
            seq![OpView::MoveUp(row)]
        } else {
            Seq::empty()
        }) + seq![OpView::MoveToColumn(0), OpView::ClearFromCursorDown, OpView::Flush],
{
    if row <= 65535 {
        let up = if row > 0 {
            seq![OpView::MoveUp(row)]
        } else {
            Seq::empty()
        };
        assert(PaintView::empty().then_move_up(row).ops =~= up);
        assert(clear_paint(row).ops =~= up + seq![
            OpView::MoveToColumn(0),
            OpView::ClearFromCursorDown,
            OpView::Flush,
        ]);
    }
}

/// What renders a session: the earlier rendering is cleared; the prompt and what is shown of the
/// text are printed; the cursor goes up from the last row to its own, where that is another, and to
/// its column; and everything is flushed.  What comes behind a position that does not fit in 16
/// bits is not done.
pub proof fn law_rendering(s: SessionView, base_prompt: Seq<char>, vim_enabled: bool)
    requires
        0 <= point(s) <= buffer(s).len(),
    ensures
        ({
            let paint = s.render_paint(base_prompt, vim_enabled);
            let cleared = clear_paint(s.rendered_cursor_row as int);
            let prompt = s.prompt(base_prompt, vim_enabled);
            let printed = cleared.ops.push(OpView::Print(prompt + s.visible()));
            let (row, column) = place(buffer(s), point(s));
            let up = lines_of(buffer(s)).len() - 1 - row;
            let raised = if up > 0 {
                printed.push(OpView::MoveUp(up))
            } else {
                printed
            };
            let target = if row == 0 {
                prompt.len() + column
            } else {
                column
            };
            &&& s.rendered_cursor_row > 65535 ==> paint == cleared
            &&& s.rendered_cursor_row <= 65535 && up > 65535 ==> paint.outcome is Err && paint.ops
                == printed
            &&& s.rendered_cursor_row <= 65535 && up <= 65535 && target > 65535
                ==> paint.outcome is Err && paint.ops == raised
            &&& s.rendered_cursor_row <= 65535 && up <= 65535 && target <= 65535
                ==> paint.outcome is Ok && paint.ops == raised.push(
                OpView::MoveToColumn(target),
            ).push(OpView::Flush)
        }),
{
    let prompt = s.prompt(base_prompt, vim_enabled);
    law_layout(s, prompt.len() as int);
    law_clearing(s.rendered_cursor_row as int);
}

/// What renders a session for the last time: the earlier rendering is cleared, and the prompt, what
/// is shown of the text and a newline are printed.
pub proof fn law_last_rendering(s: SessionView, base_prompt: Seq<char>, vim_enabled: bool)
    ensures
        ({
            let paint = s.finalize_paint(base_prompt, vim_enabled);
            let cleared = clear_paint(s.rendered_cursor_row as int);
            &&& s.rendered_cursor_row > 65535 ==> paint == cleared
            &&& s.rendered_cursor_row <= 65535 ==> paint.outcome is Ok && paint.ops
                == cleared.ops.push(
                OpView::Print(s.prompt(base_prompt, vim_enabled) + s.visible()),
            ).push(OpView::Print(seq!['\n']))
        }),
{
    reveal_strlit("\n");
    assert("\n"@ =~= seq!['\n']);
    law_clearing(s.rendered_cursor_row as int);
}

/// A session that was rendered remembers the row of its cursor and the number of its lines, and is
/// otherwise as it was.
pub proof fn law_renderings_are_remembered(s: SessionView)
    requires
        0 <= point(s) <= buffer(s).len(),
        buffer(s).len() < usize::MAX,
    ensures
        s.rendered() == (SessionView {
            rendered_cursor_row: s.rendered().rendered_cursor_row,
            rendered_lines: s.rendered().rendered_lines,
            ..s
        }),
        s.rendered().rendered_cursor_row == place(buffer(s), point(s)).0,
        s.rendered().rendered_lines == lines_of(buffer(s)).len(),
{
    law_layout(s, 0);
    lemma_row_monotone(buffer(s), 0, point(s));
    lemma_row_monotone(buffer(s), point(s), buffer(s).len() as int);
}

/// What can be painted: a rendering can be cleared where its row fits in 16 bits, and a session can
/// be laid out where the characters of the prompt and of what is being edited can be counted.
pub proof fn law_what_painting_needs(s: SessionView, prompt_len: int)
    ensures
        s.can_clear() <==> s.rendered_cursor_row <= 65535,
        s.layout_fits(prompt_len) <==> prompt_len + buffer(s).len() < usize::MAX,
{
}

/// The operations on the terminal are shown as what they are.
pub proof fn law_operations_are_shown(op: TerminalOp, paint: Paint)
    ensures
        op matches TerminalOp::MoveUp(rows) ==> op@ == OpView::MoveUp(rows as int),
        op matches TerminalOp::MoveToColumn(column) ==> op@ == OpView::MoveToColumn(column as int),
        op matches TerminalOp::Print(text) ==> op@ == OpView::Print(text@),
        op is ClearFromCursorDown ==> op@ == OpView::ClearFromCursorDown,
        op is Flush ==> op@ == OpView::Flush,
        paint@.outcome == paint.outcome,
        paint@.ops.len() == paint.ops@.len(),
        forall|i: int| 0 <= i < paint.ops@.len() ==> #[trigger] paint@.ops[i] == paint.ops@[i]@,
{
}

/// Operations follow each other until a position does not fit in 16 bits: then none come any more,
/// and the outcome says so.
pub proof fn law_operations_follow_each_other(
    paint: PaintView,
    other: PaintView,
    text: Seq<char>,
    n: int,
)
    ensures
        paint.outcome is Err ==> {
            &&& paint.then_print(text) == paint
            &&& paint.then_paint(other) == paint
            &&& paint.then_move_up(n) == paint
            &&& paint.then_move_to_column(n) == paint
            &&& paint.then_overflow() == paint
            &&& paint.then_op(OpView::Flush) == paint
            &&& paint.then_op(OpView::ClearFromCursorDown) == paint
        },
        paint.outcome is Ok ==> {
            &&& paint.then_print(text) == (PaintView {
                ops: paint.ops.push(OpView::Print(text)),
                ..paint
            })
            &&& paint.then_paint(other) == (PaintView {
                ops: paint.ops + other.ops,
                outcome: other.outcome,
            })
            &&& n <= 0 ==> paint.then_move_up(n) == paint
            &&& 0 < n <= 65535 ==> paint.then_move_up(n) == (PaintView {
                ops: paint.ops.push(OpView::MoveUp(n)),
                ..paint
            })
            &&& 0 <= n <= 65535 ==> paint.then_move_to_column(n) == (PaintView {
                ops: paint.ops.push(OpView::MoveToColumn(n)),
                ..paint
            })
            &&& n > 65535 ==> {
                &&& paint.then_move_up(n).ops == paint.ops
                &&& paint.then_move_up(n).outcome is Err
                &&& paint.then_move_to_column(n).ops == paint.ops
                &&& paint.then_move_to_column(n).outcome is Err
            }
            &&& paint.then_overflow().ops == paint.ops
            &&& paint.then_overflow().outcome is Err
            &&& paint.then_op(OpView::Flush) == (PaintView {
                ops: paint.ops.push(OpView::Flush),
                ..paint
            })
            &&& paint.then_op(OpView::ClearFromCursorDown) == (PaintView {
                ops: paint.ops.push(OpView::ClearFromCursorDown),
                ..paint
            })
        },
        PaintView::empty().ops.len() == 0,
        PaintView::empty().outcome is Ok,
{
}

} // verus!
