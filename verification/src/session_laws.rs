//! What holds of a session by itself: its model, its modes, its prompt and its selection.

use vstd::prelude::*;
use vstd::utf8::encode_utf8;
use crate::editor::{KeyAction, LineEditor, ReadOutcome};
use crate::model::ActionView;
use crate::reading::OutcomeView;
use crate::selection::{highlighted, selected, starts_char};
use crate::session::{EditSession, EditorMode, SessionView};
use crate::text::{
    at_boundary, byte_len, byte_offset, char_index, lemma_boundary, lemma_index_of_offset,
    lemma_offset_ends, lemma_offset_monotone, lemma_offset_step, next_position, previous_position,
};

verus! {

/// The model of a session shows its fields as they are; of a well-formed one, the cursors as the
/// number of characters in front of them.
pub proof fn law_session_fields(session: EditSession)
    ensures
        session@.text == session.text@,
        session@.mode == session.mode,
        session@.pending_operator == session.pending_operator,
        session@.visual_anchor == session.visual_anchor,
        session@.command_buffer == session.command_buffer@,
        session@.history_index == session.history_index,
        session@.history_backup is Some <==> session.history_backup is Some,
        session.history_backup matches Some(backup) ==> session@.history_backup == Some(backup@),
        session@.rendered_cursor_row == session.rendered_cursor_row,
        session@.rendered_lines == session.rendered_lines,
        session.wf() ==> {
            &&& 0 <= session@.cursor <= session.text@.len()
            &&& encode_utf8(session.text@.take(session@.cursor)).len() == session.cursor
            &&& 0 <= session@.command_cursor <= session.command_buffer@.len()
            &&& encode_utf8(session.command_buffer@.take(session@.command_cursor)).len()
                == session.command_cursor
        },
{
    if session.wf() {
        lemma_boundary(session.text@, session.cursor as int);
        lemma_boundary(session.command_buffer@, session.command_cursor as int);
    }
}

/// A session is well-formed where both cursors stand behind some number of characters, and, in
/// command mode, the command starts with a colon and the cursor stands behind that.
pub proof fn law_well_formed(session: EditSession, i: int, j: int)
    requires
        0 <= i <= session.text@.len(),
        encode_utf8(session.text@.take(i)).len() == session.cursor,
        0 <= j <= session.command_buffer@.len(),
        encode_utf8(session.command_buffer@.take(j)).len() == session.command_cursor,
        session.mode is Command ==> j > 0 && session.command_buffer@[0] == ':',
    ensures
        session.wf(),
        session@.cursor == i,
        session@.command_cursor == j,
{
    assert(byte_offset(session.text@, i) == session.cursor);
    assert(byte_offset(session.command_buffer@, j) == session.command_cursor);
    lemma_index_of_offset(session.text@, i);
    lemma_index_of_offset(session.command_buffer@, j);
    lemma_offset_ends(session.command_buffer@);
    lemma_offset_monotone(session.command_buffer@, 0, j);
}

/// The model of an editor shows its fields as they are.
pub proof fn law_editor_fields(editor: LineEditor)
    ensures
        editor@.prompt == editor.prompt@,
        editor@.completions.len() == editor.completions@.len(),
        forall|i: int|
            0 <= i < editor.completions@.len() ==> #[trigger] editor@.completions[i]
                == editor.completions@[i]@,
        editor@.history.len() == editor.history@.len(),
        forall|i: int|
            0 <= i < editor.history@.len() ==> #[trigger] editor@.history[i]
                == editor.history@[i]@,
        editor@.yank_text == editor.yank_buffer.text@,
        editor@.yank_linewise == editor.yank_buffer.linewise,
        editor@.vim_enabled == editor.vim_enabled,
        editor@.completion is Some <==> editor.completion_state is Some,
        editor.completion_state matches Some(state) ==> {
            let shown = editor@.completion->0;
            &&& shown.prefix == state.prefix@
            &&& shown.next_index == state.next_index
            &&& shown.matches.len() == state.matches@.len()
            &&& forall|i: int|
                0 <= i < state.matches@.len() ==> #[trigger] shown.matches[i]
                    == state.matches@[i]@
        },
{
}

/// What a key asks for, and how reading ended, are shown as what they are.
pub proof fn law_actions_are_shown(line: String)
    ensures
        KeyAction::Continue@ == ActionView::Continue,
        KeyAction::Submit(line)@ == ActionView::Submit(line@),
        KeyAction::Cancel@ == ActionView::Cancel,
        KeyAction::Exit@ == ActionView::Exit,
        KeyAction::ToggleVim@ == ActionView::ToggleVim,
        ReadOutcome::Submit(line)@ == OutcomeView::Submit(line@),
        ReadOutcome::Cancel@ == OutcomeView::Cancel,
        ReadOutcome::Exit@ == OutcomeView::Exit,
{
}

/// A new session is empty, at its start, and ready to type into.
pub proof fn law_new_session(vim_enabled: bool)
    ensures
        ({
            let fresh = SessionView::fresh(vim_enabled);
            &&& fresh.text.len() == 0
            &&& fresh.cursor == 0
            &&& vim_enabled ==> fresh.mode is Insert
            &&& !vim_enabled ==> fresh.mode is Plain
            &&& fresh.pending_operator is None
            &&& fresh.visual_anchor is None
            &&& fresh.command_buffer.len() == 0
            &&& fresh.command_cursor == 0
            &&& fresh.history_index is None
            &&& fresh.history_backup is None
            &&& fresh.rendered_cursor_row == 0
            &&& fresh.rendered_lines == 1
        }),
{
}

/// The keys work on the command in command mode and on the input in every other, and what they
/// replace is that alone.
pub proof fn law_active_text(s: SessionView, text: Seq<char>, cursor: int)
    ensures
        s.mode is Command ==> {
            &&& s.active_text() == s.command_buffer
            &&& s.active_cursor() == s.command_cursor
            &&& s.with_active(text, cursor) == (SessionView {
                command_buffer: text,
                command_cursor: cursor,
                ..s
            })
        },
        !(s.mode is Command) ==> {
            &&& s.active_text() == s.text
            &&& s.active_cursor() == s.cursor
            &&& s.with_active(text, cursor) == (SessionView { text, cursor, ..s })
        },
{
}

/// Going to a mode drops the operator and the selection.  Visual mode selects from the cursor on,
/// and command mode starts a command with its colon, which leaving it drops.
pub proof fn law_modes(s: SessionView, mode: EditorMode)
    requires
        0 <= s.cursor <= s.text.len(),
        encode_utf8(s.text).len() <= usize::MAX,
    ensures
        s.in_mode(mode) == (SessionView {
            mode,
            pending_operator: None,
            visual_anchor: None,
            ..s
        }),
        s.in_visual_mode() == (SessionView {
            mode: EditorMode::Visual,
            pending_operator: None,
            visual_anchor: s.in_visual_mode().visual_anchor,
            ..s
        }),
        s.in_visual_mode().visual_anchor is Some,
        s.in_visual_mode().visual_anchor->0 == encode_utf8(s.text.take(s.cursor)).len(),
        s.in_command_mode() == (SessionView {
            mode: EditorMode::Command,
            pending_operator: None,
            visual_anchor: None,
            command_buffer: seq![':'],
            command_cursor: 1,
            ..s
        }),
        s.out_of_command_mode() == (SessionView {
            mode: EditorMode::Normal,
            pending_operator: None,
            visual_anchor: None,
            command_buffer: Seq::empty(),
            command_cursor: 0,
            ..s
        }),
{
    lemma_offset_ends(s.text);
    lemma_offset_monotone(s.text, s.cursor, s.text.len() as int);
}

/// A text out of the history replaces the input, with the cursor at its end, the selection and the
/// operator dropped; what was a mode to type in stays, and any other becomes normal mode.
pub proof fn law_history_text(s: SessionView, entry: Seq<char>)
    ensures
        s.with_history_text(entry) == (SessionView {
            text: entry,
            cursor: entry.len() as int,
            mode: match s.mode {
                EditorMode::Plain => EditorMode::Plain,
                EditorMode::Insert => EditorMode::Insert,
                EditorMode::Normal | EditorMode::Visual | EditorMode::Command => EditorMode::Normal,
            },
            pending_operator: None,
            visual_anchor: None,
            ..s
        }),
{
}

/// The prompt stands as it is with vim key bindings off, and behind the name of the mode in square
/// brackets, and a space, with them on.
pub proof fn law_prompt(s: SessionView, base_prompt: Seq<char>)
    ensures
        s.prompt(base_prompt, false) == base_prompt,
        s.prompt(base_prompt, true) == seq!['['] + (match s.mode {
            EditorMode::Plain => seq!['P', 'L', 'A', 'I', 'N'],
            EditorMode::Insert => seq!['I', 'N', 'S', 'E', 'R', 'T'],
            EditorMode::Normal => seq!['N', 'O', 'R', 'M', 'A', 'L'],
            EditorMode::Visual => seq!['V', 'I', 'S', 'U', 'A', 'L'],
            EditorMode::Command => seq!['C', 'O', 'M', 'M', 'A', 'N', 'D'],
        }) + seq![']', ' '] + base_prompt,
{
    reveal_strlit("[");
    reveal_strlit("] ");
    reveal_strlit("PLAIN");
    reveal_strlit("INSERT");
    reveal_strlit("NORMAL");
    reveal_strlit("VISUAL");
    reveal_strlit("COMMAND");
    assert("["@ =~= seq!['[']);
    assert("] "@ =~= seq![']', ' ']);
    assert("PLAIN"@ =~= seq!['P', 'L', 'A', 'I', 'N']);
    assert("INSERT"@ =~= seq!['I', 'N', 'S', 'E', 'R', 'T']);
    assert("NORMAL"@ =~= seq!['N', 'O', 'R', 'M', 'A', 'L']);
    assert("VISUAL"@ =~= seq!['V', 'I', 'S', 'U', 'A', 'L']);
    assert("COMMAND"@ =~= seq!['C', 'O', 'M', 'M', 'A', 'N', 'D']);
}

/// `text` with the characters from the index `i` to the index `j` between the escape sequences of
/// reverse video.
pub open spec fn in_reverse_video(text: Seq<char>, i: int, j: int) -> Seq<char> {
    text.take(i) + seq!['\x1b', '[', '7', 'm'] + text.subrange(i, j) + seq!['\x1b', '[', '0', 'm']
        + text.skip(j)
}

/// Out of visual mode, and where nothing is selected, the text can always be shown, and is shown as
/// it stands.
pub proof fn law_text_is_shown(s: SessionView)
    ensures
        !(s.mode is Visual) || s.visual_anchor is None || s.text.len() == 0 ==> s.selection_fits(),
        s.mode is Command ==> s.visible() == s.command_buffer,
        s.mode is Plain || s.mode is Insert || s.mode is Normal ==> s.visible() == s.text,
        s.mode is Visual && (s.visual_anchor is None || s.text.len() == 0) ==> s.visible()
            == s.text,
{
}

/// In visual mode, what lies between the start and the cursor, and the character at the farther of
/// the two, is shown in reverse video.  `near` and `far` are the two ends, counted in characters;
/// a far end at or behind the end of the text selects up to there, and where the near end is there
/// too, nothing is left to select.
pub proof fn law_selection_in_reverse_video(s: SessionView, anchor: int)
    requires
        s.mode is Visual,
        0 <= s.cursor <= s.text.len(),
        0 <= anchor <= s.text.len(),
        s.visual_anchor is Some,
        s.visual_anchor->0 == encode_utf8(s.text.take(anchor)).len(),
    ensures
        s.selection_fits(),
        ({
            let near = if anchor < s.cursor {
                anchor
            } else {
                s.cursor
            };
            let far = if anchor < s.cursor {
                s.cursor
            } else {
                anchor
            };
            s.visible() == (if near == s.text.len() {
                s.text
            } else if far < s.text.len() {
                in_reverse_video(s.text, near, far + 1)
            } else {
                in_reverse_video(s.text, near, s.text.len() as int)
            })
        }),
{
    reveal_strlit("\x1b[7m");
    reveal_strlit("\x1b[0m");
    assert("\x1b[7m"@ =~= seq!['\x1b', '[', '7', 'm']);
    assert("\x1b[0m"@ =~= seq!['\x1b', '[', '0', 'm']);
    let t = s.text;
    let n = t.len() as int;
    let first = if anchor < s.cursor {
        anchor
    } else {
        s.cursor
    };
    let last = if anchor < s.cursor {
        s.cursor
    } else {
        anchor
    };
    assert(byte_offset(t, anchor) == s.visual_anchor->0);
    lemma_offset_ends(t);
    lemma_offset_monotone(t, 0, first);
    lemma_offset_monotone(t, first, last);
    lemma_offset_monotone(t, last, n);
    lemma_index_of_offset(t, first);
    lemma_index_of_offset(t, last);
    lemma_index_of_offset(t, n);
    if last < n {
        lemma_offset_step(t, last);
        lemma_offset_monotone(t, last + 1, n);
        lemma_offset_monotone(t, first, last + 1);
        lemma_index_of_offset(t, last + 1);
    }
}

/// Where the text was shortened in visual mode, so that the selection started behind its end, the
/// text is shown in reverse video from the cursor on.
pub proof fn law_selection_from_behind_the_text(s: SessionView)
    requires
        s.mode is Visual,
        0 <= s.cursor <= s.text.len(),
        s.visual_anchor is Some,
        s.visual_anchor->0 >= encode_utf8(s.text).len(),
    ensures
        s.selection_fits(),
        s.visible() == (if s.cursor == s.text.len() {
            s.text
        } else {
            in_reverse_video(s.text, s.cursor, s.text.len() as int)
        }),
{
    reveal_strlit("\x1b[7m");
    reveal_strlit("\x1b[0m");
    assert("\x1b[7m"@ =~= seq!['\x1b', '[', '7', 'm']);
    assert("\x1b[0m"@ =~= seq!['\x1b', '[', '0', 'm']);
    let t = s.text;
    let n = t.len() as int;
    lemma_offset_ends(t);
    lemma_offset_monotone(t, s.cursor, n);
    lemma_index_of_offset(t, s.cursor);
    lemma_index_of_offset(t, n);
}

/// Where the text was edited in visual mode, so that the selection started inside a character, the
/// selection can be shown only as long as the cursor stands behind that, and then nothing is in
/// reverse video.
pub proof fn law_selection_from_inside_a_character(s: SessionView)
    requires
        s.mode is Visual,
        0 <= s.cursor <= s.text.len(),
        s.visual_anchor is Some,
        s.visual_anchor->0 < encode_utf8(s.text).len(),
        forall|i: int|
            0 <= i <= s.text.len() ==> encode_utf8(#[trigger] s.text.take(i)).len()
                != s.visual_anchor->0,
    ensures
        s.selection_fits() <==> s.visual_anchor->0 < encode_utf8(s.text.take(s.cursor)).len(),
        s.selection_fits() ==> s.visible() == s.text,
{
    let t = s.text;
    lemma_offset_ends(t);
    lemma_index_of_offset(t, s.cursor);
    let a = s.visual_anchor->0 as int;
    assert(encode_utf8(t.take(s.cursor)).len() != a);
    if at_boundary(t, a) {
        lemma_boundary(t, a);
        let i: int = char_index(t, a);
        assert(encode_utf8(t.take(i)).len() == a);
    }
}

/// The positions next to one that stands behind `k` characters stand behind one character less, as
/// far as there is one, and behind one more.
pub proof fn law_neighbouring_positions(s: Seq<char>, k: int)
    requires
        0 <= k <= s.len(),
    ensures
        ({
            let b = encode_utf8(s.take(k)).len() as int;
            &&& k > 0 ==> previous_position(s, b) == encode_utf8(s.take(k - 1)).len()
            &&& k == 0 ==> previous_position(s, b) == 0
            &&& k < s.len() ==> next_position(s, b) == encode_utf8(s.take(k + 1)).len()
            &&& k == s.len() ==> next_position(s, b) == encode_utf8(s).len()
        }),
        forall|b: int| b >= encode_utf8(s).len() ==> #[trigger] next_position(s, b) == encode_utf8(
            s,
        ).len(),
{
    lemma_offset_ends(s);
    lemma_index_of_offset(s, k);
    lemma_offset_monotone(s, k, s.len() as int);
    assert(byte_len(s) == encode_utf8(s).len());
}

/// The selection between two positions, in whichever order they come, is that from the nearer of
/// them, as far as the text goes, to behind the character at the farther one.  An empty text has
/// none.
pub proof fn law_selection_bounds(s: Seq<char>, i: int, j: int)
    requires
        0 <= i <= j <= s.len(),
    ensures
        ({
            let near = encode_utf8(s.take(i)).len() as int;
            let far = encode_utf8(s.take(j)).len() as int;
            let end = if j < s.len() {
                encode_utf8(s.take(j + 1)).len() as int
            } else {
                encode_utf8(s).len() as int
            };
            &&& s.len() == 0 ==> selected(s, near, far) is None && selected(s, far, near) is None
            &&& s.len() > 0 ==> selected(s, near, far) == Some((near, end)) && selected(
                s,
                far,
                near,
            ) == Some((near, end))
        }),
        forall|b: int| s.len() > 0 && b >= encode_utf8(s).len() ==> #[trigger] selected(
            s,
            encode_utf8(s.take(i)).len() as int,
            b,
        ) == Some((encode_utf8(s.take(i)).len() as int, encode_utf8(s).len() as int)),
        forall|b: int| s.len() > 0 && b >= encode_utf8(s).len() ==> #[trigger] selected(
            s,
            b,
            encode_utf8(s.take(i)).len() as int,
        ) == Some((encode_utf8(s.take(i)).len() as int, encode_utf8(s).len() as int)),
{
    law_neighbouring_positions(s, j);
    lemma_offset_ends(s);
    lemma_offset_monotone(s, i, j);
    lemma_offset_monotone(s, j, s.len() as int);
    assert(byte_offset(s, i) == encode_utf8(s.take(i)).len());
    assert(byte_offset(s, j) == encode_utf8(s.take(j)).len());
}

/// Reverse video starts at the character that starts at the position `start`, which is the one with
/// the index `i`, and ends at the one that starts at `end`, if one does from there on, and
/// otherwise at the end of the text.
pub proof fn law_reverse_video(s: Seq<char>, i: int, end: int)
    requires
        0 <= i < s.len(),
    ensures
        ({
            let start = encode_utf8(s.take(i)).len() as int;
            &&& forall|j: int|
                i <= j < s.len() && encode_utf8(#[trigger] s.take(j)).len() == end ==> highlighted(
                    s,
                    start,
                    end,
                ) == in_reverse_video(s, i, j)
            &&& (forall|j: int|
                i <= j < s.len() ==> encode_utf8(#[trigger] s.take(j)).len() != end)
                ==> highlighted(s, start, end) == in_reverse_video(s, i, s.len() as int)
        }),
{
    reveal_strlit("\x1b[7m");
    reveal_strlit("\x1b[0m");
    assert("\x1b[7m"@ =~= seq!['\x1b', '[', '7', 'm']);
    assert("\x1b[0m"@ =~= seq!['\x1b', '[', '0', 'm']);
    let n = s.len() as int;
    let start = byte_offset(s, i);
    assert(start == encode_utf8(s.take(i)).len());
    lemma_offset_ends(s);
    lemma_index_of_offset(s, i);
    lemma_offset_monotone(s, i, n);
    assert forall|j: int|
        i <= j < n && encode_utf8(#[trigger] s.take(j)).len() == end implies highlighted(
        s,
        start,
        end,
    ) == in_reverse_video(s, i, j) by {
        assert(byte_offset(s, j) == end);
        lemma_index_of_offset(s, j);
        lemma_offset_monotone(s, i, j);
        lemma_offset_monotone(s, j, n);
    }
    if forall|j: int| i <= j < n ==> encode_utf8(#[trigger] s.take(j)).len() != end {
        if start <= end && starts_char(s, end) {
            lemma_boundary(s, end);
            let j: int = char_index(s, end);
            assert(encode_utf8(s.take(j)).len() == end);
            if j < i {
                lemma_offset_monotone(s, j, i);
            }
        }
    }
}

/// Where no character starts at the position `start`, nothing is in reverse video.
pub proof fn law_no_reverse_video(s: Seq<char>, start: int, end: int)
    requires
        forall|i: int| 0 <= i < s.len() ==> encode_utf8(#[trigger] s.take(i)).len() != start,
    ensures
        highlighted(s, start, end) == s,
{
    if starts_char(s, start) {
        lemma_boundary(s, start);
        lemma_offset_ends(s);
        let i: int = char_index(s, start);
        assert(encode_utf8(s.take(i)).len() == start);
    }
}

} // verus!
