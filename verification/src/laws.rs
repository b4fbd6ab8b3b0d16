//! What holds of the editor as a whole.

use vstd::prelude::*;
use crate::keys::{KeyCode, KeyEvent};
use crate::lines::{
    lemma_line_end, lemma_line_start, lemma_same_line, lemma_vertical_index, line_end_index,
    line_start_index,
};
use crate::model::{
    after_char, after_down, after_key, after_normal_char, after_paste, after_tab, after_up,
    completion_count, history_known, is_control_letter, is_toggle, key_fits, mode_fits,
    submit_action, ActionView, EditorView,
};
use crate::reading::{after_fallback, FallbackView, OutcomeView};
use crate::selection::larger;
use crate::session::{EditSession, EditorMode, SessionView};
use crate::text::{byte_offset, inserted, lemma_boundary, lemma_offset_ends, removed};
use crate::words::{
    is_blank, is_line_break, lemma_trim_end, lemma_trim_start, lemma_without_line_breaks,
};

verus! {

impl SessionView {
    /// The cursors lie within their texts, and in command mode behind the colon that starts the
    /// command.
    pub open spec fn valid(self) -> bool {
        &&& 0 <= self.cursor <= self.text.len()
        &&& 0 <= self.command_cursor <= self.command_buffer.len()
        &&& self.mode == EditorMode::Command ==> {
            &&& self.command_buffer.len() > 0
            &&& self.command_buffer[0] == ':'
            &&& self.command_cursor >= 1
        }
    }
}

/// A well-formed session has a valid model, and its cursors are the byte offsets of the
/// characters that the model counts to.
pub proof fn law_wf_is_valid(session: EditSession)
    requires
        session.wf(),
    ensures
        session@.valid(),
        session.cursor == byte_offset(session@.text, session@.cursor),
        session.command_cursor == byte_offset(session@.command_buffer, session@.command_cursor),
{
    lemma_boundary(session.text@, session.cursor as int);
    lemma_boundary(session.command_buffer@, session.command_cursor as int);
    let s = session.command_buffer@;
    if session.mode == EditorMode::Command && session@.command_cursor == 0 {
        lemma_offset_ends(s);
    }
}

/// Typing and deleting keep a session valid.
proof fn lemma_edits_valid(s: SessionView, insertion: Seq<char>)
    requires
        s.valid(),
    ensures
        s.with_insertion(insertion).valid(),
        s.with_char_deleted().valid(),
        s.after_backspace().valid(),
        s.after_escape().valid(),
{
}

/// Motions keep a session valid.
proof fn lemma_motions_valid(s: SessionView)
    requires
        s.valid(),
    ensures
        s.moved_left().valid(),
        s.moved_right().valid(),
        s.moved_to_line_start().valid(),
        s.moved_to_line_end().valid(),
        s.moved_vertically(1).valid(),
        s.moved_vertically(-1).valid(),
{
    lemma_line_start(s.text, s.cursor);
    lemma_line_end(s.text, s.cursor);
    lemma_vertical_index(s.text, s.cursor, 1);
    lemma_vertical_index(s.text, s.cursor, -1);
}

/// Characters in normal mode keep a session valid.
proof fn lemma_normal_char_valid(e: EditorView, s: SessionView, ch: char)
    requires
        s.valid(),
        s.mode == EditorMode::Normal,
    ensures
        after_normal_char(e, s, ch).1.valid(),
{
    let ready = SessionView { pending_operator: None, ..s };
    lemma_motions_valid(ready);
    lemma_line_start(s.text, s.cursor);
    lemma_line_end(s.text, s.cursor);
}

/// The tab key and the arrow keys of the history keep a session valid.
proof fn lemma_replacements_valid(e: EditorView, s: SessionView)
    requires
        s.valid(),
    ensures
        after_tab(e, s).1.valid(),
        after_up(e, s).valid(),
        after_down(e, s).valid(),
{
}

/// Every key keeps the session valid: its cursors stay within their texts, and a command keeps
/// its colon.
#[verifier::rlimit(60)]
pub proof fn law_keys_keep_sessions_valid(e: EditorView, s: SessionView, key: KeyEvent)
    requires
        s.valid(),
    ensures
        after_key(e, s, key).1.valid(),
{
    let e2 = if key.code == KeyCode::Tab {
        e
    } else {
        e.without_completion()
    };
    lemma_edits_valid(s, "\n"@);
    lemma_motions_valid(s);
    lemma_replacements_valid(e2, s);
    match key.code {
        KeyCode::Char(ch) => {
            lemma_edits_valid(s, seq![ch]);
            if s.mode == EditorMode::Normal {
                lemma_normal_char_valid(e2, s, ch);
            }
            assert(after_char(e2, s, ch).1.valid());
        },
        _ => {},
    }
}

/// Characters leave the place in the history alone.
proof fn lemma_char_keeps_history_index(e: EditorView, s: SessionView, ch: char)
    ensures
        after_char(e, s, ch).1.history_index == s.history_index,
{
    let ready = SessionView { pending_operator: None, ..s };
    assert(after_paste(e, ready).history_index == s.history_index);
}

/// The keys other than the arrow keys leave the place in the history alone.
#[verifier::rlimit(60)]
proof fn lemma_history_index_kept(e: EditorView, s: SessionView, key: KeyEvent)
    requires
        key.code != KeyCode::Up,
        key.code != KeyCode::Down,
    ensures
        after_key(e, s, key).1.history_index == s.history_index,
{
    match key.code {
        KeyCode::Char(ch) => {
            lemma_char_keeps_history_index(e.without_completion(), s, ch);
            assert(s.with_newline_typed().history_index == s.history_index);
            assert(s.with_char_deleted().history_index == s.history_index);
        },
        KeyCode::Tab => {
            assert(after_tab(e, s).1.history_index == s.history_index);
        },
        _ => {
            assert(s.with_newline_typed().history_index == s.history_index);
            assert(s.with_char_deleted().history_index == s.history_index);
            assert(s.after_backspace().history_index == s.history_index);
            assert(s.after_escape().history_index == s.history_index);
        },
    }
}

/// Every key leaves the session at an entry of the history that exists, if at any; and such a
/// session has what every key needs, as long as the completion in progress, if any, can be counted
/// on.
#[verifier::rlimit(60)]
pub proof fn law_keys_keep_history_known(e: EditorView, s: SessionView, key: KeyEvent)
    requires
        history_known(e, s),
        e.history.len() <= usize::MAX,
    ensures
        history_known(after_key(e, s, key).0, after_key(e, s, key).1),
        key.code != KeyCode::Tab || completion_count(e) < usize::MAX ==> key_fits(e, s, key),
{
    law_keys_keep_settings(e, s, key);
    match key.code {
        KeyCode::Up => {
            assert(after_key(e, s, key).1 == after_up(e.without_completion(), s));
        },
        KeyCode::Down => {
            assert(after_key(e, s, key).1 == after_down(e.without_completion(), s));
        },
        _ => {
            lemma_history_index_kept(e, s, key);
        },
    }
}

/// A key counts the completion in progress on by at most one.
#[verifier::rlimit(60)]
pub proof fn law_keys_count_completions(e: EditorView, s: SessionView, key: KeyEvent)
    ensures
        completion_count(after_key(e, s, key).0) <= larger(completion_count(e), 0) + 1,
{
    if key.code == KeyCode::Tab {
        assert(completion_count(after_tab(e, s).0) <= larger(completion_count(e), 0) + 1);
    } else {
        law_other_keys_end_completion(e, s, key);
    }
}

/// No key changes the history, the commands that are completed, the prompt, or whether vim key
/// bindings are on.
#[verifier::rlimit(60)]
pub proof fn law_keys_keep_settings(e: EditorView, s: SessionView, key: KeyEvent)
    ensures
        ({
            let after = after_key(e, s, key).0;
            &&& after.history == e.history
            &&& after.completions == e.completions
            &&& after.prompt == e.prompt
            &&& after.vim_enabled == e.vim_enabled
        }),
{
}

/// Any key but tab ends a completion.
#[verifier::rlimit(60)]
pub proof fn law_other_keys_end_completion(e: EditorView, s: SessionView, key: KeyEvent)
    requires
        key.code != KeyCode::Tab,
    ensures
        after_key(e, s, key).0.completion is None,
{
}

/// With vim key bindings off, a session stays in plain mode.
#[verifier::rlimit(60)]
pub proof fn law_plain_mode_stays(e: EditorView, s: SessionView, key: KeyEvent)
    requires
        !e.vim_enabled,
        s.mode == EditorMode::Plain,
    ensures
        after_key(e, s, key).1.mode == EditorMode::Plain,
{
}

/// With vim key bindings on, a session never falls back to plain mode.
#[verifier::rlimit(60)]
pub proof fn law_vim_modes_stay(e: EditorView, s: SessionView, key: KeyEvent)
    requires
        e.vim_enabled,
        s.mode != EditorMode::Plain,
    ensures
        after_key(e, s, key).1.mode != EditorMode::Plain,
{
}

/// Characters keep the mode, the selection and the operator fitting each other.
proof fn lemma_char_keeps_mode_fit(e: EditorView, s: SessionView, ch: char)
    requires
        mode_fits(e, s),
    ensures
        mode_fits(e, after_char(e, s, ch).1),
{
    let ready = SessionView { pending_operator: None, ..s };
    assert(after_paste(e, ready).mode == s.mode);
    assert(after_paste(e, ready).visual_anchor == s.visual_anchor);
    assert(after_paste(e, ready).pending_operator is None);
}

/// Every key keeps the mode fitting the vim setting, and the selection and the operator fitting the
/// mode; and they fit in a new session.
#[verifier::rlimit(60)]
pub proof fn law_keys_keep_the_mode_fit(e: EditorView, s: SessionView, key: KeyEvent)
    requires
        mode_fits(e, s),
    ensures
        mode_fits(after_key(e, s, key).0, after_key(e, s, key).1),
        mode_fits(e, SessionView::fresh(e.vim_enabled)),
{
    let e2 = if key.code == KeyCode::Tab {
        e
    } else {
        e.without_completion()
    };
    law_keys_keep_settings(e, s, key);
    assert(mode_fits(e2, s.with_newline_typed()));
    assert(mode_fits(e2, s.with_char_deleted()));
    match key.code {
        KeyCode::Char(ch) => {
            lemma_char_keeps_mode_fit(e2, s, ch);
        },
        KeyCode::Tab => {
            assert(mode_fits(e2, after_tab(e2, s).1));
        },
        KeyCode::Up => {
            assert(mode_fits(e2, after_up(e2, s)));
        },
        KeyCode::Down => {
            assert(mode_fits(e2, after_down(e2, s)));
        },
        KeyCode::Backspace => {
            assert(mode_fits(e2, s.after_backspace()));
        },
        KeyCode::Esc => {
            assert(mode_fits(e2, s.after_escape()));
        },
        _ => {},
    }
}

/// Switching vim key bindings twice changes nothing.
pub proof fn law_toggle_twice(e: EditorView)
    ensures
        e.toggled().toggled() == e,
{
}

/// While a command is typed, no key touches the input behind it.
#[verifier::rlimit(60)]
pub proof fn law_commands_keep_the_input(e: EditorView, s: SessionView, key: KeyEvent)
    requires
        s.mode == EditorMode::Command,
    ensures
        after_key(e, s, key).1.text == s.text,
        after_key(e, s, key).1.cursor == s.cursor,
{
}

/// Control and C asks to cancel where there is input and to exit where there is none, and touches
/// nothing of the session.
#[verifier::rlimit(60)]
pub proof fn law_interrupt(e: EditorView, s: SessionView, key: KeyEvent)
    requires
        is_control_letter(key, 'c', 'C'),
    ensures
        after_key(e, s, key).1 == s,
        after_key(e, s, key).2 == ActionView::Cancel <==> s.active_text().len() > 0,
        after_key(e, s, key).2 == ActionView::Exit <==> s.active_text().len() == 0,
{
}

/// Control and D asks to exit exactly where there is no input.
#[verifier::rlimit(60)]
pub proof fn law_end_of_input(e: EditorView, s: SessionView, key: KeyEvent)
    requires
        is_control_letter(key, 'd', 'D'),
    ensures
        after_key(e, s, key).2 == ActionView::Exit <==> s.active_text().len() == 0,
        after_key(e, s, key).2 == ActionView::Continue <==> s.active_text().len() > 0,
{
}

/// The enter key alone submits, and what it submits is the whole active text, unless that is the
/// command that switches vim key bindings.
#[verifier::rlimit(60)]
pub proof fn law_submit(e: EditorView, s: SessionView, key: KeyEvent)
    ensures
        after_key(e, s, key).2 is Submit ==> {
            &&& key.code == KeyCode::Enter
            &&& after_key(e, s, key).2->Submit_0 == s.active_text()
            &&& !is_toggle(s.active_text())
            &&& after_key(e, s, key).1 == s
        },
        key.code == KeyCode::Enter && !key.shift() ==> after_key(e, s, key).2 == submit_action(
            s.active_text(),
        ),
{
}

/// Moving right and then left comes back, unless the cursor stood at the end.
pub proof fn law_right_then_left(s: SessionView)
    requires
        s.valid(),
        s.active_cursor() < s.active_text().len(),
    ensures
        s.moved_right().moved_left() == s,
{
}

/// Moving left and then right comes back, unless there was no place further left.
pub proof fn law_left_then_right(s: SessionView)
    requires
        s.valid(),
        s.moved_left() != s,
    ensures
        s.moved_left().moved_right() == s,
{
}

/// In the modes that take text, backspace undoes a typed character.
pub proof fn law_backspace_undoes_typing(e: EditorView, s: SessionView, ch: char)
    requires
        s.valid(),
        s.mode != EditorMode::Normal,
        s.mode != EditorMode::Visual,
    ensures
        after_char(e, s, ch).1.after_backspace() == s,
{
    let t = s.active_text();
    let k = s.active_cursor();
    let typed = inserted(t, k, seq![ch]);
    assert(removed(typed, k, k + 1) =~= t);
}

/// Inserting a deleted character again and moving left undoes the deletion.
pub proof fn law_typing_undoes_deletion(s: SessionView)
    requires
        s.valid(),
        s.active_cursor() < s.active_text().len(),
    ensures
        s.with_char_deleted().with_insertion(seq![s.active_text()[s.active_cursor()]]).moved_left()
            == s,
{
    let t = s.active_text();
    let k = s.active_cursor();
    assert(inserted(removed(t, k, k + 1), k, seq![t[k]]) =~= t);
}

/// Escape leads to normal mode from every vim mode, leaves plain mode alone, and does nothing
/// more the second time.
pub proof fn law_escape(s: SessionView)
    ensures
        s.mode != EditorMode::Plain ==> s.after_escape().mode == EditorMode::Normal,
        s.mode == EditorMode::Plain ==> s.after_escape() == s,
        s.after_escape().after_escape() == s.after_escape(),
        s.after_escape().text == s.text,
{
}

/// From normal mode, a command that is left again and a selection that is left again change
/// nothing.
pub proof fn law_modes_come_back(e: EditorView, s: SessionView)
    requires
        s.mode == EditorMode::Normal,
        s.pending_operator is None,
        s.visual_anchor is None,
        s.command_buffer.len() == 0,
        s.command_cursor == 0,
    ensures
        after_char(e, s, ':').1.after_escape() == s,
        after_char(e, s, ':').1.after_backspace() == s,
        after_char(e, s, 'v').1.after_escape() == s,
        after_char(e, after_char(e, s, 'v').1, 'v').1 == s,
{
    assert(s.command_buffer =~= Seq::<char>::empty());
}

/// The motions change nothing but the cursor.
pub proof fn law_motions_keep_the_text(s: SessionView, delta: int)
    ensures
        s.moved_left() == s.with_active(s.active_text(), s.moved_left().active_cursor()),
        s.moved_right() == s.with_active(s.active_text(), s.moved_right().active_cursor()),
        s.moved_to_line_start() == s.with_active(
            s.active_text(),
            s.moved_to_line_start().active_cursor(),
        ),
        s.moved_to_line_end() == s.with_active(
            s.active_text(),
            s.moved_to_line_end().active_cursor(),
        ),
        s.moved_vertically(delta) == s.with_active(
            s.active_text(),
            s.moved_vertically(delta).active_cursor(),
        ),
{
}

/// Going to the start or to the end of the line a second time changes nothing.
pub proof fn law_line_ends_stay(s: SessionView)
    requires
        s.valid(),
    ensures
        s.moved_to_line_start().moved_to_line_start() == s.moved_to_line_start(),
        s.moved_to_line_end().moved_to_line_end() == s.moved_to_line_end(),
        s.moved_to_line_start().moved_to_line_end() == s.moved_to_line_end(),
        s.moved_to_line_end().moved_to_line_start() == s.moved_to_line_start(),
{
    lemma_line_start(s.text, s.cursor);
    lemma_line_end(s.text, s.cursor);
    let start = line_start_index(s.text, s.cursor);
    let end = line_end_index(s.text, s.cursor);
    lemma_line_start(s.text, start);
    lemma_line_end(s.text, end);
    lemma_same_line(s.text, start, end);
}

/// The editor and the session after a sequence of keys.
pub open spec fn after_keys(e: EditorView, s: SessionView, keys: Seq<KeyEvent>) -> (
    EditorView,
    SessionView,
)
    decreases keys.len(),
{
    if keys.len() == 0 {
        (e, s)
    } else {
        let (e2, s2) = after_keys(e, s, keys.drop_last());
        let after = after_key(e2, s2, keys.last());
        (after.0, after.1)
    }
}

/// Whatever keys are pressed in a new session, it stays valid, at an entry of the history that
/// exists, if at any, and out of plain mode exactly with vim key bindings on; a selection has
/// started exactly in visual mode, and an operator waits at most in normal mode; and the editor
/// keeps its settings.
#[verifier::rlimit(60)]
pub proof fn law_every_session_stays_valid(e: EditorView, keys: Seq<KeyEvent>)
    requires
        e.history.len() <= usize::MAX,
    ensures
        ({
            let (e2, s2) = after_keys(e, SessionView::fresh(e.vim_enabled), keys);
            &&& s2.valid()
            &&& history_known(e2, s2)
            &&& s2.mode == EditorMode::Plain <==> !e.vim_enabled
            &&& s2.visual_anchor is Some <==> s2.mode == EditorMode::Visual
            &&& s2.pending_operator is Some ==> s2.mode == EditorMode::Normal
            &&& e2.history == e.history
            &&& e2.completions == e.completions
            &&& e2.prompt == e.prompt
            &&& e2.vim_enabled == e.vim_enabled
        }),
    decreases keys.len(),
{
    let fresh = SessionView::fresh(e.vim_enabled);
    if keys.len() > 0 {
        law_every_session_stays_valid(e, keys.drop_last());
        let (e2, s2) = after_keys(e, fresh, keys.drop_last());
        let key = keys.last();
        law_keys_keep_sessions_valid(e2, s2, key);
        law_keys_keep_history_known(e2, s2, key);
        law_keys_keep_settings(e2, s2, key);
        law_keys_keep_the_mode_fit(e2, s2, key);
    }
}

/// Whether no entry of the history is blank.
pub open spec fn no_blank_entries(e: EditorView) -> bool {
    forall|i: int| 0 <= i < e.history.len() ==> !is_blank(#[trigger] e.history[i])
}

/// The history holds no blank entries, and keeps what it holds in order.
pub proof fn law_history_has_no_blank_entries(e: EditorView, entry: Seq<char>)
    requires
        no_blank_entries(e),
    ensures
        no_blank_entries(e.with_history_entry(entry)),
        e.history.is_prefix_of(e.with_history_entry(entry).history),
        !is_blank(entry) ==> e.with_history_entry(entry).history.last() == entry,
{
    let after = e.with_history_entry(entry).history;
    assert(after.subrange(0, e.history.len() as int) =~= e.history);
}

/// White space around `/vim` does not keep it from switching vim key bindings.
pub proof fn law_toggle_ignores_surrounding_space(before: Seq<char>, after: Seq<char>)
    requires
        is_blank(before),
        is_blank(after),
    ensures
        is_toggle(before + "/vim"@ + after),
{
    reveal_strlit("/vim");
    let line = before + "/vim"@ + after;
    let n = before.len() as int;
    assert(line.take(n) =~= before);
    assert(line[n] == "/vim"@[0]);
    lemma_trim_start(line, n);
    let rest = line.skip(n);
    assert(rest.skip(4) =~= after);
    assert(rest[3] == "/vim"@[3]);
    lemma_trim_end(rest, 4);
    assert(rest.take(4) =~= "/vim"@);
}

/// A line that is read without a terminal is treated as the same line submitted by the enter key:
/// either it is submitted, or vim key bindings are switched.
pub proof fn law_fallback_agrees_with_enter(e: EditorView, line: Seq<char>, bytes_read: int)
    requires
        line.len() > 0 ==> !is_line_break(line.last()),
        bytes_read > 0,
    ensures
        ({
            let (e2, step) = after_fallback(e, bytes_read, line.push('\n'));
            match submit_action(line) {
                ActionView::Submit(submitted) => e2 == e && step == FallbackView::Finish(
                    OutcomeView::Submit(submitted),
                ),
                ActionView::ToggleVim => e2 == e.toggled() && step is Toggled,
                _ => false,
            }
        }),
{
    let read = line.push('\n');
    lemma_without_line_breaks(read, line.len() as int);
    assert(read.take(line.len() as int) =~= line);
}

} // verus!
