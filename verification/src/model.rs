//! What each key does, over the models of the editor and of the session.

use vstd::prelude::*;
use crate::completion::{is_slash_word, matches_of};
use crate::keys::{KeyCode, KeyEvent};
use crate::lines::{
    line_after_index, line_delete_index, line_end_index, line_start_index, vertical_index,
};
use crate::session::{EditorMode, SessionView};
use crate::text::{inserted, removed};
use crate::words::{is_blank, trimmed};

verus! {

/// The model of a completion in progress.
#[verifier::ext_equal]
pub struct CompletionView {
    pub prefix: Seq<char>,
    pub matches: Seq<Seq<char>>,
    pub next_index: int,
}

/// The model of the editor.
#[verifier::ext_equal]
pub struct EditorView {
    pub prompt: Seq<char>,
    pub completions: Seq<Seq<char>>,
    pub history: Seq<Seq<char>>,
    pub yank_text: Seq<char>,
    pub yank_linewise: bool,
    pub vim_enabled: bool,
    pub completion: Option<CompletionView>,
}

/// The model of what a key asks for.
#[verifier::ext_equal]
pub enum ActionView {
    Continue,
    Submit(Seq<char>),
    Cancel,
    Exit,
    ToggleVim,
}

/// The editor, the session and what was asked for, after a key.
pub type Outcome = (EditorView, SessionView, ActionView);

/// Whether a submitted line is the command that switches vim key bindings on and off.
pub open spec fn is_toggle(line: Seq<char>) -> bool {
    trimmed(line) == "/vim"@
}

impl EditorView {
    /// `self` with an entry added to the history; a blank one is not.
    pub open spec fn with_history_entry(self, entry: Seq<char>) -> EditorView {
        if is_blank(entry) {
            self
        } else {
            EditorView { history: self.history.push(entry), ..self }
        }
    }

    /// `self` with no completion in progress.
    pub open spec fn without_completion(self) -> EditorView {
        EditorView { completion: None, ..self }
    }

    /// `self` with a line yanked.
    pub open spec fn with_line_yanked(self, line: Seq<char>) -> EditorView {
        EditorView { yank_text: line, yank_linewise: true, ..self }
    }

    /// `self` with vim key bindings switched.
    pub open spec fn toggled(self) -> EditorView {
        EditorView { vim_enabled: !self.vim_enabled, ..self }
    }
}

impl SessionView {
    /// `self` with `insertion` typed at the cursor.
    pub open spec fn with_insertion(self, insertion: Seq<char>) -> SessionView {
        self.with_active(
            inserted(self.active_text(), self.active_cursor(), insertion),
            self.active_cursor() + insertion.len(),
        )
    }

    /// `self` with the cursor one character further left.  In command mode it stays behind the
    /// colon.
    pub open spec fn moved_left(self) -> SessionView {
        let first: int = if self.mode == EditorMode::Command {
            1
        } else {
            0
        };
        self.with_active(
            self.active_text(),
            if self.active_cursor() > first {
                self.active_cursor() - 1
            } else {
                first
            },
        )
    }

    /// `self` with the cursor one character further right.
    pub open spec fn moved_right(self) -> SessionView {
        self.with_active(
            self.active_text(),
            if self.active_cursor() < self.active_text().len() {
                self.active_cursor() + 1
            } else {
                self.active_text().len() as int
            },
        )
    }

    /// `self` with the cursor at the start of its line, or of the command behind its colon.
    pub open spec fn moved_to_line_start(self) -> SessionView {
        if self.mode == EditorMode::Command {
            SessionView { command_cursor: 1, ..self }
        } else {
            SessionView { cursor: line_start_index(self.text, self.cursor), ..self }
        }
    }

    /// `self` with the cursor at the end of its line, or of the command.
    pub open spec fn moved_to_line_end(self) -> SessionView {
        if self.mode == EditorMode::Command {
            SessionView { command_cursor: self.command_buffer.len() as int, ..self }
        } else {
            SessionView { cursor: line_end_index(self.text, self.cursor), ..self }
        }
    }

    /// `self` with the cursor `delta` lines further down.  A command has no lines.
    pub open spec fn moved_vertically(self, delta: int) -> SessionView {
        if self.mode == EditorMode::Command {
            self
        } else {
            SessionView { cursor: vertical_index(self.text, self.cursor, delta), ..self }
        }
    }

    /// `self` without the character at the cursor.
    pub open spec fn with_char_deleted(self) -> SessionView {
        let k = self.active_cursor();
        if k < self.active_text().len() {
            self.with_active(removed(self.active_text(), k, k + 1), k)
        } else {
            self
        }
    }

    /// `self` without the character in front of the cursor.
    pub open spec fn with_previous_deleted(self) -> SessionView {
        let k = self.active_cursor();
        if k > 0 {
            self.with_active(removed(self.active_text(), k - 1, k), k - 1)
        } else {
            self
        }
    }

    /// `self` after the backspace key.
    pub open spec fn after_backspace(self) -> SessionView {
        match self.mode {
            EditorMode::Normal | EditorMode::Visual => self.moved_left(),
            EditorMode::Command => if self.command_cursor <= 1 {
                self.out_of_command_mode()
            } else {
                self.with_previous_deleted()
            },
            EditorMode::Plain | EditorMode::Insert => self.with_previous_deleted(),
        }
    }

    /// `self` after the escape key.
    pub open spec fn after_escape(self) -> SessionView {
        match self.mode {
            EditorMode::Plain | EditorMode::Normal => self,
            EditorMode::Insert => self.moved_left().in_mode(EditorMode::Normal),
            EditorMode::Visual => self.in_mode(EditorMode::Normal),
            EditorMode::Command => self.out_of_command_mode(),
        }
    }

    /// The line of the cursor, with its newline if it has one.
    pub open spec fn current_line(self) -> Seq<char> {
        self.text.subrange(
            line_start_index(self.text, self.cursor),
            line_after_index(self.text, self.cursor),
        )
    }

    /// `self` without the line of the cursor.
    pub open spec fn with_line_deleted(self) -> SessionView {
        let from = line_delete_index(self.text, self.cursor);
        SessionView {
            text: removed(self.text, from, line_after_index(self.text, self.cursor)),
            cursor: from,
            ..self
        }
    }

    /// `self` with a line pasted below that of the cursor, and the cursor at its start.
    pub open spec fn with_line_pasted(self, line: Seq<char>) -> SessionView {
        let at = line_after_index(self.text, self.cursor);
        let insertion = pasted_line(self.text, at, line);
        SessionView {
            text: inserted(self.text, at, insertion),
            cursor: if insertion.len() > 0 && insertion[0] == '\n' {
                at + 1
            } else {
                at
            },
            ..self
        }
    }

    /// `self` with a text pasted behind the character at the cursor, and the cursor behind it.
    pub open spec fn with_text_pasted(self, pasted: Seq<char>) -> SessionView {
        let at = if self.cursor < self.text.len() {
            self.cursor + 1
        } else {
            self.text.len() as int
        };
        SessionView {
            text: inserted(self.text, at, pasted),
            cursor: at + pasted.len(),
            ..self
        }
    }

    /// `self` with its text replaced by a completion, and the cursor behind it.
    pub open spec fn with_completion(self, candidate: Seq<char>) -> SessionView {
        SessionView {
            text: candidate + self.text.skip(self.cursor),
            cursor: candidate.len() as int,
            ..self
        }
    }

    /// `self` with the line break of the control and shift keys typed, in the modes that take
    /// text.
    pub open spec fn with_newline_typed(self) -> SessionView {
        if self.mode == EditorMode::Normal || self.mode == EditorMode::Visual {
            self
        } else {
            self.with_insertion("\n"@)
        }
    }
}

/// What is inserted into `text` at the index `at` to paste `line` there as a line of its own:
/// behind a last line without newline it takes a newline in front, and in front of other lines it
/// ends with one.
pub open spec fn pasted_line(text: Seq<char>, at: int, line: Seq<char>) -> Seq<char> {
    if at < text.len() {
        if line.len() > 0 && line.last() == '\n' {
            line
        } else {
            line.push('\n')
        }
    } else if text.len() > 0 && text.last() != '\n' {
        seq!['\n'] + line
    } else {
        line
    }
}

/// After `p`: what was yanked is pasted.
pub open spec fn after_paste(e: EditorView, s: SessionView) -> SessionView {
    if e.yank_text.len() == 0 {
        s
    } else if e.yank_linewise {
        s.with_line_pasted(e.yank_text)
    } else {
        s.with_text_pasted(e.yank_text)
    }
}

/// After a character typed in normal mode.
pub open spec fn after_normal_char(e: EditorView, s: SessionView, ch: char) -> (
    EditorView,
    SessionView,
) {
    let ready = SessionView { pending_operator: None, ..s };
    if s.pending_operator == Some('d') && ch == 'd' {
        (e.with_line_yanked(ready.current_line()), ready.with_line_deleted())
    } else if s.pending_operator == Some('y') && ch == 'y' {
        (e.with_line_yanked(ready.current_line()), ready)
    } else if ch == 'h' {
        (e, ready.moved_left())
    } else if ch == 'j' {
        (e, ready.moved_vertically(1))
    } else if ch == 'k' {
        (e, ready.moved_vertically(-1))
    } else if ch == 'l' {
        (e, ready.moved_right())
    } else if ch == 'd' || ch == 'y' {
        (e, SessionView { pending_operator: Some(ch), ..s })
    } else if ch == 'p' {
        (e, after_paste(e, ready))
    } else if ch == 'i' {
        (e, ready.in_mode(EditorMode::Insert))
    } else if ch == 'v' {
        (e, ready.in_visual_mode())
    } else if ch == ':' {
        (e, ready.in_command_mode())
    } else {
        (e, ready)
    }
}

/// After a character typed in visual mode.
pub open spec fn after_visual_char(s: SessionView, ch: char) -> SessionView {
    if ch == 'h' {
        s.moved_left()
    } else if ch == 'j' {
        s.moved_vertically(1)
    } else if ch == 'k' {
        s.moved_vertically(-1)
    } else if ch == 'l' {
        s.moved_right()
    } else if ch == 'v' {
        s.in_mode(EditorMode::Normal)
    } else {
        s
    }
}

/// After a character typed in any mode.
pub open spec fn after_char(e: EditorView, s: SessionView, ch: char) -> (EditorView, SessionView) {
    match s.mode {
        EditorMode::Normal => after_normal_char(e, s, ch),
        EditorMode::Visual => (e, after_visual_char(s, ch)),
        _ => (e, s.with_insertion(seq![ch])),
    }
}

/// The completion in progress, if the text is one of its matches and the cursor stands behind it.
pub open spec fn resumes_cycle(e: EditorView, s: SessionView) -> bool {
    &&& e.completion is Some
    &&& s.cursor == s.text.len()
    &&& e.completion->0.matches.contains(s.text)
}

/// The editor with its completion moved on, and the candidate that it stood at.
pub open spec fn next_candidate(e: EditorView) -> (EditorView, Seq<char>) {
    let state = e.completion->0;
    (
        EditorView {
            completion: Some(CompletionView { next_index: state.next_index + 1, ..state }),
            ..e
        },
        state.matches[state.next_index % state.matches.len() as int],
    )
}

/// Whether the text is the start of a slash command with the cursor behind it, and some
/// completion matches it.
pub open spec fn starts_cycle(e: EditorView, s: SessionView) -> bool {
    &&& s.cursor == s.text.len()
    &&& is_slash_word(s.text)
    &&& matches_of(e.completions, s.text).len() > 0
}

/// The editor at the start of a completion of `prefix`, with the first candidate taken.
pub open spec fn first_candidate(e: EditorView, prefix: Seq<char>) -> (EditorView, Seq<char>) {
    let matches = matches_of(e.completions, prefix);
    (
        EditorView { completion: Some(CompletionView { prefix, matches, next_index: 1 }), ..e },
        matches[0],
    )
}

/// Whether the completion in progress is the one that would start anew.
pub open spec fn repeats_cycle(e: EditorView, s: SessionView) -> bool {
    &&& starts_cycle(e, s)
    &&& e.completion is Some
    &&& e.completion->0.prefix == s.text
    &&& e.completion->0.matches == matches_of(e.completions, s.text)
}

/// After the tab key: the completion in progress moves on, or else one starts, where the text is
/// the start of a slash command.
pub open spec fn after_tab(e: EditorView, s: SessionView) -> (EditorView, SessionView) {
    if s.mode == EditorMode::Command {
        (e.without_completion(), s)
    } else if resumes_cycle(e, s) || repeats_cycle(e, s) {
        let (e2, candidate) = next_candidate(e);
        (e2, s.with_completion(candidate))
    } else if starts_cycle(e, s) {
        let (e2, candidate) = first_candidate(e, s.text);
        (e2, s.with_completion(candidate))
    } else {
        (e.without_completion(), s)
    }
}

/// After the up key: an older entry of the history.  The first one keeps the text for later.
pub open spec fn after_up(e: EditorView, s: SessionView) -> SessionView {
    if s.mode == EditorMode::Command || e.history.len() == 0 {
        s
    } else {
        match s.history_index {
            Some(index) => {
                let next = (if index > 0 {
                    index - 1
                } else {
                    0
                }) as usize;
                SessionView { history_index: Some(next), ..s }.with_history_text(
                    e.history[next as int],
                )
            },
            None => {
                let next = (e.history.len() - 1) as usize;
                SessionView {
                    history_index: Some(next),
                    history_backup: Some(s.text),
                    ..s
                }.with_history_text(e.history[next as int])
            },
        }
    }
}

/// After the down key: a newer entry of the history, and after the last the text that was kept.
pub open spec fn after_down(e: EditorView, s: SessionView) -> SessionView {
    if s.mode == EditorMode::Command {
        s
    } else {
        match s.history_index {
            None => s,
            Some(index) => if index + 1 < e.history.len() {
                SessionView { history_index: Some((index + 1) as usize), ..s }.with_history_text(
                    e.history[index + 1],
                )
            } else {
                let restored = match s.history_backup {
                    Some(backup) => backup,
                    None => Seq::empty(),
                };
                SessionView { history_index: None, history_backup: None, ..s }.with_history_text(
                    restored,
                ).in_mode(
                    if e.vim_enabled {
                        EditorMode::Insert
                    } else {
                        EditorMode::Plain
                    },
                )
            },
        }
    }
}

/// What submitting `line` asks for.
pub open spec fn submit_action(line: Seq<char>) -> ActionView {
    if is_toggle(line) {
        ActionView::ToggleVim
    } else {
        ActionView::Submit(line)
    }
}

/// Whether the key is the letter, in either case, with the control key held.
pub open spec fn is_control_letter(key: KeyEvent, lower: char, upper: char) -> bool {
    key.control() && (key.code == KeyCode::Char(lower) || key.code == KeyCode::Char(upper))
}

/// After a key.
pub open spec fn after_key(e: EditorView, s: SessionView, key: KeyEvent) -> Outcome {
    let e = if key.code == KeyCode::Tab {
        e
    } else {
        e.without_completion()
    };
    if is_control_letter(key, 'c', 'C') {
        (
            e,
            s,
            if s.active_text().len() > 0 {
                ActionView::Cancel
            } else {
                ActionView::Exit
            },
        )
    } else if is_control_letter(key, 'j', 'J') {
        (e, s.with_newline_typed(), ActionView::Continue)
    } else if is_control_letter(key, 'd', 'D') {
        if s.active_text().len() == 0 {
            (e, s, ActionView::Exit)
        } else {
            (e, s.with_char_deleted(), ActionView::Continue)
        }
    } else {
        match key.code {
            KeyCode::Enter => if key.shift() {
                (e, s.with_newline_typed(), ActionView::Continue)
            } else {
                (e, s, submit_action(s.active_text()))
            },
            KeyCode::Esc => (e, s.after_escape(), ActionView::Continue),
            KeyCode::Backspace => (e, s.after_backspace(), ActionView::Continue),
            KeyCode::Delete => (e, s.with_char_deleted(), ActionView::Continue),
            KeyCode::Left => (e, s.moved_left(), ActionView::Continue),
            KeyCode::Right => (e, s.moved_right(), ActionView::Continue),
            KeyCode::Up => (e, after_up(e, s), ActionView::Continue),
            KeyCode::Down => (e, after_down(e, s), ActionView::Continue),
            KeyCode::Home => (e, s.moved_to_line_start(), ActionView::Continue),
            KeyCode::End => (e, s.moved_to_line_end(), ActionView::Continue),
            KeyCode::Tab => {
                let (e2, s2) = after_tab(e, s);
                (e2, s2, ActionView::Continue)
            },
            KeyCode::Char(ch) => {
                let (e2, s2) = after_char(e, s, ch);
                (e2, s2, ActionView::Continue)
            },
            KeyCode::Other => (e, s, ActionView::Continue),
        }
    }
}

/// Whether the up key finds an entry to show.
pub open spec fn up_fits(e: EditorView, s: SessionView) -> bool {
    s.mode != EditorMode::Command && e.history.len() > 0 ==> match s.history_index {
        Some(index) => index <= e.history.len(),
        None => true,
    }
}

/// Whether the down key can count on.
pub open spec fn down_fits(s: SessionView) -> bool {
    s.mode != EditorMode::Command ==> match s.history_index {
        Some(index) => index < usize::MAX,
        None => true,
    }
}

/// Whether the tab key can count on.
pub open spec fn tab_fits(e: EditorView, s: SessionView) -> bool {
    s.mode != EditorMode::Command && (resumes_cycle(e, s) || repeats_cycle(e, s))
        ==> e.completion->0.next_index < usize::MAX
}

/// Whether the key finds what it needs: an entry of the history, or a counter that can go on.
pub open spec fn key_fits(e: EditorView, s: SessionView, key: KeyEvent) -> bool {
    match key.code {
        KeyCode::Up => up_fits(e, s),
        KeyCode::Down => down_fits(s),
        KeyCode::Tab => tab_fits(e, s),
        _ => true,
    }
}

/// Whether the entry of the history that the session shows exists.
pub open spec fn history_known(e: EditorView, s: SessionView) -> bool {
    s.history_index matches Some(index) ==> index < e.history.len()
}

/// How often the completion in progress was taken; none where there is none.
pub open spec fn completion_count(e: EditorView) -> int {
    match e.completion {
        Some(state) => state.next_index,
        None => 0,
    }
}

/// Whether mode, selection and operator fit each other: the mode is plain exactly with vim key
/// bindings off, a selection has started exactly in visual mode, and an operator waits at most in
/// normal mode.
pub open spec fn mode_fits(e: EditorView, s: SessionView) -> bool {
    &&& s.mode == EditorMode::Plain <==> !e.vim_enabled
    &&& s.visual_anchor is Some <==> s.mode == EditorMode::Visual
    &&& s.pending_operator is Some ==> s.mode == EditorMode::Normal
}

} // verus!
