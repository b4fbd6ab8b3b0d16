//! The line editor.

use vstd::prelude::*;
use vstd::string::StringExecFns;
use crate::completion::{contains_text, matching_commands, same_texts, slash_command_prefix, texts};
use crate::keys::{KeyCode, KeyEvent};
use crate::laws::{law_keys_keep_history_known, law_keys_keep_the_mode_fit};
use crate::lines::{
    current_line_delete_range, lemma_line_end, lemma_line_start, lemma_newline_width,
    lemma_vertical_index, line_after_index, line_delete_index, line_end, line_end_index,
    line_start, line_start_index, move_vertical, vertical_index,
};
use crate::model::{
    after_char, after_down, after_key, after_normal_char, after_paste, after_tab, after_up,
    after_visual_char, down_fits, history_known, is_toggle, key_fits, mode_fits, pasted_line,
    repeats_cycle, resumes_cycle, submit_action, tab_fits, up_fits, ActionView, CompletionView,
    EditorView,
};
use crate::session::{EditSession, EditorMode};
use crate::text::{
    at_boundary, byte_len, byte_offset, char_index, insert_text, lemma_boundary,
    lemma_index_of_offset, lemma_offset_ends, lemma_offset_monotone, lemma_offset_step,
    lemma_splice, next_boundary, next_position, previous_boundary, previous_command_boundary,
    previous_position, remove_previous_char, remove_range, removed, replace_text, slice_text,
    text_len,
};
use crate::words::{lemma_blank_trimmed, same_text, trim};

verus! {

/// How reading a line ended.
#[derive(Debug, Clone, PartialEq, Eq)]
pub enum ReadOutcome {
    Submit(String),
    Cancel,
    Exit,
}

/// What a key asks for.
#[derive(Debug, PartialEq, Eq)]
pub enum KeyAction {
    Continue,
    Submit(String),
    Cancel,
    Exit,
    ToggleVim,
}

impl View for KeyAction {
    type V = ActionView;

    open spec fn view(&self) -> ActionView {
        match self {
            KeyAction::Continue => ActionView::Continue,
            KeyAction::Submit(line) => ActionView::Submit(line@),
            KeyAction::Cancel => ActionView::Cancel,
            KeyAction::Exit => ActionView::Exit,
            KeyAction::ToggleVim => ActionView::ToggleVim,
        }
    }
}

/// What a submitted line is.
#[derive(Debug, Clone, Copy, PartialEq, Eq, Structural)]
pub enum Submission {
    Submit,
    ToggleVim,
}

/// What was yanked, and whether it is a line.
#[derive(Debug, Clone, PartialEq, Eq)]
pub struct YankBuffer {
    pub text: String,
    pub linewise: bool,
}

impl Default for YankBuffer {
    fn default() -> (buffer: YankBuffer)
        ensures
            buffer.text@ == Seq::<char>::empty(),
            !buffer.linewise,
    {
        YankBuffer { text: String::new(), linewise: false }
    }
}

/// A completion in progress.
#[derive(Debug, Clone, PartialEq, Eq)]
pub struct CompletionState {
    pub prefix: String,
    pub matches: Vec<String>,
    pub next_index: usize,
}

impl View for CompletionState {
    type V = CompletionView;

    open spec fn view(&self) -> CompletionView {
        CompletionView {
            prefix: self.prefix@,
            matches: texts(self.matches@),
            next_index: self.next_index as int,
        }
    }
}

/// The line editor: what is kept from one line of input to the next.
pub struct LineEditor {
    pub prompt: String,
    pub completions: Vec<String>,
    pub history: Vec<String>,
    pub yank_buffer: YankBuffer,
    pub vim_enabled: bool,
    pub completion_state: Option<CompletionState>,
}

impl View for LineEditor {
    type V = EditorView;

    open spec fn view(&self) -> EditorView {
        EditorView {
            prompt: self.prompt@,
            completions: texts(self.completions@),
            history: texts(self.history@),
            yank_text: self.yank_buffer.text@,
            yank_linewise: self.yank_buffer.linewise,
            vim_enabled: self.vim_enabled,
            completion: match self.completion_state {
                Some(state) => Some(state@),
                None => None,
            },
        }
    }
}

impl LineEditor {
    /// An editor with no history, vim key bindings off, and the given slash commands to complete.
    #[must_use]
    pub fn new<P: Into<String>>(prompt: P, completions: Vec<String>) -> (editor: LineEditor)
        ensures
            call_ensures(P::into, (prompt,), editor.prompt),
            editor@ == (EditorView {
                prompt: editor.prompt@,
                completions: texts(completions@),
                history: Seq::empty(),
                yank_text: Seq::empty(),
                yank_linewise: false,
                vim_enabled: false,
                completion: None,
            }),
    {
        let editor = LineEditor {
            prompt: prompt.into(),
            completions,
            history: Vec::new(),
            yank_buffer: YankBuffer::default(),
            vim_enabled: false,
            completion_state: None,
        };
        assert(texts(editor.history@) =~= Seq::empty());
        editor
    }

    /// Adds an entry to the history, unless it is blank.
    pub fn push_history<E: Into<String>>(&mut self, entry: E)
        ensures
            exists|text: String|
                call_ensures(E::into, (entry,), text) && final(self)@ == old(
                    self,
                )@.with_history_entry(#[trigger] text@),
    {
        let text: String = entry.into();
        self.record(text);
    }

    /// Adds a text to the history, unless it is blank.
    pub fn record(&mut self, text: String)
        ensures
            final(self)@ == old(self)@.with_history_entry(text@),
    {
        proof {
            lemma_blank_trimmed(text@);
        }
        if trim(text.as_str()).is_empty() {
            return;
        }
        self.history.push(text);
        assert(self@.history =~= old(self)@.history.push(text@));
    }

    /// What a submitted line is: the line `/vim` switches vim key bindings, any other is input.
    pub fn handle_submission(&mut self, line: &str) -> (submission: Submission)
        ensures
            submission == (if is_toggle(line@) {
                Submission::ToggleVim
            } else {
                Submission::Submit
            }),
            *final(self) == *old(self),
    {
        if same_text(trim(line), "/vim") {
            Submission::ToggleVim
        } else {
            Submission::Submit
        }
    }

    /// Submits the active text.
    pub fn submit_or_toggle(&mut self, session: &EditSession) -> (action: KeyAction)
        ensures
            action@ == submit_action(session@.active_text()),
            *final(self) == *old(self),
    {
        let line = session.current_line();
        match self.handle_submission(line.as_str()) {
            Submission::Submit => KeyAction::Submit(line),
            Submission::ToggleVim => KeyAction::ToggleVim,
        }
    }

    /// Types a character at the cursor.
    pub fn insert_active_char(&mut self, session: &mut EditSession, ch: char)
        requires
            old(session).wf(),
        ensures
            *final(self) == *old(self),
            final(session).wf(),
            final(session)@ == old(session)@.with_insertion(seq![ch]),
    {
        let mut buffer = String::new();
        buffer.push(ch);
        assert(buffer@ =~= seq![ch]);
        self.insert_active_text(session, buffer.as_str());
    }

    /// Types a text at the cursor.
    pub fn insert_active_text(&mut self, session: &mut EditSession, text: &str)
        requires
            old(session).wf(),
        ensures
            *final(self) == *old(self),
            final(session).wf(),
            final(session)@ == old(session)@.with_insertion(text@),
    {
        if session.mode == EditorMode::Command {
            proof {
                lemma_command_cursor(*session);
            }
            insert_text(&mut session.command_buffer, &mut session.command_cursor, text);
        } else {
            insert_text(&mut session.text, &mut session.cursor, text);
        }
    }

    /// Moves the cursor left by one character.
    pub fn move_left(&self, session: &mut EditSession)
        requires
            old(session).wf(),
        ensures
            final(session).wf(),
            final(session)@ == old(session)@.moved_left(),
    {
        if session.mode == EditorMode::Command {
            let ghost s: Seq<char> = session.command_buffer@;
            let ghost k: int = session@.command_cursor;
            proof {
                lemma_command_cursor(*session);
                lemma_boundary(s, session.command_cursor as int);
                lemma_offset_ends(s);
                lemma_index_of_offset(s, k - 1);
                lemma_index_of_offset(s, 1);
                lemma_offset_monotone(s, 0, k - 1);
            }
            session.command_cursor = previous_command_boundary(
                session.command_buffer.as_str(),
                session.command_cursor,
            );
        } else {
            proof {
                lemma_previous_index(session.text@, session.cursor as int);
            }
            session.cursor = previous_boundary(session.text.as_str(), session.cursor);
        }
    }

    /// Moves the cursor right by one character.
    pub fn move_right(&self, session: &mut EditSession)
        requires
            old(session).wf(),
        ensures
            final(session).wf(),
            final(session)@ == old(session)@.moved_right(),
    {
        if session.mode == EditorMode::Command {
            proof {
                lemma_next_index(session.command_buffer@, session.command_cursor as int);
            }
            session.command_cursor = next_boundary(
                session.command_buffer.as_str(),
                session.command_cursor,
            );
        } else {
            proof {
                lemma_next_index(session.text@, session.cursor as int);
            }
            session.cursor = next_boundary(session.text.as_str(), session.cursor);
        }
    }

    /// Moves the cursor to the start of its line.
    pub fn move_line_start(&self, session: &mut EditSession)
        requires
            old(session).wf(),
        ensures
            final(session).wf(),
            final(session)@ == old(session)@.moved_to_line_start(),
    {
        if session.mode == EditorMode::Command {
            proof {
                lemma_command_cursor(*session);
                lemma_index_of_offset(session.command_buffer@, 1);
            }
            session.command_cursor = 1;
        } else {
            proof {
                let s = session.text@;
                lemma_boundary(s, session.cursor as int);
                lemma_line_start(s, session@.cursor);
                lemma_index_of_offset(s, line_start_index(s, session@.cursor));
            }
            session.cursor = line_start(session.text.as_str(), session.cursor);
        }
    }

    /// Moves the cursor to the end of its line.
    pub fn move_line_end(&self, session: &mut EditSession)
        requires
            old(session).wf(),
        ensures
            final(session).wf(),
            final(session)@ == old(session)@.moved_to_line_end(),
    {
        if session.mode == EditorMode::Command {
            proof {
                let s = session.command_buffer@;
                lemma_offset_ends(s);
                lemma_index_of_offset(s, s.len() as int);
                lemma_offset_monotone(s, 0, s.len() as int);
            }
            session.command_cursor = text_len(session.command_buffer.as_str());
        } else {
            proof {
                let s = session.text@;
                lemma_boundary(s, session.cursor as int);
                lemma_line_end(s, session@.cursor);
                lemma_index_of_offset(s, line_end_index(s, session@.cursor));
            }
            session.cursor = line_end(session.text.as_str(), session.cursor);
        }
    }

    /// Moves the cursor up by one line.
    pub fn move_up(&self, session: &mut EditSession)
        requires
            old(session).wf(),
        ensures
            final(session).wf(),
            final(session)@ == old(session)@.moved_vertically(-1),
    {
        if session.mode == EditorMode::Command {
            return;
        }
        proof {
            let s = session.text@;
            lemma_boundary(s, session.cursor as int);
            lemma_vertical_index(s, session@.cursor, -1);
            lemma_index_of_offset(s, vertical_index(s, session@.cursor, -1));
        }
        session.cursor = move_vertical(session.text.as_str(), session.cursor, -1);
    }

    /// Moves the cursor down by one line.
    pub fn move_down(&self, session: &mut EditSession)
        requires
            old(session).wf(),
        ensures
            final(session).wf(),
            final(session)@ == old(session)@.moved_vertically(1),
    {
        if session.mode == EditorMode::Command {
            return;
        }
        proof {
            let s = session.text@;
            lemma_boundary(s, session.cursor as int);
            lemma_vertical_index(s, session@.cursor, 1);
            lemma_index_of_offset(s, vertical_index(s, session@.cursor, 1));
        }
        session.cursor = move_vertical(session.text.as_str(), session.cursor, 1);
    }

    /// Deletes the character at the cursor.
    pub fn delete_char_under_cursor(&self, session: &mut EditSession)
        requires
            old(session).wf(),
        ensures
            final(session).wf(),
            final(session)@ == old(session)@.with_char_deleted(),
    {
        match session.mode {
            EditorMode::Command => {
                proof {
                    lemma_command_cursor(*session);
                    lemma_next_index(session.command_buffer@, session.command_cursor as int);
                }
                if session.command_cursor < text_len(session.command_buffer.as_str()) {
                    let end: usize = next_boundary(
                        session.command_buffer.as_str(),
                        session.command_cursor,
                    );
                    remove_range(&mut session.command_buffer, session.command_cursor, end);
                }
            },
            _ => {
                proof {
                    lemma_next_index(session.text@, session.cursor as int);
                }
                if session.cursor < text_len(session.text.as_str()) {
                    let end: usize = next_boundary(session.text.as_str(), session.cursor);
                    remove_range(&mut session.text, session.cursor, end);
                }
            },
        }
    }

    /// Handles the backspace key.
    pub fn handle_backspace(&mut self, session: &mut EditSession)
        requires
            old(session).wf(),
        ensures
            *final(self) == *old(self),
            final(session).wf(),
            final(session)@ == old(session)@.after_backspace(),
    {
        match session.mode {
            EditorMode::Normal | EditorMode::Visual => self.move_left(session),
            EditorMode::Command => {
                proof {
                    lemma_command_cursor(*session);
                }
                if session.command_cursor <= 1 {
                    session.exit_command_mode();
                } else {
                    let ghost k: int = session@.command_cursor;
                    remove_previous_char(&mut session.command_buffer, &mut session.command_cursor);
                    proof {
                        let s = session.command_buffer@;
                        lemma_boundary(s, session.command_cursor as int);
                        lemma_offset_ends(s);
                        lemma_offset_monotone(s, 0, k - 1);
                    }
                }
            },
            EditorMode::Plain | EditorMode::Insert => {
                proof {
                    lemma_boundary(session.text@, session.cursor as int);
                    assert(removed(session.text@, 0, 0) =~= session.text@);
                }
                remove_previous_char(&mut session.text, &mut session.cursor);
            },
        }
    }

    /// Handles the escape key.
    pub fn handle_escape(&mut self, session: &mut EditSession) -> (action: KeyAction)
        requires
            old(session).wf(),
        ensures
            action == KeyAction::Continue,
            *final(self) == *old(self),
            final(session).wf(),
            final(session)@ == old(session)@.after_escape(),
    {
        match session.mode {
            EditorMode::Plain => KeyAction::Continue,
            EditorMode::Insert => {
                proof {
                    lemma_previous_index(session.text@, session.cursor as int);
                }
                if session.cursor > 0 {
                    session.cursor = previous_boundary(session.text.as_str(), session.cursor);
                }
                session.enter_normal_mode();
                KeyAction::Continue
            },
            EditorMode::Normal => KeyAction::Continue,
            EditorMode::Visual => {
                session.enter_normal_mode();
                KeyAction::Continue
            },
            EditorMode::Command => {
                session.exit_command_mode();
                KeyAction::Continue
            },
        }
    }

    /// Deletes the line of the cursor, and keeps it to be pasted.
    pub fn delete_current_line(&mut self, session: &mut EditSession)
        requires
            old(session).wf(),
        ensures
            final(self)@ == old(self)@.with_line_yanked(old(session)@.current_line()),
            final(session).wf(),
            final(session)@ == old(session)@.with_line_deleted(),
    {
        proof {
            lemma_line_range(session.text@, session.cursor as int);
        }
        let (line_start_idx, line_end_idx, delete_start_idx) = current_line_delete_range(
            session.text.as_str(),
            session.cursor,
        );
        let line = slice_text(session.text.as_str(), line_start_idx, line_end_idx);
        self.yank_buffer.text = line.to_owned();
        self.yank_buffer.linewise = true;
        remove_range(&mut session.text, delete_start_idx, line_end_idx);
        session.cursor = delete_start_idx;
    }

    /// Keeps the line of the cursor to be pasted.
    pub fn yank_current_line(&mut self, session: &mut EditSession)
        requires
            old(session).wf(),
        ensures
            final(self)@ == old(self)@.with_line_yanked(old(session)@.current_line()),
            *final(session) == *old(session),
    {
        proof {
            lemma_line_range(session.text@, session.cursor as int);
        }
        let (line_start_idx, line_end_idx, _) = current_line_delete_range(
            session.text.as_str(),
            session.cursor,
        );
        let line = slice_text(session.text.as_str(), line_start_idx, line_end_idx);
        self.yank_buffer.text = line.to_owned();
        self.yank_buffer.linewise = true;
    }

    /// Pastes what was yanked: a line below that of the cursor, any other text behind the
    /// character at the cursor.
    pub fn paste_after(&mut self, session: &mut EditSession)
        requires
            old(session).wf(),
        ensures
            *final(self) == *old(self),
            final(session).wf(),
            final(session)@ == after_paste(old(self)@, old(session)@),
    {
        if self.yank_buffer.text.as_str().is_empty() {
            return;
        }
        let ghost s: Seq<char> = session.text@;
        if self.yank_buffer.linewise {
            let ghost at: int = line_after_index(s, session@.cursor);
            proof {
                lemma_line_range(s, session.cursor as int);
                lemma_index_of_offset(s, at);
            }
            let (_, insert_at, _) = current_line_delete_range(
                session.text.as_str(),
                session.cursor,
            );
            let len: usize = text_len(session.text.as_str());
            let mut insertion = String::new();
            if insert_at == len && !session.text.as_str().is_empty() && !ends_with_newline(
                session.text.as_str(),
            ) {
                insertion.push('\n');
            }
            insertion.append(self.yank_buffer.text.as_str());
            if insert_at < len && !ends_with_newline(insertion.as_str()) {
                insertion.push('\n');
            }
            assert(insertion@ =~= pasted_line(s, at, self.yank_buffer.text@));
            let mut cursor: usize = insert_at;
            insert_text(&mut session.text, &mut cursor, insertion.as_str());
            proof {
                let t = session.text@;
                lemma_splice(s.take(at), insertion@, s.skip(at));
                lemma_index_of_offset(t, at);
                lemma_index_of_offset(t, at + 1);
                lemma_offset_step(t, at);
                lemma_newline_width();
                assert(t[at] == insertion@[0]);
            }
            session.cursor = if starts_with_newline(insertion.as_str()) {
                insert_at + 1
            } else {
                insert_at
            };
            return;
        }
        proof {
            lemma_next_index(s, session.cursor as int);
        }
        let mut cursor: usize = next_boundary(session.text.as_str(), session.cursor);
        insert_text(&mut session.text, &mut cursor, self.yank_buffer.text.as_str());
        session.cursor = cursor;
    }

    /// Whether the tab key moves on in the completion in progress: the text is one of its matches,
    /// or the one that it started from, with the cursor behind it.
    pub fn continues_cycle(&self, session: &EditSession) -> (result: bool)
        requires
            session.wf(),
        ensures
            result == (resumes_cycle(self@, session@) || repeats_cycle(self@, session@)),
    {
        let text = session.text.as_str();
        proof {
            lemma_next_index(session.text@, session.cursor as int);
        }
        match &self.completion_state {
            None => false,
            Some(state) => {
                if session.cursor == text_len(text) && contains_text(&state.matches, text) {
                    return true;
                }
                match slash_command_prefix(text, session.cursor) {
                    None => false,
                    Some(prefix) => {
                        let matches = matching_commands(&self.completions, prefix);
                        assert(texts(matches@).len() == matches@.len());
                        matches.len() > 0 && same_text(state.prefix.as_str(), prefix) && same_texts(
                            &state.matches,
                            &matches,
                        )
                    },
                }
            },
        }
    }

    /// The candidate that the completion stands at, after which it moves on; or the first of a new
    /// completion of the text; or none, which ends any completion.
    fn take_candidate(&mut self, session: &EditSession) -> (candidate: Option<String>)
        requires
            session.wf(),
            session.mode != EditorMode::Command,
            tab_fits(old(self)@, session@),
        ensures
            candidate is Some ==> (final(self)@, session@.with_completion(candidate->0@))
                == after_tab(old(self)@, session@),
            candidate is None ==> (final(self)@, session@) == after_tab(old(self)@, session@),
    {
        proof {
            lemma_next_index(session.text@, session.cursor as int);
        }
        let continues: bool = self.continues_cycle(session);
        match self.completion_state.take() {
            Some(mut state) if continues => {
                assert(texts(state.matches@).len() == state.matches@.len());
                let index: usize = state.next_index % state.matches.len();
                let candidate = state.matches[index].clone();
                assert(texts(state.matches@)[index as int] == candidate@);
                state.next_index = state.next_index + 1;
                self.completion_state = Some(state);
                Some(candidate)
            },
            _ => {
                let prefix = match slash_command_prefix(session.text.as_str(), session.cursor) {
                    Some(prefix) => prefix,
                    None => {
                        return None;
                    },
                };
                let matches = matching_commands(&self.completions, prefix);
                assert(texts(matches@).len() == matches@.len());
                if matches.len() == 0 {
                    return None;
                }
                let candidate = matches[0].clone();
                assert(texts(matches@)[0] == candidate@);
                self.completion_state = Some(
                    CompletionState { prefix: prefix.to_owned(), matches, next_index: 1 },
                );
                Some(candidate)
            },
        }
    }

    /// Completes the slash command that is being typed, or moves on to its next completion.
    pub fn complete_slash_command(&mut self, session: &mut EditSession)
        requires
            old(session).wf(),
            tab_fits(old(self)@, old(session)@),
        ensures
            (final(self)@, final(session)@) == after_tab(old(self)@, old(session)@),
            final(session).wf(),
    {
        if session.mode == EditorMode::Command {
            self.completion_state = None;
            return;
        }
        let candidate = match self.take_candidate(session) {
            Some(candidate) => candidate,
            None => {
                return;
            },
        };
        let ghost rest: Seq<char> = session.text@.skip(session@.cursor);
        proof {
            lemma_offset_ends(session.text@);
            lemma_index_of_offset(session.text@, 0);
        }
        let text = replace_text(session.text.as_str(), 0, session.cursor, candidate.as_str());
        proof {
            assert(text@ =~= candidate@ + rest);
            assert(Seq::<char>::empty() + candidate@ + rest =~= text@);
            lemma_splice(Seq::empty(), candidate@, rest);
            lemma_offset_ends(Seq::<char>::empty());
            lemma_index_of_offset(text@, candidate@.len() as int);
        }
        session.text = text;
        session.cursor = text_len(candidate.as_str());
    }

    /// Shows an older entry of the history.
    pub fn history_up(&self, session: &mut EditSession)
        requires
            old(session).wf(),
            up_fits(self@, old(session)@),
        ensures
            final(session).wf(),
            final(session)@ == after_up(self@, old(session)@),
    {
        if session.mode == EditorMode::Command || self.history.len() == 0 {
            return;
        }
        let next_index: usize = match session.history_index {
            Some(index) => if index > 0 {
                index - 1
            } else {
                0
            },
            None => {
                session.history_backup = Some(session.text.clone());
                self.history.len() - 1
            },
        };
        session.history_index = Some(next_index);
        assert(self@.history[next_index as int] == self.history[next_index as int]@);
        session.set_text_from_history(self.history[next_index].clone());
    }

    /// Shows a newer entry of the history, or the text that was kept.
    pub fn history_down(&self, session: &mut EditSession)
        requires
            old(session).wf(),
            down_fits(old(session)@),
        ensures
            final(session).wf(),
            final(session)@ == after_down(self@, old(session)@),
    {
        if session.mode == EditorMode::Command {
            return;
        }
        let index: usize = match session.history_index {
            Some(index) => index,
            None => {
                return;
            },
        };
        if index + 1 < self.history.len() {
            let next_index: usize = index + 1;
            session.history_index = Some(next_index);
            assert(self@.history[next_index as int] == self.history[next_index as int]@);
            session.set_text_from_history(self.history[next_index].clone());
            return;
        }
        session.history_index = None;
        let restored: String = match session.history_backup.take() {
            Some(backup) => backup,
            None => String::new(),
        };
        session.set_text_from_history(restored);
        if self.vim_enabled {
            session.enter_insert_mode();
        } else {
            session.mode = EditorMode::Plain;
        }
    }

    /// Handles a character typed in normal mode.
    pub fn handle_normal_char(&mut self, session: &mut EditSession, ch: char)
        requires
            old(session).wf(),
        ensures
            (final(self)@, final(session)@) == after_normal_char(old(self)@, old(session)@, ch),
            final(session).wf(),
    {
        if let Some(operator) = session.pending_operator.take() {
            match (operator, ch) {
                ('d', 'd') => {
                    self.delete_current_line(session);
                    return;
                },
                ('y', 'y') => {
                    self.yank_current_line(session);
                    return;
                },
                _ => {},
            }
        }
        match ch {
            'h' => self.move_left(session),
            'j' => self.move_down(session),
            'k' => self.move_up(session),
            'l' => self.move_right(session),
            'd' | 'y' => {
                session.pending_operator = Some(ch);
            },
            'p' => self.paste_after(session),
            'i' => session.enter_insert_mode(),
            'v' => session.enter_visual_mode(),
            ':' => session.enter_command_mode(),
            _ => {},
        }
    }

    /// Handles a character typed in visual mode.
    pub fn handle_visual_char(&mut self, session: &mut EditSession, ch: char)
        requires
            old(session).wf(),
        ensures
            *final(self) == *old(self),
            final(session).wf(),
            final(session)@ == after_visual_char(old(session)@, ch),
    {
        match ch {
            'h' => self.move_left(session),
            'j' => self.move_down(session),
            'k' => self.move_up(session),
            'l' => self.move_right(session),
            'v' => session.enter_normal_mode(),
            _ => {},
        }
    }

    /// Handles a typed character.
    pub fn handle_char(&mut self, session: &mut EditSession, ch: char)
        requires
            old(session).wf(),
        ensures
            (final(self)@, final(session)@) == after_char(old(self)@, old(session)@, ch),
            final(session).wf(),
    {
        match session.mode {
            EditorMode::Plain => self.insert_active_char(session, ch),
            EditorMode::Insert => self.insert_active_char(session, ch),
            EditorMode::Normal => self.handle_normal_char(session, ch),
            EditorMode::Visual => self.handle_visual_char(session, ch),
            EditorMode::Command => self.insert_active_char(session, ch),
        }
    }

    /// Handles a key event: a key that went down, or is held down, is handled, and one that was
    /// released is not.
    pub fn press_key(&mut self, session: &mut EditSession, key: KeyEvent) -> (action: Option<
        KeyAction,
    >)
        requires
            old(session).wf(),
            key.is_release() || key_fits(old(self)@, old(session)@, key),
        ensures
            match action {
                None => key.is_release() && *final(self) == *old(self) && *final(session) == *old(
                    session,
                ),
                Some(action) => !key.is_release() && (final(self)@, final(session)@, action@)
                    == after_key(old(self)@, old(session)@, key),
            },
            final(session).wf(),
    {
        if key.is_down() {
            Some(self.handle_key_event(session, key))
        } else {
            None
        }
    }

    /// Whether [`handle_key_event`](Self::handle_key_event) can handle the key: an arrow key needs
    /// an entry of the history, and the place in the history or among the completions must be one
    /// that can be counted on from.
    pub fn accepts_key(&self, session: &EditSession, key: KeyEvent) -> (result: bool)
        requires
            session.wf(),
        ensures
            result == key_fits(self@, session@, key),
    {
        if session.mode == EditorMode::Command {
            return true;
        }
        match key.code {
            KeyCode::Up => match session.history_index {
                Some(index) => self.history.len() == 0 || index <= self.history.len(),
                None => true,
            },
            KeyCode::Down => match session.history_index {
                Some(index) => index < usize::MAX,
                None => true,
            },
            KeyCode::Tab => match &self.completion_state {
                Some(state) => state.next_index < usize::MAX || !self.continues_cycle(session),
                None => true,
            },
            _ => true,
        }
    }

    /// Handles a key.
    #[verifier::rlimit(60)]
    pub fn handle_key_event(&mut self, session: &mut EditSession, key: KeyEvent) -> (action:
        KeyAction)
        requires
            old(session).wf(),
            key_fits(old(self)@, old(session)@, key),
        ensures
            (final(self)@, final(session)@, action@) == after_key(
                old(self)@,
                old(session)@,
                key,
            ),
            final(session).wf(),
            history_known(old(self)@, old(session)@) ==> history_known(
                final(self)@,
                final(session)@,
            ),
            mode_fits(old(self)@, old(session)@) ==> mode_fits(final(self)@, final(session)@),
    {
        proof {
            if history_known(self@, session@) {
                assert(self@.history.len() == self.history.len());
                law_keys_keep_history_known(self@, session@, key);
            }
            if mode_fits(self@, session@) {
                law_keys_keep_the_mode_fit(self@, session@, key);
            }
        }
        if key.code != KeyCode::Tab {
            self.completion_state = None;
        }
        if key.has_control() {
            match key.code {
                KeyCode::Char('c') | KeyCode::Char('C') => {
                    return if session.has_input() {
                        KeyAction::Cancel
                    } else {
                        KeyAction::Exit
                    };
                },
                KeyCode::Char('j') | KeyCode::Char('J') => {
                    if session.mode != EditorMode::Normal && session.mode != EditorMode::Visual {
                        self.insert_active_text(session, "\n");
                    }
                    return KeyAction::Continue;
                },
                KeyCode::Char('d') | KeyCode::Char('D') => {
                    if session.current_len() == 0 {
                        return KeyAction::Exit;
                    }
                    self.delete_char_under_cursor(session);
                    return KeyAction::Continue;
                },
                _ => {},
            }
        }
        match key.code {
            KeyCode::Enter => {
                if key.has_shift() {
                    if session.mode != EditorMode::Normal && session.mode != EditorMode::Visual {
                        self.insert_active_text(session, "\n");
                    }
                    KeyAction::Continue
                } else {
                    self.submit_or_toggle(session)
                }
            },
            KeyCode::Esc => self.handle_escape(session),
            KeyCode::Backspace => {
                self.handle_backspace(session);
                KeyAction::Continue
            },
            KeyCode::Delete => {
                self.delete_char_under_cursor(session);
                KeyAction::Continue
            },
            KeyCode::Left => {
                self.move_left(session);
                KeyAction::Continue
            },
            KeyCode::Right => {
                self.move_right(session);
                KeyAction::Continue
            },
            KeyCode::Up => {
                self.history_up(session);
                KeyAction::Continue
            },
            KeyCode::Down => {
                self.history_down(session);
                KeyAction::Continue
            },
            KeyCode::Home => {
                self.move_line_start(session);
                KeyAction::Continue
            },
            KeyCode::End => {
                self.move_line_end(session);
                KeyAction::Continue
            },
            KeyCode::Tab => {
                self.complete_slash_command(session);
                KeyAction::Continue
            },
            KeyCode::Char(ch) => {
                self.handle_char(session, ch);
                KeyAction::Continue
            },
            KeyCode::Other => KeyAction::Continue,
        }
    }
}

/// Whether `text` ends with a newline.
fn ends_with_newline(text: &str) -> (result: bool)
    ensures
        result == (text@.len() > 0 && text@.last() == '\n'),
{
    let mut last: bool = false;
    for c in it: text.chars()
        invariant
            it.seq() == text@,
            last == (it.index() > 0 && text@[it.index() - 1] == '\n'),
    {
        last = c == '\n';
    }
    last
}

/// Whether `text` starts with a newline.
fn starts_with_newline(text: &str) -> (result: bool)
    ensures
        result == (text@.len() > 0 && text@[0] == '\n'),
{
    match text.chars().next() {
        Some(c) => c == '\n',
        None => false,
    }
}

/// Where the line of a position lies.
proof fn lemma_line_range(s: Seq<char>, b: int)
    requires
        at_boundary(s, b),
    ensures
        ({
            let k = char_index(s, b);
            let start = line_start_index(s, k);
            let after = line_after_index(s, k);
            let from = line_delete_index(s, k);
            &&& 0 <= from <= start <= k <= after <= s.len()
            &&& char_index(s, byte_offset(s, start)) == start
            &&& char_index(s, byte_offset(s, after)) == after
            &&& char_index(s, byte_offset(s, from)) == from
            &&& at_boundary(s, byte_offset(s, start))
            &&& at_boundary(s, byte_offset(s, after))
            &&& at_boundary(s, byte_offset(s, from))
            &&& byte_offset(s, from) <= byte_offset(s, start) <= byte_offset(s, after)
            &&& byte_offset(s, after) == byte_len(s) <==> after == s.len()
            &&& byte_offset(s, after) <= byte_len(s)
        }),
{
    let k = char_index(s, b);
    let start = line_start_index(s, k);
    let after = line_after_index(s, k);
    let from = line_delete_index(s, k);
    lemma_boundary(s, b);
    lemma_line_start(s, k);
    lemma_line_end(s, k);
    lemma_offset_ends(s);
    lemma_index_of_offset(s, start);
    lemma_index_of_offset(s, after);
    lemma_index_of_offset(s, from);
    lemma_offset_monotone(s, from, start);
    lemma_offset_monotone(s, start, after);
    lemma_offset_monotone(s, after, s.len() as int);
}

/// The index of the position one character before a position.
proof fn lemma_previous_index(s: Seq<char>, b: int)
    requires
        at_boundary(s, b),
    ensures
        0 <= char_index(s, b) <= s.len(),
        b == 0 <==> char_index(s, b) == 0,
        char_index(s, previous_position(s, b)) == (if char_index(s, b) > 0 {
            char_index(s, b) - 1
        } else {
            0
        }),
{
    let k = char_index(s, b);
    lemma_boundary(s, b);
    lemma_offset_ends(s);
    lemma_offset_monotone(s, 0, k);
    lemma_index_of_offset(s, if k > 0 { k - 1 } else { 0 });
}

/// The index of the position one character after a position.
proof fn lemma_next_index(s: Seq<char>, b: int)
    requires
        at_boundary(s, b),
    ensures
        0 <= char_index(s, b) <= s.len(),
        b < byte_len(s) <==> char_index(s, b) < s.len(),
        b <= next_position(s, b),
        char_index(s, next_position(s, b)) == (if char_index(s, b) < s.len() {
            char_index(s, b) + 1
        } else {
            s.len() as int
        }),
{
    let k = char_index(s, b);
    lemma_boundary(s, b);
    lemma_offset_ends(s);
    lemma_offset_monotone(s, k, s.len() as int);
    lemma_index_of_offset(s, s.len() as int);
    if k < s.len() {
        lemma_offset_step(s, k);
        lemma_index_of_offset(s, k + 1);
    }
}

/// In command mode the cursor stands behind the colon, counted in characters too.
proof fn lemma_command_cursor(session: EditSession)
    requires
        session.wf(),
        session.mode == EditorMode::Command,
    ensures
        1 <= session@.command_cursor <= session@.command_buffer.len(),
        byte_offset(session@.command_buffer, 1) == 1,
        session.command_cursor <= 1 <==> session@.command_cursor <= 1,
{
    let s = session.command_buffer@;
    lemma_boundary(s, session.command_cursor as int);
    lemma_offset_ends(s);
    lemma_offset_step(s, 0);
    let k = session@.command_cursor;
    if k == 0 {
    } else {
        lemma_offset_monotone(s, 1, k);
    }
}

} // verus!
