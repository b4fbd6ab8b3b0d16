//! The state of editing one line of input.

use std::borrow::Cow;
use vstd::prelude::*;
use vstd::string::{StrSliceExecFns, StringExecFns};
use crate::lines::{
    count_newlines, last_row, lemma_line_start, lemma_row_monotone, lemma_row_of_take, line_start,
    line_start_index, row_of,
};
use crate::selection::{
    highlighted, render_selected_text, selected, selection_bounds, selection_fits,
};
use crate::terminal::{clear_paint, OpView, Paint, PaintView, TerminalOp};
use crate::text::{
    at_boundary, byte_len, byte_offset, char_index, lemma_boundary, lemma_char_boundary,
    lemma_index_of_offset, lemma_offset_ends, lemma_offset_monotone, lemma_offset_step, slice_text,
    split_text, text_len,
};

verus! {

/// The mode that the editor is in.  `Plain` is the mode without vim key bindings.
#[derive(Debug, Clone, Copy, PartialEq, Eq, Structural)]
pub enum EditorMode {
    Plain,
    Insert,
    Normal,
    Visual,
    Command,
}

impl EditorMode {
    /// The name of the mode.
    pub open spec fn name(self) -> Seq<char> {
        match self {
            EditorMode::Plain => "PLAIN"@,
            EditorMode::Insert => "INSERT"@,
            EditorMode::Normal => "NORMAL"@,
            EditorMode::Visual => "VISUAL"@,
            EditorMode::Command => "COMMAND"@,
        }
    }

    /// The name of the mode, where the prompt shows it.
    pub fn indicator(self, vim_enabled: bool) -> (name: Option<&'static str>)
        ensures
            name is Some <==> vim_enabled,
            name matches Some(name) ==> name@ == self.name(),
    {
        if !vim_enabled {
            return None;
        }
        Some(
            match self {
                EditorMode::Plain => "PLAIN",
                EditorMode::Insert => "INSERT",
                EditorMode::Normal => "NORMAL",
                EditorMode::Visual => "VISUAL",
                EditorMode::Command => "COMMAND",
            },
        )
    }
}

/// The state of editing one line of input.
///
/// The cursors are byte offsets, and so is the anchor of the selection.
#[derive(Debug, Clone, PartialEq, Eq)]
pub struct EditSession {
    pub text: String,
    pub cursor: usize,
    pub mode: EditorMode,
    pub pending_operator: Option<char>,
    pub visual_anchor: Option<usize>,
    pub command_buffer: String,
    pub command_cursor: usize,
    pub history_index: Option<usize>,
    pub history_backup: Option<String>,
    pub rendered_cursor_row: usize,
    pub rendered_lines: usize,
}

/// The model of [`EditSession`].  Here the cursors count characters; the anchor of the selection
/// stays a byte offset, which an edit may leave inside a character.
#[verifier::ext_equal]
pub struct SessionView {
    pub text: Seq<char>,
    pub cursor: int,
    pub mode: EditorMode,
    pub pending_operator: Option<char>,
    pub visual_anchor: Option<usize>,
    pub command_buffer: Seq<char>,
    pub command_cursor: int,
    pub history_index: Option<usize>,
    pub history_backup: Option<Seq<char>>,
    pub rendered_cursor_row: usize,
    pub rendered_lines: usize,
}

impl View for EditSession {
    type V = SessionView;

    open spec fn view(&self) -> SessionView {
        SessionView {
            text: self.text@,
            cursor: char_index(self.text@, self.cursor as int),
            mode: self.mode,
            pending_operator: self.pending_operator,
            visual_anchor: self.visual_anchor,
            command_buffer: self.command_buffer@,
            command_cursor: char_index(self.command_buffer@, self.command_cursor as int),
            history_index: self.history_index,
            history_backup: match self.history_backup {
                Some(backup) => Some(backup@),
                None => None,
            },
            rendered_cursor_row: self.rendered_cursor_row,
            rendered_lines: self.rendered_lines,
        }
    }
}

impl SessionView {
    /// A new session.
    pub open spec fn fresh(vim_enabled: bool) -> SessionView {
        SessionView {
            text: Seq::empty(),
            cursor: 0,
            mode: if vim_enabled {
                EditorMode::Insert
            } else {
                EditorMode::Plain
            },
            pending_operator: None,
            visual_anchor: None,
            command_buffer: Seq::empty(),
            command_cursor: 0,
            history_index: None,
            history_backup: None,
            rendered_cursor_row: 0,
            rendered_lines: 1,
        }
    }

    /// The text that the keys work on: the command in command mode, the input otherwise.
    pub open spec fn active_text(self) -> Seq<char> {
        if self.mode == EditorMode::Command {
            self.command_buffer
        } else {
            self.text
        }
    }

    /// The index of the cursor in the active text.
    pub open spec fn active_cursor(self) -> int {
        if self.mode == EditorMode::Command {
            self.command_cursor
        } else {
            self.cursor
        }
    }

    /// `self` with the active text and the cursor in it replaced.
    pub open spec fn with_active(self, text: Seq<char>, cursor: int) -> SessionView {
        if self.mode == EditorMode::Command {
            SessionView { command_buffer: text, command_cursor: cursor, ..self }
        } else {
            SessionView { text, cursor, ..self }
        }
    }

    /// `self` in the given mode, with no operator pending and nothing selected.
    pub open spec fn in_mode(self, mode: EditorMode) -> SessionView {
        SessionView { mode, pending_operator: None, visual_anchor: None, ..self }
    }

    /// `self` in visual mode, with the selection starting at the cursor.
    pub open spec fn in_visual_mode(self) -> SessionView {
        SessionView {
            mode: EditorMode::Visual,
            pending_operator: None,
            visual_anchor: Some(byte_offset(self.text, self.cursor) as usize),
            ..self
        }
    }

    /// `self` in command mode, with a command of nothing but its colon.
    pub open spec fn in_command_mode(self) -> SessionView {
        SessionView {
            command_buffer: seq![':'],
            command_cursor: 1,
            ..self.in_mode(EditorMode::Command)
        }
    }

    /// `self` back in normal mode, with no command.
    pub open spec fn out_of_command_mode(self) -> SessionView {
        SessionView {
            command_buffer: Seq::empty(),
            command_cursor: 0,
            ..self.in_mode(EditorMode::Normal)
        }
    }

    /// `self` with its text replaced by an entry of the history, and the cursor at its end.
    pub open spec fn with_history_text(self, entry: Seq<char>) -> SessionView {
        SessionView {
            text: entry,
            cursor: entry.len() as int,
            ..self.in_mode(
                if self.mode == EditorMode::Plain || self.mode == EditorMode::Insert {
                    self.mode
                } else {
                    EditorMode::Normal
                },
            )
        }
    }

    /// Whether the selection, if there is one to show, can be cut out of the text.
    pub open spec fn selection_fits(self) -> bool {
        self.mode == EditorMode::Visual ==> match self.visual_anchor {
            Some(anchor) => selection_fits(
                self.text,
                anchor as int,
                byte_offset(self.text, self.cursor),
            ),
            None => true,
        }
    }

    /// What is shown of the text: in visual mode with the selection in reverse video.
    pub open spec fn visible(self) -> Seq<char> {
        if self.mode == EditorMode::Visual && self.visual_anchor is Some {
            match selected(
                self.text,
                self.visual_anchor->0 as int,
                byte_offset(self.text, self.cursor),
            ) {
                Some(bounds) => highlighted(self.text, bounds.0, bounds.1),
                None => self.text,
            }
        } else {
            self.active_text()
        }
    }

    /// The prompt, with the mode in front of it where vim key bindings are on.
    pub open spec fn prompt(self, base_prompt: Seq<char>, vim_enabled: bool) -> Seq<char> {
        if vim_enabled {
            "["@ + self.mode.name() + "] "@ + base_prompt
        } else {
            base_prompt
        }
    }

    /// The row of the cursor.
    pub open spec fn cursor_row(self) -> int {
        row_of(self.active_text(), self.active_cursor())
    }

    /// The column of the cursor, which the prompt shifts on the first row.
    pub open spec fn cursor_column(self, prompt_len: int) -> int {
        let start = line_start_index(self.active_text(), self.active_cursor());
        let column = self.active_cursor() - start;
        if start == 0 {
            prompt_len + column
        } else {
            column
        }
    }

    /// The number of lines of the active text.
    pub open spec fn total_lines(self) -> int {
        last_row(self.active_text()) + 1
    }

    /// What renders the session: the earlier rendering is cleared, the prompt and the text are
    /// written, and the cursor is moved from the end of the text to its place.
    pub open spec fn render_paint(self, base_prompt: Seq<char>, vim_enabled: bool) -> PaintView {
        let prompt = self.prompt(base_prompt, vim_enabled);
        clear_paint(self.rendered_cursor_row as int).then_print(
            prompt + self.visible(),
        ).then_move_up(self.total_lines() - (self.cursor_row() + 1)).then_move_to_column(
            self.cursor_column(prompt.len() as int),
        ).then_op(OpView::Flush)
    }

    /// The session after it was rendered: it remembers the row of its cursor and its lines.
    pub open spec fn rendered(self) -> SessionView {
        SessionView {
            rendered_cursor_row: self.cursor_row() as usize,
            rendered_lines: self.total_lines() as usize,
            ..self
        }
    }

    /// What renders the session for the last time, and goes to the next line.
    pub open spec fn finalize_paint(self, base_prompt: Seq<char>, vim_enabled: bool) -> PaintView {
        clear_paint(self.rendered_cursor_row as int).then_print(
            self.prompt(base_prompt, vim_enabled) + self.visible(),
        ).then_print("\n"@)
    }

    /// Whether the earlier rendering can be cleared: the row of its cursor fits in 16 bits.
    pub open spec fn can_clear(self) -> bool {
        self.rendered_cursor_row <= u16::MAX
    }

    /// Whether the characters of the prompt and of the active text can be counted.
    pub open spec fn layout_fits(self, prompt_len: int) -> bool {
        prompt_len + self.active_text().len() < usize::MAX
    }
}

impl EditSession {
    /// The cursors lie between characters, and in command mode behind the colon that starts the
    /// command.
    pub open spec fn wf(&self) -> bool {
        &&& at_boundary(self.text@, self.cursor as int)
        &&& at_boundary(self.command_buffer@, self.command_cursor as int)
        &&& self.mode == EditorMode::Command ==> {
            &&& self.command_buffer@.len() > 0
            &&& self.command_buffer@[0] == ':'
            &&& self.command_cursor >= 1
        }
    }

    /// A new session.
    pub fn new(vim_enabled: bool) -> (session: EditSession)
        ensures
            session.wf(),
            session@ == SessionView::fresh(vim_enabled),
    {
        let session = EditSession {
            text: String::new(),
            cursor: 0,
            mode: if vim_enabled {
                EditorMode::Insert
            } else {
                EditorMode::Plain
            },
            pending_operator: None,
            visual_anchor: None,
            command_buffer: String::new(),
            command_cursor: 0,
            history_index: None,
            history_backup: None,
            rendered_cursor_row: 0,
            rendered_lines: 1,
        };
        proof {
            lemma_offset_ends(Seq::<char>::empty());
            lemma_index_of_offset(Seq::<char>::empty(), 0);
        }
        session
    }

    /// The text that the keys work on.
    pub fn active_text(&self) -> (text: &str)
        ensures
            text@ == self@.active_text(),
    {
        if self.mode == EditorMode::Command {
            self.command_buffer.as_str()
        } else {
            self.text.as_str()
        }
    }

    /// The length of the active text in bytes.
    pub fn current_len(&self) -> (len: usize)
        ensures
            len == byte_len(self@.active_text()),
            len == 0 <==> self@.active_text().len() == 0,
    {
        proof {
            let s = self@.active_text();
            lemma_offset_ends(s);
            lemma_offset_monotone(s, 0, s.len() as int);
        }
        text_len(self.active_text())
    }

    /// Whether there is any active text.
    pub fn has_input(&self) -> (result: bool)
        ensures
            result == (self@.active_text().len() > 0),
    {
        !self.active_text().is_empty()
    }

    /// The active text as a string.
    pub fn current_line(&self) -> (line: String)
        ensures
            line@ == self@.active_text(),
    {
        self.active_text().to_owned()
    }

    /// Replaces the text by an entry of the history.
    pub fn set_text_from_history(&mut self, entry: String)
        requires
            old(self).wf(),
        ensures
            final(self).wf(),
            final(self)@ == old(self)@.with_history_text(entry@),
    {
        let len: usize = text_len(entry.as_str());
        proof {
            lemma_offset_ends(entry@);
            lemma_index_of_offset(entry@, entry@.len() as int);
        }
        self.text = entry;
        self.cursor = len;
        self.pending_operator = None;
        self.visual_anchor = None;
        if self.mode != EditorMode::Plain && self.mode != EditorMode::Insert {
            self.mode = EditorMode::Normal;
        }
    }

    /// Goes to insert mode.
    pub fn enter_insert_mode(&mut self)
        requires
            old(self).wf(),
        ensures
            final(self).wf(),
            final(self)@ == old(self)@.in_mode(EditorMode::Insert),
    {
        self.mode = EditorMode::Insert;
        self.pending_operator = None;
        self.visual_anchor = None;
    }

    /// Goes to normal mode.
    pub fn enter_normal_mode(&mut self)
        requires
            old(self).wf(),
        ensures
            final(self).wf(),
            final(self)@ == old(self)@.in_mode(EditorMode::Normal),
    {
        self.mode = EditorMode::Normal;
        self.pending_operator = None;
        self.visual_anchor = None;
    }

    /// Goes to visual mode, with the selection starting at the cursor.
    pub fn enter_visual_mode(&mut self)
        requires
            old(self).wf(),
        ensures
            final(self).wf(),
            final(self)@ == old(self)@.in_visual_mode(),
    {
        proof {
            lemma_boundary(self.text@, self.cursor as int);
        }
        self.mode = EditorMode::Visual;
        self.pending_operator = None;
        self.visual_anchor = Some(self.cursor);
    }

    /// Goes to command mode, with a new command.
    pub fn enter_command_mode(&mut self)
        requires
            old(self).wf(),
        ensures
            final(self).wf(),
            final(self)@ == old(self)@.in_command_mode(),
    {
        self.mode = EditorMode::Command;
        self.pending_operator = None;
        self.visual_anchor = None;
        self.command_buffer = String::from(":");
        self.command_cursor = text_len(self.command_buffer.as_str());
        proof {
            reveal_strlit(":");
            assert(self.command_buffer@ =~= seq![':']);
            lemma_offset_ends(seq![':']);
            lemma_offset_step(seq![':'], 0);
            lemma_index_of_offset(seq![':'], 1);
        }
    }

    /// Leaves command mode for normal mode, and drops the command.
    pub fn exit_command_mode(&mut self)
        requires
            old(self).wf(),
        ensures
            final(self).wf(),
            final(self)@ == old(self)@.out_of_command_mode(),
    {
        proof {
            lemma_offset_ends(Seq::<char>::empty());
            lemma_index_of_offset(Seq::<char>::empty(), 0);
        }
        self.mode = EditorMode::Normal;
        self.command_buffer = String::new();
        self.command_cursor = 0;
        self.enter_normal_mode();
    }

    /// Whether [`visible_buffer`](Self::visible_buffer) can cut the selection out of the text: an
    /// edit in visual mode may leave the anchor inside a character.
    pub fn selection_in_text(&self) -> (result: bool)
        requires
            self.wf(),
        ensures
            result == self@.selection_fits(),
    {
        proof {
            lemma_boundary(self.text@, self.cursor as int);
        }
        if self.mode != EditorMode::Visual {
            return true;
        }
        match self.visual_anchor {
            None => true,
            Some(anchor) => {
                proof {
                    lemma_char_boundary(self.text@, anchor as int);
                }
                self.text.as_str().is_empty() || anchor <= self.cursor || anchor >= text_len(
                    self.text.as_str(),
                ) || self.text.as_str().is_char_boundary(anchor)
            },
        }
    }

    /// What is shown of the text.
    pub fn visible_buffer(&self) -> (buffer: Cow<'_, str>)
        requires
            self.wf(),
            self@.selection_fits(),
        ensures
            buffer@ == self@.visible(),
    {
        proof {
            lemma_boundary(self.text@, self.cursor as int);
        }
        if self.mode != EditorMode::Visual {
            return Cow::Borrowed(self.active_text());
        }
        let anchor: usize = match self.visual_anchor {
            Some(anchor) => anchor,
            None => {
                return Cow::Borrowed(self.active_text());
            },
        };
        match selection_bounds(self.text.as_str(), anchor, self.cursor) {
            None => Cow::Borrowed(self.active_text()),
            Some((start, end)) => Cow::Owned(
                render_selected_text(self.text.as_str(), start, end),
            ),
        }
    }

    /// The prompt, with the mode in front of it where vim key bindings are on.
    pub fn prompt<'a>(&self, base_prompt: &'a str, vim_enabled: bool) -> (prompt: Cow<'a, str>)
        ensures
            prompt@ == self@.prompt(base_prompt@, vim_enabled),
    {
        match self.mode.indicator(vim_enabled) {
            Some(mode) => {
                let mut prompt = String::from("[");
                prompt.append(mode);
                prompt.append("] ");
                prompt.append(base_prompt);
                Cow::Owned(prompt)
            },
            None => Cow::Borrowed(base_prompt),
        }
    }

    /// Whether the characters of a prompt with `prompt_len` of them and of the active text can be
    /// counted.
    pub fn layout_in_range(&self, prompt_len: usize) -> (result: bool)
        ensures
            result == self@.layout_fits(prompt_len as int),
    {
        let len: usize = self.active_text().unicode_len();
        len < usize::MAX && prompt_len < usize::MAX - len
    }

    /// Whether [`render`](Self::render) can lay the session out behind the prompt.
    pub fn can_lay_out(&self, base_prompt: &str, vim_enabled: bool) -> (result: bool)
        ensures
            result == self@.layout_fits(self@.prompt(base_prompt@, vim_enabled).len() as int),
    {
        match self.prompt(base_prompt, vim_enabled) {
            Cow::Borrowed(prompt) => self.layout_in_range(prompt.unicode_len()),
            Cow::Owned(prompt) => self.layout_in_range(prompt.as_str().unicode_len()),
        }
    }

    /// The row and the column of the cursor, and the number of lines.
    pub fn cursor_layout(&self, prompt: &str) -> (layout: (usize, usize, usize))
        requires
            self.wf(),
            self@.layout_fits(prompt@.len() as int),
        ensures
            layout.0 == self@.cursor_row(),
            layout.1 == self@.cursor_column(prompt@.len() as int),
            layout.2 == self@.total_lines(),
            layout.0 < layout.2,
    {
        let active_text = self.active_text();
        let cursor: usize = if self.mode == EditorMode::Command {
            self.command_cursor
        } else {
            self.cursor
        };
        let ghost s: Seq<char> = active_text@;
        let ghost k: int = self@.active_cursor();
        proof {
            lemma_boundary(s, cursor as int);
            lemma_line_start(s, k);
            lemma_row_monotone(s, 0, k);
            lemma_row_monotone(s, k, s.len() as int);
            lemma_index_of_offset(s, line_start_index(s, k));
            lemma_offset_monotone(s, line_start_index(s, k), k);
            lemma_offset_monotone(s, 0, line_start_index(s, k));
            lemma_offset_ends(s);
            lemma_row_of_take(s, k, k);
        }
        let (cursor_prefix, _) = split_text(active_text, cursor);
        let cursor_row: usize = count_newlines(cursor_prefix);
        let start: usize = line_start(active_text, cursor);
        let column: usize = slice_text(active_text, start, cursor).unicode_len();
        let cursor_col: usize = if start > 0 {
            column
        } else {
            prompt.unicode_len() + column
        };
        let total_lines: usize = count_newlines(active_text) + 1;
        (cursor_row, cursor_col, total_lines)
    }

    /// What clears the earlier rendering.
    pub fn clear_render(&self) -> (paint: Paint)
        ensures
            paint@ == clear_paint(self@.rendered_cursor_row as int),
    {
        let mut paint = Paint::new();
        paint.move_up(self.rendered_cursor_row);
        paint.move_to_column(0);
        paint.add_op(TerminalOp::ClearFromCursorDown);
        paint.add_op(TerminalOp::Flush);
        paint
    }

    /// The prompt, followed by what is shown of the text.
    fn prompt_and_buffer(&self, base_prompt: &str, vim_enabled: bool) -> (text: String)
        requires
            self.wf(),
            self@.selection_fits(),
        ensures
            text@ == self@.prompt(base_prompt@, vim_enabled) + self@.visible(),
    {
        let mut text = match self.prompt(base_prompt, vim_enabled) {
            Cow::Borrowed(prompt) => prompt.to_owned(),
            Cow::Owned(prompt) => prompt,
        };
        match self.visible_buffer() {
            Cow::Borrowed(buffer) => text.append(buffer),
            Cow::Owned(buffer) => text.append(buffer.as_str()),
        }
        text
    }

    /// What renders the session.  Once that was done, [`finish_render`](Self::finish_render) has
    /// the session remember it.
    pub fn render(&self, base_prompt: &str, vim_enabled: bool) -> (paint: Paint)
        requires
            self.wf(),
            self@.can_clear() ==> self@.selection_fits(),
            self@.can_clear() ==> self@.layout_fits(
                self@.prompt(base_prompt@, vim_enabled).len() as int,
            ),
        ensures
            paint@ == self@.render_paint(base_prompt@, vim_enabled),
    {
        let mut paint = self.clear_render();
        if paint.outcome.is_err() {
            return paint;
        }
        paint.print(self.prompt_and_buffer(base_prompt, vim_enabled));
        let prompt = self.prompt(base_prompt, vim_enabled);
        let (cursor_row, cursor_col, total_lines) = match prompt {
            Cow::Borrowed(prompt) => self.cursor_layout(prompt),
            Cow::Owned(prompt) => self.cursor_layout(prompt.as_str()),
        };
        paint.move_up(total_lines - (cursor_row + 1));
        paint.move_to_column(cursor_col);
        paint.add_op(TerminalOp::Flush);
        paint
    }

    /// Has the session remember the row of its cursor and its lines, where all of what renders it
    /// was done; where it failed, the session stays as it was.
    pub fn finish_render(&mut self, succeeded: bool)
        requires
            old(self).wf(),
            succeeded ==> old(self)@.layout_fits(0),
        ensures
            final(self).wf(),
            final(self)@ == (if succeeded {
                old(self)@.rendered()
            } else {
                old(self)@
            }),
    {
        if succeeded {
            proof {
                reveal_strlit("");
            }
            let (cursor_row, _, total_lines) = self.cursor_layout("");
            self.rendered_cursor_row = cursor_row;
            self.rendered_lines = total_lines;
        }
    }

    /// What renders the session for the last time.
    pub fn finalize_render(&self, base_prompt: &str, vim_enabled: bool) -> (paint: Paint)
        requires
            self.wf(),
            self@.can_clear() ==> self@.selection_fits(),
        ensures
            paint@ == self@.finalize_paint(base_prompt@, vim_enabled),
    {
        let mut paint = self.clear_render();
        if paint.outcome.is_err() {
            return paint;
        }
        paint.print(self.prompt_and_buffer(base_prompt, vim_enabled));
        paint.print("\n");
        paint
    }
}

} // verus!
