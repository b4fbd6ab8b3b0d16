//! Reading one line: what follows from a key, or from a line that was read without a terminal.

use vstd::prelude::*;
use crate::editor::{KeyAction, LineEditor, ReadOutcome, Submission};
use crate::keys::KeyEvent;
use crate::model::{after_key, is_toggle, ActionView, EditorView};
use crate::session::{EditSession, SessionView};
use crate::terminal::{clear_paint, Paint, PaintView};
use crate::text::byte_len;
use crate::words::{strip_line_breaks, without_line_breaks};

verus! {

/// The model of [`ReadOutcome`].
#[verifier::ext_equal]
pub enum OutcomeView {
    Submit(Seq<char>),
    Cancel,
    Exit,
}

impl View for ReadOutcome {
    type V = OutcomeView;

    open spec fn view(&self) -> OutcomeView {
        match self {
            ReadOutcome::Submit(line) => OutcomeView::Submit(line@),
            ReadOutcome::Cancel => OutcomeView::Cancel,
            ReadOutcome::Exit => OutcomeView::Exit,
        }
    }
}

/// What comes after the terminal was painted.
#[derive(Debug, PartialEq, Eq)]
pub enum Next {
    /// The session was rendered, and the next key is read.
    ReadKey,
    /// Vim key bindings are switched, and the session starts anew.
    Toggle,
    /// Reading the line is over.
    Finish(ReadOutcome),
}

/// The model of [`Next`].
#[verifier::ext_equal]
pub enum NextView {
    ReadKey,
    Toggle,
    Finish(OutcomeView),
}

impl View for Next {
    type V = NextView;

    open spec fn view(&self) -> NextView {
        match self {
            Next::ReadKey => NextView::ReadKey,
            Next::Toggle => NextView::Toggle,
            Next::Finish(outcome) => NextView::Finish(outcome@),
        }
    }
}

/// What comes after the paint of an action.
pub open spec fn next_of(action: ActionView) -> NextView {
    match action {
        ActionView::Continue => NextView::ReadKey,
        ActionView::Submit(line) => NextView::Finish(OutcomeView::Submit(line)),
        ActionView::Cancel => NextView::Finish(OutcomeView::Cancel),
        ActionView::Exit => NextView::Finish(OutcomeView::Exit),
        ActionView::ToggleVim => NextView::Toggle,
    }
}

/// How the terminal is painted after an action.
pub open spec fn paint_of(e: EditorView, s: SessionView, action: ActionView) -> PaintView {
    match action {
        ActionView::Continue => s.render_paint(e.prompt, e.vim_enabled),
        ActionView::Submit(_) => s.finalize_paint(e.prompt, e.vim_enabled),
        ActionView::Cancel | ActionView::Exit => clear_paint(
            s.rendered_cursor_row as int,
        ).then_print("\n"@),
        ActionView::ToggleVim => clear_paint(s.rendered_cursor_row as int),
    }
}

/// Whether the session can be painted after an action: what is shown of it is cut out of the text
/// and, where it is to be edited further, laid out.
pub open spec fn action_fits(e: EditorView, s: SessionView, action: ActionView) -> bool {
    match action {
        ActionView::Continue => s.can_clear() ==> s.selection_fits() && s.layout_fits(
            s.prompt(e.prompt, e.vim_enabled).len() as int,
        ),
        ActionView::Submit(_) => s.can_clear() ==> s.selection_fits(),
        _ => true,
    }
}

/// Whether a new session can be laid out behind the prompt.
pub open spec fn start_fits(prompt: Seq<char>, vim_enabled: bool) -> bool {
    let fresh = SessionView::fresh(vim_enabled);
    fresh.layout_fits(fresh.prompt(prompt, vim_enabled).len() as int)
}

/// How a new session is painted.
pub open spec fn start_paint(prompt: Seq<char>, vim_enabled: bool) -> PaintView {
    SessionView::fresh(vim_enabled).render_paint(prompt, vim_enabled)
}

/// The editor and the session once an action was painted, and the outcome where reading the line is
/// over.  A switch of vim key bindings goes on with a new session.
pub open spec fn after_paint(e: EditorView, s: SessionView, next: NextView) -> (
    EditorView,
    SessionView,
    Option<OutcomeView>,
) {
    match next {
        NextView::ReadKey => (e, s.rendered(), None),
        NextView::Toggle => (e.toggled(), SessionView::fresh(!e.vim_enabled), None),
        NextView::Finish(outcome) => (e, s, Some(outcome)),
    }
}

/// How reading a line goes on.
#[derive(Debug, PartialEq, Eq)]
pub enum Progress {
    /// Painting failed: reading the line ends with that error.
    Fail,
    /// The next key is read.
    ReadKey,
    /// This is painted, and then the next key is read.
    Repaint(Paint),
    /// Reading the line is over.
    Finish(ReadOutcome),
}

/// The model of [`Progress`].
#[verifier::ext_equal]
pub enum ProgressView {
    Fail,
    ReadKey,
    Repaint(PaintView),
    Finish(OutcomeView),
}

impl View for Progress {
    type V = ProgressView;

    open spec fn view(&self) -> ProgressView {
        match self {
            Progress::Fail => ProgressView::Fail,
            Progress::ReadKey => ProgressView::ReadKey,
            Progress::Repaint(paint) => ProgressView::Repaint(paint@),
            Progress::Finish(outcome) => ProgressView::Finish(outcome@),
        }
    }
}

/// How reading a line goes on once an action was painted.  After a switch of vim key bindings the
/// message and the new session are painted.
pub open spec fn progress_of(e: EditorView, next: NextView) -> ProgressView {
    match next {
        NextView::ReadKey => ProgressView::ReadKey,
        NextView::Toggle => ProgressView::Repaint(
            PaintView::empty().then_print(toggle_message(!e.vim_enabled)).then_paint(
                start_paint(e.prompt, !e.vim_enabled),
            ),
        ),
        NextView::Finish(outcome) => ProgressView::Finish(outcome),
    }
}

/// Whether reading can go on: the lines of the session, or the new session, can be counted.
pub open spec fn next_fits(e: EditorView, s: SessionView, next: NextView) -> bool {
    match next {
        NextView::ReadKey => s.layout_fits(0),
        NextView::Toggle => start_fits(e.prompt, !e.vim_enabled),
        NextView::Finish(_) => true,
    }
}

/// The editor and the session after a key event, and the outcome where it ends the line, as long as
/// painting succeeds.  A release does nothing.
pub open spec fn after_event(e: EditorView, s: SessionView, key: KeyEvent) -> (
    EditorView,
    SessionView,
    Option<OutcomeView>,
) {
    if key.is_release() {
        (e, s, None)
    } else {
        let (e2, s2, action) = after_key(e, s, key);
        after_paint(e2, s2, next_of(action))
    }
}

/// The editor and the session after reading key events up to the one that ends the line, and the
/// outcome where one does, as long as painting succeeds.  What comes behind is not read.
pub open spec fn read_keys(e: EditorView, s: SessionView, keys: Seq<KeyEvent>) -> (
    EditorView,
    SessionView,
    Option<OutcomeView>,
)
    decreases keys.len(),
{
    if keys.len() == 0 {
        (e, s, None)
    } else {
        let (e2, s2, outcome) = read_keys(e, s, keys.drop_last());
        if outcome is Some {
            (e2, s2, outcome)
        } else {
            after_event(e2, s2, keys.last())
        }
    }
}

/// What is printed once vim key bindings were switched.
pub open spec fn toggle_message(vim_enabled: bool) -> Seq<char> {
    if vim_enabled {
        "Vim mode enabled.\n"@
    } else {
        "Vim mode disabled.\n"@
    }
}

/// What came of a line that was read without a terminal.
#[derive(Debug, PartialEq, Eq)]
pub enum FallbackStep {
    /// Reading the line is over.
    Finish(ReadOutcome),
    /// Vim key bindings were switched: this is printed, and another line is read.
    Toggled(String),
}

/// The model of [`FallbackStep`].
#[verifier::ext_equal]
pub enum FallbackView {
    Finish(OutcomeView),
    Toggled(Seq<char>),
}

impl View for FallbackStep {
    type V = FallbackView;

    open spec fn view(&self) -> FallbackView {
        match self {
            FallbackStep::Finish(outcome) => FallbackView::Finish(outcome@),
            FallbackStep::Toggled(message) => FallbackView::Toggled(message@),
        }
    }
}

/// What follows from reading `bytes_read` bytes of `buffer` without a terminal.
pub open spec fn after_fallback(e: EditorView, bytes_read: int, buffer: Seq<char>) -> (
    EditorView,
    FallbackView,
) {
    let line = without_line_breaks(buffer);
    if bytes_read == 0 {
        (e, FallbackView::Finish(OutcomeView::Exit))
    } else if is_toggle(line) {
        (e.toggled(), FallbackView::Toggled(toggle_message(!e.vim_enabled)))
    } else {
        (e, FallbackView::Finish(OutcomeView::Submit(line)))
    }
}

/// The editor after reading lines without a terminal, and the outcome.  Each of `lines` is read
/// with its line break, where it has one; behind the last comes the end of the input.
pub open spec fn read_lines(e: EditorView, lines: Seq<Seq<char>>) -> (EditorView, OutcomeView)
    decreases lines.len(),
{
    if lines.len() == 0 {
        (e, OutcomeView::Exit)
    } else {
        let (e2, step) = after_fallback(e, byte_len(lines[0]), lines[0]);
        match step {
            FallbackView::Finish(outcome) => (e2, outcome),
            FallbackView::Toggled(_) => read_lines(e2, lines.drop_first()),
        }
    }
}

impl LineEditor {
    /// Whether a new session can be laid out behind the prompt.
    pub fn can_start(&self, vim_enabled: bool) -> (result: bool)
        ensures
            result == start_fits(self@.prompt, vim_enabled),
    {
        EditSession::new(vim_enabled).can_lay_out(self.prompt.as_str(), vim_enabled)
    }

    /// A new session, and what renders it.
    pub fn start_session(&self) -> (result: (EditSession, Paint))
        requires
            start_fits(self@.prompt, self@.vim_enabled),
        ensures
            result.0.wf(),
            result.0@ == SessionView::fresh(self@.vim_enabled),
            result.1@ == start_paint(self@.prompt, self@.vim_enabled),
    {
        let session = EditSession::new(self.vim_enabled);
        let paint = session.render(self.prompt.as_str(), self.vim_enabled);
        (session, paint)
    }

    /// Whether [`react`](Self::react) can paint the session after the action.
    pub fn can_react(&self, session: &EditSession, action: &KeyAction) -> (result: bool)
        requires
            session.wf(),
        ensures
            result == action_fits(self@, session@, action@),
    {
        if session.rendered_cursor_row > 0xffff {
            return true;
        }
        match action {
            KeyAction::Continue => session.selection_in_text() && session.can_lay_out(
                self.prompt.as_str(),
                self.vim_enabled,
            ),
            KeyAction::Submit(_) => session.selection_in_text(),
            _ => true,
        }
    }

    /// What is done about an action: how the terminal is painted, and what comes then.
    pub fn react(&self, session: &EditSession, action: KeyAction) -> (result: (Paint, Next))
        requires
            session.wf(),
            action_fits(self@, session@, action@),
        ensures
            result.0@ == paint_of(self@, session@, action@),
            result.1@ == next_of(action@),
    {
        match action {
            KeyAction::Continue => {
                (session.render(self.prompt.as_str(), self.vim_enabled), Next::ReadKey)
            },
            KeyAction::Submit(line) => {
                (
                    session.finalize_render(self.prompt.as_str(), self.vim_enabled),
                    Next::Finish(ReadOutcome::Submit(line)),
                )
            },
            KeyAction::Cancel => {
                let mut paint = session.clear_render();
                paint.print("\n");
                (paint, Next::Finish(ReadOutcome::Cancel))
            },
            KeyAction::Exit => {
                let mut paint = session.clear_render();
                paint.print("\n");
                (paint, Next::Finish(ReadOutcome::Exit))
            },
            KeyAction::ToggleVim => (session.clear_render(), Next::Toggle),
        }
    }

    /// Switches vim key bindings, and returns the message that says so.
    pub fn toggle_vim(&mut self) -> (message: String)
        ensures
            final(self)@ == old(self)@.toggled(),
            message@ == toggle_message(final(self)@.vim_enabled),
    {
        self.vim_enabled = !self.vim_enabled;
        if self.vim_enabled {
            String::from("Vim mode enabled.\n")
        } else {
            String::from("Vim mode disabled.\n")
        }
    }

    /// Whether [`proceed`](Self::proceed) can go on.
    pub fn can_proceed(&self, session: &EditSession, next: &Next) -> (result: bool)
        ensures
            result == next_fits(self@, session@, next@),
    {
        match next {
            Next::ReadKey => session.layout_in_range(0),
            Next::Toggle => self.can_start(!self.vim_enabled),
            Next::Finish(_) => true,
        }
    }

    /// Goes on with reading the line, once what [`react`](Self::react) gave was painted, or failed
    /// to be: then nothing changes.
    pub fn proceed(&mut self, session: &mut EditSession, next: Next, painted: bool) -> (progress:
        Progress)
        requires
            old(session).wf(),
            painted ==> next_fits(old(self)@, old(session)@, next@),
        ensures
            final(session).wf(),
            painted ==> {
                let after = after_paint(old(self)@, old(session)@, next@);
                &&& final(self)@ == after.0
                &&& final(session)@ == after.1
                &&& progress@ == progress_of(old(self)@, next@)
                &&& after.2 == (match progress@ {
                    ProgressView::Finish(outcome) => Some(outcome),
                    _ => None,
                })
            },
            !painted ==> {
                &&& *final(self) == *old(self)
                &&& *final(session) == *old(session)
                &&& progress@ == ProgressView::Fail
            },
    {
        if !painted {
            return Progress::Fail;
        }
        match next {
            Next::ReadKey => {
                session.finish_render(true);
                Progress::ReadKey
            },
            Next::Toggle => {
                let message = self.toggle_vim();
                let (started, rendering) = self.start_session();
                let mut paint = Paint::new();
                paint.print(message);
                paint.add_paint(rendering);
                *session = started;
                Progress::Repaint(paint)
            },
            Next::Finish(outcome) => Progress::Finish(outcome),
        }
    }

    /// What follows from a line that was read without a terminal, where `bytes_read` is the number
    /// of bytes read; zero is the end of the input.
    pub fn read_fallback(&mut self, bytes_read: usize, buffer: String) -> (step: FallbackStep)
        ensures
            (final(self)@, step@) == after_fallback(old(self)@, bytes_read as int, buffer@),
    {
        if bytes_read == 0 {
            return FallbackStep::Finish(ReadOutcome::Exit);
        }
        let line = strip_line_breaks(buffer.as_str());
        match self.handle_submission(line) {
            Submission::ToggleVim => FallbackStep::Toggled(self.toggle_vim()),
            Submission::Submit => FallbackStep::Finish(ReadOutcome::Submit(line.to_owned())),
        }
    }
}

} // verus!
