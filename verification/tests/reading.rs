//! What is painted, and how reading a line goes on.

use line_editor::editor::{KeyAction, LineEditor, ReadOutcome, YankBuffer};
use line_editor::keys::{KeyCode, KeyEvent, KeyEventKind, CONTROL};
use line_editor::reading::{FallbackStep, Next, Progress};
use line_editor::session::{EditSession, EditorMode};
use line_editor::terminal::{to_u16, Paint, PositionOverflow, TerminalOp};

fn session_at(text: &str, cursor: usize) -> EditSession {
    let mut session = EditSession::new(false);
    session.text = text.to_string();
    session.cursor = cursor;
    session
}

fn print(text: &str) -> TerminalOp {
    TerminalOp::Print(text.to_string())
}

#[test]
fn new_editors_hold_nothing_but_their_settings() {
    let editor = LineEditor::new("> ".to_string(), vec!["/help".to_string()]);
    assert_eq!(editor.prompt, "> ");
    assert_eq!(editor.completions, vec!["/help".to_string()]);
    assert!(editor.history.is_empty());
    assert_eq!(editor.yank_buffer, YankBuffer::default());
    assert_eq!(editor.yank_buffer.text, "");
    assert!(!editor.yank_buffer.linewise);
    assert!(!editor.vim_enabled);
    assert!(editor.completion_state.is_none());
}

#[test]
fn new_sessions_are_empty() {
    let session = EditSession::new(true);
    assert_eq!(session.mode, EditorMode::Insert);
    assert_eq!((session.text.as_str(), session.cursor), ("", 0));
    assert_eq!((session.rendered_cursor_row, session.rendered_lines), (0, 1));
    assert_eq!(EditSession::new(false).mode, EditorMode::Plain);
    assert!(!session.has_input());
    assert_eq!(session.current_len(), 0);
    assert_eq!(session_at("é", 0).current_len(), 2);
    assert_eq!(session_at("é", 0).current_line(), "é");
}

#[test]
fn positions_fit_in_sixteen_bits() {
    assert_eq!(to_u16(0), Ok(0));
    assert_eq!(to_u16(65535), Ok(65535));
    assert_eq!(to_u16(65536), Err(PositionOverflow));
    assert_eq!(PositionOverflow.message(), "terminal position overflowed u16");
}

#[test]
fn the_prompt_shows_the_mode_with_vim_key_bindings() {
    let mut session = EditSession::new(true);
    assert_eq!(session.prompt("> ", true), "[INSERT] > ");
    assert_eq!(session.prompt("> ", false), "> ");
    session.enter_normal_mode();
    assert_eq!(session.prompt("> ", true), "[NORMAL] > ");
    session.enter_visual_mode();
    assert_eq!(session.prompt("> ", true), "[VISUAL] > ");
    session.enter_command_mode();
    assert_eq!(session.prompt("> ", true), "[COMMAND] > ");
    assert_eq!(EditorMode::Plain.indicator(true), Some("PLAIN"));
    assert_eq!(EditorMode::Plain.indicator(false), None);
}

#[test]
fn the_layout_counts_characters() {
    let session = session_at("é€\nab\nc", 7);
    assert_eq!(session.cursor_layout("> "), (1, 1, 3));
    assert_eq!(session_at("é€\nab\nc", 5).cursor_layout("é>"), (0, 4, 3));
    assert_eq!(session_at("", 0).cursor_layout("> "), (0, 2, 1));
}

#[test]
fn rendering_places_the_cursor() {
    let mut session = session_at("ab\ncd\nef", 4);
    session.rendered_cursor_row = 2;
    let paint = session.render("> ", false);
    assert_eq!(
        paint,
        Paint {
            ops: vec![
                TerminalOp::MoveUp(2),
                TerminalOp::MoveToColumn(0),
                TerminalOp::ClearFromCursorDown,
                TerminalOp::Flush,
                print("> ab\ncd\nef"),
                TerminalOp::MoveUp(1),
                TerminalOp::MoveToColumn(1),
                TerminalOp::Flush,
            ],
            outcome: Ok(()),
        }
    );
    assert_eq!(session.rendered_cursor_row, 2);
    session.finish_render(true);
    assert_eq!((session.rendered_cursor_row, session.rendered_lines), (1, 3));
    assert_eq!(
        session.clear_render().ops,
        vec![
            TerminalOp::MoveUp(1),
            TerminalOp::MoveToColumn(0),
            TerminalOp::ClearFromCursorDown,
            TerminalOp::Flush,
        ]
    );
}

#[test]
fn a_column_that_overflows_ends_the_painting() {
    let mut session = session_at(&"x".repeat(65534), 65534);
    let paint = session.render("> ", false);
    assert_eq!(paint.outcome, Err(PositionOverflow));
    assert_eq!(paint.ops.len(), 4);
    assert!(matches!(paint.ops[3], TerminalOp::Print(_)));
    session.finish_render(paint.outcome.is_ok());
    assert_eq!((session.rendered_cursor_row, session.rendered_lines), (0, 1));
}

#[test]
fn a_rendering_that_failed_is_not_remembered() {
    let mut session = session_at("ab\ncd", 4);
    session.rendered_cursor_row = 3;
    session.rendered_lines = 5;
    let before = session.clone();
    session.finish_render(false);
    assert_eq!(session, before);
    session.finish_render(true);
    assert_eq!((session.rendered_cursor_row, session.rendered_lines), (1, 2));
    assert_eq!((session.text.as_str(), session.cursor), ("ab\ncd", 4));
}

#[test]
fn a_row_that_overflows_is_not_cleared() {
    let mut session = session_at("x", 0);
    session.rendered_cursor_row = 65536;
    let paint = session.render("> ", false);
    assert_eq!((paint.ops.len(), paint.outcome), (0, Err(PositionOverflow)));
    let paint = session.finalize_render("> ", false);
    assert_eq!((paint.ops.len(), paint.outcome), (0, Err(PositionOverflow)));
    assert_eq!(session.rendered_cursor_row, 65536);
}

#[test]
fn visual_mode_shows_the_selection() {
    let mut session = session_at("aé€", 1);
    session.enter_visual_mode();
    assert_eq!(session.visible_buffer(), "a\x1b[7mé\x1b[0m€");
    session.cursor = 0;
    assert!(session.selection_in_text());
    assert_eq!(session.visible_buffer(), "\x1b[7maé\x1b[0m€");
    session.cursor = 6;
    assert_eq!(session.visible_buffer(), "a\x1b[7mé€\x1b[0m");
    session.visual_anchor = None;
    assert_eq!(session.visible_buffer(), "aé€");
    session.enter_command_mode();
    assert_eq!(session.visible_buffer(), ":");
}

#[test]
fn an_anchor_inside_a_character_is_noticed() {
    let mut session = session_at("aé", 0);
    session.mode = EditorMode::Visual;
    session.visual_anchor = Some(2);
    assert!(!session.selection_in_text());
    session.cursor = 3;
    assert!(session.selection_in_text());
    assert_eq!(session.visible_buffer(), "aé");
    session.cursor = 0;
    session.visual_anchor = Some(7);
    assert!(session.selection_in_text());
    session.mode = EditorMode::Normal;
    session.visual_anchor = Some(2);
    assert!(session.selection_in_text());
}

#[test]
fn a_session_starts_with_its_prompt() {
    let mut editor = LineEditor::new("> ", vec![]);
    editor.vim_enabled = true;
    let (session, paint) = editor.start_session();
    assert_eq!(session, EditSession::new(true));
    assert_eq!(
        paint.ops,
        vec![
            TerminalOp::MoveToColumn(0),
            TerminalOp::ClearFromCursorDown,
            TerminalOp::Flush,
            print("[INSERT] > "),
            TerminalOp::MoveToColumn(11),
            TerminalOp::Flush,
        ]
    );
}

#[test]
fn actions_lead_to_what_comes_next() {
    let editor = LineEditor::new("> ", vec![]);
    let clear = || {
        vec![TerminalOp::MoveToColumn(0), TerminalOp::ClearFromCursorDown, TerminalOp::Flush]
    };

    let session = session_at("hi", 2);
    let (paint, next) = editor.react(&session, KeyAction::Continue);
    assert_eq!(next, Next::ReadKey);
    assert_eq!(paint.ops[3], print("> hi"));
    assert_eq!(paint.ops[4], TerminalOp::MoveToColumn(4));

    let (paint, next) = editor.react(&session, KeyAction::Submit("hi".to_string()));
    assert_eq!(next, Next::Finish(ReadOutcome::Submit("hi".to_string())));
    let mut expected = clear();
    expected.push(print("> hi"));
    expected.push(print("\n"));
    assert_eq!(paint.ops, expected);

    for (action, outcome) in
        [(KeyAction::Cancel, ReadOutcome::Cancel), (KeyAction::Exit, ReadOutcome::Exit)]
    {
        let (paint, next) = editor.react(&session, action);
        assert_eq!(next, Next::Finish(outcome));
        let mut expected = clear();
        expected.push(print("\n"));
        assert_eq!(paint.ops, expected);
    }

    let (paint, next) = editor.react(&session, KeyAction::ToggleVim);
    assert_eq!(next, Next::Toggle);
    assert_eq!(paint.ops, clear());
}

#[test]
fn toggling_twice_comes_back() {
    let mut editor = LineEditor::new("> ", vec![]);
    assert_eq!(editor.toggle_vim(), "Vim mode enabled.\n");
    assert!(editor.vim_enabled);
    assert_eq!(editor.toggle_vim(), "Vim mode disabled.\n");
    assert!(!editor.vim_enabled);
}

#[test]
fn lines_read_without_a_terminal_lose_their_line_break() {
    let mut editor = LineEditor::new("> ", vec![]);
    assert_eq!(
        editor.read_fallback(6, "hi\n \r\n".to_string()),
        FallbackStep::Finish(ReadOutcome::Submit("hi\n ".to_string()))
    );
    assert_eq!(
        editor.read_fallback(1, "\n".to_string()),
        FallbackStep::Finish(ReadOutcome::Submit(String::new()))
    );
    assert_eq!(
        editor.read_fallback(0, String::new()),
        FallbackStep::Finish(ReadOutcome::Exit)
    );
    assert_eq!(
        editor.read_fallback(7, " /vim \n".to_string()),
        FallbackStep::Toggled("Vim mode enabled.\n".to_string())
    );
    assert!(editor.vim_enabled);
    assert_eq!(
        editor.read_fallback(5, "/vim\n".to_string()),
        FallbackStep::Toggled("Vim mode disabled.\n".to_string())
    );
    assert!(!editor.vim_enabled);
}

#[test]
fn reading_goes_on_once_an_action_was_painted() {
    let mut editor = LineEditor::new("> ", vec![]);
    let mut session = session_at("ab\ncd", 4);
    assert!(editor.can_proceed(&session, &Next::ReadKey));
    assert_eq!(editor.proceed(&mut session, Next::ReadKey, true), Progress::ReadKey);
    assert_eq!((session.rendered_cursor_row, session.rendered_lines), (1, 2));

    let before = session.clone();
    assert_eq!(editor.proceed(&mut session, Next::Toggle, false), Progress::Fail);
    assert_eq!(session, before);
    assert!(!editor.vim_enabled);

    assert!(editor.can_proceed(&session, &Next::Toggle));
    let progress = editor.proceed(&mut session, Next::Toggle, true);
    assert!(editor.vim_enabled);
    assert_eq!(session, EditSession::new(true));
    assert_eq!(
        progress,
        Progress::Repaint(Paint {
            ops: vec![
                print("Vim mode enabled.\n"),
                TerminalOp::MoveToColumn(0),
                TerminalOp::ClearFromCursorDown,
                TerminalOp::Flush,
                print("[INSERT] > "),
                TerminalOp::MoveToColumn(11),
                TerminalOp::Flush,
            ],
            outcome: Ok(()),
        })
    );

    let next = Next::Finish(ReadOutcome::Cancel);
    assert_eq!(editor.proceed(&mut session, next, true), Progress::Finish(ReadOutcome::Cancel));
}

#[test]
fn actions_that_cannot_be_painted_are_noticed() {
    let mut editor = LineEditor::new("> ", vec![]);
    assert!(editor.can_start(true));
    editor.vim_enabled = true;
    let mut session = session_at("aé", 0);
    session.mode = EditorMode::Visual;
    session.visual_anchor = Some(2);
    assert!(!editor.can_react(&session, &KeyAction::Continue));
    assert!(!editor.can_react(&session, &KeyAction::Submit("aé".to_string())));
    assert!(editor.can_react(&session, &KeyAction::Cancel));
    assert!(editor.can_react(&session, &KeyAction::Exit));
    assert!(editor.can_react(&session, &KeyAction::ToggleVim));
    session.rendered_cursor_row = 65536;
    assert!(editor.can_react(&session, &KeyAction::Continue));
    session.rendered_cursor_row = 0;
    session.visual_anchor = Some(1);
    assert!(editor.can_react(&session, &KeyAction::Continue));
    assert!(session.can_lay_out("> ", true));
    assert!(!session.layout_in_range(usize::MAX - 2));
    assert!(session.layout_in_range(usize::MAX - 3));
}

/// Reads key events as if everything were painted, and counts those that were read.
fn read(editor: &mut LineEditor, keys: &[KeyEvent]) -> (Option<ReadOutcome>, usize) {
    let (mut session, _) = editor.start_session();
    for (i, key) in keys.iter().enumerate() {
        let Some(action) = editor.press_key(&mut session, *key) else {
            continue;
        };
        assert!(editor.can_react(&session, &action));
        let (_, next) = editor.react(&session, action);
        if let Progress::Finish(outcome) = editor.proceed(&mut session, next, true) {
            return (Some(outcome), i + 1);
        }
    }
    (None, keys.len())
}

fn keys_for(text: &str) -> Vec<KeyEvent> {
    text.chars().map(|ch| KeyEvent::new(KeyCode::Char(ch), 0)).collect()
}

#[test]
fn a_line_ends_with_the_first_key_that_ends_it() {
    let enter = KeyEvent::new(KeyCode::Enter, 0);
    let mut released = KeyEvent::new(KeyCode::Char('x'), 0);
    released.kind = KeyEventKind::Release;

    let mut editor = LineEditor::new("> ", vec!["/help".to_string()]);
    editor.push_history("old");
    let mut keys = keys_for("/vim");
    keys.push(released);
    keys.push(enter);
    keys.extend(keys_for("hi"));
    keys.push(enter);
    keys.extend(keys_for("unread"));
    let (outcome, count) = read(&mut editor, &keys);
    assert_eq!((outcome, count), (Some(ReadOutcome::Submit("hi".to_string())), 9));
    assert!(editor.vim_enabled);
    assert_eq!(editor.history, vec!["old".to_string()]);
    assert_eq!((editor.prompt.as_str(), editor.completions.len()), ("> ", 1));

    let interrupt = KeyEvent::new(KeyCode::Char('c'), CONTROL);
    assert_eq!(read(&mut editor, &[interrupt]), (Some(ReadOutcome::Exit), 1));
    let mut keys = keys_for("a");
    keys.push(interrupt);
    assert_eq!(read(&mut editor, &keys), (Some(ReadOutcome::Cancel), 2));
    assert_eq!(read(&mut editor, &keys_for("ab")), (None, 2));
}

#[test]
fn toggle_lines_without_a_terminal_flip_vim_each() {
    let mut editor = LineEditor::new("> ", vec![]);
    for line in ["/vim\n", " /vim\r\n", "/vim"] {
        let step = editor.read_fallback(line.len(), line.to_string());
        assert!(matches!(step, FallbackStep::Toggled(_)));
    }
    assert!(editor.vim_enabled);
    assert_eq!(
        editor.read_fallback(3, "hi\n".to_string()),
        FallbackStep::Finish(ReadOutcome::Submit("hi".to_string()))
    );
    assert!(editor.vim_enabled);
}

#[test]
fn painting_a_new_session_changes_nothing_of_it() {
    let mut editor = LineEditor::new("> ", vec![]);
    for vim_enabled in [false, true] {
        editor.vim_enabled = vim_enabled;
        let (mut session, _) = editor.start_session();
        assert_eq!(editor.proceed(&mut session, Next::ReadKey, true), Progress::ReadKey);
        assert_eq!(session, EditSession::new(vim_enabled));
    }
}

#[test]
fn every_key_is_accepted_while_a_line_is_read() {
    let mut editor = LineEditor::new("> ", vec!["/help".to_string(), "/hello".to_string()]);
    editor.push_history("first");
    editor.push_history("second");
    let mut session = EditSession::new(false);
    let codes = [
        KeyCode::Up,
        KeyCode::Up,
        KeyCode::Up,
        KeyCode::Down,
        KeyCode::Down,
        KeyCode::Down,
        KeyCode::Char('/'),
        KeyCode::Tab,
        KeyCode::Tab,
        KeyCode::Tab,
        KeyCode::Up,
    ];
    for code in codes {
        let key = KeyEvent { code, modifiers: 0, kind: KeyEventKind::Press };
        assert!(editor.accepts_key(&session, key));
        assert_eq!(editor.press_key(&mut session, key), Some(KeyAction::Continue));
    }
    assert_eq!(session.text, "second");
}
