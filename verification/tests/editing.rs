//! Editing, history and completion, through keys.

use line_editor::editor::{KeyAction, LineEditor, Submission};
use line_editor::keys::{KeyCode, KeyEvent, KeyEventKind, CONTROL, SHIFT};
use line_editor::session::{EditSession, EditorMode};

fn vim_editor() -> LineEditor {
    let mut editor = LineEditor::new("> ", vec![]);
    editor.vim_enabled = true;
    editor
}

fn session_with(vim: bool, text: &str, cursor: usize) -> EditSession {
    let mut session = EditSession::new(vim);
    session.text = text.to_string();
    session.cursor = cursor;
    session
}

fn normal_session(text: &str, cursor: usize) -> EditSession {
    let mut session = session_with(true, text, cursor);
    session.mode = EditorMode::Normal;
    session
}

fn press(editor: &mut LineEditor, session: &mut EditSession, code: KeyCode) -> KeyAction {
    let key = KeyEvent::new(code, 0);
    assert!(editor.accepts_key(session, key));
    editor.handle_key_event(session, key)
}

fn press_with(
    editor: &mut LineEditor,
    session: &mut EditSession,
    code: KeyCode,
    modifiers: u8,
) -> KeyAction {
    editor.handle_key_event(session, KeyEvent::new(code, modifiers))
}

fn type_all(editor: &mut LineEditor, session: &mut EditSession, text: &str) {
    for ch in text.chars() {
        assert_eq!(press(editor, session, KeyCode::Char(ch)), KeyAction::Continue);
    }
}

#[test]
fn modifiers_are_told_apart_by_their_bits() {
    let plain = KeyEvent::new(KeyCode::Enter, 0);
    let shift = KeyEvent::new(KeyCode::Enter, SHIFT);
    let control = KeyEvent::new(KeyCode::Enter, CONTROL);
    let both = KeyEvent::new(KeyCode::Enter, SHIFT | CONTROL | 0b100);
    assert!(!plain.has_shift() && !plain.has_control());
    assert!(shift.has_shift() && !shift.has_control());
    assert!(!control.has_shift() && control.has_control());
    assert!(both.has_shift() && both.has_control());
    assert_eq!(SHIFT, crossterm::event::KeyModifiers::SHIFT.bits());
    assert_eq!(CONTROL, crossterm::event::KeyModifiers::CONTROL.bits());
}

#[test]
fn releases_are_not_acted_on() {
    let mut key = KeyEvent::new(KeyCode::Enter, 0);
    assert!(key.is_down());
    key.kind = KeyEventKind::Repeat;
    assert!(key.is_down());
    key.kind = KeyEventKind::Release;
    assert!(!key.is_down());
}

#[test]
fn typing_and_backspace_undo_each_other() {
    let mut editor = LineEditor::new("> ", vec![]);
    let mut session = session_with(false, "aé", 1);
    type_all(&mut editor, &mut session, "€\u{1f600}");
    assert_eq!((session.text.as_str(), session.cursor), ("a€\u{1f600}é", 8));
    press(&mut editor, &mut session, KeyCode::Backspace);
    press(&mut editor, &mut session, KeyCode::Backspace);
    assert_eq!((session.text.as_str(), session.cursor), ("aé", 1));
    press(&mut editor, &mut session, KeyCode::Backspace);
    press(&mut editor, &mut session, KeyCode::Backspace);
    assert_eq!((session.text.as_str(), session.cursor), ("é", 0));
}

#[test]
fn delete_removes_the_character_at_the_cursor() {
    let mut editor = LineEditor::new("> ", vec![]);
    let mut session = session_with(false, "aéb", 1);
    press(&mut editor, &mut session, KeyCode::Delete);
    assert_eq!((session.text.as_str(), session.cursor), ("ab", 1));
    press_with(&mut editor, &mut session, KeyCode::Char('D'), CONTROL);
    assert_eq!((session.text.as_str(), session.cursor), ("a", 1));
    press(&mut editor, &mut session, KeyCode::Delete);
    assert_eq!((session.text.as_str(), session.cursor), ("a", 1));
    type_all(&mut editor, &mut session, "é");
    press(&mut editor, &mut session, KeyCode::Left);
    assert_eq!((session.text.as_str(), session.cursor), ("aé", 1));
}

#[test]
fn left_and_right_undo_each_other() {
    let mut editor = LineEditor::new("> ", vec![]);
    let mut session = session_with(false, "aé€", 1);
    press(&mut editor, &mut session, KeyCode::Right);
    assert_eq!(session.cursor, 3);
    press(&mut editor, &mut session, KeyCode::Left);
    assert_eq!(session.cursor, 1);
    press(&mut editor, &mut session, KeyCode::Left);
    press(&mut editor, &mut session, KeyCode::Left);
    assert_eq!(session.cursor, 0);
    press(&mut editor, &mut session, KeyCode::End);
    assert_eq!(session.cursor, 6);
    press(&mut editor, &mut session, KeyCode::Right);
    assert_eq!(session.cursor, 6);
    press(&mut editor, &mut session, KeyCode::Home);
    assert_eq!(session.cursor, 0);
    assert_eq!(session.text, "aé€");
}

#[test]
fn home_and_end_stay_on_the_line() {
    let mut editor = LineEditor::new("> ", vec![]);
    let mut session = session_with(false, "ab\ncd\nef", 4);
    press(&mut editor, &mut session, KeyCode::Home);
    assert_eq!(session.cursor, 3);
    press(&mut editor, &mut session, KeyCode::Home);
    assert_eq!(session.cursor, 3);
    press(&mut editor, &mut session, KeyCode::End);
    assert_eq!(session.cursor, 5);
    press(&mut editor, &mut session, KeyCode::End);
    assert_eq!(session.cursor, 5);
}

#[test]
fn interrupts_exit_only_without_input() {
    let mut editor = LineEditor::new("> ", vec![]);
    let mut empty = EditSession::new(false);
    for ch in ['c', 'C', 'd', 'D'] {
        let action = press_with(&mut editor, &mut empty, KeyCode::Char(ch), CONTROL);
        assert_eq!(action, KeyAction::Exit);
    }
    let mut session = session_with(false, "x", 1);
    let action = press_with(&mut editor, &mut session, KeyCode::Char('C'), CONTROL);
    assert_eq!(action, KeyAction::Cancel);
    let action = press_with(&mut editor, &mut session, KeyCode::Char('d'), CONTROL);
    assert_eq!(action, KeyAction::Continue);
    assert_eq!(session.text, "x");
}

#[test]
fn other_control_letters_are_typed() {
    let mut editor = LineEditor::new("> ", vec![]);
    let mut session = EditSession::new(false);
    let action = press_with(&mut editor, &mut session, KeyCode::Char('x'), CONTROL);
    assert_eq!(action, KeyAction::Continue);
    assert_eq!(session.text, "x");
    assert_eq!(press(&mut editor, &mut session, KeyCode::Other), KeyAction::Continue);
    assert_eq!(session.text, "x");
}

#[test]
fn newlines_are_typed_with_control_j_and_shift_enter() {
    let mut editor = vim_editor();
    let mut session = session_with(true, "ab", 1);
    press_with(&mut editor, &mut session, KeyCode::Char('j'), CONTROL);
    press_with(&mut editor, &mut session, KeyCode::Enter, SHIFT);
    assert_eq!((session.text.as_str(), session.cursor), ("a\n\nb", 3));
    session.mode = EditorMode::Normal;
    press_with(&mut editor, &mut session, KeyCode::Char('J'), CONTROL);
    press_with(&mut editor, &mut session, KeyCode::Enter, SHIFT);
    assert_eq!((session.text.as_str(), session.cursor), ("a\n\nb", 3));
}

#[test]
fn enter_submits_the_text_or_switches_vim() {
    let mut editor = LineEditor::new("> ", vec![]);
    let mut session = session_with(false, " hi ", 0);
    let action = press(&mut editor, &mut session, KeyCode::Enter);
    assert_eq!(action, KeyAction::Submit(" hi ".to_string()));
    let mut session = session_with(false, "\t/vim \n", 0);
    assert_eq!(press(&mut editor, &mut session, KeyCode::Enter), KeyAction::ToggleVim);
    assert_eq!(editor.handle_submission("/vim x"), Submission::Submit);
    assert_eq!(editor.handle_submission(""), Submission::Submit);
    assert!(!editor.vim_enabled);
}

#[test]
fn escape_goes_to_normal_mode_and_steps_left() {
    let mut editor = vim_editor();
    let mut session = session_with(true, "aé", 3);
    press(&mut editor, &mut session, KeyCode::Esc);
    assert_eq!((session.mode, session.cursor), (EditorMode::Normal, 1));
    press(&mut editor, &mut session, KeyCode::Esc);
    assert_eq!((session.mode, session.cursor), (EditorMode::Normal, 1));
    type_all(&mut editor, &mut session, "v");
    assert_eq!(session.visual_anchor, Some(1));
    press(&mut editor, &mut session, KeyCode::Esc);
    assert_eq!((session.mode, session.visual_anchor), (EditorMode::Normal, None));

    let mut plain_editor = LineEditor::new("> ", vec![]);
    let mut plain = session_with(false, "a", 1);
    press(&mut plain_editor, &mut plain, KeyCode::Esc);
    assert_eq!((plain.mode, plain.cursor), (EditorMode::Plain, 1));
}

#[test]
fn plain_sessions_stay_plain() {
    let mut editor = LineEditor::new("> ", vec!["/help".to_string()]);
    editor.push_history("old");
    let mut session = EditSession::new(false);
    let codes = [
        KeyCode::Char('v'),
        KeyCode::Char(':'),
        KeyCode::Esc,
        KeyCode::Up,
        KeyCode::Up,
        KeyCode::Down,
        KeyCode::Down,
        KeyCode::Tab,
        KeyCode::Home,
        KeyCode::Delete,
        KeyCode::Backspace,
    ];
    for code in codes {
        press(&mut editor, &mut session, code);
        assert_eq!(session.mode, EditorMode::Plain);
    }
}

#[test]
fn commands_keep_their_colon_and_the_input() {
    let mut editor = vim_editor();
    let mut session = normal_session("input", 2);
    type_all(&mut editor, &mut session, ":wé");
    assert_eq!((session.command_buffer.as_str(), session.command_cursor), (":wé", 4));
    press(&mut editor, &mut session, KeyCode::Left);
    press(&mut editor, &mut session, KeyCode::Left);
    press(&mut editor, &mut session, KeyCode::Left);
    assert_eq!(session.command_cursor, 1);
    press(&mut editor, &mut session, KeyCode::Delete);
    assert_eq!(session.command_buffer, ":é");
    press(&mut editor, &mut session, KeyCode::End);
    assert_eq!(session.command_cursor, 3);
    press(&mut editor, &mut session, KeyCode::Home);
    assert_eq!(session.command_cursor, 1);
    press(&mut editor, &mut session, KeyCode::Up);
    press(&mut editor, &mut session, KeyCode::Down);
    press(&mut editor, &mut session, KeyCode::Tab);
    assert_eq!(session.mode, EditorMode::Command);
    assert_eq!((session.text.as_str(), session.cursor), ("input", 2));
    press(&mut editor, &mut session, KeyCode::Backspace);
    assert_eq!(session.mode, EditorMode::Normal);
    assert_eq!((session.command_buffer.as_str(), session.command_cursor), ("", 0));
    type_all(&mut editor, &mut session, ":ab");
    press(&mut editor, &mut session, KeyCode::Backspace);
    assert_eq!(session.command_buffer, ":a");
    press(&mut editor, &mut session, KeyCode::Esc);
    assert_eq!((session.mode, session.text.as_str()), (EditorMode::Normal, "input"));
}

#[test]
fn an_operator_waits_for_its_second_character() {
    let mut editor = vim_editor();
    let mut session = normal_session("a\nb", 0);
    type_all(&mut editor, &mut session, "d");
    assert_eq!(session.pending_operator, Some('d'));
    type_all(&mut editor, &mut session, "y");
    assert_eq!(session.pending_operator, Some('y'));
    type_all(&mut editor, &mut session, "l");
    assert_eq!((session.pending_operator, session.cursor), (None, 1));
    type_all(&mut editor, &mut session, "x");
    assert_eq!(session.text, "a\nb");
}

#[test]
fn deleting_a_line_yanks_it() {
    let mut editor = vim_editor();
    let mut session = normal_session("é\nb\nc", 3);
    type_all(&mut editor, &mut session, "dd");
    assert_eq!((session.text.as_str(), session.cursor), ("é\nc", 3));
    assert_eq!(editor.yank_buffer.text, "b\n");
    assert!(editor.yank_buffer.linewise);
    type_all(&mut editor, &mut session, "dd");
    assert_eq!((session.text.as_str(), session.cursor), ("é", 2));
    assert_eq!(editor.yank_buffer.text, "c");
    type_all(&mut editor, &mut session, "dd");
    assert_eq!((session.text.as_str(), session.cursor), ("", 0));
    assert_eq!(editor.yank_buffer.text, "é");
}

#[test]
fn deleting_above_an_empty_last_line_takes_that_too() {
    let mut editor = vim_editor();
    let mut session = normal_session("a\nb\n", 2);
    type_all(&mut editor, &mut session, "dd");
    assert_eq!((session.text.as_str(), session.cursor), ("a", 1));
    assert_eq!(editor.yank_buffer.text, "b\n");
}

#[test]
fn yanking_a_line_copies_it_below() {
    let mut editor = vim_editor();
    let mut session = normal_session("a\nbé", 3);
    type_all(&mut editor, &mut session, "yy");
    assert_eq!((session.text.as_str(), session.cursor), ("a\nbé", 3));
    type_all(&mut editor, &mut session, "p");
    assert_eq!((session.text.as_str(), session.cursor), ("a\nbé\nbé", 6));
    type_all(&mut editor, &mut session, "kkyyp");
    assert_eq!((session.text.as_str(), session.cursor), ("a\na\nbé\nbé", 2));
}

#[test]
fn pasting_an_empty_line_goes_one_line_further() {
    let mut editor = vim_editor();
    let mut session = normal_session("a\n\nb", 2);
    type_all(&mut editor, &mut session, "yyp");
    assert_eq!((session.text.as_str(), session.cursor), ("a\n\n\nb", 4));
}

#[test]
fn pasting_nothing_changes_nothing() {
    let mut editor = vim_editor();
    let mut session = normal_session("a\n", 2);
    type_all(&mut editor, &mut session, "yyp");
    assert_eq!((session.text.as_str(), session.cursor), ("a\n", 2));
}

#[test]
fn pasted_text_goes_behind_the_cursor() {
    let mut editor = vim_editor();
    editor.yank_buffer.text = "xy".to_string();
    let mut session = normal_session("éb", 0);
    type_all(&mut editor, &mut session, "p");
    assert_eq!((session.text.as_str(), session.cursor), ("éxyb", 4));
    session.cursor = 5;
    type_all(&mut editor, &mut session, "p");
    assert_eq!((session.text.as_str(), session.cursor), ("éxybxy", 7));
}

#[test]
fn down_and_up_come_back() {
    let mut editor = vim_editor();
    let mut session = normal_session("abc\nxé\nwxyz", 1);
    type_all(&mut editor, &mut session, "jk");
    assert_eq!(session.cursor, 1);
    session.cursor = 3;
    type_all(&mut editor, &mut session, "j");
    assert_eq!(session.cursor, 7);
    type_all(&mut editor, &mut session, "k");
    assert_eq!(session.cursor, 2);
    type_all(&mut editor, &mut session, "k");
    assert_eq!(session.cursor, 2);
}

#[test]
fn backspace_moves_left_in_normal_and_visual_mode() {
    let mut editor = vim_editor();
    let mut session = normal_session("aé", 3);
    press(&mut editor, &mut session, KeyCode::Backspace);
    assert_eq!((session.text.as_str(), session.cursor), ("aé", 1));
    type_all(&mut editor, &mut session, "v");
    press(&mut editor, &mut session, KeyCode::Backspace);
    assert_eq!((session.mode, session.cursor), (EditorMode::Visual, 0));
    type_all(&mut editor, &mut session, "v");
    assert_eq!(session.mode, EditorMode::Normal);
}

#[test]
fn history_goes_up_and_gives_the_input_back() {
    let mut editor = LineEditor::new("> ", vec![]);
    editor.push_history("one");
    editor.push_history("  \n");
    editor.push_history("twoé".to_string());
    let mut session = session_with(false, "draft", 2);
    press(&mut editor, &mut session, KeyCode::Up);
    assert_eq!((session.text.as_str(), session.cursor), ("twoé", 5));
    assert_eq!(session.history_backup.as_deref(), Some("draft"));
    press(&mut editor, &mut session, KeyCode::Up);
    press(&mut editor, &mut session, KeyCode::Up);
    assert_eq!((session.text.as_str(), session.history_index), ("one", Some(0)));
    press(&mut editor, &mut session, KeyCode::Down);
    assert_eq!(session.text, "twoé");
    press(&mut editor, &mut session, KeyCode::Down);
    assert_eq!((session.text.as_str(), session.cursor), ("draft", 5));
    assert_eq!((session.history_index, session.history_backup.clone()), (None, None));
    press(&mut editor, &mut session, KeyCode::Down);
    assert_eq!(session.text, "draft");
}

#[test]
fn history_without_entries_leaves_the_text() {
    let mut editor = LineEditor::new("> ", vec![]);
    let mut session = session_with(false, "draft", 2);
    press(&mut editor, &mut session, KeyCode::Up);
    press(&mut editor, &mut session, KeyCode::Down);
    assert_eq!((session.text.as_str(), session.cursor), ("draft", 2));
}

#[test]
fn history_leaves_visual_mode_and_returns_to_insert_mode() {
    let mut editor = vim_editor();
    editor.push_history("old");
    let mut session = normal_session("draft", 2);
    type_all(&mut editor, &mut session, "v");
    press(&mut editor, &mut session, KeyCode::Up);
    assert_eq!((session.mode, session.visual_anchor), (EditorMode::Normal, None));
    press(&mut editor, &mut session, KeyCode::Down);
    assert_eq!((session.mode, session.text.as_str()), (EditorMode::Insert, "draft"));
}

#[test]
fn keys_out_of_range_are_not_accepted() {
    let mut editor = LineEditor::new("> ", vec![]);
    editor.push_history("one");
    let mut session = EditSession::new(false);
    session.history_index = Some(1);
    assert!(editor.accepts_key(&session, KeyEvent::new(KeyCode::Up, 0)));
    session.history_index = Some(2);
    assert!(!editor.accepts_key(&session, KeyEvent::new(KeyCode::Up, 0)));
    assert!(editor.accepts_key(&session, KeyEvent::new(KeyCode::Down, 0)));
    session.history_index = Some(usize::MAX);
    assert!(!editor.accepts_key(&session, KeyEvent::new(KeyCode::Down, 0)));
    session.mode = EditorMode::Command;
    assert!(editor.accepts_key(&session, KeyEvent::new(KeyCode::Down, 0)));
}

#[test]
fn tab_goes_round_the_completions() {
    let mut editor = LineEditor::new(
        "> ",
        vec!["/model".to_string(), "/help".to_string(), "/memory".to_string()],
    );
    let mut session = session_with(false, "/m", 2);
    let mut shown = Vec::new();
    for _ in 0..5 {
        press(&mut editor, &mut session, KeyCode::Tab);
        assert_eq!(session.cursor, session.text.len());
        shown.push(session.text.clone());
    }
    assert_eq!(shown, vec!["/model", "/memory", "/model", "/memory", "/model"]);
    let state = editor.completion_state.clone().unwrap();
    assert_eq!((state.prefix.as_str(), state.next_index), ("/m", 5));
    press(&mut editor, &mut session, KeyCode::Left);
    assert_eq!(editor.completion_state, None);
}

#[test]
fn tab_repeats_a_completion_of_the_same_text() {
    let mut editor = LineEditor::new("> ", vec!["/aa".to_string(), "/ab".to_string()]);
    let mut session = session_with(false, "/a", 2);
    editor.complete_slash_command(&mut session);
    session.text = "/a".to_string();
    session.cursor = 2;
    editor.complete_slash_command(&mut session);
    assert_eq!(session.text, "/ab");
}

#[test]
fn tab_leaves_other_texts_alone() {
    let mut editor = LineEditor::new("> ", vec!["/help".to_string()]);
    for (text, cursor) in [("he", 2), ("/help", 5), ("/x", 2), ("/he", 2), ("/he me", 6), ("", 0)] {
        let mut session = session_with(false, text, cursor);
        press(&mut editor, &mut session, KeyCode::Tab);
        assert_eq!((session.text.as_str(), session.cursor), (text, cursor));
        assert_eq!(editor.completion_state, None);
    }
}

#[test]
fn commands_and_selections_come_back() {
    let mut editor = vim_editor();
    let mut session = normal_session("aé", 1);
    let before = session.clone();
    type_all(&mut editor, &mut session, ":");
    press(&mut editor, &mut session, KeyCode::Esc);
    assert_eq!(session, before);
    type_all(&mut editor, &mut session, ":");
    press(&mut editor, &mut session, KeyCode::Backspace);
    assert_eq!(session, before);
    type_all(&mut editor, &mut session, "vv");
    assert_eq!(session, before);
    type_all(&mut editor, &mut session, "v");
    press(&mut editor, &mut session, KeyCode::Esc);
    assert_eq!(session, before);
}

#[test]
fn whatever_is_pressed_the_cursors_stay_between_characters() {
    let codes = [
        KeyCode::Backspace,
        KeyCode::Left,
        KeyCode::Right,
        KeyCode::Up,
        KeyCode::Down,
        KeyCode::Home,
        KeyCode::End,
        KeyCode::Tab,
        KeyCode::Delete,
        KeyCode::Esc,
        KeyCode::Other,
        KeyCode::Char('é'),
        KeyCode::Char('€'),
        KeyCode::Char('\u{1f600}'),
        KeyCode::Char('/'),
        KeyCode::Char('h'),
        KeyCode::Char('j'),
        KeyCode::Char('k'),
        KeyCode::Char('l'),
        KeyCode::Char('d'),
        KeyCode::Char('y'),
        KeyCode::Char('p'),
        KeyCode::Char('i'),
        KeyCode::Char('v'),
        KeyCode::Char(':'),
        KeyCode::Enter,
    ];
    let mut state: u64 = 7;
    for vim in [false, true] {
        let mut editor = LineEditor::new("> ", vec!["/hé".to_string(), "/h€".to_string()]);
        editor.vim_enabled = vim;
        editor.push_history("é\n€");
        editor.push_history("old");
        let mut session = EditSession::new(vim);
        for _ in 0..20_000 {
            state = state.wrapping_mul(6364136223846793005).wrapping_add(1442695040888963407);
            let code = codes[(state >> 33) as usize % codes.len()];
            let modifiers = match (state >> 20) % 8 {
                0 => CONTROL,
                1 => SHIFT,
                _ => 0,
            };
            let key = KeyEvent::new(code, modifiers);
            assert!(editor.accepts_key(&session, key));
            let input = session.text.clone();
            let in_command = session.mode == EditorMode::Command;
            editor.handle_key_event(&mut session, key);

            assert!(session.text.is_char_boundary(session.cursor));
            assert!(session.command_buffer.is_char_boundary(session.command_cursor));
            assert_eq!(session.mode == EditorMode::Plain, !vim);
            assert_eq!(session.visual_anchor.is_some(), session.mode == EditorMode::Visual);
            assert!(session.pending_operator.is_none() || session.mode == EditorMode::Normal);
            if session.mode == EditorMode::Command {
                assert!(session.command_buffer.starts_with(':'));
                assert!(session.command_cursor >= 1);
            }
            if in_command {
                assert_eq!(session.text, input);
            }
            if code != KeyCode::Tab {
                assert!(editor.completion_state.is_none());
            }
            if session.text.len() > 400 {
                session = EditSession::new(vim);
            }
        }
    }
}
