//! What each key does, in each mode, said of the texts and the fields themselves.

use vstd::prelude::*;
use vstd::utf8::encode_utf8;
use crate::keys::{KeyCode, KeyEvent, KeyEventKind};
use crate::line_laws::{
    cut, law_every_cursor_is_on_a_line, law_lines_are_counted, law_newline_separates,
    law_single_line, law_vertical_places, lemma_cut, lemma_place, lines_of, place,
};
use crate::lines::{lemma_row_monotone, line_after_index, line_delete_index};
use crate::model::{
    after_char, after_down, after_key, after_normal_char, after_up, key_fits, pasted_line,
    ActionView, EditorView,
};
use crate::session::{EditorMode, SessionView};
use crate::text::{inserted, lemma_offset_ends, lemma_offset_monotone, removed};
use crate::word_laws::{law_only_vim_switches, vim_alone_at};

verus! {

/// What is being edited: the command in command mode, the input in any other.
pub open spec fn buffer(s: SessionView) -> Seq<char> {
    match s.mode {
        EditorMode::Command => s.command_buffer,
        _ => s.text,
    }
}

/// The index of the cursor in what is being edited.
pub open spec fn point(s: SessionView) -> int {
    match s.mode {
        EditorMode::Command => s.command_cursor,
        _ => s.cursor,
    }
}

/// `s` with `text` in place of what is being edited, and the cursor at `cursor` in it.
pub open spec fn edited(s: SessionView, text: Seq<char>, cursor: int) -> SessionView {
    match s.mode {
        EditorMode::Command => SessionView { command_buffer: text, command_cursor: cursor, ..s },
        _ => SessionView { text, cursor, ..s },
    }
}

/// Whether characters are typed in this mode.
pub open spec fn takes_text(mode: EditorMode) -> bool {
    mode is Plain || mode is Insert || mode is Command
}

/// `e` with no completion in progress.
pub open spec fn at_rest(e: EditorView) -> EditorView {
    EditorView { completion: None, ..e }
}

/// Whether the control key was held: the second of the modifier bits.
pub open spec fn with_control(key: KeyEvent) -> bool {
    key.modifiers & 0b10u8 == 0b10u8
}

/// Whether the shift key was held: the first of the modifier bits.
pub open spec fn with_shift(key: KeyEvent) -> bool {
    key.modifiers & 0b1u8 == 0b1u8
}

/// Whether the key is the character `ch`, and not one of the letters that the control key makes a
/// command of.
pub open spec fn is_character(key: KeyEvent, ch: char) -> bool {
    &&& key.code == KeyCode::Char(ch)
    &&& with_control(key) ==> ch != 'c' && ch != 'C' && ch != 'j' && ch != 'J' && ch != 'd' && ch
        != 'D'
}

/// A key event tells by its kind whether it is a release, and by its modifier bits whether the
/// control and the shift key were held.
pub proof fn law_key_events(key: KeyEvent)
    ensures
        key.is_release() <==> key.kind == KeyEventKind::Release,
        key.control() <==> with_control(key),
        key.shift() <==> with_shift(key),
{
}

/// Only three keys need anything: Up, where the history has entries, a place in it that is not
/// behind its end; Down, a place that can be counted on; and Tab, where the text is among the
/// completions in progress, a count that can go on.
pub proof fn law_what_keys_need(e: EditorView, s: SessionView, key: KeyEvent)
    ensures
        key.code != KeyCode::Up && key.code != KeyCode::Down && key.code != KeyCode::Tab
            ==> key_fits(e, s, key),
        s.mode is Command ==> key_fits(e, s, key),
        s.history_index is None && key.code != KeyCode::Tab ==> key_fits(e, s, key),
        key.code == KeyCode::Up && s.history_index is Some && s.history_index->0 <= e.history.len()
            ==> key_fits(e, s, key),
        key.code == KeyCode::Down && s.history_index is Some && s.history_index->0 < usize::MAX
            ==> key_fits(e, s, key),
        key.code == KeyCode::Tab && (e.completion is None || e.completion->0.next_index
            < usize::MAX) ==> key_fits(e, s, key),
{
}

/// Typing a character, in a mode that takes text, puts it in front of what follows the cursor, and
/// the cursor behind it.
#[verifier::rlimit(60)]
pub proof fn law_typing(e: EditorView, s: SessionView, key: KeyEvent, ch: char)
    requires
        is_character(key, ch),
        takes_text(s.mode),
    ensures
        after_key(e, s, key) == (
            at_rest(e),
            edited(
                s,
                buffer(s).take(point(s)).push(ch) + buffer(s).skip(point(s)),
                point(s) + 1,
            ),
            ActionView::Continue,
        ),
{
    assert(inserted(buffer(s), point(s), seq![ch]) =~= buffer(s).take(point(s)).push(ch) + buffer(
        s,
    ).skip(point(s)));
    assert(after_char(at_rest(e), s, ch) == (at_rest(e), s.with_insertion(seq![ch])));
}

/// Enter with the shift key, and control with J, never submit: in a mode that takes text they put a
/// line break in front of what follows the cursor, and the cursor behind it; in any other they do
/// nothing.
#[verifier::rlimit(60)]
pub proof fn law_line_break_keys(e: EditorView, s: SessionView, key: KeyEvent)
    requires
        (key.code == KeyCode::Enter && with_shift(key)) || (with_control(key) && (key.code
            == KeyCode::Char('j') || key.code == KeyCode::Char('J'))),
    ensures
        takes_text(s.mode) ==> after_key(e, s, key) == (
            at_rest(e),
            edited(
                s,
                buffer(s).take(point(s)).push('\n') + buffer(s).skip(point(s)),
                point(s) + 1,
            ),
            ActionView::Continue,
        ),
        !takes_text(s.mode) ==> after_key(e, s, key) == (at_rest(e), s, ActionView::Continue),
{
    reveal_strlit("\n");
    assert(inserted(buffer(s), point(s), "\n"@) =~= buffer(s).take(point(s)).push('\n') + buffer(
        s,
    ).skip(point(s)));
}

/// Enter without the shift key changes nothing of the session.  It asks to switch vim key bindings
/// where what is being edited is `/vim` and otherwise white space, and to submit all of what is
/// being edited, as it stands, everywhere else.
#[verifier::rlimit(60)]
pub proof fn law_enter(e: EditorView, s: SessionView, key: KeyEvent)
    requires
        key.code == KeyCode::Enter,
        !with_shift(key),
    ensures
        after_key(e, s, key) == (
            at_rest(e),
            s,
            if exists|i: int| vim_alone_at(buffer(s), i) {
                ActionView::ToggleVim
            } else {
                ActionView::Submit(buffer(s))
            },
        ),
{
    law_only_vim_switches(buffer(s));
}

/// What a key asks for tells the key: only Enter without the shift key submits or switches vim key
/// bindings, only control with C cancels, and only control with C or D exits.
#[verifier::rlimit(60)]
pub proof fn law_what_keys_ask_for(e: EditorView, s: SessionView, key: KeyEvent)
    ensures
        ({
            let action = after_key(e, s, key).2;
            &&& action is Submit ==> key.code == KeyCode::Enter && !with_shift(key)
            &&& action is ToggleVim ==> key.code == KeyCode::Enter && !with_shift(key)
            &&& action is Cancel ==> with_control(key) && (key.code == KeyCode::Char('c')
                || key.code == KeyCode::Char('C'))
            &&& action is Exit ==> with_control(key) && (key.code == KeyCode::Char('c') || key.code
                == KeyCode::Char('C') || key.code == KeyCode::Char('d') || key.code
                == KeyCode::Char('D'))
        }),
{
}

/// Control with C cancels where anything is being edited, and exits where nothing is.
#[verifier::rlimit(60)]
pub proof fn law_control_c(e: EditorView, s: SessionView, key: KeyEvent)
    requires
        with_control(key),
        key.code == KeyCode::Char('c') || key.code == KeyCode::Char('C'),
    ensures
        after_key(e, s, key) == (
            at_rest(e),
            s,
            if buffer(s).len() > 0 {
                ActionView::Cancel
            } else {
                ActionView::Exit
            },
        ),
{
}

/// What taking out the character behind the cursor leaves.
pub open spec fn without_next(s: SessionView) -> SessionView {
    if point(s) < buffer(s).len() {
        edited(s, buffer(s).take(point(s)) + buffer(s).skip(point(s) + 1), point(s))
    } else {
        s
    }
}

/// Control with D exits where nothing is being edited; otherwise it takes out the character behind
/// the cursor, in every mode, if there is one.
#[verifier::rlimit(60)]
pub proof fn law_control_d(e: EditorView, s: SessionView, key: KeyEvent)
    requires
        with_control(key),
        key.code == KeyCode::Char('d') || key.code == KeyCode::Char('D'),
    ensures
        buffer(s).len() == 0 ==> after_key(e, s, key) == (at_rest(e), s, ActionView::Exit),
        buffer(s).len() > 0 ==> after_key(e, s, key) == (
            at_rest(e),
            without_next(s),
            ActionView::Continue,
        ),
{
}

/// The delete key takes out the character behind the cursor, in every mode, if there is one.
#[verifier::rlimit(60)]
pub proof fn law_delete(e: EditorView, s: SessionView, key: KeyEvent)
    requires
        key.code == KeyCode::Delete,
    ensures
        after_key(e, s, key) == (at_rest(e), without_next(s), ActionView::Continue),
{
}

/// Backspace takes out the character in front of the cursor, if there is one, in plain and insert
/// mode; in normal and visual mode it moves left instead.  In command mode it takes out a character
/// behind the colon, and with none in front of the cursor it leaves the mode and drops the command.
#[verifier::rlimit(60)]
pub proof fn law_backspace(e: EditorView, s: SessionView, key: KeyEvent)
    requires
        key.code == KeyCode::Backspace,
        0 <= s.cursor <= s.text.len(),
    ensures
        ({
            let (e2, s2, action) = after_key(e, s, key);
            &&& e2 == at_rest(e)
            &&& action == ActionView::Continue
            &&& s.mode is Plain || s.mode is Insert ==> s2 == (if s.cursor == 0 {
                s
            } else {
                SessionView {
                    text: s.text.take(s.cursor - 1) + s.text.skip(s.cursor),
                    cursor: s.cursor - 1,
                    ..s
                }
            })
            &&& s.mode is Normal || s.mode is Visual ==> s2 == (if s.cursor == 0 {
                s
            } else {
                SessionView { cursor: s.cursor - 1, ..s }
            })
            &&& s.mode is Command && s.command_cursor > 1 ==> s2 == (SessionView {
                command_buffer: s.command_buffer.take(s.command_cursor - 1) + s.command_buffer.skip(
                    s.command_cursor,
                ),
                command_cursor: s.command_cursor - 1,
                ..s
            })
            &&& s.mode is Command && s.command_cursor <= 1 ==> s2 == (SessionView {
                mode: EditorMode::Normal,
                pending_operator: None,
                visual_anchor: None,
                command_buffer: Seq::empty(),
                command_cursor: 0,
                ..s
            })
        }),
{
}

/// `s` with the cursor one character further left, as far as there is one; in a command it stays
/// behind the colon.
pub open spec fn one_left(s: SessionView) -> SessionView {
    if s.mode is Command {
        SessionView {
            command_cursor: if s.command_cursor > 1 {
                s.command_cursor - 1
            } else {
                1
            },
            ..s
        }
    } else {
        SessionView {
            cursor: if s.cursor > 0 {
                s.cursor - 1
            } else {
                0
            },
            ..s
        }
    }
}

/// `s` with the cursor one character further right, as far as there is one.
pub open spec fn one_right(s: SessionView) -> SessionView {
    if point(s) < buffer(s).len() {
        edited(s, buffer(s), point(s) + 1)
    } else {
        s
    }
}

/// The arrow keys to the left and to the right move the cursor by one character, in every mode.
#[verifier::rlimit(60)]
pub proof fn law_left_and_right(e: EditorView, s: SessionView, key: KeyEvent)
    requires
        s.valid(),
    ensures
        key.code == KeyCode::Left ==> after_key(e, s, key) == (
            at_rest(e),
            one_left(s),
            ActionView::Continue,
        ),
        key.code == KeyCode::Right ==> after_key(e, s, key) == (
            at_rest(e),
            one_right(s),
            ActionView::Continue,
        ),
{
}

/// Home and End move the cursor to the start and to the end of the line that it stands on.
#[verifier::rlimit(60)]
pub proof fn law_home_and_end(
    e: EditorView,
    s: SessionView,
    key: KeyEvent,
    above: Seq<char>,
    line: Seq<char>,
    below: Seq<char>,
)
    requires
        !(s.mode is Command),
        cut(s, above, line, below),
    ensures
        key.code == KeyCode::Home ==> after_key(e, s, key) == (
            at_rest(e),
            SessionView { cursor: above.len() as int, ..s },
            ActionView::Continue,
        ),
        key.code == KeyCode::End ==> after_key(e, s, key) == (
            at_rest(e),
            SessionView { cursor: (above.len() + line.len()) as int, ..s },
            ActionView::Continue,
        ),
{
    lemma_cut(s, above, line, below);
}

/// In command mode Home moves the cursor behind the colon, and End behind the command.
#[verifier::rlimit(60)]
pub proof fn law_home_and_end_of_a_command(e: EditorView, s: SessionView, key: KeyEvent)
    requires
        s.mode is Command,
    ensures
        key.code == KeyCode::Home ==> after_key(e, s, key) == (
            at_rest(e),
            SessionView { command_cursor: 1, ..s },
            ActionView::Continue,
        ),
        key.code == KeyCode::End ==> after_key(e, s, key) == (
            at_rest(e),
            SessionView { command_cursor: s.command_buffer.len() as int, ..s },
            ActionView::Continue,
        ),
{
}

/// Escape leaves insert mode for normal mode, one character further left where there is one;
/// leaves visual mode for normal mode; leaves command mode for normal mode and drops the command;
/// and does nothing in plain and normal mode.
#[verifier::rlimit(60)]
pub proof fn law_escape_key(e: EditorView, s: SessionView, key: KeyEvent)
    requires
        key.code == KeyCode::Esc,
        0 <= s.cursor,
    ensures
        after_key(e, s, key) == (
            at_rest(e),
            match s.mode {
                EditorMode::Plain | EditorMode::Normal => s,
                EditorMode::Insert => SessionView {
                    cursor: if s.cursor > 0 {
                        s.cursor - 1
                    } else {
                        0
                    },
                    mode: EditorMode::Normal,
                    pending_operator: None,
                    visual_anchor: None,
                    ..s
                },
                EditorMode::Visual => SessionView {
                    mode: EditorMode::Normal,
                    pending_operator: None,
                    visual_anchor: None,
                    ..s
                },
                EditorMode::Command => SessionView {
                    mode: EditorMode::Normal,
                    pending_operator: None,
                    visual_anchor: None,
                    command_buffer: Seq::empty(),
                    command_cursor: 0,
                    ..s
                },
            },
            ActionView::Continue,
        ),
{
}

/// Any other key does nothing but end a completion.
#[verifier::rlimit(60)]
pub proof fn law_other_keys(e: EditorView, s: SessionView, key: KeyEvent)
    requires
        key.code == KeyCode::Other,
    ensures
        after_key(e, s, key) == (at_rest(e), s, ActionView::Continue),
{
}

/// `s` showing `text`, out of the history, with the cursor at its end.
pub open spec fn showing(s: SessionView, text: Seq<char>) -> SessionView {
    SessionView {
        text,
        cursor: text.len() as int,
        mode: if s.mode is Plain || s.mode is Insert {
            s.mode
        } else {
            EditorMode::Normal
        },
        pending_operator: None,
        visual_anchor: None,
        ..s
    }
}

/// The up key shows the newest entry of the history and keeps the input for later, or, where an
/// entry is shown, the one before it, as far as there is one.  While a command is typed, and where
/// the history is empty, it does nothing.
#[verifier::rlimit(60)]
pub proof fn law_up(e: EditorView, s: SessionView, key: KeyEvent)
    requires
        key.code == KeyCode::Up,
        e.history.len() <= usize::MAX,
    ensures
        ({
            let (e2, s2, action) = after_key(e, s, key);
            &&& e2 == at_rest(e)
            &&& action == ActionView::Continue
            &&& s.mode is Command || e.history.len() == 0 ==> s2 == s
            &&& !(s.mode is Command) && e.history.len() > 0 && s.history_index is None ==> s2
                == showing(
                SessionView {
                    history_index: Some((e.history.len() - 1) as usize),
                    history_backup: Some(s.text),
                    ..s
                },
                e.history[e.history.len() - 1],
            )
            &&& !(s.mode is Command) && e.history.len() > 0 && s.history_index == Some(0usize)
                ==> s2 == showing(s, e.history[0])
            &&& !(s.mode is Command) && e.history.len() > 0 && s.history_index is Some
                && s.history_index->0 > 0 ==> s2 == showing(
                SessionView { history_index: Some((s.history_index->0 - 1) as usize), ..s },
                e.history[s.history_index->0 - 1],
            )
        }),
{
    assert(after_key(e, s, key).1 == after_up(at_rest(e), s));
}

/// The down key shows the entry of the history behind the one that is shown, and behind the newest
/// the input that was kept, to be typed on.  While a command is typed, and where no entry is shown,
/// it does nothing.
#[verifier::rlimit(60)]
pub proof fn law_down(e: EditorView, s: SessionView, key: KeyEvent)
    requires
        key.code == KeyCode::Down,
        e.history.len() <= usize::MAX,
    ensures
        ({
            let (e2, s2, action) = after_key(e, s, key);
            &&& e2 == at_rest(e)
            &&& action == ActionView::Continue
            &&& s.mode is Command || s.history_index is None ==> s2 == s
            &&& !(s.mode is Command) && s.history_index is Some && s.history_index->0 + 1
                < e.history.len() ==> s2 == showing(
                SessionView { history_index: Some((s.history_index->0 + 1) as usize), ..s },
                e.history[s.history_index->0 + 1],
            )
            &&& !(s.mode is Command) && s.history_index is Some && s.history_index->0 + 1
                >= e.history.len() ==> {
                let kept = match s.history_backup {
                    Some(text) => text,
                    None => Seq::empty(),
                };
                s2 == (SessionView {
                    text: kept,
                    cursor: kept.len() as int,
                    mode: if e.vim_enabled {
                        EditorMode::Insert
                    } else {
                        EditorMode::Plain
                    },
                    pending_operator: None,
                    visual_anchor: None,
                    history_index: None,
                    history_backup: None,
                    ..s
                })
            }
        }),
{
    assert(after_key(e, s, key).1 == after_down(at_rest(e), s));
}

/// In visual mode, `h` and `l` move by a character, `v` goes back to normal mode, and any other
/// character but `j` and `k` does nothing.
#[verifier::rlimit(60)]
pub proof fn law_visual_characters(e: EditorView, s: SessionView, key: KeyEvent, ch: char)
    requires
        is_character(key, ch),
        s.mode is Visual,
        0 <= s.cursor <= s.text.len(),
        ch != 'j',
        ch != 'k',
    ensures
        after_key(e, s, key) == (
            at_rest(e),
            if ch == 'h' {
                one_left(s)
            } else if ch == 'l' {
                one_right(s)
            } else if ch == 'v' {
                SessionView {
                    mode: EditorMode::Normal,
                    pending_operator: None,
                    visual_anchor: None,
                    ..s
                }
            } else {
                s
            },
            ActionView::Continue,
        ),
{
}

/// In normal and visual mode, `j` and `k` move down and up a line, as far as there are lines, to
/// the same column, as far as the line there reaches.
#[verifier::rlimit(60)]
pub proof fn law_line_motions(e: EditorView, s: SessionView, key: KeyEvent, ch: char)
    requires
        is_character(key, ch),
        s.mode is Normal || s.mode is Visual,
        ch == 'j' || ch == 'k',
        0 <= s.cursor <= s.text.len(),
    ensures
        ({
            let (e2, s2, action) = after_key(e, s, key);
            let lines = lines_of(s.text);
            let (row, column) = place(s.text, s.cursor);
            let target = if ch == 'j' {
                if row + 1 < lines.len() {
                    row + 1
                } else {
                    row
                }
            } else {
                if row > 0 {
                    row - 1
                } else {
                    row
                }
            };
            let len = lines[target].len() as int;
            &&& e2 == at_rest(e)
            &&& action == ActionView::Continue
            &&& s2 == (SessionView {
                cursor: s2.cursor,
                pending_operator: if s.mode is Normal {
                    None
                } else {
                    s.pending_operator
                },
                ..s
            })
            &&& 0 <= s2.cursor <= s.text.len()
            &&& place(s.text, s2.cursor) == (
                target,
                if column <= len {
                    column
                } else {
                    len
                },
            )
        }),
{
    let ready = SessionView { pending_operator: None, ..s };
    law_vertical_places(s, 1);
    law_vertical_places(s, -1);
    law_vertical_places(ready, 1);
    law_vertical_places(ready, -1);
    lemma_place(s.text, s.cursor);
    law_lines_are_counted(s.text);
    lemma_row_monotone(s.text, 0, s.cursor);
    lemma_row_monotone(s.text, s.cursor, s.text.len() as int);
    assert(after_key(e, s, key).1 == after_char(at_rest(e), s, ch).1);
}

/// In normal mode a character is handled by what it does there alone.
#[verifier::rlimit(60)]
proof fn lemma_normal_key(e: EditorView, s: SessionView, key: KeyEvent, ch: char)
    requires
        is_character(key, ch),
        s.mode is Normal,
    ensures
        ({
            let after = after_normal_char(at_rest(e), s, ch);
            after_key(e, s, key) == (after.0, after.1, ActionView::Continue)
        }),
{
}

/// In normal mode, unless it completes `dd` or `yy`, a character drops the operator that waits.
/// `h` and `l` move by a character, `d` and `y` wait as an operator, `i` goes to insert mode, `v`
/// to visual mode, selecting from the cursor on, and `:` to command mode; any other but `j`, `k`
/// and `p` does nothing more.
#[verifier::rlimit(60)]
pub proof fn law_normal_characters(e: EditorView, s: SessionView, key: KeyEvent, ch: char)
    requires
        is_character(key, ch),
        s.mode is Normal,
        0 <= s.cursor <= s.text.len(),
        encode_utf8(s.text).len() <= usize::MAX,
        ch != 'j',
        ch != 'k',
        ch != 'p',
        !(s.pending_operator == Some('d') && ch == 'd'),
        !(s.pending_operator == Some('y') && ch == 'y'),
    ensures
        ({
            let (e2, s2, action) = after_key(e, s, key);
            let ready = SessionView { pending_operator: None, ..s };
            &&& e2 == at_rest(e)
            &&& action == ActionView::Continue
            &&& ch == 'h' ==> s2 == one_left(ready)
            &&& ch == 'l' ==> s2 == one_right(ready)
            &&& ch == 'd' || ch == 'y' ==> s2 == (SessionView { pending_operator: Some(ch), ..s })
            &&& ch == 'i' ==> s2 == (SessionView {
                mode: EditorMode::Insert,
                visual_anchor: None,
                ..ready
            })
            &&& ch == 'v' ==> {
                &&& s2 == (SessionView {
                    mode: EditorMode::Visual,
                    visual_anchor: s2.visual_anchor,
                    ..ready
                })
                &&& s2.visual_anchor is Some
                &&& s2.visual_anchor->0 == encode_utf8(s.text.take(s.cursor)).len()
            }
            &&& ch == ':' ==> s2 == (SessionView {
                mode: EditorMode::Command,
                visual_anchor: None,
                command_buffer: seq![':'],
                command_cursor: 1,
                ..ready
            })
            &&& ch != 'h' && ch != 'l' && ch != 'd' && ch != 'y' && ch != 'i' && ch != 'v' && ch
                != ':' ==> s2 == ready
        }),
{
    let ready = SessionView { pending_operator: None, ..s };
    lemma_offset_ends(s.text);
    lemma_offset_monotone(s.text, s.cursor, s.text.len() as int);
    lemma_normal_key(e, s, key, ch);
}

/// What `dd` and `yy` keep of the line of the cursor: the line, with its newline where it has one.
pub open spec fn yanked(e: EditorView, line: Seq<char>, below: Seq<char>) -> EditorView {
    EditorView {
        yank_text: if below.len() > 0 {
            line.push('\n')
        } else {
            line
        },
        yank_linewise: true,
        completion: None,
        ..e
    }
}

/// The line of the cursor is kept with its newline where it has one.
proof fn lemma_kept_line(
    e: EditorView,
    s: SessionView,
    above: Seq<char>,
    line: Seq<char>,
    below: Seq<char>,
)
    requires
        cut(s, above, line, below),
    ensures
        ({
            let ready = SessionView { pending_operator: None, ..s };
            at_rest(e).with_line_yanked(ready.current_line()) == yanked(e, line, below)
        }),
{
    lemma_cut(s, above, line, below);
    let a = above.len() as int;
    let b = a + line.len();
    if below.len() > 0 {
        assert(s.text.subrange(a, b + 1) =~= line.push('\n'));
    }
}

/// What `yy` does to the editor and to the session.
proof fn lemma_yy(
    e: EditorView,
    s: SessionView,
    above: Seq<char>,
    line: Seq<char>,
    below: Seq<char>,
)
    requires
        s.pending_operator == Some('y'),
        cut(s, above, line, below),
    ensures
        after_normal_char(at_rest(e), s, 'y') == (
            yanked(e, line, below),
            SessionView { pending_operator: None, ..s },
        ),
{
    lemma_kept_line(e, s, above, line, below);
}

/// `yy` keeps the line of the cursor, with its newline where it has one, and changes nothing else.
#[verifier::rlimit(60)]
pub proof fn law_yy(
    e: EditorView,
    s: SessionView,
    key: KeyEvent,
    above: Seq<char>,
    line: Seq<char>,
    below: Seq<char>,
)
    requires
        is_character(key, 'y'),
        s.mode is Normal,
        s.pending_operator == Some('y'),
        cut(s, above, line, below),
    ensures
        after_key(e, s, key) == (
            yanked(e, line, below),
            SessionView { pending_operator: None, ..s },
            ActionView::Continue,
        ),
{
    lemma_yy(e, s, above, line, below);
    lemma_normal_key(e, s, key, 'y');
}

/// What `dd` leaves of the text, and where the cursor goes.
proof fn lemma_line_deleted(s: SessionView, above: Seq<char>, line: Seq<char>, below: Seq<char>)
    requires
        cut(s, above, line, below),
    ensures
        s.with_line_deleted() == (if below.len() > 1 {
            SessionView { text: above + below.skip(1), cursor: above.len() as int, ..s }
        } else if above.len() > 0 {
            SessionView { text: above.drop_last(), cursor: above.len() - 1, ..s }
        } else {
            SessionView { text: Seq::empty(), cursor: 0, ..s }
        }),
{
    lemma_cut(s, above, line, below);
    let t = s.text;
    let next = line_after_index(t, s.cursor);
    let from = line_delete_index(t, s.cursor);
    if below.len() > 1 {
        assert(removed(t, from, next) =~= above + below.skip(1));
    } else if above.len() > 0 {
        assert(removed(t, from, next) =~= above.drop_last());
    } else {
        assert(removed(t, from, next) =~= Seq::<char>::empty());
    }
}

/// What `dd` does to the editor and to the session.
proof fn lemma_dd(
    e: EditorView,
    s: SessionView,
    above: Seq<char>,
    line: Seq<char>,
    below: Seq<char>,
)
    requires
        s.pending_operator == Some('d'),
        cut(s, above, line, below),
    ensures
        after_normal_char(at_rest(e), s, 'd') == (
            yanked(e, line, below),
            if below.len() > 1 {
                SessionView {
                    text: above + below.skip(1),
                    cursor: above.len() as int,
                    pending_operator: None,
                    ..s
                }
            } else if above.len() > 0 {
                SessionView {
                    text: above.drop_last(),
                    cursor: above.len() - 1,
                    pending_operator: None,
                    ..s
                }
            } else {
                SessionView { text: Seq::empty(), cursor: 0, pending_operator: None, ..s }
            },
        ),
{
    let ready = SessionView { pending_operator: None, ..s };
    lemma_kept_line(e, s, above, line, below);
    lemma_line_deleted(ready, above, line, below);
}

/// `dd` keeps the line of the cursor as `yy` does and takes it out.  The cursor goes to where the
/// line started, in front of the lines that follow; where no text follows, the newline in front of
/// the line goes with it, and the cursor to the end of the line above.
#[verifier::rlimit(60)]
pub proof fn law_dd(
    e: EditorView,
    s: SessionView,
    key: KeyEvent,
    above: Seq<char>,
    line: Seq<char>,
    below: Seq<char>,
)
    requires
        is_character(key, 'd'),
        s.mode is Normal,
        s.pending_operator == Some('d'),
        cut(s, above, line, below),
    ensures
        ({
            let (e2, s2, action) = after_key(e, s, key);
            &&& e2 == yanked(e, line, below)
            &&& action == ActionView::Continue
            &&& above.len() > 0 && below.len() <= 1 ==> s2 == (SessionView {
                text: above.drop_last(),
                cursor: above.len() - 1,
                pending_operator: None,
                ..s
            })
            &&& below.len() > 1 ==> s2 == (SessionView {
                text: above + below.skip(1),
                cursor: above.len() as int,
                pending_operator: None,
                ..s
            })
            &&& above.len() == 0 && below.len() <= 1 ==> s2 == (SessionView {
                text: Seq::empty(),
                cursor: 0,
                pending_operator: None,
                ..s
            })
        }),
{
    lemma_dd(e, s, above, line, below);
    lemma_normal_key(e, s, key, 'd');
}

/// `p` with nothing kept does nothing more than drop the operator that waits.
#[verifier::rlimit(60)]
pub proof fn law_pasting_nothing(e: EditorView, s: SessionView, key: KeyEvent)
    requires
        is_character(key, 'p'),
        s.mode is Normal,
        e.yank_text.len() == 0,
    ensures
        after_key(e, s, key) == (
            at_rest(e),
            SessionView { pending_operator: None, ..s },
            ActionView::Continue,
        ),
{
}

/// `p` puts a kept text that is no line behind the character at the cursor, and the cursor behind
/// the text.
#[verifier::rlimit(60)]
pub proof fn law_pasting_text(e: EditorView, s: SessionView, key: KeyEvent)
    requires
        is_character(key, 'p'),
        s.mode is Normal,
        0 <= s.cursor <= s.text.len(),
        e.yank_text.len() > 0,
        !e.yank_linewise,
    ensures
        ({
            let at = if s.cursor < s.text.len() {
                s.cursor + 1
            } else {
                s.cursor
            };
            after_key(e, s, key) == (
                at_rest(e),
                SessionView {
                    text: s.text.take(at) + e.yank_text + s.text.skip(at),
                    cursor: at + e.yank_text.len(),
                    pending_operator: None,
                    ..s
                },
                ActionView::Continue,
            )
        }),
{
}

/// `line` with a newline at its end.
pub open spec fn ended(line: Seq<char>) -> Seq<char> {
    if line.len() > 0 && line.last() == '\n' {
        line
    } else {
        line.push('\n')
    }
}

/// What is inserted for a kept line, and where.
proof fn lemma_line_insertion(
    s: SessionView,
    kept: Seq<char>,
    above: Seq<char>,
    line: Seq<char>,
    below: Seq<char>,
)
    requires
        kept.len() > 0,
        cut(s, above, line, below),
    ensures
        ({
            let at = line_after_index(s.text, s.cursor);
            &&& at == above.len() + line.len() + (if below.len() > 0 {
                1int
            } else {
                0int
            })
            &&& pasted_line(s.text, at, kept) == (if below.len() > 1 {
                ended(kept)
            } else if below.len() == 0 && line.len() > 0 {
                seq!['\n'] + kept
            } else {
                kept
            })
        }),
{
    lemma_cut(s, above, line, below);
    let t = s.text;
    if below.len() == 1 {
        assert(t.last() == below[0]);
    } else if below.len() == 0 && line.len() > 0 {
        assert(t.last() == line[line.len() - 1]);
    } else if below.len() == 0 && above.len() > 0 {
        assert(t.last() == above.last());
    }
}

/// Splicing into a text of three parts, behind the second and, if any, the first character of the
/// third.
proof fn lemma_spliced(
    above: Seq<char>,
    line: Seq<char>,
    below: Seq<char>,
    insertion: Seq<char>,
)
    requires
        below.len() > 0 ==> below[0] == '\n',
    ensures
        below.len() > 0 ==> inserted(
            above + line + below,
            (above.len() + line.len() + 1) as int,
            insertion,
        ) == (above + line).push('\n') + insertion + below.skip(1),
        below.len() == 0 ==> inserted(
            above + line + below,
            (above.len() + line.len()) as int,
            insertion,
        ) == above + line + insertion,
{
    let t = above + line + below;
    let end = (above.len() + line.len()) as int;
    if below.len() > 0 {
        assert(t.take(end + 1) =~= (above + line).push('\n'));
        assert(t.skip(end + 1) =~= below.skip(1));
    } else {
        assert(t.take(end) =~= above + line);
        assert(t.skip(end) =~= Seq::<char>::empty());
        assert(above + line + insertion + Seq::<char>::empty() =~= above + line + insertion);
    }
}

/// Where a kept line goes, and the cursor with it.
proof fn lemma_line_pasted(
    s: SessionView,
    kept: Seq<char>,
    above: Seq<char>,
    line: Seq<char>,
    below: Seq<char>,
)
    requires
        kept.len() > 0,
        cut(s, above, line, below),
    ensures
        ({
            let skipped: int = if kept[0] == '\n' {
                1
            } else {
                0
            };
            let end = (above.len() + line.len()) as int;
            s.with_line_pasted(kept) == (if below.len() > 1 {
                SessionView {
                    text: (above + line).push('\n') + ended(kept) + below.skip(1),
                    cursor: end + 1 + skipped,
                    ..s
                }
            } else if below.len() == 1 {
                SessionView {
                    text: (above + line).push('\n') + kept,
                    cursor: end + 1 + skipped,
                    ..s
                }
            } else if line.len() > 0 {
                SessionView { text: (above + line).push('\n') + kept, cursor: end + 1, ..s }
            } else {
                SessionView { text: above + kept, cursor: above.len() + skipped, ..s }
            })
        }),
{
    lemma_line_insertion(s, kept, above, line, below);
    let insertion = pasted_line(s.text, line_after_index(s.text, s.cursor), kept);
    lemma_spliced(above, line, below, insertion);
    if below.len() > 1 {
        assert(insertion[0] == kept[0]);
    } else if below.len() == 1 {
        assert(below.skip(1) =~= Seq::<char>::empty());
        assert((above + line).push('\n') + kept + below.skip(1) =~= (above + line).push('\n')
            + kept);
    } else if line.len() > 0 {
        assert(above + line + (seq!['\n'] + kept) =~= (above + line).push('\n') + kept);
    } else {
        assert(above + line =~= above);
    }
}

/// `p` puts a kept line below the line of the cursor.  In front of other text it ends with a
/// newline, which it gets where it has none; behind a last line with text it gets a newline in
/// front; and behind a newline, and in an empty text, it goes as it is.  The cursor goes to the
/// start of the pasted line, and behind its newline where that line is empty.
#[verifier::rlimit(60)]
pub proof fn law_pasting_a_line(
    e: EditorView,
    s: SessionView,
    key: KeyEvent,
    above: Seq<char>,
    line: Seq<char>,
    below: Seq<char>,
)
    requires
        is_character(key, 'p'),
        s.mode is Normal,
        e.yank_text.len() > 0,
        e.yank_linewise,
        cut(s, above, line, below),
    ensures
        ({
            let (e2, s2, action) = after_key(e, s, key);
            let kept = e.yank_text;
            let skipped: int = if kept[0] == '\n' {
                1
            } else {
                0
            };
            &&& e2 == at_rest(e)
            &&& action == ActionView::Continue
            &&& s2 == (SessionView {
                text: s2.text,
                cursor: s2.cursor,
                pending_operator: None,
                ..s
            })
            &&& below.len() > 1 ==> {
                &&& s2.text == (above + line).push('\n') + ended(kept) + below.skip(1)
                &&& s2.cursor == above.len() + line.len() + 1 + skipped
            }
            &&& below.len() == 1 ==> {
                &&& s2.text == (above + line).push('\n') + kept
                &&& s2.cursor == above.len() + line.len() + 1 + skipped
            }
            &&& below.len() == 0 && line.len() > 0 ==> {
                &&& s2.text == (above + line).push('\n') + kept
                &&& s2.cursor == above.len() + line.len() + 1
            }
            &&& below.len() == 0 && line.len() == 0 ==> {
                &&& s2.text == above + kept
                &&& s2.cursor == above.len() + skipped
            }
        }),
{
    let ready = SessionView { pending_operator: None, ..s };
    lemma_line_pasted(ready, e.yank_text, above, line, below);
    lemma_normal_key(e, s, key, 'p');
    assert(after_normal_char(at_rest(e), s, 'p') == (
        at_rest(e),
        ready.with_line_pasted(e.yank_text),
    ));
}

/// The lines of a text in front of which lines stand, with their newlines.
proof fn lemma_lines_behind(above: Seq<char>, rest: Seq<char>)
    requires
        above.len() > 0 ==> above.last() == '\n',
    ensures
        lines_of(above + rest) == (if above.len() > 0 {
            lines_of(above.drop_last()) + lines_of(rest)
        } else {
            lines_of(rest)
        }),
{
    if above.len() > 0 {
        assert(above.drop_last().push('\n') =~= above);
        law_newline_separates(above.drop_last(), rest);
    } else {
        assert(above + rest =~= rest);
    }
}

/// The lines around that of the cursor, and its row.
proof fn lemma_cut_lines(s: SessionView, above: Seq<char>, line: Seq<char>, below: Seq<char>)
    requires
        cut(s, above, line, below),
    ensures
        ({
            let head = if above.len() > 0 {
                lines_of(above.drop_last())
            } else {
                Seq::empty()
            };
            let tail = if below.len() > 0 {
                lines_of(below.skip(1))
            } else {
                Seq::empty()
            };
            &&& lines_of(s.text) == head.push(line) + tail
            &&& place(s.text, s.cursor).0 == head.len()
        }),
{
    let head = if above.len() > 0 {
        lines_of(above.drop_last())
    } else {
        Seq::empty()
    };
    let tail = if below.len() > 0 {
        lines_of(below.skip(1))
    } else {
        Seq::empty()
    };
    law_single_line(line);
    assert(s.text =~= above + (line + below));
    lemma_lines_behind(above, line + below);
    if below.len() > 0 {
        assert(line + below =~= line.push('\n') + below.skip(1));
        law_newline_separates(line, below.skip(1));
    } else {
        assert(line + below =~= line);
    }
    assert(lines_of(s.text) =~= head.push(line) + tail);
    let part = line.take(s.cursor - above.len());
    assert(s.text.take(s.cursor) =~= above + part);
    law_single_line(part);
    lemma_lines_behind(above, part);
}

/// A text that is not empty is more than one empty line.
proof fn lemma_not_only_an_empty_line(rest: Seq<char>)
    requires
        rest.len() > 0,
    ensures
        !(lines_of(rest).len() == 1 && lines_of(rest).last().len() == 0),
{
    law_lines_are_counted(rest.drop_last());
    lemma_row_monotone(rest.drop_last(), 0, rest.len() - 1);
}

/// The lines of a text into which a kept line was pasted in front of others.
proof fn lemma_pasted_between(
    s: SessionView,
    above: Seq<char>,
    here: Seq<char>,
    below: Seq<char>,
    kept: Seq<char>,
    line: Seq<char>,
)
    requires
        cut(s, above, here, below),
        below.len() > 0,
        kept.len() > 0,
        kept == line || kept == line.push('\n'),
        forall|i: int| 0 <= i < line.len() ==> #[trigger] line[i] != '\n',
    ensures
        ({
            let before = lines_of(s.text);
            let row = place(s.text, s.cursor).0;
            let text = if below.len() > 1 {
                (above + here).push('\n') + ended(kept) + below.skip(1)
            } else {
                (above + here).push('\n') + kept
            };
            lines_of(text) == (if kept == line && row + 2 == before.len() && before.last().len()
                == 0 {
                before.update(row + 1, line)
            } else {
                before.insert(row + 1, line)
            })
        }),
{
    lemma_cut_lines(s, above, here, below);
    let head = if above.len() > 0 {
        lines_of(above.drop_last())
    } else {
        Seq::empty()
    };
    let before = lines_of(s.text);
    let row = head.len() as int;
    law_single_line(line);
    law_single_line(here);
    let rest = below.skip(1);
    law_lines_are_counted(rest);
    if below.len() > 1 {
        if kept == line {
            assert(line[line.len() - 1] != '\n');
        }
        assert(ended(kept) =~= line.push('\n'));
        let text = (above + here).push('\n') + ended(kept) + rest;
        let tail = line.push('\n') + rest;
        assert(text =~= above + (here.push('\n') + tail));
        lemma_lines_behind(above, here.push('\n') + tail);
        law_newline_separates(here, tail);
        law_newline_separates(line, rest);
        lemma_not_only_an_empty_line(rest);
        assert(lines_of(text) =~= before.insert(row + 1, line));
    } else {
        let text = (above + here).push('\n') + kept;
        assert(rest =~= Seq::<char>::empty());
        assert(lines_of(rest) =~= seq![Seq::<char>::empty()]);
        assert(text =~= above + (here.push('\n') + kept));
        lemma_lines_behind(above, here.push('\n') + kept);
        law_newline_separates(here, kept);
        if kept == line {
            assert(lines_of(text) =~= before.update(row + 1, line));
        } else {
            assert(kept =~= line.push('\n') + rest);
            law_newline_separates(line, rest);
            assert(lines_of(text) =~= before.insert(row + 1, line));
        }
    }
}

/// The lines of a text into which a kept line was pasted behind the last.
proof fn lemma_pasted_behind(
    s: SessionView,
    above: Seq<char>,
    here: Seq<char>,
    kept: Seq<char>,
    line: Seq<char>,
)
    requires
        cut(s, above, here, Seq::empty()),
        kept == line || kept == line.push('\n'),
        forall|i: int| 0 <= i < line.len() ==> #[trigger] line[i] != '\n',
    ensures
        ({
            let before = lines_of(s.text);
            let text = if here.len() > 0 {
                (above + here).push('\n') + kept
            } else {
                above + kept
            };
            let others = if before.last().len() == 0 {
                before.drop_last()
            } else {
                before
            };
            lines_of(text) == (if kept == line {
                others.push(line)
            } else {
                others.push(line).push(Seq::empty())
            })
        }),
{
    lemma_cut_lines(s, above, here, Seq::empty());
    let before = lines_of(s.text);
    law_single_line(line);
    law_single_line(here);
    if kept != line {
        assert(kept =~= line.push('\n') + Seq::<char>::empty());
        law_newline_separates(line, Seq::empty());
        assert(lines_of(kept) =~= seq![line, Seq::<char>::empty()]);
    } else {
        assert(lines_of(kept) =~= seq![line]);
    }
    if here.len() > 0 {
        let text = (above + here).push('\n') + kept;
        assert(text =~= above + (here.push('\n') + kept));
        lemma_lines_behind(above, here.push('\n') + kept);
        law_newline_separates(here, kept);
        assert(lines_of(text) =~= before + lines_of(kept));
    } else {
        lemma_lines_behind(above, kept);
        assert(lines_of(above + kept) =~= before.drop_last() + lines_of(kept));
    }
    let others = if before.last().len() == 0 {
        before.drop_last()
    } else {
        before
    };
    assert(others + seq![line] =~= others.push(line));
    assert(others + seq![line, Seq::<char>::empty()] =~= others.push(line).push(Seq::empty()));
}

/// Pasting a kept line, with or without its newline, where another line follows that of the cursor,
/// inserts exactly that line into the lines, directly below the line of the cursor, wherever it was
/// kept from.  The one other case is an empty last line below, which a line without newline fills.
#[verifier::rlimit(60)]
pub proof fn law_pasted_line_is_inserted(
    e: EditorView,
    s: SessionView,
    key: KeyEvent,
    line: Seq<char>,
)
    requires
        is_character(key, 'p'),
        s.mode is Normal,
        0 <= s.cursor <= s.text.len(),
        e.yank_linewise,
        e.yank_text.len() > 0,
        e.yank_text == line || e.yank_text == line.push('\n'),
        forall|i: int| 0 <= i < line.len() ==> #[trigger] line[i] != '\n',
        place(s.text, s.cursor).0 + 1 < lines_of(s.text).len(),
    ensures
        ({
            let before = lines_of(s.text);
            let after = lines_of(after_key(e, s, key).1.text);
            let row = place(s.text, s.cursor).0;
            if e.yank_text == line && row + 2 == before.len() && before.last().len() == 0 {
                after == before.update(row + 1, line)
            } else {
                after == before.insert(row + 1, line)
            }
        }),
{
    law_every_cursor_is_on_a_line(s);
    let (above, here, below) = choose|above: Seq<char>, here: Seq<char>, below: Seq<char>|
        cut(s, above, here, below);
    lemma_cut_lines(s, above, here, below);
    assert(below.len() > 0);
    law_pasting_a_line(e, s, key, above, here, below);
    lemma_pasted_between(s, above, here, below, e.yank_text, line);
}

/// Pasting a kept line below the last line adds it behind the others, or, where the last line is
/// empty, in its place; its newline, where it has one, leaves an empty line behind it.
#[verifier::rlimit(60)]
pub proof fn law_pasted_line_is_added(
    e: EditorView,
    s: SessionView,
    key: KeyEvent,
    line: Seq<char>,
)
    requires
        is_character(key, 'p'),
        s.mode is Normal,
        0 <= s.cursor <= s.text.len(),
        e.yank_linewise,
        e.yank_text.len() > 0,
        e.yank_text == line || e.yank_text == line.push('\n'),
        forall|i: int| 0 <= i < line.len() ==> #[trigger] line[i] != '\n',
        place(s.text, s.cursor).0 + 1 == lines_of(s.text).len(),
    ensures
        ({
            let before = lines_of(s.text);
            let after = lines_of(after_key(e, s, key).1.text);
            let others = if before.last().len() == 0 {
                before.drop_last()
            } else {
                before
            };
            after == (if e.yank_text == line {
                others.push(line)
            } else {
                others.push(line).push(Seq::empty())
            })
        }),
{
    law_every_cursor_is_on_a_line(s);
    let (above, here, below) = choose|above: Seq<char>, here: Seq<char>, below: Seq<char>|
        cut(s, above, here, below);
    lemma_cut_lines(s, above, here, below);
    if below.len() > 0 {
        law_lines_are_counted(below.skip(1));
        lemma_row_monotone(below.skip(1), 0, below.len() - 1);
    }
    assert(below =~= Seq::<char>::empty());
    law_pasting_a_line(e, s, key, above, here, below);
    lemma_pasted_behind(s, above, here, e.yank_text, line);
}

/// Typing a text of any length puts it in front of what follows the cursor, and the cursor behind
/// it; and to insert and to remove is to keep what stands in front and behind.
pub proof fn law_insertion(s: SessionView, text: Seq<char>, i: int, j: int)
    ensures
        s.with_insertion(text) == edited(
            s,
            buffer(s).take(point(s)) + text + buffer(s).skip(point(s)),
            point(s) + text.len(),
        ),
        inserted(s.text, i, text) == s.text.take(i) + text + s.text.skip(i),
        removed(s.text, i, j) == s.text.take(i) + s.text.skip(j),
{
}

} // verus!
