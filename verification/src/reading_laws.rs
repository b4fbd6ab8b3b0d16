//! What holds of reading a whole line, with and without a terminal.

use vstd::prelude::*;
use crate::key_laws::buffer;
use crate::keys::KeyEvent;
use crate::laws::{
    law_keys_count_completions, law_keys_keep_history_known, law_keys_keep_sessions_valid,
    law_keys_keep_settings, law_keys_keep_the_mode_fit, law_submit,
};
use crate::model::{
    after_key, completion_count, history_known, is_toggle, key_fits, mode_fits, ActionView,
    EditorView,
};
use crate::paint_laws::law_clearing;
use crate::reading::{
    action_fits, after_event, after_fallback, after_paint, next_fits, next_of, paint_of,
    progress_of, read_keys, read_lines, start_fits, start_paint, toggle_message, FallbackStep,
    FallbackView, Next, NextView, OutcomeView, Progress, ProgressView,
};
use crate::session::SessionView;
use crate::terminal::{clear_paint, OpView};
use crate::text::{byte_len, lemma_offset_ends, lemma_offset_monotone};
use crate::word_laws::{
    law_line_breaks_are_taken_off, law_only_vim_switches, vim_alone_at,
};
use crate::words::{is_line_break, is_white_space, trim_start, trimmed, without_line_breaks};

verus! {

/// What a key event asks for, where it is one that is acted on.
pub open spec fn action_at(e: EditorView, s: SessionView, key: KeyEvent) -> Option<ActionView> {
    if key.is_release() {
        None
    } else {
        Some(after_key(e, s, key).2)
    }
}

/// The outcome of an action, where it ends the line.
pub open spec fn outcome_of(action: ActionView) -> Option<OutcomeView> {
    match action {
        ActionView::Submit(line) => Some(OutcomeView::Submit(line)),
        ActionView::Cancel => Some(OutcomeView::Cancel),
        ActionView::Exit => Some(OutcomeView::Exit),
        _ => None,
    }
}

/// Whether the key event with the index `i` is the first that ends the line: none before it did, it
/// is no release, and it asks to submit, to cancel or to exit.
pub open spec fn ends_at(e: EditorView, s: SessionView, keys: Seq<KeyEvent>, i: int) -> bool {
    let (e2, s2, outcome) = read_keys(e, s, keys.take(i));
    &&& 0 <= i < keys.len()
    &&& outcome is None
    &&& !keys[i].is_release()
    &&& outcome_of(after_key(e2, s2, keys[i]).2) is Some
}

/// Reading key events one by one goes on from where the earlier ones led, until the line ends.
#[verifier::rlimit(60)]
pub proof fn law_reading_goes_on(
    e: EditorView,
    s: SessionView,
    keys: Seq<KeyEvent>,
    more: Seq<KeyEvent>,
)
    ensures
        ({
            let (e2, s2, outcome) = read_keys(e, s, keys);
            read_keys(e, s, keys + more) == (if outcome is Some {
                (e2, s2, outcome)
            } else {
                read_keys(e2, s2, more)
            })
        }),
    decreases more.len(),
{
    if more.len() == 0 {
        assert(keys + more =~= keys);
    } else {
        law_reading_goes_on(e, s, keys, more.drop_last());
        assert((keys + more).drop_last() =~= keys + more.drop_last());
    }
}

/// Painting a new session changes nothing of it: reading a line starts with the new session, before
/// the first key and after each switch of vim key bindings.
pub proof fn law_painting_keeps_a_new_session(e: EditorView)
    ensures
        ({
            let fresh = SessionView::fresh(e.vim_enabled);
            after_paint(e, fresh, NextView::ReadKey) == (e, fresh, None::<OutcomeView>)
        }),
{
}

/// What comes once an action was painted: an outcome where the action ends the line, and a flip of
/// vim key bindings and a new session exactly after a switch.
proof fn lemma_after_paint(e: EditorView, s: SessionView, action: ActionView)
    ensures
        ({
            let after = after_paint(e, s, next_of(action));
            &&& after.2 == outcome_of(action)
            &&& outcome_of(action) is Some ==> after.0 == e && after.1 == s
            &&& action == ActionView::ToggleVim ==> after.0 == e.toggled() && after.1
                == SessionView::fresh(!e.vim_enabled)
            &&& action != ActionView::ToggleVim ==> after.0 == e
        }),
{
}

/// What a line comes to where the key event with the index `i` is the first that ends it.
#[verifier::rlimit(60)]
proof fn lemma_ends_at(e: EditorView, s: SessionView, keys: Seq<KeyEvent>, i: int)
    requires
        ends_at(e, s, keys, i),
    ensures
        ({
            let (e2, s2, outcome) = read_keys(e, s, keys.take(i));
            let after = after_key(e2, s2, keys[i]);
            read_keys(e, s, keys) == (after.0, after.1, outcome_of(after.2))
        }),
{
    let (e2, s2, outcome) = read_keys(e, s, keys.take(i));
    let after = after_key(e2, s2, keys[i]);
    lemma_after_paint(after.0, after.1, after.2);
    assert(keys.take(i + 1).drop_last() =~= keys.take(i));
    assert(keys.take(i + 1).last() == keys[i]);
    assert(keys =~= keys.take(i + 1) + keys.skip(i + 1));
    law_reading_goes_on(e, s, keys.take(i + 1), keys.skip(i + 1));
}

/// Where a line has ended, some key event is the first that ended it.
#[verifier::rlimit(60)]
proof fn lemma_some_key_ended(e: EditorView, s: SessionView, keys: Seq<KeyEvent>) -> (i: int)
    requires
        read_keys(e, s, keys).2 is Some,
    ensures
        ends_at(e, s, keys, i),
    decreases keys.len(),
{
    let n = keys.len() - 1;
    let before = keys.drop_last();
    assert(keys.take(n) =~= before);
    let (e2, s2, outcome) = read_keys(e, s, before);
    if outcome is Some {
        let i: int = lemma_some_key_ended(e, s, before);
        assert(keys.take(i) =~= before.take(i));
        i
    } else {
        let after = after_key(e2, s2, keys.last());
        lemma_after_paint(after.0, after.1, after.2);
        n
    }
}

/// A line ends with the first key event that is no release and asks to submit, cancel or exit; its
/// outcome is what that one asks for, and nothing behind it is read.
#[verifier::rlimit(60)]
pub proof fn law_a_line_ends_with_the_first_finish(
    e: EditorView,
    s: SessionView,
    keys: Seq<KeyEvent>,
)
    ensures
        read_keys(e, s, keys).2 is Some <==> exists|i: int| ends_at(e, s, keys, i),
        forall|i: int| #[trigger]
            ends_at(e, s, keys, i) ==> {
                let (e2, s2, outcome) = read_keys(e, s, keys.take(i));
                let after = after_key(e2, s2, keys[i]);
                read_keys(e, s, keys) == (after.0, after.1, outcome_of(after.2))
            },
{
    assert forall|i: int| #[trigger] ends_at(e, s, keys, i) implies {
        let (e2, s2, outcome) = read_keys(e, s, keys.take(i));
        let after = after_key(e2, s2, keys[i]);
        read_keys(e, s, keys) == (after.0, after.1, outcome_of(after.2))
    } by {
        lemma_ends_at(e, s, keys, i);
    }
    if read_keys(e, s, keys).2 is Some {
        let i: int = lemma_some_key_ended(e, s, keys);
        assert(ends_at(e, s, keys, i));
    }
}

/// Releases are not acted on: without them the line is read the same.
#[verifier::rlimit(60)]
pub proof fn law_releases_are_skipped(e: EditorView, s: SessionView, keys: Seq<KeyEvent>)
    ensures
        read_keys(e, s, keys) == read_keys(
            e,
            s,
            keys.filter(|key: KeyEvent| !key.is_release()),
        ),
    decreases keys.len(),
{
    let pred = |key: KeyEvent| !key.is_release();
    if keys.len() == 0 {
        reveal(Seq::filter);
    } else {
        let before = keys.drop_last();
        law_releases_are_skipped(e, s, before);
        before.lemma_filter_push(keys.last(), pred);
        assert(keys =~= before.push(keys.last()));
        if pred(keys.last()) {
            let kept = before.filter(pred);
            assert(kept.push(keys.last()).drop_last() =~= kept);
        }
    }
}

/// How often vim key bindings are switched while the key events are read.
pub open spec fn toggles(e: EditorView, s: SessionView, keys: Seq<KeyEvent>) -> nat
    decreases keys.len(),
{
    if keys.len() == 0 {
        0
    } else {
        let before = keys.drop_last();
        let (e2, s2, outcome) = read_keys(e, s, before);
        let last = outcome is None && action_at(e2, s2, keys.last()) == Some(ActionView::ToggleVim);
        toggles(e, s, before) + if last {
            1nat
        } else {
            0nat
        }
    }
}

/// A key event flips vim key bindings, and starts a new session, exactly where it asks for that.
#[verifier::rlimit(60)]
proof fn lemma_event_flips_vim(e: EditorView, s: SessionView, key: KeyEvent)
    ensures
        ({
            let after = after_event(e, s, key);
            let toggle = action_at(e, s, key) == Some(ActionView::ToggleVim);
            &&& after.0.vim_enabled == (if toggle {
                !e.vim_enabled
            } else {
                e.vim_enabled
            })
            &&& toggle ==> after.1 == SessionView::fresh(!e.vim_enabled) && after.2 is None
        }),
{
    let after = after_key(e, s, key);
    law_keys_keep_settings(e, s, key);
    lemma_after_paint(after.0, after.1, after.2);
}

/// Each switch while a line is read flips vim key bindings once, and the line goes on in a new
/// session; nothing else flips them.
#[verifier::rlimit(60)]
pub proof fn law_toggles_flip_vim(e: EditorView, s: SessionView, keys: Seq<KeyEvent>)
    ensures
        read_keys(e, s, keys).0.vim_enabled == (if toggles(e, s, keys) % 2 == 0 {
            e.vim_enabled
        } else {
            !e.vim_enabled
        }),
        keys.len() > 0 && toggles(e, s, keys) > toggles(e, s, keys.drop_last()) ==> {
            let (e2, s2, outcome) = read_keys(e, s, keys);
            outcome is None && s2 == SessionView::fresh(e2.vim_enabled)
        },
    decreases keys.len(),
{
    if keys.len() > 0 {
        let before = keys.drop_last();
        law_toggles_flip_vim(e, s, before);
        let (e2, s2, outcome) = read_keys(e, s, before);
        lemma_event_flips_vim(e2, s2, keys.last());
    }
}

/// Reading a line keeps the history, the prompt and the completions, whatever is pressed; and a
/// line that is submitted is never the one that switches vim key bindings.
#[verifier::rlimit(60)]
pub proof fn law_reading_keeps_settings(e: EditorView, s: SessionView, keys: Seq<KeyEvent>)
    ensures
        ({
            let (e2, s2, outcome) = read_keys(e, s, keys);
            &&& e2.history == e.history
            &&& e2.prompt == e.prompt
            &&& e2.completions == e.completions
            &&& outcome matches Some(OutcomeView::Submit(line)) ==> !is_toggle(line)
        }),
    decreases keys.len(),
{
    if keys.len() > 0 {
        law_reading_keeps_settings(e, s, keys.drop_last());
        let (e2, s2, outcome) = read_keys(e, s, keys.drop_last());
        law_keys_keep_settings(e2, s2, keys.last());
        law_submit(e2, s2, keys.last());
    }
}

/// While a line is read from a new session on, across all switches of vim key bindings, the session
/// stays valid, at an entry of the history that exists, if at any, and its mode fits.
#[verifier::rlimit(60)]
pub proof fn law_reading_keeps_sessions_valid(e: EditorView, keys: Seq<KeyEvent>)
    requires
        e.history.len() <= usize::MAX,
    ensures
        ({
            let (e2, s2, outcome) = read_keys(e, SessionView::fresh(e.vim_enabled), keys);
            &&& s2.valid()
            &&& history_known(e2, s2)
            &&& mode_fits(e2, s2)
        }),
    decreases keys.len(),
{
    let fresh = SessionView::fresh(e.vim_enabled);
    if keys.len() > 0 {
        law_reading_keeps_sessions_valid(e, keys.drop_last());
        law_reading_keeps_settings(e, fresh, keys.drop_last());
        let (e2, s2, outcome) = read_keys(e, fresh, keys.drop_last());
        let key = keys.last();
        law_keys_keep_sessions_valid(e2, s2, key);
        law_keys_keep_history_known(e2, s2, key);
        law_keys_keep_settings(e2, s2, key);
        law_keys_keep_the_mode_fit(e2, s2, key);
    }
}

/// Reading key events counts a completion on by at most one each.
#[verifier::rlimit(60)]
proof fn lemma_reading_counts_completions(e: EditorView, s: SessionView, keys: Seq<KeyEvent>)
    requires
        e.completion is None,
    ensures
        completion_count(read_keys(e, s, keys).0) <= keys.len(),
    decreases keys.len(),
{
    if keys.len() > 0 {
        lemma_reading_counts_completions(e, s, keys.drop_last());
        let (e2, s2, outcome) = read_keys(e, s, keys.drop_last());
        law_keys_count_completions(e2, s2, keys.last());
    }
}

/// While a line is read from a new session on, with no completion in progress at first, every key
/// is one that the editor can handle, as long as the keys can be counted.
#[verifier::rlimit(60)]
pub proof fn law_every_key_can_be_handled(e: EditorView, keys: Seq<KeyEvent>, key: KeyEvent)
    requires
        e.history.len() <= usize::MAX,
        e.completion is None,
        keys.len() < usize::MAX,
    ensures
        ({
            let (e2, s2, outcome) = read_keys(e, SessionView::fresh(e.vim_enabled), keys);
            key_fits(e2, s2, key)
        }),
{
    let fresh = SessionView::fresh(e.vim_enabled);
    let (e2, s2, outcome) = read_keys(e, fresh, keys);
    law_reading_keeps_sessions_valid(e, keys);
    law_reading_keeps_settings(e, fresh, keys);
    lemma_reading_counts_completions(e, fresh, keys);
    law_keys_keep_history_known(e2, s2, key);
}

/// `e` with vim key bindings switched `k` times.
pub open spec fn toggled_times(e: EditorView, k: nat) -> EditorView {
    EditorView {
        vim_enabled: if k % 2 == 0 {
            e.vim_enabled
        } else {
            !e.vim_enabled
        },
        ..e
    }
}

/// A line with a character in it has bytes.
proof fn lemma_line_has_bytes(line: Seq<char>)
    requires
        line.len() > 0,
    ensures
        byte_len(line) > 0,
{
    lemma_offset_ends(line);
    lemma_offset_monotone(line, 0, line.len() as int);
}

/// White space behind a line does not matter to trimming.
proof fn lemma_trimmed_push(s: Seq<char>, c: char)
    requires
        is_white_space(c),
    ensures
        trimmed(s.push(c)) == trimmed(s),
    decreases s.len(),
{
    let longer = s.push(c);
    if s.len() == 0 {
        reveal_with_fuel(trim_start, 2);
        assert(longer.drop_first() =~= s);
    } else if is_white_space(s[0]) {
        lemma_trimmed_push(s.drop_first(), c);
        assert(longer.drop_first() =~= s.drop_first().push(c));
    } else {
        assert(longer.drop_last() =~= s);
    }
}

/// The line breaks at the end of a line do not matter to whether it switches vim key bindings.
pub proof fn law_toggle_ignores_line_breaks(line: Seq<char>)
    ensures
        is_toggle(without_line_breaks(line)) == is_toggle(line),
    decreases line.len(),
{
    if line.len() > 0 && is_line_break(line.last()) {
        law_toggle_ignores_line_breaks(line.drop_last());
        lemma_trimmed_push(line.drop_last(), line.last());
        assert(line.drop_last().push(line.last()) =~= line);
    }
}

/// Without a terminal, each line that trims to `/vim` flips vim key bindings once and changes
/// nothing else of the editor, and reading goes on with the next line.
pub proof fn law_toggle_lines_flip_vim(
    e: EditorView,
    switches: Seq<Seq<char>>,
    rest: Seq<Seq<char>>,
)
    requires
        forall|i: int| 0 <= i < switches.len() ==> is_toggle(#[trigger] switches[i]),
    ensures
        read_lines(e, switches + rest) == read_lines(toggled_times(e, switches.len()), rest),
    decreases switches.len(),
{
    if switches.len() == 0 {
        assert(switches + rest =~= rest);
    } else {
        let line = switches[0];
        let all = switches + rest;
        assert(all[0] == line);
        reveal_strlit("/vim");
        if line.len() == 0 {
            assert(trimmed(line).len() == 0);
        }
        lemma_line_has_bytes(line);
        law_toggle_ignores_line_breaks(line);
        assert(all.drop_first() =~= switches.drop_first() + rest);
        assert forall|i: int| 0 <= i < switches.drop_first().len() implies is_toggle(
            #[trigger] switches.drop_first()[i],
        ) by {
            assert(switches.drop_first()[i] == switches[i + 1]);
        }
        law_toggle_lines_flip_vim(e.toggled(), switches.drop_first(), rest);
        assert(toggled_times(e.toggled(), (switches.len() - 1) as nat) == toggled_times(
            e,
            switches.len(),
        ));
    }
}

/// Without a terminal, after `k` lines that trim to `/vim`, the end of the input gives an exit, and
/// any other line is submitted without its trailing line breaks; vim key bindings were flipped `k`
/// times, and nothing else of the editor has changed.
pub proof fn law_lines_without_a_terminal(
    e: EditorView,
    switches: Seq<Seq<char>>,
    line: Seq<char>,
    rest: Seq<Seq<char>>,
)
    requires
        forall|i: int| 0 <= i < switches.len() ==> is_toggle(#[trigger] switches[i]),
        line.len() > 0,
        !is_toggle(line),
    ensures
        read_lines(e, switches) == (toggled_times(e, switches.len()), OutcomeView::Exit),
        read_lines(e, switches + seq![line] + rest) == (
            toggled_times(e, switches.len()),
            OutcomeView::Submit(without_line_breaks(line)),
        ),
{
    let last = seq![line] + rest;
    law_toggle_lines_flip_vim(e, switches, Seq::empty());
    assert(switches + Seq::<Seq<char>>::empty() =~= switches);
    law_toggle_lines_flip_vim(e, switches, last);
    assert(switches + seq![line] + rest =~= switches + last);
    assert(last[0] == line);
    lemma_line_has_bytes(line);
    law_toggle_ignores_line_breaks(line);
}

/// What comes of each action: after Continue the session is rendered and the next key read; a
/// submitted line is rendered for the last time and ends the reading; cancel and exit clear the
/// rendering, go to the next line and end the reading; and a switch of vim key bindings clears the
/// rendering.
pub proof fn law_actions_are_acted_on(e: EditorView, s: SessionView, line: Seq<char>)
    ensures
        next_of(ActionView::Continue) == NextView::ReadKey,
        paint_of(e, s, ActionView::Continue) == s.render_paint(e.prompt, e.vim_enabled),
        next_of(ActionView::Submit(line)) == NextView::Finish(OutcomeView::Submit(line)),
        paint_of(e, s, ActionView::Submit(line)) == s.finalize_paint(e.prompt, e.vim_enabled),
        next_of(ActionView::Cancel) == NextView::Finish(OutcomeView::Cancel),
        next_of(ActionView::Exit) == NextView::Finish(OutcomeView::Exit),
        paint_of(e, s, ActionView::Exit) == paint_of(e, s, ActionView::Cancel),
        s.rendered_cursor_row <= 65535 ==> {
            let cleared = clear_paint(s.rendered_cursor_row as int);
            &&& paint_of(e, s, ActionView::Cancel).outcome is Ok
            &&& paint_of(e, s, ActionView::Cancel).ops == cleared.ops.push(
                OpView::Print(seq!['\n']),
            )
        },
        s.rendered_cursor_row > 65535 ==> {
            &&& paint_of(e, s, ActionView::Cancel).outcome is Err
            &&& paint_of(e, s, ActionView::Cancel).ops.len() == 0
        },
        next_of(ActionView::ToggleVim) == NextView::Toggle,
        paint_of(e, s, ActionView::ToggleVim) == clear_paint(s.rendered_cursor_row as int),
{
    reveal_strlit("\n");
    assert("\n"@ =~= seq!['\n']);
    law_clearing(s.rendered_cursor_row as int);
}

/// What vim key bindings were switched to is said in a line of its own.
pub proof fn law_toggle_message(vim_enabled: bool)
    ensures
        toggle_message(vim_enabled) == seq!['V', 'i', 'm', ' ', 'm', 'o', 'd', 'e', ' '] + (
        if vim_enabled {
            seq!['e', 'n', 'a', 'b', 'l', 'e', 'd']
        } else {
            seq!['d', 'i', 's', 'a', 'b', 'l', 'e', 'd']
        }) + seq!['.', '\n'],
{
    reveal_strlit("Vim mode enabled.\n");
    reveal_strlit("Vim mode disabled.\n");
}

/// How reading goes on once an action was painted: a rendered session remembers that, and the next
/// key is read; a switch flips vim key bindings and nothing else of the editor, and prints the
/// message and then a new session; and an outcome ends the reading with everything as it is.
pub proof fn law_reading_proceeds(e: EditorView, s: SessionView, outcome: OutcomeView)
    ensures
        after_paint(e, s, NextView::ReadKey) == (e, s.rendered(), None::<OutcomeView>),
        progress_of(e, NextView::ReadKey) == ProgressView::ReadKey,
        after_paint(e, s, NextView::Toggle) == (
            EditorView { vim_enabled: !e.vim_enabled, ..e },
            SessionView::fresh(!e.vim_enabled),
            None::<OutcomeView>,
        ),
        progress_of(e, NextView::Toggle) is Repaint,
        ({
            let fresh = SessionView::fresh(!e.vim_enabled).render_paint(e.prompt, !e.vim_enabled);
            let paint = progress_of(e, NextView::Toggle)->Repaint_0;
            &&& paint.outcome == fresh.outcome
            &&& paint.ops == seq![OpView::Print(toggle_message(!e.vim_enabled))] + fresh.ops
        }),
        after_paint(e, s, NextView::Finish(outcome)) == (e, s, Some(outcome)),
        progress_of(e, NextView::Finish(outcome)) == ProgressView::Finish(outcome),
        e.toggled() == (EditorView { vim_enabled: !e.vim_enabled, ..e }),
        start_paint(e.prompt, e.vim_enabled) == SessionView::fresh(e.vim_enabled).render_paint(
            e.prompt,
            e.vim_enabled,
        ),
{
    let fresh = SessionView::fresh(!e.vim_enabled).render_paint(e.prompt, !e.vim_enabled);
    assert(progress_of(e, NextView::Toggle)->Repaint_0.ops =~= seq![
        OpView::Print(toggle_message(!e.vim_enabled)),
    ] + fresh.ops);
}

/// What painting and going on need is only that characters can be counted, and that a selection
/// that is to be shown can be cut out of the text.
pub proof fn law_what_reading_needs(e: EditorView, s: SessionView, action: ActionView)
    ensures
        action is Cancel || action is Exit || action is ToggleVim ==> action_fits(e, s, action),
        s.rendered_cursor_row > 65535 ==> action_fits(e, s, action),
        action is Submit && s.selection_fits() ==> action_fits(e, s, action),
        action is Continue && s.selection_fits() && s.prompt(e.prompt, e.vim_enabled).len()
            + buffer(s).len() < usize::MAX ==> action_fits(e, s, action),
        start_fits(e.prompt, e.vim_enabled) <==> SessionView::fresh(e.vim_enabled).prompt(
            e.prompt,
            e.vim_enabled,
        ).len() < usize::MAX,
        next_fits(e, s, NextView::ReadKey) <==> buffer(s).len() < usize::MAX,
        next_fits(e, s, NextView::Toggle) <==> SessionView::fresh(!e.vim_enabled).prompt(
            e.prompt,
            !e.vim_enabled,
        ).len() < usize::MAX,
        next_fits(e, s, NextView::Finish(OutcomeView::Exit)),
        next_fits(e, s, NextView::Finish(OutcomeView::Cancel)),
        forall|line: Seq<char>| #[trigger]
            next_fits(e, s, NextView::Finish(OutcomeView::Submit(line))),
{
}

/// What comes of a line that is read without a terminal, with its line breaks: nothing read is the
/// end of the input and exits; a line that is `/vim` and otherwise white space flips vim key
/// bindings, and nothing else of the editor, and says so; and any other line is submitted without
/// its trailing line breaks.
pub proof fn law_fallback(
    e: EditorView,
    bytes_read: int,
    line: Seq<char>,
    breaks: Seq<char>,
)
    requires
        forall|i: int| 0 <= i < breaks.len() ==> #[trigger] breaks[i] == '\n' || breaks[i] == '\r',
        line.len() > 0 ==> line.last() != '\n' && line.last() != '\r',
    ensures
        after_fallback(e, bytes_read, line + breaks) == (if bytes_read == 0 {
            (e, FallbackView::Finish(OutcomeView::Exit))
        } else if exists|i: int| vim_alone_at(line, i) {
            (
                EditorView { vim_enabled: !e.vim_enabled, ..e },
                FallbackView::Toggled(toggle_message(!e.vim_enabled)),
            )
        } else {
            (e, FallbackView::Finish(OutcomeView::Submit(line)))
        }),
{
    law_line_breaks_are_taken_off(line, breaks);
    law_only_vim_switches(line);
}

/// How reading goes on is shown as what it is.
pub proof fn law_progress_is_shown(
    next: Next,
    progress: Progress,
    step: FallbackStep,
)
    ensures
        next is ReadKey ==> next@ == NextView::ReadKey,
        next is Toggle ==> next@ == NextView::Toggle,
        next matches Next::Finish(outcome) ==> next@ == NextView::Finish(outcome@),
        progress is Fail ==> progress@ == ProgressView::Fail,
        progress is ReadKey ==> progress@ == ProgressView::ReadKey,
        progress matches Progress::Repaint(paint) ==> progress@ == ProgressView::Repaint(paint@),
        progress matches Progress::Finish(outcome) ==> progress@ == ProgressView::Finish(outcome@),
        step matches FallbackStep::Finish(outcome) ==> step@ == FallbackView::Finish(outcome@),
        step matches FallbackStep::Toggled(message) ==> step@ == FallbackView::Toggled(message@),
{
}

} // verus!
