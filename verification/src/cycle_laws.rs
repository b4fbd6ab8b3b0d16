//! What holds of going through the history and through the completions.

use vstd::prelude::*;
use crate::completion::{completes, is_slash_word, matches_of};
use crate::keys::{KeyCode, KeyEvent};
use crate::model::{
    after_down, after_key, after_tab, after_up, repeats_cycle, resumes_cycle, starts_cycle,
    ActionView, CompletionView, EditorView,
};
use crate::session::{EditorMode, SessionView};
use crate::word_laws::space_code;
use crate::words::is_white_space;

verus! {

/// After the up key, `n` times.
pub open spec fn after_ups(e: EditorView, s: SessionView, n: nat) -> SessionView
    decreases n,
{
    if n == 0 {
        s
    } else {
        after_up(e, after_ups(e, s, (n - 1) as nat))
    }
}

/// After the down key, `n` times.
pub open spec fn after_downs(e: EditorView, s: SessionView, n: nat) -> SessionView
    decreases n,
{
    if n == 0 {
        s
    } else {
        after_down(e, after_downs(e, s, (n - 1) as nat))
    }
}

/// The mode in which text is typed.
pub open spec fn typing_mode(e: EditorView) -> EditorMode {
    if e.vim_enabled {
        EditorMode::Insert
    } else {
        EditorMode::Plain
    }
}

/// The mode in which an entry of the history is shown.
pub open spec fn browsing_mode(mode: EditorMode) -> EditorMode {
    if mode == EditorMode::Plain || mode == EditorMode::Insert {
        mode
    } else {
        EditorMode::Normal
    }
}

/// The session `s` showing the entry of the history with the number `index`, with its own text
/// kept for later.
pub open spec fn browsing(e: EditorView, s: SessionView, index: int) -> SessionView {
    SessionView {
        text: e.history[index],
        cursor: e.history[index].len() as int,
        history_index: Some(index as usize),
        history_backup: Some(s.text),
        ..s.in_mode(browsing_mode(s.mode))
    }
}

/// The up key, pressed `n` times from the input, shows the entry that was added `n`-th last, and
/// the oldest one where there are fewer.
pub proof fn law_up_shows_older_entries(e: EditorView, s: SessionView, n: nat)
    requires
        s.mode != EditorMode::Command,
        s.history_index is None,
        0 < e.history.len() <= usize::MAX,
        n > 0,
    ensures
        after_ups(e, s, n) == browsing(
            e,
            s,
            if n <= e.history.len() {
                e.history.len() - n
            } else {
                0
            },
        ),
    decreases n,
{
    reveal_with_fuel(after_ups, 2);
    if n > 1 {
        law_up_shows_older_entries(e, s, (n - 1) as nat);
    }
}

/// The session `s` back at its own text, with the cursor at its end.
pub open spec fn back_at_input(e: EditorView, s: SessionView) -> SessionView {
    SessionView {
        cursor: s.text.len() as int,
        history_index: None,
        history_backup: None,
        ..s.in_mode(typing_mode(e))
    }
}

/// The down key, pressed `n` times, from an entry of the history.
proof fn lemma_downs(e: EditorView, s: SessionView, index: int, n: nat)
    requires
        s.mode != EditorMode::Command,
        0 <= index < e.history.len() <= usize::MAX,
    ensures
        after_downs(e, browsing(e, s, index), n) == (if index + n < e.history.len() {
            browsing(e, s, index + n)
        } else {
            back_at_input(e, s)
        }),
    decreases n,
{
    if n > 0 {
        lemma_downs(e, s, index, (n - 1) as nat);
        let before = after_downs(e, browsing(e, s, index), (n - 1) as nat);
        if index + n - 1 < e.history.len() {
            assert(before == browsing(e, s, index + n - 1));
        } else {
            assert(before == back_at_input(e, s));
        }
    }
}

/// Going up in the history and down again as often gives the input back: its text, with the cursor
/// at the end, in the mode in which text is typed.
pub proof fn law_history_gives_the_input_back(e: EditorView, s: SessionView, n: nat)
    requires
        s.mode != EditorMode::Command,
        s.history_index is None,
        0 < e.history.len() <= usize::MAX,
        n > 0,
    ensures
        after_downs(e, after_ups(e, s, n), n) == back_at_input(e, s),
        back_at_input(e, s).text == s.text,
{
    law_up_shows_older_entries(e, s, n);
    let index: int = if n <= e.history.len() {
        e.history.len() - n
    } else {
        0
    };
    lemma_downs(e, s, index, n);
}

/// The down key does nothing where no entry of the history is shown.
pub proof fn law_down_needs_an_entry(e: EditorView, s: SessionView)
    requires
        s.history_index is None,
    ensures
        after_down(e, s) == s,
{
}

/// After the tab key, `n` times.
pub open spec fn after_tabs(e: EditorView, s: SessionView, n: nat) -> (EditorView, SessionView)
    decreases n,
{
    if n == 0 {
        (e, s)
    } else {
        let (e2, s2) = after_tabs(e, s, (n - 1) as nat);
        after_tab(e2, s2)
    }
}

/// Where the start of a slash command is typed, pressing tab `n` times shows its completions in
/// their order, and after the last the first again.
pub proof fn law_tab_cycles(e: EditorView, s: SessionView, n: nat)
    requires
        s.mode != EditorMode::Command,
        e.completion is None,
        starts_cycle(e, s),
        n > 0,
    ensures
        ({
            let matches = matches_of(e.completions, s.text);
            let shown = matches[(n - 1) as int % matches.len() as int];
            after_tabs(e, s, n) == (
                EditorView {
                    completion: Some(
                        CompletionView { prefix: s.text, matches, next_index: n as int },
                    ),
                    ..e
                },
                SessionView { text: shown, cursor: shown.len() as int, ..s },
            )
        }),
    decreases n,
{
    let matches = matches_of(e.completions, s.text);
    assert(s.text.skip(s.cursor) =~= Seq::<char>::empty());
    reveal_with_fuel(after_tabs, 2);
    if n == 1 {
        assert(0int % (matches.len() as int) == 0) by {
            vstd::arithmetic::div_mod::lemma_small_mod(0, matches.len());
        }
        assert(matches[0] + s.text.skip(s.cursor) =~= matches[0]);
    } else {
        law_tab_cycles(e, s, (n - 1) as nat);
        let (e2, s2) = after_tabs(e, s, (n - 1) as nat);
        let i: int = (n - 2) as int % matches.len() as int;
        vstd::arithmetic::div_mod::lemma_mod_bound((n - 2) as int, matches.len() as int);
        assert(matches[i] == s2.text);
        assert(resumes_cycle(e2, s2));
        let shown = matches[(n - 1) as int % matches.len() as int];
        assert(shown + s2.text.skip(s2.cursor) =~= shown);
    }
}

/// What tab completes a text to is one of the completions, and extends the text.
pub proof fn law_completions_extend(e: EditorView, prefix: Seq<char>, i: int)
    requires
        0 <= i < matches_of(e.completions, prefix).len(),
    ensures
        ({
            let candidate = matches_of(e.completions, prefix)[i];
            &&& e.completions.contains(candidate)
            &&& prefix.is_prefix_of(candidate)
            &&& prefix.len() < candidate.len()
        }),
{
    let pred = |candidate: Seq<char>| completes(prefix, candidate);
    let matches = matches_of(e.completions, prefix);
    let candidate = matches[i];
    e.completions.lemma_filter_pred(pred, i);
    assert(matches.contains(candidate));
    e.completions.lemma_filter_contains_rev(pred, candidate);
    if prefix.len() == candidate.len() {
        assert(prefix =~= candidate);
    }
}

/// Every completion that extends a text is found.
pub proof fn law_completions_found(e: EditorView, prefix: Seq<char>, candidate: Seq<char>)
    requires
        e.completions.contains(candidate),
        prefix.is_prefix_of(candidate),
        prefix != candidate,
    ensures
        matches_of(e.completions, prefix).contains(candidate),
{
    let pred = |candidate: Seq<char>| completes(prefix, candidate);
    let i: int = choose|i: int| 0 <= i < e.completions.len() && e.completions[i] == candidate;
    e.completions.lemma_filter_contains(pred, i);
}

/// Tab leaves any text alone that is not the start of a slash command with the cursor behind it,
/// unless it is in the midst of a completion.
pub proof fn law_tab_needs_a_slash(e: EditorView, s: SessionView)
    requires
        e.completion is None,
        s.cursor != s.text.len() || !is_slash_word(s.text),
    ensures
        after_tab(e, s) == (e, s),
{
}

/// Whether `longer` starts with `text` and goes on behind it.
pub open spec fn extends(text: Seq<char>, longer: Seq<char>) -> bool {
    &&& text.len() < longer.len()
    &&& forall|i: int| 0 <= i < text.len() ==> #[trigger] longer[i] == text[i]
}

/// Whether `text` is a slash and what follows it up to the first white space, of which there is
/// none.
pub open spec fn slash_and_no_space(text: Seq<char>) -> bool {
    &&& text.len() > 0
    &&& text[0] == '/'
    &&& forall|i: int| 0 <= i < text.len() ==> !space_code(#[trigger] text[i] as int)
}

/// Whether `at` holds the indices of the completions that extend `text`, all of them, in order.
pub open spec fn are_extensions(
    completions: Seq<Seq<char>>,
    text: Seq<char>,
    at: Seq<int>,
) -> bool {
    &&& forall|i: int|
        0 <= i < at.len() ==> 0 <= #[trigger] at[i] < completions.len() && extends(
            text,
            completions[at[i]],
        )
    &&& forall|i: int, j: int| 0 <= i < j < at.len() ==> #[trigger] at[i] < #[trigger] at[j]
    &&& forall|m: int|
        0 <= m < completions.len() && extends(text, #[trigger] completions[m]) ==> at.contains(m)
}

/// The completions with the indices `at`.
pub open spec fn picked(completions: Seq<Seq<char>>, at: Seq<int>) -> Seq<Seq<char>> {
    Seq::new(at.len(), |i: int| completions[at[i]])
}

/// To extend a text is to complete it.
proof fn lemma_extends(text: Seq<char>, longer: Seq<char>)
    ensures
        extends(text, longer) <==> completes(text, longer),
{
    if extends(text, longer) {
        assert(longer.subrange(0, text.len() as int) =~= text);
    }
    if completes(text, longer) {
        assert(longer.subrange(0, text.len() as int) == text);
        assert forall|i: int| 0 <= i < text.len() implies #[trigger] longer[i] == text[i] by {
            assert(longer.subrange(0, text.len() as int)[i] == longer[i]);
        }
        if text.len() == longer.len() {
            assert(text =~= longer);
        }
    }
}

/// The slash commands are those texts that start with a slash and hold no white space.
pub proof fn law_slash_words(text: Seq<char>)
    ensures
        slash_and_no_space(text) <==> is_slash_word(text),
{
    if slash_and_no_space(text) {
        assert forall|i: int| 0 <= i < text.len() implies !is_white_space(#[trigger] text[i]) by {
            assert(!space_code(text[i] as int));
        }
    }
    if is_slash_word(text) {
        assert forall|i: int| 0 <= i < text.len() implies !space_code(
            #[trigger] text[i] as int,
        ) by {
            assert(!is_white_space(text[i]));
        }
    }
}

/// The matches are the completions that extend the text, in their order.
pub proof fn law_matches(completions: Seq<Seq<char>>, text: Seq<char>, at: Seq<int>)
    requires
        are_extensions(completions, text, at),
    ensures
        matches_of(completions, text) == picked(completions, at),
    decreases completions.len(),
{
    let pred = |candidate: Seq<char>| completes(text, candidate);
    if completions.len() == 0 {
        if at.len() > 0 {
            assert(0 <= at[0] < completions.len());
        }
        reveal(Seq::filter);
        assert(matches_of(completions, text) =~= picked(completions, at));
    } else {
        let n = completions.len() - 1;
        let front = completions.drop_last();
        let last = completions.last();
        assert(completions =~= front.push(last));
        front.lemma_filter_push(last, pred);
        lemma_extends(text, last);
        if extends(text, last) {
            assert(extends(text, completions[n]));
            let p: int = choose|p: int| 0 <= p < at.len() && at[p] == n;
            assert(at[p] == n);
            if p < at.len() - 1 {
                assert(at[p] < at[at.len() - 1]);
            }
            let rest = at.drop_last();
            assert forall|i: int| 0 <= i < rest.len() implies 0 <= #[trigger] rest[i] < front.len()
                && extends(text, front[rest[i]]) by {
                assert(rest[i] == at[i] && at[i] < at[at.len() - 1]);
                assert(extends(text, completions[at[i]]));
            }
            assert forall|i: int, j: int| 0 <= i < j < rest.len() implies #[trigger] rest[i]
                < #[trigger] rest[j] by {
                assert(at[i] < at[j]);
            }
            assert forall|m: int|
                0 <= m < front.len() && extends(text, #[trigger] front[m]) implies rest.contains(
                m,
            ) by {
                assert(extends(text, completions[m]));
                let q: int = choose|q: int| 0 <= q < at.len() && at[q] == m;
                assert(rest[q] == m);
            }
            law_matches(front, text, rest);
            assert(picked(completions, at) =~= picked(front, rest).push(last));
        } else {
            assert forall|i: int| 0 <= i < at.len() implies 0 <= #[trigger] at[i] < front.len()
                && extends(text, front[at[i]]) by {
                assert(extends(text, completions[at[i]]));
            }
            assert forall|m: int|
                0 <= m < front.len() && extends(text, #[trigger] front[m]) implies at.contains(
                m,
            ) by {
                assert(extends(text, completions[m]));
            }
            law_matches(front, text, at);
            assert(picked(completions, at) =~= picked(front, at));
        }
    }
}

/// The indices of the completions that extend a text can always be listed.
pub proof fn law_extensions_can_be_listed(completions: Seq<Seq<char>>, text: Seq<char>) -> (at: Seq<
    int,
>)
    ensures
        are_extensions(completions, text, at),
    decreases completions.len(),
{
    if completions.len() == 0 {
        Seq::empty()
    } else {
        let front = completions.drop_last();
        let n = completions.len() - 1;
        let rest = law_extensions_can_be_listed(front, text);
        let at = if extends(text, completions[n]) {
            rest.push(n)
        } else {
            rest
        };
        assert forall|i: int| 0 <= i < at.len() implies 0 <= #[trigger] at[i] < completions.len()
            && extends(text, completions[at[i]]) by {
            if i < rest.len() {
                assert(at[i] == rest[i]);
                assert(extends(text, front[rest[i]]));
            }
        }
        assert forall|i: int, j: int| 0 <= i < j < at.len() implies #[trigger] at[i]
            < #[trigger] at[j] by {
            assert(at[i] == rest[i]);
            if j < rest.len() {
                assert(at[j] == rest[j]);
            }
        }
        assert forall|m: int|
            0 <= m < completions.len() && extends(
                text,
                #[trigger] completions[m],
            ) implies at.contains(m) by {
            if m < n {
                assert(extends(text, front[m]));
                let q: int = choose|q: int| 0 <= q < rest.len() && rest[q] == m;
                assert(at[q] == m);
            } else {
                assert(at[at.len() - 1] == m);
            }
        }
        at
    }
}

/// With no completion in progress, Tab replaces a text of any length that starts with a slash and
/// holds no white space, with the cursor at its end, by the first completion that extends it, and
/// puts the cursor behind that.  Nothing else of the session changes, and a completion is in
/// progress.
#[verifier::rlimit(60)]
pub proof fn law_tab_completes(e: EditorView, s: SessionView, key: KeyEvent, first: int)
    requires
        key.code == KeyCode::Tab,
        !(s.mode is Command),
        e.completion is None,
        slash_and_no_space(s.text),
        s.cursor == s.text.len(),
        0 <= first < e.completions.len(),
        extends(s.text, e.completions[first]),
        forall|i: int| 0 <= i < first ==> !extends(s.text, #[trigger] e.completions[i]),
    ensures
        ({
            let (e2, s2, action) = after_key(e, s, key);
            &&& s2 == (SessionView {
                text: e.completions[first],
                cursor: e.completions[first].len() as int,
                ..s
            })
            &&& e2 == (EditorView { completion: e2.completion, ..e })
            &&& e2.completion is Some
            &&& action == ActionView::Continue
        }),
{
    let at = law_extensions_can_be_listed(e.completions, s.text);
    assert(extends(s.text, e.completions[first]));
    let q: int = choose|q: int| 0 <= q < at.len() && at[q] == first;
    if q > 0 {
        assert(at[0] < at[q]);
        assert(extends(s.text, e.completions[at[0]]));
    }
    law_tabs_cycle_through(e, s, key, at, 1);
    reveal_with_fuel(pressed, 2);
    vstd::arithmetic::div_mod::lemma_small_mod(0, at.len());
}

/// The editor and the session after the same key, `n` times.
pub open spec fn pressed(e: EditorView, s: SessionView, key: KeyEvent, n: nat) -> (
    EditorView,
    SessionView,
)
    decreases n,
{
    if n == 0 {
        (e, s)
    } else {
        let (e2, s2) = pressed(e, s, key, (n - 1) as nat);
        let after = after_key(e2, s2, key);
        (after.0, after.1)
    }
}

/// Tab, pressed `n` times behind a slash command, shows the completions that extend it in their
/// order, and behind the last the first again.  Nothing else of the session changes, and of the
/// editor only the completion in progress.
#[verifier::rlimit(60)]
pub proof fn law_tabs_cycle_through(
    e: EditorView,
    s: SessionView,
    key: KeyEvent,
    at: Seq<int>,
    n: nat,
)
    requires
        key.code == KeyCode::Tab,
        !(s.mode is Command),
        e.completion is None,
        slash_and_no_space(s.text),
        s.cursor == s.text.len(),
        are_extensions(e.completions, s.text, at),
        at.len() > 0,
        n > 0,
    ensures
        ({
            let shown = e.completions[at[(n - 1) % at.len() as int]];
            pressed(e, s, key, n) == (
                EditorView {
                    completion: Some(
                        CompletionView {
                            prefix: s.text,
                            matches: picked(e.completions, at),
                            next_index: n as int,
                        },
                    ),
                    ..e
                },
                SessionView { text: shown, cursor: shown.len() as int, ..s },
            )
        }),
{
    law_slash_words(s.text);
    law_matches(e.completions, s.text, at);
    law_tab_cycles(e, s, n);
    lemma_tabs_are_presses(e, s, key, n);
    vstd::arithmetic::div_mod::lemma_mod_bound((n - 1) as int, at.len() as int);
}

/// Tab is handled by the completion alone.
#[verifier::rlimit(60)]
proof fn lemma_tabs_are_presses(e: EditorView, s: SessionView, key: KeyEvent, n: nat)
    requires
        key.code == KeyCode::Tab,
    ensures
        pressed(e, s, key, n) == after_tabs(e, s, n),
    decreases n,
{
    if n > 0 {
        lemma_tabs_are_presses(e, s, key, (n - 1) as nat);
    }
}

/// Tab goes on with a completion in progress where the text is one of its matches, with the cursor
/// at the end: it shows the match that is next, counted around, and counts on.
#[verifier::rlimit(60)]
pub proof fn law_tab_goes_on(e: EditorView, s: SessionView, key: KeyEvent, i: int)
    requires
        key.code == KeyCode::Tab,
        !(s.mode is Command),
        e.completion is Some,
        0 <= i < e.completion->0.matches.len(),
        e.completion->0.matches[i] == s.text,
        s.cursor == s.text.len(),
    ensures
        ({
            let state = e.completion->0;
            let shown = state.matches[state.next_index % state.matches.len() as int];
            after_key(e, s, key) == (
                EditorView {
                    completion: Some(
                        CompletionView {
                            prefix: state.prefix,
                            matches: state.matches,
                            next_index: state.next_index + 1,
                        },
                    ),
                    ..e
                },
                SessionView { text: shown, cursor: shown.len() as int, ..s },
                ActionView::Continue,
            )
        }),
{
    let state = e.completion->0;
    assert(state.matches.contains(s.text));
    let shown = state.matches[state.next_index % state.matches.len() as int];
    assert(shown + s.text.skip(s.cursor) =~= shown);
}

/// Whether Tab finds no completion in progress to go on with: there is none, or the text is not
/// one of its matches, or the cursor does not stand at its end.
pub open spec fn nothing_to_go_on_with(e: EditorView, s: SessionView) -> bool {
    e.completion matches Some(state) ==> s.cursor != s.text.len() || forall|i: int|
        0 <= i < state.matches.len() ==> #[trigger] state.matches[i] != s.text
}

/// Tab changes nothing of the session, and ends any completion, while a command is typed; and
/// where it has none to go on with, if the text does not start with a slash, or holds white space,
/// or the cursor does not stand at its end, or no completion extends it.
#[verifier::rlimit(60)]
pub proof fn law_tab_finds_nothing(e: EditorView, s: SessionView, key: KeyEvent)
    requires
        key.code == KeyCode::Tab,
        s.mode is Command || (nothing_to_go_on_with(e, s) && (s.cursor != s.text.len()
            || !slash_and_no_space(s.text) || forall|i: int|
            0 <= i < e.completions.len() ==> !extends(s.text, #[trigger] e.completions[i]))),
    ensures
        after_key(e, s, key) == (
            EditorView { completion: None, ..e },
            s,
            ActionView::Continue,
        ),
{
    law_slash_words(s.text);
    if !(s.mode is Command) {
        let at = law_extensions_can_be_listed(e.completions, s.text);
        law_matches(e.completions, s.text, at);
        if e.completion is Some && s.cursor == s.text.len() {
            assert(!e.completion->0.matches.contains(s.text));
        }
        if at.len() > 0 {
            assert(extends(s.text, e.completions[at[0]]));
        }
    }
}

/// Where a completion is in progress that the text is no match of, Tab behind a slash command
/// starts anew with the first completion that extends it; but where it was in progress for the very
/// same text and matches, it shows the next of these.
#[verifier::rlimit(60)]
pub proof fn law_tab_starts_anew(e: EditorView, s: SessionView, key: KeyEvent, at: Seq<int>)
    requires
        key.code == KeyCode::Tab,
        !(s.mode is Command),
        e.completion is Some,
        nothing_to_go_on_with(e, s),
        slash_and_no_space(s.text),
        s.cursor == s.text.len(),
        are_extensions(e.completions, s.text, at),
        at.len() > 0,
    ensures
        ({
            let matches = picked(e.completions, at);
            let same = e.completion->0.prefix == s.text && e.completion->0.matches == matches;
            let index = if same {
                e.completion->0.next_index
            } else {
                0
            };
            let shown = matches[index % matches.len() as int];
            after_key(e, s, key) == (
                EditorView {
                    completion: Some(
                        CompletionView { prefix: s.text, matches, next_index: index + 1 },
                    ),
                    ..e
                },
                SessionView { text: shown, cursor: shown.len() as int, ..s },
                ActionView::Continue,
            )
        }),
{
    law_slash_words(s.text);
    law_matches(e.completions, s.text, at);
    let matches = picked(e.completions, at);
    assert(!e.completion->0.matches.contains(s.text));
    vstd::arithmetic::div_mod::lemma_small_mod(0, matches.len());
    let same = e.completion->0.prefix == s.text && e.completion->0.matches == matches;
    let index = if same {
        e.completion->0.next_index
    } else {
        0
    };
    let shown = matches[index % matches.len() as int];
    assert(shown + s.text.skip(s.cursor) =~= shown);
}

/// Whether Tab goes on with the completion in progress: with the cursor at its end, the text is one
/// of the matches, or the slash command that was completed, with the same matches as now.
pub proof fn law_when_tab_goes_on(e: EditorView, s: SessionView, at: Seq<int>)
    requires
        are_extensions(e.completions, s.text, at),
    ensures
        resumes_cycle(e, s) || repeats_cycle(e, s) <==> {
            &&& e.completion is Some
            &&& s.cursor == s.text.len()
            &&& {
                ||| exists|i: int|
                    0 <= i < e.completion->0.matches.len() && #[trigger] e.completion->0.matches[i]
                        == s.text
                ||| {
                    &&& slash_and_no_space(s.text)
                    &&& at.len() > 0
                    &&& e.completion->0.prefix == s.text
                    &&& e.completion->0.matches == picked(e.completions, at)
                }
            }
        },
{
    law_slash_words(s.text);
    law_matches(e.completions, s.text, at);
}

} // verus!
