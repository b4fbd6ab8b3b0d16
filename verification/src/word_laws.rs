//! What holds of white space, of submitted lines and of what the history takes.

use vstd::prelude::*;
use crate::model::{is_toggle, submit_action, ActionView, EditorView};
use crate::words::{
    is_blank, is_white_space, lemma_trim_end, lemma_trim_start, lemma_without_line_breaks, trim_end,
    trim_start, trimmed, without_line_breaks,
};

verus! {

/// Whether `n` is the code point of a character with the Unicode property `White_Space`.
pub open spec fn space_code(n: int) -> bool {
    ||| 9 <= n <= 13
    ||| n == 32
    ||| n == 133
    ||| n == 160
    ||| n == 5760
    ||| 8192 <= n <= 8202
    ||| n == 8232
    ||| n == 8233
    ||| n == 8239
    ||| n == 8287
    ||| n == 12288
}

/// White space is told by its code point.
pub proof fn law_white_space(c: char)
    ensures
        is_white_space(c) <==> space_code(c as int),
{
}

/// Trimming takes the white space off both ends, and nothing else.
pub proof fn law_trimming(before: Seq<char>, word: Seq<char>, after: Seq<char>)
    requires
        forall|i: int| 0 <= i < before.len() ==> space_code(#[trigger] before[i] as int),
        forall|i: int| 0 <= i < after.len() ==> space_code(#[trigger] after[i] as int),
        word.len() > 0 ==> !space_code(word[0] as int) && !space_code(word.last() as int),
    ensures
        trimmed(before + word + after) == word,
{
    let line = before + word + after;
    if word.len() > 0 {
        let n = before.len() as int;
        assert(line.take(n) =~= before);
        assert(line[n] == word[0]);
        lemma_trim_start(line, n);
        let rest = line.skip(n);
        let m = word.len() as int;
        assert(rest.skip(m) =~= after);
        assert(rest[m - 1] == word.last());
        lemma_trim_end(rest, m);
        assert(rest.take(m) =~= word);
    } else {
        assert(line.take(line.len() as int) =~= line);
        assert(is_blank(line));
        lemma_trim_start(line, line.len() as int);
        assert(line.skip(line.len() as int) =~= Seq::<char>::empty());
        assert(word =~= Seq::<char>::empty());
    }
}

/// What trimming the start leaves is the text from some index on, with white space in front.
proof fn lemma_trim_start_part(s: Seq<char>) -> (i: int)
    ensures
        0 <= i <= s.len(),
        trim_start(s) == s.skip(i),
        forall|m: int| 0 <= m < i ==> is_white_space(#[trigger] s[m]),
    decreases s.len(),
{
    if s.len() > 0 && is_white_space(s[0]) {
        let i: int = lemma_trim_start_part(s.drop_first());
        assert(s.drop_first().skip(i) =~= s.skip(i + 1));
        assert forall|m: int| 0 <= m < i + 1 implies is_white_space(#[trigger] s[m]) by {
            if m > 0 {
                assert(s.drop_first()[m - 1] == s[m]);
            }
        }
        i + 1
    } else {
        assert(s.skip(0) =~= s);
        0
    }
}

/// What trimming the end leaves is the text up to some index, with white space behind.
proof fn lemma_trim_end_part(s: Seq<char>) -> (j: int)
    ensures
        0 <= j <= s.len(),
        trim_end(s) == s.take(j),
        forall|m: int| j <= m < s.len() ==> is_white_space(#[trigger] s[m]),
    decreases s.len(),
{
    if s.len() > 0 && is_white_space(s.last()) {
        let j: int = lemma_trim_end_part(s.drop_last());
        assert(s.drop_last().take(j) =~= s.take(j));
        assert forall|m: int| j <= m < s.len() implies is_white_space(#[trigger] s[m]) by {
            if m < s.len() - 1 {
                assert(s.drop_last()[m] == s[m]);
            }
        }
        j
    } else {
        assert(s.take(s.len() as int) =~= s);
        s.len() as int
    }
}

/// Whether `line` is white space but for the four characters of `/vim` from the index `i` on.
pub open spec fn vim_alone_at(line: Seq<char>, i: int) -> bool {
    &&& 0 <= i
    &&& i + 4 <= line.len()
    &&& line[i] == '/'
    &&& line[i + 1] == 'v'
    &&& line[i + 2] == 'i'
    &&& line[i + 3] == 'm'
    &&& forall|m: int|
        0 <= m < line.len() && !(i <= m < i + 4) ==> space_code(#[trigger] line[m] as int)
}

/// A line switches vim key bindings exactly where it is white space, then `/vim`, then white space;
/// every other line is submitted as it stands.
pub proof fn law_only_vim_switches(line: Seq<char>)
    ensures
        is_toggle(line) <==> exists|i: int| vim_alone_at(line, i),
        (exists|i: int| vim_alone_at(line, i)) ==> submit_action(line) == ActionView::ToggleVim,
        !(exists|i: int| vim_alone_at(line, i)) ==> submit_action(line) == ActionView::Submit(line),
{
    reveal_strlit("/vim");
    if is_toggle(line) {
        let i: int = lemma_trim_start_part(line);
        let rest = line.skip(i);
        let j: int = lemma_trim_end_part(rest);
        let word = rest.take(j);
        assert(word == "/vim"@);
        assert(j == 4);
        assert(word[0] == line[i] && word[1] == line[i + 1] && word[2] == line[i + 2] && word[3]
            == line[i + 3]);
        assert forall|m: int| 0 <= m < line.len() && !(i <= m < i + 4) implies space_code(
            #[trigger] line[m] as int,
        ) by {
            if m >= i + 4 {
                assert(rest[m - i] == line[m]);
            }
        }
        assert(vim_alone_at(line, i));
    }
    if exists|i: int| vim_alone_at(line, i) {
        let i: int = choose|i: int| vim_alone_at(line, i);
        let word = line.subrange(i, i + 4);
        assert(word =~= "/vim"@);
        assert(line =~= line.take(i) + word + line.skip(i + 4));
        law_trimming(line.take(i), word, line.skip(i + 4));
    }
}

/// The history takes an entry as its last exactly where that has a character other than white
/// space, and nothing else of the editor changes.
pub proof fn law_history_takes_entries(e: EditorView, entry: Seq<char>)
    ensures
        (exists|i: int| 0 <= i < entry.len() && !space_code(#[trigger] entry[i] as int))
            ==> e.with_history_entry(entry) == (EditorView {
            history: e.history.push(entry),
            ..e
        }),
        (forall|i: int| 0 <= i < entry.len() ==> space_code(#[trigger] entry[i] as int))
            ==> e.with_history_entry(entry) == e,
{
    if exists|i: int| 0 <= i < entry.len() && !space_code(#[trigger] entry[i] as int) {
        let i: int = choose|i: int| 0 <= i < entry.len() && !space_code(#[trigger] entry[i] as int);
        assert(!is_white_space(entry[i]));
    } else {
        assert(is_blank(entry));
    }
}

/// All carriage returns and newlines at the end of a line are taken off, and nothing else.
pub proof fn law_line_breaks_are_taken_off(line: Seq<char>, breaks: Seq<char>)
    requires
        forall|i: int|
            0 <= i < breaks.len() ==> #[trigger] breaks[i] == '\n' || breaks[i] == '\r',
        line.len() > 0 ==> line.last() != '\n' && line.last() != '\r',
    ensures
        without_line_breaks(line + breaks) == line,
{
    let whole = line + breaks;
    assert forall|i: int| line.len() <= i < whole.len() implies crate::words::is_line_break(
        #[trigger] whole[i],
    ) by {
        assert(whole[i] == breaks[i - line.len()]);
    }
    lemma_without_line_breaks(whole, line.len() as int);
    assert(whole.take(line.len() as int) =~= line);
}

} // verus!
