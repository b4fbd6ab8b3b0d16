//! Completion of slash commands.

use vstd::prelude::*;
use crate::text::{byte_len, text_len};
use crate::words::{contains_white_space, is_white_space, same_text, starts_with};

verus! {

/// Whether `s` is the start of a slash command: a slash, and no white space anywhere.
pub open spec fn is_slash_word(s: Seq<char>) -> bool {
    &&& s.len() > 0
    &&& s[0] == '/'
    &&& forall|i: int| 0 <= i < s.len() ==> !is_white_space(#[trigger] s[i])
}

/// The start of a slash command in front of the byte offset `pos`, which must be the end of
/// `line`.
pub fn slash_command_prefix(line: &str, pos: usize) -> (prefix: Option<&str>)
    ensures
        prefix is Some <==> pos == byte_len(line@) && is_slash_word(line@),
        prefix matches Some(prefix) ==> prefix@ == line@,
{
    if pos != text_len(line) {
        return None;
    }
    proof {
        reveal_strlit("/");
        assert("/"@.is_prefix_of(line@) <==> line@.len() > 0 && line@[0] == '/') by {
            if line@.len() > 0 && line@[0] == '/' {
                assert(line@.subrange(0, 1) =~= "/"@);
            }
            if "/"@.is_prefix_of(line@) {
                assert(line@.subrange(0, 1)[0] == line@[0]);
            }
        }
    }
    if contains_white_space(line) || !starts_with(line, "/") {
        return None;
    }
    Some(line)
}

/// The characters of each of the strings.
pub open spec fn texts(strings: Seq<String>) -> Seq<Seq<char>> {
    strings.map_values(|s: String| s@)
}

/// Whether `candidate` completes `prefix`.
pub open spec fn completes(prefix: Seq<char>, candidate: Seq<char>) -> bool {
    prefix.is_prefix_of(candidate) && candidate != prefix
}

/// The candidates that complete `prefix`, in their order.
pub open spec fn matches_of(candidates: Seq<Seq<char>>, prefix: Seq<char>) -> Seq<Seq<char>> {
    candidates.filter(|candidate: Seq<char>| completes(prefix, candidate))
}

/// The candidates that complete `prefix`, in their order.
pub fn matching_commands(candidates: &Vec<String>, prefix: &str) -> (found: Vec<String>)
    ensures
        texts(found@) == matches_of(texts(candidates@), prefix@),
{
    let mut found: Vec<String> = Vec::new();
    let ghost all: Seq<Seq<char>> = texts(candidates@);
    let ghost pred = |candidate: Seq<char>| completes(prefix@, candidate);
    let mut i: usize = 0;
    proof {
        assert(texts(found@) =~= all.take(0).filter(pred));
    }
    while i < candidates.len()
        invariant
            i <= candidates.len(),
            all == texts(candidates@),
            pred == |candidate: Seq<char>| completes(prefix@, candidate),
            texts(found@) == all.take(i as int).filter(pred),
        decreases candidates.len() - i,
    {
        let candidate = &candidates[i];
        proof {
            assert(all[i as int] == candidate@);
            assert(all.take(i + 1) =~= all.take(i as int).push(candidate@));
            all.take(i as int).lemma_filter_push(candidate@, pred);
        }
        if starts_with(candidate.as_str(), prefix) && !same_text(candidate.as_str(), prefix) {
            let ghost before: Seq<String> = found@;
            found.push(candidate.clone());
            assert(texts(found@) =~= texts(before).push(candidate@));
        }
        i = i + 1;
    }
    assert(all.take(candidates.len() as int) =~= all);
    found
}

/// Whether one of the strings is `text`.
pub fn contains_text(strings: &Vec<String>, text: &str) -> (result: bool)
    ensures
        result == texts(strings@).contains(text@),
{
    let mut i: usize = 0;
    while i < strings.len()
        invariant
            i <= strings.len(),
            forall|j: int| 0 <= j < i ==> #[trigger] texts(strings@)[j] != text@,
        decreases strings.len() - i,
    {
        assert(texts(strings@)[i as int] == strings[i as int]@);
        if same_text(strings[i].as_str(), text) {
            return true;
        }
        i = i + 1;
    }
    false
}

/// Whether the two lists hold the same strings in the same order.
pub fn same_texts(a: &Vec<String>, b: &Vec<String>) -> (result: bool)
    ensures
        result == (texts(a@) == texts(b@)),
{
    if a.len() != b.len() {
        assert(texts(a@).len() != texts(b@).len());
        return false;
    }
    let mut i: usize = 0;
    while i < a.len()
        invariant
            i <= a.len(),
            a.len() == b.len(),
            forall|j: int| 0 <= j < i ==> #[trigger] texts(a@)[j] == texts(b@)[j],
        decreases a.len() - i,
    {
        assert(texts(a@)[i as int] == a[i as int]@);
        assert(texts(b@)[i as int] == b[i as int]@);
        if !same_text(a[i].as_str(), b[i].as_str()) {
            return false;
        }
        i = i + 1;
    }
    assert(texts(a@) =~= texts(b@));
    true
}

} // verus!
