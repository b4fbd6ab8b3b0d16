//! The selection of visual mode.

use vstd::prelude::*;
use vstd::string::StringExecFns;
use crate::text::{
    at_boundary, byte_len, byte_offset, char_index, char_len, lemma_boundary,
    lemma_index_of_offset, lemma_offset_ends, lemma_offset_monotone, lemma_offset_step,
    next_boundary, next_position, text_len,
};

verus! {

/// The smaller of two numbers.
pub open spec fn smaller(a: int, b: int) -> int {
    if a < b {
        a
    } else {
        b
    }
}

/// The larger of two numbers.
pub open spec fn larger(a: int, b: int) -> int {
    if a < b {
        b
    } else {
        a
    }
}

/// Whether the far end of a selection lies between two characters, or past the text.
pub open spec fn selection_fits(s: Seq<char>, anchor: int, cursor: int) -> bool {
    s.len() > 0 && larger(anchor, cursor) < byte_len(s) ==> at_boundary(s, larger(anchor, cursor))
}

/// What is selected: from the nearer of the two positions to the end of the character at the
/// farther one.
pub open spec fn selected(s: Seq<char>, anchor: int, cursor: int) -> Option<(int, int)> {
    if s.len() == 0 {
        None
    } else {
        Some(
            (
                smaller(smaller(anchor, cursor), byte_len(s)),
                next_position(s, larger(anchor, cursor)),
            ),
        )
    }
}

/// The positions between which `text` is selected.
pub fn selection_bounds(text: &str, anchor: usize, cursor: usize) -> (bounds: Option<
    (usize, usize),
>)
    requires
        selection_fits(text@, anchor as int, cursor as int),
    ensures
        match (bounds, selected(text@, anchor as int, cursor as int)) {
            (Some(found), Some(expected)) => found.0 == expected.0 && found.1 == expected.1,
            (None, None) => true,
            _ => false,
        },
{
    if text.is_empty() {
        return None;
    }
    let len: usize = text_len(text);
    let (near, far) = if cursor >= anchor {
        (anchor, cursor)
    } else {
        (cursor, anchor)
    };
    let end: usize = next_boundary(text, far);
    let start: usize = if near < len {
        near
    } else {
        len
    };
    Some((start, end))
}

/// The escape sequence that turns reverse video on.
pub open spec fn reverse_on() -> Seq<char> {
    "\x1b[7m"@
}

/// The escape sequence that resets the rendition.
pub open spec fn reverse_off() -> Seq<char> {
    "\x1b[0m"@
}

/// `s` with the characters from the index `i` to the index `j` in reverse video.
pub open spec fn reversed(s: Seq<char>, i: int, j: int) -> Seq<char> {
    s.take(i) + reverse_on() + s.subrange(i, j) + reverse_off() + s.skip(j)
}

/// Whether a character of `s` starts at the byte offset `b`.
pub open spec fn starts_char(s: Seq<char>, b: int) -> bool {
    at_boundary(s, b) && b < byte_len(s)
}

/// `s` with the part between two byte offsets in reverse video.  Where no character starts at
/// `start`, nothing is; where none starts at `end` from there on, everything after `start` is.
pub open spec fn highlighted(s: Seq<char>, start: int, end: int) -> Seq<char> {
    if starts_char(s, start) {
        if start <= end && starts_char(s, end) {
            reversed(s, char_index(s, start), char_index(s, end))
        } else {
            reversed(s, char_index(s, start), s.len() as int)
        }
    } else {
        s
    }
}

/// `text` with the selection from `start` to `end` in reverse video.
pub fn render_selected_text(text: &str, start: usize, end: usize) -> (rendered: String)
    ensures
        rendered@ == highlighted(text@, start as int, end as int),
{
    let ghost s: Seq<char> = text@;
    let len: usize = text_len(text);
    let mut rendered = String::new();
    let mut in_selection: bool = false;
    let mut position: usize = 0;
    // The indices at which the selection was opened and closed, where it was.
    let ghost mut opened: Option<int> = None;
    let ghost mut closed: Option<int> = None;
    proof {
        lemma_offset_ends(s);
    }
    for c in it: text.chars()
        invariant
            it.seq() == s,
            len == byte_len(s),
            byte_offset(s, s.len() as int) == len,
            position == byte_offset(s, it.index()),
            in_selection == (opened is Some && closed is None),
            match (opened, closed) {
                (None, None) => {
                    &&& rendered@ == s.take(it.index() as int)
                    &&& forall|k: int| 0 <= k < it.index() ==> #[trigger] byte_offset(s, k) != start
                },
                (Some(i), None) => {
                    &&& 0 <= i < it.index()
                    &&& byte_offset(s, i) == start
                    &&& rendered@ == s.take(i) + reverse_on() + s.subrange(i, it.index() as int)
                    &&& forall|k: int| i <= k < it.index() ==> #[trigger] byte_offset(s, k) != end
                },
                (Some(i), Some(j)) => {
                    &&& 0 <= i <= j < it.index()
                    &&& byte_offset(s, i) == start
                    &&& byte_offset(s, j) == end
                    &&& rendered@ == s.take(i) + reverse_on() + s.subrange(i, j) + reverse_off()
                        + s.subrange(j, it.index() as int)
                },
                (None, Some(_)) => false,
            },
    {
        let ghost n: int = it.index();
        proof {
            lemma_offset_step(s, n);
            lemma_offset_monotone(s, n + 1, s.len() as int);
            if opened is Some {
                lemma_offset_monotone(s, opened->0, n);
            }
        }
        if !in_selection && position == start {
            rendered.append("\x1b[7m");
            in_selection = true;
            proof {
                opened = Some(n);
                assert(s.subrange(n, n) =~= Seq::<char>::empty());
            }
        }
        if in_selection && position == end {
            rendered.append("\x1b[0m");
            in_selection = false;
            proof {
                closed = Some(n);
                assert(s.subrange(n, n) =~= Seq::<char>::empty());
            }
        }
        rendered.push(c);
        position = position + char_len(c);
        proof {
            match (opened, closed) {
                (None, None) => {
                    assert(s.take(n + 1) =~= s.take(n).push(c));
                },
                (Some(i), None) => {
                    assert(s.subrange(i, n + 1) =~= s.subrange(i, n).push(c));
                    assert(rendered@ =~= s.take(i) + reverse_on() + s.subrange(i, n + 1));
                },
                (Some(i), Some(j)) => {
                    assert(s.subrange(j, n + 1) =~= s.subrange(j, n).push(c));
                    assert(rendered@ =~= s.take(i) + reverse_on() + s.subrange(i, j)
                        + reverse_off() + s.subrange(j, n + 1));
                },
                _ => {},
            }
        }
    }
    if in_selection {
        rendered.append("\x1b[0m");
    }
    proof {
        let n: int = s.len() as int;
        match opened {
            None => {
                if starts_char(s, start as int) {
                    lemma_boundary(s, start as int);
                }
                assert(s.take(n) =~= s);
            },
            Some(i) => {
                lemma_index_of_offset(s, i);
                lemma_offset_monotone(s, i + 1, n);
                lemma_offset_step(s, i);
                match closed {
                    None => {
                        if start <= end && starts_char(s, end as int) {
                            lemma_boundary(s, end as int);
                            let k: int = char_index(s, end as int);
                            if k < i {
                                lemma_offset_monotone(s, k, i);
                            }
                        }
                        assert(s.skip(n) =~= Seq::<char>::empty());
                        assert(rendered@ =~= reversed(s, i, n));
                    },
                    Some(j) => {
                        lemma_index_of_offset(s, j);
                        lemma_offset_step(s, j);
                        lemma_offset_monotone(s, j + 1, n);
                        lemma_offset_monotone(s, i, j);
                        assert(s.subrange(j, n) =~= s.skip(j));
                        assert(rendered@ =~= reversed(s, i, j));
                    },
                }
            },
        }
    }
    rendered
}

} // verus!
