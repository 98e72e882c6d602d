use vstd::prelude::*;
use crate::parser::{ChatContext, delimiter, delimiter_chars};
use crate::text::{chars_of, find_last, last_occurrence, trim_bounds, trimmed};

verus! {

/// Whether the last turn before `cursor` was written by the assistant: a
/// delimiter precedes the cursor and only white space follows it.
pub open spec fn ai_wrote_last(s: Seq<char>, cursor: int) -> bool {
    let pre = s.subrange(0, cursor);
    match last_occurrence(pre, delimiter()) {
        Some(i) => trimmed(pre.subrange(i + delimiter().len(), cursor)).len() == 0,
        None => false,
    }
}

/// The user text that the cursor has just completed.
pub open spec fn new_message(s: Seq<char>, cursor: int) -> Seq<char> {
    let pre = s.subrange(0, cursor);
    let dl = delimiter().len() as int;
    match last_occurrence(pre, delimiter()) {
        None => trimmed(pre),
        Some(i) => {
            let after = trimmed(pre.subrange(i + dl, cursor));
            if after.len() > 0 {
                after
            } else {
                match last_occurrence(pre.subrange(0, i), delimiter()) {
                    Some(j) => trimmed(pre.subrange(j + dl, i)),
                    None => trimmed(pre.subrange(0, i)),
                }
            }
        },
    }
}

/// `ai_wrote_last` on a transcript held as characters.
pub fn ai_wrote_last_in(s: &Vec<char>, cursor: usize) -> (r: bool)
    requires
        cursor <= s.len(),
    ensures
        r == ai_wrote_last(s@, cursor as int),
{
    let d = delimiter_chars();
    match find_last(s, cursor, &d) {
        Some(i) => {
            let (lo, hi) = trim_bounds(s, i + 5, cursor);
            assert(s@.subrange(i + 5, cursor as int) =~= s@.subrange(0, cursor as int).subrange(
                i + 5,
                cursor as int,
            ));
            lo == hi
        },
        None => false,
    }
}

/// Bounds of `new_message` on a transcript held as characters.
pub fn new_message_bounds(s: &Vec<char>, cursor: usize) -> (r: (usize, usize))
    requires
        cursor <= s.len(),
    ensures
        r.0 <= r.1 <= cursor,
        s@.subrange(r.0 as int, r.1 as int) == new_message(s@, cursor as int),
{
    let ghost pre = s@.subrange(0, cursor as int);
    let d = delimiter_chars();
    match find_last(s, cursor, &d) {
        None => {
            assert(s@.subrange(0, cursor as int) =~= pre);
            trim_bounds(s, 0, cursor)
        },
        Some(i) => {
            let (lo, hi) = trim_bounds(s, i + 5, cursor);
            assert(s@.subrange(i + 5, cursor as int) =~= pre.subrange(i + 5, cursor as int));
            if lo < hi {
                (lo, hi)
            } else {
                assert(s@.subrange(0, i as int) =~= pre.subrange(0, i as int));
                match find_last(s, i, &d) {
                    Some(j) => {
                        assert(s@.subrange(j + 5, i as int) =~= pre.subrange(j + 5, i as int));
                        trim_bounds(s, j + 5, i)
                    },
                    None => trim_bounds(s, 0, i),
                }
            }
        },
    }
}

impl ChatContext {
    /// Whether the turn that ends at `cursor_pos` (a character offset) was
    /// written by the assistant.
    pub fn is_last_message_from_ai(&self, content: &str, cursor_pos: usize) -> (r: bool)
        requires
            cursor_pos <= content@.len(),
        ensures
            r == ai_wrote_last(content@, cursor_pos as int),
    {
        let s = chars_of(content);
        ai_wrote_last_in(&s, cursor_pos)
    }

    /// The new user text that ends at `cursor_pos` (a character offset).
    pub fn extract_new_message(&self, content: &str, cursor_pos: usize) -> (r: String)
        requires
            cursor_pos <= content@.len(),
        ensures
            r@ == new_message(content@, cursor_pos as int),
    {
        let s = chars_of(content);
        let (lo, hi) = new_message_bounds(&s, cursor_pos);
        String::from_str(content.substring_char(lo, hi))
    }
}

} // verus!
