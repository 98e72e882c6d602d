use vstd::prelude::*;
use crate::driver::admits;
use crate::message::{Role, role_at};
use crate::parser::{parse, segments, turns};
use crate::resolver::new_message;
use crate::text::trimmed;

verus! {

/// When every piece is non-blank, each piece gives one turn, tagged by its position.
proof fn lemma_turns_of_nonblank(segs: Seq<Seq<char>>)
    requires
        forall|k: int| 0 <= k < segs.len() ==> trimmed(#[trigger] segs[k]).len() > 0,
    ensures
        turns(segs).len() == segs.len(),
        forall|k: int| 0 <= k < segs.len() ==> (#[trigger] turns(segs)[k]).0 == role_at(k),
    decreases segs.len(),
{
    if segs.len() > 0 {
        let prev = segs.drop_last();
        assert forall|k: int| 0 <= k < prev.len() implies trimmed(#[trigger] prev[k]).len() > 0 by {
            assert(prev[k] == segs[k]);
        }
        lemma_turns_of_nonblank(prev);
        assert(trimmed(segs[segs.len() - 1]).len() > 0);
    }
}

/// Roles alternate from `User` in a parsed window that lost nothing to the bound,
/// provided no piece but the last is blank.
pub proof fn parse_alternates_roles(s: Seq<char>, n: nat)
    requires
        forall|k: int|
            0 <= k < segments(s).len() - 1 ==> trimmed(#[trigger] segments(s)[k]).len() > 0,
        turns(segments(s)).len() <= n,
    ensures
        parse(s, n) == turns(segments(s)),
        forall|k: int| 0 <= k < parse(s, n).len() ==> (#[trigger] parse(s, n)[k]).0 == role_at(k),
        parse(s, n).len() > 0 ==> parse(s, n)[0].0 == Role::User,
{
    let segs = segments(s);
    if segs.len() > 0 {
        let prev = segs.drop_last();
        assert forall|k: int| 0 <= k < prev.len() implies trimmed(#[trigger] prev[k]).len() > 0 by {
            assert(prev[k] == segs[k]);
        }
        lemma_turns_of_nonblank(prev);
        if trimmed(segs.last()).len() == 0 {
            assert(turns(segs) == turns(prev));
        } else {
            assert forall|k: int| 0 <= k < segs.len() implies trimmed(#[trigger] segs[k]).len()
                > 0 by {
                if k < segs.len() - 1 {
                    assert(segs[k] == prev[k]);
                }
            }
            lemma_turns_of_nonblank(segs);
        }
    }
}

/// A parsed window never holds more than `n` turns; a longer transcript keeps
/// its last `n` turns in order.
pub proof fn parse_is_bounded(s: Seq<char>, n: nat)
    ensures
        parse(s, n).len() <= n,
        turns(segments(s)).len() > n ==> parse(s, n) == turns(segments(s)).subrange(
            turns(segments(s)).len() - n,
            turns(segments(s)).len() as int,
        ),
{
}

/// The new message depends on the transcript and the cursor alone, so asking
/// twice on the same buffer gives the same text.
pub proof fn extract_is_stable(s1: Seq<char>, c1: int, s2: Seq<char>, c2: int)
    requires
        s1 == s2,
        c1 == c2,
    ensures
        new_message(s1, c1) == new_message(s2, c2),
{
}

/// Of two change signals less than the debounce interval apart, at most one is
/// processed.
pub proof fn debounce_admits_one(last: int, t1: int, t2: int)
    requires
        t2 < t1 + crate::driver::DEBOUNCE_MS,
    ensures
        !(admits(last, t1) && admits(t1, t2)),
{
}

} // verus!
