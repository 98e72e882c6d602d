use vstd::prelude::*;
use crate::message::{Message, Role, message_views, role_at, role_for};
use crate::text::{chars_of, occurs_at, occurs_in_at, trim_bounds, trimmed};

verus! {

/// Marker that separates consecutive turns.
pub open spec fn delimiter() -> Seq<char> {
    seq!['\n', '*', '*', '*', '\n']
}

/// Most turns sent as context.
pub const MAX_CONTEXT_MESSAGES: usize = 6;

/// Pieces of `s` split on `p`, scanning left to right for occurrences that do not
/// overlap; the current piece starts at `start` and the scan stands at `pos`.
pub open spec fn split_from(s: Seq<char>, p: Seq<char>, start: int, pos: int) -> Seq<Seq<char>>
    decreases s.len() - pos,
{
    if p.len() == 0 || pos < 0 || pos + p.len() > s.len() {
        seq![s.subrange(start, s.len() as int)]
    } else if occurs_at(s, p, pos) {
        seq![s.subrange(start, pos)] + split_from(s, p, pos + p.len(), pos + p.len())
    } else {
        split_from(s, p, start, pos + 1)
    }
}

/// Pieces of a transcript between delimiters, in order.
pub open spec fn segments(s: Seq<char>) -> Seq<Seq<char>> {
    split_from(s, delimiter(), 0, 0)
}

/// Every non-empty trimmed piece, tagged with the role of its position.
pub open spec fn turns(segs: Seq<Seq<char>>) -> Seq<(Role, Seq<char>)>
    decreases segs.len(),
{
    if segs.len() == 0 {
        Seq::empty()
    } else {
        let prev = turns(segs.drop_last());
        let t = trimmed(segs.last());
        if t.len() == 0 {
            prev
        } else {
            prev.push((role_at(segs.len() - 1), t))
        }
    }
}

/// The last `n` entries of `m`, or all of them when there are fewer.
pub open spec fn last_n<T>(m: Seq<T>, n: nat) -> Seq<T> {
    if m.len() > n {
        m.subrange(m.len() - n, m.len() as int)
    } else {
        m
    }
}

/// The conversation window of transcript `s`: its last `n` turns.
pub open spec fn parse(s: Seq<char>, n: nat) -> Seq<(Role, Seq<char>)> {
    last_n(turns(segments(s)), n)
}

/// The delimiter as a vector of characters.
pub fn delimiter_chars() -> (r: Vec<char>)
    ensures
        r@ == delimiter(),
{
    let r = vec!['\n', '*', '*', '*', '\n'];
    assert(r@ =~= delimiter());
    r
}

/// Parses transcripts into bounded conversation windows.
#[derive(Debug)]
pub struct ChatContext {
    pub max_messages: usize,
}

/// Appends the turn held in `s[start..end]` when it is not blank.
fn push_turn(
    msgs: &mut Vec<Message>,
    content: &str,
    s: &Vec<char>,
    start: usize,
    end: usize,
    idx: usize,
)
    requires
        content@ == s@,
        start <= end <= s.len(),
    ensures
        ({
            let t = trimmed(s@.subrange(start as int, end as int));
            message_views(final(msgs)@) == if t.len() == 0 {
                message_views(old(msgs)@)
            } else {
                message_views(old(msgs)@).push((role_at(idx as int), t))
            }
        }),
{
    let (lo, hi) = trim_bounds(s, start, end);
    if lo < hi {
        let text = String::from_str(content.substring_char(lo, hi));
        let m = Message { role: role_for(idx), content: text };
        let ghost before = msgs@;
        msgs.push(m);
        assert(message_views(msgs@) =~= message_views(before).push(m@));
    }
}

impl ChatContext {
    /// A parser with the default window of six turns; the transcript it is
    /// created with is not kept.
    pub fn new(_content: String) -> (r: ChatContext)
        ensures
            r.max_messages == MAX_CONTEXT_MESSAGES,
    {
        ChatContext { max_messages: MAX_CONTEXT_MESSAGES }
    }

    /// A parser that keeps at most `max_messages` turns.
    pub fn with_max_messages(max_messages: usize) -> (r: ChatContext)
        ensures
            r.max_messages == max_messages,
    {
        ChatContext { max_messages }
    }

    /// The window of the transcript `content`.
    pub fn parse_messages(&self, content: &str) -> (r: Vec<Message>)
        ensures
            message_views(r@) == parse(content@, self.max_messages as nat),
    {
        let s = chars_of(content);
        let r = self.parse_prefix(content, &s, s.len());
        assert(s@.subrange(0, s@.len() as int) =~= content@);
        r
    }

    /// The window of the first `end` characters of a transcript.
    pub fn parse_prefix(&self, content: &str, s: &Vec<char>, end: usize) -> (r: Vec<Message>)
        requires
            content@ == s@,
            end <= s.len(),
        ensures
            message_views(r@) == parse(s@.subrange(0, end as int), self.max_messages as nat),
    {
        let ghost t = s@.subrange(0, end as int);
        let d = delimiter_chars();
        let mut msgs: Vec<Message> = Vec::new();
        let ghost mut acc: Seq<Seq<char>> = Seq::empty();
        let mut start: usize = 0;
        let mut pos: usize = 0;
        let mut idx: usize = 0;
        assert(message_views(msgs@) =~= turns(acc));
        while d.len() <= end - pos
            invariant
                d@ == delimiter(),
                content@ == s@,
                end <= s.len(),
                t == s@.subrange(0, end as int),
                start <= pos <= end,
                idx <= start,
                idx == acc.len(),
                acc + split_from(t, delimiter(), start as int, pos as int) == segments(t),
                message_views(msgs@) == turns(acc),
            decreases end - pos,
        {
            let found = occurs_in_at(s, &d, pos);
            assert(s@.subrange(pos as int, pos + 5) =~= t.subrange(pos as int, pos + 5));
            if found {
                push_turn(&mut msgs, content, s, start, pos, idx);
                proof {
                    let piece = s@.subrange(start as int, pos as int);
                    assert(piece =~= t.subrange(start as int, pos as int));
                    assert(acc.push(piece).drop_last() =~= acc);
                    assert(acc.push(piece) + split_from(t, delimiter(), pos + 5, pos + 5) =~= acc
                        + split_from(t, delimiter(), start as int, pos as int));
                    acc = acc.push(piece);
                }
                start = pos + 5;
                pos = pos + 5;
                idx = idx + 1;
            } else {
                pos = pos + 1;
            }
        }
        push_turn(&mut msgs, content, s, start, end, idx);
        proof {
            let piece = s@.subrange(start as int, end as int);
            assert(piece =~= t.subrange(start as int, end as int));
            assert(acc.push(piece).drop_last() =~= acc);
            assert(acc.push(piece) =~= acc + split_from(t, delimiter(), start as int, pos as int));
            acc = acc.push(piece);
        }
        let n = msgs.len();
        if n > self.max_messages {
            let ghost all = msgs@;
            let tail = msgs.split_off(n - self.max_messages);
            assert(message_views(tail@) =~= message_views(all).subrange(
                n - self.max_messages,
                n as int,
            ));
            tail
        } else {
            msgs
        }
    }
}

} // verus!
