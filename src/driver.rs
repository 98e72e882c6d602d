use vstd::prelude::*;
use crate::message::{Message, Role, message_views};
use crate::parser::{ChatContext, delimiter, delimiter_chars, parse};
use crate::resolver::{ai_wrote_last, ai_wrote_last_in, new_message, new_message_bounds};
use crate::text::{chars_of, find_last, last_occurrence};

verus! {

/// Two newlines in a row: the user's message is complete.
pub open spec fn terminator() -> Seq<char> {
    seq!['\n', '\n']
}

/// Least time, in milliseconds, between two change signals that are both processed.
pub const DEBOUNCE_MS: u64 = 50;

/// Whether `s` ends with the terminator.
pub open spec fn ends_with_terminator(s: Seq<char>) -> bool {
    s.len() >= 2 && s.subrange(s.len() - 2, s.len() as int) == terminator()
}

/// Offset just past the last terminator of `s`, or its end when it has none.
pub open spec fn cursor_of(s: Seq<char>) -> int {
    match last_occurrence(s, terminator()) {
        Some(i) => i + 2,
        None => s.len() as int,
    }
}

/// The turns sent with a new user message: the window of the transcript before
/// the last delimiter ahead of the cursor, then the message itself.
pub open spec fn send_context(s: Seq<char>, n: nat) -> Seq<(Role, Seq<char>)> {
    let c = cursor_of(s);
    let prior = match last_occurrence(s.subrange(0, c), delimiter()) {
        Some(i) => parse(s.subrange(0, i), n),
        None => Seq::empty(),
    };
    prior.push((Role::User, new_message(s, c)))
}

/// What a processing pass decided for one snapshot of the transcript.
#[derive(Debug)]
pub enum Step {
    /// The snapshot equals the last one seen.
    Unchanged,
    /// The user is still typing: no terminator at the end.
    AwaitingTerminator,
    /// The last turn is the assistant's reply; nothing new to send.
    SkipAiJustResponded,
    /// The completed message is blank.
    SkipEmptyMessage,
    /// Send these turns, the new user message last.
    ReadyToSend { context: Vec<Message> },
}

/// `r` is the step owed for snapshot `content` when `last` was seen before and
/// the window holds `n` turns.
pub open spec fn step_of(r: Step, content: Seq<char>, last: Seq<char>, n: nat) -> bool {
    if content == last {
        r is Unchanged
    } else if !ends_with_terminator(content) {
        r is AwaitingTerminator
    } else if ai_wrote_last(content, cursor_of(content)) {
        r is SkipAiJustResponded
    } else if new_message(content, cursor_of(content)).len() == 0 {
        r is SkipEmptyMessage
    } else {
        r matches Step::ReadyToSend { context } && message_views(context@) == send_context(
            content,
            n,
        )
    }
}

/// Whether a change signal at `now` is processed after one processed at `last`.
pub open spec fn admits(last: int, now: int) -> bool {
    now >= last + DEBOUNCE_MS
}

/// Drops change signals that follow a processed one too closely.
#[derive(Debug)]
pub struct Debouncer {
    pub last_ms: u64,
}

impl Debouncer {
    /// A debouncer that counts `start_ms` as the last processed signal.
    pub fn new(start_ms: u64) -> (r: Debouncer)
        ensures
            r.last_ms == start_ms,
    {
        Debouncer { last_ms: start_ms }
    }

    /// Whether the signal at `now_ms` is processed; a processed one becomes the last.
    pub fn accept(&mut self, now_ms: u64) -> (r: bool)
        ensures
            r == admits(old(self).last_ms as int, now_ms as int),
            final(self).last_ms == if r {
                now_ms
            } else {
                old(self).last_ms
            },
    {
        if now_ms >= self.last_ms && now_ms - self.last_ms >= DEBOUNCE_MS {
            self.last_ms = now_ms;
            true
        } else {
            false
        }
    }
}

/// The text appended to the transcript for an assistant reply.
pub fn reply_text(response: &str) -> (r: String)
    ensures
        r@ == seq!['\n'] + response@ + delimiter(),
{
    let mut r = String::from_str("\n");
    r.append(response);
    r.append("\n***\n");
    proof {
        reveal_strlit("\n");
        reveal_strlit("\n***\n");
        assert("\n***\n"@ =~= delimiter());
    }
    r
}

/// Decides, snapshot by snapshot, when the transcript holds a new message to send.
#[derive(Debug)]
pub struct ChatMonitor {
    pub last_content: String,
    pub context: ChatContext,
}

impl ChatMonitor {
    /// A monitor that has seen `initial` and keeps the default window.
    pub fn new(initial: String) -> (r: ChatMonitor)
        ensures
            r.last_content@ == initial@,
            r.context.max_messages == crate::parser::MAX_CONTEXT_MESSAGES,
    {
        let context = ChatContext::new(initial.clone());
        ChatMonitor { last_content: initial, context }
    }

    /// Processes one snapshot. The cache takes the snapshot unless a message is
    /// to be sent; it moves on once the reply is written.
    pub fn on_content(&mut self, content: String) -> (r: Step)
        ensures
            step_of(r, content@, old(self).last_content@, old(self).context.max_messages as nat),
            final(self).context == old(self).context,
            final(self).last_content@ == if r is ReadyToSend {
                old(self).last_content@
            } else {
                content@
            },
    {
        if content == self.last_content {
            return Step::Unchanged;
        }
        let s = chars_of(content.as_str());
        let n = s.len();
        if n < 2 || s[n - 2] != '\n' || s[n - 1] != '\n' {
            proof {
                if n >= 2 {
                    assert(s@.subrange(n - 2, n as int)[0] == s@[n - 2]);
                    assert(s@.subrange(n - 2, n as int)[1] == s@[n - 1]);
                }
            }
            self.last_content = content;
            return Step::AwaitingTerminator;
        }
        assert(s@.subrange(n - 2, n as int) =~= terminator());
        let term = vec!['\n', '\n'];
        assert(term@ =~= terminator());
        let cursor = match find_last(&s, n, &term) {
            Some(i) => i + 2,
            None => n,
        };
        assert(s@.subrange(0, n as int) =~= s@);
        if ai_wrote_last_in(&s, cursor) {
            self.last_content = content;
            return Step::SkipAiJustResponded;
        }
        let (lo, hi) = new_message_bounds(&s, cursor);
        if lo == hi {
            self.last_content = content;
            return Step::SkipEmptyMessage;
        }
        let text = String::from_str(content.as_str().substring_char(lo, hi));
        let d = delimiter_chars();
        let mut context = match find_last(&s, cursor, &d) {
            Some(i) => {
                proof {
                    assert(s@.subrange(0, cursor as int).subrange(0, i as int) =~= s@.subrange(
                        0,
                        i as int,
                    ));
                }
                self.context.parse_prefix(content.as_str(), &s, i)
            },
            None => {
                let v: Vec<Message> = Vec::new();
                assert(message_views(v@) =~= Seq::empty());
                v
            },
        };
        let ghost prior = context@;
        context.push(Message::user(text));
        assert(message_views(context@) =~= message_views(prior).push((Role::User, text@)));
        Step::ReadyToSend { context }
    }

    /// Records the transcript as stored after a reply was appended.
    pub fn on_reply_written(&mut self, stored: String)
        ensures
            final(self).last_content@ == stored@,
            final(self).context == old(self).context,
    {
        self.last_content = stored;
    }
}

} // verus!
