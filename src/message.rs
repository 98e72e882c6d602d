use vstd::prelude::*;

verus! {

/// Who wrote a turn of the conversation.
#[derive(Clone, Copy, Debug, PartialEq, Eq, Structural)]
pub enum Role {
    User,
    Assistant,
}

/// One role-tagged turn.
#[derive(Debug)]
pub struct Message {
    pub role: Role,
    pub content: String,
}

impl View for Message {
    type V = (Role, Seq<char>);

    open spec fn view(&self) -> (Role, Seq<char>) {
        (self.role, self.content@)
    }
}

/// The abstract values of a sequence of messages.
pub open spec fn message_views(v: Seq<Message>) -> Seq<(Role, Seq<char>)> {
    v.map_values(|m: Message| m@)
}

/// Role of the turn that stands at position `i` of the split transcript.
pub open spec fn role_at(i: int) -> Role {
    if i % 2 == 0 {
        Role::User
    } else {
        Role::Assistant
    }
}

impl Message {
    /// A message written by the user.
    pub fn user(content: String) -> (r: Message)
        ensures
            r@ == (Role::User, content@),
    {
        Message { role: Role::User, content }
    }
}

/// Role of the turn at position `i`: users take the even positions.
pub fn role_for(i: usize) -> (r: Role)
    ensures
        r == role_at(i as int),
{
    if i % 2 == 0 {
        Role::User
    } else {
        Role::Assistant
    }
}

} // verus!
