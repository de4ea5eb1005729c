//! One conversation.
use vstd::prelude::*;

use crate::ids::{is_random_id, new_id};
use crate::text::text_of;
use crate::types::{ChatMessage, Role};

verus! {

#[derive(Debug, PartialEq, Clone)]
pub struct Session {
    pub id: u128,
    pub messages: Vec<ChatMessage>,
}

/// A message of a role with this text and nothing else.
pub open spec fn says(message: ChatMessage, role: Role, text: Seq<char>) -> bool {
    &&& message.role == role
    &&& text_of(message.content) == Some(text)
    &&& message.reasoning_content is None
    &&& message.tool_calls is None
    &&& message.tool_call_id is None
}

/// A session with one more message.
pub open spec fn goes_on(before: Session, role: Role, text: Seq<char>, after: Session) -> bool {
    &&& after.id == before.id
    &&& after.messages@.len() == before.messages@.len() + 1
    &&& after.messages@.drop_last() == before.messages@
    &&& says(after.messages@.last(), role, text)
}

impl Session {
    /// A session that begins with a system message.
    pub fn new(system_message: &str) -> (result: Self)
        ensures
            is_random_id(result.id),
            result.messages@.len() == 1,
            says(result.messages@[0], Role::System, system_message@),
    {
        Session { id: new_id(), messages: vec![ChatMessage::new(Role::System, system_message)] }
    }

    pub fn get_messages(&self) -> (result: &Vec<ChatMessage>)
        ensures
            *result == self.messages,
    {
        &self.messages
    }

    pub fn add_message(&mut self, chat_message: ChatMessage)
        ensures
            final(self).id == old(self).id,
            final(self).messages@ == old(self).messages@.push(chat_message),
    {
        self.messages.push(chat_message);
    }

    pub fn add_user_message(&mut self, message: &str)
        ensures
            goes_on(*old(self), Role::User, message@, *final(self)),
    {
        self.add_message(ChatMessage::new(Role::User, message));
        assert(self.messages@.drop_last() =~= old(self).messages@);
    }

    pub fn add_assistant_message(&mut self, message: &str)
        ensures
            goes_on(*old(self), Role::Assistant, message@, *final(self)),
    {
        self.add_message(ChatMessage::new(Role::Assistant, message));
        assert(self.messages@.drop_last() =~= old(self).messages@);
    }

    pub fn add_tool_message(&mut self, message: &str)
        ensures
            goes_on(*old(self), Role::Tool, message@, *final(self)),
    {
        self.add_message(ChatMessage::new(Role::Tool, message));
        assert(self.messages@.drop_last() =~= old(self).messages@);
    }
}

/// A session that goes on keeps all that was said, in its order, and adds what is said now.
pub proof fn law_nothing_said_is_lost(
    before: Session,
    role: Role,
    text: Seq<char>,
    after: Session,
    i: int,
)
    requires
        goes_on(before, role, text, after),
        0 <= i < before.messages@.len(),
    ensures
        after.messages@[i] == before.messages@[i],
        after.id == before.id,
        after.messages@.len() == before.messages@.len() + 1,
        after.messages@.last().role == role,
        text_of(after.messages@.last().content) == Some(text),
{
    assert(after.messages@.drop_last()[i] == after.messages@[i]);
}

} // verus!
