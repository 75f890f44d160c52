//! A chat message and the line that clients see for it.

use vstd::prelude::*;
use crate::clock::{clock_string, clock_text, seconds_of_day};
use crate::text::{decimal_text, push_decimal};

verus! {

/// One message of the room. It is made once and never changed.
#[derive(Debug, PartialEq, Eq)]
pub struct ChatMessage {
    /// When it was made, in seconds since the Unix epoch.
    pub created_at: i64,
    /// The connection that it came from.
    pub author_id: i32,
    /// What it says.
    pub text: String,
}

/// A message as plain values.
pub ghost struct MessageView {
    pub created_at: int,
    pub author_id: int,
    pub text: Seq<char>,
}

impl View for ChatMessage {
    type V = MessageView;

    open spec fn view(&self) -> MessageView {
        MessageView {
            created_at: self.created_at as int,
            author_id: self.author_id as int,
            text: self.text@,
        }
    }
}

/// The messages of a sequence as plain values, in their order.
pub open spec fn views(messages: Seq<ChatMessage>) -> Seq<MessageView> {
    messages.map_values(|m: ChatMessage| m@)
}

/// The line for a message: `[user_id:<id> <HH:MM:SS>]: <text>`.
pub open spec fn render_line(m: MessageView) -> Seq<char> {
    "[user_id:"@ + decimal_text(m.author_id) + " "@ + clock_text(seconds_of_day(m.created_at))
        + "]: "@ + m.text
}

impl Clone for ChatMessage {
    fn clone(&self) -> (copy: Self)
        ensures
            copy == *self,
    {
        ChatMessage {
            created_at: self.created_at,
            author_id: self.author_id,
            text: self.text.clone(),
        }
    }
}

impl ChatMessage {
    /// A message with the given fields.
    pub fn new(created_at: i64, author_id: i32, text: String) -> (m: ChatMessage)
        ensures
            m.created_at == created_at,
            m.author_id == author_id,
            m.text == text,
    {
        ChatMessage { created_at, author_id, text }
    }

    /// The line that is written to clients for this message.
    pub fn to_string(&self) -> (line: String)
        ensures
            line@ == render_line(self@),
    {
        let mut line = String::new();
        line.push_str("[user_id:");
        push_decimal(&mut line, self.author_id);
        line.push_str(" ");
        let clock = clock_string(self.created_at);
        line.push_str(clock.as_str());
        line.push_str("]: ");
        line.push_str(self.text.as_str());
        proof {
            assert(line@ =~= render_line(self@));
        }
        line
    }
}

} // verus!
