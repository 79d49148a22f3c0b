//! Messages posted to a room.

use vstd::prelude::*;
use crate::models::user::{User, UserView};

verus! {

/// A message as the contracts see it.
pub struct MessageView {
    pub sender: UserView,
    pub content: Seq<char>,
}

/// What one user said. A message does not change once it is made.
#[derive(Debug)]
pub struct Message {
    pub sender: User,
    pub content: String,
}

impl View for Message {
    type V = MessageView;

    open spec fn view(&self) -> MessageView {
        MessageView { sender: self.sender@, content: self.content@ }
    }
}

impl Clone for Message {
    fn clone(&self) -> (copy: Self)
        ensures
            copy@ == self@,
    {
        Message { sender: self.sender.clone(), content: self.content.clone() }
    }
}

/// The messages of a list as the contracts see them, in the order of the
/// list.
pub open spec fn message_views(messages: Seq<Message>) -> Seq<MessageView> {
    messages.map_values(|m: Message| m@)
}

} // verus!
