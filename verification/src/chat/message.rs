//! One line of a conversation as the controller stores it: who wrote it,
//! what it says, which message it answers, and when it arrived.

use vstd::prelude::*;

use crate::transport::{fresh_uuid, now_timestamp_millis};

verus! {

/// The mathematical shape of a stored line.
#[verifier::ext_equal]
pub struct MessageModel {
    pub sender: Seq<char>,
    pub message_id: u128,
    pub content: Seq<char>,
    pub answer_to: Option<u128>,
    pub received_time: i64,
}

/// A stored line of a conversation.  The identifier is assigned at
/// construction (drawn fresh, or taken from the wire for an inbound line) and
/// never changes.
pub struct Message {
    sender: String,
    message_id: u128,
    content: String,
    answer_to: Option<u128>,
    /// Milliseconds since the epoch at which this line was stored.
    pub received_time: i64,
}

impl View for Message {
    type V = MessageModel;

    closed spec fn view(&self) -> MessageModel {
        MessageModel {
            sender: self.sender@,
            message_id: self.message_id,
            content: self.content@,
            answer_to: self.answer_to,
            received_time: self.received_time,
        }
    }
}

impl DeepView for Message {
    type V = MessageModel;

    open spec fn deep_view(&self) -> MessageModel {
        self.view()
    }
}

impl Message {
    /// A new line with a freshly drawn identifier, stamped with the clock.
    pub fn new(sender_id: String, message: String, answer_to: Option<u128>) -> (r: Self)
        ensures
            r@.sender == sender_id@,
            r@.content == message@,
            r@.answer_to == answer_to,
    {
        Self {
            sender: sender_id,
            message_id: fresh_uuid(),
            content: message,
            answer_to,
            received_time: now_timestamp_millis(),
        }
    }

    /// A line reconstructed from the wire: the identifier is the sender's,
    /// only the arrival time is local.
    pub fn new_with_id(
        sender_id: String,
        message: String,
        answer_to: Option<u128>,
        message_id: u128,
    ) -> (r: Self)
        ensures
            r@.sender == sender_id@,
            r@.content == message@,
            r@.answer_to == answer_to,
            r@.message_id == message_id,
    {
        Self {
            sender: sender_id,
            message_id,
            content: message,
            answer_to,
            received_time: now_timestamp_millis(),
        }
    }

    pub fn get_sender(&self) -> (r: &String)
        ensures
            r@ == self@.sender,
    {
        &self.sender
    }

    pub fn get_content(&self) -> (r: &String)
        ensures
            r@ == self@.content,
    {
        &self.content
    }

    pub fn get_message_id(&self) -> (r: u128)
        ensures
            r == self@.message_id,
    {
        self.message_id
    }

    pub fn get_answer_to(&self) -> (r: Option<u128>)
        ensures
            r == self@.answer_to,
    {
        self.answer_to
    }

    /// Marks this line as an answer to another message.
    pub fn answer_to(&mut self, message_id: u128)
        ensures
            final(self)@ == (MessageModel { answer_to: Some(message_id), ..old(self)@ }),
    {
        self.answer_to = Some(message_id);
    }
}

} // verus!
