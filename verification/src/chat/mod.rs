//! A conversation as the controller stores it: its identifier, a display
//! name, the lines so far, and the peers it addresses.  Conversations are
//! owned entirely by the controller — the engine is pure transit and stores
//! nothing.

use vstd::prelude::*;

pub mod chats;
pub mod contact;
pub mod contacts;
pub mod message;

use crate::engine::{clone_strings, Action, P2pc};
use crate::message::ChatMessage;
use crate::transport::fresh_uuid;
use message::{Message, MessageModel};
use vstd::string::StringExecFns;

verus! {

/// The mathematical shape of a conversation.
#[verifier::ext_equal]
pub struct ChatModel {
    pub chat_id: u128,
    pub name: Seq<char>,
    pub messages: Seq<MessageModel>,
    pub participants: Seq<Seq<char>>,
}

/// A conversation: stable identifier, display name, lines, addressees.
pub struct Chat {
    chat_id: u128,
    pub name: String,
    messages: Vec<Message>,
    participants: Vec<String>,
}

impl View for Chat {
    type V = ChatModel;

    closed spec fn view(&self) -> ChatModel {
        ChatModel {
            chat_id: self.chat_id,
            name: self.name@,
            messages: self.messages.deep_view(),
            participants: self.participants.deep_view(),
        }
    }
}

/// `after` is `before` with one line appended whose visible fields are the
/// given ones (the arrival stamp is the clock's affair).
pub open spec fn message_appended(
    before: ChatModel,
    after: ChatModel,
    sender: Seq<char>,
    content: Seq<char>,
    answer_to: Option<u128>,
) -> bool {
    &&& after.chat_id == before.chat_id
    &&& after.name == before.name
    &&& after.participants == before.participants
    &&& after.messages.len() == before.messages.len() + 1
    &&& after.messages.take(before.messages.len() as int) == before.messages
    &&& after.messages.last().sender == sender
    &&& after.messages.last().content == content
    &&& after.messages.last().answer_to == answer_to
}

impl Chat {
    /// A new conversation with a freshly drawn identifier and no lines yet.
    pub fn new_chat(participants: Vec<String>) -> (r: Self)
        ensures
            r@.name == "New Chat"@,
            r@.messages.len() == 0,
            r@.participants == participants.deep_view(),
    {
        let r = Self {
            chat_id: fresh_uuid(),
            messages: Vec::new(),
            name: String::from_str("New Chat"),
            participants,
        };
        proof {
            assert(r@.messages =~= Seq::<MessageModel>::empty());
        }
        r
    }

    /// A conversation learned from the first inbound line of an unknown
    /// conversation: the identifier is the initiator's, not drawn here.
    pub fn new_incoming_chat(participants: Vec<String>, chat_id: u128) -> (r: Self)
        ensures
            r@.chat_id == chat_id,
            r@.name == "New Chat"@,
            r@.messages.len() == 0,
            r@.participants == participants.deep_view(),
    {
        let r = Self {
            chat_id,
            messages: Vec::new(),
            name: String::from_str("New Chat"),
            participants,
        };
        proof {
            assert(r@.messages =~= Seq::<MessageModel>::empty());
        }
        r
    }

    /// Appends a line written locally, without sending it anywhere.
    pub fn new_message(&mut self, sender_id: String, message: String)
        ensures
            message_appended(old(self)@, final(self)@, sender_id@, message@, None),
    {
        let ghost before = self@.messages;
        let line = Message::new(sender_id, message, None);
        let ghost lv = line@;
        self.messages.push(line);
        proof {
            assert(self@.messages =~= before.push(lv));
            assert(self@.messages.take(before.len() as int) =~= before);
        }
    }

    /// Sends a line to this conversation's participants and, when the engine
    /// accepted it, stores it locally too.  When submission fails (the engine
    /// is gone) the conversation is unchanged.
    pub fn send_message(
        &mut self,
        p2pc: &mut P2pc,
        sender_id: String,
        message: String,
        answer_to: Option<u128>,
    )
        ensures
            final(self)@ == old(self)@ || message_appended(
                old(self)@,
                final(self)@,
                sender_id@,
                message@,
                answer_to,
            ),
    {
        let ghost before = self@;
        let content_copy = message.clone();
        let ui_message = Message::new(sender_id, message, answer_to);
        let wire = ChatMessage {
            participants: clone_strings(&self.participants),
            content: content_copy,
            id: ui_message.get_message_id(),
            chat_id: self.chat_id,
            answer_to,
        };
        let accepted = p2pc.execute(Action::SendMessage(wire));
        match accepted {
            Ok(()) => {
                let ghost lv = ui_message@;
                self.messages.push(ui_message);
                proof {
                    assert(self@.messages =~= before.messages.push(lv));
                    assert(self@.messages.take(before.messages.len() as int) =~= before.messages);
                }
            },
            Err(_) => {
                proof {
                    assert(self@ =~= before);
                }
            },
        }
    }

    /// Stores one line that arrived from a peer, under the identifier the
    /// sender assigned it.
    pub fn insert_message(
        &mut self,
        sender_id: String,
        message: String,
        answer_to: Option<u128>,
        message_id: u128,
    )
        ensures
            message_appended(old(self)@, final(self)@, sender_id@, message@, answer_to),
            final(self)@.messages.last().message_id == message_id,
    {
        let ghost before = self@.messages;
        let line = Message::new_with_id(sender_id, message, answer_to, message_id);
        let ghost lv = line@;
        self.messages.push(line);
        proof {
            assert(self@.messages =~= before.push(lv));
            assert(self@.messages.take(before.len() as int) =~= before);
        }
    }

    pub fn get_chat_messages(&self) -> (r: &Vec<Message>)
        ensures
            r.deep_view() == self@.messages,
    {
        &self.messages
    }

    pub fn get_chat_id(&self) -> (r: u128)
        ensures
            r == self@.chat_id,
    {
        self.chat_id
    }

    /// The stored line carrying the given identifier, if any.
    pub fn get_message_from_id(&self, message_id: u128) -> (r: Option<&Message>)
        ensures
            r matches Some(m) ==> self@.messages.contains(m@) && m@.message_id == message_id,
            r is None ==> forall|i: int|
                0 <= i < self@.messages.len() ==> (#[trigger] self@.messages[i]).message_id
                    != message_id,
    {
        let mut i: usize = 0;
        while i < self.messages.len()
            invariant
                i <= self.messages.len(),
                forall|j: int|
                    0 <= j < i ==> (#[trigger] self.messages.deep_view()[j]).message_id
                        != message_id,
            decreases self.messages.len() - i,
        {
            let m = &self.messages[i];
            if m.get_message_id() == message_id {
                proof {
                    assert(self@.messages[i as int] == m@);
                    assert(self@.messages.contains(m@));
                }
                return Some(m);
            }
            i = i + 1;
        }
        None
    }

    pub fn get_participants(&self) -> (r: &Vec<String>)
        ensures
            r.deep_view() == self@.participants,
    {
        &self.participants
    }

    /// A conversation assembled from the edit window: a fresh identifier,
    /// the window's name and participants.
    pub fn from_chat_window(chat_window: ChatEditWindowContent) -> (r: Self)
        ensures
            r@.name == chat_window.name@,
            r@.messages.len() == 0,
            r@.participants == chat_window.participants.deep_view(),
    {
        let ChatEditWindowContent { name, participants } = chat_window;
        let mut chat = Self::new_chat(participants);
        chat.name = name;
        chat
    }
}

/// What the chat edit window holds while the user is typing: the name and
/// participant list of the conversation being created or changed.
pub struct ChatEditWindowContent {
    pub name: String,
    pub participants: Vec<String>,
}

impl Default for ChatEditWindowContent {
    /// An empty window.
    fn default() -> (r: Self)
        ensures
            r.name@.len() == 0,
            r.participants.deep_view().len() == 0,
    {
        Self { name: String::new(), participants: Vec::new() }
    }
}

impl ChatEditWindowContent {
    /// A window primed for a new conversation.
    pub fn new() -> (r: Self)
        ensures
            r.name@ == "New Chat"@,
            r.participants.deep_view().len() == 0,
    {
        Self { name: String::from_str("New Chat"), participants: Vec::new() }
    }

    /// A window pre-filled from an existing conversation.
    pub fn from_chat(chat: &Chat) -> (r: Self)
        ensures
            r.name@ == chat@.name,
            r.participants.deep_view() == chat@.participants,
    {
        Self { name: chat.name.clone(), participants: clone_strings(chat.get_participants()) }
    }
}

} // verus!
