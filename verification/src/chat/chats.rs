//! The controller's conversations, keyed by conversation identifier.

use vstd::prelude::*;

use super::{message_appended, Chat};
use crate::engine::P2pc;
use crate::message::ChatMessage;
use std::collections::HashMap;

verus! {

broadcast use vstd::std_specs::hash::group_hash_axioms;

/// All conversations the controller knows, by their identifier.
pub struct Chats {
    chats: HashMap<u128, Chat>,
}

impl View for Chats {
    type V = Map<u128, Chat>;

    closed spec fn view(&self) -> Map<u128, Chat> {
        self.chats@
    }
}

impl Default for Chats {
    /// No conversations yet.
    fn default() -> (r: Self)
        ensures
            r@ == Map::<u128, Chat>::empty(),
            r.wf(),
    {
        Chats { chats: HashMap::new() }
    }
}

impl Chats {
    /// Every conversation is stored under its own identifier.  Established by
    /// the constructor and kept by every method.
    pub closed spec fn wf(&self) -> bool {
        forall|k: u128|
            self.chats@.contains_key(k) ==> (#[trigger] self.chats@[k])@.chat_id == k
    }

    /// Stores a conversation under its own identifier, replacing any
    /// conversation already stored under it.
    pub fn add_chat(&mut self, chat: Chat)
        requires
            old(self).wf(),
        ensures
            final(self)@ == old(self)@.insert(chat@.chat_id, chat),
            final(self).wf(),
    {
        let key = chat.get_chat_id();
        self.chats.insert(key, chat);
    }

    pub fn get_chat(&self, chat_id: &u128) -> (r: Option<&Chat>)
        ensures
            r matches Some(c) ==> self@.contains_key(*chat_id) && self@[*chat_id] == *c,
            r is None ==> !self@.contains_key(*chat_id),
    {
        self.chats.get(chat_id)
    }

    pub fn get_chats(&self) -> (r: &HashMap<u128, Chat>)
        ensures
            r@ == self@,
    {
        &self.chats
    }

    /// Takes a conversation out, handing it to the caller if it was there.
    pub fn remove_chat(&mut self, chat_id: &u128) -> (r: Option<Chat>)
        requires
            old(self).wf(),
        ensures
            final(self).wf(),
            final(self)@ == old(self)@.remove(*chat_id),
            r matches Some(c) ==> old(self)@.contains_key(*chat_id) && old(self)@[*chat_id] == c,
            r is None ==> !old(self)@.contains_key(*chat_id),
    {
        self.chats.remove(chat_id)
    }

    /// Sends a line to the given conversation's participants, if the
    /// conversation exists; the line is stored there when the engine accepted
    /// it.  Other conversations are untouched.
    pub fn send_message(
        &mut self,
        chat_id: &u128,
        p2pc: &mut P2pc,
        sender_id: String,
        message: String,
        answer_to: Option<u128>,
    )
        requires
            old(self).wf(),
        ensures
            final(self).wf(),
            !old(self)@.contains_key(*chat_id) ==> final(self)@ == old(self)@,
            old(self)@.contains_key(*chat_id) ==> {
                &&& final(self)@.dom() == old(self)@.dom()
                &&& forall|k: u128|
                    k != *chat_id && #[trigger] old(self)@.contains_key(k) ==> final(self)@[k]
                        == old(self)@[k]
                &&& final(self)@.contains_key(*chat_id)
                &&& (final(self)@[*chat_id]@ == old(self)@[*chat_id]@ || message_appended(
                    old(self)@[*chat_id]@,
                    final(self)@[*chat_id]@,
                    sender_id@,
                    message@,
                    answer_to,
                ))
            },
    {
        let ghost before = self@;
        match self.chats.remove(chat_id) {
            Some(mut chat) => {
                let ghost chat_before = chat@;
                chat.send_message(p2pc, sender_id, message, answer_to);
                let key = chat.get_chat_id();
                proof {
                    assert(chat@.chat_id == chat_before.chat_id);
                    assert(key == *chat_id);
                }
                self.chats.insert(key, chat);
                proof {
                    assert(final(self)@ =~= before.remove(*chat_id).insert(*chat_id, chat));
                    assert(final(self)@.dom() =~= before.dom());
                }
            },
            None => {
                proof {
                    assert(final(self)@ =~= before);
                }
            },
        }
    }

    /// The controller's handling of one delivered message.  The sender is the
    /// last remaining participant (the engine stripped the local peer; the
    /// sender appended itself last).  An existing conversation gets the line
    /// appended; an unknown conversation identifier creates the conversation,
    /// receiver-side, with the delivered participant list.
    pub fn apply_message_received(&mut self, message: ChatMessage)
        requires
            old(self).wf(),
        ensures
            final(self).wf(),
            message@.participants.len() == 0 ==> final(self)@ == old(self)@,
            message@.participants.len() > 0 ==> {
                &&& forall|k: u128|
                    k != message@.chat_id && old(self)@.contains_key(k)
                        ==> #[trigger] final(self)@.contains_key(k) && final(self)@[k] == old(
                        self,
                    )@[k]

                &&& final(self)@.contains_key(message@.chat_id)
                &&& final(self)@[message@.chat_id]@.messages.len() > 0
                &&& final(self)@[message@.chat_id]@.messages.last().sender
                    == message@.participants.last()
                &&& final(self)@[message@.chat_id]@.messages.last().content == message@.content
                &&& final(self)@[message@.chat_id]@.messages.last().message_id == message@.id
                &&& final(self)@[message@.chat_id]@.messages.last().answer_to
                    == message@.answer_to
            },
    {
        let ChatMessage { participants, content, id, chat_id, answer_to } = message;
        if participants.len() == 0 {
            return;
        }
        let sender = participants[participants.len() - 1].clone();
        proof {
            assert(sender@ == message@.participants.last());
        }
        match self.chats.remove(&chat_id) {
            Some(mut chat) => {
                chat.insert_message(sender, content, answer_to, id);
                let key = chat.get_chat_id();
                self.chats.insert(key, chat);
            },
            None => {
                let mut chat = Chat::new_incoming_chat(participants, chat_id);
                chat.insert_message(sender, content, answer_to, id);
                let key = chat.get_chat_id();
                self.chats.insert(key, chat);
            },
        }
    }
}

} // verus!
