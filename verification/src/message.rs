//! The wire envelope of a chat line.
//!
//! A `ChatMessage` is constructed once, by its sender (or by the receiver's
//! reconstruction from wire bytes), and is immutable thereafter.  Before
//! transmission `participants` lists every intended recipient and excludes the
//! sender; the engine appends the sender during transmission, and strips the
//! receiver's own identifier again on the way up.

use vstd::prelude::*;

use crate::hex::pow16;

verus! {

/// The wire envelope: recipients, payload, identifiers, optional reply
/// reference.  Identifiers are 128-bit values assigned by the sender and
/// never changed.
#[derive(Clone, Debug)]
pub struct ChatMessage {
    /// The addressee set, in order; the sender appends itself at the end for
    /// transmission.
    pub participants: Vec<String>,
    /// The chat line itself, an opaque UTF-8 payload.
    pub content: String,
    /// Globally unique message identifier.
    pub id: u128,
    /// Identifier of the conversation the message belongs to.
    pub chat_id: u128,
    /// Optional reference to an earlier message's `id` in the same
    /// conversation; a dangling reference is tolerated.
    pub answer_to: Option<u128>,
}

/// The mathematical shape of a message: sequences of characters in place of
/// heap-allocated strings.
#[verifier::ext_equal]
pub struct ChatMessageModel {
    pub participants: Seq<Seq<char>>,
    pub content: Seq<char>,
    pub id: u128,
    pub chat_id: u128,
    pub answer_to: Option<u128>,
}

impl ChatMessageModel {
    /// Every length fits the 16-digit length fields of the wire encoding.
    /// Any message held in memory satisfies this: the fields are vectors and
    /// strings, whose lengths fit a machine word.
    pub open spec fn wf(self) -> bool {
        &&& self.participants.len() < pow16(16)
        &&& self.content.len() < pow16(16)
        &&& forall|i: int|
            0 <= i < self.participants.len() ==> (#[trigger] self.participants[i]).len() < pow16(
                16,
            )
    }
}

impl View for ChatMessage {
    type V = ChatMessageModel;

    open spec fn view(&self) -> ChatMessageModel {
        ChatMessageModel {
            participants: self.participants.deep_view(),
            content: self.content@,
            id: self.id,
            chat_id: self.chat_id,
            answer_to: self.answer_to,
        }
    }
}

} // verus!
