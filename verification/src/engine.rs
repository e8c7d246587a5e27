//! The swarm engine's decision logic: the action/event protocol, per-recipient
//! fanout, and inbound message admission.
//!
//! The engine owns the gossip transport exclusively and runs on a dedicated
//! task; the surrounding program drives the loop (racing the next transport
//! event against the next pending action) and hands whichever is ready to the
//! handlers here.  Everything the engine decides — which topics a send goes
//! to, what a send's result says, which inbound payloads are surfaced and in
//! what shape — is verified code in this module; the transport calls
//! themselves sit behind the wrappers of `transport`.

use vstd::prelude::*;

use crate::codec::{decode_message, decode_spec, encode_message, encode_spec};
use crate::message::{ChatMessage, ChatMessageModel};
use crate::transport::{
    GossipSwarm, TransportEvent, bytes_to_string, classify_swarm_event, send_action, swarm_dial,
    swarm_listen_on, swarm_publish, swarm_subscribe,
};
use vstd::utf8::{decode_utf8, encode_utf8, encode_utf8_decode_utf8, encode_utf8_valid_utf8,
    valid_utf8};

verus! {

/// A command from the controller to the engine.  Addresses are opaque
/// multiaddress strings, validated entirely by the transport.
#[derive(Debug)]
pub enum Action {
    ListenOn(String),
    Dial(String),
    SendMessage(ChatMessage),
}

/// The outcome of one action, correlated one-to-one with the action that
/// produced it.  A `SendMessage` result carries one optional error per
/// original participant, in the participant list's order.
#[derive(Debug)]
pub enum ActionResult {
    ListenOn { address: String, error: Option<String> },
    Dial { address: String, error: Option<String> },
    SendMessage { message_id: u128, chat_id: u128, optional_errors: Vec<Option<String>> },
}

/// Everything the engine surfaces to the controller: action outcomes,
/// admitted inbound messages (already self-filtered), and newly bound listen
/// addresses (unsolicited).
#[derive(Debug)]
pub enum Event {
    ActionResult(ActionResult),
    MessageReceived(ChatMessage),
    NewListenAddress(String),
}

// ---------------------------------------------------------------------------
// Inbound admission.
// ---------------------------------------------------------------------------
/// The participant list with every occurrence of `local` removed; order of
/// the others is kept.
pub open spec fn remove_all(ps: Seq<Seq<char>>, local: Seq<char>) -> Seq<Seq<char>>
    decreases ps.len(),
{
    if ps.len() == 0 {
        Seq::empty()
    } else if ps.last() == local {
        remove_all(ps.drop_last(), local)
    } else {
        remove_all(ps.drop_last(), local).push(ps.last())
    }
}

/// What inbound bytes yield: nothing unless they are UTF-8 and decode as an
/// envelope that lists the local peer; otherwise the decoded message with
/// every occurrence of the local identifier removed from its participants.
pub open spec fn inbound_spec(data: Seq<u8>, local: Seq<char>) -> Option<ChatMessageModel> {
    if !valid_utf8(data) {
        None
    } else {
        match decode_spec(decode_utf8(data)) {
            None => None,
            Some(m) => if m.participants.contains(local) {
                Some(
                    ChatMessageModel {
                        participants: remove_all(m.participants, local),
                        content: m.content,
                        id: m.id,
                        chat_id: m.chat_id,
                        answer_to: m.answer_to,
                    },
                )
            } else {
                None
            },
        }
    }
}

/// Law: removal removes every occurrence — the result never contains the
/// local identifier, however often it was listed.
pub proof fn lemma_remove_all_not_contains(ps: Seq<Seq<char>>, local: Seq<char>)
    ensures
        !remove_all(ps, local).contains(local),
    decreases ps.len(),
{
    if ps.len() == 0 {
    } else {
        lemma_remove_all_not_contains(ps.drop_last(), local);
        if ps.last() != local {
            let r = remove_all(ps.drop_last(), local);
            let r2 = r.push(ps.last());
            assert forall|i: int| 0 <= i < r2.len() implies r2[i] != local by {
                if i < r.len() {
                    if r2[i] == local {
                        assert(r[i] == local);
                        assert(r.contains(local));
                    }
                }
            }
        }
    }
}

/// Law: removal is idempotent — removing the local identifier from a list it
/// is already absent from changes nothing.
pub proof fn lemma_remove_all_idempotent(ps: Seq<Seq<char>>, local: Seq<char>)
    ensures
        remove_all(remove_all(ps, local), local) == remove_all(ps, local),
    decreases ps.len(),
{
    if ps.len() == 0 {
    } else {
        lemma_remove_all_idempotent(ps.drop_last(), local);
        if ps.last() != local {
            let r = remove_all(ps.drop_last(), local);
            let r2 = r.push(ps.last());
            assert(r2.drop_last() =~= r);
            assert(remove_all(r2, local) == remove_all(r, local).push(ps.last()));
        }
    }
}

/// Law: a delivered inbound message never lists the receiver.
pub proof fn lemma_inbound_no_self(data: Seq<u8>, local: Seq<char>)
    ensures
        inbound_spec(data, local) matches Some(m) ==> !m.participants.contains(local),
{
    if valid_utf8(data) {
        match decode_spec(decode_utf8(data)) {
            Some(m) => {
                lemma_remove_all_not_contains(m.participants, local);
            },
            None => {
            },
        }
    }
}

/// Law: an inbound envelope that does not list the local peer yields no
/// event, however well formed it is.
pub proof fn lemma_inbound_requires_addressing(data: Seq<u8>, local: Seq<char>)
    ensures
        (valid_utf8(data) && match decode_spec(decode_utf8(data)) {
            Some(m) => !m.participants.contains(local),
            None => true,
        }) ==> inbound_spec(data, local) is None,
{
}

/// Law, end to end over one hop: the bytes a sender publishes for a message
/// decode and deliver at every peer the transmitted envelope lists, with each
/// occurrence of that peer's identifier removed — and are dropped, yielding
/// no event, at every peer it does not list.  (The length bounds are the
/// envelope's well-formedness; any message held in memory meets them.)
pub proof fn lemma_published_envelope_admission(
    m: ChatMessageModel,
    sender: Seq<char>,
    local: Seq<char>,
)
    requires
        m.wf(),
        m.participants.len() + 1 < crate::hex::pow16(16),
        sender.len() < crate::hex::pow16(16),
    ensures
        ({
            let transmitted = with_sender(m, sender);
            let wire = encode_utf8(encode_spec(transmitted));
            &&& transmitted.participants.contains(local) ==> inbound_spec(wire, local) == Some(
                ChatMessageModel {
                    participants: remove_all(transmitted.participants, local),
                    content: m.content,
                    id: m.id,
                    chat_id: m.chat_id,
                    answer_to: m.answer_to,
                },
            )
            &&& !transmitted.participants.contains(local) ==> inbound_spec(wire, local) is None
        }),
{
    let transmitted = with_sender(m, sender);
    let chars = encode_spec(transmitted);
    let wire = encode_utf8(chars);
    encode_utf8_valid_utf8(chars);
    encode_utf8_decode_utf8(chars);
    assert(transmitted.wf()) by {
        assert(forall|i: int|
            0 <= i < transmitted.participants.len() ==> (
            #[trigger] transmitted.participants[i]).len() < crate::hex::pow16(16));
    }
    crate::codec::lemma_encode_decode(transmitted);
}

/// True exactly when some entry of `ps` is the string `local`.
fn contains_participant(ps: &Vec<String>, local: &String) -> (r: bool)
    ensures
        r == ps.deep_view().contains(local@),
{
    let mut i: usize = 0;
    while i < ps.len()
        invariant
            i <= ps.len(),
            forall|j: int| 0 <= j < i ==> ps.deep_view()[j] != local@,
        decreases ps.len() - i,
    {
        if ps[i] == *local {
            proof {
                assert(ps.deep_view()[i as int] == local@);
            }
            return true;
        }
        i = i + 1;
    }
    false
}

/// The participant list with every occurrence of `local` removed.
fn remove_participant(ps: &Vec<String>, local: &String) -> (r: Vec<String>)
    ensures
        r.deep_view() == remove_all(ps.deep_view(), local@),
{
    let mut out: Vec<String> = Vec::new();
    let mut i: usize = 0;
    proof {
        assert(out.deep_view() =~= remove_all(ps.deep_view().take(0), local@));
    }
    while i < ps.len()
        invariant
            i <= ps.len(),
            out.deep_view() == remove_all(ps.deep_view().take(i as int), local@),
        decreases ps.len() - i,
    {
        let ghost outv = out.deep_view();
        let ghost taken = ps.deep_view().take(i as int);
        proof {
            assert(ps.deep_view().take(i + 1).drop_last() =~= taken);
            assert(ps.deep_view().take(i + 1).last() == ps.deep_view()[i as int]);
        }
        if ps[i] == *local {
            proof {
                assert(ps.deep_view()[i as int] == local@);
            }
        } else {
            let kept = ps[i].clone();
            let ghost keptv = kept@;
            out.push(kept);
            proof {
                assert(ps.deep_view()[i as int] != local@);
                assert(out.deep_view() =~= outv.push(keptv));
            }
        }
        i = i + 1;
    }
    proof {
        assert(ps.deep_view().take(ps.deep_view().len() as int) =~= ps.deep_view());
    }
    out
}

/// Admission of inbound bytes: decode them as an envelope, drop them silently
/// unless the local peer is listed, and strip every occurrence of the local
/// identifier before surfacing.  Returns exactly what `inbound_spec` says.
pub fn admit_message(data: Vec<u8>, local_id: &String) -> (r: Option<ChatMessage>)
    ensures
        r matches Some(m) ==> inbound_spec(data@, local_id@) == Some(m@),
        r is None ==> inbound_spec(data@, local_id@) is None,
{
    let ghost d = data@;
    let text = match bytes_to_string(data) {
        Some(t) => t,
        None => {
            return None;
        },
    };
    proof {
        encode_utf8_valid_utf8(text@);
        encode_utf8_decode_utf8(text@);
    }
    let msg = match decode_message(text.as_str()) {
        Some(m) => m,
        None => {
            return None;
        },
    };
    if !contains_participant(&msg.participants, local_id) {
        return None;
    }
    let filtered = remove_participant(&msg.participants, local_id);
    let out = ChatMessage {
        participants: filtered,
        content: msg.content,
        id: msg.id,
        chat_id: msg.chat_id,
        answer_to: msg.answer_to,
    };
    proof {
        assert(out@ =~= inbound_spec(d, local_id@)->Some_0);
    }
    Some(out)
}

/// Classifies one already-reduced transport event: a new listen address is
/// surfaced as such, an inbound payload goes through admission, everything
/// else has no externally visible effect.
pub fn handle_transport_event(local_id: &String, event: TransportEvent) -> (r: Option<Event>)
    ensures
        match event {
            TransportEvent::NewListenAddr(a) => r == Some(Event::NewListenAddress(a)),
            TransportEvent::InboundMessage(data) => match inbound_spec(data@, local_id@) {
                Some(mm) => r matches Some(e) && e matches Event::MessageReceived(m) && m@ == mm,
                None => r is None,
            },
            TransportEvent::Other => r is None,
        },
        r matches Some(Event::MessageReceived(m)) ==> !m@.participants.contains(local_id@),
{
    match event {
        TransportEvent::NewListenAddr(a) => Some(Event::NewListenAddress(a)),
        TransportEvent::InboundMessage(data) => {
            let ghost d = data@;
            match admit_message(data, local_id) {
                Some(m) => {
                    proof {
                        lemma_inbound_no_self(d, local_id@);
                    }
                    Some(Event::MessageReceived(m))
                },
                None => None,
            }
        },
        TransportEvent::Other => None,
    }
}

/// The handler the event loop calls for each raw swarm event.  The shape of
/// the raw event is the transport's affair; whatever the classification hands
/// back, a surfaced `MessageReceived` went through admission and no longer
/// lists the local peer.
pub fn handle_swarm_event(
    local_id: &String,
    event: libp2p::swarm::SwarmEvent<libp2p::gossipsub::Event>,
) -> (r: Option<Event>)
    ensures
        r matches Some(Event::MessageReceived(m)) ==> !m@.participants.contains(local_id@),
{
    handle_transport_event(local_id, classify_swarm_event(event))
}

// ---------------------------------------------------------------------------
// Outbound fanout.
// ---------------------------------------------------------------------------
/// The envelope as transmitted: the sender appended at the end of the
/// participant list.
pub open spec fn with_sender(m: ChatMessageModel, local: Seq<char>) -> ChatMessageModel {
    ChatMessageModel {
        participants: m.participants.push(local),
        content: m.content,
        id: m.id,
        chat_id: m.chat_id,
        answer_to: m.answer_to,
    }
}

/// A copy of a participant list, entry for entry.
pub(crate) fn clone_strings(ps: &Vec<String>) -> (r: Vec<String>)
    ensures
        r.deep_view() == ps.deep_view(),
{
    let mut out: Vec<String> = Vec::new();
    let mut i: usize = 0;
    while i < ps.len()
        invariant
            i <= ps.len(),
            out.deep_view() == ps.deep_view().take(i as int),
        decreases ps.len() - i,
    {
        let ghost outv = out.deep_view();
        let entry = ps[i].clone();
        let ghost ev = entry@;
        out.push(entry);
        proof {
            assert(out.deep_view() =~= outv.push(ev));
            assert(ps.deep_view().take(i + 1) =~= ps.deep_view().take(i as int).push(
                ps.deep_view()[i as int],
            ));
        }
        i = i + 1;
    }
    proof {
        assert(ps.deep_view().take(ps.deep_view().len() as int) =~= ps.deep_view());
    }
    out
}

/// The fanout plan of one send: the destination topics — exactly the original
/// participants, in their order — and the payload, the one envelope (sender
/// appended) that is published identically to every destination.
pub fn plan_send(msg: &ChatMessage, local_id: &String) -> (r: (Vec<String>, String))
    ensures
        r.0.deep_view() == msg@.participants,
        r.1@ == encode_spec(with_sender(msg@, local_id@)),
        with_sender(msg@, local_id@).wf(),
{
    let topics = clone_strings(&msg.participants);
    let mut wire = clone_strings(&msg.participants);
    wire.push(local_id.clone());
    let envelope = ChatMessage {
        participants: wire,
        content: msg.content.clone(),
        id: msg.id,
        chat_id: msg.chat_id,
        answer_to: msg.answer_to,
    };
    proof {
        assert(envelope@.participants =~= msg@.participants.push(local_id@));
        assert(envelope@ =~= with_sender(msg@, local_id@));
    }
    let payload = encode_message(&envelope);
    (topics, payload)
}

// ---------------------------------------------------------------------------
// Action handling.
// ---------------------------------------------------------------------------
/// Executes one action against the transport and produces its one result.
///
/// A `SendMessage` is published once per original participant, to the topic
/// named by that participant's identifier, always with the identical payload;
/// the result lists one optional error per original participant, in the
/// participant list's order.  (Encoding the envelope is total — see
/// `encode_message` — so a send here always reaches the per-destination
/// stage; an empty error list arises only for an empty participant list.)
pub fn handle_action(swarm: &mut GossipSwarm, local_id: &String, action: Action) -> (r: Event)
    ensures
        match action {
            Action::ListenOn(a) => r matches Event::ActionResult(ar) && ar
                matches ActionResult::ListenOn { address, error } && address == a,
            Action::Dial(a) => r matches Event::ActionResult(ar) && ar
                matches ActionResult::Dial { address, error } && address == a,
            Action::SendMessage(m) => r matches Event::ActionResult(ar) && ar
                matches ActionResult::SendMessage { message_id, chat_id, optional_errors }
                && message_id == m.id && chat_id == m.chat_id && optional_errors.len()
                == m.participants.len(),
        },
{
    match action {
        Action::ListenOn(address) => {
            let error = swarm_listen_on(swarm, address.as_str());
            Event::ActionResult(ActionResult::ListenOn { address, error })
        },
        Action::Dial(address) => {
            let error = swarm_dial(swarm, address.as_str());
            Event::ActionResult(ActionResult::Dial { address, error })
        },
        Action::SendMessage(message) => {
            let (topics, payload) = plan_send(&message, local_id);
            let mut optional_errors: Vec<Option<String>> = Vec::new();
            let mut i: usize = 0;
            while i < topics.len()
                invariant
                    i <= topics.len(),
                    optional_errors.len() == i,
                decreases topics.len() - i,
            {
                let error = swarm_publish(swarm, topics[i].as_str(), payload.as_str().as_bytes());
                optional_errors.push(error);
                i = i + 1;
            }
            proof {
                assert(topics@.len() == message@.participants.len());
            }
            Event::ActionResult(
                ActionResult::SendMessage {
                    message_id: message.id,
                    chat_id: message.chat_id,
                    optional_errors,
                },
            )
        },
    }
}

/// At startup the engine subscribes to a topic equal to its own peer
/// identifier — its personal inbox — so that any peer can address it without
/// prior coordination.
pub fn subscribe_personal_topic(swarm: &mut GossipSwarm, local_id: &String) -> (r: bool) {
    swarm_subscribe(swarm, local_id.as_str())
}

// ---------------------------------------------------------------------------
// The controller's handle.
// ---------------------------------------------------------------------------
/// The error of submitting to an engine whose loop is gone; carries the
/// rejected action back to the caller.  This is the one condition a
/// controller must treat as fatal to further use of the engine.
#[derive(Debug)]
pub struct ChannelClosed(pub Action);

/// The controller's handle on a running engine: the sending half of the
/// unbounded action channel.  The surrounding program constructs it around
/// the channel whose receiving half the engine loop owns.
pub struct P2pc {
    pub sender: tokio::sync::mpsc::UnboundedSender<Action>,
}

impl P2pc {
    /// Submits one action to the engine.  Submission does not block and the
    /// channel is unbounded; the action will be attempted exactly once by the
    /// engine loop, in submission order.  Fails only when the engine's
    /// receiving half is gone, and then hands the action back unchanged.
    pub fn execute(&mut self, action: Action) -> (r: Result<(), ChannelClosed>)
        ensures
            r matches Err(c) ==> c.0 == action,
    {
        match send_action(&self.sender, action) {
            Ok(()) => Ok(()),
            Err(a) => Err(ChannelClosed(a)),
        }
    }
}

} // verus!
