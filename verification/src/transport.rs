//! The trusted boundary to the gossip transport and the action channel.
//!
//! Everything in this module either declares an outside type so that it can
//! appear in signatures, or wraps a single outside call in a function whose
//! contract Verus believes.  All decision logic lives elsewhere, in verified
//! code; these wrappers only move values across the boundary.

use libp2p::gossipsub::Event as GossipsubEvent;
use vstd::prelude::*;

verus! {

/// An event of the gossip transport, reduced to what the engine reacts to:
/// a newly bound listen address, an inbound payload on a subscribed topic,
/// or anything else (connection churn and the like), which has no externally
/// visible effect.
pub enum TransportEvent {
    NewListenAddr(String),
    InboundMessage(Vec<u8>),
    Other,
}

/// Exclusive handle on the gossip transport: one gossipsub behaviour over the
/// transport stack.  `libp2p::Swarm` itself cannot be declared to Verus (its
/// type parameter is bound by an outside trait), so the swarm lives opaquely
/// behind this struct; the field is public so that the surrounding program,
/// which assembles the transport stack, can hand the swarm in.
#[verifier::external_body]
pub struct GossipSwarm {
    pub swarm: libp2p::Swarm<libp2p::gossipsub::Behaviour>,
}

#[verifier::external_type_specification]
#[verifier::external_body]
#[verifier::reject_recursive_types(TBehaviourOutEvent)]
pub struct ExSwarmEvent<TBehaviourOutEvent>(libp2p::swarm::SwarmEvent<TBehaviourOutEvent>);

#[verifier::external_type_specification]
#[verifier::external_body]
pub struct ExGossipEvent(GossipsubEvent);

#[verifier::external_type_specification]
#[verifier::external_body]
#[verifier::reject_recursive_types(T)]
pub struct ExUnboundedSender<T>(tokio::sync::mpsc::UnboundedSender<T>);

/// Relies on libp2p's `Multiaddr` parsing and `Swarm::listen_on`: starts
/// listening on the given address; `None` on acceptance, otherwise the
/// transport's error text.  Validation of the address is entirely the
/// transport's business.
#[verifier::external_body]
pub(crate) fn swarm_listen_on(swarm: &mut GossipSwarm, address: &str) -> (r: Option<String>) {
    match address.parse::<libp2p::Multiaddr>() {
        Ok(addr) => match swarm.swarm.listen_on(addr) {
            Ok(_) => None,
            Err(e) => Some(format!("{e}")),
        },
        Err(e) => Some(format!("{e}")),
    }
}

/// Relies on libp2p's `Multiaddr` parsing and `Swarm::dial`: dials the given
/// address; `None` on acceptance, otherwise the transport's error text.
#[verifier::external_body]
pub(crate) fn swarm_dial(swarm: &mut GossipSwarm, address: &str) -> (r: Option<String>) {
    match address.parse::<libp2p::Multiaddr>() {
        Ok(addr) => match swarm.swarm.dial(addr) {
            Ok(()) => None,
            Err(e) => Some(format!("{e}")),
        },
        Err(e) => Some(format!("{e}")),
    }
}

/// Relies on gossipsub's `Behaviour::subscribe` with an identity-hashed topic
/// named by the given string: afterwards the swarm receives messages published
/// to that topic.
#[verifier::external_body]
pub(crate) fn swarm_subscribe(swarm: &mut GossipSwarm, topic: &str) -> (r: bool) {
    let t = libp2p::gossipsub::IdentTopic::new(topic);
    swarm.swarm.behaviour_mut().subscribe(&t).is_ok()
}

/// Relies on gossipsub's `Behaviour::publish` with an identity-hashed topic
/// named by the given string: hands the payload to the mesh for that topic;
/// `None` on acceptance, otherwise the publish error's text.
#[verifier::external_body]
pub(crate) fn swarm_publish(swarm: &mut GossipSwarm, topic: &str, data: &[u8]) -> (r: Option<
    String,
>) {
    let t = libp2p::gossipsub::IdentTopic::new(topic);
    match swarm.swarm.behaviour_mut().publish(t, data) {
        Ok(_) => None,
        Err(e) => Some(format!("{e}")),
    }
}

/// Relies on the shape of libp2p's `SwarmEvent`: a `NewListenAddr` carries the
/// bound address, a gossipsub `Message` carries the raw payload bytes, and
/// every other variant is mere transport churn.  One arm per case; fields are
/// moved or printed, nothing is decided here.
#[verifier::external_body]
pub(crate) fn classify_swarm_event(
    event: libp2p::swarm::SwarmEvent<libp2p::gossipsub::Event>,
) -> (r: TransportEvent) {
    match event {
        libp2p::swarm::SwarmEvent::NewListenAddr { address, .. } => TransportEvent::NewListenAddr(
            address.to_string(),
        ),
        libp2p::swarm::SwarmEvent::Behaviour(
            libp2p::gossipsub::Event::Message { message, .. },
        ) => TransportEvent::InboundMessage(message.data),
        _ => TransportEvent::Other,
    }
}

/// Relies on tokio's `UnboundedSender::send`: delivery into the engine's
/// queue succeeds unless the receiving half (the engine loop) is gone; on
/// failure the submitted action comes back to the caller unchanged.
#[verifier::external_body]
pub(crate) fn send_action(
    sender: &tokio::sync::mpsc::UnboundedSender<crate::engine::Action>,
    action: crate::engine::Action,
) -> (r: Result<(), crate::engine::Action>)
    ensures
        r matches Err(a) ==> a == action,
{
    sender.send(action).map_err(|e| e.0)
}

/// Relies on `String::from_utf8`: returns `Some` exactly for valid UTF-8
/// input, and the returned string's UTF-8 bytes are the input.
#[verifier::external_body]
pub(crate) fn bytes_to_string(bytes: Vec<u8>) -> (r: Option<String>)
    ensures
        r matches Some(s) ==> vstd::utf8::encode_utf8(s@) == bytes@,
        vstd::utf8::valid_utf8(bytes@) ==> r is Some,
{
    String::from_utf8(bytes).ok()
}

/// Relies on `uuid::Uuid::new_v4`: a freshly drawn random identifier, handed
/// over as its 128-bit value.  Nothing can be promised of a random draw.
#[verifier::external_body]
pub(crate) fn fresh_uuid() -> (r: u128) {
    uuid::Uuid::new_v4().as_u128()
}

/// Relies on `chrono::Local::now`: the wall clock at the moment of the call,
/// as milliseconds since the epoch.  Nothing can be promised of the clock.
#[verifier::external_body]
pub(crate) fn now_timestamp_millis() -> (r: i64) {
    chrono::Local::now().timestamp_millis()
}

} // verus!
