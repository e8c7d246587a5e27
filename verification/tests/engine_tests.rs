use libp2p::futures::StreamExt;
use p2pc::codec::{decode_message, encode_message};
use p2pc::engine::{admit_message, handle_action, handle_swarm_event, handle_transport_event,
    plan_send};
use p2pc::transport::{GossipSwarm, TransportEvent};
use p2pc::{Action, ActionResult, ChatMessage, Event, P2pc};

fn build_swarm(keypair: libp2p::identity::Keypair) -> libp2p::Swarm<libp2p::gossipsub::Behaviour> {
    libp2p::SwarmBuilder::with_existing_identity(keypair)
        .with_tokio()
        .with_tcp(
            libp2p::tcp::Config::default(),
            libp2p::noise::Config::new,
            libp2p::yamux::Config::default,
        )
        .unwrap()
        .with_behaviour(|key| {
            let message_id_fn = |message: &libp2p::gossipsub::Message| {
                let key_value = p2pc::dedup::dedup_key(&message.data, message.sequence_number);
                libp2p::gossipsub::MessageId::from(key_value.to_string())
            };
            let config = libp2p::gossipsub::ConfigBuilder::default()
                .message_id_fn(message_id_fn)
                .build()
                .unwrap();
            Ok(libp2p::gossipsub::Behaviour::new(
                libp2p::gossipsub::MessageAuthenticity::Signed(key.clone()),
                config,
            )
            .unwrap())
        })
        .unwrap()
        .build()
}

fn wire_bytes(participants: Vec<&str>, content: &str, id: u128, chat_id: u128) -> Vec<u8> {
    let m = ChatMessage {
        participants: participants.into_iter().map(|p| p.to_string()).collect(),
        content: content.to_string(),
        id,
        chat_id,
        answer_to: None,
    };
    encode_message(&m).into_bytes()
}

#[test]
fn inbound_not_addressed_is_dropped() {
    let local = "me".to_string();
    let data = wire_bytes(vec!["somebody", "sender"], "hi", 1, 2);
    assert!(admit_message(data, &local).is_none());
}

#[test]
fn inbound_addressed_is_delivered_without_local_id() {
    let local = "me".to_string();
    let data = wire_bytes(vec!["me", "bob", "sender"], "hi", 1, 2);
    let m = admit_message(data, &local).expect("addressed message must be delivered");
    assert_eq!(m.participants, vec!["bob".to_string(), "sender".to_string()]);
    assert_eq!(m.content, "hi");
    assert_eq!(m.id, 1);
    assert_eq!(m.chat_id, 2);
}

#[test]
fn inbound_duplicate_local_id_fully_removed() {
    let local = "me".to_string();
    let data = wire_bytes(vec!["me", "bob", "me", "sender"], "hi", 1, 2);
    let m = admit_message(data, &local).expect("addressed message must be delivered");
    assert!(!m.participants.contains(&local));
    assert_eq!(m.participants, vec!["bob".to_string(), "sender".to_string()]);
}

#[test]
fn inbound_noise_is_dropped() {
    let local = "me".to_string();
    assert!(admit_message(b"not an envelope".to_vec(), &local).is_none());
    assert!(admit_message(vec![0xff, 0xfe, 0x00], &local).is_none());
    assert!(admit_message(Vec::new(), &local).is_none());
}

#[test]
fn transport_event_new_listen_addr_is_surfaced() {
    let local = "me".to_string();
    let r = handle_transport_event(&local, TransportEvent::NewListenAddr("/ip4/1.2.3.4/tcp/1".to_string()));
    match r {
        Some(Event::NewListenAddress(a)) => assert_eq!(a, "/ip4/1.2.3.4/tcp/1"),
        _ => panic!("expected a NewListenAddress event"),
    }
}

#[test]
fn transport_event_other_is_ignored() {
    let local = "me".to_string();
    assert!(handle_transport_event(&local, TransportEvent::Other).is_none());
}

#[test]
fn fanout_plan_one_topic_per_participant() {
    let msg = ChatMessage {
        participants: vec!["a".to_string(), "b".to_string(), "c".to_string()],
        content: "fan out".to_string(),
        id: 5,
        chat_id: 6,
        answer_to: None,
    };
    let local = "me".to_string();
    let (topics, payload) = plan_send(&msg, &local);
    assert_eq!(topics, vec!["a".to_string(), "b".to_string(), "c".to_string()]);
    let on_wire = decode_message(payload.as_str()).expect("payload must decode");
    assert_eq!(
        on_wire.participants,
        vec!["a".to_string(), "b".to_string(), "c".to_string(), "me".to_string()]
    );
    assert_eq!(on_wire.content, "fan out");
    assert_eq!(on_wire.id, 5);
    assert_eq!(on_wire.chat_id, 6);
}

#[test]
fn delivery_through_admission_keeps_sender_and_drops_receiver() {
    // One sender, one recipient, simulated transport in between: what the
    // engine publishes for the recipient's topic is exactly what the
    // recipient's admission accepts.
    let sender_id = "X".to_string();
    let receiver_id = "Y".to_string();
    let msg = ChatMessage {
        participants: vec![receiver_id.clone()],
        content: "hi".to_string(),
        id: 11,
        chat_id: 12,
        answer_to: None,
    };
    let (topics, payload) = plan_send(&msg, &sender_id);
    assert_eq!(topics, vec![receiver_id.clone()]);
    let r = handle_transport_event(
        &receiver_id,
        TransportEvent::InboundMessage(payload.into_bytes()),
    );
    match r {
        Some(Event::MessageReceived(m)) => {
            assert_eq!(m.participants, vec![sender_id.clone()]);
            assert_eq!(m.content, "hi");
            assert_eq!(m.id, 11);
            assert_eq!(m.chat_id, 12);
        },
        _ => panic!("expected a MessageReceived event"),
    }
    // A bystander's inbox ignores a copy that does not list it.
    let bystander = "Z".to_string();
    let copy = wire_bytes(vec!["Y", "X"], "hi", 11, 12);
    assert!(handle_transport_event(&bystander, TransportEvent::InboundMessage(copy)).is_none());
}

#[test]
fn dedup_key_known_value() {
    // FNV-1a, 64 bit: the empty string folds to the offset basis, "a" to the
    // published constant.
    assert_eq!(p2pc::dedup::dedup_key(b"", None), 0xcbf29ce484222325);
    assert_eq!(p2pc::dedup::dedup_key(b"a", None), 0xaf63dc4c8601ec8c);
}

#[test]
fn dedup_key_is_deterministic() {
    let payload = b"identical bytes";
    let k1 = p2pc::dedup::dedup_key(payload, Some(77));
    let k2 = p2pc::dedup::dedup_key(payload, Some(77));
    assert_eq!(k1, k2);
    assert_ne!(p2pc::dedup::dedup_key(payload, Some(78)), k1);
    assert_ne!(p2pc::dedup::dedup_key(b"different bytes", Some(77)), k1);
}

#[test]
fn execute_after_engine_gone_returns_channel_closed() {
    let (sender, receiver) = tokio::sync::mpsc::unbounded_channel::<Action>();
    drop(receiver);
    let mut handle = P2pc { sender };
    let action = Action::Dial("/ip4/127.0.0.1/tcp/1".to_string());
    match handle.execute(action) {
        Err(closed) => match closed.0 {
            Action::Dial(addr) => assert_eq!(addr, "/ip4/127.0.0.1/tcp/1"),
            _ => panic!("the rejected action must come back unchanged"),
        },
        Ok(()) => panic!("submission to a closed channel must fail"),
    }
}

#[test]
fn execute_delivers_actions_in_submission_order() {
    let (sender, mut receiver) = tokio::sync::mpsc::unbounded_channel::<Action>();
    let mut handle = P2pc { sender };
    assert!(handle.execute(Action::ListenOn("/ip4/0.0.0.0/tcp/0".to_string())).is_ok());
    assert!(handle.execute(Action::Dial("/ip4/127.0.0.1/tcp/9".to_string())).is_ok());
    match receiver.try_recv().unwrap() {
        Action::ListenOn(a) => assert_eq!(a, "/ip4/0.0.0.0/tcp/0"),
        _ => panic!("first in must be first out"),
    }
    match receiver.try_recv().unwrap() {
        Action::Dial(a) => assert_eq!(a, "/ip4/127.0.0.1/tcp/9"),
        _ => panic!("second in must be second out"),
    }
}

#[test]
fn scenario_listen_yields_result_then_new_listen_address() {
    let rt = tokio::runtime::Builder::new_current_thread().enable_all().build().unwrap();
    rt.block_on(async {
        let keypair = libp2p::identity::Keypair::generate_ed25519();
        let local_id = keypair.public().to_peer_id().to_string();
        let mut swarm = GossipSwarm { swarm: build_swarm(keypair) };
        let r = handle_action(
            &mut swarm,
            &local_id,
            Action::ListenOn("/ip4/127.0.0.1/tcp/0".to_string()),
        );
        match r {
            Event::ActionResult(ActionResult::ListenOn { address, error }) => {
                assert_eq!(address, "/ip4/127.0.0.1/tcp/0");
                assert!(error.is_none(), "the transport refused the loopback address");
            },
            _ => panic!("a ListenOn action must yield a ListenOn result"),
        }
        loop {
            let ev = tokio::time::timeout(
                std::time::Duration::from_secs(10),
                swarm.swarm.select_next_some(),
            )
            .await
            .expect("the transport reported no listen address in time");
            if let Some(Event::NewListenAddress(addr)) = handle_swarm_event(&local_id, ev) {
                assert!(addr.starts_with("/ip4/127.0.0.1/tcp/"));
                break;
            }
        }
    });
}

#[test]
fn send_result_lists_one_slot_per_participant() {
    let rt = tokio::runtime::Builder::new_current_thread().enable_all().build().unwrap();
    rt.block_on(async {
        let keypair = libp2p::identity::Keypair::generate_ed25519();
        let local_id = keypair.public().to_peer_id().to_string();
        let mut swarm = GossipSwarm { swarm: build_swarm(keypair) };
        let msg = ChatMessage {
            participants: vec!["peer-one".to_string(), "peer-two".to_string()],
            content: "to the void".to_string(),
            id: 21,
            chat_id: 22,
            answer_to: None,
        };
        let r = handle_action(&mut swarm, &local_id, Action::SendMessage(msg));
        match r {
            Event::ActionResult(ActionResult::SendMessage {
                message_id,
                chat_id,
                optional_errors,
            }) => {
                assert_eq!(message_id, 21);
                assert_eq!(chat_id, 22);
                assert_eq!(optional_errors.len(), 2);
            },
            _ => panic!("a SendMessage action must yield a SendMessage result"),
        }
    });
}
