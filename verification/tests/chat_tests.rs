use p2pc::chat::chats::Chats;
use p2pc::chat::contact::{Contact, Rgb};
use p2pc::chat::contacts::Contacts;
use p2pc::chat::message::Message;
use p2pc::chat::Chat;
use p2pc::chat::ChatEditWindowContent;
use p2pc::{Action, ChatMessage, P2pc};

#[test]
fn message_carries_its_fields() {
    let m = Message::new_with_id("alice".to_string(), "hi".to_string(), Some(9), 41);
    assert_eq!(m.get_sender(), "alice");
    assert_eq!(m.get_content(), "hi");
    assert_eq!(m.get_message_id(), 41);
    assert_eq!(m.get_answer_to(), Some(9));
}

#[test]
fn message_answer_to_marks_reply() {
    let mut m = Message::new("alice".to_string(), "hi".to_string(), None);
    assert_eq!(m.get_answer_to(), None);
    m.answer_to(77);
    assert_eq!(m.get_answer_to(), Some(77));
    assert_eq!(m.get_sender(), "alice");
}

#[test]
fn fresh_messages_draw_distinct_ids() {
    let a = Message::new("alice".to_string(), "one".to_string(), None);
    let b = Message::new("alice".to_string(), "two".to_string(), None);
    assert_ne!(a.get_message_id(), b.get_message_id());
}

#[test]
fn chat_stores_and_finds_lines() {
    let mut chat = Chat::new_incoming_chat(vec!["bob".to_string()], 5);
    assert_eq!(chat.get_chat_id(), 5);
    assert_eq!(chat.name, "New Chat");
    assert_eq!(chat.get_participants(), &vec!["bob".to_string()]);
    assert!(chat.get_chat_messages().is_empty());
    chat.insert_message("bob".to_string(), "first".to_string(), None, 100);
    chat.insert_message("bob".to_string(), "second".to_string(), Some(100), 101);
    assert_eq!(chat.get_chat_messages().len(), 2);
    let found = chat.get_message_from_id(101).expect("inserted line must be found");
    assert_eq!(found.get_content(), "second");
    assert_eq!(found.get_answer_to(), Some(100));
    assert!(chat.get_message_from_id(102).is_none());
}

#[test]
fn chat_new_message_appends_locally() {
    let mut chat = Chat::new_chat(vec!["bob".to_string()]);
    chat.new_message("me".to_string(), "a line".to_string());
    assert_eq!(chat.get_chat_messages().len(), 1);
    assert_eq!(chat.get_chat_messages()[0].get_sender(), "me");
    assert_eq!(chat.get_chat_messages()[0].get_content(), "a line");
}

#[test]
fn chat_send_message_submits_and_stores() {
    let (sender, mut receiver) = tokio::sync::mpsc::unbounded_channel::<Action>();
    let mut p2pc = P2pc { sender };
    let mut chat = Chat::new_incoming_chat(vec!["bob".to_string(), "carol".to_string()], 8);
    chat.send_message(&mut p2pc, "me".to_string(), "hello both".to_string(), None);
    assert_eq!(chat.get_chat_messages().len(), 1);
    let stored = &chat.get_chat_messages()[0];
    assert_eq!(stored.get_sender(), "me");
    assert_eq!(stored.get_content(), "hello both");
    match receiver.try_recv().unwrap() {
        Action::SendMessage(wire) => {
            assert_eq!(wire.participants, vec!["bob".to_string(), "carol".to_string()]);
            assert_eq!(wire.content, "hello both");
            assert_eq!(wire.chat_id, 8);
            assert_eq!(wire.id, stored.get_message_id());
        },
        _ => panic!("a send must submit a SendMessage action"),
    }
}

#[test]
fn chat_send_message_on_closed_channel_stores_nothing() {
    let (sender, receiver) = tokio::sync::mpsc::unbounded_channel::<Action>();
    drop(receiver);
    let mut p2pc = P2pc { sender };
    let mut chat = Chat::new_incoming_chat(vec!["bob".to_string()], 8);
    chat.send_message(&mut p2pc, "me".to_string(), "lost".to_string(), None);
    assert!(chat.get_chat_messages().is_empty());
}

#[test]
fn chat_from_window_round_trip() {
    let mut window = ChatEditWindowContent::new();
    assert_eq!(window.name, "New Chat");
    assert!(window.participants.is_empty());
    window.name = "planning".to_string();
    window.participants = vec!["bob".to_string()];
    let chat = Chat::from_chat_window(window);
    assert_eq!(chat.name, "planning");
    assert_eq!(chat.get_participants(), &vec!["bob".to_string()]);
    let back = ChatEditWindowContent::from_chat(&chat);
    assert_eq!(back.name, "planning");
    assert_eq!(back.participants, vec!["bob".to_string()]);
    let empty = ChatEditWindowContent::default();
    assert_eq!(empty.name, "");
    assert!(empty.participants.is_empty());
}

#[test]
fn chats_add_get_remove() {
    let mut chats = Chats::default();
    let chat = Chat::new_incoming_chat(vec!["bob".to_string()], 3);
    chats.add_chat(chat);
    assert!(chats.get_chat(&3).is_some());
    assert!(chats.get_chat(&4).is_none());
    assert_eq!(chats.get_chats().len(), 1);
    let removed = chats.remove_chat(&3).expect("stored conversation must come out");
    assert_eq!(removed.get_chat_id(), 3);
    assert!(chats.get_chat(&3).is_none());
    assert!(chats.remove_chat(&3).is_none());
}

#[test]
fn chats_add_replaces_same_id() {
    let mut chats = Chats::default();
    let mut first = Chat::new_incoming_chat(vec!["bob".to_string()], 3);
    first.name = "old".to_string();
    chats.add_chat(first);
    let mut second = Chat::new_incoming_chat(vec!["carol".to_string()], 3);
    second.name = "new".to_string();
    chats.add_chat(second);
    assert_eq!(chats.get_chats().len(), 1);
    assert_eq!(chats.get_chat(&3).unwrap().name, "new");
}

#[test]
fn chats_apply_message_received_creates_conversation() {
    let mut chats = Chats::default();
    let delivered = ChatMessage {
        participants: vec!["X".to_string()],
        content: "hi".to_string(),
        id: 31,
        chat_id: 32,
        answer_to: None,
    };
    chats.apply_message_received(delivered);
    let chat = chats.get_chat(&32).expect("an unknown chat id must create the conversation");
    assert_eq!(chat.get_chat_messages().len(), 1);
    assert_eq!(chat.get_chat_messages()[0].get_sender(), "X");
    assert_eq!(chat.get_chat_messages()[0].get_content(), "hi");
    assert_eq!(chat.get_chat_messages()[0].get_message_id(), 31);
}

#[test]
fn chats_apply_message_received_appends_to_existing() {
    let mut chats = Chats::default();
    chats.add_chat(Chat::new_incoming_chat(vec!["X".to_string()], 32));
    let delivered = ChatMessage {
        participants: vec!["X".to_string()],
        content: "again".to_string(),
        id: 33,
        chat_id: 32,
        answer_to: Some(31),
    };
    chats.apply_message_received(delivered);
    let chat = chats.get_chat(&32).unwrap();
    assert_eq!(chat.get_chat_messages().len(), 1);
    assert_eq!(chat.get_chat_messages()[0].get_content(), "again");
    assert_eq!(chat.get_chat_messages()[0].get_answer_to(), Some(31));
    assert_eq!(chats.get_chats().len(), 1);
}

#[test]
fn chats_apply_message_without_sender_changes_nothing() {
    let mut chats = Chats::default();
    let delivered = ChatMessage {
        participants: vec![],
        content: "orphan".to_string(),
        id: 1,
        chat_id: 2,
        answer_to: None,
    };
    chats.apply_message_received(delivered);
    assert!(chats.get_chats().is_empty());
}

#[test]
fn chats_send_message_reaches_only_the_named_conversation() {
    let (sender, mut receiver) = tokio::sync::mpsc::unbounded_channel::<Action>();
    let mut p2pc = P2pc { sender };
    let mut chats = Chats::default();
    chats.add_chat(Chat::new_incoming_chat(vec!["bob".to_string()], 1));
    chats.add_chat(Chat::new_incoming_chat(vec!["carol".to_string()], 2));
    chats.send_message(&1, &mut p2pc, "me".to_string(), "to bob".to_string(), None);
    assert_eq!(chats.get_chat(&1).unwrap().get_chat_messages().len(), 1);
    assert!(chats.get_chat(&2).unwrap().get_chat_messages().is_empty());
    match receiver.try_recv().unwrap() {
        Action::SendMessage(wire) => assert_eq!(wire.participants, vec!["bob".to_string()]),
        _ => panic!("a send must submit a SendMessage action"),
    }
    chats.send_message(&9, &mut p2pc, "me".to_string(), "nowhere".to_string(), None);
    assert!(receiver.try_recv().is_err());
}

#[test]
fn contact_default_is_empty_and_black() {
    let c = Contact::default();
    assert_eq!(c.public_key, "");
    assert_eq!(c.name, "");
    assert_eq!(c.color, Rgb { r: 0, g: 0, b: 0 });
}

#[test]
fn contacts_add_get_remove() {
    let mut contacts = Contacts::default();
    contacts.add_contact(Contact {
        public_key: "key-a".to_string(),
        name: "Alice".to_string(),
        color: Rgb { r: 1, g: 2, b: 3 },
    });
    contacts.add_contact(Contact {
        public_key: "key-b".to_string(),
        name: "Bob".to_string(),
        color: Rgb { r: 4, g: 5, b: 6 },
    });
    let a = contacts.get_contact(&"key-a".to_string()).expect("stored entry must be found");
    assert_eq!(a.name, "Alice");
    assert!(contacts.get_contact(&"key-c".to_string()).is_none());
    contacts.remove_contact(&"key-a".to_string());
    assert!(contacts.get_contact(&"key-a".to_string()).is_none());
    assert_eq!(contacts.get_contacts().len(), 1);
}

#[test]
fn contacts_add_replaces_same_key() {
    let mut contacts = Contacts::default();
    contacts.add_contact(Contact {
        public_key: "key-a".to_string(),
        name: "Alice".to_string(),
        color: Rgb { r: 1, g: 2, b: 3 },
    });
    contacts.add_contact(Contact {
        public_key: "key-a".to_string(),
        name: "Alicia".to_string(),
        color: Rgb { r: 7, g: 8, b: 9 },
    });
    assert_eq!(contacts.get_contacts().len(), 1);
    let a = contacts.get_contact(&"key-a".to_string()).unwrap();
    assert_eq!(a.name, "Alicia");
    assert_eq!(a.color, Rgb { r: 7, g: 8, b: 9 });
}
