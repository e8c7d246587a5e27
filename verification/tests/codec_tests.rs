use p2pc::codec::{decode_message, encode_message};
use p2pc::ChatMessage;

fn sample() -> ChatMessage {
    ChatMessage {
        participants: vec!["alice".to_string(), "bob".to_string()],
        content: "hello there".to_string(),
        id: 7,
        chat_id: 9,
        answer_to: Some(3),
    }
}

#[test]
fn round_trip_basic() {
    let m = sample();
    let wire = encode_message(&m);
    let back = decode_message(wire.as_str()).expect("own encoding must decode");
    assert_eq!(back.participants, m.participants);
    assert_eq!(back.content, m.content);
    assert_eq!(back.id, m.id);
    assert_eq!(back.chat_id, m.chat_id);
    assert_eq!(back.answer_to, m.answer_to);
}

#[test]
fn round_trip_empty_fields() {
    let m = ChatMessage {
        participants: vec![],
        content: String::new(),
        id: 0,
        chat_id: u128::MAX,
        answer_to: None,
    };
    let wire = encode_message(&m);
    let back = decode_message(wire.as_str()).expect("own encoding must decode");
    assert_eq!(back.participants, m.participants);
    assert_eq!(back.content, m.content);
    assert_eq!(back.id, 0);
    assert_eq!(back.chat_id, u128::MAX);
    assert_eq!(back.answer_to, None);
}

#[test]
fn round_trip_unicode_content() {
    let m = ChatMessage {
        participants: vec!["päär".to_string(), "Δλφ".to_string()],
        content: "héllo 🌍 — ok".to_string(),
        id: 0xdeadbeefdeadbeefdeadbeefdeadbeef,
        chat_id: 42,
        answer_to: None,
    };
    let wire = encode_message(&m);
    let back = decode_message(wire.as_str()).expect("own encoding must decode");
    assert_eq!(back.participants, m.participants);
    assert_eq!(back.content, m.content);
    assert_eq!(back.id, m.id);
}

#[test]
fn encode_exact_layout() {
    let m = ChatMessage {
        participants: vec!["b".to_string()],
        content: "A".to_string(),
        id: 1,
        chat_id: 2,
        answer_to: None,
    };
    let wire = encode_message(&m);
    let expected = "0000000000000000000000000000000100000000000000000000000000000002n0000000000000001A00000000000000010000000000000001b";
    assert_eq!(wire, expected);
}

#[test]
fn encode_exact_layout_with_answer() {
    let m = ChatMessage {
        participants: vec![],
        content: String::new(),
        id: 0xab,
        chat_id: 0,
        answer_to: Some(0xff),
    };
    let wire = encode_message(&m);
    let expected = "000000000000000000000000000000ab00000000000000000000000000000000s000000000000000000000000000000ff00000000000000000000000000000000";
    assert_eq!(wire, expected);
}

#[test]
fn decode_foreign_encoding() {
    // An envelope assembled by hand, as another implementation would write it.
    let wire = "0000000000000000000000000000000a0000000000000000000000000000000bn0000000000000002hi00000000000000010000000000000003xyz";
    let m = decode_message(wire).expect("well-formed envelope must decode");
    assert_eq!(m.id, 0xa);
    assert_eq!(m.chat_id, 0xb);
    assert_eq!(m.content, "hi");
    assert_eq!(m.participants, vec!["xyz".to_string()]);
    assert_eq!(m.answer_to, None);
}

#[test]
fn decode_rejects_truncated() {
    assert!(decode_message("").is_none());
    assert!(decode_message("0000").is_none());
    let whole = encode_message(&sample());
    let cut: String = whole.chars().take(whole.chars().count() - 1).collect();
    assert!(decode_message(cut.as_str()).is_none());
}

#[test]
fn decode_rejects_bad_digit() {
    let whole = encode_message(&sample());
    let bad: String = {
        let mut s = String::from("z");
        s.push_str(&whole[1..]);
        s
    };
    assert!(decode_message(bad.as_str()).is_none());
}

#[test]
fn decode_rejects_trailing_characters() {
    let mut whole = encode_message(&sample());
    whole.push('!');
    assert!(decode_message(whole.as_str()).is_none());
}

#[test]
fn decode_rejects_overlong_length_field() {
    // The content length field claims far more characters than follow.
    let wire = "0000000000000000000000000000000100000000000000000000000000000002n00000000000000ffhi";
    assert!(decode_message(wire).is_none());
}

#[test]
fn decode_rejects_bad_answer_tag() {
    let wire = "0000000000000000000000000000000100000000000000000000000000000002x00000000000000000000000000000000";
    assert!(decode_message(wire).is_none());
}
