use dashchat_node::bytes::{compare_bytes, equal_bytes, Order};
use dashchat_node::chat::message::{ChatMessage, ChatMessageContent, MessageSet};
use dashchat_node::identity::PK;
use dashchat_node::operation::CodecError;

fn message(timestamp: u64, content: &str, author: u8) -> ChatMessage {
    ChatMessage { content: ChatMessageContent::from(content), author: PK([author; 32]), timestamp }
}

#[test]
fn bytes_compare_lexicographically() {
    assert_eq!(compare_bytes(b"", b""), Order::Equal);
    assert_eq!(compare_bytes(b"", b"a"), Order::Less);
    assert_eq!(compare_bytes(b"a", b""), Order::Greater);
    assert_eq!(compare_bytes(b"abc", b"abd"), Order::Less);
    assert_eq!(compare_bytes(b"abd", b"abc"), Order::Greater);
    assert_eq!(compare_bytes(b"ab", b"abc"), Order::Less);
    assert_eq!(compare_bytes(b"b", b"abc"), Order::Greater);
    assert_eq!(compare_bytes(b"abc", b"abc"), Order::Equal);
    assert_eq!(compare_bytes(&[0xff], &[0x00, 0x01]), Order::Greater);
    assert!(equal_bytes(b"abc", b"abc"));
    assert!(!equal_bytes(b"abc", b"abd"));
    assert!(!equal_bytes(b"abc", b"ab"));
}

#[test]
fn messages_are_ordered_by_time_then_text_then_author() {
    let base = message(5, "hello", 3);
    assert_eq!(base.compare(&message(5, "hello", 3)), Order::Equal);
    assert_eq!(message(4, "zzz", 9).compare(&base), Order::Less);
    assert_eq!(message(6, "a", 0).compare(&base), Order::Greater);
    assert_eq!(message(5, "hellO", 9).compare(&base), Order::Less);
    assert_eq!(message(5, "help", 0).compare(&base), Order::Greater);
    assert_eq!(message(5, "hell", 9).compare(&base), Order::Less);
    assert_eq!(message(5, "hello", 2).compare(&base), Order::Less);
    assert_eq!(message(5, "hello", 4).compare(&base), Order::Greater);
}

#[test]
fn text_is_ordered_as_strings_are() {
    let texts = ["", "a", "ab", "b", "é", "z", "日本", "~"];
    for a in texts {
        for b in texts {
            let expected = match a.cmp(b) {
                std::cmp::Ordering::Less => Order::Less,
                std::cmp::Ordering::Equal => Order::Equal,
                std::cmp::Ordering::Greater => Order::Greater,
            };
            assert_eq!(message(1, a, 1).compare(&message(1, b, 1)), expected, "{a:?} {b:?}");
        }
    }
}

#[test]
fn a_message_set_keeps_each_message_once_and_in_order() {
    let mut set = MessageSet::new();
    assert_eq!(set.len(), 0);
    assert!(set.insert(message(5, "bob", 2)));
    assert!(set.insert(message(3, "alice", 1)));
    assert!(set.insert(message(9, "carol", 3)));
    assert!(set.insert(message(5, "bob", 1)));
    assert!(!set.insert(message(5, "bob", 2)));
    assert!(!set.insert(message(3, "alice", 1)));
    assert_eq!(set.len(), 4);
    assert_eq!(
        set.to_vec(),
        vec![message(3, "alice", 1), message(5, "bob", 1), message(5, "bob", 2), message(9, "carol", 3)]
    );
}

#[test]
fn the_order_of_arrival_does_not_show() {
    let messages = [
        message(2, "b", 1),
        message(1, "a", 1),
        message(2, "a", 2),
        message(2, "a", 1),
        message(7, "", 0),
    ];
    let mut forward = MessageSet::new();
    for m in messages.iter() {
        forward.insert(m.clone());
    }
    let mut backward = MessageSet::new();
    for m in messages.iter().rev() {
        backward.insert(m.clone());
        backward.insert(m.clone());
    }
    assert_eq!(forward.to_vec(), backward.to_vec());
    let mut sorted = messages.to_vec();
    sorted.sort_by(|a, b| {
        (a.timestamp, a.content.as_str(), a.author.as_bytes())
            .cmp(&(b.timestamp, b.content.as_str(), b.author.as_bytes()))
    });
    assert_eq!(forward.to_vec(), sorted);
}

#[test]
fn content_is_encoded_as_a_cbor_text() {
    let content = ChatMessageContent::from("Hello");
    assert_eq!(content.as_str(), "Hello");
    let bytes = content.as_bytes().unwrap();
    assert_eq!(bytes, vec![0x65, b'H', b'e', b'l', b'l', b'o']);
    assert_eq!(ChatMessageContent::from_bytes(&bytes), Ok(content));
    assert_eq!(ChatMessageContent::from("").as_bytes().unwrap(), vec![0x60]);
}

#[test]
fn content_round_trips_through_its_encoding() {
    for text in ["", "x", "alice is my name", "watashi no namae wa carol", "日本語 ✓"] {
        let content = ChatMessageContent::from(text);
        let bytes = content.as_bytes().unwrap();
        assert_eq!(bytes, p2panda_core::cbor::encode_cbor(&text.to_string()).unwrap());
        assert_eq!(ChatMessageContent::from_bytes(&bytes).unwrap(), content);
    }
}

#[test]
fn bytes_that_are_no_text_are_refused() {
    assert_eq!(ChatMessageContent::from_bytes(&[]), Err(CodecError::Decode));
    assert_eq!(ChatMessageContent::from_bytes(&[0x01]), Err(CodecError::Decode));
    assert_eq!(ChatMessageContent::from_bytes(&[0x65, b'H']), Err(CodecError::Decode));
    assert_eq!(ChatMessageContent::from_bytes(&[0x62, 0xff, 0xfe]), Err(CodecError::Decode));
}
