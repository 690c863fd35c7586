use dashchat_node::chat::{ChatId, ChatIdError};
use dashchat_node::identity::{Digest, PrivateKey, ShortId, PK};
use dashchat_node::network::Topic;
use dashchat_node::spaces::ActorId;

fn bytes_from(start: u8) -> [u8; 32] {
    let mut out = [0u8; 32];
    for (i, b) in out.iter_mut().enumerate() {
        *b = start.wrapping_add(i as u8);
    }
    out
}

#[test]
fn chat_id_new_keeps_the_bytes() {
    let bytes = bytes_from(7);
    let id = ChatId::new(bytes);
    assert_eq!(*id.as_bytes(), bytes);
    assert_eq!(id, ChatId::new(bytes));
    assert_ne!(id, ChatId::new(bytes_from(8)));
}

#[test]
fn chat_id_text_is_lower_case_hex() {
    let mut bytes = [0u8; 32];
    bytes[0] = 0xab;
    bytes[1] = 0x01;
    bytes[31] = 0xff;
    let text = ChatId::new(bytes).to_string();
    assert_eq!(text.len(), 64);
    assert_eq!(
        text,
        "ab010000000000000000000000000000000000000000000000000000000000ff"
    );
}

#[test]
fn chat_id_round_trips_through_text() {
    let id = ChatId::new(bytes_from(200));
    assert_eq!(ChatId::from_str(&id.to_string()), Ok(id));
}

#[test]
fn chat_id_reads_upper_case_hex() {
    let text = "AB010000000000000000000000000000000000000000000000000000000000FF";
    let mut bytes = [0u8; 32];
    bytes[0] = 0xab;
    bytes[1] = 0x01;
    bytes[31] = 0xff;
    assert_eq!(ChatId::from_str(text), Ok(ChatId::new(bytes)));
}

#[test]
fn chat_id_rejects_text_that_is_not_hex() {
    assert_eq!(ChatId::from_str("xyz"), Err(ChatIdError::InvalidHex));
    assert_eq!(ChatId::from_str("abc"), Err(ChatIdError::InvalidHex));
    let bad = "zz010000000000000000000000000000000000000000000000000000000000ff";
    assert_eq!(ChatId::from_str(bad), Err(ChatIdError::InvalidHex));
}

#[test]
fn chat_id_rejects_the_wrong_length() {
    assert_eq!(ChatId::from_str("abcd"), Err(ChatIdError::InvalidLength(2)));
    assert_eq!(ChatId::from_str(""), Err(ChatIdError::InvalidLength(0)));
    let long = "00".repeat(33);
    assert_eq!(ChatId::from_str(&long), Err(ChatIdError::InvalidLength(33)));
}

#[test]
fn random_chat_ids_differ() {
    let a = ChatId::random();
    let b = ChatId::random();
    assert_ne!(a, b);
}

#[test]
fn topic_id_is_the_bytes_of_what_it_names() {
    let chat = ChatId::new(bytes_from(1));
    let key = PrivateKey::from_bytes(&bytes_from(2)).public_key();
    assert_eq!(Topic::Chat(chat).id(), bytes_from(1));
    assert_eq!(Topic::Inbox(key).id(), *key.as_bytes());
}

#[test]
fn digest_is_blake3() {
    let digest = Digest::new(&[1, 2, 3]);
    assert_eq!(
        digest.as_bytes(),
        &[
            177, 119, 236, 27, 242, 109, 251, 59, 112, 16, 212, 115, 230, 212, 71, 19, 178, 155,
            118, 91, 153, 198, 230, 14, 203, 250, 231, 66, 222, 73, 101, 67
        ]
    );
    assert_eq!(
        Digest::new(b"A very important message.").to_hex(),
        "8d3ca6d66651182cd6a9c1fc5dad0260a0ee29fe9ed494734e60d259430ae8a4"
    );
    assert_eq!(digest.as_bytes(), p2panda_core::Hash::new([1, 2, 3]).as_bytes());
}

#[test]
fn short_texts_show_the_first_eight_digits() {
    let digest = Digest::new(b"A very important message.");
    assert_eq!(digest.short(), "H|8d3ca6d6");
    let mut bytes = [0u8; 32];
    bytes[0] = 0x12;
    bytes[1] = 0x34;
    bytes[2] = 0xab;
    bytes[3] = 0xcd;
    bytes[4] = 0xef;
    let key = PK(bytes);
    assert_eq!(key.short(), "1234abcd");
    assert_eq!(key.label(), "PK|1234abcd");
    assert_eq!(<Digest as ShortId>::PREFIX, "H|");
    assert_eq!(<PK as ShortId>::PREFIX, "PK|");
}

#[test]
fn public_key_agrees_with_the_signing_library() {
    let mut valid = 0;
    let mut invalid = 0;
    for i in 0..=255u8 {
        let bytes = [i; 32];
        let theirs = p2panda_core::PublicKey::from_bytes(&bytes).is_ok();
        let ours = PK::from_bytes(&bytes);
        assert_eq!(ours.is_ok(), theirs);
        if let Ok(key) = ours {
            assert_eq!(*key.as_bytes(), bytes);
            valid += 1;
        } else {
            invalid += 1;
        }
    }
    assert!(valid > 0);
    assert!(invalid > 0);
}

#[test]
fn public_key_of_a_secret_key() {
    let secret = bytes_from(9);
    let ours = PrivateKey::from_bytes(&secret).public_key();
    let theirs = p2panda_core::PrivateKey::from_bytes(&secret).public_key();
    assert_eq!(ours.as_bytes(), theirs.as_bytes());
    assert_eq!(PK::from_bytes(ours.as_bytes()), Ok(ours));
    assert_eq!(ours.to_hex(), theirs.to_hex());
}

#[test]
fn identifiers_convert_into_each_other() {
    let key = PrivateKey::from_bytes(&bytes_from(2)).public_key();
    let chat = ChatId::new(bytes_from(3));
    assert_eq!(Topic::from(chat), Topic::Chat(chat));
    assert_eq!(Topic::from(key), Topic::Inbox(key));
    let actor: ActorId = key.into();
    assert_eq!(actor, ActorId(*key.as_bytes()));
    assert_eq!(PK::from(actor), key);
}
