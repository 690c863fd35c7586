use dashchat_node::chat::ChatId;
use dashchat_node::collections::VecMap;
use dashchat_node::identity::{Digest, PrivateKey, PK};
use dashchat_node::ingest::IngestError;
use dashchat_node::network::Topic;
use dashchat_node::node::author_operation::{
    create_operation, message_ids, next_position, space_dependency_hashes, AuthorError,
};
use dashchat_node::node::stream_processing::PayloadPlan;
use dashchat_node::node::{Node, NodeConfig};
use dashchat_node::operation::{
    decode_gossip_message, encode_gossip_message, CodecError, Extensions, Header,
    InvitationMessage, Operation, Payload,
};
use dashchat_node::spaces::{ActorId, OperationId, SpaceControlMessage, SpacesArgs};
use dashchat_node::store::OpStore;

fn key(n: u8) -> PrivateKey {
    PrivateKey::from_bytes(&[n; 32])
}

fn chat_id(n: u8) -> ChatId {
    ChatId::new([n; 32])
}

fn id(n: u8) -> OperationId {
    OperationId([n; 32])
}

/// A stand-in for the wire encoding of a header: every field, in order.
fn encode(header: &Header) -> Vec<u8> {
    let mut out = Vec::new();
    out.extend_from_slice(&header.version.to_be_bytes());
    out.extend_from_slice(header.public_key.as_bytes());
    if let Some(signature) = &header.signature {
        out.push(1);
        out.extend_from_slice(&signature.0);
    } else {
        out.push(0);
    }
    out.extend_from_slice(&header.payload_size.to_be_bytes());
    if let Some(hash) = &header.payload_hash {
        out.extend_from_slice(hash.as_bytes());
    }
    out.extend_from_slice(&header.timestamp.to_be_bytes());
    out.extend_from_slice(&header.seq_num.to_be_bytes());
    if let Some(hash) = &header.backlink {
        out.extend_from_slice(hash.as_bytes());
    }
    for hash in &header.previous {
        out.extend_from_slice(hash.as_bytes());
    }
    if let Some(extensions) = &header.extensions {
        out.extend_from_slice(&extensions.log_id.id());
    }
    out
}

/// A control message with the given identifier and dependencies.
fn control(n: u8, application: bool, deps: Vec<OperationId>) -> SpaceControlMessage {
    let spaces_args = if application {
        SpacesArgs::Application {
            space_id: chat_id(9),
            space_dependencies: deps,
            group_secret_id: [0; 32],
            nonce: [0; 24],
            ciphertext: vec![n],
        }
    } else {
        SpacesArgs::SpaceUpdate {
            space_id: chat_id(9),
            group_id: ActorId([0; 32]),
            space_dependencies: deps,
        }
    };
    SpaceControlMessage { hash: Digest([n; 32]), author: ActorId([1; 32]), spaces_args }
}

/// Signs and publishes what the node drafts, as the shell around it does.
fn author(
    node: &mut Node,
    topic: Topic,
    payload: &Payload,
    body: &[u8],
    timestamp: u64,
) -> Result<dashchat_node::node::author_operation::Published, AuthorError> {
    let body = body.to_vec();
    let mut header = node.author_operation(topic, payload, &body, timestamp)?;
    let unsigned = encode(&header);
    header.sign(&node.private_key, &unsigned);
    let bytes = encode(&header);
    node.publish_operation(topic, payload, header, bytes, unsigned, Some(body))
}

#[test]
fn the_first_operation_of_a_log_has_no_backlink() {
    let store = OpStore::new();
    let alice = key(1);
    let topic = Topic::Chat(chat_id(9));
    assert_eq!(next_position(&store, &alice.public_key(), &topic), (0, None));
    let deps = vec![Digest::new(b"dep")];
    let header = create_operation(&store, &alice, topic, &b"body".to_vec(), deps.clone(), 77);
    assert_eq!(
        header,
        Header {
            version: 1,
            public_key: alice.public_key(),
            signature: None,
            payload_size: 4,
            payload_hash: Some(Digest::new(b"body")),
            timestamp: 77,
            seq_num: 0,
            backlink: None,
            previous: deps,
            extensions: Some(Extensions { log_id: topic }),
        }
    );
    assert_eq!(header.log_id(), Some(topic));
    assert_eq!(header.prune_flag(), Some(false));
}

#[test]
fn an_empty_body_has_size_zero_and_a_hash() {
    let header = create_operation(&OpStore::new(), &key(1), Topic::Inbox(PK([3; 32])), &vec![], vec![], 0);
    assert_eq!(header.payload_size, 0);
    assert_eq!(header.payload_hash, Some(Digest::new(b"")));
    assert_eq!(header.previous, vec![]);
}

#[test]
fn each_operation_links_to_the_one_before() {
    let mut node = Node::new(key(1), NodeConfig::default());
    let chat = node.create_group();
    let topic = Topic::Chat(chat);
    let payload = Payload::Invitation(InvitationMessage::Friend);
    let mut hashes = vec![];
    for n in 0..3u64 {
        let published = author(&mut node, topic, &payload, &[n as u8], 10 + n).unwrap();
        assert!(published.stored);
        assert_eq!(published.author, node.public_key());
        assert_eq!(published.timestamp, 10 + n);
        hashes.push(published.hash);
        assert_eq!(
            next_position(&node.op_store, &node.public_key(), &topic),
            (n + 1, Some(published.hash))
        );
    }
    let log = node.op_store.get_log(&node.public_key(), &topic, None).unwrap();
    assert_eq!(log.iter().map(|op| op.hash).collect::<Vec<_>>(), hashes);
    assert_eq!(log[2].header.seq_num, 2);
    assert_eq!(log[2].header.backlink, Some(hashes[1]));
    assert_eq!(log[0].header.backlink, None);
    assert_eq!(
        next_position(&node.op_store, &node.public_key(), &Topic::Chat(chat_id(8))),
        (0, None)
    );
}

#[test]
fn a_signature_verifies_under_the_public_key() {
    let alice = key(1);
    let mut header = create_operation(&OpStore::new(), &alice, Topic::Chat(chat_id(9)), &vec![1], vec![], 5);
    let unsigned = encode(&header);
    let before = header.clone();
    header.sign(&alice, &unsigned);
    let signature = header.signature.unwrap();
    let theirs = p2panda_core::PrivateKey::from_bytes(&[1; 32]);
    assert_eq!(signature.0, theirs.sign(&unsigned).to_bytes());
    assert!(theirs
        .public_key()
        .verify(&unsigned, &p2panda_core::Signature::from_bytes(&signature.0)));
    header.signature = None;
    assert_eq!(header, before);

    header.signature = Some(signature);
    let bytes = encode(&header);
    let operation = Operation::new(header, bytes.clone(), unsigned.clone(), Some(vec![1]));
    assert_eq!(operation.hash, Digest::new(&bytes));
    assert!(operation.verify());
    assert!(operation.check_payload());
    let mut tampered = operation.clone();
    tampered.unsigned_bytes[0] ^= 1;
    assert!(!tampered.verify());
    let mut swapped = operation.clone();
    swapped.body = Some(vec![2]);
    assert!(!swapped.check_payload());
    swapped.body = None;
    assert!(swapped.check_payload());
}

#[test]
fn dependencies_within_a_batch_are_met_by_the_batch() {
    let msgs = vec![control(1, false, vec![]), control(2, false, vec![id(1)]), control(3, true, vec![id(2), id(1)])];
    assert_eq!(message_ids(&msgs), vec![id(1), id(2), id(3)]);
    let known: VecMap<OperationId, Digest> = VecMap::new();
    assert_eq!(space_dependency_hashes(&msgs, &known), Ok(vec![]));
}

#[test]
fn dependencies_outside_a_batch_become_the_hashes_of_their_operations() {
    let mut known: VecMap<OperationId, Digest> = VecMap::new();
    known.insert(id(10), Digest::new(b"first operation"));
    known.insert(id(11), Digest::new(b"first operation"));
    known.insert(id(12), Digest::new(b"second operation"));
    known.insert(id(1), Digest::new(b"not needed: part of the batch"));
    let msgs = vec![
        control(1, false, vec![id(12), id(10)]),
        control(2, true, vec![id(1), id(11), id(12)]),
    ];
    assert_eq!(
        space_dependency_hashes(&msgs, &known),
        Ok(vec![Digest::new(b"second operation"), Digest::new(b"first operation")])
    );
    assert_eq!(space_dependency_hashes(&vec![], &known), Ok(vec![]));
}

#[test]
fn an_unknown_dependency_outside_the_batch_is_an_error() {
    let mut known: VecMap<OperationId, Digest> = VecMap::new();
    known.insert(id(10), Digest::new(b"known"));
    let msgs = vec![control(1, false, vec![id(10), id(20), id(21)])];
    assert_eq!(space_dependency_hashes(&msgs, &known), Err(id(20)));

    let node = Node::new(key(1), NodeConfig::default());
    let drafted = node.author_operation_with_deps(
        Topic::Chat(chat_id(9)),
        &Payload::SpaceControl(msgs),
        &vec![],
        vec![],
        1,
    );
    assert_eq!(drafted, Err(AuthorError::MissingSpaceDependency(id(10))));
}

#[test]
fn the_header_depends_on_the_given_and_on_the_space_dependencies() {
    let mut node = Node::new(key(1), NodeConfig::default());
    let chat = node.create_group();
    let topic = Topic::Chat(chat);
    let first = Payload::SpaceControl(vec![control(1, false, vec![])]);
    let carried = author(&mut node, topic, &first, b"first", 1).unwrap();
    assert_eq!(node.space_dependencies.get(&id(1)), Some(&carried.hash));

    let second = Payload::SpaceControl(vec![control(2, true, vec![id(1)])]);
    let extra = Digest::new(b"extra");
    let header = node
        .author_operation_with_deps(topic, &second, &b"second".to_vec(), vec![extra], 2)
        .unwrap();
    assert_eq!(header.previous, vec![extra, carried.hash]);
    assert_eq!(header.seq_num, 1);
    assert_eq!(header.backlink, Some(carried.hash));
    let header = node.author_operation(topic, &second, &b"second".to_vec(), 2).unwrap();
    assert_eq!(header.previous, vec![carried.hash]);

    let invitation = Payload::Invitation(InvitationMessage::JoinGroup(chat));
    let header = node.author_operation(Topic::Inbox(PK([5; 32])), &invitation, &vec![], 3).unwrap();
    assert_eq!(header.previous, vec![]);
    assert_eq!(header.seq_num, 0);
}

#[test]
fn the_author_passes_on_only_the_application_messages() {
    let mut node = Node::new(key(1), NodeConfig::default());
    let chat = node.create_group();
    let topic = Topic::Chat(chat);
    let payload = Payload::SpaceControl(vec![
        control(1, false, vec![]),
        control(2, true, vec![]),
        control(3, false, vec![]),
        control(4, true, vec![]),
    ]);
    let published = author(&mut node, topic, &payload, b"batch", 1).unwrap();
    let delivery = published.delivery.unwrap();
    assert!(delivery.notify);
    assert_eq!(delivery.plan, PayloadPlan::Space { chat_id: chat, positions: vec![1, 3] });
    for n in 1..=4 {
        assert_eq!(node.space_dependencies.get(&id(n)), Some(&published.hash));
    }
    assert_eq!(node.author_store.authors(&topic), Some(vec![node.public_key()]));
}

#[test]
fn a_chat_operation_is_gossiped_in_its_frame() {
    let mut node = Node::new(key(1), NodeConfig::default());
    let chat = node.create_group();
    let topic = Topic::Chat(chat);
    let payload = Payload::SpaceControl(vec![control(1, true, vec![])]);
    let published = author(&mut node, topic, &payload, b"the body", 1).unwrap();
    let gossip = published.gossip.unwrap();
    assert_eq!(gossip.topic, topic);
    let stored = node.op_store.get_operation(&published.hash).unwrap();
    let (header_bytes, body) = decode_gossip_message(&gossip.bytes).unwrap();
    assert_eq!(header_bytes, stored.header_bytes);
    assert_eq!(body, Some(b"the body".to_vec()));
}

#[test]
fn an_invitation_is_gossiped_only_to_a_friend() {
    let mut node = Node::new(key(1), NodeConfig::default());
    let bob = key(2).public_key();
    let payload = Payload::Invitation(InvitationMessage::Friend);
    let stranger = author(&mut node, Topic::Inbox(bob), &payload, b"invite", 1).unwrap();
    assert!(stranger.stored);
    assert_eq!(stranger.gossip, None);
    node.add_friend(bob);
    let friend = author(&mut node, Topic::Inbox(bob), &payload, b"invite", 2).unwrap();
    assert_eq!(friend.gossip.unwrap().topic, Topic::Inbox(bob));
    assert_eq!(friend.delivery.unwrap().plan, PayloadPlan::Ignored);
}

#[test]
fn publishing_in_a_chat_that_the_node_does_not_keep_fails() {
    let mut node = Node::new(key(1), NodeConfig::default());
    let topic = Topic::Chat(chat_id(9));
    let payload = Payload::Invitation(InvitationMessage::Friend);
    assert_eq!(author(&mut node, topic, &payload, b"x", 1), Err(AuthorError::UnknownChat));
}

#[test]
fn the_node_checks_its_own_operations() {
    let mut node = Node::new(key(1), NodeConfig::default());
    let chat = node.create_group();
    let topic = Topic::Chat(chat);
    let payload = Payload::Invitation(InvitationMessage::Friend);
    let body = b"body".to_vec();
    let mut header = node.author_operation(topic, &payload, &body, 1).unwrap();
    let unsigned = encode(&header);
    header.sign(&key(2), &unsigned);
    let bytes = encode(&header);
    let unsound = node.publish_operation(topic, &payload, header.clone(), bytes, unsigned.clone(), Some(body.clone()));
    assert_eq!(unsound, Err(AuthorError::Ingest(IngestError::SignatureInvalid)));

    header.sign(&key(1), &unsigned);
    let bytes = encode(&header);
    let other_body = node.publish_operation(
        topic,
        &payload,
        header.clone(),
        bytes.clone(),
        unsigned.clone(),
        Some(b"other".to_vec()),
    );
    assert_eq!(other_body, Err(AuthorError::Ingest(IngestError::PayloadHashMismatch)));

    let mut late = header.clone();
    late.seq_num = 5;
    let late_unsigned = encode(&late);
    late.sign(&key(1), &late_unsigned);
    let late_bytes = encode(&late);
    let gap = node.publish_operation(topic, &payload, late, late_bytes, late_unsigned, Some(body.clone()));
    assert_eq!(gap, Err(AuthorError::Ingest(IngestError::LogGap)));
    assert!(node.op_store.logs.is_empty());

    let fine = node.publish_operation(topic, &payload, header, bytes, unsigned, Some(body)).unwrap();
    assert!(fine.stored);
}

#[test]
fn an_operation_with_unmet_dependencies_is_gossiped_but_not_stored() {
    let mut node = Node::new(key(1), NodeConfig::default());
    let chat = node.create_group();
    let topic = Topic::Chat(chat);
    let payload = Payload::Invitation(InvitationMessage::Friend);
    let body = b"body".to_vec();
    let mut header = node
        .author_operation_with_deps(topic, &payload, &body, vec![Digest::new(b"unseen")], 1)
        .unwrap();
    let unsigned = encode(&header);
    header.sign(&key(1), &unsigned);
    let bytes = encode(&header);
    let published = node.publish_operation(topic, &payload, header, bytes, unsigned, Some(body)).unwrap();
    assert!(!published.stored);
    assert_eq!(published.delivery, None);
    assert!(published.gossip.is_some());
    assert!(!node.op_store.has_operation(&published.hash));
}

#[test]
fn a_gossip_frame_is_the_cbor_pair_of_header_and_body() {
    let header = vec![1u8, 2, 3];
    let body = Some(vec![4u8, 5]);
    let frame = encode_gossip_message(&header, &body).unwrap();
    assert_eq!(frame, p2panda_core::cbor::encode_cbor(&(header.clone(), body.clone())).unwrap());
    assert_eq!(frame, vec![0x82, 0x83, 1, 2, 3, 0x82, 4, 5]);
    assert_eq!(decode_gossip_message(&frame), Ok((header.clone(), body)));
    let bare = encode_gossip_message(&header, &None).unwrap();
    assert_eq!(bare, vec![0x82, 0x83, 1, 2, 3, 0xf6]);
    assert_eq!(decode_gossip_message(&bare), Ok((header, None)));
}

#[test]
fn bytes_that_are_no_frame_are_refused() {
    assert_eq!(decode_gossip_message(&[]), Err(CodecError::Decode));
    assert_eq!(decode_gossip_message(&[0x01]), Err(CodecError::Decode));
    assert_eq!(decode_gossip_message(&[0x82, 0x83, 1, 2]), Err(CodecError::Decode));
    assert_eq!(decode_gossip_message(b"not a frame"), Err(CodecError::Decode));
}
