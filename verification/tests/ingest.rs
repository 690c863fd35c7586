use dashchat_node::chat::ChatId;
use dashchat_node::identity::{Digest, PrivateKey, Signature};
use dashchat_node::ingest::{
    ingest, missing_hashes, DependencyBuffer, IngestError, IngestResult, Parked,
};
use dashchat_node::network::Topic;
use dashchat_node::operation::{Extensions, Header, Operation};
use dashchat_node::store::OpStore;

fn key(n: u8) -> PrivateKey {
    PrivateKey::from_bytes(&[n; 32])
}

fn chat(n: u8) -> Topic {
    Topic::Chat(ChatId::new([n; 32]))
}

/// A stand-in for the wire encoding of a header: every field, in order.
fn encode(header: &Header) -> Vec<u8> {
    let mut out = Vec::new();
    out.extend_from_slice(&header.version.to_be_bytes());
    out.extend_from_slice(header.public_key.as_bytes());
    if let Some(signature) = &header.signature {
        out.push(1);
        out.extend_from_slice(&signature.0);
    } else {
        out.push(0);
    }
    out.extend_from_slice(&header.payload_size.to_be_bytes());
    if let Some(hash) = &header.payload_hash {
        out.push(1);
        out.extend_from_slice(hash.as_bytes());
    } else {
        out.push(0);
    }
    out.extend_from_slice(&header.timestamp.to_be_bytes());
    out.extend_from_slice(&header.seq_num.to_be_bytes());
    if let Some(hash) = &header.backlink {
        out.push(1);
        out.extend_from_slice(hash.as_bytes());
    } else {
        out.push(0);
    }
    for hash in &header.previous {
        out.extend_from_slice(hash.as_bytes());
    }
    if let Some(extensions) = &header.extensions {
        out.extend_from_slice(&extensions.log_id.id());
    }
    out
}

struct Signed {
    header: Header,
    bytes: Vec<u8>,
    unsigned: Vec<u8>,
    body: Option<Vec<u8>>,
    hash: Digest,
}

fn operation(
    key: &PrivateKey,
    topic: Topic,
    seq_num: u64,
    backlink: Option<Digest>,
    previous: Vec<Digest>,
    body: Option<&[u8]>,
) -> Signed {
    let mut header = Header {
        version: 1,
        public_key: key.public_key(),
        signature: None,
        payload_size: body.map_or(0, |b| b.len() as u64),
        payload_hash: body.map(Digest::new),
        timestamp: 1000 + seq_num,
        seq_num,
        backlink,
        previous,
        extensions: Some(Extensions { log_id: topic }),
    };
    let unsigned = encode(&header);
    header.sign(key, &unsigned);
    let bytes = encode(&header);
    let hash = Digest::new(&bytes);
    Signed { header, bytes, unsigned, body: body.map(|b| b.to_vec()), hash }
}

fn take(store: &mut OpStore, op: &Signed, topic: &Topic) -> Result<IngestResult, IngestError> {
    ingest(
        store,
        op.header.clone(),
        op.bytes.clone(),
        op.unsigned.clone(),
        op.body.clone(),
        topic,
    )
}

#[test]
fn ingest_stores_the_first_operation_of_a_log() {
    let mut store = OpStore::new();
    let alice = key(1);
    let topic = chat(9);
    let op = operation(&alice, topic, 0, None, vec![], Some(b"hello"));
    let result = take(&mut store, &op, &topic);
    assert_eq!(result, Ok(IngestResult::Complete { hash: op.hash, duplicate: false }));
    assert!(store.has_operation(&op.hash));
    let latest = store.latest_operation(&alice.public_key(), &topic).unwrap();
    assert_eq!(latest.hash, op.hash);
    assert_eq!(latest.header, op.header);
    assert_eq!(latest.body, Some(b"hello".to_vec()));
    assert_eq!(store.get_log_heights(&topic), vec![(alice.public_key(), 0)]);
}

#[test]
fn a_produced_log_has_integrity() {
    let mut store = OpStore::new();
    let alice = key(1);
    let topic = chat(9);
    let mut backlink = None;
    for seq_num in 0..4 {
        let op = operation(&alice, topic, seq_num, backlink, vec![], Some(&[seq_num as u8]));
        assert_eq!(
            take(&mut store, &op, &topic),
            Ok(IngestResult::Complete { hash: op.hash, duplicate: false })
        );
        backlink = Some(op.hash);
    }
    let log = store.get_log(&alice.public_key(), &topic, None).unwrap();
    assert_eq!(log.len(), 4);
    for (index, entry) in log.iter().enumerate() {
        assert_eq!(entry.header.seq_num, index as u64);
        if index == 0 {
            assert_eq!(entry.header.backlink, None);
        } else {
            assert_eq!(entry.header.backlink, Some(log[index - 1].hash));
        }
        assert!(entry.verify());
        let theirs = p2panda_core::PublicKey::from_bytes(entry.header.public_key.as_bytes()).unwrap();
        let signature = p2panda_core::Signature::from_bytes(&entry.header.signature.unwrap().0);
        assert!(theirs.verify(&entry.unsigned_bytes, &signature));
        assert_eq!(entry.hash, Digest::new(&entry.header_bytes));
    }
    assert_eq!(store.get_log_heights(&topic), vec![(alice.public_key(), 3)]);
}

#[test]
fn get_log_starts_where_it_is_asked_to() {
    let mut store = OpStore::new();
    let alice = key(1);
    let topic = chat(9);
    let first = operation(&alice, topic, 0, None, vec![], None);
    let second = operation(&alice, topic, 1, Some(first.hash), vec![], None);
    let third = operation(&alice, topic, 2, Some(second.hash), vec![], None);
    for op in [&first, &second, &third] {
        take(&mut store, op, &topic).unwrap();
    }
    let pk = alice.public_key();
    let hashes = |from: Option<u64>| -> Vec<Digest> {
        store.get_log(&pk, &topic, from).unwrap().iter().map(|op| op.hash).collect()
    };
    assert_eq!(hashes(None), vec![first.hash, second.hash, third.hash]);
    assert_eq!(hashes(Some(0)), vec![first.hash, second.hash, third.hash]);
    assert_eq!(hashes(Some(1)), vec![second.hash, third.hash]);
    assert_eq!(hashes(Some(3)), vec![]);
    assert_eq!(hashes(Some(100)), vec![]);
    assert!(store.get_log(&pk, &chat(8), None).is_none());
    assert!(store.get_log(&key(2).public_key(), &topic, None).is_none());
    assert!(store.latest_operation(&pk, &chat(8)).is_none());
}

#[test]
fn logs_of_different_authors_and_topics_are_apart() {
    let mut store = OpStore::new();
    let alice = key(1);
    let bob = key(2);
    let a0 = operation(&alice, chat(9), 0, None, vec![], Some(b"a0"));
    let b0 = operation(&bob, chat(9), 0, None, vec![], Some(b"b0"));
    let a_other = operation(&alice, chat(8), 0, None, vec![], Some(b"x"));
    take(&mut store, &b0, &chat(9)).unwrap();
    take(&mut store, &a0, &chat(9)).unwrap();
    take(&mut store, &a_other, &chat(8)).unwrap();
    let mut heights = store.get_log_heights(&chat(9));
    heights.sort_by_key(|(pk, _)| *pk.as_bytes());
    let mut expected = vec![(alice.public_key(), 0), (bob.public_key(), 0)];
    expected.sort_by_key(|(pk, _)| *pk.as_bytes());
    assert_eq!(heights, expected);
    assert_eq!(store.get_log_heights(&chat(8)), vec![(alice.public_key(), 0)]);
    assert_eq!(store.get_log_heights(&chat(7)), vec![]);
    assert_eq!(store.get_operation(&b0.hash).unwrap().body, Some(b"b0".to_vec()));
    assert!(store.get_operation(&Digest::new(b"nothing")).is_none());
}

#[test]
fn ingest_rejects_a_signature_that_does_not_verify() {
    let mut store = OpStore::new();
    let alice = key(1);
    let topic = chat(9);
    let mut op = operation(&alice, topic, 0, None, vec![], None);
    op.unsigned.push(0);
    assert_eq!(take(&mut store, &op, &topic), Err(IngestError::SignatureInvalid));
    assert!(!store.has_operation(&op.hash));

    let mut forged = operation(&alice, topic, 0, None, vec![], None);
    forged.header.public_key = key(2).public_key();
    assert_eq!(take(&mut store, &forged, &topic), Err(IngestError::SignatureInvalid));

    let mut unsigned = operation(&alice, topic, 0, None, vec![], None);
    unsigned.header.signature = None;
    assert_eq!(take(&mut store, &unsigned, &topic), Err(IngestError::SignatureInvalid));

    let mut garbled = operation(&alice, topic, 0, None, vec![], None);
    garbled.header.signature = Some(Signature([7; 64]));
    assert_eq!(take(&mut store, &garbled, &topic), Err(IngestError::SignatureInvalid));
    assert!(store.logs.is_empty());
}

#[test]
fn ingest_rejects_a_key_that_is_no_key() {
    let bad = (0..=255u8)
        .map(|i| [i; 32])
        .find(|bytes| p2panda_core::PublicKey::from_bytes(bytes).is_err())
        .unwrap();
    let mut store = OpStore::new();
    let topic = chat(9);
    let mut op = operation(&key(1), topic, 0, None, vec![], None);
    op.header.public_key = dashchat_node::identity::PK(bad);
    assert_eq!(take(&mut store, &op, &topic), Err(IngestError::SignatureInvalid));
}

#[test]
fn ingest_rejects_a_body_that_the_header_does_not_state() {
    let mut store = OpStore::new();
    let alice = key(1);
    let topic = chat(9);
    let mut op = operation(&alice, topic, 0, None, vec![], Some(b"hello"));
    op.body = Some(b"hullo".to_vec());
    assert_eq!(take(&mut store, &op, &topic), Err(IngestError::PayloadHashMismatch));

    let mut header = Header {
        version: 1,
        public_key: alice.public_key(),
        signature: None,
        payload_size: 4,
        payload_hash: Some(Digest::new(b"hello")),
        timestamp: 1,
        seq_num: 0,
        backlink: None,
        previous: vec![],
        extensions: Some(Extensions { log_id: topic }),
    };
    let unsigned = encode(&header);
    header.sign(&alice, &unsigned);
    let bytes = encode(&header);
    let wrong_size = ingest(&mut store, header, bytes, unsigned, Some(b"hello".to_vec()), &topic);
    assert_eq!(wrong_size, Err(IngestError::PayloadHashMismatch));

    let mut bare = operation(&alice, topic, 0, None, vec![], None);
    bare.body = Some(b"hello".to_vec());
    assert_eq!(take(&mut store, &bare, &topic), Err(IngestError::PayloadHashMismatch));
    assert!(store.logs.is_empty());
}

#[test]
fn an_operation_without_its_body_is_accepted() {
    let mut store = OpStore::new();
    let alice = key(1);
    let topic = chat(9);
    let mut op = operation(&alice, topic, 0, None, vec![], Some(b"hello"));
    op.body = None;
    assert_eq!(
        take(&mut store, &op, &topic),
        Ok(IngestResult::Complete { hash: op.hash, duplicate: false })
    );
}

#[test]
fn ingest_rejects_a_gap_in_the_log() {
    let mut store = OpStore::new();
    let alice = key(1);
    let topic = chat(9);
    let first = operation(&alice, topic, 0, None, vec![], None);
    let second = operation(&alice, topic, 1, Some(first.hash), vec![], None);
    let third = operation(&alice, topic, 2, Some(second.hash), vec![], None);

    assert_eq!(take(&mut store, &second, &topic), Err(IngestError::LogGap));
    let linked_first = operation(&alice, topic, 0, Some(first.hash), vec![], None);
    assert_eq!(take(&mut store, &linked_first, &topic), Err(IngestError::LogGap));

    take(&mut store, &first, &topic).unwrap();
    assert_eq!(take(&mut store, &third, &topic), Err(IngestError::LogGap));
    let unlinked = operation(&alice, topic, 1, None, vec![], None);
    assert_eq!(take(&mut store, &unlinked, &topic), Err(IngestError::LogGap));
    let mislinked = operation(&alice, topic, 1, Some(Digest::new(b"other")), vec![], None);
    assert_eq!(take(&mut store, &mislinked, &topic), Err(IngestError::LogGap));
    let again = operation(&alice, topic, 0, None, vec![], Some(b"another first"));
    assert_eq!(take(&mut store, &again, &topic), Err(IngestError::LogGap));

    assert_eq!(
        take(&mut store, &second, &topic),
        Ok(IngestResult::Complete { hash: second.hash, duplicate: false })
    );
    assert_eq!(store.get_log_heights(&topic), vec![(alice.public_key(), 1)]);
}

#[test]
fn a_duplicate_is_complete_and_changes_nothing() {
    let mut store = OpStore::new();
    let alice = key(1);
    let topic = chat(9);
    let op = operation(&alice, topic, 0, None, vec![], Some(b"once"));
    take(&mut store, &op, &topic).unwrap();
    assert_eq!(
        take(&mut store, &op, &topic),
        Ok(IngestResult::Complete { hash: op.hash, duplicate: true })
    );
    assert_eq!(store.get_log(&alice.public_key(), &topic, None).unwrap().len(), 1);
}

#[test]
fn an_operation_waits_for_what_it_depends_on() {
    let mut store = OpStore::new();
    let alice = key(1);
    let bob = key(2);
    let topic = chat(9);
    let a0 = operation(&alice, topic, 0, None, vec![], None);
    let unknown = Digest::new(b"never seen");
    let b0 = operation(&bob, topic, 0, None, vec![unknown, a0.hash, a0.hash], None);

    match take(&mut store, &b0, &topic) {
        Ok(IngestResult::Retry { operation, missing }) => {
            assert_eq!(operation.hash, b0.hash);
            assert_eq!(operation.header, b0.header);
            assert_eq!(missing, vec![unknown, a0.hash, a0.hash]);
        }
        other => panic!("{other:?}"),
    }
    assert!(!store.has_operation(&b0.hash));

    take(&mut store, &a0, &topic).unwrap();
    assert_eq!(
        missing_hashes(&store, &b0.header.previous),
        vec![unknown]
    );
    match take(&mut store, &b0, &topic) {
        Ok(IngestResult::Retry { missing, .. }) => assert_eq!(missing, vec![unknown]),
        other => panic!("{other:?}"),
    }

    let b_ok = operation(&bob, topic, 0, None, vec![a0.hash], None);
    assert_eq!(
        take(&mut store, &b_ok, &topic),
        Ok(IngestResult::Complete { hash: b_ok.hash, duplicate: false })
    );
    assert_eq!(missing_hashes(&store, &b_ok.header.previous), vec![]);
}

fn parked(n: u8, missing: Vec<Digest>) -> Parked {
    let op = operation(&key(n), chat(9), 0, None, missing.clone(), None);
    Parked {
        operation: Operation::new(op.header, op.bytes, op.unsigned, op.body),
        topic: chat(9),
        missing,
    }
}

#[test]
fn the_buffer_hands_out_what_waited_for_a_hash() {
    let x = Digest::new(b"x");
    let y = Digest::new(b"y");
    let mut buffer = DependencyBuffer::new(8);
    assert_eq!(buffer.len(), 0);
    let first = parked(1, vec![x]);
    let second = parked(2, vec![y]);
    let third = parked(3, vec![y, x]);
    let hashes = [first.operation.hash, second.operation.hash, third.operation.hash];
    assert!(buffer.park(first).is_none());
    assert!(buffer.park(second).is_none());
    assert!(buffer.park(third).is_none());
    assert_eq!(buffer.len(), 3);

    let ready = buffer.take_awaiting(&x);
    let ready: Vec<Digest> = ready.iter().map(|p| p.operation.hash).collect();
    assert_eq!(ready, vec![hashes[0], hashes[2]]);
    assert_eq!(buffer.len(), 1);
    assert_eq!(buffer.parked[0].operation.hash, hashes[1]);
    assert!(buffer.take_awaiting(&x).is_empty());
    assert_eq!(buffer.take_awaiting(&y).len(), 1);
    assert_eq!(buffer.len(), 0);
}

#[test]
fn a_full_buffer_drops_its_oldest_entry() {
    let x = Digest::new(b"x");
    let mut buffer = DependencyBuffer::new(2);
    let entries = [parked(1, vec![x]), parked(2, vec![x]), parked(3, vec![x])];
    let hashes: Vec<Digest> = entries.iter().map(|p| p.operation.hash).collect();
    let [first, second, third] = entries;
    assert!(buffer.park(first).is_none());
    assert!(buffer.park(second).is_none());
    let dropped = buffer.park(third).unwrap();
    assert_eq!(dropped.operation.hash, hashes[0]);
    assert_eq!(buffer.len(), 2);
    let left: Vec<Digest> = buffer.parked.iter().map(|p| p.operation.hash).collect();
    assert_eq!(left, vec![hashes[1], hashes[2]]);
}

#[test]
fn a_buffer_without_capacity_keeps_nothing() {
    let mut buffer = DependencyBuffer::new(0);
    let entry = parked(1, vec![Digest::new(b"x")]);
    let hash = entry.operation.hash;
    assert_eq!(buffer.park(entry).unwrap().operation.hash, hash);
    assert_eq!(buffer.len(), 0);
}
