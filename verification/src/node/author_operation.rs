//! Authoring: how the node builds the header of an operation of its own,
//! and what it does once the operation is signed.

use vstd::prelude::*;

use crate::collections::{extend_copy, list_contains, VecMap};
use crate::crypto::{blake3_digest, ed25519_public};
use crate::identity::{Digest, PrivateKey, PK};
use crate::ingest::{
    continues, ingest_operation, outcome, verdict, IngestError, IngestResult, Verdict,
};
use crate::network::Topic;
use crate::node::stream_processing::{operation_outcome, recorded, Delivery};
use crate::node::Node;
use crate::operation::{
    encode_gossip_message, gossip_frame, option_bytes, Extensions, Header, Operation, Payload,
};
use crate::spaces::{OperationId, SpaceControlMessage};
use crate::store::{extends, OpStore};

verus! {

/// Why an operation could not be authored.
#[derive(Clone, Copy, Debug, PartialEq, Eq)]
pub enum AuthorError {
    /// A control message depends on a message that is neither part of its
    /// batch nor known to the node: the node's record of the space is
    /// broken.
    MissingSpaceDependency(OperationId),
    /// The node's own checks reject the operation.
    Ingest(IngestError),
    /// The operation belongs to a chat that the node does not keep.
    UnknownChat,
    /// The gossip frame could not be encoded.
    Encode,
}

/// The identifiers of the messages of a batch.
pub open spec fn batch_ids(msgs: Seq<SpaceControlMessage>) -> Seq<OperationId> {
    msgs.map_values(|m: SpaceControlMessage| m.id_spec())
}

/// The dependencies of the messages of a batch, message by message.
pub open spec fn batch_dependencies(msgs: Seq<SpaceControlMessage>) -> Seq<OperationId>
    decreases msgs.len(),
{
    if msgs.len() == 0 {
        Seq::empty()
    } else {
        batch_dependencies(msgs.drop_last()) + msgs.last().spaces_args.dependencies_spec()
    }
}

/// The dependencies of a batch on messages outside it: those within the
/// batch are met by the batch itself.
pub open spec fn outside_dependencies(msgs: Seq<SpaceControlMessage>) -> Seq<OperationId> {
    batch_dependencies(msgs).filter(|d: OperationId| !batch_ids(msgs).contains(d))
}

/// The control messages of a payload: none for an invitation.
pub open spec fn payload_messages(payload: Payload) -> Seq<SpaceControlMessage> {
    match payload {
        Payload::SpaceControl(msgs) => msgs@,
        Payload::Invitation(_) => Seq::empty(),
    }
}

/// Whether the node knows, for each of the messages, the operation that
/// carried it.
pub open spec fn all_known(needed: Seq<OperationId>, known: Map<OperationId, Digest>) -> bool {
    forall|i: int| 0 <= i < needed.len() ==> known.contains_key(#[trigger] needed[i])
}

/// The hashes of the operations that carried the messages, each once, in
/// the order in which they are first needed.
pub open spec fn carriers(needed: Seq<OperationId>, known: Map<OperationId, Digest>) -> Seq<Digest>
    decreases needed.len(),
{
    if needed.len() == 0 {
        Seq::empty()
    } else {
        let rest = carriers(needed.drop_last(), known);
        let hash = known[needed.last()];
        if rest.contains(hash) {
            rest
        } else {
            rest.push(hash)
        }
    }
}

/// Whether `dep` is the first message that a batch depends on from outside
/// and that the node does not know.
pub open spec fn first_unknown(
    msgs: Seq<SpaceControlMessage>,
    known: Map<OperationId, Digest>,
    dep: OperationId,
) -> bool {
    exists|j: int|
        {
            &&& 0 <= j < batch_dependencies(msgs).len()
            &&& #[trigger] batch_dependencies(msgs)[j] == dep
            &&& !batch_ids(msgs).contains(dep)
            &&& !known.contains_key(dep)
            &&& all_known(
                batch_dependencies(msgs).take(j).filter(
                    |d: OperationId| !batch_ids(msgs).contains(d),
                ),
                known,
            )
        }
}

/// Mirroring: the operation that carried a needed message is among the
/// carriers, so that a header that names the carriers in `previous` cannot
/// be stored before the operations that brought what its messages depend
/// on.
pub proof fn lemma_carriers_cover(needed: Seq<OperationId>, known: Map<OperationId, Digest>, i: int)
    requires
        0 <= i < needed.len(),
    ensures
        carriers(needed, known).contains(known[needed[i]]),
    decreases needed.len(),
{
    let rest = carriers(needed.drop_last(), known);
    let hash = known[needed.last()];
    if i < needed.len() - 1 {
        lemma_carriers_cover(needed.drop_last(), known, i);
        assert(needed.drop_last()[i] == needed[i]);
        let at = choose|at: int| 0 <= at < rest.len() && rest[at] == known[needed[i]];
        if !rest.contains(hash) {
            assert(rest.push(hash)[at] == known[needed[i]]);
        }
    } else {
        if !rest.contains(hash) {
            assert(rest.push(hash)[rest.len() as int] == hash);
        }
    }
}

/// The identifiers of the messages of a batch.
pub fn message_ids(msgs: &Vec<SpaceControlMessage>) -> (ids: Vec<OperationId>)
    ensures
        ids@ == batch_ids(msgs@),
{
    let mut ids: Vec<OperationId> = Vec::new();
    let mut i: usize = 0;
    while i < msgs.len()
        invariant
            i <= msgs@.len(),
            ids@.len() == i,
            forall|j: int| 0 <= j < i ==> ids@[j] == (#[trigger] msgs@[j]).id_spec(),
        decreases msgs@.len() - i,
    {
        ids.push(msgs[i].id());
        i += 1;
    }
    assert(ids@ =~= batch_ids(msgs@));
    ids
}

/// The dependencies of the messages of a batch, message by message.
fn collect_dependencies(msgs: &Vec<SpaceControlMessage>) -> (all: Vec<OperationId>)
    ensures
        all@ == batch_dependencies(msgs@),
{
    let mut all: Vec<OperationId> = Vec::new();
    let mut i: usize = 0;
    assert(msgs@.take(0) =~= Seq::<SpaceControlMessage>::empty());
    while i < msgs.len()
        invariant
            i <= msgs@.len(),
            all@ == batch_dependencies(msgs@.take(i as int)),
        decreases msgs@.len() - i,
    {
        let deps = msgs[i].dependencies();
        extend_copy(&mut all, &deps);
        proof {
            let next = msgs@.take(i + 1);
            assert(next.drop_last() =~= msgs@.take(i as int));
            assert(next.last() == msgs@[i as int]);
        }
        i += 1;
    }
    assert(msgs@.take(msgs@.len() as int) =~= msgs@);
    all
}

/// For a batch of control messages, the hashes of the operations that
/// carried the messages it depends on from outside the batch, each once.
/// Where the node does not know such a message, the first one comes back
/// as the error.
pub fn space_dependency_hashes(
    msgs: &Vec<SpaceControlMessage>,
    known: &VecMap<OperationId, Digest>,
) -> (r: Result<Vec<Digest>, OperationId>)
    requires
        known.wf(),
    ensures
        r is Ok <==> all_known(outside_dependencies(msgs@), known@),
        r matches Ok(hashes) ==> hashes@ == carriers(outside_dependencies(msgs@), known@),
        r matches Err(dep) ==> first_unknown(msgs@, known@, dep),
{
    let ids = message_ids(msgs);
    let all = collect_dependencies(msgs);
    let ghost outside = |d: OperationId| !batch_ids(msgs@).contains(d);
    let mut out: Vec<Digest> = Vec::new();
    let mut j: usize = 0;
    proof {
        reveal(Seq::filter);
        assert(all@.take(0) =~= Seq::<OperationId>::empty());
    }
    while j < all.len()
        invariant
            known.wf(),
            j <= all@.len(),
            ids@ == batch_ids(msgs@),
            all@ == batch_dependencies(msgs@),
            outside == |d: OperationId| !batch_ids(msgs@).contains(d),
            all_known(all@.take(j as int).filter(outside), known@),
            out@ == carriers(all@.take(j as int).filter(outside), known@),
        decreases all@.len() - j,
    {
        let dep = all[j];
        let ghost prefix = all@.take(j as int);
        proof {
            assert(all@.take(j + 1) =~= prefix.push(dep));
            Seq::lemma_filter_push(prefix, dep, outside);
        }
        if !list_contains(&ids, &dep) {
            let ghost needed = prefix.filter(outside).push(dep);
            proof {
                assert(needed.drop_last() =~= prefix.filter(outside));
                assert(needed.last() == dep);
            }
            match known.get(&dep) {
                Some(hash) => {
                    if !list_contains(&out, hash) {
                        out.push(*hash);
                    }
                    proof {
                        assert forall|i: int| 0 <= i < needed.len() implies known@.contains_key(
                            #[trigger] needed[i],
                        ) by {
                            if i < needed.len() - 1 {
                                assert(needed[i] == prefix.filter(outside)[i]);
                            }
                        }
                    }
                },
                None => {
                    proof {
                        all@.lemma_filter_contains(outside, j as int);
                        let full = all@.filter(outside);
                        assert(full.contains(dep));
                        let at = choose|at: int| 0 <= at < full.len() && full[at] == dep;
                        assert(!known@.contains_key(full[at]));
                        assert(batch_dependencies(msgs@)[j as int] == dep);
                    }
                    return Err(dep);
                },
            }
        }
        j += 1;
    }
    assert(all@.take(all@.len() as int) =~= all@);
    Ok(out)
}

/// Where the next operation of an author in a topic stands: its sequence
/// number is the length of the author's log, and its backlink the hash of
/// the last operation of that log, if there is one.
pub fn next_position(store: &OpStore, public_key: &PK, topic: &Topic) -> (r: (u64, Option<Digest>))
    requires
        store.wf(),
    ensures
        r.0 == store.log_of(*public_key, *topic).len(),
        store.log_of(*public_key, *topic).len() == 0 ==> r.1 is None,
        store.log_of(*public_key, *topic).len() > 0 ==> r.1 == Some(
            store.log_of(*public_key, *topic).last().hash,
        ),
{
    let ghost log = store.log_of(*public_key, *topic);
    match store.latest_operation(public_key, topic) {
        Some(latest) => {
            proof {
                store.lemma_log_integrity(*public_key, *topic, log.len() - 1);
            }
            (latest.header.seq_num + 1, Some(latest.hash))
        },
        None => (0, None),
    }
}

/// The header of the next operation of the local actor in a topic, not yet
/// signed: it continues the actor's log in the store, states the hash and
/// the length of the body, and names `deps` as the operations it depends
/// on.
pub fn create_operation(
    store: &OpStore,
    private_key: &PrivateKey,
    topic: Topic,
    body: &Vec<u8>,
    deps: Vec<Digest>,
    timestamp: u64,
) -> (header: Header)
    requires
        store.wf(),
    ensures
        header.version == 1,
        header.public_key@ == ed25519_public(private_key@),
        header.signature is None,
        header.payload_size == body@.len(),
        header.payload_hash matches Some(hash) && hash@ == blake3_digest(body@),
        header.timestamp == timestamp,
        continues(store.log_of(header.public_key, topic), header),
        header.previous == deps,
        header.extensions == Some(Extensions { log_id: topic }),
{
    let public_key = private_key.public_key();
    let (seq_num, backlink) = next_position(store, &public_key, &topic);
    Header {
        version: 1,
        public_key,
        signature: None,
        payload_size: body.len() as u64,
        payload_hash: Some(Digest::new(body.as_slice())),
        timestamp,
        seq_num,
        backlink,
        previous: deps,
        extensions: Some(Extensions { log_id: topic }),
    }
}

impl Node {
    /// The header of the operation with which the node publishes a payload
    /// in a topic, not yet signed. `body` is the encoding of the payload.
    ///
    /// Besides `deps`, the operation depends on the operations that carried
    /// the control messages which the payload's messages depend on from
    /// outside the payload. Where the node has not seen such a message, no
    /// header is built.
    pub fn author_operation_with_deps(
        &self,
        topic: Topic,
        payload: &Payload,
        body: &Vec<u8>,
        deps: Vec<Digest>,
        timestamp: u64,
    ) -> (r: Result<Header, AuthorError>)
        requires
            self.wf(),
        ensures
            r is Ok <==> all_known(
                outside_dependencies(payload_messages(*payload)),
                self.space_dependencies@,
            ),
            r matches Ok(header) ==> {
                &&& header.previous@ == deps@ + carriers(
                    outside_dependencies(payload_messages(*payload)),
                    self.space_dependencies@,
                )
                &&& header.version == 1
                &&& header.public_key@ == self.public_key@
                &&& header.signature is None
                &&& header.payload_size == body@.len()
                &&& header.payload_hash matches Some(hash) && hash@ == blake3_digest(body@)
                &&& header.timestamp == timestamp
                &&& continues(self.op_store.log_of(header.public_key, topic), header)
                &&& header.extensions == Some(Extensions { log_id: topic })
            },
            r matches Err(e) ==> (e matches AuthorError::MissingSpaceDependency(dep)
                && first_unknown(payload_messages(*payload), self.space_dependencies@, dep)),
    {
        let mut deps = deps;
        match payload {
            Payload::SpaceControl(msgs) => {
                match space_dependency_hashes(msgs, &self.space_dependencies) {
                    Ok(space_deps) => {
                        extend_copy(&mut deps, &space_deps);
                    },
                    Err(dep) => {
                        return Err(AuthorError::MissingSpaceDependency(dep));
                    },
                }
            },
            Payload::Invitation(_) => {
                proof {
                    let none = Seq::<SpaceControlMessage>::empty();
                    reveal(Seq::filter);
                    assert(batch_dependencies(none) =~= Seq::<OperationId>::empty());
                    assert(outside_dependencies(none) =~= Seq::<OperationId>::empty());
                    assert(deps@ + Seq::<Digest>::empty() =~= deps@);
                }
            },
        }
        Ok(create_operation(&self.op_store, &self.private_key, topic, body, deps, timestamp))
    }

    /// The header of the operation with which the node publishes a payload
    /// in a topic, with no dependencies but those of the payload itself.
    pub fn author_operation(&self, topic: Topic, payload: &Payload, body: &Vec<u8>, timestamp: u64) -> (r:
        Result<Header, AuthorError>)
        requires
            self.wf(),
        ensures
            r is Ok <==> all_known(
                outside_dependencies(payload_messages(*payload)),
                self.space_dependencies@,
            ),
            r matches Ok(header) ==> {
                &&& header.previous@ == carriers(
                    outside_dependencies(payload_messages(*payload)),
                    self.space_dependencies@,
                )
                &&& header.version == 1
                &&& header.public_key@ == self.public_key@
                &&& header.signature is None
                &&& header.payload_size == body@.len()
                &&& header.payload_hash matches Some(hash) && hash@ == blake3_digest(body@)
                &&& header.timestamp == timestamp
                &&& continues(self.op_store.log_of(header.public_key, topic), header)
                &&& header.extensions == Some(Extensions { log_id: topic })
            },
            r matches Err(e) ==> (e matches AuthorError::MissingSpaceDependency(dep)
                && first_unknown(payload_messages(*payload), self.space_dependencies@, dep)),
    {
        let deps: Vec<Digest> = Vec::new();
        let r = self.author_operation_with_deps(topic, payload, body, deps, timestamp);
        proof {
            assert(Seq::<Digest>::empty() + carriers(
                outside_dependencies(payload_messages(*payload)),
                self.space_dependencies@,
            ) =~= carriers(
                outside_dependencies(payload_messages(*payload)),
                self.space_dependencies@,
            ));
        }
        r
    }

    /// Publishes an operation of the node's own, once it is signed and
    /// encoded: `header_bytes` is the encoding of the signed header and
    /// `unsigned_bytes` that of the header without its signature.
    ///
    /// The node records which control messages the operation carries, puts
    /// the operation through the same checks as any other, stores and
    /// processes it, and hands back the gossip frame for the topic: for a
    /// chat always, for an inbox where its owner is a friend. An operation
    /// that the checks reject is not published.
    pub fn publish_operation(
        &mut self,
        topic: Topic,
        payload: &Payload,
        header: Header,
        header_bytes: Vec<u8>,
        unsigned_bytes: Vec<u8>,
        body: Option<Vec<u8>>,
    ) -> (r: Result<Published, AuthorError>)
        requires
            old(self).wf(),
        ensures
            final(self).wf(),
            extends(old(self).op_store, final(self).op_store),
            exists|operation: Operation, noted: Node, kept: Node|
                {
                    &&& operation.header == header
                    &&& operation.header_bytes == header_bytes
                    &&& operation.unsigned_bytes == unsigned_bytes
                    &&& operation.body == body
                    &&& operation.hash_ok()
                    &&& #[trigger] published(
                        *old(self),
                        noted,
                        kept,
                        *final(self),
                        operation,
                        topic,
                        payload,
                        r,
                    )
                },
    {
        let operation = Operation::new(header, header_bytes, unsigned_bytes, body);
        let ghost op = operation;
        let ghost before = *self;
        let hash = operation.hash;
        let author = operation.header.public_key;
        let timestamp = operation.header.timestamp;
        let frame = encode_gossip_message(&operation.header_bytes, &operation.body);
        match (topic, payload) {
            (Topic::Chat(_), Payload::SpaceControl(msgs)) => {
                self.record_space_dependencies(msgs, hash);
            },
            _ => {},
        }
        let ghost noted = *self;
        let (stored, fresh) = match ingest_operation(&mut self.op_store, operation, &topic) {
            Ok(IngestResult::Complete { duplicate, .. }) => (true, !duplicate),
            Ok(IngestResult::Retry { .. }) => (false, false),
            Err(e) => {
                proof {
                    let failed = Err::<Published, AuthorError>(AuthorError::Ingest(e));
                    assert(published(before, noted, noted, *self, op, topic, payload, failed));
                }
                return Err(AuthorError::Ingest(e));
            },
        };
        let ghost kept = *self;
        let delivery = if fresh {
            match self.process_operation(topic, &hash, Ok(Some(payload)), true) {
                Ok(delivery) => Some(delivery),
                Err(_) => None,
            }
        } else {
            None
        };
        let sends = match topic {
            Topic::Chat(chat_id) => {
                if !self.chats.contains_key(&chat_id) {
                    proof {
                        let failed = Err::<Published, AuthorError>(AuthorError::UnknownChat);
                        assert(published(before, noted, kept, *self, op, topic, payload, failed));
                    }
                    return Err(AuthorError::UnknownChat);
                }
                true
            },
            Topic::Inbox(owner) => self.friends.contains(&owner),
        };
        let gossip = if sends {
            match frame {
                Ok(bytes) => Some(GossipMessage { topic, bytes }),
                Err(_) => {
                    proof {
                        let failed = Err::<Published, AuthorError>(AuthorError::Encode);
                        assert(published(before, noted, kept, *self, op, topic, payload, failed));
                    }
                    return Err(AuthorError::Encode);
                },
            }
        } else {
            None
        };
        let r = Ok(Published { hash, author, timestamp, stored, delivery, gossip });
        proof {
            assert(published(before, noted, kept, *self, op, topic, payload, r));
        }
        r
    }
}

/// A gossip frame and the topic in which it is to be sent.
#[derive(Clone, Debug, PartialEq, Eq)]
pub struct GossipMessage {
    pub topic: Topic,
    pub bytes: Vec<u8>,
}

/// What became of an operation that the node published.
#[derive(Debug, PartialEq, Eq)]
pub struct Published {
    /// The hash of the operation.
    pub hash: Digest,
    /// The author of the operation: the local actor.
    pub author: PK,
    /// The time in the header of the operation.
    pub timestamp: u64,
    /// Whether the store holds the operation. It does not where the
    /// operation depends on operations that the store does not hold.
    pub stored: bool,
    /// What follows from the operation, where it was stored just now.
    pub delivery: Option<Delivery>,
    /// The frame to gossip, if there is a channel for the topic.
    pub gossip: Option<GossipMessage>,
}

/// Whether an operation in the topic is gossiped: in a chat that the node
/// keeps, or in the inbox of a friend. `None` where the topic is a chat
/// that the node does not keep.
pub open spec fn gossips(node: Node, topic: Topic) -> Option<bool> {
    match topic {
        Topic::Chat(chat_id) => if node.chats@.contains_key(chat_id) {
            Some(true)
        } else {
            None
        },
        Topic::Inbox(owner) => Some(node.friends@.contains(owner)),
    }
}

/// How the states of the node and the result stand to an operation that
/// the node publishes: `noted` is the state once the control messages are
/// recorded, `kept` the state once the operation has been through ingest,
/// `after` the state at the end.
pub open spec fn published(
    before: Node,
    noted: Node,
    kept: Node,
    after: Node,
    operation: Operation,
    topic: Topic,
    payload: &Payload,
    r: Result<Published, AuthorError>,
) -> bool {
    let ingested = verdict(before.op_store, operation, topic);
    &&& noted.op_store == before.op_store
    &&& noted.chats == before.chats
    &&& noted.author_store == before.author_store
    &&& noted.friends == before.friends
    &&& noted.buffer == before.buffer
    &&& noted.public_key == before.public_key
    &&& noted.private_key == before.private_key
    &&& noted.space_dependencies@ == match (topic, payload) {
        (Topic::Chat(_), Payload::SpaceControl(msgs)) => recorded(
            before.space_dependencies@,
            batch_ids(msgs@),
            operation.hash,
        ),
        _ => before.space_dependencies@,
    }
    &&& match ingested {
        Verdict::SignatureInvalid => after == noted && r == Err::<Published, AuthorError>(
            AuthorError::Ingest(IngestError::SignatureInvalid),
        ),
        Verdict::PayloadHashMismatch => after == noted && r == Err::<Published, AuthorError>(
            AuthorError::Ingest(IngestError::PayloadHashMismatch),
        ),
        Verdict::LogGap => after == noted && r == Err::<Published, AuthorError>(
            AuthorError::Ingest(IngestError::LogGap),
        ),
        _ => {
            &&& kept.chats == noted.chats
            &&& kept.author_store == noted.author_store
            &&& kept.friends == noted.friends
            &&& kept.buffer == noted.buffer
            &&& kept.public_key == noted.public_key
            &&& kept.private_key == noted.private_key
            &&& kept.space_dependencies == noted.space_dependencies
            &&& ingested is Insert ==> outcome(
                before.op_store,
                kept.op_store,
                operation,
                topic,
                Ok(IngestResult::Complete { hash: operation.hash, duplicate: false }),
            )
            &&& !(ingested is Insert) ==> kept.op_store == before.op_store && after == kept
            &&& ingested is Insert ==> exists|delivery: Delivery|
                {
                    &&& #[trigger] operation_outcome(
                        kept,
                        after,
                        topic,
                        operation.hash,
                        Ok(Some(payload)),
                        true,
                        Ok(delivery),
                    )
                    &&& r matches Ok(done) ==> done.delivery == Some(delivery)
                }
            &&& match gossips(after, topic) {
                None => r == Err::<Published, AuthorError>(AuthorError::UnknownChat),
                Some(sends) => {
                    let frame = gossip_frame(operation.header_bytes@, option_bytes(operation.body));
                    if sends && frame is None {
                        r == Err::<Published, AuthorError>(AuthorError::Encode)
                    } else {
                        &&& r matches Ok(done)
                        &&& done.hash == operation.hash
                        &&& done.author == operation.header.public_key
                        &&& done.timestamp == operation.header.timestamp
                        &&& done.stored == !(ingested is Retry)
                        &&& done.delivery is Some <==> ingested is Insert
                        &&& sends ==> (done.gossip matches Some(message) && message.topic == topic
                            && Some(message.bytes@) == frame)
                        &&& !sends ==> done.gossip is None
                    }
                },
            }
        },
    }
}

} // verus!
