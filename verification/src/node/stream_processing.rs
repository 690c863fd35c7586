//! Stream processing: what the node does with an operation that has been
//! stored, and with what the space state machine reports back.

use vstd::prelude::*;
use vstd::utf8::encode_utf8;

use crate::chat::message::{cbor_text, ChatMessage, ChatMessageContent, MessageKey};
use crate::chat::{run, step, Change, Chat, ChatId, ChatModel};
use crate::identity::{Digest, Ident, PK};
use crate::ingest::{
    awaits, ingest, lemma_missing_is_absent, missing_from, outcome, verdict, IngestError,
    IngestResult, Parked, Verdict,
};
use crate::network::Topic;
use crate::node::author_operation::batch_ids;
use crate::node::{Node, NodeError, Notification};
use crate::operation::{CodecError, Header, InvitationMessage, Operation, Payload};
use crate::store::{extends, lemma_extends_transitive};
use crate::spaces::{ArgType, Event, OperationId, SpaceControlMessage, SpaceError};

verus! {

/// What the caller is to do for a payload that the node has processed.
#[derive(Debug, PartialEq, Eq)]
pub enum PayloadPlan {
    /// The control messages at these places of the payload go to the space
    /// state machine of the chat, in this order.
    Space { chat_id: ChatId, positions: Vec<usize> },
    /// The control messages belong to a chat that the node does not keep.
    UnknownChat { chat_id: ChatId },
    /// The node has accepted an invitation to the chat. `subscribe` says
    /// that the chat is new to the node, which subscribes to its topic.
    Joined { chat_id: ChatId, subscribe: bool },
    /// Someone has added the local actor as a friend.
    FriendRequest { from: PK },
    /// The payload lies in the inbox of another actor: it is stored and
    /// nothing more.
    Ignored,
    /// The topic and the payload do not fit each other.
    Unhandled,
}

/// What follows from an operation that the node has processed.
#[derive(Debug, PartialEq, Eq)]
pub struct Delivery {
    pub plan: PayloadPlan,
    /// Whether the user is to be notified of the payload.
    pub notify: bool,
}

/// What became of an operation that came in from the network.
#[derive(Debug, PartialEq, Eq)]
pub struct Inbound {
    /// The operations that were stored, each with its topic, in the order
    /// in which they were stored: the one that came in, and then those that
    /// had waited for it. They are to be processed in this order.
    pub stored: Vec<(Topic, Digest)>,
    /// Why the operation that came in was rejected, if it was.
    pub rejected: Option<IngestError>,
    /// Whether the operation that came in waits for its dependencies.
    pub parked: bool,
    /// The hashes of the operations that left the buffer without being
    /// stored: pushed out by a newer one, or rejected when they were tried
    /// again.
    pub dropped: Vec<Digest>,
}

/// Whether a control message goes to the space state machine. The author
/// of a batch has processed all but the application messages already.
pub open spec fn processes(msg: SpaceControlMessage, is_author: bool) -> bool {
    !is_author || msg.spaces_args.arg_type_spec() == ArgType::Application
}

/// The places of the control messages of a payload that go to the space
/// state machine, in order.
pub open spec fn positions(msgs: Seq<SpaceControlMessage>, is_author: bool) -> Seq<usize>
    decreases msgs.len(),
{
    if msgs.len() == 0 {
        Seq::empty()
    } else {
        let rest = positions(msgs.drop_last(), is_author);
        if processes(msgs.last(), is_author) {
            rest.push((msgs.len() - 1) as usize)
        } else {
            rest
        }
    }
}

/// What an event changes in a chat, for the author and the time of the
/// operation that brought it: `None` where the bytes of an application
/// message are not a text.
pub open spec fn change_of(event: Event, author: PK, timestamp: u64) -> Option<Change> {
    match event {
        Event::Application { data, .. } => match cbor_text(data@) {
            Some(text) => Some(
                Change::Message(
                    MessageKey { timestamp, content: encode_utf8(text), author: author@ },
                ),
            ),
            None => None,
        },
        Event::Removed { .. } => Some(Change::Removed),
    }
}

/// How many of the events, from the first on, can be applied: all before
/// the first application message whose bytes are not a text.
pub open spec fn leading(events: Seq<Event>, author: PK, timestamp: u64) -> nat
    decreases events.len(),
{
    if events.len() == 0 {
        0
    } else if change_of(events[0], author, timestamp) is None {
        0
    } else {
        1 + leading(events.drop_first(), author, timestamp)
    }
}

/// The changes of a sequence of events that can all be applied.
pub open spec fn changes_of(events: Seq<Event>, author: PK, timestamp: u64) -> Seq<Change> {
    events.map_values(|e: Event| change_of(e, author, timestamp).unwrap())
}

/// Where the first `n` events can be applied, and the next one cannot or
/// there is none, `n` is how many can be applied.
pub proof fn lemma_leading(events: Seq<Event>, author: PK, timestamp: u64, n: int)
    requires
        0 <= n <= events.len(),
        forall|i: int| 0 <= i < n ==> change_of(#[trigger] events[i], author, timestamp) is Some,
        n < events.len() ==> change_of(events[n], author, timestamp) is None,
    ensures
        leading(events, author, timestamp) == n,
    decreases events.len(),
{
    if events.len() > 0 && n > 0 {
        let rest = events.drop_first();
        assert forall|i: int| 0 <= i < n - 1 implies change_of(
            #[trigger] rest[i],
            author,
            timestamp,
        ) is Some by {
            assert(rest[i] == events[i + 1]);
        }
        if n - 1 < rest.len() {
            assert(rest[n - 1] == events[n]);
        }
        lemma_leading(rest, author, timestamp, n - 1);
    }
}

/// The record of which operation carried which control message, after the
/// messages with the identifiers have been carried by the operation with
/// the hash.
pub open spec fn recorded(known: Map<OperationId, Digest>, ids: Seq<OperationId>, hash: Digest) -> Map<
    OperationId,
    Digest,
>
    decreases ids.len(),
{
    if ids.len() == 0 {
        known
    } else {
        recorded(known, ids.drop_last(), hash).insert(ids.last(), hash)
    }
}

impl Node {
    /// Whether two states of a node differ at most in the chat with the
    /// identifier.
    pub open spec fn same_but_chat(&self, other: &Self, chat_id: ChatId) -> bool {
        &&& self.op_store == other.op_store
        &&& self.author_store == other.author_store
        &&& self.config == other.config
        &&& self.private_key == other.private_key
        &&& self.public_key == other.public_key
        &&& self.friends == other.friends
        &&& self.space_dependencies == other.space_dependencies
        &&& self.buffer == other.buffer
        &&& self.chats.keys@ == other.chats.keys@
        &&& forall|c: ChatId| c != chat_id && self.chats@.contains_key(c) ==> #[trigger] self.chats@[c]
            == other.chats@[c]
    }

    /// Sees to it that the node keeps the chat, and says whether the chat
    /// is new to the node. For a new chat the node records itself as an
    /// author in the chat's topic, to which the caller subscribes.
    pub fn initialize_group(&mut self, chat_id: ChatId) -> (created: bool)
        requires
            old(self).wf(),
        ensures
            final(self).wf(),
            created == !old(self).chats@.contains_key(chat_id),
            final(self).chats@.contains_key(chat_id),
            !created ==> *final(self) == *old(self),
            created ==> {
                &&& final(self).chats.keys@ == old(self).chats.keys@.push(chat_id)
                &&& final(self).chats@ == old(self).chats@.insert(chat_id, final(self).chats@[chat_id])
                &&& final(self).chat_model(chat_id) == (ChatModel {
                    messages: Set::empty(),
                    removed: false,
                })
                &&& final(self).chats@[chat_id].messages.items@ == Seq::<ChatMessage>::empty()
                &&& final(self).author_store@ == old(self).author_store@.insert(
                    Topic::Chat(chat_id),
                    old(self).author_store.authors_of(Topic::Chat(chat_id)).insert(
                        old(self).public_key,
                    ),
                )
            },
            final(self).op_store == old(self).op_store,
            final(self).config == old(self).config,
            final(self).private_key == old(self).private_key,
            final(self).public_key == old(self).public_key,
            final(self).friends == old(self).friends,
            final(self).space_dependencies == old(self).space_dependencies,
            final(self).buffer == old(self).buffer,
            forall|c: ChatId| #[trigger]
                old(self).chats@.contains_key(c) ==> final(self).chats@.contains_key(c)
                    && final(self).chats@[c] == old(self).chats@[c],
    {
        if self.chats.contains_key(&chat_id) {
            return false;
        }
        let ghost before = *self;
        self.author_store.add_author(Topic::Chat(chat_id), self.public_key);
        let chat = Chat::new(chat_id);
        self.chats.insert(chat_id, chat);
        proof {
            assert forall|i: int| 0 <= i < self.chats.vals@.len() implies (
            #[trigger] self.chats.vals@[i]).wf() && self.chats.vals@[i].id == self.chats.keys@[i] by {
                if i < before.chats.vals@.len() {
                    assert(self.chats.vals@[i] == before.chats.vals@[i]);
                    assert(before.chats.vals@[i].wf());
                }
            }
        }
        true
    }

    /// Joins a chat: the node keeps the chat from now on. Membership comes
    /// only when a member adds the local actor to the space.
    pub fn join_group(&mut self, chat_id: ChatId) -> (created: bool)
        requires
            old(self).wf(),
        ensures
            final(self).wf(),
            created == !old(self).chats@.contains_key(chat_id),
            final(self).chats@.contains_key(chat_id),
            !created ==> *final(self) == *old(self),
            created ==> final(self).chat_model(chat_id) == (ChatModel {
                messages: Set::empty(),
                removed: false,
            }) && final(self).chats.keys@ == old(self).chats.keys@.push(chat_id)
                && final(self).chats@[chat_id].messages.items@ == Seq::<ChatMessage>::empty(),
            final(self).op_store == old(self).op_store,
            final(self).friends == old(self).friends,
            final(self).space_dependencies == old(self).space_dependencies,
            final(self).buffer == old(self).buffer,
            final(self).public_key == old(self).public_key,
            forall|c: ChatId| #[trigger]
                old(self).chats@.contains_key(c) ==> final(self).chats@.contains_key(c)
                    && final(self).chats@[c] == old(self).chats@[c],
    {
        self.initialize_group(chat_id)
    }

    /// Whether the caller has to subscribe to the inbox of an actor: not
    /// where the actor is a friend, whose inbox the node follows already.
    pub fn initialize_inbox(&self, pubkey: &PK) -> (subscribe: bool)
        ensures
            subscribe == !self.friends@.contains(*pubkey),
    {
        !self.friends.contains(pubkey)
    }

    /// Applies to a chat what the space state machine reports for an
    /// operation of the author at the time: a decrypted message joins the
    /// messages of the chat, a removal marks the chat. Nothing changes
    /// where the node does not keep the chat or the bytes of a message are
    /// not a text.
    pub fn process_chat_event(&mut self, author: PK, timestamp: u64, chat_id: ChatId, event: Event) -> (r:
        Result<(), NodeError>)
        requires
            old(self).wf(),
        ensures
            final(self).wf(),
            !old(self).chats@.contains_key(chat_id) ==> r == Err::<(), NodeError>(
                NodeError::UnknownChat,
            ) && *final(self) == *old(self),
            old(self).chats@.contains_key(chat_id) ==> match change_of(event, author, timestamp) {
                Some(change) => {
                    &&& r is Ok
                    &&& final(self).chats@.contains_key(chat_id)
                    &&& final(self).chat_model(chat_id) == step(old(self).chat_model(chat_id), change)
                    &&& final(self).same_but_chat(old(self), chat_id)
                },
                None => r == Err::<(), NodeError>(NodeError::Decode) && *final(self) == *old(self),
            },
    {
        let ghost before = *self;
        let at = match self.chats.position(&chat_id) {
            Some(at) => at,
            None => {
                return Err(NodeError::UnknownChat);
            },
        };
        proof {
            before.chats.lemma_at(at as int);
            assert(before.chats.vals@[at as int].wf());
        }
        match event {
            Event::Application { data, .. } => {
                let content = match ChatMessageContent::from_bytes(data.as_slice()) {
                    Ok(content) => content,
                    Err(_) => {
                        return Err(NodeError::Decode);
                    },
                };
                let message = ChatMessage { content, author, timestamp };
                let ghost key = message.key();
                let ghost old_keys = before.chats.vals@[at as int].messages@;
                self.chats.vals[at].messages.insert(message);
                proof {
                    let new_keys = self.chats.vals@[at as int].messages@;
                    assert(new_keys.to_set() =~= old_keys.to_set().insert(key)) by {
                        assert forall|k: MessageKey|
                            new_keys.to_set().contains(k) <==> old_keys.to_set().insert(key).contains(
                                k,
                            ) by {
                            assert(new_keys.contains(k) <==> (old_keys.contains(k) || k == key));
                        }
                    }
                }
            },
            Event::Removed { .. } => {
                self.chats.vals[at].removed = true;
            },
        }
        proof {
            assert(self.chats.keys@ == before.chats.keys@);
            assert(self.chats.vals@.len() == before.chats.vals@.len());
            assert forall|i: int| 0 <= i < self.chats.vals@.len() implies (
            #[trigger] self.chats.vals@[i]).wf() && self.chats.vals@[i].id == self.chats.keys@[i] by {
                if i != at {
                    assert(self.chats.vals@[i] == before.chats.vals@[i]);
                }
                assert(before.chats.vals@[i].wf());
            }
            self.chats.lemma_at(at as int);
            assert forall|c: ChatId| c != chat_id && self.chats@.contains_key(c) implies #[trigger] self.chats@[c]
                == before.chats@[c] by {
                let j = self.chats.keys@.index_of(c);
                assert(0 <= j < self.chats.keys@.len() && self.chats.keys@[j] == c);
                self.chats.lemma_at(j);
                before.chats.lemma_at(j);
            }
        }
        Ok(())
    }

    /// Applies what the space state machine answered for a control message
    /// of an operation of the author at the time.
    ///
    /// The events are applied in order, up to the first application message
    /// whose bytes are not a text. A refusal of the space state machine,
    /// whatever its reason, changes nothing.
    pub fn apply_space_result(
        &mut self,
        author: PK,
        timestamp: u64,
        chat_id: ChatId,
        result: Result<Vec<Event>, SpaceError>,
    ) -> (r: Result<(), NodeError>)
        requires
            old(self).wf(),
        ensures
            final(self).wf(),
            result is Err ==> r is Ok && *final(self) == *old(self),
            result matches Ok(events) ==> {
                let n = leading(events@, author, timestamp) as int;
                if !old(self).chats@.contains_key(chat_id) {
                    &&& *final(self) == *old(self)
                    &&& r is Ok <==> events@.len() == 0
                } else {
                    &&& final(self).chats@.contains_key(chat_id)
                    &&& final(self).chat_model(chat_id) == run(
                        old(self).chat_model(chat_id),
                        changes_of(events@.take(n), author, timestamp),
                    )
                    &&& final(self).same_but_chat(old(self), chat_id)
                    &&& r is Ok <==> n == events@.len()
                }
            },
    {
        let mut events = match result {
            Ok(events) => events,
            Err(_) => {
                return Ok(());
            },
        };
        let ghost all = events@;
        let ghost before = *self;
        let n = events.len();
        let mut i: usize = 0;
        proof {
            assert(all.skip(0) =~= all);
            assert(changes_of(all.take(0), author, timestamp) =~= Seq::<Change>::empty());
        }
        while i < n
            invariant
                self.wf(),
                before == *old(self),
                result matches Ok(given) && given@ == all,
                n == all.len(),
                i <= n,
                events@ == all.skip(i as int),
                forall|k: int| 0 <= k < i ==> change_of(#[trigger] all[k], author, timestamp) is Some,
                before.chats@.contains_key(chat_id) ==> {
                    &&& self.chats@.contains_key(chat_id)
                    &&& self.chat_model(chat_id) == run(
                        before.chat_model(chat_id),
                        changes_of(all.take(i as int), author, timestamp),
                    )
                    &&& self.same_but_chat(&before, chat_id)
                },
                !before.chats@.contains_key(chat_id) ==> *self == before && i == 0,
            decreases n - i,
        {
            let event = events.remove(0);
            assert(event == all[i as int]);
            assert(events@ =~= all.skip(i + 1));
            let ghost mid = *self;
            match self.process_chat_event(author, timestamp, chat_id, event) {
                Ok(_) => {
                    proof {
                        let done = changes_of(all.take(i + 1), author, timestamp);
                        assert(done.drop_last() =~= changes_of(all.take(i as int), author, timestamp));
                        assert(done.last() == change_of(all[i as int], author, timestamp).unwrap());
                        assert forall|c: ChatId|
                            c != chat_id && self.chats@.contains_key(c) implies #[trigger] self.chats@[c]
                            == before.chats@[c] by {
                            assert(mid.chats@.contains_key(c));
                            assert(self.chats@[c] == mid.chats@[c]);
                        }
                    }
                },
                Err(e) => {
                    proof {
                        if before.chats@.contains_key(chat_id) {
                            assert(mid.chats@.contains_key(chat_id));
                            lemma_leading(all, author, timestamp, i as int);
                        }
                    }
                    return Err(e);
                },
            }
            i += 1;
        }
        proof {
            lemma_leading(all, author, timestamp, n as int);
            assert(all.take(n as int) =~= all);
        }
        Ok(())
    }

    /// The places of the control messages of a payload that go to the space
    /// state machine.
    fn select_positions(msgs: &Vec<SpaceControlMessage>, is_author: bool) -> (r: Vec<usize>)
        ensures
            r@ == positions(msgs@, is_author),
    {
        let mut out: Vec<usize> = Vec::new();
        let mut i: usize = 0;
        assert(msgs@.take(0) =~= Seq::<SpaceControlMessage>::empty());
        while i < msgs.len()
            invariant
                i <= msgs@.len(),
                out@ == positions(msgs@.take(i as int), is_author),
            decreases msgs@.len() - i,
        {
            proof {
                let next = msgs@.take(i + 1);
                assert(next.drop_last() =~= msgs@.take(i as int));
                assert(next.last() == msgs@[i as int]);
            }
            let wanted = !is_author || match msgs[i].arg_type() {
                ArgType::Application => true,
                _ => false,
            };
            if wanted {
                out.push(i);
            }
            i += 1;
        }
        assert(msgs@.take(msgs@.len() as int) =~= msgs@);
        out
    }

    /// Decides what a payload asks for, for an operation of the author in
    /// the topic.
    ///
    /// Control messages in the topic of a chat that the node keeps go to the
    /// space state machine. An invitation in the node's own inbox is
    /// accepted: the node joins the chat it names, or learns of a friend. A
    /// payload in another actor's inbox changes nothing.
    pub fn process_payload(
        &mut self,
        topic: Topic,
        author: PK,
        payload: Option<&Payload>,
        is_author: bool,
    ) -> (plan: PayloadPlan)
        requires
            old(self).wf(),
        ensures
            final(self).wf(),
            payload_outcome(*old(self), *final(self), topic, author, payload, is_author, plan),
    {
        match (topic, payload) {
            (Topic::Chat(chat_id), Some(Payload::SpaceControl(msgs))) => {
                if self.chats.contains_key(&chat_id) {
                    PayloadPlan::Space { chat_id, positions: Self::select_positions(msgs, is_author) }
                } else {
                    PayloadPlan::UnknownChat { chat_id }
                }
            },
            (Topic::Inbox(owner), Some(Payload::Invitation(invitation))) => {
                if !owner.same(&self.public_key) {
                    return PayloadPlan::Ignored;
                }
                match invitation {
                    InvitationMessage::JoinGroup(chat_id) => {
                        let subscribe = self.join_group(*chat_id);
                        PayloadPlan::Joined { chat_id: *chat_id, subscribe }
                    },
                    InvitationMessage::Friend => PayloadPlan::FriendRequest { from: author },
                }
            },
            _ => PayloadPlan::Unhandled,
        }
    }

    /// Records that the operation with the hash carried the control
    /// messages.
    pub(crate) fn record_space_dependencies(&mut self, msgs: &Vec<SpaceControlMessage>, hash: Digest)
        requires
            old(self).wf(),
        ensures
            final(self).wf(),
            final(self).space_dependencies@ == recorded(
                old(self).space_dependencies@,
                batch_ids(msgs@),
                hash,
            ),
            final(self).op_store == old(self).op_store,
            final(self).chats == old(self).chats,
            final(self).author_store == old(self).author_store,
            final(self).config == old(self).config,
            final(self).private_key == old(self).private_key,
            final(self).public_key == old(self).public_key,
            final(self).friends == old(self).friends,
            final(self).buffer == old(self).buffer,
    {
        let ghost ids = batch_ids(msgs@);
        let mut i: usize = 0;
        assert(ids.take(0) =~= Seq::<OperationId>::empty());
        while i < msgs.len()
            invariant
                self.wf(),
                i <= msgs@.len(),
                ids == batch_ids(msgs@),
                self.space_dependencies@ == recorded(
                    old(self).space_dependencies@,
                    ids.take(i as int),
                    hash,
                ),
                self.op_store == old(self).op_store,
                self.chats == old(self).chats,
                self.author_store == old(self).author_store,
                self.config == old(self).config,
                self.private_key == old(self).private_key,
                self.public_key == old(self).public_key,
                self.friends == old(self).friends,
                self.buffer == old(self).buffer,
            decreases msgs@.len() - i,
        {
            proof {
                let next = ids.take(i + 1);
                assert(next.drop_last() =~= ids.take(i as int));
                assert(next.last() == msgs@[i as int].id_spec());
            }
            self.space_dependencies.insert(msgs[i].id(), hash);
            i += 1;
        }
        assert(ids.take(ids.len() as int) =~= ids);
    }

    /// Processes an operation that the store holds: records its author
    /// under the topic, records which control messages it carried, and
    /// decides what its payload asks for.
    ///
    /// `payload` is what the body of the operation decodes to, or the
    /// failure to decode it. An operation in the inbox of another actor
    /// leaves no trace but in the record of authors.
    pub fn process_operation(
        &mut self,
        topic: Topic,
        hash: &Digest,
        payload: Result<Option<&Payload>, CodecError>,
        is_author: bool,
    ) -> (r: Result<Delivery, NodeError>)
        requires
            old(self).wf(),
        ensures
            final(self).wf(),
            final(self).op_store == old(self).op_store,
            !old(self).op_store.has(*hash) ==> r == Err::<Delivery, NodeError>(
                NodeError::UnknownOperation,
            ) && *final(self) == *old(self),
            old(self).op_store.has(*hash) ==> operation_outcome(
                *old(self),
                *final(self),
                topic,
                *hash,
                payload,
                is_author,
                r,
            ),
            r is Ok ==> final(self).op_store.has(*hash) && final(self).op_store.holds_all(
                final(self).op_store.stored(*hash).header.previous@,
            ),
    {
        let (author, _timestamp) = match self.op_store.get_operation(hash) {
            Some(operation) => (operation.header.public_key, operation.header.timestamp),
            None => {
                return Err(NodeError::UnknownOperation);
            },
        };
        proof {
            self.op_store.lemma_dependency_closure(*hash);
            let (i, k) = choose|i: int, k: int|
                self.op_store.place(i, k) && (#[trigger] self.op_store.logs@[i].entries@[k]).hash
                    == *hash;
            assert(self.op_store.stored(*hash) == self.op_store.logs@[i].entries@[k]);
            let (a, b) = choose|a: int, b: int|
                self.op_store.place(a, b) && (#[trigger] self.op_store.logs@[a].entries@[b]).hash
                    == *hash && self.op_store.holds_all(
                    self.op_store.logs@[a].entries@[b].header.previous@,
                );
            assert(a == i && b == k);
        }
        self.author_store.add_author(topic, author);
        let payload = match payload {
            Ok(payload) => payload,
            Err(_) => {
                return Err(NodeError::Decode);
            },
        };
        let foreign = match topic {
            Topic::Inbox(owner) => !owner.same(&self.public_key),
            Topic::Chat(_) => false,
        };
        if foreign {
            return Ok(Delivery { plan: PayloadPlan::Ignored, notify: false });
        }
        match (topic, payload) {
            (Topic::Chat(_), Some(Payload::SpaceControl(msgs))) => {
                self.record_space_dependencies(msgs, *hash);
            },
            _ => {},
        }
        let ghost mid = *self;
        let plan = self.process_payload(topic, author, payload, is_author);
        let delivery = Delivery { plan, notify: payload.is_some() };
        proof {
            let before = *old(self);
            assert(author == before.op_store.stored(*hash).header.public_key);
            assert(mid.same_but_authors_and_dependencies(&before));
            assert(mid.author_store@ == before.author_store@.insert(
                topic,
                before.author_store.authors_of(topic).insert(author),
            ));
            assert(mid.space_dependencies@ == match (topic, payload) {
                (Topic::Chat(_), Some(Payload::SpaceControl(msgs))) => recorded(
                    before.space_dependencies@,
                    batch_ids(msgs@),
                    *hash,
                ),
                _ => before.space_dependencies@,
            });
            assert(payload_outcome(mid, *self, topic, author, payload, is_author, delivery.plan));
        }
        Ok(delivery)
    }

    /// Tries again the operations that waited for one of the stored
    /// operations, and those that waited for these, until none that waits
    /// for a stored operation is left. What gets stored joins `stored`.
    fn settle(&mut self, stored: &mut Vec<(Topic, Digest)>, dropped: &mut Vec<Digest>)
        requires
            old(self).wf(),
            forall|i: int| 0 <= i < old(stored)@.len() ==> old(self).op_store.has(
                (#[trigger] old(stored)@[i]).1,
            ),
        ensures
            final(self).wf(),
            final(self).same_but_store_and_buffer(old(self)),
            forall|hash: Digest| old(self).op_store.has(hash) ==> final(self).op_store.has(hash),
            extends(old(self).op_store, final(self).op_store),
            forall|i: int| 0 <= i < final(stored)@.len() ==> final(self).op_store.has(
                (#[trigger] final(stored)@[i]).1,
            ),
            old(stored)@.len() <= final(stored)@.len(),
            final(stored)@.take(old(stored)@.len() as int) == old(stored)@,
            final(stored)@.len() <= old(stored)@.len() + old(self).buffer.parked@.len(),
            settled(final(self).buffer.parked@, final(stored)@, final(stored)@.len() as int),
    {
        let ghost bound = self.buffer.parked@.len() + stored@.len();
        let mut cursor: usize = 0;
        while cursor < stored.len()
            invariant
                self.wf(),
                self.same_but_store_and_buffer(old(self)),
                forall|hash: Digest| old(self).op_store.has(hash) ==> self.op_store.has(hash),
                extends(old(self).op_store, self.op_store),
                forall|i: int| 0 <= i < stored@.len() ==> self.op_store.has((#[trigger] stored@[i]).1),
                old(stored)@.len() <= stored@.len(),
                stored@.take(old(stored)@.len() as int) == old(stored)@,
                self.buffer.parked@.len() + stored@.len() <= bound,
                bound == old(self).buffer.parked@.len() + old(stored)@.len(),
                cursor <= stored@.len(),
                settled(self.buffer.parked@, stored@, cursor as int),
            decreases bound - cursor,
        {
            let hash = stored[cursor].1;
            let ghost waiting = self.buffer.parked@;
            let mut ready = self.buffer.take_awaiting(&hash);
            proof {
                let kept = self.buffer.parked@;
                assert forall|p: int, i: int|
                    0 <= p < kept.len() && 0 <= i < cursor + 1 implies !awaits(
                        #[trigger] kept[p],
                        (#[trigger] stored@[i]).1,
                    ) by {
                    waiting.lemma_filter_contains_rev(|e: Parked| !awaits(e, hash), kept[p]);
                    let q = choose|q: int| 0 <= q < waiting.len() && waiting[q] == kept[p];
                    if i < cursor {
                        assert(!awaits(waiting[q], stored@[i].1));
                    }
                }
            }
            while ready.len() > 0
                invariant
                    self.wf(),
                    self.same_but_store_and_buffer(old(self)),
                    forall|hash: Digest| old(self).op_store.has(hash) ==> self.op_store.has(hash),
                    extends(old(self).op_store, self.op_store),
                    forall|i: int|
                        0 <= i < stored@.len() ==> self.op_store.has((#[trigger] stored@[i]).1),
                    old(stored)@.len() <= stored@.len(),
                    stored@.take(old(stored)@.len() as int) == old(stored)@,
                    self.buffer.parked@.len() + ready@.len() + stored@.len() <= bound,
                    cursor < stored@.len(),
                    settled(self.buffer.parked@, stored@, cursor + 1),
                decreases ready@.len(),
            {
                let entry = ready.remove(0);
                let Parked { operation, topic, .. } = entry;
                let Operation { hash: tried, header, header_bytes, unsigned_bytes, body } = operation;
                let ghost before_store = self.op_store;
                let ghost before_stored = stored@;
                let ghost before_parked = self.buffer.parked@;
                let ghost previous = header.previous@;
                match ingest(&mut self.op_store, header, header_bytes, unsigned_bytes, body, &topic) {
                    Ok(IngestResult::Complete { hash, duplicate }) => {
                        if !duplicate {
                            stored.push((topic, hash));
                            proof {
                                assert(stored@.take(old(stored)@.len() as int) =~= before_stored.take(
                                    old(stored)@.len() as int,
                                ));
                            }
                        }
                    },
                    Ok(IngestResult::Retry { operation, missing }) => {
                        let ghost entry = Parked { operation, topic, missing };
                        match self.buffer.park(Parked { operation, topic, missing }) {
                            Some(oldest) => {
                                dropped.push(oldest.operation.hash);
                            },
                            None => {},
                        }
                        proof {
                            let now = self.buffer.parked@;
                            assert forall|p: int, i: int|
                                0 <= p < now.len() && 0 <= i < cursor + 1 implies !awaits(
                                    #[trigger] now[p],
                                    (#[trigger] stored@[i]).1,
                                ) by {
                                if now[p] == entry {
                                    if awaits(entry, stored@[i].1) {
                                        lemma_missing_is_absent(before_store, previous, stored@[i].1);
                                        assert(before_store.has(before_stored[i].1));
                                    }
                                } else {
                                    let q = choose|q: int|
                                        0 <= q < before_parked.len() && before_parked[q] == now[p];
                                    assert(!awaits(before_parked[q], stored@[i].1));
                                }
                            }
                        }
                    },
                    Err(_) => {
                        dropped.push(tried);
                    },
                }
                proof {
                    assert forall|i: int| 0 <= i < stored@.len() implies self.op_store.has(
                        (#[trigger] stored@[i]).1,
                    ) by {
                        if i < before_stored.len() {
                            assert(before_store.has(before_stored[i].1));
                        }
                    }
                    lemma_extends_transitive(old(self).op_store, before_store, self.op_store);
                }
            }
            cursor += 1;
        }
    }

    /// Takes in an operation that came from the network in a topic.
    ///
    /// The operation is checked and stored. Where it depends on operations
    /// that the store does not hold, it waits in the buffer; where the
    /// buffer is full, the oldest entry makes room. Once an operation is
    /// stored, those that waited for it are tried again. Nothing but the
    /// store and the buffer changes.
    pub fn receive_operation(
        &mut self,
        topic: Topic,
        header: Header,
        header_bytes: Vec<u8>,
        unsigned_bytes: Vec<u8>,
        body: Option<Vec<u8>>,
    ) -> (r: Inbound)
        requires
            old(self).wf(),
        ensures
            final(self).wf(),
            final(self).same_but_store_and_buffer(old(self)),
            forall|hash: Digest| old(self).op_store.has(hash) ==> final(self).op_store.has(hash),
            extends(old(self).op_store, final(self).op_store),
            forall|i: int| 0 <= i < r.stored@.len() ==> final(self).op_store.has(
                (#[trigger] r.stored@[i]).1,
            ),
            settled(final(self).buffer.parked@, r.stored@, r.stored@.len() as int),
            exists|operation: Operation|
                {
                    &&& operation.header == header
                    &&& operation.header_bytes == header_bytes
                    &&& operation.unsigned_bytes == unsigned_bytes
                    &&& operation.body == body
                    &&& operation.hash_ok()
                    &&& #[trigger] received(*old(self), *final(self), operation, topic, r)
                },
    {
        let mut stored: Vec<(Topic, Digest)> = Vec::new();
        let mut dropped: Vec<Digest> = Vec::new();
        let mut rejected: Option<IngestError> = None;
        let mut parked = false;
        let ghost given_header = header;
        let ghost given_bytes = header_bytes;
        let ghost given_unsigned = unsigned_bytes;
        let ghost given_body = body;
        let ghost before = *self;
        let result = ingest(&mut self.op_store, header, header_bytes, unsigned_bytes, body, &topic);
        let ghost op = choose|operation: Operation|
            {
                &&& operation.header == given_header
                &&& operation.header_bytes == given_bytes
                &&& operation.unsigned_bytes == given_unsigned
                &&& operation.body == given_body
                &&& operation.hash_ok()
                &&& #[trigger] outcome(
                    before.op_store,
                    self.op_store,
                    operation,
                    topic,
                    result,
                )
            };
        match result {
            Err(e) => {
                rejected = Some(e);
            },
            Ok(IngestResult::Retry { operation, missing }) => {
                parked = self.buffer.capacity > 0;
                match self.buffer.park(Parked { operation, topic, missing }) {
                    Some(oldest) => {
                        dropped.push(oldest.operation.hash);
                    },
                    None => {},
                }
                proof {
                    if before.buffer.capacity == 0 {
                        assert(dropped@ =~= seq![op.hash]);
                    } else if before.buffer.parked@.len() < before.buffer.capacity {
                        assert(self.buffer.parked@.drop_last() =~= before.buffer.parked@);
                    } else {
                        assert(self.buffer.parked@.drop_last() =~= before.buffer.parked@.drop_first());
                        assert(dropped@ =~= seq![before.buffer.parked@[0].operation.hash]);
                    }
                }
            },
            Ok(IngestResult::Complete { hash, duplicate }) => {
                if !duplicate {
                    stored.push((topic, hash));
                    let ghost ingested = self.op_store;
                    self.settle(&mut stored, &mut dropped);
                    proof {
                        assert(stored@.take(1)[0] == stored@[0]);
                        lemma_extends_transitive(before.op_store, ingested, self.op_store);
                    }
                }
            },
        }
        let r = Inbound { stored, rejected, parked, dropped };
        assert(received(before, *self, op, topic, r));
        r
    }

    /// What the user is told of a payload: the payload itself, with the
    /// author and the time of the operation that carried it.
    pub fn notify_payload(&self, header: &Header, payload: Payload) -> (r: Notification)
        ensures
            r.payload == payload,
            r.author == header.public_key,
            r.timestamp == header.timestamp,
    {
        Notification { payload, author: header.public_key, timestamp: header.timestamp }
    }
}

/// Whether the node's state `after` is `before` with the chat joined.
pub open spec fn joined(before: Node, after: Node, chat_id: ChatId) -> bool {
    &&& after.chats@.contains_key(chat_id)
    &&& before.chats@.contains_key(chat_id) ==> after == before
    &&& !before.chats@.contains_key(chat_id) ==> {
        &&& after.chats.keys@ == before.chats.keys@.push(chat_id)
        &&& after.chat_model(chat_id) == (ChatModel { messages: Set::empty(), removed: false })
        &&& after.chats@[chat_id].messages.items@ == Seq::<ChatMessage>::empty()
    }
    &&& after.op_store == before.op_store
    &&& after.friends == before.friends
    &&& after.space_dependencies == before.space_dependencies
    &&& after.buffer == before.buffer
    &&& after.public_key == before.public_key
    &&& forall|c: ChatId| #[trigger]
        before.chats@.contains_key(c) ==> after.chats@.contains_key(c) && after.chats@[c]
            == before.chats@[c]
}

/// How the state of the node and the plan stand to a payload of an
/// operation of `author` in `topic`.
pub open spec fn payload_outcome(
    before: Node,
    after: Node,
    topic: Topic,
    author: PK,
    payload: Option<&Payload>,
    is_author: bool,
    plan: PayloadPlan,
) -> bool {
    match (topic, payload) {
        (Topic::Chat(chat_id), Some(Payload::SpaceControl(msgs))) => {
            &&& after == before
            &&& before.chats@.contains_key(chat_id) ==> (plan matches PayloadPlan::Space {
                chat_id: c,
                positions: p,
            } && c == chat_id && p@ == positions(msgs@, is_author))
            &&& !before.chats@.contains_key(chat_id) ==> plan == (PayloadPlan::UnknownChat {
                chat_id,
            })
        },
        (Topic::Inbox(owner), Some(Payload::Invitation(invitation))) => {
            if owner != before.public_key {
                after == before && plan == PayloadPlan::Ignored
            } else {
                match invitation {
                    InvitationMessage::JoinGroup(chat_id) => {
                        &&& joined(before, after, *chat_id)
                        &&& plan == (PayloadPlan::Joined {
                            chat_id: *chat_id,
                            subscribe: !before.chats@.contains_key(*chat_id),
                        })
                    },
                    InvitationMessage::Friend => after == before && plan == (
                    PayloadPlan::FriendRequest { from: author }),
                }
            }
        },
        _ => after == before && plan == PayloadPlan::Unhandled,
    }
}

/// Whether none of the parked operations waits for one of the first `n`
/// of the stored operations: those that did have been tried again.
pub open spec fn settled(parked: Seq<Parked>, stored: Seq<(Topic, Digest)>, n: int) -> bool {
    forall|p: int, i: int|
        0 <= p < parked.len() && 0 <= i < n && i < stored.len() ==> !awaits(
            #[trigger] parked[p],
            (#[trigger] stored[i]).1,
        )
}

/// How the state of the node and the report stand to an operation that
/// came in.
pub open spec fn received(before: Node, after: Node, operation: Operation, topic: Topic, r: Inbound) -> bool {
    match verdict(before.op_store, operation, topic) {
        Verdict::SignatureInvalid => after == before && r.rejected == Some(
            IngestError::SignatureInvalid,
        ) && !r.parked && r.stored@.len() == 0 && r.dropped@.len() == 0,
        Verdict::PayloadHashMismatch => after == before && r.rejected == Some(
            IngestError::PayloadHashMismatch,
        ) && !r.parked && r.stored@.len() == 0 && r.dropped@.len() == 0,
        Verdict::LogGap => after == before && r.rejected == Some(IngestError::LogGap) && !r.parked
            && r.stored@.len() == 0 && r.dropped@.len() == 0,
        Verdict::Duplicate => after == before && r.rejected is None && !r.parked && r.stored@.len()
            == 0 && r.dropped@.len() == 0,
        Verdict::Retry => {
            &&& after.op_store == before.op_store
            &&& r.rejected is None
            &&& r.stored@.len() == 0
            &&& r.parked == (before.buffer.capacity > 0)
            &&& before.buffer.capacity == 0 ==> after.buffer.parked@ == before.buffer.parked@
                && r.dropped@ == seq![operation.hash]
            &&& before.buffer.capacity > 0 ==> after.buffer.parked@.len() > 0
                && after.buffer.parked@.last().operation == operation
                && after.buffer.parked@.last().topic == topic
                && after.buffer.parked@.last().missing@ == missing_from(
                before.op_store,
                operation.header.previous@,
            )
            &&& before.buffer.capacity > 0 && before.buffer.parked@.len() < before.buffer.capacity
                ==> after.buffer.parked@.drop_last() == before.buffer.parked@ && r.dropped@.len()
                == 0
            &&& before.buffer.capacity > 0 && before.buffer.parked@.len() == before.buffer.capacity
                ==> after.buffer.parked@.drop_last() == before.buffer.parked@.drop_first()
                && r.dropped@ == seq![before.buffer.parked@[0].operation.hash]
        },
        Verdict::Insert => {
            &&& r.rejected is None
            &&& !r.parked
            &&& r.stored@.len() >= 1
            &&& r.stored@[0] == (topic, operation.hash)
            &&& r.stored@.len() <= 1 + before.buffer.parked@.len()
        },
    }
}

/// Whether an operation lies in the inbox of an actor other than the local
/// one.
pub open spec fn foreign_inbox(node: Node, topic: Topic) -> bool {
    topic matches Topic::Inbox(owner) && owner != node.public_key
}

/// How the state of the node and the result stand to an operation that the
/// store holds under `hash`, with what its body decodes to.
pub open spec fn operation_outcome(
    before: Node,
    after: Node,
    topic: Topic,
    hash: Digest,
    payload: Result<Option<&Payload>, CodecError>,
    is_author: bool,
    r: Result<Delivery, NodeError>,
) -> bool {
    let author = before.op_store.stored(hash).header.public_key;
    let authors = before.author_store@.insert(
        topic,
        before.author_store.authors_of(topic).insert(author),
    );
    match payload {
        Err(_) => {
            &&& r == Err::<Delivery, NodeError>(NodeError::Decode)
            &&& after.same_but_authors(&before)
            &&& after.author_store@ == authors
        },
        Ok(payload) => {
            if foreign_inbox(before, topic) {
                &&& r == Ok::<Delivery, NodeError>(
                    Delivery { plan: PayloadPlan::Ignored, notify: false },
                )
                &&& after.same_but_authors(&before)
                &&& after.author_store@ == authors
            } else {
                exists|mid: Node|
                    {
                        &&& #[trigger] mid.same_but_authors_and_dependencies(&before)
                        &&& mid.author_store@ == authors
                        &&& mid.space_dependencies@ == match (topic, payload) {
                            (Topic::Chat(_), Some(Payload::SpaceControl(msgs))) => recorded(
                                before.space_dependencies@,
                                batch_ids(msgs@),
                                hash,
                            ),
                            _ => before.space_dependencies@,
                        }
                        &&& r matches Ok(delivery) && delivery.notify == (payload is Some)
                            && payload_outcome(
                            mid,
                            after,
                            topic,
                            author,
                            payload,
                            is_author,
                            delivery.plan,
                        )
                    }
            }
        },
    }
}

} // verus!
