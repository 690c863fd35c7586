//! The node: the state of one peer, and the decisions it takes when the
//! user asks for something or an operation arrives. The node neither sends
//! nor receives: each method says what is to be authored, subscribed to or
//! gossiped, and the caller does it.

pub mod author_operation;
pub mod stream_processing;

use vstd::prelude::*;

use crate::chat::message::{text_cbor, ChatMessage, ChatMessageContent};
use crate::chat::{Chat, ChatId, ChatModel};
use crate::collections::{copy_vec, list_contains, VecMap, VecSet};
use crate::crypto::{ed25519_key_valid, ed25519_public};
use crate::hexcode::hex_chars;
use crate::identity::{Digest, PrivateKey, PK};
use crate::ingest::DependencyBuffer;
use crate::network::{AuthorStore, Topic};
use crate::node::stream_processing::joined;
use crate::operation::{Header, InvitationMessage, Payload};
use crate::spaces::{OperationId, SpaceControlMessage};
use crate::store::OpStore;

verus! {

/// How many operations may wait for their dependencies at a time.
pub const BUFFER_CAPACITY: usize = 128;

/// The 32 bytes that name the network of this application.
pub fn network_id() -> (r: [u8; 32])
    ensures
        r@ == Seq::new(32, |i: int| 88u8),
{
    let r: [u8; 32] = [88u8; 32];
    assert(r@ =~= Seq::new(32, |i: int| 88u8));
    r
}

/// The largest gossip message in bytes.
pub const MAX_MESSAGE_SIZE: usize = 10000;

/// After how many seconds the node syncs a topic again.
pub const RESYNC_INTERVAL: u64 = 3;

/// Every how many seconds the node looks whether a sync is due.
pub const RESYNC_POLL_INTERVAL: u64 = 1;

/// The settings of a node.
#[derive(Clone, Copy, Debug, PartialEq, Eq, Structural)]
pub struct NodeConfig {}

impl Default for NodeConfig {
    fn default() -> (r: Self)
        ensures
            r == (NodeConfig {  }),
    {
        NodeConfig {  }
    }
}

/// The settings of a node, under the name that the user interface knows.
pub type Config = NodeConfig;

/// Why the node cannot do what was asked.
#[derive(Clone, Copy, Debug, PartialEq, Eq)]
pub enum NodeError {
    /// The node keeps no chat with this identifier.
    UnknownChat,
    /// The node's store holds no operation with this hash.
    UnknownOperation,
    /// The local actor has been removed from the chat.
    NotAMember,
    /// A value could not be encoded.
    Encode,
    /// Bytes are not the encoding of what they should hold.
    Decode,
}

/// The state of one peer.
#[derive(Debug)]
pub struct Node {
    pub op_store: OpStore,
    pub chats: VecMap<ChatId, Chat>,
    pub author_store: AuthorStore,
    pub config: NodeConfig,
    pub private_key: PrivateKey,
    /// The key of the local actor: the public key of `private_key`.
    pub public_key: PK,
    pub friends: VecSet<PK>,
    /// For each control message seen, the hash of the operation that
    /// carried it.
    pub space_dependencies: VecMap<OperationId, Digest>,
    pub buffer: DependencyBuffer,
}

/// What the user is told when an operation with a payload has been
/// processed.
#[derive(Clone, Debug, PartialEq, Eq)]
pub struct Notification {
    pub payload: Payload,
    pub author: PK,
    pub timestamp: u64,
}

/// An operation that the node is to author: its topic and its payload.
#[derive(Clone, Debug, PartialEq, Eq)]
pub struct Draft {
    pub topic: Topic,
    pub payload: Payload,
}

impl Node {
    /// Every part of the state is well formed, and each chat is kept under
    /// its own identifier.
    pub open spec fn wf(&self) -> bool {
        &&& self.op_store.wf()
        &&& self.chats.wf()
        &&& forall|i: int|
            0 <= i < self.chats.vals@.len() ==> (#[trigger] self.chats.vals@[i]).wf()
                && self.chats.vals@[i].id == self.chats.keys@[i]
        &&& self.author_store.wf()
        &&& self.friends.wf()
        &&& self.space_dependencies.wf()
        &&& self.buffer.wf()
        &&& self.public_key@ == ed25519_public(self.private_key@)
        &&& ed25519_key_valid(self.public_key@)
    }

    /// What the chat with the identifier amounts to.
    pub open spec fn chat_model(&self, chat_id: ChatId) -> ChatModel {
        self.chats@[chat_id].model()
    }

    /// Whether two states of a node differ at most in the author store and
    /// in the record of which operation carried which control message.
    pub open spec fn same_but_authors_and_dependencies(&self, other: &Self) -> bool {
        &&& self.op_store == other.op_store
        &&& self.chats == other.chats
        &&& self.config == other.config
        &&& self.private_key == other.private_key
        &&& self.public_key == other.public_key
        &&& self.friends == other.friends
        &&& self.buffer == other.buffer
    }

    /// Whether two states of a node differ at most in the operation store
    /// and in the buffer, whose capacity is the same.
    pub open spec fn same_but_store_and_buffer(&self, other: &Self) -> bool {
        &&& self.chats == other.chats
        &&& self.author_store == other.author_store
        &&& self.config == other.config
        &&& self.private_key == other.private_key
        &&& self.public_key == other.public_key
        &&& self.friends == other.friends
        &&& self.space_dependencies == other.space_dependencies
        &&& self.buffer.capacity == other.buffer.capacity
    }

    /// Whether two states of a node differ at most in the author store.
    pub open spec fn same_but_authors(&self, other: &Self) -> bool {
        &&& self.op_store == other.op_store
        &&& self.chats == other.chats
        &&& self.config == other.config
        &&& self.private_key == other.private_key
        &&& self.public_key == other.public_key
        &&& self.friends == other.friends
        &&& self.space_dependencies == other.space_dependencies
        &&& self.buffer == other.buffer
    }

    /// A node with the given key that holds no operation, no chat and no
    /// friend. It is recorded as an author of its own inbox, to which the
    /// caller subscribes.
    pub fn new(private_key: PrivateKey, config: NodeConfig) -> (r: Self)
        ensures
            r.wf(),
            r.private_key == private_key,
            r.config == config,
            r.op_store.logs@.len() == 0,
            r.chats@ == Map::<ChatId, Chat>::empty(),
            r.chats.keys@ == Seq::<ChatId>::empty(),
            r.friends@ == Set::<PK>::empty(),
            r.friends.items@ == Seq::<PK>::empty(),
            r.space_dependencies@ == Map::<OperationId, Digest>::empty(),
            r.buffer.parked@.len() == 0,
            r.buffer.capacity == BUFFER_CAPACITY,
            r.author_store@ == Map::<Topic, Set<PK>>::empty().insert(
                Topic::Inbox(r.public_key),
                Set::<PK>::empty().insert(r.public_key),
            ),
    {
        let me = private_key.public_key();
        let mut author_store = AuthorStore::new();
        author_store.add_author(Topic::Inbox(me), me);
        Node {
            op_store: OpStore::new(),
            chats: VecMap::new(),
            author_store,
            config,
            private_key,
            public_key: me,
            friends: VecSet::new(),
            space_dependencies: VecMap::new(),
            buffer: DependencyBuffer::new(BUFFER_CAPACITY),
        }
    }

    /// The key of the local actor.
    pub fn public_key(&self) -> (r: PK)
        ensures
            r == self.public_key,
    {
        self.public_key
    }

    /// The chats that the node takes part in, in the order in which it
    /// joined them.
    pub fn get_groups(&self) -> (r: Vec<ChatId>)
        ensures
            r@ == self.chats.keys@,
    {
        copy_vec(&self.chats.keys)
    }

    /// The friends of the local actor, in the order in which they were
    /// added.
    pub fn get_friends(&self) -> (r: Vec<PK>)
        ensures
            r@ == self.friends.items@,
    {
        copy_vec(&self.friends.items)
    }

    /// Forgets a friend. Nothing else changes.
    pub fn remove_friend(&mut self, public_key: PK)
        requires
            old(self).wf(),
        ensures
            final(self).wf(),
            final(self).friends@ == old(self).friends@.remove(public_key),
            !old(self).friends@.contains(public_key) ==> final(self).friends.items@ == old(self)
                .friends.items@,
            old(self).friends@.contains(public_key) ==> final(self).friends.items@ == old(self)
                .friends.items@.remove(old(self).friends.items@.index_of(public_key)),
            final(self).op_store == old(self).op_store,
            final(self).chats == old(self).chats,
            final(self).author_store == old(self).author_store,
            final(self).space_dependencies == old(self).space_dependencies,
            final(self).buffer == old(self).buffer,
            final(self).private_key == old(self).private_key,
            final(self).public_key == old(self).public_key,
            final(self).config == old(self).config,
    {
        self.friends.remove(&public_key);
    }

    /// The messages of a chat in their order, where the node keeps the
    /// chat.
    pub fn get_messages(&self, chat_id: ChatId) -> (r: Result<Vec<ChatMessage>, NodeError>)
        requires
            self.wf(),
        ensures
            r is Ok <==> self.chats@.contains_key(chat_id),
            r matches Ok(list) ==> list@ == self.chats@[chat_id].messages.items@,
            r matches Err(e) ==> e == NodeError::UnknownChat,
    {
        match self.chats.get(&chat_id) {
            Some(chat) => Ok(chat.messages()),
            None => Err(NodeError::UnknownChat),
        }
    }

    /// Takes note of a peer that discovery has found: the node records
    /// itself as an author in the peer's inbox, so that the peer, when it
    /// syncs its inbox, is offered what the node has written there. Says
    /// whether the record is new.
    pub fn discover_peer(&mut self, peer: PK) -> (added: bool)
        requires
            old(self).wf(),
        ensures
            final(self).wf(),
            final(self).same_but_authors(old(self)),
            final(self).author_store@ == old(self).author_store@.insert(
                Topic::Inbox(peer),
                old(self).author_store.authors_of(Topic::Inbox(peer)).insert(old(self).public_key),
            ),
            added == !old(self).author_store.authors_of(Topic::Inbox(peer)).contains(
                old(self).public_key,
            ),
    {
        let topic = Topic::Inbox(peer);
        let known = match self.author_store.authors(&topic) {
            Some(authors) => list_contains(&authors, &self.public_key),
            None => false,
        };
        self.author_store.add_author(topic, self.public_key);
        !known
    }

    /// Creates a chat under a fresh identifier drawn at random, and joins
    /// it. The caller subscribes to the chat's topic, creates the space with
    /// the local actor as its manager, and publishes the control messages
    /// that the space state machine hands out.
    pub fn create_group(&mut self) -> (chat_id: ChatId)
        requires
            old(self).wf(),
        ensures
            final(self).wf(),
            joined(*old(self), *final(self), chat_id),
    {
        let chat_id = ChatId::random();
        self.initialize_group(chat_id);
        chat_id
    }

    /// What the node authors to add a member to a chat: first the
    /// invitation to join, in the inbox of the new member, then each batch
    /// of control messages that the space state machine handed out, in the
    /// topic of the chat.
    pub fn add_member(&self, chat_id: ChatId, pubkey: PK, batches: Vec<Vec<SpaceControlMessage>>) -> (r:
        Vec<Draft>)
        ensures
            r@.len() == batches@.len() + 1,
            r@[0].topic == Topic::Inbox(pubkey),
            r@[0].payload == Payload::Invitation(InvitationMessage::JoinGroup(chat_id)),
            forall|i: int|
                0 <= i < batches@.len() ==> (#[trigger] r@[i + 1]).topic == Topic::Chat(chat_id)
                    && r@[i + 1].payload == Payload::SpaceControl(batches@[i]),
    {
        let mut out: Vec<Draft> = Vec::new();
        out.push(
            Draft {
                topic: Topic::Inbox(pubkey),
                payload: Payload::Invitation(InvitationMessage::JoinGroup(chat_id)),
            },
        );
        let mut drafts = space_drafts(chat_id, batches);
        let ghost head = out@;
        let ghost rest = drafts@;
        out.append(&mut drafts);
        assert(out@ == head + rest);
        assert forall|i: int| 0 <= i < batches@.len() implies (#[trigger] out@[i + 1]).topic
            == Topic::Chat(chat_id) && out@[i + 1].payload == Payload::SpaceControl(batches@[i]) by {
            assert(out@[i + 1] == rest[i]);
        }
        out
    }

    /// The bytes that the space of a chat is to encrypt for a message: the
    /// encoding of the text. There are none where the node does not keep the
    /// chat, or where the local actor has been removed from it.
    pub fn send_message(&self, chat_id: ChatId, message: &ChatMessageContent) -> (r: Result<
        Vec<u8>,
        NodeError,
    >)
        requires
            self.wf(),
        ensures
            !self.chats@.contains_key(chat_id) ==> r == Err::<Vec<u8>, NodeError>(
                NodeError::UnknownChat,
            ),
            self.chats@.contains_key(chat_id) && self.chat_model(chat_id).removed ==> r == Err::<
                Vec<u8>,
                NodeError,
            >(NodeError::NotAMember),
            self.chats@.contains_key(chat_id) && !self.chat_model(chat_id).removed ==> match text_cbor(
                message@,
            ) {
                Some(bytes) => r matches Ok(plain) && plain@ == bytes,
                None => r == Err::<Vec<u8>, NodeError>(NodeError::Encode),
            },
    {
        let chat = match self.chats.get(&chat_id) {
            Some(chat) => chat,
            None => {
                return Err(NodeError::UnknownChat);
            },
        };
        if chat.removed {
            return Err(NodeError::NotAMember);
        }
        match message.as_bytes() {
            Ok(plain) => Ok(plain),
            Err(_) => Err(NodeError::Encode),
        }
    }

    /// The message that the user sees for a text that the node has sent:
    /// its author and its time are those of the operation that carried it.
    pub fn sent_message(message: ChatMessageContent, author: PK, timestamp: u64) -> (r: ChatMessage)
        ensures
            r.content == message,
            r.author == author,
            r.timestamp == timestamp,
    {
        ChatMessage { content: message, author, timestamp }
    }

    /// Makes an actor a friend. The caller registers the friend's key
    /// bundle with the space manager, subscribes to the friend's inbox if
    /// `subscribe` says so, and publishes the draft: the invitation to do
    /// the same.
    pub fn add_friend(&mut self, public_key: PK) -> (r: AddedFriend)
        requires
            old(self).wf(),
        ensures
            final(self).wf(),
            final(self).friends@ == old(self).friends@.insert(public_key),
            old(self).friends@.contains(public_key) ==> final(self).friends.items@ == old(self)
                .friends.items@,
            !old(self).friends@.contains(public_key) ==> final(self).friends.items@ == old(self)
                .friends.items@.push(public_key),
            r.public_key == public_key,
            r.subscribe == !old(self).friends@.contains(public_key),
            r.draft.topic == Topic::Inbox(public_key),
            r.draft.payload == Payload::Invitation(InvitationMessage::Friend),
            final(self).op_store == old(self).op_store,
            final(self).chats == old(self).chats,
            final(self).author_store == old(self).author_store,
            final(self).space_dependencies == old(self).space_dependencies,
            final(self).buffer == old(self).buffer,
            final(self).private_key == old(self).private_key,
            final(self).public_key == old(self).public_key,
            final(self).config == old(self).config,
    {
        let subscribe = self.initialize_inbox(&public_key);
        self.friends.insert(public_key);
        AddedFriend {
            public_key,
            subscribe,
            draft: Draft {
                topic: Topic::Inbox(public_key),
                payload: Payload::Invitation(InvitationMessage::Friend),
            },
        }
    }
}

/// What follows from adding a friend.
#[derive(Debug, PartialEq, Eq)]
pub struct AddedFriend {
    pub public_key: PK,
    /// Whether the node is to subscribe to the friend's inbox.
    pub subscribe: bool,
    /// The invitation to publish.
    pub draft: Draft,
}

/// The drafts with which batches of control messages are published in the
/// topic of a chat: one for each batch, in order.
pub fn space_drafts(chat_id: ChatId, batches: Vec<Vec<SpaceControlMessage>>) -> (r: Vec<Draft>)
    ensures
        r@.len() == batches@.len(),
        forall|i: int|
            0 <= i < r@.len() ==> (#[trigger] r@[i]).topic == Topic::Chat(chat_id) && r@[i].payload
                == Payload::SpaceControl(batches@[i]),
{
    let mut batches = batches;
    let ghost all = batches@;
    let n = batches.len();
    let mut out: Vec<Draft> = Vec::new();
    let mut i: usize = 0;
    assert(all.skip(0) =~= all);
    while i < n
        invariant
            n == all.len(),
            i <= n,
            batches@ == all.skip(i as int),
            out@.len() == i,
            forall|j: int|
                0 <= j < i ==> (#[trigger] out@[j]).topic == Topic::Chat(chat_id) && out@[j].payload
                    == Payload::SpaceControl(all[j]),
        decreases n - i,
    {
        let batch = batches.remove(0);
        assert(batch == all[i as int]);
        assert(batches@ =~= all.skip(i + 1));
        out.push(Draft { topic: Topic::Chat(chat_id), payload: Payload::SpaceControl(batch) });
        i += 1;
    }
    out
}

/// What the user sees of a chat in a list of chats.
#[derive(Debug, PartialEq, Eq)]
pub struct ChatOverview {
    pub chat_id: ChatId,
    pub name: String,
    pub member_count: usize,
}

impl ChatOverview {
    /// The overview of a chat with so many members: its name is its
    /// identifier as text.
    pub fn new(chat_id: ChatId, member_count: usize) -> (r: Self)
        ensures
            r.chat_id == chat_id,
            r.name@ == hex_chars(chat_id@),
            r.member_count == member_count,
    {
        ChatOverview { chat_id, name: chat_id.to_string(), member_count }
    }
}

} // verus!
