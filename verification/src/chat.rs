//! Chats: the identifier of a space, and the state that a node keeps for
//! each chat it takes part in.

pub mod message;

use vstd::prelude::*;
use vstd::string::StringSliceAdditionalSpecFns;

use crate::bytes::equal_32;
use crate::chat::message::{lemma_ascending_unique, ChatMessage, MessageKey, MessageSet};
use crate::collections::VecMap;
use crate::crypto::random_32;
use crate::hexcode::{
    hex_chars, hex_decode, hex_decoded, hex_encode, is_hex_text, lemma_hex_chars_bytes,
    lemma_hex_round_trip,
};
use crate::identity::{Ident, PK};

verus! {

/// The identifier of a chat: 32 bytes, chosen at random when the chat is
/// created and never changed.
#[derive(Clone, Copy, Debug, PartialEq, Eq, Hash)]
pub struct ChatId(pub [u8; 32]);

impl View for ChatId {
    type V = Seq<u8>;

    open spec fn view(&self) -> Seq<u8> {
        self.0@
    }
}

/// Why a text is not a chat identifier.
#[derive(Clone, Copy, Debug, PartialEq, Eq, Structural)]
pub enum ChatIdError {
    /// The text is not an even number of hexadecimal digits.
    InvalidHex,
    /// The text stands for this many bytes, not for 32.
    InvalidLength(usize),
}

/// The 32 bytes of a byte string of that length.
fn to_array_32(data: &Vec<u8>) -> (out: [u8; 32])
    requires
        data@.len() == 32,
    ensures
        out@ == data@,
{
    let mut out: [u8; 32] = [0u8; 32];
    let mut i: usize = 0;
    while i < 32
        invariant
            i <= 32,
            data@.len() == 32,
            forall|j: int| 0 <= j < i ==> out@[j] == data@[j],
        decreases 32 - i,
    {
        out[i] = data[i];
        i += 1;
    }
    assert(out@ =~= data@);
    out
}

impl ChatId {
    /// The chat identifier with the given bytes.
    pub fn new(topic_id: [u8; 32]) -> (r: Self)
        ensures
            r.0 == topic_id,
    {
        ChatId(topic_id)
    }

    /// A fresh chat identifier, drawn at random.
    pub fn random() -> (r: Self) {
        ChatId(random_32())
    }

    /// The bytes of the identifier.
    pub fn as_bytes(&self) -> (r: &[u8; 32])
        ensures
            *r == self.0,
    {
        &self.0
    }

    /// The identifier as text: 64 lower-case hexadecimal digits.
    pub fn to_string(&self) -> (r: String)
        ensures
            r@ == hex_chars(self@),
            r@.len() == 64,
    {
        hex_encode(self.0.as_slice())
    }

    /// Reads an identifier from text: 64 hexadecimal digits of either case.
    pub fn from_str(topic: &str) -> (r: Result<Self, ChatIdError>)
        ensures
            r is Ok <==> is_hex_text(topic.spec_bytes()) && topic.spec_bytes().len() == 64,
            r matches Ok(id) ==> id@ == hex_decoded(topic.spec_bytes()),
            r matches Err(e) ==> (e == ChatIdError::InvalidHex <==> !is_hex_text(
                topic.spec_bytes(),
            )),
            r matches Err(ChatIdError::InvalidLength(n)) ==> n == topic.spec_bytes().len() / 2,
    {
        match hex_decode(topic.as_bytes()) {
            Ok(data) => {
                if data.len() == 32 {
                    Ok(ChatId(to_array_32(&data)))
                } else {
                    Err(ChatIdError::InvalidLength(data.len()))
                }
            },
            Err(_) => Err(ChatIdError::InvalidHex),
        }
    }
}

/// Round trip: the text of a chat identifier reads back as the identifier.
pub proof fn lemma_chat_id_round_trip(id: ChatId, text: &str)
    requires
        text@ == hex_chars(id@),
    ensures
        is_hex_text(text.spec_bytes()),
        text.spec_bytes().len() == 64,
        hex_decoded(text.spec_bytes()) == id@,
{
    lemma_hex_chars_bytes(id@);
    lemma_hex_round_trip(id@);
}

impl Ident for ChatId {
    fn same(&self, other: &Self) -> (r: bool) {
        equal_32(&self.0, &other.0)
    }
}

/// What a chat amounts to, whatever the order in which its messages came:
/// the keys of its messages, and whether the local actor has been removed.
pub struct ChatModel {
    pub messages: Set<MessageKey>,
    pub removed: bool,
}

/// What the space state machine can change in a chat.
pub enum Change {
    /// A message was decrypted.
    Message(MessageKey),
    /// The local actor was removed.
    Removed,
}

/// The chat after one change: a message joins the messages, a removal sets
/// the mark, and neither undoes the other.
pub open spec fn step(chat: ChatModel, change: Change) -> ChatModel {
    match change {
        Change::Message(key) => ChatModel { messages: chat.messages.insert(key), removed: chat.removed },
        Change::Removed => ChatModel { messages: chat.messages, removed: true },
    }
}

/// The chat after a sequence of changes.
pub open spec fn run(chat: ChatModel, changes: Seq<Change>) -> ChatModel
    decreases changes.len(),
{
    if changes.len() == 0 {
        chat
    } else {
        step(run(chat, changes.drop_last()), changes.last())
    }
}

/// A sequence of changes leaves in the chat the messages it had and those
/// that came, and the chat is marked as removed if it was or a removal
/// came.
pub proof fn lemma_run(chat: ChatModel, changes: Seq<Change>, key: MessageKey)
    ensures
        run(chat, changes).messages.contains(key) <==> (chat.messages.contains(key)
            || changes.contains(Change::Message(key))),
        run(chat, changes).removed <==> (chat.removed || changes.contains(Change::Removed)),
    decreases changes.len(),
{
    if changes.len() > 0 {
        let front = changes.drop_last();
        let last = changes.last();
        lemma_run(chat, front, key);
        assert(changes[changes.len() - 1] == last);
        let m = Change::Message(key);
        if changes.contains(m) {
            let i = choose|i: int| 0 <= i < changes.len() && changes[i] == m;
            if i < front.len() {
                assert(front[i] == m);
            }
        }
        if front.contains(m) {
            let i = choose|i: int| 0 <= i < front.len() && front[i] == m;
            assert(changes[i] == m);
        }
        if changes.contains(Change::Removed) {
            let i = choose|i: int| 0 <= i < changes.len() && changes[i] == Change::Removed;
            if i < front.len() {
                assert(front[i] == Change::Removed);
            }
        }
        if front.contains(Change::Removed) {
            let i = choose|i: int| 0 <= i < front.len() && front[i] == Change::Removed;
            assert(changes[i] == Change::Removed);
        }
    }
}

/// Eventual consistency: two peers that start from the same chat and see
/// the same changes, in whatever order and however often, end with the same
/// messages and the same mark.
pub proof fn lemma_convergence(chat: ChatModel, first: Seq<Change>, second: Seq<Change>)
    requires
        forall|c: Change| first.contains(c) <==> second.contains(c),
    ensures
        run(chat, first) == run(chat, second),
{
    assert forall|key: MessageKey|
        run(chat, first).messages.contains(key) <==> run(chat, second).messages.contains(key) by {
        lemma_run(chat, first, key);
        lemma_run(chat, second, key);
        assert(first.contains(Change::Message(key)) <==> second.contains(Change::Message(key)));
    }
    assert(run(chat, first).messages =~= run(chat, second).messages);
    let any = MessageKey { timestamp: 0, content: Seq::empty(), author: Seq::empty() };
    lemma_run(chat, first, any);
    lemma_run(chat, second, any);
    assert(first.contains(Change::Removed) <==> second.contains(Change::Removed));
}

/// Removal: once the local actor is removed, no later change brings it
/// back, and every message that the chat held stays.
pub proof fn lemma_removal_is_final(chat: ChatModel, later: Seq<Change>, key: MessageKey)
    ensures
        run(step(chat, Change::Removed), later).removed,
        chat.messages.contains(key) ==> run(step(chat, Change::Removed), later).messages.contains(
            key,
        ),
{
    lemma_run(step(chat, Change::Removed), later, key);
}

/// What a node keeps for a chat: the decrypted messages in their order,
/// how far each author's log has been processed, and whether the node has
/// been removed from the chat.
#[derive(Debug)]
pub struct Chat {
    pub id: ChatId,
    /// The decrypted messages of the chat.
    pub messages: MessageSet,
    /// The last sequence number processed of each author's log.
    pub last_seq_num: VecMap<PK, u64>,
    /// Whether the local actor has been removed from the chat.
    pub removed: bool,
}

impl Chat {
    /// The messages are in order and no author is recorded twice.
    pub open spec fn wf(&self) -> bool {
        &&& self.messages.wf()
        &&& self.last_seq_num.wf()
    }

    /// What the chat amounts to.
    pub open spec fn model(&self) -> ChatModel {
        ChatModel { messages: self.messages@.to_set(), removed: self.removed }
    }

    /// Two chats that amount to the same show the same messages in the same
    /// order.
    pub proof fn lemma_same_messages(&self, other: &Self)
        requires
            self.wf(),
            other.wf(),
            self.model() == other.model(),
        ensures
            self.messages@ == other.messages@,
    {
        let a = self.messages@;
        let b = other.messages@;
        assert forall|k: MessageKey| a.contains(k) <==> b.contains(k) by {
            assert(a.to_set().contains(k) <==> b.to_set().contains(k));
        }
        lemma_ascending_unique(a, b);
    }

    /// A chat without messages, of which the local actor is a member.
    pub fn new(id: ChatId) -> (r: Self)
        ensures
            r.wf(),
            r.id == id,
            r.messages@ == Seq::<MessageKey>::empty(),
            r.messages.items@ == Seq::<ChatMessage>::empty(),
            r.last_seq_num@ == Map::<PK, u64>::empty(),
            !r.removed,
            r.model() == (ChatModel { messages: Set::empty(), removed: false }),
    {
        assert(Seq::<MessageKey>::empty().to_set() =~= Set::<MessageKey>::empty());
        Chat { id, messages: MessageSet::new(), last_seq_num: VecMap::new(), removed: false }
    }

    /// The messages of the chat, in their order.
    pub fn messages(&self) -> (r: Vec<ChatMessage>)
        ensures
            r@ == self.messages.items@,
    {
        self.messages.to_vec()
    }
}

} // verus!
