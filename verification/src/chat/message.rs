//! Chat messages, their total order, and the ordered set of the messages of
//! a chat.

use vstd::prelude::*;
use vstd::string::StringSliceAdditionalSpecFns;
use vstd::utf8::encode_utf8;

use crate::bytes::{
    compare_bytes, lemma_lex_irreflexive, lemma_lex_total, lemma_lex_transitive, lex_lt, Order,
};
use crate::identity::PK;
use crate::operation::CodecError;

verus! {

/// The CBOR encoding of a text. `None` where the encoder gives none.
pub uninterp spec fn text_cbor(text: Seq<char>) -> Option<Seq<u8>>;

/// The text that CBOR bytes encode. `None` where the bytes do not encode a
/// text.
pub uninterp spec fn cbor_text(bytes: Seq<u8>) -> Option<Seq<char>>;

/// `p2panda_core::cbor::encode_cbor` on a text: the encoding, which the text
/// determines.
#[verifier::external_body]
fn encode_text(text: &String) -> (r: Result<Vec<u8>, p2panda_core::cbor::EncodeError>)
    ensures
        match r {
            Ok(bytes) => text_cbor(text@) == Some(bytes@),
            Err(_) => text_cbor(text@) is None,
        },
{
    p2panda_core::cbor::encode_cbor(text)
}

/// `p2panda_core::cbor::decode_cbor` to a text: the text, which the bytes
/// determine.
#[verifier::external_body]
fn decode_text(bytes: &[u8]) -> (r: Result<String, p2panda_core::cbor::DecodeError>)
    ensures
        match r {
            Ok(text) => cbor_text(bytes@) == Some(text@),
            Err(_) => cbor_text(bytes@) is None,
        },
{
    p2panda_core::cbor::decode_cbor(bytes)
}

/// The text of a chat message.
#[derive(Clone, Debug, PartialEq, Eq)]
pub struct ChatMessageContent(pub String);

impl View for ChatMessageContent {
    type V = Seq<char>;

    open spec fn view(&self) -> Seq<char> {
        self.0@
    }
}

impl ChatMessageContent {
    /// The content with the given text.
    pub fn from(value: &str) -> (r: Self)
        ensures
            r@ == value@,
    {
        ChatMessageContent(String::from_str(value))
    }

    /// The text.
    pub fn as_str(&self) -> (r: &str)
        ensures
            r@ == self@,
    {
        self.0.as_str()
    }

    /// A copy of the content.
    pub fn duplicate(&self) -> (r: Self)
        ensures
            r == *self,
    {
        ChatMessageContent(self.0.clone())
    }

    /// The content as it is encrypted and sent: the CBOR encoding of the
    /// text.
    pub fn as_bytes(&self) -> (r: Result<Vec<u8>, CodecError>)
        ensures
            match r {
                Ok(bytes) => text_cbor(self@) == Some(bytes@),
                Err(e) => e == CodecError::Encode && text_cbor(self@) is None,
            },
    {
        match encode_text(&self.0) {
            Ok(bytes) => Ok(bytes),
            Err(_) => Err(CodecError::Encode),
        }
    }

    /// The content that decrypted bytes hold.
    pub fn from_bytes(bytes: &[u8]) -> (r: Result<Self, CodecError>)
        ensures
            match r {
                Ok(content) => cbor_text(bytes@) == Some(content@),
                Err(e) => e == CodecError::Decode && cbor_text(bytes@) is None,
            },
    {
        match decode_text(bytes) {
            Ok(text) => Ok(ChatMessageContent(text)),
            Err(_) => Err(CodecError::Decode),
        }
    }
}

/// A chat message as the user sees it.
#[derive(Clone, Debug, PartialEq, Eq)]
pub struct ChatMessage {
    pub content: ChatMessageContent,
    pub author: PK,
    pub timestamp: u64,
}

/// What the order of messages goes by: the time, then the bytes of the
/// text, then the bytes of the author's key.
pub struct MessageKey {
    pub timestamp: u64,
    pub content: Seq<u8>,
    pub author: Seq<u8>,
}

/// The strict order of messages: by time, then by text, then by author.
pub open spec fn key_lt(a: MessageKey, b: MessageKey) -> bool {
    ||| a.timestamp < b.timestamp
    ||| a.timestamp == b.timestamp && lex_lt(a.content, b.content)
    ||| a.timestamp == b.timestamp && a.content == b.content && lex_lt(a.author, b.author)
}

/// No message comes before itself.
pub proof fn lemma_key_irreflexive(a: MessageKey)
    ensures
        !key_lt(a, a),
{
    lemma_lex_irreflexive(a.content);
    lemma_lex_irreflexive(a.author);
}

/// The order of messages is transitive.
pub proof fn lemma_key_transitive(a: MessageKey, b: MessageKey, c: MessageKey)
    requires
        key_lt(a, b),
        key_lt(b, c),
    ensures
        key_lt(a, c),
{
    if a.timestamp == b.timestamp && b.timestamp == c.timestamp {
        if lex_lt(a.content, b.content) && lex_lt(b.content, c.content) {
            lemma_lex_transitive(a.content, b.content, c.content);
        } else if a.content == b.content && b.content == c.content {
            lemma_lex_transitive(a.author, b.author, c.author);
        }
    }
}

/// Two messages have the same key, or one comes before the other.
pub proof fn lemma_key_total(a: MessageKey, b: MessageKey)
    ensures
        a == b || key_lt(a, b) || key_lt(b, a),
{
    lemma_lex_total(a.content, b.content);
    lemma_lex_total(a.author, b.author);
}

/// Whether a sequence of keys ascends strictly.
pub open spec fn ascending(keys: Seq<MessageKey>) -> bool {
    forall|i: int, j: int| 0 <= i < j < keys.len() ==> key_lt(#[trigger] keys[i], #[trigger] keys[j])
}

/// Convergence: two strictly ascending sequences that hold the same keys
/// are the same sequence, whatever the order in which the keys arrived.
pub proof fn lemma_ascending_unique(a: Seq<MessageKey>, b: Seq<MessageKey>)
    requires
        ascending(a),
        ascending(b),
        forall|k: MessageKey| a.contains(k) <==> b.contains(k),
    ensures
        a == b,
    decreases a.len(),
{
    if a.len() == 0 {
        if b.len() > 0 {
            assert(b.contains(b[0]));
            assert(a.contains(b[0]));
        }
        assert(a =~= b);
    } else if b.len() == 0 {
        assert(a.contains(a[0]));
        assert(b.contains(a[0]));
    } else {
        assert(a.contains(a[0]));
        assert(b.contains(a[0]));
        assert(b.contains(b[0]));
        assert(a.contains(b[0]));
        let j = choose|j: int| 0 <= j < b.len() && b[j] == a[0];
        let i = choose|i: int| 0 <= i < a.len() && a[i] == b[0];
        if j > 0 {
            assert(key_lt(b[0], b[j]));
            if i > 0 {
                assert(key_lt(a[0], a[i]));
                lemma_key_transitive(a[0], b[0], a[0]);
            }
            lemma_key_irreflexive(a[0]);
        }
        assert(a[0] == b[0]);
        let ta = a.drop_first();
        let tb = b.drop_first();
        assert forall|k: MessageKey| ta.contains(k) <==> tb.contains(k) by {
            if ta.contains(k) {
                let p = choose|p: int| 0 <= p < ta.len() && ta[p] == k;
                assert(a[p + 1] == k);
                assert(a.contains(k));
                assert(b.contains(k));
                let q = choose|q: int| 0 <= q < b.len() && b[q] == k;
                assert(key_lt(a[0], a[p + 1]));
                lemma_key_irreflexive(k);
                assert(q > 0);
                assert(tb[q - 1] == k);
            }
            if tb.contains(k) {
                let p = choose|p: int| 0 <= p < tb.len() && tb[p] == k;
                assert(b[p + 1] == k);
                assert(b.contains(k));
                assert(a.contains(k));
                let q = choose|q: int| 0 <= q < a.len() && a[q] == k;
                assert(key_lt(b[0], b[p + 1]));
                lemma_key_irreflexive(k);
                assert(q > 0);
                assert(ta[q - 1] == k);
            }
        }
        assert(ascending(ta)) by {
            assert forall|x: int, y: int| 0 <= x < y < ta.len() implies key_lt(
                #[trigger] ta[x],
                #[trigger] ta[y],
            ) by {
                assert(key_lt(a[x + 1], a[y + 1]));
            }
        }
        assert(ascending(tb)) by {
            assert forall|x: int, y: int| 0 <= x < y < tb.len() implies key_lt(
                #[trigger] tb[x],
                #[trigger] tb[y],
            ) by {
                assert(key_lt(b[x + 1], b[y + 1]));
            }
        }
        lemma_ascending_unique(ta, tb);
        assert(a =~= seq![a[0]] + ta);
        assert(b =~= seq![b[0]] + tb);
    }
}

impl ChatMessage {
    /// The key by which the message is ordered and told apart.
    pub open spec fn key(&self) -> MessageKey {
        MessageKey {
            timestamp: self.timestamp,
            content: encode_utf8(self.content@),
            author: self.author@,
        }
    }

    /// A copy of the message.
    pub fn duplicate(&self) -> (r: Self)
        ensures
            r == *self,
    {
        ChatMessage {
            content: self.content.duplicate(),
            author: self.author,
            timestamp: self.timestamp,
        }
    }

    /// How the message stands to another in the order of messages.
    pub fn compare(&self, other: &Self) -> (r: Order)
        ensures
            r == Order::Less <==> key_lt(self.key(), other.key()),
            r == Order::Equal <==> self.key() == other.key(),
            r == Order::Greater <==> key_lt(other.key(), self.key()),
    {
        proof {
            lemma_key_irreflexive(self.key());
            lemma_key_irreflexive(other.key());
            lemma_key_total(self.key(), other.key());
            if key_lt(self.key(), other.key()) && key_lt(other.key(), self.key()) {
                lemma_key_transitive(self.key(), other.key(), self.key());
            }
        }
        if self.timestamp < other.timestamp {
            return Order::Less;
        }
        if self.timestamp > other.timestamp {
            return Order::Greater;
        }
        let by_content = compare_bytes(
            self.content.0.as_str().as_bytes(),
            other.content.0.as_str().as_bytes(),
        );
        match by_content {
            Order::Less => Order::Less,
            Order::Greater => Order::Greater,
            Order::Equal => {
                let by_author = compare_bytes(self.author.0.as_slice(), other.author.0.as_slice());
                proof {
                    if by_author == Order::Equal {
                        assert(self.key().author == other.key().author);
                    }
                }
                by_author
            },
        }
    }
}

/// The messages of a chat: each once, in ascending order.
#[derive(Debug)]
pub struct MessageSet {
    pub items: Vec<ChatMessage>,
}

impl View for MessageSet {
    type V = Seq<MessageKey>;

    open spec fn view(&self) -> Seq<MessageKey> {
        self.items@.map_values(|m: ChatMessage| m.key())
    }
}

impl MessageSet {
    /// The messages ascend strictly, so that none is held twice.
    pub open spec fn wf(&self) -> bool {
        ascending(self@)
    }

    /// The empty set.
    pub fn new() -> (r: Self)
        ensures
            r.wf(),
            r.items@ == Seq::<ChatMessage>::empty(),
            r@ == Seq::<MessageKey>::empty(),
    {
        let r = MessageSet { items: Vec::new() };
        assert(r@ =~= Seq::<MessageKey>::empty());
        r
    }

    /// How many messages the set holds.
    pub fn len(&self) -> (n: usize)
        ensures
            n == self@.len(),
    {
        self.items.len()
    }

    /// Adds a message at its place in the order, unless the set holds a
    /// message with the same key, and says whether it did.
    pub fn insert(&mut self, message: ChatMessage) -> (inserted: bool)
        requires
            old(self).wf(),
        ensures
            final(self).wf(),
            inserted == !old(self)@.contains(message.key()),
            forall|k: MessageKey|
                final(self)@.contains(k) <==> (old(self)@.contains(k) || k == message.key()),
            !inserted ==> final(self).items@ == old(self).items@,
            inserted ==> exists|at: int|
                0 <= at <= old(self).items@.len() && final(self).items@ == #[trigger] old(
                    self,
                ).items@.insert(at, message),
    {
        let ghost before = self.items@;
        let ghost keys = self@;
        let ghost key = message.key();
        let mut i: usize = 0;
        let mut placed = false;
        while i < self.items.len() && !placed
            invariant
                self.items@ == before,
                keys == before.map_values(|m: ChatMessage| m.key()),
                ascending(keys),
                key == message.key(),
                i <= before.len(),
                forall|j: int| 0 <= j < i ==> key_lt(#[trigger] keys[j], key),
                placed ==> i < before.len() && key_lt(key, keys[i as int]),
            decreases before.len() - i, (if placed { 0int } else { 1int }),
        {
            match self.items[i].compare(&message) {
                Order::Less => {
                    i += 1;
                },
                Order::Equal => {
                    proof {
                        assert(keys[i as int] == key);
                        assert(keys.contains(key));
                    }
                    return false;
                },
                Order::Greater => {
                    proof {
                        assert(key_lt(key, keys[i as int]));
                    }
                    placed = true;
                },
            }
        }
        proof {
            assert(i < before.len() ==> key_lt(key, keys[i as int]));
            assert forall|j: int| i <= j < keys.len() implies key_lt(key, #[trigger] keys[j]) by {
                if j > i {
                    assert(key_lt(keys[i as int], keys[j]));
                    lemma_key_transitive(key, keys[i as int], keys[j]);
                }
            }
            if keys.contains(key) {
                let p = choose|p: int| 0 <= p < keys.len() && keys[p] == key;
                lemma_key_irreflexive(key);
            }
        }
        self.items.insert(i, message);
        proof {
            let after = self@;
            assert(after =~= keys.insert(i as int, key));
            assert forall|x: int, y: int| 0 <= x < y < after.len() implies key_lt(
                #[trigger] after[x],
                #[trigger] after[y],
            ) by {
                let x0 = if x < i { x } else { x - 1 };
                let y0 = if y < i { y } else { y - 1 };
                if x == i {
                    assert(after[y] == keys[y0]);
                } else if y == i {
                    assert(after[x] == keys[x0]);
                } else {
                    assert(after[x] == keys[x0]);
                    assert(after[y] == keys[y0]);
                    assert(key_lt(keys[x0], keys[y0]));
                }
            }
            assert forall|k: MessageKey| after.contains(k) <==> (keys.contains(k) || k == key) by {
                if after.contains(k) {
                    let p = choose|p: int| 0 <= p < after.len() && after[p] == k;
                    if p < i {
                        assert(keys[p] == k);
                    } else if p > i {
                        assert(keys[p - 1] == k);
                    }
                }
                if keys.contains(k) {
                    let p = choose|p: int| 0 <= p < keys.len() && keys[p] == k;
                    if p < i {
                        assert(after[p] == k);
                    } else {
                        assert(after[p + 1] == k);
                    }
                }
                assert(after[i as int] == key);
            }
            assert(self.items@ == before.insert(i as int, message));
        }
        true
    }

    /// The messages in ascending order.
    pub fn to_vec(&self) -> (r: Vec<ChatMessage>)
        ensures
            r@ == self.items@,
    {
        let mut out: Vec<ChatMessage> = Vec::new();
        let mut i: usize = 0;
        while i < self.items.len()
            invariant
                i <= self.items@.len(),
                out@ == self.items@.take(i as int),
            decreases self.items@.len() - i,
        {
            out.push(self.items[i].duplicate());
            assert(self.items@.take(i + 1) =~= self.items@.take(i as int).push(self.items@[i as int]));
            i += 1;
        }
        assert(self.items@.take(self.items@.len() as int) =~= self.items@);
        out
    }
}

} // verus!
