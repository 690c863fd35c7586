//! Topics, and the record of whose logs a node holds for each topic.

use vstd::prelude::*;

use crate::chat::ChatId;
use crate::collections::{VecMap, VecSet};
use crate::identity::{Ident, PK};

verus! {

/// What a gossip channel and a log are about: a chat, or the inbox of one
/// actor.
#[derive(Clone, Copy, Debug, PartialEq, Eq, Hash)]
pub enum Topic {
    Chat(ChatId),
    Inbox(PK),
}

/// A log is named by the topic it belongs to.
pub type LogId = Topic;

impl Topic {
    /// The 32 bytes by which the network knows the topic: those of the chat
    /// identifier, or those of the inbox owner's key.
    pub open spec fn id_spec(&self) -> Seq<u8> {
        match *self {
            Topic::Chat(chat_id) => chat_id@,
            Topic::Inbox(public_key) => public_key@,
        }
    }

    /// The 32 bytes by which the network knows the topic.
    pub fn id(&self) -> (r: [u8; 32])
        ensures
            r@ == self.id_spec(),
    {
        match self {
            Topic::Chat(chat_id) => chat_id.0,
            Topic::Inbox(public_key) => public_key.0,
        }
    }
}

impl From<ChatId> for Topic {
    fn from(chat_id: ChatId) -> (r: Self) {
        Topic::Chat(chat_id)
    }
}

impl vstd::std_specs::convert::FromSpecImpl<ChatId> for Topic {
    open spec fn obeys_from_spec() -> bool {
        true
    }

    open spec fn from_spec(chat_id: ChatId) -> Self {
        Topic::Chat(chat_id)
    }
}

impl From<PK> for Topic {
    fn from(public_key: PK) -> (r: Self) {
        Topic::Inbox(public_key)
    }
}

impl vstd::std_specs::convert::FromSpecImpl<PK> for Topic {
    open spec fn obeys_from_spec() -> bool {
        true
    }

    open spec fn from_spec(public_key: PK) -> Self {
        Topic::Inbox(public_key)
    }
}

impl Ident for Topic {
    fn same(&self, other: &Self) -> (r: bool) {
        match (self, other) {
            (Topic::Chat(a), Topic::Chat(b)) => a.same(b),
            (Topic::Inbox(a), Topic::Inbox(b)) => a.same(b),
            _ => false,
        }
    }
}

/// For each topic, the authors whose logs the node holds.
#[derive(Debug)]
pub struct AuthorStore {
    pub topics: VecMap<Topic, VecSet<PK>>,
}

impl View for AuthorStore {
    type V = Map<Topic, Set<PK>>;

    open spec fn view(&self) -> Map<Topic, Set<PK>> {
        Map::new(|t: Topic| self.topics@.contains_key(t), |t: Topic| self.topics@[t]@)
    }
}

impl AuthorStore {
    /// No topic and no author of a topic is recorded twice.
    pub open spec fn wf(&self) -> bool {
        &&& self.topics.wf()
        &&& forall|i: int| 0 <= i < self.topics.vals@.len() ==> (#[trigger] self.topics.vals@[i]).wf()
    }

    /// The authors recorded for a topic: none where the topic is unknown.
    pub open spec fn authors_of(&self, topic: Topic) -> Set<PK> {
        if self@.contains_key(topic) {
            self@[topic]
        } else {
            Set::empty()
        }
    }

    /// A store that knows no topic.
    pub fn new() -> (r: Self)
        ensures
            r.wf(),
            r@ == Map::<Topic, Set<PK>>::empty(),
    {
        let r = AuthorStore { topics: VecMap::new() };
        assert(r@ =~= Map::<Topic, Set<PK>>::empty());
        r
    }

    /// Records an author under a topic. Every other topic keeps its authors.
    pub fn add_author(&mut self, topic: Topic, public_key: PK)
        requires
            old(self).wf(),
        ensures
            final(self).wf(),
            final(self)@ == old(self)@.insert(topic, old(self).authors_of(topic).insert(public_key)),
    {
        let ghost before = *self;
        match self.topics.position(&topic) {
            Some(i) => {
                proof {
                    before.topics.lemma_at(i as int);
                }
                let added = self.topics.vals[i].insert(public_key);
                proof {
                    assert(self.topics.keys@ == before.topics.keys@);
                    assert(self.topics.vals@ == before.topics.vals@.update(
                        i as int,
                        self.topics.vals@[i as int],
                    ));
                    assert forall|j: int| 0 <= j < self.topics.vals@.len() implies (
                    #[trigger] self.topics.vals@[j]).wf() by {
                        if j != i {
                            assert(before.topics.vals@[j].wf());
                        }
                    }
                    self.topics.lemma_at(i as int);
                    assert forall|t: Topic| self@.contains_key(t) implies #[trigger] self@[t]
                        == before@.insert(topic, before.authors_of(topic).insert(public_key))[t] by {
                        let j = self.topics.keys@.index_of(t);
                        assert(0 <= j < self.topics.keys@.len() && self.topics.keys@[j] == t);
                        self.topics.lemma_at(j);
                        before.topics.lemma_at(j);
                    }
                    assert(self@ =~= before@.insert(
                        topic,
                        before.authors_of(topic).insert(public_key),
                    ));
                }
            },
            None => {
                let mut authors: VecSet<PK> = VecSet::new();
                authors.insert(public_key);
                let ghost fresh = authors;
                self.topics.insert(topic, authors);
                proof {
                    assert(self.topics.vals@ == before.topics.vals@.push(fresh));
                    assert forall|j: int| 0 <= j < self.topics.vals@.len() implies (
                    #[trigger] self.topics.vals@[j]).wf() by {
                        if j < before.topics.vals@.len() {
                            assert(before.topics.vals@[j].wf());
                        }
                    }
                    assert(self@ =~= before@.insert(
                        topic,
                        before.authors_of(topic).insert(public_key),
                    ));
                }
            },
        }
    }

    /// The authors recorded for a topic, in the order in which they were
    /// first seen; `None` where the topic is unknown.
    pub fn authors(&self, topic: &Topic) -> (r: Option<Vec<PK>>)
        requires
            self.wf(),
        ensures
            r is Some <==> self@.contains_key(*topic),
            r matches Some(list) ==> list@.no_duplicates() && list@.to_set() == self@[*topic],
    {
        match self.topics.position(topic) {
            Some(i) => {
                proof {
                    self.topics.lemma_at(i as int);
                    assert(self.topics.vals@[i as int].wf());
                }
                let set = &self.topics.vals[i];
                let mut out: Vec<PK> = Vec::new();
                let mut j: usize = 0;
                while j < set.items.len()
                    invariant
                        j <= set.items@.len(),
                        out@ == set.items@.take(j as int),
                    decreases set.items@.len() - j,
                {
                    out.push(set.items[j]);
                    assert(set.items@.take(j + 1) =~= set.items@.take(j as int).push(
                        set.items@[j as int],
                    ));
                    j += 1;
                }
                assert(set.items@.take(set.items@.len() as int) =~= set.items@);
                Some(out)
            },
            None => None,
        }
    }

    /// What the sync protocol is told for a topic: each author whose log is
    /// held, with the one log that holds all of that author's operations in
    /// the topic. An unknown topic has no logs.
    pub fn get(&self, topic: &Topic) -> (r: Option<Vec<(PK, Vec<LogId>)>>)
        requires
            self.wf(),
        ensures
            r matches Some(logs) && logs@.len() == self.authors_of(*topic).len()
                && logs@.map_values(|e: (PK, Vec<LogId>)| e.0).no_duplicates()
                && logs@.map_values(|e: (PK, Vec<LogId>)| e.0).to_set() == self.authors_of(*topic)
                && forall|i: int| 0 <= i < logs@.len() ==> (#[trigger] logs@[i]).1@ == seq![*topic],
    {
        let mut out: Vec<(PK, Vec<LogId>)> = Vec::new();
        match self.authors(topic) {
            Some(list) => {
                let mut j: usize = 0;
                while j < list.len()
                    invariant
                        j <= list@.len(),
                        out@.len() == j,
                        out@.map_values(|e: (PK, Vec<LogId>)| e.0) == list@.take(j as int),
                        forall|i: int| 0 <= i < out@.len() ==> (#[trigger] out@[i]).1@ == seq![*topic],
                    decreases list@.len() - j,
                {
                    let mut logs: Vec<LogId> = Vec::new();
                    logs.push(*topic);
                    let ghost prev = out@;
                    out.push((list[j], logs));
                    proof {
                        assert(out@.map_values(|e: (PK, Vec<LogId>)| e.0) =~= prev.map_values(
                            |e: (PK, Vec<LogId>)| e.0,
                        ).push(list@[j as int]));
                        assert(list@.take(j + 1) =~= list@.take(j as int).push(list@[j as int]));
                    }
                    j += 1;
                }
                proof {
                    assert(list@.take(list@.len() as int) =~= list@);
                    list@.unique_seq_to_set();
                }
            },
            None => {
                proof {
                    assert(out@.map_values(|e: (PK, Vec<LogId>)| e.0) =~= Seq::<PK>::empty());
                    assert(Seq::<PK>::empty().to_set() =~= Set::<PK>::empty());
                }
            },
        }
        Some(out)
    }
}

} // verus!
