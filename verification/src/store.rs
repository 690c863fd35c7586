//! The operation store: one append-only log for each author and topic, and
//! lookup of an operation by its hash.

use vstd::prelude::*;

use crate::identity::{Digest, Ident, PK};
use crate::network::Topic;
use crate::operation::Operation;

verus! {

/// The log of one author in one topic: its operations by sequence number.
#[derive(Debug)]
pub struct Log {
    pub author: PK,
    pub topic: Topic,
    pub entries: Vec<Operation>,
}

/// Whether `operation` may follow the operations of `log`: it is valid, its
/// author is the log's, its sequence number is the length of the log, and
/// its backlink is the hash of the last operation, or absent in an empty
/// log.
pub open spec fn follows(log: Seq<Operation>, author: PK, operation: Operation) -> bool {
    &&& operation.valid()
    &&& operation.header.public_key == author
    &&& operation.header.seq_num == log.len()
    &&& (log.len() == 0 ==> operation.header.backlink is None)
    &&& (log.len() > 0 ==> operation.header.backlink == Some(log.last().hash))
}

/// Log integrity: each operation of the log is valid, written by the
/// author, numbered by its position, and linked to the one before it.
pub open spec fn log_integrity(log: Seq<Operation>, author: PK) -> bool {
    forall|k: int| 0 <= k < log.len() ==> follows(log.take(k), author, #[trigger] log[k])
}

impl Log {
    /// The log is not empty and has integrity.
    pub open spec fn wf(&self) -> bool {
        &&& self.entries@.len() > 0
        &&& log_integrity(self.entries@, self.author)
    }
}

/// Append-only: whether every log of `before` is the beginning of the log
/// of the same author and topic in `after`.
pub open spec fn extends(before: OpStore, after: OpStore) -> bool {
    forall|author: PK, topic: Topic| #[trigger]
        before.log_of(author, topic).is_prefix_of(after.log_of(author, topic))
}

/// A store that extends an extension of a store extends that store.
pub proof fn lemma_extends_transitive(first: OpStore, second: OpStore, third: OpStore)
    requires
        extends(first, second),
        extends(second, third),
    ensures
        extends(first, third),
{
    assert forall|author: PK, topic: Topic| #[trigger]
        first.log_of(author, topic).is_prefix_of(third.log_of(author, topic)) by {
        assert(first.log_of(author, topic).is_prefix_of(second.log_of(author, topic)));
        assert(second.log_of(author, topic).is_prefix_of(third.log_of(author, topic)));
    }
}

/// The operations that a node holds.
#[derive(Debug)]
pub struct OpStore {
    pub logs: Vec<Log>,
}

impl OpStore {
    /// Whether `(i, k)` is the place of an operation: log `i`, position `k`.
    pub open spec fn place(&self, i: int, k: int) -> bool {
        0 <= i < self.logs@.len() && 0 <= k < self.logs@[i].entries@.len()
    }

    /// Every log has integrity, there is one log for an author and a topic,
    /// and no hash is stored twice.
    pub open spec fn wf(&self) -> bool {
        &&& forall|i: int| 0 <= i < self.logs@.len() ==> (#[trigger] self.logs@[i]).wf()
        &&& forall|i: int, j: int|
            0 <= i < self.logs@.len() && 0 <= j < self.logs@.len() && i != j ==> !((
            #[trigger] self.logs@[i]).author == (#[trigger] self.logs@[j]).author
                && self.logs@[i].topic == self.logs@[j].topic)
        &&& forall|i: int, k: int, j: int, l: int|
            self.place(i, k) && self.place(j, l) && (#[trigger] self.logs@[i].entries@[k]).hash == (
            #[trigger] self.logs@[j].entries@[l]).hash ==> i == j && k == l
        &&& forall|i: int, k: int|
            self.place(i, k) ==> self.holds_all((#[trigger] self.logs@[i].entries@[k]).header.previous@)
    }

    /// Whether every hash of the list is stored.
    pub open spec fn holds_all(&self, hashes: Seq<Digest>) -> bool {
        forall|p: int| 0 <= p < hashes.len() ==> self.has(#[trigger] hashes[p])
    }

    /// Dependency closure: in a well-formed store, every operation that a
    /// stored operation names in `previous` is stored too.
    pub proof fn lemma_dependency_closure(&self, hash: Digest)
        requires
            self.wf(),
            self.has(hash),
        ensures
            exists|i: int, k: int|
                self.place(i, k) && (#[trigger] self.logs@[i].entries@[k]).hash == hash
                    && self.holds_all(self.logs@[i].entries@[k].header.previous@),
    {
        let (i, k) = choose|i: int, k: int|
            self.place(i, k) && (#[trigger] self.logs@[i].entries@[k]).hash == hash;
        assert(self.holds_all(self.logs@[i].entries@[k].header.previous@));
    }

    /// Whether an operation with the hash is stored.
    pub open spec fn has(&self, hash: Digest) -> bool {
        exists|i: int, k: int| self.place(i, k) && (#[trigger] self.logs@[i].entries@[k]).hash == hash
    }

    /// The operation that is stored under a hash.
    pub open spec fn stored(&self, hash: Digest) -> Operation {
        let (i, k) = choose|i: int, k: int|
            self.place(i, k) && (#[trigger] self.logs@[i].entries@[k]).hash == hash;
        self.logs@[i].entries@[k]
    }

    /// Whether `i` is the log of the author in the topic.
    pub open spec fn is_log(&self, i: int, author: PK, topic: Topic) -> bool {
        0 <= i < self.logs@.len() && self.logs@[i].author == author && self.logs@[i].topic == topic
    }

    /// The log of an author in a topic, in sequence order: empty where the
    /// store holds nothing of it.
    pub open spec fn log_of(&self, author: PK, topic: Topic) -> Seq<Operation> {
        if exists|i: int| self.is_log(i, author, topic) {
            self.logs@[choose|i: int| self.is_log(i, author, topic)].entries@
        } else {
            Seq::empty()
        }
    }

    /// The log at a position is the log of its author and topic.
    pub proof fn lemma_log_at(&self, i: int)
        requires
            self.wf(),
            0 <= i < self.logs@.len(),
        ensures
            self.log_of(self.logs@[i].author, self.logs@[i].topic) == self.logs@[i].entries@,
    {
        let author = self.logs@[i].author;
        let topic = self.logs@[i].topic;
        assert(self.is_log(i, author, topic));
        let j = choose|j: int| self.is_log(j, author, topic);
        assert(j == i);
    }

    /// Log integrity: in a well-formed store, each operation of each log is
    /// numbered by its position, linked by its backlink to the hash of the
    /// operation before it, written by the log's author, and signed by that
    /// author over its encoding without the signature.
    pub proof fn lemma_log_integrity(&self, author: PK, topic: Topic, k: int)
        requires
            self.wf(),
            0 <= k < self.log_of(author, topic).len(),
        ensures
            self.log_of(author, topic)[k].header.seq_num == k,
            self.log_of(author, topic)[k].header.public_key == author,
            k == 0 ==> self.log_of(author, topic)[k].header.backlink is None,
            k > 0 ==> self.log_of(author, topic)[k].header.backlink == Some(
                self.log_of(author, topic)[k - 1].hash,
            ),
            self.log_of(author, topic)[k].signature_ok(),
            self.log_of(author, topic)[k].hash_ok(),
            self.log_of(author, topic)[k].payload_ok(),
    {
        let i = choose|i: int| self.is_log(i, author, topic);
        assert(self.is_log(i, author, topic));
        assert(self.logs@[i].wf());
        let log = self.logs@[i].entries@;
        assert(follows(log.take(k), author, log[k]));
        if k > 0 {
            assert(log.take(k).last() == log[k - 1]);
        }
    }

    /// A store that holds nothing.
    pub fn new() -> (r: Self)
        ensures
            r.wf(),
            r.logs@.len() == 0,
            forall|hash: Digest| !r.has(hash),
            forall|author: PK, topic: Topic| r.log_of(author, topic) == Seq::<Operation>::empty(),
    {
        OpStore { logs: Vec::new() }
    }

    /// Where the log of the author in the topic stands, if there is one.
    fn find_log(&self, author: &PK, topic: &Topic) -> (r: Option<usize>)
        requires
            self.wf(),
        ensures
            r matches Some(i) ==> self.is_log(i as int, *author, *topic) && self.log_of(
                *author,
                *topic,
            ) == self.logs@[i as int].entries@,
            r is None ==> self.log_of(*author, *topic) == Seq::<Operation>::empty()
                && forall|i: int| !self.is_log(i, *author, *topic),
    {
        let mut i: usize = 0;
        while i < self.logs.len()
            invariant
                self.wf(),
                i <= self.logs@.len(),
                forall|j: int| 0 <= j < i ==> !self.is_log(j, *author, *topic),
            decreases self.logs@.len() - i,
        {
            if self.logs[i].author.same(author) && self.logs[i].topic.same(topic) {
                proof {
                    self.lemma_log_at(i as int);
                }
                return Some(i);
            }
            i += 1;
        }
        None
    }

    /// Where the operation with the hash stands, if it is stored.
    fn find_operation(&self, hash: &Digest) -> (r: Option<(usize, usize)>)
        ensures
            r matches Some(at) ==> self.place(at.0 as int, at.1 as int)
                && self.logs@[at.0 as int].entries@[at.1 as int].hash == *hash,
            r is Some <==> self.has(*hash),
    {
        let mut i: usize = 0;
        while i < self.logs.len()
            invariant
                i <= self.logs@.len(),
                forall|a: int, b: int|
                    self.place(a, b) && a < i ==> (#[trigger] self.logs@[a].entries@[b]).hash != *hash,
            decreases self.logs@.len() - i,
        {
            let log = &self.logs[i];
            let mut k: usize = 0;
            while k < log.entries.len()
                invariant
                    i < self.logs@.len(),
                    *log == self.logs@[i as int],
                    k <= log.entries@.len(),
                    forall|b: int| 0 <= b < k ==> (#[trigger] log.entries@[b]).hash != *hash,
                decreases log.entries@.len() - k,
            {
                if log.entries[k].hash.same(hash) {
                    assert(self.place(i as int, k as int));
                    return Some((i, k));
                }
                k += 1;
            }
            i += 1;
        }
        None
    }

    /// Stores an operation at the end of the log of its author in the
    /// topic, unless an operation with its hash is stored already, and says
    /// whether it did. The caller has seen to it that the operation may
    /// follow that log.
    pub fn insert_operation(&mut self, operation: Operation, topic: &Topic) -> (inserted: bool)
        requires
            old(self).wf(),
            follows(
                old(self).log_of(operation.header.public_key, *topic),
                operation.header.public_key,
                operation,
            ),
            old(self).holds_all(operation.header.previous@),
        ensures
            final(self).wf(),
            inserted == !old(self).has(operation.hash),
            inserted ==> final(self).log_of(operation.header.public_key, *topic) == old(self).log_of(
                operation.header.public_key,
                *topic,
            ).push(operation),
            !inserted ==> final(self).log_of(operation.header.public_key, *topic) == old(self)
                .log_of(operation.header.public_key, *topic),
            forall|author: PK, other: Topic|
                !(author == operation.header.public_key && other == *topic)
                    ==> #[trigger] final(self).log_of(author, other) == old(self).log_of(
                    author,
                    other,
                ),
            forall|hash: Digest| #[trigger]
                final(self).has(hash) <==> (old(self).has(hash) || hash == operation.hash),
            extends(*old(self), *final(self)),
    {
        if self.has_operation(&operation.hash) {
            return false;
        }
        let ghost before = *self;
        let ghost op = operation;
        let author = operation.header.public_key;
        match self.find_log(&author, topic) {
            Some(i) => {
                self.logs[i].entries.push(operation);
                proof {
                    let ii = i as int;
                    let old_log = before.logs@[ii].entries@;
                    let new_log = self.logs@[ii].entries@;
                    assert(new_log == old_log.push(op));
                    assert(self.logs@.len() == before.logs@.len());
                    assert(forall|j: int|
                        0 <= j < self.logs@.len() && j != ii ==> self.logs@[j] == before.logs@[j]);
                    assert(self.logs@[ii].author == before.logs@[ii].author);
                    assert(self.logs@[ii].topic == before.logs@[ii].topic);
                    assert(before.logs@[ii].wf());
                    assert forall|k: int| 0 <= k < new_log.len() implies follows(
                        new_log.take(k),
                        author,
                        #[trigger] new_log[k],
                    ) by {
                        if k < old_log.len() {
                            assert(new_log.take(k) =~= old_log.take(k));
                            assert(follows(old_log.take(k), author, old_log[k]));
                        } else {
                            assert(new_log.take(k) =~= old_log);
                        }
                    }
                    assert forall|j: int| 0 <= j < self.logs@.len() implies (
                    #[trigger] self.logs@[j]).wf() by {
                        if j != ii {
                            assert(before.logs@[j].wf());
                        }
                    }
                    assert forall|a: int, b: int, c: int, d: int|
                        self.place(a, b) && self.place(c, d) && (
                        #[trigger] self.logs@[a].entries@[b]).hash == (
                        #[trigger] self.logs@[c].entries@[d]).hash implies a == c && b == d by {
                        let fresh_ab = a == ii && b == old_log.len();
                        let fresh_cd = c == ii && d == old_log.len();
                        if !fresh_ab {
                            assert(before.place(a, b));
                            assert(before.logs@[a].entries@[b] == self.logs@[a].entries@[b]);
                        }
                        if !fresh_cd {
                            assert(before.place(c, d));
                            assert(before.logs@[c].entries@[d] == self.logs@[c].entries@[d]);
                        }
                    }
                    Self::lemma_has_grows(before, *self, ii, op);
                    assert forall|a: int, b: int| self.place(a, b) implies self.holds_all(
                        (#[trigger] self.logs@[a].entries@[b]).header.previous@,
                    ) by {
                        let prev = self.logs@[a].entries@[b].header.previous@;
                        if a == ii && b == self.logs@[ii].entries@.len() - 1 {
                            assert(self.logs@[a].entries@[b] == op);
                            assert(before.holds_all(prev));
                        } else {
                            assert(before.place(a, b));
                            assert(before.logs@[a].entries@[b] == self.logs@[a].entries@[b]);
                            assert(before.holds_all(prev));
                        }
                        assert forall|p: int| 0 <= p < prev.len() implies self.has(
                            #[trigger] prev[p],
                        ) by {
                            assert(before.has(prev[p]));
                        }
                    }
                    assert(self.wf());
                    self.lemma_log_at(ii);
                    Self::lemma_frame(before, *self, ii, op);
                }
            },
            None => {
                let mut entries: Vec<Operation> = Vec::new();
                entries.push(operation);
                self.logs.push(Log { author, topic: *topic, entries });
                proof {
                    let ii = before.logs@.len() as int;
                    let new_log = self.logs@[ii].entries@;
                    assert(new_log =~= Seq::<Operation>::empty().push(op));
                    assert(forall|j: int| 0 <= j < ii ==> self.logs@[j] == before.logs@[j]);
                    assert(new_log.take(0) =~= Seq::<Operation>::empty());
                    assert forall|j: int| 0 <= j < self.logs@.len() implies (
                    #[trigger] self.logs@[j]).wf() by {
                        if j != ii {
                            assert(before.logs@[j].wf());
                        }
                    }
                    assert forall|a: int, c: int|
                        0 <= a < self.logs@.len() && 0 <= c < self.logs@.len() && a != c implies !((
                        #[trigger] self.logs@[a]).author == (#[trigger] self.logs@[c]).author
                            && self.logs@[a].topic == self.logs@[c].topic) by {
                        if a == ii {
                            assert(!before.is_log(c, author, *topic));
                        } else if c == ii {
                            assert(!before.is_log(a, author, *topic));
                        }
                    }
                    assert forall|a: int, b: int, c: int, d: int|
                        self.place(a, b) && self.place(c, d) && (
                        #[trigger] self.logs@[a].entries@[b]).hash == (
                        #[trigger] self.logs@[c].entries@[d]).hash implies a == c && b == d by {
                        if a != ii {
                            assert(before.place(a, b));
                            assert(before.logs@[a].entries@[b] == self.logs@[a].entries@[b]);
                        }
                        if c != ii {
                            assert(before.place(c, d));
                            assert(before.logs@[c].entries@[d] == self.logs@[c].entries@[d]);
                        }
                    }
                    Self::lemma_has_grows(before, *self, ii, op);
                    assert forall|a: int, b: int| self.place(a, b) implies self.holds_all(
                        (#[trigger] self.logs@[a].entries@[b]).header.previous@,
                    ) by {
                        let prev = self.logs@[a].entries@[b].header.previous@;
                        if a == ii && b == self.logs@[ii].entries@.len() - 1 {
                            assert(self.logs@[a].entries@[b] == op);
                            assert(before.holds_all(prev));
                        } else {
                            assert(before.place(a, b));
                            assert(before.logs@[a].entries@[b] == self.logs@[a].entries@[b]);
                            assert(before.holds_all(prev));
                        }
                        assert forall|p: int| 0 <= p < prev.len() implies self.has(
                            #[trigger] prev[p],
                        ) by {
                            assert(before.has(prev[p]));
                        }
                    }
                    assert(self.wf());
                    self.lemma_log_at(ii);
                    Self::lemma_frame(before, *self, ii, op);
                }
            },
        }
        proof {
            assert forall|author: PK, other: Topic| #[trigger]
                before.log_of(author, other).is_prefix_of(self.log_of(author, other)) by {
                if author == op.header.public_key && other == *topic {
                    assert(self.log_of(author, other) == before.log_of(author, other).push(op));
                }
            }
        }
        true
    }

    /// After an insertion at the end of log `i`, the hashes stored are those
    /// stored before and that of the new operation.
    proof fn lemma_has_grows(before: Self, after: Self, i: int, operation: Operation)
        requires
            0 <= i < after.logs@.len(),
            before.logs@.len() == after.logs@.len() || before.logs@.len() == i,
            before.logs@.len() <= after.logs@.len() <= before.logs@.len() + 1,
            forall|j: int| 0 <= j < before.logs@.len() && j != i ==> after.logs@[j] == before.logs@[j],
            i < before.logs@.len() ==> after.logs@[i].entries@ == before.logs@[i].entries@.push(
                operation,
            ),
            i == before.logs@.len() ==> after.logs@[i].entries@ == Seq::<Operation>::empty().push(
                operation,
            ),
        ensures
            forall|hash: Digest| #[trigger]
                after.has(hash) <==> (before.has(hash) || hash == operation.hash),
    {
        assert forall|hash: Digest| #[trigger]
            after.has(hash) <==> (before.has(hash) || hash == operation.hash) by {
            if after.has(hash) {
                let (a, b) = choose|a: int, b: int|
                    after.place(a, b) && (#[trigger] after.logs@[a].entries@[b]).hash == hash;
                if a == i && b == after.logs@[i].entries@.len() - 1 {
                    assert(after.logs@[a].entries@[b] == operation);
                } else {
                    assert(before.place(a, b));
                    assert(before.logs@[a].entries@[b] == after.logs@[a].entries@[b]);
                }
            }
            if before.has(hash) {
                let (a, b) = choose|a: int, b: int|
                    before.place(a, b) && (#[trigger] before.logs@[a].entries@[b]).hash == hash;
                assert(after.place(a, b));
                assert(before.logs@[a].entries@[b] == after.logs@[a].entries@[b]);
            }
            if hash == operation.hash {
                let b = after.logs@[i].entries@.len() - 1;
                assert(after.place(i, b));
                assert(after.logs@[i].entries@[b] == operation);
            }
        }
    }

    /// What an insertion at the end of log `i` leaves as it was: the other
    /// logs.
    proof fn lemma_frame(before: Self, after: Self, i: int, operation: Operation)
        requires
            before.wf(),
            after.wf(),
            0 <= i < after.logs@.len(),
            before.logs@.len() == after.logs@.len() || before.logs@.len() == i,
            before.logs@.len() <= after.logs@.len() <= before.logs@.len() + 1,
            forall|j: int| 0 <= j < before.logs@.len() && j != i ==> after.logs@[j] == before.logs@[j],
            i < before.logs@.len() ==> after.logs@[i].author == before.logs@[i].author
                && after.logs@[i].topic == before.logs@[i].topic && after.logs@[i].entries@
                == before.logs@[i].entries@.push(operation),
            i == before.logs@.len() ==> after.logs@[i].entries@ == Seq::<Operation>::empty().push(
                operation,
            ),
        ensures
            forall|author: PK, topic: Topic|
                !(author == after.logs@[i].author && topic == after.logs@[i].topic)
                    ==> #[trigger] after.log_of(author, topic) == before.log_of(author, topic),
    {
        assert forall|author: PK, topic: Topic|
            !(author == after.logs@[i].author && topic == after.logs@[i].topic)
                implies #[trigger] after.log_of(author, topic) == before.log_of(author, topic) by {
            if exists|j: int| before.is_log(j, author, topic) {
                let j = choose|j: int| before.is_log(j, author, topic);
                assert(after.is_log(j, author, topic));
                before.lemma_log_at(j);
                after.lemma_log_at(j);
            } else {
                if exists|j: int| after.is_log(j, author, topic) {
                    let j = choose|j: int| after.is_log(j, author, topic);
                    assert(before.is_log(j, author, topic));
                }
            }
        }
    }

    /// Whether an operation with the hash is stored.
    pub fn has_operation(&self, hash: &Digest) -> (r: bool)
        ensures
            r == self.has(*hash),
    {
        self.find_operation(hash).is_some()
    }

    /// The operation with the hash, if it is stored.
    pub fn get_operation(&self, hash: &Digest) -> (r: Option<&Operation>)
        requires
            self.wf(),
        ensures
            r is Some <==> self.has(*hash),
            r matches Some(operation) ==> operation.hash == *hash && *operation == self.stored(*hash),
    {
        match self.find_operation(hash) {
            Some((i, k)) => {
                assert(self.place(i as int, k as int));
                proof {
                    let (a, b) = choose|a: int, b: int|
                        self.place(a, b) && (#[trigger] self.logs@[a].entries@[b]).hash == *hash;
                    assert(a == i && b == k);
                }
                Some(&self.logs[i].entries[k])
            },
            None => None,
        }
    }

    /// The last operation of the log of an author in a topic, if the store
    /// holds any.
    pub fn latest_operation(&self, public_key: &PK, topic: &Topic) -> (r: Option<&Operation>)
        requires
            self.wf(),
        ensures
            r is Some <==> self.log_of(*public_key, *topic).len() > 0,
            r matches Some(operation) ==> *operation == self.log_of(*public_key, *topic).last(),
            self.log_of(*public_key, *topic).len() <= usize::MAX,
    {
        match self.find_log(public_key, topic) {
            Some(i) => {
                assert(self.logs@[i as int].wf());
                let log = &self.logs[i];
                let n = log.entries.len();
                Some(&log.entries[n - 1])
            },
            None => None,
        }
    }

    /// The log of an author in a topic from the sequence number `from` on,
    /// or whole without one, in sequence order; `None` where the store
    /// holds nothing of the log.
    pub fn get_log(&self, public_key: &PK, topic: &Topic, from: Option<u64>) -> (r: Option<
        Vec<&Operation>,
    >)
        requires
            self.wf(),
        ensures
            r is Some <==> self.log_of(*public_key, *topic).len() > 0,
            r matches Some(list) ==> {
                let log = self.log_of(*public_key, *topic);
                let start = match from {
                    Some(n) => if n <= log.len() {
                        n as int
                    } else {
                        log.len() as int
                    },
                    None => 0,
                };
                &&& list@.len() == log.len() - start
                &&& forall|k: int| 0 <= k < list@.len() ==> *(#[trigger] list@[k]) == log[start + k]
            },
    {
        match self.find_log(public_key, topic) {
            Some(i) => {
                assert(self.logs@[i as int].wf());
                let log = &self.logs[i];
                let n = log.entries.len();
                let start: usize = match from {
                    Some(f) => if f <= n as u64 {
                        f as usize
                    } else {
                        n
                    },
                    None => 0,
                };
                let mut out: Vec<&Operation> = Vec::new();
                let mut k: usize = start;
                while k < n
                    invariant
                        start <= k <= n,
                        n == log.entries@.len(),
                        out@.len() == k - start,
                        forall|j: int|
                            0 <= j < out@.len() ==> *(#[trigger] out@[j]) == log.entries@[start + j],
                    decreases n - k,
                {
                    out.push(&log.entries[k]);
                    k += 1;
                }
                Some(out)
            },
            None => None,
        }
    }

    /// For a topic, each author of whom the store holds a log in it, with
    /// the sequence number of the last operation of that log.
    pub fn get_log_heights(&self, topic: &Topic) -> (r: Vec<(PK, u64)>)
        requires
            self.wf(),
        ensures
            forall|author: PK, height: u64| #[trigger]
                r@.contains((author, height)) <==> self.log_of(author, *topic).len() == height + 1,
    {
        let mut out: Vec<(PK, u64)> = Vec::new();
        let mut i: usize = 0;
        while i < self.logs.len()
            invariant
                self.wf(),
                i <= self.logs@.len(),
                forall|author: PK, height: u64| #[trigger]
                    out@.contains((author, height)) <==> exists|j: int|
                        0 <= j < i && self.is_log(j, author, *topic) && self.logs@[j].entries@.len()
                            == height + 1,
            decreases self.logs@.len() - i,
        {
            let log = &self.logs[i];
            if log.topic.same(topic) {
                assert(self.logs@[i as int].wf());
                let ghost before = out@;
                let height = (log.entries.len() - 1) as u64;
                out.push((log.author, height));
                proof {
                    assert forall|author: PK, h: u64| #[trigger]
                        out@.contains((author, h)) <==> exists|j: int|
                            0 <= j < i + 1 && self.is_log(j, author, *topic)
                                && self.logs@[j].entries@.len() == h + 1 by {
                        if out@.contains((author, h)) {
                            let p = choose|p: int| 0 <= p < out@.len() && out@[p] == (author, h);
                            if p < before.len() {
                                assert(before[p] == (author, h));
                                assert(before.contains((author, h)));
                            } else {
                                assert(self.is_log(i as int, author, *topic));
                            }
                        }
                        if exists|j: int|
                            0 <= j < i + 1 && self.is_log(j, author, *topic)
                                && self.logs@[j].entries@.len() == h + 1 {
                            let j = choose|j: int|
                                0 <= j < i + 1 && self.is_log(j, author, *topic)
                                    && self.logs@[j].entries@.len() == h + 1;
                            if j < i {
                                assert(before.contains((author, h)));
                                let p = choose|p: int| 0 <= p < before.len() && before[p] == (author, h);
                                assert(out@[p] == (author, h));
                            } else {
                                assert(out@[before.len() as int] == (author, h));
                            }
                        }
                    }
                }
            }
            i += 1;
        }
        proof {
            assert forall|author: PK, height: u64| #[trigger]
                out@.contains((author, height)) <==> self.log_of(author, *topic).len() == height
                    + 1 by {
                if out@.contains((author, height)) {
                    let j = choose|j: int|
                        0 <= j < self.logs@.len() && self.is_log(j, author, *topic)
                            && self.logs@[j].entries@.len() == height + 1;
                    self.lemma_log_at(j);
                }
                if self.log_of(author, *topic).len() == height + 1 {
                    let j = choose|j: int| self.is_log(j, author, *topic);
                    assert(self.is_log(j, author, *topic));
                }
            }
        }
        out
    }
}

} // verus!
