//! Ingest: the checks that an operation passes before it is stored, and the
//! buffer in which operations wait for the operations they depend on.

use vstd::prelude::*;

use crate::collections::list_contains;
use crate::identity::{Digest, PK};
use crate::network::Topic;
use crate::operation::{same_link, Header, Operation};
use crate::store::{extends, follows, OpStore};

verus! {

/// Why an operation is rejected.
#[derive(Clone, Copy, Debug, PartialEq, Eq, Structural)]
pub enum IngestError {
    /// The signature does not verify under the author's key.
    SignatureInvalid,
    /// The body is not the one whose hash and length the header states.
    PayloadHashMismatch,
    /// The operation does not continue its author's log: its sequence
    /// number or its backlink does not fit the last operation stored.
    LogGap,
}

/// How an accepted operation fared.
#[derive(Debug, PartialEq, Eq)]
pub enum IngestResult {
    /// The operation with this hash is stored. `duplicate` says that it was
    /// stored before, so that nothing is left to do for it.
    Complete { hash: Digest, duplicate: bool },
    /// The operation depends on operations that are not stored: it is handed
    /// back with the hashes that are missing.
    Retry { operation: Operation, missing: Vec<Digest> },
}

/// What ingest decides for an operation, before it acts.
pub enum Verdict {
    SignatureInvalid,
    PayloadHashMismatch,
    Duplicate,
    LogGap,
    Retry,
    Insert,
}

/// Whether a header continues a log: its sequence number is the length of
/// the log, and its backlink is the hash of the last operation of the log,
/// or absent where the log is empty.
pub open spec fn continues(log: Seq<Operation>, header: Header) -> bool {
    &&& header.seq_num == log.len()
    &&& (log.len() == 0 ==> header.backlink is None)
    &&& (log.len() > 0 ==> header.backlink == Some(log.last().hash))
}

/// The hashes of a list that the store does not hold, in order.
pub open spec fn missing_from(store: OpStore, hashes: Seq<Digest>) -> Seq<Digest> {
    hashes.filter(|h: Digest| !store.has(h))
}

/// A hash that is reported as missing is not stored.
pub proof fn lemma_missing_is_absent(store: OpStore, hashes: Seq<Digest>, hash: Digest)
    requires
        missing_from(store, hashes).contains(hash),
    ensures
        !store.has(hash),
        hashes.contains(hash),
{
    hashes.lemma_filter_contains_rev(|h: Digest| !store.has(h), hash);
}

/// What ingest decides for an operation: the first check that fails names
/// the verdict; an operation that passes them all is inserted.
pub open spec fn verdict(store: OpStore, operation: Operation, topic: Topic) -> Verdict {
    if !operation.signature_ok() {
        Verdict::SignatureInvalid
    } else if !operation.payload_ok() {
        Verdict::PayloadHashMismatch
    } else if store.has(operation.hash) {
        Verdict::Duplicate
    } else if !continues(store.log_of(operation.header.public_key, topic), operation.header) {
        Verdict::LogGap
    } else if missing_from(store, operation.header.previous@).len() > 0 {
        Verdict::Retry
    } else {
        Verdict::Insert
    }
}

/// The hashes of a list that the store does not hold, in order.
pub fn missing_hashes(store: &OpStore, hashes: &Vec<Digest>) -> (r: Vec<Digest>)
    ensures
        r@ == missing_from(*store, hashes@),
        r@.len() == 0 <==> store.holds_all(hashes@),
{
    let mut out: Vec<Digest> = Vec::new();
    let mut i: usize = 0;
    let ghost absent = |h: Digest| !store.has(h);
    assert(hashes@.take(0) =~= Seq::<Digest>::empty());
    assert(Seq::<Digest>::empty().filter(absent) =~= Seq::<Digest>::empty()) by {
        reveal(Seq::filter);
    }
    while i < hashes.len()
        invariant
            i <= hashes@.len(),
            absent == |h: Digest| !store.has(h),
            out@ == hashes@.take(i as int).filter(absent),
            out@.len() == 0 <==> store.holds_all(hashes@.take(i as int)),
        decreases hashes@.len() - i,
    {
        let ghost prefix = hashes@.take(i as int);
        let present = store.has_operation(&hashes[i]);
        proof {
            assert(hashes@.take(i + 1) =~= prefix.push(hashes@[i as int]));
            Seq::lemma_filter_push(prefix, hashes@[i as int], absent);
            if store.holds_all(hashes@.take(i + 1)) {
                assert forall|p: int| 0 <= p < prefix.len() implies store.has(#[trigger] prefix[p]) by {
                    assert(hashes@.take(i + 1)[p] == prefix[p]);
                }
                assert(hashes@.take(i + 1)[i as int] == hashes@[i as int]);
            }
            if store.holds_all(prefix) && present {
                assert forall|p: int| 0 <= p < i + 1 implies store.has(
                    #[trigger] hashes@.take(i + 1)[p],
                ) by {
                    if p < i {
                        assert(prefix[p] == hashes@.take(i + 1)[p]);
                    }
                }
            }
        }
        if !present {
            out.push(hashes[i]);
        }
        i += 1;
    }
    assert(hashes@.take(hashes@.len() as int) =~= hashes@);
    out
}

/// Checks an operation and stores it.
///
/// The signature is verified, then the hash and the length of the body. An
/// operation whose hash is stored already is complete at once. Otherwise the
/// operation must continue its author's log in the topic, and every
/// operation it names in `previous` must be stored: if some are not, the
/// operation comes back with the missing hashes and the store is left as it
/// was.
pub fn ingest(
    store: &mut OpStore,
    header: Header,
    header_bytes: Vec<u8>,
    unsigned_bytes: Vec<u8>,
    body: Option<Vec<u8>>,
    topic: &Topic,
) -> (r: Result<IngestResult, IngestError>)
    requires
        old(store).wf(),
    ensures
        final(store).wf(),
        exists|operation: Operation|
            {
                &&& operation.header == header
                &&& operation.header_bytes == header_bytes
                &&& operation.unsigned_bytes == unsigned_bytes
                &&& operation.body == body
                &&& operation.hash_ok()
                &&& #[trigger] outcome(*old(store), *final(store), operation, *topic, r)
            },
        r matches Ok(IngestResult::Complete { hash, .. }) ==> final(store).has(hash),
        r is Err ==> *final(store) == *old(store),
        r matches Ok(IngestResult::Retry { .. }) ==> *final(store) == *old(store),
        r matches Ok(IngestResult::Retry { operation, missing }) ==> operation.header == header
            && missing@ == missing_from(*old(store), header.previous@),
        forall|hash: Digest| old(store).has(hash) ==> final(store).has(hash),
        extends(*old(store), *final(store)),
{
    let operation = Operation::new(header, header_bytes, unsigned_bytes, body);
    let ghost op = operation;
    let r = ingest_operation(store, operation, topic);
    assert(outcome(*old(store), *store, op, *topic, r));
    r
}

/// How the store and the result stand to the verdict on an operation.
pub open spec fn outcome(
    before: OpStore,
    after: OpStore,
    operation: Operation,
    topic: Topic,
    r: Result<IngestResult, IngestError>,
) -> bool {
    match verdict(before, operation, topic) {
        Verdict::SignatureInvalid => r == Err::<IngestResult, IngestError>(
            IngestError::SignatureInvalid,
        ) && after == before,
        Verdict::PayloadHashMismatch => r == Err::<IngestResult, IngestError>(
            IngestError::PayloadHashMismatch,
        ) && after == before,
        Verdict::LogGap => r == Err::<IngestResult, IngestError>(IngestError::LogGap) && after
            == before,
        Verdict::Duplicate => r == Ok::<IngestResult, IngestError>(
            IngestResult::Complete { hash: operation.hash, duplicate: true },
        ) && after == before,
        Verdict::Retry => after == before && (r matches Ok(IngestResult::Retry {
            operation: parked,
            missing,
        }) && parked == operation && missing@ == missing_from(before, operation.header.previous@)),
        Verdict::Insert => {
            &&& r == Ok::<IngestResult, IngestError>(
                IngestResult::Complete { hash: operation.hash, duplicate: false },
            )
            &&& after.log_of(operation.header.public_key, topic) == before.log_of(
                operation.header.public_key,
                topic,
            ).push(operation)
            &&& forall|author: PK, other: Topic|
                !(author == operation.header.public_key && other == topic)
                    ==> #[trigger] after.log_of(author, other) == before.log_of(author, other)
            &&& forall|hash: Digest| #[trigger]
                after.has(hash) <==> (before.has(hash) || hash == operation.hash)
        },
    }
}

/// Checks an operation whose hash is that of its encoded header, and stores
/// it: see [`ingest`].
pub fn ingest_operation(store: &mut OpStore, operation: Operation, topic: &Topic) -> (r: Result<
    IngestResult,
    IngestError,
>)
    requires
        old(store).wf(),
        operation.hash_ok(),
    ensures
        final(store).wf(),
        outcome(*old(store), *final(store), operation, *topic, r),
        r matches Ok(IngestResult::Complete { hash, .. }) ==> final(store).has(hash),
        r is Err ==> *final(store) == *old(store),
        r matches Ok(IngestResult::Retry { .. }) ==> *final(store) == *old(store),
        r matches Ok(IngestResult::Retry { operation: parked, missing }) ==> parked == operation
            && missing@ == missing_from(*old(store), operation.header.previous@),
        forall|hash: Digest| old(store).has(hash) ==> final(store).has(hash),
        extends(*old(store), *final(store)),
{
    if !operation.verify() {
        return Err(IngestError::SignatureInvalid);
    }
    if !operation.check_payload() {
        return Err(IngestError::PayloadHashMismatch);
    }
    if store.has_operation(&operation.hash) {
        return Ok(IngestResult::Complete { hash: operation.hash, duplicate: true });
    }
    let author = operation.header.public_key;
    let ghost log = store.log_of(author, *topic);
    let fits = match store.latest_operation(&author, topic) {
        Some(latest) => {
            proof {
                store.lemma_log_integrity(author, *topic, log.len() - 1);
            }
            latest.header.seq_num < u64::MAX && operation.header.seq_num == latest.header.seq_num
                + 1 && same_link(&operation.header.backlink, &Some(latest.hash))
        },
        None => operation.header.seq_num == 0 && operation.header.backlink.is_none(),
    };
    assert(fits == continues(log, operation.header));
    if !fits {
        return Err(IngestError::LogGap);
    }
    let missing = missing_hashes(store, &operation.header.previous);
    if missing.len() > 0 {
        return Ok(IngestResult::Retry { operation, missing });
    }
    let hash = operation.hash;
    assert(follows(log, author, operation));
    store.insert_operation(operation, topic);
    Ok(IngestResult::Complete { hash, duplicate: false })
}

/// An operation that waits for others, with the topic it came in and the
/// hashes that were missing when it was parked.
#[derive(Debug)]
pub struct Parked {
    pub operation: Operation,
    pub topic: Topic,
    pub missing: Vec<Digest>,
}

/// The operations that wait for the operations they depend on: at most
/// `capacity` of them, the oldest first.
#[derive(Debug)]
pub struct DependencyBuffer {
    pub parked: Vec<Parked>,
    pub capacity: usize,
}

/// Whether a parked operation waits for the hash.
pub open spec fn awaits(entry: Parked, hash: Digest) -> bool {
    entry.missing@.contains(hash)
}

impl DependencyBuffer {
    /// The buffer holds no more than its capacity.
    pub open spec fn wf(&self) -> bool {
        self.parked@.len() <= self.capacity
    }

    /// An empty buffer for at most `capacity` operations.
    pub fn new(capacity: usize) -> (r: Self)
        ensures
            r.wf(),
            r.capacity == capacity,
            r.parked@.len() == 0,
    {
        DependencyBuffer { parked: Vec::new(), capacity }
    }

    /// How many operations wait.
    pub fn len(&self) -> (n: usize)
        ensures
            n == self.parked@.len(),
    {
        self.parked.len()
    }

    /// Parks an operation behind those that wait already. Where the buffer
    /// is full, the oldest entry leaves to make room and is handed back; a
    /// buffer without capacity hands the new entry back.
    pub fn park(&mut self, entry: Parked) -> (dropped: Option<Parked>)
        requires
            old(self).wf(),
        ensures
            final(self).wf(),
            final(self).capacity == old(self).capacity,
            old(self).capacity == 0 ==> dropped == Some(entry) && final(self).parked@ == old(
                self,
            ).parked@,
            old(self).capacity > 0 && old(self).parked@.len() < old(self).capacity ==> dropped
                is None && final(self).parked@ == old(self).parked@.push(entry),
            old(self).capacity > 0 && old(self).parked@.len() == old(self).capacity ==> dropped
                == Some(old(self).parked@[0]) && final(self).parked@ == old(
                self,
            ).parked@.drop_first().push(entry),
    {
        if self.capacity == 0 {
            return Some(entry);
        }
        if self.parked.len() < self.capacity {
            self.parked.push(entry);
            None
        } else {
            let oldest = self.parked.remove(0);
            assert(self.parked@ =~= old(self).parked@.drop_first());
            self.parked.push(entry);
            Some(oldest)
        }
    }

    /// Takes out the operations that wait for the hash, the oldest first.
    /// The others stay, in their order.
    pub fn take_awaiting(&mut self, hash: &Digest) -> (ready: Vec<Parked>)
        requires
            old(self).wf(),
        ensures
            final(self).wf(),
            final(self).capacity == old(self).capacity,
            ready@ == old(self).parked@.filter(|e: Parked| awaits(e, *hash)),
            final(self).parked@ == old(self).parked@.filter(|e: Parked| !awaits(e, *hash)),
            ready@.len() + final(self).parked@.len() == old(self).parked@.len(),
    {
        let ghost all = self.parked@;
        let ghost yes = |e: Parked| awaits(e, *hash);
        let ghost no = |e: Parked| !awaits(e, *hash);
        let mut ready: Vec<Parked> = Vec::new();
        let mut kept: Vec<Parked> = Vec::new();
        let mut rest: Vec<Parked> = Vec::new();
        std::mem::swap(&mut self.parked, &mut rest);
        let n = rest.len();
        let mut i: usize = 0;
        proof {
            reveal(Seq::filter);
            assert(all.take(0) =~= Seq::<Parked>::empty());
            assert(all.skip(0) =~= all);
        }
        while i < n
            invariant
                n == all.len(),
                i <= n,
                yes == |e: Parked| awaits(e, *hash),
                no == |e: Parked| !awaits(e, *hash),
                rest@ == all.skip(i as int),
                ready@ == all.take(i as int).filter(yes),
                kept@ == all.take(i as int).filter(no),
                ready@.len() + kept@.len() == i,
                self.capacity == old(self).capacity,
                n <= self.capacity,
            decreases n - i,
        {
            let ghost prefix = all.take(i as int);
            let entry = rest.remove(0);
            assert(entry == all[i as int]);
            assert(rest@ =~= all.skip(i + 1));
            proof {
                assert(all.take(i + 1) =~= prefix.push(all[i as int]));
                Seq::lemma_filter_push(prefix, all[i as int], yes);
                Seq::lemma_filter_push(prefix, all[i as int], no);
            }
            if list_contains(&entry.missing, hash) {
                ready.push(entry);
            } else {
                kept.push(entry);
            }
            i += 1;
        }
        assert(all.take(n as int) =~= all);
        self.parked = kept;
        ready
    }
}

} // verus!
