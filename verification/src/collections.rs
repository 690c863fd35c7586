//! Small keyed collections held in insertion order: a set and a map whose
//! keys are identifiers. Nothing occurs twice, and what came first stays
//! first.

use vstd::prelude::*;

use crate::identity::Ident;

verus! {

/// Appends a copy of each item of `src` to `dst`, in order.
pub fn extend_copy<T: Copy>(dst: &mut Vec<T>, src: &Vec<T>)
    ensures
        final(dst)@ == old(dst)@ + src@,
{
    let mut i: usize = 0;
    while i < src.len()
        invariant
            i <= src@.len(),
            dst@ == old(dst)@ + src@.take(i as int),
        decreases src@.len() - i,
    {
        dst.push(src[i]);
        assert(src@.take(i + 1) =~= src@.take(i as int).push(src@[i as int]));
        assert(old(dst)@ + src@.take(i + 1) =~= (old(dst)@ + src@.take(i as int)).push(src@[i as int]));
        i += 1;
    }
    assert(src@.take(src@.len() as int) =~= src@);
}

/// A copy of a list of plain values.
pub fn copy_vec<T: Copy>(src: &Vec<T>) -> (r: Vec<T>)
    ensures
        r@ == src@,
{
    let mut out: Vec<T> = Vec::new();
    extend_copy(&mut out, src);
    assert(Seq::<T>::empty() + src@ =~= src@);
    out
}

/// Whether a list holds an identifier.
pub fn list_contains<K: Ident>(list: &Vec<K>, k: &K) -> (r: bool)
    ensures
        r == list@.contains(*k),
{
    let mut i: usize = 0;
    while i < list.len()
        invariant
            i <= list@.len(),
            forall|j: int| 0 <= j < i ==> list@[j] != *k,
        decreases list@.len() - i,
    {
        if list[i].same(k) {
            return true;
        }
        i += 1;
    }
    false
}

/// A set of identifiers, in the order in which they were first added.
#[derive(Debug)]
pub struct VecSet<K> {
    pub items: Vec<K>,
}

impl<K> View for VecSet<K> {
    type V = Set<K>;

    open spec fn view(&self) -> Set<K> {
        self.items@.to_set()
    }
}

impl<K: Ident> VecSet<K> {
    /// No identifier occurs twice.
    pub open spec fn wf(&self) -> bool {
        self.items@.no_duplicates()
    }

    /// The empty set.
    pub fn new() -> (r: Self)
        ensures
            r.wf(),
            r.items@ == Seq::<K>::empty(),
            r@ == Set::<K>::empty(),
    {
        let r = VecSet { items: Vec::new() };
        assert(r.items@.to_set() =~= Set::<K>::empty());
        r
    }

    /// How many identifiers the set holds.
    pub fn len(&self) -> (n: usize)
        ensures
            n == self.items@.len(),
    {
        self.items.len()
    }

    /// Whether the set holds the identifier.
    pub fn contains(&self, k: &K) -> (r: bool)
        ensures
            r == self@.contains(*k),
            r == self.items@.contains(*k),
    {
        let mut i: usize = 0;
        while i < self.items.len()
            invariant
                i <= self.items@.len(),
                forall|j: int| 0 <= j < i ==> self.items@[j] != *k,
            decreases self.items@.len() - i,
        {
            if self.items[i].same(k) {
                return true;
            }
            i += 1;
        }
        false
    }

    /// Adds the identifier, and says whether it was new.
    pub fn insert(&mut self, k: K) -> (added: bool)
        requires
            old(self).wf(),
        ensures
            final(self).wf(),
            final(self)@ == old(self)@.insert(k),
            added == !old(self)@.contains(k),
            added ==> final(self).items@ == old(self).items@.push(k),
            !added ==> final(self).items@ == old(self).items@,
    {
        if self.contains(&k) {
            assert(self@.insert(k) =~= self@);
            false
        } else {
            let ghost before = self.items@;
            self.items.push(k);
            assert(self.items@.to_set() =~= before.to_set().insert(k)) by {
                assert forall|x: K| self.items@.to_set().contains(x) <==> before.to_set().insert(
                    k,
                ).contains(x) by {
                    if self.items@.contains(x) {
                        let j = choose|j: int| 0 <= j < self.items@.len() && self.items@[j] == x;
                        if j < before.len() {
                            assert(before[j] == x);
                        }
                    }
                    if before.contains(x) {
                        let j = choose|j: int| 0 <= j < before.len() && before[j] == x;
                        assert(self.items@[j] == x);
                    }
                    assert(self.items@[before.len() as int] == k);
                }
            }
            true
        }
    }

    /// Takes the identifier out, and says whether it was there.
    pub fn remove(&mut self, k: &K) -> (removed: bool)
        requires
            old(self).wf(),
        ensures
            final(self).wf(),
            final(self)@ == old(self)@.remove(*k),
            removed == old(self)@.contains(*k),
            !removed ==> final(self).items@ == old(self).items@,
            removed ==> final(self).items@ == old(self).items@.remove(old(self).items@.index_of(*k)),
    {
        let mut i: usize = 0;
        while i < self.items.len()
            invariant
                i <= self.items@.len(),
                self.items@ == old(self).items@,
                self.items@.no_duplicates(),
                forall|j: int| 0 <= j < i ==> self.items@[j] != *k,
            decreases self.items@.len() - i,
        {
            if self.items[i].same(k) {
                let ghost before = self.items@;
                self.items.remove(i);
                assert(self.items@ == before.remove(i as int));
                assert(before.index_of(*k) == i) by {
                    let j = before.index_of(*k);
                    assert(before.contains(*k));
                    assert(0 <= j < before.len() && before[j] == *k);
                }
                assert(self.items@.no_duplicates()) by {
                    assert forall|a: int, b: int|
                        0 <= a < self.items@.len() && 0 <= b < self.items@.len() && a != b implies self.items@[a]
                        != self.items@[b] by {
                        let a0 = if a < i { a } else { a + 1 };
                        let b0 = if b < i { b } else { b + 1 };
                        assert(self.items@[a] == before[a0]);
                        assert(self.items@[b] == before[b0]);
                    }
                }
                assert(self.items@.to_set() =~= before.to_set().remove(*k)) by {
                    assert forall|x: K| self.items@.to_set().contains(x) <==> before.to_set().remove(
                        *k,
                    ).contains(x) by {
                        if self.items@.contains(x) {
                            let j = choose|j: int| 0 <= j < self.items@.len() && self.items@[j] == x;
                            if j < i {
                                assert(before[j] == x);
                            } else {
                                assert(before[j + 1] == x);
                            }
                        }
                        if before.contains(x) && x != *k {
                            let j = choose|j: int| 0 <= j < before.len() && before[j] == x;
                            if j < i {
                                assert(self.items@[j] == x);
                            } else {
                                assert(self.items@[j - 1] == x);
                            }
                        }
                        if self.items@.contains(*k) {
                            let j = choose|j: int| 0 <= j < self.items@.len() && self.items@[j] == *k;
                            let j0 = if j < i { j } else { j + 1 };
                            assert(before[j0] == *k);
                            assert(before[i as int] == *k);
                        }
                    }
                }
                return true;
            }
            i += 1;
        }
        assert(self@.remove(*k) =~= self@);
        false
    }
}

/// A map from identifiers to values, in the order in which the keys were
/// first added.
#[derive(Debug)]
pub struct VecMap<K, V> {
    pub keys: Vec<K>,
    pub vals: Vec<V>,
}

impl<K, V> View for VecMap<K, V> {
    type V = Map<K, V>;

    open spec fn view(&self) -> Map<K, V> {
        Map::new(|k: K| self.keys@.contains(k), |k: K| self.vals@[self.keys@.index_of(k)])
    }
}

impl<K: Ident, V> VecMap<K, V> {
    /// Each key has one value, and no key occurs twice.
    pub open spec fn wf(&self) -> bool {
        &&& self.keys@.len() == self.vals@.len()
        &&& self.keys@.no_duplicates()
    }

    /// In a well-formed map the value of the key at a position is the value
    /// at that position.
    pub proof fn lemma_at(&self, i: int)
        requires
            self.wf(),
            0 <= i < self.keys@.len(),
        ensures
            self@.contains_key(self.keys@[i]),
            self@[self.keys@[i]] == self.vals@[i],
            self.keys@.index_of(self.keys@[i]) == i,
    {
        let k = self.keys@[i];
        assert(self.keys@.contains(k));
        let j = self.keys@.index_of(k);
        assert(0 <= j < self.keys@.len() && self.keys@[j] == k);
    }

    /// The empty map.
    pub fn new() -> (r: Self)
        ensures
            r.wf(),
            r.keys@ == Seq::<K>::empty(),
            r.vals@ == Seq::<V>::empty(),
            r@ == Map::<K, V>::empty(),
    {
        let r = VecMap { keys: Vec::new(), vals: Vec::new() };
        assert(r@ =~= Map::<K, V>::empty());
        r
    }

    /// How many keys the map holds.
    pub fn len(&self) -> (n: usize)
        ensures
            n == self.keys@.len(),
    {
        self.keys.len()
    }

    /// Where the key stands, if the map holds it.
    pub fn position(&self, k: &K) -> (r: Option<usize>)
        ensures
            r matches Some(i) ==> i < self.keys@.len() && self.keys@[i as int] == *k,
            r is None ==> !self.keys@.contains(*k),
            r is Some <==> self@.contains_key(*k),
    {
        let mut i: usize = 0;
        while i < self.keys.len()
            invariant
                i <= self.keys@.len(),
                forall|j: int| 0 <= j < i ==> self.keys@[j] != *k,
            decreases self.keys@.len() - i,
        {
            if self.keys[i].same(k) {
                assert(self.keys@.contains(*k));
                return Some(i);
            }
            i += 1;
        }
        None
    }

    /// Whether the map holds the key.
    pub fn contains_key(&self, k: &K) -> (r: bool)
        ensures
            r == self@.contains_key(*k),
    {
        self.position(k).is_some()
    }

    /// The value of the key, if the map holds it.
    pub fn get(&self, k: &K) -> (r: Option<&V>)
        requires
            self.wf(),
        ensures
            r is Some <==> self@.contains_key(*k),
            r matches Some(v) ==> *v == self@[*k],
    {
        match self.position(k) {
            Some(i) => {
                proof {
                    self.lemma_at(i as int);
                }
                Some(&self.vals[i])
            },
            None => None,
        }
    }

    /// Gives the key the value, in place of any value that it had.
    pub fn insert(&mut self, k: K, v: V)
        requires
            old(self).wf(),
        ensures
            final(self).wf(),
            final(self)@ == old(self)@.insert(k, v),
            old(self)@.contains_key(k) ==> final(self).keys@ == old(self).keys@,
            !old(self)@.contains_key(k) ==> final(self).keys@ == old(self).keys@.push(k)
                && final(self).vals@ == old(self).vals@.push(v),
    {
        let ghost before = *self;
        match self.position(&k) {
            Some(i) => {
                self.vals[i] = v;
                assert(self.keys@ == before.keys@);
                assert(self.vals@ == before.vals@.update(i as int, v));
                assert(self@ =~= before@.insert(k, v)) by {
                    assert forall|x: K| self@.contains_key(x) implies #[trigger] self@[x]
                        == before@.insert(k, v)[x] by {
                        let j = self.keys@.index_of(x);
                        assert(0 <= j < self.keys@.len() && self.keys@[j] == x);
                        if x == k {
                            assert(j == i);
                        }
                    }
                }
            },
            None => {
                self.keys.push(k);
                self.vals.push(v);
                assert(self.keys@.no_duplicates());
                assert(self@ =~= before@.insert(k, v)) by {
                    assert forall|x: K| self@.contains_key(x) <==> before@.insert(
                        k,
                        v,
                    ).contains_key(x) by {
                        if self.keys@.contains(x) {
                            let j = choose|j: int| 0 <= j < self.keys@.len() && self.keys@[j] == x;
                            if j < before.keys@.len() {
                                assert(before.keys@[j] == x);
                            }
                        }
                        if before.keys@.contains(x) {
                            let j = choose|j: int|
                                0 <= j < before.keys@.len() && before.keys@[j] == x;
                            assert(self.keys@[j] == x);
                        }
                        assert(self.keys@[before.keys@.len() as int] == k);
                    }
                    assert forall|x: K| self@.contains_key(x) implies #[trigger] self@[x]
                        == before@.insert(k, v)[x] by {
                        let j = self.keys@.index_of(x);
                        assert(0 <= j < self.keys@.len() && self.keys@[j] == x);
                        if x != k {
                            assert(before.keys@[j] == x);
                            before.lemma_at(j);
                        }
                    }
                }
            },
        }
    }
}

} // verus!
