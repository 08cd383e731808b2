//! A small map for tables whose keys are identifiers or pairs of them.

use vstd::prelude::*;

verus! {

/// What can serve as a key: a value that stands for a mathematical one and
/// can be compared by it.
pub trait Key: Sized {
    /// The mathematical value of a key.
    type Id;

    /// The mathematical value of `self`.
    spec fn id(&self) -> Self::Id;

    /// Whether two keys stand for the same value.
    fn same(&self, other: &Self) -> (b: bool)
        ensures
            b == (self.id() == other.id()),
    ;
}

impl Key for String {
    type Id = Seq<char>;

    open spec fn id(&self) -> Seq<char> {
        self@
    }

    fn same(&self, other: &Self) -> (b: bool) {
        *self == *other
    }
}

impl Key for (String, String) {
    type Id = (Seq<char>, Seq<char>);

    open spec fn id(&self) -> (Seq<char>, Seq<char>) {
        (self.0@, self.1@)
    }

    fn same(&self, other: &Self) -> (b: bool) {
        self.0 == other.0 && self.1 == other.1
    }
}

impl Key for (String, String, String) {
    type Id = (Seq<char>, Seq<char>, Seq<char>);

    open spec fn id(&self) -> (Seq<char>, Seq<char>, Seq<char>) {
        (self.0@, self.1@, self.2@)
    }

    fn same(&self, other: &Self) -> (b: bool) {
        self.0 == other.0 && self.1 == other.1 && self.2 == other.2
    }
}

impl Key for (String, u64) {
    type Id = (Seq<char>, u64);

    open spec fn id(&self) -> (Seq<char>, u64) {
        (self.0@, self.1)
    }

    fn same(&self, other: &Self) -> (b: bool) {
        self.0 == other.0 && self.1 == other.1
    }
}

impl Key for u64 {
    type Id = u64;

    open spec fn id(&self) -> u64 {
        *self
    }

    fn same(&self, other: &Self) -> (b: bool) {
        *self == *other
    }
}

/// A map from keys to values, kept as two parallel lists in the order in
/// which the keys were first inserted.
pub struct KeyMap<K: Key, V> {
    keys: Vec<K>,
    vals: Vec<V>,
}

/// A map keyed by one identifier.
pub type StrMap<V> = KeyMap<String, V>;

/// A map keyed by a pair of identifiers.
pub type PairMap<V> = KeyMap<(String, String), V>;

impl<K: Key, V> KeyMap<K, V> {
    /// The lists are equally long and no key occurs twice.
    pub closed spec fn wf(&self) -> bool {
        &&& self.keys@.len() == self.vals@.len()
        &&& forall|i: int, j: int|
            0 <= i < j < self.keys@.len() ==> self.keys@[i].id() != self.keys@[j].id()
    }

    /// The keys, in insertion order.
    pub closed spec fn key_seq(&self) -> Seq<K::Id> {
        Seq::new(self.keys@.len(), |i: int| self.keys@[i].id())
    }

    /// The values, each at the index of its key in `key_seq`.
    pub closed spec fn val_seq(&self) -> Seq<V> {
        self.vals@
    }

    /// Whether `key` is present.
    pub open spec fn has(&self, key: K::Id) -> bool {
        self.key_seq().contains(key)
    }

    /// The value under `key`; meaningful where `has(key)`.
    pub open spec fn at(&self, key: K::Id) -> V {
        self.val_seq()[self.key_seq().index_of(key)]
    }

    /// The contents as a mathematical map.
    pub open spec fn view(&self) -> Map<K::Id, V> {
        Map::new(|k: K::Id| self.has(k), |k: K::Id| self.at(k))
    }

    /// What `wf` says, over the two public sequences.
    pub proof fn wf_facts(&self)
        requires
            self.wf(),
        ensures
            self.key_seq().len() == self.val_seq().len(),
            self.key_seq().no_duplicates(),
            forall|i: int|
                0 <= i < self.key_seq().len() ==> #[trigger] self.has(self.key_seq()[i])
                    && self.at(self.key_seq()[i]) == self.val_seq()[i],
    {
        let ks = self.key_seq();
        assert(ks.len() == self.keys@.len());
        assert forall|i: int, j: int| 0 <= i < ks.len() && 0 <= j < ks.len() && i != j implies ks[i]
            != ks[j] by {
            assert(ks[i] == self.keys@[i].id());
            assert(ks[j] == self.keys@[j].id());
            if i < j {
            } else {
                assert(self.keys@[j].id() != self.keys@[i].id());
            }
        }
        assert forall|i: int| 0 <= i < ks.len() implies #[trigger] self.has(ks[i]) && self.at(ks[i])
            == self.val_seq()[i] by {
            assert(ks.contains(ks[i]));
            ks.index_of_first_ensures(ks[i]);
            let j = ks.index_of(ks[i]);
            assert(0 <= j < ks.len() && ks[j] == ks[i]);
            assert(j == i);
        }
    }

    /// An empty map.
    pub fn new() -> (r: Self)
        ensures
            r.wf(),
            r@ == Map::<K::Id, V>::empty(),
            r.key_seq() == Seq::<K::Id>::empty(),
            r.val_seq() == Seq::<V>::empty(),
    {
        let r = KeyMap { keys: Vec::new(), vals: Vec::new() };
        assert(r.key_seq() =~= Seq::<K::Id>::empty());
        assert(r@ =~= Map::<K::Id, V>::empty());
        r
    }

    /// The number of keys.
    pub fn len(&self) -> (n: usize)
        requires
            self.wf(),
        ensures
            n == self.key_seq().len(),
            n == self@.dom().len(),
            self@.dom().finite(),
    {
        proof {
            self.dom_is_key_set();
            self.wf_facts();
            self.key_seq().unique_seq_to_set();
        }
        self.keys.len()
    }

    /// The domain of the map is the set of the listed keys.
    pub proof fn dom_is_key_set(&self)
        ensures
            self@.dom() == self.key_seq().to_set(),
    {
        assert(self@.dom() =~= self.key_seq().to_set());
    }

    /// The index of `key` among the keys, if it is present.
    fn find(&self, key: &K) -> (r: Option<usize>)
        requires
            self.wf(),
        ensures
            match r {
                Some(i) => i < self.key_seq().len() && self.key_seq()[i as int] == key.id()
                    && self.key_seq().index_of(key.id()) == i,
                None => !self.has(key.id()),
            },
    {
        let mut i: usize = 0;
        while i < self.keys.len()
            invariant
                self.wf(),
                i <= self.keys@.len(),
                forall|j: int| 0 <= j < i ==> self.key_seq()[j] != key.id(),
            decreases self.keys@.len() - i,
        {
            if self.keys[i].same(key) {
                proof {
                    self.wf_facts();
                    let ks = self.key_seq();
                    assert(ks[i as int] == self.keys@[i as int].id());
                    assert(ks.contains(key.id()));
                    ks.index_of_first_ensures(key.id());
                }
                return Some(i);
            }
            i += 1;
        }
        None
    }

    /// Whether `key` is present.
    pub fn contains_key(&self, key: &K) -> (b: bool)
        requires
            self.wf(),
        ensures
            b == self@.contains_key(key.id()),
    {
        self.find(key).is_some()
    }

    /// The value under `key`, if there is one.
    pub fn get(&self, key: &K) -> (r: Option<&V>)
        requires
            self.wf(),
        ensures
            match r {
                Some(v) => self@.contains_key(key.id()) && *v == self@[key.id()],
                None => !self@.contains_key(key.id()),
            },
    {
        match self.find(key) {
            Some(i) => Some(&self.vals[i]),
            None => None,
        }
    }

    /// Puts `val` under `key`, replacing what was there.
    pub fn insert(&mut self, key: K, val: V)
        requires
            old(self).wf(),
        ensures
            final(self).wf(),
            final(self)@ == old(self)@.insert(key.id(), val),
            old(self).has(key.id()) ==> final(self).key_seq() == old(self).key_seq(),
            !old(self).has(key.id()) ==> final(self).key_seq() == old(self).key_seq().push(key.id()),
    {
        match self.find(&key) {
            Some(i) => {
                self.vals[i] = val;
                proof {
                    assert(self.key_seq() == old(self).key_seq());
                    self.wf_facts();
                    old(self).wf_facts();
                    assert(self@ =~= old(self)@.insert(key.id(), val)) by {
                        assert forall|k: K::Id| self.has(k) implies #[trigger] self.at(k) == old(
                            self,
                        )@.insert(key.id(), val)[k] by {
                            self.key_seq().index_of_first_ensures(k);
                        }
                    }
                }
            },
            None => {
                self.keys.push(key);
                self.vals.push(val);
                proof {
                    let ks0 = old(self).key_seq();
                    let ks = self.key_seq();
                    assert(ks =~= ks0.push(key.id()));
                    assert forall|i: int, j: int| 0 <= i < j < self.keys@.len() implies self.keys@[i].id()
                        != self.keys@[j].id() by {
                        if j == self.keys@.len() - 1 {
                            assert(ks0[i] == self.keys@[i].id());
                            assert(ks0.contains(ks0[i]));
                        } else {
                            assert(self.keys@[i] == old(self).keys@[i]);
                            assert(self.keys@[j] == old(self).keys@[j]);
                        }
                    }
                    self.wf_facts();
                    old(self).wf_facts();
                    assert(self@ =~= old(self)@.insert(key.id(), val)) by {
                        assert forall|k: K::Id| self.has(k) <==> (old(self).has(k) || k == key.id()) by {
                            if self.has(k) {
                                let i = choose|i: int| 0 <= i < ks.len() && ks[i] == k;
                                if i < ks0.len() {
                                    assert(ks0[i] == k);
                                }
                            }
                            if old(self).has(k) {
                                let i = choose|i: int| 0 <= i < ks0.len() && ks0[i] == k;
                                assert(ks[i] == k);
                            }
                            if k == key.id() {
                                assert(ks[ks.len() - 1] == k);
                            }
                        }
                        assert forall|k: K::Id| self.has(k) implies #[trigger] self.at(k) == old(
                            self,
                        )@.insert(key.id(), val)[k] by {
                            ks.index_of_first_ensures(k);
                            let i = ks.index_of(k);
                            if k != key.id() {
                                assert(i < ks0.len());
                                assert(ks0[i] == k);
                                ks0.index_of_first_ensures(k);
                                assert(ks0.index_of(k) == i);
                            } else {
                                assert(i == ks.len() - 1) by {
                                    if i < ks0.len() {
                                        assert(ks0[i] == k);
                                        assert(ks0.contains(k));
                                    }
                                }
                            }
                        }
                    }
                }
            },
        }
    }

    /// Takes `key` out, with its value.
    pub fn remove(&mut self, key: &K) -> (r: Option<V>)
        requires
            old(self).wf(),
        ensures
            final(self).wf(),
            final(self)@ == old(self)@.remove(key.id()),
            match r {
                Some(v) => old(self)@.contains_key(key.id()) && v == old(self)@[key.id()],
                None => !old(self)@.contains_key(key.id()),
            },
    {
        match self.find(key) {
            Some(i) => {
                let _k = self.keys.remove(i);
                let v = self.vals.remove(i);
                proof {
                    let ks0 = old(self).key_seq();
                    let ks = self.key_seq();
                    old(self).wf_facts();
                    assert(ks =~= ks0.remove(i as int));
                    assert forall|a: int, b: int| 0 <= a < b < self.keys@.len() implies self.keys@[a].id()
                        != self.keys@[b].id() by {
                        let a0 = if a < i { a } else { a + 1 };
                        let b0 = if b < i { b } else { b + 1 };
                        assert(self.keys@[a] == old(self).keys@[a0]);
                        assert(self.keys@[b] == old(self).keys@[b0]);
                    }
                    self.wf_facts();
                    assert(self@ =~= old(self)@.remove(key.id())) by {
                        assert forall|k: K::Id| self.has(k) <==> (old(self).has(k) && k != key.id()) by {
                            if self.has(k) {
                                let a = choose|a: int| 0 <= a < ks.len() && ks[a] == k;
                                let a0 = if a < i { a } else { a + 1 };
                                assert(ks0[a0] == k);
                            }
                            if old(self).has(k) && k != key.id() {
                                let a0 = choose|a: int| 0 <= a < ks0.len() && ks0[a] == k;
                                let a = if a0 < i { a0 } else { a0 - 1 };
                                assert(ks[a] == k);
                            }
                        }
                        assert forall|k: K::Id| self.has(k) implies #[trigger] self.at(k) == old(
                            self,
                        )@[k] by {
                            ks.index_of_first_ensures(k);
                            let a = ks.index_of(k);
                            let a0 = if a < i { a } else { a + 1 };
                            assert(ks0[a0] == k);
                            ks0.index_of_first_ensures(k);
                            assert(ks0.index_of(k) == a0);
                        }
                    }
                }
                Some(v)
            },
            None => {
                proof {
                    assert(self@ =~= old(self)@.remove(key.id()));
                }
                None
            },
        }
    }

    /// The key at position `i` of the insertion order.
    pub fn key_at(&self, i: usize) -> (k: &K)
        requires
            self.wf(),
            i < self.key_seq().len(),
        ensures
            k.id() == self.key_seq()[i as int],
            self@.contains_key(k.id()),
    {
        proof {
            self.wf_facts();
            assert(self.has(self.key_seq()[i as int]));
        }
        &self.keys[i]
    }

    /// The value at position `i` of the insertion order.
    pub fn value_at(&self, i: usize) -> (v: &V)
        requires
            self.wf(),
            i < self.key_seq().len(),
        ensures
            *v == self.val_seq()[i as int],
            *v == self@[self.key_seq()[i as int]],
    {
        proof {
            self.wf_facts();
        }
        &self.vals[i]
    }

    /// Empties the map.
    pub fn clear(&mut self)
        ensures
            final(self).wf(),
            final(self)@ == Map::<K::Id, V>::empty(),
    {
        self.keys.clear();
        self.vals.clear();
        assert(self.key_seq() =~= Seq::<K::Id>::empty());
        assert(self@ =~= Map::<K::Id, V>::empty());
    }
}

} // verus!
