use vstd::prelude::*;

verus! {

/// Keys compared by their bytes.
pub trait ByteKey: Sized {
    /// The bytes that identify the key.
    spec fn key_bytes(&self) -> Seq<u8>;

    /// Whether two keys have the same bytes.
    fn same_key(&self, other: &Self) -> (r: bool)
        ensures
            r == (self.key_bytes() == other.key_bytes());
}

/// Position of the entry with key bytes `k`.
pub open spec fn key_index<V>(s: Seq<(Seq<u8>, V)>, k: Seq<u8>) -> Option<nat>
    decreases s.len(),
{
    if s.len() == 0 {
        None
    } else if s[0].0 == k {
        Some(0)
    } else {
        match key_index(s.drop_first(), k) {
            Some(i) => Some(i + 1),
            None => None,
        }
    }
}

pub proof fn lemma_key_index<V>(s: Seq<(Seq<u8>, V)>, k: Seq<u8>)
    ensures
        key_index(s, k) matches Some(i) ==> i < s.len() && s[i as int].0 == k
            && forall|j: int| 0 <= j < i ==> (#[trigger] s[j]).0 != k,
        key_index(s, k) is None ==> forall|j: int| 0 <= j < s.len() ==> (#[trigger] s[j]).0 != k,
    decreases s.len(),
{
    if s.len() > 0 && s[0].0 != k {
        lemma_key_index(s.drop_first(), k);
        assert forall|j: int| 0 < j < s.len() implies #[trigger] s[j] == s.drop_first()[j - 1] by {}
    }
}

pub proof fn lemma_key_index_at<V>(s: Seq<(Seq<u8>, V)>, k: Seq<u8>, i: int)
    requires
        0 <= i <= s.len(),
        i < s.len() ==> s[i].0 == k,
        forall|j: int| 0 <= j < i ==> (#[trigger] s[j]).0 != k,
    ensures
        i < s.len() ==> key_index(s, k) == Some(i as nat),
        i == s.len() ==> key_index(s, k) is None,
{
    lemma_key_index(s, k);
    match key_index(s, k) {
        Some(m) => {
            if (m as int) < i { assert(s[m as int].0 != k); }
            if (m as int) > i { assert(s[i].0 == k); }
        },
        None => { if i < s.len() { assert(s[i].0 != k); } },
    }
}

/// No two entries have the same key.
pub open spec fn keys_unique<V>(s: Seq<(Seq<u8>, V)>) -> bool {
    forall|i: int, j: int| 0 <= i < j < s.len() ==> (#[trigger] s[i]).0 != (#[trigger] s[j]).0
}

/// The entries after putting `v` under `k`: it replaces the value there, or
/// comes last.
pub open spec fn after_insert<V>(s: Seq<(Seq<u8>, V)>, k: Seq<u8>, v: V) -> Seq<(Seq<u8>, V)> {
    match key_index(s, k) {
        Some(i) => s.update(i as int, (k, v)),
        None => s.push((k, v)),
    }
}

/// The entries after removing the one for `k`.
pub open spec fn after_remove<V>(s: Seq<(Seq<u8>, V)>, k: Seq<u8>) -> Seq<(Seq<u8>, V)> {
    match key_index(s, k) {
        Some(i) => s.remove(i as int),
        None => s,
    }
}

/// The value under `k`.
pub open spec fn lookup<V>(s: Seq<(Seq<u8>, V)>, k: Seq<u8>) -> Option<V> {
    match key_index(s, k) {
        Some(i) => Some(s[i as int].1),
        None => None,
    }
}

/// A map with keys compared by their bytes, in the order keys were added.
#[derive(Debug)]
pub struct KeyedVec<K, V> {
    keys: Vec<K>,
    values: Vec<V>,
}

impl<K: ByteKey, V> KeyedVec<K, V> {
    /// The entries: key bytes and value.
    pub closed spec fn entries(&self) -> Seq<(Seq<u8>, V)> {
        Seq::new(self.keys@.len(), |i: int| (self.keys@[i].key_bytes(), self.values@[i]))
    }

    /// Well-formedness: one entry per key.
    pub closed spec fn wf(&self) -> bool {
        &&& self.keys@.len() == self.values@.len()
        &&& forall|i: int, j: int| 0 <= i < j < self.keys@.len()
            ==> (#[trigger] self.keys@[i]).key_bytes() != (#[trigger] self.keys@[j]).key_bytes()
    }

    /// A well-formed map has one entry per key.
    pub proof fn lemma_unique(&self)
        requires
            self.wf(),
        ensures
            keys_unique(self.entries()),
    {
        let t = self.entries();
        assert forall|a: int, b: int| 0 <= a < b < t.len() implies (#[trigger] t[a]).0 != (#[trigger] t[b]).0 by {
            assert(t[a].0 == self.keys@[a].key_bytes() && t[b].0 == self.keys@[b].key_bytes());
        }
    }

    pub fn new() -> (r: Self)
        ensures
            r.wf(),
            r.entries().len() == 0,
    {
        let r = KeyedVec { keys: Vec::new(), values: Vec::new() };
        assert(r.entries() =~= Seq::<(Seq<u8>, V)>::empty());
        r
    }

    fn find(&self, key: &K) -> (r: Option<usize>)
        requires
            self.wf(),
        ensures
            r matches Some(i) ==> key_index(self.entries(), key.key_bytes()) == Some(i as nat) && i < self.entries().len(),
            r is None ==> key_index(self.entries(), key.key_bytes()) is None,
    {
        let ghost s = self.entries();
        let mut i: usize = 0;
        while i < self.keys.len()
            invariant
                i <= s.len(),
                self.wf(),
                s == self.entries(),
                forall|j: int| 0 <= j < i ==> (#[trigger] s[j]).0 != key.key_bytes(),
            decreases s.len() - i,
        {
            assert(s[i as int].0 == self.keys@[i as int].key_bytes());
            if self.keys[i].same_key(key) {
                proof { lemma_key_index_at(s, key.key_bytes(), i as int); }
                return Some(i);
            }
            i = i + 1;
        }
        proof { lemma_key_index_at(s, key.key_bytes(), i as int); }
        None
    }

    /// The value under `key`.
    pub fn get(&self, key: &K) -> (r: Option<&V>)
        requires
            self.wf(),
        ensures
            match key_index(self.entries(), key.key_bytes()) {
                Some(i) => r == Some(&self.entries()[i as int].1),
                None => r is None,
            },
    {
        match self.find(key) {
            Some(i) => Some(&self.values[i]),
            None => None,
        }
    }

    /// The value under `key`, to change in place.
    pub fn get_mut(&mut self, key: &K) -> (r: Option<&mut V>)
        requires
            old(self).wf(),
        ensures
            match key_index(old(self).entries(), key.key_bytes()) {
                Some(i) => r matches Some(e) && *e == old(self).entries()[i as int].1
                    && final(self).entries() =~= old(self).entries().update(i as int,
                        (old(self).entries()[i as int].0, *final(e)))
                    && final(self).wf(),
                None => r is None && final(self).wf() && final(self).entries() == old(self).entries(),
            },
    {
        match self.find(key) {
            Some(i) => Some(&mut self.values[i]),
            None => None,
        }
    }

    /// Puts `value` under `key`, returning the value it replaces.
    pub fn insert(&mut self, key: K, value: V) -> (r: Option<V>)
        requires
            old(self).wf(),
        ensures
            final(self).wf(),
            final(self).entries() == after_insert(old(self).entries(), key.key_bytes(), value),
            r == lookup(old(self).entries(), key.key_bytes()),
    {
        let ghost s = self.entries();
        let ghost kb = key.key_bytes();
        proof { lemma_key_index(s, kb); }
        match self.find(&key) {
            Some(i) => {
                let mut v = value;
                std::mem::swap(&mut v, &mut self.values[i]);
                assert(self.entries() =~= s.update(i as int, (kb, value)));
                Some(v)
            },
            None => {
                self.keys.push(key);
                self.values.push(value);
                assert(self.entries() =~= s.push((kb, value)));
                let ghost k = self.keys@;
                assert forall|a: int, b: int| 0 <= a < b < k.len()
                    implies (#[trigger] k[a]).key_bytes() != (#[trigger] k[b]).key_bytes() by {
                    if b < s.len() {
                        assert(k[a].key_bytes() == s[a].0 && k[b].key_bytes() == s[b].0);
                    } else {
                        assert(k[a].key_bytes() == s[a].0);
                    }
                }
                None
            },
        }
    }

    /// Removes and returns the value under `key`.
    pub fn remove(&mut self, key: &K) -> (r: Option<V>)
        requires
            old(self).wf(),
        ensures
            final(self).wf(),
            final(self).entries() == after_remove(old(self).entries(), key.key_bytes()),
            r == lookup(old(self).entries(), key.key_bytes()),
    {
        match self.find(key) {
            Some(i) => {
                let ghost s = self.entries();
                self.keys.remove(i);
                let v = self.values.remove(i);
                assert(self.entries() =~= s.remove(i as int));
                let ghost k = self.keys@;
                assert forall|a: int, b: int| 0 <= a < b < k.len()
                    implies (#[trigger] k[a]).key_bytes() != (#[trigger] k[b]).key_bytes() by {
                    let a2 = if a < i { a } else { a + 1 };
                    let b2 = if b < i { b } else { b + 1 };
                    assert(k[a] == old(self).keys@[a2] && k[b] == old(self).keys@[b2]);
                }
                Some(v)
            },
            None => None,
        }
    }

    /// All values in order.
    pub fn values(&self) -> (r: &[V])
        requires
            self.wf(),
        ensures
            r@ == self.entries().map_values(|p: (Seq<u8>, V)| p.1),
    {
        assert(self.values@ =~= self.entries().map_values(|p: (Seq<u8>, V)| p.1));
        self.values.as_slice()
    }

    /// All keys in order.
    pub fn keys(&self) -> (r: &[K])
        requires
            self.wf(),
        ensures
            r@.len() == self.entries().len(),
            forall|i: int| 0 <= i < r@.len() ==> (#[trigger] r@[i]).key_bytes() == self.entries()[i].0,
    {
        self.keys.as_slice()
    }

    /// Number of entries.
    pub fn len(&self) -> (r: usize)
        requires
            self.wf(),
        ensures
            r == self.entries().len(),
    {
        self.keys.len()
    }
}

/// Looking up a key after putting a value under it gives the value.
pub proof fn lemma_insert_then_lookup<V>(s: Seq<(Seq<u8>, V)>, k: Seq<u8>, v: V)
    ensures
        lookup(after_insert(s, k, v), k) == Some(v),
{
    let t = after_insert(s, k, v);
    lemma_key_index(s, k);
    match key_index(s, k) {
        Some(i) => {
            assert forall|j: int| 0 <= j < i implies (#[trigger] t[j]).0 != k by { assert(t[j] == s[j]); }
            lemma_key_index_at(t, k, i as int);
        },
        None => {
            assert forall|j: int| 0 <= j < s.len() implies (#[trigger] t[j]).0 != k by { assert(t[j] == s[j]); }
            lemma_key_index_at(t, k, s.len() as int);
        },
    }
}

/// Putting a value under one key leaves the lookup of any other key unchanged.
pub proof fn lemma_insert_keeps_others<V>(s: Seq<(Seq<u8>, V)>, k: Seq<u8>, v: V, k2: Seq<u8>)
    requires
        k != k2,
    ensures
        lookup(after_insert(s, k, v), k2) == lookup(s, k2),
{
    let t = after_insert(s, k, v);
    lemma_key_index(s, k2);
    lemma_key_index(s, k);
    match key_index(s, k2) {
        Some(i) => {
            assert forall|j: int| 0 <= j < i implies (#[trigger] t[j]).0 != k2 by {
                if t[j] != s[j] { assert(t[j].0 == k); }
            }
            assert(t[i as int] == s[i as int]);
            lemma_key_index_at(t, k2, i as int);
        },
        None => {
            assert forall|j: int| 0 <= j < t.len() implies (#[trigger] t[j]).0 != k2 by {
                if j < s.len() && t[j] != s[j] { assert(t[j].0 == k); }
            }
            lemma_key_index_at(t, k2, t.len() as int);
        },
    }
}

/// After removing a key from entries with one entry per key, it is not found.
pub proof fn lemma_remove_then_lookup<V>(s: Seq<(Seq<u8>, V)>, k: Seq<u8>)
    requires
        keys_unique(s),
    ensures
        lookup(after_remove(s, k), k) is None,
{
    lemma_key_index(s, k);
    if let Some(i) = key_index(s, k) {
        let t = s.remove(i as int);
        assert forall|j: int| 0 <= j < t.len() implies (#[trigger] t[j]).0 != k by {
            let j2 = if j < i { j } else { j + 1 };
            assert(t[j] == s[j2]);
            if j2 < i { assert(s[j2].0 != s[i as int].0); } else { assert(s[i as int].0 != s[j2].0); }
        }
        lemma_key_index_at(t, k, t.len() as int);
    } else {
        lemma_key_index_at(s, k, s.len() as int);
    }
}

/// Removing a key keeps one entry per key, drops only entries with that
/// key, and adds none.
pub proof fn lemma_remove_contains<V>(s: Seq<(Seq<u8>, V)>, k: Seq<u8>)
    requires
        keys_unique(s),
    ensures
        keys_unique(after_remove(s, k)),
        forall|x: (Seq<u8>, V)| after_remove(s, k).contains(x) ==> s.contains(x),
        forall|x: (Seq<u8>, V)| s.contains(x) && x.0 != k ==> after_remove(s, k).contains(x),
        forall|k2: Seq<u8>| lookup(s, k2) is None ==> lookup(after_remove(s, k), k2) is None,
{
    lemma_key_index(s, k);
    let t = after_remove(s, k);
    if let Some(i) = key_index(s, k) {
        assert forall|a: int, b: int| 0 <= a < b < t.len() implies (#[trigger] t[a]).0 != (#[trigger] t[b]).0 by {
            let a2 = if a < i { a } else { a + 1 };
            let b2 = if b < i { b } else { b + 1 };
            assert(t[a] == s[a2] && t[b] == s[b2]);
        }
        assert forall|x: (Seq<u8>, V)| t.contains(x) implies s.contains(x) by {
            let j = choose|j: int| 0 <= j < t.len() && t[j] == x;
            let j2 = if j < i { j } else { j + 1 };
            assert(s[j2] == x);
        }
        assert forall|x: (Seq<u8>, V)| s.contains(x) && x.0 != k implies t.contains(x) by {
            let j = choose|j: int| 0 <= j < s.len() && s[j] == x;
            if j < i {
                assert(t[j] == x);
            } else {
                assert(j != i);
                assert(t[j - 1] == x);
            }
        }
        assert forall|k2: Seq<u8>| lookup(s, k2) is None implies lookup(t, k2) is None by {
            lemma_key_index(s, k2);
            assert forall|j: int| 0 <= j < t.len() implies (#[trigger] t[j]).0 != k2 by {
                let j2 = if j < i { j } else { j + 1 };
                assert(t[j] == s[j2]);
            }
            lemma_key_index_at(t, k2, t.len() as int);
        }
    }
}

impl ByteKey for [u8; 8] {
    open spec fn key_bytes(&self) -> Seq<u8> {
        self@
    }

    fn same_key(&self, other: &Self) -> (r: bool) {
        crate::common::bytes::bytes_eq(self, other)
    }
}

} // verus!
