//! A map kept as a vector of pairs in insertion order, for maps that stay
//! small.
use vstd::prelude::*;
use vstd::std_specs::cmp::PartialEqSpec;
use crate::eq_search::{eq_is_identity, is_first_match, lemma_first_match_exists, lemma_first_match_unique, no_later_match, seq_has_match};

verus! {

/// A map from keys to values kept as pairs in insertion order. Keys are
/// compared with their type's `==`; `N` is the number of pairs the map is
/// sized for.
#[derive(Clone, PartialEq, Eq, PartialOrd, Ord, Debug)]
pub struct SmallVecMap<K, V, const N: usize> {
    inner: Vec<(K, V)>,
}

impl<K, V, const N: usize> View for SmallVecMap<K, V, N> {
    type V = Seq<(K, V)>;

    /// The pairs, in the order in which their keys were first inserted.
    closed spec fn view(&self) -> Seq<(K, V)> {
        self.inner@
    }
}

/// The keys of a sequence of pairs, in order.
pub open spec fn keys_of<K, V>(s: Seq<(K, V)>) -> Seq<K> {
    s.map_values(|p: (K, V)| p.0)
}

/// The position of the first pair whose key compares equal to `key`
/// (meaningful when there is one).
pub open spec fn first_key_index<K: PartialEq, V>(s: Seq<(K, V)>, key: K) -> int {
    choose|i: int| is_first_match(keys_of(s), key, i)
}

/// The value that a lookup of `key` finds: that of the first pair whose key
/// compares equal to `key`.
pub open spec fn spec_lookup<K: PartialEq, V>(s: Seq<(K, V)>, key: K) -> Option<V> {
    if seq_has_match(keys_of(s), key) {
        Some(s[first_key_index(s, key)].1)
    } else {
        None
    }
}

/// The pairs after inserting `key` and `value`: the first pair whose key
/// compares equal to `key` is replaced by the new pair, or the new pair is
/// appended when there is none.
pub open spec fn spec_insert<K: PartialEq, V>(s: Seq<(K, V)>, key: K, value: V) -> Seq<(K, V)> {
    if seq_has_match(keys_of(s), key) {
        s.update(first_key_index(s, key), (key, value))
    } else {
        s.push((key, value))
    }
}

proof fn lemma_first_key_index<K: PartialEq, V>(s: Seq<(K, V)>, key: K)
    requires
        seq_has_match(keys_of(s), key),
    ensures
        is_first_match(keys_of(s), key, first_key_index(s, key)),
{
    let k = keys_of(s);
    let w = choose|i: int| 0 <= i < k.len() && #[trigger] k[i].eq_spec(&key);
    lemma_first_match_exists(k, key, w);
}

proof fn lemma_first_key_index_is<K: PartialEq, V>(s: Seq<(K, V)>, key: K, i: int)
    requires
        is_first_match(keys_of(s), key, i),
    ensures
        seq_has_match(keys_of(s), key),
        first_key_index(s, key) == i,
{
    assert(keys_of(s)[i].eq_spec(&key));
    lemma_first_key_index(s, key);
    lemma_first_match_unique(keys_of(s), key, i, first_key_index(s, key));
}

/// A lookup of a key finds the value that the last insertion of that key
/// wrote (for keys whose `==` is the identity).
pub proof fn lemma_lookup_after_insert<K: PartialEq, V>(s: Seq<(K, V)>, key: K, value: V)
    requires
        eq_is_identity::<K>(),
    ensures
        spec_lookup(spec_insert(s, key, value), key) == Some(value),
{
    let t = spec_insert(s, key, value);
    let kt = keys_of(t);
    assert(key.eq_spec(&key));
    if seq_has_match(keys_of(s), key) {
        lemma_first_key_index(s, key);
        let i = first_key_index(s, key);
        assert forall|j: int| 0 <= j < i implies !#[trigger] kt[j].eq_spec(&key) by {
            assert(kt[j] == keys_of(s)[j]);
        }
        assert(kt[i] == key);
        lemma_first_key_index_is(t, key, i);
    } else {
        let n = s.len() as int;
        assert forall|j: int| 0 <= j < n implies !#[trigger] kt[j].eq_spec(&key) by {
            assert(kt[j] == keys_of(s)[j]);
        }
        assert(kt[n] == key);
        lemma_first_key_index_is(t, key, n);
    }
}

/// Inserting a key leaves what a lookup of any other key finds unchanged
/// (for keys whose `==` is the identity).
pub proof fn lemma_lookup_other_after_insert<K: PartialEq, V>(
    s: Seq<(K, V)>,
    key: K,
    value: V,
    other: K,
)
    requires
        eq_is_identity::<K>(),
        other != key,
    ensures
        spec_lookup(spec_insert(s, key, value), other) == spec_lookup(s, other),
{
    let t = spec_insert(s, key, value);
    let ks = keys_of(s);
    let kt = keys_of(t);
    if seq_has_match(ks, key) {
        lemma_first_key_index(s, key);
        let i = first_key_index(s, key);
        assert(ks[i] == key);
        assert forall|j: int| 0 <= j < kt.len() implies #[trigger] kt[j] == ks[j] by {
            if j == i {
                assert(kt[j] == key);
            }
        }
        assert(kt =~= ks);
        if seq_has_match(ks, other) {
            lemma_first_key_index(s, other);
            let f = first_key_index(s, other);
            assert(f != i);
            lemma_first_key_index_is(t, other, f);
        }
    } else {
        let n = s.len() as int;
        if seq_has_match(ks, other) {
            lemma_first_key_index(s, other);
            let f = first_key_index(s, other);
            assert forall|j: int| 0 <= j < f implies !#[trigger] kt[j].eq_spec(&other) by {
                assert(kt[j] == ks[j]);
            }
            assert(kt[f] == ks[f]);
            lemma_first_key_index_is(t, other, f);
        } else {
            assert forall|j: int| 0 <= j < kt.len() implies !#[trigger] kt[j].eq_spec(&other) by {
                if j < n {
                    assert(kt[j] == ks[j]);
                } else {
                    assert(kt[j] == key);
                }
            }
        }
    }
}

/// Insertion never makes two pairs carry keys that compare equal.
pub proof fn lemma_insert_keeps_keys_distinct<K: PartialEq, V>(s: Seq<(K, V)>, key: K, value: V)
    requires
        eq_is_identity::<K>(),
        no_later_match(keys_of(s)),
    ensures
        no_later_match(keys_of(spec_insert(s, key, value))),
{
    let t = spec_insert(s, key, value);
    let ks = keys_of(s);
    let kt = keys_of(t);
    if seq_has_match(ks, key) {
        lemma_first_key_index(s, key);
        let i = first_key_index(s, key);
        assert(ks[i] == key);
        assert forall|j: int| 0 <= j < kt.len() implies #[trigger] kt[j] == ks[j] by {
            if j == i {
                assert(kt[j] == key);
            }
        }
        assert(kt =~= ks);
    } else {
        let n = s.len() as int;
        assert forall|a: int, b: int| 0 <= a < b < kt.len() implies !#[trigger] kt[a].eq_spec(
            &kt[b],
        ) by {
            assert(kt[a] == ks[a]);
            if b < n {
                assert(kt[b] == ks[b]);
            } else {
                assert(kt[b] == key);
            }
        }
    }
}

impl<K, V, const N: usize> Default for SmallVecMap<K, V, N> {
    fn default() -> (r: Self)
        ensures
            r@ == Seq::<(K, V)>::empty(),
    {
        SmallVecMap { inner: Vec::new() }
    }
}

impl<K, V, const N: usize> SmallVecMap<K, V, N> {
    /// The position of the first pair whose key compares equal to `key`.
    fn find_key(&self, key: &K) -> (r: Option<usize>)
        where
            K: PartialEq,
        ensures
            r matches Some(i) ==> i < self@.len(),
            K::obeys_eq_spec() ==> match r {
                Some(i) => is_first_match(keys_of(self@), *key, i as int) && i == first_key_index(
                    self@,
                    *key,
                ),
                None => !seq_has_match(keys_of(self@), *key),
            },
    {
        let ghost k = keys_of(self@);
        let mut i: usize = 0;
        while i < self.inner.len()
            invariant
                i <= self@.len(),
                k == keys_of(self@),
                K::obeys_eq_spec() ==> forall|j: int| 0 <= j < i ==> !#[trigger] k[j].eq_spec(key),
            decreases self@.len() - i,
        {
            if self.inner[i].0 == *key {
                proof {
                    if K::obeys_eq_spec() {
                        assert(k[i as int] == self@[i as int].0);
                        assert(is_first_match(k, *key, i as int));
                        lemma_first_key_index(self@, *key);
                        let f = first_key_index(self@, *key);
                        if f < i {
                            assert(!k[f].eq_spec(key));
                        }
                        if i < f {
                            assert(!k[i as int].eq_spec(key));
                        }
                    }
                }
                return Some(i);
            }
            proof {
                assert(k[i as int] == self@[i as int].0);
            }
            i += 1;
        }
        proof {
            if K::obeys_eq_spec() {
                assert forall|j: int| 0 <= j < k.len() implies !#[trigger] k[j].eq_spec(key) by {}
            }
        }
        None
    }

    /// Maps `key` to `value`. A pair whose key compares equal to `key` is
    /// replaced, key and value, and its old value returned; otherwise the
    /// pair is appended and `None` returned.
    pub fn insert(&mut self, key: K, value: V) -> (old_value: Option<V>)
        where
            K: PartialEq,
        ensures
            K::obeys_eq_spec() ==> final(self)@ == spec_insert(old(self)@, key, value),
            K::obeys_eq_spec() ==> old_value == spec_lookup(old(self)@, key),
            old_value is None ==> final(self)@ == old(self)@.push((key, value)),
            old_value is Some ==> final(self)@.len() == old(self)@.len(),
    {
        match self.find_key(&key) {
            Some(i) => {
                let mut pair = (key, value);
                std::mem::swap(&mut self.inner[i], &mut pair);
                Some(pair.1)
            },
            None => {
                self.inner.push((key, value));
                None
            },
        }
    }

    /// Appends the pair unless a pair whose key compares equal to `key` is
    /// present; returns whether it was appended.
    pub fn insert_if_not_exists(&mut self, key: K, value: V) -> (added: bool)
        where
            K: PartialEq,
        ensures
            added ==> final(self)@ == old(self)@.push((key, value)),
            !added ==> final(self)@ == old(self)@,
            K::obeys_eq_spec() ==> added == !seq_has_match(keys_of(old(self)@), key),
    {
        if self.contains_key(&key) {
            return false;
        }
        self.inner.push((key, value));
        true
    }

    /// Appends the pair without looking for its key.
    pub fn insert_unchecked(&mut self, key: K, value: V)
        ensures
            final(self)@ == old(self)@.push((key, value)),
    {
        self.inner.push((key, value));
    }

    /// Whether a pair's key compares equal to `key`.
    pub fn contains_key(&self, key: &K) -> (found: bool)
        where
            K: PartialEq,
        ensures
            K::obeys_eq_spec() ==> found == seq_has_match(keys_of(self@), *key),
    {
        self.find_key(key).is_some()
    }

    /// The value of the first pair whose key compares equal to `key`.
    pub fn get(&self, key: &K) -> (r: Option<&V>)
        where
            K: PartialEq,
        ensures
            K::obeys_eq_spec() ==> match r {
                Some(v) => spec_lookup(self@, *key) == Some(*v),
                None => spec_lookup(self@, *key) is None,
            },
    {
        match self.find_key(key) {
            Some(i) => Some(&self.inner[i].1),
            None => None,
        }
    }

    /// The value of the first pair whose key compares equal to `key`, for
    /// changing it in place.
    pub fn get_mut(&mut self, key: &K) -> (r: Option<&mut V>)
        where
            K: PartialEq,
        ensures
            r is None ==> final(self)@ == old(self)@,
            K::obeys_eq_spec() ==> match r {
                Some(v) => {
                    let i = first_key_index(old(self)@, *key);
                    &&& spec_lookup(old(self)@, *key) == Some(*v)
                    &&& final(self)@ == old(self)@.update(i, (old(self)@[i].0, *final(v)))
                },
                None => spec_lookup(old(self)@, *key) is None,
            },
    {
        match self.find_key(key) {
            Some(i) => Some(&mut self.inner[i].1),
            None => None,
        }
    }

    /// The pairs in insertion order.
    pub fn iter(&self) -> (r: &[(K, V)])
        ensures
            r@ == self@,
    {
        self.inner.as_slice()
    }

    /// The keys in insertion order.
    pub fn keys(&self) -> (r: Vec<&K>)
        ensures
            r@.len() == self@.len(),
            forall|i: int| 0 <= i < self@.len() ==> *#[trigger] r@[i] == self@[i].0,
    {
        let mut r: Vec<&K> = Vec::new();
        let mut i: usize = 0;
        while i < self.inner.len()
            invariant
                i <= self@.len(),
                r@.len() == i,
                forall|j: int| 0 <= j < i ==> *#[trigger] r@[j] == self@[j].0,
            decreases self@.len() - i,
        {
            r.push(&self.inner[i].0);
            i += 1;
        }
        r
    }

    /// The values in insertion order.
    pub fn values(&self) -> (r: Vec<&V>)
        ensures
            r@.len() == self@.len(),
            forall|i: int| 0 <= i < self@.len() ==> *#[trigger] r@[i] == self@[i].1,
    {
        let mut r: Vec<&V> = Vec::new();
        let mut i: usize = 0;
        while i < self.inner.len()
            invariant
                i <= self@.len(),
                r@.len() == i,
                forall|j: int| 0 <= j < i ==> *#[trigger] r@[j] == self@[j].1,
            decreases self@.len() - i,
        {
            r.push(&self.inner[i].1);
            i += 1;
        }
        r
    }

    pub fn is_empty(&self) -> (r: bool)
        ensures
            r == (self@.len() == 0),
    {
        self.inner.is_empty()
    }

    pub fn len(&self) -> (r: usize)
        ensures
            r == self@.len(),
    {
        self.inner.len()
    }
}

} // verus!
