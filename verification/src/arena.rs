//! An interning arena: each distinct value is stored once and named by a
//! dense index, in the order of first insertion.
use vstd::prelude::*;
use vstd::std_specs::cmp::PartialEqSpec;
use core::marker::PhantomData;
use crate::eq_search::{
    eq_is_identity, first_match, is_first_match, lemma_first_match_exists,
    lemma_first_match_unique, no_later_match, seq_has_match,
};
use crate::index::CoolIndex;
use crate::text::str_eq;

verus! {

/// Interns values of type `T` under indexes of type `I`: the value at
/// position `p` is named by the index whose number is `p`.
#[derive(Debug)]
pub struct Arena<I, T> {
    values: Vec<T>,
    index: PhantomData<I>,
}

impl<I, T> View for Arena<I, T> {
    type V = Seq<T>;

    /// The interned values, in the order in which they were first inserted.
    closed spec fn view(&self) -> Seq<T> {
        self.values@
    }
}

/// The position of the first value of `s` that compares equal to `v`, or
/// the length of `s` when there is none: where interning `v` puts it.
pub open spec fn intern_position<T: PartialEq>(s: Seq<T>, v: T) -> int {
    if seq_has_match(s, v) {
        choose|i: int| is_first_match(s, v, i)
    } else {
        s.len() as int
    }
}

/// The values after interning `v`: unchanged when a value equal to `v` is
/// present, `v` appended otherwise.
pub open spec fn spec_intern<T: PartialEq>(s: Seq<T>, v: T) -> Seq<T> {
    if seq_has_match(s, v) {
        s
    } else {
        s.push(v)
    }
}

/// The position of the first value of `s` whose characters are those of
/// `v`, or the length of `s` when there is none.
pub open spec fn str_intern_position(s: Seq<String>, v: Seq<char>) -> int {
    if exists|i: int| 0 <= i < s.len() && #[trigger] s[i]@ == v {
        choose|i: int| 0 <= i < s.len() && s[i]@ == v && forall|j: int| 0 <= j < i ==> #[trigger] s[j]@ != v
    } else {
        s.len() as int
    }
}

/// Two sequences hold, position by position, values that compare equal.
pub open spec fn seq_matches<T: PartialEq>(a: Seq<T>, b: Seq<T>) -> bool {
    &&& a.len() == b.len()
    &&& forall|k: int| 0 <= k < a.len() ==> #[trigger] a[k].eq_spec(&b[k])
}

/// The position of the first vector of `s` that matches `v` element by
/// element, or the length of `s` when there is none.
pub open spec fn slice_intern_position<T: PartialEq>(s: Seq<Vec<T>>, v: Seq<T>) -> int {
    if exists|i: int| 0 <= i < s.len() && seq_matches(#[trigger] s[i]@, v) {
        choose|i: int|
            0 <= i < s.len() && seq_matches(s[i]@, v) && forall|j: int|
                0 <= j < i ==> !seq_matches(#[trigger] s[j]@, v)
    } else {
        s.len() as int
    }
}

/// No two strings of `s` have the same characters.
pub open spec fn strs_distinct(s: Seq<String>) -> bool {
    forall|i: int, j: int| 0 <= i < j < s.len() ==> #[trigger] s[i]@ != #[trigger] s[j]@
}

/// No vector of `s` matches a later one element by element.
pub open spec fn slices_distinct<T: PartialEq>(s: Seq<Vec<T>>) -> bool {
    forall|i: int, j: int| 0 <= i < j < s.len() ==> !seq_matches(#[trigger] s[i]@, #[trigger] s[j]@)
}

proof fn lemma_intern_position<T: PartialEq>(s: Seq<T>, v: T)
    ensures
        seq_has_match(s, v) ==> is_first_match(s, v, intern_position(s, v)),
        !seq_has_match(s, v) ==> intern_position(s, v) == s.len(),
{
    if seq_has_match(s, v) {
        let w = choose|i: int| 0 <= i < s.len() && #[trigger] s[i].eq_spec(&v);
        lemma_first_match_exists(s, v, w);
    }
}

proof fn lemma_str_first(s: Seq<String>, v: Seq<char>, i: int)
    requires
        0 <= i < s.len(),
        s[i]@ == v,
        forall|j: int| 0 <= j < i ==> #[trigger] s[j]@ != v,
    ensures
        str_intern_position(s, v) == i,
{
    let p = str_intern_position(s, v);
    assert(0 <= p < s.len() && s[p]@ == v && forall|j: int| 0 <= j < p ==> #[trigger] s[j]@ != v);
    if p < i {
        assert(s[p]@ != v);
    }
    if i < p {
        assert(s[i]@ != v);
    }
}

proof fn lemma_str_first_exists(s: Seq<String>, v: Seq<char>, w: int)
    requires
        0 <= w < s.len(),
        s[w]@ == v,
    ensures
        0 <= str_intern_position(s, v) < s.len(),
        s[str_intern_position(s, v)]@ == v,
    decreases w,
{
    if exists|j: int| 0 <= j < w && #[trigger] s[j]@ == v {
        let j = choose|j: int| 0 <= j < w && #[trigger] s[j]@ == v;
        lemma_str_first_exists(s, v, j);
    } else {
        lemma_str_first(s, v, w);
    }
}

proof fn lemma_slice_first<T: PartialEq>(s: Seq<Vec<T>>, v: Seq<T>, i: int)
    requires
        0 <= i < s.len(),
        seq_matches(s[i]@, v),
        forall|j: int| 0 <= j < i ==> !seq_matches(#[trigger] s[j]@, v),
    ensures
        slice_intern_position(s, v) == i,
{
    let p = slice_intern_position(s, v);
    assert(0 <= p < s.len() && seq_matches(s[p]@, v));
    if p < i {
        assert(!seq_matches(s[p]@, v));
    }
    if i < p {
        assert(!seq_matches(s[i]@, v));
    }
}

/// Whether two slices hold, position by position, values that compare equal.
fn slices_match<T: PartialEq>(a: &[T], b: &[T]) -> (r: bool)
    ensures
        T::obeys_eq_spec() ==> r == seq_matches(a@, b@),
{
    if a.len() != b.len() {
        return false;
    }
    let mut k: usize = 0;
    while k < a.len()
        invariant
            a@.len() == b@.len(),
            k <= a@.len(),
            T::obeys_eq_spec() ==> forall|j: int| 0 <= j < k ==> #[trigger] a@[j].eq_spec(&b@[j]),
        decreases a@.len() - k,
    {
        if !(a[k] == b[k]) {
            return false;
        }
        k += 1;
    }
    true
}

/// Interning `v` puts at its position a value equal to it, and that
/// position fits its index (for element types whose `==` is the identity,
/// while the arena holds fewer than 2^32 values).
pub proof fn lemma_intern_then_get<T: PartialEq>(s: Seq<T>, v: T)
    requires
        eq_is_identity::<T>(),
        s.len() < 0x1_0000_0000,
    ensures
        0 <= intern_position(s, v) < spec_intern(s, v).len(),
        spec_intern(s, v)[intern_position(s, v)] == v,
        (intern_position(s, v) as u32) as int == intern_position(s, v),
{
    lemma_intern_position(s, v);
    let p = intern_position(s, v);
    if seq_has_match(s, v) {
        assert(s[p].eq_spec(&v));
    } else {
        assert(spec_intern(s, v)[p] == v);
    }
}

/// Interning a value a second time changes nothing and gives the same
/// position as the first time (for element types whose `==` is the
/// identity).
pub proof fn lemma_intern_idempotent<T: PartialEq>(s: Seq<T>, v: T)
    requires
        eq_is_identity::<T>(),
    ensures
        spec_intern(spec_intern(s, v), v) == spec_intern(s, v),
        intern_position(spec_intern(s, v), v) == intern_position(s, v),
{
    let t = spec_intern(s, v);
    lemma_intern_position(s, v);
    lemma_intern_position(t, v);
    let p = intern_position(s, v);
    if seq_has_match(s, v) {
        assert(t == s);
    } else {
        assert(v.eq_spec(&v));
        assert(t[s.len() as int] == v);
        assert(seq_has_match(t, v));
        assert forall|j: int| 0 <= j < s.len() implies !#[trigger] t[j].eq_spec(&v) by {
            assert(t[j] == s[j]);
        }
        assert(is_first_match(t, v, s.len() as int));
        lemma_first_match_unique(t, v, s.len() as int, intern_position(t, v));
    }
}

/// Interning keeps distinct values at distinct positions: interning a
/// value never stores a second value equal to one already present.
pub proof fn lemma_intern_keeps_distinct<T: PartialEq>(s: Seq<T>, v: T)
    requires
        no_later_match(s),
    ensures
        no_later_match(spec_intern(s, v)),
{
}

/// Interning a string puts at its position a string with the same
/// characters, and that position fits its index (while the arena holds
/// fewer than 2^32 strings).
pub proof fn lemma_intern_str_then_get(s: Seq<String>, v: Seq<char>, t: Seq<String>)
    requires
        s.len() < 0x1_0000_0000,
        str_intern_position(s, v) < s.len() ==> t == s,
        str_intern_position(s, v) == s.len() ==> t.len() == s.len() + 1 && t.drop_last() == s
            && t.last()@ == v,
    ensures
        0 <= str_intern_position(s, v) < t.len(),
        t[str_intern_position(s, v)]@ == v,
        (str_intern_position(s, v) as u32) as int == str_intern_position(s, v),
{
    if exists|i: int| 0 <= i < s.len() && #[trigger] s[i]@ == v {
        let w = choose|i: int| 0 <= i < s.len() && #[trigger] s[i]@ == v;
        lemma_str_first_exists(s, v, w);
    }
}

/// An arena that holds no value (one just made, or one that was reset)
/// holds distinct values, whatever they are compared by.
pub proof fn lemma_empty_is_distinct<T: PartialEq>()
    ensures
        no_later_match(Seq::<T>::empty()),
        strs_distinct(Seq::<String>::empty()),
        slices_distinct(Seq::<Vec<T>>::empty()),
{
}

/// In an arena whose values are distinct, each stored value interns to its
/// own position: looking a stored value up gives back the index it is
/// stored under (for element types whose `==` is the identity).
pub proof fn lemma_stored_value_interns_to_itself<T: PartialEq>(s: Seq<T>, i: int)
    requires
        eq_is_identity::<T>(),
        no_later_match(s),
        0 <= i < s.len(),
    ensures
        seq_has_match(s, s[i]),
        intern_position(s, s[i]) == i,
        spec_intern(s, s[i]) == s,
{
    assert(s[i].eq_spec(&s[i]));
    assert forall|j: int| 0 <= j < i implies !#[trigger] s[j].eq_spec(&s[i]) by {
        assert(!s[j].eq_spec(&s[i]));
    }
    assert(is_first_match(s, s[i], i));
    lemma_intern_position(s, s[i]);
    lemma_first_match_unique(s, s[i], i, intern_position(s, s[i]));
}

/// In an arena whose strings are distinct, each stored string interns to
/// its own position.
pub proof fn lemma_stored_str_interns_to_itself(s: Seq<String>, i: int)
    requires
        strs_distinct(s),
        0 <= i < s.len(),
    ensures
        str_intern_position(s, s[i]@) == i,
{
    assert forall|j: int| 0 <= j < i implies #[trigger] s[j]@ != s[i]@ by {
        assert(s[j]@ != s[i]@);
    }
    lemma_str_first(s, s[i]@, i);
}

/// In an arena whose vectors are distinct, each stored vector interns to
/// its own position (for element types whose `==` is the identity).
pub proof fn lemma_stored_slice_interns_to_itself<T: PartialEq>(s: Seq<Vec<T>>, i: int)
    requires
        eq_is_identity::<T>(),
        slices_distinct(s),
        0 <= i < s.len(),
    ensures
        slice_intern_position(s, s[i]@) == i,
{
    assert forall|k: int| 0 <= k < s[i]@.len() implies #[trigger] s[i]@[k].eq_spec(&s[i]@[k]) by {
        assert(s[i]@[k].eq_spec(&s[i]@[k]) <==> s[i]@[k] == s[i]@[k]);
    }
    assert(seq_matches(s[i]@, s[i]@));
    assert forall|j: int| 0 <= j < i implies !seq_matches(#[trigger] s[j]@, s[i]@) by {
        assert(!seq_matches(s[j]@, s[i]@));
    }
    lemma_slice_first(s, s[i]@, i);
}

impl<I, T> Default for Arena<I, T> {
    fn default() -> (r: Self)
        ensures
            r@ == Seq::<T>::empty(),
    {
        Arena { values: Vec::new(), index: PhantomData }
    }
}

impl<I, T> Arena<I, T> {
    /// Forgets every value.
    pub fn reset(&mut self)
        ensures
            final(self)@ == Seq::<T>::empty(),
    {
        self.values.clear();
    }

    #[must_use]
    pub fn len(&self) -> (r: usize)
        ensures
            r == self@.len(),
    {
        self.values.len()
    }

    #[must_use]
    pub fn is_empty(&self) -> (r: bool)
        ensures
            r == (self@.len() == 0),
    {
        self.values.is_empty()
    }

    /// The values in index order.
    pub fn iter(&self) -> (r: &[T])
        ensures
            r@ == self@,
    {
        self.values.as_slice()
    }
}

impl<I: CoolIndex, T> Arena<I, T> {
    /// The indexes from zero up to the number of values taken as a `u32`
    /// (truncated as `as` does), in order.
    pub fn iter_indexes(&self) -> (r: Vec<I>)
        ensures
            r@.len() == self@.len() as u32,
            forall|p: int| 0 <= p < r@.len() ==> #[trigger] r@[p].spec_get() == p,
    {
        let n = self.values.len() as u32;
        let mut r: Vec<I> = Vec::new();
        let mut p: u32 = 0;
        while p < n
            invariant
                p <= n,
                r@.len() == p,
                forall|q: int| 0 <= q < p ==> #[trigger] r@[q].spec_get() == q,
            decreases n - p,
        {
            r.push(I::new(p));
            p += 1;
        }
        r
    }

    /// The value that `index` names, if the arena holds that many values.
    #[must_use]
    pub fn get(&self, index: I) -> (r: Option<&T>)
        ensures
            match r {
                Some(v) => index.spec_get() < self@.len() && *v == self@[index.spec_get() as int],
                None => index.spec_get() >= self@.len(),
            },
    {
        let p = index.get() as usize;
        if p < self.values.len() {
            Some(&self.values[p])
        } else {
            None
        }
    }
}

impl<I: CoolIndex, T: PartialEq> Arena<I, T> {
    /// Interns `value`: the index of the value equal to it when there is
    /// one, otherwise `value` is stored at the end and its new index
    /// returned. An index is the position as a `u32`, truncated as `as`
    /// does.
    pub fn insert(&mut self, value: T) -> (index: I)
        ensures
            T::obeys_eq_spec() ==> final(self)@ == spec_intern(old(self)@, value),
            T::obeys_eq_spec() ==> index.spec_get() == intern_position(old(self)@, value) as u32,
            final(self)@ == old(self)@ || final(self)@ == old(self)@.push(value),
            T::obeys_eq_spec() && no_later_match(old(self)@) ==> no_later_match(final(self)@),
    {
        proof {
            lemma_intern_position(self@, value);
        }
        match first_match(self.values.as_slice(), &value) {
            Some(p) => {
                proof {
                    if T::obeys_eq_spec() {
                        lemma_first_match_unique(self@, value, p as int, intern_position(self@, value));
                    }
                }
                I::new(p as u32)
            },
            None => {
                let index = I::new(self.values.len() as u32);
                self.values.push(value);
                index
            },
        }
    }

    /// Whether a value equal to `value` is interned.
    #[must_use]
    pub fn contains(&self, value: &T) -> (r: bool)
        ensures
            T::obeys_eq_spec() ==> r == seq_has_match(self@, *value),
    {
        first_match(self.values.as_slice(), value).is_some()
    }

    /// The index of the value equal to `value`, if one is interned.
    #[must_use]
    pub fn get_index(&self, value: &T) -> (r: Option<I>)
        ensures
            T::obeys_eq_spec() ==> match r {
                Some(index) => seq_has_match(self@, *value) && index.spec_get() == intern_position(
                    self@,
                    *value,
                ) as u32,
                None => !seq_has_match(self@, *value),
            },
    {
        proof {
            lemma_intern_position(self@, *value);
        }
        match first_match(self.values.as_slice(), value) {
            Some(p) => {
                proof {
                    if T::obeys_eq_spec() {
                        lemma_first_match_unique(self@, *value, p as int, intern_position(self@, *value));
                    }
                }
                Some(I::new(p as u32))
            },
            None => None,
        }
    }
}

impl<I: CoolIndex> Arena<I, String> {
    /// The position of the first string whose characters are those of
    /// `value`.
    fn find_str(&self, value: &str) -> (r: Option<usize>)
        ensures
            match r {
                Some(p) => p < self@.len() && self@[p as int]@ == value@ && str_intern_position(
                    self@,
                    value@,
                ) == p,
                None => str_intern_position(self@, value@) == self@.len() && forall|j: int|
                    0 <= j < self@.len() ==> #[trigger] self@[j]@ != value@,
            },
    {
        let mut p: usize = 0;
        while p < self.values.len()
            invariant
                p <= self@.len(),
                forall|j: int| 0 <= j < p ==> #[trigger] self@[j]@ != value@,
            decreases self@.len() - p,
        {
            if str_eq(self.values[p].as_str(), value) {
                proof {
                    lemma_str_first(self@, value@, p as int);
                }
                return Some(p);
            }
            p += 1;
        }
        None
    }

    /// Interns a string: the index of the string with the same characters
    /// when there is one, otherwise a copy of `value` is stored at the end.
    pub fn insert_str(&mut self, value: &str) -> (index: I)
        ensures
            index.spec_get() == str_intern_position(old(self)@, value@) as u32,
            str_intern_position(old(self)@, value@) < old(self)@.len()
                ==> final(self)@ == old(self)@,
            str_intern_position(old(self)@, value@) == old(self)@.len() ==> {
                &&& final(self)@.len() == old(self)@.len() + 1
                &&& final(self)@.drop_last() == old(self)@
                &&& final(self)@.last()@ == value@
            },
            strs_distinct(old(self)@) ==> strs_distinct(final(self)@),
    {
        match self.find_str(value) {
            Some(p) => I::new(p as u32),
            None => {
                let index = I::new(self.values.len() as u32);
                self.values.push(value.to_owned());
                proof {
                    assert(self@.drop_last() =~= old(self)@);
                    if strs_distinct(old(self)@) {
                        assert forall|i: int, j: int| 0 <= i < j < self@.len() implies #[trigger] self@[i]@
                            != #[trigger] self@[j]@ by {
                            if j < old(self)@.len() {
                                assert(old(self)@[i]@ != old(self)@[j]@);
                            } else {
                                assert(old(self)@[i]@ != value@);
                            }
                        }
                    }
                }
                index
            },
        }
    }
}

impl<I: CoolIndex, T: Copy + PartialEq> Arena<I, Vec<T>> {
    /// The position of the first vector that matches `value` element by
    /// element.
    fn find_slice(&self, value: &[T]) -> (r: Option<usize>)
        ensures
            T::obeys_eq_spec() ==> match r {
                Some(p) => p < self@.len() && slice_intern_position(self@, value@) == p,
                None => slice_intern_position(self@, value@) == self@.len() && forall|j: int|
                    0 <= j < self@.len() ==> !seq_matches(#[trigger] self@[j]@, value@),
            },
    {
        let mut p: usize = 0;
        while p < self.values.len()
            invariant
                p <= self@.len(),
                T::obeys_eq_spec() ==> forall|j: int| 0 <= j < p ==> !seq_matches(#[trigger] self@[j]@, value@),
            decreases self@.len() - p,
        {
            if slices_match(self.values[p].as_slice(), value) {
                proof {
                    if T::obeys_eq_spec() {
                        lemma_slice_first(self@, value@, p as int);
                    }
                }
                return Some(p);
            }
            p += 1;
        }
        proof {
            if T::obeys_eq_spec() {
                if exists|i: int| 0 <= i < self@.len() && seq_matches(#[trigger] self@[i]@, value@) {
                    let i = choose|i: int| 0 <= i < self@.len() && seq_matches(#[trigger] self@[i]@, value@);
                    assert(!seq_matches(self@[i]@, value@));
                }
            }
        }
        None
    }

    /// Interns a slice: the index of the stored vector that matches it
    /// element by element when there is one, otherwise a copy of `value` is
    /// stored at the end.
    pub fn insert_slice(&mut self, value: &[T]) -> (index: I)
        ensures
            T::obeys_eq_spec() ==> index.spec_get() == slice_intern_position(old(self)@, value@) as u32,
            T::obeys_eq_spec() && slice_intern_position(old(self)@, value@) < old(self)@.len()
                ==> final(self)@ == old(self)@,
            T::obeys_eq_spec() && slice_intern_position(old(self)@, value@) == old(self)@.len() ==> {
                &&& final(self)@.len() == old(self)@.len() + 1
                &&& final(self)@.drop_last() == old(self)@
                &&& final(self)@.last()@ == value@
            },
            final(self)@ == old(self)@ || {
                &&& final(self)@.len() == old(self)@.len() + 1
                &&& final(self)@.drop_last() == old(self)@
                &&& final(self)@.last()@ == value@
            },
            T::obeys_eq_spec() && slices_distinct(old(self)@) ==> slices_distinct(final(self)@),
    {
        match self.find_slice(value) {
            Some(p) => I::new(p as u32),
            None => {
                let index = I::new(self.values.len() as u32);
                self.values.push(vstd::slice::slice_to_vec(value));
                proof {
                    assert(self@.drop_last() =~= old(self)@);
                    if T::obeys_eq_spec() && slices_distinct(old(self)@) {
                        assert forall|i: int, j: int| 0 <= i < j < self@.len() implies !seq_matches(
                            #[trigger] self@[i]@,
                            #[trigger] self@[j]@,
                        ) by {
                            if j < old(self)@.len() {
                                assert(!seq_matches(old(self)@[i]@, old(self)@[j]@));
                            } else {
                                assert(!seq_matches(old(self)@[i]@, value@));
                            }
                        }
                    }
                }
                index
            },
        }
    }
}

} // verus!
