//! A set kept as a vector in insertion order, for sets that stay small.
use vstd::prelude::*;
use vstd::std_specs::cmp::PartialEqSpec;
use crate::eq_search::{first_match, is_first_match, no_later_match, seq_has_match};

verus! {

/// A set of values kept in insertion order. Membership is decided by the
/// element type's `==`; `N` is the number of elements the set is sized for.
#[derive(Clone, Debug)]
pub struct SmallVecSet<T, const N: usize> {
    inner: Vec<T>,
}

impl<T, const N: usize> View for SmallVecSet<T, N> {
    type V = Seq<T>;

    /// The elements, in the order in which they were inserted.
    closed spec fn view(&self) -> Seq<T> {
        self.inner@
    }
}

impl<T, const N: usize> Default for SmallVecSet<T, N> {
    fn default() -> (r: Self)
        ensures
            r@ == Seq::<T>::empty(),
    {
        SmallVecSet { inner: Vec::new() }
    }
}

impl<T, const N: usize> SmallVecSet<T, N> {
    /// Adds `value` unless an element equal to it is already present;
    /// returns whether it was added.
    pub fn insert(&mut self, value: T) -> (added: bool)
        where
            T: PartialEq,
        ensures
            added ==> final(self)@ == old(self)@.push(value),
            !added ==> final(self)@ == old(self)@,
            T::obeys_eq_spec() ==> added == !seq_has_match(old(self)@, value),
            T::obeys_eq_spec() && no_later_match(old(self)@) ==> no_later_match(final(self)@),
    {
        if first_match(self.inner.as_slice(), &value).is_some() {
            return false;
        }
        self.inner.push(value);
        true
    }

    /// Whether an element equal to `value` is present.
    pub fn contains(&self, value: &T) -> (found: bool)
        where
            T: PartialEq,
        ensures
            T::obeys_eq_spec() ==> found == seq_has_match(self@, *value),
    {
        first_match(self.inner.as_slice(), value).is_some()
    }

    /// The position of the first element equal to `value`.
    pub fn position_of(&self, value: &T) -> (pos: Option<usize>)
        where
            T: PartialEq,
        ensures
            pos matches Some(i) ==> i < self@.len(),
            T::obeys_eq_spec() ==> match pos {
                Some(i) => is_first_match(self@, *value, i as int),
                None => !seq_has_match(self@, *value),
            },
    {
        first_match(self.inner.as_slice(), value)
    }

    /// Removes every element.
    pub fn clear(&mut self)
        ensures
            final(self)@ == Seq::<T>::empty(),
    {
        self.inner.clear()
    }

    pub fn is_empty(&self) -> (r: bool)
        ensures
            r == (self@.len() == 0),
    {
        self.inner.is_empty()
    }

    pub fn len(&self) -> (r: usize)
        ensures
            r == self@.len(),
    {
        self.inner.len()
    }

    /// The elements in insertion order.
    pub fn as_slice(&self) -> (r: &[T])
        ensures
            r@ == self@,
    {
        self.inner.as_slice()
    }

    /// The elements in insertion order, for changing them in place.
    pub fn as_mut_slice(&mut self) -> (r: &mut [T])
        ensures
            r@ == old(self)@,
            final(r)@ == final(self)@,
    {
        self.inner.as_mut_slice()
    }
}

} // verus!
