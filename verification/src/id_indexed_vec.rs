//! A vector indexed by typed ids that count from one.
use vstd::prelude::*;
use core::marker::PhantomData;

verus! {

/// A nonzero `u32`: the number that an id carries.
#[derive(Clone, Copy, PartialEq, Eq, PartialOrd, Ord, Hash, Debug)]
pub struct NonZeroId(u32);

impl NonZeroId {
    #[verifier::type_invariant]
    spec fn nonzero(self) -> bool {
        self.0 != 0
    }

    /// The number carried.
    pub closed spec fn spec_get(self) -> u32 {
        self.0
    }

    /// The id carrying `value`, unless `value` is zero.
    pub fn new(value: u32) -> (r: Option<NonZeroId>)
        ensures
            r is Some <==> value != 0,
            r matches Some(id) ==> id.spec_get() == value,
    {
        if value != 0 {
            Some(NonZeroId(value))
        } else {
            None
        }
    }

    #[must_use]
    pub fn get(&self) -> (r: u32)
        ensures
            r == self.spec_get(),
            r != 0,
    {
        proof {
            use_type_invariant(self);
        }
        self.0
    }
}

/// An id of an element of an `IdIndexedVec`: built from the element's
/// number (its position plus one), it names that position.
pub trait Id: Copy + Eq + Sized {
    /// The position that this id names.
    spec fn spec_index(&self) -> int;

    /// The id of the element whose number is `number`.
    fn from_number(number: NonZeroId) -> (id: Self)
        ensures
            id.spec_index() == number.spec_get() - 1,
    ;

    fn index(&self) -> (r: usize)
        ensures
            r as int == self.spec_index(),
    ;
}

/// A number is the id of the element at the position one below it.
impl Id for NonZeroId {
    open spec fn spec_index(&self) -> int {
        self.spec_get() - 1
    }

    fn from_number(number: NonZeroId) -> (id: NonZeroId) {
        number
    }

    fn index(&self) -> (r: usize) {
        let n = self.get();
        (n - 1) as usize
    }
}

/// A vector whose elements are named by ids of type `I`.
#[derive(Debug)]
pub struct IdIndexedVec<I, T> {
    values: Vec<T>,
    ids: PhantomData<I>,
}

impl<I, T> View for IdIndexedVec<I, T> {
    type V = Seq<T>;

    /// The elements, in the order in which they were pushed.
    closed spec fn view(&self) -> Seq<T> {
        self.values@
    }
}

impl<I, T: Clone> Clone for IdIndexedVec<I, T> {
    fn clone(&self) -> (r: Self)
        ensures
            r@.len() == self@.len(),
            forall|i: int| 0 <= i < self@.len() ==> cloned::<T>(self@[i], #[trigger] r@[i]),
    {
        IdIndexedVec { values: self.values.clone(), ids: PhantomData }
    }
}

impl<I, T> Default for IdIndexedVec<I, T> {
    fn default() -> (r: Self)
        ensures
            r@ == Seq::<T>::empty(),
    {
        IdIndexedVec { values: Vec::new(), ids: PhantomData }
    }
}

impl<I, T> IdIndexedVec<I, T> {
    pub fn new() -> (r: Self)
        ensures
            r@ == Seq::<T>::empty(),
    {
        IdIndexedVec { values: Vec::new(), ids: PhantomData }
    }

    /// Appends `value` and returns the id made of its number, the new
    /// length taken as a `u32` (truncated as `as` does; that number is
    /// never zero here).
    pub fn push(&mut self, value: T) -> (id: I)
        where
            I: Id,
        requires
            (old(self)@.len() + 1) as u32 != 0,
        ensures
            final(self)@ == old(self)@.push(value),
            id.spec_index() == ((old(self)@.len() + 1) as u32) - 1,
    {
        self.values.push(value);
        match NonZeroId::new(self.values.len() as u32) {
            Some(number) => I::from_number(number),
            None => {
                proof {
                    assert(false);
                }
                I::from_number(NonZeroId(1))
            },
        }
    }

    /// Appends `value`, whose id must name the same position as
    /// `expected_id`.
    pub fn push_checked(&mut self, expected_id: I, value: T)
        where
            I: Id,
        requires
            (old(self)@.len() + 1) as u32 != 0,
            expected_id.spec_index() == ((old(self)@.len() + 1) as u32) - 1,
        ensures
            final(self)@ == old(self)@.push(value),
    {
        let found_id = self.push(value);
        let found = found_id.index();
        let expected = expected_id.index();
        if found != expected {
            proof {
                assert(false);
            }
        }
    }

    /// The element that `id` names.
    pub fn get(&self, id: I) -> (r: &T)
        where
            I: Id,
        requires
            0 <= id.spec_index() < self@.len(),
        ensures
            *r == self@[id.spec_index()],
    {
        &self.values[id.index()]
    }

    /// The element that `id` names, for changing it in place.
    pub fn get_mut(&mut self, id: I) -> (r: &mut T)
        where
            I: Id,
        requires
            0 <= id.spec_index() < old(self)@.len(),
        ensures
            *r == old(self)@[id.spec_index()],
            final(self)@ == old(self)@.update(id.spec_index(), *final(r)),
    {
        let i = id.index();
        &mut self.values[i]
    }

    /// The elements in order.
    pub fn as_slice(&self) -> (r: &[T])
        ensures
            r@ == self@,
    {
        self.values.as_slice()
    }

    /// The elements in order, for changing them in place.
    pub fn as_mut_slice(&mut self) -> (r: &mut [T])
        ensures
            r@ == old(self)@,
            final(r)@ == final(self)@,
    {
        self.values.as_mut_slice()
    }
}

/// The id that a push returns names the value pushed, as long as the
/// vector holds fewer than 2^32 - 1 elements before the push.
pub proof fn lemma_push_then_get<T>(s: Seq<T>, value: T, index: int)
    requires
        s.len() + 1 < 0x1_0000_0000,
        index == ((s.len() + 1) as u32) - 1,
    ensures
        index == s.len(),
        0 <= index < s.push(value).len(),
        s.push(value)[index] == value,
{
}

} // verus!
