//! Strongly typed indexes.
use vstd::prelude::*;

verus! {

/// A strongly typed index: a `u32` under a type of its own. What `get`
/// returns is the value that `new` was given.
pub trait CoolIndex: Copy + Sized {
    /// The number that this index stands for.
    spec fn spec_get(&self) -> u32;

    fn new(value: u32) -> (index: Self)
        ensures
            index.spec_get() == value,
    ;

    #[must_use]
    fn get(&self) -> (value: u32)
        ensures
            value == self.spec_get(),
    ;
}

/// A plain `u32` is an index of itself.
impl CoolIndex for u32 {
    open spec fn spec_get(&self) -> u32 {
        *self
    }

    fn new(value: u32) -> (index: u32) {
        value
    }

    fn get(&self) -> (value: u32) {
        *self
    }
}

} // verus!
