//! Linear search by `==`, shared by the vector-backed collections.
use vstd::prelude::*;
use vstd::std_specs::cmp::PartialEqSpec;

verus! {

/// Some element of `s` compares equal to `x`, the element standing on the
/// left of `==`.
pub open spec fn seq_has_match<T: PartialEq>(s: Seq<T>, x: T) -> bool {
    exists|i: int| 0 <= i < s.len() && #[trigger] s[i].eq_spec(&x)
}

/// `i` is the first position of `s` whose element compares equal to `x`.
pub open spec fn is_first_match<T: PartialEq>(s: Seq<T>, x: T, i: int) -> bool {
    &&& 0 <= i < s.len()
    &&& s[i].eq_spec(&x)
    &&& forall|j: int| 0 <= j < i ==> !#[trigger] s[j].eq_spec(&x)
}

/// No element of `s` compares equal to a later one.
pub open spec fn no_later_match<T: PartialEq>(s: Seq<T>) -> bool {
    forall|i: int, j: int| 0 <= i < j < s.len() ==> !#[trigger] s[i].eq_spec(&s[j])
}

/// `==` on `T` is the identity of values: what the hash and search
/// collections of this crate need of their element type to state laws.
pub open spec fn eq_is_identity<T: PartialEq>() -> bool {
    &&& T::obeys_eq_spec()
    &&& forall|x: T, y: T| #[trigger] x.eq_spec(&y) <==> x == y
}

/// Where some element compares equal to `x`, a first such element exists.
pub proof fn lemma_first_match_exists<T: PartialEq>(s: Seq<T>, x: T, w: int)
    requires
        0 <= w < s.len(),
        s[w].eq_spec(&x),
    ensures
        exists|i: int| is_first_match(s, x, i),
    decreases w,
{
    if exists|j: int| 0 <= j < w && #[trigger] s[j].eq_spec(&x) {
        let j = choose|j: int| 0 <= j < w && #[trigger] s[j].eq_spec(&x);
        lemma_first_match_exists(s, x, j);
    } else {
        assert(is_first_match(s, x, w));
    }
}

/// A sequence has at most one first match of `x`.
pub proof fn lemma_first_match_unique<T: PartialEq>(s: Seq<T>, x: T, i: int, j: int)
    requires
        is_first_match(s, x, i),
        is_first_match(s, x, j),
    ensures
        i == j,
{
    if i < j {
        assert(!s[i].eq_spec(&x));
    }
    if j < i {
        assert(!s[j].eq_spec(&x));
    }
}

/// The position of the first element of `s` that compares equal to `x`.
pub fn first_match<T: PartialEq>(s: &[T], x: &T) -> (r: Option<usize>)
    ensures
        T::obeys_eq_spec() ==> match r {
            Some(i) => is_first_match(s@, *x, i as int),
            None => !seq_has_match(s@, *x),
        },
        r matches Some(i) ==> i < s@.len(),
{
    let mut i: usize = 0;
    while i < s.len()
        invariant
            i <= s@.len(),
            T::obeys_eq_spec() ==> forall|j: int| 0 <= j < i ==> !#[trigger] s@[j].eq_spec(x),
        decreases s@.len() - i,
    {
        if s[i] == *x {
            return Some(i);
        }
        i += 1;
    }
    None
}

} // verus!
