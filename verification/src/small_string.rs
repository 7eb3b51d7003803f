//! A string kept as its UTF-8 bytes, for strings that stay short.
use vstd::prelude::*;
use vstd::string::StringSliceAdditionalSpecFns;
use vstd::utf8::{encode_scalar, encode_utf8};
use crate::text::bytes_eq;
use vstd::std_specs::cmp::PartialEqSpecImpl;
use vstd::std_specs::cmp::PartialOrdSpecImpl;
use core::cmp::Ordering;

verus! {

/// The UTF-8 encoding of `s` followed by `c` is that of `s` followed by
/// that of `c`.
pub proof fn lemma_encode_utf8_push(s: Seq<char>, c: char)
    ensures
        encode_utf8(s.push(c)) == encode_utf8(s) + encode_scalar(c as u32),
    decreases s.len(),
{
    if s.len() == 0 {
        assert(s.push(c).drop_first() =~= Seq::<char>::empty());
        assert(encode_utf8(s.push(c)) =~= encode_scalar(c as u32) + encode_utf8(Seq::<char>::empty()));
        assert(encode_utf8(s) =~= Seq::<u8>::empty());
        assert(encode_utf8(s.push(c)) =~= encode_utf8(s) + encode_scalar(c as u32));
    } else {
        assert(s.push(c).drop_first() =~= s.drop_first().push(c));
        lemma_encode_utf8_push(s.drop_first(), c);
        assert(s.push(c)[0] == s[0]);
        assert(encode_utf8(s.push(c)) =~= encode_scalar(s[0] as u32) + encode_utf8(s.drop_first().push(c)));
        assert(encode_utf8(s) =~= encode_scalar(s[0] as u32) + encode_utf8(s.drop_first()));
        assert(encode_utf8(s.push(c)) =~= encode_utf8(s) + encode_scalar(c as u32));
    }
}

/// The UTF-8 encoding of a concatenation is the concatenation of the
/// encodings.
pub proof fn lemma_encode_utf8_concat(a: Seq<char>, b: Seq<char>)
    ensures
        encode_utf8(a + b) == encode_utf8(a) + encode_utf8(b),
    decreases a.len(),
{
    if a.len() == 0 {
        assert(a + b =~= b);
        assert(encode_utf8(a) =~= Seq::<u8>::empty());
        assert(encode_utf8(a) + encode_utf8(b) =~= encode_utf8(b));
    } else {
        assert((a + b).drop_first() =~= a.drop_first() + b);
        assert((a + b)[0] == a[0]);
        lemma_encode_utf8_concat(a.drop_first(), b);
        assert(encode_utf8(a + b) =~= encode_scalar(a[0] as u32) + encode_utf8(a.drop_first() + b));
        assert(encode_utf8(a) =~= encode_scalar(a[0] as u32) + encode_utf8(a.drop_first()));
        assert(encode_utf8(a + b) =~= encode_utf8(a) + encode_utf8(b));
    }
}

/// `std::str::from_utf8`: the bytes read as a `str` when they are valid
/// UTF-8. Its documentation promises success exactly on valid UTF-8 and a
/// `str` made of the very bytes given; that is what this contract claims.
#[verifier::external_body]
fn str_from_utf8(v: &[u8]) -> (r: Option<&str>)
    ensures
        r is Some <==> vstd::utf8::valid_utf8(v@),
        r matches Some(s) ==> s.spec_bytes() == v@,
{
    std::str::from_utf8(v).ok()
}

/// A string of characters kept as its UTF-8 bytes; `N` is the number of
/// bytes it is sized for.
pub struct SmallString<const N: usize> {
    data: Vec<u8>,
    chars: Ghost<Seq<char>>,
}

impl<const N: usize> SmallString<N> {
    #[verifier::type_invariant]
    spec fn encodes(self) -> bool {
        self.data@ == encode_utf8(self.chars@)
    }
}

impl<const N: usize> View for SmallString<N> {
    type V = Seq<char>;

    /// The characters.
    closed spec fn view(&self) -> Seq<char> {
        self.chars@
    }
}

impl<const N: usize, const M: usize> PartialEq<SmallString<M>> for SmallString<N> {
    fn eq(&self, other: &SmallString<M>) -> (r: bool) {
        proof {
            use_type_invariant(self);
            use_type_invariant(other);
            broadcast use vstd::utf8::encode_utf8_decode_utf8;
        }
        let r = bytes_eq(self.data.as_slice(), other.data.as_slice());
        proof {
            if r {
                assert(vstd::utf8::decode_utf8(encode_utf8(self.chars@)) == vstd::utf8::decode_utf8(
                    encode_utf8(other.chars@),
                ));
            }
        }
        r
    }
}

/// Two small strings are equal when they hold the same characters.
impl<const N: usize, const M: usize> PartialEqSpecImpl<SmallString<M>> for SmallString<N> {
    open spec fn obeys_eq_spec() -> bool {
        true
    }

    open spec fn eq_spec(&self, other: &SmallString<M>) -> bool {
        self@ == other@
    }
}

/// The lexicographic order of two byte strings: the first differing byte
/// decides, and a proper prefix comes first. This is how `str` values are
/// ordered, by their UTF-8 bytes.
pub open spec fn bytes_order(a: Seq<u8>, b: Seq<u8>) -> Ordering
    decreases a.len(),
{
    if a.len() == 0 {
        if b.len() == 0 {
            Ordering::Equal
        } else {
            Ordering::Less
        }
    } else if b.len() == 0 {
        Ordering::Greater
    } else if a[0] < b[0] {
        Ordering::Less
    } else if a[0] > b[0] {
        Ordering::Greater
    } else {
        bytes_order(a.drop_first(), b.drop_first())
    }
}

/// The bytes of `s` from position `i` on.
pub open spec fn byte_suffix(s: Seq<u8>, i: usize) -> Seq<u8> {
    s.skip(i as int)
}

/// Compares two byte strings lexicographically.
fn compare_bytes(a: &[u8], b: &[u8]) -> (r: Ordering)
    ensures
        r == bytes_order(a@, b@),
{
    let mut i: usize = 0;
    proof {
        assert(byte_suffix(a@, 0) =~= a@);
        assert(byte_suffix(b@, 0) =~= b@);
    }
    while i < a.len() && i < b.len()
        invariant
            i <= a@.len(),
            i <= b@.len(),
            bytes_order(a@, b@) == bytes_order(byte_suffix(a@, i), byte_suffix(b@, i)),
        decreases a@.len() - i,
    {
        proof {
            assert(byte_suffix(a@, i).drop_first() =~= a@.skip(i + 1));
            assert(byte_suffix(b@, i).drop_first() =~= b@.skip(i + 1));
        }
        if a[i] < b[i] {
            return Ordering::Less;
        }
        if a[i] > b[i] {
            return Ordering::Greater;
        }
        i += 1;
    }
    if i < a.len() {
        Ordering::Greater
    } else if i < b.len() {
        Ordering::Less
    } else {
        Ordering::Equal
    }
}

impl<const N: usize> PartialOrd for SmallString<N> {
    fn partial_cmp(&self, other: &Self) -> (r: Option<Ordering>) {
        proof {
            use_type_invariant(self);
            use_type_invariant(other);
        }
        Some(compare_bytes(self.data.as_slice(), other.data.as_slice()))
    }
}

/// Small strings are ordered as the `str` values they hold: by their UTF-8
/// bytes, lexicographically.
impl<const N: usize> PartialOrdSpecImpl for SmallString<N> {
    open spec fn obeys_partial_cmp_spec() -> bool {
        true
    }

    open spec fn partial_cmp_spec(&self, other: &Self) -> Option<Ordering> {
        Some(bytes_order(encode_utf8(self@), encode_utf8(other@)))
    }
}

impl<const N: usize> Eq for SmallString<N> {

}

impl<const N: usize> Clone for SmallString<N> {
    fn clone(&self) -> (r: Self)
        ensures
            r@ == self@,
    {
        proof {
            use_type_invariant(self);
        }
        let data = self.data.clone();
        proof {
            assert(data@ =~= self.data@);
        }
        SmallString { data, chars: Ghost(self.chars@) }
    }
}

impl<const N: usize> Default for SmallString<N> {
    fn default() -> (r: Self)
        ensures
            r@ == Seq::<char>::empty(),
    {
        SmallString { data: Vec::new(), chars: Ghost(Seq::empty()) }
    }
}

impl SmallString<16> {
    /// The empty string.
    pub fn new() -> (r: Self)
        ensures
            r@ == Seq::<char>::empty(),
    {
        SmallString { data: Vec::new(), chars: Ghost(Seq::empty()) }
    }
}

impl<const N: usize> SmallString<N> {
    /// The string with the characters of `value`.
    pub fn from_text(value: &str) -> (r: Self)
        ensures
            r@ == value@,
    {
        let mut r = SmallString { data: Vec::new(), chars: Ghost(Seq::empty()) };
        r.push_str(value);
        proof {
            assert(Seq::<char>::empty() + value@ =~= value@);
        }
        r
    }

    /// Appends `c`, which must be an ASCII character (one byte of UTF-8).
    pub fn push(&mut self, c: char)
        requires
            (c as u32) < 0x80,
        ensures
            final(self)@ == old(self)@.push(c),
    {
        proof {
            use_type_invariant(&*self);
        }
        let mut taken = SmallString { data: Vec::new(), chars: Ghost(Seq::empty()) };
        std::mem::swap(self, &mut taken);
        let SmallString { data: mut data, chars: Ghost(chars) } = taken;
        let b = (c as u32) as u8;
        data.push(b);
        proof {
            lemma_encode_utf8_push(chars, c);
            let u = c as u32;
            assert((u & 0x7F) as u8 == u as u8) by (bit_vector)
                requires
                    u < 0x80,
            ;
            assert(encode_scalar(c as u32) =~= seq![b]);
            assert(data@ =~= encode_utf8(chars.push(c)));
        }
        *self = SmallString { data, chars: Ghost(chars.push(c)) };
    }

    /// Appends the characters of `s`.
    pub fn push_str(&mut self, s: &str)
        ensures
            final(self)@ == old(self)@ + s@,
    {
        proof {
            use_type_invariant(&*self);
        }
        let mut taken = SmallString { data: Vec::new(), chars: Ghost(Seq::empty()) };
        std::mem::swap(self, &mut taken);
        let SmallString { data: mut data, chars: Ghost(chars) } = taken;
        let bytes = s.as_bytes();
        let ghost start = data@;
        let mut i: usize = 0;
        while i < bytes.len()
            invariant
                i <= bytes@.len(),
                data@ == start + bytes@.subrange(0, i as int),
            decreases bytes@.len() - i,
        {
            data.push(bytes[i]);
            proof {
                assert(bytes@.subrange(0, i + 1) =~= bytes@.subrange(0, i as int).push(bytes@[i as int]));
            }
            i += 1;
        }
        proof {
            assert(bytes@.subrange(0, bytes@.len() as int) =~= bytes@);
            lemma_encode_utf8_concat(chars, s@);
        }
        *self = SmallString { data, chars: Ghost(chars + s@) };
    }

    /// Removes every character.
    pub fn clear(&mut self)
        ensures
            final(self)@ == Seq::<char>::empty(),
    {
        *self = SmallString { data: Vec::new(), chars: Ghost(Seq::empty()) };
    }

    /// The number of bytes of the UTF-8 encoding.
    #[must_use]
    pub fn len(&self) -> (r: usize)
        ensures
            r == encode_utf8(self@).len(),
    {
        proof {
            use_type_invariant(self);
        }
        self.data.len()
    }

    #[must_use]
    pub fn is_empty(&self) -> (r: bool)
        ensures
            r == (self@.len() == 0),
    {
        proof {
            use_type_invariant(self);
            if self.chars@.len() > 0 {
                let c = self.chars@[0];
                assert(encode_utf8(self.chars@) == encode_scalar(c as u32) + encode_utf8(
                    self.chars@.drop_first(),
                ));
                assert(encode_scalar(c as u32).len() > 0);
            }
        }
        self.data.len() == 0
    }

    /// The characters as a `str`.
    #[must_use]
    pub fn as_str(&self) -> (r: &str)
        ensures
            r@ == self@,
    {
        proof {
            use_type_invariant(self);
            broadcast use vstd::utf8::encode_utf8_valid_utf8, vstd::utf8::encode_utf8_decode_utf8;
        }
        match str_from_utf8(self.data.as_slice()) {
            Some(r) => {
                proof {
                    assert(vstd::utf8::decode_utf8(r.spec_bytes()) == vstd::utf8::decode_utf8(
                        encode_utf8(self.chars@),
                    ));
                }
                r
            },
            None => {
                proof {
                    assert(false);
                }
                ""
            },
        }
    }
}

} // verus!
