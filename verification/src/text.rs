//! Comparing strings by their UTF-8 bytes.
use vstd::prelude::*;
use vstd::string::StringSliceAdditionalSpecFns;

verus! {

/// Whether two byte slices hold the same bytes.
pub fn bytes_eq(a: &[u8], b: &[u8]) -> (r: bool)
    ensures
        r == (a@ == b@),
{
    if a.len() != b.len() {
        return false;
    }
    let mut i: usize = 0;
    while i < a.len()
        invariant
            a@.len() == b@.len(),
            i <= a@.len(),
            forall|j: int| 0 <= j < i ==> a@[j] == b@[j],
        decreases a@.len() - i,
    {
        if a[i] != b[i] {
            return false;
        }
        i += 1;
    }
    assert(a@ =~= b@);
    true
}

/// Whether two strings hold the same characters.
pub fn str_eq(a: &str, b: &str) -> (r: bool)
    ensures
        r == (a@ == b@),
{
    proof {
        broadcast use vstd::utf8::encode_utf8_decode_utf8;
    }
    let r = bytes_eq(a.as_bytes(), b.as_bytes());
    proof {
        if r {
            assert(vstd::utf8::decode_utf8(a.spec_bytes()) == vstd::utf8::decode_utf8(b.spec_bytes()));
        }
    }
    r
}

} // verus!
