//! The symbol names under which items are emitted.
use vstd::prelude::*;
use crate::small_string::SmallString;
use crate::text::str_eq;

verus! {

/// The path segments joined with `__` between each two.
pub open spec fn spec_join_path(path: Seq<Seq<char>>) -> Seq<char>
    decreases path.len(),
{
    if path.len() == 0 {
        Seq::empty()
    } else if path.len() == 1 {
        path[0]
    } else {
        spec_join_path(path.drop_last()) + seq!['_', '_'] + path.last()
    }
}

/// The symbol name of the item at `path`: `main` for any path that ends
/// in `main`, the segments joined with `__` otherwise.
pub open spec fn spec_mangle(path: Seq<Seq<char>>) -> Seq<char> {
    if path.len() > 0 && path.last() == seq!['m', 'a', 'i', 'n'] {
        seq!['m', 'a', 'i', 'n']
    } else {
        spec_join_path(path)
    }
}

/// The segments of a path of strings, as character sequences.
pub open spec fn path_chars(path: Seq<&str>) -> Seq<Seq<char>> {
    path.map_values(|s: &str| s@)
}

/// The symbol name of the item whose path has the segments `path`.
pub fn mangle_item_path(path: &[&str]) -> (r: SmallString<16>)
    ensures
        r@ == spec_mangle(path_chars(path@)),
{
    let ghost segs = path_chars(path@);
    let n = path.len();
    if n == 0 {
        return SmallString::new();
    }
    proof {
        reveal_strlit("main");
        assert("main"@ =~= seq!['m', 'a', 'i', 'n']);
        assert(segs.last() == path@[n - 1]@);
    }
    if str_eq(path[n - 1], "main") {
        return SmallString::from_text("main");
    }
    let mut result: SmallString<16> = SmallString::from_text(path[0]);
    let mut i: usize = 1;
    proof {
        assert(segs.subrange(0, 1).len() == 1);
    }
    while i < n
        invariant
            1 <= i <= n,
            n == path@.len(),
            segs == path_chars(path@),
            result@ == spec_join_path(segs.subrange(0, i as int)),
        decreases n - i,
    {
        result.push_str("__");
        result.push_str(path[i]);
        proof {
            reveal_strlit("__");
            let next = segs.subrange(0, i + 1);
            assert(next.drop_last() =~= segs.subrange(0, i as int));
            assert(next.last() == path@[i as int]@);
            assert("__"@ =~= seq!['_', '_']);
        }
        i += 1;
    }
    proof {
        assert(segs.subrange(0, n as int) =~= segs);
    }
    result
}

} // verus!
