//! Which deferred statements run when control leaves nested frames.
//!
//! Frames form a tree given by `parents`: the parent of frame `f` is
//! `parents[f]`, the root has none. `has_defer[f]` says whether frame `f`
//! holds a deferred statement.
use vstd::prelude::*;

verus! {

/// The parent of frame `f`, when `f` is a frame and has one.
pub open spec fn parent_of(parents: Seq<Option<u32>>, f: u32) -> Option<u32> {
    if f < parents.len() {
        parents[f as int]
    } else {
        None
    }
}

/// The frame `k` steps up from `f`.
pub open spec fn ancestor(parents: Seq<Option<u32>>, f: u32, k: nat) -> Option<u32>
    decreases k,
{
    if k == 0 {
        Some(f)
    } else {
        match parent_of(parents, f) {
            Some(p) => ancestor(parents, p, (k - 1) as nat),
            None => None,
        }
    }
}

/// Whether frame `f` holds a deferred statement.
pub open spec fn holds_defer(has_defer: Seq<bool>, f: u32) -> bool {
    f < has_defer.len() && has_defer[f as int]
}

/// The frames whose deferred statements are generated when leaving every
/// frame from `f` up to, and excluding, `stop` (at most `fuel` frames),
/// innermost first; a frame already in `seen` is not generated twice.
pub open spec fn deferred_until(
    parents: Seq<Option<u32>>,
    has_defer: Seq<bool>,
    f: u32,
    stop: u32,
    fuel: nat,
    seen: Seq<u32>,
) -> Seq<u32>
    decreases fuel,
{
    if fuel == 0 || f == stop {
        Seq::empty()
    } else {
        let emit = holds_defer(has_defer, f) && !seen.contains(f);
        let seen2 = if emit { seen.push(f) } else { seen };
        let rest = match parent_of(parents, f) {
            Some(p) => deferred_until(parents, has_defer, p, stop, (fuel - 1) as nat, seen2),
            None => Seq::empty(),
        };
        if emit { seq![f] + rest } else { rest }
    }
}

/// The frames whose deferred statements are generated when returning from
/// frame `f`: every frame from `f` up to the root, root included (at most
/// `fuel` frames), innermost first, none twice.
pub open spec fn deferred_to_root(
    parents: Seq<Option<u32>>,
    has_defer: Seq<bool>,
    f: u32,
    fuel: nat,
    seen: Seq<u32>,
) -> Seq<u32>
    decreases fuel,
{
    if fuel == 0 {
        Seq::empty()
    } else {
        let emit = holds_defer(has_defer, f) && !seen.contains(f);
        let seen2 = if emit { seen.push(f) } else { seen };
        let rest = match parent_of(parents, f) {
            Some(p) => deferred_to_root(parents, has_defer, p, (fuel - 1) as nat, seen2),
            None => Seq::empty(),
        };
        if emit { seq![f] + rest } else { rest }
    }
}

/// A number of steps that takes `last` up to `first`, when there is one.
pub open spec fn steps_up_to(parents: Seq<Option<u32>>, last: u32, first: u32) -> nat {
    choose|k: nat| ancestor(parents, last, k) == Some(first)
}

/// One more than a number of steps that takes `frame` up to the root, when
/// there is one.
pub open spec fn steps_to_root(parents: Seq<Option<u32>>, frame: u32) -> nat {
    (choose|k: nat| #[trigger] ancestor(parents, frame, k) matches Some(root) && parent_of(parents, root) is None) + 1
}

/// Whether `f` is in `s`.
fn contains_frame(s: &Vec<u32>, f: u32) -> (r: bool)
    ensures
        r == s@.contains(f),
{
    let mut i: usize = 0;
    while i < s.len()
        invariant
            i <= s@.len(),
            forall|j: int| 0 <= j < i ==> s@[j] != f,
        decreases s@.len() - i,
    {
        if s[i] == f {
            return true;
        }
        i += 1;
    }
    false
}

/// The frames whose deferred statements are generated, innermost first,
/// when control leaves every frame from `last` up to `first` (`first`
/// excluded), as for a `break` or a `continue`. The walk from `last` must
/// reach `first`: it fails when it meets the root first.
pub fn defer_frames(parents: &[Option<u32>], has_defer: &[bool], first: u32, last: u32) -> (r: Vec<u32>)
    requires
        exists|k: nat| ancestor(parents@, last, k) == Some(first),
    ensures
        r@ == deferred_until(
            parents@,
            has_defer@,
            last,
            first,
            steps_up_to(parents@, last, first),
            Seq::empty(),
        ),
{
    let ghost steps = steps_up_to(parents@, last, first);
    let mut out: Vec<u32> = Vec::new();
    let mut current = last;
    let ghost mut k: nat = steps;
    while current != first
        invariant
            ancestor(parents@, current, k) == Some(first),
            out@ + deferred_until(parents@, has_defer@, current, first, k, out@)
                == deferred_until(parents@, has_defer@, last, first, steps, Seq::empty()),
        decreases k,
    {
        let ghost before = out@;
        let emit = (current as usize) < has_defer.len() && has_defer[current as usize]
            && !contains_frame(&out, current);
        if emit {
            out.push(current);
        }
        let parent = if (current as usize) < parents.len() {
            parents[current as usize]
        } else {
            None
        };
        match parent {
            Some(p) => {
                proof {
                    assert(k > 0);
                    let rest = deferred_until(parents@, has_defer@, p, first, (k - 1) as nat, out@);
                    if emit {
                        assert(deferred_until(parents@, has_defer@, current, first, k, before) == seq![current] + rest);
                        assert(before + (seq![current] + rest) =~= out@ + rest);
                    } else {
                        assert(out@ == before);
                    }
                    k = (k - 1) as nat;
                }
                current = p;
            },
            None => {
                proof {
                    assert(false);
                }
                return out;
            },
        }
    }
    proof {
        assert(out@ + Seq::<u32>::empty() =~= out@);
    }
    out
}

/// The frames whose deferred statements are generated, innermost first,
/// when returning from frame `frame`: every frame up to the root, root
/// included. The walk must reach the root: it runs forever otherwise.
pub fn return_defer_frames(parents: &[Option<u32>], has_defer: &[bool], frame: u32) -> (r: Vec<u32>)
    requires
        exists|k: nat| #[trigger] ancestor(parents@, frame, k) matches Some(root) && parent_of(parents@, root) is None,
    ensures
        r@ == deferred_to_root(parents@, has_defer@, frame, steps_to_root(parents@, frame), Seq::empty()),
{
    let ghost steps = steps_to_root(parents@, frame);
    let mut out: Vec<u32> = Vec::new();
    let mut current = frame;
    let ghost mut k: nat = steps;
    loop
        invariant_except_break
            k > 0,
            ancestor(parents@, current, (k - 1) as nat) matches Some(root) && parent_of(parents@, root) is None,
            out@ + deferred_to_root(parents@, has_defer@, current, k, out@)
                == deferred_to_root(parents@, has_defer@, frame, steps, Seq::empty()),
        ensures
            out@ == deferred_to_root(parents@, has_defer@, frame, steps, Seq::empty()),
        decreases k,
    {
        let ghost before = out@;
        let emit = (current as usize) < has_defer.len() && has_defer[current as usize]
            && !contains_frame(&out, current);
        if emit {
            out.push(current);
        }
        let parent = if (current as usize) < parents.len() {
            parents[current as usize]
        } else {
            None
        };
        match parent {
            Some(p) => {
                proof {
                    assert(k > 1);
                    let rest = deferred_to_root(parents@, has_defer@, p, (k - 1) as nat, out@);
                    if emit {
                        assert(deferred_to_root(parents@, has_defer@, current, k, before) == seq![current] + rest);
                        assert(before + (seq![current] + rest) =~= out@ + rest);
                    } else {
                        assert(out@ == before);
                    }
                    k = (k - 1) as nat;
                }
                current = p;
            },
            None => {
                proof {
                    if emit {
                        assert(deferred_to_root(parents@, has_defer@, current, k, before) == seq![current]);
                        assert(before + seq![current] =~= out@);
                    } else {
                        assert(before + Seq::<u32>::empty() =~= out@);
                    }
                }
                break;
            },
        }
    }
    out
}

/// No frame's deferred statement is generated twice, and none that was
/// already generated: the frames listed are distinct and none is in `seen`.
pub proof fn lemma_deferred_until_distinct(
    parents: Seq<Option<u32>>,
    has_defer: Seq<bool>,
    f: u32,
    stop: u32,
    fuel: nat,
    seen: Seq<u32>,
)
    ensures
        ({
            let r = deferred_until(parents, has_defer, f, stop, fuel, seen);
            &&& r.no_duplicates()
            &&& forall|i: int| 0 <= i < r.len() ==> !seen.contains(#[trigger] r[i])
        }),
    decreases fuel,
{
    if fuel == 0 || f == stop {
    } else {
        let emit = holds_defer(has_defer, f) && !seen.contains(f);
        let seen2 = if emit { seen.push(f) } else { seen };
        match parent_of(parents, f) {
            Some(p) => {
                lemma_deferred_until_distinct(parents, has_defer, p, stop, (fuel - 1) as nat, seen2);
            },
            None => {},
        }
        let rest = match parent_of(parents, f) {
            Some(p) => deferred_until(parents, has_defer, p, stop, (fuel - 1) as nat, seen2),
            None => Seq::empty(),
        };
        let r = deferred_until(parents, has_defer, f, stop, fuel, seen);
        if emit {
            assert(r == seq![f] + rest);
            assert forall|i: int| 0 <= i < rest.len() implies #[trigger] rest[i] != f && !seen.contains(rest[i]) by {
                assert(!seen2.contains(rest[i]));
                assert(seen2[seen.len() as int] == f);
                if seen.contains(rest[i]) {
                    let j = choose|j: int| 0 <= j < seen.len() && seen[j] == rest[i];
                    assert(seen2[j] == rest[i]);
                }
            }
            assert forall|i: int, j: int| 0 <= i < r.len() && 0 <= j < r.len() && i != j implies r[i] != r[j] by {
                if i == 0 {
                    assert(r[j] == rest[j - 1]);
                } else if j == 0 {
                    assert(r[i] == rest[i - 1]);
                } else {
                    assert(r[i] == rest[i - 1] && r[j] == rest[j - 1]);
                }
            }
        } else {
            assert(r == rest);
        }
    }
}

/// The same of the frames generated on a return.
pub proof fn lemma_deferred_to_root_distinct(
    parents: Seq<Option<u32>>,
    has_defer: Seq<bool>,
    f: u32,
    fuel: nat,
    seen: Seq<u32>,
)
    ensures
        ({
            let r = deferred_to_root(parents, has_defer, f, fuel, seen);
            &&& r.no_duplicates()
            &&& forall|i: int| 0 <= i < r.len() ==> !seen.contains(#[trigger] r[i])
        }),
    decreases fuel,
{
    if fuel == 0 {
    } else {
        let emit = holds_defer(has_defer, f) && !seen.contains(f);
        let seen2 = if emit { seen.push(f) } else { seen };
        match parent_of(parents, f) {
            Some(p) => {
                lemma_deferred_to_root_distinct(parents, has_defer, p, (fuel - 1) as nat, seen2);
            },
            None => {},
        }
        let rest = match parent_of(parents, f) {
            Some(p) => deferred_to_root(parents, has_defer, p, (fuel - 1) as nat, seen2),
            None => Seq::empty(),
        };
        let r = deferred_to_root(parents, has_defer, f, fuel, seen);
        if emit {
            assert(r == seq![f] + rest);
            assert forall|i: int| 0 <= i < rest.len() implies #[trigger] rest[i] != f && !seen.contains(rest[i]) by {
                assert(!seen2.contains(rest[i]));
                assert(seen2[seen.len() as int] == f);
                if seen.contains(rest[i]) {
                    let j = choose|j: int| 0 <= j < seen.len() && seen[j] == rest[i];
                    assert(seen2[j] == rest[i]);
                }
            }
            assert forall|i: int, j: int| 0 <= i < r.len() && 0 <= j < r.len() && i != j implies r[i] != r[j] by {
                if i == 0 {
                    assert(r[j] == rest[j - 1]);
                } else if j == 0 {
                    assert(r[i] == rest[i - 1]);
                } else {
                    assert(r[i] == rest[i - 1] && r[j] == rest[j - 1]);
                }
            }
        } else {
            assert(r == rest);
        }
    }
}

} // verus!
