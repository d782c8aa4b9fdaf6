use std::collections::HashMap;
use vstd::prelude::*;
use vstd::std_specs::hash::spec_keys_iter;
use vstd::std_specs::iter::IteratorSpec;

verus! {

broadcast use vstd::std_specs::hash::group_hash_axioms;

/// The keys of a map keyed by `u128`, each exactly once, in the map's iteration order.
pub fn keys_u128<V>(m: &HashMap<u128, V>) -> (r: Vec<u128>)
    ensures
        r@.to_set() == m@.dom(),
        r@.no_duplicates(),
        r@.len() == m@.dom().len(),
{
    let ghost ks = spec_keys_iter(m).remaining();
    let mut out: Vec<u128> = Vec::new();
    for k in it: m.keys()
        invariant
            it.seq() == ks,
            out@.len() == it.index(),
            forall|i: int| 0 <= i < it.index() ==> out@[i] == *ks[i],
    {
        out.push(*k);
    }
    assert(out@ =~= ks.unref());
    out
}

/// The keys of a map keyed by `i32`, each exactly once, in the map's iteration order.
pub fn keys_i32<V>(m: &HashMap<i32, V>) -> (r: Vec<i32>)
    ensures
        r@.to_set() == m@.dom(),
        r@.no_duplicates(),
        r@.len() == m@.dom().len(),
{
    let ghost ks = spec_keys_iter(m).remaining();
    let mut out: Vec<i32> = Vec::new();
    for k in it: m.keys()
        invariant
            it.seq() == ks,
            out@.len() == it.index(),
            forall|i: int| 0 <= i < it.index() ==> out@[i] == *ks[i],
    {
        out.push(*k);
    }
    assert(out@ =~= ks.unref());
    out
}

/// Growing a prefix of a sequence without repeats by one element adds exactly that element,
/// which the shorter prefix did not hold.
pub proof fn lemma_prefix_grows<T>(s: Seq<T>, n: int)
    requires
        s.no_duplicates(),
        0 <= n < s.len(),
    ensures
        !s.subrange(0, n).contains(s[n]),
        forall|x: T|
            s.subrange(0, n + 1).contains(x) <==> (s.subrange(0, n).contains(x) || x == s[n]),
{
    if s.subrange(0, n).contains(s[n]) {
        let j = choose|j: int| 0 <= j < n && #[trigger] s.subrange(0, n)[j] == s[n];
        assert(s[j] == s[n]);
    }
    assert forall|x: T|
        s.subrange(0, n + 1).contains(x) <==> (s.subrange(0, n).contains(x) || x == s[n]) by {
        if s.subrange(0, n + 1).contains(x) {
            let j = choose|j: int| 0 <= j < n + 1 && #[trigger] s.subrange(0, n + 1)[j] == x;
            if j < n {
                assert(s.subrange(0, n)[j] == x);
            }
        }
        if s.subrange(0, n).contains(x) {
            let j = choose|j: int| 0 <= j < n && #[trigger] s.subrange(0, n)[j] == x;
            assert(s.subrange(0, n + 1)[j] == x);
        }
        if x == s[n] {
            assert(s.subrange(0, n + 1)[n] == x);
        }
    }
}

/// Appending an element adds exactly that element, and keeps a sequence free of repeats when
/// the element was not there yet.
pub proof fn lemma_push_contains<T>(s: Seq<T>, a: T)
    ensures
        forall|x: T| s.push(a).contains(x) <==> (s.contains(x) || x == a),
        s.no_duplicates() && !s.contains(a) ==> s.push(a).no_duplicates(),
{
    assert forall|x: T| s.push(a).contains(x) <==> (s.contains(x) || x == a) by {
        if s.push(a).contains(x) {
            let i = choose|i: int| 0 <= i < s.push(a).len() && #[trigger] s.push(a)[i] == x;
            if i < s.len() {
                assert(s[i] == x);
            }
        }
        if s.contains(x) {
            let i = choose|i: int| 0 <= i < s.len() && #[trigger] s[i] == x;
            assert(s.push(a)[i] == x);
        }
        if x == a {
            assert(s.push(a)[s.len() as int] == x);
        }
    }
    if s.no_duplicates() && !s.contains(a) {
        assert forall|i: int, j: int|
            0 <= i < s.push(a).len() && 0 <= j < s.push(a).len() && i != j implies s.push(a)[i]
            != s.push(a)[j] by {
            if i == s.len() {
                assert(s.contains(s[j]));
            } else if j == s.len() {
                assert(s.contains(s[i]));
            }
        }
    }
}

} // verus!
