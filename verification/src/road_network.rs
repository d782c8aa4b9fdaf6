use vstd::prelude::*;

use crate::keys::lemma_push_contains;

verus! {

/// The roads that road `v` connects to: its adjacency list, or none for a road the network does
/// not list.
pub open spec fn neighbors(graph: Seq<Vec<usize>>, v: usize) -> Seq<usize> {
    if v < graph.len() {
        graph[v as int]@
    } else {
        Seq::empty()
    }
}

/// Road `v` is an arterial road (roads outside the flag list are not).
pub open spec fn is_arterial(arterials: Seq<bool>, v: usize) -> bool {
    v < arterials.len() && arterials[v as int]
}

/// `p` is a route through the network: at least one road, each connected to the next.
pub open spec fn is_route(graph: Seq<Vec<usize>>, p: Seq<usize>) -> bool {
    &&& p.len() >= 1
    &&& forall|i: int| 0 < i < p.len() ==> neighbors(graph, p[i - 1]).contains(#[trigger] p[i])
}

/// Road `v` can be reached from road `s`.
pub open spec fn reachable(graph: Seq<Vec<usize>>, s: usize, v: usize) -> bool {
    exists|p: Seq<usize>| #[trigger] is_route(graph, p) && p[0] == s && p.last() == v
}

/// Some arterial road can be reached from road `s`.
pub open spec fn reaches_arterial(graph: Seq<Vec<usize>>, arterials: Seq<bool>, s: usize) -> bool {
    exists|v: usize| #[trigger] reachable(graph, s, v) && is_arterial(arterials, v)
}

/// Every road reaches itself.
proof fn lemma_reaches_itself(graph: Seq<Vec<usize>>, s: usize)
    ensures
        reachable(graph, s, s),
{
    let p = seq![s];
    assert(is_route(graph, p));
}

/// A route to `v` continues to any road that `v` connects to.
proof fn lemma_reach_step(graph: Seq<Vec<usize>>, s: usize, v: usize, w: usize)
    requires
        reachable(graph, s, v),
        neighbors(graph, v).contains(w),
    ensures
        reachable(graph, s, w),
{
    let p = choose|p: Seq<usize>| #[trigger] is_route(graph, p) && p[0] == s && p.last() == v;
    let q = p.push(w);
    assert forall|i: int| 0 < i < q.len() implies neighbors(graph, q[i - 1]).contains(
        #[trigger] q[i],
    ) by {
        if i < p.len() {
            assert(q[i - 1] == p[i - 1] && q[i] == p[i]);
        } else {
            assert(q[i - 1] == v && q[i] == w);
        }
    }
    assert(is_route(graph, q) && q[0] == s && q.last() == w);
}

/// A road that the network does not list reaches only itself.
proof fn lemma_unlisted_reaches_only_itself(graph: Seq<Vec<usize>>, s: usize, v: usize)
    requires
        s >= graph.len(),
        reachable(graph, s, v),
    ensures
        v == s,
{
    let p = choose|p: Seq<usize>| #[trigger] is_route(graph, p) && p[0] == s && p.last() == v;
    if p.len() > 1 {
        assert(neighbors(graph, p[0]).contains(p[1]));
    }
}

/// A set `q` of roads that holds `s`, holds no arterial, and holds every road that one of its
/// roads connects to (but unlisted non-arterial ones) leaves every route from `s` arterial-free.
proof fn lemma_closed_without_arterial(
    graph: Seq<Vec<usize>>,
    arterials: Seq<bool>,
    s: usize,
    q: Seq<usize>,
    p: Seq<usize>,
)
    requires
        q.contains(s),
        forall|x: usize| q.contains(x) ==> !is_arterial(arterials, x),
        forall|x: usize, y: usize|
            q.contains(x) && #[trigger] neighbors(graph, x).contains(y) ==> q.contains(y) || (y
                >= graph.len() && !is_arterial(arterials, y)),
        is_route(graph, p),
        p[0] == s,
    ensures
        !is_arterial(arterials, p.last()),
{
    lemma_route_stays_closed(graph, arterials, s, q, p, p.len() - 1);
}

/// Under the conditions of `lemma_closed_without_arterial`, the `i`-th road of a route from `s`
/// is in `q`, or is unlisted and not arterial.
proof fn lemma_route_stays_closed(
    graph: Seq<Vec<usize>>,
    arterials: Seq<bool>,
    s: usize,
    q: Seq<usize>,
    p: Seq<usize>,
    i: int,
)
    requires
        q.contains(s),
        forall|x: usize, y: usize|
            q.contains(x) && #[trigger] neighbors(graph, x).contains(y) ==> q.contains(y) || (y
                >= graph.len() && !is_arterial(arterials, y)),
        is_route(graph, p),
        p[0] == s,
        0 <= i < p.len(),
    ensures
        q.contains(p[i]) || (p[i] >= graph.len() && !is_arterial(arterials, p[i])),
    decreases i,
{
    if i > 0 {
        lemma_route_stays_closed(graph, arterials, s, q, p, i - 1);
        assert(neighbors(graph, p[i - 1]).contains(p[i]));
    }
}

/// Whether some arterial road can be reached from road `start` (a breadth-first search).
/// `graph[v]` lists the roads that road `v` connects to; `arterials[v]` says whether road `v` is
/// an arterial road.
pub fn bfs_reaches_arterial(start: usize, graph: &Vec<Vec<usize>>, arterials: &Vec<bool>) -> (r:
    bool)
    ensures
        r == reaches_arterial(graph@, arterials@, start),
{
    let n = graph.len();
    if start >= n {
        let r = start < arterials.len() && arterials[start];
        proof {
            lemma_reaches_itself(graph@, start);
            if reaches_arterial(graph@, arterials@, start) {
                let v = choose|v: usize| #[trigger]
                    reachable(graph@, start, v) && is_arterial(arterials@, v);
                lemma_unlisted_reaches_only_itself(graph@, start, v);
            }
        }
        return r;
    }
    let mut visited: Vec<bool> = Vec::new();
    let mut i: usize = 0;
    while i < n
        invariant
            i <= n,
            visited@.len() == i,
            forall|j: int| 0 <= j < i ==> !#[trigger] visited@[j],
        decreases n - i,
    {
        visited.push(false);
        i = i + 1;
    }
    visited.set(start, true);
    let mut queue: Vec<usize> = Vec::new();
    queue.push(start);
    proof {
        lemma_reaches_itself(graph@, start);
        assert forall|v: int| 0 <= v < n implies (#[trigger] visited@[v] <==> queue@.contains(
            v as usize,
        )) by {
            if queue@.contains(v as usize) {
                let j = choose|j: int| 0 <= j < queue@.len() && queue@[j] == v as usize;
            }
            if v == start {
                assert(queue@[0] == start);
            }
        }
    }
    let mut head: usize = 0;
    while head < queue.len()
        invariant
            n == graph@.len(),
            start < n,
            visited@.len() == n,
            head <= queue@.len() <= n,
            queue@.len() >= 1,
            queue@[0] == start,
            queue@.no_duplicates(),
            forall|j: int| 0 <= j < queue@.len() ==> (#[trigger] queue@[j]) < n,
            forall|v: int| 0 <= v < n ==> (#[trigger] visited@[v] <==> queue@.contains(v as usize)),
            forall|j: int| 0 <= j < queue@.len() ==> reachable(graph@, start, #[trigger] queue@[j]),
            forall|j: int| 0 <= j < head ==> !is_arterial(arterials@, #[trigger] queue@[j]),
            forall|j: int, y: usize|
                0 <= j < head && #[trigger] neighbors(graph@, queue@[j]).contains(y) ==> (y < n
                    ==> queue@.contains(y)) && (y >= n ==> !is_arterial(arterials@, y)),
        decreases n - head,
    {
        let cur = queue[head];
        if cur < arterials.len() && arterials[cur] {
            assert(reachable(graph@, start, cur) && is_arterial(arterials@, cur));
            return true;
        }
        let ghost q0 = queue@;
        let ghost h0 = head as int;
        head = head + 1;
        let nbrs = &graph[cur];
        assert(nbrs@ == neighbors(graph@, cur));
        let mut k: usize = 0;
        while k < nbrs.len()
            invariant
                n == graph@.len(),
                start < n,
                cur < n,
                *nbrs == graph@[cur as int],
                0 <= h0 < q0.len(),
                head == h0 + 1,
                q0[h0] == cur,
                !is_arterial(arterials@, cur),
                k <= nbrs@.len(),
                visited@.len() == n,
                queue@.len() >= q0.len(),
                forall|j: int| 0 <= j < q0.len() ==> queue@[j] == q0[j],
                q0[0] == start,
                queue@.no_duplicates(),
                forall|j: int| 0 <= j < queue@.len() ==> (#[trigger] queue@[j]) < n,
                forall|v: int| 0 <= v < n ==> (#[trigger] visited@[v] <==> queue@.contains(v as usize)),
                forall|j: int| 0 <= j < queue@.len() ==> reachable(graph@, start, #[trigger] queue@[j]),
                forall|j: int| 0 <= j < h0 ==> !is_arterial(arterials@, #[trigger] q0[j]),
                forall|x: usize| q0.contains(x) ==> queue@.contains(x),
                forall|j: int, y: usize|
                    0 <= j < h0 && #[trigger] neighbors(graph@, q0[j]).contains(y) ==> (y < n
                        ==> q0.contains(y)) && (y >= n ==> !is_arterial(arterials@, y)),
                forall|m: int|
                    0 <= m < k ==> {
                        let y = #[trigger] nbrs@[m];
                        &&& y < n ==> queue@.contains(y)
                        &&& y >= n ==> !is_arterial(arterials@, y)
                    },
            decreases nbrs.len() - k,
        {
            let nb = nbrs[k];
            proof {
                assert(neighbors(graph@, cur).contains(nb)) by {
                    assert(nbrs@[k as int] == nb);
                }
                assert(reachable(graph@, start, cur)) by {
                    assert(queue@[h0] == cur);
                }
                lemma_reach_step(graph@, start, cur, nb);
            }
            if nb < n {
                if !visited[nb] {
                    let ghost before = queue@;
                    let ghost vis0 = visited@;
                    visited.set(nb, true);
                    queue.push(nb);
                    proof {
                        lemma_push_contains(before, nb);
                        assert forall|v: int| 0 <= v < n implies (#[trigger] visited@[v]
                            <==> queue@.contains(v as usize)) by {
                            if v != nb as int {
                                assert(visited@[v] == vis0[v]);
                            }
                        }
                        assert forall|j: int| 0 <= j < queue@.len() implies reachable(
                            graph@,
                            start,
                            #[trigger] queue@[j],
                        ) by {
                            if j < before.len() {
                                assert(queue@[j] == before[j]);
                            }
                        }
                        assert forall|x: usize| q0.contains(x) implies queue@.contains(x) by {
                            assert(before.contains(x));
                        }
                        assert forall|m: int| 0 <= m < k + 1 implies {
                            let y = #[trigger] nbrs@[m];
                            &&& y < n ==> queue@.contains(y)
                            &&& y >= n ==> !is_arterial(arterials@, y)
                        } by {
                            if m < k {
                                let y = nbrs@[m];
                                if y < n {
                                    assert(before.contains(y));
                                }
                            } else {
                                assert(queue@[before.len() as int] == nb);
                            }
                        }
                    }
                } else {
                    assert(visited@[nb as int]);
                }
            } else if nb < arterials.len() && arterials[nb] {
                assert(reachable(graph@, start, nb) && is_arterial(arterials@, nb));
                return true;
            }
            k = k + 1;
        }
        proof {
            assert forall|j: int, y: usize|
                0 <= j < head && #[trigger] neighbors(graph@, queue@[j]).contains(y) implies (y < n
                ==> queue@.contains(y)) && (y >= n ==> !is_arterial(arterials@, y)) by {
                assert(queue@[j] == q0[j]);
                if j < h0 {
                    if y < n {
                        assert(q0.contains(y));
                    }
                } else {
                    let m = choose|m: int| 0 <= m < nbrs@.len() && nbrs@[m] == y;
                    assert(nbrs@[m] == y);
                }
            }
            assert forall|j: int| 0 <= j < head implies !is_arterial(arterials@, #[trigger] queue@[j]) by {
                assert(queue@[j] == q0[j]);
            }
            lemma_bounded_unique_len(queue@, n);
        }
    }
    proof {
        assert forall|p: Seq<usize>| #[trigger] is_route(graph@, p) && p[0] == start implies !is_arterial(
            arterials@,
            p.last(),
        ) by {
            assert(queue@[0] == start);
            assert forall|x: usize| queue@.contains(x) implies !is_arterial(arterials@, x) by {
                let j = choose|j: int| 0 <= j < queue@.len() && queue@[j] == x;
                assert(!is_arterial(arterials@, queue@[j]));
            }
            assert forall|x: usize, y: usize|
                queue@.contains(x) && #[trigger] neighbors(graph@, x).contains(y) implies queue@.contains(y)
                || (y >= graph@.len() && !is_arterial(arterials@, y)) by {
                let j = choose|j: int| 0 <= j < queue@.len() && queue@[j] == x;
                assert(neighbors(graph@, queue@[j]).contains(y));
            }
            lemma_closed_without_arterial(graph@, arterials@, start, queue@, p);
        }
        if reaches_arterial(graph@, arterials@, start) {
            let v = choose|v: usize| #[trigger]
                reachable(graph@, start, v) && is_arterial(arterials@, v);
            let p = choose|p: Seq<usize>| #[trigger] is_route(graph@, p) && p[0] == start && p.last() == v;
        }
    }
    false
}

/// A sequence of distinct roads below `n` has at most `n` entries.
proof fn lemma_bounded_unique_len(q: Seq<usize>, n: usize)
    requires
        q.no_duplicates(),
        forall|j: int| 0 <= j < q.len() ==> (#[trigger] q[j]) < n,
    ensures
        q.len() <= n,
{
    q.unique_seq_to_set();
    vstd::set_lib::range_set_properties::<usize>(0, n);
    assert forall|x: usize| q.to_set().contains(x) implies Set::<usize>::range(0, n).contains(x) by {
        let j = choose|j: int| 0 <= j < q.len() && q[j] == x;
        assert(q[j] < n);
    }
    vstd::set_lib::lemma_len_subset(q.to_set(), Set::<usize>::range(0, n));
}

} // verus!
