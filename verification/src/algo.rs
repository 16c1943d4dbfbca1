//! Index-level graph algorithms shared by the builder, the normalizer and
//! the validator: reachability by bounded relaxation, and topological
//! ordering by repeated removal of in-degree-zero nodes.  Each executable
//! function is pinned exactly to its spec-level counterpart.

use vstd::prelude::*;

verus! {

/// View a sequence of machine indices as mathematical integers.
pub open spec fn as_ints(s: Seq<usize>) -> Seq<int> {
    s.map_values(|x: usize| x as int)
}

// ---------------------------------------------------------------------------
// Reachability by bounded relaxation
// ---------------------------------------------------------------------------

/// One pass over the edge list: every edge whose tail is marked marks its
/// head.  Edges with an out-of-range endpoint are ignored.
pub open spec fn relax_pass(edges: Seq<(usize, usize)>, vis: Seq<bool>, k: int) -> Seq<bool>
    decreases edges.len() - k,
{
    if k < 0 || k >= edges.len() {
        vis
    } else {
        let u = edges[k].0 as int;
        let v = edges[k].1 as int;
        let vis2 = if u < vis.len() && v < vis.len() && vis[u] {
            vis.update(v, true)
        } else {
            vis
        };
        relax_pass(edges, vis2, k + 1)
    }
}

/// `rounds` passes; with as many rounds as nodes this reaches the
/// reachability fixpoint.
pub open spec fn relax_rounds(edges: Seq<(usize, usize)>, vis: Seq<bool>, rounds: nat) -> Seq<bool>
    decreases rounds,
{
    if rounds == 0 {
        vis
    } else {
        relax_rounds(edges, relax_pass(edges, vis, 0), (rounds - 1) as nat)
    }
}

/// A seed with exactly `src` marked.
pub open spec fn seed_one(n: int, src: int) -> Seq<bool> {
    Seq::new(n as nat, |i: int| i == src)
}

/// There is a directed path (of length below the node count) from `src` to
/// `dst`, as decided by bounded relaxation.
pub open spec fn spec_path(edges: Seq<(usize, usize)>, n: int, src: int, dst: int) -> bool {
    0 <= dst < n && relax_rounds(edges, seed_one(n, src), n as nat)[dst]
}

/// Run `rounds` relaxation passes, pinned to `relax_rounds`.
pub fn relax_exec(edges: &Vec<(usize, usize)>, vis0: Vec<bool>, rounds: usize) -> (r: Vec<bool>)
    ensures
        r@ == relax_rounds(edges@, vis0@, rounds as nat),
        r.len() == vis0.len(),
{
    let mut vis = vis0;
    let ghost initial = vis@;
    let mut t: usize = 0;
    while t < rounds
        invariant
            0 <= t <= rounds,
            vis.len() == initial.len(),
            relax_rounds(edges@, initial, rounds as nat) == relax_rounds(
                edges@,
                vis@,
                (rounds - t) as nat,
            ),
        decreases rounds - t,
    {
        let ghost round_start = vis@;
        let mut k: usize = 0;
        while k < edges.len()
            invariant
                edges@.len() == edges.len(),
                0 <= k <= edges.len(),
                vis.len() == round_start.len(),
                round_start.len() == initial.len(),
                relax_pass(edges@, round_start, 0) == relax_pass(edges@, vis@, k as int),
            decreases edges.len() - k,
        {
            let (u, v) = edges[k];
            if u < vis.len() && v < vis.len() {
                if vis[u] {
                    vis.set(v, true);
                }
            }
            k += 1;
        }
        t += 1;
    }
    vis
}

/// Decide `spec_path` by seeding `src` and relaxing `n` rounds.
pub fn path_exec(edges: &Vec<(usize, usize)>, n: usize, src: usize, dst: usize) -> (r: bool)
    ensures
        r == spec_path(edges@, n as int, src as int, dst as int),
{
    let mut seed: Vec<bool> = Vec::new();
    let mut i: usize = 0;
    while i < n
        invariant
            0 <= i <= n,
            seed@ =~= Seq::new(i as nat, |j: int| j == src as int),
        decreases n - i,
    {
        seed.push(i == src);
        proof {
            assert(seed@ =~= Seq::new((i + 1) as nat, |j: int| j == src as int));
        }
        i += 1;
    }
    proof {
        assert(seed@ =~= seed_one(n as int, src as int));
    }
    let vis = relax_exec(edges, seed, n);
    if dst < n {
        vis[dst]
    } else {
        false
    }
}

// ---------------------------------------------------------------------------
// Topological ordering
// ---------------------------------------------------------------------------

/// Node `v` can be removed: it is unremoved and every in-range edge into it
/// has a removed tail.
pub open spec fn removable(edges: Seq<(usize, usize)>, removed: Seq<bool>, v: int) -> bool {
    &&& 0 <= v < removed.len()
    &&& !removed[v]
    &&& forall|k: int|
        0 <= k < edges.len() && edges[k].1 as int == v && (edges[k].0 as int) < removed.len()
            ==> removed[#[trigger] edges[k].0 as int]
}

/// The first removable node at or after `i`, or the node count.
pub open spec fn first_removable(edges: Seq<(usize, usize)>, removed: Seq<bool>, i: int) -> int
    decreases removed.len() - i,
{
    if i < 0 || i >= removed.len() {
        removed.len() as int
    } else if removable(edges, removed, i) {
        i
    } else {
        first_removable(edges, removed, i + 1)
    }
}

pub proof fn lemma_first_removable_props(edges: Seq<(usize, usize)>, removed: Seq<bool>, i: int)
    requires
        0 <= i <= removed.len(),
    ensures
        i <= first_removable(edges, removed, i) <= removed.len(),
        first_removable(edges, removed, i) < removed.len() ==> removable(
            edges,
            removed,
            first_removable(edges, removed, i),
        ),
        forall|m: int| i <= m < first_removable(edges, removed, i) ==> !removable(edges, removed, m),
    decreases removed.len() - i,
{
    if i < removed.len() && !removable(edges, removed, i) {
        lemma_first_removable_props(edges, removed, i + 1);
    }
}

/// Kahn's removal loop: repeatedly remove the first removable node,
/// recording the removal order.  Each step removes one node, so a fuel of
/// the node count always suffices; nodes on or downstream of a cycle are
/// never removed.  Returns the order and the final mark vector.
pub open spec fn kahn_fuel(
    edges: Seq<(usize, usize)>,
    removed: Seq<bool>,
    acc: Seq<int>,
    fuel: nat,
) -> (Seq<int>, Seq<bool>)
    decreases fuel,
{
    if fuel == 0 {
        (acc, removed)
    } else {
        let v = first_removable(edges, removed, 0);
        if v >= removed.len() {
            (acc, removed)
        } else {
            kahn_fuel(edges, removed.update(v, true), acc.push(v), (fuel - 1) as nat)
        }
    }
}

/// The first position of `v` in `s` at or after `i`, or the length of `s`.
pub open spec fn pos_in(s: Seq<int>, v: int, i: int) -> int
    decreases s.len() - i,
{
    if i < 0 || i >= s.len() {
        s.len() as int
    } else if s[i] == v {
        i
    } else {
        pos_in(s, v, i + 1)
    }
}

/// The all-false mark vector.
pub open spec fn no_marks(n: int) -> Seq<bool> {
    Seq::new(n as nat, |i: int| false)
}

/// The removal order of the whole graph.
pub open spec fn spec_kahn(edges: Seq<(usize, usize)>, n: int) -> (Seq<int>, Seq<bool>) {
    kahn_fuel(edges, no_marks(n), Seq::empty(), n as nat)
}

// ---------------------------------------------------------------------------
// Soundness of the topological ordering
// ---------------------------------------------------------------------------

/// `rank` witnesses acyclicity: it assigns every node a number that grows
/// strictly along every in-range edge.
pub open spec fn is_topo_rank(edges: Seq<(usize, usize)>, n: int, rank: Seq<int>) -> bool {
    &&& rank.len() == n
    &&& forall|k: int|
        0 <= k < edges.len() && (edges[k].0 as int) < n && (edges[k].1 as int) < n ==> rank[#[trigger] edges[k].0 as int]
            < rank[edges[k].1 as int]
}

/// How many entries from `i` on are still unremoved.
pub open spec fn unremoved(removed: Seq<bool>, i: int) -> int
    decreases removed.len() - i,
{
    if i < 0 || i >= removed.len() {
        0
    } else {
        (if removed[i] {
            0int
        } else {
            1int
        }) + unremoved(removed, i + 1)
    }
}

proof fn lemma_unremoved_update(removed: Seq<bool>, v: int, i: int)
    requires
        0 <= i <= removed.len(),
        0 <= v < removed.len(),
        !removed[v],
    ensures
        unremoved(removed.update(v, true), i) == unremoved(removed, i) - if i <= v {
            1int
        } else {
            0int
        },
    decreases removed.len() - i,
{
    if i < removed.len() {
        lemma_unremoved_update(removed, v, i + 1);
    }
}

proof fn lemma_unremoved_zero(removed: Seq<bool>, i: int)
    requires
        0 <= i,
        unremoved(removed, i) == 0,
    ensures
        forall|v: int| i <= v < removed.len() ==> removed[v],
    decreases removed.len() - i,
{
    if i < removed.len() {
        lemma_unremoved_nonneg(removed, i + 1);
        lemma_unremoved_zero(removed, i + 1);
    }
}

proof fn lemma_unremoved_nonneg(removed: Seq<bool>, i: int)
    ensures
        unremoved(removed, i) >= 0,
    decreases removed.len() - i,
{
    if 0 <= i < removed.len() {
        lemma_unremoved_nonneg(removed, i + 1);
    }
}

proof fn lemma_pos_in_bounds(s: Seq<int>, v: int, i: int)
    requires
        0 <= i <= s.len(),
    ensures
        i <= pos_in(s, v, i) <= s.len(),
        pos_in(s, v, i) < s.len() ==> s[pos_in(s, v, i)] == v,
        forall|m: int| i <= m < pos_in(s, v, i) ==> s[m] != v,
    decreases s.len() - i,
{
    if i < s.len() && s[i] != v {
        lemma_pos_in_bounds(s, v, i + 1);
    }
}

proof fn lemma_pos_in_contains(s: Seq<int>, v: int)
    ensures
        s.contains(v) <==> pos_in(s, v, 0) < s.len(),
{
    lemma_pos_in_bounds(s, v, 0);
    if pos_in(s, v, 0) < s.len() {
        assert(s[pos_in(s, v, 0)] == v);
    }
    if s.contains(v) {
        let m = choose|m: int| 0 <= m < s.len() && s[m] == v;
        assert(pos_in(s, v, 0) <= m);
    }
}

/// Pushing a new element moves no existing first occurrence.
proof fn lemma_pos_in_push_old(s: Seq<int>, v: int, x: int, i: int)
    requires
        0 <= i <= s.len(),
        pos_in(s, v, i) < s.len(),
    ensures
        pos_in(s.push(x), v, i) == pos_in(s, v, i),
    decreases s.len() - i,
{
    if i < s.len() && s[i] != v {
        assert(s.push(x)[i] == s[i]);
        lemma_pos_in_push_old(s, v, x, i + 1);
    }
}

/// A pushed element that was absent gets first occurrence at the old end.
proof fn lemma_pos_in_push_new(s: Seq<int>, x: int, i: int)
    requires
        0 <= i <= s.len(),
        pos_in(s, x, i) == s.len(),
    ensures
        pos_in(s.push(x), x, i) == s.len(),
    decreases s.len() - i,
{
    lemma_pos_in_bounds(s, x, i);
    if i < s.len() {
        assert(s.push(x)[i] == s[i]);
        assert(s[i] != x);
        lemma_pos_in_push_new(s, x, i + 1);
    } else {
        assert(s.push(x)[i] == x);
    }
}

/// The invariant of Kahn's removal loop: the marks agree with the order
/// collected so far, its entries are in range, and every satisfied edge is
/// already ordered.  Removing the next removable node preserves all of it.
proof fn lemma_kahn_fuel_sound(
    edges: Seq<(usize, usize)>,
    removed: Seq<bool>,
    acc: Seq<int>,
    fuel: nat,
)
    requires
        acc.len() + unremoved(removed, 0) == removed.len(),
        forall|v: int| 0 <= v < removed.len() ==> (removed[v] <==> acc.contains(v)),
        forall|k: int| 0 <= k < acc.len() ==> 0 <= #[trigger] acc[k] < removed.len(),
        forall|k: int|
            0 <= k < edges.len() && (edges[k].0 as int) < removed.len() && (edges[k].1 as int)
                < removed.len() && removed[edges[k].1 as int] ==> removed[#[trigger] edges[k].0 as int]
                && pos_in(acc, edges[k].0 as int, 0) < pos_in(acc, edges[k].1 as int, 0),
    ensures
        ({
            let r = kahn_fuel(edges, removed, acc, fuel);
            &&& r.1.len() == removed.len()
            &&& r.0.len() + unremoved(r.1, 0) == r.1.len()
            &&& forall|v: int| 0 <= v < r.1.len() ==> (r.1[v] <==> r.0.contains(v))
            &&& forall|k: int| 0 <= k < r.0.len() ==> 0 <= #[trigger] r.0[k] < r.1.len()
            &&& forall|k: int|
                0 <= k < edges.len() && (edges[k].0 as int) < r.1.len() && (edges[k].1 as int)
                    < r.1.len() && r.1[edges[k].1 as int] ==> r.1[#[trigger] edges[k].0 as int]
                    && pos_in(r.0, edges[k].0 as int, 0) < pos_in(r.0, edges[k].1 as int, 0)
        }),
    decreases fuel,
{
    if fuel > 0 {
        let v = first_removable(edges, removed, 0);
        if v < removed.len() {
            lemma_first_removable_props(edges, removed, 0);
            let removed2 = removed.update(v, true);
            let acc2 = acc.push(v);
            lemma_unremoved_update(removed, v, 0);
            assert(!acc.contains(v));
            lemma_pos_in_contains(acc, v);
            lemma_pos_in_bounds(acc, v, 0);
            lemma_pos_in_push_new(acc, v, 0);
            // The marks still agree with the collected order.
            assert forall|w: int| 0 <= w < removed2.len() implies (removed2[w] <==> acc2.contains(
                w,
            )) by {
                if w == v {
                    assert(acc2[acc.len() as int] == v);
                    assert(acc2.contains(v));
                } else {
                    if acc2.contains(w) {
                        let m = choose|m: int| 0 <= m < acc2.len() && acc2[m] == w;
                        assert(m < acc.len());
                        assert(acc.contains(w));
                    }
                    if acc.contains(w) {
                        let m = choose|m: int| 0 <= m < acc.len() && acc[m] == w;
                        assert(acc2[m] == w);
                    }
                }
            }
            // Every satisfied edge stays ordered.
            assert forall|k: int|
                0 <= k < edges.len() && (edges[k].0 as int) < removed2.len() && (edges[k].1 as int)
                    < removed2.len() && removed2[edges[k].1 as int] implies removed2[#[trigger] edges[k].0 as int]
                && pos_in(acc2, edges[k].0 as int, 0) < pos_in(acc2, edges[k].1 as int, 0) by {
                let u = edges[k].0 as int;
                let w = edges[k].1 as int;
                if w == v {
                    assert(removed[u]);
                    lemma_pos_in_contains(acc, u);
                    lemma_pos_in_push_old(acc, u, v, 0);
                    assert(pos_in(acc2, u, 0) < acc.len());
                    assert(pos_in(acc2, v, 0) == acc.len());
                } else {
                    assert(removed[w]);
                    assert(removed[u]);
                    lemma_pos_in_contains(acc, u);
                    lemma_pos_in_contains(acc, w);
                    lemma_pos_in_push_old(acc, u, v, 0);
                    lemma_pos_in_push_old(acc, w, v, 0);
                    assert(u != v);
                    assert(removed2[u]);
                }
            }
            lemma_kahn_fuel_sound(edges, removed2, acc2, (fuel - 1) as nat);
        }
    }
}

/// Law of the topological check: when the removal loop places every node,
/// the order it found is a topological sort — a rank assignment that grows
/// strictly along every in-range edge exists, so the graph is acyclic.
pub proof fn lemma_kahn_complete_topo(edges: Seq<(usize, usize)>, n: int)
    requires
        n >= 0,
        spec_kahn(edges, n).0.len() == n,
    ensures
        exists|rank: Seq<int>| is_topo_rank(edges, n, rank),
{
    assert(unremoved(no_marks(n), 0) == n) by {
        lemma_unremoved_all_false(n, 0);
    }
    assert(forall|v: int| 0 <= v < n ==> !Seq::<int>::empty().contains(v));
    lemma_kahn_fuel_sound(edges, no_marks(n), Seq::empty(), n as nat);
    let r = spec_kahn(edges, n);
    lemma_unremoved_nonneg(r.1, 0);
    assert(unremoved(r.1, 0) == 0);
    lemma_unremoved_zero(r.1, 0);
    let rank = Seq::new(n as nat, |v: int| pos_in(r.0, v, 0));
    assert forall|k: int|
        0 <= k < edges.len() && (edges[k].0 as int) < n && (edges[k].1 as int) < n implies rank[#[trigger] edges[k].0 as int]
        < rank[edges[k].1 as int] by {
        let u = edges[k].0 as int;
        let w = edges[k].1 as int;
        assert(r.1[w]);
        assert(pos_in(r.0, u, 0) < pos_in(r.0, w, 0));
    }
    assert(is_topo_rank(edges, n, rank));
}

proof fn lemma_unremoved_all_false(n: int, i: int)
    requires
        0 <= i <= n,
    ensures
        unremoved(no_marks(n), i) == n - i,
    decreases n - i,
{
    if i < n {
        lemma_unremoved_all_false(n, i + 1);
    }
}

/// The removal order never exceeds the starting order plus the fuel.
pub proof fn lemma_kahn_fuel_len(
    edges: Seq<(usize, usize)>,
    removed: Seq<bool>,
    acc: Seq<int>,
    fuel: nat,
)
    ensures
        kahn_fuel(edges, removed, acc, fuel).0.len() <= acc.len() + fuel,
    decreases fuel,
{
    if fuel > 0 {
        let v = first_removable(edges, removed, 0);
        if v < removed.len() {
            lemma_kahn_fuel_len(edges, removed.update(v, true), acc.push(v), (fuel - 1) as nat);
        }
    }
}

fn removable_exec(edges: &Vec<(usize, usize)>, removed: &Vec<bool>, v: usize) -> (r: bool)
    requires
        v < removed.len(),
    ensures
        r == removable(edges@, removed@, v as int),
{
    if removed[v] {
        return false;
    }
    let mut k: usize = 0;
    while k < edges.len()
        invariant
            edges@.len() == edges.len(),
            removed@.len() == removed.len(),
            v < removed.len(),
            !removed@[v as int],
            0 <= k <= edges.len(),
            forall|m: int|
                0 <= m < k && edges@[m].1 as int == v as int && (edges@[m].0 as int)
                    < removed@.len() ==> removed@[#[trigger] edges@[m].0 as int],
        decreases edges.len() - k,
    {
        let (u, w) = edges[k];
        if w == v && u < removed.len() {
            if !removed[u] {
                return false;
            }
        }
        k += 1;
    }
    true
}

fn first_removable_exec(edges: &Vec<(usize, usize)>, removed: &Vec<bool>) -> (r: usize)
    ensures
        r as int == first_removable(edges@, removed@, 0),
        r <= removed.len(),
{
    let mut i: usize = 0;
    while i < removed.len()
        invariant
            removed@.len() == removed.len(),
            0 <= i <= removed.len(),
            first_removable(edges@, removed@, 0) == first_removable(edges@, removed@, i as int),
        decreases removed.len() - i,
    {
        if removable_exec(edges, removed, i) {
            return i;
        }
        i += 1;
    }
    removed.len()
}

/// Compute the removal order and final marks, pinned to `spec_kahn`.
pub fn kahn_exec(edges: &Vec<(usize, usize)>, n: usize) -> (r: (Vec<usize>, Vec<bool>))
    ensures
        as_ints(r.0@) == spec_kahn(edges@, n as int).0,
        r.1@ == spec_kahn(edges@, n as int).1,
        r.1.len() == n,
        forall|k: int| 0 <= k < r.0@.len() ==> r.0@[k] < n,
{
    let mut removed: Vec<bool> = Vec::new();
    let mut i: usize = 0;
    while i < n
        invariant
            0 <= i <= n,
            removed@ =~= Seq::new(i as nat, |j: int| false),
        decreases n - i,
    {
        removed.push(false);
        proof {
            assert(removed@ =~= Seq::new((i + 1) as nat, |j: int| false));
        }
        i += 1;
    }
    proof {
        assert(removed@ =~= no_marks(n as int));
    }
    let mut acc: Vec<usize> = Vec::new();
    let ghost initial = removed@;
    let mut fuel: usize = n;
    proof {
        assert(as_ints(acc@) =~= Seq::<int>::empty());
    }
    loop
        invariant_except_break
            removed@.len() == removed.len(),
            removed.len() == n,
            fuel <= n,
            kahn_fuel(edges@, initial, Seq::empty(), n as nat) == kahn_fuel(
                edges@,
                removed@,
                as_ints(acc@),
                fuel as nat,
            ),
            forall|k: int| 0 <= k < acc@.len() ==> acc@[k] < n,
        ensures
            removed@.len() == removed.len(),
            removed.len() == n,
            kahn_fuel(edges@, initial, Seq::empty(), n as nat) == (as_ints(acc@), removed@),
            forall|k: int| 0 <= k < acc@.len() ==> acc@[k] < n,
        decreases fuel,
    {
        if fuel == 0 {
            proof {
                assert(kahn_fuel(edges@, removed@, as_ints(acc@), 0nat) == (
                    as_ints(acc@),
                    removed@,
                ));
            }
            break;
        }
        let v = first_removable_exec(edges, &removed);
        if v >= removed.len() {
            proof {
                assert(kahn_fuel(edges@, removed@, as_ints(acc@), fuel as nat) == (
                    as_ints(acc@),
                    removed@,
                ));
            }
            break;
        }
        let ghost old_acc = acc@;
        removed.set(v, true);
        acc.push(v);
        fuel -= 1;
        proof {
            assert(as_ints(acc@) =~= as_ints(old_acc).push(v as int));
        }
    }
    (acc, removed)
}

} // verus!
