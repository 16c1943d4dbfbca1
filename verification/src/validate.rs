//! Structural validation: the cycle check is fatal and short-circuits the
//! rest, since topological assumptions underlie the other checks; duplicate
//! ids, dangling edges and unreachable nodes are collected and returned
//! together, so the caller sees every structural problem in one round-trip.

use vstd::prelude::*;

use crate::algo::{relax_exec, relax_rounds, spec_kahn};
use crate::errors::{ValErrV, ValidationError};
use crate::graph::{GraphV, WorkflowGraph};
use crate::normalize::{node_index, node_index_exec, rp_exec, rp_step};
use crate::text::eq_str;

verus! {

pub struct Validator;

/// The ids of the nodes the topological sort could not place: the cycle's
/// members and everything downstream of them.
pub open spec fn stuck_step(g: GraphV, marks: Seq<bool>, i: int, acc: Seq<Seq<char>>) -> Seq<
    Seq<char>,
>
    decreases g.nodes.len() - i,
{
    if i < 0 || i >= g.nodes.len() {
        acc
    } else {
        stuck_step(
            g,
            marks,
            i + 1,
            if i < marks.len() && !marks[i] {
                acc.push(g.nodes[i].id)
            } else {
                acc
            },
        )
    }
}

/// One error for every node whose id repeats an earlier node's id.
pub open spec fn dup_step(g: GraphV, j: int, acc: Seq<ValErrV>) -> Seq<ValErrV>
    decreases g.nodes.len() - j,
{
    if j < 0 || j >= g.nodes.len() {
        acc
    } else {
        dup_step(
            g,
            j + 1,
            if exists|i: int| 0 <= i < j && g.nodes[i].id == g.nodes[j].id {
                acc.push(ValErrV::DuplicateId { id: g.nodes[j].id })
            } else {
                acc
            },
        )
    }
}

/// One error for every edge with an endpoint that names no node.
pub open spec fn dangling_step(g: GraphV, k: int, acc: Seq<ValErrV>) -> Seq<ValErrV>
    decreases g.edges.len() - k,
{
    if k < 0 || k >= g.edges.len() {
        acc
    } else {
        let e = g.edges[k];
        let fi = node_index(g.nodes, e.from, 0);
        let ti = node_index(g.nodes, e.to, 0);
        dangling_step(
            g,
            k + 1,
            if fi >= g.nodes.len() || ti >= g.nodes.len() {
                acc.push(ValErrV::Dangling { from: e.from, to: e.to })
            } else {
                acc
            },
        )
    }
}

/// Some node of the graph carries exactly this id.
pub open spec fn has_node_with_id(g: GraphV, id: Seq<char>) -> bool {
    exists|i: int| 0 <= i < g.nodes.len() && g.nodes[i].id == id
}

/// An id is a member of the declared entry set.
pub open spec fn id_in(entries: Seq<Seq<char>>, id: Seq<char>) -> bool {
    exists|m: int| 0 <= m < entries.len() && entries[m] == id
}

/// The reachability seed: exactly the nodes the graph declares as entries.
pub open spec fn entry_seeds(g: GraphV) -> Seq<bool> {
    Seq::new(g.nodes.len(), |i: int| id_in(g.entries, g.nodes[i].id))
}

/// What the declared entry set reaches along resolved edges.
pub open spec fn spec_reach(g: GraphV) -> Seq<bool> {
    relax_rounds(rp_step(g, 0, Seq::empty()), entry_seeds(g), g.nodes.len())
}

/// One error for every node the declared entry set cannot reach.
pub open spec fn unreach_step(g: GraphV, vis: Seq<bool>, i: int, acc: Seq<ValErrV>) -> Seq<ValErrV>
    decreases g.nodes.len() - i,
{
    if i < 0 || i >= g.nodes.len() {
        acc
    } else {
        unreach_step(
            g,
            vis,
            i + 1,
            if i < vis.len() && vis[i] {
                acc
            } else {
                acc.push(ValErrV::Unreachable { id: g.nodes[i].id })
            },
        )
    }
}

/// Every structural defect of `g`, in check order.  A cycle is fatal: it
/// alone is reported and the remaining checks are skipped.
pub open spec fn spec_validate(g: GraphV) -> Seq<ValErrV> {
    let n = g.nodes.len() as int;
    let rp = rp_step(g, 0, Seq::empty());
    let kr = spec_kahn(rp, n);
    if kr.0.len() < n {
        seq![ValErrV::Cyclic { stuck: stuck_step(g, kr.1, 0, Seq::empty()) }]
    } else {
        dup_step(g, 0, Seq::empty()) + dangling_step(g, 0, Seq::empty()) + unreach_step(
            g,
            spec_reach(g),
            0,
            Seq::empty(),
        )
    }
}

// ---------------------------------------------------------------------------
// What an empty defect list means
// ---------------------------------------------------------------------------

proof fn lemma_dup_mono(g: GraphV, j: int, acc: Seq<ValErrV>)
    ensures
        dup_step(g, j, acc).len() >= acc.len(),
    decreases g.nodes.len() - j,
{
    if 0 <= j < g.nodes.len() {
        if exists|i: int| 0 <= i < j && g.nodes[i].id == g.nodes[j].id {
            lemma_dup_mono(g, j + 1, acc.push(ValErrV::DuplicateId { id: g.nodes[j].id }));
        } else {
            lemma_dup_mono(g, j + 1, acc);
        }
    }
}

/// When the duplicate check collected nothing, the ids are pairwise
/// distinct from `j` on.
pub proof fn lemma_dup_empty(g: GraphV, j: int, acc: Seq<ValErrV>)
    requires
        0 <= j,
        dup_step(g, j, acc).len() == acc.len(),
    ensures
        forall|jj: int, i: int|
            j <= jj < g.nodes.len() && 0 <= i < jj ==> g.nodes[i].id != g.nodes[jj].id,
    decreases g.nodes.len() - j,
{
    if j < g.nodes.len() {
        if exists|i: int| 0 <= i < j && g.nodes[i].id == g.nodes[j].id {
            lemma_dup_mono(g, j + 1, acc.push(ValErrV::DuplicateId { id: g.nodes[j].id }));
        } else {
            lemma_dup_empty(g, j + 1, acc);
        }
    }
}

proof fn lemma_dangling_mono(g: GraphV, k: int, acc: Seq<ValErrV>)
    ensures
        dangling_step(g, k, acc).len() >= acc.len(),
    decreases g.edges.len() - k,
{
    if 0 <= k < g.edges.len() {
        let e = g.edges[k];
        if node_index(g.nodes, e.from, 0) >= g.nodes.len() || node_index(g.nodes, e.to, 0)
            >= g.nodes.len() {
            lemma_dangling_mono(g, k + 1, acc.push(ValErrV::Dangling { from: e.from, to: e.to }));
        } else {
            lemma_dangling_mono(g, k + 1, acc);
        }
    }
}

/// When the dangling check collected nothing, every edge endpoint from `k`
/// on resolves to a node.
pub proof fn lemma_dangling_empty(g: GraphV, k: int, acc: Seq<ValErrV>)
    requires
        0 <= k,
        dangling_step(g, k, acc).len() == acc.len(),
    ensures
        forall|kk: int|
            k <= kk < g.edges.len() ==> node_index(g.nodes, #[trigger] g.edges[kk].from, 0)
                < g.nodes.len() && node_index(g.nodes, g.edges[kk].to, 0) < g.nodes.len(),
    decreases g.edges.len() - k,
{
    if k < g.edges.len() {
        let e = g.edges[k];
        if node_index(g.nodes, e.from, 0) >= g.nodes.len() || node_index(g.nodes, e.to, 0)
            >= g.nodes.len() {
            lemma_dangling_mono(g, k + 1, acc.push(ValErrV::Dangling { from: e.from, to: e.to }));
        } else {
            lemma_dangling_empty(g, k + 1, acc);
        }
    }
}

// ---------------------------------------------------------------------------
// Executable validation
// ---------------------------------------------------------------------------

impl Validator {
    /// Check the graph, returning every structural defect together, or the
    /// cycle alone when one exists.
    pub fn validate(g: &WorkflowGraph) -> (r: Result<(), Vec<ValidationError>>)
        ensures
            (match r {
                Ok(u) => spec_validate(g@) == Seq::<ValErrV>::empty(),
                Err(errs) => errs.deep_view() == spec_validate(g@) && errs@.len() > 0,
            }),
    {
        let n = g.nodes.len();
        let rp = rp_exec(g);
        let (ord, marks) = crate::algo::kahn_exec(&rp, n);
        if ord.len() < n {
            // Fatal: report the cycle and stop.
            let mut stuck: Vec<String> = Vec::new();
            let mut i: usize = 0;
            proof {
                assert(stuck.deep_view() =~~= Seq::<Seq<char>>::empty());
            }
            while i < n
                invariant
                    g@.nodes.len() == n,
                    n == g.nodes.len(),
                    marks@.len() == n,
                    marks.len() == n,
                    0 <= i <= n,
                    stuck_step(g@, marks@, 0, Seq::empty()) == stuck_step(
                        g@,
                        marks@,
                        i as int,
                        stuck.deep_view(),
                    ),
                decreases n - i,
            {
                if !marks[i] {
                    let ghost old_stuck = stuck.deep_view();
                    stuck.push(g.nodes[i].id.clone());
                    proof {
                        assert(stuck.deep_view() =~~= old_stuck.push(g@.nodes[i as int].id));
                    }
                }
                i += 1;
            }
            let mut errs: Vec<ValidationError> = Vec::new();
            errs.push(ValidationError::CyclicGraph { stuck });
            proof {
                assert(errs.deep_view() =~~= spec_validate(g@));
            }
            return Err(errs);
        }

        let mut errs: Vec<ValidationError> = Vec::new();

        // Duplicate ids.
        let mut j: usize = 0;
        proof {
            assert(errs.deep_view() =~~= Seq::<ValErrV>::empty());
        }
        while j < n
            invariant
                g@.nodes.len() == n,
                n == g.nodes.len(),
                0 <= j <= n,
                dup_step(g@, 0, Seq::empty()) == dup_step(g@, j as int, errs.deep_view()),
            decreases n - j,
        {
            let mut dup = false;
            let mut i: usize = 0;
            while i < j
                invariant
                    g@.nodes.len() == n,
                    n == g.nodes.len(),
                    0 <= i <= j < n,
                    dup <==> exists|m: int|
                        0 <= m < i && g@.nodes[m].id == g@.nodes[j as int].id,
                decreases j - i,
            {
                if eq_str(g.nodes[i].id.as_str(), g.nodes[j].id.as_str()) {
                    dup = true;
                    proof {
                        assert(g@.nodes[i as int].id == g@.nodes[j as int].id);
                    }
                }
                i += 1;
            }
            if dup {
                let ghost old_errs = errs.deep_view();
                errs.push(ValidationError::DuplicateId { id: g.nodes[j].id.clone() });
                proof {
                    assert(errs.deep_view() =~~= old_errs.push(
                        ValErrV::DuplicateId { id: g@.nodes[j as int].id },
                    ));
                }
            }
            j += 1;
        }
        let ghost dups = errs.deep_view();
        proof {
            assert(dups == dup_step(g@, 0, Seq::empty()));
        }

        // Dangling edges.
        let mut k: usize = 0;
        let ghost mut dang: Seq<ValErrV> = Seq::empty();
        while k < g.edges.len()
            invariant
                g@.edges.len() == g.edges.len(),
                g@.nodes.len() == g.nodes.len(),
                0 <= k <= g.edges.len(),
                errs.deep_view() == dups + dang,
                dangling_step(g@, 0, Seq::empty()) == dangling_step(g@, k as int, dang),
            decreases g.edges.len() - k,
        {
            let e = &g.edges[k];
            let fi = node_index_exec(&g.nodes, e.from.as_str());
            let ti = node_index_exec(&g.nodes, e.to.as_str());
            if fi >= g.nodes.len() || ti >= g.nodes.len() {
                let ghost old_errs = errs.deep_view();
                errs.push(
                    ValidationError::DanglingEdge { from: e.from.clone(), to: e.to.clone() },
                );
                proof {
                    let item = ValErrV::Dangling {
                        from: g@.edges[k as int].from,
                        to: g@.edges[k as int].to,
                    };
                    assert(errs.deep_view() =~~= old_errs.push(item));
                    dang = dang.push(item);
                    assert(errs.deep_view() =~~= dups + dang);
                }
            }
            k += 1;
        }

        // Unreachable nodes, from the declared entry set.
        let mut seeds: Vec<bool> = Vec::new();
        let mut i2: usize = 0;
        while i2 < n
            invariant
                g@.nodes.len() == n,
                n == g.nodes.len(),
                g@.entries.len() == g.entries.len(),
                0 <= i2 <= n,
                seeds@ =~= Seq::new(i2 as nat, |m: int| id_in(g@.entries, g@.nodes[m].id)),
            decreases n - i2,
        {
            let mut found = false;
            let mut m: usize = 0;
            while m < g.entries.len()
                invariant
                    g@.nodes.len() == n,
                    n == g.nodes.len(),
                    i2 < n,
                    g@.entries.len() == g.entries.len(),
                    0 <= m <= g.entries.len(),
                    found <==> exists|q: int|
                        0 <= q < m && g@.entries[q] == g@.nodes[i2 as int].id,
                decreases g.entries.len() - m,
            {
                if eq_str(g.entries[m].as_str(), g.nodes[i2].id.as_str()) {
                    found = true;
                    proof {
                        assert(g@.entries[m as int] == g@.nodes[i2 as int].id);
                    }
                }
                m += 1;
            }
            seeds.push(found);
            proof {
                assert(found == id_in(g@.entries, g@.nodes[i2 as int].id));
                assert(seeds@ =~= Seq::new(
                    (i2 + 1) as nat,
                    |m: int| id_in(g@.entries, g@.nodes[m].id),
                ));
            }
            i2 += 1;
        }
        proof {
            assert(seeds@ =~= entry_seeds(g@));
        }
        let vis = relax_exec(&rp, seeds, n);
        proof {
            assert(vis@ == spec_reach(g@));
        }
        let ghost dd = dups + dang;
        let mut i3: usize = 0;
        let ghost mut unre: Seq<ValErrV> = Seq::empty();
        while i3 < n
            invariant
                g@.nodes.len() == n,
                n == g.nodes.len(),
                vis@.len() == vis.len(),
                0 <= i3 <= n,
                errs.deep_view() == dd + unre,
                unreach_step(g@, vis@, 0, Seq::empty()) == unreach_step(g@, vis@, i3 as int, unre),
            decreases n - i3,
        {
            let reached = if i3 < vis.len() {
                vis[i3]
            } else {
                false
            };
            if !reached {
                let ghost old_errs = errs.deep_view();
                errs.push(ValidationError::UnreachableNode { id: g.nodes[i3].id.clone() });
                proof {
                    let item = ValErrV::Unreachable { id: g@.nodes[i3 as int].id };
                    assert(errs.deep_view() =~~= old_errs.push(item));
                    unre = unre.push(item);
                    assert(errs.deep_view() =~~= dd + unre);
                }
            }
            i3 += 1;
        }

        proof {
            assert(errs.deep_view() =~~= dups + dang + unre);
            assert(errs.deep_view() == spec_validate(g@));
        }
        if errs.len() == 0 {
            proof {
                assert(errs.deep_view() =~~= Seq::<ValErrV>::empty());
            }
            Ok(())
        } else {
            Err(errs)
        }
    }
}

} // verus!
