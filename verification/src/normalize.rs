//! Canonicalization: recompute every node id as a pure function of its
//! kind, its canonical content and its topological rank (ties broken by
//! the lexical order of origin, which is the placement order), re-sort the
//! nodes into that order, and re-express edges, entries and diagnostics
//! against the new ids.  This stage is the sole authority for
//! "same input, same output".

use vstd::prelude::*;

use crate::algo::{as_ints, kahn_exec, pos_in, spec_kahn};
use crate::graph::{
    copy_kind, copy_provenance, DiagV, Diagnostic, EdgeV, GraphV, KindV, NodeKind, NodeV,
    WorkflowEdge, WorkflowGraph, WorkflowNode,
};
use crate::text::{dec_str, eq_str, spec_dec};

verus! {

pub struct DeterminismNormalizer;

/// The first node whose id is `id`, or the node count.
pub open spec fn node_index(nodes: Seq<NodeV>, id: Seq<char>, i: int) -> int
    decreases nodes.len() - i,
{
    if i < 0 || i >= nodes.len() {
        nodes.len() as int
    } else if nodes[i].id == id {
        i
    } else {
        node_index(nodes, id, i + 1)
    }
}

/// The first match is sound: when `node_index` is below the node count it
/// names a node carrying exactly that id.
pub proof fn lemma_node_index_props(nodes: Seq<NodeV>, id: Seq<char>, i: int)
    requires
        0 <= i <= nodes.len(),
    ensures
        i <= node_index(nodes, id, i) <= nodes.len(),
        node_index(nodes, id, i) < nodes.len() ==> nodes[node_index(nodes, id, i)].id == id,
    decreases nodes.len() - i,
{
    if i < nodes.len() && nodes[i].id != id {
        lemma_node_index_props(nodes, id, i + 1);
    }
}

/// The edges whose two endpoints resolve to nodes, as index pairs.
pub open spec fn rp_step(g: GraphV, k: int, acc: Seq<(usize, usize)>) -> Seq<(usize, usize)>
    decreases g.edges.len() - k,
{
    if k < 0 || k >= g.edges.len() {
        acc
    } else {
        let fi = node_index(g.nodes, g.edges[k].from, 0);
        let ti = node_index(g.nodes, g.edges[k].to, 0);
        rp_step(
            g,
            k + 1,
            if fi < g.nodes.len() && ti < g.nodes.len() {
                acc.push((fi as usize, ti as usize))
            } else {
                acc
            },
        )
    }
}

/// The indices the topological sort could not place, in index order.
pub open spec fn leftovers_step(marks: Seq<bool>, i: int, acc: Seq<int>) -> Seq<int>
    decreases marks.len() - i,
{
    if i < 0 || i >= marks.len() {
        acc
    } else {
        leftovers_step(marks, i + 1, if marks[i] { acc } else { acc.push(i) })
    }
}

/// The canonical node order: topological rank first, unplaced nodes after,
/// both tie-broken by original placement order.
pub open spec fn spec_perm(g: GraphV) -> Seq<int> {
    let rp = rp_step(g, 0, Seq::empty());
    let kr = spec_kahn(rp, g.nodes.len() as int);
    kr.0 + leftovers_step(kr.1, 0, Seq::empty())
}

pub open spec fn kind_tag(k: KindV) -> Seq<char> {
    match k {
        KindV::Agent { capability } => "agent"@,
        KindV::Tool { tool, params } => "tool"@,
        KindV::Patch { target, operation } => "patch"@,
    }
}

/// The canonical content of a kind: the descriptor that identifies what
/// the step does.
pub open spec fn kind_label(k: KindV) -> Seq<char> {
    match k {
        KindV::Agent { capability } => capability,
        KindV::Tool { tool, params } => tool,
        KindV::Patch { target, operation } => target,
    }
}

/// The canonical id: a pure function of topological rank, kind and
/// canonicalized content — never of incidental iteration order.
pub open spec fn cid(rank: int, k: KindV) -> Seq<char> {
    "n"@ + spec_dec(rank) + "-"@ + kind_tag(k) + "-"@ + kind_label(k)
}

pub open spec fn norm_nodes_step(g: GraphV, perm: Seq<int>, pos: int, acc: Seq<NodeV>) -> Seq<
    NodeV,
>
    decreases perm.len() - pos,
{
    if pos < 0 || pos >= perm.len() {
        acc
    } else {
        let oi = perm[pos];
        norm_nodes_step(
            g,
            perm,
            pos + 1,
            if 0 <= oi < g.nodes.len() {
                acc.push(
                    NodeV {
                        id: cid(pos, g.nodes[oi].kind),
                        kind: g.nodes[oi].kind,
                        provenance: g.nodes[oi].provenance,
                    },
                )
            } else {
                acc
            },
        )
    }
}

pub open spec fn norm_edges_step(g: GraphV, perm: Seq<int>, k: int, acc: Seq<EdgeV>) -> Seq<EdgeV>
    decreases g.edges.len() - k,
{
    if k < 0 || k >= g.edges.len() {
        acc
    } else {
        let e = g.edges[k];
        let fi = node_index(g.nodes, e.from, 0);
        let ti = node_index(g.nodes, e.to, 0);
        norm_edges_step(
            g,
            perm,
            k + 1,
            if fi < g.nodes.len() && ti < g.nodes.len() {
                acc.push(
                    EdgeV {
                        from: cid(pos_in(perm, fi, 0), g.nodes[fi].kind),
                        to: cid(pos_in(perm, ti, 0), g.nodes[ti].kind),
                        kind: e.kind,
                    },
                )
            } else {
                acc.push(e)
            },
        )
    }
}

/// A node has an incoming resolved edge.
pub open spec fn has_incoming(rp: Seq<(usize, usize)>, v: int) -> bool {
    exists|m: int| 0 <= m < rp.len() && rp[m].1 as int == v
}

/// The declared entry set: the ids of the nodes with no incoming edge, in
/// canonical order.
pub open spec fn entries_step(
    g: GraphV,
    perm: Seq<int>,
    rp: Seq<(usize, usize)>,
    pos: int,
    acc: Seq<Seq<char>>,
) -> Seq<Seq<char>>
    decreases perm.len() - pos,
{
    if pos < 0 || pos >= perm.len() {
        acc
    } else {
        let oi = perm[pos];
        entries_step(
            g,
            perm,
            rp,
            pos + 1,
            if 0 <= oi < g.nodes.len() && !has_incoming(rp, oi) {
                acc.push(cid(pos, g.nodes[oi].kind))
            } else {
                acc
            },
        )
    }
}

pub open spec fn norm_diags_step(g: GraphV, perm: Seq<int>, k: int, acc: Seq<DiagV>) -> Seq<DiagV>
    decreases g.diagnostics.len() - k,
{
    if k < 0 || k >= g.diagnostics.len() {
        acc
    } else {
        let d = g.diagnostics[k];
        let fi = node_index(g.nodes, d.from, 0);
        let ti = node_index(g.nodes, d.to, 0);
        norm_diags_step(
            g,
            perm,
            k + 1,
            if fi < g.nodes.len() && ti < g.nodes.len() {
                acc.push(
                    DiagV {
                        from: cid(pos_in(perm, fi, 0), g.nodes[fi].kind),
                        to: cid(pos_in(perm, ti, 0), g.nodes[ti].kind),
                    },
                )
            } else {
                acc.push(d)
            },
        )
    }
}

/// What `DeterminismNormalizer::normalize` returns, as a function of the
/// input graph alone.
pub open spec fn spec_normalize(g: GraphV) -> GraphV {
    let rp = rp_step(g, 0, Seq::empty());
    let perm = spec_perm(g);
    GraphV {
        nodes: norm_nodes_step(g, perm, 0, Seq::empty()),
        edges: norm_edges_step(g, perm, 0, Seq::empty()),
        entries: entries_step(g, perm, rp, 0, Seq::empty()),
        diagnostics: norm_diags_step(g, perm, 0, Seq::empty()),
    }
}

// ---------------------------------------------------------------------------
// Executable normalization
// ---------------------------------------------------------------------------

pub(crate) fn node_index_exec(nodes: &Vec<WorkflowNode>, id: &str) -> (r: usize)
    ensures
        r as int == node_index(nodes.deep_view(), id@, 0),
        r <= nodes.len(),
        nodes.deep_view().len() == nodes.len(),
{
    let mut i: usize = 0;
    while i < nodes.len()
        invariant
            nodes.deep_view().len() == nodes.len(),
            0 <= i <= nodes.len(),
            node_index(nodes.deep_view(), id@, 0) == node_index(nodes.deep_view(), id@, i as int),
        decreases nodes.len() - i,
    {
        if eq_str(nodes[i].id.as_str(), id) {
            proof {
                assert(nodes.deep_view()[i as int].id == id@);
            }
            return i;
        }
        i += 1;
    }
    nodes.len()
}

/// The resolved index pairs of a graph's edges, pinned to `rp_step`.
pub(crate) fn rp_exec(g: &WorkflowGraph) -> (r: Vec<(usize, usize)>)
    ensures
        r@ == rp_step(g@, 0, Seq::empty()),
{
    let mut acc: Vec<(usize, usize)> = Vec::new();
    let mut k: usize = 0;
    while k < g.edges.len()
        invariant
            g@.edges.len() == g.edges.len(),
            g@.nodes.len() == g.nodes.len(),
            0 <= k <= g.edges.len(),
            rp_step(g@, 0, Seq::empty()) == rp_step(g@, k as int, acc@),
        decreases g.edges.len() - k,
    {
        let fi = node_index_exec(&g.nodes, g.edges[k].from.as_str());
        let ti = node_index_exec(&g.nodes, g.edges[k].to.as_str());
        if fi < g.nodes.len() && ti < g.nodes.len() {
            acc.push((fi, ti));
        }
        k += 1;
    }
    acc
}

fn pos_in_exec(perm: &Vec<usize>, v: usize) -> (r: usize)
    ensures
        r as int == pos_in(as_ints(perm@), v as int, 0),
        r <= perm.len(),
{
    let mut i: usize = 0;
    while i < perm.len()
        invariant
            perm@.len() == perm.len(),
            as_ints(perm@).len() == perm.len(),
            0 <= i <= perm.len(),
            pos_in(as_ints(perm@), v as int, 0) == pos_in(as_ints(perm@), v as int, i as int),
        decreases perm.len() - i,
    {
        if perm[i] == v {
            proof {
                assert(as_ints(perm@)[i as int] == v as int);
            }
            return i;
        }
        i += 1;
    }
    perm.len()
}

fn cid_exec(rank: usize, kind: &NodeKind) -> (r: String)
    ensures
        r@ == cid(rank as int, kind@),
{
    let mut s = String::from_str("n");
    let d = dec_str(rank);
    s.append(d.as_str());
    s.append("-");
    match kind {
        NodeKind::AgentStub { capability } => {
            s.append("agent");
            s.append("-");
            s.append(capability.as_str());
        },
        NodeKind::ToolCall { tool, params } => {
            s.append("tool");
            s.append("-");
            s.append(tool.as_str());
        },
        NodeKind::PatchNode { target, operation } => {
            s.append("patch");
            s.append("-");
            s.append(target.as_str());
        },
    }
    proof {
        assert(s@ =~= cid(rank as int, kind@));
    }
    s
}

/// The canonical node order of `g`, pinned to `spec_perm`.
fn perm_exec(g: &WorkflowGraph, rp: &Vec<(usize, usize)>) -> (r: Vec<usize>)
    requires
        rp@ == rp_step(g@, 0, Seq::empty()),
    ensures
        as_ints(r@) == spec_perm(g@),
        forall|k: int| 0 <= k < r@.len() ==> r@[k] < g.nodes.len(),
        g@.nodes.len() == g.nodes.len(),
{
    let n = g.nodes.len();
    let (mut ord, marks) = kahn_exec(rp, n);
    let ghost ord0 = as_ints(ord@);
    let ghost mut tail: Seq<int> = Seq::empty();
    proof {
        assert(as_ints(ord@) =~= ord0 + tail);
    }
    let mut i: usize = 0;
    while i < n
        invariant
            0 <= i <= n,
            marks@.len() == n,
            marks.len() == n,
            g@.nodes.len() == n,
            forall|k: int| 0 <= k < ord@.len() ==> ord@[k] < n,
            as_ints(ord@) == ord0 + tail,
            leftovers_step(marks@, i as int, tail) == leftovers_step(marks@, 0, Seq::empty()),
        decreases n - i,
    {
        if !marks[i] {
            let ghost before = as_ints(ord@);
            ord.push(i);
            proof {
                tail = tail.push(i as int);
                assert(as_ints(ord@) =~= before.push(i as int));
                assert(as_ints(ord@) =~= ord0 + tail);
            }
        }
        i += 1;
    }
    proof {
        assert(leftovers_step(marks@, n as int, tail) == tail);
        assert(as_ints(ord@) =~= spec_perm(g@));
    }
    ord
}

impl DeterminismNormalizer {
    /// Recompute ids, re-sort nodes into canonical order, and re-express
    /// edges, entries and diagnostics against the new ids.  An edge or
    /// diagnostic endpoint that names no node is passed through unchanged
    /// for the validator to report.
    pub fn normalize(g: &WorkflowGraph) -> (r: WorkflowGraph)
        ensures
            r@ == spec_normalize(g@),
    {
        let rp = rp_exec(g);
        let perm = perm_exec(g, &rp);
        let ghost permv = as_ints(perm@);
        let n = g.nodes.len();

        let mut nodes: Vec<WorkflowNode> = Vec::new();
        let mut pos: usize = 0;
        proof {
            assert(nodes.deep_view() =~~= Seq::<NodeV>::empty());
        }
        while pos < perm.len()
            invariant
                permv == as_ints(perm@),
                permv.len() == perm.len(),
                g@.nodes.len() == g.nodes.len(),
                forall|k: int| 0 <= k < perm@.len() ==> perm@[k] < g.nodes.len(),
                0 <= pos <= perm.len(),
                norm_nodes_step(g@, permv, 0, Seq::empty()) == norm_nodes_step(
                    g@,
                    permv,
                    pos as int,
                    nodes.deep_view(),
                ),
            decreases perm.len() - pos,
        {
            let oi = perm[pos];
            if oi < g.nodes.len() {
                let old_node = &g.nodes[oi];
                let ghost old_nodes = nodes.deep_view();
                nodes.push(
                    WorkflowNode {
                        id: cid_exec(pos, &old_node.kind),
                        kind: copy_kind(&old_node.kind),
                        provenance: copy_provenance(&old_node.provenance),
                    },
                );
                proof {
                    assert(nodes.deep_view() =~~= old_nodes.push(
                        NodeV {
                            id: cid(pos as int, g@.nodes[permv[pos as int]].kind),
                            kind: g@.nodes[permv[pos as int]].kind,
                            provenance: g@.nodes[permv[pos as int]].provenance,
                        },
                    ));
                }
            }
            pos += 1;
        }

        let mut edges: Vec<WorkflowEdge> = Vec::new();
        let mut k: usize = 0;
        proof {
            assert(edges.deep_view() =~~= Seq::<EdgeV>::empty());
        }
        while k < g.edges.len()
            invariant
                permv == as_ints(perm@),
                g@.edges.len() == g.edges.len(),
                g@.nodes.len() == g.nodes.len(),
                0 <= k <= g.edges.len(),
                norm_edges_step(g@, permv, 0, Seq::empty()) == norm_edges_step(
                    g@,
                    permv,
                    k as int,
                    edges.deep_view(),
                ),
            decreases g.edges.len() - k,
        {
            let e = &g.edges[k];
            let fi = node_index_exec(&g.nodes, e.from.as_str());
            let ti = node_index_exec(&g.nodes, e.to.as_str());
            let ghost old_edges = edges.deep_view();
            if fi < g.nodes.len() && ti < g.nodes.len() {
                let fr = pos_in_exec(&perm, fi);
                let tr = pos_in_exec(&perm, ti);
                edges.push(
                    WorkflowEdge {
                        from: cid_exec(fr, &g.nodes[fi].kind),
                        to: cid_exec(tr, &g.nodes[ti].kind),
                        kind: e.kind,
                    },
                );
                proof {
                    assert(edges.deep_view() =~~= old_edges.push(
                        EdgeV {
                            from: cid(
                                pos_in(permv, fi as int, 0),
                                g@.nodes[fi as int].kind,
                            ),
                            to: cid(pos_in(permv, ti as int, 0), g@.nodes[ti as int].kind),
                            kind: g@.edges[k as int].kind,
                        },
                    ));
                }
            } else {
                edges.push(
                    WorkflowEdge { from: e.from.clone(), to: e.to.clone(), kind: e.kind },
                );
                proof {
                    assert(edges.deep_view() =~~= old_edges.push(g@.edges[k as int]));
                }
            }
            k += 1;
        }

        let mut entries: Vec<String> = Vec::new();
        let mut pos2: usize = 0;
        proof {
            assert(entries.deep_view() =~~= Seq::<Seq<char>>::empty());
        }
        while pos2 < perm.len()
            invariant
                permv == as_ints(perm@),
                permv.len() == perm.len(),
                rp@ == rp_step(g@, 0, Seq::empty()),
                g@.nodes.len() == g.nodes.len(),
                0 <= pos2 <= perm.len(),
                entries_step(g@, permv, rp@, 0, Seq::empty()) == entries_step(
                    g@,
                    permv,
                    rp@,
                    pos2 as int,
                    entries.deep_view(),
                ),
            decreases perm.len() - pos2,
        {
            let oi = perm[pos2];
            if oi < g.nodes.len() {
                let mut incoming = false;
                let mut m: usize = 0;
                while m < rp.len()
                    invariant
                        rp@.len() == rp.len(),
                        0 <= m <= rp.len(),
                        incoming <==> exists|j: int| 0 <= j < m && rp@[j].1 as int == oi as int,
                    decreases rp.len() - m,
                {
                    if rp[m].1 == oi {
                        incoming = true;
                        proof {
                            assert(rp@[m as int].1 as int == oi as int);
                        }
                    }
                    m += 1;
                }
                if !incoming {
                    let ghost old_entries = entries.deep_view();
                    entries.push(cid_exec(pos2, &g.nodes[oi].kind));
                    proof {
                        assert(!has_incoming(rp@, oi as int));
                        assert(entries.deep_view() =~~= old_entries.push(
                            cid(pos2 as int, g@.nodes[oi as int].kind),
                        ));
                    }
                } else {
                    proof {
                        assert(has_incoming(rp@, oi as int));
                    }
                }
            }
            pos2 += 1;
        }

        let mut diagnostics: Vec<Diagnostic> = Vec::new();
        let mut k2: usize = 0;
        proof {
            assert(diagnostics.deep_view() =~~= Seq::<DiagV>::empty());
        }
        while k2 < g.diagnostics.len()
            invariant
                permv == as_ints(perm@),
                g@.diagnostics.len() == g.diagnostics.len(),
                g@.nodes.len() == g.nodes.len(),
                0 <= k2 <= g.diagnostics.len(),
                norm_diags_step(g@, permv, 0, Seq::empty()) == norm_diags_step(
                    g@,
                    permv,
                    k2 as int,
                    diagnostics.deep_view(),
                ),
            decreases g.diagnostics.len() - k2,
        {
            let d = &g.diagnostics[k2];
            let fi = node_index_exec(&g.nodes, d.from.as_str());
            let ti = node_index_exec(&g.nodes, d.to.as_str());
            let ghost old_d = diagnostics.deep_view();
            if fi < g.nodes.len() && ti < g.nodes.len() {
                let fr = pos_in_exec(&perm, fi);
                let tr = pos_in_exec(&perm, ti);
                diagnostics.push(
                    Diagnostic {
                        from: cid_exec(fr, &g.nodes[fi].kind),
                        to: cid_exec(tr, &g.nodes[ti].kind),
                    },
                );
                proof {
                    assert(diagnostics.deep_view() =~~= old_d.push(
                        DiagV {
                            from: cid(
                                pos_in(permv, fi as int, 0),
                                g@.nodes[fi as int].kind,
                            ),
                            to: cid(pos_in(permv, ti as int, 0), g@.nodes[ti as int].kind),
                        },
                    ));
                }
            } else {
                diagnostics.push(Diagnostic { from: d.from.clone(), to: d.to.clone() });
                proof {
                    assert(diagnostics.deep_view() =~~= old_d.push(g@.diagnostics[k2 as int]));
                }
            }
            k2 += 1;
        }

        WorkflowGraph { nodes, edges, entries, diagnostics }
    }
}

} // verus!
