//! Graph assembly: place the classified steps in first-appearance order,
//! add the explicit ordering edges, then the inferred data-dependency
//! edges.  An inferred edge that would close a cycle is dropped and the
//! drop is surfaced as a diagnostic — never silently.  Explicit edges are
//! kept even when cyclic: a cycle of explicit hints is the caller's error
//! and the validator reports it.

use vstd::prelude::*;

use crate::algo::spec_path;
use crate::graph::{
    DiagV, Diagnostic, EdgeKind, EdgeV, GraphV, KindV, NodeV, ProvV, Provenance, WorkflowEdge,
    WorkflowGraph, WorkflowNode,
};
use crate::infer::{NodeSpec, NodeSpecV};
use crate::intent::{HintV, OrderHint};
use crate::text::{contains_str, dec_str, spec_contains, spec_dec};

verus! {

pub struct GraphBuilder;

/// The provisional id of the node placed at position `i`.
pub open spec fn sid(i: int) -> Seq<char> {
    "s"@ + spec_dec(i)
}

/// Membership in a list of index pairs.
pub open spec fn pair_in(acc: Seq<(usize, usize)>, u: usize, v: usize) -> bool {
    exists|m: int| 0 <= m < acc.len() && acc[m] == (u, v)
}

// ---------------------------------------------------------------------------
// Explicit edges
// ---------------------------------------------------------------------------

/// Keep the in-range, not-yet-present hint pairs, in hint order.
pub open spec fn explicit_step(hints: Seq<HintV>, n: int, k: int, acc: Seq<(usize, usize)>) -> Seq<
    (usize, usize),
>
    decreases hints.len() - k,
{
    if k < 0 || k >= hints.len() {
        acc
    } else {
        let h = hints[k];
        let ok = 0 <= h.from_index < n && 0 <= h.to_index < n && !pair_in(
            acc,
            h.from_index as usize,
            h.to_index as usize,
        );
        explicit_step(
            hints,
            n,
            k + 1,
            if ok {
                acc.push((h.from_index as usize, h.to_index as usize))
            } else {
                acc
            },
        )
    }
}

// ---------------------------------------------------------------------------
// Inferred data dependencies
// ---------------------------------------------------------------------------

/// Step `c` consumes `target`: it is a tool call or an agent step whose
/// originating text mentions the artifact.
pub open spec fn consumes(specs: Seq<NodeSpecV>, c: int, target: Seq<char>) -> bool {
    match specs[c].kind {
        KindV::Tool { tool, params } => spec_contains(specs[c].origin_text, target),
        KindV::Agent { capability } => spec_contains(specs[c].origin_text, target),
        KindV::Patch { target: t2, operation } => false,
    }
}

pub open spec fn cand_inner(
    specs: Seq<NodeSpecV>,
    p: int,
    target: Seq<char>,
    c: int,
    acc: Seq<(usize, usize)>,
) -> Seq<(usize, usize)>
    decreases specs.len() - c,
{
    if c < 0 || c >= specs.len() {
        acc
    } else {
        cand_inner(
            specs,
            p,
            target,
            c + 1,
            if c != p && consumes(specs, c, target) {
                acc.push((p as usize, c as usize))
            } else {
                acc
            },
        )
    }
}

/// Every producer/consumer pair: a patch step producing an artifact,
/// followed (in either direction) by a step consuming it.
pub open spec fn cand_step(specs: Seq<NodeSpecV>, p: int, acc: Seq<(usize, usize)>) -> Seq<
    (usize, usize),
>
    decreases specs.len() - p,
{
    if p < 0 || p >= specs.len() {
        acc
    } else {
        let acc2 = match specs[p].kind {
            KindV::Patch { target, operation } => cand_inner(specs, p, target, 0, acc),
            KindV::Tool { tool, params } => acc,
            KindV::Agent { capability } => acc,
        };
        cand_step(specs, p + 1, acc2)
    }
}

/// Place the candidate inferred edges one at a time: a duplicate is
/// skipped, one that would close a cycle is dropped with a diagnostic,
/// the rest are added.
pub open spec fn place_step(
    cands: Seq<(usize, usize)>,
    k: int,
    n: int,
    exp: Seq<(usize, usize)>,
    inf: Seq<(usize, usize)>,
    diags: Seq<(usize, usize)>,
) -> (Seq<(usize, usize)>, Seq<(usize, usize)>)
    decreases cands.len() - k,
{
    if k < 0 || k >= cands.len() {
        (inf, diags)
    } else {
        let pc = cands[k];
        let all = exp + inf;
        if pair_in(all, pc.0, pc.1) {
            place_step(cands, k + 1, n, exp, inf, diags)
        } else if spec_path(all, n, pc.1 as int, pc.0 as int) {
            place_step(cands, k + 1, n, exp, inf, diags.push(pc))
        } else {
            place_step(cands, k + 1, n, exp, inf.push(pc), diags)
        }
    }
}

// ---------------------------------------------------------------------------
// Materialization
// ---------------------------------------------------------------------------

pub open spec fn nodes_step(specs: Seq<NodeSpecV>, k: int, acc: Seq<NodeV>) -> Seq<NodeV>
    decreases specs.len() - k,
{
    if k < 0 || k >= specs.len() {
        acc
    } else {
        nodes_step(
            specs,
            k + 1,
            acc.push(
                NodeV {
                    id: sid(k),
                    kind: specs[k].kind,
                    provenance: ProvV {
                        origin_index: specs[k].origin_index,
                        origin_text: specs[k].origin_text,
                        confidence: specs[k].confidence,
                        resolved_refs: specs[k].resolved_refs,
                    },
                },
            ),
        )
    }
}

pub open spec fn edges_mat_step(
    pairs: Seq<(usize, usize)>,
    k: int,
    kind: EdgeKind,
    acc: Seq<EdgeV>,
) -> Seq<EdgeV>
    decreases pairs.len() - k,
{
    if k < 0 || k >= pairs.len() {
        acc
    } else {
        edges_mat_step(
            pairs,
            k + 1,
            kind,
            acc.push(EdgeV { from: sid(pairs[k].0 as int), to: sid(pairs[k].1 as int), kind }),
        )
    }
}

pub open spec fn diags_mat_step(pairs: Seq<(usize, usize)>, k: int, acc: Seq<DiagV>) -> Seq<DiagV>
    decreases pairs.len() - k,
{
    if k < 0 || k >= pairs.len() {
        acc
    } else {
        diags_mat_step(
            pairs,
            k + 1,
            acc.push(DiagV { from: sid(pairs[k].0 as int), to: sid(pairs[k].1 as int) }),
        )
    }
}

/// What `GraphBuilder::build` returns, as a function of its inputs alone.
/// The graph is unvalidated: explicit hint cycles are kept for the
/// validator to reject; entries are left for the normalizer to declare.
pub open spec fn spec_build(specs: Seq<NodeSpecV>, hints: Seq<HintV>) -> GraphV {
    let n = specs.len() as int;
    let exp = explicit_step(hints, n, 0, Seq::empty());
    let cands = cand_step(specs, 0, Seq::empty());
    let placed = place_step(cands, 0, n, exp, Seq::empty(), Seq::empty());
    GraphV {
        nodes: nodes_step(specs, 0, Seq::empty()),
        edges: edges_mat_step(exp, 0, EdgeKind::ExplicitOrder, Seq::empty()) + edges_mat_step(
            placed.0,
            0,
            EdgeKind::DataDependency,
            Seq::empty(),
        ),
        entries: Seq::empty(),
        diagnostics: diags_mat_step(placed.1, 0, Seq::empty()),
    }
}

// ---------------------------------------------------------------------------
// Executable assembly
// ---------------------------------------------------------------------------

fn sid_exec(i: usize) -> (r: String)
    ensures
        r@ == sid(i as int),
{
    let mut s = String::from_str("s");
    let d = dec_str(i);
    s.append(d.as_str());
    proof {
        assert(s@ =~= "s"@ + spec_dec(i as int));
    }
    s
}

fn pair_in_exec(acc: &Vec<(usize, usize)>, u: usize, v: usize) -> (r: bool)
    ensures
        r == pair_in(acc@, u, v),
{
    let mut m: usize = 0;
    while m < acc.len()
        invariant
            acc@.len() == acc.len(),
            0 <= m <= acc.len(),
            forall|j: int| 0 <= j < m ==> acc@[j] != (u, v),
        decreases acc.len() - m,
    {
        let (a, b) = acc[m];
        if a == u && b == v {
            proof {
                assert(acc@[m as int] == (u, v));
            }
            return true;
        }
        m += 1;
    }
    false
}

fn mat_edges(pairs: &Vec<(usize, usize)>, kind: EdgeKind, out: &mut Vec<WorkflowEdge>)
    requires
        old(out)@.len() == 0,
    ensures
        final(out).deep_view() == edges_mat_step(pairs@, 0, kind, Seq::empty()),
{
    proof {
        assert(out.deep_view() =~~= Seq::<EdgeV>::empty());
    }
    let mut k: usize = 0;
    while k < pairs.len()
        invariant
            pairs@.len() == pairs.len(),
            0 <= k <= pairs.len(),
            edges_mat_step(pairs@, 0, kind, Seq::empty()) == edges_mat_step(
                pairs@,
                k as int,
                kind,
                out.deep_view(),
            ),
        decreases pairs.len() - k,
    {
        let (u, v) = pairs[k];
        let ghost old_out = out.deep_view();
        out.push(WorkflowEdge { from: sid_exec(u), to: sid_exec(v), kind });
        proof {
            assert(out.deep_view() =~~= old_out.push(
                EdgeV {
                    from: sid(pairs@[k as int].0 as int),
                    to: sid(pairs@[k as int].1 as int),
                    kind,
                },
            ));
        }
        k += 1;
    }
}

impl GraphBuilder {
    /// Assemble the unvalidated graph from the classified steps and the
    /// ordering hints.
    pub fn build(specs: &Vec<NodeSpec>, hints: &Vec<OrderHint>) -> (g: WorkflowGraph)
        ensures
            g@ == spec_build(specs.deep_view(), hints.deep_view()),
    {
        let ghost specsv = specs.deep_view();
        let ghost hintsv = hints.deep_view();
        let n = specs.len();

        // Explicit edges from the ordering hints.
        let mut exp: Vec<(usize, usize)> = Vec::new();
        let mut k: usize = 0;
        while k < hints.len()
            invariant
                hintsv == hints.deep_view(),
                hintsv.len() == hints.len(),
                n == specs.len(),
                specsv.len() == n,
                0 <= k <= hints.len(),
                explicit_step(hintsv, n as int, 0, Seq::empty()) == explicit_step(
                    hintsv,
                    n as int,
                    k as int,
                    exp@,
                ),
            decreases hints.len() - k,
        {
            let h = &hints[k];
            if h.from_index < n && h.to_index < n {
                if !pair_in_exec(&exp, h.from_index, h.to_index) {
                    exp.push((h.from_index, h.to_index));
                }
            }
            k += 1;
        }

        // Candidate inferred edges.
        let mut cands: Vec<(usize, usize)> = Vec::new();
        let mut p: usize = 0;
        while p < n
            invariant
                specsv == specs.deep_view(),
                specsv.len() == n,
                n == specs.len(),
                0 <= p <= n,
                cand_step(specsv, 0, Seq::empty()) == cand_step(specsv, p as int, cands@),
            decreases n - p,
        {
            match &specs[p].kind {
                crate::graph::NodeKind::PatchNode { target, operation } => {
                    let ghost tgt = target@;
                    let mut c: usize = 0;
                    let ghost inner_start = cands@;
                    while c < n
                        invariant
                            specsv == specs.deep_view(),
                            specsv.len() == n,
                            n == specs.len(),
                            0 <= p < n,
                            0 <= c <= n,
                            specsv[p as int].kind matches KindV::Patch { target: t, operation: o }
                                && t == tgt,
                            specs[p as int].kind matches crate::graph::NodeKind::PatchNode {
                                target: te,
                                operation: oe,
                            } && te@ == tgt,
                            target@ == tgt,
                            cand_inner(specsv, p as int, tgt, 0, inner_start) == cand_inner(
                                specsv,
                                p as int,
                                tgt,
                                c as int,
                                cands@,
                            ),
                        decreases n - c,
                    {
                        let is_consumer = match &specs[c].kind {
                            crate::graph::NodeKind::AgentStub { capability } => true,
                            crate::graph::NodeKind::ToolCall { tool, params } => true,
                            crate::graph::NodeKind::PatchNode { target: t2, operation: o2 } => {
                                false
                            },
                        };
                        if c != p && is_consumer {
                            if contains_str(specs[c].origin_text.as_str(), target.as_str()) {
                                cands.push((p, c));
                                proof {
                                    assert(consumes(specsv, c as int, tgt));
                                }
                            } else {
                                proof {
                                    assert(!consumes(specsv, c as int, tgt));
                                }
                            }
                        } else {
                            proof {
                                if c != p {
                                    assert(!consumes(specsv, c as int, tgt));
                                }
                            }
                        }
                        c += 1;
                    }
                },
                crate::graph::NodeKind::AgentStub { capability } => {},
                crate::graph::NodeKind::ToolCall { tool, params } => {},
            }
            p += 1;
        }

        // Place the candidates, dropping cycle-closing ones with a
        // diagnostic.
        let mut all: Vec<(usize, usize)> = Vec::new();
        let mut k2: usize = 0;
        while k2 < exp.len()
            invariant
                0 <= k2 <= exp.len(),
                exp@.len() == exp.len(),
                all@ == exp@.subrange(0, k2 as int),
            decreases exp.len() - k2,
        {
            all.push(exp[k2]);
            proof {
                assert(all@ =~= exp@.subrange(0, k2 as int + 1));
            }
            k2 += 1;
        }
        proof {
            assert(exp@.subrange(0, exp@.len() as int) =~= exp@);
        }
        let mut inf: Vec<(usize, usize)> = Vec::new();
        let mut dg: Vec<(usize, usize)> = Vec::new();
        let mut k3: usize = 0;
        proof {
            assert(all@ =~= exp@ + inf@);
        }
        while k3 < cands.len()
            invariant
                cands@.len() == cands.len(),
                0 <= k3 <= cands.len(),
                all@ == exp@ + inf@,
                place_step(cands@, 0, n as int, exp@, Seq::empty(), Seq::empty()) == place_step(
                    cands@,
                    k3 as int,
                    n as int,
                    exp@,
                    inf@,
                    dg@,
                ),
            decreases cands.len() - k3,
        {
            let (pp, cc) = cands[k3];
            if pair_in_exec(&all, pp, cc) {
            } else if crate::algo::path_exec(&all, n, cc, pp) {
                dg.push((pp, cc));
            } else {
                inf.push((pp, cc));
                all.push((pp, cc));
                proof {
                    assert(all@ =~= exp@ + inf@);
                }
            }
            k3 += 1;
        }

        // Materialize the graph.
        let mut nodes: Vec<WorkflowNode> = Vec::new();
        let mut k4: usize = 0;
        proof {
            assert(nodes.deep_view() =~~= Seq::<NodeV>::empty());
        }
        while k4 < n
            invariant
                specsv == specs.deep_view(),
                specsv.len() == n,
                n == specs.len(),
                0 <= k4 <= n,
                nodes_step(specsv, 0, Seq::empty()) == nodes_step(
                    specsv,
                    k4 as int,
                    nodes.deep_view(),
                ),
            decreases n - k4,
        {
            let sp = &specs[k4];
            let ghost old_nodes = nodes.deep_view();
            nodes.push(
                WorkflowNode {
                    id: sid_exec(k4),
                    kind: crate::graph::copy_kind(&sp.kind),
                    provenance: Provenance {
                        origin_index: sp.origin_index,
                        origin_text: sp.origin_text.clone(),
                        confidence: sp.confidence,
                        resolved_refs: sp.resolved_refs,
                    },
                },
            );
            proof {
                assert(nodes.deep_view() =~~= old_nodes.push(
                    NodeV {
                        id: sid(k4 as int),
                        kind: specsv[k4 as int].kind,
                        provenance: ProvV {
                            origin_index: specsv[k4 as int].origin_index,
                            origin_text: specsv[k4 as int].origin_text,
                            confidence: specsv[k4 as int].confidence,
                            resolved_refs: specsv[k4 as int].resolved_refs,
                        },
                    },
                ));
            }
            k4 += 1;
        }

        let mut edges: Vec<WorkflowEdge> = Vec::new();
        mat_edges(&exp, EdgeKind::ExplicitOrder, &mut edges);
        let mut data_edges: Vec<WorkflowEdge> = Vec::new();
        mat_edges(&inf, EdgeKind::DataDependency, &mut data_edges);
        let ghost exp_edges = edges.deep_view();
        let mut k5: usize = 0;
        while k5 < data_edges.len()
            invariant
                0 <= k5 <= data_edges.len(),
                data_edges.deep_view().len() == data_edges.len(),
                edges.deep_view() == exp_edges + data_edges.deep_view().subrange(0, k5 as int),
            decreases data_edges.len() - k5,
        {
            let e = &data_edges[k5];
            let ghost old_edges = edges.deep_view();
            edges.push(WorkflowEdge { from: e.from.clone(), to: e.to.clone(), kind: e.kind });
            proof {
                assert(edges.deep_view() =~~= old_edges.push(
                    data_edges.deep_view()[k5 as int],
                ));
                assert(exp_edges + data_edges.deep_view().subrange(0, k5 as int + 1)
                    =~~= old_edges.push(data_edges.deep_view()[k5 as int]));
            }
            k5 += 1;
        }
        proof {
            assert(data_edges.deep_view().subrange(0, data_edges.deep_view().len() as int)
                =~~= data_edges.deep_view());
        }

        let mut diagnostics: Vec<Diagnostic> = Vec::new();
        let mut k6: usize = 0;
        proof {
            assert(diagnostics.deep_view() =~~= Seq::<DiagV>::empty());
        }
        while k6 < dg.len()
            invariant
                dg@.len() == dg.len(),
                0 <= k6 <= dg.len(),
                diags_mat_step(dg@, 0, Seq::empty()) == diags_mat_step(
                    dg@,
                    k6 as int,
                    diagnostics.deep_view(),
                ),
            decreases dg.len() - k6,
        {
            let (u, v) = dg[k6];
            let ghost old_d = diagnostics.deep_view();
            diagnostics.push(Diagnostic { from: sid_exec(u), to: sid_exec(v) });
            proof {
                assert(diagnostics.deep_view() =~~= old_d.push(
                    DiagV { from: sid(dg@[k6 as int].0 as int), to: sid(dg@[k6 as int].1 as int) },
                ));
            }
            k6 += 1;
        }

        let g = WorkflowGraph { nodes, edges, entries: Vec::new(), diagnostics };
        proof {
            assert(g@.entries =~~= Seq::<Seq<char>>::empty());
        }
        g
    }
}

} // verus!
