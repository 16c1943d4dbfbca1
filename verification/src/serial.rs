//! The serialized hand-off form of a compiled graph: a line-oriented text
//! listing nodes in canonical (topological) order, then edges, the entry
//! set and the diagnostics.  The form is pinned exactly, so two equal
//! graphs always serialize to the same bytes.

use vstd::prelude::*;

use crate::graph::{EdgeKind, GraphV, NodeKind, WorkflowGraph};
use crate::normalize::{kind_label, kind_tag};
use crate::text::{dec_str, spec_dec};

verus! {

pub open spec fn ser_node(n: crate::graph::NodeV) -> Seq<char> {
    "node "@ + n.id + " kind="@ + kind_tag(n.kind) + " label="@ + kind_label(n.kind) + " conf="@
        + spec_dec(n.provenance.confidence) + "\n"@
}

pub open spec fn ser_nodes_step(nodes: Seq<crate::graph::NodeV>, k: int, acc: Seq<char>) -> Seq<
    char,
>
    decreases nodes.len() - k,
{
    if k < 0 || k >= nodes.len() {
        acc
    } else {
        ser_nodes_step(nodes, k + 1, acc + ser_node(nodes[k]))
    }
}

pub open spec fn ser_edge_kind(k: EdgeKind) -> Seq<char> {
    match k {
        EdgeKind::DataDependency => " data"@,
        EdgeKind::ExplicitOrder => " order"@,
    }
}

pub open spec fn ser_edge(e: crate::graph::EdgeV) -> Seq<char> {
    "edge "@ + e.from + " -> "@ + e.to + ser_edge_kind(e.kind) + "\n"@
}

pub open spec fn ser_edges_step(edges: Seq<crate::graph::EdgeV>, k: int, acc: Seq<char>) -> Seq<
    char,
>
    decreases edges.len() - k,
{
    if k < 0 || k >= edges.len() {
        acc
    } else {
        ser_edges_step(edges, k + 1, acc + ser_edge(edges[k]))
    }
}

pub open spec fn ser_entries_step(entries: Seq<Seq<char>>, k: int, acc: Seq<char>) -> Seq<char>
    decreases entries.len() - k,
{
    if k < 0 || k >= entries.len() {
        acc
    } else {
        ser_entries_step(entries, k + 1, acc + "entry "@ + entries[k] + "\n"@)
    }
}

pub open spec fn ser_diags_step(diags: Seq<crate::graph::DiagV>, k: int, acc: Seq<char>) -> Seq<
    char,
>
    decreases diags.len() - k,
{
    if k < 0 || k >= diags.len() {
        acc
    } else {
        ser_diags_step(diags, k + 1, acc + "dropped "@ + diags[k].from + " -> "@ + diags[k].to
            + "\n"@)
    }
}

/// The serialized form, as a function of the graph's view alone.
pub open spec fn spec_serialized(g: GraphV) -> Seq<char> {
    ser_diags_step(
        g.diagnostics,
        0,
        ser_entries_step(g.entries, 0, ser_edges_step(g.edges, 0, ser_nodes_step(g.nodes, 0, Seq::empty()))),
    )
}

impl WorkflowGraph {
    /// Render the graph in its hand-off form, pinned to `spec_serialized`:
    /// equal graphs give byte-identical text.
    pub fn serialized(&self) -> (r: String)
        ensures
            r@ == spec_serialized(self@),
    {
        let mut out = String::new();
        let mut k: usize = 0;
        proof {
            assert(out@ =~= Seq::<char>::empty());
        }
        while k < self.nodes.len()
            invariant
                self@.nodes.len() == self.nodes.len(),
                0 <= k <= self.nodes.len(),
                ser_nodes_step(self@.nodes, 0, Seq::empty()) == ser_nodes_step(
                    self@.nodes,
                    k as int,
                    out@,
                ),
            decreases self.nodes.len() - k,
        {
            let ghost old_out = out@;
            let n = &self.nodes[k];
            out.append("node ");
            out.append(n.id.as_str());
            out.append(" kind=");
            match &n.kind {
                NodeKind::AgentStub { capability } => {
                    out.append("agent");
                    out.append(" label=");
                    out.append(capability.as_str());
                },
                NodeKind::ToolCall { tool, params } => {
                    out.append("tool");
                    out.append(" label=");
                    out.append(tool.as_str());
                },
                NodeKind::PatchNode { target, operation } => {
                    out.append("patch");
                    out.append(" label=");
                    out.append(target.as_str());
                },
            }
            out.append(" conf=");
            let c = dec_str(n.provenance.confidence as usize);
            out.append(c.as_str());
            out.append("\n");
            proof {
                assert(out@ =~= old_out + ser_node(self@.nodes[k as int]));
            }
            k += 1;
        }
        let ghost nodes_text = out@;
        let mut k2: usize = 0;
        while k2 < self.edges.len()
            invariant
                self@.edges.len() == self.edges.len(),
                0 <= k2 <= self.edges.len(),
                ser_edges_step(self@.edges, 0, nodes_text) == ser_edges_step(
                    self@.edges,
                    k2 as int,
                    out@,
                ),
            decreases self.edges.len() - k2,
        {
            let ghost old_out = out@;
            let e = &self.edges[k2];
            out.append("edge ");
            out.append(e.from.as_str());
            out.append(" -> ");
            out.append(e.to.as_str());
            match e.kind {
                EdgeKind::DataDependency => out.append(" data"),
                EdgeKind::ExplicitOrder => out.append(" order"),
            }
            out.append("\n");
            proof {
                assert(out@ =~= old_out + ser_edge(self@.edges[k2 as int]));
            }
            k2 += 1;
        }
        let ghost edges_text = out@;
        let mut k3: usize = 0;
        while k3 < self.entries.len()
            invariant
                self@.entries.len() == self.entries.len(),
                0 <= k3 <= self.entries.len(),
                ser_entries_step(self@.entries, 0, edges_text) == ser_entries_step(
                    self@.entries,
                    k3 as int,
                    out@,
                ),
            decreases self.entries.len() - k3,
        {
            let ghost old_out = out@;
            out.append("entry ");
            out.append(self.entries[k3].as_str());
            out.append("\n");
            proof {
                assert(out@ =~= old_out + "entry "@ + self@.entries[k3 as int] + "\n"@);
            }
            k3 += 1;
        }
        let ghost entries_text = out@;
        let mut k4: usize = 0;
        while k4 < self.diagnostics.len()
            invariant
                self@.diagnostics.len() == self.diagnostics.len(),
                0 <= k4 <= self.diagnostics.len(),
                ser_diags_step(self@.diagnostics, 0, entries_text) == ser_diags_step(
                    self@.diagnostics,
                    k4 as int,
                    out@,
                ),
            decreases self.diagnostics.len() - k4,
        {
            let ghost old_out = out@;
            let d = &self.diagnostics[k4];
            out.append("dropped ");
            out.append(d.from.as_str());
            out.append(" -> ");
            out.append(d.to.as_str());
            out.append("\n");
            proof {
                assert(out@ =~= old_out + "dropped "@ + self@.diagnostics[k4 as int].from
                    + " -> "@ + self@.diagnostics[k4 as int].to + "\n"@);
            }
            k4 += 1;
        }
        proof {
            assert(out@ == spec_serialized(self@));
        }
        out
    }
}

} // verus!
