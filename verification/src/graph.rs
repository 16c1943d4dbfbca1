//! The workflow graph data model: typed nodes, directed edges, a declared
//! entry set, and the non-fatal diagnostics attached during assembly.

use vstd::prelude::*;

verus! {

/// The closed set of executable step kinds.  A step is either an agent
/// invocation described by a capability, a tool call, or a code-patch
/// operation on a target artifact.  There is deliberately no default
/// variant: an unclassifiable subtask is an error, never a silent fallback.
pub enum NodeKind {
    AgentStub { capability: String },
    ToolCall { tool: String, params: String },
    PatchNode { target: String, operation: String },
}

/// Whether an edge comes from an inferred data dependency or from an
/// explicit ordering cue in the instruction.
#[derive(Clone, Copy, PartialEq, Eq, Structural, Debug)]
pub enum EdgeKind {
    DataDependency,
    ExplicitOrder,
}

/// Where a node came from: the ordinal and text of the originating subtask,
/// the weight of the classification rule that chose its kind, and how many
/// of its artifact references were resolved against the evidence.
pub struct Provenance {
    pub origin_index: usize,
    pub origin_text: String,
    pub confidence: u32,
    pub resolved_refs: usize,
}

pub struct WorkflowNode {
    pub id: String,
    pub kind: NodeKind,
    pub provenance: Provenance,
}

pub struct WorkflowEdge {
    pub from: String,
    pub to: String,
    pub kind: EdgeKind,
}

/// A non-fatal notice that an inferred (synthesized) edge was dropped to
/// keep the graph acyclic; it names the edge by its endpoints' node ids.
pub struct Diagnostic {
    pub from: String,
    pub to: String,
}

/// The compiler's output: nodes in canonical order, directed edges, the
/// declared entry set, and the diagnostics gathered during assembly.
pub struct WorkflowGraph {
    pub nodes: Vec<WorkflowNode>,
    pub edges: Vec<WorkflowEdge>,
    pub entries: Vec<String>,
    pub diagnostics: Vec<Diagnostic>,
}

// ---------------------------------------------------------------------------
// Mathematical views
// ---------------------------------------------------------------------------

pub enum KindV {
    Agent { capability: Seq<char> },
    Tool { tool: Seq<char>, params: Seq<char> },
    Patch { target: Seq<char>, operation: Seq<char> },
}

pub struct ProvV {
    pub origin_index: int,
    pub origin_text: Seq<char>,
    pub confidence: int,
    pub resolved_refs: int,
}

pub struct NodeV {
    pub id: Seq<char>,
    pub kind: KindV,
    pub provenance: ProvV,
}

pub struct EdgeV {
    pub from: Seq<char>,
    pub to: Seq<char>,
    pub kind: EdgeKind,
}

pub struct DiagV {
    pub from: Seq<char>,
    pub to: Seq<char>,
}

pub struct GraphV {
    pub nodes: Seq<NodeV>,
    pub edges: Seq<EdgeV>,
    pub entries: Seq<Seq<char>>,
    pub diagnostics: Seq<DiagV>,
}

impl View for NodeKind {
    type V = KindV;

    open spec fn view(&self) -> KindV {
        match self {
            NodeKind::AgentStub { capability } => KindV::Agent { capability: capability@ },
            NodeKind::ToolCall { tool, params } => KindV::Tool {
                tool: tool@,
                params: params@,
            },
            NodeKind::PatchNode { target, operation } => KindV::Patch {
                target: target@,
                operation: operation@,
            },
        }
    }
}

impl DeepView for NodeKind {
    type V = KindV;

    open spec fn deep_view(&self) -> KindV {
        self.view()
    }
}

impl View for Provenance {
    type V = ProvV;

    open spec fn view(&self) -> ProvV {
        ProvV {
            origin_index: self.origin_index as int,
            origin_text: self.origin_text@,
            confidence: self.confidence as int,
            resolved_refs: self.resolved_refs as int,
        }
    }
}

impl DeepView for Provenance {
    type V = ProvV;

    open spec fn deep_view(&self) -> ProvV {
        self.view()
    }
}

impl View for WorkflowNode {
    type V = NodeV;

    open spec fn view(&self) -> NodeV {
        NodeV { id: self.id@, kind: self.kind@, provenance: self.provenance@ }
    }
}

impl DeepView for WorkflowNode {
    type V = NodeV;

    open spec fn deep_view(&self) -> NodeV {
        self.view()
    }
}

impl View for WorkflowEdge {
    type V = EdgeV;

    open spec fn view(&self) -> EdgeV {
        EdgeV { from: self.from@, to: self.to@, kind: self.kind }
    }
}

impl DeepView for WorkflowEdge {
    type V = EdgeV;

    open spec fn deep_view(&self) -> EdgeV {
        self.view()
    }
}

impl View for Diagnostic {
    type V = DiagV;

    open spec fn view(&self) -> DiagV {
        DiagV { from: self.from@, to: self.to@ }
    }
}

impl DeepView for Diagnostic {
    type V = DiagV;

    open spec fn deep_view(&self) -> DiagV {
        self.view()
    }
}

impl View for WorkflowGraph {
    type V = GraphV;

    open spec fn view(&self) -> GraphV {
        GraphV {
            nodes: self.nodes.deep_view(),
            edges: self.edges.deep_view(),
            entries: self.entries.deep_view(),
            diagnostics: self.diagnostics.deep_view(),
        }
    }
}

impl DeepView for WorkflowGraph {
    type V = GraphV;

    open spec fn deep_view(&self) -> GraphV {
        self.view()
    }
}

// ---------------------------------------------------------------------------
// Verified copies (a derived `Clone` would say nothing in contracts)
// ---------------------------------------------------------------------------

pub fn copy_kind(k: &NodeKind) -> (r: NodeKind)
    ensures
        r@ == k@,
{
    match k {
        NodeKind::AgentStub { capability } => NodeKind::AgentStub {
            capability: capability.clone(),
        },
        NodeKind::ToolCall { tool, params } => NodeKind::ToolCall {
            tool: tool.clone(),
            params: params.clone(),
        },
        NodeKind::PatchNode { target, operation } => NodeKind::PatchNode {
            target: target.clone(),
            operation: operation.clone(),
        },
    }
}

pub fn copy_provenance(p: &Provenance) -> (r: Provenance)
    ensures
        r@ == p@,
{
    Provenance {
        origin_index: p.origin_index,
        origin_text: p.origin_text.clone(),
        confidence: p.confidence,
        resolved_refs: p.resolved_refs,
    }
}

} // verus!
