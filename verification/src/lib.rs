//! A deterministic workflow compiler: it turns a natural-language task
//! description, together with already-ingested evidence text, into an
//! auditable directed acyclic graph of executable steps.
//!
//! The pipeline runs in a fixed order — intent extraction, rule-based
//! classification, graph assembly, canonicalization, structural validation
//! — and every stage is pinned by its contract to a spec-level function of
//! its inputs alone, so the whole compilation is reproducible: the same
//! instruction and evidence always give the byte-identical graph.

pub mod algo;
pub mod builder;
pub mod errors;
pub mod graph;
pub mod infer;
pub mod ingest;
pub mod intent;
pub mod normalize;
pub mod serial;
pub mod text;
pub mod validate;

use vstd::prelude::*;

use crate::builder::{spec_build, GraphBuilder};
use crate::errors::{CompileError, ErrV};
use crate::graph::{GraphV, WorkflowGraph};
use crate::infer::{spec_infer, AgentInferenceEngine};
use crate::ingest::{IngestResult, IngestV};
use crate::intent::{spec_parse, IntentParser};
use crate::normalize::{spec_normalize, DeterminismNormalizer};
use crate::validate::{spec_validate, Validator};

verus! {

pub struct WorkflowCompiler;

/// The outcome of compiling, as a function of the instruction and the
/// evidence alone.  Every stage below is pinned to this function, which is
/// what makes compilation reproducible.
pub open spec fn spec_compile_nl(ins: Seq<char>, ev: Seq<IngestV>) -> Result<GraphV, ErrV> {
    match spec_parse(ins, ev) {
        Err(e) => Err(e),
        Ok(intent) => match spec_infer(intent.subtasks) {
            Err(e) => Err(e),
            Ok(specs) => {
                let g = spec_normalize(spec_build(specs, intent.hints));
                let errs = spec_validate(g);
                if errs.len() == 0 {
                    Ok(g)
                } else {
                    Err(ErrV::Invalid { errors: errs })
                }
            },
        },
    }
}

impl WorkflowCompiler {
    /// The sole entry point: run the pipeline in fixed order and either
    /// return a graph that passed the validator in full, or the first
    /// stage failure — never a partially-validated graph.
    pub fn compile_nl(instruction: &str, evidence: &Vec<IngestResult>) -> (r: Result<
        WorkflowGraph,
        CompileError,
    >)
        ensures
            (match r {
                Ok(g) => spec_compile_nl(instruction@, evidence.deep_view()) == Ok::<
                    GraphV,
                    ErrV,
                >(g@),
                Err(e) => spec_compile_nl(instruction@, evidence.deep_view()) == Err::<
                    GraphV,
                    ErrV,
                >(e@),
            }),
    {
        let intent = match IntentParser::parse(instruction, evidence) {
            Ok(it) => it,
            Err(e) => {
                return Err(e);
            },
        };
        let specs = match AgentInferenceEngine::infer(&intent.subtasks) {
            Ok(s) => s,
            Err(e) => {
                return Err(e);
            },
        };
        let built = GraphBuilder::build(&specs, &intent.hints);
        let normal = DeterminismNormalizer::normalize(&built);
        match Validator::validate(&normal) {
            Ok(_) => Ok(normal),
            Err(errs) => Err(CompileError::InvalidGraph { errors: errs }),
        }
    }
}

/// Law: compilation is deterministic.  The outcome every call relates to
/// is a spec-level function of the instruction and the evidence alone, so
/// equal inputs give equal outputs — across calls, runs and processes.
pub proof fn lemma_compile_deterministic(
    i1: Seq<char>,
    e1: Seq<IngestV>,
    i2: Seq<char>,
    e2: Seq<IngestV>,
)
    requires
        i1 == i2,
        e1 == e2,
    ensures
        spec_compile_nl(i1, e1) == spec_compile_nl(i2, e2),
{
}

/// A compiled graph is one the validator accepted in full: the compiler
/// never releases a graph with a nonempty defect list.
pub proof fn lemma_compiled_graph_validated(ins: Seq<char>, ev: Seq<IngestV>, g: GraphV)
    requires
        spec_compile_nl(ins, ev) == Ok::<GraphV, ErrV>(g),
    ensures
        spec_validate(g).len() == 0,
{
    match spec_parse(ins, ev) {
        Err(e) => {
            assert(false);
        },
        Ok(intent) => {
            match spec_infer(intent.subtasks) {
                Err(e) => {
                    assert(false);
                },
                Ok(specs) => {
                    let g2 = spec_normalize(spec_build(specs, intent.hints));
                    assert(spec_validate(g2).len() == 0);
                    assert(g == g2);
                },
            }
        },
    }
}

/// Law: every compiled graph is acyclic — a topological sort succeeds, in
/// the form of a rank assignment that grows strictly along every edge.
pub proof fn lemma_compiled_acyclic(ins: Seq<char>, ev: Seq<IngestV>, g: GraphV)
    requires
        spec_compile_nl(ins, ev) == Ok::<GraphV, ErrV>(g),
    ensures
        exists|rank: Seq<int>|
            crate::algo::is_topo_rank(
                crate::normalize::rp_step(g, 0, Seq::empty()),
                g.nodes.len() as int,
                rank,
            ),
{
    lemma_compiled_graph_validated(ins, ev, g);
    let n = g.nodes.len() as int;
    let rp = crate::normalize::rp_step(g, 0, Seq::empty());
    let kr = crate::algo::spec_kahn(rp, n);
    assert(kr.0.len() >= n);
    crate::algo::lemma_kahn_fuel_len(rp, crate::algo::no_marks(n), Seq::empty(), n as nat);
    assert(kr.0.len() == n);
    crate::algo::lemma_kahn_complete_topo(rp, n);
}

/// Law: in every compiled graph the node ids are pairwise distinct.
pub proof fn lemma_compiled_ids_unique(ins: Seq<char>, ev: Seq<IngestV>, g: GraphV)
    requires
        spec_compile_nl(ins, ev) == Ok::<GraphV, ErrV>(g),
    ensures
        forall|i: int, j: int|
            0 <= i < j < g.nodes.len() ==> g.nodes[i].id != g.nodes[j].id,
{
    lemma_compiled_graph_validated(ins, ev, g);
    assert(crate::validate::dup_step(g, 0, Seq::empty()).len() == 0);
    crate::validate::lemma_dup_empty(g, 0, Seq::empty());
}

/// Law: in every compiled graph both endpoints of every edge name nodes
/// present in that graph.
pub proof fn lemma_compiled_edges_referential(ins: Seq<char>, ev: Seq<IngestV>, g: GraphV)
    requires
        spec_compile_nl(ins, ev) == Ok::<GraphV, ErrV>(g),
    ensures
        forall|k: int|
            0 <= k < g.edges.len() ==> crate::validate::has_node_with_id(
                g,
                #[trigger] g.edges[k].from,
            ) && crate::validate::has_node_with_id(g, g.edges[k].to),
{
    lemma_compiled_graph_validated(ins, ev, g);
    assert(crate::validate::dangling_step(g, 0, Seq::empty()).len() == 0);
    crate::validate::lemma_dangling_empty(g, 0, Seq::empty());
    assert forall|k: int|
        0 <= k < g.edges.len() implies crate::validate::has_node_with_id(
        g,
        #[trigger] g.edges[k].from,
    ) && crate::validate::has_node_with_id(g, g.edges[k].to) by {
        let fi = crate::normalize::node_index(g.nodes, g.edges[k].from, 0);
        let ti = crate::normalize::node_index(g.nodes, g.edges[k].to, 0);
        crate::normalize::lemma_node_index_props(g.nodes, g.edges[k].from, 0);
        crate::normalize::lemma_node_index_props(g.nodes, g.edges[k].to, 0);
        assert(0 <= fi < g.nodes.len() && g.nodes[fi].id == g.edges[k].from);
        assert(0 <= ti < g.nodes.len() && g.nodes[ti].id == g.edges[k].to);
    }
}

} // verus!
