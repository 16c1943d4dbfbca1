use workflow_compiler::errors::{CompileError, ValidationError};
use workflow_compiler::graph::{EdgeKind, NodeKind};
use workflow_compiler::ingest::IngestResult;
use workflow_compiler::WorkflowCompiler;

fn evidence_one(source: &str, chunk: &str) -> Vec<IngestResult> {
    vec![IngestResult { source: String::from(source), chunks: vec![String::from(chunk)] }]
}

#[test]
fn linear_chain_from_connectors() {
    let evidence = evidence_one("https://x/readme.md", "bug: off-by-one");
    let g = WorkflowCompiler::compile_nl(
        "Fetch https://x/readme.md, summarize it, then patch file.py to fix the bug",
        &evidence,
    )
    .expect("a single connected sentence must compile");
    assert_eq!(g.nodes.len(), 3);
    match &g.nodes[0].kind {
        NodeKind::ToolCall { tool, params } => {
            assert_eq!(tool, "fetch");
            assert_eq!(params, "Fetch https://x/readme.md");
        }
        _ => panic!("first node must be the tool call"),
    }
    match &g.nodes[1].kind {
        NodeKind::AgentStub { capability } => assert_eq!(capability, "summarize"),
        _ => panic!("second node must be the agent step"),
    }
    match &g.nodes[2].kind {
        NodeKind::PatchNode { target, operation } => {
            assert_eq!(target, "file.py");
            assert_eq!(operation, "patch file.py to fix the bug");
        }
        _ => panic!("third node must be the patch step"),
    }
    assert_eq!(g.edges.len(), 2);
    assert_eq!(g.edges[0].from, g.nodes[0].id);
    assert_eq!(g.edges[0].to, g.nodes[1].id);
    assert_eq!(g.edges[1].from, g.nodes[1].id);
    assert_eq!(g.edges[1].to, g.nodes[2].id);
    assert!(matches!(g.edges[0].kind, EdgeKind::ExplicitOrder));
    assert_eq!(g.entries, vec![g.nodes[0].id.clone()]);
    assert_eq!(g.diagnostics.len(), 0);
}

#[test]
fn canonical_ids_come_from_rank_kind_and_content() {
    let evidence = evidence_one("https://x/readme.md", "bug: off-by-one");
    let g = WorkflowCompiler::compile_nl(
        "Fetch https://x/readme.md, summarize it, then patch file.py to fix the bug",
        &evidence,
    )
    .expect("must compile");
    assert_eq!(g.nodes[0].id, "n0-tool-fetch");
    assert_eq!(g.nodes[1].id, "n1-agent-summarize");
    assert_eq!(g.nodes[2].id, "n2-patch-file.py");
}

#[test]
fn explicit_hint_cycle_is_rejected() {
    let evidence: Vec<IngestResult> = Vec::new();
    let r = WorkflowCompiler::compile_nl("A, and B, A after B, B after A", &evidence);
    match r {
        Err(CompileError::InvalidGraph { errors }) => {
            assert!(matches!(errors[0], ValidationError::CyclicGraph { .. }));
        }
        _ => panic!("a cycle of explicit hints must never yield a graph"),
    }
}

#[test]
fn unconnected_imperatives_are_ambiguous() {
    let evidence: Vec<IngestResult> = Vec::new();
    let r = WorkflowCompiler::compile_nl("Refactor module X. Deploy service Y.", &evidence);
    match r {
        Err(CompileError::AmbiguousIntent { goals }) => {
            assert_eq!(goals.len(), 2);
            assert_eq!(goals[0], "Refactor module X");
            assert_eq!(goals[1], "Deploy service Y");
        }
        _ => panic!("two unconnected imperatives must be ambiguous"),
    }
}

#[test]
fn inferred_cycle_edge_is_dropped_with_diagnostic() {
    let evidence: Vec<IngestResult> = Vec::new();
    let g = WorkflowCompiler::compile_nl(
        "patch file.py, and summarize file.py, patch file.py after summarize file.py",
        &evidence,
    )
    .expect("a cycle closed only by an inferred edge must still compile");
    assert_eq!(g.nodes.len(), 2);
    assert_eq!(g.edges.len(), 1);
    assert_eq!(g.edges[0].from, "n0-agent-summarize");
    assert_eq!(g.edges[0].to, "n1-patch-file.py");
    assert_eq!(g.diagnostics.len(), 1);
    assert_eq!(g.diagnostics[0].from, "n1-patch-file.py");
    assert_eq!(g.diagnostics[0].to, "n0-agent-summarize");
}

#[test]
fn inferred_data_dependency_gets_an_edge() {
    let evidence: Vec<IngestResult> = Vec::new();
    let g = WorkflowCompiler::compile_nl(
        "patch lib.rs, and summarize lib.rs changes",
        &evidence,
    )
    .expect("must compile");
    assert_eq!(g.nodes.len(), 2);
    // The only edge is the inferred one: patch produces lib.rs, the agent
    // step consumes it.
    assert_eq!(g.edges.len(), 1);
    assert!(matches!(g.edges[0].kind, EdgeKind::DataDependency));
    assert_eq!(g.edges[0].from, "n0-patch-lib.rs");
    assert_eq!(g.edges[0].to, "n1-agent-summarize");
}

#[test]
fn empty_instruction_compiles_to_the_empty_graph() {
    let evidence: Vec<IngestResult> = Vec::new();
    let g = WorkflowCompiler::compile_nl("", &evidence).expect("empty instruction");
    assert_eq!(g.nodes.len(), 0);
    assert_eq!(g.edges.len(), 0);
    assert_eq!(g.entries.len(), 0);
}

#[test]
fn wordless_subtask_is_unsupported() {
    let evidence: Vec<IngestResult> = Vec::new();
    let r = WorkflowCompiler::compile_nl("42", &evidence);
    match r {
        Err(CompileError::UnsupportedNodeKind { subtask }) => assert_eq!(subtask, "42"),
        _ => panic!("a subtask with no leading word matches no rule"),
    }
}

#[test]
fn conjunction_carries_no_order() {
    let evidence: Vec<IngestResult> = Vec::new();
    let g = WorkflowCompiler::compile_nl("Analyze logs, and report findings", &evidence)
        .expect("must compile");
    assert_eq!(g.nodes.len(), 2);
    assert_eq!(g.edges.len(), 0);
    // Both nodes are entry points of the graph.
    assert_eq!(g.entries.len(), 2);
}

#[test]
fn patch_verb_without_artifact_falls_back_to_agent() {
    let evidence: Vec<IngestResult> = Vec::new();
    let g = WorkflowCompiler::compile_nl("fix it", &evidence).expect("must compile");
    assert_eq!(g.nodes.len(), 1);
    match &g.nodes[0].kind {
        NodeKind::AgentStub { capability } => assert_eq!(capability, "fix"),
        _ => panic!("the patch rule needs a target artifact"),
    }
    assert_eq!(g.nodes[0].provenance.confidence, 50);
}

#[test]
fn repeated_calls_give_identical_graphs() {
    let evidence = evidence_one("https://x/readme.md", "bug: off-by-one");
    let instruction = "Fetch https://x/readme.md, summarize it, then patch file.py to fix the bug";
    let g1 = WorkflowCompiler::compile_nl(instruction, &evidence).expect("first call");
    let g2 = WorkflowCompiler::compile_nl(instruction, &evidence).expect("second call");
    assert_eq!(g1.nodes.len(), g2.nodes.len());
    for (a, b) in g1.nodes.iter().zip(g2.nodes.iter()) {
        assert_eq!(a.id, b.id);
        assert_eq!(a.provenance.confidence, b.provenance.confidence);
        assert_eq!(a.provenance.origin_text, b.provenance.origin_text);
    }
    assert_eq!(g1.edges.len(), g2.edges.len());
    for (a, b) in g1.edges.iter().zip(g2.edges.iter()) {
        assert_eq!(a.from, b.from);
        assert_eq!(a.to, b.to);
    }
    assert_eq!(g1.entries, g2.entries);
    // Byte-identical hand-off form.
    assert_eq!(g1.serialized(), g2.serialized());
}

#[test]
fn serialized_form_is_exact() {
    let evidence: Vec<IngestResult> = Vec::new();
    let g = WorkflowCompiler::compile_nl("Fetch https://a.io, summarize it", &evidence)
        .expect("must compile");
    assert_eq!(
        g.serialized(),
        "node n0-tool-fetch kind=tool label=fetch conf=90\n\
         node n1-agent-summarize kind=agent label=summarize conf=50\n\
         edge n0-tool-fetch -> n1-agent-summarize order\n\
         entry n0-tool-fetch\n"
    );
}

#[test]
fn confidence_is_the_rule_weight() {
    let evidence: Vec<IngestResult> = Vec::new();
    let g = WorkflowCompiler::compile_nl(
        "Fetch https://a.io, summarize it, then patch a.c now",
        &evidence,
    )
    .expect("must compile");
    let mut weights: Vec<u32> = g.nodes.iter().map(|n| n.provenance.confidence).collect();
    weights.sort();
    assert_eq!(weights, vec![50, 80, 90]);
}

#[test]
fn evidence_resolution_is_counted_in_provenance() {
    let evidence = evidence_one("https://x/readme.md", "bug: off-by-one");
    let g = WorkflowCompiler::compile_nl("Fetch https://x/readme.md", &evidence)
        .expect("must compile");
    assert_eq!(g.nodes.len(), 1);
    assert_eq!(g.nodes[0].provenance.resolved_refs, 1);
    let no_evidence: Vec<IngestResult> = Vec::new();
    let g2 = WorkflowCompiler::compile_nl("Fetch https://x/readme.md", &no_evidence)
        .expect("must compile");
    assert_eq!(g2.nodes[0].provenance.resolved_refs, 0);
}
