use workflow_compiler::errors::ValidationError;
use workflow_compiler::graph::{
    EdgeKind, NodeKind, Provenance, WorkflowEdge, WorkflowGraph, WorkflowNode,
};
use workflow_compiler::validate::Validator;

fn agent_node(id: &str, capability: &str) -> WorkflowNode {
    WorkflowNode {
        id: String::from(id),
        kind: NodeKind::AgentStub { capability: String::from(capability) },
        provenance: Provenance {
            origin_index: 0,
            origin_text: String::from(capability),
            confidence: 50,
            resolved_refs: 0,
        },
    }
}

fn edge(from: &str, to: &str) -> WorkflowEdge {
    WorkflowEdge { from: String::from(from), to: String::from(to), kind: EdgeKind::ExplicitOrder }
}

#[test]
fn a_valid_graph_passes() {
    let g = WorkflowGraph {
        nodes: vec![agent_node("a", "one"), agent_node("b", "two")],
        edges: vec![edge("a", "b")],
        entries: vec![String::from("a")],
        diagnostics: Vec::new(),
    };
    assert!(Validator::validate(&g).is_ok());
}

#[test]
fn a_cycle_is_fatal_and_reported_alone() {
    let g = WorkflowGraph {
        nodes: vec![agent_node("a", "one"), agent_node("b", "two")],
        edges: vec![edge("a", "b"), edge("b", "a"), edge("a", "ghost")],
        entries: Vec::new(),
        diagnostics: Vec::new(),
    };
    let errs = Validator::validate(&g).expect_err("cyclic");
    assert_eq!(errs.len(), 1);
    match &errs[0] {
        ValidationError::CyclicGraph { stuck } => {
            assert_eq!(stuck, &vec![String::from("a"), String::from("b")]);
        }
        _ => panic!("the cycle check short-circuits the others"),
    }
}

#[test]
fn non_cycle_defects_are_batched() {
    let g = WorkflowGraph {
        nodes: vec![agent_node("a", "one"), agent_node("a", "dup"), agent_node("c", "three")],
        edges: vec![edge("a", "ghost")],
        entries: vec![String::from("a")],
        diagnostics: Vec::new(),
    };
    let errs = Validator::validate(&g).expect_err("invalid");
    // One duplicate id, one dangling edge, and one unreachable node ("c"),
    // all returned together.
    assert_eq!(errs.len(), 3);
    assert!(matches!(&errs[0], ValidationError::DuplicateId { id } if id == "a"));
    assert!(matches!(&errs[1], ValidationError::DanglingEdge { to, .. } if to == "ghost"));
    assert!(matches!(&errs[2], ValidationError::UnreachableNode { id } if id == "c"));
}

#[test]
fn a_node_outside_the_entry_set_with_no_path_is_unreachable() {
    let g = WorkflowGraph {
        nodes: vec![agent_node("a", "one"), agent_node("b", "two")],
        edges: Vec::new(),
        entries: vec![String::from("a")],
        diagnostics: Vec::new(),
    };
    let errs = Validator::validate(&g).expect_err("invalid");
    assert_eq!(errs.len(), 1);
    assert!(matches!(&errs[0], ValidationError::UnreachableNode { id } if id == "b"));
}
