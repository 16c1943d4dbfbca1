//! The compiler's error taxonomy.  Structural validation failures are
//! batched; every failure names the offending goals, ids or edges so the
//! caller can fix the input without further instrumentation.

use vstd::prelude::*;

verus! {

/// One structural defect found by the validator.
#[derive(Debug)]
pub enum ValidationError {
    /// The graph has a directed cycle; `stuck` names every node that could
    /// not be placed in a topological order.
    CyclicGraph { stuck: Vec<String> },
    /// A node id that also names an earlier node.
    DuplicateId { id: String },
    /// An edge endpoint that names no node of the graph.
    DanglingEdge { from: String, to: String },
    /// A node that the declared entry set cannot reach.
    UnreachableNode { id: String },
}

/// Why a compile call returned no graph.
#[derive(Debug)]
pub enum CompileError {
    /// Two or more goal clauses with no connector between them; every
    /// candidate goal is listed and the caller must disambiguate.
    AmbiguousIntent { goals: Vec<String> },
    /// A subtask that no classification rule accepts.
    UnsupportedNodeKind { subtask: String },
    /// The assembled graph failed validation; all non-fatal defects are
    /// returned together, a cycle alone short-circuits the rest.
    InvalidGraph { errors: Vec<ValidationError> },
    /// An upstream ingestion failure handed through unchanged; the compiler
    /// itself never produces or retries one.
    Ingestion { message: String },
    /// The host's wall-clock budget for the whole pipeline ran out; the
    /// deterministic core itself imposes no deadline.
    Timeout,
}

// ---------------------------------------------------------------------------
// Mathematical views
// ---------------------------------------------------------------------------

pub enum ValErrV {
    Cyclic { stuck: Seq<Seq<char>> },
    DuplicateId { id: Seq<char> },
    Dangling { from: Seq<char>, to: Seq<char> },
    Unreachable { id: Seq<char> },
}

pub enum ErrV {
    Ambiguous { goals: Seq<Seq<char>> },
    Unsupported { subtask: Seq<char> },
    Invalid { errors: Seq<ValErrV> },
    Ingestion { message: Seq<char> },
    Timeout,
}

impl View for ValidationError {
    type V = ValErrV;

    open spec fn view(&self) -> ValErrV {
        match self {
            ValidationError::CyclicGraph { stuck } => ValErrV::Cyclic {
                stuck: stuck.deep_view(),
            },
            ValidationError::DuplicateId { id } => ValErrV::DuplicateId { id: id@ },
            ValidationError::DanglingEdge { from, to } => ValErrV::Dangling {
                from: from@,
                to: to@,
            },
            ValidationError::UnreachableNode { id } => ValErrV::Unreachable { id: id@ },
        }
    }
}

impl DeepView for ValidationError {
    type V = ValErrV;

    open spec fn deep_view(&self) -> ValErrV {
        self.view()
    }
}

impl View for CompileError {
    type V = ErrV;

    open spec fn view(&self) -> ErrV {
        match self {
            CompileError::AmbiguousIntent { goals } => ErrV::Ambiguous {
                goals: goals.deep_view(),
            },
            CompileError::UnsupportedNodeKind { subtask } => ErrV::Unsupported {
                subtask: subtask@,
            },
            CompileError::InvalidGraph { errors } => ErrV::Invalid {
                errors: errors.deep_view(),
            },
            CompileError::Ingestion { message } => ErrV::Ingestion { message: message@ },
            CompileError::Timeout => ErrV::Timeout,
        }
    }
}

impl DeepView for CompileError {
    type V = ErrV;

    open spec fn deep_view(&self) -> ErrV {
        self.view()
    }
}

} // verus!
