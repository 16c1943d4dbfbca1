//! Rule-based subtask classification.  The rule table is fixed and ordered:
//! explicit tool-invocation syntax outranks a code-patch marker, which
//! outranks the capability-based agent rule.  The first matching rule wins,
//! and its declared weight becomes the node's confidence — never a
//! runtime-variable score.

use vstd::prelude::*;

use crate::errors::{CompileError, ErrV};
use crate::graph::{KindV, NodeKind};
use crate::intent::{ArtV, SubV, Subtask};
use crate::text::{eq_str, is_alpha_char, spec_tokens, tokens_of};

verus! {

/// The declared weight of the tool-invocation rule.
pub const TOOL_RULE_WEIGHT: u32 = 90;

/// The declared weight of the code-patch rule.
pub const PATCH_RULE_WEIGHT: u32 = 80;

/// The declared weight of the catch-all capability rule.
pub const AGENT_RULE_WEIGHT: u32 = 50;

/// A classified, not-yet-placed step.
pub struct NodeSpec {
    pub kind: NodeKind,
    pub confidence: u32,
    pub origin_index: usize,
    pub origin_text: String,
    pub resolved_refs: usize,
}

pub struct NodeSpecV {
    pub kind: KindV,
    pub confidence: int,
    pub origin_index: int,
    pub origin_text: Seq<char>,
    pub resolved_refs: int,
}

impl View for NodeSpec {
    type V = NodeSpecV;

    open spec fn view(&self) -> NodeSpecV {
        NodeSpecV {
            kind: self.kind@,
            confidence: self.confidence as int,
            origin_index: self.origin_index as int,
            origin_text: self.origin_text@,
            resolved_refs: self.resolved_refs as int,
        }
    }
}

impl DeepView for NodeSpec {
    type V = NodeSpecV;

    open spec fn deep_view(&self) -> NodeSpecV {
        self.view()
    }
}

pub struct AgentInferenceEngine;

// ---------------------------------------------------------------------------
// The rule table
// ---------------------------------------------------------------------------

/// Explicit tool-invocation syntax: a leading tool verb.
pub open spec fn is_tool_verb(t: Seq<char>) -> bool {
    ||| t == "fetch"@
    ||| t == "Fetch"@
    ||| t == "run"@
    ||| t == "Run"@
    ||| t == "call"@
    ||| t == "Call"@
    ||| t == "invoke"@
    ||| t == "Invoke"@
}

/// The canonical (lower-case) name of a tool verb.
pub open spec fn canonical_tool(t: Seq<char>) -> Seq<char> {
    if t == "fetch"@ || t == "Fetch"@ {
        "fetch"@
    } else if t == "run"@ || t == "Run"@ {
        "run"@
    } else if t == "call"@ || t == "Call"@ {
        "call"@
    } else {
        "invoke"@
    }
}

/// A code-patch marker: a leading patch verb.
pub open spec fn is_patch_verb(t: Seq<char>) -> bool {
    ||| t == "patch"@
    ||| t == "Patch"@
    ||| t == "fix"@
    ||| t == "Fix"@
    ||| t == "edit"@
    ||| t == "Edit"@
}

/// How many of a subtask's artifact references were resolved.
pub open spec fn count_resolved(arts: Seq<ArtV>, k: int) -> int
    decreases arts.len() - k,
{
    if k < 0 || k >= arts.len() {
        0
    } else {
        (if arts[k].resolved {
            1int
        } else {
            0int
        }) + count_resolved(arts, k + 1)
    }
}

/// Classify one subtask against the rule table.  A subtask that no rule
/// accepts — no tokens at all, or a leading token that is no word — is an
/// `UnsupportedNodeKind` error, never a silent default.
pub open spec fn spec_classify(sub: SubV, idx: int) -> Result<NodeSpecV, ErrV> {
    let toks = spec_tokens(sub.text);
    if toks.len() == 0 {
        Err(ErrV::Unsupported { subtask: sub.text })
    } else if is_tool_verb(toks[0]) {
        Ok(
            NodeSpecV {
                kind: KindV::Tool { tool: canonical_tool(toks[0]), params: sub.text },
                confidence: TOOL_RULE_WEIGHT as int,
                origin_index: idx,
                origin_text: sub.text,
                resolved_refs: count_resolved(sub.artifacts, 0),
            },
        )
    } else if is_patch_verb(toks[0]) && sub.artifacts.len() > 0 {
        Ok(
            NodeSpecV {
                kind: KindV::Patch { target: sub.artifacts[0].name, operation: sub.text },
                confidence: PATCH_RULE_WEIGHT as int,
                origin_index: idx,
                origin_text: sub.text,
                resolved_refs: count_resolved(sub.artifacts, 0),
            },
        )
    } else if toks[0].len() > 0 && is_alpha_char(toks[0][0]) {
        Ok(
            NodeSpecV {
                kind: KindV::Agent { capability: toks[0] },
                confidence: AGENT_RULE_WEIGHT as int,
                origin_index: idx,
                origin_text: sub.text,
                resolved_refs: count_resolved(sub.artifacts, 0),
            },
        )
    } else {
        Err(ErrV::Unsupported { subtask: sub.text })
    }
}

/// Classify every subtask in order; the first failure wins.
pub open spec fn infer_step(subs: Seq<SubV>, k: int, acc: Seq<NodeSpecV>) -> Result<
    Seq<NodeSpecV>,
    ErrV,
>
    decreases subs.len() - k,
{
    if k < 0 || k >= subs.len() {
        Ok(acc)
    } else {
        match spec_classify(subs[k], k) {
            Err(e) => Err(e),
            Ok(n) => infer_step(subs, k + 1, acc.push(n)),
        }
    }
}

/// What `AgentInferenceEngine::infer` returns, as a function of the
/// subtasks alone.
pub open spec fn spec_infer(subs: Seq<SubV>) -> Result<Seq<NodeSpecV>, ErrV> {
    infer_step(subs, 0, Seq::empty())
}

// ---------------------------------------------------------------------------
// Executable classification
// ---------------------------------------------------------------------------

fn count_resolved_exec(arts: &Vec<crate::intent::ArtifactRef>) -> (r: usize)
    ensures
        r as int == count_resolved(arts.deep_view(), 0),
{
    let mut count: usize = 0;
    let mut k: usize = 0;
    while k < arts.len()
        invariant
            arts.deep_view().len() == arts.len(),
            0 <= k <= arts.len(),
            0 <= count <= k,
            count + count_resolved(arts.deep_view(), k as int) == count_resolved(
                arts.deep_view(),
                0,
            ),
        decreases arts.len() - k,
    {
        if arts[k].resolved {
            count += 1;
        }
        k += 1;
    }
    count
}

fn classify(sub: &Subtask, idx: usize) -> (r: Result<NodeSpec, CompileError>)
    ensures
        (match r {
            Ok(n) => spec_classify(sub@, idx as int) == Ok::<NodeSpecV, ErrV>(n@),
            Err(e) => spec_classify(sub@, idx as int) == Err::<NodeSpecV, ErrV>(e@),
        }),
{
    let toks = tokens_of(sub.text.as_str());
    if toks.len() == 0 {
        return Err(CompileError::UnsupportedNodeKind { subtask: sub.text.clone() });
    }
    let t0 = toks[0].as_str();
    let resolved_refs = count_resolved_exec(&sub.artifacts);
    let is_tool = eq_str(t0, "fetch") || eq_str(t0, "Fetch") || eq_str(t0, "run") || eq_str(
        t0,
        "Run",
    ) || eq_str(t0, "call") || eq_str(t0, "Call") || eq_str(t0, "invoke") || eq_str(t0, "Invoke");
    if is_tool {
        let tool = if eq_str(t0, "fetch") || eq_str(t0, "Fetch") {
            String::from_str("fetch")
        } else if eq_str(t0, "run") || eq_str(t0, "Run") {
            String::from_str("run")
        } else if eq_str(t0, "call") || eq_str(t0, "Call") {
            String::from_str("call")
        } else {
            String::from_str("invoke")
        };
        return Ok(
            NodeSpec {
                kind: NodeKind::ToolCall { tool, params: sub.text.clone() },
                confidence: TOOL_RULE_WEIGHT,
                origin_index: idx,
                origin_text: sub.text.clone(),
                resolved_refs,
            },
        );
    }
    let is_patch = eq_str(t0, "patch") || eq_str(t0, "Patch") || eq_str(t0, "fix") || eq_str(
        t0,
        "Fix",
    ) || eq_str(t0, "edit") || eq_str(t0, "Edit");
    if is_patch && sub.artifacts.len() > 0 {
        return Ok(
            NodeSpec {
                kind: NodeKind::PatchNode {
                    target: sub.artifacts[0].name.clone(),
                    operation: sub.text.clone(),
                },
                confidence: PATCH_RULE_WEIGHT,
                origin_index: idx,
                origin_text: sub.text.clone(),
                resolved_refs,
            },
        );
    }
    let t0n: usize = t0.unicode_len();
    if t0n > 0 {
        let c = t0.get_char(0);
        if ('a' <= c && c <= 'z') || ('A' <= c && c <= 'Z') {
            return Ok(
                NodeSpec {
                    kind: NodeKind::AgentStub { capability: toks[0].clone() },
                    confidence: AGENT_RULE_WEIGHT,
                    origin_index: idx,
                    origin_text: sub.text.clone(),
                    resolved_refs,
                },
            );
        }
    }
    Err(CompileError::UnsupportedNodeKind { subtask: sub.text.clone() })
}

impl AgentInferenceEngine {
    /// Classify every subtask, in original order, against the fixed rule
    /// table; fail with `UnsupportedNodeKind` on the first subtask that no
    /// rule accepts.
    pub fn infer(subtasks: &Vec<Subtask>) -> (r: Result<Vec<NodeSpec>, CompileError>)
        ensures
            (match r {
                Ok(ns) => spec_infer(subtasks.deep_view()) == Ok::<Seq<NodeSpecV>, ErrV>(
                    ns.deep_view(),
                ),
                Err(e) => spec_infer(subtasks.deep_view()) == Err::<Seq<NodeSpecV>, ErrV>(e@),
            }),
    {
        let ghost subsv = subtasks.deep_view();
        let mut acc: Vec<NodeSpec> = Vec::new();
        let mut k: usize = 0;
        proof {
            assert(acc.deep_view() =~~= Seq::<NodeSpecV>::empty());
        }
        while k < subtasks.len()
            invariant
                subsv == subtasks.deep_view(),
                subsv.len() == subtasks.len(),
                0 <= k <= subtasks.len(),
                infer_step(subsv, 0, Seq::empty()) == infer_step(subsv, k as int, acc.deep_view()),
            decreases subtasks.len() - k,
        {
            match classify(&subtasks[k], k) {
                Ok(n) => {
                    let ghost old_acc = acc.deep_view();
                    let ghost nv = n@;
                    acc.push(n);
                    proof {
                        assert(acc.deep_view() =~~= old_acc.push(nv));
                    }
                },
                Err(e) => {
                    return Err(e);
                },
            }
            k += 1;
        }
        Ok(acc)
    }
}

} // verus!
