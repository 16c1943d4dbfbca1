//! Intent extraction: split the instruction into goal clauses on explicit
//! connector cues, reject ambiguous instructions, extract ordering hints,
//! and resolve artifact references against the evidence.

use vstd::prelude::*;

use crate::errors::{CompileError, ErrV};
use crate::ingest::{kept_step, IngestResult, IngestV};
use crate::text::{
    eq_str, find_first, first_match_from, match_at, spec_contains, spec_split, spec_starts_with,
    spec_tokens, spec_trim, split_str, starts_with, tokens_of, trim_str, SplitMode,
};

verus! {

/// An artifact identifier (file path or URL) referenced by a subtask, with
/// the outcome of resolving it against the evidence chunks.
pub struct ArtifactRef {
    pub name: String,
    pub resolved: bool,
}

/// One extracted goal clause, with its referenced artifacts.
pub struct Subtask {
    pub text: String,
    pub artifacts: Vec<ArtifactRef>,
}

/// An explicit ordering hint: the subtask at `from_index` must come before
/// the one at `to_index`.
pub struct OrderHint {
    pub from_index: usize,
    pub to_index: usize,
}

/// The structured form of one instruction.
pub struct StructuredIntent {
    pub subtasks: Vec<Subtask>,
    pub hints: Vec<OrderHint>,
}

pub struct IntentParser;

pub struct ArtV {
    pub name: Seq<char>,
    pub resolved: bool,
}

pub struct SubV {
    pub text: Seq<char>,
    pub artifacts: Seq<ArtV>,
}

pub struct HintV {
    pub from_index: int,
    pub to_index: int,
}

pub struct IntentV {
    pub subtasks: Seq<SubV>,
    pub hints: Seq<HintV>,
}

impl View for ArtifactRef {
    type V = ArtV;

    open spec fn view(&self) -> ArtV {
        ArtV { name: self.name@, resolved: self.resolved }
    }
}

impl DeepView for ArtifactRef {
    type V = ArtV;

    open spec fn deep_view(&self) -> ArtV {
        self.view()
    }
}

impl View for Subtask {
    type V = SubV;

    open spec fn view(&self) -> SubV {
        SubV { text: self.text@, artifacts: self.artifacts.deep_view() }
    }
}

impl DeepView for Subtask {
    type V = SubV;

    open spec fn deep_view(&self) -> SubV {
        self.view()
    }
}

impl View for OrderHint {
    type V = HintV;

    open spec fn view(&self) -> HintV {
        HintV { from_index: self.from_index as int, to_index: self.to_index as int }
    }
}

impl DeepView for OrderHint {
    type V = HintV;

    open spec fn deep_view(&self) -> HintV {
        self.view()
    }
}

impl View for StructuredIntent {
    type V = IntentV;

    open spec fn view(&self) -> IntentV {
        IntentV { subtasks: self.subtasks.deep_view(), hints: self.hints.deep_view() }
    }
}

impl DeepView for StructuredIntent {
    type V = IntentV;

    open spec fn deep_view(&self) -> IntentV {
        self.view()
    }
}

// ---------------------------------------------------------------------------
// Goal clauses
// ---------------------------------------------------------------------------

/// The candidate goal clauses: the instruction's sentences, trimmed, with
/// empty ones dropped.  Two or more of them mean the instruction gave no
/// connector between its imperatives and is ambiguous.
pub open spec fn spec_goals(ins: Seq<char>) -> Seq<Seq<char>> {
    kept_step(spec_split(ins, SplitMode::Sentence), 0, Seq::empty())
}

/// Strip a leading sequencing ("then ") or conjunction ("and ") connector
/// from a trimmed clause.  The flag says the connector was a conjunction,
/// which carries no ordering.
pub open spec fn spec_clean(c: Seq<char>) -> (Seq<char>, bool) {
    let t = spec_trim(c);
    if spec_starts_with(t, "then "@) {
        (spec_trim(t.subrange("then "@.len() as int, t.len() as int)), false)
    } else if spec_starts_with(t, "and "@) {
        (spec_trim(t.subrange("and "@.len() as int, t.len() as int)), true)
    } else {
        (t, false)
    }
}

/// Clean every comma-separated clause and drop the empty ones.
pub open spec fn clean_step(parts: Seq<Seq<char>>, k: int, acc: Seq<(Seq<char>, bool)>) -> Seq<
    (Seq<char>, bool),
>
    decreases parts.len() - k,
{
    if k < 0 || k >= parts.len() {
        acc
    } else {
        let p = spec_clean(parts[k]);
        clean_step(parts, k + 1, if p.0.len() > 0 { acc.push(p) } else { acc })
    }
}

/// A clause of the form `X after Y` states an ordering hint, not a subtask.
pub open spec fn is_hint_clause(t: Seq<char>) -> bool {
    first_match_from(t, " after "@, 0) < t.len()
}

/// The clauses that are subtasks (everything but the hint clauses).
pub open spec fn sub_clauses_step(
    cl: Seq<(Seq<char>, bool)>,
    k: int,
    acc: Seq<(Seq<char>, bool)>,
) -> Seq<(Seq<char>, bool)>
    decreases cl.len() - k,
{
    if k < 0 || k >= cl.len() {
        acc
    } else {
        sub_clauses_step(cl, k + 1, if is_hint_clause(cl[k].0) { acc } else { acc.push(cl[k]) })
    }
}

// ---------------------------------------------------------------------------
// Artifacts
// ---------------------------------------------------------------------------

/// A token shaped like an artifact reference: it holds a dot (a file path)
/// or a colon (a URL scheme).
pub open spec fn artifact_shape(t: Seq<char>) -> bool {
    exists|i: int| 0 <= i < t.len() && (t[i] == '.' || t[i] == ':')
}

/// An artifact resolves when some evidence source is named by it or some
/// evidence chunk contains it.  Only exact and substring matches count:
/// fuzzy matching would break determinism and auditability.
pub open spec fn art_resolved(t: Seq<char>, ev: Seq<IngestV>) -> bool {
    exists|i: int|
        0 <= i < ev.len() && (ev[i].source == t || exists|j: int|
            0 <= j < ev[i].chunks.len() && spec_contains(ev[i].chunks[j], t))
}

pub open spec fn arts_step(toks: Seq<Seq<char>>, k: int, ev: Seq<IngestV>, acc: Seq<ArtV>) -> Seq<
    ArtV,
>
    decreases toks.len() - k,
{
    if k < 0 || k >= toks.len() {
        acc
    } else {
        arts_step(
            toks,
            k + 1,
            ev,
            if artifact_shape(toks[k]) {
                acc.push(ArtV { name: toks[k], resolved: art_resolved(toks[k], ev) })
            } else {
                acc
            },
        )
    }
}

/// The artifact references of one subtask, in token order.
pub open spec fn spec_artifacts(text: Seq<char>, ev: Seq<IngestV>) -> Seq<ArtV> {
    arts_step(spec_tokens(text), 0, ev, Seq::empty())
}

/// Build the subtasks from the subtask clauses.
pub open spec fn subs_step(
    scl: Seq<(Seq<char>, bool)>,
    k: int,
    ev: Seq<IngestV>,
    acc: Seq<SubV>,
) -> Seq<SubV>
    decreases scl.len() - k,
{
    if k < 0 || k >= scl.len() {
        acc
    } else {
        subs_step(
            scl,
            k + 1,
            ev,
            acc.push(SubV { text: scl[k].0, artifacts: spec_artifacts(scl[k].0, ev) }),
        )
    }
}

// ---------------------------------------------------------------------------
// Ordering hints
// ---------------------------------------------------------------------------

/// Sequencing connectors between consecutive subtask clauses (a comma or
/// "then") yield an ordering hint; "and" is a conjunction and yields none.
pub open spec fn seq_hints_step(scl: Seq<(Seq<char>, bool)>, k: int, acc: Seq<HintV>) -> Seq<HintV>
    decreases scl.len() - k,
{
    if k < 1 || k >= scl.len() {
        acc
    } else {
        seq_hints_step(
            scl,
            k + 1,
            if scl[k].1 {
                acc
            } else {
                acc.push(HintV { from_index: k - 1, to_index: k })
            },
        )
    }
}

/// The first subtask clause whose text is exactly `t`, or `scl.len()`.
pub open spec fn find_text(scl: Seq<(Seq<char>, bool)>, t: Seq<char>, i: int) -> int
    decreases scl.len() - i,
{
    if i < 0 || i >= scl.len() {
        scl.len() as int
    } else if scl[i].0 == t {
        i
    } else {
        find_text(scl, t, i + 1)
    }
}

/// An `X after Y` clause becomes a hint from Y's subtask to X's subtask.
/// A side that names no subtask leaves the clause without effect.
pub open spec fn after_hints_step(
    cl: Seq<(Seq<char>, bool)>,
    scl: Seq<(Seq<char>, bool)>,
    k: int,
    acc: Seq<HintV>,
) -> Seq<HintV>
    decreases cl.len() - k,
{
    if k < 0 || k >= cl.len() {
        acc
    } else {
        let t = cl[k].0;
        if is_hint_clause(t) {
            let p = first_match_from(t, " after "@, 0);
            let x = spec_trim(t.subrange(0, p));
            let y = spec_trim(t.subrange(p + " after "@.len(), t.len() as int));
            let ix = find_text(scl, x, 0);
            let iy = find_text(scl, y, 0);
            after_hints_step(
                cl,
                scl,
                k + 1,
                if ix < scl.len() && iy < scl.len() {
                    acc.push(HintV { from_index: iy, to_index: ix })
                } else {
                    acc
                },
            )
        } else {
            after_hints_step(cl, scl, k + 1, acc)
        }
    }
}

// ---------------------------------------------------------------------------
// The parser
// ---------------------------------------------------------------------------

/// What `IntentParser::parse` returns, as a function of its inputs alone.
pub open spec fn spec_parse(ins: Seq<char>, ev: Seq<IngestV>) -> Result<IntentV, ErrV> {
    let goals = spec_goals(ins);
    if goals.len() >= 2 {
        Err(ErrV::Ambiguous { goals })
    } else if goals.len() == 0 {
        Ok(IntentV { subtasks: Seq::empty(), hints: Seq::empty() })
    } else {
        let cl = clean_step(spec_split(goals[0], SplitMode::Comma), 0, Seq::empty());
        let scl = sub_clauses_step(cl, 0, Seq::empty());
        Ok(
            IntentV {
                subtasks: subs_step(scl, 0, ev, Seq::empty()),
                hints: seq_hints_step(scl, 1, Seq::empty()) + after_hints_step(
                    cl,
                    scl,
                    0,
                    Seq::empty(),
                ),
            },
        )
    }
}

proof fn lemma_first_match_props(h: Seq<char>, n: Seq<char>, i: int)
    requires
        0 <= i <= h.len(),
    ensures
        i <= first_match_from(h, n, i) <= h.len(),
        first_match_from(h, n, i) < h.len() ==> match_at(h, n, first_match_from(h, n, i)),
    decreases h.len() - i,
{
    if i < h.len() && !match_at(h, n, i) {
        lemma_first_match_props(h, n, i + 1);
    }
}

fn clean_clause(c: &str) -> (r: (String, bool))
    ensures
        (r.0@, r.1) == spec_clean(c@),
{
    let t = trim_str(c);
    let tn: usize = t.as_str().unicode_len();
    if starts_with(t.as_str(), "then ") {
        proof {
            reveal_strlit("then ");
        }
        let rest = t.as_str().substring_char(5, tn);
        (trim_str(rest), false)
    } else if starts_with(t.as_str(), "and ") {
        proof {
            reveal_strlit("and ");
        }
        let rest = t.as_str().substring_char(4, tn);
        (trim_str(rest), true)
    } else {
        (t, false)
    }
}

fn art_resolved_exec(t: &str, ev: &Vec<IngestResult>) -> (r: bool)
    ensures
        r == art_resolved(t@, ev.deep_view()),
{
    let mut i: usize = 0;
    let ghost evv = ev.deep_view();
    while i < ev.len()
        invariant
            evv == ev.deep_view(),
            evv.len() == ev.len(),
            0 <= i <= ev.len(),
            forall|a: int|
                0 <= a < i ==> !(evv[a].source == t@ || exists|j: int|
                    0 <= j < evv[a].chunks.len() && spec_contains(evv[a].chunks[j], t@)),
        decreases ev.len() - i,
    {
        if eq_str(ev[i].source.as_str(), t) {
            proof {
                assert(evv[i as int].source == t@);
            }
            return true;
        }
        let mut j: usize = 0;
        while j < ev[i].chunks.len()
            invariant
                evv == ev.deep_view(),
                evv.len() == ev.len(),
                0 <= i < ev.len(),
                evv[i as int].chunks.len() == ev[i as int].chunks.len(),
                0 <= j <= ev[i as int].chunks.len(),
                forall|b: int| 0 <= b < j ==> !spec_contains(evv[i as int].chunks[b], t@),
            decreases ev[i as int].chunks.len() - j,
        {
            if crate::text::contains_str(ev[i].chunks[j].as_str(), t) {
                proof {
                    assert(spec_contains(evv[i as int].chunks[j as int], t@));
                }
                return true;
            }
            j += 1;
        }
        i += 1;
    }
    false
}

fn artifacts_of(text: &str, ev: &Vec<IngestResult>) -> (r: Vec<ArtifactRef>)
    ensures
        r.deep_view() == spec_artifacts(text@, ev.deep_view()),
{
    let toks = tokens_of(text);
    let mut acc: Vec<ArtifactRef> = Vec::new();
    let mut k: usize = 0;
    proof {
        assert(acc.deep_view() =~~= Seq::<ArtV>::empty());
    }
    while k < toks.len()
        invariant
            0 <= k <= toks.len(),
            toks.deep_view().len() == toks.len(),
            arts_step(toks.deep_view(), 0, ev.deep_view(), Seq::empty()) == arts_step(
                toks.deep_view(),
                k as int,
                ev.deep_view(),
                acc.deep_view(),
            ),
        decreases toks.len() - k,
    {
        let tk = toks[k].as_str();
        let tkn: usize = tk.unicode_len();
        let mut shaped = false;
        let mut c: usize = 0;
        while c < tkn
            invariant
                tkn == toks.deep_view()[k as int].len(),
                k < toks.len(),
                toks.deep_view().len() == toks.len(),
                tk@ == toks.deep_view()[k as int],
                0 <= c <= tkn,
                shaped <==> exists|i: int| 0 <= i < c && (tk@[i] == '.' || tk@[i] == ':'),
            decreases tkn - c,
        {
            let ch = tk.get_char(c);
            if ch == '.' || ch == ':' {
                shaped = true;
            }
            c += 1;
        }
        if shaped {
            let resolved = art_resolved_exec(tk, ev);
            let ghost old_acc = acc.deep_view();
            acc.push(ArtifactRef { name: String::from_str(tk), resolved });
            proof {
                assert(acc.deep_view() =~~= old_acc.push(
                    ArtV {
                        name: toks.deep_view()[k as int],
                        resolved: art_resolved(toks.deep_view()[k as int], ev.deep_view()),
                    },
                ));
            }
        } else {
            proof {
                assert(!artifact_shape(toks.deep_view()[k as int]));
            }
        }
        k += 1;
    }
    acc
}

impl IntentParser {
    /// Extract the structured intent of one instruction, or fail with
    /// `AmbiguousIntent` listing every candidate goal when two or more goal
    /// clauses appear with no connector between them.
    pub fn parse(instruction: &str, evidence: &Vec<IngestResult>) -> (r: Result<
        StructuredIntent,
        CompileError,
    >)
        ensures
            (match r {
                Ok(it) => spec_parse(instruction@, evidence.deep_view()) == Ok::<IntentV, ErrV>(
                    it@,
                ),
                Err(e) => spec_parse(instruction@, evidence.deep_view()) == Err::<IntentV, ErrV>(
                    e@,
                ),
            }),
    {
        let ghost evv = evidence.deep_view();
        let sentences = split_str(instruction, SplitMode::Sentence);
        let goals = crate::ingest::kept_lines_exec(&sentences);
        if goals.len() >= 2 {
            return Err(CompileError::AmbiguousIntent { goals });
        }
        if goals.len() == 0 {
            let it = StructuredIntent { subtasks: Vec::new(), hints: Vec::new() };
            proof {
                assert(it@.subtasks =~= Seq::<SubV>::empty());
                assert(it@.hints =~= Seq::<HintV>::empty());
            }
            return Ok(it);
        }
        let goal = goals[0].as_str();
        let parts = split_str(goal, SplitMode::Comma);
        let ghost partsv = parts.deep_view();

        // Clean the clauses and drop the empty ones.
        let mut cl: Vec<(String, bool)> = Vec::new();
        let mut k: usize = 0;
        proof {
            assert(cl.deep_view() =~~= Seq::<(Seq<char>, bool)>::empty());
        }
        while k < parts.len()
            invariant
                partsv == parts.deep_view(),
                partsv.len() == parts.len(),
                0 <= k <= parts.len(),
                clean_step(partsv, 0, Seq::empty()) == clean_step(
                    partsv,
                    k as int,
                    cl.deep_view(),
                ),
            decreases parts.len() - k,
        {
            let p = clean_clause(parts[k].as_str());
            let pn: usize = p.0.as_str().unicode_len();
            if pn > 0 {
                let ghost old_cl = cl.deep_view();
                cl.push(p);
                proof {
                    assert(cl.deep_view() =~~= old_cl.push(spec_clean(partsv[k as int])));
                }
            }
            k += 1;
        }
        let ghost clv = cl.deep_view();

        // Separate subtask clauses from hint clauses.
        let mut scl: Vec<(String, bool)> = Vec::new();
        let mut k2: usize = 0;
        proof {
            assert(scl.deep_view() =~~= Seq::<(Seq<char>, bool)>::empty());
        }
        while k2 < cl.len()
            invariant
                clv == cl.deep_view(),
                clv.len() == cl.len(),
                0 <= k2 <= cl.len(),
                sub_clauses_step(clv, 0, Seq::empty()) == sub_clauses_step(
                    clv,
                    k2 as int,
                    scl.deep_view(),
                ),
            decreases cl.len() - k2,
        {
            let t = cl[k2].0.as_str();
            let p = find_first(t, " after ");
            let tn: usize = t.unicode_len();
            if p < tn {
                proof {
                    assert(is_hint_clause(clv[k2 as int].0));
                }
            } else {
                let ghost old_scl = scl.deep_view();
                let copied = (cl[k2].0.clone(), cl[k2].1);
                scl.push(copied);
                proof {
                    assert(scl.deep_view() =~~= old_scl.push(clv[k2 as int]));
                }
            }
            k2 += 1;
        }
        let ghost sclv = scl.deep_view();

        // Build the subtasks with their artifacts.
        let mut subtasks: Vec<Subtask> = Vec::new();
        let mut k3: usize = 0;
        proof {
            assert(subtasks.deep_view() =~~= Seq::<SubV>::empty());
        }
        while k3 < scl.len()
            invariant
                evv == evidence.deep_view(),
                sclv == scl.deep_view(),
                sclv.len() == scl.len(),
                0 <= k3 <= scl.len(),
                subs_step(sclv, 0, evv, Seq::empty()) == subs_step(
                    sclv,
                    k3 as int,
                    evv,
                    subtasks.deep_view(),
                ),
            decreases scl.len() - k3,
        {
            let arts = artifacts_of(scl[k3].0.as_str(), evidence);
            let ghost old_subs = subtasks.deep_view();
            subtasks.push(Subtask { text: scl[k3].0.clone(), artifacts: arts });
            proof {
                assert(subtasks.deep_view() =~~= old_subs.push(
                    SubV {
                        text: sclv[k3 as int].0,
                        artifacts: spec_artifacts(sclv[k3 as int].0, evv),
                    },
                ));
            }
            k3 += 1;
        }

        // Sequencing hints between consecutive subtask clauses.
        let mut hints: Vec<OrderHint> = Vec::new();
        let mut k4: usize = 1;
        proof {
            assert(hints.deep_view() =~~= Seq::<HintV>::empty());
        }
        while k4 < scl.len()
            invariant
                sclv == scl.deep_view(),
                sclv.len() == scl.len(),
                1 <= k4 <= scl.len() || (scl.len() == 0 && k4 == 1),
                seq_hints_step(sclv, 1, Seq::empty()) == seq_hints_step(
                    sclv,
                    k4 as int,
                    hints.deep_view(),
                ),
            decreases scl.len() - k4,
        {
            if !scl[k4].1 {
                let ghost old_hints = hints.deep_view();
                hints.push(OrderHint { from_index: k4 - 1, to_index: k4 });
                proof {
                    assert(hints.deep_view() =~~= old_hints.push(
                        HintV { from_index: k4 as int - 1, to_index: k4 as int },
                    ));
                }
            }
            k4 += 1;
        }
        let ghost seq_hints = hints.deep_view();
        proof {
            assert(seq_hints == seq_hints_step(sclv, 1, Seq::empty()));
        }

        // Hints from `X after Y` clauses.
        let mut k5: usize = 0;
        let mut ah: Vec<OrderHint> = Vec::new();
        proof {
            assert(ah.deep_view() =~~= Seq::<HintV>::empty());
        }
        while k5 < cl.len()
            invariant
                clv == cl.deep_view(),
                clv.len() == cl.len(),
                sclv == scl.deep_view(),
                sclv.len() == scl.len(),
                0 <= k5 <= cl.len(),
                after_hints_step(clv, sclv, 0, Seq::empty()) == after_hints_step(
                    clv,
                    sclv,
                    k5 as int,
                    ah.deep_view(),
                ),
            decreases cl.len() - k5,
        {
            let t = cl[k5].0.as_str();
            let tn: usize = t.unicode_len();
            let p = find_first(t, " after ");
            if p < tn {
                proof {
                    reveal_strlit(" after ");
                    lemma_first_match_props(t@, " after "@, 0);
                }
                let x = trim_str(t.substring_char(0, p));
                let y = trim_str(t.substring_char(p + 7, tn));
                let ix = find_text_exec(&scl, x.as_str());
                let iy = find_text_exec(&scl, y.as_str());
                if ix < scl.len() && iy < scl.len() {
                    let ghost old_ah = ah.deep_view();
                    ah.push(OrderHint { from_index: iy, to_index: ix });
                    proof {
                        assert(ah.deep_view() =~~= old_ah.push(
                            HintV { from_index: iy as int, to_index: ix as int },
                        ));
                    }
                }
            } else {
                proof {
                    assert(!is_hint_clause(clv[k5 as int].0));
                }
            }
            k5 += 1;
        }

        // Append the after-hints to the sequencing hints.
        let mut k6: usize = 0;
        while k6 < ah.len()
            invariant
                0 <= k6 <= ah.len(),
                ah.deep_view().len() == ah.len(),
                hints.deep_view() == seq_hints + ah.deep_view().subrange(0, k6 as int),
            decreases ah.len() - k6,
        {
            let ghost old_hints = hints.deep_view();
            hints.push(OrderHint { from_index: ah[k6].from_index, to_index: ah[k6].to_index });
            proof {
                assert(hints.deep_view() =~~= old_hints.push(ah.deep_view()[k6 as int]));
                assert(seq_hints + ah.deep_view().subrange(0, k6 as int + 1) =~= old_hints.push(
                    ah.deep_view()[k6 as int],
                ));
            }
            k6 += 1;
        }
        proof {
            assert(ah.deep_view().subrange(0, ah.deep_view().len() as int) =~= ah.deep_view());
        }
        Ok(StructuredIntent { subtasks, hints })
    }
}

/// The first subtask clause whose text equals `t`, pinned to `find_text`.
fn find_text_exec(scl: &Vec<(String, bool)>, t: &str) -> (r: usize)
    ensures
        r as int == find_text(scl.deep_view(), t@, 0),
        r <= scl.len(),
        scl.deep_view().len() == scl.len(),
{
    let mut i: usize = 0;
    while i < scl.len()
        invariant
            scl.deep_view().len() == scl.len(),
            0 <= i <= scl.len(),
            find_text(scl.deep_view(), t@, 0) == find_text(scl.deep_view(), t@, i as int),
        decreases scl.len() - i,
    {
        if eq_str(scl[i].0.as_str(), t) {
            proof {
                assert(scl.deep_view()[i as int].0 == t@);
            }
            return i;
        }
        i += 1;
    }
    scl.len()
}

} // verus!
