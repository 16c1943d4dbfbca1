//! The deterministic text side of context ingestion: markup cleanup,
//! printable-text extraction, listing normalization, and chunking with
//! deduplication.  Retrieval itself (network, files) is the host's concern;
//! these functions take already-materialized text and are pure.

use vstd::prelude::*;

use crate::text::{spec_split, spec_trim, split_str, trim_str, SplitMode};

verus! {

/// One ingested source: its identifier and its ordered, deduplicated
/// evidence chunks.  A chunk's text, being deduplicated, serves as its own
/// stable content-derived identifier.
pub struct IngestResult {
    pub source: String,
    pub chunks: Vec<String>,
}

pub struct IngestV {
    pub source: Seq<char>,
    pub chunks: Seq<Seq<char>>,
}

impl View for IngestResult {
    type V = IngestV;

    open spec fn view(&self) -> IngestV {
        IngestV { source: self.source@, chunks: self.chunks.deep_view() }
    }
}

impl DeepView for IngestResult {
    type V = IngestV;

    open spec fn deep_view(&self) -> IngestV {
        self.view()
    }
}

pub struct UrlAdapter;

pub struct PdfAdapter;

pub struct RepoAdapter;

pub struct ContextIngest;

// ---------------------------------------------------------------------------
// Markup cleanup
// ---------------------------------------------------------------------------

/// One step of tag stripping: characters between `<` and `>` are dropped,
/// everything else is kept.
pub open spec fn strip_step(s: Seq<char>, i: int, in_tag: bool, acc: Seq<char>) -> Seq<char>
    decreases s.len() - i,
{
    if i < 0 || i >= s.len() {
        acc
    } else if in_tag {
        strip_step(s, i + 1, s[i] != '>', acc)
    } else if s[i] == '<' {
        strip_step(s, i + 1, true, acc)
    } else {
        strip_step(s, i + 1, false, acc.push(s[i]))
    }
}

/// `s` with every `<...>` span removed.
pub open spec fn spec_strip_tags(s: Seq<char>) -> Seq<char> {
    strip_step(s, 0, false, Seq::empty())
}

// ---------------------------------------------------------------------------
// Printable-text extraction
// ---------------------------------------------------------------------------

/// The characters that survive extraction: printable ASCII and newlines.
pub open spec fn keep_printable(c: char) -> bool {
    (' ' <= c && c <= '~') || c == '\n'
}

pub open spec fn printable_step(s: Seq<char>, i: int, acc: Seq<char>) -> Seq<char>
    decreases s.len() - i,
{
    if i < 0 || i >= s.len() {
        acc
    } else if keep_printable(s[i]) {
        printable_step(s, i + 1, acc.push(s[i]))
    } else {
        printable_step(s, i + 1, acc)
    }
}

pub open spec fn spec_printable(s: Seq<char>) -> Seq<char> {
    printable_step(s, 0, Seq::empty())
}

// ---------------------------------------------------------------------------
// Line normalization and chunking
// ---------------------------------------------------------------------------

/// Trim every line and keep the nonempty ones.
pub open spec fn kept_step(parts: Seq<Seq<char>>, k: int, acc: Seq<Seq<char>>) -> Seq<Seq<char>>
    decreases parts.len() - k,
{
    if k < 0 || k >= parts.len() {
        acc
    } else {
        let t = spec_trim(parts[k]);
        kept_step(parts, k + 1, if t.len() > 0 { acc.push(t) } else { acc })
    }
}

pub open spec fn spec_kept_lines(s: Seq<char>) -> Seq<Seq<char>> {
    kept_step(spec_split(s, SplitMode::Line), 0, Seq::empty())
}

/// Join pieces with single newlines.
pub open spec fn join_step(parts: Seq<Seq<char>>, k: int, acc: Seq<char>) -> Seq<char>
    decreases parts.len() - k,
{
    if k < 0 || k >= parts.len() {
        acc
    } else if k == 0 {
        join_step(parts, 1, parts[0])
    } else {
        join_step(parts, k + 1, acc + seq!['\n'] + parts[k])
    }
}

pub open spec fn spec_join_lines(parts: Seq<Seq<char>>) -> Seq<char> {
    join_step(parts, 0, Seq::empty())
}

/// Drop every piece that already appeared earlier, keeping first occurrences
/// in order.
pub open spec fn dedup_step(parts: Seq<Seq<char>>, k: int, acc: Seq<Seq<char>>) -> Seq<Seq<char>>
    decreases parts.len() - k,
{
    if k < 0 || k >= parts.len() {
        acc
    } else {
        dedup_step(parts, k + 1, if acc.contains(parts[k]) { acc } else { acc.push(parts[k]) })
    }
}

pub open spec fn spec_dedup(parts: Seq<Seq<char>>) -> Seq<Seq<char>> {
    dedup_step(parts, 0, Seq::empty())
}

// ---------------------------------------------------------------------------
// Executable adapters
// ---------------------------------------------------------------------------

impl UrlAdapter {
    /// Sanitize already-retrieved page text: strip markup tags.
    pub fn fetch(raw: &str) -> (r: String)
        ensures
            r@ == spec_strip_tags(raw@),
    {
        let n: usize = raw.unicode_len();
        let mut acc = String::new();
        let mut in_tag = false;
        let mut i: usize = 0;
        while i < n
            invariant
                n == raw@.len(),
                0 <= i <= n,
                strip_step(raw@, 0, false, Seq::empty()) == strip_step(
                    raw@,
                    i as int,
                    in_tag,
                    acc@,
                ),
            decreases n - i,
        {
            let c = raw.get_char(i);
            if in_tag {
                in_tag = c != '>';
            } else if c == '<' {
                in_tag = true;
            } else {
                let ghost old_acc = acc@;
                let piece = raw.substring_char(i, i + 1);
                acc.append(piece);
                proof {
                    assert(raw@.subrange(i as int, i as int + 1) =~= seq![raw@[i as int]]);
                    assert(acc@ =~= old_acc.push(raw@[i as int]));
                }
            }
            i += 1;
        }
        acc
    }
}

impl PdfAdapter {
    /// Extract the printable text from already-decoded document content.
    pub fn extract(raw: &str) -> (r: String)
        ensures
            r@ == spec_printable(raw@),
    {
        let n: usize = raw.unicode_len();
        let mut acc = String::new();
        let mut i: usize = 0;
        while i < n
            invariant
                n == raw@.len(),
                0 <= i <= n,
                printable_step(raw@, 0, Seq::empty()) == printable_step(raw@, i as int, acc@),
            decreases n - i,
        {
            let c = raw.get_char(i);
            if (' ' <= c && c <= '~') || c == '\n' {
                let ghost old_acc = acc@;
                let piece = raw.substring_char(i, i + 1);
                acc.append(piece);
                proof {
                    assert(raw@.subrange(i as int, i as int + 1) =~= seq![raw@[i as int]]);
                    assert(acc@ =~= old_acc.push(raw@[i as int]));
                }
            }
            i += 1;
        }
        acc
    }
}

/// Trim every line of `parts` and keep the nonempty ones, pinned to
/// `kept_step`.
pub(crate) fn kept_lines_exec(parts: &Vec<String>) -> (r: Vec<String>)
    ensures
        r.deep_view() == kept_step(parts.deep_view(), 0, Seq::empty()),
{
    let mut acc: Vec<String> = Vec::new();
    let mut k: usize = 0;
    proof {
        assert(acc.deep_view() =~~= Seq::<Seq<char>>::empty());
    }
    while k < parts.len()
        invariant
            0 <= k <= parts.len(),
            parts.deep_view().len() == parts.len(),
            kept_step(parts.deep_view(), 0, Seq::empty()) == kept_step(
                parts.deep_view(),
                k as int,
                acc.deep_view(),
            ),
        decreases parts.len() - k,
    {
        let t = trim_str(parts[k].as_str());
        let tn: usize = t.as_str().unicode_len();
        if tn > 0 {
            let ghost old_acc = acc.deep_view();
            acc.push(t);
            proof {
                assert(acc.deep_view() =~~= old_acc.push(spec_trim(parts.deep_view()[k as int])));
            }
        }
        k += 1;
    }
    acc
}

impl RepoAdapter {
    /// Normalize a repository file listing: trim every line, drop empty
    /// ones, and join the rest with single newlines.
    pub fn ingest_repo(listing: &str) -> (r: String)
        ensures
            r@ == spec_join_lines(spec_kept_lines(listing@)),
    {
        let lines = split_str(listing, SplitMode::Line);
        let kept = kept_lines_exec(&lines);
        let mut acc = String::new();
        let mut k: usize = 0;
        while k < kept.len()
            invariant
                0 <= k <= kept.len(),
                kept.deep_view().len() == kept.len(),
                k == 0 ==> acc@ == Seq::<char>::empty(),
                k > 0 ==> join_step(kept.deep_view(), 0, Seq::empty()) == join_step(
                    kept.deep_view(),
                    k as int,
                    acc@,
                ),
            decreases kept.len() - k,
        {
            if k == 0 {
                acc = kept[0].clone();
            } else {
                acc.append("\n");
                acc.append(kept[k].as_str());
                proof {
                    reveal_strlit("\n");
                    assert("\n"@ =~= seq!['\n']);
                }
            }
            k += 1;
        }
        proof {
            if kept.deep_view().len() == 0 {
                assert(join_step(kept.deep_view(), 0, Seq::empty()) == Seq::<char>::empty());
            }
        }
        acc
    }
}

impl ContextIngest {
    /// Turn one source's sanitized text into ordered, deduplicated chunks.
    pub fn ingest_url(source: &str, raw: &str) -> (r: IngestResult)
        ensures
            r@.source == source@,
            r@.chunks == spec_dedup(spec_kept_lines(spec_strip_tags(raw@))),
    {
        let clean = UrlAdapter::fetch(raw);
        let lines = split_str(clean.as_str(), SplitMode::Line);
        let kept = kept_lines_exec(&lines);
        let mut chunks: Vec<String> = Vec::new();
        let mut k: usize = 0;
        proof {
            assert(chunks.deep_view() =~~= Seq::<Seq<char>>::empty());
        }
        while k < kept.len()
            invariant
                0 <= k <= kept.len(),
                kept.deep_view().len() == kept.len(),
                dedup_step(kept.deep_view(), 0, Seq::empty()) == dedup_step(
                    kept.deep_view(),
                    k as int,
                    chunks.deep_view(),
                ),
            decreases kept.len() - k,
        {
            let mut seen = false;
            let mut j: usize = 0;
            while j < chunks.len()
                invariant
                    0 <= j <= chunks.len(),
                    chunks.deep_view().len() == chunks.len(),
                    kept.deep_view().len() == kept.len(),
                    k < kept.len(),
                    seen <==> exists|m: int|
                        0 <= m < j && chunks.deep_view()[m] == kept.deep_view()[k as int],
                decreases chunks.len() - j,
            {
                if crate::text::eq_str(chunks[j].as_str(), kept[k].as_str()) {
                    seen = true;
                    proof {
                        assert(chunks.deep_view()[j as int] == kept.deep_view()[k as int]);
                    }
                } else {
                    proof {
                        assert(chunks.deep_view()[j as int] != kept.deep_view()[k as int]);
                    }
                }
                j += 1;
            }
            if !seen {
                let ghost old_chunks = chunks.deep_view();
                chunks.push(kept[k].clone());
                proof {
                    assert(chunks.deep_view() =~~= old_chunks.push(kept.deep_view()[k as int]));
                    assert(!old_chunks.contains(kept.deep_view()[k as int]));
                }
            } else {
                proof {
                    assert(chunks.deep_view().contains(kept.deep_view()[k as int]));
                }
            }
            k += 1;
        }
        IngestResult { source: String::from_str(source), chunks }
    }
}

} // verus!
