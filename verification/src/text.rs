//! Character-level utilities shared by the compiler stages.
//!
//! Every executable function here has an exact contract against a spec
//! function over `Seq<char>`, so that each pipeline stage built on top of
//! these can in turn be pinned down exactly.

use vstd::prelude::*;

verus! {

// ---------------------------------------------------------------------------
// Character classes
// ---------------------------------------------------------------------------

pub open spec fn is_space_char(c: char) -> bool {
    c == ' '
}

pub open spec fn is_alpha_char(c: char) -> bool {
    ('a' <= c && c <= 'z') || ('A' <= c && c <= 'Z')
}

// ---------------------------------------------------------------------------
// Equality and prefix tests
// ---------------------------------------------------------------------------

/// Character-for-character string equality, pinned to view equality.
pub fn eq_str(a: &str, b: &str) -> (r: bool)
    ensures
        r == (a@ == b@),
{
    let na: usize = a.unicode_len();
    let nb: usize = b.unicode_len();
    if na != nb {
        proof {
            assert(a@ != b@) by {
                assert(a@.len() != b@.len());
            }
        }
        return false;
    }
    let mut i: usize = 0;
    while i < na
        invariant
            na == a@.len(),
            na == b@.len(),
            0 <= i <= na,
            forall|j: int| 0 <= j < i ==> a@[j] == b@[j],
        decreases na - i,
    {
        if a.get_char(i) != b.get_char(i) {
            return false;
        }
        i += 1;
    }
    proof {
        assert(a@ =~= b@);
    }
    true
}

/// Does `s` begin with `p`?
pub open spec fn spec_starts_with(s: Seq<char>, p: Seq<char>) -> bool {
    s.len() >= p.len() && s.subrange(0, p.len() as int) == p
}

pub fn starts_with(s: &str, p: &str) -> (r: bool)
    ensures
        r == spec_starts_with(s@, p@),
{
    let ns: usize = s.unicode_len();
    let np: usize = p.unicode_len();
    if ns < np {
        return false;
    }
    let mut i: usize = 0;
    while i < np
        invariant
            ns == s@.len(),
            np == p@.len(),
            np <= ns,
            0 <= i <= np,
            forall|j: int| 0 <= j < i ==> s@[j] == p@[j],
        decreases np - i,
    {
        if s.get_char(i) != p.get_char(i) {
            proof {
                assert(s@.subrange(0, p@.len() as int)[i as int] != p@[i as int]);
            }
            return false;
        }
        i += 1;
    }
    proof {
        assert(s@.subrange(0, p@.len() as int) =~= p@);
    }
    true
}

// ---------------------------------------------------------------------------
// Substring search
// ---------------------------------------------------------------------------

/// `n` occurs in `h` starting at position `i`.
pub open spec fn match_at(h: Seq<char>, n: Seq<char>, i: int) -> bool {
    0 <= i && i + n.len() <= h.len() && h.subrange(i, i + n.len() as int) == n
}

/// `n` occurs somewhere in `h`.
pub open spec fn spec_contains(h: Seq<char>, n: Seq<char>) -> bool {
    exists|i: int| match_at(h, n, i)
}

fn match_at_exec(h: &str, n: &str, i: usize) -> (r: bool)
    requires
        i + n@.len() <= h@.len() <= usize::MAX,
    ensures
        r == match_at(h@, n@, i as int),
{
    let nn: usize = n.unicode_len();
    let mut j: usize = 0;
    while j < nn
        invariant
            nn == n@.len(),
            i + nn <= h@.len() <= usize::MAX,
            0 <= j <= nn,
            forall|k: int| 0 <= k < j ==> h@[i + k] == n@[k],
        decreases nn - j,
    {
        if h.get_char(i + j) != n.get_char(j) {
            proof {
                assert(h@.subrange(i as int, i + n@.len() as int)[j as int] != n@[j as int]);
            }
            return false;
        }
        j += 1;
    }
    proof {
        assert(h@.subrange(i as int, i + n@.len() as int) =~= n@);
    }
    true
}

/// Substring containment, pinned to `spec_contains`.
pub fn contains_str(h: &str, n: &str) -> (r: bool)
    ensures
        r == spec_contains(h@, n@),
{
    let nh: usize = h.unicode_len();
    let nn: usize = n.unicode_len();
    if nn > nh {
        proof {
            assert(forall|i: int| !match_at(h@, n@, i));
        }
        return false;
    }
    if nn == 0 {
        proof {
            assert(h@.subrange(0, 0) =~= n@);
            assert(match_at(h@, n@, 0));
        }
        return true;
    }
    let mut i: usize = 0;
    while i <= nh - nn
        invariant
            nh == h@.len(),
            nn == n@.len(),
            1 <= nn <= nh,
            0 <= i <= nh - nn + 1,
            forall|k: int| 0 <= k < i ==> !match_at(h@, n@, k),
        decreases nh - nn + 1 - i,
    {
        if match_at_exec(h, n, i) {
            return true;
        }
        i += 1;
    }
    proof {
        assert(forall|k: int| match_at(h@, n@, k) ==> 0 <= k <= h@.len() - n@.len());
    }
    false
}

// ---------------------------------------------------------------------------
// Trimming
// ---------------------------------------------------------------------------

/// Index of the first character at or after `i` that is not a space.
pub open spec fn first_non_space(s: Seq<char>, i: int) -> int
    decreases s.len() - i,
{
    if i < 0 || i >= s.len() {
        s.len() as int
    } else if is_space_char(s[i]) {
        first_non_space(s, i + 1)
    } else {
        i
    }
}

/// Index one past the last non-space character at or before `j - 1`.
pub open spec fn last_non_space_end(s: Seq<char>, j: int) -> int
    decreases j,
{
    if j <= 0 || j > s.len() {
        0
    } else if is_space_char(s[j - 1]) {
        last_non_space_end(s, j - 1)
    } else {
        j
    }
}

/// `s` with leading and trailing spaces removed.
pub open spec fn spec_trim(s: Seq<char>) -> Seq<char> {
    let a = first_non_space(s, 0);
    let b = last_non_space_end(s, s.len() as int);
    if a < b {
        s.subrange(a, b)
    } else {
        Seq::empty()
    }
}

proof fn lemma_first_non_space_bounds(s: Seq<char>, i: int)
    requires
        0 <= i <= s.len(),
    ensures
        i <= first_non_space(s, i) <= s.len(),
        forall|k: int| i <= k < first_non_space(s, i) ==> is_space_char(s[k]),
        first_non_space(s, i) < s.len() ==> !is_space_char(s[first_non_space(s, i)]),
    decreases s.len() - i,
{
    if i < s.len() && is_space_char(s[i]) {
        lemma_first_non_space_bounds(s, i + 1);
    }
}

proof fn lemma_last_non_space_bounds(s: Seq<char>, j: int)
    requires
        0 <= j <= s.len(),
    ensures
        0 <= last_non_space_end(s, j) <= j,
        forall|k: int| last_non_space_end(s, j) <= k < j ==> is_space_char(s[k]),
        last_non_space_end(s, j) > 0 ==> !is_space_char(s[last_non_space_end(s, j) - 1]),
    decreases j,
{
    if j > 0 && is_space_char(s[j - 1]) {
        lemma_last_non_space_bounds(s, j - 1);
    }
}

/// Trim spaces from both ends, pinned to `spec_trim`.
pub fn trim_str(s: &str) -> (r: String)
    ensures
        r@ == spec_trim(s@),
{
    let n: usize = s.unicode_len();
    proof {
        lemma_first_non_space_bounds(s@, 0);
        lemma_last_non_space_bounds(s@, s@.len() as int);
    }
    let mut a: usize = 0;
    while a < n && s.get_char(a) == ' '
        invariant
            n == s@.len(),
            0 <= a <= n,
            forall|k: int| 0 <= k < a ==> is_space_char(s@[k]),
            first_non_space(s@, a as int) == first_non_space(s@, 0),
        decreases n - a,
    {
        a += 1;
    }
    proof {
        assert(first_non_space(s@, 0) == a as int);
    }
    let mut b: usize = n;
    while b > 0 && s.get_char(b - 1) == ' '
        invariant
            n == s@.len(),
            0 <= b <= n,
            forall|k: int| b <= k < n ==> is_space_char(s@[k]),
            last_non_space_end(s@, b as int) == last_non_space_end(s@, s@.len() as int),
        decreases b,
    {
        b -= 1;
    }
    proof {
        assert(last_non_space_end(s@, s@.len() as int) == b as int);
    }
    if a < b {
        let piece = s.substring_char(a, b);
        String::from_str(piece)
    } else {
        proof {
            assert(spec_trim(s@) =~= Seq::<char>::empty());
        }
        String::new()
    }
}

// ---------------------------------------------------------------------------
// Splitting
// ---------------------------------------------------------------------------

/// A sentence boundary: a full stop followed by a space or the end of text.
/// A full stop inside a token (`file.py`, `readme.md`) is not a boundary.
pub open spec fn sentence_break_at(s: Seq<char>, i: int) -> bool {
    s[i] == '.' && (i + 1 == s.len() || s[i + 1] == ' ')
}

/// What the splitting machine breaks at.
#[derive(Clone, Copy, PartialEq, Eq, Structural, Debug)]
pub enum SplitMode {
    Sentence,
    Comma,
    Line,
}

pub open spec fn break_here(s: Seq<char>, i: int, mode: SplitMode) -> bool {
    match mode {
        SplitMode::Sentence => sentence_break_at(s, i),
        SplitMode::Comma => s[i] == ',',
        SplitMode::Line => s[i] == '\n',
    }
}

/// One step of the splitting machine: `cur` is the piece being collected,
/// `acc` the pieces already closed.
pub open spec fn split_step(
    s: Seq<char>,
    i: int,
    cur: Seq<char>,
    acc: Seq<Seq<char>>,
    mode: SplitMode,
) -> Seq<Seq<char>>
    decreases s.len() - i,
{
    if i < 0 || i >= s.len() {
        acc.push(cur)
    } else if break_here(s, i, mode) {
        split_step(s, i + 1, Seq::empty(), acc.push(cur), mode)
    } else {
        split_step(s, i + 1, cur.push(s[i]), acc, mode)
    }
}

/// The pieces of `s`, split at the chosen kind of boundary.
pub open spec fn spec_split(s: Seq<char>, mode: SplitMode) -> Seq<Seq<char>> {
    split_step(s, 0, Seq::empty(), Seq::empty(), mode)
}

/// Split `s` into pieces, pinned to `spec_split`.
pub fn split_str(s: &str, mode: SplitMode) -> (r: Vec<String>)
    ensures
        r.deep_view() == spec_split(s@, mode),
{
    let n: usize = s.unicode_len();
    let mut acc: Vec<String> = Vec::new();
    let mut start: usize = 0;
    let mut i: usize = 0;
    proof {
        assert(s@.subrange(0, 0) =~= Seq::<char>::empty());
        assert(acc.deep_view() =~~= Seq::<Seq<char>>::empty());
    }
    while i < n
        invariant
            n == s@.len(),
            0 <= start <= i <= n,
            split_step(s@, 0, Seq::empty(), Seq::empty(), mode) == split_step(
                s@,
                i as int,
                s@.subrange(start as int, i as int),
                acc.deep_view(),
                mode,
            ),
        decreases n - i,
    {
        let c = s.get_char(i);
        let is_break = match mode {
            SplitMode::Sentence => c == '.' && (i + 1 == n || s.get_char(i + 1) == ' '),
            SplitMode::Comma => c == ',',
            SplitMode::Line => c == '\n',
        };
        if is_break {
            let piece = s.substring_char(start, i);
            let ghost old_acc = acc.deep_view();
            acc.push(String::from_str(piece));
            proof {
                assert(acc.deep_view() =~~= old_acc.push(s@.subrange(start as int, i as int)));
                assert(s@.subrange(i as int + 1, i as int + 1) =~= Seq::<char>::empty());
            }
            start = i + 1;
        } else {
            proof {
                assert(s@.subrange(start as int, i as int).push(s@[i as int]) =~= s@.subrange(
                    start as int,
                    i as int + 1,
                ));
            }
        }
        i += 1;
    }
    let piece = s.substring_char(start, n);
    let ghost old_acc = acc.deep_view();
    acc.push(String::from_str(piece));
    proof {
        assert(acc.deep_view() =~~= old_acc.push(s@.subrange(start as int, n as int)));
    }
    acc
}

// ---------------------------------------------------------------------------
// Tokens
// ---------------------------------------------------------------------------

/// One step of the tokenizer: space-separated maximal runs, empties dropped.
pub open spec fn tokens_step(s: Seq<char>, i: int, cur: Seq<char>, acc: Seq<Seq<char>>) -> Seq<
    Seq<char>,
>
    decreases s.len() - i,
{
    if i < 0 || i >= s.len() {
        if cur.len() > 0 {
            acc.push(cur)
        } else {
            acc
        }
    } else if s[i] == ' ' {
        tokens_step(s, i + 1, Seq::empty(), if cur.len() > 0 { acc.push(cur) } else { acc })
    } else {
        tokens_step(s, i + 1, cur.push(s[i]), acc)
    }
}

/// The space-separated tokens of `s`.
pub open spec fn spec_tokens(s: Seq<char>) -> Seq<Seq<char>> {
    tokens_step(s, 0, Seq::empty(), Seq::empty())
}

/// Tokenize `s`, pinned to `spec_tokens`.
pub fn tokens_of(s: &str) -> (r: Vec<String>)
    ensures
        r.deep_view() == spec_tokens(s@),
{
    let n: usize = s.unicode_len();
    let mut acc: Vec<String> = Vec::new();
    let mut start: usize = 0;
    let mut i: usize = 0;
    proof {
        assert(s@.subrange(0, 0) =~= Seq::<char>::empty());
        assert(acc.deep_view() =~~= Seq::<Seq<char>>::empty());
    }
    while i < n
        invariant
            n == s@.len(),
            0 <= start <= i <= n,
            tokens_step(s@, 0, Seq::empty(), Seq::empty()) == tokens_step(
                s@,
                i as int,
                s@.subrange(start as int, i as int),
                acc.deep_view(),
            ),
        decreases n - i,
    {
        if s.get_char(i) == ' ' {
            if i > start {
                let piece = s.substring_char(start, i);
                let ghost old_acc = acc.deep_view();
                acc.push(String::from_str(piece));
                proof {
                    assert(acc.deep_view() =~~= old_acc.push(
                        s@.subrange(start as int, i as int),
                    ));
                }
            }
            proof {
                assert(s@.subrange(i as int + 1, i as int + 1) =~= Seq::<char>::empty());
            }
            start = i + 1;
        } else {
            proof {
                assert(s@.subrange(start as int, i as int).push(s@[i as int]) =~= s@.subrange(
                    start as int,
                    i as int + 1,
                ));
            }
        }
        i += 1;
    }
    if n > start {
        let piece = s.substring_char(start, n);
        let ghost old_acc = acc.deep_view();
        acc.push(String::from_str(piece));
        proof {
            assert(acc.deep_view() =~~= old_acc.push(s@.subrange(start as int, n as int)));
        }
    }
    acc
}

// ---------------------------------------------------------------------------
// First occurrence of a pattern
// ---------------------------------------------------------------------------

/// The first position at or after `i` where `n` occurs in `h`, or `h.len()`.
pub open spec fn first_match_from(h: Seq<char>, n: Seq<char>, i: int) -> int
    decreases h.len() - i,
{
    if i < 0 || i >= h.len() {
        h.len() as int
    } else if match_at(h, n, i) {
        i
    } else {
        first_match_from(h, n, i + 1)
    }
}

/// Find the first occurrence of `n` in `h`, pinned to `first_match_from`.
pub fn find_first(h: &str, n: &str) -> (r: usize)
    ensures
        r == first_match_from(h@, n@, 0),
        r <= h@.len(),
{
    let nh: usize = h.unicode_len();
    let nn: usize = n.unicode_len();
    let mut i: usize = 0;
    while i < nh
        invariant
            nh == h@.len(),
            nn == n@.len(),
            0 <= i <= nh,
            first_match_from(h@, n@, 0) == first_match_from(h@, n@, i as int),
        decreases nh - i,
    {
        if nn <= nh - i {
            if match_at_exec(h, n, i) {
                return i;
            }
        } else {
            proof {
                assert(!match_at(h@, n@, i as int));
            }
        }
        i += 1;
    }
    nh
}

// ---------------------------------------------------------------------------
// Decimal rendering
// ---------------------------------------------------------------------------

pub open spec fn spec_digit_char(d: int) -> char {
    if d == 0 {
        '0'
    } else if d == 1 {
        '1'
    } else if d == 2 {
        '2'
    } else if d == 3 {
        '3'
    } else if d == 4 {
        '4'
    } else if d == 5 {
        '5'
    } else if d == 6 {
        '6'
    } else if d == 7 {
        '7'
    } else if d == 8 {
        '8'
    } else {
        '9'
    }
}

/// The decimal digits of `n`, most significant first.
pub open spec fn spec_dec(n: int) -> Seq<char>
    decreases n,
{
    if n < 10 {
        seq![spec_digit_char(n)]
    } else {
        spec_dec(n / 10).push(spec_digit_char(n % 10))
    }
}

fn digit_str(d: usize) -> (r: String)
    requires
        d < 10,
    ensures
        r@ =~= seq![spec_digit_char(d as int)],
{
    let r = if d == 0 {
        String::from_str("0")
    } else if d == 1 {
        String::from_str("1")
    } else if d == 2 {
        String::from_str("2")
    } else if d == 3 {
        String::from_str("3")
    } else if d == 4 {
        String::from_str("4")
    } else if d == 5 {
        String::from_str("5")
    } else if d == 6 {
        String::from_str("6")
    } else if d == 7 {
        String::from_str("7")
    } else if d == 8 {
        String::from_str("8")
    } else {
        String::from_str("9")
    };
    proof {
        reveal_strlit("0");
        reveal_strlit("1");
        reveal_strlit("2");
        reveal_strlit("3");
        reveal_strlit("4");
        reveal_strlit("5");
        reveal_strlit("6");
        reveal_strlit("7");
        reveal_strlit("8");
        reveal_strlit("9");
    }
    r
}

/// Render `n` in decimal, pinned to `spec_dec`.
pub fn dec_str(n: usize) -> (r: String)
    ensures
        r@ == spec_dec(n as int),
    decreases n,
{
    if n < 10 {
        let r = digit_str(n);
        proof {
            assert(r@ =~= spec_dec(n as int));
        }
        r
    } else {
        let mut s = dec_str(n / 10);
        let d = digit_str(n % 10);
        s.append(d.as_str());
        proof {
            assert(s@ =~= spec_dec((n / 10) as int).push(spec_digit_char((n % 10) as int)));
        }
        s
    }
}

} // verus!
