//! Heuristic extraction of imported module names from source text.
//!
//! Each language has a rule that is tried at every position of the text,
//! left to right. Where the rule applies it yields its tokens and scanning
//! resumes after the text it consumed; elsewhere scanning moves on by one
//! character. Nothing here parses: comments and strings that look like
//! imports are taken as imports.
use vstd::prelude::*;

use crate::text::{
    blank_end, skip_blank, find_char, find_quote, is_quote, matches_at, next_char, next_quote, occurs_at, skip_space,
    skip_word, space_end, spec_is_space, texts, word_end, is_space, chars_of, slice_string,
};

verus! {

/// The languages that have a dependency rule.
#[derive(Clone, Copy, PartialEq, Eq, Debug)]
pub enum DepRule {
    /// TypeScript and JavaScript.
    Script,
    Python,
    Go,
    Rust,
}

/// A quoted token starting with the quote at `q`: the bounds of its text.
/// The closing quote is the next quote of either kind, and the text is not empty.
pub open spec fn quoted_at(s: Seq<char>, q: int) -> Option<(int, int)> {
    if 0 <= q < s.len() && is_quote(s[q]) {
        let e = find_quote(s, q + 1);
        if q + 1 < e < s.len() {
            Some((q + 1, e))
        } else {
            None
        }
    } else {
        None
    }
}

/// `from`, then whitespace, then a quoted token, starting at `p`.
pub open spec fn from_clause_at(s: Seq<char>, p: int) -> Option<(int, int)> {
    if occurs_at(s, p, seq!['f', 'r', 'o', 'm']) {
        let w = space_end(s, p + 4);
        if w > p + 4 {
            quoted_at(s, w)
        } else {
            None
        }
    } else {
        None
    }
}

/// The `from` clause that starts last among the positions `lo..=p`.
pub open spec fn last_from_clause(s: Seq<char>, lo: int, p: int) -> Option<(int, int)>
    decreases p - lo + 1,
{
    if p < lo {
        None
    } else if from_clause_at(s, p) is Some {
        from_clause_at(s, p)
    } else {
        last_from_clause(s, lo, p - 1)
    }
}

/// `import` or `export` at `i`, and later on the same line a `from` clause;
/// where the line holds several, the last one is taken.
pub open spec fn script_import_at(s: Seq<char>, i: int) -> Option<(int, int)> {
    if occurs_at(s, i, seq!['i', 'm', 'p', 'o', 'r', 't']) || occurs_at(
        s,
        i,
        seq!['e', 'x', 'p', 'o', 'r', 't'],
    ) {
        last_from_clause(s, i + 6, find_char(s, i, '\n') - 4)
    } else {
        None
    }
}

/// `require`, optional whitespace, `(`, optional whitespace and a quoted token, at `i`.
pub open spec fn script_require_at(s: Seq<char>, i: int) -> Option<(int, int)> {
    if occurs_at(s, i, seq!['r', 'e', 'q', 'u', 'i', 'r', 'e']) {
        let w1 = space_end(s, i + 7);
        if w1 < s.len() && s[w1] == '(' {
            quoted_at(s, space_end(s, w1 + 1))
        } else {
            None
        }
    } else {
        None
    }
}

/// The rule for TypeScript and JavaScript at `i`.
pub open spec fn script_step(s: Seq<char>, i: int) -> Option<(Seq<Seq<char>>, int)> {
    match script_import_at(s, i) {
        Some((a, e)) => Some((seq![s.subrange(a, e)], e + 1)),
        None => match script_require_at(s, i) {
            Some((a, e)) => Some((seq![s.subrange(a, e)], e + 1)),
            None => None,
        },
    }
}

/// The rule for Python at `i`: at the start of a line, `import` or `from`,
/// whitespace within the line, and then the token that runs up to the next
/// whitespace.
pub open spec fn python_step(s: Seq<char>, i: int) -> Option<(Seq<Seq<char>>, int)> {
    if 0 <= i < s.len() && (i == 0 || s[i - 1] == '\n') {
        let k = if occurs_at(s, i, seq!['i', 'm', 'p', 'o', 'r', 't']) {
            i + 6
        } else if occurs_at(s, i, seq!['f', 'r', 'o', 'm']) {
            i + 4
        } else {
            -1
        };
        let w = blank_end(s, k);
        let t = word_end(s, w);
        if k >= 0 && w > k && t > w {
            Some((seq![s.subrange(w, t)], t))
        } else {
            None
        }
    } else {
        None
    }
}

/// The first quoted token that starts and ends in `q..e`.
pub open spec fn first_quoted(s: Seq<char>, q: int, e: int) -> Option<Seq<char>>
    decreases e - q,
{
    if q >= e {
        None
    } else {
        match quoted_at(s, q) {
            Some((a, b)) if b < e => Some(s.subrange(a, b)),
            _ => first_quoted(s, q + 1, e),
        }
    }
}

/// One token for each line of `a..c` that holds a quoted token: the first one.
pub open spec fn block_tokens(s: Seq<char>, a: int, c: int) -> Seq<Seq<char>>
    decreases c - a + 1,
{
    if a >= c {
        seq![]
    } else {
        let nl = find_char(s, a, '\n');
        let e = if a <= nl < c {
            nl
        } else {
            c
        };
        let here = match first_quoted(s, a, e) {
            Some(t) => seq![t],
            None => seq![],
        };
        here + block_tokens(s, e + 1, c)
    }
}

/// The rule for Go at `i`: `import` and whitespace, then either a quoted
/// token or a parenthesised block up to the next `)`.
pub open spec fn go_step(s: Seq<char>, i: int) -> Option<(Seq<Seq<char>>, int)> {
    if occurs_at(s, i, seq!['i', 'm', 'p', 'o', 'r', 't']) {
        let w = space_end(s, i + 6);
        if w > i + 6 && w < s.len() && s[w] == '(' {
            let c = find_char(s, w + 1, ')');
            if w + 1 < c < s.len() {
                Some((block_tokens(s, w + 1, c), c + 1))
            } else {
                None
            }
        } else if w > i + 6 {
            match quoted_at(s, w) {
                Some((a, e)) => Some((seq![s.subrange(a, e)], e + 1)),
                None => None,
            }
        } else {
            None
        }
    } else {
        None
    }
}

/// The end of the leading whitespace of `a..b`.
pub open spec fn lead_end(s: Seq<char>, a: int, b: int) -> int
    decreases b - a,
{
    if a < b && spec_is_space(s[a]) {
        lead_end(s, a + 1, b)
    } else {
        a
    }
}

/// The start of the trailing whitespace of `a..b`.
pub open spec fn trail_start(s: Seq<char>, a: int, b: int) -> int
    decreases b - a,
{
    if a < b && spec_is_space(s[b - 1]) {
        trail_start(s, a, b - 1)
    } else {
        b
    }
}

/// The first `::` that lies wholly in `p..b`, or `b`.
pub open spec fn find_path_sep(s: Seq<char>, p: int, b: int) -> int
    decreases b - p,
{
    if p + 2 > b {
        b
    } else if s[p] == ':' && s[p + 1] == ':' {
        p
    } else {
        find_path_sep(s, p + 1, b)
    }
}

/// The rule for Rust at `i`: `use`, whitespace, a path and `;`. The path,
/// trimmed, counts only where it holds `::` or `{`; it yields its first
/// segment, trimmed.
pub open spec fn rust_step(s: Seq<char>, i: int) -> Option<(Seq<Seq<char>>, int)> {
    let k = i + 3;
    if occurs_at(s, i, seq!['u', 's', 'e']) && k < s.len() && spec_is_space(s[k]) {
        let j = find_char(s, k + 1, ';');
        if k + 2 <= j < s.len() {
            let lo = lead_end(s, k + 1, j);
            let hi = trail_start(s, lo, j);
            let sep = find_path_sep(s, lo, hi);
            if sep < hi || find_char(s, lo, '{') < hi {
                Some((seq![s.subrange(lo, trail_start(s, lo, sep))], j + 1))
            } else {
                Some((seq![], j + 1))
            }
        } else {
            None
        }
    } else {
        None
    }
}

/// The rule of `rule` at `i`.
pub open spec fn step(rule: DepRule, s: Seq<char>, i: int) -> Option<(Seq<Seq<char>>, int)> {
    match rule {
        DepRule::Script => script_step(s, i),
        DepRule::Python => python_step(s, i),
        DepRule::Go => go_step(s, i),
        DepRule::Rust => rust_step(s, i),
    }
}

/// The tokens that `rule` yields from position `i` of `s` on.
pub open spec fn scan(rule: DepRule, s: Seq<char>, i: int) -> Seq<Seq<char>>
    decreases s.len() - i,
{
    if i < 0 || i >= s.len() {
        seq![]
    } else {
        match step(rule, s, i) {
            Some((t, e)) if i < e <= s.len() => t + scan(rule, s, e),
            _ => scan(rule, s, i + 1),
        }
    }
}

/// The dependencies that `rule` finds in `s`, in the order of the text.
pub open spec fn dependencies_of(rule: DepRule, s: Seq<char>) -> Seq<Seq<char>> {
    scan(rule, s, 0)
}

/// A pair of positions as integers.
pub open spec fn widen(r: Option<(usize, usize)>) -> Option<(int, int)> {
    match r {
        Some((a, b)) => Some((a as int, b as int)),
        None => None,
    }
}

fn quoted(text: &Vec<char>, q: usize) -> (r: Option<(usize, usize)>)
    requires
        q <= text@.len(),
    ensures
        widen(r) == quoted_at(text@, q as int),
        r matches Some((a, e)) ==> q < a < e < text@.len(),
{
    if q < text.len() && (text[q] == '\'' || text[q] == '"') {
        let e = next_quote(text, q + 1);
        if q + 1 < e && e < text.len() {
            Some((q + 1, e))
        } else {
            None
        }
    } else {
        None
    }
}

fn from_clause(text: &Vec<char>, p: usize) -> (r: Option<(usize, usize)>)
    requires
        p <= text@.len(),
    ensures
        widen(r) == from_clause_at(text@, p as int),
        r matches Some((a, e)) ==> p < a < e < text@.len(),
{
    let n: usize = text.len();
    if matches_at(text, p, &['f', 'r', 'o', 'm']) {
        assert(p + 4 <= n);
        let w = skip_space(text, p + 4);
        if w > p + 4 {
            quoted(text, w)
        } else {
            None
        }
    } else {
        None
    }
}

fn script_import(text: &Vec<char>, i: usize) -> (r: Option<(usize, usize)>)
    requires
        i < text@.len(),
    ensures
        widen(r) == script_import_at(text@, i as int),
        r matches Some((a, e)) ==> i < a < e < text@.len(),
{
    if !(matches_at(text, i, &['i', 'm', 'p', 'o', 'r', 't']) || matches_at(
        text,
        i,
        &['e', 'x', 'p', 'o', 'r', 't'],
    )) {
        return None;
    }
    let line_end = next_char(text, i, '\n');
    let lo: usize = i + 6;
    let ghost top: int = line_end - 4;
    if line_end < 4 || line_end - 4 < lo {
        return None;
    }
    assert(script_import_at(text@, i as int) == last_from_clause(text@, lo as int, top));
    let mut hi: usize = line_end - 3;
    while hi > lo
        invariant
            lo <= hi <= text@.len(),
            i < lo,
            hi - 1 <= top,
            script_import_at(text@, i as int) == last_from_clause(text@, lo as int, top),
            last_from_clause(text@, lo as int, top) == last_from_clause(
                text@,
                lo as int,
                hi - 1,
            ),
        decreases hi,
    {
        let p = hi - 1;
        let found = from_clause(text, p);
        if found.is_some() {
            assert(last_from_clause(text@, lo as int, p as int) == from_clause_at(text@, p as int));
            return found;
        }
        hi = p;
    }
    None
}

fn script_require(text: &Vec<char>, i: usize) -> (r: Option<(usize, usize)>)
    requires
        i < text@.len(),
    ensures
        widen(r) == script_require_at(text@, i as int),
        r matches Some((a, e)) ==> i < a < e < text@.len(),
{
    let n: usize = text.len();
    if !matches_at(text, i, &['r', 'e', 'q', 'u', 'i', 'r', 'e']) {
        return None;
    }
    assert(i + 7 <= n);
    let w1 = skip_space(text, i + 7);
    if w1 < text.len() && text[w1] == '(' {
        let w2 = skip_space(text, w1 + 1);
        quoted(text, w2)
    } else {
        None
    }
}

/// What one application of `rule` at `i` does to the tokens found so far.
pub open spec fn applied(
    rule: DepRule,
    s: Seq<char>,
    i: int,
    before: Seq<String>,
    after: Seq<String>,
    r: Option<usize>,
) -> bool {
    match step(rule, s, i) {
        Some((t, e)) => r matches Some(x) && x as int == e && texts(after) == texts(before) + t && i
            < e <= s.len(),
        None => r is None && after == before,
    }
}

fn push_token(out: &mut Vec<String>, content: &str, a: usize, b: usize)
    requires
        a <= b <= content@.len(),
    ensures
        texts(final(out)@) == texts(old(out)@) + seq![content@.subrange(a as int, b as int)],
{
    let tok = slice_string(content, a, b);
    out.push(tok);
    assert(texts(final(out)@) =~= texts(old(out)@) + seq![content@.subrange(a as int, b as int)]);
}

fn script_rule(text: &Vec<char>, content: &str, i: usize, out: &mut Vec<String>) -> (r: Option<
    usize,
>)
    requires
        text@ == content@,
        i < text@.len(),
    ensures
        applied(DepRule::Script, text@, i as int, old(out)@, final(out)@, r),
{
    let n: usize = text.len();
    match script_import(text, i) {
        Some((a, e)) => {
            push_token(out, content, a, e);
            Some(e + 1)
        },
        None => match script_require(text, i) {
            Some((a, e)) => {
                push_token(out, content, a, e);
                Some(e + 1)
            },
            None => None,
        },
    }
}

fn python_rule(text: &Vec<char>, content: &str, i: usize, out: &mut Vec<String>) -> (r: Option<
    usize,
>)
    requires
        text@ == content@,
        i < text@.len(),
    ensures
        applied(DepRule::Python, text@, i as int, old(out)@, final(out)@, r),
{
    let n: usize = text.len();
    if i > 0 && text[i - 1] != '\n' {
        return None;
    }
    let k: usize = if matches_at(text, i, &['i', 'm', 'p', 'o', 'r', 't']) {
        i + 6
    } else if matches_at(text, i, &['f', 'r', 'o', 'm']) {
        i + 4
    } else {
        return None;
    };
    let w = skip_blank(text, k);
    if w == k {
        return None;
    }
    let t = skip_word(text, w);
    if t == w {
        return None;
    }
    push_token(out, content, w, t);
    Some(t)
}

fn first_quoted_in(text: &Vec<char>, q: usize, e: usize) -> (r: Option<(usize, usize)>)
    requires
        q <= e <= text@.len(),
    ensures
        r matches Some((a, b)) ==> a <= b <= e && first_quoted(text@, q as int, e as int) == Some(
            text@.subrange(a as int, b as int),
        ),
        r is None ==> first_quoted(text@, q as int, e as int) is None,
{
    let mut p: usize = q;
    while p < e
        invariant
            q <= p <= e <= text@.len(),
            first_quoted(text@, q as int, e as int) == first_quoted(text@, p as int, e as int),
        decreases e - p,
    {
        match quoted(text, p) {
            Some((a, b)) => {
                if b < e {
                    return Some((a, b));
                }
            },
            None => {},
        }
        p += 1;
    }
    None
}

fn go_block(text: &Vec<char>, content: &str, start: usize, c: usize, out: &mut Vec<String>)
    requires
        text@ == content@,
        start <= c <= text@.len(),
    ensures
        texts(final(out)@) == texts(old(out)@) + block_tokens(text@, start as int, c as int),
{
    let n: usize = text.len();
    let mut a: usize = start;
    while a < c
        invariant
            n == text@.len(),
            text@ == content@,
            start <= c <= text@.len(),
            a <= c,
            texts(old(out)@) + block_tokens(text@, start as int, c as int) == texts(out@)
                + block_tokens(text@, a as int, c as int),
        decreases c - a,
    {
        let nl = next_char(text, a, '\n');
        let e: usize = if nl < c {
            nl
        } else {
            c
        };
        let ghost before = out@;
        match first_quoted_in(text, a, e) {
            Some((x, b)) => {
                push_token(out, content, x, b);
            },
            None => {},
        }
        assert(texts(out@) + block_tokens(text@, e + 1, c as int) =~= texts(before)
            + block_tokens(text@, a as int, c as int));
        if e < c {
            a = e + 1;
        } else {
            assert(block_tokens(text@, e + 1, c as int) =~= block_tokens(text@, c as int, c as int));
            a = c;
        }
    }
    assert(block_tokens(text@, a as int, c as int) =~= seq![]);
    assert(texts(out@) =~= texts(out@) + block_tokens(text@, a as int, c as int));
}

fn go_rule(text: &Vec<char>, content: &str, i: usize, out: &mut Vec<String>) -> (r: Option<usize>)
    requires
        text@ == content@,
        i < text@.len(),
    ensures
        applied(DepRule::Go, text@, i as int, old(out)@, final(out)@, r),
{
    let n: usize = text.len();
    if !matches_at(text, i, &['i', 'm', 'p', 'o', 'r', 't']) {
        return None;
    }
    assert(i + 6 <= n);
    let w = skip_space(text, i + 6);
    if w == i + 6 {
        return None;
    }
    if w < n && text[w] == '(' {
        let c = next_char(text, w + 1, ')');
        if w + 1 < c && c < n {
            go_block(text, content, w + 1, c, out);
            Some(c + 1)
        } else {
            None
        }
    } else {
        match quoted(text, w) {
            Some((a, e)) => {
                push_token(out, content, a, e);
                Some(e + 1)
            },
            None => None,
        }
    }
}

pub fn skip_lead(text: &Vec<char>, a: usize, b: usize) -> (r: usize)
    requires
        a <= b <= text@.len(),
    ensures
        r == lead_end(text@, a as int, b as int),
        a <= r <= b,
{
    let mut j: usize = a;
    while j < b && is_space(text[j])
        invariant
            a <= j <= b <= text@.len(),
            lead_end(text@, j as int, b as int) == lead_end(text@, a as int, b as int),
        decreases b - j,
    {
        j += 1;
    }
    j
}

pub fn skip_trail(text: &Vec<char>, a: usize, b: usize) -> (r: usize)
    requires
        a <= b <= text@.len(),
    ensures
        r == trail_start(text@, a as int, b as int),
        a <= r <= b,
{
    let mut j: usize = b;
    while j > a && is_space(text[j - 1])
        invariant
            a <= j <= b <= text@.len(),
            trail_start(text@, a as int, j as int) == trail_start(text@, a as int, b as int),
        decreases j,
    {
        j -= 1;
    }
    j
}

fn path_sep(text: &Vec<char>, p: usize, b: usize) -> (r: usize)
    requires
        p <= b <= text@.len(),
    ensures
        r == find_path_sep(text@, p as int, b as int),
        p <= r <= b,
{
    let mut j: usize = p;
    while j < b && b - j >= 2 && !(text[j] == ':' && text[j + 1] == ':')
        invariant
            p <= j <= b <= text@.len(),
            find_path_sep(text@, j as int, b as int) == find_path_sep(text@, p as int, b as int),
        decreases b - j,
    {
        j += 1;
    }
    if j < b && b - j >= 2 {
        j
    } else {
        b
    }
}

fn rust_rule(text: &Vec<char>, content: &str, i: usize, out: &mut Vec<String>) -> (r: Option<
    usize,
>)
    requires
        text@ == content@,
        i < text@.len(),
    ensures
        applied(DepRule::Rust, text@, i as int, old(out)@, final(out)@, r),
{
    let n: usize = text.len();
    if !matches_at(text, i, &['u', 's', 'e']) {
        return None;
    }
    assert(i + 3 <= n);
    let k: usize = i + 3;
    if !(k < n && is_space(text[k])) {
        return None;
    }
    let j = next_char(text, k + 1, ';');
    if !(j > k + 1 && j < n) {
        return None;
    }
    let lo = skip_lead(text, k + 1, j);
    let hi = skip_trail(text, lo, j);
    let sep = path_sep(text, lo, hi);
    let brace = next_char(text, lo, '{');
    if sep < hi || brace < hi {
        let end = skip_trail(text, lo, sep);
        push_token(out, content, lo, end);
    } else {
        assert(texts(out@) =~= texts(out@) + seq![]);
    }
    Some(j + 1)
}

fn apply_rule(rule: DepRule, text: &Vec<char>, content: &str, i: usize, out: &mut Vec<String>) -> (r:
    Option<usize>)
    requires
        text@ == content@,
        i < text@.len(),
    ensures
        applied(rule, text@, i as int, old(out)@, final(out)@, r),
{
    match rule {
        DepRule::Script => script_rule(text, content, i, out),
        DepRule::Python => python_rule(text, content, i, out),
        DepRule::Go => go_rule(text, content, i, out),
        DepRule::Rust => rust_rule(text, content, i, out),
    }
}

/// Every dependency that `rule` finds in `content`, in the order of the text,
/// duplicates kept.
pub fn extract_with(rule: DepRule, content: &str) -> (r: Vec<String>)
    ensures
        texts(r@) == dependencies_of(rule, content@),
{
    let text = chars_of(content);
    let n: usize = text.len();
    let mut out: Vec<String> = Vec::new();
    let mut i: usize = 0;
    assert(texts(out@) + scan(rule, text@, 0) =~= scan(rule, text@, 0));
    while i < n
        invariant
            n == text@.len(),
            text@ == content@,
            i <= n,
            texts(out@) + scan(rule, text@, i as int) == scan(rule, text@, 0),
        decreases n - i,
    {
        let ghost before = out@;
        match apply_rule(rule, &text, content, i, &mut out) {
            Some(e) => {
                assert(texts(out@) + scan(rule, text@, e as int) =~= texts(before) + scan(
                    rule,
                    text@,
                    i as int,
                ));
                i = e;
            },
            None => {
                i = i + 1;
            },
        }
    }
    assert(texts(out@) =~= texts(out@) + scan(rule, text@, i as int));
    out
}

} // verus!
