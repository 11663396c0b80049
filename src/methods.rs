//! Functions found in a file with their signature, documentation and code,
//! for the pages that describe a module.
use vstd::prelude::*;

use crate::functions::{ident_end, skip_ident};
use crate::search::lower_of;
use crate::summary::{contains_chars, has, infer_function_purpose_simple, purpose_text, MethodInfo};
use crate::text::{
    chars_of, find_char, matches_at, next_char, occurs_at, skip_space, slice_string,
    space_end, str_is, texts,
};
use crate::wiki::{line_bounds, lines_of};

verus! {

/// A declaration at `i`: the keyword `kw`, whitespace, a name, optional
/// whitespace, a parenthesised list without `)`, optional whitespace, and
/// then, for Python, `:`; otherwise either `{`, or the return marker `ret`
/// followed by at least one character before the next `{`. Gives the bounds
/// of the name and where the declaration ends.
pub open spec fn signature_at(s: Seq<char>, i: int, kw: Seq<char>, ret: Seq<char>, python: bool) -> Option<
    (int, int, int),
> {
    if occurs_at(s, i, kw) {
        let w = space_end(s, i + kw.len());
        let e = ident_end(s, w);
        let p = space_end(s, e);
        if w > i + kw.len() && e > w && p < s.len() && s[p] == '(' {
            let c = find_char(s, p + 1, ')');
            let q = space_end(s, c + 1);
            if c >= s.len() {
                None
            } else if python {
                if q < s.len() && s[q] == ':' {
                    Some((w, e, q + 1))
                } else {
                    None
                }
            } else if occurs_at(s, q, ret) {
                let b = find_char(s, q + ret.len(), '{');
                if q + ret.len() < b < s.len() {
                    Some((w, e, b + 1))
                } else {
                    None
                }
            } else if q < s.len() && s[q] == '{' {
                Some((w, e, q + 1))
            } else {
                None
            }
        } else {
            None
        }
    } else {
        None
    }
}

/// The names of the declarations from position `i` of `s` on.
pub open spec fn signatures_from(s: Seq<char>, i: int, kw: Seq<char>, ret: Seq<char>, python: bool) -> Seq<
    Seq<char>,
>
    decreases s.len() - i,
{
    if i < 0 || i >= s.len() {
        seq![]
    } else {
        match signature_at(s, i, kw, ret, python) {
            Some((w, e, z)) if i < z <= s.len() => seq![s.subrange(w, e)] + signatures_from(
                s,
                z,
                kw,
                ret,
                python,
            ),
            _ => signatures_from(s, i + 1, kw, ret, python),
        }
    }
}

/// The number of leading whitespace characters of a line.
pub open spec fn indent_of(l: Seq<char>) -> int {
    space_end(l, 0)
}

/// Whether a line holds only whitespace.
pub open spec fn is_blank(l: Seq<char>) -> bool {
    space_end(l, 0) == l.len()
}

/// How many times `c` occurs in `l`.
pub open spec fn count_char(l: Seq<char>, c: char) -> int
    decreases l.len(),
{
    if l.len() == 0 {
        0
    } else {
        count_char(l.drop_last(), c) + if l.last() == c {
            1int
        } else {
            0int
        }
    }
}

/// The lines of a declaration from line `k` on. A line that holds the
/// pattern starts the declaration afresh. For brace languages the
/// declaration ends on the line where the braces since its start balance,
/// once it has two lines; for Python it ends before the first later line
/// that is not blank and not indented past its first line.
pub open spec fn code_lines(
    ls: Seq<Seq<char>>,
    k: int,
    pat: Seq<char>,
    braces: bool,
    python: bool,
    in_method: bool,
    depth: int,
    acc: Seq<Seq<char>>,
) -> Seq<Seq<char>>
    decreases ls.len() - k,
{
    if k < 0 || k >= ls.len() {
        acc
    } else {
        let l = ls[k];
        let starts = has(l, pat);
        let inm = starts || in_method;
        let d = if starts {
            0
        } else {
            depth
        };
        let acc0 = acc;
        if !inm {
            code_lines(ls, k + 1, pat, braces, python, false, d, acc0)
        } else {
            let acc2 = acc0.push(l);
            if braces {
                let d2 = d + count_char(l, '{') - count_char(l, '}');
                if d2 == 0 && acc2.len() > 1 {
                    acc2
                } else {
                    code_lines(ls, k + 1, pat, braces, python, true, d2, acc2)
                }
            } else if python && acc2.len() > 1 && indent_of(l) <= indent_of(acc2[0]) && !is_blank(l) {
                acc0
            } else {
                code_lines(ls, k + 1, pat, braces, python, true, d, acc2)
            }
        }
    }
}

/// The lines joined with line breaks between them.
pub open spec fn join_lines(ls: Seq<Seq<char>>) -> Seq<char>
    decreases ls.len(),
{
    if ls.len() == 0 {
        seq![]
    } else if ls.len() == 1 {
        ls[0]
    } else {
        join_lines(ls.drop_last()) + "\n"@ + ls.last()
    }
}

/// Whether a line, its leading whitespace aside, starts with `///`.
pub open spec fn is_doc_line(l: Seq<char>) -> bool {
    occurs_at(l, space_end(l, 0), seq!['/', '/', '/'])
}

/// The end of the run of `///` that starts at `i`.
pub open spec fn slashes_end(l: Seq<char>, i: int) -> int
    decreases l.len() - i,
{
    if 0 <= i && occurs_at(l, i, seq!['/', '/', '/']) {
        slashes_end(l, i + 3)
    } else {
        i
    }
}

/// The text of a documentation line: after its leading whitespace and every
/// leading `///`, trimmed.
pub open spec fn doc_text(l: Seq<char>) -> Seq<char> {
    let a = slashes_end(l, space_end(l, 0));
    l.subrange(crate::deps::lead_end(l, a, l.len() as int), crate::deps::trail_start(
        l,
        crate::deps::lead_end(l, a, l.len() as int),
        l.len() as int,
    ))
}

/// The documentation gathered upwards from line `j`: each `///` line's
/// text and a line break, over `///` lines and blank lines, stopping at the
/// first other line or at the first line of the file.
pub open spec fn doc_above(ls: Seq<Seq<char>>, j: int) -> Seq<char>
    decreases j,
{
    if j > 0 && j < ls.len() && (is_doc_line(ls[j]) || is_blank(ls[j])) {
        (if is_doc_line(ls[j]) {
            doc_text(ls[j]) + "\n"@
        } else {
            seq![]
        }) + doc_above(ls, j - 1)
    } else {
        seq![]
    }
}

/// The first line from `k` on that holds `pat`.
pub open spec fn first_line_with(ls: Seq<Seq<char>>, pat: Seq<char>, k: int) -> Option<int>
    decreases ls.len() - k,
{
    if k < 0 || k >= ls.len() {
        None
    } else if has(ls[k], pat) {
        Some(k)
    } else {
        first_line_with(ls, pat, k + 1)
    }
}

/// The trimmed text.
pub open spec fn trimmed(s: Seq<char>) -> Seq<char> {
    s.subrange(crate::deps::lead_end(s, 0, s.len() as int), crate::deps::trail_start(
        s,
        crate::deps::lead_end(s, 0, s.len() as int),
        s.len() as int,
    ))
}

/// The documentation of a Rust function: the `///` lines above the first
/// line that holds `fn` and its name, nearest first, trimmed.
pub open spec fn rust_doc(content: Seq<char>, name: Seq<char>) -> Seq<char> {
    let ls = lines_of(content);
    match first_line_with(ls, "fn "@ + name, 0) {
        Some(i) => trimmed(doc_above(ls, if i > 0 {
            i - 1
        } else {
            0
        })),
        None => seq![],
    }
}

/// The code of a function, by the lines of the text.
pub open spec fn method_code(content: Seq<char>, name: Seq<char>, language: Seq<char>) -> Seq<char> {
    let braces = language == "rs"@ || language == "ts"@ || language == "js"@;
    let python = language == "py"@;
    let pat = if language == "rs"@ {
        "fn "@ + name
    } else if language == "ts"@ || language == "js"@ {
        "function "@ + name
    } else if python {
        "def "@ + name
    } else {
        name
    };
    join_lines(code_lines(lines_of(content), 0, pat, braces, python, false, 0, seq![]))
}

fn signature(text: &Vec<char>, i: usize, kw: &[char], ret: &[char], python: bool) -> (r: Option<
    (usize, usize, usize),
>)
    requires
        i <= text@.len(),
    ensures
        match r {
            Some((w, e, z)) => signature_at(text@, i as int, kw@, ret@, python) == Some(
                (w as int, e as int, z as int),
            ) && w <= e <= text@.len() && i < z <= text@.len(),
            None => signature_at(text@, i as int, kw@, ret@, python) is None,
        },
{
    let n: usize = text.len();
    if !matches_at(text, i, kw) {
        return None;
    }
    let k: usize = i + kw.len();
    let w = skip_space(text, k);
    let e = skip_ident(text, w);
    let p = skip_space(text, e);
    if !(w > k && e > w && p < n && text[p] == '(') {
        return None;
    }
    let c = next_char(text, p + 1, ')');
    if c >= n {
        return None;
    }
    let q = skip_space(text, c + 1);
    if python {
        if q < n && text[q] == ':' {
            Some((w, e, q + 1))
        } else {
            None
        }
    } else if matches_at(text, q, ret) {
        let b = next_char(text, q + ret.len(), '{');
        if q + ret.len() < b && b < n {
            Some((w, e, b + 1))
        } else {
            None
        }
    } else if q < n && text[q] == '{' {
        Some((w, e, q + 1))
    } else {
        None
    }
}

fn signature_names(text: &Vec<char>, content: &str, kw: &[char], ret: &[char], python: bool) -> (r:
    Vec<String>)
    requires
        text@ == content@,
    ensures
        texts(r@) == signatures_from(text@, 0, kw@, ret@, python),
{
    let n: usize = text.len();
    let mut out: Vec<String> = Vec::new();
    let mut i: usize = 0;
    assert(texts(out@) + signatures_from(text@, 0, kw@, ret@, python) =~= signatures_from(
        text@,
        0,
        kw@,
        ret@,
        python,
    ));
    while i < n
        invariant
            n == text@.len(),
            text@ == content@,
            i <= n,
            texts(out@) + signatures_from(text@, i as int, kw@, ret@, python) == signatures_from(
                text@,
                0,
                kw@,
                ret@,
                python,
            ),
        decreases n - i,
    {
        match signature(text, i, kw, ret, python) {
            Some((w, e, z)) => {
                let ghost before = out@;
                out.push(slice_string(content, w, e));
                assert(texts(out@) =~= texts(before).push(text@.subrange(w as int, e as int)));
                assert(texts(out@) + signatures_from(text@, z as int, kw@, ret@, python) =~= texts(
                    before,
                ) + signatures_from(text@, i as int, kw@, ret@, python));
                i = z;
            },
            None => {
                i += 1;
            },
        }
    }
    assert(texts(out@) =~= texts(out@) + signatures_from(text@, i as int, kw@, ret@, python));
    out
}

/// The views of a sequence of character vectors.
pub open spec fn line_views(v: Seq<Vec<char>>) -> Seq<Seq<char>> {
    v.map_values(|t: Vec<char>| t@)
}

/// The lines of a text: where each stands in the text, and its characters.
fn lines_vec(text: &Vec<char>) -> (r: (Vec<(usize, usize)>, Vec<Vec<char>>))
    ensures
        line_views(r.1@) == lines_of(text@),
        r.0@.len() == r.1@.len(),
        forall|k: int| 0 < k < r.0@.len() ==> r.0@[k - 1].1 <= (#[trigger] r.0@[k]).0,
        forall|j: int|
            0 <= j < r.0@.len() ==> (#[trigger] r.0@[j]).0 <= r.0@[j].1 <= text@.len()
                && text@.subrange(r.0@[j].0 as int, r.0@[j].1 as int) == lines_of(text@)[j],
{
    let bounds = line_bounds(text);
    let mut out: Vec<Vec<char>> = Vec::new();
    let mut k: usize = 0;
    while k < bounds.len()
        invariant
            k <= bounds@.len(),
            bounds@.len() == lines_of(text@).len(),
            forall|j: int|
                0 <= j < bounds@.len() ==> (#[trigger] bounds@[j]).0 <= bounds@[j].1 <= text@.len()
                    && text@.subrange(bounds@[j].0 as int, bounds@[j].1 as int) == lines_of(text@)[j],
            line_views(out@) == lines_of(text@).take(k as int),
        decreases bounds.len() - k,
    {
        let (a, b) = bounds[k];
        let ghost before = out@;
        out.push(crate::search::sub_chars(text, a, b));
        assert(line_views(out@) =~= line_views(before).push(lines_of(text@)[k as int]));
        assert(lines_of(text@).take(k + 1) =~= lines_of(text@).take(k as int).push(
            lines_of(text@)[k as int],
        ));
        k += 1;
    }
    assert(lines_of(text@).take(k as int) =~= lines_of(text@));
    (bounds, out)
}

fn is_blank_line(l: &Vec<char>) -> (r: bool)
    ensures
        r == is_blank(l@),
{
    skip_space(l, 0) == l.len()
}

fn is_doc(l: &Vec<char>) -> (r: bool)
    ensures
        r == is_doc_line(l@),
{
    let a = skip_space(l, 0);
    matches_at(l, a, &['/', '/', '/'])
}

fn skip_slashes(l: &Vec<char>, i: usize) -> (r: usize)
    requires
        i <= l@.len(),
    ensures
        r == slashes_end(l@, i as int),
        i <= r <= l@.len(),
{
    let n: usize = l.len();
    let mut j: usize = i;
    while matches_at(l, j, &['/', '/', '/'])
        invariant
            n == l@.len(),
            i <= j <= n,
            slashes_end(l@, j as int) == slashes_end(l@, i as int),
        decreases n - j,
    {
        j = j + 3;
    }
    j
}

/// The characters `a..b` of `line`, which stands at `start` in `content`.
fn line_part<'a>(content: &'a str, start: usize, line: &Vec<char>, a: usize, b: usize) -> (r: &'a str)
    requires
        a <= b <= line@.len(),
        content@.len() <= usize::MAX,
        start + line@.len() <= content@.len(),
        content@.subrange(start as int, start + line@.len()) == line@,
    ensures
        r@ == line@.subrange(a as int, b as int),
{
    assert(content@.subrange(start + a, start + b) =~= line@.subrange(a as int, b as int)) by {
        assert forall|k: int| 0 <= k < b - a implies content@.subrange(start + a, start + b)[k]
            == line@.subrange(a as int, b as int)[k] by {
            assert(content@.subrange(start as int, start + line@.len())[a + k] == content@[start + a
                + k]);
        }
    }
    content.substring_char(start + a, start + b)
}

/// Appends the documentation gathered upwards from line `j`.
fn push_doc_above(
    out: &mut String,
    content: &str,
    bounds: &Vec<(usize, usize)>,
    lines: &Vec<Vec<char>>,
    j: usize,
)
    requires
        content@.len() <= usize::MAX,
        bounds@.len() == lines@.len(),
        forall|k: int|
            0 <= k < bounds@.len() ==> (#[trigger] bounds@[k]).0 <= bounds@[k].1 <= content@.len()
                && content@.subrange(bounds@[k].0 as int, bounds@[k].1 as int) == lines@[k]@,
    ensures
        final(out)@ == old(out)@ + doc_above(line_views(lines@), j as int),
{
    let ghost ls = line_views(lines@);
    let mut k: usize = j;
    while k > 0 && k < lines.len() && (is_doc(&lines[k]) || is_blank_line(&lines[k]))
        invariant
            k <= j,
            content@.len() <= usize::MAX,
            ls == line_views(lines@),
            bounds@.len() == lines@.len(),
            forall|m: int|
                0 <= m < bounds@.len() ==> (#[trigger] bounds@[m]).0 <= bounds@[m].1
                    <= content@.len() && content@.subrange(bounds@[m].0 as int, bounds@[m].1 as int)
                    == lines@[m]@,
            old(out)@ + doc_above(ls, j as int) == out@ + doc_above(ls, k as int),
        decreases k,
    {
        let ghost before = out@;
        let l = &lines[k];
        if is_doc(l) {
            let n: usize = l.len();
            let a = skip_slashes(l, skip_space(l, 0));
            let lo = crate::deps::skip_lead(l, a, n);
            let hi = crate::deps::skip_trail(l, lo, n);
            let (start, end) = bounds[k];
            assert(ls[k as int] == l@);
            out.append(line_part(content, start, l, lo, hi));
            out.append("\n");
            assert(out@ =~= before + doc_text(l@) + "\n"@);
        }
        assert(before + doc_above(ls, k as int) =~= out@ + doc_above(ls, k - 1));
        k -= 1;
    }
    assert(doc_above(ls, k as int) =~= seq![]);
    assert(out@ + doc_above(ls, k as int) =~= out@);
}

/// The text without leading and trailing whitespace.
fn trim_string(s: &str) -> (r: String)
    ensures
        r@ == trimmed(s@),
{
    let t = chars_of(s);
    let n: usize = t.len();
    let lo = crate::deps::skip_lead(&t, 0, n);
    let hi = crate::deps::skip_trail(&t, lo, n);
    slice_string(s, lo, hi)
}

pub proof fn lemma_count_char_bound(l: Seq<char>, c: char)
    ensures
        0 <= count_char(l, c) <= l.len(),
    decreases l.len(),
{
    if l.len() > 0 {
        lemma_count_char_bound(l.drop_last(), c);
    }
}

fn count_in_line(l: &Vec<char>, c: char) -> (r: usize)
    ensures
        r == count_char(l@, c),
{
    let mut k: usize = 0;
    let mut r: usize = 0;
    while k < l.len()
        invariant
            k <= l@.len(),
            r == count_char(l@.take(k as int), c),
        decreases l.len() - k,
    {
        assert(l@.take(k + 1).drop_last() =~= l@.take(k as int));
        proof {
            lemma_count_char_bound(l@.take(k as int), c);
        }
        if l[k] == c {
            r = r + 1;
        }
        k += 1;
    }
    assert(l@.take(k as int) =~= l@);
    r
}

/// The lines at the given positions.
pub open spec fn picked(ls: Seq<Seq<char>>, idx: Seq<usize>) -> Seq<Seq<char>> {
    idx.map_values(|i: usize| ls[i as int])
}

/// The code of the declaration that `pat` starts, joined from its lines.
fn code_of(
    content: &str,
    bounds: &Vec<(usize, usize)>,
    lines: &Vec<Vec<char>>,
    pat: &Vec<char>,
    braces: bool,
    python: bool,
) -> (r: String)
    requires
        content@.len() <= usize::MAX,
        bounds@.len() == lines@.len(),
        forall|k: int|
            0 <= k < bounds@.len() ==> (#[trigger] bounds@[k]).0 <= bounds@[k].1 <= content@.len()
                && content@.subrange(bounds@[k].0 as int, bounds@[k].1 as int) == lines@[k]@,
        forall|k: int| 0 < k < bounds@.len() ==> bounds@[k - 1].1 <= (#[trigger] bounds@[k]).0,
    ensures
        r@ == join_lines(code_lines(line_views(lines@), 0, pat@, braces, python, false, 0, seq![])),
{
    let ghost ls = line_views(lines@);
    let ghost goal = code_lines(ls, 0, pat@, braces, python, false, 0, seq![]);
    let mut acc: Vec<usize> = Vec::new();
    let mut in_method = false;
    let mut depth: i128 = 0;
    let mut k: usize = 0;
    assert(picked(ls, acc@) =~= seq![]);
    while k < lines.len()
        invariant_except_break
            k <= lines@.len(),
            -(if k == 0 { 0 } else { bounds@[k - 1].1 as int }) <= depth <= (if k == 0 { 0 } else { bounds@[k - 1].1 as int }),
            goal == code_lines(ls, k as int, pat@, braces, python, in_method, depth as int, picked(ls, acc@)),
        invariant
            ls == line_views(lines@),
            bounds@.len() == lines@.len(),
            content@.len() <= usize::MAX,
            forall|m: int|
                0 <= m < bounds@.len() ==> (#[trigger] bounds@[m]).0 <= bounds@[m].1
                    <= content@.len() && content@.subrange(bounds@[m].0 as int, bounds@[m].1 as int)
                    == lines@[m]@,
            forall|m: int| 0 < m < bounds@.len() ==> bounds@[m - 1].1 <= (#[trigger] bounds@[m]).0,
            forall|m: int| 0 <= m < acc@.len() ==> (#[trigger] acc@[m]) < lines@.len(),
        ensures
            goal == picked(ls, acc@),
        decreases lines.len() - k,
    {
        let l = &lines[k];
        assert(ls[k as int] == l@);
        let starts = contains_chars(l, pat.as_slice());
        let inm = starts || in_method;
        let d: i128 = if starts {
            0
        } else {
            depth
        };
        if !inm {
            in_method = false;
            depth = d;
        } else {
            let ghost acc0 = picked(ls, acc@);
            acc.push(k);
            assert(picked(ls, acc@) =~= acc0.push(l@));
            if braces {
                let opens = count_in_line(l, '{');
                let closes = count_in_line(l, '}');
                proof {
                    lemma_count_char_bound(l@, '{');
                    lemma_count_char_bound(l@, '}');
                    assert(l@.len() == bounds@[k as int].1 - bounds@[k as int].0) by {
                        assert(content@.subrange(bounds@[k as int].0 as int, bounds@[k as int].1 as int).len() == l@.len());
                    }
                }
                let d2: i128 = d + opens as i128 - closes as i128;
                if d2 == 0 && acc.len() > 1 {
                    break;
                }
                in_method = true;
                depth = d2;
            } else if python && acc.len() > 1 && indent_len(l) <= indent_len(&lines[acc[0]])
                && !is_blank_line(l) {
                acc.pop();
                assert(picked(ls, acc@) =~= acc0);
                break;
            } else {
                in_method = true;
                depth = d;
            }
        }
        k += 1;
    }
    join_picked(content, bounds, lines, &acc)
}

fn indent_len(l: &Vec<char>) -> (r: usize)
    ensures
        r == indent_of(l@),
{
    skip_space(l, 0)
}

/// The picked lines joined with line breaks.
fn join_picked(content: &str, bounds: &Vec<(usize, usize)>, lines: &Vec<Vec<char>>, idx: &Vec<usize>) -> (r:
    String)
    requires
        content@.len() <= usize::MAX,
        bounds@.len() == lines@.len(),
        forall|k: int|
            0 <= k < bounds@.len() ==> (#[trigger] bounds@[k]).0 <= bounds@[k].1 <= content@.len()
                && content@.subrange(bounds@[k].0 as int, bounds@[k].1 as int) == lines@[k]@,
        forall|m: int| 0 <= m < idx@.len() ==> (#[trigger] idx@[m]) < lines@.len(),
    ensures
        r@ == join_lines(picked(line_views(lines@), idx@)),
{
    let ghost ls = line_views(lines@);
    let mut out = String::new();
    let mut m: usize = 0;
    while m < idx.len()
        invariant
            m <= idx@.len(),
            ls == line_views(lines@),
            content@.len() <= usize::MAX,
            bounds@.len() == lines@.len(),
            forall|k: int|
                0 <= k < bounds@.len() ==> (#[trigger] bounds@[k]).0 <= bounds@[k].1
                    <= content@.len() && content@.subrange(bounds@[k].0 as int, bounds@[k].1 as int)
                    == lines@[k]@,
            forall|j: int| 0 <= j < idx@.len() ==> (#[trigger] idx@[j]) < lines@.len(),
            out@ == join_lines(picked(ls, idx@.take(m as int))),
        decreases idx.len() - m,
    {
        let i = idx[m];
        let (a, b) = bounds[i];
        assert(picked(ls, idx@.take(m + 1)) =~= picked(ls, idx@.take(m as int)).push(ls[i as int]));
        assert(picked(ls, idx@.take(m + 1)).drop_last() =~= picked(ls, idx@.take(m as int)));
        if m > 0 {
            out.append("\n");
        }
        let ghost before = out@;
        let l = &lines[i];
        out.append(line_part(content, a, l, 0, l.len()));
        assert(l@.subrange(0, l@.len() as int) =~= l@);
        assert(out@ =~= join_lines(picked(ls, idx@.take(m + 1))));
        m += 1;
    }
    assert(idx@.take(m as int) =~= idx@);
    out
}

/// `prefix` followed by the characters of `name`.
fn prefixed(prefix: &[char], name: &str) -> (r: Vec<char>)
    ensures
        r@ == prefix@ + name@,
{
    let mut out: Vec<char> = Vec::new();
    let mut k: usize = 0;
    while k < prefix.len()
        invariant
            k <= prefix@.len(),
            out@ == prefix@.take(k as int),
        decreases prefix.len() - k,
    {
        out.push(prefix[k]);
        assert(out@ =~= prefix@.take(k + 1));
        k += 1;
    }
    let tail = chars_of(name);
    let mut j: usize = 0;
    while j < tail.len()
        invariant
            j <= tail@.len(),
            tail@ == name@,
            out@ == prefix@ + name@.take(j as int),
        decreases tail.len() - j,
    {
        out.push(tail[j]);
        assert(out@ =~= prefix@ + name@.take(j + 1));
        j += 1;
    }
    assert(prefix@.take(k as int) =~= prefix@);
    assert(name@.take(j as int) =~= name@);
    out
}

/// The documentation of a Rust function named `name`.
fn rust_doc_of(content: &str, bounds: &Vec<(usize, usize)>, lines: &Vec<Vec<char>>, name: &str) -> (r:
    String)
    requires
        content@.len() <= usize::MAX,
        bounds@.len() == lines@.len(),
        line_views(lines@) == lines_of(content@),
        forall|k: int|
            0 <= k < bounds@.len() ==> (#[trigger] bounds@[k]).0 <= bounds@[k].1 <= content@.len()
                && content@.subrange(bounds@[k].0 as int, bounds@[k].1 as int) == lines@[k]@,
    ensures
        r@ == rust_doc(content@, name@),
{
    let ghost ls = line_views(lines@);
    proof {
        reveal_strlit("fn ");
    }
    let fn_kw = ['f', 'n', ' '];
    assert(fn_kw@ =~= "fn "@);
    let pat = prefixed(&fn_kw, name);
    let mut k: usize = 0;
    while k < lines.len()
        invariant
            k <= lines@.len(),
            ls == line_views(lines@),
            ls == lines_of(content@),
            content@.len() <= usize::MAX,
            bounds@.len() == lines@.len(),
            forall|m: int|
                0 <= m < bounds@.len() ==> (#[trigger] bounds@[m]).0 <= bounds@[m].1
                    <= content@.len() && content@.subrange(bounds@[m].0 as int, bounds@[m].1 as int)
                    == lines@[m]@,
            pat@ == "fn "@ + name@,
            first_line_with(ls, pat@, 0) == first_line_with(ls, pat@, k as int),
        decreases lines.len() - k,
    {
        assert(ls[k as int] == lines@[k as int]@);
        if contains_chars(&lines[k], pat.as_slice()) {
            let mut doc = String::new();
            let j: usize = if k > 0 {
                k - 1
            } else {
                0
            };
            push_doc_above(&mut doc, content, bounds, lines, j);
            assert(doc@ =~= doc_above(ls, j as int));
            return trim_string(doc.as_str());
        }
        k += 1;
    }
    String::new()
}

/// What is found of each function: name, language, documentation and code.
pub open spec fn method_view(m: MethodInfo) -> (Seq<char>, Seq<char>, Seq<char>, Seq<char>) {
    (m.name@, m.language@, m.documentation@, m.code_snippet@)
}

/// The functions of a text in a language: Rust functions with their `///`
/// documentation; TypeScript, JavaScript and Python functions with what
/// their names suggest; each with its code.
pub open spec fn methods_spec(content: Seq<char>, language: Seq<char>) -> Seq<
    (Seq<char>, Seq<char>, Seq<char>, Seq<char>),
> {
    if language == "rs"@ {
        signatures_from(content, 0, "fn"@, "->"@, false).map_values(
            |n: Seq<char>| (n, language, rust_doc(content, n), method_code(content, n, language)),
        )
    } else if language == "ts"@ || language == "js"@ {
        signatures_from(content, 0, "function"@, ":"@, false).map_values(
            |n: Seq<char>|
                (n, language, purpose_text(lower_of(n), n), method_code(content, n, language)),
        )
    } else if language == "py"@ {
        signatures_from(content, 0, "def"@, seq![], true).map_values(
            |n: Seq<char>|
                (n, language, purpose_text(lower_of(n), n), method_code(content, n, language)),
        )
    } else {
        seq![]
    }
}

/// The functions of a text in a language, with their documentation and code.
pub fn extract_methods_detailed(content: &str, language: &str) -> (r: Vec<MethodInfo>)
    ensures
        r@.map_values(|m: MethodInfo| method_view(m)) == methods_spec(content@, language@),
{
    let text = chars_of(content);
    let text_len: usize = text.len();
    let (bounds, lines) = lines_vec(&text);
    proof {
        reveal_strlit("rs");
        reveal_strlit("ts");
        reveal_strlit("js");
        reveal_strlit("py");
        reveal_strlit("fn");
        reveal_strlit("->");
        reveal_strlit("function");
        reveal_strlit(":");
        reveal_strlit("def");
        reveal_strlit("fn ");
        reveal_strlit("function ");
        reveal_strlit("def ");
    }
    let rs = ['r', 's'];
    let ts = ['t', 's'];
    let js = ['j', 's'];
    let py = ['p', 'y'];
    assert(rs@ =~= "rs"@);
    assert(ts@ =~= "ts"@);
    assert(js@ =~= "js"@);
    assert(py@ =~= "py"@);
    assert("py"@[0] != "rs"@[0] && "py"@[0] != "ts"@[0] && "py"@[0] != "js"@[0]);
    assert("rs"@[0] != "ts"@[0] && "rs"@[0] != "js"@[0]);
    let is_rs = str_is(language, &rs);
    let is_script = str_is(language, &ts) || str_is(language, &js);
    let is_py = str_is(language, &py);
    let mut out: Vec<MethodInfo> = Vec::new();
    if !(is_rs || is_script || is_py) {
        assert(out@.map_values(|m: MethodInfo| method_view(m)) =~= seq![]);
        return out;
    }
    let fn_kw = ['f', 'n'];
    let arrow = ['-', '>'];
    let function_kw = ['f', 'u', 'n', 'c', 't', 'i', 'o', 'n'];
    let colon = [':'];
    let def_kw = ['d', 'e', 'f'];
    let none: [char; 0] = [];
    assert(fn_kw@ =~= "fn"@);
    assert(arrow@ =~= "->"@);
    assert(function_kw@ =~= "function"@);
    assert(colon@ =~= ":"@);
    assert(def_kw@ =~= "def"@);
    assert(none@ =~= seq![]);
    let names = if is_rs {
        signature_names(&text, content, &fn_kw, &arrow, false)
    } else if is_script {
        signature_names(&text, content, &function_kw, &colon, false)
    } else {
        signature_names(&text, content, &def_kw, &none, true)
    };
    let fn_sp = ['f', 'n', ' '];
    let function_sp = ['f', 'u', 'n', 'c', 't', 'i', 'o', 'n', ' '];
    let def_sp = ['d', 'e', 'f', ' '];
    assert(fn_sp@ =~= "fn "@);
    assert(function_sp@ =~= "function "@);
    assert(def_sp@ =~= "def "@);
    let ghost goal = methods_spec(content@, language@);
    let mut k: usize = 0;
    while k < names.len()
        invariant
            k <= names@.len(),
            is_rs == (language@ == "rs"@),
            is_script == (language@ == "ts"@ || language@ == "js"@),
            is_py == (language@ == "py"@),
            is_rs || is_script || is_py,
            "py"@ != "rs"@ && "py"@ != "ts"@ && "py"@ != "js"@ && "rs"@ != "ts"@ && "rs"@ != "js"@,
            fn_sp@ == "fn "@,
            function_sp@ == "function "@,
            def_sp@ == "def "@,
            goal == methods_spec(content@, language@),
            goal.len() == names@.len(),
            text@ == content@,
            content@.len() <= usize::MAX,
            bounds@.len() == lines@.len(),
            line_views(lines@) == lines_of(text@),
            forall|m: int|
                0 <= m < bounds@.len() ==> (#[trigger] bounds@[m]).0 <= bounds@[m].1
                    <= text@.len() && text@.subrange(bounds@[m].0 as int, bounds@[m].1 as int)
                    == lines_of(text@)[m],
            forall|m: int| 0 < m < bounds@.len() ==> bounds@[m - 1].1 <= (#[trigger] bounds@[m]).0,
            forall|m: int| 0 <= m < names@.len() ==> goal[m].0 == (#[trigger] names@[m])@,
            forall|m: int| 0 <= m < names@.len() ==> goal[m] == (names@[m]@, language@, (#[trigger] goal[m]).2, method_code(content@, names@[m]@, language@)),
            is_rs ==> forall|m: int| 0 <= m < names@.len() ==> (#[trigger] goal[m]).2 == rust_doc(content@, names@[m]@),
            !is_rs ==> forall|m: int| 0 <= m < names@.len() ==> (#[trigger] goal[m]).2 == purpose_text(lower_of(names@[m]@), names@[m]@),
            out@.map_values(|m: MethodInfo| method_view(m)) == goal.take(k as int),
        decreases names.len() - k,
    {
        let name = names[k].as_str();
        assert(forall|m: int| 0 <= m < bounds@.len() ==> lines@[m]@ == lines_of(text@)[m]) by {
            assert forall|m: int| 0 <= m < bounds@.len() implies lines@[m]@ == lines_of(text@)[m] by {
                assert(line_views(lines@)[m] == lines@[m]@);
            }
        }
        let documentation = if is_rs {
            rust_doc_of(content, &bounds, &lines, name)
        } else {
            infer_function_purpose_simple(name)
        };
        let pat = if is_rs {
            prefixed(&fn_sp, name)
        } else if is_script {
            prefixed(&function_sp, name)
        } else {
            prefixed(&def_sp, name)
        };
        let code_snippet = code_of(content, &bounds, &lines, &pat, true && !is_py, is_py);
        assert(documentation@ == goal[k as int].2);
        assert(code_snippet@ == method_code(content@, names@[k as int]@, language@));
        let ghost before = out@;
        out.push(
            MethodInfo {
                name: String::from_str(name),
                language: String::from_str(language),
                documentation,
                code_snippet,
            },
        );
        assert(out@.map_values(|m: MethodInfo| method_view(m)) =~= before.map_values(
            |m: MethodInfo| method_view(m),
        ).push(goal[k as int]));
        assert(goal.take(k + 1) =~= goal.take(k as int).push(goal[k as int]));
        k += 1;
    }
    assert(goal.take(k as int) =~= goal);
    out
}

} // verus!
