//! Heuristic extraction of function names from source text, by language.
use vstd::prelude::*;

use crate::text::{
    chars_of, matches_at, occurs_at, skip_space, slice_string, space_end, str_is, texts,
};

verus! {

/// An identifier character: an ASCII letter or digit, or `_`.
pub open spec fn spec_is_word(c: char) -> bool {
    ('a' <= c && c <= 'z') || ('A' <= c && c <= 'Z') || ('0' <= c && c <= '9') || c == '_'
}

/// The end of the run of identifier characters that starts at `i`.
pub open spec fn ident_end(s: Seq<char>, i: int) -> int
    decreases s.len() - i,
{
    if 0 <= i < s.len() && spec_is_word(s[i]) {
        ident_end(s, i + 1)
    } else {
        i
    }
}

/// The rules that find function names.
#[derive(Clone, Copy, PartialEq, Eq, Debug)]
pub enum FnRule {
    /// `function name`
    Function,
    /// `const name = (...) =>` or `let name = async (...) =>`
    Arrow,
    /// `def name`
    Def,
    /// `func name`
    Func,
    /// `fn name`
    Fn,
}

/// The keyword that opens a declaration under `rule`.
pub open spec fn keyword(rule: FnRule) -> Seq<char> {
    match rule {
        FnRule::Function => seq!['f', 'u', 'n', 'c', 't', 'i', 'o', 'n'],
        FnRule::Def => seq!['d', 'e', 'f'],
        FnRule::Func => seq!['f', 'u', 'n', 'c'],
        FnRule::Fn => seq!['f', 'n'],
        FnRule::Arrow => seq!['c', 'o', 'n', 's', 't'],
    }
}

/// A keyword `kw` at `i`, whitespace, and a name: the bounds of the name.
pub open spec fn keyword_name_at(s: Seq<char>, i: int, kw: Seq<char>) -> Option<(int, int)> {
    if occurs_at(s, i, kw) {
        let w = space_end(s, i + kw.len());
        let e = ident_end(s, w);
        if w > i + kw.len() && e > w {
            Some((w, e))
        } else {
            None
        }
    } else {
        None
    }
}

/// After a name at `e`: optional whitespace, `=`, optional whitespace, an
/// optional `async` with whitespace, a parenthesised list without `)`,
/// optional whitespace and `=>`; where the text goes on after the arrow.
pub open spec fn arrow_tail(s: Seq<char>, e: int) -> Option<int> {
    let a = space_end(s, e);
    if 0 <= a < s.len() && s[a] == '=' {
        let b = space_end(s, a + 1);
        let after_async = space_end(s, b + 5);
        let p = if occurs_at(s, b, seq!['a', 's', 'y', 'n', 'c']) && after_async > b + 5
            && after_async < s.len() && s[after_async] == '(' {
            after_async
        } else {
            b
        };
        if 0 <= p < s.len() && s[p] == '(' {
            let c = crate::text::find_char(s, p + 1, ')');
            let d = space_end(s, c + 1);
            if c < s.len() && occurs_at(s, d, seq!['=', '>']) {
                Some(d + 2)
            } else {
                None
            }
        } else {
            None
        }
    } else {
        None
    }
}

/// The name that `rule` finds at `i`, and where scanning resumes.
pub open spec fn fn_step(rule: FnRule, s: Seq<char>, i: int) -> Option<(int, int, int)> {
    match rule {
        FnRule::Arrow => {
            let named = match keyword_name_at(s, i, seq!['c', 'o', 'n', 's', 't']) {
                Some(x) => Some(x),
                None => keyword_name_at(s, i, seq!['l', 'e', 't']),
            };
            match named {
                Some((w, e)) => match arrow_tail(s, e) {
                    Some(z) => Some((w, e, z)),
                    None => None,
                },
                None => None,
            }
        },
        _ => match keyword_name_at(s, i, keyword(rule)) {
            Some((w, e)) => Some((w, e, e)),
            None => None,
        },
    }
}

/// The names that `rule` finds from position `i` of `s` on.
pub open spec fn fn_scan(rule: FnRule, s: Seq<char>, i: int) -> Seq<Seq<char>>
    decreases s.len() - i,
{
    if i < 0 || i >= s.len() {
        seq![]
    } else {
        match fn_step(rule, s, i) {
            Some((w, e, z)) if i < z <= s.len() => seq![s.subrange(w, e)] + fn_scan(rule, s, z),
            _ => fn_scan(rule, s, i + 1),
        }
    }
}

/// The function names of a text in a language, in the order the rules find
/// them: for TypeScript and JavaScript the `function` declarations, then the
/// arrow functions bound by `const` or `let`.
pub open spec fn functions_spec(content: Seq<char>, language: Seq<char>) -> Seq<Seq<char>> {
    if language == "ts"@ || language == "js"@ {
        fn_scan(FnRule::Function, content, 0) + fn_scan(FnRule::Arrow, content, 0)
    } else if language == "py"@ {
        fn_scan(FnRule::Def, content, 0)
    } else if language == "go"@ {
        fn_scan(FnRule::Func, content, 0)
    } else if language == "rs"@ {
        fn_scan(FnRule::Fn, content, 0)
    } else {
        seq![]
    }
}

fn is_word(c: char) -> (r: bool)
    ensures
        r == spec_is_word(c),
{
    ('a' <= c && c <= 'z') || ('A' <= c && c <= 'Z') || ('0' <= c && c <= '9') || c == '_'
}

pub fn skip_ident(text: &Vec<char>, i: usize) -> (r: usize)
    requires
        i <= text@.len(),
    ensures
        r == ident_end(text@, i as int),
        i <= r <= text@.len(),
{
    let n: usize = text.len();
    let mut j: usize = i;
    while j < n && is_word(text[j])
        invariant
            n == text@.len(),
            i <= j <= n,
            ident_end(text@, j as int) == ident_end(text@, i as int),
        decreases n - j,
    {
        j += 1;
    }
    j
}

fn keyword_name(text: &Vec<char>, i: usize, kw: &[char]) -> (r: Option<(usize, usize)>)
    requires
        i <= text@.len(),
    ensures
        match r {
            Some((w, e)) => keyword_name_at(text@, i as int, kw@) == Some((w as int, e as int))
                && i < w < e <= text@.len(),
            None => keyword_name_at(text@, i as int, kw@) is None,
        },
{
    let n: usize = text.len();
    if !matches_at(text, i, kw) {
        return None;
    }
    let k: usize = i + kw.len();
    let w = skip_space(text, k);
    let e = skip_ident(text, w);
    if w > k && e > w {
        Some((w, e))
    } else {
        None
    }
}

fn arrow_end(text: &Vec<char>, e: usize) -> (r: Option<usize>)
    requires
        e <= text@.len(),
    ensures
        match r {
            Some(z) => arrow_tail(text@, e as int) == Some(z as int) && e < z <= text@.len(),
            None => arrow_tail(text@, e as int) is None,
        },
{
    let n: usize = text.len();
    let a = skip_space(text, e);
    if !(a < n && text[a] == '=') {
        return None;
    }
    let b = skip_space(text, a + 1);
    let mut p: usize = b;
    if matches_at(text, b, &['a', 's', 'y', 'n', 'c']) {
        let after = skip_space(text, b + 5);
        if after > b + 5 && after < n && text[after] == '(' {
            p = after;
        }
    } else {
        proof {
            if b + 5 <= n {
                crate::text::lemma_space_end_bounds(text@, b + 5);
            }
        }
    }
    if !(p < n && text[p] == '(') {
        return None;
    }
    let c = crate::text::next_char(text, p + 1, ')');
    if c >= n {
        return None;
    }
    let d = skip_space(text, c + 1);
    if matches_at(text, d, &['=', '>']) {
        Some(d + 2)
    } else {
        None
    }
}

fn fn_rule(rule: FnRule, text: &Vec<char>, i: usize) -> (r: Option<(usize, usize, usize)>)
    requires
        i < text@.len(),
    ensures
        match r {
            Some((w, e, z)) => fn_step(rule, text@, i as int) == Some((w as int, e as int, z as int))
                && w <= e <= text@.len() && i < z <= text@.len(),
            None => fn_step(rule, text@, i as int) is None,
        },
{
    match rule {
        FnRule::Arrow => {
            let named = match keyword_name(text, i, &['c', 'o', 'n', 's', 't']) {
                Some(x) => Some(x),
                None => keyword_name(text, i, &['l', 'e', 't']),
            };
            match named {
                Some((w, e)) => match arrow_end(text, e) {
                    Some(z) => Some((w, e, z)),
                    None => None,
                },
                None => None,
            }
        },
        FnRule::Function => match keyword_name(text, i, &['f', 'u', 'n', 'c', 't', 'i', 'o', 'n']) {
            Some((w, e)) => Some((w, e, e)),
            None => None,
        },
        FnRule::Def => match keyword_name(text, i, &['d', 'e', 'f']) {
            Some((w, e)) => Some((w, e, e)),
            None => None,
        },
        FnRule::Func => match keyword_name(text, i, &['f', 'u', 'n', 'c']) {
            Some((w, e)) => Some((w, e, e)),
            None => None,
        },
        FnRule::Fn => match keyword_name(text, i, &['f', 'n']) {
            Some((w, e)) => Some((w, e, e)),
            None => None,
        },
    }
}

fn scan_functions(rule: FnRule, text: &Vec<char>, content: &str, out: &mut Vec<String>)
    requires
        text@ == content@,
    ensures
        texts(final(out)@) == texts(old(out)@) + fn_scan(rule, text@, 0),
{
    let n: usize = text.len();
    let mut i: usize = 0;
    assert(texts(out@) + fn_scan(rule, text@, 0) =~= texts(old(out)@) + fn_scan(rule, text@, 0));
    while i < n
        invariant
            n == text@.len(),
            text@ == content@,
            i <= n,
            texts(out@) + fn_scan(rule, text@, i as int) == texts(old(out)@) + fn_scan(
                rule,
                text@,
                0,
            ),
        decreases n - i,
    {
        match fn_rule(rule, text, i) {
            Some((w, e, z)) => {
                let ghost before = out@;
                out.push(slice_string(content, w, e));
                assert(texts(out@) =~= texts(before).push(text@.subrange(w as int, e as int)));
                assert(texts(out@) + fn_scan(rule, text@, z as int) =~= texts(before) + fn_scan(
                    rule,
                    text@,
                    i as int,
                ));
                i = z;
            },
            None => {
                i += 1;
            },
        }
    }
    assert(texts(out@) =~= texts(out@) + fn_scan(rule, text@, i as int));
}

/// The function names that the rules of `language` find in `content`.
pub fn extract_functions(content: &str, language: &str) -> (r: Vec<String>)
    ensures
        texts(r@) == functions_spec(content@, language@),
{
    let text = chars_of(content);
    let mut out: Vec<String> = Vec::new();
    let ts = ['t', 's'];
    let js = ['j', 's'];
    let py = ['p', 'y'];
    let go = ['g', 'o'];
    let rs = ['r', 's'];
    proof {
        reveal_strlit("ts");
        reveal_strlit("js");
        reveal_strlit("py");
        reveal_strlit("go");
        reveal_strlit("rs");
    }
    assert(ts@ =~= "ts"@);
    assert(js@ =~= "js"@);
    assert(py@ =~= "py"@);
    assert(go@ =~= "go"@);
    assert(rs@ =~= "rs"@);
    assert(texts(out@) =~= seq![]);
    if str_is(language, &ts) || str_is(language, &js) {
        scan_functions(FnRule::Function, &text, content, &mut out);
        scan_functions(FnRule::Arrow, &text, content, &mut out);
    } else if str_is(language, &py) {
        scan_functions(FnRule::Def, &text, content, &mut out);
    } else if str_is(language, &go) {
        scan_functions(FnRule::Func, &text, content, &mut out);
    } else if str_is(language, &rs) {
        scan_functions(FnRule::Fn, &text, content, &mut out);
    }
    out
}

/// The names that one rule finds in `content`.
pub fn names_by_rule(rule: FnRule, content: &str) -> (r: Vec<String>)
    ensures
        texts(r@) == fn_scan(rule, content@, 0),
{
    let text = chars_of(content);
    let mut out: Vec<String> = Vec::new();
    assert(texts(out@) =~= seq![]);
    scan_functions(rule, &text, content, &mut out);
    assert(texts(out@) =~= fn_scan(rule, content@, 0));
    out
}

} // verus!
