//! Paths as text, the language of a file and whether it is a module.
use vstd::prelude::*;

use crate::text::{chars_of, range_is, slice_string};

verus! {

/// The position of the last `c` in `lo..end`, or `lo - 1` where there is none.
pub open spec fn last_in(s: Seq<char>, lo: int, end: int, c: char) -> int
    decreases end - lo,
{
    if end <= lo {
        lo - 1
    } else if s[end - 1] == c {
        end - 1
    } else {
        last_in(s, lo, end - 1, c)
    }
}

/// Where the last component of a path starts.
pub open spec fn name_start_of(p: Seq<char>) -> int {
    last_in(p, 0, p.len() as int, '/') + 1
}

/// The last component of a path.
pub open spec fn file_name_of(p: Seq<char>) -> Seq<char> {
    p.subrange(name_start_of(p), p.len() as int)
}

/// The component before the last one, empty where there is none.
pub open spec fn parent_name_of(p: Seq<char>) -> Seq<char> {
    let l = name_start_of(p) - 1;
    if l < 0 {
        seq![]
    } else {
        p.subrange(last_in(p, 0, l, '/') + 1, l)
    }
}

/// Where the last dot of the file name of `p` stands, if it is not the
/// name's first character.
pub open spec fn ext_dot_of(p: Seq<char>) -> int {
    last_in(p, name_start_of(p), p.len() as int, '.')
}

/// The extension of a path's file name: what follows its last dot, where that
/// dot is not the name's first character.
pub open spec fn extension_of(p: Seq<char>) -> Option<Seq<char>> {
    if ext_dot_of(p) > name_start_of(p) {
        Some(p.subrange(ext_dot_of(p) + 1, p.len() as int))
    } else {
        None
    }
}

/// The file name of a path without its extension; `unknown` for an empty name.
pub open spec fn stem_of(p: Seq<char>) -> Seq<char> {
    if name_start_of(p) == p.len() {
        seq!['u', 'n', 'k', 'n', 'o', 'w', 'n']
    } else if ext_dot_of(p) > name_start_of(p) {
        p.subrange(name_start_of(p), ext_dot_of(p))
    } else {
        file_name_of(p)
    }
}

/// The language tag of a file extension.
pub open spec fn language_of_extension(e: Seq<char>) -> Option<Seq<char>> {
    if e == seq!['t', 's'] || e == seq!['t', 's', 'x'] {
        Some(seq!['t', 's'])
    } else if e == seq!['j', 's'] || e == seq!['j', 's', 'x'] || e == seq!['m', 'j', 's'] || e
        == seq!['c', 'j', 's'] {
        Some(seq!['j', 's'])
    } else if e == seq!['p', 'y'] {
        Some(seq!['p', 'y'])
    } else if e == seq!['g', 'o'] {
        Some(seq!['g', 'o'])
    } else if e == seq!['r', 's'] {
        Some(seq!['r', 's'])
    } else if e == seq!['j', 'a', 'v', 'a'] {
        Some(seq!['j', 'a', 'v', 'a'])
    } else {
        None
    }
}

/// The language tag of a path, by the extension of its file name.
pub open spec fn language_of(p: Seq<char>) -> Option<Seq<char>> {
    match extension_of(p) {
        Some(e) => language_of_extension(e),
        None => None,
    }
}

/// Whether a file is a module of its language, by its name or the name of
/// the directory that holds it.
pub open spec fn is_module_spec(p: Seq<char>, language: Seq<char>) -> bool {
    let name = file_name_of(p);
    let parent = parent_name_of(p);
    if language == seq!['t', 's'] || language == seq!['j', 's'] {
        name == seq!['i', 'n', 'd', 'e', 'x', '.', 't', 's'] || name == seq![
            'i',
            'n',
            'd',
            'e',
            'x',
            '.',
            'j',
            's',
        ] || name == seq!['i', 'n', 'd', 'e', 'x', '.', 't', 's', 'x'] || name == seq![
            'i',
            'n',
            'd',
            'e',
            'x',
            '.',
            'j',
            's',
            'x',
        ] || parent == seq!['s', 'r', 'c'] || parent == seq!['l', 'i', 'b']
    } else if language == seq!['p', 'y'] {
        name == seq!['_', '_', 'i', 'n', 'i', 't', '_', '_', '.', 'p', 'y'] || parent == seq![
            's',
            'r',
            'c',
        ] || parent == seq!['l', 'i', 'b']
    } else if language == seq!['g', 'o'] {
        parent == seq!['c', 'm', 'd'] || parent == seq!['p', 'k', 'g']
    } else if language == seq!['r', 's'] {
        name == seq!['l', 'i', 'b', '.', 'r', 's'] || parent == seq!['s', 'r', 'c']
    } else {
        false
    }
}

/// The position of the last `c` in `text[lo..end]`.
fn last_index(text: &Vec<char>, lo: usize, end: usize, c: char) -> (r: Option<usize>)
    requires
        lo <= end <= text@.len(),
    ensures
        r matches Some(x) ==> lo <= x < end && x as int == last_in(text@, lo as int, end as int, c),
        r is None ==> last_in(text@, lo as int, end as int, c) == lo - 1,
{
    let mut j: usize = end;
    while j > lo && text[j - 1] != c
        invariant
            lo <= j <= end <= text@.len(),
            last_in(text@, lo as int, j as int, c) == last_in(text@, lo as int, end as int, c),
        decreases j,
    {
        j -= 1;
    }
    if j == lo {
        None
    } else {
        Some(j - 1)
    }
}

/// The position of the last `/` in `text[..end]`.
pub fn last_slash_before(text: &Vec<char>, end: usize) -> (r: Option<usize>)
    requires
        end <= text@.len(),
    ensures
        r matches Some(x) ==> x < end && x as int == last_in(text@, 0, end as int, '/'),
        r is None ==> last_in(text@, 0, end as int, '/') == -1,
{
    last_index(text, 0, end, '/')
}

/// Where the file name of a path starts.
pub fn name_start(text: &Vec<char>) -> (r: usize)
    ensures
        r as int == name_start_of(text@),
        r <= text@.len(),
{
    match last_index(text, 0, text.len(), '/') {
        Some(x) => x + 1,
        None => 0,
    }
}

fn tag(lit: &str) -> (r: Option<String>)
    ensures
        r matches Some(s) && s@ == lit@,
{
    Some(String::from_str(lit))
}

/// The language tag of a file, by its extension; `None` for an extension
/// outside the supported table.
pub fn detect_language(path: &str) -> (r: Option<String>)
    ensures
        r matches Some(s) ==> language_of(path@) == Some(s@),
        r is None ==> language_of(path@) is None,
{
    let text = chars_of(path);
    let n: usize = text.len();
    let start = name_start(&text);
    let d: usize = match last_index(&text, start, n, '.') {
        Some(d) => d,
        None => {
            return None;
        },
    };
    if d == start {
        return None;
    }
    let lo: usize = d + 1;
    proof {
        reveal_strlit("ts");
        reveal_strlit("js");
        reveal_strlit("py");
        reveal_strlit("go");
        reveal_strlit("rs");
        reveal_strlit("java");
    }
    if range_is(&text, lo, n, &['t', 's']) || range_is(&text, lo, n, &['t', 's', 'x']) {
        tag("ts")
    } else if range_is(&text, lo, n, &['j', 's']) || range_is(&text, lo, n, &['j', 's', 'x'])
        || range_is(&text, lo, n, &['m', 'j', 's']) || range_is(&text, lo, n, &['c', 'j', 's']) {
        tag("js")
    } else if range_is(&text, lo, n, &['p', 'y']) {
        tag("py")
    } else if range_is(&text, lo, n, &['g', 'o']) {
        tag("go")
    } else if range_is(&text, lo, n, &['r', 's']) {
        tag("rs")
    } else if range_is(&text, lo, n, &['j', 'a', 'v', 'a']) {
        tag("java")
    } else {
        None
    }
}

/// The start and end of the parent component of a path; equal where there is none.
fn parent_range(text: &Vec<char>, start: usize) -> (r: (usize, usize))
    requires
        start as int == name_start_of(text@),
        start <= text@.len(),
    ensures
        r.0 <= r.1 <= text@.len(),
        text@.subrange(r.0 as int, r.1 as int) == parent_name_of(text@),
{
    if start == 0 {
        assert(text@.subrange(0, 0) =~= seq![]);
        return (0, 0);
    }
    let l: usize = start - 1;
    match last_index(text, 0, l, '/') {
        Some(x) => (x + 1, l),
        None => (0, l),
    }
}

/// Whether a file of the given language is a module: an index file or
/// package root by name, or a file in a directory that holds modules.
pub fn is_module_file(path: &str, language: &str) -> (r: bool)
    ensures
        r == is_module_spec(path@, language@),
{
    let text = chars_of(path);
    let lang = chars_of(language);
    let n: usize = text.len();
    let ln: usize = lang.len();
    let start = name_start(&text);
    let (pa, pb) = parent_range(&text, start);
    assert(lang@.subrange(0, ln as int) =~= lang@);
    if range_is(&lang, 0, ln, &['t', 's']) || range_is(&lang, 0, ln, &['j', 's']) {
        range_is(&text, start, n, &['i', 'n', 'd', 'e', 'x', '.', 't', 's']) || range_is(
            &text,
            start,
            n,
            &['i', 'n', 'd', 'e', 'x', '.', 'j', 's'],
        ) || range_is(&text, start, n, &['i', 'n', 'd', 'e', 'x', '.', 't', 's', 'x'])
            || range_is(&text, start, n, &['i', 'n', 'd', 'e', 'x', '.', 'j', 's', 'x'])
            || range_is(&text, pa, pb, &['s', 'r', 'c']) || range_is(&text, pa, pb, &['l', 'i', 'b'])
    } else if range_is(&lang, 0, ln, &['p', 'y']) {
        range_is(&text, start, n, &['_', '_', 'i', 'n', 'i', 't', '_', '_', '.', 'p', 'y'])
            || range_is(&text, pa, pb, &['s', 'r', 'c']) || range_is(&text, pa, pb, &['l', 'i', 'b'])
    } else if range_is(&lang, 0, ln, &['g', 'o']) {
        range_is(&text, pa, pb, &['c', 'm', 'd']) || range_is(&text, pa, pb, &['p', 'k', 'g'])
    } else if range_is(&lang, 0, ln, &['r', 's']) {
        range_is(&text, start, n, &['l', 'i', 'b', '.', 'r', 's']) || range_is(
            &text,
            pa,
            pb,
            &['s', 'r', 'c'],
        )
    } else {
        false
    }
}

/// The file name of a path without its extension, or `unknown` where the
/// path has no file name.
pub fn file_stem(path: &str) -> (r: String)
    ensures
        r@ == stem_of(path@),
{
    let text = chars_of(path);
    let n: usize = text.len();
    let start = name_start(&text);
    if start == n {
        proof {
            reveal_strlit("unknown");
        }
        return String::from_str("unknown");
    }
    match last_index(&text, start, n, '.') {
        Some(d) => {
            if d > start {
                slice_string(path, start, d)
            } else {
                slice_string(path, start, n)
            }
        },
        None => slice_string(path, start, n),
    }
}

} // verus!
