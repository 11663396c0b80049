//! Exclusion patterns: anchored globs over whole paths.
use vstd::prelude::*;

use crate::text::chars_of;

verus! {

/// Whether the pattern `p` from position `i` on matches the path `s` from
/// position `j` on. `**` matches any run of characters, `/` included; `*`
/// matches any run of characters other than `/`; every other character
/// matches itself.
pub open spec fn glob_from(p: Seq<char>, i: int, s: Seq<char>, j: int) -> bool
    decreases p.len() - i + s.len() - j,
{
    if i < 0 || j < 0 || i > p.len() || j > s.len() {
        false
    } else if i == p.len() {
        j == s.len()
    } else if p[i] == '*' && i + 1 < p.len() && p[i + 1] == '*' {
        glob_from(p, i + 2, s, j) || (j < s.len() && glob_from(p, i, s, j + 1))
    } else if p[i] == '*' {
        glob_from(p, i + 1, s, j) || (j < s.len() && s[j] != '/' && glob_from(p, i, s, j + 1))
    } else {
        j < s.len() && s[j] == p[i] && glob_from(p, i + 1, s, j + 1)
    }
}

/// Whether the pattern `p` matches the whole path `s`.
pub open spec fn glob_matches(p: Seq<char>, s: Seq<char>) -> bool {
    glob_from(p, 0, s, 0)
}

/// Whether some pattern of `patterns` matches the whole path `s`.
pub open spec fn excluded_by(s: Seq<char>, patterns: Seq<String>) -> bool {
    exists|k: int| 0 <= k < patterns.len() && glob_matches(patterns[k]@, s)
}

fn glob_at(p: &Vec<char>, i: usize, s: &Vec<char>, j: usize) -> (r: bool)
    requires
        i <= p@.len(),
        j <= s@.len(),
    ensures
        r == glob_from(p@, i as int, s@, j as int),
    decreases p@.len() - i + s@.len() - j,
{
    let pn: usize = p.len();
    let sn: usize = s.len();
    if i == pn {
        j == sn
    } else if p[i] == '*' && i + 1 < pn && p[i + 1] == '*' {
        glob_at(p, i + 2, s, j) || (j < sn && glob_at(p, i, s, j + 1))
    } else if p[i] == '*' {
        glob_at(p, i + 1, s, j) || (j < sn && s[j] != '/' && glob_at(p, i, s, j + 1))
    } else {
        j < sn && s[j] == p[i] && glob_at(p, i + 1, s, j + 1)
    }
}

/// Whether the pattern matches the whole path.
pub fn glob_match(pattern: &str, path: &str) -> (r: bool)
    ensures
        r == glob_matches(pattern@, path@),
{
    let p = chars_of(pattern);
    let s = chars_of(path);
    glob_at(&p, 0, &s, 0)
}

/// Whether a path is excluded: some pattern matches it whole.
pub fn should_exclude(path: &str, exclude_patterns: &Vec<String>) -> (r: bool)
    ensures
        r == excluded_by(path@, exclude_patterns@),
{
    let mut k: usize = 0;
    while k < exclude_patterns.len()
        invariant
            k <= exclude_patterns@.len(),
            forall|m: int| 0 <= m < k ==> !glob_matches(#[trigger] exclude_patterns@[m]@, path@),
        decreases exclude_patterns.len() - k,
    {
        if glob_match(exclude_patterns[k].as_str(), path) {
            return true;
        }
        k += 1;
    }
    false
}

} // verus!
