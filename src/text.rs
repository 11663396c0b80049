use vstd::prelude::*;

verus! {

/// The characters that Unicode calls White_Space.
pub open spec fn spec_is_space(c: char) -> bool {
    c == ' ' || ('\u{9}' <= c && c <= '\u{d}') || c == '\u{85}' || c == '\u{a0}' || c == '\u{1680}'
        || ('\u{2000}' <= c && c <= '\u{200a}') || c == '\u{2028}' || c == '\u{2029}' || c
        == '\u{202f}' || c == '\u{205f}' || c == '\u{3000}'
}

/// A single or a double quote.
pub open spec fn is_quote(c: char) -> bool {
    c == '\'' || c == '"'
}

/// The views of a sequence of strings.
pub open spec fn texts(v: Seq<String>) -> Seq<Seq<char>> {
    v.map_values(|x: String| x@)
}

/// Whether `pat` occurs in `s` starting at position `i`.
pub open spec fn occurs_at(s: Seq<char>, i: int, pat: Seq<char>) -> bool {
    0 <= i && i + pat.len() <= s.len() && s.subrange(i, i + pat.len()) == pat
}

/// The end of the run of whitespace that starts at `i`.
pub open spec fn space_end(s: Seq<char>, i: int) -> int
    decreases s.len() - i,
{
    if 0 <= i < s.len() && spec_is_space(s[i]) {
        space_end(s, i + 1)
    } else {
        i
    }
}

/// The end of the run of whitespace other than line breaks that starts at `i`.
pub open spec fn blank_end(s: Seq<char>, i: int) -> int
    decreases s.len() - i,
{
    if 0 <= i < s.len() && spec_is_space(s[i]) && s[i] != '\n' {
        blank_end(s, i + 1)
    } else {
        i
    }
}

/// The end of the run of non-whitespace characters that starts at `i`.
pub open spec fn word_end(s: Seq<char>, i: int) -> int
    decreases s.len() - i,
{
    if 0 <= i < s.len() && !spec_is_space(s[i]) {
        word_end(s, i + 1)
    } else {
        i
    }
}

/// The first position at or after `i` that holds `c`, or the length of `s`.
pub open spec fn find_char(s: Seq<char>, i: int, c: char) -> int
    decreases s.len() - i,
{
    if i < 0 {
        find_char(s, 0, c)
    } else if i >= s.len() {
        s.len() as int
    } else if s[i] == c {
        i
    } else {
        find_char(s, i + 1, c)
    }
}

/// The first position at or after `i` that holds a quote, or the length of `s`.
pub open spec fn find_quote(s: Seq<char>, i: int) -> int
    decreases s.len() - i,
{
    if i < 0 {
        find_quote(s, 0)
    } else if i >= s.len() {
        s.len() as int
    } else if is_quote(s[i]) {
        i
    } else {
        find_quote(s, i + 1)
    }
}

pub proof fn lemma_space_end_bounds(s: Seq<char>, i: int)
    requires
        0 <= i <= s.len(),
    ensures
        i <= space_end(s, i) <= s.len(),
        space_end(s, i) < s.len() ==> !spec_is_space(s[space_end(s, i)]),
    decreases s.len() - i,
{
    if i < s.len() && spec_is_space(s[i]) {
        lemma_space_end_bounds(s, i + 1);
    }
}

pub proof fn lemma_word_end_bounds(s: Seq<char>, i: int)
    requires
        0 <= i <= s.len(),
    ensures
        i <= word_end(s, i) <= s.len(),
    decreases s.len() - i,
{
    if i < s.len() && !spec_is_space(s[i]) {
        lemma_word_end_bounds(s, i + 1);
    }
}

pub proof fn lemma_find_char_bounds(s: Seq<char>, i: int, c: char)
    requires
        0 <= i <= s.len(),
    ensures
        i <= find_char(s, i, c) <= s.len(),
        find_char(s, i, c) < s.len() ==> s[find_char(s, i, c)] == c,
    decreases s.len() - i,
{
    if i < s.len() && s[i] != c {
        lemma_find_char_bounds(s, i + 1, c);
    }
}

pub proof fn lemma_find_quote_bounds(s: Seq<char>, i: int)
    requires
        0 <= i <= s.len(),
    ensures
        i <= find_quote(s, i) <= s.len(),
        find_quote(s, i) < s.len() ==> is_quote(s[find_quote(s, i)]),
    decreases s.len() - i,
{
    if i < s.len() && !is_quote(s[i]) {
        lemma_find_quote_bounds(s, i + 1);
    }
}

/// Tells whether `c` is whitespace.
pub fn is_space(c: char) -> (r: bool)
    ensures
        r == spec_is_space(c),
{
    c == ' ' || ('\u{9}' <= c && c <= '\u{d}') || c == '\u{85}' || c == '\u{a0}' || c == '\u{1680}'
        || ('\u{2000}' <= c && c <= '\u{200a}') || c == '\u{2028}' || c == '\u{2029}' || c
        == '\u{202f}' || c == '\u{205f}' || c == '\u{3000}'
}

/// Checks whether `pat` occurs in `text` at position `i`.
pub fn matches_at(text: &Vec<char>, i: usize, pat: &[char]) -> (r: bool)
    ensures
        r == occurs_at(text@, i as int, pat@),
{
    if i > text.len() || pat.len() > text.len() - i {
        return false;
    }
    let n: usize = text.len();
    let mut j: usize = 0;
    while j < pat.len()
        invariant
            n == text@.len(),
            i + pat@.len() <= text@.len(),
            j <= pat@.len(),
            forall|k: int| 0 <= k < j ==> text@[i + k] == pat@[k],
        decreases pat.len() - j,
    {
        if text[i + j] != pat[j] {
            assert(text@.subrange(i as int, i + pat@.len())[j as int] != pat@[j as int]);
            return false;
        }
        j += 1;
    }
    assert(text@.subrange(i as int, i + pat@.len()) =~= pat@);
    true
}

/// Whether `text[lo..hi]` is exactly `pat`.
pub fn range_is(text: &Vec<char>, lo: usize, hi: usize, pat: &[char]) -> (r: bool)
    requires
        lo <= hi <= text@.len(),
    ensures
        r == (text@.subrange(lo as int, hi as int) == pat@),
{
    if hi - lo != pat.len() {
        assert(text@.subrange(lo as int, hi as int).len() != pat@.len());
        return false;
    }
    let r = matches_at(text, lo, pat);
    assert(occurs_at(text@, lo as int, pat@) == (text@.subrange(lo as int, hi as int) == pat@));
    r
}

/// Whether `s` is exactly `pat`.
pub fn str_is(s: &str, pat: &[char]) -> (r: bool)
    ensures
        r == (s@ == pat@),
{
    let text = chars_of(s);
    let n: usize = text.len();
    assert(text@.subrange(0, n as int) =~= text@);
    range_is(&text, 0, n, pat)
}

/// The end of the run of whitespace in `text` that starts at `i`.
pub fn skip_space(text: &Vec<char>, i: usize) -> (r: usize)
    requires
        i <= text@.len(),
    ensures
        r == space_end(text@, i as int),
        i <= r <= text@.len(),
{
    proof {
        lemma_space_end_bounds(text@, i as int);
    }
    let n: usize = text.len();
    let mut j: usize = i;
    while j < n && is_space(text[j])
        invariant
            n == text@.len(),
            i <= j <= n,
            space_end(text@, j as int) == space_end(text@, i as int),
        decreases n - j,
    {
        j += 1;
    }
    j
}

/// The end of the run of whitespace other than line breaks in `text` that starts at `i`.
pub fn skip_blank(text: &Vec<char>, i: usize) -> (r: usize)
    requires
        i <= text@.len(),
    ensures
        r == blank_end(text@, i as int),
        i <= r <= text@.len(),
{
    let n: usize = text.len();
    let mut j: usize = i;
    while j < n && is_space(text[j]) && text[j] != '\n'
        invariant
            n == text@.len(),
            i <= j <= n,
            blank_end(text@, j as int) == blank_end(text@, i as int),
        decreases n - j,
    {
        j += 1;
    }
    j
}

/// The end of the run of non-whitespace characters in `text` that starts at `i`.
pub fn skip_word(text: &Vec<char>, i: usize) -> (r: usize)
    requires
        i <= text@.len(),
    ensures
        r == word_end(text@, i as int),
        i <= r <= text@.len(),
{
    proof {
        lemma_word_end_bounds(text@, i as int);
    }
    let n: usize = text.len();
    let mut j: usize = i;
    while j < n && !is_space(text[j])
        invariant
            n == text@.len(),
            i <= j <= n,
            word_end(text@, j as int) == word_end(text@, i as int),
        decreases n - j,
    {
        j += 1;
    }
    j
}

/// The first position at or after `i` where `text` holds `c`, or its length.
pub fn next_char(text: &Vec<char>, i: usize, c: char) -> (r: usize)
    requires
        i <= text@.len(),
    ensures
        r == find_char(text@, i as int, c),
        i <= r <= text@.len(),
        r < text@.len() ==> text@[r as int] == c,
{
    proof {
        lemma_find_char_bounds(text@, i as int, c);
    }
    let n: usize = text.len();
    let mut j: usize = i;
    while j < n && text[j] != c
        invariant
            n == text@.len(),
            i <= j <= n,
            find_char(text@, j as int, c) == find_char(text@, i as int, c),
        decreases n - j,
    {
        j += 1;
    }
    j
}

/// The first position at or after `i` where `text` holds a quote, or its length.
pub fn next_quote(text: &Vec<char>, i: usize) -> (r: usize)
    requires
        i <= text@.len(),
    ensures
        r == find_quote(text@, i as int),
        i <= r <= text@.len(),
        r < text@.len() ==> is_quote(text@[r as int]),
{
    proof {
        lemma_find_quote_bounds(text@, i as int);
    }
    let n: usize = text.len();
    let mut j: usize = i;
    while j < n && !(text[j] == '\'' || text[j] == '"')
        invariant
            n == text@.len(),
            i <= j <= n,
            find_quote(text@, j as int) == find_quote(text@, i as int),
        decreases n - j,
    {
        j += 1;
    }
    j
}

/// The characters of `s`, in order.
pub fn chars_of(s: &str) -> (r: Vec<char>)
    ensures
        r@ == s@,
{
    let mut v: Vec<char> = Vec::new();
    for c in it: s.chars()
        invariant
            v@ == it.seq().take(it.index() as int),
            it.seq() == s@,
    {
        v.push(c);
    }
    v
}

/// The characters of `s` from `from` up to `to`, as a new string.
pub fn slice_string(s: &str, from: usize, to: usize) -> (r: String)
    requires
        from <= to <= s@.len(),
    ensures
        r@ == s@.subrange(from as int, to as int),
{
    s.substring_char(from, to).to_owned()
}

} // verus!
