//! Brute-force lexical search over the texts of an index.
use vstd::prelude::*;

use crate::index::{FileInfo, Index};
use crate::text::{chars_of, matches_at, occurs_at, skip_space, skip_word, space_end, word_end};

verus! {

/// What `str::to_lowercase` makes of a text.
pub uninterp spec fn lower_of(s: Seq<char>) -> Seq<char>;

/// Relies on `str::to_lowercase`: the result depends on the characters alone,
/// and an empty text stays empty.
#[verifier::external_body]
pub(crate) fn lowercase(s: &str) -> (r: String)
    ensures
        r@ == lower_of(s@),
        s@.len() == 0 ==> r@.len() == 0,
{
    s.to_lowercase()
}

/// How many characters an excerpt takes on either side of a match, in all.
pub const EXCERPT_LEN: usize = 100;

/// The first position at or after `i` where `pat` occurs in `s`.
pub open spec fn first_occurrence(s: Seq<char>, pat: Seq<char>, i: int) -> Option<int>
    decreases s.len() + 1 - i,
{
    if i < 0 || i + pat.len() > s.len() {
        None
    } else if occurs_at(s, i, pat) {
        Some(i)
    } else {
        first_occurrence(s, pat, i + 1)
    }
}

/// How many times `pat` occurs in `s` from `i` on, counting from the left
/// and without overlaps.
pub open spec fn occurrences(s: Seq<char>, pat: Seq<char>, i: int) -> nat
    decreases s.len() - i,
{
    if pat.len() == 0 || i < 0 || i + pat.len() > s.len() {
        0
    } else if occurs_at(s, i, pat) {
        1 + occurrences(s, pat, i + pat.len())
    } else {
        occurrences(s, pat, i + 1)
    }
}

/// The whitespace-separated terms of `q` from position `i` on.
pub open spec fn terms_from(q: Seq<char>, i: int) -> Seq<Seq<char>>
    decreases q.len() - i,
{
    let a = space_end(q, i);
    if i < 0 || a >= q.len() || a < i {
        seq![]
    } else {
        let b = word_end(q, a);
        if b <= a || b > q.len() {
            seq![]
        } else {
            seq![q.subrange(a, b)] + terms_from(q, b)
        }
    }
}

/// The whitespace-separated terms of a query.
pub open spec fn terms_of(q: Seq<char>) -> Seq<Seq<char>> {
    terms_from(q, 0)
}

/// The sum, over the terms, of their occurrences in `content`.
pub open spec fn term_hits(content: Seq<char>, terms: Seq<Seq<char>>) -> nat
    decreases terms.len(),
{
    if terms.len() == 0 {
        0
    } else {
        term_hits(content, terms.drop_last()) + occurrences(content, terms.last(), 0)
    }
}

/// The excerpt of `content` for a query: where the query occurs in the
/// lowercased text, the window of `max_len / 2` characters on either side of
/// its first occurrence, between ellipses; elsewhere the first `max_len`
/// characters, then an ellipsis.
pub open spec fn excerpt_spec(
    content: Seq<char>,
    lowered: Seq<char>,
    query: Seq<char>,
    max_len: nat,
) -> Seq<char> {
    let half = max_len / 2;
    match first_occurrence(lowered, query, 0) {
        Some(pos) => {
            let end = if pos + query.len() + half < content.len() {
                pos + query.len() + half
            } else {
                content.len() as int
            };
            let from = if pos - half > 0 {
                pos - half
            } else {
                0
            };
            let start = if from < end {
                from
            } else {
                end
            };
            "..."@ + content.subrange(start, end) + "..."@
        },
        None => {
            let end = if max_len < content.len() {
                max_len as int
            } else {
                content.len() as int
            };
            content.subrange(0, end) + "..."@
        },
    }
}

/// A file that matched a search.
#[derive(Debug)]
pub struct SearchHit {
    pub path: String,
    /// The score is `matches / (terms + 1)`.
    pub matches: u128,
    /// The number of terms of the query.
    pub terms: usize,
    pub excerpt: String,
}

/// What a hit holds: path, matches, terms and excerpt.
pub open spec fn hit_view(h: SearchHit) -> (Seq<char>, int, int, Seq<char>) {
    (h.path@, h.matches as int, h.terms as int, h.excerpt@)
}

/// The views of a sequence of hits.
pub open spec fn hit_views(hs: Seq<SearchHit>) -> Seq<(Seq<char>, int, int, Seq<char>)> {
    hs.map_values(|h: SearchHit| hit_view(h))
}

/// The hits of the files, in file order: each file whose lowercased text
/// holds the lowercased query. `lowered[k]` is the lowercased text of `files[k]`.
pub open spec fn raw_hits(
    files: Seq<FileInfo>,
    lowered: Seq<Option<Seq<char>>>,
    query: Seq<char>,
) -> Seq<(Seq<char>, int, int, Seq<char>)>
    decreases files.len(),
{
    if files.len() == 0 {
        seq![]
    } else {
        let k = files.len() - 1;
        let init = raw_hits(files.drop_last(), lowered, query);
        let f = files.last();
        if k < lowered.len() && f.content is Some && lowered[k] is Some && first_occurrence(
            lowered[k]->0,
            query,
            0,
        ) is Some {
            let lc = lowered[k]->0;
            init.push(
                (
                    f.path@,
                    term_hits(lc, terms_of(query)) as int,
                    terms_of(query).len() as int,
                    excerpt_spec(f.content->0@, lc, query, EXCERPT_LEN as nat),
                ),
            )
        } else {
            init
        }
    }
}

/// The first position of `s` whose score is below `score`, or its length.
pub open spec fn insert_pos(s: Seq<(Seq<char>, int, int, Seq<char>)>, score: int, i: int) -> int
    decreases s.len() - i,
{
    if i < 0 || i >= s.len() {
        s.len() as int
    } else if s[i].1 < score {
        i
    } else {
        insert_pos(s, score, i + 1)
    }
}

/// The hits by descending score; hits of equal score keep their order.
pub open spec fn ranked(hs: Seq<(Seq<char>, int, int, Seq<char>)>) -> Seq<
    (Seq<char>, int, int, Seq<char>),
>
    decreases hs.len(),
{
    if hs.len() == 0 {
        seq![]
    } else {
        let init = ranked(hs.drop_last());
        init.insert(insert_pos(init, hs.last().1, 0), hs.last())
    }
}

/// The result of a search: the ranked hits, cut to `k`.
pub open spec fn search_spec(
    files: Seq<FileInfo>,
    lowered: Seq<Option<Seq<char>>>,
    query: Seq<char>,
    k: nat,
) -> Seq<(Seq<char>, int, int, Seq<char>)> {
    let r = ranked(raw_hits(files, lowered, query));
    if k < r.len() {
        r.take(k as int)
    } else {
        r
    }
}

/// The views of optional strings.
pub open spec fn opt_texts(v: Seq<Option<String>>) -> Seq<Option<Seq<char>>> {
    v.map_values(
        |o: Option<String>|
            match o {
                Some(s) => Some(s@),
                None => None,
            },
    )
}

/// The lowercased texts of the files.
pub open spec fn lowered_texts(files: Seq<FileInfo>) -> Seq<Option<Seq<char>>> {
    files.map_values(
        |f: FileInfo|
            match f.content {
                Some(c) => Some(lower_of(c@)),
                None => None,
            },
    )
}

/// The views of a sequence of character vectors.
pub open spec fn char_views(v: Seq<Vec<char>>) -> Seq<Seq<char>> {
    v.map_values(|t: Vec<char>| t@)
}

/// The first position where `pat` occurs in `text`.
pub fn find_in(text: &Vec<char>, pat: &Vec<char>) -> (r: Option<usize>)
    ensures
        r matches Some(x) ==> first_occurrence(text@, pat@, 0) == Some(x as int) && x + pat@.len()
            <= text@.len(),
        r is None ==> first_occurrence(text@, pat@, 0) is None,
{
    let n: usize = text.len();
    if pat.len() > n {
        return None;
    }
    if pat.len() == 0 {
        assert(occurs_at(text@, 0, pat@)) by {
            assert(text@.subrange(0, 0) =~= pat@);
        }
        return Some(0);
    }
    let last: usize = n - pat.len();
    let mut i: usize = 0;
    while i <= last
        invariant
            n == text@.len(),
            last + pat@.len() == n,
            pat@.len() > 0,
            i <= last + 1,
            first_occurrence(text@, pat@, 0) == first_occurrence(text@, pat@, i as int),
        decreases last + 1 - i,
    {
        if matches_at(text, i, pat.as_slice()) {
            return Some(i);
        }
        i += 1;
    }
    None
}

fn count_in(text: &Vec<char>, pat: &Vec<char>) -> (r: usize)
    ensures
        r == occurrences(text@, pat@, 0),
{
    let n: usize = text.len();
    let m: usize = pat.len();
    if m == 0 || m > n {
        return 0;
    }
    let mut i: usize = 0;
    let mut count: usize = 0;
    while i <= n - m
        invariant
            n == text@.len(),
            m == pat@.len(),
            0 < m <= n,
            i <= n,
            count <= i,
            count + occurrences(text@, pat@, i as int) == occurrences(text@, pat@, 0),
        decreases n - i,
    {
        if matches_at(text, i, pat.as_slice()) {
            count += 1;
            i += m;
        } else {
            i += 1;
        }
    }
    count
}

pub fn sub_chars(text: &Vec<char>, a: usize, b: usize) -> (r: Vec<char>)
    requires
        a <= b <= text@.len(),
    ensures
        r@ == text@.subrange(a as int, b as int),
{
    let mut out: Vec<char> = Vec::new();
    let mut j: usize = a;
    while j < b
        invariant
            a <= j <= b <= text@.len(),
            out@ == text@.subrange(a as int, j as int),
        decreases b - j,
    {
        out.push(text[j]);
        assert(out@ =~= text@.subrange(a as int, j + 1));
        j += 1;
    }
    out
}

fn split_terms(q: &Vec<char>) -> (r: Vec<Vec<char>>)
    ensures
        char_views(r@) == terms_of(q@),
        r@.len() <= q@.len(),
{
    let n: usize = q.len();
    let mut out: Vec<Vec<char>> = Vec::new();
    let mut i: usize = 0;
    assert(char_views(out@) + terms_from(q@, 0) =~= terms_from(q@, 0));
    while i < n
        invariant
            n == q@.len(),
            i <= n,
            out@.len() <= i,
            char_views(out@) + terms_from(q@, i as int) == terms_from(q@, 0),
        decreases n - i,
    {
        let a = skip_space(q, i);
        proof {
            crate::text::lemma_space_end_bounds(q@, i as int);
        }
        if a >= n {
            assert(terms_from(q@, i as int) =~= seq![]);
            assert(char_views(out@) =~= char_views(out@) + terms_from(q@, i as int));
            return out;
        }
        let b = skip_word(q, a);
        proof {
            crate::text::lemma_word_end_bounds(q@, a as int);
            crate::text::lemma_word_end_bounds(q@, a + 1);
            assert(word_end(q@, a as int) == word_end(q@, a + 1));
            assert(terms_from(q@, i as int) == seq![q@.subrange(a as int, b as int)] + terms_from(
                q@,
                b as int,
            ));
        }
        let ghost before = out@;
        out.push(sub_chars(q, a, b));
        assert(char_views(out@) =~= char_views(before).push(q@.subrange(a as int, b as int)));
        assert(char_views(out@) + terms_from(q@, b as int) =~= char_views(before) + terms_from(
            q@,
            i as int,
        ));
        i = b;
    }
    assert(terms_from(q@, i as int) =~= seq![]);
    assert(char_views(out@) =~= char_views(out@) + terms_from(q@, i as int));
    out
}

pub proof fn lemma_occurrences_bound(s: Seq<char>, pat: Seq<char>, i: int)
    requires
        0 <= i <= s.len(),
    ensures
        occurrences(s, pat, i) <= s.len() - i,
    decreases s.len() - i,
{
    if pat.len() == 0 || i + pat.len() > s.len() {
    } else if occurs_at(s, i, pat) {
        lemma_occurrences_bound(s, pat, i + pat.len());
    } else {
        lemma_occurrences_bound(s, pat, i + 1);
    }
}

fn total_hits(lc: &Vec<char>, terms: &Vec<Vec<char>>) -> (r: u128)
    ensures
        r == term_hits(lc@, char_views(terms@)),
{
    let n: usize = lc.len();
    let mut acc: u128 = 0;
    let mut k: usize = 0;
    while k < terms.len()
        invariant
            n == lc@.len(),
            k <= terms@.len(),
            acc <= k * n,
            acc == term_hits(lc@, char_views(terms@).take(k as int)),
        decreases terms.len() - k,
    {
        let c = count_in(lc, &terms[k]);
        proof {
            lemma_occurrences_bound(lc@, terms@[k as int]@, 0);
            assert((k + 1) * n <= usize::MAX * usize::MAX) by (nonlinear_arith)
                requires
                    k < usize::MAX,
                    n <= usize::MAX,
            ;
            assert(k * n + n == (k + 1) * n) by (nonlinear_arith);
            assert(char_views(terms@).take(k + 1).drop_last() =~= char_views(terms@).take(
                k as int,
            ));
        }
        acc = acc + c as u128;
        k += 1;
    }
    assert(char_views(terms@).take(k as int) =~= char_views(terms@));
    acc
}

/// The excerpt of `content` around the first occurrence of `query` in
/// `lowered`, the lowercased text; see [`excerpt_spec`].
pub fn excerpt_of(content: &str, lowered: &str, query: &str, max_len: usize) -> (r: String)
    ensures
        r@ == excerpt_spec(content@, lowered@, query@, max_len as nat),
{
    let lc = chars_of(lowered);
    let q = chars_of(query);
    let n = content.unicode_len();
    let half: usize = max_len / 2;
    proof {
        reveal_strlit("...");
    }
    match find_in(&lc, &q) {
        Some(pos) => {
            let want = pos.saturating_add(q.len()).saturating_add(half);
            let end: usize = if want < n {
                want
            } else {
                n
            };
            let from: usize = pos.saturating_sub(half);
            let start: usize = if from < end {
                from
            } else {
                end
            };
            let mut r = String::from_str("...");
            r.append(content.substring_char(start, end));
            r.append("...");
            r
        },
        None => {
            let end: usize = if max_len < n {
                max_len
            } else {
                n
            };
            let mut r = String::from_str(content.substring_char(0, end));
            r.append("...");
            r
        },
    }
}

fn insert_ranked(out: &mut Vec<SearchHit>, h: SearchHit)
    ensures
        hit_views(final(out)@) == hit_views(old(out)@).insert(
            insert_pos(hit_views(old(out)@), h.matches as int, 0),
            hit_view(h),
        ),
{
    let ghost views = hit_views(out@);
    let mut p: usize = 0;
    while p < out.len() && out[p].matches >= h.matches
        invariant
            views == hit_views(out@),
            p <= out@.len(),
            insert_pos(views, h.matches as int, p as int) == insert_pos(views, h.matches as int, 0),
        decreases out@.len() - p,
    {
        p += 1;
    }
    let ghost hv = hit_view(h);
    out.insert(p, h);
    assert(hit_views(final(out)@) =~= views.insert(p as int, hv));
}

/// The hits of a search over `files` for `query`, already lowercased, whose
/// lowercased texts are `lowered`: every file whose lowercased text holds the
/// query, by descending score, hits of equal score in file order, at most `k`.
pub fn rank_hits(files: &Vec<FileInfo>, lowered: &Vec<Option<String>>, query: &str, k: usize) -> (r:
    Vec<SearchHit>)
    ensures
        hit_views(r@) == search_spec(files@, opt_texts(lowered@), query@, k as nat),
{
    let q = chars_of(query);
    let terms = split_terms(&q);
    let nterms: usize = terms.len();
    let ghost lw = opt_texts(lowered@);
    let mut out: Vec<SearchHit> = Vec::new();
    let mut i: usize = 0;
    assert(files@.take(0) =~= seq![]);
    while i < files.len()
        invariant
            i <= files@.len(),
            lw == opt_texts(lowered@),
            char_views(terms@) == terms_of(q@),
            q@ == query@,
            nterms == terms@.len(),
            hit_views(out@) == ranked(raw_hits(files@.take(i as int), lw, query@)),
        decreases files.len() - i,
    {
        let f = &files[i];
        let ghost raw0 = raw_hits(files@.take(i as int), lw, query@);
        let ghost out0 = hit_views(out@);
        assert(files@.take(i + 1).drop_last() =~= files@.take(i as int));
        assert(files@.take(i + 1).last() == files@[i as int]);
        if i < lowered.len() {
            match (&f.content, &lowered[i]) {
                (Some(content), Some(low)) => {
                    let lc = chars_of(low.as_str());
                    if find_in(&lc, &q).is_some() {
                        let matches = total_hits(&lc, &terms);
                        let excerpt = excerpt_of(content.as_str(), low.as_str(), query, EXCERPT_LEN);
                        let h = SearchHit { path: f.path.clone(), matches, terms: nterms, excerpt };
                        assert(lw[i as int] == Some(low@));
                        assert(char_views(terms@).len() == terms@.len());
                        assert(hit_view(h) == (
                            f.path@,
                            term_hits(lc@, terms_of(query@)) as int,
                            terms_of(query@).len() as int,
                            excerpt_spec(content@, lc@, query@, EXCERPT_LEN as nat),
                        ));
                        let ghost hv = hit_view(h);
                        insert_ranked(&mut out, h);
                        assert(raw_hits(files@.take(i + 1), lw, query@) == raw0.push(hv));
                        assert(raw0.push(hv).drop_last() =~= raw0);
                    } else {
                        assert(lw[i as int] == Some(low@));
                    }
                },
                _ => {
                    assert(lw[i as int] == match lowered@[i as int] {
                        Some(s) => Some(s@),
                        None => None,
                    });
                },
            }
        }
        i += 1;
    }
    assert(files@.take(i as int) =~= files@);
    out.truncate(k);
    assert(hit_views(out@) =~= search_spec(files@, lw, query@, k as nat));
    out
}

impl Index {
    /// The files whose text holds `query`, case aside, by descending score,
    /// at most `k`; see [`rank_hits`].
    pub fn search(&self, query: &str, k: usize) -> (r: Vec<SearchHit>)
        ensures
            hit_views(r@) == search_spec(
                self.files@,
                lowered_texts(self.files@),
                lower_of(query@),
                k as nat,
            ),
            k == 0 ==> r@.len() == 0,
    {
        let q = lowercase(query);
        let mut lowered: Vec<Option<String>> = Vec::new();
        let mut i: usize = 0;
        while i < self.files.len()
            invariant
                i <= self.files@.len(),
                opt_texts(lowered@) == lowered_texts(self.files@).take(i as int),
            decreases self.files.len() - i,
        {
            let ghost before = lowered@;
            let low = match &self.files[i].content {
                Some(c) => Some(lowercase(c.as_str())),
                None => None,
            };
            lowered.push(low);
            assert(opt_texts(lowered@) =~= opt_texts(before).push(
                match low {
                    Some(s) => Some(s@),
                    None => None,
                },
            ));
            assert(lowered_texts(self.files@).take(i + 1) =~= lowered_texts(self.files@).take(
                i as int,
            ).push(lowered_texts(self.files@)[i as int]));
            i += 1;
        }
        assert(lowered_texts(self.files@).take(i as int) =~= lowered_texts(self.files@));
        let r = rank_hits(&self.files, &lowered, q.as_str(), k);
        assert(hit_views(r@).len() == r@.len());
        r
    }

    /// The excerpt of `content` for `query`, which is lowercased already; see
    /// [`excerpt_of`].
    pub fn extract_excerpt(&self, content: &str, query: &str, max_len: usize) -> (r: String)
        ensures
            r@ == excerpt_spec(content@, lower_of(content@), query@, max_len as nat),
    {
        let lowered = lowercase(content);
        excerpt_of(content, lowered.as_str(), query, max_len)
    }
}

} // verus!
verus! {

/// A search depends on the index, the query and the cut alone: two searches
/// with the same arguments over the same index give the same hits, in the
/// same order.
pub proof fn lemma_search_repeatable(
    idx: Index,
    query: Seq<char>,
    k: nat,
    first: Seq<SearchHit>,
    second: Seq<SearchHit>,
)
    requires
        hit_views(first) == search_spec(idx.files@, lowered_texts(idx.files@), lower_of(query), k),
        hit_views(second) == search_spec(idx.files@, lowered_texts(idx.files@), lower_of(query), k),
    ensures
        hit_views(first) == hit_views(second),
{
}

/// A search cut to no hits gives none, whatever the index.
pub proof fn lemma_search_zero(files: Seq<FileInfo>, lowered: Seq<Option<Seq<char>>>, query: Seq<char>)
    ensures
        search_spec(files, lowered, query, 0).len() == 0,
{
}

} // verus!
