use deeprepo::analyzer::Analyzer;
use deeprepo::config::{AnalysisConfig, ProjectConfig};
use deeprepo::index::{Index, WalkEntry};
use deeprepo::search::{excerpt_of, rank_hits};

fn index_of(files: &[(&str, &str)]) -> Index {
    let a = Analyzer::new(ProjectConfig::default(), AnalysisConfig::default());
    let entries: Vec<WalkEntry> = files
        .iter()
        .map(|(p, c)| WalkEntry { path: p.to_string(), size: c.len() as u64, content: Some(c.to_string()) })
        .collect();
    a.analyze_repo("r", &entries, &Vec::new())
}

#[test]
fn search_ranks_by_occurrences_case_aside() {
    let idx = index_of(&[("r/a.ts", "Foo foo bar"), ("r/b.ts", "bar"), ("r/c.ts", "FOO")]);
    let hits = idx.search("FOO", 10);
    let got: Vec<(&str, u128, usize)> = hits.iter().map(|h| (h.path.as_str(), h.matches, h.terms)).collect();
    assert_eq!(got, vec![("r/a.ts", 2, 1), ("r/c.ts", 1, 1)]);
    assert_eq!(hits[0].excerpt, "...Foo foo bar...");
}

#[test]
fn search_terms_are_summed() {
    let idx = index_of(&[("r/a.py", "alpha beta alpha beta beta")]);
    let hits = idx.search("alpha beta", 5);
    assert_eq!(hits.len(), 1);
    assert_eq!(hits[0].matches, 5);
    assert_eq!(hits[0].terms, 2);
}

#[test]
fn search_ties_keep_file_order_and_cut_to_k() {
    let idx = index_of(&[("r/a.go", "x y"), ("r/b.go", "x x"), ("r/c.go", "x z"), ("r/d.go", "q")]);
    let hits = idx.search("x", 2);
    let paths: Vec<&str> = hits.iter().map(|h| h.path.as_str()).collect();
    assert_eq!(paths, vec!["r/b.go", "r/a.go"]);
}

#[test]
fn search_twice_gives_the_same_hits() {
    let idx = index_of(&[("r/a.ts", "needle hay needle"), ("r/b.ts", "hay needle"), ("r/c.ts", "needle")]);
    let first = idx.search("needle", 3);
    let second = idx.search("needle", 3);
    let view = |v: &Vec<deeprepo::search::SearchHit>| -> Vec<(String, u128, usize, String)> {
        v.iter().map(|h| (h.path.clone(), h.matches, h.terms, h.excerpt.clone())).collect()
    };
    assert_eq!(view(&first), view(&second));
}

#[test]
fn search_with_zero_cut_is_empty() {
    let idx = index_of(&[("r/a.ts", "needle")]);
    assert!(idx.search("needle", 0).is_empty());
    assert_eq!(idx.search("needle", 1).len(), 1);
}

#[test]
fn search_skips_files_without_text() {
    let mut idx = index_of(&[("r/a.ts", "needle")]);
    idx.files[0].content = None;
    assert!(idx.search("needle", 5).is_empty());
}

#[test]
fn rank_hits_takes_given_lowercase_texts() {
    let idx = index_of(&[("r/a.ts", "ABC"), ("r/b.ts", "abc abc")]);
    let lowered = vec![Some("abc".to_string()), None];
    let hits = rank_hits(&idx.files, &lowered, "abc", 10);
    assert_eq!(hits.len(), 1);
    assert_eq!(hits[0].path, "r/a.ts");
    assert_eq!(hits[0].excerpt, "...ABC...");
}

#[test]
fn excerpt_window_and_fallback() {
    let long = format!("{}needle{}", "a".repeat(80), "b".repeat(80));
    let lowered = long.clone();
    let e = excerpt_of(&long, &lowered, "needle", 100);
    assert_eq!(e, format!("...{}needle{}...", "a".repeat(50), "b".repeat(50)));
    assert_eq!(excerpt_of("abcdef", "abcdef", "zz", 4), "abcd...");
    assert_eq!(excerpt_of("ab", "ab", "zz", 100), "ab...");
}

#[test]
fn extract_excerpt_lowercases_the_text() {
    let idx = index_of(&[]);
    assert_eq!(idx.extract_excerpt("Hello World", "world", 2), "... World...");
    assert_eq!(idx.extract_excerpt("Hello", "zzz", 3), "Hel...");
}
