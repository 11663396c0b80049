use deeprepo::analyzer::Analyzer;
use deeprepo::config::{AnalysisConfig, ProjectConfig};
use deeprepo::index::{Index, WalkEntry};
use deeprepo::registry::{parse_tool, IndexRegistry, Tool, INTERNAL_ERROR, PARSE_ERROR};

fn index_at(root: &str, n: usize) -> Index {
    let a = Analyzer::new(ProjectConfig::default(), AnalysisConfig::default());
    let entries: Vec<WalkEntry> = (0..n)
        .map(|i| WalkEntry { path: format!("{}/f{}.py", root, i), size: 1, content: Some(String::new()) })
        .collect();
    a.analyze_repo(root, &entries, &Vec::new())
}

#[test]
fn registry_stores_and_replaces() {
    let mut reg = IndexRegistry::new();
    assert!(reg.first().is_none());
    assert!(reg.get("a").is_none());
    reg.insert("a".to_string(), index_at("ra", 1));
    reg.insert("b".to_string(), index_at("rb", 2));
    assert_eq!(reg.get("a").unwrap().repo_path, "ra");
    assert_eq!(reg.get("b").unwrap().stats.files, 2);
    reg.insert("a".to_string(), index_at("ra2", 3));
    assert_eq!(reg.get("a").unwrap().repo_path, "ra2");
    assert_eq!(reg.get("b").unwrap().repo_path, "rb");
    assert_eq!(reg.first().unwrap().repo_path, "ra2");
    assert!(reg.get("c").is_none());
}

#[test]
fn tools_by_method() {
    assert_eq!(parse_tool("index_repo"), Some(Tool::IndexRepo));
    assert_eq!(parse_tool("summarize"), Some(Tool::Summarize));
    assert_eq!(parse_tool("generate_wiki"), Some(Tool::GenerateWiki));
    assert_eq!(parse_tool("generate_slides"), Some(Tool::GenerateSlides));
    assert_eq!(parse_tool("publish_pages"), Some(Tool::PublishPages));
    assert_eq!(parse_tool("search"), Some(Tool::Search));
    assert_eq!(parse_tool("Search"), None);
    assert_eq!((PARSE_ERROR, INTERNAL_ERROR), (-32700, -32603));
}
