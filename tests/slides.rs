use deeprepo::analyzer::Analyzer;
use deeprepo::config::{AnalysisConfig, DiagramsConfig, ProjectConfig};
use deeprepo::diagram::Diagrammer;
use deeprepo::index::{Index, WalkEntry};
use deeprepo::publish::{actions_yaml, parse_mode, published, PublishMode};
use deeprepo::slides::{
    generate_slide_section, marp_document, reveal_book_toml, reveal_summary, SlideError,
};

fn index_of(root: &str, files: &[(&str, &str)]) -> Index {
    let a = Analyzer::new(ProjectConfig::default(), AnalysisConfig::default());
    let entries: Vec<WalkEntry> = files
        .iter()
        .map(|(p, c)| WalkEntry { path: p.to_string(), size: c.len() as u64, content: Some(c.to_string()) })
        .collect();
    a.analyze_repo(root, &entries, &Vec::new())
}

fn mermaid() -> Diagrammer {
    Diagrammer::new(&DiagramsConfig::default())
}

#[test]
fn overview_slides_text() {
    let idx = index_of("/w/proj", &[("/w/proj/src/a.rs", "")]);
    let t = generate_slide_section(&idx, "overview", &mermaid()).unwrap();
    assert_eq!(
        t,
        "---\n# proj\n\n# proj\n1ファイル、1言語、1モジュールを含むリポジトリです。\n## 主要コンポーネント\n\n📊 **統計**: 1ファイル、1言語、1モジュール\n---\n\n---\n## 全体構成\n\n```mermaid\ngraph TD\n    M0[\"a\"]\n\n```\n---\n\n"
    );
}

#[test]
fn architecture_lists_modules() {
    let idx = index_of("r", &[("r/src/a.rs", "use x::y;\nuse z::w;\n")]);
    let t = generate_slide_section(&idx, "architecture", &mermaid()).unwrap();
    assert!(t.starts_with("---\n## アーキテクチャ概要\n---\n\n# r\n"));
    assert!(t.ends_with("### 主要モジュール\n\n1. **a**\n   - パス: `r/src/a.rs`\n   - 言語: rs\n   - 依存: x, z\n\n---\n\n"));
}

#[test]
fn module_slides_follow_module_order() {
    let idx = index_of("r", &[("r/src/a.rs", "use q::r;"), ("r/src/b.py", "")]);
    let t = generate_slide_section(&idx, "modules", &mermaid()).unwrap();
    let a = t.find("### a\n").unwrap();
    let b = t.find("### b\n").unwrap();
    assert!(a < b);
    assert!(t.contains("**依存関係**:\n- `q`\n\n# a\n## 役割\n"));
    assert!(t.contains("---\n\n### b\n"));
}

#[test]
fn flows_deploy_and_plain_slides() {
    let idx = index_of("r", &[]);
    assert!(generate_slide_section(&idx, "flows", &mermaid()).unwrap().contains("### コールグラフ\n\n```mermaid\ngraph LR\n\n```\n---\n\n"));
    assert!(generate_slide_section(&idx, "deploy", &mermaid()).unwrap().ends_with("### エントリーポイント\n\nエントリーポイントが見つかりませんでした。\n\n---\n\n"));
    assert_eq!(generate_slide_section(&idx, "faq", &mermaid()).unwrap(), "# faq\n\nセクションの内容\n");
    let dot = Diagrammer::new(&DiagramsConfig { types: Vec::new(), renderer: "graphviz".to_string() });
    assert!(matches!(generate_slide_section(&idx, "deploy", &dot), Err(SlideError::Diagram(_))));
}

#[test]
fn marp_keeps_section_order() {
    let sections = vec![("b".to_string(), "B".to_string()), ("a".to_string(), "A".to_string())];
    assert_eq!(marp_document(&sections), "---\nmarp: true\ntheme: default\n---\n\nB\nA\n");
}

#[test]
fn reveal_files() {
    assert_eq!(
        reveal_summary(&vec!["overview".to_string(), "faq".to_string()]),
        "# Summary\n\n- [概要](overview.md)\n- [faq](faq.md)\n"
    );
    assert!(reveal_book_toml("P").contains("title = \"P\"\n") && reveal_book_toml("P").ends_with("[output.reveal]\n"));
}

#[test]
fn publish_modes_and_hints() {
    assert_eq!(parse_mode("docs"), Some(PublishMode::Docs));
    assert_eq!(parse_mode("gh-pages"), Some(PublishMode::GhPages));
    assert_eq!(parse_mode("ftp"), None);
    assert_eq!(
        published(PublishMode::GhPages, "site").hint,
        "gh-pagesブランチに公開しました。GitHub Pagesの設定でブランチ 'site' を選択してください。"
    );
    assert!(published(PublishMode::Docs, "x").ok);
    assert!(actions_yaml().starts_with("name: Deploy Pages\n"));
}
