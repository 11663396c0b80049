use deeprepo::analyzer::Analyzer;
use deeprepo::config::{AnalysisConfig, DiagramsConfig, ProjectConfig};
use deeprepo::diagram::Diagrammer;
use deeprepo::index::{Index, WalkEntry};
use deeprepo::serial::{serial_section, short_marp_deck, short_slide_of, PageError};

fn index_of(root: &str, files: &[(&str, &str)]) -> Index {
    let a = Analyzer::new(ProjectConfig::default(), AnalysisConfig::default());
    let entries: Vec<WalkEntry> = files
        .iter()
        .map(|(p, c)| WalkEntry { path: p.to_string(), size: c.len() as u64, content: Some(c.to_string()) })
        .collect();
    a.analyze_repo(root, &entries, &Vec::new())
}

fn mermaid() -> Diagrammer {
    Diagrammer::new(&DiagramsConfig::default())
}

#[test]
fn serial_pages_and_counts() {
    let idx = index_of("r", &[("r/src/a.rs", "use x::y;"), ("r/src/b.rs", "")]);
    let (arch, n) = serial_section(&idx, "architecture", false, &mermaid()).unwrap();
    assert_eq!(n, 1);
    assert_eq!(
        arch,
        "# アーキテクチャ\n\n## システム構成\n\nこのリポジトリは2ファイル、1言語、2モジュールで構成されています。\n\n## 主要コンポーネント\n\n- **a** (`r/src/a.rs`)\n- **b** (`r/src/b.rs`)\n"
    );
    let (modules, n) = serial_section(&idx, "modules", true, &mermaid()).unwrap();
    assert_eq!(n, 2);
    assert!(modules.starts_with("# モジュール\n\n## a\n\nパス: `r/src/a.rs`\n\n言語: rs\n\n### 依存関係\n\n- `x`\n\n# a\n\n## 役割\n\n"));
    let (deploy, _) = serial_section(&idx, "deploy", true, &mermaid()).unwrap();
    assert!(deploy.starts_with("# デプロイ\n\n## デプロイメント構成\n\n```mermaid\ngraph TB\n"));
    assert!(deploy.ends_with("## エントリーポイント\n\n"));
    let (_, n) = serial_section(&index_of("r", &[]), "modules", true, &mermaid()).unwrap();
    assert_eq!(n, 1);
    let dot = Diagrammer::new(&DiagramsConfig { types: Vec::new(), renderer: "graphviz".to_string() });
    assert!(matches!(serial_section(&idx, "deploy", true, &dot), Err(PageError::Diagram(_))));
}

#[test]
fn short_slides_and_deck() {
    let idx = index_of("r", &[("r/src/a.rs", "use x::y;")]);
    assert_eq!(
        short_slide_of(&idx, "P", "modules", &mermaid()).unwrap().unwrap(),
        "---\n## モジュール\n---\n\n### a\n\nパス: `r/src/a.rs`\n\n依存関係:\n- `x`\n\n---\n\n"
    );
    assert!(short_slide_of(&idx, "P", "faq", &mermaid()).unwrap().is_none());
    let deck = short_marp_deck(
        &idx,
        "P",
        &vec!["architecture".to_string(), "faq".to_string(), "deploy".to_string()],
        &mermaid(),
    )
    .unwrap();
    assert_eq!(
        deck,
        "---\nmarp: true\ntheme: default\n---\n\n---\n## アーキテクチャ\n---\n\n### 主要モジュール\n\n- **a**\n---\n## デプロイ\n---\n\n### エントリーポイント\n\n"
    );
    let overview = short_slide_of(&idx, "P", "overview", &mermaid()).unwrap().unwrap();
    assert!(overview.starts_with("---\n# P\n\n1ファイル、1言語、1モジュール\n---\n\n## 全体構成\n\n```mermaid\n"));
}

#[test]
fn plain_short_section_and_anchors() {
    let idx = index_of("r", &[("r/src/a b.rs", "")]);
    assert_eq!(
        deeprepo::serial::short_section_of(&idx, "P", "faq", &mermaid()).unwrap(),
        "# faq\n\nセクションの内容\n"
    );
    assert_eq!(deeprepo::wiki::anchor_of("x::y/z w"), "x_y_z_w");
    assert_eq!(
        deeprepo::wiki::modules_section(&idx),
        "# モジュール\n\nこのセクションでは、各モジュールについて詳しく説明します。\n\n各モジュールの詳細は以下の通りです。\n\n## モジュール一覧\n\n- [a b](#a_b)\n\n"
    );
}
