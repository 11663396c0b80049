use deeprepo::analyzer::Analyzer;
use deeprepo::config::{AnalysisConfig, DiagramsConfig, ProjectConfig};
use deeprepo::diagram::Diagrammer;
use deeprepo::index::{Index, WalkEntry};
use deeprepo::site::book_toml;
use deeprepo::summary::MethodInfo;
use deeprepo::wiki::{
    faq_section, generate_section, module_content, module_content_with, module_page,
    modules_head, overview_section, push_code_block, safe_file_name, with_separator,
};

fn index_of(files: &[(&str, &str)]) -> Index {
    let a = Analyzer::new(ProjectConfig::default(), AnalysisConfig::default());
    let entries: Vec<WalkEntry> = files
        .iter()
        .map(|(p, c)| WalkEntry { path: p.to_string(), size: c.len() as u64, content: Some(c.to_string()) })
        .collect();
    a.analyze_repo("r", &entries, &Vec::new())
}

#[test]
fn overview_counts() {
    let mut idx = index_of(&[("r/src/a.rs", "fn a() {}"), ("r/b.py", "")]);
    idx.stats.languages = vec!["rs".to_string(), "py".to_string()];
    let text = overview_section(&idx);
    assert!(text.starts_with("# 概要\n\n"));
    assert!(text.contains("- **ファイル数**: 2個\n- **使用言語**: rs, py\n- **モジュール数**: 1個\n\n"));
    assert!(text.ends_with("    B --> E[2ファイル]\n    C --> F[1モジュール]\n```\n\n"));
}

#[test]
fn faq_with_and_without_entry_points() {
    let mut idx = index_of(&[]);
    assert!(faq_section(&idx).ends_with("### どのように始めますか？\n\nエントリーポイントが見つかりませんでした。\n"));
    assert!(faq_section(&idx).contains("0ファイル、0言語、0モジュールを含むリポジトリです。"));
    idx.entrypoints = vec!["r/main.ts".to_string()];
    assert!(faq_section(&idx).ends_with("エントリーポイント:\n- `r/main.ts`\n"));
}

#[test]
fn sections_by_name() {
    let idx = index_of(&[("r/src/lib.rs", "fn f() {}")]);
    let mermaid = Diagrammer::new(&DiagramsConfig::default());
    assert_eq!(
        generate_section(&idx, "architecture", true, &mermaid).unwrap(),
        "# アーキテクチャ\n\n## モジュールグラフ\n\n```mermaid\ngraph TD\n    M0[\"lib\"]\n\n```\n\n"
    );
    assert_eq!(generate_section(&idx, "architecture", false, &mermaid).unwrap(), "# アーキテクチャ\n\n");
    assert_eq!(generate_section(&idx, "misc", true, &mermaid).unwrap(), "# misc\n\nセクションの内容\n");
    let dot = Diagrammer::new(&DiagramsConfig { types: Vec::new(), renderer: "graphviz".to_string() });
    assert!(generate_section(&idx, "deploy", true, &dot).is_err());
    assert!(generate_section(&idx, "flows", true, &dot).is_err());
    assert_eq!(generate_section(&idx, "flows", false, &dot).unwrap(), "# フロー\n\n");
    assert_eq!(
        generate_section(&idx, "architecture", true, &dot).unwrap(),
        "# アーキテクチャ\n\n## モジュールグラフ\n\n"
    );
}

#[test]
fn code_blocks_short_and_long() {
    let mut s = String::new();
    push_code_block(&mut s, "rs", "a\nb");
    assert_eq!(s, "```rs\na\nb\n```\n\n");
    let long: Vec<String> = (0..45).map(|i| format!("l{}", i)).collect();
    let mut t = String::new();
    push_code_block(&mut t, "py", &long.join("\n"));
    let mut want = String::from("```py\n");
    for i in 0..20 {
        want.push_str(&format!("l{}\n", i));
    }
    want.push_str("// ... (省略) ...\n");
    for i in 40..45 {
        want.push_str(&format!("l{}\n", i));
    }
    want.push_str("```\n\n");
    assert_eq!(t, want);
}

#[test]
fn module_parts() {
    let idx = index_of(&[("r/src/lib.rs", "fn get_it() {\n    return 1;\n}\n")]);
    let text = module_content(&idx, &idx.modules[0]);
    assert!(text.starts_with("## lib\n\n**ファイル**: `r/src/lib.rs`  \n**言語**: rs\n\n### 主要な関数・メソッド\n\n"));
    assert!(text.contains("#### get_it\n\nデータを取得する関数です。\n\n"));
    assert!(text.ends_with("- `get_it`関数は、値を返します。\n\n"));
    let plain = module_content_with(&idx.modules[0], &Vec::new());
    assert_eq!(plain, "## lib\n\n**ファイル**: `r/src/lib.rs`  \n**言語**: rs\n\n");
    let m = MethodInfo {
        name: "x".to_string(),
        language: "rs".to_string(),
        documentation: "Doc.".to_string(),
        code_snippet: "loop {}".to_string(),
    };
    let one = module_content_with(&idx.modules[0], &vec![m]);
    assert!(one.contains("#### x\n\nDoc.\n\n##### コードの動作\n\nこの関数の実装を見てみましょう。\n\n```rs\nloop {}\n```\n\n"));
    assert!(one.ends_with("- `x`関数は、繰り返し処理を行います。\n\n"));
    assert_eq!(with_separator("t".to_string()), "t\n\n---\n\n");
}

#[test]
fn modules_page_head() {
    let idx = index_of(&[("r/src/a.rs", ""), ("r/src/b.rs", "")]);
    assert_eq!(
        modules_head(&idx.modules),
        "# モジュール\n\nこのセクションでは、各モジュールについて詳しく説明します。\n\n## モジュール一覧\n\n- [a](#a)\n- [b](#b)\n\n\n---\n\n"
    );
}

#[test]
fn book_settings() {
    let t = book_toml("Demo");
    assert!(t.starts_with("[book]\ntitle = \"Demo\"\nauthors = [\"DeepRepoSlides\"]\n"));
    assert!(t.ends_with("[output.reveal]\noptional = true\n"));
}

#[test]
fn module_page_headings_and_file_name() {
    let idx = index_of(&[("r/src/lib.rs", "fn go() {\n}\n")]);
    let page = module_page(&idx, &idx.modules[0]);
    assert!(page.starts_with("# lib\n\n**ファイル**: `r/src/lib.rs`  \n**言語**: rs\n\n## 主要な関数・メソッド\n\n"));
    assert!(page.contains("### go\n\n`go`関数の実装です。\n\n#### コードの動作\n\n"));
    assert_eq!(safe_file_name("a::b/c\\d:e"), "a_b_c_d:e");
    assert_eq!(safe_file_name(":::"), "_:");
}
