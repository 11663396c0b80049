use deeprepo::analyzer::Analyzer;
use deeprepo::config::{AnalysisConfig, ProjectConfig};
use deeprepo::index::{Index, WalkEntry};
use deeprepo::summarize::{
    describe_components, generate_artifacts, infer_purpose, summarize, summarize_content,
    summarize_file, summarize_module, summarize_package, summarize_repo, SummaryError,
};

fn index_of(root: &str, files: &[(&str, &str)]) -> Index {
    let a = Analyzer::new(ProjectConfig::default(), AnalysisConfig::default());
    let entries: Vec<WalkEntry> = files
        .iter()
        .map(|(p, c)| WalkEntry { path: p.to_string(), size: c.len() as u64, content: Some(c.to_string()) })
        .collect();
    a.analyze_repo(root, &entries, &Vec::new())
}

#[test]
fn content_summary_with_methods() {
    let text = "\n/// Doubles.\nfn double(x: i32) -> i32 {\n    x * 2\n}\n";
    assert_eq!(
        summarize_content(text, "rs"),
        "### double\n\n**説明**: Doubles.\n\n```rs\nfn double(x: i32) -> i32 {\n    x * 2\n}\n```\n\n"
    );
}

#[test]
fn doc_on_the_first_line_is_not_read() {
    let ms = deeprepo::methods::extract_methods_detailed("/// Lost.\nfn f() {\n}\n", "rs");
    assert_eq!(ms[0].documentation, "");
}

#[test]
fn content_summary_fallbacks() {
    assert_eq!(summarize_content("function f\n", "js"), "主要な関数:\n- `f`\n");
    assert_eq!(summarize_content("package main\n", "go"), "コードの要約を生成しました。");
    assert_eq!(summarize_content("a\nb\nc\n", "py"), "3行のコードを含むファイルです。");
    assert_eq!(summarize_content("", "ts"), "0行のコードを含むファイルです。");
}

#[test]
fn repo_summary_sections() {
    let idx = index_of(
        "/work/demo/",
        &[("/work/demo/src/app.ts", "import x from 'express';\n"), ("/work/demo/main.py", "")],
    );
    let concise = summarize_repo(&idx, "concise-ja");
    assert!(concise.starts_with("# demo\n\n2ファイル、2言語、1モジュールを含むリポジトリです。\n## 主要コンポーネント\n\n"));
    assert!(concise.contains("- **app** (`/work/demo/src/app.ts`): ts言語で記述されたモジュール\n"));
    assert!(concise.contains("## 外部依存\n\n- `express`\n"));
    assert!(!concise.contains("## 目的"));
    let detailed = summarize_repo(&idx, "detailed-ja");
    assert!(detailed.contains(
        "## 目的・コンポーネント\n\nアプリケーションまたはサーバーとして動作する可能性があります。\nWebアプリケーションまたはAPIサーバーです。\n"
    ));
    assert_eq!(infer_purpose(&index_of(".", &[])), "コードベースの目的を特定するには追加の分析が必要です。");
    assert_eq!(describe_components(&index_of(".", &[])), "コンポーネント情報がありません。");
    assert!(summarize_repo(&index_of(".", &[]), "x").starts_with("# リポジトリ\n\n"));
}

#[test]
fn package_module_and_file_summaries() {
    let idx = index_of("r", &[("r/pkg/src/a.rs", "use std::io;\nfn a() {\n}\n"), ("r/pkg/b.rs", ""), ("r/pkgx/c.rs", "")]);
    assert_eq!(
        summarize_package(&idx, "r/pkg").unwrap(),
        "# pkg\n\n2ファイルを含むパッケージです。\n\n## モジュール\n\n- `r/pkg/src/a.rs`\n"
    );
    assert!(matches!(summarize_package(&idx, "r/none"), Err(SummaryError::PackageNotFound(t)) if t == "r/none"));
    assert_eq!(
        summarize_module(&idx, "r/pkg/src/a.rs", "detailed-ja").unwrap(),
        "# a\n\n## 役割\n\nrsで記述されたモジュールです。\n## 依存関係\n\n- `std`\n\n## 注意点\n\n特に注意すべき点は見つかりませんでした。\n"
    );
    assert!(matches!(summarize_module(&idx, "x", "c"), Err(SummaryError::ModuleNotFound(_))));
    assert!(summarize_file(&idx, "r/pkg/src/a.rs").unwrap().starts_with("# a\n\n## 概要\n\n### a\n\n```rs\nfn a() {\n}\n```\n\n"));
    assert!(matches!(summarize_file(&idx, "x"), Err(SummaryError::FileNotFound(_))));
}

#[test]
fn summarize_by_scope() {
    let idx = index_of("r", &[("r/src/m.rs", "")]);
    let s = summarize(&idx, "repo", "", "concise-ja").unwrap();
    assert!(s.ok);
    assert_eq!(s.artifacts.len(), 1);
    assert_eq!(s.artifacts[0].path, "./out/diagrams/module-graph-repo.mmd");
    assert_eq!(s.artifacts[0].content, "graph TD\n    M0[\"m\"]\n");
    assert!(summarize(&idx, "file", "r/src/m.rs", "c").unwrap().artifacts.is_empty());
    assert!(matches!(summarize(&idx, "galaxy", "", ""), Err(SummaryError::UnknownScope(s)) if s == "galaxy"));
    assert!(generate_artifacts(&idx, "module").is_empty());
}
