use deeprepo::analyzer::Analyzer;
use deeprepo::config::{AnalysisConfig, ProjectConfig};
use deeprepo::entry::{infer_entrypoints, join};
use deeprepo::glob::{glob_match, should_exclude};
use deeprepo::index::{extract_dependencies, WalkEntry};
use deeprepo::lang::{detect_language, file_stem, is_module_file};

fn analyzer() -> Analyzer {
    Analyzer::new(ProjectConfig::default(), AnalysisConfig::default())
}

fn entry(path: &str, size: u64, content: Option<&str>) -> WalkEntry {
    WalkEntry { path: path.to_string(), size, content: content.map(|c| c.to_string()) }
}

#[test]
fn test_extract_js_dependencies() {
    let analyzer = analyzer();
    let content = r#"
import { foo } from './foo';
import bar from 'bar';
const baz = require('baz');
"#;
    let deps = analyzer.extract_js_dependencies(content);
    assert!(deps.contains(&"./foo".to_string()));
    assert!(deps.contains(&"bar".to_string()));
    assert!(deps.contains(&"baz".to_string()));
}

#[test]
fn test_extract_py_dependencies() {
    let analyzer = analyzer();
    let content = r#"
import os
from pathlib import Path
import json
"#;
    let deps = analyzer.extract_py_dependencies(content);
    assert!(deps.contains(&"os".to_string()));
    assert!(deps.contains(&"pathlib".to_string()));
}

#[test]
fn js_dependencies_in_text_order() {
    let deps = extract_dependencies(
        "const a = require(\"a\");\nimport b from 'b';\nexport { c } from \"c\";\n",
        "js",
    );
    assert_eq!(deps, vec!["a", "b", "c"]);
}

#[test]
fn js_import_takes_last_from_on_a_line() {
    let deps = extract_dependencies("import a from 'x'; import b from 'y';\n", "ts");
    assert_eq!(deps, vec!["y"]);
}

#[test]
fn js_import_without_from_yields_nothing() {
    assert!(extract_dependencies("import './side-effect';\n", "ts").is_empty());
}

#[test]
fn python_dependencies_exact() {
    let deps = extract_dependencies("import os\nfrom pathlib import Path\n", "py");
    assert_eq!(deps, vec!["os", "pathlib"]);
}

#[test]
fn python_import_must_start_a_line() {
    let deps = extract_dependencies("x = 1  # import os\n  import sys\nimport\nos\nfrom\t\n", "py");
    assert!(deps.is_empty());
}

#[test]
fn rust_use_with_path_yields_first_segment() {
    assert_eq!(extract_dependencies("use foo::bar::Baz;", "rs"), vec!["foo"]);
}

#[test]
fn rust_bare_use_yields_nothing() {
    assert!(extract_dependencies("use baz;", "rs").is_empty());
}

#[test]
fn rust_use_with_braces() {
    let deps = extract_dependencies("use std::{a, b};\nuse  serde :: Deserialize ;\n", "rs");
    assert_eq!(deps, vec!["std", "serde"]);
}

#[test]
fn go_single_and_block_imports() {
    let content = "package main\nimport \"fmt\"\nimport (\n\t\"os\"\n\tlog \"github.com/x/log\"\n)\n";
    let deps = extract_dependencies(content, "go");
    assert_eq!(deps, vec!["fmt", "os", "github.com/x/log"]);
}

#[test]
fn other_language_has_no_dependencies() {
    assert!(extract_dependencies("import java.util.List;", "java").is_empty());
}

#[test]
fn language_by_extension() {
    assert_eq!(detect_language("src/a.tsx"), Some("ts".to_string()));
    assert_eq!(detect_language("a.cjs"), Some("js".to_string()));
    assert_eq!(detect_language("x/y/z.py"), Some("py".to_string()));
    assert_eq!(detect_language("main.go"), Some("go".to_string()));
    assert_eq!(detect_language("lib.rs"), Some("rs".to_string()));
    assert_eq!(detect_language("A.java"), Some("java".to_string()));
    assert_eq!(detect_language("README.md"), None);
    assert_eq!(detect_language("Makefile"), None);
    assert_eq!(detect_language("dir/.rs"), None);
    assert_eq!(detect_language("a.TS"), None);
}

#[test]
fn module_rules() {
    assert!(is_module_file("src/index.ts", "ts"));
    assert!(is_module_file("src/util.ts", "ts"));
    assert!(!is_module_file("lib/foo.go", "go"));
    assert!(is_module_file("cmd/foo.go", "go"));
    assert!(is_module_file("a/b/__init__.py", "py"));
    assert!(is_module_file("crates/x/lib.rs", "rs"));
    assert!(!is_module_file("crates/x/main.rs", "rs"));
    assert!(!is_module_file("src/A.java", "java"));
}

#[test]
fn stems() {
    assert_eq!(file_stem("a/b/index.test.ts"), "index.test");
    assert_eq!(file_stem("a/.gitignore"), ".gitignore");
    assert_eq!(file_stem("Makefile"), "Makefile");
    assert_eq!(file_stem("a/"), "unknown");
}

#[test]
fn glob_patterns() {
    assert!(glob_match("**/node_modules/**", "./web/node_modules/react/index.js"));
    assert!(!glob_match("**/node_modules/**", "./web/src/index.js"));
    assert!(glob_match("src/*.ts", "src/a.ts"));
    assert!(!glob_match("src/*.ts", "src/x/a.ts"));
    assert!(!glob_match("src/*.ts", "src/a.tsx"));
    let patterns = vec!["**/dist/**".to_string(), "*.md".to_string()];
    assert!(should_exclude("README.md", &patterns));
    assert!(should_exclude("./dist/x.js", &patterns));
    assert!(!should_exclude("docs/README.md", &patterns));
    assert!(!should_exclude("README.md", &Vec::new()));
}

#[test]
fn joins() {
    assert_eq!(join("/repo", "main.ts"), "/repo/main.ts");
    assert_eq!(join("/repo/", "main.ts"), "/repo/main.ts");
    assert_eq!(join("", "main.ts"), "main.ts");
    assert_eq!(join("/repo", "/abs/x"), "/abs/x");
}

#[test]
fn entrypoints_from_probes_and_walk() {
    let probes = vec!["r/app.ts".to_string(), "r/main.ts".to_string(), "r/main.go".to_string()];
    let exists = vec![true, false, true];
    let files = vec!["r/a/main.ts".to_string(), "r/b/x.ts".to_string(), "r/index.ts".to_string()];
    let eps = infer_entrypoints(&probes, &exists, &files);
    assert_eq!(
        eps,
        vec!["r/app.ts", "r/main.go", "r/a/main.ts", "r/index.ts", "r/a/main.ts", "r/index.ts"]
    );
}

#[test]
fn probes_list_hints_then_fixed_names() {
    let analysis = AnalysisConfig { infer_entrypoints: vec!["bin/run.py".to_string()], ..AnalysisConfig::default() };
    let a = Analyzer::new(ProjectConfig::default(), analysis);
    let probes = a.entrypoint_probes("/r");
    assert_eq!(probes.len(), 9);
    assert_eq!(probes[0], "/r/bin/run.py");
    assert_eq!(probes[1], "/r/main.ts");
    assert_eq!(probes[8], "/r/main.rs");
}

#[test]
fn analyze_repo_records_and_counts() {
    let mut a = analyzer();
    a.analysis.max_file_kb = 1;
    let entries = vec![
        entry("./src/index.ts", 30, Some("import x from 'lodash';\n")),
        entry("./src/util.py", 20, Some("import os\nimport os\n")),
        entry("./README.md", 10, Some("# hi")),
        entry("./src/big.rs", 4096, Some("use a::b;")),
        entry("./node_modules/m/index.js", 10, Some("require('q')")),
        entry("./lib/unreadable.go", 10, None),
        entry("./lib/main.rs", 2047, Some("use serde::Serialize;\nuse std::io;")),
    ];
    let probes = a.entrypoint_probes(".");
    let exists = vec![false; probes.len()];
    let idx = a.analyze_repo(".", &entries, &exists);
    let paths: Vec<&str> = idx.files.iter().map(|f| f.path.as_str()).collect();
    assert_eq!(paths, vec!["./src/index.ts", "./src/util.py", "./lib/main.rs"]);
    assert_eq!(idx.stats.files, idx.files.len());
    assert_eq!(idx.stats.modules, idx.modules.len());
    let modules: Vec<&str> = idx.modules.iter().map(|m| m.path.as_str()).collect();
    assert_eq!(modules, vec!["./src/index.ts", "./src/util.py"]);
    assert_eq!(idx.files[0].name, "index");
    assert_eq!(idx.files[1].dependencies, vec!["os", "os"]);
    assert_eq!(idx.files[2].dependencies, vec!["serde", "std"]);
    assert_eq!(idx.files[0].size, 24);
    let mut langs = idx.languages.clone();
    langs.sort();
    assert_eq!(langs, vec!["py", "rs", "ts"]);
    let mut deps = idx.dependencies.clone();
    deps.sort();
    assert_eq!(deps, vec!["lodash", "os", "serde", "std"]);
    assert_eq!(idx.id.len(), 36);
    assert_eq!(idx.entrypoints, vec!["./src/index.ts", "./src/index.ts"]);
}

#[test]
fn unsupported_and_oversized_files_never_recorded() {
    let a = analyzer();
    let entries = vec![
        entry("x/a.txt", 1, Some("import os")),
        entry("x/b.py", 600 * 1024, Some("import os")),
        entry("x/c.py", 512 * 1024 + 1023, Some("import os")),
    ];
    let idx = a.analyze_repo("x", &entries, &Vec::new());
    assert_eq!(idx.files.len(), 1);
    assert_eq!(idx.files[0].path, "x/c.py");
}

#[test]
fn two_builds_get_distinct_ids() {
    let a = analyzer();
    let i1 = a.analyze_repo("r", &Vec::new(), &Vec::new());
    let i2 = a.analyze_repo("r", &Vec::new(), &Vec::new());
    assert_ne!(i1.id, i2.id);
    assert_eq!(i1.stats.files, 0);
    assert!(i1.entrypoints.is_empty());
}

#[test]
fn unreadable_file_adds_no_language() {
    let a = analyzer();
    let idx = a.analyze_repo("r", &vec![entry("r/a.py", 0, None)], &Vec::new());
    assert!(idx.files.is_empty());
    assert!(idx.languages.is_empty());
    assert!(idx.stats.languages.is_empty());
}
