use deeprepo::analyzer::Analyzer;
use deeprepo::config::{AnalysisConfig, DiagramsConfig, ProjectConfig};
use deeprepo::diagram::{call_graph, module_graph, push_decimal, sequence_diagram, DiagramError, Diagrammer};
use deeprepo::functions::extract_functions;
use deeprepo::index::{Index, ModuleInfo, WalkEntry};

fn module(name: &str, path: &str, deps: &[&str]) -> ModuleInfo {
    ModuleInfo {
        path: path.to_string(),
        name: name.to_string(),
        language: "rs".to_string(),
        dependencies: deps.iter().map(|d| d.to_string()).collect(),
    }
}

fn index_of(files: &[(&str, &str)]) -> Index {
    let a = Analyzer::new(ProjectConfig::default(), AnalysisConfig::default());
    let entries: Vec<WalkEntry> = files
        .iter()
        .map(|(p, c)| WalkEntry { path: p.to_string(), size: c.len() as u64, content: Some(c.to_string()) })
        .collect();
    a.analyze_repo("r", &entries, &Vec::new())
}

#[test]
fn test_extract_functions_js() {
    let content = r#"
function foo() {}
const bar = () => {}
export async function baz() {}
"#;
    let funcs = extract_functions(content, "js");
    assert!(funcs.contains(&"foo".to_string()));
    assert!(funcs.contains(&"bar".to_string()));
    assert!(funcs.contains(&"baz".to_string()));
}

#[test]
fn test_extract_functions_py() {
    let content = r#"
def foo():
    pass

def bar():
    pass
"#;
    let funcs = extract_functions(content, "py");
    assert!(funcs.contains(&"foo".to_string()));
    assert!(funcs.contains(&"bar".to_string()));
}

#[test]
fn function_names_in_rule_order() {
    let content = "let a = async (x) => x;\nfunction b(y) {}\nconst c = (z) => {};\nconst d = 5;\n";
    assert_eq!(extract_functions(content, "ts"), vec!["b", "a", "c"]);
    assert_eq!(extract_functions("func main() {}\nfunc  helper()", "go"), vec!["main", "helper"]);
    assert_eq!(extract_functions("pub fn run() {}\nfn\tstep()", "rs"), vec!["run", "step"]);
    assert!(extract_functions("fn x() {}", "java").is_empty());
    assert!(extract_functions("function x() {}", "tsx").is_empty());
}

#[test]
fn decimals() {
    let mut s = String::new();
    push_decimal(&mut s, 0);
    s.push(' ');
    push_decimal(&mut s, 907);
    s.push(' ');
    push_decimal(&mut s, 18446744073709551615);
    assert_eq!(s, "0 907 18446744073709551615");
}

#[test]
fn module_graph_in_both_renderers() {
    let ms = vec![module("core", "a/core.rs", &["util"]), module("util", "a/util.rs", &["nothing"])];
    assert_eq!(
        module_graph(false, &ms),
        "graph TD\n    M0[\"core\"]\n    M1[\"util\"]\n    M0 --> M1\n"
    );
    assert_eq!(
        module_graph(true, &ms),
        "digraph ModuleGraph {\n    rankdir=LR;\n    node [shape=box];\n\n    M0 [label=\"core\"];\n    M1 [label=\"util\"];\n\n    M0 -> M1;\n}\n"
    );
}

#[test]
fn call_graph_lists_functions_of_all_files() {
    let idx = index_of(&[("r/a.py", "def one():\n    pass\n"), ("r/b.go", "func two() {}\n")]);
    assert_eq!(call_graph(false, &idx.files), "graph LR\n    F0[\"one\"]\n    F1[\"two\"]\n");
}

#[test]
fn sequence_of_first_three_modules() {
    let ms = vec![module("a", "1", &[]), module("b", "2", &[]), module("c", "3", &[]), module("d", "4", &[])];
    assert_eq!(
        sequence_diagram(&ms),
        "sequenceDiagram\n    participant a\n    participant b\n    participant c\n    a->>b: 呼び出し\n    b->>c: 呼び出し\n"
    );
    assert_eq!(sequence_diagram(&ms[..1].to_vec()), "sequenceDiagram\n    participant a\n");
}

#[test]
fn generate_diagram_kinds_and_errors() {
    let idx = index_of(&[("r/src/lib.rs", "fn f() {}")]);
    let mermaid = Diagrammer::new(&DiagramsConfig::default());
    let d = mermaid.generate_diagram(&idx, "module-graph").unwrap();
    assert_eq!(d.format, "mermaid");
    assert_eq!(d.diagram_type, "module-graph");
    assert_eq!(d.content, "graph TD\n    M0[\"lib\"]\n");
    let dep = mermaid.generate_diagram(&idx, "deployment").unwrap();
    assert!(dep.content.starts_with("graph TB\n    subgraph \"Frontend\"\n"));
    assert!(matches!(mermaid.generate_diagram(&idx, "pie"), Err(DiagramError::UnknownType(t)) if t == "pie"));
    let dot = Diagrammer::new(&DiagramsConfig { types: Vec::new(), renderer: "graphviz".to_string() });
    assert_eq!(dot.generate_diagram(&idx, "call-graph").unwrap().format, "graphviz");
    assert!(matches!(dot.generate_diagram(&idx, "sequence"), Err(DiagramError::MermaidOnly(t)) if t == "sequence"));
    let bad = Diagrammer::new(&DiagramsConfig { types: Vec::new(), renderer: "svg".to_string() });
    assert!(matches!(bad.generate_diagram(&idx, "module-graph"), Err(DiagramError::UnknownRenderer(r)) if r == "svg"));
}
