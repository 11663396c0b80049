//! Diagrams of an index, as Mermaid or Graphviz text.
use vstd::prelude::*;

use crate::config::DiagramsConfig;
use crate::functions::{extract_functions, functions_spec};
use crate::index::{FileInfo, Index, ModuleInfo};
use crate::search::first_occurrence;
use crate::text::{chars_of, str_is, texts};

verus! {

/// The decimal digits.
pub open spec fn digits() -> Seq<char> {
    seq!['0', '1', '2', '3', '4', '5', '6', '7', '8', '9']
}

/// A number written in decimal.
pub open spec fn decimal(n: nat) -> Seq<char>
    decreases n,
{
    if n < 10 {
        seq![digits()[n as int]]
    } else {
        decimal(n / 10).push(digits()[(n % 10) as int])
    }
}

fn digit(d: usize) -> (r: &'static str)
    requires
        d < 10,
    ensures
        r@ == seq![digits()[d as int]],
{
    proof {
        reveal_strlit("0");
        reveal_strlit("1");
        reveal_strlit("2");
        reveal_strlit("3");
        reveal_strlit("4");
        reveal_strlit("5");
        reveal_strlit("6");
        reveal_strlit("7");
        reveal_strlit("8");
        reveal_strlit("9");
    }
    let r = if d == 0 {
        "0"
    } else if d == 1 {
        "1"
    } else if d == 2 {
        "2"
    } else if d == 3 {
        "3"
    } else if d == 4 {
        "4"
    } else if d == 5 {
        "5"
    } else if d == 6 {
        "6"
    } else if d == 7 {
        "7"
    } else if d == 8 {
        "8"
    } else {
        "9"
    };
    assert(r@ =~= seq![digits()[d as int]]);
    r
}

/// Appends `n` in decimal.
pub fn push_decimal(out: &mut String, n: usize)
    ensures
        final(out)@ == old(out)@ + decimal(n as nat),
    decreases n,
{
    if n < 10 {
        out.append(digit(n));
    } else {
        push_decimal(out, n / 10);
        out.append(digit(n % 10));
        assert(decimal(n as nat) == decimal((n / 10) as nat).push(digits()[(n % 10) as int]));
        assert(final(out)@ =~= old(out)@ + decimal(n as nat));
    }
}

/// A node line: `M3["name"]` in Mermaid, `M3 [label="name"];` in Graphviz.
pub open spec fn node_line(dot: bool, tag: Seq<char>, i: nat, label: Seq<char>) -> Seq<char> {
    if dot {
        "    "@ + tag + decimal(i) + " [label=\""@ + label + "\"];\n"@
    } else {
        "    "@ + tag + decimal(i) + "[\""@ + label + "\"]\n"@
    }
}

/// An edge line: `M0 --> M1` in Mermaid, `M0 -> M1;` in Graphviz.
pub open spec fn edge_line(dot: bool, a: nat, b: nat) -> Seq<char> {
    if dot {
        "    M"@ + decimal(a) + " -> M"@ + decimal(b) + ";\n"@
    } else {
        "    M"@ + decimal(a) + " --> M"@ + decimal(b) + "\n"@
    }
}

fn push_node_line(out: &mut String, dot: bool, tag: &str, i: usize, label: &str)
    ensures
        final(out)@ == old(out)@ + node_line(dot, tag@, i as nat, label@),
{
    out.append("    ");
    out.append(tag);
    push_decimal(out, i);
    if dot {
        out.append(" [label=\"");
        out.append(label);
        out.append("\"];\n");
    } else {
        out.append("[\"");
        out.append(label);
        out.append("\"]\n");
    }
    assert(final(out)@ =~= old(out)@ + node_line(dot, tag@, i as nat, label@));
}

fn push_edge_line(out: &mut String, dot: bool, a: usize, b: usize)
    ensures
        final(out)@ == old(out)@ + edge_line(dot, a as nat, b as nat),
{
    out.append("    M");
    push_decimal(out, a);
    if dot {
        out.append(" -> M");
    } else {
        out.append(" --> M");
    }
    push_decimal(out, b);
    if dot {
        out.append(";\n");
    } else {
        out.append("\n");
    }
    assert(final(out)@ =~= old(out)@ + edge_line(dot, a as nat, b as nat));
}

/// The node lines of the first `k` labels, numbered from 0.
pub open spec fn node_lines(dot: bool, tag: Seq<char>, labels: Seq<Seq<char>>, k: int) -> Seq<char>
    decreases k,
{
    if k <= 0 {
        seq![]
    } else {
        node_lines(dot, tag, labels, k - 1) + node_line(dot, tag, (k - 1) as nat, labels[k - 1])
    }
}

pub fn push_node_lines(out: &mut String, dot: bool, tag: &str, labels: &Vec<String>)
    ensures
        final(out)@ == old(out)@ + node_lines(dot, tag@, texts(labels@), labels@.len() as int),
{
    let mut k: usize = 0;
    while k < labels.len()
        invariant
            k <= labels@.len(),
            out@ == old(out)@ + node_lines(dot, tag@, texts(labels@), k as int),
        decreases labels.len() - k,
    {
        push_node_line(out, dot, tag, k, labels[k].as_str());
        assert(out@ =~= old(out)@ + node_lines(dot, tag@, texts(labels@), k + 1));
        k += 1;
    }
}

/// The node of a path: the last module that has it.
pub open spec fn node_of(ms: Seq<ModuleInfo>, path: Seq<char>, k: int) -> Option<int>
    decreases k,
{
    if k <= 0 {
        None
    } else if ms[k - 1].path@ == path {
        Some(k - 1)
    } else {
        node_of(ms, path, k - 1)
    }
}

/// The first module whose name holds `dep`.
pub open spec fn target_of(ms: Seq<ModuleInfo>, dep: Seq<char>, j: int) -> Option<int>
    decreases ms.len() - j,
{
    if j < 0 || j >= ms.len() {
        None
    } else if first_occurrence(ms[j].name@, dep, 0) is Some {
        Some(j)
    } else {
        target_of(ms, dep, j + 1)
    }
}

/// The edges of module `m` for its first `t` dependencies.
pub open spec fn dep_edges(dot: bool, ms: Seq<ModuleInfo>, from: int, deps: Seq<Seq<char>>, t: int) -> Seq<
    char,
>
    decreases t,
{
    if t <= 0 {
        seq![]
    } else {
        dep_edges(dot, ms, from, deps, t - 1) + match target_of(ms, deps[t - 1], 0) {
            Some(j) => match node_of(ms, ms[j].path@, ms.len() as int) {
                Some(to) => edge_line(dot, from as nat, to as nat),
                None => seq![],
            },
            None => seq![],
        }
    }
}

/// The edges of the first `k` modules: from each to the first module whose
/// name holds one of its dependencies.
pub open spec fn module_edges(dot: bool, ms: Seq<ModuleInfo>, k: int) -> Seq<char>
    decreases k,
{
    if k <= 0 {
        seq![]
    } else {
        module_edges(dot, ms, k - 1) + match node_of(ms, ms[k - 1].path@, ms.len() as int) {
            Some(from) => dep_edges(
                dot,
                ms,
                from,
                texts(ms[k - 1].dependencies@),
                ms[k - 1].dependencies@.len() as int,
            ),
            None => seq![],
        }
    }
}

/// The names of the modules.
pub open spec fn module_names(ms: Seq<ModuleInfo>) -> Seq<Seq<char>> {
    ms.map_values(|m: ModuleInfo| m.name@)
}

/// The module graph.
pub open spec fn module_graph_text(dot: bool, ms: Seq<ModuleInfo>) -> Seq<char> {
    if dot {
        "digraph ModuleGraph {\n    rankdir=LR;\n    node [shape=box];\n\n"@ + node_lines(
            true,
            "M"@,
            module_names(ms),
            ms.len() as int,
        ) + "\n"@ + module_edges(true, ms, ms.len() as int) + "}\n"@
    } else {
        "graph TD\n"@ + node_lines(false, "M"@, module_names(ms), ms.len() as int) + module_edges(
            false,
            ms,
            ms.len() as int,
        )
    }
}

fn node_index(ms: &Vec<ModuleInfo>, path: &String) -> (r: Option<usize>)
    ensures
        match r {
            Some(x) => node_of(ms@, path@, ms@.len() as int) == Some(x as int) && x < ms@.len(),
            None => node_of(ms@, path@, ms@.len() as int) is None,
        },
{
    let mut k: usize = ms.len();
    while k > 0
        invariant
            k <= ms@.len(),
            node_of(ms@, path@, k as int) == node_of(ms@, path@, ms@.len() as int),
        decreases k,
    {
        if ms[k - 1].path == *path {
            return Some(k - 1);
        }
        k -= 1;
    }
    None
}

fn target_index(ms: &Vec<ModuleInfo>, dep: &String) -> (r: Option<usize>)
    ensures
        match r {
            Some(x) => target_of(ms@, dep@, 0) == Some(x as int) && x < ms@.len(),
            None => target_of(ms@, dep@, 0) is None,
        },
{
    let d = chars_of(dep.as_str());
    let mut j: usize = 0;
    while j < ms.len()
        invariant
            j <= ms@.len(),
            d@ == dep@,
            target_of(ms@, dep@, j as int) == target_of(ms@, dep@, 0),
        decreases ms.len() - j,
    {
        let name = chars_of(ms[j].name.as_str());
        if crate::search::find_in(&name, &d).is_some() {
            return Some(j);
        }
        j += 1;
    }
    None
}

fn push_module_edges(out: &mut String, dot: bool, ms: &Vec<ModuleInfo>)
    ensures
        final(out)@ == old(out)@ + module_edges(dot, ms@, ms@.len() as int),
{
    let mut k: usize = 0;
    while k < ms.len()
        invariant
            k <= ms@.len(),
            out@ == old(out)@ + module_edges(dot, ms@, k as int),
        decreases ms.len() - k,
    {
        let ghost before = out@;
        let m = &ms[k];
        match node_index(ms, &m.path) {
            Some(from) => {
                let mut t: usize = 0;
                while t < m.dependencies.len()
                    invariant
                        t <= m.dependencies@.len(),
                        from < ms@.len(),
                        out@ == before + dep_edges(dot, ms@, from as int, texts(m.dependencies@), t as int),
                    decreases m.dependencies.len() - t,
                {
                    let ghost mid = out@;
                    match target_index(ms, &m.dependencies[t]) {
                        Some(j) => match node_index(ms, &ms[j].path) {
                            Some(to) => {
                                push_edge_line(out, dot, from, to);
                            },
                            None => {},
                        },
                        None => {},
                    }
                    assert(out@ =~= before + dep_edges(dot, ms@, from as int, texts(m.dependencies@), t + 1));
                    t += 1;
                }
            },
            None => {},
        }
        assert(out@ =~= old(out)@ + module_edges(dot, ms@, k + 1));
        k += 1;
    }
}

pub fn module_names_of(ms: &Vec<ModuleInfo>) -> (r: Vec<String>)
    ensures
        texts(r@) == module_names(ms@),
{
    let mut out: Vec<String> = Vec::new();
    let mut k: usize = 0;
    while k < ms.len()
        invariant
            k <= ms@.len(),
            texts(out@) == module_names(ms@).take(k as int),
        decreases ms.len() - k,
    {
        let ghost before = out@;
        out.push(ms[k].name.clone());
        assert(texts(out@) =~= texts(before).push(ms@[k as int].name@));
        assert(module_names(ms@).take(k + 1) =~= module_names(ms@).take(k as int).push(
            ms@[k as int].name@,
        ));
        k += 1;
    }
    assert(module_names(ms@).take(k as int) =~= module_names(ms@));
    out
}

/// The module graph of the modules: a node per module, and an edge from a
/// module to the first module whose name holds one of its dependencies.
pub fn module_graph(dot: bool, modules: &Vec<ModuleInfo>) -> (r: String)
    ensures
        r@ == module_graph_text(dot, modules@),
{
    let names = module_names_of(modules);
    assert(texts(names@).len() == names@.len());
    assert(module_names(modules@).len() == modules@.len());
    let mut out: String;
    if dot {
        out = String::from_str("digraph ModuleGraph {\n    rankdir=LR;\n    node [shape=box];\n\n");
        push_node_lines(&mut out, true, "M", &names);
        out.append("\n");
        push_module_edges(&mut out, true, modules);
        out.append("}\n");
    } else {
        out = String::from_str("graph TD\n");
        push_node_lines(&mut out, false, "M", &names);
        push_module_edges(&mut out, false, modules);
    }
    assert(out@ =~= module_graph_text(dot, modules@));
    out
}

} // verus!
verus! {

/// The function names of the files that have text, file by file.
pub open spec fn all_functions(fs: Seq<FileInfo>) -> Seq<Seq<char>>
    decreases fs.len(),
{
    if fs.len() == 0 {
        seq![]
    } else {
        all_functions(fs.drop_last()) + match fs.last().content {
            Some(c) => functions_spec(c@, fs.last().language@),
            None => seq![],
        }
    }
}

/// The call graph: a node per function name.
pub open spec fn call_graph_text(dot: bool, fs: Seq<FileInfo>) -> Seq<char> {
    let names = all_functions(fs);
    if dot {
        "digraph CallGraph {\n    rankdir=LR;\n    node [shape=ellipse];\n\n"@ + node_lines(
            true,
            "F"@,
            names,
            names.len() as int,
        ) + "}\n"@
    } else {
        "graph LR\n"@ + node_lines(false, "F"@, names, names.len() as int)
    }
}

fn functions_of(files: &Vec<FileInfo>) -> (r: Vec<String>)
    ensures
        texts(r@) == all_functions(files@),
{
    let mut out: Vec<String> = Vec::new();
    let mut k: usize = 0;
    while k < files.len()
        invariant
            k <= files@.len(),
            texts(out@) == all_functions(files@.take(k as int)),
        decreases files.len() - k,
    {
        assert(files@.take(k + 1).drop_last() =~= files@.take(k as int));
        let ghost before = out@;
        match &files[k].content {
            Some(c) => {
                let mut fns = extract_functions(c.as_str(), files[k].language.as_str());
                let ghost added = fns@;
                out.append(&mut fns);
                assert(texts(out@) =~= texts(before) + texts(added));
            },
            None => {
                assert(texts(out@) =~= texts(before) + seq![]);
            },
        }
        k += 1;
    }
    assert(files@.take(k as int) =~= files@);
    out
}

/// The call graph of the files: a node per function name found.
pub fn call_graph(dot: bool, files: &Vec<FileInfo>) -> (r: String)
    ensures
        r@ == call_graph_text(dot, files@),
{
    let names = functions_of(files);
    assert(texts(names@).len() == names@.len());
    let mut out: String;
    if dot {
        out = String::from_str("digraph CallGraph {\n    rankdir=LR;\n    node [shape=ellipse];\n\n");
        push_node_lines(&mut out, true, "F", &names);
        out.append("}\n");
    } else {
        out = String::from_str("graph LR\n");
        push_node_lines(&mut out, false, "F", &names);
    }
    assert(out@ =~= call_graph_text(dot, files@));
    out
}

/// The participant lines of the first `k` of at most three modules.
pub open spec fn participants(ms: Seq<ModuleInfo>, k: int) -> Seq<char>
    decreases k,
{
    if k <= 0 {
        seq![]
    } else {
        participants(ms, k - 1) + "    participant "@ + ms[k - 1].name@ + "\n"@
    }
}

/// A call arrow between two participants.
pub open spec fn call_line(a: Seq<char>, b: Seq<char>) -> Seq<char> {
    "    "@ + a + "->>"@ + b + ": 呼び出し\n"@
}

/// The sequence diagram: the first three modules, the first calling the
/// second and the second the third, as far as there are modules.
pub open spec fn sequence_text(ms: Seq<ModuleInfo>) -> Seq<char> {
    let n = ms.len() as int;
    "sequenceDiagram\n"@ + participants(ms, if n < 3 {
        n
    } else {
        3
    }) + (if n >= 2 {
        call_line(ms[0].name@, ms[1].name@)
    } else {
        seq![]
    }) + (if n >= 3 {
        call_line(ms[1].name@, ms[2].name@)
    } else {
        seq![]
    })
}

fn push_call_line(out: &mut String, a: &str, b: &str)
    ensures
        final(out)@ == old(out)@ + call_line(a@, b@),
{
    out.append("    ");
    out.append(a);
    out.append("->>");
    out.append(b);
    out.append(": 呼び出し\n");
    assert(final(out)@ =~= old(out)@ + call_line(a@, b@));
}

/// The sequence diagram of the modules.
pub fn sequence_diagram(modules: &Vec<ModuleInfo>) -> (r: String)
    ensures
        r@ == sequence_text(modules@),
{
    let n = modules.len();
    let top: usize = if n < 3 {
        n
    } else {
        3
    };
    let mut out = String::from_str("sequenceDiagram\n");
    let mut k: usize = 0;
    while k < top
        invariant
            top <= modules@.len(),
            k <= top,
            out@ == "sequenceDiagram\n"@ + participants(modules@, k as int),
        decreases top - k,
    {
        out.append("    participant ");
        out.append(modules[k].name.as_str());
        out.append("\n");
        assert(out@ =~= "sequenceDiagram\n"@ + participants(modules@, k + 1));
        k += 1;
    }
    let ghost head = out@;
    if n >= 2 {
        push_call_line(&mut out, modules[0].name.as_str(), modules[1].name.as_str());
    }
    let ghost mid = out@;
    if n >= 3 {
        push_call_line(&mut out, modules[1].name.as_str(), modules[2].name.as_str());
    }
    assert(out@ =~= sequence_text(modules@));
    out
}

/// The deployment diagram, which is the same for every index.
pub open spec fn deployment_text() -> Seq<char> {
    "graph TB\n    subgraph \"Frontend\"\n        FE[フロントエンド]\n    end\n    subgraph \"Backend\"\n        BE[バックエンド]\n    end\n    subgraph \"Database\"\n        DB[データベース]\n    end\n    FE --> BE\n    BE --> DB\n"@
}

/// A drawn diagram.
#[derive(Clone, Debug)]
pub struct Diagram {
    pub diagram_type: String,
    /// `mermaid` or `graphviz`.
    pub format: String,
    pub content: String,
}

/// Why a diagram could not be drawn.
#[derive(Clone, Debug)]
pub enum DiagramError {
    /// No such kind of diagram.
    UnknownType(String),
    /// No such renderer.
    UnknownRenderer(String),
    /// This kind of diagram is drawn with Mermaid only.
    MermaidOnly(String),
}

/// What drawing a diagram of kind `kind` with `renderer` gives: its content
/// and format, or the error.
pub open spec fn diagram_spec(renderer: Seq<char>, kind: Seq<char>, idx: Index) -> Result<
    (Seq<char>, Seq<char>),
    DiagramError,
> {
    let mermaid = renderer == "mermaid"@;
    let graphviz = renderer == "graphviz"@;
    if kind == "module-graph"@ || kind == "call-graph"@ {
        if mermaid || graphviz {
            let text = if kind == "module-graph"@ {
                module_graph_text(graphviz, idx.modules@)
            } else {
                call_graph_text(graphviz, idx.files@)
            };
            Ok((text, renderer))
        } else {
            Err(DiagramError::UnknownRenderer(arbitrary()))
        }
    } else if kind == "sequence"@ || kind == "deployment"@ {
        if mermaid {
            let text = if kind == "sequence"@ {
                sequence_text(idx.modules@)
            } else {
                deployment_text()
            };
            Ok((text, "mermaid"@))
        } else {
            Err(DiagramError::MermaidOnly(arbitrary()))
        }
    } else {
        Err(DiagramError::UnknownType(arbitrary()))
    }
}

/// Whether an error is of the kind that `diagram_spec` gives, with the
/// offending name.
pub open spec fn error_matches(
    e: DiagramError,
    expected: DiagramError,
    renderer: Seq<char>,
    kind: Seq<char>,
) -> bool {
    match (e, expected) {
        (DiagramError::UnknownType(t), DiagramError::UnknownType(_)) => t@ == kind,
        (DiagramError::UnknownRenderer(t), DiagramError::UnknownRenderer(_)) => t@ == renderer,
        (DiagramError::MermaidOnly(t), DiagramError::MermaidOnly(_)) => t@ == kind,
        _ => false,
    }
}

/// Draws the diagrams of an index with the renderer it was made with.
#[derive(Clone, Debug)]
pub struct Diagrammer {
    pub renderer: String,
}

impl Diagrammer {
    pub fn new(diagrams: &DiagramsConfig) -> (r: Self)
        ensures
            r.renderer@ == diagrams.renderer@,
    {
        Diagrammer { renderer: diagrams.renderer.clone() }
    }

    /// The diagram of kind `diagram_type`: `module-graph` or `call-graph`
    /// with either renderer, `sequence` or `deployment` with Mermaid only.
    pub fn generate_diagram(&self, index: &Index, diagram_type: &str) -> (r: Result<
        Diagram,
        DiagramError,
    >)
        ensures
            match (r, diagram_spec(self.renderer@, diagram_type@, *index)) {
                (Ok(d), Ok((content, format))) => d.content@ == content && d.format@ == format
                    && d.diagram_type@ == diagram_type@,
                (Err(e), Err(expected)) => error_matches(
                    e,
                    expected,
                    self.renderer@,
                    diagram_type@,
                ),
                _ => false,
            },
    {
        let module_graph_kw = ['m', 'o', 'd', 'u', 'l', 'e', '-', 'g', 'r', 'a', 'p', 'h'];
        let call_graph_kw = ['c', 'a', 'l', 'l', '-', 'g', 'r', 'a', 'p', 'h'];
        let sequence_kw = ['s', 'e', 'q', 'u', 'e', 'n', 'c', 'e'];
        let deployment_kw = ['d', 'e', 'p', 'l', 'o', 'y', 'm', 'e', 'n', 't'];
        let mermaid_kw = ['m', 'e', 'r', 'm', 'a', 'i', 'd'];
        let graphviz_kw = ['g', 'r', 'a', 'p', 'h', 'v', 'i', 'z'];
        proof {
            reveal_strlit("module-graph");
            reveal_strlit("call-graph");
            reveal_strlit("sequence");
            reveal_strlit("deployment");
            reveal_strlit("mermaid");
            reveal_strlit("graphviz");
        }
        assert(module_graph_kw@ =~= "module-graph"@);
        assert(call_graph_kw@ =~= "call-graph"@);
        assert(sequence_kw@ =~= "sequence"@);
        assert(deployment_kw@ =~= "deployment"@);
        assert(mermaid_kw@ =~= "mermaid"@);
        assert(graphviz_kw@ =~= "graphviz"@);
        let kind = String::from_str(diagram_type);
        let mermaid = str_is(self.renderer.as_str(), &mermaid_kw);
        let graphviz = str_is(self.renderer.as_str(), &graphviz_kw);
        let is_module = str_is(diagram_type, &module_graph_kw);
        if is_module || str_is(diagram_type, &call_graph_kw) {
            if !(mermaid || graphviz) {
                return Err(DiagramError::UnknownRenderer(self.renderer.clone()));
            }
            let content = if is_module {
                module_graph(graphviz, &index.modules)
            } else {
                call_graph(graphviz, &index.files)
            };
            Ok(Diagram { diagram_type: kind, format: self.renderer.clone(), content })
        } else if str_is(diagram_type, &sequence_kw) || str_is(diagram_type, &deployment_kw) {
            if !mermaid {
                return Err(DiagramError::MermaidOnly(kind));
            }
            let content = if str_is(diagram_type, &sequence_kw) {
                sequence_diagram(&index.modules)
            } else {
                String::from_str(
                    "graph TB\n    subgraph \"Frontend\"\n        FE[フロントエンド]\n    end\n    subgraph \"Backend\"\n        BE[バックエンド]\n    end\n    subgraph \"Database\"\n        DB[データベース]\n    end\n    FE --> BE\n    BE --> DB\n",
                )
            };
            Ok(Diagram { diagram_type: kind, format: String::from_str("mermaid"), content })
        } else {
            Err(DiagramError::UnknownType(kind))
        }
    }
}

} // verus!
