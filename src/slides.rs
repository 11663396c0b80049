//! The slides of a presentation, each computed from the index alone.
use vstd::prelude::*;

use crate::diagram::{decimal, diagram_spec, push_decimal, Diagram, DiagramError, Diagrammer};
use crate::index::{Index, ModuleInfo};
use crate::methods::is_blank;
use crate::site::slide_title;
use crate::summarize::{
    base_name, module_summary, repo_summary, summarize_module, summarize_repo, SummaryError,
};
use crate::text::{str_is, texts};
use crate::wiki::{entry_lines, joined, line_bounds, lines_of};

verus! {

/// Why a slide could not be made.
#[derive(Clone, Debug)]
pub enum SlideError {
    Diagram(DiagramError),
    Summary(SummaryError),
}

/// The lines among `ls` that are not blank, each followed by a line break.
pub open spec fn kept_lines(ls: Seq<Seq<char>>) -> Seq<char>
    decreases ls.len(),
{
    if ls.len() == 0 {
        seq![]
    } else {
        kept_lines(ls.drop_last()) + if is_blank(ls.last()) {
            seq![]
        } else {
            ls.last() + "\n"@
        }
    }
}

/// Those of the first `n` lines of a text that are not blank, each followed
/// by a line break.
pub open spec fn head_lines(text: Seq<char>, n: nat) -> Seq<char> {
    let ls = lines_of(text);
    kept_lines(if n < ls.len() {
        ls.take(n as int)
    } else {
        ls
    })
}

/// Appends the lines of `text` among its first `n` that are not blank.
fn push_head_lines(out: &mut String, text: &str, n: usize)
    ensures
        final(out)@ == old(out)@ + head_lines(text@, n as nat),
{
    let chars = crate::text::chars_of(text);
    let bounds = line_bounds(&chars);
    let ghost ls = lines_of(text@);
    let top: usize = if n < bounds.len() {
        n
    } else {
        bounds.len()
    };
    let mut k: usize = 0;
    while k < top
        invariant
            k <= top <= bounds@.len(),
            chars@ == text@,
            bounds@.len() == ls.len(),
            ls == lines_of(text@),
            forall|m: int|
                0 <= m < bounds@.len() ==> (#[trigger] bounds@[m]).0 <= bounds@[m].1 <= text@.len()
                    && text@.subrange(bounds@[m].0 as int, bounds@[m].1 as int) == ls[m],
            out@ == old(out)@ + kept_lines(ls.take(k as int)),
        decreases top - k,
    {
        let (a, b) = bounds[k];
        let line = crate::search::sub_chars(&chars, a, b);
        assert(ls.take(k + 1).drop_last() =~= ls.take(k as int));
        assert(ls.take(k + 1).last() == line@);
        if crate::text::skip_space(&line, 0) != line.len() {
            out.append(text.substring_char(a, b));
            out.append("\n");
        }
        assert(out@ =~= old(out)@ + kept_lines(ls.take(k + 1)));
        k += 1;
    }
    assert(if n < ls.len() {
        ls.take(n as int)
    } else {
        ls
    } =~= ls.take(top as int));
}

/// A diagram as a fenced block on a slide, where it is drawn with Mermaid.
pub open spec fn slide_fence(format: Seq<char>, content: Seq<char>) -> Seq<char> {
    if format == "mermaid"@ {
        "```mermaid\n"@ + content + "\n```\n"@
    } else {
        seq![]
    }
}

/// The block of the diagram of kind `kind` on a slide; `None` where it
/// cannot be drawn.
pub open spec fn slide_diagram(renderer: Seq<char>, kind: Seq<char>, idx: Index) -> Option<Seq<char>> {
    match diagram_spec(renderer, kind, idx) {
        Ok((content, format)) => Some(slide_fence(format, content)),
        Err(_) => None,
    }
}

pub fn push_slide_diagram(out: &mut String, diagrammer: &Diagrammer, index: &Index, kind: &str) -> (r:
    Result<(), SlideError>)
    ensures
        r is Ok <==> slide_diagram(diagrammer.renderer@, kind@, *index) is Some,
        r is Ok ==> final(out)@ == old(out)@ + slide_diagram(diagrammer.renderer@, kind@, *index)->0,
{
    match diagrammer.generate_diagram(index, kind) {
        Ok(d) => {
            let mermaid = ['m', 'e', 'r', 'm', 'a', 'i', 'd'];
            proof {
                reveal_strlit("mermaid");
            }
            assert(mermaid@ =~= "mermaid"@);
            if str_is(d.format.as_str(), &mermaid) {
                out.append("```mermaid\n");
                out.append(d.content.as_str());
                out.append("\n```\n");
            }
            assert(final(out)@ =~= old(out)@ + slide_diagram(diagrammer.renderer@, kind@, *index)->0);
            Ok(())
        },
        Err(e) => Err(SlideError::Diagram(e)),
    }
}

/// The overview slides: the title, the head of the repository summary, the
/// counts, and the module graph.
pub open spec fn overview_slide(renderer: Seq<char>, idx: Index) -> Option<Seq<char>> {
    match slide_diagram(renderer, "module-graph"@, idx) {
        Some(d) => Some(
            "---\n"@ + "# "@ + (match base_name(idx.repo_path@) {
                Some(n) => n,
                None => "プロジェクト"@,
            }) + "\n\n"@ + head_lines(repo_summary(idx, "concise-ja"@), 5) + "\n"@
                + "📊 **統計**: "@ + decimal(idx.stats.files as nat) + "ファイル、"@ + decimal(
                idx.stats.languages@.len(),
            ) + "言語、"@ + decimal(idx.stats.modules as nat) + "モジュール\n"@ + "---\n\n"@
                + "---\n"@ + "## 全体構成\n\n"@ + d + "---\n\n"@,
        ),
        None => None,
    }
}

/// The overview slides of an index.
pub fn overview_slides(index: &Index, diagrammer: &Diagrammer) -> (r: Result<String, SlideError>)
    ensures
        r is Ok <==> overview_slide(diagrammer.renderer@, *index) is Some,
        r matches Ok(t) ==> t@ == overview_slide(diagrammer.renderer@, *index)->0,
{
    let mut out = String::from_str("---\n");
    out.append("# ");
    match crate::summarize::base_name_of(index.repo_path.as_str()) {
        Some(n) => out.append(n.as_str()),
        None => out.append("プロジェクト"),
    }
    out.append("\n\n");
    let summary = summarize_repo(index, "concise-ja");
    push_head_lines(&mut out, summary.as_str(), 5);
    out.append("\n");
    out.append("📊 **統計**: ");
    push_decimal(&mut out, index.stats.files);
    out.append("ファイル、");
    push_decimal(&mut out, index.stats.languages.len());
    out.append("言語、");
    push_decimal(&mut out, index.stats.modules);
    out.append("モジュール\n");
    out.append("---\n\n");
    out.append("---\n");
    out.append("## 全体構成\n\n");
    push_slide_diagram(&mut out, diagrammer, index, "module-graph")?;
    out.append("---\n\n");
    assert(out@ =~= overview_slide(diagrammer.renderer@, *index)->0);
    Ok(out)
}

/// The entry of one module in the list of the architecture slides.
pub open spec fn module_entry(i: nat, m: ModuleInfo) -> Seq<char> {
    decimal(i + 1) + ". **"@ + m.name@ + "**\n"@ + "   - パス: `"@ + m.path@ + "`\n"@
        + "   - 言語: "@ + m.language@ + "\n"@ + (if m.dependencies@.len() > 0 {
        "   - 依存: "@ + joined(texts(m.dependencies@)) + "\n"@
    } else {
        seq![]
    }) + "\n"@
}

/// The entries of the first `k` modules.
pub open spec fn module_entries(ms: Seq<ModuleInfo>, k: int) -> Seq<char>
    decreases k,
{
    if k <= 0 {
        seq![]
    } else {
        module_entries(ms, k - 1) + module_entry((k - 1) as nat, ms[k - 1])
    }
}

/// The architecture slides: the head of the repository summary, the module
/// graph, and the first ten modules.
pub open spec fn architecture_slide(renderer: Seq<char>, idx: Index) -> Option<Seq<char>> {
    let n = idx.modules@.len();
    match slide_diagram(renderer, "module-graph"@, idx) {
        Some(d) => Some(
            "---\n"@ + "## アーキテクチャ概要\n"@ + "---\n\n"@ + head_lines(
                repo_summary(idx, "concise-ja"@),
                10,
            ) + "\n---\n\n"@ + "---\n"@ + "### モジュール構成図\n\n"@ + d + "---\n\n"@ + "---\n"@
                + "### 主要モジュール\n\n"@ + module_entries(idx.modules@, if n < 10 {
                n as int
            } else {
                10
            }) + "---\n\n"@,
        ),
        None => None,
    }
}

fn push_joined_deps(out: &mut String, v: &Vec<String>)
    ensures
        final(out)@ == old(out)@ + joined(texts(v@)),
{
    let mut k: usize = 0;
    while k < v.len()
        invariant
            k <= v@.len(),
            out@ == old(out)@ + joined(texts(v@).take(k as int)),
        decreases v.len() - k,
    {
        assert(texts(v@).take(k + 1).drop_last() =~= texts(v@).take(k as int));
        if k > 0 {
            out.append(", ");
        }
        out.append(v[k].as_str());
        assert(out@ =~= old(out)@ + joined(texts(v@).take(k + 1)));
        k += 1;
    }
    assert(texts(v@).take(k as int) =~= texts(v@));
}

fn push_module_entry(out: &mut String, i: usize, m: &ModuleInfo)
    requires
        i < 10,
    ensures
        final(out)@ == old(out)@ + module_entry(i as nat, *m),
{
    push_decimal(out, i + 1);
    out.append(". **");
    out.append(m.name.as_str());
    out.append("**\n");
    out.append("   - パス: `");
    out.append(m.path.as_str());
    out.append("`\n");
    out.append("   - 言語: ");
    out.append(m.language.as_str());
    out.append("\n");
    let ghost mid = out@;
    if m.dependencies.len() > 0 {
        out.append("   - 依存: ");
        push_joined_deps(out, &m.dependencies);
        out.append("\n");
    }
    out.append("\n");
    assert(final(out)@ =~= old(out)@ + module_entry(i as nat, *m));
}

/// The architecture slides of an index.
pub fn architecture_slides(index: &Index, diagrammer: &Diagrammer) -> (r: Result<String, SlideError>)
    ensures
        r is Ok <==> architecture_slide(diagrammer.renderer@, *index) is Some,
        r matches Ok(t) ==> t@ == architecture_slide(diagrammer.renderer@, *index)->0,
{
    let mut out = String::from_str("---\n");
    out.append("## アーキテクチャ概要\n");
    out.append("---\n\n");
    let summary = summarize_repo(index, "concise-ja");
    push_head_lines(&mut out, summary.as_str(), 10);
    out.append("\n---\n\n");
    out.append("---\n");
    out.append("### モジュール構成図\n\n");
    push_slide_diagram(&mut out, diagrammer, index, "module-graph")?;
    out.append("---\n\n");
    out.append("---\n");
    out.append("### 主要モジュール\n\n");
    let n = index.modules.len();
    let top: usize = if n < 10 {
        n
    } else {
        10
    };
    let ghost start = out@;
    let mut i: usize = 0;
    while i < top
        invariant
            i <= top <= index.modules@.len(),
            top <= 10,
            out@ == start + module_entries(index.modules@, i as int),
        decreases top - i,
    {
        push_module_entry(&mut out, i, &index.modules[i]);
        assert(out@ =~= start + module_entries(index.modules@, i + 1));
        i += 1;
    }
    out.append("---\n\n");
    assert(out@ =~= architecture_slide(diagrammer.renderer@, *index)->0);
    Ok(out)
}

} // verus!
verus! {

/// One bullet per dependency.
pub open spec fn dep_bullets(deps: Seq<Seq<char>>) -> Seq<char>
    decreases deps.len(),
{
    if deps.len() == 0 {
        seq![]
    } else {
        dep_bullets(deps.drop_last()) + "- `"@ + deps.last() + "`\n"@
    }
}

/// The heading lines of the slide of the `i`th module.
pub open spec fn module_slide_head(i: nat, m: ModuleInfo) -> Seq<char> {
    (if i > 0 {
        "---\n\n"@
    } else {
        seq![]
    }) + "### "@ + m.name@ + "\n\n"@ + "**パス**: `"@ + m.path@ + "`\n\n"@ + "**言語**: "@ + m.language@
        + "\n\n"@
}

/// The dependencies of a module on its slide.
pub open spec fn module_slide_deps(m: ModuleInfo) -> Seq<char> {
    if m.dependencies@.len() > 0 {
        "**依存関係**:\n"@ + dep_bullets(texts(m.dependencies@)) + "\n"@
    } else {
        seq![]
    }
}

/// The slide of one module, the `i`th, given the summary of its file.
pub open spec fn module_slide(i: nat, m: ModuleInfo, summary: Seq<char>) -> Seq<char> {
    module_slide_head(i, m) + module_slide_deps(m) + head_lines(summary, 10) + "\n"@
}

/// The slides of the first `k` modules; `None` where a module has no file
/// in the index to summarise.
pub open spec fn module_slides_from(idx: Index, k: int) -> Option<Seq<char>>
    decreases k,
{
    if k <= 0 {
        Some(seq![])
    } else {
        match (
            module_slides_from(idx, k - 1),
            module_summary(idx, idx.modules@[k - 1].path@, "concise-ja"@),
        ) {
            (Some(a), Some(s)) => Some(a + module_slide((k - 1) as nat, idx.modules@[k - 1], s)),
            _ => None,
        }
    }
}

/// The module slides: one for each of the first twenty modules.
pub open spec fn modules_slide(idx: Index) -> Option<Seq<char>> {
    let n = idx.modules@.len();
    match module_slides_from(idx, if n < 20 {
        n as int
    } else {
        20
    }) {
        Some(body) => Some("---\n"@ + "## モジュール詳細\n"@ + "---\n\n"@ + body),
        None => None,
    }
}

pub fn push_dep_bullets(out: &mut String, deps: &Vec<String>)
    ensures
        final(out)@ == old(out)@ + dep_bullets(texts(deps@)),
{
    let mut k: usize = 0;
    while k < deps.len()
        invariant
            k <= deps@.len(),
            out@ == old(out)@ + dep_bullets(texts(deps@).take(k as int)),
        decreases deps.len() - k,
    {
        assert(texts(deps@).take(k + 1).drop_last() =~= texts(deps@).take(k as int));
        out.append("- `");
        out.append(deps[k].as_str());
        out.append("`\n");
        assert(out@ =~= old(out)@ + dep_bullets(texts(deps@).take(k + 1)));
        k += 1;
    }
    assert(texts(deps@).take(k as int) =~= texts(deps@));
}

fn push_module_slide_head(out: &mut String, i: usize, m: &ModuleInfo)
    ensures
        final(out)@ == old(out)@ + module_slide_head(i as nat, *m),
{
    if i > 0 {
        out.append("---\n\n");
    }
    out.append("### ");
    out.append(m.name.as_str());
    out.append("\n\n");
    out.append("**パス**: `");
    out.append(m.path.as_str());
    out.append("`\n\n");
    out.append("**言語**: ");
    out.append(m.language.as_str());
    out.append("\n\n");
    assert(final(out)@ =~= old(out)@ + module_slide_head(i as nat, *m));
}

fn push_module_slide(out: &mut String, i: usize, m: &ModuleInfo, summary: &str)
    ensures
        final(out)@ == old(out)@ + module_slide(i as nat, *m, summary@),
{
    push_module_slide_head(out, i, m);
    let ghost a = out@;
    if m.dependencies.len() > 0 {
        out.append("**依存関係**:\n");
        push_dep_bullets(out, &m.dependencies);
        out.append("\n");
    }
    assert(out@ =~= a + module_slide_deps(*m));
    let ghost b = out@;
    push_head_lines(out, summary, 10);
    out.append("\n");
    assert(final(out)@ =~= old(out)@ + module_slide(i as nat, *m, summary@));
}

/// The module slides of an index.
pub fn modules_slides(index: &Index) -> (r: Result<String, SlideError>)
    ensures
        r is Ok <==> modules_slide(*index) is Some,
        r matches Ok(t) ==> t@ == modules_slide(*index)->0,
{
    let mut out = String::from_str("---\n");
    out.append("## モジュール詳細\n");
    out.append("---\n\n");
    let n = index.modules.len();
    let top: usize = if n < 20 {
        n
    } else {
        20
    };
    let ghost start = out@;
    let mut i: usize = 0;
    while i < top
        invariant
            i <= top <= index.modules@.len(),
            top as int == (if index.modules@.len() < 20 {
                index.modules@.len() as int
            } else {
                20
            }),
            module_slides_from(*index, i as int) is Some,
            out@ == start + module_slides_from(*index, i as int)->0,
        decreases top - i,
    {
        let m = &index.modules[i];
        let summary = match summarize_module(index, m.path.as_str(), "concise-ja") {
            Ok(s) => s,
            Err(e) => {
                assert(module_slides_from(*index, i + 1) is None);
                assert forall|j: int| i + 1 <= j <= top implies module_slides_from(*index, j) is None by {
                    lemma_slides_stay_none(*index, i + 1, j);
                }
                return Err(SlideError::Summary(e));
            },
        };
        push_module_slide(&mut out, i, m, summary.as_str());
        assert(out@ =~= start + module_slides_from(*index, i + 1)->0);
        i += 1;
    }
    assert(out@ =~= modules_slide(*index)->0);
    Ok(out)
}

proof fn lemma_slides_stay_none(idx: Index, a: int, b: int)
    requires
        a <= b,
        module_slides_from(idx, a) is None,
    ensures
        module_slides_from(idx, b) is None,
    decreases b - a,
{
    if a < b {
        lemma_slides_stay_none(idx, a, b - 1);
    }
}

/// The flow slides: the sequence diagram and the call graph.
pub open spec fn flows_slide(renderer: Seq<char>, idx: Index) -> Option<Seq<char>> {
    match (slide_diagram(renderer, "sequence"@, idx), slide_diagram(renderer, "call-graph"@, idx)) {
        (Some(a), Some(b)) => Some(
            "---\n"@ + "## システムフロー\n"@ + "---\n\n"@ + "---\n"@ + "### シーケンス図\n\n"@ + a
                + "---\n\n"@ + "---\n"@ + "### コールグラフ\n\n"@ + b + "---\n\n"@,
        ),
        _ => None,
    }
}

/// The flow slides of an index.
pub fn flows_slides(index: &Index, diagrammer: &Diagrammer) -> (r: Result<String, SlideError>)
    ensures
        r is Ok <==> flows_slide(diagrammer.renderer@, *index) is Some,
        r matches Ok(t) ==> t@ == flows_slide(diagrammer.renderer@, *index)->0,
{
    let mut out = String::from_str("---\n");
    out.append("## システムフロー\n");
    out.append("---\n\n");
    out.append("---\n");
    out.append("### シーケンス図\n\n");
    push_slide_diagram(&mut out, diagrammer, index, "sequence")?;
    out.append("---\n\n");
    out.append("---\n");
    out.append("### コールグラフ\n\n");
    push_slide_diagram(&mut out, diagrammer, index, "call-graph")?;
    out.append("---\n\n");
    assert(out@ =~= flows_slide(diagrammer.renderer@, *index)->0);
    Ok(out)
}

/// The deployment slides: the deployment diagram and the entry points.
pub open spec fn deploy_slide(renderer: Seq<char>, idx: Index) -> Option<Seq<char>> {
    match slide_diagram(renderer, "deployment"@, idx) {
        Some(d) => Some(
            "---\n"@ + "## デプロイメント構成\n"@ + "---\n\n"@ + d + "\n---\n\n"@ + "---\n"@
                + "### エントリーポイント\n\n"@ + (if idx.entrypoints@.len() > 0 {
                entry_lines(texts(idx.entrypoints@))
            } else {
                "エントリーポイントが見つかりませんでした。\n"@
            }) + "\n---\n\n"@,
        ),
        None => None,
    }
}

/// The deployment slides of an index.
pub fn deploy_slides(index: &Index, diagrammer: &Diagrammer) -> (r: Result<String, SlideError>)
    ensures
        r is Ok <==> deploy_slide(diagrammer.renderer@, *index) is Some,
        r matches Ok(t) ==> t@ == deploy_slide(diagrammer.renderer@, *index)->0,
{
    let mut out = String::from_str("---\n");
    out.append("## デプロイメント構成\n");
    out.append("---\n\n");
    push_slide_diagram(&mut out, diagrammer, index, "deployment")?;
    out.append("\n---\n\n");
    out.append("---\n");
    out.append("### エントリーポイント\n\n");
    let ghost head = out@;
    if index.entrypoints.len() > 0 {
        let mut k: usize = 0;
        while k < index.entrypoints.len()
            invariant
                k <= index.entrypoints@.len(),
                out@ == head + entry_lines(texts(index.entrypoints@).take(k as int)),
            decreases index.entrypoints.len() - k,
        {
            assert(texts(index.entrypoints@).take(k + 1).drop_last() =~= texts(
                index.entrypoints@,
            ).take(k as int));
            out.append("- `");
            out.append(index.entrypoints[k].as_str());
            out.append("`\n");
            assert(out@ =~= head + entry_lines(texts(index.entrypoints@).take(k + 1)));
            k += 1;
        }
        assert(texts(index.entrypoints@).take(k as int) =~= texts(index.entrypoints@));
    } else {
        out.append("エントリーポイントが見つかりませんでした。\n");
    }
    out.append("\n---\n\n");
    assert(out@ =~= deploy_slide(diagrammer.renderer@, *index)->0);
    Ok(out)
}

} // verus!
verus! {

/// The slides of a section: `overview`, `architecture`, `modules`, `flows`,
/// `deploy`, or a plain slide for any other name.
pub open spec fn slide_section_text(renderer: Seq<char>, idx: Index, section: Seq<char>) -> Option<
    Seq<char>,
> {
    if section == "overview"@ {
        overview_slide(renderer, idx)
    } else if section == "architecture"@ {
        architecture_slide(renderer, idx)
    } else if section == "modules"@ {
        modules_slide(idx)
    } else if section == "flows"@ {
        flows_slide(renderer, idx)
    } else if section == "deploy"@ {
        deploy_slide(renderer, idx)
    } else {
        Some("# "@ + section + "\n\nセクションの内容\n"@)
    }
}

/// The slides of a section; fails where a diagram or a summary it shows
/// cannot be made.
pub fn generate_slide_section(index: &Index, section: &str, diagrammer: &Diagrammer) -> (r: Result<
    String,
    SlideError,
>)
    ensures
        r is Ok <==> slide_section_text(diagrammer.renderer@, *index, section@) is Some,
        r matches Ok(t) ==> t@ == slide_section_text(diagrammer.renderer@, *index, section@)->0,
{
    let overview = ['o', 'v', 'e', 'r', 'v', 'i', 'e', 'w'];
    let architecture = ['a', 'r', 'c', 'h', 'i', 't', 'e', 'c', 't', 'u', 'r', 'e'];
    let modules = ['m', 'o', 'd', 'u', 'l', 'e', 's'];
    let flows = ['f', 'l', 'o', 'w', 's'];
    let deploy = ['d', 'e', 'p', 'l', 'o', 'y'];
    proof {
        reveal_strlit("overview");
        reveal_strlit("architecture");
        reveal_strlit("modules");
        reveal_strlit("flows");
        reveal_strlit("deploy");
    }
    assert(overview@ =~= "overview"@);
    assert(architecture@ =~= "architecture"@);
    assert(modules@ =~= "modules"@);
    assert(flows@ =~= "flows"@);
    assert(deploy@ =~= "deploy"@);
    if str_is(section, &overview) {
        overview_slides(index, diagrammer)
    } else if str_is(section, &architecture) {
        architecture_slides(index, diagrammer)
    } else if str_is(section, &modules) {
        modules_slides(index)
    } else if str_is(section, &flows) {
        flows_slides(index, diagrammer)
    } else if str_is(section, &deploy) {
        deploy_slides(index, diagrammer)
    } else {
        let mut out = String::from_str("# ");
        out.append(section);
        out.append("\n\nセクションの内容\n");
        Ok(out)
    }
}

/// The texts of the sections, each followed by a line break.
pub open spec fn section_bodies(sections: Seq<(String, String)>) -> Seq<char>
    decreases sections.len(),
{
    if sections.len() == 0 {
        seq![]
    } else {
        section_bodies(sections.drop_last()) + sections.last().1@ + "\n"@
    }
}

/// A Marp presentation: its front matter, then the sections in order.
pub open spec fn marp_text(sections: Seq<(String, String)>) -> Seq<char> {
    "---\nmarp: true\ntheme: default\n---\n\n"@ + section_bodies(sections)
}

/// The Marp presentation of the sections, in the order given.
pub fn marp_document(sections: &Vec<(String, String)>) -> (r: String)
    ensures
        r@ == marp_text(sections@),
{
    let mut out = String::from_str("---\nmarp: true\ntheme: default\n---\n\n");
    let mut k: usize = 0;
    while k < sections.len()
        invariant
            k <= sections@.len(),
            out@ == "---\nmarp: true\ntheme: default\n---\n\n"@ + section_bodies(
                sections@.take(k as int),
            ),
        decreases sections.len() - k,
    {
        assert(sections@.take(k + 1).drop_last() =~= sections@.take(k as int));
        out.append(sections[k].1.as_str());
        out.append("\n");
        assert(out@ =~= "---\nmarp: true\ntheme: default\n---\n\n"@ + section_bodies(
            sections@.take(k + 1),
        ));
        k += 1;
    }
    assert(sections@.take(k as int) =~= sections@);
    out
}

/// The settings file of the slides, titled with the project's name.
pub open spec fn reveal_book_toml_text(title: Seq<char>) -> Seq<char> {
    "[book]\ntitle = \""@ + title
        + "\"\nauthors = [\"DeepRepoSlides\"]\nlanguage = \"ja\"\n\n[build]\nbuild-dir = \"book\"\n\n[output.html]\ndefault-theme = \"black\"\n\n[output.reveal]\n"@
}

/// The settings file of the slides.
pub fn reveal_book_toml(title: &str) -> (r: String)
    ensures
        r@ == reveal_book_toml_text(title@),
{
    let mut out = String::from_str("[book]\ntitle = \"");
    out.append(title);
    out.append(
        "\"\nauthors = [\"DeepRepoSlides\"]\nlanguage = \"ja\"\n\n[build]\nbuild-dir = \"book\"\n\n[output.html]\ndefault-theme = \"black\"\n\n[output.reveal]\n",
    );
    out
}

/// The lines of the slides' table of contents.
pub open spec fn reveal_lines(sections: Seq<String>) -> Seq<char>
    decreases sections.len(),
{
    if sections.len() == 0 {
        seq![]
    } else {
        reveal_lines(sections.drop_last()) + "- ["@ + slide_title(sections.last()@) + "]("@
            + sections.last()@ + ".md)\n"@
    }
}

/// The table of contents of the slides.
pub fn reveal_summary(sections: &Vec<String>) -> (r: String)
    ensures
        r@ == "# Summary\n\n"@ + reveal_lines(sections@),
{
    let mut out = String::from_str("# Summary\n\n");
    let mut i: usize = 0;
    while i < sections.len()
        invariant
            i <= sections@.len(),
            out@ == "# Summary\n\n"@ + reveal_lines(sections@.take(i as int)),
        decreases sections.len() - i,
    {
        let title = crate::site::get_slide_section_name(sections[i].as_str());
        out.append("- [");
        out.append(title.as_str());
        out.append("](");
        out.append(sections[i].as_str());
        out.append(".md)\n");
        assert(sections@.take(i + 1).drop_last() =~= sections@.take(i as int));
        assert(out@ =~= "# Summary\n\n"@ + reveal_lines(sections@.take(i + 1)));
        i += 1;
    }
    assert(sections@.take(i as int) =~= sections@);
    out
}

} // verus!
