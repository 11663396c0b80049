//! Pages and slides made one after another by a single builder, with the
//! shorter layouts that such a builder uses.
use vstd::prelude::*;

use crate::diagram::{decimal, push_decimal, DiagramError, Diagrammer};
use crate::index::{Index, ModuleInfo};
use crate::slides::{dep_bullets, slide_diagram, SlideError};
use crate::summarize::{module_summary, summarize_module, SummaryError};
use crate::text::{str_is, texts};
use crate::wiki::{diagram_block, entry_lines};

verus! {

/// Why a page could not be made.
#[derive(Clone, Debug)]
pub enum PageError {
    Diagram(DiagramError),
    Summary(SummaryError),
}

/// The architecture page: the counts, the module graph where diagrams are
/// asked for, and one line per module.
pub open spec fn architecture_page(renderer: Seq<char>, idx: Index, with_diagrams: bool) -> Option<
    Seq<char>,
> {
    let head = "# アーキテクチャ\n\n"@ + "## システム構成\n\n"@ + "このリポジトリは"@ + decimal(
        idx.stats.files as nat,
    ) + "ファイル、"@ + decimal(idx.stats.languages@.len()) + "言語、"@ + decimal(
        idx.stats.modules as nat,
    ) + "モジュールで構成されています。\n\n"@;
    let graph = if with_diagrams {
        match diagram_block(renderer, "module-graph"@, idx) {
            Some(b) => Some("## モジュールグラフ\n\n"@ + b),
            None => None,
        }
    } else {
        Some(seq![])
    };
    match graph {
        Some(g) => Some(head + g + "## 主要コンポーネント\n\n"@ + component_bullets(idx.modules@)),
        None => None,
    }
}

/// One bullet per module: its name and path.
pub open spec fn component_bullets(ms: Seq<ModuleInfo>) -> Seq<char>
    decreases ms.len(),
{
    if ms.len() == 0 {
        seq![]
    } else {
        component_bullets(ms.drop_last()) + "- **"@ + ms.last().name@ + "** (`"@ + ms.last().path@
            + "`)\n"@
    }
}

fn push_component_bullets(out: &mut String, ms: &Vec<ModuleInfo>)
    ensures
        final(out)@ == old(out)@ + component_bullets(ms@),
{
    let mut k: usize = 0;
    while k < ms.len()
        invariant
            k <= ms@.len(),
            out@ == old(out)@ + component_bullets(ms@.take(k as int)),
        decreases ms.len() - k,
    {
        assert(ms@.take(k + 1).drop_last() =~= ms@.take(k as int));
        out.append("- **");
        out.append(ms[k].name.as_str());
        out.append("** (`");
        out.append(ms[k].path.as_str());
        out.append("`)\n");
        assert(out@ =~= old(out)@ + component_bullets(ms@.take(k + 1)));
        k += 1;
    }
    assert(ms@.take(k as int) =~= ms@);
}

fn push_counts(out: &mut String, index: &Index)
    ensures
        final(out)@ == old(out)@ + decimal(index.stats.files as nat) + "ファイル、"@ + decimal(
            index.stats.languages@.len(),
        ) + "言語、"@ + decimal(index.stats.modules as nat),
{
    push_decimal(out, index.stats.files);
    out.append("ファイル、");
    push_decimal(out, index.stats.languages.len());
    out.append("言語、");
    push_decimal(out, index.stats.modules);
}

/// The architecture page of an index.
pub fn architecture_page_of(index: &Index, with_diagrams: bool, diagrammer: &Diagrammer) -> (r: Result<
    String,
    PageError,
>)
    ensures
        r is Ok <==> architecture_page(diagrammer.renderer@, *index, with_diagrams) is Some,
        r matches Ok(t) ==> t@ == architecture_page(diagrammer.renderer@, *index, with_diagrams)->0,
{
    let mut out = String::from_str("# アーキテクチャ\n\n");
    out.append("## システム構成\n\n");
    out.append("このリポジトリは");
    push_counts(&mut out, index);
    out.append("モジュールで構成されています。\n\n");
    let ghost head = out@;
    if with_diagrams {
        out.append("## モジュールグラフ\n\n");
        match diagrammer.generate_diagram(index, "module-graph") {
            Ok(d) => {
                crate::wiki::push_fenced(&mut out, &d);
            },
            Err(e) => {
                return Err(PageError::Diagram(e));
            },
        }
    }
    let ghost mid = out@;
    out.append("## 主要コンポーネント\n\n");
    push_component_bullets(&mut out, &index.modules);
    assert(out@ =~= architecture_page(diagrammer.renderer@, *index, with_diagrams)->0);
    Ok(out)
}

/// The part of the modules page about one module, given the summary of its file.
pub open spec fn module_part(m: ModuleInfo, summary: Seq<char>) -> Seq<char> {
    "## "@ + m.name@ + "\n\n"@ + "パス: `"@ + m.path@ + "`\n\n"@ + "言語: "@ + m.language@ + "\n\n"@
        + (if m.dependencies@.len() > 0 {
        "### 依存関係\n\n"@ + dep_bullets(texts(m.dependencies@)) + "\n"@
    } else {
        seq![]
    }) + summary + "\n\n"@
}

/// The parts of the first `k` modules; `None` where a module has no file in
/// the index to summarise.
pub open spec fn module_parts(idx: Index, k: int) -> Option<Seq<char>>
    decreases k,
{
    if k <= 0 {
        Some(seq![])
    } else {
        match (
            module_parts(idx, k - 1),
            module_summary(idx, idx.modules@[k - 1].path@, "concise-ja"@),
        ) {
            (Some(a), Some(s)) => Some(a + module_part(idx.modules@[k - 1], s)),
            _ => None,
        }
    }
}

/// The modules page: every module with its dependencies and summary.
pub open spec fn modules_page(idx: Index) -> Option<Seq<char>> {
    match module_parts(idx, idx.modules@.len() as int) {
        Some(body) => Some("# モジュール\n\n"@ + body),
        None => None,
    }
}

proof fn lemma_parts_stay_none(idx: Index, a: int, b: int)
    requires
        a <= b,
        module_parts(idx, a) is None,
    ensures
        module_parts(idx, b) is None,
    decreases b - a,
{
    if a < b {
        lemma_parts_stay_none(idx, a, b - 1);
    }
}

fn push_module_part(out: &mut String, m: &ModuleInfo, summary: &str)
    ensures
        final(out)@ == old(out)@ + module_part(*m, summary@),
{
    out.append("## ");
    out.append(m.name.as_str());
    out.append("\n\n");
    out.append("パス: `");
    out.append(m.path.as_str());
    out.append("`\n\n");
    out.append("言語: ");
    out.append(m.language.as_str());
    out.append("\n\n");
    let ghost a = out@;
    if m.dependencies.len() > 0 {
        out.append("### 依存関係\n\n");
        crate::slides::push_dep_bullets(out, &m.dependencies);
        out.append("\n");
    }
    let ghost b = out@;
    out.append(summary);
    out.append("\n\n");
    assert(final(out)@ =~= old(out)@ + module_part(*m, summary@));
}

/// The modules page of an index.
pub fn modules_page_of(index: &Index) -> (r: Result<String, PageError>)
    ensures
        r is Ok <==> modules_page(*index) is Some,
        r matches Ok(t) ==> t@ == modules_page(*index)->0,
{
    let mut out = String::from_str("# モジュール\n\n");
    let ghost start = out@;
    let mut i: usize = 0;
    while i < index.modules.len()
        invariant
            i <= index.modules@.len(),
            module_parts(*index, i as int) is Some,
            out@ == start + module_parts(*index, i as int)->0,
        decreases index.modules.len() - i,
    {
        let m = &index.modules[i];
        let summary = match summarize_module(index, m.path.as_str(), "concise-ja") {
            Ok(s) => s,
            Err(e) => {
                proof {
                    lemma_parts_stay_none(*index, i + 1, index.modules@.len() as int);
                }
                return Err(PageError::Summary(e));
            },
        };
        push_module_part(&mut out, m, summary.as_str());
        assert(out@ =~= start + module_parts(*index, i + 1)->0);
        i += 1;
    }
    Ok(out)
}

/// The deployment page: the deployment diagram and the entry points.
pub open spec fn deploy_page(renderer: Seq<char>, idx: Index) -> Option<Seq<char>> {
    match diagram_block(renderer, "deployment"@, idx) {
        Some(b) => Some(
            "# デプロイ\n\n"@ + "## デプロイメント構成\n\n"@ + b + "## エントリーポイント\n\n"@
                + entry_lines(texts(idx.entrypoints@)),
        ),
        None => None,
    }
}

fn push_entry_lines(out: &mut String, eps: &Vec<String>)
    ensures
        final(out)@ == old(out)@ + entry_lines(texts(eps@)),
{
    let mut k: usize = 0;
    while k < eps.len()
        invariant
            k <= eps@.len(),
            out@ == old(out)@ + entry_lines(texts(eps@).take(k as int)),
        decreases eps.len() - k,
    {
        assert(texts(eps@).take(k + 1).drop_last() =~= texts(eps@).take(k as int));
        out.append("- `");
        out.append(eps[k].as_str());
        out.append("`\n");
        assert(out@ =~= old(out)@ + entry_lines(texts(eps@).take(k + 1)));
        k += 1;
    }
    assert(texts(eps@).take(k as int) =~= texts(eps@));
}

/// The deployment page of an index.
pub fn deploy_page_of(index: &Index, diagrammer: &Diagrammer) -> (r: Result<String, PageError>)
    ensures
        r is Ok <==> deploy_page(diagrammer.renderer@, *index) is Some,
        r matches Ok(t) ==> t@ == deploy_page(diagrammer.renderer@, *index)->0,
{
    let mut out = String::from_str("# デプロイ\n\n");
    out.append("## デプロイメント構成\n\n");
    match diagrammer.generate_diagram(index, "deployment") {
        Ok(d) => {
            crate::wiki::push_fenced(&mut out, &d);
        },
        Err(e) => {
            return Err(PageError::Diagram(e));
        },
    }
    out.append("## エントリーポイント\n\n");
    push_entry_lines(&mut out, &index.entrypoints);
    assert(out@ =~= deploy_page(diagrammer.renderer@, *index)->0);
    Ok(out)
}

} // verus!
verus! {

/// A page made one after another, and how many pages it counts for: the
/// modules page counts one per module, at least one; any other page one.
pub open spec fn serial_page(renderer: Seq<char>, idx: Index, section: Seq<char>, with_diagrams: bool) -> Option<
    (Seq<char>, nat),
> {
    let text = if section == "overview"@ {
        Some(crate::summarize::repo_summary(idx, "concise-ja"@))
    } else if section == "architecture"@ {
        architecture_page(renderer, idx, with_diagrams)
    } else if section == "modules"@ {
        modules_page(idx)
    } else if section == "flows"@ {
        crate::wiki::flows_text(renderer, idx, with_diagrams)
    } else if section == "deploy"@ {
        deploy_page(renderer, idx)
    } else if section == "faq"@ {
        Some(crate::wiki::faq_text(idx))
    } else {
        Some(crate::wiki::plain_text(section))
    };
    match text {
        Some(t) => Some(
            (
                t,
                if section == "modules"@ && idx.modules@.len() > 1 {
                    idx.modules@.len()
                } else {
                    1nat
                },
            ),
        ),
        None => None,
    }
}

/// A page made one after another, with the number of pages it counts for.
pub fn serial_section(index: &Index, section: &str, with_diagrams: bool, diagrammer: &Diagrammer) -> (r:
    Result<(String, usize), PageError>)
    ensures
        r is Ok <==> serial_page(diagrammer.renderer@, *index, section@, with_diagrams) is Some,
        r matches Ok((t, n)) ==> serial_page(diagrammer.renderer@, *index, section@, with_diagrams)
            == Some((t@, n as nat)),
{
    let overview = ['o', 'v', 'e', 'r', 'v', 'i', 'e', 'w'];
    let architecture = ['a', 'r', 'c', 'h', 'i', 't', 'e', 'c', 't', 'u', 'r', 'e'];
    let modules = ['m', 'o', 'd', 'u', 'l', 'e', 's'];
    let flows = ['f', 'l', 'o', 'w', 's'];
    let deploy = ['d', 'e', 'p', 'l', 'o', 'y'];
    let faq = ['f', 'a', 'q'];
    proof {
        reveal_strlit("overview");
        reveal_strlit("architecture");
        reveal_strlit("modules");
        reveal_strlit("flows");
        reveal_strlit("deploy");
        reveal_strlit("faq");
    }
    assert(overview@ =~= "overview"@);
    assert(architecture@ =~= "architecture"@);
    assert(modules@ =~= "modules"@);
    assert(flows@ =~= "flows"@);
    assert(deploy@ =~= "deploy"@);
    assert(faq@ =~= "faq"@);
    let is_modules = str_is(section, &modules);
    let text = if str_is(section, &overview) {
        crate::summarize::summarize_repo(index, "concise-ja")
    } else if str_is(section, &architecture) {
        architecture_page_of(index, with_diagrams, diagrammer)?
    } else if is_modules {
        modules_page_of(index)?
    } else if str_is(section, &flows) {
        match crate::wiki::flows_section(index, with_diagrams, diagrammer) {
            Ok(t) => t,
            Err(e) => {
                return Err(PageError::Diagram(e));
            },
        }
    } else if str_is(section, &deploy) {
        deploy_page_of(index, diagrammer)?
    } else if str_is(section, &faq) {
        crate::wiki::faq_section(index)
    } else {
        let mut out = String::from_str("# ");
        out.append(section);
        out.append("\n\nセクションの内容\n");
        assert(out@ =~= crate::wiki::plain_text(section@));
        out
    };
    let pages: usize = if is_modules && index.modules.len() > 1 {
        index.modules.len()
    } else {
        1
    };
    Ok((text, pages))
}

/// The short overview slide: the project's name, the counts, the module graph.
pub open spec fn short_overview_slide(renderer: Seq<char>, idx: Index, title: Seq<char>) -> Option<
    Seq<char>,
> {
    match slide_diagram(renderer, "module-graph"@, idx) {
        Some(d) => Some(
            "---\n"@ + "# "@ + title + "\n\n"@ + decimal(idx.stats.files as nat) + "ファイル、"@
                + decimal(idx.stats.languages@.len()) + "言語、"@ + decimal(idx.stats.modules as nat)
                + "モジュール\n"@ + "---\n\n"@ + "## 全体構成\n\n"@ + d,
        ),
        None => None,
    }
}

/// One bullet per module name.
pub open spec fn name_bullets(ms: Seq<ModuleInfo>) -> Seq<char>
    decreases ms.len(),
{
    if ms.len() == 0 {
        seq![]
    } else {
        name_bullets(ms.drop_last()) + "- **"@ + ms.last().name@ + "**\n"@
    }
}

/// One slide per module: its name, path and dependencies.
pub open spec fn short_module_slides(ms: Seq<ModuleInfo>) -> Seq<char>
    decreases ms.len(),
{
    if ms.len() == 0 {
        seq![]
    } else {
        short_module_slides(ms.drop_last()) + "### "@ + ms.last().name@ + "\n\n"@ + "パス: `"@
            + ms.last().path@ + "`\n\n"@ + (if ms.last().dependencies@.len() > 0 {
            "依存関係:\n"@ + dep_bullets(texts(ms.last().dependencies@))
        } else {
            seq![]
        }) + "\n---\n\n"@
    }
}

/// The short slides of a section, as a single builder makes them for a Marp
/// deck; `None` for a section it has no slide for, or where a diagram
/// cannot be drawn.
pub open spec fn short_slide(renderer: Seq<char>, idx: Index, title: Seq<char>, section: Seq<char>) -> Option<
    Option<Seq<char>>,
> {
    if section == "overview"@ {
        match short_overview_slide(renderer, idx, title) {
            Some(t) => Some(Some(t)),
            None => None,
        }
    } else if section == "architecture"@ {
        Some(Some("---\n## アーキテクチャ\n---\n\n### 主要モジュール\n\n"@ + name_bullets(idx.modules@)))
    } else if section == "modules"@ {
        Some(Some("---\n## モジュール\n---\n\n"@ + short_module_slides(idx.modules@)))
    } else if section == "flows"@ {
        match slide_diagram(renderer, "sequence"@, idx) {
            Some(d) => Some(Some("---\n## フロー\n---\n\n### シーケンス図\n\n"@ + d)),
            None => None,
        }
    } else if section == "deploy"@ {
        Some(
            Some(
                "---\n## デプロイ\n---\n\n### エントリーポイント\n\n"@ + entry_lines(
                    texts(idx.entrypoints@),
                ),
            ),
        )
    } else {
        Some(None)
    }
}

} // verus!
verus! {

fn push_slide(out: &mut String, diagrammer: &Diagrammer, index: &Index, kind: &str) -> (r: Result<
    (),
    PageError,
>)
    ensures
        r is Ok <==> slide_diagram(diagrammer.renderer@, kind@, *index) is Some,
        r is Ok ==> final(out)@ == old(out)@ + slide_diagram(diagrammer.renderer@, kind@, *index)->0,
{
    match crate::slides::push_slide_diagram(out, diagrammer, index, kind) {
        Ok(()) => Ok(()),
        Err(SlideError::Diagram(e)) => Err(PageError::Diagram(e)),
        Err(SlideError::Summary(e)) => Err(PageError::Summary(e)),
    }
}

fn push_name_bullets(out: &mut String, ms: &Vec<ModuleInfo>)
    ensures
        final(out)@ == old(out)@ + name_bullets(ms@),
{
    let mut k: usize = 0;
    while k < ms.len()
        invariant
            k <= ms@.len(),
            out@ == old(out)@ + name_bullets(ms@.take(k as int)),
        decreases ms.len() - k,
    {
        assert(ms@.take(k + 1).drop_last() =~= ms@.take(k as int));
        out.append("- **");
        out.append(ms[k].name.as_str());
        out.append("**\n");
        assert(out@ =~= old(out)@ + name_bullets(ms@.take(k + 1)));
        k += 1;
    }
    assert(ms@.take(k as int) =~= ms@);
}

fn push_short_module(out: &mut String, m: &ModuleInfo)
    ensures
        final(out)@ == old(out)@ + "### "@ + m.name@ + "\n\n"@ + "パス: `"@ + m.path@ + "`\n\n"@ + (if m.dependencies@.len() > 0 {
            "依存関係:\n"@ + dep_bullets(texts(m.dependencies@))
        } else {
            seq![]
        }) + "\n---\n\n"@,
{
    out.append("### ");
    out.append(m.name.as_str());
    out.append("\n\n");
    out.append("パス: `");
    out.append(m.path.as_str());
    out.append("`\n\n");
    let ghost a = out@;
    if m.dependencies.len() > 0 {
        out.append("依存関係:\n");
        crate::slides::push_dep_bullets(out, &m.dependencies);
    }
    let ghost b = out@;
    out.append("\n---\n\n");
}

fn push_short_modules(out: &mut String, ms: &Vec<ModuleInfo>)
    ensures
        final(out)@ == old(out)@ + short_module_slides(ms@),
{
    let mut k: usize = 0;
    while k < ms.len()
        invariant
            k <= ms@.len(),
            out@ == old(out)@ + short_module_slides(ms@.take(k as int)),
        decreases ms.len() - k,
    {
        assert(ms@.take(k + 1).drop_last() =~= ms@.take(k as int));
        push_short_module(out, &ms[k]);
        assert(out@ =~= old(out)@ + short_module_slides(ms@.take(k + 1)));
        k += 1;
    }
    assert(ms@.take(k as int) =~= ms@);
}

/// The short slides of a section, where there are any for it.
pub fn short_slide_of(index: &Index, title: &str, section: &str, diagrammer: &Diagrammer) -> (r: Result<
    Option<String>,
    PageError,
>)
    ensures
        r is Ok <==> short_slide(diagrammer.renderer@, *index, title@, section@) is Some,
        r matches Ok(o) ==> match (o, short_slide(diagrammer.renderer@, *index, title@, section@)) {
            (Some(t), Some(Some(s))) => t@ == s,
            (None, Some(None)) => true,
            _ => false,
        },
{
    let overview = ['o', 'v', 'e', 'r', 'v', 'i', 'e', 'w'];
    let architecture = ['a', 'r', 'c', 'h', 'i', 't', 'e', 'c', 't', 'u', 'r', 'e'];
    let modules = ['m', 'o', 'd', 'u', 'l', 'e', 's'];
    let flows = ['f', 'l', 'o', 'w', 's'];
    let deploy = ['d', 'e', 'p', 'l', 'o', 'y'];
    proof {
        reveal_strlit("overview");
        reveal_strlit("architecture");
        reveal_strlit("modules");
        reveal_strlit("flows");
        reveal_strlit("deploy");
    }
    assert(overview@ =~= "overview"@);
    assert(architecture@ =~= "architecture"@);
    assert(modules@ =~= "modules"@);
    assert(flows@ =~= "flows"@);
    assert(deploy@ =~= "deploy"@);
    if str_is(section, &overview) {
        let mut out = String::from_str("---\n");
        out.append("# ");
        out.append(title);
        out.append("\n\n");
        push_counts(&mut out, index);
        out.append("モジュール\n");
        out.append("---\n\n");
        out.append("## 全体構成\n\n");
        push_slide(&mut out, diagrammer, index, "module-graph")?;
        assert(out@ =~= short_overview_slide(diagrammer.renderer@, *index, title@)->0);
        Ok(Some(out))
    } else if str_is(section, &architecture) {
        let mut out = String::from_str("---\n## アーキテクチャ\n---\n\n### 主要モジュール\n\n");
        push_name_bullets(&mut out, &index.modules);
        Ok(Some(out))
    } else if str_is(section, &modules) {
        let mut out = String::from_str("---\n## モジュール\n---\n\n");
        push_short_modules(&mut out, &index.modules);
        Ok(Some(out))
    } else if str_is(section, &flows) {
        let mut out = String::from_str("---\n## フロー\n---\n\n### シーケンス図\n\n");
        push_slide(&mut out, diagrammer, index, "sequence")?;
        Ok(Some(out))
    } else if str_is(section, &deploy) {
        let mut out = String::from_str("---\n## デプロイ\n---\n\n### エントリーポイント\n\n");
        push_entry_lines(&mut out, &index.entrypoints);
        Ok(Some(out))
    } else {
        Ok(None)
    }
}

/// The short slides of the sections, in order, a section without slides
/// left out; `None` where one cannot be made.
pub open spec fn short_deck(renderer: Seq<char>, idx: Index, title: Seq<char>, sections: Seq<String>) -> Option<
    Seq<char>,
>
    decreases sections.len(),
{
    if sections.len() == 0 {
        Some("---\nmarp: true\ntheme: default\n---\n\n"@)
    } else {
        match (
            short_deck(renderer, idx, title, sections.drop_last()),
            short_slide(renderer, idx, title, sections.last()@),
        ) {
            (Some(a), Some(Some(s))) => Some(a + s),
            (Some(a), Some(None)) => Some(a),
            _ => None,
        }
    }
}

proof fn lemma_deck_stays_none(renderer: Seq<char>, idx: Index, title: Seq<char>, sections: Seq<String>, a: int)
    requires
        0 <= a <= sections.len(),
        short_deck(renderer, idx, title, sections.take(a)) is None,
    ensures
        short_deck(renderer, idx, title, sections) is None,
    decreases sections.len() - a,
{
    if a < sections.len() {
        assert(sections.take(a + 1).drop_last() =~= sections.take(a));
        lemma_deck_stays_none(renderer, idx, title, sections, a + 1);
    } else {
        assert(sections.take(a) =~= sections);
    }
}

/// A Marp deck of short slides, made one section after another.
pub fn short_marp_deck(index: &Index, title: &str, sections: &Vec<String>, diagrammer: &Diagrammer) -> (r:
    Result<String, PageError>)
    ensures
        r is Ok <==> short_deck(diagrammer.renderer@, *index, title@, sections@) is Some,
        r matches Ok(t) ==> t@ == short_deck(diagrammer.renderer@, *index, title@, sections@)->0,
{
    let mut out = String::from_str("---\nmarp: true\ntheme: default\n---\n\n");
    let mut k: usize = 0;
    assert(sections@.take(0) =~= seq![]);
    while k < sections.len()
        invariant
            k <= sections@.len(),
            short_deck(diagrammer.renderer@, *index, title@, sections@.take(k as int)) is Some,
            out@ == short_deck(diagrammer.renderer@, *index, title@, sections@.take(k as int))->0,
        decreases sections.len() - k,
    {
        assert(sections@.take(k + 1).drop_last() =~= sections@.take(k as int));
        match short_slide_of(index, title, sections[k].as_str(), diagrammer) {
            Ok(Some(t)) => {
                out.append(t.as_str());
            },
            Ok(None) => {},
            Err(e) => {
                proof {
                    lemma_deck_stays_none(
                        diagrammer.renderer@,
                        *index,
                        title@,
                        sections@,
                        k + 1,
                    );
                }
                return Err(e);
            },
        }
        k += 1;
    }
    assert(sections@.take(k as int) =~= sections@);
    Ok(out)
}

} // verus!
verus! {

/// The short slides of a section for a slide site: a plain slide for a
/// section that has none of its own.
pub open spec fn short_section(renderer: Seq<char>, idx: Index, title: Seq<char>, section: Seq<char>) -> Option<
    Seq<char>,
> {
    match short_slide(renderer, idx, title, section) {
        Some(Some(t)) => Some(t),
        Some(None) => Some("# "@ + section + "\n\nセクションの内容\n"@),
        None => None,
    }
}

/// The short slides of a section for a slide site.
pub fn short_section_of(index: &Index, title: &str, section: &str, diagrammer: &Diagrammer) -> (r:
    Result<String, PageError>)
    ensures
        r is Ok <==> short_section(diagrammer.renderer@, *index, title@, section@) is Some,
        r matches Ok(t) ==> short_section(diagrammer.renderer@, *index, title@, section@) == Some(
            t@,
        ),
{
    match short_slide_of(index, title, section, diagrammer)? {
        Some(t) => Ok(t),
        None => {
            let mut out = String::from_str("# ");
            out.append(section);
            out.append("\n\nセクションの内容\n");
            Ok(out)
        },
    }
}

} // verus!
