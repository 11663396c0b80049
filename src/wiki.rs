//! The pages of the documentation site, each computed from the index alone.
use vstd::prelude::*;

use crate::diagram::{decimal, diagram_spec, push_decimal, Diagram, DiagramError, Diagrammer};
use crate::index::{Index, ModuleInfo};
use crate::search::{lower_of, lowercase};
use crate::methods::{extract_methods_detailed, method_view, methods_spec};
use crate::summary::{contains_chars, has, infer_function_purpose_simple, purpose_text, MethodInfo};
use crate::text::{chars_of as chars_of_str, str_is, texts};

verus! {

/// The strings joined with `, ` between them.
pub open spec fn joined(v: Seq<Seq<char>>) -> Seq<char>
    decreases v.len(),
{
    if v.len() == 0 {
        seq![]
    } else if v.len() == 1 {
        v[0]
    } else {
        joined(v.drop_last()) + ", "@ + v.last()
    }
}

fn push_joined(out: &mut String, v: &Vec<String>)
    ensures
        final(out)@ == old(out)@ + joined(texts(v@)),
{
    let mut k: usize = 0;
    while k < v.len()
        invariant
            k <= v@.len(),
            out@ == old(out)@ + joined(texts(v@).take(k as int)),
        decreases v.len() - k,
    {
        assert(texts(v@).take(k + 1).drop_last() =~= texts(v@).take(k as int));
        if k > 0 {
            out.append(", ");
        }
        out.append(v[k].as_str());
        assert(out@ =~= old(out)@ + joined(texts(v@).take(k + 1)));
        k += 1;
    }
    assert(texts(v@).take(k as int) =~= texts(v@));
}

/// The overview page: the counts of the index and a chart of them.
pub open spec fn overview_text(idx: Index) -> Seq<char> {
    let files = decimal(idx.stats.files as nat);
    let modules = decimal(idx.stats.modules as nat);
    "# 概要\n\nこのページでは、リポジトリ全体の構成を図で示します。\n\n## 統計情報\n\n- **ファイル数**: "@
        + files + "個\n- **使用言語**: "@ + joined(texts(idx.stats.languages@))
        + "\n- **モジュール数**: "@ + modules
        + "個\n\n## 全体構成図\n\n```mermaid\ngraph TD\n    A[リポジトリ全体] --> B[ファイル]\n    A --> C[モジュール]\n    A --> D[依存関係]\n    B --> E["@
        + files + "ファイル]\n    C --> F["@ + modules + "モジュール]\n```\n\n"@
}

/// The overview page of an index.
pub fn overview_section(index: &Index) -> (r: String)
    ensures
        r@ == overview_text(*index),
{
    let mut out = String::from_str(
        "# 概要\n\nこのページでは、リポジトリ全体の構成を図で示します。\n\n## 統計情報\n\n- **ファイル数**: ",
    );
    push_decimal(&mut out, index.stats.files);
    out.append("個\n- **使用言語**: ");
    push_joined(&mut out, &index.stats.languages);
    out.append("\n- **モジュール数**: ");
    push_decimal(&mut out, index.stats.modules);
    out.append(
        "個\n\n## 全体構成図\n\n```mermaid\ngraph TD\n    A[リポジトリ全体] --> B[ファイル]\n    A --> C[モジュール]\n    A --> D[依存関係]\n    B --> E[",
    );
    push_decimal(&mut out, index.stats.files);
    out.append("ファイル]\n    C --> F[");
    push_decimal(&mut out, index.stats.modules);
    out.append("モジュール]\n```\n\n");
    assert(out@ =~= overview_text(*index));
    out
}

/// The bullet lines of the entry points.
pub open spec fn entry_lines(eps: Seq<Seq<char>>) -> Seq<char>
    decreases eps.len(),
{
    if eps.len() == 0 {
        seq![]
    } else {
        entry_lines(eps.drop_last()) + "- `"@ + eps.last() + "`\n"@
    }
}

/// The FAQ page: what the repository holds and where to start.
pub open spec fn faq_text(idx: Index) -> Seq<char> {
    "# FAQ\n\n## よくある質問\n\n### このリポジトリは何ですか？\n\n"@ + decimal(
        idx.stats.files as nat,
    ) + "ファイル、"@ + decimal(idx.stats.languages@.len()) + "言語、"@ + decimal(
        idx.stats.modules as nat,
    ) + "モジュールを含むリポジトリです。\n\n### どのように始めますか？\n\n"@ + if idx.entrypoints@.len()
        > 0 {
        "エントリーポイント:\n"@ + entry_lines(texts(idx.entrypoints@))
    } else {
        "エントリーポイントが見つかりませんでした。\n"@
    }
}

/// The FAQ page of an index.
pub fn faq_section(index: &Index) -> (r: String)
    ensures
        r@ == faq_text(*index),
{
    let mut out = String::from_str("# FAQ\n\n## よくある質問\n\n### このリポジトリは何ですか？\n\n");
    push_decimal(&mut out, index.stats.files);
    out.append("ファイル、");
    push_decimal(&mut out, index.stats.languages.len());
    out.append("言語、");
    push_decimal(&mut out, index.stats.modules);
    out.append("モジュールを含むリポジトリです。\n\n### どのように始めますか？\n\n");
    let ghost head = out@;
    if index.entrypoints.len() > 0 {
        out.append("エントリーポイント:\n");
        let ghost start = out@;
        let mut k: usize = 0;
        while k < index.entrypoints.len()
            invariant
                k <= index.entrypoints@.len(),
                out@ == start + entry_lines(texts(index.entrypoints@).take(k as int)),
            decreases index.entrypoints.len() - k,
        {
            assert(texts(index.entrypoints@).take(k + 1).drop_last() =~= texts(
                index.entrypoints@,
            ).take(k as int));
            out.append("- `");
            out.append(index.entrypoints[k].as_str());
            out.append("`\n");
            assert(out@ =~= start + entry_lines(texts(index.entrypoints@).take(k + 1)));
            k += 1;
        }
        assert(texts(index.entrypoints@).take(k as int) =~= texts(index.entrypoints@));
    } else {
        out.append("エントリーポイントが見つかりませんでした。\n");
    }
    assert(out@ =~= faq_text(*index));
    out
}

/// A diagram as a fenced block, where it is drawn with Mermaid.
pub open spec fn fenced(format: Seq<char>, content: Seq<char>) -> Seq<char> {
    if format == "mermaid"@ {
        "```mermaid\n"@ + content + "\n```\n\n"@
    } else {
        seq![]
    }
}

pub fn push_fenced(out: &mut String, d: &Diagram)
    ensures
        final(out)@ == old(out)@ + fenced(d.format@, d.content@),
{
    let mermaid = ['m', 'e', 'r', 'm', 'a', 'i', 'd'];
    proof {
        reveal_strlit("mermaid");
    }
    assert(mermaid@ =~= "mermaid"@);
    if str_is(d.format.as_str(), &mermaid) {
        out.append("```mermaid\n");
        out.append(d.content.as_str());
        out.append("\n```\n\n");
    }
    assert(final(out)@ =~= old(out)@ + fenced(d.format@, d.content@));
}

/// The fenced block of the diagram of kind `kind`, or `None` where it cannot be drawn.
pub open spec fn diagram_block(renderer: Seq<char>, kind: Seq<char>, idx: Index) -> Option<
    Seq<char>,
> {
    match diagram_spec(renderer, kind, idx) {
        Ok((content, format)) => Some(fenced(format, content)),
        Err(_) => None,
    }
}

fn push_diagram(out: &mut String, diagrammer: &Diagrammer, index: &Index, kind: &str) -> (r: Result<
    (),
    DiagramError,
>)
    ensures
        r is Ok <==> diagram_block(diagrammer.renderer@, kind@, *index) is Some,
        r is Ok ==> final(out)@ == old(out)@ + diagram_block(
            diagrammer.renderer@,
            kind@,
            *index,
        )->0,
{
    match diagrammer.generate_diagram(index, kind) {
        Ok(d) => {
            push_fenced(out, &d);
            Ok(())
        },
        Err(e) => Err(e),
    }
}

/// The architecture page: the module graph, where diagrams are asked for.
pub open spec fn architecture_text(renderer: Seq<char>, idx: Index, with_diagrams: bool) -> Option<
    Seq<char>,
> {
    if with_diagrams {
        match diagram_block(renderer, "module-graph"@, idx) {
            Some(b) => Some("# アーキテクチャ\n\n"@ + "## モジュールグラフ\n\n"@ + b),
            None => None,
        }
    } else {
        Some("# アーキテクチャ\n\n"@)
    }
}

/// The architecture page; fails where the module graph cannot be drawn.
pub fn architecture_section(index: &Index, with_diagrams: bool, diagrammer: &Diagrammer) -> (r:
    Result<String, DiagramError>)
    ensures
        r is Ok <==> architecture_text(diagrammer.renderer@, *index, with_diagrams) is Some,
        r matches Ok(t) ==> t@ == architecture_text(diagrammer.renderer@, *index, with_diagrams)->0,
{
    let mut out = String::from_str("# アーキテクチャ\n\n");
    if with_diagrams {
        out.append("## モジュールグラフ\n\n");
        let ghost head = out@;
        match push_diagram(&mut out, diagrammer, index, "module-graph") {
            Ok(()) => {},
            Err(e) => {
                return Err(e);
            },
        }
    }
    assert(out@ =~= architecture_text(diagrammer.renderer@, *index, with_diagrams)->0);
    Ok(out)
}

/// The flows page: the sequence diagram and the call graph, where diagrams
/// are asked for.
pub open spec fn flows_text(renderer: Seq<char>, idx: Index, with_diagrams: bool) -> Option<
    Seq<char>,
> {
    if with_diagrams {
        match (diagram_block(renderer, "sequence"@, idx), diagram_block(renderer, "call-graph"@, idx)) {
            (Some(a), Some(b)) => Some(
                "# フロー\n\n"@ + "## シーケンス図\n\n"@ + a + "## コールグラフ\n\n"@ + b,
            ),
            _ => None,
        }
    } else {
        Some("# フロー\n\n"@)
    }
}

/// The flows page; fails where a diagram cannot be drawn.
pub fn flows_section(index: &Index, with_diagrams: bool, diagrammer: &Diagrammer) -> (r: Result<
    String,
    DiagramError,
>)
    ensures
        r is Ok <==> flows_text(diagrammer.renderer@, *index, with_diagrams) is Some,
        r matches Ok(t) ==> t@ == flows_text(diagrammer.renderer@, *index, with_diagrams)->0,
{
    let mut out = String::from_str("# フロー\n\n");
    if with_diagrams {
        out.append("## シーケンス図\n\n");
        match push_diagram(&mut out, diagrammer, index, "sequence") {
            Ok(()) => {},
            Err(e) => {
                return Err(e);
            },
        }
        out.append("## コールグラフ\n\n");
        match push_diagram(&mut out, diagrammer, index, "call-graph") {
            Ok(()) => {},
            Err(e) => {
                return Err(e);
            },
        }
    }
    assert(out@ =~= flows_text(diagrammer.renderer@, *index, with_diagrams)->0);
    Ok(out)
}

/// The deployment page.
pub open spec fn deploy_text(renderer: Seq<char>, idx: Index) -> Option<Seq<char>> {
    match diagram_block(renderer, "deployment"@, idx) {
        Some(b) => Some("# デプロイ\n\n## デプロイメント構成図\n\n"@ + b),
        None => None,
    }
}

/// The deployment page; fails where the diagram cannot be drawn.
pub fn deploy_section(index: &Index, diagrammer: &Diagrammer) -> (r: Result<String, DiagramError>)
    ensures
        r is Ok <==> deploy_text(diagrammer.renderer@, *index) is Some,
        r matches Ok(t) ==> t@ == deploy_text(diagrammer.renderer@, *index)->0,
{
    let mut out = String::from_str("# デプロイ\n\n## デプロイメント構成図\n\n");
    match push_diagram(&mut out, diagrammer, index, "deployment") {
        Ok(()) => {},
        Err(e) => {
            return Err(e);
        },
    }
    assert(out@ =~= deploy_text(diagrammer.renderer@, *index)->0);
    Ok(out)
}

/// The page of a section that has no generator of its own.
pub open spec fn plain_text(section: Seq<char>) -> Seq<char> {
    "# "@ + section + "\n\nセクションの内容\n"@
}

/// The page of an ordinary section: `overview`, `architecture`, `flows`,
/// `deploy`, `faq`, or a plain page for any other name.
pub open spec fn section_text(
    renderer: Seq<char>,
    idx: Index,
    section: Seq<char>,
    with_diagrams: bool,
) -> Option<Seq<char>> {
    if section == "overview"@ {
        Some(overview_text(idx))
    } else if section == "architecture"@ {
        architecture_text(renderer, idx, with_diagrams)
    } else if section == "flows"@ {
        flows_text(renderer, idx, with_diagrams)
    } else if section == "deploy"@ {
        deploy_text(renderer, idx)
    } else if section == "faq"@ {
        Some(faq_text(idx))
    } else {
        Some(plain_text(section))
    }
}

/// The page of an ordinary section; fails where a diagram it shows cannot be drawn.
pub fn generate_section(index: &Index, section: &str, with_diagrams: bool, diagrammer: &Diagrammer) -> (r:
    Result<String, DiagramError>)
    ensures
        r is Ok <==> section_text(diagrammer.renderer@, *index, section@, with_diagrams) is Some,
        r matches Ok(t) ==> t@ == section_text(
            diagrammer.renderer@,
            *index,
            section@,
            with_diagrams,
        )->0,
{
    let overview = ['o', 'v', 'e', 'r', 'v', 'i', 'e', 'w'];
    let architecture = ['a', 'r', 'c', 'h', 'i', 't', 'e', 'c', 't', 'u', 'r', 'e'];
    let flows = ['f', 'l', 'o', 'w', 's'];
    let deploy = ['d', 'e', 'p', 'l', 'o', 'y'];
    let faq = ['f', 'a', 'q'];
    proof {
        reveal_strlit("overview");
        reveal_strlit("architecture");
        reveal_strlit("flows");
        reveal_strlit("deploy");
        reveal_strlit("faq");
    }
    assert(overview@ =~= "overview"@);
    assert(architecture@ =~= "architecture"@);
    assert(flows@ =~= "flows"@);
    assert(deploy@ =~= "deploy"@);
    assert(faq@ =~= "faq"@);
    if str_is(section, &overview) {
        Ok(overview_section(index))
    } else if str_is(section, &architecture) {
        architecture_section(index, with_diagrams, diagrammer)
    } else if str_is(section, &flows) {
        flows_section(index, with_diagrams, diagrammer)
    } else if str_is(section, &deploy) {
        deploy_section(index, diagrammer)
    } else if str_is(section, &faq) {
        Ok(faq_section(index))
    } else {
        let mut out = String::from_str("# ");
        out.append(section);
        out.append("\n\nセクションの内容\n");
        assert(out@ =~= plain_text(section@));
        Ok(out)
    }
}

} // verus!
verus! {

/// The lines of `s` from position `i` on, as `str::lines` gives them: split
/// at `\n`, one `\r` before it dropped, no empty line after a final `\n`.
pub open spec fn lines_from(s: Seq<char>, i: int) -> Seq<Seq<char>>
    decreases s.len() + 1 - i,
{
    if i < 0 || i >= s.len() {
        seq![]
    } else {
        let e = crate::text::find_char(s, i, '\n');
        let line = if e > i && s[e - 1] == '\r' {
            s.subrange(i, e - 1)
        } else {
            s.subrange(i, e)
        };
        if e < i || e > s.len() {
            seq![]
        } else {
            seq![line] + lines_from(s, e + 1)
        }
    }
}

/// The lines of a text.
pub open spec fn lines_of(s: Seq<char>) -> Seq<Seq<char>> {
    lines_from(s, 0)
}

/// Each line followed by a line break.
pub open spec fn each_line(ls: Seq<Seq<char>>) -> Seq<char>
    decreases ls.len(),
{
    if ls.len() == 0 {
        seq![]
    } else {
        each_line(ls.drop_last()) + ls.last() + "\n"@
    }
}

/// A code block: the whole snippet where it has at most `limit` lines, else
/// its first `head` and last 5 lines around an ellipsis.
pub open spec fn code_block_with(language: Seq<char>, snippet: Seq<char>, limit: nat, head: nat) -> Seq<
    char,
> {
    let ls = lines_of(snippet);
    if ls.len() <= limit {
        "```"@ + language + "\n"@ + snippet + "\n```\n\n"@
    } else {
        "```"@ + language + "\n"@ + each_line(ls.take(head as int)) + "// ... (省略) ...\n"@ + each_line(
            ls.skip(ls.len() - 5),
        ) + "```\n\n"@
    }
}

/// The code block of a module page: at most 40 lines in full, else the first
/// 20 and the last 5.
pub open spec fn code_block(language: Seq<char>, snippet: Seq<char>) -> Seq<char> {
    code_block_with(language, snippet, 40, 20)
}

/// The start and end of each line of `text`.
pub fn line_bounds(text: &Vec<char>) -> (r: Vec<(usize, usize)>)
    ensures
        r@.len() == lines_of(text@).len(),
        forall|k: int|
            0 <= k < r@.len() ==> (#[trigger] r@[k]).0 <= r@[k].1 <= text@.len() && text@.subrange(
                r@[k].0 as int,
                r@[k].1 as int,
            ) == lines_of(text@)[k],
        forall|k: int| 0 < k < r@.len() ==> r@[k - 1].1 <= (#[trigger] r@[k]).0,
{
    let n: usize = text.len();
    let mut out: Vec<(usize, usize)> = Vec::new();
    let mut i: usize = 0;
    let ghost all = lines_of(text@);
    while i < n
        invariant
            n == text@.len(),
            i <= n,
            all == lines_of(text@),
            out@.len() + lines_from(text@, i as int).len() == all.len(),
            forall|k: int| 0 <= k < out@.len() ==> (#[trigger] out@[k]).0 <= out@[k].1 <= n,
            forall|k: int| 0 < k < out@.len() ==> out@[k - 1].1 <= (#[trigger] out@[k]).0,
            out@.len() > 0 ==> out@.last().1 <= i,
            forall|k: int|
                0 <= k < out@.len() ==> text@.subrange(#[trigger] out@[k].0 as int, out@[k].1 as int)
                    == all[k],
            forall|k: int|
                out@.len() <= k < all.len() ==> #[trigger] all[k] == lines_from(text@, i as int)[k
                    - out@.len()],
        decreases n - i,
    {
        let e = crate::text::next_char(text, i, '\n');
        let end: usize = if e > i && text[e - 1] == '\r' {
            e - 1
        } else {
            e
        };
        let ghost rest = lines_from(text@, e + 1);
        assert(lines_from(text@, i as int) == seq![text@.subrange(i as int, end as int)] + rest);
        assert(all[out@.len() as int] == text@.subrange(i as int, end as int)) by {
            assert(lines_from(text@, i as int)[0] == text@.subrange(i as int, end as int));
        }
        let ghost old_len = out@.len();
        out.push((i, end));
        assert forall|k: int| out@.len() <= k < all.len() implies #[trigger] all[k] == rest[k
            - out@.len()] by {
            assert(lines_from(text@, i as int)[k - old_len] == rest[k - out@.len()]);
        }
        if e >= n {
            assert(lines_from(text@, e + 1) =~= seq![]);
            i = n;
        } else {
            i = e + 1;
        }
    }
    out
}

fn push_lines(out: &mut String, snippet: &str, bounds: &Vec<(usize, usize)>, from: usize, to: usize, Ghost(ls): Ghost<Seq<Seq<char>>>)
    requires
        from <= to <= bounds@.len(),
        bounds@.len() == ls.len(),
        forall|k: int|
            0 <= k < bounds@.len() ==> (#[trigger] bounds@[k]).0 <= bounds@[k].1 <= snippet@.len()
                && snippet@.subrange(bounds@[k].0 as int, bounds@[k].1 as int) == ls[k],
    ensures
        final(out)@ == old(out)@ + each_line(ls.subrange(from as int, to as int)),
{
    let mut k: usize = from;
    while k < to
        invariant
            from <= k <= to <= bounds@.len(),
            bounds@.len() == ls.len(),
            forall|j: int|
                0 <= j < bounds@.len() ==> (#[trigger] bounds@[j]).0 <= bounds@[j].1 <= snippet@.len()
                    && snippet@.subrange(bounds@[j].0 as int, bounds@[j].1 as int) == ls[j],
            out@ == old(out)@ + each_line(ls.subrange(from as int, k as int)),
        decreases to - k,
    {
        let (a, b) = bounds[k];
        out.append(snippet.substring_char(a, b));
        out.append("\n");
        assert(ls.subrange(from as int, k + 1).drop_last() =~= ls.subrange(from as int, k as int));
        assert(out@ =~= old(out)@ + each_line(ls.subrange(from as int, k + 1)));
        k += 1;
    }
}

/// Appends the code block of a snippet: in full where it has at most
/// `limit` lines, else its first `head` and last 5 lines.
pub fn push_code_block_with(out: &mut String, language: &str, snippet: &str, limit: usize, head: usize)
    requires
        5 <= limit,
        head <= limit,
    ensures
        final(out)@ == old(out)@ + code_block_with(language@, snippet@, limit as nat, head as nat),
{
    let text = chars_of_str(snippet);
    let bounds = line_bounds(&text);
    let ghost ls = lines_of(snippet@);
    out.append("```");
    out.append(language);
    out.append("\n");
    let n = bounds.len();
    if n <= limit {
        out.append(snippet);
        out.append("\n```\n\n");
    } else {
        push_lines(out, snippet, &bounds, 0, head, Ghost(ls));
        out.append("// ... (省略) ...\n");
        push_lines(out, snippet, &bounds, n - 5, n, Ghost(ls));
        out.append("```\n\n");
        assert(ls.subrange(0, head as int) =~= ls.take(head as int));
        assert(ls.subrange(n - 5, n as int) =~= ls.skip(ls.len() - 5));
    }
    assert(final(out)@ =~= old(out)@ + code_block_with(language@, snippet@, limit as nat, head as nat));
}

/// Appends the code block of a module page.
pub fn push_code_block(out: &mut String, language: &str, snippet: &str)
    ensures
        final(out)@ == old(out)@ + code_block(language@, snippet@),
{
    push_code_block_with(out, language, snippet, 40, 20);
}

} // verus!
verus! {

/// What a function's code does, guessed from its lowercased text.
pub open spec fn behavior_text(code: Seq<char>) -> Seq<char> {
    if has(code, seq!['r', 'e', 't', 'u', 'r', 'n']) {
        "値を返します。"@
    } else if has(code, seq!['m', 'u', 't']) || has(code, seq!['l', 'e', 't']) {
        "変数を操作します。"@
    } else if has(code, seq!['i', 'f']) || has(code, seq!['m', 'a', 't', 'c', 'h']) {
        "条件分岐を行います。"@
    } else if has(code, seq!['l', 'o', 'o', 'p']) || has(code, seq!['f', 'o', 'r']) || has(
        code,
        seq!['w', 'h', 'i', 'l', 'e'],
    ) {
        "繰り返し処理を行います。"@
    } else {
        "何らかの処理を実行します。"@
    }
}

/// What a function's code does, from its text already lowercased.
pub fn behavior_for(code_lower: &str) -> (r: &'static str)
    ensures
        r@ == behavior_text(code_lower@),
{
    let t = chars_of_str(code_lower);
    if contains_chars(&t, &['r', 'e', 't', 'u', 'r', 'n']) {
        "値を返します。"
    } else if contains_chars(&t, &['m', 'u', 't']) || contains_chars(&t, &['l', 'e', 't']) {
        "変数を操作します。"
    } else if contains_chars(&t, &['i', 'f']) || contains_chars(&t, &['m', 'a', 't', 'c', 'h']) {
        "条件分岐を行います。"
    } else if contains_chars(&t, &['l', 'o', 'o', 'p']) || contains_chars(&t, &['f', 'o', 'r'])
        || contains_chars(&t, &['w', 'h', 'i', 'l', 'e']) {
        "繰り返し処理を行います。"
    } else {
        "何らかの処理を実行します。"
    }
}

/// The description of a method: its documentation, or else what its name suggests.
pub open spec fn method_doc(m: MethodInfo) -> Seq<char> {
    if m.documentation@.len() > 0 {
        m.documentation@
    } else {
        purpose_text(lower_of(m.name@), m.name@)
    }
}

/// The part about one method, its headings deepened by the marks `h`.
pub open spec fn method_text(h: Seq<char>, m: MethodInfo) -> Seq<char> {
    h + "### "@ + m.name@ + "\n\n"@ + method_doc(m) + "\n\n"@ + h + "#### コードの動作\n\n"@
        + "この関数の実装を見てみましょう。\n\n"@ + code_block(m.language@, m.code_snippet@)
        + "このコードは以下の処理を行います：\n\n"@ + "- `"@ + m.name@ + "`関数は、"@ + behavior_text(
        lower_of(m.code_snippet@),
    ) + "\n\n"@
}

/// The parts about the first `k` methods.
pub open spec fn methods_text(h: Seq<char>, ms: Seq<MethodInfo>, k: int) -> Seq<char>
    decreases k,
{
    if k <= 0 {
        seq![]
    } else {
        methods_text(h, ms, k - 1) + method_text(h, ms[k - 1])
    }
}

/// The text about one module: its heading, file and language, then, where
/// it has methods, the first 30 of them; the headings deepened by the marks `h`.
pub open spec fn module_text_at(
    h: Seq<char>,
    name: Seq<char>,
    path: Seq<char>,
    language: Seq<char>,
    ms: Seq<MethodInfo>,
) -> Seq<char> {
    h + "# "@ + name + "\n\n"@ + "**ファイル**: `"@ + path + "`  \n"@ + "**言語**: "@ + language
        + "\n\n"@ + if ms.len() > 0 {
        h + "## 主要な関数・メソッド\n\n"@
            + "このモジュールには以下の関数やメソッドが含まれています。各メソッドについて、日本語で詳しく解説します。\n\n"@
            + methods_text(h, ms, if ms.len() < 30 {
            ms.len() as int
        } else {
            30
        })
    } else {
        seq![]
    }
}

/// The part of the modules page about one module.
pub open spec fn module_text(name: Seq<char>, path: Seq<char>, language: Seq<char>, ms: Seq<MethodInfo>) -> Seq<
    char,
> {
    module_text_at("#"@, name, path, language, ms)
}

/// The page of its own about one module.
pub open spec fn module_page_text(name: Seq<char>, path: Seq<char>, language: Seq<char>, ms: Seq<MethodInfo>) -> Seq<
    char,
> {
    module_text_at(""@, name, path, language, ms)
}

fn push_method(out: &mut String, h: &str, m: &MethodInfo)
    ensures
        final(out)@ == old(out)@ + method_text(h@, *m),
{
    out.append(h);
    out.append("### ");
    out.append(m.name.as_str());
    out.append("\n\n");
    if m.documentation.as_str().unicode_len() > 0 {
        out.append(m.documentation.as_str());
    } else {
        let purpose = infer_function_purpose_simple(m.name.as_str());
        out.append(purpose.as_str());
    }
    out.append("\n\n");
    out.append(h);
    out.append("#### コードの動作\n\n");
    out.append("この関数の実装を見てみましょう。\n\n");
    push_code_block(out, m.language.as_str(), m.code_snippet.as_str());
    out.append("このコードは以下の処理を行います：\n\n");
    out.append("- `");
    out.append(m.name.as_str());
    out.append("`関数は、");
    let lowered = lowercase(m.code_snippet.as_str());
    out.append(behavior_for(lowered.as_str()));
    out.append("\n\n");
    assert(final(out)@ =~= old(out)@ + method_text(h@, *m));
}

fn module_content_at(h: &str, module: &ModuleInfo, methods: &Vec<MethodInfo>) -> (r: String)
    ensures
        r@ == module_text_at(h@, module.name@, module.path@, module.language@, methods@),
{
    let mut out = String::from_str(h);
    out.append("# ");
    out.append(module.name.as_str());
    out.append("\n\n");
    out.append("**ファイル**: `");
    out.append(module.path.as_str());
    out.append("`  \n");
    out.append("**言語**: ");
    out.append(module.language.as_str());
    out.append("\n\n");
    let ghost head = out@;
    if methods.len() > 0 {
        out.append(h);
        out.append("## 主要な関数・メソッド\n\n");
        out.append(
            "このモジュールには以下の関数やメソッドが含まれています。各メソッドについて、日本語で詳しく解説します。\n\n",
        );
        let top: usize = if methods.len() < 30 {
            methods.len()
        } else {
            30
        };
        let ghost start = out@;
        let mut k: usize = 0;
        while k < top
            invariant
                k <= top <= methods@.len(),
                out@ == start + methods_text(h@, methods@, k as int),
            decreases top - k,
        {
            push_method(&mut out, h, &methods[k]);
            assert(out@ =~= start + methods_text(h@, methods@, k + 1));
            k += 1;
        }
    }
    assert(out@ =~= module_text_at(h@, module.name@, module.path@, module.language@, methods@));
    out
}

/// The part of the modules page about one module, given the methods found in its file.
pub fn module_content_with(module: &ModuleInfo, methods: &Vec<MethodInfo>) -> (r: String)
    ensures
        r@ == module_text(module.name@, module.path@, module.language@, methods@),
{
    module_content_at("#", module, methods)
}

/// The page of its own about one module, given the methods found in its file.
pub fn module_page_with(module: &ModuleInfo, methods: &Vec<MethodInfo>) -> (r: String)
    ensures
        r@ == module_page_text(module.name@, module.path@, module.language@, methods@),
{
    module_content_at("", module, methods)
}

/// The links of the module list.
pub open spec fn module_links(ms: Seq<ModuleInfo>, k: int) -> Seq<char>
    decreases k,
{
    if k <= 0 {
        seq![]
    } else {
        module_links(ms, k - 1) + "- ["@ + ms[k - 1].name@ + "](#"@ + ms[k - 1].name@ + ")\n"@
    }
}

/// The head of the modules page: a title, a line, and a link to each module.
pub open spec fn modules_head_text(ms: Seq<ModuleInfo>) -> Seq<char> {
    "# モジュール\n\n"@ + "このセクションでは、各モジュールについて詳しく説明します。\n\n"@ + "## モジュール一覧\n\n"@
        + module_links(ms, ms.len() as int) + "\n\n---\n\n"@
}

/// The head of the modules page.
pub fn modules_head(modules: &Vec<ModuleInfo>) -> (r: String)
    ensures
        r@ == modules_head_text(modules@),
{
    let mut out = String::from_str("# モジュール\n\n");
    out.append("このセクションでは、各モジュールについて詳しく説明します。\n\n");
    out.append("## モジュール一覧\n\n");
    let ghost start = out@;
    let mut k: usize = 0;
    while k < modules.len()
        invariant
            k <= modules@.len(),
            out@ == start + module_links(modules@, k as int),
        decreases modules.len() - k,
    {
        out.append("- [");
        out.append(modules[k].name.as_str());
        out.append("](#");
        out.append(modules[k].name.as_str());
        out.append(")\n");
        assert(out@ =~= start + module_links(modules@, k + 1));
        k += 1;
    }
    out.append("\n\n---\n\n");
    assert(out@ =~= modules_head_text(modules@));
    out
}

/// What each module task yields, followed by the separator of the page.
pub open spec fn module_fragment(t: Seq<char>) -> Seq<char> {
    t + "\n\n---\n\n"@
}

/// A module's part followed by the separator of the modules page.
pub fn with_separator(mut text: String) -> (r: String)
    ensures
        r@ == module_fragment(text@),
{
    text.append("\n\n---\n\n");
    text
}

} // verus!
verus! {

/// The first file of `fs`, from `k` on, whose path is `path`.
pub open spec fn first_file(fs: Seq<crate::index::FileInfo>, path: Seq<char>, k: int) -> Option<int>
    decreases fs.len() - k,
{
    if k < 0 || k >= fs.len() {
        None
    } else if fs[k].path@ == path {
        Some(k)
    } else {
        first_file(fs, path, k + 1)
    }
}

/// What is found of the functions of a module's file: nothing where the
/// index holds no file of that path, or no text for it.
pub open spec fn module_methods(idx: Index, m: ModuleInfo) -> Seq<
    (Seq<char>, Seq<char>, Seq<char>, Seq<char>),
> {
    match first_file(idx.files@, m.path@, 0) {
        Some(k) => match idx.files@[k].content {
            Some(c) => methods_spec(c@, idx.files@[k].language@),
            None => seq![],
        },
        None => seq![],
    }
}

/// The part of the modules page about one module of the index.
pub fn module_content(index: &Index, module: &ModuleInfo) -> (r: String)
    ensures
        exists|ms: Seq<MethodInfo>|
            ms.map_values(|m: MethodInfo| method_view(m)) == module_methods(*index, *module) && r@
                == module_text(module.name@, module.path@, module.language@, ms),
{
    let mut k: usize = 0;
    while k < index.files.len()
        invariant
            k <= index.files@.len(),
            first_file(index.files@, module.path@, 0) == first_file(
                index.files@,
                module.path@,
                k as int,
            ),
        decreases index.files.len() - k,
    {
        if index.files[k].path == module.path {
            let methods = match &index.files[k].content {
                Some(c) => extract_methods_detailed(c.as_str(), index.files[k].language.as_str()),
                None => {
                    let v: Vec<MethodInfo> = Vec::new();
                    assert(v@.map_values(|m: MethodInfo| method_view(m)) =~= seq![]);
                    v
                },
            };
            let r = module_content_with(module, &methods);
            assert(methods@.map_values(|m: MethodInfo| method_view(m)) == module_methods(
                *index,
                *module,
            ));
            return r;
        }
        k += 1;
    }
    let v: Vec<MethodInfo> = Vec::new();
    assert(v@.map_values(|m: MethodInfo| method_view(m)) =~= seq![]);
    module_content_with(module, &v)
}

} // verus!
verus! {

/// A module name made safe as a file name: each `::`, `/` and `\` becomes `_`.
pub open spec fn safe_name_from(s: Seq<char>, i: int) -> Seq<char>
    decreases s.len() - i,
{
    if i < 0 || i >= s.len() {
        seq![]
    } else if s[i] == ':' && i + 1 < s.len() && s[i + 1] == ':' {
        seq!['_'] + safe_name_from(s, i + 2)
    } else if s[i] == '/' || s[i] == '\\' {
        seq!['_'] + safe_name_from(s, i + 1)
    } else {
        seq![s[i]] + safe_name_from(s, i + 1)
    }
}

/// The file name, without extension, of a module's own page.
pub fn safe_file_name(name: &str) -> (r: String)
    ensures
        r@ == safe_name_from(name@, 0),
{
    let t = chars_of_str(name);
    let n: usize = t.len();
    let mut out = String::new();
    let mut i: usize = 0;
    proof {
        reveal_strlit("_");
    }
    while i < n
        invariant
            n == t@.len(),
            t@ == name@,
            "_"@ == seq!['_'],
            i <= n,
            out@ + safe_name_from(name@, i as int) == safe_name_from(name@, 0),
        decreases n - i,
    {
        let ghost before = out@;
        if t[i] == ':' && i + 1 < n && t[i + 1] == ':' {
            out.append("_");
            assert(out@ + safe_name_from(name@, i + 2) =~= before + safe_name_from(name@, i as int));
            i = i + 2;
        } else if t[i] == '/' || t[i] == '\\' {
            out.append("_");
            assert(out@ + safe_name_from(name@, i + 1) =~= before + safe_name_from(name@, i as int));
            i = i + 1;
        } else {
            out.append(name.substring_char(i, i + 1));
            assert(name@.subrange(i as int, i + 1) =~= seq![name@[i as int]]);
            assert(out@ + safe_name_from(name@, i + 1) =~= before + safe_name_from(name@, i as int));
            i = i + 1;
        }
    }
    assert(out@ =~= out@ + safe_name_from(name@, i as int));
    out
}

/// The page of its own about one module of the index.
pub fn module_page(index: &Index, module: &ModuleInfo) -> (r: String)
    ensures
        exists|ms: Seq<MethodInfo>|
            ms.map_values(|m: MethodInfo| method_view(m)) == module_methods(*index, *module) && r@
                == module_page_text(module.name@, module.path@, module.language@, ms),
{
    let mut k: usize = 0;
    while k < index.files.len()
        invariant
            k <= index.files@.len(),
            first_file(index.files@, module.path@, 0) == first_file(
                index.files@,
                module.path@,
                k as int,
            ),
        decreases index.files.len() - k,
    {
        if index.files[k].path == module.path {
            let methods = match &index.files[k].content {
                Some(c) => extract_methods_detailed(c.as_str(), index.files[k].language.as_str()),
                None => {
                    let v: Vec<MethodInfo> = Vec::new();
                    assert(v@.map_values(|m: MethodInfo| method_view(m)) =~= seq![]);
                    v
                },
            };
            let r = module_page_with(module, &methods);
            assert(methods@.map_values(|m: MethodInfo| method_view(m)) == module_methods(
                *index,
                *module,
            ));
            return r;
        }
        k += 1;
    }
    let v: Vec<MethodInfo> = Vec::new();
    assert(v@.map_values(|m: MethodInfo| method_view(m)) =~= seq![]);
    module_page_with(module, &v)
}

} // verus!
verus! {

/// An anchor made of a module name: each `::`, `/`, `\` and space becomes `_`.
pub open spec fn anchor_from(s: Seq<char>, i: int) -> Seq<char>
    decreases s.len() - i,
{
    if i < 0 || i >= s.len() {
        seq![]
    } else if s[i] == ':' && i + 1 < s.len() && s[i + 1] == ':' {
        seq!['_'] + anchor_from(s, i + 2)
    } else if s[i] == '/' || s[i] == '\\' || s[i] == ' ' {
        seq!['_'] + anchor_from(s, i + 1)
    } else {
        seq![s[i]] + anchor_from(s, i + 1)
    }
}

/// The anchor of a module name.
pub fn anchor_of(name: &str) -> (r: String)
    ensures
        r@ == anchor_from(name@, 0),
{
    let t = chars_of_str(name);
    let n: usize = t.len();
    let mut out = String::new();
    let mut i: usize = 0;
    proof {
        reveal_strlit("_");
    }
    while i < n
        invariant
            n == t@.len(),
            t@ == name@,
            "_"@ == seq!['_'],
            i <= n,
            out@ + anchor_from(name@, i as int) == anchor_from(name@, 0),
        decreases n - i,
    {
        let ghost before = out@;
        if t[i] == ':' && i + 1 < n && t[i + 1] == ':' {
            out.append("_");
            assert(out@ + anchor_from(name@, i + 2) =~= before + anchor_from(name@, i as int));
            i = i + 2;
        } else if t[i] == '/' || t[i] == '\\' || t[i] == ' ' {
            out.append("_");
            assert(out@ + anchor_from(name@, i + 1) =~= before + anchor_from(name@, i as int));
            i = i + 1;
        } else {
            out.append(name.substring_char(i, i + 1));
            assert(name@.subrange(i as int, i + 1) =~= seq![name@[i as int]]);
            assert(out@ + anchor_from(name@, i + 1) =~= before + anchor_from(name@, i as int));
            i = i + 1;
        }
    }
    assert(out@ =~= out@ + anchor_from(name@, i as int));
    out
}

/// The links of the module list, to anchors made of the names.
pub open spec fn anchored_links(ms: Seq<ModuleInfo>) -> Seq<char>
    decreases ms.len(),
{
    if ms.len() == 0 {
        seq![]
    } else {
        anchored_links(ms.drop_last()) + "- ["@ + ms.last().name@ + "](#"@ + anchor_from(
            ms.last().name@,
            0,
        ) + ")\n"@
    }
}

/// The modules page as a section of its own: a title, two lines and a link
/// to each module.
pub open spec fn modules_section_text(ms: Seq<ModuleInfo>) -> Seq<char> {
    "# モジュール\n\n"@ + "このセクションでは、各モジュールについて詳しく説明します。\n\n"@
        + "各モジュールの詳細は以下の通りです。\n\n"@ + "## モジュール一覧\n\n"@ + anchored_links(ms) + "\n"@
}

/// The modules page as a section of its own.
pub fn modules_section(index: &Index) -> (r: String)
    ensures
        r@ == modules_section_text(index.modules@),
{
    let mut out = String::from_str("# モジュール\n\n");
    out.append("このセクションでは、各モジュールについて詳しく説明します。\n\n");
    out.append("各モジュールの詳細は以下の通りです。\n\n");
    out.append("## モジュール一覧\n\n");
    let ghost start = out@;
    let ms = &index.modules;
    let mut k: usize = 0;
    while k < ms.len()
        invariant
            k <= ms@.len(),
            out@ == start + anchored_links(ms@.take(k as int)),
        decreases ms.len() - k,
    {
        assert(ms@.take(k + 1).drop_last() =~= ms@.take(k as int));
        out.append("- [");
        out.append(ms[k].name.as_str());
        out.append("](#");
        let anchor = anchor_of(ms[k].name.as_str());
        out.append(anchor.as_str());
        out.append(")\n");
        assert(out@ =~= start + anchored_links(ms@.take(k + 1)));
        k += 1;
    }
    assert(ms@.take(k as int) =~= ms@);
    out.append("\n");
    out
}

} // verus!
