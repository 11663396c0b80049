//! Summaries of a repository, a package, a module or a file, in Markdown.
use vstd::prelude::*;

use crate::diagram::{decimal, push_decimal};
use crate::functions::{fn_scan, names_by_rule, FnRule};
use crate::methods::{extract_methods_detailed, method_view, methods_spec};
use crate::index::{FileInfo, Index, ModuleInfo};
use crate::methods::join_lines;
use crate::summary::{contains_chars, has, Artifact, MethodInfo, SummarizeResult};
use crate::text::{str_is, texts};
use crate::wiki::{code_block_with, lines_of, push_code_block_with};

verus! {

/// The part of a file summary about one function: its heading, its
/// documentation where it has any, and its code, at most 20 lines in full.
pub open spec fn method_summary(m: (Seq<char>, Seq<char>, Seq<char>, Seq<char>)) -> Seq<char> {
    "### "@ + m.0 + "\n\n"@ + (if m.2.len() > 0 {
        "**説明**: "@ + m.2 + "\n\n"@
    } else {
        seq![]
    }) + code_block_with(m.1, m.3, 20, 10)
}

/// The parts about the first `k` functions.
pub open spec fn method_summaries(ms: Seq<(Seq<char>, Seq<char>, Seq<char>, Seq<char>)>, k: int) -> Seq<
    char,
>
    decreases k,
{
    if k <= 0 {
        seq![]
    } else {
        method_summaries(ms, k - 1) + method_summary(ms[k - 1])
    }
}

/// One bullet per name.
pub open spec fn name_bullets(names: Seq<Seq<char>>) -> Seq<char>
    decreases names.len(),
{
    if names.len() == 0 {
        seq![]
    } else {
        name_bullets(names.drop_last()) + "- `"@ + names.last() + "`\n"@
    }
}

/// The list of function names, where there are any.
pub open spec fn names_part(names: Seq<Seq<char>>) -> Seq<char> {
    if names.len() > 0 {
        "主要な関数:\n"@ + name_bullets(names)
    } else {
        seq![]
    }
}

/// What a file summary says where no function was found in detail.
pub open spec fn fallback_summary(content: Seq<char>, language: Seq<char>) -> Seq<char> {
    if language == "ts"@ || language == "js"@ {
        names_part(fn_scan(FnRule::Function, content, 0))
    } else if language == "py"@ {
        names_part(fn_scan(FnRule::Def, content, 0))
    } else if language == "rs"@ {
        names_part(fn_scan(FnRule::Fn, content, 0))
    } else {
        "コードの要約を生成しました。"@
    }
}

/// The summary of a file's text: its first ten functions in detail, or else
/// the names of its functions; where that says nothing, its number of lines.
pub open spec fn content_summary(content: Seq<char>, language: Seq<char>) -> Seq<char> {
    let ms = methods_spec(content, language);
    let body = if ms.len() > 0 {
        method_summaries(ms, if ms.len() < 10 {
            ms.len() as int
        } else {
            10
        })
    } else {
        fallback_summary(content, language)
    };
    if body.len() == 0 {
        decimal(lines_of(content).len()) + "行のコードを含むファイルです。"@
    } else {
        body
    }
}

fn push_method_summary(out: &mut String, m: &MethodInfo)
    ensures
        final(out)@ == old(out)@ + method_summary(method_view(*m)),
{
    out.append("### ");
    out.append(m.name.as_str());
    out.append("\n\n");
    if m.documentation.as_str().unicode_len() > 0 {
        out.append("**説明**: ");
        out.append(m.documentation.as_str());
        out.append("\n\n");
    }
    push_code_block_with(out, m.language.as_str(), m.code_snippet.as_str(), 20, 10);
    assert(final(out)@ =~= old(out)@ + method_summary(method_view(*m)));
}

fn push_names(out: &mut String, names: &Vec<String>)
    ensures
        final(out)@ == old(out)@ + names_part(texts(names@)),
{
    if names.len() == 0 {
        assert(final(out)@ =~= old(out)@ + names_part(texts(names@)));
        return;
    }
    out.append("主要な関数:\n");
    let ghost start = out@;
    let mut k: usize = 0;
    while k < names.len()
        invariant
            k <= names@.len(),
            out@ == start + name_bullets(texts(names@).take(k as int)),
        decreases names.len() - k,
    {
        assert(texts(names@).take(k + 1).drop_last() =~= texts(names@).take(k as int));
        out.append("- `");
        out.append(names[k].as_str());
        out.append("`\n");
        assert(out@ =~= start + name_bullets(texts(names@).take(k + 1)));
        k += 1;
    }
    assert(texts(names@).take(k as int) =~= texts(names@));
}

/// The summary of a file's text in a language.
pub fn summarize_content(content: &str, language: &str) -> (r: String)
    ensures
        r@ == content_summary(content@, language@),
{
    let methods = extract_methods_detailed(content, language);
    let ghost ms = methods_spec(content@, language@);
    let mut out = String::new();
    if methods.len() > 0 {
        let top: usize = if methods.len() < 10 {
            methods.len()
        } else {
            10
        };
        let mut k: usize = 0;
        while k < top
            invariant
                k <= top <= methods@.len(),
                ms == methods_spec(content@, language@),
                methods@.map_values(|m: MethodInfo| method_view(m)) == ms,
                out@ == method_summaries(ms, k as int),
            decreases top - k,
        {
            assert(ms[k as int] == method_view(methods@[k as int]));
            push_method_summary(&mut out, &methods[k]);
            k += 1;
        }
    } else {
        let ts = ['t', 's'];
        let js = ['j', 's'];
        let py = ['p', 'y'];
        let rs = ['r', 's'];
        proof {
            reveal_strlit("ts");
            reveal_strlit("js");
            reveal_strlit("py");
            reveal_strlit("rs");
        }
        assert(ts@ =~= "ts"@);
        assert(js@ =~= "js"@);
        assert(py@ =~= "py"@);
        assert(rs@ =~= "rs"@);
        if str_is(language, &ts) || str_is(language, &js) {
            push_names(&mut out, &names_by_rule(FnRule::Function, content));
        } else if str_is(language, &py) {
            push_names(&mut out, &names_by_rule(FnRule::Def, content));
        } else if str_is(language, &rs) {
            push_names(&mut out, &names_by_rule(FnRule::Fn, content));
        } else {
            out.append("コードの要約を生成しました。");
        }
        assert(out@ =~= fallback_summary(content@, language@));
    }
    if out.as_str().unicode_len() == 0 {
        let text = crate::text::chars_of(content);
        let lines = crate::wiki::line_bounds(&text);
        let mut r = String::new();
        push_decimal(&mut r, lines.len());
        r.append("行のコードを含むファイルです。");
        assert(r@ =~= content_summary(content@, language@));
        r
    } else {
        out
    }
}

} // verus!
verus! {

/// The end of `p` without its trailing separators.
pub open spec fn trimmed_end(p: Seq<char>, e: int) -> int
    decreases e,
{
    if e > 0 && e <= p.len() && p[e - 1] == '/' {
        trimmed_end(p, e - 1)
    } else {
        e
    }
}

/// The last component of a path, trailing separators aside; none where it
/// is empty, `.` or `..`.
pub open spec fn base_name(p: Seq<char>) -> Option<Seq<char>> {
    let e = trimmed_end(p, p.len() as int);
    let s = crate::lang::last_in(p, 0, e, '/') + 1;
    let c = p.subrange(s, e);
    if c.len() == 0 || c == "."@ || c == ".."@ {
        None
    } else {
        Some(c)
    }
}

pub fn base_name_of(p: &str) -> (r: Option<String>)
    ensures
        match r {
            Some(s) => base_name(p@) == Some(s@),
            None => base_name(p@) is None,
        },
{
    let text = crate::text::chars_of(p);
    let mut e: usize = text.len();
    while e > 0 && text[e - 1] == '/'
        invariant
            e <= text@.len(),
            trimmed_end(text@, e as int) == trimmed_end(text@, text@.len() as int),
        decreases e,
    {
        e -= 1;
    }
    let s: usize = match crate::lang::last_slash_before(&text, e) {
        Some(x) => x + 1,
        None => 0,
    };
    let dot = ['.'];
    let dots = ['.', '.'];
    proof {
        reveal_strlit(".");
        reveal_strlit("..");
    }
    assert(dot@ =~= "."@);
    assert(dots@ =~= ".."@);
    if s == e || crate::text::range_is(&text, s, e, &dot) || crate::text::range_is(&text, s, e, &dots) {
        None
    } else {
        Some(crate::text::slice_string(p, s, e))
    }
}

/// Where `n` ends in decimal and a text follows.
fn push_count(out: &mut String, n: usize, tail: &str)
    ensures
        final(out)@ == old(out)@ + decimal(n as nat) + tail@,
{
    push_decimal(out, n);
    out.append(tail);
}

} // verus!
verus! {

/// The strings joined with line breaks.
pub fn join_with_breaks(v: &Vec<String>) -> (r: String)
    ensures
        r@ == join_lines(texts(v@)),
{
    let mut out = String::new();
    let mut k: usize = 0;
    while k < v.len()
        invariant
            k <= v@.len(),
            out@ == join_lines(texts(v@).take(k as int)),
        decreases v.len() - k,
    {
        assert(texts(v@).take(k + 1).drop_last() =~= texts(v@).take(k as int));
        if k > 0 {
            out.append("\n");
        }
        out.append(v[k].as_str());
        assert(out@ =~= join_lines(texts(v@).take(k + 1)));
        k += 1;
    }
    assert(texts(v@).take(k as int) =~= texts(v@));
    out
}

/// Whether some file's name suggests a program or a server.
pub open spec fn has_main_file(fs: Seq<FileInfo>) -> bool {
    exists|k: int|
        0 <= k < fs.len() && (has((#[trigger] fs[k]).name@, "main"@) || has(fs[k].name@, "server"@)
            || has(fs[k].name@, "app"@))
}

/// What the first telling dependency from `i` on suggests.
pub open spec fn dependency_purpose(deps: Seq<Seq<char>>, i: int) -> Option<Seq<char>>
    decreases deps.len() - i,
{
    if i < 0 || i >= deps.len() {
        None
    } else if has(deps[i], "express"@) || has(deps[i], "fastapi"@) || has(deps[i], "flask"@) {
        Some("WebアプリケーションまたはAPIサーバーです。"@)
    } else if has(deps[i], "react"@) || has(deps[i], "vue"@) || has(deps[i], "angular"@) {
        Some("フロントエンドアプリケーションです。"@)
    } else {
        dependency_purpose(deps, i + 1)
    }
}

/// What the repository is for, guessed from file names and dependencies.
pub open spec fn purpose_of(idx: Index) -> Seq<char> {
    let main = has_main_file(idx.files@);
    let dep = dependency_purpose(texts(idx.dependencies@), 0);
    let first = "アプリケーションまたはサーバーとして動作する可能性があります。"@;
    match dep {
        Some(d) => if main {
            first + "\n"@ + d
        } else {
            d
        },
        None => if main {
            first
        } else {
            "コードベースの目的を特定するには追加の分析が必要です。"@
        },
    }
}

fn has_text(s: &str, lit: &str) -> (r: bool)
    ensures
        r == has(s@, lit@),
{
    let t = crate::text::chars_of(s);
    let p = crate::text::chars_of(lit);
    contains_chars(&t, p.as_slice())
}

/// What the repository is for.
pub fn infer_purpose(index: &Index) -> (r: String)
    ensures
        r@ == purpose_of(*index),
{
    let mut main = false;
    let mut k: usize = 0;
    while k < index.files.len()
        invariant_except_break
            !main,
            forall|j: int|
                0 <= j < k ==> !(has((#[trigger] index.files@[j]).name@, "main"@) || has(
                    index.files@[j].name@,
                    "server"@,
                ) || has(index.files@[j].name@, "app"@)),
        invariant
            k <= index.files@.len(),
        ensures
            main == has_main_file(index.files@),
        decreases index.files.len() - k,
    {
        let n = index.files[k].name.as_str();
        if has_text(n, "main") || has_text(n, "server") || has_text(n, "app") {
            main = true;
            break;
        }
        k += 1;
    }
    assert(main == has_main_file(index.files@));
    let ghost deps = texts(index.dependencies@);
    let mut dep: Option<&str> = None;
    let mut i: usize = 0;
    while i < index.dependencies.len()
        invariant_except_break
            dep is None,
            dependency_purpose(deps, 0) == dependency_purpose(deps, i as int),
        invariant
            i <= index.dependencies@.len(),
            deps == texts(index.dependencies@),
        ensures
            match dep {
                Some(x) => dependency_purpose(deps, 0) == Some(x@),
                None => dependency_purpose(deps, 0) is None,
            },
        decreases index.dependencies.len() - i,
    {
        let d = index.dependencies[i].as_str();
        assert(deps[i as int] == d@);
        if has_text(d, "express") || has_text(d, "fastapi") || has_text(d, "flask") {
            dep = Some("WebアプリケーションまたはAPIサーバーです。");
            break;
        }
        if has_text(d, "react") || has_text(d, "vue") || has_text(d, "angular") {
            dep = Some("フロントエンドアプリケーションです。");
            break;
        }
        i += 1;
    }
    assert(match dep {
        Some(x) => dependency_purpose(deps, 0) == Some(x@),
        None => dependency_purpose(deps, 0) is None,
    });
    match dep {
        Some(d) => {
            if main {
                let mut r = String::from_str("アプリケーションまたはサーバーとして動作する可能性があります。");
                r.append("\n");
                r.append(d);
                r
            } else {
                String::from_str(d)
            }
        },
        None => {
            if main {
                String::from_str("アプリケーションまたはサーバーとして動作する可能性があります。")
            } else {
                String::from_str("コードベースの目的を特定するには追加の分析が必要です。")
            }
        },
    }
}

} // verus!
verus! {

/// The line that describes a module.
pub open spec fn component_line(m: ModuleInfo) -> Seq<char> {
    "- **"@ + m.name@ + "** (`"@ + m.path@ + "`): "@ + m.language@ + "言語で記述されたモジュール"@
}

/// The modules, one line each; a note where there are none.
pub open spec fn components_text(ms: Seq<ModuleInfo>) -> Seq<char> {
    if ms.len() == 0 {
        "コンポーネント情報がありません。"@
    } else {
        join_lines(ms.map_values(|m: ModuleInfo| component_line(m)))
    }
}

/// The modules of an index, one line each.
pub fn describe_components(index: &Index) -> (r: String)
    ensures
        r@ == components_text(index.modules@),
{
    if index.modules.len() == 0 {
        return String::from_str("コンポーネント情報がありません。");
    }
    let ghost goal = index.modules@.map_values(|m: ModuleInfo| component_line(m));
    let mut lines: Vec<String> = Vec::new();
    let mut k: usize = 0;
    while k < index.modules.len()
        invariant
            k <= index.modules@.len(),
            goal == index.modules@.map_values(|m: ModuleInfo| component_line(m)),
            texts(lines@) == goal.take(k as int),
        decreases index.modules.len() - k,
    {
        let m = &index.modules[k];
        let mut l = String::from_str("- **");
        l.append(m.name.as_str());
        l.append("** (`");
        l.append(m.path.as_str());
        l.append("`): ");
        l.append(m.language.as_str());
        l.append("言語で記述されたモジュール");
        assert(l@ =~= component_line(*m));
        let ghost before = lines@;
        lines.push(l);
        assert(texts(lines@) =~= texts(before).push(goal[k as int]));
        assert(goal.take(k + 1) =~= goal.take(k as int).push(goal[k as int]));
        k += 1;
    }
    assert(goal.take(k as int) =~= goal);
    join_with_breaks(&lines)
}

/// The line of a dependency.
pub open spec fn dependency_line(d: Seq<char>) -> Seq<char> {
    "- `"@ + d + "`"@
}

/// The dependency tokens, one line each.
pub open spec fn dependencies_text(deps: Seq<Seq<char>>) -> Seq<char> {
    join_lines(deps.map_values(|d: Seq<char>| dependency_line(d)))
}

/// The dependency tokens of an index, one line each.
pub fn describe_dependencies(index: &Index) -> (r: String)
    ensures
        r@ == dependencies_text(texts(index.dependencies@)),
{
    let ghost goal = texts(index.dependencies@).map_values(|d: Seq<char>| dependency_line(d));
    let mut lines: Vec<String> = Vec::new();
    let mut k: usize = 0;
    while k < index.dependencies.len()
        invariant
            k <= index.dependencies@.len(),
            goal == texts(index.dependencies@).map_values(|d: Seq<char>| dependency_line(d)),
            texts(lines@) == goal.take(k as int),
        decreases index.dependencies.len() - k,
    {
        let mut l = String::from_str("- `");
        l.append(index.dependencies[k].as_str());
        l.append("`");
        assert(l@ =~= goal[k as int]);
        let ghost before = lines@;
        lines.push(l);
        assert(texts(lines@) =~= texts(before).push(goal[k as int]));
        assert(goal.take(k + 1) =~= goal.take(k as int).push(goal[k as int]));
        k += 1;
    }
    assert(goal.take(k as int) =~= goal);
    join_with_breaks(&lines)
}

/// The summary of the whole repository; `detailed-ja` adds its purpose.
pub open spec fn repo_summary(idx: Index, style: Seq<char>) -> Seq<char> {
    let title = match base_name(idx.repo_path@) {
        Some(n) => n,
        None => "リポジトリ"@,
    };
    "# "@ + title + "\n\n"@ + decimal(idx.stats.files as nat) + "ファイル、"@ + decimal(
        idx.stats.languages@.len(),
    ) + "言語、"@ + decimal(idx.stats.modules as nat) + "モジュールを含むリポジトリです。\n"@ + (if style
        == "detailed-ja"@ {
        "## 目的・コンポーネント\n\n"@ + purpose_of(idx) + "\n"@
    } else {
        seq![]
    }) + "## 主要コンポーネント\n\n"@ + components_text(idx.modules@) + "\n"@ + (if idx.dependencies@.len()
        > 0 {
        "## 外部依存\n\n"@ + dependencies_text(texts(idx.dependencies@)) + "\n"@
    } else {
        seq![]
    }) + (if idx.entrypoints@.len() > 0 {
        "## エントリーポイント\n\n"@ + crate::wiki::entry_lines(texts(idx.entrypoints@)) + "\n"@
    } else {
        seq![]
    })
}

/// The summary of the whole repository.
pub fn summarize_repo(index: &Index, style: &str) -> (r: String)
    ensures
        r@ == repo_summary(*index, style@),
{
    let mut out = String::from_str("# ");
    match base_name_of(index.repo_path.as_str()) {
        Some(n) => out.append(n.as_str()),
        None => out.append("リポジトリ"),
    }
    out.append("\n\n");
    push_count(&mut out, index.stats.files, "ファイル、");
    push_count(&mut out, index.stats.languages.len(), "言語、");
    push_count(&mut out, index.stats.modules, "モジュールを含むリポジトリです。\n");
    let detailed = ['d', 'e', 't', 'a', 'i', 'l', 'e', 'd', '-', 'j', 'a'];
    proof {
        reveal_strlit("detailed-ja");
    }
    assert(detailed@ =~= "detailed-ja"@);
    if str_is(style, &detailed) {
        out.append("## 目的・コンポーネント\n\n");
        out.append(infer_purpose(index).as_str());
        out.append("\n");
    }
    out.append("## 主要コンポーネント\n\n");
    out.append(describe_components(index).as_str());
    out.append("\n");
    if index.dependencies.len() > 0 {
        out.append("## 外部依存\n\n");
        out.append(describe_dependencies(index).as_str());
        out.append("\n");
    }
    if index.entrypoints.len() > 0 {
        out.append("## エントリーポイント\n\n");
        let ghost start = out@;
        let mut k: usize = 0;
        while k < index.entrypoints.len()
            invariant
                k <= index.entrypoints@.len(),
                out@ == start + crate::wiki::entry_lines(texts(index.entrypoints@).take(k as int)),
            decreases index.entrypoints.len() - k,
        {
            assert(texts(index.entrypoints@).take(k + 1).drop_last() =~= texts(
                index.entrypoints@,
            ).take(k as int));
            out.append("- `");
            out.append(index.entrypoints[k].as_str());
            out.append("`\n");
            assert(out@ =~= start + crate::wiki::entry_lines(texts(index.entrypoints@).take(k + 1)));
            k += 1;
        }
        assert(texts(index.entrypoints@).take(k as int) =~= texts(index.entrypoints@));
        out.append("\n");
    }
    assert(out@ =~= repo_summary(*index, style@));
    out
}

} // verus!
verus! {

/// Whether path `p` lies under `t`: `t` is empty, equal to `p`, or a
/// leading part of `p` that ends at a separator.
pub open spec fn within(p: Seq<char>, t: Seq<char>) -> bool {
    t.len() == 0 || p == t || (crate::text::occurs_at(p, 0, t) && (t.last() == '/' || (p.len()
        > t.len() && p[t.len() as int] == '/')))
}

fn within_exec(p: &str, t: &str) -> (r: bool)
    ensures
        r == within(p@, t@),
{
    let pt = crate::text::chars_of(p);
    let tt = crate::text::chars_of(t);
    if tt.len() == 0 {
        return true;
    }
    if !crate::text::matches_at(&pt, 0, tt.as_slice()) {
        assert(pt@ != tt@) by {
            if pt@ == tt@ {
                assert(pt@.subrange(0, tt@.len() as int) =~= tt@);
            }
        }
        return false;
    }
    if pt.len() == tt.len() {
        assert(pt@ =~= tt@) by {
            assert(pt@.subrange(0, tt@.len() as int) == tt@);
        }
        return true;
    }
    tt[tt.len() - 1] == '/' || pt[tt.len()] == '/'
}

/// The files under `t`, in order.
pub open spec fn package_files(fs: Seq<FileInfo>, t: Seq<char>) -> Seq<FileInfo>
    decreases fs.len(),
{
    if fs.len() == 0 {
        seq![]
    } else if within(fs.last().path@, t) {
        package_files(fs.drop_last(), t).push(fs.last())
    } else {
        package_files(fs.drop_last(), t)
    }
}

/// One bullet per module among the files.
pub open spec fn module_bullets(fs: Seq<FileInfo>) -> Seq<char>
    decreases fs.len(),
{
    if fs.len() == 0 {
        seq![]
    } else {
        module_bullets(fs.drop_last()) + if fs.last().is_module {
            "- `"@ + fs.last().path@ + "`\n"@
        } else {
            seq![]
        }
    }
}

/// Why a summary could not be made.
#[derive(Clone, Debug)]
pub enum SummaryError {
    UnknownScope(String),
    PackageNotFound(String),
    ModuleNotFound(String),
    FileNotFound(String),
}

/// The summary of the files under a path; `None` where there are none.
pub open spec fn package_summary(idx: Index, target: Seq<char>) -> Option<Seq<char>> {
    let pkg = package_files(idx.files@, target);
    if pkg.len() == 0 {
        None
    } else {
        Some(
            "# "@ + (match base_name(target) {
                Some(n) => n,
                None => "パッケージ"@,
            }) + "\n\n"@ + decimal(pkg.len()) + "ファイルを含むパッケージです。\n\n"@ + "## モジュール\n\n"@
                + module_bullets(pkg),
        )
    }
}

/// The summary of the files under a path.
pub fn summarize_package(index: &Index, target: &str) -> (r: Result<String, SummaryError>)
    ensures
        match r {
            Ok(t) => package_summary(*index, target@) == Some(t@),
            Err(e) => package_summary(*index, target@) is None && (e matches SummaryError::PackageNotFound(
                m,
            ) && m@ == target@),
        },
{
    let mut count: usize = 0;
    let mut bullets = String::new();
    let mut k: usize = 0;
    assert(index.files@.take(0) =~= seq![]);
    while k < index.files.len()
        invariant
            k <= index.files@.len(),
            count == package_files(index.files@.take(k as int), target@).len(),
            bullets@ == module_bullets(package_files(index.files@.take(k as int), target@)),
        decreases index.files.len() - k,
    {
        let f = &index.files[k];
        assert(index.files@.take(k + 1).drop_last() =~= index.files@.take(k as int));
        proof {
            let pk = package_files(index.files@.take(k as int), target@);
            assert(package_files(index.files@.take(k as int), target@).len() <= k) by {
                lemma_package_files_len(index.files@.take(k as int), target@);
            }
        }
        if within_exec(f.path.as_str(), target) {
            let ghost pk = package_files(index.files@.take(k as int), target@);
            assert(pk.push(*f).drop_last() =~= pk);
            if f.is_module {
                bullets.append("- `");
                bullets.append(f.path.as_str());
                bullets.append("`\n");
            }
            count = count + 1;
            assert(bullets@ =~= module_bullets(package_files(index.files@.take(k + 1), target@)));
        }
        k += 1;
    }
    assert(index.files@.take(k as int) =~= index.files@);
    if count == 0 {
        return Err(SummaryError::PackageNotFound(String::from_str(target)));
    }
    let mut out = String::from_str("# ");
    match base_name_of(target) {
        Some(n) => out.append(n.as_str()),
        None => out.append("パッケージ"),
    }
    out.append("\n\n");
    push_count(&mut out, count, "ファイルを含むパッケージです。\n\n");
    out.append("## モジュール\n\n");
    out.append(bullets.as_str());
    assert(out@ =~= package_summary(*index, target@)->0);
    Ok(out)
}

proof fn lemma_package_files_len(fs: Seq<FileInfo>, t: Seq<char>)
    ensures
        package_files(fs, t).len() <= fs.len(),
    decreases fs.len(),
{
    if fs.len() > 0 {
        lemma_package_files_len(fs.drop_last(), t);
    }
}

} // verus!
verus! {

/// One bullet per dependency.
pub open spec fn dependency_bullets(deps: Seq<Seq<char>>) -> Seq<char>
    decreases deps.len(),
{
    if deps.len() == 0 {
        seq![]
    } else {
        dependency_bullets(deps.drop_last()) + "- `"@ + deps.last() + "`\n"@
    }
}

/// The summary of the file at a path: its role and dependencies, and with
/// `detailed-ja` its remarks; `None` where the index has no such file.
pub open spec fn module_summary(idx: Index, target: Seq<char>, style: Seq<char>) -> Option<Seq<char>> {
    match crate::wiki::first_file(idx.files@, target, 0) {
        Some(k) => {
            let f = idx.files@[k];
            Some(
                "# "@ + f.name@ + "\n\n"@ + "## 役割\n\n"@ + crate::summary::role_text(
                    crate::search::lower_of(f.name@),
                    f.language@,
                ) + "\n"@ + (if f.dependencies@.len() > 0 {
                    "## 依存関係\n\n"@ + dependency_bullets(texts(f.dependencies@)) + "\n"@
                } else {
                    seq![]
                }) + (if style == "detailed-ja"@ {
                    "## 注意点\n\n"@ + crate::summary::notes_text(f.size, f.dependencies@.len())
                        + "\n"@
                } else {
                    seq![]
                }),
            )
        },
        None => None,
    }
}

/// The summary of the file at a path: its text summarised; `None` where the
/// index has no such file.
pub open spec fn file_summary(idx: Index, target: Seq<char>) -> Option<Seq<char>> {
    match crate::wiki::first_file(idx.files@, target, 0) {
        Some(k) => {
            let f = idx.files@[k];
            Some(
                "# "@ + f.name@ + "\n\n"@ + match f.content {
                    Some(c) => "## 概要\n\n"@ + content_summary(c@, f.language@) + "\n"@,
                    None => seq![],
                },
            )
        },
        None => None,
    }
}

fn find_file(index: &Index, target: &str) -> (r: Option<usize>)
    ensures
        match r {
            Some(k) => crate::wiki::first_file(index.files@, target@, 0) == Some(k as int) && k
                < index.files@.len(),
            None => crate::wiki::first_file(index.files@, target@, 0) is None,
        },
{
    let t = String::from_str(target);
    let mut k: usize = 0;
    while k < index.files.len()
        invariant
            k <= index.files@.len(),
            t@ == target@,
            crate::wiki::first_file(index.files@, target@, 0) == crate::wiki::first_file(
                index.files@,
                target@,
                k as int,
            ),
        decreases index.files.len() - k,
    {
        if index.files[k].path == t {
            return Some(k);
        }
        k += 1;
    }
    None
}

/// The summary of a module of the index.
pub fn summarize_module(index: &Index, target: &str, style: &str) -> (r: Result<String, SummaryError>)
    ensures
        match r {
            Ok(t) => module_summary(*index, target@, style@) == Some(t@),
            Err(e) => module_summary(*index, target@, style@) is None && (e matches SummaryError::ModuleNotFound(
                m,
            ) && m@ == target@),
        },
{
    let k = match find_file(index, target) {
        Some(k) => k,
        None => {
            return Err(SummaryError::ModuleNotFound(String::from_str(target)));
        },
    };
    let f = &index.files[k];
    let mut out = String::from_str("# ");
    out.append(f.name.as_str());
    out.append("\n\n");
    out.append("## 役割\n\n");
    out.append(crate::summary::infer_role(f).as_str());
    out.append("\n");
    if f.dependencies.len() > 0 {
        out.append("## 依存関係\n\n");
        let ghost start = out@;
        let mut i: usize = 0;
        while i < f.dependencies.len()
            invariant
                i <= f.dependencies@.len(),
                out@ == start + dependency_bullets(texts(f.dependencies@).take(i as int)),
            decreases f.dependencies.len() - i,
        {
            assert(texts(f.dependencies@).take(i + 1).drop_last() =~= texts(f.dependencies@).take(
                i as int,
            ));
            out.append("- `");
            out.append(f.dependencies[i].as_str());
            out.append("`\n");
            assert(out@ =~= start + dependency_bullets(texts(f.dependencies@).take(i + 1)));
            i += 1;
        }
        assert(texts(f.dependencies@).take(i as int) =~= texts(f.dependencies@));
        out.append("\n");
    }
    let detailed = ['d', 'e', 't', 'a', 'i', 'l', 'e', 'd', '-', 'j', 'a'];
    proof {
        reveal_strlit("detailed-ja");
    }
    assert(detailed@ =~= "detailed-ja"@);
    if str_is(style, &detailed) {
        out.append("## 注意点\n\n");
        out.append(crate::summary::infer_notes(f).as_str());
        out.append("\n");
    }
    assert(out@ =~= module_summary(*index, target@, style@)->0);
    Ok(out)
}

/// The summary of a file of the index.
pub fn summarize_file(index: &Index, target: &str) -> (r: Result<String, SummaryError>)
    ensures
        match r {
            Ok(t) => file_summary(*index, target@) == Some(t@),
            Err(e) => file_summary(*index, target@) is None && (e matches SummaryError::FileNotFound(
                m,
            ) && m@ == target@),
        },
{
    let k = match find_file(index, target) {
        Some(k) => k,
        None => {
            return Err(SummaryError::FileNotFound(String::from_str(target)));
        },
    };
    let f = &index.files[k];
    let mut out = String::from_str("# ");
    out.append(f.name.as_str());
    out.append("\n\n");
    match &f.content {
        Some(c) => {
            out.append("## 概要\n\n");
            out.append(summarize_content(c.as_str(), f.language.as_str()).as_str());
            out.append("\n");
        },
        None => {},
    }
    assert(out@ =~= file_summary(*index, target@)->0);
    Ok(out)
}

/// The module graph that goes with a summary: a node per module.
pub open spec fn summary_graph(ms: Seq<ModuleInfo>) -> Seq<char> {
    "graph TD\n"@ + crate::diagram::node_lines(
        false,
        "M"@,
        crate::diagram::module_names(ms),
        ms.len() as int,
    )
}

/// The files that go with a summary: for a repository or a package, its
/// module graph.
pub open spec fn artifacts_spec(idx: Index, scope: Seq<char>) -> Seq<(Seq<char>, Seq<char>, Seq<char>)> {
    if scope == "repo"@ || scope == "package"@ {
        seq![
            (
                "mermaid"@,
                "./out/diagrams/module-graph-"@ + scope + ".mmd"@,
                summary_graph(idx.modules@),
            ),
        ]
    } else {
        seq![]
    }
}

/// What an artifact holds: its type, path and content.
pub open spec fn artifact_view(a: Artifact) -> (Seq<char>, Seq<char>, Seq<char>) {
    (a.artifact_type@, a.path@, a.content@)
}

/// The module graph of a summary.
pub fn summary_module_graph(index: &Index) -> (r: String)
    ensures
        r@ == summary_graph(index.modules@),
{
    let names = crate::diagram::module_names_of(&index.modules);
    let mut out = String::from_str("graph TD\n");
    crate::diagram::push_node_lines(&mut out, false, "M", &names);
    assert(texts(names@).len() == names@.len());
    assert(crate::diagram::module_names(index.modules@).len() == index.modules@.len());
    out
}

/// The files that go with a summary.
pub fn generate_artifacts(index: &Index, scope: &str) -> (r: Vec<Artifact>)
    ensures
        r@.map_values(|a: Artifact| artifact_view(a)) == artifacts_spec(*index, scope@),
{
    let repo = ['r', 'e', 'p', 'o'];
    let package = ['p', 'a', 'c', 'k', 'a', 'g', 'e'];
    proof {
        reveal_strlit("repo");
        reveal_strlit("package");
    }
    assert(repo@ =~= "repo"@);
    assert(package@ =~= "package"@);
    let mut out: Vec<Artifact> = Vec::new();
    if str_is(scope, &repo) || str_is(scope, &package) {
        let mut path = String::from_str("./out/diagrams/module-graph-");
        path.append(scope);
        path.append(".mmd");
        out.push(
            Artifact {
                artifact_type: String::from_str("mermaid"),
                path,
                content: summary_module_graph(index),
            },
        );
    }
    assert(out@.map_values(|a: Artifact| artifact_view(a)) =~= artifacts_spec(*index, scope@));
    out
}

/// The summary of a scope: `repo`, `package`, `module` or `file`.
pub open spec fn summary_spec(idx: Index, scope: Seq<char>, target: Seq<char>, style: Seq<char>) -> Option<
    Seq<char>,
> {
    if scope == "repo"@ {
        Some(repo_summary(idx, style))
    } else if scope == "package"@ {
        package_summary(idx, target)
    } else if scope == "module"@ {
        module_summary(idx, target, style)
    } else if scope == "file"@ {
        file_summary(idx, target)
    } else {
        None
    }
}

/// The summary of a scope of the index, with the files that go with it.
pub fn summarize(index: &Index, scope: &str, target: &str, style: &str) -> (r: Result<
    SummarizeResult,
    SummaryError,
>)
    ensures
        match r {
            Ok(s) => s.ok && summary_spec(*index, scope@, target@, style@) == Some(s.content_md@)
                && s.artifacts@.map_values(|a: Artifact| artifact_view(a)) == artifacts_spec(
                *index,
                scope@,
            ),
            Err(_) => summary_spec(*index, scope@, target@, style@) is None,
        },
{
    let repo = ['r', 'e', 'p', 'o'];
    let package = ['p', 'a', 'c', 'k', 'a', 'g', 'e'];
    let module = ['m', 'o', 'd', 'u', 'l', 'e'];
    let file = ['f', 'i', 'l', 'e'];
    proof {
        reveal_strlit("repo");
        reveal_strlit("package");
        reveal_strlit("module");
        reveal_strlit("file");
    }
    assert(repo@ =~= "repo"@);
    assert(package@ =~= "package"@);
    assert(module@ =~= "module"@);
    assert(file@ =~= "file"@);
    let content_md = if str_is(scope, &repo) {
        summarize_repo(index, style)
    } else if str_is(scope, &package) {
        summarize_package(index, target)?
    } else if str_is(scope, &module) {
        summarize_module(index, target, style)?
    } else if str_is(scope, &file) {
        summarize_file(index, target)?
    } else {
        return Err(SummaryError::UnknownScope(String::from_str(scope)));
    };
    let artifacts = generate_artifacts(index, scope);
    Ok(SummarizeResult { ok: true, content_md, artifacts })
}

} // verus!
