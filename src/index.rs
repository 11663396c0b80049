//! The index of a repository: its files, modules, languages, dependency
//! tokens and entry points, assembled from one walk of its tree.
use vstd::prelude::*;

use crate::deps::{dependencies_of, extract_with, DepRule};
use crate::glob::{excluded_by, should_exclude};
use crate::lang::{detect_language, file_stem, is_module_file, is_module_spec, language_of, stem_of};
use crate::text::{str_is, texts};
use vstd::utf8::encode_utf8;

verus! {

/// A regular file met by the walk, in walk order: its path, its size on disk
/// in bytes, and its text where it could be read.
#[derive(Clone, Debug)]
pub struct WalkEntry {
    pub path: String,
    pub size: u64,
    pub content: Option<String>,
}

/// One scanned file.
#[derive(Clone, Debug)]
pub struct FileInfo {
    pub path: String,
    /// The file name without its extension.
    pub name: String,
    pub language: String,
    /// The length of the text, in bytes.
    pub size: usize,
    pub dependencies: Vec<String>,
    pub is_module: bool,
    pub content: Option<String>,
}

/// A scanned file that is a module of its language.
#[derive(Clone, Debug)]
pub struct ModuleInfo {
    pub path: String,
    pub name: String,
    pub language: String,
    pub dependencies: Vec<String>,
}

/// Counts over an index.
#[derive(Clone, Debug)]
pub struct IndexStats {
    pub files: usize,
    pub languages: Vec<String>,
    pub modules: usize,
}

/// The index of one scan.
#[derive(Clone, Debug)]
pub struct Index {
    /// Tells concurrent builds apart.
    pub id: String,
    pub repo_path: String,
    pub files: Vec<FileInfo>,
    pub modules: Vec<ModuleInfo>,
    /// The distinct language tags met.
    pub languages: Vec<String>,
    /// The distinct dependency tokens of all files.
    pub dependencies: Vec<String>,
    pub entrypoints: Vec<String>,
    pub stats: IndexStats,
}

/// The dependency rule of a language tag, where it has one.
pub open spec fn rule_of(language: Seq<char>) -> Option<DepRule> {
    if language == "ts"@ || language == "js"@ || language == "tsx"@ || language == "jsx"@ {
        Some(DepRule::Script)
    } else if language == "py"@ {
        Some(DepRule::Python)
    } else if language == "go"@ {
        Some(DepRule::Go)
    } else if language == "rs"@ {
        Some(DepRule::Rust)
    } else {
        None
    }
}

/// The dependencies of a text in a language; none for a language without a rule.
pub open spec fn extract_spec(content: Seq<char>, language: Seq<char>) -> Seq<Seq<char>> {
    match rule_of(language) {
        Some(rule) => dependencies_of(rule, content),
        None => seq![],
    }
}

/// Whether the walk takes a file into account: no pattern excludes it, it
/// is at most `max_kb` KiB, and its extension is supported.
pub open spec fn admitted(e: WalkEntry, patterns: Seq<String>, max_kb: usize) -> bool {
    admissible(e.path@, e.size, patterns, max_kb)
}

/// Whether a file of this path and size is taken into account.
pub open spec fn admissible(path: Seq<char>, size: u64, patterns: Seq<String>, max_kb: usize) -> bool {
    !excluded_by(path, patterns) && size / 1024 <= max_kb && language_of(path) is Some
}

/// Whether the walk records a file: it is admitted and its text was read.
pub open spec fn recorded(e: WalkEntry, patterns: Seq<String>, max_kb: usize) -> bool {
    admitted(e, patterns, max_kb) && e.content is Some
}

/// The entries that are recorded, in walk order.
pub open spec fn kept(es: Seq<WalkEntry>, patterns: Seq<String>, max_kb: usize) -> Seq<WalkEntry>
    decreases es.len(),
{
    if es.len() == 0 {
        seq![]
    } else {
        let init = kept(es.drop_last(), patterns, max_kb);
        if recorded(es.last(), patterns, max_kb) {
            init.push(es.last())
        } else {
            init
        }
    }
}

/// The languages of the recorded entries: a file that could not be read
/// adds nothing.
pub open spec fn languages_met(es: Seq<WalkEntry>, patterns: Seq<String>, max_kb: usize) -> Set<
    Seq<char>,
>
    decreases es.len(),
{
    if es.len() == 0 {
        Set::empty()
    } else {
        let init = languages_met(es.drop_last(), patterns, max_kb);
        if recorded(es.last(), patterns, max_kb) {
            init.insert(language_of(es.last().path@)->0)
        } else {
            init
        }
    }
}

/// The byte length of a text.
pub open spec fn byte_len(s: String) -> nat {
    encode_utf8(s@).len()
}

/// What the file record of a walk entry holds.
pub open spec fn describes(f: FileInfo, e: WalkEntry) -> bool {
    &&& e.content matches Some(c)
    &&& f.path@ == e.path@
    &&& f.name@ == stem_of(e.path@)
    &&& language_of(e.path@) == Some(f.language@)
    &&& f.size == byte_len(c) as usize
    &&& texts(f.dependencies@) == extract_spec(c@, f.language@)
    &&& f.is_module == is_module_spec(e.path@, f.language@)
    &&& f.content matches Some(fc) && fc@ == c@
}

/// The files that are modules, in order.
pub open spec fn module_files(fs: Seq<FileInfo>) -> Seq<FileInfo>
    decreases fs.len(),
{
    if fs.len() == 0 {
        seq![]
    } else {
        let init = module_files(fs.drop_last());
        if fs.last().is_module {
            init.push(fs.last())
        } else {
            init
        }
    }
}

/// What the module record of a file holds.
pub open spec fn mirrors(m: ModuleInfo, f: FileInfo) -> bool {
    &&& m.path@ == f.path@
    &&& m.name@ == f.name@
    &&& m.language@ == f.language@
    &&& texts(m.dependencies@) == texts(f.dependencies@)
}

/// Every dependency token of the files.
pub open spec fn tokens_of(fs: Seq<FileInfo>) -> Set<Seq<char>>
    decreases fs.len(),
{
    if fs.len() == 0 {
        Set::empty()
    } else {
        tokens_of(fs.drop_last()) + texts(fs.last().dependencies@).to_set()
    }
}

/// The index that a walk over `es` yields, apart from its identifier and
/// entry points.
pub open spec fn assembled(
    idx: Index,
    root: Seq<char>,
    es: Seq<WalkEntry>,
    patterns: Seq<String>,
    max_kb: usize,
) -> bool {
    let ks = kept(es, patterns, max_kb);
    let ms = module_files(idx.files@);
    &&& idx.repo_path@ == root
    &&& idx.files@.len() == ks.len()
    &&& forall|k: int| 0 <= k < ks.len() ==> describes(#[trigger] idx.files@[k], ks[k])
    &&& idx.modules@.len() == ms.len()
    &&& forall|k: int| 0 <= k < ms.len() ==> mirrors(#[trigger] idx.modules@[k], ms[k])
    &&& texts(idx.languages@).no_duplicates()
    &&& texts(idx.languages@).to_set() == languages_met(es, patterns, max_kb)
    &&& texts(idx.dependencies@).no_duplicates()
    &&& texts(idx.dependencies@).to_set() == tokens_of(idx.files@)
    &&& texts(idx.stats.languages@) == texts(idx.languages@)
    &&& idx.stats.files == idx.files@.len()
    &&& idx.stats.modules == idx.modules@.len()
}

} // verus!
verus! {

/// The dependencies that the rule of `language` finds in `content`, in the
/// order of the text, duplicates kept; none for a language without a rule.
pub fn extract_dependencies(content: &str, language: &str) -> (r: Vec<String>)
    ensures
        texts(r@) == extract_spec(content@, language@),
{
    let ts = ['t', 's'];
    let js = ['j', 's'];
    let tsx = ['t', 's', 'x'];
    let jsx = ['j', 's', 'x'];
    let py = ['p', 'y'];
    let go = ['g', 'o'];
    let rs = ['r', 's'];
    proof {
        reveal_strlit("ts");
        reveal_strlit("js");
        reveal_strlit("tsx");
        reveal_strlit("jsx");
        reveal_strlit("py");
        reveal_strlit("go");
        reveal_strlit("rs");
    }
    assert(ts@ =~= "ts"@);
    assert(js@ =~= "js"@);
    assert(tsx@ =~= "tsx"@);
    assert(jsx@ =~= "jsx"@);
    assert(py@ =~= "py"@);
    assert(go@ =~= "go"@);
    assert(rs@ =~= "rs"@);
    if str_is(language, &ts) || str_is(language, &js) || str_is(language, &tsx) || str_is(
        language,
        &jsx,
    ) {
        extract_with(DepRule::Script, content)
    } else if str_is(language, &py) {
        extract_with(DepRule::Python, content)
    } else if str_is(language, &go) {
        extract_with(DepRule::Go, content)
    } else if str_is(language, &rs) {
        extract_with(DepRule::Rust, content)
    } else {
        let r: Vec<String> = Vec::new();
        assert(texts(r@) =~= seq![]);
        r
    }
}

fn clone_strings(v: &Vec<String>) -> (r: Vec<String>)
    ensures
        texts(r@) == texts(v@),
{
    let mut out: Vec<String> = Vec::new();
    let mut k: usize = 0;
    while k < v.len()
        invariant
            k <= v@.len(),
            texts(out@) == texts(v@).take(k as int),
        decreases v.len() - k,
    {
        let ghost before = out@;
        let c = v[k].clone();
        out.push(c);
        assert(texts(out@) =~= texts(before).push(v@[k as int]@));
        assert(texts(v@).take(k + 1) =~= texts(v@).take(k as int).push(v@[k as int]@));
        k += 1;
    }
    assert(texts(v@).take(k as int) =~= texts(v@));
    out
}

/// Adds `x` to a list of distinct strings unless it is there already.
fn add_distinct(v: &mut Vec<String>, x: &String)
    requires
        texts(old(v)@).no_duplicates(),
    ensures
        texts(final(v)@).no_duplicates(),
        texts(final(v)@).to_set() == texts(old(v)@).to_set().insert(x@),
{
    let mut k: usize = 0;
    while k < v.len()
        invariant
            k <= v@.len(),
            v@ == old(v)@,
            texts(old(v)@).no_duplicates(),
            forall|m: int| 0 <= m < k ==> v@[m]@ != x@,
        decreases v.len() - k,
    {
        if v[k] == *x {
            assert(texts(v@)[k as int] == x@);
            assert(texts(v@).to_set().insert(x@) =~= texts(v@).to_set());
            return;
        }
        k += 1;
    }
    let ghost before = texts(v@);
    assert(!before.contains(x@)) by {
        if before.contains(x@) {
            let m = choose|m: int| 0 <= m < before.len() && before[m] == x@;
            assert(v@[m]@ == x@);
        }
    }
    v.push(x.clone());
    assert(texts(v@) =~= before.push(x@));
    proof {
        before.lemma_push_to_set_commute(x@);
    }
}

/// Adds each of `xs` to a list of distinct strings unless it is there already.
fn add_all_distinct(v: &mut Vec<String>, xs: &Vec<String>)
    requires
        texts(old(v)@).no_duplicates(),
    ensures
        texts(final(v)@).no_duplicates(),
        texts(final(v)@).to_set() == texts(old(v)@).to_set() + texts(xs@).to_set(),
{
    let mut k: usize = 0;
    while k < xs.len()
        invariant
            k <= xs@.len(),
            texts(v@).no_duplicates(),
            texts(v@).to_set() == texts(old(v)@).to_set() + texts(xs@).take(k as int).to_set(),
        decreases xs.len() - k,
    {
        add_distinct(v, &xs[k]);
        assert(texts(xs@).take(k + 1) =~= texts(xs@).take(k as int).push(xs@[k as int]@));
        proof {
            texts(xs@).take(k as int).lemma_push_to_set_commute(xs@[k as int]@);
        }
        assert(texts(v@).to_set() =~= texts(old(v)@).to_set() + texts(xs@).take(k + 1).to_set());
        k += 1;
    }
    assert(texts(xs@).take(k as int) =~= texts(xs@));
}

} // verus!
verus! {

/// Whether a file of this path and size is taken into account: no pattern
/// of `exclude` matches its path, it is at most `max_file_kb` KiB, and its
/// extension is supported. Only such a file needs to be read.
pub fn admissible_file(path: &str, size: u64, exclude: &Vec<String>, max_file_kb: usize) -> (r: bool)
    ensures
        r == admissible(path@, size, exclude@, max_file_kb),
{
    !should_exclude(path, exclude) && size / 1024 <= max_file_kb as u64 && detect_language(
        path,
    ).is_some()
}

/// Takes one walk entry into account: `files`, `modules`, `languages` and
/// `tokens` grow as the walk over `es[..i + 1]` asks.
fn take_entry(
    e: &WalkEntry,
    exclude: &Vec<String>,
    max_file_kb: usize,
    files: &mut Vec<FileInfo>,
    modules: &mut Vec<ModuleInfo>,
    languages: &mut Vec<String>,
    tokens: &mut Vec<String>,
)
    requires
        texts(old(languages)@).no_duplicates(),
        texts(old(tokens)@).no_duplicates(),
    ensures
        recorded(*e, exclude@, max_file_kb) ==> final(files)@.len() == old(files)@.len() + 1
            && final(files)@.drop_last() == old(files)@ && describes(final(files)@.last(), *e),
        !recorded(*e, exclude@, max_file_kb) ==> final(files)@ == old(files)@,
        final(files)@.len() == old(files)@.len() + 1 && final(files)@.last().is_module
            ==> final(modules)@.len() == old(modules)@.len() + 1 && final(modules)@.drop_last()
            == old(modules)@ && mirrors(final(modules)@.last(), final(files)@.last()),
        !(final(files)@.len() == old(files)@.len() + 1 && final(files)@.last().is_module)
            ==> final(modules)@ == old(modules)@,
        texts(final(languages)@).no_duplicates(),
        recorded(*e, exclude@, max_file_kb) ==> texts(final(languages)@).to_set() == texts(
            old(languages)@,
        ).to_set().insert(language_of(e.path@)->0),
        !recorded(*e, exclude@, max_file_kb) ==> final(languages)@ == old(languages)@,
        texts(final(tokens)@).no_duplicates(),
        final(files)@.len() == old(files)@.len() + 1 ==> texts(final(tokens)@).to_set() == texts(
            old(tokens)@,
        ).to_set() + texts(final(files)@.last().dependencies@).to_set(),
        final(files)@.len() == old(files)@.len() ==> final(tokens)@ == old(tokens)@,
{
    if should_exclude(e.path.as_str(), exclude) {
        return;
    }
    if e.size / 1024 > max_file_kb as u64 {
        return;
    }
    let language = match detect_language(e.path.as_str()) {
        Some(l) => l,
        None => {
            return;
        },
    };
    let content = match &e.content {
        Some(c) => c,
        None => {
            return;
        },
    };
    add_distinct(languages, &language);
    let dependencies = extract_dependencies(content.as_str(), language.as_str());
    let is_module = is_module_file(e.path.as_str(), language.as_str());
    let name = file_stem(e.path.as_str());
    let size = content.as_str().len();
    add_all_distinct(tokens, &dependencies);
    if is_module {
        modules.push(
            ModuleInfo {
                path: e.path.clone(),
                name: name.clone(),
                language: language.clone(),
                dependencies: clone_strings(&dependencies),
            },
        );
    }
    files.push(
        FileInfo {
            path: e.path.clone(),
            name,
            language,
            size,
            dependencies,
            is_module,
            content: Some(content.clone()),
        },
    );
    assert(final(files)@.drop_last() =~= old(files)@);
    assert(is_module ==> final(modules)@.drop_last() =~= old(modules)@);
}

/// Assembles the index of one walk. `entries` are the regular files that
/// the walk met, in walk order; a file is recorded where no pattern of
/// `exclude` matches its path, it is at most `max_file_kb` KiB, its extension
/// is supported and its text was read.
pub fn assemble_index(
    root: &str,
    entries: &Vec<WalkEntry>,
    exclude: &Vec<String>,
    max_file_kb: usize,
    id: String,
    entrypoints: Vec<String>,
) -> (r: Index)
    ensures
        assembled(r, root@, entries@, exclude@, max_file_kb),
        r.id == id,
        r.entrypoints == entrypoints,
{
    let ghost es = entries@;
    let ghost pats = exclude@;
    let mut files: Vec<FileInfo> = Vec::new();
    let mut modules: Vec<ModuleInfo> = Vec::new();
    let mut languages: Vec<String> = Vec::new();
    let mut tokens: Vec<String> = Vec::new();
    let mut i: usize = 0;
    assert(texts(languages@).to_set() =~= Set::empty());
    assert(texts(tokens@).to_set() =~= Set::empty());
    assert(es.take(0) =~= seq![]);
    while i < entries.len()
        invariant
            i <= es.len(),
            es == entries@,
            pats == exclude@,
            files@.len() == kept(es.take(i as int), pats, max_file_kb).len(),
            forall|k: int|
                0 <= k < files@.len() ==> describes(
                    #[trigger] files@[k],
                    kept(es.take(i as int), pats, max_file_kb)[k],
                ),
            modules@.len() == module_files(files@).len(),
            forall|k: int|
                0 <= k < modules@.len() ==> mirrors(#[trigger] modules@[k], module_files(files@)[k]),
            texts(languages@).no_duplicates(),
            texts(languages@).to_set() == languages_met(es.take(i as int), pats, max_file_kb),
            texts(tokens@).no_duplicates(),
            texts(tokens@).to_set() == tokens_of(files@),
        decreases es.len() - i,
    {
        let ghost files0 = files@;
        let ghost modules0 = modules@;
        let ghost ks0 = kept(es.take(i as int), pats, max_file_kb);
        assert(es.take(i + 1).drop_last() =~= es.take(i as int));
        assert(es.take(i + 1).last() == es[i as int]);
        take_entry(
            &entries[i],
            exclude,
            max_file_kb,
            &mut files,
            &mut modules,
            &mut languages,
            &mut tokens,
        );
        let ghost ks1 = kept(es.take(i + 1), pats, max_file_kb);
        assert(files@.len() == ks1.len());
        assert forall|k: int| 0 <= k < files@.len() implies describes(
            #[trigger] files@[k],
            ks1[k],
        ) by {
            if k < files0.len() {
                assert(files@[k] == files0[k]);
                assert(ks1[k] == ks0[k]);
            }
        }
        proof {
            if files@.len() == files0.len() + 1 {
                assert(files@.drop_last() == files0);
                assert(module_files(files@) == if files@.last().is_module {
                    module_files(files0).push(files@.last())
                } else {
                    module_files(files0)
                });
                assert(tokens_of(files@) == tokens_of(files0) + texts(
                    files@.last().dependencies@,
                ).to_set());
                assert forall|k: int| 0 <= k < modules@.len() implies mirrors(
                    #[trigger] modules@[k],
                    module_files(files@)[k],
                ) by {
                    if k < modules0.len() {
                        assert(modules@[k] == modules0[k]);
                    }
                }
            }
        }
        i += 1;
    }
    assert(es.take(i as int) =~= es);
    let stats = IndexStats {
        files: files.len(),
        languages: clone_strings(&languages),
        modules: modules.len(),
    };
    Index {
        id,
        repo_path: String::from_str(root),
        files,
        modules,
        languages,
        dependencies: tokens,
        entrypoints,
        stats,
    }
}

} // verus!
verus! {

proof fn lemma_kept_from_entries(es: Seq<WalkEntry>, patterns: Seq<String>, max_kb: usize)
    ensures
        forall|k: int|
            0 <= k < kept(es, patterns, max_kb).len() ==> recorded(
                #[trigger] kept(es, patterns, max_kb)[k],
                patterns,
                max_kb,
            ) && es.contains(kept(es, patterns, max_kb)[k]),
    decreases es.len(),
{
    if es.len() > 0 {
        let init = es.drop_last();
        lemma_kept_from_entries(init, patterns, max_kb);
        let ks = kept(es, patterns, max_kb);
        assert forall|k: int| 0 <= k < ks.len() implies recorded(
            #[trigger] ks[k],
            patterns,
            max_kb,
        ) && es.contains(ks[k]) by {
            let ki = kept(init, patterns, max_kb);
            if k < ki.len() {
                assert(ks[k] == ki[k]);
                let m = choose|m: int| 0 <= m < init.len() && init[m] == ki[k];
                assert(es[m] == init[m]);
            } else {
                assert(ks[k] == es[es.len() - 1]);
            }
        }
    }
}

/// Every file of an index came from a walk entry that no pattern excludes,
/// whose extension is supported and whose size is within the ceiling: a
/// file of an unsupported language, or larger than `max_kb` KiB, is never
/// recorded.
pub proof fn lemma_recorded_files_admitted(
    idx: Index,
    root: Seq<char>,
    es: Seq<WalkEntry>,
    patterns: Seq<String>,
    max_kb: usize,
)
    requires
        assembled(idx, root, es, patterns, max_kb),
    ensures
        forall|k: int|
            0 <= k < idx.files@.len() ==> language_of((#[trigger] idx.files@[k]).path@) is Some,
        forall|k: int|
            0 <= k < idx.files@.len() ==> exists|e: WalkEntry|
                es.contains(e) && e.path@ == (#[trigger] idx.files@[k]).path@ && e.size / 1024
                    <= max_kb && !excluded_by(e.path@, patterns),
        idx.stats.files == idx.files@.len(),
        idx.stats.modules == idx.modules@.len(),
{
    lemma_kept_from_entries(es, patterns, max_kb);
    let ks = kept(es, patterns, max_kb);
    assert forall|k: int| 0 <= k < idx.files@.len() implies exists|e: WalkEntry|
        es.contains(e) && e.path@ == (#[trigger] idx.files@[k]).path@ && e.size / 1024 <= max_kb
            && !excluded_by(e.path@, patterns) by {
        assert(describes(idx.files@[k], ks[k]));
        assert(recorded(ks[k], patterns, max_kb));
    }
    assert forall|k: int| 0 <= k < idx.files@.len() implies language_of(
        (#[trigger] idx.files@[k]).path@,
    ) is Some by {
        assert(describes(idx.files@[k], ks[k]));
    }
}

} // verus!
verus! {

proof fn lemma_languages_of_kept(es: Seq<WalkEntry>, patterns: Seq<String>, max_kb: usize, x: Seq<char>)
    ensures
        languages_met(es, patterns, max_kb).contains(x) <==> exists|k: int|
            0 <= k < kept(es, patterns, max_kb).len() && language_of(
                (#[trigger] kept(es, patterns, max_kb)[k]).path@,
            ) == Some(x),
    decreases es.len(),
{
    if es.len() > 0 {
        let init = es.drop_last();
        lemma_languages_of_kept(init, patterns, max_kb, x);
        let ki = kept(init, patterns, max_kb);
        let ks = kept(es, patterns, max_kb);
        if languages_met(es, patterns, max_kb).contains(x) {
            if languages_met(init, patterns, max_kb).contains(x) {
                let k = choose|k: int| 0 <= k < ki.len() && language_of((#[trigger] ki[k]).path@) == Some(x);
                assert(ks[k] == ki[k]);
            } else {
                assert(ks[ki.len() as int] == es.last());
            }
        }
        if exists|k: int| 0 <= k < ks.len() && language_of((#[trigger] ks[k]).path@) == Some(x) {
            let k = choose|k: int| 0 <= k < ks.len() && language_of((#[trigger] ks[k]).path@) == Some(x);
            if k < ki.len() {
                assert(ks[k] == ki[k]);
            }
        }
    }
}

/// The languages of an index are exactly the languages of its files: a file
/// that could not be read, and so is not among them, adds no language.
pub proof fn lemma_languages_are_files_languages(
    idx: Index,
    root: Seq<char>,
    es: Seq<WalkEntry>,
    patterns: Seq<String>,
    max_kb: usize,
)
    requires
        assembled(idx, root, es, patterns, max_kb),
    ensures
        forall|x: Seq<char>|
            #![trigger texts(idx.languages@).contains(x)]
            texts(idx.languages@).contains(x) <==> exists|k: int|
                0 <= k < idx.files@.len() && (#[trigger] idx.files@[k]).language@ == x,
{
    let ks = kept(es, patterns, max_kb);
    assert forall|x: Seq<char>| #![trigger texts(idx.languages@).contains(x)]
        texts(idx.languages@).contains(x) <==> exists|k: int|
            0 <= k < idx.files@.len() && (#[trigger] idx.files@[k]).language@ == x by {
        lemma_languages_of_kept(es, patterns, max_kb, x);
        assert(texts(idx.languages@).to_set().contains(x) == texts(idx.languages@).contains(x));
        if texts(idx.languages@).contains(x) {
            let k = choose|k: int| 0 <= k < ks.len() && language_of((#[trigger] ks[k]).path@) == Some(x);
            assert(describes(idx.files@[k], ks[k]));
        }
        if exists|k: int| 0 <= k < idx.files@.len() && (#[trigger] idx.files@[k]).language@ == x {
            let k = choose|k: int| 0 <= k < idx.files@.len() && (#[trigger] idx.files@[k]).language@ == x;
            assert(describes(idx.files@[k], ks[k]));
        }
    }
}

/// Whether no two walk entries share a path, as in one walk of a tree.
pub open spec fn distinct_paths(es: Seq<WalkEntry>) -> bool {
    forall|a: int, b: int|
        0 <= a < es.len() && 0 <= b < es.len() && a != b ==> (#[trigger] es[a]).path@ != (
        #[trigger] es[b]).path@
}

/// Whether every text that was read is the whole file: its length in bytes
/// is the file's size.
pub open spec fn whole_texts(es: Seq<WalkEntry>) -> bool {
    forall|a: int|
        0 <= a < es.len() ==> ((#[trigger] es[a]).content matches Some(c) ==> byte_len(c)
            == es[a].size)
}

/// A file larger than `max_kb` KiB never appears among the files of an
/// index, whatever its language, where the walk lists each path once; and
/// where every text read is the whole file, every recorded file is within
/// the ceiling.
pub proof fn lemma_oversized_never_recorded(
    idx: Index,
    root: Seq<char>,
    es: Seq<WalkEntry>,
    patterns: Seq<String>,
    max_kb: usize,
)
    requires
        assembled(idx, root, es, patterns, max_kb),
        distinct_paths(es),
    ensures
        forall|a: int, k: int|
            0 <= a < es.len() && (#[trigger] es[a]).size / 1024 > max_kb && 0 <= k
                < idx.files@.len() ==> (#[trigger] idx.files@[k]).path@ != es[a].path@,
        whole_texts(es) ==> forall|k: int|
            0 <= k < idx.files@.len() ==> (#[trigger] idx.files@[k]).size / 1024 <= max_kb,
{
    lemma_kept_from_entries(es, patterns, max_kb);
    let ks = kept(es, patterns, max_kb);
    assert forall|a: int, k: int|
        0 <= a < es.len() && (#[trigger] es[a]).size / 1024 > max_kb && 0 <= k
            < idx.files@.len() implies (#[trigger] idx.files@[k]).path@ != es[a].path@ by {
        assert(describes(idx.files@[k], ks[k]));
        assert(recorded(ks[k], patterns, max_kb));
        let b = choose|b: int| 0 <= b < es.len() && es[b] == ks[k];
        if idx.files@[k].path@ == es[a].path@ {
            assert(a != b);
        }
    }
    if whole_texts(es) {
        assert forall|k: int| 0 <= k < idx.files@.len() implies (#[trigger] idx.files@[k]).size
            / 1024 <= max_kb by {
            assert(describes(idx.files@[k], ks[k]));
            assert(recorded(ks[k], patterns, max_kb));
            let b = choose|b: int| 0 <= b < es.len() && es[b] == ks[k];
            assert(es[b].content matches Some(c) ==> byte_len(c) == es[b].size);
        }
    }
}

} // verus!
