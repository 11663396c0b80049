//! Candidate entry points of a program.
use vstd::prelude::*;

use crate::lang::{file_name_of, name_start};
use crate::text::{chars_of, range_is, texts};

verus! {

/// `rel` joined onto `root` as a path: an absolute `rel` replaces `root`, and
/// a separator is put between the two where `root` does not end in one.
pub open spec fn join_path(root: Seq<char>, rel: Seq<char>) -> Seq<char> {
    if rel.len() > 0 && rel[0] == '/' {
        rel
    } else if root.len() == 0 || root.last() == '/' {
        root + rel
    } else {
        root + seq!['/'] + rel
    }
}

/// The fixed names that are taken as entry points where they stand at the root.
pub open spec fn entry_names() -> Seq<Seq<char>> {
    seq![
        "main.ts"@,
        "main.js"@,
        "index.ts"@,
        "index.js"@,
        "main.py"@,
        "__main__.py"@,
        "main.go"@,
        "main.rs"@,
    ]
}

/// The paths to look for: each hint, then each fixed name, joined onto the root.
pub open spec fn probe_paths(root: Seq<char>, hints: Seq<Seq<char>>) -> Seq<Seq<char>> {
    hints.map_values(|h: Seq<char>| join_path(root, h)) + entry_names().map_values(
        |c: Seq<char>| join_path(root, c),
    )
}

/// Whether a path names a file called `main.ts` or `index.ts`.
pub open spec fn is_script_entry(p: Seq<char>) -> bool {
    file_name_of(p) == "main.ts"@ || file_name_of(p) == "index.ts"@
}

/// The probes that exist, in order; a probe without a flag does not.
pub open spec fn existing(probes: Seq<Seq<char>>, exists: Seq<bool>) -> Seq<Seq<char>>
    decreases probes.len(),
{
    if probes.len() == 0 {
        seq![]
    } else {
        let init = existing(probes.drop_last(), exists);
        let k = probes.len() - 1;
        if k < exists.len() && exists[k] {
            init.push(probes.last())
        } else {
            init
        }
    }
}

/// The files of the tree that are called `main.ts` or `index.ts`, in walk order.
pub open spec fn script_entries(files: Seq<Seq<char>>) -> Seq<Seq<char>>
    decreases files.len(),
{
    if files.len() == 0 {
        seq![]
    } else {
        let init = script_entries(files.drop_last());
        if is_script_entry(files.last()) {
            init.push(files.last())
        } else {
            init
        }
    }
}

/// The entry points: the probes that exist, then, once for each of the two
/// wildcard patterns, every file of the tree called `main.ts` or `index.ts`.
pub open spec fn entrypoints_spec(
    probes: Seq<Seq<char>>,
    exists: Seq<bool>,
    files: Seq<Seq<char>>,
) -> Seq<Seq<char>> {
    existing(probes, exists) + script_entries(files) + script_entries(files)
}

/// Joins `rel` onto `root`.
pub fn join(root: &str, rel: &str) -> (r: String)
    ensures
        r@ == join_path(root@, rel@),
{
    let rn = rel.unicode_len();
    if rn > 0 && rel.get_char(0) == '/' {
        return String::from_str(rel);
    }
    let n = root.unicode_len();
    let mut r = String::from_str(root);
    if n > 0 && root.get_char(n - 1) != '/' {
        r.append("/");
        proof {
            reveal_strlit("/");
        }
    }
    r.append(rel);
    r
}

fn push_join(out: &mut Vec<String>, root: &str, rel: &str)
    ensures
        texts(final(out)@) == texts(old(out)@).push(join_path(root@, rel@)),
{
    out.push(join(root, rel));
    assert(texts(final(out)@) =~= texts(old(out)@).push(join_path(root@, rel@)));
}

/// The paths whose existence decides the entry points that are not found by a
/// walk: each hint, then each fixed name, joined onto the root.
pub fn entrypoint_probes(root: &str, hints: &Vec<String>) -> (r: Vec<String>)
    ensures
        texts(r@) == probe_paths(root@, texts(hints@)),
{
    let mut out: Vec<String> = Vec::new();
    let mut k: usize = 0;
    while k < hints.len()
        invariant
            k <= hints@.len(),
            texts(out@) == texts(hints@).take(k as int).map_values(
                |h: Seq<char>| join_path(root@, h),
            ),
        decreases hints.len() - k,
    {
        push_join(&mut out, root, hints[k].as_str());
        assert(texts(hints@).take(k + 1) =~= texts(hints@).take(k as int).push(hints@[k as int]@));
        assert(texts(out@) =~= texts(hints@).take(k + 1).map_values(
            |h: Seq<char>| join_path(root@, h),
        ));
        k += 1;
    }
    assert(texts(hints@).take(k as int) =~= texts(hints@));
    let ghost head = texts(out@);
    push_join(&mut out, root, "main.ts");
    push_join(&mut out, root, "main.js");
    push_join(&mut out, root, "index.ts");
    push_join(&mut out, root, "index.js");
    push_join(&mut out, root, "main.py");
    push_join(&mut out, root, "__main__.py");
    push_join(&mut out, root, "main.go");
    push_join(&mut out, root, "main.rs");
    assert(texts(out@) =~= probe_paths(root@, texts(hints@)));
    out
}

/// Whether a path names a file called `main.ts` or `index.ts`.
pub fn script_entry(path: &str) -> (r: bool)
    ensures
        r == is_script_entry(path@),
{
    let text = chars_of(path);
    let n: usize = text.len();
    let start = name_start(&text);
    let main_ts = ['m', 'a', 'i', 'n', '.', 't', 's'];
    let index_ts = ['i', 'n', 'd', 'e', 'x', '.', 't', 's'];
    proof {
        reveal_strlit("main.ts");
        reveal_strlit("index.ts");
    }
    assert(main_ts@ =~= "main.ts"@);
    assert(index_ts@ =~= "index.ts"@);
    range_is(&text, start, n, &main_ts) || range_is(&text, start, n, &index_ts)
}

fn push_script_entries(out: &mut Vec<String>, files: &Vec<String>)
    ensures
        texts(final(out)@) == texts(old(out)@) + script_entries(texts(files@)),
{
    let mut k: usize = 0;
    while k < files.len()
        invariant
            k <= files@.len(),
            texts(out@) == texts(old(out)@) + script_entries(texts(files@).take(k as int)),
        decreases files.len() - k,
    {
        let ghost before = out@;
        assert(texts(files@).take(k + 1).drop_last() =~= texts(files@).take(k as int));
        if script_entry(files[k].as_str()) {
            out.push(files[k].clone());
            assert(texts(out@) =~= texts(before).push(files@[k as int]@));
        }
        assert(texts(out@) =~= texts(old(out)@) + script_entries(texts(files@).take(k + 1)));
        k += 1;
    }
    assert(texts(files@).take(k as int) =~= texts(files@));
}

/// The entry points: the probes that were found to exist, in order, then,
/// once for each of the two wildcard patterns, every file of the walk that
/// is called `main.ts` or `index.ts`.
pub fn infer_entrypoints(probes: &Vec<String>, exists: &Vec<bool>, files: &Vec<String>) -> (r:
    Vec<String>)
    ensures
        texts(r@) == entrypoints_spec(texts(probes@), exists@, texts(files@)),
{
    let mut out: Vec<String> = Vec::new();
    let mut k: usize = 0;
    while k < probes.len()
        invariant
            k <= probes@.len(),
            texts(out@) == existing(texts(probes@).take(k as int), exists@),
        decreases probes.len() - k,
    {
        let ghost before = out@;
        assert(texts(probes@).take(k + 1).drop_last() =~= texts(probes@).take(k as int));
        if k < exists.len() && exists[k] {
            out.push(probes[k].clone());
            assert(texts(out@) =~= texts(before).push(probes@[k as int]@));
        }
        k += 1;
    }
    assert(texts(probes@).take(k as int) =~= texts(probes@));
    push_script_entries(&mut out, files);
    push_script_entries(&mut out, files);
    out
}

} // verus!
