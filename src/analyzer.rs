//! The analyser: one scan of a repository into an index.
use vstd::prelude::*;

use crate::config::{AnalysisConfig, ProjectConfig};
use crate::deps::{dependencies_of, extract_with, DepRule};
use crate::entry::{entrypoint_probes, entrypoints_spec, infer_entrypoints, probe_paths};
use crate::index::{assemble_index, assembled, Index, WalkEntry};
use crate::text::texts;

verus! {

/// Relies on `uuid::Uuid::new_v4` and the `Display` of `Uuid`: a random
/// identifier, written in its hyphenated form of 36 characters.
#[verifier::external_body]
fn new_index_id() -> (r: String)
    ensures
        r@.len() == 36,
{
    uuid::Uuid::new_v4().to_string()
}

/// The paths of walk entries, in order.
pub open spec fn entry_paths(es: Seq<WalkEntry>) -> Seq<Seq<char>> {
    es.map_values(|e: WalkEntry| e.path@)
}

fn paths_of(entries: &Vec<WalkEntry>) -> (r: Vec<String>)
    ensures
        texts(r@) == entry_paths(entries@),
{
    let mut out: Vec<String> = Vec::new();
    let mut k: usize = 0;
    while k < entries.len()
        invariant
            k <= entries@.len(),
            texts(out@) == entry_paths(entries@).take(k as int),
        decreases entries.len() - k,
    {
        let ghost before = out@;
        out.push(entries[k].path.clone());
        assert(texts(out@) =~= texts(before).push(entries@[k as int].path@));
        assert(entry_paths(entries@).take(k + 1) =~= entry_paths(entries@).take(k as int).push(
            entries@[k as int].path@,
        ));
        k += 1;
    }
    assert(entry_paths(entries@).take(k as int) =~= entry_paths(entries@));
    out
}

/// Scans repositories under the settings it was made with.
#[derive(Clone, Debug)]
pub struct Analyzer {
    pub project: ProjectConfig,
    pub analysis: AnalysisConfig,
}

impl Analyzer {
    pub fn new(project: ProjectConfig, analysis: AnalysisConfig) -> (r: Self)
        ensures
            r.project == project,
            r.analysis == analysis,
    {
        Analyzer { project, analysis }
    }

    /// The paths under `repo_path` whose existence the caller must look up
    /// before [`Analyzer::analyze_repo`]: the configured hints, then the
    /// fixed entry-point names.
    pub fn entrypoint_probes(&self, repo_path: &str) -> (r: Vec<String>)
        ensures
            texts(r@) == probe_paths(repo_path@, texts(self.analysis.infer_entrypoints@)),
    {
        entrypoint_probes(repo_path, &self.analysis.infer_entrypoints)
    }

    /// The index of one walk of the tree under `repo_path`. `entries` are the
    /// regular files that the walk met, in walk order; `probe_exists` tells,
    /// for each path of [`Analyzer::entrypoint_probes`], whether it exists.
    pub fn analyze_repo(&self, repo_path: &str, entries: &Vec<WalkEntry>, probe_exists: &Vec<bool>) -> (r:
        Index)
        ensures
            assembled(r, repo_path@, entries@, self.project.exclude@, self.analysis.max_file_kb),
            r.id@.len() == 36,
            texts(r.entrypoints@) == entrypoints_spec(
                probe_paths(repo_path@, texts(self.analysis.infer_entrypoints@)),
                probe_exists@,
                entry_paths(entries@),
            ),
    {
        let probes = entrypoint_probes(repo_path, &self.analysis.infer_entrypoints);
        let files = paths_of(entries);
        let entrypoints = infer_entrypoints(&probes, probe_exists, &files);
        let id = new_index_id();
        assemble_index(
            repo_path,
            entries,
            &self.project.exclude,
            self.analysis.max_file_kb,
            id,
            entrypoints,
        )
    }

    /// The dependencies of a TypeScript or JavaScript text.
    pub fn extract_js_dependencies(&self, content: &str) -> (r: Vec<String>)
        ensures
            texts(r@) == dependencies_of(DepRule::Script, content@),
    {
        extract_with(DepRule::Script, content)
    }

    /// The dependencies of a Python text.
    pub fn extract_py_dependencies(&self, content: &str) -> (r: Vec<String>)
        ensures
            texts(r@) == dependencies_of(DepRule::Python, content@),
    {
        extract_with(DepRule::Python, content)
    }

    /// The dependencies of a Go text.
    pub fn extract_go_dependencies(&self, content: &str) -> (r: Vec<String>)
        ensures
            texts(r@) == dependencies_of(DepRule::Go, content@),
    {
        extract_with(DepRule::Go, content)
    }

    /// The dependencies of a Rust text.
    pub fn extract_rust_dependencies(&self, content: &str) -> (r: Vec<String>)
        ensures
            texts(r@) == dependencies_of(DepRule::Rust, content@),
    {
        extract_with(DepRule::Rust, content)
    }
}

} // verus!
