//! Settings of a project, with their defaults and the checks on them.
use vstd::prelude::*;

use crate::text::{str_is, texts};

verus! {

/// The project: its name, where it lies and which paths to scan.
#[derive(Clone, Debug)]
pub struct ProjectConfig {
    pub name: String,
    pub repo_path: String,
    pub includes: Vec<String>,
    pub exclude: Vec<String>,
}

impl Default for ProjectConfig {
    fn default() -> (r: Self)
        ensures
            r.name@ == "Unnamed Project"@,
            r.repo_path@ == "."@,
            texts(r.includes@) == seq!["**/*"@],
            texts(r.exclude@) == seq!["**/node_modules/**"@, "**/dist/**"@, "**/.git/**"@],
    {
        let includes = vec![String::from_str("**/*")];
        let exclude = vec![
            String::from_str("**/node_modules/**"),
            String::from_str("**/dist/**"),
            String::from_str("**/.git/**"),
        ];
        assert(texts(includes@) =~= seq!["**/*"@]);
        assert(texts(exclude@) =~= seq!["**/node_modules/**"@, "**/dist/**"@, "**/.git/**"@]);
        ProjectConfig {
            name: String::from_str("Unnamed Project"),
            repo_path: String::from_str("."),
            includes,
            exclude,
        }
    }
}

/// How files are analysed.
#[derive(Clone, Debug)]
pub struct AnalysisConfig {
    pub languages: Vec<String>,
    /// Files larger than this many KiB are skipped.
    pub max_file_kb: usize,
    /// Paths, relative to the repository, to take as entry points where they exist.
    pub infer_entrypoints: Vec<String>,
    pub diagrams: DiagramsConfig,
}

/// The default size ceiling of a file, in KiB.
pub fn default_max_file_kb() -> (r: usize)
    ensures
        r == 512,
{
    512
}

impl Default for AnalysisConfig {
    fn default() -> (r: Self)
        ensures
            texts(r.languages@) == seq!["ts"@, "js"@],
            r.max_file_kb == 512,
            r.infer_entrypoints@.len() == 0,
            texts(r.diagrams.types@) == seq![
                "module-graph"@,
                "call-graph"@,
                "sequence"@,
                "deployment"@,
            ],
            r.diagrams.renderer@ == "mermaid"@,
    {
        let languages = vec![String::from_str("ts"), String::from_str("js")];
        assert(texts(languages@) =~= seq!["ts"@, "js"@]);
        AnalysisConfig {
            languages,
            max_file_kb: 512,
            infer_entrypoints: Vec::new(),
            diagrams: DiagramsConfig::default(),
        }
    }
}

/// Which diagrams to draw, and with what.
#[derive(Clone, Debug)]
pub struct DiagramsConfig {
    pub types: Vec<String>,
    pub renderer: String,
}

/// The default diagram renderer.
pub fn default_diagram_renderer() -> (r: String)
    ensures
        r@ == "mermaid"@,
{
    String::from_str("mermaid")
}

impl Default for DiagramsConfig {
    fn default() -> (r: Self)
        ensures
            texts(r.types@) == seq!["module-graph"@, "call-graph"@, "sequence"@, "deployment"@],
            r.renderer@ == "mermaid"@,
    {
        let types = vec![
            String::from_str("module-graph"),
            String::from_str("call-graph"),
            String::from_str("sequence"),
            String::from_str("deployment"),
        ];
        assert(texts(types@) =~= seq![
            "module-graph"@,
            "call-graph"@,
            "sequence"@,
            "deployment"@,
        ]);
        DiagramsConfig { types, renderer: String::from_str("mermaid") }
    }
}

/// The default summarisation mode.
pub fn default_summarization_mode() -> (r: String)
    ensures
        r@ == "auto"@,
{
    String::from_str("auto")
}

/// The default writing style of summaries.
pub fn default_style() -> (r: String)
    ensures
        r@ == "concise-ja"@,
{
    String::from_str("concise-ja")
}

/// How the search index is built.
#[derive(Clone, Debug)]
pub struct IndexConfig {
    pub provider: String,
    pub chunk_tokens: usize,
    pub chunk_overlap: usize,
}

/// The default search index provider.
pub fn default_index_provider() -> (r: String)
    ensures
        r@ == "tantivy"@,
{
    String::from_str("tantivy")
}

/// The default chunk size, in tokens.
pub fn default_chunk_tokens() -> (r: usize)
    ensures
        r == 800,
{
    800
}

/// The default overlap of chunks, in tokens.
pub fn default_chunk_overlap() -> (r: usize)
    ensures
        r == 120,
{
    120
}

impl Default for IndexConfig {
    fn default() -> (r: Self)
        ensures
            r.provider@ == "tantivy"@,
            r.chunk_tokens == 800,
            r.chunk_overlap == 120,
    {
        IndexConfig { provider: String::from_str("tantivy"), chunk_tokens: 800, chunk_overlap: 120 }
    }
}

/// Where and how the documentation site is built.
#[derive(Clone, Debug)]
pub struct SiteConfig {
    pub flavor: String,
    pub out_dir: String,
}

/// The default site flavor.
pub fn default_site_flavor() -> (r: String)
    ensures
        r@ == "mdbook"@,
{
    String::from_str("mdbook")
}

/// The default output directory of the site.
pub fn default_site_out_dir() -> (r: String)
    ensures
        r@ == "./out/wiki"@,
{
    String::from_str("./out/wiki")
}

impl Default for SiteConfig {
    fn default() -> (r: Self)
        ensures
            r.flavor@ == "mdbook"@,
            r.out_dir@ == "./out/wiki"@,
    {
        SiteConfig { flavor: String::from_str("mdbook"), out_dir: String::from_str("./out/wiki") }
    }
}

/// Where and how slides are built.
#[derive(Clone, Debug)]
pub struct SlidesConfig {
    pub flavor: String,
    pub out_dir: String,
}

/// The default slides flavor.
pub fn default_slides_flavor() -> (r: String)
    ensures
        r@ == "mdbook-reveal"@,
{
    String::from_str("mdbook-reveal")
}

/// The default output directory of the slides.
pub fn default_slides_out_dir() -> (r: String)
    ensures
        r@ == "./out/slides"@,
{
    String::from_str("./out/slides")
}

impl Default for SlidesConfig {
    fn default() -> (r: Self)
        ensures
            r.flavor@ == "mdbook-reveal"@,
            r.out_dir@ == "./out/slides"@,
    {
        SlidesConfig {
            flavor: String::from_str("mdbook-reveal"),
            out_dir: String::from_str("./out/slides"),
        }
    }
}

/// How the output is published.
#[derive(Clone, Debug)]
pub struct PublishConfig {
    pub mode: String,
    pub branch: String,
}

/// The default publishing mode.
pub fn default_publish_mode() -> (r: String)
    ensures
        r@ == "docs"@,
{
    String::from_str("docs")
}

/// The default branch to publish to.
pub fn default_publish_branch() -> (r: String)
    ensures
        r@ == "gh-pages"@,
{
    String::from_str("gh-pages")
}

impl Default for PublishConfig {
    fn default() -> (r: Self)
        ensures
            r.mode@ == "docs"@,
            r.branch@ == "gh-pages"@,
    {
        PublishConfig { mode: String::from_str("docs"), branch: String::from_str("gh-pages") }
    }
}

/// What may leave the machine.
#[derive(Clone, Copy, Debug)]
pub struct SecurityConfig {
    pub offline: bool,
    pub pii_redaction: bool,
}

/// Whether work stays offline by default.
pub fn default_offline() -> (r: bool)
    ensures
        r,
{
    true
}

/// Whether personal data is redacted by default.
pub fn default_pii_redaction() -> (r: bool)
    ensures
        r,
{
    true
}

impl Default for SecurityConfig {
    fn default() -> (r: Self)
        ensures
            r.offline,
            r.pii_redaction,
    {
        SecurityConfig { offline: true, pii_redaction: true }
    }
}

/// The default style of a tool call that names none.
pub fn default_flavor() -> (r: String)
    ensures
        r@ == "mdbook-reveal"@,
{
    String::from_str("mdbook-reveal")
}

/// The default branch of a tool call that names none.
pub fn default_branch() -> (r: String)
    ensures
        r@ == "gh-pages"@,
{
    String::from_str("gh-pages")
}

/// The default number of search hits of a tool call that names none.
pub fn default_k() -> (r: usize)
    ensures
        r == 20,
{
    20
}

/// Why a configuration could not be had.
#[derive(Clone, Debug)]
pub enum ConfigError {
    FileNotFound(String),
    ParseError(String),
    ValidationError(String),
}

/// The renderers that diagrams may use.
pub open spec fn renderer_ok(r: Seq<char>) -> bool {
    r == "mermaid"@ || r == "graphviz"@
}

/// The summarisation modes.
pub open spec fn summarization_mode_ok(m: Seq<char>) -> bool {
    m == "none"@ || m == "auto"@ || m == "local"@ || m == "remote"@
}

/// The publishing modes.
pub open spec fn publish_mode_ok(m: Seq<char>) -> bool {
    m == "docs"@ || m == "gh-pages"@
}

/// The first setting that is out of bounds, by the order of the checks:
/// the size ceiling, the renderer, the summarisation mode, the publishing mode.
pub open spec fn settings_problem(
    max_file_kb: usize,
    renderer: Seq<char>,
    summarization_mode: Seq<char>,
    publish_mode: Seq<char>,
) -> Option<Seq<char>> {
    if max_file_kb == 0 {
        Some("max_file_kb must be greater than 0"@)
    } else if !renderer_ok(renderer) {
        Some("diagrams.renderer must be 'mermaid' or 'graphviz'"@)
    } else if !summarization_mode_ok(summarization_mode) {
        Some("summarization.mode must be one of 'none', 'auto', 'local', 'remote'"@)
    } else if !publish_mode_ok(publish_mode) {
        Some("publish.mode must be 'docs' or 'gh-pages'"@)
    } else {
        None
    }
}

/// Checks the settings that have a fixed range. The repository path is
/// checked by whoever can look at the disk.
pub fn validate_settings(
    max_file_kb: usize,
    renderer: &str,
    summarization_mode: &str,
    publish_mode: &str,
) -> (r: Result<(), ConfigError>)
    ensures
        r is Ok <==> settings_problem(max_file_kb, renderer@, summarization_mode@, publish_mode@)
            is None,
        r matches Err(e) ==> e matches ConfigError::ValidationError(m) && Some(m@)
            == settings_problem(max_file_kb, renderer@, summarization_mode@, publish_mode@),
{
    proof {
        reveal_strlit("mermaid");
        reveal_strlit("graphviz");
        reveal_strlit("none");
        reveal_strlit("auto");
        reveal_strlit("local");
        reveal_strlit("remote");
        reveal_strlit("docs");
        reveal_strlit("gh-pages");
    }
    let mermaid = ['m', 'e', 'r', 'm', 'a', 'i', 'd'];
    let graphviz = ['g', 'r', 'a', 'p', 'h', 'v', 'i', 'z'];
    let none = ['n', 'o', 'n', 'e'];
    let auto = ['a', 'u', 't', 'o'];
    let local = ['l', 'o', 'c', 'a', 'l'];
    let remote = ['r', 'e', 'm', 'o', 't', 'e'];
    let docs = ['d', 'o', 'c', 's'];
    let pages = ['g', 'h', '-', 'p', 'a', 'g', 'e', 's'];
    assert(mermaid@ =~= "mermaid"@);
    assert(graphviz@ =~= "graphviz"@);
    assert(none@ =~= "none"@);
    assert(auto@ =~= "auto"@);
    assert(local@ =~= "local"@);
    assert(remote@ =~= "remote"@);
    assert(docs@ =~= "docs"@);
    assert(pages@ =~= "gh-pages"@);
    if max_file_kb == 0 {
        return Err(
            ConfigError::ValidationError(String::from_str("max_file_kb must be greater than 0")),
        );
    }
    if !(str_is(renderer, &mermaid) || str_is(renderer, &graphviz)) {
        return Err(
            ConfigError::ValidationError(
                String::from_str("diagrams.renderer must be 'mermaid' or 'graphviz'"),
            ),
        );
    }
    if !(str_is(summarization_mode, &none) || str_is(summarization_mode, &auto) || str_is(
        summarization_mode,
        &local,
    ) || str_is(summarization_mode, &remote)) {
        return Err(
            ConfigError::ValidationError(
                String::from_str(
                    "summarization.mode must be one of 'none', 'auto', 'local', 'remote'",
                ),
            ),
        );
    }
    if !(str_is(publish_mode, &docs) || str_is(publish_mode, &pages)) {
        return Err(
            ConfigError::ValidationError(String::from_str("publish.mode must be 'docs' or 'gh-pages'")),
        );
    }
    Ok(())
}

} // verus!
