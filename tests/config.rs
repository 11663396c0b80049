use deeprepo::config::{
    default_branch, default_chunk_overlap, default_chunk_tokens, default_diagram_renderer,
    default_flavor, default_index_provider, default_k, default_max_file_kb, default_offline,
    default_pii_redaction, default_publish_branch, default_publish_mode, default_site_flavor,
    default_site_out_dir, default_slides_flavor, default_slides_out_dir, default_style,
    default_summarization_mode, validate_settings, AnalysisConfig, ConfigError, DiagramsConfig,
    IndexConfig, ProjectConfig, PublishConfig, SecurityConfig, SiteConfig, SlidesConfig,
};

#[test]
fn test_default_config() {
    let project = ProjectConfig::default();
    let analysis = AnalysisConfig::default();
    assert_eq!(project.name, "Unnamed Project");
    assert_eq!(analysis.max_file_kb, 512);
}

#[test]
fn defaults_of_each_section() {
    let p = ProjectConfig::default();
    assert_eq!(p.repo_path, ".");
    assert_eq!(p.includes, vec!["**/*"]);
    assert_eq!(p.exclude, vec!["**/node_modules/**", "**/dist/**", "**/.git/**"]);
    let a = AnalysisConfig::default();
    assert_eq!(a.languages, vec!["ts", "js"]);
    assert!(a.infer_entrypoints.is_empty());
    let d = DiagramsConfig::default();
    assert_eq!(d.types, vec!["module-graph", "call-graph", "sequence", "deployment"]);
    assert_eq!(d.renderer, "mermaid");
    let i = IndexConfig::default();
    assert_eq!((i.provider.as_str(), i.chunk_tokens, i.chunk_overlap), ("tantivy", 800, 120));
    let s = SiteConfig::default();
    assert_eq!((s.flavor.as_str(), s.out_dir.as_str()), ("mdbook", "./out/wiki"));
    let sl = SlidesConfig::default();
    assert_eq!((sl.flavor.as_str(), sl.out_dir.as_str()), ("mdbook-reveal", "./out/slides"));
    let pb = PublishConfig::default();
    assert_eq!((pb.mode.as_str(), pb.branch.as_str()), ("docs", "gh-pages"));
    let sc = SecurityConfig::default();
    assert!(sc.offline && sc.pii_redaction);
}

#[test]
fn default_functions() {
    assert_eq!(default_max_file_kb(), 512);
    assert_eq!(default_diagram_renderer(), "mermaid");
    assert_eq!(default_summarization_mode(), "auto");
    assert_eq!(default_style(), "concise-ja");
    assert_eq!(default_index_provider(), "tantivy");
    assert_eq!(default_chunk_tokens(), 800);
    assert_eq!(default_chunk_overlap(), 120);
    assert_eq!(default_site_flavor(), "mdbook");
    assert_eq!(default_site_out_dir(), "./out/wiki");
    assert_eq!(default_slides_flavor(), "mdbook-reveal");
    assert_eq!(default_slides_out_dir(), "./out/slides");
    assert_eq!(default_publish_mode(), "docs");
    assert_eq!(default_publish_branch(), "gh-pages");
    assert!(default_offline());
    assert!(default_pii_redaction());
    assert_eq!(default_flavor(), "mdbook-reveal");
    assert_eq!(default_branch(), "gh-pages");
    assert_eq!(default_k(), 20);
}

fn message(r: Result<(), ConfigError>) -> String {
    match r {
        Err(ConfigError::ValidationError(m)) => m,
        other => panic!("unexpected {:?}", other),
    }
}

#[test]
fn validation_accepts_defaults() {
    assert!(validate_settings(512, "mermaid", "auto", "docs").is_ok());
    assert!(validate_settings(1, "graphviz", "remote", "gh-pages").is_ok());
}

#[test]
fn validation_errors_in_order() {
    assert_eq!(message(validate_settings(0, "x", "x", "x")), "max_file_kb must be greater than 0");
    assert_eq!(
        message(validate_settings(5, "svg", "x", "x")),
        "diagrams.renderer must be 'mermaid' or 'graphviz'"
    );
    assert_eq!(
        message(validate_settings(5, "mermaid", "cloud", "x")),
        "summarization.mode must be one of 'none', 'auto', 'local', 'remote'"
    );
    assert_eq!(
        message(validate_settings(5, "mermaid", "none", "pages")),
        "publish.mode must be 'docs' or 'gh-pages'"
    );
}
