use deeprepo::site::{get_section_name, get_slide_section_name, summary_markdown};

#[test]
fn lib_test_get_section_name() {
    assert_eq!(get_section_name("overview"), "概要");
    assert_eq!(get_section_name("architecture"), "アーキテクチャ");
    assert_eq!(get_slide_section_name("overview"), "概要");
}

#[test]
fn section_names_of_unknown_and_faq() {
    assert_eq!(get_section_name("faq"), "FAQ");
    assert_eq!(get_slide_section_name("faq"), "faq");
    assert_eq!(get_section_name("custom"), "custom");
    assert_eq!(get_slide_section_name("deploy"), "デプロイ");
}

#[test]
fn summary_lists_sections_in_order() {
    let toc = vec!["overview".to_string(), "faq".to_string(), "misc".to_string()];
    assert_eq!(
        summary_markdown(&toc),
        "# Summary\n\n- [概要](overview.md)\n- [FAQ](faq.md)\n- [misc](misc.md)\n"
    );
    assert_eq!(summary_markdown(&Vec::new()), "# Summary\n\n");
}
