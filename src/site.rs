//! Texts of the documentation site that follow from the table of contents.
use vstd::prelude::*;

use crate::text::str_is;

verus! {

/// The heading of a site section: a Japanese title for the known sections,
/// the section's own name otherwise.
pub open spec fn wiki_title(section: Seq<char>) -> Seq<char> {
    if section == "overview"@ {
        "概要"@
    } else if section == "architecture"@ {
        "アーキテクチャ"@
    } else if section == "modules"@ {
        "モジュール"@
    } else if section == "flows"@ {
        "フロー"@
    } else if section == "deploy"@ {
        "デプロイ"@
    } else if section == "faq"@ {
        "FAQ"@
    } else {
        section
    }
}

/// The heading of a slide section; slides have no FAQ.
pub open spec fn slide_title(section: Seq<char>) -> Seq<char> {
    if section == "faq"@ {
        section
    } else {
        wiki_title(section)
    }
}

fn known_title(section: &str, with_faq: bool) -> (r: Option<String>)
    ensures
        r matches Some(t) ==> t@ == (if with_faq {
            wiki_title(section@)
        } else {
            slide_title(section@)
        }),
        r is None ==> (if with_faq {
            wiki_title(section@)
        } else {
            slide_title(section@)
        }) == section@,
{
    let overview = ['o', 'v', 'e', 'r', 'v', 'i', 'e', 'w'];
    let architecture = ['a', 'r', 'c', 'h', 'i', 't', 'e', 'c', 't', 'u', 'r', 'e'];
    let modules = ['m', 'o', 'd', 'u', 'l', 'e', 's'];
    let flows = ['f', 'l', 'o', 'w', 's'];
    let deploy = ['d', 'e', 'p', 'l', 'o', 'y'];
    let faq = ['f', 'a', 'q'];
    proof {
        reveal_strlit("overview");
        reveal_strlit("architecture");
        reveal_strlit("modules");
        reveal_strlit("flows");
        reveal_strlit("deploy");
        reveal_strlit("faq");
    }
    assert(overview@ =~= "overview"@);
    assert(architecture@ =~= "architecture"@);
    assert(modules@ =~= "modules"@);
    assert(flows@ =~= "flows"@);
    assert(deploy@ =~= "deploy"@);
    assert(faq@ =~= "faq"@);
    if str_is(section, &overview) {
        Some(String::from_str("概要"))
    } else if str_is(section, &architecture) {
        Some(String::from_str("アーキテクチャ"))
    } else if str_is(section, &modules) {
        Some(String::from_str("モジュール"))
    } else if str_is(section, &flows) {
        Some(String::from_str("フロー"))
    } else if str_is(section, &deploy) {
        Some(String::from_str("デプロイ"))
    } else if with_faq && str_is(section, &faq) {
        Some(String::from_str("FAQ"))
    } else {
        None
    }
}

/// The heading of a site section.
pub fn get_section_name(section: &str) -> (r: String)
    ensures
        r@ == wiki_title(section@),
{
    match known_title(section, true) {
        Some(t) => t,
        None => String::from_str(section),
    }
}

/// The heading of a slide section.
pub fn get_slide_section_name(section: &str) -> (r: String)
    ensures
        r@ == slide_title(section@),
{
    match known_title(section, false) {
        Some(t) => t,
        None => String::from_str(section),
    }
}

/// The lines of the table of contents, one link per section.
pub open spec fn summary_lines(toc: Seq<String>) -> Seq<char>
    decreases toc.len(),
{
    if toc.len() == 0 {
        seq![]
    } else {
        summary_lines(toc.drop_last()) + "- ["@ + wiki_title(toc.last()@) + "]("@ + toc.last()@
            + ".md)\n"@
    }
}

/// The text of the site's table of contents.
pub fn summary_markdown(toc: &Vec<String>) -> (r: String)
    ensures
        r@ == "# Summary\n\n"@ + summary_lines(toc@),
{
    let mut out = String::from_str("# Summary\n\n");
    let mut i: usize = 0;
    while i < toc.len()
        invariant
            i <= toc@.len(),
            out@ == "# Summary\n\n"@ + summary_lines(toc@.take(i as int)),
        decreases toc.len() - i,
    {
        let ghost before = out@;
        let title = get_section_name(toc[i].as_str());
        out.append("- [");
        out.append(title.as_str());
        out.append("](");
        out.append(toc[i].as_str());
        out.append(".md)\n");
        assert(toc@.take(i + 1).drop_last() =~= toc@.take(i as int));
        assert(out@ =~= "# Summary\n\n"@ + summary_lines(toc@.take(i + 1)));
        i += 1;
    }
    assert(toc@.take(i as int) =~= toc@);
    out
}

} // verus!
verus! {

/// The settings file of the site, titled with the project's name.
pub open spec fn book_toml_text(title: Seq<char>) -> Seq<char> {
    "[book]\ntitle = \""@ + title
        + "\"\nauthors = [\"DeepRepoSlides\"]\nlanguage = \"ja\"\n\n[build]\nbuild-dir = \"book\"\n\n[output.html]\ndefault-theme = \"navy\"\npreferred-dark-theme = \"navy\"\n\n[output.reveal]\noptional = true\n"@
}

/// The settings file of the site.
pub fn book_toml(title: &str) -> (r: String)
    ensures
        r@ == book_toml_text(title@),
{
    let mut out = String::from_str("[book]\ntitle = \"");
    out.append(title);
    out.append(
        "\"\nauthors = [\"DeepRepoSlides\"]\nlanguage = \"ja\"\n\n[build]\nbuild-dir = \"book\"\n\n[output.html]\ndefault-theme = \"navy\"\npreferred-dark-theme = \"navy\"\n\n[output.reveal]\noptional = true\n",
    );
    out
}

} // verus!
