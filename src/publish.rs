//! Where the built site goes, and the words that tell the user what to do next.
use vstd::prelude::*;

use crate::text::str_is;

verus! {

/// The result of a build of the site.
#[derive(Clone, Debug)]
pub struct WikiResult {
    pub ok: bool,
    pub site_dir: String,
    pub pages: usize,
}

/// The result of a build of the slides.
#[derive(Clone, Debug)]
pub struct SlideResult {
    pub ok: bool,
    pub files: Vec<SlideFile>,
}

/// One file of the slides, with its format.
#[derive(Clone, Debug)]
pub struct SlideFile {
    pub format: String,
    pub path: String,
}

/// The result of publishing.
#[derive(Clone, Debug)]
pub struct PublishResult {
    pub ok: bool,
    pub hint: String,
}

/// Where the output is published.
#[derive(Clone, Copy, Debug, PartialEq, Eq)]
pub enum PublishMode {
    /// Into the `docs` directory of the main branch.
    Docs,
    /// Onto a branch of its own.
    GhPages,
}

/// The publishing mode of a name, if it is one.
pub open spec fn mode_of(name: Seq<char>) -> Option<PublishMode> {
    if name == "docs"@ {
        Some(PublishMode::Docs)
    } else if name == "gh-pages"@ {
        Some(PublishMode::GhPages)
    } else {
        None
    }
}

/// The publishing mode of a name: `docs` or `gh-pages`.
pub fn parse_mode(name: &str) -> (r: Option<PublishMode>)
    ensures
        r == mode_of(name@),
{
    let docs = ['d', 'o', 'c', 's'];
    let pages = ['g', 'h', '-', 'p', 'a', 'g', 'e', 's'];
    proof {
        reveal_strlit("docs");
        reveal_strlit("gh-pages");
    }
    assert(docs@ =~= "docs"@);
    assert(pages@ =~= "gh-pages"@);
    if str_is(name, &docs) {
        Some(PublishMode::Docs)
    } else if str_is(name, &pages) {
        Some(PublishMode::GhPages)
    } else {
        None
    }
}

/// What the user does once the output is published.
pub open spec fn hint_text(mode: PublishMode, branch: Seq<char>) -> Seq<char> {
    match mode {
        PublishMode::Docs => "リポジトリの設定で、GitHub Pagesのソースを 'main /docs' に設定してください。"@,
        PublishMode::GhPages => "gh-pagesブランチに公開しました。GitHub Pagesの設定でブランチ '"@ + branch
            + "' を選択してください。"@,
    }
}

/// The result of a publication that went through.
pub fn published(mode: PublishMode, branch: &str) -> (r: PublishResult)
    ensures
        r.ok,
        r.hint@ == hint_text(mode, branch@),
{
    let hint = match mode {
        PublishMode::Docs => String::from_str(
            "リポジトリの設定で、GitHub Pagesのソースを 'main /docs' に設定してください。",
        ),
        PublishMode::GhPages => {
            let mut h = String::from_str("gh-pagesブランチに公開しました。GitHub Pagesの設定でブランチ '");
            h.append(branch);
            h.append("' を選択してください。");
            h
        },
    };
    PublishResult { ok: true, hint }
}

/// The workflow that builds and publishes the site on every push to `main`.
pub open spec fn actions_yaml_text() -> Seq<char> {
    "name: Deploy Pages\n\non:\n  push:\n    branches: [\"main\"]\n\npermissions:\n  contents: write\n\njobs:\n  build:\n    runs-on: ubuntu-latest\n    steps:\n      - uses: actions/checkout@v4\n      - uses: dtolnay/rust-toolchain@stable\n      - run: cargo build --release\n      - run: ./target/release/deeprepo-slides-mcp cli build-all\n      - uses: peaceiris/actions-gh-pages@v4\n        with:\n          github_token: ${{ secrets.GITHUB_TOKEN }}\n          publish_branch: gh-pages\n          publish_dir: out/wiki/book\n"@
}

/// The workflow file's text.
pub fn actions_yaml() -> (r: String)
    ensures
        r@ == actions_yaml_text(),
{
    String::from_str(
        "name: Deploy Pages\n\non:\n  push:\n    branches: [\"main\"]\n\npermissions:\n  contents: write\n\njobs:\n  build:\n    runs-on: ubuntu-latest\n    steps:\n      - uses: actions/checkout@v4\n      - uses: dtolnay/rust-toolchain@stable\n      - run: cargo build --release\n      - run: ./target/release/deeprepo-slides-mcp cli build-all\n      - uses: peaceiris/actions-gh-pages@v4\n        with:\n          github_token: ${{ secrets.GITHUB_TOKEN }}\n          publish_branch: gh-pages\n          publish_dir: out/wiki/book\n",
    )
}

} // verus!
