//! Short descriptions of files and functions, guessed from their names.
use vstd::prelude::*;

use crate::index::FileInfo;
use crate::search::{first_occurrence, lower_of, lowercase};
use crate::text::{chars_of, matches_at, occurs_at};

verus! {

/// A function found in a file, with what is known of it.
#[derive(Clone, Debug)]
pub struct MethodInfo {
    pub name: String,
    pub language: String,
    pub documentation: String,
    pub code_snippet: String,
}

/// The result of a summary.
#[derive(Clone, Debug)]
pub struct SummarizeResult {
    pub ok: bool,
    pub content_md: String,
    pub artifacts: Vec<Artifact>,
}

/// A file produced alongside a summary.
#[derive(Clone, Debug)]
pub struct Artifact {
    pub artifact_type: String,
    pub path: String,
    pub content: String,
}

/// Whether `pat` occurs in `s`.
pub open spec fn has(s: Seq<char>, pat: Seq<char>) -> bool {
    first_occurrence(s, pat, 0) is Some
}

/// Checks whether `pat` occurs in `text`.
pub fn contains_chars(text: &Vec<char>, pat: &[char]) -> (r: bool)
    ensures
        r == has(text@, pat@),
{
    let n: usize = text.len();
    let m: usize = pat.len();
    if m > n {
        return false;
    }
    if m == 0 {
        assert(occurs_at(text@, 0, pat@)) by {
            assert(text@.subrange(0, 0) =~= pat@);
        }
        return true;
    }
    let mut i: usize = 0;
    while i <= n - m
        invariant
            n == text@.len(),
            m == pat@.len(),
            0 < m <= n,
            i <= n - m + 1,
            first_occurrence(text@, pat@, 0) == first_occurrence(text@, pat@, i as int),
        decreases n - m + 1 - i,
    {
        if matches_at(text, i, pat) {
            return true;
        }
        i += 1;
    }
    false
}

/// The role of a module, guessed from its lowercased name; a name that
/// suggests nothing gives the module's language.
pub open spec fn role_text(name: Seq<char>, language: Seq<char>) -> Seq<char> {
    if has(name, seq!['c', 'o', 'n', 'f', 'i', 'g']) || has(name, seq!['s', 'e', 't', 't', 'i', 'n', 'g']) {
        "設定管理を行うモジュールです。"@
    } else if has(name, seq!['a', 'p', 'i']) || has(name, seq!['r', 'o', 'u', 't', 'e']) {
        "APIエンドポイントまたはルーティングを定義するモジュールです。"@
    } else if has(name, seq!['u', 't', 'i', 'l']) || has(name, seq!['h', 'e', 'l', 'p', 'e', 'r']) {
        "ユーティリティ関数を提供するモジュールです。"@
    } else if has(name, seq!['m', 'o', 'd', 'e', 'l']) || has(name, seq!['s', 'c', 'h', 'e', 'm', 'a']) {
        "データモデルまたはスキーマを定義するモジュールです。"@
    } else if has(name, seq!['s', 'e', 'r', 'v', 'i', 'c', 'e']) || has(
        name,
        seq!['b', 'u', 's', 'i', 'n', 'e', 's', 's'],
    ) {
        "ビジネスロジックを実装するモジュールです。"@
    } else {
        language + "で記述されたモジュールです。"@
    }
}

/// The role of a module from its name, already lowercased, and its language.
pub fn role_for(name_lower: &str, language: &str) -> (r: String)
    ensures
        r@ == role_text(name_lower@, language@),
{
    let t = chars_of(name_lower);
    if contains_chars(&t, &['c', 'o', 'n', 'f', 'i', 'g']) || contains_chars(
        &t,
        &['s', 'e', 't', 't', 'i', 'n', 'g'],
    ) {
        String::from_str("設定管理を行うモジュールです。")
    } else if contains_chars(&t, &['a', 'p', 'i']) || contains_chars(&t, &['r', 'o', 'u', 't', 'e']) {
        String::from_str("APIエンドポイントまたはルーティングを定義するモジュールです。")
    } else if contains_chars(&t, &['u', 't', 'i', 'l']) || contains_chars(
        &t,
        &['h', 'e', 'l', 'p', 'e', 'r'],
    ) {
        String::from_str("ユーティリティ関数を提供するモジュールです。")
    } else if contains_chars(&t, &['m', 'o', 'd', 'e', 'l']) || contains_chars(
        &t,
        &['s', 'c', 'h', 'e', 'm', 'a'],
    ) {
        String::from_str("データモデルまたはスキーマを定義するモジュールです。")
    } else if contains_chars(&t, &['s', 'e', 'r', 'v', 'i', 'c', 'e']) || contains_chars(
        &t,
        &['b', 'u', 's', 'i', 'n', 'e', 's', 's'],
    ) {
        String::from_str("ビジネスロジックを実装するモジュールです。")
    } else {
        let mut r = String::from_str(language);
        r.append("で記述されたモジュールです。");
        r
    }
}

/// The role of a file, guessed from its name, case aside.
pub fn infer_role(file_info: &FileInfo) -> (r: String)
    ensures
        r@ == role_text(lower_of(file_info.name@), file_info.language@),
{
    let lowered = lowercase(file_info.name.as_str());
    role_for(lowered.as_str(), file_info.language.as_str())
}

/// The remarks on a file: a large file, many dependencies, or nothing of note.
pub open spec fn notes_text(size: usize, dependencies: nat) -> Seq<char> {
    let big = size > 10000;
    let coupled = dependencies > 20;
    if big && coupled {
        "ファイルサイズが大きいため、リファクタリングを検討してください。"@ + "\n"@
            + "依存関係が多く、結合度が高い可能性があります。"@
    } else if big {
        "ファイルサイズが大きいため、リファクタリングを検討してください。"@
    } else if coupled {
        "依存関係が多く、結合度が高い可能性があります。"@
    } else {
        "特に注意すべき点は見つかりませんでした。"@
    }
}

/// The remarks on a file.
pub fn infer_notes(file_info: &FileInfo) -> (r: String)
    ensures
        r@ == notes_text(file_info.size, file_info.dependencies@.len()),
{
    let big = file_info.size > 10000;
    let coupled = file_info.dependencies.len() > 20;
    if big && coupled {
        let mut r = String::from_str("ファイルサイズが大きいため、リファクタリングを検討してください。");
        r.append("\n");
        r.append("依存関係が多く、結合度が高い可能性があります。");
        r
    } else if big {
        String::from_str("ファイルサイズが大きいため、リファクタリングを検討してください。")
    } else if coupled {
        String::from_str("依存関係が多く、結合度が高い可能性があります。")
    } else {
        String::from_str("特に注意すべき点は見つかりませんでした。")
    }
}

/// What a function does, guessed from its lowercased name; a name that
/// suggests nothing gives the name itself.
pub open spec fn purpose_text(name_lower: Seq<char>, name: Seq<char>) -> Seq<char> {
    let n = name_lower;
    if has(n, seq!['g', 'e', 't']) || has(n, seq!['f', 'e', 't', 'c', 'h']) {
        "データを取得する関数です。"@
    } else if has(n, seq!['s', 'e', 't']) || has(n, seq!['u', 'p', 'd', 'a', 't', 'e']) {
        "データを設定または更新する関数です。"@
    } else if has(n, seq!['c', 'r', 'e', 'a', 't', 'e']) || has(n, seq!['m', 'a', 'k', 'e']) {
        "新しいオブジェクトやデータを作成する関数です。"@
    } else if has(n, seq!['d', 'e', 'l', 'e', 't', 'e']) || has(n, seq!['r', 'e', 'm', 'o', 'v', 'e']) {
        "データを削除する関数です。"@
    } else if has(n, seq!['p', 'a', 'r', 's', 'e']) || has(n, seq!['c', 'o', 'n', 'v', 'e', 'r', 't']) {
        "データを変換または解析する関数です。"@
    } else if has(n, seq!['v', 'a', 'l', 'i', 'd', 'a', 't', 'e']) || has(n, seq!['c', 'h', 'e', 'c', 'k']) {
        "データを検証またはチェックする関数です。"@
    } else if has(n, seq!['h', 'a', 'n', 'd', 'l', 'e']) || has(
        n,
        seq!['p', 'r', 'o', 'c', 'e', 's', 's'],
    ) {
        "イベントやデータを処理する関数です。"@
    } else {
        "`"@ + name + "`関数の実装です。"@
    }
}

/// What a function does, from its name and that name lowercased.
pub fn purpose_for(name_lower: &str, name: &str) -> (r: String)
    ensures
        r@ == purpose_text(name_lower@, name@),
{
    let t = chars_of(name_lower);
    if contains_chars(&t, &['g', 'e', 't']) || contains_chars(&t, &['f', 'e', 't', 'c', 'h']) {
        String::from_str("データを取得する関数です。")
    } else if contains_chars(&t, &['s', 'e', 't']) || contains_chars(&t, &['u', 'p', 'd', 'a', 't', 'e']) {
        String::from_str("データを設定または更新する関数です。")
    } else if contains_chars(&t, &['c', 'r', 'e', 'a', 't', 'e']) || contains_chars(&t, &['m', 'a', 'k', 'e']) {
        String::from_str("新しいオブジェクトやデータを作成する関数です。")
    } else if contains_chars(&t, &['d', 'e', 'l', 'e', 't', 'e']) || contains_chars(
        &t,
        &['r', 'e', 'm', 'o', 'v', 'e'],
    ) {
        String::from_str("データを削除する関数です。")
    } else if contains_chars(&t, &['p', 'a', 'r', 's', 'e']) || contains_chars(
        &t,
        &['c', 'o', 'n', 'v', 'e', 'r', 't'],
    ) {
        String::from_str("データを変換または解析する関数です。")
    } else if contains_chars(&t, &['v', 'a', 'l', 'i', 'd', 'a', 't', 'e']) || contains_chars(
        &t,
        &['c', 'h', 'e', 'c', 'k'],
    ) {
        String::from_str("データを検証またはチェックする関数です。")
    } else if contains_chars(&t, &['h', 'a', 'n', 'd', 'l', 'e']) || contains_chars(
        &t,
        &['p', 'r', 'o', 'c', 'e', 's', 's'],
    ) {
        String::from_str("イベントやデータを処理する関数です。")
    } else {
        let mut r = String::from_str("`");
        r.append(name);
        r.append("`関数の実装です。");
        r
    }
}

/// What a function does, guessed from its name, case aside.
pub fn infer_function_purpose_simple(func_name: &str) -> (r: String)
    ensures
        r@ == purpose_text(lower_of(func_name@), func_name@),
{
    let lowered = lowercase(func_name);
    purpose_for(lowered.as_str(), func_name)
}

} // verus!
