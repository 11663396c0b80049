use deeprepo::index::FileInfo;
use deeprepo::methods::extract_methods_detailed;
use deeprepo::summary::{infer_function_purpose_simple, infer_notes, infer_role, role_for};

fn file(name: &str, language: &str, size: usize, deps: usize) -> FileInfo {
    FileInfo {
        path: format!("{}.{}", name, language),
        name: name.to_string(),
        language: language.to_string(),
        size,
        dependencies: (0..deps).map(|i| format!("d{}", i)).collect(),
        is_module: true,
        content: None,
    }
}

#[test]
fn test_infer_role() {
    let file_info = file("config", "ts", 1000, 0);
    let role = infer_role(&file_info);
    assert!(role.contains("設定"));
}

#[test]
fn roles_by_name() {
    assert_eq!(infer_role(&file("ApiServer", "go", 1, 0)), "APIエンドポイントまたはルーティングを定義するモジュールです。");
    assert_eq!(infer_role(&file("main", "py", 1, 0)), "pyで記述されたモジュールです。");
    assert_eq!(role_for("userschema", "rs"), "データモデルまたはスキーマを定義するモジュールです。");
    assert_eq!(role_for("UTIL", "rs"), "rsで記述されたモジュールです。");
}

#[test]
fn notes_by_size_and_dependencies() {
    assert_eq!(infer_notes(&file("a", "rs", 10, 0)), "特に注意すべき点は見つかりませんでした。");
    assert_eq!(
        infer_notes(&file("a", "rs", 10001, 21)),
        "ファイルサイズが大きいため、リファクタリングを検討してください。\n依存関係が多く、結合度が高い可能性があります。"
    );
    assert_eq!(infer_notes(&file("a", "rs", 10000, 20)), "特に注意すべき点は見つかりませんでした。");
}

#[test]
fn purposes_by_name() {
    assert_eq!(infer_function_purpose_simple("GetUser"), "データを取得する関数です。");
    assert_eq!(infer_function_purpose_simple("run"), "`run`関数の実装です。");
    assert_eq!(infer_function_purpose_simple("offset"), "データを設定または更新する関数です。");
}

#[test]
fn rust_methods_with_docs_and_code() {
    let content = "use x;\n/// Adds one.\n///   Really.\nfn add(a: i32) -> i32 {\n    a + 1\n}\n\nfn nothing() {\n}\n";
    let ms = extract_methods_detailed(content, "rs");
    assert_eq!(ms.len(), 2);
    assert_eq!(ms[0].name, "add");
    assert_eq!(ms[0].documentation, "Really.\nAdds one.");
    assert_eq!(ms[0].code_snippet, "fn add(a: i32) -> i32 {\n    a + 1\n}");
    assert_eq!(ms[1].name, "nothing");
    assert_eq!(ms[1].documentation, "");
    assert_eq!(ms[1].code_snippet, "fn nothing() {\n}");
}

#[test]
fn python_and_script_methods() {
    let py = "def get_x(a):\n    return a\n\ndef other():\n    pass\n";
    let ms = extract_methods_detailed(py, "py");
    assert_eq!(ms.len(), 2);
    assert_eq!(ms[0].documentation, "データを取得する関数です。");
    assert_eq!(ms[0].code_snippet, "def get_x(a):\n    return a\n");
    let js = "export function makeThing(x): Thing {\n  return x;\n}\n";
    let ms = extract_methods_detailed(js, "js");
    assert_eq!(ms.len(), 1);
    assert_eq!(ms[0].name, "makeThing");
    assert_eq!(ms[0].code_snippet, "export function makeThing(x): Thing {\n  return x;\n}");
    assert!(extract_methods_detailed("fn a() {}", "go").is_empty());
}
