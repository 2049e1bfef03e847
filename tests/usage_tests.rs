use minipp_rs::processors::js_like::ImportCollector;
use minipp_rs::processors::style_like::StyleImportCollector;
use minipp_rs::usage::summarize_usage;
use std::collections::HashSet;

fn set_of(items: &[&str]) -> HashSet<String> {
    items.iter().map(|s| s.to_string()).collect()
}

fn as_set(v: &[String]) -> HashSet<String> {
    v.iter().cloned().collect()
}

fn scanned_project() -> (ImportCollector, StyleImportCollector) {
    let mut js = ImportCollector::default();
    js.all_files = vec![
        "src/index.tsx".to_string(),
        "src/components/Button/index.tsx".to_string(),
        "src/utils.ts".to_string(),
        "src/legacy.ts".to_string(),
    ];
    js.current_file_path = "src/index.tsx".to_string();
    js.common_insert("./components/Button");
    js.common_insert("./utils");
    js.common_insert("react");
    js.common_insert("../node_modules/x/y");
    js.common_insert("./missing");
    let mut style = StyleImportCollector::default();
    style.all_files = vec!["src/styles/main.css".to_string(), "src/styles/old.css".to_string()];
    style.current_file_path = "src/styles/main.css".to_string();
    style.insert_from_code("@import './reset.css'; a { b: url(../assets/bg.png); }");
    (js, style)
}

#[test]
fn summary_sets() {
    let (js, style) = scanned_project();
    let report = summarize_usage(&js, &style);
    assert_eq!(
        as_set(&report.imports),
        set_of(&[
            "src/components/Button/index.tsx",
            "src/utils.ts",
            "src/styles/reset.css",
            "src/assets/bg.png",
        ])
    );
    assert_eq!(as_set(&report.dependencies), set_of(&["react"]));
    assert_eq!(
        as_set(&report.unused_imports),
        set_of(&["src/index.tsx", "src/legacy.ts", "src/styles/main.css", "src/styles/old.css"])
    );
}

#[test]
fn unused_and_imported_never_overlap() {
    let (js, style) = scanned_project();
    let report = summarize_usage(&js, &style);
    let imports = as_set(&report.imports);
    let unused = as_set(&report.unused_imports);
    assert!(imports.is_disjoint(&unused));
    let known: HashSet<String> = js.all_files.iter().chain(style.all_files.iter()).cloned().collect();
    assert!(unused.is_subset(&known));
}

#[test]
fn node_modules_reference_is_in_neither_set() {
    let (js, style) = scanned_project();
    let report = summarize_usage(&js, &style);
    assert!(!report.imports.iter().any(|p| p.contains("node_modules")));
    assert!(!report.dependencies.iter().any(|p| p.contains("node_modules")));
}

#[test]
fn empty_scan_gives_empty_summary() {
    let report = summarize_usage(&ImportCollector::default(), &StyleImportCollector::default());
    assert!(report.imports.is_empty());
    assert!(report.dependencies.is_empty());
    assert!(report.unused_imports.is_empty());
}
