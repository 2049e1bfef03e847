use minipp_rs::paths::UnresolvedReason;
use minipp_rs::processors::js_like::{
    path_to_real_path, try_to_find_files_without_a_suffix, AttrValue, CallArg, ImportCollector,
};
use minipp_rs::resolver::Resolution;
use std::collections::HashSet;

fn set_of(items: &[&str]) -> HashSet<String> {
    items.iter().map(|s| s.to_string()).collect()
}

fn as_set(v: &[String]) -> HashSet<String> {
    v.iter().cloned().collect()
}

#[test]
fn should_collect_import() {
    let mut import_collector = ImportCollector::default();
    import_collector.current_file_path = String::from("src/core/cli/index.ts");
    for specifier in [
        "@swc/core",
        "../visitor",
        "glob",
        "path",
        "fs",
        "util",
        "../common",
    ] {
        import_collector.common_insert(specifier);
    }
    let should_import_res = set_of(&["src/core/common", "src/core/visitor"]);
    let should_dependence_res = set_of(&["fs", "util", "@swc/core", "path", "glob"]);
    assert_eq!(as_set(&import_collector.imports), should_import_res);
    assert_eq!(as_set(&import_collector.dependencies), should_dependence_res);
}

#[test]
fn should_collect_dy_import() {
    let mut import_collector = ImportCollector::default();
    import_collector.current_file_path = String::from("src/core/cli/index.ts");
    import_collector.insert_dynamic_import(&vec![CallArg::StrLit("./Type20".to_string())]);
    import_collector.insert_dynamic_import(&vec![CallArg::StrLit("./Type19".to_string())]);
    let should_res = set_of(&["src/core/cli/Type19", "src/core/cli/Type20"]);
    assert_eq!(as_set(&import_collector.imports), should_res);
}

#[test]
fn should_collect_assets_import() {
    let mut import_collector = ImportCollector::default();
    import_collector.current_file_path = String::from("src/index.tsx");
    import_collector.insert_jsx_attr(&AttrValue::Str("./assets/b.jpg".to_string()));
    import_collector.insert_jsx_attr(&AttrValue::Str("花括号字符串字面量".to_string()));
    import_collector.insert_jsx_attr(&AttrValue::Str("./assets/a.jpg".to_string()));
    import_collector.insert_jsx_attr(&AttrValue::Str("花括号字符串字面量".to_string()));
    let should_res = set_of(&["src/assets/b.jpg", "src/assets/a.jpg"]);
    assert_eq!(as_set(&import_collector.imports), should_res);
}

#[test]
fn js_like_test_path_to_real_path() {
    let current_path = "src/components/CourseForm/index.tsx";
    let import_path = "../ColorPicker";
    let should_path = "src/components/ColorPicker";
    assert_eq!(
        path_to_real_path(current_path, import_path, "").unwrap(),
        should_path.to_string()
    );
}

#[test]
fn dynamic_import_with_non_literal_argument_adds_nothing() {
    let mut c = ImportCollector::default();
    c.current_file_path = String::from("src/pages/index.tsx");
    c.insert_dynamic_import(&vec![CallArg::Other]);
    assert!(c.imports.is_empty());
    assert!(c.dependencies.is_empty());
    c.insert_dynamic_import(&vec![CallArg::Other, CallArg::StrLit("./Page".to_string())]);
    assert_eq!(c.imports, vec!["src/pages/Page".to_string()]);
}

#[test]
fn template_segments_with_an_extension_are_collected() {
    let mut c = ImportCollector::default();
    c.current_file_path = String::from("src/views/Home.tsx");
    c.insert_jsx_attr(&AttrValue::Template(vec![
        "../assets/icons/".to_string(),
        "../assets/banner.png".to_string(),
    ]));
    c.insert_jsx_attr(&AttrValue::Other);
    assert_eq!(c.imports, vec!["src/assets/banner.png".to_string()]);
    assert!(c.dependencies.is_empty());
}

#[test]
fn node_modules_paths_are_dropped() {
    let mut c = ImportCollector::default();
    c.current_file_path = String::from("src/index.ts");
    c.common_insert("../node_modules/lodash/index");
    c.common_insert("node_modules/react");
    assert!(c.imports.is_empty());
    assert!(c.dependencies.is_empty());
}

#[test]
fn alias_is_read_from_the_project_root() {
    assert_eq!(
        path_to_real_path("src/deep/nested/file.ts", "@/assets/logo.png", "").unwrap(),
        "src/assets/logo.png"
    );
    assert_eq!(path_to_real_path("src/a.ts", "@/utils", "").unwrap(), "src/utils");
}

#[test]
fn absolute_specifier_is_stripped_of_the_root() {
    assert_eq!(
        path_to_real_path("src/a.ts", "/home/me/app/src/utils/x", "/home/me/app").unwrap(),
        "src/utils/x"
    );
    assert_eq!(
        path_to_real_path("src/a.ts", "/home/me/app/src/utils/x", "/home/me/app/").unwrap(),
        "src/utils/x"
    );
    assert_eq!(
        path_to_real_path("src/a.ts", "/elsewhere/src/x", "/home/me/app"),
        Err(UnresolvedReason::OutsideProjectRoot)
    );
}

#[test]
fn relative_specifier_without_parent_is_unresolved() {
    assert_eq!(
        path_to_real_path("", "./a", ""),
        Err(UnresolvedReason::NoParentDirectory)
    );
}

#[test]
fn bare_specifier_is_kept() {
    assert_eq!(path_to_real_path("src/a.ts", "react", "/p").unwrap(), "react");
}

#[test]
fn suffix_probe_follows_the_fixed_order() {
    let files = vec![
        "src/components/ColorPicker/index.tsx".to_string(),
        "src/components/ColorPicker.d.ts".to_string(),
    ];
    assert_eq!(
        try_to_find_files_without_a_suffix("src/components/ColorPicker", &files),
        Resolution::ProjectFile("src/components/ColorPicker/index.tsx".to_string())
    );
    let files = vec![
        "src/x/index.d.ts".to_string(),
        "src/x.tsx".to_string(),
        "src/x.ts".to_string(),
    ];
    assert_eq!(
        try_to_find_files_without_a_suffix("src/x", &files),
        Resolution::ProjectFile("src/x.ts".to_string())
    );
    let files = vec!["src/x/index.d.ts".to_string()];
    assert_eq!(
        try_to_find_files_without_a_suffix("src/x", &files),
        Resolution::ProjectFile("src/x/index.d.ts".to_string())
    );
}

#[test]
fn suffix_probe_keeps_an_extensioned_path() {
    let none: Vec<String> = vec![];
    assert_eq!(
        try_to_find_files_without_a_suffix("src/a.ts", &none),
        Resolution::ProjectFile("src/a.ts".to_string())
    );
    assert_eq!(
        try_to_find_files_without_a_suffix("src/assets/bg.png", &none),
        Resolution::ProjectFile("src/assets/bg.png".to_string())
    );
}

#[test]
fn suffix_probe_without_match_is_unresolved() {
    let files = vec!["src/y.ts".to_string()];
    assert_eq!(
        try_to_find_files_without_a_suffix("src/x", &files),
        Resolution::Unresolved("src/x".to_string(), UnresolvedReason::NoMatchingFile)
    );
}
