use minipp_rs::common::{
    has_file_extension, is_path_ignored, multi_pattern_filter, IgnorePatternError,
    ProjectDependencies, SUPPORT_FILE_TYPES, SUPPORT_FILE_TYPES_WITH_DOT,
};
use std::collections::HashSet;

fn strings(items: &[&str]) -> Vec<String> {
    items.iter().map(|s| s.to_string()).collect()
}

#[test]
fn file_types_should_dot() {
    assert_eq!(
        SUPPORT_FILE_TYPES_WITH_DOT,
        [
            ".ts", ".tsx", ".less", ".scss", ".css", ".png", ".jpg", ".jpeg", ".gif", ".svg",
            ".mp3", ".mp4", ".wav", ".woff", ".woff2", ".ttf", ".eot", ".json",
        ]
    )
}

#[test]
fn every_listed_type_is_recognised() {
    for ext in SUPPORT_FILE_TYPES {
        assert!(has_file_extension(&format!("src/file.{}", ext)), "{}", ext);
    }
}

#[test]
fn test_has_file_extension() {
    assert_eq!(has_file_extension("src/main.rs"), false);
    assert_eq!(has_file_extension("src/main.ts"), true)
}

#[test]
fn extension_edge_cases() {
    assert!(!has_file_extension(""));
    assert!(!has_file_extension("src/components/ColorPicker"));
    assert!(!has_file_extension("src/.ts"));
    assert!(!has_file_extension("src/main."));
    assert!(!has_file_extension("src.ts/main"));
    assert!(has_file_extension("src/a.b/logo.d.ts"));
    assert!(has_file_extension("font.woff2"));
    assert!(!has_file_extension("src/main.TS"));
}

#[test]
fn extension_passes_over_trailing_separators() {
    assert!(has_file_extension("src/a.ts/"));
    assert!(has_file_extension("src/a.ts//"));
    assert!(has_file_extension("src/a.ts/."));
    assert!(has_file_extension("src/a.ts/./"));
    assert!(!has_file_extension("src/a.ts/.."));
    assert!(!has_file_extension("/."));
}

#[test]
fn comment_empty_and_padded_pattern_lines() {
    let patterns = strings(&["# a comment", "", "*.log   "]);
    assert_eq!(is_path_ignored("x.log", &patterns), Ok(true));
    assert_eq!(is_path_ignored("x.txt", &patterns), Ok(false));
}

#[test]
fn test_multi_pattern_filter_basic() {
    let files = vec![
        "foo.txt".to_string(),
        "bar.log".to_string(),
        "baz/test.txt".to_string(),
        "baz/foo.log".to_string(),
        "qux.rs".to_string(),
    ];
    let patterns = vec!["*.log".to_string(), "baz/".to_string()];
    let filtered = multi_pattern_filter(&files, &patterns).unwrap();
    assert_eq!(filtered, vec!["foo.txt".to_string(), "qux.rs".to_string()]);
}

#[test]
fn test_multi_pattern_filter_no_patterns() {
    let files = vec!["foo.txt".to_string(), "bar.log".to_string()];
    let patterns: Vec<String> = vec![];
    let filtered = multi_pattern_filter(&files, &patterns).unwrap();
    assert_eq!(filtered, files);
}

#[test]
fn test_multi_pattern_filter_all_ignored() {
    let files = vec![
        "foo.txt".to_string(),
        "bar.log".to_string(),
        "baz/test.txt".to_string(),
    ];
    let patterns = vec!["*".to_string()];
    let filtered = multi_pattern_filter(&files, &patterns).unwrap();
    assert_eq!(filtered, Vec::<String>::new());
}

#[test]
fn test_multi_pattern_filter_negation() {
    let files = vec![
        "foo.txt".to_string(),
        "bar.log".to_string(),
        "baz/test.txt".to_string(),
    ];
    let patterns = vec!["*.log".to_string(), "!bar.log".to_string()];
    let filtered = multi_pattern_filter(&files, &patterns).unwrap();
    assert_eq!(
        filtered,
        vec![
            "foo.txt".to_string(),
            "bar.log".to_string(),
            "baz/test.txt".to_string()
        ]
    );
}

#[test]
fn test_is_path_ignored() {
    let patterns = ["*.rs", "target/"].map(|i| i.to_string()).to_vec();
    assert!(is_path_ignored("main.rs", &patterns).unwrap());
    assert!(is_path_ignored("target/foo.o", &patterns).unwrap());
    assert!(!is_path_ignored("foo/bar.txt", &patterns).unwrap());
}

#[test]
fn invalid_ignore_pattern_is_reported() {
    let patterns = strings(&["*.log", "{a"]);
    assert_eq!(
        is_path_ignored("foo.log", &patterns),
        Err(IgnorePatternError::InvalidPattern("{a".to_string()))
    );
    assert!(multi_pattern_filter(&strings(&["x"]), &patterns).is_err());
}

#[test]
fn all_dependencies_merges_both_lists_once() {
    let deps = ProjectDependencies {
        dependencies: Some(vec![
            ("react".to_string(), "^18.0.0".to_string()),
            ("glob".to_string(), "^10.0.0".to_string()),
        ]),
        dev_dependencies: Some(vec![
            ("vitest".to_string(), "^1.0.0".to_string()),
            ("glob".to_string(), "^10.0.0".to_string()),
        ]),
    };
    let all = deps.all_dependencies();
    assert_eq!(all.len(), 3);
    let set: HashSet<String> = all.into_iter().collect();
    let expected: HashSet<String> = strings(&["react", "glob", "vitest"]).into_iter().collect();
    assert_eq!(set, expected);
}

#[test]
fn all_dependencies_of_nothing_is_empty() {
    let deps = ProjectDependencies::default();
    assert!(deps.all_dependencies().is_empty());
    let only_dev = ProjectDependencies {
        dependencies: None,
        dev_dependencies: Some(vec![("eslint".to_string(), "9".to_string())]),
    };
    assert_eq!(only_dev.all_dependencies(), strings(&["eslint"]));
}
