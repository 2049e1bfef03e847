use minipp_rs::paths::UnresolvedReason;
use minipp_rs::processors::style_like::{
    get_extract_style_imports, path_to_real_path, StyleImportCollector,
};
use std::collections::HashSet;

#[test]
fn test_get_style_imports() {
    let style_code = r#"
        /* 1. 使用 url() */
body {
  background-image: url('images/bg.jpg');
}

.icon {
  background: url("icons/icon.svg") no-repeat;
}

@import "reset.css";
@import url("theme.css");
@import url('https://fonts.googleapis.com/css?family=Roboto');

/* 3. 字体引入 */
@font-face {
  font-family: 'MyFont';
  src: url('fonts/myfont.woff2') format('woff2');
}
        "#;
    let should_res: Vec<_> = vec![
        "images/bg.jpg",
        "icons/icon.svg",
        "reset.css",
        "fonts/myfont.woff2",
        "theme.css",
    ]
    .iter()
    .map(|s| s.to_string())
    .collect();
    assert_eq!(
        get_extract_style_imports(style_code)
            .iter()
            .collect::<HashSet<_>>(),
        should_res.iter().collect::<HashSet<_>>()
    );
}

#[test]
fn style_like_test_path_to_real_path() {
    assert_eq!(
        path_to_real_path("src/foo/bar.less", "./common.less").unwrap(),
        "src/foo/common.less".to_string()
    );
    assert_eq!(
        path_to_real_path("src/foo/bar.less", "common.less").unwrap(),
        "src/foo/common.less".to_string()
    );
}

#[test]
fn stylesheet_scenario_keeps_only_project_references() {
    let code = "@import \"reset.css\";\n.a { background: url('images/bg.jpg'); }\n@import url('https://fonts.googleapis.com/css?family=Roboto');\n";
    let got: HashSet<String> = get_extract_style_imports(code).into_iter().collect();
    let expected: HashSet<String> =
        ["reset.css", "images/bg.jpg"].iter().map(|s| s.to_string()).collect();
    assert_eq!(got, expected);
}

#[test]
fn templated_and_rooted_references_are_skipped() {
    let code = "a { b: url(#{$x}.png); c: url('/abs.png'); d: url(//cdn.x/y.png); e: url(${p}.png); }";
    assert!(get_extract_style_imports(code).is_empty());
}

#[test]
fn any_scheme_is_skipped() {
    let code = "a { b: url(data:image/png;base64,AAAA); c: url('mailto:x'); d: url(ok.png); }";
    assert_eq!(get_extract_style_imports(code), vec!["ok.png".to_string()]);
}

#[test]
fn query_and_white_space_are_removed() {
    let code = "a { b: url( font.woff?v=3 ); }";
    assert_eq!(get_extract_style_imports(code), vec!["font.woff".to_string()]);
}

#[test]
fn duplicates_are_kept_in_order() {
    let code = "a { b: url(x.png); c: url(x.png); } @import 'y.css';";
    assert_eq!(
        get_extract_style_imports(code),
        vec!["x.png".to_string(), "x.png".to_string(), "y.css".to_string()]
    );
}

#[test]
fn style_aliases_and_tilde() {
    assert_eq!(
        path_to_real_path("src/a/b.less", "~@/styles/vars.less").unwrap(),
        "src/styles/vars.less"
    );
    assert_eq!(
        path_to_real_path("src/a/b.less", "@/styles/vars.less").unwrap(),
        "src/styles/vars.less"
    );
    assert_eq!(
        path_to_real_path("src/a/b.less", "~antd/dist/antd.css"),
        Err(UnresolvedReason::NonProjectReference)
    );
}

#[test]
fn collector_resolves_and_drops_unresolved() {
    let mut c = StyleImportCollector::default();
    c.current_file_path = "src/styles/main.less".to_string();
    c.insert_from_code("@import '~antd/lib/style.less'; @import '../theme/vars.less'; a { b: url(img/x.png); } @import '../../node_modules/x/y.css';");
    let got: HashSet<String> = c.imports.iter().cloned().collect();
    let expected: HashSet<String> = ["src/theme/vars.less", "src/styles/img/x.png"]
        .iter()
        .map(|s| s.to_string())
        .collect();
    assert_eq!(got, expected);
}
