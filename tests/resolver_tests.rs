use minipp_rs::paths::UnresolvedReason;
use minipp_rs::processors::js_like::try_to_find_files_without_a_suffix;
use minipp_rs::resolver::{resolve, Resolution, SiteKind};

fn files(items: &[&str]) -> Vec<String> {
    items.iter().map(|s| s.to_string()).collect()
}

#[test]
fn relative_specifier_gets_its_suffix_inferred() {
    let all = files(&["src/components/ColorPicker/index.tsx", "src/components/CourseForm/index.tsx"]);
    assert_eq!(
        resolve(
            "src/components/CourseForm/index.tsx",
            "../ColorPicker",
            SiteKind::StaticImport,
            "",
            &all
        ),
        Resolution::ProjectFile("src/components/ColorPicker/index.tsx".to_string())
    );
}

#[test]
fn alias_resolves_from_any_importing_file() {
    let all = files(&[]);
    for importer in ["src/index.tsx", "src/a/b/c/d.tsx", "src/styles.ts", "other/place.ts"] {
        for kind in [SiteKind::StaticImport, SiteKind::AssetAttribute, SiteKind::DynamicImport] {
            assert_eq!(
                resolve(importer, "@/assets/logo.png", kind, "/root/app", &all),
                Resolution::ProjectFile("src/assets/logo.png".to_string())
            );
        }
    }
}

#[test]
fn node_modules_target_is_neither_file_nor_dependency() {
    let all = files(&["src/index.ts"]);
    assert_eq!(
        resolve("src/index.ts", "../node_modules/lib/x", SiteKind::StaticImport, "", &all),
        Resolution::Unresolved(
            "../node_modules/lib/x".to_string(),
            UnresolvedReason::InsideNodeModules
        )
    );
}

#[test]
fn bare_specifier_is_a_dependency() {
    let all = files(&["src/index.ts"]);
    assert_eq!(
        resolve("src/index.ts", "react-dom/client", SiteKind::StaticImport, "/p", &all),
        Resolution::Dependency("react-dom/client".to_string())
    );
}

#[test]
fn extensioned_relative_path_does_not_depend_on_known_files() {
    let none = files(&[]);
    let some = files(&["src/a/c.css.ts", "src/a/c.css"]);
    let a = resolve("src/a/b.ts", "./c.css", SiteKind::StaticImport, "", &none);
    let b = resolve("src/a/b.ts", "./c.css", SiteKind::StaticImport, "", &some);
    assert_eq!(a, Resolution::ProjectFile("src/a/c.css".to_string()));
    assert_eq!(a, b);
}

#[test]
fn inferred_file_is_a_known_file() {
    let all = files(&["src/lib/util.d.ts", "src/lib/other.ts"]);
    match resolve("src/main.ts", "./lib/util", SiteKind::StaticImport, "", &all) {
        Resolution::ProjectFile(p) => {
            assert_eq!(p, "src/lib/util.d.ts");
            assert!(all.contains(&p));
        }
        other => panic!("unexpected {:?}", other),
    }
    assert_eq!(
        resolve("src/main.ts", "./lib/missing", SiteKind::StaticImport, "", &all),
        Resolution::Unresolved("src/lib/missing".to_string(), UnresolvedReason::NoMatchingFile)
    );
}

#[test]
fn resolving_twice_gives_the_same_outcome() {
    let a = files(&["src/x/index.ts", "src/y.ts"]);
    let b = files(&["src/y.ts", "src/x/index.ts", "src/y.ts"]);
    for spec in ["./x", "./y", "./z", "@/x", "vue", "../../out"] {
        let first = resolve("src/main.ts", spec, SiteKind::DynamicImport, "", &a);
        let second = resolve("src/main.ts", spec, SiteKind::DynamicImport, "", &a);
        let third = resolve("src/main.ts", spec, SiteKind::DynamicImport, "", &b);
        assert_eq!(first, second);
        assert_eq!(first, third);
    }
}

#[test]
fn stylesheet_references_resolve_from_the_stylesheet() {
    let all = files(&[]);
    assert_eq!(
        resolve("src/foo/bar.less", "common.less", SiteKind::StyleImport, "", &all),
        Resolution::ProjectFile("src/foo/common.less".to_string())
    );
    assert_eq!(
        resolve("src/foo/bar.less", "~bootstrap/less/x.less", SiteKind::StyleImport, "", &all),
        Resolution::Unresolved(
            "~bootstrap/less/x.less".to_string(),
            UnresolvedReason::NonProjectReference
        )
    );
}

#[test]
fn unresolved_reasons_carry_the_specifier() {
    let all = files(&[]);
    assert_eq!(
        resolve("", "./a.ts", SiteKind::StaticImport, "", &all),
        Resolution::Unresolved("./a.ts".to_string(), UnresolvedReason::NoParentDirectory)
    );
    assert_eq!(
        resolve("src/a.ts", "/other/src/b.ts", SiteKind::StaticImport, "/proj", &all),
        Resolution::Unresolved("/other/src/b.ts".to_string(), UnresolvedReason::OutsideProjectRoot)
    );
}

#[test]
fn finish_keeps_an_extensioned_path() {
    let all = files(&["src/a.png.ts"]);
    assert_eq!(
        try_to_find_files_without_a_suffix("src/a.png", &all),
        Resolution::ProjectFile("src/a.png".to_string())
    );
    assert_eq!(
        try_to_find_files_without_a_suffix("src/a", &files(&["src/a/index.ts"])),
        Resolution::ProjectFile("src/a/index.ts".to_string())
    );
}

#[test]
fn stylesheet_reference_into_node_modules_is_dropped() {
    let all = files(&[]);
    assert_eq!(
        resolve("src/a.css", "../node_modules/x/y.css", SiteKind::StyleImport, "", &all),
        Resolution::Unresolved(
            "../node_modules/x/y.css".to_string(),
            UnresolvedReason::InsideNodeModules
        )
    );
}

#[test]
fn alias_and_root_results_are_cleaned() {
    let all = files(&[]);
    assert_eq!(
        resolve("src/a.ts", "@/a/../b.ts", SiteKind::StaticImport, "", &all),
        Resolution::ProjectFile("src/b.ts".to_string())
    );
    assert_eq!(
        resolve("src/a.ts", "/p/src/./x//y.ts", SiteKind::StaticImport, "/p", &all),
        Resolution::ProjectFile("src/x/y.ts".to_string())
    );
}
