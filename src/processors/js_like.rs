//! Script files: the rules that turn a specifier into a project path or a
//! package name, the suffix inference for extension-less paths, and the
//! collector that the syntax walk feeds.

use vstd::prelude::*;
use crate::common::{has_file_extension, has_supported_extension};
use crate::paths::{
    alias_target, alias_to_project, cleaned_path, relative_target, relative_to, strip_and_clean,
    strip_root, UnresolvedReason,
};
use crate::resolver::{finish, Resolution, ResolutionView};
use crate::text::{
    concat, contains, contains_string, distinct_views, has_infix, has_prefix, insert_string,
    starts_with, view_set,
};

verus! {

/// The path that a script specifier names, before any suffix is inferred:
/// an alias `@/x` is `src/x`; a relative one is read from the importing
/// file's directory; another that mentions `src` is re-expressed from the
/// project root and cleaned; anything else is kept as written.
pub open spec fn script_target(cur: Seq<char>, imp: Seq<char>, root: Seq<char>) -> Result<
    Seq<char>,
    UnresolvedReason,
> {
    if has_prefix(imp, "@/"@) {
        Ok(alias_target(imp))
    } else if has_prefix(imp, "."@) {
        relative_target(cur, imp)
    } else if has_infix(imp, "src"@) {
        match strip_root(imp, root) {
            Ok(u) => Ok(cleaned_path(u)),
            Err(e) => Err(e),
        }
    } else {
        Ok(imp)
    }
}

/// A target inside the project's `src/` folder and outside installed packages.
pub open spec fn is_project_path(p: Seq<char>) -> bool {
    !has_infix(p, "node_modules"@) && has_prefix(p, "src/"@)
}

/// A target outside both the `src/` folder and installed packages: a package name.
pub open spec fn is_dependency_name(p: Seq<char>) -> bool {
    !has_infix(p, "node_modules"@) && !has_prefix(p, "src/"@)
}

/// The project path, before suffix inference, that a script specifier adds.
pub open spec fn project_path_of(cur: Seq<char>, imp: Seq<char>, root: Seq<char>) -> Option<
    Seq<char>,
> {
    match script_target(cur, imp, root) {
        Ok(p) => if is_project_path(p) {
            Some(p)
        } else {
            None
        },
        Err(_) => None,
    }
}

/// The package name that a script specifier adds.
pub open spec fn dependency_of(cur: Seq<char>, imp: Seq<char>, root: Seq<char>) -> Option<
    Seq<char>,
> {
    match script_target(cur, imp, root) {
        Ok(p) => if is_dependency_name(p) {
            Some(p)
        } else {
            None
        },
        Err(_) => None,
    }
}

/// The set that holds the value of `o`, if any.
pub open spec fn opt_set(o: Option<Seq<char>>) -> Set<Seq<char>> {
    match o {
        Some(p) => Set::empty().insert(p),
        None => Set::empty(),
    }
}

/// Suffix inference: the first of `p.ts`, `p.tsx`, `p/index.ts`,
/// `p/index.tsx`, `p.d.ts`, `p/index.d.ts` that is a known file.
pub open spec fn probe(p: Seq<char>, files: Set<Seq<char>>) -> ResolutionView {
    if files.contains(p + ".ts"@) {
        ResolutionView::ProjectFile(p + ".ts"@)
    } else if files.contains(p + ".tsx"@) {
        ResolutionView::ProjectFile(p + ".tsx"@)
    } else if files.contains(p + "/index.ts"@) {
        ResolutionView::ProjectFile(p + "/index.ts"@)
    } else if files.contains(p + "/index.tsx"@) {
        ResolutionView::ProjectFile(p + "/index.tsx"@)
    } else if files.contains(p + ".d.ts"@) {
        ResolutionView::ProjectFile(p + ".d.ts"@)
    } else if files.contains(p + "/index.d.ts"@) {
        ResolutionView::ProjectFile(p + "/index.d.ts"@)
    } else {
        ResolutionView::Unresolved(p, UnresolvedReason::NoMatchingFile)
    }
}

/// The path that a script specifier names, before any suffix is inferred.
pub fn path_to_real_path(current_file_path: &str, import_path: &str, project_root: &str) -> (r:
    Result<String, UnresolvedReason>)
    ensures
        match r {
            Ok(s) => script_target(current_file_path@, import_path@, project_root@) == Ok::<
                Seq<char>,
                UnresolvedReason,
            >(s@),
            Err(e) => script_target(current_file_path@, import_path@, project_root@) == Err::<
                Seq<char>,
                UnresolvedReason,
            >(e),
        },
{
    if starts_with(import_path, "@/") {
        Ok(alias_to_project(import_path))
    } else if starts_with(import_path, ".") {
        relative_to(current_file_path, import_path)
    } else if contains(import_path, "src") {
        strip_and_clean(import_path, project_root)
    } else {
        Ok(String::from_str(import_path))
    }
}

/// Turns a project path into a project file: a path that carries a
/// recognised extension is taken as it is; for another, the suffixes are
/// tried in their fixed order against the known files.
pub fn try_to_find_files_without_a_suffix(
    relative_path_for_project: &str,
    all_files: &Vec<String>,
) -> (r: Resolution)
    ensures
        r@ == finish(relative_path_for_project@, view_set(all_files@)),
{
    let p = relative_path_for_project;
    if has_file_extension(p) {
        return Resolution::ProjectFile(String::from_str(p));
    }
    let c = concat(p, ".ts");
    if contains_string(all_files, c.as_str()) {
        return Resolution::ProjectFile(c);
    }
    let c = concat(p, ".tsx");
    if contains_string(all_files, c.as_str()) {
        return Resolution::ProjectFile(c);
    }
    let c = concat(p, "/index.ts");
    if contains_string(all_files, c.as_str()) {
        return Resolution::ProjectFile(c);
    }
    let c = concat(p, "/index.tsx");
    if contains_string(all_files, c.as_str()) {
        return Resolution::ProjectFile(c);
    }
    let c = concat(p, ".d.ts");
    if contains_string(all_files, c.as_str()) {
        return Resolution::ProjectFile(c);
    }
    let c = concat(p, "/index.d.ts");
    if contains_string(all_files, c.as_str()) {
        return Resolution::ProjectFile(c);
    }
    Resolution::Unresolved(String::from_str(p), UnresolvedReason::NoMatchingFile)
}

/// An argument of a call, as far as import collection reads it.
#[derive(Debug, Clone)]
pub enum CallArg {
    /// A string literal.
    StrLit(String),
    /// Any other expression.
    Other,
}

/// The value of a markup attribute, as far as import collection reads it.
#[derive(Debug, Clone)]
pub enum AttrValue {
    /// A string: written plainly or as a string literal in braces.
    Str(String),
    /// A template literal: its text segments, between the expression holes.
    Template(Vec<String>),
    /// No value, or any other expression.
    Other,
}

/// The project paths that the texts `texts[0..n]` add; with `asset`, only
/// the texts that end in a recognised extension count.
pub open spec fn collected_paths(
    cur: Seq<char>,
    root: Seq<char>,
    texts: Seq<Seq<char>>,
    asset: bool,
    n: int,
) -> Set<Seq<char>> {
    Set::new(
        |p: Seq<char>|
            exists|j: int|
                0 <= j < n && (!asset || has_supported_extension(texts[j])) && project_path_of(
                    cur,
                    texts[j],
                    root,
                ) == Some(p),
    )
}

/// The package names that the texts `texts[0..n]` add.
pub open spec fn collected_deps(
    cur: Seq<char>,
    root: Seq<char>,
    texts: Seq<Seq<char>>,
    asset: bool,
    n: int,
) -> Set<Seq<char>> {
    Set::new(
        |p: Seq<char>|
            exists|j: int|
                0 <= j < n && (!asset || has_supported_extension(texts[j])) && dependency_of(
                    cur,
                    texts[j],
                    root,
                ) == Some(p),
    )
}

/// The string-literal arguments of a call, in order.
pub open spec fn literal_args(args: Seq<CallArg>) -> Seq<Seq<char>>
    decreases args.len(),
{
    if args.len() == 0 {
        Seq::empty()
    } else {
        let rest = literal_args(args.drop_last());
        match args.last() {
            CallArg::StrLit(s) => rest.push(s@),
            CallArg::Other => rest,
        }
    }
}

/// The text segments of an attribute value.
pub open spec fn attr_texts(v: AttrValue) -> Seq<Seq<char>> {
    match v {
        AttrValue::Str(s) => seq![s@],
        AttrValue::Template(q) => q@.map_values(|x: String| x@),
        AttrValue::Other => Seq::empty(),
    }
}

/// Gathers what the scripts of a project import: the project paths (before
/// suffix inference) and the package names, with the files seen so far.
#[derive(Debug, Clone)]
pub struct ImportCollector {
    /// Project paths imported so far, before suffix inference.
    pub imports: Vec<String>,
    /// Package names imported so far.
    pub dependencies: Vec<String>,
    /// The script being walked, which relative specifiers are read from.
    pub current_file_path: String,
    /// Every script found by the scan.
    pub all_files: Vec<String>,
    /// The project's root folder, which absolute specifiers are read from.
    pub project_root: String,
}

impl Default for ImportCollector {
    fn default() -> (r: Self)
        ensures
            r.imports@.len() == 0,
            r.dependencies@.len() == 0,
            r.current_file_path@.len() == 0,
            r.all_files@.len() == 0,
            r.project_root@.len() == 0,
            r.well_formed(),
    {
        ImportCollector {
            imports: Vec::new(),
            dependencies: Vec::new(),
            current_file_path: String::new(),
            all_files: Vec::new(),
            project_root: String::new(),
        }
    }
}

impl ImportCollector {
    /// Each path and each package name is recorded once.
    pub open spec fn well_formed(&self) -> bool {
        distinct_views(self.imports@) && distinct_views(self.dependencies@)
    }

    /// The collector is unchanged but for its two result lists.
    pub open spec fn same_setting(&self, other: &Self) -> bool {
        &&& self.current_file_path@ == other.current_file_path@
        &&& self.project_root@ == other.project_root@
        &&& self.all_files@ == other.all_files@
    }

    /// Records what an import declaration or a dynamic import of `path`
    /// names: a project path, a package name, or nothing.
    pub fn common_insert(&mut self, path: &str)
        ensures
            final(self).same_setting(old(self)),
            old(self).well_formed() ==> final(self).well_formed(),
            view_set(final(self).imports@) == view_set(old(self).imports@) + opt_set(
                project_path_of(old(self).current_file_path@, path@, old(self).project_root@),
            ),
            view_set(final(self).dependencies@) == view_set(old(self).dependencies@) + opt_set(
                dependency_of(old(self).current_file_path@, path@, old(self).project_root@),
            ),
    {
        let real_path = path_to_real_path(
            self.current_file_path.as_str(),
            path,
            self.project_root.as_str(),
        );
        match real_path {
            Ok(s) => {
                if contains(s.as_str(), "node_modules") {
                    assert(view_set(self.imports@) =~= view_set(self.imports@) + Set::empty());
                    assert(view_set(self.dependencies@) =~= view_set(self.dependencies@)
                        + Set::empty());
                } else if starts_with(s.as_str(), "src/") {
                    insert_string(&mut self.imports, s);
                    assert(view_set(self.dependencies@) =~= view_set(self.dependencies@)
                        + Set::empty());
                } else {
                    insert_string(&mut self.dependencies, s);
                    assert(view_set(self.imports@) =~= view_set(self.imports@) + Set::empty());
                }
            },
            Err(_) => {
                assert(view_set(self.imports@) =~= view_set(self.imports@) + Set::empty());
                assert(view_set(self.dependencies@) =~= view_set(self.dependencies@)
                    + Set::empty());
            },
        }
    }

    /// Records what a markup attribute's text names, when it ends in a
    /// recognised extension.
    pub fn jsx_attr_insert(&mut self, path: &str)
        ensures
            final(self).same_setting(old(self)),
            old(self).well_formed() ==> final(self).well_formed(),
            view_set(final(self).imports@) == view_set(old(self).imports@) + if has_supported_extension(
                path@,
            ) {
                opt_set(project_path_of(old(self).current_file_path@, path@, old(self).project_root@))
            } else {
                Set::empty()
            },
            view_set(final(self).dependencies@) == view_set(old(self).dependencies@)
                + if has_supported_extension(path@) {
                opt_set(dependency_of(old(self).current_file_path@, path@, old(self).project_root@))
            } else {
                Set::empty()
            },
    {
        if has_file_extension(path) {
            self.common_insert(path);
        } else {
            assert(view_set(self.imports@) =~= view_set(self.imports@) + Set::empty());
            assert(view_set(self.dependencies@) =~= view_set(self.dependencies@) + Set::empty());
        }
    }

    fn insert_texts(&mut self, texts: &Vec<String>, asset: bool)
        ensures
            final(self).same_setting(old(self)),
            old(self).well_formed() ==> final(self).well_formed(),
            view_set(final(self).imports@) == view_set(old(self).imports@) + collected_paths(
                old(self).current_file_path@,
                old(self).project_root@,
                texts@.map_values(|x: String| x@),
                asset,
                texts@.len() as int,
            ),
            view_set(final(self).dependencies@) == view_set(old(self).dependencies@)
                + collected_deps(
                old(self).current_file_path@,
                old(self).project_root@,
                texts@.map_values(|x: String| x@),
                asset,
                texts@.len() as int,
            ),
    {
        let ghost cur = self.current_file_path@;
        let ghost root = self.project_root@;
        let ghost ts = texts@.map_values(|x: String| x@);
        let mut i: usize = 0;
        assert(collected_paths(cur, root, ts, asset, 0) =~= Set::empty());
        assert(collected_deps(cur, root, ts, asset, 0) =~= Set::empty());
        assert(view_set(self.imports@) =~= view_set(old(self).imports@) + Set::empty());
        assert(view_set(self.dependencies@) =~= view_set(old(self).dependencies@) + Set::empty());
        while i < texts.len()
            invariant
                i <= texts@.len(),
                ts == texts@.map_values(|x: String| x@),
                self.same_setting(old(self)),
                old(self).well_formed() ==> self.well_formed(),
                cur == old(self).current_file_path@,
                root == old(self).project_root@,
                view_set(self.imports@) == view_set(old(self).imports@) + collected_paths(
                    cur,
                    root,
                    ts,
                    asset,
                    i as int,
                ),
                view_set(self.dependencies@) == view_set(old(self).dependencies@) + collected_deps(
                    cur,
                    root,
                    ts,
                    asset,
                    i as int,
                ),
            decreases texts.len() - i,
        {
            let t = texts[i].as_str();
            assert(ts[i as int] == t@);
            if asset {
                self.jsx_attr_insert(t);
            } else {
                self.common_insert(t);
            }
            assert(collected_paths(cur, root, ts, asset, i + 1) =~= collected_paths(
                cur,
                root,
                ts,
                asset,
                i as int,
            ) + if !asset || has_supported_extension(t@) {
                opt_set(project_path_of(cur, t@, root))
            } else {
                Set::empty()
            });
            assert(collected_deps(cur, root, ts, asset, i + 1) =~= collected_deps(
                cur,
                root,
                ts,
                asset,
                i as int,
            ) + if !asset || has_supported_extension(t@) {
                opt_set(dependency_of(cur, t@, root))
            } else {
                Set::empty()
            });
            i += 1;
        }
    }

    /// Records what a dynamic import call names: each string-literal
    /// argument counts as a specifier, any other argument is passed over.
    pub fn insert_dynamic_import(&mut self, args: &Vec<CallArg>)
        ensures
            final(self).same_setting(old(self)),
            old(self).well_formed() ==> final(self).well_formed(),
            view_set(final(self).imports@) == view_set(old(self).imports@) + collected_paths(
                old(self).current_file_path@,
                old(self).project_root@,
                literal_args(args@),
                false,
                literal_args(args@).len() as int,
            ),
            view_set(final(self).dependencies@) == view_set(old(self).dependencies@)
                + collected_deps(
                old(self).current_file_path@,
                old(self).project_root@,
                literal_args(args@),
                false,
                literal_args(args@).len() as int,
            ),
    {
        let mut texts: Vec<String> = Vec::new();
        let mut i: usize = 0;
        assert(args@.subrange(0, 0) =~= Seq::<CallArg>::empty());
        assert(texts@.map_values(|x: String| x@) =~= literal_args(args@.subrange(0, 0)));
        while i < args.len()
            invariant
                i <= args@.len(),
                texts@.map_values(|x: String| x@) == literal_args(args@.subrange(0, i as int)),
            decreases args.len() - i,
        {
            assert(args@.subrange(0, i + 1).drop_last() =~= args@.subrange(0, i as int));
            match &args[i] {
                CallArg::StrLit(s) => {
                    texts.push(s.clone());
                },
                CallArg::Other => {},
            }
            assert(texts@.map_values(|x: String| x@) =~= literal_args(
                args@.subrange(0, i + 1),
            ));
            i += 1;
        }
        assert(args@.subrange(0, args@.len() as int) =~= args@);
        self.insert_texts(&texts, false);
    }

    /// Records what a markup attribute names: a plain string, or each text
    /// segment of a template literal, when it ends in a recognised extension.
    pub fn insert_jsx_attr(&mut self, value: &AttrValue)
        ensures
            final(self).same_setting(old(self)),
            old(self).well_formed() ==> final(self).well_formed(),
            view_set(final(self).imports@) == view_set(old(self).imports@) + collected_paths(
                old(self).current_file_path@,
                old(self).project_root@,
                attr_texts(*value),
                true,
                attr_texts(*value).len() as int,
            ),
            view_set(final(self).dependencies@) == view_set(old(self).dependencies@)
                + collected_deps(
                old(self).current_file_path@,
                old(self).project_root@,
                attr_texts(*value),
                true,
                attr_texts(*value).len() as int,
            ),
    {
        match value {
            AttrValue::Str(s) => {
                let texts = vec![s.clone()];
                assert(texts@.map_values(|x: String| x@) =~= attr_texts(*value));
                self.insert_texts(&texts, true);
            },
            AttrValue::Template(q) => {
                self.insert_texts(q, true);
            },
            AttrValue::Other => {
                let ghost cur = self.current_file_path@;
                let ghost root = self.project_root@;
                assert(collected_paths(cur, root, attr_texts(*value), true, 0) =~= Set::empty());
                assert(collected_deps(cur, root, attr_texts(*value), true, 0) =~= Set::empty());
                assert(view_set(self.imports@) =~= view_set(self.imports@) + Set::empty());
                assert(view_set(self.dependencies@) =~= view_set(self.dependencies@)
                    + Set::empty());
            },
        }
    }
} // impl ImportCollector

} // verus!
