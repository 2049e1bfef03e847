//! Classification of one import specifier: a project file, a package, or
//! unresolved, by a fixed order of rules.

use vstd::prelude::*;
use crate::common::has_supported_extension;
use crate::paths::{alias_target, relative_target, UnresolvedReason};
use crate::processors::js_like::{
    dependency_of, path_to_real_path as script_path, probe, project_path_of, script_target,
    try_to_find_files_without_a_suffix,
};
use crate::processors::style_like::{path_to_real_path as style_path, style_target};
use crate::text::{contains, has_infix, has_prefix, starts_with, view_set};

verus! {

/// Where in the source a specifier was found.
#[derive(Debug, Clone, Copy, PartialEq, Eq, Structural)]
pub enum SiteKind {
    /// An `import ... from '...'` declaration.
    StaticImport,
    /// A call `import('...')`.
    DynamicImport,
    /// A markup attribute that names an asset file.
    AssetAttribute,
    /// A stylesheet `@import` or `url(...)`.
    StyleImport,
}

/// The outcome of resolving one specifier.
#[derive(Debug, Clone, PartialEq, Eq)]
pub enum Resolution {
    /// A file of the project, by its canonical project-relative path.
    ProjectFile(String),
    /// An outside package, by the specifier as written.
    Dependency(String),
    /// Neither: the text concerned and the reason.
    Unresolved(String, UnresolvedReason),
}

/// The mathematical value of a `Resolution`.
pub enum ResolutionView {
    ProjectFile(Seq<char>),
    Dependency(Seq<char>),
    Unresolved(Seq<char>, UnresolvedReason),
}

impl View for Resolution {
    type V = ResolutionView;

    open spec fn view(&self) -> ResolutionView {
        match self {
            Resolution::ProjectFile(p) => ResolutionView::ProjectFile(p@),
            Resolution::Dependency(d) => ResolutionView::Dependency(d@),
            Resolution::Unresolved(t, e) => ResolutionView::Unresolved(t@, *e),
        }
    }
}

/// The path that a specifier names before any suffix is inferred, by the
/// rules of its site: stylesheet rules for stylesheet references, script
/// rules for the rest.
pub open spec fn target_path(cur: Seq<char>, raw: Seq<char>, kind: SiteKind, root: Seq<char>) -> Result<
    Seq<char>,
    UnresolvedReason,
> {
    if kind == SiteKind::StyleImport {
        style_target(cur, raw)
    } else {
        script_target(cur, raw, root)
    }
}

/// A project path becomes a project file: as it is when it carries a
/// recognised extension, else by suffix inference.
pub open spec fn finish(p: Seq<char>, files: Set<Seq<char>>) -> ResolutionView {
    if has_supported_extension(p) {
        ResolutionView::ProjectFile(p)
    } else {
        probe(p, files)
    }
}

/// The outcome of resolving `raw`, found in the file `cur` at a site of
/// kind `kind`, in the project at `root` whose known files are `files`.
/// Rules, first match wins: a path that cannot be formed leaves the
/// specifier unresolved; a target inside installed packages is dropped; a
/// script target outside `src/` is a package name; any other target is a
/// project path, completed by `finish`.
pub open spec fn resolution(
    cur: Seq<char>,
    raw: Seq<char>,
    kind: SiteKind,
    root: Seq<char>,
    files: Set<Seq<char>>,
) -> ResolutionView {
    match target_path(cur, raw, kind, root) {
        Err(e) => ResolutionView::Unresolved(raw, e),
        Ok(p) => if has_infix(p, "node_modules"@) {
            ResolutionView::Unresolved(raw, UnresolvedReason::InsideNodeModules)
        } else if kind == SiteKind::StyleImport || has_prefix(p, "src/"@) {
            finish(p, files)
        } else {
            ResolutionView::Dependency(p)
        },
    }
}

/// Resolves one specifier against the known files of the project.
pub fn resolve(
    current_file: &str,
    raw_specifier: &str,
    site_kind: SiteKind,
    project_root: &str,
    all_files: &Vec<String>,
) -> (r: Resolution)
    ensures
        r@ == resolution(
            current_file@,
            raw_specifier@,
            site_kind,
            project_root@,
            view_set(all_files@),
        ),
{
    let target = match site_kind {
        SiteKind::StyleImport => style_path(current_file, raw_specifier),
        _ => script_path(current_file, raw_specifier, project_root),
    };
    match target {
        Err(e) => Resolution::Unresolved(String::from_str(raw_specifier), e),
        Ok(p) => {
            if contains(p.as_str(), "node_modules") {
                Resolution::Unresolved(
                    String::from_str(raw_specifier),
                    UnresolvedReason::InsideNodeModules,
                )
            } else if site_kind == SiteKind::StyleImport || starts_with(p.as_str(), "src/") {
                try_to_find_files_without_a_suffix(p.as_str(), all_files)
            } else {
                Resolution::Dependency(p)
            }
        },
    }
}

/// A project file that suffix inference yields is always one of the known
/// files.
pub proof fn lemma_probe_yields_known_file(p: Seq<char>, files: Set<Seq<char>>)
    ensures
        probe(p, files) matches ResolutionView::ProjectFile(q) ==> files.contains(q),
{
}

/// When a specifier's path carries no recognised extension, so that suffix
/// inference decides, a project file that comes out is one of the known
/// files.
pub proof fn lemma_inferred_file_is_known(
    cur: Seq<char>,
    raw: Seq<char>,
    kind: SiteKind,
    root: Seq<char>,
    files: Set<Seq<char>>,
)
    requires
        target_path(cur, raw, kind, root) matches Ok(p) && !has_supported_extension(p),
    ensures
        resolution(cur, raw, kind, root, files) matches ResolutionView::ProjectFile(q)
            ==> files.contains(q),
{
}

/// Resolving is a function of its inputs: the same importing file,
/// specifier, site kind and root, against two lists that hold the same
/// files in any order or repetition, give the same outcome.
pub proof fn lemma_resolution_is_deterministic(
    cur: Seq<char>,
    raw: Seq<char>,
    kind: SiteKind,
    root: Seq<char>,
    files_a: Seq<String>,
    files_b: Seq<String>,
    r_a: ResolutionView,
    r_b: ResolutionView,
)
    requires
        view_set(files_a) == view_set(files_b),
        r_a == resolution(cur, raw, kind, root, view_set(files_a)),
        r_b == resolution(cur, raw, kind, root, view_set(files_b)),
    ensures
        r_a == r_b,
{
}

/// A relative specifier whose canonical path already carries a recognised
/// extension never goes through suffix inference: its outcome is the same
/// whatever files are known, and it is that very path wherever a project
/// file comes out.
pub proof fn lemma_extensioned_relative_skips_probe(
    cur: Seq<char>,
    raw: Seq<char>,
    kind: SiteKind,
    root: Seq<char>,
    files_a: Set<Seq<char>>,
    files_b: Set<Seq<char>>,
)
    requires
        has_prefix(raw, "."@),
        relative_target(cur, raw) matches Ok(p) && has_supported_extension(p),
    ensures
        resolution(cur, raw, kind, root, files_a) == resolution(cur, raw, kind, root, files_b),
        resolution(cur, raw, kind, root, files_a) matches ResolutionView::ProjectFile(q) ==> Ok::<
            Seq<char>,
            UnresolvedReason,
        >(q) == relative_target(cur, raw),
{
    reveal_strlit(".");
    reveal_strlit("@/");
    reveal_strlit("~@/");
    reveal_strlit("~");
    assert(raw.subrange(0, 1)[0] == raw[0]);
    if has_prefix(raw, "@/"@) {
        assert(raw.subrange(0, 2)[0] == raw[0]);
    }
    if has_prefix(raw, "~@/"@) {
        assert(raw.subrange(0, 3)[0] == raw[0]);
    }
    if has_prefix(raw, "~"@) {
        assert(raw.subrange(0, 1)[0] == raw[0]);
    }
}

/// An alias specifier `@/...` is read from the project root, never from the
/// importing file: any two importing files give it the same outcome.
pub proof fn lemma_alias_ignores_importer(
    cur_a: Seq<char>,
    cur_b: Seq<char>,
    raw: Seq<char>,
    kind: SiteKind,
    root: Seq<char>,
    files: Set<Seq<char>>,
)
    requires
        has_prefix(raw, "@/"@),
    ensures
        resolution(cur_a, raw, kind, root, files) == resolution(cur_b, raw, kind, root, files),
        target_path(cur_a, raw, kind, root) == Ok::<Seq<char>, UnresolvedReason>(alias_target(raw)),
{
}

/// What the collectors record for a specifier agrees with `resolution`: a
/// project path recorded at a script site completes to what resolving the
/// specifier gives, a recorded package name is the package it gives, and a
/// specifier that records nothing is unresolved. At a stylesheet site a
/// recorded path likewise completes to what resolving gives.
pub proof fn lemma_collected_agrees_with_resolution(
    cur: Seq<char>,
    raw: Seq<char>,
    kind: SiteKind,
    root: Seq<char>,
    files: Set<Seq<char>>,
)
    ensures
        kind != SiteKind::StyleImport ==> {
            &&& project_path_of(cur, raw, root) matches Some(p) ==> resolution(
                cur,
                raw,
                kind,
                root,
                files,
            ) == finish(p, files)
            &&& dependency_of(cur, raw, root) matches Some(d) ==> resolution(
                cur,
                raw,
                kind,
                root,
                files,
            ) == ResolutionView::Dependency(d)
            &&& project_path_of(cur, raw, root) is None && dependency_of(cur, raw, root) is None
                ==> resolution(cur, raw, kind, root, files) is Unresolved
        },
        kind == SiteKind::StyleImport ==> {
            &&& style_target(cur, raw) is Err ==> resolution(cur, raw, kind, root, files) is Unresolved
            &&& style_target(cur, raw) matches Ok(p) ==> if has_infix(p, "node_modules"@) {
                resolution(cur, raw, kind, root, files) is Unresolved
            } else {
                resolution(cur, raw, kind, root, files) == finish(p, files)
            }
        },
{
}

} // verus!
