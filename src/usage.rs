//! The project-wide summary: which files are imported, which packages are
//! used, and which known files nothing imports.

use vstd::prelude::*;
use crate::processors::js_like::ImportCollector;
use crate::processors::style_like::StyleImportCollector;
use crate::processors::js_like::try_to_find_files_without_a_suffix;
use crate::resolver::{finish, Resolution, ResolutionView};
use crate::text::{
    contains_string, distinct_views, insert_string, lemma_view_set_extend, view_set,
};

verus! {

/// The summary of a whole scan; each list holds each entry once.
#[derive(Debug, Clone)]
pub struct UsageReport {
    /// The project files that some script or stylesheet imports.
    pub imports: Vec<String>,
    /// The package names that the scripts import.
    pub dependencies: Vec<String>,
    /// The known files that nothing imports.
    pub unused_imports: Vec<String>,
}

/// Every file that the scan found, scripts and stylesheets alike.
pub open spec fn known_files(js: ImportCollector, style: StyleImportCollector) -> Set<Seq<char>> {
    view_set(js.all_files@) + view_set(style.all_files@)
}

/// The project files that a set of project paths comes to among `files`;
/// paths that match no file count for nothing.
pub open spec fn completed(paths: Set<Seq<char>>, files: Set<Seq<char>>) -> Set<Seq<char>> {
    Set::new(
        |q: Seq<char>|
            exists|p: Seq<char>| paths.contains(p) && finish(p, files) == ResolutionView::ProjectFile(q),
    )
}

/// The project files that the scan found imported.
pub open spec fn imported_files(js: ImportCollector, style: StyleImportCollector) -> Set<Seq<char>> {
    completed(view_set(js.imports@) + view_set(style.imports@), known_files(js, style))
}

/// The known files that nothing imports.
pub open spec fn unused_files(js: ImportCollector, style: StyleImportCollector) -> Set<Seq<char>> {
    known_files(js, style).difference(imported_files(js, style))
}

fn union_into(dst: &mut Vec<String>, src: &Vec<String>)
    ensures
        view_set(final(dst)@) == view_set(old(dst)@) + view_set(src@),
        distinct_views(old(dst)@) ==> distinct_views(final(dst)@),
{
    let mut i: usize = 0;
    assert(view_set(dst@) =~= view_set(old(dst)@) + view_set(src@.subrange(0, 0)));
    while i < src.len()
        invariant
            i <= src@.len(),
            view_set(dst@) == view_set(old(dst)@) + view_set(src@.subrange(0, i as int)),
            distinct_views(old(dst)@) ==> distinct_views(dst@),
        decreases src.len() - i,
    {
        insert_string(dst, src[i].clone());
        proof {
            lemma_view_set_extend(src@, i as int);
        }
        i += 1;
    }
    assert(src@.subrange(0, src@.len() as int) =~= src@);
}

fn complete_into(dst: &mut Vec<String>, paths: &Vec<String>, files: &Vec<String>)
    ensures
        view_set(final(dst)@) == view_set(old(dst)@) + completed(view_set(paths@), view_set(files@)),
        distinct_views(old(dst)@) ==> distinct_views(final(dst)@),
{
    let ghost fs = view_set(files@);
    let mut i: usize = 0;
    assert(completed(view_set(paths@.subrange(0, 0)), fs) =~= Set::empty());
    assert(view_set(dst@) =~= view_set(old(dst)@) + Set::empty());
    while i < paths.len()
        invariant
            i <= paths@.len(),
            fs == view_set(files@),
            distinct_views(old(dst)@) ==> distinct_views(dst@),
            view_set(dst@) == view_set(old(dst)@) + completed(
                view_set(paths@.subrange(0, i as int)),
                fs,
            ),
        decreases paths.len() - i,
    {
        let ghost before = view_set(paths@.subrange(0, i as int));
        let ghost after = view_set(paths@.subrange(0, i + 1));
        let ghost p = paths@[i as int]@;
        proof {
            lemma_view_set_extend(paths@, i as int);
        }
        let r = try_to_find_files_without_a_suffix(paths[i].as_str(), files);
        match r {
            Resolution::ProjectFile(q) => {
                let ghost qv = q@;
                insert_string(dst, q);
                assert(completed(after, fs) =~= completed(before, fs).insert(qv));
            },
            _ => {
                assert(completed(after, fs) =~= completed(before, fs));
            },
        }
        i += 1;
    }
    assert(paths@.subrange(0, paths@.len() as int) =~= paths@);
}

/// Summarises a finished scan: the project paths that scripts and
/// stylesheets import, completed into project files against every file
/// found; the package names that scripts import; and the files found that
/// nothing imports.
pub fn summarize_usage(js: &ImportCollector, style: &StyleImportCollector) -> (r: UsageReport)
    ensures
        view_set(r.imports@) == imported_files(*js, *style),
        view_set(r.dependencies@) == view_set(js.dependencies@),
        view_set(r.unused_imports@) == unused_files(*js, *style),
        distinct_views(r.imports@),
        distinct_views(r.dependencies@),
        distinct_views(r.unused_imports@),
{
    let mut files: Vec<String> = Vec::new();
    assert(view_set(files@) =~= Set::empty());
    union_into(&mut files, &js.all_files);
    union_into(&mut files, &style.all_files);
    assert(view_set(files@) =~= known_files(*js, *style));
    let mut imports: Vec<String> = Vec::new();
    assert(view_set(imports@) =~= Set::empty());
    complete_into(&mut imports, &js.imports, &files);
    complete_into(&mut imports, &style.imports, &files);
    assert(view_set(imports@) =~= imported_files(*js, *style)) by {
        let fs = known_files(*js, *style);
        let a = view_set(js.imports@);
        let b = view_set(style.imports@);
        assert(completed(a + b, fs) =~= completed(a, fs) + completed(b, fs));
    }
    let mut dependencies: Vec<String> = Vec::new();
    assert(view_set(dependencies@) =~= Set::empty());
    union_into(&mut dependencies, &js.dependencies);
    assert(view_set(dependencies@) =~= view_set(js.dependencies@));
    let mut unused: Vec<String> = Vec::new();
    let mut i: usize = 0;
    assert(view_set(unused@) =~= view_set(files@.subrange(0, 0)).difference(view_set(imports@)));
    while i < files.len()
        invariant
            i <= files@.len(),
            view_set(unused@) == view_set(files@.subrange(0, i as int)).difference(
                view_set(imports@),
            ),
            distinct_views(unused@),
            distinct_views(imports@),
            distinct_views(dependencies@),
        decreases files.len() - i,
    {
        let ghost before = view_set(files@.subrange(0, i as int));
        let ghost after = view_set(files@.subrange(0, i + 1));
        let ghost f = files@[i as int]@;
        proof {
            lemma_view_set_extend(files@, i as int);
        }
        if !contains_string(&imports, files[i].as_str()) {
            insert_string(&mut unused, files[i].clone());
        }
        assert(view_set(unused@) =~= after.difference(view_set(imports@)));
        i += 1;
    }
    assert(files@.subrange(0, files@.len() as int) =~= files@);
    UsageReport { imports, dependencies, unused_imports: unused }
}

/// No file is both unused and imported, and every unused file is a known
/// file.
pub proof fn lemma_unused_disjoint_from_imported(js: ImportCollector, style: StyleImportCollector)
    ensures
        unused_files(js, style).intersect(imported_files(js, style)) == Set::<Seq<char>>::empty(),
        unused_files(js, style).subset_of(known_files(js, style)),
{
    assert(unused_files(js, style).intersect(imported_files(js, style)) =~= Set::<
        Seq<char>,
    >::empty());
}

/// Where every imported file is a known file, unused and imported files
/// together lie within the known files, and indeed make them up.
pub proof fn lemma_usage_within_known_files(js: ImportCollector, style: StyleImportCollector)
    requires
        imported_files(js, style).subset_of(known_files(js, style)),
    ensures
        (unused_files(js, style) + imported_files(js, style)).subset_of(known_files(js, style)),
        unused_files(js, style) + imported_files(js, style) == known_files(js, style),
{
    assert(unused_files(js, style) + imported_files(js, style) =~= known_files(js, style));
}

} // verus!
