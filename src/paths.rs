//! Lexical path operations on project-relative paths written with `/`.

use vstd::prelude::*;
use crate::text::{
    concat, has_prefix, last_char_index, last_index, starts_with, str_eq, substring,
};

verus! {

/// Why a specifier could not be turned into a project file or a package name.
#[derive(Debug, Clone, Copy, PartialEq, Eq, Structural)]
pub enum UnresolvedReason {
    /// The importing file's path has no directory part to resolve against.
    NoParentDirectory,
    /// An absolute specifier that does not lie under the project root.
    OutsideProjectRoot,
    /// A stylesheet reference into code that the project does not own.
    NonProjectReference,
    /// The target lies inside an installed package folder.
    InsideNodeModules,
    /// No file of the project matches the path under any suffix tried.
    NoMatchingFile,
}

/// What lexical cleaning makes of a path.
pub uninterp spec fn cleaned_path(p: Seq<char>) -> Seq<char>;

/// A relative path made of plain segments only: not empty, no leading,
/// trailing or doubled `/`, and no `.` or `..` segment.
pub open spec fn is_plain_path(p: Seq<char>) -> bool {
    &&& p.len() > 0
    &&& p[0] != '/'
    &&& p.last() != '/'
    &&& forall|i: int| 0 <= i < p.len() - 1 && #[trigger] p[i] == '/' ==> p[i + 1] != '/'
    &&& forall|i: int|
        0 <= i < p.len() && #[trigger] p[i] == '.' && (i == 0 || p[i - 1] == '/') ==> {
            &&& !(i + 1 == p.len() || p[i + 1] == '/')
            &&& !(i + 1 < p.len() && p[i + 1] == '.' && (i + 2 == p.len() || p[i + 2] == '/'))
        }
}

/// Relies on `path_clean::clean`: lexical normalisation of a path (repeated
/// slashes, `.` and `..` segments), which depends on the path's text alone.
/// It splits the path into components and joins them again, so a path of
/// plain segments comes back as it was. The components of a `&str` are text,
/// so the lossy conversion loses nothing.
#[verifier::external_body]
fn clean_path(p: &str) -> (r: String)
    ensures
        r@ == cleaned_path(p@),
        is_plain_path(p@) ==> r@ == p@,
{
    path_clean::clean(p).to_string_lossy().into_owned()
}

/// The directory part of a path: what stands before its last `/`, empty for
/// a bare file name, and none for the empty path.
pub open spec fn parent_dir(p: Seq<char>) -> Option<Seq<char>> {
    if p.len() == 0 {
        None
    } else if last_index(p, '/') >= 0 {
        Some(p.subrange(0, last_index(p, '/')))
    } else {
        Some(Seq::empty())
    }
}

/// `r` appended to the directory `d`.
pub open spec fn join_path(d: Seq<char>, r: Seq<char>) -> Seq<char> {
    if d.len() == 0 {
        r
    } else {
        d + "/"@ + r
    }
}

/// The canonical path that `r` names, read from the directory of the file
/// `cur`.
pub open spec fn relative_target(cur: Seq<char>, r: Seq<char>) -> Result<
    Seq<char>,
    UnresolvedReason,
> {
    match parent_dir(cur) {
        None => Err(UnresolvedReason::NoParentDirectory),
        Some(d) => Ok(cleaned_path(join_path(d, r))),
    }
}

/// `root` without one trailing `/`.
pub open spec fn root_base(root: Seq<char>) -> Seq<char> {
    if root.len() > 0 && root.last() == '/' {
        root.drop_last()
    } else {
        root
    }
}

/// `s` re-expressed from the project root: what follows the root and the
/// `/` after it, before cleaning. An empty root leaves `s` as it is.
pub open spec fn strip_root(s: Seq<char>, root: Seq<char>) -> Result<
    Seq<char>,
    UnresolvedReason,
> {
    let base = root_base(root);
    if base.len() == 0 {
        Ok(s)
    } else if s == base {
        Ok(Seq::empty())
    } else if has_prefix(s, base.push('/')) {
        Ok(s.subrange(base.len() + 1 as int, s.len() as int))
    } else {
        Err(UnresolvedReason::OutsideProjectRoot)
    }
}

/// The project path that an alias specifier `@/x` stands for: `src/x`,
/// cleaned.
pub open spec fn alias_target(s: Seq<char>) -> Seq<char> {
    cleaned_path("src/"@ + s.subrange("@/"@.len() as int, s.len() as int))
}

/// The directory part of `p`, as `parent_dir` says.
pub fn parent_of(p: &str) -> (r: Option<String>)
    ensures
        r matches Some(d) ==> parent_dir(p@) == Some(d@),
        r is None ==> parent_dir(p@) is None,
{
    if p.unicode_len() == 0 {
        return None;
    }
    match last_char_index(p, '/') {
        Some(i) => Some(substring(p, 0, i)),
        None => {
            let e = String::new();
            assert(e@ =~= Seq::<char>::empty());
            Some(e)
        },
    }
}

/// `r` appended to the directory `d`, as `join_path` says.
pub fn join(d: &str, r: &str) -> (j: String)
    ensures
        j@ == join_path(d@, r@),
{
    if d.unicode_len() == 0 {
        String::from_str(r)
    } else {
        let with_slash = concat(d, "/");
        concat(with_slash.as_str(), r)
    }
}

/// The canonical path that `r` names from the directory of the file `cur`.
pub fn relative_to(cur: &str, r: &str) -> (t: Result<String, UnresolvedReason>)
    ensures
        match t {
            Ok(s) => relative_target(cur@, r@) == Ok::<Seq<char>, UnresolvedReason>(s@),
            Err(e) => relative_target(cur@, r@) == Err::<Seq<char>, UnresolvedReason>(e),
        },
{
    match parent_of(cur) {
        None => Err(UnresolvedReason::NoParentDirectory),
        Some(d) => {
            let joined = join(d.as_str(), r);
            Ok(clean_path(joined.as_str()))
        },
    }
}

/// `s` re-expressed from the project root, as `strip_root` says.
pub fn strip_project_root(s: &str, root: &str) -> (t: Result<String, UnresolvedReason>)
    ensures
        match t {
            Ok(v) => strip_root(s@, root@) == Ok::<Seq<char>, UnresolvedReason>(v@),
            Err(e) => strip_root(s@, root@) == Err::<Seq<char>, UnresolvedReason>(e),
        },
{
    let rl = root.unicode_len();
    let base = if rl > 0 && root.get_char(rl - 1) == '/' {
        substring(root, 0, rl - 1)
    } else {
        String::from_str(root)
    };
    assert(base@ =~= root_base(root@));
    let bl = base.unicode_len();
    if bl == 0 {
        return Ok(String::from_str(s));
    }
    if str_eq(s, base.as_str()) {
        let e = String::new();
        assert(e@ =~= Seq::<char>::empty());
        return Ok(e);
    }
    let with_slash = concat(base.as_str(), "/");
    proof {
        reveal_strlit("/");
        assert(with_slash@ =~= base@.push('/'));
    }
    if starts_with(s, with_slash.as_str()) {
        let sl = s.unicode_len();
        assert(with_slash@.len() == bl + 1);
        Ok(substring(s, bl + 1, sl))
    } else {
        Err(UnresolvedReason::OutsideProjectRoot)
    }
}

/// The project path that an alias specifier `@/x` stands for.
pub fn alias_to_project(s: &str) -> (t: String)
    requires
        has_prefix(s@, "@/"@),
    ensures
        t@ == alias_target(s@),
{
    proof {
        reveal_strlit("@/");
    }
    let rest = substring(s, 2, s.unicode_len());
    let joined = concat("src/", rest.as_str());
    clean_path(joined.as_str())
}

/// `s` re-expressed from the project root and cleaned.
pub fn strip_and_clean(s: &str, root: &str) -> (t: Result<String, UnresolvedReason>)
    ensures
        match t {
            Ok(v) => strip_root(s@, root@) matches Ok(u) && v@ == cleaned_path(u),
            Err(e) => strip_root(s@, root@) == Err::<Seq<char>, UnresolvedReason>(e),
        },
{
    match strip_project_root(s, root) {
        Ok(u) => Ok(clean_path(u.as_str())),
        Err(e) => Err(e),
    }
}

} // verus!
