//! Stylesheets: the references that `@import` and `url(...)` make, and the
//! rules that turn them into project paths.

use vstd::prelude::*;
use crate::paths::{alias_target, alias_to_project, relative_target, relative_to, UnresolvedReason};
use crate::text::{
    contains, contains_char, distinct_views, has_infix, has_prefix, insert_string, starts_with,
    substring, view_set,
};

verus! {

/// The pattern of a stylesheet reference: group 1 is the argument of an
/// `@import`, group 2 that of a `url(...)`.
pub const IMPORT_PATTERN: &'static str =
    r#"@import\s+(?:url\()?['"]?([^'")]+)['"]?\)?|url\(\s*['"]?([^'")]+)['"]?\s*\)"#;

/// The pattern of a path that begins with a scheme (`https:`, `data:`) or
/// names its own host (`//cdn`).
pub const SCHEME_PATTERN: &'static str = r#"^([A-Za-z][A-Za-z0-9+.-]*:|//)"#;

/// The capture groups of each successive match of `pattern` in `text`, or
/// none when `pattern` is not a valid expression.
pub uninterp spec fn regex_capture_groups(pattern: Seq<char>, text: Seq<char>) -> Option<
    Seq<Seq<Option<Seq<char>>>>,
>;

/// A character with the Unicode `White_Space` property.
pub open spec fn is_white_space(c: char) -> bool {
    ||| c == '\u{9}' || c == '\u{A}' || c == '\u{B}' || c == '\u{C}' || c == '\u{D}'
    ||| c == '\u{20}' || c == '\u{85}' || c == '\u{A0}' || c == '\u{1680}'
    ||| c == '\u{2000}' || c == '\u{2001}' || c == '\u{2002}' || c == '\u{2003}'
    ||| c == '\u{2004}' || c == '\u{2005}' || c == '\u{2006}' || c == '\u{2007}'
    ||| c == '\u{2008}' || c == '\u{2009}' || c == '\u{200A}'
    ||| c == '\u{2028}' || c == '\u{2029}' || c == '\u{202F}' || c == '\u{205F}'
    ||| c == '\u{3000}'
}

/// `r` is `s[i..j]`, where everything before `i` and from `j` on is white
/// space, and a non-empty `r` neither starts nor ends with white space.
pub open spec fn trim_bounds(s: Seq<char>, r: Seq<char>, i: int, j: int) -> bool {
    &&& 0 <= i <= j <= s.len()
    &&& r == s.subrange(i, j)
    &&& forall|k: int| 0 <= k < i ==> is_white_space(#[trigger] s[k])
    &&& forall|k: int| j <= k < s.len() ==> is_white_space(#[trigger] s[k])
    &&& i < j ==> !is_white_space(s[i]) && !is_white_space(s[j - 1])
}

/// `r` is `s` with leading and trailing white space removed.
pub open spec fn is_trim_of(s: Seq<char>, r: Seq<char>) -> bool {
    exists|i: int, j: int| trim_bounds(s, r, i, j)
}

/// `s` with leading and trailing white space removed.
pub open spec fn trim_white_space(s: Seq<char>) -> Seq<char> {
    choose|r: Seq<char>| is_trim_of(s, r)
}

/// Every text has bounds past its leading and before its trailing white
/// space.
pub proof fn lemma_trim_exists(s: Seq<char>) -> (b: (int, int))
    ensures
        trim_bounds(s, s.subrange(b.0, b.1), b.0, b.1),
    decreases s.len(),
{
    if s.len() == 0 {
        (0, 0)
    } else {
        let t = s.drop_last();
        let (i, j) = lemma_trim_exists(t);
        let n = s.len() as int;
        assert(forall|k: int| 0 <= k < t.len() ==> t[k] == s[k]);
        if is_white_space(s.last()) {
            if i < j {
                assert(s.subrange(i, j) =~= t.subrange(i, j));
                (i, j)
            } else {
                (n, n)
            }
        } else if i < j {
            (i, n)
        } else {
            (n - 1, n)
        }
    }
}

/// Removing white space from both ends has one outcome.
pub proof fn lemma_trim_unique(s: Seq<char>, r1: Seq<char>, r2: Seq<char>)
    requires
        is_trim_of(s, r1),
        is_trim_of(s, r2),
    ensures
        r1 == r2,
{
    let (i1, j1) = choose|i: int, j: int| trim_bounds(s, r1, i, j);
    let (i2, j2) = choose|i: int, j: int| trim_bounds(s, r2, i, j);
    assert(trim_bounds(s, r1, i1, j1));
    assert(trim_bounds(s, r2, i2, j2));
    if i1 < j1 && i2 < j2 {
        if i1 < i2 {
            assert(is_white_space(s[i1]));
        } else if i2 < i1 {
            assert(is_white_space(s[i2]));
        }
        if j1 < j2 {
            assert(is_white_space(s[j2 - 1]));
        } else if j2 < j1 {
            assert(is_white_space(s[j1 - 1]));
        }
    } else if i1 < j1 {
        if i1 < i2 {
            assert(is_white_space(s[i1]));
        } else {
            assert(is_white_space(s[i1]));
        }
    } else if i2 < j2 {
        assert(is_white_space(s[i2]));
    } else {
        assert(r1 =~= r2);
    }
}

/// The view of one match's capture groups.
pub open spec fn groups_view(m: Vec<Option<String>>) -> Seq<Option<Seq<char>>> {
    m@.map_values(
        |g: Option<String>|
            match g {
                Some(s) => Some(s@),
                None => None,
            },
    )
}

/// Relies on `regex::Regex::new` and `Regex::captures_iter` with
/// `Captures::iter`: compiles `pattern`, then lists for each successive
/// non-overlapping match in `text` its groups in order, group 0 being the
/// whole match and a group that took no part being `None`. What is listed
/// depends on the two texts alone.
#[verifier::external_body]
fn capture_groups(pattern: &str, text: &str) -> (r: Option<Vec<Vec<Option<String>>>>)
    ensures
        match r {
            Some(ms) => regex_capture_groups(pattern@, text@) == Some(
                ms@.map_values(|m: Vec<Option<String>>| groups_view(m)),
            ),
            None => regex_capture_groups(pattern@, text@) is None,
        },
{
    let re = regex::Regex::new(pattern).ok()?;
    Some(
        re.captures_iter(text).map(
            |c| c.iter().map(|g| g.map(|m| m.as_str().to_string())).collect(),
        ).collect(),
    )
}

/// Relies on `str::trim`: removes leading and trailing white space, as the
/// Unicode `White_Space` property defines it.
#[verifier::external_body]
fn trim_text(s: &str) -> (r: String)
    ensures
        is_trim_of(s@, r@),
{
    s.trim().to_string()
}

/// `i` is where the path part of `s` ends: at its first `?` or `#`, or at
/// its end.
pub open spec fn is_query_start(s: Seq<char>, i: int) -> bool {
    &&& 0 <= i <= s.len()
    &&& (i == s.len() || s[i] == '?' || s[i] == '#')
    &&& forall|j: int| 0 <= j < i ==> s[j] != '?' && s[j] != '#'
}

/// `s` without its query (`?...`) or fragment (`#...`).
pub open spec fn before_query(s: Seq<char>) -> Seq<char> {
    if exists|i: int| is_query_start(s, i) {
        s.subrange(0, choose|i: int| is_query_start(s, i))
    } else {
        s
    }
}

/// The argument of a matched reference: group 1, else group 2.
pub open spec fn reference_argument(m: Seq<Option<Seq<char>>>) -> Option<Seq<char>> {
    if m.len() > 1 && m[1] is Some {
        m[1]
    } else if m.len() > 2 && m[2] is Some {
        m[2]
    } else {
        None
    }
}

/// The path begins with a scheme or names its own host.
pub open spec fn names_scheme(path: Seq<char>) -> bool {
    match regex_capture_groups(SCHEME_PATTERN@, path) {
        Some(ms) => ms.len() > 0,
        None => false,
    }
}

/// The project reference that one matched argument yields: none for a
/// templated argument (one holding `{`, `$` or `#`), or for one that begins
/// with a scheme, `//` or `/`; else the argument without its query and
/// white space.
pub open spec fn kept_reference(raw: Seq<char>) -> Option<Seq<char>> {
    if raw.contains('{') || raw.contains('$') || raw.contains('#') {
        None
    } else {
        let path = trim_white_space(before_query(raw));
        if names_scheme(path) || has_prefix(path, "/"@) {
            None
        } else {
            Some(path)
        }
    }
}

/// The references kept from a list of matches, in order.
pub open spec fn kept_references(ms: Seq<Seq<Option<Seq<char>>>>) -> Seq<Seq<char>>
    decreases ms.len(),
{
    if ms.len() == 0 {
        Seq::empty()
    } else {
        let rest = kept_references(ms.drop_last());
        match reference_argument(ms.last()) {
            Some(raw) => match kept_reference(raw) {
                Some(p) => rest.push(p),
                None => rest,
            },
            None => rest,
        }
    }
}

/// The references that stylesheet text makes, in order of appearance.
pub open spec fn style_references(code: Seq<char>) -> Seq<Seq<char>> {
    match regex_capture_groups(IMPORT_PATTERN@, code) {
        Some(ms) => kept_references(ms),
        None => Seq::empty(),
    }
}

fn cut_query(s: &str) -> (r: String)
    ensures
        r@ == before_query(s@),
{
    let n = s.unicode_len();
    let mut i: usize = 0;
    while i < n && s.get_char(i) != '?' && s.get_char(i) != '#'
        invariant
            n == s@.len(),
            i <= n,
            forall|j: int| 0 <= j < i ==> s@[j] != '?' && s@[j] != '#',
        decreases n - i,
    {
        i += 1;
    }
    proof {
        assert(is_query_start(s@, i as int));
        let k = choose|k: int| is_query_start(s@, k);
        assert(is_query_start(s@, k));
        if k < i as int {
            assert(s@[k] != '?' && s@[k] != '#');
        } else if k > i as int {
            assert(s@[i as int] != '?' && s@[i as int] != '#');
        }
    }
    substring(s, 0, i)
}

fn names_scheme_exec(path: &str) -> (r: bool)
    ensures
        r == names_scheme(path@),
{
    match capture_groups(SCHEME_PATTERN, path) {
        Some(ms) => ms.len() > 0,
        None => false,
    }
}

fn kept_reference_exec(raw: &str) -> (r: Option<String>)
    ensures
        match r {
            Some(p) => kept_reference(raw@) == Some(p@),
            None => kept_reference(raw@) is None,
        },
{
    if contains_char(raw, '{') || contains_char(raw, '$') || contains_char(raw, '#') {
        return None;
    }
    let cut = cut_query(raw);
    let path = trim_text(cut.as_str());
    proof {
        lemma_trim_unique(cut@, path@, trim_white_space(cut@));
    }
    if names_scheme_exec(path.as_str()) || starts_with(path.as_str(), "/") {
        None
    } else {
        Some(path)
    }
}

/// The references kept from the capture groups of successive matches of
/// `IMPORT_PATTERN`, in order.
pub fn references_from_matches(ms: &Vec<Vec<Option<String>>>) -> (r: Vec<String>)
    ensures
        r@.map_values(|x: String| x@) == kept_references(
            ms@.map_values(|m: Vec<Option<String>>| groups_view(m)),
        ),
{
    let mut result: Vec<String> = Vec::new();
    let ghost mv = ms@.map_values(|m: Vec<Option<String>>| groups_view(m));
    let mut i: usize = 0;
    assert(mv.subrange(0, 0) =~= Seq::<Seq<Option<Seq<char>>>>::empty());
    assert(result@.map_values(|x: String| x@) =~= kept_references(mv.subrange(0, 0)));
    while i < ms.len()
        invariant
            i <= ms@.len(),
            mv == ms@.map_values(|m: Vec<Option<String>>| groups_view(m)),
            result@.map_values(|x: String| x@) == kept_references(mv.subrange(0, i as int)),
        decreases ms.len() - i,
    {
        assert(mv.subrange(0, i + 1).drop_last() =~= mv.subrange(0, i as int));
        let m = &ms[i];
        let ghost gv = groups_view(*m);
        assert(gv == mv[i as int]);
        let raw: Option<&String> = if m.len() > 1 && m[1].is_some() {
            m[1].as_ref()
        } else if m.len() > 2 && m[2].is_some() {
            m[2].as_ref()
        } else {
            None
        };
        assert(match raw {
            Some(s) => reference_argument(gv) == Some(s@),
            None => reference_argument(gv) is None,
        });
        if let Some(raw) = raw {
            if let Some(p) = kept_reference_exec(raw.as_str()) {
                result.push(p);
            }
        }
        assert(result@.map_values(|x: String| x@) =~= kept_references(mv.subrange(0, i + 1)));
        i += 1;
    }
    assert(mv.subrange(0, ms@.len() as int) =~= mv);
    result
}

/// The references that stylesheet text makes through `@import` and
/// `url(...)`, in order of appearance, duplicates kept.
pub fn get_extract_style_imports(code: &str) -> (r: Vec<String>)
    ensures
        r@.map_values(|x: String| x@) == style_references(code@),
{
    match capture_groups(IMPORT_PATTERN, code) {
        Some(ms) => references_from_matches(&ms),
        None => {
            let result: Vec<String> = Vec::new();
            assert(result@.map_values(|x: String| x@) =~= Seq::<Seq<char>>::empty());
            result
        },
    }
}

/// A kept reference is a piece of the matched argument, so it holds none of
/// `{`, `$` and `#`.
pub proof fn lemma_kept_reference_is_plain(raw: Seq<char>)
    ensures
        kept_reference(raw) matches Some(p) ==> !p.contains('{') && !p.contains('$')
            && !p.contains('#'),
{
    if let Some(p) = kept_reference(raw) {
        let q = before_query(raw);
        let mut n: int = raw.len() as int;
        if exists|i: int| is_query_start(raw, i) {
            n = choose|i: int| is_query_start(raw, i);
        }
        assert(q == raw.subrange(0, n));
        let b = lemma_trim_exists(q);
        assert(trim_bounds(q, q.subrange(b.0, b.1), b.0, b.1));
        assert(is_trim_of(q, q.subrange(b.0, b.1)));
        assert(is_trim_of(q, trim_white_space(q)));
        let (i, j) = choose|i: int, j: int| trim_bounds(q, p, i, j);
        assert(trim_bounds(q, p, i, j));
        assert forall|k: int| 0 <= k < p.len() implies p[k] != '{' && p[k] != '$' && p[k]
            != '#' by {
            assert(p[k] == raw[i + k]);
        }
    }
}

/// The path that a stylesheet reference names, before any suffix is
/// inferred: an alias `@/x` or `~@/x` is `src/x`; another reference that
/// starts with `~` points into code the project does not own; anything else
/// is read from the stylesheet's directory.
pub open spec fn style_target(cur: Seq<char>, imp: Seq<char>) -> Result<
    Seq<char>,
    UnresolvedReason,
> {
    if has_prefix(imp, "@/"@) {
        Ok(alias_target(imp))
    } else if has_prefix(imp, "~@/"@) {
        Ok(alias_target(imp.drop_first()))
    } else if has_prefix(imp, "~"@) {
        Err(UnresolvedReason::NonProjectReference)
    } else {
        relative_target(cur, imp)
    }
}

/// The path that a stylesheet reference names, before any suffix is inferred.
pub fn path_to_real_path(current_file_path: &str, import_path: &str) -> (r: Result<
    String,
    UnresolvedReason,
>)
    ensures
        match r {
            Ok(s) => style_target(current_file_path@, import_path@) == Ok::<
                Seq<char>,
                UnresolvedReason,
            >(s@),
            Err(e) => style_target(current_file_path@, import_path@) == Err::<
                Seq<char>,
                UnresolvedReason,
            >(e),
        },
{
    if starts_with(import_path, "@/") {
        Ok(alias_to_project(import_path))
    } else if starts_with(import_path, "~@/") {
        proof {
            reveal_strlit("~@/");
            reveal_strlit("@/");
        }
        let n = import_path.unicode_len();
        let rest = substring(import_path, 1, n);
        proof {
            let pre = import_path@.subrange(0, 3);
            assert(pre[1] == import_path@[1] && pre[2] == import_path@[2]);
            assert(rest@ =~= import_path@.drop_first());
            assert(rest@.subrange(0, 2) =~= "@/"@);
        }
        Ok(alias_to_project(rest.as_str()))
    } else if starts_with(import_path, "~") {
        Err(UnresolvedReason::NonProjectReference)
    } else {
        relative_to(current_file_path, import_path)
    }
}

/// The project paths that the references `refs[0..n]` of the stylesheet
/// `cur` add: those that resolve, outside installed packages.
pub open spec fn style_paths(cur: Seq<char>, refs: Seq<Seq<char>>, n: int) -> Set<Seq<char>> {
    Set::new(
        |p: Seq<char>|
            exists|j: int|
                0 <= j < n && style_target(cur, refs[j]) == Ok::<Seq<char>, UnresolvedReason>(p)
                    && !has_infix(p, "node_modules"@),
    )
}

/// Gathers the project paths that the stylesheets of a project reference,
/// with the stylesheets seen so far.
#[derive(Debug, Clone)]
pub struct StyleImportCollector {
    /// Project paths referenced so far, before suffix inference.
    pub imports: Vec<String>,
    /// The stylesheet being read, which references are read from.
    pub current_file_path: String,
    /// Every stylesheet found by the scan.
    pub all_files: Vec<String>,
}

impl Default for StyleImportCollector {
    fn default() -> (r: Self)
        ensures
            r.imports@.len() == 0,
            r.current_file_path@.len() == 0,
            r.all_files@.len() == 0,
            r.well_formed(),
    {
        StyleImportCollector {
            imports: Vec::new(),
            current_file_path: String::new(),
            all_files: Vec::new(),
        }
    }
}

impl StyleImportCollector {
    /// Each path is recorded once.
    pub open spec fn well_formed(&self) -> bool {
        distinct_views(self.imports@)
    }

    /// Records the project paths that the stylesheet text `code`, read as
    /// the file `current_file_path`, references; what resolves to nothing is
    /// left out.
    pub fn insert_from_code(&mut self, code: &str)
        ensures
            final(self).current_file_path@ == old(self).current_file_path@,
            final(self).all_files@ == old(self).all_files@,
            old(self).well_formed() ==> final(self).well_formed(),
            view_set(final(self).imports@) == view_set(old(self).imports@) + style_paths(
                old(self).current_file_path@,
                style_references(code@),
                style_references(code@).len() as int,
            ),
    {
        let refs = get_extract_style_imports(code);
        let ghost cur = self.current_file_path@;
        let ghost rv = refs@.map_values(|x: String| x@);
        let mut i: usize = 0;
        assert(style_paths(cur, rv, 0) =~= Set::empty());
        assert(view_set(self.imports@) =~= view_set(old(self).imports@) + Set::empty());
        while i < refs.len()
            invariant
                i <= refs@.len(),
                rv == refs@.map_values(|x: String| x@),
                cur == old(self).current_file_path@,
                self.current_file_path@ == cur,
                self.all_files@ == old(self).all_files@,
                old(self).well_formed() ==> self.well_formed(),
                view_set(self.imports@) == view_set(old(self).imports@) + style_paths(
                    cur,
                    rv,
                    i as int,
                ),
            decreases refs.len() - i,
        {
            assert(rv[i as int] == refs@[i as int]@);
            let real_path = path_to_real_path(self.current_file_path.as_str(), refs[i].as_str());
            match real_path {
                Ok(s) if contains(s.as_str(), "node_modules") => {
                    assert(style_paths(cur, rv, i + 1) =~= style_paths(cur, rv, i as int));
                },
                Ok(s) => {
                    insert_string(&mut self.imports, s);
                    assert(style_paths(cur, rv, i + 1) =~= style_paths(cur, rv, i as int).insert(
                        s@,
                    ));
                },
                Err(_) => {
                    assert(style_paths(cur, rv, i + 1) =~= style_paths(cur, rv, i as int));
                },
            }
            i += 1;
        }
    }
}

} // verus!
