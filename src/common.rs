//! Shared definitions: the recognised file types and the project's
//! configuration records.

use vstd::prelude::*;
use crate::text::{
    distinct_views, has_prefix, insert_string, last_char_index, last_index, str_eq,
    substring, view_set,
};
use ignore::gitignore::{Gitignore, GitignoreBuilder};

verus! {

/// Name of the folder that deleted files are moved to.
pub const BACK_UP_FOLDER: &'static str = "minipp-delete-files";

/// The file extensions that the analysis recognises, without the dot.
pub const SUPPORT_FILE_TYPES: [&'static str; 18] = [
    "ts", "tsx", "less", "scss", "css", "png", "jpg", "jpeg", "gif", "svg", "mp3", "mp4", "wav",
    "woff", "woff2", "ttf", "eot", "json",
];

/// The same extensions, each with its leading dot.
pub const SUPPORT_FILE_TYPES_WITH_DOT: [&'static str; 18] = [
    ".ts", ".tsx", ".less", ".scss", ".css", ".png", ".jpg", ".jpeg", ".gif", ".svg", ".mp3",
    ".mp4", ".wav", ".woff", ".woff2", ".ttf", ".eot", ".json",
];

/// Where the path `p[0..i]` ends once trailing `/` and `/.` are passed
/// over, as path components do.
pub open spec fn tail_end(p: Seq<char>, i: int) -> int
    decreases i,
{
    if i <= 0 || i > p.len() {
        if i <= 0 {
            0
        } else {
            p.len() as int
        }
    } else if p[i - 1] == '/' {
        tail_end(p, i - 1)
    } else if i >= 2 && p[i - 1] == '.' && p[i - 2] == '/' {
        tail_end(p, i - 1)
    } else {
        i
    }
}

/// The path without trailing `/` and `/.`.
pub open spec fn trimmed_path(p: Seq<char>) -> Seq<char> {
    p.subrange(0, tail_end(p, p.len() as int))
}

/// The last component of a path: what follows the last `/` once trailing
/// `/` and `/.` are passed over.
pub open spec fn file_name(p: Seq<char>) -> Seq<char> {
    let t = trimmed_path(p);
    t.subrange(last_index(t, '/') + 1, t.len() as int)
}

/// The extension of a path: what follows the last `.` of its file name,
/// unless that dot opens the name (a hidden file) or there is none.
pub open spec fn extension(p: Seq<char>) -> Option<Seq<char>> {
    let name = file_name(p);
    let d = last_index(name, '.');
    if d >= 1 {
        Some(name.subrange(d + 1, name.len() as int))
    } else {
        None
    }
}

/// `e` is one of the recognised extensions.
pub open spec fn is_supported_extension(e: Seq<char>) -> bool {
    ||| e == "ts"@
    ||| e == "tsx"@
    ||| e == "less"@
    ||| e == "scss"@
    ||| e == "css"@
    ||| e == "png"@
    ||| e == "jpg"@
    ||| e == "jpeg"@
    ||| e == "gif"@
    ||| e == "svg"@
    ||| e == "mp3"@
    ||| e == "mp4"@
    ||| e == "wav"@
    ||| e == "woff"@
    ||| e == "woff2"@
    ||| e == "ttf"@
    ||| e == "eot"@
    ||| e == "json"@
}

/// The path ends in a recognised extension.
pub open spec fn has_supported_extension(p: Seq<char>) -> bool {
    match extension(p) {
        Some(e) => is_supported_extension(e),
        None => false,
    }
}

fn is_supported_extension_exec(e: &str) -> (r: bool)
    ensures
        r == is_supported_extension(e@),
{
    str_eq(e, "ts") || str_eq(e, "tsx") || str_eq(e, "less") || str_eq(e, "scss") || str_eq(
        e,
        "css",
    ) || str_eq(e, "png") || str_eq(e, "jpg") || str_eq(e, "jpeg") || str_eq(e, "gif") || str_eq(
        e,
        "svg",
    ) || str_eq(e, "mp3") || str_eq(e, "mp4") || str_eq(e, "wav") || str_eq(e, "woff") || str_eq(
        e,
        "woff2",
    ) || str_eq(e, "ttf") || str_eq(e, "eot") || str_eq(e, "json")
}

/// Tells whether the path ends in one of the recognised extensions.
pub fn has_file_extension(file_path: &str) -> (r: bool)
    ensures
        r == has_supported_extension(file_path@),
{
    let n = file_path.unicode_len();
    let mut end: usize = n;
    while end > 0 && (file_path.get_char(end - 1) == '/' || (end >= 2 && file_path.get_char(
        end - 1,
    ) == '.' && file_path.get_char(end - 2) == '/'))
        invariant
            n == file_path@.len(),
            0 <= end <= n,
            tail_end(file_path@, end as int) == tail_end(file_path@, n as int),
        decreases end,
    {
        end -= 1;
    }
    let trimmed = substring(file_path, 0, end);
    assert(trimmed@ == trimmed_path(file_path@));
    let len = trimmed.unicode_len();
    let start = match last_char_index(trimmed.as_str(), '/') {
        Some(i) => i + 1,
        None => 0,
    };
    let name = substring(trimmed.as_str(), start, len);
    assert(name@ == file_name(file_path@));
    match last_char_index(name.as_str(), '.') {
        Some(d) => {
            if d >= 1 {
                let ext = substring(name.as_str(), d + 1, name.unicode_len());
                is_supported_extension_exec(ext.as_str())
            } else {
                false
            }
        },
        None => false,
    }
}

/// The package names that a `package.json` declares, as name and version
/// pairs, for runtime and for development.
#[derive(Debug, Default, Clone)]
pub struct ProjectDependencies {
    /// The `dependencies` table.
    pub dependencies: Option<Vec<(String, String)>>,
    /// The `devDependencies` table.
    pub dev_dependencies: Option<Vec<(String, String)>>,
}

/// No name occurs twice in a list of name and version pairs.
pub open spec fn unique_names(m: Option<Vec<(String, String)>>) -> bool {
    match m {
        Some(v) => forall|i: int, j: int|
            0 <= i < v@.len() && 0 <= j < v@.len() && i != j ==> v@[i].0@ != v@[j].0@,
        None => true,
    }
}

/// The names of a list of name and version pairs; none for an absent list.
pub open spec fn declared_names(m: Option<Vec<(String, String)>>) -> Set<Seq<char>> {
    match m {
        Some(v) => Set::new(|k: Seq<char>| exists|i: int| 0 <= i < v@.len() && v@[i].0@ == k),
        None => Set::empty(),
    }
}

fn insert_names(set: &mut Vec<String>, m: &Vec<(String, String)>)
    ensures
        view_set(final(set)@) == view_set(old(set)@) + declared_names(Some(*m)),
        distinct_views(old(set)@) ==> distinct_views(final(set)@),
{
    let mut i: usize = 0;
    while i < m.len()
        invariant
            i <= m@.len(),
            view_set(set@) == view_set(old(set)@) + Set::new(
                |k: Seq<char>| exists|j: int| 0 <= j < i && m@[j].0@ == k,
            ),
            distinct_views(old(set)@) ==> distinct_views(set@),
        decreases m.len() - i,
    {
        let name = m[i].0.clone();
        insert_string(set, name);
        assert(view_set(set@) =~= view_set(old(set)@) + Set::new(
            |k: Seq<char>| exists|j: int| 0 <= j < i + 1 && m@[j].0@ == k,
        )) by {
            assert forall|k: Seq<char>|
                Set::new(|k: Seq<char>| exists|j: int| 0 <= j < i + 1 && m@[j].0@ == k).contains(
                    k,
                ) implies view_set(set@).contains(k) by {
                let j = choose|j: int| 0 <= j < i + 1 && m@[j].0@ == k;
                if j < i {
                    assert(Set::new(|k: Seq<char>| exists|j: int| 0 <= j < i && m@[j].0@ == k).contains(k));
                }
            }
        }
        i += 1;
    }
    assert(Set::new(|k: Seq<char>| exists|j: int| 0 <= j < i && m@[j].0@ == k) =~= declared_names(Some(*m)));
}

impl ProjectDependencies {
    /// Each table names each package once, as a JSON object does.
    pub open spec fn well_formed(&self) -> bool {
        unique_names(self.dependencies) && unique_names(self.dev_dependencies)
    }

    /// Every declared package name, runtime and development alike, once each.
    pub fn all_dependencies(&self) -> (r: Vec<String>)
        ensures
            view_set(r@) == declared_names(self.dependencies) + declared_names(
                self.dev_dependencies,
            ),
            distinct_views(r@),
    {
        let mut set: Vec<String> = Vec::new();
        assert(view_set(set@) =~= Set::empty());
        if let Some(map) = &self.dependencies {
            insert_names(&mut set, map);
        }
        if let Some(map) = &self.dev_dependencies {
            insert_names(&mut set, map);
        }
        assert(view_set(set@) =~= declared_names(self.dependencies) + declared_names(
            self.dev_dependencies,
        ));
        set
    }
}

/// The user's settings, read from the project's configuration file.
#[derive(Debug, Default, Clone, PartialEq)]
pub struct MinippConfig {
    /// Whether unused files are to be moved away.
    pub need_del: Option<bool>,
    /// Extensions whose files are left out of the report.
    pub ignore_ext: Option<Vec<String>>,
    /// Gitignore-style patterns of files left out of the report.
    pub ignore_files: Option<Vec<String>>,
    /// Patterns of package names left out of the report.
    pub ignore_dependencies: Option<Vec<String>>,
}

#[verifier::external_type_specification]
#[verifier::external_body]
pub struct ExGitignoreBuilder(GitignoreBuilder);

#[verifier::external_type_specification]
#[verifier::external_body]
pub struct ExGitignore(Gitignore);

#[verifier::external_type_specification]
#[verifier::external_body]
pub struct ExIgnoreError(ignore::Error);

/// Whether a builder made by `GitignoreBuilder::new("")`, with its default
/// settings (case-sensitive, unclosed classes allowed), accepts the pattern
/// line.
pub uninterp spec fn gitignore_line_parses(line: Seq<char>) -> bool;

/// Whether the globs of the lines, each accepted by such a builder, compile
/// together into one matcher.
pub uninterp spec fn gitignore_lines_compile(lines: Seq<Seq<char>>) -> bool;

/// Whether the matcher that such a builder makes from the lines, added in
/// order, ignores the path, taken as a file, or one of its parent
/// directories.
pub uninterp spec fn lines_ignore(lines: Seq<Seq<char>>, path: Seq<char>) -> bool;

/// A gitignore builder rooted at the current directory with its default
/// settings, and the lines it has accepted so far.
pub struct IgnoreBuilder {
    builder: GitignoreBuilder,
    lines: Ghost<Seq<Seq<char>>>,
}

/// A gitignore matcher made by an `IgnoreBuilder`, and the lines it was made
/// from.
pub struct IgnoreMatcher {
    matcher: Gitignore,
    lines: Ghost<Seq<Seq<char>>>,
}

/// Relies on `GitignoreBuilder::new`: a builder rooted at the current
/// directory, with default settings and no pattern yet.
#[verifier::external_body]
fn new_gitignore_builder() -> (r: GitignoreBuilder) {
    GitignoreBuilder::new("")
}

/// Relies on `GitignoreBuilder::add_line`: whether the line is accepted
/// depends on the line alone, for the default settings that every
/// `IgnoreBuilder` has. Only the outside builder changes.
#[verifier::external_body]
fn add_gitignore_line(b: &mut IgnoreBuilder, line: &str) -> (r: Result<(), ignore::Error>)
    ensures
        r is Ok <==> gitignore_line_parses(line@),
        final(b).lines() == old(b).lines(),
{
    b.builder.add_line(None, line).map(|_| ())
}

/// Relies on `GitignoreBuilder::build`: compiles the globs of the lines the
/// builder has accepted, which `lines()` records.
#[verifier::external_body]
fn build_gitignore(b: &IgnoreBuilder) -> (r: Result<Gitignore, ignore::Error>)
    ensures
        r is Ok <==> gitignore_lines_compile(b.lines()),
{
    b.builder.build()
}

/// Relies on `Gitignore::matched_path_or_any_parents` and `Match::is_ignore`
/// for a matcher built from `lines()` by a builder rooted at `""`. That call
/// strips one leading `./` and then one `/`, and asserts that what is left is
/// not rooted: it panics on `//x` and `.///x`.
#[verifier::external_body]
fn gitignore_ignores(m: &IgnoreMatcher, path: &str) -> (r: bool)
    requires
        !has_prefix(path@, "//"@),
        !has_prefix(path@, ".///"@),
    ensures
        r == lines_ignore(m.lines(), path@),
{
    m.matcher.matched_path_or_any_parents(path, false).is_ignore()
}

impl IgnoreBuilder {
    /// The lines accepted so far, in order.
    pub closed spec fn lines(&self) -> Seq<Seq<char>> {
        self.lines@
    }

    /// A builder that holds no line yet.
    pub fn new() -> (r: Self)
        ensures
            r.lines() == Seq::<Seq<char>>::empty(),
    {
        IgnoreBuilder { builder: new_gitignore_builder(), lines: Ghost(Seq::empty()) }
    }

    /// Adds a pattern line; tells whether it was accepted.
    pub fn add_line(&mut self, line: &str) -> (r: bool)
        ensures
            r == gitignore_line_parses(line@),
            final(self).lines() == if r {
                old(self).lines().push(line@)
            } else {
                old(self).lines()
            },
    {
        let ok = add_gitignore_line(self, line).is_ok();
        if ok {
            self.lines = Ghost(self.lines@.push(line@));
        }
        ok
    }

    /// A matcher for the accepted lines, unless their globs do not compile
    /// together.
    pub fn build(&self) -> (r: Option<IgnoreMatcher>)
        ensures
            r is Some <==> gitignore_lines_compile(self.lines()),
            r matches Some(m) ==> m.lines() == self.lines(),
    {
        match build_gitignore(self) {
            Ok(g) => Some(IgnoreMatcher { matcher: g, lines: Ghost(self.lines@) }),
            Err(_) => None,
        }
    }
}

impl IgnoreMatcher {
    /// The lines the matcher was made from, in order.
    pub closed spec fn lines(&self) -> Seq<Seq<char>> {
        self.lines@
    }

    /// Whether the matcher ignores the path, taken as a file, or one of its
    /// parent directories.
    pub fn ignores(&self, path: &str) -> (r: bool)
        requires
            is_matchable_path(path@),
        ensures
            r == lines_ignore(self.lines(), path@),
    {
        gitignore_ignores(self, path)
    }
}

/// Why a set of ignore patterns could not be turned into a matcher.
#[derive(Debug, Clone, PartialEq, Eq)]
pub enum IgnorePatternError {
    /// This pattern line is not a valid glob.
    InvalidPattern(String),
    /// The patterns, though each valid, could not be compiled together.
    CompileFailed,
}

/// A path that an ignore matcher can be asked about: once a leading `./`
/// is set aside, it does not start with two slashes.
pub open spec fn is_matchable_path(p: Seq<char>) -> bool {
    !has_prefix(p, "//"@) && !has_prefix(p, ".///"@)
}

/// The views of a vector of strings.
pub open spec fn views(v: Seq<String>) -> Seq<Seq<char>> {
    v.map_values(|s: String| s@)
}

/// The files that the pattern lines do not ignore, in their order.
pub open spec fn not_ignored(files: Seq<Seq<char>>, lines: Seq<Seq<char>>) -> Seq<Seq<char>>
    decreases files.len(),
{
    if files.len() == 0 {
        Seq::empty()
    } else {
        let rest = not_ignored(files.drop_last(), lines);
        if lines_ignore(lines, files.last()) {
            rest
        } else {
            rest.push(files.last())
        }
    }
}

/// Every pattern line is accepted.
pub open spec fn all_lines_parse(lines: Seq<Seq<char>>) -> bool {
    forall|i: int| 0 <= i < lines.len() ==> gitignore_line_parses(#[trigger] lines[i])
}

/// The pattern lines make a matcher: each is accepted and they compile
/// together.
pub open spec fn patterns_usable(lines: Seq<Seq<char>>) -> bool {
    all_lines_parse(lines) && gitignore_lines_compile(lines)
}

/// `e` is the error that the pattern lines give: the first line that is not
/// accepted, else a failure to compile them together.
pub open spec fn pattern_error(lines: Seq<Seq<char>>, e: IgnorePatternError) -> bool {
    match e {
        IgnorePatternError::InvalidPattern(p) => exists|i: int|
            0 <= i < lines.len() && lines[i] == p@ && !gitignore_line_parses(lines[i])
                && all_lines_parse(lines.subrange(0, i)),
        IgnorePatternError::CompileFailed => all_lines_parse(lines) && !gitignore_lines_compile(
            lines,
        ),
    }
}

/// A matcher for the pattern lines, or the first line that is not accepted.
pub fn gitignore_from_patterns(patterns: &Vec<String>) -> (r: Result<
    IgnoreMatcher,
    IgnorePatternError,
>)
    ensures
        r is Ok <==> patterns_usable(views(patterns@)),
        r matches Ok(m) ==> m.lines() == views(patterns@),
        r matches Err(e) ==> pattern_error(views(patterns@), e),
{
    let ghost lines = views(patterns@);
    let mut builder = IgnoreBuilder::new();
    let mut i: usize = 0;
    while i < patterns.len()
        invariant
            i <= patterns@.len(),
            lines == views(patterns@),
            builder.lines() == lines.subrange(0, i as int),
            all_lines_parse(lines.subrange(0, i as int)),
        decreases patterns.len() - i,
    {
        assert(lines[i as int] == patterns@[i as int]@);
        if !builder.add_line(patterns[i].as_str()) {
            let bad = patterns[i].clone();
            assert(pattern_error(lines, IgnorePatternError::InvalidPattern(bad)));
            assert(!all_lines_parse(lines));
            return Err(IgnorePatternError::InvalidPattern(bad));
        }
        assert(lines.subrange(0, i + 1) =~= lines.subrange(0, i as int).push(lines[i as int]));
        assert(all_lines_parse(lines.subrange(0, i + 1))) by {
            assert forall|k: int| 0 <= k < i + 1 implies gitignore_line_parses(
                #[trigger] lines.subrange(0, i + 1)[k],
            ) by {
                if k < i {
                    assert(lines.subrange(0, i + 1)[k] == lines.subrange(0, i as int)[k]);
                }
            }
        }
        i += 1;
    }
    assert(lines.subrange(0, patterns@.len() as int) =~= lines);
    match builder.build() {
        Some(m) => Ok(m),
        None => Err(IgnorePatternError::CompileFailed),
    }
}

/// The files that the matcher does not ignore, in their order.
pub fn filter_not_ignored(files: &Vec<String>, matcher: &IgnoreMatcher) -> (r: Vec<String>)
    requires
        forall|i: int| 0 <= i < files@.len() ==> is_matchable_path(#[trigger] files@[i]@),
    ensures
        views(r@) == not_ignored(views(files@), matcher.lines()),
{
    let ghost lines = matcher.lines();
    let mut kept: Vec<String> = Vec::new();
    let mut i: usize = 0;
    assert(views(kept@) =~= not_ignored(views(files@.subrange(0, 0)), lines));
    while i < files.len()
        invariant
            i <= files@.len(),
            lines == matcher.lines(),
            forall|i: int| 0 <= i < files@.len() ==> is_matchable_path(#[trigger] files@[i]@),
            views(kept@) == not_ignored(views(files@.subrange(0, i as int)), lines),
        decreases files.len() - i,
    {
        assert(views(files@.subrange(0, i + 1)).drop_last() =~= views(
            files@.subrange(0, i as int),
        ));
        assert(is_matchable_path(files@[i as int]@));
        if !matcher.ignores(files[i].as_str()) {
            kept.push(files[i].clone());
        }
        assert(views(kept@) =~= not_ignored(views(files@.subrange(0, i + 1)), lines));
        i += 1;
    }
    assert(files@.subrange(0, files@.len() as int) =~= files@);
    kept
}

/// The files that none of the gitignore-style patterns ignores, in their
/// order; an error when the patterns do not make a matcher.
pub fn multi_pattern_filter(files: &Vec<String>, patterns: &Vec<String>) -> (r: Result<
    Vec<String>,
    IgnorePatternError,
>)
    requires
        forall|i: int| 0 <= i < files@.len() ==> is_matchable_path(#[trigger] files@[i]@),
    ensures
        r is Ok <==> patterns_usable(views(patterns@)),
        r matches Ok(v) ==> views(v@) == not_ignored(views(files@), views(patterns@)),
        r matches Err(e) ==> pattern_error(views(patterns@), e),
{
    let matcher = gitignore_from_patterns(patterns)?;
    Ok(filter_not_ignored(files, &matcher))
}

/// Whether the gitignore-style patterns ignore the file or one of its parent
/// directories; an error when the patterns do not make a matcher.
pub fn is_path_ignored(file: &str, patterns: &Vec<String>) -> (r: Result<bool, IgnorePatternError>)
    requires
        is_matchable_path(file@),
    ensures
        r is Ok <==> patterns_usable(views(patterns@)),
        r matches Ok(b) ==> b == lines_ignore(views(patterns@), file@),
        r matches Err(e) ==> pattern_error(views(patterns@), e),
{
    let matcher = gitignore_from_patterns(patterns)?;
    Ok(matcher.ignores(file))
}

} // verus!
