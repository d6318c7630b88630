//! What is asked of `git` to pin a Git dependency to a revision, and how
//! its answer is read.
use vstd::prelude::*;

use crate::arc::parser::{parse_url, url_parse};
use crate::hir::path::str_eq;

verus! {

/// Why the revision of a Git dependency could not be found.
#[derive(Debug, Clone, Copy, PartialEq, Eq, Structural)]
pub enum GitError {
    /// More than one of revision, tag and branch was given.
    ConflictingSelectors,
    /// `git ls-remote` listed nothing.
    EmptyListing,
}

/// How the revision of a Git dependency is found.
pub enum RevisionQuery {
    /// The dependency names its revision.
    Known(String),
    /// The revision is listed by `git` with these arguments.
    ListRemote { args: Vec<String> },
}

/// The arguments of `git ls-remote` for a repository, narrowed to a tag or
/// a branch when one is given.
pub open spec fn ls_remote_args(repository: Seq<char>, tag: Option<Seq<char>>, branch: Option<Seq<char>>) -> Seq<Seq<char>> {
    let base = seq!["ls-remote"@, "--quiet"@, repository];
    match (tag, branch) {
        (Some(t), None) => base + seq!["--tags"@, t],
        (None, Some(b)) => base + seq!["--branches"@, b],
        _ => base,
    }
}

/// The text of an optional string.
pub open spec fn opt_text(s: Option<&str>) -> Option<Seq<char>> {
    match s {
        Some(x) => Some(x@),
        None => None,
    }
}

/// Decides how the revision of a Git dependency is found: a given
/// revision is used as it is; otherwise `git ls-remote` is asked, narrowed
/// to the tag or the branch. A tag and a branch together are refused, as
/// is either of them beside a revision only when no revision is given.
pub fn revision_query(repository: &str, rev: Option<&str>, tag: Option<&str>, branch: Option<&str>) -> (r: Result<RevisionQuery, GitError>)
    ensures
        match rev {
            Some(x) => r matches Ok(RevisionQuery::Known(k)) && k@ == x@,
            None => if tag is Some && branch is Some {
                r == Err::<RevisionQuery, GitError>(GitError::ConflictingSelectors)
            } else {
                r matches Ok(RevisionQuery::ListRemote { args }) && args@.map_values(|a: String| a@)
                    == ls_remote_args(repository@, opt_text(tag), opt_text(branch))
            },
        },
{
    match rev {
        Some(x) => {
            return Ok(RevisionQuery::Known(x.to_string()));
        },
        None => {},
    }
    let ls = "ls-remote";
    let quiet = "--quiet";
    let tags = "--tags";
    let branches = "--branches";
    proof {
        reveal_strlit("ls-remote");
        reveal_strlit("--quiet");
        reveal_strlit("--tags");
        reveal_strlit("--branches");
    }
    let mut args: Vec<String> = Vec::new();
    args.push(ls.to_string());
    args.push(quiet.to_string());
    args.push(repository.to_string());
    let ghost base = args@;
    match (tag, branch) {
        (Some(t), None) => {
            args.push(tags.to_string());
            args.push(t.to_string());
        },
        (None, Some(b)) => {
            args.push(branches.to_string());
            args.push(b.to_string());
        },
        (None, None) => {},
        (Some(_), Some(_)) => {
            return Err(GitError::ConflictingSelectors);
        },
    }
    proof {
        assert(args@.map_values(|a: String| a@) =~= ls_remote_args(
            repository@,
            opt_text(tag),
            opt_text(branch),
        ));
    }
    Ok(RevisionQuery::ListRemote { args })
}

/// Whether a character is white space, as `char::is_whitespace` defines
/// it: the characters with the Unicode `White_Space` property.
pub open spec fn is_white_space(c: char) -> bool {
    ||| '\u{9}' <= c <= '\u{d}'
    ||| c == ' '
    ||| c == '\u{85}'
    ||| c == '\u{a0}'
    ||| c == '\u{1680}'
    ||| '\u{2000}' <= c <= '\u{200a}'
    ||| c == '\u{2028}'
    ||| c == '\u{2029}'
    ||| c == '\u{202f}'
    ||| c == '\u{205f}'
    ||| c == '\u{3000}'
}

/// Whether a character is white space.
pub fn white_space(c: char) -> (r: bool)
    ensures
        r == is_white_space(c),
{
    ('\u{9}' <= c && c <= '\u{d}') || c == ' ' || c == '\u{85}' || c == '\u{a0}' || c == '\u{1680}'
        || ('\u{2000}' <= c && c <= '\u{200a}') || c == '\u{2028}' || c == '\u{2029}' || c == '\u{202f}'
        || c == '\u{205f}' || c == '\u{3000}'
}

/// The text without white space at its start.
pub open spec fn trim_start(s: Seq<char>) -> Seq<char>
    decreases s.len(),
{
    if s.len() > 0 && is_white_space(s[0]) {
        trim_start(s.drop_first())
    } else {
        s
    }
}

/// The text without white space at its end.
pub open spec fn trim_end(s: Seq<char>) -> Seq<char>
    decreases s.len(),
{
    if s.len() > 0 && is_white_space(s.last()) {
        trim_end(s.drop_last())
    } else {
        s
    }
}

/// The text without white space at either end, as `str::trim` gives it.
pub open spec fn trim(s: Seq<char>) -> Seq<char> {
    trim_end(trim_start(s))
}

/// The position of the first occurrence of `c`, if any.
pub open spec fn first_index_of(s: Seq<char>, c: char) -> Option<int>
    decreases s.len(),
{
    if s.len() == 0 {
        None
    } else if s[0] == c {
        Some(0)
    } else {
        match first_index_of(s.drop_first(), c) {
            Some(i) => Some(i + 1),
            None => None,
        }
    }
}

/// The revision named by the listing of `git ls-remote`: the text before
/// the first tab, trimmed.
pub open spec fn listed_revision(listing: Seq<char>) -> Option<Seq<char>> {
    match first_index_of(listing, '\t') {
        Some(i) => Some(trim(listing.subrange(0, i))),
        None => None,
    }
}

/// The position of the first tab of the text, if any.
fn find_tab(s: &str) -> (r: Option<usize>)
    ensures
        match first_index_of(s@, '\t') {
            Some(i) => r is Some && r->0 as int == i && i < s@.len(),
            None => r is None,
        },
{
    let n = s.unicode_len();
    let mut i: usize = 0;
    proof {
        assert(s@.subrange(0, n as int) =~= s@);
    }
    while i < n
        invariant
            i <= n,
            n == s@.len(),
            first_index_of(s@, '\t') == match first_index_of(s@.subrange(i as int, n as int), '\t') {
                Some(k) => Some(k + i),
                None => None,
            },
        decreases n - i,
    {
        proof {
            let rest = s@.subrange(i as int, n as int);
            assert(rest.drop_first() =~= s@.subrange(i + 1, n as int));
        }
        if s.get_char(i) == '\t' {
            return Some(i);
        }
        i = i + 1;
    }
    None
}

/// The start of the text once white space is skipped there.
proof fn lemma_trim_start_skip(s: Seq<char>, i: int)
    requires
        0 <= i <= s.len(),
        forall|j: int| 0 <= j < i ==> is_white_space(#[trigger] s[j]),
    ensures
        trim_start(s) == trim_start(s.subrange(i, s.len() as int)),
    decreases i,
{
    if i > 0 {
        assert(s.drop_first().subrange(i - 1, s.len() - 1) =~= s.subrange(i, s.len() as int));
        lemma_trim_start_skip(s.drop_first(), i - 1);
    } else {
        assert(s.subrange(0, s.len() as int) =~= s);
    }
}

/// The end of the text once white space is skipped there.
proof fn lemma_trim_end_skip(s: Seq<char>, k: int)
    requires
        0 <= k <= s.len(),
        forall|j: int| k <= j < s.len() ==> is_white_space(#[trigger] s[j]),
    ensures
        trim_end(s) == trim_end(s.subrange(0, k)),
    decreases s.len() - k,
{
    if k < s.len() {
        assert(s.drop_last().subrange(0, k) =~= s.subrange(0, k));
        lemma_trim_end_skip(s.drop_last(), k);
    } else {
        assert(s.subrange(0, k) =~= s);
    }
}

/// The text without white space at either end.
pub fn trim_text(s: &str) -> (r: String)
    ensures
        r@ == trim(s@),
{
    let n = s.unicode_len();
    let mut start: usize = 0;
    while start < n && white_space(s.get_char(start))
        invariant
            start <= n,
            n == s@.len(),
            forall|j: int| 0 <= j < start ==> is_white_space(#[trigger] s@[j]),
        decreases n - start,
    {
        start = start + 1;
    }
    proof {
        lemma_trim_start_skip(s@, start as int);
    }
    let ghost t = s@.subrange(start as int, n as int);
    proof {
        assert(start == n || !is_white_space(t[0]));
        assert(trim_start(t) == t);
    }
    let mut end: usize = n;
    while end > start && white_space(s.get_char(end - 1))
        invariant
            start <= end <= n,
            n == s@.len(),
            t == s@.subrange(start as int, n as int),
            forall|j: int| end <= j < n ==> is_white_space(#[trigger] s@[j]),
        decreases end,
    {
        end = end - 1;
    }
    proof {
        assert forall|j: int| (end - start) <= j < t.len() implies is_white_space(#[trigger] t[j]) by {
            assert(t[j] == s@[j + start]);
        }
        lemma_trim_end_skip(t, end - start);
        let u = t.subrange(0, end - start);
        assert(u.len() == 0 || !is_white_space(u.last()));
        assert(trim_end(u) == u);
        assert(u =~= s@.subrange(start as int, end as int));
    }
    s.substring_char(start, end).to_string()
}

/// Reads the revision from the listing of `git ls-remote`: the text before
/// the first tab, trimmed. A listing without a tab names no revision.
pub fn revision_from_listing(listing: &str) -> (r: Result<String, GitError>)
    ensures
        match listed_revision(listing@) {
            Some(rev) => r matches Ok(x) && x@ == rev,
            None => r == Err::<String, GitError>(GitError::EmptyListing),
        },
{
    match find_tab(listing) {
        Some(i) => {
            let head = listing.substring_char(0, i);
            let t = trim_text(head);
            proof {
                assert(head@ == listing@.subrange(0, i as int));
                match first_index_of(listing@, '\t') {
                    Some(k) => assert(k == i as int),
                    None => assert(false),
                }
                assert(listed_revision(listing@) == Some(trim(listing@.subrange(0, i as int))));
            }
            Ok(t)
        },
        None => Err(GitError::EmptyListing),
    }
}

/// The position of the last occurrence of `c`, if any.
pub open spec fn last_index_of(s: Seq<char>, c: char) -> Option<int>
    decreases s.len(),
{
    if s.len() == 0 {
        None
    } else if s.last() == c {
        Some(s.len() - 1)
    } else {
        last_index_of(s.drop_last(), c)
    }
}

/// Where the last occurrence of `c` lies.
pub proof fn lemma_last_index_of(s: Seq<char>, c: char)
    ensures
        match last_index_of(s, c) {
            Some(j) => 0 <= j < s.len() && s[j] == c && forall|k: int| j < k < s.len() ==> s[k] != c,
            None => forall|k: int| 0 <= k < s.len() ==> s[k] != c,
        },
    decreases s.len(),
{
    if s.len() > 0 && s.last() != c {
        let t = s.drop_last();
        lemma_last_index_of(t, c);
        assert forall|k: int| 0 <= k < t.len() implies t[k] == s[k] by {}
        match last_index_of(t, c) {
            Some(j) => {
                assert forall|k: int| j < k < s.len() implies s[k] != c by {
                    if k < t.len() {
                        assert(t[k] == s[k]);
                    }
                }
            },
            None => {
                assert forall|k: int| 0 <= k < s.len() implies s[k] != c by {
                    if k < t.len() {
                        assert(t[k] == s[k]);
                    }
                }
            },
        }
    }
}

/// The last occurrence of `c` is the one before a stretch without `c`.
proof fn lemma_last_index_at(s: Seq<char>, c: char, j: int)
    requires
        0 <= j < s.len(),
        s[j] == c,
        forall|k: int| j < k < s.len() ==> s[k] != c,
    ensures
        last_index_of(s, c) == Some(j),
{
    lemma_last_index_of(s, c);
    match last_index_of(s, c) {
        Some(i) => {
            if i < j {
                assert(s[j] == c);
            } else if i > j {
                assert(s[i] != c);
            }
        },
        None => {
            assert(s[j] != c);
        },
    }
}

/// Whether a part of a path between separators names something: it is
/// neither empty nor `.`.
pub open spec fn named_part(p: Seq<char>) -> bool {
    p.len() > 0 && p != "."@
}

/// The last part of a path which names something, if any.
pub open spec fn last_named_part(s: Seq<char>) -> Option<Seq<char>>
    decreases s.len(),
{
    match last_index_of(s, '/') {
        None => if named_part(s) {
            Some(s)
        } else {
            None
        },
        Some(j) => {
            proof {
                lemma_last_index_of(s, '/');
            }
            if named_part(s.skip(j + 1)) {
                Some(s.skip(j + 1))
            } else {
                last_named_part(s.take(j))
            }
        },
    }
}

/// The last component of a path, as `std::path::Path::components` gives it
/// on Unix: the last part which names something; else the root `/` of an
/// absolute path, or the `.` a relative one starts with; `None` for an
/// empty path.
pub open spec fn last_component(s: Seq<char>) -> Option<Seq<char>> {
    match last_named_part(s) {
        Some(p) => Some(p),
        None => if s.len() > 0 && s[0] == '/' {
            Some("/"@)
        } else if s == "."@ || (s.len() >= 2 && s[0] == '.' && s[1] == '/') {
            Some("."@)
        } else {
            None
        },
    }
}

/// A path with `p` joined to it, as `std::path::Path::join` does it on
/// Unix: an absolute `p` replaces the path; otherwise `p` is appended, after
/// a separator unless the path is empty or already ends in one.
pub open spec fn path_join(base: Seq<char>, p: Seq<char>) -> Seq<char> {
    if p.len() > 0 && p[0] == '/' {
        p
    } else if base.len() > 0 && base.last() != '/' {
        base + "/"@ + p
    } else {
        base + p
    }
}

/// A part which names something has no separator in it.
proof fn lemma_last_named_part_has_no_separator(s: Seq<char>)
    ensures
        last_named_part(s) matches Some(p) ==> p.len() > 0 && forall|i: int| 0 <= i < p.len() ==> p[i] != '/',
    decreases s.len(),
{
    lemma_last_index_of(s, '/');
    match last_index_of(s, '/') {
        None => {},
        Some(j) => {
            if !named_part(s.skip(j + 1)) {
                lemma_last_named_part_has_no_separator(s.take(j));
            }
        },
    }
}

/// The folder of a clone lies in the cache directory: joined to the
/// directory, the last component of a repository's path followed by the
/// revision gives a path which starts with the directory. (A path whose
/// last component is the root `/` is left out: that folder name is
/// absolute, and joining it replaces the directory.)
pub proof fn law_clone_folder_in_cache(cache_dir: Seq<char>, path: Seq<char>, rev: Seq<char>)
    requires
        last_component(path) is Some,
        last_component(path)->0 != "/"@,
    ensures
        path_join(cache_dir, last_component(path)->0 + rev).take(cache_dir.len() as int) == cache_dir,
{
    reveal_strlit("/");
    reveal_strlit(".");
    lemma_last_named_part_has_no_separator(path);
    let name = last_component(path)->0;
    let p = name + rev;
    assert(name.len() > 0 && name[0] != '/');
    assert(p[0] == name[0]);
    let joined = path_join(cache_dir, p);
    if cache_dir.len() > 0 && cache_dir.last() != '/' {
        assert(joined =~= cache_dir + ("/"@ + p));
    } else {
        assert(joined =~= cache_dir + p);
    }
    assert(joined.take(cache_dir.len() as int) =~= cache_dir);
}

/// Whether the text is `.`.
fn is_dot(p: &str) -> (r: bool)
    ensures
        r == (p@ == "."@),
{
    let dot = ".";
    proof {
        reveal_strlit(".");
    }
    str_eq(p, dot)
}

/// The last component of a path, as `std::path::Path::components` gives
/// it on Unix.
pub fn path_last_component(path: &str) -> (r: Option<String>)
    ensures
        match last_component(path@) {
            Some(c) => r matches Some(x) && x@ == c,
            None => r is None,
        },
{
    let n = path.unicode_len();
    let mut end: usize = n;
    proof {
        assert(path@.take(n as int) =~= path@);
    }
    let mut found: Option<String> = None;
    loop
        invariant_except_break
            end <= n,
            n == path@.len(),
            last_named_part(path@) == last_named_part(path@.take(end as int)),
            found is None,
        ensures
            match last_named_part(path@) {
                Some(c) => found matches Some(x) && x@ == c,
                None => found is None,
            },
        decreases end,
    {
        let ghost t = path@.take(end as int);
        let mut j: usize = end;
        while j > 0 && path.get_char(j - 1) != '/'
            invariant
                j <= end,
                end <= n,
                n == path@.len(),
                forall|k: int| j <= k < end ==> path@[k] != '/',
            decreases j,
        {
            j = j - 1;
        }
        let part = path.substring_char(j, end);
        proof {
            assert(part@ == t.skip(j as int));
            if j == 0 {
                lemma_last_index_of(t, '/');
                match last_index_of(t, '/') {
                    Some(k) => {
                        assert(t[k] == path@[k]);
                    },
                    None => {},
                }
                assert(t.skip(0) =~= t);
            } else {
                lemma_last_index_at(t, '/', j - 1);
                assert(t.take(j - 1) =~= path@.take(j - 1));
            }
        }
        if part.unicode_len() > 0 && !is_dot(part) {
            found = Some(part.to_string());
            break;
        }
        if j == 0 {
            break;
        }
        end = j - 1;
    }
    match found {
        Some(c) => Some(c),
        None => {
            let slash = "/";
            let dot = ".";
            proof {
                reveal_strlit("/");
                reveal_strlit(".");
            }
            if n > 0 && path.get_char(0) == '/' {
                Some(slash.to_string())
            } else if is_dot(path) || (n >= 2 && path.get_char(0) == '.' && path.get_char(1) == '/') {
                Some(dot.to_string())
            } else {
                None
            }
        },
    }
}

/// Joins `p` to a path, as `std::path::Path::join` does it on Unix.
pub fn join_path(base: &str, p: &str) -> (r: String)
    ensures
        r@ == path_join(base@, p@),
{
    let bn = base.unicode_len();
    if p.unicode_len() > 0 && p.get_char(0) == '/' {
        p.to_string()
    } else if bn > 0 && base.get_char(bn - 1) != '/' {
        let slash = "/";
        proof {
            reveal_strlit("/");
        }
        base.to_string().concat(slash).concat(p)
    } else {
        base.to_string().concat(p)
    }
}

/// Why a Git dependency cannot be cloned.
#[derive(Debug)]
pub enum CloneError {
    /// The repository is no URL.
    InvalidRepositoryUrl { repository: String },
    /// The repository's URL has no path to name a folder after.
    NoRepositoryName { path: String },
    /// The clone holds no directory of the given name.
    NoSubDirectory { name: String },
}

/// Where the clone of a Git dependency goes, which directory of it is the
/// package, and how `git` makes the clone.
pub struct ClonePlan {
    /// The folder of the clone, in the local cache.
    pub local_directory: String,
    /// The directory which holds the package: the clone, or the given
    /// sub-directory of it.
    pub requested_path: String,
    /// The arguments of `git`.
    pub args: Vec<String>,
    /// The `.git` directory of the clone, whose presence shows an earlier
    /// clone.
    pub git_directory: String,
}

/// The arguments of `git` which clone the revision of the repository into
/// the folder.
pub open spec fn clone_args(rev: Seq<char>, url: Seq<char>, folder: Seq<char>) -> Seq<Seq<char>> {
    seq!["clone"@, "--depth"@, "1"@, "--revision"@, rev, url, folder]
}

/// Decides where the revision `rev` of `repository` is cloned to within
/// `cache_dir`: into a folder named after the last component of the URL's
/// path followed by the revision, and, when `dir` is given, the package is
/// that sub-directory of the clone.
pub fn clone_plan(repository: &str, rev: &str, dir: Option<&str>, cache_dir: &str) -> (r: Result<ClonePlan, CloneError>)
    ensures
        match url_parse(repository@) {
            None => r matches Err(CloneError::InvalidRepositoryUrl { repository: x }) && x@ == repository@,
            Some(u) => match last_component(u.1) {
                None => r matches Err(CloneError::NoRepositoryName { path: x }) && x@ == u.1,
                Some(name) => r matches Ok(plan) && {
                    let folder = path_join(cache_dir@, name + rev@);
                    &&& plan.local_directory@ == folder
                    &&& plan.requested_path@ == match dir {
                        Some(d) => path_join(folder, d@),
                        None => folder,
                    }
                    &&& plan.args@.map_values(|a: String| a@) == clone_args(rev@, u.2, folder)
                    &&& plan.git_directory@ == path_join(folder, ".git"@)
                },
            },
        },
{
    let url = match parse_url(repository) {
        Some(u) => u,
        None => {
            return Err(CloneError::InvalidRepositoryUrl { repository: repository.to_string() });
        },
    };
    let name = match path_last_component(url.path.as_str()) {
        Some(n) => n,
        None => {
            return Err(CloneError::NoRepositoryName { path: url.path.clone() });
        },
    };
    let folder_name = name.concat(rev);
    let local_directory = join_path(cache_dir, folder_name.as_str());
    let requested_path = match dir {
        Some(d) => join_path(local_directory.as_str(), d),
        None => local_directory.clone(),
    };
    let clone = "clone";
    let depth = "--depth";
    let one = "1";
    let revision = "--revision";
    proof {
        reveal_strlit("clone");
        reveal_strlit("--depth");
        reveal_strlit("1");
        reveal_strlit("--revision");
    }
    let mut args: Vec<String> = Vec::new();
    args.push(clone.to_string());
    args.push(depth.to_string());
    args.push(one.to_string());
    args.push(revision.to_string());
    args.push(rev.to_string());
    args.push(url.serialized.clone());
    args.push(local_directory.clone());
    proof {
        assert(args@.map_values(|a: String| a@) =~= clone_args(rev@, url.serialized@, local_directory@));
    }
    let git_name = ".git";
    proof {
        reveal_strlit(".git");
    }
    let git_directory = join_path(local_directory.as_str(), git_name);
    Ok(ClonePlan { local_directory, requested_path, args, git_directory })
}

/// What is done before `git` is run, from what the file system holds.
#[derive(Debug, Clone, Copy, PartialEq, Eq, Structural)]
pub enum CloneStep {
    /// An earlier clone is there: it is used, and `git` is not run.
    Reuse,
    /// The folder is there but holds no clone: it is removed, then cloned
    /// into.
    ReplaceThenClone,
    /// Nothing is there: the repository is cloned.
    Clone,
}

/// Decides what to do with the folder of a clone: an existing folder with
/// a `.git` directory is reused; another existing folder is replaced,
/// since `git` refuses to clone into it; otherwise the clone is made.
pub fn clone_step(folder_exists: bool, git_directory_exists: bool) -> (r: CloneStep)
    ensures
        r == if !folder_exists {
            CloneStep::Clone
        } else if git_directory_exists {
            CloneStep::Reuse
        } else {
            CloneStep::ReplaceThenClone
        },
{
    if !folder_exists {
        CloneStep::Clone
    } else if git_directory_exists {
        CloneStep::Reuse
    } else {
        CloneStep::ReplaceThenClone
    }
}

/// The directory which holds the package once the clone is made: the
/// requested sub-directory, which must then exist, or the clone itself.
pub fn cloned_package_path(plan: &ClonePlan, dir: Option<&str>, requested_exists: bool) -> (r: Result<String, CloneError>)
    ensures
        match dir {
            Some(d) => if requested_exists {
                r matches Ok(p) && p@ == plan.requested_path@
            } else {
                r matches Err(CloneError::NoSubDirectory { name }) && name@ == d@
            },
            None => r matches Ok(p) && p@ == plan.local_directory@,
        },
{
    match dir {
        Some(d) => if requested_exists {
            Ok(plan.requested_path.clone())
        } else {
            Err(CloneError::NoSubDirectory { name: d.to_string() })
        },
        None => Ok(plan.local_directory.clone()),
    }
}

} // verus!
