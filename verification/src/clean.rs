//! `clean`: which repositories in the project directory the repositories file
//! no longer lists, and what to remove of them.
//!
//! Paths compare by their components, the non-empty parts between `/`.
use crate::text::{ends_with, split, split_str};
use vstd::prelude::*;

verus! {

broadcast use vstd::string::group_string_axioms;

/// The non-empty parts of `parts`.
pub open spec fn nonempty_parts(parts: Seq<Seq<char>>) -> Seq<Seq<char>>
    decreases parts.len(),
{
    if parts.len() == 0 {
        Seq::empty()
    } else if parts.last().len() == 0 {
        nonempty_parts(parts.drop_last())
    } else {
        nonempty_parts(parts.drop_last()).push(parts.last())
    }
}

/// The components of a path.
pub open spec fn components(p: Seq<char>) -> Seq<Seq<char>> {
    nonempty_parts(split(p, '/'))
}

/// `Path::starts_with`: the components of `base` begin those of `p`.
pub open spec fn path_starts_with(p: Seq<char>, base: Seq<char>) -> bool {
    let a = components(base);
    let b = components(p);
    a.len() <= b.len() && b.take(a.len() as int) == a
}

/// Two paths with the same components.
pub open spec fn same_path(a: Seq<char>, b: Seq<char>) -> bool {
    components(a) == components(b)
}

/// The number of components of a path.
pub open spec fn depth(p: Seq<char>) -> nat {
    components(p).len()
}

/// The components of a path.
pub fn components_of(p: &str) -> (r: Vec<String>)
    ensures
        r.deep_view() == components(p@),
{
    let parts = split_str(p, '/');
    let mut out: Vec<String> = Vec::new();
    let mut i: usize = 0;
    while i < parts.len()
        invariant
            i <= parts.len(),
            parts.deep_view() == split(p@, '/'),
            out.deep_view() == nonempty_parts(parts.deep_view().take(i as int)),
        decreases parts.len() - i,
    {
        assert(parts.deep_view().take(i + 1).drop_last() =~= parts.deep_view().take(i as int));
        assert(parts.deep_view().take(i + 1).last() == parts.deep_view()[i as int]);
        if !parts[i].as_str().is_empty() {
            let ghost before = out.deep_view();
            out.push(parts[i].clone());
            assert(out.deep_view() =~= before.push(parts.deep_view()[i as int]));
        }
        i = i + 1;
    }
    assert(parts.deep_view().take(i as int) =~= parts.deep_view());
    out
}

fn strings_eq(a: &Vec<String>, b: &Vec<String>, n: usize) -> (r: bool)
    requires
        n <= a.len(),
        n <= b.len(),
    ensures
        r == (a.deep_view().take(n as int) == b.deep_view().take(n as int)),
{
    let mut i: usize = 0;
    while i < n
        invariant
            i <= n <= a.len(),
            n <= b.len(),
            a.deep_view().take(i as int) == b.deep_view().take(i as int),
        decreases n - i,
    {
        if a[i] != b[i] {
            assert(a.deep_view().take(n as int)[i as int] != b.deep_view().take(n as int)[i as int]);
            return false;
        }
        i = i + 1;
        assert(a.deep_view().take(i as int) =~= b.deep_view().take(i as int));
    }
    true
}

/// `Path::starts_with`.
pub fn starts_with_path(p: &str, base: &str) -> (r: bool)
    ensures
        r == path_starts_with(p@, base@),
{
    let a = components_of(base);
    let b = components_of(p);
    if a.len() > b.len() {
        return false;
    }
    let r = strings_eq(&a, &b, a.len());
    assert(a.deep_view().take(a.len() as int) =~= a.deep_view());
    r
}

/// Whether two paths have the same components.
pub fn same_path_exec(x: &str, y: &str) -> (r: bool)
    ensures
        r == same_path(x@, y@),
{
    let a = components_of(x);
    let b = components_of(y);
    if a.len() != b.len() {
        return false;
    }
    let r = strings_eq(&a, &b, a.len());
    assert(a.deep_view().take(a.len() as int) =~= a.deep_view());
    assert(b.deep_view().take(b.len() as int) =~= b.deep_view());
    r
}

/// The paths of `paths` that lie in `dir` (or are `dir`), in order.
pub open spec fn contained_in(dir: Seq<char>, paths: Seq<Seq<char>>) -> Seq<Seq<char>>
    decreases paths.len(),
{
    if paths.len() == 0 {
        Seq::empty()
    } else if path_starts_with(paths.last(), dir) {
        contained_in(dir, paths.drop_last()).push(paths.last())
    } else {
        contained_in(dir, paths.drop_last())
    }
}

/// The listed repositories that lie in the unused directory `unused_path`.
pub fn find_contained_paths(unused_path: &str, config_repo_paths: &Vec<String>) -> (r: Vec<
    String,
>)
    ensures
        r.deep_view() == contained_in(unused_path@, config_repo_paths.deep_view()),
{
    let mut out: Vec<String> = Vec::new();
    let mut i: usize = 0;
    while i < config_repo_paths.len()
        invariant
            i <= config_repo_paths.len(),
            out.deep_view() == contained_in(unused_path@, config_repo_paths.deep_view().take(i as int)),
        decreases config_repo_paths.len() - i,
    {
        let ghost pv = config_repo_paths.deep_view();
        assert(pv.take(i + 1).drop_last() =~= pv.take(i as int));
        assert(pv.take(i + 1).last() == pv[i as int]);
        if starts_with_path(config_repo_paths[i].as_str(), unused_path) {
            let ghost before = out.deep_view();
            out.push(config_repo_paths[i].clone());
            assert(out.deep_view() =~= before.push(pv[i as int]));
        }
        i = i + 1;
    }
    assert(config_repo_paths.deep_view().take(i as int) =~= config_repo_paths.deep_view());
    out
}

/// Some path of `paths` is the same path as `p`.
pub open spec fn lists_path(paths: Seq<Seq<char>>, p: Seq<char>) -> bool {
    exists|i: int| 0 <= i < paths.len() && same_path(#[trigger] paths[i], p)
}

/// Whether `paths` holds the same path as `p`.
pub fn lists_path_exec(paths: &Vec<String>, p: &str) -> (r: bool)
    ensures
        r == lists_path(paths.deep_view(), p@),
{
    let mut i: usize = 0;
    while i < paths.len()
        invariant
            i <= paths.len(),
            forall|j: int| 0 <= j < i ==> !same_path(#[trigger] paths.deep_view()[j], p@),
        decreases paths.len() - i,
    {
        if same_path_exec(paths[i].as_str(), p) {
            assert(same_path(paths.deep_view()[i as int], p@));
            return true;
        }
        i = i + 1;
    }
    false
}

/// Cleaning keeps every listed repository: a listed path is never unused.
pub proof fn lemma_listed_repos_kept(paths: Seq<Seq<char>>, i: int)
    requires
        0 <= i < paths.len(),
    ensures
        lists_path(paths, paths[i]),
{
    assert(same_path(paths[i], paths[i]));
}

/// A directory that cleaning removes whole holds no listed repository: when
/// no listed path lies in `dir`, none of them starts with it.
pub proof fn lemma_removed_dir_holds_no_listed(dir: Seq<char>, paths: Seq<Seq<char>>)
    ensures
        contained_in(dir, paths).len() == 0 ==> forall|j: int|
            0 <= j < paths.len() ==> !path_starts_with(#[trigger] paths[j], dir),
    decreases paths.len(),
{
    if paths.len() > 0 {
        lemma_removed_dir_holds_no_listed(dir, paths.drop_last());
        if contained_in(dir, paths).len() == 0 {
            assert forall|j: int| 0 <= j < paths.len() implies !path_starts_with(
                #[trigger] paths[j],
                dir,
            ) by {
                if j < paths.len() - 1 {
                    assert(paths.drop_last()[j] == paths[j]);
                }
            }
        }
    }
}

/// A repository found at `rel_path` in the project is unused when the
/// repositories file does not list it.
pub fn is_unused_repo(rel_path: &str, config_repo_paths: &Vec<String>) -> (r: bool)
    ensures
        r == !lists_path(config_repo_paths.deep_view(), rel_path@),
{
    !lists_path_exec(config_repo_paths, rel_path)
}

/// The paths of `s` with `d` components, in order.
pub open spec fn with_depth(s: Seq<Seq<char>>, d: nat) -> Seq<Seq<char>>
    decreases s.len(),
{
    if s.len() == 0 {
        Seq::empty()
    } else if depth(s.last()) == d {
        with_depth(s.drop_last(), d).push(s.last())
    } else {
        with_depth(s.drop_last(), d)
    }
}

/// The paths of `s` with at most `d` components, deepest first; paths of the
/// same depth keep their order.
pub open spec fn by_depth_from(s: Seq<Seq<char>>, d: int) -> Seq<Seq<char>>
    decreases d + 1,
{
    if d < 0 {
        Seq::empty()
    } else {
        with_depth(s, d as nat) + by_depth_from(s, d - 1)
    }
}

/// The largest depth of the paths of `s` (0 when `s` is empty).
pub open spec fn max_depth(s: Seq<Seq<char>>) -> nat
    decreases s.len(),
{
    if s.len() == 0 {
        0
    } else {
        let m = max_depth(s.drop_last());
        if depth(s.last()) > m {
            depth(s.last())
        } else {
            m
        }
    }
}

/// The unused repositories in the order they are removed: deepest first,
/// with the order found kept among those of the same depth.
pub open spec fn removal_order(s: Seq<Seq<char>>) -> Seq<Seq<char>> {
    by_depth_from(s, max_depth(s) as int)
}

/// Sorts the unused repositories into removal order.
pub fn sort_by_depth(paths: &Vec<String>) -> (r: Vec<String>)
    ensures
        r.deep_view() == removal_order(paths.deep_view()),
{
    let ghost s = paths.deep_view();
    let mut depths: Vec<usize> = Vec::new();
    let mut max: usize = 0;
    let mut i: usize = 0;
    while i < paths.len()
        invariant
            i <= paths.len(),
            s == paths.deep_view(),
            depths@.len() == i,
            forall|k: int| 0 <= k < i ==> depths@[k] == depth(#[trigger] s[k]),
            max == max_depth(s.take(i as int)),
        decreases paths.len() - i,
    {
        let c = components_of(paths[i].as_str());
        assert(s.take(i + 1).drop_last() =~= s.take(i as int));
        assert(s.take(i + 1).last() == s[i as int]);
        depths.push(c.len());
        if c.len() > max {
            max = c.len();
        }
        i = i + 1;
    }
    assert(s.take(i as int) =~= s);
    let mut out: Vec<String> = Vec::new();
    let mut d: usize = max;
    loop
        invariant_except_break
            d <= max,
            out.deep_view() + by_depth_from(s, d as int) == removal_order(s),
        invariant
            s == paths.deep_view(),
            depths@.len() == s.len(),
            forall|k: int| 0 <= k < s.len() ==> depths@[k] == depth(#[trigger] s[k]),
            max == max_depth(s),
        ensures
            out.deep_view() == removal_order(s),
        decreases d,
    {
        let ghost start = out.deep_view();
        let mut k: usize = 0;
        while k < paths.len()
            invariant
                k <= paths.len(),
                s == paths.deep_view(),
                depths@.len() == s.len(),
                forall|m: int| 0 <= m < s.len() ==> depths@[m] == depth(#[trigger] s[m]),
                out.deep_view() == start + with_depth(s.take(k as int), d as nat),
            decreases paths.len() - k,
        {
            assert(s.take(k + 1).drop_last() =~= s.take(k as int));
            assert(s.take(k + 1).last() == s[k as int]);
            if depths[k] == d {
                let ghost before = out.deep_view();
                out.push(paths[k].clone());
                assert(out.deep_view() =~= before.push(s[k as int]));
            }
            k = k + 1;
        }
        assert(s.take(k as int) =~= s);
        assert(by_depth_from(s, d as int) == with_depth(s, d as nat) + by_depth_from(s, d - 1));
        if d == 0 {
            assert(by_depth_from(s, -1) =~= Seq::<Seq<char>>::empty());
            assert(out.deep_view() =~= removal_order(s));
            break;
        }
        assert(out.deep_view() + by_depth_from(s, d - 1) =~= start + by_depth_from(s, d as int));
        d = d - 1;
    }
    out
}

/// What to do with an entry met while removing an unused directory that
/// holds listed repositories.
#[derive(PartialEq, Eq, Structural, Debug, Clone, Copy)]
pub enum EntryAction {
    /// A listed repository: keep it and do not enter it.
    SkipDir,
    /// A directory without listed repositories: remove it all.
    RemoveDir,
    /// A file: remove it.
    RemoveFile,
    /// A directory that holds listed repositories: enter it.
    Enter,
}

/// The action for the entry at `rel_path` (from the project directory),
/// given the listed repositories `contained` that the unused directory holds.
pub fn unused_entry_action(rel_path: &str, is_dir: bool, is_file: bool, contained: &Vec<String>) -> (r:
    EntryAction)
    ensures
        lists_path(contained.deep_view(), rel_path@) ==> r == EntryAction::SkipDir,
        !lists_path(contained.deep_view(), rel_path@) && is_dir && contained_in(
            rel_path@,
            contained.deep_view(),
        ).len() == 0 ==> r == EntryAction::RemoveDir,
        !lists_path(contained.deep_view(), rel_path@) && !(is_dir && contained_in(
            rel_path@,
            contained.deep_view(),
        ).len() == 0) && is_file ==> r == EntryAction::RemoveFile,
        !lists_path(contained.deep_view(), rel_path@) && !(is_dir && contained_in(
            rel_path@,
            contained.deep_view(),
        ).len() == 0) && !is_file ==> r == EntryAction::Enter,
{
    if lists_path_exec(contained, rel_path) {
        EntryAction::SkipDir
    } else if is_dir && find_contained_paths(rel_path, contained).len() == 0 {
        EntryAction::RemoveDir
    } else if is_file {
        EntryAction::RemoveFile
    } else {
        EntryAction::Enter
    }
}

/// The glob that finds the `.git` directories of repositories.
pub const GIT_DIR_GLOB: &'static str = "**/.git";

/// The path names a `.git` directory: it is `.git` or ends with `/.git`.
pub open spec fn git_dir_text(p: Seq<char>) -> bool {
    p == ".git"@ || ends_with(p, "/.git"@)
}

/// `globset::GlobBuilder::new(glob)` with `literal_separator(true)`, built
/// and compiled to a matcher, then `is_match(path)`.  Only the `.git` glob is
/// admitted; it compiles to `^(?:/?|.*/)\.git$` (with `.` matching any
/// character), so a path matches when it is `.git` or ends with `/.git`.
/// Before matching, globset turns every separator of the platform into `/`:
/// where `\` separates paths (Windows) it counts as `/`, elsewhere it is an
/// ordinary character.  Which of the two readings applies to a path that
/// holds a `\` is left open here.
#[verifier::external_body]
fn glob_matches(glob: &str, path: &str) -> (r: bool)
    requires
        glob@ == GIT_DIR_GLOB@,
    ensures
        !path@.contains('\\') ==> r == git_dir_text(path@),
        path@.contains('\\') ==> (r == git_dir_text(path@) || r == git_dir_text(
            crate::path::norm_path(path@),
        )),
{
    globset::GlobBuilder::new(glob).literal_separator(true).build().unwrap().compile_matcher().is_match(
        path,
    )
}

/// Whether a path met while scanning the project names a `.git` directory,
/// whose parent is then a repository.  A `\` in the path separates
/// components only on a platform where it is a path separator.
pub fn is_git_dir(path: &str) -> (r: bool)
    ensures
        !path@.contains('\\') ==> r == git_dir_text(path@),
        path@.contains('\\') ==> (r == git_dir_text(path@) || r == git_dir_text(
            crate::path::norm_path(path@),
        )),
{
    glob_matches(GIT_DIR_GLOB, path)
}

} // verus!
