//! The decisions of the operations on a project: cleaning, listing files,
//! fetching and taking a snapshot.  Reading the disk and running git is left
//! to the caller, which hands the results in.
use crate::config::{MgitConfig, RepoConfig};
use crate::dispatch::opt_deep;
use crate::error::MgitError;
use crate::git::CmdResult;
use crate::options::SnapshotType;
use crate::path::{display_path, display_path_str};
use crate::style_message::{pl, st, Style, StyleMessage};
use crate::text::{
    decimal,
    lemma_text_less_irreflexive, lemma_text_less_transitive, lines, lines_str, lowercase,
    split_once, split_once_str, strings_contain, text_less, text_less_exec, to_lowercase_str, trim,
    trim_str,
};
use crate::repo_manager::{has_label, has_label_exec};
use vstd::prelude::*;

verus! {

broadcast use vstd::string::group_string_axioms;

/// The error for a project directory that is missing.
pub open spec fn is_dir_not_found(e: MgitError, path: Seq<char>) -> bool {
    e matches MgitError::DirNotFound { path: p } && p@ == path
}

/// The error for a repositories file that is missing.
pub open spec fn is_config_not_found(e: MgitError, path: Seq<char>) -> bool {
    e matches MgitError::ConfigFileNotFound { path: p } && p@ == path
}

/// The error for a project that already has a repositories file.
pub open spec fn is_already_inited(e: MgitError, path: Seq<char>) -> bool {
    e matches MgitError::DirAlreadyInited { path: p } && p@ == path
}

/// Cleaning and listing files need the project directory and the
/// repositories file; the directory is checked first.
pub fn check_project(path: &str, path_is_dir: bool, config_path: &str, config_is_file: bool) -> (r:
    Result<(), MgitError>)
    ensures
        !path_is_dir ==> (r matches Err(e) && is_dir_not_found(e, path@)),
        path_is_dir && !config_is_file ==> (r matches Err(e) && is_config_not_found(
            e,
            config_path@,
        )),
        path_is_dir && config_is_file ==> r is Ok,
{
    if !path_is_dir {
        return Err(MgitError::DirNotFound { path: String::from_str(path) });
    }
    check_config_file(config_path, config_is_file)
}

/// Fetching needs the repositories file.
pub fn check_config_file(config_path: &str, config_is_file: bool) -> (r: Result<(), MgitError>)
    ensures
        !config_is_file ==> (r matches Err(e) && is_config_not_found(e, config_path@)),
        config_is_file ==> r is Ok,
{
    if !config_is_file {
        return Err(MgitError::ConfigFileNotFound { path: String::from_str(config_path) });
    }
    Ok(())
}

/// A snapshot needs the project directory, and overwrites an existing
/// repositories file only when forced.
pub fn check_snapshot_target(path: &str, path_is_dir: bool, config_is_file: bool, force: bool) -> (r:
    Result<(), MgitError>)
    ensures
        !path_is_dir ==> (r matches Err(e) && is_dir_not_found(e, path@)),
        path_is_dir && config_is_file && !force ==> (r matches Err(e) && is_already_inited(
            e,
            path@,
        )),
        path_is_dir && (!config_is_file || force) ==> r is Ok,
{
    if !path_is_dir {
        return Err(MgitError::DirNotFound { path: String::from_str(path) });
    }
    if config_is_file && !force {
        return Err(MgitError::DirAlreadyInited { path: String::from_str(path) });
    }
    Ok(())
}

/// The entries of `repos` that have one of `labels`, in order.
pub open spec fn with_labels(repos: Seq<RepoConfig>, labels: Seq<Seq<char>>) -> Seq<RepoConfig>
    decreases repos.len(),
{
    if repos.len() == 0 {
        Seq::empty()
    } else {
        let rest = with_labels(repos.drop_last(), labels);
        if has_label(repos.last().labels, labels) {
            rest.push(repos.last())
        } else {
            rest
        }
    }
}

/// The entries that an operation works on: all of them, or those with one of
/// `labels` when labels are given.
pub open spec fn selected_repos(repos: Seq<RepoConfig>, labels: Option<Seq<Seq<char>>>) -> Seq<
    RepoConfig,
> {
    match labels {
        Some(l) => with_labels(repos, l),
        None => repos,
    }
}

/// Keeps the entries of `repos` that have one of `labels`, in order.
pub fn filter_by_labels(repos: Vec<RepoConfig>, labels: &Vec<String>) -> (r: Vec<RepoConfig>)
    ensures
        r@ == with_labels(repos@, labels.deep_view()),
{
    let ghost all = repos@;
    let mut rest = repos;
    let mut kept: Vec<RepoConfig> = Vec::new();
    let mut k: usize = 0;
    let total: usize = rest.len();
    while rest.len() > 0
        invariant
            k + rest@.len() == all.len(),
            all.len() == total,
            rest@ == all.skip(k as int),
            kept@ == with_labels(all.take(k as int), labels.deep_view()),
        decreases rest@.len(),
    {
        let item = rest.remove(0);
        assert(all.take(k + 1).drop_last() =~= all.take(k as int));
        assert(all.take(k + 1).last() == item);
        if has_label_exec(&item.labels, labels) {
            kept.push(item);
        }
        k = k + 1;
        assert(rest@ =~= all.skip(k as int));
    }
    assert(all.take(k as int) =~= all);
    kept
}

/// The message of the error for a repositories file that cannot be read.
pub open spec fn load_failed_source() -> Seq<char> {
    "Failed to load config"@
}

/// The entries that an operation on a loaded repositories file works on.
/// A file that could not be loaded (`None`) is an error; a file without
/// entries gives `Ok(None)`; otherwise the entries, narrowed to `labels`
/// when given.
pub fn loaded_repos(loaded: Option<MgitConfig>, labels: Option<&Vec<String>>) -> (r: Result<
    Option<Vec<RepoConfig>>,
    MgitError,
>)
    ensures
        match loaded {
            None => r matches Err(MgitError::LoadConfigFailed { source }) && source@
                == load_failed_source(),
            Some(c) => match c.repos {
                None => r matches Ok(None),
                Some(v) => r matches Ok(Some(s)) && s@ == selected_repos(
                    v@,
                    match labels {
                        Some(l) => Some(l.deep_view()),
                        None => None,
                    },
                ),
            },
        },
{
    match loaded {
        None => Err(MgitError::LoadConfigFailed { source: String::from_str("Failed to load config") }),
        Some(c) => match c.repos {
            None => Ok(None),
            Some(v) => match labels {
                Some(l) => Ok(Some(filter_by_labels(v, l))),
                None => Ok(Some(v)),
            },
        },
    }
}

/// Every entry names its directory.
pub open spec fn all_local(repos: Seq<RepoConfig>) -> bool {
    forall|i: int| 0 <= i < repos.len() ==> (#[trigger] repos[i]).local is Some
}

/// Whether every entry names its directory.
pub fn all_local_exec(repos: &Vec<RepoConfig>) -> (r: bool)
    ensures
        r == all_local(repos@),
{
    let mut i: usize = 0;
    while i < repos.len()
        invariant
            i <= repos.len(),
            forall|j: int| 0 <= j < i ==> (#[trigger] repos@[j]).local is Some,
        decreases repos.len() - i,
    {
        if repos[i].local.is_none() {
            return false;
        }
        i = i + 1;
    }
    true
}

/// The directories of the entries.
pub open spec fn local_paths(repos: Seq<RepoConfig>) -> Seq<Seq<char>> {
    Seq::new(repos.len(), |i: int| repos[i].local->Some_0@)
}

/// The directories of the entries, in order.
pub fn config_repo_paths(repos: &Vec<RepoConfig>) -> (r: Vec<String>)
    requires
        all_local(repos@),
    ensures
        r.deep_view() == local_paths(repos@),
{
    let mut r: Vec<String> = Vec::new();
    let mut i: usize = 0;
    while i < repos.len()
        invariant
            i <= repos.len(),
            all_local(repos@),
            r.deep_view() == local_paths(repos@).take(i as int),
        decreases repos.len() - i,
    {
        let local = match &repos[i].local {
            Some(l) => l.clone(),
            None => String::new(),
        };
        assert(local@ == repos@[i as int].local->Some_0@);
        let ghost before = r.deep_view();
        r.push(local);
        assert(r.deep_view() =~= before.push(local@));
        assert(r.deep_view() =~= local_paths(repos@).take(i + 1));
        i = i + 1;
    }
    assert(local_paths(repos@).take(i as int) =~= local_paths(repos@));
    r
}

/// A snapshot leaves out a repository whose displayed path is in `ignore`.
pub fn snapshot_skips(shown_path: &str, ignore: &Option<Vec<String>>) -> (r: bool)
    ensures
        r == (ignore matches Some(v) && v.deep_view().contains(shown_path@)),
{
    match ignore {
        Some(v) => strings_contain(v, shown_path),
        None => false,
    }
}

/// The branch of a tracking reference such as `origin/main`: what follows
/// the first `/`, trimmed.
pub open spec fn tracking_branch_name(refname: Seq<char>) -> Option<Seq<char>> {
    match split_once(refname, '/') {
        Some((_, b)) => Some(trim(b)),
        None => None,
    }
}

/// The branch of a tracking reference.
pub fn branch_of_tracking(refname: &str) -> (r: Option<String>)
    ensures
        r matches Some(b) ==> tracking_branch_name(refname@) == Some(b@),
        r is None ==> tracking_branch_name(refname@) is None,
{
    match split_once_str(refname, '/') {
        Some((_, b)) => Some(trim_str(b.as_str())),
        None => None,
    }
}

/// The sparse-checkout patterns of a repository from the output of
/// `git sparse-checkout list`: none when the command failed or printed
/// nothing but blanks, else the lines of the trimmed output.
pub open spec fn sparse_patterns(out: CmdResult) -> Option<Seq<Seq<char>>> {
    match out {
        Err(_) => None,
        Ok(c) => if trim(c@).len() == 0 {
            None
        } else {
            Some(lines(trim(c@)))
        },
    }
}

/// The sparse-checkout patterns of a repository.
pub fn sparse_of(out: &CmdResult) -> (r: Option<Vec<String>>)
    ensures
        r matches Some(v) ==> sparse_patterns(*out) == Some(v.deep_view()),
        r is None ==> sparse_patterns(*out) is None,
{
    match out {
        Err(_) => None,
        Ok(c) => {
            let t = trim_str(c.as_str());
            if t.as_str().is_empty() {
                None
            } else {
                Some(lines_str(t.as_str()))
            }
        },
    }
}

/// `r` is the entry a snapshot writes for the repository shown as `shown`:
/// its `origin` url when that was found, the commit checked out (a commit
/// snapshot) or the branch it tracks (a branch snapshot) when that was found,
/// and its sparse-checkout patterns; no tag and no labels.
pub open spec fn is_snapshot_entry(
    r: RepoConfig,
    shown: Seq<char>,
    snapshot_type: SnapshotType,
    remote: CmdResult,
    head: CmdResult,
    sparse: CmdResult,
) -> bool {
    &&& r.local matches Some(l) && l@ == shown
    &&& match remote {
        Ok(u) => r.remote matches Some(x) && x@ == u@,
        Err(_) => r.remote is None,
    }
    &&& match (snapshot_type, head) {
        (SnapshotType::Commit, Ok(c)) => r.commit matches Some(x) && x@ == c@,
        _ => r.commit is None,
    }
    &&& match (snapshot_type, head) {
        (SnapshotType::Branch, Ok(t)) => match tracking_branch_name(t@) {
            Some(b) => r.branch matches Some(x) && x@ == b,
            None => r.branch is None,
        },
        _ => r.branch is None,
    }
    &&& match sparse_patterns(sparse) {
        Some(p) => r.sparse matches Some(v) && v.deep_view() == p,
        None => r.sparse is None,
    }
    &&& r.tag is None
    &&& r.labels is None
}

/// The entry a snapshot writes for the repository at `shown_path`: its
/// `origin` url when that was found, the commit checked out (a commit
/// snapshot) or the branch it tracks (a branch snapshot) when that was found,
/// and its sparse-checkout patterns.  `head` is the output of the query that
/// the snapshot type asks for: the current commit, or the tracking branch.
pub fn snapshot_entry(
    shown_path: &str,
    snapshot_type: SnapshotType,
    remote: &CmdResult,
    head: &CmdResult,
    sparse: &CmdResult,
) -> (r: RepoConfig)
    ensures
        is_snapshot_entry(r, shown_path@, snapshot_type, *remote, *head, *sparse),
{
    let remote_url = match remote {
        Ok(u) => Some(u.clone()),
        Err(_) => None,
    };
    let mut commit: Option<String> = None;
    let mut branch: Option<String> = None;
    match snapshot_type {
        SnapshotType::Commit => {
            if let Ok(c) = head {
                commit = Some(c.clone());
            }
        },
        SnapshotType::Branch => {
            if let Ok(t) = head {
                branch = branch_of_tracking(t.as_str());
            }
        },
    }
    RepoConfig {
        local: Some(String::from_str(shown_path)),
        remote: remote_url,
        branch,
        tag: None,
        commit,
        sparse: sparse_of(sparse),
        labels: None,
    }
}

/// The key by which a snapshot orders its entries: the lowercase directory.
pub open spec fn local_key(r: RepoConfig) -> Seq<char> {
    lowercase(r.local->Some_0@)
}

/// The entries are in the order of their keys.
pub open spec fn ordered_by_local(s: Seq<RepoConfig>) -> bool {
    forall|i: int, j: int|
        0 <= i < j < s.len() ==> !text_less(local_key(#[trigger] s[j]), local_key(#[trigger] s[i]))
}

/// The entries of `s` whose key is `key`, in order.
pub open spec fn with_key(s: Seq<RepoConfig>, key: Seq<char>) -> Seq<RepoConfig>
    decreases s.len(),
{
    if s.len() == 0 {
        Seq::empty()
    } else if local_key(s.last()) == key {
        with_key(s.drop_last(), key).push(s.last())
    } else {
        with_key(s.drop_last(), key)
    }
}

/// Inserting `x` before entries that all have other keys than `x` adds `x`
/// at the end of the entries with its key and leaves the others.
proof fn lemma_with_key_insert(s: Seq<RepoConfig>, j: int, x: RepoConfig, key: Seq<char>)
    requires
        0 <= j <= s.len(),
        forall|a: int| j <= a < s.len() ==> local_key(#[trigger] s[a]) != local_key(x),
    ensures
        with_key(s.insert(j, x), key) == if local_key(x) == key {
            with_key(s, key).push(x)
        } else {
            with_key(s, key)
        },
    decreases s.len(),
{
    if j == s.len() {
        assert(s.insert(j, x) =~= s.push(x));
        assert(s.push(x).drop_last() =~= s);
    } else {
        let t = s.insert(j, x);
        assert(t.drop_last() =~= s.drop_last().insert(j, x));
        assert(t.last() == s.last());
        lemma_with_key_insert(s.drop_last(), j, x, key);
        assert(local_key(s.last()) != local_key(x));
    }
}

/// The entries with `key` among the first `n + 1` of `s` extend those among
/// the first `n`.
proof fn lemma_with_key_take(s: Seq<RepoConfig>, n: int, key: Seq<char>)
    requires
        0 <= n < s.len(),
    ensures
        with_key(s.take(n + 1), key) == if local_key(s[n]) == key {
            with_key(s.take(n), key).push(s[n])
        } else {
            with_key(s.take(n), key)
        },
{
    assert(s.take(n + 1).drop_last() =~= s.take(n));
    assert(s.take(n + 1).last() == s[n]);
}

/// Orders the entries by their lowercase directories; entries with equal
/// keys keep their order.
pub fn sort_by_local(repos: Vec<RepoConfig>) -> (r: Vec<RepoConfig>)
    requires
        all_local(repos@),
    ensures
        r@.to_multiset() == repos@.to_multiset(),
        ordered_by_local(r@),
        all_local(r@),
        forall|key: Seq<char>| #[trigger] with_key(r@, key) == with_key(repos@, key),
{
    let ghost all = repos@;
    let mut rest = repos;
    let mut sorted: Vec<RepoConfig> = Vec::new();
    let mut keys: Vec<String> = Vec::new();
    let total: usize = rest.len();
    let mut k: usize = 0;
    assert(sorted@ =~= all.take(0));
    assert(rest@ =~= all.skip(0));
    while rest.len() > 0
        invariant
            k + rest@.len() == all.len(),
            all.len() == total,
            rest@ == all.skip(k as int),
            all_local(all),
            sorted@.to_multiset() == all.take(k as int).to_multiset(),
            ordered_by_local(sorted@),
            all_local(sorted@),
            keys@.len() == sorted@.len(),
            forall|i: int| 0 <= i < sorted@.len() ==> (#[trigger] keys@[i])@ == local_key(sorted@[i]),
            forall|key: Seq<char>| #[trigger] with_key(sorted@, key) == with_key(all.take(k as int), key),
        decreases rest@.len(),
    {
        let item = rest.remove(0);
        assert(all.take(k + 1) =~= all.take(k as int).push(item));
        assert(item.local is Some);
        let key = match &item.local {
            Some(l) => to_lowercase_str(l.as_str()),
            None => String::new(),
        };
        let mut j: usize = 0;
        while j < sorted.len() && !text_less_exec(key.as_str(), keys[j].as_str())
            invariant
                j <= sorted@.len(),
                keys@.len() == sorted@.len(),
                forall|i: int| 0 <= i < sorted@.len() ==> (#[trigger] keys@[i])@ == local_key(sorted@[i]),
                key@ == local_key(item),
                forall|i: int| 0 <= i < j ==> !text_less(local_key(item), local_key(#[trigger] sorted@[i])),
            decreases sorted@.len() - j,
        {
            j = j + 1;
        }
        let ghost old_sorted = sorted@;
        proof {
            assert forall|a: int, b: int| 0 <= a < b < old_sorted.len() + 1 implies !text_less(
                local_key(#[trigger] old_sorted.insert(j as int, item)[b]),
                local_key(#[trigger] old_sorted.insert(j as int, item)[a]),
            ) by {
                let s2 = old_sorted.insert(j as int, item);
                if a < j && b == j {
                } else if a == j && b > j {
                    let kb = local_key(old_sorted[b - 1]);
                    let kj = local_key(old_sorted[j as int]);
                    assert(text_less(local_key(item), kj));
                    if b - 1 > j {
                        assert(!text_less(kb, kj));
                    }
                    if text_less(kb, local_key(item)) {
                        lemma_text_less_transitive(kb, local_key(item), kj);
                        if b - 1 == j {
                            lemma_text_less_irreflexive(kj);
                        }
                    }
                } else if a < j && b < j {
                    assert(s2[a] == old_sorted[a] && s2[b] == old_sorted[b]);
                } else if a < j && b > j {
                    assert(s2[a] == old_sorted[a] && s2[b] == old_sorted[b - 1]);
                } else {
                    assert(s2[a] == old_sorted[a - 1] && s2[b] == old_sorted[b - 1]);
                }
            }
        }
        let ghost done_before = all.take(k as int);
        sorted.insert(j, item);
        keys.insert(j, key);
        proof {
            assert(sorted@ == old_sorted.insert(j as int, item));
            vstd::seq_lib::to_multiset_insert(old_sorted, j as int, item);
            vstd::seq_lib::to_multiset_build(done_before, item);
            assert forall|a: int| j <= a < old_sorted.len() implies local_key(#[trigger] old_sorted[a])
                != local_key(item) by {
                lemma_text_less_irreflexive(local_key(item));
                if a > j {
                    assert(!text_less(local_key(old_sorted[a]), local_key(old_sorted[j as int])));
                    if local_key(old_sorted[a]) == local_key(item) {
                        assert(text_less(local_key(item), local_key(old_sorted[j as int])));
                    }
                }
            }
            assert forall|key: Seq<char>| #[trigger] with_key(sorted@, key) == with_key(
                all.take(k + 1),
                key,
            ) by {
                lemma_with_key_insert(old_sorted, j as int, item, key);
                lemma_with_key_take(all, k as int, key);
                assert(all[k as int] == item);
            }
        }
        k = k + 1;
        assert(rest@ =~= all.skip(k as int));
        assert(forall|i: int| 0 <= i < sorted@.len() ==> (#[trigger] sorted@[i]).local is Some);
    }
    assert(all.take(k as int) =~= all);
    sorted
}

/// The repositories file a snapshot writes: no version or default remote,
/// `develop` as the default branch, and the entries ordered by their
/// lowercase directories, those with equal keys in the order found.
pub fn snapshot_config(repos: Vec<RepoConfig>) -> (r: MgitConfig)
    requires
        all_local(repos@),
    ensures
        r.version is None,
        r.default_branch matches Some(b) && b@ == "develop"@,
        r.default_remote is None,
        r.repos matches Some(v) && v@.to_multiset() == repos@.to_multiset() && ordered_by_local(
            v@,
        ) && forall|key: Seq<char>| #[trigger] with_key(v@, key) == with_key(repos@, key),
{
    MgitConfig {
        version: None,
        default_branch: Some(String::from_str("develop")),
        default_remote: None,
        repos: Some(sort_by_local(repos)),
    }
}

/// Entry `r` takes part in a batch operation: its displayed directory is not
/// in `ignore`, and it has one of `labels` when labels are given.
pub open spec fn takes_part(
    r: RepoConfig,
    ignore: Option<Seq<Seq<char>>>,
    labels: Option<Seq<Seq<char>>>,
) -> bool {
    &&& !(ignore matches Some(i) && i.contains(display_path(r.local->Some_0@)))
    &&& (labels matches Some(l) ==> has_label(r.labels, l))
}

/// The optional list of texts as sequences.
pub open spec fn opt_texts(v: Option<&Vec<String>>) -> Option<Seq<Seq<char>>> {
    match v {
        Some(x) => Some(x.deep_view()),
        None => None,
    }
}

/// The positions of the entries that take part in a batch operation, in
/// order; a repository keeps its position as its id.
pub fn selected_repo_ids(
    repos: &Vec<RepoConfig>,
    ignore: Option<&Vec<String>>,
    labels: Option<&Vec<String>>,
) -> (r: Vec<usize>)
    requires
        all_local(repos@),
    ensures
        forall|i: int| 0 <= i < r@.len() ==> (#[trigger] r@[i]) < repos@.len(),
        forall|i: int, j: int| 0 <= i < j < r@.len() ==> #[trigger] r@[i] < #[trigger] r@[j],
        forall|k: int|
            0 <= k < repos@.len() ==> (r@.contains(k as usize) <==> takes_part(
                #[trigger] repos@[k],
                opt_texts(ignore),
                opt_texts(labels),
            )),
{
    let mut r: Vec<usize> = Vec::new();
    let mut k: usize = 0;
    while k < repos.len()
        invariant
            k <= repos.len(),
            all_local(repos@),
            forall|i: int| 0 <= i < r@.len() ==> (#[trigger] r@[i]) < k,
            forall|i: int, j: int| 0 <= i < j < r@.len() ==> #[trigger] r@[i] < #[trigger] r@[j],
            forall|m: int|
                0 <= m < k ==> (r@.contains(m as usize) <==> takes_part(
                    #[trigger] repos@[m],
                    opt_texts(ignore),
                    opt_texts(labels),
                )),
        decreases repos.len() - k,
    {
        let shown = match &repos[k].local {
            Some(l) => display_path_str(l.as_str()),
            None => String::new(),
        };
        let ignored = match ignore {
            Some(v) => strings_contain(v, shown.as_str()),
            None => false,
        };
        let labelled = match labels {
            Some(l) => has_label_exec(&repos[k].labels, l),
            None => true,
        };
        let ghost before = r@;
        if !ignored && labelled {
            r.push(k);
            assert(r@[r@.len() - 1] == k);
        }
        assert forall|m: int| 0 <= m < k + 1 implies (r@.contains(m as usize) <==> takes_part(
            #[trigger] repos@[m],
            opt_texts(ignore),
            opt_texts(labels),
        )) by {
            if m < k {
                if before.contains(m as usize) {
                    let w = choose|w: int| 0 <= w < before.len() && before[w] == m as usize;
                    assert(r@[w] == m as usize);
                }
                if r@.contains(m as usize) {
                    let w = choose|w: int| 0 <= w < r@.len() && r@[w] == m as usize;
                    if w < before.len() {
                        assert(before[w] == m as usize);
                    }
                }
            } else {
                if r@.contains(m as usize) {
                    let w = choose|w: int| 0 <= w < r@.len() && r@[w] == m as usize;
                    if w < before.len() {
                        assert(before[w] < k);
                    }
                }
            }
        }
        k = k + 1;
    }
    r
}

/// The message of a batch operation with `failures` failed repositories:
/// the success message, or, as the error, the failure count.
pub fn batch_outcome(op: &str, failures: usize) -> (r: Result<StyleMessage, StyleMessage>)
    ensures
        failures == 0 ==> (r matches Ok(m) && m@ == seq![pl(op@ + " finished! 0 error(s).\n"@)]),
        failures > 0 ==> (r matches Err(m) && m@ == seq![
            pl(op@ + " finished! "@),
            st(decimal(failures as nat), Style::RedBold),
            pl(" error(s).\n"@),
        ]),
{
    if failures == 0 {
        Ok(StyleMessage::ops_success(op))
    } else {
        Err(StyleMessage::ops_failed(op, failures))
    }
}

/// The message of an operation on a repositories file that lists no
/// repositories, such as `No repos to clean`.
pub fn no_repos_message(op: &str) -> (r: StyleMessage)
    ensures
        r@ == seq![pl("No repos to "@ + op@)],
{
    let mut s = String::from_str("No repos to ");
    s.append(op);
    StyleMessage::new().plain_text(s.as_str())
}

/// A repository that the scan of a project found: its directory relative to
/// the project, whether git takes it for a repository, and the outputs of
/// the queries a snapshot makes of it (its `origin` url, the commit or
/// tracking branch the snapshot type asks for, its sparse-checkout list).
pub struct ScannedRepo {
    pub rel_path: String,
    pub check: Result<(), MgitError>,
    pub remote: CmdResult,
    pub head: CmdResult,
    pub sparse: CmdResult,
}

/// The repositories found that a snapshot lists, in the order found: those
/// that git takes for repositories and whose displayed directory is not in
/// `ignore`.
pub open spec fn kept_scans(s: Seq<ScannedRepo>, ignore: Option<Seq<Seq<char>>>) -> Seq<ScannedRepo>
    decreases s.len(),
{
    if s.len() == 0 {
        Seq::empty()
    } else {
        let x = s.last();
        let rest = kept_scans(s.drop_last(), ignore);
        if x.check is Ok && !(ignore matches Some(v) && v.contains(display_path(x.rel_path@))) {
            rest.push(x)
        } else {
            rest
        }
    }
}

/// The entries a snapshot writes for the repositories the scan found, in the
/// order found: one for each repository that git accepts and that is not
/// ignored, none for the others.
pub fn snapshot_entries(scanned: &Vec<ScannedRepo>, ignore: &Option<Vec<String>>, snapshot_type: SnapshotType) -> (r: Vec<
    RepoConfig,
>)
    ensures
        r@.len() == kept_scans(scanned@, opt_deep(*ignore)).len(),
        forall|i: int|
            0 <= i < r@.len() ==> {
                let k = kept_scans(scanned@, opt_deep(*ignore))[i];
                is_snapshot_entry(
                    #[trigger] r@[i],
                    display_path(k.rel_path@),
                    snapshot_type,
                    k.remote,
                    k.head,
                    k.sparse,
                )
            },
        all_local(r@),
{
    let ghost ig = opt_deep(*ignore);
    let mut r: Vec<RepoConfig> = Vec::new();
    let mut i: usize = 0;
    while i < scanned.len()
        invariant
            i <= scanned@.len(),
            ig == opt_deep(*ignore),
            r@.len() == kept_scans(scanned@.take(i as int), ig).len(),
            forall|j: int|
                0 <= j < r@.len() ==> {
                    let k = kept_scans(scanned@.take(i as int), ig)[j];
                    is_snapshot_entry(
                        #[trigger] r@[j],
                        display_path(k.rel_path@),
                        snapshot_type,
                        k.remote,
                        k.head,
                        k.sparse,
                    )
                },
            all_local(r@),
        decreases scanned@.len() - i,
    {
        let ghost before = kept_scans(scanned@.take(i as int), ig);
        assert(scanned@.take(i + 1).drop_last() =~= scanned@.take(i as int));
        assert(scanned@.take(i + 1).last() == scanned@[i as int]);
        let x = &scanned[i];
        let shown = display_path_str(x.rel_path.as_str());
        if x.check.is_ok() && !snapshot_skips(shown.as_str(), ignore) {
            let e = snapshot_entry(shown.as_str(), snapshot_type, &x.remote, &x.head, &x.sparse);
            r.push(e);
            proof {
                let now = kept_scans(scanned@.take(i + 1), ig);
                assert(now == before.push(scanned@[i as int]));
                assert forall|j: int| 0 <= j < r@.len() implies {
                    let k = now[j];
                    is_snapshot_entry(
                        #[trigger] r@[j],
                        display_path(k.rel_path@),
                        snapshot_type,
                        k.remote,
                        k.head,
                        k.sparse,
                    )
                } by {
                    if j < r@.len() - 1 {
                        assert(now[j] == before[j]);
                    }
                }
            }
        }
        i = i + 1;
    }
    assert(scanned@.take(i as int) =~= scanned@);
    r
}

} // verus!
