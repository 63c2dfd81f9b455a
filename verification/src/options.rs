//! Options of the operations.
//!
//! An operation without a path works in the current directory, which the
//! caller passes as `current_dir`.
use crate::path::{join_path, join_path_str};
use vstd::prelude::*;

verus! {

broadcast use vstd::string::group_string_axioms;

/// `p`, or `current_dir` when absent.
pub open spec fn path_or(p: Option<String>, current_dir: Seq<char>) -> Seq<char> {
    match p {
        Some(s) => s@,
        None => current_dir,
    }
}

/// The repositories file of a project: `config_path`, or `.gitrepos` in the
/// project directory.
pub open spec fn config_or(config_path: Option<String>, path: Seq<char>) -> Seq<char> {
    match config_path {
        Some(s) => s@,
        None => join_path(path, ".gitrepos"@),
    }
}

fn resolve_path(path: Option<String>, current_dir: &str) -> (r: String)
    ensures
        r@ == path_or(path, current_dir@),
{
    match path {
        Some(p) => p,
        None => String::from_str(current_dir),
    }
}

fn resolve_config(config_path: Option<String>, path: &str) -> (r: String)
    ensures
        r@ == config_or(config_path, path@),
{
    match config_path {
        Some(c) => c,
        None => join_path_str(path, ".gitrepos"),
    }
}

/// What a snapshot records of each repository.
#[derive(PartialEq, Eq, Structural, Debug, Clone, Copy)]
pub enum SnapshotType {
    Commit,
    Branch,
}

/// Options of `clean`.
#[derive(Debug)]
pub struct CleanOptions {
    pub path: String,
    pub config_path: String,
    pub labels: Option<Vec<String>>,
}

impl CleanOptions {
    pub fn new(
        path: Option<String>,
        config_path: Option<String>,
        labels: Option<Vec<String>>,
        current_dir: &str,
    ) -> (r: Self)
        ensures
            r.path@ == path_or(path, current_dir@),
            r.config_path@ == config_or(config_path, r.path@),
            r.labels == labels,
    {
        let path = resolve_path(path, current_dir);
        let config_path = resolve_config(config_path, path.as_str());
        CleanOptions { path, config_path, labels }
    }
}

/// Options of `ls-files`.
#[derive(Debug)]
pub struct ListFilesOptions {
    pub path: String,
    pub config_path: String,
    pub labels: Option<Vec<String>>,
}

impl ListFilesOptions {
    pub fn new(
        path: Option<String>,
        config_path: Option<String>,
        labels: Option<Vec<String>>,
        current_dir: &str,
    ) -> (r: Self)
        ensures
            r.path@ == path_or(path, current_dir@),
            r.config_path@ == config_or(config_path, r.path@),
            r.labels == labels,
    {
        let clean_options = CleanOptions::new(path, config_path, labels, current_dir);
        ListFilesOptions {
            path: clean_options.path,
            config_path: clean_options.config_path,
            labels: clean_options.labels,
        }
    }
}

/// Options of `fetch`.
#[derive(Debug)]
pub struct FetchOptions {
    pub path: String,
    pub config_path: String,
    pub thread_count: usize,
    pub silent: bool,
    pub depth: Option<usize>,
    pub ignore: Option<Vec<String>>,
    pub labels: Option<Vec<String>>,
}

impl FetchOptions {
    pub fn new(
        path: Option<String>,
        config_path: Option<String>,
        thread: Option<usize>,
        silent: Option<bool>,
        depth: Option<usize>,
        ignore: Option<Vec<String>>,
        labels: Option<Vec<String>>,
        current_dir: &str,
    ) -> (r: Self)
        ensures
            r.path@ == path_or(path, current_dir@),
            r.config_path@ == config_or(config_path, r.path@),
            r.thread_count == match thread {
                Some(t) => t,
                None => 4,
            },
            r.silent == match silent {
                Some(s) => s,
                None => false,
            },
            r.depth == depth,
            r.ignore == ignore,
            r.labels == labels,
    {
        let path = resolve_path(path, current_dir);
        let config_path = resolve_config(config_path, path.as_str());
        let thread_count = match thread {
            Some(t) => t,
            None => 4,
        };
        let silent = match silent {
            Some(s) => s,
            None => false,
        };
        FetchOptions { path, config_path, thread_count, silent, depth, ignore, labels }
    }
}

/// Options of `snapshot`.
#[derive(Debug)]
pub struct SnapshotOptions {
    pub path: String,
    pub config_path: String,
    pub force: bool,
    pub snapshot_type: SnapshotType,
    pub ignore: Option<Vec<String>>,
}

impl SnapshotOptions {
    pub fn new(
        path: Option<String>,
        config_path: Option<String>,
        force: Option<bool>,
        snapshot_type: Option<SnapshotType>,
        ignore: Option<Vec<String>>,
        current_dir: &str,
    ) -> (r: Self)
        ensures
            r.path@ == path_or(path, current_dir@),
            r.config_path@ == config_or(config_path, r.path@),
            r.force == match force {
                Some(f) => f,
                None => false,
            },
            r.snapshot_type == match snapshot_type {
                Some(t) => t,
                None => SnapshotType::Commit,
            },
            r.ignore == ignore,
    {
        let path = resolve_path(path, current_dir);
        let config_path = resolve_config(config_path, path.as_str());
        let force = match force {
            Some(f) => f,
            None => false,
        };
        let snapshot_type = match snapshot_type {
            Some(t) => t,
            None => SnapshotType::Commit,
        };
        SnapshotOptions { path, config_path, force, snapshot_type, ignore }
    }
}

/// Options of `init`.
pub trait InitOptions: Sized {
    /// The project directory.
    spec fn spec_path(&self) -> Seq<char>;

    /// Whether an existing repositories file is overwritten.
    spec fn spec_force(&self) -> bool;

    fn new_init_options(path: Option<String>, force: Option<bool>, current_dir: &str) -> (r: Self)
        ensures
            r.spec_path() == path_or(path, current_dir@),
            r.spec_force() == match force {
                Some(f) => f,
                None => false,
            },
    ;

    fn path(&self) -> (r: String)
        ensures
            r@ == self.spec_path(),
    ;

    fn force(&self) -> (r: bool)
        ensures
            r == self.spec_force(),
    ;
}

/// `init` scans the project like a snapshot of branches that may overwrite
/// the repositories file: the options of that snapshot.
pub fn init_repo<O: InitOptions>(options: &O) -> (r: SnapshotOptions)
    ensures
        r.path@ == options.spec_path(),
        r.config_path@ == join_path(options.spec_path(), ".gitrepos"@),
        r.force == options.spec_force(),
        r.snapshot_type == SnapshotType::Branch,
        r.ignore is None,
{
    let path = options.path();
    let force = options.force();
    let config_file = join_path_str(path.as_str(), ".gitrepos");
    SnapshotOptions {
        path,
        config_path: config_file,
        force,
        snapshot_type: SnapshotType::Branch,
        ignore: None,
    }
}

/// The options of every command in one record; an absent value was not set.
#[derive(Debug)]
pub struct CoreOptions {
    pub path: String,
    pub force: Option<bool>,
    pub thread_count: Option<usize>,
    pub silent: Option<bool>,
    pub depth: Option<usize>,
    pub ignore: Option<Vec<String>>,
    pub config_path: Option<String>,
    pub hard: Option<bool>,
    pub stash: Option<bool>,
    pub no_track: Option<bool>,
    pub no_checkout: Option<bool>,
    pub snapshot_type: Option<SnapshotType>,
}

/// `o`, or `Some(d)` when it is absent.
pub open spec fn some_or<T>(o: Option<T>, d: T) -> Option<T> {
    match o {
        Some(v) => Some(v),
        None => Some(d),
    }
}

fn some_or_exec<T>(o: Option<T>, d: T) -> (r: Option<T>)
    ensures
        r == some_or(o, d),
{
    match o {
        Some(v) => Some(v),
        None => Some(d),
    }
}

impl CoreOptions {
    fn empty(path: String) -> (r: Self)
        ensures
            r.path == path,
            r.force is None && r.thread_count is None && r.silent is None && r.depth is None,
            r.ignore is None && r.config_path is None && r.hard is None && r.stash is None,
            r.no_track is None && r.no_checkout is None && r.snapshot_type is None,
    {
        CoreOptions {
            path,
            force: None,
            thread_count: None,
            silent: None,
            depth: None,
            ignore: None,
            config_path: None,
            hard: None,
            stash: None,
            no_track: None,
            no_checkout: None,
            snapshot_type: None,
        }
    }

    /// Options of `snapshot`: the repositories file defaults to `.gitrepos`
    /// in the project, no overwrite, and commits are recorded.
    pub fn new_snapshot_options(
        path: Option<String>,
        config_path: Option<String>,
        force: Option<bool>,
        snapshot_type: Option<SnapshotType>,
        ignore: Option<Vec<String>>,
        current_dir: &str,
    ) -> (r: Self)
        ensures
            r.path@ == path_or(path, current_dir@),
            r.config_path matches Some(c) && c@ == config_or(config_path, r.path@),
            r.force == some_or(force, false),
            r.snapshot_type == some_or(snapshot_type, SnapshotType::Commit),
            r.ignore == ignore,
            r.thread_count is None && r.silent is None && r.depth is None && r.hard is None,
            r.stash is None && r.no_track is None && r.no_checkout is None,
    {
        let path = resolve_path(path, current_dir);
        let config = resolve_config(config_path, path.as_str());
        let mut r = CoreOptions::empty(path);
        r.config_path = Some(config);
        r.force = some_or_exec(force, false);
        r.snapshot_type = some_or_exec(snapshot_type, SnapshotType::Commit);
        r.ignore = ignore;
        r
    }

    /// Options of `fetch`: 4 threads and not silent unless given.
    pub fn new_fetch_options(
        path: Option<String>,
        config_path: Option<String>,
        thread: Option<usize>,
        silent: Option<bool>,
        depth: Option<usize>,
        ignore: Option<Vec<String>>,
        current_dir: &str,
    ) -> (r: Self)
        ensures
            r.path@ == path_or(path, current_dir@),
            r.config_path matches Some(c) && c@ == config_or(config_path, r.path@),
            r.thread_count == some_or(thread, 4),
            r.silent == some_or(silent, false),
            r.depth == depth,
            r.ignore == ignore,
            r.force is None && r.hard is None && r.stash is None && r.no_track is None,
            r.no_checkout is None && r.snapshot_type is None,
    {
        let path = resolve_path(path, current_dir);
        let config = resolve_config(config_path, path.as_str());
        let mut r = CoreOptions::empty(path);
        r.config_path = Some(config);
        r.thread_count = some_or_exec(thread, 4);
        r.silent = some_or_exec(silent, false);
        r.depth = depth;
        r.ignore = ignore;
        r
    }

    /// Options of `clean`.
    pub fn new_clean_options(path: Option<String>, config_path: Option<String>, current_dir: &str) -> (r:
        Self)
        ensures
            r.path@ == path_or(path, current_dir@),
            r.config_path matches Some(c) && c@ == config_or(config_path, r.path@),
            r.force is None && r.thread_count is None && r.silent is None && r.depth is None,
            r.ignore is None && r.hard is None && r.stash is None && r.no_track is None,
            r.no_checkout is None && r.snapshot_type is None,
    {
        let path = resolve_path(path, current_dir);
        let config = resolve_config(config_path, path.as_str());
        let mut r = CoreOptions::empty(path);
        r.config_path = Some(config);
        r
    }

    /// Options of `ls-files`: the same as those of `clean`.
    pub fn new_list_files_options(
        path: Option<String>,
        config_path: Option<String>,
        current_dir: &str,
    ) -> (r: Self)
        ensures
            r.path@ == path_or(path, current_dir@),
            r.config_path matches Some(c) && c@ == config_or(config_path, r.path@),
            r.force is None && r.thread_count is None && r.silent is None && r.depth is None,
            r.ignore is None && r.hard is None && r.stash is None && r.no_track is None,
            r.no_checkout is None && r.snapshot_type is None,
    {
        CoreOptions::new_clean_options(path, config_path, current_dir)
    }

    /// Options of `track`.
    pub fn new_track_options(
        path: Option<String>,
        config_path: Option<String>,
        ignore: Option<Vec<String>>,
        current_dir: &str,
    ) -> (r: Self)
        ensures
            r.path@ == path_or(path, current_dir@),
            r.config_path matches Some(c) && c@ == config_or(config_path, r.path@),
            r.ignore == ignore,
            r.force is None && r.thread_count is None && r.silent is None && r.depth is None,
            r.hard is None && r.stash is None && r.no_track is None,
            r.no_checkout is None && r.snapshot_type is None,
    {
        let path = resolve_path(path, current_dir);
        let config = resolve_config(config_path, path.as_str());
        let mut r = CoreOptions::empty(path);
        r.config_path = Some(config);
        r.ignore = ignore;
        r
    }

    /// Options of `sync`: 4 threads, not silent, and every switch off unless
    /// given.
    pub fn new_sync_options(
        path: Option<String>,
        config_path: Option<String>,
        thread_count: Option<usize>,
        silent: Option<bool>,
        depth: Option<usize>,
        ignore: Option<Vec<String>>,
        hard: Option<bool>,
        stash: Option<bool>,
        no_track: Option<bool>,
        no_checkout: Option<bool>,
        current_dir: &str,
    ) -> (r: Self)
        ensures
            r.path@ == path_or(path, current_dir@),
            r.config_path matches Some(c) && c@ == config_or(config_path, r.path@),
            r.thread_count == some_or(thread_count, 4),
            r.silent == some_or(silent, false),
            r.depth == depth,
            r.ignore == ignore,
            r.hard == some_or(hard, false),
            r.stash == some_or(stash, false),
            r.no_track == some_or(no_track, false),
            r.no_checkout == some_or(no_checkout, false),
            r.force is None && r.snapshot_type is None,
    {
        let path = resolve_path(path, current_dir);
        let config = resolve_config(config_path, path.as_str());
        let mut r = CoreOptions::empty(path);
        r.config_path = Some(config);
        r.thread_count = some_or_exec(thread_count, 4);
        r.silent = some_or_exec(silent, false);
        r.depth = depth;
        r.ignore = ignore;
        r.hard = some_or_exec(hard, false);
        r.stash = some_or_exec(stash, false);
        r.no_track = some_or_exec(no_track, false);
        r.no_checkout = some_or_exec(no_checkout, false);
        r
    }

    /// The repositories file; set by every constructor but `init`'s.
    pub fn config_path(&self) -> (r: &String)
        requires
            self.config_path is Some,
        ensures
            Some(*r) == self.config_path,
    {
        match &self.config_path {
            Some(c) => c,
            None => {
                proof {
                    assert(false);
                }
                &self.path
            },
        }
    }

    /// What a snapshot records.
    pub fn snapshot_type(&self) -> (r: SnapshotType)
        requires
            self.snapshot_type is Some,
        ensures
            Some(r) == self.snapshot_type,
    {
        match self.snapshot_type {
            Some(t) => t,
            None => SnapshotType::Commit,
        }
    }

    /// The ignored repositories.
    pub fn ignore(&self) -> (r: &Option<Vec<String>>)
        ensures
            *r == self.ignore,
    {
        &self.ignore
    }

    /// The number of threads.
    pub fn thread_count(&self) -> (r: usize)
        requires
            self.thread_count is Some,
        ensures
            Some(r) == self.thread_count,
    {
        match self.thread_count {
            Some(t) => t,
            None => 4,
        }
    }

    /// Whether progress is not reported.
    pub fn silent(&self) -> (r: bool)
        requires
            self.silent is Some,
        ensures
            Some(r) == self.silent,
    {
        match self.silent {
            Some(s) => s,
            None => false,
        }
    }

    /// The fetch depth.
    pub fn depth(&self) -> (r: Option<usize>)
        ensures
            r == self.depth,
    {
        self.depth
    }

    /// Whether `sync` resets hard.
    pub fn hard(&self) -> (r: bool)
        requires
            self.hard is Some,
        ensures
            Some(r) == self.hard,
    {
        match self.hard {
            Some(b) => b,
            None => false,
        }
    }

    /// Whether `sync` stashes local changes.
    pub fn stash(&self) -> (r: bool)
        requires
            self.stash is Some,
        ensures
            Some(r) == self.stash,
    {
        match self.stash {
            Some(b) => b,
            None => false,
        }
    }

    /// Whether `sync` leaves tracking alone.
    pub fn no_track(&self) -> (r: bool)
        requires
            self.no_track is Some,
        ensures
            Some(r) == self.no_track,
    {
        match self.no_track {
            Some(b) => b,
            None => false,
        }
    }

    /// Whether `sync` leaves checkouts alone.
    pub fn no_checkout(&self) -> (r: bool)
        requires
            self.no_checkout is Some,
        ensures
            Some(r) == self.no_checkout,
    {
        match self.no_checkout {
            Some(b) => b,
            None => false,
        }
    }
}

impl InitOptions for CoreOptions {
    open spec fn spec_path(&self) -> Seq<char> {
        self.path@
    }

    open spec fn spec_force(&self) -> bool {
        match self.force {
            Some(f) => f,
            None => false,
        }
    }

    /// Options of `init`: an existing repositories file is overwritten only
    /// when forced.
    fn new_init_options(path: Option<String>, force: Option<bool>, current_dir: &str) -> (r: Self) {
        let path = resolve_path(path, current_dir);
        let mut r = CoreOptions::empty(path);
        r.force = some_or_exec(force, false);
        r
    }

    fn path(&self) -> (r: String) {
        self.path.clone()
    }

    fn force(&self) -> (r: bool) {
        match self.force {
            Some(f) => f,
            None => false,
        }
    }
}

} // verus!
