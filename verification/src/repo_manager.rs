//! The repositories of the open project as the application tracks them:
//! their states, the cache of remote branches, and the delayed saving of the
//! repositories file.
use crate::config::{repos_of, MgitConfig, RepoConfig};
use crate::session::SessionManager;
use crate::settings::{saved_ignore, text_of, TomlProjectSettings};
use crate::path::{display_path, display_path_str};
use crate::repo_state::{
    is_default_state, is_reset_of, is_update_of, reset_state, updated_state, RepoState,
    StateType,
};
use crate::text::strings_contain;
use vstd::prelude::*;

verus! {

broadcast use vstd::string::group_string_axioms;

/// What is known of the remote branches of one repository.
#[derive(Debug)]
pub struct RemoteBranchesCacheEntry {
    pub loading: bool,
    pub branches: Vec<String>,
    pub error: Option<String>,
}

/// An entry as (loading, branches, error).
pub type EntryView = (bool, Seq<Seq<char>>, Option<Seq<char>>);

/// The view of an entry.
pub open spec fn entry_view(e: RemoteBranchesCacheEntry) -> EntryView {
    (
        e.loading,
        e.branches.deep_view(),
        match e.error {
            Some(s) => Some(s@),
            None => None,
        },
    )
}

/// The remote branches of the repositories, by repository path; each path
/// has at most one entry.
#[derive(Debug)]
pub struct RemoteBranchesCache {
    entries: Vec<(String, RemoteBranchesCacheEntry)>,
}

/// No key occurs twice.
pub open spec fn keys_distinct(s: Seq<(String, RemoteBranchesCacheEntry)>) -> bool {
    forall|i: int, j: int| 0 <= i < j < s.len() ==> #[trigger] s[i].0@ != #[trigger] s[j].0@
}

/// The first position at or after `k` whose key is `key`.
pub open spec fn key_index(s: Seq<(String, RemoteBranchesCacheEntry)>, key: Seq<char>, k: int) -> Option<int>
    decreases s.len() - k,
{
    if k < 0 || k >= s.len() {
        None
    } else if s[k].0@ == key {
        Some(k)
    } else {
        key_index(s, key, k + 1)
    }
}

proof fn lemma_key_index(s: Seq<(String, RemoteBranchesCacheEntry)>, key: Seq<char>, k: int)
    requires
        0 <= k,
    ensures
        key_index(s, key, k) matches Some(i) ==> k <= i < s.len() && s[i].0@ == key && forall|j: int|
            k <= j < i ==> s[j].0@ != key,
        key_index(s, key, k) is None ==> forall|j: int| k <= j < s.len() ==> s[j].0@ != key,
    decreases s.len() - k,
{
    if k < s.len() && s[k].0@ != key {
        lemma_key_index(s, key, k + 1);
    }
}

impl RemoteBranchesCache {
    #[verifier::type_invariant]
    spec fn well_formed(self) -> bool {
        keys_distinct(self.entries@)
    }

    /// What the cache holds for `key`.
    pub closed spec fn lookup(&self, key: Seq<char>) -> Option<EntryView> {
        match key_index(self.entries@, key, 0) {
            Some(i) => Some(entry_view(self.entries@[i].1)),
            None => None,
        }
    }

    /// An empty cache.
    pub fn new() -> (r: Self)
        ensures
            forall|k: Seq<char>| r.lookup(k) is None,
    {
        RemoteBranchesCache { entries: Vec::new() }
    }

    /// Forgets every entry.
    pub fn clear(&mut self)
        ensures
            forall|k: Seq<char>| final(self).lookup(k) is None,
    {
        self.entries = Vec::new();
    }

    fn find(&self, key: &str) -> (r: Option<usize>)
        ensures
            r matches Some(i) ==> key_index(self.entries@, key@, 0) == Some(i as int),
            r is None ==> key_index(self.entries@, key@, 0) is None,
    {
        let k = String::from_str(key);
        let mut i: usize = 0;
        while i < self.entries.len()
            invariant
                i <= self.entries.len(),
                k@ == key@,
                key_index(self.entries@, key@, 0) == key_index(self.entries@, key@, i as int),
            decreases self.entries.len() - i,
        {
            if self.entries[i].0 == k {
                return Some(i);
            }
            i = i + 1;
        }
        None
    }

    /// What the cache holds for `key`, a fresh entry when nothing.
    pub open spec fn lookup_or_default(&self, key: Seq<char>) -> EntryView {
        match self.lookup(key) {
            Some(e) => e,
            None => (false, Seq::empty(), None),
        }
    }

    /// Asking for the remote branches of `key` starts a load: its entry is
    /// not loading, has no error and no branches.
    pub open spec fn wants_load(&self, key: Seq<char>) -> bool {
        let e = self.lookup_or_default(key);
        !e.0 && e.2 is None && e.1.len() == 0
    }

    /// The remote branches of `key` are asked for: a load starts, and the
    /// result is true, only when the entry is not loading, has no error and
    /// no branches; the entry then shows the load.  Otherwise the entry, a
    /// fresh one if there was none, stays.
    pub fn request_load(&mut self, key: &str) -> (r: bool)
        ensures
            r == old(self).wants_load(key@),
            r ==> final(self).lookup(key@) == Some((true, Seq::<Seq<char>>::empty(), None::<Seq<char>>)),
            !r ==> final(self).lookup(key@) == Some(old(self).lookup_or_default(key@)),
            forall|k: Seq<char>| k != key@ ==> final(self).lookup(k) == old(self).lookup(k),
    {
        proof {
            lemma_key_index(self.entries@, key@, 0);
        }
        let (loading, has_error, has_branches) = match self.find(key) {
            Some(i) => (
                self.entries[i].1.loading,
                self.entries[i].1.error.is_some(),
                self.entries[i].1.branches.len() > 0,
            ),
            None => (false, false, false),
        };
        if loading || has_error || has_branches {
            match self.find(key) {
                Some(_) => {},
                None => {
                    let fresh = RemoteBranchesCacheEntry {
                        loading: false,
                        branches: Vec::new(),
                        error: None,
                    };
                    assert(fresh.branches.deep_view() =~= Seq::<Seq<char>>::empty());
                    self.put(key, fresh);
                },
            }
            return false;
        }
        let e = RemoteBranchesCacheEntry { loading: true, branches: Vec::new(), error: None };
        assert(e.branches.deep_view() =~= Seq::<Seq<char>>::empty());
        self.put(key, e);
        true
    }

    /// Refreshing or retrying the remote branches of `key` forgets what was
    /// known of them and starts a new load.
    pub fn reload(&mut self, key: &str) -> (r: bool)
        ensures
            r,
            final(self).lookup(key@) == Some((true, Seq::<Seq<char>>::empty(), None::<Seq<char>>)),
            forall|k: Seq<char>| k != key@ ==> final(self).lookup(k) == old(self).lookup(k),
    {
        let e = RemoteBranchesCacheEntry { loading: false, branches: Vec::new(), error: None };
        assert(e.branches.deep_view() =~= Seq::<Seq<char>>::empty());
        self.put(key, e);
        self.request_load(key)
    }

    /// The remote branches of `key` arrived.
    pub fn on_loaded(&mut self, key: &str, branches: Vec<String>)
        ensures
            final(self).lookup(key@) == Some((false, branches.deep_view(), None::<Seq<char>>)),
            forall|k: Seq<char>| k != key@ ==> final(self).lookup(k) == old(self).lookup(k),
    {
        self.put(key, RemoteBranchesCacheEntry { loading: false, branches, error: None });
    }

    /// Loading the remote branches of `key` failed with `error`.
    pub fn on_failed(&mut self, key: &str, error: String)
        ensures
            final(self).lookup(key@) == Some((false, Seq::<Seq<char>>::empty(), Some(error@))),
            forall|k: Seq<char>| k != key@ ==> final(self).lookup(k) == old(self).lookup(k),
    {
        let e = RemoteBranchesCacheEntry { loading: false, branches: Vec::new(), error: Some(error) };
        assert(e.branches.deep_view() =~= Seq::<Seq<char>>::empty());
        self.put(key, e);
    }

    /// Sets the entry of `key` to `entry`, adding it when absent.
    pub fn put(&mut self, key: &str, entry: RemoteBranchesCacheEntry)
        ensures
            final(self).lookup(key@) == Some(entry_view(entry)),
            forall|k: Seq<char>| k != key@ ==> final(self).lookup(k) == old(self).lookup(k),
    {
        let ghost e = entry_view(entry);
        let ghost s = self.entries@;
        proof {
            lemma_key_index(s, key@, 0);
        }
        proof {
            use_type_invariant(&*self);
        }
        let found = self.find(key);
        let mut v: Vec<(String, RemoteBranchesCacheEntry)> = Vec::new();
        std::mem::swap(&mut v, &mut self.entries);
        match found {
            Some(i) => {
                let k = v[i].0.clone();
                v.set(i, (k, entry));
                proof {
                    let t = v@;
                    assert(keys_distinct(t)) by {
                        assert forall|a: int, b: int| 0 <= a < b < t.len() implies #[trigger] t[a].0@
                            != #[trigger] t[b].0@ by {
                            assert(t[a].0@ == s[a].0@);
                            assert(t[b].0@ == s[b].0@);
                        }
                    }
                }
                self.entries = v;
                proof {
                    let t = self.entries@;
                    lemma_key_index(t, key@, 0);
                    assert(key_index(t, key@, 0) == Some(i as int)) by {
                        assert(t[i as int].0@ == key@);
                        assert forall|j: int| 0 <= j < i implies t[j].0@ != key@ by {
                            assert(t[j] == s[j]);
                        }
                        lemma_key_index_exact(t, key@, 0, i as int);
                    }
                    assert forall|k2: Seq<char>| k2 != key@ implies #[trigger] self.lookup(k2)
                        == old(self).lookup(k2) by {
                        lemma_key_index(s, k2, 0);
                        lemma_key_index(t, k2, 0);
                        lemma_same_keys_same_index(s, t, k2, i as int);
                    }
                }
            },
            None => {
                v.push((String::from_str(key), entry));
                proof {
                    let t = v@;
                    lemma_key_index(s, key@, 0);
                    assert(keys_distinct(t)) by {
                        assert forall|a: int, b: int| 0 <= a < b < t.len() implies #[trigger] t[a].0@
                            != #[trigger] t[b].0@ by {
                            assert(t[a] == s[a]);
                            if b < s.len() {
                                assert(t[b] == s[b]);
                            }
                        }
                    }
                }
                self.entries = v;
                proof {
                    let t = self.entries@;
                    lemma_key_index(t, key@, 0);
                    assert forall|j: int| 0 <= j < s.len() implies t[j].0@ != key@ by {
                        assert(t[j] == s[j]);
                    }
                    lemma_key_index_exact(t, key@, 0, s.len() as int);
                    assert forall|k2: Seq<char>| k2 != key@ implies #[trigger] self.lookup(k2)
                        == old(self).lookup(k2) by {
                        lemma_key_index(s, k2, 0);
                        lemma_key_index(t, k2, 0);
                        lemma_pushed_keys_same_index(s, t, k2);
                    }
                }
            },
        }
    }
}

proof fn lemma_key_index_exact(s: Seq<(String, RemoteBranchesCacheEntry)>, key: Seq<char>, k: int, i: int)
    requires
        0 <= k <= i < s.len(),
        s[i].0@ == key,
        forall|j: int| k <= j < i ==> s[j].0@ != key,
    ensures
        key_index(s, key, k) == Some(i),
    decreases i - k,
{
    if k < i {
        lemma_key_index_exact(s, key, k + 1, i);
    }
}

proof fn lemma_same_keys_same_index(
    s: Seq<(String, RemoteBranchesCacheEntry)>,
    t: Seq<(String, RemoteBranchesCacheEntry)>,
    key: Seq<char>,
    changed: int,
)
    requires
        s.len() == t.len(),
        0 <= changed < s.len(),
        forall|j: int| 0 <= j < s.len() && j != changed ==> t[j] == s[j],
        t[changed].0 == s[changed].0,
        s[changed].0@ != key,
    ensures
        key_index(s, key, 0) == key_index(t, key, 0),
        key_index(s, key, 0) matches Some(i) ==> t[i] == s[i],
{
    lemma_key_index(s, key, 0);
    lemma_key_index(t, key, 0);
    match key_index(s, key, 0) {
        Some(i) => {
            assert forall|j: int| 0 <= j < i implies t[j].0@ != key by {
                if j != changed {
                    assert(t[j] == s[j]);
                }
            }
            lemma_key_index_exact(t, key, 0, i);
        },
        None => {
            if let Some(i) = key_index(t, key, 0) {
                if i != changed {
                    assert(t[i] == s[i]);
                }
            }
        },
    }
}

proof fn lemma_pushed_keys_same_index(
    s: Seq<(String, RemoteBranchesCacheEntry)>,
    t: Seq<(String, RemoteBranchesCacheEntry)>,
    key: Seq<char>,
)
    requires
        t.len() == s.len() + 1,
        forall|j: int| 0 <= j < s.len() ==> t[j] == s[j],
        t[s.len() as int].0@ != key,
    ensures
        key_index(s, key, 0) == key_index(t, key, 0),
        key_index(s, key, 0) matches Some(i) ==> t[i] == s[i],
{
    lemma_key_index(s, key, 0);
    lemma_key_index(t, key, 0);
    match key_index(s, key, 0) {
        Some(i) => {
            assert forall|j: int| 0 <= j < i implies t[j].0@ != key by {
                assert(t[j] == s[j]);
            }
            lemma_key_index_exact(t, key, 0, i);
        },
        None => {
            if let Some(i) = key_index(t, key, 0) {
                if i < s.len() {
                    assert(t[i] == s[i]);
                }
            }
        },
    }
}

/// Branches that arrived, or a failed load, are kept: asking again for the
/// same repository starts no new load until the cache is cleared; a cleared
/// cache, and a repository never asked for, load on the first request.
pub proof fn lemma_cached_not_reloaded(
    c: RemoteBranchesCache,
    key: Seq<char>,
    branches: Seq<Seq<char>>,
    error: Seq<char>,
)
    ensures
        c.lookup(key) == Some((false, branches, None::<Seq<char>>)) && branches.len() > 0 ==> !c.wants_load(key),
        c.lookup(key) == Some((false, Seq::<Seq<char>>::empty(), Some(error))) ==> !c.wants_load(key),
        c.lookup(key) == Some((true, Seq::<Seq<char>>::empty(), None::<Seq<char>>)) ==> !c.wants_load(key),
        c.lookup(key) is None ==> c.wants_load(key),
{
}

/// A write of the repositories file that waits for its time.
#[derive(Debug)]
pub struct PendingConfigSave {
    pub run_id: u64,
    pub path: String,
    pub content: String,
    /// When the save was scheduled, in milliseconds of a monotonic clock.
    pub scheduled_at: u64,
}

/// A scheduled save is written once this many milliseconds have passed.
pub const CONFIG_SAVE_DELAY_MS: u64 = 500;

/// A retried save counts as scheduled this many milliseconds ago.
pub const CONFIG_SAVE_RETRY_BACKDATE_MS: u64 = 1000;

/// The time a retried save counts as scheduled at: the retry backdating
/// before `now`, or the clock's start when `now` is earlier than that.
pub open spec fn backdated(now: u64) -> u64 {
    if now >= CONFIG_SAVE_RETRY_BACKDATE_MS {
        (now - CONFIG_SAVE_RETRY_BACKDATE_MS) as u64
    } else {
        0
    }
}

/// The time passed since `since`; none when `now` is earlier.
pub open spec fn elapsed(since: u64, now: u64) -> int {
    if now >= since {
        now - since
    } else {
        0
    }
}

/// The pending save is due at `now`.
pub open spec fn save_due(pending: Option<PendingConfigSave>, now: u64) -> bool {
    pending matches Some(p) && elapsed(p.scheduled_at, now) >= CONFIG_SAVE_DELAY_MS
}

/// Whether `labels` of a repository share a label with `wanted`.
pub open spec fn has_label(labels: Option<Vec<String>>, wanted: Seq<Seq<char>>) -> bool {
    match labels {
        Some(l) => shares_label(l.deep_view(), wanted),
        None => false,
    }
}

/// Some label of `labels` is among `wanted`.
pub open spec fn shares_label(labels: Seq<Seq<char>>, wanted: Seq<Seq<char>>) -> bool {
    exists|i: int| 0 <= i < labels.len() && wanted.contains(#[trigger] labels[i])
}

pub(crate) fn has_label_exec(labels: &Option<Vec<String>>, wanted: &Vec<String>) -> (r: bool)
    ensures
        r == has_label(*labels, wanted.deep_view()),
{
    match labels {
        None => false,
        Some(l) => {
            let mut i: usize = 0;
            while i < l.len()
                invariant
                    i <= l.len(),
                    *labels == Some(*l),
                    forall|j: int| 0 <= j < i ==> !wanted.deep_view().contains(#[trigger] l.deep_view()[j]),
                decreases l.len() - i,
            {
                if strings_contain(wanted, l[i].as_str()) {
                    assert(wanted.deep_view().contains((*l).deep_view()[i as int]));
                    assert(shares_label((*l).deep_view(), wanted.deep_view()));
                    return true;
                }
                i = i + 1;
            }
            false
        },
    }
}

/// The number of rows the repository list pairs: entries with their states.
pub open spec fn paired(repos: Seq<RepoConfig>, states: Seq<RepoState>) -> int {
    if repos.len() < states.len() {
        repos.len() as int
    } else {
        states.len() as int
    }
}

/// Row `i` counts for "ignore all": its labels do not leave it out and its
/// entry names a directory.
pub open spec fn counts_for_all(repos: Seq<RepoConfig>, states: Seq<RepoState>, i: int) -> bool {
    !states[i].disable_by_label && repos[i].local is Some
}

/// Among the first `n` rows, how many count for "ignore all", and how many
/// of those are not ignored.
pub open spec fn ignore_counts(repos: Seq<RepoConfig>, states: Seq<RepoState>, n: int) -> (nat, nat)
    decreases n,
{
    if n <= 0 {
        (0, 0)
    } else {
        let (t, u) = ignore_counts(repos, states, n - 1);
        if counts_for_all(repos, states, n - 1) {
            (t + 1, if states[n - 1].no_ignore {
                u + 1
            } else {
                u
            })
        } else {
            (t, u)
        }
    }
}

/// The "ignore all" box: whether every row that counts is not ignored (and
/// there is one), and whether only some are.
pub fn ignore_all_state(repos: &Vec<RepoConfig>, states: &Vec<RepoState>) -> (r: (bool, bool))
    ensures
        ({
            let (t, u) = ignore_counts(repos@, states@, paired(repos@, states@));
            r == (t > 0 && u == t, u > 0 && u < t)
        }),
{
    let n = if repos.len() < states.len() {
        repos.len()
    } else {
        states.len()
    };
    let mut total: usize = 0;
    let mut unignored: usize = 0;
    let mut i: usize = 0;
    while i < n
        invariant
            i <= n,
            n == paired(repos@, states@),
            n <= repos@.len(),
            n <= states@.len(),
            (total as nat, unignored as nat) == ignore_counts(repos@, states@, i as int),
            unignored <= total <= i,
        decreases n - i,
    {
        if !states[i].disable_by_label && repos[i].local.is_some() {
            total = total + 1;
            if states[i].no_ignore {
                unignored = unignored + 1;
            }
        }
        i = i + 1;
    }
    (total > 0 && unignored == total, unignored > 0 && unignored < total)
}

/// The displayed directories of the first `n` rows that count for "ignore
/// all", in order.
pub open spec fn all_paths(repos: Seq<RepoConfig>, states: Seq<RepoState>, n: int) -> Seq<Seq<char>>
    decreases n,
{
    if n <= 0 {
        Seq::empty()
    } else if counts_for_all(repos, states, n - 1) {
        all_paths(repos, states, n - 1).push(display_path(repos[n - 1].local->Some_0@))
    } else {
        all_paths(repos, states, n - 1)
    }
}

/// The ignore list after each of `paths` is ignored, or no longer ignored,
/// in order.
pub open spec fn ignore_all_text(text: Seq<char>, paths: Seq<Seq<char>>, ignore: bool) -> Seq<char>
    decreases paths.len(),
{
    if paths.len() == 0 {
        text
    } else {
        saved_ignore(ignore_all_text(text, paths.drop_last(), ignore), paths.last(), ignore)
    }
}

/// The repositories of the open project.
#[derive(Debug)]
pub struct RepoManager {
    pub mgit_config: MgitConfig,
    pub repo_states: Vec<RepoState>,
    pub remote_branches_cache: RemoteBranchesCache,
    pub remote_ref_edit_idx: i32,
    pub pending_config_save: Option<PendingConfigSave>,
    pub last_failed_config_save: Option<PendingConfigSave>,
    pub config_save_inflight: bool,
}

impl RepoManager {
    /// No repositories, nothing cached, nothing to save.
    pub fn new() -> (r: Self)
        ensures
            r.mgit_config.repos is None,
            r.repo_states@.len() == 0,
            forall|k: Seq<char>| r.remote_branches_cache.lookup(k) is None,
            r.remote_ref_edit_idx == -1,
            r.pending_config_save is None,
            r.last_failed_config_save is None,
            !r.config_save_inflight,
    {
        RepoManager {
            mgit_config: MgitConfig::new(),
            repo_states: Vec::new(),
            remote_branches_cache: RemoteBranchesCache::new(),
            remote_ref_edit_idx: -1,
            pending_config_save: None,
            last_failed_config_save: None,
            config_save_inflight: false,
        }
    }

    /// One default state per repository of the file.
    fn sync_repo_states(&mut self)
        ensures
            final(self).repo_states@.len() == repos_of(&final(self).mgit_config).len(),
            forall|i: int| 0 <= i < final(self).repo_states@.len() ==> is_default_state(
                #[trigger] final(self).repo_states@[i],
            ),
            final(self).mgit_config == old(self).mgit_config,
            final(self).remote_branches_cache == old(self).remote_branches_cache,
            final(self).remote_ref_edit_idx == old(self).remote_ref_edit_idx,
            final(self).pending_config_save == old(self).pending_config_save,
            final(self).last_failed_config_save == old(self).last_failed_config_save,
            final(self).config_save_inflight == old(self).config_save_inflight,
    {
        let n = match &self.mgit_config.repos {
            Some(v) => v.len(),
            None => 0,
        };
        let mut states: Vec<RepoState> = Vec::new();
        let mut i: usize = 0;
        while i < n
            invariant
                i <= n,
                states@.len() == i,
                forall|j: int| 0 <= j < i ==> is_default_state(#[trigger] states@[j]),
            decreases n - i,
        {
            states.push(RepoState::new());
            i = i + 1;
        }
        self.repo_states = states;
    }

    /// Takes the repositories file that was read.  `loaded` is none when the
    /// file does not exist, and holds none when it could not be read; the
    /// result tells whether reading failed.
    pub fn load_config(&mut self, loaded: Option<Option<MgitConfig>>) -> (failed: bool)
        ensures
            failed == (loaded matches Some(None)),
            loaded matches Some(Some(c)) ==> final(self).mgit_config == c,
            !(loaded matches Some(Some(_))) ==> final(self).mgit_config == old(self).mgit_config,
            final(self).remote_ref_edit_idx == -1,
            forall|k: Seq<char>| final(self).remote_branches_cache.lookup(k) is None,
            final(self).repo_states@.len() == repos_of(&final(self).mgit_config).len(),
            forall|i: int| 0 <= i < final(self).repo_states@.len() ==> is_default_state(
                #[trigger] final(self).repo_states@[i],
            ),
            final(self).pending_config_save == old(self).pending_config_save,
            final(self).last_failed_config_save == old(self).last_failed_config_save,
            final(self).config_save_inflight == old(self).config_save_inflight,
    {
        self.remote_ref_edit_idx = -1;
        let mut failed = false;
        match loaded {
            Some(Some(c)) => {
                self.mgit_config = c;
            },
            Some(None) => {
                failed = true;
            },
            None => {},
        }
        self.remote_branches_cache.clear();
        self.sync_repo_states();
        failed
    }

    /// Forgets the repositories file and the states.
    pub fn clear_mgit_config(&mut self)
        ensures
            final(self).mgit_config.repos is None,
            final(self).mgit_config.version is None,
            final(self).mgit_config.default_branch is None,
            final(self).mgit_config.default_remote is None,
            final(self).repo_states@.len() == 0,
            final(self).remote_branches_cache == old(self).remote_branches_cache,
            final(self).pending_config_save == old(self).pending_config_save,
            final(self).last_failed_config_save == old(self).last_failed_config_save,
            final(self).config_save_inflight == old(self).config_save_inflight,
    {
        self.mgit_config = MgitConfig::new();
        self.repo_states = Vec::new();
    }

    /// Marks each repository as ignored when `ignores` lists its displayed
    /// path, and as left out when `labels` are given and it has none of them.
    pub fn recompute_repo_filters(&mut self, ignores: Option<&Vec<String>>, labels: Option<&Vec<String>>)
        ensures
            final(self).repo_states@.len() == old(self).repo_states@.len(),
            forall|i: int| 0 <= i < old(self).repo_states@.len() ==> {
                let old_s = #[trigger] old(self).repo_states@[i];
                let new_s = final(self).repo_states@[i];
                if old(self).mgit_config.repos is Some && i < repos_of(&old(self).mgit_config).len() {
                    let repo = repos_of(&old(self).mgit_config)[i];
                    let rel = match repo.local {
                        Some(l) => l@,
                        None => "invalid"@,
                    };
                    &&& new_s.no_ignore == !(ignores matches Some(v) && v.deep_view().contains(
                        display_path(rel),
                    ))
                    &&& new_s.disable_by_label == (labels matches Some(l) && !has_label(
                        repo.labels,
                        l.deep_view(),
                    ))
                    &&& new_s == (RepoState {
                        no_ignore: new_s.no_ignore,
                        disable_by_label: new_s.disable_by_label,
                        ..old_s
                    })
                } else {
                    new_s == old_s
                }
            },
            final(self).mgit_config == old(self).mgit_config,
            final(self).pending_config_save == old(self).pending_config_save,
            final(self).last_failed_config_save == old(self).last_failed_config_save,
            final(self).config_save_inflight == old(self).config_save_inflight,
    {
        let repos = match &self.mgit_config.repos {
            Some(r) => r,
            None => {
                return;
            },
        };
        let n = if repos.len() < self.repo_states.len() {
            repos.len()
        } else {
            self.repo_states.len()
        };
        let ghost old_states = self.repo_states@;
        let mut i: usize = 0;
        while i < n
            invariant
                i <= n <= repos.len(),
                self.mgit_config == old(self).mgit_config,
                self.pending_config_save == old(self).pending_config_save,
                self.last_failed_config_save == old(self).last_failed_config_save,
                self.config_save_inflight == old(self).config_save_inflight,
                n <= self.repo_states@.len(),
                self.repo_states@.len() == old_states.len(),
                repos@ == repos_of(&self.mgit_config),
                self.mgit_config.repos is Some,
                forall|j: int| i <= j < old_states.len() ==> self.repo_states@[j] == old_states[j],
                forall|j: int| 0 <= j < i ==> {
                    let old_s = old_states[j];
                    let new_s = #[trigger] self.repo_states@[j];
                    let repo = repos@[j];
                    let rel = match repo.local {
                        Some(l) => l@,
                        None => "invalid"@,
                    };
                    &&& new_s.no_ignore == !(ignores matches Some(v) && v.deep_view().contains(
                        display_path(rel),
                    ))
                    &&& new_s.disable_by_label == (labels matches Some(l) && !has_label(
                        repo.labels,
                        l.deep_view(),
                    ))
                    &&& new_s == (RepoState {
                        no_ignore: new_s.no_ignore,
                        disable_by_label: new_s.disable_by_label,
                        ..old_s
                    })
                },
            decreases n - i,
        {
            let rel = match &repos[i].local {
                Some(l) => l.clone(),
                None => String::from_str("invalid"),
            };
            let shown = display_path_str(rel.as_str());
            let do_ignore = match ignores {
                Some(v) => strings_contain(v, shown.as_str()),
                None => false,
            };
            let by_label = match labels {
                Some(l) => !has_label_exec(&repos[i].labels, l),
                None => false,
            };
            let mut old_state = RepoState::new();
            std::mem::swap(&mut self.repo_states[i], &mut old_state);
            let new_state = RepoState { no_ignore: !do_ignore, disable_by_label: by_label, ..old_state };
            self.repo_states.set(i, new_state);
            i = i + 1;
        }
    }

    /// When a command starts or ends, every repository that takes part goes
    /// back to its default state in `state_type`.
    pub fn reset_repo_state(&mut self, state_type: StateType)
        ensures
            final(self).repo_states@.len() == old(self).repo_states@.len(),
            forall|i: int| 0 <= i < old(self).repo_states@.len() ==> {
                let old_s = #[trigger] old(self).repo_states@[i];
                let new_s = final(self).repo_states@[i];
                if old_s.disabled() {
                    new_s == old_s
                } else {
                    is_reset_of(new_s, old_s, state_type)
                }
            },
            final(self).mgit_config == old(self).mgit_config,
            final(self).pending_config_save == old(self).pending_config_save,
            final(self).last_failed_config_save == old(self).last_failed_config_save,
            final(self).config_save_inflight == old(self).config_save_inflight,
    {
        let ghost old_states = self.repo_states@;
        let mut i: usize = 0;
        while i < self.repo_states.len()
            invariant
                i <= self.repo_states@.len(),
                self.mgit_config == old(self).mgit_config,
                self.pending_config_save == old(self).pending_config_save,
                self.last_failed_config_save == old(self).last_failed_config_save,
                self.config_save_inflight == old(self).config_save_inflight,
                self.repo_states@.len() == old_states.len(),
                forall|j: int| i <= j < old_states.len() ==> self.repo_states@[j] == old_states[j],
                forall|j: int| 0 <= j < i ==> {
                    let old_s = old_states[j];
                    let new_s = #[trigger] self.repo_states@[j];
                    if old_s.disabled() {
                        new_s == old_s
                    } else {
                        is_reset_of(new_s, old_s, state_type)
                    }
                },
            decreases self.repo_states@.len() - i,
        {
            if !self.repo_states[i].is_disable() {
                let new_state = reset_state(&self.repo_states[i], state_type);
                self.repo_states.set(i, new_state);
            }
            i = i + 1;
        }
    }

    /// "Ignore all" is clicked: every row that counts (its labels do not
    /// leave it out and it names a directory) is ignored, or no longer
    /// ignored, in the project's ignore list, in order; every row its labels
    /// do not leave out shows the new choice.  The result is the project whose
    /// settings are to be saved; nothing happens without repositories.
    pub fn set_all_ignored(&mut self, ignore: bool, session: &mut SessionManager) -> (save: Option<String>)
        ensures
            old(self).mgit_config.repos is None ==> *final(self) == *old(self) && *final(session)
                == *old(session) && save is None,
            old(self).mgit_config.repos is Some ==> {
                let repos = repos_of(&old(self).mgit_config);
                let n = paired(repos, old(self).repo_states@);
                &&& text_of(final(session).project_settings.ignore) == ignore_all_text(
                    text_of(old(session).project_settings.ignore),
                    all_paths(repos, old(self).repo_states@, n),
                    ignore,
                )
                &&& final(session).project_settings == (TomlProjectSettings {
                    ignore: final(session).project_settings.ignore,
                    ..old(session).project_settings
                })
                &&& save == Some(old(session).project_path)
                &&& final(self).repo_states@.len() == old(self).repo_states@.len()
                &&& forall|i: int| 0 <= i < old(self).repo_states@.len() ==> {
                    let o = #[trigger] old(self).repo_states@[i];
                    final(self).repo_states@[i] == if i < n && !o.disable_by_label {
                        RepoState { no_ignore: !ignore, ..o }
                    } else {
                        o
                    }
                }
            },
            final(self).mgit_config == old(self).mgit_config,
            final(self).pending_config_save == old(self).pending_config_save,
            final(self).last_failed_config_save == old(self).last_failed_config_save,
            final(self).config_save_inflight == old(self).config_save_inflight,
            final(session).project_path == old(session).project_path,
            final(session).config_file == old(session).config_file,
            final(session).user_settings == old(session).user_settings,
            final(session).recent_projects == old(session).recent_projects,
    {
        let repos = match &self.mgit_config.repos {
            Some(r) => r,
            None => {
                return None;
            },
        };
        let n = if repos.len() < self.repo_states.len() {
            repos.len()
        } else {
            self.repo_states.len()
        };
        let ghost old_states = self.repo_states@;
        let ghost old_settings = session.project_settings;
        let mut i: usize = 0;
        while i < n
            invariant
                i <= n,
                n == paired(repos@, old_states),
                n <= repos@.len(),
                old_states == self.repo_states@,
                repos@ == repos_of(&self.mgit_config),
                text_of(session.project_settings.ignore) == ignore_all_text(
                    text_of(old_settings.ignore),
                    all_paths(repos@, old_states, i as int),
                    ignore,
                ),
                session.project_settings == (TomlProjectSettings {
                    ignore: session.project_settings.ignore,
                    ..old_settings
                }),
                session.project_path == old(session).project_path,
                session.config_file == old(session).config_file,
                session.user_settings == old(session).user_settings,
                session.recent_projects == old(session).recent_projects,
            decreases n - i,
        {
            if !self.repo_states[i].disable_by_label {
                if let Some(local) = &repos[i].local {
                    let shown = display_path_str(local.as_str());
                    let ghost before = text_of(session.project_settings.ignore);
                    session.project_settings.save_ignore(shown, ignore);
                    assert(all_paths(repos@, old_states, i + 1) == all_paths(
                        repos@,
                        old_states,
                        i as int,
                    ).push(display_path(repos@[i as int].local->Some_0@)));
                    assert(all_paths(repos@, old_states, i + 1).drop_last() == all_paths(
                        repos@,
                        old_states,
                        i as int,
                    ));
                }
            }
            i = i + 1;
        }
        let mut k: usize = 0;
        while k < n
            invariant
                k <= n,
                n == paired(repos@, old_states),
                n <= self.repo_states@.len(),
                self.repo_states@.len() == old_states.len(),
                repos@ == repos_of(&self.mgit_config),
                forall|j: int| k <= j < old_states.len() ==> self.repo_states@[j] == old_states[j],
                forall|j: int| 0 <= j < k ==> {
                    let o = #[trigger] old_states[j];
                    self.repo_states@[j] == if !o.disable_by_label {
                        RepoState { no_ignore: !ignore, ..o }
                    } else {
                        o
                    }
                },
                self.mgit_config == old(self).mgit_config,
                self.pending_config_save == old(self).pending_config_save,
                self.last_failed_config_save == old(self).last_failed_config_save,
                self.config_save_inflight == old(self).config_save_inflight,
            decreases n - k,
        {
            if !self.repo_states[k].disable_by_label {
                let mut st = RepoState::new();
                std::mem::swap(&mut self.repo_states[k], &mut st);
                let updated = RepoState { no_ignore: !ignore, ..st };
                self.repo_states.set(k, updated);
            }
            k = k + 1;
        }
        Some(session.save_project_settings())
    }

    /// Takes the new state of repository `id`; its filters stay.  An id out
    /// of range changes nothing.
    pub fn apply_repo_state(&mut self, id: usize, update: RepoState)
        ensures
            final(self).repo_states@.len() == old(self).repo_states@.len(),
            id < old(self).repo_states@.len() ==> is_update_of(
                final(self).repo_states@[id as int],
                update,
                old(self).repo_states@[id as int],
            ),
            forall|i: int| 0 <= i < old(self).repo_states@.len() && i != id
                ==> #[trigger] final(self).repo_states@[i] == old(self).repo_states@[i],
            final(self).mgit_config == old(self).mgit_config,
            final(self).pending_config_save == old(self).pending_config_save,
            final(self).last_failed_config_save == old(self).last_failed_config_save,
            final(self).config_save_inflight == old(self).config_save_inflight,
    {
        if id < self.repo_states.len() {
            let s = updated_state(update, &self.repo_states[id]);
            self.repo_states.set(id, s);
        }
    }

    /// Schedules a write of `content` to `config_file` at `now`; it replaces
    /// the save that was waiting.
    pub fn schedule_config_save(&mut self, run_id: u64, config_file: String, content: String, now: u64)
        ensures
            final(self).pending_config_save == Some(
                PendingConfigSave { run_id, path: config_file, content, scheduled_at: now },
            ),
            final(self).last_failed_config_save == old(self).last_failed_config_save,
            final(self).config_save_inflight == old(self).config_save_inflight,
            final(self).repo_states == old(self).repo_states,
            final(self).mgit_config == old(self).mgit_config,
    {
        self.pending_config_save = Some(
            PendingConfigSave { run_id, path: config_file, content, scheduled_at: now },
        );
    }

    /// Schedules the save that failed last once more, as due at once; nothing
    /// happens while a save is being written or when none failed.
    pub fn retry_last_config_save(&mut self, now: u64)
        ensures
            old(self).config_save_inflight || old(self).last_failed_config_save is None
                ==> final(self).pending_config_save == old(self).pending_config_save,
            !old(self).config_save_inflight && old(self).last_failed_config_save is Some
                ==> final(self).pending_config_save == Some(
                PendingConfigSave {
                    scheduled_at: backdated(now),
                    ..old(self).last_failed_config_save->0
                },
            ),
            final(self).last_failed_config_save == old(self).last_failed_config_save,
            final(self).config_save_inflight == old(self).config_save_inflight,
            final(self).repo_states == old(self).repo_states,
            final(self).mgit_config == old(self).mgit_config,
    {
        if self.config_save_inflight {
            return;
        }
        let pending = match &self.last_failed_config_save {
            Some(p) => PendingConfigSave {
                run_id: p.run_id,
                path: p.path.clone(),
                content: p.content.clone(),
                scheduled_at: now.saturating_sub(CONFIG_SAVE_RETRY_BACKDATE_MS),
            },
            None => {
                return;
            },
        };
        self.pending_config_save = Some(pending);
    }

    /// Takes the pending save when it is due and no save is being written;
    /// the caller writes it and reports how that went.
    pub fn flush_config_save_if_due(&mut self, now: u64) -> (r: Option<PendingConfigSave>)
        ensures
            old(self).config_save_inflight || !save_due(old(self).pending_config_save, now) ==> r
                is None && final(self).pending_config_save == old(self).pending_config_save
                && final(self).config_save_inflight == old(self).config_save_inflight,
            !old(self).config_save_inflight && save_due(old(self).pending_config_save, now) ==> r
                == old(self).pending_config_save && final(self).pending_config_save is None
                && final(self).config_save_inflight,
            final(self).last_failed_config_save == old(self).last_failed_config_save,
            final(self).repo_states == old(self).repo_states,
            final(self).mgit_config == old(self).mgit_config,
    {
        if self.config_save_inflight {
            return None;
        }
        let due = match &self.pending_config_save {
            Some(p) => (if now >= p.scheduled_at {
                now - p.scheduled_at
            } else {
                0
            }) >= CONFIG_SAVE_DELAY_MS,
            None => false,
        };
        if !due {
            return None;
        }
        let pending = self.pending_config_save.take();
        self.config_save_inflight = true;
        pending
    }

    /// The save was written.
    pub fn on_config_saved(&mut self)
        ensures
            !final(self).config_save_inflight,
            final(self).last_failed_config_save is None,
            forall|k: Seq<char>| final(self).remote_branches_cache.lookup(k) is None,
            final(self).pending_config_save == old(self).pending_config_save,
            final(self).repo_states == old(self).repo_states,
            final(self).mgit_config == old(self).mgit_config,
    {
        self.config_save_inflight = false;
        self.last_failed_config_save = None;
        self.remote_branches_cache.clear();
    }

    /// The save failed at `now`; it is kept to be retried.
    pub fn on_config_save_failed(&mut self, run_id: u64, path: String, content: String, now: u64)
        ensures
            !final(self).config_save_inflight,
            final(self).last_failed_config_save == Some(
                PendingConfigSave { run_id, path, content, scheduled_at: now },
            ),
            final(self).pending_config_save == old(self).pending_config_save,
            final(self).repo_states == old(self).repo_states,
            final(self).mgit_config == old(self).mgit_config,
    {
        self.config_save_inflight = false;
        self.last_failed_config_save = Some(
            PendingConfigSave { run_id, path, content, scheduled_at: now },
        );
    }
}

/// A failed save that is retried is written by the next flush, at once
/// (once the clock has run for the delay), unchanged but for its time.
pub proof fn lemma_retry_then_flush(failed: PendingConfigSave, now: u64)
    requires
        now >= CONFIG_SAVE_DELAY_MS,
    ensures
        save_due(
            Some(
                PendingConfigSave {
                    scheduled_at: backdated(now),
                    ..failed
                },
            ),
            now,
        ),
{
}

/// A save scheduled at `at` is not written before the delay has passed.
pub proof fn lemma_not_due_early(p: PendingConfigSave, now: u64)
    requires
        p.scheduled_at <= now < p.scheduled_at + CONFIG_SAVE_DELAY_MS,
    ensures
        !save_due(Some(p), now),
{
}

} // verus!
