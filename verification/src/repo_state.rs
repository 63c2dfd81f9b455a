//! What the application shows of each repository.
use crate::error::{error_message, MgitError};
use crate::text::{contains, contains_str, split, split_once, split_once_str, split_str, trim, trim_str};
use vstd::prelude::*;

verus! {

broadcast use vstd::string::group_string_axioms;

/// How a part of a repository's state looks.
#[derive(PartialEq, Eq, Structural, Debug, Clone, Copy)]
pub enum StateType {
    Disconnected,
    Updating,
    Normal,
    Warning,
    Error,
}

/// The state of one repository.
#[derive(Debug)]
pub struct RepoState {
    pub current_branch: String,
    pub tracking_branch: String,
    pub track_state: StateType,
    pub tags: Vec<String>,
    pub cmp_obj: String,
    pub cmp_commit: String,
    pub cmp_changes: String,
    pub cmp_state: StateType,
    pub err_msg: String,
    pub no_ignore: bool,
    pub disable_by_label: bool,
}

/// The repository state before anything is known: disconnected, not ignored.
pub open spec fn is_default_state(s: RepoState) -> bool {
    &&& s.current_branch@.len() == 0
    &&& s.tracking_branch@.len() == 0
    &&& s.track_state == StateType::Disconnected
    &&& s.tags@.len() == 0
    &&& s.cmp_obj@.len() == 0
    &&& s.cmp_commit@.len() == 0
    &&& s.cmp_changes@.len() == 0
    &&& s.cmp_state == StateType::Disconnected
    &&& s.err_msg@.len() == 0
    &&& s.no_ignore
    &&& !s.disable_by_label
}

impl RepoState {
    /// The state before anything is known.
    pub fn new() -> (r: Self)
        ensures
            is_default_state(r),
    {
        RepoState {
            current_branch: String::new(),
            tracking_branch: String::new(),
            track_state: StateType::Disconnected,
            tags: Vec::new(),
            cmp_obj: String::new(),
            cmp_commit: String::new(),
            cmp_changes: String::new(),
            cmp_state: StateType::Disconnected,
            err_msg: String::new(),
            no_ignore: true,
            disable_by_label: false,
        }
    }

    /// The repository takes no part in operations: it is ignored, or its
    /// labels leave it out.
    pub open spec fn disabled(&self) -> bool {
        !self.no_ignore || self.disable_by_label
    }

    /// Whether the repository takes no part in operations.
    pub fn is_disable(&self) -> (r: bool)
        ensures
            r == self.disabled(),
    {
        !self.no_ignore || self.disable_by_label
    }
}

/// The comparison fields (object, commits, changes) after the parts of a
/// comparison message that differs from its remote are read in order: a part
/// that mentions commits sets the commits, one that mentions changes sets the
/// changes, any other sets the object; each trimmed, the last one winning.
pub open spec fn compare_fields(parts: Seq<Seq<char>>, start: (Seq<char>, Seq<char>, Seq<char>)) -> (
    Seq<char>,
    Seq<char>,
    Seq<char>,
)
    decreases parts.len(),
{
    if parts.len() == 0 {
        start
    } else {
        let (obj, commit, changes) = compare_fields(parts.drop_last(), start);
        let p = parts.last();
        if contains(p, "commits"@) {
            (obj, trim(p), changes)
        } else if contains(p, "changes"@) {
            (obj, commit, trim(p))
        } else {
            (trim(p), commit, changes)
        }
    }
}

/// The message says the repository cannot be compared.
pub open spec fn compare_failed(msg: Seq<char>) -> bool {
    contains(msg, "not tracking"@) || contains(msg, "init commit"@) || contains(
        msg,
        "unknown revision"@,
    )
}

/// The message says the repository is up to date.
pub open spec fn compare_up_to_date(msg: Seq<char>) -> bool {
    contains(msg, "already update to date."@)
}

/// The object shown for an up-to-date repository: the log after the first
/// `.`, trimmed, or the text before it when there is no log.
pub open spec fn up_to_date_obj(msg: Seq<char>) -> Seq<char> {
    let (prefix, log) = split_once(msg, '.')->0;
    if trim(log).len() > 0 {
        trim(log)
    } else {
        prefix
    }
}

/// A message that says the repository is up to date has a `.`.
proof fn lemma_up_to_date_has_dot(s: Seq<char>)
    requires
        contains(s, "already update to date."@),
    ensures
        split_once(s, '.') is Some,
{
    crate::text::lemma_contains(s, "already update to date."@);
    let i = choose|i: int| crate::text::matches_at(s, "already update to date."@, i);
    reveal_strlit("already update to date.");
    assert(s.subrange(i, i + 23)[22] == '.');
    assert(s[i + 22] == '.');
    crate::text::lemma_char_from(s, '.', 0);
}

/// The comparison fields after the parts `parts` are read, from `fields`.
fn fold_compare_parts(parts: &Vec<String>, fields: (String, String, String)) -> (r: (
    String,
    String,
    String,
))
    ensures
        (r.0@, r.1@, r.2@) == compare_fields(parts.deep_view(), (fields.0@, fields.1@, fields.2@)),
{
    let ghost start = (fields.0@, fields.1@, fields.2@);
    let (mut obj, mut commit, mut changes) = fields;
    let mut i: usize = 0;
    while i < parts.len()
        invariant
            i <= parts.len(),
            (obj@, commit@, changes@) == compare_fields(parts.deep_view().take(i as int), start),
        decreases parts.len() - i,
    {
        assert(parts.deep_view().take(i + 1).drop_last() =~= parts.deep_view().take(i as int));
        assert(parts.deep_view().take(i + 1).last() == parts.deep_view()[i as int]);
        let part = parts[i].as_str();
        if contains_str(part, "commits") {
            commit = trim_str(part);
        } else if contains_str(part, "changes") {
            changes = trim_str(part);
        } else {
            obj = trim_str(part);
        }
        i = i + 1;
    }
    assert(parts.deep_view().take(i as int) =~= parts.deep_view());
    (obj, commit, changes)
}

/// Reads the comparison of a repository with its remote (the plain text of
/// the comparison message) into its state.
pub fn apply_compare_message(state: &mut RepoState, message: &str)
    ensures
        compare_applied(*final(state), *old(state), message@),
{
    if contains_str(message, "not tracking") || contains_str(message, "init commit")
        || contains_str(message, "unknown revision") {
        state.cmp_state = StateType::Error;
        state.cmp_obj = String::from_str(message);
    } else if contains_str(message, "already update to date.") {
        state.cmp_state = StateType::Normal;
        proof {
            lemma_up_to_date_has_dot(message@);
        }
        match split_once_str(message, '.') {
            Some((prefix, log)) => {
                let t = trim_str(log.as_str());
                if !t.as_str().is_empty() {
                    state.cmp_obj = t;
                } else {
                    state.cmp_obj = prefix;
                }
            },
            None => {},
        }
    } else {
        state.cmp_state = StateType::Warning;
        let parts = split_str(message, ',');
        let obj = state.cmp_obj.clone();
        let commit = state.cmp_commit.clone();
        let changes = state.cmp_changes.clone();
        let (o, c, h) = fold_compare_parts(&parts, (obj, commit, changes));
        state.cmp_obj = o;
        state.cmp_commit = c;
        state.cmp_changes = h;
    }
}

/// `new` is `old` after the comparison message `m` was read into it.
pub open spec fn compare_applied(new: RepoState, old: RepoState, m: Seq<char>) -> bool {
    &&& compare_failed(m) ==> new.cmp_state == StateType::Error && new.cmp_obj@ == m
        && new.cmp_commit == old.cmp_commit && new.cmp_changes == old.cmp_changes
    &&& !compare_failed(m) && compare_up_to_date(m) ==> new.cmp_state == StateType::Normal
        && new.cmp_obj@ == up_to_date_obj(m) && new.cmp_commit == old.cmp_commit
        && new.cmp_changes == old.cmp_changes
    &&& !compare_failed(m) && !compare_up_to_date(m) ==> new.cmp_state == StateType::Warning && (
    new.cmp_obj@, new.cmp_commit@, new.cmp_changes@) == compare_fields(
        split(m, ','),
        (old.cmp_obj@, old.cmp_commit@, old.cmp_changes@),
    )
    &&& new.current_branch == old.current_branch
    &&& new.tracking_branch == old.tracking_branch
    &&& new.track_state == old.track_state
    &&& new.tags == old.tags
    &&& new.err_msg == old.err_msg
    &&& new.no_ignore == old.no_ignore
    &&& new.disable_by_label == old.disable_by_label
}

/// What one query about a repository gave, in the order they are made: the
/// repository check, the remote lookup (when the entry names a remote), the
/// tags at `HEAD`, the current branch, the tracking branch, and the plain
/// text of the comparison with the remote.
pub enum RepoProbe {
    Repository(Result<(), MgitError>),
    RemoteName(Result<String, MgitError>),
    HeadTags(Result<Vec<String>, MgitError>),
    CurrentBranch(Result<String, MgitError>),
    TrackingBranch(Result<String, MgitError>),
    Compare(Result<String, MgitError>),
}

/// The state of an entry that names no directory.
pub fn missing_local_state() -> (r: RepoState)
    ensures
        r.err_msg@ == "invalid repo: local is missing"@,
        r.track_state == StateType::Error,
        r.cmp_state == StateType::Error,
        r.current_branch@.len() == 0,
        r.tracking_branch@.len() == 0,
        r.tags@.len() == 0,
        r.cmp_obj@.len() == 0,
        r.cmp_commit@.len() == 0,
        r.cmp_changes@.len() == 0,
        r.no_ignore,
        !r.disable_by_label,
{
    let mut r = RepoState::new();
    r.err_msg = String::from_str("invalid repo: local is missing");
    r.track_state = StateType::Error;
    r.cmp_state = StateType::Error;
    r
}

/// `new` is `old` with only its error message changed, to `msg`.
pub open spec fn with_error(new: RepoState, old: RepoState, msg: Seq<char>) -> bool {
    new.err_msg@ == msg && new == (RepoState { err_msg: new.err_msg, ..old })
}

/// Reads the result of one query into the state of a repository.  `ok`
/// says whether the queries so far succeeded; the result says whether they
/// still do.  The queries after the remote lookup are only made while they
/// succeed: given when `ok` is false, they change nothing.
pub fn apply_probe(state: &mut RepoState, ok: bool, probe: RepoProbe) -> (still_ok: bool)
    ensures
        match probe {
            RepoProbe::Repository(Ok(_)) | RepoProbe::RemoteName(Ok(_)) => still_ok == ok
                && *final(state) == *old(state),
            RepoProbe::Repository(Err(e)) | RepoProbe::RemoteName(Err(e)) => !still_ok
                && with_error(*final(state), *old(state), error_message(e)),
            _ => !ok ==> (!still_ok && *final(state) == *old(state)),
        },
        ok ==> match probe {
            RepoProbe::HeadTags(Ok(t)) => still_ok && *final(state) == (RepoState {
                tags: final(state).tags,
                ..*old(state)
            }) && final(state).tags@ == t@,
            RepoProbe::HeadTags(Err(_)) => still_ok && *final(state) == (RepoState {
                tags: final(state).tags,
                ..*old(state)
            }) && final(state).tags@.len() == 0,
            RepoProbe::CurrentBranch(Ok(b)) => still_ok && *final(state) == (RepoState {
                current_branch: final(state).current_branch,
                track_state: StateType::Normal,
                ..*old(state)
            }) && final(state).current_branch@ == b@,
            RepoProbe::CurrentBranch(Err(e)) => !still_ok && with_error(
                *final(state),
                *old(state),
                error_message(e),
            ),
            RepoProbe::TrackingBranch(Ok(t)) => still_ok && *final(state) == (RepoState {
                tracking_branch: final(state).tracking_branch,
                ..*old(state)
            }) && final(state).tracking_branch@ == t@,
            RepoProbe::TrackingBranch(Err(_)) => !still_ok && *final(state) == (RepoState {
                tracking_branch: final(state).tracking_branch,
                track_state: StateType::Warning,
                ..*old(state)
            }) && final(state).tracking_branch@ == "untracked"@,
            RepoProbe::Compare(Err(e)) => still_ok && with_error(
                *final(state),
                *old(state),
                error_message(e),
            ),
            RepoProbe::Compare(Ok(m)) => still_ok && compare_applied(*final(state), *old(state), m@),
            _ => true,
        },
{
    match probe {
        RepoProbe::Repository(Ok(_)) | RepoProbe::RemoteName(Ok(_)) => ok,
        RepoProbe::Repository(Err(e)) | RepoProbe::RemoteName(Err(e)) => {
            state.err_msg = e.message();
            false
        },
        RepoProbe::HeadTags(res) => {
            if !ok {
                return false;
            }
            match res {
                Ok(t) => {
                    state.tags = t;
                },
                Err(_) => {
                    state.tags = Vec::new();
                },
            }
            true
        },
        RepoProbe::CurrentBranch(res) => {
            if !ok {
                return false;
            }
            match res {
                Ok(b) => {
                    state.track_state = StateType::Normal;
                    state.current_branch = b;
                    true
                },
                Err(e) => {
                    state.err_msg = e.message();
                    false
                },
            }
        },
        RepoProbe::TrackingBranch(res) => {
            if !ok {
                return false;
            }
            match res {
                Ok(t) => {
                    state.tracking_branch = t;
                    true
                },
                Err(_) => {
                    state.track_state = StateType::Warning;
                    state.tracking_branch = String::from_str("untracked");
                    false
                },
            }
        },
        RepoProbe::Compare(res) => {
            if !ok {
                return false;
            }
            match res {
                Ok(m) => {
                    apply_compare_message(state, m.as_str());
                },
                Err(e) => {
                    state.err_msg = e.message();
                },
            }
            true
        },
    }
}

/// `new` is the state `old` goes back to when a command starts or ends: the
/// default state with both parts in `t`, keeping whether it is ignored or
/// left out by labels.
pub open spec fn is_reset_of(new: RepoState, old: RepoState, t: StateType) -> bool {
    &&& new.current_branch@.len() == 0
    &&& new.tracking_branch@.len() == 0
    &&& new.track_state == t
    &&& new.tags@.len() == 0
    &&& new.cmp_obj@.len() == 0
    &&& new.cmp_commit@.len() == 0
    &&& new.cmp_changes@.len() == 0
    &&& new.cmp_state == t
    &&& new.err_msg@.len() == 0
    &&& new.no_ignore == old.no_ignore
    &&& new.disable_by_label == old.disable_by_label
}

/// The state `old` goes back to when a command starts or ends.
pub fn reset_state(old: &RepoState, t: StateType) -> (r: RepoState)
    ensures
        is_reset_of(r, *old, t),
{
    let mut r = RepoState::new();
    r.track_state = t;
    r.cmp_state = t;
    r.no_ignore = old.no_ignore;
    r.disable_by_label = old.disable_by_label;
    r
}

/// `new` is the update `update` of the state `old`: every part from the
/// update but whether the repository is ignored or left out by labels.
pub open spec fn is_update_of(new: RepoState, update: RepoState, old: RepoState) -> bool {
    new == (RepoState { no_ignore: old.no_ignore, disable_by_label: old.disable_by_label, ..update })
}

/// Applies an update of a repository's state, keeping its filters.
pub fn updated_state(update: RepoState, old: &RepoState) -> (r: RepoState)
    ensures
        is_update_of(r, update, *old),
{
    RepoState { no_ignore: old.no_ignore, disable_by_label: old.disable_by_label, ..update }
}

} // verus!
