//! What running a command of the application asks for: the options of the
//! operation, built from the session's settings.  Running it, in the
//! background, is left to the caller.
use crate::events::{
    config_file_or_default, default_config_file, snapshot_ignore_list, snapshot_type_setting,
    sync_flags, sync_flags_of, sync_type_for, CommandType,
};
use crate::labels::is_label_set;
use crate::repo_manager::RepoManager;
use crate::repo_state::{is_reset_of, StateType};
use crate::options::{CleanOptions, CoreOptions, FetchOptions, InitOptions, SnapshotOptions, SnapshotType};
use crate::session::{opt_list_entries, SessionManager};
use crate::settings::entries_of;
use crate::text::split;
use vstd::prelude::*;

verus! {

broadcast use vstd::string::group_string_axioms;

/// An operation to run, with its options.
pub enum OpsRequest {
    Init(CoreOptions),
    Snapshot(SnapshotOptions),
    Fetch(FetchOptions),
    Sync { options: CoreOptions, labels: Option<Vec<String>> },
    Track(CoreOptions),
    Clean(CleanOptions),
    Refresh,
    Nothing,
}

/// An optional list of texts as sequences.
pub open spec fn opt_deep(o: Option<Vec<String>>) -> Option<Seq<Seq<char>>> {
    match o {
        Some(v) => Some(v.deep_view()),
        None => None,
    }
}

/// `labels` are the labels the session `s` selects, each once and in order;
/// none when it selects none.
pub open spec fn selected_labels(labels: Option<Seq<Seq<char>>>, s: SessionManager) -> bool {
    if s.project_settings.labels.labels().len() == 0 {
        labels is None
    } else {
        labels matches Some(l) && is_label_set(l) && l == s.project_settings.labels.labels()
    }
}

/// A number of the settings, as a count.
pub open spec fn opt_count(o: Option<u32>) -> Option<usize> {
    match o {
        Some(n) => Some(n as usize),
        None => None,
    }
}

fn count_of(o: Option<u32>) -> (r: Option<usize>)
    ensures
        r == opt_count(o),
{
    match o {
        Some(n) => Some(n as usize),
        None => None,
    }
}

/// The commands that work on the repositories in place: while they run,
/// each repository that takes part shows that it is updating.
pub open spec fn updates_in_place(command: CommandType) -> bool {
    command == CommandType::Fetch || command == CommandType::Sync || command == CommandType::SyncHard
        || command == CommandType::Track || command == CommandType::Clean
}

/// The commands that start from a new repositories file: the shown
/// repositories are dropped until it is read again.
pub open spec fn starts_over(command: CommandType) -> bool {
    command == CommandType::Init || command == CommandType::Snapshot || command
        == CommandType::Refresh
}

/// Prepares `command`: the repositories file becomes the default one when
/// none is chosen (and always for `init`), and a snapshot records the file
/// among the recent ones.  A command that works on the repositories in place
/// shows each repository that takes part (one not ignored or left out by
/// labels) as updating; one that writes or reads the repositories file again
/// drops the shown repositories.  The result is the operation with its
/// options, and the project whose settings are to be saved.
pub fn plan_ops(command: CommandType, session: &mut SessionManager, manager: &mut RepoManager) -> (r: (
    OpsRequest,
    Option<String>,
))
    ensures
        updates_in_place(command) ==> {
            &&& final(manager).repo_states@.len() == old(manager).repo_states@.len()
            &&& forall|i: int| 0 <= i < old(manager).repo_states@.len() ==> {
                let old_s = #[trigger] old(manager).repo_states@[i];
                let new_s = final(manager).repo_states@[i];
                if old_s.disabled() {
                    new_s == old_s
                } else {
                    is_reset_of(new_s, old_s, StateType::Updating)
                }
            }
            &&& final(manager).mgit_config == old(manager).mgit_config
        },
        starts_over(command) ==> final(manager).repo_states@.len() == 0
            && final(manager).mgit_config.repos is None,
        !updates_in_place(command) && !starts_over(command) ==> *final(manager) == *old(manager),
        final(manager).pending_config_save == old(manager).pending_config_save,
        final(manager).last_failed_config_save == old(manager).last_failed_config_save,
        final(manager).config_save_inflight == old(manager).config_save_inflight,
        final(session).project_path == old(session).project_path,
        final(session).user_settings == old(session).user_settings,
        final(session).recent_projects == old(session).recent_projects,
        command == CommandType::Init ==> final(session).config_file@ == old(session).project_path@
            + "/.gitrepos"@,
        command != CommandType::Init ==> final(session).config_file@ == if old(session).config_file@.len()
            == 0 {
            old(session).project_path@ + "/.gitrepos"@
        } else {
            old(session).config_file@
        },
        command != CommandType::Snapshot ==> final(session).project_settings == old(session).project_settings
            && r.1 is None,
        command == CommandType::Snapshot ==> r.1 == if old(session).recent_projects@.len() > 0 {
            Some(old(session).recent_projects@[0])
        } else {
            None::<String>
        },
        match r.0 {
            OpsRequest::Init(o) => {
                let f0 = old(session).user_settings.init_force;
                &&& command == CommandType::Init
                &&& o.spec_path() == old(session).project_path@
                &&& o.spec_force() == match f0 {
                    Some(f) => f,
                    None => false,
                }
            },
            OpsRequest::Snapshot(o) => {
                &&& command == CommandType::Snapshot
                &&& o.path@ == old(session).project_path@
                &&& o.config_path@ == final(session).config_file@
                &&& o.force == match old(session).user_settings.snapshot_force {
                    Some(f) => f,
                    None => false,
                }
                &&& o.snapshot_type == if old(session).user_settings.snapshot_branch == Some(true) {
                    SnapshotType::Branch
                } else {
                    SnapshotType::Commit
                }
                &&& opt_deep(o.ignore) == match old(session).project_settings.snapshot_ignore {
                    Some(t) => Some(split(t@, '\n')),
                    None => None,
                }
                &&& entries_of(final(session).project_settings.recent_configs) == if old(session).recent_projects@.len() > 0 {
                    crate::settings::new_history(
                        final(session).config_file@,
                        entries_of(old(session).project_settings.recent_configs),
                    )
                } else {
                    entries_of(old(session).project_settings.recent_configs)
                }
            },
            OpsRequest::Fetch(o) => {
                &&& command == CommandType::Fetch
                &&& o.path@ == old(session).project_path@
                &&& o.config_path@ == final(session).config_file@
                &&& o.thread_count == match opt_count(old(session).user_settings.sync_thread) {
                    Some(t) => t,
                    None => 4,
                }
                &&& o.silent
                &&& o.depth == opt_count(old(session).user_settings.sync_depth)
                &&& opt_deep(o.ignore) == opt_list_entries(old(session).project_settings.ignore)
                &&& selected_labels(opt_deep(o.labels), *old(session))
            },
            OpsRequest::Sync { options: o, labels } => {
                let t = sync_type_for(command, old(session).user_settings.sync_type);
                &&& (command == CommandType::Sync || command == CommandType::SyncHard)
                &&& o.path@ == old(session).project_path@
                &&& o.config_path matches Some(c) && c@ == final(session).config_file@
                &&& o.thread_count == Some(
                    match opt_count(old(session).user_settings.sync_thread) {
                        Some(n) => n,
                        None => 4,
                    },
                )
                &&& o.silent == Some(true)
                &&& o.depth == opt_count(old(session).user_settings.sync_depth)
                &&& opt_deep(o.ignore) == opt_list_entries(old(session).project_settings.ignore)
                &&& o.hard == Some(sync_flags_of(t).0)
                &&& o.stash == Some(sync_flags_of(t).1)
                &&& o.no_track == Some(
                    match old(session).user_settings.sync_no_track {
                        Some(b) => b,
                        None => false,
                    },
                )
                &&& o.no_checkout == Some(
                    match old(session).user_settings.sync_no_checkout {
                        Some(b) => b,
                        None => false,
                    },
                )
                &&& selected_labels(opt_deep(labels), *old(session))
            },
            OpsRequest::Track(o) => {
                &&& command == CommandType::Track
                &&& o.path@ == old(session).project_path@
                &&& o.config_path matches Some(c) && c@ == final(session).config_file@
                &&& opt_deep(o.ignore) == opt_list_entries(old(session).project_settings.ignore)
            },
            OpsRequest::Clean(o) => {
                &&& command == CommandType::Clean
                &&& o.path@ == old(session).project_path@
                &&& o.config_path@ == final(session).config_file@
                &&& selected_labels(opt_deep(o.labels), *old(session))
            },
            OpsRequest::Refresh => command == CommandType::Refresh,
            OpsRequest::Nothing => command == CommandType::Nothing || command == CommandType::NewBranch
                || command == CommandType::NewTag,
        },
{
    if command == CommandType::Fetch || command == CommandType::Sync || command == CommandType::SyncHard
        || command == CommandType::Track || command == CommandType::Clean {
        manager.reset_repo_state(StateType::Updating);
    } else if command == CommandType::Init || command == CommandType::Snapshot || command
        == CommandType::Refresh {
        manager.clear_mgit_config();
    }
    let config = config_file_or_default(session.config_file.as_str(), session.project_path.as_str());
    session.config_file = config;
    let project = session.project_path.clone();
    let mut save: Option<String> = None;
    let request = match command {
        CommandType::Init => {
            session.config_file = default_config_file(project.as_str());
            let force = session.user_settings.init_force;
            OpsRequest::Init(CoreOptions::new_init_options(Some(project), force, ""))
        },
        CommandType::Snapshot => {
            let snapshot_type = snapshot_type_setting(session.user_settings.snapshot_branch);
            let force = session.user_settings.snapshot_force;
            let ignore = snapshot_ignore_list(&session.get_snapshot_ignore());
            let options = SnapshotOptions::new(
                Some(project),
                Some(session.config_file.clone()),
                force,
                snapshot_type,
                ignore,
                "",
            );
            proof {
                reveal_strlit("/.gitrepos");
                assert(session.config_file@.len() > 0);
            }
            save = session.push_recent_config();
            OpsRequest::Snapshot(options)
        },
        CommandType::Fetch => OpsRequest::Fetch(
            FetchOptions::new(
                Some(project),
                Some(session.config_file.clone()),
                count_of(session.user_settings.sync_thread),
                Some(true),
                count_of(session.user_settings.sync_depth),
                session.get_ignores(),
                session.get_labels(),
                "",
            ),
        ),
        CommandType::Sync | CommandType::SyncHard => {
            let (_, hard, stash) = sync_flags(command, session.user_settings.sync_type);
            let options = CoreOptions::new_sync_options(
                Some(project),
                Some(session.config_file.clone()),
                count_of(session.user_settings.sync_thread),
                Some(true),
                count_of(session.user_settings.sync_depth),
                session.get_ignores(),
                Some(hard),
                Some(stash),
                session.user_settings.sync_no_track,
                session.user_settings.sync_no_checkout,
                "",
            );
            OpsRequest::Sync { options, labels: session.get_labels() }
        },
        CommandType::Track => OpsRequest::Track(
            CoreOptions::new_track_options(
                Some(project),
                Some(session.config_file.clone()),
                session.get_ignores(),
                "",
            ),
        ),
        CommandType::Clean => OpsRequest::Clean(
            CleanOptions::new(Some(project), Some(session.config_file.clone()), session.get_labels(), ""),
        ),
        CommandType::Refresh => OpsRequest::Refresh,
        _ => OpsRequest::Nothing,
    };
    (request, save)
}

} // verus!
