//! The commands the application runs, and the choices it makes when it
//! prepares one or sees one finish.
use crate::options::SnapshotType;
use crate::settings::SyncType;
use crate::text::split_str;
use crate::windows::{NewBranchOptions, NewTagOptions};
use vstd::prelude::*;

verus! {

broadcast use vstd::string::group_string_axioms;

/// The commands of the application.
#[derive(PartialEq, Eq, Structural, Debug, Clone, Copy)]
pub enum CommandType {
    Nothing,
    Init,
    Snapshot,
    Fetch,
    Sync,
    SyncHard,
    Refresh,
    Track,
    Clean,
    NewBranch,
    NewTag,
}

/// A command with what it needs to run.
pub enum OpsCommand {
    Simple(CommandType),
    Snapshot { config_file: String },
    CreateBranch(NewBranchOptions),
    CreateTag(NewTagOptions),
}

impl OpsCommand {
    /// The kind of a command.
    pub open spec fn kind_of(&self) -> CommandType {
        match self {
            OpsCommand::Simple(k) => *k,
            OpsCommand::Snapshot { .. } => CommandType::Snapshot,
            OpsCommand::CreateBranch(_) => CommandType::NewBranch,
            OpsCommand::CreateTag(_) => CommandType::NewTag,
        }
    }

    /// The kind of the command.
    pub fn kind(&self) -> (r: CommandType)
        ensures
            r == self.kind_of(),
    {
        match self {
            OpsCommand::Simple(k) => *k,
            OpsCommand::Snapshot { .. } => CommandType::Snapshot,
            OpsCommand::CreateBranch(_) => CommandType::NewBranch,
            OpsCommand::CreateTag(_) => CommandType::NewTag,
        }
    }
}

impl From<CommandType> for OpsCommand {
    fn from(kind: CommandType) -> (r: Self) {
        OpsCommand::Simple(kind)
    }
}

impl vstd::std_specs::convert::FromSpecImpl<CommandType> for OpsCommand {
    open spec fn obeys_from_spec() -> bool {
        true
    }

    open spec fn from_spec(kind: CommandType) -> Self {
        OpsCommand::Simple(kind)
    }
}

/// When a command finishes, the repository states are refreshed unless it
/// was no command at all.
pub fn refreshes_after(kind: CommandType) -> (r: bool)
    ensures
        r == (kind != CommandType::Nothing),
{
    kind != CommandType::Nothing
}

/// When a command finishes, the repositories file is read again unless the
/// command was a refresh, which reads it itself, or no command at all.
pub fn reloads_config_after(kind: CommandType) -> (r: bool)
    ensures
        r == (kind != CommandType::Nothing && kind != CommandType::Refresh),
{
    kind != CommandType::Nothing && kind != CommandType::Refresh
}

/// The repositories file of a project when none is chosen: `.gitrepos` in
/// the project directory.
pub fn default_config_file(project_path: &str) -> (r: String)
    ensures
        r@ == project_path@ + "/.gitrepos"@,
{
    let mut r = String::from_str(project_path);
    r.append("/.gitrepos");
    r
}

/// The repositories file a command uses: the chosen one, or the default when
/// none is chosen.
pub fn config_file_or_default(config_file: &str, project_path: &str) -> (r: String)
    ensures
        config_file@.len() == 0 ==> r@ == project_path@ + "/.gitrepos"@,
        config_file@.len() > 0 ==> r@ == config_file@,
{
    if config_file.is_empty() {
        default_config_file(project_path)
    } else {
        String::from_str(config_file)
    }
}

/// The repositories file when the project changes: the most recent one of
/// the project, else the default.
pub fn config_file_for_project(project_path: &str, recent_configs: &Option<Vec<String>>) -> (r: String)
    ensures
        match recent_configs {
            Some(v) => if v@.len() > 0 {
                r@ == v@[0]@
            } else {
                r@ == project_path@ + "/.gitrepos"@
            },
            None => r@ == project_path@ + "/.gitrepos"@,
        },
{
    match recent_configs {
        Some(v) => {
            if v.len() > 0 {
                v[0].clone()
            } else {
                default_config_file(project_path)
            }
        },
        None => default_config_file(project_path),
    }
}

/// How a sync treats local changes: a hard sync always discards them,
/// otherwise the setting decides, stashing them by default.
pub open spec fn sync_type_for(command: CommandType, setting: Option<SyncType>) -> SyncType {
    if command == CommandType::SyncHard {
        SyncType::Hard
    } else {
        match setting {
            Some(t) => t,
            None => SyncType::Stash,
        }
    }
}

/// The `hard` and `stash` options of a sync.
pub open spec fn sync_flags_of(t: SyncType) -> (bool, bool) {
    match t {
        SyncType::Normal => (false, false),
        SyncType::Stash => (false, true),
        SyncType::Hard => (true, false),
    }
}

/// How a sync treats local changes, with its `hard` and `stash` options.
pub fn sync_flags(command: CommandType, setting: Option<SyncType>) -> (r: (SyncType, bool, bool))
    ensures
        r.0 == sync_type_for(command, setting),
        (r.1, r.2) == sync_flags_of(r.0),
{
    let t = if command == CommandType::SyncHard {
        SyncType::Hard
    } else {
        match setting {
            Some(t) => t,
            None => SyncType::Stash,
        }
    };
    match t {
        SyncType::Normal => (t, false, false),
        SyncType::Stash => (t, false, true),
        SyncType::Hard => (t, true, false),
    }
}

/// A sync uses the sync type of the settings, stashing when they give none;
/// a hard sync always resets hard.  A sync resets hard exactly when its type
/// is hard and stashes exactly when its type is stash.
pub proof fn lemma_sync_follows_settings(t: SyncType, setting: Option<SyncType>)
    ensures
        sync_type_for(CommandType::Sync, Some(t)) == t,
        sync_type_for(CommandType::Sync, None) == SyncType::Stash,
        sync_type_for(CommandType::SyncHard, setting) == SyncType::Hard,
        sync_flags_of(t).0 <==> t == SyncType::Hard,
        sync_flags_of(t).1 <==> t == SyncType::Stash,
        !(sync_flags_of(t).0 && sync_flags_of(t).1),
{
}

/// The snapshot type the settings ask for: branches when the setting is on,
/// else the default.
pub fn snapshot_type_setting(snapshot_branch: Option<bool>) -> (r: Option<SnapshotType>)
    ensures
        snapshot_branch == Some(true) ==> r == Some(SnapshotType::Branch),
        snapshot_branch != Some(true) ==> r is None,
{
    match snapshot_branch {
        Some(true) => Some(SnapshotType::Branch),
        _ => None,
    }
}

/// The paths a snapshot leaves out, one per line of the saved text.
pub fn snapshot_ignore_list(saved: &Option<String>) -> (r: Option<Vec<String>>)
    ensures
        saved is None ==> r is None,
        saved matches Some(t) ==> (r matches Some(v) && v.deep_view() == crate::text::split(t@, '\n')),
{
    match saved {
        Some(t) => Some(split_str(t.as_str(), '\n')),
        None => None,
    }
}

} // verus!
