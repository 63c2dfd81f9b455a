use mgit::config::{MgitConfig, RepoConfig};
use mgit::error::MgitError;
use mgit::events::{
    config_file_for_project, config_file_or_default, default_config_file, refreshes_after,
    reloads_config_after, snapshot_ignore_list, snapshot_type_setting, sync_flags, CommandType,
    OpsCommand,
};
use mgit::ops::{
    batch_outcome, branch_of_tracking, check_config_file, check_project, check_snapshot_target,
    config_repo_paths, filter_by_labels, loaded_repos, no_repos_message, selected_repo_ids,
    snapshot_config, snapshot_entry, snapshot_skips, sort_by_local, sparse_of,
};
use mgit::options::SnapshotType;
use mgit::settings::SyncType;
use mgit::windows::NewTagOptions;

fn strings(v: &[&str]) -> Vec<String> {
    v.iter().map(|s| s.to_string()).collect()
}

fn repo(local: &str, labels: Option<&[&str]>) -> RepoConfig {
    RepoConfig {
        local: Some(local.to_string()),
        remote: None,
        branch: None,
        tag: None,
        commit: None,
        sparse: None,
        labels: labels.map(strings),
    }
}

fn locals(v: &[RepoConfig]) -> Vec<String> {
    v.iter().map(|r| r.local.clone().unwrap()).collect()
}

#[test]
fn project_checks_in_order() {
    assert!(matches!(check_project("p", false, "p/.gitrepos", false),
        Err(MgitError::DirNotFound { path }) if path == "p"));
    assert!(matches!(check_project("p", true, "p/.gitrepos", false),
        Err(MgitError::ConfigFileNotFound { path }) if path == "p/.gitrepos"));
    assert!(check_project("p", true, "p/.gitrepos", true).is_ok());
    assert!(matches!(check_config_file("c", false), Err(MgitError::ConfigFileNotFound { .. })));
    assert!(check_config_file("c", true).is_ok());
}

#[test]
fn snapshot_target_checks() {
    assert!(matches!(check_snapshot_target("p", false, true, true), Err(MgitError::DirNotFound { .. })));
    assert!(matches!(check_snapshot_target("p", true, true, false),
        Err(MgitError::DirAlreadyInited { path }) if path == "p"));
    assert!(check_snapshot_target("p", true, true, true).is_ok());
    assert!(check_snapshot_target("p", true, false, false).is_ok());
}

#[test]
fn loaded_repos_cases() {
    assert!(matches!(loaded_repos(None, None),
        Err(MgitError::LoadConfigFailed { source }) if source == "Failed to load config"));
    assert!(matches!(loaded_repos(Some(MgitConfig::new()), None), Ok(None)));
    let mut c = MgitConfig::new();
    c.repos = Some(vec![repo("a", Some(&["x"])), repo("b", None), repo("c", Some(&["y", "x"]))]);
    let labels = strings(&["x"]);
    let got = loaded_repos(Some(c), Some(&labels)).unwrap().unwrap();
    assert_eq!(locals(&got), strings(&["a", "c"]));
}

#[test]
fn label_filter_keeps_order() {
    let repos = vec![repo("a", Some(&["l1"])), repo("b", Some(&["l2"])), repo("c", Some(&["l1"]))];
    let kept = filter_by_labels(repos, &strings(&["l1"]));
    assert_eq!(locals(&kept), strings(&["a", "c"]));
    assert_eq!(config_repo_paths(&kept), strings(&["a", "c"]));
}

#[test]
fn snapshot_entries() {
    let ignore = Some(strings(&["skip/me"]));
    assert!(snapshot_skips("skip/me", &ignore));
    assert!(!snapshot_skips("keep", &ignore));
    assert!(!snapshot_skips("keep", &None));

    assert_eq!(branch_of_tracking("origin/feature/a "), Some("feature/a".to_string()));
    assert_eq!(branch_of_tracking("nobranch"), None);

    assert_eq!(sparse_of(&Ok("  \n ".to_string())), None);
    assert_eq!(sparse_of(&Err(MgitError::CommitNotFound)), None);
    assert_eq!(sparse_of(&Ok("Doc\n/*.md\n".to_string())), Some(strings(&["Doc", "/*.md"])));

    let e = snapshot_entry(
        "sub/repo",
        SnapshotType::Branch,
        &Ok("https://example.com/r.git".to_string()),
        &Ok("origin/main".to_string()),
        &Err(MgitError::BranchNotFound),
    );
    assert_eq!(e.local.as_deref(), Some("sub/repo"));
    assert_eq!(e.remote.as_deref(), Some("https://example.com/r.git"));
    assert_eq!(e.branch.as_deref(), Some("main"));
    assert_eq!(e.commit, None);
    assert_eq!(e.sparse, None);

    let e = snapshot_entry("r", SnapshotType::Commit, &Err(MgitError::Untracked), &Ok("abc123".to_string()), &Ok("x".to_string()));
    assert_eq!(e.remote, None);
    assert_eq!(e.commit.as_deref(), Some("abc123"));
    assert_eq!(e.branch, None);
    assert_eq!(e.sparse, Some(strings(&["x"])));
}

#[test]
fn snapshot_orders_by_lowercase_directory() {
    let sorted = sort_by_local(vec![repo("b", None), repo("A", None), repo("a", None), repo("C/x", None)]);
    assert_eq!(locals(&sorted), strings(&["A", "a", "b", "C/x"]));
    let c = snapshot_config(vec![repo("Zed", None), repo("alpha", None)]);
    assert_eq!(c.default_branch.as_deref(), Some("develop"));
    assert_eq!(c.version, None);
    assert_eq!(c.default_remote, None);
    assert_eq!(locals(c.repos.as_ref().unwrap()), strings(&["alpha", "Zed"]));
}

#[test]
fn batch_selection_by_ignore_and_labels() {
    let repos = vec![repo("a", Some(&["x"])), repo("b\\c", None), repo("d", Some(&["y"]))];
    assert_eq!(selected_repo_ids(&repos, None, None), vec![0, 1, 2]);
    let ignore = strings(&["b/c"]);
    assert_eq!(selected_repo_ids(&repos, Some(&ignore), None), vec![0, 2]);
    let labels = strings(&["y"]);
    assert_eq!(selected_repo_ids(&repos, Some(&ignore), Some(&labels)), vec![2]);
}

#[test]
fn batch_outcomes() {
    let ok = batch_outcome("fetch", 0).unwrap();
    assert_eq!(ok.to_plain_text(), "fetch finished! 0 error(s).\n");
    let err = batch_outcome("fetch", 3).unwrap_err();
    assert_eq!(err.to_plain_text(), "fetch finished! 3 error(s).\n");
    assert_eq!(no_repos_message("clean").to_plain_text(), "No repos to clean");
}

#[test]
fn command_kinds() {
    assert_eq!(OpsCommand::Simple(CommandType::Fetch).kind(), CommandType::Fetch);
    assert_eq!(OpsCommand::Snapshot { config_file: "c".to_string() }.kind(), CommandType::Snapshot);
    let tag = NewTagOptions {
        path: "p".to_string(),
        config_path: "c".to_string(),
        new_tag: "v1".to_string(),
        push: false,
        ignore: None,
    };
    assert_eq!(OpsCommand::CreateTag(tag).kind(), CommandType::NewTag);
    assert_eq!(OpsCommand::from(CommandType::Clean).kind(), CommandType::Clean);
    assert!(!refreshes_after(CommandType::Nothing));
    assert!(refreshes_after(CommandType::Refresh));
    assert!(!reloads_config_after(CommandType::Refresh));
    assert!(reloads_config_after(CommandType::Sync));
}

#[test]
fn command_preparation() {
    assert_eq!(default_config_file("/p"), "/p/.gitrepos");
    assert_eq!(config_file_or_default("", "/p"), "/p/.gitrepos");
    assert_eq!(config_file_or_default("/q/x", "/p"), "/q/x");
    assert_eq!(config_file_for_project("/p", &Some(strings(&["/p/a", "/p/b"]))), "/p/a");
    assert_eq!(config_file_for_project("/p", &Some(vec![])), "/p/.gitrepos");
    assert_eq!(config_file_for_project("/p", &None), "/p/.gitrepos");
    assert_eq!(sync_flags(CommandType::SyncHard, Some(SyncType::Normal)), (SyncType::Hard, true, false));
    assert_eq!(sync_flags(CommandType::Sync, None), (SyncType::Stash, false, true));
    assert_eq!(sync_flags(CommandType::Sync, Some(SyncType::Normal)), (SyncType::Normal, false, false));
    assert_eq!(snapshot_type_setting(Some(true)), Some(SnapshotType::Branch));
    assert_eq!(snapshot_type_setting(Some(false)), None);
    assert_eq!(snapshot_ignore_list(&Some("a\nb".to_string())), Some(strings(&["a", "b"])));
    assert_eq!(snapshot_ignore_list(&None), None);
}
