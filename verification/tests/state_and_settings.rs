use mgit::config::{MgitConfig, RepoConfig};
use mgit::error::MgitError;
use mgit::events::CommandType;
use mgit::git::{command_outcome, find_remote_url_by_name, get_remote_branches, is_repository, GitStep};
use mgit::progress::{collapse_non_alnum_str, generate_repo_name, OpsMessageCollector};
use mgit::repo_manager::{PendingConfigSave, RemoteBranchesCache, RepoManager};
use mgit::repo_state::{
    apply_compare_message, apply_probe, missing_local_state, reset_state, RepoProbe, RepoState,
    StateType,
};
use mgit::settings::{get_new_history, TomlProjectSettings};
use mgit::style_message::StyleMessage;
use mgit::system::{
    check_git_version, checked_state, gui_installer_url, update_offer, upgrade_window_name, Platform,
    UpgradeState,
};

fn strings(v: &[&str]) -> Vec<String> {
    v.iter().map(|s| s.to_string()).collect()
}

fn repo(local: &str, remote: Option<&str>) -> RepoConfig {
    RepoConfig {
        local: Some(local.to_string()),
        remote: remote.map(|s| s.to_string()),
        branch: None,
        tag: None,
        commit: None,
        sparse: None,
        labels: None,
    }
}

#[test]
fn history_moves_used_entry_to_front() {
    let mut h = strings(&["a", "b", "c"]);
    get_new_history("b".to_string(), &mut h);
    assert_eq!(h, strings(&["b", "a", "c"]));
    get_new_history("b".to_string(), &mut h);
    assert_eq!(h, strings(&["b", "a", "c"]));
    get_new_history("d".to_string(), &mut h);
    assert_eq!(h, strings(&["d", "b", "a", "c"]));
}

#[test]
fn history_is_bounded() {
    let mut h: Vec<String> = (0..20).map(|i| format!("p{i}")).collect();
    get_new_history("new".to_string(), &mut h);
    assert_eq!(h.len(), 20);
    assert_eq!(h[0], "new");
    assert_eq!(h[19], "p18");
}

#[test]
fn ignore_list_round_trip() {
    let mut s = TomlProjectSettings::new();
    s.save_ignore("a/b".to_string(), true);
    assert_eq!(s.ignore.as_deref(), Some("a/b\n"));
    s.save_ignore("a/b".to_string(), true);
    assert_eq!(s.ignore.as_deref(), Some("a/b\n"));
    s.save_ignore("c".to_string(), true);
    assert_eq!(s.ignore.as_deref(), Some("a/b\nc\n"));
    s.save_ignore("a/b".to_string(), false);
    assert_eq!(s.ignore.as_deref(), Some("c\n"));
    s.save_ignore("c".to_string(), false);
    assert_eq!(s.ignore, None);
}

#[test]
fn compare_messages_set_state() {
    let mut s = RepoState::new();
    apply_compare_message(&mut s, "main: not tracking a remote branch");
    assert_eq!(s.cmp_state, StateType::Error);
    assert_eq!(s.cmp_obj, "main: not tracking a remote branch");

    let mut s = RepoState::new();
    apply_compare_message(&mut s, "already update to date. abc123 last commit ");
    assert_eq!(s.cmp_state, StateType::Normal);
    assert_eq!(s.cmp_obj, "abc123 last commit");

    let mut s = RepoState::new();
    apply_compare_message(&mut s, "already update to date.");
    assert_eq!(s.cmp_obj, "already update to date");

    let mut s = RepoState::new();
    apply_compare_message(&mut s, "origin/main, 2 commits ↓, 3 changes");
    assert_eq!(s.cmp_state, StateType::Warning);
    assert_eq!(s.cmp_obj, "origin/main");
    assert_eq!(s.cmp_commit, "2 commits ↓");
    assert_eq!(s.cmp_changes, "3 changes");
}

#[test]
fn probes_build_repository_state() {
    let mut s = RepoState::new();
    let ok = apply_probe(&mut s, true, RepoProbe::Repository(Ok(())));
    assert!(ok);
    let ok = apply_probe(&mut s, ok, RepoProbe::HeadTags(Ok(strings(&["v1"]))));
    assert!(ok);
    assert_eq!(s.tags, strings(&["v1"]));
    let ok = apply_probe(&mut s, ok, RepoProbe::CurrentBranch(Ok("main".to_string())));
    assert_eq!(s.track_state, StateType::Normal);
    assert_eq!(s.current_branch, "main");
    let ok = apply_probe(&mut s, ok, RepoProbe::TrackingBranch(Err(MgitError::Untracked)));
    assert!(!ok);
    assert_eq!(s.track_state, StateType::Warning);
    assert_eq!(s.tracking_branch, "untracked");
    let ok = apply_probe(&mut s, ok, RepoProbe::Compare(Ok("not tracking".to_string())));
    assert!(!ok);
    assert_eq!(s.cmp_state, StateType::Disconnected);

    let mut s = RepoState::new();
    let ok = apply_probe(&mut s, true, RepoProbe::Repository(Err(MgitError::CommitNotFound)));
    assert!(!ok);
    assert_eq!(s.err_msg, "Current commit not found");

    let m = missing_local_state();
    assert_eq!(m.err_msg, "invalid repo: local is missing");
    assert_eq!(m.track_state, StateType::Error);
}

#[test]
fn reset_keeps_filters() {
    let mut s = RepoState::new();
    s.no_ignore = false;
    s.current_branch = "x".to_string();
    let r = reset_state(&s, StateType::Updating);
    assert_eq!(r.track_state, StateType::Updating);
    assert_eq!(r.cmp_state, StateType::Updating);
    assert!(!r.no_ignore);
    assert_eq!(r.current_branch, "");
}

#[test]
fn manager_filters_and_resets() {
    let mut m = RepoManager::new();
    let mut c = MgitConfig::new();
    c.repos = Some(vec![repo("a", None), repo("b\\c", None)]);
    assert!(!m.load_config(Some(Some(c))));
    assert_eq!(m.repo_states.len(), 2);
    let ignores = strings(&["b/c"]);
    m.recompute_repo_filters(Some(&ignores), None);
    assert!(m.repo_states[0].no_ignore);
    assert!(!m.repo_states[1].no_ignore);
    m.reset_repo_state(StateType::Updating);
    assert_eq!(m.repo_states[0].track_state, StateType::Updating);
    assert_eq!(m.repo_states[1].track_state, StateType::Disconnected);
    assert!(m.load_config(Some(None)));
}

#[test]
fn config_save_waits_and_retries() {
    let mut m = RepoManager::new();
    m.schedule_config_save(7, "p/.gitrepos".to_string(), "content".to_string(), 10_000);
    assert!(m.flush_config_save_if_due(10_100).is_none());
    let due: PendingConfigSave = m.flush_config_save_if_due(10_500).unwrap();
    assert_eq!(due.run_id, 7);
    assert!(m.config_save_inflight);
    m.on_config_save_failed(7, due.path, due.content, 11_000);
    assert!(!m.config_save_inflight);
    m.retry_last_config_save(20_000);
    let again = m.flush_config_save_if_due(20_000).unwrap();
    assert_eq!(again.content, "content");
    m.on_config_saved();
    assert!(m.last_failed_config_save.is_none());
}

#[test]
fn remote_branch_cache_loads_once() {
    let mut c = RemoteBranchesCache::new();
    assert!(c.request_load("r"));
    assert!(!c.request_load("r"));
    c.on_loaded("r", strings(&["main"]));
    assert!(!c.request_load("r"));
    c.on_failed("s", "boom".to_string());
    assert!(!c.request_load("s"));
    c.clear();
    assert!(c.request_load("r"));
}

#[test]
fn git_steps_and_outcomes() {
    let done: Vec<Result<String, MgitError>> = vec![];
    assert!(matches!(is_repository(false, &done), GitStep::Done(Err(_))));
    match is_repository(true, &done) {
        GitStep::Run(args) => assert_eq!(args, strings(&["rev-parse", "--show-cdup"])),
        GitStep::Done(_) => panic!("expected a command"),
    }
    let done = vec![Ok("\n".to_string())];
    assert!(matches!(is_repository(true, &done), GitStep::Done(Ok(()))));
    let done = vec![Ok(String::new()), Ok("https://x/y.git\n".to_string())];
    match find_remote_url_by_name(true, "origin", &done) {
        GitStep::Done(Ok(url)) => assert_eq!(url, "https://x/y.git"),
        _ => panic!("expected the url"),
    }
    let done = vec![Ok("  origin/HEAD -> origin/main\n  origin/dev\n".to_string())];
    match get_remote_branches(&done) {
        GitStep::Done(v) => assert_eq!(v, strings(&["HEAD -> main", "dev"])),
        GitStep::Run(_) => panic!("expected the branches"),
    }
    assert!(matches!(command_outcome(true, Some(0), "out".to_string(), String::new()), Ok(o) if o == "out"));
    assert!(matches!(command_outcome(false, None, String::new(), "bad".to_string()),
        Err(MgitError::GitCommandError { code: -1, output }) if output == "bad"));
}

#[test]
fn git_version_checks() {
    assert!(check_git_version("git version 2.39.2\n").is_ok());
    let info = check_git_version("git version 2.39.2 (Apple Git-143)\n").unwrap();
    assert_eq!(info.version.as_deref(), Some("2.39.2"));
    assert_eq!(info.version_desc, "git version 2.39.2 (Apple Git-143)");
    assert_eq!(
        check_git_version("git version 2.20.1").err().unwrap(),
        "git version >= 2.22.0 is required, current version is 2.20.1\n"
    );
    assert_eq!(check_git_version("no version").err().unwrap(), "failed to get git version\n");
}

#[test]
fn installers_and_updates() {
    let (asset, url) = gui_installer_url("1.2.3", Platform::Linux);
    assert_eq!(asset, "mgit_1.2.3_amd64.deb");
    assert_eq!(url, "https://github.com/yhx0516/mgit/releases/download/1.2.3/mgit_1.2.3_amd64.deb");
    assert_eq!(gui_installer_url("1.0.0", Platform::MacOs).0, "mgit-1.0.0-universal.dmg");
    assert_eq!(gui_installer_url("1.0.0", Platform::Windows).0, "mgit-1.0.0-setup.exe");
    assert_eq!(gui_installer_url("1.0.0", Platform::Other).0, "");
    assert!(update_offer("1.3.0", "1.2.9", Platform::Linux).is_some());
    assert!(update_offer("1.2.9", "1.2.9", Platform::Linux).is_none());
    assert!(update_offer("not-a-version", "1.2.9", Platform::Linux).is_none());
}

#[test]
fn progress_names_and_messages() {
    assert_eq!(collapse_non_alnum_str("a//b-c"), "a_b_c");
    assert_eq!(collapse_non_alnum_str("--x"), "_x");
    assert_eq!(generate_repo_name(3, &repo("foo/bar", Some("https://h/r.git"))), "03-foo_bar-https_h_r_git");
    let mut none = repo("x", None);
    none.local = None;
    assert_eq!(generate_repo_name(12, &none), "12-no_local-no_remote");

    let mut c = OpsMessageCollector::new();
    c.update(&vec![repo("a", None), repo("b", None)]);
    assert_eq!(c.repo_names, strings(&["00-a-no_remote", "01-b-no_remote"]));
    assert!(c.read_ops_message(5).is_empty());
    c.on_repo_update(1, StyleMessage::new().plain_text("running..."));
    assert_eq!(c.read_ops_message(1)[0].to_plain_text(), "running...");
    assert!(!c.send_command_finished_once());
    c.command_type = CommandType::Fetch;
    assert!(c.send_command_finished_once());
    assert!(!c.send_command_finished_once());
    c.on_batch_start();
    assert!(c.send_command_finished_once());
}

#[test]
fn update_window_states() {
    let offer = update_offer("2.0.0", "1.0.0", Platform::Windows);
    let st = checked_state("1.0.0", "2.0.0".to_string(), offer);
    match &st {
        UpgradeState::UpdateAvailable { current, latest, asset_name, .. } => {
            assert_eq!(current, "1.0.0");
            assert_eq!(latest, "2.0.0");
            assert_eq!(asset_name, "mgit-2.0.0-setup.exe");
        }
        _ => panic!("expected an offer"),
    }
    assert_eq!(upgrade_window_name(&st), "mgit-gui v2.0.0 available");
    let st = checked_state("1.0.0", "1.0.0".to_string(), None);
    assert!(matches!(&st, UpgradeState::UpToDate { current } if current == "1.0.0"));
    assert_eq!(upgrade_window_name(&st), "Update mgit-gui");
}
