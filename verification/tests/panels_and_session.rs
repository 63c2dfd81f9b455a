use mgit::dispatch::{plan_ops, OpsRequest};
use mgit::events::CommandType;
use mgit::options::SnapshotType;
use mgit::settings::SyncType;
use mgit::config::RepoConfig;
use mgit::panels::{
    edit_remote_ref, remote_ref_label, repo_full_path, shown_tags, state_headline,
    toggle_edit_idx, StateHeadline,
};
use mgit::repo_manager::RemoteBranchesCache;
use mgit::repo_state::{RepoState, StateType};
use mgit::session::{parse_list, SessionManager};

fn strings(v: &[&str]) -> Vec<String> {
    v.iter().map(|s| s.to_string()).collect()
}

#[test]
fn remote_ref_labels() {
    let label = remote_ref_label(
        &Some("dev".to_string()),
        &Some("v1".to_string()),
        &Some("0123456789abcdef".to_string()),
    );
    assert_eq!(label, "\u{fb2b} dev  \u{f9f8} v1  \u{fc16} 0123456");
    assert_eq!(remote_ref_label(&None, &None, &Some("abc".to_string())), "  \u{fc16} abc");
    assert_eq!(remote_ref_label(&None, &None, &None), "");
}

#[test]
fn editing_remote_refs() {
    let mut r = RepoConfig {
        local: Some("a".to_string()),
        remote: None,
        branch: Some("main".to_string()),
        tag: None,
        commit: None,
        sparse: None,
        labels: None,
    };
    assert!(!edit_remote_ref(&mut r, "main".to_string(), String::new(), String::new()));
    assert!(edit_remote_ref(&mut r, String::new(), "v2".to_string(), String::new()));
    assert_eq!(r.branch, None);
    assert_eq!(r.tag.as_deref(), Some("v2"));
}

#[test]
fn repository_directories_and_editor_toggle() {
    assert_eq!(repo_full_path("/p", ""), "/p");
    assert_eq!(repo_full_path("/p", "./"), "/p");
    assert_eq!(repo_full_path("/p", "sub/x"), "/p/sub/x");
    assert_eq!(toggle_edit_idx(-1, 3), 3);
    assert_eq!(toggle_edit_idx(3, 3), -1);
}

#[test]
fn state_headlines_and_tags() {
    let mut s = RepoState::new();
    assert_eq!(state_headline(&s), StateHeadline::Disconnected);
    s.track_state = StateType::Normal;
    assert_eq!(state_headline(&s), StateHeadline::Normal);
    s.err_msg = "boom".to_string();
    assert_eq!(state_headline(&s), StateHeadline::Error);
    s.disable_by_label = true;
    assert_eq!(state_headline(&s), StateHeadline::Disconnected);
    assert_eq!(shown_tags(&strings(&["a", "b", "c", "d", "e"])), strings(&["a", "b", "c", "d"]));
    assert_eq!(shown_tags(&strings(&["a"])), strings(&["a"]));
}

#[test]
fn reload_restarts_loading() {
    let mut c = RemoteBranchesCache::new();
    c.on_failed("r", "no network".to_string());
    assert!(!c.request_load("r"));
    assert!(c.reload("r"));
    assert!(!c.request_load("r"));
}

#[test]
fn session_ignores_follow_saved_list() {
    let mut s = SessionManager::new();
    assert_eq!(s.save_ignore("x".to_string(), true), None);
    s.project_path = "/proj".to_string();
    s.push_recent_project();
    assert_eq!(s.recent_projects, strings(&["/proj"]));
    assert_eq!(s.save_ignore("a\\b".to_string(), true), Some("/proj".to_string()));
    assert_eq!(s.save_ignore("c".to_string(), true), Some("/proj".to_string()));
    assert_eq!(s.get_ignores(), Some(strings(&["a\\b", "c"])));
    s.save_ignore("a\\b".to_string(), false);
    assert_eq!(s.get_ignores(), Some(strings(&["c"])));
    assert_eq!(parse_list("  x \n\n y\n"), strings(&["x", "y"]));
}

#[test]
fn project_settings_file_is_named_by_digest() {
    assert_eq!(
        mgit::settings::settings_file_name("abc"),
        "ba7816bf8f01cfea414140de5dae2223b00361a396177a9cb410ff61f20015ad"
    );
    assert_eq!(mgit::settings::settings_file_name("/work/project").len(), 64);
}

fn entry(local: Option<&str>) -> RepoConfig {
    RepoConfig {
        local: local.map(|s| s.to_string()),
        remote: None,
        branch: None,
        tag: None,
        commit: None,
        sparse: None,
        labels: None,
    }
}

#[test]
fn entries_without_directory_are_detected() {
    assert!(mgit::ops::all_local_exec(&vec![entry(Some("a"))]));
    assert!(!mgit::ops::all_local_exec(&vec![entry(Some("a")), entry(None)]));
    assert!(mgit::ops::all_local_exec(&vec![]));
}

#[test]
fn settings_file_has_header() {
    assert_eq!(
        mgit::settings::settings_file_text(Some("a = 1\n".to_string())),
        "# This file is about recent config.\n\na = 1\n"
    );
    assert_eq!(mgit::settings::settings_file_text(None), "# This file is about recent config.\n");
}

#[test]
fn commands_are_planned_from_settings() {
    let mut s = SessionManager::new();
    let mut m = mgit::repo_manager::RepoManager::new();
    s.project_path = "/proj".to_string();
    s.user_settings.sync_thread = Some(8);
    s.user_settings.sync_type = Some(SyncType::Normal);
    s.user_settings.snapshot_branch = Some(true);
    s.project_settings.ignore = Some("a\nb\n".to_string());
    s.project_settings.snapshot_ignore = Some("x\ny".to_string());

    match plan_ops(CommandType::Fetch, &mut s, &mut m).0 {
        OpsRequest::Fetch(o) => {
            assert_eq!(o.config_path, "/proj/.gitrepos");
            assert_eq!(o.thread_count, 8);
            assert!(o.silent);
            assert_eq!(o.ignore, Some(strings(&["a", "b"])));
            assert_eq!(o.labels, None);
        }
        _ => panic!("expected a fetch"),
    }
    assert_eq!(s.config_file, "/proj/.gitrepos");

    match plan_ops(CommandType::SyncHard, &mut s, &mut m).0 {
        OpsRequest::Sync { options, .. } => {
            assert_eq!(options.hard, Some(true));
            assert_eq!(options.stash, Some(false));
        }
        _ => panic!("expected a sync"),
    }
    match plan_ops(CommandType::Sync, &mut s, &mut m).0 {
        OpsRequest::Sync { options, .. } => {
            assert_eq!(options.hard, Some(false));
            assert_eq!(options.stash, Some(false));
        }
        _ => panic!("expected a sync"),
    }
    match plan_ops(CommandType::Snapshot, &mut s, &mut m) {
        (OpsRequest::Snapshot(o), save) => {
            assert_eq!(o.snapshot_type, SnapshotType::Branch);
            assert_eq!(o.ignore, Some(strings(&["x", "y"])));
            assert!(!o.force);
            assert_eq!(save, None);
        }
        _ => panic!("expected a snapshot"),
    }
    assert!(matches!(plan_ops(CommandType::NewTag, &mut s, &mut m).0, OpsRequest::Nothing));
    assert!(matches!(plan_ops(CommandType::Refresh, &mut s, &mut m).0, OpsRequest::Refresh));
}

#[test]
fn opening_projects_and_config_files() {
    let mut s = SessionManager::new();
    let mut stored = mgit::settings::TomlProjectSettings::new();
    stored.recent_configs = Some(strings(&["C:/work/p/a.gitrepos"]));
    let mut w = mgit::windows::OptionsWindow::new();
    w.sync_thread = 99;
    s.user_settings.sync_thread = Some(6);
    s.project_settings.snapshot_ignore = Some("old".to_string());
    assert_eq!(s.open_project("C:\\work\\p", stored, &mut w), Some("C:/work/p".to_string()));
    assert_eq!(w.sync_thread, 6);
    assert_eq!(w.fetch_thread, 4);
    assert_eq!(w.snapshot_ignore, "");
    assert_eq!(s.project_path, "C:/work/p");
    assert_eq!(s.recent_projects, strings(&["C:/work/p"]));
    assert_eq!(s.config_file, "C:/work/p/a.gitrepos");
    assert_eq!(s.project_settings.project.as_deref(), Some("C:/work/p"));

    assert_eq!(s.open_config_file("x\\y", true), Some("C:/work/p".to_string()));
    assert_eq!(s.config_file, "x/y");
    assert_eq!(s.get_recent_configs(), Some(strings(&["x/y", "C:/work/p/a.gitrepos"])));
    assert_eq!(s.open_config_file("missing", false), None);
    assert_eq!(s.config_file, "missing");

    let mut t = SessionManager::new();
    t.open_project("/q", mgit::settings::TomlProjectSettings::new(), &mut mgit::windows::OptionsWindow::new());
    assert_eq!(t.config_file, "/q/.gitrepos");
}
