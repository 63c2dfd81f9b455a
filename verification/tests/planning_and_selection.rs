use mgit::config::{MgitConfig, RepoConfig};
use mgit::dispatch::{plan_ops, OpsRequest};
use mgit::error::MgitError;
use mgit::events::CommandType;
use mgit::labels::{label_set_of, LabelSet};
use mgit::ops::{snapshot_entries, ScannedRepo};
use mgit::options::{CoreOptions, InitOptions, SnapshotType};
use mgit::panels::remote_ref_label;
use mgit::repo_manager::{ignore_all_state, RepoManager};
use mgit::repo_state::StateType;
use mgit::session::SessionManager;
use mgit::settings::TomlProjectSettings;
use mgit::system::git_version_result;
use mgit::windows::WindowManager;

fn strings(v: &[&str]) -> Vec<String> {
    v.iter().map(|s| s.to_string()).collect()
}

fn repo(local: &str) -> RepoConfig {
    RepoConfig {
        local: Some(local.to_string()),
        remote: None,
        branch: None,
        tag: None,
        commit: None,
        sparse: None,
        labels: None,
    }
}

fn config_of(locals: &[&str]) -> MgitConfig {
    let mut c = MgitConfig::new();
    c.repos = Some(locals.iter().map(|l| repo(l)).collect());
    c
}

fn project_session() -> SessionManager {
    let mut s = SessionManager::new();
    s.project_path = "/proj".to_string();
    s
}

#[test]
fn starting_a_fetch_or_sync_resets_repositories_that_take_part() {
    let mut s = project_session();
    let mut m = RepoManager::new();
    assert!(!m.load_config(Some(Some(config_of(&["a", "b"])))));
    m.recompute_repo_filters(Some(&strings(&["b"])), None);
    m.repo_states[0].track_state = StateType::Normal;
    m.repo_states[0].current_branch = "main".to_string();

    let _ = plan_ops(CommandType::Fetch, &mut s, &mut m);
    assert_eq!(m.repo_states.len(), 2);
    assert_eq!(m.repo_states[0].track_state, StateType::Updating);
    assert_eq!(m.repo_states[0].cmp_state, StateType::Updating);
    assert_eq!(m.repo_states[0].current_branch, "");
    assert_eq!(m.repo_states[1].track_state, StateType::Disconnected);
    assert!(!m.repo_states[1].no_ignore);

    m.repo_states[0].track_state = StateType::Warning;
    let _ = plan_ops(CommandType::Sync, &mut s, &mut m);
    assert_eq!(m.repo_states[0].track_state, StateType::Updating);
    assert_eq!(m.repo_states[1].track_state, StateType::Disconnected);

    let _ = plan_ops(CommandType::Snapshot, &mut s, &mut m);
    assert!(m.mgit_config.repos.is_none());
    assert_eq!(m.repo_states.len(), 0);
}

#[test]
fn init_overwrites_only_when_forced() {
    assert!(!CoreOptions::new_init_options(Some("p".to_string()), None, "").force());
    assert!(CoreOptions::new_init_options(Some("p".to_string()), Some(true), "").force());
    assert_eq!(CoreOptions::new_init_options(None, None, "/cwd").path(), "/cwd");

    let mut s = project_session();
    let mut m = RepoManager::new();
    match plan_ops(CommandType::Init, &mut s, &mut m).0 {
        OpsRequest::Init(o) => {
            assert!(!o.force());
            assert_eq!(o.path(), "/proj");
        }
        _ => panic!("expected an init"),
    }
    s.user_settings.init_force = Some(true);
    match plan_ops(CommandType::Init, &mut s, &mut m).0 {
        OpsRequest::Init(o) => assert!(o.force()),
        _ => panic!("expected an init"),
    }
}

#[test]
fn labels_come_sorted_without_repeats() {
    assert_eq!(label_set_of(&strings(&["b", "a", "b"])), strings(&["a", "b"]));
    assert_eq!(label_set_of(&Vec::new()), Vec::<String>::new());
    let mut s = project_session();
    assert_eq!(s.get_labels(), None);
    s.project_settings.labels = LabelSet::from_labels(&strings(&["z", "m", "z", "a"]));
    assert_eq!(s.get_labels(), Some(strings(&["a", "m", "z"])));
    s.project_settings.labels.insert("b");
    s.project_settings.labels.remove("z");
    s.project_settings.labels.insert("a");
    assert_eq!(s.project_settings.labels.to_vec(), strings(&["a", "b", "m"]));
    assert_eq!(s.project_settings.labels.len(), 3);
    assert_eq!(LabelSet::new().len(), 0);
}

fn scanned(rel: &str, ok: bool) -> ScannedRepo {
    ScannedRepo {
        rel_path: rel.to_string(),
        check: if ok { Ok(()) } else { Err(MgitError::Untracked) },
        remote: Ok("https://example.com/r.git".to_string()),
        head: Ok("origin/main".to_string()),
        sparse: Err(MgitError::Untracked),
    }
}

#[test]
fn snapshot_lists_checked_repositories_not_ignored() {
    let found = vec![scanned("x", true), scanned("y", false), scanned("skip", true), scanned("z", true)];
    let entries = snapshot_entries(&found, &Some(strings(&["skip"])), SnapshotType::Branch);
    let locals: Vec<String> = entries.iter().map(|e| e.local.clone().unwrap()).collect();
    assert_eq!(locals, strings(&["x", "z"]));
    assert_eq!(entries[0].branch.as_deref(), Some("main"));
    assert_eq!(entries[0].commit, None);

    let all = snapshot_entries(&found, &None, SnapshotType::Commit);
    assert_eq!(all.len(), 3);
    assert_eq!(all[1].local.as_deref(), Some("skip"));
    assert_eq!(all[1].commit.as_deref(), Some("origin/main"));
}

#[test]
fn new_branch_and_tag_windows_open_filled_from_the_project() {
    let mut s = project_session();
    s.config_file = "/proj/.gitrepos".to_string();
    s.project_settings.new_branch_name = Some("feature".to_string());
    s.project_settings.new_branch_ignore = Some("b".to_string());
    s.project_settings.new_tag_name = Some("v1".to_string());
    let config = config_of(&["a", "b"]);

    let mut w = WindowManager::new();
    w.about_open = true;
    w.open_new_branch(&s, &config);
    assert!(w.new_branch_open);
    assert!(!w.about_open);
    assert_eq!(w.new_branch.root_path, "/proj");
    assert_eq!(w.new_branch.config_path, "/proj/.gitrepos");
    assert_eq!(w.new_branch.new_branch, "feature");
    assert_eq!(w.new_branch.new_config_path, "/proj/new_config.toml");
    let picks: Vec<(String, bool)> = w.new_branch.repos.iter().map(|r| (r.repo.clone(), r.selected)).collect();
    assert_eq!(picks, vec![("a".to_string(), true), ("b".to_string(), false)]);

    w.open_new_tag(&s, &config);
    assert!(w.new_tag_open);
    assert!(!w.new_branch_open);
    assert_eq!(w.new_tag.new_tag, "v1");
    assert!(w.new_tag.push);
    let picks: Vec<bool> = w.new_tag.repos.iter().map(|r| r.selected).collect();
    assert_eq!(picks, vec![true, true]);
}

#[test]
fn ignore_all_box_and_action() {
    let mut s = project_session();
    let mut m = RepoManager::new();
    assert_eq!(m.set_all_ignored(true, &mut s), None);
    let listed = || {
        let mut v: Vec<RepoConfig> = ["a", "b", "c"].iter().map(|l| repo(l)).collect();
        v[2].labels = Some(strings(&["other"]));
        v
    };
    let mut c = MgitConfig::new();
    c.repos = Some(listed());
    m.load_config(Some(Some(c)));
    m.repo_states[2].disable_by_label = true;
    let repos = listed();
    assert_eq!(ignore_all_state(&repos, &m.repo_states), (true, false));
    m.repo_states[1].no_ignore = false;
    assert_eq!(ignore_all_state(&repos, &m.repo_states), (false, true));

    assert_eq!(m.set_all_ignored(true, &mut s), Some("/proj".to_string()));
    assert_eq!(s.project_settings.ignore.as_deref(), Some("a\nb\n"));
    assert!(!m.repo_states[0].no_ignore);
    assert!(!m.repo_states[1].no_ignore);
    assert!(m.repo_states[2].no_ignore);
    assert_eq!(ignore_all_state(&repos, &m.repo_states), (false, false));

    assert_eq!(m.set_all_ignored(false, &mut s), Some("/proj".to_string()));
    assert_eq!(s.project_settings.ignore, None);
    assert_eq!(ignore_all_state(&repos, &m.repo_states), (true, false));
}

#[test]
fn failed_save_is_retried_early_in_a_run() {
    let mut m = RepoManager::new();
    m.schedule_config_save(3, "p/.gitrepos".to_string(), "text".to_string(), 0);
    let due = m.flush_config_save_if_due(500).unwrap();
    m.on_config_save_failed(3, due.path, due.content, 550);
    m.retry_last_config_save(600);
    let again = m.flush_config_save_if_due(600).unwrap();
    assert_eq!(again.content, "text");
    assert_eq!(again.run_id, 3);
}

#[test]
fn git_version_decision() {
    match git_version_result(" git version 2.39.2\n", Some("2.39.2".to_string()), Some(true)) {
        Ok(info) => {
            assert_eq!(info.version_desc, "git version 2.39.2");
            assert_eq!(info.version.as_deref(), Some("2.39.2"));
        }
        Err(_) => panic!("expected a supported version"),
    }
    assert_eq!(
        git_version_result("git version 2.20.1", Some("2.20.1".to_string()), Some(false)).err().unwrap(),
        "git version >= 2.22.0 is required, current version is 2.20.1\n"
    );
    assert_eq!(
        git_version_result("git", None, None).err().unwrap(),
        "failed to get git version\n"
    );
    assert_eq!(
        git_version_result("git 1.2.3.4", Some("1.2.3".to_string()), None).err().unwrap(),
        "failed to get git version\n"
    );
}

#[test]
fn ignoring_a_path_twice_changes_nothing() {
    let mut p = TomlProjectSettings::new();
    p.save_ignore("a".to_string(), true);
    p.save_ignore("a".to_string(), true);
    assert_eq!(p.ignore.as_deref(), Some("a\n"));
    p.save_ignore("b".to_string(), true);
    p.save_ignore("a".to_string(), false);
    assert_eq!(p.ignore.as_deref(), Some("b\n"));

    let mut q = TomlProjectSettings::new();
    q.ignore = Some("x\na\ny\na\n".to_string());
    q.save_ignore("a".to_string(), false);
    assert_eq!(q.ignore.as_deref(), Some("x\ny\n"));
    q.save_ignore("a".to_string(), false);
    assert_eq!(q.ignore.as_deref(), Some("x\ny\n"));
    q.save_ignore("y".to_string(), true);
    assert_eq!(q.ignore.as_deref(), Some("x\ny\n"));
    q.save_ignore("z".to_string(), true);
    assert_eq!(q.ignore.as_deref(), Some("x\ny\nz\n"));
}

#[test]
fn commit_is_cut_after_seven_bytes() {
    let label = remote_ref_label(&None, &None, &Some("\u{e9}aaaaaaa".to_string()));
    assert_eq!(label, "  \u{fc16} \u{e9}aaaaa");
    let label = remote_ref_label(&None, &None, &Some("abcdefgh".to_string()));
    assert_eq!(label, "  \u{fc16} abcdefg");
}

#[test]
fn new_config_path_defaults_next_to_the_config_directory() {
    let mut s = project_session();
    s.config_file = "a/b/".to_string();
    let mut w = WindowManager::new();
    w.open_new_branch(&s, &config_of(&[]));
    assert_eq!(w.new_branch.new_config_path, "a/new_config.toml");
    s.config_file = "/proj/.gitrepos".to_string();
    w.open_new_branch(&s, &config_of(&[]));
    assert_eq!(w.new_branch.new_config_path, "/proj/new_config.toml");
    s.config_file = ".gitrepos".to_string();
    w.open_new_branch(&s, &config_of(&[]));
    assert_eq!(w.new_branch.new_config_path, "new_config.toml");
}
