use mgit::events::{CommandType, OpsCommand};
use mgit::error::{i32_string, MgitError};
use mgit::git::{find_remote_url_by_name, is_repository, GitStep};
use mgit::style_message::{Style, StyleMessage};

fn s(x: &str) -> String {
    x.to_string()
}

#[test]
fn error_messages() {
    assert_eq!(MgitError::DirNotFound { path: s("/p") }.message(), "Directory not found: /p");
    assert_eq!(MgitError::DirAlreadyInited { path: s("/p") }.message(), "Directory already initialized: /p");
    assert_eq!(MgitError::ConfigFileNotFound { path: s("c") }.message(), "Config file not found: c");
    assert_eq!(MgitError::LoadConfigFailed { source: s("x") }.message(), "Failed to load config file: x");
    assert_eq!(MgitError::ParseConfigFailed { source: s("x") }.message(), "Failed to parse config file: x");
    assert_eq!(MgitError::IoError { source: s("x") }.message(), "IO error: x");
    assert_eq!(
        MgitError::GitCommandFailed { command: s("git status"), source: s("no git") }.message(),
        "Git command failed: git status"
    );
    assert_eq!(
        MgitError::GitCommandError { code: -2, output: s("fatal") }.message(),
        "Git command exited with error code -2: fatal"
    );
    assert_eq!(MgitError::ProcessWaitFailed { source: s("x") }.message(), "Failed to wait for process: x");
    assert_eq!(MgitError::OpsError { message: s("m") }.message(), "Operation failed: m");
    assert_eq!(MgitError::RemoteRefNotFound { remote_ref: s("o/x") }.message(), "Remote reference o/x not found");
    assert_eq!(MgitError::BranchNotFound.message(), "Current branch not found");
    assert_eq!(MgitError::Untracked.message(), "Untracked branch");
    assert_eq!(i32_string(-17), "-17");
    assert_eq!(i32_string(0), "0");
}

#[test]
fn not_a_repository_and_missing_remote() {
    let done = vec![Ok(s("../\n"))];
    match is_repository(true, &done) {
        GitStep::Done(Err(e)) => assert_eq!(e.message(), "Operation failed: repository not found!"),
        _ => panic!("expected an error"),
    }
    let done = vec![Ok(String::new()), Ok(s("  \n"))];
    match find_remote_url_by_name(true, "upstream", &done) {
        GitStep::Done(Err(MgitError::RemoteRefNotFound { remote_ref })) => assert_eq!(remote_ref, "upstream"),
        _ => panic!("expected the remote to be missing"),
    }
}

#[test]
fn window_outputs_after_drawing() {
    let mut w = mgit::windows::WindowManager::new();
    w.clean_dialog.answer = Some(true);
    w.error_exit_app = true;
    w.new_tag.confirm_create = true;
    w.new_tag.new_tag = "v3".to_string();
    w.new_tag_open = true;
    let out = w.collect_output(true, true, false, true, false);
    assert!(out.save_options);
    assert!(out.save_snapshot_ignore);
    assert!(out.exit_app);
    assert!(!w.error_exit_app);
    assert_eq!(out.commands, vec![CommandType::Clean]);
    assert!(out.save_new_tag_option);
    assert!(!out.save_new_branch_option);
    assert!(!w.new_tag_open);
    assert!(!w.new_tag.confirm_create);
    assert_eq!(out.ops_commands.len(), 1);
    match &out.ops_commands[0] {
        OpsCommand::CreateTag(o) => assert_eq!(o.new_tag, "v3"),
        _ => panic!("expected a new tag"),
    }
}

#[test]
fn message_pieces_join_and_remove() {
    let a = StyleMessage::new().plain_text("fetch ").styled_text("repo", Style::PurpleBold);
    let b = StyleMessage::from_text(" done");
    let joined = a.join(b);
    assert_eq!(joined.to_plain_text(), "fetch repo done");
    assert!(joined.contains("repo"));
    let removed = joined.remove("repo");
    assert!(!removed.contains("repo"));
    assert_eq!(removed.to_plain_text(), "fetch  done");
    let added = removed.plain_text("x");
    assert!(added.contains("x"));
    assert!(StyleMessage::new().is_empty());
}
