use mgit::clean::{
    find_contained_paths, is_git_dir, is_unused_repo, sort_by_depth, unused_entry_action,
    EntryAction,
};
use mgit::fetch::{exec_fetch, retry, RemoteRef, RetryAction};
use mgit::list_files::list_repo_files;
use mgit::path::{display_path_str, join_path_str, norm_path_str, parent_str};
use mgit::text::{
    decimal_string, join_strings, lines_str, replace_str, split_once_str, split_str,
    text_less_exec, trim_str,
};

fn strings(v: &[&str]) -> Vec<String> {
    v.iter().map(|s| s.to_string()).collect()
}

#[test]
fn trim_and_lines_follow_std() {
    assert_eq!(trim_str("  a b \n"), "a b");
    assert_eq!(trim_str(""), "");
    assert_eq!(lines_str("x\r\ny\n\nz"), strings(&["x", "y", "", "z"]));
    assert_eq!(lines_str("x\n"), strings(&["x"]));
    assert_eq!(lines_str(""), Vec::<String>::new());
}

#[test]
fn split_and_replace() {
    assert_eq!(split_str("a,b,,c", ','), strings(&["a", "b", "", "c"]));
    assert_eq!(split_once_str("origin/feature/x", '/'), Some(("origin".to_string(), "feature/x".to_string())));
    assert_eq!(split_once_str("none", '/'), None);
    assert_eq!(replace_str("a//b//c", "//", "/"), "a/b/c");
    assert_eq!(join_strings(&strings(&["a", "b"]), ", "), "a, b");
    assert_eq!(decimal_string(0), "0");
    assert_eq!(decimal_string(1203), "1203");
}

#[test]
fn text_order_is_by_code_point() {
    assert!(text_less_exec("a", "b"));
    assert!(text_less_exec("ab", "abc"));
    assert!(!text_less_exec("abc", "ab"));
    assert!(!text_less_exec("same", "same"));
    assert!(text_less_exec("Z", "a"));
}

#[test]
fn paths_are_normalised() {
    assert_eq!(norm_path_str("a\\b\\c"), "a/b/c");
    assert_eq!(display_path_str(""), ".");
    assert_eq!(display_path_str("x\\y"), "x/y");
    assert_eq!(join_path_str("/root", "sub"), "/root/sub");
    assert_eq!(parent_str("a/b/.git"), Some("a/b".to_string()));
}

#[test]
fn git_dirs_are_found_by_glob() {
    assert!(is_git_dir(".git"));
    assert!(is_git_dir("/work/proj/.git"));
    assert_eq!(is_git_dir("proj\\sub\\.git"), std::path::is_separator('\\'));
    assert!(!is_git_dir("proj\\sub.git"));
    assert!(!is_git_dir("proj/.github"));
    assert!(!is_git_dir("proj/x.git"));
}

#[test]
fn unused_repos_and_contained_paths() {
    let listed = strings(&["a", "a/b/c", "d"]);
    assert!(!is_unused_repo("a", &listed));
    assert!(is_unused_repo("a/b", &listed));
    assert_eq!(find_contained_paths("a/b", &listed), strings(&["a/b/c"]));
    assert_eq!(find_contained_paths("x", &listed), Vec::<String>::new());
}

#[test]
fn removal_goes_deepest_first() {
    let paths = strings(&["a", "a/b/c", "x/y"]);
    assert_eq!(sort_by_depth(&paths), strings(&["a/b/c", "x/y", "a"]));
}

#[test]
fn entries_of_unused_dirs() {
    let contained = strings(&["u/keep"]);
    assert_eq!(unused_entry_action("u/keep", true, false, &contained), EntryAction::SkipDir);
    assert_eq!(unused_entry_action("u/other", true, false, &contained), EntryAction::RemoveDir);
    assert_eq!(unused_entry_action("u/file.txt", false, true, &contained), EntryAction::RemoveFile);
    assert_eq!(unused_entry_action("u", true, false, &contained), EntryAction::Enter);
}

#[test]
fn listing_prefixes_repository_path() {
    let out = "100644 abc 0\tsrc/lib.rs\n100644 def 0\tREADME.md\n";
    assert_eq!(
        list_repo_files("sub", out),
        strings(&["100644 abc 0\tsub/src/lib.rs", "100644 def 0\tsub/README.md"])
    );
    assert_eq!(list_repo_files("", "100644 abc 0\ta.txt"), strings(&["100644 abc 0\ta.txt"]));
    assert_eq!(list_repo_files("sub/", "no tab here"), Vec::<String>::new());
}

#[test]
fn fetch_arguments() {
    assert_eq!(
        exec_fetch("origin", None, &None, &None),
        strings(&["fetch", "origin", "--prune", "--recurse-submodules=on-demand", "--progress"])
    );
    assert_eq!(
        exec_fetch("up", Some(3), &Some(RemoteRef::Tag("v1".to_string())), &None),
        strings(&[
            "fetch", "up", "tag", "v1", "--no-tags", "--depth", "3", "--prune",
            "--recurse-submodules=on-demand", "--progress"
        ])
    );
    assert_eq!(
        exec_fetch("o", Some(1), &Some(RemoteRef::Branch("o/dev".to_string())), &Some("dev".to_string())),
        strings(&["fetch", "o", "dev", "--depth", "1", "--prune", "--recurse-submodules=on-demand", "--progress"])
    );
}

#[test]
fn retry_decisions() {
    assert_eq!(retry(10, 0, false), RetryAction::Attempt);
    assert_eq!(retry(10, 3, false), RetryAction::Finish);
    assert_eq!(retry(10, 3, true), RetryAction::SleepThenAttempt);
    assert_eq!(retry(10, 10, true), RetryAction::SleepThenFinish);
}

#[test]
fn parent_follows_std_path_parent() {
    for s in [
        "a/b/.git", "a/b/", "a/b//", "a/b/.", "a/./b", "/a", "/", "", ".", "./a", "./", "a", "a/..",
        "//a", "/a/", "/.", "..", "a/b/./", ".x/y", "a/.b", "./.", "/a/./",
    ] {
        let expected = std::path::Path::new(s).parent().map(|p| p.to_str().unwrap().to_string());
        assert_eq!(parent_str(s), expected, "parent of {:?}", s);
    }
    assert_eq!(parent_str("a/b/"), Some("a".to_string()));
    assert_eq!(parent_str("a/b/."), Some("a".to_string()));
}
