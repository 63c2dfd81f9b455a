use mgit::config::RepoConfig;
use mgit::labels::{collect_labels, insert_label, labels_to_offer, remove_label, retain_labels};

fn strings(v: &[&str]) -> Vec<String> {
    v.iter().map(|s| s.to_string()).collect()
}

fn repo(labels: Option<&[&str]>) -> RepoConfig {
    RepoConfig {
        local: Some("r".to_string()),
        remote: None,
        branch: None,
        tag: None,
        commit: None,
        sparse: None,
        labels: labels.map(strings),
    }
}

#[test]
fn label_sets_stay_ordered() {
    let mut s = Vec::new();
    insert_label(&mut s, "ui");
    insert_label(&mut s, "core");
    insert_label(&mut s, "ui");
    insert_label(&mut s, "art");
    assert_eq!(s, strings(&["art", "core", "ui"]));
    remove_label(&mut s, "core");
    remove_label(&mut s, "missing");
    assert_eq!(s, strings(&["art", "ui"]));
}

#[test]
fn labels_of_a_repositories_file() {
    let repos = vec![repo(Some(&["b", "a"])), repo(None), repo(Some(&["c", "a"]))];
    assert_eq!(collect_labels(&repos), strings(&["a", "b", "c"]));
    assert_eq!(labels_to_offer(&repos), strings(&["a", "b", "c", "none"]));
    assert_eq!(labels_to_offer(&vec![repo(None)]), Vec::<String>::new());
}

#[test]
fn selection_keeps_known_labels() {
    let known = strings(&["a", "c", "none"]);
    assert_eq!(retain_labels(strings(&["a", "b", "none"]), &known), strings(&["a", "none"]));
}
