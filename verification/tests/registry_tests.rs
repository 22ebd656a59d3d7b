use gitstu::model::{GitRemote, GitStuConfig, SubtreeConfig};
use gitstu::registry::{dedup_entries, merge_entries, prepare_for_save, sort_entries};
use gitstu::SubtreeMode;

fn entry(name: &str, branch: Option<&str>) -> SubtreeConfig {
    SubtreeConfig {
        name: name.to_string(),
        prefix: format!("vendor/{}", name),
        branch: branch.map(|b| b.to_string()),
        remote: None,
    }
}

fn names(v: &[SubtreeConfig]) -> Vec<String> {
    v.iter().map(|e| e.name.clone()).collect()
}

fn config(entries: Vec<SubtreeConfig>) -> GitStuConfig {
    GitStuConfig { squash: None, mode: Some(SubtreeMode::Subtree), subtrees: entries }
}

#[test]
fn save_sorts_entries_by_name() {
    let cfg = config(vec![entry("zlib", None), entry("abc", None), entry("midl", None)]);
    let saved = prepare_for_save(cfg);
    assert_eq!(names(&saved.subtrees), vec!["abc", "midl", "zlib"]);
}

#[test]
fn save_is_deterministic() {
    let cfg = config(vec![entry("b", Some("main")), entry("a", None), entry("c", None)]);
    let once = prepare_for_save(cfg);
    let names_once = names(&once.subtrees);
    let twice = prepare_for_save(once);
    assert_eq!(names(&twice.subtrees), names_once);
    assert_eq!(names_once, vec!["a", "b", "c"]);
}

#[test]
fn save_of_sorted_registry_changes_nothing() {
    let cfg = config(vec![entry("a", Some("x")), entry("b", None), entry("c", Some("y"))]);
    let saved = prepare_for_save(cfg);
    assert_eq!(names(&saved.subtrees), vec!["a", "b", "c"]);
    assert_eq!(saved.subtrees[0].branch.as_deref(), Some("x"));
    assert_eq!(saved.subtrees[1].branch, None);
    assert_eq!(saved.subtrees[2].branch.as_deref(), Some("y"));
    assert_eq!(saved.mode, Some(SubtreeMode::Subtree));
    assert_eq!(saved.squash, None);
}

#[test]
fn reloaded_entry_set_survives_save() {
    // Same entries, only reordered: a reload of what was saved sees the
    // same set of definitions.
    let loaded = vec![entry("beta", Some("dev")), entry("alpha", None)];
    let sorted = sort_entries(loaded);
    assert_eq!(sorted.len(), 2);
    assert_eq!(sorted[0].name, "alpha");
    assert_eq!(sorted[0].branch, None);
    assert_eq!(sorted[1].name, "beta");
    assert_eq!(sorted[1].branch.as_deref(), Some("dev"));
}

#[test]
fn merge_prefers_updated_copy() {
    let existing = vec![entry("lib", Some("main")), entry("other", None)];
    let updated = vec![entry("lib", Some("dev"))];
    let merged = merge_entries(updated, existing);
    assert_eq!(names(&merged), vec!["lib", "other"]);
    assert_eq!(merged[0].branch.as_deref(), Some("dev"));
}

#[test]
fn merge_never_duplicates_names() {
    let existing = vec![entry("a", None), entry("b", None)];
    let updated = vec![entry("b", Some("x")), entry("a", Some("y")), entry("c", None)];
    let merged = merge_entries(updated, existing);
    assert_eq!(names(&merged), vec!["b", "a", "c"]);
}

#[test]
fn dedup_keeps_first_occurrence() {
    let v = vec![entry("n", Some("first")), entry("m", None), entry("n", Some("second"))];
    let deduped = dedup_entries(v);
    assert_eq!(names(&deduped), vec!["n", "m"]);
    assert_eq!(deduped[0].branch.as_deref(), Some("first"));
}

#[test]
fn merge_keeps_untouched_entries_unchanged() {
    let mut kept = entry("kept", Some("main"));
    kept.remote = Some(GitRemote { url: "https://example.test/kept.git".to_string(), alias: "kept-origin".to_string() });
    let existing = vec![kept, entry("touched", Some("old"))];
    let updated = vec![entry("touched", Some("new"))];
    let merged = merge_entries(updated, existing);
    assert_eq!(names(&merged), vec!["touched", "kept"]);
    let kept_after = &merged[1];
    assert_eq!(kept_after.branch.as_deref(), Some("main"));
    let remote = kept_after.remote.as_ref().unwrap();
    assert_eq!(remote.url, "https://example.test/kept.git");
    assert_eq!(remote.alias, "kept-origin");
}
