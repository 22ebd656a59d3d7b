use gitstu::command::build_sync_command;
use gitstu::model::{GitRemote, GitStuConfig, SubtreeConfig};
use gitstu::persist::{
    branch_needs_persist, persist_branch_name, persist_remote, push_should_persist,
    remote_needs_persist,
};
use gitstu::registry::prepare_for_save;
use gitstu::select::Subcommand;
use gitstu::SubtreeMode;

fn lib_entry() -> SubtreeConfig {
    SubtreeConfig {
        name: "lib".to_string(),
        prefix: "vendor/lib".to_string(),
        branch: Some("main".to_string()),
        remote: Some(GitRemote { url: "https://example.test/lib.git".to_string(), alias: "origin-lib".to_string() }),
    }
}

#[test]
fn pull_of_persisted_values_builds_command_and_changes_nothing() {
    // Registry with one fully resolved entry; `pull lib` with no override
    // in standard mode uses the persisted branch and remote, asks for no
    // confirmation, and the registry saved afterwards is what was loaded.
    let entry = lib_entry();
    let branch = entry.branch.clone().unwrap();
    let remote = entry.remote.clone().unwrap();
    let command = build_sync_command(
        SubtreeMode::Subtree,
        Subcommand::Pull,
        entry.prefix.as_str(),
        remote.alias.as_str(),
        branch.as_str(),
        false,
    );
    assert_eq!(command, "git subtree pull --prefix=vendor/lib origin-lib main");
    assert!(!branch_needs_persist(&entry, &branch));
    assert!(!remote_needs_persist(&entry, &remote));
    let cfg = GitStuConfig { squash: None, mode: None, subtrees: vec![entry] };
    let saved = prepare_for_save(cfg);
    assert_eq!(saved.subtrees.len(), 1);
    let e = &saved.subtrees[0];
    assert_eq!(e.name, "lib");
    assert_eq!(e.prefix, "vendor/lib");
    assert_eq!(e.branch.as_deref(), Some("main"));
    let r = e.remote.as_ref().unwrap();
    assert_eq!(r.url, "https://example.test/lib.git");
    assert_eq!(r.alias, "origin-lib");
}

#[test]
fn changed_branch_is_written_even_when_declined() {
    let mut entry = lib_entry();
    assert!(branch_needs_persist(&entry, &"hotfix".to_string()));
    persist_branch_name(&mut entry, &"hotfix".to_string(), false, false);
    assert_eq!(entry.branch.as_deref(), Some("hotfix"));
    assert_eq!(entry.name, "lib");
    assert_eq!(entry.prefix, "vendor/lib");
}

#[test]
fn missing_branch_is_written() {
    let mut entry = lib_entry();
    entry.branch = None;
    assert!(branch_needs_persist(&entry, &"main".to_string()));
    persist_branch_name(&mut entry, &"main".to_string(), false, false);
    assert_eq!(entry.branch.as_deref(), Some("main"));
}

#[test]
fn unchanged_branch_is_left_alone() {
    let mut entry = lib_entry();
    persist_branch_name(&mut entry, &"main".to_string(), false, false);
    assert_eq!(entry.branch.as_deref(), Some("main"));
}

#[test]
fn binding_confirmation_blocks_a_declined_write() {
    let mut entry = lib_entry();
    persist_branch_name(&mut entry, &"hotfix".to_string(), true, false);
    assert_eq!(entry.branch.as_deref(), Some("main"));
    persist_branch_name(&mut entry, &"hotfix".to_string(), true, true);
    assert_eq!(entry.branch.as_deref(), Some("hotfix"));
}

#[test]
fn changed_remote_is_written_into_the_remote_field() {
    let mut entry = lib_entry();
    let fresh = GitRemote { url: "https://example.test/fork.git".to_string(), alias: "fork".to_string() };
    assert!(remote_needs_persist(&entry, &fresh));
    persist_remote(&mut entry, &fresh, false, false);
    let stored = entry.remote.as_ref().unwrap();
    assert_eq!(stored.url, "https://example.test/fork.git");
    assert_eq!(stored.alias, "fork");
    assert_eq!(entry.branch.as_deref(), Some("main"));
}

#[test]
fn unchanged_remote_needs_no_confirmation() {
    let entry = lib_entry();
    let same = GitRemote { url: "https://example.test/lib.git".to_string(), alias: "origin-lib".to_string() };
    assert!(!remote_needs_persist(&entry, &same));
}

#[test]
fn push_persists_only_to_the_home_branch() {
    assert!(push_should_persist(false, false));
    assert!(!push_should_persist(true, false));
    assert!(!push_should_persist(false, true));
    assert!(!push_should_persist(true, true));
}
