use gitstu::model::GitRemote;
use gitstu::resolve::{
    effective_branch_arg, effective_squash, resolve_branch, resolve_remote, resolve_stub_alias,
    resolve_stub_branch, resolve_stub_prefix, resolve_stub_url, RemoteResolution, Resolution,
};

fn some(s: &str) -> Option<String> {
    Some(s.to_string())
}

#[test]
fn branch_override_beats_persisted_value() {
    let r = resolve_branch(&some("feature"), &some("hotfix"));
    match r {
        Resolution::UseValue(b) => assert_eq!(b, "hotfix"),
        Resolution::PromptWithDefault(_) => panic!("must not prompt when an override is given"),
    }
}

#[test]
fn persisted_branch_used_without_override() {
    let r = resolve_branch(&some("feature"), &None);
    match r {
        Resolution::UseValue(b) => assert_eq!(b, "feature"),
        Resolution::PromptWithDefault(_) => panic!("must not prompt when a branch is persisted"),
    }
}

#[test]
fn missing_branch_prompts_with_master_default() {
    let r = resolve_branch(&None, &None);
    match r {
        Resolution::UseValue(_) => panic!("nothing is known, the user must be asked"),
        Resolution::PromptWithDefault(d) => assert_eq!(d, "master"),
    }
}

#[test]
fn remote_override_fills_url_and_alias() {
    let r = resolve_remote(&None, &some("origin-x"), &"libx".to_string());
    match r {
        RemoteResolution::UseRemote(g) => {
            assert_eq!(g.url, "origin-x");
            assert_eq!(g.alias, "origin-x");
        }
        RemoteResolution::PromptWithAliasDefault(_) => panic!("override must win"),
    }
}

#[test]
fn persisted_remote_used_without_override() {
    let persisted = GitRemote { url: "https://example.test/r.git".to_string(), alias: "r-origin".to_string() };
    let r = resolve_remote(&Some(persisted), &None, &"r".to_string());
    match r {
        RemoteResolution::UseRemote(g) => {
            assert_eq!(g.url, "https://example.test/r.git");
            assert_eq!(g.alias, "r-origin");
        }
        RemoteResolution::PromptWithAliasDefault(_) => panic!("persisted remote must win"),
    }
}

#[test]
fn missing_remote_prompts_with_name_as_alias_default() {
    let r = resolve_remote(&None, &None, &"mylib".to_string());
    match r {
        RemoteResolution::UseRemote(_) => panic!("nothing is known, the user must be asked"),
        RemoteResolution::PromptWithAliasDefault(d) => assert_eq!(d, "mylib"),
    }
}

#[test]
fn branch_argument_precedence_chain() {
    let r = effective_branch_arg(&some("pos"), &some("to"), &some("glob"));
    assert_eq!(r.as_deref(), Some("pos"));
    let r = effective_branch_arg(&None, &some("to"), &some("glob"));
    assert_eq!(r.as_deref(), Some("to"));
    let r = effective_branch_arg(&None, &None, &some("glob"));
    assert_eq!(r.as_deref(), Some("glob"));
    let r = effective_branch_arg(&None, &None, &None);
    assert_eq!(r, None);
}

#[test]
fn squash_comes_from_flag_or_registry_default() {
    assert!(effective_squash(true, None));
    assert!(effective_squash(true, Some(false)));
    assert!(effective_squash(false, Some(true)));
    assert!(!effective_squash(false, Some(false)));
    assert!(!effective_squash(false, None));
}

#[test]
fn stub_prefix_defaults_to_name() {
    match resolve_stub_prefix(&"newlib".to_string(), &None) {
        Resolution::PromptWithDefault(d) => assert_eq!(d, "newlib"),
        Resolution::UseValue(_) => panic!("without an override the user is asked"),
    }
    match resolve_stub_prefix(&"newlib".to_string(), &Some("vendor/newlib".to_string())) {
        Resolution::UseValue(v) => assert_eq!(v, "vendor/newlib"),
        Resolution::PromptWithDefault(_) => panic!("override must win"),
    }
}

#[test]
fn stub_url_defaults_to_empty_suggestion() {
    match resolve_stub_url(&None) {
        Resolution::PromptWithDefault(d) => assert_eq!(d, ""),
        Resolution::UseValue(_) => panic!("without an override the user is asked"),
    }
}

#[test]
fn stub_alias_defaults_to_name() {
    match resolve_stub_alias(&"newlib".to_string(), &None) {
        Resolution::PromptWithDefault(d) => assert_eq!(d, "newlib"),
        Resolution::UseValue(_) => panic!("without an override the user is asked"),
    }
}

#[test]
fn stub_branch_defaults_to_master() {
    match resolve_stub_branch(&None) {
        Resolution::PromptWithDefault(d) => assert_eq!(d, "master"),
        Resolution::UseValue(_) => panic!("without an override the user is asked"),
    }
    match resolve_stub_branch(&some("trunk")) {
        Resolution::UseValue(v) => assert_eq!(v, "trunk"),
        Resolution::PromptWithDefault(_) => panic!("override must win"),
    }
}
