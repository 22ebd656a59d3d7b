//! The resolver: computes the effective branch and remote for one entry
//! from the per-invocation overrides, the persisted values, and — only
//! when both are absent — an interactive prompt, which the caller runs.
//!
//! Resolution itself never blocks: a result either carries the value to
//! use, or says which prompt to put up and with which default.

use vstd::prelude::*;
use crate::model::GitRemote;

verus! {

/// Outcome of resolving one string-valued setting: either the value is
/// already determined, or the user must be asked, with the given default
/// suggestion.
pub enum Resolution {
    UseValue(String),
    PromptWithDefault(String),
}

/// Outcome of resolving an entry's remote: either the persisted or
/// overridden remote, or a prompt for the url followed by a prompt for
/// the alias with the given default suggestion.
pub enum RemoteResolution {
    UseRemote(GitRemote),
    PromptWithAliasDefault(String),
}

/// Effective branch for an entry: an explicit override wins, then the
/// persisted branch; with neither, the user is prompted, suggested
/// `master`.
pub fn resolve_branch(persisted: &Option<String>, override_arg: &Option<String>) -> (r:
    Resolution)
    ensures
        (match (override_arg, persisted) {
            (Some(o), _) => (match r {
                Resolution::UseValue(b) => b@ == o@,
                Resolution::PromptWithDefault(_) => false,
            }),
            (None, Some(p)) => (match r {
                Resolution::UseValue(b) => b@ == p@,
                Resolution::PromptWithDefault(_) => false,
            }),
            (None, None) => (match r {
                Resolution::UseValue(_) => false,
                Resolution::PromptWithDefault(d) => d@ == "master"@,
            }),
        }),
{
    match override_arg {
        Some(o) => Resolution::UseValue(o.clone()),
        None => match persisted {
            Some(p) => Resolution::UseValue(p.clone()),
            None => Resolution::PromptWithDefault("master".to_owned()),
        },
    }
}

/// Effective remote for an entry: an explicit override names both the
/// url and the alias, then the persisted remote; with neither, the user
/// is prompted for the url and then for the alias, suggested the entry's
/// name.
pub fn resolve_remote(
    persisted: &Option<GitRemote>,
    override_arg: &Option<String>,
    name: &String,
) -> (r: RemoteResolution)
    ensures
        (match (override_arg, persisted) {
            (Some(o), _) => (match r {
                RemoteResolution::UseRemote(g) => g.url@ == o@ && g.alias@ == o@,
                RemoteResolution::PromptWithAliasDefault(_) => false,
            }),
            (None, Some(p)) => (match r {
                RemoteResolution::UseRemote(g) => g@ == p@,
                RemoteResolution::PromptWithAliasDefault(_) => false,
            }),
            (None, None) => (match r {
                RemoteResolution::UseRemote(_) => false,
                RemoteResolution::PromptWithAliasDefault(d) => d@ == name@,
            }),
        }),
{
    match override_arg {
        Some(o) => RemoteResolution::UseRemote(GitRemote { url: o.clone(), alias: o.clone() }),
        None => match persisted {
            Some(p) => RemoteResolution::UseRemote(p.clone()),
            None => RemoteResolution::PromptWithAliasDefault(name.clone()),
        },
    }
}

/// The branch override of one invocation: the positional branch argument
/// wins, then the push/pull target override, then the global branch flag.
pub fn effective_branch_arg(
    positional: &Option<String>,
    to_branch: &Option<String>,
    global: &Option<String>,
) -> (r: Option<String>)
    ensures
        (match (positional, to_branch, global) {
            (Some(b), _, _) => (match r {
                Some(v) => v@ == b@,
                None => false,
            }),
            (None, Some(t), _) => (match r {
                Some(v) => v@ == t@,
                None => false,
            }),
            (None, None, Some(g)) => (match r {
                Some(v) => v@ == g@,
                None => false,
            }),
            (None, None, None) => r is None,
        }),
{
    match positional {
        Some(b) => Some(b.clone()),
        None => match to_branch {
            Some(t) => Some(t.clone()),
            None => match global {
                Some(g) => Some(g.clone()),
                None => None,
            },
        },
    }
}

/// Whether history is squashed: the command-line flag, or else the
/// registry-wide default, or else off.
pub fn effective_squash(cli_squash: bool, config_squash: Option<bool>) -> (r: bool)
    ensures
        r == (cli_squash || config_squash == Some(true)),
{
    cli_squash || match config_squash {
        Some(b) => b,
        None => false,
    }
}

/// Stub prefix for a newly declared subtree: the command-line override,
/// or else a prompt suggesting the subtree's own name.
pub fn resolve_stub_prefix(name: &String, override_arg: &Option<String>) -> (r: Resolution)
    ensures
        (match override_arg {
            Some(o) => (match r {
                Resolution::UseValue(v) => v@ == o@,
                Resolution::PromptWithDefault(_) => false,
            }),
            None => (match r {
                Resolution::UseValue(_) => false,
                Resolution::PromptWithDefault(d) => d@ == name@,
            }),
        }),
{
    match override_arg {
        Some(o) => Resolution::UseValue(o.clone()),
        None => Resolution::PromptWithDefault(name.clone()),
    }
}

/// Stub remote url for a newly declared subtree: the command-line
/// override, or else a prompt with an empty suggestion.
pub fn resolve_stub_url(override_arg: &Option<String>) -> (r: Resolution)
    ensures
        (match override_arg {
            Some(o) => (match r {
                Resolution::UseValue(v) => v@ == o@,
                Resolution::PromptWithDefault(_) => false,
            }),
            None => (match r {
                Resolution::UseValue(_) => false,
                Resolution::PromptWithDefault(d) => d@ == ""@,
            }),
        }),
{
    match override_arg {
        Some(o) => Resolution::UseValue(o.clone()),
        None => Resolution::PromptWithDefault("".to_owned()),
    }
}

/// Stub remote alias for a newly declared subtree: the command-line
/// override, or else a prompt suggesting the subtree's own name.
pub fn resolve_stub_alias(name: &String, override_arg: &Option<String>) -> (r: Resolution)
    ensures
        (match override_arg {
            Some(o) => (match r {
                Resolution::UseValue(v) => v@ == o@,
                Resolution::PromptWithDefault(_) => false,
            }),
            None => (match r {
                Resolution::UseValue(_) => false,
                Resolution::PromptWithDefault(d) => d@ == name@,
            }),
        }),
{
    match override_arg {
        Some(o) => Resolution::UseValue(o.clone()),
        None => Resolution::PromptWithDefault(name.clone()),
    }
}

/// Stub branch for a newly declared subtree: the branch argument, or
/// else a prompt suggesting `master`.
pub fn resolve_stub_branch(override_arg: &Option<String>) -> (r: Resolution)
    ensures
        (match override_arg {
            Some(o) => (match r {
                Resolution::UseValue(v) => v@ == o@,
                Resolution::PromptWithDefault(_) => false,
            }),
            None => (match r {
                Resolution::UseValue(_) => false,
                Resolution::PromptWithDefault(d) => d@ == "master"@,
            }),
        }),
{
    match override_arg {
        Some(o) => Resolution::UseValue(o.clone()),
        None => Resolution::PromptWithDefault("master".to_owned()),
    }
}

} // verus!
