//! The mode dispatcher's pure half: for each subcommand and integration
//! mode, the exact external command line, built character for character;
//! and the interpretation of what came back from running it.

use vstd::prelude::*;
use vstd::string::StringExecFns;
use crate::SubtreeMode;
use crate::error::GitStuError;
use crate::select::Subcommand;

verus! {

/// What a squash request appends to a command that honours it.
pub open spec fn squash_suffix(squash: bool) -> Seq<char> {
    if squash {
        " --squash"@
    } else {
        Seq::<char>::empty()
    }
}

/// The external command line for one entry, as the original tool builds
/// it: standard mode drives `git subtree`; custom mode grafts trees,
/// merging with a tree-limited strategy on `pull` and reading the bare
/// tree on `add`.  `push` is the same in both modes and never squashes;
/// a custom-mode `add` ignores history and so never squashes either.
pub open spec fn sync_command_view(
    mode: SubtreeMode,
    cmd: Subcommand,
    prefix: Seq<char>,
    alias: Seq<char>,
    branch: Seq<char>,
    squash: bool,
) -> Seq<char> {
    match cmd {
        Subcommand::Pull => match mode {
            SubtreeMode::Subtree => "git subtree pull --prefix="@ + prefix + " "@ + alias + " "@
                + branch + squash_suffix(squash),
            SubtreeMode::Custom => "git merge -X subtree="@ + prefix
                + "/ --strategy-options-theirs "@ + alias + "/"@ + branch + squash_suffix(squash),
        },
        Subcommand::Push => "git subtree push --prefix="@ + prefix + " "@ + alias + " "@ + branch,
        Subcommand::Add => match mode {
            SubtreeMode::Subtree => "git subtree add --prefix="@ + prefix + " "@ + alias + " "@
                + branch + squash_suffix(squash),
            SubtreeMode::Custom => "git read-tree --prefix="@ + prefix + " "@ + alias + "/"@
                + branch,
        },
    }
}

/// Builds the external command line for one entry.
pub fn build_sync_command(
    mode: SubtreeMode,
    cmd: Subcommand,
    prefix: &str,
    alias: &str,
    branch: &str,
    squash: bool,
) -> (r: String)
    ensures
        r@ == sync_command_view(mode, cmd, prefix@, alias@, branch@, squash),
{
    let mut s: String;
    match cmd {
        Subcommand::Pull => match mode {
            SubtreeMode::Subtree => {
                s = "git subtree pull --prefix=".to_owned();
                s.append(prefix);
                s.append(" ");
                s.append(alias);
                s.append(" ");
                s.append(branch);
                append_squash(&mut s, squash);
            },
            SubtreeMode::Custom => {
                s = "git merge -X subtree=".to_owned();
                s.append(prefix);
                s.append("/ --strategy-options-theirs ");
                s.append(alias);
                s.append("/");
                s.append(branch);
                append_squash(&mut s, squash);
            },
        },
        Subcommand::Push => {
            s = "git subtree push --prefix=".to_owned();
            s.append(prefix);
            s.append(" ");
            s.append(alias);
            s.append(" ");
            s.append(branch);
        },
        Subcommand::Add => match mode {
            SubtreeMode::Subtree => {
                s = "git subtree add --prefix=".to_owned();
                s.append(prefix);
                s.append(" ");
                s.append(alias);
                s.append(" ");
                s.append(branch);
                append_squash(&mut s, squash);
            },
            SubtreeMode::Custom => {
                s = "git read-tree --prefix=".to_owned();
                s.append(prefix);
                s.append(" ");
                s.append(alias);
                s.append("/");
                s.append(branch);
            },
        },
    }
    s
}

/// Appends the squash flag when asked for.
fn append_squash(s: &mut String, squash: bool)
    ensures
        final(s)@ == old(s)@ + squash_suffix(squash),
{
    if squash {
        s.append(" --squash");
    } else {
        proof {
            assert(old(s)@ + Seq::<char>::empty() =~= old(s)@);
        }
    }
}

/// Interprets the run of the external command: a command that could not
/// be started at all is `ExternalToolUnavailable`; one that started but
/// did not exit with code zero is `ExternalToolFailed` with that exit
/// code.  Only a zero exit is a success.
pub fn sync_outcome(started: bool, exit_code: Option<i32>) -> (r: Result<(), GitStuError>)
    ensures
        (if !started {
            r == Err::<(), GitStuError>(GitStuError::ExternalToolUnavailable)
        } else if exit_code == Some(0i32) {
            r == Ok::<(), GitStuError>(())
        } else {
            r == Err::<(), GitStuError>(GitStuError::ExternalToolFailed(exit_code))
        }),
{
    if !started {
        Err(GitStuError::ExternalToolUnavailable)
    } else {
        match exit_code {
            Some(0i32) => Ok(()),
            _ => Err(GitStuError::ExternalToolFailed(exit_code)),
        }
    }
}

/// Interprets the probe for the repository root: with exit code zero the
/// trimmed output is the root, anything else means there is none.
pub fn git_root_outcome(exit_code: Option<i32>, stdout_trimmed: String) -> (r: Result<
    String,
    GitStuError,
>)
    ensures
        (match r {
            Ok(p) => exit_code == Some(0i32) && p == stdout_trimmed,
            Err(e) => exit_code != Some(0i32) && e == GitStuError::NoGitRoot,
        }),
{
    match exit_code {
        Some(0i32) => Ok(stdout_trimmed),
        _ => Err(GitStuError::NoGitRoot),
    }
}

} // verus!
