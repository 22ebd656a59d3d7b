//! The error taxonomy of the tool's core.

use vstd::prelude::*;

verus! {

/// Everything that can go wrong while processing one invocation.
#[derive(Debug)]
pub enum GitStuError {
    /// The registry file is absent.
    ConfigNotFound,
    /// The registry file cannot be parsed against the schema.
    ConfigMalformed,
    /// The registry file cannot be created or truncated.
    ConfigWriteError,
    /// A `pull`/`push` named a subtree that is not in the registry.
    SubtreeNotRegistered(String),
    /// The external tool could not be started at all.
    ExternalToolUnavailable,
    /// The external tool started but exited unsuccessfully; carries the
    /// exit code, absent when the process was terminated without one.
    ExternalToolFailed(Option<i32>),
    /// Interactive input failed while a value still had to be resolved.
    PromptFailed,
    /// The repository root could not be located.
    NoGitRoot,
    /// Conflicting or missing command-line arguments.
    InvalidInvocation,
}

} // verus!
