//! Verified core of a git-subtree helper.
//!
//! The library keeps a registry of named subtree definitions, resolves the
//! effective branch and remote for an invocation, builds the external `git`
//! command for each integration mode, and decides when a resolved value is
//! written back into the registry.  Everything that touches the outside world
//! (files, prompts, subprocesses) lives in the surrounding binary; the logic
//! here is pure and carries contracts.

pub mod command;
pub mod error;
pub mod model;
pub mod order;
pub mod persist;
pub mod registry;
pub mod resolve;
pub mod select;

use vstd::prelude::*;

verus! {

/// The registry-wide integration strategy.
#[derive(Clone, Copy, Debug, PartialEq, Eq, Structural)]
pub enum SubtreeMode {
    Subtree,
    Custom,
}

} // verus!
