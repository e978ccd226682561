//! The metadata and events of the per-repository git status model.

use vstd::prelude::*;

verus! {

/// What the git chip (prompt display, agent view footer) shows of a repository: the
/// current and main branch names and the diff stats against `HEAD`. The stats are
/// of the caller's type `S`, as this library does not compute diffs.
#[derive(Clone, Debug, PartialEq, Eq)]
pub struct GitStatusMetadata<S> {
    pub current_branch_name: String,
    pub main_branch_name: String,
    pub stats_against_head: S,
}

/// What the git status model of a repository reports to its subscribers.
#[derive(Clone, Copy, Debug, PartialEq, Eq, Structural)]
pub enum GitRepoStatusEvent {
    /// The metadata changed: a branch name, or the diff stats against `HEAD`.
    MetadataChanged,
}

} // verus!
