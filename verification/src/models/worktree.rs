//! Worktree records: one checked-out working copy per issue being worked on.

use vstd::prelude::*;

verus! {

/// Where a worktree stands in its life, from checkout to merge.
#[derive(Clone, Copy, Debug, PartialEq, Eq, Structural)]
pub enum WorktreeStatus {
    Creating,
    Ready,
    Working,
    Reviewing,
    Merged,
}

/// One worktree of a repository. The issue number is read back out of the
/// worktree's directory name, so it is absent for directories that do not
/// follow the naming scheme.
#[derive(Debug)]
pub struct Worktree {
    pub id: String,
    pub repository_id: String,
    pub issue_number: Option<i32>,
    pub branch_name: String,
    pub path: String,
    pub status: WorktreeStatus,
    pub created_at: String,
    pub updated_at: String,
}

} // verus!
