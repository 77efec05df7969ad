//! Plain data carried across the library's boundary.

pub mod agent;
pub mod issue;
pub mod pty;
pub mod repository;
pub mod worktree;
