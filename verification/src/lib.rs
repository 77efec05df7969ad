//! Interactive process session engine, with the services around it.
//!
//! The heart of this crate is the session engine: a registry of interactive
//! child-process sessions, each attached to a pseudo-terminal, together with
//! the decision logic of the two per-session workers (the output pump and the
//! command pump) and the session lifecycle state machine. The engine itself
//! performs no I/O: a host hands it the outcomes of the outside world (a
//! spawn attempt, a read from the terminal, a rejected emission) and carries
//! out the actions the engine returns.

pub mod clock;
pub mod digest;
pub mod engine;
pub mod git;
pub mod github;
pub mod idgen;
pub mod launch;
pub mod models;
pub mod oauth;
pub mod process;
pub mod pump;
pub mod stores;
pub mod strutil;
pub mod urlenc;
pub mod worktree;
