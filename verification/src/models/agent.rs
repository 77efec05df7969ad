//! Session-level data: lifecycle states, agent launch modes, the session
//! record handed back to callers, and the notification payloads the engine
//! asks its host to emit.

use vstd::prelude::*;

verus! {

/// How the agent child process is launched.
#[derive(Clone, Copy, Debug, PartialEq, Eq, Structural)]
pub enum AgentMode {
    Plan,
    Act,
}

/// The lifecycle states of a session.
///
/// `Starting` is set at creation and advances to `Running` as soon as the
/// session's pumps are live. `Completed` and `Error` are terminal. `Waiting`
/// is modelled but no transition into it is driven by the engine.
#[derive(Clone, Copy, Debug, PartialEq, Eq, Structural)]
pub enum AgentStatus {
    Starting,
    Running,
    Waiting,
    Completed,
    Error,
}

impl AgentStatus {
    /// A terminal state is never left: a session in one of these states can
    /// only be closed.
    pub open spec fn is_terminal(self) -> bool {
        self is Completed || self is Error
    }

    /// Whether this state is terminal.
    pub fn terminal(&self) -> (r: bool)
        ensures
            r == self.is_terminal(),
    {
        match self {
            AgentStatus::Completed => true,
            AgentStatus::Error => true,
            AgentStatus::Starting => false,
            AgentStatus::Running => false,
            AgentStatus::Waiting => false,
        }
    }
}

/// The session record returned by the facade: everything a caller may see of
/// a live session, without the handles the engine keeps for itself.
#[derive(Debug)]
pub struct AgentSession {
    pub id: String,
    pub worktree_path: String,
    pub mode: AgentMode,
    pub status: AgentStatus,
    pub started_at: String,
    pub completed_at: Option<String>,
}

/// The source stream a piece of captured agent output belongs to.
#[derive(Clone, Copy, Debug, PartialEq, Eq, Structural)]
pub enum AgentOutputType {
    Stdout,
    Stderr,
    System,
}

/// One captured piece of agent output, for display or persistence.
#[derive(Debug)]
pub struct AgentOutput {
    pub id: String,
    pub session_id: String,
    pub output_type: AgentOutputType,
    pub content: String,
    pub timestamp: String,
}

/// Notification payload: raw bytes an agent session produced.
#[derive(Debug)]
pub struct AgentOutputEvent {
    pub session_id: String,
    pub data: Vec<u8>,
}

/// Notification payload: an agent session changed lifecycle state.
#[derive(Debug)]
pub struct AgentStatusEvent {
    pub session_id: String,
    pub status: AgentStatus,
}

} // verus!
