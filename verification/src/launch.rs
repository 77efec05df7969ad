//! Deciding what a session launches: the executable, its arguments and its
//! working directory. The host binds the command to the pseudo-terminal and
//! spawns it.

use vstd::prelude::*;

use crate::engine::SessionKind;
use crate::models::agent::AgentMode;

verus! {

/// A command ready to spawn.
#[derive(Debug)]
pub struct CommandSpec {
    pub program: String,
    pub args: Vec<String>,
    pub working_dir: String,
}

/// The command a session runs, in its working directory. The executables
/// are the host's capability to name, as a command-builder collaborator: an
/// agent session launches exactly the agent executable the host hands in,
/// with the planning flag when in plan mode and nothing more when acting; a
/// shell session launches the user's own shell — the `SHELL` environment
/// value, which the host reads and hands in — or the platform default when
/// none is set, with no arguments.
pub fn build_command(
    kind: SessionKind,
    working_dir: String,
    shell_env: Option<String>,
    agent_program: String,
) -> (r: CommandSpec)
    ensures
        r.working_dir == working_dir,
        match kind {
            SessionKind::Agent(mode) => {
                &&& r.program == agent_program
                &&& match mode {
                    AgentMode::Plan => r.args@.map_values(|a: String| a@) == seq!["--plan"@],
                    AgentMode::Act => r.args@.len() == 0,
                }
            },
            SessionKind::Shell => {
                &&& match shell_env {
                    Some(sh) => r.program == sh,
                    None => r.program@ == "/bin/bash"@,
                }
                &&& r.args@.len() == 0
            },
        },
{
    match kind {
        SessionKind::Agent(mode) => {
            let mut args: Vec<String> = Vec::new();
            match mode {
                AgentMode::Plan => {
                    args.push("--plan".to_owned());
                    proof {
                        assert(args@.map_values(|a: String| a@) =~= seq!["--plan"@]);
                    }
                },
                AgentMode::Act => {},
            }
            CommandSpec { program: agent_program, args, working_dir }
        },
        SessionKind::Shell => {
            let program = match shell_env {
                Some(sh) => sh,
                None => "/bin/bash".to_owned(),
            };
            CommandSpec { program, args: Vec::new(), working_dir }
        },
    }
}

} // verus!
