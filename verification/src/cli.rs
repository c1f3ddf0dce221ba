//! The command line of the chat client.
use crate::agents::{agent_id_of_name, string_to_agent_id, AgentID};
use crate::uri::uri_parses;
use crate::text::trim;
use vstd::prelude::*;
use vstd::utf8::encode_utf8;

verus! {

/// The parsed command line.
#[derive(Debug)]
pub struct CliArgs {
    pub command: CliCommand,
}

/// What the user asked the client to do.
#[derive(Debug, PartialEq, Eq)]
pub enum CliCommand {
    /// Print the client's log, and empty it afterwards when `clear` is set.
    Logs { clear: bool },
    /// Open a chat with the agent named `agent_name`.
    Start { agent_name: String },
}

/// What the client does for a command.
#[derive(Debug)]
pub enum CliAction {
    /// Print the log file, then empty it if `clear`.
    ShowLogs { clear: bool },
    /// Open the chat window with this agent.
    OpenChat(AgentID),
    /// The name given names no agent.
    UnknownAgent(String),
}

impl CliCommand {
    /// Decides what `self` asks for; a `Start` resolves its agent name as
    /// `string_to_agent_id` does.
    pub fn plan(self) -> (r: CliAction)
        requires
            match self {
                CliCommand::Start { agent_name } => trim(agent_name@).len() > 1 ==> encode_utf8(
                    agent_name@,
                ).len() <= i32::MAX,
                _ => true,
            },
        ensures
            match self {
                CliCommand::Logs { clear } => r == CliAction::ShowLogs { clear },
                CliCommand::Start { agent_name } => {
                    let is_uri = trim(agent_name@).len() > 1 && uri_parses(agent_name@);
                    match agent_id_of_name(agent_name@, is_uri) {
                        Some(v) => r matches CliAction::OpenChat(id) && id@ == v,
                        None => r matches CliAction::UnknownAgent(n) && n@ == agent_name@,
                    }
                },
            },
    {
        match self {
            CliCommand::Logs { clear } => CliAction::ShowLogs { clear },
            CliCommand::Start { agent_name } => match string_to_agent_id(agent_name.as_str()) {
                Some(id) => CliAction::OpenChat(id),
                None => CliAction::UnknownAgent(agent_name),
            },
        }
    }
}

} // verus!
