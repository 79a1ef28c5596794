//! Administration commands and the plain-text protocol for them: a line is either a JSON
//! object or one of a few words, read without regard to case.
use vstd::prelude::*;
use crate::error::prefixed_message;
use crate::text::{
    chars_of, chars_start_with, copy_range, seq_starts_with, str_lowercase, string_of, to_lowercase, trim_white,
    trim_white_chars,
};

verus! {

broadcast use vstd::string::group_string_axioms;

/// A request for the server to act.
#[derive(Debug, Clone)]
pub enum AdminCommand {
    ReloadConfig,
    RestartWorkers,
    BlockIp(String),
    UnblockIp(String),
}

/// Why an administration request could not be passed on.
#[derive(Debug, Clone)]
pub enum AdminError {
    /// The server takes no such requests.
    NoCommandChannel(String),
    /// The request could not be sent.
    SendError(String),
}

impl AdminError {
    /// The error's message.
    pub fn to_string(&self) -> (r: String)
        ensures
            r@ == match self {
                AdminError::NoCommandChannel(m) => "Command channel not available: "@ + m@,
                AdminError::SendError(m) => "Failed to send command: "@ + m@,
            },
    {
        match self {
            AdminError::NoCommandChannel(m) => prefixed_message("Command channel not available: ", m.as_str()),
            AdminError::SendError(m) => prefixed_message("Failed to send command: ", m.as_str()),
        }
    }
}

/// A command read from the administration socket.
#[derive(Debug)]
pub enum Command {
    Status,
    Health,
    Metrics,
    Analysis,
    BlockedIps,
    ReloadConfig { config_path: Option<String> },
    RestartWorkers,
    BlockIp { ip: String },
    UnblockIp { ip: String },
}

/// A command as a value: strings by their characters.
pub enum CommandView {
    Status,
    Health,
    Metrics,
    Analysis,
    BlockedIps,
    ReloadConfig { config_path: Option<Seq<char>> },
    RestartWorkers,
    BlockIp { ip: Seq<char> },
    UnblockIp { ip: Seq<char> },
}

impl View for Command {
    type V = CommandView;

    open spec fn view(&self) -> CommandView {
        match self {
            Command::Status => CommandView::Status,
            Command::Health => CommandView::Health,
            Command::Metrics => CommandView::Metrics,
            Command::Analysis => CommandView::Analysis,
            Command::BlockedIps => CommandView::BlockedIps,
            Command::ReloadConfig { config_path } => CommandView::ReloadConfig {
                config_path: match config_path {
                    Some(p) => Some(p@),
                    None => None,
                },
            },
            Command::RestartWorkers => CommandView::RestartWorkers,
            Command::BlockIp { ip } => CommandView::BlockIp { ip: ip@ },
            Command::UnblockIp { ip } => CommandView::UnblockIp { ip: ip@ },
        }
    }
}

/// How a line from the administration socket reads.
#[derive(Debug)]
pub enum CommandLine {
    /// The line opens a JSON object and is to be read as one.
    Json,
    /// A command of the plain-text protocol.
    Text(Command),
    /// Not a command; the reply carries this message.
    Unknown(String),
}

/// The plain-text command that the lower-cased line `lower` names: `status`, `health`,
/// `metrics`, `analysis`, `blocked_ips` or `blocked`; anything starting with `reload` or
/// `restart`; or `block ` or `unblock ` followed by an address (white space around it
/// dropped).
pub open spec fn text_command(lower: Seq<char>) -> Option<CommandView> {
    if lower == "status"@ {
        Some(CommandView::Status)
    } else if lower == "health"@ {
        Some(CommandView::Health)
    } else if lower == "metrics"@ {
        Some(CommandView::Metrics)
    } else if lower == "analysis"@ {
        Some(CommandView::Analysis)
    } else if lower == "blocked_ips"@ || lower == "blocked"@ {
        Some(CommandView::BlockedIps)
    } else if seq_starts_with(lower, "reload"@) {
        Some(CommandView::ReloadConfig { config_path: None })
    } else if seq_starts_with(lower, "restart"@) {
        Some(CommandView::RestartWorkers)
    } else if seq_starts_with(lower, "block "@) {
        Some(CommandView::BlockIp { ip: trim_white(lower.subrange(6, lower.len() as int)) })
    } else if seq_starts_with(lower, "unblock "@) {
        Some(CommandView::UnblockIp { ip: trim_white(lower.subrange(8, lower.len() as int)) })
    } else {
        None
    }
}

/// Reads a line (already stripped of surrounding white space) from the administration
/// socket: a line opening with `{` is JSON; otherwise the plain-text command its lower-cased
/// form names, or, when it names none, the message `Unknown command: ` and the line.
pub fn parse_command_line(line: &str) -> (r: CommandLine)
    ensures
        (line@.len() > 0 && line@[0] == '{') <==> r is Json,
        !(line@.len() > 0 && line@[0] == '{') ==> match text_command(str_lowercase(line@)) {
            Some(c) => r matches CommandLine::Text(cmd) && cmd@ == c,
            None => r matches CommandLine::Unknown(m) && m@ == "Unknown command: "@ + line@,
        },
{
    let chars = chars_of(line);
    if chars.len() > 0 && chars[0] == '{' {
        return CommandLine::Json;
    }
    let lower = to_lowercase(line);
    let lc = chars_of(lower.as_str());
    proof {
        reveal_strlit("block ");
        reveal_strlit("unblock ");
    }
    if lower == "status".to_string() {
        CommandLine::Text(Command::Status)
    } else if lower == "health".to_string() {
        CommandLine::Text(Command::Health)
    } else if lower == "metrics".to_string() {
        CommandLine::Text(Command::Metrics)
    } else if lower == "analysis".to_string() {
        CommandLine::Text(Command::Analysis)
    } else if lower == "blocked_ips".to_string() || lower == "blocked".to_string() {
        CommandLine::Text(Command::BlockedIps)
    } else if chars_start_with(lc.as_slice(), chars_of("reload").as_slice()) {
        CommandLine::Text(Command::ReloadConfig { config_path: None })
    } else if chars_start_with(lc.as_slice(), chars_of("restart").as_slice()) {
        CommandLine::Text(Command::RestartWorkers)
    } else if chars_start_with(lc.as_slice(), chars_of("block ").as_slice()) {
        let rest = copy_range(lc.as_slice(), 6, lc.len());
        let ip = string_of(trim_white_chars(rest.as_slice()).as_slice());
        CommandLine::Text(Command::BlockIp { ip })
    } else if chars_start_with(lc.as_slice(), chars_of("unblock ").as_slice()) {
        let rest = copy_range(lc.as_slice(), 8, lc.len());
        let ip = string_of(trim_white_chars(rest.as_slice()).as_slice());
        CommandLine::Text(Command::UnblockIp { ip })
    } else {
        CommandLine::Unknown(prefixed_message("Unknown command: ", line))
    }
}

/// The message confirming that an address's block request was passed on.
pub fn block_requested_message(ip: &str) -> (r: String)
    ensures
        r@ == "IP "@ + ip@ + " block request sent"@,
{
    crate::error::framed_message("IP ", ip, " block request sent")
}

/// The message confirming that an address's unblock request was passed on.
pub fn unblock_requested_message(ip: &str) -> (r: String)
    ensures
        r@ == "IP "@ + ip@ + " unblock request sent"@,
{
    crate::error::framed_message("IP ", ip, " unblock request sent")
}

} // verus!
