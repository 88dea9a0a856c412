//! The command line of favetto.
use vstd::prelude::*;

verus! {

/// The command line.
#[derive(Debug, PartialEq, Eq)]
pub struct Cli {
    pub command: Command,
}

/// What favetto is to do.
#[derive(Debug, PartialEq, Eq)]
pub enum Command {
    /// Run the daemon.
    Daemon(DaemonArgs),
    /// Attach a terminal client to a daemon.
    Tui(TuiArgs),
    /// Print a code that pairs a remote client.
    Pair(PairArgs),
    /// Replace the bearer token.
    TokenRotate(TokenRotateArgs),
    /// Write the generated part of the documentation.
    Doc(DocArgs),
    /// Run an agent so that it dies with the daemon.
    InternalAgentExec { argv: Vec<String> },
}

/// How the daemon is run.
#[derive(Debug, PartialEq, Eq)]
pub struct DaemonArgs {
    pub config: Option<String>,
    pub socket: Option<String>,
    pub listen: Option<String>,
    pub data_dir: Option<String>,
    pub tasks_dir: Option<String>,
}

/// How a client attaches.
#[derive(Debug, PartialEq, Eq)]
pub struct TuiArgs {
    pub remote: Option<String>,
    pub token_file: Option<String>,
    pub socket: Option<String>,
    pub pair_code: Option<String>,
    pub config: Option<String>,
    pub sound: bool,
    pub no_sound: bool,
    pub sound_command: Option<String>,
    pub test_sound: bool,
}

/// Where the documentation is written.
#[derive(Debug, PartialEq, Eq)]
pub struct DocArgs {
    pub docs_dir: Option<String>,
}

/// Which daemon is paired with.
#[derive(Debug, PartialEq, Eq)]
pub struct PairArgs {
    pub url: String,
}

/// The daemon on this machine.
impl Default for PairArgs {
    fn default() -> (args: PairArgs)
        ensures
            args.url@ == "http://127.0.0.1:7878"@,
    {
        PairArgs { url: "http://127.0.0.1:7878".to_owned() }
    }
}

/// Where the token is kept.
#[derive(Debug, PartialEq, Eq)]
pub struct TokenRotateArgs {
    pub data_dir: Option<String>,
}

impl Command {
    /// The name of the subcommand.
    pub fn name(&self) -> (name: &'static str)
        ensures
            name@ == match *self {
                Command::Daemon(_) => "daemon"@,
                Command::Tui(_) => "tui"@,
                Command::Pair(_) => "pair"@,
                Command::TokenRotate(_) => "token-rotate"@,
                Command::Doc(_) => "__doc"@,
                Command::InternalAgentExec { .. } => "__agent-exec"@,
            },
    {
        match self {
            Command::Daemon(_) => "daemon",
            Command::Tui(_) => "tui",
            Command::Pair(_) => "pair",
            Command::TokenRotate(_) => "token-rotate",
            Command::Doc(_) => "__doc",
            Command::InternalAgentExec { .. } => "__agent-exec",
        }
    }
}

} // verus!
