//! The commands of the command-line interface.
use vstd::prelude::*;

verus! {

/// The number of log lines shown when none is asked for.
pub const DEFAULT_LOG_LINES: usize = 200;

/// One command of the command line.
#[derive(Debug, Clone, Copy, PartialEq, Eq)]
pub enum Commands {
    /// Run the HTTP gateway server.
    Serve,
    /// Start the HTTP gateway in the background.
    Start,
    /// Stop the background HTTP gateway process.
    Stop,
    /// Restart the background HTTP gateway process.
    Restart,
    /// Show server logs: the last `lines` lines, then, with `follow`, what
    /// is appended later.
    Logs { follow: bool, lines: usize },
}

/// The parsed command line: a command, if one was given.
#[derive(Debug, Clone, Copy, PartialEq, Eq)]
pub struct Cli {
    pub command: Option<Commands>,
}

} // verus!
