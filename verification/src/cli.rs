//! The command-line arguments.
use vstd::prelude::*;

verus! {

/// The command-line arguments.
#[derive(Debug)]
pub struct Cli {
    /// Log file path(s). If not provided, reads from stdin.
    pub files: Vec<String>,
    /// Path to config file
    pub config: Option<String>,
    /// Path to filters file (TOML file containing predefined filters)
    pub filters: Option<String>,
    /// Clear all persisted state files
    pub clear_state: bool,
    /// Disable persistence
    pub no_persist: bool,
    /// Enable debug logging to file
    pub debug: Option<String>,
}

impl Cli {
    /// Whether to read the log from standard input: no files were given and standard
    /// input is not a terminal.
    pub fn should_use_stdin(&self, stdin_is_terminal: bool) -> (r: bool)
        ensures
            r == (self.files@.len() == 0 && !stdin_is_terminal),
    {
        self.files.len() == 0 && !stdin_is_terminal
    }
}

} // verus!
