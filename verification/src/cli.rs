//! The command line: the subcommands and their options.

use vstd::prelude::*;

verus! {

/// The parsed command line: a subcommand, or none for the interactive table.
pub struct Cli {
    pub command: Option<Command>,
}

/// A subcommand.
pub enum Command {
    /// List active ports (`all`: every connection, not only listening ones).
    List { all: bool, json: bool },
    /// Find the process that uses a port.
    Find { port: u16, json: bool },
    /// Kill the process on a port (`force`: without confirmation).
    Kill { port: u16, force: bool },
    /// Check whether a port is available.
    Check { port: u16, json: bool },
    /// Scan a port range such as `3000-4000`.
    Scan { range: String },
}

} // verus!
