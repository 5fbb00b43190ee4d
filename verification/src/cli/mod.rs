//! The tool's command line: its commands and their arguments, and the
//! small decisions taken on them before any work starts.
pub mod backup;
pub mod dev;
pub mod eject;
pub mod pkg;

use vstd::prelude::*;

verus! {

/// The whole command line.
#[derive(Debug)]
pub struct Cli {
    pub command: Commands,
    /// Debug logging.
    pub verbose: bool,
    /// Log output format: `text` or `json`.
    pub log_format: String,
}

/// The top-level commands.
#[derive(Debug)]
pub enum Commands {
    /// Back up a radio's SD card.
    Backup(backup::BackupArgs),
    /// Package management.
    Pkg { command: pkg::PkgCommands },
    /// Development workflow.
    Dev { command: dev::DevCommands },
}

} // verus!
