//! The commands of the `fhist` command line.
use vstd::prelude::*;

verus! {

/// What the user asked for.
#[derive(Clone, Debug)]
pub enum Commands {
    /// Start tracking the file at `target`.
    Add { target: String },
    /// Stop tracking a file, named by its identifier or its path.
    Remove { target: String },
    /// List all tracked files with their identifiers and paths.
    List,
    /// Show the history of a tracked file; with `verbose`, the contents too.
    Log { target: String, verbose: bool },
    /// Show two snapshots of a tracked file side by side.
    Diff { target: String, from: Option<String>, to: Option<String> },
    /// Restore a tracked file to a snapshot (by default the latest).
    Rollback { target: String, snapshot: Option<String> },
}

/// The parsed command line.
#[derive(Clone, Debug)]
pub struct Args {
    pub command: Commands,
}

} // verus!
