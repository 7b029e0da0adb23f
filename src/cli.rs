//! The options of a run.

use vstd::prelude::*;

verus! {

/// The options of a run.
pub struct Args {
    /// The directory to scan: a project, or a directory of projects.
    pub input_dir: String,
    /// The directory that receives the dumps.
    pub output_dir: String,
    /// Whether to leave the project's ignore file unheeded.
    pub no_gitignore: bool,
    /// Whether to report left-out files and unreadable entries.
    pub verbose: bool,
}

} // verus!
