//! Command-line options of the surrounding application: the path of an
//! optional external search engine, and the UI tick rate.  The argument
//! syntax itself is handled by the application shell; this is the plain
//! value type it fills in.

use vstd::prelude::*;

verus! {

/// The parsed command-line arguments.
#[derive(Debug, Clone)]
pub struct CLIArgs {
    /// Path to the engine executable.
    pub engine_path: Option<String>,
    /// Tickrate in milliseconds.
    pub tickrate: u64,
}

impl Default for CLIArgs {
    /// No engine attached, and a tick rate of 200 milliseconds.
    fn default() -> (r: Self)
        ensures
            r.engine_path is None,
            r.tickrate == 200,
    {
        CLIArgs { engine_path: None, tickrate: 200 }
    }
}

} // verus!
