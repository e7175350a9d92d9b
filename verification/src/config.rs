//! The plain configuration values the core consumes.  Parsing the
//! command line is the embedding program's job; the core sees only
//! these fields.

use vstd::prelude::*;

verus! {

/// The assembler's configuration.
pub struct Args {
    pub output: Option<String>,
    pub file: String,
    pub verbose: bool,
    pub debug: bool,
    pub tips: bool,
}

impl Default for Args {
    /// No files, quiet output, tips on.
    fn default() -> (r: Args)
        ensures
            r.output is None && r.file@.len() == 0,
            !r.verbose && !r.debug && r.tips,
    {
        Args { output: None, file: String::new(), verbose: false, debug: false, tips: true }
    }
}

/// The emulator's configuration.
pub struct Cli {
    pub file: String,
    pub verbose: bool,
    pub debug: bool,
    pub quiet: bool,
    pub time_delay: Option<u32>,
    pub pretty: bool,
}

impl Default for Cli {
    /// No file, no delay, everything off.
    fn default() -> (r: Cli)
        ensures
            r.file@.len() == 0 && !r.verbose && !r.debug && !r.quiet && !r.pretty,
            r.time_delay == Some(0u32),
    {
        Cli {
            file: String::new(),
            verbose: false,
            debug: false,
            quiet: false,
            time_delay: Some(0),
            pretty: false,
        }
    }
}

} // verus!
