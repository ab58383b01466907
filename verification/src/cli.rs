//! The host's command-line surface: a single configuration-file path.

use vstd::prelude::*;

verus! {

/// The host's arguments; the argument parsing itself lives outside the
/// library and hands over this plain value.
#[derive(Debug)]
pub struct Args {
    /// Path to the configuration file.
    pub config: String,
}

impl Default for Args {
    /// The configuration path used when none is given.
    fn default() -> (args: Args)
        ensures
            args.config@ == "config.toml"@,
    {
        Args { config: String::from_str("config.toml") }
    }
}

} // verus!
