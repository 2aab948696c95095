//! The process's configuration surface: a prompt-configuration path, a data
//! directory, and the port the fan-out server listens on. How these are read
//! from the command line is the shell's concern; the defaults live here.

use vstd::prelude::*;
use vstd::string::StringExecFns;

verus! {

/// The three externally configurable parameters the pipeline cares about.
pub struct Args {
    /// Path to the prompts configuration file.
    pub config: String,
    /// Directory the aggregate is persisted in.
    pub data: String,
    /// Port the fan-out server binds.
    pub port: u16,
}

impl Default for Args {
    /// The built-in defaults.
    fn default() -> (r: Args)
        ensures
            r.config@ == "config/prompts.toml"@,
            r.data@ == "/var/lib/emojiopticon"@,
            r.port == 1337,
    {
        Args {
            config: String::from_str("config/prompts.toml"),
            data: String::from_str("/var/lib/emojiopticon"),
            port: 1337,
        }
    }
}

impl Args {
    /// Arguments as given, for the shell to fill in.
    pub fn new(config: String, data: String, port: u16) -> (r: Args)
        ensures
            r.config == config,
            r.data == data,
            r.port == port,
    {
        Args { config, data, port }
    }
}

} // verus!
