//! The typed settings that the rest of the library reads.

use vstd::prelude::*;

verus! {

/// Cue sheet parsing options.
#[derive(Debug)]
pub struct Cue {
    pub strict: bool,
}

/// Where the remote queue lives and how to authenticate against it.
#[derive(Debug)]
pub struct Lidarr {
    pub url: String,
    pub api_key: String,
}

/// How the external splitter is invoked.
#[derive(Debug)]
pub struct Shnsplit {
    pub path: String,
    pub overwrite: bool,
    pub format: String,
}

/// The complete configuration, resolved once at startup.
#[derive(Debug)]
pub struct Settings {
    pub data_dir: String,
    pub check_frequency_seconds: u64,
    pub cue: Cue,
    pub lidarr: Lidarr,
    pub shnsplit: Shnsplit,
}

impl Shnsplit {
    /// The value handed to the splitter's overwrite option.
    pub fn overwrite_policy(&self) -> (policy: &'static str)
        ensures
            policy@ == (if self.overwrite { "always"@ } else { "never"@ }),
    {
        if self.overwrite {
            "always"
        } else {
            "never"
        }
    }
}

} // verus!
