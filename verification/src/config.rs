//! User settings read from `~/.config/apkdl/config.toml`.

use vstd::prelude::*;

verus! {

/// The settings file's entries; each may be absent.
#[derive(Debug)]
pub struct Config {
    pub default_arch: Option<String>,
    pub default_source: Option<String>,
    pub output_dir: Option<String>,
    pub timeout_secs: Option<u64>,
}

impl Default for Config {
    /// No entry set.
    fn default() -> (res: Self)
        ensures
            res.default_arch is None,
            res.default_source is None,
            res.output_dir is None,
            res.timeout_secs is None,
    {
        Config { default_arch: None, default_source: None, output_dir: None, timeout_secs: None }
    }
}

/// The HTTP timeout used when the settings name none: two hours.
pub const DEFAULT_TIMEOUT_SECS: u64 = 7200;

impl Config {
    /// The HTTP timeout in seconds: the configured one, else `DEFAULT_TIMEOUT_SECS`.
    pub fn timeout(&self) -> (res: u64)
        ensures
            res == match self.timeout_secs {
                Some(t) => t,
                None => DEFAULT_TIMEOUT_SECS,
            },
    {
        match self.timeout_secs {
            Some(t) => t,
            None => DEFAULT_TIMEOUT_SECS,
        }
    }
}

} // verus!
