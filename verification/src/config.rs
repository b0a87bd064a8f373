//! Optional on-disk settings, so `--team` need not be retyped every launch.
//!
//! The file is read at startup and never written unless the user explicitly
//! asks with `--save-config`. A missing file is fine and yields defaults; a
//! malformed one is reported and stops startup, so a typo shows up as an
//! error rather than as a setting that silently does nothing. Reading and
//! writing the file is the driver's; this is what it holds.

use vstd::prelude::*;

verus! {

#[derive(Debug, Clone, PartialEq)]
pub struct Config {
    /// Favorite team abbreviation, e.g. "TOR".
    pub team: Option<String>,
    /// Tab to open on, 1-5.
    pub tab: Option<u8>,
}

impl Default for Config {
    fn default() -> (c: Config)
        ensures
            c.team is None && c.tab is None,
    {
        Config { team: None, tab: None }
    }
}

} // verus!
