//! Persistent settings.
//!
//! The settings are stored as JSON in the user's configuration directory; the
//! program reads and writes the file, and this module decides what a load
//! yields.

use vstd::prelude::*;

verus! {

/// The user's settings.
#[derive(Clone, Copy, Debug, PartialEq, Eq, Structural)]
pub struct Config {
    /// Turn the red filter on automatically when the app launches.
    pub auto_on_start: bool,
    /// Whether the app is registered to start with Windows (mirrors the
    /// registry's Run key, which is the source of truth).
    pub start_on_boot: bool,
}

/// The default settings: both off.
pub open spec fn default_config() -> Config {
    Config { auto_on_start: false, start_on_boot: false }
}

impl Default for Config {
    fn default() -> (c: Self)
        ensures
            c == default_config(),
            !c.auto_on_start,
            !c.start_on_boot,
    {
        Config { auto_on_start: false, start_on_boot: false }
    }
}

impl Config {
    /// The settings a load yields, given what was read and parsed from the
    /// settings file: `None` when there is no settings directory, the file
    /// cannot be read, or its text does not parse; the defaults then apply.
    pub fn load(stored: Option<Config>) -> (c: Config)
        ensures
            c == (match stored {
                Some(s) => s,
                None => default_config(),
            }),
            stored is Some ==> c == stored->Some_0,
            stored is None ==> !c.auto_on_start && !c.start_on_boot,
    {
        match stored {
            Some(s) => s,
            None => Config::default(),
        }
    }
}

} // verus!
