//! Application configuration: the shape of `config.toml` and its defaults.
//!
//! Loading the file and the `SOUNDOME__*` environment overlay is I/O and
//! happens outside the library; this module holds the data, the defaults
//! every missing section falls back to, and the set-once rule of the
//! process-wide configuration slot.

pub mod model;
pub mod models;

use vstd::prelude::*;
use crate::config::models::Config;

verus! {

/// Why the configuration could not be installed.
pub enum ConfigError {
    /// A message describing the failure (what the loader reported, or that
    /// the slot was already filled).
    Message(String),
}

/// The message given when the configuration slot is already filled.
pub open spec fn already_set_message() -> Seq<char> {
    "Failed to set global config"@
}

/// The slot after an install of `loaded`: filled with the loaded
/// configuration when it was empty and the load succeeded, else unchanged.
pub open spec fn installed(slot: Option<Config>, loaded: Result<Config, ConfigError>) -> Option<Config> {
    match loaded {
        Ok(c) => if slot is None {
            Some(c)
        } else {
            slot
        },
        Err(_) => slot,
    }
}

/// Law: the first successful install decides the configuration for good:
/// `get` returns it, and every later install, whatever it loaded, leaves it.
pub proof fn law_installed_config_stays(c: Config, later: Result<Config, ConfigError>)
    ensures
        installed(None, Ok(c)) == Some(c),
        installed(Some(c), later) == Some(c),
        installed(installed(None, Ok(c)), later) == Some(c),
{
}

impl Config {
    /// Installs the loaded configuration into the process-wide slot.
    ///
    /// A load failure is handed back unchanged and leaves the slot alone.
    /// The slot is filled once: when it already holds a configuration, that
    /// one stays and the call fails with the "already set" message.
    pub fn init(slot: &mut Option<Config>, loaded: Result<Config, ConfigError>) -> (res: Result<(), ConfigError>)
        ensures
            *final(slot) == installed(*old(slot), loaded),
            match loaded {
                Err(e) => res == Err::<(), ConfigError>(e) && *final(slot) == *old(slot),
                Ok(c) => if old(slot).is_none() {
                    res is Ok && *final(slot) == Some(c)
                } else {
                    *final(slot) == *old(slot) && (res matches Err(ConfigError::Message(m)) && m@ == already_set_message())
                },
            },
    {
        match loaded {
            Err(e) => Err(e),
            Ok(c) => {
                if slot.is_none() {
                    *slot = Some(c);
                    Ok(())
                } else {
                    Err(ConfigError::Message("Failed to set global config".to_owned()))
                }
            },
        }
    }

    /// The installed configuration; callers must have installed one first.
    pub fn get(slot: &Option<Config>) -> (res: &Config)
        requires
            slot.is_some(),
        ensures
            Some(*res) == *slot,
    {
        match slot {
            Some(c) => c,
            None => unreached(),
        }
    }
}

} // verus!
