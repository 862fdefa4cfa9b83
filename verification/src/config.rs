//! User preferences shared by the tools built on this engine: where the
//! system configuration lives, whether a flake is used, and how many
//! generations to keep.

use vstd::prelude::*;

verus! {

/// Locations of system configuration files and a few user preferences.
#[derive(Clone, Debug)]
pub struct NixDataConfig {
    /// Path to the system configuration file.
    pub systemconfig: Option<String>,
    /// Path to the flake file, if the system is flake based.
    pub flake: Option<String>,
    /// Which entry of the flake's configuration set to build; defaults to
    /// the host name when absent.
    pub flakearg: Option<String>,
    /// How many generations to keep; 0 keeps all, absent means 5.
    pub generations: Option<u32>,
}

/// Which mechanism the user installs packages with.
#[derive(Clone, Copy, PartialEq, Eq, Structural, Debug)]
pub enum UserPkgType {
    /// The profile-based package command.
    Profile,
    /// The legacy environment package command.
    Env,
}

/// Where the preferences should be read from, given which of the two
/// candidate files exist: the per-user file wins over the system-wide one.
#[derive(Clone, Copy, PartialEq, Eq, Structural, Debug)]
pub enum ConfigSource {
    User,
    System,
}

/// Decides which preferences file to read. The per-user file is preferred;
/// the system-wide file is the fallback; with neither present there is no
/// configuration to read.
pub fn config_source(user_exists: bool, system_exists: bool) -> (r: Option<ConfigSource>)
    ensures
        user_exists ==> r == Some(ConfigSource::User),
        !user_exists && system_exists ==> r == Some(ConfigSource::System),
        !user_exists && !system_exists ==> r is None,
{
    if user_exists {
        Some(ConfigSource::User)
    } else if system_exists {
        Some(ConfigSource::System)
    } else {
        None
    }
}

/// How many generations a configuration asks to keep: the stored value,
/// or 5 when none is set.
pub fn generations_to_keep(config: &NixDataConfig) -> (r: u32)
    ensures
        r == match config.generations {
            Some(g) => g,
            None => 5u32,
        },
{
    match config.generations {
        Some(g) => g,
        None => 5,
    }
}

} // verus!
