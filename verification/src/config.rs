use vstd::prelude::*;
use crate::session::manager::SessionConfig;

verus! {

/// Settings read from `.ao/config.yaml`.
pub struct Config {
    pub provider: ProviderConfig,
    pub session: SessionConfig,
    pub identity: IdentityConfig,
}

/// Where the soul and identity files are.
pub struct IdentityConfig {
    pub soul_path: String,
    pub identity_path: String,
}

/// How to reach the model.
pub struct ProviderConfig {
    pub api_key: String,
    pub model: String,
    pub base_url: String,
}

/// Soul file path when the settings name none: `.ao/SOUL.md`.
pub fn default_soul_path() -> (r: String)
    ensures
        r@ == ".ao/SOUL.md"@,
{
    ".ao/SOUL.md".to_owned()
}

/// Identity file path when the settings name none: `.ao/IDENTITY.md`.
pub fn default_identity_path() -> (r: String)
    ensures
        r@ == ".ao/IDENTITY.md"@,
{
    ".ao/IDENTITY.md".to_owned()
}

impl Default for IdentityConfig {
    /// The files at their default places: `.ao/SOUL.md` and
    /// `.ao/IDENTITY.md`, also where the settings have no `identity` section.
    fn default() -> (r: Self)
        ensures
            r.soul_path@ == ".ao/SOUL.md"@,
            r.identity_path@ == ".ao/IDENTITY.md"@,
    {
        IdentityConfig { soul_path: default_soul_path(), identity_path: default_identity_path() }
    }
}

} // verus!
