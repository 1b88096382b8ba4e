//! Where the application keeps its own files, rooted in the platform's
//! per-user configuration, cache and data directories.

use vstd::prelude::*;

use crate::text::has_suffix;

verus! {

/// The application's own directories; every file of it lives in one.
#[derive(Debug, Clone)]
pub struct AppPaths {
    pub config_dir: String,
    pub cache_dir: String,
    pub data_dir: String,
}

/// Relies on `dirs::config_dir`: the platform's per-user configuration
/// directory, if it has one; environment-dependent, nothing promised.
#[verifier::external_body]
fn platform_config_dir() -> (r: Option<String>) {
    dirs::config_dir().map(|p| p.to_string_lossy().into_owned())
}

/// Relies on `dirs::cache_dir`: the platform's per-user cache
/// directory, if it has one; environment-dependent, nothing promised.
#[verifier::external_body]
fn platform_cache_dir() -> (r: Option<String>) {
    dirs::cache_dir().map(|p| p.to_string_lossy().into_owned())
}

/// Relies on `dirs::data_dir`: the platform's per-user data directory,
/// if it has one; environment-dependent, nothing promised.
#[verifier::external_body]
fn platform_data_dir() -> (r: Option<String>) {
    dirs::data_dir().map(|p| p.to_string_lossy().into_owned())
}

impl AppPaths {
    /// Resolves the three directories, each the platform's own with the
    /// application's name appended; a platform lacking one is an error.
    pub fn new() -> (r: Result<Self, String>)
        ensures
            r matches Ok(p) ==> has_suffix(p.config_dir@, "/versi"@)
                && has_suffix(p.cache_dir@, "/versi"@) && has_suffix(
                p.data_dir@,
                "/versi"@,
            ),
    {
        let config_base = match platform_config_dir() {
            Some(d) => d,
            None => {
                return Err(String::from_str(
                    "Could not determine config directory",
                ));
            },
        };
        let cache_base = match platform_cache_dir() {
            Some(d) => d,
            None => {
                return Err(String::from_str(
                    "Could not determine cache directory",
                ));
            },
        };
        let data_base = match platform_data_dir() {
            Some(d) => d,
            None => {
                return Err(String::from_str("Could not determine data directory"));
            },
        };
        let mut config_dir = config_base;
        config_dir.append("/versi");
        let mut cache_dir = cache_base;
        cache_dir.append("/versi");
        let mut data_dir = data_base;
        data_dir.append("/versi");
        proof {
            reveal_strlit("/versi");
            assert(config_dir@.skip(config_dir@.len() - 6) =~= "/versi"@);
            assert(cache_dir@.skip(cache_dir@.len() - 6) =~= "/versi"@);
            assert(data_dir@.skip(data_dir@.len() - 6) =~= "/versi"@);
        }
        Ok(Self { config_dir, cache_dir, data_dir })
    }

    pub fn settings_file(&self) -> (r: String)
        ensures
            r@ == self.config_dir@ + "/settings.json"@,
    {
        let mut s = self.config_dir.clone();
        s.append("/settings.json");
        s
    }

    pub fn version_cache_file(&self) -> (r: String)
        ensures
            r@ == self.cache_dir@ + "/versions.json"@,
    {
        let mut s = self.cache_dir.clone();
        s.append("/versions.json");
        s
    }

    pub fn log_file(&self) -> (r: String)
        ensures
            r@ == self.data_dir@ + "/debug.log"@,
    {
        let mut s = self.data_dir.clone();
        s.append("/debug.log");
        s
    }
}

} // verus!
