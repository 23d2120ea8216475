//! Configuration and cache file contents and names. The files live in
//! per-application directories that the caller resolves; what is
//! written into them is decided here.

use vstd::prelude::*;
use vstd::string::StringExecFns;

verus! {

/// The exact contents of the configuration file: one literal line.
pub fn config_file_contents() -> (r: String)
    ensures
        r@ == "configured = 1"@,
{
    String::from_str("configured = 1")
}

/// The name of the configuration file.
pub fn config_file_name() -> (r: String)
    ensures
        r@ == "config.toml"@,
{
    String::from_str("config.toml")
}

/// The name of the stop cache file.
pub fn cache_file_name() -> (r: String)
    ensures
        r@ == "all_stops.json"@,
{
    String::from_str("all_stops.json")
}

/// Reads configuration from disk. Nothing is configured yet, so there
/// is nothing to read.
pub fn load_config_from_disk() {
}

} // verus!
