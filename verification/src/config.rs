//! Process configuration: a plain data bag with documented defaults.
//! Reading the environment and printing the configuration are left to
//! the program around the library.

use vstd::prelude::*;

verus! {

/// Settings the server runs with. The connection timeout is kept in
/// whole seconds.
#[derive(Debug, Clone)]
pub struct Config {
    pub host: String,
    pub port: u16,
    pub max_connections: usize,
    pub connection_timeout_secs: u64,
    pub enable_timeouts: bool,
    pub log_level: String,
    pub enable_metrics: bool,
}

impl Default for Config {
    /// The documented defaults: localhost on port 2312, at most 100
    /// connections, a 30 second timeout that starts disabled, info
    /// logging and no metrics.
    fn default() -> (r: Self)
        ensures
            r.host@ == "127.0.0.1"@,
            r.port == 2312,
            r.max_connections == 100,
            r.connection_timeout_secs == 30,
            r.enable_timeouts == false,
            r.log_level@ == "info"@,
            r.enable_metrics == false,
    {
        Config {
            host: "127.0.0.1".to_owned(),
            port: 2312,
            max_connections: 100,
            connection_timeout_secs: 30,
            enable_timeouts: false,
            log_level: "info".to_owned(),
            enable_metrics: false,
        }
    }
}

} // verus!
