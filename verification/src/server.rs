//! Listener settings: a plain data bag with documented defaults. The
//! socket handling itself is left to the program around the library.

use vstd::prelude::*;

verus! {

/// Settings the connection listener runs with. The connection timeout
/// is kept in whole seconds.
#[derive(Debug, Clone)]
pub struct ServerConfig {
    pub host: String,
    pub port: u16,
    pub max_connections: usize,
    pub connection_timeout_secs: u64,
    pub enable_timeouts: bool,
}

impl Default for ServerConfig {
    /// The documented defaults: localhost on port 2312, at most 100
    /// connections, a 30 second timeout that starts disabled.
    fn default() -> (r: Self)
        ensures
            r.host@ == "127.0.0.1"@,
            r.port == 2312,
            r.max_connections == 100,
            r.connection_timeout_secs == 30,
            r.enable_timeouts == false,
    {
        ServerConfig {
            host: "127.0.0.1".to_owned(),
            port: 2312,
            max_connections: 100,
            connection_timeout_secs: 30,
            enable_timeouts: false,
        }
    }
}

} // verus!
