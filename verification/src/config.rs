//! The bootstrap configuration record the server is handed.

use vstd::prelude::*;
use vstd::string::StringExecFns;

verus! {

/// Where the server listens.
#[derive(Clone, Debug)]
pub struct ServerConfig {
    pub bind_address: String,
    pub port: u16,
}

impl Default for ServerConfig {
    /// Every interface, on the protocol's customary port.
    fn default() -> (r: ServerConfig)
        ensures
            r.bind_address@ == "0.0.0.0"@,
            r.port == 25565u16,
    {
        ServerConfig { bind_address: String::from_str("0.0.0.0"), port: 25565 }
    }
}

} // verus!
