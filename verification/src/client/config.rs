//! Where a client connects to.
use vstd::prelude::*;

verus! {

/// Client configuration
#[derive(Debug, Clone)]
pub struct ClientConfig {
    /// Host to connect to
    pub host: String,
    /// Port to connect to
    pub port: u16,
}

impl ClientConfig {
    /// Default INDI server port (7624)
    pub const DEFAULT_PORT: u16 = 7624;

    /// Create a new client configuration
    pub fn new(host: String, port: u16) -> (r: Self)
        ensures
            r.host == host,
            r.port == port,
    {
        ClientConfig { host, port }
    }
}

} // verus!
