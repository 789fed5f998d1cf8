//! Server configuration: the knobs a deployment sets, with their
//! defaults.

use vstd::prelude::*;
use vstd::string::StringExecFns;

verus! {

/// Default RTMP port.
pub const DEFAULT_RTMP_PORT: u16 = 1935;

/// Maximum number of concurrent connections.
pub const MAX_CONNECTIONS: usize = 1000;

/// Maximum stream buffer size in bytes.
pub const MAX_STREAM_BUFFER_SIZE: usize = 10 * 1024 * 1024;

/// Server configuration.
#[derive(Debug)]
pub struct ServerConfig {
    /// Bind address.
    pub address: String,
    /// Maximum connections.
    pub max_connections: usize,
    /// Stream buffer size.
    pub stream_buffer_size: usize,
    /// Whether logging is enabled.
    pub enable_logging: bool,
}

impl Default for ServerConfig {
    /// The stock configuration: every interface on the default RTMP
    /// port, the stock connection and buffer limits, logging on.
    fn default() -> (r: ServerConfig)
        ensures
            r.address@ == "0.0.0.0:1935"@,
            r.max_connections == MAX_CONNECTIONS,
            r.stream_buffer_size == MAX_STREAM_BUFFER_SIZE,
            r.enable_logging,
    {
        ServerConfig {
            address: String::from_str("0.0.0.0:1935"),
            max_connections: MAX_CONNECTIONS,
            stream_buffer_size: MAX_STREAM_BUFFER_SIZE,
            enable_logging: true,
        }
    }
}

} // verus!
