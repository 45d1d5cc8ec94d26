//! What the gateway is started with: the transport it listens on and the
//! downstream servers it connects to.

use vstd::prelude::*;

verus! {

/// The transport on which the gateway serves its clients.
#[derive(Debug, Clone, PartialEq, Eq)]
pub struct ServerSettings {
    pub transport: String,
    pub port: Option<u16>,
}

/// How one downstream server is reached.
#[derive(Debug, Clone, PartialEq, Eq)]
pub enum DownstreamConfig {
    /// A local process, spoken to over its standard streams.
    Stdio { command: String, args: Vec<String>, env: Vec<(String, String)> },
    /// A remote server, spoken to over an event stream.
    Sse { url: String },
}

/// The whole configuration: the server, and each downstream under its
/// identifier.
#[derive(Debug, Clone, PartialEq, Eq)]
pub struct AppConfig {
    pub server: ServerSettings,
    pub downstreams: Vec<(String, DownstreamConfig)>,
}

} // verus!
