//! The configuration of the server.

use vstd::prelude::*;

verus! {

/// The file that the configuration is read from.
pub const PATH: &'static str = "smugdancer.toml";

/// How the server listens and whom it trusts.
#[derive(Debug, Clone, PartialEq, Eq)]
pub struct ServerConfig {
    /// The port under which the server listens.
    pub port: u16,
    /// The root URL that the documentation shows.
    pub root: String,
    /// Whether each client address may have only one request in flight.
    pub rate_limiting: bool,
    /// Whether the server stands behind a reverse proxy, which names the client in the
    /// `X-Forwarded-For` header.
    pub reverse_proxy: bool,
}

/// Where the number of frames of the animation comes from.
#[derive(Debug, Clone, PartialEq, Eq)]
pub enum FrameCountSource {
    /// The number itself.
    Hardcoded { hardcoded: usize },
    /// A command that prints the number.
    Command { command: String, flags: Vec<String> },
}

/// Whether rate limiting is on when the configuration does not say.
pub fn enabled() -> (on: bool)
    ensures
        on,
{
    true
}

} // verus!
