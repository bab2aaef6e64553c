//! The operator configuration: the listening ports, the grow switch with
//! its fleet cap, and the interface toggles. The defaults stand in when the
//! configuration file is missing or unreadable.

use vstd::prelude::*;

verus! {

/// The network side of the configuration.
#[derive(Clone, Copy, PartialEq, Eq, Structural, Debug)]
pub struct ServerConfiguration {
    /// The shared control port every client connects to first.
    pub tcp_port: u16,
    /// The first UDP port; each sub-server takes the next one.
    pub udp_port: u16,
    /// Whether the fleet may grow beyond one sub-server.
    pub grow: bool,
    /// The most sub-servers the fleet may grow to.
    pub grow_limit: u16,
}

/// The whole configuration.
#[derive(Clone, Copy, PartialEq, Eq, Structural, Debug)]
pub struct Configuration {
    pub server: ServerConfiguration,
    /// Whether to show the operator interface.
    pub gui: bool,
    /// Whether to log at debug level.
    pub debug: bool,
}

impl Configuration {
    /// The defaults written to disk when no configuration can be read.
    pub fn default_values() -> (r: Configuration)
        ensures
            r.server.tcp_port == 7606,
            r.server.udp_port == 8606,
            !r.server.grow,
            r.server.grow_limit == 32,
            r.gui,
            r.debug,
    {
        Configuration {
            server: ServerConfiguration {
                tcp_port: 7606,
                udp_port: 8606,
                grow: false,
                grow_limit: 32,
            },
            gui: true,
            debug: true,
        }
    }
}

} // verus!
