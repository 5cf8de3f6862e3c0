//! Discovery options and their defaults.

use vstd::prelude::*;

use crate::net::Ipv4Address;

verus! {

/// The default UDP port of the discovery service.
pub const DEFAULT_DISCOVERY_PORT: u16 = 37037;
/// How long a client waits for responses, by default, in milliseconds.
pub const DEFAULT_DISCOVERY_TIMEOUT_MS: u64 = 3000;
/// The magic string that starts every discovery message.
pub const DISCOVERY_MAGIC: &'static str = "etle-discovery-v1";
/// The largest discovery datagram read.
pub const MAX_DISCOVERY_PACKET_SIZE: usize = 4096;

/// The default multicast group of discovery, `239.255.0.86`.
pub open spec fn default_multicast_spec() -> Ipv4Address {
    Ipv4Address(239, 255, 0, 86)
}

/// The default multicast group of discovery, `239.255.0.86`.
pub fn default_discovery_multicast_addr() -> (r: Ipv4Address)
    ensures
        r == default_multicast_spec(),
{
    Ipv4Address(239, 255, 0, 86)
}

/// How a discovery client or server runs: its port, the client's timeout in
/// milliseconds, the multicast group if any, and whether it logs.
#[derive(Clone, Copy, Debug)]
pub struct DiscoveryOptions {
    pub port: u16,
    pub timeout_ms: u64,
    pub multicast: Option<Ipv4Address>,
    pub verbose: bool,
}

impl DiscoveryOptions {
    /// The defaults for `port`: the default timeout and multicast group, quiet.
    pub fn new(port: u16) -> (r: Self)
        ensures
            r.port == port,
            r.timeout_ms == DEFAULT_DISCOVERY_TIMEOUT_MS,
            r.multicast == Some(default_multicast_spec()),
            !r.verbose,
    {
        DiscoveryOptions {
            port,
            timeout_ms: DEFAULT_DISCOVERY_TIMEOUT_MS,
            multicast: Some(default_discovery_multicast_addr()),
            verbose: false,
        }
    }

    /// The same options with another timeout, in milliseconds.
    pub fn with_timeout(self, timeout_ms: u64) -> (r: Self)
        ensures
            r == (DiscoveryOptions { timeout_ms, ..self }),
    {
        DiscoveryOptions { timeout_ms, ..self }
    }

    /// The same options with a multicast group; an address that is not
    /// multicast turns multicast off.
    pub fn with_multicast(self, multicast: Ipv4Address) -> (r: Self)
        ensures
            r == (DiscoveryOptions {
                multicast: if multicast.spec_is_multicast() { Some(multicast) } else { None },
                ..self
            }),
    {
        let group = if multicast.is_multicast() { Some(multicast) } else { None };
        DiscoveryOptions { multicast: group, ..self }
    }

    /// The same options without multicast.
    pub fn without_multicast(self) -> (r: Self)
        ensures
            r == (DiscoveryOptions { multicast: None, ..self }),
    {
        DiscoveryOptions { multicast: None, ..self }
    }

    /// The same options, logging or not.
    pub fn with_verbose(self, verbose: bool) -> (r: Self)
        ensures
            r == (DiscoveryOptions { verbose, ..self }),
    {
        DiscoveryOptions { verbose, ..self }
    }
}

} // verus!
