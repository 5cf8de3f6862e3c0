//! The configuration settings and their defaults.

use vstd::prelude::*;

use crate::config::load::{default_listen_addr, default_listen_spec};
use crate::discovery::options::{default_discovery_multicast_addr, default_multicast_spec, DEFAULT_DISCOVERY_PORT, DEFAULT_DISCOVERY_TIMEOUT_MS};
use crate::net::{Ipv4Address, SocketAddress};
use crate::path::{adjoined, no_verbatim_prefix, path_join, relative_part};

verus! {

/// The default number of parallel downloads (0: let the downloader decide).
pub const DEFAULT_DOWNLOAD_PARALLELISM: usize = 0;
/// The default number of chunk requests in flight per peer.
pub const DEFAULT_REQUEST_WINDOW: usize = 16;

/// The settings of a configuration file; an absent key leaves its setting
/// unset.
#[derive(Clone, Debug, PartialEq, Eq)]
pub struct EtleConfig {
    pub library_root: Option<String>,
    pub ipc_socket: Option<String>,
    pub listen: Option<SocketAddress>,
    pub discovery_port: Option<u16>,
    pub discovery_multicast: Option<Ipv4Address>,
    pub discovery_timeout_ms: Option<u64>,
    pub request_window: Option<usize>,
    pub parallel: Option<usize>,
    pub auth_psk: Option<String>,
}

/// The settings as values.
#[verifier::ext_equal]
pub struct ConfigView {
    pub library_root: Option<Seq<char>>,
    pub ipc_socket: Option<Seq<char>>,
    pub listen: Option<SocketAddress>,
    pub discovery_port: Option<u16>,
    pub discovery_multicast: Option<Ipv4Address>,
    pub discovery_timeout_ms: Option<u64>,
    pub request_window: Option<usize>,
    pub parallel: Option<usize>,
    pub auth_psk: Option<Seq<char>>,
}

/// The view of an optional string.
pub open spec fn opt_view(s: Option<String>) -> Option<Seq<char>> {
    match s {
        Some(v) => Some(v@),
        None => None,
    }
}

impl View for EtleConfig {
    type V = ConfigView;

    open spec fn view(&self) -> ConfigView {
        ConfigView {
            library_root: opt_view(self.library_root),
            ipc_socket: opt_view(self.ipc_socket),
            listen: self.listen,
            discovery_port: self.discovery_port,
            discovery_multicast: self.discovery_multicast,
            discovery_timeout_ms: self.discovery_timeout_ms,
            request_window: self.request_window,
            parallel: self.parallel,
            auth_psk: opt_view(self.auth_psk),
        }
    }
}

/// No setting set.
pub open spec fn empty_config() -> ConfigView {
    ConfigView {
        library_root: None,
        ipc_socket: None,
        listen: None,
        discovery_port: None,
        discovery_multicast: None,
        discovery_timeout_ms: None,
        request_window: None,
        parallel: None,
        auth_psk: None,
    }
}

impl Default for EtleConfig {
    fn default() -> (r: Self)
        ensures
            r@ == empty_config(),
    {
        EtleConfig {
            library_root: None,
            ipc_socket: None,
            listen: None,
            discovery_port: None,
            discovery_multicast: None,
            discovery_timeout_ms: None,
            request_window: None,
            parallel: None,
            auth_psk: None,
        }
    }
}

/// What `~` expansion gives for a path: `~` alone becomes the home directory,
/// and `~/rest` the rest under it, when the home directory is known; any other
/// path stays.
pub open spec fn tilde_expanded(path: Seq<char>, home: Option<Seq<char>>, r: Seq<char>) -> bool {
    if path == seq!['~'] {
        r == match home {
            Some(h) => h,
            None => path,
        }
    } else if path.len() >= 2 && path[0] == '~' && path[1] == '/' && home is Some {
        relative_part(path.skip(2)) && no_verbatim_prefix(home.unwrap()) ==> adjoined(home.unwrap(), path.skip(2), r)
    } else {
        r == path
    }
}

/// Expands a leading `~` of a path to the home directory `home`.
pub fn expand_tilde_path(path: &str, home: Option<&str>) -> (r: String)
    ensures
        tilde_expanded(path@, match home { Some(h) => Some(h@), None => None }, r@),
{
    let chars = crate::bytes::chars_of(path);
    if chars.len() == 1 && chars[0] == '~' {
        assert(chars@ =~= seq!['~']);
        return match home {
            Some(h) => h.to_owned(),
            None => path.to_owned(),
        };
    }
    if chars.len() >= 2 && chars[0] == '~' && chars[1] == '/' {
        if let Some(h) = home {
            let mut rest: Vec<char> = Vec::new();
            let mut i: usize = 2;
            while i < chars.len()
                invariant
                    2 <= i <= chars@.len(),
                    rest@ == chars@.subrange(2, i as int),
                decreases chars@.len() - i,
            {
                rest.push(chars[i]);
                i = i + 1;
                assert(rest@ =~= chars@.subrange(2, i as int));
            }
            assert(rest@ =~= path@.skip(2));
            let rest_text = crate::bytes::string_from_chars(rest.as_slice());
            return path_join(h, rest_text.as_str());
        }
    }
    proof {
        if path@ == seq!['~'] {
            assert(chars@.len() == 1);
        }
    }
    path.to_owned()
}

impl EtleConfig {
    /// The library root, with `~` expanded to `home`.
    pub fn library_root(&self, home: Option<&str>) -> (r: Option<String>)
        ensures
            match self.library_root {
                Some(p) => r matches Some(q) && tilde_expanded(p@, match home { Some(h) => Some(h@), None => None }, q@),
                None => r is None,
            },
    {
        match &self.library_root {
            Some(p) => Some(expand_tilde_path(p.as_str(), home)),
            None => None,
        }
    }

    /// The IPC socket path, with `~` expanded to `home`.
    pub fn ipc_socket(&self, home: Option<&str>) -> (r: Option<String>)
        ensures
            match self.ipc_socket {
                Some(p) => r matches Some(q) && tilde_expanded(p@, match home { Some(h) => Some(h@), None => None }, q@),
                None => r is None,
            },
    {
        match &self.ipc_socket {
            Some(p) => Some(expand_tilde_path(p.as_str(), home)),
            None => None,
        }
    }

    /// The peer-to-peer listen address, `0.0.0.0:7000` when unset.
    pub fn listen_addr(&self) -> (r: SocketAddress)
        ensures
            r == match self.listen { Some(a) => a, None => default_listen_spec() },
    {
        match self.listen {
            Some(a) => a,
            None => default_listen_addr(),
        }
    }

    /// The discovery port, 37037 when unset.
    pub fn discovery_port(&self) -> (r: u16)
        ensures
            r == match self.discovery_port { Some(p) => p, None => DEFAULT_DISCOVERY_PORT },
    {
        match self.discovery_port {
            Some(p) => p,
            None => DEFAULT_DISCOVERY_PORT,
        }
    }

    /// The discovery multicast group, `239.255.0.86` when unset.
    pub fn discovery_multicast(&self) -> (r: Ipv4Address)
        ensures
            r == match self.discovery_multicast { Some(m) => m, None => default_multicast_spec() },
    {
        match self.discovery_multicast {
            Some(m) => m,
            None => default_discovery_multicast_addr(),
        }
    }

    /// The discovery timeout in milliseconds, 3000 when unset.
    pub fn discovery_timeout_ms(&self) -> (r: u64)
        ensures
            r == match self.discovery_timeout_ms { Some(t) => t, None => DEFAULT_DISCOVERY_TIMEOUT_MS },
    {
        match self.discovery_timeout_ms {
            Some(t) => t,
            None => DEFAULT_DISCOVERY_TIMEOUT_MS,
        }
    }

    /// The request window, 16 when unset.
    pub fn request_window(&self) -> (r: usize)
        ensures
            r == match self.request_window { Some(w) => w, None => DEFAULT_REQUEST_WINDOW },
    {
        match self.request_window {
            Some(w) => w,
            None => DEFAULT_REQUEST_WINDOW,
        }
    }

    /// The download parallelism, 0 when unset.
    pub fn parallel(&self) -> (r: usize)
        ensures
            r == match self.parallel { Some(p) => p, None => DEFAULT_DOWNLOAD_PARALLELISM },
    {
        match self.parallel {
            Some(p) => p,
            None => DEFAULT_DOWNLOAD_PARALLELISM,
        }
    }

    /// The pre-shared key for peer authentication, if set.
    pub fn auth_psk(&self) -> (r: Option<String>)
        ensures
            opt_view(r) == opt_view(self.auth_psk),
    {
        match &self.auth_psk {
            Some(k) => Some(k.clone()),
            None => None,
        }
    }
}

} // verus!
