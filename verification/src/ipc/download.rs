//! The decisions of a download job of the daemon: whether it must discover
//! peers first, what discovery's outcome leads to, and how many workers run.

use vstd::prelude::*;

use crate::discovery::options::DiscoveryOptions;
use crate::file::descriptor::ShareId;
use crate::ipc::commands::{discovery_failed_response, effective_download_parallelism, is_error, no_peers_discovered_response, share_text};
use crate::ipc::message::IpcResponse;
use crate::net::{Ipv4Address, SocketAddress};

verus! {

/// How a download job starts.
pub enum DownloadStart {
    /// Fetch from `peers` with `workers` workers.
    Fetch { peers: Vec<SocketAddress>, workers: usize },
    /// No peer was given: discover peers for the share first.
    Discover { options: DiscoveryOptions },
}

/// The workers for a requested parallelism and a number of peers.
pub open spec fn workers_for(parallelism: usize, peer_count: nat) -> nat {
    if parallelism == 0 {
        if peer_count > 1 { peer_count } else { 1 }
    } else {
        parallelism as nat
    }
}

/// How a download job starts: with the peers given it fetches from them;
/// with none it discovers peers on the discovery port, waiting at least a
/// millisecond, with the multicast group when it is one.
pub fn start_download(
    peers: Vec<SocketAddress>,
    parallelism: usize,
    discovery_port: u16,
    discovery_timeout_ms: u64,
    discovery_multicast: Ipv4Address,
) -> (r: DownloadStart)
    ensures
        peers@.len() > 0 ==> (r matches DownloadStart::Fetch { peers: p, workers } && p == peers && workers == workers_for(
            parallelism,
            peers@.len(),
        )),
        peers@.len() == 0 ==> (r matches DownloadStart::Discover { options } && options == (DiscoveryOptions {
            port: discovery_port,
            timeout_ms: if discovery_timeout_ms > 1 { discovery_timeout_ms } else { 1 },
            multicast: if discovery_multicast.spec_is_multicast() { Some(discovery_multicast) } else { None },
            verbose: false,
        })),
{
    if peers.len() == 0 {
        let timeout = crate::ipc::commands::download_discovery_timeout_ms(discovery_timeout_ms);
        let options = DiscoveryOptions::new(discovery_port).with_timeout(timeout).with_multicast(discovery_multicast);
        DownloadStart::Discover { options }
    } else {
        let workers = effective_download_parallelism(parallelism, peers.len());
        DownloadStart::Fetch { peers, workers }
    }
}

/// What discovery's outcome leads to: the peers found and the workers for
/// them; no peer found, or discovery failing, ends the job with its answer.
pub fn after_discovery(share_id: ShareId, discovered: Result<Vec<SocketAddress>, String>, parallelism: usize) -> (r: Result<
    (Vec<SocketAddress>, usize),
    IpcResponse,
>)
    ensures
        match discovered {
            Ok(found) => if found@.len() > 0 {
                r matches Ok((peers, workers)) && peers == found && workers == workers_for(parallelism, found@.len())
            } else {
                r matches Err(e) && is_error(
                    e,
                    "no peers discovered for share "@ + share_text(share_id)
                        + "; pass --peer manually or ensure etled discovery is enabled on the LAN"@,
                )
            },
            Err(reason) => r matches Err(e) && is_error(e, "peer discovery failed: "@ + reason@),
        },
{
    match discovered {
        Ok(found) => {
            if found.len() > 0 {
                let workers = effective_download_parallelism(parallelism, found.len());
                Ok((found, workers))
            } else {
                Err(no_peers_discovered_response(share_id))
            }
        },
        Err(reason) => Err(discovery_failed_response(reason.as_str())),
    }
}

} // verus!
