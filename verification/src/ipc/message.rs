//! The messages exchanged over IPC.

use vstd::prelude::*;

use crate::file::descriptor::ShareId;
use crate::net::{Ipv4Address, SocketAddress};

verus! {

/// How the local library holds a share.
#[derive(Clone, Copy, Debug, PartialEq, Eq, Structural)]
pub enum ShareMode {
    Seeding,
    Downloading,
    Completed,
    Paused,
}

/// A request from a client to the daemon.
#[derive(Clone, Debug)]
pub enum IpcCommand {
    Ping,
    ListShares,
    DeleteShare { share_id: ShareId },
    SeedFile { input: String, chunk_size: usize },
    StartServing { listen: SocketAddress },
    StopServing,
    Download {
        share_id: ShareId,
        peers: Vec<SocketAddress>,
        output: Option<String>,
        parallelism: usize,
        request_window: usize,
        discovery_port: u16,
        discovery_timeout_ms: u64,
        discovery_multicast: Ipv4Address,
        auth_psk: Option<String>,
    },
    DownloadFresh {
        share_id: ShareId,
        peers: Vec<SocketAddress>,
        output: Option<String>,
        parallelism: usize,
        request_window: usize,
        discovery_port: u16,
        discovery_timeout_ms: u64,
        discovery_multicast: Ipv4Address,
        auth_psk: Option<String>,
    },
    Pause { share_id: ShareId },
    Resume { share_id: ShareId },
    SubscribeEvents,
    Shutdown,
}

/// The settings a download command carries, whether it resumes or starts
/// afresh: the share, the peers, the output path, the parallelism, the
/// request window, the discovery port, timeout and multicast group, and the
/// pre-shared key; none for other commands.
pub open spec fn download_settings(c: IpcCommand) -> Option<
    (ShareId, Seq<SocketAddress>, Option<Seq<char>>, usize, usize, u16, u64, Ipv4Address, Option<Seq<char>>),
> {
    let text = |t: Option<String>| match t {
        Some(s) => Some(s@),
        None => None,
    };
    match c {
        IpcCommand::Download {
            share_id,
            peers,
            output,
            parallelism,
            request_window,
            discovery_port,
            discovery_timeout_ms,
            discovery_multicast,
            auth_psk,
        } => Some((share_id, peers@, text(output), parallelism, request_window, discovery_port, discovery_timeout_ms, discovery_multicast, text(auth_psk))),
        IpcCommand::DownloadFresh {
            share_id,
            peers,
            output,
            parallelism,
            request_window,
            discovery_port,
            discovery_timeout_ms,
            discovery_multicast,
            auth_psk,
        } => Some((share_id, peers@, text(output), parallelism, request_window, discovery_port, discovery_timeout_ms, discovery_multicast, text(auth_psk))),
        _ => None,
    }
}

/// What a share looks like to a client.
#[derive(Clone, Debug)]
pub struct IpcShareSummary {
    pub share_id: ShareId,
    pub name: String,
    pub completed_chunks: usize,
    pub total_chunks: usize,
    pub has_secret: bool,
    pub mode: Option<String>,
}

impl IpcShareSummary {
    /// A copy of the summary.
    pub fn copy(&self) -> (r: IpcShareSummary)
        ensures
            r == *self,
    {
        IpcShareSummary {
            share_id: self.share_id,
            name: self.name.clone(),
            completed_chunks: self.completed_chunks,
            total_chunks: self.total_chunks,
            has_secret: self.has_secret,
            mode: match &self.mode {
                Some(m) => Some(m.clone()),
                None => None,
            },
        }
    }
}

/// The daemon's answer to a request.
#[derive(Clone, Debug)]
pub enum IpcResponse {
    Pong,
    Ack { message: String },
    Shares { shares: Vec<IpcShareSummary> },
    ShareAdded { share: IpcShareSummary },
    ShareDeleted { share_id: ShareId, name: String },
    TransferQueued { share_id: ShareId, job_id: String },
    TransferCompleted { share_id: ShareId, output: String, file_name: String, file_size: u64, chunks: usize },
    Error { message: String },
}

/// Something the daemon reports to subscribed clients.
#[derive(Clone, Debug)]
pub enum IpcEvent {
    ServerStarted { listen: SocketAddress },
    ServerStopped,
    ShareUpdated { share: IpcShareSummary },
    ShareDeleted { share_id: ShareId },
    PeerConnected { peer_id: String },
    ChunkCompleted { share_id: ShareId, completed_chunks: usize, total_chunks: usize },
    TransferProgress {
        job_id: Option<String>,
        share_id: ShareId,
        completed_chunks: usize,
        total_chunks: usize,
        bytes_done: u64,
        total_bytes: u64,
        bytes_per_second: u64,
    },
    TaskProgress {
        job_id: Option<String>,
        task: String,
        label: String,
        completed_chunks: usize,
        total_chunks: usize,
        bytes_done: u64,
        total_bytes: u64,
        bytes_per_second: u64,
    },
    TransferCompleted { job_id: Option<String>, share_id: ShareId, output: String },
    Error { message: String },
}

} // verus!
