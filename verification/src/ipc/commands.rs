//! The daemon's answers to IPC requests, and the decisions around transfers
//! that it makes on plain values.

use vstd::prelude::*;

use crate::bytes::{decimal, decimal_string, hex_lower};
use crate::file::chunker::DEFAULT_CHUNK_SIZE;
use crate::file::descriptor::ShareId;
use crate::file::manifest::Manifest;
use crate::ipc::message::{IpcCommand, IpcResponse, IpcShareSummary, ShareMode};
use crate::path::{ends_in_parent, normal_name, path_file_name, written_path};

verus! {

/// What the daemon does with a request that it answers at once: reply, or
/// consult the library to list shares or delete one.
#[derive(Debug)]
pub enum DaemonAction {
    Reply(IpcResponse),
    ListShares,
    DeleteShare(ShareId),
}

/// `r` acknowledges with `text`.
pub open spec fn is_ack(r: IpcResponse, text: Seq<char>) -> bool {
    r matches IpcResponse::Ack { message } && message@ == text
}

/// `r` reports the error `text`.
pub open spec fn is_error(r: IpcResponse, text: Seq<char>) -> bool {
    r matches IpcResponse::Error { message } && message@ == text
}

fn ack(text: &str) -> (r: IpcResponse)
    ensures
        is_ack(r, text@),
{
    IpcResponse::Ack { message: text.to_string() }
}

fn error(text: &str) -> (r: IpcResponse)
    ensures
        is_error(r, text@),
{
    IpcResponse::Error { message: text.to_string() }
}

/// The daemon's immediate answer to a request: `Ping` gets `Pong`; listing
/// and deleting shares consult the library; the rest get a fixed
/// acknowledgement or error.
pub fn handle(command: &IpcCommand) -> (r: DaemonAction)
    ensures
        match *command {
            IpcCommand::Ping => r matches DaemonAction::Reply(IpcResponse::Pong),
            IpcCommand::ListShares => r is ListShares,
            IpcCommand::DeleteShare { share_id } => r matches DaemonAction::DeleteShare(s) && s == share_id,
            IpcCommand::Shutdown => r matches DaemonAction::Reply(x) && is_ack(x, "daemon shutdown requested"@),
            IpcCommand::StartServing { .. } => r matches DaemonAction::Reply(x) && is_ack(x, "P2P serving is already managed by etled serve"@),
            IpcCommand::StopServing => r matches DaemonAction::Reply(x) && is_error(x, "stopping only the P2P server is not implemented yet; use Shutdown"@),
            IpcCommand::SeedFile { .. } => r matches DaemonAction::Reply(x) && is_error(x, "seed requires async daemon handling"@),
            IpcCommand::Download { .. } => r matches DaemonAction::Reply(x) && is_error(x, "download requires async daemon handling"@),
            IpcCommand::DownloadFresh { .. } => r matches DaemonAction::Reply(x) && is_error(x, "download requires async daemon handling"@),
            IpcCommand::Pause { .. } => r matches DaemonAction::Reply(x) && is_error(x, "pause/resume control is not implemented yet"@),
            IpcCommand::Resume { .. } => r matches DaemonAction::Reply(x) && is_error(x, "pause/resume control is not implemented yet"@),
            IpcCommand::SubscribeEvents => r matches DaemonAction::Reply(x) && is_ack(x, "use a streaming IPC connection to subscribe to events"@),
        },
{
    match command {
        IpcCommand::Ping => DaemonAction::Reply(IpcResponse::Pong),
        IpcCommand::ListShares => DaemonAction::ListShares,
        IpcCommand::DeleteShare { share_id } => DaemonAction::DeleteShare(*share_id),
        IpcCommand::Shutdown => DaemonAction::Reply(ack("daemon shutdown requested")),
        IpcCommand::StartServing { .. } => DaemonAction::Reply(ack("P2P serving is already managed by etled serve")),
        IpcCommand::StopServing => DaemonAction::Reply(error("stopping only the P2P server is not implemented yet; use Shutdown")),
        IpcCommand::SeedFile { .. } => DaemonAction::Reply(error("seed requires async daemon handling")),
        IpcCommand::Download { .. } => DaemonAction::Reply(error("download requires async daemon handling")),
        IpcCommand::DownloadFresh { .. } => DaemonAction::Reply(error("download requires async daemon handling")),
        IpcCommand::Pause { .. } => DaemonAction::Reply(error("pause/resume control is not implemented yet")),
        IpcCommand::Resume { .. } => DaemonAction::Reply(error("pause/resume control is not implemented yet")),
        IpcCommand::SubscribeEvents => DaemonAction::Reply(ack("use a streaming IPC connection to subscribe to events")),
    }
}

/// The word for a share mode.
pub open spec fn share_mode_word(mode: ShareMode) -> Seq<char> {
    match mode {
        ShareMode::Seeding => "seeding"@,
        ShareMode::Downloading => "downloading"@,
        ShareMode::Completed => "completed"@,
        ShareMode::Paused => "paused"@,
    }
}

/// The word for a share mode.
pub fn format_share_mode(mode: ShareMode) -> (r: &'static str)
    ensures
        r@ == share_mode_word(mode),
{
    match mode {
        ShareMode::Seeding => "seeding",
        ShareMode::Downloading => "downloading",
        ShareMode::Completed => "completed",
        ShareMode::Paused => "paused",
    }
}

/// A share of the local library, as the library reports it.
#[derive(Debug)]
pub struct LocalShare {
    pub share_id: ShareId,
    pub name: String,
    pub completed_chunks: usize,
    pub total_chunks: usize,
    pub has_secret: bool,
    pub mode: Option<ShareMode>,
}

/// `r` is what a client is told of local share `share`: its id, name, chunk
/// counts, whether its key is held, and the word for its mode.
pub open spec fn summary_of(share: LocalShare, r: IpcShareSummary) -> bool {
    &&& r.share_id == share.share_id
    &&& r.name@ == share.name@
    &&& r.completed_chunks == share.completed_chunks
    &&& r.total_chunks == share.total_chunks
    &&& r.has_secret == share.has_secret
    &&& match share.mode {
        Some(m) => r.mode matches Some(w) && w@ == share_mode_word(m),
        None => r.mode is None,
    }
}

/// What a client is told of a local share (see `summary_of`).
pub fn ipc_share_summary_from_local(share: LocalShare) -> (r: IpcShareSummary)
    ensures
        summary_of(share, r),
{
    let mode = match share.mode {
        Some(m) => Some(format_share_mode(m).to_string()),
        None => None,
    };
    IpcShareSummary {
        share_id: share.share_id,
        name: share.name,
        completed_chunks: share.completed_chunks,
        total_chunks: share.total_chunks,
        has_secret: share.has_secret,
        mode,
    }
}

/// The answer to listing shares, given what the library listed or why it
/// could not.
pub fn list_shares_response(listed: Result<Vec<LocalShare>, String>) -> (r: IpcResponse)
    ensures
        match listed {
            Ok(shares) => r matches IpcResponse::Shares { shares: out } && out@.len() == shares@.len()
                && forall|i: int| 0 <= i < out@.len() ==> summary_of(shares@[i], #[trigger] out@[i]),
            Err(message) => is_error(r, message@),
        },
{
    match listed {
        Ok(shares) => {
            let ghost all = shares@;
            let mut rest = shares;
            let mut out: Vec<IpcShareSummary> = Vec::new();
            let mut i: usize = 0;
            let n = rest.len();
            while i < n
                invariant
                    n == all.len(),
                    i <= n,
                    rest@ == all.skip(i as int),
                    out@.len() == i,
                    forall|k: int| 0 <= k < i ==> summary_of(all[k], #[trigger] out@[k]),
                decreases n - i,
            {
                let share = rest.remove(0);
                assert(share == all[i as int]);
                out.push(ipc_share_summary_from_local(share));
                i = i + 1;
                assert(rest@ =~= all.skip(i as int));
            }
            IpcResponse::Shares { shares: out }
        },
        Err(message) => IpcResponse::Error { message },
    }
}

/// The text of a share id.
pub open spec fn share_text(share_id: ShareId) -> Seq<char> {
    hex_lower(share_id.0@)
}

/// The first step of deleting a share: the share, when the library has it;
/// otherwise the error answer.
pub fn delete_share_lookup(share_id: ShareId, found: Result<Option<IpcShareSummary>, String>) -> (r: Result<IpcShareSummary, IpcResponse>)
    ensures
        match found {
            Ok(Some(share)) => r matches Ok(s) && s.share_id == share.share_id && s.name@ == share.name@,
            Ok(None) => r matches Err(x) && is_error(x, "share "@ + share_text(share_id) + " does not exist in the local library"@),
            Err(message) => r matches Err(x) && is_error(x, message@),
        },
{
    match found {
        Ok(Some(share)) => Ok(share),
        Ok(None) => {
            let mut message = "share ".to_string();
            message.append(share_id.to_string().as_str());
            message.append(" does not exist in the local library");
            Err(IpcResponse::Error { message })
        },
        Err(message) => Err(IpcResponse::Error { message }),
    }
}

/// The answer to deleting a share that the library had, given the outcome of
/// the deletion: whether it removed it, or why it failed.
pub fn delete_share_outcome(share_id: ShareId, share: IpcShareSummary, deleted: Result<bool, String>) -> (r: IpcResponse)
    ensures
        match deleted {
            Ok(true) => r matches IpcResponse::ShareDeleted { share_id: s, name } && s == share_id && name@ == share.name@,
            Ok(false) => is_error(r, "share "@ + share_text(share_id) + " disappeared before it could be deleted"@),
            Err(message) => is_error(r, message@),
        },
{
    match deleted {
        Ok(true) => IpcResponse::ShareDeleted { share_id, name: share.name },
        Ok(false) => {
            let mut message = "share ".to_string();
            message.append(share_id.to_string().as_str());
            message.append(" disappeared before it could be deleted");
            IpcResponse::Error { message }
        },
        Err(message) => IpcResponse::Error { message },
    }
}

/// How many download workers run: the requested number, or, when 0 is
/// requested, one per peer and at least one.
pub fn effective_download_parallelism(requested_parallelism: usize, peer_count: usize) -> (r: usize)
    ensures
        r == if requested_parallelism == 0 { if peer_count > 1 { peer_count } else { 1 } } else { requested_parallelism },
{
    if requested_parallelism == 0 {
        if peer_count > 1 { peer_count } else { 1 }
    } else {
        requested_parallelism
    }
}

/// The chunk size a seed request uses: the requested one, or the default for 0.
pub fn seed_chunk_size(chunk_size: usize) -> (r: usize)
    ensures
        r == if chunk_size == 0 { DEFAULT_CHUNK_SIZE } else { chunk_size },
{
    if chunk_size == 0 { DEFAULT_CHUNK_SIZE } else { chunk_size }
}

/// How long peer discovery for a download waits: the requested milliseconds,
/// at least one.
pub fn download_discovery_timeout_ms(requested: u64) -> (r: u64)
    ensures
        r == if requested > 1 { requested } else { 1 },
{
    if requested > 1 { requested } else { 1 }
}

/// The answer to a finished download.
pub fn transfer_completed_response(share_id: ShareId, output: String, manifest: &Manifest) -> (r: IpcResponse)
    ensures
        r matches IpcResponse::TransferCompleted { share_id: s, output: o, file_name, file_size, chunks } && {
            &&& s == share_id
            &&& o@ == output@
            &&& file_name@ == manifest.file_name@
            &&& file_size == manifest.file_size
            &&& chunks == manifest.chunks@.len()
        },
{
    IpcResponse::TransferCompleted {
        share_id,
        output,
        file_name: manifest.file_name.clone(),
        file_size: manifest.file_size,
        chunks: manifest.chunks.len(),
    }
}

/// The error answer when discovery found no peer for a share.
pub fn no_peers_discovered_response(share_id: ShareId) -> (r: IpcResponse)
    ensures
        is_error(r, "no peers discovered for share "@ + share_text(share_id)
            + "; pass --peer manually or ensure etled discovery is enabled on the LAN"@),
{
    let mut message = "no peers discovered for share ".to_string();
    message.append(share_id.to_string().as_str());
    message.append("; pass --peer manually or ensure etled discovery is enabled on the LAN");
    IpcResponse::Error { message }
}

/// The error answer when peer discovery itself failed.
pub fn discovery_failed_response(reason: &str) -> (r: IpcResponse)
    ensures
        is_error(r, "peer discovery failed: "@ + reason@),
{
    let mut message = "peer discovery failed: ".to_string();
    message.append(reason);
    IpcResponse::Error { message }
}

/// The acknowledgement of a queued seed job.
pub fn seed_queued_response(input_label: &str) -> (r: IpcResponse)
    ensures
        is_ack(r, "seed job queued: "@ + input_label@),
{
    let mut message = "seed job queued: ".to_string();
    message.append(input_label);
    IpcResponse::Ack { message }
}

/// The error answer when a seeded share is missing from the library.
pub fn seeded_share_missing_response(share_id: ShareId) -> (r: IpcResponse)
    ensures
        is_error(r, "share "@ + share_text(share_id) + " was added but cannot be found in the local library"@),
{
    let mut message = "share ".to_string();
    message.append(share_id.to_string().as_str());
    message.append(" was added but cannot be found in the local library");
    IpcResponse::Error { message }
}

/// The id of a transfer job: `prefix-shareid-millis-pid`.
pub fn job_id(prefix: &str, share_id: ShareId, millis: u64, process_id: u32) -> (r: String)
    ensures
        r@ == prefix@ + "-"@ + share_text(share_id) + "-"@ + decimal(millis as nat) + "-"@ + decimal(process_id as nat),
{
    let mut s = prefix.to_string();
    s.append("-");
    s.append(share_id.to_string().as_str());
    s.append("-");
    s.append(decimal_string(millis).as_str());
    s.append("-");
    s.append(decimal_string(process_id as u64).as_str());
    s
}

/// The file name of a daemon download in progress.
pub fn temporary_download_file_name(process_id: u32) -> (r: String)
    ensures
        r@ == ".etle-download-daemon-"@ + decimal(process_id as nat) + ".part"@,
{
    let mut s = ".etle-download-daemon-".to_string();
    s.append(decimal_string(process_id as u64).as_str());
    s.append(".part");
    s
}

/// A name for a downloaded file that cannot escape its directory: the final
/// component of the recorded name, or `downloaded-file` when there is none.
pub fn safe_output_file_name(file_name: &str) -> (r: String)
    ensures
        r@.len() > 0,
        normal_name(file_name@) ==> r@ == file_name@,
        forall|rooted: bool, parts: Seq<Seq<char>>| #[trigger] written_path(rooted, parts, file_name@) ==>
            r@ == if parts.len() > 0 { parts.last() } else { "downloaded-file"@ },
        ends_in_parent(file_name@) ==> r@ == "downloaded-file"@,
{
    match path_file_name(file_name) {
        Some(name) => {
            if name.as_str().is_empty() {
                proof {
                    reveal_strlit("downloaded-file");
                }
                "downloaded-file".to_string()
            } else {
                name
            }
        },
        None => {
            proof {
                reveal_strlit("downloaded-file");
            }
            "downloaded-file".to_string()
        },
    }
}

/// The name of copy `index` of a file with stem `stem`: `stem (index).ext`, or
/// `stem (index)` without an extension.
pub fn copy_file_name(stem: &str, extension: Option<&str>, index: u32) -> (r: String)
    ensures
        r@ == stem@ + " ("@ + decimal(index as nat) + ")"@ + match extension {
            Some(e) => "."@ + e@,
            None => Seq::empty(),
        },
{
    let mut s = stem.to_string();
    s.append(" (");
    s.append(decimal_string(index as u64).as_str());
    s.append(")");
    match extension {
        Some(e) => {
            s.append(".");
            s.append(e);
        },
        None => {},
    }
    s
}

} // verus!
