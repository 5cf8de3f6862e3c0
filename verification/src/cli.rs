//! What the command-line client prints of the daemon's answers and events,
//! and the download command it builds from its options.

use vstd::prelude::*;

use crate::bytes::{decimal, decimal_string, hex_lower};
use crate::config::model::{opt_view, EtleConfig, DEFAULT_DOWNLOAD_PARALLELISM, DEFAULT_REQUEST_WINDOW};
use crate::discovery::options::{default_multicast_spec, DEFAULT_DISCOVERY_PORT, DEFAULT_DISCOVERY_TIMEOUT_MS};
use crate::file::descriptor::ShareId;
use crate::gui::board::views;
use crate::ipc::commands::LocalShare;
use crate::ipc::message::{download_settings, IpcCommand, IpcEvent, IpcResponse, IpcShareSummary};
use crate::net::{socket_text, Ipv4Address, SocketAddress};

verus! {

/// The line for a share of the library: its id, mode, chunk counts, whether
/// its key is held, and its name.
pub open spec fn share_line_text(share: IpcShareSummary) -> Seq<char> {
    let mode = match share.mode {
        Some(m) => m@,
        None => "unknown"@,
    };
    "[library] "@ + hex_lower(share.share_id.0@) + "  "@ + mode + "  chunks="@ + decimal(share.completed_chunks as nat) + "/"@
        + decimal(share.total_chunks as nat) + "  "@ + (if share.has_secret { "key=yes"@ } else { "key=no"@ }) + "  name=\""@
        + share.name@ + "\""@
}

/// The lines for the shares of the library, or a line saying there are none.
pub open spec fn shares_text(shares: Seq<IpcShareSummary>) -> Seq<Seq<char>> {
    if shares.len() == 0 {
        seq!["[library] no shares found"@]
    } else {
        shares.map_values(|s: IpcShareSummary| share_line_text(s))
    }
}

/// The optional job id as text, `unknown` when there is none.
pub open spec fn job_text(job_id: Option<String>) -> Seq<char> {
    match job_id {
        Some(j) => j@,
        None => "unknown"@,
    }
}

/// What is printed of an answer of the daemon, or the message of an error
/// answer.
pub open spec fn response_text(response: IpcResponse) -> Result<Seq<Seq<char>>, Seq<char>> {
    match response {
        IpcResponse::Pong => Ok(seq!["[daemon] pong"@]),
        IpcResponse::Ack { message } => Ok(seq!["[daemon] "@ + message@]),
        IpcResponse::Shares { shares } => Ok(shares_text(shares@)),
        IpcResponse::ShareAdded { share } => Ok(seq!["[daemon] share added"@, share_line_text(share)]),
        IpcResponse::ShareDeleted { share_id, name } => Ok(
            seq!["[daemon] share deleted: "@ + hex_lower(share_id.0@) + "  name=\""@ + name@ + "\""@],
        ),
        IpcResponse::TransferQueued { share_id, job_id } => Ok(
            seq!["[daemon] transfer queued: "@ + hex_lower(share_id.0@), "[daemon] job_id: "@ + job_id@],
        ),
        IpcResponse::TransferCompleted { share_id, output, file_name, file_size, chunks } => Ok(
            seq![
                "[daemon] transfer completed"@,
                "[daemon] share_id: "@ + hex_lower(share_id.0@),
                "[daemon] output: "@ + output@,
                "[daemon] file: "@ + file_name@,
                "[daemon] file size: "@ + decimal(file_size as nat) + " bytes"@,
                "[daemon] chunks: "@ + decimal(chunks as nat),
            ],
        ),
        IpcResponse::Error { message } => Err(message@),
    }
}

/// Counts `done` of `total` as `done/total`.
pub open spec fn ratio_text(done: nat, total: nat) -> Seq<char> {
    decimal(done) + "/"@ + decimal(total)
}

/// What is printed of an event of the daemon; errors go to standard error.
pub open spec fn event_text(event: IpcEvent) -> (Seq<Seq<char>>, bool) {
    match event {
        IpcEvent::ServerStarted { listen } => (seq!["[event] server started: "@ + socket_text(listen)], false),
        IpcEvent::ServerStopped => (seq!["[event] server stopped"@], false),
        IpcEvent::ShareUpdated { share } => (seq!["[event] share updated"@, share_line_text(share)], false),
        IpcEvent::ShareDeleted { share_id } => (seq!["[event] share deleted: "@ + hex_lower(share_id.0@)], false),
        IpcEvent::PeerConnected { peer_id } => (seq!["[event] peer connected: "@ + peer_id@], false),
        IpcEvent::ChunkCompleted { share_id, completed_chunks, total_chunks } => (
            seq![
                "[event] chunk completed: "@ + hex_lower(share_id.0@) + " chunks="@ + ratio_text(
                    completed_chunks as nat,
                    total_chunks as nat,
                ),
            ],
            false,
        ),
        IpcEvent::TransferProgress {
            job_id,
            share_id,
            completed_chunks,
            total_chunks,
            bytes_done,
            total_bytes,
            bytes_per_second,
        } => (
            seq![
                "[event] progress: job="@ + job_text(job_id) + " share="@ + hex_lower(share_id.0@) + " chunks="@ + ratio_text(
                    completed_chunks as nat,
                    total_chunks as nat,
                ) + " bytes="@ + ratio_text(bytes_done as nat, total_bytes as nat) + " speed="@ + decimal(bytes_per_second as nat)
                    + " B/s"@,
            ],
            false,
        ),
        IpcEvent::TaskProgress {
            job_id,
            task,
            label,
            completed_chunks,
            total_chunks,
            bytes_done,
            total_bytes,
            bytes_per_second,
        } => (
            seq![
                "[event] task: job="@ + job_text(job_id) + " task="@ + task@ + " label="@ + label@ + " chunks="@ + ratio_text(
                    completed_chunks as nat,
                    total_chunks as nat,
                ) + " bytes="@ + ratio_text(bytes_done as nat, total_bytes as nat) + " speed="@ + decimal(bytes_per_second as nat)
                    + " B/s"@,
            ],
            false,
        ),
        IpcEvent::TransferCompleted { job_id, share_id, output } => (
            seq![
                "[event] transfer completed: job="@ + job_text(job_id) + " share="@ + hex_lower(share_id.0@) + " output="@
                    + output@,
            ],
            false,
        ),
        IpcEvent::Error { message } => (seq!["[event] error: "@ + message@], true),
    }
}

/// The line for a share of the library.
pub fn share_line(share: &IpcShareSummary) -> (r: String)
    ensures
        r@ == share_line_text(*share),
{
    let mut s = "[library] ".to_string();
    s.append(share.share_id.to_string().as_str());
    s.append("  ");
    match &share.mode {
        Some(m) => s.append(m.as_str()),
        None => s.append("unknown"),
    }
    s.append("  chunks=");
    s.append(decimal_string(share.completed_chunks as u64).as_str());
    s.append("/");
    s.append(decimal_string(share.total_chunks as u64).as_str());
    s.append("  ");
    s.append(if share.has_secret { "key=yes" } else { "key=no" });
    s.append("  name=\"");
    s.append(share.name.as_str());
    s.append("\"");
    s
}

/// The lines for the shares of the library.
pub fn shares_lines(shares: &[IpcShareSummary]) -> (r: Vec<String>)
    ensures
        views(r@) == shares_text(shares@),
{
    let mut out: Vec<String> = Vec::new();
    if shares.len() == 0 {
        out.push("[library] no shares found".to_string());
        assert(views(out@) =~= shares_text(shares@));
        return out;
    }
    let mut i: usize = 0;
    while i < shares.len()
        invariant
            i <= shares@.len(),
            views(out@) == shares@.take(i as int).map_values(|s: IpcShareSummary| share_line_text(s)),
        decreases shares@.len() - i,
    {
        let ghost before = out@;
        out.push(share_line(&shares[i]));
        proof {
            assert(views(out@) =~= views(before).push(share_line_text(shares@[i as int])));
            assert(shares@.take(i + 1).map_values(|s: IpcShareSummary| share_line_text(s)) =~= shares@.take(i as int).map_values(
                |s: IpcShareSummary| share_line_text(s),
            ).push(share_line_text(shares@[i as int])));
        }
        i = i + 1;
    }
    assert(shares@.take(shares@.len() as int) =~= shares@);
    out
}

/// One line in a list.
fn one(a: String) -> (r: Vec<String>)
    ensures
        views(r@) == seq![a@],
{
    let mut v: Vec<String> = Vec::new();
    v.push(a);
    assert(views(v@) =~= seq![a@]);
    v
}

/// What is printed of an answer of the daemon (see `response_text`), or the
/// message of an error answer.
pub fn response_lines(response: &IpcResponse) -> (r: Result<Vec<String>, String>)
    ensures
        match response_text(*response) {
            Ok(lines) => r matches Ok(v) && views(v@) == lines,
            Err(m) => r matches Err(e) && e@ == m,
        },
{
    match response {
        IpcResponse::Pong => Ok(one("[daemon] pong".to_string())),
        IpcResponse::Ack { message } => {
            let mut s = "[daemon] ".to_string();
            s.append(message.as_str());
            Ok(one(s))
        },
        IpcResponse::Shares { shares } => Ok(shares_lines(shares.as_slice())),
        IpcResponse::ShareAdded { share } => {
            let mut v: Vec<String> = Vec::new();
            v.push("[daemon] share added".to_string());
            v.push(share_line(share));
            assert(views(v@) =~= seq!["[daemon] share added"@, share_line_text(*share)]);
            Ok(v)
        },
        IpcResponse::ShareDeleted { share_id, name } => {
            let mut s = "[daemon] share deleted: ".to_string();
            s.append(share_id.to_string().as_str());
            s.append("  name=\"");
            s.append(name.as_str());
            s.append("\"");
            Ok(one(s))
        },
        IpcResponse::TransferQueued { share_id, job_id } => {
            let mut a = "[daemon] transfer queued: ".to_string();
            a.append(share_id.to_string().as_str());
            let mut b = "[daemon] job_id: ".to_string();
            b.append(job_id.as_str());
            let mut v: Vec<String> = Vec::new();
            v.push(a);
            v.push(b);
            assert(views(v@) =~= seq![
                "[daemon] transfer queued: "@ + hex_lower(share_id.0@),
                "[daemon] job_id: "@ + job_id@,
            ]);
            Ok(v)
        },
        IpcResponse::TransferCompleted { share_id, output, file_name, file_size, chunks } => {
            let mut v: Vec<String> = Vec::new();
            v.push("[daemon] transfer completed".to_string());
            let mut a = "[daemon] share_id: ".to_string();
            a.append(share_id.to_string().as_str());
            v.push(a);
            let mut b = "[daemon] output: ".to_string();
            b.append(output.as_str());
            v.push(b);
            let mut c = "[daemon] file: ".to_string();
            c.append(file_name.as_str());
            v.push(c);
            let mut d = "[daemon] file size: ".to_string();
            d.append(decimal_string(*file_size).as_str());
            d.append(" bytes");
            v.push(d);
            let mut e = "[daemon] chunks: ".to_string();
            e.append(decimal_string(*chunks as u64).as_str());
            v.push(e);
            assert(views(v@) =~= seq![
                "[daemon] transfer completed"@,
                "[daemon] share_id: "@ + hex_lower(share_id.0@),
                "[daemon] output: "@ + output@,
                "[daemon] file: "@ + file_name@,
                "[daemon] file size: "@ + decimal(*file_size as nat) + " bytes"@,
                "[daemon] chunks: "@ + decimal(*chunks as nat),
            ]);
            Ok(v)
        },
        IpcResponse::Error { message } => Err(message.clone()),
    }
}

/// Appends `done/total`.
fn append_ratio(s: &mut String, done: u64, total: u64)
    ensures
        final(s)@ == old(s)@ + ratio_text(done as nat, total as nat),
{
    s.append(decimal_string(done).as_str());
    s.append("/");
    s.append(decimal_string(total).as_str());
}

/// Appends the job id, or `unknown`.
fn append_job(s: &mut String, job_id: &Option<String>)
    ensures
        final(s)@ == old(s)@ + job_text(*job_id),
{
    match job_id {
        Some(j) => s.append(j.as_str()),
        None => s.append("unknown"),
    }
}

/// What is printed of an event of the daemon (see `event_text`), and whether
/// it goes to standard error.
pub fn event_lines(event: &IpcEvent) -> (r: (Vec<String>, bool))
    ensures
        views(r.0@) == event_text(*event).0,
        r.1 == event_text(*event).1,
{
    match event {
        IpcEvent::ServerStarted { listen } => {
            let mut s = "[event] server started: ".to_string();
            s.append(listen.to_string().as_str());
            (one(s), false)
        },
        IpcEvent::ServerStopped => (one("[event] server stopped".to_string()), false),
        IpcEvent::ShareUpdated { share } => {
            let mut v: Vec<String> = Vec::new();
            v.push("[event] share updated".to_string());
            v.push(share_line(share));
            assert(views(v@) =~= seq!["[event] share updated"@, share_line_text(*share)]);
            (v, false)
        },
        IpcEvent::ShareDeleted { share_id } => {
            let mut s = "[event] share deleted: ".to_string();
            s.append(share_id.to_string().as_str());
            (one(s), false)
        },
        IpcEvent::PeerConnected { peer_id } => {
            let mut s = "[event] peer connected: ".to_string();
            s.append(peer_id.as_str());
            (one(s), false)
        },
        IpcEvent::ChunkCompleted { share_id, completed_chunks, total_chunks } => {
            let mut s = "[event] chunk completed: ".to_string();
            s.append(share_id.to_string().as_str());
            s.append(" chunks=");
            append_ratio(&mut s, *completed_chunks as u64, *total_chunks as u64);
            (one(s), false)
        },
        IpcEvent::TransferProgress {
            job_id,
            share_id,
            completed_chunks,
            total_chunks,
            bytes_done,
            total_bytes,
            bytes_per_second,
        } => {
            let mut s = "[event] progress: job=".to_string();
            append_job(&mut s, job_id);
            s.append(" share=");
            s.append(share_id.to_string().as_str());
            s.append(" chunks=");
            append_ratio(&mut s, *completed_chunks as u64, *total_chunks as u64);
            s.append(" bytes=");
            append_ratio(&mut s, *bytes_done, *total_bytes);
            s.append(" speed=");
            s.append(decimal_string(*bytes_per_second).as_str());
            s.append(" B/s");
            (one(s), false)
        },
        IpcEvent::TaskProgress {
            job_id,
            task,
            label,
            completed_chunks,
            total_chunks,
            bytes_done,
            total_bytes,
            bytes_per_second,
        } => {
            let mut s = "[event] task: job=".to_string();
            append_job(&mut s, job_id);
            s.append(" task=");
            s.append(task.as_str());
            s.append(" label=");
            s.append(label.as_str());
            s.append(" chunks=");
            append_ratio(&mut s, *completed_chunks as u64, *total_chunks as u64);
            s.append(" bytes=");
            append_ratio(&mut s, *bytes_done, *total_bytes);
            s.append(" speed=");
            s.append(decimal_string(*bytes_per_second).as_str());
            s.append(" B/s");
            (one(s), false)
        },
        IpcEvent::TransferCompleted { job_id, share_id, output } => {
            let mut s = "[event] transfer completed: job=".to_string();
            append_job(&mut s, job_id);
            s.append(" share=");
            s.append(share_id.to_string().as_str());
            s.append(" output=");
            s.append(output.as_str());
            (one(s), false)
        },
        IpcEvent::Error { message } => {
            let mut s = "[event] error: ".to_string();
            s.append(message.as_str());
            (one(s), true)
        },
    }
}

/// The options of a download on the command line; each setting left out
/// comes from the configuration.
pub struct DownloadOptions {
    pub peers: Vec<SocketAddress>,
    pub share_id: ShareId,
    pub output: Option<String>,
    pub no_resume: bool,
    pub parallel: Option<usize>,
    pub request_window: Option<usize>,
    pub auth_psk: Option<String>,
    pub discovery_port: Option<u16>,
    pub discovery_timeout_ms: Option<u64>,
    pub discovery_multicast: Option<Ipv4Address>,
}

/// The value, or `default` when there is none.
pub open spec fn value_or<T>(a: Option<T>, default: T) -> T {
    match a {
        Some(x) => x,
        None => default,
    }
}

/// Command `c` is the download that options `o` ask for, each setting left
/// out taken from the configuration `config` (or its default), the
/// pre-shared key from the options, else the environment's `env_psk`, else
/// the configuration; it resumes unless told not to.
pub open spec fn cli_download(o: DownloadOptions, config: EtleConfig, env_psk: Option<String>, c: IpcCommand) -> bool {
    let key = match opt_view(o.auth_psk) {
        Some(k) => Some(k),
        None => match opt_view(env_psk) {
            Some(k) => Some(k),
            None => opt_view(config.auth_psk),
        },
    };
    let fits = |sid: ShareId, ps: Vec<SocketAddress>, out: Option<String>, parallelism: usize, request_window: usize,
        discovery_port: u16, discovery_timeout_ms: u64, discovery_multicast: Ipv4Address, auth_psk: Option<String>|
        {
            &&& sid == o.share_id
            &&& ps == o.peers
            &&& out == o.output
            &&& parallelism == value_or(o.parallel, value_or(config.parallel, DEFAULT_DOWNLOAD_PARALLELISM))
            &&& request_window == value_or(o.request_window, value_or(config.request_window, DEFAULT_REQUEST_WINDOW))
            &&& discovery_port == value_or(o.discovery_port, value_or(config.discovery_port, DEFAULT_DISCOVERY_PORT))
            &&& discovery_timeout_ms == value_or(
                o.discovery_timeout_ms,
                value_or(config.discovery_timeout_ms, DEFAULT_DISCOVERY_TIMEOUT_MS),
            )
            &&& discovery_multicast == value_or(o.discovery_multicast, value_or(config.discovery_multicast, default_multicast_spec()))
            &&& opt_view(auth_psk) == key
        };
    match c {
        IpcCommand::Download {
            share_id,
            peers,
            output,
            parallelism,
            request_window,
            discovery_port,
            discovery_timeout_ms,
            discovery_multicast,
            auth_psk,
        } => !o.no_resume && fits(
            share_id,
            peers,
            output,
            parallelism,
            request_window,
            discovery_port,
            discovery_timeout_ms,
            discovery_multicast,
            auth_psk,
        ),
        IpcCommand::DownloadFresh {
            share_id,
            peers,
            output,
            parallelism,
            request_window,
            discovery_port,
            discovery_timeout_ms,
            discovery_multicast,
            auth_psk,
        } => o.no_resume && fits(
            share_id,
            peers,
            output,
            parallelism,
            request_window,
            discovery_port,
            discovery_timeout_ms,
            discovery_multicast,
            auth_psk,
        ),
        _ => false,
    }
}

/// A download setting given on the command line wins over the configuration,
/// and the configuration over the built-in default; a key given on the
/// command line wins over the environment's, which wins over the configured
/// one; the share, peers and output are the ones given; and the download
/// starts afresh exactly when told not to resume.
pub proof fn lemma_command_line_wins(o: DownloadOptions, config: EtleConfig, env_psk: Option<String>, c: IpcCommand)
    requires
        cli_download(o, config, env_psk, c),
    ensures
        (c is DownloadFresh) == o.no_resume,
        download_settings(c) matches Some((sid, ps, out, parallelism, window, port, timeout, group, key)) && {
            &&& sid == o.share_id
            &&& ps == o.peers@
            &&& out == opt_view(o.output)
            &&& (o.parallel matches Some(p) ==> parallelism == p)
            &&& (o.parallel is None ==> (config.parallel matches Some(p) ==> parallelism == p))
            &&& (o.parallel is None && config.parallel is None ==> parallelism == DEFAULT_DOWNLOAD_PARALLELISM)
            &&& (o.request_window matches Some(w) ==> window == w)
            &&& (o.request_window is None ==> (config.request_window matches Some(w) ==> window == w))
            &&& (o.request_window is None && config.request_window is None ==> window == DEFAULT_REQUEST_WINDOW)
            &&& (o.discovery_port matches Some(p) ==> port == p)
            &&& (o.discovery_port is None ==> (config.discovery_port matches Some(p) ==> port == p))
            &&& (o.discovery_port is None && config.discovery_port is None ==> port == DEFAULT_DISCOVERY_PORT)
            &&& (o.discovery_timeout_ms matches Some(t) ==> timeout == t)
            &&& (o.discovery_timeout_ms is None ==> (config.discovery_timeout_ms matches Some(t) ==> timeout == t))
            &&& (o.discovery_timeout_ms is None && config.discovery_timeout_ms is None ==> timeout == DEFAULT_DISCOVERY_TIMEOUT_MS)
            &&& (o.discovery_multicast matches Some(m) ==> group == m)
            &&& (o.discovery_multicast is None ==> (config.discovery_multicast matches Some(m) ==> group == m))
            &&& (o.discovery_multicast is None && config.discovery_multicast is None ==> group == default_multicast_spec())
            &&& (o.auth_psk matches Some(k) ==> key == Some(k@))
            &&& (o.auth_psk is None ==> (env_psk matches Some(k) ==> key == Some(k@)))
            &&& (o.auth_psk is None && env_psk is None ==> key == opt_view(config.auth_psk))
        },
{
}

/// The download command for the command line's options (see
/// `cli_download`).
pub fn cli_download_command(options: DownloadOptions, config: &EtleConfig, env_psk: Option<String>) -> (r: IpcCommand)
    ensures
        cli_download(options, *config, env_psk, r),
{
    let parallelism = match options.parallel {
        Some(p) => p,
        None => config.parallel(),
    };
    let request_window = match options.request_window {
        Some(w) => w,
        None => config.request_window(),
    };
    let discovery_port = match options.discovery_port {
        Some(p) => p,
        None => config.discovery_port(),
    };
    let discovery_timeout_ms = match options.discovery_timeout_ms {
        Some(t) => t,
        None => config.discovery_timeout_ms(),
    };
    let discovery_multicast = match options.discovery_multicast {
        Some(m) => m,
        None => config.discovery_multicast(),
    };
    let auth_psk = match options.auth_psk {
        Some(k) => Some(k),
        None => match env_psk {
            Some(k) => Some(k),
            None => config.auth_psk(),
        },
    };
    if options.no_resume {
        IpcCommand::DownloadFresh {
            share_id: options.share_id,
            peers: options.peers,
            output: options.output,
            parallelism,
            request_window,
            discovery_port,
            discovery_timeout_ms,
            discovery_multicast,
            auth_psk,
        }
    } else {
        IpcCommand::Download {
            share_id: options.share_id,
            peers: options.peers,
            output: options.output,
            parallelism,
            request_window,
            discovery_port,
            discovery_timeout_ms,
            discovery_multicast,
            auth_psk,
        }
    }
}

/// The daemon's line for a local share: its id, chunk counts, whether its
/// key is held, and its name.
pub open spec fn daemon_share_text(share: LocalShare) -> Seq<char> {
    "[daemon] share "@ + hex_lower(share.share_id.0@) + "  chunks="@ + ratio_text(share.completed_chunks as nat, share.total_chunks as nat)
        + "  "@ + (if share.has_secret { "key=yes"@ } else { "key=no"@ }) + "  name=\""@ + share.name@ + "\""@
}

/// What the daemon prints when it starts: where it listens, its library,
/// how it runs, and its local shares.
pub open spec fn startup_banner_text(library_root: Seq<char>, listen: SocketAddress, shares: Seq<LocalShare>) -> Seq<Seq<char>> {
    seq![
        "[daemon] etled starting"@,
        "[daemon] listen address: "@ + socket_text(listen),
        "[daemon] library root: "@ + library_root,
        "[daemon] mode: foreground; press Ctrl+C to stop"@,
        "[daemon] peers must request a share_id with RequestShare"@,
    ] + if shares.len() == 0 {
        seq!["[daemon] no local shares found yet"@]
    } else {
        seq!["[daemon] loaded "@ + decimal(shares.len()) + " local share(s)"@] + shares.map_values(|s: LocalShare| daemon_share_text(s))
    }
}

/// The daemon's line for a local share.
fn daemon_share_line(share: &LocalShare) -> (r: String)
    ensures
        r@ == daemon_share_text(*share),
{
    let mut s = "[daemon] share ".to_string();
    s.append(share.share_id.to_string().as_str());
    s.append("  chunks=");
    append_ratio(&mut s, share.completed_chunks as u64, share.total_chunks as u64);
    s.append("  ");
    s.append(if share.has_secret { "key=yes" } else { "key=no" });
    s.append("  name=\"");
    s.append(share.name.as_str());
    s.append("\"");
    s
}

/// What the daemon prints when it starts (see `startup_banner_text`).
pub fn startup_banner_lines(library_root: &str, listen: SocketAddress, shares: &[LocalShare]) -> (r: Vec<String>)
    ensures
        views(r@) == startup_banner_text(library_root@, listen, shares@),
{
    let mut out: Vec<String> = Vec::new();
    out.push("[daemon] etled starting".to_string());
    let mut a = "[daemon] listen address: ".to_string();
    a.append(listen.to_string().as_str());
    out.push(a);
    let mut b = "[daemon] library root: ".to_string();
    b.append(library_root);
    out.push(b);
    out.push("[daemon] mode: foreground; press Ctrl+C to stop".to_string());
    out.push("[daemon] peers must request a share_id with RequestShare".to_string());
    let ghost head = views(out@);
    if shares.len() == 0 {
        out.push("[daemon] no local shares found yet".to_string());
        assert(views(out@) =~= startup_banner_text(library_root@, listen, shares@));
        return out;
    }
    let mut c = "[daemon] loaded ".to_string();
    c.append(decimal_string(shares.len() as u64).as_str());
    c.append(" local share(s)");
    out.push(c);
    let ghost top = views(out@);
    let mut i: usize = 0;
    while i < shares.len()
        invariant
            i <= shares@.len(),
            views(out@) == top + shares@.take(i as int).map_values(|s: LocalShare| daemon_share_text(s)),
        decreases shares@.len() - i,
    {
        let ghost before = out@;
        out.push(daemon_share_line(&shares[i]));
        proof {
            assert(views(out@) =~= views(before).push(daemon_share_text(shares@[i as int])));
            assert(shares@.take(i + 1).map_values(|s: LocalShare| daemon_share_text(s)) =~= shares@.take(i as int).map_values(
                |s: LocalShare| daemon_share_text(s),
            ).push(daemon_share_text(shares@[i as int])));
        }
        i = i + 1;
    }
    assert(shares@.take(shares@.len() as int) =~= shares@);
    assert(views(out@) =~= startup_banner_text(library_root@, listen, shares@));
    out
}

} // verus!
