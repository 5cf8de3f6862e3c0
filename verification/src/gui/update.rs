//! What the desktop client does with each input: the decisions of its
//! update loop, as a step from state and input to the next state and the
//! actions its shell performs (requests, event subscriptions, inputs fed back).

use vstd::prelude::*;

use crate::bytes::{decimal, decimal_string, hex_lower};
use crate::file::chunker::DEFAULT_CHUNK_SIZE;
use crate::file::descriptor::ShareId;
use crate::gui::activity::{after_log, newest, ActivityLog, MIN_ACTIVITY_LIMIT};
use crate::gui::board::{add_keys, upserted, unfinished, finished_keys, TransferBoard};
use crate::gui::client::{logged, response_applied, EtleGui, GuiInit, LatestProgress};
use crate::gui::events::event_applied;
use crate::gui::format::{file_label, is_path_label, non_empty};
use crate::gui::model::{
    download_command, download_form, DownloadSettings, GuiTransfer, IpcRequestKind, TransferKind, TransferStatus,
    DEFAULT_ACTIVITY_LIMIT, DEFAULT_REFRESH_INTERVAL_SECS,
};
use crate::gui::sync::bumped;
use crate::ipc::message::{IpcCommand, IpcEvent, IpcResponse, IpcShareSummary};
use crate::net::{parse_ipv4, parse_ipv4_spec};
use crate::path::{is_written_path, path_eq, written_path};
use crate::text::{str_equal, trimmed};

verus! {

/// An input of the desktop client: a user's action, a tick of its refresh
/// timer, or what came back from the daemon.
pub enum AppInput {
    ApplySocketText(String),
    Connect,
    Refresh,
    /// The refresh timer ticked, `elapsed_secs` after the last refresh began.
    AutoRefreshTick { elapsed_secs: u64 },
    StartWatch,
    IpcResponse { socket_path: String, kind: IpcRequestKind, result: Result<IpcResponse, String> },
    IpcEvent { generation: u64, event: IpcEvent },
    IpcWatchStopped { generation: u64, error: String },
    SelectShare(usize),
    CopySelectedShareId,
    /// The shell put a share id on the clipboard.
    ShareIdCopied,
    ClearLog,
    ClearFinishedTransfers,
    AddSeedPathText(String),
    AddSeedFile(String),
    BrowseSeedFiles,
    SelectSeedFile(usize),
    RemoveSelectedSeedFile,
    ClearSeedFiles,
    SetSeedChunkSize(usize),
    StartSeedSelected,
    SetParallelism(usize),
    SetRequestWindow(usize),
    SetDiscoveryPort(u16),
    SetDiscoveryTimeout(u64),
    SetResume(bool),
    StartDownloadFromForm { share_id: String, peers: String, output: String, auth_psk: String, discovery_multicast: String },
    ApplySettings { socket_path: String, auth_psk: String },
    SetAutoRefresh(bool),
    SetClearActivityOnTask(bool),
    SetRefreshInterval(u64),
    SetActivityLimit(usize),
}

/// What the client's shell is asked to do after an input.
pub enum GuiAction {
    /// Send `command` to the daemon at `socket_path`; the answer comes back
    /// as an `IpcResponse` input of `kind`.
    Send { socket_path: String, kind: IpcRequestKind, command: IpcCommand },
    /// Subscribe to the daemon's events at `socket_path`; they come back as
    /// `IpcEvent` inputs of `generation`.
    Watch { socket_path: String, generation: u64 },
    /// Feed `input` back to the client.
    Input(AppInput),
    /// Put the share id text on the clipboard, then feed back
    /// `ShareIdCopied` once it is there.
    CopyShareId(String),
    /// Let the user pick seed files, each fed back as `AddSeedFile`.
    BrowseSeedFiles,
    /// Log the latest progress line.
    LogLatest,
}

/// The three inputs that bring the client up to date with its endpoint.
pub open spec fn reconnect_inputs(actions: Seq<GuiAction>) -> bool {
    &&& actions.len() == 3
    &&& actions[0] matches GuiAction::Input(AppInput::Connect)
    &&& actions[1] matches GuiAction::Input(AppInput::Refresh)
    &&& actions[2] matches GuiAction::Input(AppInput::StartWatch)
}

/// Log `b` is log `a` emptied when a new task clears the activity, else `a`.
pub open spec fn cleared_for_task(a: ActivityLog, clear: bool, b: ActivityLog) -> bool {
    if clear {
        &&& b.lines_view() == Seq::<Seq<char>>::empty()
        &&& b.last_view() is None
        &&& b.limit == a.limit
    } else {
        b == a
    }
}

/// Applying the socket draft: a blank draft is ignored (and logged); a new
/// endpoint starts a new watch generation and forgets the connection, the
/// watch, the refresh in flight and the shares; then the client reconnects.
pub open spec fn socket_applied(old: EtleGui, time: Seq<char>, new: EtleGui, actions: Seq<GuiAction>) -> bool {
    let next = trimmed(old.socket_draft@);
    if next.len() == 0 {
        &&& new == (EtleGui { activity: new.activity, ..old })
        &&& logged(old.activity, time, "socket: empty path ignored"@, new.activity)
        &&& actions.len() == 0
    } else {
        &&& reconnect_inputs(actions)
        &&& if next != old.active_socket_path@ {
            &&& new == (EtleGui {
                watch_generation: bumped(old.watch_generation),
                active_socket_path: new.active_socket_path,
                connected: false,
                watching: false,
                refresh_inflight: false,
                selected_share: None,
                shares: new.shares,
                activity: new.activity,
                ..old
            })
            &&& new.active_socket_path@ == next
            &&& new.shares@.len() == 0
            &&& logged(old.activity, time, "socket applied: "@ + next, new.activity)
        } else {
            new == old
        }
    }
}

/// Connecting: with no endpoint the client is offline (and logs it);
/// otherwise it pings the daemon.
pub open spec fn connect_applied(old: EtleGui, time: Seq<char>, new: EtleGui, actions: Seq<GuiAction>) -> bool {
    if trimmed(old.active_socket_path@).len() == 0 {
        &&& new == (EtleGui { connected: false, status: new.status, activity: new.activity, ..old })
        &&& new.status@ == "offline"@
        &&& logged(old.activity, time, "ipc: empty socket path"@, new.activity)
        &&& actions.len() == 0
    } else {
        &&& new == (EtleGui { connected: false, status: new.status, ..old })
        &&& new.status@ == "checking"@
        &&& actions.len() == 1
        &&& actions[0] == (GuiAction::Send {
            socket_path: old.active_socket_path,
            kind: IpcRequestKind::Ping,
            command: IpcCommand::Ping,
        })
    }
}

/// Refreshing: nothing while a refresh is in flight; otherwise the shares
/// are asked for.
pub open spec fn refresh_started(old: EtleGui, new: EtleGui, actions: Seq<GuiAction>) -> bool {
    if old.refresh_inflight {
        new == old && actions.len() == 0
    } else {
        &&& new == (EtleGui { status: new.status, refresh_inflight: true, ..old })
        &&& new.status@ == "refreshing"@
        &&& actions.len() == 1
        &&& actions[0] == (GuiAction::Send {
            socket_path: old.active_socket_path,
            kind: IpcRequestKind::ListShares,
            command: IpcCommand::ListShares,
        })
    }
}

/// Starting to watch events: with no endpoint the client is offline; an
/// active watch is kept; otherwise a new watch generation subscribes.
pub open spec fn watch_started(old: EtleGui, time: Seq<char>, new: EtleGui, actions: Seq<GuiAction>) -> bool {
    if trimmed(old.active_socket_path@).len() == 0 {
        &&& new == (EtleGui { connected: false, status: new.status, activity: new.activity, ..old })
        &&& new.status@ == "offline"@
        &&& logged(old.activity, time, "event watch: empty IPC endpoint"@, new.activity)
        &&& actions.len() == 0
    } else if old.watching {
        &&& new == (EtleGui { activity: new.activity, ..old })
        &&& logged(old.activity, time, "watch already active"@, new.activity)
        &&& actions.len() == 0
    } else {
        &&& new == (EtleGui { watch_generation: bumped(old.watch_generation), watching: true, activity: new.activity, ..old })
        &&& logged(old.activity, time, "watch: subscribing to daemon events"@, new.activity)
        &&& actions.len() == 1
        &&& actions[0] == (GuiAction::Watch { socket_path: old.active_socket_path, generation: bumped(old.watch_generation) })
    }
}

/// Adding `path` to the seed queue: an empty path is ignored; a path already
/// queued (as a path: texts that are equal always are, and paths written as
/// normal names with `/` between them are exactly when their texts are) is
/// logged and left; otherwise it joins the queue, is logged, and is selected
/// when nothing was.
pub open spec fn seed_added(old: EtleGui, path: String, time: Seq<char>, new: EtleGui) -> bool {
    let already = new == (EtleGui { activity: new.activity, ..old }) && logged(
        old.activity,
        time,
        "seed queue: already added "@ + path@,
        new.activity,
    );
    let added = {
        &&& new == (EtleGui { seed_files: new.seed_files, selected_seed_file: new.selected_seed_file, activity: new.activity, ..old })
        &&& new.seed_files@ == old.seed_files@.push(path)
        &&& new.selected_seed_file == match old.selected_seed_file {
            None => Some(0usize),
            Some(i) => Some(i),
        }
        &&& logged(old.activity, time, "seed queue: added "@ + path@, new.activity)
    };
    if path@.len() == 0 {
        new == old
    } else if exists|k: int| 0 <= k < old.seed_files@.len() && (#[trigger] old.seed_files@[k])@ == path@ {
        already
    } else if is_written_path(path@) && forall|k: int| 0 <= k < old.seed_files@.len() ==> is_written_path((#[trigger] old.seed_files@[k])@) {
        added
    } else {
        already || added
    }
}

/// The selection after removing entry `index` from a queue that has `len`
/// entries left: none when it is empty, else the same place or the last.
pub open spec fn selection_after_removal(index: usize, len: nat) -> Option<usize> {
    if len == 0 {
        None
    } else if index < len {
        Some(index)
    } else {
        Some((len - 1) as usize)
    }
}

/// Removing the selected seed file, when one is selected and exists.
pub open spec fn seed_removed(old: EtleGui, time: Seq<char>, new: EtleGui) -> bool {
    match old.selected_seed_file {
        Some(i) => if i < old.seed_files@.len() {
            &&& new == (EtleGui { seed_files: new.seed_files, selected_seed_file: new.selected_seed_file, activity: new.activity, ..old })
            &&& new.seed_files@ == old.seed_files@.remove(i as int)
            &&& new.selected_seed_file == selection_after_removal(i, new.seed_files@.len())
            &&& logged(old.activity, time, "seed queue: removed "@ + old.seed_files@[i as int]@, new.activity)
        } else {
            new == old
        },
        None => new == old,
    }
}

/// `c` is the running card for seeding `path`, at update sequence `seq`,
/// labelled as the path (see `is_path_label`).
pub open spec fn seed_card(path: Seq<char>, seq: u64, c: GuiTransfer) -> bool {
    &&& c == GuiTransfer {
        id: c.id,
        kind: TransferKind::Seed,
        label: c.label,
        share_id: None,
        status: TransferStatus::Running,
        completed_chunks: 0,
        total_chunks: 0,
        bytes_done: 0,
        total_bytes: 0,
        bytes_per_second: 0,
        detail: c.detail,
        updated_seq: seq,
    }
    &&& is_path_label(path, c.label@)
    &&& c.id@ == "seed:"@ + c.label@ + ":"@ + decimal(seq as nat)
    &&& c.detail@ == "encrypting \u{b7} "@ + path
}

/// Starting to seed `path`: the log is cleared when new tasks clear it; a
/// running seed card is upserted at the next update sequence number; the
/// latest progress says the file is being encrypted; the request is logged
/// and sent.
pub open spec fn seed_path_started(old: EtleGui, path: String, time: Seq<char>, new: EtleGui, actions: Seq<GuiAction>) -> bool {
    let seq = old.board.next_transfer_seq;
    &&& new == (EtleGui { board: new.board, latest: new.latest, activity: new.activity, ..old })
    &&& new.board.next_transfer_seq == bumped(seq)
    &&& new.board.hidden == old.board.hidden
    &&& exists|c: GuiTransfer|
        #[trigger] seed_card(path@, seq, c) && new.board.transfers@ == upserted(old.board.transfers@, old.board.hidden_views(), c)
    &&& new.latest matches LatestProgress::Note { text, done, total } && text@ == "encrypting \u{b7} "@ + path@ && done == 0 && total
        == 0
    &&& exists|cleared: ActivityLog|
        #[trigger] cleared_for_task(old.activity, old.clear_activity_on_task, cleared) && logged(
            cleared,
            time,
            "seed queued: "@ + path@,
            new.activity,
        )
    &&& actions.len() == 1
    &&& actions[0] == (GuiAction::Send {
        socket_path: old.active_socket_path,
        kind: IpcRequestKind::Seed,
        command: IpcCommand::SeedFile {
            input: path,
            chunk_size: if old.seed_chunk_size > 1 { old.seed_chunk_size } else { 1 },
        },
    })
}

/// The seed file to start: the selected one, or the first.
pub open spec fn seed_index(old: EtleGui) -> usize {
    match old.selected_seed_file {
        Some(i) => i,
        None => 0usize,
    }
}

/// Seeding the selected file (the first when none is selected): it leaves
/// the queue and starts; with an empty queue, or a selection past its end
/// (which is then cleared), nothing starts and the reason is logged.
pub open spec fn seed_selected_started(old: EtleGui, time: Seq<char>, new: EtleGui, actions: Seq<GuiAction>) -> bool {
    let index = seed_index(old);
    if old.seed_files@.len() == 0 {
        &&& new == (EtleGui { activity: new.activity, ..old })
        &&& logged(old.activity, time, "seed: add a file first"@, new.activity)
        &&& actions.len() == 0
    } else if index >= old.seed_files@.len() {
        &&& new == (EtleGui { selected_seed_file: None, activity: new.activity, ..old })
        &&& logged(old.activity, time, "seed: selected file no longer exists"@, new.activity)
        &&& actions.len() == 0
    } else {
        exists|mid: EtleGui|
            #[trigger] seed_path_started(mid, old.seed_files@[index as int], time, new, actions) && mid == (EtleGui {
                seed_files: mid.seed_files,
                selected_seed_file: selection_after_removal(index, mid.seed_files@.len()),
                ..old
            }) && mid.seed_files@ == old.seed_files@.remove(index as int)
    }
}

/// `c` is the queued card for downloading `share_id`.
pub open spec fn download_card(share_id: ShareId, seq: u64, c: GuiTransfer) -> bool {
    &&& c == GuiTransfer {
        id: c.id,
        kind: TransferKind::Download,
        label: c.label,
        share_id: Some(share_id),
        status: TransferStatus::Queued,
        completed_chunks: 0,
        total_chunks: 0,
        bytes_done: 0,
        total_bytes: 0,
        bytes_per_second: 0,
        detail: c.detail,
        updated_seq: seq,
    }
    &&& c.id@ == "download:"@ + hex_lower(share_id.0@)
    &&& c.label@ == hex_lower(share_id.0@)
    &&& c.detail@ == "waiting for daemon"@
}

/// Starting a download from the form's texts: when they do not make a
/// command, the error is logged; otherwise the form's texts are kept (the
/// multicast group only when the text parses as it stands), the log is
/// cleared when new tasks clear it, a queued card is upserted, the latest
/// progress says the download is queued, and the command is logged and sent.
pub open spec fn download_started(
    old: EtleGui,
    share_id_text: String,
    peers_text: String,
    output_text: String,
    auth_psk_text: String,
    multicast_text: String,
    time: Seq<char>,
    new: EtleGui,
    actions: Seq<GuiAction>,
) -> bool {
    match download_form(share_id_text@, peers_text@, multicast_text@) {
        Err(e) => {
            &&& new == (EtleGui { activity: new.activity, ..old })
            &&& logged(old.activity, time, "download: "@ + e, new.activity)
            &&& actions.len() == 0
        },
        Ok((id, peers, group)) => {
            let seq = old.board.next_transfer_seq;
            &&& new == (EtleGui {
                download_share_id: share_id_text,
                download_peers: peers_text,
                output_path: output_text,
                settings: DownloadSettings { auth_psk: auth_psk_text, ..old.settings },
                discovery_multicast: match parse_ipv4_spec(multicast_text@) {
                    Some(m) => m,
                    None => old.discovery_multicast,
                },
                board: new.board,
                latest: new.latest,
                activity: new.activity,
                ..old
            })
            &&& new.board.next_transfer_seq == bumped(seq)
            &&& new.board.hidden == old.board.hidden
            &&& actions.len() == 1
            &&& exists|share_id: ShareId, command: IpcCommand, c: GuiTransfer, cleared: ActivityLog|
                #![trigger download_card(share_id, seq, c), download_command(old.settings, command, share_id, peers, output_text@, auth_psk_text@, group), cleared_for_task(old.activity, old.clear_activity_on_task, cleared)]
                {
                    &&& share_id.0@ == id
                    &&& download_command(old.settings, command, share_id, peers, output_text@, auth_psk_text@, group)
                    &&& download_card(share_id, seq, c)
                    &&& new.board.transfers@ == upserted(old.board.transfers@, old.board.hidden_views(), c)
                    &&& new.latest matches LatestProgress::Note { text, done, total } && text@ == "download queued \u{b7} "@
                        + hex_lower(id) && done == 0 && total == 0
                    &&& cleared_for_task(old.activity, old.clear_activity_on_task, cleared)
                    &&& logged(cleared, time, "download queued: "@ + hex_lower(id), new.activity)
                    &&& actions[0] == (GuiAction::Send { socket_path: old.active_socket_path, kind: IpcRequestKind::Download, command })
                }
        },
    }
}

/// Whether an automatic refresh is due `elapsed_secs` after the last one
/// began (see `EtleGui::refresh_due`).
pub open spec fn refresh_is_due(s: EtleGui, elapsed_secs: u64) -> bool {
    s.auto_refresh && !s.refresh_inflight && elapsed_secs >= if s.refresh_interval_secs > 1 {
        s.refresh_interval_secs
    } else {
        1
    }
}

/// `v`, or 1 when it is 0.
pub open spec fn at_least_one(v: int) -> int {
    if v > 0 { v } else { 1 }
}

/// State `new` and the actions after `input` arrives at `time`.
pub open spec fn input_applied(old: EtleGui, input: AppInput, time: Seq<char>, new: EtleGui, actions: Seq<GuiAction>) -> bool {
    match input {
        AppInput::ApplySocketText(value) => socket_applied(EtleGui { socket_draft: value, ..old }, time, new, actions),
        AppInput::Connect => connect_applied(old, time, new, actions),
        AppInput::Refresh => refresh_started(old, new, actions),
        AppInput::AutoRefreshTick { elapsed_secs } => if refresh_is_due(old, elapsed_secs) {
            refresh_started(old, new, actions)
        } else {
            new == old && actions.len() == 0
        },
        AppInput::StartWatch => watch_started(old, time, new, actions),
        AppInput::IpcResponse { socket_path, kind, result } => {
            &&& actions.len() == 0
            &&& if socket_path@ == old.active_socket_path@ {
                response_applied(
                    EtleGui {
                        refresh_inflight: if kind == IpcRequestKind::ListShares { false } else { old.refresh_inflight },
                        ..old
                    },
                    kind,
                    result,
                    time,
                    new,
                )
            } else {
                new == old
            }
        },
        AppInput::IpcEvent { generation, event } => if generation == old.watch_generation {
            ||| event_applied(old, event, time, new, true) && actions.len() == 1 && actions[0] is LogLatest
            ||| event_applied(old, event, time, new, false) && actions.len() == 0
        } else {
            new == old && actions.len() == 0
        },
        AppInput::IpcWatchStopped { generation, error } => {
            &&& actions.len() == 0
            &&& if generation == old.watch_generation {
                &&& new == (EtleGui { watching: false, connected: false, status: new.status, activity: new.activity, ..old })
                &&& new.status@ == "offline"@
                &&& logged(old.activity, time, "watch stopped: "@ + error@, new.activity)
            } else {
                new == old
            }
        },
        AppInput::SelectShare(i) => {
            &&& actions.len() == 0
            &&& new == (EtleGui {
                selected_share: if i < old.shares@.len() { Some(i) } else { old.selected_share },
                ..old
            })
        },
        AppInput::CopySelectedShareId => {
            &&& new == old
            &&& match old.selected_share {
                Some(i) => if i < old.shares@.len() {
                    actions.len() == 1 && (actions[0] matches GuiAction::CopyShareId(t) && t@ == hex_lower(
                        old.shares@[i as int].share_id.0@,
                    ))
                } else {
                    actions.len() == 0
                },
                None => actions.len() == 0,
            }
        },
        AppInput::ShareIdCopied => {
            &&& actions.len() == 0
            &&& new == (EtleGui { activity: new.activity, ..old })
            &&& logged(old.activity, time, "share id copied"@, new.activity)
        },
        AppInput::ClearLog => {
            &&& actions.len() == 0
            &&& new == (EtleGui { activity: new.activity, ..old })
            &&& new.activity.lines_view() == Seq::<Seq<char>>::empty()
            &&& new.activity.last_view() is None
            &&& new.activity.limit == old.activity.limit
        },
        AppInput::ClearFinishedTransfers => {
            &&& actions.len() == 0
            &&& new == (EtleGui { board: new.board, latest: new.latest, ..old })
            &&& new.board.transfers@ == unfinished(old.board.transfers@)
            &&& new.board.hidden_views() == add_keys(old.board.hidden_views(), finished_keys(old.board.transfers@))
            &&& new.board.next_transfer_seq == old.board.next_transfer_seq
            &&& new.latest == if new.board.transfers@.len() == 0 { LatestProgress::Idle } else { old.latest }
        },
        AppInput::AddSeedPathText(value) => {
            &&& actions.len() == 0
            &&& if trimmed(value@).len() == 0 {
                new == old
            } else {
                exists|path: String, mid: EtleGui|
                    #![trigger seed_added(old, path, time, mid)]
                    path@ == trimmed(value@) && seed_added(old, path, time, mid) && new == (EtleGui { seed_path: new.seed_path, ..mid })
                        && new.seed_path@.len() == 0
            }
        },
        AppInput::AddSeedFile(path) => actions.len() == 0 && seed_added(old, path, time, new),
        AppInput::BrowseSeedFiles => new == old && actions.len() == 1 && actions[0] is BrowseSeedFiles,
        AppInput::SelectSeedFile(i) => {
            &&& actions.len() == 0
            &&& new == (EtleGui {
                selected_seed_file: if i < old.seed_files@.len() { Some(i) } else { old.selected_seed_file },
                ..old
            })
        },
        AppInput::RemoveSelectedSeedFile => actions.len() == 0 && seed_removed(old, time, new),
        AppInput::ClearSeedFiles => {
            &&& actions.len() == 0
            &&& new == (EtleGui { seed_files: new.seed_files, selected_seed_file: None, ..old })
            &&& new.seed_files@.len() == 0
        },
        AppInput::SetSeedChunkSize(v) => actions.len() == 0 && new == (EtleGui { seed_chunk_size: at_least_one(v as int) as usize, ..old }),
        AppInput::StartSeedSelected => seed_selected_started(old, time, new, actions),
        AppInput::SetParallelism(v) => actions.len() == 0 && new == (EtleGui {
            settings: DownloadSettings { download_parallelism: v, ..old.settings },
            ..old
        }),
        AppInput::SetRequestWindow(v) => actions.len() == 0 && new == (EtleGui {
            settings: DownloadSettings { download_request_window: at_least_one(v as int) as usize, ..old.settings },
            ..old
        }),
        AppInput::SetDiscoveryPort(v) => actions.len() == 0 && new == (EtleGui {
            settings: DownloadSettings { discovery_port: at_least_one(v as int) as u16, ..old.settings },
            ..old
        }),
        AppInput::SetDiscoveryTimeout(v) => actions.len() == 0 && new == (EtleGui {
            settings: DownloadSettings { discovery_timeout_ms: at_least_one(v as int) as u64, ..old.settings },
            ..old
        }),
        AppInput::SetResume(b) => actions.len() == 0 && new == (EtleGui { settings: DownloadSettings { resume: b, ..old.settings }, ..old }),
        AppInput::StartDownloadFromForm { share_id, peers, output, auth_psk, discovery_multicast } => download_started(
            old,
            share_id,
            peers,
            output,
            auth_psk,
            discovery_multicast,
            time,
            new,
            actions,
        ),
        AppInput::ApplySettings { socket_path, auth_psk } => socket_applied(
            EtleGui { settings: DownloadSettings { auth_psk, ..old.settings }, socket_draft: socket_path, ..old },
            time,
            new,
            actions,
        ),
        AppInput::SetAutoRefresh(b) => actions.len() == 0 && new == (EtleGui { auto_refresh: b, ..old }),
        AppInput::SetClearActivityOnTask(b) => actions.len() == 0 && new == (EtleGui { clear_activity_on_task: b, ..old }),
        AppInput::SetRefreshInterval(v) => actions.len() == 0 && new == (EtleGui { refresh_interval_secs: at_least_one(v as int) as u64, ..old }),
        AppInput::SetActivityLimit(v) => {
            &&& actions.len() == 0
            &&& new == (EtleGui { activity: new.activity, ..old })
            &&& new.activity.limit == if v > MIN_ACTIVITY_LIMIT { v } else { MIN_ACTIVITY_LIMIT }
            &&& new.activity.lines_view() == newest(old.activity.lines_view(), new.activity.limit as nat)
            &&& new.activity.last_view() == old.activity.last_view()
        },
    }
}

impl EtleGui {
    /// The client's state at start: not connected, offline, idle, with the
    /// endpoint and download settings of `init`, refreshing automatically
    /// every few seconds, resuming downloads, and the startup warning (if
    /// any) logged at `time`.
    pub fn new(init: GuiInit, time: &str) -> (r: Self)
        ensures
            r.active_socket_path == init.socket_path,
            r.socket_draft == init.socket_path,
            !r.connected,
            !r.watching,
            r.watch_generation == 0,
            r.auto_refresh,
            r.clear_activity_on_task,
            r.refresh_interval_secs == DEFAULT_REFRESH_INTERVAL_SECS,
            r.selected_share is None,
            r.shares@.len() == 0,
            r.board.transfers@.len() == 0,
            r.board.hidden@.len() == 0,
            r.board.next_transfer_seq == 1,
            r.status@ == "offline"@,
            r.latest is Idle,
            !r.refresh_inflight,
            r.seed_path@.len() == 0,
            r.seed_files@.len() == 0,
            r.selected_seed_file is None,
            r.seed_chunk_size == DEFAULT_CHUNK_SIZE,
            r.download_share_id@.len() == 0,
            r.download_peers@.len() == 0,
            r.output_path@.len() == 0,
            r.discovery_multicast == init.discovery_multicast,
            r.settings == (DownloadSettings {
                resume: true,
                download_parallelism: init.download_parallelism,
                download_request_window: init.request_window,
                discovery_port: init.discovery_port,
                discovery_timeout_ms: init.discovery_timeout_ms,
                auth_psk: init.auth_psk,
            }),
            r.activity.limit == DEFAULT_ACTIVITY_LIMIT,
            match init.startup_warning {
                Some(w) => (r.activity.lines_view(), r.activity.last_view()) == after_log(
                    Seq::empty(),
                    None,
                    DEFAULT_ACTIVITY_LIMIT as nat,
                    time@,
                    w@,
                ),
                None => r.activity.lines_view() == Seq::<Seq<char>>::empty() && r.activity.last_view() is None,
            },
    {
        let mut model = EtleGui {
            active_socket_path: init.socket_path.clone(),
            socket_draft: init.socket_path,
            connected: false,
            watching: false,
            watch_generation: 0,
            auto_refresh: true,
            clear_activity_on_task: true,
            refresh_interval_secs: DEFAULT_REFRESH_INTERVAL_SECS,
            selected_share: None,
            shares: Vec::new(),
            board: TransferBoard::new(),
            activity: ActivityLog::new(DEFAULT_ACTIVITY_LIMIT),
            status: "offline".to_string(),
            latest: LatestProgress::Idle,
            refresh_inflight: false,
            seed_path: String::new(),
            seed_files: Vec::new(),
            selected_seed_file: None,
            seed_chunk_size: DEFAULT_CHUNK_SIZE,
            download_share_id: String::new(),
            download_peers: String::new(),
            output_path: String::new(),
            discovery_multicast: init.discovery_multicast,
            settings: DownloadSettings {
                resume: true,
                download_parallelism: init.download_parallelism,
                download_request_window: init.request_window,
                discovery_port: init.discovery_port,
                discovery_timeout_ms: init.discovery_timeout_ms,
                auth_psk: init.auth_psk,
            },
        };
        match init.startup_warning {
            Some(warning) => {
                model.activity.push(warning.as_str(), time);
            },
            None => {},
        }
        model
    }
}

impl EtleGui {
    /// Whether an automatic refresh is due `elapsed_secs` after the last one
    /// began: refreshing automatically, none in flight, and at least the
    /// interval (never under a second) has passed.
    pub fn refresh_due(&self, elapsed_secs: u64) -> (r: bool)
        ensures
            r == (self.auto_refresh && !self.refresh_inflight && elapsed_secs >= if self.refresh_interval_secs > 1 {
                self.refresh_interval_secs
            } else {
                1
            }),
    {
        let interval = if self.refresh_interval_secs > 1 { self.refresh_interval_secs } else { 1 };
        self.auto_refresh && !self.refresh_inflight && elapsed_secs >= interval
    }

    /// The download command for the form's texts, with the client's
    /// settings (see `DownloadSettings::build_download_command_from`).
    pub fn build_download_command_from(
        &self,
        share_id_text: &str,
        peers_text: &str,
        output_text: &str,
        auth_psk_text: &str,
        discovery_multicast_text: &str,
    ) -> (r: Result<(IpcCommand, ShareId), String>)
        ensures
            match download_form(share_id_text@, peers_text@, discovery_multicast_text@) {
                Err(e) => r matches Err(m) && m@ == e,
                Ok((id, peers, group)) => r matches Ok((command, share_id)) && share_id.0@ == id && download_command(
                    self.settings,
                    command,
                    share_id,
                    peers,
                    output_text@,
                    auth_psk_text@,
                    group,
                ),
            },
    {
        self.settings.build_download_command_from(share_id_text, peers_text, output_text, auth_psk_text, discovery_multicast_text)
    }

    /// The selected share, if it exists.
    pub fn selected_share_summary(&self) -> (r: Option<&IpcShareSummary>)
        ensures
            match self.selected_share {
                Some(i) => if i < self.shares@.len() { r == Some(&self.shares@[i as int]) } else { r is None },
                None => r is None,
            },
    {
        match self.selected_share {
            Some(i) => {
                if i < self.shares.len() {
                    Some(&self.shares[i])
                } else {
                    None
                }
            },
            None => None,
        }
    }

    /// Applies the socket draft (see `socket_applied`).
    fn apply_socket(&mut self, time: &str) -> (actions: Vec<GuiAction>)
        ensures
            socket_applied(*old(self), time@, *final(self), actions@),
    {
        let next = match non_empty(self.socket_draft.as_str()) {
            Some(t) => t.to_string(),
            None => {
                self.activity.push("socket: empty path ignored", time);
                return Vec::new();
            },
        };
        if !str_equal(next.as_str(), self.active_socket_path.as_str()) {
            let mut line = "socket applied: ".to_string();
            line.append(next.as_str());
            self.watch_generation = self.watch_generation.saturating_add(1);
            self.active_socket_path = next;
            self.connected = false;
            self.watching = false;
            self.refresh_inflight = false;
            self.selected_share = None;
            self.shares = Vec::new();
            self.activity.push(line.as_str(), time);
        }
        Self::reconnect_actions()
    }

    /// What the client does at start, and again once its endpoint is
    /// applied: connect, refresh the shares, and watch the daemon's events.
    pub fn reconnect_actions() -> (actions: Vec<GuiAction>)
        ensures
            reconnect_inputs(actions@),
    {
        let mut actions: Vec<GuiAction> = Vec::new();
        actions.push(GuiAction::Input(AppInput::Connect));
        actions.push(GuiAction::Input(AppInput::Refresh));
        actions.push(GuiAction::Input(AppInput::StartWatch));
        actions
    }

    /// Connects (see `connect_applied`).
    fn connect(&mut self, time: &str) -> (actions: Vec<GuiAction>)
        ensures
            connect_applied(*old(self), time@, *final(self), actions@),
    {
        let mut actions: Vec<GuiAction> = Vec::new();
        if non_empty(self.active_socket_path.as_str()).is_none() {
            self.connected = false;
            self.status = "offline".to_string();
            self.activity.push("ipc: empty socket path", time);
            return actions;
        }
        self.connected = false;
        self.status = "checking".to_string();
        actions.push(GuiAction::Send { socket_path: self.active_socket_path.clone(), kind: IpcRequestKind::Ping, command: IpcCommand::Ping });
        actions
    }

    /// Starts a refresh (see `refresh_started`).
    fn spawn_refresh(&mut self) -> (actions: Vec<GuiAction>)
        ensures
            refresh_started(*old(self), *final(self), actions@),
    {
        let mut actions: Vec<GuiAction> = Vec::new();
        if self.refresh_inflight {
            return actions;
        }
        self.status = "refreshing".to_string();
        self.refresh_inflight = true;
        actions.push(
            GuiAction::Send {
                socket_path: self.active_socket_path.clone(),
                kind: IpcRequestKind::ListShares,
                command: IpcCommand::ListShares,
            },
        );
        actions
    }

    /// Starts watching the daemon's events (see `watch_started`).
    fn start_watch(&mut self, time: &str) -> (actions: Vec<GuiAction>)
        ensures
            watch_started(*old(self), time@, *final(self), actions@),
    {
        let mut actions: Vec<GuiAction> = Vec::new();
        if non_empty(self.active_socket_path.as_str()).is_none() {
            self.connected = false;
            self.status = "offline".to_string();
            self.activity.push("event watch: empty IPC endpoint", time);
            return actions;
        }
        if self.watching {
            self.activity.push("watch already active", time);
            return actions;
        }
        self.watch_generation = self.watch_generation.saturating_add(1);
        let generation = self.watch_generation;
        self.watching = true;
        self.activity.push("watch: subscribing to daemon events", time);
        actions.push(GuiAction::Watch { socket_path: self.active_socket_path.clone(), generation });
        actions
    }

    /// Adds `path` to the seed queue (see `seed_added`).
    fn add_seed_file(&mut self, path: String, time: &str)
        ensures
            seed_added(*old(self), path, time@, *final(self)),
    {
        if path.as_str().is_empty() {
            return;
        }
        let mut k: usize = 0;
        while k < self.seed_files.len()
            invariant
                k <= self.seed_files@.len(),
                path@.len() != 0,
                *self == *old(self),
                forall|j: int| 0 <= j < k ==> (#[trigger] self.seed_files@[j])@ != path@,
            decreases self.seed_files@.len() - k,
        {
            if path_eq(self.seed_files[k].as_str(), path.as_str()) {
                proof {
                    let seeds = self.seed_files@;
                    if is_written_path(path@) && (forall|j: int| 0 <= j < seeds.len() ==> is_written_path((#[trigger] seeds[j])@))
                        && !(exists|j: int| 0 <= j < seeds.len() && (#[trigger] seeds[j])@ == path@) {
                        assert(is_written_path(seeds[k as int]@));
                        let (ra, pa) = choose|ra: bool, pa: Seq<Seq<char>>| written_path(ra, pa, seeds[k as int]@);
                        let (rb, pb) = choose|rb: bool, pb: Seq<Seq<char>>| written_path(rb, pb, path@);
                        assert(written_path(ra, pa, seeds[k as int]@) && written_path(rb, pb, path@));
                        assert(seeds[k as int]@ == path@);
                    }
                }
                let mut line = "seed queue: already added ".to_string();
                line.append(path.as_str());
                self.activity.push(line.as_str(), time);
                return;
            }
            k = k + 1;
        }
        let mut line = "seed queue: added ".to_string();
        line.append(path.as_str());
        self.activity.push(line.as_str(), time);
        self.seed_files.push(path);
        if self.selected_seed_file.is_none() {
            self.selected_seed_file = Some(0);
        }
    }

    /// Removes the selected seed file (see `seed_removed`).
    fn remove_selected_seed_file(&mut self, time: &str)
        ensures
            seed_removed(*old(self), time@, *final(self)),
    {
        let index = match self.selected_seed_file {
            Some(i) => i,
            None => {
                return;
            },
        };
        if index < self.seed_files.len() {
            let removed = self.seed_files.remove(index);
            let mut line = "seed queue: removed ".to_string();
            line.append(removed.as_str());
            self.activity.push(line.as_str(), time);
            let left = self.seed_files.len();
            self.selected_seed_file = if left == 0 {
                None
            } else if index < left {
                Some(index)
            } else {
                Some(left - 1)
            };
        }
    }

    /// Clears the log when new tasks clear it.
    fn prepare_new_task_log(&mut self)
        ensures
            *final(self) == (EtleGui { activity: final(self).activity, ..*old(self) }),
            cleared_for_task(old(self).activity, old(self).clear_activity_on_task, final(self).activity),
    {
        if self.clear_activity_on_task {
            self.activity.clear();
        }
    }

    /// Starts seeding `path` (see `seed_path_started`).
    fn start_seed_path(&mut self, path: String, time: &str) -> (actions: Vec<GuiAction>)
        ensures
            seed_path_started(*old(self), path, time@, *final(self), actions@),
    {
        self.prepare_new_task_log();
        let ghost cleared = self.activity;
        let label = file_label(path.as_str());
        let seq = self.board.bump_seq();
        let mut id = "seed:".to_string();
        id.append(label.as_str());
        id.append(":");
        id.append(decimal_string(seq).as_str());
        let mut detail = "encrypting \u{b7} ".to_string();
        detail.append(path.as_str());
        let card = GuiTransfer {
            id,
            kind: TransferKind::Seed,
            label,
            share_id: None,
            status: TransferStatus::Running,
            completed_chunks: 0,
            total_chunks: 0,
            bytes_done: 0,
            total_bytes: 0,
            bytes_per_second: 0,
            detail,
            updated_seq: seq,
        };
        proof {
            reveal_strlit(":");
        }
        assert(seed_card(path@, seq, card));
        self.board.upsert_transfer(card);
        let mut text = "encrypting \u{b7} ".to_string();
        text.append(path.as_str());
        self.latest = LatestProgress::Note { text, done: 0, total: 0 };
        let mut line = "seed queued: ".to_string();
        line.append(path.as_str());
        self.activity.push(line.as_str(), time);
        let chunk_size = if self.seed_chunk_size > 1 { self.seed_chunk_size } else { 1 };
        let mut actions: Vec<GuiAction> = Vec::new();
        actions.push(
            GuiAction::Send {
                socket_path: self.active_socket_path.clone(),
                kind: IpcRequestKind::Seed,
                command: IpcCommand::SeedFile { input: path, chunk_size },
            },
        );
        assert(cleared_for_task(old(self).activity, old(self).clear_activity_on_task, cleared));
        actions
    }

    /// Seeds the selected file (see `seed_selected_started`).
    fn start_seed_selected(&mut self, time: &str) -> (actions: Vec<GuiAction>)
        ensures
            seed_selected_started(*old(self), time@, *final(self), actions@),
    {
        let index = match self.selected_seed_file {
            Some(i) => i,
            None => 0,
        };
        if self.seed_files.len() == 0 {
            self.activity.push("seed: add a file first", time);
            return Vec::new();
        }
        if index >= self.seed_files.len() {
            self.activity.push("seed: selected file no longer exists", time);
            self.selected_seed_file = None;
            return Vec::new();
        }
        let path = self.seed_files.remove(index);
        let left = self.seed_files.len();
        self.selected_seed_file = if left == 0 {
            None
        } else if index < left {
            Some(index)
        } else {
            Some(left - 1)
        };
        let ghost mid = *self;
        let actions = self.start_seed_path(path, time);
        assert(seed_path_started(mid, old(self).seed_files@[index as int], time@, *self, actions@));
        actions
    }

    /// Starts a download from the form's texts (see `download_started`).
    fn start_download_from_form(
        &mut self,
        share_id_text: String,
        peers_text: String,
        output_text: String,
        auth_psk_text: String,
        multicast_text: String,
        time: &str,
    ) -> (actions: Vec<GuiAction>)
        ensures
            download_started(
                *old(self),
                share_id_text,
                peers_text,
                output_text,
                auth_psk_text,
                multicast_text,
                time@,
                *final(self),
                actions@,
            ),
    {
        let built = self.build_download_command_from(
            share_id_text.as_str(),
            peers_text.as_str(),
            output_text.as_str(),
            auth_psk_text.as_str(),
            multicast_text.as_str(),
        );
        let mut actions: Vec<GuiAction> = Vec::new();
        match built {
            Ok((command, share_id)) => {
                let chars = crate::bytes::chars_of(multicast_text.as_str());
                match parse_ipv4(chars.as_slice()) {
                    Some(m) => {
                        self.discovery_multicast = m;
                    },
                    None => {},
                }
                self.download_share_id = share_id_text;
                self.download_peers = peers_text;
                self.output_path = output_text;
                self.settings.auth_psk = auth_psk_text;
                self.prepare_new_task_log();
                let ghost cleared = self.activity;
                let seq = self.board.bump_seq();
                let id_text = share_id.to_string();
                let mut id = "download:".to_string();
                id.append(id_text.as_str());
                let card = GuiTransfer {
                    id,
                    kind: TransferKind::Download,
                    label: share_id.to_string(),
                    share_id: Some(share_id),
                    status: TransferStatus::Queued,
                    completed_chunks: 0,
                    total_chunks: 0,
                    bytes_done: 0,
                    total_bytes: 0,
                    bytes_per_second: 0,
                    detail: "waiting for daemon".to_string(),
                    updated_seq: seq,
                };
                assert(download_card(share_id, seq, card));
                self.board.upsert_transfer(card);
                let mut text = "download queued \u{b7} ".to_string();
                text.append(id_text.as_str());
                self.latest = LatestProgress::Note { text, done: 0, total: 0 };
                let mut line = "download queued: ".to_string();
                line.append(id_text.as_str());
                self.activity.push(line.as_str(), time);
                actions.push(GuiAction::Send { socket_path: self.active_socket_path.clone(), kind: IpcRequestKind::Download, command });
                assert(cleared_for_task(old(self).activity, old(self).clear_activity_on_task, cleared));
            },
            Err(error) => {
                let mut line = "download: ".to_string();
                line.append(error.as_str());
                self.activity.push(line.as_str(), time);
            },
        }
        actions
    }
    /// Takes in one input (see `input_applied`), logging at `time`, and
    /// returns the actions for the shell.
    pub fn update(&mut self, input: AppInput, time: &str) -> (actions: Vec<GuiAction>)
        ensures
            input_applied(*old(self), input, time@, *final(self), actions@),
    {
        let mut none: Vec<GuiAction> = Vec::new();
        match input {
            AppInput::ApplySocketText(value) => {
                self.socket_draft = value;
                self.apply_socket(time)
            },
            AppInput::Connect => self.connect(time),
            AppInput::Refresh => self.spawn_refresh(),
            AppInput::AutoRefreshTick { elapsed_secs } => {
                if self.refresh_due(elapsed_secs) {
                    self.spawn_refresh()
                } else {
                    none
                }
            },
            AppInput::StartWatch => self.start_watch(time),
            AppInput::IpcResponse { socket_path, kind, result } => {
                if str_equal(socket_path.as_str(), self.active_socket_path.as_str()) {
                    if kind == IpcRequestKind::ListShares {
                        self.refresh_inflight = false;
                    }
                    self.apply_ipc_response(kind, result, time);
                }
                none
            },
            AppInput::IpcEvent { generation, event } => {
                if generation == self.watch_generation {
                    if self.apply_ipc_event(event, time) {
                        none.push(GuiAction::LogLatest);
                    }
                }
                none
            },
            AppInput::IpcWatchStopped { generation, error } => {
                if generation == self.watch_generation {
                    self.watching = false;
                    self.connected = false;
                    self.status = "offline".to_string();
                    let mut line = "watch stopped: ".to_string();
                    line.append(error.as_str());
                    self.activity.push(line.as_str(), time);
                }
                none
            },
            AppInput::SelectShare(index) => {
                if index < self.shares.len() {
                    self.selected_share = Some(index);
                }
                none
            },
            AppInput::CopySelectedShareId => {
                match self.selected_share_summary() {
                    Some(share) => {
                        none.push(GuiAction::CopyShareId(share.share_id.to_string()));
                    },
                    None => {},
                }
                none
            },
            AppInput::ShareIdCopied => {
                self.activity.push("share id copied", time);
                none
            },
            AppInput::ClearLog => {
                self.activity.clear();
                none
            },
            AppInput::ClearFinishedTransfers => {
                if self.board.clear_finished_transfers() {
                    self.latest = LatestProgress::Idle;
                }
                none
            },
            AppInput::AddSeedPathText(value) => {
                match non_empty(value.as_str()) {
                    Some(t) => {
                        self.add_seed_file(t.to_string(), time);
                        self.seed_path = String::new();
                    },
                    None => {},
                }
                none
            },
            AppInput::AddSeedFile(path) => {
                self.add_seed_file(path, time);
                none
            },
            AppInput::BrowseSeedFiles => {
                none.push(GuiAction::BrowseSeedFiles);
                none
            },
            AppInput::SelectSeedFile(index) => {
                if index < self.seed_files.len() {
                    self.selected_seed_file = Some(index);
                }
                none
            },
            AppInput::RemoveSelectedSeedFile => {
                self.remove_selected_seed_file(time);
                none
            },
            AppInput::ClearSeedFiles => {
                self.seed_files = Vec::new();
                self.selected_seed_file = None;
                none
            },
            AppInput::SetSeedChunkSize(value) => {
                self.seed_chunk_size = if value > 1 { value } else { 1 };
                none
            },
            AppInput::StartSeedSelected => self.start_seed_selected(time),
            AppInput::SetParallelism(value) => {
                self.settings.download_parallelism = value;
                none
            },
            AppInput::SetRequestWindow(value) => {
                self.settings.download_request_window = if value > 1 { value } else { 1 };
                none
            },
            AppInput::SetDiscoveryPort(value) => {
                self.settings.discovery_port = if value > 1 { value } else { 1 };
                none
            },
            AppInput::SetDiscoveryTimeout(value) => {
                self.settings.discovery_timeout_ms = if value > 1 { value } else { 1 };
                none
            },
            AppInput::SetResume(value) => {
                self.settings.resume = value;
                none
            },
            AppInput::StartDownloadFromForm { share_id, peers, output, auth_psk, discovery_multicast } => {
                self.start_download_from_form(share_id, peers, output, auth_psk, discovery_multicast, time)
            },
            AppInput::ApplySettings { socket_path, auth_psk } => {
                self.settings.auth_psk = auth_psk;
                self.socket_draft = socket_path;
                self.apply_socket(time)
            },
            AppInput::SetAutoRefresh(value) => {
                self.auto_refresh = value;
                none
            },
            AppInput::SetClearActivityOnTask(value) => {
                self.clear_activity_on_task = value;
                none
            },
            AppInput::SetRefreshInterval(value) => {
                self.refresh_interval_secs = if value > 1 { value } else { 1 };
                none
            },
            AppInput::SetActivityLimit(value) => {
                self.activity.set_limit(value);
                none
            },
        }
    }

}

} // verus!
