//! The desktop client's state and how it follows the daemon: its answers to
//! requests and the events it publishes.

use vstd::prelude::*;

use crate::bytes::hex_lower;
use crate::file::descriptor::ShareId;
use crate::gui::activity::{after_log, ActivityLog};
use crate::gui::board::{copy_transfer, marked_failed, sorted_transfers, upserted, upsert_share, share_index, TransferBoard};
use crate::gui::model::{DownloadSettings, GuiTransfer, IpcRequestKind, TransferKind, TransferStatus};
use crate::gui::sync::{bumped, first_index, for_card, seed_completed, synced_board};
use crate::ipc::message::{IpcResponse, IpcShareSummary};
use crate::net::Ipv4Address;

verus! {

/// What the client shows as its latest progress.
#[derive(Clone, Debug)]
pub enum LatestProgress {
    /// Nothing is going on.
    Idle,
    /// The progress of a transfer card.
    Card(GuiTransfer),
    /// A line of text, with `done` out of `total` for its progress bar.
    Note { text: String, done: u64, total: u64 },
    /// A download was saved while no card showed it.
    Saved { file_name: String, file_size: u64, chunks: usize, output: String },
}

/// What the client starts from: its IPC endpoint, its download settings, and
/// a warning to log, if any.
#[derive(Clone, Debug)]
pub struct GuiInit {
    pub socket_path: String,
    pub auth_psk: String,
    pub download_parallelism: usize,
    pub request_window: usize,
    pub discovery_port: u16,
    pub discovery_timeout_ms: u64,
    pub discovery_multicast: Ipv4Address,
    pub startup_warning: Option<String>,
}

/// The desktop client's state.
pub struct EtleGui {
    pub active_socket_path: String,
    pub socket_draft: String,
    pub connected: bool,
    pub watching: bool,
    pub watch_generation: u64,
    pub auto_refresh: bool,
    pub clear_activity_on_task: bool,
    pub refresh_interval_secs: u64,
    pub selected_share: Option<usize>,
    pub shares: Vec<IpcShareSummary>,
    pub board: TransferBoard,
    pub activity: ActivityLog,
    pub status: String,
    pub latest: LatestProgress,
    pub refresh_inflight: bool,
    pub seed_path: String,
    pub seed_files: Vec<String>,
    pub selected_seed_file: Option<usize>,
    pub seed_chunk_size: usize,
    pub download_share_id: String,
    pub download_peers: String,
    pub output_path: String,
    pub discovery_multicast: Ipv4Address,
    pub settings: DownloadSettings,
}

/// Log `b` is log `a` after logging `message` at `time`.
pub open spec fn logged(a: ActivityLog, time: Seq<char>, message: Seq<char>, b: ActivityLog) -> bool {
    &&& (b.lines_view(), b.last_view()) == after_log(a.lines_view(), a.last_view(), a.limit as nat, time, message)
    &&& b.limit == a.limit
}

/// The word for a request.
pub open spec fn request_word(kind: IpcRequestKind) -> Seq<char> {
    match kind {
        IpcRequestKind::Ping => "ping"@,
        IpcRequestKind::ListShares => "refresh"@,
        IpcRequestKind::Seed => "seed"@,
        IpcRequestKind::Download => "download"@,
    }
}

/// The shares after `share` is recorded: it replaces the first with its id,
/// or joins the list.
pub open spec fn share_upserted(shares: Seq<IpcShareSummary>, share: IpcShareSummary) -> Seq<IpcShareSummary> {
    match share_index(shares, share.share_id) {
        Some(i) => shares.update(i, share),
        None => shares.push(share),
    }
}

/// The latest progress after a card may have become it.
pub open spec fn latest_after(latest: LatestProgress, card: Option<GuiTransfer>) -> LatestProgress {
    match card {
        Some(c) => LatestProgress::Card(c),
        None => latest,
    }
}

/// Board `b1` and latest progress `l1` are `b0` and `l0` after the cards
/// follow `share` (see `synced_board`).
pub open spec fn board_synced(b0: TransferBoard, l0: LatestProgress, share: IpcShareSummary, b1: TransferBoard, l1: LatestProgress) -> bool {
    &&& exists|card: Option<GuiTransfer>|
        #[trigger] synced_board(b0.transfers@, b0.hidden_views(), share, b0.next_transfer_seq, b1.transfers@, card) && l1 == latest_after(l0, card)
    &&& b1.next_transfer_seq == bumped(b0.next_transfer_seq)
    &&& b1.hidden == b0.hidden
}

/// `bs` and `ls` trace the boards and latest progress from `b0` and `l0` as
/// the cards follow each of `shares` in turn.
pub open spec fn sync_trace(
    b0: TransferBoard,
    l0: LatestProgress,
    shares: Seq<IpcShareSummary>,
    bs: Seq<TransferBoard>,
    ls: Seq<LatestProgress>,
) -> bool {
    &&& bs.len() == shares.len() + 1
    &&& ls.len() == shares.len() + 1
    &&& bs[0] == b0
    &&& ls[0] == l0
    &&& forall|k: int| 0 <= k < shares.len() ==> #[trigger] board_synced(bs[k], ls[k], shares[k], bs[k + 1], ls[k + 1])
}

/// Board `b1` and latest progress `l1` are `b0` and `l0` after the cards
/// follow each of `shares` in turn.
pub open spec fn synced_all(b0: TransferBoard, l0: LatestProgress, shares: Seq<IpcShareSummary>, b1: TransferBoard, l1: LatestProgress) -> bool {
    exists|bs: Seq<TransferBoard>, ls: Seq<LatestProgress>|
        #[trigger] sync_trace(b0, l0, shares, bs, ls) && bs.last() == b1 && ls.last() == l1
}

/// Board `b1` and latest progress `l1` are `b0` and `l0` after `share`
/// arrives complete or not (see `seed_completed`).
pub open spec fn seeds_completed(b0: TransferBoard, l0: LatestProgress, share: IpcShareSummary, b1: TransferBoard, l1: LatestProgress) -> bool {
    &&& exists|card: Option<GuiTransfer>|
        #[trigger] seed_completed(
            b0.transfers@,
            b0.hidden_views(),
            share,
            b0.next_transfer_seq,
            b1.transfers@,
            card,
            b1.next_transfer_seq,
        ) && l1 == latest_after(l0, card)
    &&& b1.hidden == b0.hidden
}

/// Board `b1` is `b0` with its most recently updated active card failed for
/// `reason` (see `marked_failed`), in display order.
pub open spec fn failed_board(b0: TransferBoard, reason: Seq<char>, b1: TransferBoard) -> bool {
    &&& exists|mid: Seq<GuiTransfer>| #[trigger] marked_failed(b0.transfers@, mid, reason) && b1.transfers@ == sorted_transfers(mid)
    &&& b1.hidden == b0.hidden
    &&& b1.next_transfer_seq == b0.next_transfer_seq
}

/// `r` is download card `t` once its job `job_id` is queued, at update
/// sequence `seq`.
pub open spec fn queued_card(t: GuiTransfer, job_id: String, seq: u64, r: GuiTransfer) -> bool {
    &&& r == GuiTransfer { id: job_id, status: TransferStatus::Running, detail: r.detail, updated_seq: seq, ..t }
    &&& r.detail@ == "downloading"@
}

/// `c` is the new running download card for a queued job.
pub open spec fn new_queued_card(share_id: ShareId, job_id: String, seq: u64, c: GuiTransfer) -> bool {
    &&& c == GuiTransfer {
        id: job_id,
        kind: TransferKind::Download,
        label: c.label,
        share_id: Some(share_id),
        status: TransferStatus::Running,
        completed_chunks: 0,
        total_chunks: 0,
        bytes_done: 0,
        total_bytes: 0,
        bytes_per_second: 0,
        detail: c.detail,
        updated_seq: seq,
    }
    &&& c.label@ == hex_lower(share_id.0@)
    &&& c.detail@ == "downloading"@
}

/// Board `b1` is `b0` once the download of `share_id` is queued as `job_id`:
/// the first download card of the share takes the job's id and runs, or a new
/// running card is upserted; the list is put in display order. One update
/// sequence number is taken.
pub open spec fn queued_board(b0: TransferBoard, share_id: ShareId, job_id: String, b1: TransferBoard) -> bool {
    let seq = b0.next_transfer_seq;
    &&& b1.next_transfer_seq == bumped(seq)
    &&& b1.hidden == b0.hidden
    &&& match first_index(b0.transfers@, for_card(share_id, TransferKind::Download)) {
        Some(i) => exists|r: GuiTransfer|
            #[trigger] queued_card(b0.transfers@[i], job_id, seq, r) && b1.transfers@ == sorted_transfers(b0.transfers@.update(i, r)),
        None => exists|c: GuiTransfer|
            #[trigger] new_queued_card(share_id, job_id, seq, c) && b1.transfers@ == sorted_transfers(
                upserted(b0.transfers@, b0.hidden_views(), c),
            ),
    }
}

/// `r` is download card `t` once its file is saved.
pub open spec fn saved_card(
    t: GuiTransfer,
    file_name: String,
    file_size: u64,
    chunks: usize,
    output: Seq<char>,
    seq: u64,
    r: GuiTransfer,
) -> bool {
    &&& r == GuiTransfer {
        status: TransferStatus::Done,
        label: file_name,
        completed_chunks: chunks,
        total_chunks: chunks,
        bytes_done: file_size,
        total_bytes: file_size,
        bytes_per_second: 0,
        detail: r.detail,
        updated_seq: seq,
        ..t
    }
    &&& r.detail@ == "saved \u{b7} "@ + output
}

/// Board `b1` and latest progress `l1` after a download is saved: the first
/// download card of the share is done and becomes the latest, or the latest
/// says what was saved; the list is put in display order. One update
/// sequence number is taken.
pub open spec fn saved_board(
    b0: TransferBoard,
    l0: LatestProgress,
    share_id: ShareId,
    output: String,
    file_name: String,
    file_size: u64,
    chunks: usize,
    b1: TransferBoard,
    l1: LatestProgress,
) -> bool {
    let seq = b0.next_transfer_seq;
    &&& b1.next_transfer_seq == bumped(seq)
    &&& b1.hidden == b0.hidden
    &&& match first_index(b0.transfers@, for_card(share_id, TransferKind::Download)) {
        Some(i) => exists|r: GuiTransfer|
            #[trigger] saved_card(b0.transfers@[i], file_name, file_size, chunks, output@, seq, r) && b1.transfers@ == sorted_transfers(
                b0.transfers@.update(i, r),
            ) && l1 == LatestProgress::Card(r),
        None => b1.transfers@ == sorted_transfers(b0.transfers@) && l1 == (LatestProgress::Saved { file_name, file_size, chunks, output }),
    }
}

/// State `new` is `old` after the answer `result` to a request of `kind`,
/// logged at `time`.
pub open spec fn response_applied(
    old: EtleGui,
    kind: IpcRequestKind,
    result: Result<IpcResponse, String>,
    time: Seq<char>,
    new: EtleGui,
) -> bool {
    match result {
        Ok(IpcResponse::Pong) => {
            &&& new == (EtleGui { connected: true, status: new.status, activity: new.activity, ..old })
            &&& new.status@ == "online"@
            &&& logged(old.activity, time, "daemon: pong"@, new.activity)
        },
        Ok(IpcResponse::Ack { message }) => {
            &&& new == (EtleGui { connected: true, activity: new.activity, ..old })
            &&& logged(old.activity, time, "daemon: "@ + message@, new.activity)
        },
        Ok(IpcResponse::Shares { shares }) => {
            &&& new == (EtleGui {
                connected: true,
                status: new.status,
                shares: shares,
                selected_share: new.selected_share,
                board: new.board,
                latest: new.latest,
                ..old
            })
            &&& new.status@ == "idle"@
            &&& new.selected_share == match old.selected_share {
                Some(i) => if i >= shares@.len() { None } else { Some(i) },
                None => None,
            }
            &&& synced_all(old.board, old.latest, shares@, new.board, new.latest)
        },
        Ok(IpcResponse::ShareAdded { share }) => {
            &&& new == (EtleGui {
                connected: true,
                shares: new.shares,
                board: new.board,
                latest: new.latest,
                activity: new.activity,
                ..old
            })
            &&& new.shares@ == share_upserted(old.shares@, share)
            &&& seeds_completed(old.board, old.latest, share, new.board, new.latest)
            &&& logged(old.activity, time, "share added: "@ + hex_lower(share.share_id.0@) + " "@ + share.name@, new.activity)
        },
        Ok(IpcResponse::ShareDeleted { share_id, name }) => {
            &&& new == (EtleGui { connected: true, activity: new.activity, ..old })
            &&& logged(old.activity, time, "share deleted: "@ + hex_lower(share_id.0@) + " "@ + name@, new.activity)
        },
        Ok(IpcResponse::TransferQueued { share_id, job_id }) => {
            &&& new == (EtleGui { connected: true, board: new.board, activity: new.activity, ..old })
            &&& queued_board(old.board, share_id, job_id, new.board)
            &&& logged(old.activity, time, "queued: job="@ + job_id@ + " share="@ + hex_lower(share_id.0@), new.activity)
        },
        Ok(IpcResponse::TransferCompleted { share_id, output, file_name, file_size, chunks }) => {
            &&& new == (EtleGui { connected: true, board: new.board, latest: new.latest, activity: new.activity, ..old })
            &&& saved_board(old.board, old.latest, share_id, output, file_name, file_size, chunks, new.board, new.latest)
            &&& logged(old.activity, time, "completed: share="@ + hex_lower(share_id.0@) + " output="@ + output@, new.activity)
        },
        Ok(IpcResponse::Error { message }) => {
            &&& new == (EtleGui { board: new.board, activity: new.activity, ..old })
            &&& if kind == IpcRequestKind::Seed || kind == IpcRequestKind::Download {
                failed_board(old.board, message@, new.board)
            } else {
                new.board == old.board
            }
            &&& logged(old.activity, time, "daemon error: "@ + message@, new.activity)
        },
        Err(error) => match kind {
            IpcRequestKind::ListShares => {
                &&& new == (EtleGui { refresh_inflight: false, status: new.status, activity: new.activity, ..old })
                &&& new.status@ == "refresh delayed"@
                &&& logged(old.activity, time, "refresh: "@ + error@, new.activity)
            },
            IpcRequestKind::Ping => {
                &&& new == (EtleGui { connected: false, status: new.status, activity: new.activity, ..old })
                &&& new.status@ == "offline"@
                &&& logged(old.activity, time, "ipc: "@ + error@, new.activity)
            },
            _ => {
                &&& new == (EtleGui { connected: false, status: new.status, board: new.board, activity: new.activity, ..old })
                &&& new.status@ == "request failed"@
                &&& failed_board(old.board, error@, new.board)
                &&& logged(old.activity, time, request_word(kind) + " request failed: "@ + error@, new.activity)
            },
        },
    }
}

impl EtleGui {
    /// Logs `message` at `time`.
    fn log(&mut self, message: &str, time: &str)
        ensures
            *final(self) == (EtleGui { activity: final(self).activity, ..*old(self) }),
            logged(old(self).activity, time@, message@, final(self).activity),
    {
        self.activity.push(message, time);
    }

    /// The cards follow each share in turn (see `synced_all`).
    fn sync_all_shares(&mut self)
        ensures
            *final(self) == (EtleGui { board: final(self).board, latest: final(self).latest, ..*old(self) }),
            synced_all(old(self).board, old(self).latest, old(self).shares@, final(self).board, final(self).latest),
    {
        let ghost mut bs: Seq<TransferBoard> = seq![self.board];
        let ghost mut ls: Seq<LatestProgress> = seq![self.latest];
        let mut i: usize = 0;
        while i < self.shares.len()
            invariant
                i <= self.shares@.len(),
                *self == (EtleGui { board: self.board, latest: self.latest, ..*old(self) }),
                sync_trace(old(self).board, old(self).latest, self.shares@.take(i as int), bs, ls),
                bs.last() == self.board,
                ls.last() == self.latest,
            decreases self.shares@.len() - i,
        {
            let ghost b0 = self.board;
            let ghost l0 = self.latest;
            let card = self.board.sync_from_share(&self.shares[i]);
            match card {
                Some(c) => {
                    self.latest = LatestProgress::Card(c);
                },
                None => {},
            }
            proof {
                assert(board_synced(b0, l0, self.shares@[i as int], self.board, self.latest));
                let prefix = self.shares@.take(i + 1);
                let bs2 = bs.push(self.board);
                let ls2 = ls.push(self.latest);
                assert forall|k: int| 0 <= k < prefix.len() implies #[trigger] board_synced(
                    bs2[k],
                    ls2[k],
                    prefix[k],
                    bs2[k + 1],
                    ls2[k + 1],
                ) by {
                    if k < i {
                        assert(prefix[k] == self.shares@.take(i as int)[k]);
                        assert(board_synced(bs[k], ls[k], self.shares@.take(i as int)[k], bs[k + 1], ls[k + 1]));
                    }
                }
                bs = bs2;
                ls = ls2;
            }
            i = i + 1;
        }
        assert(self.shares@.take(self.shares@.len() as int) =~= self.shares@);
    }

    /// Takes in the daemon's answer to a request of `kind` (see
    /// `response_applied`), logging at `time`.
    pub fn apply_ipc_response(&mut self, kind: IpcRequestKind, result: Result<IpcResponse, String>, time: &str)
        ensures
            response_applied(*old(self), kind, result, time@, *final(self)),
    {
        match result {
            Ok(IpcResponse::Pong) => {
                self.connected = true;
                self.status = "online".to_string();
                self.log("daemon: pong", time);
            },
            Ok(IpcResponse::Ack { message }) => {
                self.connected = true;
                let mut line = "daemon: ".to_string();
                line.append(message.as_str());
                self.log(line.as_str(), time);
            },
            Ok(IpcResponse::Shares { shares }) => {
                self.connected = true;
                self.status = "idle".to_string();
                self.shares = shares;
                match self.selected_share {
                    Some(index) => {
                        if index >= self.shares.len() {
                            self.selected_share = None;
                        }
                    },
                    None => {},
                }
                self.sync_all_shares();
            },
            Ok(IpcResponse::ShareAdded { share }) => {
                self.connected = true;
                let mut line = "share added: ".to_string();
                line.append(share.share_id.to_string().as_str());
                line.append(" ");
                line.append(share.name.as_str());
                let card = self.board.mark_seed_completed(&share);
                match card {
                    Some(c) => {
                        self.latest = LatestProgress::Card(c);
                    },
                    None => {},
                }
                upsert_share(&mut self.shares, share);
                self.log(line.as_str(), time);
            },
            Ok(IpcResponse::ShareDeleted { share_id, name }) => {
                self.connected = true;
                let mut line = "share deleted: ".to_string();
                line.append(share_id.to_string().as_str());
                line.append(" ");
                line.append(name.as_str());
                self.log(line.as_str(), time);
            },
            Ok(IpcResponse::TransferQueued { share_id, job_id }) => {
                self.connected = true;
                let mut line = "queued: job=".to_string();
                line.append(job_id.as_str());
                line.append(" share=");
                line.append(share_id.to_string().as_str());
                let ghost jid = job_id;
                let seq = self.board.bump_seq();
                match self.board.find_transfer_by_share(share_id, TransferKind::Download) {
                    Some(i) => {
                        let t = &self.board.transfers[i];
                        let ghost old_t = *t;
                        let card = GuiTransfer {
                            id: job_id,
                            kind: t.kind,
                            label: t.label.clone(),
                            share_id: t.share_id,
                            status: TransferStatus::Running,
                            completed_chunks: t.completed_chunks,
                            total_chunks: t.total_chunks,
                            bytes_done: t.bytes_done,
                            total_bytes: t.total_bytes,
                            bytes_per_second: t.bytes_per_second,
                            detail: "downloading".to_string(),
                            updated_seq: seq,
                        };
                        assert(queued_card(old_t, jid, seq, card));
                        self.board.replace_card(i, card);
                    },
                    None => {
                        let card = GuiTransfer {
                            id: job_id,
                            kind: TransferKind::Download,
                            label: share_id.to_string(),
                            share_id: Some(share_id),
                            status: TransferStatus::Running,
                            completed_chunks: 0,
                            total_chunks: 0,
                            bytes_done: 0,
                            total_bytes: 0,
                            bytes_per_second: 0,
                            detail: "downloading".to_string(),
                            updated_seq: seq,
                        };
                        assert(new_queued_card(share_id, jid, seq, card));
                        self.board.upsert_transfer(card);
                        self.board.sort();
                    },
                }
                self.log(line.as_str(), time);
            },
            Ok(IpcResponse::TransferCompleted { share_id, output, file_name, file_size, chunks }) => {
                self.connected = true;
                let mut line = "completed: share=".to_string();
                line.append(share_id.to_string().as_str());
                line.append(" output=");
                line.append(output.as_str());
                let seq = self.board.bump_seq();
                match self.board.find_transfer_by_share(share_id, TransferKind::Download) {
                    Some(i) => {
                        let t = &self.board.transfers[i];
                        let ghost old_t = *t;
                        let ghost fname = file_name;
                        let mut detail = "saved \u{b7} ".to_string();
                        detail.append(output.as_str());
                        let card = GuiTransfer {
                            id: t.id.clone(),
                            kind: t.kind,
                            label: file_name,
                            share_id: t.share_id,
                            status: TransferStatus::Done,
                            completed_chunks: chunks,
                            total_chunks: chunks,
                            bytes_done: file_size,
                            total_bytes: file_size,
                            bytes_per_second: 0,
                            detail,
                            updated_seq: seq,
                        };
                        proof {
                            reveal_strlit("saved \u{b7} ");
                        }
                        assert(saved_card(old_t, fname, file_size, chunks, output@, seq, card));
                        self.latest = LatestProgress::Card(copy_transfer(&card));
                        self.board.replace_card(i, card);
                    },
                    None => {
                        self.latest = LatestProgress::Saved { file_name, file_size, chunks, output };
                        self.board.sort();
                    },
                }
                self.log(line.as_str(), time);
            },
            Ok(IpcResponse::Error { message }) => {
                if kind == IpcRequestKind::Seed || kind == IpcRequestKind::Download {
                    self.board.mark_recent_running_failed(message.as_str());
                }
                let mut line = "daemon error: ".to_string();
                line.append(message.as_str());
                self.log(line.as_str(), time);
            },
            Err(error) => match kind {
                IpcRequestKind::ListShares => {
                    self.refresh_inflight = false;
                    self.status = "refresh delayed".to_string();
                    let mut line = "refresh: ".to_string();
                    line.append(error.as_str());
                    self.log(line.as_str(), time);
                },
                IpcRequestKind::Ping => {
                    self.connected = false;
                    self.status = "offline".to_string();
                    let mut line = "ipc: ".to_string();
                    line.append(error.as_str());
                    self.log(line.as_str(), time);
                },
                _ => {
                    self.connected = false;
                    self.status = "request failed".to_string();
                    self.board.mark_recent_running_failed(error.as_str());
                    let mut line = kind.label().to_string();
                    line.append(" request failed: ");
                    line.append(error.as_str());
                    self.log(line.as_str(), time);
                },
            },
        }
    }
}

} // verus!
