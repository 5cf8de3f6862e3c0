//! How the desktop client follows the events the daemon publishes.

use vstd::prelude::*;

use crate::bytes::{chars_of, decimal, decimal_string, hex_lower, lemma_decimal_digits, push_decimal, string_from_chars};
use crate::file::descriptor::ShareId;
use crate::gui::board::{copy_transfer, find_share, progress_card, same_share, share_index, sorted_transfers, upserted, upsert_share, TransferBoard};
use crate::gui::client::{failed_board, logged, share_upserted, seeds_completed, board_synced, EtleGui, LatestProgress};
use crate::gui::model::{is_specific_detail, is_specific_progress_detail, GuiTransfer, TransferKind, TransferStatus};
use crate::gui::progress::{parse_task_progress_debug, TaskProgressSnapshot};
use crate::gui::sync::{bumped, first_index, for_card, lemma_first_index, lemma_first_index_bound};
use crate::ipc::message::IpcEvent;
use crate::net::socket_text;
use crate::text::{find_sub, lemma_find_absent, str_equal};

verus! {

/// A card whose id is `id`.
pub open spec fn for_id(id: Seq<char>) -> spec_fn(GuiTransfer) -> bool {
    |t: GuiTransfer| t.id@ == id
}

/// A card whose id is `id`, or a download card of the share `share_id`.
pub open spec fn for_id_or_download(id: Seq<char>, share_id: ShareId) -> spec_fn(GuiTransfer) -> bool {
    |t: GuiTransfer| t.id@ == id || (same_share(t.share_id, Some(share_id)) && t.kind == TransferKind::Download)
}

/// The bytes of an array as its debug text lists them: in decimal, separated
/// by a comma and a space.
pub open spec fn byte_list(bytes: Seq<u8>) -> Seq<char>
    decreases bytes.len(),
{
    if bytes.len() == 0 {
        Seq::empty()
    } else if bytes.len() == 1 {
        decimal(bytes[0] as nat)
    } else {
        byte_list(bytes.drop_last()) + ", "@ + decimal(bytes.last() as nat)
    }
}

/// The debug text of the event that a share was deleted.
pub open spec fn share_deleted_debug(id: ShareId) -> Seq<char> {
    "ShareDeleted { share_id: ShareId(["@ + byte_list(id.0@) + "]) }"@
}

proof fn lemma_byte_list_chars(bytes: Seq<u8>)
    ensures
        forall|k: int|
            0 <= k < byte_list(bytes).len() ==> {
                let c = #[trigger] byte_list(bytes)[k];
                c == ',' || c == ' ' || 48 <= c as int <= 57
            },
    decreases bytes.len(),
{
    reveal_strlit(", ");
    if bytes.len() == 1 {
        lemma_decimal_digits(bytes[0] as nat);
    } else if bytes.len() > 1 {
        lemma_byte_list_chars(bytes.drop_last());
        lemma_decimal_digits(bytes.last() as nat);
        let a = byte_list(bytes.drop_last());
        let d = decimal(bytes.last() as nat);
        assert forall|k: int| 0 <= k < byte_list(bytes).len() implies {
            let c = #[trigger] byte_list(bytes)[k];
            c == ',' || c == ' ' || 48 <= c as int <= 57
        } by {
            if k < a.len() {
                assert(byte_list(bytes)[k] == a[k]);
            } else if k < a.len() + 2 {
                assert(byte_list(bytes)[k] == ", "@[k - a.len()]);
            } else {
                assert(byte_list(bytes)[k] == d[k - a.len() - 2]);
            }
        }
    }
}

/// The debug text of a share deletion does not mention task progress.
proof fn lemma_share_deleted_is_no_progress(id: ShareId)
    ensures
        find_sub(share_deleted_debug(id), "TaskProgress"@) is None,
{
    reveal_strlit("ShareDeleted { share_id: ShareId([");
    reveal_strlit("]) }");
    reveal_strlit("TaskProgress");
    lemma_byte_list_chars(id.0@);
    let p = "ShareDeleted { share_id: ShareId(["@;
    let b = byte_list(id.0@);
    let q = "]) }"@;
    let s = share_deleted_debug(id);
    assert forall|k: int| 0 <= k < s.len() implies s[k] != "TaskProgress"@[0] by {
        if k < p.len() {
            assert(s[k] == p[k]);
        } else if k < p.len() + b.len() {
            assert(s[k] == b[k - p.len()]);
        } else {
            assert(s[k] == q[k - p.len() - b.len()]);
        }
    }
    lemma_find_absent(s, "TaskProgress"@);
}

/// The debug text of the event that the share `id` was deleted.
fn share_deleted_debug_text(id: &ShareId) -> (r: String)
    ensures
        r@ == share_deleted_debug(*id),
{
    let mut out = chars_of("ShareDeleted { share_id: ShareId([");
    let ghost prefix = out@;
    let mut i: usize = 0;
    while i < 32
        invariant
            i <= 32,
            id.0@.len() == 32,
            out@ == prefix + byte_list(id.0@.take(i as int)),
        decreases 32 - i,
    {
        let ghost before = out@;
        if i > 0 {
            out.push(',');
            out.push(' ');
        }
        push_decimal(&mut out, id.0[i] as u64);
        proof {
            reveal_strlit(", ");
            let t = id.0@.take(i + 1);
            assert(t.drop_last() =~= id.0@.take(i as int));
            assert(t.last() == id.0@[i as int]);
            if i == 0 {
                assert(byte_list(id.0@.take(0)) =~= Seq::<char>::empty());
                assert(out@ =~= prefix + byte_list(t));
            } else {
                assert(out@ =~= prefix + byte_list(t));
            }
        }
        i = i + 1;
    }
    assert(id.0@.take(32) =~= id.0@);
    let tail = chars_of("]) }");
    let mut k: usize = 0;
    let ghost mid = out@;
    while k < tail.len()
        invariant
            k <= tail@.len(),
            out@ == mid + tail@.take(k as int),
        decreases tail@.len() - k,
    {
        out.push(tail[k]);
        assert(tail@.take(k + 1) =~= tail@.take(k as int).push(tail@[k as int]));
        k = k + 1;
    }
    assert(tail@.take(tail@.len() as int) =~= tail@);
    string_from_chars(out.as_slice())
}

/// `r` is download card `t` after a chunk is verified.
pub open spec fn chunk_card(t: GuiTransfer, completed: usize, total: usize, seq: u64, r: GuiTransfer) -> bool {
    &&& r == GuiTransfer {
        status: TransferStatus::Running,
        completed_chunks: completed,
        total_chunks: total,
        detail: r.detail,
        updated_seq: seq,
        ..t
    }
    &&& r.detail@ == "chunk verified"@
}

/// Board `b1` and latest progress `l1` after a chunk of the share `share_id`
/// is verified: the share's first download card runs with the new counts and
/// becomes the latest, or the latest says how many chunks are done; the list
/// is put in display order. One update sequence number is taken.
pub open spec fn chunk_board(
    b0: TransferBoard,
    share_id: ShareId,
    completed: usize,
    total: usize,
    b1: TransferBoard,
    l1: LatestProgress,
) -> bool {
    let seq = b0.next_transfer_seq;
    &&& b1.next_transfer_seq == bumped(seq)
    &&& b1.hidden == b0.hidden
    &&& match first_index(b0.transfers@, for_card(share_id, TransferKind::Download)) {
        Some(i) => exists|r: GuiTransfer|
            #[trigger] chunk_card(b0.transfers@[i], completed, total, seq, r) && b1.transfers@ == sorted_transfers(
                b0.transfers@.update(i, r),
            ) && l1 == LatestProgress::Card(r),
        None => {
            &&& b1.transfers@ == sorted_transfers(b0.transfers@)
            &&& l1 matches LatestProgress::Note { text, done, total: of } && text@ == "chunk: "@ + hex_lower(share_id.0@) + " "@ + decimal(
                completed as nat,
            ) + "/"@ + decimal(total as nat) && done == completed as u64 && of == total as u64
        },
    }
}

/// `r` is the running download card for a transfer progress report.
pub open spec fn progress_event_card(
    transfers: Seq<GuiTransfer>,
    shares: Seq<crate::ipc::message::IpcShareSummary>,
    job_id: Option<String>,
    share_id: ShareId,
    completed: usize,
    total: usize,
    bytes_done: u64,
    total_bytes: u64,
    bytes_per_second: u64,
    seq: u64,
    r: GuiTransfer,
) -> bool {
    &&& r == GuiTransfer {
        id: r.id,
        kind: TransferKind::Download,
        label: r.label,
        share_id: Some(share_id),
        status: TransferStatus::Running,
        completed_chunks: completed,
        total_chunks: total,
        bytes_done,
        total_bytes,
        bytes_per_second,
        detail: r.detail,
        updated_seq: seq,
    }
    &&& r.id@ == match job_id {
        Some(j) => j@,
        None => "download:"@ + hex_lower(share_id.0@),
    }
    &&& r.label@ == match share_index(shares, share_id) {
        Some(k) => shares[k].name@,
        None => hex_lower(share_id.0@),
    }
    &&& r.detail@ == match first_index(transfers, for_id_or_download(r.id@, share_id)) {
        Some(k) => if is_specific_detail(transfers[k].detail@) { transfers[k].detail@ } else { "receiving + verifying"@ },
        None => "receiving + verifying"@,
    }
}

/// `r` is card `t` once the download of `share_id` is saved to `output`: it
/// is done, bound to the share, takes the share's name and counts when the
/// share is known, and says where it was saved.
pub open spec fn completed_event_card(
    t: GuiTransfer,
    shares: Seq<crate::ipc::message::IpcShareSummary>,
    share_id: ShareId,
    output: Seq<char>,
    seq: u64,
    r: GuiTransfer,
) -> bool {
    &&& match share_index(shares, share_id) {
        Some(k) => r == GuiTransfer {
            status: TransferStatus::Done,
            share_id: Some(share_id),
            label: shares[k].name,
            completed_chunks: shares[k].completed_chunks,
            total_chunks: shares[k].total_chunks,
            detail: r.detail,
            updated_seq: seq,
            ..t
        },
        None => r == GuiTransfer { status: TransferStatus::Done, share_id: Some(share_id), detail: r.detail, updated_seq: seq, ..t },
    }
    &&& r.detail@ == "saved \u{b7} "@ + output
}

/// The card a completed transfer report is about: the first with the job's
/// id, or else the first download card of the share.
pub open spec fn completed_index(transfers: Seq<GuiTransfer>, job_id: Option<String>, share_id: ShareId) -> Option<int> {
    match job_id {
        Some(j) => match first_index(transfers, for_id(j@)) {
            Some(k) => Some(k),
            None => first_index(transfers, for_card(share_id, TransferKind::Download)),
        },
        None => first_index(transfers, for_card(share_id, TransferKind::Download)),
    }
}

/// State `new` is `old` after `event`, logged at `time`; `log_latest` says
/// that the latest progress is to be logged as well.
pub open spec fn event_applied(old: EtleGui, event: IpcEvent, time: Seq<char>, new: EtleGui, log_latest: bool) -> bool {
    match event {
        IpcEvent::ServerStarted { listen } => {
            &&& !log_latest
            &&& new == (EtleGui { connected: true, activity: new.activity, ..old })
            &&& logged(old.activity, time, "server started: "@ + socket_text(listen), new.activity)
        },
        IpcEvent::ServerStopped => {
            &&& !log_latest
            &&& new == (EtleGui { connected: false, activity: new.activity, ..old })
            &&& logged(old.activity, time, "server stopped"@, new.activity)
        },
        IpcEvent::ShareUpdated { share } => {
            &&& !log_latest
            &&& new == (EtleGui { shares: new.shares, board: new.board, latest: new.latest, ..old })
            &&& new.shares@ == share_upserted(old.shares@, share)
            &&& exists|mb: TransferBoard, ml: LatestProgress|
                #[trigger] seeds_completed(old.board, old.latest, share, mb, ml) && board_synced(mb, ml, share, new.board, new.latest)
        },
        IpcEvent::ShareDeleted { share_id } => {
            &&& !log_latest
            &&& new == (EtleGui { activity: new.activity, ..old })
            &&& logged(old.activity, time, "event: "@ + share_deleted_debug(share_id), new.activity)
        },
        IpcEvent::PeerConnected { peer_id } => {
            &&& !log_latest
            &&& new == (EtleGui { activity: new.activity, ..old })
            &&& logged(old.activity, time, "peer connected: "@ + peer_id@, new.activity)
        },
        IpcEvent::ChunkCompleted { share_id, completed_chunks, total_chunks } => {
            &&& !log_latest
            &&& new == (EtleGui { board: new.board, latest: new.latest, ..old })
            &&& chunk_board(old.board, share_id, completed_chunks, total_chunks, new.board, new.latest)
        },
        IpcEvent::TransferProgress {
            job_id,
            share_id,
            completed_chunks,
            total_chunks,
            bytes_done,
            total_bytes,
            bytes_per_second,
        } => {
            &&& !log_latest
            &&& new == (EtleGui { board: new.board, latest: new.latest, ..old })
            &&& new.board.next_transfer_seq == bumped(old.board.next_transfer_seq)
            &&& new.board.hidden == old.board.hidden
            &&& exists|r: GuiTransfer|
                #[trigger] progress_event_card(
                    old.board.transfers@,
                    old.shares@,
                    job_id,
                    share_id,
                    completed_chunks,
                    total_chunks,
                    bytes_done,
                    total_bytes,
                    bytes_per_second,
                    old.board.next_transfer_seq,
                    r,
                ) && new.board.transfers@ == upserted(old.board.transfers@, old.board.hidden_views(), r) && new.latest
                    == LatestProgress::Card(r)
        },
        IpcEvent::TaskProgress {
            job_id,
            task,
            label,
            completed_chunks,
            total_chunks,
            bytes_done,
            total_bytes,
            bytes_per_second,
        } => {
            let p = TaskProgressSnapshot {
                job_id,
                task,
                label,
                completed_chunks,
                total_chunks,
                bytes_done,
                total_bytes,
                bytes_per_second,
            };
            &&& !log_latest
            &&& new == (EtleGui { board: new.board, latest: new.latest, ..old })
            &&& new.board.next_transfer_seq == bumped(old.board.next_transfer_seq)
            &&& new.board.hidden == old.board.hidden
            &&& exists|r: GuiTransfer|
                #[trigger] progress_card(p, old.shares@, old.board.next_transfer_seq, r) && new.board.transfers@ == upserted(
                    old.board.transfers@,
                    old.board.hidden_views(),
                    r,
                ) && new.latest == LatestProgress::Card(r)
        },
        IpcEvent::TransferCompleted { job_id, share_id, output } => {
            let seq = old.board.next_transfer_seq;
            &&& log_latest
            &&& new == (EtleGui { board: new.board, latest: new.latest, ..old })
            &&& new.board.next_transfer_seq == bumped(seq)
            &&& new.board.hidden == old.board.hidden
            &&& match completed_index(old.board.transfers@, job_id, share_id) {
                Some(i) => exists|r: GuiTransfer|
                    #[trigger] completed_event_card(old.board.transfers@[i], old.shares@, share_id, output@, seq, r)
                        && new.board.transfers@ == sorted_transfers(old.board.transfers@.update(i, r)) && new.latest
                        == LatestProgress::Card(r),
                None => {
                    &&& new.board.transfers@ == sorted_transfers(old.board.transfers@)
                    &&& new.latest matches LatestProgress::Note { text, done, total } && text@ == "completed \u{b7} share="@
                        + hex_lower(share_id.0@) + " \u{b7} output="@ + output@ && done == 1 && total == 1
                },
            }
        },
        IpcEvent::Error { message } => {
            &&& !log_latest
            &&& new == (EtleGui { board: new.board, activity: new.activity, ..old })
            &&& failed_board(old.board, message@, new.board)
            &&& logged(old.activity, time, "event error: "@ + message@, new.activity)
        },
    }
}

impl TransferBoard {
    /// The index of the first card whose id is `id`.
    pub fn position_by_id(&self, id: &str) -> (r: Option<usize>)
        ensures
            match first_index(self.transfers@, for_id(id@)) {
                Some(i) => r == Some(i as usize),
                None => r is None,
            },
            first_index(self.transfers@, for_id(id@)) matches Some(i) ==> 0 <= i < self.transfers.len(),
    {
        proof {
            lemma_first_index_bound(self.transfers@, for_id(id@));
        }
        let mut i: usize = 0;
        while i < self.transfers.len()
            invariant
                i <= self.transfers@.len(),
                forall|k: int| 0 <= k < i ==> (#[trigger] self.transfers@[k]).id@ != id@,
            decreases self.transfers@.len() - i,
        {
            if str_equal(self.transfers[i].id.as_str(), id) {
                proof {
                    lemma_first_index(self.transfers@, for_id(id@), i as int);
                }
                return Some(i);
            }
            i = i + 1;
        }
        proof {
            lemma_first_index(self.transfers@, for_id(id@), i as int);
        }
        None
    }

    /// The index of the first card whose id is `id` or that downloads the
    /// share `share_id`.
    fn position_by_id_or_download(&self, id: &str, share_id: ShareId) -> (r: Option<usize>)
        ensures
            match first_index(self.transfers@, for_id_or_download(id@, share_id)) {
                Some(i) => r == Some(i as usize),
                None => r is None,
            },
            first_index(self.transfers@, for_id_or_download(id@, share_id)) matches Some(i) ==> 0 <= i < self.transfers.len(),
    {
        proof {
            lemma_first_index_bound(self.transfers@, for_id_or_download(id@, share_id));
        }
        let target = Some(share_id);
        let mut i: usize = 0;
        while i < self.transfers.len()
            invariant
                target == Some(share_id),
                i <= self.transfers@.len(),
                forall|k: int| 0 <= k < i ==> !for_id_or_download(id@, share_id)(#[trigger] self.transfers@[k]),
            decreases self.transfers@.len() - i,
        {
            let t = &self.transfers[i];
            if str_equal(t.id.as_str(), id) || (crate::gui::board::same_share_exec(&t.share_id, &target) && t.kind
                == TransferKind::Download) {
                proof {
                    lemma_first_index(self.transfers@, for_id_or_download(id@, share_id), i as int);
                }
                return Some(i);
            }
            i = i + 1;
        }
        proof {
            lemma_first_index(self.transfers@, for_id_or_download(id@, share_id), i as int);
        }
        None
    }
}

impl EtleGui {
    /// Takes in an event of the daemon (see `event_applied`), logging at
    /// `time`. Returns whether the latest progress is to be logged too.
    pub fn apply_ipc_event(&mut self, event: IpcEvent, time: &str) -> (log_latest: bool)
        ensures
            event_applied(*old(self), event, time@, *final(self), log_latest),
    {
        match event {
            IpcEvent::ServerStarted { listen } => {
                self.connected = true;
                let mut line = "server started: ".to_string();
                line.append(listen.to_string().as_str());
                self.activity.push(line.as_str(), time);
                false
            },
            IpcEvent::ServerStopped => {
                self.connected = false;
                self.activity.push("server stopped", time);
                false
            },
            IpcEvent::ShareUpdated { share } => {
                let ghost b0 = self.board;
                let ghost l0 = self.latest;
                let first = self.board.mark_seed_completed(&share);
                match first {
                    Some(c) => {
                        self.latest = LatestProgress::Card(c);
                    },
                    None => {},
                }
                let ghost mb = self.board;
                let ghost ml = self.latest;
                assert(seeds_completed(b0, l0, share, mb, ml));
                let second = self.board.sync_from_share(&share);
                match second {
                    Some(c) => {
                        self.latest = LatestProgress::Card(c);
                    },
                    None => {},
                }
                assert(board_synced(mb, ml, share, self.board, self.latest));
                upsert_share(&mut self.shares, share);
                false
            },
            IpcEvent::ShareDeleted { share_id } => {
                let debug = share_deleted_debug_text(&share_id);
                proof {
                    lemma_share_deleted_is_no_progress(share_id);
                }
                match parse_task_progress_debug(debug.as_str()) {
                    Some(progress) => {
                        let card = self.board.apply_task_progress(&progress, self.shares.as_slice());
                        self.latest = LatestProgress::Card(card);
                    },
                    None => {
                        let mut line = "event: ".to_string();
                        line.append(debug.as_str());
                        self.activity.push(line.as_str(), time);
                    },
                }
                false
            },
            IpcEvent::PeerConnected { peer_id } => {
                let mut line = "peer connected: ".to_string();
                line.append(peer_id.as_str());
                self.activity.push(line.as_str(), time);
                false
            },
            IpcEvent::ChunkCompleted { share_id, completed_chunks, total_chunks } => {
                let seq = self.board.bump_seq();
                match self.board.find_transfer_by_share(share_id, TransferKind::Download) {
                    Some(i) => {
                        let t = &self.board.transfers[i];
                        let ghost old_t = *t;
                        let card = GuiTransfer {
                            id: t.id.clone(),
                            kind: t.kind,
                            label: t.label.clone(),
                            share_id: t.share_id,
                            status: TransferStatus::Running,
                            completed_chunks,
                            total_chunks,
                            bytes_done: t.bytes_done,
                            total_bytes: t.total_bytes,
                            bytes_per_second: t.bytes_per_second,
                            detail: "chunk verified".to_string(),
                            updated_seq: seq,
                        };
                        assert(chunk_card(old_t, completed_chunks, total_chunks, seq, card));
                        self.latest = LatestProgress::Card(copy_transfer(&card));
                        self.board.replace_card(i, card);
                    },
                    None => {
                        let mut text = "chunk: ".to_string();
                        text.append(share_id.to_string().as_str());
                        text.append(" ");
                        text.append(decimal_string(completed_chunks as u64).as_str());
                        text.append("/");
                        text.append(decimal_string(total_chunks as u64).as_str());
                        self.latest = LatestProgress::Note { text, done: completed_chunks as u64, total: total_chunks as u64 };
                        self.board.sort();
                    },
                }
                false
            },
            IpcEvent::TransferProgress {
                job_id,
                share_id,
                completed_chunks,
                total_chunks,
                bytes_done,
                total_bytes,
                bytes_per_second,
            } => {
                let ghost jid = job_id;
                let id = match job_id {
                    Some(j) => j,
                    None => {
                        let mut s = "download:".to_string();
                        s.append(share_id.to_string().as_str());
                        s
                    },
                };
                let seq = self.board.bump_seq();
                let label = match find_share(self.shares.as_slice(), share_id) {
                    Some(k) => self.shares[k].name.clone(),
                    None => share_id.to_string(),
                };
                let detail = match self.board.position_by_id_or_download(id.as_str(), share_id) {
                    Some(k) => {
                        let existing = &self.board.transfers[k].detail;
                        if is_specific_progress_detail(existing.as_str()) {
                            existing.clone()
                        } else {
                            "receiving + verifying".to_string()
                        }
                    },
                    None => "receiving + verifying".to_string(),
                };
                let card = GuiTransfer {
                    id,
                    kind: TransferKind::Download,
                    label,
                    share_id: Some(share_id),
                    status: TransferStatus::Running,
                    completed_chunks,
                    total_chunks,
                    bytes_done,
                    total_bytes,
                    bytes_per_second,
                    detail,
                    updated_seq: seq,
                };
                assert(progress_event_card(
                    old(self).board.transfers@,
                    old(self).shares@,
                    jid,
                    share_id,
                    completed_chunks,
                    total_chunks,
                    bytes_done,
                    total_bytes,
                    bytes_per_second,
                    seq,
                    card,
                ));
                self.latest = LatestProgress::Card(copy_transfer(&card));
                self.board.upsert_transfer(card);
                false
            },
            IpcEvent::TaskProgress {
                job_id,
                task,
                label,
                completed_chunks,
                total_chunks,
                bytes_done,
                total_bytes,
                bytes_per_second,
            } => {
                let progress = TaskProgressSnapshot {
                    job_id,
                    task,
                    label,
                    completed_chunks,
                    total_chunks,
                    bytes_done,
                    total_bytes,
                    bytes_per_second,
                };
                let card = self.board.apply_task_progress(&progress, self.shares.as_slice());
                self.latest = LatestProgress::Card(card);
                false
            },
            IpcEvent::TransferCompleted { job_id, share_id, output } => {
                let seq = self.board.bump_seq();
                let by_job = match &job_id {
                    Some(j) => self.board.position_by_id(j.as_str()),
                    None => None,
                };
                let index = match by_job {
                    Some(k) => Some(k),
                    None => self.board.find_transfer_by_share(share_id, TransferKind::Download),
                };
                match index {
                    Some(i) => {
                        let t = &self.board.transfers[i];
                        let ghost old_t = *t;
                        let mut detail = "saved \u{b7} ".to_string();
                        detail.append(output.as_str());
                        let (label, completed, total) = match find_share(self.shares.as_slice(), share_id) {
                            Some(k) => (self.shares[k].name.clone(), self.shares[k].completed_chunks, self.shares[k].total_chunks),
                            None => (t.label.clone(), t.completed_chunks, t.total_chunks),
                        };
                        let card = GuiTransfer {
                            id: t.id.clone(),
                            kind: t.kind,
                            label,
                            share_id: Some(share_id),
                            status: TransferStatus::Done,
                            completed_chunks: completed,
                            total_chunks: total,
                            bytes_done: t.bytes_done,
                            total_bytes: t.total_bytes,
                            bytes_per_second: t.bytes_per_second,
                            detail,
                            updated_seq: seq,
                        };
                        proof {
                            reveal_strlit("saved \u{b7} ");
                        }
                        assert(completed_event_card(old_t, old(self).shares@, share_id, output@, seq, card));
                        self.latest = LatestProgress::Card(copy_transfer(&card));
                        self.board.replace_card(i, card);
                    },
                    None => {
                        let mut text = "completed \u{b7} share=".to_string();
                        text.append(share_id.to_string().as_str());
                        text.append(" \u{b7} output=");
                        text.append(output.as_str());
                        self.latest = LatestProgress::Note { text, done: 1, total: 1 };
                        self.board.sort();
                    },
                }
                true
            },
            IpcEvent::Error { message } => {
                self.board.mark_recent_running_failed(message.as_str());
                let mut line = "event error: ".to_string();
                line.append(message.as_str());
                self.activity.push(line.as_str(), time);
                false
            },
        }
    }
}

} // verus!
