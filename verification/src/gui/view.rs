//! The texts the desktop client shows, and the signatures by which it tells
//! when a list must be drawn again.

use vstd::prelude::*;

use crate::bytes::{decimal, decimal_string, hex_lower};
use crate::gui::board::views;
use crate::gui::client::EtleGui;
use crate::gui::model::{kind_word, status_word, GuiTransfer, TransferStatus};
use crate::ipc::message::IpcShareSummary;
use crate::text::{find_sub, str_contains, str_equal};

verus! {

/// The lines joined with a line break between each two.
pub open spec fn lines_joined(lines: Seq<Seq<char>>) -> Seq<char>
    decreases lines.len(),
{
    if lines.len() == 0 {
        Seq::empty()
    } else if lines.len() == 1 {
        lines[0]
    } else {
        lines_joined(lines.drop_last()) + seq!['\n'] + lines.last()
    }
}

/// Joins lines with a line break between each two.
pub fn join_lines(lines: &[String]) -> (r: String)
    ensures
        r@ == lines_joined(views(lines@)),
{
    let mut out = String::new();
    let mut i: usize = 0;
    while i < lines.len()
        invariant
            i <= lines@.len(),
            out@ == lines_joined(views(lines@).take(i as int)),
        decreases lines@.len() - i,
    {
        if i > 0 {
            out.append("\n");
        }
        out.append(lines[i].as_str());
        proof {
            reveal_strlit("\n");
            let v = views(lines@);
            assert(v.take(i + 1).drop_last() =~= v.take(i as int));
            if i == 0 {
                assert(v.take(1) =~= seq![lines@[0]@]);
            }
        }
        i = i + 1;
    }
    assert(views(lines@).take(lines@.len() as int) =~= views(lines@));
    out
}

/// A boolean as Rust writes it.
pub open spec fn bool_text(b: bool) -> Seq<char> {
    if b { "true"@ } else { "false"@ }
}

/// The signature line of a share: id, name, mode, chunk counts and whether
/// its key is held.
pub open spec fn share_signature(share: IpcShareSummary) -> Seq<char> {
    let mode = match share.mode {
        Some(m) => m@,
        None => Seq::empty(),
    };
    hex_lower(share.share_id.0@) + ":"@ + share.name@ + ":"@ + mode + ":"@ + decimal(share.completed_chunks as nat) + ":"@ + decimal(
        share.total_chunks as nat,
    ) + ":"@ + bool_text(share.has_secret)
}

/// The signature line of a transfer card: each of its fields.
pub open spec fn transfer_signature_line(t: GuiTransfer) -> Seq<char> {
    let share = match t.share_id {
        Some(s) => hex_lower(s.0@),
        None => Seq::empty(),
    };
    t.id@ + ":"@ + kind_word(t.kind) + ":"@ + t.label@ + ":"@ + status_word(t.status) + ":"@ + share + ":"@ + decimal(
        t.completed_chunks as nat,
    ) + ":"@ + decimal(t.total_chunks as nat) + ":"@ + decimal(t.bytes_done as nat) + ":"@ + decimal(t.total_bytes as nat) + ":"@
        + decimal(t.bytes_per_second as nat) + ":"@ + t.detail@
}

/// The signature of the seed queue: its paths, one per line.
pub fn seed_signature(files: &[String]) -> (r: String)
    ensures
        r@ == lines_joined(views(files@)),
{
    join_lines(files)
}

/// The signature line of a share.
fn share_signature_line(share: &IpcShareSummary) -> (r: String)
    ensures
        r@ == share_signature(*share),
{
    let mut s = share.share_id.to_string();
    s.append(":");
    s.append(share.name.as_str());
    s.append(":");
    match &share.mode {
        Some(m) => s.append(m.as_str()),
        None => {},
    }
    s.append(":");
    s.append(decimal_string(share.completed_chunks as u64).as_str());
    s.append(":");
    s.append(decimal_string(share.total_chunks as u64).as_str());
    s.append(":");
    s.append(if share.has_secret { "true" } else { "false" });
    s
}

/// The signature of the library list: one line per share.
pub fn library_signature(shares: &[IpcShareSummary]) -> (r: String)
    ensures
        r@ == lines_joined(shares@.map_values(|s: IpcShareSummary| share_signature(s))),
{
    let mut lines: Vec<String> = Vec::new();
    let mut i: usize = 0;
    while i < shares.len()
        invariant
            i <= shares@.len(),
            views(lines@) == shares@.take(i as int).map_values(|s: IpcShareSummary| share_signature(s)),
        decreases shares@.len() - i,
    {
        let ghost before = lines@;
        lines.push(share_signature_line(&shares[i]));
        proof {
            assert(views(lines@) =~= views(before).push(share_signature(shares@[i as int])));
            assert(shares@.take(i + 1).map_values(|s: IpcShareSummary| share_signature(s)) =~= shares@.take(i as int).map_values(
                |s: IpcShareSummary| share_signature(s),
            ).push(share_signature(shares@[i as int])));
        }
        i = i + 1;
    }
    assert(shares@.take(shares@.len() as int) =~= shares@);
    join_lines(lines.as_slice())
}

/// The signature line of a transfer card.
fn transfer_line(t: &GuiTransfer) -> (r: String)
    ensures
        r@ == transfer_signature_line(*t),
{
    let mut s = t.id.clone();
    s.append(":");
    s.append(t.kind.label());
    s.append(":");
    s.append(t.label.as_str());
    s.append(":");
    s.append(t.status.label());
    s.append(":");
    match t.share_id {
        Some(id) => s.append(id.to_string().as_str()),
        None => {},
    }
    s.append(":");
    s.append(decimal_string(t.completed_chunks as u64).as_str());
    s.append(":");
    s.append(decimal_string(t.total_chunks as u64).as_str());
    s.append(":");
    s.append(decimal_string(t.bytes_done).as_str());
    s.append(":");
    s.append(decimal_string(t.total_bytes).as_str());
    s.append(":");
    s.append(decimal_string(t.bytes_per_second).as_str());
    s.append(":");
    s.append(t.detail.as_str());
    s
}

/// The signature of the transfer list: one line per card.
pub fn transfer_signature(transfers: &[GuiTransfer]) -> (r: String)
    ensures
        r@ == lines_joined(transfers@.map_values(|t: GuiTransfer| transfer_signature_line(t))),
{
    let mut lines: Vec<String> = Vec::new();
    let mut i: usize = 0;
    while i < transfers.len()
        invariant
            i <= transfers@.len(),
            views(lines@) == transfers@.take(i as int).map_values(|t: GuiTransfer| transfer_signature_line(t)),
        decreases transfers@.len() - i,
    {
        let ghost before = lines@;
        lines.push(transfer_line(&transfers[i]));
        proof {
            assert(views(lines@) =~= views(before).push(transfer_signature_line(transfers@[i as int])));
            assert(transfers@.take(i + 1).map_values(|t: GuiTransfer| transfer_signature_line(t)) =~= transfers@.take(
                i as int,
            ).map_values(|t: GuiTransfer| transfer_signature_line(t)).push(transfer_signature_line(transfers@[i as int])));
        }
        i = i + 1;
    }
    assert(transfers@.take(transfers@.len() as int) =~= transfers@);
    join_lines(lines.as_slice())
}

/// The short name of the phase a detail names.
pub open spec fn short_phase_text(detail: Seq<char>) -> Seq<char> {
    if find_sub(detail, "decrypting"@) is Some {
        "decrypt"@
    } else if find_sub(detail, "receiving"@) is Some {
        "receive"@
    } else if find_sub(detail, "encrypting"@) is Some {
        "encrypt"@
    } else if find_sub(detail, "uploading"@) is Some {
        "upload"@
    } else {
        "running"@
    }
}

/// The short name of the phase a detail names.
pub fn short_phase(detail: &str) -> (r: &'static str)
    ensures
        r@ == short_phase_text(detail@),
{
    if str_contains(detail, "decrypting") {
        "decrypt"
    } else if str_contains(detail, "receiving") {
        "receive"
    } else if str_contains(detail, "encrypting") {
        "encrypt"
    } else if str_contains(detail, "uploading") {
        "upload"
    } else {
        "running"
    }
}

/// The badge of a transfer card: its status symbol, then the phase of a
/// running card or the status of another.
pub fn transfer_badge(t: &GuiTransfer) -> (r: String)
    ensures
        r@ == crate::gui::model::status_icon(t.status) + " "@ + if t.status == TransferStatus::Running {
            short_phase_text(t.detail@)
        } else {
            status_word(t.status)
        },
{
    let mut s = t.status.icon().to_string();
    s.append(" ");
    if t.status == TransferStatus::Running {
        s.append(short_phase(t.detail.as_str()));
    } else {
        s.append(t.status.label());
    }
    s
}

/// What the status line adds for a status: nothing for an empty or
/// connection status or a share count, else a separator and the status.
pub open spec fn status_detail(status: Seq<char>) -> Seq<char> {
    if status.len() == 0 || status == "online"@ || status == "offline"@ || status == "idle"@ || (status.len() >= 9
        && status.subrange(status.len() - 9, status.len() as int) == " share(s)"@) {
        Seq::empty()
    } else {
        " \u{b7} "@ + status
    }
}

/// The client's status line: online or offline, how many shares, the status
/// when it says more, and whether events are watched.
pub open spec fn status_line_text(gui: EtleGui) -> Seq<char> {
    (if gui.connected { "online"@ } else { "offline"@ }) + " \u{b7} "@ + decimal(gui.shares@.len()) + " share(s)"@ + status_detail(
        gui.status@,
    ) + if gui.watching { " \u{b7} events on"@ } else { Seq::empty() }
}

/// Whether `s` ends with ` share(s)`.
fn ends_with_share_count(s: &str) -> (r: bool)
    ensures
        r == (s@.len() >= 9 && s@.subrange(s@.len() - 9, s@.len() as int) == " share(s)"@),
{
    let chars = crate::bytes::chars_of(s);
    let tail = crate::bytes::chars_of(" share(s)");
    proof {
        reveal_strlit(" share(s)");
    }
    assert(tail@.len() == 9);
    if chars.len() < 9 {
        return false;
    }
    let start = chars.len() - 9;
    let mut k: usize = 0;
    while k < 9
        invariant
            chars@ == s@,
            tail@ == " share(s)"@,
            tail@.len() == 9,
            chars@.len() >= 9,
            start == chars@.len() - 9,
            start + 9 == chars.len(),
            k <= 9,
            forall|j: int| 0 <= j < k ==> chars@[start + j] == tail@[j],
        decreases 9 - k,
    {
        if chars[start + k] != tail[k] {
            assert(s@.subrange(s@.len() - 9, s@.len() as int)[k as int] != " share(s)"@[k as int]);
            return false;
        }
        k = k + 1;
    }
    assert(s@.subrange(s@.len() - 9, s@.len() as int) =~= " share(s)"@);
    true
}

impl EtleGui {
    /// The status line (see `status_line_text`).
    pub fn status_line(&self) -> (r: String)
        ensures
            r@ == status_line_text(*self),
    {
        let mut s = if self.connected { "online".to_string() } else { "offline".to_string() };
        s.append(" \u{b7} ");
        s.append(decimal_string(self.shares.len() as u64).as_str());
        s.append(" share(s)");
        let status = self.status.as_str();
        if !(status.is_empty() || str_equal(status, "online") || str_equal(status, "offline") || str_equal(status, "idle")
            || ends_with_share_count(status)) {
            s.append(" \u{b7} ");
            s.append(status);
        }
        if self.watching {
            s.append(" \u{b7} events on");
        }
        s
    }

    /// The activity lines as one text.
    pub fn activity_text(&self) -> (r: String)
        ensures
            r@ == lines_joined(self.activity.lines_view()),
    {
        join_lines(self.activity.lines.as_slice())
    }
}

} // verus!
