//! The desktop client's model: transfers, their labels, and the download
//! command it builds from its form.

use vstd::prelude::*;
use vstd::utf8::encode_utf8;

use crate::bytes::{chars_of, hex_lower, string_from_chars};
use crate::file::descriptor::{parse_share_id, ShareId};
use crate::gui::format::non_empty;
use crate::ipc::commands::{share_mode_word, summary_of, LocalShare};
use crate::ipc::message::{download_settings, IpcCommand, IpcShareSummary, ShareMode};
use crate::net::{parse_ipv4, parse_ipv4_spec, Ipv4Address, SocketAddress};
use crate::net6::{parse_socket, parse_socket_spec};
use crate::text::{find_sub, is_white, is_white_exec, lemma_trimmed_all_white, lemma_trimmed_exact, str_contains, str_equal, trimmed};

verus! {

/// How often the client refreshes by default, in seconds.
pub const DEFAULT_REFRESH_INTERVAL_SECS: u64 = 2;
/// How many activity lines the client keeps by default.
pub const DEFAULT_ACTIVITY_LIMIT: usize = 160;

/// Whether a transfer seeds or downloads.
#[derive(Clone, Copy, Debug, PartialEq, Eq, Structural)]
pub enum TransferKind {
    Seed,
    Download,
}

impl TransferKind {
    /// The word for the kind.
    pub fn label(self) -> (r: &'static str)
        ensures
            r@ == match self { TransferKind::Seed => "seed"@, TransferKind::Download => "download"@ },
    {
        match self {
            TransferKind::Seed => "seed",
            TransferKind::Download => "download",
        }
    }
}

/// Where a transfer is.
#[derive(Clone, Copy, Debug, PartialEq, Eq, Structural)]
pub enum TransferStatus {
    Queued,
    Running,
    Done,
    Failed,
}

/// The symbol for a status.
pub open spec fn status_icon(status: TransferStatus) -> Seq<char> {
    match status {
        TransferStatus::Queued => "\u{2026}"@,
        TransferStatus::Running => "\u{21bb}"@,
        TransferStatus::Done => "\u{2713}"@,
        TransferStatus::Failed => "\u{2715}"@,
    }
}

impl TransferStatus {
    /// The symbol for the status.
    pub fn icon(self) -> (r: &'static str)
        ensures
            r@ == status_icon(self),
    {
        match self {
            TransferStatus::Queued => "\u{2026}",
            TransferStatus::Running => "\u{21bb}",
            TransferStatus::Done => "\u{2713}",
            TransferStatus::Failed => "\u{2715}",
        }
    }

    /// The word for the status.
    pub fn label(self) -> (r: &'static str)
        ensures
            r@ == match self {
                TransferStatus::Queued => "queued"@,
                TransferStatus::Running => "running"@,
                TransferStatus::Done => "done"@,
                TransferStatus::Failed => "failed"@,
            },
    {
        match self {
            TransferStatus::Queued => "queued",
            TransferStatus::Running => "running",
            TransferStatus::Done => "done",
            TransferStatus::Failed => "failed",
        }
    }

    /// Whether the transfer has ended, well or not.
    pub fn is_finished(self) -> (r: bool)
        ensures
            r == (self == TransferStatus::Done || self == TransferStatus::Failed),
    {
        match self {
            TransferStatus::Done | TransferStatus::Failed => true,
            _ => false,
        }
    }
}

/// A request the client makes to the daemon.
#[derive(Clone, Copy, Debug, PartialEq, Eq, Structural)]
pub enum IpcRequestKind {
    Ping,
    ListShares,
    Seed,
    Download,
}

impl IpcRequestKind {
    /// The word for the request.
    pub fn label(self) -> (r: &'static str)
        ensures
            r@ == match self {
                IpcRequestKind::Ping => "ping"@,
                IpcRequestKind::ListShares => "refresh"@,
                IpcRequestKind::Seed => "seed"@,
                IpcRequestKind::Download => "download"@,
            },
    {
        match self {
            IpcRequestKind::Ping => "ping",
            IpcRequestKind::ListShares => "refresh",
            IpcRequestKind::Seed => "seed",
            IpcRequestKind::Download => "download",
        }
    }
}

/// How long the client waits for the answer to a request, in seconds: a
/// ping is answered quickly, the others may take a while.
pub fn request_timeout_secs(kind: IpcRequestKind) -> (r: u64)
    ensures
        r == if kind == IpcRequestKind::Ping { 5u64 } else { 30u64 },
{
    match kind {
        IpcRequestKind::Ping => 5,
        _ => 30,
    }
}

/// A transfer as the client shows it.
#[derive(Clone, Debug)]
pub struct GuiTransfer {
    pub id: String,
    pub kind: TransferKind,
    pub label: String,
    pub share_id: Option<ShareId>,
    pub status: TransferStatus,
    pub completed_chunks: usize,
    pub total_chunks: usize,
    pub bytes_done: u64,
    pub total_bytes: u64,
    pub bytes_per_second: u64,
    pub detail: String,
    pub updated_seq: u64,
}

/// The word for a transfer kind.
pub open spec fn kind_word(kind: TransferKind) -> Seq<char> {
    match kind {
        TransferKind::Seed => "seed"@,
        TransferKind::Download => "download"@,
    }
}

/// The word for a transfer status.
pub open spec fn status_word(status: TransferStatus) -> Seq<char> {
    match status {
        TransferStatus::Queued => "queued"@,
        TransferStatus::Running => "running"@,
        TransferStatus::Done => "done"@,
        TransferStatus::Failed => "failed"@,
    }
}

/// The key under which a finished transfer is hidden: its kind, status and
/// share id (or, without a share, its id).
pub open spec fn hide_key_spec(t: GuiTransfer) -> Seq<char> {
    kind_word(t.kind) + ":"@ + status_word(t.status) + ":"@ + match t.share_id {
        Some(s) => hex_lower(s.0@),
        None => t.id@,
    }
}

impl GuiTransfer {
    /// The key under which the transfer is hidden once finished.
    pub fn hide_key(&self) -> (r: String)
        ensures
            r@ == hide_key_spec(*self),
    {
        let mut s = self.kind.label().to_string();
        s.append(":");
        s.append(self.status.label());
        s.append(":");
        match self.share_id {
            Some(share_id) => s.append(share_id.to_string().as_str()),
            None => s.append(self.id.as_str()),
        }
        s
    }
}

/// All the keys a hidden transfer is known by: its id, its kind and label,
/// its hide key, and its kind and share id when it has a share.
pub fn transfer_hidden_keys(transfer: &GuiTransfer) -> (r: Vec<String>)
    ensures
        r@.len() == if transfer.share_id is Some { 4int } else { 3int },
        r@[0]@ == transfer.id@,
        r@[1]@ == kind_word(transfer.kind) + ":label:"@ + transfer.label@,
        r@[2]@ == hide_key_spec(*transfer),
        transfer.share_id matches Some(s) ==> r@[3]@ == kind_word(transfer.kind) + ":share:"@ + hex_lower(s.0@),
{
    let mut keys: Vec<String> = Vec::new();
    keys.push(transfer.id.clone());
    let mut by_label = transfer.kind.label().to_string();
    by_label.append(":label:");
    by_label.append(transfer.label.as_str());
    keys.push(by_label);
    keys.push(transfer.hide_key());
    if let Some(share_id) = transfer.share_id {
        let mut by_share = transfer.kind.label().to_string();
        by_share.append(":share:");
        by_share.append(share_id.to_string().as_str());
        keys.push(by_share);
    }
    keys
}

/// `s` with every `c` replaced by `rep`.
pub open spec fn replace_char(s: Seq<char>, c: char, rep: Seq<char>) -> Seq<char>
    decreases s.len(),
{
    if s.len() == 0 {
        Seq::empty()
    } else {
        replace_char(s.drop_last(), c, rep) + if s.last() == c { rep } else { seq![s.last()] }
    }
}

/// A readable phase for a task name of the daemon.
pub open spec fn friendly_detail_spec(task: Seq<char>) -> Seq<char> {
    if find_sub(task, "completed"@) is Some {
        "completed"@
    } else if find_sub(task, "decrypted+written"@) is Some {
        "decrypting + writing"@
    } else if find_sub(task, "received+verified"@) is Some {
        "receiving + verifying"@
    } else if find_sub(task, "served-from-library"@) is Some {
        "uploading chunks"@
    } else if find_sub(task, "staged+encrypted"@) is Some {
        "encrypting + staging"@
    } else if find_sub(task, "seed"@) is Some {
        "seeding"@
    } else {
        replace_char(task, ':', " \u{b7} "@)
    }
}

/// A readable phase for a task name of the daemon.
pub fn friendly_task_detail(task: &str) -> (r: String)
    ensures
        r@ == friendly_detail_spec(task@),
{
    if str_contains(task, "completed") {
        "completed".to_string()
    } else if str_contains(task, "decrypted+written") {
        "decrypting + writing".to_string()
    } else if str_contains(task, "received+verified") {
        "receiving + verifying".to_string()
    } else if str_contains(task, "served-from-library") {
        "uploading chunks".to_string()
    } else if str_contains(task, "staged+encrypted") {
        "encrypting + staging".to_string()
    } else if str_contains(task, "seed") {
        "seeding".to_string()
    } else {
        let chars = chars_of(task);
        let mut out: Vec<char> = Vec::new();
        let mut i: usize = 0;
        while i < chars.len()
            invariant
                chars@ == task@,
                i <= chars@.len(),
                out@ == replace_char(chars@.take(i as int), ':', " \u{b7} "@),
            decreases chars@.len() - i,
        {
            proof {
                reveal_strlit(" \u{b7} ");
                assert(chars@.take(i + 1).drop_last() =~= chars@.take(i as int));
            }
            if chars[i] == ':' {
                out.push(' ');
                out.push('\u{b7}');
                out.push(' ');
            } else {
                out.push(chars[i]);
            }
            i = i + 1;
            assert(out@ =~= replace_char(chars@.take(i as int), ':', " \u{b7} "@));
        }
        assert(chars@.take(chars@.len() as int) =~= chars@);
        string_from_chars(out.as_slice())
    }
}

/// A detail that names a specific phase of work.
pub open spec fn is_specific_detail(detail: Seq<char>) -> bool {
    find_sub(detail, "receiving"@) is Some || find_sub(detail, "decrypting"@) is Some
        || find_sub(detail, "encrypting"@) is Some || find_sub(detail, "uploading"@) is Some
        || find_sub(detail, "writing"@) is Some || find_sub(detail, "saved"@) is Some
}

/// Whether a detail names a specific phase of work.
pub fn is_specific_progress_detail(detail: &str) -> (r: bool)
    ensures
        r == is_specific_detail(detail@),
{
    str_contains(detail, "receiving") || str_contains(detail, "decrypting") || str_contains(detail, "encrypting")
        || str_contains(detail, "uploading") || str_contains(detail, "writing") || str_contains(detail, "saved")
}

/// A share is complete: all its chunks are there; a share without chunks is
/// complete when it is seeding or completed.
pub open spec fn share_complete(share: IpcShareSummary) -> bool {
    if share.total_chunks == 0 {
        share.mode matches Some(m) && (m@ == "seeding"@ || m@ == "completed"@)
    } else {
        share.completed_chunks >= share.total_chunks
    }
}

/// Each share mode is told by a word of its own, so a client can tell the
/// modes apart by the words it is sent.
pub proof fn lemma_share_mode_words_differ(a: ShareMode, b: ShareMode)
    ensures
        a != b ==> share_mode_word(a) != share_mode_word(b),
{
    reveal_strlit("seeding");
    reveal_strlit("downloading");
    reveal_strlit("completed");
    reveal_strlit("paused");
    if a != b {
        let (wa, wb) = (share_mode_word(a), share_mode_word(b));
        if wa.len() == wb.len() {
            assert(wa[0] != wb[0] || wa[1] != wb[1]);
        }
    }
}

/// What the daemon tells of a share without chunks is read by the client as
/// complete exactly when the daemon holds the share completed or seeds it: a
/// share still downloading or paused is not shown as done.
pub proof fn lemma_client_reads_share_mode(share: LocalShare, r: IpcShareSummary)
    requires
        summary_of(share, r),
        share.total_chunks == 0,
    ensures
        share_complete(r) <==> (share.mode == Some(ShareMode::Completed) || share.mode == Some(ShareMode::Seeding)),
{
    reveal_strlit("seeding");
    reveal_strlit("downloading");
    reveal_strlit("completed");
    reveal_strlit("paused");
    if let Some(m) = share.mode {
        let w = r.mode->0@;
        assert(w == share_mode_word(m));
        if m == ShareMode::Downloading {
            assert(w[0] != "seeding"@[0] && w[0] != "completed"@[0]);
        } else if m == ShareMode::Paused {
            assert(w[0] != "seeding"@[0] && w[0] != "completed"@[0]);
        }
    }
}

/// A status that ends a transfer, well or not.
pub open spec fn finished(status: TransferStatus) -> bool {
    status == TransferStatus::Done || status == TransferStatus::Failed
}

/// Whether a share is complete (see `share_complete`).
pub fn share_is_complete(share: &IpcShareSummary) -> (r: bool)
    ensures
        r == share_complete(*share),
{
    if share.total_chunks == 0 {
        return match &share.mode {
            Some(m) => str_equal(m.as_str(), "seeding") || str_equal(m.as_str(), "completed"),
            None => false,
        };
    }
    share.completed_chunks >= share.total_chunks
}

/// A character that separates peers in a list: a comma or white space.
pub open spec fn is_peer_separator(c: char) -> bool {
    c == ',' || c == '\n' || is_white(c)
}

/// The peers named in a list, by a scan whose state is (peers so far, the
/// peer being read).
pub open spec fn peer_scan(s: Seq<char>) -> (Seq<Seq<char>>, Seq<char>)
    decreases s.len(),
{
    if s.len() == 0 {
        (Seq::empty(), Seq::empty())
    } else {
        let (done, current) = peer_scan(s.drop_last());
        if is_peer_separator(s.last()) {
            if current.len() > 0 { (done.push(current), Seq::empty()) } else { (done, current) }
        } else {
            (done, current.push(s.last()))
        }
    }
}

/// The peer texts of a list: its pieces between separators, empty ones left
/// out.
pub open spec fn peer_texts(s: Seq<char>) -> Seq<Seq<char>> {
    let (done, current) = peer_scan(s);
    if current.len() > 0 { done.push(current) } else { done }
}

/// What a list of peers gives: the addresses, or the error of the first that
/// does not parse.
pub open spec fn parse_peers_spec(texts: Seq<Seq<char>>) -> Result<Seq<SocketAddress>, Seq<char>>
    decreases texts.len(),
{
    if texts.len() == 0 {
        Ok(Seq::empty())
    } else {
        match parse_peers_spec(texts.drop_last()) {
            Err(e) => Err(e),
            Ok(done) => match parse_socket_spec(texts.last()) {
                Some(a) => Ok(done.push(a)),
                None => Err("invalid peer `"@ + texts.last() + "`: invalid socket address syntax"@),
            },
        }
    }
}

fn peer_texts_exec(input: &str) -> (r: Vec<Vec<char>>)
    ensures
        r@.len() == peer_texts(input@).len(),
        forall|i: int| 0 <= i < r@.len() ==> (#[trigger] r@[i])@ == peer_texts(input@)[i],
{
    let chars = chars_of(input);
    let mut done: Vec<Vec<char>> = Vec::new();
    let mut current: Vec<char> = Vec::new();
    let mut i: usize = 0;
    while i < chars.len()
        invariant
            chars@ == input@,
            i <= chars@.len(),
            done@.len() == peer_scan(chars@.take(i as int)).0.len(),
            forall|k: int| 0 <= k < done@.len() ==> (#[trigger] done@[k])@ == peer_scan(chars@.take(i as int)).0[k],
            current@ == peer_scan(chars@.take(i as int)).1,
        decreases chars@.len() - i,
    {
        let c = chars[i];
        proof {
            assert(chars@.take(i + 1).drop_last() =~= chars@.take(i as int));
            assert(chars@.take(i + 1).last() == c);
        }
        if c == ',' || c == '\n' || is_white_exec(c) {
            if current.len() > 0 {
                let mut piece: Vec<char> = Vec::new();
                std::mem::swap(&mut piece, &mut current);
                done.push(piece);
                assert(current@ =~= Seq::<char>::empty());
            }
        } else {
            current.push(c);
        }
        i = i + 1;
    }
    assert(chars@.take(chars@.len() as int) =~= chars@);
    if current.len() > 0 {
        done.push(current);
    }
    done
}

/// Reads a list of peer addresses separated by commas or white space.
pub fn parse_peers(input: &str) -> (r: Result<Vec<SocketAddress>, String>)
    ensures
        match parse_peers_spec(peer_texts(input@)) {
            Ok(peers) => r matches Ok(v) && v@ == peers,
            Err(e) => r matches Err(m) && m@ == e,
        },
{
    let texts = peer_texts_exec(input);
    let ghost all = peer_texts(input@);
    let mut peers: Vec<SocketAddress> = Vec::new();
    let mut i: usize = 0;
    while i < texts.len()
        invariant
            all == peer_texts(input@),
            texts@.len() == all.len(),
            forall|k: int| 0 <= k < texts@.len() ==> (#[trigger] texts@[k])@ == all[k],
            i <= texts@.len(),
            parse_peers_spec(all.take(i as int)) matches Ok(done) && done == peers@,
        decreases texts@.len() - i,
    {
        proof {
            assert(all.take(i + 1).drop_last() =~= all.take(i as int));
            assert(all.take(i + 1).last() == texts@[i as int]@);
        }
        match parse_socket(texts[i].as_slice()) {
            Some(a) => peers.push(a),
            None => {
                let mut message = "invalid peer `".to_string();
                message.append(string_from_chars(texts[i].as_slice()).as_str());
                message.append("`: invalid socket address syntax");
                proof {
                    lemma_parse_peers_failed(all, i as int + 1);
                }
                return Err(message);
            },
        }
        i = i + 1;
    }
    assert(all.take(all.len() as int) =~= all);
    Ok(peers)
}

proof fn lemma_parse_peers_failed(texts: Seq<Seq<char>>, k: int)
    requires
        0 < k <= texts.len(),
        parse_peers_spec(texts.take(k)) is Err,
    ensures
        parse_peers_spec(texts) == parse_peers_spec(texts.take(k)),
    decreases texts.len(),
{
    if k < texts.len() {
        assert(texts.drop_last().take(k) =~= texts.take(k));
        lemma_parse_peers_failed(texts.drop_last(), k);
    } else {
        assert(texts.take(k) =~= texts);
    }
}

/// The download settings of the client's form.
#[derive(Clone, Debug)]
pub struct DownloadSettings {
    pub resume: bool,
    pub download_parallelism: usize,
    pub download_request_window: usize,
    pub discovery_port: u16,
    pub discovery_timeout_ms: u64,
    pub auth_psk: String,
}

/// The text of an optional string.
pub open spec fn opt_text(s: Option<String>) -> Option<Seq<char>> {
    match s {
        Some(t) => Some(t@),
        None => None,
    }
}

/// A text without white space at its ends, unless nothing is left.
pub open spec fn non_blank(s: Seq<char>) -> Option<Seq<char>> {
    if trimmed(s).len() > 0 { Some(trimmed(s)) } else { None }
}

/// Command `c` downloads `share_id` from `peers` as the settings `s` say:
/// resuming or not, to the output path and with the pre-shared key of the
/// form (each only when not blank, the key falling back to the configured
/// one), with a request window and discovery timeout of at least 1.
pub open spec fn download_command(
    s: DownloadSettings,
    c: IpcCommand,
    share_id: ShareId,
    peers: Seq<SocketAddress>,
    output: Seq<char>,
    psk: Seq<char>,
    group: Ipv4Address,
) -> bool {
    let key = match non_blank(psk) {
        Some(k) => Some(k),
        None => non_blank(s.auth_psk@),
    };
    let fits = |sid: ShareId, ps: Vec<SocketAddress>, out: Option<String>, parallelism: usize, request_window: usize,
        discovery_port: u16, discovery_timeout_ms: u64, discovery_multicast: Ipv4Address, auth_psk: Option<String>|
        {
            &&& sid == share_id
            &&& ps@ == peers
            &&& opt_text(out) == non_blank(output)
            &&& parallelism == s.download_parallelism
            &&& request_window == if s.download_request_window > 1 { s.download_request_window } else { 1 }
            &&& discovery_port == s.discovery_port
            &&& discovery_timeout_ms == if s.discovery_timeout_ms > 1 { s.discovery_timeout_ms } else { 1 }
            &&& discovery_multicast == group
            &&& opt_text(auth_psk) == key
        };
    match c {
        IpcCommand::Download {
            share_id,
            peers,
            output,
            parallelism,
            request_window,
            discovery_port,
            discovery_timeout_ms,
            discovery_multicast,
            auth_psk,
        } => s.resume && fits(
            share_id,
            peers,
            output,
            parallelism,
            request_window,
            discovery_port,
            discovery_timeout_ms,
            discovery_multicast,
            auth_psk,
        ),
        IpcCommand::DownloadFresh {
            share_id,
            peers,
            output,
            parallelism,
            request_window,
            discovery_port,
            discovery_timeout_ms,
            discovery_multicast,
            auth_psk,
        } => !s.resume && fits(
            share_id,
            peers,
            output,
            parallelism,
            request_window,
            discovery_port,
            discovery_timeout_ms,
            discovery_multicast,
            auth_psk,
        ),
        _ => false,
    }
}

/// What is typed in the download form reaches the command: an output path
/// without white space at its ends is the command's output, and a blank one
/// leaves the output to the daemon; a typed key without white space at its
/// ends is the command's key, and a blank one leaves the saved key (if any);
/// the command resumes exactly when the settings say so, with their
/// parallelism, port, and request window and timeout (at least 1), for the
/// share, peers and multicast group read from the form.
pub proof fn lemma_form_texts_reach_command(
    s: DownloadSettings,
    c: IpcCommand,
    share_id: ShareId,
    peers: Seq<SocketAddress>,
    output: Seq<char>,
    psk: Seq<char>,
    group: Ipv4Address,
)
    requires
        download_command(s, c, share_id, peers, output, psk, group),
    ensures
        (c is Download) == s.resume,
        download_settings(c) matches Some((sid, ps, out, parallelism, window, port, timeout, g, key)) && {
            &&& sid == share_id
            &&& ps == peers
            &&& g == group
            &&& port == s.discovery_port
            &&& parallelism == s.download_parallelism
            &&& window >= 1 && (s.download_request_window >= 1 ==> window == s.download_request_window)
            &&& timeout >= 1 && (s.discovery_timeout_ms >= 1 ==> timeout == s.discovery_timeout_ms)
            &&& ((forall|i: int| 0 <= i < psk.len() ==> is_white(#[trigger] psk[i])) ==> {
                &&& (s.auth_psk@.len() > 0 && !is_white(s.auth_psk@[0]) && !is_white(s.auth_psk@.last()) ==> key == Some(s.auth_psk@))
                &&& ((forall|i: int| 0 <= i < s.auth_psk@.len() ==> is_white(#[trigger] s.auth_psk@[i])) ==> key is None)
            })
            &&& (output.len() > 0 && !is_white(output[0]) && !is_white(output.last())) ==> out == Some(output)
            &&& (forall|i: int| 0 <= i < output.len() ==> is_white(#[trigger] output[i])) ==> out is None
            &&& (psk.len() > 0 && !is_white(psk[0]) && !is_white(psk.last())) ==> key == Some(psk)
        },
{
    if output.len() > 0 && !is_white(output[0]) && !is_white(output.last()) {
        lemma_trimmed_exact(output);
    }
    if forall|i: int| 0 <= i < output.len() ==> is_white(#[trigger] output[i]) {
        lemma_trimmed_all_white(output);
    }
    if psk.len() > 0 && !is_white(psk[0]) && !is_white(psk.last()) {
        lemma_trimmed_exact(psk);
    }
    if forall|i: int| 0 <= i < psk.len() ==> is_white(#[trigger] psk[i]) {
        lemma_trimmed_all_white(psk);
    }
    let saved = s.auth_psk@;
    if saved.len() > 0 && !is_white(saved[0]) && !is_white(saved.last()) {
        lemma_trimmed_exact(saved);
    }
    if forall|i: int| 0 <= i < saved.len() ==> is_white(#[trigger] saved[i]) {
        lemma_trimmed_all_white(saved);
    }
}

/// What the download form's texts give: the share id, the peers and the
/// multicast group, or the error of the first that does not parse.
pub open spec fn download_form(share_id_text: Seq<char>, peers_text: Seq<char>, multicast_text: Seq<char>) -> Result<
    (Seq<u8>, Seq<SocketAddress>, Ipv4Address),
    Seq<char>,
> {
    match parse_share_id(encode_utf8(trimmed(share_id_text))) {
        None => Err("invalid share id"@),
        Some(id) => match parse_peers_spec(peer_texts(peers_text)) {
            Err(e) => Err(e),
            Ok(peers) => match parse_ipv4_spec(trimmed(multicast_text)) {
                None => Err("invalid multicast address: invalid IPv4 address syntax"@),
                Some(group) => Ok((id, peers, group)),
            },
        },
    }
}

impl DownloadSettings {
    /// The download command for the form's texts (see `download_command`),
    /// or why they do not make one: the share id, the peers, and the
    /// multicast group are read in turn, and the first that does not parse
    /// gives the error.
    pub fn build_download_command_from(
        &self,
        share_id_text: &str,
        peers_text: &str,
        output_text: &str,
        auth_psk_text: &str,
        discovery_multicast_text: &str,
    ) -> (r: Result<(IpcCommand, ShareId), String>)
        ensures
            match download_form(share_id_text@, peers_text@, discovery_multicast_text@) {
                Err(e) => r matches Err(m) && m@ == e,
                Ok((id, peers, group)) => r matches Ok((command, share_id)) && share_id.0@ == id && download_command(
                    *self,
                    command,
                    share_id,
                    peers,
                    output_text@,
                    auth_psk_text@,
                    group,
                ),
            },
    {
        let trimmed_id = crate::text::trim_chars(chars_of(share_id_text).as_slice());
        let id_text = string_from_chars(trimmed_id.as_slice());
        let share_id = match ShareId::parse(id_text.as_str()) {
            Ok(id) => id,
            Err(_) => {
                return Err("invalid share id".to_string());
            },
        };
        let peers = parse_peers(peers_text)?;
        let output = match non_empty(output_text) {
            Some(o) => Some(o.to_string()),
            None => None,
        };
        let auth_psk = match non_empty(auth_psk_text) {
            Some(k) => Some(k.to_string()),
            None => match non_empty(self.auth_psk.as_str()) {
                Some(k) => Some(k.to_string()),
                None => None,
            },
        };
        let multicast_chars = crate::text::trim_chars(chars_of(discovery_multicast_text).as_slice());
        let discovery_multicast = match parse_ipv4(multicast_chars.as_slice()) {
            Some(m) => m,
            None => {
                return Err("invalid multicast address: invalid IPv4 address syntax".to_string());
            },
        };
        let request_window = if self.download_request_window > 1 { self.download_request_window } else { 1 };
        let discovery_timeout_ms = if self.discovery_timeout_ms > 1 { self.discovery_timeout_ms } else { 1 };
        let command = if self.resume {
            IpcCommand::Download {
                share_id,
                peers,
                output,
                parallelism: self.download_parallelism,
                request_window,
                discovery_port: self.discovery_port,
                discovery_timeout_ms,
                discovery_multicast,
                auth_psk,
            }
        } else {
            IpcCommand::DownloadFresh {
                share_id,
                peers,
                output,
                parallelism: self.download_parallelism,
                request_window,
                discovery_port: self.discovery_port,
                discovery_timeout_ms,
                discovery_multicast,
                auth_psk,
            }
        };
        Ok((command, share_id))
    }
}

} // verus!
