//! How the client's transfer cards follow the daemon's shares: a card takes
//! the name and chunk counts of its share and is marked done or running as
//! the share's mode says; a finished seed is bound to the share it produced.

use vstd::prelude::*;

use crate::bytes::hex_lower;
use crate::file::descriptor::ShareId;
use crate::gui::board::{copy_transfer, same_share, same_share_exec, sort_transfers, sorted_transfers, upserted, views, TransferBoard};
use crate::gui::model::{
    finished, is_specific_detail, is_specific_progress_detail, share_complete, share_is_complete, GuiTransfer, TransferKind,
    TransferStatus,
};
use crate::ipc::message::IpcShareSummary;
use crate::text::{find_sub, str_contains, str_equal};

verus! {

/// The index of the first element of `s` that satisfies `p`.
pub open spec fn first_index<A>(s: Seq<A>, p: spec_fn(A) -> bool) -> Option<int>
    decreases s.len(),
{
    if s.len() == 0 {
        None
    } else {
        match first_index(s.drop_last(), p) {
            Some(i) => Some(i),
            None => if p(s.last()) { Some(s.len() - 1) } else { None },
        }
    }
}

/// When no element before `i` satisfies `p` and `s[i]` does (or `i` is the
/// end), `first_index` is `i` (or none).
pub proof fn lemma_first_index<A>(s: Seq<A>, p: spec_fn(A) -> bool, i: int)
    requires
        0 <= i <= s.len(),
        forall|k: int| 0 <= k < i ==> !p(#[trigger] s[k]),
        i == s.len() || p(s[i]),
    ensures
        first_index(s, p) == if i == s.len() { None::<int> } else { Some(i) },
    decreases s.len(),
{
    if s.len() > 0 {
        if i < s.len() - 1 {
            lemma_first_index(s.drop_last(), p, i);
        } else {
            lemma_first_index(s.drop_last(), p, s.len() - 1);
        }
    }
}

/// What `first_index` finds is within `s` and satisfies `p`.
pub proof fn lemma_first_index_bound<A>(s: Seq<A>, p: spec_fn(A) -> bool)
    ensures
        first_index(s, p) matches Some(i) ==> 0 <= i < s.len() && p(s[i]),
    decreases s.len(),
{
    if s.len() > 0 {
        lemma_first_index_bound(s.drop_last(), p);
    }
}

/// A card for the share `id`, of either kind.
pub open spec fn for_share(id: ShareId) -> spec_fn(GuiTransfer) -> bool {
    |t: GuiTransfer| same_share(t.share_id, Some(id))
}

/// A card of `kind` for the share `id`.
pub open spec fn for_card(id: ShareId, kind: TransferKind) -> spec_fn(GuiTransfer) -> bool {
    |t: GuiTransfer| same_share(t.share_id, Some(id)) && t.kind == kind
}

/// The next update sequence number after `n` (it stops at the maximum).
pub open spec fn bumped(n: u64) -> u64 {
    if n == u64::MAX { n } else { (n + 1) as u64 }
}

/// The mode of a share as text, `unknown` when it has none.
pub open spec fn mode_text(share: IpcShareSummary) -> Seq<char> {
    match share.mode {
        Some(m) => m@,
        None => "unknown"@,
    }
}

/// `r` is card `t` brought in line with its share at update sequence `seq`:
/// it takes the share's name and chunk counts; a complete share that is
/// completed or seeding makes it done (a seed's detail then says it is
/// stored, a download's that it is in the library unless it was saved); a
/// downloading share makes an unfinished card running, waiting for progress
/// unless its detail names a phase.
pub open spec fn synced_card(t: GuiTransfer, share: IpcShareSummary, seq: u64, r: GuiTransfer) -> bool {
    let mode = mode_text(share);
    let to_done = share_complete(share) && (mode == "completed"@ || mode == "seeding"@);
    let to_running = !to_done && mode == "downloading"@ && !finished(t.status);
    &&& r == GuiTransfer {
        label: share.name,
        completed_chunks: share.completed_chunks,
        total_chunks: share.total_chunks,
        status: r.status,
        detail: r.detail,
        updated_seq: seq,
        ..t
    }
    &&& r.status == if to_done {
        TransferStatus::Done
    } else if to_running {
        TransferStatus::Running
    } else {
        t.status
    }
    &&& r.detail@ == if to_done {
        if t.kind == TransferKind::Seed {
            "encrypted and stored"@
        } else if find_sub(t.detail@, "saved"@) is Some {
            t.detail@
        } else {
            "completed in library"@
        }
    } else if to_running {
        if is_specific_detail(t.detail@) { t.detail@ } else { "waiting for live progress"@ }
    } else {
        t.detail@
    }
}

/// `r` is the running download card made for a downloading share that has no
/// card.
pub open spec fn library_card(share: IpcShareSummary, seq: u64, r: GuiTransfer) -> bool {
    &&& r == GuiTransfer {
        id: r.id,
        kind: TransferKind::Download,
        label: share.name,
        share_id: Some(share.share_id),
        status: TransferStatus::Running,
        completed_chunks: share.completed_chunks,
        total_chunks: share.total_chunks,
        bytes_done: 0,
        total_bytes: 0,
        bytes_per_second: 0,
        detail: r.detail,
        updated_seq: seq,
    }
    &&& r.id@ == "library:"@ + hex_lower(share.share_id.0@) + ":downloading"@
    &&& r.detail@ == "waiting for live progress"@
}

/// The cards `new` after bringing `old` in line with `share` at update
/// sequence `seq`, and the card that becomes the latest progress: the first
/// card of the share is synced and the list put in display order, and it is
/// the latest when it finished; with no card, a downloading share that is not
/// complete gets a library card, and nothing else changes.
pub open spec fn synced_board(
    old: Seq<GuiTransfer>,
    hidden: Seq<Seq<char>>,
    share: IpcShareSummary,
    seq: u64,
    new: Seq<GuiTransfer>,
    latest: Option<GuiTransfer>,
) -> bool {
    match first_index(old, for_share(share.share_id)) {
        Some(i) => exists|r: GuiTransfer|
            #[trigger] synced_card(old[i], share, seq, r) && new == sorted_transfers(old.update(i, r)) && latest == (if finished(
                r.status,
            ) {
                Some(r)
            } else {
                None
            }),
        None => latest is None && if mode_text(share) == "downloading"@ && !share_complete(share) {
            exists|c: GuiTransfer| #[trigger] library_card(share, seq, c) && new == upserted(old, hidden, c)
        } else {
            new == old
        },
    }
}

/// A running seed card that is not bound to a share.
pub open spec fn unbound_seed(t: GuiTransfer) -> bool {
    t.kind == TransferKind::Seed && t.share_id is None && !finished(t.status)
}

/// How many running seed cards are not bound to a share.
pub open spec fn unbound_seed_count(s: Seq<GuiTransfer>) -> nat
    decreases s.len(),
{
    if s.len() == 0 {
        0
    } else {
        unbound_seed_count(s.drop_last()) + if unbound_seed(s.last()) { 1nat } else { 0nat }
    }
}

/// Card `t` is an unfinished seed that produced `share`: it has the share's
/// name or id, or it is the only unbound running seed.
pub open spec fn seed_matches(t: GuiTransfer, share: IpcShareSummary, unbound: nat) -> bool {
    &&& t.kind == TransferKind::Seed
    &&& !finished(t.status)
    &&& (t.label@ == share.name@ || same_share(t.share_id, Some(share.share_id)) || (unbound == 1 && t.share_id is None))
}

/// `r` is seed card `t` marked done for `share` at update sequence `seq`.
pub open spec fn seed_done_card(t: GuiTransfer, share: IpcShareSummary, seq: u64, r: GuiTransfer) -> bool {
    &&& r == GuiTransfer {
        share_id: Some(share.share_id),
        label: share.name,
        status: TransferStatus::Done,
        completed_chunks: share.completed_chunks,
        total_chunks: share.total_chunks,
        detail: r.detail,
        updated_seq: seq,
        ..t
    }
    &&& r.detail@ == "encrypted and stored"@
}

/// `mid` is `old` with every seed that produced `share` marked done.
pub open spec fn seeds_marked(old: Seq<GuiTransfer>, share: IpcShareSummary, seq: u64, mid: Seq<GuiTransfer>) -> bool {
    &&& mid.len() == old.len()
    &&& forall|k: int|
        0 <= k < old.len() ==> if seed_matches(#[trigger] old[k], share, unbound_seed_count(old)) {
            seed_done_card(old[k], share, seq, mid[k])
        } else {
            mid[k] == old[k]
        }
}

/// The cards `new`, the latest card and the next sequence number after a
/// complete `share` arrives: the seeds that produced it are marked done at
/// the next sequence number; when none was and the share is seeding, the
/// cards are synced with it (at the number after); the list is put in
/// display order. An incomplete share changes nothing.
pub open spec fn seed_completed(
    old: Seq<GuiTransfer>,
    hidden: Seq<Seq<char>>,
    share: IpcShareSummary,
    seq: u64,
    new: Seq<GuiTransfer>,
    latest: Option<GuiTransfer>,
    seq_after: u64,
) -> bool {
    if !share_complete(share) {
        new == old && latest is None && seq_after == seq
    } else {
        let any = exists|k: int| 0 <= k < old.len() && seed_matches(#[trigger] old[k], share, unbound_seed_count(old));
        exists|mid: Seq<GuiTransfer>|
            #[trigger] seeds_marked(old, share, seq, mid) && if !any && (share.mode matches Some(m) && m@ == "seeding"@) {
                seq_after == bumped(bumped(seq)) && exists|after: Seq<GuiTransfer>|
                    #[trigger] synced_board(mid, hidden, share, bumped(seq), after, latest) && new == sorted_transfers(after)
            } else {
                seq_after == bumped(seq) && latest is None && new == sorted_transfers(mid)
            }
    }
}

/// The mode of a share as text.
fn mode_of(share: &IpcShareSummary) -> (r: &str)
    ensures
        r@ == mode_text(*share),
{
    match &share.mode {
        Some(m) => m.as_str(),
        None => "unknown",
    }
}

impl TransferBoard {
    /// The index of the first card of the share `id`, of either kind.
    pub fn share_position(&self, id: ShareId) -> (r: Option<usize>)
        ensures
            match first_index(self.transfers@, for_share(id)) {
                Some(i) => r == Some(i as usize),
                None => r is None,
            },
            r matches Some(i) ==> i < self.transfers@.len(),
            first_index(self.transfers@, for_share(id)) matches Some(i) ==> 0 <= i < self.transfers.len(),
    {
        proof {
            lemma_first_index_bound(self.transfers@, for_share(id));
        }
        let target = Some(id);
        let mut i: usize = 0;
        while i < self.transfers.len()
            invariant
                target == Some(id),
                i <= self.transfers@.len(),
                forall|k: int| 0 <= k < i ==> !same_share(#[trigger] self.transfers@[k].share_id, Some(id)),
            decreases self.transfers@.len() - i,
        {
            if same_share_exec(&self.transfers[i].share_id, &target) {
                proof {
                    lemma_first_index(self.transfers@, for_share(id), i as int);
                }
                return Some(i);
            }
            i = i + 1;
        }
        proof {
            lemma_first_index(self.transfers@, for_share(id), i as int);
        }
        None
    }

    /// Puts `card` in place of card `i` and the list in display order.
    pub fn replace_card(&mut self, i: usize, card: GuiTransfer)
        requires
            i < old(self).transfers@.len(),
        ensures
            final(self).transfers@ == sorted_transfers(old(self).transfers@.update(i as int, card)),
            final(self).hidden == old(self).hidden,
            final(self).next_transfer_seq == old(self).next_transfer_seq,
    {
        let mut list: Vec<GuiTransfer> = Vec::new();
        std::mem::swap(&mut list, &mut self.transfers);
        list.set(i, card);
        self.transfers = sort_transfers(list);
    }

    /// How many running seed cards are not bound to a share.
    fn count_unbound_seeds(&self) -> (r: usize)
        ensures
            r == unbound_seed_count(self.transfers@),
    {
        let mut n: usize = 0;
        let mut i: usize = 0;
        while i < self.transfers.len()
            invariant
                i <= self.transfers@.len(),
                n == unbound_seed_count(self.transfers@.take(i as int)),
                n <= i,
            decreases self.transfers@.len() - i,
        {
            proof {
                assert(self.transfers@.take(i + 1).drop_last() =~= self.transfers@.take(i as int));
            }
            let t = &self.transfers[i];
            if t.kind == TransferKind::Seed && t.share_id.is_none() && !t.status.is_finished() {
                n = n + 1;
            }
            i = i + 1;
        }
        assert(self.transfers@.take(self.transfers@.len() as int) =~= self.transfers@);
        n
    }

    /// Records that `share` is complete (see `seed_completed`): the seeds that
    /// produced it are marked done, or, when none was and it is seeding, the
    /// cards are synced with it. Returns the card that becomes the latest
    /// progress, if any.
    pub fn mark_seed_completed(&mut self, share: &IpcShareSummary) -> (latest: Option<GuiTransfer>)
        ensures
            seed_completed(
                old(self).transfers@,
                old(self).hidden_views(),
                *share,
                old(self).next_transfer_seq,
                final(self).transfers@,
                latest,
                final(self).next_transfer_seq,
            ),
            final(self).hidden == old(self).hidden,
    {
        if !share_is_complete(share) {
            return None;
        }
        let unbound = self.count_unbound_seeds();
        let seq = self.bump_seq();
        let ghost before = self.transfers@;
        let mut list: Vec<GuiTransfer> = Vec::new();
        std::mem::swap(&mut list, &mut self.transfers);
        let target = Some(share.share_id);
        let mut updated = false;
        let mut i: usize = 0;
        while i < list.len()
            invariant
                target == Some(share.share_id),
                unbound == unbound_seed_count(before),
                list@.len() == before.len(),
                i <= list@.len(),
                forall|k: int|
                    0 <= k < i ==> if seed_matches(#[trigger] before[k], *share, unbound_seed_count(before)) {
                        seed_done_card(before[k], *share, seq, list@[k])
                    } else {
                        list@[k] == before[k]
                    },
                forall|k: int| i <= k < list@.len() ==> list@[k] == before[k],
                updated == exists|k: int| 0 <= k < i && seed_matches(#[trigger] before[k], *share, unbound_seed_count(before)),
            decreases list@.len() - i,
        {
            let t = &list[i];
            let matches = t.kind == TransferKind::Seed && !t.status.is_finished() && (str_equal(t.label.as_str(), share.name.as_str())
                || same_share_exec(&t.share_id, &target) || (unbound == 1 && t.share_id.is_none()));
            assert(matches == seed_matches(before[i as int], *share, unbound_seed_count(before)));
            if matches {
                let card = GuiTransfer {
                    id: t.id.clone(),
                    kind: t.kind,
                    label: share.name.clone(),
                    share_id: Some(share.share_id),
                    status: TransferStatus::Done,
                    completed_chunks: share.completed_chunks,
                    total_chunks: share.total_chunks,
                    bytes_done: t.bytes_done,
                    total_bytes: t.total_bytes,
                    bytes_per_second: t.bytes_per_second,
                    detail: "encrypted and stored".to_string(),
                    updated_seq: seq,
                };
                assert(seed_done_card(before[i as int], *share, seq, card));
                list.set(i, card);
                updated = true;
            }
            i = i + 1;
        }
        assert(seeds_marked(before, *share, seq, list@));
        let ghost mid = list@;
        self.transfers = list;
        let seeding = match &share.mode {
            Some(m) => str_equal(m.as_str(), "seeding"),
            None => false,
        };
        let latest = if !updated && seeding {
            self.sync_from_share(share)
        } else {
            None
        };
        let ghost after = self.transfers@;
        let mut out: Vec<GuiTransfer> = Vec::new();
        std::mem::swap(&mut out, &mut self.transfers);
        self.transfers = sort_transfers(out);
        proof {
            if !updated && seeding {
                assert(synced_board(mid, views(old(self).hidden@), *share, bumped(seq), after, latest));
            }
        }
        latest
    }

    /// Brings the cards in line with `share` (see `synced_board`), taking one
    /// update sequence number. Returns the card that becomes the latest
    /// progress, if any.
    pub fn sync_from_share(&mut self, share: &IpcShareSummary) -> (latest: Option<GuiTransfer>)
        ensures
            synced_board(old(self).transfers@, old(self).hidden_views(), *share, old(self).next_transfer_seq, final(self).transfers@, latest),
            final(self).next_transfer_seq == bumped(old(self).next_transfer_seq),
            final(self).hidden == old(self).hidden,
    {
        let mode = mode_of(share);
        let done = share_is_complete(share);
        let seq = self.bump_seq();
        match self.share_position(share.share_id) {
            Some(i) => {
                let t = &self.transfers[i];
                let to_done = done && (str_equal(mode, "completed") || str_equal(mode, "seeding"));
                let to_running = !to_done && str_equal(mode, "downloading") && !t.status.is_finished();
                let status = if to_done {
                    TransferStatus::Done
                } else if to_running {
                    TransferStatus::Running
                } else {
                    t.status
                };
                let detail = if to_done {
                    if t.kind == TransferKind::Seed {
                        "encrypted and stored".to_string()
                    } else if str_contains(t.detail.as_str(), "saved") {
                        t.detail.clone()
                    } else {
                        "completed in library".to_string()
                    }
                } else if to_running {
                    if is_specific_progress_detail(t.detail.as_str()) {
                        t.detail.clone()
                    } else {
                        "waiting for live progress".to_string()
                    }
                } else {
                    t.detail.clone()
                };
                let card = GuiTransfer {
                    id: t.id.clone(),
                    kind: t.kind,
                    label: share.name.clone(),
                    share_id: t.share_id,
                    status,
                    completed_chunks: share.completed_chunks,
                    total_chunks: share.total_chunks,
                    bytes_done: t.bytes_done,
                    total_bytes: t.total_bytes,
                    bytes_per_second: t.bytes_per_second,
                    detail,
                    updated_seq: seq,
                };
                let ghost old_t = self.transfers@[i as int];
                assert(synced_card(old_t, *share, seq, card));
                let latest = if card.status.is_finished() {
                    Some(copy_transfer(&card))
                } else {
                    None
                };
                self.replace_card(i, card);
                latest
            },
            None => {
                if str_equal(mode, "downloading") && !done {
                    let mut id = "library:".to_string();
                    id.append(share.share_id.to_string().as_str());
                    id.append(":downloading");
                    let card = GuiTransfer {
                        id,
                        kind: TransferKind::Download,
                        label: share.name.clone(),
                        share_id: Some(share.share_id),
                        status: TransferStatus::Running,
                        completed_chunks: share.completed_chunks,
                        total_chunks: share.total_chunks,
                        bytes_done: 0,
                        total_bytes: 0,
                        bytes_per_second: 0,
                        detail: "waiting for live progress".to_string(),
                        updated_seq: seq,
                    };
                    assert(library_card(*share, seq, card));
                    self.upsert_transfer(card);
                }
                None
            },
        }
    }
}

} // verus!
