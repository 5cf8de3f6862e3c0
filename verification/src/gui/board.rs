//! The client's list of transfers: which card a report updates, the order
//! the cards are shown in, and which finished cards are hidden.

use vstd::prelude::*;

use crate::file::descriptor::ShareId;
use crate::gui::model::{hide_key_spec, kind_word, transfer_hidden_keys, GuiTransfer, TransferKind, TransferStatus};
use crate::gui::format::{is_path_label, trim_path_label};
use crate::gui::model::friendly_task_detail;
use crate::gui::progress::TaskProgressSnapshot;
use crate::gui::sync::{first_index, for_card, lemma_first_index, lemma_first_index_bound};
use crate::ipc::message::IpcShareSummary;
use crate::text::{find_sub, join_words, str_contains, str_equal, words_joined};
use vstd::utf8::encode_utf8;

verus! {

/// The transfers shown, the keys of hidden finished transfers, and the next
/// update sequence number.
pub struct TransferBoard {
    pub transfers: Vec<GuiTransfer>,
    pub hidden: Vec<String>,
    pub next_transfer_seq: u64,
}

/// Where a status sorts: running first, then queued, failed and done.
pub open spec fn status_rank(s: TransferStatus) -> nat {
    match s {
        TransferStatus::Running => 0,
        TransferStatus::Queued => 1,
        TransferStatus::Failed => 2,
        TransferStatus::Done => 3,
    }
}

/// `a` sorts strictly before `b`: by status rank, then most recently updated
/// first.
pub open spec fn sorts_before(a: GuiTransfer, b: GuiTransfer) -> bool {
    status_rank(a.status) < status_rank(b.status) || (status_rank(a.status) == status_rank(b.status) && a.updated_seq > b.updated_seq)
}

/// Inserts `x` after every transfer that does not sort after it.
pub open spec fn insert_transfer(sorted: Seq<GuiTransfer>, x: GuiTransfer) -> Seq<GuiTransfer>
    decreases sorted.len(),
{
    if sorted.len() == 0 {
        seq![x]
    } else if !sorts_before(x, sorted.last()) {
        sorted.push(x)
    } else {
        insert_transfer(sorted.drop_last(), x).push(sorted.last())
    }
}

/// The transfers in display order, equal ones keeping their order (a stable
/// sort by status rank, then by update sequence, newest first).
pub open spec fn sorted_transfers(s: Seq<GuiTransfer>) -> Seq<GuiTransfer>
    decreases s.len(),
{
    if s.len() == 0 {
        Seq::empty()
    } else {
        insert_transfer(sorted_transfers(s.drop_last()), s.last())
    }
}

fn rank(s: TransferStatus) -> (r: u8)
    ensures
        r == status_rank(s),
{
    match s {
        TransferStatus::Running => 0,
        TransferStatus::Queued => 1,
        TransferStatus::Failed => 2,
        TransferStatus::Done => 3,
    }
}

fn sorts_before_exec(a: &GuiTransfer, b: &GuiTransfer) -> (r: bool)
    ensures
        r == sorts_before(*a, *b),
{
    let ra = rank(a.status);
    let rb = rank(b.status);
    ra < rb || (ra == rb && a.updated_seq > b.updated_seq)
}

proof fn lemma_insert_transfer_at(s: Seq<GuiTransfer>, x: GuiTransfer, j: int)
    requires
        0 <= j <= s.len(),
        j == 0 || !sorts_before(x, s[j - 1]),
        forall|k: int| j <= k < s.len() ==> sorts_before(x, #[trigger] s[k]),
    ensures
        insert_transfer(s, x) == s.take(j).push(x) + s.skip(j),
    decreases s.len(),
{
    if s.len() == 0 {
        assert(s.take(j).push(x) + s.skip(j) =~= seq![x]);
    } else if j == s.len() {
        assert(s.take(j).push(x) + s.skip(j) =~= s.push(x));
    } else {
        let p = s.drop_last();
        lemma_insert_transfer_at(p, x, j);
        assert(p.take(j).push(x) + p.skip(j) + seq![s.last()] =~= s.take(j).push(x) + s.skip(j));
        assert((p.take(j).push(x) + p.skip(j)).push(s.last()) =~= p.take(j).push(x) + p.skip(j) + seq![s.last()]);
    }
}

/// Whether `s` names the same share as `t` (both none, or the same id).
pub open spec fn same_share(s: Option<ShareId>, t: Option<ShareId>) -> bool {
    match (s, t) {
        (None, None) => true,
        (Some(a), Some(b)) => a.0@ == b.0@,
        _ => false,
    }
}

pub(crate) fn same_share_exec(s: &Option<ShareId>, t: &Option<ShareId>) -> (r: bool)
    ensures
        r == same_share(*s, *t),
{
    match (s, t) {
        (None, None) => true,
        (Some(a), Some(b)) => *a == *b,
        _ => false,
    }
}

/// `candidate` is the card that a report about `t` updates: the same id; or
/// the same share and kind; or, without a share, the same kind and label.
pub open spec fn same_card(candidate: GuiTransfer, t: GuiTransfer) -> bool {
    ||| candidate.id@ == t.id@
    ||| (t.share_id is Some && same_share(candidate.share_id, t.share_id) && candidate.kind == t.kind)
    ||| (t.share_id is None && candidate.share_id is None && candidate.kind == t.kind && candidate.label@ == t.label@)
}

fn same_card_exec(candidate: &GuiTransfer, t: &GuiTransfer) -> (r: bool)
    ensures
        r == same_card(*candidate, *t),
{
    str_equal(candidate.id.as_str(), t.id.as_str())
        || (t.share_id.is_some() && same_share_exec(&candidate.share_id, &t.share_id) && candidate.kind == t.kind)
        || (t.share_id.is_none() && candidate.share_id.is_none() && candidate.kind == t.kind
            && str_equal(candidate.label.as_str(), t.label.as_str()))
}

/// The keys of a transfer as values.
pub open spec fn hidden_key_views(t: GuiTransfer) -> Seq<Seq<char>> {
    let base = seq![t.id@, kind_word(t.kind) + ":label:"@ + t.label@, hide_key_spec(t)];
    match t.share_id {
        Some(s) => base.push(kind_word(t.kind) + ":share:"@ + crate::bytes::hex_lower(s.0@)),
        None => base,
    }
}

/// The views of a list of strings.
pub open spec fn views(v: Seq<String>) -> Seq<Seq<char>> {
    v.map_values(|s: String| s@)
}

/// A finished transfer one of whose keys is hidden.
pub open spec fn is_hidden(hidden: Seq<Seq<char>>, t: GuiTransfer) -> bool {
    (t.status == TransferStatus::Done || t.status == TransferStatus::Failed)
        && exists|i: int| 0 <= i < hidden_key_views(t).len() && hidden.contains(#[trigger] hidden_key_views(t)[i])
}

/// The index of the first card that `t` updates, if any.
pub open spec fn first_card(s: Seq<GuiTransfer>, t: GuiTransfer) -> Option<int>
    decreases s.len(),
{
    if s.len() == 0 {
        None
    } else {
        match first_card(s.drop_last(), t) {
            Some(i) => Some(i),
            None => if same_card(s.last(), t) { Some(s.len() - 1) } else { None },
        }
    }
}

proof fn lemma_first_card(s: Seq<GuiTransfer>, t: GuiTransfer, i: int)
    requires
        0 <= i <= s.len(),
        forall|k: int| 0 <= k < i ==> !same_card(#[trigger] s[k], t),
        i == s.len() || same_card(s[i], t),
    ensures
        first_card(s, t) == if i == s.len() { None::<int> } else { Some(i) },
    decreases s.len(),
{
    if s.len() > 0 {
        if i < s.len() {
            if i < s.len() - 1 {
                lemma_first_card(s.drop_last(), t, i);
            } else {
                lemma_first_card(s.drop_last(), t, s.len() - 1);
            }
        } else {
            lemma_first_card(s.drop_last(), t, s.len() - 1);
        }
    }
}

/// The transfers after a report about `t`: unchanged when `t` is hidden;
/// otherwise `t` replaces the first card it updates, or joins the list; then
/// the list is put in display order.
pub open spec fn upserted(transfers: Seq<GuiTransfer>, hidden: Seq<Seq<char>>, t: GuiTransfer) -> Seq<GuiTransfer> {
    if is_hidden(hidden, t) {
        transfers
    } else {
        sorted_transfers(match first_card(transfers, t) {
            Some(i) => transfers.update(i, t),
            None => transfers.push(t),
        })
    }
}

/// The transfers that have not finished, in order.
pub open spec fn unfinished(s: Seq<GuiTransfer>) -> Seq<GuiTransfer> {
    s.filter(|t: GuiTransfer| !(t.status == TransferStatus::Done || t.status == TransferStatus::Failed))
}

/// `h` with each of `keys` added in order, unless it is there already: what
/// a set of keys becomes when they are inserted.
pub open spec fn add_keys(h: Seq<Seq<char>>, keys: Seq<Seq<char>>) -> Seq<Seq<char>>
    decreases keys.len(),
{
    if keys.len() == 0 {
        h
    } else {
        let g = add_keys(h, keys.drop_last());
        if g.contains(keys.last()) {
            g
        } else {
            g.push(keys.last())
        }
    }
}

proof fn lemma_add_keys_concat(h: Seq<Seq<char>>, a: Seq<Seq<char>>, b: Seq<Seq<char>>)
    ensures
        add_keys(h, a + b) == add_keys(add_keys(h, a), b),
    decreases b.len(),
{
    if b.len() == 0 {
        assert(a + b =~= a);
    } else {
        lemma_add_keys_concat(h, a, b.drop_last());
        assert((a + b).drop_last() =~= a + b.drop_last());
        assert((a + b).last() == b.last());
    }
}

/// The keys added are those already there and the new ones, each once when
/// none was there twice before.
pub proof fn lemma_add_keys(h: Seq<Seq<char>>, keys: Seq<Seq<char>>)
    ensures
        forall|x: Seq<char>| add_keys(h, keys).contains(x) <==> (h.contains(x) || keys.contains(x)),
        h.no_duplicates() ==> add_keys(h, keys).no_duplicates(),
    decreases keys.len(),
{
    if keys.len() > 0 {
        let init = keys.drop_last();
        lemma_add_keys(h, init);
        let g = add_keys(h, init);
        let y = keys.last();
        assert forall|x: Seq<char>| add_keys(h, keys).contains(x) <==> (h.contains(x) || keys.contains(x)) by {
            if keys.contains(x) && !init.contains(x) {
                let j = choose|j: int| 0 <= j < keys.len() && keys[j] == x;
                if j < keys.len() - 1 {
                    assert(init[j] == x);
                }
                assert(x == y);
            }
            if init.contains(x) {
                let j = choose|j: int| 0 <= j < init.len() && init[j] == x;
                assert(keys[j] == x);
            }
            if !g.contains(y) {
                assert(g.push(y)[g.len() as int] == y);
                if g.contains(x) {
                    let j = choose|j: int| 0 <= j < g.len() && g[j] == x;
                    assert(g.push(y)[j] == x);
                }
                if g.push(y).contains(x) {
                    let j = choose|j: int| 0 <= j < g.len() + 1 && g.push(y)[j] == x;
                    if j < g.len() {
                        assert(g[j] == x);
                    }
                }
            }
        }
        if h.no_duplicates() && !g.contains(y) {
            assert forall|i: int, j: int| 0 <= i < j < g.len() + 1 implies g.push(y)[i] != g.push(y)[j] by {
                if j == g.len() {
                    assert(g.push(y)[i] == g[i]);
                }
            }
        }
    }
}

/// The keys of the finished transfers, in order.
pub open spec fn finished_keys(s: Seq<GuiTransfer>) -> Seq<Seq<char>>
    decreases s.len(),
{
    if s.len() == 0 {
        Seq::empty()
    } else {
        let t = s.last();
        finished_keys(s.drop_last()) + if t.status == TransferStatus::Done || t.status == TransferStatus::Failed {
            hidden_key_views(t)
        } else {
            Seq::empty()
        }
    }
}

/// The last active (queued or running) transfer with the highest update
/// sequence, if any.
pub open spec fn last_most_recent_active(s: Seq<GuiTransfer>) -> Option<int>
    decreases s.len(),
{
    if s.len() == 0 {
        None
    } else {
        let t = s.last();
        let active = t.status == TransferStatus::Queued || t.status == TransferStatus::Running;
        match last_most_recent_active(s.drop_last()) {
            None => if active { Some(s.len() - 1) } else { None },
            Some(i) => if active && t.updated_seq >= s[i].updated_seq { Some(s.len() - 1) } else { Some(i) },
        }
    }
}

/// `mid` is `old` with its most recently updated active transfer marked
/// failed, its detail the compacted `reason`.
pub open spec fn marked_failed(old: Seq<GuiTransfer>, mid: Seq<GuiTransfer>, reason: Seq<char>) -> bool {
    match last_most_recent_active(old) {
        None => mid == old,
        Some(i) => {
            &&& mid.len() == old.len()
            &&& forall|k: int| 0 <= k < old.len() && k != i ==> mid[k] == old[k]
            &&& mid[i] == (GuiTransfer { status: TransferStatus::Failed, detail: mid[i].detail, ..old[i] })
            &&& mid[i].detail@ == words_joined(reason)
        },
    }
}

/// Puts transfers in display order.
pub fn sort_transfers(transfers: Vec<GuiTransfer>) -> (r: Vec<GuiTransfer>)
    ensures
        r@ == sorted_transfers(transfers@),
{
    let ghost all = transfers@;
    let mut rest = transfers;
    let mut out: Vec<GuiTransfer> = Vec::new();
    let mut i: usize = 0;
    let n = rest.len();
    while i < n
        invariant
            n == all.len(),
            i <= n,
            rest@ == all.skip(i as int),
            out@ == sorted_transfers(all.take(i as int)),
        decreases n - i,
    {
        let t = rest.remove(0);
        assert(t == all[i as int]);
        let mut j: usize = out.len();
        while j > 0 && sorts_before_exec(&t, &out[j - 1])
            invariant
                j <= out@.len(),
                forall|k: int| j <= k < out@.len() ==> sorts_before(t, #[trigger] out@[k]),
            decreases j,
        {
            j = j - 1;
        }
        proof {
            lemma_insert_transfer_at(out@, t, j as int);
            assert(all.take(i + 1).drop_last() =~= all.take(i as int));
            assert(all.take(i + 1).last() == t);
        }
        out.insert(j, t);
        proof {
            assert(out@ =~= sorted_transfers(all.take(i + 1)));
        }
        i = i + 1;
        assert(rest@ =~= all.skip(i as int));
    }
    assert(all.take(n as int) =~= all);
    out
}

/// Adds `key` to `hidden` unless it is there already.
fn push_absent(hidden: &mut Vec<String>, key: String)
    ensures
        views(final(hidden)@) == if views(old(hidden)@).contains(key@) {
            views(old(hidden)@)
        } else {
            views(old(hidden)@).push(key@)
        },
{
    let mut i: usize = 0;
    while i < hidden.len()
        invariant
            i <= hidden@.len(),
            hidden@ == old(hidden)@,
            forall|m: int| 0 <= m < i ==> (#[trigger] hidden@[m])@ != key@,
        decreases hidden@.len() - i,
    {
        if str_equal(hidden[i].as_str(), key.as_str()) {
            proof {
                assert(views(hidden@)[i as int] == key@);
            }
            return;
        }
        i = i + 1;
    }
    proof {
        assert forall|m: int| 0 <= m < views(hidden@).len() implies views(hidden@)[m] != key@ by {
            assert(views(hidden@)[m] == hidden@[m]@);
        }
    }
    let ghost before = hidden@;
    hidden.push(key);
    proof {
        assert(views(before.push(key)) =~= views(before).push(key@));
    }
}

impl TransferBoard {
    /// The hidden keys as values.
    pub open spec fn hidden_views(&self) -> Seq<Seq<char>> {
        views(self.hidden@)
    }

    /// No key is hidden twice: the hidden keys are a set.
    pub open spec fn wf(&self) -> bool {
        self.hidden_views().no_duplicates()
    }

    /// An empty board whose first update sequence number is 1.
    pub fn new() -> (r: Self)
        ensures
            r.wf(),
            r.transfers@.len() == 0,
            r.hidden@.len() == 0,
            r.next_transfer_seq == 1,
    {
        TransferBoard { transfers: Vec::new(), hidden: Vec::new(), next_transfer_seq: 1 }
    }

    /// Puts the cards in display order.
    pub fn sort(&mut self)
        ensures
            final(self).transfers@ == sorted_transfers(old(self).transfers@),
            final(self).hidden == old(self).hidden,
            final(self).next_transfer_seq == old(self).next_transfer_seq,
    {
        let mut list: Vec<GuiTransfer> = Vec::new();
        std::mem::swap(&mut list, &mut self.transfers);
        self.transfers = sort_transfers(list);
    }

    /// Takes the next update sequence number.
    pub fn bump_seq(&mut self) -> (r: u64)
        ensures
            r == old(self).next_transfer_seq,
            final(self).next_transfer_seq == if old(self).next_transfer_seq == u64::MAX { u64::MAX } else { (old(self).next_transfer_seq + 1) as u64 },
            final(self).transfers == old(self).transfers,
            final(self).hidden == old(self).hidden,
    {
        let seq = self.next_transfer_seq;
        self.next_transfer_seq = self.next_transfer_seq.saturating_add(1);
        seq
    }

    /// Whether a transfer is finished and hidden.
    pub fn is_transfer_hidden(&self, transfer: &GuiTransfer) -> (r: bool)
        ensures
            r == is_hidden(self.hidden_views(), *transfer),
    {
        if !transfer.status.is_finished() {
            return false;
        }
        let keys = transfer_hidden_keys(transfer);
        let ghost kv = hidden_key_views(*transfer);
        assert(keys@.len() == kv.len());
        let mut i: usize = 0;
        while i < keys.len()
            invariant
                keys@.len() == kv.len(),
                forall|k: int| 0 <= k < keys@.len() ==> (#[trigger] keys@[k])@ == kv[k],
                kv == hidden_key_views(*transfer),
                transfer.status == TransferStatus::Done || transfer.status == TransferStatus::Failed,
                i <= keys@.len(),
                forall|k: int| 0 <= k < i ==> !self.hidden_views().contains(#[trigger] kv[k]),
            decreases keys@.len() - i,
        {
            let mut h: usize = 0;
            while h < self.hidden.len()
                invariant
                    h <= self.hidden@.len(),
                    i < keys@.len(),
                    keys@.len() == kv.len(),
                    forall|k: int| 0 <= k < keys@.len() ==> (#[trigger] keys@[k])@ == kv[k],
                    kv == hidden_key_views(*transfer),
                    transfer.status == TransferStatus::Done || transfer.status == TransferStatus::Failed,
                    forall|m: int| 0 <= m < h ==> (#[trigger] self.hidden@[m])@ != keys@[i as int]@,
                decreases self.hidden@.len() - h,
            {
                if str_equal(self.hidden[h].as_str(), keys[i].as_str()) {
                    proof {
                        assert(self.hidden_views()[h as int] == self.hidden@[h as int]@);
                        assert(self.hidden_views()[h as int] == kv[i as int]);
                        assert(self.hidden_views().contains(kv[i as int]));
                    }
                    return true;
                }
                h = h + 1;
            }
            proof {
                assert forall|m: int| 0 <= m < self.hidden_views().len() implies self.hidden_views()[m] != kv[i as int] by {
                    assert(self.hidden_views()[m] == self.hidden@[m]@);
                }
            }
            i = i + 1;
        }
        false
    }

    /// Records a report about a transfer: a hidden finished transfer is
    /// ignored; otherwise it replaces the first card it updates or joins the
    /// list, and the list is put in display order.
    pub fn upsert_transfer(&mut self, transfer: GuiTransfer)
        ensures
            final(self).transfers@ == upserted(old(self).transfers@, old(self).hidden_views(), transfer),
            final(self).hidden == old(self).hidden,
            final(self).next_transfer_seq == old(self).next_transfer_seq,
    {
        if self.is_transfer_hidden(&transfer) {
            return;
        }
        let mut i: usize = 0;
        while i < self.transfers.len() && !same_card_exec(&self.transfers[i], &transfer)
            invariant
                i <= self.transfers@.len(),
                forall|k: int| 0 <= k < i ==> !same_card(#[trigger] self.transfers@[k], transfer),
            decreases self.transfers@.len() - i,
        {
            i = i + 1;
        }
        proof {
            lemma_first_card(self.transfers@, transfer, i as int);
        }
        let mut list: Vec<GuiTransfer> = Vec::new();
        std::mem::swap(&mut list, &mut self.transfers);
        if i < list.len() {
            list.set(i, transfer);
        } else {
            list.push(transfer);
        }
        self.transfers = sort_transfers(list);
    }

    /// Hides the finished transfers: their keys join the hidden ones and they
    /// leave the list. Returns whether the list is now empty.
    pub fn clear_finished_transfers(&mut self) -> (r: bool)
        ensures
            final(self).transfers@ == unfinished(old(self).transfers@),
            final(self).hidden_views() == add_keys(old(self).hidden_views(), finished_keys(old(self).transfers@)),
            old(self).wf() ==> final(self).wf(),
            final(self).next_transfer_seq == old(self).next_transfer_seq,
            r == (final(self).transfers@.len() == 0),
    {
        let mut list: Vec<GuiTransfer> = Vec::new();
        std::mem::swap(&mut list, &mut self.transfers);
        let ghost all = list@;
        let ghost start_hidden = self.hidden_views();
        let ghost seq0 = self.next_transfer_seq;
        let n = list.len();
        let mut kept: Vec<GuiTransfer> = Vec::new();
        let mut i: usize = 0;
        while i < n
            invariant
                n == all.len(),
                i <= n,
                list@ == all.skip(i as int),
                kept@ == unfinished(all.take(i as int)),
                self.hidden_views() == add_keys(start_hidden, finished_keys(all.take(i as int))),
                self.next_transfer_seq == seq0,
            decreases n - i,
        {
            let t = list.remove(0);
            assert(t == all[i as int]);
            proof {
                assert(all.take(i + 1).drop_last() =~= all.take(i as int));
                assert(all.take(i + 1).last() == t);
                reveal(Seq::filter);
            }
            if t.status.is_finished() {
                let keys = transfer_hidden_keys(&t);
                let ghost before = self.hidden_views();
                let mut k: usize = 0;
                while k < keys.len()
                    invariant
                        k <= keys@.len(),
                        keys@.len() == hidden_key_views(t).len(),
                        forall|m: int| 0 <= m < keys@.len() ==> (#[trigger] keys@[m])@ == hidden_key_views(t)[m],
                        self.hidden_views() == add_keys(before, hidden_key_views(t).take(k as int)),
                        self.next_transfer_seq == seq0,
                    decreases keys@.len() - k,
                {
                    let key = keys[k].clone();
                    assert(key@ == hidden_key_views(t)[k as int]);
                    push_absent(&mut self.hidden, key);
                    proof {
                        let tk = hidden_key_views(t).take(k + 1);
                        assert(tk.drop_last() =~= hidden_key_views(t).take(k as int));
                        assert(tk.last() == key@);
                    }
                    k = k + 1;
                }
                proof {
                    assert(hidden_key_views(t).take(keys@.len() as int) =~= hidden_key_views(t));
                    assert(unfinished(all.take(i + 1)) =~= unfinished(all.take(i as int)));
                    lemma_add_keys_concat(start_hidden, finished_keys(all.take(i as int)), hidden_key_views(t));
                    assert(finished_keys(all.take(i + 1)) == finished_keys(all.take(i as int)) + hidden_key_views(t));
                }
            } else {
                kept.push(t);
                proof {
                    assert(unfinished(all.take(i + 1)) =~= unfinished(all.take(i as int)).push(t));
                    assert(finished_keys(all.take(i + 1)) =~= finished_keys(all.take(i as int)));
                }
            }
            i = i + 1;
            assert(list@ =~= all.skip(i as int));
        }
        assert(all.take(n as int) =~= all);
        proof {
            lemma_add_keys(start_hidden, finished_keys(all));
        }
        self.transfers = kept;
        self.transfers.len() == 0
    }

    /// Marks the most recently updated active transfer (the last of equally
    /// recent ones) failed, with `reason` compacted as its detail, and puts the
    /// list in display order.
    pub fn mark_recent_running_failed(&mut self, reason: &str)
        ensures
            exists|mid: Seq<GuiTransfer>| marked_failed(old(self).transfers@, mid, reason@) && final(self).transfers@ == sorted_transfers(mid),
            final(self).hidden == old(self).hidden,
            final(self).next_transfer_seq == old(self).next_transfer_seq,
    {
        let mut best: Option<usize> = None;
        let mut i: usize = 0;
        while i < self.transfers.len()
            invariant
                i <= self.transfers@.len(),
                match best {
                    Some(b) => last_most_recent_active(self.transfers@.take(i as int)) == Some(b as int) && b < i,
                    None => last_most_recent_active(self.transfers@.take(i as int)) is None,
                },
            decreases self.transfers@.len() - i,
        {
            proof {
                assert(self.transfers@.take(i + 1).drop_last() =~= self.transfers@.take(i as int));
            }
            let t = &self.transfers[i];
            let active = match t.status {
                TransferStatus::Queued | TransferStatus::Running => true,
                _ => false,
            };
            if active {
                match best {
                    None => {
                        best = Some(i);
                    },
                    Some(b) => {
                        if t.updated_seq >= self.transfers[b].updated_seq {
                            best = Some(i);
                        }
                    },
                }
            }
            i = i + 1;
        }
        assert(self.transfers@.take(self.transfers@.len() as int) =~= self.transfers@);
        let mut list: Vec<GuiTransfer> = Vec::new();
        std::mem::swap(&mut list, &mut self.transfers);
        let ghost before = list@;
        if let Some(b) = best {
            let mut t = list.remove(b);
            t.status = TransferStatus::Failed;
            t.detail = join_words(reason);
            list.insert(b, t);
            proof {
                assert forall|k: int| 0 <= k < list@.len() && k != b implies list@[k] == before[k] by {
                    if k < b {
                    } else {
                    }
                }
            }
        }
        proof {
            if best is None {
                assert(list@ =~= before);
            }
            assert(marked_failed(before, list@, reason@));
        }
        self.transfers = sort_transfers(list);
    }

    /// The index of the first transfer of `kind` for `share_id`.
    pub fn find_transfer_by_share(&self, share_id: ShareId, kind: TransferKind) -> (r: Option<usize>)
        ensures
            match r {
                Some(i) => i < self.transfers@.len() && same_share(self.transfers@[i as int].share_id, Some(share_id))
                    && self.transfers@[i as int].kind == kind
                    && forall|k: int| 0 <= k < i ==> !(same_share(#[trigger] self.transfers@[k].share_id, Some(share_id)) && self.transfers@[k].kind == kind),
                None => forall|k: int| 0 <= k < self.transfers@.len() ==> !(same_share(#[trigger] self.transfers@[k].share_id, Some(share_id)) && self.transfers@[k].kind == kind),
            },
            match first_index(self.transfers@, for_card(share_id, kind)) {
                Some(i) => r == Some(i as usize),
                None => r is None,
            },
            first_index(self.transfers@, for_card(share_id, kind)) matches Some(i) ==> 0 <= i < self.transfers.len(),
    {
        proof {
            lemma_first_index_bound(self.transfers@, for_card(share_id, kind));
        }
        let target = Some(share_id);
        let mut i: usize = 0;
        while i < self.transfers.len()
            invariant
                target == Some(share_id),
                i <= self.transfers@.len(),
                forall|k: int| 0 <= k < i ==> !(same_share(#[trigger] self.transfers@[k].share_id, Some(share_id)) && self.transfers@[k].kind == kind),
            decreases self.transfers@.len() - i,
        {
            if same_share_exec(&self.transfers[i].share_id, &target) && self.transfers[i].kind == kind {
                proof {
                    lemma_first_index(self.transfers@, for_card(share_id, kind), i as int);
                }
                return Some(i);
            }
            i = i + 1;
        }
        proof {
            lemma_first_index(self.transfers@, for_card(share_id, kind), i as int);
        }
        None
    }
}

/// The kind of transfer a task belongs to: seeding when its name mentions
/// seeding, encryption or staging, else downloading.
pub open spec fn task_kind(task: Seq<char>) -> TransferKind {
    if find_sub(task, "seed"@) is Some || find_sub(task, "encrypt"@) is Some || find_sub(task, "staged"@) is Some {
        TransferKind::Seed
    } else {
        TransferKind::Download
    }
}

/// The index of the first share with id `share_id`.
pub open spec fn share_index(shares: Seq<IpcShareSummary>, share_id: ShareId) -> Option<int>
    decreases shares.len(),
{
    if shares.len() == 0 {
        None
    } else {
        match share_index(shares.drop_last(), share_id) {
            Some(i) => Some(i),
            None => if shares.last().share_id.0@ == share_id.0@ { Some(shares.len() - 1) } else { None },
        }
    }
}

proof fn lemma_share_index(shares: Seq<IpcShareSummary>, share_id: ShareId, i: int)
    requires
        0 <= i <= shares.len(),
        forall|k: int| 0 <= k < i ==> (#[trigger] shares[k]).share_id.0@ != share_id.0@,
        i == shares.len() || shares[i].share_id.0@ == share_id.0@,
    ensures
        share_index(shares, share_id) == if i == shares.len() { None::<int> } else { Some(i) },
    decreases shares.len(),
{
    if shares.len() > 0 {
        if i < shares.len() - 1 {
            lemma_share_index(shares.drop_last(), share_id, i);
        } else {
            lemma_share_index(shares.drop_last(), share_id, shares.len() - 1);
        }
    }
}

proof fn lemma_share_index_bound(shares: Seq<IpcShareSummary>, share_id: ShareId)
    ensures
        share_index(shares, share_id) matches Some(i) ==> 0 <= i < shares.len(),
    decreases shares.len(),
{
    if shares.len() > 0 {
        lemma_share_index_bound(shares.drop_last(), share_id);
    }
}

/// The index of the first share with id `share_id`.
pub fn find_share(shares: &[IpcShareSummary], share_id: ShareId) -> (r: Option<usize>)
    ensures
        match share_index(shares@, share_id) {
            Some(i) => r == Some(i as usize),
            None => r is None,
        },
        r matches Some(i) ==> i < shares@.len(),
        share_index(shares@, share_id) matches Some(i) ==> 0 <= i < shares.len(),
{
    proof {
        lemma_share_index_bound(shares@, share_id);
    }
    let mut i: usize = 0;
    while i < shares.len()
        invariant
            i <= shares@.len(),
            forall|k: int| 0 <= k < i ==> (#[trigger] shares@[k]).share_id.0@ != share_id.0@,
        decreases shares@.len() - i,
    {
        if shares[i].share_id == share_id {
            proof {
                lemma_share_index(shares@, share_id, i as int);
            }
            return Some(i);
        }
        i = i + 1;
    }
    proof {
        lemma_share_index(shares@, share_id, i as int);
    }
    None
}

/// Records a share: it replaces the first share with its id, or joins the list.
pub fn upsert_share(shares: &mut Vec<IpcShareSummary>, share: IpcShareSummary)
    ensures
        final(shares)@ == match share_index(old(shares)@, share.share_id) {
            Some(i) => old(shares)@.update(i, share),
            None => old(shares)@.push(share),
        },
{
    let ghost before = shares@;
    assert(before.len() == shares.len());
    let found = find_share(shares.as_slice(), share.share_id);
    match found {
        Some(i) => {
            shares.set(i, share);
        },
        None => {
            shares.push(share);
        },
    }
}

/// `r` is the card for task progress report `p`, at update sequence `seq`:
/// its kind comes from the task name, its share from the label when that is a
/// share id, its label from that share's name (or else the label of the
/// report's label as a path, see `is_path_label`), its id
/// from the job (or the kind and label), its status done when the task
/// completed or a seed has all its chunks, its detail from the task name.
pub open spec fn progress_card(p: TaskProgressSnapshot, shares: Seq<IpcShareSummary>, seq: u64, r: GuiTransfer) -> bool {
    &&& r.kind == task_kind(p.task@)
    &&& match crate::file::descriptor::parse_share_id(encode_utf8(p.label@)) {
        Some(bytes) => r.share_id matches Some(s) && s.0@ == bytes,
        None => r.share_id is None,
    }
    &&& match r.share_id {
        Some(s) => match share_index(shares, s) {
            Some(i) => r.label@ == shares[i].name@,
            None => is_path_label(p.label@, r.label@),
        },
        None => is_path_label(p.label@, r.label@),
    }
    &&& match p.job_id {
        Some(j) => r.id@ == j@,
        None => r.id@ == kind_word(r.kind) + ":"@ + r.label@,
    }
    &&& r.status == if find_sub(p.task@, "completed"@) is Some || (r.kind == TransferKind::Seed && p.total_chunks > 0
        && p.completed_chunks >= p.total_chunks) {
        TransferStatus::Done
    } else {
        TransferStatus::Running
    }
    &&& r.completed_chunks == p.completed_chunks
    &&& r.total_chunks == p.total_chunks
    &&& r.bytes_done == p.bytes_done
    &&& r.total_bytes == p.total_bytes
    &&& r.bytes_per_second == p.bytes_per_second
    &&& r.detail@ == crate::gui::model::friendly_detail_spec(p.task@)
    &&& r.updated_seq == seq
}

/// The transfer card for a task progress report, at update sequence `seq`.
pub fn progress_transfer(progress: &TaskProgressSnapshot, shares: &[IpcShareSummary], seq: u64) -> (r: GuiTransfer)
    ensures
        progress_card(*progress, shares@, seq, r),
{
    let task = progress.task.as_str();
    let kind = if str_contains(task, "seed") || str_contains(task, "encrypt") || str_contains(task, "staged") {
        TransferKind::Seed
    } else {
        TransferKind::Download
    };
    let share_id = match ShareId::parse(progress.label.as_str()) {
        Ok(id) => Some(id),
        Err(_) => None,
    };
    let found = match share_id {
        Some(id) => find_share(shares, id),
        None => None,
    };
    let label = match found {
        Some(i) => shares[i].name.clone(),
        None => trim_path_label(progress.label.as_str()),
    };
    let id = match &progress.job_id {
        Some(j) => j.clone(),
        None => {
            let mut s = kind.label().to_string();
            s.append(":");
            s.append(label.as_str());
            s
        },
    };
    let completed = progress.total_chunks > 0 && progress.completed_chunks >= progress.total_chunks;
    let status = if str_contains(task, "completed") || (kind == TransferKind::Seed && completed) {
        TransferStatus::Done
    } else {
        TransferStatus::Running
    };
    GuiTransfer {
        id,
        kind,
        label,
        share_id,
        status,
        completed_chunks: progress.completed_chunks,
        total_chunks: progress.total_chunks,
        bytes_done: progress.bytes_done,
        total_bytes: progress.total_bytes,
        bytes_per_second: progress.bytes_per_second,
        detail: friendly_task_detail(task),
        updated_seq: seq,
    }
}

/// A copy of a transfer card.
pub fn copy_transfer(t: &GuiTransfer) -> (r: GuiTransfer)
    ensures
        r == *t,
{
    GuiTransfer {
        id: t.id.clone(),
        kind: t.kind,
        label: t.label.clone(),
        share_id: t.share_id,
        status: t.status,
        completed_chunks: t.completed_chunks,
        total_chunks: t.total_chunks,
        bytes_done: t.bytes_done,
        total_bytes: t.total_bytes,
        bytes_per_second: t.bytes_per_second,
        detail: t.detail.clone(),
        updated_seq: t.updated_seq,
    }
}

impl TransferBoard {
    /// Records a task progress report: its card takes the next update
    /// sequence number and is upserted. Returns the card.
    pub fn apply_task_progress(&mut self, progress: &TaskProgressSnapshot, shares: &[IpcShareSummary]) -> (r: GuiTransfer)
        ensures
            progress_card(*progress, shares@, old(self).next_transfer_seq, r),
            final(self).transfers@ == upserted(old(self).transfers@, old(self).hidden_views(), r),
            final(self).hidden == old(self).hidden,
            final(self).next_transfer_seq == crate::gui::sync::bumped(old(self).next_transfer_seq),
    {
        let seq = self.bump_seq();
        let transfer = progress_transfer(progress, shares, seq);
        let card = copy_transfer(&transfer);
        self.upsert_transfer(transfer);
        card
    }
}

/// The cards are in display order: none sorts before a card that precedes
/// it.
pub open spec fn in_display_order(s: Seq<GuiTransfer>) -> bool {
    forall|i: int, j: int| 0 <= i < j < s.len() ==> !sorts_before(#[trigger] s[j], #[trigger] s[i])
}

proof fn lemma_insert_transfer_ordered(s: Seq<GuiTransfer>, x: GuiTransfer)
    requires
        in_display_order(s),
    ensures
        in_display_order(insert_transfer(s, x)),
        insert_transfer(s, x).to_multiset() == s.to_multiset().insert(x),
    decreases s.len(),
{
    broadcast use vstd::seq_lib::group_to_multiset_ensures;

    if s.len() == 0 {
        assert(seq![x] == Seq::<GuiTransfer>::empty().push(x));
    } else if !sorts_before(x, s.last()) {
        let r = s.push(x);
        assert forall|i: int, j: int| 0 <= i < j < r.len() implies !sorts_before(#[trigger] r[j], #[trigger] r[i]) by {
            if j == s.len() {
                if i < s.len() - 1 {
                    assert(!sorts_before(s[s.len() - 1], s[i]));
                }
            } else {
                assert(r[j] == s[j] && r[i] == s[i]);
            }
        }
    } else {
        let p = s.drop_last();
        let last = s.last();
        assert(in_display_order(p)) by {
            assert forall|i: int, j: int| 0 <= i < j < p.len() implies !sorts_before(#[trigger] p[j], #[trigger] p[i]) by {
                assert(p[j] == s[j] && p[i] == s[i]);
            }
        }
        lemma_insert_transfer_ordered(p, x);
        let q = insert_transfer(p, x);
        let r = q.push(last);
        assert(s == p.push(last));
        assert forall|i: int, j: int| 0 <= i < j < r.len() implies !sorts_before(#[trigger] r[j], #[trigger] r[i]) by {
            if j == q.len() {
                let y = q[i];
                assert(q.to_multiset().count(y) > 0);
                if y != x {
                    assert(p.to_multiset().count(y) > 0);
                    assert(p.contains(y));
                    let k = choose|k: int| 0 <= k < p.len() && p[k] == y;
                    assert(!sorts_before(s[s.len() - 1], s[k]));
                }
            } else {
                assert(r[j] == q[j] && r[i] == q[i]);
            }
        }
    }
}

/// Law: putting cards in display order gives a list in display order that
/// holds the same cards.
pub proof fn lemma_display_order(s: Seq<GuiTransfer>)
    ensures
        in_display_order(sorted_transfers(s)),
        sorted_transfers(s).to_multiset() == s.to_multiset(),
    decreases s.len(),
{
    broadcast use vstd::seq_lib::group_to_multiset_ensures;

    if s.len() > 0 {
        lemma_display_order(s.drop_last());
        lemma_insert_transfer_ordered(sorted_transfers(s.drop_last()), s.last());
        assert(s == s.drop_last().push(s.last()));
    }
}

proof fn lemma_finished_keys_hold_ids(s: Seq<GuiTransfer>, k: int)
    requires
        0 <= k < s.len(),
        s[k].status == TransferStatus::Done || s[k].status == TransferStatus::Failed,
    ensures
        finished_keys(s).contains(s[k].id@),
    decreases s.len(),
{
    let t = s.last();
    let tail = if t.status == TransferStatus::Done || t.status == TransferStatus::Failed {
        hidden_key_views(t)
    } else {
        Seq::empty()
    };
    assert(finished_keys(s) == finished_keys(s.drop_last()) + tail);
    if k < s.len() - 1 {
        lemma_finished_keys_hold_ids(s.drop_last(), k);
        let i = choose|i: int| 0 <= i < finished_keys(s.drop_last()).len() && finished_keys(s.drop_last())[i] == s[k].id@;
        assert(finished_keys(s)[i] == s[k].id@);
    } else {
        assert(tail[0] == t.id@);
        assert(finished_keys(s)[finished_keys(s.drop_last()).len() as int] == t.id@);
    }
}

/// Law: cleared cards do not come back: once the finished cards are cleared,
/// a report of a finished card with the id of one of them changes nothing.
pub proof fn lemma_cleared_stay_hidden(old: Seq<GuiTransfer>, hidden: Seq<Seq<char>>, k: int, t: GuiTransfer)
    requires
        0 <= k < old.len(),
        old[k].status == TransferStatus::Done || old[k].status == TransferStatus::Failed,
        t.status == TransferStatus::Done || t.status == TransferStatus::Failed,
        t.id@ == old[k].id@,
    ensures
        upserted(unfinished(old), add_keys(hidden, finished_keys(old)), t) == unfinished(old),
{
    lemma_finished_keys_hold_ids(old, k);
    lemma_add_keys(hidden, finished_keys(old));
    let all = add_keys(hidden, finished_keys(old));
    assert(all.contains(t.id@));
    assert(hidden_key_views(t)[0] == t.id@);
    assert(all.contains(hidden_key_views(t)[0]));
    assert(is_hidden(all, t));
}

} // verus!
