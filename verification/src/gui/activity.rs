//! The client's activity log: compacted messages with their time of day, the
//! same message twice in a row kept once, and only the newest lines kept.

use vstd::prelude::*;

use crate::gui::board::views;
use crate::text::{join_words, str_equal, words_joined};

verus! {

/// The fewest lines the activity log may be limited to.
pub const MIN_ACTIVITY_LIMIT: usize = 20;

/// The newest `limit` entries of `s` (all of them when there are fewer).
pub open spec fn newest(s: Seq<Seq<char>>, limit: nat) -> Seq<Seq<char>> {
    if s.len() > limit { s.skip(s.len() - limit) } else { s }
}

/// The line logged for `message` at `time`: the time, two spaces, and the
/// message with its white space collapsed.
pub open spec fn log_line(time: Seq<char>, message: Seq<char>) -> Seq<char> {
    time + "  "@ + words_joined(message)
}

/// The log's lines and last message after logging `message` at `time`: a
/// message equal (once compacted) to the last one is dropped; otherwise its
/// line is appended and only the newest `limit` lines are kept.
pub open spec fn after_log(
    lines: Seq<Seq<char>>,
    last: Option<Seq<char>>,
    limit: nat,
    time: Seq<char>,
    message: Seq<char>,
) -> (Seq<Seq<char>>, Option<Seq<char>>) {
    if last == Some(words_joined(message)) {
        (lines, last)
    } else {
        (newest(lines.push(log_line(time, message)), limit), Some(words_joined(message)))
    }
}

/// The activity lines, the last message logged (compacted), and how many
/// lines are kept.
pub struct ActivityLog {
    pub lines: Vec<String>,
    pub last_message: Option<String>,
    pub limit: usize,
}

impl ActivityLog {
    /// The lines as text.
    pub open spec fn lines_view(&self) -> Seq<Seq<char>> {
        views(self.lines@)
    }

    /// The last message as text.
    pub open spec fn last_view(&self) -> Option<Seq<char>> {
        match self.last_message {
            Some(m) => Some(m@),
            None => None,
        }
    }

    /// An empty log keeping `limit` lines.
    pub fn new(limit: usize) -> (r: Self)
        ensures
            r.lines_view() == Seq::<Seq<char>>::empty(),
            r.last_view() is None,
            r.limit == limit,
    {
        let r = ActivityLog { lines: Vec::new(), last_message: None, limit };
        assert(r.lines_view() =~= Seq::<Seq<char>>::empty());
        r
    }

    /// Drops the oldest lines until at most `limit` are left.
    pub fn trim(&mut self)
        ensures
            final(self).lines_view() == newest(old(self).lines_view(), old(self).limit as nat),
            final(self).last_view() == old(self).last_view(),
            final(self).limit == old(self).limit,
    {
        let ghost start = self.lines_view();
        let ghost dropped: int = 0;
        while self.lines.len() > self.limit
            invariant
                0 <= dropped <= start.len(),
                self.lines_view() == start.skip(dropped),
                dropped > 0 ==> start.len() - dropped >= self.limit,
                self.last_view() == old(self).last_view(),
                self.limit == old(self).limit,
                start == old(self).lines_view(),
            decreases self.lines@.len(),
        {
            let ghost before = self.lines@;
            self.lines.remove(0);
            proof {
                assert(views(self.lines@) =~= views(before).skip(1));
                dropped = dropped + 1;
                assert(self.lines_view() =~= start.skip(dropped));
            }
        }
        proof {
            if start.len() > self.limit {
                assert(dropped == start.len() - self.limit);
            } else {
                assert(dropped == 0);
                assert(start.skip(0) =~= start);
            }
        }
    }

    /// Logs `message` at `time` (see `after_log`).
    pub fn push(&mut self, message: &str, time: &str)
        ensures
            (final(self).lines_view(), final(self).last_view())
                == after_log(old(self).lines_view(), old(self).last_view(), old(self).limit as nat, time@, message@),
            final(self).limit == old(self).limit,
    {
        let compact = join_words(message);
        let repeated = match &self.last_message {
            Some(last) => str_equal(last.as_str(), compact.as_str()),
            None => false,
        };
        if repeated {
            return;
        }
        let mut line = time.to_string();
        line.append("  ");
        line.append(compact.as_str());
        let ghost before = self.lines@;
        self.last_message = Some(compact);
        self.lines.push(line);
        proof {
            reveal_strlit("  ");
            assert(views(self.lines@) =~= views(before).push(log_line(time@, message@)));
        }
        self.trim();
    }

    /// Empties the log and forgets the last message.
    pub fn clear(&mut self)
        ensures
            final(self).lines_view() == Seq::<Seq<char>>::empty(),
            final(self).last_view() is None,
            final(self).limit == old(self).limit,
    {
        self.lines = Vec::new();
        self.last_message = None;
        assert(self.lines_view() =~= Seq::<Seq<char>>::empty());
    }

    /// Keeps at most `limit` lines, and never fewer than the minimum.
    pub fn set_limit(&mut self, limit: usize)
        ensures
            final(self).limit == if limit > MIN_ACTIVITY_LIMIT { limit } else { MIN_ACTIVITY_LIMIT },
            final(self).lines_view() == newest(old(self).lines_view(), final(self).limit as nat),
            final(self).last_view() == old(self).last_view(),
    {
        self.limit = if limit > MIN_ACTIVITY_LIMIT { limit } else { MIN_ACTIVITY_LIMIT };
        self.trim();
    }
}

/// Law: logging the same message again right away changes nothing, whatever
/// the time.
pub proof fn lemma_repeat_logged_once(
    lines: Seq<Seq<char>>,
    last: Option<Seq<char>>,
    limit: nat,
    first: Seq<char>,
    second: Seq<char>,
    message: Seq<char>,
)
    ensures
        ({
            let (l1, m1) = after_log(lines, last, limit, first, message);
            after_log(l1, m1, limit, second, message) == (l1, m1)
        }),
{
}

/// Law: a log within its limit stays within it.
pub proof fn lemma_log_within_limit(lines: Seq<Seq<char>>, last: Option<Seq<char>>, limit: nat, time: Seq<char>, message: Seq<char>)
    requires
        lines.len() <= limit,
    ensures
        after_log(lines, last, limit, time, message).0.len() <= limit,
{
}

} // verus!
