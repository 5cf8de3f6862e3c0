//! Text formatting for the desktop client.

use vstd::prelude::*;

use crate::bytes::{zero_padded, zero_padded_string};
use crate::path::{ends_in_parent, normal_name, path_file_name, slash_file_name, slash_readable, written_path};
use crate::text::{join_words, non_empty_trimmed, trimmed, words_joined};

verus! {

/// The text without white space at its ends, unless nothing is left.
pub fn non_empty(value: &str) -> (r: Option<&str>)
    ensures
        match r {
            Some(t) => t@ == trimmed(value@) && t@.len() > 0,
            None => trimmed(value@).len() == 0,
        },
{
    non_empty_trimmed(value)
}

/// A log line with its white space collapsed: its words joined by single
/// spaces.
pub fn compact_log_line(value: &str) -> (r: String)
    ensures
        r@ == words_joined(value@),
{
    join_words(value)
}

/// `r` is the label of `path` as far as the platform does not decide it: a
/// normal file name is its own label; a path written as normal names with `/`
/// between them is labelled by its last name, or by itself when it has none;
/// a path that reads the same with `/` as its only separator is labelled by
/// its file name, or by itself when it has none (ending in `..`, say).
pub open spec fn is_path_label(path: Seq<char>, r: Seq<char>) -> bool {
    &&& normal_name(path) ==> r == path
    &&& forall|rooted: bool, parts: Seq<Seq<char>>| #[trigger] written_path(rooted, parts, path) ==>
        r == if parts.len() > 0 { parts.last() } else { path }
    &&& ends_in_parent(path) ==> r == path
    &&& slash_readable(path) ==> r == match slash_file_name(path) {
        Some(name) => name,
        None => path,
    }
}

/// The label of a path: its final component when it has a non-empty one, or
/// else the path itself (a normal file name is its own label).
pub fn file_label(path: &str) -> (r: String)
    ensures
        is_path_label(path@, r@),
{
    proof {
        if slash_readable(path@) {
            if let Some(name) = slash_file_name(path@) {
                let segs = crate::text::split_on(path@, '/');
                let pred = |seg: Seq<char>| seg.len() > 0 && seg != seq!['.'];
                segs.filter_lemma(pred);
                let names = segs.filter(pred);
                assert(pred(names[names.len() - 1]));
            }
        }
    }
    match path_file_name(path) {
        Some(name) => {
            if name.as_str().is_empty() {
                path.to_string()
            } else {
                name
            }
        },
        None => path.to_string(),
    }
}

/// The label of a path given as text.
pub fn trim_path_label(value: &str) -> (r: String)
    ensures
        is_path_label(value@, r@),
{
    file_label(value)
}

/// The time of day of a moment given in seconds since the Unix epoch, as
/// `HH:MM:SS` (UTC).
pub open spec fn time_of_day_spec(epoch_secs: u64) -> Seq<char> {
    let secs = epoch_secs % 86400;
    zero_padded((secs / 3600) as nat, 2) + seq![':'] + zero_padded(((secs % 3600) / 60) as nat, 2) + seq![':']
        + zero_padded((secs % 60) as nat, 2)
}

/// The time of day of a moment given in seconds since the Unix epoch.
pub fn time_of_day(epoch_secs: u64) -> (r: String)
    ensures
        r@ == time_of_day_spec(epoch_secs),
{
    let secs = epoch_secs % 86400;
    let mut s = zero_padded_string(secs / 3600, 2);
    s.append(":");
    s.append(zero_padded_string((secs % 3600) / 60, 2).as_str());
    s.append(":");
    s.append(zero_padded_string(secs % 60, 2).as_str());
    proof {
        reveal_strlit(":");
    }
    s
}

/// Calls `std::time::SystemTime::elapsed` on the Unix epoch: the seconds since
/// the epoch, or `None` when the clock is before it. The time is the
/// machine's, so nothing is claimed of it.
#[verifier::external_body]
fn epoch_seconds() -> (r: Option<u64>) {
    match std::time::UNIX_EPOCH.elapsed() {
        Ok(elapsed) => Some(elapsed.as_secs()),
        Err(_) => None,
    }
}

/// The current time of day, `HH:MM:SS` (UTC); midnight when the clock is
/// before the epoch.
pub fn short_time() -> (r: String)
    ensures
        exists|secs: u64| r@ == time_of_day_spec(secs),
{
    let secs = match epoch_seconds() {
        Some(s) => s,
        None => 0,
    };
    time_of_day(secs)
}

} // verus!
