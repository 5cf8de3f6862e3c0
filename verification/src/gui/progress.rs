//! Reading task progress out of the debug text of an event.

use vstd::prelude::*;

use crate::bytes::{chars_of, string_from_chars};
use crate::text::{digits_value, find_chars, find_sub, parse_digits};

verus! {

/// The progress of one task of the daemon.
#[derive(Debug)]
pub struct TaskProgressSnapshot {
    pub job_id: Option<String>,
    pub task: String,
    pub label: String,
    pub completed_chunks: usize,
    pub total_chunks: usize,
    pub bytes_done: u64,
    pub total_bytes: u64,
    pub bytes_per_second: u64,
}

/// The marker before a field's value in debug text: the name, a colon and a
/// space.
pub open spec fn field_marker(field: Seq<char>) -> Seq<char> {
    field + seq![':', ' ']
}

/// The text after a field's marker, if the marker occurs.
pub open spec fn after_marker(value: Seq<char>, field: Seq<char>) -> Option<Seq<char>> {
    match find_sub(value, field_marker(field)) {
        Some(p) => Some(value.skip(p + field_marker(field).len())),
        None => None,
    }
}

/// The first double-quoted text after a field's marker.
pub open spec fn debug_string(value: Seq<char>, field: Seq<char>) -> Option<Seq<char>> {
    match after_marker(value, field) {
        None => None,
        Some(rest) => match find_sub(rest, seq!['"']) {
            None => None,
            Some(q) => {
                let after = rest.skip(q + 1);
                match find_sub(after, seq!['"']) {
                    None => None,
                    Some(e) => Some(after.take(e)),
                }
            },
        },
    }
}

/// A field's double-quoted text, unless the field is `None`.
pub open spec fn debug_option_string(value: Seq<char>, field: Seq<char>) -> Option<Seq<char>> {
    match after_marker(value, field) {
        None => None,
        Some(rest) => if rest.len() >= 4 && rest.take(4) == "None"@ { None } else { debug_string(value, field) },
    }
}

/// The number of ASCII digits that begin `s`.
pub open spec fn digit_run(s: Seq<char>) -> nat
    decreases s.len(),
{
    if s.len() > 0 && '0' <= s[0] && s[0] <= '9' {
        1 + digit_run(s.skip(1))
    } else {
        0
    }
}

/// The number a field holds: the digits right after its marker, when there
/// are some and their value fits in `max`.
pub open spec fn debug_number(value: Seq<char>, field: Seq<char>, max: nat) -> Option<nat> {
    match after_marker(value, field) {
        None => None,
        Some(rest) => {
            let digits = rest.take(digit_run(rest) as int);
            match digits_value(digits) {
                Some(v) => if v <= max { Some(v) } else { None },
                None => None,
            }
        },
    }
}

proof fn lemma_digit_run_is(s: Seq<char>, n: int)
    requires
        0 <= n <= s.len(),
        forall|i: int| 0 <= i < n ==> '0' <= #[trigger] s[i] && s[i] <= '9',
        n == s.len() || !('0' <= s[n] && s[n] <= '9'),
    ensures
        digit_run(s) == n,
    decreases s.len(),
{
    if n > 0 {
        assert forall|i: int| 0 <= i < n - 1 implies '0' <= #[trigger] s.skip(1)[i] && s.skip(1)[i] <= '9' by {
            assert(s.skip(1)[i] == s[i + 1]);
        }
        lemma_digit_run_is(s.skip(1), n - 1);
    }
}

fn marker_chars(field: &str) -> (r: Vec<char>)
    ensures
        r@ == field_marker(field@),
{
    let mut m = chars_of(field);
    m.push(':');
    m.push(' ');
    m
}

fn after_marker_exec(value: &[char], field: &str) -> (r: Option<Vec<char>>)
    ensures
        match after_marker(value@, field@) {
            Some(rest) => r matches Some(v) && v@ == rest,
            None => r is None,
        },
{
    let marker = marker_chars(field);
    match find_chars(value, marker.as_slice()) {
        None => None,
        Some(p) => {
            proof {
                crate::text::lemma_find_bound(value@, marker@);
            }
            assert(p + marker@.len() <= value@.len());
            assert(value@.len() == value.len());
            let start = p + marker.len();
            let mut rest: Vec<char> = Vec::new();
            crate::text::extend_chars(&mut rest, &value[start..value.len()]);
            assert(value@.subrange(start as int, value@.len() as int) =~= value@.skip(start as int));
            Some(rest)
        },
    }
}

/// The first double-quoted text after a field's marker.
pub fn extract_debug_string(value: &str, field: &str) -> (r: Option<String>)
    ensures
        match debug_string(value@, field@) {
            Some(s) => r matches Some(t) && t@ == s,
            None => r is None,
        },
{
    let chars = chars_of(value);
    let rest = match after_marker_exec(chars.as_slice(), field) {
        Some(rest) => rest,
        None => {
            return None;
        },
    };
    let quote: Vec<char> = vec!['"'];
    assert(quote@ =~= seq!['"']);
    let q = match find_chars(rest.as_slice(), quote.as_slice()) {
        Some(q) => q,
        None => {
            return None;
        },
    };
    proof {
        crate::text::lemma_find_bound(rest@, quote@);
    }
    assert(q < rest@.len());
    assert(rest@.len() == rest.len());
    let mut after: Vec<char> = Vec::new();
    crate::text::extend_chars(&mut after, &rest.as_slice()[q + 1..rest.len()]);
    assert(rest@.subrange(q + 1, rest@.len() as int) =~= rest@.skip(q + 1));
    let e = match find_chars(after.as_slice(), quote.as_slice()) {
        Some(e) => e,
        None => {
            return None;
        },
    };
    proof {
        crate::text::lemma_find_bound(after@, quote@);
    }
    assert(after@.subrange(0, e as int) =~= after@.take(e as int));
    Some(string_from_chars(&after.as_slice()[0..e]))
}

/// A field's double-quoted text, unless the field is `None`.
pub fn extract_debug_option_string(value: &str, field: &str) -> (r: Option<String>)
    ensures
        match debug_option_string(value@, field@) {
            Some(s) => r matches Some(t) && t@ == s,
            None => r is None,
        },
{
    let chars = chars_of(value);
    let rest = match after_marker_exec(chars.as_slice(), field) {
        Some(rest) => rest,
        None => {
            return None;
        },
    };
    if rest.len() >= 4 && rest[0] == 'N' && rest[1] == 'o' && rest[2] == 'n' && rest[3] == 'e' {
        proof {
            reveal_strlit("None");
            assert(rest@.take(4) =~= "None"@);
        }
        return None;
    }
    proof {
        reveal_strlit("None");
        if rest@.len() >= 4 {
            assert(rest@.take(4) != "None"@) by {
                if rest@.take(4) == "None"@ {
                    assert(rest@.take(4)[0] == 'N');
                    assert(rest@.take(4)[1] == 'o');
                    assert(rest@.take(4)[2] == 'n');
                    assert(rest@.take(4)[3] == 'e');
                }
            }
        }
    }
    extract_debug_string(value, field)
}

/// The number a field holds, if it fits in `max`.
pub fn extract_debug_number(value: &str, field: &str, max: u64) -> (r: Option<u64>)
    ensures
        match debug_number(value@, field@, max as nat) {
            Some(v) => r == Some(v as u64),
            None => r is None,
        },
{
    let chars = chars_of(value);
    let rest = match after_marker_exec(chars.as_slice(), field) {
        Some(rest) => rest,
        None => {
            return None;
        },
    };
    let mut n: usize = 0;
    while n < rest.len() && '0' <= rest[n] && rest[n] <= '9'
        invariant
            n <= rest@.len(),
            forall|i: int| 0 <= i < n ==> '0' <= #[trigger] rest@[i] && rest@[i] <= '9',
        decreases rest@.len() - n,
    {
        n = n + 1;
    }
    proof {
        lemma_digit_run_is(rest@, n as int);
    }
    assert(rest@.subrange(0, n as int) =~= rest@.take(n as int));
    parse_digits(&rest.as_slice()[0..n], max)
}

/// The first of two choices that is there.
pub open spec fn either<T>(a: Option<T>, b: Option<T>) -> Option<T> {
    match a {
        Some(x) => Some(x),
        None => b,
    }
}

/// A number or zero.
pub open spec fn or_zero(a: Option<nat>) -> nat {
    match a {
        Some(x) => x,
        None => 0,
    }
}

/// Reads a task progress report from the debug text of an event: the text
/// must mention `TaskProgress`; each field is read by its name or, failing
/// that, by its other name, and defaults to empty, the task name, or zero.
pub fn parse_task_progress_debug(value: &str) -> (r: Option<TaskProgressSnapshot>)
    ensures
        find_sub(value@, "TaskProgress"@) is None ==> r is None,
        find_sub(value@, "TaskProgress"@) is Some ==> (r matches Some(p) && {
            let v = value@;
            let task = match either(debug_string(v, "task"@), debug_string(v, "stage"@)) { Some(t) => t, None => "task"@ };
            &&& match either(debug_option_string(v, "job_id"@), debug_option_string(v, "job"@)) {
                Some(j) => p.job_id matches Some(x) && x@ == j,
                None => p.job_id is None,
            }
            &&& p.task@ == task
            &&& p.label@ == match either(debug_string(v, "label"@), debug_string(v, "path"@)) { Some(l) => l, None => task }
            &&& p.completed_chunks == or_zero(either(debug_number(v, "completed_chunks"@, usize::MAX as nat),
                either(debug_number(v, "chunks_done"@, usize::MAX as nat), debug_number(v, "done_chunks"@, usize::MAX as nat))))
            &&& p.total_chunks == or_zero(either(debug_number(v, "total_chunks"@, usize::MAX as nat), debug_number(v, "chunks_total"@, usize::MAX as nat)))
            &&& p.bytes_done == or_zero(either(debug_number(v, "bytes_done"@, u64::MAX as nat), debug_number(v, "done_bytes"@, u64::MAX as nat)))
            &&& p.total_bytes == or_zero(either(debug_number(v, "total_bytes"@, u64::MAX as nat), debug_number(v, "bytes_total"@, u64::MAX as nat)))
            &&& p.bytes_per_second == or_zero(either(debug_number(v, "bytes_per_second"@, u64::MAX as nat), debug_number(v, "speed"@, u64::MAX as nat)))
        }),
{
    if !crate::text::str_contains(value, "TaskProgress") {
        return None;
    }
    let job_id = match extract_debug_option_string(value, "job_id") {
        Some(j) => Some(j),
        None => extract_debug_option_string(value, "job"),
    };
    let task = match extract_debug_string(value, "task") {
        Some(t) => t,
        None => match extract_debug_string(value, "stage") {
            Some(t) => t,
            None => "task".to_string(),
        },
    };
    let label = match extract_debug_string(value, "label") {
        Some(l) => l,
        None => match extract_debug_string(value, "path") {
            Some(l) => l,
            None => task.clone(),
        },
    };
    let umax = usize::MAX as u64;
    let completed_chunks = match extract_debug_number(value, "completed_chunks", umax) {
        Some(n) => n,
        None => match extract_debug_number(value, "chunks_done", umax) {
            Some(n) => n,
            None => match extract_debug_number(value, "done_chunks", umax) {
                Some(n) => n,
                None => 0,
            },
        },
    };
    let total_chunks = match extract_debug_number(value, "total_chunks", umax) {
        Some(n) => n,
        None => match extract_debug_number(value, "chunks_total", umax) {
            Some(n) => n,
            None => 0,
        },
    };
    let bytes_done = match extract_debug_number(value, "bytes_done", u64::MAX) {
        Some(n) => n,
        None => match extract_debug_number(value, "done_bytes", u64::MAX) {
            Some(n) => n,
            None => 0,
        },
    };
    let total_bytes = match extract_debug_number(value, "total_bytes", u64::MAX) {
        Some(n) => n,
        None => match extract_debug_number(value, "bytes_total", u64::MAX) {
            Some(n) => n,
            None => 0,
        },
    };
    let bytes_per_second = match extract_debug_number(value, "bytes_per_second", u64::MAX) {
        Some(n) => n,
        None => match extract_debug_number(value, "speed", u64::MAX) {
            Some(n) => n,
            None => 0,
        },
    };
    proof {
        reveal_strlit("task");
    }
    Some(TaskProgressSnapshot {
        job_id,
        task,
        label,
        completed_chunks: completed_chunks as usize,
        total_chunks: total_chunks as usize,
        bytes_done,
        total_bytes,
        bytes_per_second,
    })
}

} // verus!
