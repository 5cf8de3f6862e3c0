//! Text handling on characters: splitting, trimming, lines, and unsigned
//! decimal numbers, with the meaning Rust's `str` gives them.

use vstd::prelude::*;

use crate::bytes::string_from_chars;

verus! {

/// The parts of `s` between occurrences of `sep` (one part more than there
/// are separators).
pub open spec fn split_on(s: Seq<char>, sep: char) -> Seq<Seq<char>>
    decreases s.len(),
{
    if s.len() == 0 {
        seq![Seq::empty()]
    } else {
        let rest = split_on(s.drop_last(), sep);
        if s.last() == sep {
            rest.push(Seq::empty())
        } else {
            rest.update(rest.len() - 1, rest.last().push(s.last()))
        }
    }
}

proof fn lemma_split_on_nonempty(s: Seq<char>, sep: char)
    ensures
        split_on(s, sep).len() >= 1,
    decreases s.len(),
{
    if s.len() > 0 {
        lemma_split_on_nonempty(s.drop_last(), sep);
    }
}

/// Splits `s` at each occurrence of `sep`.
pub fn split_chars(s: &[char], sep: char) -> (r: Vec<Vec<char>>)
    ensures
        r@.len() == split_on(s@, sep).len(),
        forall|i: int| 0 <= i < r@.len() ==> (#[trigger] r@[i])@ == split_on(s@, sep)[i],
{
    let mut parts: Vec<Vec<char>> = Vec::new();
    let mut current: Vec<char> = Vec::new();
    let mut i: usize = 0;
    while i < s.len()
        invariant
            i <= s@.len(),
            parts@.len() + 1 == split_on(s@.take(i as int), sep).len(),
            forall|k: int| 0 <= k < parts@.len() ==> (#[trigger] parts@[k])@ == split_on(s@.take(i as int), sep)[k],
            current@ == split_on(s@.take(i as int), sep).last(),
        decreases s@.len() - i,
    {
        proof {
            assert(s@.take(i + 1).drop_last() =~= s@.take(i as int));
            lemma_split_on_nonempty(s@.take(i as int), sep);
        }
        if s[i] == sep {
            let mut done: Vec<char> = Vec::new();
            std::mem::swap(&mut done, &mut current);
            parts.push(done);
            assert(current@ =~= Seq::<char>::empty());
        } else {
            current.push(s[i]);
        }
        i = i + 1;
    }
    assert(s@.take(s@.len() as int) =~= s@);
    proof {
        lemma_split_on_nonempty(s@, sep);
    }
    parts.push(current);
    parts
}

/// Whether `c` is white space as `char::is_whitespace` defines it (the
/// Unicode `White_Space` property).
pub open spec fn is_white(c: char) -> bool {
    let n = c as u32;
    ||| 9 <= n <= 13
    ||| n == 32
    ||| n == 0x85
    ||| n == 0xA0
    ||| n == 0x1680
    ||| 0x2000 <= n <= 0x200A
    ||| n == 0x2028
    ||| n == 0x2029
    ||| n == 0x202F
    ||| n == 0x205F
    ||| n == 0x3000
}

/// Whether `c` is white space.
pub fn is_white_exec(c: char) -> (r: bool)
    ensures
        r == is_white(c),
{
    let n = c as u32;
    (9 <= n && n <= 13) || n == 32 || n == 0x85 || n == 0xA0 || n == 0x1680 || (0x2000 <= n && n <= 0x200A)
        || n == 0x2028 || n == 0x2029 || n == 0x202F || n == 0x205F || n == 0x3000
}

/// The number of white-space characters that begin `s`.
pub open spec fn leading_white(s: Seq<char>) -> nat
    decreases s.len(),
{
    if s.len() > 0 && is_white(s[0]) {
        1 + leading_white(s.drop_first())
    } else {
        0
    }
}

/// The number of white-space characters that end `s`.
pub open spec fn trailing_white(s: Seq<char>) -> nat
    decreases s.len(),
{
    if s.len() > 0 && is_white(s.last()) {
        1 + trailing_white(s.drop_last())
    } else {
        0
    }
}

/// `s` without white space at its ends, as `str::trim` gives it.
pub open spec fn trimmed(s: Seq<char>) -> Seq<char> {
    let start = leading_white(s) as int;
    let rest = s.skip(start);
    rest.take(rest.len() - trailing_white(rest))
}

proof fn lemma_trailing_white_bound(s: Seq<char>)
    ensures
        trailing_white(s) <= s.len(),
    decreases s.len(),
{
    if s.len() > 0 && is_white(s.last()) {
        lemma_trailing_white_bound(s.drop_last());
    }
}

/// A text that neither begins nor ends with white space is its own trim.
pub proof fn lemma_trimmed_exact(s: Seq<char>)
    requires
        s.len() > 0,
        !is_white(s[0]),
        !is_white(s.last()),
    ensures
        trimmed(s) == s,
{
    assert(leading_white(s) == 0);
    assert(s.skip(0) =~= s);
    assert(trailing_white(s) == 0);
    assert(s.take(s.len() as int) =~= s);
}

/// A text of white space alone trims to nothing.
pub proof fn lemma_trimmed_all_white(s: Seq<char>)
    requires
        forall|i: int| 0 <= i < s.len() ==> is_white(#[trigger] s[i]),
    ensures
        trimmed(s).len() == 0,
    decreases s.len(),
{
    if s.len() > 0 {
        let t = s.drop_first();
        assert forall|i: int| 0 <= i < t.len() implies is_white(#[trigger] t[i]) by {
            assert(t[i] == s[i + 1]);
        }
        lemma_trimmed_all_white(t);
        lemma_leading_white_all(s);
    }
}

proof fn lemma_leading_white_all(s: Seq<char>)
    requires
        forall|i: int| 0 <= i < s.len() ==> is_white(#[trigger] s[i]),
    ensures
        leading_white(s) == s.len(),
    decreases s.len(),
{
    if s.len() > 0 {
        let t = s.drop_first();
        assert forall|i: int| 0 <= i < t.len() implies is_white(#[trigger] t[i]) by {
            assert(t[i] == s[i + 1]);
        }
        lemma_leading_white_all(t);
    }
}

/// `s` without white space at its ends.
pub fn trim_chars(s: &[char]) -> (r: Vec<char>)
    ensures
        r@ == trimmed(s@),
{
    let mut start: usize = 0;
    assert(s@.skip(0) =~= s@);
    while start < s.len() && is_white_exec(s[start])
        invariant
            start <= s@.len(),
            leading_white(s@) == start + leading_white(s@.skip(start as int)),
        decreases s@.len() - start,
    {
        assert(s@.skip(start as int).drop_first() =~= s@.skip(start + 1));
        start = start + 1;
    }
    let ghost rest = s@.skip(start as int);
    assert(leading_white(s@) == start);
    let mut end: usize = s.len();
    assert(rest.take(end - start) =~= rest);
    while end > start && is_white_exec(s[end - 1])
        invariant
            start <= end <= s@.len(),
            rest == s@.skip(start as int),
            trailing_white(rest) == (s@.len() - end) + trailing_white(rest.take(end - start)),
        decreases end,
    {
        assert(rest.take(end - start).drop_last() =~= rest.take(end - start - 1));
        assert(rest.take(end - start).last() == s@[end - 1]);
        end = end - 1;
    }
    proof {
        lemma_trailing_white_bound(rest);
        if end > start {
            assert(rest.take(end - start).last() == s@[end - 1]);
        }
        assert(trailing_white(rest.take(end - start)) == 0);
    }
    let mut out: Vec<char> = Vec::new();
    let mut i: usize = start;
    while i < end
        invariant
            start <= i <= end <= s@.len(),
            out@ == s@.subrange(start as int, i as int),
        decreases end - i,
    {
        out.push(s[i]);
        i = i + 1;
        assert(out@ =~= s@.subrange(start as int, i as int));
    }
    assert(out@ =~= rest.take(rest.len() - trailing_white(rest)));
    out
}

/// The value of a decimal digit character.
pub open spec fn digit_value(c: char) -> Option<nat> {
    if '0' <= c && c <= '9' {
        Some((c as nat - 48) as nat)
    } else {
        None
    }
}

/// The value of a non-empty string of decimal digits.
pub open spec fn digits_value(s: Seq<char>) -> Option<nat>
    decreases s.len(),
{
    if s.len() == 0 {
        None
    } else {
        match digit_value(s.last()) {
            None => None,
            Some(d) => if s.len() == 1 {
                Some(d)
            } else {
                match digits_value(s.drop_last()) {
                    None => None,
                    Some(v) => Some(v * 10 + d),
                }
            },
        }
    }
}

/// The value of a non-empty string of decimal digits, if it is at most `max`.
pub fn parse_digits(s: &[char], max: u64) -> (r: Option<u64>)
    ensures
        match digits_value(s@) {
            Some(v) => if v <= max { r == Some(v as u64) } else { r is None },
            None => r is None,
        },
{
    if s.len() == 0 {
        return None;
    }
    let mut value: u64 = 0;
    let mut i: usize = 0;
    let mut within = true;
    while i < s.len()
        invariant
            0 <= i <= s@.len(),
            s@.len() > 0,
            i > 0 ==> digits_value(s@.take(i as int)) is Some,
            within ==> (i > 0 ==> digits_value(s@.take(i as int)) == Some(value as nat)),
            within ==> value <= max,
            i == 0 ==> within && value == 0,
            !within ==> (i > 0 && digits_value(s@.take(i as int)).unwrap() > max),
        decreases s@.len() - i,
    {
        let c = s[i];
        proof {
            assert(s@.take(i + 1).drop_last() =~= s@.take(i as int));
            assert(s@.take(i + 1).last() == c);
        }
        if !('0' <= c && c <= '9') {
            proof {
                lemma_digits_value_prefix_none(s@, i as int);
            }
            return None;
        }
        let d = (c as u32 - 48) as u64;
        if within {
            if d > max || value > (max - d) / 10 {
                proof {
                    if d <= max {
                        assert(value * 10 + d > max) by (nonlinear_arith)
                            requires value > (max - d) / 10, d <= max;
                    }
                }
                within = false;
            } else {
                proof {
                    assert(value * 10 + d <= max) by (nonlinear_arith)
                        requires value <= (max - d) / 10, d <= 9;
                }
                value = value * 10 + d;
            }
        } else {
            proof {
                let prev = digits_value(s@.take(i as int)).unwrap();
                assert(prev * 10 + d > max) by (nonlinear_arith)
                    requires prev > max;
            }
        }
        i = i + 1;
    }
    assert(s@.take(s@.len() as int) =~= s@);
    if within { Some(value) } else { None }
}

/// A prefix that is not all digits makes the whole string not all digits.
proof fn lemma_digits_value_prefix_none(s: Seq<char>, i: int)
    requires
        0 <= i < s.len(),
        digit_value(s[i]) is None,
    ensures
        digits_value(s) is None,
    decreases s.len(),
{
    if i < s.len() - 1 {
        lemma_digits_value_prefix_none(s.drop_last(), i);
    }
}

/// The value of an unsigned integer text as Rust's `FromStr` for unsigned
/// integers reads it: an optional `+`, then one or more decimal digits.
pub open spec fn unsigned_value(s: Seq<char>) -> Option<nat> {
    if s.len() > 0 && s[0] == '+' {
        digits_value(s.drop_first())
    } else {
        digits_value(s)
    }
}

/// Reads an unsigned integer text (an optional `+`, then decimal digits) of
/// value at most `max`.
pub fn parse_unsigned(s: &[char], max: u64) -> (r: Option<u64>)
    ensures
        match unsigned_value(s@) {
            Some(v) => if v <= max { r == Some(v as u64) } else { r is None },
            None => r is None,
        },
{
    if s.len() > 0 && s[0] == '+' {
        assert(s@.subrange(1, s@.len() as int) =~= s@.drop_first());
        parse_digits(&s[1..s.len()], max)
    } else {
        parse_digits(s, max)
    }
}

/// The characters as a string.
pub fn chars_to_string(chars: &Vec<char>) -> (s: String)
    ensures
        s@ == chars@,
{
    string_from_chars(chars.as_slice())
}

/// Whether two strings have the same characters.
pub fn str_equal(a: &str, b: &str) -> (r: bool)
    ensures
        r == (a@ == b@),
{
    let x = crate::bytes::chars_of(a);
    let y = crate::bytes::chars_of(b);
    if x.len() != y.len() {
        return false;
    }
    let mut i: usize = 0;
    while i < x.len()
        invariant
            x@ == a@,
            y@ == b@,
            x@.len() == y@.len(),
            i <= x@.len(),
            forall|k: int| 0 <= k < i ==> x@[k] == y@[k],
        decreases x@.len() - i,
    {
        if x[i] != y[i] {
            return false;
        }
        i = i + 1;
    }
    assert(x@ =~= y@);
    true
}

/// Appends `data` to `out`.
pub fn extend_chars(out: &mut Vec<char>, data: &[char])
    ensures
        final(out)@ == old(out)@ + data@,
{
    let ghost start = out@;
    let mut i: usize = 0;
    while i < data.len()
        invariant
            i <= data@.len(),
            out@ == start + data@.take(i as int),
        decreases data@.len() - i,
    {
        out.push(data[i]);
        i = i + 1;
        assert(out@ =~= start + data@.take(i as int));
    }
    assert(data@.take(data@.len() as int) =~= data@);
}

/// `pat` occurs in `s` at position `i`.
pub open spec fn occurs_at(s: Seq<char>, pat: Seq<char>, i: int) -> bool {
    0 <= i && i + pat.len() <= s.len() && s.subrange(i, i + pat.len()) == pat
}

/// The first position at or after `from` where `pat` occurs in `s`.
pub open spec fn find_from(s: Seq<char>, pat: Seq<char>, from: int) -> Option<int>
    decreases s.len() + 1 - from,
{
    if from < 0 || from + pat.len() > s.len() {
        None
    } else if occurs_at(s, pat, from) {
        Some(from)
    } else {
        find_from(s, pat, from + 1)
    }
}

/// The first position where `pat` occurs in `s`, as `str::find` gives it.
pub open spec fn find_sub(s: Seq<char>, pat: Seq<char>) -> Option<int> {
    find_from(s, pat, 0)
}

fn occurs_at_exec(s: &[char], pat: &[char], i: usize) -> (r: bool)
    requires
        i + pat@.len() <= s@.len(),
    ensures
        r == occurs_at(s@, pat@, i as int),
{
    let mut k: usize = 0;
    while k < pat.len()
        invariant
            i + pat@.len() <= s@.len(),
            s@.len() == s.len(),
            k <= pat@.len(),
            forall|j: int| 0 <= j < k ==> s@[i + j] == pat@[j],
        decreases pat@.len() - k,
    {
        if s[i + k] != pat[k] {
            assert(s@.subrange(i as int, i + pat@.len())[k as int] != pat@[k as int]);
            return false;
        }
        k = k + 1;
    }
    assert(s@.subrange(i as int, i + pat@.len()) =~= pat@);
    true
}

/// The first position where `pat` occurs in `s`.
pub fn find_chars(s: &[char], pat: &[char]) -> (r: Option<usize>)
    ensures
        match find_sub(s@, pat@) {
            Some(i) => r == Some(i as usize),
            None => r is None,
        },
{
    if pat.len() > s.len() {
        return None;
    }
    let last = s.len() - pat.len();
    let mut i: usize = 0;
    loop
        invariant
            pat@.len() <= s@.len(),
            last == s@.len() - pat@.len(),
            i <= last,
            find_sub(s@, pat@) == find_from(s@, pat@, i as int),
        decreases last - i,
    {
        if occurs_at_exec(s, pat, i) {
            return Some(i);
        }
        if i == last {
            return None;
        }
        i = i + 1;
    }
}

/// Whether `pat` occurs in `s`.
pub fn contains_chars(s: &[char], pat: &[char]) -> (r: bool)
    ensures
        r == find_sub(s@, pat@) is Some,
{
    match find_chars(s, pat) {
        Some(_) => true,
        None => false,
    }
}

/// Whether `pat` occurs in `s`.
pub fn str_contains(s: &str, pat: &str) -> (r: bool)
    ensures
        r == find_sub(s@, pat@) is Some,
{
    let a = crate::bytes::chars_of(s);
    let b = crate::bytes::chars_of(pat);
    contains_chars(a.as_slice(), b.as_slice())
}

/// The bounds of `s` without white space at its ends.
pub fn trim_bounds(s: &[char]) -> (r: (usize, usize))
    ensures
        r.0 <= r.1 <= s@.len(),
        s@.subrange(r.0 as int, r.1 as int) == trimmed(s@),
{
    let mut start: usize = 0;
    assert(s@.skip(0) =~= s@);
    while start < s.len() && is_white_exec(s[start])
        invariant
            start <= s@.len(),
            leading_white(s@) == start + leading_white(s@.skip(start as int)),
        decreases s@.len() - start,
    {
        assert(s@.skip(start as int).drop_first() =~= s@.skip(start + 1));
        start = start + 1;
    }
    let ghost rest = s@.skip(start as int);
    let mut end: usize = s.len();
    assert(rest.take(end - start) =~= rest);
    while end > start && is_white_exec(s[end - 1])
        invariant
            start <= end <= s@.len(),
            rest == s@.skip(start as int),
            trailing_white(rest) == (s@.len() - end) + trailing_white(rest.take(end - start)),
        decreases end,
    {
        assert(rest.take(end - start).drop_last() =~= rest.take(end - start - 1));
        assert(rest.take(end - start).last() == s@[end - 1]);
        end = end - 1;
    }
    proof {
        if end > start {
            assert(rest.take(end - start).last() == s@[end - 1]);
        }
        assert(trailing_white(rest.take(end - start)) == 0);
        assert(s@.subrange(start as int, end as int) =~= rest.take(rest.len() - trailing_white(rest)));
    }
    (start, end)
}

/// `s` without white space at its ends, when anything is left.
pub fn non_empty_trimmed(value: &str) -> (r: Option<&str>)
    ensures
        match r {
            Some(t) => t@ == trimmed(value@) && t@.len() > 0,
            None => trimmed(value@).len() == 0,
        },
{
    let chars = crate::bytes::chars_of(value);
    let (start, end) = trim_bounds(chars.as_slice());
    if start == end {
        return None;
    }
    let t = value.substring_char(start, end);
    Some(t)
}

/// The words of `s` (its runs of non-white characters) joined by single
/// spaces, built by a scan whose state is (text so far, a gap is pending).
pub open spec fn words_scan(s: Seq<char>) -> (Seq<char>, bool)
    decreases s.len(),
{
    if s.len() == 0 {
        (Seq::empty(), false)
    } else {
        let (out, gap) = words_scan(s.drop_last());
        let c = s.last();
        if is_white(c) {
            (out, out.len() > 0)
        } else if gap {
            (out.push(' ').push(c), false)
        } else {
            (out.push(c), false)
        }
    }
}

/// The words of `s` joined by single spaces, as
/// `split_whitespace().collect::<Vec<_>>().join(" ")` gives them.
pub open spec fn words_joined(s: Seq<char>) -> Seq<char> {
    words_scan(s).0
}

/// Every white character of `t` is a space that follows a non-white
/// character: no white space leads, and none runs longer than one space.
pub open spec fn single_spaced(t: Seq<char>) -> bool
    decreases t.len(),
{
    if t.len() == 0 {
        true
    } else {
        let u = t.drop_last();
        let c = t.last();
        &&& single_spaced(u)
        &&& is_white(c) ==> (c == ' ' && u.len() > 0 && !is_white(u.last()))
    }
}

/// What the scan builds is single-spaced and ends with a non-white character,
/// and a gap is pending only after some text.
proof fn lemma_words_scan_spaced(s: Seq<char>)
    ensures
        single_spaced(words_scan(s).0),
        words_scan(s).0.len() > 0 ==> !is_white(words_scan(s).0.last()),
        words_scan(s).1 ==> words_scan(s).0.len() > 0,
    decreases s.len(),
{
    if s.len() > 0 {
        lemma_words_scan_spaced(s.drop_last());
        let (out, gap) = words_scan(s.drop_last());
        let c = s.last();
        if is_white(c) {
            assert(words_scan(s) == (out, out.len() > 0));
        } else if gap {
            let mid = out.push(' ');
            let t = mid.push(c);
            assert(t.drop_last() =~= mid);
            assert(mid.drop_last() =~= out);
            assert(is_white(' '));
            assert(single_spaced(mid));
            assert(words_scan(s) == (t, false));
            assert(single_spaced(t));
        } else {
            let t = out.push(c);
            assert(t.drop_last() =~= out);
            assert(words_scan(s) == (t, false));
            assert(single_spaced(t));
        }
    }
}

/// A single-spaced text scans back to itself, less a trailing space, which
/// leaves a gap pending.
proof fn lemma_words_scan_of_spaced(t: Seq<char>)
    requires
        single_spaced(t),
    ensures
        words_scan(t) == if t.len() > 0 && t.last() == ' ' { (t.drop_last(), true) } else { (t, false) },
    decreases t.len(),
{
    if t.len() > 0 {
        let u = t.drop_last();
        let c = t.last();
        lemma_words_scan_of_spaced(u);
        assert(is_white(' '));
        if !is_white(c) {
            if u.len() > 0 && u.last() == ' ' {
                assert(u.drop_last().push(' ') =~= u);
            }
            assert(u.push(c) =~= t);
        }
    }
}

/// Collapsing white space twice gives what collapsing it once gives.
pub proof fn lemma_words_joined_idempotent(s: Seq<char>)
    ensures
        words_joined(words_joined(s)) == words_joined(s),
{
    lemma_words_scan_spaced(s);
    let out = words_scan(s).0;
    assert(is_white(' '));
    lemma_words_scan_of_spaced(out);
}

/// Collapses the white space of a text: its words joined by single spaces.
pub fn join_words(s: &str) -> (r: String)
    ensures
        r@ == words_joined(s@),
{
    let chars = crate::bytes::chars_of(s);
    let mut out: Vec<char> = Vec::new();
    let mut gap = false;
    let mut i: usize = 0;
    while i < chars.len()
        invariant
            chars@ == s@,
            i <= chars@.len(),
            words_scan(chars@.take(i as int)) == (out@, gap),
        decreases chars@.len() - i,
    {
        let c = chars[i];
        proof {
            assert(chars@.take(i + 1).drop_last() =~= chars@.take(i as int));
            assert(chars@.take(i + 1).last() == c);
        }
        if is_white_exec(c) {
            gap = out.len() > 0;
        } else {
            if gap {
                out.push(' ');
            }
            out.push(c);
            gap = false;
        }
        i = i + 1;
    }
    assert(chars@.take(chars@.len() as int) =~= chars@);
    string_from_chars(out.as_slice())
}

proof fn lemma_find_from_bound(s: Seq<char>, pat: Seq<char>, from: int)
    ensures
        find_from(s, pat, from) matches Some(i) ==> from <= i && i + pat.len() <= s.len() && occurs_at(s, pat, i),
    decreases s.len() + 1 - from,
{
    if !(from < 0 || from + pat.len() > s.len()) && !occurs_at(s, pat, from) {
        lemma_find_from_bound(s, pat, from + 1);
    }
}

/// Where `find_sub` finds `pat`, it occurs, within `s`.
pub proof fn lemma_find_bound(s: Seq<char>, pat: Seq<char>)
    ensures
        find_sub(s, pat) matches Some(i) ==> 0 <= i && i + pat.len() <= s.len() && occurs_at(s, pat, i),
{
    lemma_find_from_bound(s, pat, 0);
}

/// A pattern whose first character `s` lacks does not occur in `s`.
pub proof fn lemma_find_absent(s: Seq<char>, pat: Seq<char>)
    requires
        pat.len() > 0,
        forall|k: int| 0 <= k < s.len() ==> s[k] != pat[0],
    ensures
        find_sub(s, pat) is None,
{
    lemma_find_bound(s, pat);
    if let Some(i) = find_sub(s, pat) {
        assert(s.subrange(i, i + pat.len())[0] == pat[0]);
        assert(s[i] == pat[0]);
    }
}

} // verus!
