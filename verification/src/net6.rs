//! Reading IPv6 addresses and socket addresses of either family, with the
//! grammar Rust's `FromStr` for `Ipv6Addr` and `SocketAddr` accepts.

use vstd::prelude::*;

use crate::net::{
    octet_value, parse_socket_v4, parse_socket_v4_spec, IpAddress, Ipv4Address, Ipv6Address,
    SocketAddress,
};
use crate::net::parse_octet;
use crate::text::{digits_value, parse_digits};

verus! {

/// The value of a hexadecimal digit of either case.
pub open spec fn hex_digit_value(c: char) -> Option<nat> {
    if '0' <= c && c <= '9' {
        Some((c as nat - 48) as nat)
    } else if 'a' <= c && c <= 'f' {
        Some((c as nat - 87) as nat)
    } else if 'A' <= c && c <= 'F' {
        Some((c as nat - 55) as nat)
    } else {
        None
    }
}

/// How many hexadecimal digits follow position `p`, counting at most `cap`.
pub open spec fn hex_run(s: Seq<char>, p: int, cap: nat) -> nat
    decreases cap,
{
    if cap == 0 || p < 0 || p >= s.len() || hex_digit_value(s[p]) is None {
        0
    } else {
        1 + hex_run(s, p + 1, (cap - 1) as nat)
    }
}

/// The value of the hexadecimal digits `s[p..p + n]`.
pub open spec fn hex_run_value(s: Seq<char>, p: int, n: nat) -> nat
    decreases n,
{
    if n == 0 {
        0
    } else {
        hex_run_value(s, p, (n - 1) as nat) * 16 + hex_digit_value(s[p + n - 1]).unwrap()
    }
}

/// How many decimal digits follow position `p`, counting at most `cap`.
pub open spec fn dec_run(s: Seq<char>, p: int, cap: nat) -> nat
    decreases cap,
{
    if cap == 0 || p < 0 || p >= s.len() || !('0' <= s[p] && s[p] <= '9') {
        0
    } else {
        1 + dec_run(s, p + 1, (cap - 1) as nat)
    }
}

/// A group of one to four hexadecimal digits at `p`, and where it ends; five
/// or more digits are refused.
pub open spec fn read_group(s: Seq<char>, p: int) -> Option<(u16, int)> {
    let n = hex_run(s, p, 5);
    if n == 0 || n > 4 {
        None
    } else {
        Some((hex_run_value(s, p, n) as u16, p + n))
    }
}

/// An IPv4 octet at `p` (one to three digits, no leading zero, at most 255),
/// and where it ends.
pub open spec fn read_octet(s: Seq<char>, p: int) -> Option<(u8, int)> {
    let n = dec_run(s, p, 4);
    if n == 0 || n > 3 {
        None
    } else {
        match octet_value(s.subrange(p, p + n)) {
            Some(v) => Some((v, p + n)),
            None => None,
        }
    }
}

/// Position `p` holds the character `c`.
pub open spec fn char_at(s: Seq<char>, p: int, c: char) -> bool {
    0 <= p < s.len() && s[p] == c
}

/// An IPv4 address at `p`, and where it ends.
pub open spec fn read_ipv4_at(s: Seq<char>, p: int) -> Option<(Ipv4Address, int)> {
    match read_octet(s, p) {
        None => None,
        Some((a, p1)) => if !char_at(s, p1, '.') { None } else {
            match read_octet(s, p1 + 1) {
                None => None,
                Some((b, p2)) => if !char_at(s, p2, '.') { None } else {
                    match read_octet(s, p2 + 1) {
                        None => None,
                        Some((c, p3)) => if !char_at(s, p3, '.') { None } else {
                            match read_octet(s, p3 + 1) {
                                None => None,
                                Some((d, p4)) => Some((Ipv4Address(a, b, c, d), p4)),
                            }
                        },
                    }
                },
            }
        },
    }
}

/// The position after a separator for group `i` (none before the first).
pub open spec fn after_separator(s: Seq<char>, p: int, i: nat) -> Option<int> {
    if i == 0 {
        Some(p)
    } else if char_at(s, p, ':') {
        Some(p + 1)
    } else {
        None
    }
}

/// The groups of an IPv6 address read from `p`: group `i` onwards, at most
/// `limit` in all, after those in `acc`. A trailing embedded IPv4 address fills
/// two groups when two are left. Gives the groups, whether an IPv4 address
/// ended them, and where they end.
pub open spec fn read_groups(s: Seq<char>, p: int, i: nat, limit: nat, acc: Seq<u16>) -> (Seq<u16>, bool, int)
    decreases limit - i,
{
    if i >= limit {
        (acc, false, p)
    } else {
        let v4 = if i + 1 < limit {
            match after_separator(s, p, i) {
                Some(q) => read_ipv4_at(s, q),
                None => None,
            }
        } else {
            None
        };
        match v4 {
            Some((a, q)) => (acc.push((a.0 as int * 256 + a.1 as int) as u16).push((a.2 as int * 256 + a.3 as int) as u16), true, q),
            None => match after_separator(s, p, i) {
                None => (acc, false, p),
                Some(q) => match read_group(s, q) {
                    None => (acc, false, p),
                    Some((g, r)) => read_groups(s, r, i + 1, limit, acc.push(g)),
                },
            },
        }
    }
}

/// The number of a sequence of eight segments.
pub open spec fn segments_number(segs: Seq<u16>) -> nat
    decreases segs.len(),
{
    if segs.len() == 0 {
        0
    } else {
        segments_number(segs.drop_last()) * 65536 + segs.last() as nat
    }
}

/// An IPv6 address at the start of `s`, and where it ends: eight groups, or
/// fewer around one `::` that stands for at least one zero group.
pub open spec fn read_ipv6(s: Seq<char>) -> Option<(Seq<u16>, int)> {
    let (head, head_v4, p1) = read_groups(s, 0, 0, 8, Seq::empty());
    if head.len() == 8 {
        Some((head, p1))
    } else if head_v4 {
        None
    } else if !(char_at(s, p1, ':') && char_at(s, p1 + 1, ':')) {
        None
    } else {
        let (tail, _, p3) = read_groups(s, p1 + 2, 0, (8 - (head.len() + 1)) as nat, Seq::empty());
        Some((head + Seq::new((8 - head.len() - tail.len()) as nat, |k: int| 0u16) + tail, p3))
    }
}

/// The IPv6 address that text denotes, as `Ipv6Addr::from_str` reads it.
pub open spec fn parse_ipv6_spec(s: Seq<char>) -> Option<Ipv6Address> {
    match read_ipv6(s) {
        Some((segs, p)) => if p == s.len() && segs.len() == 8 { Some(Ipv6Address(segments_number(segs) as u128)) } else { None },
        None => None,
    }
}

/// The socket address that `[ipv6]:port` text denotes.
pub open spec fn parse_socket_v6_spec(s: Seq<char>) -> Option<SocketAddress> {
    if s.len() < 1 || s[0] != '[' {
        None
    } else {
        let rest = s.skip(1);
        match read_ipv6(rest) {
            None => None,
            Some((segs, p)) => {
                if !(char_at(rest, p, ']') && char_at(rest, p + 1, ':')) || segs.len() != 8 {
                    None
                } else {
                    match digits_value(rest.skip(p + 2)) {
                        Some(port) => if port <= 65535 {
                            Some(SocketAddress { ip: IpAddress::V6(Ipv6Address(segments_number(segs) as u128)), port: port as u16 })
                        } else {
                            None
                        },
                        None => None,
                    }
                }
            },
        }
    }
}

/// The socket address that text denotes, as `SocketAddr::from_str` reads it
/// (without IPv6 scope ids): `ipv4:port` or `[ipv6]:port`.
pub open spec fn parse_socket_spec(s: Seq<char>) -> Option<SocketAddress> {
    match parse_socket_v4_spec(s) {
        Some(a) => Some(a),
        None => parse_socket_v6_spec(s),
    }
}

fn hex_digit_exec(c: char) -> (r: Option<u32>)
    ensures
        match hex_digit_value(c) {
            Some(v) => r == Some(v as u32),
            None => r is None,
        },
{
    if '0' <= c && c <= '9' {
        Some(c as u32 - 48)
    } else if 'a' <= c && c <= 'f' {
        Some(c as u32 - 87)
    } else if 'A' <= c && c <= 'F' {
        Some(c as u32 - 55)
    } else {
        None
    }
}

proof fn lemma_hex_run_step(s: Seq<char>, p: int, cap: nat)
    requires
        cap > 0,
        0 <= p < s.len(),
        hex_digit_value(s[p]) is Some,
    ensures
        hex_run(s, p, cap) == 1 + hex_run(s, p + 1, (cap - 1) as nat),
{
}

fn read_group_exec(s: &[char], p: usize) -> (r: Option<(u16, usize)>)
    requires
        p <= s@.len(),
    ensures
        match read_group(s@, p as int) {
            Some((g, q)) => r == Some((g, q as usize)) && q <= s@.len(),
            None => r is None,
        },
        s@.len() == s.len(),
{
    let mut n: usize = 0;
    let mut value: u32 = 0;
    while n < 5 && p + n < s.len() && hex_digit_exec(s[p + n]).is_some()
        invariant
            p <= s@.len(),
            s@.len() == s.len(),
            n <= 5,
            p + n <= s@.len(),
            hex_run(s@, p as int, 5) == n + hex_run(s@, p + n, (5 - n) as nat),
            value == hex_run_value(s@, p as int, n as nat),
            n == 0 ==> value == 0,
            n == 1 ==> value < 16,
            n == 2 ==> value < 256,
            n == 3 ==> value < 4096,
            n == 4 ==> value < 65536,
            n == 5 ==> value < 1048576,
        decreases 5 - n,
    {
        let d = hex_digit_exec(s[p + n]).unwrap();
        proof {
            lemma_hex_run_step(s@, p + n, (5 - n) as nat);
            assert(d < 16);
            if n == 0 {
                assert(value * 16 + d < 16) by (nonlinear_arith) requires value == 0, d < 16;
            } else if n == 1 {
                assert(value * 16 + d < 256) by (nonlinear_arith) requires value < 16, d < 16;
            } else if n == 2 {
                assert(value * 16 + d < 4096) by (nonlinear_arith) requires value < 256, d < 16;
            } else if n == 3 {
                assert(value * 16 + d < 65536) by (nonlinear_arith) requires value < 4096, d < 16;
            } else {
                assert(value * 16 + d < 1048576) by (nonlinear_arith) requires value < 65536, d < 16;
            }
        }
        value = value * 16 + d;
        n = n + 1;
    }
    if n == 0 || n > 4 {
        return None;
    }
    Some((value as u16, p + n))
}


proof fn lemma_dec_run_step(s: Seq<char>, p: int, cap: nat)
    requires
        cap > 0,
        0 <= p < s.len(),
        '0' <= s[p] && s[p] <= '9',
    ensures
        dec_run(s, p, cap) == 1 + dec_run(s, p + 1, (cap - 1) as nat),
{
}

fn read_octet_exec(s: &[char], p: usize) -> (r: Option<(u8, usize)>)
    requires
        p <= s@.len(),
    ensures
        match read_octet(s@, p as int) {
            Some((v, q)) => r == Some((v, q as usize)) && q <= s@.len(),
            None => r is None,
        },
        s@.len() == s.len(),
{
    let mut n: usize = 0;
    while n < 4 && p + n < s.len() && '0' <= s[p + n] && s[p + n] <= '9'
        invariant
            p <= s@.len(),
            s@.len() == s.len(),
            n <= 4,
            p + n <= s@.len(),
            dec_run(s@, p as int, 4) == n + dec_run(s@, p + n, (4 - n) as nat),
        decreases 4 - n,
    {
        proof {
            lemma_dec_run_step(s@, p + n, (4 - n) as nat);
        }
        n = n + 1;
    }
    if n == 0 || n > 3 {
        return None;
    }
    let part = &s[p..p + n];
    assert(part@ =~= s@.subrange(p as int, p + n));
    match parse_octet(part) {
        Some(v) => Some((v, p + n)),
        None => None,
    }
}

fn char_at_exec(s: &[char], p: usize, c: char) -> (r: bool)
    ensures
        r == char_at(s@, p as int, c),
        r ==> p < s.len(),
        s@.len() == s.len(),
{
    p < s.len() && s[p] == c
}

fn read_ipv4_at_exec(s: &[char], p: usize) -> (r: Option<(Ipv4Address, usize)>)
    requires
        p <= s@.len(),
    ensures
        match read_ipv4_at(s@, p as int) {
            Some((a, q)) => r == Some((a, q as usize)) && q <= s@.len(),
            None => r is None,
        },
        s@.len() == s.len(),
{
    let (a, p1) = match read_octet_exec(s, p) {
        Some(x) => x,
        None => {
            return None;
        },
    };
    if !char_at_exec(s, p1, '.') {
        return None;
    }
    let (b, p2) = match read_octet_exec(s, p1 + 1) {
        Some(x) => x,
        None => {
            return None;
        },
    };
    if !char_at_exec(s, p2, '.') {
        return None;
    }
    let (c, p3) = match read_octet_exec(s, p2 + 1) {
        Some(x) => x,
        None => {
            return None;
        },
    };
    if !char_at_exec(s, p3, '.') {
        return None;
    }
    let (d, p4) = match read_octet_exec(s, p3 + 1) {
        Some(x) => x,
        None => {
            return None;
        },
    };
    Some((Ipv4Address(a, b, c, d), p4))
}

fn after_separator_exec(s: &[char], p: usize, i: usize) -> (r: Option<usize>)
    requires
        p <= s@.len(),
    ensures
        match after_separator(s@, p as int, i as nat) {
            Some(q) => r == Some(q as usize) && q <= s@.len(),
            None => r is None,
        },
        s@.len() == s.len(),
{
    if i == 0 {
        Some(p)
    } else if char_at_exec(s, p, ':') {
        Some(p + 1)
    } else {
        None
    }
}

fn read_groups_exec(s: &[char], p: usize, i: usize, limit: usize, acc: Vec<u16>) -> (r: (Vec<u16>, bool, usize))
    requires
        p <= s@.len(),
        limit <= 8,
    ensures
        ({
            let (groups, v4, q) = read_groups(s@, p as int, i as nat, limit as nat, acc@);
            r.0@ == groups && r.1 == v4 && r.2 == q && q <= s@.len()
        }),
        s@.len() == s.len(),
    decreases limit - i,
{
    if i >= limit {
        return (acc, false, p);
    }
    if i + 1 < limit {
        if let Some(q) = after_separator_exec(s, p, i) {
            if let Some((a, r)) = read_ipv4_at_exec(s, q) {
                let mut out = acc;
                out.push((a.0 as u16) * 256 + a.1 as u16);
                out.push((a.2 as u16) * 256 + a.3 as u16);
                return (out, true, r);
            }
        }
    }
    match after_separator_exec(s, p, i) {
        None => (acc, false, p),
        Some(q) => match read_group_exec(s, q) {
            None => (acc, false, p),
            Some((g, r)) => {
                let mut next = acc;
                next.push(g);
                read_groups_exec(s, r, i + 1, limit, next)
            },
        },
    }
}

proof fn lemma_read_groups_len(s: Seq<char>, p: int, i: nat, limit: nat, acc: Seq<u16>)
    requires
        i <= limit,
        acc.len() == i,
    ensures
        ({
            let (groups, v4, q) = read_groups(s, p, i, limit, acc);
            i <= groups.len() <= limit && groups.take(acc.len() as int) == acc
        }),
    decreases limit - i,
{
    if i < limit {
        let v4 = if i + 1 < limit {
            match after_separator(s, p, i) {
                Some(q) => read_ipv4_at(s, q),
                None => None,
            }
        } else {
            None
        };
        match v4 {
            Some((a, q)) => {
                let g = acc.push((a.0 as int * 256 + a.1 as int) as u16).push((a.2 as int * 256 + a.3 as int) as u16);
                assert(g.take(acc.len() as int) =~= acc);
            },
            None => match after_separator(s, p, i) {
                None => {
                    assert(acc.take(acc.len() as int) =~= acc);
                },
                Some(q) => match read_group(s, q) {
                    None => {
                        assert(acc.take(acc.len() as int) =~= acc);
                    },
                    Some((g, r)) => {
                        lemma_read_groups_len(s, r, i + 1, limit, acc.push(g));
                        let (groups, _, _) = read_groups(s, r, i + 1, limit, acc.push(g));
                        assert(groups.take(acc.len() as int) =~= groups.take(acc.len() as int + 1).take(acc.len() as int));
                        assert(acc.push(g).take(acc.len() as int) =~= acc);
                    },
                },
            },
        }
    } else {
        assert(acc.take(acc.len() as int) =~= acc);
    }
}

fn segments_to_number(segs: &Vec<u16>) -> (r: u128)
    requires
        segs@.len() == 8,
    ensures
        r == segments_number(segs@),
{
    let mut value: u128 = 0;
    let mut i: usize = 0;
    while i < 8
        invariant
            segs@.len() == 8,
            i <= 8,
            value == segments_number(segs@.take(i as int)),
            value < pow65536(i as nat),
        decreases 8 - i,
    {
        proof {
            assert(segs@.take(i + 1).drop_last() =~= segs@.take(i as int));
            lemma_pow65536(i as nat);
            assert(value * 65536 + segs@[i as int] < pow65536(i as nat) * 65536) by (nonlinear_arith)
                requires value < pow65536(i as nat), segs@[i as int] < 65536;
        }
        value = value * 65536 + segs[i] as u128;
        i = i + 1;
    }
    assert(segs@.take(8) =~= segs@);
    value
}

/// 65536 to the power `n`.
pub open spec fn pow65536(n: nat) -> nat
    decreases n,
{
    if n == 0 { 1 } else { pow65536((n - 1) as nat) * 65536 }
}

proof fn lemma_pow65536(n: nat)
    requires
        n < 8,
    ensures
        pow65536(n) * 65536 == pow65536(n + 1),
        pow65536(n + 1) <= 0x1_0000_0000_0000_0000_0000_0000_0000_0000,
    decreases n,
{
    reveal_with_fuel(pow65536, 9);
}

/// Reads an IPv6 address at the start of `s`.
fn read_ipv6_exec(s: &[char]) -> (r: Option<(Vec<u16>, usize)>)
    ensures
        match read_ipv6(s@) {
            Some((segs, p)) => r matches Some((v, q)) && v@ == segs && q == p && p <= s@.len() && segs.len() == 8,
            None => r is None,
        },
{
    let ghost empty = Seq::<u16>::empty();
    proof {
        lemma_read_groups_len(s@, 0, 0, 8, empty);
    }
    let (head, head_v4, p1) = read_groups_exec(s, 0, 0, 8, Vec::new());
    if head.len() == 8 {
        return Some((head, p1));
    }
    if head_v4 {
        return None;
    }
    if !(char_at_exec(s, p1, ':') && char_at_exec(s, p1 + 1, ':')) {
        return None;
    }
    let limit = 8 - (head.len() + 1);
    proof {
        lemma_read_groups_len(s@, p1 + 2, 0, limit as nat, empty);
    }
    let (tail, _, p3) = read_groups_exec(s, p1 + 2, 0, limit, Vec::new());
    let mut out = head;
    let zeros = 8 - out.len() - tail.len();
    let ghost h = out@;
    let mut k: usize = 0;
    while k < zeros
        invariant
            k <= zeros,
            out@ == h + Seq::new(k as nat, |m: int| 0u16),
        decreases zeros - k,
    {
        out.push(0);
        k = k + 1;
        assert(out@ =~= h + Seq::new(k as nat, |m: int| 0u16));
    }
    let ghost z = out@;
    let mut t: usize = 0;
    while t < tail.len()
        invariant
            t <= tail@.len(),
            out@ == z + tail@.take(t as int),
        decreases tail@.len() - t,
    {
        out.push(tail[t]);
        t = t + 1;
        assert(out@ =~= z + tail@.take(t as int));
    }
    assert(tail@.take(tail@.len() as int) =~= tail@);
    Some((out, p3))
}

/// Reads IPv6 address text.
pub fn parse_ipv6(s: &[char]) -> (r: Option<Ipv6Address>)
    ensures
        r == parse_ipv6_spec(s@),
{
    match read_ipv6_exec(s) {
        Some((segs, p)) => {
            if p == s.len() {
                Some(Ipv6Address(segments_to_number(&segs)))
            } else {
                None
            }
        },
        None => None,
    }
}

/// Reads `[ipv6]:port` socket address text.
pub fn parse_socket_v6(s: &[char]) -> (r: Option<SocketAddress>)
    ensures
        r == parse_socket_v6_spec(s@),
{
    if s.len() < 1 || s[0] != '[' {
        return None;
    }
    let rest = &s[1..s.len()];
    assert(rest@ =~= s@.skip(1));
    let (segs, p) = match read_ipv6_exec(rest) {
        Some(x) => x,
        None => {
            return None;
        },
    };
    if !(char_at_exec(rest, p, ']') && char_at_exec(rest, p + 1, ':')) {
        return None;
    }
    let digits = &rest[p + 2..rest.len()];
    assert(digits@ =~= rest@.skip(p + 2));
    match parse_digits(digits, 65535) {
        Some(port) => Some(SocketAddress { ip: IpAddress::V6(Ipv6Address(segments_to_number(&segs))), port: port as u16 }),
        None => None,
    }
}

/// Reads socket address text of either family.
pub fn parse_socket(s: &[char]) -> (r: Option<SocketAddress>)
    ensures
        r == parse_socket_spec(s@),
{
    match parse_socket_v4(s) {
        Some(a) => Some(a),
        None => parse_socket_v6(s),
    }
}

} // verus!
