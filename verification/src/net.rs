//! Internet addresses as plain values: IPv4 and IPv6 addresses and socket
//! addresses, their order, text form and classification.

use vstd::prelude::*;

use crate::bytes::{decimal, push_decimal, string_from_chars};
use crate::text::{digits_value, split_chars, split_on};

verus! {

/// An IPv4 address by its four octets, most significant first.
#[derive(Clone, Copy, Debug, PartialEq, Eq, Structural, PartialOrd, Ord, Hash)]
pub struct Ipv4Address(pub u8, pub u8, pub u8, pub u8);

/// An IPv6 address as a 128-bit number, most significant octet first.
#[derive(Clone, Copy, Debug, PartialEq, Eq, Structural, PartialOrd, Ord, Hash)]
pub struct Ipv6Address(pub u128);

/// An IP address of either family.
#[derive(Clone, Copy, Debug, PartialEq, Eq, Structural, PartialOrd, Ord, Hash)]
pub enum IpAddress {
    V4(Ipv4Address),
    V6(Ipv6Address),
}

/// An IP address and a port.
#[derive(Clone, Copy, Debug, PartialEq, Eq, Structural, PartialOrd, Ord, Hash)]
pub struct SocketAddress {
    pub ip: IpAddress,
    pub port: u16,
}

impl Ipv4Address {
    /// The address `a.b.c.d`.
    pub fn new(a: u8, b: u8, c: u8, d: u8) -> (r: Ipv4Address)
        ensures
            r == Ipv4Address(a, b, c, d),
    {
        Ipv4Address(a, b, c, d)
    }

    /// `255.255.255.255`.
    pub fn broadcast() -> (r: Ipv4Address)
        ensures
            r == Ipv4Address(255, 255, 255, 255),
    {
        Ipv4Address(255, 255, 255, 255)
    }

    /// `127.0.0.1`.
    pub fn localhost() -> (r: Ipv4Address)
        ensures
            r == Ipv4Address(127, 0, 0, 1),
    {
        Ipv4Address(127, 0, 0, 1)
    }

    /// `0.0.0.0`.
    pub fn unspecified() -> (r: Ipv4Address)
        ensures
            r == Ipv4Address(0, 0, 0, 0),
    {
        Ipv4Address(0, 0, 0, 0)
    }

    /// Whether the address is in `224.0.0.0/4`.
    pub open spec fn spec_is_multicast(self) -> bool {
        224 <= self.0 <= 239
    }

    /// Whether the address is in `224.0.0.0/4`.
    pub fn is_multicast(&self) -> (r: bool)
        ensures
            r == self.spec_is_multicast(),
    {
        224 <= self.0 && self.0 <= 239
    }

    /// Whether the address is in `127.0.0.0/8`.
    pub fn is_loopback(&self) -> (r: bool)
        ensures
            r == (self.0 == 127),
    {
        self.0 == 127
    }

    /// Whether the address is `0.0.0.0`.
    pub fn is_unspecified(&self) -> (r: bool)
        ensures
            r == (*self == Ipv4Address(0, 0, 0, 0)),
    {
        self.0 == 0 && self.1 == 0 && self.2 == 0 && self.3 == 0
    }
}

/// Whether an IP address is a loopback address (`127.0.0.0/8`, or `::1`).
pub open spec fn ip_is_loopback(ip: IpAddress) -> bool {
    match ip {
        IpAddress::V4(a) => a.0 == 127,
        IpAddress::V6(a) => a.0 == 1,
    }
}

/// Whether an IP address is the unspecified address (`0.0.0.0`, or `::`).
pub open spec fn ip_is_unspecified(ip: IpAddress) -> bool {
    match ip {
        IpAddress::V4(a) => a == Ipv4Address(0, 0, 0, 0),
        IpAddress::V6(a) => a.0 == 0,
    }
}

impl IpAddress {
    /// Whether the address is a loopback address.
    pub fn is_loopback(&self) -> (r: bool)
        ensures
            r == ip_is_loopback(*self),
    {
        match self {
            IpAddress::V4(a) => a.is_loopback(),
            IpAddress::V6(a) => a.0 == 1,
        }
    }

    /// Whether the address is the unspecified address.
    pub fn is_unspecified(&self) -> (r: bool)
        ensures
            r == ip_is_unspecified(*self),
    {
        match self {
            IpAddress::V4(a) => a.is_unspecified(),
            IpAddress::V6(a) => a.0 == 0,
        }
    }
}

/// The IPv4 address as a 32-bit number.
pub open spec fn ipv4_number(a: Ipv4Address) -> nat {
    ((a.0 as nat * 256 + a.1 as nat) * 256 + a.2 as nat) * 256 + a.3 as nat
}

/// The order of IP addresses: every IPv4 address before every IPv6 address,
/// each family by number.
pub open spec fn ip_less(a: IpAddress, b: IpAddress) -> bool {
    match (a, b) {
        (IpAddress::V4(x), IpAddress::V4(y)) => ipv4_number(x) < ipv4_number(y),
        (IpAddress::V4(_), IpAddress::V6(_)) => true,
        (IpAddress::V6(_), IpAddress::V4(_)) => false,
        (IpAddress::V6(x), IpAddress::V6(y)) => x.0 < y.0,
    }
}

/// The order of socket addresses: by IP address, then by port.
pub open spec fn socket_less(a: SocketAddress, b: SocketAddress) -> bool {
    ip_less(a.ip, b.ip) || (a.ip == b.ip && a.port < b.port)
}

/// Whether `a` comes before `b` in the order of socket addresses.
pub fn socket_lt(a: &SocketAddress, b: &SocketAddress) -> (r: bool)
    ensures
        r == socket_less(*a, *b),
{
    let ip_lt = match (&a.ip, &b.ip) {
        (IpAddress::V4(x), IpAddress::V4(y)) => {
            x.0 < y.0 || (x.0 == y.0 && (x.1 < y.1 || (x.1 == y.1 && (x.2 < y.2 || (x.2 == y.2 && x.3 < y.3)))))
        },
        (IpAddress::V4(_), IpAddress::V6(_)) => true,
        (IpAddress::V6(_), IpAddress::V4(_)) => false,
        (IpAddress::V6(x), IpAddress::V6(y)) => x.0 < y.0,
    };
    proof {
        if let (IpAddress::V4(x), IpAddress::V4(y)) = (a.ip, b.ip) {
            lemma_ipv4_number_order(x, y);
        }
    }
    ip_lt || (a.ip == b.ip && a.port < b.port)
}

/// The number of an IPv4 address orders addresses octet by octet.
proof fn lemma_ipv4_number_order(x: Ipv4Address, y: Ipv4Address)
    ensures
        (ipv4_number(x) < ipv4_number(y)) == (x.0 < y.0 || (x.0 == y.0 && (x.1 < y.1 || (x.1 == y.1 && (x.2 < y.2 || (x.2 == y.2 && x.3 < y.3)))))),
{
    assert(ipv4_number(x) < ipv4_number(y) <==> (x.0 < y.0 || (x.0 == y.0 && (x.1 < y.1 || (x.1 == y.1 && (x.2 < y.2 || (x.2 == y.2 && x.3 < y.3))))))) by (nonlinear_arith)
        requires
            x.0 < 256, x.1 < 256, x.2 < 256, x.3 < 256, y.0 < 256, y.1 < 256, y.2 < 256, y.3 < 256,
    {
    }
}

/// The dotted-decimal text of an IPv4 address.
pub open spec fn ipv4_text(a: Ipv4Address) -> Seq<char> {
    decimal(a.0 as nat) + seq!['.'] + decimal(a.1 as nat) + seq!['.'] + decimal(a.2 as nat) + seq!['.'] + decimal(a.3 as nat)
}

/// Appends the dotted-decimal text of an IPv4 address.
pub fn push_ipv4_text(out: &mut Vec<char>, a: Ipv4Address)
    ensures
        final(out)@ == old(out)@ + ipv4_text(a),
{
    let ghost start = out@;
    push_decimal(out, a.0 as u64);
    out.push('.');
    push_decimal(out, a.1 as u64);
    out.push('.');
    push_decimal(out, a.2 as u64);
    out.push('.');
    push_decimal(out, a.3 as u64);
    assert(out@ =~= start + ipv4_text(a));
}

impl Ipv4Address {
    /// The dotted-decimal text of the address, such as `192.168.1.20`.
    pub fn to_string(&self) -> (s: String)
        ensures
            s@ == ipv4_text(*self),
    {
        let mut out: Vec<char> = Vec::new();
        push_ipv4_text(&mut out, *self);
        assert(out@ =~= ipv4_text(*self));
        string_from_chars(out.as_slice())
    }
}

/// The value of an IPv4 octet text as Rust reads it: one to three decimal
/// digits, no leading zero unless the octet is `0`, at most 255.
pub open spec fn octet_value(s: Seq<char>) -> Option<u8> {
    if 1 <= s.len() <= 3 && !(s.len() > 1 && s[0] == '0') {
        match digits_value(s) {
            Some(v) => if v <= 255 { Some(v as u8) } else { None },
            None => None,
        }
    } else {
        None
    }
}

/// The IPv4 address that dotted-decimal text denotes, as
/// `Ipv4Addr::from_str` reads it: four octets separated by dots.
pub open spec fn parse_ipv4_spec(s: Seq<char>) -> Option<Ipv4Address> {
    let parts = split_on(s, '.');
    if parts.len() != 4 {
        None
    } else {
        match (octet_value(parts[0]), octet_value(parts[1]), octet_value(parts[2]), octet_value(parts[3])) {
            (Some(a), Some(b), Some(c), Some(d)) => Some(Ipv4Address(a, b, c, d)),
            _ => None,
        }
    }
}

/// Reads one IPv4 octet.
pub(crate) fn parse_octet(s: &[char]) -> (r: Option<u8>)
    ensures
        r == octet_value(s@),
{
    if s.len() < 1 || s.len() > 3 || (s.len() > 1 && s[0] == '0') {
        return None;
    }
    match crate::text::parse_digits(s, 255) {
        Some(v) => Some(v as u8),
        None => None,
    }
}

/// Reads dotted-decimal IPv4 text.
pub fn parse_ipv4(s: &[char]) -> (r: Option<Ipv4Address>)
    ensures
        r == parse_ipv4_spec(s@),
{
    let parts = split_chars(s, '.');
    if parts.len() != 4 {
        return None;
    }
    let a = parse_octet(parts[0].as_slice());
    let b = parse_octet(parts[1].as_slice());
    let c = parse_octet(parts[2].as_slice());
    let d = parse_octet(parts[3].as_slice());
    match (a, b, c, d) {
        (Some(a), Some(b), Some(c), Some(d)) => Some(Ipv4Address(a, b, c, d)),
        _ => None,
    }
}

/// The socket address that `ipv4:port` text denotes, as `SocketAddr::from_str`
/// reads it: an IPv4 address, a colon, and one or more decimal digits (leading
/// zeros allowed) of value at most 65535.
pub open spec fn parse_socket_v4_spec(s: Seq<char>) -> Option<SocketAddress> {
    let parts = split_on(s, ':');
    if parts.len() != 2 {
        None
    } else {
        match (parse_ipv4_spec(parts[0]), digits_value(parts[1])) {
            (Some(ip), Some(port)) => if port <= 65535 {
                Some(SocketAddress { ip: IpAddress::V4(ip), port: port as u16 })
            } else {
                None
            },
            _ => None,
        }
    }
}

/// Reads `ipv4:port` socket address text.
pub fn parse_socket_v4(s: &[char]) -> (r: Option<SocketAddress>)
    ensures
        r == parse_socket_v4_spec(s@),
{
    let parts = split_chars(s, ':');
    if parts.len() != 2 {
        return None;
    }
    let ip = parse_ipv4(parts[0].as_slice());
    let port = crate::text::parse_digits(parts[1].as_slice(), 65535);
    match (ip, port) {
        (Some(ip), Some(port)) => Some(SocketAddress { ip: IpAddress::V4(ip), port: port as u16 }),
        _ => None,
    }
}

/// The text of an IPv4 socket address, `a.b.c.d:port`.
pub open spec fn socket_v4_text(ip: Ipv4Address, port: u16) -> Seq<char> {
    ipv4_text(ip) + seq![':'] + decimal(port as nat)
}

/// The `i`th 16-bit segment of an IPv6 address, most significant first.
pub open spec fn v6_segment(a: u128, i: int) -> u16 {
    ((a >> ((7 - i) * 16) as u128) & 0xffff) as u16
}

/// The eight segments of an IPv6 address.
pub open spec fn v6_segments(a: u128) -> Seq<u16> {
    Seq::new(8, |i: int| v6_segment(a, i))
}

fn segment(a: u128, i: usize) -> (r: u16)
    requires
        i < 8,
    ensures
        r == v6_segment(a, i as int),
{
    let shift: u128 = ((7 - i) * 16) as u128;
    ((a >> shift) & 0xffff) as u16
}

/// The lowercase hexadecimal digits of `n`, without leading zeros.
pub open spec fn hex_text(n: nat) -> Seq<char>
    decreases n,
{
    if n < 16 {
        seq![crate::bytes::hex_digit(n as u8)]
    } else {
        hex_text(n / 16).push(crate::bytes::hex_digit((n % 16) as u8))
    }
}

fn push_hex(out: &mut Vec<char>, n: u16)
    ensures
        final(out)@ == old(out)@ + hex_text(n as nat),
    decreases n,
{
    if n >= 16 {
        push_hex(out, n / 16);
    }
    let d = (n % 16) as u8;
    let c = if d < 10 { (48u8 + d) as char } else { (97u8 + d - 10) as char };
    let ghost before = out@;
    out.push(c);
    proof {
        if n >= 16 {
            assert(before + hex_text(n as nat) =~= (before + hex_text((n / 16) as nat)).push(c));
        } else {
            assert(before + hex_text(n as nat) =~= before.push(c));
        }
    }
}

/// The segments `from..to` in hexadecimal, separated by colons.
pub open spec fn segments_text(segs: Seq<u16>, from: int, to: int) -> Seq<char>
    decreases to - from,
{
    if to <= from {
        Seq::empty()
    } else if to == from + 1 {
        hex_text(segs[from] as nat)
    } else {
        segments_text(segs, from, to - 1) + seq![':'] + hex_text(segs[to - 1] as nat)
    }
}

/// The longest run of zero segments among the first `n` (the first of equally
/// long runs), as (start, length), with the run that ends at `n` as (start,
/// length): the scan that the text form of an IPv6 address is defined by.
pub open spec fn zero_runs(segs: Seq<u16>, n: int) -> (int, int, int, int)
    decreases n,
{
    if n <= 0 {
        (0, 0, 0, 0)
    } else {
        let (best_start, best_len, cur_start, cur_len) = zero_runs(segs, n - 1);
        if segs[n - 1] == 0 {
            let cs = if cur_len == 0 { n - 1 } else { cur_start };
            let cl = cur_len + 1;
            if cl > best_len { (cs, cl, cs, cl) } else { (best_start, best_len, cs, cl) }
        } else {
            (best_start, best_len, 0, 0)
        }
    }
}

/// The text of an IPv6 address as Rust's `Display` writes it: an IPv4-mapped
/// address as `::ffff:` and its IPv4 text; otherwise the segments in lowercase
/// hexadecimal separated by colons, the longest run of two or more zero
/// segments (the first of equally long runs) written as `::`.
pub open spec fn ipv6_text(a: u128) -> Seq<char> {
    let segs = v6_segments(a);
    if segs[0] == 0 && segs[1] == 0 && segs[2] == 0 && segs[3] == 0 && segs[4] == 0 && segs[5] == 0xffff {
        "::ffff:"@ + ipv4_text(Ipv4Address((segs[6] / 256) as u8, (segs[6] % 256) as u8, (segs[7] / 256) as u8, (segs[7] % 256) as u8))
    } else {
        let (start, len, _, _) = zero_runs(segs, 8);
        if len > 1 {
            segments_text(segs, 0, start) + "::"@ + segments_text(segs, start + len, 8)
        } else {
            segments_text(segs, 0, 8)
        }
    }
}

proof fn lemma_zero_runs_bounds(segs: Seq<u16>, n: int)
    requires
        0 <= n <= segs.len(),
    ensures
        ({
            let (bs, bl, cs, cl) = zero_runs(segs, n);
            0 <= bs && 0 <= bl && bs + bl <= n && 0 <= cs && 0 <= cl && cs + cl == if cl == 0 { cs } else { n }
        }),
    decreases n,
{
    if n > 0 {
        lemma_zero_runs_bounds(segs, n - 1);
    }
}

fn push_segments(out: &mut Vec<char>, segs: &[u16; 8], from: usize, to: usize)
    requires
        from <= to <= 8,
    ensures
        final(out)@ == old(out)@ + segments_text(segs@, from as int, to as int),
{
    let ghost start = out@;
    let mut k: usize = from;
    while k < to
        invariant
            from <= k <= to <= 8,
            out@ == start + segments_text(segs@, from as int, k as int),
        decreases to - k,
    {
        if k > from {
            out.push(':');
        }
        push_hex(out, segs[k]);
        k = k + 1;
        assert(out@ =~= start + segments_text(segs@, from as int, k as int));
    }
}

/// Appends the text of an IPv6 address.
pub fn push_ipv6_text(out: &mut Vec<char>, a: u128)
    ensures
        final(out)@ == old(out)@ + ipv6_text(a),
{
    let mut segs: [u16; 8] = [0u16; 8];
    let mut i: usize = 0;
    while i < 8
        invariant
            i <= 8,
            forall|k: int| 0 <= k < i ==> segs@[k] == v6_segment(a, k),
        decreases 8 - i,
    {
        segs[i] = segment(a, i);
        i = i + 1;
    }
    assert(segs@ =~= v6_segments(a));
    let ghost start = out@;
    if segs[0] == 0 && segs[1] == 0 && segs[2] == 0 && segs[3] == 0 && segs[4] == 0 && segs[5] == 0xffff {
        out.push(':');
        out.push(':');
        out.push('f');
        out.push('f');
        out.push('f');
        out.push('f');
        out.push(':');
        let v4 = Ipv4Address((segs[6] / 256) as u8, (segs[6] % 256) as u8, (segs[7] / 256) as u8, (segs[7] % 256) as u8);
        push_ipv4_text(out, v4);
        proof {
            reveal_strlit("::ffff:");
            assert(out@ =~= start + ipv6_text(a));
        }
        return;
    }
    let mut best_start: usize = 0;
    let mut best_len: usize = 0;
    let mut cur_start: usize = 0;
    let mut cur_len: usize = 0;
    let mut n: usize = 0;
    while n < 8
        invariant
            n <= 8,
            segs@ == v6_segments(a),
            zero_runs(segs@, n as int) == (best_start as int, best_len as int, cur_start as int, cur_len as int),
            best_start + best_len <= n,
            cur_start + cur_len <= n,
        decreases 8 - n,
    {
        proof {
            lemma_zero_runs_bounds(segs@, n as int);
        }
        if segs[n] == 0 {
            if cur_len == 0 {
                cur_start = n;
            }
            cur_len = cur_len + 1;
            if cur_len > best_len {
                best_start = cur_start;
                best_len = cur_len;
            }
        } else {
            cur_start = 0;
            cur_len = 0;
        }
        n = n + 1;
    }
    if best_len > 1 {
        push_segments(out, &segs, 0, best_start);
        out.push(':');
        out.push(':');
        push_segments(out, &segs, best_start + best_len, 8);
        proof {
            reveal_strlit("::");
            assert(out@ =~= start + ipv6_text(a));
        }
    } else {
        push_segments(out, &segs, 0, 8);
    }
}

/// The text of a socket address as Rust's `Display` writes it: `ip:port` for
/// IPv4, `[ip]:port` for IPv6.
pub open spec fn socket_text(a: SocketAddress) -> Seq<char> {
    match a.ip {
        IpAddress::V4(ip) => ipv4_text(ip) + seq![':'] + decimal(a.port as nat),
        IpAddress::V6(ip) => seq!['['] + ipv6_text(ip.0) + seq![']', ':'] + decimal(a.port as nat),
    }
}

/// The text of an IP address.
pub open spec fn ip_text(ip: IpAddress) -> Seq<char> {
    match ip {
        IpAddress::V4(a) => ipv4_text(a),
        IpAddress::V6(a) => ipv6_text(a.0),
    }
}

impl IpAddress {
    /// The text of the address.
    pub fn to_string(&self) -> (s: String)
        ensures
            s@ == ip_text(*self),
    {
        let mut out: Vec<char> = Vec::new();
        match self {
            IpAddress::V4(a) => push_ipv4_text(&mut out, *a),
            IpAddress::V6(a) => push_ipv6_text(&mut out, a.0),
        }
        assert(out@ =~= ip_text(*self));
        string_from_chars(out.as_slice())
    }
}

impl SocketAddress {
    /// The text of the socket address, such as `127.0.0.1:7000` or `[::1]:7000`.
    pub fn to_string(&self) -> (s: String)
        ensures
            s@ == socket_text(*self),
    {
        let mut out: Vec<char> = Vec::new();
        match self.ip {
            IpAddress::V4(a) => push_ipv4_text(&mut out, a),
            IpAddress::V6(a) => {
                out.push('[');
                push_ipv6_text(&mut out, a.0);
                out.push(']');
            },
        }
        out.push(':');
        push_decimal(&mut out, self.port as u64);
        assert(out@ =~= socket_text(*self));
        string_from_chars(out.as_slice())
    }
}

/// A text is not an address.
#[derive(Clone, Copy, Debug, PartialEq, Eq, Structural)]
pub struct AddrParseError;

impl core::str::FromStr for Ipv6Address {
    type Err = AddrParseError;

    fn from_str(value: &str) -> (r: Result<Self, Self::Err>)
        ensures
            match crate::net6::parse_ipv6_spec(value@) {
                Some(a) => r == Ok::<Ipv6Address, AddrParseError>(a),
                None => r == Err::<Ipv6Address, AddrParseError>(AddrParseError),
            },
    {
        match crate::net6::parse_ipv6(crate::bytes::chars_of(value).as_slice()) {
            Some(a) => Ok(a),
            None => Err(AddrParseError),
        }
    }
}

impl core::str::FromStr for Ipv4Address {
    type Err = AddrParseError;

    fn from_str(value: &str) -> (r: Result<Self, Self::Err>)
        ensures
            match parse_ipv4_spec(value@) {
                Some(a) => r == Ok::<Ipv4Address, AddrParseError>(a),
                None => r == Err::<Ipv4Address, AddrParseError>(AddrParseError),
            },
    {
        match parse_ipv4(crate::bytes::chars_of(value).as_slice()) {
            Some(a) => Ok(a),
            None => Err(AddrParseError),
        }
    }
}

impl core::str::FromStr for SocketAddress {
    type Err = AddrParseError;

    fn from_str(value: &str) -> (r: Result<Self, Self::Err>)
        ensures
            match crate::net6::parse_socket_spec(value@) {
                Some(a) => r == Ok::<SocketAddress, AddrParseError>(a),
                None => r == Err::<SocketAddress, AddrParseError>(AddrParseError),
            },
    {
        match crate::net6::parse_socket(crate::bytes::chars_of(value).as_slice()) {
            Some(a) => Ok(a),
            None => Err(AddrParseError),
        }
    }
}

proof fn lemma_decimal_digits(n: nat)
    ensures
        decimal(n).len() >= 1,
        forall|i: int| 0 <= i < decimal(n).len() ==> '0' <= #[trigger] decimal(n)[i] && decimal(n)[i] <= '9',
        digits_value(decimal(n)) == Some(n),
        n < 10 ==> decimal(n).len() == 1,
        10 <= n < 100 ==> decimal(n).len() == 2,
        100 <= n < 1000 ==> decimal(n).len() == 3,
        n >= 10 ==> decimal(n)[0] != '0',
    decreases n,
{
    if n >= 10 {
        lemma_decimal_digits(n / 10);
        let d = decimal(n);
        assert(d.drop_last() =~= decimal(n / 10));
        assert(d[0] == decimal(n / 10)[0]);
        if n / 10 < 10 {
            assert(decimal(n / 10)[0] != '0');
        }
    }
}

proof fn lemma_octet_of_decimal(n: u8)
    ensures
        octet_value(decimal(n as nat)) == Some(n),
{
    lemma_decimal_digits(n as nat);
}

proof fn lemma_split_no_sep(s: Seq<char>, c: char)
    requires
        forall|i: int| 0 <= i < s.len() ==> s[i] != c,
    ensures
        split_on(s, c) == seq![s],
    decreases s.len(),
{
    if s.len() > 0 {
        lemma_split_no_sep(s.drop_last(), c);
        assert(s.last() != c);
        assert(s.drop_last().push(s.last()) =~= s);
        assert(seq![s.drop_last()].update(0, s.drop_last().push(s.last())) =~= seq![s]);
    } else {
        assert(s =~= Seq::<char>::empty());
    }
}

proof fn lemma_split_append(a: Seq<char>, b: Seq<char>, c: char)
    requires
        forall|i: int| 0 <= i < b.len() ==> b[i] != c,
    ensures
        split_on(a + seq![c] + b, c) == split_on(a, c).push(b),
    decreases b.len(),
{
    if b.len() == 0 {
        assert(a + seq![c] + b =~= a.push(c));
        assert((a + seq![c] + b).drop_last() =~= a);
        assert((a + seq![c] + b).last() == c);
        assert(b =~= Seq::<char>::empty());
    } else {
        lemma_split_append(a, b.drop_last(), c);
        let s = a + seq![c] + b;
        assert(s.drop_last() =~= a + seq![c] + b.drop_last());
        assert(s.last() == b.last());
        assert(b.last() != c);
        let rest = split_on(s.drop_last(), c);
        assert(rest.update(rest.len() - 1, rest.last().push(s.last())) =~= split_on(a, c).push(b)) by {
            assert(b.drop_last().push(b.last()) =~= b);
        }
    }
}

/// Reading the dotted-decimal text of an IPv4 address gives the address back.
pub proof fn lemma_ipv4_text_roundtrip(a: Ipv4Address)
    ensures
        parse_ipv4_spec(ipv4_text(a)) == Some(a),
{
    let d0 = decimal(a.0 as nat);
    let d1 = decimal(a.1 as nat);
    let d2 = decimal(a.2 as nat);
    let d3 = decimal(a.3 as nat);
    lemma_decimal_digits(a.0 as nat);
    lemma_decimal_digits(a.1 as nat);
    lemma_decimal_digits(a.2 as nat);
    lemma_decimal_digits(a.3 as nat);
    assert forall|i: int| 0 <= i < d0.len() implies d0[i] != '.' by {}
    assert forall|i: int| 0 <= i < d1.len() implies d1[i] != '.' by {}
    assert forall|i: int| 0 <= i < d2.len() implies d2[i] != '.' by {}
    assert forall|i: int| 0 <= i < d3.len() implies d3[i] != '.' by {}
    lemma_split_no_sep(d0, '.');
    lemma_split_append(d0, d1, '.');
    lemma_split_append(d0 + seq!['.'] + d1, d2, '.');
    lemma_split_append(d0 + seq!['.'] + d1 + seq!['.'] + d2, d3, '.');
    lemma_octet_of_decimal(a.0);
    lemma_octet_of_decimal(a.1);
    lemma_octet_of_decimal(a.2);
    lemma_octet_of_decimal(a.3);
    assert(split_on(ipv4_text(a), '.') =~= seq![d0, d1, d2, d3]);
}

/// Reading the text of an IPv4 socket address gives the address back.
pub proof fn lemma_socket_v4_text_roundtrip(ip: Ipv4Address, port: u16)
    ensures
        parse_socket_v4_spec(socket_v4_text(ip, port)) == Some(SocketAddress { ip: IpAddress::V4(ip), port }),
{
    let t = ipv4_text(ip);
    let p = decimal(port as nat);
    lemma_decimal_digits(port as nat);
    lemma_decimal_digits(ip.0 as nat);
    lemma_decimal_digits(ip.1 as nat);
    lemma_decimal_digits(ip.2 as nat);
    lemma_decimal_digits(ip.3 as nat);
    assert forall|i: int| 0 <= i < t.len() implies t[i] != ':' by {
        let d0 = decimal(ip.0 as nat);
        let d1 = decimal(ip.1 as nat);
        let d2 = decimal(ip.2 as nat);
        let d3 = decimal(ip.3 as nat);
        if i < d0.len() {
            assert(t[i] == d0[i]);
        } else if i == d0.len() {
        } else if i < d0.len() + 1 + d1.len() {
            assert(t[i] == d1[i - d0.len() - 1]);
        } else if i == d0.len() + 1 + d1.len() {
        } else if i < d0.len() + d1.len() + 2 + d2.len() {
            assert(t[i] == d2[i - d0.len() - d1.len() - 2]);
        } else if i == d0.len() + d1.len() + 2 + d2.len() {
        } else {
            assert(t[i] == d3[i - d0.len() - d1.len() - d2.len() - 3]);
        }
    }
    assert forall|i: int| 0 <= i < p.len() implies p[i] != ':' by {}
    lemma_split_no_sep(t, ':');
    lemma_split_append(t, p, ':');
    lemma_ipv4_text_roundtrip(ip);
    assert(socket_v4_text(ip, port) =~= t + seq![':'] + p);
}

} // verus!
