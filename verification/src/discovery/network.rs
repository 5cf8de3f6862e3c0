//! Where discovery queries go, and how discovered peers are kept.

use vstd::prelude::*;

use crate::net::{
    ip_is_loopback, ipv4_number, socket_less, socket_lt, IpAddress, Ipv4Address, SocketAddress,
};

verus! {

/// An address of a network interface of this machine, as the interface list
/// gives it: IPv4 with its address, netmask and broadcast address if any, or
/// IPv6.
#[derive(Clone, Copy, Debug)]
pub enum InterfaceAddress {
    V4([u8; 4], [u8; 4], Option<[u8; 4]>),
    V6,
}

/// An active IPv4 interface: its address and the broadcast address of its
/// subnet, if it has one.
#[derive(Clone, Copy, Debug, PartialEq, Eq, Structural)]
pub struct DiscoveryInterface {
    pub ip: Ipv4Address,
    pub broadcast: Option<Ipv4Address>,
}

/// The broadcast address of the subnet of `ip` under `netmask`: the address
/// with every host bit set; none for a host mask (`255.255.255.255`).
pub open spec fn subnet_broadcast_spec(ip: Ipv4Address, netmask: Ipv4Address) -> Option<Ipv4Address> {
    if netmask == Ipv4Address(255, 255, 255, 255) {
        None
    } else {
        Some(Ipv4Address(ip.0 | !netmask.0, ip.1 | !netmask.1, ip.2 | !netmask.2, ip.3 | !netmask.3))
    }
}

/// The broadcast address of the subnet of `ip` under `netmask`.
pub fn subnet_broadcast(ip: Ipv4Address, netmask: Ipv4Address) -> (r: Option<Ipv4Address>)
    ensures
        r == subnet_broadcast_spec(ip, netmask),
{
    if netmask.0 == 255 && netmask.1 == 255 && netmask.2 == 255 && netmask.3 == 255 {
        return None;
    }
    Some(Ipv4Address(ip.0 | !netmask.0, ip.1 | !netmask.1, ip.2 | !netmask.2, ip.3 | !netmask.3))
}

/// The address a server advertises for its peer-to-peer listener: the listen
/// address itself. An unspecified address stays unspecified, for the client
/// to replace with the address the response came from.
pub fn advertised_p2p_addr(p2p_listen: SocketAddress, source_ip: IpAddress) -> (r: SocketAddress)
    ensures
        r == p2p_listen,
{
    p2p_listen
}

fn octets_address(o: [u8; 4]) -> (r: Ipv4Address)
    ensures
        r == Ipv4Address(o@[0], o@[1], o@[2], o@[3]),
{
    Ipv4Address(o[0], o[1], o[2], o[3])
}

/// The interface of an interface address, when it is an active IPv4 one.
pub open spec fn active_interface(a: InterfaceAddress) -> Option<DiscoveryInterface> {
    match a {
        InterfaceAddress::V6 => None,
        InterfaceAddress::V4(ip, mask, bcast) => {
            let ip = Ipv4Address(ip@[0], ip@[1], ip@[2], ip@[3]);
            let mask = Ipv4Address(mask@[0], mask@[1], mask@[2], mask@[3]);
            if ip == Ipv4Address(0, 0, 0, 0) {
                None
            } else {
                Some(DiscoveryInterface {
                    ip,
                    broadcast: match bcast {
                        Some(b) => Some(Ipv4Address(b@[0], b@[1], b@[2], b@[3])),
                        None => subnet_broadcast_spec(ip, mask),
                    },
                })
            }
        },
    }
}

/// The active IPv4 interfaces among `addrs`, in order.
pub open spec fn active_interfaces_spec(addrs: Seq<InterfaceAddress>) -> Seq<DiscoveryInterface>
    decreases addrs.len(),
{
    if addrs.len() == 0 {
        Seq::empty()
    } else {
        let rest = active_interfaces_spec(addrs.drop_last());
        match active_interface(addrs.last()) {
            Some(i) => rest.push(i),
            None => rest,
        }
    }
}

/// The active IPv4 interfaces among the interface addresses, in order: IPv6
/// and unspecified addresses are left out, and an interface without a
/// broadcast address gets its subnet's.
pub fn active_ipv4_interfaces(addrs: &[InterfaceAddress]) -> (r: Vec<DiscoveryInterface>)
    ensures
        r@ == active_interfaces_spec(addrs@),
{
    let mut out: Vec<DiscoveryInterface> = Vec::new();
    let mut i: usize = 0;
    while i < addrs.len()
        invariant
            i <= addrs@.len(),
            out@ == active_interfaces_spec(addrs@.take(i as int)),
        decreases addrs@.len() - i,
    {
        proof {
            assert(addrs@.take(i + 1).drop_last() =~= addrs@.take(i as int));
        }
        match addrs[i] {
            InterfaceAddress::V6 => {},
            InterfaceAddress::V4(ip, mask, bcast) => {
                let ip = octets_address(ip);
                let mask = octets_address(mask);
                if !ip.is_unspecified() {
                    let broadcast = match bcast {
                        Some(b) => Some(octets_address(b)),
                        None => subnet_broadcast(ip, mask),
                    };
                    out.push(DiscoveryInterface { ip, broadcast });
                }
            },
        }
        i = i + 1;
    }
    assert(addrs@.take(addrs@.len() as int) =~= addrs@);
    out
}

/// Calls `get_if_addrs::get_if_addrs`, each interface's address converted to
/// plain octets; `None` when the list cannot be read. The interfaces are the
/// machine's, so nothing is claimed of them.
#[verifier::external_body]
fn interface_addresses() -> (r: Option<Vec<InterfaceAddress>>) {
    match get_if_addrs::get_if_addrs() {
        Ok(list) => Some(list.into_iter().map(|i| match i.addr {
            get_if_addrs::IfAddr::V4(a) => InterfaceAddress::V4(a.ip.octets(), a.netmask.octets(), a.broadcast.map(|b| b.octets())),
            get_if_addrs::IfAddr::V6(_) => InterfaceAddress::V6,
        }).collect()),
        Err(_) => None,
    }
}

/// The active IPv4 interfaces of this machine; none when they cannot be read.
pub fn machine_ipv4_interfaces() -> (r: Vec<DiscoveryInterface>)
    ensures
        exists|addrs: Seq<InterfaceAddress>| r@ == active_interfaces_spec(addrs),
{
    match interface_addresses() {
        Some(addrs) => active_ipv4_interfaces(addrs.as_slice()),
        None => {
            let out: Vec<DiscoveryInterface> = Vec::new();
            assert(out@ =~= active_interfaces_spec(Seq::<InterfaceAddress>::empty()));
            out
        },
    }
}

/// The addresses are in strictly ascending order (so none occurs twice).
pub open spec fn strictly_ascending(s: Seq<SocketAddress>) -> bool {
    forall|i: int, j: int| 0 <= i < j < s.len() ==> socket_less(s[i], s[j])
}

/// The order of socket addresses is a strict total order.
pub proof fn lemma_socket_order(a: SocketAddress, b: SocketAddress, c: SocketAddress)
    ensures
        !socket_less(a, a),
        socket_less(a, b) && socket_less(b, c) ==> socket_less(a, c),
        a != b ==> socket_less(a, b) || socket_less(b, a),
        socket_less(a, b) ==> !socket_less(b, a),
{
    match (a.ip, b.ip) {
        (IpAddress::V4(x), IpAddress::V4(y)) => {
            if ipv4_number(x) == ipv4_number(y) {
                lemma_ipv4_number_injective(x, y);
            }
        },
        _ => {},
    }
}

proof fn lemma_ipv4_number_injective(x: Ipv4Address, y: Ipv4Address)
    requires
        ipv4_number(x) == ipv4_number(y),
    ensures
        x == y,
{
    assert(x.0 == y.0 && x.1 == y.1 && x.2 == y.2 && x.3 == y.3) by (nonlinear_arith)
        requires
            ((x.0 as int * 256 + x.1 as int) * 256 + x.2 as int) * 256 + x.3 as int == ((y.0 as int * 256 + y.1 as int) * 256 + y.2 as int) * 256 + y.3 as int,
            0 <= x.0 < 256, 0 <= x.1 < 256, 0 <= x.2 < 256, 0 <= x.3 < 256,
            0 <= y.0 < 256, 0 <= y.1 < 256, 0 <= y.2 < 256, 0 <= y.3 < 256,
    {
    }
}

/// Adds `a` to a strictly ascending list of addresses, keeping it so.
pub fn insert_sorted(set: &mut Vec<SocketAddress>, a: SocketAddress)
    requires
        strictly_ascending(old(set)@),
    ensures
        strictly_ascending(final(set)@),
        final(set)@.to_set() == old(set)@.to_set().insert(a),
{
    let mut j: usize = 0;
    while j < set.len() && socket_lt(&set[j], &a)
        invariant
            j <= set@.len(),
            strictly_ascending(set@),
            forall|k: int| 0 <= k < j ==> socket_less(#[trigger] set@[k], a),
        decreases set@.len() - j,
    {
        j = j + 1;
    }
    if j < set.len() && set[j] == a {
        assert(set@.to_set().insert(a) =~= set@.to_set()) by {
            assert(set@.contains(a) ==> set@.to_set().contains(a));
            assert(set@[j as int] == a);
        }
        return;
    }
    let ghost before = set@;
    proof {
        if j < before.len() {
            lemma_socket_order(before[j as int], a, a);
            lemma_socket_order(a, before[j as int], a);
        }
    }
    set.insert(j, a);
    proof {
        assert forall|p: int, q: int| 0 <= p < q < set@.len() implies socket_less(set@[p], set@[q]) by {
            if q < j {
            } else if q == j {
            } else if p < j {
                lemma_socket_order(set@[p], a, before[q - 1]);
                lemma_socket_order(a, before[j as int], before[q - 1]);
                if j as int <= q - 1 && j as int != q - 1 {
                    lemma_socket_order(a, before[j as int], before[q - 1]);
                }
                if p < j && q - 1 >= j {
                    lemma_socket_order(set@[p], a, before[q - 1]);
                }
            } else if p == j {
                if q - 1 > j {
                    lemma_socket_order(a, before[j as int], before[q - 1]);
                }
            } else {
            }
        }
        assert(set@.to_set() =~= before.to_set().insert(a)) by {
            assert forall|x: SocketAddress| set@.to_set().contains(x) <==> before.to_set().insert(a).contains(x) by {
                if set@.contains(x) {
                    let k = choose|k: int| 0 <= k < set@.len() && set@[k] == x;
                    if k < j {
                        assert(before[k] == x);
                    } else if k > j {
                        assert(before[k - 1] == x);
                    }
                }
                if before.contains(x) {
                    let k = choose|k: int| 0 <= k < before.len() && before[k] == x;
                    if k < j {
                        assert(set@[k] == x);
                    } else {
                        assert(set@[k + 1] == x);
                    }
                }
                if x == a {
                    assert(set@[j as int] == a);
                }
            }
        }
    }
}

/// The interface has a broadcast address, and it is `ip`.
pub open spec fn broadcasts_to(iface: DiscoveryInterface, ip: IpAddress) -> bool {
    match iface.broadcast {
        Some(b) => ip == IpAddress::V4(b),
        None => false,
    }
}

/// The addresses a discovery query is sent to, as a set: the broadcast address,
/// the loopback address, the multicast group when it is one, and the broadcast
/// address of each interface that has one, all at `port`.
pub open spec fn query_target_set(port: u16, multicast: Option<Ipv4Address>, interfaces: Seq<DiscoveryInterface>) -> Set<SocketAddress> {
    Set::new(|t: SocketAddress| {
        &&& t.port == port
        &&& {
            ||| t.ip == IpAddress::V4(Ipv4Address(255, 255, 255, 255))
            ||| t.ip == IpAddress::V4(Ipv4Address(127, 0, 0, 1))
            ||| (multicast matches Some(m) && m.spec_is_multicast() && t.ip == IpAddress::V4(m))
            ||| exists|i: int| 0 <= i < interfaces.len() && broadcasts_to(#[trigger] interfaces[i], t.ip)
        }
    })
}

/// The discovery targets for `port` given the machine's interfaces, in
/// ascending order without repetition.
pub fn query_targets_from(port: u16, multicast: Option<Ipv4Address>, interfaces: &[DiscoveryInterface]) -> (r: Vec<SocketAddress>)
    ensures
        strictly_ascending(r@),
        r@.to_set() == query_target_set(port, multicast, interfaces@),
{
    let mut targets: Vec<SocketAddress> = Vec::new();
    let ghost mut expected: Set<SocketAddress> = Set::empty();
    insert_sorted(&mut targets, SocketAddress { ip: IpAddress::V4(Ipv4Address::broadcast()), port });
    insert_sorted(&mut targets, SocketAddress { ip: IpAddress::V4(Ipv4Address::localhost()), port });
    proof {
        expected = Set::empty().insert(SocketAddress { ip: IpAddress::V4(Ipv4Address(255, 255, 255, 255)), port }).insert(
            SocketAddress { ip: IpAddress::V4(Ipv4Address(127, 0, 0, 1)), port });
    }
    if let Some(m) = multicast {
        if m.is_multicast() {
            insert_sorted(&mut targets, SocketAddress { ip: IpAddress::V4(m), port });
            proof {
                expected = expected.insert(SocketAddress { ip: IpAddress::V4(m), port });
            }
        }
    }
    let ghost fixed = expected;
    let mut i: usize = 0;
    while i < interfaces.len()
        invariant
            i <= interfaces@.len(),
            strictly_ascending(targets@),
            targets@.to_set() == fixed + Set::new(|t: SocketAddress| t.port == port && exists|k: int| 0 <= k < i && broadcasts_to(#[trigger] interfaces@[k], t.ip)),
            fixed == Set::new(|t: SocketAddress| {
                &&& t.port == port
                &&& {
                    ||| t.ip == IpAddress::V4(Ipv4Address(255, 255, 255, 255))
                    ||| t.ip == IpAddress::V4(Ipv4Address(127, 0, 0, 1))
                    ||| (multicast matches Some(m) && m.spec_is_multicast() && t.ip == IpAddress::V4(m))
                }
            }),
        decreases interfaces@.len() - i,
    {
        let ghost before = targets@.to_set();
        if let Some(b) = interfaces[i].broadcast {
            insert_sorted(&mut targets, SocketAddress { ip: IpAddress::V4(b), port });
        }
        proof {
            let next = fixed + Set::new(|t: SocketAddress| t.port == port && exists|k: int| 0 <= k < i + 1 && broadcasts_to(#[trigger] interfaces@[k], t.ip));
            assert(targets@.to_set() =~= next) by {
                assert forall|t: SocketAddress| next.contains(t) implies targets@.to_set().contains(t) by {
                    if !fixed.contains(t) {
                        let k = choose|k: int| 0 <= k < i + 1 && broadcasts_to(#[trigger] interfaces@[k], t.ip);
                        if k < i {
                            assert(before.contains(t));
                        }
                    }
                }
            }
        }
        i = i + 1;
    }
    proof {
        assert(targets@.to_set() =~= query_target_set(port, multicast, interfaces@));
    }
    targets
}

/// The addresses a discovery query is sent to, in ascending order without
/// repetition: those of `query_targets_from` for the active IPv4 interfaces of
/// this machine.
pub fn query_targets(port: u16, multicast: Option<Ipv4Address>) -> (r: Vec<SocketAddress>)
    ensures
        strictly_ascending(r@),
        exists|interfaces: Seq<DiscoveryInterface>| r@.to_set() == query_target_set(port, multicast, interfaces),
{
    let interfaces = machine_ipv4_interfaces();
    query_targets_from(port, multicast, interfaces.as_slice())
}

/// The peers found by discovery, one per discovery instance.
#[derive(Debug)]
pub struct PeerTable {
    entries: Vec<(String, SocketAddress)>,
}

/// The map that a list of (instance, address) entries stands for.
pub open spec fn entries_map(entries: Seq<(String, SocketAddress)>) -> Map<Seq<char>, SocketAddress>
    decreases entries.len(),
{
    if entries.len() == 0 {
        Map::empty()
    } else {
        entries_map(entries.drop_last()).insert(entries.last().0@, entries.last().1)
    }
}

proof fn lemma_entries_map_contains(entries: Seq<(String, SocketAddress)>, k: Seq<char>)
    ensures
        entries_map(entries).contains_key(k) <==> exists|i: int| 0 <= i < entries.len() && (#[trigger] entries[i]).0@ == k,
    decreases entries.len(),
{
    if entries.len() > 0 {
        lemma_entries_map_contains(entries.drop_last(), k);
        if entries.last().0@ != k {
            assert forall|i: int| 0 <= i < entries.len() && (#[trigger] entries[i]).0@ == k implies 0 <= i < entries.len() - 1 && entries.drop_last()[i].0@ == k by {}
        }
    }
}

proof fn lemma_entries_map_value(entries: Seq<(String, SocketAddress)>, i: int)
    requires
        0 <= i < entries.len(),
        forall|p: int, q: int| 0 <= p < q < entries.len() ==> (#[trigger] entries[p]).0@ != (#[trigger] entries[q]).0@,
    ensures
        entries_map(entries).contains_key(entries[i].0@),
        entries_map(entries)[entries[i].0@] == entries[i].1,
    decreases entries.len(),
{
    if i < entries.len() - 1 {
        lemma_entries_map_value(entries.drop_last(), i);
        assert(entries[i].0@ != entries.last().0@);
    }
}

proof fn lemma_entries_map_update(entries: Seq<(String, SocketAddress)>, i: int, v: SocketAddress)
    requires
        0 <= i < entries.len(),
        forall|p: int, q: int| 0 <= p < q < entries.len() ==> (#[trigger] entries[p]).0@ != (#[trigger] entries[q]).0@,
    ensures
        entries_map(entries.update(i, (entries[i].0, v))) == entries_map(entries).insert(entries[i].0@, v),
    decreases entries.len(),
{
    let updated = entries.update(i, (entries[i].0, v));
    if i == entries.len() - 1 {
        assert(updated.drop_last() =~= entries.drop_last());
        assert(entries_map(updated) =~= entries_map(entries).insert(entries[i].0@, v));
    } else {
        lemma_entries_map_update(entries.drop_last(), i, v);
        assert(updated.drop_last() =~= entries.drop_last().update(i, (entries[i].0, v)));
        assert(entries[i].0@ != entries.last().0@);
        assert(entries_map(updated) =~= entries_map(entries).insert(entries[i].0@, v));
    }
}

impl PeerTable {
    /// The instances' keys are distinct.
    pub closed spec fn wf(&self) -> bool {
        forall|p: int, q: int| 0 <= p < q < self.entries@.len() ==> (#[trigger] self.entries@[p]).0@ != (#[trigger] self.entries@[q]).0@
    }

    /// Every table keeps its instances' keys distinct.
    #[verifier::type_invariant]
    spec fn keys_distinct(&self) -> bool {
        self.wf()
    }


    /// The peers by instance id.
    pub closed spec fn view(&self) -> Map<Seq<char>, SocketAddress> {
        entries_map(self.entries@)
    }

    /// An empty table.
    pub fn new() -> (r: Self)
        ensures
            r.wf(),
            r.view() == Map::<Seq<char>, SocketAddress>::empty(),
    {
        PeerTable { entries: Vec::new() }
    }

    /// The number of instances.
    pub fn len(&self) -> (r: usize)
        ensures
            r == self.view().dom().len(),
    {
        proof {
            use_type_invariant(self);
            self.lemma_len();
        }
        self.entries.len()
    }

    proof fn lemma_len(&self)
        requires
            self.wf(),
        ensures
            self.view().dom().len() == self.entries@.len(),
            self.view().dom().finite(),
        decreases self.entries@.len(),
    {
        let e = self.entries@;
        lemma_entries_dom(e);
    }

    /// The peer of an instance, if there is one.
    pub fn get(&self, instance_id: &str) -> (r: Option<SocketAddress>)
        ensures
            match r {
                Some(a) => self.view().contains_key(instance_id@) && self.view()[instance_id@] == a,
                None => !self.view().contains_key(instance_id@),
            },
    {
        proof {
            use_type_invariant(self);
        }
        let mut i: usize = 0;
        while i < self.entries.len()
            invariant
                self.wf(),
                i <= self.entries@.len(),
                forall|k: int| 0 <= k < i ==> (#[trigger] self.entries@[k]).0@ != instance_id@,
            decreases self.entries@.len() - i,
        {
            if crate::text::str_equal(self.entries[i].0.as_str(), instance_id) {
                proof {
                    lemma_entries_map_value(self.entries@, i as int);
                }
                return Some(self.entries[i].1);
            }
            i = i + 1;
        }
        proof {
            lemma_entries_map_contains(self.entries@, instance_id@);
        }
        None
    }

    /// The peers, one per instance, in the order their instances were found.
    pub fn values(&self) -> (r: Vec<SocketAddress>)
        ensures
            r@.len() == self.view().dom().len(),
            forall|a: SocketAddress| r@.contains(a) <==> exists|k: Seq<char>| #[trigger] self.view().contains_key(k) && self.view()[k] == a,
    {
        proof {
            use_type_invariant(self);
            self.lemma_len();
        }
        let mut out: Vec<SocketAddress> = Vec::new();
        let mut i: usize = 0;
        while i < self.entries.len()
            invariant
                self.wf(),
                i <= self.entries@.len(),
                out@.len() == i,
                forall|k: int| 0 <= k < i ==> out@[k] == (#[trigger] self.entries@[k]).1,
            decreases self.entries@.len() - i,
        {
            out.push(self.entries[i].1);
            i = i + 1;
        }
        proof {
            assert forall|a: SocketAddress| out@.contains(a) <==> exists|k: Seq<char>| #[trigger] self.view().contains_key(k) && self.view()[k] == a by {
                if out@.contains(a) {
                    let j = choose|j: int| 0 <= j < out@.len() && out@[j] == a;
                    lemma_entries_map_value(self.entries@, j);
                    assert(self.view().contains_key(self.entries@[j].0@));
                }
                if exists|k: Seq<char>| #[trigger] self.view().contains_key(k) && self.view()[k] == a {
                    let k = choose|k: Seq<char>| #[trigger] self.view().contains_key(k) && self.view()[k] == a;
                    lemma_entries_map_contains(self.entries@, k);
                    let j = choose|j: int| 0 <= j < self.entries@.len() && (#[trigger] self.entries@[j]).0@ == k;
                    lemma_entries_map_value(self.entries@, j);
                    assert(out@[j] == a);
                }
            }
        }
        out
    }
}

proof fn lemma_entries_dom(e: Seq<(String, SocketAddress)>)
    requires
        forall|p: int, q: int| 0 <= p < q < e.len() ==> (#[trigger] e[p]).0@ != (#[trigger] e[q]).0@,
    ensures
        entries_map(e).dom().finite(),
        entries_map(e).dom().len() == e.len(),
    decreases e.len(),
{
    if e.len() > 0 {
        lemma_entries_dom(e.drop_last());
        lemma_entries_map_contains(e.drop_last(), e.last().0@);
        assert(!entries_map(e.drop_last()).contains_key(e.last().0@));
    }
}

/// Records `candidate` as the peer of `instance_id`: a new instance gets it;
/// a known instance switches to it only when it is a loopback address and the
/// recorded one is not, so that a peer on this machine is reached locally.
pub fn insert_preferred_peer(peers: &mut PeerTable, instance_id: String, candidate: SocketAddress)
    ensures
        final(peers).wf(),
        final(peers).view() == if !old(peers).view().contains_key(instance_id@) {
            old(peers).view().insert(instance_id@, candidate)
        } else if ip_is_loopback(candidate.ip) && !ip_is_loopback(old(peers).view()[instance_id@].ip) {
            old(peers).view().insert(instance_id@, candidate)
        } else {
            old(peers).view()
        },
{
    proof {
        use_type_invariant(&*peers);
    }
    let mut i: usize = 0;
    while i < peers.entries.len()
        invariant
            peers.wf(),
            peers == old(peers),
            i <= peers.entries@.len(),
            forall|k: int| 0 <= k < i ==> (#[trigger] peers.entries@[k]).0@ != instance_id@,
        decreases peers.entries@.len() - i,
    {
        if peers.entries[i].0 == instance_id {
            proof {
                lemma_entries_map_value(peers.entries@, i as int);
            }
            let existing = peers.entries[i].1;
            if candidate.ip.is_loopback() && !existing.ip.is_loopback() {
                let mut entries: Vec<(String, SocketAddress)> = Vec::new();
                std::mem::swap(&mut entries, &mut peers.entries);
                let ghost before = entries@;
                let key = entries[i].0.clone();
                entries.set(i, (key, candidate));
                proof {
                    assert(entries@ =~= before.update(i as int, (before[i as int].0, candidate)));
                    lemma_entries_map_update(before, i as int, candidate);
                    assert forall|p: int, q: int| 0 <= p < q < entries@.len() implies (#[trigger] entries@[p]).0@ != (#[trigger] entries@[q]).0@ by {
                        assert(before[p].0@ != before[q].0@);
                    }
                }
                peers.entries = entries;
            }
            return;
        }
        i = i + 1;
    }
    proof {
        lemma_entries_map_contains(peers.entries@, instance_id@);
    }
    let mut entries: Vec<(String, SocketAddress)> = Vec::new();
    std::mem::swap(&mut entries, &mut peers.entries);
    let ghost before = entries@;
    entries.push((instance_id, candidate));
    proof {
        assert(entries@.drop_last() =~= before);
    }
    peers.entries = entries;
}

} // verus!
