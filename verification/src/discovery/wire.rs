//! Discovery messages and the decisions the server and client make on them.

use vstd::prelude::*;

use crate::bytes::{hex_lower, hex_lower_chars, string_from_chars, extend_bytes};
use crate::crypto::hash::{blake3_digest, hash_bytes};
use crate::discovery::network::{
    insert_preferred_peer, insert_sorted, strictly_ascending, PeerTable,
};
use crate::discovery::options::DISCOVERY_MAGIC;
use crate::file::descriptor::ShareId;
use crate::ipc::commands::LocalShare;
use crate::net::{ip_is_unspecified, socket_text, SocketAddress};
use vstd::utf8::encode_utf8;

verus! {

/// A discovery datagram: a query for a share, or a seeder's response.
#[derive(Clone, Debug)]
pub enum DiscoveryMessage {
    Query {
        magic: String,
        share_id: ShareId,
    },
    Response {
        magic: String,
        share_id: ShareId,
        listen_addr: SocketAddress,
        listen_port: u16,
        peer_id: String,
        instance_id: String,
        name: String,
    },
}

/// The share a datagram asks for, when it is a query with the right magic.
pub open spec fn queried_share(message: DiscoveryMessage) -> Option<ShareId> {
    match message {
        DiscoveryMessage::Query { magic, share_id } => if magic@ == DISCOVERY_MAGIC@ { Some(share_id) } else { None },
        _ => None,
    }
}

/// The query for a share.
pub fn discovery_query(share_id: ShareId) -> (r: DiscoveryMessage)
    ensures
        queried_share(r) == Some(share_id),
{
    DiscoveryMessage::Query { magic: DISCOVERY_MAGIC.to_string(), share_id }
}

/// The share a received datagram asks for: `None` when it is a response or
/// carries another magic, and the server drops it.
pub fn query_share(message: &DiscoveryMessage) -> (r: Option<ShareId>)
    ensures
        r == queried_share(*message),
{
    match message {
        DiscoveryMessage::Query { magic, share_id } => {
            if crate::text::str_equal(magic.as_str(), DISCOVERY_MAGIC) {
                Some(*share_id)
            } else {
                None
            }
        },
        DiscoveryMessage::Response { .. } => None,
    }
}

/// The server's response to a query for a share it holds under `name`: its
/// advertised listen address and port, peer id and instance id.
pub fn discovery_response(share_id: ShareId, name: String, p2p_listen: SocketAddress, peer_id: &str, instance_id: &str) -> (r: DiscoveryMessage)
    ensures
        r matches DiscoveryMessage::Response { magic, share_id: s, listen_addr, listen_port, peer_id: p, instance_id: i, name: n } && {
            &&& magic@ == DISCOVERY_MAGIC@
            &&& s == share_id
            &&& listen_addr == p2p_listen
            &&& listen_port == p2p_listen.port
            &&& p@ == peer_id@
            &&& i@ == instance_id@
            &&& n@ == name@
        },
{
    let listen_addr = crate::discovery::network::advertised_p2p_addr(p2p_listen, p2p_listen.ip);
    DiscoveryMessage::Response {
        magic: DISCOVERY_MAGIC.to_string(),
        share_id,
        listen_addr,
        listen_port: p2p_listen.port,
        peer_id: peer_id.to_owned(),
        instance_id: instance_id.to_owned(),
        name,
    }
}

/// The peer that a response for `share_id` from `source` names, with its
/// instance id: the advertised address, or, when that is unspecified, the
/// source's IP address with the advertised port.
pub open spec fn response_peer(message: DiscoveryMessage, share_id: ShareId, source: SocketAddress) -> Option<(Seq<char>, SocketAddress)> {
    match message {
        DiscoveryMessage::Response { magic, share_id: s, listen_addr, listen_port, instance_id, .. } => {
            if magic@ == DISCOVERY_MAGIC@ && s.0@ == share_id.0@ {
                let peer = if ip_is_unspecified(listen_addr.ip) {
                    SocketAddress { ip: source.ip, port: listen_port }
                } else {
                    listen_addr
                };
                Some((instance_id@, peer))
            } else {
                None
            }
        },
        _ => None,
    }
}

/// The peer and instance id that a received datagram offers for `share_id`;
/// `None` when the client ignores it.
pub fn accept_response(message: &DiscoveryMessage, share_id: ShareId, source: SocketAddress) -> (r: Option<(String, SocketAddress)>)
    ensures
        match response_peer(*message, share_id, source) {
            Some((id, peer)) => r matches Some((i, p)) && i@ == id && p == peer,
            None => r is None,
        },
{
    match message {
        DiscoveryMessage::Response { magic, share_id: s, listen_addr, listen_port, instance_id, .. } => {
            if !crate::text::str_equal(magic.as_str(), DISCOVERY_MAGIC) || !(*s == share_id) {
                return None;
            }
            let peer = if listen_addr.ip.is_unspecified() {
                SocketAddress { ip: source.ip, port: *listen_port }
            } else {
                *listen_addr
            };
            Some((instance_id.clone(), peer))
        },
        DiscoveryMessage::Query { .. } => None,
    }
}

/// The peers a client has collected: those without an instance id, as a
/// sorted set, and one per discovery instance.
pub struct PeerCollector {
    pub anonymous: Vec<SocketAddress>,
    pub by_instance: PeerTable,
}

impl PeerCollector {
    /// The collector is consistent: the anonymous peers are sorted and the
    /// instance table is well formed.
    pub open spec fn wf(&self) -> bool {
        strictly_ascending(self.anonymous@) && self.by_instance.wf()
    }

    /// No peers yet.
    pub fn new() -> (r: Self)
        ensures
            r.wf(),
            r.anonymous@ == Seq::<SocketAddress>::empty(),
            r.by_instance.view() == Map::<Seq<char>, SocketAddress>::empty(),
    {
        PeerCollector { anonymous: Vec::new(), by_instance: PeerTable::new() }
    }

    /// Records a peer: one without an instance id joins the anonymous set; one
    /// with an instance id is kept per instance, preferring a loopback address.
    pub fn add(&mut self, instance_id: String, peer: SocketAddress)
        requires
            old(self).wf(),
        ensures
            final(self).wf(),
            instance_id@.len() == 0 ==> {
                &&& final(self).anonymous@.to_set() == old(self).anonymous@.to_set().insert(peer)
                &&& final(self).by_instance.view() == old(self).by_instance.view()
            },
            instance_id@.len() > 0 ==> {
                &&& final(self).anonymous@ == old(self).anonymous@
                &&& final(self).by_instance.view() == if !old(self).by_instance.view().contains_key(instance_id@) {
                    old(self).by_instance.view().insert(instance_id@, peer)
                } else if crate::net::ip_is_loopback(peer.ip) && !crate::net::ip_is_loopback(old(self).by_instance.view()[instance_id@].ip) {
                    old(self).by_instance.view().insert(instance_id@, peer)
                } else {
                    old(self).by_instance.view()
                }
            },
    {
        if instance_id.as_str().is_empty() {
            insert_sorted(&mut self.anonymous, peer);
        } else {
            insert_preferred_peer(&mut self.by_instance, instance_id, peer);
        }
    }

    /// All peers found, in ascending order without repetition.
    pub fn finish(self) -> (r: Vec<SocketAddress>)
        requires
            self.wf(),
        ensures
            strictly_ascending(r@),
            forall|a: SocketAddress| r@.contains(a) <==> (self.anonymous@.contains(a) || exists|k: Seq<char>| #[trigger] self.by_instance.view().contains_key(k) && self.by_instance.view()[k] == a),
    {
        let values = self.by_instance.values();
        let mut out = self.anonymous;
        let ghost anon = out@;
        let mut i: usize = 0;
        while i < values.len()
            invariant
                i <= values@.len(),
                strictly_ascending(out@),
                out@.to_set() == anon.to_set() + values@.take(i as int).to_set(),
            decreases values@.len() - i,
        {
            insert_sorted(&mut out, values[i]);
            proof {
                assert(values@.take(i + 1) =~= values@.take(i as int).push(values@[i as int]));
                values@.take(i as int).lemma_push_to_set_commute(values@[i as int]);
                assert(out@.to_set() =~= anon.to_set() + values@.take(i + 1).to_set());
            }
            i = i + 1;
        }
        proof {
            assert(values@.take(values@.len() as int) =~= values@);
            assert forall|a: SocketAddress| out@.contains(a) <==> (anon.contains(a) || values@.contains(a)) by {
                assert(out@.contains(a) <==> out@.to_set().contains(a));
                assert(anon.contains(a) <==> anon.to_set().contains(a));
                assert(values@.contains(a) <==> values@.to_set().contains(a));
            }
        }
        out
    }
}

/// The input hashed into a discovery instance id: the magic, the peer id, the
/// library root, the listen address text and the process id in decimal.
pub open spec fn instance_id_input(library_root: Seq<char>, p2p_listen: SocketAddress, peer_id: Seq<char>, process_id: u32) -> Seq<u8> {
    encode_utf8(DISCOVERY_MAGIC@) + encode_utf8(peer_id) + encode_utf8(library_root) + encode_utf8(socket_text(p2p_listen))
        + encode_utf8(crate::bytes::decimal(process_id as nat))
}

/// The id of one running discovery server: the lowercase hexadecimal BLAKE3
/// digest of its magic, peer id, library root, listen address and process id,
/// so that one server seen on several interfaces counts once.
pub fn discovery_instance_id(library_root: &str, p2p_listen: SocketAddress, peer_id: &str, process_id: u32) -> (r: String)
    ensures
        r@ == hex_lower(blake3_digest(instance_id_input(library_root@, p2p_listen, peer_id@, process_id))),
{
    let mut input: Vec<u8> = Vec::new();
    extend_bytes(&mut input, DISCOVERY_MAGIC.as_bytes());
    extend_bytes(&mut input, peer_id.as_bytes());
    extend_bytes(&mut input, library_root.as_bytes());
    let listen = p2p_listen.to_string();
    extend_bytes(&mut input, listen.as_str().as_bytes());
    let pid = crate::bytes::decimal_string(process_id as u64);
    extend_bytes(&mut input, pid.as_str().as_bytes());
    let digest = hash_bytes(input.as_slice());
    let chars = hex_lower_chars(&digest);
    string_from_chars(chars.as_slice())
}

/// Local share `s` can be served for `share_id`: it is that share, its key
/// is held, and it has a chunk.
pub open spec fn serves(s: LocalShare, share_id: ShareId) -> bool {
    s.share_id.0@ == share_id.0@ && s.has_secret && s.completed_chunks > 0
}

/// The name under which this peer answers a query for `share_id`: that of
/// the first local share that can be served for it, if any.
pub fn local_share_name(shares: &[LocalShare], share_id: ShareId) -> (r: Option<String>)
    ensures
        match r {
            Some(n) => exists|i: int|
                0 <= i < shares@.len() && #[trigger] serves(shares@[i], share_id) && n@ == shares@[i].name@ && forall|k: int|
                    0 <= k < i ==> !serves(#[trigger] shares@[k], share_id),
            None => forall|k: int| 0 <= k < shares@.len() ==> !serves(#[trigger] shares@[k], share_id),
        },
{
    let mut i: usize = 0;
    while i < shares.len()
        invariant
            i <= shares@.len(),
            forall|k: int| 0 <= k < i ==> !serves(#[trigger] shares@[k], share_id),
        decreases shares@.len() - i,
    {
        let s = &shares[i];
        if s.share_id == share_id && s.has_secret && s.completed_chunks > 0 {
            assert(serves(shares@[i as int], share_id));
            return Some(s.name.clone());
        }
        i = i + 1;
    }
    None
}

} // verus!
