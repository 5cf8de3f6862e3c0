use etle::discovery::network::{
    active_ipv4_interfaces, advertised_p2p_addr, insert_preferred_peer, query_targets, query_targets_from,
    subnet_broadcast, DiscoveryInterface, InterfaceAddress, PeerTable,
};
use etle::discovery::options::{default_discovery_multicast_addr, DiscoveryOptions, DEFAULT_DISCOVERY_PORT};
use etle::discovery::wire::{accept_response, discovery_instance_id, discovery_query, discovery_response, query_share, DiscoveryMessage, PeerCollector};
use etle::file::descriptor::ShareId;
use etle::net::{IpAddress, Ipv4Address, Ipv6Address, SocketAddress};
use etle::discovery::wire::local_share_name;
use etle::ipc::commands::LocalShare;

fn v4(a: u8, b: u8, c: u8, d: u8, port: u16) -> SocketAddress {
    SocketAddress { ip: IpAddress::V4(Ipv4Address::new(a, b, c, d)), port }
}

#[test]
fn includes_global_loopback_and_multicast_targets() {
    let targets = query_targets(37037, Some(default_discovery_multicast_addr()));

    assert!(targets.contains(&SocketAddress { ip: IpAddress::V4(Ipv4Address::broadcast()), port: 37037 }));
    assert!(targets.contains(&SocketAddress { ip: IpAddress::V4(Ipv4Address::localhost()), port: 37037 }));
    assert!(targets.contains(&SocketAddress { ip: IpAddress::V4(default_discovery_multicast_addr()), port: 37037 }));
}

#[test]
fn computes_subnet_broadcast_from_ip_and_netmask() {
    assert_eq!(
        subnet_broadcast(Ipv4Address::new(192, 168, 1, 23), Ipv4Address::new(255, 255, 255, 0)),
        Some(Ipv4Address::new(192, 168, 1, 255))
    );
}

#[test]
fn advertised_addr_uses_explicit_loopback_listen_addr() {
    let listen = SocketAddress { ip: IpAddress::V4(Ipv4Address::localhost()), port: 7000 };
    let source = IpAddress::V4(Ipv4Address::new(192, 168, 1, 20));

    assert_eq!(advertised_p2p_addr(listen, source), listen);
}

#[test]
fn advertised_addr_keeps_unspecified_listen_addr_for_client_resolution() {
    let listen = SocketAddress { ip: IpAddress::V4(Ipv4Address::unspecified()), port: 7000 };
    let source = IpAddress::V4(Ipv4Address::new(192, 168, 1, 20));

    assert_eq!(advertised_p2p_addr(listen, source), listen);
}

#[test]
fn preferred_peer_deduplicates_same_discovery_instance() {
    let mut peers = PeerTable::new();
    insert_preferred_peer(&mut peers, "same".to_string(), "192.168.1.20:7000".parse().unwrap());
    insert_preferred_peer(&mut peers, "same".to_string(), "127.0.0.1:7000".parse().unwrap());

    assert_eq!(peers.len(), 1);
    assert_eq!(peers.get("same"), Some("127.0.0.1:7000".parse().unwrap()));
}

#[test]
fn preferred_peer_keeps_loopback_over_later_lan_address() {
    let mut peers = PeerTable::new();
    insert_preferred_peer(&mut peers, "same".to_string(), v4(127, 0, 0, 1, 7000));
    insert_preferred_peer(&mut peers, "same".to_string(), v4(192, 168, 1, 20, 7000));
    insert_preferred_peer(&mut peers, "other".to_string(), v4(10, 0, 0, 2, 7000));

    assert_eq!(peers.len(), 2);
    assert_eq!(peers.get("same"), Some(v4(127, 0, 0, 1, 7000)));
    assert_eq!(peers.get("other"), Some(v4(10, 0, 0, 2, 7000)));
    assert_eq!(peers.get("missing"), None);
}

#[test]
fn subnet_broadcast_of_host_mask_is_none() {
    assert_eq!(subnet_broadcast(Ipv4Address::new(10, 1, 2, 3), Ipv4Address::new(255, 255, 255, 255)), None);
    assert_eq!(
        subnet_broadcast(Ipv4Address::new(10, 1, 2, 3), Ipv4Address::new(255, 0, 0, 0)),
        Some(Ipv4Address::new(10, 255, 255, 255))
    );
}

#[test]
fn query_targets_are_sorted_and_unique() {
    let interfaces = vec![
        DiscoveryInterface { ip: Ipv4Address::new(192, 168, 1, 23), broadcast: Some(Ipv4Address::new(192, 168, 1, 255)) },
        DiscoveryInterface { ip: Ipv4Address::new(192, 168, 1, 24), broadcast: Some(Ipv4Address::new(192, 168, 1, 255)) },
        DiscoveryInterface { ip: Ipv4Address::new(10, 0, 0, 5), broadcast: None },
    ];
    let targets = query_targets_from(9000, Some(Ipv4Address::new(239, 255, 0, 86)), &interfaces);

    assert_eq!(
        targets,
        vec![v4(127, 0, 0, 1, 9000), v4(192, 168, 1, 255, 9000), v4(239, 255, 0, 86, 9000), v4(255, 255, 255, 255, 9000)]
    );
}

#[test]
fn query_targets_skip_non_multicast_group() {
    let targets = query_targets_from(9000, Some(Ipv4Address::new(192, 168, 1, 1)), &[]);

    assert_eq!(targets, vec![v4(127, 0, 0, 1, 9000), v4(255, 255, 255, 255, 9000)]);
}

#[test]
fn active_interfaces_skip_ipv6_and_unspecified_and_fill_broadcast() {
    let addrs = vec![
        InterfaceAddress::V6,
        InterfaceAddress::V4([0, 0, 0, 0], [255, 0, 0, 0], None),
        InterfaceAddress::V4([192, 168, 1, 23], [255, 255, 255, 0], None),
        InterfaceAddress::V4([10, 0, 0, 5], [255, 0, 0, 0], Some([10, 0, 0, 255])),
    ];
    let active = active_ipv4_interfaces(&addrs);

    assert_eq!(
        active,
        vec![
            DiscoveryInterface { ip: Ipv4Address::new(192, 168, 1, 23), broadcast: Some(Ipv4Address::new(192, 168, 1, 255)) },
            DiscoveryInterface { ip: Ipv4Address::new(10, 0, 0, 5), broadcast: Some(Ipv4Address::new(10, 0, 0, 255)) },
        ]
    );
}

#[test]
fn options_builders_set_fields() {
    let options = DiscoveryOptions::new(DEFAULT_DISCOVERY_PORT);
    assert_eq!(options.port, 37037);
    assert_eq!(options.timeout_ms, 3000);
    assert_eq!(options.multicast, Some(Ipv4Address::new(239, 255, 0, 86)));
    assert!(!options.verbose);

    let options = options.with_timeout(500).with_verbose(true).with_multicast(Ipv4Address::new(10, 0, 0, 1));
    assert_eq!(options.timeout_ms, 500);
    assert!(options.verbose);
    assert_eq!(options.multicast, None);

    let options = options.with_multicast(Ipv4Address::new(224, 0, 0, 1));
    assert_eq!(options.multicast, Some(Ipv4Address::new(224, 0, 0, 1)));
    assert_eq!(options.without_multicast().multicast, None);
}

#[test]
fn server_answers_only_queries_with_magic() {
    let share = ShareId([7_u8; 32]);
    assert_eq!(query_share(&discovery_query(share)), Some(share));

    let wrong = DiscoveryMessage::Query { magic: "other".to_string(), share_id: share };
    assert_eq!(query_share(&wrong), None);

    let listen = v4(0, 0, 0, 0, 7000);
    let response = discovery_response(share, "movie.mkv".to_string(), listen, "peer-a", "inst-1");
    assert_eq!(query_share(&response), None);
    match response {
        DiscoveryMessage::Response { magic, listen_addr, listen_port, name, .. } => {
            assert_eq!(magic, "etle-discovery-v1");
            assert_eq!(listen_addr, listen);
            assert_eq!(listen_port, 7000);
            assert_eq!(name, "movie.mkv");
        }
        DiscoveryMessage::Query { .. } => panic!("expected a response"),
    }
}

#[test]
fn client_resolves_unspecified_listen_address_from_source() {
    let share = ShareId([7_u8; 32]);
    let response = discovery_response(share, "f".to_string(), v4(0, 0, 0, 0, 7000), "peer", "inst");
    let source = v4(192, 168, 1, 20, 37037);

    let accepted = accept_response(&response, share, source).unwrap();
    assert_eq!(accepted.0, "inst");
    assert_eq!(accepted.1, v4(192, 168, 1, 20, 7000));

    assert_eq!(accept_response(&response, ShareId([8_u8; 32]), source), None);

    let explicit = discovery_response(share, "f".to_string(), v4(10, 0, 0, 9, 7100), "peer", "inst");
    assert_eq!(accept_response(&explicit, share, source).unwrap().1, v4(10, 0, 0, 9, 7100));
}

#[test]
fn collector_merges_anonymous_and_instance_peers() {
    let mut collector = PeerCollector::new();
    collector.add(String::new(), v4(10, 0, 0, 2, 7000));
    collector.add(String::new(), v4(10, 0, 0, 1, 7000));
    collector.add(String::new(), v4(10, 0, 0, 2, 7000));
    collector.add("a".to_string(), v4(192, 168, 1, 20, 7000));
    collector.add("a".to_string(), v4(127, 0, 0, 1, 7000));

    assert_eq!(collector.finish(), vec![v4(10, 0, 0, 1, 7000), v4(10, 0, 0, 2, 7000), v4(127, 0, 0, 1, 7000)]);
}

#[test]
fn instance_id_is_hex_digest_of_identity() {
    let first = discovery_instance_id("/lib", v4(0, 0, 0, 0, 7000), "peer", 42);
    let second = discovery_instance_id("/lib", v4(0, 0, 0, 0, 7000), "peer", 42);
    let other = discovery_instance_id("/lib", v4(0, 0, 0, 0, 7000), "peer", 43);

    assert_eq!(first.len(), 64);
    assert_eq!(first, second);
    assert_ne!(first, other);
    let mut input = Vec::new();
    input.extend_from_slice(b"etle-discovery-v1");
    input.extend_from_slice(b"peer");
    input.extend_from_slice(b"/lib");
    input.extend_from_slice(b"0.0.0.0:7000");
    input.extend_from_slice(b"42");
    assert_eq!(first, blake3::hash(&input).to_hex().to_string());
}

#[test]
fn socket_addresses_format_like_std() {
    assert_eq!(v4(192, 168, 1, 20, 7000).to_string(), "192.168.1.20:7000");
    let loopback6 = SocketAddress { ip: IpAddress::V6(Ipv6Address(1)), port: 80 };
    assert_eq!(loopback6.to_string(), "[::1]:80");
    let mapped = SocketAddress { ip: IpAddress::V6(Ipv6Address(0xffff_c0a8_0114)), port: 1 };
    assert_eq!(mapped.to_string(), "[::ffff:192.168.1.20]:1");
    let doc = IpAddress::V6(Ipv6Address(0x2001_0db8_0000_0000_0001_0000_0000_0001));
    assert_eq!(doc.to_string(), "2001:db8::1:0:0:1");
    assert_eq!(IpAddress::V6(Ipv6Address(0)).to_string(), "::");
    let full = IpAddress::V6(Ipv6Address(0x2001_0db8_0001_0002_0003_0004_0005_0006));
    assert_eq!(full.to_string(), "2001:db8:1:2:3:4:5:6");
}

#[test]
fn queries_are_answered_for_servable_shares_only() {
    let local = |byte: u8, name: &str, has_secret: bool, completed_chunks: usize| LocalShare {
        share_id: ShareId([byte; 32]),
        name: name.to_string(),
        completed_chunks,
        total_chunks: 4,
        has_secret,
        mode: None,
    };
    let shares = vec![local(1, "no-key", false, 4), local(1, "empty", true, 0), local(1, "served", true, 2), local(1, "later", true, 4)];
    assert_eq!(local_share_name(&shares, ShareId([1; 32])), Some("served".to_string()));
    assert_eq!(local_share_name(&shares, ShareId([2; 32])), None);
    assert_eq!(local_share_name(&shares[..2], ShareId([1; 32])), None);
}
