use etle::net::{socket_lt, AddrParseError, IpAddress, Ipv4Address, Ipv6Address, SocketAddress};
use etle::text::{parse_unsigned, split_chars, trim_chars};

fn chars(s: &str) -> Vec<char> {
    s.chars().collect()
}

#[test]
fn ipv4_text_parses_like_std() {
    assert_eq!("192.168.1.20".parse::<Ipv4Address>(), Ok(Ipv4Address::new(192, 168, 1, 20)));
    assert_eq!("0.0.0.0".parse::<Ipv4Address>(), Ok(Ipv4Address::new(0, 0, 0, 0)));
    assert_eq!("256.1.1.1".parse::<Ipv4Address>(), Err(AddrParseError));
    assert_eq!("01.1.1.1".parse::<Ipv4Address>(), Err(AddrParseError));
    assert_eq!("1.1.1".parse::<Ipv4Address>(), Err(AddrParseError));
    assert_eq!("1.1.1.1.".parse::<Ipv4Address>(), Err(AddrParseError));
    assert_eq!("a.b.c.d".parse::<Ipv4Address>(), Err(AddrParseError));
    assert_eq!(Ipv4Address::new(10, 0, 0, 1).to_string(), "10.0.0.1");
}

#[test]
fn socket_text_parses_like_std() {
    let a: SocketAddress = "127.0.0.1:07000".parse().unwrap();
    assert_eq!(a, SocketAddress { ip: IpAddress::V4(Ipv4Address::localhost()), port: 7000 });
    assert!("127.0.0.1:65536".parse::<SocketAddress>().is_err());
    assert!("127.0.0.1".parse::<SocketAddress>().is_err());
    assert!("127.0.0.1:".parse::<SocketAddress>().is_err());
    assert!("127.0.0.1:+1".parse::<SocketAddress>().is_err());
}

#[test]
fn classification() {
    assert!(Ipv4Address::new(224, 0, 0, 1).is_multicast());
    assert!(Ipv4Address::new(239, 255, 255, 255).is_multicast());
    assert!(!Ipv4Address::new(240, 0, 0, 1).is_multicast());
    assert!(IpAddress::V4(Ipv4Address::new(127, 1, 2, 3)).is_loopback());
    assert!(IpAddress::V6(Ipv6Address(1)).is_loopback());
    assert!(IpAddress::V6(Ipv6Address(0)).is_unspecified());
    assert!(!IpAddress::V4(Ipv4Address::new(0, 0, 0, 1)).is_unspecified());
}

#[test]
fn socket_order_matches_std() {
    let list = [
        SocketAddress { ip: IpAddress::V4(Ipv4Address::new(1, 2, 3, 4)), port: 9 },
        SocketAddress { ip: IpAddress::V4(Ipv4Address::new(1, 2, 3, 4)), port: 10 },
        SocketAddress { ip: IpAddress::V4(Ipv4Address::new(1, 2, 4, 0)), port: 1 },
        SocketAddress { ip: IpAddress::V6(Ipv6Address(0)), port: 0 },
    ];
    for i in 0..list.len() {
        for j in 0..list.len() {
            assert_eq!(socket_lt(&list[i], &list[j]), i < j);
            assert_eq!(socket_lt(&list[i], &list[j]), list[i] < list[j]);
        }
    }
}

#[test]
fn text_helpers() {
    assert_eq!(trim_chars(&chars("\u{a0} x y \u{3000}")), chars("x y"));
    assert_eq!(split_chars(&chars("a,,b"), ','), vec![chars("a"), chars(""), chars("b")]);
    assert_eq!(parse_unsigned(&chars("+42"), 100), Some(42));
    assert_eq!(parse_unsigned(&chars("101"), 100), None);
    assert_eq!(parse_unsigned(&chars(""), 100), None);
    assert_eq!(parse_unsigned(&chars("4x"), 100), None);
    assert_eq!(parse_unsigned(&chars("18446744073709551615"), u64::MAX), Some(u64::MAX));
    assert_eq!(parse_unsigned(&chars("18446744073709551616"), u64::MAX), None);
}

#[test]
fn ipv6_text_parses_like_std() {
    assert_eq!("::".parse::<Ipv6Address>(), Ok(Ipv6Address(0)));
    assert_eq!("::1".parse::<Ipv6Address>(), Ok(Ipv6Address(1)));
    assert_eq!("1::".parse::<Ipv6Address>(), Ok(Ipv6Address(1 << 112)));
    assert_eq!("2001:db8::1".parse::<Ipv6Address>(), Ok(Ipv6Address(0x2001_0db8_0000_0000_0000_0000_0000_0001)));
    assert_eq!("1:2:3:4:5:6:7:8".parse::<Ipv6Address>(), Ok(Ipv6Address(0x0001_0002_0003_0004_0005_0006_0007_0008)));
    assert_eq!("::ffff:192.168.1.20".parse::<Ipv6Address>(), Ok(Ipv6Address(0xffff_c0a8_0114)));
    assert_eq!("1:2:3:4:5:6:1.2.3.4".parse::<Ipv6Address>(), Ok(Ipv6Address(0x0001_0002_0003_0004_0005_0006_0102_0304)));
    assert_eq!("ABCD::ef".parse::<Ipv6Address>(), Ok(Ipv6Address((0xabcd << 112) | 0xef)));
    assert_eq!("1::2::3".parse::<Ipv6Address>(), Err(AddrParseError));
    assert_eq!("12345::".parse::<Ipv6Address>(), Err(AddrParseError));
    assert_eq!("1:2:3:4:5:6:7:8:9".parse::<Ipv6Address>(), Err(AddrParseError));
    assert_eq!("1.2.3.4::".parse::<Ipv6Address>(), Err(AddrParseError));
    assert_eq!(":1".parse::<Ipv6Address>(), Err(AddrParseError));
    assert_eq!("1:2:3:4:5:6:7".parse::<Ipv6Address>(), Err(AddrParseError));
}

#[test]
fn ipv6_socket_text_parses_like_std() {
    assert_eq!("[::1]:80".parse::<SocketAddress>(), Ok(SocketAddress { ip: IpAddress::V6(Ipv6Address(1)), port: 80 }));
    assert_eq!(
        "[2001:db8::1]:443".parse::<SocketAddress>(),
        Ok(SocketAddress { ip: IpAddress::V6(Ipv6Address(0x2001_0db8_0000_0000_0000_0000_0000_0001)), port: 443 })
    );
    assert!("[::1]".parse::<SocketAddress>().is_err());
    assert!("::1:80".parse::<SocketAddress>().is_err());
    assert!("[::1]:65536".parse::<SocketAddress>().is_err());
    let text = SocketAddress { ip: IpAddress::V6(Ipv6Address(0x2001_0db8_0000_0000_0001_0000_0000_0001)), port: 7 }.to_string();
    assert_eq!(text, "[2001:db8::1:0:0:1]:7");
    assert_eq!(text.parse::<SocketAddress>().unwrap().to_string(), text);
}
