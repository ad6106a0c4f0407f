//! Unit tests for the address model.

use mio::net::{AddressFamily, InetSocketAddr, IpAddr, SockAddr};

#[test]
fn family_of_each_variant() {
    let v4 = SockAddr::InetAddr(IpAddr::V4(10, 0, 0, 1), 80);
    let v6 = SockAddr::InetAddr(IpAddr::V6([0, 0, 0, 0, 0, 0, 0, 1]), 80);
    let unix = SockAddr::from_path(String::from("/tmp/sock"));
    assert_eq!(v4.family(), AddressFamily::Inet);
    assert_eq!(v6.family(), AddressFamily::Inet6);
    assert_eq!(unix.family(), AddressFamily::Unix);
}

#[test]
fn std_pair_conversions_roundtrip() {
    let pair = InetSocketAddr { ip: IpAddr::V4(192, 168, 0, 7), port: 8080 };
    let a = SockAddr::from_std(&pair);
    assert_eq!(a, SockAddr::InetAddr(IpAddr::V4(192, 168, 0, 7), 8080));
    assert_eq!(a.to_std(), Some(pair));
    assert_eq!(a.into_std(), Some(pair));

    let b = SockAddr::consume_std(pair);
    assert_eq!(b, SockAddr::InetAddr(IpAddr::V4(192, 168, 0, 7), 8080));

    let unix = SockAddr::from_path(String::from("/tmp/sock"));
    assert_eq!(unix.to_std(), None);
    assert_eq!(unix.into_std(), None);
}

#[test]
fn parse_accepts_canonical_dotted_quads() {
    assert_eq!(
        SockAddr::parse("127.0.0.1:13265"),
        Ok(SockAddr::InetAddr(IpAddr::V4(127, 0, 0, 1), 13265))
    );
    assert_eq!(
        SockAddr::parse("0.0.0.0:0"),
        Ok(SockAddr::InetAddr(IpAddr::V4(0, 0, 0, 0), 0))
    );
    assert_eq!(
        SockAddr::parse("255.255.255.255:65535"),
        Ok(SockAddr::InetAddr(IpAddr::V4(255, 255, 255, 255), 65535))
    );
    assert_eq!(
        SockAddr::parse("10.0.200.7:8080"),
        Ok(SockAddr::InetAddr(IpAddr::V4(10, 0, 200, 7), 8080))
    );
}

#[test]
fn parse_accepts_leading_zeros() {
    assert_eq!(
        SockAddr::parse("01.2.3.4:5"),
        Ok(SockAddr::InetAddr(IpAddr::V4(1, 2, 3, 4), 5))
    );
    assert_eq!(
        SockAddr::parse("1.2.3.4:007"),
        Ok(SockAddr::InetAddr(IpAddr::V4(1, 2, 3, 4), 7))
    );
    assert_eq!(
        SockAddr::parse("010.001.000.009:00080"),
        Ok(SockAddr::InetAddr(IpAddr::V4(10, 1, 0, 9), 80))
    );
}

#[test]
fn parse_rejects_everything_else() {
    for s in [
        "",
        "1",
        "1.2.3.4",
        "1.2.3.4:",
        "1.2.3:80",
        "1.2.3.4.5:80",
        "256.0.0.1:80",
        "1.2.3.4:65536",
        "1.2.3.4:80 ",
        " 1.2.3.4:80",
        "a.b.c.d:e",
        "1..2.3:80",
        "1.2.3.4::80",
        "0000000000.0.0.1:2",
        "1.2.3.4:000080",
    ] {
        assert!(SockAddr::parse(s).is_err(), "accepted: {:?}", s);
    }
}

#[test]
fn display_renders_canonically_and_round_trips() {
    let a = SockAddr::InetAddr(IpAddr::V4(192, 168, 0, 7), 8080);
    let bytes = a.display_bytes().unwrap();
    assert_eq!(String::from_utf8(bytes.clone()).unwrap(), "192.168.0.7:8080");
    let rendered = String::from_utf8(bytes).unwrap();
    assert_eq!(SockAddr::parse(rendered.as_str()), Ok(a));

    let unix = SockAddr::from_path(String::from("/tmp/sock"));
    assert!(unix.display_bytes().is_none());
}

#[test]
fn parse_accepts_bracketed_v6() {
    assert_eq!(
        SockAddr::parse("[::1]:80"),
        Ok(SockAddr::InetAddr(IpAddr::V6([0, 0, 0, 0, 0, 0, 0, 1]), 80))
    );
    assert_eq!(
        SockAddr::parse("[::]:0"),
        Ok(SockAddr::InetAddr(IpAddr::V6([0, 0, 0, 0, 0, 0, 0, 0]), 0))
    );
    assert_eq!(
        SockAddr::parse("[1:2:3:4:5:6:7:8]:9"),
        Ok(SockAddr::InetAddr(IpAddr::V6([1, 2, 3, 4, 5, 6, 7, 8]), 9))
    );
    assert_eq!(
        SockAddr::parse("[2001:db8::8:800:200c:417a]:443"),
        Ok(SockAddr::InetAddr(
            IpAddr::V6([0x2001, 0xdb8, 0, 0, 8, 0x800, 0x200c, 0x417a]),
            443
        ))
    );
    assert_eq!(
        SockAddr::parse("[fe80::1]:10"),
        Ok(SockAddr::InetAddr(IpAddr::V6([0xfe80, 0, 0, 0, 0, 0, 0, 1]), 10))
    );
    assert_eq!(
        SockAddr::parse("[A:b:C:d:E:f:0:1]:2"),
        Ok(SockAddr::InetAddr(IpAddr::V6([0xa, 0xb, 0xc, 0xd, 0xe, 0xf, 0, 1]), 2))
    );
    assert_eq!(
        SockAddr::parse("[1::]:5"),
        Ok(SockAddr::InetAddr(IpAddr::V6([1, 0, 0, 0, 0, 0, 0, 0]), 5))
    );
}

#[test]
fn parse_rejects_malformed_v6() {
    for s in [
        "[:::1]:8",
        "[1::2::3]:4",
        "[12345::1]:2",
        "[1:2:3:4:5:6:7]:8",
        "[1:2:3:4:5:6:7:8:9]:1",
        "[1:2:3:4:5:6:7:8::]:1",
        "[::1]",
        "[::1]:",
        "[::1]x:2",
        "::1:80",
        "[g::1]:2",
        "[]:2",
        "[1:]:2",
        "[1:2:3:4:5:6:7:8]:65536",
    ] {
        assert!(SockAddr::parse(s).is_err(), "accepted: {:?}", s);
    }
}

#[test]
fn v6_display_renders_full_groups_and_round_trips() {
    let a = SockAddr::InetAddr(IpAddr::V6([0x2001, 0xdb8, 0, 0, 0, 8, 0x800, 0x417a]), 443);
    let bytes = a.display_bytes().unwrap();
    let rendered = String::from_utf8(bytes).unwrap();
    assert_eq!(rendered, "[2001:db8:0:0:0:8:800:417a]:443");
    assert_eq!(SockAddr::parse(rendered.as_str()), Ok(a));
}
