use blazingly_aasa_mcp::resolver::{is_public, IpAddress, PublicOnlyResolver, ResolvedAddress};

/// Dotted-decimal IPv4 text as four octets.
fn v4(text: &str) -> Option<[u8; 4]> {
    let parts: Vec<u8> = text.split('.').map(|p| p.parse().ok()).collect::<Option<_>>()?;
    parts.try_into().ok()
}

/// Test address text, IPv4 or IPv6 (with `::` and an embedded IPv4 tail), as an address.
fn ip(text: &str) -> IpAddress {
    if let Some(octets) = v4(text) {
        return IpAddress::V4(octets);
    }
    let groups = |part: &str| -> Vec<u16> {
        let mut out = Vec::new();
        for group in part.split(':').filter(|g| !g.is_empty()) {
            match v4(group) {
                Some(o) => {
                    out.push(u16::from(o[0]) << 8 | u16::from(o[1]));
                    out.push(u16::from(o[2]) << 8 | u16::from(o[3]));
                }
                None => out.push(u16::from_str_radix(group, 16).expect("test address should parse")),
            }
        }
        out
    };
    let (head, tail) = match text.split_once("::") {
        Some((h, t)) => (groups(h), groups(t)),
        None => (groups(text), Vec::new()),
    };
    let mut segments = [0u16; 8];
    segments[..head.len()].copy_from_slice(&head);
    segments[8 - tail.len()..].copy_from_slice(&tail);
    IpAddress::V6(segments)
}

#[test]
fn local_addresses_are_refused() {
    for text in [
        "127.0.0.1",
        "127.1.2.3",
        "0.0.0.0",
        "10.0.0.5",
        "172.16.0.1",
        "172.31.255.255",
        "192.168.1.1",
        "169.254.169.254", // the cloud metadata endpoint
        "100.64.0.1",      // carrier-grade NAT
        "192.0.0.1",
        "198.18.0.1",
        "240.0.0.1",
        "255.255.255.255",
        "224.0.0.1",
        "::1",
        "::",
        "fc00::1",
        "fd12:3456::1",
        "fe80::1",
        "ff02::1",
        "::ffff:127.0.0.1", // IPv4-mapped loopback
        "::ffff:10.0.0.1",
        "::ffff:169.254.169.254",
    ] {
        assert!(!is_public(ip(text)), "{text} should be refused");
    }
}

#[test]
fn public_addresses_are_allowed() {
    for text in [
        "1.1.1.1",
        "8.8.8.8",
        "93.184.216.34",
        "172.32.0.1",      // just outside 172.16/12
        "172.15.0.1",      // just below it
        "100.63.0.1",      // just below carrier-grade NAT
        "100.128.0.1",     // just above it
        "192.0.1.1",       // just outside 192.0.0/24
        "198.20.0.1",      // just outside the benchmarking range
        "223.255.255.255", // just below multicast
        "2606:4700:4700::1111",
        "2001:4860:4860::8888",
        "::ffff:8.8.8.8", // IPv4-mapped public
    ] {
        assert!(is_public(ip(text)), "{text} should be allowed");
    }
}

#[test]
fn the_boundaries_of_each_range_are_where_they_should_be() {
    assert!(!is_public(ip("10.255.255.255")));
    assert!(is_public(ip("11.0.0.0")));
    assert!(!is_public(ip("169.254.0.0")));
    assert!(is_public(ip("169.255.0.0")));
    assert!(!is_public(ip("239.0.0.1")), "224/4 is multicast");
    assert!(!is_public(ip("fcff::1")));
    assert!(is_public(ip("fe00::1")), "fe00::/9 is not link local");
}

#[test]
fn documentation_ranges_and_compatible_addresses_are_refused() {
    for text in ["192.0.2.1", "198.51.100.7", "203.0.113.9", "::127.0.0.1", "::10.1.2.3"] {
        assert!(!is_public(ip(text)), "{text} should be refused");
    }
    assert!(is_public(ip("::8.8.8.8")));
}

#[test]
fn a_mapped_address_is_judged_as_the_address_it_reaches() {
    for text in ["127.0.0.1", "8.8.8.8", "10.0.0.1", "93.184.216.34"] {
        let mapped = format!("::ffff:{text}");
        assert_eq!(is_public(ip(text)), is_public(ip(&mapped)), "{text}");
    }
}

fn resolved(texts: &[&str]) -> Vec<ResolvedAddress> {
    texts
        .iter()
        .map(|t| ResolvedAddress { ip: ip(t), text: (*t).to_owned() })
        .collect()
}

#[test]
fn only_public_addresses_reach_the_client() {
    let mut resolver = PublicOnlyResolver::new(Vec::new());
    let kept = resolver
        .screen("mixed.example", &resolved(&["127.0.0.1", "93.184.216.34", "10.0.0.1", "1.1.1.1"]))
        .expect("two public addresses");
    assert_eq!(kept, vec![1, 3]);
    assert_eq!(resolver.first_rejection(), None);
}

#[test]
fn a_host_that_resolves_locally_is_refused_with_a_reason() {
    let mut resolver = PublicOnlyResolver::new(Vec::new());
    assert!(resolver
        .screen("localtest.me", &resolved(&["127.0.0.1", "::1"]))
        .is_none());
    assert_eq!(
        resolver.first_rejection().as_deref(),
        Some("localtest.me resolves to 127.0.0.1, ::1, which is inside the local network; refusing to connect")
    );
    assert!(resolver.screen("nothing.example", &Vec::new()).is_none());
    assert_eq!(
        resolver.first_rejection().as_deref(),
        Some("localtest.me resolves to 127.0.0.1, ::1, which is inside the local network; refusing to connect"),
        "the first reason is kept"
    );
    let mut fresh = PublicOnlyResolver::new(Vec::new());
    assert!(fresh.screen("nothing.example", &Vec::new()).is_none());
    assert_eq!(
        fresh.first_rejection().as_deref(),
        Some("nothing.example did not resolve to any address")
    );
}

#[test]
fn at_most_sixteen_addresses_are_kept() {
    let many: Vec<String> = (1..=20).map(|i| format!("1.1.1.{i}")).collect();
    let texts: Vec<&str> = many.iter().map(String::as_str).collect();
    let mut resolver = PublicOnlyResolver::new(Vec::new());
    let kept = resolver.screen("many.example", &resolved(&texts)).unwrap();
    assert_eq!(kept, (0..16).collect::<Vec<usize>>());
}
