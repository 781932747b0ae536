use relay_rs::client_ip::{
    parse_address, parse_trusted_proxy_cidrs, ClientIpResolver, IpAddress, IpNetwork,
    MAX_FORWARDED_FOR_HOPS,
};
use relay_rs::error::ClientIpError;
use relay_rs::text::trim;

fn resolver(cidrs: &str) -> ClientIpResolver {
    ClientIpResolver::new(parse_trusted_proxy_cidrs(cidrs).ok().unwrap())
}

fn ip(text: &str) -> IpAddress {
    parse_address(text).unwrap()
}

#[test]
fn untrusted_peer_ignores_forwarded_for() {
    let r = resolver("");
    let peer = ip("203.0.113.5");
    let resolved = r.resolve(peer, &["198.51.100.1"]).unwrap();
    assert_eq!(resolved, peer);
}

#[test]
fn trusted_peer_uses_rightmost_untrusted_hop() {
    let r = resolver("10.0.0.0/8");
    let peer = ip("10.0.0.1");
    // The rightmost hop is the real client; the one left of it is not
    // consulted, since the walk stops at the first untrusted hop from the right.
    let resolved = r.resolve(peer, &["198.51.100.1, 203.0.113.9"]).unwrap();
    assert_eq!(resolved, ip("203.0.113.9"));
}

#[test]
fn walk_continues_through_multiple_trusted_hops() {
    let r = resolver("10.0.0.0/8");
    let peer = ip("10.0.0.1");
    // Two trusted proxies in front of the real client.
    let resolved = r.resolve(peer, &["203.0.113.9, 10.0.0.2"]).unwrap();
    assert_eq!(resolved, ip("203.0.113.9"));
}

#[test]
fn malformed_hop_is_rejected() {
    let r = resolver("10.0.0.0/8");
    let peer = ip("10.0.0.1");
    assert!(r.resolve(peer, &["not-an-ip"]).is_err());
}

#[test]
fn oversized_header_is_rejected() {
    let r = resolver("10.0.0.0/8");
    let peer = ip("10.0.0.1");
    let huge = "1.1.1.1,".repeat(2000);
    assert!(r.resolve(peer, &[&huge]).is_err());
}

#[test]
fn ipv6_is_masked_to_slash_64() {
    let r = resolver("");
    let peer = ip("2001:db8:1234:5678:aaaa:bbbb:cccc:dddd");
    let resolved = r.resolve(peer, &[]).unwrap();
    assert_eq!(resolved, ip("2001:db8:1234:5678::"));
}

#[test]
fn ipv4_mapped_ipv6_is_unmapped() {
    let r = resolver("");
    let peer = ip("::ffff:203.0.113.5");
    let resolved = r.resolve(peer, &[]).unwrap();
    assert_eq!(resolved, ip("203.0.113.5"));
}

#[test]
fn parse_cidrs_rejects_malformed_entries() {
    assert!(parse_trusted_proxy_cidrs("not-a-cidr").is_err());
    assert!(parse_trusted_proxy_cidrs("10.0.0.0/8, ").is_err());
    assert!(parse_trusted_proxy_cidrs("").ok().unwrap().is_empty());
}

#[test]
fn addresses_are_read_as_numbers() {
    assert_eq!(ip("1.2.3.4"), IpAddress::V4(0x0102_0304));
    assert_eq!(ip("::1"), IpAddress::V6(1));
    assert_eq!(ip("2001:db8::"), IpAddress::V6(0x2001_0db8 << 96));
    assert!(parse_address("1.2.3").is_none());
    assert!(parse_address("1.2.3.4/8").is_none());
    assert!(parse_address(" 1.2.3.4").is_none());
    assert!(parse_address("").is_none());
}

#[test]
fn networks_contain_what_shares_their_prefix() {
    let nets = parse_trusted_proxy_cidrs(" 10.1.0.0/16 ,192.0.2.7/32,\t2001:db8::/32\n").ok().unwrap();
    assert_eq!(nets.len(), 3);
    assert!(nets[0].contains(ip("10.1.255.255")));
    assert!(!nets[0].contains(ip("10.2.0.0")));
    assert!(nets[1].contains(ip("192.0.2.7")));
    assert!(!nets[1].contains(ip("192.0.2.6")));
    assert!(nets[2].contains(ip("2001:db8:ffff::1")));
    assert!(!nets[2].contains(ip("2001:db9::")));
    // An address of the other kind is in no network.
    assert!(!nets[2].contains(ip("10.1.0.1")));
    let everything = IpNetwork::new(IpAddress::V4(0x0a00_0001), 0).unwrap();
    assert!(everything.contains(ip("255.255.255.255")));
    assert!(!everything.contains(ip("::1")));
    // Bits after the prefix do not matter.
    let sloppy = IpNetwork::new(IpAddress::V4(0x0a00_00ff), 24).unwrap();
    assert!(sloppy.contains(ip("10.0.0.1")));
    assert!(!sloppy.contains(ip("10.0.1.1")));
}

#[test]
fn prefix_longer_than_the_address_is_no_network() {
    assert!(IpNetwork::new(IpAddress::V4(0), 32).is_some());
    assert!(IpNetwork::new(IpAddress::V4(0), 33).is_none());
    assert!(IpNetwork::new(IpAddress::V6(0), 128).is_some());
    assert!(IpNetwork::new(IpAddress::V6(0), 129).is_none());
    assert!(parse_trusted_proxy_cidrs("10.0.0.0/33").is_err());
    assert!(parse_trusted_proxy_cidrs("10.0.0.0").is_err());
}

#[test]
fn white_space_alone_trusts_nobody() {
    assert!(parse_trusted_proxy_cidrs(" \t\u{a0}\u{2003} ").ok().unwrap().is_empty());
    assert_eq!(ClientIpError.description(), "invalid client address");
}

#[test]
fn hops_are_walked_over_several_headers() {
    let r = resolver("10.0.0.0/8");
    let peer = ip("10.0.0.1");
    let resolved = r.resolve(peer, &["203.0.113.9", "10.0.0.3 , 10.0.0.2"]).unwrap();
    assert_eq!(resolved, ip("203.0.113.9"));
    // All hops are trusted: the farthest one counts.
    let resolved = r.resolve(peer, &["10.9.9.9, 10.0.0.3"]).unwrap();
    assert_eq!(resolved, ip("10.9.9.9"));
}

#[test]
fn empty_hop_is_rejected_even_behind_the_selected_one() {
    let r = resolver("10.0.0.0/8");
    let peer = ip("10.0.0.1");
    assert!(r.resolve(peer, &["", "203.0.113.9"]).is_err());
    assert!(r.resolve(peer, &["junk, 203.0.113.9"]).is_err());
    assert!(r.resolve(peer, &["203.0.113.9,"]).is_err());
    assert_eq!(r.resolve(peer, &[]).unwrap(), peer);
}

#[test]
fn too_many_hops_are_rejected() {
    let r = resolver("10.0.0.0/8");
    let peer = ip("10.0.0.1");
    let most = vec!["10.0.0.2"; MAX_FORWARDED_FOR_HOPS].join(",");
    assert_eq!(r.resolve(peer, &[&most]).unwrap(), ip("10.0.0.2"));
    let more = format!("{most},10.0.0.2");
    assert!(r.resolve(peer, &[&more]).is_err());
    assert!(r.resolve(peer, &[&most, "10.0.0.2"]).is_err());
}

#[test]
fn header_of_the_greatest_length_is_read() {
    let r = resolver("10.0.0.0/8");
    let peer = ip("10.0.0.1");
    let value = format!("{}203.0.113.9", " ".repeat(4096 - 11));
    assert_eq!(value.len(), 4096);
    assert_eq!(r.resolve(peer, &[&value]).unwrap(), ip("203.0.113.9"));
    let longer = format!(" {value}");
    assert!(r.resolve(peer, &[&longer]).is_err());
}

#[test]
fn forged_hops_change_nothing() {
    let r = resolver("10.0.0.0/8");
    let peer = ip("10.0.0.1");
    let honest = r.resolve(peer, &["203.0.113.9, 10.0.0.2"]).unwrap();
    let forged = r.resolve(peer, &["198.51.100.7, 10.0.0.9, 203.0.113.9, 10.0.0.2"]).unwrap();
    assert_eq!(honest, forged);
}

#[test]
fn trusted_proxy_may_be_written_as_ipv6() {
    let r = resolver("10.0.0.0/8");
    let resolved = r.resolve(ip("::ffff:10.0.0.1"), &["::ffff:203.0.113.9"]).unwrap();
    assert_eq!(resolved, ip("203.0.113.9"));
}

#[test]
fn one_household_counts_as_one() {
    let r = resolver("");
    let a = r.resolve(ip("2001:db8:1:2::1"), &[]).unwrap();
    let b = r.resolve(ip("2001:db8:1:2:ffff::"), &[]).unwrap();
    let c = r.resolve(ip("2001:db8:1:3::1"), &[]).unwrap();
    assert_eq!(a, b);
    assert_ne!(a, c);
    assert_eq!(r.resolve(a, &[]).unwrap(), a);
}

#[test]
fn resolver_trusts_nobody_by_default_and_can_be_copied() {
    let nobody = ClientIpResolver::default();
    let peer = ip("10.0.0.1");
    assert_eq!(nobody.resolve(peer, &["203.0.113.9"]).unwrap(), peer);
    let copy = resolver("10.0.0.0/8").clone();
    assert_eq!(copy.resolve(peer, &["203.0.113.9"]).unwrap(), ip("203.0.113.9"));
}

#[test]
fn white_space_around_a_text_is_trimmed() {
    assert_eq!(trim(""), "");
    assert_eq!(trim(" \t\r\n\u{b}\u{c}"), "");
    assert_eq!(trim("a"), "a");
    assert_eq!(trim("  a b \u{e9} "), "a b \u{e9}");
    let around = "\u{85}\u{a0}\u{1680}\u{2000}\u{200a}\u{2028}\u{2029}\u{202f}\u{205f}\u{3000}";
    assert_eq!(trim(&format!("{around}x{around}")), "x");
    // A zero-width space is no white space.
    assert_eq!(trim("\u{200b}"), "\u{200b}");
    for code in 0..0x11_0000u32 {
        if let Some(c) = char::from_u32(code) {
            let text = c.to_string();
            assert_eq!(trim(&text), text.trim());
        }
    }
}
