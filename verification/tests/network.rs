//! Addresses and links derived from ordinals.

use devcluster::address::{ipv6, Ipv4};
use devcluster::network::{Addressing, FirewallRule};

fn addressing() -> Addressing {
    Addressing {
        loopback_base: "10.10.255.0".to_string(),
        loopback_prefix_len: 32,
        link_base: "10.10.0.0".to_string(),
        link_prefix_len: 31,
    }
}

#[test]
fn loopbacks_follow_the_ordinal() {
    let a = addressing();
    assert_eq!(a.loopback_of(1).unwrap().to_text(), "10.10.255.1");
    assert_eq!(a.loopback_of(3).unwrap().to_text(), "10.10.255.3");
}

/// Both ends of a cable compute the same link, in either order.
#[test]
fn both_ends_derive_the_same_link() {
    let a = addressing();
    for (x, y) in [(1, 2), (1, 3), (2, 3)] {
        let forward = a.link_between(x, y, 3).expect("a link exists");
        let backward = a.link_between(y, x, 3).expect("a link exists");
        assert_eq!(forward, backward, "the pair is unordered");
        assert_eq!(forward.address_of(x), backward.address_of(x));
    }
}

#[test]
fn the_lower_ordinal_takes_the_even_address() {
    let a = addressing();
    for link in a.links(3) {
        let lower = link.address_of(link.lower).unwrap().bits;
        let higher = link.address_of(link.higher).unwrap().bits;
        assert!(lower % 2 == 0, "{}: lower is even", link.id());
        assert_eq!(higher, lower + 1, "{}: the peer is its odd twin", link.id());
    }
}

#[test]
fn a_triangle_has_three_links_and_no_address_repeats() {
    let a = addressing();
    let links = a.links(3);
    assert_eq!(links.len(), 3);
    let mut seen = std::collections::BTreeSet::new();
    for link in &links {
        for address in link.addresses() {
            assert!(seen.insert(address.bits), "{} is on two links", address.to_text());
        }
    }
    assert_eq!(
        links.iter().map(|l| l.prefix()).collect::<Vec<_>>(),
        ["10.10.0.0/31", "10.10.0.2/31", "10.10.0.4/31"],
        "derived rather than declared"
    );
}

#[test]
fn an_ordinal_outside_the_fleet_has_no_link() {
    let a = addressing();
    assert!(a.link_between(1, 4, 3).is_none());
    assert!(a.link_between(0, 1, 3).is_none());
    assert!(a.link_between(2, 2, 3).is_none(), "no link to itself");
}

/// In a larger fleet the links are numbered row by row.
#[test]
fn links_are_numbered_row_by_row() {
    let a = addressing();
    let links = a.links(5);
    assert_eq!(links.len(), 10);
    for (i, link) in links.iter().enumerate() {
        assert_eq!(link.lower_address.bits, (10 << 24) + (10 << 16) + 2 * i as u32);
    }
    assert_eq!((links[4].lower, links[4].higher), (2, 3));
    assert_eq!(links[4].id(), "l23");
    assert_eq!(links[4].prefix(), "10.10.0.8/31");
}

#[test]
fn a_link_knows_its_ends() {
    let a = addressing();
    let link = a.link_between(3, 1, 3).expect("a link exists");
    assert!(link.touches(1) && link.touches(3) && !link.touches(2));
    assert_eq!(link.peer_of(1), Some(3));
    assert_eq!(link.peer_of(3), Some(1));
    assert_eq!(link.peer_of(2), None);
    assert_eq!(link.address_of(2), None);
    assert_eq!(link.address_of(3).unwrap().to_text(), "10.10.0.3");
    let mine = a.links_of(2, 3);
    assert_eq!(mine.len(), 2);
    assert!(mine.iter().all(|l| l.touches(2)));
}

#[test]
fn a_base_that_is_no_address_derives_nothing() {
    let mut a = addressing();
    a.loopback_base = "10.10.255".to_string();
    a.link_base = "10.10.0.256".to_string();
    assert!(a.loopback_of(1).is_none());
    assert!(a.link_between(1, 2, 3).is_none());
    assert!(a.links(3).is_empty());
}

#[test]
fn a_loopback_past_the_last_address_is_none() {
    let mut a = addressing();
    a.loopback_base = "255.255.255.255".to_string();
    assert!(a.loopback_of(1).is_none());
    assert_eq!(a.loopback_of(0).unwrap().bits, u32::MAX);
}

/// Writing an address and reading it again gives it back.
#[test]
fn dotted_text_is_read_back() {
    for bits in [0u32, 1, 255, 256, 0x0a0a_ff03, 0x7f00_0001, u32::MAX] {
        let address = Ipv4 { bits };
        assert_eq!(Ipv4::parse(&address.to_text()), Some(address));
    }
    assert_eq!(Ipv4 { bits: 0x0a0a_ff03 }.to_text(), "10.10.255.3");
}

#[test]
fn text_that_is_no_address_is_refused() {
    for text in [
        "", "1", "1.2.3", "1.2.3.4.5", "1.2.3.", ".1.2.3", "01.2.3.4", "1.2.3.256", "1.2.3.4 ",
        "a.b.c.d", "+1.2.3.4", "1..2.3",
    ] {
        assert_eq!(Ipv4::parse(text), None, "{text:?}");
    }
}

#[test]
fn six_is_told_from_four() {
    for text in ["::", "::1", "ff02::6c75", "1:2:3:4:5:6:7:8", "::ffff:10.0.0.1", "1::8"] {
        assert!(ipv6(text), "{text:?}");
    }
    for text in ["", ":", ":::", "1:2:3:4:5:6:7", "1::2::3", "12345::", "g::", "10.0.0.1", "1:2:3:4:5:6:7:8:9"] {
        assert!(!ipv6(text), "{text:?}");
    }
}

#[test]
fn a_rule_without_roles_applies_to_all() {
    let mut rule = FirewallRule {
        plane: "lan".to_string(),
        protocol: "tcp".to_string(),
        port: 22,
        source: "lan".to_string(),
        roles: Vec::new(),
        comment: "an operator".to_string(),
    };
    assert!(rule.is_universal());
    assert!(rule.applies_to("storage"));
    rule.roles.push("storage".to_string());
    assert!(!rule.is_universal());
    assert!(rule.applies_to("storage"));
    assert!(!rule.applies_to("measurement"));
}
