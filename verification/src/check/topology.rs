//! Cross-checking the mesh: it is the shape the topology says it is, and the
//! addressing arithmetic covers it.
use vstd::prelude::*;

use crate::address::{dotted, ipv6, is_ipv6, Ipv4};
use crate::model::{bad, reports, Cluster, ClusterError};
use crate::named::row;
use crate::network::{Class, Link};
use crate::text::{begins, decimal, decimal_of, same, starts_with};

verus! {

/// One less, and nothing below zero.
pub open spec fn peers_each(n: u32) -> u32 {
    if n == 0 {
        0
    } else {
        (n - 1) as u32
    }
}

/// Whether one of the first `n` links carries the address.
pub open spec fn carried(links: Seq<Link>, n: int, address: Ipv4) -> bool {
    exists|k: int|
        0 <= k < n && ((#[trigger] links[k]).lower_address == address || links[k].higher_address
            == address)
}

/// What is wrong with the link at `i`: it is an aligned prefix, and no address
/// of it is on a link before it.
pub open spec fn link_fault(links: Seq<Link>, i: int) -> Option<Seq<char>> {
    let link = links[i];
    if link.lower_address.bits % 2 != 0 {
        Some(
            "link "@
                + link.id_spec()
                + ": "@
                + link.prefix_spec()
                + " is not an aligned /31. An unaligned prefix is a typo in the base, not a smaller subnet (§4.1)"@,
        )
    } else if carried(links, i, link.lower_address) {
        Some(
            "link "@
                + link.id_spec()
                + ": "@
                + dotted(link.lower_address.bits)
                + " is already on another link. The bases overlap (§4.1)"@,
        )
    } else if carried(links, i, link.higher_address) || link.higher_address == link.lower_address {
        Some(
            "link "@
                + link.id_spec()
                + ": "@
                + dotted(link.higher_address.bits)
                + " is already on another link. The bases overlap (§4.1)"@,
        )
    } else {
        None
    }
}

/// The first fault of a link from `i` on.
pub open spec fn links_fault(links: Seq<Link>, i: int) -> Option<Seq<char>>
    decreases links.len() - i,
{
    if i < 0 || i >= links.len() {
        None
    } else {
        match link_fault(links, i) {
            Some(why) => Some(why),
            None => links_fault(links, i + 1),
        }
    }
}

/// Whether one of the first `n` links carries the address.
fn is_carried(links: &Vec<Link>, n: usize, address: Ipv4) -> (r: bool)
    requires
        n <= links.len(),
    ensures
        r == carried(links@, n as int, address),
{
    let mut k: usize = 0;
    while k < n
        invariant
            k <= n <= links.len(),
            forall|j: int|
                0 <= j < k ==> (#[trigger] links@[j]).lower_address != address
                    && links@[j].higher_address != address,
        decreases n - k,
    {
        if links[k].lower_address == address || links[k].higher_address == address {
            return true;
        }
        k = k + 1;
    }
    false
}

fn check_links(links: &Vec<Link>) -> (r: Result<(), ClusterError>)
    ensures
        reports(r, links_fault(links@, 0)),
{
    let mut i: usize = 0;
    while i < links.len()
        invariant
            i <= links.len(),
            links_fault(links@, 0) == links_fault(links@, i as int),
        decreases links.len() - i,
    {
        let link = links[i];
        if link.lower_address.bits % 2 != 0 {
            return Err(
                bad(
                    "link ".to_owned()
                        .concat(link.id().as_str())
                        .concat(": ")
                        .concat(link.prefix().as_str())
                        .concat(" is not an aligned /31. An unaligned prefix is a typo in the base, not a smaller subnet (§4.1)"),
                ),
            );
        }
        if is_carried(links, i, link.lower_address) {
            return Err(
                bad(
                    "link ".to_owned()
                        .concat(link.id().as_str())
                        .concat(": ")
                        .concat(link.lower_address.to_text().as_str())
                        .concat(" is already on another link. The bases overlap (§4.1)"),
                ),
            );
        }
        if is_carried(links, i, link.higher_address) || link.higher_address == link.lower_address {
            return Err(
                bad(
                    "link ".to_owned()
                        .concat(link.id().as_str())
                        .concat(": ")
                        .concat(link.higher_address.to_text().as_str())
                        .concat(" is already on another link. The bases overlap (§4.1)"),
                ),
            );
        }
        i = i + 1;
    }
    Ok(())
}

impl Cluster {
    /// What is wrong with the wiring: the fleet fits the topology and the
    /// board, and the prefixes have the lengths the arithmetic assumes.
    pub open spec fn wiring_fault(&self) -> Option<Seq<char>> {
        let n = self.cluster.fleet.size;
        let needed = peers_each(n);
        if n > self.network.topology.max_nodes {
            Some(
                decimal(n as nat)
                    + " nodes, but topology `"@
                    + self.network.topology.kind@
                    + "` admits "@
                    + decimal(self.network.topology.max_nodes as nat)
                    + ". The direct mesh needs one 10 GbE port per peer and each node has two; a fourth node needs a switch and a different topology kind (§1.1)"@,
            )
        } else if self.network.topology.kind@ == "direct-triangle"@
            && self.cluster.profile.nic_10g < needed {
            Some(
                "a fleet of "@
                    + decimal(n as nat)
                    + " needs "@
                    + decimal(needed as nat)
                    + " mesh ports per machine and the profile declares "@
                    + decimal(self.cluster.profile.nic_10g as nat)
                    + ". The direct mesh gives each node one port per peer (§1.1)"@,
            )
        } else if self.network.addressing.link_prefix_len != 31 {
            Some(
                "link_prefix_len is "@
                    + decimal(self.network.addressing.link_prefix_len as nat)
                    + ". §4.1 declares RFC 3021 point-to-point addressing, whose whole property is that a /31 has exactly two hosts and no network or broadcast address"@,
            )
        } else if self.network.addressing.loopback_prefix_len != 32 {
            Some(
                "loopback_prefix_len is "@
                    + decimal(self.network.addressing.loopback_prefix_len as nat)
                    + ", and a loopback is a host route (§4.1)"@,
            )
        } else {
            None
        }
    }

    pub(crate) fn check_wiring(&self) -> (r: Result<(), ClusterError>)
        ensures
            reports(r, self.wiring_fault()),
    {
        let n: u32 = self.cluster.fleet.size;
        let needed: u32 = n.saturating_sub(1);
        if n > self.network.topology.max_nodes {
            return Err(
                bad(
                    decimal_of(n as u64)
                        .concat(" nodes, but topology `")
                        .concat(self.network.topology.kind.as_str())
                        .concat("` admits ")
                        .concat(decimal_of(self.network.topology.max_nodes as u64).as_str())
                        .concat(". The direct mesh needs one 10 GbE port per peer and each node has two; a fourth node needs a switch and a different topology kind (§1.1)"),
                ),
            );
        }
        if same(self.network.topology.kind.as_str(), "direct-triangle")
            && self.cluster.profile.nic_10g < needed {
            return Err(
                bad(
                    "a fleet of ".to_owned()
                        .concat(decimal_of(n as u64).as_str())
                        .concat(" needs ")
                        .concat(decimal_of(needed as u64).as_str())
                        .concat(" mesh ports per machine and the profile declares ")
                        .concat(decimal_of(self.cluster.profile.nic_10g as u64).as_str())
                        .concat(". The direct mesh gives each node one port per peer (§1.1)"),
                ),
            );
        }
        if self.network.addressing.link_prefix_len != 31 {
            return Err(
                bad(
                    "link_prefix_len is ".to_owned()
                        .concat(decimal_of(self.network.addressing.link_prefix_len as u64).as_str())
                        .concat(". §4.1 declares RFC 3021 point-to-point addressing, whose whole property is that a /31 has exactly two hosts and no network or broadcast address"),
                ),
            );
        }
        if self.network.addressing.loopback_prefix_len != 32 {
            return Err(
                bad(
                    "loopback_prefix_len is ".to_owned()
                        .concat(decimal_of(self.network.addressing.loopback_prefix_len as u64).as_str())
                        .concat(", and a loopback is a host route (§4.1)"),
                ),
            );
        }
        Ok(())
    }

    /// The first fault of a loopback from ordinal `n` on: it exists, and it is
    /// on no link.
    pub open spec fn loopbacks_fault(&self, links: Seq<Link>, ordinal: int) -> Option<Seq<char>>
        decreases self.cluster.fleet.size - ordinal + 1,
    {
        if ordinal < 1 || ordinal > self.cluster.fleet.size {
            None
        } else {
            match self.network.addressing.loopback_spec(ordinal as u32) {
                None => Some(
                    "ordinal "@
                        + decimal(ordinal as nat)
                        + ": the loopback base does not reach it"@,
                ),
                Some(loopback) => if carried(links, links.len() as int, loopback) {
                    Some(
                        "ordinal "@
                            + decimal(ordinal as nat)
                            + ": loopback "@
                            + dotted(loopback.bits)
                            + " is also a link address. The two bases overlap, and a route to a peer would resolve to a cable (§4.1)"@,
                    )
                } else {
                    self.loopbacks_fault(links, ordinal + 1)
                },
            }
        }
    }

    fn check_loopbacks(&self, links: &Vec<Link>) -> (r: Result<(), ClusterError>)
        ensures
            reports(r, self.loopbacks_fault(links@, 1)),
    {
        let mut done: u32 = 0;
        while done < self.cluster.fleet.size
            invariant
                done <= self.cluster.fleet.size,
                self.loopbacks_fault(links@, 1) == self.loopbacks_fault(links@, done + 1),
            decreases self.cluster.fleet.size - done,
        {
            let ordinal: u32 = done + 1;
            let loopback = match self.network.addressing.loopback_of(ordinal) {
                Some(loopback) => loopback,
                None => {
                    return Err(
                        bad(
                            "ordinal ".to_owned()
                                .concat(decimal_of(ordinal as u64).as_str())
                                .concat(": the loopback base does not reach it"),
                        ),
                    );
                },
            };
            if is_carried(links, links.len(), loopback) {
                return Err(
                    bad(
                        "ordinal ".to_owned()
                            .concat(decimal_of(ordinal as u64).as_str())
                            .concat(": loopback ")
                            .concat(loopback.to_text().as_str())
                            .concat(" is also a link address. The two bases overlap, and a route to a peer would resolve to a cable (§4.1)"),
                    ),
                );
            }
            done = ordinal;
        }
        Ok(())
    }

    /// What is wrong with the derived links: there is one per pair, and no two
    /// addresses of the mesh collide.
    pub open spec fn mesh_fault(&self) -> Option<Seq<char>> {
        let n = self.cluster.fleet.size;
        let links = self.network.addressing.links_spec(n);
        let expected = n * peers_each(n) / 2;
        if links.len() as u32 != expected {
            Some(
                "the addressing derives "@
                    + decimal(links.len() as nat)
                    + " links for a fleet of "@
                    + decimal(n as nat)
                    + ", and a direct triangle joins every pair exactly once, which is "@
                    + decimal(expected as nat)
                    + " (§4.1)"@,
            )
        } else if let Some(why) = links_fault(links, 0) {
            Some(why)
        } else {
            self.loopbacks_fault(links, 1)
        }
    }

    fn check_mesh(&self) -> (r: Result<(), ClusterError>)
        requires
            self.cluster.fleet.size <= 65536,
        ensures
            reports(r, self.mesh_fault()),
    {
        let n: u32 = self.cluster.fleet.size;
        let links = self.network.addressing.links(n);
        proof {
            assert(n * peers_each(n) <= 65536 * 65535) by (nonlinear_arith)
                requires
                    n <= 65536,
                    peers_each(n) <= 65535,
            ;
        }
        let expected: u32 = n * n.saturating_sub(1) / 2;
        if links.len() as u32 != expected {
            return Err(
                bad(
                    "the addressing derives ".to_owned()
                        .concat(decimal_of(links.len() as u64).as_str())
                        .concat(" links for a fleet of ")
                        .concat(decimal_of(n as u64).as_str())
                        .concat(", and a direct triangle joins every pair exactly once, which is ")
                        .concat(decimal_of(expected as u64).as_str())
                        .concat(" (§4.1)"),
                ),
            );
        }
        check_links(&links)?;
        self.check_loopbacks(&links)
    }

    /// What is wrong with the two classes a machine's ports are sorted into.
    pub open spec fn classes_fault(&self, mesh: Class, lan: Class) -> Option<Seq<char>> {
        let n = self.cluster.fleet.size;
        let peers = peers_each(n);
        if mesh.min_speed_mbps <= lan.min_speed_mbps {
            Some(
                "the mesh class starts at "@
                    + decimal(mesh.min_speed_mbps as nat)
                    + " Mbps and the LAN class at "@
                    + decimal(lan.min_speed_mbps as nat)
                    + ". The mesh threshold must be the higher one, or every port classifies as mesh (§3.1)"@,
            )
        } else if mesh.count != peers {
            Some(
                "the mesh class expects "@
                    + decimal(mesh.count as nat)
                    + " ports and a fleet of "@
                    + decimal(n as nat)
                    + " gives each machine "@
                    + decimal(peers as nat)
                    + " peers. A machine that came up with fewer would join with no redundancy and nothing would say so (§3.1)"@,
            )
        } else if mesh.count > self.cluster.profile.nic_10g {
            Some(
                "the mesh class expects "@
                    + decimal(mesh.count as nat)
                    + " ports and the profile declares "@
                    + decimal(self.cluster.profile.nic_10g as nat)
                    + " (§2.1, §3.1)"@,
            )
        } else if lan.count > self.cluster.profile.nic_1g {
            Some(
                "the LAN class expects "@
                    + decimal(lan.count as nat)
                    + " ports and the profile declares "@
                    + decimal(self.cluster.profile.nic_1g as nat)
                    + " (§2.1, §3.1)"@,
            )
        } else if lan.addressing@ != "dhcp"@ {
            Some(
                "the LAN class addresses by `"@
                    + lan.addressing@
                    + "`. §3.2 makes it DHCP: there is no per-machine fact left to make it static from"@,
            )
        } else if mesh.addressing@ != "derived"@ {
            Some(
                "the mesh class addresses by `"@
                    + mesh.addressing@
                    + "`, and §4.1 derives mesh addresses from ordinals"@,
            )
        } else {
            None
        }
    }

    fn check_classes(&self, mesh: &Class, lan: &Class) -> (r: Result<(), ClusterError>)
        ensures
            reports(r, self.classes_fault(*mesh, *lan)),
    {
        let n: u32 = self.cluster.fleet.size;
        let peers: u32 = n.saturating_sub(1);
        if mesh.min_speed_mbps <= lan.min_speed_mbps {
            return Err(
                bad(
                    "the mesh class starts at ".to_owned()
                        .concat(decimal_of(mesh.min_speed_mbps as u64).as_str())
                        .concat(" Mbps and the LAN class at ")
                        .concat(decimal_of(lan.min_speed_mbps as u64).as_str())
                        .concat(". The mesh threshold must be the higher one, or every port classifies as mesh (§3.1)"),
                ),
            );
        }
        if mesh.count != peers {
            return Err(
                bad(
                    "the mesh class expects ".to_owned()
                        .concat(decimal_of(mesh.count as u64).as_str())
                        .concat(" ports and a fleet of ")
                        .concat(decimal_of(n as u64).as_str())
                        .concat(" gives each machine ")
                        .concat(decimal_of(peers as u64).as_str())
                        .concat(" peers. A machine that came up with fewer would join with no redundancy and nothing would say so (§3.1)"),
                ),
            );
        }
        if mesh.count > self.cluster.profile.nic_10g {
            return Err(
                bad(
                    "the mesh class expects ".to_owned()
                        .concat(decimal_of(mesh.count as u64).as_str())
                        .concat(" ports and the profile declares ")
                        .concat(decimal_of(self.cluster.profile.nic_10g as u64).as_str())
                        .concat(" (§2.1, §3.1)"),
                ),
            );
        }
        if lan.count > self.cluster.profile.nic_1g {
            return Err(
                bad(
                    "the LAN class expects ".to_owned()
                        .concat(decimal_of(lan.count as u64).as_str())
                        .concat(" ports and the profile declares ")
                        .concat(decimal_of(self.cluster.profile.nic_1g as u64).as_str())
                        .concat(" (§2.1, §3.1)"),
                ),
            );
        }
        if !same(lan.addressing.as_str(), "dhcp") {
            return Err(
                bad(
                    "the LAN class addresses by `".to_owned()
                        .concat(lan.addressing.as_str())
                        .concat("`. §3.2 makes it DHCP: there is no per-machine fact left to make it static from"),
                ),
            );
        }
        if !same(mesh.addressing.as_str(), "derived") {
            return Err(
                bad(
                    "the mesh class addresses by `".to_owned()
                        .concat(mesh.addressing.as_str())
                        .concat("`, and §4.1 derives mesh addresses from ordinals"),
                ),
            );
        }
        Ok(())
    }

    /// What is wrong with the routes and the discovery of peers.
    pub open spec fn routing_fault(&self) -> Option<Seq<char>> {
        let discovery = self.network.discovery;
        if self.network.routing.direct_metric >= self.network.routing.transit_metric {
            Some(
                "direct metric "@
                    + decimal(self.network.routing.direct_metric as nat)
                    + " is not below transit metric "@
                    + decimal(self.network.routing.transit_metric as nat)
                    + ". The transit route must take over only when the direct one is withdrawn (§4.2)"@,
            )
        } else if !self.network.routing.ip_forward {
            Some(
                "ip_forward is false, so a transit route has nothing to transit (§4.2)"@,
            )
        } else if !is_ipv6(discovery.group@) {
            Some(
                "discovery.group `"@
                    + discovery.group@
                    + "` is not an IPv6 address (§3.3)"@,
            )
        } else if !begins(discovery.group@, "ff02:"@) {
            Some(
                "discovery.group `"@
                    + discovery.group@
                    + "` is not link-local scope. §3.3 announces on one interface, and a wider scope would leak the announcement past the cable it is asking about"@,
            )
        } else if discovery.interval_ms == 0 {
            Some(
                "discovery.interval_ms is zero, which is not a fast retry but a spin (§3.3)"@,
            )
        } else if discovery.timeout_s * 1000 <= discovery.interval_ms {
            Some(
                "discovery times out after "@
                    + decimal(discovery.timeout_s as nat)
                    + "s having announced every "@
                    + decimal(discovery.interval_ms as nat)
                    + "ms, so it gives up before it has retried (§3.3)"@,
            )
        } else {
            None
        }
    }

    fn check_routing(&self) -> (r: Result<(), ClusterError>)
        ensures
            reports(r, self.routing_fault()),
    {
        let discovery = &self.network.discovery;
        if self.network.routing.direct_metric >= self.network.routing.transit_metric {
            return Err(
                bad(
                    "direct metric ".to_owned()
                        .concat(decimal_of(self.network.routing.direct_metric as u64).as_str())
                        .concat(" is not below transit metric ")
                        .concat(decimal_of(self.network.routing.transit_metric as u64).as_str())
                        .concat(". The transit route must take over only when the direct one is withdrawn (§4.2)"),
                ),
            );
        }
        if !self.network.routing.ip_forward {
            return Err(
                bad(
                    "ip_forward is false, so a transit route has nothing to transit (§4.2)".to_owned(),
                ),
            );
        }
        if !ipv6(discovery.group.as_str()) {
            return Err(
                bad(
                    "discovery.group `".to_owned()
                        .concat(discovery.group.as_str())
                        .concat("` is not an IPv6 address (§3.3)"),
                ),
            );
        }
        if !starts_with(discovery.group.as_str(), "ff02:") {
            return Err(
                bad(
                    "discovery.group `".to_owned()
                        .concat(discovery.group.as_str())
                        .concat("` is not link-local scope. §3.3 announces on one interface, and a wider scope would leak the announcement past the cable it is asking about"),
                ),
            );
        }
        if discovery.interval_ms == 0 {
            return Err(
                bad(
                    "discovery.interval_ms is zero, which is not a fast retry but a spin (§3.3)".to_owned(),
                ),
            );
        }
        if discovery.timeout_s as u64 * 1000 <= discovery.interval_ms as u64 {
            return Err(
                bad(
                    "discovery times out after ".to_owned()
                        .concat(decimal_of(discovery.timeout_s as u64).as_str())
                        .concat("s having announced every ")
                        .concat(decimal_of(discovery.interval_ms as u64).as_str())
                        .concat("ms, so it gives up before it has retried (§3.3)"),
                ),
            );
        }
        Ok(())
    }

    /// What is wrong with the mesh: the first of its rules that fails.
    pub open spec fn topology_fault(&self) -> Option<Seq<char>> {
        if let Some(why) = self.wiring_fault() {
            Some(why)
        } else if let Some(why) = self.mesh_fault() {
            Some(why)
        } else {
            match (row(self.network.class@, "mesh"@), row(self.network.class@, "lan"@)) {
                (None, _) => Some(
                    "no `mesh` interface class. §3.1 classifies ports by speed, and the mesh class is what recognises a 10GBase-T port"@,
                ),
                (_, None) => Some(
                    "no `lan` interface class (§3.1)"@,
                ),
                (Some(mesh), Some(lan)) => if let Some(why) = self.classes_fault(mesh, lan) {
                    Some(why)
                } else {
                    self.routing_fault()
                },
            }
        }
    }

    /// The mesh is the shape the topology says it is, and the addressing
    /// arithmetic covers it.
    ///
    /// A fleet whose wiring is in order has few enough pairs for every link to
    /// have a 32-bit offset.
    pub fn check_topology(&self) -> (r: Result<(), ClusterError>)
        requires
            self.wiring_fault() is None ==> self.cluster.fleet.size <= 65536,
        ensures
            reports(r, self.topology_fault()),
    {
        self.check_wiring()?;
        self.check_mesh()?;
        let mesh = match self.network.mesh_class() {
            Some(mesh) => mesh,
            None => {
                return Err(
                    bad(
                        "no `mesh` interface class. §3.1 classifies ports by speed, and the mesh class is what recognises a 10GBase-T port".to_owned(),
                    ),
                );
            },
        };
        let lan = match self.network.lan_class() {
            Some(lan) => lan,
            None => {
                return Err(
                    bad(
                        "no `lan` interface class (§3.1)".to_owned(),
                    ),
                );
            },
        };
        self.check_classes(mesh, lan)?;
        self.check_routing()
    }
}

} // verus!
