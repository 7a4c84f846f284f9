//! The network policy a node configures itself from, and the units that a
//! machine's own cards and ordinal make of it.
//!
//! The route through a third node is computed, not declared. In a triangle each
//! node has exactly one route to a peer that does not use the direct link, so
//! the failover path cannot disagree with the wiring.
use vstd::prelude::*;

use crate::cluster::{Machine, Node, Role};
use crate::model::{others, slots, Cluster, Slot};
use crate::named::row;
use crate::network::{touching, Addressing, Class, Link};
use crate::render::{files, ids1, ids2, ids3, File, Rendered};
use crate::text::{
    concat_all,
    concat_strings,
    decimal,
    decimal_of,
    same,
    views,
};
use crate::address::dotted;
use crate::render::claims::{
    is_head,
    is_ours,
    is_part,
    is_shown,
    is_tail,
    lemma_is_shown,
    lemma_part_left,
    lemma_part_right,
    lemma_shows,
    lemma_tail_grows,
    lemma_tail_is_cut,
    lemma_tail_right,
    shows,
};
use crate::render::render_all;
use crate::text::occurs_at;

verus! {

/// A number where there is one, and nothing where there is none.
pub open spec fn number_text(n: Option<u32>) -> Seq<char> {
    match n {
        Some(v) => decimal(v as nat),
        None => Seq::<char>::empty(),
    }
}

fn number(n: &Option<u32>) -> (r: String)
    ensures
        r@ == number_text(*n),
{
    match n {
        Some(v) => decimal_of(*v as u64),
        None => String::new(),
    }
}

/// A role, with how it is come by and where it sits in the rollout.
pub open spec fn role_line(c: Cluster, role: Role) -> Seq<char> {
    "role="@
        + role.id@
        + ":"@
        + role.detect@
        + ":"@
        + number_text(role.ordinal)
        + ":"@
        + number_text(role.assign_order)
        + ":"@
        + decimal(role.update_position as nat)
        + "\n"@
}

fn role_line_of(c: &Cluster, role: &Role) -> (r: String)
    ensures
        r@ == role_line(*c, *role),
{
    "role=".to_owned()
        .concat(role.id.as_str())
        .concat(":")
        .concat(role.detect.as_str())
        .concat(":")
        .concat(number(&role.ordinal).as_str())
        .concat(":")
        .concat(number(&role.assign_order).as_str())
        .concat(":")
        .concat(decimal_of(role.update_position as u64).as_str())
        .concat("\n")
}

/// One text for each, in order.
pub open spec fn role_lines(c: Cluster) -> Seq<Seq<char>> {
    let list = c.cluster.role@;
    Seq::new(list.len(), |i: int| role_line(c, list[i]))
}

fn role_lines_of(c: &Cluster) -> (out: Vec<String>)
    ensures
        views(out@) == role_lines(*c),
{
    let list = &c.cluster.role;
    let ghost all = c.cluster.role@;
    let mut out: Vec<String> = Vec::new();
    let mut i: usize = 0;
    while i < list.len()
        invariant
            i <= list.len(),
            all == c.cluster.role@,
            list@ == all,
            out.len() == i,
            forall|k: int| 0 <= k < i ==> (#[trigger] out@[k])@ == role_line(*c, all[k]),
        decreases list.len() - i,
    {
        proof {
            assert(all[i as int] == list@[i as int]);
        }
        out.push(role_line_of(c, &list[i]));
        i = i + 1;
    }
    proof {
        assert(views(out@) =~= role_lines(*c));
    }
    out
}

/// Whether both interface classes are declared.
pub open spec fn has_classes(c: Cluster) -> bool {
    row(c.network.class@, "mesh"@) is Some && row(c.network.class@, "lan"@) is Some
}

/// The thresholds, bases and metrics a node computes with.
pub open spec fn init_conf_file(c: Cluster) -> File {
    let mesh = row(c.network.class@, "mesh"@).unwrap();
    let lan = row(c.network.class@, "lan"@).unwrap();
    File {
        path: "node/init.conf"@,
        ids: seq!["CD-01"@, "CD-02"@, "CD-17"@],
        body: "# The policy a node configures itself from. Ports are sorted by the speed\n# their driver supports, addresses follow from an ordinal, and peers are found\n# by asking the far end of each cable.\n\nmesh_min_speed_mbps="@
            + decimal(mesh.min_speed_mbps as nat)
            + "\nmesh_count="@
            + decimal(mesh.count as nat)
            + "\nmesh_mtu="@
            + decimal(mesh.mtu as nat)
            + "\nmesh_addressing="@
            + mesh.addressing@
            + "\nlan_min_speed_mbps="@
            + decimal(lan.min_speed_mbps as nat)
            + "\nlan_count="@
            + decimal(lan.count as nat)
            + "\nlan_mtu="@
            + decimal(lan.mtu as nat)
            + "\nlan_addressing="@
            + lan.addressing@
            + "\nfleet_size="@
            + decimal(c.cluster.fleet.size as nat)
            + "\nloopback_base="@
            + c.network.addressing.loopback_base@
            + "\nloopback_prefix_len="@
            + decimal(c.network.addressing.loopback_prefix_len as nat)
            + "\nlink_base="@
            + c.network.addressing.link_base@
            + "\nlink_prefix_len="@
            + decimal(c.network.addressing.link_prefix_len as nat)
            + "\ndirect_metric="@
            + decimal(c.network.routing.direct_metric as nat)
            + "\ntransit_metric="@
            + decimal(c.network.routing.transit_metric as nat)
            + "\ndiscovery_group="@
            + c.network.discovery.group@
            + "\ndiscovery_port="@
            + decimal(c.network.discovery.port as nat)
            + "\ndiscovery_interval_ms="@
            + decimal(c.network.discovery.interval_ms as nat)
            + "\ndiscovery_timeout_s="@
            + decimal(c.network.discovery.timeout_s as nat)
            + "\nmachine_id_path="@
            + c.cluster.identity.source@
            + "\nbulk_disk_min_gb="@
            + decimal(c.cluster.detection.bulk_disk_min_gb as nat)
            + "\ndomain="@
            + c.cluster.domain@
            + "\nname_template="@
            + c.cluster.fleet.name_template@
            + "\nentry_name="@
            + c.cluster.fleet.entry_name@
            + "\nhosts_path="@
            + c.network.hosts.path@
            + "\nhosts_staging_path="@
            + c.network.hosts.staging_path@
            + "\n"@
            + concat_all(role_lines(c)),
    }
}

pub(crate) fn init_conf(c: &Cluster) -> (r: Rendered)
    requires
        has_classes(*c),
    ensures
        r@ == init_conf_file(*c),
{
    let mesh = c.network.mesh_class().unwrap();
    let lan = c.network.lan_class().unwrap();
    let path = "node/init.conf".to_owned();
    let body = "# The policy a node configures itself from. Ports are sorted by the speed\n# their driver supports, addresses follow from an ordinal, and peers are found\n# by asking the far end of each cable.\n\nmesh_min_speed_mbps=".to_owned()
        .concat(decimal_of(mesh.min_speed_mbps as u64).as_str())
        .concat("\nmesh_count=")
        .concat(decimal_of(mesh.count as u64).as_str())
        .concat("\nmesh_mtu=")
        .concat(decimal_of(mesh.mtu as u64).as_str())
        .concat("\nmesh_addressing=")
        .concat(mesh.addressing.as_str())
        .concat("\nlan_min_speed_mbps=")
        .concat(decimal_of(lan.min_speed_mbps as u64).as_str())
        .concat("\nlan_count=")
        .concat(decimal_of(lan.count as u64).as_str())
        .concat("\nlan_mtu=")
        .concat(decimal_of(lan.mtu as u64).as_str())
        .concat("\nlan_addressing=")
        .concat(lan.addressing.as_str())
        .concat("\nfleet_size=")
        .concat(decimal_of(c.cluster.fleet.size as u64).as_str())
        .concat("\nloopback_base=")
        .concat(c.network.addressing.loopback_base.as_str())
        .concat("\nloopback_prefix_len=")
        .concat(decimal_of(c.network.addressing.loopback_prefix_len as u64).as_str())
        .concat("\nlink_base=")
        .concat(c.network.addressing.link_base.as_str())
        .concat("\nlink_prefix_len=")
        .concat(decimal_of(c.network.addressing.link_prefix_len as u64).as_str())
        .concat("\ndirect_metric=")
        .concat(decimal_of(c.network.routing.direct_metric as u64).as_str())
        .concat("\ntransit_metric=")
        .concat(decimal_of(c.network.routing.transit_metric as u64).as_str())
        .concat("\ndiscovery_group=")
        .concat(c.network.discovery.group.as_str())
        .concat("\ndiscovery_port=")
        .concat(decimal_of(c.network.discovery.port as u64).as_str())
        .concat("\ndiscovery_interval_ms=")
        .concat(decimal_of(c.network.discovery.interval_ms as u64).as_str())
        .concat("\ndiscovery_timeout_s=")
        .concat(decimal_of(c.network.discovery.timeout_s as u64).as_str())
        .concat("\nmachine_id_path=")
        .concat(c.cluster.identity.source.as_str())
        .concat("\nbulk_disk_min_gb=")
        .concat(decimal_of(c.cluster.detection.bulk_disk_min_gb as u64).as_str())
        .concat("\ndomain=")
        .concat(c.cluster.domain.as_str())
        .concat("\nname_template=")
        .concat(c.cluster.fleet.name_template.as_str())
        .concat("\nentry_name=")
        .concat(c.cluster.fleet.entry_name.as_str())
        .concat("\nhosts_path=")
        .concat(c.network.hosts.path.as_str())
        .concat("\nhosts_staging_path=")
        .concat(c.network.hosts.staging_path.as_str())
        .concat("\n")
        .concat(concat_strings(&role_lines_of(c)).as_str());
    Rendered::new(path, ids3("CD-01", "CD-02", "CD-17"), body)
}

/// Whether a node forwards, as the kernel is told.
pub open spec fn forward_text(c: Cluster) -> Seq<char> {
    if c.network.routing.ip_forward {
        "1"@
    } else {
        "0"@
    }
}

fn forward(c: &Cluster) -> (r: String)
    ensures
        r@ == forward_text(*c),
{
    if c.network.routing.ip_forward {
        "1".to_owned()
    } else {
        "0".to_owned()
    }
}

/// Forwarding, so that a transit route has something to transit.
pub open spec fn sysctl_file(c: Cluster) -> File {
    File {
        path: "node/sysctl.d/90-cluster.conf"@,
        ids: seq!["CD-02"@],
        body: "# Forwarding, so that a transit route has something to transit (§4.2).\n# Without this a node in the middle of a failover path drops the packets\n# its own route table told a peer to send it.\nnet.ipv4.ip_forward="@
            + forward_text(c)
            + "\n"@,
    }
}

pub(crate) fn sysctl(c: &Cluster) -> (r: Rendered)
    ensures
        r@ == sysctl_file(*c),
{
    let path = "node/sysctl.d/90-cluster.conf".to_owned();
    let body = "# Forwarding, so that a transit route has something to transit (§4.2).\n# Without this a node in the middle of a failover path drops the packets\n# its own route table told a peer to send it.\nnet.ipv4.ip_forward=".to_owned()
        .concat(forward(c).as_str())
        .concat("\n");
    Rendered::new(path, ids1("CD-02"), body)
}

/// The network policy of the image.
pub open spec fn policy_files(c: Cluster) -> Seq<File> {
    seq![init_conf_file(c), sysctl_file(c)]
}

/// The network policy of the image.
pub(crate) fn render(c: &Cluster) -> (out: Vec<Rendered>)
    requires
        has_classes(*c),
    ensures
        files(out@) == policy_files(*c),
{
    let out = vec![init_conf(c), sysctl(c)];
    proof {
        assert(files(out@) =~= policy_files(*c));
    }
    out
}

// ---- the units of one machine ----

/// How the management interface comes by its address.
pub open spec fn lan_address_text(lan: Class, machine: Machine) -> Seq<char> {
    if lan.addressing@ == "dhcp"@ {
        "DHCP=yes\n"@
    } else {
        "Address="@
            + machine.mgmt_address@
            + "\n"@
    }
}

fn lan_address(lan: &Class, machine: &Machine) -> (r: String)
    ensures
        r@ == lan_address_text(*lan, *machine),
{
    if same(lan.addressing.as_str(), "dhcp") {
        "DHCP=yes\n".to_owned()
    } else {
        "Address=".to_owned()
            .concat(machine.mgmt_address.as_str())
            .concat("\n")
    }
}

/// The management interface of a machine.
pub open spec fn mgmt_file(c: Cluster, node: Slot, machine: Machine) -> File {
    let lan = row(c.network.class@, "lan"@).unwrap();
    File {
        path: node.name
            + "/systemd-network/10-mgmt.network"@,
        ids: seq!["CD-01"@],
        body: "# "@
            + node.name
            + "'s management interface. "@
            + lan.description@
            + "\n\n[Match]\nMACAddress="@
            + machine.mac.mgmt@
            + "\n\n[Link]\nMTUBytes="@
            + decimal(lan.mtu as nat)
            + "\n\n[Network]\n"@
            + lan_address_text(lan, machine)
            + "IPv6AcceptRA=no\n\n"@,
    }
}

pub fn mgmt(c: &Cluster, node: &Node, machine: &Machine) -> (r: Rendered)
    requires
        has_classes(*c),
    ensures
        r@ == mgmt_file(*c, node@, *machine),
{
    let lan = c.network.lan_class().unwrap();
    let path = node.name.clone()
        .concat("/systemd-network/10-mgmt.network");
    let body = "# ".to_owned()
        .concat(node.name.as_str())
        .concat("'s management interface. ")
        .concat(lan.description.as_str())
        .concat("\n\n[Match]\nMACAddress=")
        .concat(machine.mac.mgmt.as_str())
        .concat("\n\n[Link]\nMTUBytes=")
        .concat(decimal_of(lan.mtu as u64).as_str())
        .concat("\n\n[Network]\n")
        .concat(lan_address(lan, machine).as_str())
        .concat("IPv6AcceptRA=no\n\n");
    Rendered::new(path, ids1("CD-01"), body)
}

/// The mesh loopback of a slot, which every mesh service binds.
pub open spec fn loopback_file(node: Slot) -> File {
    File {
        path: node.name
            + "/systemd-network/30-loopback.network"@,
        ids: seq!["CD-01"@],
        body: "# "@
            + node.name
            + "'s mesh loopback. Every mesh service binds this address, which\n# decouples service addressing from which link carries a flow and makes\n# reachability assertions meaningful (§4.1).\n#\n# Matched by name and not by MAC: the loopback has no card. CD-01 is\n# worded to cover physical interfaces for exactly this reason.\n\n[Match]\nName=lo\n\n[Network]\nAddress="@
            + node.loopback
            + "/32\n\n"@,
    }
}

pub fn loopback(node: &Node) -> (r: Rendered)
    ensures
        r@ == loopback_file(node@),
{
    let path = node.name.clone()
        .concat("/systemd-network/30-loopback.network");
    let body = "# ".to_owned()
        .concat(node.name.as_str())
        .concat("'s mesh loopback. Every mesh service binds this address, which\n# decouples service addressing from which link carries a flow and makes\n# reachability assertions meaningful (§4.1).\n#\n# Matched by name and not by MAC: the loopback has no card. CD-01 is\n# worded to cover physical interfaces for exactly this reason.\n\n[Match]\nName=lo\n\n[Network]\nAddress=")
        .concat(node.loopback.as_str())
        .concat("/32\n\n");
    Rendered::new(path, ids1("CD-01"), body)
}

/// The route to `other` through `peer`; none where `other` is the peer itself.
pub open spec fn transit_line(c: Cluster, peer: Slot, gateway: Seq<char>, other: Slot) -> Seq<char> {
    if other.name == peer.name {
        Seq::empty()
    } else {
        "# Transit to "@
            + other.name
            + " via "@
            + peer.name
            + ". One hop more than the direct link, and only\n# selected when the direct route is gone.\n[Route]\nDestination="@
            + other.loopback
            + "/32\nGateway="@
            + gateway
            + "\nMetric="@
            + decimal(c.network.routing.transit_metric as nat)
            + "\n\n"@
    }
}

/// The routes through `peer`, one for each of `rest`.
pub open spec fn transit_lines(
    c: Cluster,
    peer: Slot,
    gateway: Seq<char>,
    rest: Seq<Slot>,
) -> Seq<Seq<char>> {
    Seq::new(rest.len(), |i: int| transit_line(c, peer, gateway, rest[i]))
}

fn transit_lines_of(c: &Cluster, peer: &Node, gateway: &str, rest: &Vec<Node>) -> (out: Vec<String>)
    ensures
        views(out@) == transit_lines(*c, peer@, gateway@, slots(rest@)),
{
    let mut out: Vec<String> = Vec::new();
    let mut i: usize = 0;
    while i < rest.len()
        invariant
            i <= rest.len(),
            out.len() == i,
            forall|k: int|
                0 <= k < i ==> (#[trigger] out@[k])@ == transit_line(
                    *c,
                    peer@,
                    gateway@,
                    rest@[k]@,
                ),
        decreases rest.len() - i,
    {
        let other = &rest[i];
        if same(other.name.as_str(), peer.name.as_str()) {
            out.push(String::new());
        } else {
            out.push(
                "# Transit to ".to_owned()
                    .concat(other.name.as_str())
                    .concat(" via ")
                    .concat(peer.name.as_str())
                    .concat(". One hop more than the direct link, and only\n# selected when the direct route is gone.\n[Route]\nDestination=")
                    .concat(other.loopback.as_str())
                    .concat("/32\nGateway=")
                    .concat(gateway)
                    .concat("\nMetric=")
                    .concat(decimal_of(c.network.routing.transit_metric as u64).as_str())
                    .concat("\n\n"),
            );
        }
        i = i + 1;
    }
    proof {
        assert(views(out@) =~= transit_lines(*c, peer@, gateway@, slots(rest@)));
    }
    out
}

/// The mesh unit of one port: its link, the direct route to its peer, and the
/// routes to every other peer through that one.
///
/// `number` and `suffix` name the file; `role` names the port and `mac` is its
/// address.
pub open spec fn port_file(
    c: Cluster,
    node: Slot,
    mac: Seq<char>,
    link: Link,
    number: Seq<char>,
    role: Seq<char>,
    suffix: Seq<char>,
) -> File {
    let mesh = row(c.network.class@, "mesh"@).unwrap();
    let peer = c.slot_at(link.peer_spec(node.ordinal).unwrap()).unwrap();
    let own = dotted(link.address_spec(node.ordinal).unwrap().bits);
    let gateway = dotted(link.address_spec(peer.ordinal).unwrap().bits);
    File {
        path: node.name + "/systemd-network/"@ + number + "-mesh-"@ + suffix + ".network"@,
        ids: seq!["CD-01"@, "CD-02"@],
        body: "# "@
            + node.name
            + " -> "@
            + peer.name
            + " over "@
            + role
            + ", link "@
            + link.id_spec()
            + ". Direct-attached: no switch, so the\n# segment has exactly two endpoints and §4.4 trusts it in full.\n\n[Match]\nMACAddress="@
            + mac
            + "\n\n[Link]\nMTUBytes="@
            + decimal(mesh.mtu as nat)
            + "\n\n[Network]\nAddress="@
            + own
            + "/31\nLinkLocalAddressing=no\nIPv6AcceptRA=no\n\n# Direct route to "@
            + peer.name
            + ". Withdrawn by networkd on carrier loss, at which\n# point the metric-"@
            + decimal(c.network.routing.transit_metric as nat)
            + " route on the other mesh interface takes over.\n[Route]\nDestination="@
            + peer.loopback
            + "/32\nGateway="@
            + gateway
            + "\nMetric="@
            + decimal(c.network.routing.direct_metric as nat)
            + "\n\n"@
            + concat_all(transit_lines(c, peer, gateway, others(c.slots_spec(), node.name))),
    }
}

/// Whether every ordinal of the fleet has a slot.
pub open spec fn every_slot(c: Cluster) -> bool {
    forall|n: u32| 1 <= n <= c.cluster.fleet.size ==> (#[trigger] c.slot_at(n)) is Some
}

fn port(
    c: &Cluster,
    node: &Node,
    mac: &str,
    link: &Link,
    number: &str,
    role: &str,
    suffix: &str,
) -> (r: Rendered)
    requires
        has_classes(*c),
        link.lower == node.ordinal || link.higher == node.ordinal,
        c.slot_at(link.peer_spec(node.ordinal).unwrap()) is Some,
    ensures
        r@ == port_file(*c, node@, mac@, *link, number@, role@, suffix@),
{
    proof {
        reveal(Cluster::slot_at);
    }
    let mesh = c.network.mesh_class().unwrap();
    let peer = c.node_at(link.peer_of(node.ordinal).unwrap()).unwrap();
    let own_text = link.address_of(node.ordinal).unwrap().to_text();
    let own = own_text.as_str();
    let gateway_text = link.address_of(peer.ordinal).unwrap().to_text();
    let gateway = gateway_text.as_str();
    let path = node.name.clone().concat("/systemd-network/").concat(number).concat(
        "-mesh-",
    ).concat(suffix).concat(".network");
    let body = "# ".to_owned()
        .concat(node.name.as_str())
        .concat(" -> ")
        .concat(peer.name.as_str())
        .concat(" over ")
        .concat(role)
        .concat(", link ")
        .concat(link.id().as_str())
        .concat(". Direct-attached: no switch, so the\n# segment has exactly two endpoints and §4.4 trusts it in full.\n\n[Match]\nMACAddress=")
        .concat(mac)
        .concat("\n\n[Link]\nMTUBytes=")
        .concat(decimal_of(mesh.mtu as u64).as_str())
        .concat("\n\n[Network]\nAddress=")
        .concat(own)
        .concat("/31\nLinkLocalAddressing=no\nIPv6AcceptRA=no\n\n# Direct route to ")
        .concat(peer.name.as_str())
        .concat(". Withdrawn by networkd on carrier loss, at which\n# point the metric-")
        .concat(decimal_of(c.network.routing.transit_metric as u64).as_str())
        .concat(" route on the other mesh interface takes over.\n[Route]\nDestination=")
        .concat(peer.loopback.as_str())
        .concat("/32\nGateway=")
        .concat(gateway)
        .concat("\nMetric=")
        .concat(decimal_of(c.network.routing.direct_metric as u64).as_str())
        .concat("\n\n")
        .concat(concat_strings(&transit_lines_of(c, &peer, gateway, &c.peers_of(node.name.as_str()))).as_str());
    Rendered::new(path, ids2("CD-01", "CD-02"), body)
}

/// The mesh units of a slot on a machine: one for each of its two ports that
/// has a link, the first port on the first link.
pub open spec fn mesh_files(c: Cluster, node: Slot, machine: Machine) -> Seq<File> {
    let links = c.network.addressing.links_of_spec(node.ordinal, c.cluster.fleet.size);
    let a = port_file(c, node, machine.mac.mesh_a@, links[0], "20"@, "mesh_a"@, "a"@);
    let b = port_file(c, node, machine.mac.mesh_b@, links[1], "21"@, "mesh_b"@, "b"@);
    if links.len() == 0 {
        Seq::empty()
    } else if links.len() == 1 {
        seq![a]
    } else {
        seq![a, b]
    }
}

/// The mesh units of a slot on a machine.
pub fn mesh(c: &Cluster, node: &Node, machine: &Machine) -> (out: Vec<Rendered>)
    requires
        has_classes(*c),
        every_slot(*c),
        c.cluster.fleet.size <= 65536,
    ensures
        files(out@) == mesh_files(*c, node@, *machine),
{
    let n: u32 = c.cluster.fleet.size;
    let links = c.network.addressing.links_of(node.ordinal, n);
    proof {
        lemma_links_of(c.network.addressing, node.ordinal, n);
    }
    let mut out: Vec<Rendered> = Vec::new();
    if links.len() > 0 {
        proof {
            let link = links@[0];
            assert(c.slot_at(link.peer_spec(node.ordinal).unwrap()) is Some);
        }
        out.push(port(c, node, machine.mac.mesh_a.as_str(), &links[0], "20", "mesh_a", "a"));
    }
    if links.len() > 1 {
        proof {
            let link = links@[1];
            assert(c.slot_at(link.peer_spec(node.ordinal).unwrap()) is Some);
        }
        out.push(port(c, node, machine.mac.mesh_b.as_str(), &links[1], "21", "mesh_b", "b"));
    }
    proof {
        assert(files(out@) =~= mesh_files(*c, node@, *machine));
    }
    out
}

/// Every network unit of a slot on a machine.
pub open spec fn machine_files(c: Cluster, node: Slot, machine: Machine) -> Seq<File> {
    seq![mgmt_file(c, node, machine)] + mesh_files(c, node, machine) + seq![loopback_file(node)]
}

/// Every network unit of a slot on a machine, written once its ordinal is known.
pub fn machine_units(c: &Cluster, node: &Node, machine: &Machine) -> (out: Vec<Rendered>)
    requires
        has_classes(*c),
        every_slot(*c),
        c.cluster.fleet.size <= 65536,
    ensures
        files(out@) == machine_files(*c, node@, *machine),
{
    let mut out: Vec<Rendered> = vec![mgmt(c, node, machine)];
    let mut ports = mesh(c, node, machine);
    let ghost middle = ports@;
    out.append(&mut ports);
    out.push(loopback(node));
    proof {
        assert(files(out@) =~= machine_files(*c, node@, *machine));
    }
    out
}

// ---- laws of the links ----

proof fn lemma_row(a: Addressing, x: int, b: int, n: u32)
    requires
        1 <= x <= n,
        b <= n + 1,
    ensures
        forall|k: int|
            0 <= k < a.row_links(x, b, n).len() ==> {
                let link = #[trigger] a.row_links(x, b, n)[k];
                1 <= link.lower < link.higher <= n
            },
    decreases b - x,
{
    if b > x + 1 {
        lemma_row(a, x, b - 1, n);
        let before = a.row_links(x, b - 1, n);
        assert forall|k: int| 0 <= k < a.row_links(x, b, n).len() implies ({
            let link = #[trigger] a.row_links(x, b, n)[k];
            1 <= link.lower < link.higher <= n
        }) by {
            if k < before.len() {
                assert(a.row_links(x, b, n)[k] == before[k]);
            }
        }
    }
}

proof fn lemma_below(a: Addressing, c: int, n: u32)
    requires
        c <= n + 1,
    ensures
        forall|k: int|
            0 <= k < a.links_below(c, n).len() ==> {
                let link = #[trigger] a.links_below(c, n)[k];
                1 <= link.lower < link.higher <= n
            },
    decreases c,
{
    if c > 1 {
        lemma_below(a, c - 1, n);
        lemma_row(a, c - 1, n + 1, n);
        let before = a.links_below(c - 1, n);
        let row = a.row_links(c - 1, n + 1, n);
        assert forall|k: int| 0 <= k < a.links_below(c, n).len() implies ({
            let link = #[trigger] a.links_below(c, n)[k];
            1 <= link.lower < link.higher <= n
        }) by {
            if k < before.len() {
                assert(a.links_below(c, n)[k] == before[k]);
            } else {
                assert(a.links_below(c, n)[k] == row[k - before.len()]);
            }
        }
    }
}

proof fn lemma_touching(all: Seq<Link>, ordinal: u32)
    ensures
        forall|k: int|
            0 <= k < touching(all, ordinal).len() ==> {
                let link = #[trigger] touching(all, ordinal)[k];
                &&& link.lower == ordinal || link.higher == ordinal
                &&& all.contains(link)
            },
    decreases all.len(),
{
    if all.len() > 0 {
        lemma_touching(all.drop_last(), ordinal);
        let before = touching(all.drop_last(), ordinal);
        assert forall|k: int| 0 <= k < touching(all, ordinal).len() implies ({
            let link = #[trigger] touching(all, ordinal)[k];
            &&& link.lower == ordinal || link.higher == ordinal
            &&& all.contains(link)
        }) by {
            if k < before.len() {
                let link = before[k];
                let j = all.drop_last().index_of(link);
                assert(all[j] == link);
            } else {
                assert(all[all.len() - 1] == all.last());
            }
        }
    }
}

/// Every link of an ordinal touches it, and both its ends are in the fleet.
proof fn lemma_links_of(a: Addressing, ordinal: u32, n: u32)
    ensures
        forall|k: int|
            0 <= k < a.links_of_spec(ordinal, n).len() ==> {
                let link = #[trigger] a.links_of_spec(ordinal, n)[k];
                &&& link.lower == ordinal || link.higher == ordinal
                &&& 1 <= link.lower < link.higher <= n
            },
{
    let all = a.links_spec(n);
    lemma_below(a, n + 1, n);
    lemma_touching(all, ordinal);
    assert forall|k: int| 0 <= k < a.links_of_spec(ordinal, n).len() implies ({
        let link = #[trigger] a.links_of_spec(ordinal, n)[k];
        &&& link.lower == ordinal || link.higher == ordinal
        &&& 1 <= link.lower < link.higher <= n
    }) by {
        let link = touching(all, ordinal)[k];
        assert(all.contains(link));
        let j = all.index_of(link);
        assert(all[j] == link);
    }
}

// ---- laws of the files ----

/// Network policy is given.
pub(crate) proof fn lemma_policy_files(c: Cluster)
    ensures
        is_ours(c, init_conf_file(c)),
        is_ours(c, sysctl_file(c)),
{
    reveal(is_ours);
    let all = policy_files(c);
    assert(all.contains(all[0]));
    assert(all.contains(all[1]));
}

/// A machine is told what it needs to work out what it is: the classes of its ports,
/// the addresses of the mesh, how its role is found and what its disks are.
pub proof fn a_machine_is_told_what_to_be(c: Cluster, out: Vec<Rendered>)
    requires
        call_ensures(render_all, (&c,), out),
    ensures
        ({
            let mesh = row(c.network.class@, "mesh"@).unwrap();
            let lan = row(c.network.class@, "lan"@).unwrap();
            let path = "node/init.conf"@;
            &&& shows(out@, path, "\nmesh_min_speed_mbps="@ + decimal(mesh.min_speed_mbps as nat) + "\nmesh_count="@ + decimal(mesh.count as nat) + "\nmesh_mtu="@ + decimal(mesh.mtu as nat) + "\nmesh_addressing="@ + mesh.addressing@ + "\nlan_min_speed_mbps="@ + decimal(lan.min_speed_mbps as nat) + "\nlan_count="@ + decimal(lan.count as nat) + "\nlan_mtu="@ + decimal(lan.mtu as nat) + "\nlan_addressing="@ + lan.addressing@ + "\nfleet_size="@ + decimal(c.cluster.fleet.size as nat) + "\nloopback_base="@ + c.network.addressing.loopback_base@ + "\nloopback_prefix_len="@ + decimal(c.network.addressing.loopback_prefix_len as nat) + "\nlink_base="@ + c.network.addressing.link_base@ + "\nlink_prefix_len="@ + decimal(c.network.addressing.link_prefix_len as nat) + "\ndirect_metric="@ + decimal(c.network.routing.direct_metric as nat) + "\ntransit_metric="@ + decimal(c.network.routing.transit_metric as nat) + "\ndiscovery_group="@ + c.network.discovery.group@ + "\ndiscovery_port="@ + decimal(c.network.discovery.port as nat) + "\ndiscovery_interval_ms="@ + decimal(c.network.discovery.interval_ms as nat) + "\ndiscovery_timeout_s="@ + decimal(c.network.discovery.timeout_s as nat) + "\nmachine_id_path="@ + c.cluster.identity.source@ + "\nbulk_disk_min_gb="@ + decimal(c.cluster.detection.bulk_disk_min_gb as nat) + "\ndomain="@ + c.cluster.domain@ + "\nname_template="@ + c.cluster.fleet.name_template@ + "\nentry_name="@ + c.cluster.fleet.entry_name@ + "\nhosts_path="@ + c.network.hosts.path@ + "\nhosts_staging_path="@ + c.network.hosts.staging_path@ + "\n"@ + concat_all(role_lines(c)))
        }),
{
    let mesh = row(c.network.class@, "mesh"@).unwrap();
    let lan = row(c.network.class@, "lan"@).unwrap();
    let file = init_conf_file(c);
    lemma_policy_files(c);
    lemma_is_shown(c, out, file);
    let t0 = "# The policy a node configures itself from. Ports are sorted by the speed\n# their driver supports, addresses follow from an ordinal, and peers are found\n# by asking the far end of each cable.\n\nmesh_min_speed_mbps="@;
    let b0 = t0;
    let t1 = decimal(mesh.min_speed_mbps as nat);
    let b1 = b0 + t1;
    let t2 = "\nmesh_count="@;
    let b2 = b1 + t2;
    let t3 = decimal(mesh.count as nat);
    let b3 = b2 + t3;
    let t4 = "\nmesh_mtu="@;
    let b4 = b3 + t4;
    let t5 = decimal(mesh.mtu as nat);
    let b5 = b4 + t5;
    let t6 = "\nmesh_addressing="@;
    let b6 = b5 + t6;
    let t7 = mesh.addressing@;
    let b7 = b6 + t7;
    let t8 = "\nlan_min_speed_mbps="@;
    let b8 = b7 + t8;
    let t9 = decimal(lan.min_speed_mbps as nat);
    let b9 = b8 + t9;
    let t10 = "\nlan_count="@;
    let b10 = b9 + t10;
    let t11 = decimal(lan.count as nat);
    let b11 = b10 + t11;
    let t12 = "\nlan_mtu="@;
    let b12 = b11 + t12;
    let t13 = decimal(lan.mtu as nat);
    let b13 = b12 + t13;
    let t14 = "\nlan_addressing="@;
    let b14 = b13 + t14;
    let t15 = lan.addressing@;
    let b15 = b14 + t15;
    let t16 = "\nfleet_size="@;
    let b16 = b15 + t16;
    let t17 = decimal(c.cluster.fleet.size as nat);
    let b17 = b16 + t17;
    let t18 = "\nloopback_base="@;
    let b18 = b17 + t18;
    let t19 = c.network.addressing.loopback_base@;
    let b19 = b18 + t19;
    let t20 = "\nloopback_prefix_len="@;
    let b20 = b19 + t20;
    let t21 = decimal(c.network.addressing.loopback_prefix_len as nat);
    let b21 = b20 + t21;
    let t22 = "\nlink_base="@;
    let b22 = b21 + t22;
    let t23 = c.network.addressing.link_base@;
    let b23 = b22 + t23;
    let t24 = "\nlink_prefix_len="@;
    let b24 = b23 + t24;
    let t25 = decimal(c.network.addressing.link_prefix_len as nat);
    let b25 = b24 + t25;
    let t26 = "\ndirect_metric="@;
    let b26 = b25 + t26;
    let t27 = decimal(c.network.routing.direct_metric as nat);
    let b27 = b26 + t27;
    let t28 = "\ntransit_metric="@;
    let b28 = b27 + t28;
    let t29 = decimal(c.network.routing.transit_metric as nat);
    let b29 = b28 + t29;
    let t30 = "\ndiscovery_group="@;
    let b30 = b29 + t30;
    let t31 = c.network.discovery.group@;
    let b31 = b30 + t31;
    let t32 = "\ndiscovery_port="@;
    let b32 = b31 + t32;
    let t33 = decimal(c.network.discovery.port as nat);
    let b33 = b32 + t33;
    let t34 = "\ndiscovery_interval_ms="@;
    let b34 = b33 + t34;
    let t35 = decimal(c.network.discovery.interval_ms as nat);
    let b35 = b34 + t35;
    let t36 = "\ndiscovery_timeout_s="@;
    let b36 = b35 + t36;
    let t37 = decimal(c.network.discovery.timeout_s as nat);
    let b37 = b36 + t37;
    let t38 = "\nmachine_id_path="@;
    let b38 = b37 + t38;
    let t39 = c.cluster.identity.source@;
    let b39 = b38 + t39;
    let t40 = "\nbulk_disk_min_gb="@;
    let b40 = b39 + t40;
    let t41 = decimal(c.cluster.detection.bulk_disk_min_gb as nat);
    let b41 = b40 + t41;
    let t42 = "\ndomain="@;
    let b42 = b41 + t42;
    let t43 = c.cluster.domain@;
    let b43 = b42 + t43;
    let t44 = "\nname_template="@;
    let b44 = b43 + t44;
    let t45 = c.cluster.fleet.name_template@;
    let b45 = b44 + t45;
    let t46 = "\nentry_name="@;
    let b46 = b45 + t46;
    let t47 = c.cluster.fleet.entry_name@;
    let b47 = b46 + t47;
    let t48 = "\nhosts_path="@;
    let b48 = b47 + t48;
    let t49 = c.network.hosts.path@;
    let b49 = b48 + t49;
    let t50 = "\nhosts_staging_path="@;
    let b50 = b49 + t50;
    let t51 = c.network.hosts.staging_path@;
    let b51 = b50 + t51;
    let t52 = "\n"@;
    let b52 = b51 + t52;
    let t53 = concat_all(role_lines(c));
    let b53 = b52 + t53;
    lemma_init_conf_file_0();
    let q0 = "\nmesh_min_speed_mbps="@;
    lemma_tail_grows(b0, q0, t1);
    let q1 = q0 + t1;
    lemma_tail_grows(b1, q1, t2);
    let q2 = q1 + t2;
    lemma_tail_grows(b2, q2, t3);
    let q3 = q2 + t3;
    lemma_tail_grows(b3, q3, t4);
    let q4 = q3 + t4;
    lemma_tail_grows(b4, q4, t5);
    let q5 = q4 + t5;
    lemma_tail_grows(b5, q5, t6);
    let q6 = q5 + t6;
    lemma_tail_grows(b6, q6, t7);
    let q7 = q6 + t7;
    lemma_tail_grows(b7, q7, t8);
    let q8 = q7 + t8;
    lemma_tail_grows(b8, q8, t9);
    let q9 = q8 + t9;
    lemma_tail_grows(b9, q9, t10);
    let q10 = q9 + t10;
    lemma_tail_grows(b10, q10, t11);
    let q11 = q10 + t11;
    lemma_tail_grows(b11, q11, t12);
    let q12 = q11 + t12;
    lemma_tail_grows(b12, q12, t13);
    let q13 = q12 + t13;
    lemma_tail_grows(b13, q13, t14);
    let q14 = q13 + t14;
    lemma_tail_grows(b14, q14, t15);
    let q15 = q14 + t15;
    lemma_tail_grows(b15, q15, t16);
    let q16 = q15 + t16;
    lemma_tail_grows(b16, q16, t17);
    let q17 = q16 + t17;
    lemma_tail_grows(b17, q17, t18);
    let q18 = q17 + t18;
    lemma_tail_grows(b18, q18, t19);
    let q19 = q18 + t19;
    lemma_tail_grows(b19, q19, t20);
    let q20 = q19 + t20;
    lemma_tail_grows(b20, q20, t21);
    let q21 = q20 + t21;
    lemma_tail_grows(b21, q21, t22);
    let q22 = q21 + t22;
    lemma_tail_grows(b22, q22, t23);
    let q23 = q22 + t23;
    lemma_tail_grows(b23, q23, t24);
    let q24 = q23 + t24;
    lemma_tail_grows(b24, q24, t25);
    let q25 = q24 + t25;
    lemma_tail_grows(b25, q25, t26);
    let q26 = q25 + t26;
    lemma_tail_grows(b26, q26, t27);
    let q27 = q26 + t27;
    lemma_tail_grows(b27, q27, t28);
    let q28 = q27 + t28;
    lemma_tail_grows(b28, q28, t29);
    let q29 = q28 + t29;
    lemma_tail_grows(b29, q29, t30);
    let q30 = q29 + t30;
    lemma_tail_grows(b30, q30, t31);
    let q31 = q30 + t31;
    lemma_tail_grows(b31, q31, t32);
    let q32 = q31 + t32;
    lemma_tail_grows(b32, q32, t33);
    let q33 = q32 + t33;
    lemma_tail_grows(b33, q33, t34);
    let q34 = q33 + t34;
    lemma_tail_grows(b34, q34, t35);
    let q35 = q34 + t35;
    lemma_tail_grows(b35, q35, t36);
    let q36 = q35 + t36;
    lemma_tail_grows(b36, q36, t37);
    let q37 = q36 + t37;
    lemma_tail_grows(b37, q37, t38);
    let q38 = q37 + t38;
    lemma_tail_grows(b38, q38, t39);
    let q39 = q38 + t39;
    lemma_tail_grows(b39, q39, t40);
    let q40 = q39 + t40;
    lemma_tail_grows(b40, q40, t41);
    let q41 = q40 + t41;
    lemma_tail_grows(b41, q41, t42);
    let q42 = q41 + t42;
    lemma_tail_grows(b42, q42, t43);
    let q43 = q42 + t43;
    lemma_tail_grows(b43, q43, t44);
    let q44 = q43 + t44;
    lemma_tail_grows(b44, q44, t45);
    let q45 = q44 + t45;
    lemma_tail_grows(b45, q45, t46);
    let q46 = q45 + t46;
    lemma_tail_grows(b46, q46, t47);
    let q47 = q46 + t47;
    lemma_tail_grows(b47, q47, t48);
    let q48 = q47 + t48;
    lemma_tail_grows(b48, q48, t49);
    let q49 = q48 + t49;
    lemma_tail_grows(b49, q49, t50);
    let q50 = q49 + t50;
    lemma_tail_grows(b50, q50, t51);
    let q51 = q50 + t51;
    lemma_tail_grows(b51, q51, t52);
    let q52 = q51 + t52;
    lemma_tail_grows(b52, q52, t53);
    let q53 = q52 + t53;
    let text = q53;
    lemma_shows(out@, file, text);
}

proof fn lemma_init_conf_file_0()
    ensures
        is_tail("# The policy a node configures itself from. Ports are sorted by the speed\n# their driver supports, addresses follow from an ordinal, and peers are found\n# by asking the far end of each cable.\n\nmesh_min_speed_mbps="@, "\nmesh_min_speed_mbps="@),
{
    reveal(is_tail);
    reveal_strlit("# The policy a node configures itself from. Ports are sorted by the speed\n# their driver supports, addresses follow from an ordinal, and peers are found\n# by asking the far end of each cable.\n\nmesh_min_speed_mbps=");
    reveal_strlit("\nmesh_min_speed_mbps=");
    assert("# The policy a node configures itself from. Ports are sorted by the speed\n# their driver supports, addresses follow from an ordinal, and peers are found\n# by asking the far end of each cable.\n\nmesh_min_speed_mbps="@.subrange(192, 213) =~= "\nmesh_min_speed_mbps="@);
}

/// Forwarding is as the model declares.
pub proof fn forwarding_is_as_the_model_declares(c: Cluster, out: Vec<Rendered>)
    requires
        call_ensures(render_all, (&c,), out),
    ensures
        ({
            let path = "node/sysctl.d/90-cluster.conf"@;
            &&& shows(out@, path, "\nnet.ipv4.ip_forward="@ + forward_text(c) + "\n"@)
        }),
{
    let file = sysctl_file(c);
    lemma_policy_files(c);
    lemma_is_shown(c, out, file);
    let t0 = "# Forwarding, so that a transit route has something to transit (§4.2).\n# Without this a node in the middle of a failover path drops the packets\n# its own route table told a peer to send it.\nnet.ipv4.ip_forward="@;
    let b0 = t0;
    let t1 = forward_text(c);
    let b1 = b0 + t1;
    let t2 = "\n"@;
    let b2 = b1 + t2;
    lemma_sysctl_file_0();
    let q0 = "\nnet.ipv4.ip_forward="@;
    lemma_tail_grows(b0, q0, t1);
    let q1 = q0 + t1;
    lemma_tail_grows(b1, q1, t2);
    let q2 = q1 + t2;
    let text = q2;
    lemma_shows(out@, file, text);
}

proof fn lemma_sysctl_file_0()
    ensures
        is_tail("# Forwarding, so that a transit route has something to transit (§4.2).\n# Without this a node in the middle of a failover path drops the packets\n# its own route table told a peer to send it.\nnet.ipv4.ip_forward="@, "\nnet.ipv4.ip_forward="@),
{
    reveal(is_tail);
    reveal_strlit("# Forwarding, so that a transit route has something to transit (§4.2).\n# Without this a node in the middle of a failover path drops the packets\n# its own route table told a peer to send it.\nnet.ipv4.ip_forward=");
    reveal_strlit("\nnet.ipv4.ip_forward=");
    assert("# Forwarding, so that a transit route has something to transit (§4.2).\n# Without this a node in the middle of a failover path drops the packets\n# its own route table told a peer to send it.\nnet.ipv4.ip_forward="@.subrange(189, 210) =~= "\nnet.ipv4.ip_forward="@);
}

// ---- laws of a machine's units ----

proof fn lemma_machine_shown(
    c: Cluster,
    node: Node,
    machine: Machine,
    out: Vec<Rendered>,
    file: File,
)
    requires
        call_ensures(machine_units, (&c, &node, &machine), out),
        machine_files(c, node@, machine).contains(file),
    ensures
        is_shown(out@, file),
{
    reveal(is_shown);
    reveal(shows);
    let k = machine_files(c, node@, machine).index_of(file);
    assert(files(out@)[k] == out@[k]@);
    assert forall|text: Seq<char>| crate::text::holds(file.body, text) implies #[trigger] shows(
        out@,
        file.path,
        text,
    ) by {
        let at = choose|at: int| occurs_at(file.body, text, at);
        assert(out@[k].body@.subrange(at, at + text.len()) =~= text);
        assert(out@[k].path@ == file.path);
    }
}

proof fn lemma_machine_files(c: Cluster, node: Slot, machine: Machine)
    ensures
        ({
            let links = c.network.addressing.links_of_spec(node.ordinal, c.cluster.fleet.size);
            let all = machine_files(c, node, machine);
            &&& all.contains(mgmt_file(c, node, machine))
            &&& all.contains(loopback_file(node))
            &&& links.len() > 0 ==> all.contains(
                port_file(c, node, machine.mac.mesh_a@, links[0], "20"@, "mesh_a"@, "a"@),
            )
            &&& links.len() > 1 ==> all.contains(
                port_file(c, node, machine.mac.mesh_b@, links[1], "21"@, "mesh_b"@, "b"@),
            )
        }),
{
    let links = c.network.addressing.links_of_spec(node.ordinal, c.cluster.fleet.size);
    let all = machine_files(c, node, machine);
    assert(all[0] == mgmt_file(c, node, machine));
    assert(all[all.len() - 1] == loopback_file(node));
    if links.len() > 0 {
        assert(all[1] == port_file(c, node, machine.mac.mesh_a@, links[0], "20"@, "mesh_a"@, "a"@));
    }
    if links.len() > 1 {
        assert(all[2] == port_file(c, node, machine.mac.mesh_b@, links[1], "21"@, "mesh_b"@, "b"@));
    }
}

/// The management port of a machine is matched by its address and takes its place
/// on the LAN.
pub proof fn a_machine_is_managed_from_the_lan(c: Cluster, out: Vec<Rendered>, machine_node: Node, machine: Machine)
    requires
        call_ensures(machine_units, (&c, &machine_node, &machine), out),
    ensures
        ({
            let node = machine_node@;
            let lan = row(c.network.class@, "lan"@).unwrap();
            let path = node.name + "/systemd-network/10-mgmt.network"@;
            &&& shows(out@, path, "\n[Match]\nMACAddress="@ + machine.mac.mgmt@ + "\n"@)
            &&& shows(out@, path, "\n[Link]\nMTUBytes="@ + decimal(lan.mtu as nat) + "\n"@)
            &&& shows(out@, path, "\n[Network]\n"@ + lan_address_text(lan, machine) + "IPv6AcceptRA=no\n"@)
        }),
{
    let node = machine_node@;
    let lan = row(c.network.class@, "lan"@).unwrap();
    let file = mgmt_file(c, node, machine);
    lemma_machine_files(c, node, machine);
    lemma_machine_shown(c, machine_node, machine, out, file);
    let t0 = "# "@;
    let b0 = t0;
    let t1 = node.name;
    let b1 = b0 + t1;
    let t2 = "'s management interface. "@;
    let b2 = b1 + t2;
    let t3 = lan.description@;
    let b3 = b2 + t3;
    let t4 = "\n\n[Match]\nMACAddress="@;
    let b4 = b3 + t4;
    let t5 = machine.mac.mgmt@;
    let b5 = b4 + t5;
    let t6 = "\n\n[Link]\nMTUBytes="@;
    let b6 = b5 + t6;
    let t7 = decimal(lan.mtu as nat);
    let b7 = b6 + t7;
    let t8 = "\n\n[Network]\n"@;
    let b8 = b7 + t8;
    let t9 = lan_address_text(lan, machine);
    let b9 = b8 + t9;
    let t10 = "IPv6AcceptRA=no\n\n"@;
    let b10 = b9 + t10;
    lemma_mgmt_file_0();
    let q4 = "\n[Match]\nMACAddress="@;
    lemma_tail_right(b3, t4, q4);
    lemma_tail_grows(b4, q4, t5);
    let q5 = q4 + t5;
    lemma_mgmt_file_1();
    lemma_tail_is_cut(b5, q5, t6, "\n"@);
    let text = q5 + "\n"@;
    lemma_part_left(b6, t7, text);
    lemma_part_left(b7, t8, text);
    lemma_part_left(b8, t9, text);
    lemma_part_left(b9, t10, text);
    lemma_shows(out@, file, text);
    lemma_mgmt_file_2();
    let q6 = "\n[Link]\nMTUBytes="@;
    lemma_tail_right(b5, t6, q6);
    lemma_tail_grows(b6, q6, t7);
    let q7 = q6 + t7;
    lemma_mgmt_file_3();
    lemma_tail_is_cut(b7, q7, t8, "\n"@);
    let text = q7 + "\n"@;
    lemma_part_left(b8, t9, text);
    lemma_part_left(b9, t10, text);
    lemma_shows(out@, file, text);
    lemma_mgmt_file_4();
    let q8 = "\n[Network]\n"@;
    lemma_tail_right(b7, t8, q8);
    lemma_tail_grows(b8, q8, t9);
    let q9 = q8 + t9;
    lemma_mgmt_file_5();
    lemma_tail_is_cut(b9, q9, t10, "IPv6AcceptRA=no\n"@);
    let text = q9 + "IPv6AcceptRA=no\n"@;
    lemma_shows(out@, file, text);
}

proof fn lemma_mgmt_file_0()
    ensures
        is_tail("\n\n[Match]\nMACAddress="@, "\n[Match]\nMACAddress="@),
{
    reveal(is_tail);
    reveal_strlit("\n\n[Match]\nMACAddress=");
    reveal_strlit("\n[Match]\nMACAddress=");
    assert("\n\n[Match]\nMACAddress="@.subrange(1, 21) =~= "\n[Match]\nMACAddress="@);
}

proof fn lemma_mgmt_file_1()
    ensures
        is_head("\n\n[Link]\nMTUBytes="@, "\n"@),
{
    reveal(is_head);
    reveal_strlit("\n\n[Link]\nMTUBytes=");
    reveal_strlit("\n");
    assert("\n\n[Link]\nMTUBytes="@.subrange(0, 1) =~= "\n"@);
}

proof fn lemma_mgmt_file_2()
    ensures
        is_tail("\n\n[Link]\nMTUBytes="@, "\n[Link]\nMTUBytes="@),
{
    reveal(is_tail);
    reveal_strlit("\n\n[Link]\nMTUBytes=");
    reveal_strlit("\n[Link]\nMTUBytes=");
    assert("\n\n[Link]\nMTUBytes="@.subrange(1, 18) =~= "\n[Link]\nMTUBytes="@);
}

proof fn lemma_mgmt_file_3()
    ensures
        is_head("\n\n[Network]\n"@, "\n"@),
{
    reveal(is_head);
    reveal_strlit("\n\n[Network]\n");
    reveal_strlit("\n");
    assert("\n\n[Network]\n"@.subrange(0, 1) =~= "\n"@);
}

proof fn lemma_mgmt_file_4()
    ensures
        is_tail("\n\n[Network]\n"@, "\n[Network]\n"@),
{
    reveal(is_tail);
    reveal_strlit("\n\n[Network]\n");
    reveal_strlit("\n[Network]\n");
    assert("\n\n[Network]\n"@.subrange(1, 12) =~= "\n[Network]\n"@);
}

proof fn lemma_mgmt_file_5()
    ensures
        is_head("IPv6AcceptRA=no\n\n"@, "IPv6AcceptRA=no\n"@),
{
    reveal(is_head);
    reveal_strlit("IPv6AcceptRA=no\n\n");
    reveal_strlit("IPv6AcceptRA=no\n");
    assert("IPv6AcceptRA=no\n\n"@.subrange(0, 16) =~= "IPv6AcceptRA=no\n"@);
}

/// A machine has the loopback of its slot.
pub proof fn a_machine_has_the_loopback_of_its_slot(c: Cluster, out: Vec<Rendered>, machine_node: Node, machine: Machine)
    requires
        call_ensures(machine_units, (&c, &machine_node, &machine), out),
    ensures
        ({
            let node = machine_node@;
            let path = node.name + "/systemd-network/30-loopback.network"@;
            &&& shows(out@, path, "\n[Match]\nName=lo\n"@)
            &&& shows(out@, path, "\n[Network]\nAddress="@ + node.loopback + "/32\n"@)
        }),
{
    let node = machine_node@;
    let file = loopback_file(node);
    lemma_machine_files(c, node, machine);
    lemma_machine_shown(c, machine_node, machine, out, file);
    let t0 = "# "@;
    let b0 = t0;
    let t1 = node.name;
    let b1 = b0 + t1;
    let t2 = "'s mesh loopback. Every mesh service binds this address, which\n# decouples service addressing from which link carries a flow and makes\n# reachability assertions meaningful (§4.1).\n#\n# Matched by name and not by MAC: the loopback has no card. CD-01 is\n# worded to cover physical interfaces for exactly this reason.\n\n[Match]\nName=lo\n\n[Network]\nAddress="@;
    let b2 = b1 + t2;
    let t3 = node.loopback;
    let b3 = b2 + t3;
    let t4 = "/32\n\n"@;
    let b4 = b3 + t4;
    lemma_loopback_file_0();
    lemma_part_right(b1, t2, "\n[Match]\nName=lo\n"@);
    let text = "\n[Match]\nName=lo\n"@;
    lemma_part_left(b2, t3, text);
    lemma_part_left(b3, t4, text);
    lemma_shows(out@, file, text);
    lemma_loopback_file_1();
    let q2 = "\n[Network]\nAddress="@;
    lemma_tail_right(b1, t2, q2);
    lemma_tail_grows(b2, q2, t3);
    let q3 = q2 + t3;
    lemma_loopback_file_2();
    lemma_tail_is_cut(b3, q3, t4, "/32\n"@);
    let text = q3 + "/32\n"@;
    lemma_shows(out@, file, text);
}

proof fn lemma_loopback_file_0()
    ensures
        is_part("'s mesh loopback. Every mesh service binds this address, which\n# decouples service addressing from which link carries a flow and makes\n# reachability assertions meaningful (§4.1).\n#\n# Matched by name and not by MAC: the loopback has no card. CD-01 is\n# worded to cover physical interfaces for exactly this reason.\n\n[Match]\nName=lo\n\n[Network]\nAddress="@, "\n[Match]\nName=lo\n"@),
{
    reveal(is_part);
    reveal_strlit("'s mesh loopback. Every mesh service binds this address, which\n# decouples service addressing from which link carries a flow and makes\n# reachability assertions meaningful (§4.1).\n#\n# Matched by name and not by MAC: the loopback has no card. CD-01 is\n# worded to cover physical interfaces for exactly this reason.\n\n[Match]\nName=lo\n\n[Network]\nAddress=");
    reveal_strlit("\n[Match]\nName=lo\n");
    assert("'s mesh loopback. Every mesh service binds this address, which\n# decouples service addressing from which link carries a flow and makes\n# reachability assertions meaningful (§4.1).\n#\n# Matched by name and not by MAC: the loopback has no card. CD-01 is\n# worded to cover physical interfaces for exactly this reason.\n\n[Match]\nName=lo\n\n[Network]\nAddress="@.subrange(314, 331) =~= "\n[Match]\nName=lo\n"@);
    assert(occurs_at("'s mesh loopback. Every mesh service binds this address, which\n# decouples service addressing from which link carries a flow and makes\n# reachability assertions meaningful (§4.1).\n#\n# Matched by name and not by MAC: the loopback has no card. CD-01 is\n# worded to cover physical interfaces for exactly this reason.\n\n[Match]\nName=lo\n\n[Network]\nAddress="@, "\n[Match]\nName=lo\n"@, 314));
}

proof fn lemma_loopback_file_1()
    ensures
        is_tail("'s mesh loopback. Every mesh service binds this address, which\n# decouples service addressing from which link carries a flow and makes\n# reachability assertions meaningful (§4.1).\n#\n# Matched by name and not by MAC: the loopback has no card. CD-01 is\n# worded to cover physical interfaces for exactly this reason.\n\n[Match]\nName=lo\n\n[Network]\nAddress="@, "\n[Network]\nAddress="@),
{
    reveal(is_tail);
    reveal_strlit("'s mesh loopback. Every mesh service binds this address, which\n# decouples service addressing from which link carries a flow and makes\n# reachability assertions meaningful (§4.1).\n#\n# Matched by name and not by MAC: the loopback has no card. CD-01 is\n# worded to cover physical interfaces for exactly this reason.\n\n[Match]\nName=lo\n\n[Network]\nAddress=");
    reveal_strlit("\n[Network]\nAddress=");
    assert("'s mesh loopback. Every mesh service binds this address, which\n# decouples service addressing from which link carries a flow and makes\n# reachability assertions meaningful (§4.1).\n#\n# Matched by name and not by MAC: the loopback has no card. CD-01 is\n# worded to cover physical interfaces for exactly this reason.\n\n[Match]\nName=lo\n\n[Network]\nAddress="@.subrange(331, 350) =~= "\n[Network]\nAddress="@);
}

proof fn lemma_loopback_file_2()
    ensures
        is_head("/32\n\n"@, "/32\n"@),
{
    reveal(is_head);
    reveal_strlit("/32\n\n");
    reveal_strlit("/32\n");
    assert("/32\n\n"@.subrange(0, 4) =~= "/32\n"@);
}

/// The first port of the mesh has the first link: its address on it, and a direct
/// route to its peer.
pub proof fn the_first_port_of_the_mesh_has_the_first_link(c: Cluster, out: Vec<Rendered>, machine_node: Node, machine: Machine)
    requires
        call_ensures(machine_units, (&c, &machine_node, &machine), out),
        c.network.addressing.links_of_spec(machine_node@.ordinal, c.cluster.fleet.size).len() > 0,
    ensures
        ({
            let node = machine_node@;
            let links = c.network.addressing.links_of_spec(node.ordinal, c.cluster.fleet.size);
            let link = links[0];
            let (mac, number, role, suffix) = (machine.mac.mesh_a@, "20"@, "mesh_a"@, "a"@);
            let mesh = row(c.network.class@, "mesh"@).unwrap();
            let peer = c.slot_at(link.peer_spec(node.ordinal).unwrap()).unwrap();
            let own = dotted(link.address_spec(node.ordinal).unwrap().bits);
            let gateway = dotted(link.address_spec(peer.ordinal).unwrap().bits);
            let path = node.name + "/systemd-network/"@ + number + "-mesh-"@ + suffix + ".network"@;
            &&& shows(out@, path, "\n[Match]\nMACAddress="@ + mac + "\n"@)
            &&& shows(out@, path, "\n[Link]\nMTUBytes="@ + decimal(mesh.mtu as nat) + "\n"@)
            &&& shows(out@, path, "\n[Network]\nAddress="@ + own + "/31\nLinkLocalAddressing=no\nIPv6AcceptRA=no\n"@)
            &&& shows(out@, path, "\n[Route]\nDestination="@ + peer.loopback + "/32\nGateway="@ + gateway + "\nMetric="@ + decimal(c.network.routing.direct_metric as nat) + "\n"@)
        }),
{
    let node = machine_node@;
    let links = c.network.addressing.links_of_spec(node.ordinal, c.cluster.fleet.size);
    let link = links[0];
    let (mac, number, role, suffix) = (machine.mac.mesh_a@, "20"@, "mesh_a"@, "a"@);
    let mesh = row(c.network.class@, "mesh"@).unwrap();
    let peer = c.slot_at(link.peer_spec(node.ordinal).unwrap()).unwrap();
    let own = dotted(link.address_spec(node.ordinal).unwrap().bits);
    let gateway = dotted(link.address_spec(peer.ordinal).unwrap().bits);
    let file = port_file(c, node, mac, link, number, role, suffix);
    lemma_machine_files(c, node, machine);
    lemma_machine_shown(c, machine_node, machine, out, file);
    let t0 = "# "@;
    let b0 = t0;
    let t1 = node.name;
    let b1 = b0 + t1;
    let t2 = " -> "@;
    let b2 = b1 + t2;
    let t3 = peer.name;
    let b3 = b2 + t3;
    let t4 = " over "@;
    let b4 = b3 + t4;
    let t5 = role;
    let b5 = b4 + t5;
    let t6 = ", link "@;
    let b6 = b5 + t6;
    let t7 = link.id_spec();
    let b7 = b6 + t7;
    let t8 = ". Direct-attached: no switch, so the\n# segment has exactly two endpoints and §4.4 trusts it in full.\n\n[Match]\nMACAddress="@;
    let b8 = b7 + t8;
    let t9 = mac;
    let b9 = b8 + t9;
    let t10 = "\n\n[Link]\nMTUBytes="@;
    let b10 = b9 + t10;
    let t11 = decimal(mesh.mtu as nat);
    let b11 = b10 + t11;
    let t12 = "\n\n[Network]\nAddress="@;
    let b12 = b11 + t12;
    let t13 = own;
    let b13 = b12 + t13;
    let t14 = "/31\nLinkLocalAddressing=no\nIPv6AcceptRA=no\n\n# Direct route to "@;
    let b14 = b13 + t14;
    let t15 = peer.name;
    let b15 = b14 + t15;
    let t16 = ". Withdrawn by networkd on carrier loss, at which\n# point the metric-"@;
    let b16 = b15 + t16;
    let t17 = decimal(c.network.routing.transit_metric as nat);
    let b17 = b16 + t17;
    let t18 = " route on the other mesh interface takes over.\n[Route]\nDestination="@;
    let b18 = b17 + t18;
    let t19 = peer.loopback;
    let b19 = b18 + t19;
    let t20 = "/32\nGateway="@;
    let b20 = b19 + t20;
    let t21 = gateway;
    let b21 = b20 + t21;
    let t22 = "\nMetric="@;
    let b22 = b21 + t22;
    let t23 = decimal(c.network.routing.direct_metric as nat);
    let b23 = b22 + t23;
    let t24 = "\n\n"@;
    let b24 = b23 + t24;
    let t25 = concat_all(transit_lines(c, peer, gateway, others(c.slots_spec(), node.name)));
    let b25 = b24 + t25;
    lemma_port_file_0();
    let q8 = "\n[Match]\nMACAddress="@;
    lemma_tail_right(b7, t8, q8);
    lemma_tail_grows(b8, q8, t9);
    let q9 = q8 + t9;
    lemma_port_file_1();
    lemma_tail_is_cut(b9, q9, t10, "\n"@);
    let text = q9 + "\n"@;
    lemma_part_left(b10, t11, text);
    lemma_part_left(b11, t12, text);
    lemma_part_left(b12, t13, text);
    lemma_part_left(b13, t14, text);
    lemma_part_left(b14, t15, text);
    lemma_part_left(b15, t16, text);
    lemma_part_left(b16, t17, text);
    lemma_part_left(b17, t18, text);
    lemma_part_left(b18, t19, text);
    lemma_part_left(b19, t20, text);
    lemma_part_left(b20, t21, text);
    lemma_part_left(b21, t22, text);
    lemma_part_left(b22, t23, text);
    lemma_part_left(b23, t24, text);
    lemma_part_left(b24, t25, text);
    lemma_shows(out@, file, text);
    lemma_port_file_2();
    let q10 = "\n[Link]\nMTUBytes="@;
    lemma_tail_right(b9, t10, q10);
    lemma_tail_grows(b10, q10, t11);
    let q11 = q10 + t11;
    lemma_port_file_3();
    lemma_tail_is_cut(b11, q11, t12, "\n"@);
    let text = q11 + "\n"@;
    lemma_part_left(b12, t13, text);
    lemma_part_left(b13, t14, text);
    lemma_part_left(b14, t15, text);
    lemma_part_left(b15, t16, text);
    lemma_part_left(b16, t17, text);
    lemma_part_left(b17, t18, text);
    lemma_part_left(b18, t19, text);
    lemma_part_left(b19, t20, text);
    lemma_part_left(b20, t21, text);
    lemma_part_left(b21, t22, text);
    lemma_part_left(b22, t23, text);
    lemma_part_left(b23, t24, text);
    lemma_part_left(b24, t25, text);
    lemma_shows(out@, file, text);
    lemma_port_file_4();
    let q12 = "\n[Network]\nAddress="@;
    lemma_tail_right(b11, t12, q12);
    lemma_tail_grows(b12, q12, t13);
    let q13 = q12 + t13;
    lemma_port_file_5();
    lemma_tail_is_cut(b13, q13, t14, "/31\nLinkLocalAddressing=no\nIPv6AcceptRA=no\n"@);
    let text = q13 + "/31\nLinkLocalAddressing=no\nIPv6AcceptRA=no\n"@;
    lemma_part_left(b14, t15, text);
    lemma_part_left(b15, t16, text);
    lemma_part_left(b16, t17, text);
    lemma_part_left(b17, t18, text);
    lemma_part_left(b18, t19, text);
    lemma_part_left(b19, t20, text);
    lemma_part_left(b20, t21, text);
    lemma_part_left(b21, t22, text);
    lemma_part_left(b22, t23, text);
    lemma_part_left(b23, t24, text);
    lemma_part_left(b24, t25, text);
    lemma_shows(out@, file, text);
    lemma_port_file_6();
    let q18 = "\n[Route]\nDestination="@;
    lemma_tail_right(b17, t18, q18);
    lemma_tail_grows(b18, q18, t19);
    let q19 = q18 + t19;
    lemma_tail_grows(b19, q19, t20);
    let q20 = q19 + t20;
    lemma_tail_grows(b20, q20, t21);
    let q21 = q20 + t21;
    lemma_tail_grows(b21, q21, t22);
    let q22 = q21 + t22;
    lemma_tail_grows(b22, q22, t23);
    let q23 = q22 + t23;
    lemma_port_file_7();
    lemma_tail_is_cut(b23, q23, t24, "\n"@);
    let text = q23 + "\n"@;
    lemma_part_left(b24, t25, text);
    lemma_shows(out@, file, text);
}

proof fn lemma_port_file_0()
    ensures
        is_tail(". Direct-attached: no switch, so the\n# segment has exactly two endpoints and §4.4 trusts it in full.\n\n[Match]\nMACAddress="@, "\n[Match]\nMACAddress="@),
{
    reveal(is_tail);
    reveal_strlit(". Direct-attached: no switch, so the\n# segment has exactly two endpoints and §4.4 trusts it in full.\n\n[Match]\nMACAddress=");
    reveal_strlit("\n[Match]\nMACAddress=");
    assert(". Direct-attached: no switch, so the\n# segment has exactly two endpoints and §4.4 trusts it in full.\n\n[Match]\nMACAddress="@.subrange(101, 121) =~= "\n[Match]\nMACAddress="@);
}

proof fn lemma_port_file_1()
    ensures
        is_head("\n\n[Link]\nMTUBytes="@, "\n"@),
{
    reveal(is_head);
    reveal_strlit("\n\n[Link]\nMTUBytes=");
    reveal_strlit("\n");
    assert("\n\n[Link]\nMTUBytes="@.subrange(0, 1) =~= "\n"@);
}

proof fn lemma_port_file_2()
    ensures
        is_tail("\n\n[Link]\nMTUBytes="@, "\n[Link]\nMTUBytes="@),
{
    reveal(is_tail);
    reveal_strlit("\n\n[Link]\nMTUBytes=");
    reveal_strlit("\n[Link]\nMTUBytes=");
    assert("\n\n[Link]\nMTUBytes="@.subrange(1, 18) =~= "\n[Link]\nMTUBytes="@);
}

proof fn lemma_port_file_3()
    ensures
        is_head("\n\n[Network]\nAddress="@, "\n"@),
{
    reveal(is_head);
    reveal_strlit("\n\n[Network]\nAddress=");
    reveal_strlit("\n");
    assert("\n\n[Network]\nAddress="@.subrange(0, 1) =~= "\n"@);
}

proof fn lemma_port_file_4()
    ensures
        is_tail("\n\n[Network]\nAddress="@, "\n[Network]\nAddress="@),
{
    reveal(is_tail);
    reveal_strlit("\n\n[Network]\nAddress=");
    reveal_strlit("\n[Network]\nAddress=");
    assert("\n\n[Network]\nAddress="@.subrange(1, 20) =~= "\n[Network]\nAddress="@);
}

proof fn lemma_port_file_5()
    ensures
        is_head("/31\nLinkLocalAddressing=no\nIPv6AcceptRA=no\n\n# Direct route to "@, "/31\nLinkLocalAddressing=no\nIPv6AcceptRA=no\n"@),
{
    reveal(is_head);
    reveal_strlit("/31\nLinkLocalAddressing=no\nIPv6AcceptRA=no\n\n# Direct route to ");
    reveal_strlit("/31\nLinkLocalAddressing=no\nIPv6AcceptRA=no\n");
    assert("/31\nLinkLocalAddressing=no\nIPv6AcceptRA=no\n\n# Direct route to "@.subrange(0, 43) =~= "/31\nLinkLocalAddressing=no\nIPv6AcceptRA=no\n"@);
}

proof fn lemma_port_file_6()
    ensures
        is_tail(" route on the other mesh interface takes over.\n[Route]\nDestination="@, "\n[Route]\nDestination="@),
{
    reveal(is_tail);
    reveal_strlit(" route on the other mesh interface takes over.\n[Route]\nDestination=");
    reveal_strlit("\n[Route]\nDestination=");
    assert(" route on the other mesh interface takes over.\n[Route]\nDestination="@.subrange(46, 67) =~= "\n[Route]\nDestination="@);
}

proof fn lemma_port_file_7()
    ensures
        is_head("\n\n"@, "\n"@),
{
    reveal(is_head);
    reveal_strlit("\n\n");
    reveal_strlit("\n");
    assert("\n\n"@.subrange(0, 1) =~= "\n"@);
}

/// The second port of the mesh has the second link: its address on it, and a direct
/// route to its peer.
pub proof fn the_second_port_of_the_mesh_has_the_second_link(c: Cluster, out: Vec<Rendered>, machine_node: Node, machine: Machine)
    requires
        call_ensures(machine_units, (&c, &machine_node, &machine), out),
        c.network.addressing.links_of_spec(machine_node@.ordinal, c.cluster.fleet.size).len() > 1,
    ensures
        ({
            let node = machine_node@;
            let links = c.network.addressing.links_of_spec(node.ordinal, c.cluster.fleet.size);
            let link = links[1];
            let (mac, number, role, suffix) = (machine.mac.mesh_b@, "21"@, "mesh_b"@, "b"@);
            let mesh = row(c.network.class@, "mesh"@).unwrap();
            let peer = c.slot_at(link.peer_spec(node.ordinal).unwrap()).unwrap();
            let own = dotted(link.address_spec(node.ordinal).unwrap().bits);
            let gateway = dotted(link.address_spec(peer.ordinal).unwrap().bits);
            let path = node.name + "/systemd-network/"@ + number + "-mesh-"@ + suffix + ".network"@;
            &&& shows(out@, path, "\n[Match]\nMACAddress="@ + mac + "\n"@)
            &&& shows(out@, path, "\n[Link]\nMTUBytes="@ + decimal(mesh.mtu as nat) + "\n"@)
            &&& shows(out@, path, "\n[Network]\nAddress="@ + own + "/31\nLinkLocalAddressing=no\nIPv6AcceptRA=no\n"@)
            &&& shows(out@, path, "\n[Route]\nDestination="@ + peer.loopback + "/32\nGateway="@ + gateway + "\nMetric="@ + decimal(c.network.routing.direct_metric as nat) + "\n"@)
        }),
{
    let node = machine_node@;
    let links = c.network.addressing.links_of_spec(node.ordinal, c.cluster.fleet.size);
    let link = links[1];
    let (mac, number, role, suffix) = (machine.mac.mesh_b@, "21"@, "mesh_b"@, "b"@);
    let mesh = row(c.network.class@, "mesh"@).unwrap();
    let peer = c.slot_at(link.peer_spec(node.ordinal).unwrap()).unwrap();
    let own = dotted(link.address_spec(node.ordinal).unwrap().bits);
    let gateway = dotted(link.address_spec(peer.ordinal).unwrap().bits);
    let file = port_file(c, node, mac, link, number, role, suffix);
    lemma_machine_files(c, node, machine);
    lemma_machine_shown(c, machine_node, machine, out, file);
    let t0 = "# "@;
    let b0 = t0;
    let t1 = node.name;
    let b1 = b0 + t1;
    let t2 = " -> "@;
    let b2 = b1 + t2;
    let t3 = peer.name;
    let b3 = b2 + t3;
    let t4 = " over "@;
    let b4 = b3 + t4;
    let t5 = role;
    let b5 = b4 + t5;
    let t6 = ", link "@;
    let b6 = b5 + t6;
    let t7 = link.id_spec();
    let b7 = b6 + t7;
    let t8 = ". Direct-attached: no switch, so the\n# segment has exactly two endpoints and §4.4 trusts it in full.\n\n[Match]\nMACAddress="@;
    let b8 = b7 + t8;
    let t9 = mac;
    let b9 = b8 + t9;
    let t10 = "\n\n[Link]\nMTUBytes="@;
    let b10 = b9 + t10;
    let t11 = decimal(mesh.mtu as nat);
    let b11 = b10 + t11;
    let t12 = "\n\n[Network]\nAddress="@;
    let b12 = b11 + t12;
    let t13 = own;
    let b13 = b12 + t13;
    let t14 = "/31\nLinkLocalAddressing=no\nIPv6AcceptRA=no\n\n# Direct route to "@;
    let b14 = b13 + t14;
    let t15 = peer.name;
    let b15 = b14 + t15;
    let t16 = ". Withdrawn by networkd on carrier loss, at which\n# point the metric-"@;
    let b16 = b15 + t16;
    let t17 = decimal(c.network.routing.transit_metric as nat);
    let b17 = b16 + t17;
    let t18 = " route on the other mesh interface takes over.\n[Route]\nDestination="@;
    let b18 = b17 + t18;
    let t19 = peer.loopback;
    let b19 = b18 + t19;
    let t20 = "/32\nGateway="@;
    let b20 = b19 + t20;
    let t21 = gateway;
    let b21 = b20 + t21;
    let t22 = "\nMetric="@;
    let b22 = b21 + t22;
    let t23 = decimal(c.network.routing.direct_metric as nat);
    let b23 = b22 + t23;
    let t24 = "\n\n"@;
    let b24 = b23 + t24;
    let t25 = concat_all(transit_lines(c, peer, gateway, others(c.slots_spec(), node.name)));
    let b25 = b24 + t25;
    lemma_port_file_0();
    let q8 = "\n[Match]\nMACAddress="@;
    lemma_tail_right(b7, t8, q8);
    lemma_tail_grows(b8, q8, t9);
    let q9 = q8 + t9;
    lemma_port_file_1();
    lemma_tail_is_cut(b9, q9, t10, "\n"@);
    let text = q9 + "\n"@;
    lemma_part_left(b10, t11, text);
    lemma_part_left(b11, t12, text);
    lemma_part_left(b12, t13, text);
    lemma_part_left(b13, t14, text);
    lemma_part_left(b14, t15, text);
    lemma_part_left(b15, t16, text);
    lemma_part_left(b16, t17, text);
    lemma_part_left(b17, t18, text);
    lemma_part_left(b18, t19, text);
    lemma_part_left(b19, t20, text);
    lemma_part_left(b20, t21, text);
    lemma_part_left(b21, t22, text);
    lemma_part_left(b22, t23, text);
    lemma_part_left(b23, t24, text);
    lemma_part_left(b24, t25, text);
    lemma_shows(out@, file, text);
    lemma_port_file_2();
    let q10 = "\n[Link]\nMTUBytes="@;
    lemma_tail_right(b9, t10, q10);
    lemma_tail_grows(b10, q10, t11);
    let q11 = q10 + t11;
    lemma_port_file_3();
    lemma_tail_is_cut(b11, q11, t12, "\n"@);
    let text = q11 + "\n"@;
    lemma_part_left(b12, t13, text);
    lemma_part_left(b13, t14, text);
    lemma_part_left(b14, t15, text);
    lemma_part_left(b15, t16, text);
    lemma_part_left(b16, t17, text);
    lemma_part_left(b17, t18, text);
    lemma_part_left(b18, t19, text);
    lemma_part_left(b19, t20, text);
    lemma_part_left(b20, t21, text);
    lemma_part_left(b21, t22, text);
    lemma_part_left(b22, t23, text);
    lemma_part_left(b23, t24, text);
    lemma_part_left(b24, t25, text);
    lemma_shows(out@, file, text);
    lemma_port_file_4();
    let q12 = "\n[Network]\nAddress="@;
    lemma_tail_right(b11, t12, q12);
    lemma_tail_grows(b12, q12, t13);
    let q13 = q12 + t13;
    lemma_port_file_5();
    lemma_tail_is_cut(b13, q13, t14, "/31\nLinkLocalAddressing=no\nIPv6AcceptRA=no\n"@);
    let text = q13 + "/31\nLinkLocalAddressing=no\nIPv6AcceptRA=no\n"@;
    lemma_part_left(b14, t15, text);
    lemma_part_left(b15, t16, text);
    lemma_part_left(b16, t17, text);
    lemma_part_left(b17, t18, text);
    lemma_part_left(b18, t19, text);
    lemma_part_left(b19, t20, text);
    lemma_part_left(b20, t21, text);
    lemma_part_left(b21, t22, text);
    lemma_part_left(b22, t23, text);
    lemma_part_left(b23, t24, text);
    lemma_part_left(b24, t25, text);
    lemma_shows(out@, file, text);
    lemma_port_file_6();
    let q18 = "\n[Route]\nDestination="@;
    lemma_tail_right(b17, t18, q18);
    lemma_tail_grows(b18, q18, t19);
    let q19 = q18 + t19;
    lemma_tail_grows(b19, q19, t20);
    let q20 = q19 + t20;
    lemma_tail_grows(b20, q20, t21);
    let q21 = q20 + t21;
    lemma_tail_grows(b21, q21, t22);
    let q22 = q21 + t22;
    lemma_tail_grows(b22, q22, t23);
    let q23 = q22 + t23;
    lemma_port_file_7();
    lemma_tail_is_cut(b23, q23, t24, "\n"@);
    let text = q23 + "\n"@;
    lemma_part_left(b24, t25, text);
    lemma_shows(out@, file, text);
}

/// Forwarding is on where the model says so; the management port asks for its
/// address where the LAN hands addresses out, and has its own otherwise.
pub proof fn a_port_has_the_address_it_is_given(c: Cluster, lan: Class, machine: Machine)
    ensures
        c.network.routing.ip_forward ==> forward_text(c) == "1"@,
        !c.network.routing.ip_forward ==> forward_text(c) == "0"@,
        lan.addressing@ == "dhcp"@ ==> lan_address_text(lan, machine) == "DHCP=yes\n"@,
        lan.addressing@ != "dhcp"@ ==> lan_address_text(lan, machine) == "Address="@
            + machine.mgmt_address@ + "\n"@,
{
}

/// Every other slot is reached through a peer, at the metric of transit; the
/// peer itself is not.
pub proof fn every_other_slot_is_reached_in_transit(
    c: Cluster,
    peer: Slot,
    gateway: Seq<char>,
    rest: Seq<Slot>,
    i: int,
)
    requires
        0 <= i < rest.len(),
    ensures
        rest[i].name == peer.name ==> transit_lines(c, peer, gateway, rest)[i].len() == 0,
        rest[i].name != peer.name ==> (rest[i].loopback + "/32\nGateway="@ + gateway + "\nMetric="@
            + decimal(c.network.routing.transit_metric as nat) + "\n\n"@).is_suffix_of(
            transit_lines(c, peer, gateway, rest)[i],
        ),
{
    let line = transit_lines(c, peer, gateway, rest)[i];
    if rest[i].name != peer.name {
        let tail = rest[i].loopback + "/32\nGateway="@ + gateway + "\nMetric="@ + decimal(
            c.network.routing.transit_metric as nat,
        ) + "\n\n"@;
        assert(line.subrange(line.len() - tail.len(), line.len() as int) =~= tail);
    }
}

} // verus!
