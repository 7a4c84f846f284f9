//! The packet filter, rendered from the declared rules.
//!
//! Default `drop` on input, and every accept is a declared rule. The mesh is
//! accepted in full because it is a physically isolated segment with exactly
//! two endpoints. Its addresses are enumerated rather than written as a subnet:
//! a wider rule would accept from addresses nothing assigned.
//!
//! One image carries one ruleset, so a rule for some roles only stands in a
//! file of its own, one for each role.
use vstd::prelude::*;

use crate::address::{dotted, ipv4_of, Ipv4};
use crate::lists::{ascending, ascending_of};
use crate::cluster::Role;
use crate::model::{slots, Cluster, Slot};
use crate::network::{FirewallRule, Link};
use crate::render::{files, ids1, ids2, File, Rendered};
use crate::text::{
    concat_all,
    concat_strings,
    decimal,
    decimal_of,
    join,
    join_strings,
    same,
    views,
};
use crate::render::claims::{
    is_head,
    is_ours,
    is_part,
    is_tail,
    lemma_is_shown,
    lemma_part_left,
    lemma_part_right,
    lemma_shows,
    lemma_tail_grows,
    lemma_tail_is_cut,
    lemma_tail_right,
    lemma_whole,
    shows,
};
use crate::render::render_all;
use crate::text::occurs_at;

verus! {

/// What a rule matches its source by.
pub open spec fn source_text(c: Cluster, rule: FirewallRule) -> Seq<char> {
    if rule.source@ == "lan"@ {
        "ip saddr "@ + c.network.lan_prefix@ + " "@
    } else if rule.source@ == "mesh"@ {
        "ip saddr @mesh "@
    } else {
        Seq::empty()
    }
}

/// What a rule matches its interface by.
pub open spec fn interface_text(rule: FirewallRule) -> Seq<char> {
    if rule.plane@ == "lo"@ {
        "iif lo "@
    } else if rule.plane@ == "tailscale"@ {
        "iifname \"tailscale0\" "@
    } else {
        Seq::empty()
    }
}

/// What a rule matches its protocol and port by.
pub open spec fn protocol_text(rule: FirewallRule) -> Seq<char> {
    if rule.protocol@ == "tcp"@ {
        "tcp dport "@ + decimal(rule.port as nat) + " "@
    } else if rule.protocol@ == "icmp"@ {
        "icmp type echo-request "@
    } else {
        Seq::empty()
    }
}

/// One accept line, in nft's grammar.
pub open spec fn input_rule_text(c: Cluster, rule: FirewallRule) -> Seq<char> {
    interface_text(rule) + source_text(c, rule) + protocol_text(rule) + "accept"@
}

/// One accept line, in nft's grammar.
pub fn input_rule(c: &Cluster, rule: &FirewallRule) -> (r: String)
    ensures
        r@ == input_rule_text(*c, *rule),
{
    let source = if same(rule.source.as_str(), "lan") {
        "ip saddr ".to_owned().concat(c.network.lan_prefix.as_str()).concat(" ")
    } else if same(rule.source.as_str(), "mesh") {
        "ip saddr @mesh ".to_owned()
    } else {
        String::new()
    };
    let interface = if same(rule.plane.as_str(), "lo") {
        "iif lo ".to_owned()
    } else if same(rule.plane.as_str(), "tailscale") {
        "iifname \"tailscale0\" ".to_owned()
    } else {
        String::new()
    };
    let protocol = if same(rule.protocol.as_str(), "tcp") {
        "tcp dport ".to_owned().concat(decimal_of(rule.port as u64).as_str()).concat(" ")
    } else if same(rule.protocol.as_str(), "icmp") {
        "icmp type echo-request ".to_owned()
    } else {
        String::new()
    };
    interface.concat(source.as_str()).concat(protocol.as_str()).concat("accept")
}

/// A rule of the common ruleset: one that holds for every role.
pub open spec fn common_line(c: Cluster, rule: FirewallRule) -> Seq<char> {
    if rule.roles@.len() == 0 {
        "    # "@
            + rule.comment@
            + "\n    "@
            + input_rule_text(c, rule)
            + "\n"@
    } else {
        Seq::<char>::empty()
    }
}

fn common_line_of(c: &Cluster, rule: &FirewallRule) -> (r: String)
    ensures
        r@ == common_line(*c, *rule),
{
    if rule.is_universal() {
        "    # ".to_owned()
            .concat(rule.comment.as_str())
            .concat("\n    ")
            .concat(input_rule(c, rule).as_str())
            .concat("\n")
    } else {
        String::new()
    }
}

/// One text for each, in order.
pub open spec fn common_lines(c: Cluster) -> Seq<Seq<char>> {
    let list = c.network.firewall.rule@;
    Seq::new(list.len(), |i: int| common_line(c, list[i]))
}

fn common_lines_of(c: &Cluster) -> (out: Vec<String>)
    ensures
        views(out@) == common_lines(*c),
{
    let list = &c.network.firewall.rule;
    let ghost all = c.network.firewall.rule@;
    let mut out: Vec<String> = Vec::new();
    let mut i: usize = 0;
    while i < list.len()
        invariant
            i <= list.len(),
            all == c.network.firewall.rule@,
            list@ == all,
            out.len() == i,
            forall|k: int| 0 <= k < i ==> (#[trigger] out@[k])@ == common_line(*c, all[k]),
        decreases list.len() - i,
    {
        proof {
            assert(all[i as int] == list@[i as int]);
        }
        out.push(common_line_of(c, &list[i]));
        i = i + 1;
    }
    proof {
        assert(views(out@) =~= common_lines(*c));
    }
    out
}

/// A rule of one role: one that names it.
pub open spec fn restricted_line(c: Cluster, role: Role, rule: FirewallRule) -> Seq<char> {
    if rule.roles@.len() > 0 && rule.applies_spec(role.id@) {
        "    # "@
            + rule.comment@
            + "\n    "@
            + input_rule_text(c, rule)
            + "\n"@
    } else {
        Seq::<char>::empty()
    }
}

fn restricted_line_of(c: &Cluster, role: &Role, rule: &FirewallRule) -> (r: String)
    ensures
        r@ == restricted_line(*c, *role, *rule),
{
    if !rule.is_universal() && rule.applies_to(role.id.as_str()) {
        "    # ".to_owned()
            .concat(rule.comment.as_str())
            .concat("\n    ")
            .concat(input_rule(c, rule).as_str())
            .concat("\n")
    } else {
        String::new()
    }
}

/// One text for each, in order.
pub open spec fn restricted_lines(c: Cluster, role: Role) -> Seq<Seq<char>> {
    let list = c.network.firewall.rule@;
    Seq::new(list.len(), |i: int| restricted_line(c, role, list[i]))
}

fn restricted_lines_of(c: &Cluster, role: &Role) -> (out: Vec<String>)
    ensures
        views(out@) == restricted_lines(*c, *role),
{
    let list = &c.network.firewall.rule;
    let ghost all = c.network.firewall.rule@;
    let mut out: Vec<String> = Vec::new();
    let mut i: usize = 0;
    while i < list.len()
        invariant
            i <= list.len(),
            all == c.network.firewall.rule@,
            list@ == all,
            out.len() == i,
            forall|k: int| 0 <= k < i ==> (#[trigger] out@[k])@ == restricted_line(*c, *role, all[k]),
        decreases list.len() - i,
    {
        proof {
            assert(all[i as int] == list@[i as int]);
        }
        out.push(restricted_line_of(c, role, &list[i]));
        i = i + 1;
    }
    proof {
        assert(views(out@) =~= restricted_lines(*c, *role));
    }
    out
}

// ---- the addresses of the mesh ----

/// Both addresses of each link, in order.
pub open spec fn link_bits(links: Seq<Link>) -> Seq<u32>
    decreases links.len(),
{
    if links.len() == 0 {
        Seq::empty()
    } else {
        link_bits(links.drop_last()).push(links.last().lower_address.bits).push(
            links.last().higher_address.bits,
        )
    }
}

/// The loopback of each slot, in order.
pub open spec fn loopback_bits(list: Seq<Slot>) -> Seq<u32>
    decreases list.len(),
{
    if list.len() == 0 {
        Seq::empty()
    } else {
        match ipv4_of(list.last().loopback) {
            Some(bits) => loopback_bits(list.drop_last()).push(bits),
            None => loopback_bits(list.drop_last()),
        }
    }
}

/// `list` without the numbers that repeat the one before them.
pub open spec fn deduped(list: Seq<u32>) -> Seq<u32>
    decreases list.len(),
{
    if list.len() <= 1 {
        list
    } else if list[list.len() - 2] == list.last() {
        deduped(list.drop_last())
    } else {
        deduped(list.drop_last()).push(list.last())
    }
}

/// Every address the mesh may speak from, ascending and without repeats.
pub open spec fn mesh_bits(c: Cluster) -> Seq<u32> {
    deduped(
        ascending(
            link_bits(c.network.addressing.links_spec(c.cluster.fleet.size)) + loopback_bits(
                c.slots_spec(),
            ),
        ),
    )
}

/// The dotted text of each address.
pub open spec fn dotted_each(list: Seq<u32>) -> Seq<Seq<char>> {
    Seq::new(list.len(), |i: int| dotted(list[i]))
}

/// Every address the mesh may speak from, ascending and without repeats.
fn mesh_texts(c: &Cluster) -> (out: Vec<String>)
    requires
        c.cluster.fleet.size <= 65536,
    ensures
        views(out@) == dotted_each(mesh_bits(*c)),
{
    let links = c.network.addressing.links(c.cluster.fleet.size);
    let mut found: Vec<u32> = Vec::new();
    let mut i: usize = 0;
    while i < links.len()
        invariant
            i <= links.len(),
            found@ == link_bits(links@.take(i as int)),
        decreases links.len() - i,
    {
        proof {
            assert(links@.take(i + 1).drop_last() =~= links@.take(i as int));
        }
        found.push(links[i].lower_address.bits);
        found.push(links[i].higher_address.bits);
        i = i + 1;
    }
    proof {
        assert(links@.take(i as int) =~= links@);
    }
    let ghost of_links = found@;
    let nodes = c.nodes();
    let ghost all = slots(nodes@);
    let mut j: usize = 0;
    proof {
        assert(found@ =~= of_links + loopback_bits(all.take(0)));
    }
    while j < nodes.len()
        invariant
            j <= nodes.len(),
            all == slots(nodes@),
            found@ == of_links + loopback_bits(all.take(j as int)),
        decreases nodes.len() - j,
    {
        let ghost before = loopback_bits(all.take(j as int));
        proof {
            assert(all.take(j + 1).drop_last() =~= all.take(j as int));
            assert(all.take(j + 1).last() == nodes@[j as int]@);
        }
        if let Some(address) = Ipv4::parse(nodes[j].loopback.as_str()) {
            found.push(address.bits);
            proof {
                assert((of_links + before).push(address.bits) =~= of_links + before.push(
                    address.bits,
                ));
            }
        }
        j = j + 1;
    }
    proof {
        assert(all.take(j as int) =~= all);
    }
    let sorted = ascending_of(&found);
    let mut out: Vec<String> = Vec::new();
    let mut k: usize = 0;
    proof {
        assert(views(out@) =~= dotted_each(deduped(sorted@.take(0))));
    }
    while k < sorted.len()
        invariant
            k <= sorted.len(),
            views(out@) == dotted_each(deduped(sorted@.take(k as int))),
        decreases sorted.len() - k,
    {
        let ghost before = out@;
        proof {
            let next = sorted@.take(k + 1);
            assert(next.drop_last() =~= sorted@.take(k as int));
            assert(next.last() == sorted@[k as int]);
            if k > 0 {
                assert(next[next.len() - 2] == sorted@[k - 1]);
            }
        }
        if k == 0 || sorted[k - 1] != sorted[k] {
            out.push((Ipv4 { bits: sorted[k] }).to_text());
            proof {
                let set = deduped(sorted@.take(k as int));
                if k == 0 {
                    assert(sorted@.take(0) =~= Seq::<u32>::empty());
                    assert(sorted@.take(1) =~= set.push(sorted@[0]));
                }
                assert(views(out@) =~= views(before).push(dotted(sorted@[k as int])));
                assert(dotted_each(set.push(sorted@[k as int])) =~= dotted_each(set).push(
                    dotted(sorted@[k as int]),
                ));
            }
        }
        k = k + 1;
    }
    proof {
        assert(sorted@.take(k as int) =~= sorted@);
    }
    out
}

/// The ruleset every machine loads.
pub open spec fn ruleset_file(c: Cluster) -> File {
    File {
        path: "node/nftables.conf"@,
        ids: seq!["CD-03"@, "CD-18"@],
        body: "# The fleet's packet filter. Default "@
            + c.network.firewall.input_policy@
            + " on input; every accept is a declared\n# rule in model/network.toml.\n\nflush ruleset\n\ntable inet cluster {\n  set mesh {\n    type ipv4_addr\n    comment \"the six link addresses and three loopbacks (§4.1)\"\n    elements = { "@
            + join(dotted_each(mesh_bits(c)), ", "@)
            + " }\n  }\n\n  chain input {\n    type filter hook input priority filter; policy "@
            + c.network.firewall.input_policy@
            + ";\n\n    ct state established,related accept\n    ct state invalid drop\n\n"@
            + concat_all(common_lines(c))
            + "\n    # What holds for this machine's role only, linked into place once the role\n    # is known.\n    include \"/run/cluster/nftables-role.conf\"\n  }\n\n  chain forward {\n    type filter hook forward priority filter; policy "@
            + c.network.firewall.forward_policy@
            + ";\n\n    ct state established,related accept\n    # Transit for §4.2's failover path, and nothing else: both ends must be\n    # mesh addresses, so this forwards no traffic that arrived from the LAN.\n    ip saddr @mesh ip daddr @mesh accept\n  }\n\n  chain output {\n    type filter hook output priority filter; policy "@
            + c.network.firewall.output_policy@
            + ";\n  }\n}\n"@,
    }
}

pub(crate) fn ruleset(c: &Cluster) -> (r: Rendered)
    requires
        c.cluster.fleet.size <= 65536,
    ensures
        r@ == ruleset_file(*c),
{
    let path = "node/nftables.conf".to_owned();
    let body = "# The fleet's packet filter. Default ".to_owned()
        .concat(c.network.firewall.input_policy.as_str())
        .concat(" on input; every accept is a declared\n# rule in model/network.toml.\n\nflush ruleset\n\ntable inet cluster {\n  set mesh {\n    type ipv4_addr\n    comment \"the six link addresses and three loopbacks (§4.1)\"\n    elements = { ")
        .concat(join_strings(&mesh_texts(c), ", ").as_str())
        .concat(" }\n  }\n\n  chain input {\n    type filter hook input priority filter; policy ")
        .concat(c.network.firewall.input_policy.as_str())
        .concat(";\n\n    ct state established,related accept\n    ct state invalid drop\n\n")
        .concat(concat_strings(&common_lines_of(c)).as_str())
        .concat("\n    # What holds for this machine's role only, linked into place once the role\n    # is known.\n    include \"/run/cluster/nftables-role.conf\"\n  }\n\n  chain forward {\n    type filter hook forward priority filter; policy ")
        .concat(c.network.firewall.forward_policy.as_str())
        .concat(";\n\n    ct state established,related accept\n    # Transit for §4.2's failover path, and nothing else: both ends must be\n    # mesh addresses, so this forwards no traffic that arrived from the LAN.\n    ip saddr @mesh ip daddr @mesh accept\n  }\n\n  chain output {\n    type filter hook output priority filter; policy ")
        .concat(c.network.firewall.output_policy.as_str())
        .concat(";\n  }\n}\n");
    Rendered::new(path, ids2("CD-03", "CD-18"), body)
}

/// The rules of one role, and a file that says so where there are none.
pub open spec fn role_rules_file(c: Cluster, role: Role) -> File {
    File {
        path: "node/nftables-role-"@
            + role.id@
            + ".conf"@,
        ids: seq!["CD-18"@],
        body: "    # The rules of the `"@
            + role.id@
            + "` role. A role without any still has this file:\n    # a ruleset that reads a missing file does not load.\n"@
            + concat_all(restricted_lines(c, role)),
    }
}

pub(crate) fn role_rules(c: &Cluster, role: &Role) -> (r: Rendered)
    ensures
        r@ == role_rules_file(*c, *role),
{
    let path = "node/nftables-role-".to_owned()
        .concat(role.id.as_str())
        .concat(".conf");
    let body = "    # The rules of the `".to_owned()
        .concat(role.id.as_str())
        .concat("` role. A role without any still has this file:\n    # a ruleset that reads a missing file does not load.\n")
        .concat(concat_strings(&restricted_lines_of(c, role)).as_str());
    Rendered::new(path, ids1("CD-18"), body)
}

/// The rules of each role.
pub open spec fn role_rules_files(c: Cluster) -> Seq<File> {
    Seq::new(c.cluster.role@.len(), |i: int| role_rules_file(c, c.cluster.role@[i]))
}

fn each_role_rules(c: &Cluster) -> (out: Vec<Rendered>)
    ensures
        files(out@) == role_rules_files(*c),
{
    let mut out: Vec<Rendered> = Vec::new();
    let mut i: usize = 0;
    while i < c.cluster.role.len()
        invariant
            i <= c.cluster.role.len(),
            out.len() == i,
            forall|k: int|
                0 <= k < i ==> (#[trigger] out@[k])@ == role_rules_file(*c, c.cluster.role@[k]),
        decreases c.cluster.role.len() - i,
    {
        out.push(role_rules(c, &c.cluster.role[i]));
        i = i + 1;
    }
    proof {
        assert(files(out@) =~= role_rules_files(*c));
    }
    out
}

/// The packet filter: the common ruleset, and each role's.
pub open spec fn filter_files(c: Cluster) -> Seq<File> {
    seq![ruleset_file(c)] + role_rules_files(c)
}

/// The packet filter: the common ruleset, and each role's.
pub(crate) fn render(c: &Cluster) -> (out: Vec<Rendered>)
    requires
        c.cluster.fleet.size <= 65536,
    ensures
        files(out@) == filter_files(*c),
{
    let mut out: Vec<Rendered> = vec![ruleset(c)];
    let mut rest = each_role_rules(c);
    let ghost middle = rest@;
    out.append(&mut rest);
    proof {
        assert(files(out@) =~= filter_files(*c));
    }
    out
}

// ---- laws of the packet filter ----

/// The ruleset is given.
proof fn lemma_ruleset_given(c: Cluster)
    ensures
        is_ours(c, ruleset_file(c)),
{
    reveal(is_ours);
    assert(filter_files(c)[0] == ruleset_file(c));
    assert(filter_files(c).contains(filter_files(c)[0]));
}

/// The ruleset has a set of the addresses of the mesh, and a chain for what comes in,
/// what passes through and what goes out, each with the policy that the model
/// declares; established connections go on, and only the mesh is forwarded.
pub proof fn the_filter_keeps_what_no_rule_accepts_out(c: Cluster, out: Vec<Rendered>)
    requires
        call_ensures(render_all, (&c,), out),
    ensures
        ({
            let path = "node/nftables.conf"@;
            &&& shows(out@, path, "\nflush ruleset\n"@)
            &&& shows(out@, path, "\ntable inet cluster {\n  set mesh {\n    type ipv4_addr\n    comment \"the six link addresses and three loopbacks (§4.1)\"\n    elements = { "@ + join(dotted_each(mesh_bits(c)), ", "@) + " }\n  }\n"@)
            &&& shows(out@, path, "\n  chain input {\n    type filter hook input priority filter; policy "@ + c.network.firewall.input_policy@ + ";\n"@)
            &&& shows(out@, path, "\n    ct state established,related accept\n    ct state invalid drop\n"@)
            &&& shows(out@, path, concat_all(common_lines(c)) + "\n"@)
            &&& shows(out@, path, "\n    include \"/run/cluster/nftables-role.conf\"\n  }\n"@)
            &&& shows(out@, path, "\n  chain forward {\n    type filter hook forward priority filter; policy "@ + c.network.firewall.forward_policy@ + ";\n"@)
            &&& shows(out@, path, "\n    ct state established,related accept\n"@)
            &&& shows(out@, path, "\n    ip saddr @mesh ip daddr @mesh accept\n  }\n"@)
            &&& shows(out@, path, "\n  chain output {\n    type filter hook output priority filter; policy "@ + c.network.firewall.output_policy@ + ";\n  }\n}\n"@)
        }),
{
    let file = ruleset_file(c);
    lemma_ruleset_given(c);
    lemma_is_shown(c, out, file);
    let t0 = "# The fleet's packet filter. Default "@;
    let b0 = t0;
    let t1 = c.network.firewall.input_policy@;
    let b1 = b0 + t1;
    let t2 = " on input; every accept is a declared\n# rule in model/network.toml.\n\nflush ruleset\n\ntable inet cluster {\n  set mesh {\n    type ipv4_addr\n    comment \"the six link addresses and three loopbacks (§4.1)\"\n    elements = { "@;
    let b2 = b1 + t2;
    let t3 = join(dotted_each(mesh_bits(c)), ", "@);
    let b3 = b2 + t3;
    let t4 = " }\n  }\n\n  chain input {\n    type filter hook input priority filter; policy "@;
    let b4 = b3 + t4;
    let t5 = c.network.firewall.input_policy@;
    let b5 = b4 + t5;
    let t6 = ";\n\n    ct state established,related accept\n    ct state invalid drop\n\n"@;
    let b6 = b5 + t6;
    let t7 = concat_all(common_lines(c));
    let b7 = b6 + t7;
    let t8 = "\n    # What holds for this machine's role only, linked into place once the role\n    # is known.\n    include \"/run/cluster/nftables-role.conf\"\n  }\n\n  chain forward {\n    type filter hook forward priority filter; policy "@;
    let b8 = b7 + t8;
    let t9 = c.network.firewall.forward_policy@;
    let b9 = b8 + t9;
    let t10 = ";\n\n    ct state established,related accept\n    # Transit for §4.2's failover path, and nothing else: both ends must be\n    # mesh addresses, so this forwards no traffic that arrived from the LAN.\n    ip saddr @mesh ip daddr @mesh accept\n  }\n\n  chain output {\n    type filter hook output priority filter; policy "@;
    let b10 = b9 + t10;
    let t11 = c.network.firewall.output_policy@;
    let b11 = b10 + t11;
    let t12 = ";\n  }\n}\n"@;
    let b12 = b11 + t12;
    lemma_ruleset_file_0();
    lemma_part_right(b1, t2, "\nflush ruleset\n"@);
    let text = "\nflush ruleset\n"@;
    lemma_part_left(b2, t3, text);
    lemma_part_left(b3, t4, text);
    lemma_part_left(b4, t5, text);
    lemma_part_left(b5, t6, text);
    lemma_part_left(b6, t7, text);
    lemma_part_left(b7, t8, text);
    lemma_part_left(b8, t9, text);
    lemma_part_left(b9, t10, text);
    lemma_part_left(b10, t11, text);
    lemma_part_left(b11, t12, text);
    lemma_shows(out@, file, text);
    lemma_ruleset_file_1();
    let q2 = "\ntable inet cluster {\n  set mesh {\n    type ipv4_addr\n    comment \"the six link addresses and three loopbacks (§4.1)\"\n    elements = { "@;
    lemma_tail_right(b1, t2, q2);
    lemma_tail_grows(b2, q2, t3);
    let q3 = q2 + t3;
    lemma_ruleset_file_2();
    lemma_tail_is_cut(b3, q3, t4, " }\n  }\n"@);
    let text = q3 + " }\n  }\n"@;
    lemma_part_left(b4, t5, text);
    lemma_part_left(b5, t6, text);
    lemma_part_left(b6, t7, text);
    lemma_part_left(b7, t8, text);
    lemma_part_left(b8, t9, text);
    lemma_part_left(b9, t10, text);
    lemma_part_left(b10, t11, text);
    lemma_part_left(b11, t12, text);
    lemma_shows(out@, file, text);
    lemma_ruleset_file_3();
    let q4 = "\n  chain input {\n    type filter hook input priority filter; policy "@;
    lemma_tail_right(b3, t4, q4);
    lemma_tail_grows(b4, q4, t5);
    let q5 = q4 + t5;
    lemma_ruleset_file_4();
    lemma_tail_is_cut(b5, q5, t6, ";\n"@);
    let text = q5 + ";\n"@;
    lemma_part_left(b6, t7, text);
    lemma_part_left(b7, t8, text);
    lemma_part_left(b8, t9, text);
    lemma_part_left(b9, t10, text);
    lemma_part_left(b10, t11, text);
    lemma_part_left(b11, t12, text);
    lemma_shows(out@, file, text);
    lemma_ruleset_file_5();
    lemma_part_right(b5, t6, "\n    ct state established,related accept\n    ct state invalid drop\n"@);
    let text = "\n    ct state established,related accept\n    ct state invalid drop\n"@;
    lemma_part_left(b6, t7, text);
    lemma_part_left(b7, t8, text);
    lemma_part_left(b8, t9, text);
    lemma_part_left(b9, t10, text);
    lemma_part_left(b10, t11, text);
    lemma_part_left(b11, t12, text);
    lemma_shows(out@, file, text);
    let q7 = t7;
    lemma_whole(t7);
    lemma_tail_right(b6, t7, q7);
    lemma_ruleset_file_6();
    lemma_tail_is_cut(b7, q7, t8, "\n"@);
    let text = q7 + "\n"@;
    lemma_part_left(b8, t9, text);
    lemma_part_left(b9, t10, text);
    lemma_part_left(b10, t11, text);
    lemma_part_left(b11, t12, text);
    lemma_shows(out@, file, text);
    lemma_ruleset_file_7();
    lemma_part_right(b7, t8, "\n    include \"/run/cluster/nftables-role.conf\"\n  }\n"@);
    let text = "\n    include \"/run/cluster/nftables-role.conf\"\n  }\n"@;
    lemma_part_left(b8, t9, text);
    lemma_part_left(b9, t10, text);
    lemma_part_left(b10, t11, text);
    lemma_part_left(b11, t12, text);
    lemma_shows(out@, file, text);
    lemma_ruleset_file_8();
    let q8 = "\n  chain forward {\n    type filter hook forward priority filter; policy "@;
    lemma_tail_right(b7, t8, q8);
    lemma_tail_grows(b8, q8, t9);
    let q9 = q8 + t9;
    lemma_ruleset_file_9();
    lemma_tail_is_cut(b9, q9, t10, ";\n"@);
    let text = q9 + ";\n"@;
    lemma_part_left(b10, t11, text);
    lemma_part_left(b11, t12, text);
    lemma_shows(out@, file, text);
    lemma_ruleset_file_10();
    lemma_part_right(b9, t10, "\n    ct state established,related accept\n"@);
    let text = "\n    ct state established,related accept\n"@;
    lemma_part_left(b10, t11, text);
    lemma_part_left(b11, t12, text);
    lemma_shows(out@, file, text);
    lemma_ruleset_file_11();
    lemma_part_right(b9, t10, "\n    ip saddr @mesh ip daddr @mesh accept\n  }\n"@);
    let text = "\n    ip saddr @mesh ip daddr @mesh accept\n  }\n"@;
    lemma_part_left(b10, t11, text);
    lemma_part_left(b11, t12, text);
    lemma_shows(out@, file, text);
    lemma_ruleset_file_12();
    let q10 = "\n  chain output {\n    type filter hook output priority filter; policy "@;
    lemma_tail_right(b9, t10, q10);
    lemma_tail_grows(b10, q10, t11);
    let q11 = q10 + t11;
    lemma_tail_grows(b11, q11, t12);
    let q12 = q11 + t12;
    let text = q12;
    lemma_shows(out@, file, text);
}

proof fn lemma_ruleset_file_0()
    ensures
        is_part(" on input; every accept is a declared\n# rule in model/network.toml.\n\nflush ruleset\n\ntable inet cluster {\n  set mesh {\n    type ipv4_addr\n    comment \"the six link addresses and three loopbacks (§4.1)\"\n    elements = { "@, "\nflush ruleset\n"@),
{
    reveal(is_part);
    reveal_strlit(" on input; every accept is a declared\n# rule in model/network.toml.\n\nflush ruleset\n\ntable inet cluster {\n  set mesh {\n    type ipv4_addr\n    comment \"the six link addresses and three loopbacks (§4.1)\"\n    elements = { ");
    reveal_strlit("\nflush ruleset\n");
    assert(" on input; every accept is a declared\n# rule in model/network.toml.\n\nflush ruleset\n\ntable inet cluster {\n  set mesh {\n    type ipv4_addr\n    comment \"the six link addresses and three loopbacks (§4.1)\"\n    elements = { "@.subrange(68, 83) =~= "\nflush ruleset\n"@);
    assert(occurs_at(" on input; every accept is a declared\n# rule in model/network.toml.\n\nflush ruleset\n\ntable inet cluster {\n  set mesh {\n    type ipv4_addr\n    comment \"the six link addresses and three loopbacks (§4.1)\"\n    elements = { "@, "\nflush ruleset\n"@, 68));
}

proof fn lemma_ruleset_file_1()
    ensures
        is_tail(" on input; every accept is a declared\n# rule in model/network.toml.\n\nflush ruleset\n\ntable inet cluster {\n  set mesh {\n    type ipv4_addr\n    comment \"the six link addresses and three loopbacks (§4.1)\"\n    elements = { "@, "\ntable inet cluster {\n  set mesh {\n    type ipv4_addr\n    comment \"the six link addresses and three loopbacks (§4.1)\"\n    elements = { "@),
{
    reveal(is_tail);
    reveal_strlit(" on input; every accept is a declared\n# rule in model/network.toml.\n\nflush ruleset\n\ntable inet cluster {\n  set mesh {\n    type ipv4_addr\n    comment \"the six link addresses and three loopbacks (§4.1)\"\n    elements = { ");
    reveal_strlit("\ntable inet cluster {\n  set mesh {\n    type ipv4_addr\n    comment \"the six link addresses and three loopbacks (§4.1)\"\n    elements = { ");
    assert(" on input; every accept is a declared\n# rule in model/network.toml.\n\nflush ruleset\n\ntable inet cluster {\n  set mesh {\n    type ipv4_addr\n    comment \"the six link addresses and three loopbacks (§4.1)\"\n    elements = { "@.subrange(83, 218) =~= "\ntable inet cluster {\n  set mesh {\n    type ipv4_addr\n    comment \"the six link addresses and three loopbacks (§4.1)\"\n    elements = { "@);
}

proof fn lemma_ruleset_file_2()
    ensures
        is_head(" }\n  }\n\n  chain input {\n    type filter hook input priority filter; policy "@, " }\n  }\n"@),
{
    reveal(is_head);
    reveal_strlit(" }\n  }\n\n  chain input {\n    type filter hook input priority filter; policy ");
    reveal_strlit(" }\n  }\n");
    assert(" }\n  }\n\n  chain input {\n    type filter hook input priority filter; policy "@.subrange(0, 7) =~= " }\n  }\n"@);
}

proof fn lemma_ruleset_file_3()
    ensures
        is_tail(" }\n  }\n\n  chain input {\n    type filter hook input priority filter; policy "@, "\n  chain input {\n    type filter hook input priority filter; policy "@),
{
    reveal(is_tail);
    reveal_strlit(" }\n  }\n\n  chain input {\n    type filter hook input priority filter; policy ");
    reveal_strlit("\n  chain input {\n    type filter hook input priority filter; policy ");
    assert(" }\n  }\n\n  chain input {\n    type filter hook input priority filter; policy "@.subrange(7, 75) =~= "\n  chain input {\n    type filter hook input priority filter; policy "@);
}

proof fn lemma_ruleset_file_4()
    ensures
        is_head(";\n\n    ct state established,related accept\n    ct state invalid drop\n\n"@, ";\n"@),
{
    reveal(is_head);
    reveal_strlit(";\n\n    ct state established,related accept\n    ct state invalid drop\n\n");
    reveal_strlit(";\n");
    assert(";\n\n    ct state established,related accept\n    ct state invalid drop\n\n"@.subrange(0, 2) =~= ";\n"@);
}

proof fn lemma_ruleset_file_5()
    ensures
        is_part(";\n\n    ct state established,related accept\n    ct state invalid drop\n\n"@, "\n    ct state established,related accept\n    ct state invalid drop\n"@),
{
    reveal(is_part);
    reveal_strlit(";\n\n    ct state established,related accept\n    ct state invalid drop\n\n");
    reveal_strlit("\n    ct state established,related accept\n    ct state invalid drop\n");
    assert(";\n\n    ct state established,related accept\n    ct state invalid drop\n\n"@.subrange(2, 69) =~= "\n    ct state established,related accept\n    ct state invalid drop\n"@);
    assert(occurs_at(";\n\n    ct state established,related accept\n    ct state invalid drop\n\n"@, "\n    ct state established,related accept\n    ct state invalid drop\n"@, 2));
}

proof fn lemma_ruleset_file_6()
    ensures
        is_head("\n    # What holds for this machine's role only, linked into place once the role\n    # is known.\n    include \"/run/cluster/nftables-role.conf\"\n  }\n\n  chain forward {\n    type filter hook forward priority filter; policy "@, "\n"@),
{
    reveal(is_head);
    reveal_strlit("\n    # What holds for this machine's role only, linked into place once the role\n    # is known.\n    include \"/run/cluster/nftables-role.conf\"\n  }\n\n  chain forward {\n    type filter hook forward priority filter; policy ");
    reveal_strlit("\n");
    assert("\n    # What holds for this machine's role only, linked into place once the role\n    # is known.\n    include \"/run/cluster/nftables-role.conf\"\n  }\n\n  chain forward {\n    type filter hook forward priority filter; policy "@.subrange(0, 1) =~= "\n"@);
}

proof fn lemma_ruleset_file_7()
    ensures
        is_part("\n    # What holds for this machine's role only, linked into place once the role\n    # is known.\n    include \"/run/cluster/nftables-role.conf\"\n  }\n\n  chain forward {\n    type filter hook forward priority filter; policy "@, "\n    include \"/run/cluster/nftables-role.conf\"\n  }\n"@),
{
    reveal(is_part);
    reveal_strlit("\n    # What holds for this machine's role only, linked into place once the role\n    # is known.\n    include \"/run/cluster/nftables-role.conf\"\n  }\n\n  chain forward {\n    type filter hook forward priority filter; policy ");
    reveal_strlit("\n    include \"/run/cluster/nftables-role.conf\"\n  }\n");
    assert("\n    # What holds for this machine's role only, linked into place once the role\n    # is known.\n    include \"/run/cluster/nftables-role.conf\"\n  }\n\n  chain forward {\n    type filter hook forward priority filter; policy "@.subrange(95, 146) =~= "\n    include \"/run/cluster/nftables-role.conf\"\n  }\n"@);
    assert(occurs_at("\n    # What holds for this machine's role only, linked into place once the role\n    # is known.\n    include \"/run/cluster/nftables-role.conf\"\n  }\n\n  chain forward {\n    type filter hook forward priority filter; policy "@, "\n    include \"/run/cluster/nftables-role.conf\"\n  }\n"@, 95));
}

proof fn lemma_ruleset_file_8()
    ensures
        is_tail("\n    # What holds for this machine's role only, linked into place once the role\n    # is known.\n    include \"/run/cluster/nftables-role.conf\"\n  }\n\n  chain forward {\n    type filter hook forward priority filter; policy "@, "\n  chain forward {\n    type filter hook forward priority filter; policy "@),
{
    reveal(is_tail);
    reveal_strlit("\n    # What holds for this machine's role only, linked into place once the role\n    # is known.\n    include \"/run/cluster/nftables-role.conf\"\n  }\n\n  chain forward {\n    type filter hook forward priority filter; policy ");
    reveal_strlit("\n  chain forward {\n    type filter hook forward priority filter; policy ");
    assert("\n    # What holds for this machine's role only, linked into place once the role\n    # is known.\n    include \"/run/cluster/nftables-role.conf\"\n  }\n\n  chain forward {\n    type filter hook forward priority filter; policy "@.subrange(146, 218) =~= "\n  chain forward {\n    type filter hook forward priority filter; policy "@);
}

proof fn lemma_ruleset_file_9()
    ensures
        is_head(";\n\n    ct state established,related accept\n    # Transit for §4.2's failover path, and nothing else: both ends must be\n    # mesh addresses, so this forwards no traffic that arrived from the LAN.\n    ip saddr @mesh ip daddr @mesh accept\n  }\n\n  chain output {\n    type filter hook output priority filter; policy "@, ";\n"@),
{
    reveal(is_head);
    reveal_strlit(";\n\n    ct state established,related accept\n    # Transit for §4.2's failover path, and nothing else: both ends must be\n    # mesh addresses, so this forwards no traffic that arrived from the LAN.\n    ip saddr @mesh ip daddr @mesh accept\n  }\n\n  chain output {\n    type filter hook output priority filter; policy ");
    reveal_strlit(";\n");
    assert(";\n\n    ct state established,related accept\n    # Transit for §4.2's failover path, and nothing else: both ends must be\n    # mesh addresses, so this forwards no traffic that arrived from the LAN.\n    ip saddr @mesh ip daddr @mesh accept\n  }\n\n  chain output {\n    type filter hook output priority filter; policy "@.subrange(0, 2) =~= ";\n"@);
}

proof fn lemma_ruleset_file_10()
    ensures
        is_part(";\n\n    ct state established,related accept\n    # Transit for §4.2's failover path, and nothing else: both ends must be\n    # mesh addresses, so this forwards no traffic that arrived from the LAN.\n    ip saddr @mesh ip daddr @mesh accept\n  }\n\n  chain output {\n    type filter hook output priority filter; policy "@, "\n    ct state established,related accept\n"@),
{
    reveal(is_part);
    reveal_strlit(";\n\n    ct state established,related accept\n    # Transit for §4.2's failover path, and nothing else: both ends must be\n    # mesh addresses, so this forwards no traffic that arrived from the LAN.\n    ip saddr @mesh ip daddr @mesh accept\n  }\n\n  chain output {\n    type filter hook output priority filter; policy ");
    reveal_strlit("\n    ct state established,related accept\n");
    assert(";\n\n    ct state established,related accept\n    # Transit for §4.2's failover path, and nothing else: both ends must be\n    # mesh addresses, so this forwards no traffic that arrived from the LAN.\n    ip saddr @mesh ip daddr @mesh accept\n  }\n\n  chain output {\n    type filter hook output priority filter; policy "@.subrange(2, 43) =~= "\n    ct state established,related accept\n"@);
    assert(occurs_at(";\n\n    ct state established,related accept\n    # Transit for §4.2's failover path, and nothing else: both ends must be\n    # mesh addresses, so this forwards no traffic that arrived from the LAN.\n    ip saddr @mesh ip daddr @mesh accept\n  }\n\n  chain output {\n    type filter hook output priority filter; policy "@, "\n    ct state established,related accept\n"@, 2));
}

proof fn lemma_ruleset_file_11()
    ensures
        is_part(";\n\n    ct state established,related accept\n    # Transit for §4.2's failover path, and nothing else: both ends must be\n    # mesh addresses, so this forwards no traffic that arrived from the LAN.\n    ip saddr @mesh ip daddr @mesh accept\n  }\n\n  chain output {\n    type filter hook output priority filter; policy "@, "\n    ip saddr @mesh ip daddr @mesh accept\n  }\n"@),
{
    reveal(is_part);
    reveal_strlit(";\n\n    ct state established,related accept\n    # Transit for §4.2's failover path, and nothing else: both ends must be\n    # mesh addresses, so this forwards no traffic that arrived from the LAN.\n    ip saddr @mesh ip daddr @mesh accept\n  }\n\n  chain output {\n    type filter hook output priority filter; policy ");
    reveal_strlit("\n    ip saddr @mesh ip daddr @mesh accept\n  }\n");
    assert(";\n\n    ct state established,related accept\n    # Transit for §4.2's failover path, and nothing else: both ends must be\n    # mesh addresses, so this forwards no traffic that arrived from the LAN.\n    ip saddr @mesh ip daddr @mesh accept\n  }\n\n  chain output {\n    type filter hook output priority filter; policy "@.subrange(195, 241) =~= "\n    ip saddr @mesh ip daddr @mesh accept\n  }\n"@);
    assert(occurs_at(";\n\n    ct state established,related accept\n    # Transit for §4.2's failover path, and nothing else: both ends must be\n    # mesh addresses, so this forwards no traffic that arrived from the LAN.\n    ip saddr @mesh ip daddr @mesh accept\n  }\n\n  chain output {\n    type filter hook output priority filter; policy "@, "\n    ip saddr @mesh ip daddr @mesh accept\n  }\n"@, 195));
}

proof fn lemma_ruleset_file_12()
    ensures
        is_tail(";\n\n    ct state established,related accept\n    # Transit for §4.2's failover path, and nothing else: both ends must be\n    # mesh addresses, so this forwards no traffic that arrived from the LAN.\n    ip saddr @mesh ip daddr @mesh accept\n  }\n\n  chain output {\n    type filter hook output priority filter; policy "@, "\n  chain output {\n    type filter hook output priority filter; policy "@),
{
    reveal(is_tail);
    reveal_strlit(";\n\n    ct state established,related accept\n    # Transit for §4.2's failover path, and nothing else: both ends must be\n    # mesh addresses, so this forwards no traffic that arrived from the LAN.\n    ip saddr @mesh ip daddr @mesh accept\n  }\n\n  chain output {\n    type filter hook output priority filter; policy ");
    reveal_strlit("\n  chain output {\n    type filter hook output priority filter; policy ");
    assert(";\n\n    ct state established,related accept\n    # Transit for §4.2's failover path, and nothing else: both ends must be\n    # mesh addresses, so this forwards no traffic that arrived from the LAN.\n    ip saddr @mesh ip daddr @mesh accept\n  }\n\n  chain output {\n    type filter hook output priority filter; policy "@.subrange(241, 311) =~= "\n  chain output {\n    type filter hook output priority filter; policy "@);
}

// ---- laws of the mesh ----

proof fn lemma_deduped(list: Seq<u32>, n: u32)
    ensures
        deduped(list).contains(n) <==> list.contains(n),
        list.len() > 0 ==> deduped(list).len() > 0 && deduped(list).last() == list.last(),
    decreases list.len(),
{
    if list.len() > 1 {
        let (before, last) = (list.drop_last(), list.last());
        lemma_deduped(before, n);
        assert(list =~= before.push(last));
        lemma_pushed(before, last, n);
        lemma_pushed(deduped(before), last, n);
        if list[list.len() - 2] == last {
            assert(before.contains(last)) by {
                assert(before[before.len() - 1] == last);
            }
        }
    }
}

proof fn lemma_pushed(list: Seq<u32>, last: u32, n: u32)
    ensures
        list.push(last).contains(n) <==> list.contains(n) || n == last,
{
    let all = list.push(last);
    assert(all[all.len() - 1] == last);
    if list.contains(n) {
        let i = list.index_of(n);
        assert(all[i] == n);
    }
    if all.contains(n) {
        let i = all.index_of(n);
        if i < list.len() {
            assert(list[i] == n);
        }
    }
}

proof fn lemma_ascending(list: Seq<u32>, n: u32)
    ensures
        ascending(list).contains(n) <==> list.contains(n),
{
    let keys = crate::lists::number_keys(list);
    let order = crate::order::order_of(keys);
    crate::order::order_of_is_a_stable_order(keys);
    crate::order::stable_order_is_a_permutation(keys, order);
    let sorted = ascending(list);
    if sorted.contains(n) {
        let k = sorted.index_of(n);
        assert(list[order[k]] == n);
    }
    if list.contains(n) {
        let i = list.index_of(n);
        assert(order.contains(i));
        let k = order.index_of(i);
        assert(sorted[k] == n);
    }
}

proof fn lemma_link_bits(links: Seq<Link>, i: int)
    requires
        0 <= i < links.len(),
    ensures
        link_bits(links).contains(links[i].lower_address.bits),
        link_bits(links).contains(links[i].higher_address.bits),
    decreases links.len(),
{
    let all = link_bits(links);
    if i == links.len() - 1 {
        assert(all[all.len() - 2] == links[i].lower_address.bits);
        assert(all[all.len() - 1] == links[i].higher_address.bits);
    } else {
        lemma_link_bits(links.drop_last(), i);
        let before = link_bits(links.drop_last());
        let a = before.index_of(links[i].lower_address.bits);
        let b = before.index_of(links[i].higher_address.bits);
        assert(all[a] == before[a] && all[b] == before[b]);
    }
}

proof fn lemma_loopback_bits(list: Seq<Slot>, i: int, bits: u32)
    requires
        0 <= i < list.len(),
        ipv4_of(list[i].loopback) == Some(bits),
    ensures
        loopback_bits(list).contains(bits),
    decreases list.len(),
{
    let all = loopback_bits(list);
    if i == list.len() - 1 {
        assert(all[all.len() - 1] == bits);
    } else {
        lemma_loopback_bits(list.drop_last(), i, bits);
        let before = loopback_bits(list.drop_last());
        let k = before.index_of(bits);
        assert(all[k] == bits);
    }
}

proof fn lemma_in_both(a: Seq<u32>, b: Seq<u32>, n: u32)
    requires
        a.contains(n) || b.contains(n),
    ensures
        (a + b).contains(n),
{
    if a.contains(n) {
        let i = a.index_of(n);
        assert((a + b)[i] == n);
    } else {
        let i = b.index_of(n);
        assert((a + b)[a.len() + i] == n);
    }
}

/// Both ends of every link of the fleet, and every slot's loopback, may speak on
/// the mesh.
pub proof fn every_address_of_the_mesh_may_speak(c: Cluster, i: int, bits: u32)
    ensures
        ({
            let links = c.network.addressing.links_spec(c.cluster.fleet.size);
            &&& 0 <= i < links.len() ==> mesh_bits(c).contains(links[i].lower_address.bits)
                && mesh_bits(c).contains(links[i].higher_address.bits)
            &&& 0 <= i < c.slots_spec().len() && ipv4_of(c.slots_spec()[i].loopback) == Some(bits)
                ==> mesh_bits(c).contains(bits)
        }),
{
    let links = c.network.addressing.links_spec(c.cluster.fleet.size);
    let (a, b) = (link_bits(links), loopback_bits(c.slots_spec()));
    if 0 <= i < links.len() {
        let (x, y) = (links[i].lower_address.bits, links[i].higher_address.bits);
        lemma_link_bits(links, i);
        lemma_in_both(a, b, x);
        lemma_in_both(a, b, y);
        lemma_ascending(a + b, x);
        lemma_ascending(a + b, y);
        lemma_deduped(ascending(a + b), x);
        lemma_deduped(ascending(a + b), y);
    }
    if 0 <= i < c.slots_spec().len() && ipv4_of(c.slots_spec()[i].loopback) == Some(bits) {
        lemma_loopback_bits(c.slots_spec(), i, bits);
        lemma_in_both(a, b, bits);
        lemma_ascending(a + b, bits);
        lemma_deduped(ascending(a + b), bits);
    }
}

/// No address speaks on the mesh but an end of a link or the loopback of a slot.
pub proof fn nothing_else_may_speak_on_the_mesh(c: Cluster, bits: u32)
    requires
        mesh_bits(c).contains(bits),
    ensures
        ({
            let links = c.network.addressing.links_spec(c.cluster.fleet.size);
            ||| exists|i: int|
                0 <= i < links.len() && ((#[trigger] links[i]).lower_address.bits == bits
                    || links[i].higher_address.bits == bits)
            ||| exists|i: int|
                0 <= i < c.slots_spec().len() && ipv4_of((#[trigger] c.slots_spec()[i]).loopback)
                    == Some(bits)
        }),
{
    let links = c.network.addressing.links_spec(c.cluster.fleet.size);
    let (a, b) = (link_bits(links), loopback_bits(c.slots_spec()));
    lemma_deduped(ascending(a + b), bits);
    lemma_ascending(a + b, bits);
    let k = (a + b).index_of(bits);
    if k < a.len() {
        assert(a.contains(a[k]));
        lemma_of_link(links, bits);
    } else {
        assert(b[k - a.len()] == bits);
        assert(b.contains(bits));
        lemma_of_loopback(c.slots_spec(), bits);
    }
}

proof fn lemma_of_link(links: Seq<Link>, bits: u32)
    requires
        link_bits(links).contains(bits),
    ensures
        exists|i: int|
            0 <= i < links.len() && ((#[trigger] links[i]).lower_address.bits == bits
                || links[i].higher_address.bits == bits),
    decreases links.len(),
{
    let all = link_bits(links);
    let k = all.index_of(bits);
    let before = link_bits(links.drop_last());
    if k < before.len() {
        assert(before[k] == bits);
        lemma_of_link(links.drop_last(), bits);
        let i = choose|i: int|
            0 <= i < links.drop_last().len() && ((
            #[trigger] links.drop_last()[i]).lower_address.bits == bits
                || links.drop_last()[i].higher_address.bits == bits);
        assert(links[i] == links.drop_last()[i]);
    } else {
        assert(links[links.len() - 1].lower_address.bits == bits || links[links.len()
            - 1].higher_address.bits == bits);
    }
}

proof fn lemma_of_loopback(list: Seq<Slot>, bits: u32)
    requires
        loopback_bits(list).contains(bits),
    ensures
        exists|i: int|
            0 <= i < list.len() && ipv4_of((#[trigger] list[i]).loopback) == Some(bits),
    decreases list.len(),
{
    let all = loopback_bits(list);
    let k = all.index_of(bits);
    let before = loopback_bits(list.drop_last());
    if k < before.len() {
        assert(before[k] == bits);
        lemma_of_loopback(list.drop_last(), bits);
        let i = choose|i: int|
            0 <= i < list.drop_last().len() && ipv4_of((#[trigger] list.drop_last()[i]).loopback)
                == Some(bits);
        assert(list[i] == list.drop_last()[i]);
    } else {
        assert(ipv4_of(list[list.len() - 1].loopback) == Some(bits));
    }
}

} // verus!
