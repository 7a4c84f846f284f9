//! What it takes for a model to pass: each rule of the checks, in the values that
//! it is about, and that nothing else is asked.
use vstd::prelude::*;

use crate::check::fleet::{bulk_count, hand_outs, local_devices, role_fault, roles_fault};
use crate::check::images::{base_kargs_fault, is_prefix, isolates, isolation_fault, relabel_fault};
use crate::check::policy::{
    budget_fault,
    budgets_fault,
    credential_run,
    destination_fault,
    format_fault,
    reclaim_fault,
    secret_fault,
    secret_shaped,
    secrets_fault,
};
use crate::address::{ipv4_of, is_ipv6};
use crate::cluster::{assigned, self_detected, Disk, Role};
use crate::images::{Quadlet, Variant};
use crate::lists::{ascending, distinct, one_to};
use crate::model::{Cluster, ClusterError};
use crate::named::row;
use crate::network::Class;
use crate::policy::{DrainBudget, Reclaim, Secret};
use crate::tasks::laws::stands_in;
use crate::text::{
    a_text_is_found_where_it_stands,
    halves,
    numeral,
    trimmed,
    words,
};

verus! {

/// A model passes exactly where every part of its checks has nothing to say.
pub proof fn a_model_passes_where_every_part_does(c: Cluster, r: Result<(), ClusterError>)
    requires
        call_ensures(Cluster::check, (&c,), r),
    ensures
        r is Ok <==> c.spec_fault() is None && c.fleet_fault() is None && c.topology_fault() is None
            && c.firewall_fault() is None && c.variants_fault() is None && c.runners_fault()
            is None && c.policy_fault() is None,
        r matches Err(e) ==> e is Inconsistent,
{
}

/// Every part of the model says which version of the format it is written in.
pub proof fn every_part_is_of_this_version(c: Cluster)
    ensures
        c.spec_fault() is None <==> c.cluster.spec@ == "cluster/1"@ && c.network.spec@
            == "cluster/1"@ && c.images.spec@ == "cluster/1"@ && c.policy.spec@ == "cluster/1"@,
{
}

/// A fleet passes exactly where it has a node, its names hold the ordinal and the
/// domain, and each of its parts passes.
pub proof fn a_fleet_passes_where_it_is_whole(c: Cluster)
    ensures
        c.fleet_fault() is None <==> {
            &&& c.cluster.fleet.size > 0
            &&& stands_in(c.cluster.fleet.name_template@, "{ordinal}"@)
            &&& stands_in(c.cluster.fleet.name_template@, "{domain}"@)
            &&& c.registrar_fault() is None
            &&& roles_fault(c.cluster.role@, 0) is None
            &&& c.hand_out_fault() is None
            &&& c.cluster.role@.len() as u32 == c.cluster.fleet.size
            &&& c.slots_fault(1) is None
            &&& c.positions_fault() is None
            &&& c.local_fault() is None
            &&& c.threshold_fault() is None
        },
{
    a_text_is_found_where_it_stands(c.cluster.fleet.name_template@, "{ordinal}"@);
    a_text_is_found_where_it_stands(c.cluster.fleet.name_template@, "{domain}"@);
}

/// Exactly one role is worked out from the disks of a machine; it has its
/// ordinal, and is not handed out.
pub proof fn one_role_registers_the_others(c: Cluster, role: Role)
    ensures
        c.registrar_fault() is None <==> {
            &&& self_detected(c.cluster.role@).len() == 1
            &&& self_detected(c.cluster.role@)[0].ordinal is Some
            &&& self_detected(c.cluster.role@)[0].assign_order is None
        },
        self_detected(c.cluster.role@).contains(role) <==> c.cluster.role@.contains(role)
            && role.detect@ == "bulk-disk"@,
{
    lemma_self_detected(c.cluster.role@, role);
}

proof fn lemma_self_detected(roles: Seq<Role>, role: Role)
    ensures
        self_detected(roles).contains(role) <==> roles.contains(role) && role.detect@
            == "bulk-disk"@,
    decreases roles.len(),
{
    if roles.len() > 0 {
        let (before, last) = (roles.drop_last(), roles.last());
        lemma_self_detected(before, role);
        assert(roles =~= before.push(last));
        lemma_pushed(before, last, role);
        lemma_pushed(self_detected(before), last, role);
    }
}

proof fn lemma_pushed(list: Seq<Role>, last: Role, role: Role)
    ensures
        list.push(last).contains(role) <==> list.contains(role) || role == last,
{
    let all = list.push(last);
    assert(all[all.len() - 1] == last);
    if list.contains(role) {
        let i = list.index_of(role);
        assert(all[i] == role);
    }
    if all.contains(role) {
        let i = all.index_of(role);
        if i < list.len() {
            assert(list[i] == role);
        }
    }
}

/// The roles pass exactly where no two share a name, each is worked out from the
/// disks or assigned, and none is both pinned and handed out.
pub proof fn roles_pass_where_each_is_one_thing(c: Cluster)
    ensures
        roles_fault(c.cluster.role@, 0) is None <==> forall|i: int|
            0 <= i < c.cluster.role@.len() ==> {
                let role = #[trigger] c.cluster.role@[i];
                &&& forall|k: int| 0 <= k < i ==> (#[trigger] c.cluster.role@[k]).id@ != role.id@
                &&& role.detect@ == "bulk-disk"@ || role.detect@ == "assigned"@
                &&& !(role.assign_order is Some && role.ordinal is Some)
            },
{
    lemma_roles(c.cluster.role@, 0);
    let roles = c.cluster.role@;
    assert forall|i: int| 0 <= i < roles.len() implies (role_fault(roles, i) is None <==> {
        let role = #[trigger] roles[i];
        &&& forall|k: int| 0 <= k < i ==> (#[trigger] roles[k]).id@ != role.id@
        &&& role.detect@ == "bulk-disk"@ || role.detect@ == "assigned"@
        &&& !(role.assign_order is Some && role.ordinal is Some)
    }) by {}
    if roles_fault(roles, 0) is None {
        assert forall|i: int| 0 <= i < roles.len() implies ({
            let role = #[trigger] roles[i];
            &&& forall|k: int| 0 <= k < i ==> (#[trigger] roles[k]).id@ != role.id@
            &&& role.detect@ == "bulk-disk"@ || role.detect@ == "assigned"@
            &&& !(role.assign_order is Some && role.ordinal is Some)
        }) by {
            assert(role_fault(roles, i) is None);
        }
    } else {
        let i = choose|i: int| 0 <= i < roles.len() && !(#[trigger] role_fault(roles, i) is None);
        let role = roles[i];
    }
}

proof fn lemma_roles(roles: Seq<Role>, from: int)
    requires
        0 <= from,
    ensures
        roles_fault(roles, from) is None <==> forall|i: int|
            from <= i < roles.len() ==> #[trigger] role_fault(roles, i) is None,
    decreases roles.len() - from,
{
    if from < roles.len() {
        lemma_roles(roles, from + 1);
    }
}

/// Update positions, and the order in which roles are handed out, count from one
/// without a gap.
pub proof fn positions_count_from_one(c: Cluster)
    ensures
        c.positions_fault() is None <==> ascending(
            c.positions_upto(c.cluster.fleet.size as int),
        ) == Seq::new(c.cluster.fleet.size as nat, |i: int| (i + 1) as u32),
        c.hand_out_fault() is None <==> ascending(hand_outs(c.cluster.role@)) == Seq::new(
            (ascending(hand_outs(c.cluster.role@)).len() as u32) as nat,
            |i: int| (i + 1) as u32,
        ),
{
    assert(one_to(c.cluster.fleet.size as int) =~= Seq::new(
        c.cluster.fleet.size as nat,
        |i: int| (i + 1) as u32,
    ));
    let k = (ascending(hand_outs(c.cluster.role@)).len() as u32) as nat;
    assert(one_to(k as int) =~= Seq::new(k, |i: int| (i + 1) as u32));
}

/// The roles that are assigned have one device of their own between them at most.
pub proof fn assigned_roles_share_their_device(c: Cluster)
    ensures
        c.local_fault() is None <==> distinct(local_devices(assigned(c.cluster.role@))).len() <= 1,
{
}

/// Exactly one disk is taken for bulk storage: one that is not booted from, and
/// not below the threshold.
pub proof fn one_disk_is_bulk(c: Cluster)
    ensures
        c.threshold_fault() is None <==> Set::new(
            |i: int|
                0 <= i < c.cluster.disk@.len() && c.cluster.disk@[i].purpose@ != "boot"@
                    && c.cluster.disk@[i].size_gb >= c.cluster.detection.bulk_disk_min_gb,
        ).len() == 1,
{
    let threshold = c.cluster.detection.bulk_disk_min_gb;
    let disks = c.cluster.disk@;
    lemma_bulk(disks, threshold, disks.len() as int);
    assert(bulk_set(disks, threshold, disks.len() as int) =~= Set::new(
        |i: int|
            0 <= i < c.cluster.disk@.len() && c.cluster.disk@[i].purpose@ != "boot"@
                && c.cluster.disk@[i].size_gb >= c.cluster.detection.bulk_disk_min_gb,
    ));
}

spec fn bulk_set(disks: Seq<Disk>, threshold: u32, n: int) -> Set<int> {
    Set::new(
        |i: int| 0 <= i < n && disks[i].purpose@ != "boot"@ && disks[i].size_gb >= threshold,
    )
}

proof fn lemma_bulk(disks: Seq<Disk>, threshold: u32, n: int)
    requires
        0 <= n <= disks.len(),
    ensures
        bulk_set(disks, threshold, n).finite(),
        bulk_set(disks, threshold, n).len() == bulk_count(disks, threshold, n),
    decreases n,
{
    let all = bulk_set(disks, threshold, n);
    if n == 0 {
        assert(all =~= Set::empty());
    } else {
        lemma_bulk(disks, threshold, n - 1);
        let before = bulk_set(disks, threshold, n - 1);
        if disks[n - 1].purpose@ != "boot"@ && disks[n - 1].size_gb >= threshold {
            assert(all =~= before.insert(n - 1));
        } else {
            assert(all =~= before);
        }
    }
}

/// The mesh is wired as its kind allows: no more nodes than it takes, a port for
/// every peer in a triangle, links of two addresses and loopbacks of one.
pub proof fn the_mesh_is_wired_as_its_kind_allows(c: Cluster)
    ensures
        c.wiring_fault() is None <==> {
            let n = c.cluster.fleet.size;
            &&& n <= c.network.topology.max_nodes
            &&& c.network.topology.kind@ == "direct-triangle"@ ==> n == 0
                || c.cluster.profile.nic_10g >= n - 1
            &&& c.network.addressing.link_prefix_len == 31
            &&& c.network.addressing.loopback_prefix_len == 32
        },
{
}

/// The classes of ports are told apart by speed, are as many as the fleet and the
/// hardware have, and are addressed as they are meant to be.
pub proof fn ports_are_classed_by_speed(c: Cluster, mesh: Class, lan: Class)
    ensures
        c.classes_fault(mesh, lan) is None <==> {
            &&& mesh.min_speed_mbps > lan.min_speed_mbps
            &&& mesh.count == (if c.cluster.fleet.size == 0 {
                0
            } else {
                c.cluster.fleet.size - 1
            })
            &&& mesh.count <= c.cluster.profile.nic_10g
            &&& lan.count <= c.cluster.profile.nic_1g
            &&& lan.addressing@ == "dhcp"@
            &&& mesh.addressing@ == "derived"@
        },
{
}

/// A direct route is preferred to one in transit, which forwarding makes
/// possible; discovery speaks on the link alone, and waits for more than one
/// round.
pub proof fn routes_prefer_the_direct_link(c: Cluster)
    ensures
        c.routing_fault() is None <==> {
            &&& c.network.routing.direct_metric < c.network.routing.transit_metric
            &&& c.network.routing.ip_forward
            &&& is_ipv6(c.network.discovery.group@)
            &&& "ff02:"@.is_prefix_of(c.network.discovery.group@)
            &&& c.network.discovery.interval_ms > 0
            &&& c.network.discovery.timeout_s * 1000 > c.network.discovery.interval_ms
        },
{
    a_text_is_found_where_it_stands(c.network.discovery.group@, "ff02:"@);
}

/// The topology passes exactly where the wiring, the mesh, both classes of ports
/// and the routes do.
pub proof fn a_topology_passes_where_its_parts_do(c: Cluster)
    ensures
        c.topology_fault() is None <==> {
            &&& c.wiring_fault() is None
            &&& c.mesh_fault() is None
            &&& row(c.network.class@, "mesh"@) is Some
            &&& row(c.network.class@, "lan"@) is Some
            &&& c.classes_fault(
                row(c.network.class@, "mesh"@).unwrap(),
                row(c.network.class@, "lan"@).unwrap(),
            ) is None
            &&& c.routing_fault() is None
        },
{
}

/// The packet filter passes exactly where it drops by default, every rule is on a
/// plane that there is and for roles that there are, and the LAN is a prefix.
pub proof fn a_filter_passes_where_it_drops(c: Cluster)
    ensures
        c.firewall_fault() is None <==> {
            &&& c.network.firewall.input_policy@ == "drop"@
            &&& forall|i: int|
                0 <= i < c.network.firewall.rule@.len() ==> c.rule_fault(
                    #[trigger] c.network.firewall.rule@[i],
                ) is None
            &&& is_prefix(c.network.lan_prefix@)
        },
{
    lemma_rules(c, 0);
}

proof fn lemma_rules(c: Cluster, from: int)
    requires
        0 <= from,
    ensures
        c.rules_fault(from) is None <==> forall|i: int|
            from <= i < c.network.firewall.rule@.len() ==> c.rule_fault(
                #[trigger] c.network.firewall.rule@[i],
            ) is None,
    decreases c.network.firewall.rule@.len() - from,
{
    if from < c.network.firewall.rule@.len() {
        lemma_rules(c, from + 1);
    }
}

/// A rule passes exactly where its plane is the tailnet, the loopback or a class
/// of ports, and every role that it names is a role.
pub proof fn a_rule_passes_where_its_plane_is_there(c: Cluster, i: int)
    requires
        0 <= i < c.network.firewall.rule@.len(),
    ensures
        ({
            let rule = c.network.firewall.rule@[i];
            c.rule_fault(rule) is None <==> {
                &&& rule.plane@ == "tailscale"@ || rule.plane@ == "lo"@ || row(
                    c.network.class@,
                    rule.plane@,
                ) is Some
                &&& forall|k: int|
                    0 <= k < rule.roles@.len() ==> row(
                        c.cluster.role@,
                        (#[trigger] rule.roles@[k])@,
                    ) is Some
            }
        }),
{
    lemma_rule_roles(c, i, 0);
}

proof fn lemma_rule_roles(c: Cluster, i: int, from: int)
    requires
        0 <= i < c.network.firewall.rule@.len(),
        0 <= from,
    ensures
        ({
            let rule = c.network.firewall.rule@[i];
            c.rule_roles_fault(rule, from) is None <==> forall|k: int|
                from <= k < rule.roles@.len() ==> row(
                    c.cluster.role@,
                    (#[trigger] rule.roles@[k])@,
                ) is Some
        }),
    decreases c.network.firewall.rule@[i].roles@.len() - from,
{
    if from < c.network.firewall.rule@[i].roles@.len() {
        lemma_rule_roles(c, i, from + 1);
    }
}

/// A prefix is an address and a length of thirty-two bits at most, with a slash
/// between them.
pub proof fn a_prefix_is_an_address_and_a_length(s: Seq<char>)
    ensures
        is_prefix(s) <==> halves(s, "/"@) is Some && ipv4_of(halves(s, "/"@).unwrap().0) is Some
            && numeral(halves(s, "/"@).unwrap().1, 10) is Some && numeral(
            halves(s, "/"@).unwrap().1,
            10,
        ).unwrap() <= 32,
{
}

/// The base image is pinned by its digest, and its signer is named in full.
pub proof fn the_base_is_pinned_and_its_signer_named(c: Cluster)
    ensures
        c.base_fault() is None <==> {
            let s = c.images.signing;
            &&& "sha256:"@.is_prefix_of(c.images.base.digest@)
            &&& trimmed(s.issuer@).len() > 0
            &&& trimmed(s.repository@).len() > 0
            &&& trimmed(s.workflow@).len() > 0
            &&& trimmed(s.ref_@).len() > 0
            &&& ".yml"@.is_suffix_of(s.workflow@)
            &&& stands_in(s.workflow@, "/"@)
            &&& row(c.images.runtime@, c.images.default_runtime@) is Some
        },
{
    a_text_is_found_where_it_stands(c.images.base.digest@, "sha256:"@);
    a_text_is_found_where_it_stands(c.images.signing.workflow@, ".yml"@);
    a_text_is_found_where_it_stands(c.images.signing.workflow@, "/"@);
}

/// The variants pass exactly where the base does, every role has one, each of
/// them passes, one of them at most isolates CPUs, and the base isolates none.
pub proof fn variants_pass_where_each_does(c: Cluster)
    ensures
        c.variants_fault() is None <==> {
            &&& c.base_fault() is None
            &&& forall|i: int|
                0 <= i < c.cluster.role@.len() ==> row(
                    c.images.variant@,
                    (#[trigger] c.cluster.role@[i]).id@,
                ) is Some
            &&& forall|i: int|
                0 <= i < c.images.variant@.len() ==> c.variant_fault(
                    #[trigger] c.images.variant@[i],
                ) is None
            &&& c.isolated_fault() is None
            &&& forall|i: int|
                0 <= i < c.images.base.content.kargs@.len() ==> {
                    let karg = (#[trigger] c.images.base.content.kargs@[i])@;
                    &&& !"isolcpus="@.is_prefix_of(karg)
                    &&& !"nohz_full="@.is_prefix_of(karg)
                    &&& karg != "nosmt"@
                }
        },
{
    lemma_uncovered(c, 0);
    lemma_variants(c, 0);
    lemma_kargs(c.images.base.content.kargs@, 0);
    assert forall|i: int| 0 <= i < c.images.base.content.kargs@.len() implies isolates(
        (#[trigger] c.images.base.content.kargs@[i])@,
    ) == ({
        let karg = c.images.base.content.kargs@[i]@;
        "isolcpus="@.is_prefix_of(karg) || "nohz_full="@.is_prefix_of(karg) || karg == "nosmt"@
    }) by {
        let karg = c.images.base.content.kargs@[i]@;
        a_text_is_found_where_it_stands(karg, "isolcpus="@);
        a_text_is_found_where_it_stands(karg, "nohz_full="@);
    }
}

proof fn lemma_uncovered(c: Cluster, from: int)
    requires
        0 <= from,
    ensures
        c.uncovered_fault(from) is None <==> forall|i: int|
            from <= i < c.cluster.role@.len() ==> row(
                c.images.variant@,
                (#[trigger] c.cluster.role@[i]).id@,
            ) is Some,
    decreases c.cluster.role@.len() - from,
{
    if from < c.cluster.role@.len() {
        lemma_uncovered(c, from + 1);
    }
}

proof fn lemma_variants(c: Cluster, from: int)
    requires
        0 <= from,
    ensures
        c.each_variant_fault(from) is None <==> forall|i: int|
            from <= i < c.images.variant@.len() ==> c.variant_fault(
                #[trigger] c.images.variant@[i],
            ) is None,
    decreases c.images.variant@.len() - from,
{
    if from < c.images.variant@.len() {
        lemma_variants(c, from + 1);
    }
}

proof fn lemma_kargs(kargs: Seq<String>, from: int)
    requires
        0 <= from,
    ensures
        base_kargs_fault(kargs, from) is None <==> forall|i: int|
            from <= i < kargs.len() ==> !isolates((#[trigger] kargs[i])@),
    decreases kargs.len() - from,
{
    if from < kargs.len() {
        lemma_kargs(kargs, from + 1);
    }
}

/// A variant that isolates CPUs tells the kernel which.
pub proof fn isolated_cpus_are_told_to_the_kernel(variant: Variant)
    ensures
        isolation_fault(variant) is None <==> (variant.isolation matches Some(isolation) ==> exists|
            i: int,
        |
            0 <= i < variant.kargs@.len() && (#[trigger] variant.kargs@[i])@ == "isolcpus="@
                + isolation.isolated_cpus@),
{
}

/// A mount of a container is relabelled for it alone or for all.
pub proof fn a_mount_is_relabelled_for_one_or_for_all(variant: Variant, quadlet: Quadlet)
    ensures
        relabel_fault(variant, quadlet, 0) is None <==> forall|i: int|
            0 <= i < quadlet.mount@.len() ==> (#[trigger] quadlet.mount@[i]).relabel@ == "Z"@
                || quadlet.mount@[i].relabel@ == "z"@,
{
    lemma_relabel(variant, quadlet, 0);
}

proof fn lemma_relabel(variant: Variant, quadlet: Quadlet, from: int)
    requires
        0 <= from,
    ensures
        relabel_fault(variant, quadlet, from) is None <==> forall|i: int|
            from <= i < quadlet.mount@.len() ==> (#[trigger] quadlet.mount@[i]).relabel@ == "Z"@
                || quadlet.mount@[i].relabel@ == "z"@,
    decreases quadlet.mount@.len() - from,
{
    if from < quadlet.mount@.len() {
        lemma_relabel(variant, quadlet, from + 1);
    }
}

/// Where a role hosts runners, one is installed at an absolute path, and its
/// token is a secret that lands where it is read.
pub proof fn a_runner_is_installed_and_has_its_token(c: Cluster)
    ensures
        c.runners_fault() is None <==> (c.images.hosts_runners_spec() ==> {
            let found = crate::images::runner_dir_from(c.images.variant@, 0);
            &&& found is Some
            &&& "/"@.is_prefix_of(found.unwrap())
            &&& exists|i: int|
                0 <= i < c.policy.secret@.len() && (#[trigger] c.policy.secret@[i]).path@
                    == "/etc/cluster/runner-pat"@
        }),
{
    if let Some(install) = crate::images::runner_dir_from(c.images.variant@, 0) {
        a_text_is_found_where_it_stands(install, "/"@);
    }
}

/// Work migrates to a role that there is; what never receives any is a role, is
/// not that one, and mounts nothing.
pub proof fn work_migrates_to_a_role_that_takes_it(c: Cluster)
    ensures
        c.drain_fault() is None <==> {
            &&& row(c.cluster.role@, c.policy.drain.migration_target@) is Some
            &&& forall|i: int|
                0 <= i < c.policy.drain.never_receives@.len() ==> {
                    let role = (#[trigger] c.policy.drain.never_receives@[i])@;
                    &&& row(c.cluster.role@, role) is Some
                    &&& role != c.policy.drain.migration_target@
                    &&& row(c.images.variant@, role) matches Some(variant) ==> variant.mount@.len()
                        == 0
                }
        },
{
    lemma_nevers(c, 0);
}

proof fn lemma_nevers(c: Cluster, from: int)
    requires
        0 <= from,
    ensures
        c.nevers_fault(from) is None <==> forall|i: int|
            from <= i < c.policy.drain.never_receives@.len() ==> {
                let role = (#[trigger] c.policy.drain.never_receives@[i])@;
                &&& row(c.cluster.role@, role) is Some
                &&& role != c.policy.drain.migration_target@
                &&& row(c.images.variant@, role) matches Some(variant) ==> variant.mount@.len() == 0
            },
    decreases c.policy.drain.never_receives@.len() - from,
{
    if from < c.policy.drain.never_receives@.len() {
        lemma_nevers(c, from + 1);
    }
}

/// The page is served from one secure origin, and a token is believed for some
/// time, not for none.
pub proof fn one_secure_origin_is_allowed(c: Cluster)
    ensures
        c.auth_fault() is None <==> {
            let origin = c.policy.auth.allowed_origin@;
            &&& "https://"@.is_prefix_of(origin)
            &&& !stands_in(origin, "*"@)
            &&& c.policy.auth.token_cache_ttl_s > 0
        },
{
    let origin = c.policy.auth.allowed_origin@;
    a_text_is_found_where_it_stands(origin, "https://"@);
    a_text_is_found_where_it_stands(origin, "*"@);
    reveal_strlit("*");
    reveal_strlit("https://");
    if origin == "*"@ && "https://"@.is_prefix_of(origin) {
        assert(origin.len() == 1);
    }
}

/// Reclamation warns before it archives and archives before it purges, and never
/// purges what is dirty.
pub proof fn reclamation_warns_before_it_archives(r: Reclaim)
    ensures
        reclaim_fault(r) is None <==> r.notify_after_days < r.archive_after_days
            && r.archive_after_days < r.purge_after_days && !r.purge_dirty,
{
}

/// No two budgets are of one class, and each says whether it halts or stops; one
/// is of everything.
pub proof fn budgets_halt_or_stop(c: Cluster)
    ensures
        budgets_fault(c.policy.drain_budget@, 0) is None <==> forall|i: int|
            0 <= i < c.policy.drain_budget@.len() ==> {
                let budget = #[trigger] c.policy.drain_budget@[i];
                &&& forall|k: int|
                    0 <= k < i ==> (#[trigger] c.policy.drain_budget@[k]).class@ != budget.class@
                &&& budget.on_exceed@ == "halt"@ || budget.on_exceed@ == "stop-with-notice"@
            },
{
    let budgets = c.policy.drain_budget@;
    lemma_budgets(budgets, 0);
    assert forall|i: int| 0 <= i < budgets.len() implies (budget_fault(budgets, i) is None <==> {
        let budget = #[trigger] budgets[i];
        &&& forall|k: int| 0 <= k < i ==> (#[trigger] budgets[k]).class@ != budget.class@
        &&& budget.on_exceed@ == "halt"@ || budget.on_exceed@ == "stop-with-notice"@
    }) by {}
    if budgets_fault(budgets, 0) is None {
        assert forall|i: int| 0 <= i < budgets.len() implies ({
            let budget = #[trigger] budgets[i];
            &&& forall|k: int| 0 <= k < i ==> (#[trigger] budgets[k]).class@ != budget.class@
            &&& budget.on_exceed@ == "halt"@ || budget.on_exceed@ == "stop-with-notice"@
        }) by {
            assert(budget_fault(budgets, i) is None);
        }
    } else {
        let i = choose|i: int|
            0 <= i < budgets.len() && !(#[trigger] budget_fault(budgets, i) is None);
        let budget = budgets[i];
    }
}

proof fn lemma_budgets(budgets: Seq<DrainBudget>, from: int)
    requires
        0 <= from,
    ensures
        budgets_fault(budgets, from) is None <==> forall|i: int|
            from <= i < budgets.len() ==> #[trigger] budget_fault(budgets, i) is None,
    decreases budgets.len() - from,
{
    if from < budgets.len() {
        lemma_budgets(budgets, from + 1);
    }
}

/// The limits pass exactly where each of them does, and a budget of everything is
/// there; the policy where, beside them, the probe of the mesh fills its packets,
/// secrets are declared and pass, and health is asked for where it is served.
pub proof fn a_policy_passes_where_its_parts_do(c: Cluster)
    ensures
        c.limits_fault() is None <==> {
            &&& c.drain_fault() is None
            &&& c.auth_fault() is None
            &&& reclaim_fault(c.policy.reclaim) is None
            &&& budgets_fault(c.policy.drain_budget@, 0) is None
            &&& row(c.policy.drain_budget@, "total"@) is Some
        },
        c.policy_fault() is None <==> {
            &&& c.limits_fault() is None
            &&& row(c.network.class@, "mesh"@) is Some
            &&& c.policy.health.mesh_mtu_probe_bytes == row(
                c.network.class@,
                "mesh"@,
            ).unwrap().mtu - 28
            &&& c.policy.secret@.len() > 0
            &&& secrets_fault(c.policy.secret@, 0) is None
            &&& c.policy.rollout.peer_health_port == c.policy.health.port
        },
{
}

/// The secrets pass exactly where no two share a name, none of them gives itself
/// away in its words, and each has where it goes and how it is written.
pub proof fn secrets_pass_where_each_does(secrets: Seq<Secret>)
    ensures
        secrets_fault(secrets, 0) is None <==> forall|i: int|
            0 <= i < secrets.len() ==> {
                let secret = #[trigger] secrets[i];
                &&& forall|k: int| 0 <= k < i ==> (#[trigger] secrets[k]).id@ != secret.id@
                &&& !secret_shaped(secret.description@)
                &&& !secret_shaped(secret.enables@)
                &&& destination_fault(secrets, i) is None
                &&& format_fault(secret) is None
            },
{
    lemma_secrets(secrets, 0);
    assert forall|i: int| 0 <= i < secrets.len() implies (secret_fault(secrets, i) is None <==> {
        let secret = #[trigger] secrets[i];
        &&& forall|k: int| 0 <= k < i ==> (#[trigger] secrets[k]).id@ != secret.id@
        &&& !secret_shaped(secret.description@)
        &&& !secret_shaped(secret.enables@)
        &&& destination_fault(secrets, i) is None
        &&& format_fault(secret) is None
    }) by {}
    if secrets_fault(secrets, 0) is None {
        assert forall|i: int| 0 <= i < secrets.len() implies ({
            let secret = #[trigger] secrets[i];
            &&& forall|k: int| 0 <= k < i ==> (#[trigger] secrets[k]).id@ != secret.id@
            &&& !secret_shaped(secret.description@)
            &&& !secret_shaped(secret.enables@)
            &&& destination_fault(secrets, i) is None
            &&& format_fault(secret) is None
        }) by {
            assert(secret_fault(secrets, i) is None);
        }
    } else {
        let i = choose|i: int|
            0 <= i < secrets.len() && !(#[trigger] secret_fault(secrets, i) is None);
        let secret = secrets[i];
    }
}

proof fn lemma_secrets(secrets: Seq<Secret>, from: int)
    requires
        0 <= from,
    ensures
        secrets_fault(secrets, from) is None <==> forall|i: int|
            from <= i < secrets.len() ==> #[trigger] secret_fault(secrets, i) is None,
    decreases secrets.len() - from,
{
    if from < secrets.len() {
        lemma_secrets(secrets, from + 1);
    }
}

/// A secret that lands in a file has an absolute path of its own, and a mode in
/// which nobody but its owner writes; one that lands in none is applied.
pub proof fn a_secret_lands_in_a_file_of_its_own(secrets: Seq<Secret>, i: int)
    requires
        0 <= i < secrets.len(),
    ensures
        ({
            let secret = secrets[i];
            &&& secret.path@.len() > 0 ==> (destination_fault(secrets, i) is None <==> {
                &&& secret.path@[0] == '/'
                &&& forall|k: int| 0 <= k < i ==> (#[trigger] secrets[k]).path@ != secret.path@
                &&& secret.mode_spec() is Some
                &&& secret.mode_spec().unwrap() & 0o022 == 0
            })
            &&& secret.path@.len() == 0 ==> (destination_fault(secrets, i) is None <==> secret.apply@
                != "none"@)
        }),
{
    reveal_strlit("/");
    let secret = secrets[i];
    a_text_is_found_where_it_stands(secret.path@, "/"@);
    if secret.path@.len() > 0 {
        assert(secret.path@.subrange(0, 1)[0] == secret.path@[0]);
        if secret.path@[0] == '/' {
            assert("/"@ =~= secret.path@.subrange(0, 1));
        }
    }
}

/// A secret is applied in a way that there is and written in a form that there
/// is; one for a registry names it, and has a file; no other names one.
pub proof fn a_secret_is_written_as_its_form_says(secret: Secret)
    ensures
        format_fault(secret) is None ==> {
            &&& secret.apply@ == "none"@ || secret.apply@ == "tailscale-up"@
            &&& secret.format@ == "raw"@ || secret.format@ == "docker-auth"@
            &&& secret.format@ == "docker-auth"@ ==> secret.registry@.len() > 0
                && secret.path@.len() > 0
            &&& secret.format@ == "raw"@ ==> secret.registry@.len() == 0
            &&& !stands_in(secret.registry@, "/"@)
        },
{
    a_text_is_found_where_it_stands(secret.registry@, "/"@);
    reveal_strlit("raw");
    reveal_strlit("docker-auth");
    assert("raw"@.len() == 3 && "docker-auth"@.len() == 11);
}

/// A text gives a secret away where it holds the mark of a known token or key,
/// or a word of thirty-two letters, digits and signs that tokens are made of.
pub proof fn a_token_is_known_by_its_mark(text: Seq<char>, i: int)
    ensures
        stands_in(text, "ghp_"@) ==> secret_shaped(text),
        stands_in(text, "github_pat_"@) ==> secret_shaped(text),
        stands_in(text, "tskey-"@) ==> secret_shaped(text),
        stands_in(text, "ssh-rsa "@) ==> secret_shaped(text),
        stands_in(text, "ssh-ed25519 "@) ==> secret_shaped(text),
        0 <= i < words(text).len() && words(text)[i].len() >= 32 && (forall|k: int|
            0 <= k < words(text)[i].len() ==> {
                let c = #[trigger] words(text)[i][k];
                'a' <= c <= 'z' || 'A' <= c <= 'Z' || '0' <= c <= '9' || c == '/' || c == '+' || c
                    == '=' || c == '_' || c == '-'
            }) ==> secret_shaped(text),
        secret_shaped(text) && !stands_in(text, "ghp_"@) && !stands_in(text, "github_pat_"@)
            && !stands_in(text, "tskey-"@) && !stands_in(text, "ssh-rsa "@) && !stands_in(
            text,
            "ssh-ed25519 "@,
        ) ==> exists|n: int| 0 <= n < words(text).len() && (#[trigger] words(text)[n]).len() >= 32,
{
    a_text_is_found_where_it_stands(text, "ghp_"@);
    a_text_is_found_where_it_stands(text, "github_pat_"@);
    a_text_is_found_where_it_stands(text, "tskey-"@);
    a_text_is_found_where_it_stands(text, "ssh-rsa "@);
    a_text_is_found_where_it_stands(text, "ssh-ed25519 "@);
    if 0 <= i < words(text).len() && words(text)[i].len() >= 32 && (forall|k: int|
        0 <= k < words(text)[i].len() ==> {
            let c = #[trigger] words(text)[i][k];
            'a' <= c <= 'z' || 'A' <= c <= 'Z' || '0' <= c <= '9' || c == '/' || c == '+' || c
                == '=' || c == '_' || c == '-'
        }) {
        assert(credential_run(words(text)[i]));
    }
}

} // verus!
