//! What the model declares is in the rendered tree: each declared row, in the
//! file that carries it.
use vstd::prelude::*;

use crate::cluster::Role;
use crate::images::Variant;
use crate::model::{slot_keys, slot_with_role, Cluster};
use crate::network::FirewallRule;
use crate::named::row;
use crate::order::{order_of, order_of_is_a_stable_order, stable_order_is_a_permutation};
use crate::policy::{DrainBudget, Secret};
use crate::render::{
    arranged,
    artifacts,
    claimed,
    files,
    firewall,
    helpers,
    host,
    hosts,
    kargs,
    kickstart,
    marker,
    networkd,
    path_keys,
    render_all,
    quadlet,
    services,
    ssh,
    storage,
    tree,
    trust,
    units,
    File,
    Rendered,
};
use crate::text::{
    a_text_is_found_where_it_stands,
    begins,
    concat_all,
    decimal,
    ends,
    halves,
    holds,
    join,
    occurs_at,
    replaced,
    split,
    uppercase,
    views,
};

verus! {

/// Whether the tree has a file at `path` that holds `text`.
pub open spec fn renders(c: Cluster, path: Seq<char>, text: Seq<char>) -> bool {
    exists|i: int|
        0 <= i < tree(c).len() && (#[trigger] tree(c)[i]).path == path && holds(
            tree(c)[i].body,
            text,
        )
}

// ---- what a text put together holds ----

pub(crate) broadcast proof fn lemma_holds_left(a: Seq<char>, b: Seq<char>, p: Seq<char>)
    requires
        holds(a, p),
    ensures
        #[trigger] holds(a + b, p),
{
    let i = choose|i: int| occurs_at(a, p, i);
    assert((a + b).subrange(i, i + p.len()) =~= a.subrange(i, i + p.len()));
    assert(occurs_at(a + b, p, i));
}

pub(crate) broadcast proof fn lemma_holds_right(a: Seq<char>, b: Seq<char>, p: Seq<char>)
    requires
        holds(b, p),
    ensures
        #[trigger] holds(a + b, p),
{
    let i = choose|i: int| occurs_at(b, p, i);
    let at = a.len() + i;
    assert((a + b).subrange(at, at + p.len()) =~= b.subrange(i, i + p.len()));
    assert(occurs_at(a + b, p, at));
}

pub(crate) broadcast proof fn lemma_holds_itself(p: Seq<char>)
    ensures
        #[trigger] holds(p, p),
{
    assert(p.subrange(0, p.len() as int) =~= p);
    assert(occurs_at(p, p, 0));
}

pub(crate) broadcast group group_holds {
    lemma_holds_left,
    lemma_holds_right,
    lemma_holds_itself,
}

/// What holds a text holds what that text holds.
pub(crate) proof fn lemma_holds_within(all: Seq<char>, part: Seq<char>, p: Seq<char>)
    requires
        holds(all, part),
        holds(part, p),
    ensures
        holds(all, p),
{
    let i = choose|i: int| occurs_at(all, part, i);
    let j = choose|j: int| occurs_at(part, p, j);
    assert(all.subrange(i + j, i + j + p.len()) =~= part.subrange(j, j + p.len()));
    assert(occurs_at(all, p, i + j));
}

/// A text put together of parts holds each of them.
pub(crate) proof fn lemma_holds_part(parts: Seq<Seq<char>>, i: int)
    requires
        0 <= i < parts.len(),
    ensures
        holds(concat_all(parts), parts[i]),
    decreases parts.len(),
{
    broadcast use group_holds;
    if i < parts.len() - 1 {
        lemma_holds_part(parts.drop_last(), i);
        assert(parts.drop_last()[i] == parts[i]);
    }
}

/// Parts joined by a separator hold each of them.
pub(crate) proof fn lemma_holds_joined(parts: Seq<Seq<char>>, sep: Seq<char>, i: int)
    requires
        0 <= i < parts.len(),
    ensures
        holds(join(parts, sep), parts[i]),
    decreases parts.len(),
{
    broadcast use group_holds;
    if parts.len() > 1 && i < parts.len() - 1 {
        lemma_holds_joined(parts.drop_last(), sep, i);
        assert(parts.drop_last()[i] == parts[i]);
    }
}

/// A text between two others is held with what stands right before and after
/// it.
pub(crate) proof fn lemma_holds_between(
    pre: Seq<char>,
    mid: Seq<char>,
    post: Seq<char>,
    a: Seq<char>,
    b: Seq<char>,
)
    requires
        ends(pre, a),
        begins(post, b),
    ensures
        holds(pre + mid + post, a + mid + b),
{
    let all = pre + mid + post;
    let p = a + mid + b;
    let at = pre.len() - a.len();
    assert forall|k: int| 0 <= k < p.len() implies all[at + k] == p[k] by {
        if k < a.len() {
            assert(pre.subrange(at, pre.len() as int)[k] == pre[at + k]);
        } else if k >= a.len() + mid.len() {
            assert(post.subrange(0, b.len() as int)[k - a.len() - mid.len()] == post[k - a.len()
                - mid.len()]);
        }
    }
    assert(all.subrange(at, at + p.len()) =~= p);
    assert(occurs_at(all, p, at));
}

// ---- what the tree is put together of ----

pub(crate) proof fn lemma_in_either(a: Seq<File>, b: Seq<File>, file: File)
    requires
        a.contains(file) || b.contains(file),
    ensures
        (a + b).contains(file),
{
    if a.contains(file) {
        let i = a.index_of(file);
        assert((a + b)[i] == file);
    } else {
        let i = b.index_of(file);
        assert((a + b)[a.len() + i] == file);
    }
}

/// Whether some renderer gives `file`.
pub(crate) open spec fn is_given(c: Cluster, file: File) -> bool {
    ||| networkd::policy_files(c).contains(file)
    ||| firewall::filter_files(c).contains(file)
    ||| seq![hosts::hosts_file(c)].contains(file)
    ||| quadlet::quadlet_files(c).contains(file)
    ||| seq![kargs::base_kargs_file(c)].contains(file)
    ||| kargs::role_set_files(c).contains(file)
    ||| units::unit_files(c).contains(file)
    ||| trust::trust_files(c).contains(file)
    ||| services::service_files(c).contains(file)
    ||| host::host_files(c).contains(file)
    ||| helpers::helper_files(c).contains(file)
    ||| seq![kickstart::kickstart_file(c)].contains(file)
    ||| seq![ssh::ssh_config_file(c)].contains(file)
}

proof fn lemma_is_artifact(c: Cluster, file: File)
    requires
        is_given(c, file),
    ensures
        artifacts(c).contains(file),
{
    let a = networkd::policy_files(c);
    let a = lemma_stage(a, firewall::filter_files(c), file);
    let a = lemma_stage(a, seq![hosts::hosts_file(c)], file);
    let a = lemma_stage(a, quadlet::quadlet_files(c), file);
    let a = lemma_stage(a, seq![kargs::base_kargs_file(c)], file);
    let a = lemma_stage(a, kargs::role_set_files(c), file);
    let a = lemma_stage(a, units::unit_files(c), file);
    let a = lemma_stage(a, trust::trust_files(c), file);
    let a = lemma_stage(a, services::service_files(c), file);
    let a = lemma_stage(a, host::host_files(c), file);
    let a = lemma_stage(a, helpers::helper_files(c), file);
    let a = lemma_stage(a, seq![kickstart::kickstart_file(c)], file);
    let a = lemma_stage(a, seq![ssh::ssh_config_file(c)], file);
}

proof fn lemma_stage(a: Seq<File>, b: Seq<File>, file: File) -> (both: Seq<File>)
    ensures
        both == a + b,
        both.contains(file) <== a.contains(file) || b.contains(file),
{
    if a.contains(file) || b.contains(file) {
        lemma_in_either(a, b, file);
    }
    a + b
}

/// What a given file holds, the tree renders.
pub(crate) proof fn lemma_renders(c: Cluster, file: File, text: Seq<char>)
    requires
        is_given(c, file),
        holds(file.body, text),
    ensures
        renders(c, file.path, text),
{
    lemma_is_artifact(c, file);
    let list = artifacts(c);
    let i = list.index_of(file);
    let keys = path_keys(list);
    let order = order_of(keys);
    order_of_is_a_stable_order(keys);
    stable_order_is_a_permutation(keys, order);
    assert(order.contains(i));
    let at = order.index_of(i);
    assert(arranged(list)[at] == claimed(file));
    assert(tree(c)[at].path == file.path);
}

// ---- the laws ----

/// Every slot resolves: the hosts file has its loopback with its qualified and
/// its short name.
pub proof fn every_slot_resolves(c: Cluster, i: int)
    requires
        0 <= i < c.slots_spec().len(),
    ensures
        renders(
            c,
            "node/hosts"@,
            c.slots_spec()[i].loopback + "\t"@ + c.slots_spec()[i].fqdn + "\t"@
                + c.slots_spec()[i].name + "\n"@,
        ),
{
    let file = hosts::hosts_file(c);
    lemma_holds_part(hosts::host_lines(c), i);
    let line = hosts::host_lines(c)[i];
    assert(line == hosts::host_line(c, c.slots_spec()[i]));
    assert(holds(file.body, line)) by {
        broadcast use group_holds;
    }
    assert(seq![file][0] == file);
    lemma_renders(c, file, line);
}

/// A text at the end of another is held with what comes after it.
pub(crate) proof fn lemma_holds_after(pre: Seq<char>, rest: Seq<char>, a: Seq<char>)
    requires
        ends(pre, a),
    ensures
        holds(pre + rest, a + rest),
{
    let none = Seq::<char>::empty();
    assert(none.subrange(0, 0) =~= none);
    lemma_holds_between(pre, rest, none, a, none);
    assert(pre + rest + none =~= pre + rest);
    assert(a + rest + none =~= a + rest);
}

pub(crate) proof fn lemma_ends(a: Seq<char>, b: Seq<char>, p: Seq<char>)
    requires
        ends(b, p),
    ensures
        ends(a + b, p),
{
    let n = b.len() - p.len();
    assert((a + b).subrange(a.len() + n, (a + b).len() as int) =~= b.subrange(n, b.len() as int));
}

/// The entry point resolves to the slot that work migrates to.
pub proof fn the_entry_point_resolves(c: Cluster)
    ensures
        renders(
            c,
            "node/hosts"@,
            storage(c).loopback + "\t"@ + c.cluster.fleet.entry_name@ + "\n"@,
        ),
{
    let file = hosts::hosts_file(c);
    let line = storage(c).loopback + "\t"@ + c.cluster.fleet.entry_name@ + "\n"@;
    let n = file.body.len() - line.len();
    assert(file.body =~= file.body.take(n) + line);
    assert(holds(file.body.take(n) + line, line)) by {
        broadcast use group_holds;
    }
    assert(seq![file][0] == file);
    lemma_renders(c, file, line);
}

/// The packet filter of a checked model drops what no rule accepts.
pub proof fn the_firewall_drops_by_default(c: Cluster)
    requires
        c.firewall_fault() is None,
    ensures
        renders(c, "node/nftables.conf"@, "hook input priority filter; policy drop;"@),
{
    reveal_strlit("hook input priority filter; policy drop;");
    reveal_strlit("hook input priority filter; policy ");
    reveal_strlit("drop");
    reveal_strlit(";");
    reveal_strlit(
        " }\n  }\n\n  chain input {\n    type filter hook input priority filter; policy ",
    );
    reveal_strlit(";\n\n    ct state established,related accept\n    ct state invalid drop\n\n");
    let file = firewall::ruleset_file(c);
    let before = " }\n  }\n\n  chain input {\n    type filter hook input priority filter; policy "@;
    let after = ";\n\n    ct state established,related accept\n    ct state invalid drop\n\n"@;
    let a = "hook input priority filter; policy "@;
    let n = before.len() - a.len();
    assert(before.subrange(n, before.len() as int) =~= a);
    assert(after.subrange(0, 1) =~= ";"@);
    lemma_holds_between(before, "drop"@, after, a, ";"@);
    let text = a + "drop"@ + ";"@;
    assert(text =~= "hook input priority filter; policy drop;"@);
    let head = "# The fleet's packet filter. Default "@ + c.network.firewall.input_policy@
        + " on input; every accept is a declared\n# rule in model/network.toml.\n\nflush ruleset\n\ntable inet cluster {\n  set mesh {\n    type ipv4_addr\n    comment \"the six link addresses and three loopbacks (§4.1)\"\n    elements = { "@
        + join(firewall::dotted_each(firewall::mesh_bits(c)), ", "@);
    assert(head + before + "drop"@ + after =~= head + (before + "drop"@ + after));
    assert(holds(head + (before + "drop"@ + after), text)) by {
        broadcast use group_holds;
    }
    assert(holds(head + before + "drop"@ + after, text)) by {
        broadcast use group_holds;
    }
    assert(holds(file.body, text)) by {
        broadcast use group_holds;
    }
    assert(firewall::filter_files(c)[0] == file);
    lemma_renders(c, file, text);
}

/// A rule that names no role is in the ruleset every machine loads.
pub proof fn every_universal_rule_is_loaded(c: Cluster, i: int)
    requires
        0 <= i < c.network.firewall.rule@.len(),
        c.network.firewall.rule@[i].roles@.len() == 0,
    ensures
        renders(
            c,
            "node/nftables.conf"@,
            "    # "@ + c.network.firewall.rule@[i].comment@ + "\n    "@
                + firewall::input_rule_text(c, c.network.firewall.rule@[i]) + "\n"@,
        ),
{
    let file = firewall::ruleset_file(c);
    lemma_holds_part(firewall::common_lines(c), i);
    let line = firewall::common_lines(c)[i];
    assert(line == firewall::common_line(c, c.network.firewall.rule@[i]));
    assert(holds(file.body, line)) by {
        broadcast use group_holds;
    }
    assert(firewall::filter_files(c)[0] == file);
    lemma_renders(c, file, line);
}

/// A rule that names roles is in the file of each role it names.
pub proof fn every_restricted_rule_is_loaded(c: Cluster, r: int, i: int)
    requires
        0 <= r < c.cluster.role@.len(),
        0 <= i < c.network.firewall.rule@.len(),
        c.network.firewall.rule@[i].roles@.len() > 0,
        c.network.firewall.rule@[i].applies_spec(c.cluster.role@[r].id@),
    ensures
        renders(
            c,
            "node/nftables-role-"@ + c.cluster.role@[r].id@ + ".conf"@,
            "    # "@ + c.network.firewall.rule@[i].comment@ + "\n    "@
                + firewall::input_rule_text(c, c.network.firewall.rule@[i]) + "\n"@,
        ),
{
    let role = c.cluster.role@[r];
    let file = firewall::role_rules_file(c, role);
    lemma_holds_part(firewall::restricted_lines(c, role), i);
    let line = firewall::restricted_lines(c, role)[i];
    assert(line == firewall::restricted_line(c, role, c.network.firewall.rule@[i]));
    assert(holds(file.body, line)) by {
        broadcast use group_holds;
    }
    assert(firewall::filter_files(c)[r + 1] == file);
    lemma_renders(c, file, line);
}

/// Every role has a file of rules, empty ones too: a ruleset that reads a
/// missing file does not load.
pub proof fn every_role_has_its_rules(c: Cluster, r: int)
    requires
        0 <= r < c.cluster.role@.len(),
    ensures
        renders(
            c,
            "node/nftables-role-"@ + c.cluster.role@[r].id@ + ".conf"@,
            "    # The rules of the `"@ + c.cluster.role@[r].id@,
        ),
{
    let role = c.cluster.role@[r];
    let file = firewall::role_rules_file(c, role);
    let text = "    # The rules of the `"@ + role.id@;
    assert(holds(file.body, text)) by {
        broadcast use group_holds;
    }
    assert(firewall::filter_files(c)[r + 1] == file);
    lemma_renders(c, file, text);
}

/// What a role's set of kernel arguments says: those of its variant, and an
/// empty set where there are none.
pub open spec fn options_line(c: Cluster, role: Role) -> Seq<char> {
    match row(c.images.variant@, role.id@) {
        Some(variant) => "\noptions="@ + join(views(variant.kargs@), " "@) + "\n"@,
        None => "\noptions=\n"@,
    }
}

/// Every role has its set of kernel arguments, empty ones too.
pub proof fn every_role_has_its_arguments(c: Cluster, r: int)
    requires
        0 <= r < c.cluster.role@.len(),
    ensures
        renders(
            c,
            "node/role-kargs-"@ + c.cluster.role@[r].id@ + ".conf"@,
            options_line(c, c.cluster.role@[r]),
        ),
{
    let role = c.cluster.role@[r];
    let file = kargs::role_set_file(c, role);
    let text = options_line(c, role);
    lemma_options(c, role);
    assert(holds(file.body, text)) by {
        broadcast use group_holds;
    }
    assert(kargs::role_set_files(c)[r] == file);
    lemma_renders(c, file, text);
}

proof fn lemma_options(c: Cluster, role: Role)
    ensures
        holds(kargs::role_options(c, role), options_line(c, role)),
{
    let text = options_line(c, role);
    match row(c.images.variant@, role.id@) {
        Some(variant) => {
            let intro = kargs::isolation_text(variant);
            assert(kargs::role_options(c, role) =~= intro + text);
            lemma_holds_itself(text);
            lemma_holds_right(intro, text, text);
        },
        None => {
            lemma_holds_itself(text);
        },
    }
}

/// Every kernel argument of the base is in the list of the image.
pub proof fn every_base_argument_is_listed(c: Cluster, i: int)
    requires
        0 <= i < c.images.base.content.kargs@.len(),
    ensures
        renders(
            c,
            "node/kargs.d/10-cluster.toml"@,
            "  \""@ + c.images.base.content.kargs@[i]@ + "\",\n"@,
        ),
{
    let file = kargs::base_kargs_file(c);
    lemma_holds_part(kargs::karg_lines(c), i);
    let line = kargs::karg_lines(c)[i];
    assert(line == kargs::karg_line(c, c.images.base.content.kargs@[i]));
    assert(holds(file.body, line)) by {
        broadcast use group_holds;
    }
    assert(seq![file][0] == file);
    lemma_renders(c, file, line);
}

/// Every alert is a rule with its query, severity and condition.
pub proof fn every_alert_is_a_rule(c: Cluster, i: int)
    requires
        0 <= i < c.policy.alert@.len(),
    ensures
        renders(
            c,
            "node/prometheus/alerts.yml"@,
            "      - alert: "@ + services::rule_name(c.policy.alert@[i].id@) + "\n        expr: "@
                + services::expression_text(c, c.policy.alert@[i].id@) + "\n"@,
        ),
        renders(
            c,
            "node/prometheus/alerts.yml"@,
            "        labels: { severity: "@ + c.policy.alert@[i].severity@
                + " }\n        annotations: { summary: \""@ + replaced(
                c.policy.alert@[i].condition@,
                "\""@,
                "'"@,
            ) + "\" }\n"@,
        ),
{
    let alert = c.policy.alert@[i];
    let file = services::alert_rules_file(c);
    lemma_holds_part(services::alert_lines(c), i);
    let line = services::alert_lines(c)[i];
    assert(line == services::alert_line(c, alert));
    let head = "      - alert: "@ + services::rule_name(alert.id@) + "\n        expr: "@
        + services::expression_text(c, alert.id@) + "\n"@;
    let tail = "        labels: { severity: "@ + alert.severity@
        + " }\n        annotations: { summary: \""@ + replaced(alert.condition@, "\""@, "'"@)
        + "\" }\n"@;
    let held = services::held_text(alert);
    assert(line =~= head + held + tail);
    assert(holds(head + held + tail, head)) by {
        broadcast use group_holds;
    }
    assert(holds(head + held + tail, tail)) by {
        broadcast use group_holds;
    }
    assert(holds(file.body, line)) by {
        broadcast use group_holds;
    }
    lemma_holds_within(file.body, line, head);
    lemma_holds_within(file.body, line, tail);
    assert(services::service_files(c)[3] == file);
    lemma_renders(c, file, head);
    lemma_renders(c, file, tail);
}

/// Every fallback is mirrored by the registry on the mesh.
pub proof fn every_fallback_is_mirrored(c: Cluster, i: int)
    requires
        0 <= i < c.images.registries.fallbacks@.len(),
    ensures
        renders(
            c,
            "node/containers/registries.conf"@,
            "[[registry]]\nprefix = \""@ + c.images.registries.fallbacks@[i]@ + "\"\nlocation = \""@
                + c.images.registries.fallbacks@[i]@ + "\"\n\n[[registry.mirror]]\nlocation = \""@
                + trust::local_text(c) + "\"\ninsecure = true\n\n"@,
        ),
{
    let local = trust::local_text(c);
    let file = trust::registries_file(c);
    lemma_holds_part(trust::fallback_lines(c, local), i);
    let line = trust::fallback_lines(c, local)[i];
    assert(line == trust::registry_text(c.images.registries.fallbacks@[i], local));
    assert(holds(file.body, line)) by {
        broadcast use group_holds;
    }
    assert(trust::trust_files(c)[1] == file);
    lemma_renders(c, file, line);
}

/// Every fallback is cached by the registry, on demand.
pub proof fn every_fallback_is_cached(c: Cluster, i: int)
    requires
        0 <= i < c.images.registries.fallbacks@.len(),
    ensures
        renders(
            c,
            "node/zot/config.json"@,
            "        {\n          \"urls\": [\"https://"@ + c.images.registries.fallbacks@[i]@
                + "\"],\n          \"onDemand\": true,\n          \"tlsVerify\": true\n        }"@,
        ),
{
    let file = services::zot_file(c);
    lemma_holds_joined(services::fallback_lines(c), ",\n"@, i);
    let line = services::fallback_lines(c)[i];
    assert(line == services::fallback_line(c, c.images.registries.fallbacks@[i]));
    assert(holds(services::fallbacks_text(c), line)) by {
        broadcast use group_holds;
    }
    assert(holds(file.body, line)) by {
        broadcast use group_holds;
    }
    assert(services::service_files(c)[1] == file);
    lemma_renders(c, file, line);
}

/// An image is refused where no rule of the signature policy accepts it.
pub proof fn the_signature_policy_rejects_by_default(c: Cluster)
    ensures
        renders(
            c,
            "node/containers/policy.json"@,
            "{\n  \"default\": [{ \"type\": \"reject\" }],\n"@,
        ),
{
    reveal_strlit("{\n  \"default\": [{ \"type\": \"reject\" }],\n");
    reveal_strlit(
        "{\n  \"default\": [{ \"type\": \"reject\" }],\n  \"transports\": {\n    \"docker\": {\n      \"ghcr.io/",
    );
    let text = "{\n  \"default\": [{ \"type\": \"reject\" }],\n"@;
    let head = "{\n  \"default\": [{ \"type\": \"reject\" }],\n  \"transports\": {\n    \"docker\": {\n      \"ghcr.io/"@;
    assert(head.subrange(0, text.len() as int) =~= text);
    assert(occurs_at(head, text, 0));
    let file = trust::policy_file(c);
    assert(holds(file.body, text)) by {
        broadcast use group_holds;
    }
    assert(trust::trust_files(c)[0] == file);
    lemma_renders(c, file, text);
}

/// The control plane is published at the address it binds.
pub proof fn what_is_published_is_bound(c: Cluster)
    ensures
        renders(
            c,
            "node/systemd/cluster-ctl.service"@,
            "CLUSTER_CTL_BIND="@ + storage(c).loopback + ":8080\n"@,
        ),
        renders(
            c,
            "node/systemd/tailscale-serve.service"@,
            "--https=443 http://"@ + storage(c).loopback + ":8080\n"@,
        ),
{
    lemma_bound(c);
    lemma_published(c);
}

proof fn lemma_bound(c: Cluster)
    ensures
        renders(
            c,
            "node/systemd/cluster-ctl.service"@,
            "CLUSTER_CTL_BIND="@ + storage(c).loopback + ":8080\n"@,
        ),
{
    reveal_strlit("CLUSTER_CTL_BIND=");
    reveal_strlit(":8080\n");
    reveal_strlit("\n\n[Service]\nType=simple\nEnvironment=CLUSTER_CTL_BIND=");
    reveal_strlit(
        ":8080\nEnvironment=CLUSTER_CTL_DB=/var/lib/cluster-ctl/sessions.db\nEnvironment=CLUSTER_AUTHORIZED_LOGINS=",
    );
    let file = units::control_plane_file(c);
    let lead = "\n\n[Service]\nType=simple\nEnvironment=CLUSTER_CTL_BIND="@;
    let after = ":8080\nEnvironment=CLUSTER_CTL_DB=/var/lib/cluster-ctl/sessions.db\nEnvironment=CLUSTER_AUTHORIZED_LOGINS="@;
    let a = "CLUSTER_CTL_BIND="@;
    assert(lead.subrange(lead.len() - a.len(), lead.len() as int) =~= a);
    assert(after.subrange(0, ":8080\n"@.len() as int) =~= ":8080\n"@);
    let head = "# The control plane on "@ + storage(c).name
        + ". Session registry, rollout state, and the API the\n# web interface speaks to (§16.1).\n#\n# It binds the mesh loopback. `tailscale serve` publishes it with a real\n# certificate from the tailnet's CA, so nothing is opened on the management\n# plane and there is no password, session cookie, or auth code anywhere in\n# this repository (§16.2).\n\n[Unit]\nDescription=Cluster control plane\nAfter=network-online.target var-lib-cluster\\x2dctl.mount\nWants=network-online.target\nConditionPathExists="@
        + marker(c.policy.drain.migration_target@);
    lemma_ends(head, lead, a);
    lemma_holds_between(head + lead, storage(c).loopback, after, a, ":8080\n"@);
    let text = a + storage(c).loopback + ":8080\n"@;
    assert(holds(head + lead + storage(c).loopback + after, text)) by {
        broadcast use group_holds;
    }
    assert(holds(file.body, text)) by {
        broadcast use group_holds;
    }
    assert(units::base_unit_files(c)[9] == file);
    assert(units::unit_files(c)[9] == file);
    lemma_renders(c, file, text);
}

proof fn lemma_published(c: Cluster)
    ensures
        renders(
            c,
            "node/systemd/tailscale-serve.service"@,
            "--https=443 http://"@ + storage(c).loopback + ":8080\n"@,
        ),
{
    reveal_strlit("--https=443 http://");
    reveal_strlit(":8080\n");
    reveal_strlit(
        "\n\n[Service]\nType=oneshot\nRemainAfterExit=yes\nExecStart=/usr/bin/tailscale serve --bg --https=443 http://",
    );
    reveal_strlit(
        ":8080\nExecStop=/usr/bin/tailscale serve --https=443 off\n\n[Install]\nWantedBy=multi-user.target\n\n",
    );
    let file = services::tailscale_serve_file(c);
    let lead = "\n\n[Service]\nType=oneshot\nRemainAfterExit=yes\nExecStart=/usr/bin/tailscale serve --bg --https=443 http://"@;
    let after = ":8080\nExecStop=/usr/bin/tailscale serve --https=443 off\n\n[Install]\nWantedBy=multi-user.target\n\n"@;
    let a = "--https=443 http://"@;
    assert(lead.subrange(lead.len() - a.len(), lead.len() as int) =~= a);
    assert(after.subrange(0, ":8080\n"@.len() as int) =~= ":8080\n"@);
    let n = file.body.len() - after.len() - storage(c).loopback.len();
    let pre = file.body.take(n);
    assert(pre.subrange(n - lead.len(), n) =~= lead);
    assert(pre =~= pre.take(n - lead.len()) + lead);
    lemma_ends(pre.take(n - lead.len()), lead, a);
    lemma_holds_between(pre, storage(c).loopback, after, a, ":8080\n"@);
    assert(file.body =~= pre + storage(c).loopback + after);
    let text = a + storage(c).loopback + ":8080\n"@;
    assert(services::service_files(c)[8] == file);
    lemma_renders(c, file, text);
}

/// Where a secret's value goes and how it is applied.
pub open spec fn secret_row(secret: Secret) -> Seq<char> {
    secret.id@ + ":"@ + secret.path@ + ":"@ + secret.mode@ + ":"@ + secret.apply@ + ":"@
        + secret.format_spec() + "\n"@
}

proof fn lemma_secret_line(c: Cluster, secret: Secret)
    ensures
        holds(host::secret_line(c, secret), "\nsecret="@ + secret_row(secret)),
{
    reveal_strlit(" stays down.\nsecret=");
    reveal_strlit("\nsecret=");
    let lead = " stays down.\nsecret="@;
    let a = "\nsecret="@;
    assert(lead.subrange(lead.len() - a.len(), lead.len() as int) =~= a);
    let pre = "# "@ + secret.id@ + " --- "@ + secret.description@ + ". Without it: "@
        + secret.enables@;
    lemma_ends(pre, lead, a);
    lemma_holds_after(pre + lead, secret_row(secret), a);
    lemma_secret_shape(c, secret, pre + lead);
}

proof fn lemma_secret_shape(c: Cluster, secret: Secret, pre: Seq<char>)
    requires
        pre == "# "@ + secret.id@ + " --- "@ + secret.description@ + ". Without it: "@
            + secret.enables@ + " stays down.\nsecret="@,
    ensures
        host::secret_line(c, secret) == pre + secret_row(secret),
{
    let s1 = secret.id@;
    lemma_add(pre, s1, ":"@);
    lemma_add(pre, s1 + ":"@, secret.path@);
    lemma_add(pre, s1 + ":"@ + secret.path@, ":"@);
    lemma_add(pre, s1 + ":"@ + secret.path@ + ":"@, secret.mode@);
    lemma_add(pre, s1 + ":"@ + secret.path@ + ":"@ + secret.mode@, ":"@);
    lemma_add(pre, s1 + ":"@ + secret.path@ + ":"@ + secret.mode@ + ":"@, secret.apply@);
    let s2 = s1 + ":"@ + secret.path@ + ":"@ + secret.mode@ + ":"@ + secret.apply@;
    lemma_add(pre, s2, ":"@);
    lemma_add(pre, s2 + ":"@, secret.format_spec());
    lemma_add(pre, s2 + ":"@ + secret.format_spec(), "\n"@);
}

proof fn lemma_add(a: Seq<char>, b: Seq<char>, c: Seq<char>)
    ensures
        a + (b + c) == a + b + c,
{
    assert(a + (b + c) =~= a + b + c);
}

/// Every secret has its row: where its value goes and how it is applied.
pub proof fn every_secret_has_its_row(c: Cluster, i: int)
    requires
        0 <= i < c.policy.secret@.len(),
    ensures
        renders(c, "node/enrolment.conf"@, "\nsecret="@ + secret_row(c.policy.secret@[i])),
{
    let secret = c.policy.secret@[i];
    let file = host::enrolment_file(c);
    lemma_holds_part(host::secret_lines(c), i);
    let line = host::secret_lines(c)[i];
    assert(line == host::secret_line(c, secret));
    assert(holds(file.body, line)) by {
        broadcast use group_holds;
    }
    let text = "\nsecret="@ + secret_row(secret);
    lemma_secret_line(c, secret);
    lemma_holds_within(file.body, line, text);
    assert(host::host_files(c)[0] == file);
    lemma_renders(c, file, text);
}

/// Every slot's health endpoint reaches the updater, with its position.
pub proof fn every_slot_is_observed(c: Cluster, i: int)
    requires
        0 <= i < units::peer_lines(c).len(),
    ensures
        renders(c, "node/cluster-updater.env"@, units::peer_lines(c)[i]),
{
    let file = units::updater_env_file(c);
    lemma_holds_joined(units::peer_lines(c), ","@, i);
    let line = units::peer_lines(c)[i];
    assert(holds(file.body, line)) by {
        broadcast use group_holds;
    }
    assert(units::base_unit_files(c)[0] == file);
    assert(units::unit_files(c)[0] == file);
    lemma_renders(c, file, line);
}

proof fn lemma_budget(c: Cluster, budget: DrainBudget)
    ensures
        ({
            let key = "CLUSTER_BUDGET_"@ + units::class_key(budget.class@);
            &&& holds(
                units::budget_line(c, budget),
                key + "_S="@ + decimal(budget.budget_s as nat) + "\n"@,
            )
            &&& holds(
                units::budget_line(c, budget),
                key + "_ON_EXCEED="@ + budget.on_exceed@ + "\n"@,
            )
        }),
{
    let key = "CLUSTER_BUDGET_"@ + units::class_key(budget.class@);
    let head = key + "_S="@ + decimal(budget.budget_s as nat) + "\n"@;
    let tail = key + "_ON_EXCEED="@ + budget.on_exceed@ + "\n"@;
    let total = units::total_text(budget);
    assert(units::budget_line(c, budget) =~= head + total + tail);
    lemma_holds_itself(head);
    lemma_holds_itself(tail);
    lemma_holds_left(head, total, head);
    lemma_holds_left(head + total, tail, head);
    lemma_holds_right(head + total, tail, tail);
}

/// Every drain budget reaches the updater, with what follows where it is
/// exceeded.
#[verifier::spinoff_prover]
#[verifier::rlimit(60)]
pub proof fn every_budget_is_applied(c: Cluster, i: int)
    requires
        0 <= i < c.policy.drain_budget@.len(),
    ensures
        ({
            let budget = c.policy.drain_budget@[i];
            let key = "CLUSTER_BUDGET_"@ + units::class_key(budget.class@);
            &&& renders(
                c,
                "node/cluster-updater.env"@,
                key + "_S="@ + decimal(budget.budget_s as nat) + "\n"@,
            )
            &&& renders(
                c,
                "node/cluster-updater.env"@,
                key + "_ON_EXCEED="@ + budget.on_exceed@ + "\n"@,
            )
        }),
{
    let budget = c.policy.drain_budget@[i];
    let key = "CLUSTER_BUDGET_"@ + units::class_key(budget.class@);
    let file = units::updater_env_file(c);
    lemma_holds_part(units::budget_lines(c), i);
    let line = units::budget_lines(c)[i];
    assert(line == units::budget_line(c, budget));
    let head = key + "_S="@ + decimal(budget.budget_s as nat) + "\n"@;
    let tail = key + "_ON_EXCEED="@ + budget.on_exceed@ + "\n"@;
    lemma_budget(c, budget);
    assert(holds(file.body, line)) by {
        broadcast use group_holds;
    }
    lemma_holds_within(file.body, line, head);
    lemma_holds_within(file.body, line, tail);
    assert(units::base_unit_files(c)[0] == file);
    assert(units::unit_files(c)[0] == file);
    lemma_renders(c, file, head);
    lemma_renders(c, file, tail);
}

/// Every partition is laid out by the kickstart.
pub proof fn every_partition_is_laid_out(c: Cluster, i: int)
    requires
        0 <= i < c.cluster.partition@.len(),
    ensures
        renders(
            c,
            "bootstrap/node.ks"@,
            kickstart::partition_line(c, c.cluster.partition@[i]),
        ),
{
    let file = kickstart::kickstart_file(c);
    lemma_holds_part(kickstart::partition_lines(c), i);
    let line = kickstart::partition_lines(c)[i];
    assert(line == kickstart::partition_line(c, c.cluster.partition@[i]));
    assert(holds(file.body, line)) by {
        broadcast use group_holds;
    }
    assert(seq![file][0] == file);
    lemma_renders(c, file, line);
}

/// Every role has its row in the policy a machine works its own role out from.
pub proof fn every_role_is_announced(c: Cluster, i: int)
    requires
        0 <= i < c.cluster.role@.len(),
    ensures
        renders(
            c,
            "node/init.conf"@,
            "role="@ + c.cluster.role@[i].id@ + ":"@ + c.cluster.role@[i].detect@ + ":"@,
        ),
{
    let role = c.cluster.role@[i];
    let file = networkd::init_conf_file(c);
    lemma_holds_part(networkd::role_lines(c), i);
    let line = networkd::role_lines(c)[i];
    assert(line == networkd::role_line(c, role));
    let text = "role="@ + role.id@ + ":"@ + role.detect@ + ":"@;
    assert(holds(line, text)) by {
        broadcast use group_holds;
    }
    assert(holds(file.body, line)) by {
        broadcast use group_holds;
    }
    lemma_holds_within(file.body, line, text);
    assert(networkd::policy_files(c)[0] == file);
    lemma_renders(c, file, text);
}

/// Every mount of a unit that every machine runs is a volume, relabel included.
pub proof fn every_base_mount_is_a_volume(c: Cluster, q: int, m: int)
    requires
        0 <= q < c.images.base.quadlet@.len(),
        0 <= m < c.images.base.quadlet@[q].mount@.len(),
    ensures
        ({
            let unit = c.images.base.quadlet@[q];
            renders(
                c,
                "node/containers-systemd/"@ + unit.name@ + "."@ + unit.kind@,
                "Volume="@ + unit.mount@[m].volume_spec() + "\n"@,
            )
        }),
{
    let unit = c.images.base.quadlet@[q];
    let file = quadlet::container_file(c, unit, None);
    lemma_volume(c, unit, None, m);
    assert(quadlet::base_files(c)[q] == file);
    lemma_in_either(
        quadlet::base_files(c),
        quadlet::roles_files(c, c.cluster.role@.len() as int),
        file,
    );
    lemma_renders(c, file, "Volume="@ + unit.mount@[m].volume_spec() + "\n"@);
}

/// Every mount of a role's unit is a volume, relabel included.
pub proof fn every_role_mount_is_a_volume(c: Cluster, r: int, q: int, m: int)
    requires
        0 <= r < c.cluster.role@.len(),
        row(c.images.variant@, c.cluster.role@[r].id@) matches Some(variant) && 0 <= q
            < variant.quadlet@.len() && 0 <= m < variant.quadlet@[q].mount@.len(),
    ensures
        ({
            let unit = row(c.images.variant@, c.cluster.role@[r].id@).unwrap().quadlet@[q];
            renders(
                c,
                "node/containers-systemd/"@ + unit.name@ + "."@ + unit.kind@,
                "Volume="@ + unit.mount@[m].volume_spec() + "\n"@,
            )
        }),
{
    let role = c.cluster.role@[r];
    let variant = row(c.images.variant@, role.id@).unwrap();
    let unit = variant.quadlet@[q];
    let file = quadlet::container_file(c, unit, Some(role.id@));
    lemma_volume(c, unit, Some(role.id@), m);
    assert(quadlet::own_files(c, role, variant)[q] == file);
    assert(quadlet::role_files(c, role)[q] == file);
    lemma_role_files(c, r, q, c.cluster.role@.len() as int);
    lemma_in_either(
        quadlet::base_files(c),
        quadlet::roles_files(c, c.cluster.role@.len() as int),
        file,
    );
    lemma_renders(c, file, "Volume="@ + unit.mount@[m].volume_spec() + "\n"@);
}

proof fn lemma_volume(
    c: Cluster,
    unit: crate::images::Quadlet,
    gate: Option<Seq<char>>,
    m: int,
)
    requires
        0 <= m < unit.mount@.len(),
    ensures
        holds(
            quadlet::container_file(c, unit, gate).body,
            "Volume="@ + unit.mount@[m].volume_spec() + "\n"@,
        ),
{
    lemma_holds_part(quadlet::volume_lines(c, unit), m);
    let line = quadlet::volume_lines(c, unit)[m];
    assert(line == quadlet::volume_line(c, unit, unit.mount@[m]));
    assert(holds(quadlet::container_file(c, unit, gate).body, line)) by {
        broadcast use group_holds;
    }
}

pub(crate) proof fn lemma_role_files(c: Cluster, r: int, k: int, n: int)
    requires
        0 <= r < n <= c.cluster.role@.len(),
        0 <= k < quadlet::role_files(c, c.cluster.role@[r]).len(),
    ensures
        quadlet::roles_files(c, n).contains(quadlet::role_files(c, c.cluster.role@[r])[k]),
    decreases n,
{
    let file = quadlet::role_files(c, c.cluster.role@[r])[k];
    if r == n - 1 {
        assert(quadlet::role_files(c, c.cluster.role@[n - 1]).contains(file));
    } else {
        lemma_role_files(c, r, k, n - 1);
    }
    lemma_in_either(
        quadlet::roles_files(c, n - 1),
        quadlet::role_files(c, c.cluster.role@[n - 1]),
        file,
    );
}

/// Reclamation waits for the role that holds the session database.
pub proof fn reclamation_waits_for_its_role(c: Cluster)
    ensures
        renders(
            c,
            "node/systemd/cluster-reclaim.timer"@,
            marker(c.policy.drain.migration_target@),
        ),
        renders(
            c,
            "node/systemd/cluster-reclaim.service"@,
            marker(c.policy.drain.migration_target@),
        ),
{
    let text = marker(c.policy.drain.migration_target@);
    let timer = units::reclaim_timer_file(c);
    let service = units::reclaim_service_file(c);
    assert(holds(timer.body, text)) by {
        broadcast use group_holds;
    }
    assert(holds(service.body, text)) by {
        broadcast use group_holds;
    }
    assert(units::base_unit_files(c)[8] == timer);
    assert(units::base_unit_files(c)[7] == service);
    assert(units::unit_files(c)[8] == timer);
    assert(units::unit_files(c)[7] == service);
    lemma_renders(c, timer, text);
    lemma_renders(c, service, text);
}

/// Every authorized login is admitted to the tailnet.
pub proof fn every_login_is_admitted(c: Cluster, i: int)
    requires
        0 <= i < c.cluster.authorized_logins@.len(),
    ensures
        renders(
            c,
            "tailscale/policy.hujson"@,
            "\""@ + c.cluster.authorized_logins@[i]@ + "\""@,
        ),
{
    let file = services::tailscale_acl_file(c);
    lemma_holds_joined(services::owner_lines(c), ", "@, i);
    let line = services::owner_lines(c)[i];
    assert(line == services::owner_line(c, c.cluster.authorized_logins@[i]));
    assert(holds(file.body, line)) by {
        broadcast use group_holds;
    }
    assert(services::service_files(c)[9] == file);
    lemma_renders(c, file, line);
}

/// An enrolled key is looked for where it lands.
pub proof fn an_enrolled_key_is_looked_for(c: Cluster)
    requires
        host::enrolled_keys(c) is Some,
    ensures
        renders(
            c,
            "node/sshd_config.d/10-cluster.conf"@,
            host::enrolled_keys(c).unwrap() + "\n"@,
        ),
{
    let file = host::sshd_file(c);
    let text = host::enrolled_keys(c).unwrap() + "\n"@;
    let n = file.body.len() - text.len();
    assert(file.body =~= file.body.take(n) + text);
    assert(holds(file.body.take(n) + text, text)) by {
        broadcast use group_holds;
    }
    assert(host::host_files(c)[1] == file);
    lemma_renders(c, file, text);
}

// ---- what is written ----

/// Whether some rendered file at `path` holds `text`.
#[verifier::opaque]
pub open spec fn shows(out: Seq<Rendered>, path: Seq<char>, text: Seq<char>) -> bool {
    exists|k: int, at: int|
        0 <= k < out.len() && (#[trigger] out[k]).path@ == path && 0 <= at <= out[k].body@.len()
            - text.len() && #[trigger] out[k].body@.subrange(at, at + text.len()) =~= text
}

/// What the tree renders is written.
pub proof fn what_the_tree_renders_is_written(
    c: Cluster,
    out: Vec<Rendered>,
    path: Seq<char>,
    text: Seq<char>,
)
    requires
        call_ensures(render_all, (&c,), out),
        renders(c, path, text),
    ensures
        shows(out@, path, text),
{
    reveal(shows);
    let k = choose|k: int|
        0 <= k < tree(c).len() && (#[trigger] tree(c)[k]).path == path && holds(
            tree(c)[k].body,
            text,
        );
    let at = choose|at: int| occurs_at(tree(c)[k].body, text, at);
    assert(files(out@)[k] == out@[k]@);
    assert(out@[k].path@ == path);
    assert(out@[k].body@.subrange(at, at + text.len()) =~= text);
}

/// What a rule accepts, in the words of the packet filter: the interface of its
/// plane, where it comes from, and its protocol and port.
proof fn lemma_accepts(c: Cluster, rule: FirewallRule)
    ensures
        ({
            let on = if rule.plane@ == "lo"@ {
                "iif lo "@
            } else if rule.plane@ == "tailscale"@ {
                "iifname \"tailscale0\" "@
            } else {
                Seq::empty()
            };
            let from = if rule.source@ == "lan"@ {
                "ip saddr "@ + c.network.lan_prefix@ + " "@
            } else if rule.source@ == "mesh"@ {
                "ip saddr @mesh "@
            } else {
                Seq::empty()
            };
            &&& rule.protocol@ == "tcp"@ ==> holds(
                "\n    "@ + firewall::input_rule_text(c, rule) + "\n"@,
                "\n    "@ + on + from + "tcp dport "@ + decimal(rule.port as nat) + " accept\n"@,
            )
            &&& rule.protocol@ == "icmp"@ ==> holds(
                "\n    "@ + firewall::input_rule_text(c, rule) + "\n"@,
                "\n    "@ + on + from + "icmp type echo-request accept\n"@,
            )
            &&& rule.protocol@ != "tcp"@ && rule.protocol@ != "icmp"@ ==> holds(
                "\n    "@ + firewall::input_rule_text(c, rule) + "\n"@,
                "\n    "@ + on + from + "accept\n"@,
            )
        }),
{
    let on = firewall::interface_text(rule);
    let from = firewall::source_text(c, rule);
    let all = "\n    "@ + firewall::input_rule_text(c, rule) + "\n"@;
    assert(" "@ + ("accept"@ + "\n"@) == " accept\n"@) by {
        reveal_strlit(" ");
        reveal_strlit("accept");
        reveal_strlit("\n");
        reveal_strlit(" accept\n");
        assert(" "@ + ("accept"@ + "\n"@) =~= " accept\n"@);
    }
    assert("accept"@ + "\n"@ == "accept\n"@) by {
        reveal_strlit("accept");
        reveal_strlit("\n");
        reveal_strlit("accept\n");
        assert("accept"@ + "\n"@ =~= "accept\n"@);
    }
    assert("icmp type echo-request "@ + ("accept"@ + "\n"@) == "icmp type echo-request accept\n"@)
        by {
        reveal_strlit("icmp type echo-request ");
        reveal_strlit("accept");
        reveal_strlit("\n");
        reveal_strlit("icmp type echo-request accept\n");
        assert("icmp type echo-request "@ + ("accept"@ + "\n"@)
            =~= "icmp type echo-request accept\n"@);
    }
    assert("tcp"@ != "icmp"@) by {
        reveal_strlit("tcp");
        reveal_strlit("icmp");
        assert("tcp"@.len() == 3 && "icmp"@.len() == 4);
    }
    let none = Seq::<char>::empty();
    if rule.protocol@ == "tcp"@ {
        lemma_reassociate(
            "\n    "@,
            on,
            from,
            "tcp dport "@ + decimal(rule.port as nat),
            " "@,
            "accept"@,
            "\n"@,
        );
        assert("\n    "@ + on + from + ("tcp dport "@ + decimal(rule.port as nat)) =~= "\n    "@
            + on + from + "tcp dport "@ + decimal(rule.port as nat));
    } else if rule.protocol@ == "icmp"@ {
        lemma_reassociate("\n    "@, on, from, none, "icmp type echo-request "@, "accept"@, "\n"@);
        assert(none + "icmp type echo-request "@ =~= "icmp type echo-request "@);
        assert("\n    "@ + on + from + none =~= "\n    "@ + on + from);
    } else {
        lemma_reassociate("\n    "@, on, from, none, none, "accept"@, "\n"@);
        assert(none + none =~= none);
        assert(none + ("accept"@ + "\n"@) =~= "accept"@ + "\n"@);
        assert("\n    "@ + on + from + none =~= "\n    "@ + on + from);
    }
    lemma_holds_itself(all);
}

proof fn lemma_reassociate(
    a: Seq<char>,
    b: Seq<char>,
    c: Seq<char>,
    d: Seq<char>,
    e: Seq<char>,
    f: Seq<char>,
    g: Seq<char>,
)
    ensures
        a + (b + c + (d + e) + f) + g == a + b + c + d + (e + (f + g)),
{
    assert(a + (b + c + (d + e) + f) + g =~= a + b + c + d + (e + (f + g)));
}

/// What a text ends with grows with it.
proof fn lemma_ends_grow(all: Seq<char>, p: Seq<char>, e: Seq<char>)
    requires
        ends(all, p),
    ensures
        ends(all + e, p + e),
        holds(all + e, p + e),
{
    let n = all.len() - p.len();
    let whole = all + e;
    assert forall|k: int| 0 <= k < (p + e).len() implies whole[n + k] == (p + e)[k] by {
        if k < p.len() {
            assert(all.subrange(n, all.len() as int)[k] == all[n + k]);
        }
    }
    assert(whole.subrange(n, whole.len() as int) =~= p + e);
    assert(occurs_at(whole, p + e, n));
}

/// What a text ends with is followed by what the next begins with.
proof fn lemma_cut(all: Seq<char>, p: Seq<char>, next: Seq<char>, b: Seq<char>)
    requires
        ends(all, p),
        begins(next, b),
    ensures
        holds(all + next, p + b),
{
    lemma_ends_grow(all, p, b);
    let n = all.len() - p.len();
    let whole = all + next;
    assert forall|k: int| 0 <= k < (p + b).len() implies whole[n + k] == (p + b)[k] by {
        if k < p.len() {
            assert(all.subrange(n, all.len() as int)[k] == all[n + k]);
        } else {
            assert(next.subrange(0, b.len() as int)[k - p.len()] == next[k - p.len()]);
        }
    }
    assert(whole.subrange(n, n + (p + b).len()) =~= p + b);
    assert(occurs_at(whole, p + b, n));
}

/// Whether `p` stands in `all`.
#[verifier::opaque]
pub(crate) open spec fn is_part(all: Seq<char>, p: Seq<char>) -> bool {
    holds(all, p)
}

/// Whether `all` ends with `p`.
#[verifier::opaque]
pub(crate) open spec fn is_tail(all: Seq<char>, p: Seq<char>) -> bool {
    ends(all, p)
}

/// Whether `all` begins with `p`.
#[verifier::opaque]
pub(crate) open spec fn is_head(all: Seq<char>, p: Seq<char>) -> bool {
    begins(all, p)
}

/// Whether some renderer gives `file`.
#[verifier::opaque]
pub(crate) open spec fn is_ours(c: Cluster, file: File) -> bool {
    is_given(c, file)
}

/// Whether everything that a file holds is written at its path.
#[verifier::opaque]
pub(crate) open spec fn is_shown(out: Seq<Rendered>, file: File) -> bool {
    forall|text: Seq<char>| holds(file.body, text) ==> #[trigger] shows(out, file.path, text)
}

pub(crate) proof fn lemma_whole(p: Seq<char>)
    ensures
        is_part(p, p),
        is_tail(p, p),
{
    reveal(is_part);
    reveal(is_tail);
    assert(p.subrange(0, p.len() as int) =~= p);
    assert(occurs_at(p, p, 0));
}

pub(crate) proof fn lemma_part_right(a: Seq<char>, b: Seq<char>, p: Seq<char>)
    requires
        is_part(b, p),
    ensures
        is_part(a + b, p),
{
    reveal(is_part);
    lemma_holds_right(a, b, p);
}

pub(crate) proof fn lemma_part_left(a: Seq<char>, b: Seq<char>, p: Seq<char>)
    requires
        is_part(a, p),
    ensures
        is_part(a + b, p),
{
    reveal(is_part);
    lemma_holds_left(a, b, p);
}

pub(crate) proof fn lemma_tail_right(a: Seq<char>, b: Seq<char>, p: Seq<char>)
    requires
        is_tail(b, p),
    ensures
        is_tail(a + b, p),
{
    reveal(is_tail);
    lemma_ends(a, b, p);
}

pub(crate) proof fn lemma_tail_grows(all: Seq<char>, p: Seq<char>, e: Seq<char>)
    requires
        is_tail(all, p),
    ensures
        is_tail(all + e, p + e),
        is_part(all + e, p + e),
{
    reveal(is_part);
    reveal(is_tail);
    lemma_ends_grow(all, p, e);
}

pub(crate) proof fn lemma_tail_is_cut(all: Seq<char>, p: Seq<char>, next: Seq<char>, b: Seq<char>)
    requires
        is_tail(all, p),
        is_head(next, b),
    ensures
        is_part(all + next, p + b),
{
    reveal(is_part);
    reveal(is_tail);
    reveal(is_head);
    lemma_cut(all, p, next, b);
}

pub(crate) proof fn lemma_is_shown(c: Cluster, out: Vec<Rendered>, file: File)
    requires
        call_ensures(render_all, (&c,), out),
        is_ours(c, file),
    ensures
        is_shown(out@, file),
{
    reveal(is_ours);
    reveal(is_shown);
    assert forall|text: Seq<char>| holds(file.body, text) implies #[trigger] shows(
        out@,
        file.path,
        text,
    ) by {
        lemma_renders(c, file, text);
        what_the_tree_renders_is_written(c, out, file.path, text);
    }
}

pub(crate) proof fn lemma_shows(out: Seq<Rendered>, file: File, text: Seq<char>)
    requires
        is_shown(out, file),
        is_part(file.body, text),
    ensures
        shows(out, file.path, text),
{
    reveal(is_part);
    reveal(is_shown);
}

/// Every rule for all roles accepts in the ruleset every machine loads what it
/// declares: a TCP rule its port, over TCP, an ICMP rule echo requests; from the
/// LAN where its source is the LAN, from the mesh where it is the mesh; and on
/// the interface of its plane.
pub proof fn a_universal_rule_accepts_what_it_declares(c: Cluster, out: Vec<Rendered>, i: int)
    requires
        call_ensures(render_all, (&c,), out),
        0 <= i < c.network.firewall.rule@.len(),
        c.network.firewall.rule@[i].roles@.len() == 0,
    ensures
        ({
            let rule = c.network.firewall.rule@[i];
            let on = if rule.plane@ == "lo"@ {
                "iif lo "@
            } else if rule.plane@ == "tailscale"@ {
                "iifname \"tailscale0\" "@
            } else {
                Seq::empty()
            };
            let from = if rule.source@ == "lan"@ {
                "ip saddr "@ + c.network.lan_prefix@ + " "@
            } else if rule.source@ == "mesh"@ {
                "ip saddr @mesh "@
            } else {
                Seq::empty()
            };
            &&& rule.protocol@ == "tcp"@ ==> shows(
                out@,
                "node/nftables.conf"@,
                "\n    "@ + on + from + "tcp dport "@ + decimal(rule.port as nat) + " accept\n"@,
            )
            &&& rule.protocol@ == "icmp"@ ==> shows(
                out@,
                "node/nftables.conf"@,
                "\n    "@ + on + from + "icmp type echo-request accept\n"@,
            )
            &&& rule.protocol@ != "tcp"@ && rule.protocol@ != "icmp"@ ==> shows(
                out@,
                "node/nftables.conf"@,
                "\n    "@ + on + from + "accept\n"@,
            )
        }),
{
    let rule = c.network.firewall.rule@[i];
    let path = "node/nftables.conf"@;
    let file = firewall::ruleset_file(c);
    lemma_holds_part(firewall::common_lines(c), i);
    let line = firewall::common_lines(c)[i];
    assert(line == firewall::common_line(c, rule));
    assert(holds(file.body, line)) by {
        broadcast use group_holds;
    }
    assert(firewall::filter_files(c)[0] == file);
    lemma_rule_written(c, out, rule, file, line);
}

/// Every rule for some roles accepts what it declares in the file of each role
/// it names.
pub proof fn a_restricted_rule_accepts_what_it_declares(
    c: Cluster,
    out: Vec<Rendered>,
    r: int,
    i: int,
    n: int,
)
    requires
        call_ensures(render_all, (&c,), out),
        0 <= r < c.cluster.role@.len(),
        0 <= i < c.network.firewall.rule@.len(),
        0 <= n < c.network.firewall.rule@[i].roles@.len(),
        c.network.firewall.rule@[i].roles@[n]@ == c.cluster.role@[r].id@,
    ensures
        ({
            let rule = c.network.firewall.rule@[i];
            let path = "node/nftables-role-"@ + c.cluster.role@[r].id@ + ".conf"@;
            let on = if rule.plane@ == "lo"@ {
                "iif lo "@
            } else if rule.plane@ == "tailscale"@ {
                "iifname \"tailscale0\" "@
            } else {
                Seq::empty()
            };
            let from = if rule.source@ == "lan"@ {
                "ip saddr "@ + c.network.lan_prefix@ + " "@
            } else if rule.source@ == "mesh"@ {
                "ip saddr @mesh "@
            } else {
                Seq::empty()
            };
            &&& rule.protocol@ == "tcp"@ ==> shows(
                out@,
                path,
                "\n    "@ + on + from + "tcp dport "@ + decimal(rule.port as nat) + " accept\n"@,
            )
            &&& rule.protocol@ == "icmp"@ ==> shows(
                out@,
                path,
                "\n    "@ + on + from + "icmp type echo-request accept\n"@,
            )
            &&& rule.protocol@ != "tcp"@ && rule.protocol@ != "icmp"@ ==> shows(
                out@,
                path,
                "\n    "@ + on + from + "accept\n"@,
            )
        }),
{
    let rule = c.network.firewall.rule@[i];
    let role = c.cluster.role@[r];
    let file = firewall::role_rules_file(c, role);
    assert(rule.applies_spec(role.id@));
    lemma_holds_part(firewall::restricted_lines(c, role), i);
    let line = firewall::restricted_lines(c, role)[i];
    assert(line == firewall::restricted_line(c, role, rule));
    assert(holds(file.body, line)) by {
        broadcast use group_holds;
    }
    assert(firewall::filter_files(c)[r + 1] == file);
    lemma_rule_written(c, out, rule, file, line);
}

#[verifier::spinoff_prover]
#[verifier::rlimit(80)]
proof fn lemma_rule_written(
    c: Cluster,
    out: Vec<Rendered>,
    rule: FirewallRule,
    file: File,
    line: Seq<char>,
)
    requires
        call_ensures(render_all, (&c,), out),
        is_given(c, file),
        holds(file.body, line),
        line == "    # "@ + rule.comment@ + "\n    "@ + firewall::input_rule_text(c, rule) + "\n"@,
    ensures
        forall|text: Seq<char>|
            holds("\n    "@ + firewall::input_rule_text(c, rule) + "\n"@, text)
                ==> #[trigger] shows(out@, file.path, text),
        ({
            let on = if rule.plane@ == "lo"@ {
                "iif lo "@
            } else if rule.plane@ == "tailscale"@ {
                "iifname \"tailscale0\" "@
            } else {
                Seq::empty()
            };
            let from = if rule.source@ == "lan"@ {
                "ip saddr "@ + c.network.lan_prefix@ + " "@
            } else if rule.source@ == "mesh"@ {
                "ip saddr @mesh "@
            } else {
                Seq::empty()
            };
            &&& rule.protocol@ == "tcp"@ ==> shows(
                out@,
                file.path,
                "\n    "@ + on + from + "tcp dport "@ + decimal(rule.port as nat) + " accept\n"@,
            )
            &&& rule.protocol@ == "icmp"@ ==> shows(
                out@,
                file.path,
                "\n    "@ + on + from + "icmp type echo-request accept\n"@,
            )
            &&& rule.protocol@ != "tcp"@ && rule.protocol@ != "icmp"@ ==> shows(
                out@,
                file.path,
                "\n    "@ + on + from + "accept\n"@,
            )
        }),
{
    let accept = "\n    "@ + firewall::input_rule_text(c, rule) + "\n"@;
    let head = "    # "@ + rule.comment@;
    assert(line =~= head + accept);
    lemma_holds_itself(accept);
    lemma_holds_right(head, accept, accept);
    lemma_holds_within(file.body, line, accept);
    assert forall|text: Seq<char>| holds(accept, text) implies #[trigger] shows(
        out@,
        file.path,
        text,
    ) by {
        lemma_holds_within(file.body, accept, text);
        lemma_renders(c, file, text);
        what_the_tree_renders_is_written(c, out, file.path, text);
    }
    lemma_accepts(c, rule);
}

// ---- what is written of each row ----

/// What a file holds of a row is written.
proof fn lemma_row_shown(out: Seq<Rendered>, file: File, all: Seq<char>, line: Seq<char>)
    requires
        is_shown(out, file),
        holds(file.body, all),
        holds(all, line),
    ensures
        shows(out, file.path, line),
{
    reveal(is_shown);
    lemma_holds_within(file.body, all, line);
}

proof fn lemma_lists_held(c: Cluster)
    ensures
        holds(services::prometheus_file(c).body, concat_all(services::scrape_lines(c))),
        holds(services::prometheus_file(c).body, concat_all(services::health_lines(c))),
        holds(services::alert_rules_file(c).body, concat_all(services::alert_lines(c))),
        holds(services::exports_file(c).body, concat_all(services::export_lines(c))),
{
    broadcast use group_holds;
}

proof fn lemma_budgets_held(c: Cluster, budget: DrainBudget)
    ensures
        holds(units::updater_env_file(c).body, concat_all(units::budget_lines(c))),
        holds(units::budget_line(c, budget), units::total_text(budget)),
{
    broadcast use group_holds;
}

proof fn lemma_roles_held(c: Cluster)
    ensures
        holds(networkd::init_conf_file(c).body, concat_all(networkd::role_lines(c))),
{
    broadcast use group_holds;
}

/// Every slot is a peer: the updater is told its name, its position and where
/// its health is.
pub proof fn every_slot_is_a_peer(c: Cluster, out: Vec<Rendered>, s: int)
    requires
        call_ensures(render_all, (&c,), out),
        0 <= s < c.slots_spec().len(),
    ensures
        ({
            let n = c.slots_spec()[s];
            shows(
                out@,
                "node/cluster-updater.env"@,
                n.name + ":"@ + decimal(n.update_position as nat) + ":http://"@ + n.loopback + ":"@
                    + decimal(c.policy.rollout.peer_health_port as nat) + "/health"@,
            )
        }),
{
    let keys = slot_keys(c.slots_spec());
    let order = order_of(keys);
    order_of_is_a_stable_order(keys);
    stable_order_is_a_permutation(keys, order);
    assert(order.contains(s));
    let k = order.index_of(s);
    let line = units::peer_lines(c)[k];
    assert(line == units::peer_line(c, c.slots_spec()[s]));
    every_slot_is_observed(c, k);
    what_the_tree_renders_is_written(c, out, "node/cluster-updater.env"@, line);
}

/// Every budget reaches the updater under its class: the time of one item, the
/// time of all where there is one, and what happens when it is exceeded.
pub proof fn every_budget_reaches_the_updater(c: Cluster, out: Vec<Rendered>, i: int)
    requires
        call_ensures(render_all, (&c,), out),
        0 <= i < c.policy.drain_budget@.len(),
    ensures
        ({
            let budget = c.policy.drain_budget@[i];
            let path = "node/cluster-updater.env"@;
            let key = "CLUSTER_BUDGET_"@ + replaced(uppercase(budget.class@), "-"@, "_"@);
            &&& shows(out@, path, key + "_S="@ + decimal(budget.budget_s as nat) + "\n"@)
            &&& shows(out@, path, key + "_ON_EXCEED="@ + budget.on_exceed@ + "\n"@)
            &&& budget.total_budget_s matches Some(total) ==> shows(
                out@,
                path,
                key + "_TOTAL_S="@ + decimal(total as nat) + "\n"@,
            )
        }),
{
    let budget = c.policy.drain_budget@[i];
    let path = "node/cluster-updater.env"@;
    let key = "CLUSTER_BUDGET_"@ + replaced(uppercase(budget.class@), "-"@, "_"@);
    every_budget_is_applied(c, i);
    what_the_tree_renders_is_written(
        c,
        out,
        path,
        key + "_S="@ + decimal(budget.budget_s as nat) + "\n"@,
    );
    what_the_tree_renders_is_written(c, out, path, key + "_ON_EXCEED="@ + budget.on_exceed@ + "\n"@);
    if let Some(total) = budget.total_budget_s {
        let file = units::updater_env_file(c);
        units::lemma_base_units(c);
        lemma_is_shown(c, out, file);
        lemma_budgets_held(c, budget);
        lemma_holds_part(units::budget_lines(c), i);
        let line = units::budget_lines(c)[i];
        let text = units::total_text(budget);
        lemma_holds_within(concat_all(units::budget_lines(c)), line, text);
        lemma_row_shown(out@, file, concat_all(units::budget_lines(c)), text);
    }
}

/// Every slot is scraped, for the metrics of its node and for its health.
pub proof fn every_slot_is_scraped(c: Cluster, out: Vec<Rendered>, s: int)
    requires
        call_ensures(render_all, (&c,), out),
        0 <= s < c.slots_spec().len(),
    ensures
        ({
            let n = c.slots_spec()[s];
            let path = "node/prometheus/prometheus.yml"@;
            &&& shows(
                out@,
                path,
                "      - targets: [\""@ + n.loopback + ":9100\"]\n        labels: { node: \""@ + n.name
                    + "\", role: \""@ + n.role + "\" }\n"@,
            )
            &&& shows(
                out@,
                path,
                "      - targets: [\""@ + n.loopback + ":"@ + decimal(c.policy.health.port as nat)
                    + "\"]\n        labels: { node: \""@ + n.name + "\" }\n"@,
            )
        }),
{
    let file = services::prometheus_file(c);
    let n = c.slots_spec()[s];
    services::lemma_service_files(c);
    lemma_is_shown(c, out, file);
    lemma_lists_held(c);
    lemma_holds_part(services::scrape_lines(c), s);
    lemma_holds_part(services::health_lines(c), s);
    assert(services::scrape_lines(c)[s] == services::scrape_line(c, n));
    assert(services::health_lines(c)[s] == services::health_line(c, n));
    lemma_row_shown(
        out@,
        file,
        concat_all(services::scrape_lines(c)),
        services::scrape_lines(c)[s],
    );
    lemma_row_shown(
        out@,
        file,
        concat_all(services::health_lines(c)),
        services::health_lines(c)[s],
    );
}

/// Every alert asks what it is declared to watch: each has a query of its own.
pub proof fn every_alert_asks_its_query(c: Cluster, out: Vec<Rendered>, i: int)
    requires
        call_ensures(render_all, (&c,), out),
        0 <= i < c.policy.alert@.len(),
    ensures
        ({
            let id = c.policy.alert@[i].id@;
            let path = "node/prometheus/alerts.yml"@;
            let head = "      - alert: "@ + concat_all(
                Seq::new(
                    split(id, '-').len(),
                    |k: int|
                        if split(id, '-')[k].len() == 0 {
                            split(id, '-')[k]
                        } else {
                            uppercase(split(id, '-')[k].take(1)) + split(id, '-')[k].skip(1)
                        },
                ),
            ) + "\n        expr: "@;
            &&& id == "node-down"@ ==> shows(out@, path, head + "up{job=\"node\"} == 0"@ + "\n"@)
            &&& id == "failed-units"@ ==> shows(
                out@,
                path,
                head + "node_systemd_unit_state{state=\"failed\"} > 0"@ + "\n"@,
            )
            &&& id == "digest-drift"@ ==> shows(
                out@,
                path,
                head + "cluster_booted_is_target == 0"@ + "\n"@,
            )
            &&& id == "rollout-stalled"@ ==> shows(
                out@,
                path,
                head
                    + "cluster_rollout_target_pending == 1 and changes(cluster_rollout_stage[6h]) == 0"@
                    + "\n"@,
            )
            &&& id == "drain-budget-exceeded"@ ==> shows(
                out@,
                path,
                head + "cluster_drain_budget_exceeded > 0"@ + "\n"@,
            )
            &&& id == "digest-quarantined"@ ==> shows(
                out@,
                path,
                head + "cluster_quarantined_digests > 0"@ + "\n"@,
            )
            &&& id == "split-version"@ ==> shows(
                out@,
                path,
                head + ("count(count by (booted) (cluster_booted_digest)) > 1 and "@ + decimal(
                    c.slots_spec().len(),
                ) + " > 1"@) + "\n"@,
            )
            &&& id == "root-writable"@ ==> shows(
                out@,
                path,
                head + "cluster_usr_read_only == 0"@ + "\n"@,
            )
            &&& id == "cache-pressure"@ ==> shows(
                out@,
                path,
                head + "cluster_dmcache_occupancy_ratio > 0.9"@ + "\n"@,
            )
            &&& id == "disk-health"@ ==> shows(
                out@,
                path,
                head + "node_smart_healthy == 0"@ + "\n"@,
            )
            &&& id == "clock"@ ==> shows(
                out@,
                path,
                head + ("node_timex_sync_status == 0 or abs(node_timex_offset_seconds) > "@
                    + services::thousandths(c.policy.health.chrony_max_offset_ms as nat)) + "\n"@,
            )
            &&& id == "bench-contention"@ ==> shows(
                out@,
                path,
                head + "cluster_isolated_cpu_foreign_tasks > 0"@ + "\n"@,
            )
            &&& id == "reclaim-volume"@ ==> shows(
                out@,
                path,
                head + "cluster_reclaim_archived_total > 5"@ + "\n"@,
            )
            &&& id == "dirty-archives-held"@ ==> shows(
                out@,
                path,
                head + "cluster_dirty_archives_held"@ + "\n"@,
            )
        }),
{
    let id = c.policy.alert@[i].id@;
    let path = "node/prometheus/alerts.yml"@;
    let words = Seq::new(
        split(id, '-').len(),
        |k: int|
            if split(id, '-')[k].len() == 0 {
                split(id, '-')[k]
            } else {
                uppercase(split(id, '-')[k].take(1)) + split(id, '-')[k].skip(1)
            },
    );
    assert(services::capitals(split(id, '-')) =~= words);
    let head = "      - alert: "@ + concat_all(words) + "\n        expr: "@;
    every_alert_is_a_rule(c, i);
    let line = head + services::expression_text(c, id) + "\n"@;
    what_the_tree_renders_is_written(c, out, path, line);
    lemma_alerts_differ();
}

proof fn lemma_alerts_differ()
    ensures
        "node-down"@.len() == 9,
        "failed-units"@.len() == 12 && "failed-units"@[0] == 'f',
        "digest-drift"@.len() == 12 && "digest-drift"@[0] == 'd',
        "rollout-stalled"@.len() == 15,
        "drain-budget-exceeded"@.len() == 21,
        "digest-quarantined"@.len() == 18,
        "split-version"@.len() == 13 && "split-version"@[0] == 's',
        "root-writable"@.len() == 13 && "root-writable"@[0] == 'r',
        "cache-pressure"@.len() == 14 && "cache-pressure"@[0] == 'c',
        "disk-health"@.len() == 11,
        "clock"@.len() == 5,
        "bench-contention"@.len() == 16,
        "reclaim-volume"@.len() == 14 && "reclaim-volume"@[0] == 'r',
        "dirty-archives-held"@.len() == 19,
{
    reveal_strlit("node-down");
    reveal_strlit("failed-units");
    reveal_strlit("digest-drift");
    reveal_strlit("rollout-stalled");
    reveal_strlit("drain-budget-exceeded");
    reveal_strlit("digest-quarantined");
    reveal_strlit("split-version");
    reveal_strlit("root-writable");
    reveal_strlit("cache-pressure");
    reveal_strlit("disk-health");
    reveal_strlit("clock");
    reveal_strlit("bench-contention");
    reveal_strlit("reclaim-volume");
    reveal_strlit("dirty-archives-held");
}

/// Every alert waits as long as it is declared to, and says how severe it is and
/// what it means, with no quote that would end its text.
pub proof fn every_alert_says_what_it_means(c: Cluster, out: Vec<Rendered>, i: int)
    requires
        call_ensures(render_all, (&c,), out),
        0 <= i < c.policy.alert@.len(),
    ensures
        ({
            let alert = c.policy.alert@[i];
            let path = "node/prometheus/alerts.yml"@;
            &&& alert.for_s > 0 ==> shows(
                out@,
                path,
                "        for: "@ + decimal(alert.for_s as nat) + "s\n"@,
            )
            &&& shows(
                out@,
                path,
                "        labels: { severity: "@ + alert.severity@
                    + " }\n        annotations: { summary: \""@ + replaced(
                    alert.condition@,
                    "\""@,
                    "'"@,
                ) + "\" }\n"@,
            )
        }),
{
    let alert = c.policy.alert@[i];
    let path = "node/prometheus/alerts.yml"@;
    every_alert_is_a_rule(c, i);
    what_the_tree_renders_is_written(
        c,
        out,
        path,
        "        labels: { severity: "@ + alert.severity@ + " }\n        annotations: { summary: \""@
            + replaced(alert.condition@, "\""@, "'"@) + "\" }\n"@,
    );
    if alert.for_s > 0 {
        let file = services::alert_rules_file(c);
        services::lemma_service_files(c);
        lemma_is_shown(c, out, file);
        lemma_lists_held(c);
        lemma_holds_part(services::alert_lines(c), i);
        let line = services::alert_lines(c)[i];
        lemma_alert_waits(c, alert);
        lemma_holds_within(
            concat_all(services::alert_lines(c)),
            line,
            services::held_text(alert),
        );
        lemma_row_shown(
            out@,
            file,
            concat_all(services::alert_lines(c)),
            services::held_text(alert),
        );
    }
}

proof fn lemma_alert_waits(c: Cluster, alert: crate::policy::Alert)
    ensures
        holds(services::alert_line(c, alert), services::held_text(alert)),
{
    broadcast use group_holds;
}

/// Every partition is laid out at its mount point: the system partition as one,
/// any other with its format; the remainder grows, and a size in GiB is given in
/// MiB.
pub proof fn every_partition_has_its_size(c: Cluster, out: Vec<Rendered>, i: int, n: nat)
    requires
        call_ensures(render_all, (&c,), out),
        0 <= i < c.cluster.partition@.len(),
    ensures
        ({
            let p = c.cluster.partition@[i];
            let format = if p.mount@ == "/boot/efi"@ {
                "--fstype=efi"@
            } else {
                "--fstype="@ + p.format@
            };
            let head = "part "@ + p.mount@ + " "@ + format + " "@;
            &&& p.size@ == "remainder"@ ==> shows(
                out@,
                "bootstrap/node.ks"@,
                head + "--grow"@ + "\n"@,
            )
            &&& n <= u64::MAX && p.size@ == decimal(n) + "GiB"@ ==> shows(
                out@,
                "bootstrap/node.ks"@,
                head + ("--size="@ + decimal(n * 1024)) + "\n"@,
            )
            &&& p.size@ == decimal(n) + "MiB"@ ==> shows(
                out@,
                "bootstrap/node.ks"@,
                head + ("--size="@ + decimal(n)) + "\n"@,
            )
        }),
{
    let p = c.cluster.partition@[i];
    every_partition_is_laid_out(c, i);
    let line = kickstart::partition_line(c, p);
    what_the_tree_renders_is_written(c, out, "bootstrap/node.ks"@, line);
    lemma_sizes(n);
    kickstart::a_size_is_given_in_mebibytes(n);
}

proof fn lemma_sizes(n: nat)
    ensures
        decimal(n) + "GiB"@ != "remainder"@,
        decimal(n) + "MiB"@ != "remainder"@,
        decimal(n) + "GiB"@ != decimal(n) + "MiB"@,
{
    reveal_strlit("GiB");
    reveal_strlit("MiB");
    reveal_strlit("remainder");
    let (a, b) = (decimal(n) + "GiB"@, decimal(n) + "MiB"@);
    assert(a.last() == 'B' && b.last() == 'B' && "remainder"@.last() == 'r');
    assert(a[a.len() - 3] == 'G' && b[b.len() - 3] == 'M');
}

/// Every mount over the network is exported to the node that mounts it, from the
/// path that it names behind its colon; any other mount is not.
pub proof fn every_network_mount_is_exported(c: Cluster, out: Vec<Rendered>, v: int, m: int)
    requires
        call_ensures(render_all, (&c,), out),
        0 <= v < c.images.variant@.len(),
        0 <= m < c.images.variant@[v].mount@.len(),
        "nfs"@.is_prefix_of(c.images.variant@[v].mount@[m].fstype@),
        halves(c.expanded(c.images.variant@[v].mount@[m].what@), ":"@) is Some,
        slot_with_role(c.slots_spec(), c.images.variant@[v].role@, 0) is Some,
    ensures
        shows(
            out@,
            "node/exports"@,
            halves(c.expanded(c.images.variant@[v].mount@[m].what@), ":"@).unwrap().1 + " "@
                + slot_with_role(c.slots_spec(), c.images.variant@[v].role@, 0).unwrap().loopback
                + "(rw,sync,no_subtree_check,sec=sys,no_root_squash)\n"@,
        ),
{
    let variant = c.images.variant@[v];
    let mount = variant.mount@[m];
    a_text_is_found_where_it_stands(mount.fstype@, "nfs"@);
    let file = services::exports_file(c);
    services::lemma_service_files(c);
    lemma_is_shown(c, out, file);
    lemma_lists_held(c);
    lemma_holds_part(services::export_lines(c), v);
    let part = services::export_lines(c)[v];
    lemma_holds_part(services::mount_lines(c, variant), m);
    let line = services::mount_lines(c, variant)[m];
    assert(line == services::mount_line(c, variant, mount));
    lemma_holds_within(concat_all(services::export_lines(c)), part, line);
    lemma_row_shown(out@, file, concat_all(services::export_lines(c)), line);
}

/// Every slot is reached by its name, at its name on the tailnet.
pub proof fn every_slot_is_reached_by_its_name(c: Cluster, out: Vec<Rendered>, s: int)
    requires
        call_ensures(render_all, (&c,), out),
        0 <= s < c.slots_spec().len(),
    ensures
        ({
            let n = c.slots_spec()[s];
            shows(
                out@,
                "ssh_config"@,
                "\nHost "@ + n.name + "\n  HostName "@ + (n.name + "."@ + c.cluster.tailnet@ + "."@
                    + c.cluster.magic_dns_suffix@) + "\n  User root\n"@,
            )
        }),
{
    let file = ssh::ssh_config_file(c);
    lemma_holds_part(ssh::host_lines(c), s);
    let line = ssh::host_lines(c)[s];
    assert(line == ssh::host_line(c, c.slots_spec()[s]));
    assert(holds(file.body, line)) by {
        broadcast use group_holds;
    }
    assert(seq![file][0] == file);
    lemma_renders(c, file, line);
    what_the_tree_renders_is_written(c, out, "ssh_config"@, line);
}

/// Every role is announced with how it is found, where it stands and when it is
/// updated.
pub proof fn every_role_is_announced_in_full(c: Cluster, out: Vec<Rendered>, i: int)
    requires
        call_ensures(render_all, (&c,), out),
        0 <= i < c.cluster.role@.len(),
    ensures
        ({
            let role = c.cluster.role@[i];
            let ordinal = match role.ordinal {
                Some(n) => decimal(n as nat),
                None => Seq::empty(),
            };
            let order = match role.assign_order {
                Some(n) => decimal(n as nat),
                None => Seq::empty(),
            };
            shows(
                out@,
                "node/init.conf"@,
                "role="@ + role.id@ + ":"@ + role.detect@ + ":"@ + ordinal + ":"@ + order + ":"@
                    + decimal(role.update_position as nat) + "\n"@,
            )
        }),
{
    let file = networkd::init_conf_file(c);
    networkd::lemma_policy_files(c);
    lemma_is_shown(c, out, file);
    lemma_roles_held(c);
    lemma_holds_part(networkd::role_lines(c), i);
    let line = networkd::role_lines(c)[i];
    assert(line == networkd::role_line(c, c.cluster.role@[i]));
    lemma_row_shown(out@, file, concat_all(networkd::role_lines(c)), line);
}

/// Every port that a container of every machine publishes is published, with its
/// placeholders resolved, and every volume is mounted with its label.
pub proof fn every_port_and_volume_of_the_base_is_written(
    c: Cluster,
    out: Vec<Rendered>,
    q: int,
    k: int,
)
    requires
        call_ensures(render_all, (&c,), out),
        0 <= q < c.images.base.quadlet@.len(),
    ensures
        ({
            let unit = c.images.base.quadlet@[q];
            let path = "node/containers-systemd/"@ + unit.name@ + "."@ + unit.kind@;
            &&& 0 <= k < unit.publish@.len() ==> shows(
                out@,
                path,
                "PublishPort="@ + c.expanded(unit.publish@[k]@) + "\n"@,
            )
            &&& 0 <= k < unit.mount@.len() ==> shows(
                out@,
                path,
                "Volume="@ + (unit.mount@[k].source@ + ":"@ + unit.mount@[k].target@ + ":"@
                    + unit.mount@[k].options@ + ","@ + unit.mount@[k].relabel@) + "\n"@,
            )
        }),
{
    let unit = c.images.base.quadlet@[q];
    let file = quadlet::container_file(c, unit, None);
    assert(quadlet::base_files(c)[q] == file);
    lemma_in_either(
        quadlet::base_files(c),
        quadlet::roles_files(c, c.cluster.role@.len() as int),
        file,
    );
    lemma_unit_written(c, out, unit, None, k);
}

/// Every port that a container of a role publishes is published, and every
/// volume is mounted with its label.
pub proof fn every_port_and_volume_of_a_role_is_written(
    c: Cluster,
    out: Vec<Rendered>,
    r: int,
    variant: Variant,
    q: int,
    k: int,
)
    requires
        call_ensures(render_all, (&c,), out),
        0 <= r < c.cluster.role@.len(),
        row(c.images.variant@, c.cluster.role@[r].id@) == Some(variant),
        0 <= q < variant.quadlet@.len(),
    ensures
        ({
            let unit = variant.quadlet@[q];
            let path = "node/containers-systemd/"@ + unit.name@ + "."@ + unit.kind@;
            &&& 0 <= k < unit.publish@.len() ==> shows(
                out@,
                path,
                "PublishPort="@ + c.expanded(unit.publish@[k]@) + "\n"@,
            )
            &&& 0 <= k < unit.mount@.len() ==> shows(
                out@,
                path,
                "Volume="@ + (unit.mount@[k].source@ + ":"@ + unit.mount@[k].target@ + ":"@
                    + unit.mount@[k].options@ + ","@ + unit.mount@[k].relabel@) + "\n"@,
            )
        }),
{
    let unit = variant.quadlet@[q];
    let role = c.cluster.role@[r];
    let file = quadlet::container_file(c, unit, Some(role.id@));
    assert(quadlet::own_files(c, role, variant)[q] == file);
    assert(quadlet::role_files(c, role)[q] == file);
    lemma_role_files(c, r, q, c.cluster.role@.len() as int);
    lemma_in_either(
        quadlet::base_files(c),
        quadlet::roles_files(c, c.cluster.role@.len() as int),
        file,
    );
    lemma_unit_written(c, out, unit, Some(role.id@), k);
}

proof fn lemma_unit_written(
    c: Cluster,
    out: Vec<Rendered>,
    unit: crate::images::Quadlet,
    gate: Option<Seq<char>>,
    k: int,
)
    requires
        call_ensures(render_all, (&c,), out),
        is_given(c, quadlet::container_file(c, unit, gate)),
    ensures
        ({
            let path = "node/containers-systemd/"@ + unit.name@ + "."@ + unit.kind@;
            &&& 0 <= k < unit.publish@.len() ==> shows(
                out@,
                path,
                "PublishPort="@ + c.expanded(unit.publish@[k]@) + "\n"@,
            )
            &&& 0 <= k < unit.mount@.len() ==> shows(
                out@,
                path,
                "Volume="@ + (unit.mount@[k].source@ + ":"@ + unit.mount@[k].target@ + ":"@
                    + unit.mount@[k].options@ + ","@ + unit.mount@[k].relabel@) + "\n"@,
            )
        }),
{
    let file = quadlet::container_file(c, unit, gate);
    if 0 <= k < unit.publish@.len() {
        lemma_holds_part(quadlet::publish_lines(c, unit), k);
        let line = quadlet::publish_lines(c, unit)[k];
        assert(line == quadlet::publish_line(c, unit, unit.publish@[k]));
        assert(holds(file.body, line)) by {
            broadcast use group_holds;
        }
        lemma_renders(c, file, line);
        what_the_tree_renders_is_written(c, out, file.path, line);
    }
    if 0 <= k < unit.mount@.len() {
        lemma_volume(c, unit, gate, k);
        let line = "Volume="@ + unit.mount@[k].volume_spec() + "\n"@;
        lemma_renders(c, file, line);
        what_the_tree_renders_is_written(c, out, file.path, line);
    }
}

} // verus!
