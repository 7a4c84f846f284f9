//! The units and environment files that carry the policy onto a node.
//!
//! Every tunable that governs unattended behaviour renders here: a poll
//! interval, a drain budget, a boot deadline. What the image cannot know --- the
//! machine's name, role, position and address --- arrives at boot in
//! `/run/cluster/node.env`, and the units that need it read both files.
//!
//! Every machine ships every unit. One that belongs to a role waits for that
//! role's marker, and a unit whose condition is unmet is skipped rather than
//! failed.
use vstd::prelude::*;

use crate::cluster::{Node, Role};
use crate::images::{Isolation, Variant};
use crate::model::{slot_keys, slot_with_role, slots, Cluster, Slot};
use crate::named::{is_listed, listed, row};
use crate::order::in_order;
use crate::policy::DrainBudget;
use crate::render::{
    files,
    flag,
    flag_of,
    has_storage,
    ids1,
    marker,
    role_marker,
    storage,
    storage_of,
    File,
    Rendered,
};
use crate::text::{
    concat_all,
    concat_strings,
    decimal,
    decimal_of,
    join,
    join_strings,
    last_piece,
    replace,
    replaced,
    split,
    to_uppercase,
    uppercase,
    views,
};
use crate::render::claims::{
    is_head,
    is_ours,
    is_part,
    is_tail,
    lemma_in_either,
    lemma_is_shown,
    lemma_part_left,
    lemma_part_right,
    lemma_shows,
    lemma_tail_grows,
    lemma_tail_is_cut,
    lemma_tail_right,
    lemma_whole,
    shows,
};
use crate::render::render_all;
use crate::text::occurs_at;

verus! {

/// Where one slot reports, and its position.
pub open spec fn peer_line(c: Cluster, n: Slot) -> Seq<char> {
    n.name
        + ":"@
        + decimal(n.update_position as nat)
        + ":http://"@
        + n.loopback
        + ":"@
        + decimal(c.policy.rollout.peer_health_port as nat)
        + "/health"@
}

fn peer_line_of(c: &Cluster, n: &Node) -> (r: String)
    ensures
        r@ == peer_line(*c, n@),
{
    n.name.clone()
        .concat(":")
        .concat(decimal_of(n.update_position as u64).as_str())
        .concat(":http://")
        .concat(n.loopback.as_str())
        .concat(":")
        .concat(decimal_of(c.policy.rollout.peer_health_port as u64).as_str())
        .concat("/health")
}

/// One text for each, in order.
pub open spec fn peer_lines(c: Cluster) -> Seq<Seq<char>> {
    let list = in_order(c.slots_spec(), slot_keys(c.slots_spec()));
    Seq::new(list.len(), |i: int| peer_line(c, list[i]))
}

fn peer_lines_of(c: &Cluster) -> (out: Vec<String>)
    ensures
        views(out@) == peer_lines(*c),
{
    let list = c.in_update_order();
    let ghost all = in_order(c.slots_spec(), slot_keys(c.slots_spec()));
    let mut out: Vec<String> = Vec::new();
    let mut i: usize = 0;
    while i < list.len()
        invariant
            i <= list.len(),
            all == in_order(c.slots_spec(), slot_keys(c.slots_spec())),
            slots(list@) == all,
            out.len() == i,
            forall|k: int| 0 <= k < i ==> (#[trigger] out@[k])@ == peer_line(*c, all[k]),
        decreases list.len() - i,
    {
        proof {
            assert(all[i as int] == list@[i as int]@);
        }
        out.push(peer_line_of(c, &list[i]));
        i = i + 1;
    }
    proof {
        assert(views(out@) =~= peer_lines(*c));
    }
    out
}

/// The control plane. It binds the mesh loopback and is published from there.
pub open spec fn control_plane_file(c: Cluster) -> File {
    let storage = storage(c);
    let r = c.policy.reclaim;
    let g = c.cluster.github_app;
    let d = c.policy.drain;
    File {
        path: "node/systemd/cluster-ctl.service"@,
        ids: seq!["CD-08"@],
        body: "# The control plane on "@
            + storage.name
            + ". Session registry, rollout state, and the API the\n# web interface speaks to (§16.1).\n#\n# It binds the mesh loopback. `tailscale serve` publishes it with a real\n# certificate from the tailnet's CA, so nothing is opened on the management\n# plane and there is no password, session cookie, or auth code anywhere in\n# this repository (§16.2).\n\n[Unit]\nDescription=Cluster control plane\nAfter=network-online.target var-lib-cluster\\x2dctl.mount\nWants=network-online.target\nConditionPathExists="@
            + marker(c.policy.drain.migration_target@)
            + "\n\n[Service]\nType=simple\nEnvironment=CLUSTER_CTL_BIND="@
            + storage.loopback
            + ":8080\nEnvironment=CLUSTER_CTL_DB=/var/lib/cluster-ctl/sessions.db\nEnvironment=CLUSTER_AUTHORIZED_LOGINS="@
            + join(views(c.cluster.authorized_logins@), ","@)
            + "\nEnvironment=CLUSTER_PEERS="@
            + join(peer_lines(c), ","@)
            + "\nEnvironment=CLUSTER_RECLAIM_NOTIFY_DAYS="@
            + decimal(r.notify_after_days as nat)
            + "\nEnvironment=CLUSTER_RECLAIM_ARCHIVE_DAYS="@
            + decimal(r.archive_after_days as nat)
            + "\nEnvironment=CLUSTER_RECLAIM_PURGE_DAYS="@
            + decimal(r.purge_after_days as nat)
            + "\nEnvironment=CLUSTER_SNAPSHOT_REPOSITORY="@
            + r.snapshot_repository@
            + "\nEnvironment=CLUSTER_SNAPSHOT_TOOL="@
            + r.snapshot_tool@
            + "\nEnvironment=CLUSTER_GITHUB_USER_URL="@
            + g.user_url@
            + "\nEnvironment=CLUSTER_GITHUB_CLIENT_ID="@
            + g.client_id@
            + "\nEnvironment=CLUSTER_GITHUB_SCOPES="@
            + join(views(g.scopes@), ","@)
            + "\nEnvironment=CLUSTER_GITHUB_DEVICE_CODE_URL="@
            + g.device_code_url@
            + "\nEnvironment=CLUSTER_GITHUB_TOKEN_URL="@
            + g.token_url@
            + "\nEnvironment=CLUSTER_AUTH_TOKEN_CACHE_TTL_S="@
            + decimal(c.policy.auth.token_cache_ttl_s as nat)
            + "\nEnvironment=CLUSTER_AUTH_VALIDATION_TIMEOUT_S="@
            + decimal(c.policy.auth.validation_timeout_s as nat)
            + "\nEnvironment=CLUSTER_ALLOWED_ORIGIN="@
            + c.policy.auth.allowed_origin@
            + "\nEnvironment=CLUSTER_WEB_ROOT=/var/lib/cluster-ctl/web\nEnvironment=CLUSTER_RECLAIM_SUSPEND_DURING_ROLLOUT="@
            + flag(r.suspend_during_rollout)
            + "\nEnvironment=CLUSTER_MIGRATION_TARGET="@
            + d.migration_target@
            + "\nEnvironment=CLUSTER_MIGRATION_MEMORY_CAP_GIB="@
            + decimal(d.migration_memory_cap_gib as nat)
            + "\nEnvironment=CLUSTER_NEVER_RECEIVES="@
            + join(views(d.never_receives@), ","@)
            + "\nEnvironment=CLUSTER_STOP_GRACE_S="@
            + decimal(d.container_stop_grace_s as nat)
            + "\nExecStart=/usr/bin/cluster-ctl serve\nRestart=always\nRestartSec=5\n\n[Install]\nWantedBy=multi-user.target\n\n"@,
    }
}

pub(crate) fn control_plane_service(c: &Cluster) -> (r: Rendered)
    requires
        has_storage(*c),
    ensures
        r@ == control_plane_file(*c),
{
    let storage = storage_of(c);
    let r = &c.policy.reclaim;
    let g = &c.cluster.github_app;
    let d = &c.policy.drain;
    let path = "node/systemd/cluster-ctl.service".to_owned();
    let body = "# The control plane on ".to_owned()
        .concat(storage.name.as_str())
        .concat(". Session registry, rollout state, and the API the\n# web interface speaks to (§16.1).\n#\n# It binds the mesh loopback. `tailscale serve` publishes it with a real\n# certificate from the tailnet's CA, so nothing is opened on the management\n# plane and there is no password, session cookie, or auth code anywhere in\n# this repository (§16.2).\n\n[Unit]\nDescription=Cluster control plane\nAfter=network-online.target var-lib-cluster\\x2dctl.mount\nWants=network-online.target\nConditionPathExists=")
        .concat(role_marker(c.policy.drain.migration_target.as_str()).as_str())
        .concat("\n\n[Service]\nType=simple\nEnvironment=CLUSTER_CTL_BIND=")
        .concat(storage.loopback.as_str())
        .concat(":8080\nEnvironment=CLUSTER_CTL_DB=/var/lib/cluster-ctl/sessions.db\nEnvironment=CLUSTER_AUTHORIZED_LOGINS=")
        .concat(join_strings(&c.cluster.authorized_logins, ",").as_str())
        .concat("\nEnvironment=CLUSTER_PEERS=")
        .concat(join_strings(&peer_lines_of(c), ",").as_str())
        .concat("\nEnvironment=CLUSTER_RECLAIM_NOTIFY_DAYS=")
        .concat(decimal_of(r.notify_after_days as u64).as_str())
        .concat("\nEnvironment=CLUSTER_RECLAIM_ARCHIVE_DAYS=")
        .concat(decimal_of(r.archive_after_days as u64).as_str())
        .concat("\nEnvironment=CLUSTER_RECLAIM_PURGE_DAYS=")
        .concat(decimal_of(r.purge_after_days as u64).as_str())
        .concat("\nEnvironment=CLUSTER_SNAPSHOT_REPOSITORY=")
        .concat(r.snapshot_repository.as_str())
        .concat("\nEnvironment=CLUSTER_SNAPSHOT_TOOL=")
        .concat(r.snapshot_tool.as_str())
        .concat("\nEnvironment=CLUSTER_GITHUB_USER_URL=")
        .concat(g.user_url.as_str())
        .concat("\nEnvironment=CLUSTER_GITHUB_CLIENT_ID=")
        .concat(g.client_id.as_str())
        .concat("\nEnvironment=CLUSTER_GITHUB_SCOPES=")
        .concat(join_strings(&g.scopes, ",").as_str())
        .concat("\nEnvironment=CLUSTER_GITHUB_DEVICE_CODE_URL=")
        .concat(g.device_code_url.as_str())
        .concat("\nEnvironment=CLUSTER_GITHUB_TOKEN_URL=")
        .concat(g.token_url.as_str())
        .concat("\nEnvironment=CLUSTER_AUTH_TOKEN_CACHE_TTL_S=")
        .concat(decimal_of(c.policy.auth.token_cache_ttl_s as u64).as_str())
        .concat("\nEnvironment=CLUSTER_AUTH_VALIDATION_TIMEOUT_S=")
        .concat(decimal_of(c.policy.auth.validation_timeout_s as u64).as_str())
        .concat("\nEnvironment=CLUSTER_ALLOWED_ORIGIN=")
        .concat(c.policy.auth.allowed_origin.as_str())
        .concat("\nEnvironment=CLUSTER_WEB_ROOT=/var/lib/cluster-ctl/web\nEnvironment=CLUSTER_RECLAIM_SUSPEND_DURING_ROLLOUT=")
        .concat(flag_of(r.suspend_during_rollout))
        .concat("\nEnvironment=CLUSTER_MIGRATION_TARGET=")
        .concat(d.migration_target.as_str())
        .concat("\nEnvironment=CLUSTER_MIGRATION_MEMORY_CAP_GIB=")
        .concat(decimal_of(d.migration_memory_cap_gib as u64).as_str())
        .concat("\nEnvironment=CLUSTER_NEVER_RECEIVES=")
        .concat(join_strings(&d.never_receives, ",").as_str())
        .concat("\nEnvironment=CLUSTER_STOP_GRACE_S=")
        .concat(decimal_of(d.container_stop_grace_s as u64).as_str())
        .concat("\nExecStart=/usr/bin/cluster-ctl serve\nRestart=always\nRestartSec=5\n\n[Install]\nWantedBy=multi-user.target\n\n");
    Rendered::new(path, ids1("CD-08"), body)
}

/// Whether a role hosts the devcontainer agent: its variant enables it.
pub open spec fn hosts_agent(c: Cluster, role: Role) -> bool {
    row(c.images.variant@, role.id@) matches Some(variant) && listed(
        variant.services@,
        "devcontainer-agent.service"@,
    )
}

fn does_host_agent(c: &Cluster, role: &Role) -> (r: bool)
    ensures
        r == hosts_agent(*c, *role),
{
    match c.images.variant_for(role.id.as_str()) {
        Some(variant) => is_listed(&variant.services, "devcontainer-agent.service"),
        None => false,
    }
}

/// Whether more than one role hosts the agent.
pub open spec fn agents_are_several(c: Cluster) -> bool {
    exists|i: int, j: int|
        0 <= i < j < c.cluster.role@.len() && hosts_agent(c, #[trigger] c.cluster.role@[i])
            && hosts_agent(c, #[trigger] c.cluster.role@[j])
}

fn are_agents_several(c: &Cluster) -> (r: bool)
    ensures
        r == agents_are_several(*c),
{
    let mut first: Option<usize> = None;
    let mut i: usize = 0;
    while i < c.cluster.role.len()
        invariant
            i <= c.cluster.role.len(),
            match first {
                Some(k) => k < i && hosts_agent(*c, c.cluster.role@[k as int]) && forall|j: int|
                    0 <= j < i && j != k ==> !hosts_agent(*c, #[trigger] c.cluster.role@[j]),
                None => forall|j: int|
                    0 <= j < i ==> !hosts_agent(*c, #[trigger] c.cluster.role@[j]),
            },
        decreases c.cluster.role.len() - i,
    {
        if does_host_agent(c, &c.cluster.role[i]) {
            if first.is_some() {
                return true;
            }
            first = Some(i);
        }
        i = i + 1;
    }
    false
}

/// Where the agent of a role lands. Where one role hosts it, under the name that
/// its variant enables; where several do, each under a name of its own, since
/// all of them ship in one tree.
pub open spec fn agent_path(c: Cluster, role: Role) -> Seq<char> {
    if agents_are_several(c) {
        "node/systemd/devcontainer-agent-"@ + role.id@ + ".service"@
    } else {
        "node/systemd/devcontainer-agent.service"@
    }
}

fn agent_path_of(c: &Cluster, role: &Role) -> (r: String)
    ensures
        r@ == agent_path(*c, *role),
{
    if are_agents_several(c) {
        "node/systemd/devcontainer-agent-".to_owned().concat(role.id.as_str()).concat(".service")
    } else {
        "node/systemd/devcontainer-agent.service".to_owned()
    }
}

/// The devcontainer agent of a role: the only thing that can say whether a
/// workspace is dirty.
pub open spec fn agent_file(c: Cluster, role: Role, variant: Variant) -> File {
    let storage = storage(c);
    let slot = slot_with_role(c.slots_spec(), role.id@, 0).unwrap();
    let runtime = row(c.images.runtime@, variant.runtime@).unwrap();
    let t = c.policy.tunnel;
    File {
        path: agent_path(c, role),
        ids: seq!["CD-08"@],
        body: "# The devcontainer agent on "@
            + slot.name
            + ". It starts and stops devcontainers, reports\n# whether a workspace is dirty, and records an attachment (§15.1, §15.2).\n#\n# It is the only thing that can answer the dirty question, because it is the\n# only thing that can see the worktree --- and §15.2 requires that answer\n# immediately before any destructive step rather than from a cache.\n\n[Unit]\nDescription=Devcontainer agent\nAfter=network-online.target remote-fs.target\nWants=network-online.target\nConditionPathExists="@
            + marker(role.id@)
            + "\n\n[Service]\nType=simple\nEnvironment=AGENT_BIND="@
            + slot.loopback
            + ":8081\nEnvironment=AGENT_NODE="@
            + slot.name
            + "\nEnvironment=AGENT_WORKSPACES=/var/lib/devcontainers\nEnvironment=AGENT_HOME=/var/lib/devcontainer-home\nEnvironment=DOCKER_HOST="@
            + runtime.docker_host@
            + "\nEnvironment=AGENT_CONTROL_PLANE=http://"@
            + storage.loopback
            + ":8080\nEnvironment=AGENT_STOP_GRACE_S="@
            + decimal(c.policy.drain.container_stop_grace_s as nat)
            + "\nEnvironment=AGENT_FEATURES="@
            + join(views(variant.features@), ","@)
            + "\nEnvironment=AGENT_TUNNEL_PREFIX="@
            + t.name_prefix@
            + "\nEnvironment=AGENT_TUNNEL_URL_TEMPLATE="@
            + t.url_template@
            + "\nEnvironment=AGENT_TUNNEL_BACKOFF_INITIAL_S="@
            + decimal(t.restart_backoff_initial_s as nat)
            + "\nEnvironment=AGENT_TUNNEL_BACKOFF_MAX_S="@
            + decimal(t.restart_backoff_max_s as nat)
            + "\nEnvironment=AGENT_PORT_VISIBILITY="@
            + t.default_port_visibility@
            + "\nExecStart=/usr/bin/devcontainer-agent serve\nRestart=always\nRestartSec=5\n\n[Install]\nWantedBy=multi-user.target\n\n"@,
    }
}

pub(crate) fn agent_service(c: &Cluster, role: &Role, variant: &Variant) -> (r: Rendered)
    requires
        has_storage(*c),
        slot_with_role(c.slots_spec(), role.id@, 0) is Some,
        row(c.images.runtime@, variant.runtime@) is Some,
    ensures
        r@ == agent_file(*c, *role, *variant),
{
    let storage = storage_of(c);
    let slot = c.node_with_role(role.id.as_str()).unwrap();
    let runtime = c.images.runtime_of(variant).unwrap();
    let t = &c.policy.tunnel;
    let path = agent_path_of(c, role);
    let body = "# The devcontainer agent on ".to_owned()
        .concat(slot.name.as_str())
        .concat(". It starts and stops devcontainers, reports\n# whether a workspace is dirty, and records an attachment (§15.1, §15.2).\n#\n# It is the only thing that can answer the dirty question, because it is the\n# only thing that can see the worktree --- and §15.2 requires that answer\n# immediately before any destructive step rather than from a cache.\n\n[Unit]\nDescription=Devcontainer agent\nAfter=network-online.target remote-fs.target\nWants=network-online.target\nConditionPathExists=")
        .concat(role_marker(role.id.as_str()).as_str())
        .concat("\n\n[Service]\nType=simple\nEnvironment=AGENT_BIND=")
        .concat(slot.loopback.as_str())
        .concat(":8081\nEnvironment=AGENT_NODE=")
        .concat(slot.name.as_str())
        .concat("\nEnvironment=AGENT_WORKSPACES=/var/lib/devcontainers\nEnvironment=AGENT_HOME=/var/lib/devcontainer-home\nEnvironment=DOCKER_HOST=")
        .concat(runtime.docker_host.as_str())
        .concat("\nEnvironment=AGENT_CONTROL_PLANE=http://")
        .concat(storage.loopback.as_str())
        .concat(":8080\nEnvironment=AGENT_STOP_GRACE_S=")
        .concat(decimal_of(c.policy.drain.container_stop_grace_s as u64).as_str())
        .concat("\nEnvironment=AGENT_FEATURES=")
        .concat(join_strings(&variant.features, ",").as_str())
        .concat("\nEnvironment=AGENT_TUNNEL_PREFIX=")
        .concat(t.name_prefix.as_str())
        .concat("\nEnvironment=AGENT_TUNNEL_URL_TEMPLATE=")
        .concat(t.url_template.as_str())
        .concat("\nEnvironment=AGENT_TUNNEL_BACKOFF_INITIAL_S=")
        .concat(decimal_of(t.restart_backoff_initial_s as u64).as_str())
        .concat("\nEnvironment=AGENT_TUNNEL_BACKOFF_MAX_S=")
        .concat(decimal_of(t.restart_backoff_max_s as u64).as_str())
        .concat("\nEnvironment=AGENT_PORT_VISIBILITY=")
        .concat(t.default_port_visibility.as_str())
        .concat("\nExecStart=/usr/bin/devcontainer-agent serve\nRestart=always\nRestartSec=5\n\n[Install]\nWantedBy=multi-user.target\n\n");
    Rendered::new(path, ids1("CD-08"), body)
}

/// Pins the governor and steers interrupts away from the isolated CPUs:
/// neither is a kernel argument.
pub open spec fn isolation_file(role: Role, isolation: Isolation) -> File {
    File {
        path: "node/systemd/cluster-isolation.service"@,
        ids: seq!["CD-06"@],
        body: "# CPUs "@
            + isolation.isolated_cpus@
            + " are isolated by kernel argument; the governor and IRQ affinity\n         # are not kernel arguments and are established here, before any workload\n         # starts (§8.5).\n         #\n         # What this unit makes true is constructible and CB- carries it. That the\n         # result yields stable measurements is neither constructible nor testable,\n         # and §21.1 records why.\n\n[Unit]\nDescription=Pin the governor and steer interrupts off the isolated CPUs\nBefore=multi-user.target\nDefaultDependencies=no\nAfter=sysinit.target\nConditionPathExists="@
            + marker(role.id@)
            + "\n\n[Service]\nType=oneshot\nRemainAfterExit=yes\nExecStart=/usr/bin/bash -c 'for g in /sys/devices/system/cpu/cpu*/cpufreq/scaling_governor; do echo "@
            + isolation.governor@
            + " > $g; done'\nExecStart=/usr/bin/bash -c 'echo "@
            + isolation.irq_affinity@
            + " > /proc/irq/default_smp_affinity'\n\n[Install]\nWantedBy=multi-user.target\n\n"@,
    }
}

pub(crate) fn isolation_service(role: &Role, isolation: &Isolation) -> (r: Rendered)
    ensures
        r@ == isolation_file(*role, *isolation),
{
    let path = "node/systemd/cluster-isolation.service".to_owned();
    let body = "# CPUs ".to_owned()
        .concat(isolation.isolated_cpus.as_str())
        .concat(" are isolated by kernel argument; the governor and IRQ affinity\n         # are not kernel arguments and are established here, before any workload\n         # starts (§8.5).\n         #\n         # What this unit makes true is constructible and CB- carries it. That the\n         # result yields stable measurements is neither constructible nor testable,\n         # and §21.1 records why.\n\n[Unit]\nDescription=Pin the governor and steer interrupts off the isolated CPUs\nBefore=multi-user.target\nDefaultDependencies=no\nAfter=sysinit.target\nConditionPathExists=")
        .concat(role_marker(role.id.as_str()).as_str())
        .concat("\n\n[Service]\nType=oneshot\nRemainAfterExit=yes\nExecStart=/usr/bin/bash -c 'for g in /sys/devices/system/cpu/cpu*/cpufreq/scaling_governor; do echo ")
        .concat(isolation.governor.as_str())
        .concat(" > $g; done'\nExecStart=/usr/bin/bash -c 'echo ")
        .concat(isolation.irq_affinity.as_str())
        .concat(" > /proc/irq/default_smp_affinity'\n\n[Install]\nWantedBy=multi-user.target\n\n");
    Rendered::new(path, ids1("CD-06"), body)
}

/// A class as an environment variable spells it.
pub open spec fn class_key(class: Seq<char>) -> Seq<char> {
    replaced(uppercase(class), "-"@, "_"@)
}

/// A class as an environment variable spells it.
pub fn class_key_of(class: &str) -> (r: String)
    ensures
        r@ == class_key(class@),
{
    replace(to_uppercase(class).as_str(), "-", "_")
}

/// The budget of a class as a whole, where it has one.
pub open spec fn total_text(budget: DrainBudget) -> Seq<char> {
    match budget.total_budget_s {
        Some(total) => "CLUSTER_BUDGET_"@
            + class_key(budget.class@)
            + "_TOTAL_S="@
            + decimal(total as nat)
            + "\n"@,
        None => Seq::<char>::empty(),
    }
}

fn total(budget: &DrainBudget) -> (r: String)
    ensures
        r@ == total_text(*budget),
{
    match &budget.total_budget_s {
        Some(total) => "CLUSTER_BUDGET_".to_owned()
            .concat(class_key_of(budget.class.as_str()).as_str())
            .concat("_TOTAL_S=")
            .concat(decimal_of(*total as u64).as_str())
            .concat("\n"),
        None => String::new(),
    }
}

/// The budget of one class, and what follows where it is exceeded.
pub open spec fn budget_line(c: Cluster, budget: DrainBudget) -> Seq<char> {
    "CLUSTER_BUDGET_"@
        + class_key(budget.class@)
        + "_S="@
        + decimal(budget.budget_s as nat)
        + "\n"@
        + total_text(budget)
        + "CLUSTER_BUDGET_"@
        + class_key(budget.class@)
        + "_ON_EXCEED="@
        + budget.on_exceed@
        + "\n"@
}

fn budget_line_of(c: &Cluster, budget: &DrainBudget) -> (r: String)
    ensures
        r@ == budget_line(*c, *budget),
{
    "CLUSTER_BUDGET_".to_owned()
        .concat(class_key_of(budget.class.as_str()).as_str())
        .concat("_S=")
        .concat(decimal_of(budget.budget_s as u64).as_str())
        .concat("\n")
        .concat(total(budget).as_str())
        .concat("CLUSTER_BUDGET_")
        .concat(class_key_of(budget.class.as_str()).as_str())
        .concat("_ON_EXCEED=")
        .concat(budget.on_exceed.as_str())
        .concat("\n")
}

/// One text for each, in order.
pub open spec fn budget_lines(c: Cluster) -> Seq<Seq<char>> {
    let list = c.policy.drain_budget@;
    Seq::new(list.len(), |i: int| budget_line(c, list[i]))
}

fn budget_lines_of(c: &Cluster) -> (out: Vec<String>)
    ensures
        views(out@) == budget_lines(*c),
{
    let list = &c.policy.drain_budget;
    let ghost all = c.policy.drain_budget@;
    let mut out: Vec<String> = Vec::new();
    let mut i: usize = 0;
    while i < list.len()
        invariant
            i <= list.len(),
            all == c.policy.drain_budget@,
            list@ == all,
            out.len() == i,
            forall|k: int| 0 <= k < i ==> (#[trigger] out@[k])@ == budget_line(*c, all[k]),
        decreases list.len() - i,
    {
        proof {
            assert(all[i as int] == list@[i as int]);
        }
        out.push(budget_line_of(c, &list[i]));
        i = i + 1;
    }
    proof {
        assert(views(out@) =~= budget_lines(*c));
    }
    out
}

/// Everything the updater needs of the fleet. What only the machine knows is
/// not in it.
pub open spec fn updater_env_file(c: Cluster) -> File {
    let storage = storage(c);
    let r = c.policy.rollout;
    let d = c.policy.drain;
    File {
        path: "node/cluster-updater.env"@,
        ids: seq!["CD-08"@],
        body: "# The rollout predicate's inputs, rendered from model/policy.toml and\n# model/cluster.toml. A node applies an update only when every earlier peer is\n# already on the target and healthy, and every later peer is healthy (§13.2).\n#\n# Which node this is, is not here: one image boots every ordinal, so the name,\n# the role and the position arrive at boot in /run/cluster/node.env (§8.4).\n\nCLUSTER_PEERS="@
            + join(peer_lines(c), ","@)
            + "\nCLUSTER_POLL_INTERVAL_S="@
            + decimal(r.poll_interval_s as nat)
            + "\nCLUSTER_POLL_JITTER_S="@
            + decimal(r.poll_jitter_max_s as nat)
            + "\nCLUSTER_RECHECK_BEFORE_APPLY_S="@
            + decimal(r.recheck_before_apply_s as nat)
            + "\nCLUSTER_PEER_HEALTH_TIMEOUT_S="@
            + decimal(r.peer_health_timeout_s as nat)
            + "\nCLUSTER_REGISTRIES="@
            + join(views(r.registries@), ","@)
            + "\nCLUSTER_IMAGE="@
            + r.image_repository@
            + "/node\nCLUSTER_STABLE_TAG="@
            + r.stable_tag@
            + "\nCLUSTER_CONTROL_PLANE=http://"@
            + storage.loopback
            + ":8080\n\n# Drain budgets (§14.4). A budget is never met by force: exceeding one\n# halts the rollout and asks for a human.\n"@
            + concat_all(budget_lines(c))
            + "\n# Migration (§14.3).\nCLUSTER_MIGRATION_TARGET="@
            + d.migration_target@
            + "\nCLUSTER_MIGRATION_MEMORY_CAP_GIB="@
            + decimal(d.migration_memory_cap_gib as nat)
            + "\nCLUSTER_NEVER_RECEIVES="@
            + join(views(d.never_receives@), ","@)
            + "\nCLUSTER_STOP_GRACE_S="@
            + decimal(d.container_stop_grace_s as nat)
            + "\n"@,
    }
}

pub(crate) fn updater_env(c: &Cluster) -> (r: Rendered)
    requires
        has_storage(*c),
    ensures
        r@ == updater_env_file(*c),
{
    let storage = storage_of(c);
    let r = &c.policy.rollout;
    let d = &c.policy.drain;
    let path = "node/cluster-updater.env".to_owned();
    let body = "# The rollout predicate's inputs, rendered from model/policy.toml and\n# model/cluster.toml. A node applies an update only when every earlier peer is\n# already on the target and healthy, and every later peer is healthy (§13.2).\n#\n# Which node this is, is not here: one image boots every ordinal, so the name,\n# the role and the position arrive at boot in /run/cluster/node.env (§8.4).\n\nCLUSTER_PEERS=".to_owned()
        .concat(join_strings(&peer_lines_of(c), ",").as_str())
        .concat("\nCLUSTER_POLL_INTERVAL_S=")
        .concat(decimal_of(r.poll_interval_s as u64).as_str())
        .concat("\nCLUSTER_POLL_JITTER_S=")
        .concat(decimal_of(r.poll_jitter_max_s as u64).as_str())
        .concat("\nCLUSTER_RECHECK_BEFORE_APPLY_S=")
        .concat(decimal_of(r.recheck_before_apply_s as u64).as_str())
        .concat("\nCLUSTER_PEER_HEALTH_TIMEOUT_S=")
        .concat(decimal_of(r.peer_health_timeout_s as u64).as_str())
        .concat("\nCLUSTER_REGISTRIES=")
        .concat(join_strings(&r.registries, ",").as_str())
        .concat("\nCLUSTER_IMAGE=")
        .concat(r.image_repository.as_str())
        .concat("/node\nCLUSTER_STABLE_TAG=")
        .concat(r.stable_tag.as_str())
        .concat("\nCLUSTER_CONTROL_PLANE=http://")
        .concat(storage.loopback.as_str())
        .concat(":8080\n\n# Drain budgets (§14.4). A budget is never met by force: exceeding one\n# halts the rollout and asks for a human.\n")
        .concat(concat_strings(&budget_lines_of(c)).as_str())
        .concat("\n# Migration (§14.3).\nCLUSTER_MIGRATION_TARGET=")
        .concat(d.migration_target.as_str())
        .concat("\nCLUSTER_MIGRATION_MEMORY_CAP_GIB=")
        .concat(decimal_of(d.migration_memory_cap_gib as u64).as_str())
        .concat("\nCLUSTER_NEVER_RECEIVES=")
        .concat(join_strings(&d.never_receives, ",").as_str())
        .concat("\nCLUSTER_STOP_GRACE_S=")
        .concat(decimal_of(d.container_stop_grace_s as u64).as_str())
        .concat("\n");
    Rendered::new(path, ids1("CD-08"), body)
}

/// One shot of the rollout predicate.
pub open spec fn updater_service_file(c: Cluster) -> File {
    File {
        path: "node/systemd/cluster-updater.service"@,
        ids: seq!["CD-08"@],
        body: "# One shot of the rollout predicate. The timer below decides how often;\n# this unit decides nothing except what to run (§13.1).\n\n[Unit]\nDescription=Evaluate the rollout predicate and apply if admitted\nAfter=network-online.target\nWants=network-online.target\nConflicts=cluster-reclaim.service\n\n[Service]\nType=oneshot\nEnvironmentFile=/usr/lib/cluster/cluster-updater.env\nEnvironmentFile=/run/cluster/node.env\nExecStart=/usr/bin/cluster-updater run\n\n"@,
    }
}

pub(crate) fn updater_service(c: &Cluster) -> (r: Rendered)
    ensures
        r@ == updater_service_file(*c),
{
    let path = "node/systemd/cluster-updater.service".to_owned();
    let body = "# One shot of the rollout predicate. The timer below decides how often;\n# this unit decides nothing except what to run (§13.1).\n\n[Unit]\nDescription=Evaluate the rollout predicate and apply if admitted\nAfter=network-online.target\nWants=network-online.target\nConflicts=cluster-reclaim.service\n\n[Service]\nType=oneshot\nEnvironmentFile=/usr/lib/cluster/cluster-updater.env\nEnvironmentFile=/run/cluster/node.env\nExecStart=/usr/bin/cluster-updater run\n\n".to_owned();
    Rendered::new(path, ids1("CD-08"), body)
}

/// How often the predicate is evaluated.
pub open spec fn updater_timer_file(c: Cluster) -> File {
    let r = c.policy.rollout;
    File {
        path: "node/systemd/cluster-updater.timer"@,
        ids: seq!["CD-08"@],
        body: "# Poll every "@
            + decimal(r.poll_interval_s as nat)
            + "s with up to "@
            + decimal(r.poll_jitter_max_s as nat)
            + "s of jitter. There is no webhook: nodes have\n# no inbound reachability from GitHub, and polling adds no attack surface\n# (§13.1). The jitter is what makes a simultaneous stale read unlikely\n# rather than merely improbable in theory (§13.2).\n\n[Unit]\nDescription=Poll for a promoted image\n\n[Timer]\nOnBootSec="@
            + decimal(r.poll_interval_s as nat)
            + "\nOnUnitActiveSec="@
            + decimal(r.poll_interval_s as nat)
            + "\nRandomizedDelaySec="@
            + decimal(r.poll_jitter_max_s as nat)
            + "\nPersistent=true\n\n[Install]\nWantedBy=timers.target\n\n"@,
    }
}

pub(crate) fn updater_timer(c: &Cluster) -> (r: Rendered)
    ensures
        r@ == updater_timer_file(*c),
{
    let r = &c.policy.rollout;
    let path = "node/systemd/cluster-updater.timer".to_owned();
    let body = "# Poll every ".to_owned()
        .concat(decimal_of(r.poll_interval_s as u64).as_str())
        .concat("s with up to ")
        .concat(decimal_of(r.poll_jitter_max_s as u64).as_str())
        .concat("s of jitter. There is no webhook: nodes have\n# no inbound reachability from GitHub, and polling adds no attack surface\n# (§13.1). The jitter is what makes a simultaneous stale read unlikely\n# rather than merely improbable in theory (§13.2).\n\n[Unit]\nDescription=Poll for a promoted image\n\n[Timer]\nOnBootSec=")
        .concat(decimal_of(r.poll_interval_s as u64).as_str())
        .concat("\nOnUnitActiveSec=")
        .concat(decimal_of(r.poll_interval_s as u64).as_str())
        .concat("\nRandomizedDelaySec=")
        .concat(decimal_of(r.poll_jitter_max_s as u64).as_str())
        .concat("\nPersistent=true\n\n[Install]\nWantedBy=timers.target\n\n");
    Rendered::new(path, ids1("CD-08"), body)
}

/// The health predicate, served on the machine's own loopback.
pub open spec fn health_service_file(c: Cluster) -> File {
    File {
        path: "node/systemd/cluster-health.service"@,
        ids: seq!["CD-08"@],
        body: "# The health predicate, served on this machine's mesh loopback. This is how nodes\n# observe each other without a lock: §13.2's ordering is a pure function\n# of what every peer reports here (§10.1).\n\n[Unit]\nDescription=Serve the cluster health predicate\nAfter=network-online.target\nWants=network-online.target\n\n[Service]\nType=simple\nEnvironmentFile=/run/cluster/node.env\nExecStart=/usr/bin/cluster-health serve --bind ${CLUSTER_LOOPBACK}:"@
            + decimal(c.policy.health.port as nat)
            + "\nRestart=always\nRestartSec=5\n\n[Install]\nWantedBy=multi-user.target\n\n"@,
    }
}

pub(crate) fn health_service(c: &Cluster) -> (r: Rendered)
    ensures
        r@ == health_service_file(*c),
{
    let path = "node/systemd/cluster-health.service".to_owned();
    let body = "# The health predicate, served on this machine's mesh loopback. This is how nodes\n# observe each other without a lock: §13.2's ordering is a pure function\n# of what every peer reports here (§10.1).\n\n[Unit]\nDescription=Serve the cluster health predicate\nAfter=network-online.target\nWants=network-online.target\n\n[Service]\nType=simple\nEnvironmentFile=/run/cluster/node.env\nExecStart=/usr/bin/cluster-health serve --bind ${CLUSTER_LOOPBACK}:".to_owned()
        .concat(decimal_of(c.policy.health.port as u64).as_str())
        .concat("\nRestart=always\nRestartSec=5\n\n[Install]\nWantedBy=multi-user.target\n\n");
    Rendered::new(path, ids1("CD-08"), body)
}

/// The check that decides whether a boot stands. On failure it quarantines the
/// digest before the machine rolls back.
pub open spec fn greenboot_file(c: Cluster) -> File {
    let storage = storage(c);
    let g = c.policy.greenboot;
    File {
        path: "node/greenboot/"@
            + split(g.check_path@, '/').last(),
        ids: seq!["CD-08"@],
        body: "#!/usr/bin/env bash\n# greenboot's required check. The boot is declared successful only if\n# the health predicate passes within "@
            + decimal(g.deadline_s as nat)
            + "s; on failure greenboot rolls back to\n# the previous ostree deployment and the node reboots into it (§13.3).\n#\n# This is not a mechanism this repository invents. It is cited (§20.1),\n# configured here, and tested in T2.\nset -euo pipefail\n\n. /run/cluster/node.env\n\nif timeout "@
            + decimal(g.deadline_s as nat)
            + "s /usr/bin/cluster-health check; then\n  exit 0\nfi\n\n# The predicate failed. Record the digest as quarantined before the rollback\n# reboots us, so that no other node attempts it (§13.4). Quarantine is a\n# precondition in §13.2, which is what stops the rollout rather than merely\n# reporting on it.\ndigest=\"$(bootc status --json | jq -r '.status.booted.image.imageDigest')\"\ncurl --silent --show-error --max-time 10 \\\n  --request POST \"http://"@
            + storage.loopback
            + ":8080/api/rollout/quarantine\" \\\n  --header 'content-type: application/json' \\\n  --data \"{\\\"digest\\\":\\\"${digest}\\\",\\\"node\\\":\\\"${CLUSTER_NODE}\\\"}\" || true\n\nexit 1\n"@,
    }
}

pub(crate) fn greenboot_check(c: &Cluster) -> (r: Rendered)
    requires
        has_storage(*c),
    ensures
        r@ == greenboot_file(*c),
{
    let storage = storage_of(c);
    let g = &c.policy.greenboot;
    let path = "node/greenboot/".to_owned()
        .concat(last_piece(g.check_path.as_str(), '/').as_str());
    let body = "#!/usr/bin/env bash\n# greenboot's required check. The boot is declared successful only if\n# the health predicate passes within ".to_owned()
        .concat(decimal_of(g.deadline_s as u64).as_str())
        .concat("s; on failure greenboot rolls back to\n# the previous ostree deployment and the node reboots into it (§13.3).\n#\n# This is not a mechanism this repository invents. It is cited (§20.1),\n# configured here, and tested in T2.\nset -euo pipefail\n\n. /run/cluster/node.env\n\nif timeout ")
        .concat(decimal_of(g.deadline_s as u64).as_str())
        .concat("s /usr/bin/cluster-health check; then\n  exit 0\nfi\n\n# The predicate failed. Record the digest as quarantined before the rollback\n# reboots us, so that no other node attempts it (§13.4). Quarantine is a\n# precondition in §13.2, which is what stops the rollout rather than merely\n# reporting on it.\ndigest=\"$(bootc status --json | jq -r '.status.booted.image.imageDigest')\"\ncurl --silent --show-error --max-time 10 \\\n  --request POST \"http://")
        .concat(storage.loopback.as_str())
        .concat(":8080/api/rollout/quarantine\" \\\n  --header 'content-type: application/json' \\\n  --data \"{\\\"digest\\\":\\\"${digest}\\\",\\\"node\\\":\\\"${CLUSTER_NODE}\\\"}\" || true\n\nexit 1\n");
    Rendered::new(path, ids1("CD-08"), body)
}

/// What is said of measurement output, where it is kept.
pub open spec fn measurement_text(c: Cluster) -> Seq<char> {
    if !c.policy.gc.measurement_output_pruned {
        "Environment=CLUSTER_MEASUREMENT_OUTPUT_PRUNED=false\n"@
    } else {
        Seq::<char>::empty()
    }
}

fn measurement(c: &Cluster) -> (r: String)
    ensures
        r@ == measurement_text(*c),
{
    if !c.policy.gc.measurement_output_pruned {
        "Environment=CLUSTER_MEASUREMENT_OUTPUT_PRUNED=false\n".to_owned()
    } else {
        String::new()
    }
}

/// Retention. Registry storage is collected where the registry is.
pub open spec fn gc_service_file(c: Cluster) -> File {
    let gc = c.policy.gc;
    File {
        path: "node/systemd/cluster-gc.service"@,
        ids: seq!["CD-08"@],
        body: "# Retention (§5.5). Container images older than "@
            + decimal(gc.container_image_max_age_h as nat)
            + "h, and on the registry\n# node an untagged manifest older than "@
            + decimal(gc.registry_untagged_max_age_days as nat)
            + " days.\n\n[Unit]\nDescription=Reclaim container and registry storage\n\n[Service]\nType=oneshot\nExecStart=/usr/bin/podman system prune --force --filter until="@
            + decimal(gc.container_image_max_age_h as nat)
            + "h\nExecStart=/usr/bin/ostree admin prune --retain-only="@
            + decimal(gc.ostree_deployments_retained as nat)
            + "\n"@
            + measurement_text(c)
            + "ExecStart=/usr/bin/bash -c 'test ! -e "@
            + marker(c.policy.drain.migration_target@)
            + " || exec /usr/libexec/cluster/zot-gc'\n\n"@,
    }
}

pub(crate) fn gc_service(c: &Cluster) -> (r: Rendered)
    ensures
        r@ == gc_service_file(*c),
{
    let gc = &c.policy.gc;
    let path = "node/systemd/cluster-gc.service".to_owned();
    let body = "# Retention (§5.5). Container images older than ".to_owned()
        .concat(decimal_of(gc.container_image_max_age_h as u64).as_str())
        .concat("h, and on the registry\n# node an untagged manifest older than ")
        .concat(decimal_of(gc.registry_untagged_max_age_days as u64).as_str())
        .concat(" days.\n\n[Unit]\nDescription=Reclaim container and registry storage\n\n[Service]\nType=oneshot\nExecStart=/usr/bin/podman system prune --force --filter until=")
        .concat(decimal_of(gc.container_image_max_age_h as u64).as_str())
        .concat("h\nExecStart=/usr/bin/ostree admin prune --retain-only=")
        .concat(decimal_of(gc.ostree_deployments_retained as u64).as_str())
        .concat("\n")
        .concat(measurement(c).as_str())
        .concat("ExecStart=/usr/bin/bash -c 'test ! -e ")
        .concat(role_marker(c.policy.drain.migration_target.as_str()).as_str())
        .concat(" || exec /usr/libexec/cluster/zot-gc'\n\n");
    Rendered::new(path, ids1("CD-08"), body)
}

/// How often storage is reclaimed.
pub open spec fn gc_timer_file(c: Cluster) -> File {
    let gc = c.policy.gc;
    File {
        path: "node/systemd/cluster-gc.timer"@,
        ids: seq!["CD-08"@],
        body: "# "@
            + gc.schedule@
            + " (§5.5).\n\n[Unit]\nDescription=Storage reclamation schedule\n\n[Timer]\nOnCalendar="@
            + gc.schedule@
            + "\nRandomizedDelaySec=3600\nPersistent=true\n\n[Install]\nWantedBy=timers.target\n\n"@,
    }
}

pub(crate) fn gc_timer(c: &Cluster) -> (r: Rendered)
    ensures
        r@ == gc_timer_file(*c),
{
    let gc = &c.policy.gc;
    let path = "node/systemd/cluster-gc.timer".to_owned();
    let body = "# ".to_owned()
        .concat(gc.schedule.as_str())
        .concat(" (§5.5).\n\n[Unit]\nDescription=Storage reclamation schedule\n\n[Timer]\nOnCalendar=")
        .concat(gc.schedule.as_str())
        .concat("\nRandomizedDelaySec=3600\nPersistent=true\n\n[Install]\nWantedBy=timers.target\n\n");
    Rendered::new(path, ids1("CD-08"), body)
}

/// Reclamation of idle sessions, where the session database is and never
/// during a rollout.
pub open spec fn reclaim_service_file(c: Cluster) -> File {
    let r = c.policy.reclaim;
    File {
        path: "node/systemd/cluster-reclaim.service"@,
        ids: seq!["CD-08"@],
        body: "# Devcontainer reclamation (§15.3). Notify at "@
            + decimal(r.notify_after_days as nat)
            + " days, archive at "@
            + decimal(r.archive_after_days as nat)
            + ", purge\n# at "@
            + decimal(r.purge_after_days as nat)
            + " --- and never purge a dirty workspace. Deleting someone's uncommitted\n# work because a timer expired is a betrayal, and a system that does it once\n# is never trusted again (§15.2).\n\n[Unit]\nDescription=Reclaim idle devcontainer sessions\nConflicts=cluster-updater.service\nConditionPathExists="@
            + marker(c.policy.drain.migration_target@)
            + "\n\n[Service]\nType=oneshot\nExecStart=/usr/bin/cluster-ctl reclaim run\n\n"@,
    }
}

pub(crate) fn reclaim_service(c: &Cluster) -> (r: Rendered)
    ensures
        r@ == reclaim_service_file(*c),
{
    let r = &c.policy.reclaim;
    let path = "node/systemd/cluster-reclaim.service".to_owned();
    let body = "# Devcontainer reclamation (§15.3). Notify at ".to_owned()
        .concat(decimal_of(r.notify_after_days as u64).as_str())
        .concat(" days, archive at ")
        .concat(decimal_of(r.archive_after_days as u64).as_str())
        .concat(", purge\n# at ")
        .concat(decimal_of(r.purge_after_days as u64).as_str())
        .concat(" --- and never purge a dirty workspace. Deleting someone's uncommitted\n# work because a timer expired is a betrayal, and a system that does it once\n# is never trusted again (§15.2).\n\n[Unit]\nDescription=Reclaim idle devcontainer sessions\nConflicts=cluster-updater.service\nConditionPathExists=")
        .concat(role_marker(c.policy.drain.migration_target.as_str()).as_str())
        .concat("\n\n[Service]\nType=oneshot\nExecStart=/usr/bin/cluster-ctl reclaim run\n\n");
    Rendered::new(path, ids1("CD-08"), body)
}

/// How often sessions are reclaimed.
pub open spec fn reclaim_timer_file(c: Cluster) -> File {
    let r = c.policy.reclaim;
    File {
        path: "node/systemd/cluster-reclaim.timer"@,
        ids: seq!["CD-08"@],
        body: "# "@
            + r.schedule@
            + " (§15.3).\n\n[Unit]\nDescription=Devcontainer reclamation schedule\nConditionPathExists="@
            + marker(c.policy.drain.migration_target@)
            + "\n\n[Timer]\nOnCalendar="@
            + r.schedule@
            + "\nPersistent=true\n\n[Install]\nWantedBy=timers.target\n\n"@,
    }
}

pub(crate) fn reclaim_timer(c: &Cluster) -> (r: Rendered)
    ensures
        r@ == reclaim_timer_file(*c),
{
    let r = &c.policy.reclaim;
    let path = "node/systemd/cluster-reclaim.timer".to_owned();
    let body = "# ".to_owned()
        .concat(r.schedule.as_str())
        .concat(" (§15.3).\n\n[Unit]\nDescription=Devcontainer reclamation schedule\nConditionPathExists=")
        .concat(role_marker(c.policy.drain.migration_target.as_str()).as_str())
        .concat("\n\n[Timer]\nOnCalendar=")
        .concat(r.schedule.as_str())
        .concat("\nPersistent=true\n\n[Install]\nWantedBy=timers.target\n\n");
    Rendered::new(path, ids1("CD-08"), body)
}

/// The agent of a role, where its variant enables one.
pub open spec fn agent_part(c: Cluster, role: Role) -> Seq<File> {
    match row(c.images.variant@, role.id@) {
        Some(variant) => if listed(variant.services@, "devcontainer-agent.service"@) {
            seq![agent_file(c, role, variant)]
        } else {
            Seq::empty()
        },
        None => Seq::empty(),
    }
}

/// What isolates the CPUs of a role, where its variant isolates any.
pub open spec fn isolation_part(c: Cluster, role: Role) -> Seq<File> {
    match row(c.images.variant@, role.id@) {
        Some(variant) => match variant.isolation {
            Some(isolation) => seq![isolation_file(role, isolation)],
            None => Seq::empty(),
        },
        None => Seq::empty(),
    }
}

/// The units of the first `n` roles.
pub open spec fn role_units(c: Cluster, n: int) -> Seq<File>
    decreases n,
{
    if n <= 0 {
        Seq::empty()
    } else {
        role_units(c, n - 1) + agent_part(c, c.cluster.role@[n - 1]) + isolation_part(
            c,
            c.cluster.role@[n - 1],
        )
    }
}

/// Whether a role with an agent has a slot and a runtime to run it on.
pub open spec fn agent_ready(c: Cluster, role: Role) -> bool {
    row(c.images.variant@, role.id@) matches Some(variant) ==> listed(
        variant.services@,
        "devcontainer-agent.service"@,
    ) ==> slot_with_role(c.slots_spec(), role.id@, 0) is Some && row(
        c.images.runtime@,
        variant.runtime@,
    ) is Some
}

/// Whether every role with an agent has a slot and a runtime to run it on.
pub open spec fn agents_ready(c: Cluster) -> bool {
    forall|k: int|
        0 <= k < c.cluster.role@.len() ==> agent_ready(c, #[trigger] c.cluster.role@[k])
}

fn each_role_unit(c: &Cluster) -> (out: Vec<Rendered>)
    requires
        has_storage(*c),
        agents_ready(*c),
    ensures
        files(out@) == role_units(*c, c.cluster.role@.len() as int),
{
    let mut out: Vec<Rendered> = Vec::new();
    let mut i: usize = 0;
    proof {
        assert(files(out@) =~= role_units(*c, 0));
    }
    while i < c.cluster.role.len()
        invariant
            i <= c.cluster.role.len(),
            has_storage(*c),
            agents_ready(*c),
            files(out@) == role_units(*c, i as int),
        decreases c.cluster.role.len() - i,
    {
        let role = &c.cluster.role[i];
        let ghost before = out@;
        let mut agents: Vec<Rendered> = Vec::new();
        let mut isolations: Vec<Rendered> = Vec::new();
        if let Some(variant) = c.images.variant_for(role.id.as_str()) {
            proof {
                assert(agent_ready(*c, c.cluster.role@[i as int]));
            }
            if is_listed(&variant.services, "devcontainer-agent.service") {
                agents.push(agent_service(c, role, variant));
            }
            if let Some(isolation) = &variant.isolation {
                isolations.push(isolation_service(role, isolation));
            }
        }
        let ghost (x, y) = (agents@, isolations@);
        out.append(&mut agents);
        out.append(&mut isolations);
        proof {
            assert(files(x) =~= agent_part(*c, *role));
            assert(files(y) =~= isolation_part(*c, *role));
            assert(files(out@) =~= files(before) + files(x) + files(y));
        }
        i = i + 1;
    }
    out
}

/// The units every machine has.
pub open spec fn base_unit_files(c: Cluster) -> Seq<File> {
    seq![updater_env_file(c), updater_service_file(c), updater_timer_file(c), health_service_file(c), greenboot_file(c), gc_service_file(c), gc_timer_file(c), reclaim_service_file(c), reclaim_timer_file(c), control_plane_file(c)]
}

/// The units every machine has.
#[verifier::spinoff_prover]
#[verifier::rlimit(60)]
fn base_units(c: &Cluster) -> (out: Vec<Rendered>)
    requires
        has_storage(*c),
    ensures
        files(out@) == base_unit_files(*c),
{
    let out = vec![updater_env(c), updater_service(c), updater_timer(c), health_service(c), greenboot_check(c), gc_service(c), gc_timer(c), reclaim_service(c), reclaim_timer(c), control_plane_service(c)];
    proof {
        assert(files(out@) =~= base_unit_files(*c));
    }
    out
}

/// The units every machine has, and those of each role.
pub open spec fn unit_files(c: Cluster) -> Seq<File> {
    base_unit_files(c) + role_units(c, c.cluster.role@.len() as int)
}

/// The units every machine has, and those of each role.
pub(crate) fn render(c: &Cluster) -> (out: Vec<Rendered>)
    requires
        has_storage(*c),
        agents_ready(*c),
    ensures
        files(out@) == unit_files(*c),
{
    let mut out = base_units(c);
    let mut rest = each_role_unit(c);
    let ghost (x, y) = (out@, rest@);
    out.append(&mut rest);
    proof {
        assert(files(out@) =~= files(x) + files(y));
    }
    out
}

// ---- laws of the units ----

/// Every unit that a machine has is given.
pub(crate) proof fn lemma_base_units(c: Cluster)
    ensures
        is_ours(c, updater_env_file(c)),
        is_ours(c, updater_service_file(c)),
        is_ours(c, updater_timer_file(c)),
        is_ours(c, health_service_file(c)),
        is_ours(c, greenboot_file(c)),
        is_ours(c, gc_service_file(c)),
        is_ours(c, gc_timer_file(c)),
        is_ours(c, reclaim_service_file(c)),
        is_ours(c, reclaim_timer_file(c)),
        is_ours(c, control_plane_file(c)),
{
    reveal(is_ours);
    let base = base_unit_files(c);
    let all = unit_files(c);
    assert forall|k: int| 0 <= k < base.len() implies all.contains(#[trigger] base[k]) by {
        assert(all[k] == base[k]);
    }
    assert(all.contains(base[0]) && all.contains(base[1]) && all.contains(base[2]));
    assert(all.contains(base[3]) && all.contains(base[4]) && all.contains(base[5]));
    assert(all.contains(base[6]) && all.contains(base[7]) && all.contains(base[8]));
    assert(all.contains(base[9]));
}

/// The control plane binds the storage node, knows where every other service is,
/// and has its limits from the policy, setting by setting.
pub proof fn the_control_plane_serves_from_its_model(c: Cluster, out: Vec<Rendered>)
    requires
        call_ensures(render_all, (&c,), out),
    ensures
        ({
            let storage = storage(c);
            let r = c.policy.reclaim;
            let g = c.cluster.github_app;
            let d = c.policy.drain;
            let path = "node/systemd/cluster-ctl.service"@;
            &&& shows(out@, path, "\n[Unit]\nDescription=Cluster control plane\nAfter=network-online.target var-lib-cluster\\x2dctl.mount\nWants=network-online.target\nConditionPathExists="@ + marker(c.policy.drain.migration_target@) + "\n"@)
            &&& shows(out@, path, "\n[Service]\nType=simple\nEnvironment=CLUSTER_CTL_BIND="@ + storage.loopback + ":8080\nEnvironment=CLUSTER_CTL_DB=/var/lib/cluster-ctl/sessions.db\nEnvironment=CLUSTER_AUTHORIZED_LOGINS="@ + join(views(c.cluster.authorized_logins@), ","@) + "\nEnvironment=CLUSTER_PEERS="@ + join(peer_lines(c), ","@) + "\nEnvironment=CLUSTER_RECLAIM_NOTIFY_DAYS="@ + decimal(r.notify_after_days as nat) + "\nEnvironment=CLUSTER_RECLAIM_ARCHIVE_DAYS="@ + decimal(r.archive_after_days as nat) + "\nEnvironment=CLUSTER_RECLAIM_PURGE_DAYS="@ + decimal(r.purge_after_days as nat) + "\nEnvironment=CLUSTER_SNAPSHOT_REPOSITORY="@ + r.snapshot_repository@ + "\nEnvironment=CLUSTER_SNAPSHOT_TOOL="@ + r.snapshot_tool@ + "\nEnvironment=CLUSTER_GITHUB_USER_URL="@ + g.user_url@ + "\nEnvironment=CLUSTER_GITHUB_CLIENT_ID="@ + g.client_id@ + "\nEnvironment=CLUSTER_GITHUB_SCOPES="@ + join(views(g.scopes@), ","@) + "\nEnvironment=CLUSTER_GITHUB_DEVICE_CODE_URL="@ + g.device_code_url@ + "\nEnvironment=CLUSTER_GITHUB_TOKEN_URL="@ + g.token_url@ + "\nEnvironment=CLUSTER_AUTH_TOKEN_CACHE_TTL_S="@ + decimal(c.policy.auth.token_cache_ttl_s as nat) + "\nEnvironment=CLUSTER_AUTH_VALIDATION_TIMEOUT_S="@ + decimal(c.policy.auth.validation_timeout_s as nat) + "\nEnvironment=CLUSTER_ALLOWED_ORIGIN="@ + c.policy.auth.allowed_origin@ + "\nEnvironment=CLUSTER_WEB_ROOT=/var/lib/cluster-ctl/web\nEnvironment=CLUSTER_RECLAIM_SUSPEND_DURING_ROLLOUT="@ + flag(r.suspend_during_rollout) + "\nEnvironment=CLUSTER_MIGRATION_TARGET="@ + d.migration_target@ + "\nEnvironment=CLUSTER_MIGRATION_MEMORY_CAP_GIB="@ + decimal(d.migration_memory_cap_gib as nat) + "\nEnvironment=CLUSTER_NEVER_RECEIVES="@ + join(views(d.never_receives@), ","@) + "\nEnvironment=CLUSTER_STOP_GRACE_S="@ + decimal(d.container_stop_grace_s as nat) + "\nExecStart=/usr/bin/cluster-ctl serve\nRestart=always\nRestartSec=5\n"@)
            &&& shows(out@, path, "\n[Install]\nWantedBy=multi-user.target\n"@)
        }),
{
    let storage = storage(c);
    let r = c.policy.reclaim;
    let g = c.cluster.github_app;
    let d = c.policy.drain;
    let file = control_plane_file(c);
    lemma_base_units(c);
    lemma_is_shown(c, out, file);
    let t0 = "# The control plane on "@;
    let b0 = t0;
    let t1 = storage.name;
    let b1 = b0 + t1;
    let t2 = ". Session registry, rollout state, and the API the\n# web interface speaks to (§16.1).\n#\n# It binds the mesh loopback. `tailscale serve` publishes it with a real\n# certificate from the tailnet's CA, so nothing is opened on the management\n# plane and there is no password, session cookie, or auth code anywhere in\n# this repository (§16.2).\n\n[Unit]\nDescription=Cluster control plane\nAfter=network-online.target var-lib-cluster\\x2dctl.mount\nWants=network-online.target\nConditionPathExists="@;
    let b2 = b1 + t2;
    let t3 = marker(c.policy.drain.migration_target@);
    let b3 = b2 + t3;
    let t4 = "\n\n[Service]\nType=simple\nEnvironment=CLUSTER_CTL_BIND="@;
    let b4 = b3 + t4;
    let t5 = storage.loopback;
    let b5 = b4 + t5;
    let t6 = ":8080\nEnvironment=CLUSTER_CTL_DB=/var/lib/cluster-ctl/sessions.db\nEnvironment=CLUSTER_AUTHORIZED_LOGINS="@;
    let b6 = b5 + t6;
    let t7 = join(views(c.cluster.authorized_logins@), ","@);
    let b7 = b6 + t7;
    let t8 = "\nEnvironment=CLUSTER_PEERS="@;
    let b8 = b7 + t8;
    let t9 = join(peer_lines(c), ","@);
    let b9 = b8 + t9;
    let t10 = "\nEnvironment=CLUSTER_RECLAIM_NOTIFY_DAYS="@;
    let b10 = b9 + t10;
    let t11 = decimal(r.notify_after_days as nat);
    let b11 = b10 + t11;
    let t12 = "\nEnvironment=CLUSTER_RECLAIM_ARCHIVE_DAYS="@;
    let b12 = b11 + t12;
    let t13 = decimal(r.archive_after_days as nat);
    let b13 = b12 + t13;
    let t14 = "\nEnvironment=CLUSTER_RECLAIM_PURGE_DAYS="@;
    let b14 = b13 + t14;
    let t15 = decimal(r.purge_after_days as nat);
    let b15 = b14 + t15;
    let t16 = "\nEnvironment=CLUSTER_SNAPSHOT_REPOSITORY="@;
    let b16 = b15 + t16;
    let t17 = r.snapshot_repository@;
    let b17 = b16 + t17;
    let t18 = "\nEnvironment=CLUSTER_SNAPSHOT_TOOL="@;
    let b18 = b17 + t18;
    let t19 = r.snapshot_tool@;
    let b19 = b18 + t19;
    let t20 = "\nEnvironment=CLUSTER_GITHUB_USER_URL="@;
    let b20 = b19 + t20;
    let t21 = g.user_url@;
    let b21 = b20 + t21;
    let t22 = "\nEnvironment=CLUSTER_GITHUB_CLIENT_ID="@;
    let b22 = b21 + t22;
    let t23 = g.client_id@;
    let b23 = b22 + t23;
    let t24 = "\nEnvironment=CLUSTER_GITHUB_SCOPES="@;
    let b24 = b23 + t24;
    let t25 = join(views(g.scopes@), ","@);
    let b25 = b24 + t25;
    let t26 = "\nEnvironment=CLUSTER_GITHUB_DEVICE_CODE_URL="@;
    let b26 = b25 + t26;
    let t27 = g.device_code_url@;
    let b27 = b26 + t27;
    let t28 = "\nEnvironment=CLUSTER_GITHUB_TOKEN_URL="@;
    let b28 = b27 + t28;
    let t29 = g.token_url@;
    let b29 = b28 + t29;
    let t30 = "\nEnvironment=CLUSTER_AUTH_TOKEN_CACHE_TTL_S="@;
    let b30 = b29 + t30;
    let t31 = decimal(c.policy.auth.token_cache_ttl_s as nat);
    let b31 = b30 + t31;
    let t32 = "\nEnvironment=CLUSTER_AUTH_VALIDATION_TIMEOUT_S="@;
    let b32 = b31 + t32;
    let t33 = decimal(c.policy.auth.validation_timeout_s as nat);
    let b33 = b32 + t33;
    let t34 = "\nEnvironment=CLUSTER_ALLOWED_ORIGIN="@;
    let b34 = b33 + t34;
    let t35 = c.policy.auth.allowed_origin@;
    let b35 = b34 + t35;
    let t36 = "\nEnvironment=CLUSTER_WEB_ROOT=/var/lib/cluster-ctl/web\nEnvironment=CLUSTER_RECLAIM_SUSPEND_DURING_ROLLOUT="@;
    let b36 = b35 + t36;
    let t37 = flag(r.suspend_during_rollout);
    let b37 = b36 + t37;
    let t38 = "\nEnvironment=CLUSTER_MIGRATION_TARGET="@;
    let b38 = b37 + t38;
    let t39 = d.migration_target@;
    let b39 = b38 + t39;
    let t40 = "\nEnvironment=CLUSTER_MIGRATION_MEMORY_CAP_GIB="@;
    let b40 = b39 + t40;
    let t41 = decimal(d.migration_memory_cap_gib as nat);
    let b41 = b40 + t41;
    let t42 = "\nEnvironment=CLUSTER_NEVER_RECEIVES="@;
    let b42 = b41 + t42;
    let t43 = join(views(d.never_receives@), ","@);
    let b43 = b42 + t43;
    let t44 = "\nEnvironment=CLUSTER_STOP_GRACE_S="@;
    let b44 = b43 + t44;
    let t45 = decimal(d.container_stop_grace_s as nat);
    let b45 = b44 + t45;
    let t46 = "\nExecStart=/usr/bin/cluster-ctl serve\nRestart=always\nRestartSec=5\n\n[Install]\nWantedBy=multi-user.target\n\n"@;
    let b46 = b45 + t46;
    lemma_control_plane_file_0();
    let q2 = "\n[Unit]\nDescription=Cluster control plane\nAfter=network-online.target var-lib-cluster\\x2dctl.mount\nWants=network-online.target\nConditionPathExists="@;
    lemma_tail_right(b1, t2, q2);
    lemma_tail_grows(b2, q2, t3);
    let q3 = q2 + t3;
    lemma_control_plane_file_1();
    lemma_tail_is_cut(b3, q3, t4, "\n"@);
    let text = q3 + "\n"@;
    lemma_part_left(b4, t5, text);
    lemma_part_left(b5, t6, text);
    lemma_part_left(b6, t7, text);
    lemma_part_left(b7, t8, text);
    lemma_part_left(b8, t9, text);
    lemma_part_left(b9, t10, text);
    lemma_part_left(b10, t11, text);
    lemma_part_left(b11, t12, text);
    lemma_part_left(b12, t13, text);
    lemma_part_left(b13, t14, text);
    lemma_part_left(b14, t15, text);
    lemma_part_left(b15, t16, text);
    lemma_part_left(b16, t17, text);
    lemma_part_left(b17, t18, text);
    lemma_part_left(b18, t19, text);
    lemma_part_left(b19, t20, text);
    lemma_part_left(b20, t21, text);
    lemma_part_left(b21, t22, text);
    lemma_part_left(b22, t23, text);
    lemma_part_left(b23, t24, text);
    lemma_part_left(b24, t25, text);
    lemma_part_left(b25, t26, text);
    lemma_part_left(b26, t27, text);
    lemma_part_left(b27, t28, text);
    lemma_part_left(b28, t29, text);
    lemma_part_left(b29, t30, text);
    lemma_part_left(b30, t31, text);
    lemma_part_left(b31, t32, text);
    lemma_part_left(b32, t33, text);
    lemma_part_left(b33, t34, text);
    lemma_part_left(b34, t35, text);
    lemma_part_left(b35, t36, text);
    lemma_part_left(b36, t37, text);
    lemma_part_left(b37, t38, text);
    lemma_part_left(b38, t39, text);
    lemma_part_left(b39, t40, text);
    lemma_part_left(b40, t41, text);
    lemma_part_left(b41, t42, text);
    lemma_part_left(b42, t43, text);
    lemma_part_left(b43, t44, text);
    lemma_part_left(b44, t45, text);
    lemma_part_left(b45, t46, text);
    lemma_shows(out@, file, text);
    lemma_control_plane_file_2();
    let q4 = "\n[Service]\nType=simple\nEnvironment=CLUSTER_CTL_BIND="@;
    lemma_tail_right(b3, t4, q4);
    lemma_tail_grows(b4, q4, t5);
    let q5 = q4 + t5;
    lemma_tail_grows(b5, q5, t6);
    let q6 = q5 + t6;
    lemma_tail_grows(b6, q6, t7);
    let q7 = q6 + t7;
    lemma_tail_grows(b7, q7, t8);
    let q8 = q7 + t8;
    lemma_tail_grows(b8, q8, t9);
    let q9 = q8 + t9;
    lemma_tail_grows(b9, q9, t10);
    let q10 = q9 + t10;
    lemma_tail_grows(b10, q10, t11);
    let q11 = q10 + t11;
    lemma_tail_grows(b11, q11, t12);
    let q12 = q11 + t12;
    lemma_tail_grows(b12, q12, t13);
    let q13 = q12 + t13;
    lemma_tail_grows(b13, q13, t14);
    let q14 = q13 + t14;
    lemma_tail_grows(b14, q14, t15);
    let q15 = q14 + t15;
    lemma_tail_grows(b15, q15, t16);
    let q16 = q15 + t16;
    lemma_tail_grows(b16, q16, t17);
    let q17 = q16 + t17;
    lemma_tail_grows(b17, q17, t18);
    let q18 = q17 + t18;
    lemma_tail_grows(b18, q18, t19);
    let q19 = q18 + t19;
    lemma_tail_grows(b19, q19, t20);
    let q20 = q19 + t20;
    lemma_tail_grows(b20, q20, t21);
    let q21 = q20 + t21;
    lemma_tail_grows(b21, q21, t22);
    let q22 = q21 + t22;
    lemma_tail_grows(b22, q22, t23);
    let q23 = q22 + t23;
    lemma_tail_grows(b23, q23, t24);
    let q24 = q23 + t24;
    lemma_tail_grows(b24, q24, t25);
    let q25 = q24 + t25;
    lemma_tail_grows(b25, q25, t26);
    let q26 = q25 + t26;
    lemma_tail_grows(b26, q26, t27);
    let q27 = q26 + t27;
    lemma_tail_grows(b27, q27, t28);
    let q28 = q27 + t28;
    lemma_tail_grows(b28, q28, t29);
    let q29 = q28 + t29;
    lemma_tail_grows(b29, q29, t30);
    let q30 = q29 + t30;
    lemma_tail_grows(b30, q30, t31);
    let q31 = q30 + t31;
    lemma_tail_grows(b31, q31, t32);
    let q32 = q31 + t32;
    lemma_tail_grows(b32, q32, t33);
    let q33 = q32 + t33;
    lemma_tail_grows(b33, q33, t34);
    let q34 = q33 + t34;
    lemma_tail_grows(b34, q34, t35);
    let q35 = q34 + t35;
    lemma_tail_grows(b35, q35, t36);
    let q36 = q35 + t36;
    lemma_tail_grows(b36, q36, t37);
    let q37 = q36 + t37;
    lemma_tail_grows(b37, q37, t38);
    let q38 = q37 + t38;
    lemma_tail_grows(b38, q38, t39);
    let q39 = q38 + t39;
    lemma_tail_grows(b39, q39, t40);
    let q40 = q39 + t40;
    lemma_tail_grows(b40, q40, t41);
    let q41 = q40 + t41;
    lemma_tail_grows(b41, q41, t42);
    let q42 = q41 + t42;
    lemma_tail_grows(b42, q42, t43);
    let q43 = q42 + t43;
    lemma_tail_grows(b43, q43, t44);
    let q44 = q43 + t44;
    lemma_tail_grows(b44, q44, t45);
    let q45 = q44 + t45;
    lemma_control_plane_file_3();
    lemma_tail_is_cut(b45, q45, t46, "\nExecStart=/usr/bin/cluster-ctl serve\nRestart=always\nRestartSec=5\n"@);
    let text = q45 + "\nExecStart=/usr/bin/cluster-ctl serve\nRestart=always\nRestartSec=5\n"@;
    lemma_shows(out@, file, text);
    lemma_control_plane_file_4();
    lemma_part_right(b45, t46, "\n[Install]\nWantedBy=multi-user.target\n"@);
    let text = "\n[Install]\nWantedBy=multi-user.target\n"@;
    lemma_shows(out@, file, text);
}

proof fn lemma_control_plane_file_0()
    ensures
        is_tail(". Session registry, rollout state, and the API the\n# web interface speaks to (§16.1).\n#\n# It binds the mesh loopback. `tailscale serve` publishes it with a real\n# certificate from the tailnet's CA, so nothing is opened on the management\n# plane and there is no password, session cookie, or auth code anywhere in\n# this repository (§16.2).\n\n[Unit]\nDescription=Cluster control plane\nAfter=network-online.target var-lib-cluster\\x2dctl.mount\nWants=network-online.target\nConditionPathExists="@, "\n[Unit]\nDescription=Cluster control plane\nAfter=network-online.target var-lib-cluster\\x2dctl.mount\nWants=network-online.target\nConditionPathExists="@),
{
    reveal(is_tail);
    reveal_strlit(". Session registry, rollout state, and the API the\n# web interface speaks to (§16.1).\n#\n# It binds the mesh loopback. `tailscale serve` publishes it with a real\n# certificate from the tailnet's CA, so nothing is opened on the management\n# plane and there is no password, session cookie, or auth code anywhere in\n# this repository (§16.2).\n\n[Unit]\nDescription=Cluster control plane\nAfter=network-online.target var-lib-cluster\\x2dctl.mount\nWants=network-online.target\nConditionPathExists=");
    reveal_strlit("\n[Unit]\nDescription=Cluster control plane\nAfter=network-online.target var-lib-cluster\\x2dctl.mount\nWants=network-online.target\nConditionPathExists=");
    assert(". Session registry, rollout state, and the API the\n# web interface speaks to (§16.1).\n#\n# It binds the mesh loopback. `tailscale serve` publishes it with a real\n# certificate from the tailnet's CA, so nothing is opened on the management\n# plane and there is no password, session cookie, or auth code anywhere in\n# this repository (§16.2).\n\n[Unit]\nDescription=Cluster control plane\nAfter=network-online.target var-lib-cluster\\x2dctl.mount\nWants=network-online.target\nConditionPathExists="@.subrange(339, 486) =~= "\n[Unit]\nDescription=Cluster control plane\nAfter=network-online.target var-lib-cluster\\x2dctl.mount\nWants=network-online.target\nConditionPathExists="@);
}

proof fn lemma_control_plane_file_1()
    ensures
        is_head("\n\n[Service]\nType=simple\nEnvironment=CLUSTER_CTL_BIND="@, "\n"@),
{
    reveal(is_head);
    reveal_strlit("\n\n[Service]\nType=simple\nEnvironment=CLUSTER_CTL_BIND=");
    reveal_strlit("\n");
    assert("\n\n[Service]\nType=simple\nEnvironment=CLUSTER_CTL_BIND="@.subrange(0, 1) =~= "\n"@);
}

proof fn lemma_control_plane_file_2()
    ensures
        is_tail("\n\n[Service]\nType=simple\nEnvironment=CLUSTER_CTL_BIND="@, "\n[Service]\nType=simple\nEnvironment=CLUSTER_CTL_BIND="@),
{
    reveal(is_tail);
    reveal_strlit("\n\n[Service]\nType=simple\nEnvironment=CLUSTER_CTL_BIND=");
    reveal_strlit("\n[Service]\nType=simple\nEnvironment=CLUSTER_CTL_BIND=");
    assert("\n\n[Service]\nType=simple\nEnvironment=CLUSTER_CTL_BIND="@.subrange(1, 53) =~= "\n[Service]\nType=simple\nEnvironment=CLUSTER_CTL_BIND="@);
}

proof fn lemma_control_plane_file_3()
    ensures
        is_head("\nExecStart=/usr/bin/cluster-ctl serve\nRestart=always\nRestartSec=5\n\n[Install]\nWantedBy=multi-user.target\n\n"@, "\nExecStart=/usr/bin/cluster-ctl serve\nRestart=always\nRestartSec=5\n"@),
{
    reveal(is_head);
    reveal_strlit("\nExecStart=/usr/bin/cluster-ctl serve\nRestart=always\nRestartSec=5\n\n[Install]\nWantedBy=multi-user.target\n\n");
    reveal_strlit("\nExecStart=/usr/bin/cluster-ctl serve\nRestart=always\nRestartSec=5\n");
    assert("\nExecStart=/usr/bin/cluster-ctl serve\nRestart=always\nRestartSec=5\n\n[Install]\nWantedBy=multi-user.target\n\n"@.subrange(0, 66) =~= "\nExecStart=/usr/bin/cluster-ctl serve\nRestart=always\nRestartSec=5\n"@);
}

proof fn lemma_control_plane_file_4()
    ensures
        is_part("\nExecStart=/usr/bin/cluster-ctl serve\nRestart=always\nRestartSec=5\n\n[Install]\nWantedBy=multi-user.target\n\n"@, "\n[Install]\nWantedBy=multi-user.target\n"@),
{
    reveal(is_part);
    reveal_strlit("\nExecStart=/usr/bin/cluster-ctl serve\nRestart=always\nRestartSec=5\n\n[Install]\nWantedBy=multi-user.target\n\n");
    reveal_strlit("\n[Install]\nWantedBy=multi-user.target\n");
    assert("\nExecStart=/usr/bin/cluster-ctl serve\nRestart=always\nRestartSec=5\n\n[Install]\nWantedBy=multi-user.target\n\n"@.subrange(66, 104) =~= "\n[Install]\nWantedBy=multi-user.target\n"@);
    assert(occurs_at("\nExecStart=/usr/bin/cluster-ctl serve\nRestart=always\nRestartSec=5\n\n[Install]\nWantedBy=multi-user.target\n\n"@, "\n[Install]\nWantedBy=multi-user.target\n"@, 66));
}

/// The updater is told who its peers are, what a drain may take and where work may
/// move, setting by setting.
pub proof fn the_updater_is_told_its_limits(c: Cluster, out: Vec<Rendered>)
    requires
        call_ensures(render_all, (&c,), out),
    ensures
        ({
            let storage = storage(c);
            let r = c.policy.rollout;
            let d = c.policy.drain;
            let path = "node/cluster-updater.env"@;
            &&& shows(out@, path, "\nCLUSTER_PEERS="@ + join(peer_lines(c), ","@) + "\nCLUSTER_POLL_INTERVAL_S="@ + decimal(r.poll_interval_s as nat) + "\nCLUSTER_POLL_JITTER_S="@ + decimal(r.poll_jitter_max_s as nat) + "\nCLUSTER_RECHECK_BEFORE_APPLY_S="@ + decimal(r.recheck_before_apply_s as nat) + "\nCLUSTER_PEER_HEALTH_TIMEOUT_S="@ + decimal(r.peer_health_timeout_s as nat) + "\nCLUSTER_REGISTRIES="@ + join(views(r.registries@), ","@) + "\nCLUSTER_IMAGE="@ + r.image_repository@ + "/node\nCLUSTER_STABLE_TAG="@ + r.stable_tag@ + "\nCLUSTER_CONTROL_PLANE=http://"@ + storage.loopback + ":8080\n"@)
            &&& shows(out@, path, concat_all(budget_lines(c)) + "\n"@)
            &&& shows(out@, path, "\nCLUSTER_MIGRATION_TARGET="@ + d.migration_target@ + "\nCLUSTER_MIGRATION_MEMORY_CAP_GIB="@ + decimal(d.migration_memory_cap_gib as nat) + "\nCLUSTER_NEVER_RECEIVES="@ + join(views(d.never_receives@), ","@) + "\nCLUSTER_STOP_GRACE_S="@ + decimal(d.container_stop_grace_s as nat) + "\n"@)
        }),
{
    let storage = storage(c);
    let r = c.policy.rollout;
    let d = c.policy.drain;
    let file = updater_env_file(c);
    lemma_base_units(c);
    lemma_is_shown(c, out, file);
    let t0 = "# The rollout predicate's inputs, rendered from model/policy.toml and\n# model/cluster.toml. A node applies an update only when every earlier peer is\n# already on the target and healthy, and every later peer is healthy (§13.2).\n#\n# Which node this is, is not here: one image boots every ordinal, so the name,\n# the role and the position arrive at boot in /run/cluster/node.env (§8.4).\n\nCLUSTER_PEERS="@;
    let b0 = t0;
    let t1 = join(peer_lines(c), ","@);
    let b1 = b0 + t1;
    let t2 = "\nCLUSTER_POLL_INTERVAL_S="@;
    let b2 = b1 + t2;
    let t3 = decimal(r.poll_interval_s as nat);
    let b3 = b2 + t3;
    let t4 = "\nCLUSTER_POLL_JITTER_S="@;
    let b4 = b3 + t4;
    let t5 = decimal(r.poll_jitter_max_s as nat);
    let b5 = b4 + t5;
    let t6 = "\nCLUSTER_RECHECK_BEFORE_APPLY_S="@;
    let b6 = b5 + t6;
    let t7 = decimal(r.recheck_before_apply_s as nat);
    let b7 = b6 + t7;
    let t8 = "\nCLUSTER_PEER_HEALTH_TIMEOUT_S="@;
    let b8 = b7 + t8;
    let t9 = decimal(r.peer_health_timeout_s as nat);
    let b9 = b8 + t9;
    let t10 = "\nCLUSTER_REGISTRIES="@;
    let b10 = b9 + t10;
    let t11 = join(views(r.registries@), ","@);
    let b11 = b10 + t11;
    let t12 = "\nCLUSTER_IMAGE="@;
    let b12 = b11 + t12;
    let t13 = r.image_repository@;
    let b13 = b12 + t13;
    let t14 = "/node\nCLUSTER_STABLE_TAG="@;
    let b14 = b13 + t14;
    let t15 = r.stable_tag@;
    let b15 = b14 + t15;
    let t16 = "\nCLUSTER_CONTROL_PLANE=http://"@;
    let b16 = b15 + t16;
    let t17 = storage.loopback;
    let b17 = b16 + t17;
    let t18 = ":8080\n\n# Drain budgets (§14.4). A budget is never met by force: exceeding one\n# halts the rollout and asks for a human.\n"@;
    let b18 = b17 + t18;
    let t19 = concat_all(budget_lines(c));
    let b19 = b18 + t19;
    let t20 = "\n# Migration (§14.3).\nCLUSTER_MIGRATION_TARGET="@;
    let b20 = b19 + t20;
    let t21 = d.migration_target@;
    let b21 = b20 + t21;
    let t22 = "\nCLUSTER_MIGRATION_MEMORY_CAP_GIB="@;
    let b22 = b21 + t22;
    let t23 = decimal(d.migration_memory_cap_gib as nat);
    let b23 = b22 + t23;
    let t24 = "\nCLUSTER_NEVER_RECEIVES="@;
    let b24 = b23 + t24;
    let t25 = join(views(d.never_receives@), ","@);
    let b25 = b24 + t25;
    let t26 = "\nCLUSTER_STOP_GRACE_S="@;
    let b26 = b25 + t26;
    let t27 = decimal(d.container_stop_grace_s as nat);
    let b27 = b26 + t27;
    let t28 = "\n"@;
    let b28 = b27 + t28;
    lemma_updater_env_file_0();
    let q0 = "\nCLUSTER_PEERS="@;
    lemma_tail_grows(b0, q0, t1);
    let q1 = q0 + t1;
    lemma_tail_grows(b1, q1, t2);
    let q2 = q1 + t2;
    lemma_tail_grows(b2, q2, t3);
    let q3 = q2 + t3;
    lemma_tail_grows(b3, q3, t4);
    let q4 = q3 + t4;
    lemma_tail_grows(b4, q4, t5);
    let q5 = q4 + t5;
    lemma_tail_grows(b5, q5, t6);
    let q6 = q5 + t6;
    lemma_tail_grows(b6, q6, t7);
    let q7 = q6 + t7;
    lemma_tail_grows(b7, q7, t8);
    let q8 = q7 + t8;
    lemma_tail_grows(b8, q8, t9);
    let q9 = q8 + t9;
    lemma_tail_grows(b9, q9, t10);
    let q10 = q9 + t10;
    lemma_tail_grows(b10, q10, t11);
    let q11 = q10 + t11;
    lemma_tail_grows(b11, q11, t12);
    let q12 = q11 + t12;
    lemma_tail_grows(b12, q12, t13);
    let q13 = q12 + t13;
    lemma_tail_grows(b13, q13, t14);
    let q14 = q13 + t14;
    lemma_tail_grows(b14, q14, t15);
    let q15 = q14 + t15;
    lemma_tail_grows(b15, q15, t16);
    let q16 = q15 + t16;
    lemma_tail_grows(b16, q16, t17);
    let q17 = q16 + t17;
    lemma_updater_env_file_1();
    lemma_tail_is_cut(b17, q17, t18, ":8080\n"@);
    let text = q17 + ":8080\n"@;
    lemma_part_left(b18, t19, text);
    lemma_part_left(b19, t20, text);
    lemma_part_left(b20, t21, text);
    lemma_part_left(b21, t22, text);
    lemma_part_left(b22, t23, text);
    lemma_part_left(b23, t24, text);
    lemma_part_left(b24, t25, text);
    lemma_part_left(b25, t26, text);
    lemma_part_left(b26, t27, text);
    lemma_part_left(b27, t28, text);
    lemma_shows(out@, file, text);
    let q19 = t19;
    lemma_whole(t19);
    lemma_tail_right(b18, t19, q19);
    lemma_updater_env_file_2();
    lemma_tail_is_cut(b19, q19, t20, "\n"@);
    let text = q19 + "\n"@;
    lemma_part_left(b20, t21, text);
    lemma_part_left(b21, t22, text);
    lemma_part_left(b22, t23, text);
    lemma_part_left(b23, t24, text);
    lemma_part_left(b24, t25, text);
    lemma_part_left(b25, t26, text);
    lemma_part_left(b26, t27, text);
    lemma_part_left(b27, t28, text);
    lemma_shows(out@, file, text);
    lemma_updater_env_file_3();
    let q20 = "\nCLUSTER_MIGRATION_TARGET="@;
    lemma_tail_right(b19, t20, q20);
    lemma_tail_grows(b20, q20, t21);
    let q21 = q20 + t21;
    lemma_tail_grows(b21, q21, t22);
    let q22 = q21 + t22;
    lemma_tail_grows(b22, q22, t23);
    let q23 = q22 + t23;
    lemma_tail_grows(b23, q23, t24);
    let q24 = q23 + t24;
    lemma_tail_grows(b24, q24, t25);
    let q25 = q24 + t25;
    lemma_tail_grows(b25, q25, t26);
    let q26 = q25 + t26;
    lemma_tail_grows(b26, q26, t27);
    let q27 = q26 + t27;
    lemma_tail_grows(b27, q27, t28);
    let q28 = q27 + t28;
    let text = q28;
    lemma_shows(out@, file, text);
}

proof fn lemma_updater_env_file_0()
    ensures
        is_tail("# The rollout predicate's inputs, rendered from model/policy.toml and\n# model/cluster.toml. A node applies an update only when every earlier peer is\n# already on the target and healthy, and every later peer is healthy (§13.2).\n#\n# Which node this is, is not here: one image boots every ordinal, so the name,\n# the role and the position arrive at boot in /run/cluster/node.env (§8.4).\n\nCLUSTER_PEERS="@, "\nCLUSTER_PEERS="@),
{
    reveal(is_tail);
    reveal_strlit("# The rollout predicate's inputs, rendered from model/policy.toml and\n# model/cluster.toml. A node applies an update only when every earlier peer is\n# already on the target and healthy, and every later peer is healthy (§13.2).\n#\n# Which node this is, is not here: one image boots every ordinal, so the name,\n# the role and the position arrive at boot in /run/cluster/node.env (§8.4).\n\nCLUSTER_PEERS=");
    reveal_strlit("\nCLUSTER_PEERS=");
    assert("# The rollout predicate's inputs, rendered from model/policy.toml and\n# model/cluster.toml. A node applies an update only when every earlier peer is\n# already on the target and healthy, and every later peer is healthy (§13.2).\n#\n# Which node this is, is not here: one image boots every ordinal, so the name,\n# the role and the position arrive at boot in /run/cluster/node.env (§8.4).\n\nCLUSTER_PEERS="@.subrange(384, 399) =~= "\nCLUSTER_PEERS="@);
}

proof fn lemma_updater_env_file_1()
    ensures
        is_head(":8080\n\n# Drain budgets (§14.4). A budget is never met by force: exceeding one\n# halts the rollout and asks for a human.\n"@, ":8080\n"@),
{
    reveal(is_head);
    reveal_strlit(":8080\n\n# Drain budgets (§14.4). A budget is never met by force: exceeding one\n# halts the rollout and asks for a human.\n");
    reveal_strlit(":8080\n");
    assert(":8080\n\n# Drain budgets (§14.4). A budget is never met by force: exceeding one\n# halts the rollout and asks for a human.\n"@.subrange(0, 6) =~= ":8080\n"@);
}

proof fn lemma_updater_env_file_2()
    ensures
        is_head("\n# Migration (§14.3).\nCLUSTER_MIGRATION_TARGET="@, "\n"@),
{
    reveal(is_head);
    reveal_strlit("\n# Migration (§14.3).\nCLUSTER_MIGRATION_TARGET=");
    reveal_strlit("\n");
    assert("\n# Migration (§14.3).\nCLUSTER_MIGRATION_TARGET="@.subrange(0, 1) =~= "\n"@);
}

proof fn lemma_updater_env_file_3()
    ensures
        is_tail("\n# Migration (§14.3).\nCLUSTER_MIGRATION_TARGET="@, "\nCLUSTER_MIGRATION_TARGET="@),
{
    reveal(is_tail);
    reveal_strlit("\n# Migration (§14.3).\nCLUSTER_MIGRATION_TARGET=");
    reveal_strlit("\nCLUSTER_MIGRATION_TARGET=");
    assert("\n# Migration (§14.3).\nCLUSTER_MIGRATION_TARGET="@.subrange(21, 47) =~= "\nCLUSTER_MIGRATION_TARGET="@);
}

/// The updater runs with its environment, as one shot.
pub proof fn the_updater_runs_once_at_a_time(c: Cluster, out: Vec<Rendered>)
    requires
        call_ensures(render_all, (&c,), out),
    ensures
        ({
            let path = "node/systemd/cluster-updater.service"@;
            &&& shows(out@, path, "\n[Unit]\nDescription=Evaluate the rollout predicate and apply if admitted\nAfter=network-online.target\nWants=network-online.target\nConflicts=cluster-reclaim.service\n"@)
            &&& shows(out@, path, "\n[Service]\nType=oneshot\nEnvironmentFile=/usr/lib/cluster/cluster-updater.env\nEnvironmentFile=/run/cluster/node.env\nExecStart=/usr/bin/cluster-updater run\n"@)
        }),
{
    let file = updater_service_file(c);
    lemma_base_units(c);
    lemma_is_shown(c, out, file);
    let t0 = "# One shot of the rollout predicate. The timer below decides how often;\n# this unit decides nothing except what to run (§13.1).\n\n[Unit]\nDescription=Evaluate the rollout predicate and apply if admitted\nAfter=network-online.target\nWants=network-online.target\nConflicts=cluster-reclaim.service\n\n[Service]\nType=oneshot\nEnvironmentFile=/usr/lib/cluster/cluster-updater.env\nEnvironmentFile=/run/cluster/node.env\nExecStart=/usr/bin/cluster-updater run\n\n"@;
    let b0 = t0;
    lemma_updater_service_file_0();
    let text = "\n[Unit]\nDescription=Evaluate the rollout predicate and apply if admitted\nAfter=network-online.target\nWants=network-online.target\nConflicts=cluster-reclaim.service\n"@;
    lemma_shows(out@, file, text);
    lemma_updater_service_file_1();
    let text = "\n[Service]\nType=oneshot\nEnvironmentFile=/usr/lib/cluster/cluster-updater.env\nEnvironmentFile=/run/cluster/node.env\nExecStart=/usr/bin/cluster-updater run\n"@;
    lemma_shows(out@, file, text);
}

proof fn lemma_updater_service_file_0()
    ensures
        is_part("# One shot of the rollout predicate. The timer below decides how often;\n# this unit decides nothing except what to run (§13.1).\n\n[Unit]\nDescription=Evaluate the rollout predicate and apply if admitted\nAfter=network-online.target\nWants=network-online.target\nConflicts=cluster-reclaim.service\n\n[Service]\nType=oneshot\nEnvironmentFile=/usr/lib/cluster/cluster-updater.env\nEnvironmentFile=/run/cluster/node.env\nExecStart=/usr/bin/cluster-updater run\n\n"@, "\n[Unit]\nDescription=Evaluate the rollout predicate and apply if admitted\nAfter=network-online.target\nWants=network-online.target\nConflicts=cluster-reclaim.service\n"@),
{
    reveal(is_part);
    reveal_strlit("# One shot of the rollout predicate. The timer below decides how often;\n# this unit decides nothing except what to run (§13.1).\n\n[Unit]\nDescription=Evaluate the rollout predicate and apply if admitted\nAfter=network-online.target\nWants=network-online.target\nConflicts=cluster-reclaim.service\n\n[Service]\nType=oneshot\nEnvironmentFile=/usr/lib/cluster/cluster-updater.env\nEnvironmentFile=/run/cluster/node.env\nExecStart=/usr/bin/cluster-updater run\n\n");
    reveal_strlit("\n[Unit]\nDescription=Evaluate the rollout predicate and apply if admitted\nAfter=network-online.target\nWants=network-online.target\nConflicts=cluster-reclaim.service\n");
    assert("# One shot of the rollout predicate. The timer below decides how often;\n# this unit decides nothing except what to run (§13.1).\n\n[Unit]\nDescription=Evaluate the rollout predicate and apply if admitted\nAfter=network-online.target\nWants=network-online.target\nConflicts=cluster-reclaim.service\n\n[Service]\nType=oneshot\nEnvironmentFile=/usr/lib/cluster/cluster-updater.env\nEnvironmentFile=/run/cluster/node.env\nExecStart=/usr/bin/cluster-updater run\n\n"@.subrange(128, 291) =~= "\n[Unit]\nDescription=Evaluate the rollout predicate and apply if admitted\nAfter=network-online.target\nWants=network-online.target\nConflicts=cluster-reclaim.service\n"@);
    assert(occurs_at("# One shot of the rollout predicate. The timer below decides how often;\n# this unit decides nothing except what to run (§13.1).\n\n[Unit]\nDescription=Evaluate the rollout predicate and apply if admitted\nAfter=network-online.target\nWants=network-online.target\nConflicts=cluster-reclaim.service\n\n[Service]\nType=oneshot\nEnvironmentFile=/usr/lib/cluster/cluster-updater.env\nEnvironmentFile=/run/cluster/node.env\nExecStart=/usr/bin/cluster-updater run\n\n"@, "\n[Unit]\nDescription=Evaluate the rollout predicate and apply if admitted\nAfter=network-online.target\nWants=network-online.target\nConflicts=cluster-reclaim.service\n"@, 128));
}

proof fn lemma_updater_service_file_1()
    ensures
        is_part("# One shot of the rollout predicate. The timer below decides how often;\n# this unit decides nothing except what to run (§13.1).\n\n[Unit]\nDescription=Evaluate the rollout predicate and apply if admitted\nAfter=network-online.target\nWants=network-online.target\nConflicts=cluster-reclaim.service\n\n[Service]\nType=oneshot\nEnvironmentFile=/usr/lib/cluster/cluster-updater.env\nEnvironmentFile=/run/cluster/node.env\nExecStart=/usr/bin/cluster-updater run\n\n"@, "\n[Service]\nType=oneshot\nEnvironmentFile=/usr/lib/cluster/cluster-updater.env\nEnvironmentFile=/run/cluster/node.env\nExecStart=/usr/bin/cluster-updater run\n"@),
{
    reveal(is_part);
    reveal_strlit("# One shot of the rollout predicate. The timer below decides how often;\n# this unit decides nothing except what to run (§13.1).\n\n[Unit]\nDescription=Evaluate the rollout predicate and apply if admitted\nAfter=network-online.target\nWants=network-online.target\nConflicts=cluster-reclaim.service\n\n[Service]\nType=oneshot\nEnvironmentFile=/usr/lib/cluster/cluster-updater.env\nEnvironmentFile=/run/cluster/node.env\nExecStart=/usr/bin/cluster-updater run\n\n");
    reveal_strlit("\n[Service]\nType=oneshot\nEnvironmentFile=/usr/lib/cluster/cluster-updater.env\nEnvironmentFile=/run/cluster/node.env\nExecStart=/usr/bin/cluster-updater run\n");
    assert("# One shot of the rollout predicate. The timer below decides how often;\n# this unit decides nothing except what to run (§13.1).\n\n[Unit]\nDescription=Evaluate the rollout predicate and apply if admitted\nAfter=network-online.target\nWants=network-online.target\nConflicts=cluster-reclaim.service\n\n[Service]\nType=oneshot\nEnvironmentFile=/usr/lib/cluster/cluster-updater.env\nEnvironmentFile=/run/cluster/node.env\nExecStart=/usr/bin/cluster-updater run\n\n"@.subrange(291, 445) =~= "\n[Service]\nType=oneshot\nEnvironmentFile=/usr/lib/cluster/cluster-updater.env\nEnvironmentFile=/run/cluster/node.env\nExecStart=/usr/bin/cluster-updater run\n"@);
    assert(occurs_at("# One shot of the rollout predicate. The timer below decides how often;\n# this unit decides nothing except what to run (§13.1).\n\n[Unit]\nDescription=Evaluate the rollout predicate and apply if admitted\nAfter=network-online.target\nWants=network-online.target\nConflicts=cluster-reclaim.service\n\n[Service]\nType=oneshot\nEnvironmentFile=/usr/lib/cluster/cluster-updater.env\nEnvironmentFile=/run/cluster/node.env\nExecStart=/usr/bin/cluster-updater run\n\n"@, "\n[Service]\nType=oneshot\nEnvironmentFile=/usr/lib/cluster/cluster-updater.env\nEnvironmentFile=/run/cluster/node.env\nExecStart=/usr/bin/cluster-updater run\n"@, 291));
}

/// The updater wakes as often as the policy says.
pub proof fn the_updater_wakes_as_the_policy_says(c: Cluster, out: Vec<Rendered>)
    requires
        call_ensures(render_all, (&c,), out),
    ensures
        ({
            let r = c.policy.rollout;
            let path = "node/systemd/cluster-updater.timer"@;
            &&& shows(out@, path, "\n[Unit]\nDescription=Poll for a promoted image\n"@)
            &&& shows(out@, path, "\n[Timer]\nOnBootSec="@ + decimal(r.poll_interval_s as nat) + "\nOnUnitActiveSec="@ + decimal(r.poll_interval_s as nat) + "\nRandomizedDelaySec="@ + decimal(r.poll_jitter_max_s as nat) + "\nPersistent=true\n"@)
            &&& shows(out@, path, "\n[Install]\nWantedBy=timers.target\n"@)
        }),
{
    let r = c.policy.rollout;
    let file = updater_timer_file(c);
    lemma_base_units(c);
    lemma_is_shown(c, out, file);
    let t0 = "# Poll every "@;
    let b0 = t0;
    let t1 = decimal(r.poll_interval_s as nat);
    let b1 = b0 + t1;
    let t2 = "s with up to "@;
    let b2 = b1 + t2;
    let t3 = decimal(r.poll_jitter_max_s as nat);
    let b3 = b2 + t3;
    let t4 = "s of jitter. There is no webhook: nodes have\n# no inbound reachability from GitHub, and polling adds no attack surface\n# (§13.1). The jitter is what makes a simultaneous stale read unlikely\n# rather than merely improbable in theory (§13.2).\n\n[Unit]\nDescription=Poll for a promoted image\n\n[Timer]\nOnBootSec="@;
    let b4 = b3 + t4;
    let t5 = decimal(r.poll_interval_s as nat);
    let b5 = b4 + t5;
    let t6 = "\nOnUnitActiveSec="@;
    let b6 = b5 + t6;
    let t7 = decimal(r.poll_interval_s as nat);
    let b7 = b6 + t7;
    let t8 = "\nRandomizedDelaySec="@;
    let b8 = b7 + t8;
    let t9 = decimal(r.poll_jitter_max_s as nat);
    let b9 = b8 + t9;
    let t10 = "\nPersistent=true\n\n[Install]\nWantedBy=timers.target\n\n"@;
    let b10 = b9 + t10;
    lemma_updater_timer_file_0();
    lemma_part_right(b3, t4, "\n[Unit]\nDescription=Poll for a promoted image\n"@);
    let text = "\n[Unit]\nDescription=Poll for a promoted image\n"@;
    lemma_part_left(b4, t5, text);
    lemma_part_left(b5, t6, text);
    lemma_part_left(b6, t7, text);
    lemma_part_left(b7, t8, text);
    lemma_part_left(b8, t9, text);
    lemma_part_left(b9, t10, text);
    lemma_shows(out@, file, text);
    lemma_updater_timer_file_1();
    let q4 = "\n[Timer]\nOnBootSec="@;
    lemma_tail_right(b3, t4, q4);
    lemma_tail_grows(b4, q4, t5);
    let q5 = q4 + t5;
    lemma_tail_grows(b5, q5, t6);
    let q6 = q5 + t6;
    lemma_tail_grows(b6, q6, t7);
    let q7 = q6 + t7;
    lemma_tail_grows(b7, q7, t8);
    let q8 = q7 + t8;
    lemma_tail_grows(b8, q8, t9);
    let q9 = q8 + t9;
    lemma_updater_timer_file_2();
    lemma_tail_is_cut(b9, q9, t10, "\nPersistent=true\n"@);
    let text = q9 + "\nPersistent=true\n"@;
    lemma_shows(out@, file, text);
    lemma_updater_timer_file_3();
    lemma_part_right(b9, t10, "\n[Install]\nWantedBy=timers.target\n"@);
    let text = "\n[Install]\nWantedBy=timers.target\n"@;
    lemma_shows(out@, file, text);
}

proof fn lemma_updater_timer_file_0()
    ensures
        is_part("s of jitter. There is no webhook: nodes have\n# no inbound reachability from GitHub, and polling adds no attack surface\n# (§13.1). The jitter is what makes a simultaneous stale read unlikely\n# rather than merely improbable in theory (§13.2).\n\n[Unit]\nDescription=Poll for a promoted image\n\n[Timer]\nOnBootSec="@, "\n[Unit]\nDescription=Poll for a promoted image\n"@),
{
    reveal(is_part);
    reveal_strlit("s of jitter. There is no webhook: nodes have\n# no inbound reachability from GitHub, and polling adds no attack surface\n# (§13.1). The jitter is what makes a simultaneous stale read unlikely\n# rather than merely improbable in theory (§13.2).\n\n[Unit]\nDescription=Poll for a promoted image\n\n[Timer]\nOnBootSec=");
    reveal_strlit("\n[Unit]\nDescription=Poll for a promoted image\n");
    assert("s of jitter. There is no webhook: nodes have\n# no inbound reachability from GitHub, and polling adds no attack surface\n# (§13.1). The jitter is what makes a simultaneous stale read unlikely\n# rather than merely improbable in theory (§13.2).\n\n[Unit]\nDescription=Poll for a promoted image\n\n[Timer]\nOnBootSec="@.subrange(241, 287) =~= "\n[Unit]\nDescription=Poll for a promoted image\n"@);
    assert(occurs_at("s of jitter. There is no webhook: nodes have\n# no inbound reachability from GitHub, and polling adds no attack surface\n# (§13.1). The jitter is what makes a simultaneous stale read unlikely\n# rather than merely improbable in theory (§13.2).\n\n[Unit]\nDescription=Poll for a promoted image\n\n[Timer]\nOnBootSec="@, "\n[Unit]\nDescription=Poll for a promoted image\n"@, 241));
}

proof fn lemma_updater_timer_file_1()
    ensures
        is_tail("s of jitter. There is no webhook: nodes have\n# no inbound reachability from GitHub, and polling adds no attack surface\n# (§13.1). The jitter is what makes a simultaneous stale read unlikely\n# rather than merely improbable in theory (§13.2).\n\n[Unit]\nDescription=Poll for a promoted image\n\n[Timer]\nOnBootSec="@, "\n[Timer]\nOnBootSec="@),
{
    reveal(is_tail);
    reveal_strlit("s of jitter. There is no webhook: nodes have\n# no inbound reachability from GitHub, and polling adds no attack surface\n# (§13.1). The jitter is what makes a simultaneous stale read unlikely\n# rather than merely improbable in theory (§13.2).\n\n[Unit]\nDescription=Poll for a promoted image\n\n[Timer]\nOnBootSec=");
    reveal_strlit("\n[Timer]\nOnBootSec=");
    assert("s of jitter. There is no webhook: nodes have\n# no inbound reachability from GitHub, and polling adds no attack surface\n# (§13.1). The jitter is what makes a simultaneous stale read unlikely\n# rather than merely improbable in theory (§13.2).\n\n[Unit]\nDescription=Poll for a promoted image\n\n[Timer]\nOnBootSec="@.subrange(287, 306) =~= "\n[Timer]\nOnBootSec="@);
}

proof fn lemma_updater_timer_file_2()
    ensures
        is_head("\nPersistent=true\n\n[Install]\nWantedBy=timers.target\n\n"@, "\nPersistent=true\n"@),
{
    reveal(is_head);
    reveal_strlit("\nPersistent=true\n\n[Install]\nWantedBy=timers.target\n\n");
    reveal_strlit("\nPersistent=true\n");
    assert("\nPersistent=true\n\n[Install]\nWantedBy=timers.target\n\n"@.subrange(0, 17) =~= "\nPersistent=true\n"@);
}

proof fn lemma_updater_timer_file_3()
    ensures
        is_part("\nPersistent=true\n\n[Install]\nWantedBy=timers.target\n\n"@, "\n[Install]\nWantedBy=timers.target\n"@),
{
    reveal(is_part);
    reveal_strlit("\nPersistent=true\n\n[Install]\nWantedBy=timers.target\n\n");
    reveal_strlit("\n[Install]\nWantedBy=timers.target\n");
    assert("\nPersistent=true\n\n[Install]\nWantedBy=timers.target\n\n"@.subrange(17, 51) =~= "\n[Install]\nWantedBy=timers.target\n"@);
    assert(occurs_at("\nPersistent=true\n\n[Install]\nWantedBy=timers.target\n\n"@, "\n[Install]\nWantedBy=timers.target\n"@, 17));
}

/// Every node publishes its health.
pub proof fn a_node_publishes_its_health(c: Cluster, out: Vec<Rendered>)
    requires
        call_ensures(render_all, (&c,), out),
    ensures
        ({
            let path = "node/systemd/cluster-health.service"@;
            &&& shows(out@, path, "\n[Unit]\nDescription=Serve the cluster health predicate\nAfter=network-online.target\nWants=network-online.target\n"@)
            &&& shows(out@, path, "\n[Service]\nType=simple\nEnvironmentFile=/run/cluster/node.env\nExecStart=/usr/bin/cluster-health serve --bind ${CLUSTER_LOOPBACK}:"@ + decimal(c.policy.health.port as nat) + "\nRestart=always\nRestartSec=5\n"@)
            &&& shows(out@, path, "\n[Install]\nWantedBy=multi-user.target\n"@)
        }),
{
    let file = health_service_file(c);
    lemma_base_units(c);
    lemma_is_shown(c, out, file);
    let t0 = "# The health predicate, served on this machine's mesh loopback. This is how nodes\n# observe each other without a lock: §13.2's ordering is a pure function\n# of what every peer reports here (§10.1).\n\n[Unit]\nDescription=Serve the cluster health predicate\nAfter=network-online.target\nWants=network-online.target\n\n[Service]\nType=simple\nEnvironmentFile=/run/cluster/node.env\nExecStart=/usr/bin/cluster-health serve --bind ${CLUSTER_LOOPBACK}:"@;
    let b0 = t0;
    let t1 = decimal(c.policy.health.port as nat);
    let b1 = b0 + t1;
    let t2 = "\nRestart=always\nRestartSec=5\n\n[Install]\nWantedBy=multi-user.target\n\n"@;
    let b2 = b1 + t2;
    lemma_health_service_file_0();
    let text = "\n[Unit]\nDescription=Serve the cluster health predicate\nAfter=network-online.target\nWants=network-online.target\n"@;
    lemma_part_left(b0, t1, text);
    lemma_part_left(b1, t2, text);
    lemma_shows(out@, file, text);
    lemma_health_service_file_1();
    let q0 = "\n[Service]\nType=simple\nEnvironmentFile=/run/cluster/node.env\nExecStart=/usr/bin/cluster-health serve --bind ${CLUSTER_LOOPBACK}:"@;
    lemma_tail_grows(b0, q0, t1);
    let q1 = q0 + t1;
    lemma_health_service_file_2();
    lemma_tail_is_cut(b1, q1, t2, "\nRestart=always\nRestartSec=5\n"@);
    let text = q1 + "\nRestart=always\nRestartSec=5\n"@;
    lemma_shows(out@, file, text);
    lemma_health_service_file_3();
    lemma_part_right(b1, t2, "\n[Install]\nWantedBy=multi-user.target\n"@);
    let text = "\n[Install]\nWantedBy=multi-user.target\n"@;
    lemma_shows(out@, file, text);
}

proof fn lemma_health_service_file_0()
    ensures
        is_part("# The health predicate, served on this machine's mesh loopback. This is how nodes\n# observe each other without a lock: §13.2's ordering is a pure function\n# of what every peer reports here (§10.1).\n\n[Unit]\nDescription=Serve the cluster health predicate\nAfter=network-online.target\nWants=network-online.target\n\n[Service]\nType=simple\nEnvironmentFile=/run/cluster/node.env\nExecStart=/usr/bin/cluster-health serve --bind ${CLUSTER_LOOPBACK}:"@, "\n[Unit]\nDescription=Serve the cluster health predicate\nAfter=network-online.target\nWants=network-online.target\n"@),
{
    reveal(is_part);
    reveal_strlit("# The health predicate, served on this machine's mesh loopback. This is how nodes\n# observe each other without a lock: §13.2's ordering is a pure function\n# of what every peer reports here (§10.1).\n\n[Unit]\nDescription=Serve the cluster health predicate\nAfter=network-online.target\nWants=network-online.target\n\n[Service]\nType=simple\nEnvironmentFile=/run/cluster/node.env\nExecStart=/usr/bin/cluster-health serve --bind ${CLUSTER_LOOPBACK}:");
    reveal_strlit("\n[Unit]\nDescription=Serve the cluster health predicate\nAfter=network-online.target\nWants=network-online.target\n");
    assert("# The health predicate, served on this machine's mesh loopback. This is how nodes\n# observe each other without a lock: §13.2's ordering is a pure function\n# of what every peer reports here (§10.1).\n\n[Unit]\nDescription=Serve the cluster health predicate\nAfter=network-online.target\nWants=network-online.target\n\n[Service]\nType=simple\nEnvironmentFile=/run/cluster/node.env\nExecStart=/usr/bin/cluster-health serve --bind ${CLUSTER_LOOPBACK}:"@.subrange(198, 309) =~= "\n[Unit]\nDescription=Serve the cluster health predicate\nAfter=network-online.target\nWants=network-online.target\n"@);
    assert(occurs_at("# The health predicate, served on this machine's mesh loopback. This is how nodes\n# observe each other without a lock: §13.2's ordering is a pure function\n# of what every peer reports here (§10.1).\n\n[Unit]\nDescription=Serve the cluster health predicate\nAfter=network-online.target\nWants=network-online.target\n\n[Service]\nType=simple\nEnvironmentFile=/run/cluster/node.env\nExecStart=/usr/bin/cluster-health serve --bind ${CLUSTER_LOOPBACK}:"@, "\n[Unit]\nDescription=Serve the cluster health predicate\nAfter=network-online.target\nWants=network-online.target\n"@, 198));
}

proof fn lemma_health_service_file_1()
    ensures
        is_tail("# The health predicate, served on this machine's mesh loopback. This is how nodes\n# observe each other without a lock: §13.2's ordering is a pure function\n# of what every peer reports here (§10.1).\n\n[Unit]\nDescription=Serve the cluster health predicate\nAfter=network-online.target\nWants=network-online.target\n\n[Service]\nType=simple\nEnvironmentFile=/run/cluster/node.env\nExecStart=/usr/bin/cluster-health serve --bind ${CLUSTER_LOOPBACK}:"@, "\n[Service]\nType=simple\nEnvironmentFile=/run/cluster/node.env\nExecStart=/usr/bin/cluster-health serve --bind ${CLUSTER_LOOPBACK}:"@),
{
    reveal(is_tail);
    reveal_strlit("# The health predicate, served on this machine's mesh loopback. This is how nodes\n# observe each other without a lock: §13.2's ordering is a pure function\n# of what every peer reports here (§10.1).\n\n[Unit]\nDescription=Serve the cluster health predicate\nAfter=network-online.target\nWants=network-online.target\n\n[Service]\nType=simple\nEnvironmentFile=/run/cluster/node.env\nExecStart=/usr/bin/cluster-health serve --bind ${CLUSTER_LOOPBACK}:");
    reveal_strlit("\n[Service]\nType=simple\nEnvironmentFile=/run/cluster/node.env\nExecStart=/usr/bin/cluster-health serve --bind ${CLUSTER_LOOPBACK}:");
    assert("# The health predicate, served on this machine's mesh loopback. This is how nodes\n# observe each other without a lock: §13.2's ordering is a pure function\n# of what every peer reports here (§10.1).\n\n[Unit]\nDescription=Serve the cluster health predicate\nAfter=network-online.target\nWants=network-online.target\n\n[Service]\nType=simple\nEnvironmentFile=/run/cluster/node.env\nExecStart=/usr/bin/cluster-health serve --bind ${CLUSTER_LOOPBACK}:"@.subrange(309, 437) =~= "\n[Service]\nType=simple\nEnvironmentFile=/run/cluster/node.env\nExecStart=/usr/bin/cluster-health serve --bind ${CLUSTER_LOOPBACK}:"@);
}

proof fn lemma_health_service_file_2()
    ensures
        is_head("\nRestart=always\nRestartSec=5\n\n[Install]\nWantedBy=multi-user.target\n\n"@, "\nRestart=always\nRestartSec=5\n"@),
{
    reveal(is_head);
    reveal_strlit("\nRestart=always\nRestartSec=5\n\n[Install]\nWantedBy=multi-user.target\n\n");
    reveal_strlit("\nRestart=always\nRestartSec=5\n");
    assert("\nRestart=always\nRestartSec=5\n\n[Install]\nWantedBy=multi-user.target\n\n"@.subrange(0, 29) =~= "\nRestart=always\nRestartSec=5\n"@);
}

proof fn lemma_health_service_file_3()
    ensures
        is_part("\nRestart=always\nRestartSec=5\n\n[Install]\nWantedBy=multi-user.target\n\n"@, "\n[Install]\nWantedBy=multi-user.target\n"@),
{
    reveal(is_part);
    reveal_strlit("\nRestart=always\nRestartSec=5\n\n[Install]\nWantedBy=multi-user.target\n\n");
    reveal_strlit("\n[Install]\nWantedBy=multi-user.target\n");
    assert("\nRestart=always\nRestartSec=5\n\n[Install]\nWantedBy=multi-user.target\n\n"@.subrange(29, 67) =~= "\n[Install]\nWantedBy=multi-user.target\n"@);
    assert(occurs_at("\nRestart=always\nRestartSec=5\n\n[Install]\nWantedBy=multi-user.target\n\n"@, "\n[Install]\nWantedBy=multi-user.target\n"@, 29));
}

/// A boot that the health of the node does not vouch for fails.
pub proof fn a_boot_is_judged_by_its_health(c: Cluster, out: Vec<Rendered>)
    requires
        call_ensures(render_all, (&c,), out),
    ensures
        ({
            let storage = storage(c);
            let g = c.policy.greenboot;
            let path = "node/greenboot/"@ + split(g.check_path@, '/').last();
            &&& shows(out@, path, "#!/usr/bin/env bash\n"@)
            &&& shows(out@, path, "\nset -euo pipefail\n"@)
            &&& shows(out@, path, "\n. /run/cluster/node.env\n"@)
            &&& shows(out@, path, "\nif timeout "@ + decimal(g.deadline_s as nat) + "s /usr/bin/cluster-health check; then\n  exit 0\nfi\n"@)
            &&& shows(out@, path, "\ndigest=\"$(bootc status --json | jq -r '.status.booted.image.imageDigest')\"\ncurl --silent --show-error --max-time 10 \\\n  --request POST \"http://"@ + storage.loopback + ":8080/api/rollout/quarantine\" \\\n  --header 'content-type: application/json' \\\n  --data \"{\\\"digest\\\":\\\"${digest}\\\",\\\"node\\\":\\\"${CLUSTER_NODE}\\\"}\" || true\n"@)
            &&& shows(out@, path, "\nexit 1\n"@)
        }),
{
    let storage = storage(c);
    let g = c.policy.greenboot;
    let file = greenboot_file(c);
    lemma_base_units(c);
    lemma_is_shown(c, out, file);
    let t0 = "#!/usr/bin/env bash\n# greenboot's required check. The boot is declared successful only if\n# the health predicate passes within "@;
    let b0 = t0;
    let t1 = decimal(g.deadline_s as nat);
    let b1 = b0 + t1;
    let t2 = "s; on failure greenboot rolls back to\n# the previous ostree deployment and the node reboots into it (§13.3).\n#\n# This is not a mechanism this repository invents. It is cited (§20.1),\n# configured here, and tested in T2.\nset -euo pipefail\n\n. /run/cluster/node.env\n\nif timeout "@;
    let b2 = b1 + t2;
    let t3 = decimal(g.deadline_s as nat);
    let b3 = b2 + t3;
    let t4 = "s /usr/bin/cluster-health check; then\n  exit 0\nfi\n\n# The predicate failed. Record the digest as quarantined before the rollback\n# reboots us, so that no other node attempts it (§13.4). Quarantine is a\n# precondition in §13.2, which is what stops the rollout rather than merely\n# reporting on it.\ndigest=\"$(bootc status --json | jq -r '.status.booted.image.imageDigest')\"\ncurl --silent --show-error --max-time 10 \\\n  --request POST \"http://"@;
    let b4 = b3 + t4;
    let t5 = storage.loopback;
    let b5 = b4 + t5;
    let t6 = ":8080/api/rollout/quarantine\" \\\n  --header 'content-type: application/json' \\\n  --data \"{\\\"digest\\\":\\\"${digest}\\\",\\\"node\\\":\\\"${CLUSTER_NODE}\\\"}\" || true\n\nexit 1\n"@;
    let b6 = b5 + t6;
    lemma_greenboot_file_0();
    let text = "#!/usr/bin/env bash\n"@;
    lemma_part_left(b0, t1, text);
    lemma_part_left(b1, t2, text);
    lemma_part_left(b2, t3, text);
    lemma_part_left(b3, t4, text);
    lemma_part_left(b4, t5, text);
    lemma_part_left(b5, t6, text);
    lemma_shows(out@, file, text);
    lemma_greenboot_file_1();
    lemma_part_right(b1, t2, "\nset -euo pipefail\n"@);
    let text = "\nset -euo pipefail\n"@;
    lemma_part_left(b2, t3, text);
    lemma_part_left(b3, t4, text);
    lemma_part_left(b4, t5, text);
    lemma_part_left(b5, t6, text);
    lemma_shows(out@, file, text);
    lemma_greenboot_file_2();
    lemma_part_right(b1, t2, "\n. /run/cluster/node.env\n"@);
    let text = "\n. /run/cluster/node.env\n"@;
    lemma_part_left(b2, t3, text);
    lemma_part_left(b3, t4, text);
    lemma_part_left(b4, t5, text);
    lemma_part_left(b5, t6, text);
    lemma_shows(out@, file, text);
    lemma_greenboot_file_3();
    let q2 = "\nif timeout "@;
    lemma_tail_right(b1, t2, q2);
    lemma_tail_grows(b2, q2, t3);
    let q3 = q2 + t3;
    lemma_greenboot_file_4();
    lemma_tail_is_cut(b3, q3, t4, "s /usr/bin/cluster-health check; then\n  exit 0\nfi\n"@);
    let text = q3 + "s /usr/bin/cluster-health check; then\n  exit 0\nfi\n"@;
    lemma_part_left(b4, t5, text);
    lemma_part_left(b5, t6, text);
    lemma_shows(out@, file, text);
    lemma_greenboot_file_5();
    let q4 = "\ndigest=\"$(bootc status --json | jq -r '.status.booted.image.imageDigest')\"\ncurl --silent --show-error --max-time 10 \\\n  --request POST \"http://"@;
    lemma_tail_right(b3, t4, q4);
    lemma_tail_grows(b4, q4, t5);
    let q5 = q4 + t5;
    lemma_greenboot_file_6();
    lemma_tail_is_cut(b5, q5, t6, ":8080/api/rollout/quarantine\" \\\n  --header 'content-type: application/json' \\\n  --data \"{\\\"digest\\\":\\\"${digest}\\\",\\\"node\\\":\\\"${CLUSTER_NODE}\\\"}\" || true\n"@);
    let text = q5 + ":8080/api/rollout/quarantine\" \\\n  --header 'content-type: application/json' \\\n  --data \"{\\\"digest\\\":\\\"${digest}\\\",\\\"node\\\":\\\"${CLUSTER_NODE}\\\"}\" || true\n"@;
    lemma_shows(out@, file, text);
    lemma_greenboot_file_7();
    lemma_part_right(b5, t6, "\nexit 1\n"@);
    let text = "\nexit 1\n"@;
    lemma_shows(out@, file, text);
}

proof fn lemma_greenboot_file_0()
    ensures
        is_part("#!/usr/bin/env bash\n# greenboot's required check. The boot is declared successful only if\n# the health predicate passes within "@, "#!/usr/bin/env bash\n"@),
{
    reveal(is_part);
    reveal_strlit("#!/usr/bin/env bash\n# greenboot's required check. The boot is declared successful only if\n# the health predicate passes within ");
    reveal_strlit("#!/usr/bin/env bash\n");
    assert("#!/usr/bin/env bash\n# greenboot's required check. The boot is declared successful only if\n# the health predicate passes within "@.subrange(0, 20) =~= "#!/usr/bin/env bash\n"@);
    assert(occurs_at("#!/usr/bin/env bash\n# greenboot's required check. The boot is declared successful only if\n# the health predicate passes within "@, "#!/usr/bin/env bash\n"@, 0));
}

proof fn lemma_greenboot_file_1()
    ensures
        is_part("s; on failure greenboot rolls back to\n# the previous ostree deployment and the node reboots into it (§13.3).\n#\n# This is not a mechanism this repository invents. It is cited (§20.1),\n# configured here, and tested in T2.\nset -euo pipefail\n\n. /run/cluster/node.env\n\nif timeout "@, "\nset -euo pipefail\n"@),
{
    reveal(is_part);
    reveal_strlit("s; on failure greenboot rolls back to\n# the previous ostree deployment and the node reboots into it (§13.3).\n#\n# This is not a mechanism this repository invents. It is cited (§20.1),\n# configured here, and tested in T2.\nset -euo pipefail\n\n. /run/cluster/node.env\n\nif timeout ");
    reveal_strlit("\nset -euo pipefail\n");
    assert("s; on failure greenboot rolls back to\n# the previous ostree deployment and the node reboots into it (§13.3).\n#\n# This is not a mechanism this repository invents. It is cited (§20.1),\n# configured here, and tested in T2.\nset -euo pipefail\n\n. /run/cluster/node.env\n\nif timeout "@.subrange(219, 238) =~= "\nset -euo pipefail\n"@);
    assert(occurs_at("s; on failure greenboot rolls back to\n# the previous ostree deployment and the node reboots into it (§13.3).\n#\n# This is not a mechanism this repository invents. It is cited (§20.1),\n# configured here, and tested in T2.\nset -euo pipefail\n\n. /run/cluster/node.env\n\nif timeout "@, "\nset -euo pipefail\n"@, 219));
}

proof fn lemma_greenboot_file_2()
    ensures
        is_part("s; on failure greenboot rolls back to\n# the previous ostree deployment and the node reboots into it (§13.3).\n#\n# This is not a mechanism this repository invents. It is cited (§20.1),\n# configured here, and tested in T2.\nset -euo pipefail\n\n. /run/cluster/node.env\n\nif timeout "@, "\n. /run/cluster/node.env\n"@),
{
    reveal(is_part);
    reveal_strlit("s; on failure greenboot rolls back to\n# the previous ostree deployment and the node reboots into it (§13.3).\n#\n# This is not a mechanism this repository invents. It is cited (§20.1),\n# configured here, and tested in T2.\nset -euo pipefail\n\n. /run/cluster/node.env\n\nif timeout ");
    reveal_strlit("\n. /run/cluster/node.env\n");
    assert("s; on failure greenboot rolls back to\n# the previous ostree deployment and the node reboots into it (§13.3).\n#\n# This is not a mechanism this repository invents. It is cited (§20.1),\n# configured here, and tested in T2.\nset -euo pipefail\n\n. /run/cluster/node.env\n\nif timeout "@.subrange(238, 263) =~= "\n. /run/cluster/node.env\n"@);
    assert(occurs_at("s; on failure greenboot rolls back to\n# the previous ostree deployment and the node reboots into it (§13.3).\n#\n# This is not a mechanism this repository invents. It is cited (§20.1),\n# configured here, and tested in T2.\nset -euo pipefail\n\n. /run/cluster/node.env\n\nif timeout "@, "\n. /run/cluster/node.env\n"@, 238));
}

proof fn lemma_greenboot_file_3()
    ensures
        is_tail("s; on failure greenboot rolls back to\n# the previous ostree deployment and the node reboots into it (§13.3).\n#\n# This is not a mechanism this repository invents. It is cited (§20.1),\n# configured here, and tested in T2.\nset -euo pipefail\n\n. /run/cluster/node.env\n\nif timeout "@, "\nif timeout "@),
{
    reveal(is_tail);
    reveal_strlit("s; on failure greenboot rolls back to\n# the previous ostree deployment and the node reboots into it (§13.3).\n#\n# This is not a mechanism this repository invents. It is cited (§20.1),\n# configured here, and tested in T2.\nset -euo pipefail\n\n. /run/cluster/node.env\n\nif timeout ");
    reveal_strlit("\nif timeout ");
    assert("s; on failure greenboot rolls back to\n# the previous ostree deployment and the node reboots into it (§13.3).\n#\n# This is not a mechanism this repository invents. It is cited (§20.1),\n# configured here, and tested in T2.\nset -euo pipefail\n\n. /run/cluster/node.env\n\nif timeout "@.subrange(263, 275) =~= "\nif timeout "@);
}

proof fn lemma_greenboot_file_4()
    ensures
        is_head("s /usr/bin/cluster-health check; then\n  exit 0\nfi\n\n# The predicate failed. Record the digest as quarantined before the rollback\n# reboots us, so that no other node attempts it (§13.4). Quarantine is a\n# precondition in §13.2, which is what stops the rollout rather than merely\n# reporting on it.\ndigest=\"$(bootc status --json | jq -r '.status.booted.image.imageDigest')\"\ncurl --silent --show-error --max-time 10 \\\n  --request POST \"http://"@, "s /usr/bin/cluster-health check; then\n  exit 0\nfi\n"@),
{
    reveal(is_head);
    reveal_strlit("s /usr/bin/cluster-health check; then\n  exit 0\nfi\n\n# The predicate failed. Record the digest as quarantined before the rollback\n# reboots us, so that no other node attempts it (§13.4). Quarantine is a\n# precondition in §13.2, which is what stops the rollout rather than merely\n# reporting on it.\ndigest=\"$(bootc status --json | jq -r '.status.booted.image.imageDigest')\"\ncurl --silent --show-error --max-time 10 \\\n  --request POST \"http://");
    reveal_strlit("s /usr/bin/cluster-health check; then\n  exit 0\nfi\n");
    assert("s /usr/bin/cluster-health check; then\n  exit 0\nfi\n\n# The predicate failed. Record the digest as quarantined before the rollback\n# reboots us, so that no other node attempts it (§13.4). Quarantine is a\n# precondition in §13.2, which is what stops the rollout rather than merely\n# reporting on it.\ndigest=\"$(bootc status --json | jq -r '.status.booted.image.imageDigest')\"\ncurl --silent --show-error --max-time 10 \\\n  --request POST \"http://"@.subrange(0, 50) =~= "s /usr/bin/cluster-health check; then\n  exit 0\nfi\n"@);
}

proof fn lemma_greenboot_file_5()
    ensures
        is_tail("s /usr/bin/cluster-health check; then\n  exit 0\nfi\n\n# The predicate failed. Record the digest as quarantined before the rollback\n# reboots us, so that no other node attempts it (§13.4). Quarantine is a\n# precondition in §13.2, which is what stops the rollout rather than merely\n# reporting on it.\ndigest=\"$(bootc status --json | jq -r '.status.booted.image.imageDigest')\"\ncurl --silent --show-error --max-time 10 \\\n  --request POST \"http://"@, "\ndigest=\"$(bootc status --json | jq -r '.status.booted.image.imageDigest')\"\ncurl --silent --show-error --max-time 10 \\\n  --request POST \"http://"@),
{
    reveal(is_tail);
    reveal_strlit("s /usr/bin/cluster-health check; then\n  exit 0\nfi\n\n# The predicate failed. Record the digest as quarantined before the rollback\n# reboots us, so that no other node attempts it (§13.4). Quarantine is a\n# precondition in §13.2, which is what stops the rollout rather than merely\n# reporting on it.\ndigest=\"$(bootc status --json | jq -r '.status.booted.image.imageDigest')\"\ncurl --silent --show-error --max-time 10 \\\n  --request POST \"http://");
    reveal_strlit("\ndigest=\"$(bootc status --json | jq -r '.status.booted.image.imageDigest')\"\ncurl --silent --show-error --max-time 10 \\\n  --request POST \"http://");
    assert("s /usr/bin/cluster-health check; then\n  exit 0\nfi\n\n# The predicate failed. Record the digest as quarantined before the rollback\n# reboots us, so that no other node attempts it (§13.4). Quarantine is a\n# precondition in §13.2, which is what stops the rollout rather than merely\n# reporting on it.\ndigest=\"$(bootc status --json | jq -r '.status.booted.image.imageDigest')\"\ncurl --silent --show-error --max-time 10 \\\n  --request POST \"http://"@.subrange(295, 439) =~= "\ndigest=\"$(bootc status --json | jq -r '.status.booted.image.imageDigest')\"\ncurl --silent --show-error --max-time 10 \\\n  --request POST \"http://"@);
}

proof fn lemma_greenboot_file_6()
    ensures
        is_head(":8080/api/rollout/quarantine\" \\\n  --header 'content-type: application/json' \\\n  --data \"{\\\"digest\\\":\\\"${digest}\\\",\\\"node\\\":\\\"${CLUSTER_NODE}\\\"}\" || true\n\nexit 1\n"@, ":8080/api/rollout/quarantine\" \\\n  --header 'content-type: application/json' \\\n  --data \"{\\\"digest\\\":\\\"${digest}\\\",\\\"node\\\":\\\"${CLUSTER_NODE}\\\"}\" || true\n"@),
{
    reveal(is_head);
    reveal_strlit(":8080/api/rollout/quarantine\" \\\n  --header 'content-type: application/json' \\\n  --data \"{\\\"digest\\\":\\\"${digest}\\\",\\\"node\\\":\\\"${CLUSTER_NODE}\\\"}\" || true\n\nexit 1\n");
    reveal_strlit(":8080/api/rollout/quarantine\" \\\n  --header 'content-type: application/json' \\\n  --data \"{\\\"digest\\\":\\\"${digest}\\\",\\\"node\\\":\\\"${CLUSTER_NODE}\\\"}\" || true\n");
    assert(":8080/api/rollout/quarantine\" \\\n  --header 'content-type: application/json' \\\n  --data \"{\\\"digest\\\":\\\"${digest}\\\",\\\"node\\\":\\\"${CLUSTER_NODE}\\\"}\" || true\n\nexit 1\n"@.subrange(0, 153) =~= ":8080/api/rollout/quarantine\" \\\n  --header 'content-type: application/json' \\\n  --data \"{\\\"digest\\\":\\\"${digest}\\\",\\\"node\\\":\\\"${CLUSTER_NODE}\\\"}\" || true\n"@);
}

proof fn lemma_greenboot_file_7()
    ensures
        is_part(":8080/api/rollout/quarantine\" \\\n  --header 'content-type: application/json' \\\n  --data \"{\\\"digest\\\":\\\"${digest}\\\",\\\"node\\\":\\\"${CLUSTER_NODE}\\\"}\" || true\n\nexit 1\n"@, "\nexit 1\n"@),
{
    reveal(is_part);
    reveal_strlit(":8080/api/rollout/quarantine\" \\\n  --header 'content-type: application/json' \\\n  --data \"{\\\"digest\\\":\\\"${digest}\\\",\\\"node\\\":\\\"${CLUSTER_NODE}\\\"}\" || true\n\nexit 1\n");
    reveal_strlit("\nexit 1\n");
    assert(":8080/api/rollout/quarantine\" \\\n  --header 'content-type: application/json' \\\n  --data \"{\\\"digest\\\":\\\"${digest}\\\",\\\"node\\\":\\\"${CLUSTER_NODE}\\\"}\" || true\n\nexit 1\n"@.subrange(153, 161) =~= "\nexit 1\n"@);
    assert(occurs_at(":8080/api/rollout/quarantine\" \\\n  --header 'content-type: application/json' \\\n  --data \"{\\\"digest\\\":\\\"${digest}\\\",\\\"node\\\":\\\"${CLUSTER_NODE}\\\"}\" || true\n\nexit 1\n"@, "\nexit 1\n"@, 153));
}

/// Container images and deployments are collected as the policy says.
pub proof fn images_are_collected_by_age(c: Cluster, out: Vec<Rendered>)
    requires
        call_ensures(render_all, (&c,), out),
    ensures
        ({
            let gc = c.policy.gc;
            let path = "node/systemd/cluster-gc.service"@;
            &&& shows(out@, path, "\n[Unit]\nDescription=Reclaim container and registry storage\n"@)
            &&& shows(out@, path, "\n[Service]\nType=oneshot\nExecStart=/usr/bin/podman system prune --force --filter until="@ + decimal(gc.container_image_max_age_h as nat) + "h\nExecStart=/usr/bin/ostree admin prune --retain-only="@ + decimal(gc.ostree_deployments_retained as nat) + "\n"@ + measurement_text(c) + "ExecStart=/usr/bin/bash -c 'test ! -e "@ + marker(c.policy.drain.migration_target@) + " || exec /usr/libexec/cluster/zot-gc'\n"@)
        }),
{
    let gc = c.policy.gc;
    let file = gc_service_file(c);
    lemma_base_units(c);
    lemma_is_shown(c, out, file);
    let t0 = "# Retention (§5.5). Container images older than "@;
    let b0 = t0;
    let t1 = decimal(gc.container_image_max_age_h as nat);
    let b1 = b0 + t1;
    let t2 = "h, and on the registry\n# node an untagged manifest older than "@;
    let b2 = b1 + t2;
    let t3 = decimal(gc.registry_untagged_max_age_days as nat);
    let b3 = b2 + t3;
    let t4 = " days.\n\n[Unit]\nDescription=Reclaim container and registry storage\n\n[Service]\nType=oneshot\nExecStart=/usr/bin/podman system prune --force --filter until="@;
    let b4 = b3 + t4;
    let t5 = decimal(gc.container_image_max_age_h as nat);
    let b5 = b4 + t5;
    let t6 = "h\nExecStart=/usr/bin/ostree admin prune --retain-only="@;
    let b6 = b5 + t6;
    let t7 = decimal(gc.ostree_deployments_retained as nat);
    let b7 = b6 + t7;
    let t8 = "\n"@;
    let b8 = b7 + t8;
    let t9 = measurement_text(c);
    let b9 = b8 + t9;
    let t10 = "ExecStart=/usr/bin/bash -c 'test ! -e "@;
    let b10 = b9 + t10;
    let t11 = marker(c.policy.drain.migration_target@);
    let b11 = b10 + t11;
    let t12 = " || exec /usr/libexec/cluster/zot-gc'\n\n"@;
    let b12 = b11 + t12;
    lemma_gc_service_file_0();
    lemma_part_right(b3, t4, "\n[Unit]\nDescription=Reclaim container and registry storage\n"@);
    let text = "\n[Unit]\nDescription=Reclaim container and registry storage\n"@;
    lemma_part_left(b4, t5, text);
    lemma_part_left(b5, t6, text);
    lemma_part_left(b6, t7, text);
    lemma_part_left(b7, t8, text);
    lemma_part_left(b8, t9, text);
    lemma_part_left(b9, t10, text);
    lemma_part_left(b10, t11, text);
    lemma_part_left(b11, t12, text);
    lemma_shows(out@, file, text);
    lemma_gc_service_file_1();
    let q4 = "\n[Service]\nType=oneshot\nExecStart=/usr/bin/podman system prune --force --filter until="@;
    lemma_tail_right(b3, t4, q4);
    lemma_tail_grows(b4, q4, t5);
    let q5 = q4 + t5;
    lemma_tail_grows(b5, q5, t6);
    let q6 = q5 + t6;
    lemma_tail_grows(b6, q6, t7);
    let q7 = q6 + t7;
    lemma_tail_grows(b7, q7, t8);
    let q8 = q7 + t8;
    lemma_tail_grows(b8, q8, t9);
    let q9 = q8 + t9;
    lemma_tail_grows(b9, q9, t10);
    let q10 = q9 + t10;
    lemma_tail_grows(b10, q10, t11);
    let q11 = q10 + t11;
    lemma_gc_service_file_2();
    lemma_tail_is_cut(b11, q11, t12, " || exec /usr/libexec/cluster/zot-gc'\n"@);
    let text = q11 + " || exec /usr/libexec/cluster/zot-gc'\n"@;
    lemma_shows(out@, file, text);
}

proof fn lemma_gc_service_file_0()
    ensures
        is_part(" days.\n\n[Unit]\nDescription=Reclaim container and registry storage\n\n[Service]\nType=oneshot\nExecStart=/usr/bin/podman system prune --force --filter until="@, "\n[Unit]\nDescription=Reclaim container and registry storage\n"@),
{
    reveal(is_part);
    reveal_strlit(" days.\n\n[Unit]\nDescription=Reclaim container and registry storage\n\n[Service]\nType=oneshot\nExecStart=/usr/bin/podman system prune --force --filter until=");
    reveal_strlit("\n[Unit]\nDescription=Reclaim container and registry storage\n");
    assert(" days.\n\n[Unit]\nDescription=Reclaim container and registry storage\n\n[Service]\nType=oneshot\nExecStart=/usr/bin/podman system prune --force --filter until="@.subrange(7, 66) =~= "\n[Unit]\nDescription=Reclaim container and registry storage\n"@);
    assert(occurs_at(" days.\n\n[Unit]\nDescription=Reclaim container and registry storage\n\n[Service]\nType=oneshot\nExecStart=/usr/bin/podman system prune --force --filter until="@, "\n[Unit]\nDescription=Reclaim container and registry storage\n"@, 7));
}

proof fn lemma_gc_service_file_1()
    ensures
        is_tail(" days.\n\n[Unit]\nDescription=Reclaim container and registry storage\n\n[Service]\nType=oneshot\nExecStart=/usr/bin/podman system prune --force --filter until="@, "\n[Service]\nType=oneshot\nExecStart=/usr/bin/podman system prune --force --filter until="@),
{
    reveal(is_tail);
    reveal_strlit(" days.\n\n[Unit]\nDescription=Reclaim container and registry storage\n\n[Service]\nType=oneshot\nExecStart=/usr/bin/podman system prune --force --filter until=");
    reveal_strlit("\n[Service]\nType=oneshot\nExecStart=/usr/bin/podman system prune --force --filter until=");
    assert(" days.\n\n[Unit]\nDescription=Reclaim container and registry storage\n\n[Service]\nType=oneshot\nExecStart=/usr/bin/podman system prune --force --filter until="@.subrange(66, 152) =~= "\n[Service]\nType=oneshot\nExecStart=/usr/bin/podman system prune --force --filter until="@);
}

proof fn lemma_gc_service_file_2()
    ensures
        is_head(" || exec /usr/libexec/cluster/zot-gc'\n\n"@, " || exec /usr/libexec/cluster/zot-gc'\n"@),
{
    reveal(is_head);
    reveal_strlit(" || exec /usr/libexec/cluster/zot-gc'\n\n");
    reveal_strlit(" || exec /usr/libexec/cluster/zot-gc'\n");
    assert(" || exec /usr/libexec/cluster/zot-gc'\n\n"@.subrange(0, 38) =~= " || exec /usr/libexec/cluster/zot-gc'\n"@);
}

/// Collection runs as often as the policy says.
pub proof fn collection_runs_as_the_policy_says(c: Cluster, out: Vec<Rendered>)
    requires
        call_ensures(render_all, (&c,), out),
    ensures
        ({
            let gc = c.policy.gc;
            let path = "node/systemd/cluster-gc.timer"@;
            &&& shows(out@, path, "\n[Unit]\nDescription=Storage reclamation schedule\n"@)
            &&& shows(out@, path, "\n[Timer]\nOnCalendar="@ + gc.schedule@ + "\nRandomizedDelaySec=3600\nPersistent=true\n"@)
            &&& shows(out@, path, "\n[Install]\nWantedBy=timers.target\n"@)
        }),
{
    let gc = c.policy.gc;
    let file = gc_timer_file(c);
    lemma_base_units(c);
    lemma_is_shown(c, out, file);
    let t0 = "# "@;
    let b0 = t0;
    let t1 = gc.schedule@;
    let b1 = b0 + t1;
    let t2 = " (§5.5).\n\n[Unit]\nDescription=Storage reclamation schedule\n\n[Timer]\nOnCalendar="@;
    let b2 = b1 + t2;
    let t3 = gc.schedule@;
    let b3 = b2 + t3;
    let t4 = "\nRandomizedDelaySec=3600\nPersistent=true\n\n[Install]\nWantedBy=timers.target\n\n"@;
    let b4 = b3 + t4;
    lemma_gc_timer_file_0();
    lemma_part_right(b1, t2, "\n[Unit]\nDescription=Storage reclamation schedule\n"@);
    let text = "\n[Unit]\nDescription=Storage reclamation schedule\n"@;
    lemma_part_left(b2, t3, text);
    lemma_part_left(b3, t4, text);
    lemma_shows(out@, file, text);
    lemma_gc_timer_file_1();
    let q2 = "\n[Timer]\nOnCalendar="@;
    lemma_tail_right(b1, t2, q2);
    lemma_tail_grows(b2, q2, t3);
    let q3 = q2 + t3;
    lemma_gc_timer_file_2();
    lemma_tail_is_cut(b3, q3, t4, "\nRandomizedDelaySec=3600\nPersistent=true\n"@);
    let text = q3 + "\nRandomizedDelaySec=3600\nPersistent=true\n"@;
    lemma_shows(out@, file, text);
    lemma_gc_timer_file_3();
    lemma_part_right(b3, t4, "\n[Install]\nWantedBy=timers.target\n"@);
    let text = "\n[Install]\nWantedBy=timers.target\n"@;
    lemma_shows(out@, file, text);
}

proof fn lemma_gc_timer_file_0()
    ensures
        is_part(" (§5.5).\n\n[Unit]\nDescription=Storage reclamation schedule\n\n[Timer]\nOnCalendar="@, "\n[Unit]\nDescription=Storage reclamation schedule\n"@),
{
    reveal(is_part);
    reveal_strlit(" (§5.5).\n\n[Unit]\nDescription=Storage reclamation schedule\n\n[Timer]\nOnCalendar=");
    reveal_strlit("\n[Unit]\nDescription=Storage reclamation schedule\n");
    assert(" (§5.5).\n\n[Unit]\nDescription=Storage reclamation schedule\n\n[Timer]\nOnCalendar="@.subrange(9, 58) =~= "\n[Unit]\nDescription=Storage reclamation schedule\n"@);
    assert(occurs_at(" (§5.5).\n\n[Unit]\nDescription=Storage reclamation schedule\n\n[Timer]\nOnCalendar="@, "\n[Unit]\nDescription=Storage reclamation schedule\n"@, 9));
}

proof fn lemma_gc_timer_file_1()
    ensures
        is_tail(" (§5.5).\n\n[Unit]\nDescription=Storage reclamation schedule\n\n[Timer]\nOnCalendar="@, "\n[Timer]\nOnCalendar="@),
{
    reveal(is_tail);
    reveal_strlit(" (§5.5).\n\n[Unit]\nDescription=Storage reclamation schedule\n\n[Timer]\nOnCalendar=");
    reveal_strlit("\n[Timer]\nOnCalendar=");
    assert(" (§5.5).\n\n[Unit]\nDescription=Storage reclamation schedule\n\n[Timer]\nOnCalendar="@.subrange(58, 78) =~= "\n[Timer]\nOnCalendar="@);
}

proof fn lemma_gc_timer_file_2()
    ensures
        is_head("\nRandomizedDelaySec=3600\nPersistent=true\n\n[Install]\nWantedBy=timers.target\n\n"@, "\nRandomizedDelaySec=3600\nPersistent=true\n"@),
{
    reveal(is_head);
    reveal_strlit("\nRandomizedDelaySec=3600\nPersistent=true\n\n[Install]\nWantedBy=timers.target\n\n");
    reveal_strlit("\nRandomizedDelaySec=3600\nPersistent=true\n");
    assert("\nRandomizedDelaySec=3600\nPersistent=true\n\n[Install]\nWantedBy=timers.target\n\n"@.subrange(0, 41) =~= "\nRandomizedDelaySec=3600\nPersistent=true\n"@);
}

proof fn lemma_gc_timer_file_3()
    ensures
        is_part("\nRandomizedDelaySec=3600\nPersistent=true\n\n[Install]\nWantedBy=timers.target\n\n"@, "\n[Install]\nWantedBy=timers.target\n"@),
{
    reveal(is_part);
    reveal_strlit("\nRandomizedDelaySec=3600\nPersistent=true\n\n[Install]\nWantedBy=timers.target\n\n");
    reveal_strlit("\n[Install]\nWantedBy=timers.target\n");
    assert("\nRandomizedDelaySec=3600\nPersistent=true\n\n[Install]\nWantedBy=timers.target\n\n"@.subrange(41, 75) =~= "\n[Install]\nWantedBy=timers.target\n"@);
    assert(occurs_at("\nRandomizedDelaySec=3600\nPersistent=true\n\n[Install]\nWantedBy=timers.target\n\n"@, "\n[Install]\nWantedBy=timers.target\n"@, 41));
}

/// Reclamation asks the control plane, on the node that work migrates to.
pub proof fn reclamation_asks_the_control_plane(c: Cluster, out: Vec<Rendered>)
    requires
        call_ensures(render_all, (&c,), out),
    ensures
        ({
            let r = c.policy.reclaim;
            let path = "node/systemd/cluster-reclaim.service"@;
            &&& shows(out@, path, "\n[Unit]\nDescription=Reclaim idle devcontainer sessions\nConflicts=cluster-updater.service\nConditionPathExists="@ + marker(c.policy.drain.migration_target@) + "\n"@)
            &&& shows(out@, path, "\n[Service]\nType=oneshot\nExecStart=/usr/bin/cluster-ctl reclaim run\n"@)
        }),
{
    let r = c.policy.reclaim;
    let file = reclaim_service_file(c);
    lemma_base_units(c);
    lemma_is_shown(c, out, file);
    let t0 = "# Devcontainer reclamation (§15.3). Notify at "@;
    let b0 = t0;
    let t1 = decimal(r.notify_after_days as nat);
    let b1 = b0 + t1;
    let t2 = " days, archive at "@;
    let b2 = b1 + t2;
    let t3 = decimal(r.archive_after_days as nat);
    let b3 = b2 + t3;
    let t4 = ", purge\n# at "@;
    let b4 = b3 + t4;
    let t5 = decimal(r.purge_after_days as nat);
    let b5 = b4 + t5;
    let t6 = " --- and never purge a dirty workspace. Deleting someone's uncommitted\n# work because a timer expired is a betrayal, and a system that does it once\n# is never trusted again (§15.2).\n\n[Unit]\nDescription=Reclaim idle devcontainer sessions\nConflicts=cluster-updater.service\nConditionPathExists="@;
    let b6 = b5 + t6;
    let t7 = marker(c.policy.drain.migration_target@);
    let b7 = b6 + t7;
    let t8 = "\n\n[Service]\nType=oneshot\nExecStart=/usr/bin/cluster-ctl reclaim run\n\n"@;
    let b8 = b7 + t8;
    lemma_reclaim_service_file_0();
    let q6 = "\n[Unit]\nDescription=Reclaim idle devcontainer sessions\nConflicts=cluster-updater.service\nConditionPathExists="@;
    lemma_tail_right(b5, t6, q6);
    lemma_tail_grows(b6, q6, t7);
    let q7 = q6 + t7;
    lemma_reclaim_service_file_1();
    lemma_tail_is_cut(b7, q7, t8, "\n"@);
    let text = q7 + "\n"@;
    lemma_shows(out@, file, text);
    lemma_reclaim_service_file_2();
    lemma_part_right(b7, t8, "\n[Service]\nType=oneshot\nExecStart=/usr/bin/cluster-ctl reclaim run\n"@);
    let text = "\n[Service]\nType=oneshot\nExecStart=/usr/bin/cluster-ctl reclaim run\n"@;
    lemma_shows(out@, file, text);
}

proof fn lemma_reclaim_service_file_0()
    ensures
        is_tail(" --- and never purge a dirty workspace. Deleting someone's uncommitted\n# work because a timer expired is a betrayal, and a system that does it once\n# is never trusted again (§15.2).\n\n[Unit]\nDescription=Reclaim idle devcontainer sessions\nConflicts=cluster-updater.service\nConditionPathExists="@, "\n[Unit]\nDescription=Reclaim idle devcontainer sessions\nConflicts=cluster-updater.service\nConditionPathExists="@),
{
    reveal(is_tail);
    reveal_strlit(" --- and never purge a dirty workspace. Deleting someone's uncommitted\n# work because a timer expired is a betrayal, and a system that does it once\n# is never trusted again (§15.2).\n\n[Unit]\nDescription=Reclaim idle devcontainer sessions\nConflicts=cluster-updater.service\nConditionPathExists=");
    reveal_strlit("\n[Unit]\nDescription=Reclaim idle devcontainer sessions\nConflicts=cluster-updater.service\nConditionPathExists=");
    assert(" --- and never purge a dirty workspace. Deleting someone's uncommitted\n# work because a timer expired is a betrayal, and a system that does it once\n# is never trusted again (§15.2).\n\n[Unit]\nDescription=Reclaim idle devcontainer sessions\nConflicts=cluster-updater.service\nConditionPathExists="@.subrange(182, 291) =~= "\n[Unit]\nDescription=Reclaim idle devcontainer sessions\nConflicts=cluster-updater.service\nConditionPathExists="@);
}

proof fn lemma_reclaim_service_file_1()
    ensures
        is_head("\n\n[Service]\nType=oneshot\nExecStart=/usr/bin/cluster-ctl reclaim run\n\n"@, "\n"@),
{
    reveal(is_head);
    reveal_strlit("\n\n[Service]\nType=oneshot\nExecStart=/usr/bin/cluster-ctl reclaim run\n\n");
    reveal_strlit("\n");
    assert("\n\n[Service]\nType=oneshot\nExecStart=/usr/bin/cluster-ctl reclaim run\n\n"@.subrange(0, 1) =~= "\n"@);
}

proof fn lemma_reclaim_service_file_2()
    ensures
        is_part("\n\n[Service]\nType=oneshot\nExecStart=/usr/bin/cluster-ctl reclaim run\n\n"@, "\n[Service]\nType=oneshot\nExecStart=/usr/bin/cluster-ctl reclaim run\n"@),
{
    reveal(is_part);
    reveal_strlit("\n\n[Service]\nType=oneshot\nExecStart=/usr/bin/cluster-ctl reclaim run\n\n");
    reveal_strlit("\n[Service]\nType=oneshot\nExecStart=/usr/bin/cluster-ctl reclaim run\n");
    assert("\n\n[Service]\nType=oneshot\nExecStart=/usr/bin/cluster-ctl reclaim run\n\n"@.subrange(1, 68) =~= "\n[Service]\nType=oneshot\nExecStart=/usr/bin/cluster-ctl reclaim run\n"@);
    assert(occurs_at("\n\n[Service]\nType=oneshot\nExecStart=/usr/bin/cluster-ctl reclaim run\n\n"@, "\n[Service]\nType=oneshot\nExecStart=/usr/bin/cluster-ctl reclaim run\n"@, 1));
}

/// Reclamation runs as often as the policy says.
pub proof fn reclamation_runs_as_the_policy_says(c: Cluster, out: Vec<Rendered>)
    requires
        call_ensures(render_all, (&c,), out),
    ensures
        ({
            let r = c.policy.reclaim;
            let path = "node/systemd/cluster-reclaim.timer"@;
            &&& shows(out@, path, "\n[Unit]\nDescription=Devcontainer reclamation schedule\nConditionPathExists="@ + marker(c.policy.drain.migration_target@) + "\n"@)
            &&& shows(out@, path, "\n[Timer]\nOnCalendar="@ + r.schedule@ + "\nPersistent=true\n"@)
            &&& shows(out@, path, "\n[Install]\nWantedBy=timers.target\n"@)
        }),
{
    let r = c.policy.reclaim;
    let file = reclaim_timer_file(c);
    lemma_base_units(c);
    lemma_is_shown(c, out, file);
    let t0 = "# "@;
    let b0 = t0;
    let t1 = r.schedule@;
    let b1 = b0 + t1;
    let t2 = " (§15.3).\n\n[Unit]\nDescription=Devcontainer reclamation schedule\nConditionPathExists="@;
    let b2 = b1 + t2;
    let t3 = marker(c.policy.drain.migration_target@);
    let b3 = b2 + t3;
    let t4 = "\n\n[Timer]\nOnCalendar="@;
    let b4 = b3 + t4;
    let t5 = r.schedule@;
    let b5 = b4 + t5;
    let t6 = "\nPersistent=true\n\n[Install]\nWantedBy=timers.target\n\n"@;
    let b6 = b5 + t6;
    lemma_reclaim_timer_file_0();
    let q2 = "\n[Unit]\nDescription=Devcontainer reclamation schedule\nConditionPathExists="@;
    lemma_tail_right(b1, t2, q2);
    lemma_tail_grows(b2, q2, t3);
    let q3 = q2 + t3;
    lemma_reclaim_timer_file_1();
    lemma_tail_is_cut(b3, q3, t4, "\n"@);
    let text = q3 + "\n"@;
    lemma_part_left(b4, t5, text);
    lemma_part_left(b5, t6, text);
    lemma_shows(out@, file, text);
    lemma_reclaim_timer_file_2();
    let q4 = "\n[Timer]\nOnCalendar="@;
    lemma_tail_right(b3, t4, q4);
    lemma_tail_grows(b4, q4, t5);
    let q5 = q4 + t5;
    lemma_reclaim_timer_file_3();
    lemma_tail_is_cut(b5, q5, t6, "\nPersistent=true\n"@);
    let text = q5 + "\nPersistent=true\n"@;
    lemma_shows(out@, file, text);
    lemma_reclaim_timer_file_4();
    lemma_part_right(b5, t6, "\n[Install]\nWantedBy=timers.target\n"@);
    let text = "\n[Install]\nWantedBy=timers.target\n"@;
    lemma_shows(out@, file, text);
}

proof fn lemma_reclaim_timer_file_0()
    ensures
        is_tail(" (§15.3).\n\n[Unit]\nDescription=Devcontainer reclamation schedule\nConditionPathExists="@, "\n[Unit]\nDescription=Devcontainer reclamation schedule\nConditionPathExists="@),
{
    reveal(is_tail);
    reveal_strlit(" (§15.3).\n\n[Unit]\nDescription=Devcontainer reclamation schedule\nConditionPathExists=");
    reveal_strlit("\n[Unit]\nDescription=Devcontainer reclamation schedule\nConditionPathExists=");
    assert(" (§15.3).\n\n[Unit]\nDescription=Devcontainer reclamation schedule\nConditionPathExists="@.subrange(10, 84) =~= "\n[Unit]\nDescription=Devcontainer reclamation schedule\nConditionPathExists="@);
}

proof fn lemma_reclaim_timer_file_1()
    ensures
        is_head("\n\n[Timer]\nOnCalendar="@, "\n"@),
{
    reveal(is_head);
    reveal_strlit("\n\n[Timer]\nOnCalendar=");
    reveal_strlit("\n");
    assert("\n\n[Timer]\nOnCalendar="@.subrange(0, 1) =~= "\n"@);
}

proof fn lemma_reclaim_timer_file_2()
    ensures
        is_tail("\n\n[Timer]\nOnCalendar="@, "\n[Timer]\nOnCalendar="@),
{
    reveal(is_tail);
    reveal_strlit("\n\n[Timer]\nOnCalendar=");
    reveal_strlit("\n[Timer]\nOnCalendar=");
    assert("\n\n[Timer]\nOnCalendar="@.subrange(1, 21) =~= "\n[Timer]\nOnCalendar="@);
}

proof fn lemma_reclaim_timer_file_3()
    ensures
        is_head("\nPersistent=true\n\n[Install]\nWantedBy=timers.target\n\n"@, "\nPersistent=true\n"@),
{
    reveal(is_head);
    reveal_strlit("\nPersistent=true\n\n[Install]\nWantedBy=timers.target\n\n");
    reveal_strlit("\nPersistent=true\n");
    assert("\nPersistent=true\n\n[Install]\nWantedBy=timers.target\n\n"@.subrange(0, 17) =~= "\nPersistent=true\n"@);
}

proof fn lemma_reclaim_timer_file_4()
    ensures
        is_part("\nPersistent=true\n\n[Install]\nWantedBy=timers.target\n\n"@, "\n[Install]\nWantedBy=timers.target\n"@),
{
    reveal(is_part);
    reveal_strlit("\nPersistent=true\n\n[Install]\nWantedBy=timers.target\n\n");
    reveal_strlit("\n[Install]\nWantedBy=timers.target\n");
    assert("\nPersistent=true\n\n[Install]\nWantedBy=timers.target\n\n"@.subrange(17, 51) =~= "\n[Install]\nWantedBy=timers.target\n"@);
    assert(occurs_at("\nPersistent=true\n\n[Install]\nWantedBy=timers.target\n\n"@, "\n[Install]\nWantedBy=timers.target\n"@, 17));
}

/// The units of a role are given.
proof fn lemma_role_units(c: Cluster, r: int, n: int, file: File)
    requires
        0 <= r < n <= c.cluster.role@.len(),
        agent_part(c, c.cluster.role@[r]).contains(file) || isolation_part(
            c,
            c.cluster.role@[r],
        ).contains(file),
    ensures
        role_units(c, n).contains(file),
    decreases n,
{
    let role = c.cluster.role@[n - 1];
    let before = role_units(c, n - 1);
    if r < n - 1 {
        lemma_role_units(c, r, n - 1, file);
    }
    if before.contains(file) || agent_part(c, role).contains(file) {
        lemma_in_either(before, agent_part(c, role), file);
    }
    lemma_in_either(before + agent_part(c, role), isolation_part(c, role), file);
}

proof fn lemma_agent_given(c: Cluster, r: int, variant: Variant, n: int)
    requires
        0 <= r < c.cluster.role@.len(),
        row(c.images.variant@, c.cluster.role@[r].id@) == Some(variant),
        0 <= n < variant.services@.len(),
        variant.services@[n]@ == "devcontainer-agent.service"@,
    ensures
        is_ours(c, agent_file(c, c.cluster.role@[r], variant)),
{
    reveal(is_ours);
    let file = agent_file(c, c.cluster.role@[r], variant);
    assert(listed(variant.services@, "devcontainer-agent.service"@));
    assert(agent_part(c, c.cluster.role@[r])[0] == file);
    assert(agent_part(c, c.cluster.role@[r]).contains(file));
    lemma_role_units(c, r, c.cluster.role@.len() as int, file);
    lemma_in_either(base_unit_files(c), role_units(c, c.cluster.role@.len() as int), file);
}

proof fn lemma_isolation_given(c: Cluster, r: int, variant: Variant, isolation: Isolation)
    requires
        0 <= r < c.cluster.role@.len(),
        row(c.images.variant@, c.cluster.role@[r].id@) == Some(variant),
        variant.isolation == Some(isolation),
    ensures
        is_ours(c, isolation_file(c.cluster.role@[r], isolation)),
{
    reveal(is_ours);
    let file = isolation_file(c.cluster.role@[r], isolation);
    assert(isolation_part(c, c.cluster.role@[r])[0] == file);
    assert(isolation_part(c, c.cluster.role@[r]).contains(file));
    lemma_role_units(c, r, c.cluster.role@.len() as int, file);
    lemma_in_either(base_unit_files(c), role_units(c, c.cluster.role@.len() as int), file);
}

/// The agent of a role binds the loopback of its own node, speaks to the runtime of
/// its variant and to the control plane, and waits for its role.
pub proof fn an_agent_serves_its_own_node(c: Cluster, out: Vec<Rendered>, r: int, variant: Variant, n: int)
    requires
        call_ensures(render_all, (&c,), out),
        0 <= r < c.cluster.role@.len(),
        row(c.images.variant@, c.cluster.role@[r].id@) == Some(variant),
        0 <= n < variant.services@.len(),
        variant.services@[n]@ == "devcontainer-agent.service"@,
    ensures
        ({
            let role = c.cluster.role@[r];
            let storage = storage(c);
            let slot = slot_with_role(c.slots_spec(), role.id@, 0).unwrap();
            let runtime = row(c.images.runtime@, variant.runtime@).unwrap();
            let t = c.policy.tunnel;
            let path = agent_path(c, role);
            &&& shows(out@, path, "\n[Unit]\nDescription=Devcontainer agent\nAfter=network-online.target remote-fs.target\nWants=network-online.target\nConditionPathExists="@ + marker(role.id@) + "\n"@)
            &&& shows(out@, path, "\n[Service]\nType=simple\nEnvironment=AGENT_BIND="@ + slot.loopback + ":8081\nEnvironment=AGENT_NODE="@ + slot.name + "\nEnvironment=AGENT_WORKSPACES=/var/lib/devcontainers\nEnvironment=AGENT_HOME=/var/lib/devcontainer-home\nEnvironment=DOCKER_HOST="@ + runtime.docker_host@ + "\nEnvironment=AGENT_CONTROL_PLANE=http://"@ + storage.loopback + ":8080\nEnvironment=AGENT_STOP_GRACE_S="@ + decimal(c.policy.drain.container_stop_grace_s as nat) + "\nEnvironment=AGENT_FEATURES="@ + join(views(variant.features@), ","@) + "\nEnvironment=AGENT_TUNNEL_PREFIX="@ + t.name_prefix@ + "\nEnvironment=AGENT_TUNNEL_URL_TEMPLATE="@ + t.url_template@ + "\nEnvironment=AGENT_TUNNEL_BACKOFF_INITIAL_S="@ + decimal(t.restart_backoff_initial_s as nat) + "\nEnvironment=AGENT_TUNNEL_BACKOFF_MAX_S="@ + decimal(t.restart_backoff_max_s as nat) + "\nEnvironment=AGENT_PORT_VISIBILITY="@ + t.default_port_visibility@ + "\nExecStart=/usr/bin/devcontainer-agent serve\nRestart=always\nRestartSec=5\n"@)
            &&& shows(out@, path, "\n[Install]\nWantedBy=multi-user.target\n"@)
        }),
{
    let role = c.cluster.role@[r];
    let storage = storage(c);
    let slot = slot_with_role(c.slots_spec(), role.id@, 0).unwrap();
    let runtime = row(c.images.runtime@, variant.runtime@).unwrap();
    let t = c.policy.tunnel;
    let file = agent_file(c, role, variant);
    lemma_agent_given(c, r, variant, n);
    lemma_is_shown(c, out, file);
    let t0 = "# The devcontainer agent on "@;
    let b0 = t0;
    let t1 = slot.name;
    let b1 = b0 + t1;
    let t2 = ". It starts and stops devcontainers, reports\n# whether a workspace is dirty, and records an attachment (§15.1, §15.2).\n#\n# It is the only thing that can answer the dirty question, because it is the\n# only thing that can see the worktree --- and §15.2 requires that answer\n# immediately before any destructive step rather than from a cache.\n\n[Unit]\nDescription=Devcontainer agent\nAfter=network-online.target remote-fs.target\nWants=network-online.target\nConditionPathExists="@;
    let b2 = b1 + t2;
    let t3 = marker(role.id@);
    let b3 = b2 + t3;
    let t4 = "\n\n[Service]\nType=simple\nEnvironment=AGENT_BIND="@;
    let b4 = b3 + t4;
    let t5 = slot.loopback;
    let b5 = b4 + t5;
    let t6 = ":8081\nEnvironment=AGENT_NODE="@;
    let b6 = b5 + t6;
    let t7 = slot.name;
    let b7 = b6 + t7;
    let t8 = "\nEnvironment=AGENT_WORKSPACES=/var/lib/devcontainers\nEnvironment=AGENT_HOME=/var/lib/devcontainer-home\nEnvironment=DOCKER_HOST="@;
    let b8 = b7 + t8;
    let t9 = runtime.docker_host@;
    let b9 = b8 + t9;
    let t10 = "\nEnvironment=AGENT_CONTROL_PLANE=http://"@;
    let b10 = b9 + t10;
    let t11 = storage.loopback;
    let b11 = b10 + t11;
    let t12 = ":8080\nEnvironment=AGENT_STOP_GRACE_S="@;
    let b12 = b11 + t12;
    let t13 = decimal(c.policy.drain.container_stop_grace_s as nat);
    let b13 = b12 + t13;
    let t14 = "\nEnvironment=AGENT_FEATURES="@;
    let b14 = b13 + t14;
    let t15 = join(views(variant.features@), ","@);
    let b15 = b14 + t15;
    let t16 = "\nEnvironment=AGENT_TUNNEL_PREFIX="@;
    let b16 = b15 + t16;
    let t17 = t.name_prefix@;
    let b17 = b16 + t17;
    let t18 = "\nEnvironment=AGENT_TUNNEL_URL_TEMPLATE="@;
    let b18 = b17 + t18;
    let t19 = t.url_template@;
    let b19 = b18 + t19;
    let t20 = "\nEnvironment=AGENT_TUNNEL_BACKOFF_INITIAL_S="@;
    let b20 = b19 + t20;
    let t21 = decimal(t.restart_backoff_initial_s as nat);
    let b21 = b20 + t21;
    let t22 = "\nEnvironment=AGENT_TUNNEL_BACKOFF_MAX_S="@;
    let b22 = b21 + t22;
    let t23 = decimal(t.restart_backoff_max_s as nat);
    let b23 = b22 + t23;
    let t24 = "\nEnvironment=AGENT_PORT_VISIBILITY="@;
    let b24 = b23 + t24;
    let t25 = t.default_port_visibility@;
    let b25 = b24 + t25;
    let t26 = "\nExecStart=/usr/bin/devcontainer-agent serve\nRestart=always\nRestartSec=5\n\n[Install]\nWantedBy=multi-user.target\n\n"@;
    let b26 = b25 + t26;
    lemma_agent_file_0();
    let q2 = "\n[Unit]\nDescription=Devcontainer agent\nAfter=network-online.target remote-fs.target\nWants=network-online.target\nConditionPathExists="@;
    lemma_tail_right(b1, t2, q2);
    lemma_tail_grows(b2, q2, t3);
    let q3 = q2 + t3;
    lemma_agent_file_1();
    lemma_tail_is_cut(b3, q3, t4, "\n"@);
    let text = q3 + "\n"@;
    lemma_part_left(b4, t5, text);
    lemma_part_left(b5, t6, text);
    lemma_part_left(b6, t7, text);
    lemma_part_left(b7, t8, text);
    lemma_part_left(b8, t9, text);
    lemma_part_left(b9, t10, text);
    lemma_part_left(b10, t11, text);
    lemma_part_left(b11, t12, text);
    lemma_part_left(b12, t13, text);
    lemma_part_left(b13, t14, text);
    lemma_part_left(b14, t15, text);
    lemma_part_left(b15, t16, text);
    lemma_part_left(b16, t17, text);
    lemma_part_left(b17, t18, text);
    lemma_part_left(b18, t19, text);
    lemma_part_left(b19, t20, text);
    lemma_part_left(b20, t21, text);
    lemma_part_left(b21, t22, text);
    lemma_part_left(b22, t23, text);
    lemma_part_left(b23, t24, text);
    lemma_part_left(b24, t25, text);
    lemma_part_left(b25, t26, text);
    lemma_shows(out@, file, text);
    lemma_agent_file_2();
    let q4 = "\n[Service]\nType=simple\nEnvironment=AGENT_BIND="@;
    lemma_tail_right(b3, t4, q4);
    lemma_tail_grows(b4, q4, t5);
    let q5 = q4 + t5;
    lemma_tail_grows(b5, q5, t6);
    let q6 = q5 + t6;
    lemma_tail_grows(b6, q6, t7);
    let q7 = q6 + t7;
    lemma_tail_grows(b7, q7, t8);
    let q8 = q7 + t8;
    lemma_tail_grows(b8, q8, t9);
    let q9 = q8 + t9;
    lemma_tail_grows(b9, q9, t10);
    let q10 = q9 + t10;
    lemma_tail_grows(b10, q10, t11);
    let q11 = q10 + t11;
    lemma_tail_grows(b11, q11, t12);
    let q12 = q11 + t12;
    lemma_tail_grows(b12, q12, t13);
    let q13 = q12 + t13;
    lemma_tail_grows(b13, q13, t14);
    let q14 = q13 + t14;
    lemma_tail_grows(b14, q14, t15);
    let q15 = q14 + t15;
    lemma_tail_grows(b15, q15, t16);
    let q16 = q15 + t16;
    lemma_tail_grows(b16, q16, t17);
    let q17 = q16 + t17;
    lemma_tail_grows(b17, q17, t18);
    let q18 = q17 + t18;
    lemma_tail_grows(b18, q18, t19);
    let q19 = q18 + t19;
    lemma_tail_grows(b19, q19, t20);
    let q20 = q19 + t20;
    lemma_tail_grows(b20, q20, t21);
    let q21 = q20 + t21;
    lemma_tail_grows(b21, q21, t22);
    let q22 = q21 + t22;
    lemma_tail_grows(b22, q22, t23);
    let q23 = q22 + t23;
    lemma_tail_grows(b23, q23, t24);
    let q24 = q23 + t24;
    lemma_tail_grows(b24, q24, t25);
    let q25 = q24 + t25;
    lemma_agent_file_3();
    lemma_tail_is_cut(b25, q25, t26, "\nExecStart=/usr/bin/devcontainer-agent serve\nRestart=always\nRestartSec=5\n"@);
    let text = q25 + "\nExecStart=/usr/bin/devcontainer-agent serve\nRestart=always\nRestartSec=5\n"@;
    lemma_shows(out@, file, text);
    lemma_agent_file_4();
    lemma_part_right(b25, t26, "\n[Install]\nWantedBy=multi-user.target\n"@);
    let text = "\n[Install]\nWantedBy=multi-user.target\n"@;
    lemma_shows(out@, file, text);
}

proof fn lemma_agent_file_0()
    ensures
        is_tail(". It starts and stops devcontainers, reports\n# whether a workspace is dirty, and records an attachment (§15.1, §15.2).\n#\n# It is the only thing that can answer the dirty question, because it is the\n# only thing that can see the worktree --- and §15.2 requires that answer\n# immediately before any destructive step rather than from a cache.\n\n[Unit]\nDescription=Devcontainer agent\nAfter=network-online.target remote-fs.target\nWants=network-online.target\nConditionPathExists="@, "\n[Unit]\nDescription=Devcontainer agent\nAfter=network-online.target remote-fs.target\nWants=network-online.target\nConditionPathExists="@),
{
    reveal(is_tail);
    reveal_strlit(". It starts and stops devcontainers, reports\n# whether a workspace is dirty, and records an attachment (§15.1, §15.2).\n#\n# It is the only thing that can answer the dirty question, because it is the\n# only thing that can see the worktree --- and §15.2 requires that answer\n# immediately before any destructive step rather than from a cache.\n\n[Unit]\nDescription=Devcontainer agent\nAfter=network-online.target remote-fs.target\nWants=network-online.target\nConditionPathExists=");
    reveal_strlit("\n[Unit]\nDescription=Devcontainer agent\nAfter=network-online.target remote-fs.target\nWants=network-online.target\nConditionPathExists=");
    assert(". It starts and stops devcontainers, reports\n# whether a workspace is dirty, and records an attachment (§15.1, §15.2).\n#\n# It is the only thing that can answer the dirty question, because it is the\n# only thing that can see the worktree --- and §15.2 requires that answer\n# immediately before any destructive step rather than from a cache.\n\n[Unit]\nDescription=Devcontainer agent\nAfter=network-online.target remote-fs.target\nWants=network-online.target\nConditionPathExists="@.subrange(340, 472) =~= "\n[Unit]\nDescription=Devcontainer agent\nAfter=network-online.target remote-fs.target\nWants=network-online.target\nConditionPathExists="@);
}

proof fn lemma_agent_file_1()
    ensures
        is_head("\n\n[Service]\nType=simple\nEnvironment=AGENT_BIND="@, "\n"@),
{
    reveal(is_head);
    reveal_strlit("\n\n[Service]\nType=simple\nEnvironment=AGENT_BIND=");
    reveal_strlit("\n");
    assert("\n\n[Service]\nType=simple\nEnvironment=AGENT_BIND="@.subrange(0, 1) =~= "\n"@);
}

proof fn lemma_agent_file_2()
    ensures
        is_tail("\n\n[Service]\nType=simple\nEnvironment=AGENT_BIND="@, "\n[Service]\nType=simple\nEnvironment=AGENT_BIND="@),
{
    reveal(is_tail);
    reveal_strlit("\n\n[Service]\nType=simple\nEnvironment=AGENT_BIND=");
    reveal_strlit("\n[Service]\nType=simple\nEnvironment=AGENT_BIND=");
    assert("\n\n[Service]\nType=simple\nEnvironment=AGENT_BIND="@.subrange(1, 47) =~= "\n[Service]\nType=simple\nEnvironment=AGENT_BIND="@);
}

proof fn lemma_agent_file_3()
    ensures
        is_head("\nExecStart=/usr/bin/devcontainer-agent serve\nRestart=always\nRestartSec=5\n\n[Install]\nWantedBy=multi-user.target\n\n"@, "\nExecStart=/usr/bin/devcontainer-agent serve\nRestart=always\nRestartSec=5\n"@),
{
    reveal(is_head);
    reveal_strlit("\nExecStart=/usr/bin/devcontainer-agent serve\nRestart=always\nRestartSec=5\n\n[Install]\nWantedBy=multi-user.target\n\n");
    reveal_strlit("\nExecStart=/usr/bin/devcontainer-agent serve\nRestart=always\nRestartSec=5\n");
    assert("\nExecStart=/usr/bin/devcontainer-agent serve\nRestart=always\nRestartSec=5\n\n[Install]\nWantedBy=multi-user.target\n\n"@.subrange(0, 73) =~= "\nExecStart=/usr/bin/devcontainer-agent serve\nRestart=always\nRestartSec=5\n"@);
}

proof fn lemma_agent_file_4()
    ensures
        is_part("\nExecStart=/usr/bin/devcontainer-agent serve\nRestart=always\nRestartSec=5\n\n[Install]\nWantedBy=multi-user.target\n\n"@, "\n[Install]\nWantedBy=multi-user.target\n"@),
{
    reveal(is_part);
    reveal_strlit("\nExecStart=/usr/bin/devcontainer-agent serve\nRestart=always\nRestartSec=5\n\n[Install]\nWantedBy=multi-user.target\n\n");
    reveal_strlit("\n[Install]\nWantedBy=multi-user.target\n");
    assert("\nExecStart=/usr/bin/devcontainer-agent serve\nRestart=always\nRestartSec=5\n\n[Install]\nWantedBy=multi-user.target\n\n"@.subrange(73, 111) =~= "\n[Install]\nWantedBy=multi-user.target\n"@);
    assert(occurs_at("\nExecStart=/usr/bin/devcontainer-agent serve\nRestart=always\nRestartSec=5\n\n[Install]\nWantedBy=multi-user.target\n\n"@, "\n[Install]\nWantedBy=multi-user.target\n"@, 73));
}

/// A role that isolates CPUs has its governor and its interrupts set, once its role
/// is known.
pub proof fn isolation_is_applied_where_it_is_declared(c: Cluster, out: Vec<Rendered>, r: int, variant: Variant, isolation: Isolation)
    requires
        call_ensures(render_all, (&c,), out),
        0 <= r < c.cluster.role@.len(),
        row(c.images.variant@, c.cluster.role@[r].id@) == Some(variant),
        variant.isolation == Some(isolation),
    ensures
        ({
            let role = c.cluster.role@[r];
            let path = "node/systemd/cluster-isolation.service"@;
            &&& shows(out@, path, "\n[Unit]\nDescription=Pin the governor and steer interrupts off the isolated CPUs\nBefore=multi-user.target\nDefaultDependencies=no\nAfter=sysinit.target\nConditionPathExists="@ + marker(role.id@) + "\n"@)
            &&& shows(out@, path, "\n[Service]\nType=oneshot\nRemainAfterExit=yes\nExecStart=/usr/bin/bash -c 'for g in /sys/devices/system/cpu/cpu*/cpufreq/scaling_governor; do echo "@ + isolation.governor@ + " > $g; done'\nExecStart=/usr/bin/bash -c 'echo "@ + isolation.irq_affinity@ + " > /proc/irq/default_smp_affinity'\n"@)
            &&& shows(out@, path, "\n[Install]\nWantedBy=multi-user.target\n"@)
        }),
{
    let role = c.cluster.role@[r];
    let file = isolation_file(role, isolation);
    lemma_isolation_given(c, r, variant, isolation);
    lemma_is_shown(c, out, file);
    let t0 = "# CPUs "@;
    let b0 = t0;
    let t1 = isolation.isolated_cpus@;
    let b1 = b0 + t1;
    let t2 = " are isolated by kernel argument; the governor and IRQ affinity\n         # are not kernel arguments and are established here, before any workload\n         # starts (§8.5).\n         #\n         # What this unit makes true is constructible and CB- carries it. That the\n         # result yields stable measurements is neither constructible nor testable,\n         # and §21.1 records why.\n\n[Unit]\nDescription=Pin the governor and steer interrupts off the isolated CPUs\nBefore=multi-user.target\nDefaultDependencies=no\nAfter=sysinit.target\nConditionPathExists="@;
    let b2 = b1 + t2;
    let t3 = marker(role.id@);
    let b3 = b2 + t3;
    let t4 = "\n\n[Service]\nType=oneshot\nRemainAfterExit=yes\nExecStart=/usr/bin/bash -c 'for g in /sys/devices/system/cpu/cpu*/cpufreq/scaling_governor; do echo "@;
    let b4 = b3 + t4;
    let t5 = isolation.governor@;
    let b5 = b4 + t5;
    let t6 = " > $g; done'\nExecStart=/usr/bin/bash -c 'echo "@;
    let b6 = b5 + t6;
    let t7 = isolation.irq_affinity@;
    let b7 = b6 + t7;
    let t8 = " > /proc/irq/default_smp_affinity'\n\n[Install]\nWantedBy=multi-user.target\n\n"@;
    let b8 = b7 + t8;
    lemma_isolation_file_0();
    let q2 = "\n[Unit]\nDescription=Pin the governor and steer interrupts off the isolated CPUs\nBefore=multi-user.target\nDefaultDependencies=no\nAfter=sysinit.target\nConditionPathExists="@;
    lemma_tail_right(b1, t2, q2);
    lemma_tail_grows(b2, q2, t3);
    let q3 = q2 + t3;
    lemma_isolation_file_1();
    lemma_tail_is_cut(b3, q3, t4, "\n"@);
    let text = q3 + "\n"@;
    lemma_part_left(b4, t5, text);
    lemma_part_left(b5, t6, text);
    lemma_part_left(b6, t7, text);
    lemma_part_left(b7, t8, text);
    lemma_shows(out@, file, text);
    lemma_isolation_file_2();
    let q4 = "\n[Service]\nType=oneshot\nRemainAfterExit=yes\nExecStart=/usr/bin/bash -c 'for g in /sys/devices/system/cpu/cpu*/cpufreq/scaling_governor; do echo "@;
    lemma_tail_right(b3, t4, q4);
    lemma_tail_grows(b4, q4, t5);
    let q5 = q4 + t5;
    lemma_tail_grows(b5, q5, t6);
    let q6 = q5 + t6;
    lemma_tail_grows(b6, q6, t7);
    let q7 = q6 + t7;
    lemma_isolation_file_3();
    lemma_tail_is_cut(b7, q7, t8, " > /proc/irq/default_smp_affinity'\n"@);
    let text = q7 + " > /proc/irq/default_smp_affinity'\n"@;
    lemma_shows(out@, file, text);
    lemma_isolation_file_4();
    lemma_part_right(b7, t8, "\n[Install]\nWantedBy=multi-user.target\n"@);
    let text = "\n[Install]\nWantedBy=multi-user.target\n"@;
    lemma_shows(out@, file, text);
}

proof fn lemma_isolation_file_0()
    ensures
        is_tail(" are isolated by kernel argument; the governor and IRQ affinity\n         # are not kernel arguments and are established here, before any workload\n         # starts (§8.5).\n         #\n         # What this unit makes true is constructible and CB- carries it. That the\n         # result yields stable measurements is neither constructible nor testable,\n         # and §21.1 records why.\n\n[Unit]\nDescription=Pin the governor and steer interrupts off the isolated CPUs\nBefore=multi-user.target\nDefaultDependencies=no\nAfter=sysinit.target\nConditionPathExists="@, "\n[Unit]\nDescription=Pin the governor and steer interrupts off the isolated CPUs\nBefore=multi-user.target\nDefaultDependencies=no\nAfter=sysinit.target\nConditionPathExists="@),
{
    reveal(is_tail);
    reveal_strlit(" are isolated by kernel argument; the governor and IRQ affinity\n         # are not kernel arguments and are established here, before any workload\n         # starts (§8.5).\n         #\n         # What this unit makes true is constructible and CB- carries it. That the\n         # result yields stable measurements is neither constructible nor testable,\n         # and §21.1 records why.\n\n[Unit]\nDescription=Pin the governor and steer interrupts off the isolated CPUs\nBefore=multi-user.target\nDefaultDependencies=no\nAfter=sysinit.target\nConditionPathExists=");
    reveal_strlit("\n[Unit]\nDescription=Pin the governor and steer interrupts off the isolated CPUs\nBefore=multi-user.target\nDefaultDependencies=no\nAfter=sysinit.target\nConditionPathExists=");
    assert(" are isolated by kernel argument; the governor and IRQ affinity\n         # are not kernel arguments and are established here, before any workload\n         # starts (§8.5).\n         #\n         # What this unit makes true is constructible and CB- carries it. That the\n         # result yields stable measurements is neither constructible nor testable,\n         # and §21.1 records why.\n\n[Unit]\nDescription=Pin the governor and steer interrupts off the isolated CPUs\nBefore=multi-user.target\nDefaultDependencies=no\nAfter=sysinit.target\nConditionPathExists="@.subrange(384, 553) =~= "\n[Unit]\nDescription=Pin the governor and steer interrupts off the isolated CPUs\nBefore=multi-user.target\nDefaultDependencies=no\nAfter=sysinit.target\nConditionPathExists="@);
}

proof fn lemma_isolation_file_1()
    ensures
        is_head("\n\n[Service]\nType=oneshot\nRemainAfterExit=yes\nExecStart=/usr/bin/bash -c 'for g in /sys/devices/system/cpu/cpu*/cpufreq/scaling_governor; do echo "@, "\n"@),
{
    reveal(is_head);
    reveal_strlit("\n\n[Service]\nType=oneshot\nRemainAfterExit=yes\nExecStart=/usr/bin/bash -c 'for g in /sys/devices/system/cpu/cpu*/cpufreq/scaling_governor; do echo ");
    reveal_strlit("\n");
    assert("\n\n[Service]\nType=oneshot\nRemainAfterExit=yes\nExecStart=/usr/bin/bash -c 'for g in /sys/devices/system/cpu/cpu*/cpufreq/scaling_governor; do echo "@.subrange(0, 1) =~= "\n"@);
}

proof fn lemma_isolation_file_2()
    ensures
        is_tail("\n\n[Service]\nType=oneshot\nRemainAfterExit=yes\nExecStart=/usr/bin/bash -c 'for g in /sys/devices/system/cpu/cpu*/cpufreq/scaling_governor; do echo "@, "\n[Service]\nType=oneshot\nRemainAfterExit=yes\nExecStart=/usr/bin/bash -c 'for g in /sys/devices/system/cpu/cpu*/cpufreq/scaling_governor; do echo "@),
{
    reveal(is_tail);
    reveal_strlit("\n\n[Service]\nType=oneshot\nRemainAfterExit=yes\nExecStart=/usr/bin/bash -c 'for g in /sys/devices/system/cpu/cpu*/cpufreq/scaling_governor; do echo ");
    reveal_strlit("\n[Service]\nType=oneshot\nRemainAfterExit=yes\nExecStart=/usr/bin/bash -c 'for g in /sys/devices/system/cpu/cpu*/cpufreq/scaling_governor; do echo ");
    assert("\n\n[Service]\nType=oneshot\nRemainAfterExit=yes\nExecStart=/usr/bin/bash -c 'for g in /sys/devices/system/cpu/cpu*/cpufreq/scaling_governor; do echo "@.subrange(1, 145) =~= "\n[Service]\nType=oneshot\nRemainAfterExit=yes\nExecStart=/usr/bin/bash -c 'for g in /sys/devices/system/cpu/cpu*/cpufreq/scaling_governor; do echo "@);
}

proof fn lemma_isolation_file_3()
    ensures
        is_head(" > /proc/irq/default_smp_affinity'\n\n[Install]\nWantedBy=multi-user.target\n\n"@, " > /proc/irq/default_smp_affinity'\n"@),
{
    reveal(is_head);
    reveal_strlit(" > /proc/irq/default_smp_affinity'\n\n[Install]\nWantedBy=multi-user.target\n\n");
    reveal_strlit(" > /proc/irq/default_smp_affinity'\n");
    assert(" > /proc/irq/default_smp_affinity'\n\n[Install]\nWantedBy=multi-user.target\n\n"@.subrange(0, 35) =~= " > /proc/irq/default_smp_affinity'\n"@);
}

proof fn lemma_isolation_file_4()
    ensures
        is_part(" > /proc/irq/default_smp_affinity'\n\n[Install]\nWantedBy=multi-user.target\n\n"@, "\n[Install]\nWantedBy=multi-user.target\n"@),
{
    reveal(is_part);
    reveal_strlit(" > /proc/irq/default_smp_affinity'\n\n[Install]\nWantedBy=multi-user.target\n\n");
    reveal_strlit("\n[Install]\nWantedBy=multi-user.target\n");
    assert(" > /proc/irq/default_smp_affinity'\n\n[Install]\nWantedBy=multi-user.target\n\n"@.subrange(35, 73) =~= "\n[Install]\nWantedBy=multi-user.target\n"@);
    assert(occurs_at(" > /proc/irq/default_smp_affinity'\n\n[Install]\nWantedBy=multi-user.target\n\n"@, "\n[Install]\nWantedBy=multi-user.target\n"@, 35));
}

/// Measurement output that is kept is said to be kept.
pub proof fn kept_measurements_are_not_pruned(c: Cluster)
    ensures
        !c.policy.gc.measurement_output_pruned ==> measurement_text(c)
            == "Environment=CLUSTER_MEASUREMENT_OUTPUT_PRUNED=false\n"@,
        c.policy.gc.measurement_output_pruned ==> measurement_text(c).len() == 0,
{
}

/// The agent lands under the name that its variant enables, where one role hosts
/// it.
pub proof fn one_agent_has_the_enabled_name(c: Cluster, r: int)
    requires
        0 <= r < c.cluster.role@.len(),
        forall|k: int|
            0 <= k < c.cluster.role@.len() && k != r ==> !hosts_agent(
                c,
                #[trigger] c.cluster.role@[k],
            ),
    ensures
        agent_path(c, c.cluster.role@[r]) == "node/systemd/devcontainer-agent.service"@,
{
    if agents_are_several(c) {
        let (i, j) = choose|i: int, j: int|
            0 <= i < j < c.cluster.role@.len() && hosts_agent(c, #[trigger] c.cluster.role@[i])
                && hosts_agent(c, #[trigger] c.cluster.role@[j]);
        assert(i == r);
        assert(j == r);
    }
}

} // verus!
