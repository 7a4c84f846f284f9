//! Configuration of the services the storage node runs.
//!
//! A container that mounts an empty directory starts and stays active, which is
//! worse than one that fails, so what each mounts renders from the model. The
//! alert rules are the case that matters most: an alert declared and rendered
//! nowhere is invisible automation with a model that claims otherwise.
use vstd::prelude::*;

use crate::cluster::Node;
use crate::images::{Mount, Variant};
use crate::model::{slot_with_role, slots, Cluster, Slot};
use crate::policy::Alert;
use crate::render::{
    files,
    has_storage,
    ids1,
    ids2,
    marker,
    role_marker,
    storage,
    storage_of,
    File,
    Rendered,
};
use crate::text::{
    begins,
    chars_of,
    concat_all,
    concat_strings,
    decimal,
    decimal_of,
    halves,
    join,
    join_strings,
    replace,
    replaced,
    same,
    split,
    split_on,
    split_once,
    starts_with,
    string_of,
    to_uppercase,
    uppercase,
    views,
};
use crate::render::claims::{
    is_head,
    is_ours,
    is_part,
    is_tail,
    lemma_is_shown,
    lemma_part_left,
    lemma_part_right,
    lemma_shows,
    lemma_tail_grows,
    lemma_tail_is_cut,
    lemma_tail_right,
    lemma_whole,
    shows,
};
use crate::render::render_all;
use crate::text::occurs_at;

verus! {

/// Grafana's datasource, provisioned rather than clicked.
pub open spec fn grafana_file(c: Cluster) -> File {
    let storage = storage(c);
    File {
        path: "node/grafana/provisioning/datasources/prometheus.yml"@,
        ids: seq!["CD-12"@],
        body: "# Grafana's datasource on "@
            + storage.name
            + ". Provisioned rather than clicked: a Grafana\n# with no datasource starts, reports itself active, and shows nothing ---\n# which §10.1's fifth check cannot tell from working (§18).\n\napiVersion: 1\n\ndatasources:\n  - name: Prometheus\n    type: prometheus\n    access: proxy\n    url: http://"@
            + storage.loopback
            + ":9090\n    isDefault: true\n    jsonData: { timeInterval: \"15s\", timeSeriesRetention: \""@
            + decimal(c.policy.gc.prometheus_retention_days as nat)
            + "d\" }\n"@,
    }
}

pub(crate) fn grafana_datasource(c: &Cluster) -> (r: Rendered)
    requires
        has_storage(*c),
    ensures
        r@ == grafana_file(*c),
{
    let storage = storage_of(c);
    let path = "node/grafana/provisioning/datasources/prometheus.yml".to_owned();
    let body = "# Grafana's datasource on ".to_owned()
        .concat(storage.name.as_str())
        .concat(". Provisioned rather than clicked: a Grafana\n# with no datasource starts, reports itself active, and shows nothing ---\n# which §10.1's fifth check cannot tell from working (§18).\n\napiVersion: 1\n\ndatasources:\n  - name: Prometheus\n    type: prometheus\n    access: proxy\n    url: http://")
        .concat(storage.loopback.as_str())
        .concat(":9090\n    isDefault: true\n    jsonData: { timeInterval: \"15s\", timeSeriesRetention: \"")
        .concat(decimal_of(c.policy.gc.prometheus_retention_days as u64).as_str())
        .concat("d\" }\n");
    Rendered::new(path, ids1("CD-12"), body)
}

/// Publishes the control plane on the tailnet: bound to the mesh alone, it
/// would be reachable from nowhere an operator is.
pub open spec fn tailscale_serve_file(c: Cluster) -> File {
    let storage = storage(c);
    File {
        path: "node/systemd/tailscale-serve.service"@,
        ids: seq!["CD-15"@, "CC-06"@],
        body: "# Publishes the control plane at https://"@
            + storage.name
            + "."@
            + c.cluster.tailnet@
            + ".ts.net (§16.2).\n#\n# The API binds the mesh loopback, which is reachable from the other two\n# nodes and from nowhere an operator is. This is what closes that gap, and\n# it opens no inbound port on the management plane: Tailscale is\n# outbound-initiated (§16.4).\n\n[Unit]\nDescription=Publish the control plane on the tailnet\nAfter=tailscaled.service cluster-ctl.service\nRequires=cluster-ctl.service\nConditionPathExists="@
            + marker(c.policy.drain.migration_target@)
            + "\n\n[Service]\nType=oneshot\nRemainAfterExit=yes\nExecStart=/usr/bin/tailscale serve --bg --https=443 http://"@
            + storage.loopback
            + ":8080\nExecStop=/usr/bin/tailscale serve --https=443 off\n\n[Install]\nWantedBy=multi-user.target\n\n"@,
    }
}

pub(crate) fn tailscale_serve(c: &Cluster) -> (r: Rendered)
    requires
        has_storage(*c),
    ensures
        r@ == tailscale_serve_file(*c),
{
    let storage = storage_of(c);
    let path = "node/systemd/tailscale-serve.service".to_owned();
    let body = "# Publishes the control plane at https://".to_owned()
        .concat(storage.name.as_str())
        .concat(".")
        .concat(c.cluster.tailnet.as_str())
        .concat(".ts.net (§16.2).\n#\n# The API binds the mesh loopback, which is reachable from the other two\n# nodes and from nowhere an operator is. This is what closes that gap, and\n# it opens no inbound port on the management plane: Tailscale is\n# outbound-initiated (§16.4).\n\n[Unit]\nDescription=Publish the control plane on the tailnet\nAfter=tailscaled.service cluster-ctl.service\nRequires=cluster-ctl.service\nConditionPathExists=")
        .concat(role_marker(c.policy.drain.migration_target.as_str()).as_str())
        .concat("\n\n[Service]\nType=oneshot\nRemainAfterExit=yes\nExecStart=/usr/bin/tailscale serve --bg --https=443 http://")
        .concat(storage.loopback.as_str())
        .concat(":8080\nExecStop=/usr/bin/tailscale serve --https=443 off\n\n[Install]\nWantedBy=multi-user.target\n\n");
    Rendered::new(path, ids2("CD-15", "CC-06"), body)
}

/// One login, quoted.
pub open spec fn owner_line(c: Cluster, login: String) -> Seq<char> {
    "\""@
        + login@
        + "\""@
}

fn owner_line_of(c: &Cluster, login: &String) -> (r: String)
    ensures
        r@ == owner_line(*c, *login),
{
    "\"".to_owned()
        .concat(login.as_str())
        .concat("\"")
}

/// One text for each, in order.
pub open spec fn owner_lines(c: Cluster) -> Seq<Seq<char>> {
    let list = c.cluster.authorized_logins@;
    Seq::new(list.len(), |i: int| owner_line(c, list[i]))
}

fn owner_lines_of(c: &Cluster) -> (out: Vec<String>)
    ensures
        views(out@) == owner_lines(*c),
{
    let list = &c.cluster.authorized_logins;
    let ghost all = c.cluster.authorized_logins@;
    let mut out: Vec<String> = Vec::new();
    let mut i: usize = 0;
    while i < list.len()
        invariant
            i <= list.len(),
            all == c.cluster.authorized_logins@,
            list@ == all,
            out.len() == i,
            forall|k: int| 0 <= k < i ==> (#[trigger] out@[k])@ == owner_line(*c, all[k]),
        decreases list.len() - i,
    {
        proof {
            assert(all[i as int] == list@[i as int]);
        }
        out.push(owner_line_of(c, &list[i]));
        i = i + 1;
    }
    proof {
        assert(views(out@) =~= owner_lines(*c));
    }
    out
}

/// The tailnet's access policy. The mesh is never advertised: only the
/// management prefix is.
pub open spec fn tailscale_acl_file(c: Cluster) -> File {
    File {
        path: "tailscale/policy.hujson"@,
        ids: seq!["CD-15"@],
        body: "# The tailnet access policy (§4.5). Applied by an operator, not by a node:\n# this is tailnet-side configuration in the way the kickstart is\n# installer-side, and it is rendered so that who may reach the cluster is a\n# model fact rather than something typed into a console once.\n#\n# The mesh is never advertised. Only the management subnet is, and only from\n# the node §4.5 says advertises it.\n{\n  \"tagOwners\": {\n    \"tag:cluster\": ["@
            + join(owner_lines(c), ", "@)
            + "]\n  },\n  \"acls\": [\n    {\n      \"action\": \"accept\",\n      \"src\": ["@
            + join(owner_lines(c), ", "@)
            + "],\n      \"dst\": [\"tag:cluster:22\", \"tag:cluster:443\"]\n    }\n  ],\n  \"autoApprovers\": { \"routes\": { \""@
            + c.network.lan_prefix@
            + "\": [\"tag:cluster\"] } }\n}\n"@,
    }
}

pub(crate) fn tailscale_acl(c: &Cluster) -> (r: Rendered)
    ensures
        r@ == tailscale_acl_file(*c),
{
    let path = "tailscale/policy.hujson".to_owned();
    let body = "# The tailnet access policy (§4.5). Applied by an operator, not by a node:\n# this is tailnet-side configuration in the way the kickstart is\n# installer-side, and it is rendered so that who may reach the cluster is a\n# model fact rather than something typed into a console once.\n#\n# The mesh is never advertised. Only the management subnet is, and only from\n# the node §4.5 says advertises it.\n{\n  \"tagOwners\": {\n    \"tag:cluster\": [".to_owned()
        .concat(join_strings(&owner_lines_of(c), ", ").as_str())
        .concat("]\n  },\n  \"acls\": [\n    {\n      \"action\": \"accept\",\n      \"src\": [")
        .concat(join_strings(&owner_lines_of(c), ", ").as_str())
        .concat("],\n      \"dst\": [\"tag:cluster:22\", \"tag:cluster:443\"]\n    }\n  ],\n  \"autoApprovers\": { \"routes\": { \"")
        .concat(c.network.lan_prefix.as_str())
        .concat("\": [\"tag:cluster\"] } }\n}\n");
    Rendered::new(path, ids1("CD-15"), body)
}

/// How much the journal may take, on every machine.
pub open spec fn journald_file(c: Cluster) -> File {
    File {
        path: "node/journald.conf.d/10-cluster.conf"@,
        ids: seq!["CD-12"@],
        body: "# Journal retention (§5.5). Rendered on every node because a journal that\n# fills /var takes container graph storage with it, and /var is the one\n# writable filesystem the bootc contract provides (§5.2).\n\n[Journal]\nSystemMaxUse="@
            + c.policy.gc.journald_max_use@
            + "\nStorage=persistent\n"@,
    }
}

pub(crate) fn journald(c: &Cluster) -> (r: Rendered)
    ensures
        r@ == journald_file(*c),
{
    let path = "node/journald.conf.d/10-cluster.conf".to_owned();
    let body = "# Journal retention (§5.5). Rendered on every node because a journal that\n# fills /var takes container graph storage with it, and /var is the one\n# writable filesystem the bootc contract provides (§5.2).\n\n[Journal]\nSystemMaxUse=".to_owned()
        .concat(c.policy.gc.journald_max_use.as_str())
        .concat("\nStorage=persistent\n");
    Rendered::new(path, ids1("CD-12"), body)
}

/// One upstream, cached when something asks for it.
pub open spec fn fallback_line(c: Cluster, fallback: String) -> Seq<char> {
    "        {\n          \"urls\": [\"https://"@
        + fallback@
        + "\"],\n          \"onDemand\": true,\n          \"tlsVerify\": true\n        }"@
}

fn fallback_line_of(c: &Cluster, fallback: &String) -> (r: String)
    ensures
        r@ == fallback_line(*c, *fallback),
{
    "        {\n          \"urls\": [\"https://".to_owned()
        .concat(fallback.as_str())
        .concat("\"],\n          \"onDemand\": true,\n          \"tlsVerify\": true\n        }")
}

/// One text for each, in order.
pub open spec fn fallback_lines(c: Cluster) -> Seq<Seq<char>> {
    let list = c.images.registries.fallbacks@;
    Seq::new(list.len(), |i: int| fallback_line(c, list[i]))
}

fn fallback_lines_of(c: &Cluster) -> (out: Vec<String>)
    ensures
        views(out@) == fallback_lines(*c),
{
    let list = &c.images.registries.fallbacks;
    let ghost all = c.images.registries.fallbacks@;
    let mut out: Vec<String> = Vec::new();
    let mut i: usize = 0;
    while i < list.len()
        invariant
            i <= list.len(),
            all == c.images.registries.fallbacks@,
            list@ == all,
            out.len() == i,
            forall|k: int| 0 <= k < i ==> (#[trigger] out@[k])@ == fallback_line(*c, all[k]),
        decreases list.len() - i,
    {
        proof {
            assert(all[i as int] == list@[i as int]);
        }
        out.push(fallback_line_of(c, &list[i]));
        i = i + 1;
    }
    proof {
        assert(views(out@) =~= fallback_lines(*c));
    }
    out
}

/// The upstreams after the mirrored registry.
pub open spec fn fallbacks_text(c: Cluster) -> Seq<char> {
    if c.images.registries.fallbacks@.len() > 0 {
        ",\n"@
            + join(fallback_lines(c), ",\n"@)
    } else {
        Seq::<char>::empty()
    }
}

fn fallbacks(c: &Cluster) -> (r: String)
    ensures
        r@ == fallbacks_text(*c),
{
    if c.images.registries.fallbacks.len() > 0 {
        ",\n".to_owned()
            .concat(join_strings(&fallback_lines_of(c), ",\n").as_str())
    } else {
        String::new()
    }
}

/// The registry: this repository mirrored, and each declared upstream cached.
/// It binds the mesh loopback.
pub open spec fn zot_file(c: Cluster) -> File {
    let storage = storage(c);
    File {
        path: "node/zot/config.json"@,
        ids: seq!["CD-12"@, "CS-04"@],
        body: "{\n  \"distSpecVersion\": \"1.1.0\",\n  \"storage\": { \"rootDirectory\": \"/var/lib/registry\", \"gc\": true,\n    \"gcDelay\": \""@
            + decimal((c.policy.gc.registry_untagged_max_age_days * 24) as nat)
            + "h\", \"gcInterval\": \"24h\" },\n  \"http\": { \"address\": \""@
            + storage.loopback
            + "\", \"port\": \""@
            + decimal(c.images.registries.port as nat)
            + "\" },\n  \"log\": { \"level\": \"info\" },\n  \"extensions\": {\n    \"sync\": {\n      \"enable\": true,\n      \"registries\": [\n        {\n          \"urls\": [\"https://ghcr.io\"],\n          \"onDemand\": false,\n          \"pollInterval\": \"5m\",\n          \"content\": [{ \"prefix\": \"/"@
            + c.images.signing.repository@
            + "/**\" }]\n        }"@
            + fallbacks_text(c)
            + "\n      ]\n    }\n  }\n}\n"@,
    }
}

pub(crate) fn zot(c: &Cluster) -> (r: Rendered)
    requires
        has_storage(*c),
    ensures
        r@ == zot_file(*c),
{
    let storage = storage_of(c);
    let path = "node/zot/config.json".to_owned();
    let body = "{\n  \"distSpecVersion\": \"1.1.0\",\n  \"storage\": { \"rootDirectory\": \"/var/lib/registry\", \"gc\": true,\n    \"gcDelay\": \"".to_owned()
        .concat(decimal_of((c.policy.gc.registry_untagged_max_age_days as u64 * 24) as u64).as_str())
        .concat("h\", \"gcInterval\": \"24h\" },\n  \"http\": { \"address\": \"")
        .concat(storage.loopback.as_str())
        .concat("\", \"port\": \"")
        .concat(decimal_of(c.images.registries.port as u64).as_str())
        .concat("\" },\n  \"log\": { \"level\": \"info\" },\n  \"extensions\": {\n    \"sync\": {\n      \"enable\": true,\n      \"registries\": [\n        {\n          \"urls\": [\"https://ghcr.io\"],\n          \"onDemand\": false,\n          \"pollInterval\": \"5m\",\n          \"content\": [{ \"prefix\": \"/")
        .concat(c.images.signing.repository.as_str())
        .concat("/**\" }]\n        }")
        .concat(fallbacks(c).as_str())
        .concat("\n      ]\n    }\n  }\n}\n");
    Rendered::new(path, ids2("CD-12", "CS-04"), body)
}

/// One scraped node.
pub open spec fn scrape_line(c: Cluster, n: Slot) -> Seq<char> {
    "      - targets: [\""@
        + n.loopback
        + ":9100\"]\n        labels: { node: \""@
        + n.name
        + "\", role: \""@
        + n.role
        + "\" }\n"@
}

fn scrape_line_of(c: &Cluster, n: &Node) -> (r: String)
    ensures
        r@ == scrape_line(*c, n@),
{
    "      - targets: [\"".to_owned()
        .concat(n.loopback.as_str())
        .concat(":9100\"]\n        labels: { node: \"")
        .concat(n.name.as_str())
        .concat("\", role: \"")
        .concat(n.role.as_str())
        .concat("\" }\n")
}

/// One text for each, in order.
pub open spec fn scrape_lines(c: Cluster) -> Seq<Seq<char>> {
    let list = c.slots_spec();
    Seq::new(list.len(), |i: int| scrape_line(c, list[i]))
}

fn scrape_lines_of(c: &Cluster) -> (out: Vec<String>)
    ensures
        views(out@) == scrape_lines(*c),
{
    let list = c.nodes();
    let ghost all = c.slots_spec();
    let mut out: Vec<String> = Vec::new();
    let mut i: usize = 0;
    while i < list.len()
        invariant
            i <= list.len(),
            all == c.slots_spec(),
            slots(list@) == all,
            out.len() == i,
            forall|k: int| 0 <= k < i ==> (#[trigger] out@[k])@ == scrape_line(*c, all[k]),
        decreases list.len() - i,
    {
        proof {
            assert(all[i as int] == list@[i as int]@);
        }
        out.push(scrape_line_of(c, &list[i]));
        i = i + 1;
    }
    proof {
        assert(views(out@) =~= scrape_lines(*c));
    }
    out
}

/// One scraped health predicate.
pub open spec fn health_line(c: Cluster, n: Slot) -> Seq<char> {
    "      - targets: [\""@
        + n.loopback
        + ":"@
        + decimal(c.policy.health.port as nat)
        + "\"]\n        labels: { node: \""@
        + n.name
        + "\" }\n"@
}

fn health_line_of(c: &Cluster, n: &Node) -> (r: String)
    ensures
        r@ == health_line(*c, n@),
{
    "      - targets: [\"".to_owned()
        .concat(n.loopback.as_str())
        .concat(":")
        .concat(decimal_of(c.policy.health.port as u64).as_str())
        .concat("\"]\n        labels: { node: \"")
        .concat(n.name.as_str())
        .concat("\" }\n")
}

/// One text for each, in order.
pub open spec fn health_lines(c: Cluster) -> Seq<Seq<char>> {
    let list = c.slots_spec();
    Seq::new(list.len(), |i: int| health_line(c, list[i]))
}

fn health_lines_of(c: &Cluster) -> (out: Vec<String>)
    ensures
        views(out@) == health_lines(*c),
{
    let list = c.nodes();
    let ghost all = c.slots_spec();
    let mut out: Vec<String> = Vec::new();
    let mut i: usize = 0;
    while i < list.len()
        invariant
            i <= list.len(),
            all == c.slots_spec(),
            slots(list@) == all,
            out.len() == i,
            forall|k: int| 0 <= k < i ==> (#[trigger] out@[k])@ == health_line(*c, all[k]),
        decreases list.len() - i,
    {
        proof {
            assert(all[i as int] == list@[i as int]@);
        }
        out.push(health_line_of(c, &list[i]));
        i = i + 1;
    }
    proof {
        assert(views(out@) =~= health_lines(*c));
    }
    out
}

/// What is scraped. Every target is a mesh loopback, so a scrape does not
/// depend on the management plane being up.
pub open spec fn prometheus_file(c: Cluster) -> File {
    let storage = storage(c);
    File {
        path: "node/prometheus/prometheus.yml"@,
        ids: seq!["CD-12"@],
        body: "# Scrape configuration for "@
            + storage.name
            + ". Every target is a mesh loopback: the metrics\n# path crosses the mesh, not the management plane, so a scrape does not\n# depend on the LAN being up (§18).\n\nglobal:\n  scrape_interval: 15s\n  evaluation_interval: 15s\n\nrule_files:\n  - /etc/prometheus/alerts.yml\n\nalerting:\n  alertmanagers:\n    - static_configs:\n        - targets: [\""@
            + storage.loopback
            + ":9093\"]\n\nscrape_configs:\n  - job_name: node\n    static_configs:\n"@
            + concat_all(scrape_lines(c))
            + "\n  - job_name: cluster-health\n    metrics_path: /health\n    static_configs:\n"@
            + concat_all(health_lines(c)),
    }
}

pub(crate) fn prometheus(c: &Cluster) -> (r: Rendered)
    requires
        has_storage(*c),
    ensures
        r@ == prometheus_file(*c),
{
    let storage = storage_of(c);
    let path = "node/prometheus/prometheus.yml".to_owned();
    let body = "# Scrape configuration for ".to_owned()
        .concat(storage.name.as_str())
        .concat(". Every target is a mesh loopback: the metrics\n# path crosses the mesh, not the management plane, so a scrape does not\n# depend on the LAN being up (§18).\n\nglobal:\n  scrape_interval: 15s\n  evaluation_interval: 15s\n\nrule_files:\n  - /etc/prometheus/alerts.yml\n\nalerting:\n  alertmanagers:\n    - static_configs:\n        - targets: [\"")
        .concat(storage.loopback.as_str())
        .concat(":9093\"]\n\nscrape_configs:\n  - job_name: node\n    static_configs:\n")
        .concat(concat_strings(&scrape_lines_of(c)).as_str())
        .concat("\n  - job_name: cluster-health\n    metrics_path: /health\n    static_configs:\n")
        .concat(concat_strings(&health_lines_of(c)).as_str());
    Rendered::new(path, ids1("CD-12"), body)
}

/// A number of thousandths, written in units and without needless zeros. The
/// quotient is exact, for every number.
pub open spec fn thousandths(n: nat) -> Seq<char> {
    let whole = decimal(n / 1000);
    let (a, b, c) = (n / 100 % 10, n / 10 % 10, n % 10);
    if c > 0 {
        whole + "."@ + decimal(a) + decimal(b) + decimal(c)
    } else if b > 0 {
        whole + "."@ + decimal(a) + decimal(b)
    } else if a > 0 {
        whole + "."@ + decimal(a)
    } else {
        whole
    }
}

/// A number of thousandths, written in units and without needless zeros.
pub fn thousandths_of(n: u64) -> (r: String)
    ensures
        r@ == thousandths(n as nat),
{
    let whole = decimal_of(n / 1000);
    let (a, b, c): (u64, u64, u64) = (n / 100 % 10, n / 10 % 10, n % 10);
    if c > 0 {
        whole.concat(".").concat(decimal_of(a).as_str()).concat(decimal_of(b).as_str()).concat(
            decimal_of(c).as_str(),
        )
    } else if b > 0 {
        whole.concat(".").concat(decimal_of(a).as_str()).concat(decimal_of(b).as_str())
    } else if a > 0 {
        whole.concat(".").concat(decimal_of(a).as_str())
    } else {
        whole
    }
}

/// Whether an alert has an expression.
pub open spec fn known_alert(id: Seq<char>) -> bool {
    ||| id == "node-down"@
    ||| id == "failed-units"@
    ||| id == "digest-drift"@
    ||| id == "rollout-stalled"@
    ||| id == "drain-budget-exceeded"@
    ||| id == "digest-quarantined"@
    ||| id == "split-version"@
    ||| id == "root-writable"@
    ||| id == "cache-pressure"@
    ||| id == "disk-health"@
    ||| id == "clock"@
    ||| id == "bench-contention"@
    ||| id == "reclaim-volume"@
    ||| id == "dirty-archives-held"@
}

/// Whether an alert has an expression.
pub fn is_known_alert(id: &str) -> (r: bool)
    ensures
        r == known_alert(id@),
{
    same(id, "node-down")
        || same(id, "failed-units")
        || same(id, "digest-drift")
        || same(id, "rollout-stalled")
        || same(id, "drain-budget-exceeded")
        || same(id, "digest-quarantined")
        || same(id, "split-version")
        || same(id, "root-writable")
        || same(id, "cache-pressure")
        || same(id, "disk-health")
        || same(id, "clock")
        || same(id, "bench-contention")
        || same(id, "reclaim-volume")
        || same(id, "dirty-archives-held")
}

/// The query an alert becomes: the model states the condition in words.
pub open spec fn expression_text(c: Cluster, id: Seq<char>) -> Seq<char> {
    if id == "node-down"@ {
        "up{job=\"node\"} == 0"@
    } else if id == "failed-units"@ {
        "node_systemd_unit_state{state=\"failed\"} > 0"@
    } else if id == "digest-drift"@ {
        "cluster_booted_is_target == 0"@
    } else if id == "rollout-stalled"@ {
        "cluster_rollout_target_pending == 1 and changes(cluster_rollout_stage[6h]) == 0"@
    } else if id == "drain-budget-exceeded"@ {
        "cluster_drain_budget_exceeded > 0"@
    } else if id == "digest-quarantined"@ {
        "cluster_quarantined_digests > 0"@
    } else if id == "split-version"@ {
        "count(count by (booted) (cluster_booted_digest)) > 1 and "@
            + decimal(c.slots_spec().len() as nat)
            + " > 1"@
    } else if id == "root-writable"@ {
        "cluster_usr_read_only == 0"@
    } else if id == "cache-pressure"@ {
        "cluster_dmcache_occupancy_ratio > 0.9"@
    } else if id == "disk-health"@ {
        "node_smart_healthy == 0"@
    } else if id == "clock"@ {
        "node_timex_sync_status == 0 or abs(node_timex_offset_seconds) > "@
            + thousandths(c.policy.health.chrony_max_offset_ms as nat)
    } else if id == "bench-contention"@ {
        "cluster_isolated_cpu_foreign_tasks > 0"@
    } else if id == "reclaim-volume"@ {
        "cluster_reclaim_archived_total > 5"@
    } else {
        "cluster_dirty_archives_held"@
    }
}

/// The query an alert becomes.
pub fn expression(c: &Cluster, id: &str) -> (r: String)
    requires
        known_alert(id@),
    ensures
        r@ == expression_text(*c, id@),
{
    if same(id, "node-down") {
        "up{job=\"node\"} == 0".to_owned()
    } else if same(id, "failed-units") {
        "node_systemd_unit_state{state=\"failed\"} > 0".to_owned()
    } else if same(id, "digest-drift") {
        "cluster_booted_is_target == 0".to_owned()
    } else if same(id, "rollout-stalled") {
        "cluster_rollout_target_pending == 1 and changes(cluster_rollout_stage[6h]) == 0".to_owned()
    } else if same(id, "drain-budget-exceeded") {
        "cluster_drain_budget_exceeded > 0".to_owned()
    } else if same(id, "digest-quarantined") {
        "cluster_quarantined_digests > 0".to_owned()
    } else if same(id, "split-version") {
        let nodes = c.nodes();
        assert(slots(nodes@).len() == nodes@.len());
        "count(count by (booted) (cluster_booted_digest)) > 1 and ".to_owned()
            .concat(decimal_of(nodes.len() as u64).as_str())
            .concat(" > 1")
    } else if same(id, "root-writable") {
        "cluster_usr_read_only == 0".to_owned()
    } else if same(id, "cache-pressure") {
        "cluster_dmcache_occupancy_ratio > 0.9".to_owned()
    } else if same(id, "disk-health") {
        "node_smart_healthy == 0".to_owned()
    } else if same(id, "clock") {
        "node_timex_sync_status == 0 or abs(node_timex_offset_seconds) > ".to_owned()
            .concat(thousandths_of(c.policy.health.chrony_max_offset_ms).as_str())
    } else if same(id, "bench-contention") {
        "cluster_isolated_cpu_foreign_tasks > 0".to_owned()
    } else if same(id, "reclaim-volume") {
        "cluster_reclaim_archived_total > 5".to_owned()
    } else {
        "cluster_dirty_archives_held".to_owned()
    }
}

/// A word with its first letter in upper case.
pub open spec fn capital(word: Seq<char>) -> Seq<char> {
    if word.len() == 0 {
        word
    } else {
        uppercase(word.take(1)) + word.skip(1)
    }
}

/// Each word with its first letter in upper case.
pub open spec fn capitals(words: Seq<Seq<char>>) -> Seq<Seq<char>> {
    Seq::new(words.len(), |i: int| capital(words[i]))
}

/// The name of an alert's rule: its identifier in camel case.
pub open spec fn rule_name(id: Seq<char>) -> Seq<char> {
    concat_all(capitals(split(id, '-')))
}

/// A word with its first letter in upper case.
pub fn capital_of(word: &str) -> (r: String)
    ensures
        r@ == capital(word@),
{
    let text = chars_of(word);
    if text.len() == 0 {
        return word.to_owned();
    }
    let first = string_of(&text, 0, 1);
    let rest = string_of(&text, 1, text.len());
    proof {
        assert(first@ =~= word@.take(1));
        assert(rest@ =~= word@.skip(1));
    }
    to_uppercase(first.as_str()).concat(rest.as_str())
}

/// The name of an alert's rule: its identifier in camel case.
pub fn rule_name_of(id: &str) -> (r: String)
    ensures
        r@ == rule_name(id@),
{
    let words = split_on(id, '-');
    let mut out: Vec<String> = Vec::new();
    let mut i: usize = 0;
    while i < words.len()
        invariant
            i <= words.len(),
            out.len() == i,
            forall|k: int| 0 <= k < i ==> (#[trigger] out@[k])@ == capital(words@[k]@),
        decreases words.len() - i,
    {
        out.push(capital_of(words[i].as_str()));
        i = i + 1;
    }
    proof {
        assert(views(out@) =~= capitals(views(words@)));
    }
    concat_strings(&out)
}

/// Whether every declared alert has an expression.
pub open spec fn alerts_known(c: Cluster) -> bool {
    forall|k: int|
        0 <= k < c.policy.alert@.len() ==> known_alert((#[trigger] c.policy.alert@[k]).id@)
}

/// How long a condition must hold, where it must.
pub open spec fn held_text(alert: Alert) -> Seq<char> {
    if alert.for_s > 0 {
        "        for: "@
            + decimal(alert.for_s as nat)
            + "s\n"@
    } else {
        Seq::<char>::empty()
    }
}

fn held(alert: &Alert) -> (r: String)
    ensures
        r@ == held_text(*alert),
{
    if alert.for_s > 0 {
        "        for: ".to_owned()
            .concat(decimal_of(alert.for_s as u64).as_str())
            .concat("s\n")
    } else {
        String::new()
    }
}

/// One rule.
pub open spec fn alert_line(c: Cluster, alert: Alert) -> Seq<char> {
    "      - alert: "@
        + rule_name(alert.id@)
        + "\n        expr: "@
        + expression_text(c, alert.id@)
        + "\n"@
        + held_text(alert)
        + "        labels: { severity: "@
        + alert.severity@
        + " }\n        annotations: { summary: \""@
        + replaced(alert.condition@, "\""@, "'"@)
        + "\" }\n"@
}

fn alert_line_of(c: &Cluster, alert: &Alert) -> (r: String)
    requires
        known_alert(alert.id@),
    ensures
        r@ == alert_line(*c, *alert),
{
    "      - alert: ".to_owned()
        .concat(rule_name_of(alert.id.as_str()).as_str())
        .concat("\n        expr: ")
        .concat(expression(c, alert.id.as_str()).as_str())
        .concat("\n")
        .concat(held(alert).as_str())
        .concat("        labels: { severity: ")
        .concat(alert.severity.as_str())
        .concat(" }\n        annotations: { summary: \"")
        .concat(replace(alert.condition.as_str(), "\"", "'").as_str())
        .concat("\" }\n")
}

/// One text for each, in order.
pub open spec fn alert_lines(c: Cluster) -> Seq<Seq<char>> {
    let list = c.policy.alert@;
    Seq::new(list.len(), |i: int| alert_line(c, list[i]))
}

fn alert_lines_of(c: &Cluster) -> (out: Vec<String>)
    requires
        alerts_known(*c),
    ensures
        views(out@) == alert_lines(*c),
{
    let list = &c.policy.alert;
    let ghost all = c.policy.alert@;
    let mut out: Vec<String> = Vec::new();
    let mut i: usize = 0;
    while i < list.len()
        invariant
            i <= list.len(),
            all == c.policy.alert@,
            list@ == all,
            out.len() == i,
            alerts_known(*c),
            forall|k: int| 0 <= k < i ==> (#[trigger] out@[k])@ == alert_line(*c, all[k]),
        decreases list.len() - i,
    {
        proof {
            assert(all[i as int] == list@[i as int]);
        }
        out.push(alert_line_of(c, &list[i]));
        i = i + 1;
    }
    proof {
        assert(views(out@) =~= alert_lines(*c));
    }
    out
}

/// One rule for each declared alert.
pub open spec fn alert_rules_file(c: Cluster) -> File {
    File {
        path: "node/prometheus/alerts.yml"@,
        ids: seq!["CD-12"@, "CD-13"@],
        body: "# The alerts §18 declares. Each carries the condition and the duration from\n# model/policy.toml, so tuning one is a model change and a re-render rather\n# than an edit on a node.\n#\n# There is no paging integration: this is a three-node lab cluster, and an\n# alert that wakes someone is worse than a dashboard they check (§18).\n\ngroups:\n  - name: cluster\n    rules:\n"@
            + concat_all(alert_lines(c)),
    }
}

pub(crate) fn alert_rules(c: &Cluster) -> (r: Rendered)
    requires
        alerts_known(*c),
    ensures
        r@ == alert_rules_file(*c),
{
    let path = "node/prometheus/alerts.yml".to_owned();
    let body = "# The alerts §18 declares. Each carries the condition and the duration from\n# model/policy.toml, so tuning one is a model change and a re-render rather\n# than an edit on a node.\n#\n# There is no paging integration: this is a three-node lab cluster, and an\n# alert that wakes someone is worse than a dashboard they check (§18).\n\ngroups:\n  - name: cluster\n    rules:\n".to_owned()
        .concat(concat_strings(&alert_lines_of(c)).as_str());
    Rendered::new(path, ids2("CD-12", "CD-13"), body)
}

/// Where alerts are delivered.
pub open spec fn alertmanager_file(c: Cluster) -> File {
    let storage = storage(c);
    File {
        path: "node/alertmanager/alertmanager.yml"@,
        ids: seq!["CD-12"@],
        body: "# Alertmanager on the storage node. Delivery is a Tailscale-reachable\n# webhook: this is a three-node lab cluster, and an alert that wakes someone\n# is worse than a dashboard they check (§18).\n\nroute:\n  receiver: webhook\n  group_by: [alertname, node]\n  group_wait: 30s\n  group_interval: 5m\n  repeat_interval: 12h\n\nreceivers:\n  - name: webhook\n    webhook_configs:\n      - url: \"https://"@
            + storage.name
            + "."@
            + c.cluster.tailnet@
            + ".ts.net/alerts\"\n        send_resolved: true\n"@,
    }
}

pub(crate) fn alertmanager(c: &Cluster) -> (r: Rendered)
    requires
        has_storage(*c),
    ensures
        r@ == alertmanager_file(*c),
{
    let storage = storage_of(c);
    let path = "node/alertmanager/alertmanager.yml".to_owned();
    let body = "# Alertmanager on the storage node. Delivery is a Tailscale-reachable\n# webhook: this is a three-node lab cluster, and an alert that wakes someone\n# is worse than a dashboard they check (§18).\n\nroute:\n  receiver: webhook\n  group_by: [alertname, node]\n  group_wait: 30s\n  group_interval: 5m\n  repeat_interval: 12h\n\nreceivers:\n  - name: webhook\n    webhook_configs:\n      - url: \"https://".to_owned()
        .concat(storage.name.as_str())
        .concat(".")
        .concat(c.cluster.tailnet.as_str())
        .concat(".ts.net/alerts\"\n        send_resolved: true\n");
    Rendered::new(path, ids1("CD-12"), body)
}

/// The object store: a single copy, and it says so.
pub open spec fn garage_file(c: Cluster) -> File {
    let storage = storage(c);
    File {
        path: "node/garage/garage.toml"@,
        ids: seq!["CD-12"@],
        body: "# The object store on "@
            + storage.name
            + ". It replaces `actions/cache`'s WAN round-trips\n# with a mesh-local S3, which is why it binds the loopback and not the\n# management plane (§5.4).\n#\n# replication_mode = \"none\": there is one node with the disk. §5.6 records\n# that lv_data is a single copy, and a replication factor that pretended\n# otherwise would be a claim this cluster cannot keep.\n\nmetadata_dir = \"/var/lib/garage/meta\"\ndata_dir = \"/var/lib/garage/data\"\ndb_engine = \"sqlite\"\nreplication_mode = \"none\"\n\nrpc_bind_addr = \""@
            + storage.loopback
            + ":3901\"\nrpc_public_addr = \""@
            + storage.loopback
            + ":3901\"\n\n[s3_api]\napi_bind_addr = \""@
            + storage.loopback
            + ":3900\"\ns3_region = \"cluster\"\n\n[admin]\napi_bind_addr = \""@
            + storage.loopback
            + ":3903\"\n"@,
    }
}

pub(crate) fn garage(c: &Cluster) -> (r: Rendered)
    requires
        has_storage(*c),
    ensures
        r@ == garage_file(*c),
{
    let storage = storage_of(c);
    let path = "node/garage/garage.toml".to_owned();
    let body = "# The object store on ".to_owned()
        .concat(storage.name.as_str())
        .concat(". It replaces `actions/cache`'s WAN round-trips\n# with a mesh-local S3, which is why it binds the loopback and not the\n# management plane (§5.4).\n#\n# replication_mode = \"none\": there is one node with the disk. §5.6 records\n# that lv_data is a single copy, and a replication factor that pretended\n# otherwise would be a claim this cluster cannot keep.\n\nmetadata_dir = \"/var/lib/garage/meta\"\ndata_dir = \"/var/lib/garage/data\"\ndb_engine = \"sqlite\"\nreplication_mode = \"none\"\n\nrpc_bind_addr = \"")
        .concat(storage.loopback.as_str())
        .concat(":3901\"\nrpc_public_addr = \"")
        .concat(storage.loopback.as_str())
        .concat(":3901\"\n\n[s3_api]\napi_bind_addr = \"")
        .concat(storage.loopback.as_str())
        .concat(":3900\"\ns3_region = \"cluster\"\n\n[admin]\napi_bind_addr = \"")
        .concat(storage.loopback.as_str())
        .concat(":3903\"\n");
    Rendered::new(path, ids1("CD-12"), body)
}

/// The slot of the role that mounts an export.
pub open spec fn consumer(c: Cluster, variant: Variant) -> Option<Slot> {
    slot_with_role(c.slots_spec(), variant.role@, 0)
}

fn consumer_of(c: &Cluster, variant: &Variant) -> (r: Node)
    requires
        consumer(*c, *variant) is Some,
    ensures
        r@ == consumer(*c, *variant).unwrap(),
{
    c.node_with_role(variant.role.as_str()).unwrap()
}

/// The exported path of a mount: what follows its server's name.
pub open spec fn export_path(c: Cluster, mount: Mount) -> Seq<char> {
    match halves(c.expanded(mount.what@), ":"@) {
        Some((server, path)) => path,
        None => mount.what@,
    }
}

fn export_path_of(c: &Cluster, mount: &Mount) -> (r: String)
    requires
        c.resolves(mount.what@),
    ensures
        r@ == export_path(*c, *mount),
{
    let what = c.expand(mount.what.as_str());
    match split_once(what.as_str(), ":") {
        Some(h) => {
            let (server, path) = h;
            path
        },
        None => mount.what.clone(),
    }
}

/// Whether a mount is exported from here.
pub open spec fn is_export(mount: Mount) -> bool {
    begins(mount.fstype@, "nfs"@)
}

/// Whether every export of a variant names a path and a machine.
pub open spec fn exportable(c: Cluster, variant: Variant) -> bool {
    forall|k: int|
        0 <= k < variant.mount@.len() && is_export(#[trigger] variant.mount@[k]) ==> c.resolves(
            variant.mount@[k].what@,
        ) && consumer(c, variant) is Some
}

/// Whether every export names a path and a machine.
pub open spec fn all_exportable(c: Cluster) -> bool {
    forall|k: int|
        0 <= k < c.images.variant@.len() ==> exportable(c, #[trigger] c.images.variant@[k])
}

/// One export, to the one machine that mounts it.
pub open spec fn mount_line(c: Cluster, variant: Variant, mount: Mount) -> Seq<char> {
    if is_export(mount) {
        export_path(c, mount)
            + " "@
            + consumer(c, variant).unwrap().loopback
            + "(rw,sync,no_subtree_check,sec=sys,no_root_squash)\n"@
    } else {
        Seq::<char>::empty()
    }
}

fn mount_line_of(c: &Cluster, variant: &Variant, mount: &Mount) -> (r: String)
    requires
        is_export(*mount) ==> c.resolves(mount.what@) && consumer(*c, *variant) is Some,
    ensures
        r@ == mount_line(*c, *variant, *mount),
{
    if starts_with(mount.fstype.as_str(), "nfs") {
        export_path_of(c, mount)
            .concat(" ")
            .concat(consumer_of(c, variant).loopback.as_str())
            .concat("(rw,sync,no_subtree_check,sec=sys,no_root_squash)\n")
    } else {
        String::new()
    }
}

/// One text for each, in order.
pub open spec fn mount_lines(c: Cluster, variant: Variant) -> Seq<Seq<char>> {
    let list = variant.mount@;
    Seq::new(list.len(), |i: int| mount_line(c, variant, list[i]))
}

fn mount_lines_of(c: &Cluster, variant: &Variant) -> (out: Vec<String>)
    requires
        exportable(*c, *variant),
    ensures
        views(out@) == mount_lines(*c, *variant),
{
    let list = &variant.mount;
    let ghost all = variant.mount@;
    let mut out: Vec<String> = Vec::new();
    let mut i: usize = 0;
    while i < list.len()
        invariant
            i <= list.len(),
            all == variant.mount@,
            list@ == all,
            out.len() == i,
            exportable(*c, *variant),
            forall|k: int| 0 <= k < i ==> (#[trigger] out@[k])@ == mount_line(*c, *variant, all[k]),
        decreases list.len() - i,
    {
        proof {
            assert(all[i as int] == list@[i as int]);
        }
        out.push(mount_line_of(c, variant, &list[i]));
        i = i + 1;
    }
    proof {
        assert(views(out@) =~= mount_lines(*c, *variant));
    }
    out
}

/// The exports of one variant.
pub open spec fn export_line(c: Cluster, variant: Variant) -> Seq<char> {
    concat_all(mount_lines(c, variant))
}

fn export_line_of(c: &Cluster, variant: &Variant) -> (r: String)
    requires
        exportable(*c, *variant),
    ensures
        r@ == export_line(*c, *variant),
{
    concat_strings(&mount_lines_of(c, variant))
}

/// One text for each, in order.
pub open spec fn export_lines(c: Cluster) -> Seq<Seq<char>> {
    let list = c.images.variant@;
    Seq::new(list.len(), |i: int| export_line(c, list[i]))
}

fn export_lines_of(c: &Cluster) -> (out: Vec<String>)
    requires
        all_exportable(*c),
    ensures
        views(out@) == export_lines(*c),
{
    let list = &c.images.variant;
    let ghost all = c.images.variant@;
    let mut out: Vec<String> = Vec::new();
    let mut i: usize = 0;
    while i < list.len()
        invariant
            i <= list.len(),
            all == c.images.variant@,
            list@ == all,
            out.len() == i,
            all_exportable(*c),
            forall|k: int| 0 <= k < i ==> (#[trigger] out@[k])@ == export_line(*c, all[k]),
        decreases list.len() - i,
    {
        proof {
            assert(all[i as int] == list@[i as int]);
        }
        out.push(export_line_of(c, &list[i]));
        i = i + 1;
    }
    proof {
        assert(views(out@) =~= export_lines(*c));
    }
    out
}

/// The export table: each export to one address.
pub open spec fn exports_file(c: Cluster) -> File {
    File {
        path: "node/exports"@,
        ids: seq!["CD-12"@, "CS-02"@],
        body: "# Exported to one address. sec=sys is acceptable only because §4.4 makes the\n# mesh a physically isolated L2 with exactly two endpoints per segment; an\n# export any wider would rely on trust the topology does not extend (§5.4).\n\n"@
            + concat_all(export_lines(c)),
    }
}

pub(crate) fn nfs_exports(c: &Cluster) -> (r: Rendered)
    requires
        all_exportable(*c),
    ensures
        r@ == exports_file(*c),
{
    let path = "node/exports".to_owned();
    let body = "# Exported to one address. sec=sys is acceptable only because §4.4 makes the\n# mesh a physically isolated L2 with exactly two endpoints per segment; an\n# export any wider would rely on trust the topology does not extend (§5.4).\n\n".to_owned()
        .concat(concat_strings(&export_lines_of(c)).as_str());
    Rendered::new(path, ids2("CD-12", "CS-02"), body)
}

/// Configuration of the services.
pub open spec fn service_files(c: Cluster) -> Seq<File> {
    seq![journald_file(c), zot_file(c), prometheus_file(c), alert_rules_file(c), alertmanager_file(c), garage_file(c), exports_file(c), grafana_file(c), tailscale_serve_file(c), tailscale_acl_file(c)]
}

/// Configuration of the services.
pub(crate) fn render(c: &Cluster) -> (out: Vec<Rendered>)
    requires
        has_storage(*c),
        alerts_known(*c),
        all_exportable(*c),
    ensures
        files(out@) == service_files(*c),
{
    let out = vec![journald(c), zot(c), prometheus(c), alert_rules(c), alertmanager(c), garage(c), nfs_exports(c), grafana_datasource(c), tailscale_serve(c), tailscale_acl(c)];
    proof {
        assert(files(out@) =~= service_files(*c));
    }
    out
}

// ---- laws of the files ----

/// The configuration of every service is given.
pub(crate) proof fn lemma_service_files(c: Cluster)
    ensures
        is_ours(c, journald_file(c)),
        is_ours(c, zot_file(c)),
        is_ours(c, prometheus_file(c)),
        is_ours(c, alert_rules_file(c)),
        is_ours(c, alertmanager_file(c)),
        is_ours(c, garage_file(c)),
        is_ours(c, exports_file(c)),
        is_ours(c, grafana_file(c)),
        is_ours(c, tailscale_serve_file(c)),
        is_ours(c, tailscale_acl_file(c)),
{
    reveal(is_ours);
    let all = service_files(c);
    assert(all.contains(all[0]));
    assert(all.contains(all[1]));
    assert(all.contains(all[2]));
    assert(all.contains(all[3]));
    assert(all.contains(all[4]));
    assert(all.contains(all[5]));
    assert(all.contains(all[6]));
    assert(all.contains(all[7]));
    assert(all.contains(all[8]));
    assert(all.contains(all[9]));
}

/// The journal is kept as long as the policy says.
pub proof fn the_journal_is_kept_as_long_as_the_policy_says(c: Cluster, out: Vec<Rendered>)
    requires
        call_ensures(render_all, (&c,), out),
    ensures
        ({
            let path = "node/journald.conf.d/10-cluster.conf"@;
            &&& shows(out@, path, "\n[Journal]\nSystemMaxUse="@ + c.policy.gc.journald_max_use@ + "\nStorage=persistent\n"@)
        }),
{
    let file = journald_file(c);
    lemma_service_files(c);
    lemma_is_shown(c, out, file);
    let t0 = "# Journal retention (§5.5). Rendered on every node because a journal that\n# fills /var takes container graph storage with it, and /var is the one\n# writable filesystem the bootc contract provides (§5.2).\n\n[Journal]\nSystemMaxUse="@;
    let b0 = t0;
    let t1 = c.policy.gc.journald_max_use@;
    let b1 = b0 + t1;
    let t2 = "\nStorage=persistent\n"@;
    let b2 = b1 + t2;
    lemma_journald_file_0();
    let q0 = "\n[Journal]\nSystemMaxUse="@;
    lemma_tail_grows(b0, q0, t1);
    let q1 = q0 + t1;
    lemma_tail_grows(b1, q1, t2);
    let q2 = q1 + t2;
    let text = q2;
    lemma_shows(out@, file, text);
}

proof fn lemma_journald_file_0()
    ensures
        is_tail("# Journal retention (§5.5). Rendered on every node because a journal that\n# fills /var takes container graph storage with it, and /var is the one\n# writable filesystem the bootc contract provides (§5.2).\n\n[Journal]\nSystemMaxUse="@, "\n[Journal]\nSystemMaxUse="@),
{
    reveal(is_tail);
    reveal_strlit("# Journal retention (§5.5). Rendered on every node because a journal that\n# fills /var takes container graph storage with it, and /var is the one\n# writable filesystem the bootc contract provides (§5.2).\n\n[Journal]\nSystemMaxUse=");
    reveal_strlit("\n[Journal]\nSystemMaxUse=");
    assert("# Journal retention (§5.5). Rendered on every node because a journal that\n# fills /var takes container graph storage with it, and /var is the one\n# writable filesystem the bootc contract provides (§5.2).\n\n[Journal]\nSystemMaxUse="@.subrange(204, 228) =~= "\n[Journal]\nSystemMaxUse="@);
}

/// The registry serves at the port that the model declares, and caches what the
/// fallbacks have, as the policy of storage says.
pub proof fn the_registry_serves_and_caches(c: Cluster, out: Vec<Rendered>)
    requires
        call_ensures(render_all, (&c,), out),
    ensures
        ({
            let storage = storage(c);
            let path = "node/zot/config.json"@;
            &&& shows(out@, path, "{\n  \"distSpecVersion\": \"1.1.0\",\n  \"storage\": { \"rootDirectory\": \"/var/lib/registry\", \"gc\": true,\n    \"gcDelay\": \""@ + decimal((c.policy.gc.registry_untagged_max_age_days * 24) as nat) + "h\", \"gcInterval\": \"24h\" },\n  \"http\": { \"address\": \""@ + storage.loopback + "\", \"port\": \""@ + decimal(c.images.registries.port as nat) + "\" },\n  \"log\": { \"level\": \"info\" },\n  \"extensions\": {\n    \"sync\": {\n      \"enable\": true,\n      \"registries\": [\n        {\n          \"urls\": [\"https://ghcr.io\"],\n          \"onDemand\": false,\n          \"pollInterval\": \"5m\",\n          \"content\": [{ \"prefix\": \"/"@ + c.images.signing.repository@ + "/**\" }]\n        }"@ + fallbacks_text(c) + "\n      ]\n    }\n  }\n}\n"@)
        }),
{
    let storage = storage(c);
    let file = zot_file(c);
    lemma_service_files(c);
    lemma_is_shown(c, out, file);
    let t0 = "{\n  \"distSpecVersion\": \"1.1.0\",\n  \"storage\": { \"rootDirectory\": \"/var/lib/registry\", \"gc\": true,\n    \"gcDelay\": \""@;
    let b0 = t0;
    let t1 = decimal((c.policy.gc.registry_untagged_max_age_days * 24) as nat);
    let b1 = b0 + t1;
    let t2 = "h\", \"gcInterval\": \"24h\" },\n  \"http\": { \"address\": \""@;
    let b2 = b1 + t2;
    let t3 = storage.loopback;
    let b3 = b2 + t3;
    let t4 = "\", \"port\": \""@;
    let b4 = b3 + t4;
    let t5 = decimal(c.images.registries.port as nat);
    let b5 = b4 + t5;
    let t6 = "\" },\n  \"log\": { \"level\": \"info\" },\n  \"extensions\": {\n    \"sync\": {\n      \"enable\": true,\n      \"registries\": [\n        {\n          \"urls\": [\"https://ghcr.io\"],\n          \"onDemand\": false,\n          \"pollInterval\": \"5m\",\n          \"content\": [{ \"prefix\": \"/"@;
    let b6 = b5 + t6;
    let t7 = c.images.signing.repository@;
    let b7 = b6 + t7;
    let t8 = "/**\" }]\n        }"@;
    let b8 = b7 + t8;
    let t9 = fallbacks_text(c);
    let b9 = b8 + t9;
    let t10 = "\n      ]\n    }\n  }\n}\n"@;
    let b10 = b9 + t10;
    let q0 = t0;
    lemma_whole(t0);
    lemma_tail_grows(b0, q0, t1);
    let q1 = q0 + t1;
    lemma_tail_grows(b1, q1, t2);
    let q2 = q1 + t2;
    lemma_tail_grows(b2, q2, t3);
    let q3 = q2 + t3;
    lemma_tail_grows(b3, q3, t4);
    let q4 = q3 + t4;
    lemma_tail_grows(b4, q4, t5);
    let q5 = q4 + t5;
    lemma_tail_grows(b5, q5, t6);
    let q6 = q5 + t6;
    lemma_tail_grows(b6, q6, t7);
    let q7 = q6 + t7;
    lemma_tail_grows(b7, q7, t8);
    let q8 = q7 + t8;
    lemma_tail_grows(b8, q8, t9);
    let q9 = q8 + t9;
    lemma_tail_grows(b9, q9, t10);
    let q10 = q9 + t10;
    let text = q10;
    lemma_shows(out@, file, text);
}

/// Metrics are scraped from every node, and rules are evaluated where they are.
pub proof fn every_node_is_scraped(c: Cluster, out: Vec<Rendered>)
    requires
        call_ensures(render_all, (&c,), out),
    ensures
        ({
            let storage = storage(c);
            let path = "node/prometheus/prometheus.yml"@;
            &&& shows(out@, path, "\nglobal:\n  scrape_interval: 15s\n  evaluation_interval: 15s\n"@)
            &&& shows(out@, path, "\nrule_files:\n  - /etc/prometheus/alerts.yml\n"@)
            &&& shows(out@, path, "\nalerting:\n  alertmanagers:\n    - static_configs:\n        - targets: [\""@ + storage.loopback + ":9093\"]\n"@)
            &&& shows(out@, path, "\nscrape_configs:\n  - job_name: node\n    static_configs:\n"@ + concat_all(scrape_lines(c)) + "\n  - job_name: cluster-health\n    metrics_path: /health\n    static_configs:\n"@ + concat_all(health_lines(c)))
        }),
{
    let storage = storage(c);
    let file = prometheus_file(c);
    lemma_service_files(c);
    lemma_is_shown(c, out, file);
    let t0 = "# Scrape configuration for "@;
    let b0 = t0;
    let t1 = storage.name;
    let b1 = b0 + t1;
    let t2 = ". Every target is a mesh loopback: the metrics\n# path crosses the mesh, not the management plane, so a scrape does not\n# depend on the LAN being up (§18).\n\nglobal:\n  scrape_interval: 15s\n  evaluation_interval: 15s\n\nrule_files:\n  - /etc/prometheus/alerts.yml\n\nalerting:\n  alertmanagers:\n    - static_configs:\n        - targets: [\""@;
    let b2 = b1 + t2;
    let t3 = storage.loopback;
    let b3 = b2 + t3;
    let t4 = ":9093\"]\n\nscrape_configs:\n  - job_name: node\n    static_configs:\n"@;
    let b4 = b3 + t4;
    let t5 = concat_all(scrape_lines(c));
    let b5 = b4 + t5;
    let t6 = "\n  - job_name: cluster-health\n    metrics_path: /health\n    static_configs:\n"@;
    let b6 = b5 + t6;
    let t7 = concat_all(health_lines(c));
    let b7 = b6 + t7;
    lemma_prometheus_file_0();
    lemma_part_right(b1, t2, "\nglobal:\n  scrape_interval: 15s\n  evaluation_interval: 15s\n"@);
    let text = "\nglobal:\n  scrape_interval: 15s\n  evaluation_interval: 15s\n"@;
    lemma_part_left(b2, t3, text);
    lemma_part_left(b3, t4, text);
    lemma_part_left(b4, t5, text);
    lemma_part_left(b5, t6, text);
    lemma_part_left(b6, t7, text);
    lemma_shows(out@, file, text);
    lemma_prometheus_file_1();
    lemma_part_right(b1, t2, "\nrule_files:\n  - /etc/prometheus/alerts.yml\n"@);
    let text = "\nrule_files:\n  - /etc/prometheus/alerts.yml\n"@;
    lemma_part_left(b2, t3, text);
    lemma_part_left(b3, t4, text);
    lemma_part_left(b4, t5, text);
    lemma_part_left(b5, t6, text);
    lemma_part_left(b6, t7, text);
    lemma_shows(out@, file, text);
    lemma_prometheus_file_2();
    let q2 = "\nalerting:\n  alertmanagers:\n    - static_configs:\n        - targets: [\""@;
    lemma_tail_right(b1, t2, q2);
    lemma_tail_grows(b2, q2, t3);
    let q3 = q2 + t3;
    lemma_prometheus_file_3();
    lemma_tail_is_cut(b3, q3, t4, ":9093\"]\n"@);
    let text = q3 + ":9093\"]\n"@;
    lemma_part_left(b4, t5, text);
    lemma_part_left(b5, t6, text);
    lemma_part_left(b6, t7, text);
    lemma_shows(out@, file, text);
    lemma_prometheus_file_4();
    let q4 = "\nscrape_configs:\n  - job_name: node\n    static_configs:\n"@;
    lemma_tail_right(b3, t4, q4);
    lemma_tail_grows(b4, q4, t5);
    let q5 = q4 + t5;
    lemma_tail_grows(b5, q5, t6);
    let q6 = q5 + t6;
    lemma_tail_grows(b6, q6, t7);
    let q7 = q6 + t7;
    let text = q7;
    lemma_shows(out@, file, text);
}

proof fn lemma_prometheus_file_0()
    ensures
        is_part(". Every target is a mesh loopback: the metrics\n# path crosses the mesh, not the management plane, so a scrape does not\n# depend on the LAN being up (§18).\n\nglobal:\n  scrape_interval: 15s\n  evaluation_interval: 15s\n\nrule_files:\n  - /etc/prometheus/alerts.yml\n\nalerting:\n  alertmanagers:\n    - static_configs:\n        - targets: [\""@, "\nglobal:\n  scrape_interval: 15s\n  evaluation_interval: 15s\n"@),
{
    reveal(is_part);
    reveal_strlit(". Every target is a mesh loopback: the metrics\n# path crosses the mesh, not the management plane, so a scrape does not\n# depend on the LAN being up (§18).\n\nglobal:\n  scrape_interval: 15s\n  evaluation_interval: 15s\n\nrule_files:\n  - /etc/prometheus/alerts.yml\n\nalerting:\n  alertmanagers:\n    - static_configs:\n        - targets: [\"");
    reveal_strlit("\nglobal:\n  scrape_interval: 15s\n  evaluation_interval: 15s\n");
    assert(". Every target is a mesh loopback: the metrics\n# path crosses the mesh, not the management plane, so a scrape does not\n# depend on the LAN being up (§18).\n\nglobal:\n  scrape_interval: 15s\n  evaluation_interval: 15s\n\nrule_files:\n  - /etc/prometheus/alerts.yml\n\nalerting:\n  alertmanagers:\n    - static_configs:\n        - targets: [\""@.subrange(155, 214) =~= "\nglobal:\n  scrape_interval: 15s\n  evaluation_interval: 15s\n"@);
    assert(occurs_at(". Every target is a mesh loopback: the metrics\n# path crosses the mesh, not the management plane, so a scrape does not\n# depend on the LAN being up (§18).\n\nglobal:\n  scrape_interval: 15s\n  evaluation_interval: 15s\n\nrule_files:\n  - /etc/prometheus/alerts.yml\n\nalerting:\n  alertmanagers:\n    - static_configs:\n        - targets: [\""@, "\nglobal:\n  scrape_interval: 15s\n  evaluation_interval: 15s\n"@, 155));
}

proof fn lemma_prometheus_file_1()
    ensures
        is_part(". Every target is a mesh loopback: the metrics\n# path crosses the mesh, not the management plane, so a scrape does not\n# depend on the LAN being up (§18).\n\nglobal:\n  scrape_interval: 15s\n  evaluation_interval: 15s\n\nrule_files:\n  - /etc/prometheus/alerts.yml\n\nalerting:\n  alertmanagers:\n    - static_configs:\n        - targets: [\""@, "\nrule_files:\n  - /etc/prometheus/alerts.yml\n"@),
{
    reveal(is_part);
    reveal_strlit(". Every target is a mesh loopback: the metrics\n# path crosses the mesh, not the management plane, so a scrape does not\n# depend on the LAN being up (§18).\n\nglobal:\n  scrape_interval: 15s\n  evaluation_interval: 15s\n\nrule_files:\n  - /etc/prometheus/alerts.yml\n\nalerting:\n  alertmanagers:\n    - static_configs:\n        - targets: [\"");
    reveal_strlit("\nrule_files:\n  - /etc/prometheus/alerts.yml\n");
    assert(". Every target is a mesh loopback: the metrics\n# path crosses the mesh, not the management plane, so a scrape does not\n# depend on the LAN being up (§18).\n\nglobal:\n  scrape_interval: 15s\n  evaluation_interval: 15s\n\nrule_files:\n  - /etc/prometheus/alerts.yml\n\nalerting:\n  alertmanagers:\n    - static_configs:\n        - targets: [\""@.subrange(214, 258) =~= "\nrule_files:\n  - /etc/prometheus/alerts.yml\n"@);
    assert(occurs_at(". Every target is a mesh loopback: the metrics\n# path crosses the mesh, not the management plane, so a scrape does not\n# depend on the LAN being up (§18).\n\nglobal:\n  scrape_interval: 15s\n  evaluation_interval: 15s\n\nrule_files:\n  - /etc/prometheus/alerts.yml\n\nalerting:\n  alertmanagers:\n    - static_configs:\n        - targets: [\""@, "\nrule_files:\n  - /etc/prometheus/alerts.yml\n"@, 214));
}

proof fn lemma_prometheus_file_2()
    ensures
        is_tail(". Every target is a mesh loopback: the metrics\n# path crosses the mesh, not the management plane, so a scrape does not\n# depend on the LAN being up (§18).\n\nglobal:\n  scrape_interval: 15s\n  evaluation_interval: 15s\n\nrule_files:\n  - /etc/prometheus/alerts.yml\n\nalerting:\n  alertmanagers:\n    - static_configs:\n        - targets: [\""@, "\nalerting:\n  alertmanagers:\n    - static_configs:\n        - targets: [\""@),
{
    reveal(is_tail);
    reveal_strlit(". Every target is a mesh loopback: the metrics\n# path crosses the mesh, not the management plane, so a scrape does not\n# depend on the LAN being up (§18).\n\nglobal:\n  scrape_interval: 15s\n  evaluation_interval: 15s\n\nrule_files:\n  - /etc/prometheus/alerts.yml\n\nalerting:\n  alertmanagers:\n    - static_configs:\n        - targets: [\"");
    reveal_strlit("\nalerting:\n  alertmanagers:\n    - static_configs:\n        - targets: [\"");
    assert(". Every target is a mesh loopback: the metrics\n# path crosses the mesh, not the management plane, so a scrape does not\n# depend on the LAN being up (§18).\n\nglobal:\n  scrape_interval: 15s\n  evaluation_interval: 15s\n\nrule_files:\n  - /etc/prometheus/alerts.yml\n\nalerting:\n  alertmanagers:\n    - static_configs:\n        - targets: [\""@.subrange(258, 329) =~= "\nalerting:\n  alertmanagers:\n    - static_configs:\n        - targets: [\""@);
}

proof fn lemma_prometheus_file_3()
    ensures
        is_head(":9093\"]\n\nscrape_configs:\n  - job_name: node\n    static_configs:\n"@, ":9093\"]\n"@),
{
    reveal(is_head);
    reveal_strlit(":9093\"]\n\nscrape_configs:\n  - job_name: node\n    static_configs:\n");
    reveal_strlit(":9093\"]\n");
    assert(":9093\"]\n\nscrape_configs:\n  - job_name: node\n    static_configs:\n"@.subrange(0, 8) =~= ":9093\"]\n"@);
}

proof fn lemma_prometheus_file_4()
    ensures
        is_tail(":9093\"]\n\nscrape_configs:\n  - job_name: node\n    static_configs:\n"@, "\nscrape_configs:\n  - job_name: node\n    static_configs:\n"@),
{
    reveal(is_tail);
    reveal_strlit(":9093\"]\n\nscrape_configs:\n  - job_name: node\n    static_configs:\n");
    reveal_strlit("\nscrape_configs:\n  - job_name: node\n    static_configs:\n");
    assert(":9093\"]\n\nscrape_configs:\n  - job_name: node\n    static_configs:\n"@.subrange(8, 64) =~= "\nscrape_configs:\n  - job_name: node\n    static_configs:\n"@);
}

/// The alerts stand in one group.
pub proof fn alerts_stand_in_one_group(c: Cluster, out: Vec<Rendered>)
    requires
        call_ensures(render_all, (&c,), out),
    ensures
        ({
            let path = "node/prometheus/alerts.yml"@;
            &&& shows(out@, path, "\ngroups:\n  - name: cluster\n    rules:\n"@ + concat_all(alert_lines(c)))
        }),
{
    let file = alert_rules_file(c);
    lemma_service_files(c);
    lemma_is_shown(c, out, file);
    let t0 = "# The alerts §18 declares. Each carries the condition and the duration from\n# model/policy.toml, so tuning one is a model change and a re-render rather\n# than an edit on a node.\n#\n# There is no paging integration: this is a three-node lab cluster, and an\n# alert that wakes someone is worse than a dashboard they check (§18).\n\ngroups:\n  - name: cluster\n    rules:\n"@;
    let b0 = t0;
    let t1 = concat_all(alert_lines(c));
    let b1 = b0 + t1;
    lemma_alert_rules_file_0();
    let q0 = "\ngroups:\n  - name: cluster\n    rules:\n"@;
    lemma_tail_grows(b0, q0, t1);
    let q1 = q0 + t1;
    let text = q1;
    lemma_shows(out@, file, text);
}

proof fn lemma_alert_rules_file_0()
    ensures
        is_tail("# The alerts §18 declares. Each carries the condition and the duration from\n# model/policy.toml, so tuning one is a model change and a re-render rather\n# than an edit on a node.\n#\n# There is no paging integration: this is a three-node lab cluster, and an\n# alert that wakes someone is worse than a dashboard they check (§18).\n\ngroups:\n  - name: cluster\n    rules:\n"@, "\ngroups:\n  - name: cluster\n    rules:\n"@),
{
    reveal(is_tail);
    reveal_strlit("# The alerts §18 declares. Each carries the condition and the duration from\n# model/policy.toml, so tuning one is a model change and a re-render rather\n# than an edit on a node.\n#\n# There is no paging integration: this is a three-node lab cluster, and an\n# alert that wakes someone is worse than a dashboard they check (§18).\n\ngroups:\n  - name: cluster\n    rules:\n");
    reveal_strlit("\ngroups:\n  - name: cluster\n    rules:\n");
    assert("# The alerts §18 declares. Each carries the condition and the duration from\n# model/policy.toml, so tuning one is a model change and a re-render rather\n# than an edit on a node.\n#\n# There is no paging integration: this is a three-node lab cluster, and an\n# alert that wakes someone is worse than a dashboard they check (§18).\n\ngroups:\n  - name: cluster\n    rules:\n"@.subrange(326, 364) =~= "\ngroups:\n  - name: cluster\n    rules:\n"@);
}

/// Alerts are grouped and sent on to the control plane.
pub proof fn alerts_reach_the_control_plane(c: Cluster, out: Vec<Rendered>)
    requires
        call_ensures(render_all, (&c,), out),
    ensures
        ({
            let storage = storage(c);
            let path = "node/alertmanager/alertmanager.yml"@;
            &&& shows(out@, path, "\nroute:\n  receiver: webhook\n  group_by: [alertname, node]\n  group_wait: 30s\n  group_interval: 5m\n  repeat_interval: 12h\n"@)
            &&& shows(out@, path, "\nreceivers:\n  - name: webhook\n    webhook_configs:\n      - url: \"https://"@ + storage.name + "."@ + c.cluster.tailnet@ + ".ts.net/alerts\"\n        send_resolved: true\n"@)
        }),
{
    let storage = storage(c);
    let file = alertmanager_file(c);
    lemma_service_files(c);
    lemma_is_shown(c, out, file);
    let t0 = "# Alertmanager on the storage node. Delivery is a Tailscale-reachable\n# webhook: this is a three-node lab cluster, and an alert that wakes someone\n# is worse than a dashboard they check (§18).\n\nroute:\n  receiver: webhook\n  group_by: [alertname, node]\n  group_wait: 30s\n  group_interval: 5m\n  repeat_interval: 12h\n\nreceivers:\n  - name: webhook\n    webhook_configs:\n      - url: \"https://"@;
    let b0 = t0;
    let t1 = storage.name;
    let b1 = b0 + t1;
    let t2 = "."@;
    let b2 = b1 + t2;
    let t3 = c.cluster.tailnet@;
    let b3 = b2 + t3;
    let t4 = ".ts.net/alerts\"\n        send_resolved: true\n"@;
    let b4 = b3 + t4;
    lemma_alertmanager_file_0();
    let text = "\nroute:\n  receiver: webhook\n  group_by: [alertname, node]\n  group_wait: 30s\n  group_interval: 5m\n  repeat_interval: 12h\n"@;
    lemma_part_left(b0, t1, text);
    lemma_part_left(b1, t2, text);
    lemma_part_left(b2, t3, text);
    lemma_part_left(b3, t4, text);
    lemma_shows(out@, file, text);
    lemma_alertmanager_file_1();
    let q0 = "\nreceivers:\n  - name: webhook\n    webhook_configs:\n      - url: \"https://"@;
    lemma_tail_grows(b0, q0, t1);
    let q1 = q0 + t1;
    lemma_tail_grows(b1, q1, t2);
    let q2 = q1 + t2;
    lemma_tail_grows(b2, q2, t3);
    let q3 = q2 + t3;
    lemma_tail_grows(b3, q3, t4);
    let q4 = q3 + t4;
    let text = q4;
    lemma_shows(out@, file, text);
}

proof fn lemma_alertmanager_file_0()
    ensures
        is_part("# Alertmanager on the storage node. Delivery is a Tailscale-reachable\n# webhook: this is a three-node lab cluster, and an alert that wakes someone\n# is worse than a dashboard they check (§18).\n\nroute:\n  receiver: webhook\n  group_by: [alertname, node]\n  group_wait: 30s\n  group_interval: 5m\n  repeat_interval: 12h\n\nreceivers:\n  - name: webhook\n    webhook_configs:\n      - url: \"https://"@, "\nroute:\n  receiver: webhook\n  group_by: [alertname, node]\n  group_wait: 30s\n  group_interval: 5m\n  repeat_interval: 12h\n"@),
{
    reveal(is_part);
    reveal_strlit("# Alertmanager on the storage node. Delivery is a Tailscale-reachable\n# webhook: this is a three-node lab cluster, and an alert that wakes someone\n# is worse than a dashboard they check (§18).\n\nroute:\n  receiver: webhook\n  group_by: [alertname, node]\n  group_wait: 30s\n  group_interval: 5m\n  repeat_interval: 12h\n\nreceivers:\n  - name: webhook\n    webhook_configs:\n      - url: \"https://");
    reveal_strlit("\nroute:\n  receiver: webhook\n  group_by: [alertname, node]\n  group_wait: 30s\n  group_interval: 5m\n  repeat_interval: 12h\n");
    assert("# Alertmanager on the storage node. Delivery is a Tailscale-reachable\n# webhook: this is a three-node lab cluster, and an alert that wakes someone\n# is worse than a dashboard they check (§18).\n\nroute:\n  receiver: webhook\n  group_by: [alertname, node]\n  group_wait: 30s\n  group_interval: 5m\n  repeat_interval: 12h\n\nreceivers:\n  - name: webhook\n    webhook_configs:\n      - url: \"https://"@.subrange(193, 313) =~= "\nroute:\n  receiver: webhook\n  group_by: [alertname, node]\n  group_wait: 30s\n  group_interval: 5m\n  repeat_interval: 12h\n"@);
    assert(occurs_at("# Alertmanager on the storage node. Delivery is a Tailscale-reachable\n# webhook: this is a three-node lab cluster, and an alert that wakes someone\n# is worse than a dashboard they check (§18).\n\nroute:\n  receiver: webhook\n  group_by: [alertname, node]\n  group_wait: 30s\n  group_interval: 5m\n  repeat_interval: 12h\n\nreceivers:\n  - name: webhook\n    webhook_configs:\n      - url: \"https://"@, "\nroute:\n  receiver: webhook\n  group_by: [alertname, node]\n  group_wait: 30s\n  group_interval: 5m\n  repeat_interval: 12h\n"@, 193));
}

proof fn lemma_alertmanager_file_1()
    ensures
        is_tail("# Alertmanager on the storage node. Delivery is a Tailscale-reachable\n# webhook: this is a three-node lab cluster, and an alert that wakes someone\n# is worse than a dashboard they check (§18).\n\nroute:\n  receiver: webhook\n  group_by: [alertname, node]\n  group_wait: 30s\n  group_interval: 5m\n  repeat_interval: 12h\n\nreceivers:\n  - name: webhook\n    webhook_configs:\n      - url: \"https://"@, "\nreceivers:\n  - name: webhook\n    webhook_configs:\n      - url: \"https://"@),
{
    reveal(is_tail);
    reveal_strlit("# Alertmanager on the storage node. Delivery is a Tailscale-reachable\n# webhook: this is a three-node lab cluster, and an alert that wakes someone\n# is worse than a dashboard they check (§18).\n\nroute:\n  receiver: webhook\n  group_by: [alertname, node]\n  group_wait: 30s\n  group_interval: 5m\n  repeat_interval: 12h\n\nreceivers:\n  - name: webhook\n    webhook_configs:\n      - url: \"https://");
    reveal_strlit("\nreceivers:\n  - name: webhook\n    webhook_configs:\n      - url: \"https://");
    assert("# Alertmanager on the storage node. Delivery is a Tailscale-reachable\n# webhook: this is a three-node lab cluster, and an alert that wakes someone\n# is worse than a dashboard they check (§18).\n\nroute:\n  receiver: webhook\n  group_by: [alertname, node]\n  group_wait: 30s\n  group_interval: 5m\n  repeat_interval: 12h\n\nreceivers:\n  - name: webhook\n    webhook_configs:\n      - url: \"https://"@.subrange(313, 386) =~= "\nreceivers:\n  - name: webhook\n    webhook_configs:\n      - url: \"https://"@);
}

/// Objects are stored on the storage node, and served on its loopback.
pub proof fn objects_are_stored_on_the_storage_node(c: Cluster, out: Vec<Rendered>)
    requires
        call_ensures(render_all, (&c,), out),
    ensures
        ({
            let storage = storage(c);
            let path = "node/garage/garage.toml"@;
            &&& shows(out@, path, "\nmetadata_dir = \"/var/lib/garage/meta\"\ndata_dir = \"/var/lib/garage/data\"\ndb_engine = \"sqlite\"\nreplication_mode = \"none\"\n"@)
            &&& shows(out@, path, "\nrpc_bind_addr = \""@ + storage.loopback + ":3901\"\nrpc_public_addr = \""@ + storage.loopback + ":3901\"\n"@)
            &&& shows(out@, path, "\n[s3_api]\napi_bind_addr = \""@ + storage.loopback + ":3900\"\ns3_region = \"cluster\"\n"@)
            &&& shows(out@, path, "\n[admin]\napi_bind_addr = \""@ + storage.loopback + ":3903\"\n"@)
        }),
{
    let storage = storage(c);
    let file = garage_file(c);
    lemma_service_files(c);
    lemma_is_shown(c, out, file);
    let t0 = "# The object store on "@;
    let b0 = t0;
    let t1 = storage.name;
    let b1 = b0 + t1;
    let t2 = ". It replaces `actions/cache`'s WAN round-trips\n# with a mesh-local S3, which is why it binds the loopback and not the\n# management plane (§5.4).\n#\n# replication_mode = \"none\": there is one node with the disk. §5.6 records\n# that lv_data is a single copy, and a replication factor that pretended\n# otherwise would be a claim this cluster cannot keep.\n\nmetadata_dir = \"/var/lib/garage/meta\"\ndata_dir = \"/var/lib/garage/data\"\ndb_engine = \"sqlite\"\nreplication_mode = \"none\"\n\nrpc_bind_addr = \""@;
    let b2 = b1 + t2;
    let t3 = storage.loopback;
    let b3 = b2 + t3;
    let t4 = ":3901\"\nrpc_public_addr = \""@;
    let b4 = b3 + t4;
    let t5 = storage.loopback;
    let b5 = b4 + t5;
    let t6 = ":3901\"\n\n[s3_api]\napi_bind_addr = \""@;
    let b6 = b5 + t6;
    let t7 = storage.loopback;
    let b7 = b6 + t7;
    let t8 = ":3900\"\ns3_region = \"cluster\"\n\n[admin]\napi_bind_addr = \""@;
    let b8 = b7 + t8;
    let t9 = storage.loopback;
    let b9 = b8 + t9;
    let t10 = ":3903\"\n"@;
    let b10 = b9 + t10;
    lemma_garage_file_0();
    lemma_part_right(b1, t2, "\nmetadata_dir = \"/var/lib/garage/meta\"\ndata_dir = \"/var/lib/garage/data\"\ndb_engine = \"sqlite\"\nreplication_mode = \"none\"\n"@);
    let text = "\nmetadata_dir = \"/var/lib/garage/meta\"\ndata_dir = \"/var/lib/garage/data\"\ndb_engine = \"sqlite\"\nreplication_mode = \"none\"\n"@;
    lemma_part_left(b2, t3, text);
    lemma_part_left(b3, t4, text);
    lemma_part_left(b4, t5, text);
    lemma_part_left(b5, t6, text);
    lemma_part_left(b6, t7, text);
    lemma_part_left(b7, t8, text);
    lemma_part_left(b8, t9, text);
    lemma_part_left(b9, t10, text);
    lemma_shows(out@, file, text);
    lemma_garage_file_1();
    let q2 = "\nrpc_bind_addr = \""@;
    lemma_tail_right(b1, t2, q2);
    lemma_tail_grows(b2, q2, t3);
    let q3 = q2 + t3;
    lemma_tail_grows(b3, q3, t4);
    let q4 = q3 + t4;
    lemma_tail_grows(b4, q4, t5);
    let q5 = q4 + t5;
    lemma_garage_file_2();
    lemma_tail_is_cut(b5, q5, t6, ":3901\"\n"@);
    let text = q5 + ":3901\"\n"@;
    lemma_part_left(b6, t7, text);
    lemma_part_left(b7, t8, text);
    lemma_part_left(b8, t9, text);
    lemma_part_left(b9, t10, text);
    lemma_shows(out@, file, text);
    lemma_garage_file_3();
    let q6 = "\n[s3_api]\napi_bind_addr = \""@;
    lemma_tail_right(b5, t6, q6);
    lemma_tail_grows(b6, q6, t7);
    let q7 = q6 + t7;
    lemma_garage_file_4();
    lemma_tail_is_cut(b7, q7, t8, ":3900\"\ns3_region = \"cluster\"\n"@);
    let text = q7 + ":3900\"\ns3_region = \"cluster\"\n"@;
    lemma_part_left(b8, t9, text);
    lemma_part_left(b9, t10, text);
    lemma_shows(out@, file, text);
    lemma_garage_file_5();
    let q8 = "\n[admin]\napi_bind_addr = \""@;
    lemma_tail_right(b7, t8, q8);
    lemma_tail_grows(b8, q8, t9);
    let q9 = q8 + t9;
    lemma_tail_grows(b9, q9, t10);
    let q10 = q9 + t10;
    let text = q10;
    lemma_shows(out@, file, text);
}

proof fn lemma_garage_file_0()
    ensures
        is_part(". It replaces `actions/cache`'s WAN round-trips\n# with a mesh-local S3, which is why it binds the loopback and not the\n# management plane (§5.4).\n#\n# replication_mode = \"none\": there is one node with the disk. §5.6 records\n# that lv_data is a single copy, and a replication factor that pretended\n# otherwise would be a claim this cluster cannot keep.\n\nmetadata_dir = \"/var/lib/garage/meta\"\ndata_dir = \"/var/lib/garage/data\"\ndb_engine = \"sqlite\"\nreplication_mode = \"none\"\n\nrpc_bind_addr = \""@, "\nmetadata_dir = \"/var/lib/garage/meta\"\ndata_dir = \"/var/lib/garage/data\"\ndb_engine = \"sqlite\"\nreplication_mode = \"none\"\n"@),
{
    reveal(is_part);
    reveal_strlit(". It replaces `actions/cache`'s WAN round-trips\n# with a mesh-local S3, which is why it binds the loopback and not the\n# management plane (§5.4).\n#\n# replication_mode = \"none\": there is one node with the disk. §5.6 records\n# that lv_data is a single copy, and a replication factor that pretended\n# otherwise would be a claim this cluster cannot keep.\n\nmetadata_dir = \"/var/lib/garage/meta\"\ndata_dir = \"/var/lib/garage/data\"\ndb_engine = \"sqlite\"\nreplication_mode = \"none\"\n\nrpc_bind_addr = \"");
    reveal_strlit("\nmetadata_dir = \"/var/lib/garage/meta\"\ndata_dir = \"/var/lib/garage/data\"\ndb_engine = \"sqlite\"\nreplication_mode = \"none\"\n");
    assert(". It replaces `actions/cache`'s WAN round-trips\n# with a mesh-local S3, which is why it binds the loopback and not the\n# management plane (§5.4).\n#\n# replication_mode = \"none\": there is one node with the disk. §5.6 records\n# that lv_data is a single copy, and a replication factor that pretended\n# otherwise would be a claim this cluster cannot keep.\n\nmetadata_dir = \"/var/lib/garage/meta\"\ndata_dir = \"/var/lib/garage/data\"\ndb_engine = \"sqlite\"\nreplication_mode = \"none\"\n\nrpc_bind_addr = \""@.subrange(351, 471) =~= "\nmetadata_dir = \"/var/lib/garage/meta\"\ndata_dir = \"/var/lib/garage/data\"\ndb_engine = \"sqlite\"\nreplication_mode = \"none\"\n"@);
    assert(occurs_at(". It replaces `actions/cache`'s WAN round-trips\n# with a mesh-local S3, which is why it binds the loopback and not the\n# management plane (§5.4).\n#\n# replication_mode = \"none\": there is one node with the disk. §5.6 records\n# that lv_data is a single copy, and a replication factor that pretended\n# otherwise would be a claim this cluster cannot keep.\n\nmetadata_dir = \"/var/lib/garage/meta\"\ndata_dir = \"/var/lib/garage/data\"\ndb_engine = \"sqlite\"\nreplication_mode = \"none\"\n\nrpc_bind_addr = \""@, "\nmetadata_dir = \"/var/lib/garage/meta\"\ndata_dir = \"/var/lib/garage/data\"\ndb_engine = \"sqlite\"\nreplication_mode = \"none\"\n"@, 351));
}

proof fn lemma_garage_file_1()
    ensures
        is_tail(". It replaces `actions/cache`'s WAN round-trips\n# with a mesh-local S3, which is why it binds the loopback and not the\n# management plane (§5.4).\n#\n# replication_mode = \"none\": there is one node with the disk. §5.6 records\n# that lv_data is a single copy, and a replication factor that pretended\n# otherwise would be a claim this cluster cannot keep.\n\nmetadata_dir = \"/var/lib/garage/meta\"\ndata_dir = \"/var/lib/garage/data\"\ndb_engine = \"sqlite\"\nreplication_mode = \"none\"\n\nrpc_bind_addr = \""@, "\nrpc_bind_addr = \""@),
{
    reveal(is_tail);
    reveal_strlit(". It replaces `actions/cache`'s WAN round-trips\n# with a mesh-local S3, which is why it binds the loopback and not the\n# management plane (§5.4).\n#\n# replication_mode = \"none\": there is one node with the disk. §5.6 records\n# that lv_data is a single copy, and a replication factor that pretended\n# otherwise would be a claim this cluster cannot keep.\n\nmetadata_dir = \"/var/lib/garage/meta\"\ndata_dir = \"/var/lib/garage/data\"\ndb_engine = \"sqlite\"\nreplication_mode = \"none\"\n\nrpc_bind_addr = \"");
    reveal_strlit("\nrpc_bind_addr = \"");
    assert(". It replaces `actions/cache`'s WAN round-trips\n# with a mesh-local S3, which is why it binds the loopback and not the\n# management plane (§5.4).\n#\n# replication_mode = \"none\": there is one node with the disk. §5.6 records\n# that lv_data is a single copy, and a replication factor that pretended\n# otherwise would be a claim this cluster cannot keep.\n\nmetadata_dir = \"/var/lib/garage/meta\"\ndata_dir = \"/var/lib/garage/data\"\ndb_engine = \"sqlite\"\nreplication_mode = \"none\"\n\nrpc_bind_addr = \""@.subrange(471, 489) =~= "\nrpc_bind_addr = \""@);
}

proof fn lemma_garage_file_2()
    ensures
        is_head(":3901\"\n\n[s3_api]\napi_bind_addr = \""@, ":3901\"\n"@),
{
    reveal(is_head);
    reveal_strlit(":3901\"\n\n[s3_api]\napi_bind_addr = \"");
    reveal_strlit(":3901\"\n");
    assert(":3901\"\n\n[s3_api]\napi_bind_addr = \""@.subrange(0, 7) =~= ":3901\"\n"@);
}

proof fn lemma_garage_file_3()
    ensures
        is_tail(":3901\"\n\n[s3_api]\napi_bind_addr = \""@, "\n[s3_api]\napi_bind_addr = \""@),
{
    reveal(is_tail);
    reveal_strlit(":3901\"\n\n[s3_api]\napi_bind_addr = \"");
    reveal_strlit("\n[s3_api]\napi_bind_addr = \"");
    assert(":3901\"\n\n[s3_api]\napi_bind_addr = \""@.subrange(7, 34) =~= "\n[s3_api]\napi_bind_addr = \""@);
}

proof fn lemma_garage_file_4()
    ensures
        is_head(":3900\"\ns3_region = \"cluster\"\n\n[admin]\napi_bind_addr = \""@, ":3900\"\ns3_region = \"cluster\"\n"@),
{
    reveal(is_head);
    reveal_strlit(":3900\"\ns3_region = \"cluster\"\n\n[admin]\napi_bind_addr = \"");
    reveal_strlit(":3900\"\ns3_region = \"cluster\"\n");
    assert(":3900\"\ns3_region = \"cluster\"\n\n[admin]\napi_bind_addr = \""@.subrange(0, 29) =~= ":3900\"\ns3_region = \"cluster\"\n"@);
}

proof fn lemma_garage_file_5()
    ensures
        is_tail(":3900\"\ns3_region = \"cluster\"\n\n[admin]\napi_bind_addr = \""@, "\n[admin]\napi_bind_addr = \""@),
{
    reveal(is_tail);
    reveal_strlit(":3900\"\ns3_region = \"cluster\"\n\n[admin]\napi_bind_addr = \"");
    reveal_strlit("\n[admin]\napi_bind_addr = \"");
    assert(":3900\"\ns3_region = \"cluster\"\n\n[admin]\napi_bind_addr = \""@.subrange(29, 55) =~= "\n[admin]\napi_bind_addr = \""@);
}

/// Dashboards read the metrics where they are stored.
pub proof fn dashboards_read_the_metrics(c: Cluster, out: Vec<Rendered>)
    requires
        call_ensures(render_all, (&c,), out),
    ensures
        ({
            let storage = storage(c);
            let path = "node/grafana/provisioning/datasources/prometheus.yml"@;
            &&& shows(out@, path, "\napiVersion: 1\n"@)
            &&& shows(out@, path, "\ndatasources:\n  - name: Prometheus\n    type: prometheus\n    access: proxy\n    url: http://"@ + storage.loopback + ":9090\n    isDefault: true\n    jsonData: { timeInterval: \"15s\", timeSeriesRetention: \""@ + decimal(c.policy.gc.prometheus_retention_days as nat) + "d\" }\n"@)
        }),
{
    let storage = storage(c);
    let file = grafana_file(c);
    lemma_service_files(c);
    lemma_is_shown(c, out, file);
    let t0 = "# Grafana's datasource on "@;
    let b0 = t0;
    let t1 = storage.name;
    let b1 = b0 + t1;
    let t2 = ". Provisioned rather than clicked: a Grafana\n# with no datasource starts, reports itself active, and shows nothing ---\n# which §10.1's fifth check cannot tell from working (§18).\n\napiVersion: 1\n\ndatasources:\n  - name: Prometheus\n    type: prometheus\n    access: proxy\n    url: http://"@;
    let b2 = b1 + t2;
    let t3 = storage.loopback;
    let b3 = b2 + t3;
    let t4 = ":9090\n    isDefault: true\n    jsonData: { timeInterval: \"15s\", timeSeriesRetention: \""@;
    let b4 = b3 + t4;
    let t5 = decimal(c.policy.gc.prometheus_retention_days as nat);
    let b5 = b4 + t5;
    let t6 = "d\" }\n"@;
    let b6 = b5 + t6;
    lemma_grafana_file_0();
    lemma_part_right(b1, t2, "\napiVersion: 1\n"@);
    let text = "\napiVersion: 1\n"@;
    lemma_part_left(b2, t3, text);
    lemma_part_left(b3, t4, text);
    lemma_part_left(b4, t5, text);
    lemma_part_left(b5, t6, text);
    lemma_shows(out@, file, text);
    lemma_grafana_file_1();
    let q2 = "\ndatasources:\n  - name: Prometheus\n    type: prometheus\n    access: proxy\n    url: http://"@;
    lemma_tail_right(b1, t2, q2);
    lemma_tail_grows(b2, q2, t3);
    let q3 = q2 + t3;
    lemma_tail_grows(b3, q3, t4);
    let q4 = q3 + t4;
    lemma_tail_grows(b4, q4, t5);
    let q5 = q4 + t5;
    lemma_tail_grows(b5, q5, t6);
    let q6 = q5 + t6;
    let text = q6;
    lemma_shows(out@, file, text);
}

proof fn lemma_grafana_file_0()
    ensures
        is_part(". Provisioned rather than clicked: a Grafana\n# with no datasource starts, reports itself active, and shows nothing ---\n# which §10.1's fifth check cannot tell from working (§18).\n\napiVersion: 1\n\ndatasources:\n  - name: Prometheus\n    type: prometheus\n    access: proxy\n    url: http://"@, "\napiVersion: 1\n"@),
{
    reveal(is_part);
    reveal_strlit(". Provisioned rather than clicked: a Grafana\n# with no datasource starts, reports itself active, and shows nothing ---\n# which §10.1's fifth check cannot tell from working (§18).\n\napiVersion: 1\n\ndatasources:\n  - name: Prometheus\n    type: prometheus\n    access: proxy\n    url: http://");
    reveal_strlit("\napiVersion: 1\n");
    assert(". Provisioned rather than clicked: a Grafana\n# with no datasource starts, reports itself active, and shows nothing ---\n# which §10.1's fifth check cannot tell from working (§18).\n\napiVersion: 1\n\ndatasources:\n  - name: Prometheus\n    type: prometheus\n    access: proxy\n    url: http://"@.subrange(179, 194) =~= "\napiVersion: 1\n"@);
    assert(occurs_at(". Provisioned rather than clicked: a Grafana\n# with no datasource starts, reports itself active, and shows nothing ---\n# which §10.1's fifth check cannot tell from working (§18).\n\napiVersion: 1\n\ndatasources:\n  - name: Prometheus\n    type: prometheus\n    access: proxy\n    url: http://"@, "\napiVersion: 1\n"@, 179));
}

proof fn lemma_grafana_file_1()
    ensures
        is_tail(". Provisioned rather than clicked: a Grafana\n# with no datasource starts, reports itself active, and shows nothing ---\n# which §10.1's fifth check cannot tell from working (§18).\n\napiVersion: 1\n\ndatasources:\n  - name: Prometheus\n    type: prometheus\n    access: proxy\n    url: http://"@, "\ndatasources:\n  - name: Prometheus\n    type: prometheus\n    access: proxy\n    url: http://"@),
{
    reveal(is_tail);
    reveal_strlit(". Provisioned rather than clicked: a Grafana\n# with no datasource starts, reports itself active, and shows nothing ---\n# which §10.1's fifth check cannot tell from working (§18).\n\napiVersion: 1\n\ndatasources:\n  - name: Prometheus\n    type: prometheus\n    access: proxy\n    url: http://");
    reveal_strlit("\ndatasources:\n  - name: Prometheus\n    type: prometheus\n    access: proxy\n    url: http://");
    assert(". Provisioned rather than clicked: a Grafana\n# with no datasource starts, reports itself active, and shows nothing ---\n# which §10.1's fifth check cannot tell from working (§18).\n\napiVersion: 1\n\ndatasources:\n  - name: Prometheus\n    type: prometheus\n    access: proxy\n    url: http://"@.subrange(194, 284) =~= "\ndatasources:\n  - name: Prometheus\n    type: prometheus\n    access: proxy\n    url: http://"@);
}

/// The control plane is published on the tailnet, by the node that runs it.
pub proof fn the_control_plane_is_published_on_the_tailnet(c: Cluster, out: Vec<Rendered>)
    requires
        call_ensures(render_all, (&c,), out),
    ensures
        ({
            let storage = storage(c);
            let path = "node/systemd/tailscale-serve.service"@;
            &&& shows(out@, path, "\n[Unit]\nDescription=Publish the control plane on the tailnet\nAfter=tailscaled.service cluster-ctl.service\nRequires=cluster-ctl.service\nConditionPathExists="@ + marker(c.policy.drain.migration_target@) + "\n"@)
            &&& shows(out@, path, "\n[Service]\nType=oneshot\nRemainAfterExit=yes\nExecStart=/usr/bin/tailscale serve --bg --https=443 http://"@ + storage.loopback + ":8080\nExecStop=/usr/bin/tailscale serve --https=443 off\n"@)
            &&& shows(out@, path, "\n[Install]\nWantedBy=multi-user.target\n"@)
        }),
{
    let storage = storage(c);
    let file = tailscale_serve_file(c);
    lemma_service_files(c);
    lemma_is_shown(c, out, file);
    let t0 = "# Publishes the control plane at https://"@;
    let b0 = t0;
    let t1 = storage.name;
    let b1 = b0 + t1;
    let t2 = "."@;
    let b2 = b1 + t2;
    let t3 = c.cluster.tailnet@;
    let b3 = b2 + t3;
    let t4 = ".ts.net (§16.2).\n#\n# The API binds the mesh loopback, which is reachable from the other two\n# nodes and from nowhere an operator is. This is what closes that gap, and\n# it opens no inbound port on the management plane: Tailscale is\n# outbound-initiated (§16.4).\n\n[Unit]\nDescription=Publish the control plane on the tailnet\nAfter=tailscaled.service cluster-ctl.service\nRequires=cluster-ctl.service\nConditionPathExists="@;
    let b4 = b3 + t4;
    let t5 = marker(c.policy.drain.migration_target@);
    let b5 = b4 + t5;
    let t6 = "\n\n[Service]\nType=oneshot\nRemainAfterExit=yes\nExecStart=/usr/bin/tailscale serve --bg --https=443 http://"@;
    let b6 = b5 + t6;
    let t7 = storage.loopback;
    let b7 = b6 + t7;
    let t8 = ":8080\nExecStop=/usr/bin/tailscale serve --https=443 off\n\n[Install]\nWantedBy=multi-user.target\n\n"@;
    let b8 = b7 + t8;
    lemma_tailscale_serve_file_0();
    let q4 = "\n[Unit]\nDescription=Publish the control plane on the tailnet\nAfter=tailscaled.service cluster-ctl.service\nRequires=cluster-ctl.service\nConditionPathExists="@;
    lemma_tail_right(b3, t4, q4);
    lemma_tail_grows(b4, q4, t5);
    let q5 = q4 + t5;
    lemma_tailscale_serve_file_1();
    lemma_tail_is_cut(b5, q5, t6, "\n"@);
    let text = q5 + "\n"@;
    lemma_part_left(b6, t7, text);
    lemma_part_left(b7, t8, text);
    lemma_shows(out@, file, text);
    lemma_tailscale_serve_file_2();
    let q6 = "\n[Service]\nType=oneshot\nRemainAfterExit=yes\nExecStart=/usr/bin/tailscale serve --bg --https=443 http://"@;
    lemma_tail_right(b5, t6, q6);
    lemma_tail_grows(b6, q6, t7);
    let q7 = q6 + t7;
    lemma_tailscale_serve_file_3();
    lemma_tail_is_cut(b7, q7, t8, ":8080\nExecStop=/usr/bin/tailscale serve --https=443 off\n"@);
    let text = q7 + ":8080\nExecStop=/usr/bin/tailscale serve --https=443 off\n"@;
    lemma_shows(out@, file, text);
    lemma_tailscale_serve_file_4();
    lemma_part_right(b7, t8, "\n[Install]\nWantedBy=multi-user.target\n"@);
    let text = "\n[Install]\nWantedBy=multi-user.target\n"@;
    lemma_shows(out@, file, text);
}

proof fn lemma_tailscale_serve_file_0()
    ensures
        is_tail(".ts.net (§16.2).\n#\n# The API binds the mesh loopback, which is reachable from the other two\n# nodes and from nowhere an operator is. This is what closes that gap, and\n# it opens no inbound port on the management plane: Tailscale is\n# outbound-initiated (§16.4).\n\n[Unit]\nDescription=Publish the control plane on the tailnet\nAfter=tailscaled.service cluster-ctl.service\nRequires=cluster-ctl.service\nConditionPathExists="@, "\n[Unit]\nDescription=Publish the control plane on the tailnet\nAfter=tailscaled.service cluster-ctl.service\nRequires=cluster-ctl.service\nConditionPathExists="@),
{
    reveal(is_tail);
    reveal_strlit(".ts.net (§16.2).\n#\n# The API binds the mesh loopback, which is reachable from the other two\n# nodes and from nowhere an operator is. This is what closes that gap, and\n# it opens no inbound port on the management plane: Tailscale is\n# outbound-initiated (§16.4).\n\n[Unit]\nDescription=Publish the control plane on the tailnet\nAfter=tailscaled.service cluster-ctl.service\nRequires=cluster-ctl.service\nConditionPathExists=");
    reveal_strlit("\n[Unit]\nDescription=Publish the control plane on the tailnet\nAfter=tailscaled.service cluster-ctl.service\nRequires=cluster-ctl.service\nConditionPathExists=");
    assert(".ts.net (§16.2).\n#\n# The API binds the mesh loopback, which is reachable from the other two\n# nodes and from nowhere an operator is. This is what closes that gap, and\n# it opens no inbound port on the management plane: Tailscale is\n# outbound-initiated (§16.4).\n\n[Unit]\nDescription=Publish the control plane on the tailnet\nAfter=tailscaled.service cluster-ctl.service\nRequires=cluster-ctl.service\nConditionPathExists="@.subrange(262, 417) =~= "\n[Unit]\nDescription=Publish the control plane on the tailnet\nAfter=tailscaled.service cluster-ctl.service\nRequires=cluster-ctl.service\nConditionPathExists="@);
}

proof fn lemma_tailscale_serve_file_1()
    ensures
        is_head("\n\n[Service]\nType=oneshot\nRemainAfterExit=yes\nExecStart=/usr/bin/tailscale serve --bg --https=443 http://"@, "\n"@),
{
    reveal(is_head);
    reveal_strlit("\n\n[Service]\nType=oneshot\nRemainAfterExit=yes\nExecStart=/usr/bin/tailscale serve --bg --https=443 http://");
    reveal_strlit("\n");
    assert("\n\n[Service]\nType=oneshot\nRemainAfterExit=yes\nExecStart=/usr/bin/tailscale serve --bg --https=443 http://"@.subrange(0, 1) =~= "\n"@);
}

proof fn lemma_tailscale_serve_file_2()
    ensures
        is_tail("\n\n[Service]\nType=oneshot\nRemainAfterExit=yes\nExecStart=/usr/bin/tailscale serve --bg --https=443 http://"@, "\n[Service]\nType=oneshot\nRemainAfterExit=yes\nExecStart=/usr/bin/tailscale serve --bg --https=443 http://"@),
{
    reveal(is_tail);
    reveal_strlit("\n\n[Service]\nType=oneshot\nRemainAfterExit=yes\nExecStart=/usr/bin/tailscale serve --bg --https=443 http://");
    reveal_strlit("\n[Service]\nType=oneshot\nRemainAfterExit=yes\nExecStart=/usr/bin/tailscale serve --bg --https=443 http://");
    assert("\n\n[Service]\nType=oneshot\nRemainAfterExit=yes\nExecStart=/usr/bin/tailscale serve --bg --https=443 http://"@.subrange(1, 104) =~= "\n[Service]\nType=oneshot\nRemainAfterExit=yes\nExecStart=/usr/bin/tailscale serve --bg --https=443 http://"@);
}

proof fn lemma_tailscale_serve_file_3()
    ensures
        is_head(":8080\nExecStop=/usr/bin/tailscale serve --https=443 off\n\n[Install]\nWantedBy=multi-user.target\n\n"@, ":8080\nExecStop=/usr/bin/tailscale serve --https=443 off\n"@),
{
    reveal(is_head);
    reveal_strlit(":8080\nExecStop=/usr/bin/tailscale serve --https=443 off\n\n[Install]\nWantedBy=multi-user.target\n\n");
    reveal_strlit(":8080\nExecStop=/usr/bin/tailscale serve --https=443 off\n");
    assert(":8080\nExecStop=/usr/bin/tailscale serve --https=443 off\n\n[Install]\nWantedBy=multi-user.target\n\n"@.subrange(0, 56) =~= ":8080\nExecStop=/usr/bin/tailscale serve --https=443 off\n"@);
}

proof fn lemma_tailscale_serve_file_4()
    ensures
        is_part(":8080\nExecStop=/usr/bin/tailscale serve --https=443 off\n\n[Install]\nWantedBy=multi-user.target\n\n"@, "\n[Install]\nWantedBy=multi-user.target\n"@),
{
    reveal(is_part);
    reveal_strlit(":8080\nExecStop=/usr/bin/tailscale serve --https=443 off\n\n[Install]\nWantedBy=multi-user.target\n\n");
    reveal_strlit("\n[Install]\nWantedBy=multi-user.target\n");
    assert(":8080\nExecStop=/usr/bin/tailscale serve --https=443 off\n\n[Install]\nWantedBy=multi-user.target\n\n"@.subrange(56, 94) =~= "\n[Install]\nWantedBy=multi-user.target\n"@);
    assert(occurs_at(":8080\nExecStop=/usr/bin/tailscale serve --https=443 off\n\n[Install]\nWantedBy=multi-user.target\n\n"@, "\n[Install]\nWantedBy=multi-user.target\n"@, 56));
}

/// The tailnet admits its owners, to the nodes and to what they publish.
pub proof fn the_tailnet_admits_its_owners(c: Cluster, out: Vec<Rendered>)
    requires
        call_ensures(render_all, (&c,), out),
    ensures
        ({
            let path = "tailscale/policy.hujson"@;
            &&& shows(out@, path, "\n{\n  \"tagOwners\": {\n    \"tag:cluster\": ["@ + join(owner_lines(c), ", "@) + "]\n  },\n  \"acls\": [\n    {\n      \"action\": \"accept\",\n      \"src\": ["@ + join(owner_lines(c), ", "@) + "],\n      \"dst\": [\"tag:cluster:22\", \"tag:cluster:443\"]\n    }\n  ],\n  \"autoApprovers\": { \"routes\": { \""@ + c.network.lan_prefix@ + "\": [\"tag:cluster\"] } }\n}\n"@)
        }),
{
    let file = tailscale_acl_file(c);
    lemma_service_files(c);
    lemma_is_shown(c, out, file);
    let t0 = "# The tailnet access policy (§4.5). Applied by an operator, not by a node:\n# this is tailnet-side configuration in the way the kickstart is\n# installer-side, and it is rendered so that who may reach the cluster is a\n# model fact rather than something typed into a console once.\n#\n# The mesh is never advertised. Only the management subnet is, and only from\n# the node §4.5 says advertises it.\n{\n  \"tagOwners\": {\n    \"tag:cluster\": ["@;
    let b0 = t0;
    let t1 = join(owner_lines(c), ", "@);
    let b1 = b0 + t1;
    let t2 = "]\n  },\n  \"acls\": [\n    {\n      \"action\": \"accept\",\n      \"src\": ["@;
    let b2 = b1 + t2;
    let t3 = join(owner_lines(c), ", "@);
    let b3 = b2 + t3;
    let t4 = "],\n      \"dst\": [\"tag:cluster:22\", \"tag:cluster:443\"]\n    }\n  ],\n  \"autoApprovers\": { \"routes\": { \""@;
    let b4 = b3 + t4;
    let t5 = c.network.lan_prefix@;
    let b5 = b4 + t5;
    let t6 = "\": [\"tag:cluster\"] } }\n}\n"@;
    let b6 = b5 + t6;
    lemma_tailscale_acl_file_0();
    let q0 = "\n{\n  \"tagOwners\": {\n    \"tag:cluster\": ["@;
    lemma_tail_grows(b0, q0, t1);
    let q1 = q0 + t1;
    lemma_tail_grows(b1, q1, t2);
    let q2 = q1 + t2;
    lemma_tail_grows(b2, q2, t3);
    let q3 = q2 + t3;
    lemma_tail_grows(b3, q3, t4);
    let q4 = q3 + t4;
    lemma_tail_grows(b4, q4, t5);
    let q5 = q4 + t5;
    lemma_tail_grows(b5, q5, t6);
    let q6 = q5 + t6;
    let text = q6;
    lemma_shows(out@, file, text);
}

proof fn lemma_tailscale_acl_file_0()
    ensures
        is_tail("# The tailnet access policy (§4.5). Applied by an operator, not by a node:\n# this is tailnet-side configuration in the way the kickstart is\n# installer-side, and it is rendered so that who may reach the cluster is a\n# model fact rather than something typed into a console once.\n#\n# The mesh is never advertised. Only the management subnet is, and only from\n# the node §4.5 says advertises it.\n{\n  \"tagOwners\": {\n    \"tag:cluster\": ["@, "\n{\n  \"tagOwners\": {\n    \"tag:cluster\": ["@),
{
    reveal(is_tail);
    reveal_strlit("# The tailnet access policy (§4.5). Applied by an operator, not by a node:\n# this is tailnet-side configuration in the way the kickstart is\n# installer-side, and it is rendered so that who may reach the cluster is a\n# model fact rather than something typed into a console once.\n#\n# The mesh is never advertised. Only the management subnet is, and only from\n# the node §4.5 says advertises it.\n{\n  \"tagOwners\": {\n    \"tag:cluster\": [");
    reveal_strlit("\n{\n  \"tagOwners\": {\n    \"tag:cluster\": [");
    assert("# The tailnet access policy (§4.5). Applied by an operator, not by a node:\n# this is tailnet-side configuration in the way the kickstart is\n# installer-side, and it is rendered so that who may reach the cluster is a\n# model fact rather than something typed into a console once.\n#\n# The mesh is never advertised. Only the management subnet is, and only from\n# the node §4.5 says advertises it.\n{\n  \"tagOwners\": {\n    \"tag:cluster\": ["@.subrange(392, 432) =~= "\n{\n  \"tagOwners\": {\n    \"tag:cluster\": ["@);
}

/// A number of thousandths is written in units: the whole part, and behind a
/// point the rest, without the zeros that say nothing.
#[verifier::spinoff_prover]
#[verifier::rlimit(60)]
pub proof fn thousandths_are_written_in_units(n: u64, text: String)
    requires
        call_ensures(thousandths_of, (n,), text),
    ensures
        n % 1000 == 0 ==> text@ == decimal((n / 1000) as nat),
        n % 1000 > 0 && n % 100 == 0 ==> text@ =~= decimal((n / 1000) as nat) + "."@ + decimal(
            (n % 1000 / 100) as nat,
        ),
        n % 100 > 0 && n % 10 == 0 ==> text@ =~= decimal((n / 1000) as nat) + "."@ + decimal(
            (n % 1000 / 100) as nat,
        ) + decimal((n % 100 / 10) as nat),
        n % 10 > 0 ==> text@ =~= decimal((n / 1000) as nat) + "."@ + decimal(
            (n % 1000 / 100) as nat,
        ) + decimal((n % 100 / 10) as nat) + decimal((n % 10) as nat),
{
    lemma_places(n as int);
}

proof fn lemma_places(m: int)
    requires
        0 <= m,
    ensures
        m / 100 % 10 == m % 1000 / 100,
        m / 10 % 10 == m % 100 / 10,
{
}

/// The registry's configuration lists its fallbacks behind what comes before
/// them, and nothing where there are none.
pub proof fn fallbacks_are_listed_where_there_are_any(c: Cluster)
    ensures
        c.images.registries.fallbacks@.len() == 0 ==> fallbacks_text(c).len() == 0,
        c.images.registries.fallbacks@.len() > 0 ==> fallbacks_text(c) == ",\n"@ + join(
            fallback_lines(c),
            ",\n"@,
        ),
{
}

/// An alert is known by exactly these names.
pub proof fn the_known_alerts_are_these(id: Seq<char>)
    requires
        known_alert(id),
    ensures
        seq![
            "node-down"@,
            "failed-units"@,
            "digest-drift"@,
            "rollout-stalled"@,
            "drain-budget-exceeded"@,
            "digest-quarantined"@,
            "split-version"@,
            "root-writable"@,
            "cache-pressure"@,
            "disk-health"@,
            "clock"@,
            "bench-contention"@,
            "reclaim-volume"@,
            "dirty-archives-held"@,
        ].contains(id),
{
    let all = seq![
        "node-down"@,
        "failed-units"@,
        "digest-drift"@,
        "rollout-stalled"@,
        "drain-budget-exceeded"@,
        "digest-quarantined"@,
        "split-version"@,
        "root-writable"@,
        "cache-pressure"@,
        "disk-health"@,
        "clock"@,
        "bench-contention"@,
        "reclaim-volume"@,
        "dirty-archives-held"@,
    ];
    assert(all[0] == "node-down"@ && all[1] == "failed-units"@ && all[2] == "digest-drift"@);
    assert(all[3] == "rollout-stalled"@ && all[4] == "drain-budget-exceeded"@);
    assert(all[5] == "digest-quarantined"@ && all[6] == "split-version"@);
    assert(all[7] == "root-writable"@ && all[8] == "cache-pressure"@ && all[9] == "disk-health"@);
    assert(all[10] == "clock"@ && all[11] == "bench-contention"@);
    assert(all[12] == "reclaim-volume"@ && all[13] == "dirty-archives-held"@);
}

} // verus!
