//! The client's SSH configuration.
//!
//! The devcontainer alias asks the control plane which node currently hosts the
//! session, so it survives a migration. It is usable without the control plane:
//! only migration-aware resolution degrades.
use vstd::prelude::*;

use crate::cluster::Node;
use crate::model::{slots, Cluster, Slot};
use crate::render::{has_storage, ids1, storage, storage_of, File, Rendered};
use crate::text::{concat_all, concat_strings, views};
use crate::render::claims::{
    is_head,
    is_ours,
    is_part,
    is_tail,
    lemma_is_shown,
    lemma_part_left,
    lemma_shows,
    lemma_tail_grows,
    lemma_tail_is_cut,
    lemma_tail_right,
    lemma_whole,
    shows,
};
use crate::render::render_all;
use crate::text::occurs_at;

verus! {

/// The name a client reaches a slot by: a client is not on the mesh.
pub open spec fn tailnet_name_text(c: Cluster, n: Slot) -> Seq<char> {
    n.name
        + "."@
        + c.cluster.tailnet@
        + "."@
        + c.cluster.magic_dns_suffix@
}

fn tailnet_name(c: &Cluster, n: &Node) -> (r: String)
    ensures
        r@ == tailnet_name_text(*c, n@),
{
    n.name.clone()
        .concat(".")
        .concat(c.cluster.tailnet.as_str())
        .concat(".")
        .concat(c.cluster.magic_dns_suffix.as_str())
}

/// The entry of one slot.
pub open spec fn host_line(c: Cluster, n: Slot) -> Seq<char> {
    "\nHost "@
        + n.name
        + "\n  HostName "@
        + tailnet_name_text(c, n)
        + "\n  User root\n"@
}

fn host_line_of(c: &Cluster, n: &Node) -> (r: String)
    ensures
        r@ == host_line(*c, n@),
{
    "\nHost ".to_owned()
        .concat(n.name.as_str())
        .concat("\n  HostName ")
        .concat(tailnet_name(c, n).as_str())
        .concat("\n  User root\n")
}

/// One text for each, in order.
pub open spec fn host_lines(c: Cluster) -> Seq<Seq<char>> {
    let list = c.slots_spec();
    Seq::new(list.len(), |i: int| host_line(c, list[i]))
}

fn host_lines_of(c: &Cluster) -> (out: Vec<String>)
    ensures
        views(out@) == host_lines(*c),
{
    let list = c.nodes();
    let ghost all = c.slots_spec();
    let mut out: Vec<String> = Vec::new();
    let mut i: usize = 0;
    while i < list.len()
        invariant
            i <= list.len(),
            all == c.slots_spec(),
            slots(list@) == all,
            out.len() == i,
            forall|k: int| 0 <= k < i ==> (#[trigger] out@[k])@ == host_line(*c, all[k]),
        decreases list.len() - i,
    {
        proof {
            assert(all[i as int] == list@[i as int]@);
        }
        out.push(host_line_of(c, &list[i]));
        i = i + 1;
    }
    proof {
        assert(views(out@) =~= host_lines(*c));
    }
    out
}

/// The client's SSH configuration, one file for every client.
pub open spec fn ssh_config_file(c: Cluster) -> File {
    let storage = storage(c);
    File {
        path: "ssh_config"@,
        ids: seq!["CD-10"@],
        body: "# Client SSH configuration. The primary client is a Chromebook, which\n# cannot build images and should not be assumed to run anything but a\n# browser and an SSH client: the developer's working environment is a\n# devcontainer on the cluster, not the Chromebook (§11).\n\nHost *\n  ServerAliveInterval 30\n  ServerAliveCountMax 4\n  PasswordAuthentication no\n  KbdInteractiveAuthentication no\n\n# The nodes themselves, by the names the tailnet gives them: management\n# addresses come from DHCP, so there is nothing stable to name (§3.2, §4.5).\n"@
            + concat_all(host_lines(c))
            + "\n# Devcontainer sessions. The ProxyCommand asks the control plane which node\n# currently hosts the session, so an alias survives a migration (§14.3).\n#\n# When the control plane is unreachable --- the storage node rebooting, or the client off\n# the tailnet --- the fallback resolves to the last known host recorded in\n# ~/.ssh/cluster-sessions. The alias keeps working; only migration-aware\n# resolution degrades (§16.5).\nHost dc-*\n  User vscode\n  ProxyCommand sh -c 'host=$(curl --silent --max-time 3 \\\n    \"http://"@
            + tailnet_name_text(c, storage)
            + ":8080/api/sessions/$(echo %h | cut -c4-)/connect\" \\\n    | jq -r .host 2>/dev/null); \\\n    [ -n \"$host\" ] && [ \"$host\" != null ] || \\\n    host=$(grep \"^%h \" ~/.ssh/cluster-sessions 2>/dev/null | cut -d\" \" -f2); \\\n    exec nc \"$host\" 22'\n"@,
    }
}

pub(crate) fn render(c: &Cluster) -> (r: Rendered)
    requires
        has_storage(*c),
    ensures
        r@ == ssh_config_file(*c),
{
    let storage = storage_of(c);
    let path = "ssh_config".to_owned();
    let body = "# Client SSH configuration. The primary client is a Chromebook, which\n# cannot build images and should not be assumed to run anything but a\n# browser and an SSH client: the developer's working environment is a\n# devcontainer on the cluster, not the Chromebook (§11).\n\nHost *\n  ServerAliveInterval 30\n  ServerAliveCountMax 4\n  PasswordAuthentication no\n  KbdInteractiveAuthentication no\n\n# The nodes themselves, by the names the tailnet gives them: management\n# addresses come from DHCP, so there is nothing stable to name (§3.2, §4.5).\n".to_owned()
        .concat(concat_strings(&host_lines_of(c)).as_str())
        .concat("\n# Devcontainer sessions. The ProxyCommand asks the control plane which node\n# currently hosts the session, so an alias survives a migration (§14.3).\n#\n# When the control plane is unreachable --- the storage node rebooting, or the client off\n# the tailnet --- the fallback resolves to the last known host recorded in\n# ~/.ssh/cluster-sessions. The alias keeps working; only migration-aware\n# resolution degrades (§16.5).\nHost dc-*\n  User vscode\n  ProxyCommand sh -c 'host=$(curl --silent --max-time 3 \\\n    \"http://")
        .concat(tailnet_name(c, &storage).as_str())
        .concat(":8080/api/sessions/$(echo %h | cut -c4-)/connect\" \\\n    | jq -r .host 2>/dev/null); \\\n    [ -n \"$host\" ] && [ \"$host\" != null ] || \\\n    host=$(grep \"^%h \" ~/.ssh/cluster-sessions 2>/dev/null | cut -d\" \" -f2); \\\n    exec nc \"$host\" 22'\n");
    Rendered::new(path, ids1("CD-10"), body)
}

// ---- laws of the files ----

/// The file is given.
pub(crate) proof fn lemma_ssh_given(c: Cluster)
    ensures
        is_ours(c, ssh_config_file(c)),
{
    reveal(is_ours);
    let all = seq![ssh_config_file(c)];
    assert(all.contains(all[0]));
}

/// A workstation reaches every node, and every session by its alias.
pub proof fn a_workstation_reaches_every_node(c: Cluster, out: Vec<Rendered>)
    requires
        call_ensures(render_all, (&c,), out),
    ensures
        ({
            let storage = storage(c);
            let path = "ssh_config"@;
            &&& shows(out@, path, "\nHost *\n  ServerAliveInterval 30\n  ServerAliveCountMax 4\n  PasswordAuthentication no\n  KbdInteractiveAuthentication no\n"@)
            &&& shows(out@, path, concat_all(host_lines(c)) + "\n"@)
            &&& shows(out@, path, "\nHost dc-*\n  User vscode\n  ProxyCommand sh -c 'host=$(curl --silent --max-time 3 \\\n    \"http://"@ + tailnet_name_text(c, storage) + ":8080/api/sessions/$(echo %h | cut -c4-)/connect\" \\\n    | jq -r .host 2>/dev/null); \\\n    [ -n \"$host\" ] && [ \"$host\" != null ] || \\\n    host=$(grep \"^%h \" ~/.ssh/cluster-sessions 2>/dev/null | cut -d\" \" -f2); \\\n    exec nc \"$host\" 22'\n"@)
        }),
{
    let storage = storage(c);
    let file = ssh_config_file(c);
    lemma_ssh_given(c);
    lemma_is_shown(c, out, file);
    let t0 = "# Client SSH configuration. The primary client is a Chromebook, which\n# cannot build images and should not be assumed to run anything but a\n# browser and an SSH client: the developer's working environment is a\n# devcontainer on the cluster, not the Chromebook (§11).\n\nHost *\n  ServerAliveInterval 30\n  ServerAliveCountMax 4\n  PasswordAuthentication no\n  KbdInteractiveAuthentication no\n\n# The nodes themselves, by the names the tailnet gives them: management\n# addresses come from DHCP, so there is nothing stable to name (§3.2, §4.5).\n"@;
    let b0 = t0;
    let t1 = concat_all(host_lines(c));
    let b1 = b0 + t1;
    let t2 = "\n# Devcontainer sessions. The ProxyCommand asks the control plane which node\n# currently hosts the session, so an alias survives a migration (§14.3).\n#\n# When the control plane is unreachable --- the storage node rebooting, or the client off\n# the tailnet --- the fallback resolves to the last known host recorded in\n# ~/.ssh/cluster-sessions. The alias keeps working; only migration-aware\n# resolution degrades (§16.5).\nHost dc-*\n  User vscode\n  ProxyCommand sh -c 'host=$(curl --silent --max-time 3 \\\n    \"http://"@;
    let b2 = b1 + t2;
    let t3 = tailnet_name_text(c, storage);
    let b3 = b2 + t3;
    let t4 = ":8080/api/sessions/$(echo %h | cut -c4-)/connect\" \\\n    | jq -r .host 2>/dev/null); \\\n    [ -n \"$host\" ] && [ \"$host\" != null ] || \\\n    host=$(grep \"^%h \" ~/.ssh/cluster-sessions 2>/dev/null | cut -d\" \" -f2); \\\n    exec nc \"$host\" 22'\n"@;
    let b4 = b3 + t4;
    lemma_ssh_config_file_0();
    let text = "\nHost *\n  ServerAliveInterval 30\n  ServerAliveCountMax 4\n  PasswordAuthentication no\n  KbdInteractiveAuthentication no\n"@;
    lemma_part_left(b0, t1, text);
    lemma_part_left(b1, t2, text);
    lemma_part_left(b2, t3, text);
    lemma_part_left(b3, t4, text);
    lemma_shows(out@, file, text);
    let q1 = t1;
    lemma_whole(t1);
    lemma_tail_right(b0, t1, q1);
    lemma_ssh_config_file_1();
    lemma_tail_is_cut(b1, q1, t2, "\n"@);
    let text = q1 + "\n"@;
    lemma_part_left(b2, t3, text);
    lemma_part_left(b3, t4, text);
    lemma_shows(out@, file, text);
    lemma_ssh_config_file_2();
    let q2 = "\nHost dc-*\n  User vscode\n  ProxyCommand sh -c 'host=$(curl --silent --max-time 3 \\\n    \"http://"@;
    lemma_tail_right(b1, t2, q2);
    lemma_tail_grows(b2, q2, t3);
    let q3 = q2 + t3;
    lemma_tail_grows(b3, q3, t4);
    let q4 = q3 + t4;
    let text = q4;
    lemma_shows(out@, file, text);
}

proof fn lemma_ssh_config_file_0()
    ensures
        is_part("# Client SSH configuration. The primary client is a Chromebook, which\n# cannot build images and should not be assumed to run anything but a\n# browser and an SSH client: the developer's working environment is a\n# devcontainer on the cluster, not the Chromebook (§11).\n\nHost *\n  ServerAliveInterval 30\n  ServerAliveCountMax 4\n  PasswordAuthentication no\n  KbdInteractiveAuthentication no\n\n# The nodes themselves, by the names the tailnet gives them: management\n# addresses come from DHCP, so there is nothing stable to name (§3.2, §4.5).\n"@, "\nHost *\n  ServerAliveInterval 30\n  ServerAliveCountMax 4\n  PasswordAuthentication no\n  KbdInteractiveAuthentication no\n"@),
{
    reveal(is_part);
    reveal_strlit("# Client SSH configuration. The primary client is a Chromebook, which\n# cannot build images and should not be assumed to run anything but a\n# browser and an SSH client: the developer's working environment is a\n# devcontainer on the cluster, not the Chromebook (§11).\n\nHost *\n  ServerAliveInterval 30\n  ServerAliveCountMax 4\n  PasswordAuthentication no\n  KbdInteractiveAuthentication no\n\n# The nodes themselves, by the names the tailnet gives them: management\n# addresses come from DHCP, so there is nothing stable to name (§3.2, §4.5).\n");
    reveal_strlit("\nHost *\n  ServerAliveInterval 30\n  ServerAliveCountMax 4\n  PasswordAuthentication no\n  KbdInteractiveAuthentication no\n");
    assert("# Client SSH configuration. The primary client is a Chromebook, which\n# cannot build images and should not be assumed to run anything but a\n# browser and an SSH client: the developer's working environment is a\n# devcontainer on the cluster, not the Chromebook (§11).\n\nHost *\n  ServerAliveInterval 30\n  ServerAliveCountMax 4\n  PasswordAuthentication no\n  KbdInteractiveAuthentication no\n\n# The nodes themselves, by the names the tailnet gives them: management\n# addresses come from DHCP, so there is nothing stable to name (§3.2, §4.5).\n"@.subrange(267, 386) =~= "\nHost *\n  ServerAliveInterval 30\n  ServerAliveCountMax 4\n  PasswordAuthentication no\n  KbdInteractiveAuthentication no\n"@);
    assert(occurs_at("# Client SSH configuration. The primary client is a Chromebook, which\n# cannot build images and should not be assumed to run anything but a\n# browser and an SSH client: the developer's working environment is a\n# devcontainer on the cluster, not the Chromebook (§11).\n\nHost *\n  ServerAliveInterval 30\n  ServerAliveCountMax 4\n  PasswordAuthentication no\n  KbdInteractiveAuthentication no\n\n# The nodes themselves, by the names the tailnet gives them: management\n# addresses come from DHCP, so there is nothing stable to name (§3.2, §4.5).\n"@, "\nHost *\n  ServerAliveInterval 30\n  ServerAliveCountMax 4\n  PasswordAuthentication no\n  KbdInteractiveAuthentication no\n"@, 267));
}

proof fn lemma_ssh_config_file_1()
    ensures
        is_head("\n# Devcontainer sessions. The ProxyCommand asks the control plane which node\n# currently hosts the session, so an alias survives a migration (§14.3).\n#\n# When the control plane is unreachable --- the storage node rebooting, or the client off\n# the tailnet --- the fallback resolves to the last known host recorded in\n# ~/.ssh/cluster-sessions. The alias keeps working; only migration-aware\n# resolution degrades (§16.5).\nHost dc-*\n  User vscode\n  ProxyCommand sh -c 'host=$(curl --silent --max-time 3 \\\n    \"http://"@, "\n"@),
{
    reveal(is_head);
    reveal_strlit("\n# Devcontainer sessions. The ProxyCommand asks the control plane which node\n# currently hosts the session, so an alias survives a migration (§14.3).\n#\n# When the control plane is unreachable --- the storage node rebooting, or the client off\n# the tailnet --- the fallback resolves to the last known host recorded in\n# ~/.ssh/cluster-sessions. The alias keeps working; only migration-aware\n# resolution degrades (§16.5).\nHost dc-*\n  User vscode\n  ProxyCommand sh -c 'host=$(curl --silent --max-time 3 \\\n    \"http://");
    reveal_strlit("\n");
    assert("\n# Devcontainer sessions. The ProxyCommand asks the control plane which node\n# currently hosts the session, so an alias survives a migration (§14.3).\n#\n# When the control plane is unreachable --- the storage node rebooting, or the client off\n# the tailnet --- the fallback resolves to the last known host recorded in\n# ~/.ssh/cluster-sessions. The alias keeps working; only migration-aware\n# resolution degrades (§16.5).\nHost dc-*\n  User vscode\n  ProxyCommand sh -c 'host=$(curl --silent --max-time 3 \\\n    \"http://"@.subrange(0, 1) =~= "\n"@);
}

proof fn lemma_ssh_config_file_2()
    ensures
        is_tail("\n# Devcontainer sessions. The ProxyCommand asks the control plane which node\n# currently hosts the session, so an alias survives a migration (§14.3).\n#\n# When the control plane is unreachable --- the storage node rebooting, or the client off\n# the tailnet --- the fallback resolves to the last known host recorded in\n# ~/.ssh/cluster-sessions. The alias keeps working; only migration-aware\n# resolution degrades (§16.5).\nHost dc-*\n  User vscode\n  ProxyCommand sh -c 'host=$(curl --silent --max-time 3 \\\n    \"http://"@, "\nHost dc-*\n  User vscode\n  ProxyCommand sh -c 'host=$(curl --silent --max-time 3 \\\n    \"http://"@),
{
    reveal(is_tail);
    reveal_strlit("\n# Devcontainer sessions. The ProxyCommand asks the control plane which node\n# currently hosts the session, so an alias survives a migration (§14.3).\n#\n# When the control plane is unreachable --- the storage node rebooting, or the client off\n# the tailnet --- the fallback resolves to the last known host recorded in\n# ~/.ssh/cluster-sessions. The alias keeps working; only migration-aware\n# resolution degrades (§16.5).\nHost dc-*\n  User vscode\n  ProxyCommand sh -c 'host=$(curl --silent --max-time 3 \\\n    \"http://");
    reveal_strlit("\nHost dc-*\n  User vscode\n  ProxyCommand sh -c 'host=$(curl --silent --max-time 3 \\\n    \"http://");
    assert("\n# Devcontainer sessions. The ProxyCommand asks the control plane which node\n# currently hosts the session, so an alias survives a migration (§14.3).\n#\n# When the control plane is unreachable --- the storage node rebooting, or the client off\n# the tailnet --- the fallback resolves to the last known host recorded in\n# ~/.ssh/cluster-sessions. The alias keeps working; only migration-aware\n# resolution degrades (§16.5).\nHost dc-*\n  User vscode\n  ProxyCommand sh -c 'host=$(curl --silent --max-time 3 \\\n    \"http://"@.subrange(420, 515) =~= "\nHost dc-*\n  User vscode\n  ProxyCommand sh -c 'host=$(curl --silent --max-time 3 \\\n    \"http://"@);
}

} // verus!
