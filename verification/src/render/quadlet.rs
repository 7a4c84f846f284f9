//! Container units, rendered from each role's declared containers.
//!
//! Every role's units ship on every machine, and the role decides which start:
//! a unit of one role waits for that role's marker, and a unit whose condition
//! is unmet is skipped rather than failed.
use vstd::prelude::*;

use crate::check::images::RUNNER_PAT;
use crate::cluster::Role;
use crate::images::{Mount, Quadlet, QuadletMount, Runner, Variant};
use crate::model::Cluster;
use crate::named::row;
use crate::render::{files, flag, flag_of, ids1, marker, role_marker, File, Rendered};
use crate::text::{
    concat_all,
    concat_strings,
    decimal,
    decimal_of,
    join,
    join_strings,
    replace,
    replaced,
    strip_leading,
    views,
    without_leading,
};
use crate::render::claims::{
    is_head,
    is_ours,
    is_part,
    is_tail,
    lemma_in_either,
    lemma_is_shown,
    lemma_role_files,
    lemma_part_left,
    lemma_part_right,
    lemma_shows,
    lemma_tail_grows,
    lemma_tail_is_cut,
    lemma_tail_right,
    lemma_whole,
    shows,
};
use crate::render::render_all;
use crate::text::occurs_at;

verus! {

/// The role a unit waits for, if it waits for one.
pub open spec fn gate_view(gate: Option<&str>) -> Option<Seq<char>> {
    match gate {
        Some(role) => Some(role@),
        None => None,
    }
}

/// What a unit says of the roles it starts on.
pub open spec fn intro_text(gate: Option<Seq<char>>) -> Seq<char> {
    match gate {
        None => "#\n# Every role runs this one, so it carries no condition.\n\n"@,
        Some(role) => "#\n# Ships on all three machines and starts on the one holding `"@
            + role
            + "`. A unit\n# whose condition is unmet is *skipped*, not failed, which is what lets one\n# image boot cleanly into any role (§8.4).\n\n"@,
    }
}

fn intro(gate: Option<&str>) -> (r: String)
    ensures
        r@ == intro_text(gate_view(gate)),
{
    match gate {
        None => "#\n# Every role runs this one, so it carries no condition.\n\n".to_owned(),
        Some(role) => "#\n# Ships on all three machines and starts on the one holding `".to_owned()
            .concat(role)
            .concat("`. A unit\n# whose condition is unmet is *skipped*, not failed, which is what lets one\n# image boot cleanly into any role (§8.4).\n\n"),
    }
}

/// What a unit of one role waits for.
pub open spec fn condition_text(gate: Option<Seq<char>>) -> Seq<char> {
    match gate {
        None => Seq::empty(),
        Some(role) => "ConditionPathExists="@ + marker(role) + "\n"@,
    }
}

fn condition(gate: Option<&str>) -> (r: String)
    ensures
        r@ == condition_text(gate_view(gate)),
{
    match gate {
        None => String::new(),
        Some(role) => "ConditionPathExists=".to_owned().concat(role_marker(role).as_str()).concat(
            "\n",
        ),
    }
}

/// Whether every placeholder of a unit's published ports resolves.
pub open spec fn publishable(c: Cluster, quadlet: Quadlet) -> bool {
    forall|k: int| 0 <= k < quadlet.publish@.len() ==> c.resolves((#[trigger] quadlet.publish@[k])@)
}

/// One published port.
pub open spec fn publish_line(c: Cluster, quadlet: Quadlet, port: String) -> Seq<char> {
    "PublishPort="@
        + c.expanded(port@)
        + "\n"@
}

fn publish_line_of(c: &Cluster, quadlet: &Quadlet, port: &String) -> (r: String)
    requires
        c.resolves(port@),
    ensures
        r@ == publish_line(*c, *quadlet, *port),
{
    "PublishPort=".to_owned()
        .concat(c.expand(port.as_str()).as_str())
        .concat("\n")
}

/// One text for each, in order.
pub open spec fn publish_lines(c: Cluster, quadlet: Quadlet) -> Seq<Seq<char>> {
    let list = quadlet.publish@;
    Seq::new(list.len(), |i: int| publish_line(c, quadlet, list[i]))
}

fn publish_lines_of(c: &Cluster, quadlet: &Quadlet) -> (out: Vec<String>)
    requires
        publishable(*c, *quadlet),
    ensures
        views(out@) == publish_lines(*c, *quadlet),
{
    let list = &quadlet.publish;
    let ghost all = quadlet.publish@;
    let mut out: Vec<String> = Vec::new();
    let mut i: usize = 0;
    while i < list.len()
        invariant
            i <= list.len(),
            all == quadlet.publish@,
            list@ == all,
            out.len() == i,
            publishable(*c, *quadlet),
            forall|k: int| 0 <= k < i ==> (#[trigger] out@[k])@ == publish_line(*c, *quadlet, all[k]),
        decreases list.len() - i,
    {
        proof {
            assert(all[i as int] == list@[i as int]);
        }
        out.push(publish_line_of(c, quadlet, &list[i]));
        i = i + 1;
    }
    proof {
        assert(views(out@) =~= publish_lines(*c, *quadlet));
    }
    out
}

/// One mount, relabel flag included.
pub open spec fn volume_line(c: Cluster, quadlet: Quadlet, mount: QuadletMount) -> Seq<char> {
    "Volume="@
        + mount.volume_spec()
        + "\n"@
}

fn volume_line_of(c: &Cluster, quadlet: &Quadlet, mount: &QuadletMount) -> (r: String)
    ensures
        r@ == volume_line(*c, *quadlet, *mount),
{
    "Volume=".to_owned()
        .concat(mount.volume_line().as_str())
        .concat("\n")
}

/// One text for each, in order.
pub open spec fn volume_lines(c: Cluster, quadlet: Quadlet) -> Seq<Seq<char>> {
    let list = quadlet.mount@;
    Seq::new(list.len(), |i: int| volume_line(c, quadlet, list[i]))
}

fn volume_lines_of(c: &Cluster, quadlet: &Quadlet) -> (out: Vec<String>)
    ensures
        views(out@) == volume_lines(*c, *quadlet),
{
    let list = &quadlet.mount;
    let ghost all = quadlet.mount@;
    let mut out: Vec<String> = Vec::new();
    let mut i: usize = 0;
    while i < list.len()
        invariant
            i <= list.len(),
            all == quadlet.mount@,
            list@ == all,
            out.len() == i,
            forall|k: int| 0 <= k < i ==> (#[trigger] out@[k])@ == volume_line(*c, *quadlet, all[k]),
        decreases list.len() - i,
    {
        proof {
            assert(all[i as int] == list@[i as int]);
        }
        out.push(volume_line_of(c, quadlet, &list[i]));
        i = i + 1;
    }
    proof {
        assert(views(out@) =~= volume_lines(*c, *quadlet));
    }
    out
}

/// One argument, its thresholds filled in.
pub open spec fn argument_line(c: Cluster, quadlet: Quadlet, argument: String) -> Seq<char> {
    c.policy_expanded(argument@)
}

fn argument_line_of(c: &Cluster, quadlet: &Quadlet, argument: &String) -> (r: String)
    ensures
        r@ == argument_line(*c, *quadlet, *argument),
{
    c.expand_policy(argument.as_str())
}

/// One text for each, in order.
pub open spec fn argument_lines(c: Cluster, quadlet: Quadlet) -> Seq<Seq<char>> {
    let list = quadlet.arguments@;
    Seq::new(list.len(), |i: int| argument_line(c, quadlet, list[i]))
}

fn argument_lines_of(c: &Cluster, quadlet: &Quadlet) -> (out: Vec<String>)
    ensures
        views(out@) == argument_lines(*c, *quadlet),
{
    let list = &quadlet.arguments;
    let ghost all = quadlet.arguments@;
    let mut out: Vec<String> = Vec::new();
    let mut i: usize = 0;
    while i < list.len()
        invariant
            i <= list.len(),
            all == quadlet.arguments@,
            list@ == all,
            out.len() == i,
            forall|k: int| 0 <= k < i ==> (#[trigger] out@[k])@ == argument_line(*c, *quadlet, all[k]),
        decreases list.len() - i,
    {
        proof {
            assert(all[i as int] == list@[i as int]);
        }
        out.push(argument_line_of(c, quadlet, &list[i]));
        i = i + 1;
    }
    proof {
        assert(views(out@) =~= argument_lines(*c, *quadlet));
    }
    out
}

/// The network a unit needs.
pub open spec fn network_text(quadlet: Quadlet) -> Seq<char> {
    match quadlet.network {
        Some(network) => "Network="@
            + network@
            + "\n"@,
        None => Seq::<char>::empty(),
    }
}

fn network(quadlet: &Quadlet) -> (r: String)
    ensures
        r@ == network_text(*quadlet),
{
    match &quadlet.network {
        Some(network) => "Network=".to_owned()
            .concat(network.as_str())
            .concat("\n"),
        None => String::new(),
    }
}

/// What the container is started with.
pub open spec fn command_text(c: Cluster, quadlet: Quadlet) -> Seq<char> {
    if quadlet.arguments@.len() > 0 {
        "Exec="@
            + join(argument_lines(c, quadlet), " "@)
            + "\n"@
    } else {
        Seq::<char>::empty()
    }
}

fn command(c: &Cluster, quadlet: &Quadlet) -> (r: String)
    ensures
        r@ == command_text(*c, *quadlet),
{
    if quadlet.arguments.len() > 0 {
        "Exec=".to_owned()
            .concat(join_strings(&argument_lines_of(c, quadlet), " ").as_str())
            .concat("\n")
    } else {
        String::new()
    }
}

/// One container unit: `gate` is the role it waits for, and none for what
/// every machine runs.
pub open spec fn container_file(c: Cluster, quadlet: Quadlet, gate: Option<Seq<char>>) -> File {
    File {
        path: "node/containers-systemd/"@ + quadlet.name@ + "."@ + quadlet.kind@,
        ids: seq!["CD-05"@],
        body: "# "@
            + quadlet.description@
            + "\n"@
            + intro_text(gate)
            + "[Unit]\nDescription="@
            + quadlet.description@
            + "\nAfter=network-online.target\nWants=network-online.target\n"@
            + condition_text(gate)
            + "\n[Container]\nImage="@
            + quadlet.image@
            + "\nContainerName="@
            + quadlet.name@
            + "\n"@
            + concat_all(publish_lines(c, quadlet))
            + network_text(quadlet)
            + concat_all(volume_lines(c, quadlet))
            + command_text(c, quadlet)
            + "\n[Service]\nRestart=always\nTimeoutStartSec=300\n\n[Install]\nWantedBy=multi-user.target default.target\n\n"@,
    }
}

pub(crate) fn container_unit(c: &Cluster, quadlet: &Quadlet, gate: Option<&str>) -> (r: Rendered)
    requires
        publishable(*c, *quadlet),
    ensures
        r@ == container_file(*c, *quadlet, gate_view(gate)),
{
    let path = "node/containers-systemd/".to_owned().concat(quadlet.name.as_str()).concat(".").concat(
        quadlet.kind.as_str(),
    );
    let body = "# ".to_owned()
        .concat(quadlet.description.as_str())
        .concat("\n")
        .concat(intro(gate).as_str())
        .concat("[Unit]\nDescription=")
        .concat(quadlet.description.as_str())
        .concat("\nAfter=network-online.target\nWants=network-online.target\n")
        .concat(condition(gate).as_str())
        .concat("\n[Container]\nImage=")
        .concat(quadlet.image.as_str())
        .concat("\nContainerName=")
        .concat(quadlet.name.as_str())
        .concat("\n")
        .concat(concat_strings(&publish_lines_of(c, quadlet)).as_str())
        .concat(network(quadlet).as_str())
        .concat(concat_strings(&volume_lines_of(c, quadlet)).as_str())
        .concat(command(c, quadlet).as_str())
        .concat("\n[Service]\nRestart=always\nTimeoutStartSec=300\n\n[Install]\nWantedBy=multi-user.target default.target\n\n");
    Rendered::new(path, ids1("CD-05"), body)
}

/// How many jobs a role takes at once.
pub open spec fn limit_text(runner: Runner) -> Seq<char> {
    match runner.concurrency {
        Some(limit) => "Environment=RUNNER_CONCURRENCY="@
            + decimal(limit as nat)
            + "\n"@,
        None => Seq::<char>::empty(),
    }
}

fn limit(runner: &Runner) -> (r: String)
    ensures
        r@ == limit_text(*runner),
{
    match &runner.concurrency {
        Some(limit) => "Environment=RUNNER_CONCURRENCY=".to_owned()
            .concat(decimal_of(*limit as u64).as_str())
            .concat("\n"),
        None => String::new(),
    }
}

/// One runner of a role: it exits after one job, and waits for its credential.
pub open spec fn runner_unit_file(c: Cluster, role: Role, runner: Runner) -> File {
    File {
        path: "node/systemd/cluster-runner-"@
            + runner.name@
            + ".service"@,
        ids: seq!["CD-05"@],
        body: "# Actions runner "@
            + runner.name@
            + " on the `"@
            + role.id@
            + "` role. --ephemeral: the runner exits\n# after one job, so draining is a matter of not re-registering rather\n# than of killing work in flight (§14.1).\n\n[Unit]\nDescription=Actions runner "@
            + runner.name@
            + "\nAfter=network-online.target\nWants=network-online.target\nConditionPathExists="@
            + marker(role.id@)
            + "\nConditionPathExists="@
            + RUNNER_PAT@
            + "\n\n[Service]\nType=simple\nEnvironment=RUNNER_NAME="@
            + runner.name@
            + "\nEnvironment=RUNNER_LABELS="@
            + join(views(runner.labels@), ","@)
            + "\nEnvironment=RUNNER_EPHEMERAL="@
            + flag(runner.ephemeral)
            + "\nEnvironment=RUNNER_URL=https://github.com/"@
            + c.images.signing.repository@
            + "\nEnvironmentFile=/etc/cluster/runner.env\nExecStart=/usr/libexec/cluster/runner-loop-"@
            + role.id@
            + "\nRestart=always\nRestartSec=15\n"@
            + limit_text(runner)
            + "\n[Install]\nWantedBy=multi-user.target\n\n"@,
    }
}

pub(crate) fn runner_unit(c: &Cluster, role: &Role, runner: &Runner) -> (r: Rendered)
    ensures
        r@ == runner_unit_file(*c, *role, *runner),
{
    let path = "node/systemd/cluster-runner-".to_owned()
        .concat(runner.name.as_str())
        .concat(".service");
    let body = "# Actions runner ".to_owned()
        .concat(runner.name.as_str())
        .concat(" on the `")
        .concat(role.id.as_str())
        .concat("` role. --ephemeral: the runner exits\n# after one job, so draining is a matter of not re-registering rather\n# than of killing work in flight (§14.1).\n\n[Unit]\nDescription=Actions runner ")
        .concat(runner.name.as_str())
        .concat("\nAfter=network-online.target\nWants=network-online.target\nConditionPathExists=")
        .concat(role_marker(role.id.as_str()).as_str())
        .concat("\nConditionPathExists=")
        .concat(RUNNER_PAT)
        .concat("\n\n[Service]\nType=simple\nEnvironment=RUNNER_NAME=")
        .concat(runner.name.as_str())
        .concat("\nEnvironment=RUNNER_LABELS=")
        .concat(join_strings(&runner.labels, ",").as_str())
        .concat("\nEnvironment=RUNNER_EPHEMERAL=")
        .concat(flag_of(runner.ephemeral))
        .concat("\nEnvironment=RUNNER_URL=https://github.com/")
        .concat(c.images.signing.repository.as_str())
        .concat("\nEnvironmentFile=/etc/cluster/runner.env\nExecStart=/usr/libexec/cluster/runner-loop-")
        .concat(role.id.as_str())
        .concat("\nRestart=always\nRestartSec=15\n")
        .concat(limit(runner).as_str())
        .concat("\n[Install]\nWantedBy=multi-user.target\n\n");
    Rendered::new(path, ids1("CD-05"), body)
}

/// The name of a mount unit: its mount point, escaped.
///
/// The escaping is not a plain slash-to-dash swap: a literal `-` becomes
/// `\\x2d` first, or two different paths would name the same unit.
pub open spec fn mount_unit(where_: Seq<char>) -> Seq<char> {
    replaced(replaced(without_leading(where_, '/'), "-"@, "\\x2d"@), "/"@, "-"@) + ".mount"@
}

fn mount_unit_of(where_: &str) -> (r: String)
    ensures
        r@ == mount_unit(where_@),
{
    let bare = strip_leading(where_, '/');
    let escaped = replace(bare.as_str(), "-", "\\x2d");
    replace(escaped.as_str(), "/", "-").concat(".mount")
}

/// One network filesystem of a role: a hard mount, which stalls and recovers.
pub open spec fn mount_point_file(c: Cluster, role: Role, mount: Mount) -> File {
    File {
        path: "node/systemd/"@
            + mount_unit(mount.where_@),
        ids: seq!["CD-05"@],
        body: "# "@
            + c.expanded(mount.what@)
            + " on the `"@
            + role.id@
            + "` role. Hard mount: it stalls and recovers cleanly\n# across the storage node's reboot, where a soft mount would return\n# errors to a devcontainer mid-write (§14.2).\n\n[Unit]\nDescription="@
            + c.expanded(mount.what@)
            + " at "@
            + mount.where_@
            + "\nAfter=network-online.target\nWants=network-online.target\nConditionPathExists="@
            + marker(role.id@)
            + "\n\n[Mount]\nWhat="@
            + c.expanded(mount.what@)
            + "\nWhere="@
            + c.expanded(mount.where_@)
            + "\nType="@
            + mount.fstype@
            + "\nOptions="@
            + mount.options@
            + "\n\n[Install]\nWantedBy=remote-fs.target\n\n"@,
    }
}

pub(crate) fn mount_point(c: &Cluster, role: &Role, mount: &Mount) -> (r: Rendered)
    requires
        c.resolves(mount.what@),
        c.resolves(mount.where_@),
    ensures
        r@ == mount_point_file(*c, *role, *mount),
{
    let path = "node/systemd/".to_owned()
        .concat(mount_unit_of(mount.where_.as_str()).as_str());
    let body = "# ".to_owned()
        .concat(c.expand(mount.what.as_str()).as_str())
        .concat(" on the `")
        .concat(role.id.as_str())
        .concat("` role. Hard mount: it stalls and recovers cleanly\n# across the storage node's reboot, where a soft mount would return\n# errors to a devcontainer mid-write (§14.2).\n\n[Unit]\nDescription=")
        .concat(c.expand(mount.what.as_str()).as_str())
        .concat(" at ")
        .concat(mount.where_.as_str())
        .concat("\nAfter=network-online.target\nWants=network-online.target\nConditionPathExists=")
        .concat(role_marker(role.id.as_str()).as_str())
        .concat("\n\n[Mount]\nWhat=")
        .concat(c.expand(mount.what.as_str()).as_str())
        .concat("\nWhere=")
        .concat(c.expand(mount.where_.as_str()).as_str())
        .concat("\nType=")
        .concat(mount.fstype.as_str())
        .concat("\nOptions=")
        .concat(mount.options.as_str())
        .concat("\n\n[Install]\nWantedBy=remote-fs.target\n\n");
    Rendered::new(path, ids1("CD-05"), body)
}

/// The container units of a role.
pub open spec fn own_files(c: Cluster, role: Role, variant: Variant) -> Seq<File> {
    Seq::new(
        variant.quadlet@.len(),
        |i: int| container_file(c, variant.quadlet@[i], Some(role.id@)),
    )
}

/// The runner units of a role.
pub open spec fn runner_files(c: Cluster, role: Role, variant: Variant) -> Seq<File> {
    Seq::new(variant.runner@.len(), |i: int| runner_unit_file(c, role, variant.runner@[i]))
}

/// The mounts of a role.
pub open spec fn mount_files(c: Cluster, role: Role, variant: Variant) -> Seq<File> {
    Seq::new(variant.mount@.len(), |i: int| mount_point_file(c, role, variant.mount@[i]))
}

/// Whether every placeholder of a variant resolves.
pub open spec fn variant_resolves(c: Cluster, variant: Variant) -> bool {
    &&& forall|k: int|
        0 <= k < variant.quadlet@.len() ==> publishable(c, #[trigger] variant.quadlet@[k])
    &&& forall|k: int|
        0 <= k < variant.mount@.len() ==> c.resolves((#[trigger] variant.mount@[k]).what@)
            && c.resolves(variant.mount@[k].where_@)
}

fn each_own(c: &Cluster, role: &Role, variant: &Variant) -> (out: Vec<Rendered>)
    requires
        variant_resolves(*c, *variant),
    ensures
        files(out@) == own_files(*c, *role, *variant),
{
    let mut out: Vec<Rendered> = Vec::new();
    let mut i: usize = 0;
    while i < variant.quadlet.len()
        invariant
            i <= variant.quadlet.len(),
            variant_resolves(*c, *variant),
            out.len() == i,
            forall|k: int| 0 <= k < i ==> (#[trigger] out@[k])@ == container_file(*c, variant.quadlet@[k], Some(role.id@)),
        decreases variant.quadlet.len() - i,
    {
        out.push(container_unit(c, &variant.quadlet[i], Some(role.id.as_str())));
        i = i + 1;
    }
    proof {
        assert(files(out@) =~= own_files(*c, *role, *variant));
    }
    out
}

fn each_runner(c: &Cluster, role: &Role, variant: &Variant) -> (out: Vec<Rendered>)
    ensures
        files(out@) == runner_files(*c, *role, *variant),
{
    let mut out: Vec<Rendered> = Vec::new();
    let mut i: usize = 0;
    while i < variant.runner.len()
        invariant
            i <= variant.runner.len(),
            out.len() == i,
            forall|k: int| 0 <= k < i ==> (#[trigger] out@[k])@ == runner_unit_file(*c, *role, variant.runner@[k]),
        decreases variant.runner.len() - i,
    {
        out.push(runner_unit(c, role, &variant.runner[i]));
        i = i + 1;
    }
    proof {
        assert(files(out@) =~= runner_files(*c, *role, *variant));
    }
    out
}

fn each_mount(c: &Cluster, role: &Role, variant: &Variant) -> (out: Vec<Rendered>)
    requires
        variant_resolves(*c, *variant),
    ensures
        files(out@) == mount_files(*c, *role, *variant),
{
    let mut out: Vec<Rendered> = Vec::new();
    let mut i: usize = 0;
    while i < variant.mount.len()
        invariant
            i <= variant.mount.len(),
            variant_resolves(*c, *variant),
            out.len() == i,
            forall|k: int| 0 <= k < i ==> (#[trigger] out@[k])@ == mount_point_file(*c, *role, variant.mount@[k]),
        decreases variant.mount.len() - i,
    {
        out.push(mount_point(c, role, &variant.mount[i]));
        i = i + 1;
    }
    proof {
        assert(files(out@) =~= mount_files(*c, *role, *variant));
    }
    out
}

/// Every unit of a role: its containers, its runners, its mounts.
pub open spec fn role_files(c: Cluster, role: Role) -> Seq<File> {
    match row(c.images.variant@, role.id@) {
        Some(variant) => own_files(c, role, variant) + runner_files(c, role, variant) + mount_files(
            c,
            role,
            variant,
        ),
        None => Seq::empty(),
    }
}

/// Every unit of a role: its containers, its runners, its mounts.
pub(crate) fn for_role(c: &Cluster, role: &Role) -> (out: Vec<Rendered>)
    requires
        all_resolve(*c),
    ensures
        files(out@) == role_files(*c, *role),
{
    match c.images.variant_for(role.id.as_str()) {
        Some(variant) => {
            proof {
                crate::named::a_lookup_finds_the_name(c.images.variant@, role.id@);
                let k = c.images.variant@.index_of(*variant);
                assert(variant_resolves(*c, c.images.variant@[k]));
            }
            let mut out = each_own(c, role, variant);
            let mut runners = each_runner(c, role, variant);
            let mut mounts = each_mount(c, role, variant);
            let ghost (x, y, z) = (out@, runners@, mounts@);
            out.append(&mut runners);
            out.append(&mut mounts);
            proof {
                assert(files(out@) =~= files(x) + files(y) + files(z));
            }
            out
        },
        None => {
            let out: Vec<Rendered> = Vec::new();
            proof {
                assert(files(out@) =~= Seq::<File>::empty());
            }
            out
        },
    }
}

/// Whether every placeholder of the image resolves.
pub open spec fn all_resolve(c: Cluster) -> bool {
    &&& forall|k: int|
        0 <= k < c.images.base.quadlet@.len() ==> publishable(
            c,
            #[trigger] c.images.base.quadlet@[k],
        )
    &&& forall|k: int|
        0 <= k < c.images.variant@.len() ==> variant_resolves(c, #[trigger] c.images.variant@[k])
}

/// The units of the base.
pub open spec fn base_files(c: Cluster) -> Seq<File> {
    Seq::new(
        c.images.base.quadlet@.len(),
        |i: int| container_file(c, c.images.base.quadlet@[i], None),
    )
}

/// The units of the first `n` roles.
pub open spec fn roles_files(c: Cluster, n: int) -> Seq<File>
    decreases n,
{
    if n <= 0 {
        Seq::empty()
    } else {
        roles_files(c, n - 1) + role_files(c, c.cluster.role@[n - 1])
    }
}

/// Every container unit: the base's, rendered once, then each role's.
pub open spec fn quadlet_files(c: Cluster) -> Seq<File> {
    base_files(c) + roles_files(c, c.cluster.role@.len() as int)
}

/// Every container unit: the base's, rendered once, then each role's.
pub(crate) fn render(c: &Cluster) -> (out: Vec<Rendered>)
    requires
        all_resolve(*c),
    ensures
        files(out@) == quadlet_files(*c),
{
    let mut out: Vec<Rendered> = Vec::new();
    let mut i: usize = 0;
    while i < c.images.base.quadlet.len()
        invariant
            i <= c.images.base.quadlet.len(),
            all_resolve(*c),
            out.len() == i,
            forall|k: int|
                0 <= k < i ==> (#[trigger] out@[k])@ == container_file(
                    *c,
                    c.images.base.quadlet@[k],
                    None,
                ),
        decreases c.images.base.quadlet.len() - i,
    {
        out.push(container_unit(c, &c.images.base.quadlet[i], None));
        i = i + 1;
    }
    let mut j: usize = 0;
    proof {
        assert(files(out@) =~= base_files(*c) + roles_files(*c, 0));
    }
    while j < c.cluster.role.len()
        invariant
            j <= c.cluster.role.len(),
            all_resolve(*c),
            files(out@) == base_files(*c) + roles_files(*c, j as int),
        decreases c.cluster.role.len() - j,
    {
        let mut more = for_role(c, &c.cluster.role[j]);
        let ghost (x, y) = (out@, more@);
        out.append(&mut more);
        proof {
            assert(files(out@) =~= files(x) + files(y));
            assert(base_files(*c) + roles_files(*c, j as int) + files(y) =~= base_files(*c) + (
            roles_files(*c, j as int) + files(y)));
        }
        j = j + 1;
    }
    out
}

// ---- laws of the units ----

proof fn lemma_base_given(c: Cluster, q: int)
    requires
        0 <= q < c.images.base.quadlet@.len(),
    ensures
        is_ours(c, container_file(c, c.images.base.quadlet@[q], None)),
{
    reveal(is_ours);
    let file = container_file(c, c.images.base.quadlet@[q], None);
    assert(base_files(c)[q] == file);
    lemma_in_either(base_files(c), roles_files(c, c.cluster.role@.len() as int), file);
}

proof fn lemma_role_given(c: Cluster, r: int, file: File)
    requires
        0 <= r < c.cluster.role@.len(),
        role_files(c, c.cluster.role@[r]).contains(file),
    ensures
        is_ours(c, file),
{
    reveal(is_ours);
    let k = role_files(c, c.cluster.role@[r]).index_of(file);
    lemma_role_files(c, r, k, c.cluster.role@.len() as int);
    lemma_in_either(base_files(c), roles_files(c, c.cluster.role@.len() as int), file);
}

proof fn lemma_container_given(c: Cluster, r: int, variant: Variant, q: int)
    requires
        0 <= r < c.cluster.role@.len(),
        row(c.images.variant@, c.cluster.role@[r].id@) == Some(variant),
        0 <= q < variant.quadlet@.len(),
    ensures
        is_ours(
            c,
            container_file(c, variant.quadlet@[q], Some(c.cluster.role@[r].id@)),
        ),
{
    let role = c.cluster.role@[r];
    let file = container_file(c, variant.quadlet@[q], Some(role.id@));
    let (x, y, z) = (
        own_files(c, role, variant),
        runner_files(c, role, variant),
        mount_files(c, role, variant),
    );
    assert(x[q] == file);
    lemma_in_either(x, y, file);
    lemma_in_either(x + y, z, file);
    lemma_role_given(c, r, file);
}

proof fn lemma_runner_given(c: Cluster, r: int, variant: Variant, q: int)
    requires
        0 <= r < c.cluster.role@.len(),
        row(c.images.variant@, c.cluster.role@[r].id@) == Some(variant),
        0 <= q < variant.runner@.len(),
    ensures
        is_ours(c, runner_unit_file(c, c.cluster.role@[r], variant.runner@[q])),
{
    let role = c.cluster.role@[r];
    let file = runner_unit_file(c, role, variant.runner@[q]);
    let (x, y, z) = (
        own_files(c, role, variant),
        runner_files(c, role, variant),
        mount_files(c, role, variant),
    );
    assert(y[q] == file);
    lemma_in_either(x, y, file);
    lemma_in_either(x + y, z, file);
    lemma_role_given(c, r, file);
}

proof fn lemma_mount_given(c: Cluster, r: int, variant: Variant, q: int)
    requires
        0 <= r < c.cluster.role@.len(),
        row(c.images.variant@, c.cluster.role@[r].id@) == Some(variant),
        0 <= q < variant.mount@.len(),
    ensures
        is_ours(c, mount_point_file(c, c.cluster.role@[r], variant.mount@[q])),
{
    let role = c.cluster.role@[r];
    let file = mount_point_file(c, role, variant.mount@[q]);
    let (x, y, z) = (
        own_files(c, role, variant),
        runner_files(c, role, variant),
        mount_files(c, role, variant),
    );
    assert(z[q] == file);
    lemma_in_either(x + y, z, file);
    lemma_role_given(c, r, file);
}

/// A container that every machine runs has its image, its ports and its volumes,
/// and no condition.
pub proof fn a_container_of_every_machine_runs_its_image(c: Cluster, out: Vec<Rendered>, q: int)
    requires
        call_ensures(render_all, (&c,), out),
        0 <= q < c.images.base.quadlet@.len(),
    ensures
        ({
            let quadlet = c.images.base.quadlet@[q];
            let gate = None::<Seq<char>>;
            let path = "node/containers-systemd/"@ + quadlet.name@ + "."@ + quadlet.kind@;
            &&& shows(out@, path, intro_text(gate) + "[Unit]\nDescription="@ + quadlet.description@ + "\nAfter=network-online.target\nWants=network-online.target\n"@ + condition_text(gate) + "\n[Container]\nImage="@ + quadlet.image@ + "\nContainerName="@ + quadlet.name@ + "\n"@ + concat_all(publish_lines(c, quadlet)) + network_text(quadlet) + concat_all(volume_lines(c, quadlet)) + command_text(c, quadlet) + "\n[Service]\nRestart=always\nTimeoutStartSec=300\n"@)
            &&& shows(out@, path, "\n[Install]\nWantedBy=multi-user.target default.target\n"@)
        }),
{
    let quadlet = c.images.base.quadlet@[q];
    let gate = None::<Seq<char>>;
    let file = container_file(c, quadlet, gate);
    lemma_base_given(c, q);
    lemma_is_shown(c, out, file);
    let t0 = "# "@;
    let b0 = t0;
    let t1 = quadlet.description@;
    let b1 = b0 + t1;
    let t2 = "\n"@;
    let b2 = b1 + t2;
    let t3 = intro_text(gate);
    let b3 = b2 + t3;
    let t4 = "[Unit]\nDescription="@;
    let b4 = b3 + t4;
    let t5 = quadlet.description@;
    let b5 = b4 + t5;
    let t6 = "\nAfter=network-online.target\nWants=network-online.target\n"@;
    let b6 = b5 + t6;
    let t7 = condition_text(gate);
    let b7 = b6 + t7;
    let t8 = "\n[Container]\nImage="@;
    let b8 = b7 + t8;
    let t9 = quadlet.image@;
    let b9 = b8 + t9;
    let t10 = "\nContainerName="@;
    let b10 = b9 + t10;
    let t11 = quadlet.name@;
    let b11 = b10 + t11;
    let t12 = "\n"@;
    let b12 = b11 + t12;
    let t13 = concat_all(publish_lines(c, quadlet));
    let b13 = b12 + t13;
    let t14 = network_text(quadlet);
    let b14 = b13 + t14;
    let t15 = concat_all(volume_lines(c, quadlet));
    let b15 = b14 + t15;
    let t16 = command_text(c, quadlet);
    let b16 = b15 + t16;
    let t17 = "\n[Service]\nRestart=always\nTimeoutStartSec=300\n\n[Install]\nWantedBy=multi-user.target default.target\n\n"@;
    let b17 = b16 + t17;
    let q3 = t3;
    lemma_whole(t3);
    lemma_tail_right(b2, t3, q3);
    lemma_tail_grows(b3, q3, t4);
    let q4 = q3 + t4;
    lemma_tail_grows(b4, q4, t5);
    let q5 = q4 + t5;
    lemma_tail_grows(b5, q5, t6);
    let q6 = q5 + t6;
    lemma_tail_grows(b6, q6, t7);
    let q7 = q6 + t7;
    lemma_tail_grows(b7, q7, t8);
    let q8 = q7 + t8;
    lemma_tail_grows(b8, q8, t9);
    let q9 = q8 + t9;
    lemma_tail_grows(b9, q9, t10);
    let q10 = q9 + t10;
    lemma_tail_grows(b10, q10, t11);
    let q11 = q10 + t11;
    lemma_tail_grows(b11, q11, t12);
    let q12 = q11 + t12;
    lemma_tail_grows(b12, q12, t13);
    let q13 = q12 + t13;
    lemma_tail_grows(b13, q13, t14);
    let q14 = q13 + t14;
    lemma_tail_grows(b14, q14, t15);
    let q15 = q14 + t15;
    lemma_tail_grows(b15, q15, t16);
    let q16 = q15 + t16;
    lemma_container_file_0();
    lemma_tail_is_cut(b16, q16, t17, "\n[Service]\nRestart=always\nTimeoutStartSec=300\n"@);
    let text = q16 + "\n[Service]\nRestart=always\nTimeoutStartSec=300\n"@;
    lemma_shows(out@, file, text);
    lemma_container_file_1();
    lemma_part_right(b16, t17, "\n[Install]\nWantedBy=multi-user.target default.target\n"@);
    let text = "\n[Install]\nWantedBy=multi-user.target default.target\n"@;
    lemma_shows(out@, file, text);
}

proof fn lemma_container_file_0()
    ensures
        is_head("\n[Service]\nRestart=always\nTimeoutStartSec=300\n\n[Install]\nWantedBy=multi-user.target default.target\n\n"@, "\n[Service]\nRestart=always\nTimeoutStartSec=300\n"@),
{
    reveal(is_head);
    reveal_strlit("\n[Service]\nRestart=always\nTimeoutStartSec=300\n\n[Install]\nWantedBy=multi-user.target default.target\n\n");
    reveal_strlit("\n[Service]\nRestart=always\nTimeoutStartSec=300\n");
    assert("\n[Service]\nRestart=always\nTimeoutStartSec=300\n\n[Install]\nWantedBy=multi-user.target default.target\n\n"@.subrange(0, 46) =~= "\n[Service]\nRestart=always\nTimeoutStartSec=300\n"@);
}

proof fn lemma_container_file_1()
    ensures
        is_part("\n[Service]\nRestart=always\nTimeoutStartSec=300\n\n[Install]\nWantedBy=multi-user.target default.target\n\n"@, "\n[Install]\nWantedBy=multi-user.target default.target\n"@),
{
    reveal(is_part);
    reveal_strlit("\n[Service]\nRestart=always\nTimeoutStartSec=300\n\n[Install]\nWantedBy=multi-user.target default.target\n\n");
    reveal_strlit("\n[Install]\nWantedBy=multi-user.target default.target\n");
    assert("\n[Service]\nRestart=always\nTimeoutStartSec=300\n\n[Install]\nWantedBy=multi-user.target default.target\n\n"@.subrange(46, 99) =~= "\n[Install]\nWantedBy=multi-user.target default.target\n"@);
    assert(occurs_at("\n[Service]\nRestart=always\nTimeoutStartSec=300\n\n[Install]\nWantedBy=multi-user.target default.target\n\n"@, "\n[Install]\nWantedBy=multi-user.target default.target\n"@, 46));
}

/// A container of a role has its image, its ports and its volumes, and waits for
/// its role.
pub proof fn a_container_of_a_role_waits_for_it(c: Cluster, out: Vec<Rendered>, r: int, variant: Variant, q: int)
    requires
        call_ensures(render_all, (&c,), out),
        0 <= r < c.cluster.role@.len(),
        row(c.images.variant@, c.cluster.role@[r].id@) == Some(variant),
        0 <= q < variant.quadlet@.len(),
    ensures
        ({
            let quadlet = variant.quadlet@[q];
            let gate = Some(c.cluster.role@[r].id@);
            let path = "node/containers-systemd/"@ + quadlet.name@ + "."@ + quadlet.kind@;
            &&& shows(out@, path, intro_text(gate) + "[Unit]\nDescription="@ + quadlet.description@ + "\nAfter=network-online.target\nWants=network-online.target\n"@ + condition_text(gate) + "\n[Container]\nImage="@ + quadlet.image@ + "\nContainerName="@ + quadlet.name@ + "\n"@ + concat_all(publish_lines(c, quadlet)) + network_text(quadlet) + concat_all(volume_lines(c, quadlet)) + command_text(c, quadlet) + "\n[Service]\nRestart=always\nTimeoutStartSec=300\n"@)
            &&& shows(out@, path, "\n[Install]\nWantedBy=multi-user.target default.target\n"@)
        }),
{
    let quadlet = variant.quadlet@[q];
    let gate = Some(c.cluster.role@[r].id@);
    let file = container_file(c, quadlet, gate);
    lemma_container_given(c, r, variant, q);
    lemma_is_shown(c, out, file);
    let t0 = "# "@;
    let b0 = t0;
    let t1 = quadlet.description@;
    let b1 = b0 + t1;
    let t2 = "\n"@;
    let b2 = b1 + t2;
    let t3 = intro_text(gate);
    let b3 = b2 + t3;
    let t4 = "[Unit]\nDescription="@;
    let b4 = b3 + t4;
    let t5 = quadlet.description@;
    let b5 = b4 + t5;
    let t6 = "\nAfter=network-online.target\nWants=network-online.target\n"@;
    let b6 = b5 + t6;
    let t7 = condition_text(gate);
    let b7 = b6 + t7;
    let t8 = "\n[Container]\nImage="@;
    let b8 = b7 + t8;
    let t9 = quadlet.image@;
    let b9 = b8 + t9;
    let t10 = "\nContainerName="@;
    let b10 = b9 + t10;
    let t11 = quadlet.name@;
    let b11 = b10 + t11;
    let t12 = "\n"@;
    let b12 = b11 + t12;
    let t13 = concat_all(publish_lines(c, quadlet));
    let b13 = b12 + t13;
    let t14 = network_text(quadlet);
    let b14 = b13 + t14;
    let t15 = concat_all(volume_lines(c, quadlet));
    let b15 = b14 + t15;
    let t16 = command_text(c, quadlet);
    let b16 = b15 + t16;
    let t17 = "\n[Service]\nRestart=always\nTimeoutStartSec=300\n\n[Install]\nWantedBy=multi-user.target default.target\n\n"@;
    let b17 = b16 + t17;
    let q3 = t3;
    lemma_whole(t3);
    lemma_tail_right(b2, t3, q3);
    lemma_tail_grows(b3, q3, t4);
    let q4 = q3 + t4;
    lemma_tail_grows(b4, q4, t5);
    let q5 = q4 + t5;
    lemma_tail_grows(b5, q5, t6);
    let q6 = q5 + t6;
    lemma_tail_grows(b6, q6, t7);
    let q7 = q6 + t7;
    lemma_tail_grows(b7, q7, t8);
    let q8 = q7 + t8;
    lemma_tail_grows(b8, q8, t9);
    let q9 = q8 + t9;
    lemma_tail_grows(b9, q9, t10);
    let q10 = q9 + t10;
    lemma_tail_grows(b10, q10, t11);
    let q11 = q10 + t11;
    lemma_tail_grows(b11, q11, t12);
    let q12 = q11 + t12;
    lemma_tail_grows(b12, q12, t13);
    let q13 = q12 + t13;
    lemma_tail_grows(b13, q13, t14);
    let q14 = q13 + t14;
    lemma_tail_grows(b14, q14, t15);
    let q15 = q14 + t15;
    lemma_tail_grows(b15, q15, t16);
    let q16 = q15 + t16;
    lemma_container_file_0();
    lemma_tail_is_cut(b16, q16, t17, "\n[Service]\nRestart=always\nTimeoutStartSec=300\n"@);
    let text = q16 + "\n[Service]\nRestart=always\nTimeoutStartSec=300\n"@;
    lemma_shows(out@, file, text);
    lemma_container_file_1();
    lemma_part_right(b16, t17, "\n[Install]\nWantedBy=multi-user.target default.target\n"@);
    let text = "\n[Install]\nWantedBy=multi-user.target default.target\n"@;
    lemma_shows(out@, file, text);
}

/// A runner starts once its role and its token are there, with its name, its labels
/// and its limit.
pub proof fn a_runner_starts_with_its_labels(c: Cluster, out: Vec<Rendered>, r: int, variant: Variant, q: int)
    requires
        call_ensures(render_all, (&c,), out),
        0 <= r < c.cluster.role@.len(),
        row(c.images.variant@, c.cluster.role@[r].id@) == Some(variant),
        0 <= q < variant.runner@.len(),
    ensures
        ({
            let role = c.cluster.role@[r];
            let runner = variant.runner@[q];
            let path = "node/systemd/cluster-runner-"@ + runner.name@ + ".service"@;
            &&& shows(out@, path, "\n[Unit]\nDescription=Actions runner "@ + runner.name@ + "\nAfter=network-online.target\nWants=network-online.target\nConditionPathExists="@ + marker(role.id@) + "\nConditionPathExists="@ + RUNNER_PAT@ + "\n"@)
            &&& shows(out@, path, "\n[Service]\nType=simple\nEnvironment=RUNNER_NAME="@ + runner.name@ + "\nEnvironment=RUNNER_LABELS="@ + join(views(runner.labels@), ","@) + "\nEnvironment=RUNNER_EPHEMERAL="@ + flag(runner.ephemeral) + "\nEnvironment=RUNNER_URL=https://github.com/"@ + c.images.signing.repository@ + "\nEnvironmentFile=/etc/cluster/runner.env\nExecStart=/usr/libexec/cluster/runner-loop-"@ + role.id@ + "\nRestart=always\nRestartSec=15\n"@ + limit_text(runner) + "\n[Install]\nWantedBy=multi-user.target\n"@)
        }),
{
    let role = c.cluster.role@[r];
    let runner = variant.runner@[q];
    let file = runner_unit_file(c, role, runner);
    lemma_runner_given(c, r, variant, q);
    lemma_is_shown(c, out, file);
    let t0 = "# Actions runner "@;
    let b0 = t0;
    let t1 = runner.name@;
    let b1 = b0 + t1;
    let t2 = " on the `"@;
    let b2 = b1 + t2;
    let t3 = role.id@;
    let b3 = b2 + t3;
    let t4 = "` role. --ephemeral: the runner exits\n# after one job, so draining is a matter of not re-registering rather\n# than of killing work in flight (§14.1).\n\n[Unit]\nDescription=Actions runner "@;
    let b4 = b3 + t4;
    let t5 = runner.name@;
    let b5 = b4 + t5;
    let t6 = "\nAfter=network-online.target\nWants=network-online.target\nConditionPathExists="@;
    let b6 = b5 + t6;
    let t7 = marker(role.id@);
    let b7 = b6 + t7;
    let t8 = "\nConditionPathExists="@;
    let b8 = b7 + t8;
    let t9 = RUNNER_PAT@;
    let b9 = b8 + t9;
    let t10 = "\n\n[Service]\nType=simple\nEnvironment=RUNNER_NAME="@;
    let b10 = b9 + t10;
    let t11 = runner.name@;
    let b11 = b10 + t11;
    let t12 = "\nEnvironment=RUNNER_LABELS="@;
    let b12 = b11 + t12;
    let t13 = join(views(runner.labels@), ","@);
    let b13 = b12 + t13;
    let t14 = "\nEnvironment=RUNNER_EPHEMERAL="@;
    let b14 = b13 + t14;
    let t15 = flag(runner.ephemeral);
    let b15 = b14 + t15;
    let t16 = "\nEnvironment=RUNNER_URL=https://github.com/"@;
    let b16 = b15 + t16;
    let t17 = c.images.signing.repository@;
    let b17 = b16 + t17;
    let t18 = "\nEnvironmentFile=/etc/cluster/runner.env\nExecStart=/usr/libexec/cluster/runner-loop-"@;
    let b18 = b17 + t18;
    let t19 = role.id@;
    let b19 = b18 + t19;
    let t20 = "\nRestart=always\nRestartSec=15\n"@;
    let b20 = b19 + t20;
    let t21 = limit_text(runner);
    let b21 = b20 + t21;
    let t22 = "\n[Install]\nWantedBy=multi-user.target\n\n"@;
    let b22 = b21 + t22;
    lemma_runner_unit_file_0();
    let q4 = "\n[Unit]\nDescription=Actions runner "@;
    lemma_tail_right(b3, t4, q4);
    lemma_tail_grows(b4, q4, t5);
    let q5 = q4 + t5;
    lemma_tail_grows(b5, q5, t6);
    let q6 = q5 + t6;
    lemma_tail_grows(b6, q6, t7);
    let q7 = q6 + t7;
    lemma_tail_grows(b7, q7, t8);
    let q8 = q7 + t8;
    lemma_tail_grows(b8, q8, t9);
    let q9 = q8 + t9;
    lemma_runner_unit_file_1();
    lemma_tail_is_cut(b9, q9, t10, "\n"@);
    let text = q9 + "\n"@;
    lemma_part_left(b10, t11, text);
    lemma_part_left(b11, t12, text);
    lemma_part_left(b12, t13, text);
    lemma_part_left(b13, t14, text);
    lemma_part_left(b14, t15, text);
    lemma_part_left(b15, t16, text);
    lemma_part_left(b16, t17, text);
    lemma_part_left(b17, t18, text);
    lemma_part_left(b18, t19, text);
    lemma_part_left(b19, t20, text);
    lemma_part_left(b20, t21, text);
    lemma_part_left(b21, t22, text);
    lemma_shows(out@, file, text);
    lemma_runner_unit_file_2();
    let q10 = "\n[Service]\nType=simple\nEnvironment=RUNNER_NAME="@;
    lemma_tail_right(b9, t10, q10);
    lemma_tail_grows(b10, q10, t11);
    let q11 = q10 + t11;
    lemma_tail_grows(b11, q11, t12);
    let q12 = q11 + t12;
    lemma_tail_grows(b12, q12, t13);
    let q13 = q12 + t13;
    lemma_tail_grows(b13, q13, t14);
    let q14 = q13 + t14;
    lemma_tail_grows(b14, q14, t15);
    let q15 = q14 + t15;
    lemma_tail_grows(b15, q15, t16);
    let q16 = q15 + t16;
    lemma_tail_grows(b16, q16, t17);
    let q17 = q16 + t17;
    lemma_tail_grows(b17, q17, t18);
    let q18 = q17 + t18;
    lemma_tail_grows(b18, q18, t19);
    let q19 = q18 + t19;
    lemma_tail_grows(b19, q19, t20);
    let q20 = q19 + t20;
    lemma_tail_grows(b20, q20, t21);
    let q21 = q20 + t21;
    lemma_runner_unit_file_3();
    lemma_tail_is_cut(b21, q21, t22, "\n[Install]\nWantedBy=multi-user.target\n"@);
    let text = q21 + "\n[Install]\nWantedBy=multi-user.target\n"@;
    lemma_shows(out@, file, text);
}

proof fn lemma_runner_unit_file_0()
    ensures
        is_tail("` role. --ephemeral: the runner exits\n# after one job, so draining is a matter of not re-registering rather\n# than of killing work in flight (§14.1).\n\n[Unit]\nDescription=Actions runner "@, "\n[Unit]\nDescription=Actions runner "@),
{
    reveal(is_tail);
    reveal_strlit("` role. --ephemeral: the runner exits\n# after one job, so draining is a matter of not re-registering rather\n# than of killing work in flight (§14.1).\n\n[Unit]\nDescription=Actions runner ");
    reveal_strlit("\n[Unit]\nDescription=Actions runner ");
    assert("` role. --ephemeral: the runner exits\n# after one job, so draining is a matter of not re-registering rather\n# than of killing work in flight (§14.1).\n\n[Unit]\nDescription=Actions runner "@.subrange(150, 185) =~= "\n[Unit]\nDescription=Actions runner "@);
}

proof fn lemma_runner_unit_file_1()
    ensures
        is_head("\n\n[Service]\nType=simple\nEnvironment=RUNNER_NAME="@, "\n"@),
{
    reveal(is_head);
    reveal_strlit("\n\n[Service]\nType=simple\nEnvironment=RUNNER_NAME=");
    reveal_strlit("\n");
    assert("\n\n[Service]\nType=simple\nEnvironment=RUNNER_NAME="@.subrange(0, 1) =~= "\n"@);
}

proof fn lemma_runner_unit_file_2()
    ensures
        is_tail("\n\n[Service]\nType=simple\nEnvironment=RUNNER_NAME="@, "\n[Service]\nType=simple\nEnvironment=RUNNER_NAME="@),
{
    reveal(is_tail);
    reveal_strlit("\n\n[Service]\nType=simple\nEnvironment=RUNNER_NAME=");
    reveal_strlit("\n[Service]\nType=simple\nEnvironment=RUNNER_NAME=");
    assert("\n\n[Service]\nType=simple\nEnvironment=RUNNER_NAME="@.subrange(1, 48) =~= "\n[Service]\nType=simple\nEnvironment=RUNNER_NAME="@);
}

proof fn lemma_runner_unit_file_3()
    ensures
        is_head("\n[Install]\nWantedBy=multi-user.target\n\n"@, "\n[Install]\nWantedBy=multi-user.target\n"@),
{
    reveal(is_head);
    reveal_strlit("\n[Install]\nWantedBy=multi-user.target\n\n");
    reveal_strlit("\n[Install]\nWantedBy=multi-user.target\n");
    assert("\n[Install]\nWantedBy=multi-user.target\n\n"@.subrange(0, 38) =~= "\n[Install]\nWantedBy=multi-user.target\n"@);
}

/// A mount is made where it is declared, of what it names, once its role is known.
pub proof fn a_mount_is_made_where_it_is_declared(c: Cluster, out: Vec<Rendered>, r: int, variant: Variant, q: int)
    requires
        call_ensures(render_all, (&c,), out),
        0 <= r < c.cluster.role@.len(),
        row(c.images.variant@, c.cluster.role@[r].id@) == Some(variant),
        0 <= q < variant.mount@.len(),
    ensures
        ({
            let role = c.cluster.role@[r];
            let mount = variant.mount@[q];
            let path = "node/systemd/"@ + mount_unit(mount.where_@);
            &&& shows(out@, path, "\n[Unit]\nDescription="@ + c.expanded(mount.what@) + " at "@ + mount.where_@ + "\nAfter=network-online.target\nWants=network-online.target\nConditionPathExists="@ + marker(role.id@) + "\n"@)
            &&& shows(out@, path, "\n[Mount]\nWhat="@ + c.expanded(mount.what@) + "\nWhere="@ + c.expanded(mount.where_@) + "\nType="@ + mount.fstype@ + "\nOptions="@ + mount.options@ + "\n"@)
            &&& shows(out@, path, "\n[Install]\nWantedBy=remote-fs.target\n"@)
        }),
{
    let role = c.cluster.role@[r];
    let mount = variant.mount@[q];
    let file = mount_point_file(c, role, mount);
    lemma_mount_given(c, r, variant, q);
    lemma_is_shown(c, out, file);
    let t0 = "# "@;
    let b0 = t0;
    let t1 = c.expanded(mount.what@);
    let b1 = b0 + t1;
    let t2 = " on the `"@;
    let b2 = b1 + t2;
    let t3 = role.id@;
    let b3 = b2 + t3;
    let t4 = "` role. Hard mount: it stalls and recovers cleanly\n# across the storage node's reboot, where a soft mount would return\n# errors to a devcontainer mid-write (§14.2).\n\n[Unit]\nDescription="@;
    let b4 = b3 + t4;
    let t5 = c.expanded(mount.what@);
    let b5 = b4 + t5;
    let t6 = " at "@;
    let b6 = b5 + t6;
    let t7 = mount.where_@;
    let b7 = b6 + t7;
    let t8 = "\nAfter=network-online.target\nWants=network-online.target\nConditionPathExists="@;
    let b8 = b7 + t8;
    let t9 = marker(role.id@);
    let b9 = b8 + t9;
    let t10 = "\n\n[Mount]\nWhat="@;
    let b10 = b9 + t10;
    let t11 = c.expanded(mount.what@);
    let b11 = b10 + t11;
    let t12 = "\nWhere="@;
    let b12 = b11 + t12;
    let t13 = c.expanded(mount.where_@);
    let b13 = b12 + t13;
    let t14 = "\nType="@;
    let b14 = b13 + t14;
    let t15 = mount.fstype@;
    let b15 = b14 + t15;
    let t16 = "\nOptions="@;
    let b16 = b15 + t16;
    let t17 = mount.options@;
    let b17 = b16 + t17;
    let t18 = "\n\n[Install]\nWantedBy=remote-fs.target\n\n"@;
    let b18 = b17 + t18;
    lemma_mount_point_file_0();
    let q4 = "\n[Unit]\nDescription="@;
    lemma_tail_right(b3, t4, q4);
    lemma_tail_grows(b4, q4, t5);
    let q5 = q4 + t5;
    lemma_tail_grows(b5, q5, t6);
    let q6 = q5 + t6;
    lemma_tail_grows(b6, q6, t7);
    let q7 = q6 + t7;
    lemma_tail_grows(b7, q7, t8);
    let q8 = q7 + t8;
    lemma_tail_grows(b8, q8, t9);
    let q9 = q8 + t9;
    lemma_mount_point_file_1();
    lemma_tail_is_cut(b9, q9, t10, "\n"@);
    let text = q9 + "\n"@;
    lemma_part_left(b10, t11, text);
    lemma_part_left(b11, t12, text);
    lemma_part_left(b12, t13, text);
    lemma_part_left(b13, t14, text);
    lemma_part_left(b14, t15, text);
    lemma_part_left(b15, t16, text);
    lemma_part_left(b16, t17, text);
    lemma_part_left(b17, t18, text);
    lemma_shows(out@, file, text);
    lemma_mount_point_file_2();
    let q10 = "\n[Mount]\nWhat="@;
    lemma_tail_right(b9, t10, q10);
    lemma_tail_grows(b10, q10, t11);
    let q11 = q10 + t11;
    lemma_tail_grows(b11, q11, t12);
    let q12 = q11 + t12;
    lemma_tail_grows(b12, q12, t13);
    let q13 = q12 + t13;
    lemma_tail_grows(b13, q13, t14);
    let q14 = q13 + t14;
    lemma_tail_grows(b14, q14, t15);
    let q15 = q14 + t15;
    lemma_tail_grows(b15, q15, t16);
    let q16 = q15 + t16;
    lemma_tail_grows(b16, q16, t17);
    let q17 = q16 + t17;
    lemma_mount_point_file_3();
    lemma_tail_is_cut(b17, q17, t18, "\n"@);
    let text = q17 + "\n"@;
    lemma_shows(out@, file, text);
    lemma_mount_point_file_4();
    lemma_part_right(b17, t18, "\n[Install]\nWantedBy=remote-fs.target\n"@);
    let text = "\n[Install]\nWantedBy=remote-fs.target\n"@;
    lemma_shows(out@, file, text);
}

proof fn lemma_mount_point_file_0()
    ensures
        is_tail("` role. Hard mount: it stalls and recovers cleanly\n# across the storage node's reboot, where a soft mount would return\n# errors to a devcontainer mid-write (§14.2).\n\n[Unit]\nDescription="@, "\n[Unit]\nDescription="@),
{
    reveal(is_tail);
    reveal_strlit("` role. Hard mount: it stalls and recovers cleanly\n# across the storage node's reboot, where a soft mount would return\n# errors to a devcontainer mid-write (§14.2).\n\n[Unit]\nDescription=");
    reveal_strlit("\n[Unit]\nDescription=");
    assert("` role. Hard mount: it stalls and recovers cleanly\n# across the storage node's reboot, where a soft mount would return\n# errors to a devcontainer mid-write (§14.2).\n\n[Unit]\nDescription="@.subrange(165, 185) =~= "\n[Unit]\nDescription="@);
}

proof fn lemma_mount_point_file_1()
    ensures
        is_head("\n\n[Mount]\nWhat="@, "\n"@),
{
    reveal(is_head);
    reveal_strlit("\n\n[Mount]\nWhat=");
    reveal_strlit("\n");
    assert("\n\n[Mount]\nWhat="@.subrange(0, 1) =~= "\n"@);
}

proof fn lemma_mount_point_file_2()
    ensures
        is_tail("\n\n[Mount]\nWhat="@, "\n[Mount]\nWhat="@),
{
    reveal(is_tail);
    reveal_strlit("\n\n[Mount]\nWhat=");
    reveal_strlit("\n[Mount]\nWhat=");
    assert("\n\n[Mount]\nWhat="@.subrange(1, 15) =~= "\n[Mount]\nWhat="@);
}

proof fn lemma_mount_point_file_3()
    ensures
        is_head("\n\n[Install]\nWantedBy=remote-fs.target\n\n"@, "\n"@),
{
    reveal(is_head);
    reveal_strlit("\n\n[Install]\nWantedBy=remote-fs.target\n\n");
    reveal_strlit("\n");
    assert("\n\n[Install]\nWantedBy=remote-fs.target\n\n"@.subrange(0, 1) =~= "\n"@);
}

proof fn lemma_mount_point_file_4()
    ensures
        is_part("\n\n[Install]\nWantedBy=remote-fs.target\n\n"@, "\n[Install]\nWantedBy=remote-fs.target\n"@),
{
    reveal(is_part);
    reveal_strlit("\n\n[Install]\nWantedBy=remote-fs.target\n\n");
    reveal_strlit("\n[Install]\nWantedBy=remote-fs.target\n");
    assert("\n\n[Install]\nWantedBy=remote-fs.target\n\n"@.subrange(1, 38) =~= "\n[Install]\nWantedBy=remote-fs.target\n"@);
    assert(occurs_at("\n\n[Install]\nWantedBy=remote-fs.target\n\n"@, "\n[Install]\nWantedBy=remote-fs.target\n"@, 1));
}

/// A container waits for its role where it has one; it has its network where it
/// names one, and its arguments, with what the policy fills in, where it has
/// any.
pub proof fn a_container_has_what_it_declares(c: Cluster, quadlet: Quadlet, role: Seq<char>)
    ensures
        condition_text(None).len() == 0,
        condition_text(Some(role)) == "ConditionPathExists="@ + ("/run/cluster/role."@ + role)
            + "\n"@,
        quadlet.network matches Some(network) ==> network_text(quadlet) == "Network="@ + network@
            + "\n"@,
        quadlet.network is None ==> network_text(quadlet).len() == 0,
        quadlet.arguments@.len() == 0 ==> command_text(c, quadlet).len() == 0,
        quadlet.arguments@.len() > 0 ==> command_text(c, quadlet) == "Exec="@ + join(
            Seq::new(
                quadlet.arguments@.len(),
                |i: int| c.policy_expanded(quadlet.arguments@[i]@),
            ),
            " "@,
        ) + "\n"@,
{
    assert(argument_lines(c, quadlet) =~= Seq::new(
        quadlet.arguments@.len(),
        |i: int| c.policy_expanded(quadlet.arguments@[i]@),
    ));
}

/// A runner has its limit where it has one.
pub proof fn a_runner_has_its_limit(runner: Runner)
    ensures
        runner.concurrency matches Some(limit) ==> limit_text(runner)
            == "Environment=RUNNER_CONCURRENCY="@ + decimal(limit as nat) + "\n"@,
        runner.concurrency is None ==> limit_text(runner).len() == 0,
{
}

} // verus!
