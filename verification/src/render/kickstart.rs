//! The kickstart every machine is installed from.
//!
//! One image means one installer. Secondary storage is prepared from what the
//! installer measures. No secret is in the file, and none is substituted into
//! it: a node comes up unenrolled.
use vstd::prelude::*;

use crate::cluster::{assigned, self_detected, Partition, Role, RoleDevices};
use crate::model::{strip_suffix, Cluster};
use crate::policy::Secret;
use crate::render::{ids1, File, Rendered};
use crate::text::{
    concat_all,
    concat_strings,
    decimal,
    decimal_of,
    ends,
    join,
    join_strings,
    numeral,
    parse_number,
    same,
    views,
};
use crate::render::claims::{
    is_head,
    is_ours,
    is_part,
    is_tail,
    lemma_is_shown,
    lemma_part_left,
    lemma_part_right,
    lemma_shows,
    lemma_tail_grows,
    lemma_tail_is_cut,
    lemma_tail_right,
    lemma_whole,
    shows,
};
use crate::render::render_all;
use crate::text::occurs_at;

verus! {

/// The one placeholder anything still substitutes.
pub const KICKSTART_PLACEHOLDER: &'static str = "@@RENDERED_KICKSTART@@";

/// Placeholders that must appear in no rendered artifact.
pub fn retired_placeholders() -> (r: Vec<&'static str>)
    ensures
        crate::render::str_views(r@) == seq![
            "@@AUTHORIZED_KEY@@"@,
            "@@GHCR_PULL_TOKEN@@"@,
            "@@TAILSCALE_AUTH_KEY@@"@,
        ],
{
    let r = vec!["@@AUTHORIZED_KEY@@", "@@GHCR_PULL_TOKEN@@", "@@TAILSCALE_AUTH_KEY@@"];
    proof {
        assert(crate::render::str_views(r@) =~= seq![
            "@@AUTHORIZED_KEY@@"@,
            "@@GHCR_PULL_TOKEN@@"@,
            "@@TAILSCALE_AUTH_KEY@@"@,
        ]);
    }
    r
}

/// The number of GiB a size writes, where it writes one that fits 64 bits.
pub open spec fn gib(size: Seq<char>) -> Option<nat> {
    if ends(size, "GiB"@) {
        match numeral(size.take(size.len() - "GiB"@.len()), 10) {
            Some(n) => if n <= u64::MAX {
                Some(n)
            } else {
                None
            },
            None => None,
        }
    } else {
        None
    }
}

/// A partition size in MiB, which is what a kickstart takes.
pub open spec fn mib_text(size: Seq<char>) -> Seq<char> {
    if ends(size, "GiB"@) {
        match gib(size) {
            Some(n) => decimal(n * 1024),
            None => size,
        }
    } else if ends(size, "MiB"@) {
        size.take(size.len() - "MiB"@.len())
    } else {
        size
    }
}

/// Whether a size in MiB fits 64 bits.
pub open spec fn size_fits(size: Seq<char>) -> bool {
    gib(size) matches Some(n) ==> n * 1024 <= u64::MAX
}

/// A partition size in MiB, which is what a kickstart takes.
pub fn mib(size: &str) -> (r: String)
    requires
        size_fits(size@),
    ensures
        r@ == mib_text(size@),
{
    if let Some(number) = strip_suffix(size, "GiB") {
        return match parse_number(number.as_str(), 10, u64::MAX) {
            Some(n) => decimal_of(n * 1024),
            None => size.to_owned(),
        };
    }
    match strip_suffix(size, "MiB") {
        Some(number) => number,
        None => size.to_owned(),
    }
}

/// How much of the device a partition takes.
pub open spec fn size_text(partition: Partition) -> Seq<char> {
    if partition.size@ == "remainder"@ {
        "--grow"@
    } else {
        "--size="@
            + mib_text(partition.size@)
    }
}

fn size(partition: &Partition) -> (r: String)
    requires
        size_fits(partition.size@),
    ensures
        r@ == size_text(*partition),
{
    if same(partition.size.as_str(), "remainder") {
        "--grow".to_owned()
    } else {
        "--size=".to_owned()
            .concat(mib(partition.size.as_str()).as_str())
    }
}

/// What a partition is formatted as.
pub open spec fn fstype_text(partition: Partition) -> Seq<char> {
    if partition.mount@ == "/boot/efi"@ {
        "--fstype=efi"@
    } else {
        "--fstype="@
            + partition.format@
    }
}

fn fstype(partition: &Partition) -> (r: String)
    ensures
        r@ == fstype_text(*partition),
{
    if same(partition.mount.as_str(), "/boot/efi") {
        "--fstype=efi".to_owned()
    } else {
        "--fstype=".to_owned()
            .concat(partition.format.as_str())
    }
}

/// Whether every partition size in MiB fits 64 bits.
pub open spec fn sizes_fit(c: Cluster) -> bool {
    forall|k: int|
        0 <= k < c.cluster.partition@.len() ==> size_fits(
            (#[trigger] c.cluster.partition@[k]).size@,
        )
}

/// One partition.
pub open spec fn partition_line(c: Cluster, partition: Partition) -> Seq<char> {
    "part "@
        + partition.mount@
        + " "@
        + fstype_text(partition)
        + " "@
        + size_text(partition)
        + "\n"@
}

fn partition_line_of(c: &Cluster, partition: &Partition) -> (r: String)
    requires
        size_fits(partition.size@),
    ensures
        r@ == partition_line(*c, *partition),
{
    "part ".to_owned()
        .concat(partition.mount.as_str())
        .concat(" ")
        .concat(fstype(partition).as_str())
        .concat(" ")
        .concat(size(partition).as_str())
        .concat("\n")
}

/// One text for each, in order.
pub open spec fn partition_lines(c: Cluster) -> Seq<Seq<char>> {
    let list = c.cluster.partition@;
    Seq::new(list.len(), |i: int| partition_line(c, list[i]))
}

fn partition_lines_of(c: &Cluster) -> (out: Vec<String>)
    requires
        sizes_fit(*c),
    ensures
        views(out@) == partition_lines(*c),
{
    let list = &c.cluster.partition;
    let ghost all = c.cluster.partition@;
    let mut out: Vec<String> = Vec::new();
    let mut i: usize = 0;
    while i < list.len()
        invariant
            i <= list.len(),
            all == c.cluster.partition@,
            list@ == all,
            out.len() == i,
            sizes_fit(*c),
            forall|k: int| 0 <= k < i ==> (#[trigger] out@[k])@ == partition_line(*c, all[k]),
        decreases list.len() - i,
    {
        proof {
            assert(all[i as int] == list@[i as int]);
        }
        out.push(partition_line_of(c, &list[i]));
        i = i + 1;
    }
    proof {
        assert(views(out@) =~= partition_lines(*c));
    }
    out
}

/// What a setting is, given what it is where the role says nothing.
pub open spec fn device(value: Option<String>, fallback: Seq<char>) -> Seq<char> {
    match value {
        Some(v) => v@,
        None => fallback,
    }
}

fn device_of(value: &Option<String>, fallback: &str) -> (r: String)
    ensures
        r@ == device(*value, fallback@),
{
    match value {
        Some(v) => v.clone(),
        None => fallback.to_owned(),
    }
}

/// The second device each of `roles` names, where it names one.
pub open spec fn second_devices(roles: Seq<Role>) -> Seq<Seq<char>>
    decreases roles.len(),
{
    if roles.len() == 0 {
        Seq::empty()
    } else {
        match crate::check::fleet::local_device(roles.last()) {
            Some(device) => second_devices(roles.drop_last()).push(
                roles.last().id@ + ": "@ + device,
            ),
            None => second_devices(roles.drop_last()),
        }
    }
}

fn second_devices_of(c: &Cluster) -> (out: Vec<String>)
    ensures
        views(out@) == second_devices(assigned(c.cluster.role@)),
{
    let roles = c.cluster.assigned_roles();
    let ghost all = assigned(c.cluster.role@);
    let mut out: Vec<String> = Vec::new();
    let mut i: usize = 0;
    proof {
        assert(views(out@) =~= second_devices(all.take(0)));
    }
    while i < roles.len()
        invariant
            i <= roles.len(),
            roles.len() == all.len(),
            forall|k: int| 0 <= k < roles.len() ==> *(#[trigger] roles@[k]) == all[k],
            views(out@) == second_devices(all.take(i as int)),
        decreases roles.len() - i,
    {
        let ghost before = out@;
        proof {
            assert(all.take(i + 1).drop_last() =~= all.take(i as int));
            assert(all.take(i + 1).last() == *roles@[i as int]);
        }
        let role = roles[i];
        if let Some(device) = &role.devices.container_graph_device {
            out.push(role.id.clone().concat(": ").concat(device.as_str()));
            proof {
                assert(views(out@) =~= views(before).push(role.id@ + ": "@ + device@));
            }
        } else if let Some(device) = &role.devices.bench_device {
            out.push(role.id.clone().concat(": ").concat(device.as_str()));
            proof {
                assert(views(out@) =~= views(before).push(role.id@ + ": "@ + device@));
            }
        }
        i = i + 1;
    }
    proof {
        assert(all.take(i as int) =~= all);
    }
    out
}

/// What is said of a cache that is a partition.
pub open spec fn cache_size_text(devices: RoleDevices) -> Seq<char> {
    match devices.cache_partition_gib {
        Some(gib) => "  # §2.2 fallback sizing: "@
            + decimal(gib as nat)
            + " GiB, used when the cache device is a\n  # partition of the M.2 rather than a second SATA device.\n"@,
        None => Seq::<char>::empty(),
    }
}

fn cache_size(devices: &RoleDevices) -> (r: String)
    ensures
        r@ == cache_size_text(*devices),
{
    match &devices.cache_partition_gib {
        Some(gib) => "  # §2.2 fallback sizing: ".to_owned()
            .concat(decimal_of(*gib as u64).as_str())
            .concat(" GiB, used when the cache device is a\n  # partition of the M.2 rather than a second SATA device.\n"),
        None => String::new(),
    }
}

/// What a secret enables.
pub open spec fn secret_line(c: Cluster, secret: Secret) -> Seq<char> {
    "#   "@
        + secret.id@
        + " --- "@
        + secret.description@
        + ", enabling "@
        + secret.enables@
}

fn secret_line_of(c: &Cluster, secret: &Secret) -> (r: String)
    ensures
        r@ == secret_line(*c, *secret),
{
    "#   ".to_owned()
        .concat(secret.id.as_str())
        .concat(" --- ")
        .concat(secret.description.as_str())
        .concat(", enabling ")
        .concat(secret.enables.as_str())
}

/// One text for each, in order.
pub open spec fn secret_lines(c: Cluster) -> Seq<Seq<char>> {
    let list = c.policy.secret@;
    Seq::new(list.len(), |i: int| secret_line(c, list[i]))
}

fn secret_lines_of(c: &Cluster) -> (out: Vec<String>)
    ensures
        views(out@) == secret_lines(*c),
{
    let list = &c.policy.secret;
    let ghost all = c.policy.secret@;
    let mut out: Vec<String> = Vec::new();
    let mut i: usize = 0;
    while i < list.len()
        invariant
            i <= list.len(),
            all == c.policy.secret@,
            list@ == all,
            out.len() == i,
            forall|k: int| 0 <= k < i ==> (#[trigger] out@[k])@ == secret_line(*c, all[k]),
        decreases list.len() - i,
    {
        proof {
            assert(all[i as int] == list@[i as int]);
        }
        out.push(secret_line_of(c, &list[i]));
        i = i + 1;
    }
    proof {
        assert(views(out@) =~= secret_lines(*c));
    }
    out
}

/// The kickstart of every machine.
pub open spec fn kickstart_file(c: Cluster) -> File {
    let devices = self_detected(c.cluster.role@)[0].devices;
    let threshold = c.cluster.detection.bulk_disk_min_gb;
    let vg = device(devices.volume_group, "vg_data"@);
    let lv = device(devices.origin_lv, "lv_data"@);
    let cache = device(devices.cache_device, "sata-ssd"@);
    File {
        path: "bootstrap/node.ks"@,
        ids: seq!["CD-07"@],
        body: "# The kickstart every machine is installed from. One image means one\n# installer and nothing to select at install time (§8.4, §12.1).\n#\n# It carries no credentials and substitutes nothing. A node comes up\n# unenrolled and is given its secrets through the browser, over the LAN,\n# after it boots (§12.2, §16.2).\n#\n# The ISO's SHA-256 is published in the release and verified out of band.\n# That checksum is the root of trust: §12.3's signature policy ships inside\n# the image, so the first install cannot verify itself (§12.1).\n\ntext\nfirstboot --disable\nselinux --enforcing\nnetwork --bootproto=dhcp --device=link --activate\nrootpw --lock\n# Console redirection matches the firmware setting (§2.4).\nbootloader --append=\"console=ttyS1,115200\"\n\n# M.2 layout, identical on every node. bootc uses ostree deployments\n# rather than A/B partitions, so current and rollback share p3 and there\n# is no slot arithmetic (§5.1).\nclearpart --all --initlabel --disklabel=gpt\n"@
            + concat_all(partition_lines(c))
            + "\n# Secondary storage, decided here rather than chosen by an operator.\n#\n# A non-boot block device of at least "@
            + decimal(threshold as nat)
            + " GB makes this the storage\n# node (§2.3.1). That predicate is measurable now; the compute/testbed\n# distinction is not --- it is assigned by the registrar over a network\n# that does not exist yet during Anaconda --- so this prepares bulk storage\n# where it finds bulk storage and a plain filesystem where it does not.\n#\n# The data volume is a spinning origin under a **writethrough** dm-cache on\n# the "@
            + cache
            + ".\n# Writeback would be faster on write and would make a single non-redundant\n# SSD a data-loss mode for the whole origin. Writethrough adds no failure\n# mode, and it is what makes §2.5's tolerance of hard power loss true ---\n# which unattended reboots depend on (§5.3).\n#\n# dm-cache over ZFS because it is in-tree: a kernel bump carried by a new\n# image must not require rebuilding an out-of-tree module inside an\n# immutable host.\n%post --erroronfail\nset -eu\n\nroot_disk=$(lsblk --noheadings --output PKNAME --paths \"$(findmnt --noheadings --output SOURCE /)\" | head -1)\nmin_bytes=$(( "@
            + decimal(threshold as nat)
            + " * 1000 * 1000 * 1000 ))\nbulk=\"\"\ncache=\"\"\nfor dev in $(lsblk --noheadings --nodeps --output PATH); do\n  [ \"$dev\" = \"$root_disk\" ] && continue\n  size=$(blockdev --getsize64 \"$dev\")\n  if [ \"$size\" -ge \"$min_bytes\" ]; then bulk=\"$dev\"; else cache=\"$dev\"; fi\ndone\n\nif [ -n \"$bulk\" ] && [ -n \"$cache\" ]; then\n  vgcreate "@
            + vg
            + " \"$bulk\"\n  lvcreate --extents 100%FREE --name "@
            + lv
            + " "@
            + vg
            + "\n"@
            + cache_size_text(devices)
            + "  lvcreate --type cache --cachemode writethrough --cachepolicy smq \\\n    --chunksize 256K --extents 100%FREE --cachedevice \"$cache\" "@
            + vg
            + "/"@
            + lv
            + "\n  mkfs.xfs /dev/"@
            + vg
            + "/"@
            + lv
            + "\nelif [ -n \"$cache\" ]; then\n  # No bulk device: this machine will be assigned compute or testbed, and\n  # either way its second device carries local state ("@
            + join(second_devices(assigned(c.cluster.role@)), ", "@)
            + "). overlay2 and\n  # podman's overlay driver do not function on NFS, which is why the\n  # container graph is local on every node and NFS carries data only\n  # (§11.2). The two roles name the same device, and the model check\n  # requires that: the installer cannot tell them apart.\n  mkfs.xfs \"$cache\"\nfi\n%end\n\n# The node installs with no credentials and comes up **unenrolled**.\n#\n# There is nothing to substitute here and nothing withheld. The ISO is a\n# release artifact, so a secret placed in one is published to whoever\n# downloads it --- and this repository is public (§9.1).\n#\n# What an unenrolled node has is the control plane, reachable over the LAN.\n# The operator opens it in a browser, authenticates with the GitHub App\n# device flow --- the one credential checkable without any of the others\n# existing --- and enters the rest (§12.2, §16.2):\n#\n"@
            + join(secret_lines(c), "\n"@)
            + "\n# The node is not considered provisioned until the predicate passes (§12.1).\n%post --erroronfail --nochroot\necho 'cluster-health must pass before this node is in service'\n%end\n\nreboot\n"@,
    }
}

pub(crate) fn render(c: &Cluster) -> (r: Rendered)
    requires
        self_detected(c.cluster.role@).len() > 0,
        sizes_fit(*c),
    ensures
        r@ == kickstart_file(*c),
{
    let devices = &c.cluster.self_detected_role().unwrap().devices;
    let threshold: u32 = c.cluster.detection.bulk_disk_min_gb;
    let vg = device_of(&devices.volume_group, "vg_data");
    let lv = device_of(&devices.origin_lv, "lv_data");
    let cache = device_of(&devices.cache_device, "sata-ssd");
    let path = "bootstrap/node.ks".to_owned();
    let body = "# The kickstart every machine is installed from. One image means one\n# installer and nothing to select at install time (§8.4, §12.1).\n#\n# It carries no credentials and substitutes nothing. A node comes up\n# unenrolled and is given its secrets through the browser, over the LAN,\n# after it boots (§12.2, §16.2).\n#\n# The ISO's SHA-256 is published in the release and verified out of band.\n# That checksum is the root of trust: §12.3's signature policy ships inside\n# the image, so the first install cannot verify itself (§12.1).\n\ntext\nfirstboot --disable\nselinux --enforcing\nnetwork --bootproto=dhcp --device=link --activate\nrootpw --lock\n# Console redirection matches the firmware setting (§2.4).\nbootloader --append=\"console=ttyS1,115200\"\n\n# M.2 layout, identical on every node. bootc uses ostree deployments\n# rather than A/B partitions, so current and rollback share p3 and there\n# is no slot arithmetic (§5.1).\nclearpart --all --initlabel --disklabel=gpt\n".to_owned()
        .concat(concat_strings(&partition_lines_of(c)).as_str())
        .concat("\n# Secondary storage, decided here rather than chosen by an operator.\n#\n# A non-boot block device of at least ")
        .concat(decimal_of(threshold as u64).as_str())
        .concat(" GB makes this the storage\n# node (§2.3.1). That predicate is measurable now; the compute/testbed\n# distinction is not --- it is assigned by the registrar over a network\n# that does not exist yet during Anaconda --- so this prepares bulk storage\n# where it finds bulk storage and a plain filesystem where it does not.\n#\n# The data volume is a spinning origin under a **writethrough** dm-cache on\n# the ")
        .concat(cache.as_str())
        .concat(".\n# Writeback would be faster on write and would make a single non-redundant\n# SSD a data-loss mode for the whole origin. Writethrough adds no failure\n# mode, and it is what makes §2.5's tolerance of hard power loss true ---\n# which unattended reboots depend on (§5.3).\n#\n# dm-cache over ZFS because it is in-tree: a kernel bump carried by a new\n# image must not require rebuilding an out-of-tree module inside an\n# immutable host.\n%post --erroronfail\nset -eu\n\nroot_disk=$(lsblk --noheadings --output PKNAME --paths \"$(findmnt --noheadings --output SOURCE /)\" | head -1)\nmin_bytes=$(( ")
        .concat(decimal_of(threshold as u64).as_str())
        .concat(" * 1000 * 1000 * 1000 ))\nbulk=\"\"\ncache=\"\"\nfor dev in $(lsblk --noheadings --nodeps --output PATH); do\n  [ \"$dev\" = \"$root_disk\" ] && continue\n  size=$(blockdev --getsize64 \"$dev\")\n  if [ \"$size\" -ge \"$min_bytes\" ]; then bulk=\"$dev\"; else cache=\"$dev\"; fi\ndone\n\nif [ -n \"$bulk\" ] && [ -n \"$cache\" ]; then\n  vgcreate ")
        .concat(vg.as_str())
        .concat(" \"$bulk\"\n  lvcreate --extents 100%FREE --name ")
        .concat(lv.as_str())
        .concat(" ")
        .concat(vg.as_str())
        .concat("\n")
        .concat(cache_size(devices).as_str())
        .concat("  lvcreate --type cache --cachemode writethrough --cachepolicy smq \\\n    --chunksize 256K --extents 100%FREE --cachedevice \"$cache\" ")
        .concat(vg.as_str())
        .concat("/")
        .concat(lv.as_str())
        .concat("\n  mkfs.xfs /dev/")
        .concat(vg.as_str())
        .concat("/")
        .concat(lv.as_str())
        .concat("\nelif [ -n \"$cache\" ]; then\n  # No bulk device: this machine will be assigned compute or testbed, and\n  # either way its second device carries local state (")
        .concat(join_strings(&second_devices_of(c), ", ").as_str())
        .concat("). overlay2 and\n  # podman's overlay driver do not function on NFS, which is why the\n  # container graph is local on every node and NFS carries data only\n  # (§11.2). The two roles name the same device, and the model check\n  # requires that: the installer cannot tell them apart.\n  mkfs.xfs \"$cache\"\nfi\n%end\n\n# The node installs with no credentials and comes up **unenrolled**.\n#\n# There is nothing to substitute here and nothing withheld. The ISO is a\n# release artifact, so a secret placed in one is published to whoever\n# downloads it --- and this repository is public (§9.1).\n#\n# What an unenrolled node has is the control plane, reachable over the LAN.\n# The operator opens it in a browser, authenticates with the GitHub App\n# device flow --- the one credential checkable without any of the others\n# existing --- and enters the rest (§12.2, §16.2):\n#\n")
        .concat(join_strings(&secret_lines_of(c), "\n").as_str())
        .concat("\n# The node is not considered provisioned until the predicate passes (§12.1).\n%post --erroronfail --nochroot\necho 'cluster-health must pass before this node is in service'\n%end\n\nreboot\n");
    Rendered::new(path, ids1("CD-07"), body)
}

// ---- laws of the files ----

/// The file is given.
pub(crate) proof fn lemma_kickstart_given(c: Cluster)
    ensures
        is_ours(c, kickstart_file(c)),
{
    reveal(is_ours);
    let all = seq![kickstart_file(c)];
    assert(all.contains(all[0]));
}

/// A machine is installed as the model declares: from its image, on the disk that
/// fits, with its partitions, and without a secret.
pub proof fn a_machine_is_installed_as_the_model_declares(c: Cluster, out: Vec<Rendered>)
    requires
        call_ensures(render_all, (&c,), out),
    ensures
        ({
            let devices = self_detected(c.cluster.role@)[0].devices;
            let threshold = c.cluster.detection.bulk_disk_min_gb;
            let vg = device(devices.volume_group, "vg_data"@);
            let lv = device(devices.origin_lv, "lv_data"@);
            let cache = device(devices.cache_device, "sata-ssd"@);
            let path = "bootstrap/node.ks"@;
            &&& shows(out@, path, "\ntext\nfirstboot --disable\nselinux --enforcing\nnetwork --bootproto=dhcp --device=link --activate\nrootpw --lock\n"@)
            &&& shows(out@, path, "\nbootloader --append=\"console=ttyS1,115200\"\n"@)
            &&& shows(out@, path, "\nclearpart --all --initlabel --disklabel=gpt\n"@ + concat_all(partition_lines(c)) + "\n"@)
            &&& shows(out@, path, "\n%post --erroronfail\nset -eu\n"@)
            &&& shows(out@, path, "\nroot_disk=$(lsblk --noheadings --output PKNAME --paths \"$(findmnt --noheadings --output SOURCE /)\" | head -1)\nmin_bytes=$(( "@ + decimal(threshold as nat) + " * 1000 * 1000 * 1000 ))\nbulk=\"\"\ncache=\"\"\nfor dev in $(lsblk --noheadings --nodeps --output PATH); do\n  [ \"$dev\" = \"$root_disk\" ] && continue\n  size=$(blockdev --getsize64 \"$dev\")\n  if [ \"$size\" -ge \"$min_bytes\" ]; then bulk=\"$dev\"; else cache=\"$dev\"; fi\ndone\n"@)
            &&& shows(out@, path, "\nif [ -n \"$bulk\" ] && [ -n \"$cache\" ]; then\n  vgcreate "@ + vg + " \"$bulk\"\n  lvcreate --extents 100%FREE --name "@ + lv + " "@ + vg + "\n"@ + cache_size_text(devices) + "  lvcreate --type cache --cachemode writethrough --cachepolicy smq \\\n    --chunksize 256K --extents 100%FREE --cachedevice \"$cache\" "@ + vg + "/"@ + lv + "\n  mkfs.xfs /dev/"@ + vg + "/"@ + lv + "\nelif [ -n \"$cache\" ]; then\n"@)
            &&& shows(out@, path, "\n  mkfs.xfs \"$cache\"\nfi\n%end\n"@)
            &&& shows(out@, path, join(secret_lines(c), "\n"@) + "\n"@)
            &&& shows(out@, path, "\n%post --erroronfail --nochroot\necho 'cluster-health must pass before this node is in service'\n%end\n"@)
            &&& shows(out@, path, "\nreboot\n"@)
        }),
{
    let devices = self_detected(c.cluster.role@)[0].devices;
    let threshold = c.cluster.detection.bulk_disk_min_gb;
    let vg = device(devices.volume_group, "vg_data"@);
    let lv = device(devices.origin_lv, "lv_data"@);
    let cache = device(devices.cache_device, "sata-ssd"@);
    let file = kickstart_file(c);
    lemma_kickstart_given(c);
    lemma_is_shown(c, out, file);
    let t0 = "# The kickstart every machine is installed from. One image means one\n# installer and nothing to select at install time (§8.4, §12.1).\n#\n# It carries no credentials and substitutes nothing. A node comes up\n# unenrolled and is given its secrets through the browser, over the LAN,\n# after it boots (§12.2, §16.2).\n#\n# The ISO's SHA-256 is published in the release and verified out of band.\n# That checksum is the root of trust: §12.3's signature policy ships inside\n# the image, so the first install cannot verify itself (§12.1).\n\ntext\nfirstboot --disable\nselinux --enforcing\nnetwork --bootproto=dhcp --device=link --activate\nrootpw --lock\n# Console redirection matches the firmware setting (§2.4).\nbootloader --append=\"console=ttyS1,115200\"\n\n# M.2 layout, identical on every node. bootc uses ostree deployments\n# rather than A/B partitions, so current and rollback share p3 and there\n# is no slot arithmetic (§5.1).\nclearpart --all --initlabel --disklabel=gpt\n"@;
    let b0 = t0;
    let t1 = concat_all(partition_lines(c));
    let b1 = b0 + t1;
    let t2 = "\n# Secondary storage, decided here rather than chosen by an operator.\n#\n# A non-boot block device of at least "@;
    let b2 = b1 + t2;
    let t3 = decimal(threshold as nat);
    let b3 = b2 + t3;
    let t4 = " GB makes this the storage\n# node (§2.3.1). That predicate is measurable now; the compute/testbed\n# distinction is not --- it is assigned by the registrar over a network\n# that does not exist yet during Anaconda --- so this prepares bulk storage\n# where it finds bulk storage and a plain filesystem where it does not.\n#\n# The data volume is a spinning origin under a **writethrough** dm-cache on\n# the "@;
    let b4 = b3 + t4;
    let t5 = cache;
    let b5 = b4 + t5;
    let t6 = ".\n# Writeback would be faster on write and would make a single non-redundant\n# SSD a data-loss mode for the whole origin. Writethrough adds no failure\n# mode, and it is what makes §2.5's tolerance of hard power loss true ---\n# which unattended reboots depend on (§5.3).\n#\n# dm-cache over ZFS because it is in-tree: a kernel bump carried by a new\n# image must not require rebuilding an out-of-tree module inside an\n# immutable host.\n%post --erroronfail\nset -eu\n\nroot_disk=$(lsblk --noheadings --output PKNAME --paths \"$(findmnt --noheadings --output SOURCE /)\" | head -1)\nmin_bytes=$(( "@;
    let b6 = b5 + t6;
    let t7 = decimal(threshold as nat);
    let b7 = b6 + t7;
    let t8 = " * 1000 * 1000 * 1000 ))\nbulk=\"\"\ncache=\"\"\nfor dev in $(lsblk --noheadings --nodeps --output PATH); do\n  [ \"$dev\" = \"$root_disk\" ] && continue\n  size=$(blockdev --getsize64 \"$dev\")\n  if [ \"$size\" -ge \"$min_bytes\" ]; then bulk=\"$dev\"; else cache=\"$dev\"; fi\ndone\n\nif [ -n \"$bulk\" ] && [ -n \"$cache\" ]; then\n  vgcreate "@;
    let b8 = b7 + t8;
    let t9 = vg;
    let b9 = b8 + t9;
    let t10 = " \"$bulk\"\n  lvcreate --extents 100%FREE --name "@;
    let b10 = b9 + t10;
    let t11 = lv;
    let b11 = b10 + t11;
    let t12 = " "@;
    let b12 = b11 + t12;
    let t13 = vg;
    let b13 = b12 + t13;
    let t14 = "\n"@;
    let b14 = b13 + t14;
    let t15 = cache_size_text(devices);
    let b15 = b14 + t15;
    let t16 = "  lvcreate --type cache --cachemode writethrough --cachepolicy smq \\\n    --chunksize 256K --extents 100%FREE --cachedevice \"$cache\" "@;
    let b16 = b15 + t16;
    let t17 = vg;
    let b17 = b16 + t17;
    let t18 = "/"@;
    let b18 = b17 + t18;
    let t19 = lv;
    let b19 = b18 + t19;
    let t20 = "\n  mkfs.xfs /dev/"@;
    let b20 = b19 + t20;
    let t21 = vg;
    let b21 = b20 + t21;
    let t22 = "/"@;
    let b22 = b21 + t22;
    let t23 = lv;
    let b23 = b22 + t23;
    let t24 = "\nelif [ -n \"$cache\" ]; then\n  # No bulk device: this machine will be assigned compute or testbed, and\n  # either way its second device carries local state ("@;
    let b24 = b23 + t24;
    let t25 = join(second_devices(assigned(c.cluster.role@)), ", "@);
    let b25 = b24 + t25;
    let t26 = "). overlay2 and\n  # podman's overlay driver do not function on NFS, which is why the\n  # container graph is local on every node and NFS carries data only\n  # (§11.2). The two roles name the same device, and the model check\n  # requires that: the installer cannot tell them apart.\n  mkfs.xfs \"$cache\"\nfi\n%end\n\n# The node installs with no credentials and comes up **unenrolled**.\n#\n# There is nothing to substitute here and nothing withheld. The ISO is a\n# release artifact, so a secret placed in one is published to whoever\n# downloads it --- and this repository is public (§9.1).\n#\n# What an unenrolled node has is the control plane, reachable over the LAN.\n# The operator opens it in a browser, authenticates with the GitHub App\n# device flow --- the one credential checkable without any of the others\n# existing --- and enters the rest (§12.2, §16.2):\n#\n"@;
    let b26 = b25 + t26;
    let t27 = join(secret_lines(c), "\n"@);
    let b27 = b26 + t27;
    let t28 = "\n# The node is not considered provisioned until the predicate passes (§12.1).\n%post --erroronfail --nochroot\necho 'cluster-health must pass before this node is in service'\n%end\n\nreboot\n"@;
    let b28 = b27 + t28;
    lemma_kickstart_file_0();
    let text = "\ntext\nfirstboot --disable\nselinux --enforcing\nnetwork --bootproto=dhcp --device=link --activate\nrootpw --lock\n"@;
    lemma_part_left(b0, t1, text);
    lemma_part_left(b1, t2, text);
    lemma_part_left(b2, t3, text);
    lemma_part_left(b3, t4, text);
    lemma_part_left(b4, t5, text);
    lemma_part_left(b5, t6, text);
    lemma_part_left(b6, t7, text);
    lemma_part_left(b7, t8, text);
    lemma_part_left(b8, t9, text);
    lemma_part_left(b9, t10, text);
    lemma_part_left(b10, t11, text);
    lemma_part_left(b11, t12, text);
    lemma_part_left(b12, t13, text);
    lemma_part_left(b13, t14, text);
    lemma_part_left(b14, t15, text);
    lemma_part_left(b15, t16, text);
    lemma_part_left(b16, t17, text);
    lemma_part_left(b17, t18, text);
    lemma_part_left(b18, t19, text);
    lemma_part_left(b19, t20, text);
    lemma_part_left(b20, t21, text);
    lemma_part_left(b21, t22, text);
    lemma_part_left(b22, t23, text);
    lemma_part_left(b23, t24, text);
    lemma_part_left(b24, t25, text);
    lemma_part_left(b25, t26, text);
    lemma_part_left(b26, t27, text);
    lemma_part_left(b27, t28, text);
    lemma_shows(out@, file, text);
    lemma_kickstart_file_1();
    let text = "\nbootloader --append=\"console=ttyS1,115200\"\n"@;
    lemma_part_left(b0, t1, text);
    lemma_part_left(b1, t2, text);
    lemma_part_left(b2, t3, text);
    lemma_part_left(b3, t4, text);
    lemma_part_left(b4, t5, text);
    lemma_part_left(b5, t6, text);
    lemma_part_left(b6, t7, text);
    lemma_part_left(b7, t8, text);
    lemma_part_left(b8, t9, text);
    lemma_part_left(b9, t10, text);
    lemma_part_left(b10, t11, text);
    lemma_part_left(b11, t12, text);
    lemma_part_left(b12, t13, text);
    lemma_part_left(b13, t14, text);
    lemma_part_left(b14, t15, text);
    lemma_part_left(b15, t16, text);
    lemma_part_left(b16, t17, text);
    lemma_part_left(b17, t18, text);
    lemma_part_left(b18, t19, text);
    lemma_part_left(b19, t20, text);
    lemma_part_left(b20, t21, text);
    lemma_part_left(b21, t22, text);
    lemma_part_left(b22, t23, text);
    lemma_part_left(b23, t24, text);
    lemma_part_left(b24, t25, text);
    lemma_part_left(b25, t26, text);
    lemma_part_left(b26, t27, text);
    lemma_part_left(b27, t28, text);
    lemma_shows(out@, file, text);
    lemma_kickstart_file_2();
    let q0 = "\nclearpart --all --initlabel --disklabel=gpt\n"@;
    lemma_tail_grows(b0, q0, t1);
    let q1 = q0 + t1;
    lemma_kickstart_file_3();
    lemma_tail_is_cut(b1, q1, t2, "\n"@);
    let text = q1 + "\n"@;
    lemma_part_left(b2, t3, text);
    lemma_part_left(b3, t4, text);
    lemma_part_left(b4, t5, text);
    lemma_part_left(b5, t6, text);
    lemma_part_left(b6, t7, text);
    lemma_part_left(b7, t8, text);
    lemma_part_left(b8, t9, text);
    lemma_part_left(b9, t10, text);
    lemma_part_left(b10, t11, text);
    lemma_part_left(b11, t12, text);
    lemma_part_left(b12, t13, text);
    lemma_part_left(b13, t14, text);
    lemma_part_left(b14, t15, text);
    lemma_part_left(b15, t16, text);
    lemma_part_left(b16, t17, text);
    lemma_part_left(b17, t18, text);
    lemma_part_left(b18, t19, text);
    lemma_part_left(b19, t20, text);
    lemma_part_left(b20, t21, text);
    lemma_part_left(b21, t22, text);
    lemma_part_left(b22, t23, text);
    lemma_part_left(b23, t24, text);
    lemma_part_left(b24, t25, text);
    lemma_part_left(b25, t26, text);
    lemma_part_left(b26, t27, text);
    lemma_part_left(b27, t28, text);
    lemma_shows(out@, file, text);
    lemma_kickstart_file_4();
    lemma_part_right(b5, t6, "\n%post --erroronfail\nset -eu\n"@);
    let text = "\n%post --erroronfail\nset -eu\n"@;
    lemma_part_left(b6, t7, text);
    lemma_part_left(b7, t8, text);
    lemma_part_left(b8, t9, text);
    lemma_part_left(b9, t10, text);
    lemma_part_left(b10, t11, text);
    lemma_part_left(b11, t12, text);
    lemma_part_left(b12, t13, text);
    lemma_part_left(b13, t14, text);
    lemma_part_left(b14, t15, text);
    lemma_part_left(b15, t16, text);
    lemma_part_left(b16, t17, text);
    lemma_part_left(b17, t18, text);
    lemma_part_left(b18, t19, text);
    lemma_part_left(b19, t20, text);
    lemma_part_left(b20, t21, text);
    lemma_part_left(b21, t22, text);
    lemma_part_left(b22, t23, text);
    lemma_part_left(b23, t24, text);
    lemma_part_left(b24, t25, text);
    lemma_part_left(b25, t26, text);
    lemma_part_left(b26, t27, text);
    lemma_part_left(b27, t28, text);
    lemma_shows(out@, file, text);
    lemma_kickstart_file_5();
    let q6 = "\nroot_disk=$(lsblk --noheadings --output PKNAME --paths \"$(findmnt --noheadings --output SOURCE /)\" | head -1)\nmin_bytes=$(( "@;
    lemma_tail_right(b5, t6, q6);
    lemma_tail_grows(b6, q6, t7);
    let q7 = q6 + t7;
    lemma_kickstart_file_6();
    lemma_tail_is_cut(b7, q7, t8, " * 1000 * 1000 * 1000 ))\nbulk=\"\"\ncache=\"\"\nfor dev in $(lsblk --noheadings --nodeps --output PATH); do\n  [ \"$dev\" = \"$root_disk\" ] && continue\n  size=$(blockdev --getsize64 \"$dev\")\n  if [ \"$size\" -ge \"$min_bytes\" ]; then bulk=\"$dev\"; else cache=\"$dev\"; fi\ndone\n"@);
    let text = q7 + " * 1000 * 1000 * 1000 ))\nbulk=\"\"\ncache=\"\"\nfor dev in $(lsblk --noheadings --nodeps --output PATH); do\n  [ \"$dev\" = \"$root_disk\" ] && continue\n  size=$(blockdev --getsize64 \"$dev\")\n  if [ \"$size\" -ge \"$min_bytes\" ]; then bulk=\"$dev\"; else cache=\"$dev\"; fi\ndone\n"@;
    lemma_part_left(b8, t9, text);
    lemma_part_left(b9, t10, text);
    lemma_part_left(b10, t11, text);
    lemma_part_left(b11, t12, text);
    lemma_part_left(b12, t13, text);
    lemma_part_left(b13, t14, text);
    lemma_part_left(b14, t15, text);
    lemma_part_left(b15, t16, text);
    lemma_part_left(b16, t17, text);
    lemma_part_left(b17, t18, text);
    lemma_part_left(b18, t19, text);
    lemma_part_left(b19, t20, text);
    lemma_part_left(b20, t21, text);
    lemma_part_left(b21, t22, text);
    lemma_part_left(b22, t23, text);
    lemma_part_left(b23, t24, text);
    lemma_part_left(b24, t25, text);
    lemma_part_left(b25, t26, text);
    lemma_part_left(b26, t27, text);
    lemma_part_left(b27, t28, text);
    lemma_shows(out@, file, text);
    lemma_kickstart_file_7();
    let q8 = "\nif [ -n \"$bulk\" ] && [ -n \"$cache\" ]; then\n  vgcreate "@;
    lemma_tail_right(b7, t8, q8);
    lemma_tail_grows(b8, q8, t9);
    let q9 = q8 + t9;
    lemma_tail_grows(b9, q9, t10);
    let q10 = q9 + t10;
    lemma_tail_grows(b10, q10, t11);
    let q11 = q10 + t11;
    lemma_tail_grows(b11, q11, t12);
    let q12 = q11 + t12;
    lemma_tail_grows(b12, q12, t13);
    let q13 = q12 + t13;
    lemma_tail_grows(b13, q13, t14);
    let q14 = q13 + t14;
    lemma_tail_grows(b14, q14, t15);
    let q15 = q14 + t15;
    lemma_tail_grows(b15, q15, t16);
    let q16 = q15 + t16;
    lemma_tail_grows(b16, q16, t17);
    let q17 = q16 + t17;
    lemma_tail_grows(b17, q17, t18);
    let q18 = q17 + t18;
    lemma_tail_grows(b18, q18, t19);
    let q19 = q18 + t19;
    lemma_tail_grows(b19, q19, t20);
    let q20 = q19 + t20;
    lemma_tail_grows(b20, q20, t21);
    let q21 = q20 + t21;
    lemma_tail_grows(b21, q21, t22);
    let q22 = q21 + t22;
    lemma_tail_grows(b22, q22, t23);
    let q23 = q22 + t23;
    lemma_kickstart_file_8();
    lemma_tail_is_cut(b23, q23, t24, "\nelif [ -n \"$cache\" ]; then\n"@);
    let text = q23 + "\nelif [ -n \"$cache\" ]; then\n"@;
    lemma_part_left(b24, t25, text);
    lemma_part_left(b25, t26, text);
    lemma_part_left(b26, t27, text);
    lemma_part_left(b27, t28, text);
    lemma_shows(out@, file, text);
    lemma_kickstart_file_9();
    lemma_part_right(b25, t26, "\n  mkfs.xfs \"$cache\"\nfi\n%end\n"@);
    let text = "\n  mkfs.xfs \"$cache\"\nfi\n%end\n"@;
    lemma_part_left(b26, t27, text);
    lemma_part_left(b27, t28, text);
    lemma_shows(out@, file, text);
    let q27 = t27;
    lemma_whole(t27);
    lemma_tail_right(b26, t27, q27);
    lemma_kickstart_file_10();
    lemma_tail_is_cut(b27, q27, t28, "\n"@);
    let text = q27 + "\n"@;
    lemma_shows(out@, file, text);
    lemma_kickstart_file_11();
    lemma_part_right(b27, t28, "\n%post --erroronfail --nochroot\necho 'cluster-health must pass before this node is in service'\n%end\n"@);
    let text = "\n%post --erroronfail --nochroot\necho 'cluster-health must pass before this node is in service'\n%end\n"@;
    lemma_shows(out@, file, text);
    lemma_kickstart_file_12();
    lemma_part_right(b27, t28, "\nreboot\n"@);
    let text = "\nreboot\n"@;
    lemma_shows(out@, file, text);
}

proof fn lemma_kickstart_file_0()
    ensures
        is_part("# The kickstart every machine is installed from. One image means one\n# installer and nothing to select at install time (§8.4, §12.1).\n#\n# It carries no credentials and substitutes nothing. A node comes up\n# unenrolled and is given its secrets through the browser, over the LAN,\n# after it boots (§12.2, §16.2).\n#\n# The ISO's SHA-256 is published in the release and verified out of band.\n# That checksum is the root of trust: §12.3's signature policy ships inside\n# the image, so the first install cannot verify itself (§12.1).\n\ntext\nfirstboot --disable\nselinux --enforcing\nnetwork --bootproto=dhcp --device=link --activate\nrootpw --lock\n# Console redirection matches the firmware setting (§2.4).\nbootloader --append=\"console=ttyS1,115200\"\n\n# M.2 layout, identical on every node. bootc uses ostree deployments\n# rather than A/B partitions, so current and rollback share p3 and there\n# is no slot arithmetic (§5.1).\nclearpart --all --initlabel --disklabel=gpt\n"@, "\ntext\nfirstboot --disable\nselinux --enforcing\nnetwork --bootproto=dhcp --device=link --activate\nrootpw --lock\n"@),
{
    reveal(is_part);
    reveal_strlit("# The kickstart every machine is installed from. One image means one\n# installer and nothing to select at install time (§8.4, §12.1).\n#\n# It carries no credentials and substitutes nothing. A node comes up\n# unenrolled and is given its secrets through the browser, over the LAN,\n# after it boots (§12.2, §16.2).\n#\n# The ISO's SHA-256 is published in the release and verified out of band.\n# That checksum is the root of trust: §12.3's signature policy ships inside\n# the image, so the first install cannot verify itself (§12.1).\n\ntext\nfirstboot --disable\nselinux --enforcing\nnetwork --bootproto=dhcp --device=link --activate\nrootpw --lock\n# Console redirection matches the firmware setting (§2.4).\nbootloader --append=\"console=ttyS1,115200\"\n\n# M.2 layout, identical on every node. bootc uses ostree deployments\n# rather than A/B partitions, so current and rollback share p3 and there\n# is no slot arithmetic (§5.1).\nclearpart --all --initlabel --disklabel=gpt\n");
    reveal_strlit("\ntext\nfirstboot --disable\nselinux --enforcing\nnetwork --bootproto=dhcp --device=link --activate\nrootpw --lock\n");
    assert("# The kickstart every machine is installed from. One image means one\n# installer and nothing to select at install time (§8.4, §12.1).\n#\n# It carries no credentials and substitutes nothing. A node comes up\n# unenrolled and is given its secrets through the browser, over the LAN,\n# after it boots (§12.2, §16.2).\n#\n# The ISO's SHA-256 is published in the release and verified out of band.\n# That checksum is the root of trust: §12.3's signature policy ships inside\n# the image, so the first install cannot verify itself (§12.1).\n\ntext\nfirstboot --disable\nselinux --enforcing\nnetwork --bootproto=dhcp --device=link --activate\nrootpw --lock\n# Console redirection matches the firmware setting (§2.4).\nbootloader --append=\"console=ttyS1,115200\"\n\n# M.2 layout, identical on every node. bootc uses ostree deployments\n# rather than A/B partitions, so current and rollback share p3 and there\n# is no slot arithmetic (§5.1).\nclearpart --all --initlabel --disklabel=gpt\n"@.subrange(527, 637) =~= "\ntext\nfirstboot --disable\nselinux --enforcing\nnetwork --bootproto=dhcp --device=link --activate\nrootpw --lock\n"@);
    assert(occurs_at("# The kickstart every machine is installed from. One image means one\n# installer and nothing to select at install time (§8.4, §12.1).\n#\n# It carries no credentials and substitutes nothing. A node comes up\n# unenrolled and is given its secrets through the browser, over the LAN,\n# after it boots (§12.2, §16.2).\n#\n# The ISO's SHA-256 is published in the release and verified out of band.\n# That checksum is the root of trust: §12.3's signature policy ships inside\n# the image, so the first install cannot verify itself (§12.1).\n\ntext\nfirstboot --disable\nselinux --enforcing\nnetwork --bootproto=dhcp --device=link --activate\nrootpw --lock\n# Console redirection matches the firmware setting (§2.4).\nbootloader --append=\"console=ttyS1,115200\"\n\n# M.2 layout, identical on every node. bootc uses ostree deployments\n# rather than A/B partitions, so current and rollback share p3 and there\n# is no slot arithmetic (§5.1).\nclearpart --all --initlabel --disklabel=gpt\n"@, "\ntext\nfirstboot --disable\nselinux --enforcing\nnetwork --bootproto=dhcp --device=link --activate\nrootpw --lock\n"@, 527));
}

proof fn lemma_kickstart_file_1()
    ensures
        is_part("# The kickstart every machine is installed from. One image means one\n# installer and nothing to select at install time (§8.4, §12.1).\n#\n# It carries no credentials and substitutes nothing. A node comes up\n# unenrolled and is given its secrets through the browser, over the LAN,\n# after it boots (§12.2, §16.2).\n#\n# The ISO's SHA-256 is published in the release and verified out of band.\n# That checksum is the root of trust: §12.3's signature policy ships inside\n# the image, so the first install cannot verify itself (§12.1).\n\ntext\nfirstboot --disable\nselinux --enforcing\nnetwork --bootproto=dhcp --device=link --activate\nrootpw --lock\n# Console redirection matches the firmware setting (§2.4).\nbootloader --append=\"console=ttyS1,115200\"\n\n# M.2 layout, identical on every node. bootc uses ostree deployments\n# rather than A/B partitions, so current and rollback share p3 and there\n# is no slot arithmetic (§5.1).\nclearpart --all --initlabel --disklabel=gpt\n"@, "\nbootloader --append=\"console=ttyS1,115200\"\n"@),
{
    reveal(is_part);
    reveal_strlit("# The kickstart every machine is installed from. One image means one\n# installer and nothing to select at install time (§8.4, §12.1).\n#\n# It carries no credentials and substitutes nothing. A node comes up\n# unenrolled and is given its secrets through the browser, over the LAN,\n# after it boots (§12.2, §16.2).\n#\n# The ISO's SHA-256 is published in the release and verified out of band.\n# That checksum is the root of trust: §12.3's signature policy ships inside\n# the image, so the first install cannot verify itself (§12.1).\n\ntext\nfirstboot --disable\nselinux --enforcing\nnetwork --bootproto=dhcp --device=link --activate\nrootpw --lock\n# Console redirection matches the firmware setting (§2.4).\nbootloader --append=\"console=ttyS1,115200\"\n\n# M.2 layout, identical on every node. bootc uses ostree deployments\n# rather than A/B partitions, so current and rollback share p3 and there\n# is no slot arithmetic (§5.1).\nclearpart --all --initlabel --disklabel=gpt\n");
    reveal_strlit("\nbootloader --append=\"console=ttyS1,115200\"\n");
    assert("# The kickstart every machine is installed from. One image means one\n# installer and nothing to select at install time (§8.4, §12.1).\n#\n# It carries no credentials and substitutes nothing. A node comes up\n# unenrolled and is given its secrets through the browser, over the LAN,\n# after it boots (§12.2, §16.2).\n#\n# The ISO's SHA-256 is published in the release and verified out of band.\n# That checksum is the root of trust: §12.3's signature policy ships inside\n# the image, so the first install cannot verify itself (§12.1).\n\ntext\nfirstboot --disable\nselinux --enforcing\nnetwork --bootproto=dhcp --device=link --activate\nrootpw --lock\n# Console redirection matches the firmware setting (§2.4).\nbootloader --append=\"console=ttyS1,115200\"\n\n# M.2 layout, identical on every node. bootc uses ostree deployments\n# rather than A/B partitions, so current and rollback share p3 and there\n# is no slot arithmetic (§5.1).\nclearpart --all --initlabel --disklabel=gpt\n"@.subrange(695, 739) =~= "\nbootloader --append=\"console=ttyS1,115200\"\n"@);
    assert(occurs_at("# The kickstart every machine is installed from. One image means one\n# installer and nothing to select at install time (§8.4, §12.1).\n#\n# It carries no credentials and substitutes nothing. A node comes up\n# unenrolled and is given its secrets through the browser, over the LAN,\n# after it boots (§12.2, §16.2).\n#\n# The ISO's SHA-256 is published in the release and verified out of band.\n# That checksum is the root of trust: §12.3's signature policy ships inside\n# the image, so the first install cannot verify itself (§12.1).\n\ntext\nfirstboot --disable\nselinux --enforcing\nnetwork --bootproto=dhcp --device=link --activate\nrootpw --lock\n# Console redirection matches the firmware setting (§2.4).\nbootloader --append=\"console=ttyS1,115200\"\n\n# M.2 layout, identical on every node. bootc uses ostree deployments\n# rather than A/B partitions, so current and rollback share p3 and there\n# is no slot arithmetic (§5.1).\nclearpart --all --initlabel --disklabel=gpt\n"@, "\nbootloader --append=\"console=ttyS1,115200\"\n"@, 695));
}

proof fn lemma_kickstart_file_2()
    ensures
        is_tail("# The kickstart every machine is installed from. One image means one\n# installer and nothing to select at install time (§8.4, §12.1).\n#\n# It carries no credentials and substitutes nothing. A node comes up\n# unenrolled and is given its secrets through the browser, over the LAN,\n# after it boots (§12.2, §16.2).\n#\n# The ISO's SHA-256 is published in the release and verified out of band.\n# That checksum is the root of trust: §12.3's signature policy ships inside\n# the image, so the first install cannot verify itself (§12.1).\n\ntext\nfirstboot --disable\nselinux --enforcing\nnetwork --bootproto=dhcp --device=link --activate\nrootpw --lock\n# Console redirection matches the firmware setting (§2.4).\nbootloader --append=\"console=ttyS1,115200\"\n\n# M.2 layout, identical on every node. bootc uses ostree deployments\n# rather than A/B partitions, so current and rollback share p3 and there\n# is no slot arithmetic (§5.1).\nclearpart --all --initlabel --disklabel=gpt\n"@, "\nclearpart --all --initlabel --disklabel=gpt\n"@),
{
    reveal(is_tail);
    reveal_strlit("# The kickstart every machine is installed from. One image means one\n# installer and nothing to select at install time (§8.4, §12.1).\n#\n# It carries no credentials and substitutes nothing. A node comes up\n# unenrolled and is given its secrets through the browser, over the LAN,\n# after it boots (§12.2, §16.2).\n#\n# The ISO's SHA-256 is published in the release and verified out of band.\n# That checksum is the root of trust: §12.3's signature policy ships inside\n# the image, so the first install cannot verify itself (§12.1).\n\ntext\nfirstboot --disable\nselinux --enforcing\nnetwork --bootproto=dhcp --device=link --activate\nrootpw --lock\n# Console redirection matches the firmware setting (§2.4).\nbootloader --append=\"console=ttyS1,115200\"\n\n# M.2 layout, identical on every node. bootc uses ostree deployments\n# rather than A/B partitions, so current and rollback share p3 and there\n# is no slot arithmetic (§5.1).\nclearpart --all --initlabel --disklabel=gpt\n");
    reveal_strlit("\nclearpart --all --initlabel --disklabel=gpt\n");
    assert("# The kickstart every machine is installed from. One image means one\n# installer and nothing to select at install time (§8.4, §12.1).\n#\n# It carries no credentials and substitutes nothing. A node comes up\n# unenrolled and is given its secrets through the browser, over the LAN,\n# after it boots (§12.2, §16.2).\n#\n# The ISO's SHA-256 is published in the release and verified out of band.\n# That checksum is the root of trust: §12.3's signature policy ships inside\n# the image, so the first install cannot verify itself (§12.1).\n\ntext\nfirstboot --disable\nselinux --enforcing\nnetwork --bootproto=dhcp --device=link --activate\nrootpw --lock\n# Console redirection matches the firmware setting (§2.4).\nbootloader --append=\"console=ttyS1,115200\"\n\n# M.2 layout, identical on every node. bootc uses ostree deployments\n# rather than A/B partitions, so current and rollback share p3 and there\n# is no slot arithmetic (§5.1).\nclearpart --all --initlabel --disklabel=gpt\n"@.subrange(913, 958) =~= "\nclearpart --all --initlabel --disklabel=gpt\n"@);
}

proof fn lemma_kickstart_file_3()
    ensures
        is_head("\n# Secondary storage, decided here rather than chosen by an operator.\n#\n# A non-boot block device of at least "@, "\n"@),
{
    reveal(is_head);
    reveal_strlit("\n# Secondary storage, decided here rather than chosen by an operator.\n#\n# A non-boot block device of at least ");
    reveal_strlit("\n");
    assert("\n# Secondary storage, decided here rather than chosen by an operator.\n#\n# A non-boot block device of at least "@.subrange(0, 1) =~= "\n"@);
}

proof fn lemma_kickstart_file_4()
    ensures
        is_part(".\n# Writeback would be faster on write and would make a single non-redundant\n# SSD a data-loss mode for the whole origin. Writethrough adds no failure\n# mode, and it is what makes §2.5's tolerance of hard power loss true ---\n# which unattended reboots depend on (§5.3).\n#\n# dm-cache over ZFS because it is in-tree: a kernel bump carried by a new\n# image must not require rebuilding an out-of-tree module inside an\n# immutable host.\n%post --erroronfail\nset -eu\n\nroot_disk=$(lsblk --noheadings --output PKNAME --paths \"$(findmnt --noheadings --output SOURCE /)\" | head -1)\nmin_bytes=$(( "@, "\n%post --erroronfail\nset -eu\n"@),
{
    reveal(is_part);
    reveal_strlit(".\n# Writeback would be faster on write and would make a single non-redundant\n# SSD a data-loss mode for the whole origin. Writethrough adds no failure\n# mode, and it is what makes §2.5's tolerance of hard power loss true ---\n# which unattended reboots depend on (§5.3).\n#\n# dm-cache over ZFS because it is in-tree: a kernel bump carried by a new\n# image must not require rebuilding an out-of-tree module inside an\n# immutable host.\n%post --erroronfail\nset -eu\n\nroot_disk=$(lsblk --noheadings --output PKNAME --paths \"$(findmnt --noheadings --output SOURCE /)\" | head -1)\nmin_bytes=$(( ");
    reveal_strlit("\n%post --erroronfail\nset -eu\n");
    assert(".\n# Writeback would be faster on write and would make a single non-redundant\n# SSD a data-loss mode for the whole origin. Writethrough adds no failure\n# mode, and it is what makes §2.5's tolerance of hard power loss true ---\n# which unattended reboots depend on (§5.3).\n#\n# dm-cache over ZFS because it is in-tree: a kernel bump carried by a new\n# image must not require rebuilding an out-of-tree module inside an\n# immutable host.\n%post --erroronfail\nset -eu\n\nroot_disk=$(lsblk --noheadings --output PKNAME --paths \"$(findmnt --noheadings --output SOURCE /)\" | head -1)\nmin_bytes=$(( "@.subrange(431, 460) =~= "\n%post --erroronfail\nset -eu\n"@);
    assert(occurs_at(".\n# Writeback would be faster on write and would make a single non-redundant\n# SSD a data-loss mode for the whole origin. Writethrough adds no failure\n# mode, and it is what makes §2.5's tolerance of hard power loss true ---\n# which unattended reboots depend on (§5.3).\n#\n# dm-cache over ZFS because it is in-tree: a kernel bump carried by a new\n# image must not require rebuilding an out-of-tree module inside an\n# immutable host.\n%post --erroronfail\nset -eu\n\nroot_disk=$(lsblk --noheadings --output PKNAME --paths \"$(findmnt --noheadings --output SOURCE /)\" | head -1)\nmin_bytes=$(( "@, "\n%post --erroronfail\nset -eu\n"@, 431));
}

proof fn lemma_kickstart_file_5()
    ensures
        is_tail(".\n# Writeback would be faster on write and would make a single non-redundant\n# SSD a data-loss mode for the whole origin. Writethrough adds no failure\n# mode, and it is what makes §2.5's tolerance of hard power loss true ---\n# which unattended reboots depend on (§5.3).\n#\n# dm-cache over ZFS because it is in-tree: a kernel bump carried by a new\n# image must not require rebuilding an out-of-tree module inside an\n# immutable host.\n%post --erroronfail\nset -eu\n\nroot_disk=$(lsblk --noheadings --output PKNAME --paths \"$(findmnt --noheadings --output SOURCE /)\" | head -1)\nmin_bytes=$(( "@, "\nroot_disk=$(lsblk --noheadings --output PKNAME --paths \"$(findmnt --noheadings --output SOURCE /)\" | head -1)\nmin_bytes=$(( "@),
{
    reveal(is_tail);
    reveal_strlit(".\n# Writeback would be faster on write and would make a single non-redundant\n# SSD a data-loss mode for the whole origin. Writethrough adds no failure\n# mode, and it is what makes §2.5's tolerance of hard power loss true ---\n# which unattended reboots depend on (§5.3).\n#\n# dm-cache over ZFS because it is in-tree: a kernel bump carried by a new\n# image must not require rebuilding an out-of-tree module inside an\n# immutable host.\n%post --erroronfail\nset -eu\n\nroot_disk=$(lsblk --noheadings --output PKNAME --paths \"$(findmnt --noheadings --output SOURCE /)\" | head -1)\nmin_bytes=$(( ");
    reveal_strlit("\nroot_disk=$(lsblk --noheadings --output PKNAME --paths \"$(findmnt --noheadings --output SOURCE /)\" | head -1)\nmin_bytes=$(( ");
    assert(".\n# Writeback would be faster on write and would make a single non-redundant\n# SSD a data-loss mode for the whole origin. Writethrough adds no failure\n# mode, and it is what makes §2.5's tolerance of hard power loss true ---\n# which unattended reboots depend on (§5.3).\n#\n# dm-cache over ZFS because it is in-tree: a kernel bump carried by a new\n# image must not require rebuilding an out-of-tree module inside an\n# immutable host.\n%post --erroronfail\nset -eu\n\nroot_disk=$(lsblk --noheadings --output PKNAME --paths \"$(findmnt --noheadings --output SOURCE /)\" | head -1)\nmin_bytes=$(( "@.subrange(460, 585) =~= "\nroot_disk=$(lsblk --noheadings --output PKNAME --paths \"$(findmnt --noheadings --output SOURCE /)\" | head -1)\nmin_bytes=$(( "@);
}

proof fn lemma_kickstart_file_6()
    ensures
        is_head(" * 1000 * 1000 * 1000 ))\nbulk=\"\"\ncache=\"\"\nfor dev in $(lsblk --noheadings --nodeps --output PATH); do\n  [ \"$dev\" = \"$root_disk\" ] && continue\n  size=$(blockdev --getsize64 \"$dev\")\n  if [ \"$size\" -ge \"$min_bytes\" ]; then bulk=\"$dev\"; else cache=\"$dev\"; fi\ndone\n\nif [ -n \"$bulk\" ] && [ -n \"$cache\" ]; then\n  vgcreate "@, " * 1000 * 1000 * 1000 ))\nbulk=\"\"\ncache=\"\"\nfor dev in $(lsblk --noheadings --nodeps --output PATH); do\n  [ \"$dev\" = \"$root_disk\" ] && continue\n  size=$(blockdev --getsize64 \"$dev\")\n  if [ \"$size\" -ge \"$min_bytes\" ]; then bulk=\"$dev\"; else cache=\"$dev\"; fi\ndone\n"@),
{
    reveal(is_head);
    reveal_strlit(" * 1000 * 1000 * 1000 ))\nbulk=\"\"\ncache=\"\"\nfor dev in $(lsblk --noheadings --nodeps --output PATH); do\n  [ \"$dev\" = \"$root_disk\" ] && continue\n  size=$(blockdev --getsize64 \"$dev\")\n  if [ \"$size\" -ge \"$min_bytes\" ]; then bulk=\"$dev\"; else cache=\"$dev\"; fi\ndone\n\nif [ -n \"$bulk\" ] && [ -n \"$cache\" ]; then\n  vgcreate ");
    reveal_strlit(" * 1000 * 1000 * 1000 ))\nbulk=\"\"\ncache=\"\"\nfor dev in $(lsblk --noheadings --nodeps --output PATH); do\n  [ \"$dev\" = \"$root_disk\" ] && continue\n  size=$(blockdev --getsize64 \"$dev\")\n  if [ \"$size\" -ge \"$min_bytes\" ]; then bulk=\"$dev\"; else cache=\"$dev\"; fi\ndone\n");
    assert(" * 1000 * 1000 * 1000 ))\nbulk=\"\"\ncache=\"\"\nfor dev in $(lsblk --noheadings --nodeps --output PATH); do\n  [ \"$dev\" = \"$root_disk\" ] && continue\n  size=$(blockdev --getsize64 \"$dev\")\n  if [ \"$size\" -ge \"$min_bytes\" ]; then bulk=\"$dev\"; else cache=\"$dev\"; fi\ndone\n\nif [ -n \"$bulk\" ] && [ -n \"$cache\" ]; then\n  vgcreate "@.subrange(0, 260) =~= " * 1000 * 1000 * 1000 ))\nbulk=\"\"\ncache=\"\"\nfor dev in $(lsblk --noheadings --nodeps --output PATH); do\n  [ \"$dev\" = \"$root_disk\" ] && continue\n  size=$(blockdev --getsize64 \"$dev\")\n  if [ \"$size\" -ge \"$min_bytes\" ]; then bulk=\"$dev\"; else cache=\"$dev\"; fi\ndone\n"@);
}

proof fn lemma_kickstart_file_7()
    ensures
        is_tail(" * 1000 * 1000 * 1000 ))\nbulk=\"\"\ncache=\"\"\nfor dev in $(lsblk --noheadings --nodeps --output PATH); do\n  [ \"$dev\" = \"$root_disk\" ] && continue\n  size=$(blockdev --getsize64 \"$dev\")\n  if [ \"$size\" -ge \"$min_bytes\" ]; then bulk=\"$dev\"; else cache=\"$dev\"; fi\ndone\n\nif [ -n \"$bulk\" ] && [ -n \"$cache\" ]; then\n  vgcreate "@, "\nif [ -n \"$bulk\" ] && [ -n \"$cache\" ]; then\n  vgcreate "@),
{
    reveal(is_tail);
    reveal_strlit(" * 1000 * 1000 * 1000 ))\nbulk=\"\"\ncache=\"\"\nfor dev in $(lsblk --noheadings --nodeps --output PATH); do\n  [ \"$dev\" = \"$root_disk\" ] && continue\n  size=$(blockdev --getsize64 \"$dev\")\n  if [ \"$size\" -ge \"$min_bytes\" ]; then bulk=\"$dev\"; else cache=\"$dev\"; fi\ndone\n\nif [ -n \"$bulk\" ] && [ -n \"$cache\" ]; then\n  vgcreate ");
    reveal_strlit("\nif [ -n \"$bulk\" ] && [ -n \"$cache\" ]; then\n  vgcreate ");
    assert(" * 1000 * 1000 * 1000 ))\nbulk=\"\"\ncache=\"\"\nfor dev in $(lsblk --noheadings --nodeps --output PATH); do\n  [ \"$dev\" = \"$root_disk\" ] && continue\n  size=$(blockdev --getsize64 \"$dev\")\n  if [ \"$size\" -ge \"$min_bytes\" ]; then bulk=\"$dev\"; else cache=\"$dev\"; fi\ndone\n\nif [ -n \"$bulk\" ] && [ -n \"$cache\" ]; then\n  vgcreate "@.subrange(260, 315) =~= "\nif [ -n \"$bulk\" ] && [ -n \"$cache\" ]; then\n  vgcreate "@);
}

proof fn lemma_kickstart_file_8()
    ensures
        is_head("\nelif [ -n \"$cache\" ]; then\n  # No bulk device: this machine will be assigned compute or testbed, and\n  # either way its second device carries local state ("@, "\nelif [ -n \"$cache\" ]; then\n"@),
{
    reveal(is_head);
    reveal_strlit("\nelif [ -n \"$cache\" ]; then\n  # No bulk device: this machine will be assigned compute or testbed, and\n  # either way its second device carries local state (");
    reveal_strlit("\nelif [ -n \"$cache\" ]; then\n");
    assert("\nelif [ -n \"$cache\" ]; then\n  # No bulk device: this machine will be assigned compute or testbed, and\n  # either way its second device carries local state ("@.subrange(0, 28) =~= "\nelif [ -n \"$cache\" ]; then\n"@);
}

proof fn lemma_kickstart_file_9()
    ensures
        is_part("). overlay2 and\n  # podman's overlay driver do not function on NFS, which is why the\n  # container graph is local on every node and NFS carries data only\n  # (§11.2). The two roles name the same device, and the model check\n  # requires that: the installer cannot tell them apart.\n  mkfs.xfs \"$cache\"\nfi\n%end\n\n# The node installs with no credentials and comes up **unenrolled**.\n#\n# There is nothing to substitute here and nothing withheld. The ISO is a\n# release artifact, so a secret placed in one is published to whoever\n# downloads it --- and this repository is public (§9.1).\n#\n# What an unenrolled node has is the control plane, reachable over the LAN.\n# The operator opens it in a browser, authenticates with the GitHub App\n# device flow --- the one credential checkable without any of the others\n# existing --- and enters the rest (§12.2, §16.2):\n#\n"@, "\n  mkfs.xfs \"$cache\"\nfi\n%end\n"@),
{
    reveal(is_part);
    reveal_strlit("). overlay2 and\n  # podman's overlay driver do not function on NFS, which is why the\n  # container graph is local on every node and NFS carries data only\n  # (§11.2). The two roles name the same device, and the model check\n  # requires that: the installer cannot tell them apart.\n  mkfs.xfs \"$cache\"\nfi\n%end\n\n# The node installs with no credentials and comes up **unenrolled**.\n#\n# There is nothing to substitute here and nothing withheld. The ISO is a\n# release artifact, so a secret placed in one is published to whoever\n# downloads it --- and this repository is public (§9.1).\n#\n# What an unenrolled node has is the control plane, reachable over the LAN.\n# The operator opens it in a browser, authenticates with the GitHub App\n# device flow --- the one credential checkable without any of the others\n# existing --- and enters the rest (§12.2, §16.2):\n#\n");
    reveal_strlit("\n  mkfs.xfs \"$cache\"\nfi\n%end\n");
    assert("). overlay2 and\n  # podman's overlay driver do not function on NFS, which is why the\n  # container graph is local on every node and NFS carries data only\n  # (§11.2). The two roles name the same device, and the model check\n  # requires that: the installer cannot tell them apart.\n  mkfs.xfs \"$cache\"\nfi\n%end\n\n# The node installs with no credentials and comes up **unenrolled**.\n#\n# There is nothing to substitute here and nothing withheld. The ISO is a\n# release artifact, so a secret placed in one is published to whoever\n# downloads it --- and this repository is public (§9.1).\n#\n# What an unenrolled node has is the control plane, reachable over the LAN.\n# The operator opens it in a browser, authenticates with the GitHub App\n# device flow --- the one credential checkable without any of the others\n# existing --- and enters the rest (§12.2, §16.2):\n#\n"@.subrange(279, 308) =~= "\n  mkfs.xfs \"$cache\"\nfi\n%end\n"@);
    assert(occurs_at("). overlay2 and\n  # podman's overlay driver do not function on NFS, which is why the\n  # container graph is local on every node and NFS carries data only\n  # (§11.2). The two roles name the same device, and the model check\n  # requires that: the installer cannot tell them apart.\n  mkfs.xfs \"$cache\"\nfi\n%end\n\n# The node installs with no credentials and comes up **unenrolled**.\n#\n# There is nothing to substitute here and nothing withheld. The ISO is a\n# release artifact, so a secret placed in one is published to whoever\n# downloads it --- and this repository is public (§9.1).\n#\n# What an unenrolled node has is the control plane, reachable over the LAN.\n# The operator opens it in a browser, authenticates with the GitHub App\n# device flow --- the one credential checkable without any of the others\n# existing --- and enters the rest (§12.2, §16.2):\n#\n"@, "\n  mkfs.xfs \"$cache\"\nfi\n%end\n"@, 279));
}

proof fn lemma_kickstart_file_10()
    ensures
        is_head("\n# The node is not considered provisioned until the predicate passes (§12.1).\n%post --erroronfail --nochroot\necho 'cluster-health must pass before this node is in service'\n%end\n\nreboot\n"@, "\n"@),
{
    reveal(is_head);
    reveal_strlit("\n# The node is not considered provisioned until the predicate passes (§12.1).\n%post --erroronfail --nochroot\necho 'cluster-health must pass before this node is in service'\n%end\n\nreboot\n");
    reveal_strlit("\n");
    assert("\n# The node is not considered provisioned until the predicate passes (§12.1).\n%post --erroronfail --nochroot\necho 'cluster-health must pass before this node is in service'\n%end\n\nreboot\n"@.subrange(0, 1) =~= "\n"@);
}

proof fn lemma_kickstart_file_11()
    ensures
        is_part("\n# The node is not considered provisioned until the predicate passes (§12.1).\n%post --erroronfail --nochroot\necho 'cluster-health must pass before this node is in service'\n%end\n\nreboot\n"@, "\n%post --erroronfail --nochroot\necho 'cluster-health must pass before this node is in service'\n%end\n"@),
{
    reveal(is_part);
    reveal_strlit("\n# The node is not considered provisioned until the predicate passes (§12.1).\n%post --erroronfail --nochroot\necho 'cluster-health must pass before this node is in service'\n%end\n\nreboot\n");
    reveal_strlit("\n%post --erroronfail --nochroot\necho 'cluster-health must pass before this node is in service'\n%end\n");
    assert("\n# The node is not considered provisioned until the predicate passes (§12.1).\n%post --erroronfail --nochroot\necho 'cluster-health must pass before this node is in service'\n%end\n\nreboot\n"@.subrange(77, 177) =~= "\n%post --erroronfail --nochroot\necho 'cluster-health must pass before this node is in service'\n%end\n"@);
    assert(occurs_at("\n# The node is not considered provisioned until the predicate passes (§12.1).\n%post --erroronfail --nochroot\necho 'cluster-health must pass before this node is in service'\n%end\n\nreboot\n"@, "\n%post --erroronfail --nochroot\necho 'cluster-health must pass before this node is in service'\n%end\n"@, 77));
}

proof fn lemma_kickstart_file_12()
    ensures
        is_part("\n# The node is not considered provisioned until the predicate passes (§12.1).\n%post --erroronfail --nochroot\necho 'cluster-health must pass before this node is in service'\n%end\n\nreboot\n"@, "\nreboot\n"@),
{
    reveal(is_part);
    reveal_strlit("\n# The node is not considered provisioned until the predicate passes (§12.1).\n%post --erroronfail --nochroot\necho 'cluster-health must pass before this node is in service'\n%end\n\nreboot\n");
    reveal_strlit("\nreboot\n");
    assert("\n# The node is not considered provisioned until the predicate passes (§12.1).\n%post --erroronfail --nochroot\necho 'cluster-health must pass before this node is in service'\n%end\n\nreboot\n"@.subrange(177, 185) =~= "\nreboot\n"@);
    assert(occurs_at("\n# The node is not considered provisioned until the predicate passes (§12.1).\n%post --erroronfail --nochroot\necho 'cluster-health must pass before this node is in service'\n%end\n\nreboot\n"@, "\nreboot\n"@, 177));
}

/// A size in GiB is given in MiB, and one in MiB as it is.
pub proof fn a_size_is_given_in_mebibytes(n: nat)
    ensures
        n <= u64::MAX ==> mib_text(decimal(n) + "GiB"@) == decimal(n * 1024),
        mib_text(decimal(n) + "MiB"@) == decimal(n),
{
    reveal_strlit("GiB");
    reveal_strlit("MiB");
    let (a, b) = (decimal(n) + "GiB"@, decimal(n) + "MiB"@);
    let k = decimal(n).len() as int;
    assert(a.subrange(k, a.len() as int) =~= "GiB"@);
    assert(b.subrange(k, b.len() as int) =~= "MiB"@);
    assert(a.take(k) =~= decimal(n));
    assert(b.take(k) =~= decimal(n));
    assert(!ends(b, "GiB"@)) by {
        assert(b.subrange(k, b.len() as int)[0] == 'M');
        assert("GiB"@[0] == 'G');
    }
    crate::text::a_number_reads_back(n);
    crate::text::lemma_decimal_is_digits(n);
    assert forall|i: int| 0 <= i < decimal(n).len() implies crate::text::digit_value(
        #[trigger] decimal(n)[i],
        10,
    ) is Some by {}
    assert(decimal(n)[0] != '+');
    assert(numeral(decimal(n), 10) == Some(n));
}

/// A device that is declared is used, and the one that stands in for it where
/// none is.
pub proof fn a_declared_device_is_used(value: Option<String>, fallback: Seq<char>)
    ensures
        value matches Some(v) ==> device(value, fallback) == v@,
        value is None ==> device(value, fallback) == fallback,
{
}

} // verus!
