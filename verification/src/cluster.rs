//! The fleet: how many slots it has, what role each ordinal holds, and what a
//! conforming machine is made of.
use vstd::prelude::*;

use crate::named::{find_row, row, Named};
use crate::order::{in_order, key_views, stable_order, Key};
use crate::text::{decimal_of, replace, same};
use crate::text::{decimal, replaced};

verus! {

/// Everything the model says about the fleet and its hardware.
#[derive(Debug)]
pub struct ClusterFile {
    /// The schema tag.
    pub spec: String,
    /// The domain every slot's name is qualified with.
    pub domain: String,
    /// The tailnet the control plane is published on.
    pub tailnet: String,
    /// What a tailnet name ends in.
    pub magic_dns_suffix: String,
    /// The logins permitted to drive the cluster.
    pub authorized_logins: Vec<String>,
    /// The GitHub App a browser authorizes against.
    pub github_app: GithubApp,
    /// How many slots there are, and how they are named.
    pub fleet: Fleet,
    /// One row per role.
    pub role: Vec<Role>,
    /// How a machine works its own role out.
    pub detection: Detection,
    /// What tells two machines apart.
    pub identity: Identity,
    /// Hardware uniform across the fleet.
    pub profile: Profile,
    /// The machines recorded so far. Nothing in the image depends on them.
    pub machine: Vec<Machine>,
    /// The devices a conforming machine may carry.
    pub disk: Vec<Disk>,
    /// The boot device's partition layout, identical on every machine.
    pub partition: Vec<Partition>,
    /// Firmware settings no image can reach.
    pub firmware: Vec<Firmware>,
}

/// The GitHub App a browser authorizes against. Every field is public.
#[derive(Debug)]
pub struct GithubApp {
    /// The App's public client identifier.
    pub client_id: String,
    /// What the browser token may do.
    pub scopes: Vec<String>,
    /// Where a device authorization begins.
    pub device_code_url: String,
    /// Where the device code is exchanged for a token.
    pub token_url: String,
    /// Where a bearer token is resolved to a login.
    pub user_url: String,
}

/// The fleet's shape.
#[derive(Debug)]
pub struct Fleet {
    /// How many ordinals there are.
    pub size: u32,
    /// How an ordinal is named: holds `{ordinal}` and `{domain}`.
    pub name_template: String,
    /// The one name clients use.
    pub entry_name: String,
}

/// A role: what the machine holding it runs.
#[derive(Debug)]
pub struct Role {
    /// Stable identifier.
    pub id: String,
    /// `bulk-disk` (the machine works it out) or `assigned`.
    pub detect: String,
    /// The ordinal a self-detected role takes.
    pub ordinal: Option<u32>,
    /// When the registrar hands this role out, counted from one.
    pub assign_order: Option<u32>,
    /// Position in the rollout sequence, counted from one.
    pub update_position: u32,
    /// Which device plays which storage role.
    pub devices: RoleDevices,
}

/// Which device plays which storage role. A role without one says nothing.
#[derive(Debug)]
pub struct RoleDevices {
    /// The device carrying container graph storage.
    pub container_graph_device: Option<String>,
    /// The device carrying measurement working state.
    pub bench_device: Option<String>,
    /// The volume group holding the data volume.
    pub volume_group: Option<String>,
    /// The origin volume the cache accelerates.
    pub origin_lv: Option<String>,
    /// The device caching the origin volume.
    pub cache_device: Option<String>,
    /// Size of the cache partition standing in for a device.
    pub cache_partition_gib: Option<u32>,
}

/// How a machine works its own role out.
#[derive(Debug)]
pub struct Detection {
    /// The size from which a device other than the boot device is bulk.
    pub bulk_disk_min_gb: u32,
}

/// What tells two machines apart.
#[derive(Debug)]
pub struct Identity {
    /// The file a machine's identity is read from.
    pub source: String,
}

/// Hardware uniform across the fleet.
#[derive(Debug)]
pub struct Profile {
    /// Referenced by [`Machine::profile`].
    pub id: String,
    /// Chassis model.
    pub chassis: String,
    /// Mainboard model.
    pub board: String,
    /// CPU model.
    pub cpu: String,
    /// Physical cores.
    pub cores: u32,
    /// Hardware threads.
    pub threads: u32,
    /// Base clock.
    pub base_mhz: u32,
    /// Maximum clock.
    pub max_mhz: u32,
    /// Thermal design power.
    pub tdp_watts: u32,
    /// Whether AVX-512 is available.
    pub avx512: bool,
    /// Installed memory.
    pub memory_gb: u32,
    /// DIMM slots.
    pub memory_slots: u32,
    /// The board's memory ceiling.
    pub memory_ceiling_gb: u32,
    /// 10GBase-T ports, which is what bounds the mesh.
    pub nic_10g: u32,
    /// 1GbE ports.
    pub nic_1g: u32,
    /// Whether a dedicated BMC port is present.
    pub ipmi: bool,
}

/// One slot of the fleet, derived from its ordinal.
#[derive(Debug)]
pub struct Node {
    /// The ordinal, counted from one.
    pub ordinal: u32,
    /// Short name.
    pub name: String,
    /// Fully-qualified name.
    pub fqdn: String,
    /// The role this ordinal holds.
    pub role: String,
    /// Position in the rollout sequence.
    pub update_position: u32,
    /// The loopback every mesh service binds.
    pub loopback: String,
}

/// One machine, as its record states it.
#[derive(Debug)]
pub struct Machine {
    /// The short name of the slot it holds.
    pub name: String,
    /// The role it holds.
    pub role: String,
    /// The [`Profile`] it is built on.
    pub profile: String,
    /// Position in the rollout sequence.
    pub update_position: u32,
    /// Its mesh loopback.
    pub loopback: String,
    /// Management address with prefix length.
    pub mgmt_address: String,
    /// BMC address with prefix length.
    pub bmc_address: String,
    /// BMC power-on delay after AC restore.
    pub power_on_delay_s: u32,
    /// Interface identity.
    pub mac: Macs,
    /// Which device plays which storage role.
    pub storage: NodeStorage,
    /// The physical devices installed.
    pub disk: Vec<Disk>,
}

/// The four MAC addresses a machine has.
#[derive(Debug)]
pub struct Macs {
    /// Management plane, 1GbE.
    pub mgmt: String,
    /// First mesh port, 10GBase-T.
    pub mesh_a: String,
    /// Second mesh port, 10GBase-T.
    pub mesh_b: String,
    /// Dedicated IPMI port.
    pub bmc: String,
}

/// Which device plays which storage role on one machine.
#[derive(Debug)]
pub struct NodeStorage {
    /// The device caching the origin volume.
    pub cache_device: Option<String>,
    /// Size of the cache partition standing in for a device.
    pub cache_partition_gib: Option<u32>,
    /// The volume group holding the data volume.
    pub volume_group: Option<String>,
    /// The origin volume the cache accelerates.
    pub origin_lv: Option<String>,
    /// The device carrying container graph storage.
    pub container_graph_device: Option<String>,
    /// The device carrying measurement working state.
    pub bench_device: Option<String>,
}

/// A physical device.
#[derive(Debug)]
pub struct Disk {
    /// Stable identifier.
    pub id: String,
    /// `nvme`, `ssd`, or `hdd`.
    pub kind: String,
    /// Nominal capacity.
    pub size_gb: u32,
    /// What it is for.
    pub purpose: String,
}

/// One partition of the boot device.
#[derive(Debug)]
pub struct Partition {
    /// `p1`, `p2`, `p3`.
    pub id: String,
    /// A size, or `remainder`.
    pub size: String,
    /// Filesystem.
    pub format: String,
    /// Mount point.
    pub mount: String,
}

/// A firmware setting applied by hand.
#[derive(Debug)]
pub struct Firmware {
    /// The setting's name.
    pub setting: String,
    /// The value it must hold.
    pub value: String,
    /// How a hardware run observes it.
    pub probe: String,
    /// Why it is set that way.
    pub reason: String,
}

impl Macs {
    /// The four addresses paired with the interface role each carries.
    pub open spec fn roles_spec(&self) -> Seq<(Seq<char>, Seq<char>)> {
        seq![
            ("mgmt"@, self.mgmt@),
            ("mesh_a"@, self.mesh_a@),
            ("mesh_b"@, self.mesh_b@),
            ("bmc"@, self.bmc@),
        ]
    }

    /// The address carrying a named interface role.
    pub open spec fn get_spec(&self, role: Seq<char>) -> Option<Seq<char>> {
        if role == "mgmt"@ {
            Some(self.mgmt@)
        } else if role == "mesh_a"@ {
            Some(self.mesh_a@)
        } else if role == "mesh_b"@ {
            Some(self.mesh_b@)
        } else if role == "bmc"@ {
            Some(self.bmc@)
        } else {
            None
        }
    }

    /// The four addresses paired with the interface role each carries.
    pub fn roles(&self) -> (r: [(&'static str, &str); 4])
        ensures
            forall|i: int|
                0 <= i < 4 ==> ((#[trigger] r@[i]).0@, r@[i].1@) == self.roles_spec()[i],
    {
        [
            ("mgmt", self.mgmt.as_str()),
            ("mesh_a", self.mesh_a.as_str()),
            ("mesh_b", self.mesh_b.as_str()),
            ("bmc", self.bmc.as_str()),
        ]
    }

    /// The address carrying a named interface role, if there is one.
    pub fn get(&self, role: &str) -> (r: Option<&str>)
        ensures
            match r {
                Some(mac) => self.get_spec(role@) == Some(mac@),
                None => self.get_spec(role@) is None,
            },
    {
        if same(role, "mgmt") {
            Some(self.mgmt.as_str())
        } else if same(role, "mesh_a") {
            Some(self.mesh_a.as_str())
        } else if same(role, "mesh_b") {
            Some(self.mesh_b.as_str())
        } else if same(role, "bmc") {
            Some(self.bmc.as_str())
        } else {
            None
        }
    }
}

impl Fleet {
    /// The fully-qualified name of an ordinal.
    pub open spec fn name_spec(&self, ordinal: u32, domain: Seq<char>) -> Seq<char> {
        replaced(
            replaced(self.name_template@, "{ordinal}"@, decimal(ordinal as nat)),
            "{domain}"@,
            domain,
        )
    }

    /// The fully-qualified name of an ordinal.
    pub fn name_of(&self, ordinal: u32, domain: &str) -> (r: String)
        ensures
            r@ == self.name_spec(ordinal, domain@),
    {
        let numbered = replace(
            self.name_template.as_str(),
            "{ordinal}",
            decimal_of(ordinal as u64).as_str(),
        );
        replace(numbered.as_str(), "{domain}", domain)
    }
}

impl Role {
    /// Whether the machine works this role out from its own disks.
    pub open spec fn detected(&self) -> bool {
        self.detect@ == "bulk-disk"@
    }

    /// Whether the machine works this role out from its own disks.
    pub fn is_self_detected(&self) -> (r: bool)
        ensures
            r == self.detected(),
    {
        same(self.detect.as_str(), "bulk-disk")
    }
}

impl Named for Role {
    open spec fn key(&self) -> Seq<char> {
        self.id@
    }

    fn name_of(&self) -> (r: &str) {
        self.id.as_str()
    }
}

impl Named for Machine {
    open spec fn key(&self) -> Seq<char> {
        self.name@
    }

    fn name_of(&self) -> (r: &str) {
        self.name.as_str()
    }
}

/// The first role from `i` on that pins the ordinal `n`.
pub open spec fn pin_from(roles: Seq<Role>, n: u32, i: int) -> Option<Role>
    decreases roles.len() - i,
{
    if i < 0 || i >= roles.len() {
        None
    } else if roles[i].ordinal == Some(n) {
        Some(roles[i])
    } else {
        pin_from(roles, n, i + 1)
    }
}

/// The first role from `i` on that is handed out at position `k`.
pub open spec fn handed_from(roles: Seq<Role>, k: u32, i: int) -> Option<Role>
    decreases roles.len() - i,
{
    if i < 0 || i >= roles.len() {
        None
    } else if roles[i].assign_order == Some(k) {
        Some(roles[i])
    } else {
        handed_from(roles, k, i + 1)
    }
}

/// How many of the ordinals `1..n` a role pins.
pub open spec fn pins_below(roles: Seq<Role>, n: int) -> int
    decreases n,
{
    if n <= 1 {
        0
    } else {
        pins_below(roles, n - 1) + if pin_from(roles, (n - 1) as u32, 0) is Some {
            1int
        } else {
            0int
        }
    }
}

/// The role an ordinal holds: the one that pins it, or else the next of the
/// handed-out roles, in ascending order over the ordinals nobody pins.
pub open spec fn role_at(roles: Seq<Role>, n: u32) -> Option<Role> {
    if n == 0 {
        None
    } else {
        match pin_from(roles, n, 0) {
            Some(role) => Some(role),
            None => handed_from(roles, (n - pins_below(roles, n as int)) as u32, 0),
        }
    }
}

fn find_pin(roles: &Vec<Role>, n: u32) -> (r: Option<&Role>)
    ensures
        match r {
            Some(role) => pin_from(roles@, n, 0) == Some(*role),
            None => pin_from(roles@, n, 0) is None,
        },
{
    let mut i: usize = 0;
    while i < roles.len()
        invariant
            i <= roles.len(),
            pin_from(roles@, n, 0) == pin_from(roles@, n, i as int),
        decreases roles.len() - i,
    {
        if let Some(ordinal) = roles[i].ordinal {
            if ordinal == n {
                return Some(&roles[i]);
            }
        }
        i = i + 1;
    }
    None
}

fn find_handed(roles: &Vec<Role>, k: u32) -> (r: Option<&Role>)
    ensures
        match r {
            Some(role) => handed_from(roles@, k, 0) == Some(*role),
            None => handed_from(roles@, k, 0) is None,
        },
{
    let mut i: usize = 0;
    while i < roles.len()
        invariant
            i <= roles.len(),
            handed_from(roles@, k, 0) == handed_from(roles@, k, i as int),
        decreases roles.len() - i,
    {
        if let Some(order) = roles[i].assign_order {
            if order == k {
                return Some(&roles[i]);
            }
        }
        i = i + 1;
    }
    None
}

/// The roles of `roles` that are handed out, in declared order.
pub open spec fn assigned(roles: Seq<Role>) -> Seq<Role>
    decreases roles.len(),
{
    if roles.len() == 0 {
        Seq::empty()
    } else if roles.last().assign_order is Some {
        assigned(roles.drop_last()).push(roles.last())
    } else {
        assigned(roles.drop_last())
    }
}

/// The roles of `roles` that a machine works out by itself, in declared order.
pub open spec fn self_detected(roles: Seq<Role>) -> Seq<Role>
    decreases roles.len(),
{
    if roles.len() == 0 {
        Seq::empty()
    } else if roles.last().detected() {
        self_detected(roles.drop_last()).push(roles.last())
    } else {
        self_detected(roles.drop_last())
    }
}

/// What machines are ordered by in a rollout.
pub open spec fn machine_keys(machines: Seq<Machine>) -> Seq<(int, Seq<char>)> {
    Seq::new(machines.len(), |i: int| (machines[i].update_position as int, ""@))
}

impl ClusterFile {
    /// Look up a role by name.
    pub fn role(&self, id: &str) -> (r: Option<&Role>)
        ensures
            match r {
                Some(role) => row(self.role@, id@) == Some(*role),
                None => row(self.role@, id@) is None,
            },
    {
        find_row(&self.role, id)
    }

    /// The role an ordinal holds.
    pub fn role_of_ordinal(&self, n: u32) -> (r: Option<&Role>)
        ensures
            match r {
                Some(role) => role_at(self.role@, n) == Some(*role),
                None => role_at(self.role@, n) is None,
            },
    {
        if n == 0 {
            return None;
        }
        if let Some(role) = find_pin(&self.role, n) {
            return Some(role);
        }
        let mut pins: u32 = 0;
        let mut below: u32 = 1;
        while below < n
            invariant
                1 <= below <= n,
                pins < below,
                pins == pins_below(self.role@, below as int),
            decreases n - below,
        {
            if find_pin(&self.role, below).is_some() {
                pins = pins + 1;
            }
            below = below + 1;
        }
        find_handed(&self.role, n - pins)
    }

    /// The roles the registrar hands out, in declared order.
    pub fn assigned_roles(&self) -> (out: Vec<&Role>)
        ensures
            out.len() == assigned(self.role@).len(),
            forall|i: int| 0 <= i < out.len() ==> *(#[trigger] out@[i]) == assigned(self.role@)[i],
    {
        let mut out: Vec<&Role> = Vec::new();
        let mut i: usize = 0;
        while i < self.role.len()
            invariant
                i <= self.role.len(),
                out.len() == assigned(self.role@.take(i as int)).len(),
                forall|k: int|
                    0 <= k < out.len() ==> *(#[trigger] out@[k]) == assigned(
                        self.role@.take(i as int),
                    )[k],
            decreases self.role.len() - i,
        {
            proof {
                assert(self.role@.take(i + 1).drop_last() =~= self.role@.take(i as int));
            }
            if self.role[i].assign_order.is_some() {
                out.push(&self.role[i]);
            }
            i = i + 1;
        }
        proof {
            assert(self.role@.take(i as int) =~= self.role@);
        }
        out
    }

    /// The roles a machine works out by itself, in declared order.
    pub fn self_detected_roles(&self) -> (out: Vec<&Role>)
        ensures
            out.len() == self_detected(self.role@).len(),
            forall|i: int|
                0 <= i < out.len() ==> *(#[trigger] out@[i]) == self_detected(self.role@)[i],
    {
        let mut out: Vec<&Role> = Vec::new();
        let mut i: usize = 0;
        while i < self.role.len()
            invariant
                i <= self.role.len(),
                out.len() == self_detected(self.role@.take(i as int)).len(),
                forall|k: int|
                    0 <= k < out.len() ==> *(#[trigger] out@[k]) == self_detected(
                        self.role@.take(i as int),
                    )[k],
            decreases self.role.len() - i,
        {
            proof {
                assert(self.role@.take(i + 1).drop_last() =~= self.role@.take(i as int));
            }
            if self.role[i].is_self_detected() {
                out.push(&self.role[i]);
            }
            i = i + 1;
        }
        proof {
            assert(self.role@.take(i as int) =~= self.role@);
        }
        out
    }

    /// The role of the registrar: the first that a machine works out by itself.
    pub fn self_detected_role(&self) -> (r: Option<&Role>)
        ensures
            match r {
                Some(role) => self_detected(self.role@).len() > 0 && self_detected(self.role@)[0]
                    == *role,
                None => self_detected(self.role@).len() == 0,
            },
    {
        let all = self.self_detected_roles();
        if all.len() == 0 {
            None
        } else {
            Some(all[0])
        }
    }

    /// Look up a machine by the name of the slot it holds.
    pub fn node(&self, name: &str) -> (r: Option<&Machine>)
        ensures
            match r {
                Some(m) => row(self.machine@, name@) == Some(*m),
                None => row(self.machine@, name@) is None,
            },
    {
        find_row(&self.machine, name)
    }

    /// The hardware profile a machine is built on, where it names the fleet's.
    pub fn profile_of(&self, node: &Machine) -> (r: Option<&Profile>)
        ensures
            match r {
                Some(p) => *p == self.profile && p.id@ == node.profile@,
                None => self.profile.id@ != node.profile@,
            },
    {
        if same(self.profile.id.as_str(), node.profile.as_str()) {
            Some(&self.profile)
        } else {
            None
        }
    }

    /// The recorded machines in rollout order.
    pub fn in_update_order(&self) -> (out: Vec<&Machine>)
        ensures
            out.len() == self.machine.len(),
            forall|i: int|
                0 <= i < out.len() ==> *(#[trigger] out@[i]) == in_order(
                    self.machine@,
                    machine_keys(self.machine@),
                )[i],
    {
        let mut keys: Vec<Key> = Vec::new();
        let mut i: usize = 0;
        while i < self.machine.len()
            invariant
                i <= self.machine.len(),
                keys.len() == i,
                forall|k: int|
                    0 <= k < i ==> (#[trigger] keys@[k])@ == machine_keys(self.machine@)[k],
            decreases self.machine.len() - i,
        {
            keys.push(
                Key { number: self.machine[i].update_position as u64, text: "".to_owned() },
            );
            i = i + 1;
        }
        proof {
            assert(key_views(keys@) =~= machine_keys(self.machine@));
        }
        let order = stable_order(&keys);
        let mut out: Vec<&Machine> = Vec::new();
        let mut j: usize = 0;
        while j < order.len()
            invariant
                j <= order.len(),
                order.len() == self.machine.len(),
                forall|k: int|
                    0 <= k < order.len() ==> (#[trigger] order@[k]) < self.machine.len()
                        && self.machine@[order@[k] as int] == in_order(
                        self.machine@,
                        machine_keys(self.machine@),
                    )[k],
                out.len() == j,
                forall|k: int|
                    0 <= k < j ==> *(#[trigger] out@[k]) == in_order(
                        self.machine@,
                        machine_keys(self.machine@),
                    )[k],
            decreases order.len() - j,
        {
            out.push(&self.machine[order[j]]);
            j = j + 1;
        }
        out
    }
}

// ---- laws of the roles ----

/// A role that pins its ordinal stands there; the others are handed the ordinals
/// that are left, in the order of their turn.
pub proof fn a_pinned_role_stands_where_it_is_pinned(roles: Seq<Role>, i: int, n: u32)
    requires
        0 <= i < roles.len(),
        n > 0,
    ensures
        roles[i].ordinal == Some(n) && (forall|k: int|
            0 <= k < i ==> (#[trigger] roles[k]).ordinal != Some(n)) ==> role_at(roles, n) == Some(
            roles[i],
        ),
        (forall|k: int| 0 <= k < roles.len() ==> (#[trigger] roles[k]).ordinal != Some(n))
            && roles[i].assign_order == Some((n - pins_below(roles, n as int)) as u32) && (forall|
            k: int,
        |
            0 <= k < i ==> (#[trigger] roles[k]).assign_order != Some(
                (n - pins_below(roles, n as int)) as u32,
            )) ==> role_at(roles, n) == Some(roles[i]),
{
    if roles[i].ordinal == Some(n) && (forall|k: int|
        0 <= k < i ==> (#[trigger] roles[k]).ordinal != Some(n)) {
        lemma_pin(roles, n, 0, i);
    } else if forall|k: int| 0 <= k < roles.len() ==> (#[trigger] roles[k]).ordinal != Some(n) {
        lemma_no_pin(roles, n, 0);
        let turn = (n - pins_below(roles, n as int)) as u32;
        if roles[i].assign_order == Some(turn) && (forall|k: int|
            0 <= k < i ==> (#[trigger] roles[k]).assign_order != Some(turn)) {
            lemma_handed(roles, turn, 0, i);
        }
    }
}

proof fn lemma_pin(roles: Seq<Role>, n: u32, from: int, i: int)
    requires
        0 <= from <= i < roles.len(),
        roles[i].ordinal == Some(n),
        forall|k: int| from <= k < i ==> (#[trigger] roles[k]).ordinal != Some(n),
    ensures
        pin_from(roles, n, from) == Some(roles[i]),
    decreases i - from,
{
    if from < i {
        lemma_pin(roles, n, from + 1, i);
    }
}

proof fn lemma_no_pin(roles: Seq<Role>, n: u32, from: int)
    requires
        0 <= from,
        forall|k: int| from <= k < roles.len() ==> (#[trigger] roles[k]).ordinal != Some(n),
    ensures
        pin_from(roles, n, from) is None,
    decreases roles.len() - from,
{
    if from < roles.len() {
        lemma_no_pin(roles, n, from + 1);
    }
}

proof fn lemma_handed(roles: Seq<Role>, turn: u32, from: int, i: int)
    requires
        0 <= from <= i < roles.len(),
        roles[i].assign_order == Some(turn),
        forall|k: int| from <= k < i ==> (#[trigger] roles[k]).assign_order != Some(turn),
    ensures
        handed_from(roles, turn, from) == Some(roles[i]),
    decreases i - from,
{
    if from < i {
        lemma_handed(roles, turn, from + 1, i);
    }
}

/// A machine's addresses are given by the port: each of the four names gives its
/// own, no other name gives any, and they are listed in that order.
pub proof fn a_port_has_its_own_address(macs: Macs, role: &str, r: Option<&str>, list: [(
    &'static str,
    &str,
); 4])
    requires
        call_ensures(Macs::get, (&macs, role), r),
        call_ensures(Macs::roles, (&macs,), list),
    ensures
        role@ == "mgmt"@ ==> r is Some && r.unwrap()@ == macs.mgmt@,
        role@ == "mesh_a"@ ==> r is Some && r.unwrap()@ == macs.mesh_a@,
        role@ == "mesh_b"@ ==> r is Some && r.unwrap()@ == macs.mesh_b@,
        role@ == "bmc"@ ==> r is Some && r.unwrap()@ == macs.bmc@,
        r is Some ==> role@ == "mgmt"@ || role@ == "mesh_a"@ || role@ == "mesh_b"@ || role@
            == "bmc"@,
        list@[0].0@ == "mgmt"@ && list@[0].1@ == macs.mgmt@,
        list@[1].0@ == "mesh_a"@ && list@[1].1@ == macs.mesh_a@,
        list@[2].0@ == "mesh_b"@ && list@[2].1@ == macs.mesh_b@,
        list@[3].0@ == "bmc"@ && list@[3].1@ == macs.bmc@,
{
    reveal_strlit("mgmt");
    reveal_strlit("mesh_a");
    reveal_strlit("mesh_b");
    reveal_strlit("bmc");
    assert("mgmt"@.len() == 4);
    assert("bmc"@.len() == 3);
    assert("mesh_a"@[5] == 'a');
    assert("mesh_b"@[5] == 'b');
    assert(list@[0] == list@[0]);
    assert(list@[1] == list@[1]);
    assert(list@[2] == list@[2]);
    assert(list@[3] == list@[3]);
}

/// A machine works its role out by itself where its bulk disk tells it.
pub proof fn a_bulk_disk_tells_the_role(role: Role, r: bool)
    requires
        call_ensures(Role::is_self_detected, (&role,), r),
    ensures
        r <==> role.detect@ == "bulk-disk"@,
{
}

/// The roles that are handed out are those with a turn, and those that a machine
/// works out are the others that say so; every one of them and no other.
pub proof fn roles_are_told_apart(roles: Seq<Role>, role: Role)
    ensures
        assigned(roles).contains(role) <==> roles.contains(role) && role.assign_order is Some,
        self_detected(roles).contains(role) <==> roles.contains(role) && role.detect@
            == "bulk-disk"@,
    decreases roles.len(),
{
    if roles.len() > 0 {
        let (before, last) = (roles.drop_last(), roles.last());
        roles_are_told_apart(before, role);
        assert(roles =~= before.push(last));
        lemma_role_pushed(before, last, role);
        lemma_role_pushed(assigned(before), last, role);
        lemma_role_pushed(self_detected(before), last, role);
    }
}

proof fn lemma_role_pushed(list: Seq<Role>, last: Role, role: Role)
    ensures
        list.push(last).contains(role) <==> list.contains(role) || role == last,
{
    let all = list.push(last);
    assert(all[all.len() - 1] == last);
    if list.contains(role) {
        let i = list.index_of(role);
        assert(all[i] == role);
    }
    if all.contains(role) {
        let i = all.index_of(role);
        if i < list.len() {
            assert(list[i] == role);
        }
    }
}

} // verus!
