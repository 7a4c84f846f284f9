//! Cross-checking the fleet: the roles cover the ordinals, and every derived
//! slot exists.
use vstd::prelude::*;

use crate::cluster::{assigned, self_detected, Disk, Role};
use crate::model::{bad, reports, Cluster, ClusterError, SPEC};
use crate::lists::{ascending_of, distinct_of, one_to_of, same_numbers, text_set_of};
use crate::lists::{ascending, distinct, one_to, text_set};
use crate::text::{contains, decimal_of, number_list_of, same};
use crate::text::{decimal, holds, number_list, views};

verus! {

/// What is wrong with one schema tag.
pub open spec fn tag_fault(name: Seq<char>, spec: Seq<char>) -> Option<Seq<char>> {
    if spec != SPEC@ {
        Some(
            "model/"@
                + name
                + ": spec is `"@
                + spec
                + "`, but this build understands `"@
                + SPEC@
                + "` (R1)"@,
        )
    } else {
        None
    }
}

/// What is wrong with the role at `i`, given those before it.
pub open spec fn role_fault(roles: Seq<Role>, i: int) -> Option<Seq<char>> {
    let role = roles[i];
    if exists|k: int| 0 <= k < i && (#[trigger] roles[k]).id@ == role.id@ {
        Some("role `"@
            + role.id@
            + "`: declared twice"@)
    } else if !role.detected() && role.detect@ != "assigned"@ {
        Some(
            "role `"@
                + role.id@
                + "`: detect is `"@
                + role.detect@
                + "`, which is neither `bulk-disk` nor `assigned` (§2.3)"@,
        )
    } else if role.assign_order is Some && role.ordinal is Some {
        Some(
            "role `"@
                + role.id@
                + "` is assigned but also pins an ordinal. Which ordinal an assigned role takes is the registrar's decision, and pinning one would make the model disagree with it (§2.3.2)"@,
        )
    } else {
        None
    }
}

/// The first fault of a role from `i` on.
pub open spec fn roles_fault(roles: Seq<Role>, i: int) -> Option<Seq<char>>
    decreases roles.len() - i,
{
    if i < 0 || i >= roles.len() {
        None
    } else {
        match role_fault(roles, i) {
            Some(why) => Some(why),
            None => roles_fault(roles, i + 1),
        }
    }
}

/// The hand-out positions of `roles`, in declared order.
pub open spec fn hand_outs(roles: Seq<Role>) -> Seq<u32>
    decreases roles.len(),
{
    if roles.len() == 0 {
        Seq::empty()
    } else {
        match roles.last().assign_order {
            Some(order) => hand_outs(roles.drop_last()).push(order),
            None => hand_outs(roles.drop_last()),
        }
    }
}

/// The local device a role names, if any.
pub open spec fn local_device(role: Role) -> Option<Seq<char>> {
    match role.devices.container_graph_device {
        Some(device) => Some(device@),
        None => match role.devices.bench_device {
            Some(device) => Some(device@),
            None => None,
        },
    }
}

/// The local devices that `roles` name, in order.
pub open spec fn local_devices(roles: Seq<Role>) -> Seq<Seq<char>>
    decreases roles.len(),
{
    if roles.len() == 0 {
        Seq::empty()
    } else {
        match local_device(roles.last()) {
            Some(device) => local_devices(roles.drop_last()).push(device),
            None => local_devices(roles.drop_last()),
        }
    }
}

/// How many of the first `n` devices, the boot device apart, are bulk.
pub open spec fn bulk_count(disks: Seq<Disk>, threshold: u32, n: int) -> int
    decreases n,
{
    if n <= 0 {
        0
    } else {
        bulk_count(disks, threshold, n - 1) + if disks[n - 1].purpose@ != "boot"@
            && disks[n - 1].size_gb >= threshold {
            1int
        } else {
            0int
        }
    }
}

impl Cluster {
    /// What is wrong with the schema tags.
    pub open spec fn spec_fault(&self) -> Option<Seq<char>> {
        match tag_fault("cluster.toml"@, self.cluster.spec@) {
            Some(why) => Some(why),
            None => match tag_fault("network.toml"@, self.network.spec@) {
                Some(why) => Some(why),
                None => match tag_fault("images.toml"@, self.images.spec@) {
                    Some(why) => Some(why),
                    None => tag_fault("policy.toml"@, self.policy.spec@),
                },
            },
        }
    }

    /// Every file carries the tag this build understands.
    pub fn check_spec(&self) -> (r: Result<(), ClusterError>)
        ensures
            reports(r, self.spec_fault()),
    {
        check_tag("cluster.toml", self.cluster.spec.as_str())?;
        check_tag("network.toml", self.network.spec.as_str())?;
        check_tag("images.toml", self.images.spec.as_str())?;
        check_tag("policy.toml", self.policy.spec.as_str())
    }

    /// What a name template without `token` is told.
    pub open spec fn token_fault(&self, token: Seq<char>) -> Option<Seq<char>> {
        if !holds(self.cluster.fleet.name_template@, token) {
            Some(
                "fleet.name_template `"@
                    + self.cluster.fleet.name_template@
                    + "` does not contain `"@
                    + token
                    + "`. A template that ignores the ordinal names every slot the same thing (§4.3)"@,
            )
        } else {
            None
        }
    }

    /// What is wrong with the self-detected roles: there is exactly one, it
    /// pins an ordinal, and nobody hands it out.
    pub open spec fn registrar_fault(&self) -> Option<Seq<char>> {
        let detected = self_detected(self.cluster.role@);
        let found = detected.len();
        let role = detected[0];
        if found != 1 {
            Some(
                decimal(found as nat)
                    + " roles are self-detected. Exactly one is: the registrar is the machine that works its role out from its own disks, and every other role is handed out by it (§2.3.1)"@,
            )
        } else if role.ordinal is None {
            Some(
                "role `"@
                    + role.id@
                    + "` is self-detected but pins no ordinal. The registrar cannot be assigned one, so it must declare the one it takes (§2.3.2)"@,
            )
        } else if role.assign_order is Some {
            Some(
                "role `"@
                    + role.id@
                    + "` is both self-detected and assigned. It is one or the other, and a role that is both would be handed out to a machine that already had it (§2.3)"@,
            )
        } else {
            None
        }
    }

    /// What is wrong with the hand-out order: it is a permutation of `1..=k`.
    pub open spec fn hand_out_fault(&self) -> Option<Seq<char>> {
        let orders = ascending(hand_outs(self.cluster.role@));
        let expected = one_to((orders.len() as u32) as int);
        if orders != expected {
            Some(
                "assign_order values are "@
                    + number_list(orders)
                    + ", which is not a permutation of "@
                    + number_list(expected)
                    + ". The registrar hands out one role per position (§2.3.2)"@,
            )
        } else {
            None
        }
    }

    /// What is wrong with the number of roles: one per ordinal.
    pub open spec fn role_count_fault(&self) -> Option<Seq<char>> {
        if self.cluster.role@.len() as u32 != self.cluster.fleet.size {
            Some(
                decimal(self.cluster.role@.len() as nat)
                    + " roles for a fleet of "@
                    + decimal(self.cluster.fleet.size as nat)
                    + ". Every ordinal holds exactly one role, so a slot with none would render a node nothing runs on (§2.3)"@,
            )
        } else {
            None
        }
    }

    /// Whether the loopback of ordinal `n` is that of a lower ordinal.
    pub open spec fn loopback_taken(&self, n: int) -> bool {
        exists|k: u32|
            1 <= k < n && (#[trigger] self.slot_at(k)).unwrap().loopback == self.slot_at(
                n as u32,
            ).unwrap().loopback
    }

    /// The first fault of a derived slot, from ordinal `n` on: there is one,
    /// and its loopback is its own.
    pub open spec fn slots_fault(&self, n: int) -> Option<Seq<char>>
        decreases self.cluster.fleet.size - n + 1,
    {
        if n < 1 || n > self.cluster.fleet.size {
            None
        } else {
            match self.slot_at(n as u32) {
                None => Some(
                    "ordinal "@
                        + decimal(n as nat)
                        + " derives no node. Either no role claims it or the addressing base does not reach it (§4.1)"@,
                ),
                Some(slot) => if self.loopback_taken(n) {
                    Some(
                        slot.name
                            + ": loopback "@
                            + slot.loopback
                            + " is already taken. Every mesh service binds its node's loopback, so a shared one is a silent collision (§4.1)"@,
                    )
                } else {
                    self.slots_fault(n + 1)
                },
            }
        }
    }

    /// The update positions of the ordinals `1..=n`.
    pub open spec fn positions_upto(&self, n: int) -> Seq<u32> {
        Seq::new(n as nat, |i: int| self.slot_at((i + 1) as u32).unwrap().update_position)
    }

    /// What is wrong with the update positions: they are a permutation of
    /// `1..=n`.
    pub open spec fn positions_fault(&self) -> Option<Seq<char>> {
        let positions = ascending(self.positions_upto(self.cluster.fleet.size as int));
        let expected = one_to(self.cluster.fleet.size as int);
        if positions != expected {
            Some(
                "update positions are "@
                    + number_list(positions)
                    + ", which is not a permutation of "@
                    + number_list(expected)
                    + ". §13.2's predicate is true for exactly one node only when they are (§2.3)"@,
            )
        } else {
            None
        }
    }

    /// What is wrong with the local devices of the handed-out roles: there is
    /// at most one.
    pub open spec fn local_fault(&self) -> Option<Seq<char>> {
        let local = distinct(local_devices(assigned(self.cluster.role@)));
        if local.len() > 1 {
            Some(
                "the assigned roles name "@
                    + text_set(local)
                    + " as their local device. The installer cannot tell them apart --- which role a machine holds is decided after install, over a network that does not exist during Anaconda --- so they must agree (§2.3.2, §12.1)"@,
            )
        } else {
            None
        }
    }

    /// What is wrong with the detection threshold: exactly one kind of device
    /// reaches it.
    pub open spec fn threshold_fault(&self) -> Option<Seq<char>> {
        let threshold = self.cluster.detection.bulk_disk_min_gb;
        let found = bulk_count(self.cluster.disk@, threshold, self.cluster.disk@.len() as int);
        if found != 1 {
            Some(
                "detection.bulk_disk_min_gb is "@
                    + decimal(threshold as nat)
                    + " GB, which "@
                    + decimal(found as nat)
                    + " of the declared non-boot devices reach. The predicate must be true of exactly one device kind, or it is true on every machine or on none (§2.3.1)"@,
            )
        } else {
            None
        }
    }

    /// What is wrong with the fleet: the first of its rules that fails.
    pub open spec fn fleet_fault(&self) -> Option<Seq<char>> {
        if self.cluster.fleet.size == 0 {
            Some("model/cluster.toml declares a fleet of no nodes"@)
        } else if let Some(why) = self.token_fault("{ordinal}"@) {
            Some(why)
        } else if let Some(why) = self.token_fault("{domain}"@) {
            Some(why)
        } else if let Some(why) = self.registrar_fault() {
            Some(why)
        } else if let Some(why) = roles_fault(self.cluster.role@, 0) {
            Some(why)
        } else if let Some(why) = self.hand_out_fault() {
            Some(why)
        } else if let Some(why) = self.role_count_fault() {
            Some(why)
        } else if let Some(why) = self.slots_fault(1) {
            Some(why)
        } else if let Some(why) = self.positions_fault() {
            Some(why)
        } else if let Some(why) = self.local_fault() {
            Some(why)
        } else {
            self.threshold_fault()
        }
    }

    /// The fleet is a shape the derivation can work over.
    ///
    /// Every rule here fails a derivation, not a declaration: a role table that
    /// leaves an ordinal without a role, or update positions that are not a
    /// permutation.
    pub fn check_fleet(&self) -> (r: Result<(), ClusterError>)
        ensures
            reports(r, self.fleet_fault()),
    {
        if self.cluster.fleet.size == 0 {
            return Err(bad("model/cluster.toml declares a fleet of no nodes".to_owned()));
        }
        self.check_token("{ordinal}")?;
        self.check_token("{domain}")?;
        self.check_registrar()?;
        self.check_roles()?;
        self.check_hand_out()?;
        if self.cluster.role.len() as u32 != self.cluster.fleet.size {
            return Err(
                bad(
                    decimal_of(self.cluster.role.len() as u64)
                        .concat(" roles for a fleet of ")
                        .concat(decimal_of(self.cluster.fleet.size as u64).as_str())
                        .concat(". Every ordinal holds exactly one role, so a slot with none would render a node nothing runs on (§2.3)"),
                ),
            );
        }
        self.check_slots()?;
        self.check_local()?;
        self.check_threshold()
    }

    fn check_token(&self, token: &str) -> (r: Result<(), ClusterError>)
        ensures
            reports(r, self.token_fault(token@)),
    {
        if !contains(self.cluster.fleet.name_template.as_str(), token) {
            return Err(
                bad(
                    "fleet.name_template `".to_owned()
                        .concat(self.cluster.fleet.name_template.as_str())
                        .concat("` does not contain `")
                        .concat(token)
                        .concat("`. A template that ignores the ordinal names every slot the same thing (§4.3)"),
                ),
            );
        }
        Ok(())
    }

    fn check_registrar(&self) -> (r: Result<(), ClusterError>)
        ensures
            reports(r, self.registrar_fault()),
    {
        let detected = self.cluster.self_detected_roles();
        let found: usize = detected.len();
        if found != 1 {
            return Err(
                bad(
                    decimal_of(found as u64)
                        .concat(" roles are self-detected. Exactly one is: the registrar is the machine that works its role out from its own disks, and every other role is handed out by it (§2.3.1)"),
                ),
            );
        }
        let role = detected[0];
        if role.ordinal.is_none() {
            return Err(
                bad(
                    "role `".to_owned()
                        .concat(role.id.as_str())
                        .concat("` is self-detected but pins no ordinal. The registrar cannot be assigned one, so it must declare the one it takes (§2.3.2)"),
                ),
            );
        }
        if role.assign_order.is_some() {
            return Err(
                bad(
                    "role `".to_owned()
                        .concat(role.id.as_str())
                        .concat("` is both self-detected and assigned. It is one or the other, and a role that is both would be handed out to a machine that already had it (§2.3)"),
                ),
            );
        }
        Ok(())
    }

    fn check_roles(&self) -> (r: Result<(), ClusterError>)
        ensures
            reports(r, roles_fault(self.cluster.role@, 0)),
    {
        let roles = &self.cluster.role;
        let mut i: usize = 0;
        while i < roles.len()
            invariant
                i <= roles.len(),
                roles@ == self.cluster.role@,
                roles_fault(roles@, 0) == roles_fault(roles@, i as int),
            decreases roles.len() - i,
        {
            let role = &roles[i];
            let mut k: usize = 0;
            while k < i
                invariant
                    k <= i < roles.len(),
                    roles@ == self.cluster.role@,
                    role == roles@[i as int],
                    roles_fault(roles@, 0) == roles_fault(roles@, i as int),
                    forall|j: int| 0 <= j < k ==> (#[trigger] roles@[j]).id@ != role.id@,
                decreases i - k,
            {
                if same(roles[k].id.as_str(), role.id.as_str()) {
                    return Err(bad("role `".to_owned()
                        .concat(role.id.as_str())
                        .concat("`: declared twice")));
                }
                k = k + 1;
            }
            if !role.is_self_detected() && !same(role.detect.as_str(), "assigned") {
                return Err(
                    bad(
                        "role `".to_owned()
                            .concat(role.id.as_str())
                            .concat("`: detect is `")
                            .concat(role.detect.as_str())
                            .concat("`, which is neither `bulk-disk` nor `assigned` (§2.3)"),
                    ),
                );
            }
            if role.assign_order.is_some() && role.ordinal.is_some() {
                return Err(
                    bad(
                        "role `".to_owned()
                            .concat(role.id.as_str())
                            .concat("` is assigned but also pins an ordinal. Which ordinal an assigned role takes is the registrar's decision, and pinning one would make the model disagree with it (§2.3.2)"),
                    ),
                );
            }
            i = i + 1;
        }
        Ok(())
    }

    fn check_hand_out(&self) -> (r: Result<(), ClusterError>)
        ensures
            reports(r, self.hand_out_fault()),
    {
        let roles = &self.cluster.role;
        let mut declared: Vec<u32> = Vec::new();
        let mut i: usize = 0;
        while i < roles.len()
            invariant
                i <= roles.len(),
                declared@ == hand_outs(roles@.take(i as int)),
            decreases roles.len() - i,
        {
            proof {
                assert(roles@.take(i + 1).drop_last() =~= roles@.take(i as int));
            }
            if let Some(order) = roles[i].assign_order {
                declared.push(order);
            }
            i = i + 1;
        }
        proof {
            assert(roles@.take(i as int) =~= roles@);
        }
        let orders = ascending_of(&declared);
        let expected = one_to_of(orders.len() as u32);
        if !same_numbers(&orders, &expected) {
            return Err(
                bad(
                    "assign_order values are ".to_owned()
                        .concat(number_list_of(&orders).as_str())
                        .concat(", which is not a permutation of ")
                        .concat(number_list_of(&expected).as_str())
                        .concat(". The registrar hands out one role per position (§2.3.2)"),
                ),
            );
        }
        Ok(())
    }

    fn check_slots(&self) -> (r: Result<(), ClusterError>)
        requires
            self.cluster.fleet.size >= 1,
        ensures
            match self.slots_fault(1) {
                Some(why) => reports(r, Some(why)),
                None => reports(r, self.positions_fault()),
            },
    {
        let mut loopbacks: Vec<String> = Vec::new();
        let mut found: Vec<u32> = Vec::new();
        let mut done: u32 = 0;
        while done < self.cluster.fleet.size
            invariant
                done <= self.cluster.fleet.size,
                self.slots_fault(1) == self.slots_fault(done + 1),
                loopbacks.len() == done,
                found.len() == done,
                forall|k: u32|
                    1 <= k <= done ==> (#[trigger] self.slot_at(k)) is Some && loopbacks@[k - 1]@
                        == self.slot_at(k).unwrap().loopback,
                forall|k: int|
                    0 <= k < done ==> #[trigger] found@[k] == self.slot_at(
                        (k + 1) as u32,
                    ).unwrap().update_position,
            decreases self.cluster.fleet.size - done,
        {
            let n: u32 = done + 1;
            let node = match self.node_at(n) {
                Some(node) => node,
                None => {
                    return Err(
                        bad(
                            "ordinal ".to_owned()
                                .concat(decimal_of(n as u64).as_str())
                                .concat(" derives no node. Either no role claims it or the addressing base does not reach it (§4.1)"),
                        ),
                    );
                },
            };
            let mut k: usize = 0;
            while k < loopbacks.len()
                invariant
                    k <= loopbacks.len(),
                    1 <= n <= self.cluster.fleet.size,
                    loopbacks.len() == n - 1,
                    self.slot_at(n) == Some(node@),
                    self.slots_fault(1) == self.slots_fault(n as int),
                    forall|j: u32|
                        1 <= j < n ==> (#[trigger] self.slot_at(j)) is Some && loopbacks@[j - 1]@
                            == self.slot_at(j).unwrap().loopback,
                    forall|j: u32|
                        1 <= j <= k ==> (#[trigger] self.slot_at(j)).unwrap().loopback
                            != node@.loopback,
                decreases loopbacks.len() - k,
            {
                proof {
                    let j = (k + 1) as u32;
                    assert(self.slot_at(j) is Some);
                }
                if same(loopbacks[k].as_str(), node.loopback.as_str()) {
                    return Err(
                        bad(
                            node.name.as_str().to_owned()
                                .concat(": loopback ")
                                .concat(node.loopback.as_str())
                                .concat(" is already taken. Every mesh service binds its node's loopback, so a shared one is a silent collision (§4.1)"),
                        ),
                    );
                }
                k = k + 1;
            }
            loopbacks.push(node.loopback.clone());
            found.push(node.update_position);
            done = n;
        }
        proof {
            assert(found@ =~= self.positions_upto(self.cluster.fleet.size as int));
        }
        let positions = ascending_of(&found);
        let expected = one_to_of(self.cluster.fleet.size);
        if !same_numbers(&positions, &expected) {
            return Err(
                bad(
                    "update positions are ".to_owned()
                        .concat(number_list_of(&positions).as_str())
                        .concat(", which is not a permutation of ")
                        .concat(number_list_of(&expected).as_str())
                        .concat(". §13.2's predicate is true for exactly one node only when they are (§2.3)"),
                ),
            );
        }
        Ok(())
    }

    fn check_local(&self) -> (r: Result<(), ClusterError>)
        ensures
            reports(r, self.local_fault()),
    {
        let roles = self.cluster.assigned_roles();
        let ghost all = assigned(self.cluster.role@);
        let mut named: Vec<String> = Vec::new();
        let mut i: usize = 0;
        proof {
            assert(views(named@) =~= local_devices(all.take(0)));
        }
        while i < roles.len()
            invariant
                i <= roles.len(),
                roles.len() == all.len(),
                forall|k: int| 0 <= k < roles.len() ==> *(#[trigger] roles@[k]) == all[k],
                views(named@) == local_devices(all.take(i as int)),
            decreases roles.len() - i,
        {
            let ghost before = named@;
            proof {
                assert(all.take(i + 1).drop_last() =~= all.take(i as int));
                assert(all.take(i + 1).last() == *roles@[i as int]);
            }
            let devices = &roles[i].devices;
            if let Some(device) = &devices.container_graph_device {
                named.push(device.clone());
                proof {
                    assert(views(named@) =~= views(before).push(device@));
                }
            } else if let Some(device) = &devices.bench_device {
                named.push(device.clone());
                proof {
                    assert(views(named@) =~= views(before).push(device@));
                }
            }
            i = i + 1;
        }
        proof {
            assert(all.take(i as int) =~= all);
        }
        let local = distinct_of(&named);
        if local.len() > 1 {
            return Err(
                bad(
                    "the assigned roles name ".to_owned()
                        .concat(text_set_of(&local).as_str())
                        .concat(" as their local device. The installer cannot tell them apart --- which role a machine holds is decided after install, over a network that does not exist during Anaconda --- so they must agree (§2.3.2, §12.1)"),
                ),
            );
        }
        Ok(())
    }

    fn check_threshold(&self) -> (r: Result<(), ClusterError>)
        ensures
            reports(r, self.threshold_fault()),
    {
        let threshold: u32 = self.cluster.detection.bulk_disk_min_gb;
        let disks = &self.cluster.disk;
        let mut found: usize = 0;
        let mut i: usize = 0;
        while i < disks.len()
            invariant
                i <= disks.len(),
                found <= i,
                found == bulk_count(disks@, threshold, i as int),
            decreases disks.len() - i,
        {
            if !same(disks[i].purpose.as_str(), "boot") && disks[i].size_gb >= threshold {
                found = found + 1;
            }
            i = i + 1;
        }
        if found != 1 {
            return Err(
                bad(
                    "detection.bulk_disk_min_gb is ".to_owned()
                        .concat(decimal_of(threshold as u64).as_str())
                        .concat(" GB, which ")
                        .concat(decimal_of(found as u64).as_str())
                        .concat(" of the declared non-boot devices reach. The predicate must be true of exactly one device kind, or it is true on every machine or on none (§2.3.1)"),
                ),
            );
        }
        Ok(())
    }
}

fn check_tag(name: &str, spec: &str) -> (r: Result<(), ClusterError>)
    ensures
        reports(r, tag_fault(name@, spec@)),
{
    if !same(spec, SPEC) {
        return Err(
            bad(
                "model/".to_owned()
                    .concat(name)
                    .concat(": spec is `")
                    .concat(spec)
                    .concat("`, but this build understands `")
                    .concat(SPEC)
                    .concat("` (R1)"),
            ),
        );
    }
    Ok(())
}

} // verus!
