//! What a model that passes its checks guarantees.
use vstd::prelude::*;

use crate::check::fleet::{hand_outs, role_fault, roles_fault};
use crate::lists::{ascending, number_keys, one_to};
use crate::check::images::relabel_fault;
use crate::check::policy::{secret_fault, secret_shaped, secrets_fault};
use crate::check::topology::{carried, link_fault, links_fault};
use crate::cluster::{handed_from, pin_from, pins_below, role_at, self_detected, Role};
use crate::images::{Mount, Quadlet, Variant};
use crate::model::{slot_keys, slot_with_role, Cluster};
use crate::named::row;
use crate::network::Link;
use crate::order::{in_order, order_of, order_of_is_a_stable_order, stable_order_is_a_permutation};
use crate::policy::Secret;
use crate::text::{begins, ends};

verus! {

/// A list that reads `1..=n` when sorted holds each of these numbers once.
pub proof fn a_sorted_run_is_a_permutation(list: Seq<u32>, n: int)
    requires
        0 <= n <= u32::MAX,
        ascending(list) == one_to(n),
    ensures
        list.len() == n,
        forall|i: int| 0 <= i < n ==> 1 <= #[trigger] list[i] <= n,
        forall|i: int, j: int| 0 <= i < n && 0 <= j < n && list[i] == list[j] ==> i == j,
        forall|p: u32| 1 <= p <= n ==> #[trigger] list.contains(p),
{
    let keys = number_keys(list);
    let order = order_of(keys);
    order_of_is_a_stable_order(keys);
    stable_order_is_a_permutation(keys, order);
    assert(ascending(list).len() == n);
    assert forall|i: int| 0 <= i < n implies 1 <= #[trigger] list[i] <= n by {
        assert(order.contains(i));
        let k = order.index_of(i);
        assert(ascending(list)[k] == list[i]);
        assert(one_to(n)[k] == k + 1);
    }
    assert forall|i: int, j: int| 0 <= i < n && 0 <= j < n && list[i] == list[j] implies i == j by {
        assert(order.contains(i) && order.contains(j));
        let a = order.index_of(i);
        let b = order.index_of(j);
        assert(ascending(list)[a] == list[i] && ascending(list)[b] == list[j]);
        assert(one_to(n)[a] == a + 1 && one_to(n)[b] == b + 1);
    }
    assert forall|p: u32| 1 <= p <= n implies #[trigger] list.contains(p) by {
        let k = p - 1;
        assert(one_to(n)[k] == p);
        assert(ascending(list)[k] == list[order[k]]);
        assert(0 <= order[k] < list.len());
    }
}

impl Cluster {
    proof fn lemma_slots_exist(&self, n: int)
        requires
            1 <= n,
            self.slots_fault(n) is None,
        ensures
            forall|k: u32|
                n <= k <= self.cluster.fleet.size ==> (#[trigger] self.slot_at(k)) is Some
                    && !self.loopback_taken(k as int),
        decreases self.cluster.fleet.size - n + 1,
    {
        if n <= self.cluster.fleet.size {
            self.lemma_slots_exist(n + 1);
        }
    }

    proof fn lemma_slots_upto(&self, n: int)
        requires
            0 <= n <= self.cluster.fleet.size,
            forall|k: u32|
                1 <= k <= self.cluster.fleet.size ==> (#[trigger] self.slot_at(k)) is Some,
        ensures
            self.slots_upto(n).len() == n,
            forall|k: int|
                0 <= k < n ==> Some(#[trigger] self.slots_upto(n)[k]) == self.slot_at(
                    (k + 1) as u32,
                ),
        decreases n,
    {
        if n > 0 {
            self.lemma_slots_upto(n - 1);
            assert(self.slot_at(n as u32) is Some);
        }
    }

    /// The derivation is total: every ordinal of the fleet has its slot, at its
    /// place in the list.
    pub proof fn every_ordinal_has_a_slot(&self)
        requires
            self.fleet_fault() is None,
        ensures
            self.slots_spec().len() == self.cluster.fleet.size,
            forall|n: u32|
                1 <= n <= self.cluster.fleet.size ==> (#[trigger] self.slot_at(n)) == Some(
                    self.slots_spec()[n - 1],
                ),
    {
        self.lemma_slots_exist(1);
        self.lemma_slots_upto(self.cluster.fleet.size as int);
        assert forall|n: u32| 1 <= n <= self.cluster.fleet.size implies (#[trigger] self.slot_at(n))
            == Some(self.slots_spec()[n - 1]) by {
            let k = n - 1;
            assert(Some(self.slots_spec()[k]) == self.slot_at((k + 1) as u32));
        }
    }

    /// Every slot binds a loopback of its own.
    pub proof fn no_two_slots_share_a_loopback(&self, a: u32, b: u32)
        requires
            self.fleet_fault() is None,
            1 <= a < b <= self.cluster.fleet.size,
        ensures
            self.slot_at(a).unwrap().loopback != self.slot_at(b).unwrap().loopback,
    {
        self.lemma_slots_exist(1);
        assert(self.slot_at(b) is Some);
        assert(!self.loopback_taken(b as int));
        assert(self.slot_at(a) is Some);
    }

    /// The update positions of the slots are a permutation of `1..=n`: every
    /// position is held, and by one slot.
    pub proof fn update_positions_are_a_permutation(&self)
        requires
            self.fleet_fault() is None,
        ensures
            ({
                let positions = self.positions_upto(self.cluster.fleet.size as int);
                let n = self.cluster.fleet.size;
                &&& positions.len() == n
                &&& forall|i: int| 0 <= i < n ==> 1 <= #[trigger] positions[i] <= n
                &&& forall|i: int, j: int|
                    0 <= i < n && 0 <= j < n && positions[i] == positions[j] ==> i == j
                &&& forall|p: u32| 1 <= p <= n ==> #[trigger] positions.contains(p)
            }),
    {
        a_sorted_run_is_a_permutation(
            self.positions_upto(self.cluster.fleet.size as int),
            self.cluster.fleet.size as int,
        );
    }

    /// A rollout visits position one first, then two, and so on to the last.
    pub proof fn a_rollout_counts_up(&self, i: int)
        requires
            self.fleet_fault() is None,
            0 <= i < self.cluster.fleet.size,
        ensures
            in_order(self.slots_spec(), slot_keys(self.slots_spec()))[i].update_position == i + 1,
    {
        self.every_ordinal_has_a_slot();
        let all = self.slots_spec();
        let positions = self.positions_upto(self.cluster.fleet.size as int);
        assert forall|k: int| 0 <= k < all.len() implies all[k].update_position == positions[k] by {
            assert(self.slot_at((k + 1) as u32) == Some(all[k]));
        }
        assert(slot_keys(all) =~= number_keys(positions));
        let order = order_of(number_keys(positions));
        order_of_is_a_stable_order(number_keys(positions));
        assert(ascending(positions)[i] == one_to(self.cluster.fleet.size as int)[i]);
        assert(0 <= order[i] < all.len());
    }

    /// No two ordinals hold the same role.
    pub proof fn no_two_ordinals_hold_one_role(&self, a: u32, b: u32)
        requires
            self.fleet_fault() is None,
            1 <= a < b <= self.cluster.fleet.size,
        ensures
            role_at(self.cluster.role@, a) is Some,
            role_at(self.cluster.role@, b) is Some,
            role_at(self.cluster.role@, a) != role_at(self.cluster.role@, b),
    {
        self.update_positions_are_a_permutation();
        self.lemma_slots_exist(1);
        let positions = self.positions_upto(self.cluster.fleet.size as int);
        assert(self.slot_at(a) is Some && self.slot_at(b) is Some);
        assert(positions[a - 1] == self.slot_at(a).unwrap().update_position);
        assert(positions[b - 1] == self.slot_at(b).unwrap().update_position);
        reveal(Cluster::slot_at);
    }

    /// The hand-out positions are a permutation of `1..=k`.
    pub proof fn hand_outs_are_a_permutation(&self)
        requires
            self.fleet_fault() is None,
            self.cluster.role@.len() <= u32::MAX,
        ensures
            ({
                let orders = hand_outs(self.cluster.role@);
                let k = orders.len() as int;
                &&& forall|i: int| 0 <= i < k ==> 1 <= #[trigger] orders[i] <= k
                &&& forall|i: int, j: int|
                    0 <= i < k && 0 <= j < k && orders[i] == orders[j] ==> i == j
                &&& forall|p: u32| 1 <= p <= k ==> #[trigger] orders.contains(p)
            }),
    {
        lemma_hand_outs_len(self.cluster.role@);
        let orders = hand_outs(self.cluster.role@);
        assert(ascending(orders).len() == orders.len());
        a_sorted_run_is_a_permutation(orders, orders.len() as int);
    }

    /// Exactly one role is self-detected, it pins its ordinal, and it is handed
    /// out to nobody.
    pub proof fn there_is_one_registrar(&self)
        requires
            self.fleet_fault() is None,
        ensures
            self_detected(self.cluster.role@).len() == 1,
            self_detected(self.cluster.role@)[0].ordinal is Some,
            self_detected(self.cluster.role@)[0].assign_order is None,
    {
    }

    proof fn lemma_links(&self, links: Seq<Link>, i: int)
        requires
            0 <= i,
            links_fault(links, i) is None,
        ensures
            forall|k: int| i <= k < links.len() ==> link_fault(links, k) is None,
        decreases links.len() - i,
    {
        if i < links.len() {
            self.lemma_links(links, i + 1);
        }
    }

    proof fn lemma_loopbacks(&self, links: Seq<Link>, n: int)
        requires
            1 <= n,
            self.loopbacks_fault(links, n) is None,
        ensures
            forall|k: u32|
                n <= k <= self.cluster.fleet.size ==> match #[trigger]
                self.network.addressing.loopback_spec(k) {
                    Some(loopback) => !carried(links, links.len() as int, loopback),
                    None => false,
                },
        decreases self.cluster.fleet.size - n + 1,
    {
        if n <= self.cluster.fleet.size {
            self.lemma_loopbacks(links, n + 1);
        }
    }

    /// Every link starts on an even address, no address is on two links, and no
    /// loopback is on a link.
    pub proof fn the_mesh_has_no_collision(&self, i: int, j: int, n: u32)
        requires
            self.topology_fault() is None,
            0 <= i < j < self.network.addressing.links_spec(self.cluster.fleet.size).len(),
            1 <= n <= self.cluster.fleet.size,
        ensures
            ({
                let links = self.network.addressing.links_spec(self.cluster.fleet.size);
                &&& links[i].lower_address.bits % 2 == 0
                &&& links[j].lower_address != links[i].lower_address
                &&& links[j].lower_address != links[i].higher_address
                &&& links[j].higher_address != links[i].lower_address
                &&& links[j].higher_address != links[i].higher_address
                &&& match self.network.addressing.loopback_spec(n) {
                    Some(loopback) => loopback != links[i].lower_address && loopback
                        != links[i].higher_address,
                    None => false,
                }
            }),
    {
        let links = self.network.addressing.links_spec(self.cluster.fleet.size);
        self.lemma_links(links, 0);
        self.lemma_loopbacks(links, 1);
        assert(link_fault(links, i) is None);
        assert(link_fault(links, j) is None);
        assert(!carried(links, j, links[j].lower_address));
        assert(!carried(links, j, links[j].higher_address));
        let l = links[i];
        assert(self.network.addressing.loopback_spec(n) is Some);
    }

    // ---- placeholders ----

    proof fn lemma_texts(&self, texts: Seq<String>, i: int)
        requires
            0 <= i,
            self.texts_fault(texts, i) is None,
        ensures
            forall|k: int| i <= k < texts.len() ==> self.resolves((#[trigger] texts[k])@),
        decreases texts.len() - i,
    {
        if i < texts.len() {
            self.lemma_texts(texts, i + 1);
        }
    }

    proof fn lemma_quadlets(&self, variant: Variant, quadlets: Seq<Quadlet>, i: int)
        requires
            0 <= i,
            self.quadlets_fault(variant, quadlets, i) is None,
        ensures
            forall|k: int|
                i <= k < quadlets.len() ==> self.texts_fault(
                    (#[trigger] quadlets[k]).publish@,
                    0,
                ) is None && relabel_fault(variant, quadlets[k], 0) is None,
        decreases quadlets.len() - i,
    {
        if i < quadlets.len() {
            self.lemma_quadlets(variant, quadlets, i + 1);
        }
    }

    proof fn lemma_mounts(&self, mounts: Seq<Mount>, i: int)
        requires
            0 <= i,
            self.mounts_fault(mounts, i) is None,
        ensures
            forall|k: int|
                i <= k < mounts.len() ==> self.resolves((#[trigger] mounts[k]).what@)
                    && self.resolves(mounts[k].where_@),
        decreases mounts.len() - i,
    {
        if i < mounts.len() {
            self.lemma_mounts(mounts, i + 1);
        }
    }

    proof fn lemma_variants(&self, i: int)
        requires
            0 <= i,
            self.each_variant_fault(i) is None,
        ensures
            forall|k: int|
                i <= k < self.images.variant@.len() ==> self.variant_fault(
                    #[trigger] self.images.variant@[k],
                ) is None,
        decreases self.images.variant@.len() - i,
    {
        if i < self.images.variant@.len() {
            self.lemma_variants(i + 1);
        }
    }

    /// Every placeholder of every published port and every mount resolves, so
    /// rendering them cannot fail.
    pub proof fn every_placeholder_resolves(&self, v: int)
        requires
            self.variants_fault() is None,
            0 <= v < self.images.variant@.len(),
        ensures
            ({
                let variant = self.images.variant@[v];
                let quadlets = self.images.base.quadlet@ + variant.quadlet@;
                &&& forall|q: int, k: int|
                    0 <= q < quadlets.len() && 0 <= k < quadlets[q].publish@.len()
                        ==> self.resolves((#[trigger] quadlets[q].publish@[k])@)
                &&& forall|k: int|
                    0 <= k < variant.mount@.len() ==> self.resolves(
                        (#[trigger] variant.mount@[k]).what@,
                    ) && self.resolves(variant.mount@[k].where_@)
            }),
    {
        self.lemma_variants(0);
        let variant = self.images.variant@[v];
        let quadlets = self.images.base.quadlet@ + variant.quadlet@;
        assert(self.variant_fault(variant) is None);
        self.lemma_quadlets(variant, quadlets, 0);
        self.lemma_mounts(variant.mount@, 0);
        assert forall|q: int, k: int|
            0 <= q < quadlets.len() && 0 <= k < quadlets[q].publish@.len() implies self.resolves(
            (#[trigger] quadlets[q].publish@[k])@,
        ) by {
            let quadlet = quadlets[q];
            self.lemma_texts(quadlet.publish@, 0);
        }
    }

    proof fn lemma_uncovered(&self, i: int)
        requires
            0 <= i,
            self.uncovered_fault(i) is None,
        ensures
            forall|k: int|
                i <= k < self.cluster.role@.len() ==> row(
                    self.images.variant@,
                    (#[trigger] self.cluster.role@[k]).id@,
                ) is Some,
        decreases self.cluster.role@.len() - i,
    {
        if i < self.cluster.role@.len() {
            self.lemma_uncovered(i + 1);
        }
    }

    /// Every role has a variant, and every variant a declared role and runtime.
    pub proof fn roles_and_variants_match(&self, r: int, v: int)
        requires
            self.variants_fault() is None,
            0 <= r < self.cluster.role@.len(),
            0 <= v < self.images.variant@.len(),
        ensures
            row(self.images.variant@, self.cluster.role@[r].id@) is Some,
            row(self.cluster.role@, self.images.variant@[v].role@) is Some,
            row(self.images.runtime@, self.images.variant@[v].runtime@) is Some,
    {
        self.lemma_uncovered(0);
        self.lemma_variants(0);
        assert(self.variant_fault(self.images.variant@[v]) is None);
        let role = self.cluster.role@[r];
    }

    /// Every mount of every Quadlet ends in the relabel flag that its file
    /// contexts need.
    pub proof fn every_mount_is_relabelled(&self, v: int, q: int, m: int)
        requires
            self.variants_fault() is None,
            0 <= v < self.images.variant@.len(),
            0 <= q < self.images.base.quadlet@.len() + self.images.variant@[v].quadlet@.len(),
            0 <= m < (self.images.base.quadlet@
                + self.images.variant@[v].quadlet@)[q].mount@.len(),
        ensures
            ({
                let mount = (self.images.base.quadlet@
                    + self.images.variant@[v].quadlet@)[q].mount@[m];
                ends(mount.volume_spec(), ",Z"@) || ends(mount.volume_spec(), ",z"@)
            }),
    {
        self.lemma_variants(0);
        let variant = self.images.variant@[v];
        let quadlets = self.images.base.quadlet@ + variant.quadlet@;
        assert(self.variant_fault(variant) is None);
        self.lemma_quadlets(variant, quadlets, 0);
        let quadlet = quadlets[q];
        assert(relabel_fault(variant, quadlet, 0) is None);
        lemma_relabels(variant, quadlet, 0);
        let mount = quadlet.mount@[m];
        assert(mount.relabel@ == "Z"@ || mount.relabel@ == "z"@);
        reveal_strlit("Z");
        reveal_strlit("z");
        reveal_strlit(",");
        reveal_strlit(",Z");
        reveal_strlit(",z");
        let line = mount.volume_spec();
        assert(line.subrange(line.len() - 2, line.len() as int) =~= ","@ + mount.relabel@);
        if mount.relabel@ == "Z"@ {
            assert(","@ + mount.relabel@ =~= ",Z"@);
        } else {
            assert(","@ + mount.relabel@ =~= ",z"@);
        }
    }

    // ---- roles and slots ----

    proof fn lemma_slot_with_role(&self, role: Seq<char>, i: int, k: int)
        requires
            0 <= i <= k < self.slots_spec().len(),
            self.slots_spec()[k].role == role,
        ensures
            slot_with_role(self.slots_spec(), role, i) matches Some(slot) && slot.role == role,
        decreases k - i,
    {
        if self.slots_spec()[i].role != role {
            self.lemma_slot_with_role(role, i + 1, k);
        }
    }

    /// Every declared role is held by a slot of the fleet.
    pub proof fn every_role_has_a_slot(&self, r: int)
        requires
            self.fleet_fault() is None,
            self.cluster.role@.len() <= u32::MAX,
            0 <= r < self.cluster.role@.len(),
        ensures
            slot_with_role(self.slots_spec(), self.cluster.role@[r].id@, 0) matches Some(slot)
                && slot.role == self.cluster.role@[r].id@,
    {
        let roles = self.cluster.role@;
        let n = self.cluster.fleet.size as int;
        self.every_ordinal_has_a_slot();
        assert(roles.len() == n);
        let held = Seq::new(
            n as nat,
            |i: int| roles.index_of(role_at(roles, (i + 1) as u32).unwrap()),
        );
        assert forall|i: int| 0 <= i < n implies 0 <= #[trigger] held[i] < n && Some(
            roles[held[i]],
        ) == role_at(roles, (i + 1) as u32) by {
            let o = (i + 1) as u32;
            assert(self.slot_at(o) is Some);
            reveal(Cluster::slot_at);
            assert(role_at(roles, o) is Some);
            lemma_role_at(roles, o);
        }
        assert forall|i: int, j: int| 0 <= i < j < n implies held[i] != held[j] by {
            self.no_two_ordinals_hold_one_role((i + 1) as u32, (j + 1) as u32);
            assert(Some(roles[held[i]]) == role_at(roles, (i + 1) as u32));
            assert(Some(roles[held[j]]) == role_at(roles, (j + 1) as u32));
        }
        assert(held.no_duplicates());
        let range = vstd::set_lib::set_int_range(0, n);
        vstd::set_lib::lemma_int_range(0, n);
        held.unique_seq_to_set();
        assert(held.to_set().subset_of(range));
        vstd::set_lib::lemma_subset_equality(held.to_set(), range);
        assert(held.to_set().contains(r));
        let k = held.index_of(r);
        assert(held[k] == r);
        let o = (k + 1) as u32;
        assert(self.slot_at(o) == Some(self.slots_spec()[o - 1]));
        assert(self.slots_spec()[k].role == roles[r].id@) by {
            reveal(Cluster::slot_at);
        }
        self.lemma_slot_with_role(roles[r].id@, 0, k);
    }

    // ---- policy ----

    proof fn lemma_nevers(&self, i: int)
        requires
            0 <= i,
            self.nevers_fault(i) is None,
        ensures
            forall|k: int|
                i <= k < self.policy.drain.never_receives@.len() ==> self.never_fault(k) is None,
        decreases self.policy.drain.never_receives@.len() - i,
    {
        if i < self.policy.drain.never_receives@.len() {
            self.lemma_nevers(i + 1);
        }
    }

    /// A role that receives no work is declared, is not the migration target,
    /// and mounts no network filesystem.
    pub proof fn what_receives_nothing_mounts_nothing(&self, i: int)
        requires
            self.drain_fault() is None,
            0 <= i < self.policy.drain.never_receives@.len(),
        ensures
            ({
                let role = self.policy.drain.never_receives@[i]@;
                &&& row(self.cluster.role@, role) is Some
                &&& role != self.policy.drain.migration_target@
                &&& row(self.images.variant@, role) matches Some(variant) ==> variant.mount@.len()
                    == 0
            }),
    {
        self.lemma_nevers(0);
        assert(self.never_fault(i) is None);
    }
}

proof fn lemma_relabels(variant: Variant, quadlet: Quadlet, i: int)
    requires
        0 <= i,
        relabel_fault(variant, quadlet, i) is None,
    ensures
        forall|k: int|
            i <= k < quadlet.mount@.len() ==> (#[trigger] quadlet.mount@[k]).relabel@ == "Z"@
                || quadlet.mount@[k].relabel@ == "z"@,
    decreases quadlet.mount@.len() - i,
{
    if i < quadlet.mount@.len() {
        lemma_relabels(variant, quadlet, i + 1);
    }
}

proof fn lemma_pin_from(roles: Seq<Role>, n: u32, i: int)
    requires
        0 <= i,
    ensures
        pin_from(roles, n, i) matches Some(role) ==> roles.contains(role),
    decreases roles.len() - i,
{
    if i < roles.len() && roles[i].ordinal != Some(n) {
        lemma_pin_from(roles, n, i + 1);
    }
}

proof fn lemma_handed_from(roles: Seq<Role>, n: u32, i: int)
    requires
        0 <= i,
    ensures
        handed_from(roles, n, i) matches Some(role) ==> roles.contains(role),
    decreases roles.len() - i,
{
    if i < roles.len() && roles[i].assign_order != Some(n) {
        lemma_handed_from(roles, n, i + 1);
    }
}

proof fn lemma_role_at(roles: Seq<Role>, n: u32)
    ensures
        role_at(roles, n) matches Some(role) ==> roles.contains(role),
{
    if n > 0 {
        lemma_pin_from(roles, n, 0);
        lemma_handed_from(roles, (n - pins_below(roles, n as int)) as u32, 0);
    }
}

proof fn lemma_hand_outs_len(roles: Seq<Role>)
    ensures
        hand_outs(roles).len() <= roles.len(),
    decreases roles.len(),
{
    if roles.len() > 0 {
        lemma_hand_outs_len(roles.drop_last());
    }
}

proof fn lemma_roles(roles: Seq<Role>, i: int)
    requires
        0 <= i,
        roles_fault(roles, i) is None,
    ensures
        forall|k: int| i <= k < roles.len() ==> role_fault(roles, k) is None,
    decreases roles.len() - i,
{
    if i < roles.len() {
        lemma_roles(roles, i + 1);
    }
}

/// No role is declared twice.
pub proof fn role_names_are_distinct(c: Cluster, i: int, j: int)
    requires
        c.fleet_fault() is None,
        0 <= i < j < c.cluster.role@.len(),
    ensures
        c.cluster.role@[i].id@ != c.cluster.role@[j].id@,
{
    lemma_roles(c.cluster.role@, 0);
    assert(role_fault(c.cluster.role@, j) is None);
    let first = c.cluster.role@[i];
}

proof fn lemma_secrets(secrets: Seq<Secret>, i: int)
    requires
        0 <= i,
        secrets_fault(secrets, i) is None,
    ensures
        forall|k: int| i <= k < secrets.len() ==> secret_fault(secrets, k) is None,
    decreases secrets.len() - i,
{
    if i < secrets.len() {
        lemma_secrets(secrets, i + 1);
    }
}

/// No secret carries a value, a stored one lands at an absolute path that only
/// its owner may write, and one that is not stored is applied.
pub proof fn a_secret_row_says_where_and_not_what(c: Cluster, i: int)
    requires
        c.policy_fault() is None,
        0 <= i < c.policy.secret@.len(),
    ensures
        ({
            let secret = c.policy.secret@[i];
            &&& !secret_shaped(secret.description@)
            &&& !secret_shaped(secret.enables@)
            &&& secret.path@.len() > 0 ==> begins(secret.path@, "/"@) && (secret.mode_spec() matches
            Some(mode) && mode & 0o022 == 0)
            &&& secret.path@.len() == 0 ==> secret.apply@ != "none"@
        }),
{
    lemma_secrets(c.policy.secret@, 0);
    assert(secret_fault(c.policy.secret@, i) is None);
}

/// No two secrets are written to one file.
pub proof fn no_two_secrets_share_a_file(c: Cluster, i: int, j: int)
    requires
        c.policy_fault() is None,
        0 <= i < j < c.policy.secret@.len(),
        c.policy.secret@[j].path@.len() > 0,
    ensures
        c.policy.secret@[i].path@ != c.policy.secret@[j].path@,
        c.policy.secret@[i].id@ != c.policy.secret@[j].id@,
{
    lemma_secrets(c.policy.secret@, 0);
    assert(secret_fault(c.policy.secret@, j) is None);
    let first = c.policy.secret@[i];
}

} // verus!
