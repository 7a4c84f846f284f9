//! Whether a model can be rendered at all.
use vstd::prelude::*;

use crate::cluster::Role;
use crate::images::{Mount, Quadlet, Variant};
use crate::model::{strip_suffix, Cluster};
use crate::named::is_listed;
use crate::render::kickstart::{size_fits, sizes_fit};
use crate::render::quadlet::{publishable, variant_resolves};
use crate::render::services::is_known_alert;
use crate::render::services::{alerts_known, all_exportable, consumer, exportable, is_export, known_alert};
use crate::render::units::{agent_ready, agents_ready};
use crate::render::renderable;
use crate::text::{parse_number, starts_with};

verus! {

/// Whether every placeholder of a text resolves.
pub fn is_resolved(c: &Cluster, text: &str) -> (r: bool)
    ensures
        r == c.resolves(text@),
{
    c.substitute(text).is_ok()
}

/// Whether every placeholder of a unit's published ports resolves.
pub fn is_publishable(c: &Cluster, quadlet: &Quadlet) -> (r: bool)
    ensures
        r == publishable(*c, *quadlet),
{
    let mut i: usize = 0;
    while i < quadlet.publish.len()
        invariant
            i <= quadlet.publish.len(),
            forall|k: int| 0 <= k < i ==> c.resolves((#[trigger] quadlet.publish@[k])@),
        decreases quadlet.publish.len() - i,
    {
        if !is_resolved(c, quadlet.publish[i].as_str()) {
            return false;
        }
        i = i + 1;
    }
    true
}

/// Whether every placeholder of a list of units resolves.
pub fn quadlets_resolve(c: &Cluster, list: &Vec<Quadlet>) -> (r: bool)
    ensures
        r == (forall|k: int| 0 <= k < list@.len() ==> publishable(*c, #[trigger] list@[k])),
{
    let mut i: usize = 0;
    while i < list.len()
        invariant
            i <= list.len(),
            forall|k: int| 0 <= k < i ==> publishable(*c, #[trigger] list@[k]),
        decreases list.len() - i,
    {
        if !is_publishable(c, &list[i]) {
            return false;
        }
        i = i + 1;
    }
    true
}

/// Whether every placeholder of a list of mounts resolves.
pub fn mounts_resolve(c: &Cluster, list: &Vec<Mount>) -> (r: bool)
    ensures
        r == (forall|k: int|
            0 <= k < list@.len() ==> c.resolves((#[trigger] list@[k]).what@) && c.resolves(
                list@[k].where_@,
            )),
{
    let mut i: usize = 0;
    while i < list.len()
        invariant
            i <= list.len(),
            forall|k: int| 0 <= k < i ==> c.resolves((#[trigger] list@[k]).what@) && c.resolves(
                list@[k].where_@,
            ),
        decreases list.len() - i,
    {
        if !(is_resolved(c, list[i].what.as_str()) && is_resolved(c, list[i].where_.as_str())) {
            return false;
        }
        i = i + 1;
    }
    true
}

/// Whether every placeholder of a variant resolves.
pub fn is_variant_resolved(c: &Cluster, variant: &Variant) -> (r: bool)
    ensures
        r == variant_resolves(*c, *variant),
{
    quadlets_resolve(c, &variant.quadlet) && mounts_resolve(c, &variant.mount)
}

/// Whether every placeholder of every variant resolves.
pub fn variants_resolve(c: &Cluster) -> (r: bool)
    ensures
        r == (forall|k: int|
            0 <= k < c.images.variant@.len() ==> variant_resolves(
                *c,
                #[trigger] c.images.variant@[k],
            )),
{
    let mut i: usize = 0;
    while i < c.images.variant.len()
        invariant
            i <= c.images.variant.len(),
            forall|k: int| 0 <= k < i ==> variant_resolves(*c, #[trigger] c.images.variant@[k]),
        decreases c.images.variant.len() - i,
    {
        if !is_variant_resolved(c, &c.images.variant[i]) {
            return false;
        }
        i = i + 1;
    }
    true
}

/// Whether a role with an agent has a slot and a runtime to run it on.
pub fn is_agent_ready(c: &Cluster, role: &Role) -> (r: bool)
    ensures
        r == agent_ready(*c, *role),
{
    match c.images.variant_for(role.id.as_str()) {
        Some(variant) => !is_listed(&variant.services, "devcontainer-agent.service") || (
        c.node_with_role(role.id.as_str()).is_some() && c.images.runtime_of(variant).is_some()),
        None => true,
    }
}

/// Whether every role with an agent has a slot and a runtime to run it on.
pub fn are_agents_ready(c: &Cluster) -> (r: bool)
    ensures
        r == agents_ready(*c),
{
    let mut i: usize = 0;
    while i < c.cluster.role.len()
        invariant
            i <= c.cluster.role.len(),
            forall|k: int| 0 <= k < i ==> agent_ready(*c, #[trigger] c.cluster.role@[k]),
        decreases c.cluster.role.len() - i,
    {
        if !is_agent_ready(c, &c.cluster.role[i]) {
            return false;
        }
        i = i + 1;
    }
    true
}

/// Whether every declared alert has an expression.
pub fn are_alerts_known(c: &Cluster) -> (r: bool)
    ensures
        r == alerts_known(*c),
{
    let mut i: usize = 0;
    while i < c.policy.alert.len()
        invariant
            i <= c.policy.alert.len(),
            forall|k: int| 0 <= k < i ==> known_alert((#[trigger] c.policy.alert@[k]).id@),
        decreases c.policy.alert.len() - i,
    {
        if !is_known_alert(c.policy.alert[i].id.as_str()) {
            return false;
        }
        i = i + 1;
    }
    true
}

/// Whether every export of a variant names a path and a machine.
pub fn is_exportable(c: &Cluster, variant: &Variant) -> (r: bool)
    ensures
        r == exportable(*c, *variant),
{
    let mut i: usize = 0;
    while i < variant.mount.len()
        invariant
            i <= variant.mount.len(),
            forall|k: int| 0 <= k < i ==> (is_export(#[trigger] variant.mount@[k]) ==> c.resolves(
                variant.mount@[k].what@,
            ) && consumer(*c, *variant) is Some),
        decreases variant.mount.len() - i,
    {
        if !(!starts_with(variant.mount[i].fstype.as_str(), "nfs") || (is_resolved(
            c,
            variant.mount[i].what.as_str(),
        ) && c.node_with_role(variant.role.as_str()).is_some())) {
            return false;
        }
        i = i + 1;
    }
    true
}

/// Whether every export names a path and a machine.
pub fn are_all_exportable(c: &Cluster) -> (r: bool)
    ensures
        r == all_exportable(*c),
{
    let mut i: usize = 0;
    while i < c.images.variant.len()
        invariant
            i <= c.images.variant.len(),
            forall|k: int| 0 <= k < i ==> exportable(*c, #[trigger] c.images.variant@[k]),
        decreases c.images.variant.len() - i,
    {
        if !is_exportable(c, &c.images.variant[i]) {
            return false;
        }
        i = i + 1;
    }
    true
}

/// Whether a size in MiB fits 64 bits.
pub fn is_size_fit(size: &str) -> (r: bool)
    ensures
        r == size_fits(size@),
{
    match strip_suffix(size, "GiB") {
        Some(number) => match parse_number(number.as_str(), 10, u64::MAX) {
            Some(n) => n <= u64::MAX / 1024,
            None => true,
        },
        None => true,
    }
}

/// Whether every partition size in MiB fits 64 bits.
pub fn are_sizes_fit(c: &Cluster) -> (r: bool)
    ensures
        r == sizes_fit(*c),
{
    let mut i: usize = 0;
    while i < c.cluster.partition.len()
        invariant
            i <= c.cluster.partition.len(),
            forall|k: int| 0 <= k < i ==> size_fits((#[trigger] c.cluster.partition@[k]).size@),
        decreases c.cluster.partition.len() - i,
    {
        if !is_size_fit(c.cluster.partition[i].size.as_str()) {
            return false;
        }
        i = i + 1;
    }
    true
}

/// Whether the model says everything the renderers read of it.
///
/// A model that passes its checks does, but for an alert nobody wrote an
/// expression for and a partition no disk could hold.
pub fn is_renderable(c: &Cluster) -> (r: bool)
    ensures
        r == renderable(*c),
{
    c.network.mesh_class().is_some() && c.network.lan_class().is_some() && c.cluster.fleet.size
        <= 65536 && c.node_with_role(c.policy.drain.migration_target.as_str()).is_some()
        && quadlets_resolve(c, &c.images.base.quadlet) && variants_resolve(c) && are_agents_ready(c)
        && are_alerts_known(c) && are_all_exportable(c) && (!c.images.hosts_runners()
        || c.images.runner_install_dir().is_some()) && c.cluster.self_detected_role().is_some()
        && are_sizes_fit(c)
}

} // verus!
