//! Cross-checking the model against itself.
//!
//! Every rule here is one a rendered artifact would otherwise encode silently.
//! An update position that is not a permutation renders a rollout that either
//! never starts or starts twice; an interface class nothing recognises renders
//! a node that configures no ports. Catching those in the model is what keeps
//! the renderers total.
pub mod fleet;
pub mod images;
pub mod laws;
pub mod passes;
pub mod policy;
pub mod topology;

use vstd::prelude::*;

use crate::model::{reports, Cluster, ClusterError};
use crate::named::row;

verus! {

impl Cluster {
    /// What is wrong with the model: the first of its rules that fails.
    pub open spec fn fault(&self) -> Option<Seq<char>> {
        if let Some(why) = self.spec_fault() {
            Some(why)
        } else if let Some(why) = self.fleet_fault() {
            Some(why)
        } else if let Some(why) = self.topology_fault() {
            Some(why)
        } else if let Some(why) = self.firewall_fault() {
            Some(why)
        } else if let Some(why) = self.variants_fault() {
            Some(why)
        } else if let Some(why) = self.runners_fault() {
            Some(why)
        } else {
            self.policy_fault()
        }
    }

    /// Whether the numbers that the checks compute stay within 32 bits: the
    /// offset of the last link, where the checks get as far as the links, and
    /// the size of the mesh probe, where they get as far as that.
    pub open spec fn computable(&self) -> bool {
        self.spec_fault() is None && self.fleet_fault() is None ==> {
            &&& self.wiring_fault() is None ==> self.cluster.fleet.size <= 65536
            &&& self.topology_fault() is None && self.firewall_fault() is None
                && self.variants_fault() is None && self.runners_fault() is None
                && self.limits_fault() is None ==> (row(self.network.class@, "mesh"@) matches Some(
                class,
            ) ==> class.mtu >= 28)
        }
    }

    /// Whether the numbers that the checks compute stay within 32 bits.
    pub fn is_computable(&self) -> (r: bool)
        ensures
            r == self.computable(),
    {
        if self.check_spec().is_err() || self.check_fleet().is_err() {
            return true;
        }
        if self.check_wiring().is_ok() && self.cluster.fleet.size > 65536 {
            return false;
        }
        if self.check_topology().is_err() || self.check_firewall().is_err()
            || self.check_variants().is_err() || self.check_runners().is_err()
            || self.check_limits().is_err() {
            return true;
        }
        match self.network.mesh_class() {
            Some(class) => class.mtu >= 28,
            None => true,
        }
    }

    /// Cross-check the model against itself.
    pub fn check(&self) -> (r: Result<(), ClusterError>)
        requires
            self.computable(),
        ensures
            reports(r, self.fault()),
    {
        self.check_spec()?;
        self.check_fleet()?;
        self.check_topology()?;
        self.check_firewall()?;
        self.check_variants()?;
        self.check_runners()?;
        self.check_policy()
    }
}

} // verus!
