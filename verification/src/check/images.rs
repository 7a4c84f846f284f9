//! Cross-checking the firewall, and the image: one variant per role, a declared
//! runtime, and a relabel on every mount.
use vstd::prelude::*;

use crate::address::{ipv4_of, Ipv4};
use crate::lists::{text_list, text_list_of};
use crate::images::{runner_dir_from, Mount, Quadlet, Variant, RUNNER_ARTIFACT};
use crate::model::{bad, reports, Cluster, ClusterError};
use crate::named::{is_listed, listed, row};
use crate::network::FirewallRule;
use crate::policy::Secret;
use crate::text::{
    begins,
    contains,
    ends,
    ends_with,
    halves,
    holds,
    numeral,
    parse_number,
    same,
    split_once,
    starts_with,
    trim,
    trimmed,
    views,
};

verus! {

/// Where a node keeps the credential its runners register with.
pub const RUNNER_PAT: &'static str = "/etc/cluster/runner-pat";

/// Whether `s` is an IPv4 prefix: an address, a slash, and a length of at most
/// 32.
pub open spec fn is_prefix(s: Seq<char>) -> bool {
    match halves(s, "/"@) {
        Some((address, len)) => ipv4_of(address) is Some && match numeral(len, 10) {
            Some(n) => n <= 32,
            None => false,
        },
        None => false,
    }
}

/// Whether `s` is an IPv4 prefix.
pub fn prefix(s: &str) -> (r: bool)
    ensures
        r == is_prefix(s@),
{
    match split_once(s, "/") {
        Some(h) => Ipv4::parse(h.0.as_str()).is_some() && parse_number(
            h.1.as_str(),
            10,
            32,
        ).is_some(),
        None => false,
    }
}

/// Whether one of `secrets` lands at `path`.
pub open spec fn lands_at(secrets: Seq<Secret>, path: Seq<char>) -> bool {
    exists|i: int| 0 <= i < secrets.len() && (#[trigger] secrets[i]).path@ == path
}

fn secret_lands_at(secrets: &Vec<Secret>, path: &str) -> (r: bool)
    ensures
        r == lands_at(secrets@, path@),
{
    let mut i: usize = 0;
    while i < secrets.len()
        invariant
            i <= secrets.len(),
            forall|k: int| 0 <= k < i ==> (#[trigger] secrets@[k]).path@ != path@,
        decreases secrets.len() - i,
    {
        if same(secrets[i].path.as_str(), path) {
            return true;
        }
        i = i + 1;
    }
    false
}

/// The first relabel fault of a Quadlet's mounts, from `i` on.
pub open spec fn relabel_fault(variant: Variant, quadlet: Quadlet, i: int) -> Option<Seq<char>>
    decreases quadlet.mount@.len() - i,
{
    if i < 0 || i >= quadlet.mount@.len() {
        None
    } else {
        let mount = quadlet.mount@[i];
        if mount.relabel@ != "Z"@ && mount.relabel@ != "z"@ {
            Some(
                "variant "@
                    + variant.id@
                    + ": quadlet `"@
                    + quadlet.name@
                    + "` mounts "@
                    + mount.source@
                    + " with relabel `"@
                    + mount.relabel@
                    + "`. Every volume mount carries :Z or :z, because a missing relabel is an AVC denial at boot and a denial is a build failure (§8.3)"@,
            )
        } else {
            relabel_fault(variant, quadlet, i + 1)
        }
    }
}

fn check_relabel(variant: &Variant, quadlet: &Quadlet) -> (r: Result<(), ClusterError>)
    ensures
        reports(r, relabel_fault(*variant, *quadlet, 0)),
{
    let mut i: usize = 0;
    while i < quadlet.mount.len()
        invariant
            i <= quadlet.mount.len(),
            relabel_fault(*variant, *quadlet, 0) == relabel_fault(*variant, *quadlet, i as int),
        decreases quadlet.mount.len() - i,
    {
        let mount = &quadlet.mount[i];
        if !same(mount.relabel.as_str(), "Z") && !same(mount.relabel.as_str(), "z") {
            return Err(
                bad(
                    "variant ".to_owned()
                        .concat(variant.id.as_str())
                        .concat(": quadlet `")
                        .concat(quadlet.name.as_str())
                        .concat("` mounts ")
                        .concat(mount.source.as_str())
                        .concat(" with relabel `")
                        .concat(mount.relabel.as_str())
                        .concat("`. Every volume mount carries :Z or :z, because a missing relabel is an AVC denial at boot and a denial is a build failure (§8.3)"),
                ),
            );
        }
        i = i + 1;
    }
    Ok(())
}

/// What a variant that isolates CPUs without the kernel argument is told.
pub open spec fn isolation_fault(variant: Variant) -> Option<Seq<char>> {
    match variant.isolation {
        Some(isolation) => {
            let expected = "isolcpus="@
                + isolation.isolated_cpus@;
            if !listed(variant.kargs@, expected) {
                Some(
                    "variant "@
                        + variant.id@
                        + ": declares isolated CPUs `"@
                        + isolation.isolated_cpus@
                        + "` but carries no `"@
                        + expected
                        + "` karg. The isolation and the kernel argument are the same fact and must not be able to disagree (§8.5)"@,
                )
            } else {
                None
            }
        },
        None => None,
    }
}

fn check_isolation(variant: &Variant) -> (r: Result<(), ClusterError>)
    ensures
        reports(r, isolation_fault(*variant)),
{
    if let Some(isolation) = &variant.isolation {
        let expected = "isolcpus=".to_owned()
            .concat(isolation.isolated_cpus.as_str());
        if !is_listed(&variant.kargs, expected.as_str()) {
            return Err(
                bad(
                    "variant ".to_owned()
                        .concat(variant.id.as_str())
                        .concat(": declares isolated CPUs `")
                        .concat(isolation.isolated_cpus.as_str())
                        .concat("` but carries no `")
                        .concat(expected.as_str())
                        .concat("` karg. The isolation and the kernel argument are the same fact and must not be able to disagree (§8.5)"),
                ),
            );
        }
    }
    Ok(())
}

/// The variants that isolate CPUs.
pub open spec fn isolated_ids(variants: Seq<Variant>) -> Seq<Seq<char>>
    decreases variants.len(),
{
    if variants.len() == 0 {
        Seq::empty()
    } else if variants.last().isolation is Some {
        isolated_ids(variants.drop_last()).push(variants.last().id@)
    } else {
        isolated_ids(variants.drop_last())
    }
}

/// Whether a kernel argument isolates CPUs.
pub open spec fn isolates(karg: Seq<char>) -> bool {
    begins(karg, "isolcpus="@) || begins(karg, "nohz_full="@) || karg == "nosmt"@
}

/// The first isolating argument of the base, from `i` on.
pub open spec fn base_kargs_fault(kargs: Seq<String>, i: int) -> Option<Seq<char>>
    decreases kargs.len() - i,
{
    if i < 0 || i >= kargs.len() {
        None
    } else if isolates(kargs[i]@) {
        Some(
            "the base carries kernel argument `"@
                + kargs[i]@
                + "`. One image boots all three roles, so an isolation karg in the base isolates the storage node's cores too. §8.5 applies these after the role is known, with `bootc loader-entries set-options-for-source`"@,
        )
    } else {
        base_kargs_fault(kargs, i + 1)
    }
}

fn check_base_kargs(kargs: &Vec<String>) -> (r: Result<(), ClusterError>)
    ensures
        reports(r, base_kargs_fault(kargs@, 0)),
{
    let mut i: usize = 0;
    while i < kargs.len()
        invariant
            i <= kargs.len(),
            base_kargs_fault(kargs@, 0) == base_kargs_fault(kargs@, i as int),
        decreases kargs.len() - i,
    {
        if starts_with(kargs[i].as_str(), "isolcpus=") || starts_with(
            kargs[i].as_str(),
            "nohz_full=",
        ) || same(kargs[i].as_str(), "nosmt") {
            return Err(
                bad(
                    "the base carries kernel argument `".to_owned()
                        .concat(kargs[i].as_str())
                        .concat("`. One image boots all three roles, so an isolation karg in the base isolates the storage node's cores too. §8.5 applies these after the role is known, with `bootc loader-entries set-options-for-source`"),
                ),
            );
        }
        i = i + 1;
    }
    Ok(())
}

/// What a blank field of the signing identity is told.
pub open spec fn blank_fault(field: Seq<char>, value: Seq<char>) -> Option<Seq<char>> {
    if trimmed(value).len() == 0 {
        Some(
            "signing."@
                + field
                + " is empty. The certificate identity a node will accept is built from all four, and a missing one widens the policy silently (§12.3)"@,
        )
    } else {
        None
    }
}

fn check_blank(field: &str, value: &str) -> (r: Result<(), ClusterError>)
    ensures
        reports(r, blank_fault(field@, value@)),
{
    if trim(value).as_str().is_empty() {
        return Err(
            bad(
                "signing.".to_owned()
                    .concat(field)
                    .concat(" is empty. The certificate identity a node will accept is built from all four, and a missing one widens the policy silently (§12.3)"),
            ),
        );
    }
    Ok(())
}

impl Cluster {
    // ---- runners ----

    /// What is wrong with the runners: a role that hosts one has the software
    /// and the credential to run it.
    pub open spec fn runners_fault(&self) -> Option<Seq<char>> {
        if !self.images.hosts_runners_spec() {
            None
        } else {
            match runner_dir_from(self.images.variant@, 0) {
                None => Some(
                    "a variant declares an Actions runner and no `[[variant.upstream]]` named `"@
                        + RUNNER_ARTIFACT@
                        + "` installs one. The rendered unit would start a runner from a directory nothing unpacks (§9.5)"@,
                ),
                Some(install) => if !begins(install, "/"@) {
                    Some(
                        "the runner's install_dir is `"@
                            + install
                            + "`, which is not an absolute path"@,
                    )
                } else if !lands_at(self.policy.secret@, RUNNER_PAT@) {
                    Some(
                        "a variant declares an Actions runner and no enrolled secret lands at "@
                            + RUNNER_PAT@
                            + ". A registration credential cannot be in an image, so enrolment is the only way it reaches a node --- and without it every runner unit is skipped for ever (§9.5, §12.2)"@,
                    )
                } else {
                    None
                },
            }
        }
    }

    /// A role that hosts a runner has the software and the credential to run
    /// one.
    pub fn check_runners(&self) -> (r: Result<(), ClusterError>)
        ensures
            reports(r, self.runners_fault()),
    {
        if !self.images.hosts_runners() {
            return Ok(());
        }
        let install = match self.images.runner_install_dir() {
            Some(install) => install,
            None => {
                return Err(
                    bad(
                        "a variant declares an Actions runner and no `[[variant.upstream]]` named `".to_owned()
                            .concat(RUNNER_ARTIFACT)
                            .concat("` installs one. The rendered unit would start a runner from a directory nothing unpacks (§9.5)"),
                    ),
                );
            },
        };
        if !starts_with(install, "/") {
            return Err(
                bad(
                    "the runner's install_dir is `".to_owned()
                        .concat(install)
                        .concat("`, which is not an absolute path"),
                ),
            );
        }
        if !secret_lands_at(&self.policy.secret, RUNNER_PAT) {
            return Err(
                bad(
                    "a variant declares an Actions runner and no enrolled secret lands at ".to_owned()
                        .concat(RUNNER_PAT)
                        .concat(". A registration credential cannot be in an image, so enrolment is the only way it reaches a node --- and without it every runner unit is skipped for ever (§9.5, §12.2)"),
                ),
            );
        }
        Ok(())
    }

    // ---- firewall ----

    /// The first role a rule names that is not declared, from `i` on.
    pub open spec fn rule_roles_fault(&self, rule: FirewallRule, i: int) -> Option<Seq<char>>
        decreases rule.roles@.len() - i,
    {
        if i < 0 || i >= rule.roles@.len() {
            None
        } else if row(self.cluster.role@, rule.roles@[i]@) is None {
            Some(
                "firewall rule names role `"@
                    + rule.roles@[i]@
                    + "`, which is not declared (§2.3)"@,
            )
        } else {
            self.rule_roles_fault(rule, i + 1)
        }
    }

    /// What is wrong with one firewall rule: its interface class and its roles
    /// are declared.
    pub open spec fn rule_fault(&self, rule: FirewallRule) -> Option<Seq<char>> {
        if rule.plane@ != "tailscale"@ && rule.plane@ != "lo"@ && row(
            self.network.class@,
            rule.plane@,
        ) is None {
            Some(
                "firewall rule on `"@
                    + rule.plane@
                    + "`, which is not a declared interface class (§3.1)"@,
            )
        } else {
            self.rule_roles_fault(rule, 0)
        }
    }

    /// The first fault of a rule from `i` on.
    pub open spec fn rules_fault(&self, i: int) -> Option<Seq<char>>
        decreases self.network.firewall.rule@.len() - i,
    {
        if i < 0 || i >= self.network.firewall.rule@.len() {
            None
        } else {
            match self.rule_fault(self.network.firewall.rule@[i]) {
                Some(why) => Some(why),
                None => self.rules_fault(i + 1),
            }
        }
    }

    /// What is wrong with the firewall: it drops by default, every rule names
    /// what is declared, and the LAN is a prefix.
    pub open spec fn firewall_fault(&self) -> Option<Seq<char>> {
        if self.network.firewall.input_policy@ != "drop"@ {
            Some(
                "input policy is `"@
                    + self.network.firewall.input_policy@
                    + "`. §4.4 declares drop, and a default-accept input chain makes every rule below it decoration"@,
            )
        } else if let Some(why) = self.rules_fault(0) {
            Some(why)
        } else if !is_prefix(self.network.lan_prefix@) {
            Some(
                "lan_prefix `"@
                    + self.network.lan_prefix@
                    + "` is not a prefix"@,
            )
        } else {
            None
        }
    }

    fn check_rule(&self, rule: &FirewallRule) -> (r: Result<(), ClusterError>)
        ensures
            reports(r, self.rule_fault(*rule)),
    {
        if !same(rule.plane.as_str(), "tailscale") && !same(rule.plane.as_str(), "lo")
            && self.network.class(rule.plane.as_str()).is_none() {
            return Err(
                bad(
                    "firewall rule on `".to_owned()
                        .concat(rule.plane.as_str())
                        .concat("`, which is not a declared interface class (§3.1)"),
                ),
            );
        }
        let mut i: usize = 0;
        while i < rule.roles.len()
            invariant
                i <= rule.roles.len(),
                self.rule_fault(*rule) == self.rule_roles_fault(*rule, i as int),
            decreases rule.roles.len() - i,
        {
            if self.cluster.role(rule.roles[i].as_str()).is_none() {
                return Err(
                    bad(
                        "firewall rule names role `".to_owned()
                            .concat(rule.roles[i].as_str())
                            .concat("`, which is not declared (§2.3)"),
                    ),
                );
            }
            i = i + 1;
        }
        Ok(())
    }

    /// The firewall drops by default and every accept is declared.
    pub fn check_firewall(&self) -> (r: Result<(), ClusterError>)
        ensures
            reports(r, self.firewall_fault()),
    {
        if !same(self.network.firewall.input_policy.as_str(), "drop") {
            return Err(
                bad(
                    "input policy is `".to_owned()
                        .concat(self.network.firewall.input_policy.as_str())
                        .concat("`. §4.4 declares drop, and a default-accept input chain makes every rule below it decoration"),
                ),
            );
        }
        let rules = &self.network.firewall.rule;
        let mut i: usize = 0;
        while i < rules.len()
            invariant
                i <= rules.len(),
                rules@ == self.network.firewall.rule@,
                self.network.firewall.input_policy@ == "drop"@,
                self.rules_fault(0) == self.rules_fault(i as int),
            decreases rules.len() - i,
        {
            self.check_rule(&rules[i])?;
            i = i + 1;
        }
        if !prefix(self.network.lan_prefix.as_str()) {
            return Err(
                bad(
                    "lan_prefix `".to_owned()
                        .concat(self.network.lan_prefix.as_str())
                        .concat("` is not a prefix"),
                ),
            );
        }
        Ok(())
    }

    // ---- variants ----

    /// Why the placeholders of a text do not resolve.
    pub open spec fn text_fault(&self, text: Seq<char>) -> Option<Seq<char>> {
        match self.substitution(text) {
            Ok(_) => None,
            Err(why) => Some(why),
        }
    }

    fn check_text(&self, text: &str) -> (r: Result<(), ClusterError>)
        ensures
            reports(r, self.text_fault(text@)),
    {
        match self.substitute(text) {
            Ok(_) => Ok(()),
            Err(why) => Err(why),
        }
    }

    /// The first text from `i` on whose placeholders do not resolve.
    pub open spec fn texts_fault(&self, texts: Seq<String>, i: int) -> Option<Seq<char>>
        decreases texts.len() - i,
    {
        if i < 0 || i >= texts.len() {
            None
        } else {
            match self.text_fault(texts[i]@) {
                Some(why) => Some(why),
                None => self.texts_fault(texts, i + 1),
            }
        }
    }

    fn check_texts(&self, texts: &Vec<String>) -> (r: Result<(), ClusterError>)
        ensures
            reports(r, self.texts_fault(texts@, 0)),
    {
        let mut i: usize = 0;
        while i < texts.len()
            invariant
                i <= texts.len(),
                self.texts_fault(texts@, 0) == self.texts_fault(texts@, i as int),
            decreases texts.len() - i,
        {
            self.check_text(texts[i].as_str())?;
            i = i + 1;
        }
        Ok(())
    }

    /// What is wrong with one Quadlet: its placeholders resolve and its mounts
    /// carry a label.
    pub open spec fn quadlet_fault(&self, variant: Variant, quadlet: Quadlet) -> Option<Seq<char>> {
        match self.texts_fault(quadlet.publish@, 0) {
            Some(why) => Some(why),
            None => relabel_fault(variant, quadlet, 0),
        }
    }

    /// The first fault of a Quadlet from `i` on.
    pub open spec fn quadlets_fault(
        &self,
        variant: Variant,
        quadlets: Seq<Quadlet>,
        i: int,
    ) -> Option<Seq<char>>
        decreases quadlets.len() - i,
    {
        if i < 0 || i >= quadlets.len() {
            None
        } else {
            match self.quadlet_fault(variant, quadlets[i]) {
                Some(why) => Some(why),
                None => self.quadlets_fault(variant, quadlets, i + 1),
            }
        }
    }

    fn check_quadlets(&self, variant: &Variant) -> (r: Result<(), ClusterError>)
        ensures
            reports(
                r,
                self.quadlets_fault(*variant, self.images.base.quadlet@ + variant.quadlet@, 0),
            ),
    {
        let quadlets = variant.all_quadlets(&self.images.base);
        let ghost all = self.images.base.quadlet@ + variant.quadlet@;
        let mut i: usize = 0;
        while i < quadlets.len()
            invariant
                i <= quadlets.len(),
                quadlets.len() == all.len(),
                all == self.images.base.quadlet@ + variant.quadlet@,
                forall|k: int| 0 <= k < quadlets.len() ==> *(#[trigger] quadlets@[k]) == all[k],
                self.quadlets_fault(*variant, all, 0) == self.quadlets_fault(
                    *variant,
                    all,
                    i as int,
                ),
            decreases quadlets.len() - i,
        {
            let quadlet = quadlets[i];
            self.check_texts(&quadlet.publish)?;
            check_relabel(variant, quadlet)?;
            i = i + 1;
        }
        Ok(())
    }

    /// The first mount from `i` on whose placeholders do not resolve.
    pub open spec fn mounts_fault(&self, mounts: Seq<Mount>, i: int) -> Option<Seq<char>>
        decreases mounts.len() - i,
    {
        if i < 0 || i >= mounts.len() {
            None
        } else if let Some(why) = self.text_fault(mounts[i].what@) {
            Some(why)
        } else if let Some(why) = self.text_fault(mounts[i].where_@) {
            Some(why)
        } else {
            self.mounts_fault(mounts, i + 1)
        }
    }

    fn check_mounts(&self, mounts: &Vec<Mount>) -> (r: Result<(), ClusterError>)
        ensures
            reports(r, self.mounts_fault(mounts@, 0)),
    {
        let mut i: usize = 0;
        while i < mounts.len()
            invariant
                i <= mounts.len(),
                self.mounts_fault(mounts@, 0) == self.mounts_fault(mounts@, i as int),
            decreases mounts.len() - i,
        {
            self.check_text(mounts[i].what.as_str())?;
            self.check_text(mounts[i].where_.as_str())?;
            i = i + 1;
        }
        Ok(())
    }

    /// What is wrong with one variant.
    pub open spec fn variant_fault(&self, variant: Variant) -> Option<Seq<char>> {
        if row(self.cluster.role@, variant.role@) is None {
            Some(
                "variant "@
                    + variant.id@
                    + ": names role `"@
                    + variant.role@
                    + "`, which is not declared. R1 makes a dangling reference a build failure rather than a stale file (§17.2)"@,
            )
        } else if row(self.images.runtime@, variant.runtime@) is None {
            Some(
                "variant "@
                    + variant.id@
                    + ": the default runtime `"@
                    + self.images.default_runtime@
                    + "` is not declared (§8.2)"@,
            )
        } else if let Some(why) = self.quadlets_fault(
            variant,
            self.images.base.quadlet@ + variant.quadlet@,
            0,
        ) {
            Some(why)
        } else if let Some(why) = self.mounts_fault(variant.mount@, 0) {
            Some(why)
        } else {
            isolation_fault(variant)
        }
    }

    fn check_variant(&self, variant: &Variant) -> (r: Result<(), ClusterError>)
        ensures
            reports(r, self.variant_fault(*variant)),
    {
        if self.cluster.role(variant.role.as_str()).is_none() {
            return Err(
                bad(
                    "variant ".to_owned()
                        .concat(variant.id.as_str())
                        .concat(": names role `")
                        .concat(variant.role.as_str())
                        .concat("`, which is not declared. R1 makes a dangling reference a build failure rather than a stale file (§17.2)"),
                ),
            );
        }
        if self.images.runtime_of(variant).is_none() {
            return Err(
                bad(
                    "variant ".to_owned()
                        .concat(variant.id.as_str())
                        .concat(": the default runtime `")
                        .concat(self.images.default_runtime.as_str())
                        .concat("` is not declared (§8.2)"),
                ),
            );
        }
        self.check_quadlets(variant)?;
        self.check_mounts(&variant.mount)?;
        check_isolation(variant)
    }

    /// The first fault of a variant from `i` on.
    pub open spec fn each_variant_fault(&self, i: int) -> Option<Seq<char>>
        decreases self.images.variant@.len() - i,
    {
        if i < 0 || i >= self.images.variant@.len() {
            None
        } else {
            match self.variant_fault(self.images.variant@[i]) {
                Some(why) => Some(why),
                None => self.each_variant_fault(i + 1),
            }
        }
    }

    /// The first role from `i` on that no variant belongs to.
    pub open spec fn uncovered_fault(&self, i: int) -> Option<Seq<char>>
        decreases self.cluster.role@.len() - i,
    {
        if i < 0 || i >= self.cluster.role@.len() {
            None
        } else {
            let role = self.cluster.role@[i];
            if row(self.images.variant@, role.id@) is None {
                Some(
                    "role `"@
                        + role.id@
                        + "`: no variant in model/images.toml says what it adds to the image. One image serves all three roles, and a role that contributes nothing is a role no machine can tell it is holding (§8.4)"@,
                )
            } else {
                self.uncovered_fault(i + 1)
            }
        }
    }

    fn check_uncovered(&self) -> (r: Result<(), ClusterError>)
        ensures
            reports(r, self.uncovered_fault(0)),
    {
        let mut i: usize = 0;
        while i < self.cluster.role.len()
            invariant
                i <= self.cluster.role.len(),
                self.uncovered_fault(0) == self.uncovered_fault(i as int),
            decreases self.cluster.role.len() - i,
        {
            let role = &self.cluster.role[i];
            if self.images.variant_for(role.id.as_str()).is_none() {
                return Err(
                    bad(
                        "role `".to_owned()
                            .concat(role.id.as_str())
                            .concat("`: no variant in model/images.toml says what it adds to the image. One image serves all three roles, and a role that contributes nothing is a role no machine can tell it is holding (§8.4)"),
                    ),
                );
            }
            i = i + 1;
        }
        Ok(())
    }

    /// What is wrong with the base and the signing identity.
    pub open spec fn base_fault(&self) -> Option<Seq<char>> {
        let signing = self.images.signing;
        if !begins(self.images.base.digest@, "sha256:"@) {
            Some(
                "base digest `"@
                    + self.images.base.digest@
                    + "` is not a sha256 digest. A repository this careful about digest-pinning downstream cannot float its upstream (§8.1)"@,
            )
        } else if let Some(why) = blank_fault("issuer"@, signing.issuer@) {
            Some(why)
        } else if let Some(why) = blank_fault("repository"@, signing.repository@) {
            Some(why)
        } else if let Some(why) = blank_fault("workflow"@, signing.workflow@) {
            Some(why)
        } else if let Some(why) = blank_fault("ref"@, signing.ref_@) {
            Some(why)
        } else if !ends(signing.workflow@, ".yml"@) || !holds(signing.workflow@, "/"@) {
            Some(
                "signing.workflow is `"@
                    + self.images.signing.workflow@
                    + "`, which is not a workflow path. §12.3 binds the identity to one workflow, not to the repository: an image signed by a different workflow in the same repository must not stage either"@,
            )
        } else if row(self.images.runtime@, self.images.default_runtime@) is None {
            Some(
                "default_runtime `"@
                    + self.images.default_runtime@
                    + "` is not a declared runtime (§8.2)"@,
            )
        } else {
            None
        }
    }

    fn check_base(&self) -> (r: Result<(), ClusterError>)
        ensures
            reports(r, self.base_fault()),
    {
        let signing = &self.images.signing;
        if !starts_with(self.images.base.digest.as_str(), "sha256:") {
            return Err(
                bad(
                    "base digest `".to_owned()
                        .concat(self.images.base.digest.as_str())
                        .concat("` is not a sha256 digest. A repository this careful about digest-pinning downstream cannot float its upstream (§8.1)"),
                ),
            );
        }
        check_blank("issuer", signing.issuer.as_str())?;
        check_blank("repository", signing.repository.as_str())?;
        check_blank("workflow", signing.workflow.as_str())?;
        check_blank("ref", signing.ref_.as_str())?;
        if !ends_with(signing.workflow.as_str(), ".yml") || !contains(
            signing.workflow.as_str(),
            "/",
        ) {
            return Err(
                bad(
                    "signing.workflow is `".to_owned()
                        .concat(self.images.signing.workflow.as_str())
                        .concat("`, which is not a workflow path. §12.3 binds the identity to one workflow, not to the repository: an image signed by a different workflow in the same repository must not stage either"),
                ),
            );
        }
        if self.images.runtime(self.images.default_runtime.as_str()).is_none() {
            return Err(
                bad(
                    "default_runtime `".to_owned()
                        .concat(self.images.default_runtime.as_str())
                        .concat("` is not a declared runtime (§8.2)"),
                ),
            );
        }
        Ok(())
    }

    /// What several variants that isolate CPUs are told.
    pub open spec fn isolated_fault(&self) -> Option<Seq<char>> {
        let isolated = isolated_ids(self.images.variant@);
        if isolated.len() > 1 {
            Some(
                "variants "@
                    + text_list(isolated)
                    + " all declare CPU isolation; measurement is one node's job (§2.3)"@,
            )
        } else {
            None
        }
    }

    fn check_isolated(&self) -> (r: Result<(), ClusterError>)
        ensures
            reports(r, self.isolated_fault()),
    {
        let ghost all = self.images.variant@;
        let mut isolated: Vec<String> = Vec::new();
        let mut i: usize = 0;
        proof {
            assert(views(isolated@) =~= isolated_ids(all.take(0)));
        }
        while i < self.images.variant.len()
            invariant
                i <= self.images.variant.len(),
                all == self.images.variant@,
                views(isolated@) == isolated_ids(all.take(i as int)),
            decreases self.images.variant.len() - i,
        {
            let ghost before = isolated@;
            proof {
                assert(all.take(i + 1).drop_last() =~= all.take(i as int));
            }
            if self.images.variant[i].isolation.is_some() {
                isolated.push(self.images.variant[i].id.clone());
                proof {
                    assert(views(isolated@) =~= views(before).push(all[i as int].id@));
                }
            }
            i = i + 1;
        }
        proof {
            assert(all.take(i as int) =~= all);
        }
        if isolated.len() > 1 {
            return Err(
                bad(
                    "variants ".to_owned()
                        .concat(text_list_of(&isolated).as_str())
                        .concat(" all declare CPU isolation; measurement is one node's job (§2.3)"),
                ),
            );
        }
        Ok(())
    }

    /// What is wrong with the image: the first of its rules that fails.
    pub open spec fn variants_fault(&self) -> Option<Seq<char>> {
        if let Some(why) = self.base_fault() {
            Some(why)
        } else if let Some(why) = self.uncovered_fault(0) {
            Some(why)
        } else if let Some(why) = self.each_variant_fault(0) {
            Some(why)
        } else if let Some(why) = self.isolated_fault() {
            Some(why)
        } else {
            base_kargs_fault(self.images.base.content.kargs@, 0)
        }
    }

    /// One variant per role, a declared runtime, and a relabel on every mount.
    pub fn check_variants(&self) -> (r: Result<(), ClusterError>)
        ensures
            reports(r, self.variants_fault()),
    {
        self.check_base()?;
        self.check_uncovered()?;
        let mut i: usize = 0;
        while i < self.images.variant.len()
            invariant
                i <= self.images.variant.len(),
                self.base_fault() is None,
                self.uncovered_fault(0) is None,
                self.each_variant_fault(0) == self.each_variant_fault(i as int),
            decreases self.images.variant.len() - i,
        {
            self.check_variant(&self.images.variant[i])?;
            i = i + 1;
        }
        self.check_isolated()?;
        check_base_kargs(&self.images.base.content.kargs)
    }
}

} // verus!
