//! Cross-checking the policy: drain, reclamation, health and enrolment are
//! coherent.
use vstd::prelude::*;

use crate::model::{bad, reports, Cluster, ClusterError};
use crate::named::row;
use crate::policy::{DrainBudget, Reclaim, Secret, FORMAT_DOCKER_AUTH, FORMAT_RAW};
use crate::text::{begins, contains, decimal, decimal_of, holds, same, starts_with, views, words};
use crate::text::{chars_of, split_words};

verus! {

/// Whether a character belongs to the alphabet that credentials are written in.
pub open spec fn credential_char(c: char) -> bool {
    let n = c as int;
    48 <= n <= 57 || 65 <= n <= 90 || 97 <= n <= 122 || c == '/' || c == '+' || c == '=' || c == '_'
        || c == '-'
}

/// Whether a word is a long unbroken run of credential characters.
pub open spec fn credential_run(word: Seq<char>) -> bool {
    word.len() >= 32 && forall|i: int| 0 <= i < word.len() ==> credential_char(#[trigger] word[i])
}

/// Whether a text looks like a credential rather than a description of one.
///
/// Deliberately coarse and deliberately about shape: the prefixes that
/// credentials actually carry, and long runs of credential characters. Prose
/// has spaces.
pub open spec fn secret_shaped(text: Seq<char>) -> bool {
    ||| holds(text, "ghp_"@)
    ||| holds(text, "github_pat_"@)
    ||| holds(text, "tskey-"@)
    ||| holds(text, "ssh-rsa "@)
    ||| holds(text, "ssh-ed25519 "@)
    ||| exists|i: int| 0 <= i < words(text).len() && credential_run(#[trigger] words(text)[i])
}

fn is_credential_char(c: char) -> (r: bool)
    ensures
        r == credential_char(c),
{
    let n: u32 = c as u32;
    (48 <= n && n <= 57) || (65 <= n && n <= 90) || (97 <= n && n <= 122) || c == '/' || c == '+'
        || c == '=' || c == '_' || c == '-'
}

fn is_credential_run(word: &str) -> (r: bool)
    ensures
        r == credential_run(word@),
{
    let text = chars_of(word);
    if text.len() < 32 {
        return false;
    }
    let mut i: usize = 0;
    while i < text.len()
        invariant
            i <= text.len(),
            text@ == word@,
            forall|k: int| 0 <= k < i ==> credential_char(#[trigger] word@[k]),
        decreases text.len() - i,
    {
        if !is_credential_char(text[i]) {
            proof {
                assert(!credential_char(word@[i as int]));
            }
            return false;
        }
        i = i + 1;
    }
    true
}

/// Whether a text looks like a credential rather than a description of one.
pub fn looks_secret(text: &str) -> (r: bool)
    ensures
        r == secret_shaped(text@),
{
    if contains(text, "ghp_") || contains(text, "github_pat_") || contains(text, "tskey-") {
        return true;
    }
    if contains(text, "ssh-rsa ") || contains(text, "ssh-ed25519 ") {
        return true;
    }
    let list = split_words(text);
    let mut i: usize = 0;
    while i < list.len()
        invariant
            i <= list.len(),
            views(list@) == words(text@),
            forall|k: int| 0 <= k < i ==> !credential_run(#[trigger] words(text@)[k]),
        decreases list.len() - i,
    {
        proof {
            assert(words(text@)[i as int] == list@[i as int]@);
        }
        if is_credential_run(list[i].as_str()) {
            proof {
                assert(credential_run(words(text@)[i as int]));
            }
            return true;
        }
        i = i + 1;
    }
    proof {
        assert(views(list@).len() == list@.len());
    }
    false
}

/// The formats the control plane can materialise, as a list.
pub open spec fn formats_spec() -> Seq<char> {
    FORMAT_RAW@ + ", "@ + FORMAT_DOCKER_AUTH@
}

fn formats() -> (r: String)
    ensures
        r@ == formats_spec(),
{
    FORMAT_RAW.to_owned().concat(", ").concat(FORMAT_DOCKER_AUTH)
}

// ---- budgets ----

/// What is wrong with the budget at `i`, given those before it.
pub open spec fn budget_fault(budgets: Seq<DrainBudget>, i: int) -> Option<Seq<char>> {
    let budget = budgets[i];
    if exists|k: int| 0 <= k < i && (#[trigger] budgets[k]).class@ == budget.class@ {
        Some("drain budget `"@
            + budget.class@
            + "` declared twice"@)
    } else if budget.on_exceed@ != "halt"@ && budget.on_exceed@ != "stop-with-notice"@ {
        Some(
            "drain budget `"@
                + budget.class@
                + "`: on_exceed `"@
                + budget.on_exceed@
                + "` is neither halt nor stop-with-notice (§14.4)"@,
        )
    } else {
        None
    }
}

/// The first fault of a budget from `i` on.
pub open spec fn budgets_fault(budgets: Seq<DrainBudget>, i: int) -> Option<Seq<char>>
    decreases budgets.len() - i,
{
    if i < 0 || i >= budgets.len() {
        None
    } else {
        match budget_fault(budgets, i) {
            Some(why) => Some(why),
            None => budgets_fault(budgets, i + 1),
        }
    }
}

fn check_budgets(budgets: &Vec<DrainBudget>) -> (r: Result<(), ClusterError>)
    ensures
        reports(r, budgets_fault(budgets@, 0)),
{
    let mut i: usize = 0;
    while i < budgets.len()
        invariant
            i <= budgets.len(),
            budgets_fault(budgets@, 0) == budgets_fault(budgets@, i as int),
        decreases budgets.len() - i,
    {
        let budget = &budgets[i];
        let mut k: usize = 0;
        while k < i
            invariant
                k <= i < budgets.len(),
                budget == budgets@[i as int],
                budgets_fault(budgets@, 0) == budgets_fault(budgets@, i as int),
                forall|j: int| 0 <= j < k ==> (#[trigger] budgets@[j]).class@ != budget.class@,
            decreases i - k,
        {
            if same(budgets[k].class.as_str(), budget.class.as_str()) {
                return Err(bad("drain budget `".to_owned()
                    .concat(budget.class.as_str())
                    .concat("` declared twice")));
            }
            k = k + 1;
        }
        if !same(budget.on_exceed.as_str(), "halt") && !same(
            budget.on_exceed.as_str(),
            "stop-with-notice",
        ) {
            return Err(
                bad(
                    "drain budget `".to_owned()
                        .concat(budget.class.as_str())
                        .concat("`: on_exceed `")
                        .concat(budget.on_exceed.as_str())
                        .concat("` is neither halt nor stop-with-notice (§14.4)"),
                ),
            );
        }
        i = i + 1;
    }
    Ok(())
}

// ---- secrets ----

/// What a field that looks like a value is told.
pub open spec fn value_fault(secret: Secret, field: Seq<char>, value: Seq<char>) -> Option<
    Seq<char>,
> {
    if secret_shaped(value) {
        Some(
            "secret `"@
                + secret.id@
                + "`: its "@
                + field
                + " looks like a value rather than a description. This file is public, and a row says where a secret goes rather than what it is (§12.2)"@,
        )
    } else {
        None
    }
}

fn check_value(secret: &Secret, field: &str, value: &str) -> (r: Result<(), ClusterError>)
    ensures
        reports(r, value_fault(*secret, field@, value@)),
{
    if looks_secret(value) {
        return Err(
            bad(
                "secret `".to_owned()
                    .concat(secret.id.as_str())
                    .concat("`: its ")
                    .concat(field)
                    .concat(" looks like a value rather than a description. This file is public, and a row says where a secret goes rather than what it is (§12.2)"),
            ),
        );
    }
    Ok(())
}

/// What is wrong with where the secret at `i` lands, given those before it.
pub open spec fn destination_fault(secrets: Seq<Secret>, i: int) -> Option<Seq<char>> {
    let secret = secrets[i];
    if secret.path@.len() > 0 {
        if !begins(secret.path@, "/"@) {
            Some(
                "secret `"@
                    + secret.id@
                    + "`: `"@
                    + secret.path@
                    + "` is not an absolute path"@,
            )
        } else if exists|k: int| 0 <= k < i && (#[trigger] secrets[k]).path@ == secret.path@ {
            Some(
                "secret `"@
                    + secret.id@
                    + "`: two secrets are written to "@
                    + secret.path@
                    + ". The second would overwrite the first, and which one survived would depend on the order they were entered (§12.2)"@,
            )
        } else {
            match secret.mode_spec() {
                None => Some(
                    "secret `"@
                        + secret.id@
                        + "`: mode `"@
                        + secret.mode@
                        + "` is not octal"@,
                ),
                Some(mode) => if mode & 0o022 != 0 {
                    Some(
                        "secret `"@
                            + secret.id@
                            + "`: mode "@
                            + secret.mode@
                            + " is writable beyond its owner. A credential any local user can rewrite is a credential any local user has (§12.2)"@,
                    )
                } else {
                    None
                },
            }
        }
    } else if secret.apply@ == "none"@ {
        Some(
            "secret `"@
                + secret.id@
                + "` is neither stored nor applied, so entering it would do nothing at all (§12.2)"@,
        )
    } else {
        None
    }
}

/// What is wrong with how the value becomes the file.
pub open spec fn format_fault(secret: Secret) -> Option<Seq<char>> {
    if secret.apply@ != "none"@ && secret.apply@ != "tailscale-up"@ {
        Some(
            "secret `"@
                + secret.id@
                + "`: apply `"@
                + secret.apply@
                + "` is not an action the control plane knows (§12.2)"@,
        )
    } else if secret.format@ != FORMAT_RAW@ && secret.format@ != FORMAT_DOCKER_AUTH@ {
        Some(
            "secret `"@
                + secret.id@
                + "`: format `"@
                + secret.format@
                + "` is not one the control plane can materialise. It knows "@
                + formats_spec()
                + " (§12.2)"@,
        )
    } else if secret.format@ == FORMAT_DOCKER_AUTH@ && secret.registry@.len() == 0 {
        Some(
            "secret `"@
                + secret.id@
                + "`: a docker-auth document is keyed by registry and this row names none, so nothing could look the credential up (§12.2)"@,
        )
    } else if secret.format@ == FORMAT_DOCKER_AUTH@ && secret.path@.len() == 0 {
        Some(
            "secret `"@
                + secret.id@
                + "`: a docker-auth document is a file, and this row declares no destination for it (§12.2)"@,
        )
    } else if secret.format@ != FORMAT_DOCKER_AUTH@ && secret.registry@.len() > 0 {
        Some(
            "secret `"@
                + secret.id@
                + "`: format `"@
                + secret.format@
                + "` builds no document, so the registry `"@
                + secret.registry@
                + "` names nothing (§12.2)"@,
        )
    } else if holds(secret.format@, "@"@) || holds(secret.registry@, "@"@) {
        Some(
            "secret `"@
                + secret.id@
                + "`: `@` separates the format from the registry in the rendered policy, and neither field may contain one (§12.2)"@,
        )
    } else if holds(secret.registry@, "/"@) {
        Some(
            "secret `"@
                + secret.id@
                + "`: registry `"@
                + secret.registry@
                + "` carries a path. A containers-auth document is keyed by host, and podman would not find a key with a path in it (§12.2)"@,
        )
    } else {
        None
    }
}

/// What is wrong with the secret at `i`, given those before it.
pub open spec fn secret_fault(secrets: Seq<Secret>, i: int) -> Option<Seq<char>> {
    let secret = secrets[i];
    if exists|k: int| 0 <= k < i && (#[trigger] secrets[k]).id@ == secret.id@ {
        Some("secret `"@
            + secret.id@
            + "`: declared twice"@)
    } else if let Some(why) = value_fault(secret, "description"@, secret.description@) {
        Some(why)
    } else if let Some(why) = value_fault(secret, "enables"@, secret.enables@) {
        Some(why)
    } else if let Some(why) = destination_fault(secrets, i) {
        Some(why)
    } else {
        format_fault(secret)
    }
}

/// The first fault of a secret from `i` on.
pub open spec fn secrets_fault(secrets: Seq<Secret>, i: int) -> Option<Seq<char>>
    decreases secrets.len() - i,
{
    if i < 0 || i >= secrets.len() {
        None
    } else {
        match secret_fault(secrets, i) {
            Some(why) => Some(why),
            None => secrets_fault(secrets, i + 1),
        }
    }
}

fn check_destination(secrets: &Vec<Secret>, i: usize) -> (r: Result<(), ClusterError>)
    requires
        i < secrets.len(),
    ensures
        reports(r, destination_fault(secrets@, i as int)),
{
    let secret = &secrets[i];
    if secret.is_stored() {
        if !starts_with(secret.path.as_str(), "/") {
            return Err(
                bad(
                    "secret `".to_owned()
                        .concat(secret.id.as_str())
                        .concat("`: `")
                        .concat(secret.path.as_str())
                        .concat("` is not an absolute path"),
                ),
            );
        }
        let mut k: usize = 0;
        while k < i
            invariant
                k <= i < secrets.len(),
                secret == secrets@[i as int],
                secret.path@.len() > 0,
                begins(secret.path@, "/"@),
                forall|j: int| 0 <= j < k ==> (#[trigger] secrets@[j]).path@ != secret.path@,
            decreases i - k,
        {
            if same(secrets[k].path.as_str(), secret.path.as_str()) {
                return Err(
                    bad(
                        "secret `".to_owned()
                            .concat(secret.id.as_str())
                            .concat("`: two secrets are written to ")
                            .concat(secret.path.as_str())
                            .concat(". The second would overwrite the first, and which one survived would depend on the order they were entered (§12.2)"),
                    ),
                );
            }
            k = k + 1;
        }
        let mode: u32 = match secret.mode_bits() {
            Some(mode) => mode,
            None => {
                return Err(
                    bad(
                        "secret `".to_owned()
                            .concat(secret.id.as_str())
                            .concat("`: mode `")
                            .concat(secret.mode.as_str())
                            .concat("` is not octal"),
                    ),
                );
            },
        };
        if mode & 0o022 != 0 {
            return Err(
                bad(
                    "secret `".to_owned()
                        .concat(secret.id.as_str())
                        .concat("`: mode ")
                        .concat(secret.mode.as_str())
                        .concat(" is writable beyond its owner. A credential any local user can rewrite is a credential any local user has (§12.2)"),
                ),
            );
        }
    } else if same(secret.apply.as_str(), "none") {
        return Err(
            bad(
                "secret `".to_owned()
                    .concat(secret.id.as_str())
                    .concat("` is neither stored nor applied, so entering it would do nothing at all (§12.2)"),
            ),
        );
    }
    Ok(())
}

fn check_format(secret: &Secret) -> (r: Result<(), ClusterError>)
    ensures
        reports(r, format_fault(*secret)),
{
    if !same(secret.apply.as_str(), "none") && !same(secret.apply.as_str(), "tailscale-up") {
        return Err(
            bad(
                "secret `".to_owned()
                    .concat(secret.id.as_str())
                    .concat("`: apply `")
                    .concat(secret.apply.as_str())
                    .concat("` is not an action the control plane knows (§12.2)"),
            ),
        );
    }
    if !same(secret.format.as_str(), FORMAT_RAW) && !same(
        secret.format.as_str(),
        FORMAT_DOCKER_AUTH,
    ) {
        return Err(
            bad(
                "secret `".to_owned()
                    .concat(secret.id.as_str())
                    .concat("`: format `")
                    .concat(secret.format.as_str())
                    .concat("` is not one the control plane can materialise. It knows ")
                    .concat(formats().as_str())
                    .concat(" (§12.2)"),
            ),
        );
    }
    if same(secret.format.as_str(), FORMAT_DOCKER_AUTH) {
        if secret.registry.as_str().is_empty() {
            return Err(
                bad(
                    "secret `".to_owned()
                        .concat(secret.id.as_str())
                        .concat("`: a docker-auth document is keyed by registry and this row names none, so nothing could look the credential up (§12.2)"),
                ),
            );
        }
        if !secret.is_stored() {
            return Err(
                bad(
                    "secret `".to_owned()
                        .concat(secret.id.as_str())
                        .concat("`: a docker-auth document is a file, and this row declares no destination for it (§12.2)"),
                ),
            );
        }
    } else if !secret.registry.as_str().is_empty() {
        return Err(
            bad(
                "secret `".to_owned()
                    .concat(secret.id.as_str())
                    .concat("`: format `")
                    .concat(secret.format.as_str())
                    .concat("` builds no document, so the registry `")
                    .concat(secret.registry.as_str())
                    .concat("` names nothing (§12.2)"),
            ),
        );
    }
    if contains(secret.format.as_str(), "@") || contains(secret.registry.as_str(), "@") {
        return Err(
            bad(
                "secret `".to_owned()
                    .concat(secret.id.as_str())
                    .concat("`: `@` separates the format from the registry in the rendered policy, and neither field may contain one (§12.2)"),
            ),
        );
    }
    if contains(secret.registry.as_str(), "/") {
        return Err(
            bad(
                "secret `".to_owned()
                    .concat(secret.id.as_str())
                    .concat("`: registry `")
                    .concat(secret.registry.as_str())
                    .concat("` carries a path. A containers-auth document is keyed by host, and podman would not find a key with a path in it (§12.2)"),
            ),
        );
    }
    Ok(())
}

fn check_secrets(secrets: &Vec<Secret>) -> (r: Result<(), ClusterError>)
    ensures
        reports(r, secrets_fault(secrets@, 0)),
{
    let mut i: usize = 0;
    while i < secrets.len()
        invariant
            i <= secrets.len(),
            secrets_fault(secrets@, 0) == secrets_fault(secrets@, i as int),
        decreases secrets.len() - i,
    {
        let secret = &secrets[i];
        let mut k: usize = 0;
        while k < i
            invariant
                k <= i < secrets.len(),
                secret == secrets@[i as int],
                secrets_fault(secrets@, 0) == secrets_fault(secrets@, i as int),
                forall|j: int| 0 <= j < k ==> (#[trigger] secrets@[j]).id@ != secret.id@,
            decreases i - k,
        {
            if same(secrets[k].id.as_str(), secret.id.as_str()) {
                return Err(bad("secret `".to_owned()
                    .concat(secret.id.as_str())
                    .concat("`: declared twice")));
            }
            k = k + 1;
        }
        check_value(secret, "description", secret.description.as_str())?;
        check_value(secret, "enables", secret.enables.as_str())?;
        check_destination(secrets, i)?;
        check_format(secret)?;
        i = i + 1;
    }
    Ok(())
}

/// What is wrong with the reclamation thresholds.
pub open spec fn reclaim_fault(r: Reclaim) -> Option<Seq<char>> {
    if !(r.notify_after_days < r.archive_after_days && r.archive_after_days < r.purge_after_days) {
        Some(
            "reclamation thresholds are "@
                + decimal(r.notify_after_days as nat)
                + ", "@
                + decimal(r.archive_after_days as nat)
                + ", "@
                + decimal(r.purge_after_days as nat)
                + " days and must be strictly increasing (§15.3)"@,
        )
    } else if r.purge_dirty {
        Some(
            "purge_dirty is true. Dirty is the one flag that overrides the retention policy, and a model that lets it be turned off has no dirty exemption (§15.2, §15.3)"@,
        )
    } else {
        None
    }
}

fn check_reclaim(r: &Reclaim) -> (result: Result<(), ClusterError>)
    ensures
        reports(result, reclaim_fault(*r)),
{
    if !(r.notify_after_days < r.archive_after_days && r.archive_after_days < r.purge_after_days) {
        return Err(
            bad(
                "reclamation thresholds are ".to_owned()
                    .concat(decimal_of(r.notify_after_days as u64).as_str())
                    .concat(", ")
                    .concat(decimal_of(r.archive_after_days as u64).as_str())
                    .concat(", ")
                    .concat(decimal_of(r.purge_after_days as u64).as_str())
                    .concat(" days and must be strictly increasing (§15.3)"),
            ),
        );
    }
    if r.purge_dirty {
        return Err(
            bad(
                "purge_dirty is true. Dirty is the one flag that overrides the retention policy, and a model that lets it be turned off has no dirty exemption (§15.2, §15.3)".to_owned(),
            ),
        );
    }
    Ok(())
}

impl Cluster {
    /// What is wrong with the role at `i` of those that receive no work.
    pub open spec fn never_fault(&self, i: int) -> Option<Seq<char>> {
        let drain = self.policy.drain;
        let role = drain.never_receives@[i];
        if row(self.cluster.role@, role@) is None {
            Some(
                "never_receives names `"@
                    + role@
                    + "`, which is not a declared role (§2.3)"@,
            )
        } else if role@ == drain.migration_target@ {
            Some(
                "`"@
                    + role@
                    + "` is both the migration target and a role that never receives work (§2.3, §14.1)"@,
            )
        } else {
            match row(self.images.variant@, role@) {
                Some(variant) => if variant.mount@.len() > 0 {
                    let mount = variant.mount@[0];
                    Some(
                        "`"@
                            + role@
                            + "` receives no migrated workload, but its variant mounts "@
                            + mount.what@
                            + " at "@
                            + mount.where_@
                            + ". A network filesystem on a measurement node is jitter in the quantity being measured (§2.3, §8.4)"@,
                    )
                } else {
                    None
                },
                None => None,
            }
        }
    }

    /// The first fault of a role that receives no work, from `i` on.
    pub open spec fn nevers_fault(&self, i: int) -> Option<Seq<char>>
        decreases self.policy.drain.never_receives@.len() - i,
    {
        if i < 0 || i >= self.policy.drain.never_receives@.len() {
            None
        } else {
            match self.never_fault(i) {
                Some(why) => Some(why),
                None => self.nevers_fault(i + 1),
            }
        }
    }

    /// What is wrong with the drain policy: it names declared roles, and what
    /// receives nothing also mounts nothing.
    pub open spec fn drain_fault(&self) -> Option<Seq<char>> {
        let drain = self.policy.drain;
        if row(self.cluster.role@, drain.migration_target@) is None {
            Some(
                "migration_target `"@
                    + drain.migration_target@
                    + "` is not a declared role (§2.3)"@,
            )
        } else {
            self.nevers_fault(0)
        }
    }

    fn check_drain(&self) -> (r: Result<(), ClusterError>)
        ensures
            reports(r, self.drain_fault()),
    {
        let drain = &self.policy.drain;
        if self.cluster.role(drain.migration_target.as_str()).is_none() {
            return Err(
                bad(
                    "migration_target `".to_owned()
                        .concat(drain.migration_target.as_str())
                        .concat("` is not a declared role (§2.3)"),
                ),
            );
        }
        let mut i: usize = 0;
        while i < drain.never_receives.len()
            invariant
                i <= drain.never_receives.len(),
                *drain == self.policy.drain,
                self.drain_fault() == self.nevers_fault(i as int),
            decreases drain.never_receives.len() - i,
        {
            let role = &drain.never_receives[i];
            if self.cluster.role(role.as_str()).is_none() {
                return Err(
                    bad(
                        "never_receives names `".to_owned()
                            .concat(role.as_str())
                            .concat("`, which is not a declared role (§2.3)"),
                    ),
                );
            }
            if same(role.as_str(), drain.migration_target.as_str()) {
                return Err(
                    bad(
                        "`".to_owned()
                            .concat(role.as_str())
                            .concat("` is both the migration target and a role that never receives work (§2.3, §14.1)"),
                    ),
                );
            }
            if let Some(variant) = self.images.variant_for(role.as_str()) {
                if variant.mount.len() > 0 {
                    let mount = &variant.mount[0];
                    return Err(
                        bad(
                            "`".to_owned()
                                .concat(role.as_str())
                                .concat("` receives no migrated workload, but its variant mounts ")
                                .concat(mount.what.as_str())
                                .concat(" at ")
                                .concat(mount.where_.as_str())
                                .concat(". A network filesystem on a measurement node is jitter in the quantity being measured (§2.3, §8.4)"),
                        ),
                    );
                }
            }
            i = i + 1;
        }
        Ok(())
    }

    /// What is wrong with the control plane's authorization: one exact origin,
    /// and a cache that caches.
    pub open spec fn auth_fault(&self) -> Option<Seq<char>> {
        let origin = self.policy.auth.allowed_origin@;
        if origin == "*"@ || !begins(origin, "https://"@) || holds(origin, "*"@) {
            Some(
                "auth.allowed_origin is `"@
                    + origin
                    + "`. Cross-origin access names one exact https origin: a wildcard lets any page a browser visits drive this cluster with a token it already holds (§16.3)"@,
            )
        } else if self.policy.auth.token_cache_ttl_s == 0 {
            Some(
                "auth.token_cache_ttl_s is zero, which is not a cache with no lag but a round trip to the identity provider on every request (§16.2)"@,
            )
        } else {
            None
        }
    }

    fn check_auth(&self) -> (r: Result<(), ClusterError>)
        ensures
            reports(r, self.auth_fault()),
    {
        let origin = self.policy.auth.allowed_origin.as_str();
        if same(origin, "*") || !starts_with(origin, "https://") || contains(origin, "*") {
            return Err(
                bad(
                    "auth.allowed_origin is `".to_owned()
                        .concat(origin)
                        .concat("`. Cross-origin access names one exact https origin: a wildcard lets any page a browser visits drive this cluster with a token it already holds (§16.3)"),
                ),
            );
        }
        if self.policy.auth.token_cache_ttl_s == 0 {
            return Err(
                bad(
                    "auth.token_cache_ttl_s is zero, which is not a cache with no lag but a round trip to the identity provider on every request (§16.2)".to_owned(),
                ),
            );
        }
        Ok(())
    }

    /// What is wrong with the limits: drain, authorization, reclamation and
    /// the budgets, in this order.
    pub open spec fn limits_fault(&self) -> Option<Seq<char>> {
        if let Some(why) = self.drain_fault() {
            Some(why)
        } else if let Some(why) = self.auth_fault() {
            Some(why)
        } else if let Some(why) = reclaim_fault(self.policy.reclaim) {
            Some(why)
        } else if let Some(why) = budgets_fault(self.policy.drain_budget@, 0) {
            Some(why)
        } else if row(self.policy.drain_budget@, "total"@) is None {
            Some(
                "no `total` drain budget. Without a ceiling on the whole drain, a rollout that never finishes never alerts either (§14.4)"@,
            )
        } else {
            None
        }
    }

    pub(crate) fn check_limits(&self) -> (r: Result<(), ClusterError>)
        ensures
            reports(r, self.limits_fault()),
    {
        self.check_drain()?;
        self.check_auth()?;
        check_reclaim(&self.policy.reclaim)?;
        check_budgets(&self.policy.drain_budget)?;
        if self.policy.budget("total").is_none() {
            return Err(
                bad(
                    "no `total` drain budget. Without a ceiling on the whole drain, a rollout that never finishes never alerts either (§14.4)".to_owned(),
                ),
            );
        }
        Ok(())
    }

    /// What is wrong with the size of the mesh probe: it is the mesh MTU less
    /// 28 bytes of headers.
    pub open spec fn probe_fault(&self) -> Option<Seq<char>> {
        match row(self.network.class@, "mesh"@) {
            None => Some("no mesh interface class declared (§3.1)"@),
            Some(class) => {
                let mtu = class.mtu;
                let expected = mtu - 28;
                if self.policy.health.mesh_mtu_probe_bytes != expected {
                    Some(
                        "mesh_mtu_probe_bytes is "@
                            + decimal(self.policy.health.mesh_mtu_probe_bytes as nat)
                            + " but the mesh MTU is "@
                            + decimal(mtu as nat)
                            + ", so the probe should be "@
                            + decimal(expected as nat)
                            + " (§10.1)"@,
                    )
                } else {
                    None
                }
            },
        }
    }

    fn check_probe(&self) -> (r: Result<(), ClusterError>)
        requires
            row(self.network.class@, "mesh"@) matches Some(class) ==> class.mtu >= 28,
        ensures
            reports(r, self.probe_fault()),
    {
        let mtu: u32 = match self.network.mesh_class() {
            Some(class) => class.mtu,
            None => {
                return Err(bad("no mesh interface class declared (§3.1)".to_owned()));
            },
        };
        let expected: u32 = mtu - 28;
        if self.policy.health.mesh_mtu_probe_bytes != expected {
            return Err(
                bad(
                    "mesh_mtu_probe_bytes is ".to_owned()
                        .concat(decimal_of(self.policy.health.mesh_mtu_probe_bytes as u64).as_str())
                        .concat(" but the mesh MTU is ")
                        .concat(decimal_of(mtu as u64).as_str())
                        .concat(", so the probe should be ")
                        .concat(decimal_of(expected as u64).as_str())
                        .concat(" (§10.1)"),
                ),
            );
        }
        Ok(())
    }

    /// What is wrong with the policy: the first of its rules that fails.
    pub open spec fn policy_fault(&self) -> Option<Seq<char>> {
        if let Some(why) = self.limits_fault() {
            Some(why)
        } else if let Some(why) = self.probe_fault() {
            Some(why)
        } else if self.policy.secret@.len() == 0 {
            Some(
                "no secrets are declared for enrolment. A cluster that needs none is a cluster that pulls from nothing, joins no tailnet and admits no SSH (§12.2)"@,
            )
        } else if let Some(why) = secrets_fault(self.policy.secret@, 0) {
            Some(why)
        } else if self.policy.rollout.peer_health_port != self.policy.health.port {
            Some(
                "the rollout predicate reads port "@
                    + decimal(self.policy.rollout.peer_health_port as nat)
                    + " but the health service is served on "@
                    + decimal(self.policy.health.port as nat)
                    + " (§10.1, §13.2)"@,
            )
        } else {
            None
        }
    }

    /// Drain, reclamation and health thresholds are internally coherent.
    ///
    /// Where the limits are in order, the mesh carries packets at least as long
    /// as the probe's headers.
    pub fn check_policy(&self) -> (r: Result<(), ClusterError>)
        requires
            self.limits_fault() is None ==> (row(self.network.class@, "mesh"@) matches Some(class)
                ==> class.mtu >= 28),
        ensures
            reports(r, self.policy_fault()),
    {
        self.check_limits()?;
        self.check_probe()?;
        if self.policy.secret.len() == 0 {
            return Err(
                bad(
                    "no secrets are declared for enrolment. A cluster that needs none is a cluster that pulls from nothing, joins no tailnet and admits no SSH (§12.2)".to_owned(),
                ),
            );
        }
        check_secrets(&self.policy.secret)?;
        if self.policy.rollout.peer_health_port != self.policy.health.port {
            return Err(
                bad(
                    "the rollout predicate reads port ".to_owned()
                        .concat(decimal_of(self.policy.rollout.peer_health_port as u64).as_str())
                        .concat(" but the health service is served on ")
                        .concat(decimal_of(self.policy.health.port as u64).as_str())
                        .concat(" (§10.1, §13.2)"),
                ),
            );
        }
        Ok(())
    }
}

} // verus!
