//! The scripts rendered units invoke.
//!
//! A runner registers, takes one job and exits; the unit restarts it. Draining
//! is therefore a matter of not re-registering rather than of killing work.
use vstd::prelude::*;

use crate::check::images::RUNNER_PAT;
use crate::cluster::Role;
use crate::images::{runner_dir_from, Runner, Variant};
use crate::model::Cluster;
use crate::named::row;
use crate::render::{files, has_storage, ids1, ids2, ids3, storage, storage_of, File, Rendered};
use crate::text::{decimal, decimal_of};
use crate::render::claims::{
    is_head,
    is_ours,
    is_part,
    is_tail,
    lemma_in_either,
    lemma_is_shown,
    lemma_part_left,
    lemma_part_right,
    lemma_shows,
    lemma_tail_grows,
    lemma_tail_is_cut,
    lemma_tail_right,
    lemma_whole,
    shows,
};
use crate::render::render_all;
use crate::text::{holds, occurs_at};

verus! {

/// Records an attachment on every SSH connection, and never blocks one.
pub open spec fn sshrc_file(c: Cluster) -> File {
    let storage = storage(c);
    File {
        path: "node/sshrc"@,
        ids: seq!["CD-12"@, "CG-07"@],
        body: "# Runs for every SSH session, interactive or not (§15.1).\n#\n# scp, rsync and a VS Code server starting are all attachments, and none of\n# them sources a profile --- which is why this is sshrc and not profile.d.\n#\n# Failure is ignored on purpose. A control plane that is rebooting must not\n# stop somebody logging in; the cost is one attachment not recorded, and\n# §15.3's thresholds are in days (§16.5).\nif [ -n \"${CLUSTER_SESSION:-}\" ]; then\n  /usr/bin/curl --silent --fail --max-time 2 --request POST \\\n    \"http://"@
            + storage.loopback
            + ":8080/api/sessions/${CLUSTER_SESSION}/attached\" >/dev/null 2>&1 || true\nfi\n"@,
    }
}

pub(crate) fn sshrc(c: &Cluster) -> (r: Rendered)
    requires
        has_storage(*c),
    ensures
        r@ == sshrc_file(*c),
{
    let storage = storage_of(c);
    let path = "node/sshrc".to_owned();
    let body = "# Runs for every SSH session, interactive or not (§15.1).\n#\n# scp, rsync and a VS Code server starting are all attachments, and none of\n# them sources a profile --- which is why this is sshrc and not profile.d.\n#\n# Failure is ignored on purpose. A control plane that is rebooting must not\n# stop somebody logging in; the cost is one attachment not recorded, and\n# §15.3's thresholds are in days (§16.5).\nif [ -n \"${CLUSTER_SESSION:-}\" ]; then\n  /usr/bin/curl --silent --fail --max-time 2 --request POST \\\n    \"http://".to_owned()
        .concat(storage.loopback.as_str())
        .concat(":8080/api/sessions/${CLUSTER_SESSION}/attached\" >/dev/null 2>&1 || true\nfi\n");
    Rendered::new(path, ids2("CD-12", "CG-07"), body)
}

/// The least concurrency any of the first `n` runners declares.
pub open spec fn least(runners: Seq<Runner>, n: int) -> Option<u32>
    decreases n,
{
    if n <= 0 {
        None
    } else {
        match (least(runners, n - 1), runners[n - 1].concurrency) {
            (Some(a), Some(b)) => if b < a {
                Some(b)
            } else {
                Some(a)
            },
            (Some(a), None) => Some(a),
            (None, b) => b,
        }
    }
}

fn least_of(runners: &Vec<Runner>) -> (r: Option<u32>)
    ensures
        r == least(runners@, runners@.len() as int),
{
    let mut r: Option<u32> = None;
    let mut i: usize = 0;
    while i < runners.len()
        invariant
            i <= runners.len(),
            r == least(runners@, i as int),
        decreases runners.len() - i,
    {
        if let Some(b) = runners[i].concurrency {
            r = match r {
                Some(a) => if b < a {
                    Some(b)
                } else {
                    Some(a)
                },
                None => Some(b),
            };
        }
        i = i + 1;
    }
    r
}

/// Whether every runner exits after one job.
pub open spec fn all_ephemeral(runners: Seq<Runner>) -> bool {
    forall|i: int| 0 <= i < runners.len() ==> (#[trigger] runners[i]).ephemeral
}

fn is_all_ephemeral(runners: &Vec<Runner>) -> (r: bool)
    ensures
        r == all_ephemeral(runners@),
{
    let mut i: usize = 0;
    while i < runners.len()
        invariant
            i <= runners.len(),
            forall|k: int| 0 <= k < i ==> (#[trigger] runners@[k]).ephemeral,
        decreases runners.len() - i,
    {
        if !runners[i].ephemeral {
            return false;
        }
        i = i + 1;
    }
    true
}

/// The lock a role that runs one job at a time takes.
pub open spec fn lock_text(variant: Variant) -> Seq<char> {
    match least(variant.runner@, variant.runner@.len() as int) {
        Some(limit) => "# One measurement at a time, nothing else (§9.5). A flock rather than a\n# convention in a workflow, because a convention is not observable from\n# the node --- and §18's bench-contention alert is about exactly this.\nexec {lock}>/var/lock/cluster-runner\nflock --nonblock --exclusive \"$lock\" || {\n  echo \"runner: "@
            + decimal(limit as nat)
            + " job(s) already running; not registering\" >&2\n  exit 0\n}\n\n"@,
        None => Seq::empty(),
    }
}

fn lock(variant: &Variant) -> (r: String)
    ensures
        r@ == lock_text(*variant),
{
    match least_of(&variant.runner) {
        Some(limit) => "# One measurement at a time, nothing else (§9.5). A flock rather than a\n# convention in a workflow, because a convention is not observable from\n# the node --- and §18's bench-contention alert is about exactly this.\nexec {lock}>/var/lock/cluster-runner\nflock --nonblock --exclusive \"$lock\" || {\n  echo \"runner: ".to_owned()
            .concat(decimal_of(limit as u64).as_str())
            .concat(" job(s) already running; not registering\" >&2\n  exit 0\n}\n\n"),
        None => String::new(),
    }
}

/// The argument that makes a runner exit after one job.
pub open spec fn ephemeral_text(variant: Variant) -> Seq<char> {
    if all_ephemeral(variant.runner@) {
        " \\\n  --ephemeral"@
    } else {
        Seq::<char>::empty()
    }
}

fn ephemeral(variant: &Variant) -> (r: String)
    ensures
        r@ == ephemeral_text(*variant),
{
    if is_all_ephemeral(&variant.runner) {
        " \\\n  --ephemeral".to_owned()
    } else {
        String::new()
    }
}

/// Registers one runner of a role, takes one job, and exits.
pub open spec fn runner_loop_file(c: Cluster, variant: Variant, role: Role) -> File {
    let install = runner_dir_from(c.images.variant@, 0).unwrap();
    File {
        path: "node/libexec/runner-loop-"@
            + role.id@,
        ids: seq!["CD-12"@, "CW-02"@, "CD-22"@],
        body: "#!/usr/bin/env bash\n# One ephemeral runner registration for the `"@
            + role.id@
            + "` role, one job at a time.\n#\n# The unit restarts this after every job, which is what makes draining a\n# matter of not re-registering rather than of killing work: stopping the\n# unit lets the job in flight finish and takes the runner out of rotation\n# (§14.1).\nset -euo pipefail\n\n# RUNNER_NAME, RUNNER_LABELS and RUNNER_URL come from the unit, which is\n# rendered from the model. The credential is the one thing that is not:\n# it is enrolled through the browser after the cluster boots and lands\n# in a file only root can read, so no token is in an image, in this\n# repository, or in `systemctl show` (§12.2).\n: \"${RUNNER_NAME:?the unit sets this}\"\n: \"${RUNNER_LABELS:?the unit sets this}\"\n: \"${RUNNER_URL:?the unit sets this}\"\npat=$(cat "@
            + RUNNER_PAT@
            + ")\n\n"@
            + lock_text(variant)
            + "# The runner's own copy. `config.sh` writes its registration beside\n# itself, and "@
            + install
            + " is on the read-only system tree --- so each\n# runner works from a copy under /var, which the bootc filesystem\n# contract makes writable and persistent (§5.2).\nwork=/var/lib/cluster-runner/$RUNNER_NAME\nif [ ! -x \"$work/config.sh\" ]; then\n  mkdir -p \"$work\"\n  /usr/bin/rsync --archive "@
            + install
            + "/ \"$work/\"\nfi\ncd \"$work\"\n\n# Mint a registration token, every time round.\n#\n# A registration token expires in an hour and an ephemeral runner\n# re-registers after every job, so a token written to a node once would\n# work until lunchtime and then stop, on a machine nobody is watching.\n# What is enrolled is a credential that can mint them; this is where it\n# is spent (§9.5, §12.2).\ntoken=$(/usr/bin/curl --silent --show-error --fail --max-time 30 \\\n  --request POST \\\n  --header \"authorization: Bearer $pat\" \\\n  --header \"accept: application/vnd.github+json\" \\\n  \"https://api.github.com/repos/"@
            + c.images.signing.repository@
            + "/actions/runners/registration-token\" \\\n  | /usr/bin/jq -r .token)\n[ -n \"$token\" ] && [ \"$token\" != null ] || {\n  echo \"runner: the enrolled credential could not mint a registration token\" >&2\n  exit 1\n}\n\n# A fresh registration each time. An ephemeral runner is removed by the\n# service after its job, so the previous registration is already gone.\n./config.sh \\\n  --url \"$RUNNER_URL\" \\\n  --token \"$token\" \\\n  --name \"$RUNNER_NAME\" \\\n  --labels \"$RUNNER_LABELS\" \\\n  --unattended --replace"@
            + ephemeral_text(variant)
            + "\n\n# Blocks until one job completes, then exits. The unit restarts us.\nexec ./run.sh\n"@,
    }
}

pub(crate) fn runner_loop(c: &Cluster, variant: &Variant, role: &Role) -> (r: Rendered)
    requires
        runner_dir_from(c.images.variant@, 0) is Some,
    ensures
        r@ == runner_loop_file(*c, *variant, *role),
{
    let install = c.images.runner_install_dir().unwrap();
    let path = "node/libexec/runner-loop-".to_owned()
        .concat(role.id.as_str());
    let body = "#!/usr/bin/env bash\n# One ephemeral runner registration for the `".to_owned()
        .concat(role.id.as_str())
        .concat("` role, one job at a time.\n#\n# The unit restarts this after every job, which is what makes draining a\n# matter of not re-registering rather than of killing work: stopping the\n# unit lets the job in flight finish and takes the runner out of rotation\n# (§14.1).\nset -euo pipefail\n\n# RUNNER_NAME, RUNNER_LABELS and RUNNER_URL come from the unit, which is\n# rendered from the model. The credential is the one thing that is not:\n# it is enrolled through the browser after the cluster boots and lands\n# in a file only root can read, so no token is in an image, in this\n# repository, or in `systemctl show` (§12.2).\n: \"${RUNNER_NAME:?the unit sets this}\"\n: \"${RUNNER_LABELS:?the unit sets this}\"\n: \"${RUNNER_URL:?the unit sets this}\"\npat=$(cat ")
        .concat(RUNNER_PAT)
        .concat(")\n\n")
        .concat(lock(variant).as_str())
        .concat("# The runner's own copy. `config.sh` writes its registration beside\n# itself, and ")
        .concat(install)
        .concat(" is on the read-only system tree --- so each\n# runner works from a copy under /var, which the bootc filesystem\n# contract makes writable and persistent (§5.2).\nwork=/var/lib/cluster-runner/$RUNNER_NAME\nif [ ! -x \"$work/config.sh\" ]; then\n  mkdir -p \"$work\"\n  /usr/bin/rsync --archive ")
        .concat(install)
        .concat("/ \"$work/\"\nfi\ncd \"$work\"\n\n# Mint a registration token, every time round.\n#\n# A registration token expires in an hour and an ephemeral runner\n# re-registers after every job, so a token written to a node once would\n# work until lunchtime and then stop, on a machine nobody is watching.\n# What is enrolled is a credential that can mint them; this is where it\n# is spent (§9.5, §12.2).\ntoken=$(/usr/bin/curl --silent --show-error --fail --max-time 30 \\\n  --request POST \\\n  --header \"authorization: Bearer $pat\" \\\n  --header \"accept: application/vnd.github+json\" \\\n  \"https://api.github.com/repos/")
        .concat(c.images.signing.repository.as_str())
        .concat("/actions/runners/registration-token\" \\\n  | /usr/bin/jq -r .token)\n[ -n \"$token\" ] && [ \"$token\" != null ] || {\n  echo \"runner: the enrolled credential could not mint a registration token\" >&2\n  exit 1\n}\n\n# A fresh registration each time. An ephemeral runner is removed by the\n# service after its job, so the previous registration is already gone.\n./config.sh \\\n  --url \"$RUNNER_URL\" \\\n  --token \"$token\" \\\n  --name \"$RUNNER_NAME\" \\\n  --labels \"$RUNNER_LABELS\" \\\n  --unattended --replace")
        .concat(ephemeral(variant).as_str())
        .concat("\n\n# Blocks until one job completes, then exits. The unit restarts us.\nexec ./run.sh\n");
    Rendered::new(path, ids3("CD-12", "CW-02", "CD-22"), body)
}

/// Collects registry storage.
pub open spec fn zot_gc_file(c: Cluster) -> File {
    let storage = storage(c);
    File {
        path: "node/libexec/zot-gc"@,
        ids: seq!["CD-12"@],
        body: "#!/usr/bin/env bash\n# Registry collection: untagged manifests older than "@
            + decimal(c.policy.gc.registry_untagged_max_age_days as nat)
            + " days go.\n#\n# Tagged manifests never do. `:stable` is what every node follows, and a\n# collection that removed the digest a node had not yet pulled would turn\n# §14.2's window into a node that cannot update at all (§5.5).\nset -euo pipefail\n\n# Zot collects on its own schedule from the gcDelay in its configuration,\n# which is rendered from the same threshold. This triggers it rather than\n# reimplementing it: the registry owns its storage, and a second collector\n# walking the same blobs is a second source for what is garbage.\ncurl --silent --show-error --fail \\\n  --request POST \"http://"@
            + storage.loopback
            + ":"@
            + decimal(c.images.registries.port as nat)
            + "/v2/_zot/ext/gc\" \\\n  || echo 'zot-gc: the registry declined; it collects on its own schedule' >&2\n\n# Container storage on this node, which Zot does not own.\n/usr/bin/podman system prune --force --filter until="@
            + decimal(c.policy.gc.container_image_max_age_h as nat)
            + "h\n"@,
    }
}

pub(crate) fn zot_gc(c: &Cluster) -> (r: Rendered)
    requires
        has_storage(*c),
    ensures
        r@ == zot_gc_file(*c),
{
    let storage = storage_of(c);
    let path = "node/libexec/zot-gc".to_owned();
    let body = "#!/usr/bin/env bash\n# Registry collection: untagged manifests older than ".to_owned()
        .concat(decimal_of(c.policy.gc.registry_untagged_max_age_days as u64).as_str())
        .concat(" days go.\n#\n# Tagged manifests never do. `:stable` is what every node follows, and a\n# collection that removed the digest a node had not yet pulled would turn\n# §14.2's window into a node that cannot update at all (§5.5).\nset -euo pipefail\n\n# Zot collects on its own schedule from the gcDelay in its configuration,\n# which is rendered from the same threshold. This triggers it rather than\n# reimplementing it: the registry owns its storage, and a second collector\n# walking the same blobs is a second source for what is garbage.\ncurl --silent --show-error --fail \\\n  --request POST \"http://")
        .concat(storage.loopback.as_str())
        .concat(":")
        .concat(decimal_of(c.images.registries.port as u64).as_str())
        .concat("/v2/_zot/ext/gc\" \\\n  || echo 'zot-gc: the registry declined; it collects on its own schedule' >&2\n\n# Container storage on this node, which Zot does not own.\n/usr/bin/podman system prune --force --filter until=")
        .concat(decimal_of(c.policy.gc.container_image_max_age_h as u64).as_str())
        .concat("h\n");
    Rendered::new(path, ids1("CD-12"), body)
}

/// The runner scripts of the first `n` roles that host runners.
pub open spec fn loop_files(c: Cluster, n: int) -> Seq<File>
    decreases n,
{
    if n <= 0 {
        Seq::empty()
    } else {
        let role = c.cluster.role@[n - 1];
        match row(c.images.variant@, role.id@) {
            Some(variant) => if variant.runner@.len() > 0 {
                loop_files(c, n - 1).push(runner_loop_file(c, variant, role))
            } else {
                loop_files(c, n - 1)
            },
            None => loop_files(c, n - 1),
        }
    }
}

/// The scripts rendered units invoke.
pub open spec fn helper_files(c: Cluster) -> Seq<File> {
    (seq![sshrc_file(c)] + loop_files(c, c.cluster.role@.len() as int)).push(zot_gc_file(c))
}

/// Whether a role that hosts a runner finds one installed.
pub open spec fn runners_installed(c: Cluster) -> bool {
    c.images.hosts_runners_spec() ==> runner_dir_from(c.images.variant@, 0) is Some
}

/// The scripts rendered units invoke.
pub(crate) fn render(c: &Cluster) -> (out: Vec<Rendered>)
    requires
        has_storage(*c),
        runners_installed(*c),
    ensures
        files(out@) == helper_files(*c),
{
    let mut out: Vec<Rendered> = vec![sshrc(c)];
    let mut i: usize = 0;
    proof {
        assert(files(out@) =~= seq![sshrc_file(*c)] + loop_files(*c, 0));
    }
    while i < c.cluster.role.len()
        invariant
            i <= c.cluster.role.len(),
            runners_installed(*c),
            files(out@) == seq![sshrc_file(*c)] + loop_files(*c, i as int),
        decreases c.cluster.role.len() - i,
    {
        let role = &c.cluster.role[i];
        let ghost before = out@;
        if let Some(variant) = c.images.variant_for(role.id.as_str()) {
            if variant.runner.len() > 0 {
                proof {
                    crate::named::a_lookup_finds_the_name(c.images.variant@, role.id@);
                    let k = c.images.variant@.index_of(*variant);
                    assert(c.images.variant@[k].runner@.len() > 0);
                }
                out.push(runner_loop(c, variant, role));
                proof {
                    let file = runner_loop_file(*c, *variant, *role);
                    assert(files(out@) =~= files(before).push(file));
                    assert((seq![sshrc_file(*c)] + loop_files(*c, i as int)).push(file)
                        =~= seq![sshrc_file(*c)] + loop_files(*c, i as int).push(file));
                }
            }
        }
        i = i + 1;
    }
    let ghost before = out@;
    out.push(zot_gc(c));
    proof {
        assert(files(out@) =~= files(before).push(zot_gc_file(*c)));
    }
    out
}

// ---- laws of the scripts ----

/// The scripts every machine has are given.
proof fn lemma_helper_files(c: Cluster)
    ensures
        is_ours(c, sshrc_file(c)),
        is_ours(c, zot_gc_file(c)),
{
    reveal(is_ours);
    let all = helper_files(c);
    assert(all[0] == sshrc_file(c));
    assert(all[all.len() - 1] == zot_gc_file(c));
    assert(all.contains(all[0]) && all.contains(all[all.len() - 1]));
}

proof fn lemma_loop_given(c: Cluster, r: int, variant: Variant)
    requires
        0 <= r < c.cluster.role@.len(),
        row(c.images.variant@, c.cluster.role@[r].id@) == Some(variant),
        variant.runner@.len() > 0,
    ensures
        is_ours(c, runner_loop_file(c, variant, c.cluster.role@[r])),
{
    reveal(is_ours);
    let file = runner_loop_file(c, variant, c.cluster.role@[r]);
    let n = c.cluster.role@.len() as int;
    lemma_loop_files(c, r, variant, n);
    let front = seq![sshrc_file(c)] + loop_files(c, n);
    lemma_in_either(seq![sshrc_file(c)], loop_files(c, n), file);
    let k = front.index_of(file);
    assert(helper_files(c)[k] == file);
}

proof fn lemma_loop_files(c: Cluster, r: int, variant: Variant, n: int)
    requires
        0 <= r < n <= c.cluster.role@.len(),
        row(c.images.variant@, c.cluster.role@[r].id@) == Some(variant),
        variant.runner@.len() > 0,
    ensures
        loop_files(c, n).contains(runner_loop_file(c, variant, c.cluster.role@[r])),
    decreases n,
{
    let file = runner_loop_file(c, variant, c.cluster.role@[r]);
    let all = loop_files(c, n);
    if r == n - 1 {
        assert(all[all.len() - 1] == file);
    } else {
        lemma_loop_files(c, r, variant, n - 1);
        let k = loop_files(c, n - 1).index_of(file);
        assert(all[k] == file);
    }
}

/// A login is recorded as an attachment.
pub proof fn a_login_is_recorded(c: Cluster, out: Vec<Rendered>)
    requires
        call_ensures(render_all, (&c,), out),
    ensures
        ({
            let storage = storage(c);
            let path = "node/sshrc"@;
            &&& shows(out@, path, "\nif [ -n \"${CLUSTER_SESSION:-}\" ]; then\n  /usr/bin/curl --silent --fail --max-time 2 --request POST \\\n    \"http://"@ + storage.loopback + ":8080/api/sessions/${CLUSTER_SESSION}/attached\" >/dev/null 2>&1 || true\nfi\n"@)
        }),
{
    let storage = storage(c);
    let file = sshrc_file(c);
    lemma_helper_files(c);
    lemma_is_shown(c, out, file);
    let t0 = "# Runs for every SSH session, interactive or not (§15.1).\n#\n# scp, rsync and a VS Code server starting are all attachments, and none of\n# them sources a profile --- which is why this is sshrc and not profile.d.\n#\n# Failure is ignored on purpose. A control plane that is rebooting must not\n# stop somebody logging in; the cost is one attachment not recorded, and\n# §15.3's thresholds are in days (§16.5).\nif [ -n \"${CLUSTER_SESSION:-}\" ]; then\n  /usr/bin/curl --silent --fail --max-time 2 --request POST \\\n    \"http://"@;
    let b0 = t0;
    let t1 = storage.loopback;
    let b1 = b0 + t1;
    let t2 = ":8080/api/sessions/${CLUSTER_SESSION}/attached\" >/dev/null 2>&1 || true\nfi\n"@;
    let b2 = b1 + t2;
    lemma_sshrc_file_0();
    let q0 = "\nif [ -n \"${CLUSTER_SESSION:-}\" ]; then\n  /usr/bin/curl --silent --fail --max-time 2 --request POST \\\n    \"http://"@;
    lemma_tail_grows(b0, q0, t1);
    let q1 = q0 + t1;
    lemma_tail_grows(b1, q1, t2);
    let q2 = q1 + t2;
    let text = q2;
    lemma_shows(out@, file, text);
}

proof fn lemma_sshrc_file_0()
    ensures
        is_tail("# Runs for every SSH session, interactive or not (§15.1).\n#\n# scp, rsync and a VS Code server starting are all attachments, and none of\n# them sources a profile --- which is why this is sshrc and not profile.d.\n#\n# Failure is ignored on purpose. A control plane that is rebooting must not\n# stop somebody logging in; the cost is one attachment not recorded, and\n# §15.3's thresholds are in days (§16.5).\nif [ -n \"${CLUSTER_SESSION:-}\" ]; then\n  /usr/bin/curl --silent --fail --max-time 2 --request POST \\\n    \"http://"@, "\nif [ -n \"${CLUSTER_SESSION:-}\" ]; then\n  /usr/bin/curl --silent --fail --max-time 2 --request POST \\\n    \"http://"@),
{
    reveal(is_tail);
    reveal_strlit("# Runs for every SSH session, interactive or not (§15.1).\n#\n# scp, rsync and a VS Code server starting are all attachments, and none of\n# them sources a profile --- which is why this is sshrc and not profile.d.\n#\n# Failure is ignored on purpose. A control plane that is rebooting must not\n# stop somebody logging in; the cost is one attachment not recorded, and\n# §15.3's thresholds are in days (§16.5).\nif [ -n \"${CLUSTER_SESSION:-}\" ]; then\n  /usr/bin/curl --silent --fail --max-time 2 --request POST \\\n    \"http://");
    reveal_strlit("\nif [ -n \"${CLUSTER_SESSION:-}\" ]; then\n  /usr/bin/curl --silent --fail --max-time 2 --request POST \\\n    \"http://");
    assert("# Runs for every SSH session, interactive or not (§15.1).\n#\n# scp, rsync and a VS Code server starting are all attachments, and none of\n# them sources a profile --- which is why this is sshrc and not profile.d.\n#\n# Failure is ignored on purpose. A control plane that is rebooting must not\n# stop somebody logging in; the cost is one attachment not recorded, and\n# §15.3's thresholds are in days (§16.5).\nif [ -n \"${CLUSTER_SESSION:-}\" ]; then\n  /usr/bin/curl --silent --fail --max-time 2 --request POST \\\n    \"http://"@.subrange(403, 517) =~= "\nif [ -n \"${CLUSTER_SESSION:-}\" ]; then\n  /usr/bin/curl --silent --fail --max-time 2 --request POST \\\n    \"http://"@);
}

/// The registry is collected by age.
pub proof fn the_registry_is_collected(c: Cluster, out: Vec<Rendered>)
    requires
        call_ensures(render_all, (&c,), out),
    ensures
        ({
            let storage = storage(c);
            let path = "node/libexec/zot-gc"@;
            &&& shows(out@, path, "#!/usr/bin/env bash\n"@)
            &&& shows(out@, path, "\nset -euo pipefail\n"@)
            &&& shows(out@, path, "\ncurl --silent --show-error --fail \\\n  --request POST \"http://"@ + storage.loopback + ":"@ + decimal(c.images.registries.port as nat) + "/v2/_zot/ext/gc\" \\\n  || echo 'zot-gc: the registry declined; it collects on its own schedule' >&2\n"@)
            &&& shows(out@, path, "\n/usr/bin/podman system prune --force --filter until="@ + decimal(c.policy.gc.container_image_max_age_h as nat) + "h\n"@)
        }),
{
    let storage = storage(c);
    let file = zot_gc_file(c);
    lemma_helper_files(c);
    lemma_is_shown(c, out, file);
    let t0 = "#!/usr/bin/env bash\n# Registry collection: untagged manifests older than "@;
    let b0 = t0;
    let t1 = decimal(c.policy.gc.registry_untagged_max_age_days as nat);
    let b1 = b0 + t1;
    let t2 = " days go.\n#\n# Tagged manifests never do. `:stable` is what every node follows, and a\n# collection that removed the digest a node had not yet pulled would turn\n# §14.2's window into a node that cannot update at all (§5.5).\nset -euo pipefail\n\n# Zot collects on its own schedule from the gcDelay in its configuration,\n# which is rendered from the same threshold. This triggers it rather than\n# reimplementing it: the registry owns its storage, and a second collector\n# walking the same blobs is a second source for what is garbage.\ncurl --silent --show-error --fail \\\n  --request POST \"http://"@;
    let b2 = b1 + t2;
    let t3 = storage.loopback;
    let b3 = b2 + t3;
    let t4 = ":"@;
    let b4 = b3 + t4;
    let t5 = decimal(c.images.registries.port as nat);
    let b5 = b4 + t5;
    let t6 = "/v2/_zot/ext/gc\" \\\n  || echo 'zot-gc: the registry declined; it collects on its own schedule' >&2\n\n# Container storage on this node, which Zot does not own.\n/usr/bin/podman system prune --force --filter until="@;
    let b6 = b5 + t6;
    let t7 = decimal(c.policy.gc.container_image_max_age_h as nat);
    let b7 = b6 + t7;
    let t8 = "h\n"@;
    let b8 = b7 + t8;
    lemma_zot_gc_file_0();
    let text = "#!/usr/bin/env bash\n"@;
    lemma_part_left(b0, t1, text);
    lemma_part_left(b1, t2, text);
    lemma_part_left(b2, t3, text);
    lemma_part_left(b3, t4, text);
    lemma_part_left(b4, t5, text);
    lemma_part_left(b5, t6, text);
    lemma_part_left(b6, t7, text);
    lemma_part_left(b7, t8, text);
    lemma_shows(out@, file, text);
    lemma_zot_gc_file_1();
    lemma_part_right(b1, t2, "\nset -euo pipefail\n"@);
    let text = "\nset -euo pipefail\n"@;
    lemma_part_left(b2, t3, text);
    lemma_part_left(b3, t4, text);
    lemma_part_left(b4, t5, text);
    lemma_part_left(b5, t6, text);
    lemma_part_left(b6, t7, text);
    lemma_part_left(b7, t8, text);
    lemma_shows(out@, file, text);
    lemma_zot_gc_file_2();
    let q2 = "\ncurl --silent --show-error --fail \\\n  --request POST \"http://"@;
    lemma_tail_right(b1, t2, q2);
    lemma_tail_grows(b2, q2, t3);
    let q3 = q2 + t3;
    lemma_tail_grows(b3, q3, t4);
    let q4 = q3 + t4;
    lemma_tail_grows(b4, q4, t5);
    let q5 = q4 + t5;
    lemma_zot_gc_file_3();
    lemma_tail_is_cut(b5, q5, t6, "/v2/_zot/ext/gc\" \\\n  || echo 'zot-gc: the registry declined; it collects on its own schedule' >&2\n"@);
    let text = q5 + "/v2/_zot/ext/gc\" \\\n  || echo 'zot-gc: the registry declined; it collects on its own schedule' >&2\n"@;
    lemma_part_left(b6, t7, text);
    lemma_part_left(b7, t8, text);
    lemma_shows(out@, file, text);
    lemma_zot_gc_file_4();
    let q6 = "\n/usr/bin/podman system prune --force --filter until="@;
    lemma_tail_right(b5, t6, q6);
    lemma_tail_grows(b6, q6, t7);
    let q7 = q6 + t7;
    lemma_tail_grows(b7, q7, t8);
    let q8 = q7 + t8;
    let text = q8;
    lemma_shows(out@, file, text);
}

proof fn lemma_zot_gc_file_0()
    ensures
        is_part("#!/usr/bin/env bash\n# Registry collection: untagged manifests older than "@, "#!/usr/bin/env bash\n"@),
{
    reveal(is_part);
    reveal_strlit("#!/usr/bin/env bash\n# Registry collection: untagged manifests older than ");
    reveal_strlit("#!/usr/bin/env bash\n");
    assert("#!/usr/bin/env bash\n# Registry collection: untagged manifests older than "@.subrange(0, 20) =~= "#!/usr/bin/env bash\n"@);
    assert(occurs_at("#!/usr/bin/env bash\n# Registry collection: untagged manifests older than "@, "#!/usr/bin/env bash\n"@, 0));
}

proof fn lemma_zot_gc_file_1()
    ensures
        is_part(" days go.\n#\n# Tagged manifests never do. `:stable` is what every node follows, and a\n# collection that removed the digest a node had not yet pulled would turn\n# §14.2's window into a node that cannot update at all (§5.5).\nset -euo pipefail\n\n# Zot collects on its own schedule from the gcDelay in its configuration,\n# which is rendered from the same threshold. This triggers it rather than\n# reimplementing it: the registry owns its storage, and a second collector\n# walking the same blobs is a second source for what is garbage.\ncurl --silent --show-error --fail \\\n  --request POST \"http://"@, "\nset -euo pipefail\n"@),
{
    reveal(is_part);
    reveal_strlit(" days go.\n#\n# Tagged manifests never do. `:stable` is what every node follows, and a\n# collection that removed the digest a node had not yet pulled would turn\n# §14.2's window into a node that cannot update at all (§5.5).\nset -euo pipefail\n\n# Zot collects on its own schedule from the gcDelay in its configuration,\n# which is rendered from the same threshold. This triggers it rather than\n# reimplementing it: the registry owns its storage, and a second collector\n# walking the same blobs is a second source for what is garbage.\ncurl --silent --show-error --fail \\\n  --request POST \"http://");
    reveal_strlit("\nset -euo pipefail\n");
    assert(" days go.\n#\n# Tagged manifests never do. `:stable` is what every node follows, and a\n# collection that removed the digest a node had not yet pulled would turn\n# §14.2's window into a node that cannot update at all (§5.5).\nset -euo pipefail\n\n# Zot collects on its own schedule from the gcDelay in its configuration,\n# which is rendered from the same threshold. This triggers it rather than\n# reimplementing it: the registry owns its storage, and a second collector\n# walking the same blobs is a second source for what is garbage.\ncurl --silent --show-error --fail \\\n  --request POST \"http://"@.subrange(221, 240) =~= "\nset -euo pipefail\n"@);
    assert(occurs_at(" days go.\n#\n# Tagged manifests never do. `:stable` is what every node follows, and a\n# collection that removed the digest a node had not yet pulled would turn\n# §14.2's window into a node that cannot update at all (§5.5).\nset -euo pipefail\n\n# Zot collects on its own schedule from the gcDelay in its configuration,\n# which is rendered from the same threshold. This triggers it rather than\n# reimplementing it: the registry owns its storage, and a second collector\n# walking the same blobs is a second source for what is garbage.\ncurl --silent --show-error --fail \\\n  --request POST \"http://"@, "\nset -euo pipefail\n"@, 221));
}

proof fn lemma_zot_gc_file_2()
    ensures
        is_tail(" days go.\n#\n# Tagged manifests never do. `:stable` is what every node follows, and a\n# collection that removed the digest a node had not yet pulled would turn\n# §14.2's window into a node that cannot update at all (§5.5).\nset -euo pipefail\n\n# Zot collects on its own schedule from the gcDelay in its configuration,\n# which is rendered from the same threshold. This triggers it rather than\n# reimplementing it: the registry owns its storage, and a second collector\n# walking the same blobs is a second source for what is garbage.\ncurl --silent --show-error --fail \\\n  --request POST \"http://"@, "\ncurl --silent --show-error --fail \\\n  --request POST \"http://"@),
{
    reveal(is_tail);
    reveal_strlit(" days go.\n#\n# Tagged manifests never do. `:stable` is what every node follows, and a\n# collection that removed the digest a node had not yet pulled would turn\n# §14.2's window into a node that cannot update at all (§5.5).\nset -euo pipefail\n\n# Zot collects on its own schedule from the gcDelay in its configuration,\n# which is rendered from the same threshold. This triggers it rather than\n# reimplementing it: the registry owns its storage, and a second collector\n# walking the same blobs is a second source for what is garbage.\ncurl --silent --show-error --fail \\\n  --request POST \"http://");
    reveal_strlit("\ncurl --silent --show-error --fail \\\n  --request POST \"http://");
    assert(" days go.\n#\n# Tagged manifests never do. `:stable` is what every node follows, and a\n# collection that removed the digest a node had not yet pulled would turn\n# §14.2's window into a node that cannot update at all (§5.5).\nset -euo pipefail\n\n# Zot collects on its own schedule from the gcDelay in its configuration,\n# which is rendered from the same threshold. This triggers it rather than\n# reimplementing it: the registry owns its storage, and a second collector\n# walking the same blobs is a second source for what is garbage.\ncurl --silent --show-error --fail \\\n  --request POST \"http://"@.subrange(528, 590) =~= "\ncurl --silent --show-error --fail \\\n  --request POST \"http://"@);
}

proof fn lemma_zot_gc_file_3()
    ensures
        is_head("/v2/_zot/ext/gc\" \\\n  || echo 'zot-gc: the registry declined; it collects on its own schedule' >&2\n\n# Container storage on this node, which Zot does not own.\n/usr/bin/podman system prune --force --filter until="@, "/v2/_zot/ext/gc\" \\\n  || echo 'zot-gc: the registry declined; it collects on its own schedule' >&2\n"@),
{
    reveal(is_head);
    reveal_strlit("/v2/_zot/ext/gc\" \\\n  || echo 'zot-gc: the registry declined; it collects on its own schedule' >&2\n\n# Container storage on this node, which Zot does not own.\n/usr/bin/podman system prune --force --filter until=");
    reveal_strlit("/v2/_zot/ext/gc\" \\\n  || echo 'zot-gc: the registry declined; it collects on its own schedule' >&2\n");
    assert("/v2/_zot/ext/gc\" \\\n  || echo 'zot-gc: the registry declined; it collects on its own schedule' >&2\n\n# Container storage on this node, which Zot does not own.\n/usr/bin/podman system prune --force --filter until="@.subrange(0, 98) =~= "/v2/_zot/ext/gc\" \\\n  || echo 'zot-gc: the registry declined; it collects on its own schedule' >&2\n"@);
}

proof fn lemma_zot_gc_file_4()
    ensures
        is_tail("/v2/_zot/ext/gc\" \\\n  || echo 'zot-gc: the registry declined; it collects on its own schedule' >&2\n\n# Container storage on this node, which Zot does not own.\n/usr/bin/podman system prune --force --filter until="@, "\n/usr/bin/podman system prune --force --filter until="@),
{
    reveal(is_tail);
    reveal_strlit("/v2/_zot/ext/gc\" \\\n  || echo 'zot-gc: the registry declined; it collects on its own schedule' >&2\n\n# Container storage on this node, which Zot does not own.\n/usr/bin/podman system prune --force --filter until=");
    reveal_strlit("\n/usr/bin/podman system prune --force --filter until=");
    assert("/v2/_zot/ext/gc\" \\\n  || echo 'zot-gc: the registry declined; it collects on its own schedule' >&2\n\n# Container storage on this node, which Zot does not own.\n/usr/bin/podman system prune --force --filter until="@.subrange(156, 209) =~= "\n/usr/bin/podman system prune --force --filter until="@);
}

/// A runner asks for its token, registers under its name and labels, and runs what
/// it is given.
pub proof fn a_runner_registers_and_runs(c: Cluster, out: Vec<Rendered>, r: int, variant: Variant)
    requires
        call_ensures(render_all, (&c,), out),
        0 <= r < c.cluster.role@.len(),
        row(c.images.variant@, c.cluster.role@[r].id@) == Some(variant),
        variant.runner@.len() > 0,
    ensures
        ({
            let role = c.cluster.role@[r];
            let install = runner_dir_from(c.images.variant@, 0).unwrap();
            let path = "node/libexec/runner-loop-"@ + role.id@;
            &&& shows(out@, path, "#!/usr/bin/env bash\n"@)
            &&& shows(out@, path, "\nset -euo pipefail\n"@)
            &&& shows(out@, path, "\n: \"${RUNNER_NAME:?the unit sets this}\"\n: \"${RUNNER_LABELS:?the unit sets this}\"\n: \"${RUNNER_URL:?the unit sets this}\"\npat=$(cat "@ + RUNNER_PAT@ + ")\n"@)
            &&& shows(out@, path, lock_text(variant) + "# The runner's own copy. `config.sh` writes its registration beside\n"@)
            &&& shows(out@, path, "\nwork=/var/lib/cluster-runner/$RUNNER_NAME\nif [ ! -x \"$work/config.sh\" ]; then\n  mkdir -p \"$work\"\n  /usr/bin/rsync --archive "@ + install + "/ \"$work/\"\nfi\ncd \"$work\"\n"@)
            &&& shows(out@, path, "\ntoken=$(/usr/bin/curl --silent --show-error --fail --max-time 30 \\\n  --request POST \\\n  --header \"authorization: Bearer $pat\" \\\n  --header \"accept: application/vnd.github+json\" \\\n  \"https://api.github.com/repos/"@ + c.images.signing.repository@ + "/actions/runners/registration-token\" \\\n  | /usr/bin/jq -r .token)\n[ -n \"$token\" ] && [ \"$token\" != null ] || {\n  echo \"runner: the enrolled credential could not mint a registration token\" >&2\n  exit 1\n}\n"@)
            &&& shows(out@, path, "\n./config.sh \\\n  --url \"$RUNNER_URL\" \\\n  --token \"$token\" \\\n  --name \"$RUNNER_NAME\" \\\n  --labels \"$RUNNER_LABELS\" \\\n  --unattended --replace"@ + ephemeral_text(variant) + "\n"@)
            &&& shows(out@, path, "\nexec ./run.sh\n"@)
        }),
{
    let role = c.cluster.role@[r];
    let install = runner_dir_from(c.images.variant@, 0).unwrap();
    let file = runner_loop_file(c, variant, role);
    lemma_loop_given(c, r, variant);
    lemma_is_shown(c, out, file);
    let t0 = "#!/usr/bin/env bash\n# One ephemeral runner registration for the `"@;
    let b0 = t0;
    let t1 = role.id@;
    let b1 = b0 + t1;
    let t2 = "` role, one job at a time.\n#\n# The unit restarts this after every job, which is what makes draining a\n# matter of not re-registering rather than of killing work: stopping the\n# unit lets the job in flight finish and takes the runner out of rotation\n# (§14.1).\nset -euo pipefail\n\n# RUNNER_NAME, RUNNER_LABELS and RUNNER_URL come from the unit, which is\n# rendered from the model. The credential is the one thing that is not:\n# it is enrolled through the browser after the cluster boots and lands\n# in a file only root can read, so no token is in an image, in this\n# repository, or in `systemctl show` (§12.2).\n: \"${RUNNER_NAME:?the unit sets this}\"\n: \"${RUNNER_LABELS:?the unit sets this}\"\n: \"${RUNNER_URL:?the unit sets this}\"\npat=$(cat "@;
    let b2 = b1 + t2;
    let t3 = RUNNER_PAT@;
    let b3 = b2 + t3;
    let t4 = ")\n\n"@;
    let b4 = b3 + t4;
    let t5 = lock_text(variant);
    let b5 = b4 + t5;
    let t6 = "# The runner's own copy. `config.sh` writes its registration beside\n# itself, and "@;
    let b6 = b5 + t6;
    let t7 = install;
    let b7 = b6 + t7;
    let t8 = " is on the read-only system tree --- so each\n# runner works from a copy under /var, which the bootc filesystem\n# contract makes writable and persistent (§5.2).\nwork=/var/lib/cluster-runner/$RUNNER_NAME\nif [ ! -x \"$work/config.sh\" ]; then\n  mkdir -p \"$work\"\n  /usr/bin/rsync --archive "@;
    let b8 = b7 + t8;
    let t9 = install;
    let b9 = b8 + t9;
    let t10 = "/ \"$work/\"\nfi\ncd \"$work\"\n\n# Mint a registration token, every time round.\n#\n# A registration token expires in an hour and an ephemeral runner\n# re-registers after every job, so a token written to a node once would\n# work until lunchtime and then stop, on a machine nobody is watching.\n# What is enrolled is a credential that can mint them; this is where it\n# is spent (§9.5, §12.2).\ntoken=$(/usr/bin/curl --silent --show-error --fail --max-time 30 \\\n  --request POST \\\n  --header \"authorization: Bearer $pat\" \\\n  --header \"accept: application/vnd.github+json\" \\\n  \"https://api.github.com/repos/"@;
    let b10 = b9 + t10;
    let t11 = c.images.signing.repository@;
    let b11 = b10 + t11;
    let t12 = "/actions/runners/registration-token\" \\\n  | /usr/bin/jq -r .token)\n[ -n \"$token\" ] && [ \"$token\" != null ] || {\n  echo \"runner: the enrolled credential could not mint a registration token\" >&2\n  exit 1\n}\n\n# A fresh registration each time. An ephemeral runner is removed by the\n# service after its job, so the previous registration is already gone.\n./config.sh \\\n  --url \"$RUNNER_URL\" \\\n  --token \"$token\" \\\n  --name \"$RUNNER_NAME\" \\\n  --labels \"$RUNNER_LABELS\" \\\n  --unattended --replace"@;
    let b12 = b11 + t12;
    let t13 = ephemeral_text(variant);
    let b13 = b12 + t13;
    let t14 = "\n\n# Blocks until one job completes, then exits. The unit restarts us.\nexec ./run.sh\n"@;
    let b14 = b13 + t14;
    lemma_runner_loop_file_0();
    let text = "#!/usr/bin/env bash\n"@;
    lemma_part_left(b0, t1, text);
    lemma_part_left(b1, t2, text);
    lemma_part_left(b2, t3, text);
    lemma_part_left(b3, t4, text);
    lemma_part_left(b4, t5, text);
    lemma_part_left(b5, t6, text);
    lemma_part_left(b6, t7, text);
    lemma_part_left(b7, t8, text);
    lemma_part_left(b8, t9, text);
    lemma_part_left(b9, t10, text);
    lemma_part_left(b10, t11, text);
    lemma_part_left(b11, t12, text);
    lemma_part_left(b12, t13, text);
    lemma_part_left(b13, t14, text);
    lemma_shows(out@, file, text);
    lemma_runner_loop_file_1();
    lemma_part_right(b1, t2, "\nset -euo pipefail\n"@);
    let text = "\nset -euo pipefail\n"@;
    lemma_part_left(b2, t3, text);
    lemma_part_left(b3, t4, text);
    lemma_part_left(b4, t5, text);
    lemma_part_left(b5, t6, text);
    lemma_part_left(b6, t7, text);
    lemma_part_left(b7, t8, text);
    lemma_part_left(b8, t9, text);
    lemma_part_left(b9, t10, text);
    lemma_part_left(b10, t11, text);
    lemma_part_left(b11, t12, text);
    lemma_part_left(b12, t13, text);
    lemma_part_left(b13, t14, text);
    lemma_shows(out@, file, text);
    lemma_runner_loop_file_2();
    let q2 = "\n: \"${RUNNER_NAME:?the unit sets this}\"\n: \"${RUNNER_LABELS:?the unit sets this}\"\n: \"${RUNNER_URL:?the unit sets this}\"\npat=$(cat "@;
    lemma_tail_right(b1, t2, q2);
    lemma_tail_grows(b2, q2, t3);
    let q3 = q2 + t3;
    lemma_runner_loop_file_3();
    lemma_tail_is_cut(b3, q3, t4, ")\n"@);
    let text = q3 + ")\n"@;
    lemma_part_left(b4, t5, text);
    lemma_part_left(b5, t6, text);
    lemma_part_left(b6, t7, text);
    lemma_part_left(b7, t8, text);
    lemma_part_left(b8, t9, text);
    lemma_part_left(b9, t10, text);
    lemma_part_left(b10, t11, text);
    lemma_part_left(b11, t12, text);
    lemma_part_left(b12, t13, text);
    lemma_part_left(b13, t14, text);
    lemma_shows(out@, file, text);
    let q5 = t5;
    lemma_whole(t5);
    lemma_tail_right(b4, t5, q5);
    lemma_runner_loop_file_4();
    lemma_tail_is_cut(b5, q5, t6, "# The runner's own copy. `config.sh` writes its registration beside\n"@);
    let text = q5 + "# The runner's own copy. `config.sh` writes its registration beside\n"@;
    lemma_part_left(b6, t7, text);
    lemma_part_left(b7, t8, text);
    lemma_part_left(b8, t9, text);
    lemma_part_left(b9, t10, text);
    lemma_part_left(b10, t11, text);
    lemma_part_left(b11, t12, text);
    lemma_part_left(b12, t13, text);
    lemma_part_left(b13, t14, text);
    lemma_shows(out@, file, text);
    lemma_runner_loop_file_5();
    let q8 = "\nwork=/var/lib/cluster-runner/$RUNNER_NAME\nif [ ! -x \"$work/config.sh\" ]; then\n  mkdir -p \"$work\"\n  /usr/bin/rsync --archive "@;
    lemma_tail_right(b7, t8, q8);
    lemma_tail_grows(b8, q8, t9);
    let q9 = q8 + t9;
    lemma_runner_loop_file_6();
    lemma_tail_is_cut(b9, q9, t10, "/ \"$work/\"\nfi\ncd \"$work\"\n"@);
    let text = q9 + "/ \"$work/\"\nfi\ncd \"$work\"\n"@;
    lemma_part_left(b10, t11, text);
    lemma_part_left(b11, t12, text);
    lemma_part_left(b12, t13, text);
    lemma_part_left(b13, t14, text);
    lemma_shows(out@, file, text);
    lemma_runner_loop_file_7();
    let q10 = "\ntoken=$(/usr/bin/curl --silent --show-error --fail --max-time 30 \\\n  --request POST \\\n  --header \"authorization: Bearer $pat\" \\\n  --header \"accept: application/vnd.github+json\" \\\n  \"https://api.github.com/repos/"@;
    lemma_tail_right(b9, t10, q10);
    lemma_tail_grows(b10, q10, t11);
    let q11 = q10 + t11;
    lemma_runner_loop_file_8();
    lemma_tail_is_cut(b11, q11, t12, "/actions/runners/registration-token\" \\\n  | /usr/bin/jq -r .token)\n[ -n \"$token\" ] && [ \"$token\" != null ] || {\n  echo \"runner: the enrolled credential could not mint a registration token\" >&2\n  exit 1\n}\n"@);
    let text = q11 + "/actions/runners/registration-token\" \\\n  | /usr/bin/jq -r .token)\n[ -n \"$token\" ] && [ \"$token\" != null ] || {\n  echo \"runner: the enrolled credential could not mint a registration token\" >&2\n  exit 1\n}\n"@;
    lemma_part_left(b12, t13, text);
    lemma_part_left(b13, t14, text);
    lemma_shows(out@, file, text);
    lemma_runner_loop_file_9();
    let q12 = "\n./config.sh \\\n  --url \"$RUNNER_URL\" \\\n  --token \"$token\" \\\n  --name \"$RUNNER_NAME\" \\\n  --labels \"$RUNNER_LABELS\" \\\n  --unattended --replace"@;
    lemma_tail_right(b11, t12, q12);
    lemma_tail_grows(b12, q12, t13);
    let q13 = q12 + t13;
    lemma_runner_loop_file_10();
    lemma_tail_is_cut(b13, q13, t14, "\n"@);
    let text = q13 + "\n"@;
    lemma_shows(out@, file, text);
    lemma_runner_loop_file_11();
    lemma_part_right(b13, t14, "\nexec ./run.sh\n"@);
    let text = "\nexec ./run.sh\n"@;
    lemma_shows(out@, file, text);
}

proof fn lemma_runner_loop_file_0()
    ensures
        is_part("#!/usr/bin/env bash\n# One ephemeral runner registration for the `"@, "#!/usr/bin/env bash\n"@),
{
    reveal(is_part);
    reveal_strlit("#!/usr/bin/env bash\n# One ephemeral runner registration for the `");
    reveal_strlit("#!/usr/bin/env bash\n");
    assert("#!/usr/bin/env bash\n# One ephemeral runner registration for the `"@.subrange(0, 20) =~= "#!/usr/bin/env bash\n"@);
    assert(occurs_at("#!/usr/bin/env bash\n# One ephemeral runner registration for the `"@, "#!/usr/bin/env bash\n"@, 0));
}

proof fn lemma_runner_loop_file_1()
    ensures
        is_part("` role, one job at a time.\n#\n# The unit restarts this after every job, which is what makes draining a\n# matter of not re-registering rather than of killing work: stopping the\n# unit lets the job in flight finish and takes the runner out of rotation\n# (§14.1).\nset -euo pipefail\n\n# RUNNER_NAME, RUNNER_LABELS and RUNNER_URL come from the unit, which is\n# rendered from the model. The credential is the one thing that is not:\n# it is enrolled through the browser after the cluster boots and lands\n# in a file only root can read, so no token is in an image, in this\n# repository, or in `systemctl show` (§12.2).\n: \"${RUNNER_NAME:?the unit sets this}\"\n: \"${RUNNER_LABELS:?the unit sets this}\"\n: \"${RUNNER_URL:?the unit sets this}\"\npat=$(cat "@, "\nset -euo pipefail\n"@),
{
    reveal(is_part);
    reveal_strlit("` role, one job at a time.\n#\n# The unit restarts this after every job, which is what makes draining a\n# matter of not re-registering rather than of killing work: stopping the\n# unit lets the job in flight finish and takes the runner out of rotation\n# (§14.1).\nset -euo pipefail\n\n# RUNNER_NAME, RUNNER_LABELS and RUNNER_URL come from the unit, which is\n# rendered from the model. The credential is the one thing that is not:\n# it is enrolled through the browser after the cluster boots and lands\n# in a file only root can read, so no token is in an image, in this\n# repository, or in `systemctl show` (§12.2).\n: \"${RUNNER_NAME:?the unit sets this}\"\n: \"${RUNNER_LABELS:?the unit sets this}\"\n: \"${RUNNER_URL:?the unit sets this}\"\npat=$(cat ");
    reveal_strlit("\nset -euo pipefail\n");
    assert("` role, one job at a time.\n#\n# The unit restarts this after every job, which is what makes draining a\n# matter of not re-registering rather than of killing work: stopping the\n# unit lets the job in flight finish and takes the runner out of rotation\n# (§14.1).\nset -euo pipefail\n\n# RUNNER_NAME, RUNNER_LABELS and RUNNER_URL come from the unit, which is\n# rendered from the model. The credential is the one thing that is not:\n# it is enrolled through the browser after the cluster boots and lands\n# in a file only root can read, so no token is in an image, in this\n# repository, or in `systemctl show` (§12.2).\n: \"${RUNNER_NAME:?the unit sets this}\"\n: \"${RUNNER_LABELS:?the unit sets this}\"\n: \"${RUNNER_URL:?the unit sets this}\"\npat=$(cat "@.subrange(259, 278) =~= "\nset -euo pipefail\n"@);
    assert(occurs_at("` role, one job at a time.\n#\n# The unit restarts this after every job, which is what makes draining a\n# matter of not re-registering rather than of killing work: stopping the\n# unit lets the job in flight finish and takes the runner out of rotation\n# (§14.1).\nset -euo pipefail\n\n# RUNNER_NAME, RUNNER_LABELS and RUNNER_URL come from the unit, which is\n# rendered from the model. The credential is the one thing that is not:\n# it is enrolled through the browser after the cluster boots and lands\n# in a file only root can read, so no token is in an image, in this\n# repository, or in `systemctl show` (§12.2).\n: \"${RUNNER_NAME:?the unit sets this}\"\n: \"${RUNNER_LABELS:?the unit sets this}\"\n: \"${RUNNER_URL:?the unit sets this}\"\npat=$(cat "@, "\nset -euo pipefail\n"@, 259));
}

proof fn lemma_runner_loop_file_2()
    ensures
        is_tail("` role, one job at a time.\n#\n# The unit restarts this after every job, which is what makes draining a\n# matter of not re-registering rather than of killing work: stopping the\n# unit lets the job in flight finish and takes the runner out of rotation\n# (§14.1).\nset -euo pipefail\n\n# RUNNER_NAME, RUNNER_LABELS and RUNNER_URL come from the unit, which is\n# rendered from the model. The credential is the one thing that is not:\n# it is enrolled through the browser after the cluster boots and lands\n# in a file only root can read, so no token is in an image, in this\n# repository, or in `systemctl show` (§12.2).\n: \"${RUNNER_NAME:?the unit sets this}\"\n: \"${RUNNER_LABELS:?the unit sets this}\"\n: \"${RUNNER_URL:?the unit sets this}\"\npat=$(cat "@, "\n: \"${RUNNER_NAME:?the unit sets this}\"\n: \"${RUNNER_LABELS:?the unit sets this}\"\n: \"${RUNNER_URL:?the unit sets this}\"\npat=$(cat "@),
{
    reveal(is_tail);
    reveal_strlit("` role, one job at a time.\n#\n# The unit restarts this after every job, which is what makes draining a\n# matter of not re-registering rather than of killing work: stopping the\n# unit lets the job in flight finish and takes the runner out of rotation\n# (§14.1).\nset -euo pipefail\n\n# RUNNER_NAME, RUNNER_LABELS and RUNNER_URL come from the unit, which is\n# rendered from the model. The credential is the one thing that is not:\n# it is enrolled through the browser after the cluster boots and lands\n# in a file only root can read, so no token is in an image, in this\n# repository, or in `systemctl show` (§12.2).\n: \"${RUNNER_NAME:?the unit sets this}\"\n: \"${RUNNER_LABELS:?the unit sets this}\"\n: \"${RUNNER_URL:?the unit sets this}\"\npat=$(cat ");
    reveal_strlit("\n: \"${RUNNER_NAME:?the unit sets this}\"\n: \"${RUNNER_LABELS:?the unit sets this}\"\n: \"${RUNNER_URL:?the unit sets this}\"\npat=$(cat ");
    assert("` role, one job at a time.\n#\n# The unit restarts this after every job, which is what makes draining a\n# matter of not re-registering rather than of killing work: stopping the\n# unit lets the job in flight finish and takes the runner out of rotation\n# (§14.1).\nset -euo pipefail\n\n# RUNNER_NAME, RUNNER_LABELS and RUNNER_URL come from the unit, which is\n# rendered from the model. The credential is the one thing that is not:\n# it is enrolled through the browser after the cluster boots and lands\n# in a file only root can read, so no token is in an image, in this\n# repository, or in `systemctl show` (§12.2).\n: \"${RUNNER_NAME:?the unit sets this}\"\n: \"${RUNNER_LABELS:?the unit sets this}\"\n: \"${RUNNER_URL:?the unit sets this}\"\npat=$(cat "@.subrange(608, 737) =~= "\n: \"${RUNNER_NAME:?the unit sets this}\"\n: \"${RUNNER_LABELS:?the unit sets this}\"\n: \"${RUNNER_URL:?the unit sets this}\"\npat=$(cat "@);
}

proof fn lemma_runner_loop_file_3()
    ensures
        is_head(")\n\n"@, ")\n"@),
{
    reveal(is_head);
    reveal_strlit(")\n\n");
    reveal_strlit(")\n");
    assert(")\n\n"@.subrange(0, 2) =~= ")\n"@);
}

proof fn lemma_runner_loop_file_4()
    ensures
        is_head("# The runner's own copy. `config.sh` writes its registration beside\n# itself, and "@, "# The runner's own copy. `config.sh` writes its registration beside\n"@),
{
    reveal(is_head);
    reveal_strlit("# The runner's own copy. `config.sh` writes its registration beside\n# itself, and ");
    reveal_strlit("# The runner's own copy. `config.sh` writes its registration beside\n");
    assert("# The runner's own copy. `config.sh` writes its registration beside\n# itself, and "@.subrange(0, 68) =~= "# The runner's own copy. `config.sh` writes its registration beside\n"@);
}

proof fn lemma_runner_loop_file_5()
    ensures
        is_tail(" is on the read-only system tree --- so each\n# runner works from a copy under /var, which the bootc filesystem\n# contract makes writable and persistent (§5.2).\nwork=/var/lib/cluster-runner/$RUNNER_NAME\nif [ ! -x \"$work/config.sh\" ]; then\n  mkdir -p \"$work\"\n  /usr/bin/rsync --archive "@, "\nwork=/var/lib/cluster-runner/$RUNNER_NAME\nif [ ! -x \"$work/config.sh\" ]; then\n  mkdir -p \"$work\"\n  /usr/bin/rsync --archive "@),
{
    reveal(is_tail);
    reveal_strlit(" is on the read-only system tree --- so each\n# runner works from a copy under /var, which the bootc filesystem\n# contract makes writable and persistent (§5.2).\nwork=/var/lib/cluster-runner/$RUNNER_NAME\nif [ ! -x \"$work/config.sh\" ]; then\n  mkdir -p \"$work\"\n  /usr/bin/rsync --archive ");
    reveal_strlit("\nwork=/var/lib/cluster-runner/$RUNNER_NAME\nif [ ! -x \"$work/config.sh\" ]; then\n  mkdir -p \"$work\"\n  /usr/bin/rsync --archive ");
    assert(" is on the read-only system tree --- so each\n# runner works from a copy under /var, which the bootc filesystem\n# contract makes writable and persistent (§5.2).\nwork=/var/lib/cluster-runner/$RUNNER_NAME\nif [ ! -x \"$work/config.sh\" ]; then\n  mkdir -p \"$work\"\n  /usr/bin/rsync --archive "@.subrange(159, 284) =~= "\nwork=/var/lib/cluster-runner/$RUNNER_NAME\nif [ ! -x \"$work/config.sh\" ]; then\n  mkdir -p \"$work\"\n  /usr/bin/rsync --archive "@);
}

proof fn lemma_runner_loop_file_6()
    ensures
        is_head("/ \"$work/\"\nfi\ncd \"$work\"\n\n# Mint a registration token, every time round.\n#\n# A registration token expires in an hour and an ephemeral runner\n# re-registers after every job, so a token written to a node once would\n# work until lunchtime and then stop, on a machine nobody is watching.\n# What is enrolled is a credential that can mint them; this is where it\n# is spent (§9.5, §12.2).\ntoken=$(/usr/bin/curl --silent --show-error --fail --max-time 30 \\\n  --request POST \\\n  --header \"authorization: Bearer $pat\" \\\n  --header \"accept: application/vnd.github+json\" \\\n  \"https://api.github.com/repos/"@, "/ \"$work/\"\nfi\ncd \"$work\"\n"@),
{
    reveal(is_head);
    reveal_strlit("/ \"$work/\"\nfi\ncd \"$work\"\n\n# Mint a registration token, every time round.\n#\n# A registration token expires in an hour and an ephemeral runner\n# re-registers after every job, so a token written to a node once would\n# work until lunchtime and then stop, on a machine nobody is watching.\n# What is enrolled is a credential that can mint them; this is where it\n# is spent (§9.5, §12.2).\ntoken=$(/usr/bin/curl --silent --show-error --fail --max-time 30 \\\n  --request POST \\\n  --header \"authorization: Bearer $pat\" \\\n  --header \"accept: application/vnd.github+json\" \\\n  \"https://api.github.com/repos/");
    reveal_strlit("/ \"$work/\"\nfi\ncd \"$work\"\n");
    assert("/ \"$work/\"\nfi\ncd \"$work\"\n\n# Mint a registration token, every time round.\n#\n# A registration token expires in an hour and an ephemeral runner\n# re-registers after every job, so a token written to a node once would\n# work until lunchtime and then stop, on a machine nobody is watching.\n# What is enrolled is a credential that can mint them; this is where it\n# is spent (§9.5, §12.2).\ntoken=$(/usr/bin/curl --silent --show-error --fail --max-time 30 \\\n  --request POST \\\n  --header \"authorization: Bearer $pat\" \\\n  --header \"accept: application/vnd.github+json\" \\\n  \"https://api.github.com/repos/"@.subrange(0, 25) =~= "/ \"$work/\"\nfi\ncd \"$work\"\n"@);
}

proof fn lemma_runner_loop_file_7()
    ensures
        is_tail("/ \"$work/\"\nfi\ncd \"$work\"\n\n# Mint a registration token, every time round.\n#\n# A registration token expires in an hour and an ephemeral runner\n# re-registers after every job, so a token written to a node once would\n# work until lunchtime and then stop, on a machine nobody is watching.\n# What is enrolled is a credential that can mint them; this is where it\n# is spent (§9.5, §12.2).\ntoken=$(/usr/bin/curl --silent --show-error --fail --max-time 30 \\\n  --request POST \\\n  --header \"authorization: Bearer $pat\" \\\n  --header \"accept: application/vnd.github+json\" \\\n  \"https://api.github.com/repos/"@, "\ntoken=$(/usr/bin/curl --silent --show-error --fail --max-time 30 \\\n  --request POST \\\n  --header \"authorization: Bearer $pat\" \\\n  --header \"accept: application/vnd.github+json\" \\\n  \"https://api.github.com/repos/"@),
{
    reveal(is_tail);
    reveal_strlit("/ \"$work/\"\nfi\ncd \"$work\"\n\n# Mint a registration token, every time round.\n#\n# A registration token expires in an hour and an ephemeral runner\n# re-registers after every job, so a token written to a node once would\n# work until lunchtime and then stop, on a machine nobody is watching.\n# What is enrolled is a credential that can mint them; this is where it\n# is spent (§9.5, §12.2).\ntoken=$(/usr/bin/curl --silent --show-error --fail --max-time 30 \\\n  --request POST \\\n  --header \"authorization: Bearer $pat\" \\\n  --header \"accept: application/vnd.github+json\" \\\n  \"https://api.github.com/repos/");
    reveal_strlit("\ntoken=$(/usr/bin/curl --silent --show-error --fail --max-time 30 \\\n  --request POST \\\n  --header \"authorization: Bearer $pat\" \\\n  --header \"accept: application/vnd.github+json\" \\\n  \"https://api.github.com/repos/");
    assert("/ \"$work/\"\nfi\ncd \"$work\"\n\n# Mint a registration token, every time round.\n#\n# A registration token expires in an hour and an ephemeral runner\n# re-registers after every job, so a token written to a node once would\n# work until lunchtime and then stop, on a machine nobody is watching.\n# What is enrolled is a credential that can mint them; this is where it\n# is spent (§9.5, §12.2).\ntoken=$(/usr/bin/curl --silent --show-error --fail --max-time 30 \\\n  --request POST \\\n  --header \"authorization: Bearer $pat\" \\\n  --header \"accept: application/vnd.github+json\" \\\n  \"https://api.github.com/repos/"@.subrange(381, 593) =~= "\ntoken=$(/usr/bin/curl --silent --show-error --fail --max-time 30 \\\n  --request POST \\\n  --header \"authorization: Bearer $pat\" \\\n  --header \"accept: application/vnd.github+json\" \\\n  \"https://api.github.com/repos/"@);
}

proof fn lemma_runner_loop_file_8()
    ensures
        is_head("/actions/runners/registration-token\" \\\n  | /usr/bin/jq -r .token)\n[ -n \"$token\" ] && [ \"$token\" != null ] || {\n  echo \"runner: the enrolled credential could not mint a registration token\" >&2\n  exit 1\n}\n\n# A fresh registration each time. An ephemeral runner is removed by the\n# service after its job, so the previous registration is already gone.\n./config.sh \\\n  --url \"$RUNNER_URL\" \\\n  --token \"$token\" \\\n  --name \"$RUNNER_NAME\" \\\n  --labels \"$RUNNER_LABELS\" \\\n  --unattended --replace"@, "/actions/runners/registration-token\" \\\n  | /usr/bin/jq -r .token)\n[ -n \"$token\" ] && [ \"$token\" != null ] || {\n  echo \"runner: the enrolled credential could not mint a registration token\" >&2\n  exit 1\n}\n"@),
{
    reveal(is_head);
    reveal_strlit("/actions/runners/registration-token\" \\\n  | /usr/bin/jq -r .token)\n[ -n \"$token\" ] && [ \"$token\" != null ] || {\n  echo \"runner: the enrolled credential could not mint a registration token\" >&2\n  exit 1\n}\n\n# A fresh registration each time. An ephemeral runner is removed by the\n# service after its job, so the previous registration is already gone.\n./config.sh \\\n  --url \"$RUNNER_URL\" \\\n  --token \"$token\" \\\n  --name \"$RUNNER_NAME\" \\\n  --labels \"$RUNNER_LABELS\" \\\n  --unattended --replace");
    reveal_strlit("/actions/runners/registration-token\" \\\n  | /usr/bin/jq -r .token)\n[ -n \"$token\" ] && [ \"$token\" != null ] || {\n  echo \"runner: the enrolled credential could not mint a registration token\" >&2\n  exit 1\n}\n");
    assert("/actions/runners/registration-token\" \\\n  | /usr/bin/jq -r .token)\n[ -n \"$token\" ] && [ \"$token\" != null ] || {\n  echo \"runner: the enrolled credential could not mint a registration token\" >&2\n  exit 1\n}\n\n# A fresh registration each time. An ephemeral runner is removed by the\n# service after its job, so the previous registration is already gone.\n./config.sh \\\n  --url \"$RUNNER_URL\" \\\n  --token \"$token\" \\\n  --name \"$RUNNER_NAME\" \\\n  --labels \"$RUNNER_LABELS\" \\\n  --unattended --replace"@.subrange(0, 203) =~= "/actions/runners/registration-token\" \\\n  | /usr/bin/jq -r .token)\n[ -n \"$token\" ] && [ \"$token\" != null ] || {\n  echo \"runner: the enrolled credential could not mint a registration token\" >&2\n  exit 1\n}\n"@);
}

proof fn lemma_runner_loop_file_9()
    ensures
        is_tail("/actions/runners/registration-token\" \\\n  | /usr/bin/jq -r .token)\n[ -n \"$token\" ] && [ \"$token\" != null ] || {\n  echo \"runner: the enrolled credential could not mint a registration token\" >&2\n  exit 1\n}\n\n# A fresh registration each time. An ephemeral runner is removed by the\n# service after its job, so the previous registration is already gone.\n./config.sh \\\n  --url \"$RUNNER_URL\" \\\n  --token \"$token\" \\\n  --name \"$RUNNER_NAME\" \\\n  --labels \"$RUNNER_LABELS\" \\\n  --unattended --replace"@, "\n./config.sh \\\n  --url \"$RUNNER_URL\" \\\n  --token \"$token\" \\\n  --name \"$RUNNER_NAME\" \\\n  --labels \"$RUNNER_LABELS\" \\\n  --unattended --replace"@),
{
    reveal(is_tail);
    reveal_strlit("/actions/runners/registration-token\" \\\n  | /usr/bin/jq -r .token)\n[ -n \"$token\" ] && [ \"$token\" != null ] || {\n  echo \"runner: the enrolled credential could not mint a registration token\" >&2\n  exit 1\n}\n\n# A fresh registration each time. An ephemeral runner is removed by the\n# service after its job, so the previous registration is already gone.\n./config.sh \\\n  --url \"$RUNNER_URL\" \\\n  --token \"$token\" \\\n  --name \"$RUNNER_NAME\" \\\n  --labels \"$RUNNER_LABELS\" \\\n  --unattended --replace");
    reveal_strlit("\n./config.sh \\\n  --url \"$RUNNER_URL\" \\\n  --token \"$token\" \\\n  --name \"$RUNNER_NAME\" \\\n  --labels \"$RUNNER_LABELS\" \\\n  --unattended --replace");
    assert("/actions/runners/registration-token\" \\\n  | /usr/bin/jq -r .token)\n[ -n \"$token\" ] && [ \"$token\" != null ] || {\n  echo \"runner: the enrolled credential could not mint a registration token\" >&2\n  exit 1\n}\n\n# A fresh registration each time. An ephemeral runner is removed by the\n# service after its job, so the previous registration is already gone.\n./config.sh \\\n  --url \"$RUNNER_URL\" \\\n  --token \"$token\" \\\n  --name \"$RUNNER_NAME\" \\\n  --labels \"$RUNNER_LABELS\" \\\n  --unattended --replace"@.subrange(346, 486) =~= "\n./config.sh \\\n  --url \"$RUNNER_URL\" \\\n  --token \"$token\" \\\n  --name \"$RUNNER_NAME\" \\\n  --labels \"$RUNNER_LABELS\" \\\n  --unattended --replace"@);
}

proof fn lemma_runner_loop_file_10()
    ensures
        is_head("\n\n# Blocks until one job completes, then exits. The unit restarts us.\nexec ./run.sh\n"@, "\n"@),
{
    reveal(is_head);
    reveal_strlit("\n\n# Blocks until one job completes, then exits. The unit restarts us.\nexec ./run.sh\n");
    reveal_strlit("\n");
    assert("\n\n# Blocks until one job completes, then exits. The unit restarts us.\nexec ./run.sh\n"@.subrange(0, 1) =~= "\n"@);
}

proof fn lemma_runner_loop_file_11()
    ensures
        is_part("\n\n# Blocks until one job completes, then exits. The unit restarts us.\nexec ./run.sh\n"@, "\nexec ./run.sh\n"@),
{
    reveal(is_part);
    reveal_strlit("\n\n# Blocks until one job completes, then exits. The unit restarts us.\nexec ./run.sh\n");
    reveal_strlit("\nexec ./run.sh\n");
    assert("\n\n# Blocks until one job completes, then exits. The unit restarts us.\nexec ./run.sh\n"@.subrange(69, 84) =~= "\nexec ./run.sh\n"@);
    assert(occurs_at("\n\n# Blocks until one job completes, then exits. The unit restarts us.\nexec ./run.sh\n"@, "\nexec ./run.sh\n"@, 69));
}

/// A runner of a role that limits its jobs takes a lock before it registers, and
/// names the lowest limit of its runners; it is ephemeral where all of them are.
pub proof fn a_limited_runner_takes_a_lock(variant: Variant, i: int)
    ensures
        0 <= i < variant.runner@.len() && variant.runner@[i].concurrency is Some ==> ({
            let limit = least(variant.runner@, variant.runner@.len() as int);
            &&& limit is Some
            &&& limit.unwrap() <= variant.runner@[i].concurrency.unwrap()
            &&& exists|k: int|
                0 <= k < variant.runner@.len() && (#[trigger] variant.runner@[k]).concurrency == limit
            &&& holds(lock_text(variant), "flock --nonblock --exclusive \"$lock\" || {\n"@)
            &&& holds(
                lock_text(variant),
                decimal(limit.unwrap() as nat) + " job(s) already running; not registering\" >&2\n  exit 0\n}\n\n"@,
            )
        }),
        (forall|k: int| 0 <= k < variant.runner@.len() ==> (#[trigger] variant.runner@[k]).concurrency is None)
            ==> lock_text(variant).len() == 0,
        (forall|k: int| 0 <= k < variant.runner@.len() ==> (#[trigger] variant.runner@[k]).ephemeral)
            ==> ephemeral_text(variant) == " \\\n  --ephemeral"@,
        0 <= i < variant.runner@.len() && !variant.runner@[i].ephemeral ==> ephemeral_text(
            variant,
        ).len() == 0,
{
    let n = variant.runner@.len() as int;
    lemma_least(variant.runner@, n);
    if least(variant.runner@, n) is Some {
        let limit = least(variant.runner@, n).unwrap();
        let a = "# One measurement at a time, nothing else (§9.5). A flock rather than a\n# convention in a workflow, because a convention is not observable from\n# the node --- and §18's bench-contention alert is about exactly this.\nexec {lock}>/var/lock/cluster-runner\nflock --nonblock --exclusive \"$lock\" || {\n  echo \"runner: "@;
        let b = " job(s) already running; not registering\" >&2\n  exit 0\n}\n\n"@;
        let d = decimal(limit as nat);
        lemma_lock_line();
        let text = "flock --nonblock --exclusive \"$lock\" || {\n"@;
        reveal(is_part);
        lemma_part_left(a, d, text);
        lemma_part_left(a + d, b, text);
        assert(a + d + b =~= a + (d + b));
        lemma_whole(d + b);
        lemma_part_right(a, d + b, d + b);
    }
}

proof fn lemma_least(runners: Seq<Runner>, n: int)
    requires
        0 <= n <= runners.len(),
    ensures
        forall|k: int|
            0 <= k < n && (#[trigger] runners[k]).concurrency is Some ==> least(runners, n) is Some
                && least(runners, n).unwrap() <= runners[k].concurrency.unwrap(),
        least(runners, n) is Some ==> exists|k: int|
            0 <= k < n && (#[trigger] runners[k]).concurrency == least(runners, n),
    decreases n,
{
    if n > 0 {
        lemma_least(runners, n - 1);
        let before = least(runners, n - 1);
        let last = runners[n - 1].concurrency;
        if least(runners, n) is Some {
            if least(runners, n) == last {
                assert(runners[n - 1].concurrency == least(runners, n));
            } else {
                let k = choose|k: int|
                    0 <= k < n - 1 && (#[trigger] runners[k]).concurrency == before;
                assert(runners[k].concurrency == least(runners, n));
            }
        }
    }
}

proof fn lemma_lock_line()
    ensures
        is_part(
            "# One measurement at a time, nothing else (§9.5). A flock rather than a\n# convention in a workflow, because a convention is not observable from\n# the node --- and §18's bench-contention alert is about exactly this.\nexec {lock}>/var/lock/cluster-runner\nflock --nonblock --exclusive \"$lock\" || {\n  echo \"runner: "@,
            "flock --nonblock --exclusive \"$lock\" || {\n"@,
        ),
{
    reveal(is_part);
    reveal_strlit(
        "# One measurement at a time, nothing else (§9.5). A flock rather than a\n# convention in a workflow, because a convention is not observable from\n# the node --- and §18's bench-contention alert is about exactly this.\nexec {lock}>/var/lock/cluster-runner\nflock --nonblock --exclusive \"$lock\" || {\n  echo \"runner: ",
    );
    reveal_strlit("flock --nonblock --exclusive \"$lock\" || {\n");
    let all = "# One measurement at a time, nothing else (§9.5). A flock rather than a\n# convention in a workflow, because a convention is not observable from\n# the node --- and §18's bench-contention alert is about exactly this.\nexec {lock}>/var/lock/cluster-runner\nflock --nonblock --exclusive \"$lock\" || {\n  echo \"runner: "@;
    let line = "flock --nonblock --exclusive \"$lock\" || {\n"@;
    assert(all.subrange(252, 252 + line.len() as int) =~= line);
    assert(occurs_at(all, line, 252));
}

} // verus!
