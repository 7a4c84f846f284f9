//! Host policy the image applies: what is enrolled and where it lands, the SSH
//! daemon, SELinux, and the boot deadline with its attempt count.
use vstd::prelude::*;

use crate::model::Cluster;
use crate::policy::Secret;
use crate::render::{files, ids1, ids2, File, Rendered};
use crate::text::{
    chars_of,
    concat_all,
    concat_strings,
    decimal,
    decimal_of,
    same,
    string_of,
    views,
};
use crate::render::claims::{
    is_ours,
    is_part,
    is_tail,
    lemma_is_shown,
    lemma_shows,
    lemma_tail_grows,
    lemma_tail_right,
    shows,
};
use crate::render::render_all;
use crate::text::occurs_at;

verus! {

/// Where one secret goes.
pub open spec fn secret_line(c: Cluster, secret: Secret) -> Seq<char> {
    "# "@
        + secret.id@
        + " --- "@
        + secret.description@
        + ". Without it: "@
        + secret.enables@
        + " stays down.\nsecret="@
        + secret.id@
        + ":"@
        + secret.path@
        + ":"@
        + secret.mode@
        + ":"@
        + secret.apply@
        + ":"@
        + secret.format_spec()
        + "\n"@
}

fn secret_line_of(c: &Cluster, secret: &Secret) -> (r: String)
    ensures
        r@ == secret_line(*c, *secret),
{
    "# ".to_owned()
        .concat(secret.id.as_str())
        .concat(" --- ")
        .concat(secret.description.as_str())
        .concat(". Without it: ")
        .concat(secret.enables.as_str())
        .concat(" stays down.\nsecret=")
        .concat(secret.id.as_str())
        .concat(":")
        .concat(secret.path.as_str())
        .concat(":")
        .concat(secret.mode.as_str())
        .concat(":")
        .concat(secret.apply.as_str())
        .concat(":")
        .concat(secret.rendered_format().as_str())
        .concat("\n")
}

/// One text for each, in order.
pub open spec fn secret_lines(c: Cluster) -> Seq<Seq<char>> {
    let list = c.policy.secret@;
    Seq::new(list.len(), |i: int| secret_line(c, list[i]))
}

fn secret_lines_of(c: &Cluster) -> (out: Vec<String>)
    ensures
        views(out@) == secret_lines(*c),
{
    let list = &c.policy.secret;
    let ghost all = c.policy.secret@;
    let mut out: Vec<String> = Vec::new();
    let mut i: usize = 0;
    while i < list.len()
        invariant
            i <= list.len(),
            all == c.policy.secret@,
            list@ == all,
            out.len() == i,
            forall|k: int| 0 <= k < i ==> (#[trigger] out@[k])@ == secret_line(*c, all[k]),
        decreases list.len() - i,
    {
        proof {
            assert(all[i as int] == list@[i as int]);
        }
        out.push(secret_line_of(c, &list[i]));
        i = i + 1;
    }
    proof {
        assert(views(out@) =~= secret_lines(*c));
    }
    out
}

/// What an operator enters after the cluster boots, and where each value
/// lands. The values are in no artifact.
pub open spec fn enrolment_file(c: Cluster) -> File {
    File {
        path: "node/enrolment.conf"@,
        ids: seq!["CD-20"@],
        body: "# What an operator enters after the cluster boots, and where each value\n# lands (§12.2).\n#\n# None of these is in this repository and none is in the image. They\n# reach a node once, through the browser client over the LAN, authorized\n# by the GitHub App device flow --- the one credential that can be checked\n# without any of the others existing (§16.2).\n#\n# They were `@@PLACEHOLDER@@` names in the kickstart, substituted at ISO\n# build time from Actions secrets that did not exist. A node would have\n# installed the literal string as its authorized key and died at\n# `tailscale up --erroronfail`. And an ISO is a release artifact: a secret\n# put in one is published to whoever downloads it (§9.1).\n#\n# id:path:mode:apply:format --- an empty path means the value is spent by\n# applying it and deliberately not kept.\n\n"@
            + concat_all(secret_lines(c)),
    }
}

pub(crate) fn enrolment(c: &Cluster) -> (r: Rendered)
    ensures
        r@ == enrolment_file(*c),
{
    let path = "node/enrolment.conf".to_owned();
    let body = "# What an operator enters after the cluster boots, and where each value\n# lands (§12.2).\n#\n# None of these is in this repository and none is in the image. They\n# reach a node once, through the browser client over the LAN, authorized\n# by the GitHub App device flow --- the one credential that can be checked\n# without any of the others existing (§16.2).\n#\n# They were `@@PLACEHOLDER@@` names in the kickstart, substituted at ISO\n# build time from Actions secrets that did not exist. A node would have\n# installed the literal string as its authorized key and died at\n# `tailscale up --erroronfail`. And an ISO is a release artifact: a secret\n# put in one is published to whoever downloads it (§9.1).\n#\n# id:path:mode:apply:format --- an empty path means the value is spent by\n# applying it and deliberately not kept.\n\n".to_owned()
        .concat(concat_strings(&secret_lines_of(c)).as_str());
    Rendered::new(path, ids1("CD-20"), body)
}

/// Places the rendered hosts file at boot: an image build cannot write it.
pub open spec fn hosts_unit_file(c: Cluster) -> File {
    File {
        path: "node/systemd/cluster-hosts.service"@,
        ids: seq!["CD-04"@, "CD-14"@],
        body: "# Places the rendered hosts file (§4.3).\n#\n# /etc/hosts cannot be written by a container build: a RUN finds the path\n# bind-mounted and busy, and a COPY to it is silently dropped --- the image\n# builds clean and ships without the file. Both were observed. The content\n# therefore ships at /usr/lib/cluster/hosts, where nothing special-cases\n# it, and is placed here.\n#\n# This is the one thing this repository writes into /etc at runtime, and\n# it is a copy of an image file rather than anything computed on the node:\n# the three-way merge on update sees a value that only ever changes when\n# the image changes (§5.2).\n\n[Unit]\nDescription=Place the rendered hosts file\nBefore=network-pre.target nss-lookup.target\nWants=network-pre.target\nDefaultDependencies=no\nAfter=local-fs.target\nConditionPathExists=/usr/lib/cluster/hosts\n\n[Service]\nType=oneshot\nRemainAfterExit=yes\nExecStart=/usr/bin/install -m 0644 /usr/lib/cluster/hosts /etc/hosts\n\n[Install]\nWantedBy=sysinit.target\n\n"@,
    }
}

pub(crate) fn hosts_unit(c: &Cluster) -> (r: Rendered)
    ensures
        r@ == hosts_unit_file(*c),
{
    let path = "node/systemd/cluster-hosts.service".to_owned();
    let body = "# Places the rendered hosts file (§4.3).\n#\n# /etc/hosts cannot be written by a container build: a RUN finds the path\n# bind-mounted and busy, and a COPY to it is silently dropped --- the image\n# builds clean and ships without the file. Both were observed. The content\n# therefore ships at /usr/lib/cluster/hosts, where nothing special-cases\n# it, and is placed here.\n#\n# This is the one thing this repository writes into /etc at runtime, and\n# it is a copy of an image file rather than anything computed on the node:\n# the three-way merge on update sees a value that only ever changes when\n# the image changes (§5.2).\n\n[Unit]\nDescription=Place the rendered hosts file\nBefore=network-pre.target nss-lookup.target\nWants=network-pre.target\nDefaultDependencies=no\nAfter=local-fs.target\nConditionPathExists=/usr/lib/cluster/hosts\n\n[Service]\nType=oneshot\nRemainAfterExit=yes\nExecStart=/usr/bin/install -m 0644 /usr/lib/cluster/hosts /etc/hosts\n\n[Install]\nWantedBy=sysinit.target\n\n".to_owned();
    Rendered::new(path, ids2("CD-04", "CD-14"), body)
}

/// Points the packet filter at the rendered ruleset.
pub open spec fn nftables_dropin_file(c: Cluster) -> File {
    File {
        path: "node/systemd/nftables.service.d/10-cluster.conf"@,
        ids: seq!["CD-03"@, "CD-14"@],
        body: "# The packet filter loads its ruleset from the image rather than from /etc (§4.4).\n#\n# The rendered file is diff-gated under generated/; reading it where it was\n# shipped means the running ruleset and the reviewed one cannot differ by\n# anything that happened on the node.\n\n[Service]\nExecStart=\nExecStart=/usr/sbin/nft -f /usr/lib/cluster/nftables.conf\n\n"@,
    }
}

pub(crate) fn nftables_dropin(c: &Cluster) -> (r: Rendered)
    ensures
        r@ == nftables_dropin_file(*c),
{
    let path = "node/systemd/nftables.service.d/10-cluster.conf".to_owned();
    let body = "# The packet filter loads its ruleset from the image rather than from /etc (§4.4).\n#\n# The rendered file is diff-gated under generated/; reading it where it was\n# shipped means the running ruleset and the reviewed one cannot differ by\n# anything that happened on the node.\n\n[Service]\nExecStart=\nExecStart=/usr/sbin/nft -f /usr/lib/cluster/nftables.conf\n\n".to_owned();
    Rendered::new(path, ids2("CD-03", "CD-14"), body)
}

/// What SSH is told of something allowed or not.
pub open spec fn allowed(yes: bool) -> Seq<char> {
    if yes {
        "yes"@
    } else {
        "no"@
    }
}

fn allowed_of(yes: bool) -> (r: &'static str)
    ensures
        r@ == allowed(yes),
{
    if yes {
        "yes"
    } else {
        "no"
    }
}

/// What stands before the last `/` of a path.
pub open spec fn directory(path: Seq<char>) -> Option<Seq<char>>
    decreases path.len(),
{
    if path.len() == 0 {
        None
    } else if path.last() == '/' {
        Some(path.drop_last())
    } else {
        directory(path.drop_last())
    }
}

fn directory_of(path: &str) -> (r: Option<String>)
    ensures
        match r {
            Some(dir) => directory(path@) == Some(dir@),
            None => directory(path@) is None,
        },
{
    let text = chars_of(path);
    let mut at: usize = text.len();
    proof {
        assert(path@.take(at as int) =~= path@);
    }
    while at > 0
        invariant
            at <= text.len(),
            text@ == path@,
            directory(path@) == directory(path@.take(at as int)),
        decreases at,
    {
        proof {
            assert(path@.take(at as int).drop_last() =~= path@.take(at - 1));
        }
        if text[at - 1] == '/' {
            let dir = string_of(&text, 0, at - 1);
            proof {
                assert(dir@ =~= path@.take(at - 1));
            }
            return Some(dir);
        }
        at = at - 1;
    }
    None
}

/// The first secret from `i` on that is the operator's SSH key.
pub open spec fn key_from(secrets: Seq<Secret>, i: int) -> Option<Secret>
    decreases secrets.len() - i,
{
    if i < 0 || i >= secrets.len() {
        None
    } else if secrets[i].id@ == "ssh_authorized_key"@ {
        Some(secrets[i])
    } else {
        key_from(secrets, i + 1)
    }
}

/// Where SSH looks for an enrolled key, where one is stored: beside where it
/// lands.
pub open spec fn enrolled_keys(c: Cluster) -> Option<Seq<char>> {
    match key_from(c.policy.secret@, 0) {
        Some(secret) => if secret.path@.len() > 0 {
            match directory(secret.path@) {
                Some(dir) => Some(dir + "/%u"@),
                None => Some("/etc/ssh/authorized_keys.d"@ + "/%u"@),
            }
        } else {
            None
        },
        None => None,
    }
}

fn enrolled_keys_of(c: &Cluster) -> (r: Option<String>)
    ensures
        match r {
            Some(pattern) => enrolled_keys(*c) == Some(pattern@),
            None => enrolled_keys(*c) is None,
        },
{
    let secrets = &c.policy.secret;
    let mut i: usize = 0;
    while i < secrets.len()
        invariant
            i <= secrets.len(),
            secrets@ == c.policy.secret@,
            key_from(secrets@, 0) == key_from(secrets@, i as int),
        decreases secrets.len() - i,
    {
        if same(secrets[i].id.as_str(), "ssh_authorized_key") {
            if !secrets[i].is_stored() {
                return None;
            }
            return match directory_of(secrets[i].path.as_str()) {
                Some(dir) => Some(dir.concat("/%u")),
                None => Some("/etc/ssh/authorized_keys.d".to_owned().concat("/%u")),
            };
        }
        i = i + 1;
    }
    None
}

/// What SSH is told of enrolled keys.
pub open spec fn keys_text(c: Cluster) -> Seq<char> {
    match enrolled_keys(c) {
        Some(pattern) => "\n# Where an enrolled key lands, and therefore where sshd looks (§12.2).\n#\n# sshd's default is `.ssh/authorized_keys` and nothing else. Without this\n# line the key an operator enters through the browser goes somewhere sshd\n# never reads: the page says it was given and SSH still refuses --- a total\n# and silent failure of the way back in §16.5 keeps for when the control\n# plane is the thing that is wrong.\n#\n# The default is kept alongside it, so a key placed the ordinary way still\n# works.\nAuthorizedKeysFile .ssh/authorized_keys "@
            + pattern
            + "\n"@,
        None => Seq::empty(),
    }
}

fn keys(c: &Cluster) -> (r: String)
    ensures
        r@ == keys_text(*c),
{
    match enrolled_keys_of(c) {
        Some(pattern) => "\n# Where an enrolled key lands, and therefore where sshd looks (§12.2).\n#\n# sshd's default is `.ssh/authorized_keys` and nothing else. Without this\n# line the key an operator enters through the browser goes somewhere sshd\n# never reads: the page says it was given and SSH still refuses --- a total\n# and silent failure of the way back in §16.5 keeps for when the control\n# plane is the thing that is wrong.\n#\n# The default is kept alongside it, so a key placed the ordinary way still\n# works.\nAuthorizedKeysFile .ssh/authorized_keys ".to_owned()
            .concat(pattern.as_str())
            .concat("\n"),
        None => String::new(),
    }
}

/// Key-only SSH, and where it looks for an enrolled key.
pub open spec fn sshd_file(c: Cluster) -> File {
    let s = c.images.base.sshd;
    File {
        path: "node/sshd_config.d/10-cluster.conf"@,
        ids: seq!["CD-14"@, "CD-20"@],
        body: "# Key-only SSH. A password-accepting sshd on a node that reboots\n# unattended is an invitation, and there is no operator present to notice\n# (§8.1).\n#\n# Rendered rather than written into the Containerfile: the model declares\n# these, and a build that also declared them would give one decision two\n# sources --- with the failure being an sshd that accepts passwords under a\n# model that says it does not.\n\nPasswordAuthentication "@
            + allowed(s.password_authentication)
            + "\nKbdInteractiveAuthentication "@
            + allowed(s.kbd_interactive_authentication)
            + "\nPermitRootLogin "@
            + s.permit_root_login@
            + "\n"@
            + keys_text(c),
    }
}

pub(crate) fn sshd(c: &Cluster) -> (r: Rendered)
    ensures
        r@ == sshd_file(*c),
{
    let s = &c.images.base.sshd;
    let path = "node/sshd_config.d/10-cluster.conf".to_owned();
    let body = "# Key-only SSH. A password-accepting sshd on a node that reboots\n# unattended is an invitation, and there is no operator present to notice\n# (§8.1).\n#\n# Rendered rather than written into the Containerfile: the model declares\n# these, and a build that also declared them would give one decision two\n# sources --- with the failure being an sshd that accepts passwords under a\n# model that says it does not.\n\nPasswordAuthentication ".to_owned()
        .concat(allowed_of(s.password_authentication))
        .concat("\nKbdInteractiveAuthentication ")
        .concat(allowed_of(s.kbd_interactive_authentication))
        .concat("\nPermitRootLogin ")
        .concat(s.permit_root_login.as_str())
        .concat("\n")
        .concat(keys(c).as_str());
    Rendered::new(path, ids2("CD-14", "CD-20"), body)
}

/// SELinux, enforcing, and it stays that way.
pub open spec fn selinux_file(c: Cluster) -> File {
    let s = c.images.base.selinux;
    File {
        path: "node/selinux/config"@,
        ids: seq!["CD-14"@, "CB-03"@],
        body: "# SELinux: enforcing, targeted, and it stays that way (§8.3).\n#\n# The custom module is compiled at "@
            + s.compile_at@
            + " time and shipped in\n# /usr/share/selinux/. Nothing compiles policy at runtime: root is\n# read-only, and a policy build on a running node would be a write to a\n# filesystem that does not take writes.\n\nSELINUX="@
            + s.mode@
            + "\nSELINUXTYPE="@
            + s.policy_type@
            + "\n"@,
    }
}

pub(crate) fn selinux(c: &Cluster) -> (r: Rendered)
    ensures
        r@ == selinux_file(*c),
{
    let s = &c.images.base.selinux;
    let path = "node/selinux/config".to_owned();
    let body = "# SELinux: enforcing, targeted, and it stays that way (§8.3).\n#\n# The custom module is compiled at ".to_owned()
        .concat(s.compile_at.as_str())
        .concat(" time and shipped in\n# /usr/share/selinux/. Nothing compiles policy at runtime: root is\n# read-only, and a policy build on a running node would be a write to a\n# filesystem that does not take writes.\n\nSELINUX=")
        .concat(s.mode.as_str())
        .concat("\nSELINUXTYPE=")
        .concat(s.policy_type.as_str())
        .concat("\n");
    Rendered::new(path, ids2("CD-14", "CB-03"), body)
}

/// The boot deadline and its attempt count.
pub open spec fn greenboot_file(c: Cluster) -> File {
    let g = c.policy.greenboot;
    File {
        path: "node/greenboot.conf"@,
        ids: seq!["CD-14"@],
        body: "# greenboot. The boot is declared successful only if the health\n# predicate passes within "@
            + decimal(g.deadline_s as nat)
            + "s; on failure the previous ostree deployment is\n# restored automatically and the node reboots into it (§13.3).\n#\n# The attempt count is what bounds the loop. A deadline without one is a\n# node that rolls back, boots the previous deployment, and --- if that is\n# also unhealthy for an unrelated reason --- keeps trying. Past "@
            + decimal(g.max_boot_attempts as nat)
            + " attempts\n# the previous deployment stands and the alert is the operator's signal.\n\nGREENBOOT_MAX_BOOT_ATTEMPTS="@
            + decimal(g.max_boot_attempts as nat)
            + "\nGREENBOOT_HEALTHCHECK_TIMEOUT="@
            + decimal(g.deadline_s as nat)
            + "\n"@,
    }
}

pub(crate) fn greenboot(c: &Cluster) -> (r: Rendered)
    ensures
        r@ == greenboot_file(*c),
{
    let g = &c.policy.greenboot;
    let path = "node/greenboot.conf".to_owned();
    let body = "# greenboot. The boot is declared successful only if the health\n# predicate passes within ".to_owned()
        .concat(decimal_of(g.deadline_s as u64).as_str())
        .concat("s; on failure the previous ostree deployment is\n# restored automatically and the node reboots into it (§13.3).\n#\n# The attempt count is what bounds the loop. A deadline without one is a\n# node that rolls back, boots the previous deployment, and --- if that is\n# also unhealthy for an unrelated reason --- keeps trying. Past ")
        .concat(decimal_of(g.max_boot_attempts as u64).as_str())
        .concat(" attempts\n# the previous deployment stands and the alert is the operator's signal.\n\nGREENBOOT_MAX_BOOT_ATTEMPTS=")
        .concat(decimal_of(g.max_boot_attempts as u64).as_str())
        .concat("\nGREENBOOT_HEALTHCHECK_TIMEOUT=")
        .concat(decimal_of(g.deadline_s as u64).as_str())
        .concat("\n");
    Rendered::new(path, ids1("CD-14"), body)
}

/// Host policy.
pub open spec fn host_files(c: Cluster) -> Seq<File> {
    seq![enrolment_file(c), sshd_file(c), selinux_file(c), greenboot_file(c), hosts_unit_file(c), nftables_dropin_file(c)]
}

/// Host policy.
pub(crate) fn render(c: &Cluster) -> (out: Vec<Rendered>)
    ensures
        files(out@) == host_files(*c),
{
    let out = vec![enrolment(c), sshd(c), selinux(c), greenboot(c), hosts_unit(c), nftables_dropin(c)];
    proof {
        assert(files(out@) =~= host_files(*c));
    }
    out
}

// ---- laws of the files ----

/// Host policy is given.
proof fn lemma_host_files(c: Cluster)
    ensures
        is_ours(c, enrolment_file(c)),
        is_ours(c, sshd_file(c)),
        is_ours(c, selinux_file(c)),
        is_ours(c, greenboot_file(c)),
        is_ours(c, hosts_unit_file(c)),
        is_ours(c, nftables_dropin_file(c)),
{
    reveal(is_ours);
    let all = host_files(c);
    assert(all.contains(all[0]));
    assert(all.contains(all[1]));
    assert(all.contains(all[2]));
    assert(all.contains(all[3]));
    assert(all.contains(all[4]));
    assert(all.contains(all[5]));
}

/// Who may log in, and how, is as the model declares.
pub proof fn logins_are_as_the_model_declares(c: Cluster, out: Vec<Rendered>)
    requires
        call_ensures(render_all, (&c,), out),
    ensures
        ({
            let s = c.images.base.sshd;
            let path = "node/sshd_config.d/10-cluster.conf"@;
            &&& shows(out@, path, "\nPasswordAuthentication "@ + allowed(s.password_authentication) + "\nKbdInteractiveAuthentication "@ + allowed(s.kbd_interactive_authentication) + "\nPermitRootLogin "@ + s.permit_root_login@ + "\n"@ + keys_text(c))
        }),
{
    let s = c.images.base.sshd;
    let file = sshd_file(c);
    lemma_host_files(c);
    lemma_is_shown(c, out, file);
    let t0 = "# Key-only SSH. A password-accepting sshd on a node that reboots\n# unattended is an invitation, and there is no operator present to notice\n# (§8.1).\n#\n# Rendered rather than written into the Containerfile: the model declares\n# these, and a build that also declared them would give one decision two\n# sources --- with the failure being an sshd that accepts passwords under a\n# model that says it does not.\n\nPasswordAuthentication "@;
    let b0 = t0;
    let t1 = allowed(s.password_authentication);
    let b1 = b0 + t1;
    let t2 = "\nKbdInteractiveAuthentication "@;
    let b2 = b1 + t2;
    let t3 = allowed(s.kbd_interactive_authentication);
    let b3 = b2 + t3;
    let t4 = "\nPermitRootLogin "@;
    let b4 = b3 + t4;
    let t5 = s.permit_root_login@;
    let b5 = b4 + t5;
    let t6 = "\n"@;
    let b6 = b5 + t6;
    let t7 = keys_text(c);
    let b7 = b6 + t7;
    lemma_sshd_file_0();
    let q0 = "\nPasswordAuthentication "@;
    lemma_tail_grows(b0, q0, t1);
    let q1 = q0 + t1;
    lemma_tail_grows(b1, q1, t2);
    let q2 = q1 + t2;
    lemma_tail_grows(b2, q2, t3);
    let q3 = q2 + t3;
    lemma_tail_grows(b3, q3, t4);
    let q4 = q3 + t4;
    lemma_tail_grows(b4, q4, t5);
    let q5 = q4 + t5;
    lemma_tail_grows(b5, q5, t6);
    let q6 = q5 + t6;
    lemma_tail_grows(b6, q6, t7);
    let q7 = q6 + t7;
    let text = q7;
    lemma_shows(out@, file, text);
}

proof fn lemma_sshd_file_0()
    ensures
        is_tail("# Key-only SSH. A password-accepting sshd on a node that reboots\n# unattended is an invitation, and there is no operator present to notice\n# (§8.1).\n#\n# Rendered rather than written into the Containerfile: the model declares\n# these, and a build that also declared them would give one decision two\n# sources --- with the failure being an sshd that accepts passwords under a\n# model that says it does not.\n\nPasswordAuthentication "@, "\nPasswordAuthentication "@),
{
    reveal(is_tail);
    reveal_strlit("# Key-only SSH. A password-accepting sshd on a node that reboots\n# unattended is an invitation, and there is no operator present to notice\n# (§8.1).\n#\n# Rendered rather than written into the Containerfile: the model declares\n# these, and a build that also declared them would give one decision two\n# sources --- with the failure being an sshd that accepts passwords under a\n# model that says it does not.\n\nPasswordAuthentication ");
    reveal_strlit("\nPasswordAuthentication ");
    assert("# Key-only SSH. A password-accepting sshd on a node that reboots\n# unattended is an invitation, and there is no operator present to notice\n# (§8.1).\n#\n# Rendered rather than written into the Containerfile: the model declares\n# these, and a build that also declared them would give one decision two\n# sources --- with the failure being an sshd that accepts passwords under a\n# model that says it does not.\n\nPasswordAuthentication "@.subrange(405, 429) =~= "\nPasswordAuthentication "@);
}

/// The mode and the policy of the host are those of the model.
pub proof fn the_mode_of_the_host_is_declared(c: Cluster, out: Vec<Rendered>)
    requires
        call_ensures(render_all, (&c,), out),
    ensures
        ({
            let s = c.images.base.selinux;
            let path = "node/selinux/config"@;
            &&& shows(out@, path, "\nSELINUX="@ + s.mode@ + "\nSELINUXTYPE="@ + s.policy_type@ + "\n"@)
        }),
{
    let s = c.images.base.selinux;
    let file = selinux_file(c);
    lemma_host_files(c);
    lemma_is_shown(c, out, file);
    let t0 = "# SELinux: enforcing, targeted, and it stays that way (§8.3).\n#\n# The custom module is compiled at "@;
    let b0 = t0;
    let t1 = s.compile_at@;
    let b1 = b0 + t1;
    let t2 = " time and shipped in\n# /usr/share/selinux/. Nothing compiles policy at runtime: root is\n# read-only, and a policy build on a running node would be a write to a\n# filesystem that does not take writes.\n\nSELINUX="@;
    let b2 = b1 + t2;
    let t3 = s.mode@;
    let b3 = b2 + t3;
    let t4 = "\nSELINUXTYPE="@;
    let b4 = b3 + t4;
    let t5 = s.policy_type@;
    let b5 = b4 + t5;
    let t6 = "\n"@;
    let b6 = b5 + t6;
    lemma_selinux_file_0();
    let q2 = "\nSELINUX="@;
    lemma_tail_right(b1, t2, q2);
    lemma_tail_grows(b2, q2, t3);
    let q3 = q2 + t3;
    lemma_tail_grows(b3, q3, t4);
    let q4 = q3 + t4;
    lemma_tail_grows(b4, q4, t5);
    let q5 = q4 + t5;
    lemma_tail_grows(b5, q5, t6);
    let q6 = q5 + t6;
    let text = q6;
    lemma_shows(out@, file, text);
}

proof fn lemma_selinux_file_0()
    ensures
        is_tail(" time and shipped in\n# /usr/share/selinux/. Nothing compiles policy at runtime: root is\n# read-only, and a policy build on a running node would be a write to a\n# filesystem that does not take writes.\n\nSELINUX="@, "\nSELINUX="@),
{
    reveal(is_tail);
    reveal_strlit(" time and shipped in\n# /usr/share/selinux/. Nothing compiles policy at runtime: root is\n# read-only, and a policy build on a running node would be a write to a\n# filesystem that does not take writes.\n\nSELINUX=");
    reveal_strlit("\nSELINUX=");
    assert(" time and shipped in\n# /usr/share/selinux/. Nothing compiles policy at runtime: root is\n# read-only, and a policy build on a running node would be a write to a\n# filesystem that does not take writes.\n\nSELINUX="@.subrange(200, 209) =~= "\nSELINUX="@);
}

/// A boot is tried as often as the policy says.
pub proof fn boots_are_tried_as_the_policy_says(c: Cluster, out: Vec<Rendered>)
    requires
        call_ensures(render_all, (&c,), out),
    ensures
        ({
            let g = c.policy.greenboot;
            let path = "node/greenboot.conf"@;
            &&& shows(out@, path, "\nGREENBOOT_MAX_BOOT_ATTEMPTS="@ + decimal(g.max_boot_attempts as nat) + "\nGREENBOOT_HEALTHCHECK_TIMEOUT="@ + decimal(g.deadline_s as nat) + "\n"@)
        }),
{
    let g = c.policy.greenboot;
    let file = greenboot_file(c);
    lemma_host_files(c);
    lemma_is_shown(c, out, file);
    let t0 = "# greenboot. The boot is declared successful only if the health\n# predicate passes within "@;
    let b0 = t0;
    let t1 = decimal(g.deadline_s as nat);
    let b1 = b0 + t1;
    let t2 = "s; on failure the previous ostree deployment is\n# restored automatically and the node reboots into it (§13.3).\n#\n# The attempt count is what bounds the loop. A deadline without one is a\n# node that rolls back, boots the previous deployment, and --- if that is\n# also unhealthy for an unrelated reason --- keeps trying. Past "@;
    let b2 = b1 + t2;
    let t3 = decimal(g.max_boot_attempts as nat);
    let b3 = b2 + t3;
    let t4 = " attempts\n# the previous deployment stands and the alert is the operator's signal.\n\nGREENBOOT_MAX_BOOT_ATTEMPTS="@;
    let b4 = b3 + t4;
    let t5 = decimal(g.max_boot_attempts as nat);
    let b5 = b4 + t5;
    let t6 = "\nGREENBOOT_HEALTHCHECK_TIMEOUT="@;
    let b6 = b5 + t6;
    let t7 = decimal(g.deadline_s as nat);
    let b7 = b6 + t7;
    let t8 = "\n"@;
    let b8 = b7 + t8;
    lemma_greenboot_file_0();
    let q4 = "\nGREENBOOT_MAX_BOOT_ATTEMPTS="@;
    lemma_tail_right(b3, t4, q4);
    lemma_tail_grows(b4, q4, t5);
    let q5 = q4 + t5;
    lemma_tail_grows(b5, q5, t6);
    let q6 = q5 + t6;
    lemma_tail_grows(b6, q6, t7);
    let q7 = q6 + t7;
    lemma_tail_grows(b7, q7, t8);
    let q8 = q7 + t8;
    let text = q8;
    lemma_shows(out@, file, text);
}

proof fn lemma_greenboot_file_0()
    ensures
        is_tail(" attempts\n# the previous deployment stands and the alert is the operator's signal.\n\nGREENBOOT_MAX_BOOT_ATTEMPTS="@, "\nGREENBOOT_MAX_BOOT_ATTEMPTS="@),
{
    reveal(is_tail);
    reveal_strlit(" attempts\n# the previous deployment stands and the alert is the operator's signal.\n\nGREENBOOT_MAX_BOOT_ATTEMPTS=");
    reveal_strlit("\nGREENBOOT_MAX_BOOT_ATTEMPTS=");
    assert(" attempts\n# the previous deployment stands and the alert is the operator's signal.\n\nGREENBOOT_MAX_BOOT_ATTEMPTS="@.subrange(83, 112) =~= "\nGREENBOOT_MAX_BOOT_ATTEMPTS="@);
}

/// Names are in place before what resolves them.
pub proof fn names_are_in_place_before_the_network(c: Cluster, out: Vec<Rendered>)
    requires
        call_ensures(render_all, (&c,), out),
    ensures
        ({
            let path = "node/systemd/cluster-hosts.service"@;
            &&& shows(out@, path, "\n[Unit]\nDescription=Place the rendered hosts file\nBefore=network-pre.target nss-lookup.target\nWants=network-pre.target\nDefaultDependencies=no\nAfter=local-fs.target\nConditionPathExists=/usr/lib/cluster/hosts\n"@)
            &&& shows(out@, path, "\n[Service]\nType=oneshot\nRemainAfterExit=yes\nExecStart=/usr/bin/install -m 0644 /usr/lib/cluster/hosts /etc/hosts\n"@)
            &&& shows(out@, path, "\n[Install]\nWantedBy=sysinit.target\n"@)
        }),
{
    let file = hosts_unit_file(c);
    lemma_host_files(c);
    lemma_is_shown(c, out, file);
    let t0 = "# Places the rendered hosts file (§4.3).\n#\n# /etc/hosts cannot be written by a container build: a RUN finds the path\n# bind-mounted and busy, and a COPY to it is silently dropped --- the image\n# builds clean and ships without the file. Both were observed. The content\n# therefore ships at /usr/lib/cluster/hosts, where nothing special-cases\n# it, and is placed here.\n#\n# This is the one thing this repository writes into /etc at runtime, and\n# it is a copy of an image file rather than anything computed on the node:\n# the three-way merge on update sees a value that only ever changes when\n# the image changes (§5.2).\n\n[Unit]\nDescription=Place the rendered hosts file\nBefore=network-pre.target nss-lookup.target\nWants=network-pre.target\nDefaultDependencies=no\nAfter=local-fs.target\nConditionPathExists=/usr/lib/cluster/hosts\n\n[Service]\nType=oneshot\nRemainAfterExit=yes\nExecStart=/usr/bin/install -m 0644 /usr/lib/cluster/hosts /etc/hosts\n\n[Install]\nWantedBy=sysinit.target\n\n"@;
    let b0 = t0;
    lemma_hosts_unit_file_0();
    let text = "\n[Unit]\nDescription=Place the rendered hosts file\nBefore=network-pre.target nss-lookup.target\nWants=network-pre.target\nDefaultDependencies=no\nAfter=local-fs.target\nConditionPathExists=/usr/lib/cluster/hosts\n"@;
    lemma_shows(out@, file, text);
    lemma_hosts_unit_file_1();
    let text = "\n[Service]\nType=oneshot\nRemainAfterExit=yes\nExecStart=/usr/bin/install -m 0644 /usr/lib/cluster/hosts /etc/hosts\n"@;
    lemma_shows(out@, file, text);
    lemma_hosts_unit_file_2();
    let text = "\n[Install]\nWantedBy=sysinit.target\n"@;
    lemma_shows(out@, file, text);
}

proof fn lemma_hosts_unit_file_0()
    ensures
        is_part("# Places the rendered hosts file (§4.3).\n#\n# /etc/hosts cannot be written by a container build: a RUN finds the path\n# bind-mounted and busy, and a COPY to it is silently dropped --- the image\n# builds clean and ships without the file. Both were observed. The content\n# therefore ships at /usr/lib/cluster/hosts, where nothing special-cases\n# it, and is placed here.\n#\n# This is the one thing this repository writes into /etc at runtime, and\n# it is a copy of an image file rather than anything computed on the node:\n# the three-way merge on update sees a value that only ever changes when\n# the image changes (§5.2).\n\n[Unit]\nDescription=Place the rendered hosts file\nBefore=network-pre.target nss-lookup.target\nWants=network-pre.target\nDefaultDependencies=no\nAfter=local-fs.target\nConditionPathExists=/usr/lib/cluster/hosts\n\n[Service]\nType=oneshot\nRemainAfterExit=yes\nExecStart=/usr/bin/install -m 0644 /usr/lib/cluster/hosts /etc/hosts\n\n[Install]\nWantedBy=sysinit.target\n\n"@, "\n[Unit]\nDescription=Place the rendered hosts file\nBefore=network-pre.target nss-lookup.target\nWants=network-pre.target\nDefaultDependencies=no\nAfter=local-fs.target\nConditionPathExists=/usr/lib/cluster/hosts\n"@),
{
    reveal(is_part);
    reveal_strlit("# Places the rendered hosts file (§4.3).\n#\n# /etc/hosts cannot be written by a container build: a RUN finds the path\n# bind-mounted and busy, and a COPY to it is silently dropped --- the image\n# builds clean and ships without the file. Both were observed. The content\n# therefore ships at /usr/lib/cluster/hosts, where nothing special-cases\n# it, and is placed here.\n#\n# This is the one thing this repository writes into /etc at runtime, and\n# it is a copy of an image file rather than anything computed on the node:\n# the three-way merge on update sees a value that only ever changes when\n# the image changes (§5.2).\n\n[Unit]\nDescription=Place the rendered hosts file\nBefore=network-pre.target nss-lookup.target\nWants=network-pre.target\nDefaultDependencies=no\nAfter=local-fs.target\nConditionPathExists=/usr/lib/cluster/hosts\n\n[Service]\nType=oneshot\nRemainAfterExit=yes\nExecStart=/usr/bin/install -m 0644 /usr/lib/cluster/hosts /etc/hosts\n\n[Install]\nWantedBy=sysinit.target\n\n");
    reveal_strlit("\n[Unit]\nDescription=Place the rendered hosts file\nBefore=network-pre.target nss-lookup.target\nWants=network-pre.target\nDefaultDependencies=no\nAfter=local-fs.target\nConditionPathExists=/usr/lib/cluster/hosts\n");
    assert("# Places the rendered hosts file (§4.3).\n#\n# /etc/hosts cannot be written by a container build: a RUN finds the path\n# bind-mounted and busy, and a COPY to it is silently dropped --- the image\n# builds clean and ships without the file. Both were observed. The content\n# therefore ships at /usr/lib/cluster/hosts, where nothing special-cases\n# it, and is placed here.\n#\n# This is the one thing this repository writes into /etc at runtime, and\n# it is a copy of an image file rather than anything computed on the node:\n# the three-way merge on update sees a value that only ever changes when\n# the image changes (§5.2).\n\n[Unit]\nDescription=Place the rendered hosts file\nBefore=network-pre.target nss-lookup.target\nWants=network-pre.target\nDefaultDependencies=no\nAfter=local-fs.target\nConditionPathExists=/usr/lib/cluster/hosts\n\n[Service]\nType=oneshot\nRemainAfterExit=yes\nExecStart=/usr/bin/install -m 0644 /usr/lib/cluster/hosts /etc/hosts\n\n[Install]\nWantedBy=sysinit.target\n\n"@.subrange(618, 825) =~= "\n[Unit]\nDescription=Place the rendered hosts file\nBefore=network-pre.target nss-lookup.target\nWants=network-pre.target\nDefaultDependencies=no\nAfter=local-fs.target\nConditionPathExists=/usr/lib/cluster/hosts\n"@);
    assert(occurs_at("# Places the rendered hosts file (§4.3).\n#\n# /etc/hosts cannot be written by a container build: a RUN finds the path\n# bind-mounted and busy, and a COPY to it is silently dropped --- the image\n# builds clean and ships without the file. Both were observed. The content\n# therefore ships at /usr/lib/cluster/hosts, where nothing special-cases\n# it, and is placed here.\n#\n# This is the one thing this repository writes into /etc at runtime, and\n# it is a copy of an image file rather than anything computed on the node:\n# the three-way merge on update sees a value that only ever changes when\n# the image changes (§5.2).\n\n[Unit]\nDescription=Place the rendered hosts file\nBefore=network-pre.target nss-lookup.target\nWants=network-pre.target\nDefaultDependencies=no\nAfter=local-fs.target\nConditionPathExists=/usr/lib/cluster/hosts\n\n[Service]\nType=oneshot\nRemainAfterExit=yes\nExecStart=/usr/bin/install -m 0644 /usr/lib/cluster/hosts /etc/hosts\n\n[Install]\nWantedBy=sysinit.target\n\n"@, "\n[Unit]\nDescription=Place the rendered hosts file\nBefore=network-pre.target nss-lookup.target\nWants=network-pre.target\nDefaultDependencies=no\nAfter=local-fs.target\nConditionPathExists=/usr/lib/cluster/hosts\n"@, 618));
}

proof fn lemma_hosts_unit_file_1()
    ensures
        is_part("# Places the rendered hosts file (§4.3).\n#\n# /etc/hosts cannot be written by a container build: a RUN finds the path\n# bind-mounted and busy, and a COPY to it is silently dropped --- the image\n# builds clean and ships without the file. Both were observed. The content\n# therefore ships at /usr/lib/cluster/hosts, where nothing special-cases\n# it, and is placed here.\n#\n# This is the one thing this repository writes into /etc at runtime, and\n# it is a copy of an image file rather than anything computed on the node:\n# the three-way merge on update sees a value that only ever changes when\n# the image changes (§5.2).\n\n[Unit]\nDescription=Place the rendered hosts file\nBefore=network-pre.target nss-lookup.target\nWants=network-pre.target\nDefaultDependencies=no\nAfter=local-fs.target\nConditionPathExists=/usr/lib/cluster/hosts\n\n[Service]\nType=oneshot\nRemainAfterExit=yes\nExecStart=/usr/bin/install -m 0644 /usr/lib/cluster/hosts /etc/hosts\n\n[Install]\nWantedBy=sysinit.target\n\n"@, "\n[Service]\nType=oneshot\nRemainAfterExit=yes\nExecStart=/usr/bin/install -m 0644 /usr/lib/cluster/hosts /etc/hosts\n"@),
{
    reveal(is_part);
    reveal_strlit("# Places the rendered hosts file (§4.3).\n#\n# /etc/hosts cannot be written by a container build: a RUN finds the path\n# bind-mounted and busy, and a COPY to it is silently dropped --- the image\n# builds clean and ships without the file. Both were observed. The content\n# therefore ships at /usr/lib/cluster/hosts, where nothing special-cases\n# it, and is placed here.\n#\n# This is the one thing this repository writes into /etc at runtime, and\n# it is a copy of an image file rather than anything computed on the node:\n# the three-way merge on update sees a value that only ever changes when\n# the image changes (§5.2).\n\n[Unit]\nDescription=Place the rendered hosts file\nBefore=network-pre.target nss-lookup.target\nWants=network-pre.target\nDefaultDependencies=no\nAfter=local-fs.target\nConditionPathExists=/usr/lib/cluster/hosts\n\n[Service]\nType=oneshot\nRemainAfterExit=yes\nExecStart=/usr/bin/install -m 0644 /usr/lib/cluster/hosts /etc/hosts\n\n[Install]\nWantedBy=sysinit.target\n\n");
    reveal_strlit("\n[Service]\nType=oneshot\nRemainAfterExit=yes\nExecStart=/usr/bin/install -m 0644 /usr/lib/cluster/hosts /etc/hosts\n");
    assert("# Places the rendered hosts file (§4.3).\n#\n# /etc/hosts cannot be written by a container build: a RUN finds the path\n# bind-mounted and busy, and a COPY to it is silently dropped --- the image\n# builds clean and ships without the file. Both were observed. The content\n# therefore ships at /usr/lib/cluster/hosts, where nothing special-cases\n# it, and is placed here.\n#\n# This is the one thing this repository writes into /etc at runtime, and\n# it is a copy of an image file rather than anything computed on the node:\n# the three-way merge on update sees a value that only ever changes when\n# the image changes (§5.2).\n\n[Unit]\nDescription=Place the rendered hosts file\nBefore=network-pre.target nss-lookup.target\nWants=network-pre.target\nDefaultDependencies=no\nAfter=local-fs.target\nConditionPathExists=/usr/lib/cluster/hosts\n\n[Service]\nType=oneshot\nRemainAfterExit=yes\nExecStart=/usr/bin/install -m 0644 /usr/lib/cluster/hosts /etc/hosts\n\n[Install]\nWantedBy=sysinit.target\n\n"@.subrange(825, 938) =~= "\n[Service]\nType=oneshot\nRemainAfterExit=yes\nExecStart=/usr/bin/install -m 0644 /usr/lib/cluster/hosts /etc/hosts\n"@);
    assert(occurs_at("# Places the rendered hosts file (§4.3).\n#\n# /etc/hosts cannot be written by a container build: a RUN finds the path\n# bind-mounted and busy, and a COPY to it is silently dropped --- the image\n# builds clean and ships without the file. Both were observed. The content\n# therefore ships at /usr/lib/cluster/hosts, where nothing special-cases\n# it, and is placed here.\n#\n# This is the one thing this repository writes into /etc at runtime, and\n# it is a copy of an image file rather than anything computed on the node:\n# the three-way merge on update sees a value that only ever changes when\n# the image changes (§5.2).\n\n[Unit]\nDescription=Place the rendered hosts file\nBefore=network-pre.target nss-lookup.target\nWants=network-pre.target\nDefaultDependencies=no\nAfter=local-fs.target\nConditionPathExists=/usr/lib/cluster/hosts\n\n[Service]\nType=oneshot\nRemainAfterExit=yes\nExecStart=/usr/bin/install -m 0644 /usr/lib/cluster/hosts /etc/hosts\n\n[Install]\nWantedBy=sysinit.target\n\n"@, "\n[Service]\nType=oneshot\nRemainAfterExit=yes\nExecStart=/usr/bin/install -m 0644 /usr/lib/cluster/hosts /etc/hosts\n"@, 825));
}

proof fn lemma_hosts_unit_file_2()
    ensures
        is_part("# Places the rendered hosts file (§4.3).\n#\n# /etc/hosts cannot be written by a container build: a RUN finds the path\n# bind-mounted and busy, and a COPY to it is silently dropped --- the image\n# builds clean and ships without the file. Both were observed. The content\n# therefore ships at /usr/lib/cluster/hosts, where nothing special-cases\n# it, and is placed here.\n#\n# This is the one thing this repository writes into /etc at runtime, and\n# it is a copy of an image file rather than anything computed on the node:\n# the three-way merge on update sees a value that only ever changes when\n# the image changes (§5.2).\n\n[Unit]\nDescription=Place the rendered hosts file\nBefore=network-pre.target nss-lookup.target\nWants=network-pre.target\nDefaultDependencies=no\nAfter=local-fs.target\nConditionPathExists=/usr/lib/cluster/hosts\n\n[Service]\nType=oneshot\nRemainAfterExit=yes\nExecStart=/usr/bin/install -m 0644 /usr/lib/cluster/hosts /etc/hosts\n\n[Install]\nWantedBy=sysinit.target\n\n"@, "\n[Install]\nWantedBy=sysinit.target\n"@),
{
    reveal(is_part);
    reveal_strlit("# Places the rendered hosts file (§4.3).\n#\n# /etc/hosts cannot be written by a container build: a RUN finds the path\n# bind-mounted and busy, and a COPY to it is silently dropped --- the image\n# builds clean and ships without the file. Both were observed. The content\n# therefore ships at /usr/lib/cluster/hosts, where nothing special-cases\n# it, and is placed here.\n#\n# This is the one thing this repository writes into /etc at runtime, and\n# it is a copy of an image file rather than anything computed on the node:\n# the three-way merge on update sees a value that only ever changes when\n# the image changes (§5.2).\n\n[Unit]\nDescription=Place the rendered hosts file\nBefore=network-pre.target nss-lookup.target\nWants=network-pre.target\nDefaultDependencies=no\nAfter=local-fs.target\nConditionPathExists=/usr/lib/cluster/hosts\n\n[Service]\nType=oneshot\nRemainAfterExit=yes\nExecStart=/usr/bin/install -m 0644 /usr/lib/cluster/hosts /etc/hosts\n\n[Install]\nWantedBy=sysinit.target\n\n");
    reveal_strlit("\n[Install]\nWantedBy=sysinit.target\n");
    assert("# Places the rendered hosts file (§4.3).\n#\n# /etc/hosts cannot be written by a container build: a RUN finds the path\n# bind-mounted and busy, and a COPY to it is silently dropped --- the image\n# builds clean and ships without the file. Both were observed. The content\n# therefore ships at /usr/lib/cluster/hosts, where nothing special-cases\n# it, and is placed here.\n#\n# This is the one thing this repository writes into /etc at runtime, and\n# it is a copy of an image file rather than anything computed on the node:\n# the three-way merge on update sees a value that only ever changes when\n# the image changes (§5.2).\n\n[Unit]\nDescription=Place the rendered hosts file\nBefore=network-pre.target nss-lookup.target\nWants=network-pre.target\nDefaultDependencies=no\nAfter=local-fs.target\nConditionPathExists=/usr/lib/cluster/hosts\n\n[Service]\nType=oneshot\nRemainAfterExit=yes\nExecStart=/usr/bin/install -m 0644 /usr/lib/cluster/hosts /etc/hosts\n\n[Install]\nWantedBy=sysinit.target\n\n"@.subrange(938, 973) =~= "\n[Install]\nWantedBy=sysinit.target\n"@);
    assert(occurs_at("# Places the rendered hosts file (§4.3).\n#\n# /etc/hosts cannot be written by a container build: a RUN finds the path\n# bind-mounted and busy, and a COPY to it is silently dropped --- the image\n# builds clean and ships without the file. Both were observed. The content\n# therefore ships at /usr/lib/cluster/hosts, where nothing special-cases\n# it, and is placed here.\n#\n# This is the one thing this repository writes into /etc at runtime, and\n# it is a copy of an image file rather than anything computed on the node:\n# the three-way merge on update sees a value that only ever changes when\n# the image changes (§5.2).\n\n[Unit]\nDescription=Place the rendered hosts file\nBefore=network-pre.target nss-lookup.target\nWants=network-pre.target\nDefaultDependencies=no\nAfter=local-fs.target\nConditionPathExists=/usr/lib/cluster/hosts\n\n[Service]\nType=oneshot\nRemainAfterExit=yes\nExecStart=/usr/bin/install -m 0644 /usr/lib/cluster/hosts /etc/hosts\n\n[Install]\nWantedBy=sysinit.target\n\n"@, "\n[Install]\nWantedBy=sysinit.target\n"@, 938));
}

/// The packet filter loads once the rules of the role are in place.
pub proof fn the_filter_loads_with_the_rules_of_its_role(c: Cluster, out: Vec<Rendered>)
    requires
        call_ensures(render_all, (&c,), out),
    ensures
        ({
            let path = "node/systemd/nftables.service.d/10-cluster.conf"@;
            &&& shows(out@, path, "\n[Service]\nExecStart=\nExecStart=/usr/sbin/nft -f /usr/lib/cluster/nftables.conf\n"@)
        }),
{
    let file = nftables_dropin_file(c);
    lemma_host_files(c);
    lemma_is_shown(c, out, file);
    let t0 = "# The packet filter loads its ruleset from the image rather than from /etc (§4.4).\n#\n# The rendered file is diff-gated under generated/; reading it where it was\n# shipped means the running ruleset and the reviewed one cannot differ by\n# anything that happened on the node.\n\n[Service]\nExecStart=\nExecStart=/usr/sbin/nft -f /usr/lib/cluster/nftables.conf\n\n"@;
    let b0 = t0;
    lemma_nftables_dropin_file_0();
    let text = "\n[Service]\nExecStart=\nExecStart=/usr/sbin/nft -f /usr/lib/cluster/nftables.conf\n"@;
    lemma_shows(out@, file, text);
}

proof fn lemma_nftables_dropin_file_0()
    ensures
        is_part("# The packet filter loads its ruleset from the image rather than from /etc (§4.4).\n#\n# The rendered file is diff-gated under generated/; reading it where it was\n# shipped means the running ruleset and the reviewed one cannot differ by\n# anything that happened on the node.\n\n[Service]\nExecStart=\nExecStart=/usr/sbin/nft -f /usr/lib/cluster/nftables.conf\n\n"@, "\n[Service]\nExecStart=\nExecStart=/usr/sbin/nft -f /usr/lib/cluster/nftables.conf\n"@),
{
    reveal(is_part);
    reveal_strlit("# The packet filter loads its ruleset from the image rather than from /etc (§4.4).\n#\n# The rendered file is diff-gated under generated/; reading it where it was\n# shipped means the running ruleset and the reviewed one cannot differ by\n# anything that happened on the node.\n\n[Service]\nExecStart=\nExecStart=/usr/sbin/nft -f /usr/lib/cluster/nftables.conf\n\n");
    reveal_strlit("\n[Service]\nExecStart=\nExecStart=/usr/sbin/nft -f /usr/lib/cluster/nftables.conf\n");
    assert("# The packet filter loads its ruleset from the image rather than from /etc (§4.4).\n#\n# The rendered file is diff-gated under generated/; reading it where it was\n# shipped means the running ruleset and the reviewed one cannot differ by\n# anything that happened on the node.\n\n[Service]\nExecStart=\nExecStart=/usr/sbin/nft -f /usr/lib/cluster/nftables.conf\n\n"@.subrange(273, 353) =~= "\n[Service]\nExecStart=\nExecStart=/usr/sbin/nft -f /usr/lib/cluster/nftables.conf\n"@);
    assert(occurs_at("# The packet filter loads its ruleset from the image rather than from /etc (§4.4).\n#\n# The rendered file is diff-gated under generated/; reading it where it was\n# shipped means the running ruleset and the reviewed one cannot differ by\n# anything that happened on the node.\n\n[Service]\nExecStart=\nExecStart=/usr/sbin/nft -f /usr/lib/cluster/nftables.conf\n\n"@, "\n[Service]\nExecStart=\nExecStart=/usr/sbin/nft -f /usr/lib/cluster/nftables.conf\n"@, 273));
}

/// What is allowed is said with yes, and what is not with no.
pub proof fn what_is_allowed_is_said(yes: bool)
    ensures
        yes ==> allowed(yes) == "yes"@,
        !yes ==> allowed(yes) == "no"@,
{
}

/// A key that an operator enrols is looked for in the directory where its secret
/// lands, under the name of the user, and beside the place where keys are looked
/// for anyway.
pub proof fn an_enrolled_key_is_looked_for_where_it_lands(c: Cluster, i: int, dir: Seq<char>, name: Seq<char>)
    requires
        0 <= i < c.policy.secret@.len(),
        c.policy.secret@[i].id@ == "ssh_authorized_key"@,
        forall|k: int| 0 <= k < i ==> (#[trigger] c.policy.secret@[k]).id@ != "ssh_authorized_key"@,
        c.policy.secret@[i].path@ == dir + seq!['/'] + name,
        !name.contains('/'),
    ensures
        enrolled_keys(c) == Some(dir + "/%u"@),
        ("AuthorizedKeysFile .ssh/authorized_keys "@ + (dir + "/%u"@) + "\n"@).is_suffix_of(
            keys_text(c),
        ),
{
    lemma_key_from(c.policy.secret@, 0, i);
    lemma_directory(dir, name);
    let pattern = dir + "/%u"@;
    lemma_keys_line();
    let head = "\n# Where an enrolled key lands, and therefore where sshd looks (§12.2).\n#\n# sshd's default is `.ssh/authorized_keys` and nothing else. Without this\n# line the key an operator enters through the browser goes somewhere sshd\n# never reads: the page says it was given and SSH still refuses --- a total\n# and silent failure of the way back in §16.5 keeps for when the control\n# plane is the thing that is wrong.\n#\n# The default is kept alongside it, so a key placed the ordinary way still\n# works.\nAuthorizedKeysFile .ssh/authorized_keys "@;
    let line = "AuthorizedKeysFile .ssh/authorized_keys "@;
    lemma_tail_grows(head, line, pattern);
    lemma_tail_grows(head + pattern, line + pattern, "\n"@);
    reveal(is_tail);
    crate::text::a_text_is_found_where_it_stands(keys_text(c), line + pattern + "\n"@);
}

proof fn lemma_key_from(secrets: Seq<Secret>, from: int, i: int)
    requires
        0 <= from <= i < secrets.len(),
        secrets[i].id@ == "ssh_authorized_key"@,
        forall|k: int| from <= k < i ==> (#[trigger] secrets[k]).id@ != "ssh_authorized_key"@,
    ensures
        key_from(secrets, from) == Some(secrets[i]),
    decreases i - from,
{
    if from < i {
        lemma_key_from(secrets, from + 1, i);
    }
}

proof fn lemma_directory(dir: Seq<char>, name: Seq<char>)
    requires
        !name.contains('/'),
    ensures
        directory(dir + seq!['/'] + name) == Some(dir),
    decreases name.len(),
{
    let path = dir + seq!['/'] + name;
    if name.len() == 0 {
        assert(path.drop_last() =~= dir);
    } else {
        assert(path.last() == name.last());
        assert(name.contains(name.last()));
        assert(path.drop_last() =~= dir + seq!['/'] + name.drop_last());
        assert forall|k: int| 0 <= k < name.drop_last().len() implies name.drop_last()[k] != '/' by {
            assert(name.contains(name[k]));
        }
        lemma_directory(dir, name.drop_last());
    }
}

proof fn lemma_keys_line()
    ensures
        is_tail(
            "\n# Where an enrolled key lands, and therefore where sshd looks (§12.2).\n#\n# sshd's default is `.ssh/authorized_keys` and nothing else. Without this\n# line the key an operator enters through the browser goes somewhere sshd\n# never reads: the page says it was given and SSH still refuses --- a total\n# and silent failure of the way back in §16.5 keeps for when the control\n# plane is the thing that is wrong.\n#\n# The default is kept alongside it, so a key placed the ordinary way still\n# works.\nAuthorizedKeysFile .ssh/authorized_keys "@,
            "AuthorizedKeysFile .ssh/authorized_keys "@,
        ),
{
    reveal(is_tail);
    let all = "\n# Where an enrolled key lands, and therefore where sshd looks (§12.2).\n#\n# sshd's default is `.ssh/authorized_keys` and nothing else. Without this\n# line the key an operator enters through the browser goes somewhere sshd\n# never reads: the page says it was given and SSH still refuses --- a total\n# and silent failure of the way back in §16.5 keeps for when the control\n# plane is the thing that is wrong.\n#\n# The default is kept alongside it, so a key placed the ordinary way still\n# works.\nAuthorizedKeysFile .ssh/authorized_keys "@;
    let line = "AuthorizedKeysFile .ssh/authorized_keys "@;
    reveal_strlit(
        "\n# Where an enrolled key lands, and therefore where sshd looks (§12.2).\n#\n# sshd's default is `.ssh/authorized_keys` and nothing else. Without this\n# line the key an operator enters through the browser goes somewhere sshd\n# never reads: the page says it was given and SSH still refuses --- a total\n# and silent failure of the way back in §16.5 keeps for when the control\n# plane is the thing that is wrong.\n#\n# The default is kept alongside it, so a key placed the ordinary way still\n# works.\nAuthorizedKeysFile .ssh/authorized_keys ",
    );
    reveal_strlit("AuthorizedKeysFile .ssh/authorized_keys ");
    assert(all.subrange(all.len() - line.len(), all.len() as int) =~= line);
}

} // verus!
