//! What a node will stage, and where it pulls from.
//!
//! The signature policy rejects by default and admits one workflow's signature.
//! The registry configuration puts the local registry first, with fallbacks: the
//! local one is unreachable during its own node's reboot, by design.
use vstd::prelude::*;

use crate::model::Cluster;
use crate::render::{files, has_storage, ids2, storage, storage_of, File, Rendered};
use crate::text::{concat_all, concat_strings, decimal, decimal_of, views};
use crate::render::claims::{
    is_head,
    is_ours,
    is_part,
    is_tail,
    lemma_is_shown,
    lemma_part_left,
    lemma_shows,
    lemma_tail_grows,
    lemma_tail_is_cut,
    lemma_tail_right,
    lemma_whole,
    shows,
};
use crate::render::render_all;
use crate::text::occurs_at;

verus! {

/// The signature policy: reject by default, one signed identity from a
/// registry, and what is already on this machine.
pub open spec fn policy_file(c: Cluster) -> File {
    let s = c.images.signing;
    File {
        path: "node/containers/policy.json"@,
        ids: seq!["CD-11"@, "CL-01"@],
        body: "{\n  \"default\": [{ \"type\": \"reject\" }],\n  \"transports\": {\n    \"docker\": {\n      \"ghcr.io/"@
            + s.repository@
            + "\": [\n        {\n          \"type\": \"sigstoreSigned\",\n          \"fulcio\": {\n            \"caPath\": \"/etc/containers/fulcio_ca.pem\",\n            \"oidcIssuer\": \""@
            + s.issuer@
            + "\",\n            \"subjectEmail\": \""@
            + s.identity_spec()
            + "\"\n          },\n          \"rekorPublicKeyPath\": \"/etc/containers/rekor.pub\",\n          \"signedIdentity\": { \"type\": \"matchRepository\" }\n        }\n      ]\n    },\n    \"containers-storage\": {\n      \"\": [{ \"type\": \"insecureAcceptAnything\" }]\n    }\n  }\n}\n"@,
    }
}

pub(crate) fn policy(c: &Cluster) -> (r: Rendered)
    ensures
        r@ == policy_file(*c),
{
    let s = &c.images.signing;
    let path = "node/containers/policy.json".to_owned();
    let body = "{\n  \"default\": [{ \"type\": \"reject\" }],\n  \"transports\": {\n    \"docker\": {\n      \"ghcr.io/".to_owned()
        .concat(s.repository.as_str())
        .concat("\": [\n        {\n          \"type\": \"sigstoreSigned\",\n          \"fulcio\": {\n            \"caPath\": \"/etc/containers/fulcio_ca.pem\",\n            \"oidcIssuer\": \"")
        .concat(s.issuer.as_str())
        .concat("\",\n            \"subjectEmail\": \"")
        .concat(s.certificate_identity().as_str())
        .concat("\"\n          },\n          \"rekorPublicKeyPath\": \"/etc/containers/rekor.pub\",\n          \"signedIdentity\": { \"type\": \"matchRepository\" }\n        }\n      ]\n    },\n    \"containers-storage\": {\n      \"\": [{ \"type\": \"insecureAcceptAnything\" }]\n    }\n  }\n}\n");
    Rendered::new(path, ids2("CD-11", "CL-01"), body)
}

/// The local registry.
pub open spec fn local_text(c: Cluster) -> Seq<char> {
    let storage = storage(c);
    storage.loopback
        + ":"@
        + decimal(c.images.registries.port as nat)
}

fn local(c: &Cluster) -> (r: String)
    requires
        has_storage(*c),
    ensures
        r@ == local_text(*c),
{
    let storage = storage_of(c);
    storage.loopback.clone()
        .concat(":")
        .concat(decimal_of(c.images.registries.port as u64).as_str())
}

/// One prefix, mirrored by the local registry.
pub open spec fn registry_text(prefix: String, local: Seq<char>) -> Seq<char> {
    "[[registry]]\nprefix = \""@
        + prefix@
        + "\"\nlocation = \""@
        + prefix@
        + "\"\n\n[[registry.mirror]]\nlocation = \""@
        + local
        + "\"\ninsecure = true\n\n"@
}

fn registry(prefix: &String, local: &str) -> (r: String)
    ensures
        r@ == registry_text(*prefix, local@),
{
    "[[registry]]\nprefix = \"".to_owned()
        .concat(prefix.as_str())
        .concat("\"\nlocation = \"")
        .concat(prefix.as_str())
        .concat("\"\n\n[[registry.mirror]]\nlocation = \"")
        .concat(local)
        .concat("\"\ninsecure = true\n\n")
}

/// One fallback, mirrored by the local registry.
pub open spec fn fallback_line(c: Cluster, local: Seq<char>, prefix: String) -> Seq<char> {
    registry_text(prefix, local)
}

fn fallback_line_of(c: &Cluster, local: &str, prefix: &String) -> (r: String)
    ensures
        r@ == fallback_line(*c, local@, *prefix),
{
    registry(prefix, local)
}

/// One text for each, in order.
pub open spec fn fallback_lines(c: Cluster, local: Seq<char>) -> Seq<Seq<char>> {
    let list = c.images.registries.fallbacks@;
    Seq::new(list.len(), |i: int| fallback_line(c, local, list[i]))
}

fn fallback_lines_of(c: &Cluster, local: &str) -> (out: Vec<String>)
    ensures
        views(out@) == fallback_lines(*c, local@),
{
    let list = &c.images.registries.fallbacks;
    let ghost all = c.images.registries.fallbacks@;
    let mut out: Vec<String> = Vec::new();
    let mut i: usize = 0;
    while i < list.len()
        invariant
            i <= list.len(),
            all == c.images.registries.fallbacks@,
            list@ == all,
            out.len() == i,
            forall|k: int| 0 <= k < i ==> (#[trigger] out@[k])@ == fallback_line(*c, local@, all[k]),
        decreases list.len() - i,
    {
        proof {
            assert(all[i as int] == list@[i as int]);
        }
        out.push(fallback_line_of(c, local, &list[i]));
        i = i + 1;
    }
    proof {
        assert(views(out@) =~= fallback_lines(*c, local@));
    }
    out
}

/// Where a node pulls from: the local registry first, for this repository and
/// each fallback.
pub open spec fn registries_file(c: Cluster) -> File {
    let local = local_text(c);
    let own = "ghcr.io/"@ + c.images.signing.repository@;
    File {
        path: "node/containers/registries.conf"@,
        ids: seq!["CD-11"@, "CL-02"@],
        body: "# Where a node pulls from. The local registry first, then the fallbacks.\n#\n# Zot is unreachable during the storage node's own reboot --- by design --- and a pull\n# that failed then would turn §14.2's stated window into an outage. The\n# fallbacks are what make the window a degradation instead.\n\nunqualified-search-registries = [\"ghcr.io\", \"docker.io\"]\n\n[[registry]]\nprefix = \""@
            + own
            + "\"\nlocation = \""@
            + own
            + "\"\n\n[[registry.mirror]]\nlocation = \""@
            + local
            + "\"\ninsecure = true\n\n"@
            + concat_all(fallback_lines(c, local)),
    }
}

pub(crate) fn registries(c: &Cluster) -> (r: Rendered)
    requires
        has_storage(*c),
    ensures
        r@ == registries_file(*c),
{
    let local_name = local(c);
    let local = local_name.as_str();
    let own = "ghcr.io/".to_owned().concat(c.images.signing.repository.as_str());
    let path = "node/containers/registries.conf".to_owned();
    let body = "# Where a node pulls from. The local registry first, then the fallbacks.\n#\n# Zot is unreachable during the storage node's own reboot --- by design --- and a pull\n# that failed then would turn §14.2's stated window into an outage. The\n# fallbacks are what make the window a degradation instead.\n\nunqualified-search-registries = [\"ghcr.io\", \"docker.io\"]\n\n[[registry]]\nprefix = \"".to_owned()
        .concat(own.as_str())
        .concat("\"\nlocation = \"")
        .concat(own.as_str())
        .concat("\"\n\n[[registry.mirror]]\nlocation = \"")
        .concat(local)
        .concat("\"\ninsecure = true\n\n")
        .concat(concat_strings(&fallback_lines_of(c, local)).as_str());
    Rendered::new(path, ids2("CD-11", "CL-02"), body)
}

/// Trust and pull order.
pub open spec fn trust_files(c: Cluster) -> Seq<File> {
    seq![policy_file(c), registries_file(c)]
}

/// Trust and pull order.
pub(crate) fn render(c: &Cluster) -> (out: Vec<Rendered>)
    requires
        has_storage(*c),
    ensures
        files(out@) == trust_files(*c),
{
    let out = vec![policy(c), registries(c)];
    proof {
        assert(files(out@) =~= trust_files(*c));
    }
    out
}

// ---- laws of the files ----

/// Trust and pull order are given.
proof fn lemma_trust_files(c: Cluster)
    ensures
        is_ours(c, policy_file(c)),
        is_ours(c, registries_file(c)),
{
    reveal(is_ours);
    let all = trust_files(c);
    assert(all.contains(all[0]));
    assert(all.contains(all[1]));
}

/// An image of this repository is accepted with its signature alone, by the issuer,
/// the workflow and the log that the model names.
pub proof fn an_image_needs_its_signature(c: Cluster, out: Vec<Rendered>)
    requires
        call_ensures(render_all, (&c,), out),
    ensures
        ({
            let s = c.images.signing;
            let path = "node/containers/policy.json"@;
            &&& shows(out@, path, "{\n  \"default\": [{ \"type\": \"reject\" }],\n  \"transports\": {\n    \"docker\": {\n      \"ghcr.io/"@ + s.repository@ + "\": [\n        {\n          \"type\": \"sigstoreSigned\",\n          \"fulcio\": {\n            \"caPath\": \"/etc/containers/fulcio_ca.pem\",\n            \"oidcIssuer\": \""@ + s.issuer@ + "\",\n            \"subjectEmail\": \""@ + s.identity_spec() + "\"\n          },\n          \"rekorPublicKeyPath\": \"/etc/containers/rekor.pub\",\n          \"signedIdentity\": { \"type\": \"matchRepository\" }\n        }\n      ]\n    },\n    \"containers-storage\": {\n      \"\": [{ \"type\": \"insecureAcceptAnything\" }]\n    }\n  }\n}\n"@)
        }),
{
    let s = c.images.signing;
    let file = policy_file(c);
    lemma_trust_files(c);
    lemma_is_shown(c, out, file);
    let t0 = "{\n  \"default\": [{ \"type\": \"reject\" }],\n  \"transports\": {\n    \"docker\": {\n      \"ghcr.io/"@;
    let b0 = t0;
    let t1 = s.repository@;
    let b1 = b0 + t1;
    let t2 = "\": [\n        {\n          \"type\": \"sigstoreSigned\",\n          \"fulcio\": {\n            \"caPath\": \"/etc/containers/fulcio_ca.pem\",\n            \"oidcIssuer\": \""@;
    let b2 = b1 + t2;
    let t3 = s.issuer@;
    let b3 = b2 + t3;
    let t4 = "\",\n            \"subjectEmail\": \""@;
    let b4 = b3 + t4;
    let t5 = s.identity_spec();
    let b5 = b4 + t5;
    let t6 = "\"\n          },\n          \"rekorPublicKeyPath\": \"/etc/containers/rekor.pub\",\n          \"signedIdentity\": { \"type\": \"matchRepository\" }\n        }\n      ]\n    },\n    \"containers-storage\": {\n      \"\": [{ \"type\": \"insecureAcceptAnything\" }]\n    }\n  }\n}\n"@;
    let b6 = b5 + t6;
    let q0 = t0;
    lemma_whole(t0);
    lemma_tail_grows(b0, q0, t1);
    let q1 = q0 + t1;
    lemma_tail_grows(b1, q1, t2);
    let q2 = q1 + t2;
    lemma_tail_grows(b2, q2, t3);
    let q3 = q2 + t3;
    lemma_tail_grows(b3, q3, t4);
    let q4 = q3 + t4;
    lemma_tail_grows(b4, q4, t5);
    let q5 = q4 + t5;
    lemma_tail_grows(b5, q5, t6);
    let q6 = q5 + t6;
    let text = q6;
    lemma_shows(out@, file, text);
}

/// Images are pulled from the local registry first.
pub proof fn the_local_registry_comes_first(c: Cluster, out: Vec<Rendered>)
    requires
        call_ensures(render_all, (&c,), out),
    ensures
        ({
            let local = local_text(c);
            let own = "ghcr.io/"@ + c.images.signing.repository@;
            let path = "node/containers/registries.conf"@;
            &&& shows(out@, path, "\nunqualified-search-registries = [\"ghcr.io\", \"docker.io\"]\n"@)
            &&& shows(out@, path, "\n[[registry]]\nprefix = \""@ + own + "\"\nlocation = \""@ + own + "\"\n"@)
            &&& shows(out@, path, "\n[[registry.mirror]]\nlocation = \""@ + local + "\"\ninsecure = true\n"@)
        }),
{
    let local = local_text(c);
    let own = "ghcr.io/"@ + c.images.signing.repository@;
    let file = registries_file(c);
    lemma_trust_files(c);
    lemma_is_shown(c, out, file);
    let t0 = "# Where a node pulls from. The local registry first, then the fallbacks.\n#\n# Zot is unreachable during the storage node's own reboot --- by design --- and a pull\n# that failed then would turn §14.2's stated window into an outage. The\n# fallbacks are what make the window a degradation instead.\n\nunqualified-search-registries = [\"ghcr.io\", \"docker.io\"]\n\n[[registry]]\nprefix = \""@;
    let b0 = t0;
    let t1 = own;
    let b1 = b0 + t1;
    let t2 = "\"\nlocation = \""@;
    let b2 = b1 + t2;
    let t3 = own;
    let b3 = b2 + t3;
    let t4 = "\"\n\n[[registry.mirror]]\nlocation = \""@;
    let b4 = b3 + t4;
    let t5 = local;
    let b5 = b4 + t5;
    let t6 = "\"\ninsecure = true\n\n"@;
    let b6 = b5 + t6;
    let t7 = concat_all(fallback_lines(c, local));
    let b7 = b6 + t7;
    lemma_registries_file_0();
    let text = "\nunqualified-search-registries = [\"ghcr.io\", \"docker.io\"]\n"@;
    lemma_part_left(b0, t1, text);
    lemma_part_left(b1, t2, text);
    lemma_part_left(b2, t3, text);
    lemma_part_left(b3, t4, text);
    lemma_part_left(b4, t5, text);
    lemma_part_left(b5, t6, text);
    lemma_part_left(b6, t7, text);
    lemma_shows(out@, file, text);
    lemma_registries_file_1();
    let q0 = "\n[[registry]]\nprefix = \""@;
    lemma_tail_grows(b0, q0, t1);
    let q1 = q0 + t1;
    lemma_tail_grows(b1, q1, t2);
    let q2 = q1 + t2;
    lemma_tail_grows(b2, q2, t3);
    let q3 = q2 + t3;
    lemma_registries_file_2();
    lemma_tail_is_cut(b3, q3, t4, "\"\n"@);
    let text = q3 + "\"\n"@;
    lemma_part_left(b4, t5, text);
    lemma_part_left(b5, t6, text);
    lemma_part_left(b6, t7, text);
    lemma_shows(out@, file, text);
    lemma_registries_file_3();
    let q4 = "\n[[registry.mirror]]\nlocation = \""@;
    lemma_tail_right(b3, t4, q4);
    lemma_tail_grows(b4, q4, t5);
    let q5 = q4 + t5;
    lemma_registries_file_4();
    lemma_tail_is_cut(b5, q5, t6, "\"\ninsecure = true\n"@);
    let text = q5 + "\"\ninsecure = true\n"@;
    lemma_part_left(b6, t7, text);
    lemma_shows(out@, file, text);
}

proof fn lemma_registries_file_0()
    ensures
        is_part("# Where a node pulls from. The local registry first, then the fallbacks.\n#\n# Zot is unreachable during the storage node's own reboot --- by design --- and a pull\n# that failed then would turn §14.2's stated window into an outage. The\n# fallbacks are what make the window a degradation instead.\n\nunqualified-search-registries = [\"ghcr.io\", \"docker.io\"]\n\n[[registry]]\nprefix = \""@, "\nunqualified-search-registries = [\"ghcr.io\", \"docker.io\"]\n"@),
{
    reveal(is_part);
    reveal_strlit("# Where a node pulls from. The local registry first, then the fallbacks.\n#\n# Zot is unreachable during the storage node's own reboot --- by design --- and a pull\n# that failed then would turn §14.2's stated window into an outage. The\n# fallbacks are what make the window a degradation instead.\n\nunqualified-search-registries = [\"ghcr.io\", \"docker.io\"]\n\n[[registry]]\nprefix = \"");
    reveal_strlit("\nunqualified-search-registries = [\"ghcr.io\", \"docker.io\"]\n");
    assert("# Where a node pulls from. The local registry first, then the fallbacks.\n#\n# Zot is unreachable during the storage node's own reboot --- by design --- and a pull\n# that failed then would turn §14.2's stated window into an outage. The\n# fallbacks are what make the window a degradation instead.\n\nunqualified-search-registries = [\"ghcr.io\", \"docker.io\"]\n\n[[registry]]\nprefix = \""@.subrange(294, 352) =~= "\nunqualified-search-registries = [\"ghcr.io\", \"docker.io\"]\n"@);
    assert(occurs_at("# Where a node pulls from. The local registry first, then the fallbacks.\n#\n# Zot is unreachable during the storage node's own reboot --- by design --- and a pull\n# that failed then would turn §14.2's stated window into an outage. The\n# fallbacks are what make the window a degradation instead.\n\nunqualified-search-registries = [\"ghcr.io\", \"docker.io\"]\n\n[[registry]]\nprefix = \""@, "\nunqualified-search-registries = [\"ghcr.io\", \"docker.io\"]\n"@, 294));
}

proof fn lemma_registries_file_1()
    ensures
        is_tail("# Where a node pulls from. The local registry first, then the fallbacks.\n#\n# Zot is unreachable during the storage node's own reboot --- by design --- and a pull\n# that failed then would turn §14.2's stated window into an outage. The\n# fallbacks are what make the window a degradation instead.\n\nunqualified-search-registries = [\"ghcr.io\", \"docker.io\"]\n\n[[registry]]\nprefix = \""@, "\n[[registry]]\nprefix = \""@),
{
    reveal(is_tail);
    reveal_strlit("# Where a node pulls from. The local registry first, then the fallbacks.\n#\n# Zot is unreachable during the storage node's own reboot --- by design --- and a pull\n# that failed then would turn §14.2's stated window into an outage. The\n# fallbacks are what make the window a degradation instead.\n\nunqualified-search-registries = [\"ghcr.io\", \"docker.io\"]\n\n[[registry]]\nprefix = \"");
    reveal_strlit("\n[[registry]]\nprefix = \"");
    assert("# Where a node pulls from. The local registry first, then the fallbacks.\n#\n# Zot is unreachable during the storage node's own reboot --- by design --- and a pull\n# that failed then would turn §14.2's stated window into an outage. The\n# fallbacks are what make the window a degradation instead.\n\nunqualified-search-registries = [\"ghcr.io\", \"docker.io\"]\n\n[[registry]]\nprefix = \""@.subrange(352, 376) =~= "\n[[registry]]\nprefix = \""@);
}

proof fn lemma_registries_file_2()
    ensures
        is_head("\"\n\n[[registry.mirror]]\nlocation = \""@, "\"\n"@),
{
    reveal(is_head);
    reveal_strlit("\"\n\n[[registry.mirror]]\nlocation = \"");
    reveal_strlit("\"\n");
    assert("\"\n\n[[registry.mirror]]\nlocation = \""@.subrange(0, 2) =~= "\"\n"@);
}

proof fn lemma_registries_file_3()
    ensures
        is_tail("\"\n\n[[registry.mirror]]\nlocation = \""@, "\n[[registry.mirror]]\nlocation = \""@),
{
    reveal(is_tail);
    reveal_strlit("\"\n\n[[registry.mirror]]\nlocation = \"");
    reveal_strlit("\n[[registry.mirror]]\nlocation = \"");
    assert("\"\n\n[[registry.mirror]]\nlocation = \""@.subrange(2, 35) =~= "\n[[registry.mirror]]\nlocation = \""@);
}

proof fn lemma_registries_file_4()
    ensures
        is_head("\"\ninsecure = true\n\n"@, "\"\ninsecure = true\n"@),
{
    reveal(is_head);
    reveal_strlit("\"\ninsecure = true\n\n");
    reveal_strlit("\"\ninsecure = true\n");
    assert("\"\ninsecure = true\n\n"@.subrange(0, 18) =~= "\"\ninsecure = true\n"@);
}

/// The local registry is that of the storage node, at the declared port.
pub proof fn the_local_registry_is_on_the_storage_node(c: Cluster)
    ensures
        local_text(c) == storage(c).loopback + ":"@ + decimal(c.images.registries.port as nat),
{
}

} // verus!
