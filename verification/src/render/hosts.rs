//! The hosts file, rendered from the fleet's slots.
//!
//! There is no DNS service: a hosts file has no failure mode of its own, and a
//! resolver on the storage node would take every mesh name down with it.
use vstd::prelude::*;

use crate::cluster::Node;
use crate::model::{slots, Cluster, Slot};
use crate::render::{has_storage, ids1, storage, storage_of, File, Rendered};
use crate::text::{concat_all, concat_strings, views};
use crate::render::claims::{
    is_head,
    is_ours,
    is_part,
    lemma_is_shown,
    lemma_part_left,
    lemma_shows,
    lemma_tail_grows,
    lemma_tail_is_cut,
    lemma_tail_right,
    lemma_whole,
    shows,
};
use crate::render::render_all;
use crate::text::occurs_at;

verus! {

/// A slot's loopback, with its qualified and its short name.
pub open spec fn host_line(c: Cluster, n: Slot) -> Seq<char> {
    n.loopback
        + "\t"@
        + n.fqdn
        + "\t"@
        + n.name
        + "\n"@
}

fn host_line_of(c: &Cluster, n: &Node) -> (r: String)
    ensures
        r@ == host_line(*c, n@),
{
    n.loopback.clone()
        .concat("\t")
        .concat(n.fqdn.as_str())
        .concat("\t")
        .concat(n.name.as_str())
        .concat("\n")
}

/// One text for each, in order.
pub open spec fn host_lines(c: Cluster) -> Seq<Seq<char>> {
    let list = c.slots_spec();
    Seq::new(list.len(), |i: int| host_line(c, list[i]))
}

fn host_lines_of(c: &Cluster) -> (out: Vec<String>)
    ensures
        views(out@) == host_lines(*c),
{
    let list = c.nodes();
    let ghost all = c.slots_spec();
    let mut out: Vec<String> = Vec::new();
    let mut i: usize = 0;
    while i < list.len()
        invariant
            i <= list.len(),
            all == c.slots_spec(),
            slots(list@) == all,
            out.len() == i,
            forall|k: int| 0 <= k < i ==> (#[trigger] out@[k])@ == host_line(*c, all[k]),
        decreases list.len() - i,
    {
        proof {
            assert(all[i as int] == list@[i as int]@);
        }
        out.push(host_line_of(c, &list[i]));
        i = i + 1;
    }
    proof {
        assert(views(out@) =~= host_lines(*c));
    }
    out
}

/// The hosts file of every machine.
pub open spec fn hosts_file(c: Cluster) -> File {
    let storage = storage(c);
    File {
        path: "node/hosts"@,
        ids: seq!["CD-04"@],
        body: "# Name resolution for the fleet. No DNS service: a hosts file has no failure\n# mode of its own, and during the storage node's update window a resolver there\n# would take every mesh name down with it (§4.3, §14.2).\n\n127.0.0.1\tlocalhost localhost.localdomain\n::1\t\tlocalhost localhost.localdomain\n\n# Mesh loopbacks. Every mesh service binds one of these (§4.1).\n"@
            + concat_all(host_lines(c))
            + "\n# The entry point: what a client that knows only the cluster's name asks for.\n"@
            + storage.loopback
            + "\t"@
            + c.cluster.fleet.entry_name@
            + "\n"@,
    }
}

pub(crate) fn render(c: &Cluster) -> (r: Rendered)
    requires
        has_storage(*c),
    ensures
        r@ == hosts_file(*c),
{
    let storage = storage_of(c);
    let path = "node/hosts".to_owned();
    let body = "# Name resolution for the fleet. No DNS service: a hosts file has no failure\n# mode of its own, and during the storage node's update window a resolver there\n# would take every mesh name down with it (§4.3, §14.2).\n\n127.0.0.1\tlocalhost localhost.localdomain\n::1\t\tlocalhost localhost.localdomain\n\n# Mesh loopbacks. Every mesh service binds one of these (§4.1).\n".to_owned()
        .concat(concat_strings(&host_lines_of(c)).as_str())
        .concat("\n# The entry point: what a client that knows only the cluster's name asks for.\n")
        .concat(storage.loopback.as_str())
        .concat("\t")
        .concat(c.cluster.fleet.entry_name.as_str())
        .concat("\n");
    Rendered::new(path, ids1("CD-04"), body)
}

// ---- laws of the files ----

/// The file is given.
proof fn lemma_hosts_given(c: Cluster)
    ensures
        is_ours(c, hosts_file(c)),
{
    reveal(is_ours);
    let all = seq![hosts_file(c)];
    assert(all.contains(all[0]));
}

/// A machine resolves itself, every slot and the entry point.
pub proof fn a_machine_resolves_itself(c: Cluster, out: Vec<Rendered>)
    requires
        call_ensures(render_all, (&c,), out),
    ensures
        ({
            let storage = storage(c);
            let path = "node/hosts"@;
            &&& shows(out@, path, "\n127.0.0.1\tlocalhost localhost.localdomain\n::1\t\tlocalhost localhost.localdomain\n"@)
            &&& shows(out@, path, concat_all(host_lines(c)) + "\n"@)
            &&& shows(out@, path, storage.loopback + "\t"@ + c.cluster.fleet.entry_name@ + "\n"@)
        }),
{
    let storage = storage(c);
    let file = hosts_file(c);
    lemma_hosts_given(c);
    lemma_is_shown(c, out, file);
    let t0 = "# Name resolution for the fleet. No DNS service: a hosts file has no failure\n# mode of its own, and during the storage node's update window a resolver there\n# would take every mesh name down with it (§4.3, §14.2).\n\n127.0.0.1\tlocalhost localhost.localdomain\n::1\t\tlocalhost localhost.localdomain\n\n# Mesh loopbacks. Every mesh service binds one of these (§4.1).\n"@;
    let b0 = t0;
    let t1 = concat_all(host_lines(c));
    let b1 = b0 + t1;
    let t2 = "\n# The entry point: what a client that knows only the cluster's name asks for.\n"@;
    let b2 = b1 + t2;
    let t3 = storage.loopback;
    let b3 = b2 + t3;
    let t4 = "\t"@;
    let b4 = b3 + t4;
    let t5 = c.cluster.fleet.entry_name@;
    let b5 = b4 + t5;
    let t6 = "\n"@;
    let b6 = b5 + t6;
    lemma_hosts_file_0();
    let text = "\n127.0.0.1\tlocalhost localhost.localdomain\n::1\t\tlocalhost localhost.localdomain\n"@;
    lemma_part_left(b0, t1, text);
    lemma_part_left(b1, t2, text);
    lemma_part_left(b2, t3, text);
    lemma_part_left(b3, t4, text);
    lemma_part_left(b4, t5, text);
    lemma_part_left(b5, t6, text);
    lemma_shows(out@, file, text);
    let q1 = t1;
    lemma_whole(t1);
    lemma_tail_right(b0, t1, q1);
    lemma_hosts_file_1();
    lemma_tail_is_cut(b1, q1, t2, "\n"@);
    let text = q1 + "\n"@;
    lemma_part_left(b2, t3, text);
    lemma_part_left(b3, t4, text);
    lemma_part_left(b4, t5, text);
    lemma_part_left(b5, t6, text);
    lemma_shows(out@, file, text);
    let q3 = t3;
    lemma_whole(t3);
    lemma_tail_right(b2, t3, q3);
    lemma_tail_grows(b3, q3, t4);
    let q4 = q3 + t4;
    lemma_tail_grows(b4, q4, t5);
    let q5 = q4 + t5;
    lemma_tail_grows(b5, q5, t6);
    let q6 = q5 + t6;
    let text = q6;
    lemma_shows(out@, file, text);
}

proof fn lemma_hosts_file_0()
    ensures
        is_part("# Name resolution for the fleet. No DNS service: a hosts file has no failure\n# mode of its own, and during the storage node's update window a resolver there\n# would take every mesh name down with it (§4.3, §14.2).\n\n127.0.0.1\tlocalhost localhost.localdomain\n::1\t\tlocalhost localhost.localdomain\n\n# Mesh loopbacks. Every mesh service binds one of these (§4.1).\n"@, "\n127.0.0.1\tlocalhost localhost.localdomain\n::1\t\tlocalhost localhost.localdomain\n"@),
{
    reveal(is_part);
    reveal_strlit("# Name resolution for the fleet. No DNS service: a hosts file has no failure\n# mode of its own, and during the storage node's update window a resolver there\n# would take every mesh name down with it (§4.3, §14.2).\n\n127.0.0.1\tlocalhost localhost.localdomain\n::1\t\tlocalhost localhost.localdomain\n\n# Mesh loopbacks. Every mesh service binds one of these (§4.1).\n");
    reveal_strlit("\n127.0.0.1\tlocalhost localhost.localdomain\n::1\t\tlocalhost localhost.localdomain\n");
    assert("# Name resolution for the fleet. No DNS service: a hosts file has no failure\n# mode of its own, and during the storage node's update window a resolver there\n# would take every mesh name down with it (§4.3, §14.2).\n\n127.0.0.1\tlocalhost localhost.localdomain\n::1\t\tlocalhost localhost.localdomain\n\n# Mesh loopbacks. Every mesh service binds one of these (§4.1).\n"@.subrange(214, 294) =~= "\n127.0.0.1\tlocalhost localhost.localdomain\n::1\t\tlocalhost localhost.localdomain\n"@);
    assert(occurs_at("# Name resolution for the fleet. No DNS service: a hosts file has no failure\n# mode of its own, and during the storage node's update window a resolver there\n# would take every mesh name down with it (§4.3, §14.2).\n\n127.0.0.1\tlocalhost localhost.localdomain\n::1\t\tlocalhost localhost.localdomain\n\n# Mesh loopbacks. Every mesh service binds one of these (§4.1).\n"@, "\n127.0.0.1\tlocalhost localhost.localdomain\n::1\t\tlocalhost localhost.localdomain\n"@, 214));
}

proof fn lemma_hosts_file_1()
    ensures
        is_head("\n# The entry point: what a client that knows only the cluster's name asks for.\n"@, "\n"@),
{
    reveal(is_head);
    reveal_strlit("\n# The entry point: what a client that knows only the cluster's name asks for.\n");
    reveal_strlit("\n");
    assert("\n# The entry point: what a client that knows only the cluster's name asks for.\n"@.subrange(0, 1) =~= "\n"@);
}

} // verus!
