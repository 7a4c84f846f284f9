//! Kernel arguments.
//!
//! The command line is a property of the image a node booted. What every role
//! carries is in the image's own list; what one role carries is applied once
//! the role is known, because one image boots every role.
use vstd::prelude::*;

use crate::cluster::Role;
use crate::images::Variant;
use crate::model::Cluster;
use crate::named::row;
use crate::render::{files, ids1, ids2, File, Rendered};
use crate::text::{concat_all, concat_strings, join, join_strings, views};
use crate::render::claims::{is_ours, is_tail, lemma_is_shown, lemma_shows, lemma_tail_grows, shows};
use crate::render::render_all;

verus! {

/// One kernel argument of the list.
pub open spec fn karg_line(c: Cluster, karg: String) -> Seq<char> {
    "  \""@
        + karg@
        + "\",\n"@
}

fn karg_line_of(c: &Cluster, karg: &String) -> (r: String)
    ensures
        r@ == karg_line(*c, *karg),
{
    "  \"".to_owned()
        .concat(karg.as_str())
        .concat("\",\n")
}

/// One text for each, in order.
pub open spec fn karg_lines(c: Cluster) -> Seq<Seq<char>> {
    let list = c.images.base.content.kargs@;
    Seq::new(list.len(), |i: int| karg_line(c, list[i]))
}

fn karg_lines_of(c: &Cluster) -> (out: Vec<String>)
    ensures
        views(out@) == karg_lines(*c),
{
    let list = &c.images.base.content.kargs;
    let ghost all = c.images.base.content.kargs@;
    let mut out: Vec<String> = Vec::new();
    let mut i: usize = 0;
    while i < list.len()
        invariant
            i <= list.len(),
            all == c.images.base.content.kargs@,
            list@ == all,
            out.len() == i,
            forall|k: int| 0 <= k < i ==> (#[trigger] out@[k])@ == karg_line(*c, all[k]),
        decreases list.len() - i,
    {
        proof {
            assert(all[i as int] == list@[i as int]);
        }
        out.push(karg_line_of(c, &list[i]));
        i = i + 1;
    }
    proof {
        assert(views(out@) =~= karg_lines(*c));
    }
    out
}

/// The kernel arguments of every machine.
pub open spec fn base_kargs_file(c: Cluster) -> File {
    File {
        path: "node/kargs.d/10-cluster.toml"@,
        ids: seq!["CD-06"@],
        body: "# Kernel arguments of every machine. Read by bootc from inside the image, so the\n# command line is a property of what was booted rather than of what was\n# edited afterwards (§8.5).\n#\n# One image boots every role, so none of these isolates a CPU.\n\nkargs = [\n"@
            + concat_all(karg_lines(c))
            + "]\n"@,
    }
}

pub(crate) fn render(c: &Cluster) -> (r: Rendered)
    ensures
        r@ == base_kargs_file(*c),
{
    let path = "node/kargs.d/10-cluster.toml".to_owned();
    let body = "# Kernel arguments of every machine. Read by bootc from inside the image, so the\n# command line is a property of what was booted rather than of what was\n# edited afterwards (§8.5).\n#\n# One image boots every role, so none of these isolates a CPU.\n\nkargs = [\n".to_owned()
        .concat(concat_strings(&karg_lines_of(c)).as_str())
        .concat("]\n");
    Rendered::new(path, ids1("CD-06"), body)
}

/// What is said of the CPUs a role isolates.
pub open spec fn isolation_text(variant: Variant) -> Seq<char> {
    match variant.isolation {
        Some(isolation) => "#\n# CPUs "@
            + isolation.isolated_cpus@
            + " are isolated, SMT is off, and C-states are constrained. Each of\n# those is a constructible fact and CB- carries it. That the result yields\n# stable measurements is not, and §21.1 records why.\n"@,
        None => Seq::<char>::empty(),
    }
}

fn isolation(variant: &Variant) -> (r: String)
    ensures
        r@ == isolation_text(*variant),
{
    match &variant.isolation {
        Some(isolation) => "#\n# CPUs ".to_owned()
            .concat(isolation.isolated_cpus.as_str())
            .concat(" are isolated, SMT is off, and C-states are constrained. Each of\n# those is a constructible fact and CB- carries it. That the result yields\n# stable measurements is not, and §21.1 records why.\n"),
        None => String::new(),
    }
}

/// The kernel arguments of a role's variant, and what is said of them.
pub open spec fn role_options(c: Cluster, role: Role) -> Seq<char> {
    match row(c.images.variant@, role.id@) {
        Some(variant) => isolation_text(variant) + "\noptions="@ + join(
            views(variant.kargs@),
            " "@,
        ) + "\n"@,
        None => "\noptions=\n"@,
    }
}

fn role_options_of(c: &Cluster, role: &Role) -> (r: String)
    ensures
        r@ == role_options(*c, *role),
{
    match c.images.variant_for(role.id.as_str()) {
        Some(variant) => isolation(variant).concat("\noptions=").concat(
            join_strings(&variant.kargs, " ").as_str(),
        ).concat("\n"),
        None => "\noptions=\n".to_owned(),
    }
}

/// The kernel arguments of one role, an empty set where it has none.
pub open spec fn role_set_file(c: Cluster, role: Role) -> File {
    File {
        path: "node/role-kargs-"@
            + role.id@
            + ".conf"@,
        ids: seq!["CD-06"@, "CD-19"@],
        body: "# Kernel arguments of the `"@
            + role.id@
            + "` role, applied once the role is known.\n"@
            + role_options(c, role),
    }
}

pub(crate) fn role_set(c: &Cluster, role: &Role) -> (r: Rendered)
    ensures
        r@ == role_set_file(*c, *role),
{
    let path = "node/role-kargs-".to_owned()
        .concat(role.id.as_str())
        .concat(".conf");
    let body = "# Kernel arguments of the `".to_owned()
        .concat(role.id.as_str())
        .concat("` role, applied once the role is known.\n")
        .concat(role_options_of(c, role).as_str());
    Rendered::new(path, ids2("CD-06", "CD-19"), body)
}

/// The kernel arguments of each role.
pub open spec fn role_set_files(c: Cluster) -> Seq<File> {
    Seq::new(c.cluster.role@.len(), |i: int| role_set_file(c, c.cluster.role@[i]))
}

fn each_role_set(c: &Cluster) -> (out: Vec<Rendered>)
    ensures
        files(out@) == role_set_files(*c),
{
    let mut out: Vec<Rendered> = Vec::new();
    let mut i: usize = 0;
    while i < c.cluster.role.len()
        invariant
            i <= c.cluster.role.len(),
            out.len() == i,
            forall|k: int|
                0 <= k < i ==> (#[trigger] out@[k])@ == role_set_file(*c, c.cluster.role@[k]),
        decreases c.cluster.role.len() - i,
    {
        out.push(role_set(c, &c.cluster.role[i]));
        i = i + 1;
    }
    proof {
        assert(files(out@) =~= role_set_files(*c));
    }
    out
}

/// The kernel arguments of each role.
pub(crate) fn role_kargs(c: &Cluster) -> (out: Vec<Rendered>)
    ensures
        files(out@) == role_set_files(*c),
{
    each_role_set(c)
}

// ---- laws of the files ----

/// The base set is given.
proof fn lemma_base_given(c: Cluster)
    ensures
        is_ours(c, base_kargs_file(c)),
{
    reveal(is_ours);
    let all = seq![base_kargs_file(c)];
    assert(all.contains(all[0]));
}

/// The kernel arguments of the base are listed.
pub proof fn the_kernel_is_told_of_the_base(c: Cluster, out: Vec<Rendered>)
    requires
        call_ensures(render_all, (&c,), out),
    ensures
        ({
            let path = "node/kargs.d/10-cluster.toml"@;
            &&& shows(out@, path, "\nkargs = [\n"@ + concat_all(karg_lines(c)) + "]\n"@)
        }),
{
    let file = base_kargs_file(c);
    lemma_base_given(c);
    lemma_is_shown(c, out, file);
    let t0 = "# Kernel arguments of every machine. Read by bootc from inside the image, so the\n# command line is a property of what was booted rather than of what was\n# edited afterwards (§8.5).\n#\n# One image boots every role, so none of these isolates a CPU.\n\nkargs = [\n"@;
    let b0 = t0;
    let t1 = concat_all(karg_lines(c));
    let b1 = b0 + t1;
    let t2 = "]\n"@;
    let b2 = b1 + t2;
    lemma_base_kargs_file_0();
    let q0 = "\nkargs = [\n"@;
    lemma_tail_grows(b0, q0, t1);
    let q1 = q0 + t1;
    lemma_tail_grows(b1, q1, t2);
    let q2 = q1 + t2;
    let text = q2;
    lemma_shows(out@, file, text);
}

proof fn lemma_base_kargs_file_0()
    ensures
        is_tail("# Kernel arguments of every machine. Read by bootc from inside the image, so the\n# command line is a property of what was booted rather than of what was\n# edited afterwards (§8.5).\n#\n# One image boots every role, so none of these isolates a CPU.\n\nkargs = [\n"@, "\nkargs = [\n"@),
{
    reveal(is_tail);
    reveal_strlit("# Kernel arguments of every machine. Read by bootc from inside the image, so the\n# command line is a property of what was booted rather than of what was\n# edited afterwards (§8.5).\n#\n# One image boots every role, so none of these isolates a CPU.\n\nkargs = [\n");
    reveal_strlit("\nkargs = [\n");
    assert("# Kernel arguments of every machine. Read by bootc from inside the image, so the\n# command line is a property of what was booted rather than of what was\n# edited afterwards (§8.5).\n#\n# One image boots every role, so none of these isolates a CPU.\n\nkargs = [\n"@.subrange(246, 257) =~= "\nkargs = [\n"@);
}

} // verus!
