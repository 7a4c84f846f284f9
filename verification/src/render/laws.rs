//! What holds of the rendered tree.
use vstd::prelude::*;

use crate::cluster::Role;
use crate::model::Cluster;
use crate::named::{a_lookup_finds_the_name, row};
use crate::network::FirewallRule;
use crate::order::{
    order_of,
    order_of_is_a_stable_order,
    precedes,
    stable_order_is_a_permutation,
    text_less,
    text_less_trichotomy,
};
use crate::render::firewall::{common_line, restricted_line};
use crate::render::quadlet::{mount_unit, publishable, variant_resolves};
use crate::render::services::{consumer, exportable};
use crate::render::units::agent_ready;
use crate::render::{
    arranged,
    artifacts,
    claimed,
    contents_of,
    files,
    firewall,
    has_storage,
    header,
    helpers,
    host,
    hosts,
    kargs,
    kickstart,
    networkd,
    path_keys,
    quadlet,
    render_all,
    renderable,
    services,
    ssh,
    tree,
    trust,
    units,
    File,
    Rendered,
    Syntax,
    ASSERTED_BY,
    GENERATED_MARKER,
    SYNTAX_CLAIM,
    TREE_CLAIM,
};
use crate::text::{
    begins,
    first_from,
    halves,
    holds,
    join,
    lemma_first_from,
    lemma_first_from_skip,
    occurs_at,
    replaced,
    trimmed_start,
    without_leading,
};

verus! {

/// The tree is in order of its paths, so rendering twice gives it twice.
pub proof fn the_tree_is_in_order(c: Cluster, i: int, j: int)
    requires
        0 <= i < j < tree(c).len(),
    ensures
        !text_less(tree(c)[j].path, tree(c)[i].path),
{
    lemma_arranged_is_in_order(artifacts(c), i, j);
}

proof fn lemma_arranged_is_in_order(list: Seq<File>, i: int, j: int)
    requires
        0 <= i < j < arranged(list).len(),
    ensures
        !text_less(arranged(list)[j].path, arranged(list)[i].path),
{
    let keys = path_keys(list);
    let order = order_of(keys);
    order_of_is_a_stable_order(keys);
    assert(precedes(keys, order[i], order[j]));
    assert(keys[order[i]].1 == arranged(list)[i].path);
    assert(keys[order[j]].1 == arranged(list)[j].path);
    text_less_trichotomy(arranged(list)[i].path, arranged(list)[j].path);
}

/// Every artifact is in the tree, with its claims, and the tree holds nothing
/// else.
pub proof fn the_tree_holds_every_artifact(c: Cluster, i: int)
    requires
        0 <= i < artifacts(c).len(),
    ensures
        tree(c).len() == artifacts(c).len(),
        tree(c).contains(claimed(artifacts(c)[i])),
        exists|k: int|
            0 <= k < artifacts(c).len() && tree(c)[i] == claimed(#[trigger] artifacts(c)[k]),
{
    lemma_arranged_holds(artifacts(c), i);
}

proof fn lemma_arranged_holds(list: Seq<File>, i: int)
    requires
        0 <= i < list.len(),
    ensures
        arranged(list).contains(claimed(list[i])),
        exists|k: int| 0 <= k < list.len() && arranged(list)[i] == claimed(#[trigger] list[k]),
{
    let keys = path_keys(list);
    let order = order_of(keys);
    order_of_is_a_stable_order(keys);
    stable_order_is_a_permutation(keys, order);
    assert(order.contains(i));
    let at = order.index_of(i);
    assert(arranged(list)[at] == claimed(list[i]));
    let k = order[i];
    assert(arranged(list)[i] == claimed(list[k]));
}

/// Whether a claim is neither of the two that are about every file.
pub open spec fn is_specific(id: Seq<char>) -> bool {
    id != TREE_CLAIM@ && id != SYNTAX_CLAIM@
}

/// Whether a file opens its claims with one of its own.
pub open spec fn has_own_claim(file: File) -> bool {
    file.ids.len() > 0 && is_specific(file.ids[0])
}

/// Every file of the tree carries a claim of its own, and after it the claim
/// over the tree and the claim over its syntax, which come last.
pub proof fn every_file_is_claimed(c: Cluster, i: int)
    requires
        0 <= i < tree(c).len(),
    ensures
        has_own_claim(tree(c)[i]),
        ({
            let ids = tree(c)[i].ids;
            ids.len() >= 3 && ids[ids.len() - 2] == TREE_CLAIM@ && ids[ids.len() - 1]
                == SYNTAX_CLAIM@
        }),
{
    let all = artifacts(c);
    let keys = path_keys(all);
    order_of_is_a_stable_order(keys);
    let file = all[order_of(keys)[i]];
    lemma_artifacts_are_claimed(c);
    assert(has_own_claim(file));
    assert(tree(c)[i] == claimed(file));
    assert(claimed(file).ids[0] == file.ids[0]);
}

/// Rendering a model twice gives the same files, in the same order.
pub proof fn rendering_is_deterministic(c: Cluster, a: Vec<Rendered>, b: Vec<Rendered>)
    requires
        call_ensures(render_all, (&c,), a),
        call_ensures(render_all, (&c,), b),
    ensures
        files(a@) == files(b@),
        a@.len() == b@.len(),
        forall|i: int| 0 <= i < a@.len() ==> (#[trigger] a@[i])@ == b@[i]@,
{
    assert(files(a@).len() == a@.len() && files(b@).len() == b@.len());
    assert forall|i: int| 0 <= i < a@.len() implies (#[trigger] a@[i])@ == b@[i]@ by {
        assert(files(a@)[i] == files(b@)[i]);
    }
}

/// No two roles' agents land at one path.
pub proof fn agents_have_paths_of_their_own(c: Cluster, i: int, j: int)
    requires
        0 <= i < j < c.cluster.role@.len(),
        units::hosts_agent(c, c.cluster.role@[i]),
        units::hosts_agent(c, c.cluster.role@[j]),
        c.cluster.role@[i].id@ != c.cluster.role@[j].id@,
    ensures
        units::agent_path(c, c.cluster.role@[i]) != units::agent_path(c, c.cluster.role@[j]),
{
    let (a, b) = (c.cluster.role@[i].id@, c.cluster.role@[j].id@);
    let (before, after) = ("node/systemd/devcontainer-agent-"@, ".service"@);
    let (x, y) = (before + a + after, before + b + after);
    if x == y {
        let (m, n) = (before.len() as int, x.len() - after.len());
        assert(x.subrange(m, n) =~= a);
        assert(y.subrange(m, n) =~= b);
    }
}

/// Whether every file of a list opens its claims with one of its own.
spec fn all_claimed(list: Seq<File>) -> bool {
    forall|i: int| 0 <= i < list.len() ==> has_own_claim(#[trigger] list[i])
}

proof fn lemma_claimed_add(a: Seq<File>, b: Seq<File>)
    requires
        all_claimed(a),
        all_claimed(b),
    ensures
        all_claimed(a + b),
{
    assert forall|i: int| 0 <= i < (a + b).len() implies has_own_claim(#[trigger] (a + b)[i]) by {
        if i < a.len() {
            assert((a + b)[i] == a[i]);
        } else {
            assert((a + b)[i] == b[i - a.len()]);
        }
    }
}

proof fn lemma_specific()
    ensures
        is_specific("CD-01"@),
        is_specific("CD-02"@),
        is_specific("CD-03"@),
        is_specific("CD-04"@),
        is_specific("CD-05"@),
        is_specific("CD-06"@),
        is_specific("CD-07"@),
        is_specific("CD-08"@),
        is_specific("CD-10"@),
        is_specific("CD-11"@),
        is_specific("CD-12"@),
        is_specific("CD-14"@),
        is_specific("CD-15"@),
        is_specific("CD-18"@),
        is_specific("CD-20"@),
{
    reveal_strlit("CD-09");
    reveal_strlit("CD-16");
    reveal_strlit("CD-01");
    reveal_strlit("CD-02");
    reveal_strlit("CD-03");
    reveal_strlit("CD-04");
    reveal_strlit("CD-05");
    reveal_strlit("CD-06");
    reveal_strlit("CD-07");
    reveal_strlit("CD-08");
    reveal_strlit("CD-10");
    reveal_strlit("CD-11");
    reveal_strlit("CD-12");
    reveal_strlit("CD-14");
    reveal_strlit("CD-15");
    reveal_strlit("CD-18");
    reveal_strlit("CD-20");
    assert(TREE_CLAIM@[3] == '0' && TREE_CLAIM@[4] == '9');
    assert(SYNTAX_CLAIM@[3] == '1' && SYNTAX_CLAIM@[4] == '6');
}

proof fn lemma_scripts_claimed(c: Cluster, n: int)
    ensures
        all_claimed(helpers::loop_files(c, n)),
    decreases n,
{
    lemma_specific();
    if n > 0 {
        lemma_scripts_claimed(c, n - 1);
    }
}

proof fn lemma_role_units_claimed(c: Cluster, n: int)
    ensures
        all_claimed(units::role_units(c, n)),
    decreases n,
{
    if n > 0 {
        lemma_role_units_claimed(c, n - 1);
        let role = c.cluster.role@[n - 1];
        let (agent, isolation) = (units::agent_part(c, role), units::isolation_part(c, role));
        assert(all_claimed(agent) && all_claimed(isolation)) by {
            lemma_specific();
        }
        lemma_claimed_add(units::role_units(c, n - 1), agent);
        lemma_claimed_add(units::role_units(c, n - 1) + agent, isolation);
    }
}

proof fn lemma_role_files_claimed(c: Cluster, n: int)
    ensures
        all_claimed(quadlet::roles_files(c, n)),
    decreases n,
{
    if n > 0 {
        lemma_role_files_claimed(c, n - 1);
        let role = c.cluster.role@[n - 1];
        let before = quadlet::roles_files(c, n - 1);
        if let Some(variant) = row(c.images.variant@, role.id@) {
            let own = quadlet::own_files(c, role, variant);
            let runners = quadlet::runner_files(c, role, variant);
            let mounts = quadlet::mount_files(c, role, variant);
            assert(all_claimed(own) && all_claimed(runners) && all_claimed(mounts)) by {
                lemma_specific();
            }
            lemma_claimed_add(own, runners);
            lemma_claimed_add(own + runners, mounts);
        }
        lemma_claimed_add(before, quadlet::role_files(c, role));
    }
}

proof fn lemma_service_files_claimed(c: Cluster)
    ensures
        all_claimed(services::service_files(c)),
        all_claimed(trust::trust_files(c)),
        all_claimed(host::host_files(c)),
{
    lemma_specific();
}

proof fn lemma_unit_files_claimed(c: Cluster)
    ensures
        all_claimed(units::unit_files(c)),
{
    assert(all_claimed(units::base_unit_files(c))) by {
        lemma_specific();
    }
    let n = c.cluster.role@.len() as int;
    lemma_role_units_claimed(c, n);
    lemma_claimed_add(units::base_unit_files(c), units::role_units(c, n));
}

proof fn lemma_network_files_claimed(c: Cluster)
    ensures
        all_claimed(networkd::policy_files(c)),
        all_claimed(firewall::filter_files(c)),
        all_claimed(seq![hosts::hosts_file(c)]),
        all_claimed(seq![kargs::base_kargs_file(c)]),
        all_claimed(kargs::role_set_files(c)),
        all_claimed(seq![kickstart::kickstart_file(c)]),
        all_claimed(seq![ssh::ssh_config_file(c)]),
{
    lemma_specific();
    assert(all_claimed(seq![firewall::ruleset_file(c)]));
    assert(all_claimed(firewall::role_rules_files(c)));
    lemma_claimed_add(seq![firewall::ruleset_file(c)], firewall::role_rules_files(c));
}

proof fn lemma_container_files_claimed(c: Cluster)
    ensures
        all_claimed(quadlet::quadlet_files(c)),
{
    let n = c.cluster.role@.len() as int;
    assert(all_claimed(quadlet::base_files(c))) by {
        lemma_specific();
    }
    lemma_role_files_claimed(c, n);
    lemma_claimed_add(quadlet::base_files(c), quadlet::roles_files(c, n));
}

proof fn lemma_helper_files_claimed(c: Cluster)
    ensures
        all_claimed(helpers::helper_files(c)),
{
    let n = c.cluster.role@.len() as int;
    let (first, last) = (seq![helpers::sshrc_file(c)], seq![helpers::zot_gc_file(c)]);
    assert(all_claimed(first) && all_claimed(last)) by {
        lemma_specific();
    }
    lemma_scripts_claimed(c, n);
    lemma_claimed_add(first, helpers::loop_files(c, n));
    lemma_claimed_add(first + helpers::loop_files(c, n), last);
    assert(helpers::helper_files(c) =~= first + helpers::loop_files(c, n) + last);
}

proof fn lemma_artifacts_are_claimed(c: Cluster)
    ensures
        all_claimed(artifacts(c)),
{
    lemma_network_files_claimed(c);
    lemma_container_files_claimed(c);
    lemma_unit_files_claimed(c);
    lemma_service_files_claimed(c);
    lemma_helper_files_claimed(c);
    let list = networkd::policy_files(c);
    lemma_claimed_add(list, firewall::filter_files(c));
    let list = list + firewall::filter_files(c);
    lemma_claimed_add(list, seq![hosts::hosts_file(c)]);
    let list = list + seq![hosts::hosts_file(c)];
    lemma_claimed_add(list, quadlet::quadlet_files(c));
    let list = list + quadlet::quadlet_files(c);
    lemma_claimed_add(list, seq![kargs::base_kargs_file(c)]);
    let list = list + seq![kargs::base_kargs_file(c)];
    lemma_claimed_add(list, kargs::role_set_files(c));
    let list = list + kargs::role_set_files(c);
    lemma_claimed_add(list, units::unit_files(c));
    let list = list + units::unit_files(c);
    lemma_claimed_add(list, trust::trust_files(c));
    let list = list + trust::trust_files(c);
    lemma_claimed_add(list, services::service_files(c));
    let list = list + services::service_files(c);
    lemma_claimed_add(list, host::host_files(c));
    let list = list + host::host_files(c);
    lemma_claimed_add(list, helpers::helper_files(c));
    let list = list + helpers::helper_files(c);
    lemma_claimed_add(list, seq![kickstart::kickstart_file(c)]);
    let list = list + seq![kickstart::kickstart_file(c)];
    lemma_claimed_add(list, seq![ssh::ssh_config_file(c)]);
}

/// A script keeps its interpreter line: the file begins with it, and the header
/// follows it.
pub proof fn a_script_keeps_its_first_line(file: File)
    requires
        Syntax::of_spec(file.body) == Syntax::Script,
    ensures
        begins(contents_of(file), "#!"@),
        match halves(trimmed_start(file.body), "\n"@) {
            Some((first, rest)) => begins(
                contents_of(file),
                first + "\n"@ + header(join(file.ids, ", "@)),
            ),
            None => begins(
                contents_of(file),
                trimmed_start(file.body) + "\n"@ + header(join(file.ids, ", "@)),
            ),
        },
{
    reveal_strlit("#!");
    reveal_strlit("\n");
    let all = contents_of(file);
    let script = trimmed_start(file.body);
    let head = header(join(file.ids, ", "@));
    assert(script[0] == '#' && script[1] == '!') by {
        let start = script.subrange(0, 2);
        assert(start[0] == script[0] && start[1] == script[1]);
    }
    match halves(script, "\n"@) {
        Some((first, rest)) => {
            lemma_first_from(script, "\n"@, 0);
            assert(first.len() >= 2) by {
                let k = first.len() as int;
                assert(script.subrange(k, k + 1)[0] == script[k]);
            }
            let line = first + "\n"@ + head;
            assert(all.subrange(0, line.len() as int) =~= line);
            assert(all.subrange(0, 2) =~= "#!"@);
        },
        None => {
            let line = script + "\n"@ + head;
            assert(all.subrange(0, line.len() as int) =~= line);
            assert(all.subrange(0, 2) =~= "#!"@);
        },
    }
}

/// A JSON document is written as it is, and opens with its brace.
pub proof fn a_json_document_is_untouched(file: File)
    requires
        Syntax::of_spec(file.body) == Syntax::Json,
    ensures
        contents_of(file) == trimmed_start(file.body),
        begins(contents_of(file), "{"@),
{
}

/// Every file whose format carries a comment says that it was rendered, and
/// names the claims that assert over it.
pub proof fn a_file_names_its_claims(file: File)
    requires
        Syntax::of_spec(file.body) != Syntax::Json,
    ensures
        holds(contents_of(file), GENERATED_MARKER@),
        holds(contents_of(file), ASSERTED_BY@ + " "@ + join(file.ids, ", "@)),
{
    let ids = join(file.ids, ", "@);
    let head = header(ids);
    let all = contents_of(file);
    let marker_at = "# "@.len() as int;
    let before = "# "@ + GENERATED_MARKER@ + " by `just render` from model/. Do not edit.\n"@
        + "# R1: the model is the single source. A hand-edit here is the same class\n"@
        + "# of error as a hand-edited CONFORMANCE.md, and check-render says so.\n"@ + "# "@;
    let named = ASSERTED_BY@ + " "@ + ids;
    assert(head =~= before + named + "\n"@);
    let shift: int = match Syntax::of_spec(file.body) {
        Syntax::Script => match halves(trimmed_start(file.body), "\n"@) {
            Some((first, rest)) => (first.len() + "\n"@.len()) as int,
            None => (trimmed_start(file.body).len() + "\n"@.len()) as int,
        },
        _ => 0,
    };
    assert(all.subrange(shift, shift + head.len()) =~= head);
    assert(head.subrange(marker_at, marker_at + GENERATED_MARKER@.len()) =~= GENERATED_MARKER@);
    assert(head.subrange(before.len() as int, (before.len() + named.len()) as int) =~= named);
    lemma_within(all, head, shift, GENERATED_MARKER@, marker_at);
    lemma_within(all, head, shift, named, before.len() as int);
}

proof fn lemma_within(all: Seq<char>, part: Seq<char>, at: int, pat: Seq<char>, i: int)
    requires
        occurs_at(all, part, at),
        occurs_at(part, pat, i),
    ensures
        occurs_at(all, pat, at + i),
{
    assert(all.subrange(at + i, at + i + pat.len()) =~= part.subrange(i, i + pat.len()));
}

/// A rule that names roles stands in the file of each role it names, and in no
/// other: not in another role's, and not in the common ruleset.
pub proof fn a_restricted_rule_stands_with_its_roles_alone(
    c: Cluster,
    role: Role,
    rule: FirewallRule,
)
    requires
        rule.roles@.len() > 0,
    ensures
        common_line(c, rule).len() == 0,
        restricted_line(c, role, rule).len() > 0 <==> rule.applies_spec(role.id@),
{
    reveal_strlit("    # ");
}

// ---- mount units ----

/// What one character of a mount point becomes in its unit's name.
spec fn escaped_char(c: char) -> Seq<char> {
    if c == '-' {
        "\\x2d"@
    } else if c == '/' {
        "-"@
    } else {
        seq![c]
    }
}

/// A text with each character escaped.
spec fn escaped(s: Seq<char>) -> Seq<char>
    decreases s.len(),
{
    if s.len() == 0 {
        s
    } else {
        escaped_char(s[0]) + escaped(s.skip(1))
    }
}

/// Replacing one character goes character by character.
proof fn lemma_replaced_one(s: Seq<char>, c: char, with: Seq<char>)
    requires
        s.len() > 0,
    ensures
        replaced(s, seq![c], with) == (if s[0] == c {
            with
        } else {
            seq![s[0]]
        }) + replaced(s.skip(1), seq![c], with),
{
    let pat = seq![c];
    lemma_first_from(s, pat, 0);
    if s[0] == c {
        assert(s.subrange(0, 1) =~= pat);
        assert(occurs_at(s, pat, 0));
        assert(s.take(0) + with + replaced(s.skip(1), pat, with) =~= with + replaced(
            s.skip(1),
            pat,
            with,
        ));
    } else {
        assert(s.subrange(0, 1)[0] == s[0]);
        assert(!occurs_at(s, pat, 0));
        lemma_first_from_skip(s, pat, 1, 1);
        let rest = s.skip(1);
        match first_from(s, pat, 0) {
            Some(k) => {
                assert(rest.take(k - 1) =~= s.subrange(1, k));
                assert(s.take(k) =~= seq![s[0]] + rest.take(k - 1));
                assert(rest.skip(k - 1 + 1) =~= s.skip(k + 1));
                let tail = replaced(s.skip(k + 1), pat, with);
                assert(s.take(k) + with + tail =~= seq![s[0]] + (rest.take(k - 1) + with + tail));
            },
            None => {
                assert(s =~= seq![s[0]] + rest);
            },
        }
    }
}

/// Replacing one character of a text put together replaces it in each part.
proof fn lemma_replaced_add(a: Seq<char>, b: Seq<char>, c: char, with: Seq<char>)
    ensures
        replaced(a + b, seq![c], with) == replaced(a, seq![c], with) + replaced(b, seq![c], with),
    decreases a.len(),
{
    let pat = seq![c];
    if a.len() == 0 {
        assert(a + b =~= b);
        assert(replaced(a, pat, with) + replaced(b, pat, with) =~= replaced(b, pat, with));
    } else {
        lemma_replaced_one(a + b, c, with);
        lemma_replaced_one(a, c, with);
        assert((a + b).skip(1) =~= a.skip(1) + b);
        lemma_replaced_add(a.skip(1), b, c, with);
        let head = if a[0] == c {
            with
        } else {
            seq![a[0]]
        };
        assert(head + (replaced(a.skip(1), pat, with) + replaced(b, pat, with)) =~= head + replaced(
            a.skip(1),
            pat,
            with,
        ) + replaced(b, pat, with));
    }
}

proof fn lemma_escaped(s: Seq<char>)
    ensures
        replaced(replaced(s, "-"@, "\\x2d"@), "/"@, "-"@) == escaped(s),
    decreases s.len(),
{
    reveal_strlit("-");
    reveal_strlit("/");
    reveal_strlit("\\x2d");
    assert("-"@ =~= seq!['-']);
    assert("/"@ =~= seq!['/']);
    if s.len() > 0 {
        lemma_replaced_one(s, '-', "\\x2d"@);
        lemma_escaped(s.skip(1));
        let head = if s[0] == '-' {
            "\\x2d"@
        } else {
            seq![s[0]]
        };
        let rest = replaced(s.skip(1), "-"@, "\\x2d"@);
        lemma_replaced_add(head, rest, '/', "-"@);
        assert(replaced(head, "/"@, "-"@) == escaped_char(s[0])) by {
            if s[0] == '-' {
                reveal_with_fuel(replaced, 1);
                lemma_first_from("\\x2d"@, "/"@, 0);
                assert forall|i: int| !occurs_at("\\x2d"@, "/"@, i) by {
                    if occurs_at("\\x2d"@, "/"@, i) {
                        assert("\\x2d"@.subrange(i, i + 1)[0] == '/');
                    }
                }
            } else {
                lemma_replaced_one(head, '/', "-"@);
                assert(head.skip(1) =~= Seq::<char>::empty());
                assert(replaced(Seq::<char>::empty(), seq!['/'], "-"@) =~= Seq::<char>::empty());
                if s[0] == '/' {
                    assert("-"@ + Seq::<char>::empty() =~= "-"@);
                } else {
                    assert(seq![s[0]] + Seq::<char>::empty() =~= seq![s[0]]);
                }
            }
        }
    }
}

proof fn lemma_escaping_is_injective(a: Seq<char>, b: Seq<char>)
    requires
        !a.contains('\\'),
        !b.contains('\\'),
        escaped(a) == escaped(b),
    ensures
        a == b,
    decreases a.len(),
{
    reveal_strlit("-");
    reveal_strlit("\\x2d");
    if a.len() == 0 {
        if b.len() > 0 {
            assert(escaped_char(b[0]).len() > 0);
            assert(escaped(b).len() > 0);
        }
        assert(a =~= b);
    } else if b.len() == 0 {
        assert(escaped_char(a[0]).len() > 0);
        assert(escaped(a).len() > 0);
    } else {
        let (x, y) = (escaped(a), escaped(b));
        assert(a.contains(a[0]) && b.contains(b[0]));
        assert(x[0] == escaped_char(a[0])[0]);
        assert(y[0] == escaped_char(b[0])[0]);
        assert(a[0] == b[0]);
        let n = escaped_char(a[0]).len() as int;
        assert(x.skip(n) =~= escaped(a.skip(1)));
        assert(y.skip(n) =~= escaped(b.skip(1)));
        assert(!a.skip(1).contains('\\')) by {
            if a.skip(1).contains('\\') {
                let i = a.skip(1).index_of('\\');
                assert(a[i + 1] == '\\');
            }
        }
        assert(!b.skip(1).contains('\\')) by {
            if b.skip(1).contains('\\') {
                let i = b.skip(1).index_of('\\');
                assert(b[i + 1] == '\\');
            }
        }
        lemma_escaping_is_injective(a.skip(1), b.skip(1));
        assert(a =~= seq![a[0]] + a.skip(1));
        assert(b =~= seq![b[0]] + b.skip(1));
    }
}

/// Two mount points name two units: mount points whose units have one name
/// differ in nothing but the slashes they begin with. A backslash is what the
/// escape itself is written with, so neither holds one.
pub proof fn two_mount_points_name_two_units(a: Seq<char>, b: Seq<char>)
    requires
        !a.contains('\\'),
        !b.contains('\\'),
        mount_unit(a) == mount_unit(b),
    ensures
        without_leading(a, '/') == without_leading(b, '/'),
{
    let (x, y) = (without_leading(a, '/'), without_leading(b, '/'));
    lemma_without_leading(a);
    lemma_without_leading(b);
    lemma_escaped(x);
    lemma_escaped(y);
    let n = ".mount"@.len() as int;
    let (p, q) = (mount_unit(a), mount_unit(b));
    assert(p.take(p.len() - n) =~= escaped(x));
    assert(q.take(q.len() - n) =~= escaped(y));
    lemma_escaping_is_injective(x, y);
}

proof fn lemma_without_leading(s: Seq<char>)
    requires
        !s.contains('\\'),
    ensures
        !without_leading(s, '/').contains('\\'),
    decreases s.len(),
{
    if s.len() > 0 && s[0] == '/' {
        assert(!s.skip(1).contains('\\')) by {
            if s.skip(1).contains('\\') {
                let i = s.skip(1).index_of('\\');
                assert(s[i + 1] == '\\');
            }
        }
        lemma_without_leading(s.skip(1));
    }
}

/// A model that passes its checks renders, where each of its alerts has an
/// expression and its partition sizes fit 64 bits.
pub proof fn a_checked_model_renders(c: Cluster)
    requires
        c.computable(),
        c.fault() is None,
        c.cluster.role@.len() <= u32::MAX,
        services::alerts_known(c),
        kickstart::sizes_fit(c),
    ensures
        renderable(c),
{
    c.there_is_one_registrar();
    assert(c.drain_fault() is None);
    a_lookup_finds_the_name(c.cluster.role@, c.policy.drain.migration_target@);
    let target = row(c.cluster.role@, c.policy.drain.migration_target@).unwrap();
    c.every_role_has_a_slot(c.cluster.role@.index_of(target));
    assert(has_storage(c));
    assert forall|v: int| 0 <= v < c.images.variant@.len() implies variant_resolves(
        c,
        #[trigger] c.images.variant@[v],
    ) && exportable(c, c.images.variant@[v]) by {
        let variant = c.images.variant@[v];
        c.every_placeholder_resolves(v);
        let quadlets = c.images.base.quadlet@ + variant.quadlet@;
        assert forall|k: int| 0 <= k < variant.quadlet@.len() implies publishable(
            c,
            #[trigger] variant.quadlet@[k],
        ) by {
            let q = c.images.base.quadlet@.len() + k;
            assert(quadlets[q as int] == variant.quadlet@[k]);
            assert forall|p: int| 0 <= p < variant.quadlet@[k].publish@.len() implies c.resolves(
                (#[trigger] variant.quadlet@[k].publish@[p])@,
            ) by {
                assert(c.resolves(quadlets[q as int].publish@[p]@));
            }
        }
        c.roles_and_variants_match(0, v);
        a_lookup_finds_the_name(c.cluster.role@, variant.role@);
        let role = row(c.cluster.role@, variant.role@).unwrap();
        c.every_role_has_a_slot(c.cluster.role@.index_of(role));
        assert(consumer(c, variant) is Some);
    }
    assert forall|k: int| 0 <= k < c.images.base.quadlet@.len() implies publishable(
        c,
        #[trigger] c.images.base.quadlet@[k],
    ) by {
        let role = c.cluster.role@[0];
        c.lemma_some_variant();
        c.every_placeholder_resolves(0);
        let quadlets = c.images.base.quadlet@ + c.images.variant@[0].quadlet@;
        assert(quadlets[k] == c.images.base.quadlet@[k]);
        assert forall|p: int| 0 <= p < c.images.base.quadlet@[k].publish@.len() implies c.resolves(
            (#[trigger] c.images.base.quadlet@[k].publish@[p])@,
        ) by {
            assert(c.resolves(quadlets[k].publish@[p]@));
        }
    }
    assert forall|r: int| 0 <= r < c.cluster.role@.len() implies agent_ready(
        c,
        #[trigger] c.cluster.role@[r],
    ) by {
        let role = c.cluster.role@[r];
        c.every_role_has_a_slot(r);
        a_lookup_finds_the_name(c.images.variant@, role.id@);
        if let Some(variant) = row(c.images.variant@, role.id@) {
            let v = c.images.variant@.index_of(variant);
            c.roles_and_variants_match(r, v);
        }
    }
}

impl Cluster {
    proof fn lemma_some_variant(&self)
        requires
            self.fleet_fault() is None,
            self.variants_fault() is None,
            self.cluster.role@.len() <= u32::MAX,
        ensures
            self.images.variant@.len() > 0,
    {
        self.every_ordinal_has_a_slot();
        self.lemma_first_role_is_covered();
        let role = self.cluster.role@[0];
        a_lookup_finds_the_name(self.images.variant@, role.id@);
    }

    proof fn lemma_first_role_is_covered(&self)
        requires
            self.cluster.role@.len() > 0,
            self.variants_fault() is None,
        ensures
            row(self.images.variant@, self.cluster.role@[0].id@) is Some,
    {
        assert(self.uncovered_fault(0) is None);
    }
}

} // verus!
