//! Rendering every infrastructure artifact from the model.
//!
//! What decides what a node is, is rendered: which routes exist, what the
//! firewall accepts, which containers become units, what the kernel is told at
//! boot, and how often the updater wakes. Every rendered file carries a header
//! naming the claims that assert over it.
pub mod claims;
pub mod firewall;
pub mod helpers;
pub mod host;
pub mod hosts;
pub mod kargs;
pub mod kickstart;
pub mod laws;
pub mod networkd;
pub mod quadlet;
pub mod ready;
pub mod services;
pub mod ssh;
pub mod trust;
pub mod units;

use vstd::prelude::*;

use crate::cluster::{self_detected, Node};
use crate::model::{slot_with_role, Cluster, Slot};
use crate::order::{key_views, order_of, stable_order, Key};
use crate::text::{
    begins,
    halves,
    join,
    join_strings,
    split_once,
    starts_with,
    trim_start,
    trimmed_start,
    views,
};

verus! {

/// One rendered file, and the claims that assert over it.
#[derive(Debug, PartialEq, Eq)]
pub struct Rendered {
    /// Path relative to the rendered tree, always with `/` separators.
    pub path: String,
    /// The claims asserting over this file. Never empty.
    pub ids: Vec<&'static str>,
    /// The file's contents below the header.
    pub body: String,
}

/// What a rendered file is, as values.
pub struct File {
    pub path: Seq<char>,
    pub ids: Seq<Seq<char>>,
    pub body: Seq<char>,
}

/// What a list of string slices holds.
pub open spec fn str_views(list: Seq<&'static str>) -> Seq<Seq<char>> {
    Seq::new(list.len(), |i: int| list[i]@)
}

impl View for Rendered {
    type V = File;

    open spec fn view(&self) -> File {
        File { path: self.path@, ids: str_views(self.ids@), body: self.body@ }
    }
}

/// What a list of rendered files holds.
pub open spec fn files(list: Seq<Rendered>) -> Seq<File> {
    Seq::new(list.len(), |i: int| list[i]@)
}

/// The marker every rendered file opens with.
pub const GENERATED_MARKER: &'static str = "@generated";

/// The text of the header line naming the asserting claims.
pub const ASSERTED_BY: &'static str = "Asserted by:";

/// The claim that asserts over the tree as a whole.
pub const TREE_CLAIM: &'static str = "CD-09";

/// The claim that every file is valid in its own syntax.
pub const SYNTAX_CLAIM: &'static str = "CD-16";

/// Where the one node tree lives.
pub const NODE_DIR: &'static str = "node";

/// How a rendered file carries its provenance.
///
/// Inferred from the body rather than declared per file: a field somebody has
/// to set is a field somebody forgets.
#[derive(Debug, Clone, Copy, PartialEq, Eq, Structural)]
pub enum Syntax {
    /// `#` begins a comment, and the header goes first.
    Hash,
    /// An interpreted script: the shebang must stay on line one, so the header
    /// follows it.
    Script,
    /// JSON, which carries no provenance at all: the formats rendered validate
    /// strictly and refuse an unknown key.
    Json,
}

impl Syntax {
    /// Which syntax a body is written in.
    pub open spec fn of_spec(body: Seq<char>) -> Syntax {
        let start = trimmed_start(body);
        if begins(start, "#!"@) {
            Syntax::Script
        } else if begins(start, "{"@) {
            Syntax::Json
        } else {
            Syntax::Hash
        }
    }

    /// Which syntax a body is written in.
    pub fn of(body: &str) -> (r: Syntax)
        ensures
            r == Syntax::of_spec(body@),
    {
        let start = trim_start(body);
        if starts_with(start.as_str(), "#!") {
            Syntax::Script
        } else if starts_with(start.as_str(), "{") {
            Syntax::Json
        } else {
            Syntax::Hash
        }
    }
}

/// The `#`-commented header.
pub open spec fn header(ids: Seq<char>) -> Seq<char> {
    "# "@ + GENERATED_MARKER@ + " by `just render` from model/. Do not edit.\n"@
        + "# R1: the model is the single source. A hand-edit here is the same class\n"@
        + "# of error as a hand-edited CONFORMANCE.md, and check-render says so.\n"@ + "# "@
        + ASSERTED_BY@ + " "@ + ids + "\n"@
}

/// The full file, header included.
pub open spec fn contents_of(file: File) -> Seq<char> {
    let ids = join(file.ids, ", "@);
    match Syntax::of_spec(file.body) {
        Syntax::Hash => header(ids) + "\n"@ + file.body,
        Syntax::Script => match halves(trimmed_start(file.body), "\n"@) {
            Some((shebang, rest)) => shebang + "\n"@ + header(ids) + rest,
            None => trimmed_start(file.body) + "\n"@ + header(ids),
        },
        Syntax::Json => trimmed_start(file.body),
    }
}

/// The strings of a list of string slices.
fn owned(list: &Vec<&'static str>) -> (out: Vec<String>)
    ensures
        views(out@) == str_views(list@),
{
    let mut out: Vec<String> = Vec::new();
    let mut i: usize = 0;
    while i < list.len()
        invariant
            i <= list.len(),
            out.len() == i,
            forall|k: int| 0 <= k < i ==> (#[trigger] out@[k])@ == list@[k]@,
        decreases list.len() - i,
    {
        out.push(list[i].to_owned());
        i = i + 1;
    }
    proof {
        assert(views(out@) =~= str_views(list@));
    }
    out
}

impl Rendered {
    /// The full file, header included --- the bytes that go on disk.
    ///
    /// The header adapts to the file's syntax: an interpreter line stays the
    /// first line of a script, and JSON carries no header.
    pub fn contents(&self) -> (r: String)
        ensures
            r@ == contents_of(self@),
    {
        let ids = join_strings(&owned(&self.ids), ", ");
        match Syntax::of(self.body.as_str()) {
            Syntax::Hash => Self::hash_header(ids.as_str()).concat("\n").concat(
                self.body.as_str(),
            ),
            Syntax::Script => {
                let script = trim_start(self.body.as_str());
                match split_once(script.as_str(), "\n") {
                    Some(h) => {
                        let (shebang, rest) = h;
                        shebang.concat("\n").concat(Self::hash_header(ids.as_str()).as_str()).concat(
                            rest.as_str(),
                        )
                    },
                    None => script.concat("\n").concat(Self::hash_header(ids.as_str()).as_str()),
                }
            },
            Syntax::Json => trim_start(self.body.as_str()),
        }
    }

    /// The `#`-commented header.
    fn hash_header(ids: &str) -> (r: String)
        ensures
            r@ == header(ids@),
    {
        "# ".to_owned().concat(GENERATED_MARKER).concat(
            " by `just render` from model/. Do not edit.\n",
        ).concat("# R1: the model is the single source. A hand-edit here is the same class\n").concat(
            "# of error as a hand-edited CONFORMANCE.md, and check-render says so.\n",
        ).concat("# ").concat(ASSERTED_BY).concat(" ").concat(ids).concat("\n")
    }

    /// A file of the given parts.
    pub fn new(path: String, ids: Vec<&'static str>, body: String) -> (r: Rendered)
        ensures
            r@ == (File { path: path@, ids: str_views(ids@), body: body@ }),
    {
        Rendered { path, ids, body }
    }
}

/// One claim.
pub(crate) fn ids1(a: &'static str) -> (r: Vec<&'static str>)
    ensures
        str_views(r@) == seq![a@],
{
    let r = vec![a];
    proof {
        assert(str_views(r@) =~= seq![a@]);
    }
    r
}

/// Two claims.
pub(crate) fn ids2(a: &'static str, b: &'static str) -> (r: Vec<&'static str>)
    ensures
        str_views(r@) == seq![a@, b@],
{
    let r = vec![a, b];
    proof {
        assert(str_views(r@) =~= seq![a@, b@]);
    }
    r
}

/// Three claims.
pub(crate) fn ids3(a: &'static str, b: &'static str, c: &'static str) -> (r: Vec<&'static str>)
    ensures
        str_views(r@) == seq![a@, b@, c@],
{
    let r = vec![a, b, c];
    proof {
        assert(str_views(r@) =~= seq![a@, b@, c@]);
    }
    r
}

/// A truth value, as Rust writes it.
pub open spec fn flag(b: bool) -> Seq<char> {
    if b {
        "true"@
    } else {
        "false"@
    }
}

/// A truth value, as Rust writes it.
pub(crate) fn flag_of(b: bool) -> (r: &'static str)
    ensures
        r@ == flag(b),
{
    if b {
        "true"
    } else {
        "false"
    }
}

/// The marker a unit of one role waits for.
pub open spec fn marker(role: Seq<char>) -> Seq<char> {
    "/run/cluster/role."@ + role
}

/// The marker a unit of one role waits for, written once the role is known.
///
/// Under `/run`: a role is re-derived on every boot, and a persisted marker
/// could outvote the machine it describes.
pub fn role_marker(role: &str) -> (r: String)
    ensures
        r@ == marker(role@),
{
    "/run/cluster/role.".to_owned().concat(role)
}

/// Whether some slot holds the role that work migrates to.
pub open spec fn has_storage(c: Cluster) -> bool {
    slot_with_role(c.slots_spec(), c.policy.drain.migration_target@, 0) is Some
}

/// The slot that work migrates to, where the storage is.
pub open spec fn storage(c: Cluster) -> Slot {
    slot_with_role(c.slots_spec(), c.policy.drain.migration_target@, 0).unwrap()
}

/// The slot that work migrates to, where the storage is.
pub(crate) fn storage_of(c: &Cluster) -> (r: Node)
    requires
        has_storage(*c),
    ensures
        r@ == storage(*c),
{
    c.node_with_role(c.policy.drain.migration_target.as_str()).unwrap()
}

// ---- the whole tree ----

/// A file with the two claims that assert over every file.
pub open spec fn claimed(file: File) -> File {
    File { ids: file.ids.push(TREE_CLAIM@).push(SYNTAX_CLAIM@), ..file }
}

/// Every artifact the model owns, as the renderers give them.
pub open spec fn artifacts(c: Cluster) -> Seq<File> {
    networkd::policy_files(c) + firewall::filter_files(c) + seq![hosts::hosts_file(c)]
        + quadlet::quadlet_files(c) + seq![kargs::base_kargs_file(c)] + kargs::role_set_files(c)
        + units::unit_files(c) + trust::trust_files(c) + services::service_files(c)
        + host::host_files(c) + helpers::helper_files(c) + seq![kickstart::kickstart_file(c)]
        + seq![ssh::ssh_config_file(c)]
}

/// What files are ordered by.
pub open spec fn path_keys(list: Seq<File>) -> Seq<(int, Seq<char>)> {
    Seq::new(list.len(), |i: int| (0int, list[i].path))
}

/// Files with their claims, ordered by path.
pub open spec fn arranged(list: Seq<File>) -> Seq<File> {
    Seq::new(list.len(), |i: int| claimed(list[order_of(path_keys(list))[i]]))
}

/// The rendered tree: every artifact with its claims, ordered by path.
pub open spec fn tree(c: Cluster) -> Seq<File> {
    arranged(artifacts(c))
}

/// Whether the model says everything the renderers read of it.
pub open spec fn renderable(c: Cluster) -> bool {
    &&& networkd::has_classes(c)
    &&& c.cluster.fleet.size <= 65536
    &&& has_storage(c)
    &&& quadlet::all_resolve(c)
    &&& units::agents_ready(c)
    &&& services::alerts_known(c)
    &&& services::all_exportable(c)
    &&& helpers::runners_installed(c)
    &&& self_detected(c.cluster.role@).len() > 0
    &&& kickstart::sizes_fit(c)
}

impl Rendered {
    /// The file with the two claims that assert over every file.
    ///
    /// Appended here rather than repeated in each renderer: one that forgot it
    /// would produce a file outside the claims that are about all of them.
    fn with_claims(&self) -> (r: Rendered)
        ensures
            r@ == claimed(self@),
    {
        let mut ids: Vec<&'static str> = Vec::new();
        let mut i: usize = 0;
        while i < self.ids.len()
            invariant
                i <= self.ids.len(),
                ids.len() == i,
                forall|k: int| 0 <= k < i ==> (#[trigger] ids@[k])@ == self.ids@[k]@,
            decreases self.ids.len() - i,
        {
            ids.push(self.ids[i]);
            i = i + 1;
        }
        ids.push(TREE_CLAIM);
        ids.push(SYNTAX_CLAIM);
        proof {
            assert(str_views(ids@) =~= str_views(self.ids@).push(TREE_CLAIM@).push(SYNTAX_CLAIM@));
        }
        Rendered { path: self.path.clone(), ids, body: self.body.clone() }
    }
}

proof fn lemma_files_add(a: Seq<Rendered>, b: Seq<Rendered>)
    ensures
        files(a + b) == files(a) + files(b),
{
    assert(files(a + b) =~= files(a) + files(b));
}

/// `out` followed by `more`.
fn extended(out: Vec<Rendered>, more: Vec<Rendered>) -> (r: Vec<Rendered>)
    ensures
        files(r@) == files(out@) + files(more@),
{
    let mut r = out;
    let mut rest = more;
    proof {
        lemma_files_add(out@, more@);
    }
    r.append(&mut rest);
    r
}

/// A list of one file.
fn one(file: Rendered) -> (r: Vec<Rendered>)
    ensures
        files(r@) == seq![file@],
{
    let r = vec![file];
    proof {
        assert(files(r@) =~= seq![file@]);
    }
    r
}

/// Every artifact the model owns, as the renderers give them.
fn render_each(c: &Cluster) -> (out: Vec<Rendered>)
    requires
        renderable(*c),
    ensures
        files(out@) == artifacts(*c),
{
    let out = networkd::render(c);
    let out = extended(out, firewall::render(c));
    let out = extended(out, one(hosts::render(c)));
    let out = extended(out, quadlet::render(c));
    let out = extended(out, one(kargs::render(c)));
    let out = extended(out, kargs::role_kargs(c));
    let out = extended(out, units::render(c));
    let out = extended(out, trust::render(c));
    let out = extended(out, services::render(c));
    let out = extended(out, host::render(c));
    let out = extended(out, helpers::render(c));
    let out = extended(out, one(kickstart::render(c)));
    extended(out, one(ssh::render(c)))
}

/// The files with their claims, ordered by path.
fn arrange(all: &Vec<Rendered>) -> (out: Vec<Rendered>)
    ensures
        files(out@) == arranged(files(all@)),
{
    let ghost list = files(all@);
    let mut keys: Vec<Key> = Vec::new();
    let mut i: usize = 0;
    while i < all.len()
        invariant
            i <= all.len(),
            keys.len() == i,
            forall|k: int| 0 <= k < i ==> (#[trigger] keys@[k])@ == (0int, all@[k]@.path),
        decreases all.len() - i,
    {
        keys.push(Key { number: 0, text: all[i].path.clone() });
        i = i + 1;
    }
    proof {
        assert(key_views(keys@) =~= path_keys(list));
    }
    let order = stable_order(&keys);
    let mut out: Vec<Rendered> = Vec::new();
    let mut j: usize = 0;
    while j < order.len()
        invariant
            j <= order.len(),
            order.len() == all.len(),
            list == files(all@),
            forall|k: int|
                0 <= k < order.len() ==> (#[trigger] order@[k]) < all.len() && order@[k]
                    == order_of(path_keys(list))[k],
            out.len() == j,
            forall|k: int| 0 <= k < j ==> (#[trigger] out@[k])@ == arranged(list)[k],
        decreases order.len() - j,
    {
        proof {
            assert(list[order@[j as int] as int] == all@[order@[j as int] as int]@);
        }
        out.push(all[order[j]].with_claims());
        j = j + 1;
    }
    proof {
        assert(files(out@) =~= arranged(list));
    }
    out
}

/// Render every artifact the model owns, in a stable order.
///
/// Stability matters: the tree is committed and compared, so a render that
/// reordered itself between runs would produce a difference nobody wrote.
pub fn render_all(c: &Cluster) -> (out: Vec<Rendered>)
    requires
        renderable(*c),
    ensures
        files(out@) == tree(*c),
{
    let all = render_each(c);
    arrange(&all)
}

// ---- laws of what files share ----

/// A unit of a role waits for the marker of that role, and of no other.
pub proof fn a_marker_is_of_one_role(a: &str, b: &str, x: String, y: String)
    requires
        call_ensures(role_marker, (a,), x),
        call_ensures(role_marker, (b,), y),
    ensures
        x@ == "/run/cluster/role."@ + a@,
        x@ == y@ ==> a@ == b@,
{
    let head = "/run/cluster/role."@;
    if x@ == y@ {
        assert(x@.skip(head.len() as int) =~= a@);
        assert(y@.skip(head.len() as int) =~= b@);
    }
}

/// The storage node is the slot that holds the role which work migrates to.
pub proof fn storage_is_where_work_migrates(c: Cluster)
    requires
        has_storage(c),
    ensures
        storage(c).role == c.policy.drain.migration_target@,
        c.slots_spec().contains(storage(c)),
{
    lemma_slot_has_role(c.slots_spec(), c.policy.drain.migration_target@, 0);
}

proof fn lemma_slot_has_role(list: Seq<Slot>, role: Seq<char>, i: int)
    requires
        0 <= i,
    ensures
        slot_with_role(list, role, i) matches Some(slot) ==> slot.role == role && list.contains(
            slot,
        ),
    decreases list.len() - i,
{
    if i < list.len() {
        assert(list.contains(list[i]));
        lemma_slot_has_role(list, role, i + 1);
    }
}

/// A truth value is written as Rust writes it.
pub proof fn a_flag_is_true_or_false(b: bool)
    ensures
        b ==> flag(b) == "true"@,
        !b ==> flag(b) == "false"@,
{
}

/// Every file carries the claim over the tree and the claim over its syntax,
/// behind its own.
pub proof fn every_file_carries_the_two_claims(c: Cluster, out: Vec<Rendered>, k: int)
    requires
        call_ensures(render_all, (&c,), out),
        0 <= k < out@.len(),
    ensures
        out@[k].ids@.len() >= 2,
        out@[k].ids@[out@[k].ids@.len() - 2]@ == "CD-09"@,
        out@[k].ids@.last()@ == "CD-16"@,
{
    lemma_two_claims(out@, artifacts(c), k);
}

proof fn lemma_two_claims(out: Seq<Rendered>, list: Seq<File>, k: int)
    requires
        files(out) == arranged(list),
        0 <= k < out.len(),
    ensures
        out[k].ids@.len() >= 2,
        out[k].ids@[out[k].ids@.len() - 2]@ == "CD-09"@,
        out[k].ids@.last()@ == "CD-16"@,
{
    assert(files(out).len() == out.len());
    assert(arranged(list).len() == list.len());
    let source = list[order_of(path_keys(list))[k]];
    assert(arranged(list)[k] == claimed(source));
    assert(files(out)[k] == out[k]@);
    let ids = out[k].ids@;
    assert(str_views(ids) == source.ids.push("CD-09"@).push("CD-16"@));
    assert(ids.len() == source.ids.len() + 2);
    let n = ids.len() as int;
    assert(str_views(ids)[n - 1] == ids[n - 1]@);
    assert(str_views(ids)[n - 2] == ids[n - 2]@);
}

/// What is written of a file is its body, below a header that says that it is
/// generated, and by which claims it is asserted; a document in JSON is its body
/// alone.
pub proof fn what_is_written_is_the_body(file: Rendered, text: String)
    requires
        call_ensures(Rendered::contents, (&file,), text),
    ensures
        ({
            let start = trimmed_start(file.body@);
            let head = "# "@ + "@generated"@ + " by `just render` from model/. Do not edit.\n"@
                + "# R1: the model is the single source. A hand-edit here is the same class\n"@
                + "# of error as a hand-edited CONFORMANCE.md, and check-render says so.\n"@ + "# "@
                + "Asserted by:"@ + " "@ + join(str_views(file.ids@), ", "@) + "\n"@;
            &&& "{"@.is_prefix_of(start) ==> text@ == start
            &&& !"{"@.is_prefix_of(start) && !"#!"@.is_prefix_of(start) ==> text@ == head + "\n"@
                + file.body@
        }),
{
    let start = trimmed_start(file.body@);
    crate::text::a_text_is_found_where_it_stands(start, "{"@);
    crate::text::a_text_is_found_where_it_stands(start, "#!"@);
    reveal_strlit("{");
    reveal_strlit("#!");
    if "{"@.is_prefix_of(start) && "#!"@.is_prefix_of(start) {
        assert(start.subrange(0, 1)[0] == '{');
        assert(start.subrange(0, 2)[0] == '#');
    }
}

} // verus!
