//! The whole model, and what it derives: the fleet's slots, and the text a
//! placeholder stands for.
use vstd::prelude::*;

use crate::address::{dotted, dotted_text_is_digits_and_dots};
use crate::cluster::{role_at, ClusterFile, Node};
use crate::images::ImagesFile;
use crate::network::NetworkFile;
use crate::order::{in_order, key_views, stable_order, Key};
use crate::policy::PolicyFile;
use crate::text::{chars_of, decimal_of, position_from, replace, same, stands_at, string_of};
use crate::text::{
    decimal,
    ends,
    first_from,
    lemma_first_from,
    lemma_first_from_skip,
    occurs_at,
    replaced,
};

verus! {

/// The schema tag this build understands.
pub const SPEC: &'static str = "cluster/1";

/// Where the rendered tree is committed, relative to the repository root.
pub const GENERATED_DIR: &'static str = "generated";

/// Everything the model says, in four parts.
#[derive(Debug)]
pub struct Cluster {
    /// The fleet's shape, the roles, and the hardware a conforming machine has.
    pub cluster: ClusterFile,
    /// Interface classes, addressing arithmetic, routes, firewall.
    pub network: NetworkFile,
    /// Variants, base digest, runtime, packages, units, kernel arguments.
    pub images: ImagesFile,
    /// Rollout timings, drain budgets, retention.
    pub policy: PolicyFile,
}

/// A failure to load or to cross-check the model.
#[derive(Debug, PartialEq, Eq)]
pub enum ClusterError {
    /// A model file could not be read: its path, and why.
    Io(String, String),
    /// A model file could not be parsed: its path, and why.
    Parse(String, String),
    /// The model disagrees with itself.
    Inconsistent(String),
}

impl ClusterError {
    /// What the error says.
    pub open spec fn text_spec(&self) -> Seq<char> {
        match self {
            ClusterError::Io(path, why) => "reading "@ + path@ + ": "@ + why@,
            ClusterError::Parse(path, why) => "parsing "@ + path@ + ": "@ + why@,
            ClusterError::Inconsistent(m) => "the cluster model is inconsistent: "@ + m@,
        }
    }

    /// What the error says.
    pub fn to_text(&self) -> (r: String)
        ensures
            r@ == self.text_spec(),
    {
        match self {
            ClusterError::Io(path, why) => "reading ".to_owned().concat(path.as_str()).concat(
                ": ",
            ).concat(why.as_str()),
            ClusterError::Parse(path, why) => "parsing ".to_owned().concat(path.as_str()).concat(
                ": ",
            ).concat(why.as_str()),
            ClusterError::Inconsistent(m) => "the cluster model is inconsistent: ".to_owned().concat(
                m.as_str(),
            ),
        }
    }
}

/// A fault of the model, as an error.
pub fn bad(m: String) -> (r: ClusterError)
    ensures
        r == ClusterError::Inconsistent(m),
{
    ClusterError::Inconsistent(m)
}

/// Whether a check reports the fault that the model has: success where it has
/// none, and its text where it has one.
pub open spec fn reports(r: Result<(), ClusterError>, fault: Option<Seq<char>>) -> bool {
    match r {
        Ok(_) => fault is None,
        Err(ClusterError::Inconsistent(m)) => fault == Some(m@),
        Err(_) => false,
    }
}

/// What a slot of the fleet is, as values.
pub struct Slot {
    pub ordinal: u32,
    pub name: Seq<char>,
    pub fqdn: Seq<char>,
    pub role: Seq<char>,
    pub update_position: u32,
    pub loopback: Seq<char>,
}

impl View for Node {
    type V = Slot;

    open spec fn view(&self) -> Slot {
        Slot {
            ordinal: self.ordinal,
            name: self.name@,
            fqdn: self.fqdn@,
            role: self.role@,
            update_position: self.update_position,
            loopback: self.loopback@,
        }
    }
}

impl Node {
    /// A copy of the slot.
    pub fn copy(&self) -> (r: Node)
        ensures
            r@ == self@,
    {
        Node {
            ordinal: self.ordinal,
            name: self.name.clone(),
            fqdn: self.fqdn.clone(),
            role: self.role.clone(),
            update_position: self.update_position,
            loopback: self.loopback.clone(),
        }
    }
}

/// What a list of slots holds.
pub open spec fn slots(nodes: Seq<Node>) -> Seq<Slot> {
    Seq::new(nodes.len(), |i: int| nodes[i]@)
}

/// `s` without `suffix`, where it ends with it, and `s` itself where not.
pub open spec fn unsuffixed(s: Seq<char>, suffix: Seq<char>) -> Seq<char> {
    if ends(s, suffix) {
        s.take(s.len() - suffix.len())
    } else {
        s
    }
}

/// `s` without `suffix`, where it ends with it.
pub fn strip_suffix(s: &str, suffix: &str) -> (r: Option<String>)
    ensures
        match r {
            Some(t) => ends(s@, suffix@) && t@ == s@.take(s@.len() - suffix@.len()),
            None => !ends(s@, suffix@),
        },
{
    let text = chars_of(s);
    let tail = chars_of(suffix);
    if tail.len() <= text.len() && stands_at(&text, &tail, text.len() - tail.len()) {
        proof {
            let n = s@.len() - suffix@.len();
            assert(s@.subrange(0, n) =~= s@.take(n));
        }
        Some(string_of(&text, 0, text.len() - tail.len()))
    } else {
        None
    }
}

/// The first slot from `i` on with the given short or qualified name.
pub open spec fn slot_named(list: Seq<Slot>, name: Seq<char>, i: int) -> Option<Slot>
    decreases list.len() - i,
{
    if i < 0 || i >= list.len() {
        None
    } else if list[i].name == name || list[i].fqdn == name {
        Some(list[i])
    } else {
        slot_named(list, name, i + 1)
    }
}

/// The first slot from `i` on with the given role.
pub open spec fn slot_with_role(list: Seq<Slot>, role: Seq<char>, i: int) -> Option<Slot>
    decreases list.len() - i,
{
    if i < 0 || i >= list.len() {
        None
    } else if list[i].role == role {
        Some(list[i])
    } else {
        slot_with_role(list, role, i + 1)
    }
}

/// The slots of `list` with another name.
pub open spec fn others(list: Seq<Slot>, name: Seq<char>) -> Seq<Slot>
    decreases list.len(),
{
    if list.len() == 0 {
        Seq::empty()
    } else if list.last().name != name {
        others(list.drop_last(), name).push(list.last())
    } else {
        others(list.drop_last(), name)
    }
}

/// What slots are ordered by in a rollout.
pub open spec fn slot_keys(list: Seq<Slot>) -> Seq<(int, Seq<char>)> {
    Seq::new(list.len(), |i: int| (list[i].update_position as int, ""@))
}

impl Cluster {
    // ---- the fleet's slots ----

    /// The slot at one ordinal, where the model admits it.
    #[verifier::opaque]
    pub open spec fn slot_at(&self, ordinal: u32) -> Option<Slot> {
        match role_at(self.cluster.role@, ordinal) {
            Some(role) => match self.network.addressing.loopback_spec(ordinal) {
                Some(loopback) => {
                    let fqdn = self.cluster.fleet.name_spec(ordinal, self.cluster.domain@);
                    Some(
                        Slot {
                            ordinal,
                            name: unsuffixed(fqdn, "."@ + self.cluster.domain@),
                            fqdn,
                            role: role.id@,
                            update_position: role.update_position,
                            loopback: dotted(loopback.bits),
                        },
                    )
                },
                None => None,
            },
            None => None,
        }
    }

    /// The slots of the ordinals `1..=n`.
    pub open spec fn slots_upto(&self, n: int) -> Seq<Slot>
        decreases n,
    {
        if n <= 0 {
            Seq::empty()
        } else {
            match self.slot_at(n as u32) {
                Some(slot) => self.slots_upto(n - 1).push(slot),
                None => self.slots_upto(n - 1),
            }
        }
    }

    /// Every slot the fleet has, in ascending order of its ordinal.
    pub open spec fn slots_spec(&self) -> Seq<Slot> {
        self.slots_upto(self.cluster.fleet.size as int)
    }

    /// Every ordinal slot the fleet has, in ascending order.
    ///
    /// Derived, not parsed. An ordinal exists whether or not a machine is
    /// holding it, and everything about the slot is a function of the number.
    pub fn nodes(&self) -> (out: Vec<Node>)
        ensures
            slots(out@) == self.slots_spec(),
    {
        let mut out: Vec<Node> = Vec::new();
        let mut n: u32 = 0;
        proof {
            assert(slots(out@) =~= self.slots_upto(0));
        }
        while n < self.cluster.fleet.size
            invariant
                n <= self.cluster.fleet.size,
                slots(out@) == self.slots_upto(n as int),
            decreases self.cluster.fleet.size - n,
        {
            n = n + 1;
            let ghost before = out@;
            if let Some(node) = self.node_at(n) {
                out.push(node);
                proof {
                    assert(slots(out@) =~= slots(before).push(node@));
                }
            }
        }
        out
    }

    /// The slot at one ordinal, or `None` when the model does not admit it.
    ///
    /// The short name is the fully-qualified one without the domain, so the two
    /// cannot disagree.
    pub fn node_at(&self, ordinal: u32) -> (r: Option<Node>)
        ensures
            match r {
                Some(node) => self.slot_at(ordinal) == Some(node@),
                None => self.slot_at(ordinal) is None,
            },
    {
        proof {
            reveal(Cluster::slot_at);
        }
        let role = match self.cluster.role_of_ordinal(ordinal) {
            Some(role) => role,
            None => {
                return None;
            },
        };
        let loopback = match self.network.addressing.loopback_of(ordinal) {
            Some(loopback) => loopback,
            None => {
                return None;
            },
        };
        let fqdn = self.cluster.fleet.name_of(ordinal, self.cluster.domain.as_str());
        let suffix = ".".to_owned().concat(self.cluster.domain.as_str());
        let name = match strip_suffix(fqdn.as_str(), suffix.as_str()) {
            Some(short) => short,
            None => fqdn.clone(),
        };
        Some(
            Node {
                ordinal,
                name,
                fqdn,
                role: role.id.clone(),
                update_position: role.update_position,
                loopback: loopback.to_text(),
            },
        )
    }

    /// The slot with a given short or fully-qualified name.
    pub fn node(&self, name: &str) -> (r: Option<Node>)
        ensures
            match r {
                Some(node) => slot_named(self.slots_spec(), name@, 0) == Some(node@),
                None => slot_named(self.slots_spec(), name@, 0) is None,
            },
    {
        let nodes = self.nodes();
        let mut i: usize = 0;
        while i < nodes.len()
            invariant
                i <= nodes.len(),
                slots(nodes@) == self.slots_spec(),
                slot_named(self.slots_spec(), name@, 0) == slot_named(
                    slots(nodes@),
                    name@,
                    i as int,
                ),
            decreases nodes.len() - i,
        {
            proof {
                assert(slots(nodes@)[i as int] == nodes@[i as int]@);
            }
            if same(nodes[i].name.as_str(), name) || same(nodes[i].fqdn.as_str(), name) {
                return Some(nodes[i].copy());
            }
            i = i + 1;
        }
        None
    }

    /// The slot holding a role.
    pub fn node_with_role(&self, role: &str) -> (r: Option<Node>)
        ensures
            match r {
                Some(node) => slot_with_role(self.slots_spec(), role@, 0) == Some(node@),
                None => slot_with_role(self.slots_spec(), role@, 0) is None,
            },
    {
        let nodes = self.nodes();
        let mut i: usize = 0;
        while i < nodes.len()
            invariant
                i <= nodes.len(),
                slots(nodes@) == self.slots_spec(),
                slot_with_role(self.slots_spec(), role@, 0) == slot_with_role(
                    slots(nodes@),
                    role@,
                    i as int,
                ),
            decreases nodes.len() - i,
        {
            proof {
                assert(slots(nodes@)[i as int] == nodes@[i as int]@);
            }
            if same(nodes[i].role.as_str(), role) {
                return Some(nodes[i].copy());
            }
            i = i + 1;
        }
        None
    }

    /// Slots in rollout order.
    pub fn in_update_order(&self) -> (out: Vec<Node>)
        ensures
            slots(out@) == in_order(self.slots_spec(), slot_keys(self.slots_spec())),
    {
        let nodes = self.nodes();
        let mut keys: Vec<Key> = Vec::new();
        let mut i: usize = 0;
        while i < nodes.len()
            invariant
                i <= nodes.len(),
                keys.len() == i,
                forall|k: int|
                    0 <= k < i ==> (#[trigger] keys@[k])@ == slot_keys(slots(nodes@))[k],
            decreases nodes.len() - i,
        {
            keys.push(Key { number: nodes[i].update_position as u64, text: "".to_owned() });
            i = i + 1;
        }
        proof {
            assert(key_views(keys@) =~= slot_keys(slots(nodes@)));
        }
        let order = stable_order(&keys);
        let ghost sorted = in_order(slots(nodes@), slot_keys(slots(nodes@)));
        let mut out: Vec<Node> = Vec::new();
        let mut j: usize = 0;
        while j < order.len()
            invariant
                j <= order.len(),
                order.len() == nodes.len(),
                forall|k: int|
                    0 <= k < order.len() ==> (#[trigger] order@[k]) < nodes.len()
                        && nodes@[order@[k] as int]@ == sorted[k],
                out.len() == j,
                forall|k: int| 0 <= k < j ==> (#[trigger] out@[k])@ == sorted[k],
            decreases order.len() - j,
        {
            out.push(nodes[order[j]].copy());
            j = j + 1;
        }
        proof {
            assert(slots(out@) =~= sorted);
        }
        out
    }

    /// Every peer of `node`, in ordinal order.
    pub fn peers_of(&self, node: &str) -> (out: Vec<Node>)
        ensures
            slots(out@) == others(self.slots_spec(), node@),
    {
        let nodes = self.nodes();
        let ghost all = slots(nodes@);
        let mut out: Vec<Node> = Vec::new();
        let mut i: usize = 0;
        proof {
            assert(slots(out@) =~= others(all.take(0), node@));
        }
        while i < nodes.len()
            invariant
                i <= nodes.len(),
                all == slots(nodes@),
                slots(out@) == others(all.take(i as int), node@),
            decreases nodes.len() - i,
        {
            let ghost before = out@;
            proof {
                assert(all.take(i + 1).drop_last() =~= all.take(i as int));
                assert(all.take(i + 1).last() == nodes@[i as int]@);
            }
            if !same(nodes[i].name.as_str(), node) {
                out.push(nodes[i].copy());
                proof {
                    assert(slots(out@) =~= slots(before).push(nodes@[i as int]@));
                }
            }
            i = i + 1;
        }
        proof {
            assert(all.take(i as int) =~= all);
        }
        out
    }

    // ---- placeholders ----

    /// `rest`, a tail of `text`, with every `{<node>.loopback}` replaced by the
    /// address the ordinal derives; or why one cannot be.
    pub open spec fn substituted(&self, text: Seq<char>, rest: Seq<char>) -> Result<
        Seq<char>,
        Seq<char>,
    >
        decreases rest.len(),
    {
        match first_from(rest, seq!['{'], 0) {
            None => Ok(rest),
            Some(open) => if open < 0 || open >= rest.len() {
                Ok(rest)
            } else {
                let after = rest.skip(open + 1);
                match first_from(after, seq!['}'], 0) {
                    None => Err("`"@ + text + "`: an unclosed placeholder"@),
                    Some(close) => {
                        let name = after.take(close);
                        if !ends(name, ".loopback"@) {
                            Err(
                                "`"@ + text + "`: `{"@ + name
                                    + "}` is not a placeholder this renderer knows. Only `<node>.loopback` is substituted."@,
                            )
                        } else {
                            let node = name.take(name.len() - ".loopback"@.len());
                            match slot_named(self.slots_spec(), node, 0) {
                                None => Err(
                                    "`"@ + text + "`: `"@ + node
                                        + "` is not an ordinal in the fleet"@,
                                ),
                                Some(slot) => if close < 0 || close >= after.len() {
                                    Ok(rest)
                                } else {
                                    match self.substituted(text, after.skip(close + 1)) {
                                        Ok(tail) => Ok(rest.take(open) + slot.loopback + tail),
                                        Err(why) => Err(why),
                                    }
                                },
                            }
                        }
                    },
                }
            },
        }
    }

    /// `text` with every placeholder replaced, or why one cannot be.
    pub open spec fn substitution(&self, text: Seq<char>) -> Result<Seq<char>, Seq<char>> {
        self.substituted(text, text)
    }

    /// Substitute `{<node>.loopback}` with the address the ordinal derives.
    ///
    /// A placeholder that fails to resolve is an error rather than a string
    /// that renders unchanged into a unit file nobody reads closely.
    pub fn substitute(&self, text: &str) -> (r: Result<String, ClusterError>)
        ensures
            match r {
                Ok(out) => self.substitution(text@) == Ok::<Seq<char>, Seq<char>>(out@),
                Err(ClusterError::Inconsistent(m)) => self.substitution(text@) == Err::<
                    Seq<char>,
                    Seq<char>,
                >(m@),
                Err(_) => false,
            },
    {
        let chars = chars_of(text);
        let mut brace: Vec<char> = Vec::new();
        brace.push('{');
        let mut close_brace: Vec<char> = Vec::new();
        close_brace.push('}');
        let mut out = String::new();
        let mut at: usize = 0;
        proof {
            assert(brace@ =~= seq!['{']);
            assert(close_brace@ =~= seq!['}']);
            assert(text@.skip(0) =~= text@);
            match self.substitution(text@) {
                Ok(t) => {
                    assert(out@ + t =~= t);
                },
                Err(_) => {},
            }
        }
        loop
            invariant
                at <= chars.len(),
                chars@ == text@,
                brace@ == seq!['{'],
                close_brace@ == seq!['}'],
                self.substitution(text@) == prefixed(
                    out@,
                    self.substituted(text@, text@.skip(at as int)),
                ),
            decreases chars.len() - at,
        {
            let ghost rest = text@.skip(at as int);
            proof {
                lemma_first_from_skip(text@, seq!['{'], at as int, at as int);
                lemma_first_from(text@, seq!['{'], at as int);
            }
            let open: usize = match position_from(&chars, &brace, at) {
                Some(open) => open,
                None => {
                    out.append(string_of(&chars, at, chars.len()).as_str());
                    proof {
                        assert(rest =~= text@.subrange(at as int, text@.len() as int));
                    }
                    return Ok(out);
                },
            };
            let ghost after = rest.skip(open - at + 1);
            proof {
                assert(after =~= text@.skip(open + 1));
                lemma_first_from_skip(text@, seq!['}'], open + 1, open + 1);
                lemma_first_from(text@, seq!['}'], open + 1);
            }
            let close: usize = match position_from(&chars, &close_brace, open + 1) {
                Some(close) => close,
                None => {
                    return Err(
                        bad("`".to_owned().concat(text).concat("`: an unclosed placeholder")),
                    );
                },
            };
            let name = string_of(&chars, open + 1, close);
            proof {
                assert(name@ =~= after.take(close - (open + 1)));
            }
            let node = match strip_suffix(name.as_str(), ".loopback") {
                Some(node) => node,
                None => {
                    return Err(
                        bad(
                            "`".to_owned().concat(text).concat("`: `{").concat(
                                name.as_str(),
                            ).concat(
                                "}` is not a placeholder this renderer knows. Only `<node>.loopback` is substituted.",
                            ),
                        ),
                    );
                },
            };
            let slot = match self.node(node.as_str()) {
                Some(slot) => slot,
                None => {
                    return Err(
                        bad(
                            "`".to_owned().concat(text).concat("`: `").concat(
                                node.as_str(),
                            ).concat("` is not an ordinal in the fleet"),
                        ),
                    );
                },
            };
            let ghost before = out@;
            let head = string_of(&chars, at, open);
            out.append(head.as_str());
            out.append(slot.loopback.as_str());
            proof {
                let tail = text@.skip(close + 1);
                assert(head@ =~= rest.take(open - at));
                assert(after.skip(close - (open + 1) + 1) =~= tail);
                match self.substituted(text@, tail) {
                    Ok(t) => {
                        assert(before + (rest.take(open - at) + slot.loopback@ + t) =~= out@ + t);
                    },
                    Err(_) => {},
                }
            }
            at = close + 1;
        }
    }

    /// `text` with `{policy.prometheus_retention_days}` replaced.
    pub open spec fn policy_expanded(&self, text: Seq<char>) -> Seq<char> {
        replaced(
            text,
            "{policy.prometheus_retention_days}"@,
            decimal(self.policy.gc.prometheus_retention_days as nat),
        )
    }

    /// Substitute `{policy.<field>}` with a threshold from the policy.
    pub fn expand_policy(&self, text: &str) -> (r: String)
        ensures
            r@ == self.policy_expanded(text@),
    {
        replace(
            text,
            "{policy.prometheus_retention_days}",
            decimal_of(self.policy.gc.prometheus_retention_days as u64).as_str(),
        )
    }

    /// Whether every placeholder of `text` resolves.
    pub open spec fn resolves(&self, text: Seq<char>) -> bool {
        self.substitution(text) is Ok
    }

    /// `text` with every placeholder replaced, where each resolves.
    pub open spec fn expanded(&self, text: Seq<char>) -> Seq<char> {
        match self.substitution(text) {
            Ok(out) => out,
            Err(_) => Seq::empty(),
        }
    }

    /// Substitute in a text whose placeholders are known to resolve.
    pub(crate) fn expand(&self, text: &str) -> (r: String)
        requires
            self.resolves(text@),
        ensures
            r@ == self.expanded(text@),
    {
        match self.substitute(text) {
            Ok(out) => out,
            Err(_) => String::new(),
        }
    }
}

/// A success with `before` in front of it; a failure unchanged.
pub open spec fn prefixed(before: Seq<char>, r: Result<Seq<char>, Seq<char>>) -> Result<
    Seq<char>,
    Seq<char>,
> {
    match r {
        Ok(t) => Ok(before + t),
        Err(why) => Err(why),
    }
}

// ---- laws of substitution ----

/// Whether a text opens no placeholder.
pub open spec fn is_plain(text: Seq<char>) -> bool {
    forall|i: int| 0 <= i < text.len() ==> (#[trigger] text[i]) != '{'
}

proof fn lemma_slot_is_plain(c: Cluster, n: int)
    requires
        n <= c.cluster.fleet.size,
    ensures
        forall|i: int|
            0 <= i < c.slots_upto(n).len() ==> is_plain((#[trigger] c.slots_upto(n)[i]).loopback),
    decreases n,
{
    if n > 0 {
        reveal(Cluster::slot_at);
        lemma_slot_is_plain(c, n - 1);
        let before = c.slots_upto(n - 1);
        if let Some(slot) = c.slot_at(n as u32) {
            let address = c.network.addressing.loopback_spec(n as u32).unwrap();
            dotted_text_is_digits_and_dots(address.bits);
            assert(is_plain(slot.loopback));
            assert forall|i: int| 0 <= i < c.slots_upto(n).len() implies is_plain(
                (#[trigger] c.slots_upto(n)[i]).loopback,
            ) by {
                if i < before.len() {
                    assert(c.slots_upto(n)[i] == before[i]);
                } else {
                    assert(c.slots_upto(n)[i] == slot);
                }
            }
        }
    }
}

proof fn lemma_named_is_listed(list: Seq<Slot>, name: Seq<char>, i: int)
    requires
        0 <= i,
    ensures
        slot_named(list, name, i) matches Some(slot) ==> list.contains(slot),
    decreases list.len() - i,
{
    if i < list.len() {
        assert(list.contains(list[i]));
        lemma_named_is_listed(list, name, i + 1);
    }
}

proof fn lemma_plain_has_no_brace(s: Seq<char>)
    ensures
        first_from(s, seq!['{'], 0) is None <==> is_plain(s),
{
    lemma_first_from(s, seq!['{'], 0);
    if first_from(s, seq!['{'], 0) is None {
        assert forall|i: int| 0 <= i < s.len() implies (#[trigger] s[i]) != '{' by {
            assert(!occurs_at(s, seq!['{'], i));
            if s[i] == '{' {
                assert(s.subrange(i, i + 1) =~= seq!['{']);
            }
        }
    } else {
        let k = first_from(s, seq!['{'], 0).unwrap();
        assert(s.subrange(k, k + 1)[0] == s[k]);
    }
}

proof fn lemma_substituted_is_plain(c: Cluster, text: Seq<char>, rest: Seq<char>)
    ensures
        c.substituted(text, rest) matches Ok(out) ==> is_plain(out),
    decreases rest.len(),
{
    lemma_plain_has_no_brace(rest);
    lemma_first_from(rest, seq!['{'], 0);
    if let Some(open) = first_from(rest, seq!['{'], 0) {
        let after = rest.skip(open + 1);
        assert(is_plain(rest.take(open))) by {
            assert forall|i: int| 0 <= i < open implies (#[trigger] rest.take(open)[i]) != '{' by {
                assert(!occurs_at(rest, seq!['{'], i));
                if rest[i] == '{' {
                    assert(rest.subrange(i, i + 1) =~= seq!['{']);
                }
            }
        }
        lemma_first_from(after, seq!['}'], 0);
        if let Some(close) = first_from(after, seq!['}'], 0) {
            let name = after.take(close);
            let node = name.take(name.len() - ".loopback"@.len());
            lemma_substituted_is_plain(c, text, after.skip(close + 1));
            lemma_named_is_listed(c.slots_spec(), node, 0);
            lemma_slot_is_plain(c, c.cluster.fleet.size as int);
            if let Some(slot) = slot_named(c.slots_spec(), node, 0) {
                let k = c.slots_spec().index_of(slot);
                assert(is_plain(c.slots_spec()[k].loopback));
            }
        }
    }
}

/// What substitution gives has no placeholder left, so a second pass leaves it
/// as it is.
pub proof fn substitution_is_done_in_one_pass(c: Cluster, text: Seq<char>)
    requires
        c.resolves(text),
    ensures
        is_plain(c.expanded(text)),
        c.substitution(c.expanded(text)) == Ok::<Seq<char>, Seq<char>>(c.expanded(text)),
{
    lemma_substituted_is_plain(c, text, text);
    lemma_plain_has_no_brace(c.expanded(text));
}

// ---- laws of the slots ----

/// A slot is what the model makes of its ordinal: the role that stands there,
/// the loopback that counts from the base, and the name that the template gives,
/// with and without the domain.
pub proof fn a_slot_is_what_its_ordinal_makes_it(c: Cluster, n: u32, node: Node)
    requires
        call_ensures(Cluster::node_at, (&c, n), Some(node)),
    ensures
        node.ordinal == n,
        role_at(c.cluster.role@, n) is Some,
        node.role@ == role_at(c.cluster.role@, n).unwrap().id@,
        node.update_position == role_at(c.cluster.role@, n).unwrap().update_position,
        c.network.addressing.loopback_spec(n) is Some,
        node.loopback@ == crate::address::dotted(
            c.network.addressing.loopback_spec(n).unwrap().bits,
        ),
        node.fqdn@ == crate::text::replaced(
            crate::text::replaced(
                c.cluster.fleet.name_template@,
                "{ordinal}"@,
                crate::text::decimal(n as nat),
            ),
            "{domain}"@,
            c.cluster.domain@,
        ),
        ("."@ + c.cluster.domain@).is_suffix_of(node.fqdn@) ==> node.fqdn@ =~= node.name@ + ("."@
            + c.cluster.domain@),
        !("."@ + c.cluster.domain@).is_suffix_of(node.fqdn@) ==> node.name@ == node.fqdn@,
{
    reveal(Cluster::slot_at);
    let suffix = "."@ + c.cluster.domain@;
    crate::text::a_text_is_found_where_it_stands(node.fqdn@, suffix);
    assert(c.slot_at(n) == Some(node@));
    if suffix.is_suffix_of(node.fqdn@) {
        let k = node.fqdn@.len() - suffix.len();
        assert(node.fqdn@ =~= node.fqdn@.take(k) + node.fqdn@.subrange(
            k,
            node.fqdn@.len() as int,
        ));
    }
}

/// The others of a node are every slot but its own.
pub proof fn the_others_are_all_but_one(list: Seq<Slot>, name: Seq<char>, slot: Slot)
    ensures
        others(list, name).contains(slot) <==> list.contains(slot) && slot.name != name,
    decreases list.len(),
{
    if list.len() > 0 {
        let (before, last) = (list.drop_last(), list.last());
        the_others_are_all_but_one(before, name, slot);
        assert(list =~= before.push(last));
        lemma_slot_pushed(before, last, slot);
        lemma_slot_pushed(others(before, name), last, slot);
    }
}

proof fn lemma_slot_pushed(list: Seq<Slot>, last: Slot, slot: Slot)
    ensures
        list.push(last).contains(slot) <==> list.contains(slot) || slot == last,
{
    let all = list.push(last);
    assert(all[all.len() - 1] == last);
    if list.contains(slot) {
        let i = list.index_of(slot);
        assert(all[i] == slot);
    }
    if all.contains(slot) {
        let i = all.index_of(slot);
        if i < list.len() {
            assert(list[i] == slot);
        }
    }
}

/// A placeholder for the loopback of a node is replaced by it, and what stands
/// around it is kept.
pub proof fn a_placeholder_is_replaced_by_the_loopback(
    c: Cluster,
    before: Seq<char>,
    node: Seq<char>,
    after: Seq<char>,
    slot: Slot,
)
    requires
        is_plain(before),
        !node.contains('}'),
        slot_named(c.slots_spec(), node, 0) == Some(slot),
        is_plain(after),
    ensures
        c.substitution(before + seq!['{'] + node + ".loopback"@ + seq!['}'] + after) == Ok::<
            Seq<char>,
            Seq<char>,
        >(before + slot.loopback + after),
        slot.name == node || slot.fqdn == node,
{
    let word = ".loopback"@;
    let name = node + word;
    let text = before + seq!['{'] + node + word + seq!['}'] + after;
    let rest = name + seq!['}'] + after;
    assert(text =~= before + seq!['{'] + rest);
    lemma_first_char(before, '{', rest);
    assert(!name.contains('}')) by {
        reveal_strlit(".loopback");
        if name.contains('}') {
            let j = name.index_of('}');
            assert(j < node.len() ==> node[j] == '}');
        }
    }
    lemma_first_char(name, '}', after);
    assert(name.subrange(node.len() as int, name.len() as int) =~= word);
    assert(name.take(name.len() - word.len()) =~= node);
    lemma_plain_has_no_brace(after);
    assert(c.substituted(text, after) == Ok::<Seq<char>, Seq<char>>(after));
    lemma_named_so(c.slots_spec(), node, 0);
}

proof fn lemma_first_char(before: Seq<char>, c: char, after: Seq<char>)
    requires
        forall|i: int| 0 <= i < before.len() ==> (#[trigger] before[i]) != c,
    ensures
        first_from(before + seq![c] + after, seq![c], 0) == Some(before.len() as int),
        (before + seq![c] + after).take(before.len() as int) == before,
        (before + seq![c] + after).skip(before.len() as int + 1) == after,
{
    let text = before + seq![c] + after;
    let at = before.len() as int;
    assert forall|i: int| 0 <= i < at implies (#[trigger] text[i]) != c by {
        assert(text[i] == before[i]);
    }
    lemma_first_where(text, c, 0, at);
    assert(text.take(at) =~= before);
    assert(text.skip(at + 1) =~= after);
}

proof fn lemma_first_where(text: Seq<char>, c: char, from: int, at: int)
    requires
        0 <= from <= at < text.len(),
        text[at] == c,
        forall|i: int| from <= i < at ==> (#[trigger] text[i]) != c,
    ensures
        first_from(text, seq![c], from) == Some(at),
    decreases at - from,
{
    if from == at {
        assert(text.subrange(at, at + 1) =~= seq![c]);
    } else {
        assert(text.subrange(from, from + 1)[0] == text[from]);
        assert(seq![c][0] == c);
        lemma_first_where(text, c, from + 1, at);
    }
}

proof fn lemma_named_so(list: Seq<Slot>, name: Seq<char>, i: int)
    requires
        0 <= i,
    ensures
        slot_named(list, name, i) matches Some(slot) ==> slot.name == name || slot.fqdn == name,
    decreases list.len() - i,
{
    if i < list.len() {
        lemma_named_so(list, name, i + 1);
    }
}

/// What the policy fills in is how long metrics are kept.
pub proof fn the_policy_fills_in_the_retention(c: Cluster, text: &str, r: String)
    requires
        call_ensures(Cluster::expand_policy, (&c, text), r),
    ensures
        r@ == crate::text::replaced(
            text@,
            "{policy.prometheus_retention_days}"@,
            crate::text::decimal(c.policy.gc.prometheus_retention_days as nat),
        ),
{
}

} // verus!
