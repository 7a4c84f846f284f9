//! Ordering a rollout without a lock.
//!
//! Ordering is a pure function of observable state: no clock, no network, no
//! filesystem. Each node knows its position and reads every peer's health, and
//! [`admits`] decides. In any consistent state it admits at most one node, and
//! the laws at the end of this module prove it.
//!
//! Waiting and halting are different. Waiting is the normal middle of a
//! rollout. Halting is a state that alerts and asks for a human.
use vstd::prelude::*;

use crate::named::{is_listed, listed};
use crate::order::{
    in_order,
    key_views,
    order_of,
    order_of_is_a_stable_order,
    stable_order,
    stable_order_is_a_permutation,
    Key,
};
use crate::text::{begins, chars_of, decimal, decimal_of, same, starts_with, string_of};

verus! {

/// What a node says it is doing.
#[derive(Debug, Clone, Copy, PartialEq, Eq, Structural)]
pub enum State {
    /// Nothing.
    Idle,
    /// Moving its work away.
    Draining,
    /// Applying an update.
    Updating,
}

impl State {
    /// The state's name, as it is published.
    pub open spec fn text_spec(self) -> Seq<char> {
        match self {
            State::Idle => "idle"@,
            State::Draining => "draining"@,
            State::Updating => "updating"@,
        }
    }

    /// The state's name, as it is published.
    pub fn as_str(self) -> (r: &'static str)
        ensures
            r@ == self.text_spec(),
    {
        match self {
            State::Idle => "idle",
            State::Draining => "draining",
            State::Updating => "updating",
        }
    }

    /// The state of a published name.
    pub fn parse(name: &str) -> (r: Option<State>)
        ensures
            match r {
                Some(state) => name@ == state.text_spec(),
                None => name@ != State::Idle.text_spec() && name@ != State::Draining.text_spec()
                    && name@ != State::Updating.text_spec(),
            },
    {
        if same(name, "idle") {
            Some(State::Idle)
        } else if same(name, "draining") {
            Some(State::Draining)
        } else if same(name, "updating") {
            Some(State::Updating)
        } else {
            None
        }
    }
}

/// What one peer reports, as this node sees it.
///
/// Every observable is an `Option` because a peer that cannot be read is
/// unknown, and unknown is neither healthy nor unhealthy.
#[derive(Debug, PartialEq, Eq)]
pub struct PeerReport {
    /// The peer's name.
    pub name: String,
    /// Its position in the rollout sequence.
    pub position: u32,
    /// Whether it reports itself healthy, or `None` if it could not be read.
    pub healthy: Option<bool>,
    /// The digest it reports having booted.
    pub booted: Option<String>,
    /// Its rollout state.
    pub state: Option<State>,
}

impl PeerReport {
    /// A peer that did not answer within the timeout.
    pub fn unknown(name: &str, position: u32) -> (r: PeerReport)
        ensures
            r.name@ == name@,
            r.position == position,
            r.healthy is None,
            r.booted is None,
            r.state is None,
    {
        PeerReport { name: name.to_owned(), position, healthy: None, booted: None, state: None }
    }
}

/// Everything the predicate is evaluated against.
#[derive(Debug)]
pub struct Observation {
    /// This node's name.
    pub node: String,
    /// This node's position in the rollout sequence.
    pub position: u32,
    /// The digest this node is running.
    pub booted: String,
    /// The digest the followed tag resolves to.
    pub target: String,
    /// Digests a node rolled back from.
    pub quarantined: Vec<String>,
    /// Every peer, in any order.
    pub peers: Vec<PeerReport>,
}

/// What the predicate decides.
#[derive(Debug, PartialEq, Eq)]
pub enum Decision {
    /// Nothing to do: this node is already on the target.
    UpToDate,
    /// Admitted. Drain, then apply.
    Apply,
    /// A legitimate not-yet: the next poll will ask again.
    Wait(String),
    /// A condition that needs a human. Never silently reconciled.
    Halt(String),
}

/// What a [`Decision`] says, as values.
pub enum Verdict {
    UpToDate,
    Apply,
    Wait(Seq<char>),
    Halt(Seq<char>),
}

impl View for Decision {
    type V = Verdict;

    open spec fn view(&self) -> Verdict {
        match self {
            Decision::UpToDate => Verdict::UpToDate,
            Decision::Apply => Verdict::Apply,
            Decision::Wait(why) => Verdict::Wait(why@),
            Decision::Halt(why) => Verdict::Halt(why@),
        }
    }
}

impl Decision {
    /// Whether this decision admits the node.
    pub fn applies(&self) -> (r: bool)
        ensures
            r == (self is Apply),
    {
        matches!(self, Decision::Apply)
    }

    /// Whether this decision is a halt.
    pub fn halts(&self) -> (r: bool)
        ensures
            r == (self is Halt),
    {
        matches!(self, Decision::Halt(_))
    }

    /// What the decision says.
    pub open spec fn text_spec(&self) -> Seq<char> {
        match self {
            Decision::UpToDate => "up to date"@,
            Decision::Apply => "admitted"@,
            Decision::Wait(why) => "waiting: "@ + why@,
            Decision::Halt(why) => "halted: "@ + why@,
        }
    }

    /// What the decision says.
    pub fn to_text(&self) -> (r: String)
        ensures
            r@ == self.text_spec(),
    {
        match self {
            Decision::UpToDate => "up to date".to_owned(),
            Decision::Apply => "admitted".to_owned(),
            Decision::Wait(why) => "waiting: ".to_owned().concat(why.as_str()),
            Decision::Halt(why) => "halted: ".to_owned().concat(why.as_str()),
        }
    }
}

/// The first twelve characters of a digest, after `sha256:`.
pub open spec fn short_spec(digest: Seq<char>) -> Seq<char> {
    let bare = if begins(digest, "sha256:"@) {
        digest.skip("sha256:"@.len() as int)
    } else {
        digest
    };
    if bare.len() <= 12 {
        bare
    } else {
        bare.take(12)
    }
}

/// The first twelve characters of a digest, after `sha256:`.
pub fn short(digest: &str) -> (r: String)
    ensures
        r@ == short_spec(digest@),
{
    let text = chars_of(digest);
    let from: usize = if starts_with(digest, "sha256:") {
        "sha256:".unicode_len()
    } else {
        0
    };
    let to: usize = if text.len() - from <= 12 {
        text.len()
    } else {
        from + 12
    };
    let out = string_of(&text, from, to);
    proof {
        let bare = if begins(digest@, "sha256:"@) {
            digest@.skip("sha256:"@.len() as int)
        } else {
            digest@
        };
        assert(bare =~= digest@.skip(from as int));
        assert(out@ =~= short_spec(digest@));
    }
    out
}

/// What peers are ordered by.
pub open spec fn peer_keys(peers: Seq<PeerReport>) -> Seq<(int, Seq<char>)> {
    Seq::new(peers.len(), |i: int| (peers[i].position as int, ""@))
}

/// The peers in rollout order.
pub open spec fn in_rollout_order(peers: Seq<PeerReport>) -> Seq<PeerReport> {
    in_order(peers, peer_keys(peers))
}

/// Why a peer keeps this node from applying, where it does.
pub open spec fn objection(o: Observation, peer: PeerReport) -> Option<Verdict> {
    match peer.healthy {
        None => Some(
            Verdict::Halt(
                peer.name@
                    + " could not be read. Its health is unknown, and proceeding would mean acting on an assumption about a machine that is not answering (§13.2)"@,
            ),
        ),
        Some(healthy) => if !healthy {
            Some(
                Verdict::Halt(
                    peer.name@
                        + " is unhealthy. A cluster updated on top of an unnoticed fault is not a recoverable state; a halted rollout is (§13.5)"@,
                ),
            )
        } else {
            match peer.state {
                None => Some(
                    Verdict::Halt(peer.name@
                        + " reports no rollout state (§13.2)"@),
                ),
                Some(state) => if state != State::Idle {
                    Some(Verdict::Wait(peer.name@
                        + " is "@
                        + state.text_spec()))
                } else if peer.position < o.position && !on_target(o, peer) {
                    Some(
                        Verdict::Wait(
                            peer.name@
                                + " is at position "@
                                + decimal(peer.position as nat)
                                + " and is not yet on "@
                                + short_spec(o.target@),
                        ),
                    )
                } else {
                    None
                },
            }
        },
    }
}

/// Whether a peer reports having booted the target.
pub open spec fn on_target(o: Observation, peer: PeerReport) -> bool {
    peer.booted matches Some(booted) && booted@ == o.target@
}

/// The first objection of a peer from `i` on.
pub open spec fn first_objection(o: Observation, peers: Seq<PeerReport>, i: int) -> Option<Verdict>
    decreases peers.len() - i,
{
    if i < 0 || i >= peers.len() {
        None
    } else {
        match objection(o, peers[i]) {
            Some(verdict) => Some(verdict),
            None => first_objection(o, peers, i + 1),
        }
    }
}

/// What is decided of an observation.
///
/// A new digest must exist, and not be quarantined; then the peers are asked in
/// rollout order, and the first that objects gives the reason.
pub open spec fn verdict(o: Observation) -> Verdict {
    if o.target@ == o.booted@ {
        Verdict::UpToDate
    } else if listed(o.quarantined@, o.target@) {
        Verdict::Halt(
            "target "@
                + short_spec(o.target@)
                + " is quarantined: a node rolled back from it (§13.4)"@,
        )
    } else {
        match first_objection(o, in_rollout_order(o.peers@), 0) {
            Some(verdict) => verdict,
            None => Verdict::Apply,
        }
    }
}

fn object(o: &Observation, peer: &PeerReport) -> (r: Option<Decision>)
    ensures
        match r {
            Some(d) => objection(*o, *peer) == Some(d@),
            None => objection(*o, *peer) is None,
        },
{
    let healthy = match peer.healthy {
        Some(healthy) => healthy,
        None => {
            return Some(
                Decision::Halt(
                    peer.name.clone()
                        .concat(" could not be read. Its health is unknown, and proceeding would mean acting on an assumption about a machine that is not answering (§13.2)"),
                ),
            );
        },
    };
    if !healthy {
        return Some(
            Decision::Halt(
                peer.name.clone()
                    .concat(" is unhealthy. A cluster updated on top of an unnoticed fault is not a recoverable state; a halted rollout is (§13.5)"),
            ),
        );
    }
    let state = match peer.state {
        Some(state) => state,
        None => {
            return Some(
                Decision::Halt(
                    peer.name.clone()
                        .concat(" reports no rollout state (§13.2)"),
                ),
            );
        },
    };
    if state != State::Idle {
        return Some(Decision::Wait(peer.name.clone()
            .concat(" is ")
            .concat(state.as_str())));
    }
    if peer.position < o.position {
        let there = match &peer.booted {
            Some(booted) => same(booted.as_str(), o.target.as_str()),
            None => false,
        };
        if !there {
            return Some(
                Decision::Wait(
                    peer.name.clone()
                        .concat(" is at position ")
                        .concat(decimal_of(peer.position as u64).as_str())
                        .concat(" and is not yet on ")
                        .concat(short(o.target.as_str()).as_str()),
                ),
            );
        }
    }
    None
}

/// The ordering predicate.
///
/// A node applies an update only when a new digest exists that is not
/// quarantined, every peer is healthy and idle, and every peer before it is on
/// the new digest already.
pub fn admits(o: &Observation) -> (r: Decision)
    ensures
        r@ == verdict(*o),
{
    if same(o.target.as_str(), o.booted.as_str()) {
        return Decision::UpToDate;
    }
    if is_listed(&o.quarantined, o.target.as_str()) {
        return Decision::Halt(
            "target ".to_owned()
                .concat(short(o.target.as_str()).as_str())
                .concat(" is quarantined: a node rolled back from it (§13.4)"),
        );
    }
    let mut keys: Vec<Key> = Vec::new();
    let mut i: usize = 0;
    while i < o.peers.len()
        invariant
            i <= o.peers.len(),
            keys.len() == i,
            forall|k: int| 0 <= k < i ==> (#[trigger] keys@[k])@ == peer_keys(o.peers@)[k],
        decreases o.peers.len() - i,
    {
        keys.push(Key { number: o.peers[i].position as u64, text: "".to_owned() });
        i = i + 1;
    }
    proof {
        assert(key_views(keys@) =~= peer_keys(o.peers@));
    }
    let order = stable_order(&keys);
    let ghost peers = in_rollout_order(o.peers@);
    let mut j: usize = 0;
    while j < order.len()
        invariant
            j <= order.len(),
            order.len() == o.peers.len(),
            peers == in_rollout_order(o.peers@),
            o.target@ != o.booted@,
            !listed(o.quarantined@, o.target@),
            forall|k: int|
                0 <= k < order.len() ==> (#[trigger] order@[k]) < o.peers.len()
                    && o.peers@[order@[k] as int] == peers[k],
            first_objection(*o, peers, 0) == first_objection(*o, peers, j as int),
        decreases order.len() - j,
    {
        if let Some(decision) = object(o, &o.peers[order[j]]) {
            return decision;
        }
        j = j + 1;
    }
    Decision::Apply
}

// ---- laws of the rollout ----

proof fn lemma_no_objection(o: Observation, peers: Seq<PeerReport>, i: int)
    requires
        0 <= i,
    ensures
        first_objection(o, peers, i) is None <==> forall|k: int|
            i <= k < peers.len() ==> objection(o, #[trigger] peers[k]) is None,
        first_objection(o, peers, i) matches Some(v) ==> v is Wait || v is Halt,
    decreases peers.len() - i,
{
    if i < peers.len() {
        lemma_no_objection(o, peers, i + 1);
    }
}

/// Whether a peer is in order for this node to apply: healthy, idle, and on the
/// target where it comes first.
pub open spec fn clears(o: Observation, peer: PeerReport) -> bool {
    &&& peer.healthy == Some(true)
    &&& peer.state == Some(State::Idle)
    &&& peer.position < o.position ==> on_target(o, peer)
}

/// A node is admitted if and only if a new digest exists, it is not
/// quarantined, and every peer is healthy, idle, and on the target where it
/// comes first. The order in which peers are listed does not matter.
pub proof fn admitted_if_and_only_if(o: Observation)
    ensures
        verdict(o) is Apply <==> {
            &&& o.target@ != o.booted@
            &&& !listed(o.quarantined@, o.target@)
            &&& forall|i: int| 0 <= i < o.peers@.len() ==> clears(o, #[trigger] o.peers@[i])
        },
{
    let peers = in_rollout_order(o.peers@);
    let keys = peer_keys(o.peers@);
    let order = order_of(keys);
    order_of_is_a_stable_order(keys);
    stable_order_is_a_permutation(keys, order);
    lemma_no_objection(o, peers, 0);
    assert(forall|peer: PeerReport| objection(o, peer) is None <==> #[trigger] clears(o, peer));
    if forall|k: int| 0 <= k < peers.len() ==> objection(o, #[trigger] peers[k]) is None {
        assert forall|i: int| 0 <= i < o.peers@.len() implies clears(o, #[trigger] o.peers@[i]) by {
            assert(order.contains(i));
            let k = order.index_of(i);
            assert(peers[k] == o.peers@[i]);
        }
    }
    if forall|i: int| 0 <= i < o.peers@.len() ==> clears(o, #[trigger] o.peers@[i]) {
        assert forall|k: int| 0 <= k < peers.len() implies objection(o, #[trigger] peers[k])
            is None by {
            assert(peers[k] == o.peers@[order[k]]);
            assert(clears(o, o.peers@[order[k]]));
        }
    }
}

/// Of two nodes that follow the same target, where the later one sees the
/// earlier one as it is, at most one is admitted.
pub proof fn at_most_one_node_is_admitted(earlier: Observation, later: Observation, i: int)
    requires
        earlier.target@ == later.target@,
        earlier.position < later.position,
        0 <= i < later.peers@.len(),
        later.peers@[i].position == earlier.position,
        later.peers@[i].booted matches Some(booted) && booted@ == earlier.booted@,
    ensures
        !(verdict(earlier) is Apply && verdict(later) is Apply),
{
    admitted_if_and_only_if(earlier);
    admitted_if_and_only_if(later);
    if verdict(later) is Apply {
        assert(clears(later, later.peers@[i]));
    }
}

/// A quarantined target is never applied: the rollout halts.
pub proof fn a_quarantined_target_is_never_applied(o: Observation)
    requires
        listed(o.quarantined@, o.target@),
        o.target@ != o.booted@,
    ensures
        verdict(o) is Halt,
{
}

/// A peer that cannot be read, or reports itself unhealthy, keeps the node from
/// applying; where every other peer is in order, the rollout halts.
pub proof fn an_unknown_or_unhealthy_peer_stops_the_rollout(o: Observation, i: int)
    requires
        o.target@ != o.booted@,
        0 <= i < o.peers@.len(),
        o.peers@[i].healthy != Some(true),
    ensures
        verdict(o) is Wait || verdict(o) is Halt,
        (forall|k: int| 0 <= k < o.peers@.len() && k != i ==> clears(o, #[trigger] o.peers@[k]))
            ==> verdict(o) is Halt,
{
    admitted_if_and_only_if(o);
    let peers = in_rollout_order(o.peers@);
    lemma_no_objection(o, peers, 0);
    assert(!clears(o, o.peers@[i]));
    if forall|k: int| 0 <= k < o.peers@.len() && k != i ==> clears(o, #[trigger] o.peers@[k]) {
        let keys = peer_keys(o.peers@);
        let order = order_of(keys);
        order_of_is_a_stable_order(keys);
        stable_order_is_a_permutation(keys, order);
        assert forall|k: int| 0 <= k < peers.len() implies (match objection(o, #[trigger] peers[k])
        {
            Some(v) => v is Halt,
            None => true,
        }) by {
            assert(peers[k] == o.peers@[order[k]]);
            if order[k] != i {
                assert(clears(o, o.peers@[order[k]]));
            }
        }
        lemma_only_halts(o, peers, 0);
    }
}

proof fn lemma_only_halts(o: Observation, peers: Seq<PeerReport>, i: int)
    requires
        0 <= i,
        forall|k: int|
            i <= k < peers.len() ==> match objection(o, #[trigger] peers[k]) {
                Some(v) => v is Halt,
                None => true,
            },
    ensures
        first_objection(o, peers, i) matches Some(v) ==> v is Halt,
    decreases peers.len() - i,
{
    if i < peers.len() {
        lemma_only_halts(o, peers, i + 1);
    }
}

/// A peer that is draining or updating makes a node wait, where every other
/// peer is in order: a normal rollout does not alert.
pub proof fn a_peer_mid_flight_is_a_wait(o: Observation, i: int)
    requires
        o.target@ != o.booted@,
        !listed(o.quarantined@, o.target@),
        0 <= i < o.peers@.len(),
        o.peers@[i].healthy == Some(true),
        o.peers@[i].state == Some(State::Draining) || o.peers@[i].state == Some(State::Updating),
        forall|k: int| 0 <= k < o.peers@.len() && k != i ==> clears(o, #[trigger] o.peers@[k]),
    ensures
        verdict(o) is Wait,
{
    admitted_if_and_only_if(o);
    let peers = in_rollout_order(o.peers@);
    lemma_no_objection(o, peers, 0);
    assert(!clears(o, o.peers@[i]));
    let keys = peer_keys(o.peers@);
    let order = order_of(keys);
    order_of_is_a_stable_order(keys);
    assert forall|k: int| 0 <= k < peers.len() implies (match objection(o, #[trigger] peers[k]) {
        Some(v) => v is Wait,
        None => true,
    }) by {
        assert(peers[k] == o.peers@[order[k]]);
        if order[k] != i {
            assert(clears(o, o.peers@[order[k]]));
        }
    }
    lemma_only_waits(o, peers, 0);
}

proof fn lemma_only_waits(o: Observation, peers: Seq<PeerReport>, i: int)
    requires
        0 <= i,
        forall|k: int|
            i <= k < peers.len() ==> match objection(o, #[trigger] peers[k]) {
                Some(v) => v is Wait,
                None => true,
            },
    ensures
        first_objection(o, peers, i) matches Some(v) ==> v is Wait,
    decreases peers.len() - i,
{
    if i < peers.len() {
        lemma_only_waits(o, peers, i + 1);
    }
}

/// Whether `views[i]` is what node `i` of a fleet sees, all nodes healthy and
/// idle: `views[i].position` and `views[i].booted` are the node's own, and its
/// peers are the other nodes as they are.
pub open spec fn consistent(views: Seq<Observation>, target: Seq<char>) -> bool {
    &&& forall|i: int| 0 <= i < views.len() ==> (#[trigger] views[i]).target@ == target
    &&& forall|i: int|
        0 <= i < views.len() ==> !listed((#[trigger] views[i]).quarantined@, target)
    &&& forall|i: int, j: int|
        0 <= i < views.len() && 0 <= j < views.len() && i != j ==> (#[trigger] views[i]).position
            != (#[trigger] views[j]).position
    &&& forall|i: int, p: int|
        0 <= i < views.len() && 0 <= p < views[i].peers@.len() ==> #[trigger] names_a_node(
            views,
            i,
            p,
        )
    &&& forall|i: int, j: int|
        0 <= i < views.len() && 0 <= j < views.len() && i != j ==> #[trigger] sees(views, i, j)
}

/// Whether peer `p` of node `i` is another node as it is.
pub open spec fn names_a_node(views: Seq<Observation>, i: int, p: int) -> bool {
    exists|j: int|
        0 <= j < views.len() && j != i && reports_node(views[i].peers@[p], #[trigger] views[j])
}

/// Whether node `i` has a peer that is node `j` as it is.
pub open spec fn sees(views: Seq<Observation>, i: int, j: int) -> bool {
    exists|p: int|
        0 <= p < views[i].peers@.len() && reports_node(#[trigger] views[i].peers@[p], views[j])
}

/// Whether a report is what a healthy, idle node says of itself.
pub open spec fn reports_node(peer: PeerReport, node: Observation) -> bool {
    &&& peer.position == node.position
    &&& peer.healthy == Some(true)
    &&& peer.state == Some(State::Idle)
    &&& peer.booted matches Some(booted) && booted@ == node.booted@
}

/// In a consistent state the node that is admitted is exactly the one that is
/// not on the target while every node before it is. So a rollout runs in
/// position order, one node at a time, until no node is left.
pub proof fn the_next_node_is_admitted(views: Seq<Observation>, target: Seq<char>, i: int)
    requires
        consistent(views, target),
        0 <= i < views.len(),
    ensures
        verdict(views[i]) is Apply <==> {
            &&& views[i].booted@ != target
            &&& forall|j: int|
                0 <= j < views.len() && (#[trigger] views[j]).position < views[i].position
                    ==> views[j].booted@ == target
        },
{
    let o = views[i];
    admitted_if_and_only_if(o);
    if forall|j: int|
        0 <= j < views.len() && (#[trigger] views[j]).position < o.position ==> views[j].booted@
            == target {
        assert forall|p: int| 0 <= p < o.peers@.len() implies clears(o, #[trigger] o.peers@[p]) by {
            assert(names_a_node(views, i, p));
            let j = choose|j: int|
                0 <= j < views.len() && j != i && reports_node(
                    views[i].peers@[p],
                    #[trigger] views[j],
                );
            assert(reports_node(o.peers@[p], views[j]));
        }
    }
    if verdict(o) is Apply {
        assert forall|j: int|
            0 <= j < views.len() && (#[trigger] views[j]).position < o.position implies views[
            j
        ].booted@ == target by {
            assert(sees(views, i, j));
            let p = choose|p: int|
                0 <= p < views[i].peers@.len() && reports_node(
                    #[trigger] views[i].peers@[p],
                    views[j],
                );
            assert(clears(o, o.peers@[p]));
        }
    }
}

/// While a node is not on the target, some node is admitted.
pub proof fn a_rollout_does_not_stall(views: Seq<Observation>, target: Seq<char>, start: int)
    requires
        consistent(views, target),
        0 <= start < views.len(),
        views[start].booted@ != target,
    ensures
        exists|i: int| 0 <= i < views.len() && verdict(#[trigger] views[i]) is Apply,
    decreases views[start].position,
{
    the_next_node_is_admitted(views, target, start);
    if verdict(views[start]) !is Apply {
        let j = choose|j: int|
            0 <= j < views.len() && (#[trigger] views[j]).position < views[start].position
                && views[j].booted@ != target;
        a_rollout_does_not_stall(views, target, j);
    }
}

// ---- laws of one decision ----

/// A node on the target is up to date, whatever else is observed, and no other
/// node is.
pub proof fn only_the_target_is_up_to_date(o: Observation, r: Decision)
    requires
        call_ensures(admits, (&o,), r),
    ensures
        r is UpToDate <==> o.booted@ == o.target@,
{
    lemma_no_objection(o, in_rollout_order(o.peers@), 0);
}

/// A digest that a node rolled back from halts the rollout, wherever it stands
/// among the quarantined ones, and whatever the peers report.
pub proof fn every_quarantined_digest_halts(o: Observation, r: Decision, i: int)
    requires
        call_ensures(admits, (&o,), r),
        o.target@ != o.booted@,
        0 <= i < o.quarantined@.len(),
        o.quarantined@[i]@ == o.target@,
    ensures
        r is Halt,
        !(r is Apply),
{
    assert(listed(o.quarantined@, o.target@));
}

/// What admission means, peer by peer: a node applies only what no node rolled
/// back from, only while every peer says that it is healthy and idle, and only
/// when every peer before it says that it runs the target.
pub proof fn an_admitted_node_has_every_peer_in_order(o: Observation, r: Decision, i: int)
    requires
        call_ensures(admits, (&o,), r),
        r is Apply,
    ensures
        o.target@ != o.booted@,
        0 <= i < o.quarantined@.len() ==> o.quarantined@[i]@ != o.target@,
        0 <= i < o.peers@.len() ==> {
            &&& o.peers@[i].healthy == Some(true)
            &&& o.peers@[i].state == Some(State::Idle)
            &&& o.peers@[i].position < o.position ==> o.peers@[i].booted is Some
                && o.peers@[i].booted.unwrap()@ == o.target@
        },
{
    admitted_if_and_only_if(o);
    if 0 <= i < o.peers@.len() {
        assert(clears(o, o.peers@[i]));
    }
    if 0 <= i < o.quarantined@.len() && o.quarantined@[i]@ == o.target@ {
        assert(listed(o.quarantined@, o.target@));
    }
}

/// A node with a new digest that nobody rolled back from, whose peers are all
/// healthy and idle, and on the target where they come first, is admitted.
pub proof fn a_node_whose_peers_are_in_order_is_admitted(o: Observation, r: Decision)
    requires
        call_ensures(admits, (&o,), r),
        o.target@ != o.booted@,
        forall|i: int|
            0 <= i < o.quarantined@.len() ==> (#[trigger] o.quarantined@[i])@ != o.target@,
        forall|i: int|
            0 <= i < o.peers@.len() ==> (#[trigger] o.peers@[i]).healthy == Some(true)
                && o.peers@[i].state == Some(State::Idle) && (o.peers@[i].position < o.position
                ==> o.peers@[i].booted is Some && o.peers@[i].booted.unwrap()@ == o.target@),
    ensures
        r is Apply,
{
    admitted_if_and_only_if(o);
    assert forall|i: int| 0 <= i < o.peers@.len() implies clears(o, #[trigger] o.peers@[i]) by {}
}

/// Where exactly one peer stands in the way, what is said of it names it: a
/// peer that does not answer, is unhealthy or reports no state halts the
/// rollout, and one that is busy, or comes first and is not there yet, is
/// waited for.
pub proof fn one_peer_decides(o: Observation, r: Decision, i: int)
    requires
        call_ensures(admits, (&o,), r),
        o.target@ != o.booted@,
        forall|q: int|
            0 <= q < o.quarantined@.len() ==> (#[trigger] o.quarantined@[q])@ != o.target@,
        0 <= i < o.peers@.len(),
        forall|k: int|
            0 <= k < o.peers@.len() && k != i ==> (#[trigger] o.peers@[k]).healthy == Some(true)
                && o.peers@[k].state == Some(State::Idle) && (o.peers@[k].position < o.position
                ==> o.peers@[k].booted is Some && o.peers@[k].booted.unwrap()@ == o.target@),
    ensures
        ({
            let peer = o.peers@[i];
            let behind = peer.position < o.position && !(peer.booted is Some
                && peer.booted.unwrap()@ == o.target@);
            let why = match r {
                Decision::Halt(why) => why@,
                Decision::Wait(why) => why@,
                _ => Seq::<char>::empty(),
            };
            &&& r is Halt <==> peer.healthy != Some(true) || peer.state is None
            &&& r is Wait <==> peer.healthy == Some(true) && peer.state is Some && (peer.state
                != Some(State::Idle) || behind)
            &&& r is Halt || r is Wait ==> peer.name@.is_prefix_of(why)
        }),
{
    let peers = in_rollout_order(o.peers@);
    let keys = peer_keys(o.peers@);
    let order = order_of(keys);
    order_of_is_a_stable_order(keys);
    stable_order_is_a_permutation(keys, order);
    assert(order.contains(i));
    let at = order.index_of(i);
    assert(peers[at] == o.peers@[i]);
    assert forall|k: int| 0 <= k < at implies objection(o, #[trigger] peers[k]) is None by {
        assert(peers[k] == o.peers@[order[k]]);
        assert(order[k] != order[at]);
        assert(clears(o, o.peers@[order[k]]));
    }
    assert forall|k: int| at < k < peers.len() implies objection(o, #[trigger] peers[k]) is None by {
        assert(peers[k] == o.peers@[order[k]]);
        assert(order[k] != order[at]);
        assert(clears(o, o.peers@[order[k]]));
    }
    lemma_first_objection_at(o, peers, 0, at);
    lemma_no_objection(o, peers, 0);
    assert(!listed(o.quarantined@, o.target@));
    assert(objection(o, peers[at]) == objection(o, o.peers@[i]));
    match objection(o, o.peers@[i]) {
        Some(v) => {
            assert(r@ == v);
            let name = o.peers@[i].name@;
            match v {
                Verdict::Halt(why) => {
                    assert(why.take(name.len() as int) =~= name);
                },
                Verdict::Wait(why) => {
                    assert(why.take(name.len() as int) =~= name);
                },
                _ => {},
            }
        },
        None => {
            assert(forall|k: int| 0 <= k < peers.len() ==> objection(o, #[trigger] peers[k]) is None);
        },
    }
}

proof fn lemma_first_objection_at(o: Observation, peers: Seq<PeerReport>, from: int, at: int)
    requires
        0 <= from <= at < peers.len(),
        forall|k: int| from <= k < at ==> objection(o, #[trigger] peers[k]) is None,
    ensures
        objection(o, peers[at]) is Some ==> first_objection(o, peers, from) == objection(
            o,
            peers[at],
        ),
    decreases at - from,
{
    if from < at {
        lemma_first_objection_at(o, peers, from + 1, at);
    }
}

/// Of the peers that stand in the way, the one that comes first in the rollout
/// is named: no peer before it, by position, stands in the way.
pub proof fn the_first_peer_in_the_way_is_named(o: Observation, r: Decision)
    requires
        call_ensures(admits, (&o,), r),
        o.target@ != o.booted@,
        forall|q: int|
            0 <= q < o.quarantined@.len() ==> (#[trigger] o.quarantined@[q])@ != o.target@,
        r is Halt || r is Wait,
    ensures
        exists|i: int|
            {
                &&& 0 <= i < o.peers@.len()
                &&& (#[trigger] o.peers@[i]).name@.is_prefix_of(
                    match r {
                        Decision::Halt(why) => why@,
                        Decision::Wait(why) => why@,
                        _ => Seq::empty(),
                    },
                )
                &&& forall|k: int|
                    0 <= k < o.peers@.len() && (#[trigger] o.peers@[k]).position
                        < o.peers@[i].position ==> o.peers@[k].healthy == Some(true)
                        && o.peers@[k].state == Some(State::Idle)
            },
{
    let peers = in_rollout_order(o.peers@);
    let keys = peer_keys(o.peers@);
    let order = order_of(keys);
    order_of_is_a_stable_order(keys);
    stable_order_is_a_permutation(keys, order);
    assert(!listed(o.quarantined@, o.target@));
    let at = lemma_who_objects(o, peers, 0);
    let i = order[at];
    assert(peers[at] == o.peers@[i]);
    let name = o.peers@[i].name@;
    match objection(o, o.peers@[i]).unwrap() {
        Verdict::Halt(why) => {
            assert(why.take(name.len() as int) =~= name);
        },
        Verdict::Wait(why) => {
            assert(why.take(name.len() as int) =~= name);
        },
        _ => {},
    }
    assert forall|k: int|
        0 <= k < o.peers@.len() && (#[trigger] o.peers@[k]).position < o.peers@[i].position implies
        o.peers@[k].healthy == Some(true) && o.peers@[k].state == Some(State::Idle) by {
        assert(order.contains(k));
        let l = order.index_of(k);
        if at < l {
            assert(crate::order::precedes(keys, order[at], order[l]));
            assert(keys[order[at]].0 == o.peers@[i].position);
            assert(keys[order[l]].0 == o.peers@[k].position);
        }
        assert(l < at);
        assert(objection(o, peers[l]) is None);
        assert(clears(o, peers[l]));
    }
}

proof fn lemma_who_objects(o: Observation, peers: Seq<PeerReport>, from: int) -> (at: int)
    requires
        0 <= from,
        first_objection(o, peers, from) is Some,
    ensures
        from <= at < peers.len(),
        first_objection(o, peers, from) == objection(o, peers[at]),
        forall|k: int| from <= k < at ==> objection(o, #[trigger] peers[k]) is None,
    decreases peers.len() - from,
{
    if objection(o, peers[from]) is Some {
        from
    } else {
        lemma_who_objects(o, peers, from + 1)
    }
}

/// A state is published under its own name, and the name is read back as the
/// state; any other text is no state.
pub proof fn a_published_state_reads_back(state: State, r: Option<State>, name: &'static str)
    requires
        call_ensures(State::as_str, (state,), name),
        call_ensures(State::parse, (name,), r),
    ensures
        r == Some(state),
        state == State::Idle ==> name@ == "idle"@,
        state == State::Draining ==> name@ == "draining"@,
        state == State::Updating ==> name@ == "updating"@,
{
    reveal_strlit("idle");
    reveal_strlit("draining");
    reveal_strlit("updating");
    assert("idle"@.len() == 4 && "draining"@.len() == 8 && "updating"@.len() == 8);
    assert("draining"@[0] != "updating"@[0]);
    assert(name@ == state.text_spec());
}

/// A digest is shortened to its first twelve characters, without the name of
/// its algorithm.
pub proof fn a_short_digest_is_twelve_characters_at_most(digest: &str, r: String)
    requires
        call_ensures(short, (digest,), r),
    ensures
        r@.len() <= 12,
        "sha256:"@.is_prefix_of(digest@) ==> r@.is_prefix_of(digest@.skip(7)) && (r@.len() < 12
            ==> digest@ =~= "sha256:"@ + r@),
        !"sha256:"@.is_prefix_of(digest@) ==> r@.is_prefix_of(digest@) && (r@.len() < 12
            ==> digest@ =~= r@),
{
    reveal_strlit("sha256:");
    let prefix = "sha256:"@;
    assert(prefix.len() == 7);
    if prefix.is_prefix_of(digest@) {
        assert(digest@.subrange(0, 7) =~= digest@.take(7));
        assert(begins(digest@, prefix));
        assert(digest@ =~= digest@.take(7) + digest@.skip(7));
    } else {
        if begins(digest@, prefix) {
            assert(digest@.subrange(0, 7) =~= digest@.take(7));
            assert(prefix =~= digest@.take(7));
        }
    }
}

/// What a decision says begins with what it is, and a reason is said in full.
pub proof fn a_decision_says_what_it_is(d: Decision, text: String)
    requires
        call_ensures(Decision::to_text, (&d,), text),
    ensures
        match d {
            Decision::UpToDate => text@ == "up to date"@,
            Decision::Apply => text@ == "admitted"@,
            Decision::Wait(why) => text@ == "waiting: "@ + why@,
            Decision::Halt(why) => text@ == "halted: "@ + why@,
        },
{
}

/// A decision admits the node, or halts, where it is that decision and in no
/// other case; so none does both.
pub proof fn a_decision_is_one_thing(d: Decision, applies: bool, halts: bool)
    requires
        call_ensures(Decision::applies, (&d,), applies),
        call_ensures(Decision::halts, (&d,), halts),
    ensures
        applies <==> d is Apply,
        halts <==> d is Halt,
        !(applies && halts),
{
}

} // verus!
