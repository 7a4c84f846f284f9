//! One run of the updater: observe, decide, drain, re-check, apply.
//!
//! The run is a state machine. [`advance`] takes what happened and says what to
//! do next; doing it is somebody else's business. A run is admitted twice before
//! it upgrades: once before the drain, and once after it, because peers may have
//! moved while this node was draining.
use vstd::prelude::*;

use crate::lists::{text_list, text_list_of};
use crate::rollout::{admits, verdict, Decision, Observation, PeerReport, State, Verdict};
use crate::rollout::{first_objection, in_rollout_order, objection};
use crate::text::{decimal_of, parse_number, same, split_on, split_once, trim};
use crate::text::{decimal, halves, numeral, split, trimmed, views};

verus! {

// ---- errors ----

/// Where in the rollout a failure happened.
#[derive(Debug, Clone, Copy, PartialEq, Eq, Structural)]
pub enum Stage {
    /// Asking a registry what the followed tag resolves to.
    Resolve,
    /// Verifying the signature before staging.
    Verify,
    /// Reading a peer's health.
    Observe,
    /// Draining the node.
    Drain,
    /// The upgrade and the reboot.
    Apply,
    /// Recording a quarantined digest.
    Quarantine,
}

impl Stage {
    /// The stage's name, as it appears in a log line and an alert.
    pub open spec fn text_spec(self) -> Seq<char> {
        match self {
            Stage::Resolve => "resolve"@,
            Stage::Verify => "verify"@,
            Stage::Observe => "observe"@,
            Stage::Drain => "drain"@,
            Stage::Apply => "apply"@,
            Stage::Quarantine => "quarantine"@,
        }
    }

    /// The stage's name, as it appears in a log line and an alert.
    pub fn as_str(self) -> (r: &'static str)
        ensures
            r@ == self.text_spec(),
    {
        match self {
            Stage::Resolve => "resolve",
            Stage::Verify => "verify",
            Stage::Observe => "observe",
            Stage::Drain => "drain",
            Stage::Apply => "apply",
            Stage::Quarantine => "quarantine",
        }
    }
}

/// A stage that could not be completed.
///
/// It does not cover the ordinary outcomes: "this node is not next" and "a peer
/// is unhealthy" are [`Decision`]s.
#[derive(Debug, PartialEq, Eq)]
pub struct RolloutError {
    /// Which stage could not be completed.
    pub stage: Stage,
    /// What was attempted.
    pub attempted: String,
    /// Why it could not be done.
    pub because: String,
}

impl RolloutError {
    /// What the error says.
    pub open spec fn text_spec(&self) -> Seq<char> {
        self.stage.text_spec()
            + ": `"@
            + self.attempted@
            + "` did not complete: "@
            + self.because@
    }

    /// What the error says.
    pub fn to_text(&self) -> (r: String)
        ensures
            r@ == self.text_spec(),
    {
        self.stage.as_str().to_owned()
            .concat(": `")
            .concat(self.attempted.as_str())
            .concat("` did not complete: ")
            .concat(self.because.as_str())
    }
}

// ---- the environment ----

/// The trimmed pieces of `pieces` that are not empty.
pub open spec fn items(pieces: Seq<Seq<char>>) -> Seq<Seq<char>>
    decreases pieces.len(),
{
    if pieces.len() == 0 {
        Seq::empty()
    } else {
        let item = trimmed(pieces.last());
        if item.len() > 0 {
            items(pieces.drop_last()).push(item)
        } else {
            items(pieces.drop_last())
        }
    }
}

/// The items of a comma-separated list.
pub fn env_list(text: &str) -> (out: Vec<String>)
    ensures
        views(out@) == items(split(text@, ',')),
{
    let pieces = split_on(text, ',');
    let ghost all = split(text@, ',');
    let mut out: Vec<String> = Vec::new();
    let mut i: usize = 0;
    proof {
        assert(views(out@) =~= items(all.take(0)));
    }
    while i < pieces.len()
        invariant
            i <= pieces.len(),
            views(pieces@) == all,
            views(out@) == items(all.take(i as int)),
        decreases pieces.len() - i,
    {
        let ghost before = out@;
        proof {
            assert(all.take(i + 1).drop_last() =~= all.take(i as int));
            assert(all.take(i + 1).last() == pieces@[i as int]@);
        }
        let item = trim(pieces[i].as_str());
        if !item.as_str().is_empty() {
            out.push(item);
            proof {
                assert(views(out@) =~= views(before).push(item@));
            }
        }
        i = i + 1;
    }
    proof {
        assert(all.len() == pieces.len());
        assert(all.take(i as int) =~= all);
    }
    out
}

/// A setting, or what it is where it is not set.
pub fn env_or_default(value: Option<String>, fallback: &str) -> (r: String)
    ensures
        r@ == (match value {
            Some(v) => v@,
            None => fallback@,
        }),
{
    match value {
        Some(v) => v,
        None => fallback.to_owned(),
    }
}

/// The number a setting writes, or what it is where it writes none.
pub open spec fn number_or(text: Seq<char>, max: u64, fallback: u64) -> u64 {
    match numeral(text, 10) {
        Some(n) => if n <= max {
            n as u64
        } else {
            fallback
        },
        None => fallback,
    }
}

/// This node's rollout position; zero where the setting writes none.
pub fn own_position(text: &str) -> (r: u32)
    ensures
        r == number_or(text@, u32::MAX as u64, 0),
{
    match parse_number(text, 10, 0xffff_ffff) {
        Some(n) => n as u32,
        None => 0,
    }
}

/// How long the whole drain may take, in seconds; six hours where the setting
/// writes no number.
pub fn total_budget(text: &str) -> (r: u64)
    ensures
        r == number_or(text@, u64::MAX, 21600),
{
    match parse_number(text, 10, u64::MAX) {
        Some(n) => n,
        None => 21600,
    }
}

/// One peer, as the environment names it.
#[derive(Debug)]
pub struct PeerAddress {
    /// The peer's name.
    pub name: String,
    /// Its position in the rollout sequence.
    pub position: u32,
    /// Where it serves its health.
    pub url: String,
}

/// What `name:position:url` names, or why it names nothing.
pub open spec fn peer_address(spec: Seq<char>) -> Result<
    (Seq<char>, u32, Seq<char>),
    Seq<char>,
> {
    match halves(spec, ":"@) {
        None => Err("expected name:position:url"@),
        Some((name, rest)) => match halves(rest, ":"@) {
            None => Err("expected name:position:url"@),
            Some((position, url)) => match numeral(position, 10) {
                Some(n) => if n <= u32::MAX {
                    Ok((name, n as u32, url))
                } else {
                    Err("`"@
                        + position
                        + "` is not a rollout position"@)
                },
                None => Err("`"@
                    + position
                    + "` is not a rollout position"@),
            },
        },
    }
}

/// The peer that `name:position:url` names.
pub fn parse_peer(spec: &str) -> (r: Result<PeerAddress, RolloutError>)
    ensures
        match r {
            Ok(peer) => peer_address(spec@) == Ok::<(Seq<char>, u32, Seq<char>), Seq<char>>(
                (peer.name@, peer.position, peer.url@),
            ),
            Err(e) => {
                &&& peer_address(spec@) == Err::<(Seq<char>, u32, Seq<char>), Seq<char>>(e.because@)
                &&& e.stage == Stage::Observe
                &&& e.attempted@ == "parse peer `"@
                    + spec@
                    + "`"@
            },
        },
{
    let (name, rest) = match split_once(spec, ":") {
        Some(h) => h,
        None => {
            return Err(malformed(spec, "expected name:position:url".to_owned()));
        },
    };
    let (position, url) = match split_once(rest.as_str(), ":") {
        Some(h) => h,
        None => {
            return Err(malformed(spec, "expected name:position:url".to_owned()));
        },
    };
    match parse_number(position.as_str(), 10, 0xffff_ffff) {
        Some(n) => Ok(PeerAddress { name, position: n as u32, url }),
        None => {
            let position = position.as_str();
            Err(malformed(spec, "`".to_owned()
                .concat(position)
                .concat("` is not a rollout position")))
        },
    }
}

fn malformed(spec: &str, because: String) -> (r: RolloutError)
    ensures
        r.stage == Stage::Observe,
        r.attempted@ == "parse peer `"@
            + spec@
            + "`"@,
        r.because == because,
{
    RolloutError {
        stage: Stage::Observe,
        attempted: "parse peer `".to_owned()
            .concat(spec)
            .concat("`"),
        because,
    }
}

/// What an address of a peer says, as values.
pub open spec fn peer_views(list: Seq<PeerAddress>) -> Seq<(Seq<char>, u32, Seq<char>)> {
    Seq::new(list.len(), |i: int| (list[i].name@, list[i].position, list[i].url@))
}

/// The first of the peers named from `i` on that names nothing, and why.
pub open spec fn bad_peer(specs: Seq<Seq<char>>, i: int) -> Option<(Seq<char>, Seq<char>)>
    decreases specs.len() - i,
{
    if i < 0 || i >= specs.len() {
        None
    } else {
        match peer_address(specs[i]) {
            Ok(_) => bad_peer(specs, i + 1),
            Err(why) => Some((specs[i], why)),
        }
    }
}

/// The peers that a comma-separated list of `name:position:url` names, in its
/// order. One that names nothing fails the whole list.
pub fn parse_peers(text: &str) -> (r: Result<Vec<PeerAddress>, RolloutError>)
    ensures
        match (r, bad_peer(items(split(text@, ',')), 0)) {
            (Ok(peers), None) => {
                let specs = items(split(text@, ','));
                &&& peers.len() == specs.len()
                &&& forall|i: int|
                    0 <= i < specs.len() ==> peer_address(#[trigger] specs[i]) == Ok::<
                        (Seq<char>, u32, Seq<char>),
                        Seq<char>,
                    >(peer_views(peers@)[i])
            },
            (Err(e), Some((spec, why))) => e.stage == Stage::Observe && e.attempted@
                == "parse peer `"@
                + spec
                + "`"@ && e.because@ == why,
            _ => false,
        },
{
    let specs = env_list(text);
    let ghost all = items(split(text@, ','));
    let mut peers: Vec<PeerAddress> = Vec::new();
    let mut i: usize = 0;
    while i < specs.len()
        invariant
            i <= specs.len(),
            all == items(split(text@, ',')),
            views(specs@) == all,
            bad_peer(all, 0) == bad_peer(all, i as int),
            peers.len() == i,
            forall|k: int|
                0 <= k < i ==> peer_address(#[trigger] all[k]) == Ok::<
                    (Seq<char>, u32, Seq<char>),
                    Seq<char>,
                >(peer_views(peers@)[k]),
        decreases specs.len() - i,
    {
        let ghost before = peers@;
        proof {
            assert(all.len() == specs.len());
            assert(all[i as int] == specs@[i as int]@);
        }
        match parse_peer(specs[i].as_str()) {
            Ok(peer) => {
                peers.push(peer);
                proof {
                    assert(forall|k: int|
                        0 <= k < i ==> peer_views(peers@)[k] == #[trigger] peer_views(before)[k]);
                }
            },
            Err(e) => {
                return Err(e);
            },
        }
        i = i + 1;
    }
    proof {
        assert(all.len() == specs.len());
    }
    Ok(peers)
}

/// What `curl` is given to read a peer's health: five seconds for it, where the
/// setting says nothing else.
pub fn health_arguments(timeout: Option<String>, url: &str) -> (r: Vec<String>)
    ensures
        views(r@) == seq![
            "--silent"@,
            "--fail"@,
            "--max-time"@,
            setting(timeout, "5"@),
            url@,
        ],
{
    let ghost limit = setting(timeout, "5"@);
    let r = vec![
        "--silent".to_owned(),
        "--fail".to_owned(),
        "--max-time".to_owned(),
        env_or_default(timeout, "5"),
        url.to_owned(),
    ];
    proof {
        assert(views(r@) =~= seq![
            "--silent"@,
            "--fail"@,
            "--max-time"@,
            limit,
            url@,
        ]);
    }
    r
}

/// What a command was run for: the value found in its output, or why there is
/// none. `answer` is why it could not be run, or what its output holds.
pub fn read_command(
    stage: Stage,
    attempted: &str,
    answer: Result<Option<String>, String>,
    missing: &str,
) -> (r: Result<String, RolloutError>)
    ensures
        match answer {
            Ok(Some(value)) => r == Ok::<String, RolloutError>(value),
            Ok(None) => r matches Err(e) && e.stage == stage && e.attempted@ == attempted@
                && e.because@ == missing@,
            Err(why) => r matches Err(e) && e.stage == stage && e.attempted@ == attempted@
                && e.because == why,
        },
{
    match answer {
        Ok(Some(value)) => Ok(value),
        Ok(None) => Err(
            RolloutError {
                stage,
                attempted: attempted.to_owned(),
                because: missing.to_owned(),
            },
        ),
        Err(why) => Err(RolloutError { stage, attempted: attempted.to_owned(), because: why }),
    }
}

/// The reports of `peers` that are of another node, in order.
pub open spec fn others(peers: Seq<PeerReport>, node: Seq<char>) -> Seq<PeerReport>
    decreases peers.len(),
{
    if peers.len() == 0 {
        Seq::empty()
    } else if peers.last().name@ == node {
        others(peers.drop_last(), node)
    } else {
        others(peers.drop_last(), node).push(peers.last())
    }
}

/// The reports that are of another node, in order.
///
/// The rendered list of peers names the whole fleet, because which entry is this
/// node is not known until it boots.
pub fn other_peers(peers: Vec<PeerReport>, node: &str) -> (out: Vec<PeerReport>)
    ensures
        out@ == others(peers@, node@),
{
    let ghost all = peers@;
    let mut out = peers;
    let mut i: usize = out.len();
    proof {
        assert(all.take(i as int) =~= all);
        assert(others(all, node@) + out@.skip(i as int) =~= others(all, node@));
    }
    while i > 0
        invariant
            i <= out.len(),
            i <= all.len(),
            forall|k: int| 0 <= k < i ==> #[trigger] out@[k] == all[k],
            others(all, node@) == others(all.take(i as int), node@) + out@.skip(i as int),
        decreases i,
    {
        let ghost before = out@;
        let at: usize = i - 1;
        proof {
            assert(all.take(i as int).drop_last() =~= all.take(at as int));
            assert(all.take(i as int).last() == before[at as int]);
        }
        if same(out[at].name.as_str(), node) {
            out.remove(at);
            proof {
                assert(out@.skip(at as int) =~= before.skip(i as int));
            }
        } else {
            proof {
                let rest = others(all.take(at as int), node@);
                assert(rest.push(before[at as int]) + before.skip(i as int) =~= rest + before.skip(
                    at as int,
                ));
            }
        }
        i = at;
    }
    proof {
        assert(all.take(0) =~= Seq::empty());
        assert(out@ =~= others(all.take(0), node@) + out@.skip(0));
    }
    out
}

/// What this node observes: itself, as the settings name it, and the rest of
/// the fleet. A report of this node itself is none of a peer.
pub fn observation(
    node: Option<String>,
    position: Option<String>,
    booted: String,
    target: String,
    quarantined: Vec<String>,
    peers: Vec<PeerReport>,
) -> (r: Observation)
    ensures
        r.node@ == setting(node, "unknown"@),
        r.position == number_or(setting(position, "0"@), u32::MAX as u64, 0),
        r.booted == booted,
        r.target == target,
        r.quarantined == quarantined,
        r.peers@ == others(peers@, setting(node, "unknown"@)),
{
    let position = env_or_default(position, "0");
    let node = env_or_default(node, "unknown");
    let peers = other_peers(peers, node.as_str());
    Observation {
        node,
        position: own_position(position.as_str()),
        booted,
        target,
        quarantined,
        peers,
    }
}

/// What a peer's health document says.
#[derive(Debug)]
pub struct Report {
    /// Whether the peer is healthy.
    pub healthy: bool,
    /// The digest it has booted.
    pub booted: String,
    /// What it is doing.
    pub state: State,
}

/// What this node makes of a peer's answer: a peer that gave none is unknown,
/// not an error.
pub fn peer_report(name: &str, position: u32, answer: Option<Report>) -> (r: PeerReport)
    ensures
        r.name@ == name@,
        r.position == position,
        match answer {
            Some(report) => r.healthy == Some(report.healthy) && r.booted == Some(report.booted)
                && r.state == Some(report.state),
            None => r.healthy is None && r.booted is None && r.state is None,
        },
{
    match answer {
        Some(report) => PeerReport {
            name: name.to_owned(),
            position,
            healthy: Some(report.healthy),
            booted: Some(report.booted),
            state: Some(report.state),
        },
        None => PeerReport::unknown(name, position),
    }
}

// ---- the booted image ----

/// The text at `pointer` of the JSON document that `document` is. `None` where
/// the document is no JSON, or holds no text there.
pub uninterp spec fn json_text(document: Seq<char>, pointer: Seq<char>) -> Option<Seq<char>>;

/// `serde_json::from_str` on the document as a `serde_json::Value`, then
/// `Value::pointer` and `Value::as_str`. What it gives is a function of the
/// document and the pointer.
#[verifier::external_body]
fn read_json_text(document: &str, pointer: &str) -> (r: Option<String>)
    ensures
        match r {
            Some(text) => json_text(document@, pointer@) == Some(text@),
            None => json_text(document@, pointer@) is None,
        },
{
    let value: serde_json::Value = serde_json::from_str(document).ok()?;
    value.pointer(pointer)?.as_str().map(str::to_string)
}

/// The digest that the status document of `bootc` names as booted.
pub fn booted_digest_from(document: &str) -> (r: Option<String>)
    ensures
        match r {
            Some(digest) => json_text(document@, "/status/booted/image/imageDigest"@) == Some(
                digest@,
            ),
            None => json_text(document@, "/status/booted/image/imageDigest"@) is None,
        },
{
    read_json_text(document, "/status/booted/image/imageDigest")
}

// ---- quarantine ----

/// The list under `key` of the JSON object that `document` is, each member its
/// text where it is one. `None` where the document is no JSON, or no object, or
/// holds no list there.
pub uninterp spec fn json_list(document: Seq<u8>, key: Seq<char>) -> Option<
    Seq<Option<Seq<char>>>,
>;

/// What a list of optional strings holds.
pub open spec fn optional_views(list: Seq<Option<String>>) -> Seq<Option<Seq<char>>> {
    Seq::new(
        list.len(),
        |i: int|
            match list[i] {
                Some(s) => Some(s@),
                None => None,
            },
    )
}

/// `serde_json::from_slice` on the document as a `serde_json::Value`, and the
/// array that value holds under `key`, each member its string where it is one.
#[verifier::external_body]
fn read_json_list(document: &[u8], key: &str) -> (r: Option<Vec<Option<String>>>)
    ensures
        match r {
            Some(list) => json_list(document@, key@) == Some(optional_views(list@)),
            None => json_list(document@, key@) is None,
        },
{
    let value: serde_json::Value = serde_json::from_slice(document).ok()?;
    let list = value.get(key)?.as_array()?;
    Some(list.iter().map(|member| member.as_str().map(str::to_string)).collect())
}

/// The texts of `list`, in order.
pub open spec fn texts(list: Seq<Option<Seq<char>>>) -> Seq<Seq<char>>
    decreases list.len(),
{
    if list.len() == 0 {
        Seq::empty()
    } else {
        match list.last() {
            Some(text) => texts(list.drop_last()).push(text),
            None => texts(list.drop_last()),
        }
    }
}

/// The texts of `list`, in order.
pub fn texts_of(list: &Vec<Option<String>>) -> (out: Vec<String>)
    ensures
        views(out@) == texts(optional_views(list@)),
{
    let ghost all = optional_views(list@);
    let mut out: Vec<String> = Vec::new();
    let mut i: usize = 0;
    proof {
        assert(views(out@) =~= texts(all.take(0)));
    }
    while i < list.len()
        invariant
            i <= list.len(),
            all == optional_views(list@),
            views(out@) == texts(all.take(i as int)),
        decreases list.len() - i,
    {
        let ghost before = out@;
        proof {
            assert(all.take(i + 1).drop_last() =~= all.take(i as int));
            assert(all.take(i + 1).last() == all[i as int]);
        }
        if let Some(text) = &list[i] {
            out.push(text.clone());
            proof {
                assert(views(out@) =~= views(before).push(text@));
            }
        }
        i = i + 1;
    }
    proof {
        assert(all.take(i as int) =~= all);
    }
    out
}

/// The digests the control plane's answer reports as quarantined.
///
/// An answer that is no such document yields none, and that is deliberate: the
/// control plane is on the last node to update, so during its own reboot no
/// peer can read it.
pub fn quarantined(document: &[u8]) -> (out: Vec<String>)
    ensures
        views(out@) == (match json_list(document@, "quarantined"@) {
            Some(list) => texts(list),
            None => Seq::empty(),
        }),
{
    match read_json_list(document, "quarantined") {
        Some(list) => texts_of(&list),
        None => {
            let none: Vec<String> = Vec::new();
            proof {
                assert(views(none@) =~= Seq::<Seq<char>>::empty());
            }
            none
        },
    }
}

// ---- acting on the node ----

/// The node, acting on itself.
#[derive(Debug)]
pub struct SystemApplier {
    /// Registries in preference order.
    pub registries: Vec<String>,
    /// The image this node follows, without a tag.
    pub image: String,
    /// The tag whose digest is the target.
    pub tag: String,
    /// Where this node writes its own rollout state for peers to read.
    pub state_path: String,
    /// The control plane's base URL.
    pub control_plane: String,
    /// This node's name.
    pub node: String,
}

/// The settings an applier is made from, each where it is set.
#[derive(Debug)]
pub struct Settings {
    pub node: Option<String>,
    pub registries: Option<String>,
    pub image: Option<String>,
    pub tag: Option<String>,
    pub state_path: Option<String>,
    pub control_plane: Option<String>,
}

/// What a setting is, given what it is where it is not set.
pub open spec fn setting(value: Option<String>, fallback: Seq<char>) -> Seq<char> {
    match value {
        Some(v) => v@,
        None => fallback,
    }
}

/// The applier that the settings describe. The node's name has no default.
pub fn applier_from_environment(settings: Settings) -> (r: Result<SystemApplier, RolloutError>)
    ensures
        match r {
            Ok(a) => {
                &&& setting(settings.node, ""@).len() > 0
                &&& a.node@ == setting(settings.node, ""@)
                &&& views(a.registries@) == items(split(setting(settings.registries, ""@), ','))
                &&& a.image@ == setting(settings.image, ""@)
                &&& a.tag@ == setting(settings.tag, "stable"@)
                &&& a.state_path@ == setting(
                    settings.state_path,
                    "/var/lib/cluster/rollout-state"@,
                )
                &&& a.control_plane@ == setting(settings.control_plane, ""@)
            },
            Err(e) => {
                &&& setting(settings.node, ""@).len() == 0
                &&& e.stage == Stage::Observe
                &&& e.attempted@ == "read $CLUSTER_NODE"@
                &&& e.because@
                    == "unset. The image renders it from model/cluster.toml (§7.2)"@
            },
        },
{
    let node = env_or_default(settings.node, "");
    if node.as_str().is_empty() {
        return Err(
            RolloutError {
                stage: Stage::Observe,
                attempted: "read $CLUSTER_NODE".to_owned(),
                because: "unset. The image renders it from model/cluster.toml (§7.2)".to_owned(),
            },
        );
    }
    let registries = env_or_default(settings.registries, "");
    Ok(
        SystemApplier {
            registries: env_list(registries.as_str()),
            image: env_or_default(settings.image, ""),
            tag: env_or_default(settings.tag, "stable"),
            state_path: env_or_default(settings.state_path, "/var/lib/cluster/rollout-state"),
            control_plane: env_or_default(settings.control_plane, ""),
            node,
        },
    )
}

/// How a command ended.
#[derive(Debug)]
pub enum Ended {
    /// It succeeded; what it wrote.
    Well(String),
    /// It failed; what it wrote to its error stream.
    Badly(String),
    /// It could not be run at all; why.
    NotRun(String),
}

impl SystemApplier {
    /// The reference of the followed tag on one registry.
    pub open spec fn reference_spec(&self, registry: Seq<char>) -> Seq<char> {
        registry
            + "/"@
            + self.image@
            + ":"@
            + self.tag@
    }

    /// The reference of the followed tag on one registry.
    pub fn reference(&self, registry: &str) -> (r: String)
        ensures
            r@ == self.reference_spec(registry@),
    {
        registry.to_owned()
            .concat("/")
            .concat(self.image.as_str())
            .concat(":")
            .concat(self.tag.as_str())
    }

    /// The reference of the followed image at a digest.
    pub open spec fn pinned_spec(&self, digest: Seq<char>) -> Seq<char> {
        self.image@
            + "@"@
            + digest
    }

    /// The reference of the followed image at a digest.
    pub fn pinned(&self, digest: &str) -> (r: String)
        ensures
            r@ == self.pinned_spec(digest@),
    {
        self.image.clone()
            .concat("@")
            .concat(digest)
    }

    /// What asks a registry for the target, as arguments of `skopeo`.
    pub fn resolve_arguments(&self, registry: &str) -> (r: Vec<String>)
        ensures
            views(r@) == seq![
                "inspect"@,
                "--format"@,
                "{{.Digest}}"@,
                "docker://"@ + self.reference_spec(registry@),
            ],
    {
        let r = vec![
            "inspect".to_owned(),
            "--format".to_owned(),
            "{{.Digest}}".to_owned(),
            "docker://".to_owned().concat(self.reference(registry).as_str()),
        ];
        proof {
            assert(views(r@) =~= seq![
                "inspect"@,
                "--format"@,
                "{{.Digest}}"@,
                "docker://"@ + self.reference_spec(registry@),
            ]);
        }
        r
    }

    /// What verifies a digest against the shipped policy, as arguments of
    /// `skopeo`.
    pub fn verify_arguments(&self, digest: &str) -> (r: Vec<String>)
        ensures
            views(r@) == seq![
                "inspect"@,
                "--policy"@,
                "/etc/containers/policy.json"@,
                "docker://"@ + self.pinned_spec(digest@),
            ],
    {
        let r = vec![
            "inspect".to_owned(),
            "--policy".to_owned(),
            "/etc/containers/policy.json".to_owned(),
            "docker://".to_owned().concat(self.pinned(digest).as_str()),
        ];
        proof {
            assert(views(r@) =~= seq![
                "inspect"@,
                "--policy"@,
                "/etc/containers/policy.json"@,
                "docker://"@ + self.pinned_spec(digest@),
            ]);
        }
        r
    }

    /// What one registry's answer settles: the digest, or why it is not known.
    pub open spec fn settled(&self, registry: Seq<char>, ended: Ended) -> Result<
        Seq<char>,
        Seq<char>,
    > {
        match ended {
            Ended::Well(stdout) => if trimmed(stdout@).len() > 0 {
                Ok(trimmed(stdout@))
            } else {
                Err(self.reference_spec(registry)
                    + ": answered with an empty digest"@)
            },
            Ended::Badly(stderr) => Err(self.reference_spec(registry)
                + ": "@
                + trimmed(stderr@)),
            Ended::NotRun(why) => Err(self.reference_spec(registry)
                + ": "@
                + why@),
        }
    }

    /// What one registry's answer settles: the digest, or why it is not known.
    pub fn settle(&self, registry: &str, ended: &Ended) -> (r: Result<String, String>)
        ensures
            match r {
                Ok(digest) => self.settled(registry@, *ended) == Ok::<Seq<char>, Seq<char>>(
                    digest@,
                ),
                Err(why) => self.settled(registry@, *ended) == Err::<Seq<char>, Seq<char>>(why@),
            },
    {
        match ended {
            Ended::Well(stdout) => {
                let digest = trim(stdout.as_str());
                if digest.as_str().is_empty() {
                    Err(self.reference(registry)
                        .concat(": answered with an empty digest"))
                } else {
                    Ok(digest)
                }
            },
            Ended::Badly(stderr) => Err(self.reference(registry)
                .concat(": ")
                .concat(trim(stderr.as_str()).as_str())),
            Ended::NotRun(why) => Err(self.reference(registry)
                .concat(": ")
                .concat(why.as_str())),
        }
    }

    /// What the answers of the registries from `i` on come to, asked in order:
    /// the first digest, or the reasons why there is none.
    pub open spec fn resolved(&self, ended: Seq<Ended>, i: int, why: Seq<Seq<char>>) -> Result<
        Seq<char>,
        Seq<Seq<char>>,
    >
        decreases ended.len() - i,
    {
        if i < 0 || i >= ended.len() {
            Err(why)
        } else {
            match self.settled(self.registries@[i]@, ended[i]) {
                Ok(digest) => Ok(digest),
                Err(reason) => self.resolved(ended, i + 1, why.push(reason)),
            }
        }
    }

    /// The target: what the first registry that answers says.
    ///
    /// `ended` holds the registries' answers, in their order. Where none
    /// answers, that is an error and not "no update available".
    pub fn resolve_target(&self, ended: &Vec<Ended>) -> (r: Result<String, RolloutError>)
        requires
            ended.len() <= self.registries.len(),
        ensures
            match (r, self.resolved(ended@, 0, Seq::empty())) {
                (Ok(digest), Ok(found)) => digest@ == found,
                (Err(e), Err(why)) => {
                    &&& e.stage == Stage::Resolve
                    &&& e.attempted@ == "resolve "@
                        + self.image@
                        + ":"@
                        + self.tag@
                        + " from "@
                        + text_list(views(self.registries@))
                    &&& e.because@ == crate::text::join(why, "; "@)
                },
                _ => false,
            },
    {
        let mut attempts: Vec<String> = Vec::new();
        let mut i: usize = 0;
        proof {
            assert(views(attempts@) =~= Seq::<Seq<char>>::empty());
        }
        while i < ended.len()
            invariant
                i <= ended.len() <= self.registries.len(),
                self.resolved(ended@, 0, Seq::empty()) == self.resolved(
                    ended@,
                    i as int,
                    views(attempts@),
                ),
            decreases ended.len() - i,
        {
            let ghost before = attempts@;
            match self.settle(self.registries[i].as_str(), &ended[i]) {
                Ok(digest) => {
                    return Ok(digest);
                },
                Err(why) => {
                    attempts.push(why);
                    proof {
                        assert(views(attempts@) =~= views(before).push(why@));
                    }
                },
            }
            i = i + 1;
        }
        Err(
            RolloutError {
                stage: Stage::Resolve,
                attempted: "resolve ".to_owned()
                    .concat(self.image.as_str())
                    .concat(":")
                    .concat(self.tag.as_str())
                    .concat(" from ")
                    .concat(text_list_of(&self.registries).as_str()),
                because: crate::text::join_strings(&attempts, "; "),
            },
        )
    }

    /// What the end of the verification means.
    pub fn verified(&self, digest: &str, ended: &Ended) -> (r: Result<(), RolloutError>)
        ensures
            match ended {
                Ended::Well(_) => r is Ok,
                Ended::Badly(stderr) => r matches Err(e) && e.stage == Stage::Verify
                    && e.attempted@ == "verify "@
                        + self.pinned_spec(digest@) && e.because@ == refused_spec(stderr@),
                Ended::NotRun(why) => r matches Err(e) && e.stage == Stage::Verify && e.attempted@
                    == "verify "@
                        + self.pinned_spec(digest@) && e.because@ == why@,
            },
    {
        match ended {
            Ended::Well(_) => Ok(()),
            Ended::Badly(stderr) => Err(
                RolloutError {
                    stage: Stage::Verify,
                    attempted: "verify ".to_owned()
                        .concat(self.pinned(digest).as_str()),
                    because: refused(stderr.as_str()),
                },
            ),
            Ended::NotRun(why) => Err(
                RolloutError {
                    stage: Stage::Verify,
                    attempted: "verify ".to_owned()
                        .concat(self.pinned(digest).as_str()),
                    because: why.clone(),
                },
            ),
        }
    }

    /// What a state that could not be published is reported as.
    pub fn unpublished(&self, state: State, why: String) -> (r: RolloutError)
        ensures
            r.stage == Stage::Observe,
            r.attempted@ == "publish state `"@
                + state.text_spec()
                + "` to "@
                + self.state_path@,
            r.because == why,
    {
        RolloutError {
            stage: Stage::Observe,
            attempted: "publish state `".to_owned()
                .concat(state.as_str())
                .concat("` to ")
                .concat(self.state_path.as_str()),
            because: why,
        }
    }

    /// What asks the control plane how the rollout stands, as arguments of
    /// `curl`.
    pub fn rollout_arguments(&self) -> (r: Vec<String>)
        ensures
            views(r@) == seq![
                "--silent"@,
                "--fail"@,
                "--max-time"@,
                "5"@,
                self.control_plane@ + "/api/rollout"@,
            ],
    {
        let r = vec![
            "--silent".to_owned(),
            "--fail".to_owned(),
            "--max-time".to_owned(),
            "5".to_owned(),
            self.control_plane.clone().concat("/api/rollout"),
        ];
        proof {
            assert(views(r@) =~= seq![
                "--silent"@,
                "--fail"@,
                "--max-time"@,
                "5"@,
                self.control_plane@ + "/api/rollout"@,
            ]);
        }
        r
    }

    /// What asks the control plane to drain this node, as arguments of `curl`.
    pub fn drain_arguments(&self, budget_s: u64) -> (r: Vec<String>)
        ensures
            views(r@) == self.drain_words(budget_s),
    {
        let url = self.control_plane.clone()
            .concat("/api/nodes/")
            .concat(self.node.as_str())
            .concat("/drain");
        let r = vec![
            "--silent".to_owned(),
            "--show-error".to_owned(),
            "--fail".to_owned(),
            "--max-time".to_owned(),
            decimal_of(budget_s),
            "--request".to_owned(),
            "POST".to_owned(),
            url,
        ];
        proof {
            assert(views(r@) =~= self.drain_words(budget_s));
        }
        r
    }

    /// What asks the control plane to drain this node.
    pub open spec fn drain_words(&self, budget_s: u64) -> Seq<Seq<char>> {
        seq![
            "--silent"@,
            "--show-error"@,
            "--fail"@,
            "--max-time"@,
            decimal(budget_s as nat),
            "--request"@,
            "POST"@,
            self.control_plane@
                + "/api/nodes/"@
                + self.node@
                + "/drain"@,
        ]
    }

    /// What the end of the drain means. A drain that did not complete is a halt
    /// and not a failure to report: the work is still running and the node is
    /// still serving.
    pub fn drained(&self, ended: &Ended) -> (r: Result<Decision, RolloutError>)
        ensures
            match ended {
                Ended::Well(_) => r matches Ok(d) && d is Apply,
                Ended::Badly(stderr) => r matches Ok(d) && d@ == Verdict::Halt(
                    self.undrained(stderr@),
                ),
                Ended::NotRun(why) => r matches Err(e) && e.stage == Stage::Drain && e.attempted@
                    == "drain "@
                        + self.node@ && e.because@ == why@,
            },
    {
        match ended {
            Ended::Well(_) => Ok(Decision::Apply),
            Ended::Badly(stderr) => {
                let stderr = stderr.as_str();
                Ok(
                    Decision::Halt(
                        "draining ".to_owned()
                            .concat(self.node.as_str())
                            .concat(" did not complete: ")
                            .concat(trim(stderr).as_str())
                            .concat(". A budget is never met by force (§14.4)"),
                    ),
                )
            },
            Ended::NotRun(why) => Err(
                RolloutError {
                    stage: Stage::Drain,
                    attempted: "drain ".to_owned()
                        .concat(self.node.as_str()),
                    because: why.clone(),
                },
            ),
        }
    }

    /// What a drain that did not complete is told.
    pub open spec fn undrained(&self, stderr: Seq<char>) -> Seq<char> {
        "draining "@
            + self.node@
            + " did not complete: "@
            + trimmed(stderr)
            + ". A budget is never met by force (§14.4)"@
    }

    /// What records a digest as quarantined, as arguments of `curl`.
    pub fn quarantine_arguments(&self, digest: &str) -> (r: Vec<String>)
        ensures
            views(r@) == self.quarantine_words(digest@),
    {
        let body = "{\"digest\":\"".to_owned()
            .concat(digest)
            .concat("\",\"node\":\"")
            .concat(self.node.as_str())
            .concat("\"}");
        let url = self.control_plane.clone()
            .concat("/api/rollout/quarantine");
        let r = vec![
            "--silent".to_owned(),
            "--show-error".to_owned(),
            "--fail".to_owned(),
            "--max-time".to_owned(),
            "10".to_owned(),
            "--request".to_owned(),
            "POST".to_owned(),
            "--header".to_owned(),
            "content-type: application/json".to_owned(),
            "--data".to_owned(),
            body,
            url,
        ];
        proof {
            assert(views(r@) =~= self.quarantine_words(digest@));
        }
        r
    }

    /// What records a digest as quarantined.
    pub open spec fn quarantine_words(&self, digest: Seq<char>) -> Seq<Seq<char>> {
        seq![
            "--silent"@,
            "--show-error"@,
            "--fail"@,
            "--max-time"@,
            "10"@,
            "--request"@,
            "POST"@,
            "--header"@,
            "content-type: application/json"@,
            "--data"@,
            "{\"digest\":\""@
                + digest
                + "\",\"node\":\""@
                + self.node@
                + "\"}"@,
            self.control_plane@
                + "/api/rollout/quarantine"@,
        ]
    }

    /// What the end of recording a quarantine means.
    pub fn quarantine_recorded(&self, digest: &str, ended: &Ended) -> (r: Result<(), RolloutError>)
        ensures
            match ended {
                Ended::Well(_) => r is Ok,
                Ended::Badly(stderr) => r matches Err(e) && e.stage == Stage::Quarantine
                    && e.attempted@ == "quarantine "@
                        + digest@ && e.because@ == trimmed(stderr@),
                Ended::NotRun(why) => r matches Err(e) && e.stage == Stage::Quarantine
                    && e.attempted@ == "quarantine "@
                        + digest@ && e.because@ == why@,
            },
    {
        match ended {
            Ended::Well(_) => Ok(()),
            Ended::Badly(stderr) => Err(
                RolloutError {
                    stage: Stage::Quarantine,
                    attempted: "quarantine ".to_owned()
                        .concat(digest),
                    because: trim(stderr.as_str()),
                },
            ),
            Ended::NotRun(why) => Err(
                RolloutError {
                    stage: Stage::Quarantine,
                    attempted: "quarantine ".to_owned()
                        .concat(digest),
                    because: why.clone(),
                },
            ),
        }
    }

    /// What the end of `bootc upgrade` means.
    pub fn upgraded(&self, ended: &Ended) -> (r: Result<(), RolloutError>)
        ensures
            match ended {
                Ended::Well(_) => r is Ok,
                Ended::Badly(stderr) => r matches Err(e) && e.stage == Stage::Apply && e.attempted@
                    == "bootc upgrade"@ && e.because@ == trimmed(stderr@),
                Ended::NotRun(why) => r matches Err(e) && e.stage == Stage::Apply && e.attempted@
                    == "bootc upgrade"@ && e.because@ == why@,
            },
    {
        match ended {
            Ended::Well(_) => Ok(()),
            Ended::Badly(stderr) => Err(
                RolloutError {
                    stage: Stage::Apply,
                    attempted: "bootc upgrade".to_owned(),
                    because: trim(stderr.as_str()),
                },
            ),
            Ended::NotRun(why) => Err(
                RolloutError {
                    stage: Stage::Apply,
                    attempted: "bootc upgrade".to_owned(),
                    because: why.clone(),
                },
            ),
        }
    }

    /// What the end of the reboot command means: once it ran, the boot decides.
    pub fn rebooted(&self, ended: &Ended) -> (r: Result<(), RolloutError>)
        ensures
            match ended {
                Ended::NotRun(why) => r matches Err(e) && e.stage == Stage::Apply && e.attempted@
                    == "systemctl reboot"@ && e.because@ == why@,
                _ => r is Ok,
            },
    {
        match ended {
            Ended::NotRun(why) => Err(
                RolloutError {
                    stage: Stage::Apply,
                    attempted: "systemctl reboot".to_owned(),
                    because: why.clone(),
                },
            ),
            _ => Ok(()),
        }
    }
}

/// What an image that does not verify is told.
pub open spec fn refused_spec(stderr: Seq<char>) -> Seq<char> {
    trimmed(stderr)
        + ". The policy is the only thing standing between this node and an arbitrary image (§12.3)"@
}

fn refused(stderr: &str) -> (r: String)
    ensures
        r@ == refused_spec(stderr@),
{
    trim(stderr)
        .concat(". The policy is the only thing standing between this node and an arbitrary image (§12.3)")
}

// ---- the run ----

/// What the updater is to do next.
#[derive(Debug, PartialEq, Eq)]
pub enum Task {
    /// Ask the registries what the tag resolves to.
    Resolve,
    /// Read every peer's health, and this node's own state, against a target.
    Observe(String),
    /// Verify the target's signature.
    Verify(String),
    /// Publish this node's state for its peers.
    Publish(State),
    /// Have the control plane drain this node.
    Drain,
    /// Upgrade and reboot.
    Upgrade,
}

/// Where a run stands, and the target it goes for.
#[derive(Debug, PartialEq, Eq)]
pub enum Phase {
    Resolving,
    Observing(String),
    Verifying(String),
    Announcing(String),
    Draining(String),
    Rechecking(String),
    Committing,
    Upgrading,
    /// Taking the announcement back; how the run then ends.
    Withdrawing(Decision),
}

/// What happened to the task a run asked for.
#[derive(Debug)]
pub enum Event {
    /// The target was resolved.
    Resolved(String),
    /// The fleet was observed.
    Observed(Observation),
    /// The task was done.
    Did,
    /// The drain ended.
    Drained(Decision),
    /// The task could not be done.
    Failed(RolloutError),
}

/// What follows an event.
#[derive(Debug, PartialEq, Eq)]
pub enum Next {
    /// Do this, in the phase it belongs to.
    Do(Phase, Task),
    /// The run is over.
    Done(Result<Decision, RolloutError>),
}

/// Whether an event answers the task of a phase. An observation is one of the
/// run's own target.
pub open spec fn answers(event: Event, phase: Phase) -> bool {
    match event {
        Event::Failed(_) => true,
        Event::Resolved(_) => phase is Resolving,
        Event::Observed(o) => match phase {
            Phase::Observing(target) => o.target@ == target@,
            Phase::Rechecking(target) => o.target@ == target@,
            _ => false,
        },
        Event::Drained(_) => phase is Draining,
        Event::Did => phase is Verifying || phase is Announcing || phase is Committing
            || phase is Upgrading || phase is Withdrawing,
    }
}

/// Whether `next` is what follows `event` in `phase`.
pub open spec fn follows(phase: Phase, event: Event, next: Next) -> bool {
    match (phase, event) {
        (_, Event::Failed(e)) => next == Next::Done(Err(e)),
        (Phase::Resolving, Event::Resolved(target)) => next matches Next::Do(
            Phase::Observing(t),
            Task::Observe(asked),
        ) && t == target && asked@ == target@,
        (Phase::Observing(target), Event::Observed(o)) => if verdict(o) is Apply {
            next matches Next::Do(Phase::Verifying(t), Task::Verify(asked)) && t == target
                && asked@ == target@
        } else {
            next matches Next::Done(Ok(d)) && d@ == verdict(o)
        },
        (Phase::Verifying(target), Event::Did) => next == Next::Do(
            Phase::Announcing(target),
            Task::Publish(State::Draining),
        ),
        (Phase::Announcing(target), Event::Did) => next == Next::Do(
            Phase::Draining(target),
            Task::Drain,
        ),
        (Phase::Draining(target), Event::Drained(d)) => if d is Halt {
            next == Next::Do(Phase::Withdrawing(d), Task::Publish(State::Idle))
        } else {
            next matches Next::Do(Phase::Rechecking(t), Task::Observe(asked)) && t == target
                && asked@ == target@
        },
        (Phase::Rechecking(_), Event::Observed(o)) => if verdict(o) is Apply {
            next == Next::Do(Phase::Committing, Task::Publish(State::Updating))
        } else {
            next matches Next::Do(Phase::Withdrawing(d), Task::Publish(State::Idle)) && d@
                == verdict(o)
        },
        (Phase::Committing, Event::Did) => next == Next::Do(Phase::Upgrading, Task::Upgrade),
        (Phase::Upgrading, Event::Did) => next == Next::Done(Ok(Decision::Apply)),
        (Phase::Withdrawing(d), Event::Did) => next == Next::Done(Ok(d)),
        _ => false,
    }
}

/// How a run begins.
pub fn begin() -> (r: (Phase, Task))
    ensures
        r == (Phase::Resolving, Task::Resolve),
{
    (Phase::Resolving, Task::Resolve)
}

/// What follows an event.
pub fn advance(phase: Phase, event: Event) -> (next: Next)
    requires
        answers(event, phase),
    ensures
        follows(phase, event, next),
{
    match event {
        Event::Failed(e) => Next::Done(Err(e)),
        Event::Resolved(target) => {
            let asked = target.clone();
            Next::Do(Phase::Observing(target), Task::Observe(asked))
        },
        Event::Observed(o) => {
            let decision = admits(&o);
            match phase {
                Phase::Observing(target) => if decision.applies() {
                    let asked = target.clone();
                    Next::Do(Phase::Verifying(target), Task::Verify(asked))
                } else {
                    Next::Done(Ok(decision))
                },
                _ => if decision.applies() {
                    Next::Do(Phase::Committing, Task::Publish(State::Updating))
                } else {
                    Next::Do(Phase::Withdrawing(decision), Task::Publish(State::Idle))
                },
            }
        },
        Event::Drained(d) => match phase {
            Phase::Draining(target) => if d.halts() {
                Next::Do(Phase::Withdrawing(d), Task::Publish(State::Idle))
            } else {
                let asked = target.clone();
                Next::Do(Phase::Rechecking(target), Task::Observe(asked))
            },
            _ => Next::Done(Ok(d)),
        },
        Event::Did => match phase {
            Phase::Verifying(target) => Next::Do(
                Phase::Announcing(target),
                Task::Publish(State::Draining),
            ),
            Phase::Announcing(target) => Next::Do(Phase::Draining(target), Task::Drain),
            Phase::Committing => Next::Do(Phase::Upgrading, Task::Upgrade),
            Phase::Withdrawing(d) => Next::Done(Ok(d)),
            _ => Next::Done(Ok(Decision::Apply)),
        },
    }
}

/// The exit code of a run: one where it halted, two where a stage could not be
/// completed, and zero otherwise, also where the node has to wait.
pub fn exit_code(result: &Result<Decision, RolloutError>) -> (code: u8)
    ensures
        code == (match result {
            Ok(Decision::Halt(_)) => 1u8,
            Ok(_) => 0u8,
            Err(_) => 2u8,
        }),
{
    match result {
        Ok(decision) => if decision.halts() {
            1
        } else {
            0
        },
        Err(_) => 2,
    }
}

// ---- laws of a run ----

/// Whether `phases` and `events` are a run: it begins by resolving, and each
/// phase follows from the one before by its event.
pub open spec fn is_run(phases: Seq<Phase>, events: Seq<Event>) -> bool {
    &&& phases.len() == events.len() + 1
    &&& phases[0] is Resolving
    &&& forall|i: int|
        #![trigger events[i]]
        0 <= i < events.len() ==> answers(events[i], phases[i]) && goes(
            phases[i],
            events[i],
            phases[i + 1],
        )
}

/// Whether an event takes a run from one phase to another.
pub open spec fn goes(from: Phase, event: Event, to: Phase) -> bool {
    exists|task: Task| #[trigger] follows(from, event, Next::Do(to, task))
}

/// How far a phase is along the way to the upgrade.
spec fn way(phase: Phase) -> int {
    match phase {
        Phase::Resolving => 0,
        Phase::Observing(_) => 1,
        Phase::Verifying(_) => 2,
        Phase::Announcing(_) => 3,
        Phase::Draining(_) => 4,
        Phase::Rechecking(_) => 5,
        Phase::Committing => 6,
        Phase::Upgrading => 7,
        Phase::Withdrawing(_) => -1,
    }
}

proof fn lemma_way(phases: Seq<Phase>, events: Seq<Event>, n: int)
    requires
        is_run(phases, events),
        0 <= n < phases.len(),
        way(phases[n]) >= 0,
    ensures
        way(phases[n]) == n,
    decreases n,
{
    if n > 0 {
        let e = events[n - 1];
        assert(goes(phases[n - 1], e, phases[n]));
        lemma_way(phases, events, n - 1);
    }
}

/// A run that comes to the upgrade was admitted before the drain and again
/// after it, and verified in between: all three for the target it resolved.
pub proof fn an_upgrade_was_admitted_twice(phases: Seq<Phase>, events: Seq<Event>)
    requires
        is_run(phases, events),
        phases.last() is Upgrading,
    ensures
        events.len() == 7,
        events[0] matches Event::Resolved(target) && {
            &&& events[1] matches Event::Observed(o) && o.target@ == target@ && verdict(o) is Apply
            &&& phases[2] == Phase::Verifying(target) && events[2] is Did
            &&& events[4] matches Event::Drained(d) && d !is Halt
            &&& events[5] matches Event::Observed(o) && o.target@ == target@ && verdict(o) is Apply
        },
{
    lemma_way(phases, events, phases.len() - 1);
    lemma_back(phases, events, 7);
    lemma_back(phases, events, 6);
    lemma_back(phases, events, 5);
    lemma_back(phases, events, 4);
    lemma_back(phases, events, 3);
    lemma_back(phases, events, 2);
    lemma_back(phases, events, 1);
}

proof fn lemma_back(phases: Seq<Phase>, events: Seq<Event>, n: int)
    requires
        is_run(phases, events),
        1 <= n < phases.len(),
        way(phases[n]) == n,
    ensures
        way(phases[n - 1]) == n - 1,
        goes(phases[n - 1], events[n - 1], phases[n]),
        answers(events[n - 1], phases[n - 1]),
{
    let e = events[n - 1];
    assert(goes(phases[n - 1], e, phases[n]));
}

/// A run that announced a drain and ends without an error and without the
/// upgrade has taken the announcement back.
pub proof fn a_run_that_does_not_upgrade_withdraws(
    phase: Phase,
    event: Event,
    decision: Decision,
)
    requires
        answers(event, phase),
        follows(phase, event, Next::Done(Ok(decision))),
        decision !is Apply,
        phase !is Observing,
    ensures
        phase is Withdrawing,
{
}

/// What a run is asked to do in a phase is what the phase is for, with the
/// target that the phase goes for.
pub proof fn a_phase_has_its_task(from: Phase, event: Event, to: Phase, task: Task)
    requires
        answers(event, from),
        follows(from, event, Next::Do(to, task)),
    ensures
        match to {
            Phase::Resolving => false,
            Phase::Observing(target) => task matches Task::Observe(asked) && asked@ == target@,
            Phase::Verifying(target) => task matches Task::Verify(asked) && asked@ == target@,
            Phase::Announcing(_) => task == Task::Publish(State::Draining),
            Phase::Draining(_) => task is Drain,
            Phase::Rechecking(target) => task matches Task::Observe(asked) && asked@ == target@,
            Phase::Committing => task == Task::Publish(State::Updating),
            Phase::Upgrading => task is Upgrade,
            Phase::Withdrawing(_) => task == Task::Publish(State::Idle),
        },
{
}

/// What is observed is of the other nodes: no report is of this node, and every
/// report of another node is there.
pub proof fn what_is_observed_is_of_the_others(peers: Seq<PeerReport>, node: Seq<char>)
    ensures
        forall|i: int|
            0 <= i < others(peers, node).len() ==> (#[trigger] others(peers, node)[i]).name@ != node
                && peers.contains(others(peers, node)[i]),
        forall|i: int|
            0 <= i < peers.len() && (#[trigger] peers[i]).name@ != node ==> others(
                peers,
                node,
            ).contains(peers[i]),
    decreases peers.len(),
{
    if peers.len() > 0 {
        let before = peers.drop_last();
        let kept = others(before, node);
        what_is_observed_is_of_the_others(before, node);
        let all = others(peers, node);
        assert forall|i: int| 0 <= i < all.len() implies (#[trigger] all[i]).name@ != node
            && peers.contains(all[i]) by {
            if i < kept.len() {
                assert(all[i] == kept[i]);
                let k = choose|k: int| 0 <= k < before.len() && before[k] == kept[i];
                assert(peers[k] == all[i]);
            } else {
                assert(peers[peers.len() - 1] == all[i]);
            }
        }
        assert forall|i: int| 0 <= i < peers.len() && (#[trigger] peers[i]).name@
            != node implies all.contains(peers[i]) by {
            if i < before.len() {
                assert(before[i] == peers[i]);
                let k = choose|k: int| 0 <= k < kept.len() && kept[k] == peers[i];
                assert(all[k] == peers[i]);
            } else {
                assert(all[all.len() - 1] == peers[i]);
            }
        }
    }
}

proof fn lemma_own_report(peers: Seq<PeerReport>, node: Seq<char>, own: PeerReport, k: int)
    requires
        own.name@ == node,
        0 <= k <= peers.len(),
    ensures
        others(peers.insert(k, own), node) == others(peers, node),
    decreases peers.len(),
{
    let with = peers.insert(k, own);
    if k == peers.len() {
        assert(with.drop_last() =~= peers);
    } else {
        lemma_own_report(peers.drop_last(), node, own, k);
        assert(with.drop_last() =~= peers.drop_last().insert(k, own));
        assert(with.last() == peers.last());
    }
}

proof fn lemma_same_objections(a: Observation, b: Observation, peers: Seq<PeerReport>, i: int)
    requires
        a.position == b.position,
        a.target@ == b.target@,
    ensures
        first_objection(a, peers, i) == first_objection(b, peers, i),
    decreases peers.len() - i,
{
    if 0 <= i < peers.len() {
        assert(objection(a, peers[i]) == objection(b, peers[i]));
        lemma_same_objections(a, b, peers, i + 1);
    }
}

/// What a node says of itself does not decide: two observations that differ in
/// the node's own report alone give one verdict.
pub proof fn a_node_does_not_wait_for_itself(
    peers: Seq<PeerReport>,
    node: Seq<char>,
    before: PeerReport,
    after: PeerReport,
    k: int,
    a: Observation,
    b: Observation,
)
    requires
        0 <= k <= peers.len(),
        before.name@ == node,
        after.name@ == node,
        a.peers@ == others(peers.insert(k, before), node),
        b.peers@ == others(peers.insert(k, after), node),
        a.position == b.position,
        a.booted@ == b.booted@,
        a.target@ == b.target@,
        a.quarantined@ == b.quarantined@,
    ensures
        verdict(a) == verdict(b),
{
    lemma_own_report(peers, node, before, k);
    lemma_own_report(peers, node, after, k);
    lemma_same_objections(a, b, in_rollout_order(a.peers@), 0);
}

/// A node that was admitted before the drain does not withdraw after it on its
/// own account: where its peers are as they were, it goes on to the upgrade,
/// whatever it says of itself by then.
pub proof fn a_node_does_not_withdraw_on_its_own_state(
    peers: Seq<PeerReport>,
    node: Seq<char>,
    before: PeerReport,
    after: PeerReport,
    k: int,
    first: Observation,
    second: Observation,
    target: String,
    next: Next,
)
    requires
        0 <= k <= peers.len(),
        before.name@ == node,
        after.name@ == node,
        first.peers@ == others(peers.insert(k, before), node),
        second.peers@ == others(peers.insert(k, after), node),
        first.position == second.position,
        first.booted@ == second.booted@,
        first.target@ == second.target@,
        first.quarantined@ == second.quarantined@,
        verdict(first) is Apply,
        answers(Event::Observed(second), Phase::Rechecking(target)),
        follows(Phase::Rechecking(target), Event::Observed(second), next),
    ensures
        next == Next::Do(Phase::Committing, Task::Publish(State::Updating)),
{
    a_node_does_not_wait_for_itself(peers, node, before, after, k, first, second);
}

// ---- laws of what is asked ----

/// What is resolved is the followed tag of the image, what is verified is the
/// digest of the image, against the policy of the host.
pub proof fn what_is_verified_is_what_was_resolved(
    a: SystemApplier,
    registry: &str,
    digest: &str,
    resolve: Vec<String>,
    verify: Vec<String>,
)
    requires
        call_ensures(SystemApplier::resolve_arguments, (&a, registry), resolve),
        call_ensures(SystemApplier::verify_arguments, (&a, digest), verify),
    ensures
        views(resolve@) =~= seq![
            "inspect"@,
            "--format"@,
            "{{.Digest}}"@,
            "docker://"@ + (registry@ + "/"@ + a.image@ + ":"@ + a.tag@),
        ],
        views(verify@) =~= seq![
            "inspect"@,
            "--policy"@,
            "/etc/containers/policy.json"@,
            "docker://"@ + (a.image@ + "@"@ + digest@),
        ],
{
}

/// A drain is asked for of this node, within its budget, and a digest is put in
/// quarantine by name, for this node; both are posts to the control plane that
/// fail loudly.
pub proof fn a_drain_and_a_quarantine_are_asked_of_the_control_plane(
    a: SystemApplier,
    budget_s: u64,
    digest: &str,
    drain: Vec<String>,
    quarantine: Vec<String>,
    rollout: Vec<String>,
)
    requires
        call_ensures(SystemApplier::drain_arguments, (&a, budget_s), drain),
        call_ensures(SystemApplier::quarantine_arguments, (&a, digest), quarantine),
        call_ensures(SystemApplier::rollout_arguments, (&a,), rollout),
    ensures
        views(drain@) =~= seq![
            "--silent"@,
            "--show-error"@,
            "--fail"@,
            "--max-time"@,
            decimal(budget_s as nat),
            "--request"@,
            "POST"@,
            a.control_plane@ + "/api/nodes/"@ + a.node@ + "/drain"@,
        ],
        views(quarantine@).last() == a.control_plane@ + "/api/rollout/quarantine"@,
        views(quarantine@)[views(quarantine@).len() - 2] == "{\"digest\":\""@ + digest@
            + "\",\"node\":\""@ + a.node@ + "\"}"@,
        views(quarantine@)[views(quarantine@).len() - 3] == "--data"@,
        views(quarantine@).take(9) =~= seq![
            "--silent"@,
            "--show-error"@,
            "--fail"@,
            "--max-time"@,
            "10"@,
            "--request"@,
            "POST"@,
            "--header"@,
            "content-type: application/json"@,
        ],
        views(rollout@) =~= seq![
            "--silent"@,
            "--fail"@,
            "--max-time"@,
            "5"@,
            a.control_plane@ + "/api/rollout"@,
        ],
{
}

/// The health of a peer is asked for at its address, and given up after the time
/// that the environment gives, or five seconds.
pub proof fn a_peer_is_asked_for_its_health(timeout: Option<String>, url: &str, r: Vec<String>)
    requires
        call_ensures(health_arguments, (timeout, url), r),
    ensures
        timeout matches Some(limit) ==> views(r@) =~= seq![
            "--silent"@,
            "--fail"@,
            "--max-time"@,
            limit@,
            url@,
        ],
        timeout is None ==> views(r@) =~= seq!["--silent"@, "--fail"@, "--max-time"@, "5"@, url@],
{
}

/// A peer that did not answer is unknown in everything, and one that did is what
/// it says.
pub proof fn a_silent_peer_is_unknown(
    name: &str,
    position: u32,
    answer: Option<Report>,
    r: PeerReport,
)
    requires
        call_ensures(peer_report, (name, position, answer), r),
    ensures
        r.name@ == name@ && r.position == position,
        answer is None ==> r.healthy is None && r.booted is None && r.state is None,
        answer matches Some(report) ==> r.healthy == Some(report.healthy) && r.booted == Some(
            report.booted,
        ) && r.state == Some(report.state),
{
}

/// A list in the environment is what stands between its commas, without the
/// blanks around it and without the empty ones, in order.
pub proof fn a_list_is_read_between_its_commas(text: &str, out: Vec<String>, i: int)
    requires
        call_ensures(env_list, (text,), out),
    ensures
        0 <= i < split(text@, ',').len() && trimmed(split(text@, ',')[i]).len() > 0 ==> views(
            out@,
        ).contains(trimmed(split(text@, ',')[i])),
        0 <= i < out@.len() ==> out@[i]@.len() > 0 && exists|k: int|
            0 <= k < split(text@, ',').len() && trimmed(#[trigger] split(text@, ',')[k])
                == out@[i]@,
{
    let pieces = split(text@, ',');
    lemma_items(pieces);
    if 0 <= i < out@.len() {
        assert(views(out@)[i] == out@[i]@);
        assert(items(pieces).contains(out@[i]@));
    }
}

proof fn lemma_items(pieces: Seq<Seq<char>>)
    ensures
        forall|k: int|
            0 <= k < pieces.len() && trimmed(#[trigger] pieces[k]).len() > 0 ==> items(
                pieces,
            ).contains(trimmed(pieces[k])),
        forall|item: Seq<char>| #[trigger]
            items(pieces).contains(item) ==> item.len() > 0 && exists|k: int|
                0 <= k < pieces.len() && trimmed(#[trigger] pieces[k]) == item,
    decreases pieces.len(),
{
    if pieces.len() > 0 {
        let (before, last) = (pieces.drop_last(), pieces.last());
        lemma_items(before);
        let all = items(pieces);
        assert forall|k: int| 0 <= k < pieces.len() && trimmed(#[trigger] pieces[k]).len() > 0 implies
            all.contains(trimmed(pieces[k])) by {
            if k < before.len() {
                assert(before[k] == pieces[k]);
                let n = items(before).index_of(trimmed(pieces[k]));
                assert(all[n] == trimmed(pieces[k]));
            } else {
                assert(all[all.len() - 1] == trimmed(last));
            }
        }
        assert forall|item: Seq<char>| #[trigger] all.contains(item) implies item.len() > 0
            && exists|k: int| 0 <= k < pieces.len() && trimmed(#[trigger] pieces[k]) == item by {
            let n = all.index_of(item);
            if n < items(before).len() {
                assert(items(before)[n] == item);
                assert(items(before).contains(item));
                let k = choose|k: int|
                    0 <= k < before.len() && trimmed(#[trigger] before[k]) == item;
                assert(pieces[k] == before[k]);
            } else {
                assert(trimmed(pieces[pieces.len() - 1]) == item);
            }
        }
    }
}

/// A position is read as a number, and so is a budget; where there is none, the
/// position is the first and the budget six hours.
pub proof fn a_number_is_read_or_stands_in(
    text: &str,
    position: u32,
    budget: u64,
)
    requires
        call_ensures(own_position, (text,), position),
        call_ensures(total_budget, (text,), budget),
    ensures
        forall|n: nat|
            n <= u32::MAX && text@ == #[trigger] decimal(n) ==> position == n && budget == n,
        text@.len() == 0 ==> position == 0 && budget == 21600,
{
    assert forall|n: nat| n <= u32::MAX && text@ == #[trigger] decimal(n) implies position == n
        && budget == n by {
        lemma_decimal_is_a_numeral(n);
    }
}

proof fn lemma_decimal_is_a_numeral(n: nat)
    ensures
        numeral(decimal(n), 10) == Some(n),
        decimal(n).len() > 0,
{
    crate::text::a_number_reads_back(n);
    crate::text::lemma_decimal_is_digits(n);
    assert forall|i: int| 0 <= i < decimal(n).len() implies crate::text::digit_value(
        #[trigger] decimal(n)[i],
        10,
    ) is Some by {}
    assert(decimal(n)[0] != '+');
}

/// A peer is written as its name, its position and its address, and read back as
/// it was written.
pub proof fn a_peer_reads_back(
    name: Seq<char>,
    position: u32,
    url: Seq<char>,
    spec: &str,
    r: Result<PeerAddress, RolloutError>,
)
    requires
        call_ensures(parse_peer, (spec,), r),
        spec@ == name + seq![':'] + decimal(position as nat) + seq![':'] + url,
        !name.contains(':'),
    ensures
        r is Ok,
        r.unwrap().name@ == name,
        r.unwrap().position == position,
        r.unwrap().url@ == url,
{
    reveal_strlit(":");
    assert(":"@ =~= seq![':']);
    let digits = decimal(position as nat);
    let rest = digits + seq![':'] + url;
    assert(spec@ =~= name + seq![':'] + rest);
    lemma_halves(name, rest);
    crate::text::lemma_decimal_is_digits(position as nat);
    assert(!digits.contains(':')) by {
        if digits.contains(':') {
            let i = digits.index_of(':');
            assert(48 <= digits[i] as int <= 57);
        }
    }
    lemma_halves(digits, url);
    lemma_decimal_is_a_numeral(position as nat);
}

proof fn lemma_halves(before: Seq<char>, after: Seq<char>)
    requires
        !before.contains(':'),
    ensures
        halves(before + seq![':'] + after, seq![':']) == Some((before, after)),
{
    let s = before + seq![':'] + after;
    let sep = seq![':'];
    crate::text::lemma_first_from(s, sep, 0);
    let at = before.len() as int;
    assert(s.subrange(at, at + 1) =~= sep);
    assert(crate::text::occurs_at(s, sep, at));
    let k = crate::text::first_from(s, sep, 0).unwrap();
    assert(s.subrange(k, k + 1)[0] == ':');
    if k < at {
        assert(before[k] == ':');
        assert(before.contains(':'));
    }
    assert(k == at);
    assert(s.take(k) =~= before);
    assert(s.skip(k + 1) =~= after);
}

/// Every digest of the quarantine list counts, and nothing else: what is no text
/// is passed over.
pub proof fn every_quarantined_digest_is_read(list: Vec<Option<String>>, out: Vec<String>, i: int)
    requires
        call_ensures(texts_of, (&list,), out),
    ensures
        0 <= i < list@.len() && list@[i] is Some ==> views(out@).contains(list@[i].unwrap()@),
        0 <= i < out@.len() ==> exists|k: int|
            0 <= k < list@.len() && (#[trigger] list@[k]) is Some && list@[k].unwrap()@
                == out@[i]@,
{
    let all = optional_views(list@);
    lemma_texts(all);
    if 0 <= i < list@.len() && list@[i] is Some {
        assert(all[i] == Some(list@[i].unwrap()@));
        assert(all.contains(Some(list@[i].unwrap()@)));
    }
    if 0 <= i < out@.len() {
        assert(views(out@)[i] == out@[i]@);
        assert(texts(all).contains(out@[i]@));
        let k = all.index_of(Some(out@[i]@));
        assert(list@[k] is Some);
    }
}

proof fn lemma_texts(list: Seq<Option<Seq<char>>>)
    ensures
        forall|t: Seq<char>| #[trigger] texts(list).contains(t) <==> list.contains(Some(t)),
    decreases list.len(),
{
    if list.len() > 0 {
        let (before, last) = (list.drop_last(), list.last());
        lemma_texts(before);
        let all = texts(list);
        assert forall|t: Seq<char>| #[trigger] all.contains(t) <==> list.contains(Some(t)) by {
            if all.contains(t) {
                let n = all.index_of(t);
                if n < texts(before).len() {
                    assert(texts(before)[n] == t);
                    assert(texts(before).contains(t));
                    let k = before.index_of(Some(t));
                    assert(list[k] == Some(t));
                } else {
                    assert(list[list.len() - 1] == Some(t));
                }
            }
            if list.contains(Some(t)) {
                let k = list.index_of(Some(t));
                if k < before.len() {
                    assert(before[k] == Some(t));
                    assert(before.contains(Some(t)));
                    assert(texts(before).contains(t));
                    let n = texts(before).index_of(t);
                    assert(all[n] == t);
                } else {
                    assert(all[all.len() - 1] == t);
                }
            }
        }
    }
}

/// The first registry that answers with a digest decides: none before it did,
/// and none after it is asked.
pub proof fn the_first_registry_that_answers_decides(
    a: SystemApplier,
    ended: Vec<Ended>,
    r: Result<String, RolloutError>,
    i: int,
    stdout: String,
)
    requires
        call_ensures(SystemApplier::resolve_target, (&a, &ended), r),
        0 <= i < ended@.len(),
        ended@[i] == Ended::Well(stdout),
        trimmed(stdout@).len() > 0,
        forall|k: int|
            0 <= k < i ==> match #[trigger] ended@[k] {
                Ended::Well(text) => trimmed(text@).len() == 0,
                _ => true,
            },
    ensures
        r is Ok,
        r.unwrap()@ == trimmed(stdout@),
{
    lemma_resolved(a, ended@, 0, i, Seq::empty());
}

proof fn lemma_resolved(
    a: SystemApplier,
    ended: Seq<Ended>,
    from: int,
    i: int,
    why: Seq<Seq<char>>,
)
    requires
        0 <= from <= i < ended.len(),
        ended[i] matches Ended::Well(stdout) && trimmed(stdout@).len() > 0,
        forall|k: int|
            from <= k < i ==> match #[trigger] ended[k] {
                Ended::Well(text) => trimmed(text@).len() == 0,
                _ => true,
            },
    ensures
        ended[i] matches Ended::Well(stdout) && a.resolved(ended, from, why) == Ok::<
            Seq<char>,
            Seq<Seq<char>>,
        >(trimmed(stdout@)),
    decreases i - from,
{
    if from < i {
        let reason = a.settled(a.registries@[from]@, ended[from]);
        assert(reason is Err);
        lemma_resolved(a, ended, from + 1, i, why.push(reason->Err_0));
    }
}

/// A rollout that no registry answers fails in resolving.
pub proof fn no_answer_is_no_target(
    a: SystemApplier,
    ended: Vec<Ended>,
    r: Result<String, RolloutError>,
)
    requires
        call_ensures(SystemApplier::resolve_target, (&a, &ended), r),
        forall|k: int|
            0 <= k < ended@.len() ==> match #[trigger] ended@[k] {
                Ended::Well(text) => trimmed(text@).len() == 0,
                _ => true,
            },
    ensures
        r matches Err(e) && e.stage == Stage::Resolve,
{
    lemma_unresolved(a, ended@, 0, Seq::empty());
}

proof fn lemma_unresolved(a: SystemApplier, ended: Seq<Ended>, from: int, why: Seq<Seq<char>>)
    requires
        0 <= from,
        forall|k: int|
            from <= k < ended.len() ==> match #[trigger] ended[k] {
                Ended::Well(text) => trimmed(text@).len() == 0,
                _ => true,
            },
    ensures
        a.resolved(ended, from, why) is Err,
    decreases ended.len() - from,
{
    if from < ended.len() {
        let reason = a.settled(a.registries@[from]@, ended[from]);
        assert(reason is Err);
        lemma_unresolved(a, ended, from + 1, why.push(reason->Err_0));
    }
}

// ---- laws of what comes of it ----

/// An image is verified only where its check ended well; a digest is in
/// quarantine, and an upgrade done, only where the command ended well. A drain
/// that does not end well halts the rollout, and one that could not be asked for
/// is an error.
pub proof fn only_what_ended_well_is_done(
    a: SystemApplier,
    digest: &str,
    ended: Ended,
    verified: Result<(), RolloutError>,
    drained: Result<Decision, RolloutError>,
    recorded: Result<(), RolloutError>,
    upgraded: Result<(), RolloutError>,
)
    requires
        call_ensures(SystemApplier::verified, (&a, digest, &ended), verified),
        call_ensures(SystemApplier::drained, (&a, &ended), drained),
        call_ensures(SystemApplier::quarantine_recorded, (&a, digest, &ended), recorded),
        call_ensures(SystemApplier::upgraded, (&a, &ended), upgraded),
    ensures
        verified is Ok <==> ended is Well,
        recorded is Ok <==> ended is Well,
        upgraded is Ok <==> ended is Well,
        (drained matches Ok(d) && d is Apply) <==> ended is Well,
        (drained matches Ok(d) && d is Halt) <==> ended is Badly,
        drained is Err <==> ended is NotRun,
        verified matches Err(e) ==> e.stage == Stage::Verify,
        drained matches Err(e) ==> e.stage == Stage::Drain,
        recorded matches Err(e) ==> e.stage == Stage::Quarantine,
        upgraded matches Err(e) ==> e.stage == Stage::Apply,
{
}

/// What a run ends with is its exit: a halt is told apart from an error, and
/// from a run in which nothing went wrong.
pub proof fn a_halt_exits_unlike_an_error(result: Result<Decision, RolloutError>, code: u8)
    requires
        call_ensures(exit_code, (&result,), code),
    ensures
        result is Err <==> code == 2,
        (result matches Ok(d) && d is Halt) <==> code == 1,
        (result matches Ok(d) && !(d is Halt)) <==> code == 0,
{
}

/// A run goes on one step at a time: it observes what it resolved, verifies only
/// what it was admitted to, says that it drains before it does, looks again
/// before it commits, and withdraws where it may not.
pub proof fn a_run_goes_on_one_step_at_a_time(target: String, o: Observation, d: Decision)
    requires
        o.target@ == target@,
    ensures
        forall|next: Next| #[trigger]
            call_ensures(advance, (Phase::Observing(target), Event::Observed(o)), next) ==> (verdict(
                o,
            ) is Apply <==> next is Do) && (next matches Next::Do(_, task) ==> (task matches Task::Verify(
                asked,
            ) && asked@ == target@)),
        forall|next: Next| #[trigger]
            call_ensures(advance, (Phase::Verifying(target), Event::Did), next) ==> next == Next::Do(
                Phase::Announcing(target),
                Task::Publish(State::Draining),
            ),
        forall|next: Next| #[trigger]
            call_ensures(advance, (Phase::Announcing(target), Event::Did), next) ==> next
                == Next::Do(Phase::Draining(target), Task::Drain),
        forall|next: Next| #[trigger]
            call_ensures(advance, (Phase::Draining(target), Event::Drained(d)), next) && d is Halt
                ==> next == Next::Do(Phase::Withdrawing(d), Task::Publish(State::Idle)),
        forall|next: Next| #[trigger]
            call_ensures(advance, (Phase::Draining(target), Event::Drained(d)), next) && !(d is Halt)
                ==> (next matches Next::Do(_, task) && task matches Task::Observe(asked) && asked@
                == target@),
        forall|next: Next| #[trigger]
            call_ensures(advance, (Phase::Rechecking(target), Event::Observed(o)), next) ==> (
            next matches Next::Do(_, task) && task == Task::Publish(
                if verdict(o) is Apply {
                    State::Updating
                } else {
                    State::Idle
                },
            )),
        forall|next: Next| #[trigger]
            call_ensures(advance, (Phase::Committing, Event::Did), next) ==> next == Next::Do(
                Phase::Upgrading,
                Task::Upgrade,
            ),
        forall|next: Next| #[trigger]
            call_ensures(advance, (Phase::Withdrawing(d), Event::Did), next) ==> next
                == Next::Done(Ok(d)),
        forall|next: Next| #[trigger]
            call_ensures(advance, (Phase::Upgrading, Event::Did), next) ==> next == Next::Done(
                Ok(Decision::Apply),
            ),
{
}

/// A failure ends the run with what failed, whatever the run was at.
pub proof fn a_failure_ends_the_run(phase: Phase, e: RolloutError, next: Next)
    requires
        call_ensures(advance, (phase, Event::Failed(e)), next),
    ensures
        next == Next::Done(Err(e)),
{
}

/// What failed is said with its stage, what was attempted and why it failed.
pub proof fn a_failure_says_where_it_failed(e: RolloutError, text: String, stage: &'static str)
    requires
        call_ensures(RolloutError::to_text, (&e,), text),
        call_ensures(Stage::as_str, (e.stage,), stage),
    ensures
        text@ == stage@ + ": `"@ + e.attempted@ + "` did not complete: "@ + e.because@,
        e.stage == Stage::Resolve ==> stage@ == "resolve"@,
        e.stage == Stage::Verify ==> stage@ == "verify"@,
        e.stage == Stage::Observe ==> stage@ == "observe"@,
        e.stage == Stage::Drain ==> stage@ == "drain"@,
        e.stage == Stage::Apply ==> stage@ == "apply"@,
        e.stage == Stage::Quarantine ==> stage@ == "quarantine"@,
{
}

/// What the environment says is what a run goes by: a node without a name does
/// not start one, the followed tag is the stable one where none is named, and
/// every registry that is listed is asked.
pub proof fn a_run_goes_by_its_environment(
    settings: Settings,
    r: Result<SystemApplier, RolloutError>,
)
    requires
        call_ensures(applier_from_environment, (settings,), r),
    ensures
        r is Ok <==> (settings.node matches Some(node) && node@.len() > 0),
        r matches Ok(a) ==> {
            &&& a.node@ == settings.node.unwrap()@
            &&& settings.tag is None ==> a.tag@ == "stable"@
            &&& settings.tag matches Some(tag) ==> a.tag@ == tag@
            &&& settings.image matches Some(image) ==> a.image@ == image@
            &&& settings.control_plane matches Some(url) ==> a.control_plane@ == url@
            &&& settings.state_path is None ==> a.state_path@ == "/var/lib/cluster/rollout-state"@
            &&& settings.state_path matches Some(path) ==> a.state_path@ == path@
            &&& settings.registries matches Some(list) ==> views(a.registries@) == items(
                split(list@, ','),
            )
        },
{
    reveal_strlit("");
}

/// What is observed is this node's: its name and its position are those that it
/// is told, and it is unknown where it is told none.
pub proof fn an_observation_is_this_nodes_own(
    node: Option<String>,
    position: Option<String>,
    booted: String,
    target: String,
    quarantined: Vec<String>,
    peers: Vec<PeerReport>,
    r: Observation,
)
    requires
        call_ensures(observation, (node, position, booted, target, quarantined, peers), r),
    ensures
        r.booted == booted && r.target == target && r.quarantined == quarantined,
        node matches Some(name) ==> r.node@ == name@,
        node is None ==> r.node@ == "unknown"@,
        position is None ==> r.position == 0,
        position matches Some(text) ==> forall|n: nat|
            n <= u32::MAX && text@ == #[trigger] decimal(n) ==> r.position == n,
        forall|k: int|
            0 <= k < peers@.len() && (#[trigger] peers@[k]).name@ != r.node@ ==> r.peers@.contains(
                peers@[k],
            ),
{
    reveal_strlit("0");
    assert("0"@ =~= decimal(0));
    lemma_decimal_is_a_numeral(0);
    if let Some(text) = position {
        assert forall|n: nat| n <= u32::MAX && text@ == #[trigger] decimal(n) implies r.position
            == n by {
            lemma_decimal_is_a_numeral(n);
        }
    }
    assert forall|k: int|
        0 <= k < peers@.len() && (#[trigger] peers@[k]).name@ != r.node@ implies r.peers@.contains(
        peers@[k],
    ) by {
        lemma_other_is_kept(peers@, r.node@, k);
    }
}

proof fn lemma_other_is_kept(peers: Seq<PeerReport>, node: Seq<char>, k: int)
    requires
        0 <= k < peers.len(),
        peers[k].name@ != node,
    ensures
        others(peers, node).contains(peers[k]),
    decreases peers.len(),
{
    let all = others(peers, node);
    if k == peers.len() - 1 {
        assert(all[all.len() - 1] == peers[k]);
    } else {
        lemma_other_is_kept(peers.drop_last(), node, k);
        let before = others(peers.drop_last(), node);
        let n = before.index_of(peers[k]);
        assert(all[n] == peers[k]);
    }
}

/// The followed tag is asked of a registry by its reference, and a digest is of
/// the image itself.
pub proof fn a_reference_names_the_registry_and_the_tag(
    a: SystemApplier,
    registry: &str,
    digest: &str,
    r: String,
    p: String,
)
    requires
        call_ensures(SystemApplier::reference, (&a, registry), r),
        call_ensures(SystemApplier::pinned, (&a, digest), p),
    ensures
        r@ == registry@ + "/"@ + a.image@ + ":"@ + a.tag@,
        p@ == a.image@ + "@"@ + digest@,
{
}

/// A registry settles the target where it ended well and answered with a digest;
/// otherwise what is said names the reference and what went wrong.
pub proof fn a_registry_settles_what_it_answers(
    a: SystemApplier,
    registry: &str,
    ended: Ended,
    r: Result<String, String>,
)
    requires
        call_ensures(SystemApplier::settle, (&a, registry, &ended), r),
    ensures
        r is Ok <==> (ended matches Ended::Well(out) && trimmed(out@).len() > 0),
        ended matches Ended::Well(out) ==> (r matches Ok(digest) ==> digest@ == trimmed(out@)),
        r matches Err(why) ==> (registry@ + "/"@ + a.image@ + ":"@ + a.tag@ + ": "@).is_prefix_of(
            why@,
        ),
        ended matches Ended::Badly(err) ==> (r matches Err(why) && trimmed(err@).is_suffix_of(why@)),
        ended matches Ended::NotRun(because) ==> (r matches Err(why) && because@.is_suffix_of(why@)),
{
    let head = registry@ + "/"@ + a.image@ + ":"@ + a.tag@;
    reveal_strlit(": ");
    reveal_strlit(": answered with an empty digest");
    assert((head + ": "@).is_prefix_of(head + ": answered with an empty digest"@));
    match ended {
        Ended::Well(out) => {},
        Ended::Badly(err) => {
            assert(trimmed(err@).is_suffix_of(head + ": "@ + trimmed(err@)));
        },
        Ended::NotRun(because) => {
            assert(because@.is_suffix_of(head + ": "@ + because@));
        },
    }
}

/// A run begins by resolving the target.
pub proof fn a_run_begins_by_resolving(r: (Phase, Task))
    requires
        call_ensures(begin, (), r),
    ensures
        r.0 == Phase::Resolving,
        r.1 == Task::Resolve,
{
}

/// A reboot fails only where it could not be asked for, and a state that could
/// not be published is named with its path.
pub proof fn what_was_not_done_is_said(
    a: SystemApplier,
    ended: Ended,
    r: Result<(), RolloutError>,
    state: State,
    why: String,
    e: RolloutError,
)
    requires
        call_ensures(SystemApplier::rebooted, (&a, &ended), r),
        call_ensures(SystemApplier::unpublished, (&a, state, why), e),
    ensures
        r is Err <==> ended is NotRun,
        r matches Err(err) ==> err.stage == Stage::Apply && err.attempted@ == "systemctl reboot"@,
        e.stage == Stage::Observe,
        ("` to "@ + a.state_path@).is_suffix_of(e.attempted@),
        "publish state `"@.is_prefix_of(e.attempted@),
        e.because == why,
{
    let text = "publish state `"@ + state.text_spec() + "` to "@ + a.state_path@;
    assert(text =~= ("publish state `"@ + state.text_spec()) + ("` to "@ + a.state_path@));
    assert(("` to "@ + a.state_path@).is_suffix_of(text));
    assert("publish state `"@.is_prefix_of(text));
}

/// What a variable is set to is used, and what stands in for it only where it is
/// not set.
pub proof fn a_variable_is_used_where_it_is_set(value: Option<String>, fallback: &str, r: String)
    requires
        call_ensures(env_or_default, (value, fallback), r),
    ensures
        value is Some ==> r@ == value.unwrap()@,
        value is None ==> r@ == fallback@,
{
}

} // verus!
