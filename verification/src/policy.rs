//! Every tunable that governs unattended behaviour.
use vstd::prelude::*;

use crate::named::{find_row, row, Named};
use crate::text::{chars_of, parse_number, replace, string_of};
use crate::text::{begins, numeral, replaced};

verus! {

/// Everything the model says about policy.
#[derive(Debug)]
pub struct PolicyFile {
    /// The schema tag.
    pub spec: String,
    /// Polling, registries, and the ordering predicate's timings.
    pub rollout: Rollout,
    /// The boot-success deadline and its check path.
    pub greenboot: Greenboot,
    /// One row per workload class.
    pub drain_budget: Vec<DrainBudget>,
    /// Migration target, capacity cap, and what never receives work.
    pub drain: Drain,
    /// Idle thresholds and the dirty exemption.
    pub reclaim: Reclaim,
    /// Retention.
    pub gc: Gc,
    /// One row per alert.
    pub alert: Vec<Alert>,
    /// Control-plane authorization.
    pub auth: Auth,
    /// The devcontainer tunnel.
    pub tunnel: Tunnel,
    /// The health predicate's own thresholds.
    pub health: Health,
    /// The secrets a booted cluster is given through the browser.
    pub secret: Vec<Secret>,
}

/// One secret the operator enrols after the cluster boots.
///
/// The row says where a value goes, never what it is.
#[derive(Debug)]
pub struct Secret {
    /// Stable identifier, used by the API and the form.
    pub id: String,
    /// What it is, for the operator entering it.
    pub description: String,
    /// Where the value lands on the node. Empty when applying it consumes the
    /// value and keeping it would be a liability.
    pub path: String,
    /// The mode the file takes, as an octal string.
    pub mode: String,
    /// What happens after it is written: `none`, or a named action.
    pub apply: String,
    /// How the entered value becomes the file: `raw` or `docker-auth`.
    pub format: String,
    /// Which registry a `docker-auth` document is keyed by. Empty otherwise.
    pub registry: String,
    /// What stays down until it is given, in the operator's terms.
    pub enables: String,
}

/// How an entered value becomes the file at its destination, first of two.
pub const FORMAT_RAW: &'static str = "raw";

/// How an entered value becomes the file at its destination, second of two.
pub const FORMAT_DOCKER_AUTH: &'static str = "docker-auth";

/// Polling and the ordering predicate's timings.
#[derive(Debug)]
pub struct Rollout {
    /// How often a node asks what `:stable` resolves to.
    pub poll_interval_s: u64,
    /// Upper bound of the random delay added to each poll.
    pub poll_jitter_max_s: u64,
    /// How long before committing to the upgrade the predicate is re-evaluated.
    pub recheck_before_apply_s: u64,
    /// How long a peer's health may be stale before it counts as unknown.
    pub peer_health_timeout_s: u64,
    /// Where the health predicate is served on the mesh loopback.
    pub peer_health_port: u16,
    /// Registry order: the local registry first.
    pub registries: Vec<String>,
    /// Where the node images live.
    pub image_repository: String,
    /// The tag whose digest a node follows.
    pub stable_tag: String,
}

/// The boot-success deadline.
#[derive(Debug)]
pub struct Greenboot {
    /// The boot stands only if the health predicate passes within this.
    pub deadline_s: u64,
    /// Where the required check is installed.
    pub check_path: String,
    /// Beyond this count the previous deployment stands.
    pub max_boot_attempts: u32,
}

/// One workload class's drain budget. A budget is never met by force.
#[derive(Debug)]
pub struct DrainBudget {
    /// `bench-job`, `ci-job`, `devcontainer-migration`, or `total`.
    pub class: String,
    /// The per-item budget.
    pub budget_s: u64,
    /// The budget across every item of this class, where one applies.
    pub total_budget_s: Option<u64>,
    /// `halt` or `stop-with-notice`.
    pub on_exceed: String,
    /// Why the budget is what it is.
    pub comment: String,
}

/// Migration target and capacity.
#[derive(Debug)]
pub struct Drain {
    /// Beyond this cap the excess is stopped with notice rather than migrated.
    pub migration_memory_cap_gib: u32,
    /// The only role that can receive devcontainers.
    pub migration_target: String,
    /// Roles that receive no migrated workload under any circumstance.
    pub never_receives: Vec<String>,
    /// The grace period a container is stopped with.
    pub container_stop_grace_s: u64,
}

/// Idle thresholds, and the exemption that is the point of the policy.
#[derive(Debug)]
pub struct Reclaim {
    /// Age at which the owner is notified and the session is marked idle.
    pub notify_after_days: u32,
    /// Age at which the session is snapshotted and archived. Reversible.
    pub archive_after_days: u32,
    /// Age at which the archive is deleted. Not reversible.
    pub purge_after_days: u32,
    /// Whether a dirty workspace may be purged. It may not.
    pub purge_dirty: bool,
    /// How often reclamation runs.
    pub schedule: String,
    /// Reclamation never runs during a rollout.
    pub suspend_during_rollout: bool,
    /// What takes the snapshot.
    pub snapshot_tool: String,
    /// Where snapshots live.
    pub snapshot_repository: String,
}

/// Retention.
#[derive(Debug)]
pub struct Gc {
    /// How often garbage collection runs.
    pub schedule: String,
    /// How old an unused container image may grow.
    pub container_image_max_age_h: u64,
    /// How long an untagged manifest survives.
    pub registry_untagged_max_age_days: u32,
    /// How much the journal may take.
    pub journald_max_use: String,
    /// How long metrics are kept.
    pub prometheus_retention_days: u32,
    /// Current and rollback.
    pub ostree_deployments_retained: u32,
    /// Whether measurement output is pruned.
    pub measurement_output_pruned: bool,
}

/// One alert.
#[derive(Debug)]
pub struct Alert {
    /// Stable identifier.
    pub id: String,
    /// What fires it.
    pub condition: String,
    /// How long the condition must hold. Zero means immediately.
    pub for_s: u64,
    /// `critical`, `warning`, or `info`.
    pub severity: String,
}

/// Control-plane authorization.
#[derive(Debug)]
pub struct Auth {
    /// How long a validated token's login is cached.
    pub token_cache_ttl_s: u64,
    /// How long a call to the identity provider may take before giving up.
    pub validation_timeout_s: u64,
    /// The exact origin the web client is served from.
    pub allowed_origin: String,
}

/// The devcontainer tunnel.
#[derive(Debug)]
pub struct Tunnel {
    /// How long the supervisor waits before its first restart.
    pub restart_backoff_initial_s: u64,
    /// The ceiling it backs off to.
    pub restart_backoff_max_s: u64,
    /// The prefix a session's tunnel name takes.
    pub name_prefix: String,
    /// How a tunnel name becomes a URL. Free of any host component.
    pub url_template: String,
    /// What a forwarded port defaults to.
    pub default_port_visibility: String,
}

/// The health predicate's thresholds.
#[derive(Debug)]
pub struct Health {
    /// Where the predicate is served on the mesh loopback.
    pub port: u16,
    /// The mesh MTU less 20 bytes of IP header and 8 of ICMP.
    pub mesh_mtu_probe_bytes: u32,
    /// Above this the clock check fails.
    pub chrony_max_offset_ms: u64,
}

/// `s` without the `0o` markers it begins with.
pub open spec fn without_octal_marks(s: Seq<char>) -> Seq<char>
    decreases s.len(),
{
    if begins(s, seq!['0', 'o']) {
        without_octal_marks(s.skip(2))
    } else {
        s
    }
}

impl Secret {
    /// Whether the value is written to a file at all.
    pub fn is_stored(&self) -> (r: bool)
        ensures
            r == (self.path@.len() > 0),
    {
        !self.path.as_str().is_empty()
    }

    /// The mode as a number, where the row spells one in octal.
    pub open spec fn mode_spec(&self) -> Option<u32> {
        match numeral(without_octal_marks(self.mode@), 8) {
            Some(n) => if n <= u32::MAX {
                Some(n as u32)
            } else {
                None
            },
            None => None,
        }
    }

    /// The mode as a number, or `None` when the model does not spell one.
    pub fn mode_bits(&self) -> (r: Option<u32>)
        ensures
            r == self.mode_spec(),
    {
        let text = chars_of(self.mode.as_str());
        let mut at: usize = 0;
        proof {
            assert(self.mode@.skip(0) =~= self.mode@);
        }
        while text.len() - at >= 2 && text[at] == '0' && text[at + 1] == 'o'
            invariant
                at <= text.len(),
                text@ == self.mode@,
                without_octal_marks(self.mode@) == without_octal_marks(self.mode@.skip(at as int)),
            decreases text.len() - at,
        {
            proof {
                let rest = self.mode@.skip(at as int);
                assert(rest.subrange(0, 2) =~= seq!['0', 'o']);
                assert(rest.skip(2) =~= self.mode@.skip(at + 2));
            }
            at = at + 2;
        }
        let digits = string_of(&text, at, text.len());
        proof {
            let rest = self.mode@.skip(at as int);
            assert(digits@ =~= rest);
            if begins(rest, seq!['0', 'o']) {
                assert(rest.subrange(0, 2)[0] == '0' && rest.subrange(0, 2)[1] == 'o');
            }
        }
        match parse_number(digits.as_str(), 8, 0xffff_ffff) {
            Some(mode) => Some(mode as u32),
            None => None,
        }
    }

    /// The format as the rendered policy spells it: `raw`, or
    /// `docker-auth@<registry>`.
    pub open spec fn format_spec(&self) -> Seq<char> {
        if self.registry@.len() == 0 {
            self.format@
        } else {
            self.format@ + "@"@ + self.registry@
        }
    }

    /// The format as the rendered policy spells it.
    ///
    /// The registry rides in the same field behind an `@` because a registry
    /// may carry a port, and a colon-separated row cannot then hold it as a
    /// field of its own.
    pub fn rendered_format(&self) -> (r: String)
        ensures
            r@ == self.format_spec(),
    {
        if self.registry.as_str().is_empty() {
            self.format.clone()
        } else {
            self.format.clone().concat("@").concat(self.registry.as_str())
        }
    }
}

impl Tunnel {
    /// The tunnel name for a session.
    pub open spec fn name_spec(&self, session: Seq<char>) -> Seq<char> {
        self.name_prefix@ + session
    }

    /// The URL a session is addressed by.
    pub open spec fn url_spec(&self, session: Seq<char>, folder: Seq<char>) -> Seq<char> {
        replaced(
            replaced(self.url_template@, "{name}"@, self.name_spec(session)),
            "{folder}"@,
            folder,
        )
    }

    /// The tunnel name for a session.
    pub fn name_for(&self, session: &str) -> (r: String)
        ensures
            r@ == self.name_spec(session@),
    {
        self.name_prefix.clone().concat(session)
    }

    /// The URL a session is addressed by.
    ///
    /// A pure function of the session id and the folder. No node appears in it
    /// and none can, so the URL is unchanged by a migration.
    pub fn url_for(&self, session: &str, folder: &str) -> (r: String)
        ensures
            r@ == self.url_spec(session@, folder@),
    {
        let named = replace(self.url_template.as_str(), "{name}", self.name_for(session).as_str());
        replace(named.as_str(), "{folder}", folder)
    }
}

impl Named for DrainBudget {
    open spec fn key(&self) -> Seq<char> {
        self.class@
    }

    fn name_of(&self) -> (r: &str) {
        self.class.as_str()
    }
}

impl Named for Alert {
    open spec fn key(&self) -> Seq<char> {
        self.id@
    }

    fn name_of(&self) -> (r: &str) {
        self.id.as_str()
    }
}

impl PolicyFile {
    /// Look up a drain budget by class.
    pub fn budget(&self, class: &str) -> (r: Option<&DrainBudget>)
        ensures
            match r {
                Some(b) => row(self.drain_budget@, class@) == Some(*b),
                None => row(self.drain_budget@, class@) is None,
            },
    {
        find_row(&self.drain_budget, class)
    }

    /// Look up an alert by id.
    pub fn alert(&self, id: &str) -> (r: Option<&Alert>)
        ensures
            match r {
                Some(a) => row(self.alert@, id@) == Some(*a),
                None => row(self.alert@, id@) is None,
            },
    {
        find_row(&self.alert, id)
    }
}

// ---- laws of the secrets and the tunnel ----

/// A mode is read in octal, whether or not it is marked so.
pub proof fn a_mode_is_read_in_octal(secret: Secret, r: Option<u32>, a: nat, b: nat, c: nat, d: nat)
    requires
        call_ensures(Secret::mode_bits, (&secret,), r),
        a < 8,
        b < 8,
        c < 8,
        d < 8,
        secret.mode@ =~= seq![
            crate::text::digit(a),
            crate::text::digit(b),
            crate::text::digit(c),
            crate::text::digit(d),
        ] || secret.mode@ =~= seq![
            '0',
            'o',
            crate::text::digit(a),
            crate::text::digit(b),
            crate::text::digit(c),
            crate::text::digit(d),
        ],
    ensures
        r == Some((((a * 8 + b) * 8 + c) * 8 + d) as u32),
{
    let digits = seq![
        crate::text::digit(a),
        crate::text::digit(b),
        crate::text::digit(c),
        crate::text::digit(d),
    ];
    let s = secret.mode@;
    let mark = seq!['0', 'o'];
    assert(mark[1] == 'o');
    assert(!begins(digits, mark)) by {
        assert(digits.subrange(0, 2)[1] == digits[1]);
    }
    assert(without_octal_marks(digits) == digits);
    assert(without_octal_marks(s) == digits) by {
        if s.len() == 6 {
            assert(s.subrange(0, 2) =~= mark);
            assert(s.skip(2) =~= digits);
        } else {
            assert(s =~= digits);
        }
    }
    let d3 = digits.drop_last();
    let d2 = d3.drop_last();
    let d1 = d2.drop_last();
    assert(d1.drop_last() =~= Seq::<char>::empty());
    assert(crate::text::digits_value(Seq::<char>::empty(), 8) == 0);
    assert(crate::text::digits_value(d1, 8) == a);
    assert(crate::text::digits_value(d2, 8) == a * 8 + b);
    assert(crate::text::digits_value(d3, 8) == (a * 8 + b) * 8 + c);
    assert(crate::text::digits_value(digits, 8) == ((a * 8 + b) * 8 + c) * 8 + d);
    assert(crate::text::all_digits(digits, 8));
    assert(crate::text::unsigned_part(digits) == digits);
}

/// A secret is stored where it has a path; its format names its registry where it
/// has one, and stands alone where it has none.
pub proof fn a_secret_names_its_registry(secret: Secret, stored: bool, format: String)
    requires
        call_ensures(Secret::is_stored, (&secret,), stored),
        call_ensures(Secret::rendered_format, (&secret,), format),
    ensures
        stored <==> secret.path@.len() > 0,
        secret.registry@.len() == 0 ==> format@ == secret.format@,
        secret.registry@.len() > 0 ==> format@ == secret.format@ + "@"@ + secret.registry@,
{
}

/// A tunnel is named by its prefix and the session, and its address is the
/// template with that name and the folder filled in.
pub proof fn a_tunnel_is_named_after_its_session(
    tunnel: Tunnel,
    session: &str,
    folder: &str,
    name: String,
    url: String,
)
    requires
        call_ensures(Tunnel::name_for, (&tunnel, session), name),
        call_ensures(Tunnel::url_for, (&tunnel, session, folder), url),
    ensures
        name@ == tunnel.name_prefix@ + session@,
        url@ == replaced(
            replaced(tunnel.url_template@, "{name}"@, name@),
            "{folder}"@,
            folder@,
        ),
{
}

} // verus!
