//! What the management page says.
//!
//! An empty list and an unreachable control plane are different facts, and a
//! page that showed them alike would teach its operator to distrust it at the
//! moment it is expected to be down.
use vstd::prelude::*;

use crate::text::{decimal, decimal_of, join, join_strings, replace, replaced, views};

verus! {

/// What the page knows about the control plane.
#[derive(Debug, PartialEq, Eq)]
pub enum Connection<T> {
    /// The request has not come back yet.
    Loading,
    /// The control plane answered.
    Connected(T),
    /// It did not. Which of the two reasons applies cannot be told apart from a
    /// browser, and the message says so rather than guessing.
    Unreachable {
        /// What the fetch reported.
        detail: String,
    },
}

/// What is shown when the control plane cannot be reached. It names both
/// possibilities: the network error is the same for either.
pub const UNREACHABLE_MESSAGE: &'static str = "The control plane is not answering. Either this browser is not on the tailnet, or n1 is rebooting during its own update window --- from here those look the same. Devcontainers already running are unaffected, and `ssh dc-<id>` still works against the last known host.";

impl<T> Connection<T> {
    /// Whether the page is showing real data.
    pub fn is_connected(&self) -> (r: bool)
        ensures
            r == (self is Connected),
    {
        match self {
            Connection::Connected(_) => true,
            _ => false,
        }
    }
}

/// How a browser gets a token to open a session with.
#[derive(Debug, PartialEq, Eq)]
pub enum Authorization {
    /// No token yet. The page shows the code and the address to enter it at.
    Pending {
        /// What the operator types.
        user_code: String,
        /// Where they type it.
        verification_uri: String,
    },
    /// A bearer token, held for this browser.
    Held,
    /// The operator has not started. One click away.
    Absent,
}

/// The address of a session.
pub open spec fn url(
    template: Seq<char>,
    name_prefix: Seq<char>,
    session: Seq<char>,
    folder: Seq<char>,
) -> Seq<char> {
    replaced(replaced(template, "{name}"@, name_prefix + session), "{folder}"@, folder)
}

/// The address of a session.
///
/// Free of any host: the container registers under the same name wherever it
/// lands, so a migration changes nothing here.
pub fn session_url(template: &str, name_prefix: &str, session: &str, folder: &str) -> (r: String)
    ensures
        r@ == url(template@, name_prefix@, session@, folder@),
{
    let name = name_prefix.to_owned().concat(session);
    let named = replace(template, "{name}", name.as_str());
    replace(named.as_str(), "{folder}", folder)
}

/// The page and the node agree on the address of a session.
pub proof fn the_page_and_the_node_agree_on_a_session(
    tunnel: crate::policy::Tunnel,
    session: Seq<char>,
    folder: Seq<char>,
)
    ensures
        url(tunnel.url_template@, tunnel.name_prefix@, session, folder) == tunnel.url_spec(
            session,
            folder,
        ),
{
}

/// Where the control plane answers, unless the build says otherwise.
pub const DEFAULT_API_BASE: &'static str = "https://n1.afflom.ts.net";

/// Where the control plane answers: what the build was given, or the default.
pub fn api_base(configured: Option<&str>) -> (r: String)
    ensures
        r@ == match configured {
            Some(base) => base@,
            None => DEFAULT_API_BASE@,
        },
{
    match configured {
        Some(base) => base.to_owned(),
        None => DEFAULT_API_BASE.to_owned(),
    }
}

/// Where a session is in its life.
#[derive(Debug, Clone, Copy, PartialEq, Eq, Structural)]
pub enum SessionState {
    /// It is being created.
    Creating,
    /// It is running.
    Running,
    /// It is stopped.
    Stopped,
    /// It is moving to another node.
    Migrating,
    /// It is archived. Reversible.
    Archived,
    /// Its archive is deleted.
    Purged,
}

/// How a session's state is shown.
pub open spec fn label(state: SessionState, dirty: bool) -> Seq<char> {
    match state {
        SessionState::Archived => if dirty {
            "archived --- dirty, held for acknowledgement"@
        } else {
            "archived"@
        },
        SessionState::Creating => "creating"@,
        SessionState::Running => "running"@,
        SessionState::Stopped => "stopped"@,
        SessionState::Migrating => "migrating"@,
        SessionState::Purged => "purged"@,
    }
}

/// How a session's state is shown.
///
/// A held dirty archive is called out rather than blended in: it needs an
/// acknowledgement, and has nowhere else to ask for one.
pub fn state_label(state: SessionState, dirty: bool) -> (r: &'static str)
    ensures
        r@ == label(state, dirty),
{
    match state {
        SessionState::Archived => if dirty {
            "archived --- dirty, held for acknowledgement"
        } else {
            "archived"
        },
        SessionState::Creating => "creating",
        SessionState::Running => "running",
        SessionState::Stopped => "stopped",
        SessionState::Migrating => "migrating",
        SessionState::Purged => "purged",
    }
}

/// Two states are shown alike only where they are the same, and a dirty archive
/// unlike a clean one.
pub proof fn labels_tell_states_apart(a: SessionState, b: SessionState)
    requires
        label(a, false) == label(b, false),
    ensures
        a == b,
        label(SessionState::Archived, true) != label(a, false),
{
    reveal_strlit("archived --- dirty, held for acknowledgement");
    reveal_strlit("archived");
    reveal_strlit("creating");
    reveal_strlit("running");
    reveal_strlit("stopped");
    reveal_strlit("migrating");
    reveal_strlit("purged");
    assert("archived"@[0] == 'a' && "creating"@[0] == 'c' && "running"@[0] == 'r');
    assert("stopped"@[0] == 's' && "migrating"@[0] == 'm' && "purged"@[0] == 'p');
    assert("archived --- dirty, held for acknowledgement"@[8] == ' ');
    assert("archived"@.len() == 8);
    assert("archived --- dirty, held for acknowledgement"@[0] == 'a');
}

/// Idle age, in the units a human reads it in.
pub open spec fn idle(seconds: u64) -> Seq<char> {
    if seconds < 60 {
        "just now"@
    } else if seconds < 3600 {
        decimal((seconds / 60) as nat) + " min"@
    } else if seconds < 86400 {
        decimal((seconds / 3600) as nat) + " h"@
    } else {
        decimal((seconds / 86400) as nat) + " days"@
    }
}

/// Idle age, in the units a human reads it in.
pub fn idle_label(seconds: u64) -> (r: String)
    ensures
        r@ == idle(seconds),
{
    if seconds < 60 {
        "just now".to_owned()
    } else if seconds < 3600 {
        decimal_of(seconds / 60).concat(" min")
    } else if seconds < 86400 {
        decimal_of(seconds / 3600).concat(" h")
    } else {
        decimal_of(seconds / 86400).concat(" days")
    }
}

/// What the page says about one secret. A cluster nobody has enrolled is not
/// broken, and must not read as broken.
pub fn enrolment_label(present: bool) -> (r: &'static str)
    ensures
        r@ == (if present {
            "given"@
        } else {
            "not given yet"@
        }),
{
    if present {
        "given"
    } else {
        "not given yet"
    }
}

/// Whether one secret was given. The value is never part of it.
#[derive(Debug, PartialEq, Eq)]
pub struct SlotState {
    /// The secret's identifier.
    pub id: String,
    /// Whether it was given.
    pub present: bool,
}

/// Which secrets were given.
#[derive(Debug, PartialEq, Eq)]
pub struct EnrolmentState {
    /// One row per secret, in declaration order.
    pub secrets: Vec<SlotState>,
    /// Whether all of them were.
    pub complete: bool,
}

/// Whether every secret was given.
pub open spec fn all_present(secrets: Seq<SlotState>) -> bool {
    forall|i: int| 0 <= i < secrets.len() ==> (#[trigger] secrets[i]).present
}

/// The secrets that were not given.
pub open spec fn missing(secrets: Seq<SlotState>) -> Seq<Seq<char>>
    decreases secrets.len(),
{
    if secrets.len() == 0 {
        Seq::empty()
    } else if secrets.last().present {
        missing(secrets.drop_last())
    } else {
        missing(secrets.drop_last()).push(secrets.last().id@)
    }
}

impl EnrolmentState {
    /// The state that some secrets make.
    pub fn of(secrets: Vec<SlotState>) -> (r: EnrolmentState)
        ensures
            r.secrets == secrets,
            r.complete == all_present(secrets@),
    {
        let mut i: usize = 0;
        let mut complete = true;
        while i < secrets.len()
            invariant
                i <= secrets.len(),
                complete == (forall|k: int| 0 <= k < i ==> (#[trigger] secrets@[k]).present),
            decreases secrets.len() - i,
        {
            if !secrets[i].present {
                complete = false;
            }
            i = i + 1;
        }
        EnrolmentState { secrets, complete }
    }

    /// The one sentence a partly enrolled cluster shows.
    pub open spec fn summary(&self) -> Seq<char> {
        if self.complete {
            "Every secret this cluster needs has been given."@
        } else {
            "This cluster is waiting for "@ + join(missing(self.secrets@), ", "@)
                + ". Until then it pulls no images, joins no tailnet, and admits no SSH."@
        }
    }
}

/// The one sentence a partly enrolled cluster shows.
///
/// It names what is still needed rather than counting it: a count is a number
/// to look up, and a name is a thing to go and do.
pub fn enrolment_summary(state: &EnrolmentState) -> (r: String)
    ensures
        r@ == state.summary(),
{
    if state.complete {
        return "Every secret this cluster needs has been given.".to_owned();
    }
    let secrets = &state.secrets;
    let mut names: Vec<String> = Vec::new();
    let mut i: usize = 0;
    proof {
        assert(views(names@) =~= missing(secrets@.take(0)));
    }
    while i < secrets.len()
        invariant
            i <= secrets.len(),
            views(names@) == missing(secrets@.take(i as int)),
        decreases secrets.len() - i,
    {
        let ghost before = names@;
        proof {
            assert(secrets@.take(i + 1).drop_last() =~= secrets@.take(i as int));
        }
        if !secrets[i].present {
            names.push(secrets[i].id.clone());
            proof {
                assert(views(names@) =~= views(before).push(secrets@[i as int].id@));
            }
        }
        i = i + 1;
    }
    proof {
        assert(secrets@.take(i as int) =~= secrets@);
    }
    "This cluster is waiting for ".to_owned().concat(join_strings(&names, ", ").as_str()).concat(
        ". Until then it pulls no images, joins no tailnet, and admits no SSH.",
    )
}

/// What the page says is missing is what was not given: nothing where the
/// enrolment is complete, and something where it is not.
pub proof fn a_summary_names_what_is_missing(secrets: Seq<SlotState>)
    ensures
        all_present(secrets) <==> missing(secrets).len() == 0,
        forall|i: int|
            0 <= i < secrets.len() && !(#[trigger] secrets[i]).present ==> missing(
                secrets,
            ).contains(secrets[i].id@),
    decreases secrets.len(),
{
    if secrets.len() > 0 {
        let rest = secrets.drop_last();
        a_summary_names_what_is_missing(rest);
        if all_present(secrets) {
            assert(all_present(rest)) by {
                assert(forall|i: int| 0 <= i < rest.len() ==> (#[trigger] rest[i]) == secrets[i]);
            }
        } else if secrets.last().present {
            assert(!all_present(rest)) by {
                let i = choose|i: int| 0 <= i < secrets.len() && !(#[trigger] secrets[i]).present;
                assert(!rest[i].present);
            }
        }
        assert forall|i: int| 0 <= i < secrets.len() && !(#[trigger] secrets[i]).present implies missing(
            secrets,
        ).contains(secrets[i].id@) by {
            if i < rest.len() {
                assert(rest[i] == secrets[i]);
                let before = missing(rest);
                let k = before.index_of(secrets[i].id@);
                assert(missing(secrets)[k] == before[k]);
            } else {
                assert(missing(secrets).last() == secrets[i].id@);
            }
        }
    }
}

// ---- laws of the page ----

/// A state is labelled with its name; an archive that is dirty is said to be
/// held.
pub proof fn a_state_is_labelled_with_its_name(state: SessionState, dirty: bool, r: &'static str)
    requires
        call_ensures(state_label, (state, dirty), r),
    ensures
        state is Creating ==> r@ == "creating"@,
        state is Running ==> r@ == "running"@,
        state is Stopped ==> r@ == "stopped"@,
        state is Migrating ==> r@ == "migrating"@,
        state is Purged ==> r@ == "purged"@,
        state is Archived && !dirty ==> r@ == "archived"@,
        state is Archived && dirty ==> r@ == "archived --- dirty, held for acknowledgement"@,
{
}

/// Idle time is given in the largest unit that it fills, rounded down.
pub proof fn idle_time_is_given_in_its_largest_unit(seconds: u64, r: String)
    requires
        call_ensures(idle_label, (seconds,), r),
    ensures
        seconds < 60 ==> r@ == "just now"@,
        forall|n: nat|
            60 * n <= seconds < 60 * n + 60 && 60 <= seconds < 3600 ==> r@ == #[trigger] decimal(n)
                + " min"@,
        forall|n: nat|
            3600 * n <= seconds < 3600 * n + 3600 && 3600 <= seconds < 86400 ==> r@
                == #[trigger] decimal(n) + " h"@,
        forall|n: nat|
            86400 * n <= seconds < 86400 * n + 86400 && 86400 <= seconds ==> r@
                == #[trigger] decimal(n) + " days"@,
{
}

/// A secret that was given is said to be given.
pub proof fn a_given_secret_is_said_to_be_given(present: bool, r: &'static str)
    requires
        call_ensures(enrolment_label, (present,), r),
    ensures
        present ==> r@ == "given"@,
        !present ==> r@ == "not given yet"@,
{
}

/// Enrolment is complete exactly where every secret is present.
pub proof fn enrolment_is_complete_with_its_last_secret(
    secrets: Vec<SlotState>,
    r: EnrolmentState,
    text: String,
    i: int,
)
    requires
        call_ensures(EnrolmentState::of, (secrets,), r),
        call_ensures(enrolment_summary, (&r,), text),
    ensures
        r.secrets == secrets,
        0 <= i < secrets@.len() && !secrets@[i].present ==> !r.complete,
        (forall|k: int| 0 <= k < secrets@.len() ==> (#[trigger] secrets@[k]).present) ==> r.complete
            && text@ == "Every secret this cluster needs has been given."@,
        !r.complete ==> "This cluster is waiting for "@.is_prefix_of(text@),
        0 <= i < secrets@.len() && !secrets@[i].present ==> missing(secrets@).contains(
            secrets@[i].id@,
        ),
{
    if !r.complete {
        let head = "This cluster is waiting for "@;
        assert(text@.subrange(0, head.len() as int) =~= head);
    }
    if 0 <= i < secrets@.len() && !secrets@[i].present {
        lemma_missing(secrets@, i);
    }
}

proof fn lemma_missing(secrets: Seq<SlotState>, i: int)
    requires
        0 <= i < secrets.len(),
        !secrets[i].present,
    ensures
        missing(secrets).contains(secrets[i].id@),
    decreases secrets.len(),
{
    let all = missing(secrets);
    if i == secrets.len() - 1 {
        assert(all[all.len() - 1] == secrets[i].id@);
    } else {
        lemma_missing(secrets.drop_last(), i);
        let before = missing(secrets.drop_last());
        let k = before.index_of(secrets[i].id@);
        assert(all[k] == secrets[i].id@);
    }
}

/// A session is opened at the address that the template gives for its name and
/// its folder.
pub proof fn a_session_is_opened_by_name_and_folder(
    template: &str,
    prefix: &str,
    session: &str,
    folder: &str,
    r: String,
)
    requires
        call_ensures(session_url, (template, prefix, session, folder), r),
    ensures
        r@ == replaced(
            replaced(template@, "{name}"@, prefix@ + session@),
            "{folder}"@,
            folder@,
        ),
{
}

/// The control plane is where it is configured to be, or else on the first node.
pub proof fn the_control_plane_is_where_it_is_configured(configured: Option<&str>, r: String)
    requires
        call_ensures(api_base, (configured,), r),
    ensures
        configured is Some ==> r@ == configured.unwrap()@,
        configured is None ==> r@ == "https://n1.afflom.ts.net"@,
{
}

} // verus!
