//! What the agent answers, and how it moves a session.
//!
//! The library decides; whoever holds the socket and runs the commands reports
//! back what happened.
use vstd::prelude::*;

use crate::agent::{command, AgentError, Failure, Migration, Step, WorkspaceState};
use crate::agent::{all_steps, command_of};
use crate::order::{in_order, key_views, stable_order, Key};
use crate::render::{flag, flag_of};
use crate::text::{
    begins,
    byte_count,
    decimal,
    decimal_of,
    ends,
    ends_with,
    join,
    join_strings,
    numeral,
    parse_number,
    same,
    split,
    split_on,
    split_words,
    starts_with,
    strip_leading,
    strip_trailing,
    trim,
    trimmed,
    views,
    without_leading,
    without_trailing,
    words,
};

verus! {

// ---- the command line ----

/// What the agent was started to do.
#[derive(Debug)]
pub enum Mode {
    /// Answer for this node's workspaces.
    Serve,
    /// Record an attachment to a session.
    Attached(String),
    /// Record an attachment, and no session was named.
    NoSession,
    /// A mode there is none of.
    Unknown(String),
}

/// What the agent was started to do: to serve, where nothing says otherwise.
pub fn parse_mode(args: &Vec<String>) -> (r: Mode)
    ensures
        match r {
            Mode::Serve => args@.len() == 0 || args@[0]@ == "serve"@,
            Mode::Attached(session) => args@.len() > 1 && args@[0]@ == "attached"@ && args@[1]@
                == session@,
            Mode::NoSession => args@.len() == 1 && args@[0]@ == "attached"@,
            Mode::Unknown(other) => args@.len() > 0 && args@[0]@ == other@ && other@ != "serve"@
                && other@ != "attached"@,
        },
        args@.len() > 0 && args@[0]@ == "serve"@ ==> r is Serve,
{
    if args.len() == 0 || same(args[0].as_str(), "serve") {
        Mode::Serve
    } else if same(args[0].as_str(), "attached") {
        if args.len() > 1 {
            Mode::Attached(args[1].clone())
        } else {
            Mode::NoSession
        }
    } else {
        Mode::Unknown(args[0].clone())
    }
}

/// What an unknown mode is told.
pub open spec fn usage_text(other: Seq<char>) -> Seq<char> {
    "devcontainer-agent <serve|attached SESSION>\n\nserve              answer for this node's workspaces (§15.2)\nattached SESSION   record an attachment (§15.1)\n\nunknown mode `"@
        + other
        + "`"@
}

pub fn usage(other: &str) -> (r: String)
    ensures
        r@ == usage_text(other@),
{
    "devcontainer-agent <serve|attached SESSION>\n\nserve              answer for this node's workspaces (§15.2)\nattached SESSION   record an attachment (§15.1)\n\nunknown mode `".to_owned()
        .concat(other)
        .concat("`")
}

/// The failure of an attempt.
pub open spec fn failure(session: Seq<char>, attempted: Seq<char>, because: Seq<char>) -> Failure {
    Failure { session, attempted, because }
}

fn failed(session: &str, attempted: &str, because: &str) -> (r: AgentError)
    ensures
        r@ == failure(session@, attempted@, because@),
{
    AgentError {
        session: session.to_owned(),
        attempted: attempted.to_owned(),
        because: because.to_owned(),
    }
}

/// What recording an attachment to no session is told.
pub fn no_session() -> (r: AgentError)
    ensures
        r@ == failure(""@, "record an attachment"@, "no session was named"@),
{
    failed("", "record an attachment", "no session was named")
}

// ---- settings ----

/// What the environment says, where it says anything.
#[derive(Debug)]
pub struct Settings {
    /// Where workspaces stand on this node.
    pub workspaces: Option<String>,
    /// Where durable copies live on the target.
    pub home: Option<String>,
    /// The node that receives work.
    pub target: Option<String>,
    /// The grace period a container is stopped with.
    pub grace: Option<String>,
    /// Where the control plane answers.
    pub control: Option<String>,
}

/// A setting, or what it is where the environment says nothing.
pub open spec fn setting(value: Option<String>, fallback: Seq<char>) -> Seq<char> {
    match value {
        Some(text) => text@,
        None => fallback,
    }
}

fn setting_of(value: &Option<String>, fallback: &str) -> (r: String)
    ensures
        r@ == setting(*value, fallback@),
{
    match value {
        Some(text) => text.clone(),
        None => fallback.to_owned(),
    }
}

/// A path below another, as paths are joined: one that begins with a slash
/// stands for itself.
pub open spec fn joined(root: Seq<char>, name: Seq<char>) -> Seq<char> {
    if begins(name, "/"@) {
        name
    } else if root.len() == 0 || ends(root, "/"@) {
        root + name
    } else {
        root + "/"@ + name
    }
}

/// A path below another, as paths are joined.
pub fn join_path(root: &str, name: &str) -> (r: String)
    ensures
        r@ == joined(root@, name@),
{
    if starts_with(name, "/") {
        name.to_owned()
    } else if root.is_empty() || ends_with(root, "/") {
        root.to_owned().concat(name)
    } else {
        root.to_owned().concat("/").concat(name)
    }
}

/// The grace period a text spells, and half a minute where it spells none.
pub open spec fn grace(text: Seq<char>) -> u64 {
    match numeral(text, 10) {
        Some(n) => if n <= u64::MAX {
            n as u64
        } else {
            30
        },
        None => 30,
    }
}

impl Settings {
    /// Where workspaces stand on this node.
    pub open spec fn root_spec(&self) -> Seq<char> {
        setting(self.workspaces, "/var/lib/devcontainers"@)
    }

    /// Where workspaces stand on this node.
    pub fn root(&self) -> (r: String)
        ensures
            r@ == self.root_spec(),
    {
        setting_of(&self.workspaces, "/var/lib/devcontainers")
    }

    /// Where the control plane answers.
    pub open spec fn control_spec(&self) -> Seq<char> {
        setting(self.control, "http://127.0.0.1:8080"@)
    }

    /// Where the control plane answers.
    pub fn control_plane(&self) -> (r: String)
        ensures
            r@ == self.control_spec(),
    {
        setting_of(&self.control, "http://127.0.0.1:8080")
    }

    /// The workspace of a session.
    pub fn workspace_of(&self, session: &str) -> (r: String)
        ensures
            r@ == joined(self.root_spec(), session@),
    {
        join_path(self.root().as_str(), session)
    }

    /// How a session is moved, given the digest its container was built from.
    pub fn migration(&self, session: &str, image_digest: String) -> (r: Migration)
        ensures
            r.session@ == session@,
            r.workspace@ == joined(self.root_spec(), session@),
            r.home@ == setting(self.home, "/var/lib/devcontainer-home"@),
            r.target@ == setting(self.target, "n1"@),
            r.image_digest == image_digest,
            r.grace_s == grace(setting(self.grace, "30"@)),
    {
        let text = setting_of(&self.grace, "30");
        let grace_s: u64 = match parse_number(text.as_str(), 10, u64::MAX) {
            Some(n) => n,
            None => 30,
        };
        Migration {
            session: session.to_owned(),
            workspace: self.workspace_of(session),
            home: setting_of(&self.home, "/var/lib/devcontainer-home"),
            target: setting_of(&self.target, "n1"),
            image_digest,
            grace_s,
        }
    }
}

// ---- commands ----

/// What curl is given to record an attachment.
pub open spec fn attachment_arguments_of(control: Seq<char>, session: Seq<char>) -> Seq<Seq<char>> {
    seq![
        "--silent"@,
        "--show-error"@,
        "--fail"@,
        "--max-time"@,
        "5"@,
        "--request"@,
        "POST"@,
        control
            + "/api/sessions/"@
            + session
            + "/attached"@,
    ]
}

/// What curl is given to record an attachment.
pub fn attachment_arguments(control: &str, session: &str) -> (out: Vec<String>)
    ensures
        views(out@) == attachment_arguments_of(control@, session@),
{
    let out = vec![
        "--silent".to_owned(),
        "--show-error".to_owned(),
        "--fail".to_owned(),
        "--max-time".to_owned(),
        "5".to_owned(),
        "--request".to_owned(),
        "POST".to_owned(),
        control.to_owned()
            .concat("/api/sessions/")
            .concat(session)
            .concat("/attached"),
    ];
    proof {
        assert(views(out@) =~= attachment_arguments_of(control@, session@));
    }
    out
}

/// What podman is given to release a session's tunnel name.
pub open spec fn unregister_arguments_of(session: Seq<char>) -> Seq<Seq<char>> {
    seq![
        "exec"@,
        "devcontainer-"@
            + session,
        "/usr/local/share/cluster-tunnel/unregister.sh"@,
    ]
}

/// What podman is given to release a session's tunnel name.
pub fn unregister_arguments(session: &str) -> (out: Vec<String>)
    ensures
        views(out@) == unregister_arguments_of(session@),
{
    let out = vec![
        "exec".to_owned(),
        "devcontainer-".to_owned()
            .concat(session),
        "/usr/local/share/cluster-tunnel/unregister.sh".to_owned(),
    ];
    proof {
        assert(views(out@) =~= unregister_arguments_of(session@));
    }
    out
}

/// What podman is given to read the digest a session's container was built
/// from.
pub open spec fn digest_arguments_of(session: Seq<char>) -> Seq<Seq<char>> {
    seq![
        "inspect"@,
        "--format"@,
        "{{.ImageName}}"@,
        "devcontainer-"@
            + session,
    ]
}

/// What podman is given to read the digest a session's container was built
/// from.
pub fn digest_arguments(session: &str) -> (out: Vec<String>)
    ensures
        views(out@) == digest_arguments_of(session@),
{
    let out = vec![
        "inspect".to_owned(),
        "--format".to_owned(),
        "{{.ImageName}}".to_owned(),
        "devcontainer-".to_owned()
            .concat(session),
    ];
    proof {
        assert(views(out@) =~= digest_arguments_of(session@));
    }
    out
}

/// What became of a command.
#[derive(Debug)]
pub enum Ran {
    /// It could not be started, and why.
    NotStarted(String),
    /// It ended.
    Ended {
        /// Whether it succeeded.
        success: bool,
        /// What it wrote to its output.
        stdout: String,
        /// What it wrote of its failure.
        stderr: String,
    },
}

impl Ran {
    /// Why a command did not succeed, where it did not.
    pub open spec fn trouble(&self) -> Option<Seq<char>> {
        match self {
            Ran::NotStarted(why) => Some(why@),
            Ran::Ended { success, stdout, stderr } => if *success {
                None
            } else {
                Some(trimmed(stderr@))
            },
        }
    }

    /// What a command wrote to its output.
    pub open spec fn output(&self) -> Seq<char> {
        match self {
            Ran::NotStarted(why) => Seq::empty(),
            Ran::Ended { success, stdout, stderr } => trimmed(stdout@),
        }
    }
}

/// What an attempt came to: the output of its command, or why it failed.
pub fn settle(session: &str, attempted: &str, ran: &Ran) -> (r: Result<String, AgentError>)
    ensures
        match r {
            Ok(out) => ran.trouble() is None && out@ == ran.output(),
            Err(e) => ran.trouble() is Some && e@ == failure(
                session@,
                attempted@,
                ran.trouble().unwrap(),
            ),
        },
{
    match ran {
        Ran::NotStarted(why) => Err(failed(session, attempted, why.as_str())),
        Ran::Ended { success, stdout, stderr } => if *success {
            Ok(trim(stdout.as_str()))
        } else {
            Err(failed(session, attempted, trim(stderr.as_str()).as_str()))
        },
    }
}

/// What recording an attachment came to.
pub fn settle_attachment(session: &str, ran: &Ran) -> (r: Result<(), AgentError>)
    ensures
        match r {
            Ok(_) => ran.trouble() is None,
            Err(e) => ran.trouble() is Some && e@ == failure(
                session@,
                "record an attachment"@,
                ran.trouble().unwrap(),
            ),
        },
{
    match settle(session, "record an attachment", ran) {
        Ok(_) => Ok(()),
        Err(e) => Err(e),
    }
}

/// What releasing a tunnel name came to.
pub fn settle_unregister(session: &str, ran: &Ran) -> (r: Result<(), AgentError>)
    ensures
        match r {
            Ok(_) => ran.trouble() is None,
            Err(e) => ran.trouble() is Some && e@ == failure(
                session@,
                "unregister the tunnel"@,
                ran.trouble().unwrap(),
            ),
        },
{
    match settle(session, "unregister the tunnel", ran) {
        Ok(_) => Ok(()),
        Err(e) => Err(e),
    }
}

/// What reading a container's digest came to.
pub fn settle_digest(session: &str, ran: &Ran) -> (r: Result<String, AgentError>)
    ensures
        match r {
            Ok(digest) => ran.trouble() is None && digest@ == ran.output(),
            Err(e) => ran.trouble() is Some && e@ == failure(
                session@,
                "read the container's image"@,
                ran.trouble().unwrap(),
            ),
        },
{
    settle(session, "read the container's image", ran)
}

// ---- moving a session ----

/// A command with its control-plane paths put below the control plane's
/// address.
pub open spec fn addressed(command: Seq<Seq<char>>, control: Seq<char>) -> Seq<Seq<char>> {
    Seq::new(
        command.len(),
        |i: int|
            if i > 0 && begins(command[i], "/api/"@) {
                control + command[i]
            } else {
                command[i]
            },
    )
}

/// What to do next in a migration.
#[derive(Debug)]
pub enum Next {
    /// Run this command, and say what became of it.
    Run(Vec<String>),
    /// Every step is done: their names.
    Done(String),
    /// A step failed, and the migration ends there.
    Failed(AgentError),
}

/// The names of the first `n` steps, quoted.
pub open spec fn quoted_steps(n: int) -> Seq<Seq<char>> {
    Seq::new(n as nat, |i: int| "\""@ + all_steps()[i].name() + "\""@)
}

/// What a migration whose steps are done says of itself.
pub open spec fn steps_done() -> Seq<char> {
    "["@ + join(quoted_steps(6), ","@) + "]"@
}

/// What a failed step says was attempted.
pub open spec fn attempted_of(m: Migration, step: Step, ran: Ran) -> Seq<char> {
    match ran {
        Ran::NotStarted(_) => step.name() + ": "@ + command_of(m, step)[0],
        Ran::Ended { .. } => step.name() + " ("@ + (if step.reversible() {
            "reversible: the container is still running here"@
        } else {
            "past the point of no return"@
        }) + ")"@,
    }
}

/// What the step at `at` is followed by, given what became of its command.
pub open spec fn follows(next: Next, m: Migration, control: Seq<char>, at: int, ran: Ran) -> bool {
    match ran.trouble() {
        Some(why) => next matches Next::Failed(e) && e@ == failure(
            m.session@,
            attempted_of(m, all_steps()[at], ran),
            why,
        ),
        None => goes_on(next, m, control, at + 1),
    }
}

/// What a migration does once its first `at` steps are done.
pub open spec fn goes_on(next: Next, m: Migration, control: Seq<char>, at: int) -> bool {
    if at >= 6 {
        next matches Next::Done(text) && text@ == steps_done()
    } else {
        next matches Next::Run(argv) && views(argv@) == addressed(
            command_of(m, all_steps()[at]),
            control,
        )
    }
}

fn address(argv: &Vec<String>, control: &str) -> (out: Vec<String>)
    ensures
        views(out@) == addressed(views(argv@), control@),
{
    let mut out: Vec<String> = Vec::new();
    let mut i: usize = 0;
    while i < argv.len()
        invariant
            i <= argv.len(),
            out.len() == i,
            forall|k: int|
                0 <= k < i ==> (#[trigger] out@[k])@ == addressed(views(argv@), control@)[k],
        decreases argv.len() - i,
    {
        proof {
            assert(views(argv@)[i as int] == argv@[i as int]@);
        }
        if i > 0 && starts_with(argv[i].as_str(), "/api/") {
            out.push(control.to_owned().concat(argv[i].as_str()));
        } else {
            out.push(argv[i].clone());
        }
        i = i + 1;
    }
    proof {
        assert(views(out@) =~= addressed(views(argv@), control@));
    }
    out
}

/// What a migration does once its first `at` steps are done.
pub fn proceed(m: &Migration, control: &str, at: usize) -> (r: Next)
    ensures
        goes_on(r, *m, control@, at as int),
{
    let steps = Step::all();
    if at < 6 {
        return Next::Run(address(&command(m, steps[at]), control));
    }
    let mut names: Vec<String> = Vec::new();
    let mut i: usize = 0;
    while i < 6
        invariant
            i <= 6,
            steps@ == all_steps(),
            names.len() == i,
            forall|k: int|
                0 <= k < i ==> (#[trigger] names@[k])@ == "\""@ + all_steps()[k].name() + "\""@,
        decreases 6 - i,
    {
        names.push("\"".to_owned().concat(steps[i].as_str()).concat("\""));
        i = i + 1;
    }
    proof {
        assert(views(names@) =~= quoted_steps(6));
    }
    Next::Done("[".to_owned().concat(join_strings(&names, ",").as_str()).concat("]"))
}

/// What follows the step at `at`, given what became of its command.
///
/// A failure ends the migration. Up to the copy it says that the container is
/// still running here, so that the caller may leave the session where it is.
pub fn resume(m: &Migration, control: &str, at: usize, ran: &Ran) -> (r: Next)
    requires
        at < 6,
    ensures
        follows(r, *m, control@, at as int, *ran),
{
    let steps = Step::all();
    let step = steps[at];
    match ran {
        Ran::NotStarted(why) => {
            let argv = command(m, step);
            let attempted = step.as_str().to_owned().concat(": ").concat(argv[0].as_str());
            proof {
                assert(views(argv@)[0] == argv@[0]@);
            }
            Next::Failed(failed(m.session.as_str(), attempted.as_str(), why.as_str()))
        },
        Ran::Ended { success, stdout, stderr } => if *success {
            proceed(m, control, at + 1)
        } else {
            let attempted = step.as_str().to_owned().concat(" (").concat(
                if step.is_reversible() {
                    "reversible: the container is still running here"
                } else {
                    "past the point of no return"
                },
            ).concat(")");
            Next::Failed(
                failed(m.session.as_str(), attempted.as_str(), trim(stderr.as_str()).as_str()),
            )
        },
    }
}

/// Whether `next` lists what a migration does as its commands come to `ran`.
pub open spec fn is_run(next: Seq<Next>, m: Migration, control: Seq<char>, ran: Seq<Ran>) -> bool {
    &&& next.len() == ran.len() + 1
    &&& ran.len() <= 6
    &&& goes_on(next[0], m, control, 0)
    &&& forall|i: int|
        0 <= i < ran.len() ==> next[i] is Run && follows(#[trigger] next[i + 1], m, control, i, ran[i])
}

/// A migration runs its steps in the declared order, one command each, and goes
/// on past a step only where its command succeeded.
pub proof fn a_migration_runs_its_steps_in_order(
    next: Seq<Next>,
    m: Migration,
    control: Seq<char>,
    ran: Seq<Ran>,
    i: int,
)
    requires
        is_run(next, m, control, ran),
        0 <= i < ran.len(),
    ensures
        next[i] matches Next::Run(argv) && views(argv@) == addressed(
            command_of(m, all_steps()[i]),
            control,
        ),
        i + 1 < ran.len() ==> ran[i].trouble() is None,
{
    assert(follows(next[i + 1], m, control, i, ran[i]));
    assert(next[i] is Run);
    if i > 0 {
        let k = i - 1;
        assert(follows(next[k + 1], m, control, k, ran[k]));
    }
    if i + 1 < ran.len() {
        let k = i + 1;
        assert(follows(next[k + 1], m, control, k, ran[k]));
        assert(next[k] is Run);
    }
}

/// A migration that is done has run all six steps, and each succeeded.
pub proof fn a_finished_migration_ran_every_step(
    next: Seq<Next>,
    m: Migration,
    control: Seq<char>,
    ran: Seq<Ran>,
)
    requires
        is_run(next, m, control, ran),
        next.last() is Done,
    ensures
        ran.len() == 6,
        forall|i: int| 0 <= i < 6 ==> (#[trigger] ran[i]).trouble() is None,
{
    if ran.len() > 0 {
        let k = ran.len() - 1;
        assert(follows(next[k + 1], m, control, k, ran[k]));
        assert(next[k + 1] == next.last());
    }
    assert forall|i: int| 0 <= i < ran.len() implies (#[trigger] ran[i]).trouble() is None by {
        if i + 1 < ran.len() {
            a_migration_runs_its_steps_in_order(next, m, control, ran, i);
        }
    }
}

/// A failed step is past the point of no return unless it came before the stop.
pub proof fn only_what_comes_before_the_stop_is_reversible(i: int)
    requires
        0 <= i < 6,
    ensures
        all_steps()[i].reversible() <==> i < 2,
        all_steps()[2] == Step::Stop,
{
}

// ---- answering ----

/// What a request asks for.
#[derive(Debug)]
pub enum Route {
    /// What this node hosts.
    Hosted,
    /// Whether a client is attached.
    Observe,
    /// To release a session's tunnel name.
    Unregister(String),
    /// Whether a session's workspace is dirty.
    Dirty(String),
    /// To record an attachment.
    Attached(String),
    /// To move a session.
    Migrate(String),
    /// Nothing that is answered here.
    Missing,
}

/// What a request asks for, as values.
pub enum Asked {
    Hosted,
    Observe,
    Unregister(Seq<char>),
    Dirty(Seq<char>),
    Attached(Seq<char>),
    Migrate(Seq<char>),
    Missing,
}

impl View for Route {
    type V = Asked;

    open spec fn view(&self) -> Asked {
        match self {
            Route::Hosted => Asked::Hosted,
            Route::Observe => Asked::Observe,
            Route::Unregister(id) => Asked::Unregister(id@),
            Route::Dirty(id) => Asked::Dirty(id@),
            Route::Attached(id) => Asked::Attached(id@),
            Route::Migrate(id) => Asked::Migrate(id@),
            Route::Missing => Asked::Missing,
        }
    }
}

/// What a method asks of the segments of a path.
pub open spec fn asks(method: Seq<char>, segments: Seq<Seq<char>>) -> Asked {
    if segments.len() == 0 || segments[0] != "workspaces"@ {
        Asked::Missing
    } else if segments.len() == 1 && method == "GET"@ {
        Asked::Hosted
    } else if segments.len() == 3 && method == "GET"@ {
        if segments[2] == "attached"@ {
            Asked::Observe
        } else if segments[2] == "dirty"@ {
            Asked::Dirty(segments[1])
        } else {
            Asked::Missing
        }
    } else if segments.len() == 3 && method == "POST"@ {
        if segments[2] == "unregister"@ {
            Asked::Unregister(segments[1])
        } else if segments[2] == "attached"@ {
            Asked::Attached(segments[1])
        } else if segments[2] == "migrate"@ {
            Asked::Migrate(segments[1])
        } else {
            Asked::Missing
        }
    } else {
        Asked::Missing
    }
}

/// What the first line of a request asks for: its method, and the segments of
/// its path without the slashes around it.
pub open spec fn request_asks(line: Seq<char>) -> Asked {
    let list = words(line);
    let method = if list.len() > 0 {
        list[0]
    } else {
        Seq::empty()
    };
    let path = if list.len() > 1 {
        list[1]
    } else {
        Seq::empty()
    };
    asks(method, split(without_trailing(without_leading(path, '/'), '/'), '/'))
}

fn route_of(method: &str, segments: &Vec<String>) -> (r: Route)
    ensures
        r@ == asks(method@, views(segments@)),
{
    proof {
        assert(views(segments@).len() == segments.len());
        assert(forall|k: int|
            0 <= k < segments.len() ==> views(segments@)[k] == (#[trigger] segments@[k])@);
    }
    if segments.len() == 0 || !same(segments[0].as_str(), "workspaces") {
        Route::Missing
    } else if segments.len() == 1 && same(method, "GET") {
        Route::Hosted
    } else if segments.len() == 3 && same(method, "GET") {
        if same(segments[2].as_str(), "attached") {
            Route::Observe
        } else if same(segments[2].as_str(), "dirty") {
            Route::Dirty(segments[1].clone())
        } else {
            Route::Missing
        }
    } else if segments.len() == 3 && same(method, "POST") {
        if same(segments[2].as_str(), "unregister") {
            Route::Unregister(segments[1].clone())
        } else if same(segments[2].as_str(), "attached") {
            Route::Attached(segments[1].clone())
        } else if same(segments[2].as_str(), "migrate") {
            Route::Migrate(segments[1].clone())
        } else {
            Route::Missing
        }
    } else {
        Route::Missing
    }
}

/// What the first line of a request asks for.
pub fn parse_request(line: &str) -> (r: Route)
    ensures
        r@ == request_asks(line@),
{
    let list = split_words(line);
    proof {
        assert(views(list@).len() == list.len());
        assert(forall|k: int|
            0 <= k < list.len() ==> views(list@)[k] == (#[trigger] list@[k])@);
    }
    let method = if list.len() > 0 {
        list[0].clone()
    } else {
        String::new()
    };
    let path = if list.len() > 1 {
        list[1].clone()
    } else {
        String::new()
    };
    let bare = strip_trailing(strip_leading(path.as_str(), '/').as_str(), '/');
    route_of(method.as_str(), &split_on(bare.as_str(), '/'))
}

/// What was done about a request.
#[derive(Debug)]
pub enum Outcome {
    /// The sessions found here, in no order.
    Hosted(Vec<String>),
    /// Whether a client is attached.
    Observed(bool),
    /// What releasing a tunnel name came to.
    Unregistered(String, Result<(), AgentError>),
    /// The state of a session's workspace.
    Dirty(String, WorkspaceState),
    /// What recording an attachment came to.
    Attached(String, Result<(), AgentError>),
    /// What moving a session came to.
    Migrated(String, Result<String, AgentError>),
    /// Nothing that is answered here.
    Missing,
}

/// A status and a body.
#[derive(Debug)]
pub struct Answer {
    /// The status.
    pub status: u16,
    /// The body, a JSON document.
    pub body: String,
}

/// What texts are ordered by.
pub open spec fn text_keys(list: Seq<Seq<char>>) -> Seq<(int, Seq<char>)> {
    Seq::new(list.len(), |i: int| (0int, list[i]))
}

/// Each text, quoted.
pub open spec fn quoted(list: Seq<Seq<char>>) -> Seq<Seq<char>> {
    Seq::new(list.len(), |i: int| "\""@ + list[i] + "\""@)
}

/// The sessions a node hosts, in order.
pub open spec fn hosted_body(names: Seq<Seq<char>>) -> Seq<char> {
    "{\"workspaces\":["@ + join(quoted(in_order(names, text_keys(names))), ","@) + "]}"@
}

/// The sessions this node hosts, in order, for a drain to enumerate.
pub fn hosted(names: &Vec<String>) -> (r: String)
    ensures
        r@ == hosted_body(views(names@)),
{
    let ghost list = views(names@);
    let mut keys: Vec<Key> = Vec::new();
    let mut i: usize = 0;
    while i < names.len()
        invariant
            i <= names.len(),
            keys.len() == i,
            forall|k: int| 0 <= k < i ==> (#[trigger] keys@[k])@ == (0int, names@[k]@),
        decreases names.len() - i,
    {
        keys.push(Key { number: 0, text: names[i].clone() });
        i = i + 1;
    }
    proof {
        assert(key_views(keys@) =~= text_keys(list));
    }
    let order = stable_order(&keys);
    let ghost sorted = in_order(list, text_keys(list));
    let mut out: Vec<String> = Vec::new();
    let mut j: usize = 0;
    while j < order.len()
        invariant
            j <= order.len(),
            order.len() == names.len(),
            forall|k: int|
                0 <= k < order.len() ==> (#[trigger] order@[k]) < names.len()
                    && names@[order@[k] as int]@ == sorted[k],
            out.len() == j,
            forall|k: int| 0 <= k < j ==> (#[trigger] out@[k])@ == "\""@ + sorted[k] + "\""@,
        decreases order.len() - j,
    {
        out.push("\"".to_owned().concat(names[order[j]].as_str()).concat("\""));
        j = j + 1;
    }
    proof {
        assert(views(out@) =~= quoted(sorted));
    }
    "{\"workspaces\":[".to_owned().concat(join_strings(&out, ",").as_str()).concat("]}")
}

/// What a failure is answered with.
pub open spec fn error_body(e: Failure) -> Seq<char> {
    "{\"error\":\""@ + e.text() + "\"}"@
}

fn error(e: &AgentError) -> (r: String)
    ensures
        r@ == error_body(e@),
{
    "{\"error\":\"".to_owned().concat(e.to_text().as_str()).concat("\"}")
}

impl Outcome {
    /// The status an outcome is answered with.
    pub open spec fn status(&self) -> u16 {
        match self {
            Outcome::Unregistered(_, Err(_)) => 500,
            Outcome::Attached(_, Err(_)) => 503,
            Outcome::Migrated(_, Err(_)) => 500,
            Outcome::Missing => 404,
            _ => 200,
        }
    }

    /// The body an outcome is answered with.
    pub open spec fn body(&self) -> Seq<char> {
        match self {
            Outcome::Hosted(names) => hosted_body(views(names@)),
            Outcome::Observed(yes) => "{\"attached\":"@ + flag(*yes) + "}"@,
            Outcome::Unregistered(id, Ok(_)) => "{\"session\":\""@ + id@
                + "\",\"unregistered\":true}"@,
            Outcome::Unregistered(_, Err(e)) => error_body(e@),
            Outcome::Dirty(id, state) => "{\"session\":\""@ + id@ + "\",\"dirty\":"@ + flag(
                state.dirty(),
            ) + ",\"reason\":\""@ + state.reason_spec() + "\"}"@,
            Outcome::Attached(id, Ok(_)) => "{\"session\":\""@ + id@ + "\",\"attached\":true}"@,
            Outcome::Attached(_, Err(e)) => error_body(e@),
            Outcome::Migrated(id, Ok(steps)) => "{\"session\":\""@ + id@ + "\",\"steps\":"@ + steps@
                + "}"@,
            Outcome::Migrated(_, Err(e)) => error_body(e@),
            Outcome::Missing => "{}"@,
        }
    }

    /// What a request is answered, given what was done about it.
    pub fn answer(&self) -> (r: Answer)
        ensures
            r.status == self.status(),
            r.body@ == self.body(),
    {
        match self {
            Outcome::Hosted(names) => Answer { status: 200, body: hosted(names) },
            Outcome::Observed(yes) => Answer {
                status: 200,
                body: "{\"attached\":".to_owned().concat(flag_of(*yes)).concat("}"),
            },
            Outcome::Unregistered(id, Ok(_)) => Answer {
                status: 200,
                body: "{\"session\":\"".to_owned().concat(id.as_str()).concat(
                    "\",\"unregistered\":true}",
                ),
            },
            Outcome::Unregistered(_, Err(e)) => Answer { status: 500, body: error(e) },
            Outcome::Dirty(id, state) => Answer {
                status: 200,
                body: "{\"session\":\"".to_owned().concat(id.as_str()).concat(
                    "\",\"dirty\":",
                ).concat(flag_of(state.is_dirty())).concat(",\"reason\":\"").concat(
                    state.reason().as_str(),
                ).concat("\"}"),
            },
            Outcome::Attached(id, Ok(_)) => Answer {
                status: 200,
                body: "{\"session\":\"".to_owned().concat(id.as_str()).concat(
                    "\",\"attached\":true}",
                ),
            },
            Outcome::Attached(_, Err(e)) => Answer { status: 503, body: error(e) },
            Outcome::Migrated(id, Ok(steps)) => Answer {
                status: 200,
                body: "{\"session\":\"".to_owned().concat(id.as_str()).concat(
                    "\",\"steps\":",
                ).concat(steps.as_str()).concat("}"),
            },
            Outcome::Migrated(_, Err(e)) => Answer { status: 500, body: error(e) },
            Outcome::Missing => Answer { status: 404, body: "{}".to_owned() },
        }
    }
}

/// What goes over the wire.
pub open spec fn response_text(status: u16, body: Seq<char>) -> Seq<char> {
    "HTTP/1.1 "@ + decimal(status as nat)
        + "\r\ncontent-type: application/json\r\ncontent-length: "@ + decimal(
        byte_count(body) as nat,
    ) + "\r\nconnection: close\r\n\r\n"@ + body
}

impl Answer {
    /// What goes over the wire.
    pub fn response(&self) -> (r: String)
        ensures
            r@ == response_text(self.status, self.body@),
    {
        "HTTP/1.1 ".to_owned().concat(decimal_of(self.status as u64).as_str()).concat(
            "\r\ncontent-type: application/json\r\ncontent-length: ",
        ).concat(decimal_of(self.body.as_str().len() as u64).as_str()).concat(
            "\r\nconnection: close\r\n\r\n",
        ).concat(self.body.as_str())
    }
}

// ---- laws of the service ----

/// A request is what its method and its path say: a workspace is asked about with
/// `GET` and acted on with `POST`, and everything else is missing.
pub proof fn a_request_asks_for_what_it_names(line: &str, r: Route, id: Seq<char>)
    requires
        call_ensures(parse_request, (line,), r),
        words(line@).len() > 1,
    ensures
        ({
            let method = words(line@)[0];
            let path = split(
                without_trailing(without_leading(words(line@)[1], '/'), '/'),
                '/',
            );
            let (get, post) = (method == "GET"@, method == "POST"@);
            &&& path =~= seq!["workspaces"@] && get ==> r is Hosted
            &&& path =~= seq!["workspaces"@, id, "dirty"@] && get ==> r@ == Asked::Dirty(id)
            &&& path =~= seq!["workspaces"@, id, "attached"@] && get ==> r is Observe
            &&& path =~= seq!["workspaces"@, id, "attached"@] && post ==> r@ == Asked::Attached(id)
            &&& path =~= seq!["workspaces"@, id, "migrate"@] && post ==> r@ == Asked::Migrate(id)
            &&& path =~= seq!["workspaces"@, id, "unregister"@] && post ==> r@
                == Asked::Unregister(id)
            &&& !get && !post ==> r is Missing
            &&& path[0] != "workspaces"@ ==> r is Missing
            &&& path =~= seq!["workspaces"@, id, "migrate"@] && get ==> r is Missing
            &&& path =~= seq!["workspaces"@, id, "unregister"@] && get ==> r is Missing
        }),
{
    reveal_strlit("GET");
    reveal_strlit("POST");
    reveal_strlit("dirty");
    reveal_strlit("attached");
    reveal_strlit("migrate");
    reveal_strlit("unregister");
    assert("GET"@.len() == 3 && "POST"@.len() == 4);
    assert("dirty"@.len() == 5 && "attached"@.len() == 8 && "migrate"@.len() == 7);
    assert("unregister"@.len() == 10);
}

/// What went wrong is not answered as if it had gone well: a failure is answered
/// with an error, and what is missing is answered as missing.
pub proof fn a_failure_is_answered_as_one(o: Outcome, r: Answer)
    requires
        call_ensures(Outcome::answer, (&o,), r),
    ensures
        o is Missing <==> r.status == 404,
        (o matches Outcome::Attached(_, done) && done is Err) <==> r.status == 503,
        ((o matches Outcome::Unregistered(_, done) && done is Err) || (o matches Outcome::Migrated(
            _,
            done,
        ) && done is Err)) <==> r.status == 500,
        o matches Outcome::Attached(_, Err(e)) ==> r.body@ == "{\"error\":\""@ + (e.session@ + ": "@
            + e.attempted@ + ": "@ + e.because@) + "\"}"@,
        o matches Outcome::Migrated(_, Err(e)) ==> r.body@ == "{\"error\":\""@ + (e.session@ + ": "@
            + e.attempted@ + ": "@ + e.because@) + "\"}"@,
        o matches Outcome::Unregistered(_, Err(e)) ==> r.body@ == "{\"error\":\""@ + (e.session@
            + ": "@ + e.attempted@ + ": "@ + e.because@) + "\"}"@,
{
}

/// What is answered of a workspace says whether it is dirty, and why; what is
/// answered of an attachment says whether somebody is attached.
pub proof fn an_answer_says_what_was_found(o: Outcome, r: Answer)
    requires
        call_ensures(Outcome::answer, (&o,), r),
    ensures
        o matches Outcome::Dirty(id, state) ==> r.status == 200 && r.body@ == "{\"session\":\""@
            + id@ + "\",\"dirty\":"@ + (if state.uncommitted || state.unpushed || state.untracked {
            "true"@
        } else {
            "false"@
        }) + ",\"reason\":\""@ + state.reason_spec() + "\"}"@,
        o matches Outcome::Observed(yes) ==> r.status == 200 && r.body@ == "{\"attached\":"@ + (
        if yes {
            "true"@
        } else {
            "false"@
        }) + "}"@,
        o matches Outcome::Attached(id, Ok(_)) ==> r.status == 200 && r.body@ == "{\"session\":\""@
            + id@ + "\",\"attached\":true}"@,
        o matches Outcome::Unregistered(id, Ok(_)) ==> r.status == 200 && r.body@
            == "{\"session\":\""@ + id@ + "\",\"unregistered\":true}"@,
        o matches Outcome::Migrated(id, Ok(steps)) ==> r.status == 200 && r.body@
            == "{\"session\":\""@ + id@ + "\",\"steps\":"@ + steps@ + "}"@,
{
}

/// A response gives its status and the length of its body in bytes, and ends in
/// the body.
pub proof fn a_response_gives_its_length(a: Answer, text: String)
    requires
        call_ensures(Answer::response, (&a,), text),
    ensures
        text@ == "HTTP/1.1 "@ + decimal(a.status as nat)
            + "\r\ncontent-type: application/json\r\ncontent-length: "@ + decimal(
            vstd::utf8::encode_utf8(a.body@).len() as usize as nat,
        ) + "\r\nconnection: close\r\n\r\n"@ + a.body@,
{
}

/// What a node hosts is listed by name, each once for each workspace.
pub proof fn every_workspace_is_listed(names: Vec<String>, body: String, i: int)
    requires
        call_ensures(hosted, (&names,), body),
    ensures
        "{\"workspaces\":["@.is_prefix_of(body@),
        "]}"@.is_suffix_of(body@),
        body@ == hosted_body(views(names@)),
        0 <= i < names@.len() ==> in_order(views(names@), text_keys(views(names@))).contains(
            names@[i]@,
        ),
        in_order(views(names@), text_keys(views(names@))).len() == names@.len(),
{
    let list = views(names@);
    let keys = text_keys(list);
    let order = crate::order::order_of(keys);
    crate::order::order_of_is_a_stable_order(keys);
    crate::order::stable_order_is_a_permutation(keys, order);
    let head = "{\"workspaces\":["@;
    let mid = join(quoted(in_order(list, keys)), ","@);
    assert(body@.subrange(0, head.len() as int) =~= head);
    assert(body@.subrange(body@.len() - "]}"@.len(), body@.len() as int) =~= "]}"@);
    if 0 <= i < names@.len() {
        assert(order.contains(i));
        let k = order.index_of(i);
        assert(in_order(list, keys)[k] == list[i]);
    }
}

/// A workspace stands below the root of the agent, under the name of its
/// session, and what is migrated is that workspace, to the target that the
/// environment names, with the grace that it gives.
pub proof fn a_migration_is_of_the_sessions_workspace(
    s: Settings,
    session: &str,
    digest: String,
    m: Migration,
)
    requires
        call_ensures(Settings::migration, (&s, session, digest), m),
    ensures
        m.session@ == session@ && m.image_digest == digest,
        s.target matches Some(target) ==> m.target@ == target@,
        s.target is None ==> m.target@ == "n1"@,
        s.home matches Some(home) ==> m.home@ == home@,
        s.home is None ==> m.home@ == "/var/lib/devcontainer-home"@,
        session@.len() > 0 && session@[0] != '/' && s.workspaces is None ==> m.workspace@
            =~= "/var/lib/devcontainers"@ + "/"@ + session@,
        s.grace is None ==> m.grace_s == 30,
        s.grace matches Some(text) ==> forall|n: nat|
            n <= u64::MAX && text@ == #[trigger] decimal(n) ==> m.grace_s == n,
{
    reveal_strlit("/");
    reveal_strlit("30");
    reveal_strlit("/var/lib/devcontainers");
    if session@.len() > 0 && session@[0] != '/' && s.workspaces is None {
        let root = "/var/lib/devcontainers"@;
        if begins(session@, "/"@) {
            assert(session@.subrange(0, 1)[0] == '/');
        }
        assert(root.last() == 's');
        if ends(root, "/"@) {
            assert(root.subrange(root.len() - 1, root.len() as int)[0] == '/');
        }
    }
    if s.grace is None {
        lemma_numeral(30);
        reveal_with_fuel(decimal, 2);
        assert("30"@ =~= decimal(30));
    }
    if let Some(text) = s.grace {
        assert forall|n: nat| n <= u64::MAX && text@ == #[trigger] decimal(n) implies m.grace_s
            == n by {
            lemma_numeral(n);
        }
    }
}

proof fn lemma_numeral(n: nat)
    ensures
        numeral(decimal(n), 10) == Some(n),
{
    crate::text::a_number_reads_back(n);
    crate::text::lemma_decimal_is_digits(n);
    assert forall|i: int| 0 <= i < decimal(n).len() implies crate::text::digit_value(
        #[trigger] decimal(n)[i],
        10,
    ) is Some by {}
    assert(decimal(n)[0] != '+');
}

/// An attachment is recorded with the control plane, of the session; a tunnel is
/// unregistered in its container, and the digest of a session is that of its
/// container.
pub proof fn what_is_asked_is_of_the_session(
    control: &str,
    session: &str,
    attached: Vec<String>,
    unregister: Vec<String>,
    digest: Vec<String>,
)
    requires
        call_ensures(attachment_arguments, (control, session), attached),
        call_ensures(unregister_arguments, (session,), unregister),
        call_ensures(digest_arguments, (session,), digest),
    ensures
        views(attached@) =~= seq![
            "--silent"@,
            "--show-error"@,
            "--fail"@,
            "--max-time"@,
            "5"@,
            "--request"@,
            "POST"@,
            control@ + "/api/sessions/"@ + session@ + "/attached"@,
        ],
        views(unregister@) =~= seq![
            "exec"@,
            "devcontainer-"@ + session@,
            "/usr/local/share/cluster-tunnel/unregister.sh"@,
        ],
        views(digest@) =~= seq![
            "inspect"@,
            "--format"@,
            "{{.ImageName}}"@,
            "devcontainer-"@ + session@,
        ],
{
}

/// A command succeeds exactly where it ran and ended well; what it wrote is given
/// without the blanks around it, and what went wrong is said of the session.
pub proof fn only_a_command_that_ended_well_settles(
    session: &str,
    ran: Ran,
    attachment: Result<(), AgentError>,
    unregister: Result<(), AgentError>,
    digest: Result<String, AgentError>,
)
    requires
        call_ensures(settle_attachment, (session, &ran), attachment),
        call_ensures(settle_unregister, (session, &ran), unregister),
        call_ensures(settle_digest, (session, &ran), digest),
    ensures
        ({
            let well = ran matches Ran::Ended { success, stdout, stderr } && success;
            &&& attachment is Ok <==> well
            &&& unregister is Ok <==> well
            &&& digest is Ok <==> well
        }),
        digest matches Ok(text) ==> (ran matches Ran::Ended { success, stdout, stderr } && text@
            == trimmed(stdout@)),
        attachment matches Err(e) ==> e.session@ == session@ && e.attempted@
            == "record an attachment"@,
        unregister matches Err(e) ==> e.session@ == session@ && e.attempted@
            == "unregister the tunnel"@,
        digest matches Err(e) ==> e.session@ == session@ && e.attempted@
            == "read the container's image"@,
{
}

/// A step of a migration that fails ends it with what the step was, and says
/// whether the container still runs; a step that ends well is followed by the
/// next, and the requests among them go to the control plane.
pub proof fn a_failed_step_ends_the_migration(
    m: Migration,
    control: &str,
    at: usize,
    ran: Ran,
    r: Next,
)
    requires
        at < 6,
        call_ensures(resume, (&m, control, at, &ran), r),
    ensures
        (ran matches Ran::Ended { success, stdout, stderr } && success) ==> !(r is Failed),
        ran is NotStarted ==> r is Failed,
        (ran matches Ran::Ended { success, stdout, stderr } && !success) ==> r is Failed,
        (ran matches Ran::Ended { success, stdout, stderr } && !success) && at < 2 ==> (
        r matches Next::Failed(e) && e.attempted@ == all_steps()[at as int].name() + " ("@
            + "reversible: the container is still running here"@ + ")"@),
        (ran matches Ran::Ended { success, stdout, stderr } && !success) && at >= 2 ==> (
        r matches Next::Failed(e) && e.attempted@ == all_steps()[at as int].name() + " ("@
            + "past the point of no return"@ + ")"@),
        (ran matches Ran::Ended { success, stdout, stderr } && success) && at == 3 ==> (
        r matches Next::Run(argv) && argv@.last()@ == control@ + ("/api/sessions/"@ + m.session@
            + "/migrate"@)),
        (ran matches Ran::Ended { success, stdout, stderr } && success) && at == 4 ==> (
        r matches Next::Run(argv) && argv@.last()@ == control@ + ("/api/sessions/"@ + m.session@
            + "/notify"@)),
        (ran matches Ran::Ended { success, stdout, stderr } && success) && at == 5 ==> r is Done,
{
    if ran.trouble() is None && (at == 3 || at == 4) {
        let step = all_steps()[at + 1];
        let command = command_of(m, step);
        if let Next::Run(argv) = r {
            assert(views(argv@).len() == argv@.len());
            let n = argv@.len() - 1;
            assert(views(argv@)[n] == argv@[n]@);
            reveal_strlit("/api/");
            reveal_strlit("/api/sessions/");
            assert(command[n].subrange(0, 5) =~= "/api/"@);
            assert(begins(command[n], "/api/"@));
        }
    }
}

/// The agent serves where it is told nothing or told to serve, records an
/// attachment of the session it is given, and knows nothing else.
pub proof fn a_mode_is_what_it_is_told(args: Vec<String>, r: Mode)
    requires
        call_ensures(parse_mode, (&args,), r),
    ensures
        args@.len() == 0 ==> r is Serve,
        args@.len() > 0 && args@[0]@ == "serve"@ ==> r is Serve,
        args@.len() == 1 && args@[0]@ == "attached"@ ==> r is NoSession,
        args@.len() > 1 && args@[0]@ == "attached"@ ==> (r matches Mode::Attached(session)
            && session@ == args@[1]@),
        args@.len() > 0 && args@[0]@ != "serve"@ && args@[0]@ != "attached"@ ==> (
        r matches Mode::Unknown(other) && other@ == args@[0]@),
{
    reveal_strlit("serve");
    reveal_strlit("attached");
    assert("serve"@.len() == 5 && "attached"@.len() == 8);
}

} // verus!
