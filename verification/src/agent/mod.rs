//! The node-local agent: the only thing that can see a worktree.
//!
//! The control plane knows which sessions exist; three jobs follow from being
//! the one beside the files. It says whether a workspace holds work that would
//! be lost, whether somebody is attached to a session, and it moves a session
//! to another node, step by step.
pub mod service;

use vstd::prelude::*;

use crate::text::{
    a_trimmed_text_keeps_what_is_no_space,
    begins,
    contains,
    decimal,
    decimal_of,
    holds,
    is_space,
    join,
    join_strings,
    lines,
    split,
    split_lines,
    split_on,
    starts_with,
    trim,
    trimmed,
    views,
};

verus! {

/// The one error a caller can see: a step on this node's filesystem or
/// container runtime could not be carried out.
///
/// It does not cover a dirty workspace: that is an answer, and it is given as
/// one.
#[derive(Debug, PartialEq, Eq)]
pub struct AgentError {
    /// Which session, where there is one.
    pub session: String,
    /// What was attempted.
    pub attempted: String,
    /// Why it could not be done.
    pub because: String,
}

/// What an error is, as values.
pub struct Failure {
    pub session: Seq<char>,
    pub attempted: Seq<char>,
    pub because: Seq<char>,
}

impl View for AgentError {
    type V = Failure;

    open spec fn view(&self) -> Failure {
        Failure {
            session: self.session@,
            attempted: self.attempted@,
            because: self.because@,
        }
    }
}

impl Failure {
    /// What the error says.
    pub open spec fn text(self) -> Seq<char> {
        self.session + ": "@ + self.attempted + ": "@ + self.because
    }
}

impl AgentError {
    /// What the error says.
    pub fn to_text(&self) -> (r: String)
        ensures
            r@ == self@.text(),
    {
        self.session.clone().concat(": ").concat(self.attempted.as_str()).concat(": ").concat(
            self.because.as_str(),
        )
    }
}

// ---- dirty ----

/// What a workspace's git state says about whether work would be lost.
///
/// Three independent conditions, any of which makes the workspace dirty, kept
/// apart so that the answer can say why.
#[derive(Debug, Clone, Copy, PartialEq, Eq, Structural)]
pub struct WorkspaceState {
    /// Tracked files modified but not committed.
    pub uncommitted: bool,
    /// Commits on any branch that are not on a remote.
    pub unpushed: bool,
    /// Files present, not ignored, and never added.
    pub untracked: bool,
}

impl Default for WorkspaceState {
    /// A workspace with nothing to lose.
    fn default() -> (r: WorkspaceState)
        ensures
            !r.uncommitted && !r.unpushed && !r.untracked,
    {
        WorkspaceState { uncommitted: false, unpushed: false, untracked: false }
    }
}

impl WorkspaceState {
    /// Whether any condition holds.
    pub open spec fn dirty(self) -> bool {
        self.uncommitted || self.unpushed || self.untracked
    }

    /// Each condition that holds, in words.
    pub open spec fn reasons(self) -> Seq<Seq<char>> {
        (if self.uncommitted {
            seq!["uncommitted tracked changes"@]
        } else {
            Seq::empty()
        }) + (if self.unpushed {
            seq!["unpushed commits"@]
        } else {
            Seq::empty()
        }) + (if self.untracked {
            seq!["untracked non-ignored files"@]
        } else {
            Seq::empty()
        })
    }

    /// Why, in words.
    pub open spec fn reason_spec(self) -> Seq<char> {
        if self.dirty() {
            join(self.reasons(), ", "@)
        } else {
            "clean"@
        }
    }

    /// Whether any condition holds.
    pub fn is_dirty(&self) -> (r: bool)
        ensures
            r == self.dirty(),
    {
        self.uncommitted || self.unpushed || self.untracked
    }

    /// Why, in words.
    pub fn reason(&self) -> (r: String)
        ensures
            r@ == self.reason_spec(),
    {
        let mut reasons: Vec<String> = Vec::new();
        if self.uncommitted {
            reasons.push("uncommitted tracked changes".to_owned());
        }
        if self.unpushed {
            reasons.push("unpushed commits".to_owned());
        }
        if self.untracked {
            reasons.push("untracked non-ignored files".to_owned());
        }
        proof {
            assert(views(reasons@) =~= self.reasons());
        }
        if reasons.len() == 0 {
            "clean".to_owned()
        } else {
            join_strings(&reasons, ", ")
        }
    }
}

/// What was found where a workspace should be. A command that could not be run,
/// or that failed, found nothing.
#[derive(Debug)]
pub struct Inspection {
    /// Whether the path exists.
    pub exists: bool,
    /// What git says of being inside a worktree.
    pub inside: Option<String>,
    /// The status, one line per path.
    pub status: Option<String>,
    /// The branches, one line for each, in [`BRANCH_FORMAT`].
    pub branches: Option<String>,
}

/// Whether a line of the status is of a path never added.
pub open spec fn never_added(line: Seq<char>) -> bool {
    begins(line, "??"@)
}

/// Whether a line of the status is of a tracked path that changed.
pub open spec fn changed(line: Seq<char>) -> bool {
    !never_added(line) && trimmed(line).len() > 0
}

/// What git is asked for of every branch: its name, its upstream's name, and
/// the distance between the two.
pub const BRANCH_FORMAT: &'static str = "--format=%(refname:short) %(upstream:short) %(upstream:track)";

/// The fields of a branch's line. No name of a branch holds a blank.
pub open spec fn branch_fields(line: Seq<char>) -> Seq<Seq<char>> {
    split(trimmed(line), ' ')
}

/// Whether a branch has an upstream.
pub open spec fn has_upstream(line: Seq<char>) -> bool {
    branch_fields(line).len() > 1 && branch_fields(line)[1].len() > 0
}

/// The distance of a branch from its upstream: nothing where they are level.
pub open spec fn distance(line: Seq<char>) -> Seq<char> {
    if branch_fields(line).len() > 2 {
        join(branch_fields(line).skip(2), " "@)
    } else {
        Seq::empty()
    }
}

/// Whether a branch may hold commits that are on no remote: it has no upstream,
/// its upstream is gone, or it is ahead of it.
pub open spec fn ahead(line: Seq<char>) -> bool {
    trimmed(line).len() > 0 && (!has_upstream(line) || holds(distance(line), "gone"@) || holds(
        distance(line),
        "ahead"@,
    ))
}

impl Inspection {
    /// Whether everything that was asked of the workspace was answered, but for
    /// its branches.
    pub open spec fn readable(self) -> bool {
        self.exists && self.inside is Some && self.status is Some
    }

    /// The state of the workspace.
    pub open spec fn state(self) -> WorkspaceState {
        if !self.readable() {
            WorkspaceState { uncommitted: true, unpushed: true, untracked: true }
        } else {
            let status = lines(self.status.unwrap()@);
            WorkspaceState {
                uncommitted: exists|i: int| 0 <= i < status.len() && changed(#[trigger] status[i]),
                unpushed: match self.branches {
                    Some(text) => exists|i: int|
                        0 <= i < lines(text@).len() && ahead(#[trigger] lines(text@)[i]),
                    None => true,
                },
                untracked: exists|i: int|
                    0 <= i < status.len() && never_added(#[trigger] status[i]),
            }
        }
    }
}

/// The distance of a branch from its upstream.
fn distance_of(line: &str) -> (r: String)
    ensures
        r@ == distance(line@),
{
    let fields = split_on(trim(line).as_str(), ' ');
    let ghost all = branch_fields(line@);
    proof {
        assert(views(fields@).len() == fields.len());
    }
    if fields.len() <= 2 {
        return String::new();
    }
    let mut rest: Vec<String> = Vec::new();
    let mut i: usize = 2;
    while i < fields.len()
        invariant
            2 <= i <= fields.len(),
            views(fields@) == all,
            rest.len() == i - 2,
            forall|k: int| 0 <= k < i - 2 ==> (#[trigger] rest@[k])@ == all[k + 2],
        decreases fields.len() - i,
    {
        proof {
            assert(views(fields@)[i as int] == fields@[i as int]@);
        }
        rest.push(fields[i].clone());
        i = i + 1;
    }
    proof {
        assert(views(fields@).len() == fields.len());
        assert(views(rest@) =~= all.skip(2));
    }
    join_strings(&rest, " ")
}

/// Whether a branch may hold commits that are on no remote.
fn is_ahead(line: &str) -> (r: bool)
    ensures
        r == ahead(line@),
{
    let branch = trim(line);
    if branch.as_str().is_empty() {
        return false;
    }
    let fields = split_on(branch.as_str(), ' ');
    proof {
        assert(views(fields@).len() == fields.len());
        assert(fields.len() > 1 ==> views(fields@)[1] == fields@[1]@);
    }
    if fields.len() <= 1 || fields[1].as_str().is_empty() {
        return true;
    }
    let distance = distance_of(line);
    contains(distance.as_str(), "gone") || contains(distance.as_str(), "ahead")
}

/// Whether any branch may hold commits that are on no remote. Every branch
/// counts, not just the current one: work on another exists nowhere else either.
fn any_ahead(text: &str) -> (r: bool)
    ensures
        r == (exists|i: int| 0 <= i < lines(text@).len() && ahead(#[trigger] lines(text@)[i])),
{
    let list = split_lines(text);
    let mut i: usize = 0;
    while i < list.len()
        invariant
            i <= list.len(),
            views(list@) == lines(text@),
            forall|k: int| 0 <= k < i ==> !ahead(#[trigger] lines(text@)[k]),
        decreases list.len() - i,
    {
        proof {
            assert(views(list@)[i as int] == list@[i as int]@);
        }
        if is_ahead(list[i].as_str()) {
            return true;
        }
        i = i + 1;
    }
    proof {
        assert(views(list@).len() == list.len());
    }
    false
}

/// The state of a workspace, from what was found there just now.
///
/// A workspace that cannot be inspected is dirty. That is no hedge: an archive
/// held too long costs disk, and a wrong purge costs somebody's work.
pub fn is_dirty(found: &Inspection) -> (r: WorkspaceState)
    ensures
        r == found.state(),
{
    let dirty = WorkspaceState { uncommitted: true, unpushed: true, untracked: true };
    if !found.exists || found.inside.is_none() {
        return dirty;
    }
    let status = match &found.status {
        Some(status) => status,
        None => {
            return dirty;
        },
    };
    let list = split_lines(status.as_str());
    let mut uncommitted = false;
    let mut untracked = false;
    let mut i: usize = 0;
    while i < list.len()
        invariant
            i <= list.len(),
            views(list@) == lines(status@),
            uncommitted == (exists|k: int| 0 <= k < i && changed(#[trigger] lines(status@)[k])),
            untracked == (exists|k: int| 0 <= k < i && never_added(#[trigger] lines(status@)[k])),
        decreases list.len() - i,
    {
        let line = &list[i];
        proof {
            assert(lines(status@)[i as int] == views(list@)[i as int]);
            assert(views(list@)[i as int] == line@);
        }
        if starts_with(line.as_str(), "??") {
            untracked = true;
        } else if !trim(line.as_str()).as_str().is_empty() {
            uncommitted = true;
        }
        i = i + 1;
    }
    proof {
        assert(views(list@).len() == list.len());
    }
    let unpushed = match &found.branches {
        Some(text) => any_ahead(text.as_str()),
        None => true,
    };
    WorkspaceState { uncommitted, unpushed, untracked }
}

/// A workspace that cannot be inspected is dirty, in every way there is.
pub proof fn an_uninspectable_workspace_is_dirty(found: Inspection)
    requires
        !found.readable(),
    ensures
        found.state().dirty(),
        found.state().uncommitted && found.state().unpushed && found.state().untracked,
{
}

/// A workspace whose branches cannot be read is dirty, whatever else is known.
pub proof fn unreadable_branches_are_unpushed(found: Inspection)
    requires
        found.branches is None,
    ensures
        found.state().unpushed,
{
}

/// A workspace is clean only where git answered, every status line is blank and
/// every branch has an upstream that is there and that it is not ahead of.
pub proof fn a_clean_workspace_has_nothing_to_lose(found: Inspection, i: int, j: int)
    requires
        !found.state().dirty(),
    ensures
        found.readable(),
        found.branches is Some,
        0 <= i < lines(found.status.unwrap()@).len() ==> trimmed(
            lines(found.status.unwrap()@)[i],
        ).len() == 0,
        ({
            let branch = lines(found.branches.unwrap()@)[j];
            0 <= j < lines(found.branches.unwrap()@).len() && trimmed(branch).len() > 0 ==> {
                &&& has_upstream(branch)
                &&& !holds(distance(branch), "gone"@)
                &&& !holds(distance(branch), "ahead"@)
            }
        }),
{
    let status = lines(found.status.unwrap()@);
    if 0 <= i < status.len() {
        assert(!changed(status[i]) && !never_added(status[i]));
    }
    let branches = lines(found.branches.unwrap()@);
    if 0 <= j < branches.len() {
        assert(!ahead(branches[j]));
    }
}

/// A workspace whose status is empty and whose branches are all level with
/// their upstreams is clean.
pub proof fn a_pushed_workspace_is_clean(found: Inspection)
    requires
        found.readable(),
        found.status.unwrap()@.len() == 0,
        found.branches matches Some(text) && forall|j: int|
            0 <= j < lines(text@).len() ==> has_upstream(#[trigger] lines(text@)[j]) && distance(
                lines(text@)[j],
            ).len() == 0,
    ensures
        found.state() == (WorkspaceState { uncommitted: false, unpushed: false, untracked: false }),
{
    assert(lines(found.status.unwrap()@).len() == 0);
    let branches = lines(found.branches.unwrap()@);
    assert forall|j: int| 0 <= j < branches.len() implies !ahead(#[trigger] branches[j]) by {
        reveal_strlit("gone");
        reveal_strlit("ahead");
        assert(has_upstream(branches[j]));
    }
}

// ---- attachment ----

/// Whether a line of the process table is of an editor's server.
pub open spec fn is_server(line: Seq<char>) -> bool {
    holds(line, "vscode-server"@) || holds(line, ".vscode-server"@)
}

/// Whether the process table shows a client attached.
pub open spec fn attached(processes: Seq<char>) -> bool {
    exists|i: int| 0 <= i < lines(processes).len() && is_server(#[trigger] lines(processes)[i])
}

/// Whether a client is attached to a session's tunnel.
///
/// The tunnel process says nothing: it runs whether or not anybody is looking.
/// The server process is started only when a client connects.
pub fn is_attached(processes: &str) -> (r: bool)
    ensures
        r == attached(processes@),
{
    let list = split_lines(processes);
    let mut i: usize = 0;
    while i < list.len()
        invariant
            i <= list.len(),
            views(list@) == lines(processes@),
            forall|k: int| 0 <= k < i ==> !is_server(#[trigger] lines(processes@)[k]),
        decreases list.len() - i,
    {
        proof {
            assert(views(list@)[i as int] == list@[i as int]@);
        }
        if contains(list[i].as_str(), "vscode-server") || contains(
            list[i].as_str(),
            ".vscode-server",
        ) {
            return true;
        }
        i = i + 1;
    }
    proof {
        assert(views(list@).len() == list.len());
    }
    false
}

/// Whether a client is attached, given the process table where it could be
/// read. Where it could not, somebody is: a session held too long costs disk,
/// and one archived while in use costs trust.
pub fn observe_attachment(processes: Option<&str>) -> (r: bool)
    ensures
        r == match processes {
            Some(text) => attached(text@),
            None => true,
        },
{
    match processes {
        Some(text) => is_attached(text),
        None => true,
    }
}

// ---- migration ----

/// One step of a migration.
#[derive(Debug, Clone, Copy, PartialEq, Eq, Structural)]
pub enum Step {
    /// Stop accepting new starts.
    Quiesce,
    /// Copy the workspace to its home on the storage node.
    Sync,
    /// Stop the container, with its declared grace period.
    Stop,
    /// Start it on the target from the same image digest.
    Recreate,
    /// Record the session's host in the control plane.
    Record,
    /// Tell attached clients to reconnect.
    Notify,
}

/// Every step, in order.
pub open spec fn all_steps() -> Seq<Step> {
    seq![Step::Quiesce, Step::Sync, Step::Stop, Step::Recreate, Step::Record, Step::Notify]
}

impl Step {
    /// Every step, in order.
    pub fn all() -> (r: [Step; 6])
        ensures
            r@ == all_steps(),
    {
        let r = [
            Step::Quiesce,
            Step::Sync,
            Step::Stop,
            Step::Recreate,
            Step::Record,
            Step::Notify,
        ];
        proof {
            assert(r@ =~= all_steps());
        }
        r
    }

    /// The step's name.
    pub open spec fn name(self) -> Seq<char> {
        match self {
            Step::Quiesce => "quiesce"@,
            Step::Sync => "sync"@,
            Step::Stop => "stop"@,
            Step::Recreate => "recreate"@,
            Step::Record => "record"@,
            Step::Notify => "notify"@,
        }
    }

    /// The step's name.
    pub fn as_str(self) -> (r: &'static str)
        ensures
            r@ == self.name(),
    {
        match self {
            Step::Quiesce => "quiesce",
            Step::Sync => "sync",
            Step::Stop => "stop",
            Step::Recreate => "recreate",
            Step::Record => "record",
            Step::Notify => "notify",
        }
    }

    /// Whether leaving the container where it is still undoes this step.
    pub open spec fn reversible(self) -> bool {
        self == Step::Quiesce || self == Step::Sync
    }

    /// Whether leaving the container where it is still undoes this step.
    ///
    /// Up to the copy it does: the container runs, and the copy is additional.
    /// From the stop on the session is moving, and a failure is reported.
    pub fn is_reversible(self) -> (r: bool)
        ensures
            r == self.reversible(),
    {
        match self {
            Step::Quiesce | Step::Sync => true,
            _ => false,
        }
    }
}

/// Where a migration is sending a session.
#[derive(Debug)]
pub struct Migration {
    /// The session being moved.
    pub session: String,
    /// Its workspace on this node.
    pub workspace: String,
    /// Where the durable copy lives on the target.
    pub home: String,
    /// The node receiving it.
    pub target: String,
    /// The image digest it was built from.
    pub image_digest: String,
    /// The container's declared stop grace period.
    pub grace_s: u64,
}

/// Nothing new starts here while the move is under way.
pub open spec fn quiesce_command() -> Seq<Seq<char>> {
    seq![
        "touch"@,
        "/run/devcontainer-agent.quiesced"@,
    ]
}

/// Nothing new starts here while the move is under way.
fn quiesce() -> (out: Vec<String>)
    ensures
        views(out@) == quiesce_command(),
{
    let out = vec![
        "touch".to_owned(),
        "/run/devcontainer-agent.quiesced".to_owned(),
    ];
    proof {
        assert(views(out@) =~= quiesce_command());
    }
    out
}

/// Copies the workspace's contents to its home, and removes there what was
/// removed here.
pub open spec fn sync_command(m: Migration) -> Seq<Seq<char>> {
    seq![
        "rsync"@,
        "--archive"@,
        "--delete"@,
        "--hard-links"@,
        "--acls"@,
        "--xattrs"@,
        m.workspace@
            + "/"@,
        m.home@
            + "/"@
            + m.session@
            + "/"@,
    ]
}

/// Copies the workspace's contents to its home, and removes there what was
/// removed here.
fn sync(m: &Migration) -> (out: Vec<String>)
    ensures
        views(out@) == sync_command(*m),
{
    let out = vec![
        "rsync".to_owned(),
        "--archive".to_owned(),
        "--delete".to_owned(),
        "--hard-links".to_owned(),
        "--acls".to_owned(),
        "--xattrs".to_owned(),
        m.workspace.clone()
            .concat("/"),
        m.home.clone()
            .concat("/")
            .concat(m.session.as_str())
            .concat("/"),
    ];
    proof {
        assert(views(out@) =~= sync_command(*m));
    }
    out
}

/// Stops the container, with its grace period.
pub open spec fn stop_command(m: Migration) -> Seq<Seq<char>> {
    seq![
        "podman"@,
        "stop"@,
        "--time"@,
        decimal(m.grace_s as nat),
        "devcontainer-"@
            + m.session@,
    ]
}

/// Stops the container, with its grace period.
fn stop(m: &Migration) -> (out: Vec<String>)
    ensures
        views(out@) == stop_command(*m),
{
    let out = vec![
        "podman".to_owned(),
        "stop".to_owned(),
        "--time".to_owned(),
        decimal_of(m.grace_s as u64),
        "devcontainer-".to_owned()
            .concat(m.session.as_str()),
    ];
    proof {
        assert(views(out@) =~= stop_command(*m));
    }
    out
}

/// Starts the container on the target, from the same digest and the copy.
pub open spec fn recreate_command(m: Migration) -> Seq<Seq<char>> {
    seq![
        "podman"@,
        "--remote"@,
        "--connection"@,
        m.target@,
        "run"@,
        "--detach"@,
        "--name"@,
        "devcontainer-"@
            + m.session@,
        "--volume"@,
        m.home@
            + "/"@
            + m.session@
            + ":/workspaces:rw,Z"@,
        m.image_digest@,
    ]
}

/// Starts the container on the target, from the same digest and the copy.
fn recreate(m: &Migration) -> (out: Vec<String>)
    ensures
        views(out@) == recreate_command(*m),
{
    let out = vec![
        "podman".to_owned(),
        "--remote".to_owned(),
        "--connection".to_owned(),
        m.target.clone(),
        "run".to_owned(),
        "--detach".to_owned(),
        "--name".to_owned(),
        "devcontainer-".to_owned()
            .concat(m.session.as_str()),
        "--volume".to_owned(),
        m.home.clone()
            .concat("/")
            .concat(m.session.as_str())
            .concat(":/workspaces:rw,Z"),
        m.image_digest.clone(),
    ];
    proof {
        assert(views(out@) =~= recreate_command(*m));
    }
    out
}

/// Records the session's host.
pub open spec fn record_command(m: Migration) -> Seq<Seq<char>> {
    seq![
        "curl"@,
        "--silent"@,
        "--show-error"@,
        "--fail"@,
        "--request"@,
        "POST"@,
        "/api/sessions/"@
            + m.session@
            + "/migrate"@,
    ]
}

/// Records the session's host.
fn record(m: &Migration) -> (out: Vec<String>)
    ensures
        views(out@) == record_command(*m),
{
    let out = vec![
        "curl".to_owned(),
        "--silent".to_owned(),
        "--show-error".to_owned(),
        "--fail".to_owned(),
        "--request".to_owned(),
        "POST".to_owned(),
        "/api/sessions/".to_owned()
            .concat(m.session.as_str())
            .concat("/migrate"),
    ];
    proof {
        assert(views(out@) =~= record_command(*m));
    }
    out
}

/// Tells attached clients to reconnect.
pub open spec fn notify_command(m: Migration) -> Seq<Seq<char>> {
    seq![
        "curl"@,
        "--silent"@,
        "--fail"@,
        "--request"@,
        "POST"@,
        "/api/sessions/"@
            + m.session@
            + "/notify"@,
    ]
}

/// Tells attached clients to reconnect.
fn notify(m: &Migration) -> (out: Vec<String>)
    ensures
        views(out@) == notify_command(*m),
{
    let out = vec![
        "curl".to_owned(),
        "--silent".to_owned(),
        "--fail".to_owned(),
        "--request".to_owned(),
        "POST".to_owned(),
        "/api/sessions/".to_owned()
            .concat(m.session.as_str())
            .concat("/notify"),
    ];
    proof {
        assert(views(out@) =~= notify_command(*m));
    }
    out
}

/// The command a step issues.
pub open spec fn command_of(m: Migration, step: Step) -> Seq<Seq<char>> {
    match step {
        Step::Quiesce => quiesce_command(),
        Step::Sync => sync_command(m),
        Step::Stop => stop_command(m),
        Step::Recreate => recreate_command(m),
        Step::Record => record_command(m),
        Step::Notify => notify_command(m),
    }
}

/// What a list of commands holds.
pub open spec fn command_views(list: Seq<Vec<String>>) -> Seq<Seq<Seq<char>>> {
    Seq::new(list.len(), |i: int| views(list[i]@))
}

/// The command a step issues.
pub fn command(m: &Migration, step: Step) -> (r: Vec<String>)
    ensures
        views(r@) == command_of(*m, step),
        r.len() > 0,
{
    let r = match step {
        Step::Quiesce => quiesce(),
        Step::Sync => sync(m),
        Step::Stop => stop(m),
        Step::Recreate => recreate(m),
        Step::Record => record(m),
        Step::Notify => notify(m),
    };
    proof {
        assert(views(r@).len() == r.len());
    }
    r
}

/// The commands one step of a migration issues.
///
/// Returned rather than run, so the sequence can be examined without a node.
pub fn commands(migration: &Migration, step: Step) -> (out: Vec<Vec<String>>)
    ensures
        command_views(out@) == seq![command_of(*migration, step)],
{
    let out = vec![command(migration, step)];
    proof {
        assert(command_views(out@) =~= seq![command_of(*migration, step)]);
    }
    out
}

/// What is recreated is the digest that ran, on the copy that was synced.
pub proof fn a_migration_preserves_the_durable_state(m: Migration)
    ensures
        command_of(m, Step::Recreate).last() == m.image_digest@,
        command_of(m, Step::Recreate).contains(m.target@),
        command_of(m, Step::Sync).last() == m.home@ + "/"@ + m.session@ + "/"@,
        command_of(m, Step::Recreate).contains(
            m.home@ + "/"@ + m.session@ + ":/workspaces:rw,Z"@,
        ),
        command_of(m, Step::Stop).contains(decimal(m.grace_s as nat)),
{
    let recreate = command_of(m, Step::Recreate);
    assert(recreate[3] == m.target@);
    assert(recreate[9] == m.home@ + "/"@ + m.session@ + ":/workspaces:rw,Z"@);
    assert(command_of(m, Step::Stop)[3] == decimal(m.grace_s as nat));
}

// ---- laws of the steps ----

/// The record of a session's new host and the notice to its clients are two
/// requests: the one ends in `migrate` and the other in `notify`, both of the
/// session, and both are posts that fail loudly.
pub proof fn the_record_and_the_notice_are_two_requests(
    m: Migration,
    record: Vec<String>,
    notify: Vec<String>,
)
    requires
        call_ensures(command, (&m, Step::Record), record),
        call_ensures(command, (&m, Step::Notify), notify),
    ensures
        record@.last()@ == "/api/sessions/"@ + m.session@ + "/migrate"@,
        notify@.last()@ == "/api/sessions/"@ + m.session@ + "/notify"@,
        record@.last()@ != notify@.last()@,
        record@[0]@ == "curl"@ && notify@[0]@ == "curl"@,
        record@[record@.len() - 2]@ == "POST"@ && record@[record@.len() - 3]@ == "--request"@,
        notify@[notify@.len() - 2]@ == "POST"@ && notify@[notify@.len() - 3]@ == "--request"@,
        views(record@).contains("--fail"@) && views(notify@).contains("--fail"@),
{
    assert(views(record@).len() == record@.len());
    assert(views(notify@).len() == notify@.len());
    assert(views(record@)[6] == record@[6]@ && views(record@)[5] == record@[5]@);
    assert(views(record@)[4] == record@[4]@ && views(record@)[0] == record@[0]@);
    assert(views(notify@)[5] == notify@[5]@ && views(notify@)[4] == notify@[4]@);
    assert(views(notify@)[3] == notify@[3]@ && views(notify@)[0] == notify@[0]@);
    assert(views(record@)[3] == "--fail"@);
    assert(views(notify@)[2] == "--fail"@);
    reveal_strlit("/migrate");
    reveal_strlit("/notify");
    let (a, b) = (record@.last()@, notify@.last()@);
    assert(a.last() == 'e');
    assert(b.last() == 'y');
}

/// A session is stopped with the grace it declares and under its own name, and
/// recreated under the same name, on the target, from the digest that ran and
/// on the copy that was synced.
pub proof fn a_session_is_recreated_as_it_ran(
    m: Migration,
    sync: Vec<String>,
    stop: Vec<String>,
    recreate: Vec<String>,
)
    requires
        call_ensures(command, (&m, Step::Sync), sync),
        call_ensures(command, (&m, Step::Stop), stop),
        call_ensures(command, (&m, Step::Recreate), recreate),
    ensures
        sync@[0]@ == "rsync"@,
        views(sync@).contains("--archive"@) && views(sync@).contains("--delete"@),
        views(sync@).contains("--hard-links"@) && views(sync@).contains("--acls"@)
            && views(sync@).contains("--xattrs"@),
        sync@[sync@.len() - 2]@ == m.workspace@ + "/"@,
        sync@.last()@ == m.home@ + "/"@ + m.session@ + "/"@,
        views(stop@) =~= seq![
            "podman"@,
            "stop"@,
            "--time"@,
            decimal(m.grace_s as nat),
            "devcontainer-"@ + m.session@,
        ],
        recreate@[0]@ == "podman"@ && recreate@[1]@ == "--remote"@,
        recreate@[2]@ == "--connection"@ && recreate@[3]@ == m.target@,
        recreate@[4]@ == "run"@ && recreate@[5]@ == "--detach"@,
        recreate@[6]@ == "--name"@ && recreate@[7]@ == stop@.last()@,
        recreate@[8]@ == "--volume"@ && recreate@[9]@ == m.home@ + "/"@ + m.session@
            + ":/workspaces:rw,Z"@,
        recreate@.last()@ == m.image_digest@,
{
    assert(views(sync@).len() == sync@.len());
    assert(views(stop@).len() == stop@.len());
    assert(views(recreate@).len() == recreate@.len());
    assert(forall|k: int| 0 <= k < sync@.len() ==> views(sync@)[k] == (#[trigger] sync@[k])@);
    assert(forall|k: int| 0 <= k < stop@.len() ==> views(stop@)[k] == (#[trigger] stop@[k])@);
    assert(forall|k: int|
        0 <= k < recreate@.len() ==> views(recreate@)[k] == (#[trigger] recreate@[k])@);
    assert(views(sync@)[1] == "--archive"@ && views(sync@)[2] == "--delete"@);
    assert(views(sync@)[3] == "--hard-links"@ && views(sync@)[4] == "--acls"@);
    assert(views(sync@)[5] == "--xattrs"@);
}

/// Nothing new starts while a session moves: a mark is left that is the same
/// for every session.
pub proof fn a_move_leaves_its_mark(m: Migration, quiesce: Vec<String>)
    requires
        call_ensures(command, (&m, Step::Quiesce), quiesce),
    ensures
        views(quiesce@) =~= seq!["touch"@, "/run/devcontainer-agent.quiesced"@],
{
}

/// The steps are the six of a move, each once, in the order in which nothing is
/// lost: the copy before the stop, the stop before the new start, and the
/// record before the notice.
pub proof fn the_copy_comes_before_the_stop(r: [Step; 6])
    requires
        call_ensures(Step::all, (), r),
    ensures
        r@.len() == 6,
        r@[0] == Step::Quiesce && r@[1] == Step::Sync && r@[2] == Step::Stop,
        r@[3] == Step::Recreate && r@[4] == Step::Record && r@[5] == Step::Notify,
{
}

/// A step is undone by leaving the container where it is as long as the
/// container still runs.
pub proof fn a_step_before_the_stop_is_undone(step: Step, r: bool, name: &'static str)
    requires
        call_ensures(Step::is_reversible, (step,), r),
        call_ensures(Step::as_str, (step,), name),
    ensures
        r <==> step == Step::Quiesce || step == Step::Sync,
        step == Step::Quiesce ==> name@ == "quiesce"@,
        step == Step::Sync ==> name@ == "sync"@,
        step == Step::Stop ==> name@ == "stop"@,
        step == Step::Recreate ==> name@ == "recreate"@,
        step == Step::Record ==> name@ == "record"@,
        step == Step::Notify ==> name@ == "notify"@,
{
}

// ---- laws of a workspace ----

/// A path that git lists as never added makes a workspace dirty, and so does
/// every other line of the status that is not blank; each is told apart.
pub proof fn every_status_line_counts(found: Inspection, r: WorkspaceState, i: int)
    requires
        call_ensures(is_dirty, (&found,), r),
        found.exists,
        found.inside is Some,
        found.status is Some,
        0 <= i < lines(found.status.unwrap()@).len(),
    ensures
        ({
            let line = lines(found.status.unwrap()@)[i];
            let new = line.len() >= 2 && line[0] == '?' && line[1] == '?';
            &&& new ==> r.untracked
            &&& !new && (exists|k: int| 0 <= k < line.len() && !is_space(#[trigger] line[k]))
                ==> r.uncommitted
        }),
{
    reveal_strlit("??");
    let line = lines(found.status.unwrap()@)[i];
    if line.len() >= 2 && line[0] == '?' && line[1] == '?' {
        assert(line.subrange(0, 2) =~= "??"@);
        assert(never_added(line));
    } else if exists|k: int| 0 <= k < line.len() && !is_space(#[trigger] line[k]) {
        if never_added(line) {
            assert(line.subrange(0, 2)[0] == '?' && line.subrange(0, 2)[1] == '?');
        }
        let k = choose|k: int| 0 <= k < line.len() && !is_space(#[trigger] line[k]);
        a_trimmed_text_keeps_what_is_no_space(line, k);
        assert(changed(line));
    }
}

/// A workspace counts as unpushed where a branch has no upstream, or where what
/// git tracks of it says that it is ahead or that its upstream is gone; a branch
/// level with its upstream, or only behind it, does not count.
pub proof fn a_branch_without_its_remote_counts(
    found: Inspection,
    r: WorkspaceState,
    i: int,
    name: Seq<char>,
    upstream: Seq<char>,
    track: Seq<char>,
)
    requires
        call_ensures(is_dirty, (&found,), r),
        found.branches is Some,
        0 <= i < lines(found.branches.unwrap()@).len(),
        split(trimmed(lines(found.branches.unwrap()@)[i]), ' ') =~= seq![name, upstream, track]
            || split(trimmed(lines(found.branches.unwrap()@)[i]), ' ') =~= seq![name],
        trimmed(lines(found.branches.unwrap()@)[i]).len() > 0,
    ensures
        split(trimmed(lines(found.branches.unwrap()@)[i]), ' ').len() == 1 ==> r.unpushed,
        split(trimmed(lines(found.branches.unwrap()@)[i]), ' ').len() == 3 && upstream.len() == 0
            ==> r.unpushed,
        split(trimmed(lines(found.branches.unwrap()@)[i]), ' ').len() == 3 && track
            == "[gone]"@ ==> r.unpushed,
{
    let line = lines(found.branches.unwrap()@)[i];
    let fields = split(trimmed(line), ' ');
    if fields.len() == 3 && track == "[gone]"@ {
        reveal_strlit("[gone]");
        reveal_strlit("gone");
        assert(fields.skip(2) =~= seq![track]);
        assert(distance(line) == track);
        assert(track.subrange(1, 5) =~= "gone"@);
        assert(crate::text::occurs_at(track, "gone"@, 1));
    }
    if fields.len() == 1 || upstream.len() == 0 || track == "[gone]"@ {
        assert(ahead(line));
        if found.exists && found.inside is Some && found.status is Some {
            assert(found.state().unpushed);
        }
    }
}

/// What a state says holds each reason for which it is dirty, and no reason
/// where it is clean.
pub proof fn a_dirty_workspace_says_why(state: WorkspaceState, dirty: bool, reason: String)
    requires
        call_ensures(WorkspaceState::is_dirty, (&state,), dirty),
        call_ensures(WorkspaceState::reason, (&state,), reason),
    ensures
        dirty <==> state.uncommitted || state.unpushed || state.untracked,
        !dirty ==> reason@ == "clean"@,
        state.uncommitted && !state.unpushed && !state.untracked ==> reason@
            == "uncommitted tracked changes"@,
        !state.uncommitted && state.unpushed && !state.untracked ==> reason@
            == "unpushed commits"@,
        !state.uncommitted && !state.unpushed && state.untracked ==> reason@
            == "untracked non-ignored files"@,
        state.uncommitted && state.unpushed && state.untracked ==> reason@
            == "uncommitted tracked changes"@ + ", "@ + "unpushed commits"@ + ", "@
            + "untracked non-ignored files"@,
{
    let (a, b, c) = (
        "uncommitted tracked changes"@,
        "unpushed commits"@,
        "untracked non-ignored files"@,
    );
    if state.uncommitted && !state.unpushed && !state.untracked {
        assert(state.reasons() =~= seq![a]);
    }
    if !state.uncommitted && state.unpushed && !state.untracked {
        assert(state.reasons() =~= seq![b]);
    }
    if !state.uncommitted && !state.unpushed && state.untracked {
        assert(state.reasons() =~= seq![c]);
    }
    if state.uncommitted && state.unpushed && state.untracked {
        assert(state.reasons() =~= seq![a, b, c]);
        assert(seq![a, b, c].drop_last() =~= seq![a, b]);
        assert(seq![a, b].drop_last() =~= seq![a]);
        reveal_with_fuel(join, 3);
    }
}

/// Somebody is attached where a line of the process table names the editor's
/// server, and where the table could not be read; a table that names it nowhere
/// shows nobody.
pub proof fn an_editor_server_is_an_attachment(processes: &str, r: bool, i: int, k: int)
    requires
        call_ensures(observe_attachment, (Some(processes),), r),
    ensures
        0 <= i < lines(processes@).len() && 0 <= k && k + 13 <= lines(processes@)[i].len()
            && lines(processes@)[i].subrange(k, k + 13) == "vscode-server"@ ==> r,
        r ==> exists|n: int, at: int|
            0 <= n < lines(processes@).len() && 0 <= at && at + 13 <= lines(processes@)[n].len()
                && #[trigger] lines(processes@)[n].subrange(at, at + 13) == "vscode-server"@,
{
    reveal_strlit("vscode-server");
    reveal_strlit(".vscode-server");
    let all = lines(processes@);
    let word = "vscode-server"@;
    if 0 <= i < all.len() && 0 <= k && k + 13 <= all[i].len() && all[i].subrange(k, k + 13)
        == word {
        assert(crate::text::occurs_at(all[i], word, k));
        assert(is_server(all[i]));
    }
    if r {
        let n = choose|n: int| 0 <= n < all.len() && is_server(#[trigger] all[n]);
        if holds(all[n], word) {
            let at = choose|at: int| crate::text::occurs_at(all[n], word, at);
            assert(all[n].subrange(at, at + 13) == word);
        } else {
            let at = choose|at: int| crate::text::occurs_at(all[n], ".vscode-server"@, at);
            assert(all[n].subrange(at + 1, at + 14) =~= all[n].subrange(at, at + 14).skip(1));
            assert(".vscode-server"@.skip(1) =~= word);
            assert(all[n].subrange(at + 1, (at + 1) + 13) == word);
        }
    }
}

/// A process table that could not be read counts as somebody attached.
pub proof fn an_unread_process_table_is_an_attachment(r: bool)
    requires
        call_ensures(observe_attachment, (None::<&str>,), r),
    ensures
        r,
{
}

} // verus!
