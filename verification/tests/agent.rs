//! The agent on a node: workspaces, attachments, migrations and its answers.

use devcluster::agent::service::{
    attachment_arguments, digest_arguments, hosted, join_path, no_session, parse_mode,
    parse_request, proceed, resume, settle, settle_attachment, settle_digest, settle_unregister,
    unregister_arguments, usage, Mode, Next, Outcome, Ran, Route, Settings,
};
use devcluster::agent::{
    commands, is_attached, is_dirty, observe_attachment, AgentError, Inspection, Migration, Step,
    BRANCH_FORMAT,
    WorkspaceState,
};

fn migration() -> Migration {
    Migration {
        session: "abc123".to_string(),
        workspace: "/var/lib/devcontainers/abc123".to_string(),
        home: "/var/lib/devcontainer-home".to_string(),
        target: "node1".to_string(),
        image_digest: "sha256:aaaa".to_string(),
        grace_s: 30,
    }
}

fn inspection(status: &str, branches: &str) -> Inspection {
    Inspection {
        exists: true,
        inside: Some("true\n".to_string()),
        status: Some(status.to_string()),
        branches: Some(branches.to_string()),
    }
}

/// The attachment signal is a server process, not a tunnel.
#[test]
fn a_running_server_process_is_an_attachment_cg_08() {
    assert!(!is_attached(
        "/usr/local/bin/code tunnel --name dc-abc123\n"
    ));
    assert!(is_attached(
        "/usr/local/bin/code tunnel --name dc-abc123\n\
         /home/vscode/.vscode-server/bin/abc/node /home/vscode/.vscode-server/bin/abc/out/server-main.js\n"
    ));
    assert!(is_attached(
        "/root/.vscode-server/bin/deadbeef/node --inspect\n"
    ));
    assert!(!is_attached(""));
}

#[test]
fn an_unreadable_process_table_is_an_attachment() {
    assert!(observe_attachment(None));
    assert!(!observe_attachment(Some("code tunnel\n")));
    assert!(observe_attachment(Some("/opt/vscode-server/node\n")));
}

/// A workspace that cannot be inspected is dirty.
#[test]
fn an_uninspectable_workspace_is_dirty_cg_06() {
    let gone = Inspection {
        exists: false,
        inside: None,
        status: None,
        branches: None,
    };
    let state = is_dirty(&gone);
    assert!(state.is_dirty());
    assert_eq!(
        state.reason(),
        "uncommitted tracked changes, unpushed commits, untracked non-ignored files"
    );

    let no_repository = Inspection {
        exists: true,
        inside: None,
        status: None,
        branches: None,
    };
    assert!(is_dirty(&no_repository).is_dirty());
}

/// Each condition is reported independently.
#[test]
fn each_dirty_condition_is_reported_independently_cg_06() {
    assert!(!WorkspaceState::default().is_dirty());
    assert_eq!(WorkspaceState::default().reason(), "clean");

    for (state, expected) in [
        (
            WorkspaceState {
                uncommitted: true,
                ..Default::default()
            },
            "uncommitted tracked changes",
        ),
        (
            WorkspaceState {
                unpushed: true,
                ..Default::default()
            },
            "unpushed commits",
        ),
        (
            WorkspaceState {
                untracked: true,
                ..Default::default()
            },
            "untracked non-ignored files",
        ),
    ] {
        assert!(state.is_dirty());
        assert_eq!(state.reason(), expected);
    }
}

#[test]
fn a_workspace_is_read_line_by_line() {
    let clean = is_dirty(&inspection("", "main origin/main [behind 2]\n"));
    assert_eq!(clean, WorkspaceState::default());

    let untracked = is_dirty(&inspection("?? notes.txt\n", "main origin/main [behind 2]\n"));
    assert!(untracked.untracked && !untracked.uncommitted && !untracked.unpushed);

    let changed = is_dirty(&inspection(" M src/lib.rs\n", "main origin/main [behind 2]\n"));
    assert!(changed.uncommitted && !changed.untracked);

    let ahead = is_dirty(&inspection("", "main origin/main [behind 2]\nwork origin/work [ahead 1]\n"));
    assert!(ahead.unpushed);
    let local = is_dirty(&inspection("", "main origin/main [behind 2]\nwork\n"));
    assert!(local.unpushed, "a branch that names no upstream exists only here");

    let mut unread = inspection("", "");
    unread.branches = None;
    assert!(is_dirty(&unread).unpushed);
}

/// A branch level with its upstream has nothing to lose, whatever it is called.
#[test]
fn a_pushed_workspace_is_clean() {
    assert_eq!(
        is_dirty(&inspection("", "main origin/main \nwork origin/work \n")),
        WorkspaceState::default()
    );
    assert_eq!(
        is_dirty(&inspection("", "look-ahead origin/look-ahead [behind 1]\n")),
        WorkspaceState::default()
    );
    let gone = is_dirty(&inspection("", "main origin/main \nwork origin/work [gone]\n"));
    assert_eq!(gone.reason(), "unpushed commits");
    let both = is_dirty(&inspection("", "work origin/work [ahead 1, behind 3]\n"));
    assert_eq!(both.reason(), "unpushed commits");
    let local = is_dirty(&inspection("", "main origin/main \nwork  \n"));
    assert_eq!(local.reason(), "unpushed commits");
    assert_eq!(
        BRANCH_FORMAT,
        "--format=%(refname:short) %(upstream:short) %(upstream:track)"
    );
}

/// The steps run in order, and the point of no return is the stop.
#[test]
fn the_migration_runs_the_declared_steps_in_order_cw_03() {
    assert_eq!(
        Step::all().map(Step::as_str),
        ["quiesce", "sync", "stop", "recreate", "record", "notify"],
        "quiesce before sync is what stops a session being created onto a node \
         that is about to reboot"
    );

    assert!(Step::Quiesce.is_reversible());
    assert!(Step::Sync.is_reversible());
    for step in [Step::Stop, Step::Recreate, Step::Record, Step::Notify] {
        assert!(!step.is_reversible(), "{step:?}");
    }
}

/// What survives is the worktree, the volumes and the digest.
#[test]
fn the_migration_preserves_the_durable_state_cw_03() {
    let m = migration();

    let sync = &commands(&m, Step::Sync)[0];
    assert!(sync.contains(&"--archive".to_string()));
    assert!(sync.iter().any(|a| a.ends_with("/abc123/")));
    assert!(sync.contains(&"--delete".to_string()));

    let stop = &commands(&m, Step::Stop)[0];
    assert!(stop.contains(&"30".to_string()));

    let recreate = &commands(&m, Step::Recreate)[0];
    assert!(recreate.contains(&m.image_digest));
    assert!(recreate.iter().any(|a| a.contains(&m.target)));
    assert!(recreate.iter().any(|a| a.starts_with(&m.home)));
}

#[test]
fn each_step_is_one_command() {
    let m = migration();
    assert_eq!(
        commands(&m, Step::Quiesce),
        [["touch", "/run/devcontainer-agent.quiesced"]]
    );
    assert_eq!(
        commands(&m, Step::Stop),
        [["podman", "stop", "--time", "30", "devcontainer-abc123"]]
    );
    assert_eq!(
        commands(&m, Step::Sync)[0][6..],
        ["/var/lib/devcontainers/abc123/", "/var/lib/devcontainer-home/abc123/"]
    );
    assert_eq!(
        commands(&m, Step::Recreate)[0],
        [
            "podman", "--remote", "--connection", "node1", "run", "--detach", "--name",
            "devcontainer-abc123", "--volume",
            "/var/lib/devcontainer-home/abc123:/workspaces:rw,Z", "sha256:aaaa",
        ]
    );
}

#[test]
fn a_mode_is_read_from_the_command_line() {
    let args = |list: &[&str]| list.iter().map(|a| a.to_string()).collect::<Vec<String>>();
    assert!(matches!(parse_mode(&args(&[])), Mode::Serve));
    assert!(matches!(parse_mode(&args(&["serve"])), Mode::Serve));
    assert!(matches!(parse_mode(&args(&["attached"])), Mode::NoSession));
    match parse_mode(&args(&["attached", "abc123"])) {
        Mode::Attached(session) => assert_eq!(session, "abc123"),
        other => panic!("{other:?}"),
    }
    match parse_mode(&args(&["watch"])) {
        Mode::Unknown(other) => assert!(usage(&other).ends_with("unknown mode `watch`")),
        other => panic!("{other:?}"),
    }
    assert_eq!(no_session().because, "no session was named");
}

fn unset() -> Settings {
    Settings {
        workspaces: None,
        home: None,
        target: None,
        grace: None,
        control: None,
    }
}

#[test]
fn settings_have_defaults() {
    let s = unset();
    assert_eq!(s.root(), "/var/lib/devcontainers");
    assert_eq!(s.control_plane(), "http://127.0.0.1:8080");
    assert_eq!(s.workspace_of("abc123"), "/var/lib/devcontainers/abc123");
    let m = s.migration("abc123", "sha256:aaaa".to_string());
    assert_eq!(
        (m.home.as_str(), m.target.as_str(), m.grace_s),
        ("/var/lib/devcontainer-home", "n1", 30)
    );

    let mut s = unset();
    s.grace = Some("soon".to_string());
    s.workspaces = Some("/srv/".to_string());
    let m = s.migration("x", String::new());
    assert_eq!((m.workspace.as_str(), m.grace_s), ("/srv/x", 30));
    s.grace = Some("90".to_string());
    assert_eq!(s.migration("x", String::new()).grace_s, 90);
}

#[test]
fn paths_are_joined() {
    assert_eq!(join_path("/srv", "a"), "/srv/a");
    assert_eq!(join_path("/srv/", "a"), "/srv/a");
    assert_eq!(join_path("/srv", "/a"), "/a");
    assert_eq!(join_path("", "a"), "a");
    assert_eq!(join_path("/srv", ""), "/srv/");
}

fn ended(success: bool, stdout: &str, stderr: &str) -> Ran {
    Ran::Ended {
        success,
        stdout: stdout.to_string(),
        stderr: stderr.to_string(),
    }
}

#[test]
fn an_attempt_comes_to_its_output_or_its_reason() {
    assert_eq!(settle("s", "try", &ended(true, " out \n", "")), Ok("out".to_string()));
    let bad = settle("s", "try", &ended(false, "out", " why \n")).expect_err("it failed");
    assert_eq!((bad.attempted.as_str(), bad.because.as_str()), ("try", "why"));
    let not = settle("s", "try", &Ran::NotStarted("no such file".to_string()));
    assert_eq!(not.expect_err("not started").because, "no such file");

    assert_eq!(settle_attachment("s", &ended(true, "", "")), Ok(()));
    assert_eq!(
        settle_attachment("s", &ended(false, "", "x")).expect_err("it failed").attempted,
        "record an attachment"
    );
    assert_eq!(
        settle_unregister("s", &ended(false, "", "x")).expect_err("it failed").attempted,
        "unregister the tunnel"
    );
    assert_eq!(settle_digest("s", &ended(true, "sha256:aa\n", "")), Ok("sha256:aa".to_string()));
    assert_eq!(
        settle_digest("s", &ended(false, "", "x")).expect_err("it failed").to_text(),
        AgentError {
            session: "s".to_string(),
            attempted: "read the container's image".to_string(),
            because: "x".to_string(),
        }
        .to_text()
    );
}

#[test]
fn a_session_is_named_to_the_tools() {
    assert!(attachment_arguments("http://c:8080", "abc123")
        .contains(&"http://c:8080/api/sessions/abc123/attached".to_string()));
    assert!(unregister_arguments("abc123").contains(&"devcontainer-abc123".to_string()));
    assert!(digest_arguments("abc123").contains(&"devcontainer-abc123".to_string()));
}

/// A migration in which every command succeeds runs six, and says so.
#[test]
fn a_migration_goes_through_its_steps() {
    let m = migration();
    let mut next = proceed(&m, "http://c:8080", 0);
    for (at, step) in Step::all().into_iter().enumerate() {
        match &next {
            Next::Run(argv) => {
                let plain = &commands(&m, step)[0];
                assert_eq!(argv.len(), plain.len());
                for (a, p) in argv.iter().zip(plain) {
                    assert!(a == p || *a == format!("http://c:8080{p}") && p.starts_with("/api/"));
                }
            }
            other => panic!("{other:?}"),
        }
        next = resume(&m, "http://c:8080", at, &ended(true, "", ""));
    }
    match next {
        Next::Done(steps) => assert_eq!(
            steps,
            r#"["quiesce","sync","stop","recreate","record","notify"]"#
        ),
        other => panic!("{other:?}"),
    }
}

#[test]
fn a_failed_step_says_whether_the_container_still_runs() {
    let m = migration();
    match resume(&m, "", 1, &ended(false, "", "disk full\n")) {
        Next::Failed(e) => {
            assert_eq!(e.attempted, "sync (reversible: the container is still running here)");
            assert_eq!(e.because, "disk full");
        }
        other => panic!("{other:?}"),
    }
    match resume(&m, "", 2, &ended(false, "", "timeout")) {
        Next::Failed(e) => assert_eq!(e.attempted, "stop (past the point of no return)"),
        other => panic!("{other:?}"),
    }
    match resume(&m, "", 1, &Ran::NotStarted("no rsync".to_string())) {
        Next::Failed(e) => assert_eq!(e.attempted, "sync: rsync"),
        other => panic!("{other:?}"),
    }
}

#[test]
fn a_request_line_is_routed() {
    assert!(matches!(parse_request("GET /workspaces HTTP/1.1"), Route::Hosted));
    assert!(matches!(parse_request("GET /workspaces/a/attached HTTP/1.1"), Route::Observe));
    assert!(matches!(parse_request("GET /workspaces/a/dirty/ HTTP/1.1"), Route::Dirty(id) if id == "a"));
    assert!(matches!(parse_request("POST /workspaces/a/attached"), Route::Attached(id) if id == "a"));
    assert!(matches!(parse_request("POST /workspaces/a/migrate"), Route::Migrate(id) if id == "a"));
    assert!(matches!(parse_request("POST /workspaces/a/unregister"), Route::Unregister(id) if id == "a"));
    for line in ["", "GET", "GET /", "PUT /workspaces", "GET /workspaces/a", "POST /workspaces/a/dirty", "GET /sessions"] {
        assert!(matches!(parse_request(line), Route::Missing), "{line:?}");
    }
}

#[test]
fn an_outcome_is_answered() {
    let names = vec!["b".to_string(), "a".to_string()];
    assert_eq!(hosted(&names), r#"{"workspaces":["a","b"]}"#);

    let dirty = Outcome::Dirty("a".to_string(), WorkspaceState::default()).answer();
    assert_eq!(dirty.status, 200);
    assert_eq!(dirty.body, r#"{"session":"a","dirty":false,"reason":"clean"}"#);

    let attached = Outcome::Attached("a".to_string(), Err(no_session())).answer();
    assert_eq!(attached.status, 503);
    assert!(attached.body.starts_with(r#"{"error":""#));
    assert_eq!(Outcome::Unregistered("a".to_string(), Err(no_session())).answer().status, 500);
    assert_eq!(Outcome::Migrated("a".to_string(), Err(no_session())).answer().status, 500);

    let moved = Outcome::Migrated("a".to_string(), Ok("[]".to_string())).answer();
    assert_eq!(moved.body, r#"{"session":"a","steps":[]}"#);
    assert_eq!(
        Outcome::Unregistered("a".to_string(), Ok(())).answer().body,
        r#"{"session":"a","unregistered":true}"#
    );
    assert_eq!(Outcome::Observed(true).answer().body, r#"{"attached":true}"#);

    let missing = Outcome::Missing.answer();
    assert_eq!((missing.status, missing.body.as_str()), (404, "{}"));
    assert_eq!(
        missing.response(),
        "HTTP/1.1 404\r\ncontent-type: application/json\r\ncontent-length: 2\r\nconnection: close\r\n\r\n{}"
    );
}

/// The length is counted in bytes, not in characters.
#[test]
fn a_length_is_in_bytes() {
    let answer = Outcome::Dirty("ä".to_string(), WorkspaceState::default()).answer();
    assert!(answer.response().contains(&format!("content-length: {}\r\n", answer.body.len())));
    assert_eq!(answer.body.len(), answer.body.chars().count() + 1);
}
