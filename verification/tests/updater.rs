//! Draining, admission to a rollout, and a run of the updater.

use devcluster::drain::{
    against_budget, plan, Budget, BudgetOutcome, Capacity, OnExceed, Strategy, Workload,
    WorkloadClass,
};
use devcluster::rollout::{admits, short, Decision, Observation, PeerReport, State};
use devcluster::updater::{
    advance, applier_from_environment, begin, booted_digest_from, env_list, exit_code,
    health_arguments, observation as observed, own_position, parse_peer, parse_peers, peer_report,
    quarantined, read_command, total_budget, Ended, Event, Next, Phase, Report, RolloutError,
    Settings, Stage, SystemApplier, Task,
};

fn devcontainer(id: &str, memory_gib: u32, idle_seconds: u64) -> Workload {
    Workload {
        id: id.to_string(),
        class: WorkloadClass::Devcontainer,
        memory_gib,
        idle_seconds,
    }
}

fn capacity() -> Capacity {
    Capacity {
        target: "n1".to_string(),
        never_receives: vec!["n3".to_string()],
        memory_cap_gib: 12,
    }
}

/// Exceeding a budget halts, and never kills the work.
#[test]
fn an_exceeded_budget_halts_rather_than_killing_work_cu_04() {
    let bench = Budget {
        class: "bench-job".to_string(),
        seconds: 14_400,
        on_exceed: OnExceed::Halt,
    };
    assert_eq!(against_budget(&bench, 14_400), BudgetOutcome::WithinBudget);

    let outcome = against_budget(&bench, 14_401);
    assert!(matches!(outcome, BudgetOutcome::Halt { .. }));
    assert!(outcome.to_text().contains("worse than"));

    let plan = plan(
        &[Workload {
            id: "bench-1".to_string(),
            class: WorkloadClass::BenchJob,
            memory_gib: 8,
            idle_seconds: 0,
        }],
        &capacity(),
    );
    assert_eq!(plan.steps[0].strategy, Strategy::Wait);
}

/// Migration respects the cap; the excess is stopped with notice.
#[test]
fn the_migration_cap_is_enforced_not_exceeded_cu_05() {
    let workloads = vec![
        devcontainer("a", 8, 10),
        devcontainer("b", 6, 20),
        devcontainer("c", 4, 30),
    ];
    let mut plan = plan(&workloads, &capacity());

    assert!(
        plan.migrating_memory_gib() <= 12,
        "the cap must be enforced, not exceeded silently: {} GiB",
        plan.migrating_memory_gib()
    );

    let moving: Vec<&str> = plan
        .migrating()
        .iter()
        .map(|s| s.workload.id.as_str())
        .collect();
    assert_eq!(moving, vec!["a", "c"]);

    let stopped: Vec<&str> = plan
        .stopping()
        .iter()
        .map(|s| s.workload.id.as_str())
        .collect();
    assert_eq!(stopped, vec!["b"]);
    assert!(plan
        .steps
        .remove(1)
        .strategy
        .to_notice()
        .contains("the session survives"));
}

/// Nothing is ever migrated to a node that never receives work.
#[test]
fn nothing_migrates_to_a_reserved_node_cu_06() {
    let forbidden = Capacity {
        target: "n3".to_string(),
        never_receives: vec!["n3".to_string()],
        memory_cap_gib: 12,
    };
    let plan = plan(&[devcontainer("a", 1, 0)], &forbidden);

    assert!(
        plan.migrating().is_empty(),
        "receiving work voids the isolation guarantee n3 exists to provide"
    );
    assert_eq!(plan.stopping().len(), 1);
}

/// A storage service goes down with its node, and the plan says so.
#[test]
fn a_storage_service_cannot_move_cu_04() {
    let plan = plan(
        &[Workload {
            id: "zot".to_string(),
            class: WorkloadClass::StorageService,
            memory_gib: 2,
            idle_seconds: 0,
        }],
        &capacity(),
    );
    assert!(matches!(
        plan.steps[0].strategy,
        Strategy::CannotMove { .. }
    ));
}

/// Listed in another order, each workload is decided as it was.
#[test]
fn the_order_of_the_workloads_does_not_matter() {
    let list = |ids: [&str; 3]| -> Vec<Workload> {
        ids.iter().map(|id| devcontainer(id, 7, 100)).collect()
    };
    for ids in [["x", "y", "z"], ["z", "y", "x"], ["y", "x", "z"]] {
        for step in plan(&list(ids), &capacity()).steps {
            let moves = matches!(step.strategy, Strategy::Migrate { .. });
            assert_eq!(moves, step.workload.id == "x", "{ids:?}");
        }
    }
}

/// Two runs choose the same containers.
#[test]
fn the_plan_is_deterministic_cu_05() {
    let workloads = vec![
        devcontainer("z", 7, 100),
        devcontainer("y", 7, 100),
        devcontainer("x", 7, 100),
    ];
    let first = plan(&workloads, &capacity());
    let second = plan(&workloads, &capacity());
    assert_eq!(first, second);
    assert_eq!(first.migrating().len(), 1, "only one 7 GiB fits under 12");
    assert_eq!(first.migrating()[0].workload.id, "x", "the identifier breaks the tie");
}

/// The steps stay in the order the workloads came in.
#[test]
fn a_plan_keeps_the_order_of_the_workloads() {
    let workloads = vec![
        devcontainer("b", 4, 50),
        Workload {
            id: "ci-1".to_string(),
            class: WorkloadClass::CiJob,
            memory_gib: 4,
            idle_seconds: 0,
        },
        devcontainer("a", 4, 10),
    ];
    let plan = plan(&workloads, &capacity());
    let ids: Vec<&str> = plan.steps.iter().map(|s| s.workload.id.as_str()).collect();
    assert_eq!(ids, ["b", "ci-1", "a"]);
    assert_eq!(plan.steps[0].strategy, Strategy::Migrate { to: "n1".to_string() });
    assert_eq!(plan.steps[1].strategy, Strategy::Wait);
    assert_eq!(plan.migrating_memory_gib(), 8);
}

#[test]
fn every_strategy_has_its_notice() {
    assert_eq!(Strategy::Wait.to_notice(), "waiting for the workload to finish");
    assert_eq!(
        Strategy::Migrate { to: "node1".to_string() }.to_notice(),
        "migrating to node1"
    );
    assert_eq!(
        Strategy::StopWithNotice { because: "full".to_string() }.to_notice(),
        "full"
    );
    assert_eq!(
        Strategy::CannotMove { window: "a disk".to_string() }.to_notice(),
        "a disk"
    );
}

#[test]
fn each_class_has_its_budget() {
    assert_eq!(WorkloadClass::BenchJob.budget_class(), "bench-job");
    assert_eq!(WorkloadClass::CiJob.budget_class(), "ci-job");
    assert_eq!(WorkloadClass::Devcontainer.budget_class(), "devcontainer-migration");
    assert_eq!(WorkloadClass::StorageService.budget_class(), "total");
}

/// What is not the one known word halts.
#[test]
fn an_unknown_policy_halts() {
    assert_eq!(OnExceed::parse("stop-with-notice"), OnExceed::StopWithNotice);
    assert_eq!(OnExceed::parse("halt"), OnExceed::Halt);
    assert_eq!(OnExceed::parse(""), OnExceed::Halt);
    assert_eq!(OnExceed::parse("kill"), OnExceed::Halt);
}

#[test]
fn a_remainder_is_stopped_with_notice() {
    let moving = Budget {
        class: "devcontainer-migration".to_string(),
        seconds: 300,
        on_exceed: OnExceed::StopWithNotice,
    };
    let outcome = against_budget(&moving, 301);
    assert_eq!(
        outcome,
        BudgetOutcome::StopRemainder {
            class: "devcontainer-migration".to_string(),
            elapsed_s: 301,
            budget_s: 300,
        }
    );
    assert!(outcome
        .to_text()
        .starts_with("devcontainer-migration took 301s against a 300s budget"));
}

/// A halt is a decision, not an error.
#[test]
fn a_halt_is_a_decision_and_not_an_error_cu_03() {
    let halt = Decision::Halt("a peer is unhealthy".to_string());
    assert!(halt.halts());
    assert!(!halt.applies());

    let error = RolloutError {
        stage: Stage::Resolve,
        attempted: "resolve :stable".to_string(),
        because: "no registry answered".to_string(),
    };
    assert!(error.to_text().starts_with("resolve:"));
    assert_eq!(
        error.to_text(),
        "resolve: `resolve :stable` did not complete: no registry answered"
    );
}

const OLD: &str = "sha256:0000";
const NEW: &str = "sha256:1111";

fn peer(name: &str, position: u32, booted: &str) -> PeerReport {
    PeerReport {
        name: name.to_string(),
        position,
        healthy: Some(true),
        booted: Some(booted.to_string()),
        state: Some(State::Idle),
    }
}

fn observation(node: &str, position: u32, booted: &str, peers: Vec<PeerReport>) -> Observation {
    Observation {
        node: node.to_string(),
        position,
        booted: booted.to_string(),
        target: NEW.to_string(),
        quarantined: Vec::new(),
        peers,
    }
}

const FLEET: [(&str, u32); 3] = [("node3", 1), ("node2", 2), ("node1", 3)];

/// What each node would do, given the digest each has booted.
fn decisions(booted: [&str; 3]) -> Vec<(&'static str, Decision)> {
    FLEET
        .iter()
        .enumerate()
        .map(|(i, (name, position))| {
            let peers = FLEET
                .iter()
                .enumerate()
                .filter(|(j, _)| *j != i)
                .map(|(j, (pname, pposition))| peer(pname, *pposition, booted[j]))
                .collect();
            (
                *name,
                admits(&observation(name, *position, booted[i], peers)),
            )
        })
        .collect()
}

/// At most one node is admitted in any consistent state.
#[test]
fn at_most_one_node_is_admitted_cu_01() {
    let mut admitted_somewhere = 0usize;
    for a in [OLD, NEW] {
        for b in [OLD, NEW] {
            for c in [OLD, NEW] {
                let booted = [a, b, c];
                let decisions = decisions(booted);
                let admitted: Vec<&str> = decisions
                    .iter()
                    .filter(|(_, d)| d.applies())
                    .map(|(n, _)| *n)
                    .collect();
                assert!(
                    admitted.len() <= 1,
                    "state {booted:?} admits {admitted:?}; two nodes would reboot at once"
                );
                if admitted.len() == 1 {
                    admitted_somewhere += 1;
                }
            }
        }
    }
    assert!(
        admitted_somewhere > 0,
        "no state admits any node, which would be a predicate that never updates"
    );
}

/// The sequence runs to completion, one node at a time, in the declared order.
#[test]
fn the_rollout_runs_in_declared_order_cu_01() {
    let mut booted = [OLD, OLD, OLD];
    let mut order = Vec::new();

    for _ in 0..FLEET.len() {
        let decisions = decisions(booted);
        let (name, _) = decisions
            .iter()
            .find(|(_, d)| d.applies())
            .unwrap_or_else(|| panic!("no node admitted from {booted:?}"));
        order.push(*name);
        let at = FLEET.iter().position(|(n, _)| n == name).expect("in fleet");
        booted[at] = NEW;
    }

    assert_eq!(order, vec!["node3", "node2", "node1"], "the update positions");
    assert!(
        decisions(booted)
            .iter()
            .all(|(_, d)| *d == Decision::UpToDate),
        "the rollout must terminate"
    );
}

/// A quarantined target is never applied.
#[test]
fn a_quarantined_target_is_never_applied_cu_02() {
    let mut o = observation(
        "node3",
        1,
        OLD,
        vec![peer("node2", 2, OLD), peer("node1", 3, OLD)],
    );
    assert!(admits(&o).applies(), "the control must be admitted");

    o.quarantined = vec![NEW.to_string()];
    let decision = admits(&o);
    assert!(decision.halts(), "{decision:?}");
    assert!(decision.to_text().contains("quarantined"));
}

/// An unknown peer halts rather than proceeding.
#[test]
fn an_unknown_peer_halts_the_rollout_cu_03() {
    let mut o = observation(
        "node3",
        1,
        OLD,
        vec![peer("node2", 2, OLD), peer("node1", 3, OLD)],
    );
    assert!(admits(&o).applies());

    o.peers[0] = PeerReport::unknown("node2", 2);
    let decision = admits(&o);
    assert!(decision.halts(), "{decision:?}");
    assert!(decision.to_text().contains("unknown"));

    o.peers[0] = PeerReport {
        healthy: Some(false),
        ..peer("node2", 2, OLD)
    };
    let decision = admits(&o);
    assert!(decision.halts(), "{decision:?}");
    assert!(decision.to_text().contains("unhealthy"));
}

/// A peer mid-flight makes this node wait, not halt.
#[test]
fn a_peer_mid_flight_is_a_wait_not_a_halt_cu_01() {
    let mut o = observation(
        "node2",
        2,
        OLD,
        vec![peer("node3", 1, NEW), peer("node1", 3, OLD)],
    );
    assert!(admits(&o).applies());

    o.peers[0].state = Some(State::Updating);
    let decision = admits(&o);
    assert!(
        !decision.halts(),
        "a normal rollout must not alert: {decision:?}"
    );
    assert!(matches!(decision, Decision::Wait(_)));
}

/// A successor still on the old image is the normal state before its turn.
#[test]
fn a_successor_need_not_be_on_the_target_cu_01() {
    let o = observation(
        "node3",
        1,
        OLD,
        vec![peer("node2", 2, OLD), peer("node1", 3, OLD)],
    );
    assert!(admits(&o).applies());
}

#[test]
fn a_node_already_on_the_target_does_nothing_cu_01() {
    let o = observation(
        "node3",
        1,
        NEW,
        vec![peer("node2", 2, OLD), peer("node1", 3, OLD)],
    );
    assert_eq!(admits(&o), Decision::UpToDate);
}

#[test]
fn a_digest_is_shortened_past_its_algorithm() {
    assert_eq!(short("sha256:0123456789abcdef"), "0123456789ab");
    assert_eq!(short("0123456789abcdef"), "0123456789ab");
    assert_eq!(short("sha256:01"), "01");
    assert_eq!(short(""), "");
}

#[test]
fn a_state_is_read_by_its_name() {
    for state in [State::Idle, State::Draining, State::Updating] {
        assert_eq!(State::parse(state.as_str()), Some(state));
    }
    assert_eq!(State::parse("rebooting"), None);
}

#[test]
fn settings_are_split_and_defaulted() {
    assert_eq!(env_list(" a, b ,,c"), ["a", "b", "c"]);
    assert!(env_list("").is_empty());
    assert_eq!(own_position("3"), 3);
    assert_eq!(own_position("x"), 0);
    assert_eq!(own_position("4294967296"), 0);
    assert_eq!(total_budget("60"), 60);
    assert_eq!(total_budget(""), 21_600);
}

#[test]
fn a_peer_is_named_with_its_position_and_address() {
    let peer = parse_peer("node2:2:http://10.10.255.2:9440/health").expect("a peer");
    assert_eq!(
        (peer.name.as_str(), peer.position, peer.url.as_str()),
        ("node2", 2, "http://10.10.255.2:9440/health")
    );

    let short = parse_peer("node2:2").expect_err("no address");
    assert_eq!(short.because, "expected name:position:url");
    assert_eq!(short.attempted, "parse peer `node2:2`");
    let first = parse_peer("node2:first:http://x").expect_err("no number");
    assert_eq!(first.because, "`first` is not a rollout position");
    assert_eq!(first.stage, Stage::Observe);
}

#[test]
fn a_list_of_peers_is_read_whole_or_not_at_all() {
    let peers = parse_peers("node2:2:http://b, node1:3:http://a").expect("two peers");
    let names: Vec<&str> = peers.iter().map(|p| p.name.as_str()).collect();
    assert_eq!(names, ["node2", "node1"]);
    assert!(parse_peers("").expect("none").is_empty());
    let error = parse_peers("node2:2:http://b,node1,node3:x:y").expect_err("the second");
    assert_eq!(error.attempted, "parse peer `node1`");
}

#[test]
fn a_command_is_read_for_its_value() {
    let read = |answer| read_command(Stage::Observe, "bootc status --json", answer, "no digest");
    assert_eq!(read(Ok(Some("sha256:0000".to_string()))), Ok("sha256:0000".to_string()));
    assert_eq!(read(Ok(None)).expect_err("missing").because, "no digest");
    let not_run = read(Err("no such file".to_string())).expect_err("not run");
    assert_eq!(
        (not_run.attempted.as_str(), not_run.because.as_str()),
        ("bootc status --json", "no such file")
    );
}

#[test]
fn an_observation_names_this_node() {
    let o = observed(
        None,
        Some("two".to_string()),
        OLD.to_string(),
        NEW.to_string(),
        vec!["sha256:2222".to_string()],
        Vec::new(),
    );
    assert_eq!((o.node.as_str(), o.position), ("unknown", 0));
    assert_eq!((o.booted.as_str(), o.target.as_str()), (OLD, NEW));
    assert_eq!(o.quarantined, ["sha256:2222"]);
    assert_eq!(
        observed(Some("node2".to_string()), Some("2".to_string()), String::new(), String::new(), Vec::new(), Vec::new())
            .position,
        2
    );
}

/// The rendered list names the whole fleet: what the node says of itself is no
/// reason to wait.
#[test]
fn a_node_does_not_wait_for_itself() {
    let seen = |own: Option<State>| {
        let mut itself = peer("node3", 1, OLD);
        itself.state = own;
        observed(
            Some("node3".to_string()),
            Some("1".to_string()),
            OLD.to_string(),
            NEW.to_string(),
            Vec::new(),
            vec![peer("node1", 3, OLD), itself, peer("node2", 2, OLD)],
        )
    };
    for own in [Some(State::Idle), Some(State::Draining), None] {
        let o = seen(own);
        let names: Vec<&str> = o.peers.iter().map(|p| p.name.as_str()).collect();
        assert_eq!(names, ["node1", "node2"]);
        assert_eq!(admits(&o), Decision::Apply);
    }
    assert_eq!(
        advance(
            Phase::Rechecking(NEW.to_string()),
            Event::Observed(seen(Some(State::Draining)))
        ),
        Next::Do(Phase::Committing, Task::Publish(State::Updating))
    );
}

#[test]
fn a_peer_that_does_not_answer_is_unknown() {
    let silent = peer_report("node2", 2, None);
    assert_eq!(silent, PeerReport::unknown("node2", 2));
    let said = peer_report(
        "node2",
        2,
        Some(Report {
            healthy: true,
            booted: OLD.to_string(),
            state: State::Idle,
        }),
    );
    assert_eq!(said, peer("node2", 2, OLD));
}

/// The list is read out of the control plane's JSON.
#[test]
fn quarantined_digests_are_read() {
    let document = br#"{"state":"idle","quarantined":["sha256:aa",7,"sha256:bb"]}"#;
    assert_eq!(quarantined(document), ["sha256:aa", "sha256:bb"]);
    assert!(quarantined(br#"{"quarantined":"sha256:aa"}"#).is_empty());
    assert!(quarantined(br#"["sha256:aa"]"#).is_empty());
    assert!(quarantined(b"<html>").is_empty());
    assert!(quarantined(b"").is_empty());
}

fn settings() -> Settings {
    Settings {
        node: Some("node2".to_string()),
        registries: Some("10.10.255.1:5000, ghcr.io".to_string()),
        image: Some("afflom/cluster/node".to_string()),
        tag: None,
        state_path: None,
        control_plane: Some("http://10.10.255.1:8080".to_string()),
    }
}

fn applier() -> SystemApplier {
    applier_from_environment(settings()).expect("the node is named")
}

#[test]
fn an_applier_is_made_from_settings() {
    let a = applier();
    assert_eq!(a.registries, ["10.10.255.1:5000", "ghcr.io"]);
    assert_eq!(a.tag, "stable");
    assert_eq!(a.state_path, "/var/lib/cluster/rollout-state");

    let mut unnamed = settings();
    unnamed.node = None;
    let error = applier_from_environment(unnamed).expect_err("no name");
    assert_eq!(error.attempted, "read $CLUSTER_NODE");
}

#[test]
fn commands_name_the_image_and_the_node() {
    let a = applier();
    assert_eq!(
        a.resolve_arguments("ghcr.io"),
        ["inspect", "--format", "{{.Digest}}", "docker://ghcr.io/afflom/cluster/node:stable"]
    );
    assert_eq!(
        a.verify_arguments(NEW)[3],
        "docker://afflom/cluster/node@sha256:1111"
    );
    assert_eq!(
        a.drain_arguments(60),
        [
            "--silent", "--show-error", "--fail", "--max-time", "60", "--request", "POST",
            "http://10.10.255.1:8080/api/nodes/node2/drain",
        ]
    );
    let quarantine = a.quarantine_arguments(NEW);
    assert_eq!(quarantine[10], r#"{"digest":"sha256:1111","node":"node2"}"#);
    assert_eq!(
        a.rollout_arguments(),
        ["--silent", "--fail", "--max-time", "5", "http://10.10.255.1:8080/api/rollout"]
    );
    assert_eq!(
        health_arguments(None, "http://x"),
        ["--silent", "--fail", "--max-time", "5", "http://x"]
    );
    assert_eq!(health_arguments(Some("9".to_string()), "http://x")[3], "9");
}

/// The first registry that answers decides, and silence everywhere is an error.
#[test]
fn the_first_answer_is_the_target() {
    let a = applier();
    let answered = vec![
        Ended::NotRun("no route".to_string()),
        Ended::Well("sha256:1111\n".to_string()),
    ];
    assert_eq!(a.resolve_target(&answered), Ok("sha256:1111".to_string()));

    let silent = vec![
        Ended::Badly("timeout\n".to_string()),
        Ended::Well(" \n".to_string()),
    ];
    let error = a.resolve_target(&silent).expect_err("no registry answered");
    assert_eq!(error.stage, Stage::Resolve);
    assert_eq!(
        error.attempted,
        r#"resolve afflom/cluster/node:stable from ["10.10.255.1:5000", "ghcr.io"]"#
    );
    assert_eq!(
        error.because,
        "10.10.255.1:5000/afflom/cluster/node:stable: timeout; \
         ghcr.io/afflom/cluster/node:stable: answered with an empty digest"
    );
}

#[test]
fn each_stage_says_how_it_failed() {
    let a = applier();
    let bad = Ended::Badly("refused \n".to_string());
    let not = Ended::NotRun("no such file".to_string());
    let well = Ended::Well(String::new());

    assert_eq!(a.verified(NEW, &well), Ok(()));
    let verify = a.verified(NEW, &bad).expect_err("refused");
    assert_eq!(verify.stage, Stage::Verify);
    assert!(verify.because.starts_with("refused. The policy"));
    assert_eq!(a.verified(NEW, &not).expect_err("not run").because, "no such file");

    assert_eq!(a.drained(&well), Ok(Decision::Apply));
    assert!(a.drained(&bad).expect("a halt").halts(), "a drain that fails is a halt");
    assert_eq!(a.drained(&not).expect_err("not run").stage, Stage::Drain);

    assert_eq!(a.quarantine_recorded(NEW, &well), Ok(()));
    let kept = a.quarantine_recorded(NEW, &bad).expect_err("refused");
    assert_eq!((kept.stage, kept.attempted.as_str()), (Stage::Quarantine, "quarantine sha256:1111"));

    assert_eq!(a.upgraded(&well), Ok(()));
    let upgrade = a.upgraded(&bad).expect_err("refused");
    assert_eq!((upgrade.stage, upgrade.because.as_str()), (Stage::Apply, "refused"));

    assert_eq!(a.rebooted(&well), Ok(()));
    assert_eq!(a.rebooted(&bad), Ok(()));
    assert_eq!(a.rebooted(&not).expect_err("not run").attempted, "systemctl reboot");

    let unpublished = a.unpublished(State::Idle, "read-only".to_string());
    assert_eq!(
        unpublished.to_text(),
        "observe: `publish state `idle` to /var/lib/cluster/rollout-state` did not complete: read-only"
    );
}

fn admitted() -> Observation {
    observation("node3", 1, OLD, vec![peer("node2", 2, OLD), peer("node1", 3, OLD)])
}

/// From resolving to the upgrade, every step in its order.
#[test]
fn a_run_comes_to_the_upgrade() {
    let (phase, task) = begin();
    assert_eq!((phase, task), (Phase::Resolving, Task::Resolve));
    assert_eq!(
        advance(Phase::Resolving, Event::Resolved(NEW.to_string())),
        Next::Do(Phase::Observing(NEW.to_string()), Task::Observe(NEW.to_string()))
    );
    assert_eq!(
        advance(Phase::Observing(NEW.to_string()), Event::Observed(admitted())),
        Next::Do(Phase::Verifying(NEW.to_string()), Task::Verify(NEW.to_string()))
    );
    assert_eq!(
        advance(Phase::Verifying(NEW.to_string()), Event::Did),
        Next::Do(Phase::Announcing(NEW.to_string()), Task::Publish(State::Draining))
    );
    assert_eq!(
        advance(Phase::Announcing(NEW.to_string()), Event::Did),
        Next::Do(Phase::Draining(NEW.to_string()), Task::Drain)
    );
    assert_eq!(
        advance(Phase::Draining(NEW.to_string()), Event::Drained(Decision::Apply)),
        Next::Do(Phase::Rechecking(NEW.to_string()), Task::Observe(NEW.to_string()))
    );
    assert_eq!(
        advance(Phase::Rechecking(NEW.to_string()), Event::Observed(admitted())),
        Next::Do(Phase::Committing, Task::Publish(State::Updating))
    );
    assert_eq!(
        advance(Phase::Committing, Event::Did),
        Next::Do(Phase::Upgrading, Task::Upgrade)
    );
    assert_eq!(
        advance(Phase::Upgrading, Event::Did),
        Next::Done(Ok(Decision::Apply))
    );
}

/// A peer that turned unhealthy during the drain stops the run, and the node
/// says that it is idle again.
#[test]
fn a_run_withdraws_when_it_is_no_longer_admitted() {
    let mut later = admitted();
    later.peers[0].healthy = Some(false);
    match advance(Phase::Rechecking(NEW.to_string()), Event::Observed(later)) {
        Next::Do(Phase::Withdrawing(decision), Task::Publish(State::Idle)) => {
            assert!(decision.halts());
            let text = decision.to_text();
            match advance(Phase::Withdrawing(decision), Event::Did) {
                Next::Done(Ok(end)) => assert_eq!(end.to_text(), text),
                other => panic!("{other:?}"),
            }
        }
        other => panic!("{other:?}"),
    }

    let halt = Decision::Halt("the drain did not complete".to_string());
    match advance(Phase::Draining(NEW.to_string()), Event::Drained(halt)) {
        Next::Do(Phase::Withdrawing(decision), Task::Publish(State::Idle)) => {
            assert!(decision.halts())
        }
        other => panic!("{other:?}"),
    }
}

#[test]
fn a_node_that_is_not_admitted_does_nothing() {
    let done = observation("node3", 1, NEW, Vec::new());
    assert_eq!(
        advance(Phase::Observing(NEW.to_string()), Event::Observed(done)),
        Next::Done(Ok(Decision::UpToDate))
    );
}

#[test]
fn a_run_ends_with_its_code() {
    let failed = RolloutError {
        stage: Stage::Verify,
        attempted: "verify".to_string(),
        because: "unsigned".to_string(),
    };
    match advance(Phase::Verifying(NEW.to_string()), Event::Failed(failed)) {
        Next::Done(result) => assert_eq!(exit_code(&result), 2),
        other => panic!("{other:?}"),
    }
    assert_eq!(exit_code(&Ok(Decision::Halt("why".to_string()))), 1);
    assert_eq!(exit_code(&Ok(Decision::Wait("why".to_string()))), 0);
    assert_eq!(exit_code(&Ok(Decision::UpToDate)), 0);
    assert_eq!(exit_code(&Ok(Decision::Apply)), 0);
}

/// What is stopped for the cap would exceed it beside what moves.
#[test]
fn what_is_stopped_would_not_fit() {
    let workloads = vec![
        devcontainer("a", 8, 10),
        devcontainer("b", 6, 20),
        devcontainer("c", 4, 30),
        devcontainer("d", 1, 40),
    ];
    let plan = plan(&workloads, &capacity());
    assert_eq!(plan.migrating_memory_gib(), 12);
    let stopped: Vec<&str> = plan
        .stopping()
        .iter()
        .map(|s| s.workload.id.as_str())
        .collect();
    assert_eq!(stopped, vec!["b", "d"]);
    for step in plan.stopping() {
        assert!(plan.migrating_memory_gib() + step.workload.memory_gib > 12);
    }
}

/// The booted digest is read from where the status document holds it.
#[test]
fn the_booted_digest_is_read_from_the_status_document() {
    let status = r#"{"status": {"booted": {"image": {"imageDigest": "sha256:abcd"}}}}"#;
    assert_eq!(booted_digest_from(status), Some("sha256:abcd".to_string()));
    assert_eq!(booted_digest_from(r#"{"status": {"booted": null}}"#), None);
    assert_eq!(
        booted_digest_from(r#"{"status": {"booted": {"image": {"imageDigest": 7}}}}"#),
        None
    );
    assert_eq!(booted_digest_from("no document"), None);
    assert_eq!(booted_digest_from(""), None);
}
