//! A fleet of three, checked and rendered.

use devcluster::cluster::{
    ClusterFile, Detection, Disk, Firmware, Fleet, GithubApp, Identity, Machine, Macs, NodeStorage,
    Partition, Profile, Role, RoleDevices,
};
use devcluster::images::{
    Base, BaseContent, ImagesFile, Isolation, Mount, Quadlet, QuadletMount, Registries, Runner,
    Runtime, Selinux, Signing, Sshd, Upstream, Variant,
};
use devcluster::model::{Cluster, ClusterError, SPEC};
use devcluster::network::{
    Addressing, Class, Discovery, Firewall, FirewallRule, Hosts, NetworkFile, Routing, Topology,
};
use devcluster::policy::{
    Alert, Auth, Drain, DrainBudget, Gc, Greenboot, Health, PolicyFile, Reclaim, Rollout, Secret,
    Tunnel,
};
use devcluster::registry::{IdRow, Ids, Tier};
use devcluster::render::kickstart::retired_placeholders;
use devcluster::render::networkd::machine_units;
use devcluster::render::ready::is_renderable;
use devcluster::render::{render_all, Rendered, ASSERTED_BY, GENERATED_MARKER, TREE_CLAIM};
use devcluster::tasks::tree::check_render;
use devcluster::tasks::wiring::{
    called_endpoints, callers_of, check_wiring, copy_destinations, copy_sources, declares_fields,
    invoked_paths, reading_code_of,
    normalise_route, serves, Repository, Source,
};

fn s(text: &str) -> String {
    text.to_string()
}

fn list(texts: &[&str]) -> Vec<String> {
    texts.iter().map(|t| t.to_string()).collect()
}

fn role(id: &str, detect: &str, ordinal: Option<u32>, order: Option<u32>, position: u32) -> Role {
    Role {
        id: s(id),
        detect: s(detect),
        ordinal,
        assign_order: order,
        update_position: position,
        devices: RoleDevices {
            container_graph_device: None,
            bench_device: None,
            volume_group: None,
            origin_lv: None,
            cache_device: None,
            cache_partition_gib: None,
        },
    }
}

fn cluster_file() -> ClusterFile {
    let mut storage = role("storage", "bulk-disk", Some(1), None, 3);
    storage.devices.volume_group = Some(s("vg_data"));
    storage.devices.origin_lv = Some(s("lv_data"));
    storage.devices.cache_partition_gib = Some(64);
    let mut devcontainer = role("devcontainer", "assigned", None, Some(1), 2);
    devcontainer.devices.container_graph_device = Some(s("sata-ssd"));
    let mut measurement = role("measurement", "assigned", None, Some(2), 1);
    measurement.devices.bench_device = Some(s("sata-ssd"));
    ClusterFile {
        spec: s(SPEC),
        domain: s("cluster.internal"),
        tailnet: s("afflom"),
        magic_dns_suffix: s("ts.net"),
        authorized_logins: list(&["operator", "deputy"]),
        github_app: GithubApp {
            client_id: s("Iv1.0123456789abcdef"),
            scopes: list(&["read:user"]),
            device_code_url: s("https://github.com/login/device/code"),
            token_url: s("https://github.com/login/oauth/access_token"),
            user_url: s("https://api.github.com/user"),
        },
        fleet: Fleet {
            size: 3,
            name_template: s("node{ordinal}.{domain}"),
            entry_name: s("cluster"),
        },
        role: vec![storage, devcontainer, measurement],
        detection: Detection {
            bulk_disk_min_gb: 1000,
        },
        identity: Identity {
            source: s("/sys/class/dmi/id/product_uuid"),
        },
        profile: Profile {
            id: s("xeon-d"),
            chassis: s("SYS-5018D"),
            board: s("X10SDV"),
            cpu: s("Xeon D-1518"),
            cores: 4,
            threads: 8,
            base_mhz: 2200,
            max_mhz: 2200,
            tdp_watts: 35,
            avx512: false,
            memory_gb: 32,
            memory_slots: 4,
            memory_ceiling_gb: 128,
            nic_10g: 2,
            nic_1g: 2,
            ipmi: true,
        },
        machine: vec![machine("node1", 3), machine("node2", 2), machine("node3", 1)],
        disk: vec![
            Disk { id: s("nvme"), kind: s("nvme"), size_gb: 256, purpose: s("boot") },
            Disk { id: s("sata-ssd"), kind: s("ssd"), size_gb: 480, purpose: s("local") },
            Disk { id: s("sata-hdd"), kind: s("hdd"), size_gb: 2000, purpose: s("data") },
        ],
        partition: vec![
            Partition { id: s("p1"), size: s("1GiB"), format: s("vfat"), mount: s("/boot/efi") },
            Partition { id: s("p2"), size: s("512MiB"), format: s("ext4"), mount: s("/boot") },
            Partition { id: s("p3"), size: s("remainder"), format: s("xfs"), mount: s("/") },
        ],
        firmware: vec![Firmware {
            setting: s("VT-x"),
            value: s("enabled"),
            probe: s("grep -c vmx /proc/cpuinfo"),
            reason: s("the guests of the second tier need it"),
        }],
    }
}

fn machine(name: &str, position: u32) -> Machine {
    Machine {
        name: s(name),
        role: s("storage"),
        profile: s("xeon-d"),
        update_position: position,
        loopback: s("10.10.255.1"),
        mgmt_address: s("192.168.1.11/24"),
        bmc_address: s("192.168.1.21/24"),
        power_on_delay_s: 10,
        mac: Macs {
            mgmt: s("02:00:00:00:00:01"),
            mesh_a: s("02:00:00:00:00:02"),
            mesh_b: s("02:00:00:00:00:03"),
            bmc: s("02:00:00:00:00:04"),
        },
        storage: NodeStorage {
            cache_device: None,
            cache_partition_gib: None,
            volume_group: None,
            origin_lv: None,
            container_graph_device: None,
            bench_device: None,
        },
        disk: Vec::new(),
    }
}

fn rule(plane: &str, protocol: &str, port: u16, source: &str, roles: &[&str], comment: &str) -> FirewallRule {
    FirewallRule {
        plane: s(plane),
        protocol: s(protocol),
        port,
        source: s(source),
        roles: list(roles),
        comment: s(comment),
    }
}

fn network_file() -> NetworkFile {
    NetworkFile {
        spec: s(SPEC),
        lan_prefix: s("192.168.1.0/24"),
        class: vec![
            Class {
                id: s("mesh"),
                min_speed_mbps: 10_000,
                count: 2,
                mtu: 9000,
                addressing: s("derived"),
                description: s("one cable to each peer"),
            },
            Class {
                id: s("lan"),
                min_speed_mbps: 1000,
                count: 1,
                mtu: 1500,
                addressing: s("dhcp"),
                description: s("the management plane"),
            },
        ],
        topology: Topology {
            kind: s("direct-triangle"),
            max_nodes: 3,
        },
        addressing: Addressing {
            loopback_base: s("10.10.255.0"),
            loopback_prefix_len: 32,
            link_base: s("10.10.0.0"),
            link_prefix_len: 31,
        },
        routing: Routing {
            ip_forward: true,
            direct_metric: 100,
            transit_metric: 200,
        },
        discovery: Discovery {
            group: s("ff02::6c75"),
            port: 7946,
            interval_ms: 500,
            timeout_s: 60,
        },
        firewall: Firewall {
            input_policy: s("drop"),
            forward_policy: s("drop"),
            output_policy: s("accept"),
            rule: vec![
                rule("lo", "any", 0, "any", &[], "the loopback talks to itself"),
                rule("mesh", "any", 0, "mesh", &[], "the mesh is a closed segment"),
                rule("lan", "tcp", 22, "lan", &[], "an operator on the LAN"),
                rule("lan", "icmp", 0, "lan", &[], "a reachability probe"),
                rule("tailscale", "tcp", 443, "tailnet", &["storage"], "the published control plane"),
                rule("lan", "tcp", 3000, "lan", &["storage"], "the dashboard"),
            ],
        },
        hosts: Hosts {
            path: s("/etc/hosts"),
            staging_path: s("/etc/.hosts.new"),
        },
    }
}

fn quadlet(name: &str, image: &str, publish: &[&str], mount: Vec<QuadletMount>) -> Quadlet {
    Quadlet {
        name: s(name),
        kind: s("container"),
        image: s(image),
        publish: list(publish),
        network: None,
        description: format!("what {name} is for"),
        arguments: Vec::new(),
        mount,
    }
}

fn mount(source: &str, target: &str, options: &str, relabel: &str) -> QuadletMount {
    QuadletMount {
        source: s(source),
        target: s(target),
        options: s(options),
        relabel: s(relabel),
    }
}

fn variant(id: &str, role: &str) -> Variant {
    Variant {
        id: s(id),
        role: s(role),
        runtime: s("podman-compat"),
        packages: Vec::new(),
        upstream: Vec::new(),
        services: Vec::new(),
        kargs: Vec::new(),
        quadlet: Vec::new(),
        runner: Vec::new(),
        features: Vec::new(),
        mount: Vec::new(),
        isolation: None,
    }
}

fn images_file() -> ImagesFile {
    let mut storage = variant("n1", "storage");
    let mut prometheus = quadlet(
        "prometheus",
        "quay.io/prometheus/prometheus:v3",
        &["{node1.loopback}:9090:9090"],
        vec![
            mount("/etc/prometheus", "/etc/prometheus", "ro", "Z"),
            mount("/var/lib/prometheus", "/prometheus", "rw", "Z"),
        ],
    );
    prometheus.arguments = list(&[
        "--config.file=/etc/prometheus/prometheus.yml",
        "--storage.tsdb.retention.time={policy.prometheus_retention_days}d",
    ]);
    storage.quadlet = vec![
        quadlet(
            "zot",
            "ghcr.io/project-zot/zot:v2",
            &["{node1.loopback}:5000:5000"],
            vec![
                mount("/etc/zot", "/etc/zot", "ro", "Z"),
                mount("/var/lib/registry", "/var/lib/registry", "rw", "z"),
            ],
        ),
        prometheus,
    ];
    let mut devcontainer = variant("n2", "devcontainer");
    devcontainer.services = list(&["devcontainer-agent.service"]);
    devcontainer.features = list(&["ghcr.io/devcontainers/features/sshd:1"]);
    devcontainer.upstream = vec![Upstream {
        name: s("actions-runner"),
        url: s("https://github.com/actions/runner/releases/download/v2/runner.tar.gz"),
        sha256: s("0000"),
        install_dir: s("/usr/lib/actions-runner"),
    }];
    devcontainer.runner = vec![Runner {
        name: s("ci"),
        labels: list(&["self-hosted", "ci"]),
        ephemeral: true,
        concurrency: Some(2),
    }];
    devcontainer.mount = vec![Mount {
        what: s("{node1.loopback}:/srv/devcontainer-home"),
        where_: s("/var/lib/devcontainer-home"),
        fstype: s("nfs4"),
        options: s("hard,noatime"),
    }];
    let mut measurement = variant("n3", "measurement");
    measurement.kargs = list(&["isolcpus=2,3", "nohz_full=2,3", "nosmt"]);
    measurement.runner = vec![Runner {
        name: s("bench"),
        labels: list(&["self-hosted", "bench"]),
        ephemeral: true,
        concurrency: Some(1),
    }];
    measurement.isolation = Some(Isolation {
        isolated_cpus: s("2,3"),
        governor: s("performance"),
        irq_affinity: s("3"),
    });
    let mut exporter = quadlet(
        "node-exporter",
        "quay.io/prometheus/node-exporter:v1",
        &[],
        vec![mount("/", "/host", "ro,rslave", "z")],
    );
    exporter.network = Some(s("host"));
    ImagesFile {
        spec: s(SPEC),
        base: Base {
            image: s("quay.io/fedora/fedora-bootc"),
            tag: s("42"),
            digest: s("sha256:aaaa"),
            amd64_digest: s("sha256:bbbb"),
            architecture: s("amd64"),
            resolved_on: s("2026-01-01"),
            reason: s("bootc, and no cloud agent"),
            content: BaseContent {
                packages: list(&["podman", "nftables"]),
                binaries: list(&["cluster-updater"]),
                kargs: list(&["console=ttyS1,115200", "mitigations=auto"]),
            },
            sshd: Sshd {
                password_authentication: false,
                permit_root_login: s("prohibit-password"),
                kbd_interactive_authentication: false,
            },
            selinux: Selinux {
                mode: s("enforcing"),
                policy_type: s("targeted"),
                module: s("cluster"),
                compile_at: s("build"),
            },
            quadlet: vec![exporter],
        },
        signing: Signing {
            issuer: s("https://token.actions.githubusercontent.com"),
            repository: s("afflom/cluster"),
            workflow: s(".github/workflows/promote.yml"),
            ref_: s("refs/heads/main"),
            transparency_log: s("https://rekor.sigstore.dev"),
        },
        registries: Registries {
            port: 5000,
            fallbacks: list(&["quay.io", "docker.io"]),
        },
        runtime: vec![
            Runtime {
                id: s("podman-compat"),
                packages: list(&["podman-docker"]),
                socket_unit: s("podman.socket"),
                docker_host: s("unix:///run/podman/podman.sock"),
                description: s("podman behind the other API"),
            },
            Runtime {
                id: s("docker"),
                packages: list(&["moby-engine"]),
                socket_unit: s("docker.socket"),
                docker_host: s("unix:///run/docker.sock"),
                description: s("the engine itself"),
            },
        ],
        default_runtime: s("podman-compat"),
        variant: vec![storage, devcontainer, measurement],
    }
}

fn budget(class: &str, budget_s: u64, total: Option<u64>, on_exceed: &str) -> DrainBudget {
    DrainBudget {
        class: s(class),
        budget_s,
        total_budget_s: total,
        on_exceed: s(on_exceed),
        comment: s("why it is what it is"),
    }
}

fn alert(id: &str, condition: &str, for_s: u64, severity: &str) -> Alert {
    Alert {
        id: s(id),
        condition: s(condition),
        for_s,
        severity: s(severity),
    }
}

fn secret(id: &str, path: &str, mode: &str, apply: &str, format: &str, registry: &str) -> Secret {
    Secret {
        id: s(id),
        description: s("what an operator enters"),
        path: s(path),
        mode: s(mode),
        apply: s(apply),
        format: s(format),
        registry: s(registry),
        enables: s("what waits for it"),
    }
}

fn policy_file() -> PolicyFile {
    PolicyFile {
        spec: s(SPEC),
        rollout: Rollout {
            poll_interval_s: 300,
            poll_jitter_max_s: 120,
            recheck_before_apply_s: 5,
            peer_health_timeout_s: 4,
            peer_health_port: 9440,
            registries: list(&["10.10.255.1:5000", "ghcr.io"]),
            image_repository: s("afflom/cluster"),
            stable_tag: s("stable"),
        },
        greenboot: Greenboot {
            deadline_s: 600,
            check_path: s("/usr/lib/greenboot/check/required.d/10-cluster-health.sh"),
            max_boot_attempts: 3,
        },
        drain_budget: vec![
            budget("bench-job", 14_400, None, "halt"),
            budget("devcontainer-migration", 300, Some(1800), "stop-with-notice"),
            budget("total", 21_600, None, "halt"),
        ],
        drain: Drain {
            migration_memory_cap_gib: 12,
            migration_target: s("storage"),
            never_receives: list(&["measurement"]),
            container_stop_grace_s: 30,
        },
        reclaim: Reclaim {
            notify_after_days: 14,
            archive_after_days: 30,
            purge_after_days: 90,
            purge_dirty: false,
            schedule: s("*-*-* 03:00:00"),
            suspend_during_rollout: true,
            snapshot_tool: s("restic"),
            snapshot_repository: s("/srv/snapshots"),
        },
        gc: Gc {
            schedule: s("weekly"),
            container_image_max_age_h: 168,
            registry_untagged_max_age_days: 14,
            journald_max_use: s("2G"),
            prometheus_retention_days: 30,
            ostree_deployments_retained: 2,
            measurement_output_pruned: false,
        },
        alert: vec![
            alert("node-down", "a node stops answering", 300, "critical"),
            alert("digest-drift", "a node runs \"another\" digest", 0, "warning"),
            alert("split-version", "two digests for two hours", 7200, "critical"),
            alert("clock", "the clock drifts", 600, "warning"),
        ],
        auth: Auth {
            token_cache_ttl_s: 300,
            validation_timeout_s: 5,
            allowed_origin: s("https://afflom.github.io"),
        },
        tunnel: Tunnel {
            restart_backoff_initial_s: 1,
            restart_backoff_max_s: 60,
            name_prefix: s("dc-"),
            url_template: s("https://vscode.dev/tunnel/{name}/{folder}"),
            default_port_visibility: s("private"),
        },
        health: Health {
            port: 9440,
            mesh_mtu_probe_bytes: 8972,
            chrony_max_offset_ms: 100,
        },
        secret: vec![
            secret("ssh_authorized_key", "/etc/ssh/authorized_keys.d/root", "0600", "none", "raw", ""),
            secret("registry_pull_token", "/etc/ostree/auth.json", "0600", "none", "docker-auth", "ghcr.io"),
            secret("tailnet_auth_key", "", "", "tailscale-up", "raw", ""),
            secret("runner_pat", "/etc/cluster/runner-pat", "0600", "none", "raw", ""),
        ],
    }
}

/// A fleet of three: storage, devcontainers, measurement.
fn fleet() -> Cluster {
    Cluster {
        cluster: cluster_file(),
        network: network_file(),
        images: images_file(),
        policy: policy_file(),
    }
}


fn model() -> Cluster {
    let c = fleet();
    c.check().expect("the cluster model is consistent");
    assert!(is_renderable(&c));
    c
}

fn rendered() -> Vec<Rendered> {
    let files = render_all(&model());
    assert!(!files.is_empty(), "the model must render something");
    files
}

/// A machine sorts its own ports by speed, and the tree names no card.
#[test]
fn ports_are_classified_by_speed_and_no_mac_is_rendered_cd_01() {
    let c = model();
    let files = rendered();

    for file in &files {
        assert!(
            !file.body.contains("MACAddress="),
            "{}: a MAC address is a fact about a card, not about this cluster",
            file.path
        );
    }

    let policy = files
        .iter()
        .find(|f| f.path.ends_with("init.conf"))
        .expect("the network policy is rendered");
    let mesh = c.network.mesh_class().expect("a mesh class is declared");
    let lan = c.network.lan_class().expect("a lan class is declared");
    for expected in [
        format!("mesh_min_speed_mbps={}", mesh.min_speed_mbps),
        format!("mesh_count={}", mesh.count),
        format!("mesh_mtu={}", mesh.mtu),
        format!("lan_min_speed_mbps={}", lan.min_speed_mbps),
        format!("lan_addressing={}", lan.addressing),
    ] {
        assert!(
            policy.body.contains(&expected),
            "the rendered policy must carry `{expected}`, or cluster-init would need its own copy of it"
        );
    }

    assert!(mesh.min_speed_mbps > lan.min_speed_mbps);
    assert_eq!(lan.addressing, "dhcp");
}

/// The metrics and the address bases come from the model.
#[test]
fn the_routing_policy_is_rendered_not_compiled_in_cd_02() {
    let c = model();
    let files = rendered();

    let policy = files
        .iter()
        .find(|f| f.path.ends_with("init.conf"))
        .expect("the network policy is rendered");

    for expected in [
        format!("direct_metric={}", c.network.routing.direct_metric),
        format!("transit_metric={}", c.network.routing.transit_metric),
        format!("loopback_base={}", c.network.addressing.loopback_base),
        format!("link_base={}", c.network.addressing.link_base),
        format!("fleet_size={}", c.cluster.fleet.size),
    ] {
        assert!(
            policy.body.contains(&expected),
            "the rendered policy must carry `{expected}`: a metric compiled into a binary and also written in the model is two sources for one number"
        );
    }

    assert!(c.network.routing.direct_metric < c.network.routing.transit_metric);

    let sysctl = files
        .iter()
        .find(|f| f.path.ends_with("sysctl.d/90-cluster.conf"))
        .expect("the sysctl fragment is rendered");
    assert!(sysctl.body.contains("net.ipv4.ip_forward=1"));
}

/// Default drop, the declared accepts, and forwarding for the mesh alone.
#[test]
fn the_firewall_drops_by_default_cd_03() {
    let c = model();
    let files = rendered();

    for node in &c.nodes() {
        let nft = files
            .iter()
            .find(|f| f.path == "node/nftables.conf")
            .expect("every node renders a packet filter");

        assert!(
            nft.body
                .contains("hook input priority filter; policy drop;"),
            "{}: the input chain must default to drop",
            node.name
        );

        let accepts = nft.body.matches("accept").count();
        let declared = c
            .network
            .firewall
            .rule
            .iter()
            .filter(|r| r.applies_to(&node.name))
            .count();
        assert!(
            accepts >= declared,
            "{}: {declared} rules declared, {accepts} accepts rendered",
            node.name
        );
        for rule in c
            .network
            .firewall
            .rule
            .iter()
            .filter(|r| r.applies_to(&node.name))
        {
            assert!(
                nft.body.contains(&rule.comment),
                "{}: rule `{}` is declared but not rendered",
                node.name,
                rule.comment
            );
        }
        for rule in c
            .network
            .firewall
            .rule
            .iter()
            .filter(|r| !r.applies_to(&node.name))
        {
            assert!(
                !nft.body.contains(&rule.comment),
                "{}: rule `{}` is restricted to {:?} and must not render here",
                node.name,
                rule.comment,
                rule.roles
            );
        }

        assert!(
            nft.body.contains("ip saddr @mesh ip daddr @mesh accept"),
            "{}: forwarding must require both ends to be mesh addresses",
            node.name
        );
    }
}

/// Every ordinal has its name in the hosts file, and nothing else has.
#[test]
fn names_resolve_from_the_ordinals_cd_04() {
    let c = model();
    let files = rendered();

    let hosts = files
        .iter()
        .find(|f| f.path == "node/hosts")
        .expect("the hosts file is rendered");

    for node in &c.nodes() {
        let entry = format!("{}\t{}\t{}", node.loopback, node.fqdn, node.name);
        assert!(
            hosts.body.contains(&entry),
            "missing `{entry}`; the hosts file must carry every ordinal"
        );
    }

    let storage = c
        .node_with_role(&c.policy.drain.migration_target)
        .expect("one ordinal holds the storage role");
    let entry = format!("{}\t{}", storage.loopback, c.cluster.fleet.entry_name);
    assert!(
        hosts.body.contains(&entry),
        "missing `{entry}`; a client that knows only the cluster name must find the control plane from it"
    );

    for line in hosts.body.lines() {
        let line = line.trim();
        if line.is_empty() || line.starts_with('#') {
            continue;
        }
        for name in line.split_whitespace().skip(1) {
            let known = name.starts_with("localhost")
                || name == c.cluster.fleet.entry_name
                || c.nodes().iter().any(|n| name == n.name || name == n.fqdn);
            assert!(known, "`{name}` is not a name this fleet derives");
        }
    }
}

/// Every volume line ends in its relabel.
#[test]
fn every_volume_mount_carries_its_relabel_cd_05() {
    let c = model();
    let files = rendered();
    let mut checked = 0usize;

    for node in &c.nodes() {
        let variant = c
            .images
            .variant_for(&node.role)
            .expect("the model check requires a variant per role");
        for quadlet in variant.all_quadlets(&c.images.base) {
            let unit = files
                .iter()
                .find(|f| {
                    f.path == format!("node/containers-systemd/{}.{}", quadlet.name, quadlet.kind)
                })
                .unwrap_or_else(|| panic!("{}: {} was not rendered", node.name, quadlet.name));
            for mount in &quadlet.mount {
                let expected = format!("Volume={}", mount.volume_line());
                assert!(
                    unit.body.contains(&expected),
                    "{}/{}: expected `{expected}`",
                    node.name,
                    quadlet.name
                );
                assert!(
                    expected.ends_with(",Z") || expected.ends_with(",z"),
                    "{}/{}: `{expected}` carries no SELinux relabel",
                    node.name,
                    quadlet.name
                );
                checked += 1;
            }
        }
    }
    assert!(checked > 0, "no volume mounts were checked");
}

/// The base arguments isolate nothing; one role's do.
#[test]
fn isolation_is_a_role_karg_and_never_a_base_one_cd_06() {
    let c = model();
    let files = rendered();
    let base = &c.images.base;

    let kargs = files
        .iter()
        .find(|f| f.path == "node/kargs.d/10-cluster.toml")
        .expect("the base kernel arguments are rendered");

    for karg in &base.content.kargs {
        assert!(
            kargs.body.contains(&format!("\"{karg}\"")),
            "missing base kernel argument `{karg}`"
        );
    }

    let declared: Vec<&str> = kargs
        .body
        .lines()
        .filter_map(|l| l.trim().strip_prefix('"'))
        .filter_map(|l| l.strip_suffix("\","))
        .collect();
    assert!(!declared.is_empty(), "no kernel arguments were parsed");
    for forbidden in ["isolcpus=", "nohz_full=", "nosmt"] {
        assert!(
            !declared
                .iter()
                .any(|k| k.starts_with(forbidden) || *k == forbidden),
            "the base kernel arguments carry `{forbidden}`, which would isolate the storage node's cores too"
        );
    }

    let mut isolated = Vec::new();
    for role in &c.cluster.role {
        let file = files
            .iter()
            .find(|f| f.path == format!("node/role-kargs-{}.conf", role.id))
            .unwrap_or_else(|| panic!("`{}` renders no kernel-argument set", role.id));
        let variant = c
            .images
            .variant_for(&role.id)
            .expect("the model check requires a variant per role");
        match &variant.isolation {
            Some(isolation) => {
                isolated.push(role.id.clone());
                assert!(
                    file.body
                        .contains(&format!("isolcpus={}", isolation.isolated_cpus)),
                    "`{}`: isolcpus must name the CPUs the variant declares",
                    role.id
                );
                assert!(file.body.contains("nosmt"), "`{}`: nosmt", role.id);
            }
            None => assert!(
                !file.body.contains("isolcpus="),
                "`{}` declares no isolation but renders isolcpus",
                role.id
            ),
        }
    }
    assert_eq!(
        isolated.len(),
        1,
        "measurement is one role's job; {isolated:?} are isolated"
    );
}

/// The declared layout, and no credential in any shape.
#[test]
fn the_kickstart_carries_no_secret_cd_07() {
    let c = model();
    let files = rendered();

    for node in &c.nodes() {
        let ks = files
            .iter()
            .find(|f| f.path == "bootstrap/node.ks")
            .expect("the kickstart is rendered");

        for partition in &c.cluster.partition {
            assert!(
                ks.body.contains(&format!("part {} ", partition.mount)),
                "{}: partition {} is declared but not rendered",
                node.name,
                partition.mount
            );
        }

        for placeholder in retired_placeholders() {
            assert!(
                !ks.body.contains(placeholder),
                "{}: {placeholder} is retired and must not come back",
                node.name
            );
        }
        for forbidden in ["auth.json", "authorized_keys", "--auth-key"] {
            assert!(
                !ks.body.contains(forbidden),
                "{}: the kickstart mentions `{forbidden}`; a node installs unenrolled",
                node.name
            );
        }

        for (n, line) in ks.body.lines().enumerate() {
            for marker in [
                "-----BEGIN",
                "ssh-rsa ",
                "ssh-ed25519 ",
                "ghp_",
                "github_pat_",
                "tskey-",
            ] {
                assert!(
                    !line.contains(marker),
                    "{}:{}: `{marker}` --- a secret value, not a placeholder",
                    node.name,
                    n + 1
                );
            }
        }
    }
}

/// The timers, budgets and deadlines are those of the policy.
#[test]
fn unattended_behaviour_is_rendered_from_policy_cd_08() {
    let c = model();
    let files = rendered();
    let p = &c.policy;

    for node in &c.nodes() {
        let unit = |name: &str| -> String {
            files
                .iter()
                .find(|f| f.path == format!("node/systemd/{name}"))
                .unwrap_or_else(|| panic!("{}: {name} was not rendered", node.name))
                .body
                .clone()
        };

        let timer = unit("cluster-updater.timer");
        assert!(timer.contains(&format!("OnUnitActiveSec={}", p.rollout.poll_interval_s)));
        assert!(timer.contains(&format!(
            "RandomizedDelaySec={}",
            p.rollout.poll_jitter_max_s
        )));

        let env = files
            .iter()
            .find(|f| f.path == "node/cluster-updater.env")
            .unwrap_or_else(|| panic!("{}: cluster-updater.env was not rendered", node.name))
            .body
            .clone();

        let service = unit("cluster-updater.service");
        let read = service
            .lines()
            .find_map(|l| l.trim().strip_prefix("EnvironmentFile="))
            .expect("the updater unit reads a rendered environment");
        assert!(
            read.ends_with("/cluster-updater.env") && read.starts_with("/usr/lib/cluster/"),
            "{}: the unit reads {read}, which is not where the rendered environment is shipped",
            node.name
        );
        assert!(
            !env.contains("CLUSTER_UPDATE_POSITION="),
            "the rendered environment must not claim a position: it is the one input the image cannot carry"
        );
        assert!(
            env.contains("/run/cluster/node.env"),
            "the rendered environment must name where the machine's own facts arrive"
        );

        for peer in c.nodes() {
            assert!(
                env.contains(&format!(
                    "{}:{}:http://{}:{}/health",
                    peer.name, peer.update_position, peer.loopback, p.rollout.peer_health_port
                )),
                "{}: no health endpoint for {}",
                node.name,
                peer.name
            );
        }
        for budget in &p.drain_budget {
            let key = budget.class.to_uppercase().replace('-', "_");
            assert!(
                env.contains(&format!("CLUSTER_BUDGET_{key}_S={}", budget.budget_s)),
                "{}: budget {} not rendered",
                node.name,
                budget.class
            );
            assert!(env.contains(&format!(
                "CLUSTER_BUDGET_{key}_ON_EXCEED={}",
                budget.on_exceed
            )));
        }

        let check = files
            .iter()
            .find(|f| f.path.starts_with("node/greenboot/"))
            .expect("every node renders a greenboot check");
        assert!(
            check
                .body
                .contains(&format!("timeout {}s", p.greenboot.deadline_s)),
            "{}: the greenboot check must carry the declared deadline",
            node.name
        );
        assert!(check.body.contains("/api/rollout/quarantine"));

        let health = unit("cluster-health.service");
        assert!(health.contains(&format!("${{CLUSTER_LOOPBACK}}:{}", p.health.port)));
        assert!(health.contains("/run/cluster/node.env"));
    }

    let reclaim: Vec<&Rendered> = files
        .iter()
        .filter(|f| f.path.ends_with("cluster-reclaim.timer"))
        .collect();
    assert_eq!(reclaim.len(), 1, "reclamation is one unit");
    assert!(
        reclaim[0].body.contains(&format!(
            "ConditionPathExists=/run/cluster/role.{}",
            p.drain.migration_target
        )),
        "reclamation must be gated on the role that holds the session database"
    );
}

/// The alias asks the control plane, and falls back to the last known host.
#[test]
fn a_devcontainer_alias_survives_migration_cd_10() {
    let c = model();
    let files = rendered();
    let ssh = files
        .iter()
        .find(|f| f.path == "ssh_config")
        .expect("the client SSH configuration is rendered");

    assert!(ssh.body.contains("Host dc-*"), "no devcontainer alias");

    let control = c
        .node_with_role(&c.policy.drain.migration_target)
        .expect("the model check requires the migration target to be a declared role");
    let host = format!(
        "{}.{}.{}",
        control.name, c.cluster.tailnet, c.cluster.magic_dns_suffix
    );
    assert!(
        ssh.body
            .contains(&format!("http://{host}:8080/api/sessions/")),
        "the alias must resolve the session's current host from the control plane"
    );
    assert!(
        !ssh.body.contains(&control.loopback),
        "a mesh loopback is unreachable from a client, and putting one here would make the alias work only from inside the cluster"
    );

    assert!(
        ssh.body.contains("cluster-sessions"),
        "the alias must fall back to the last known host"
    );

    assert!(ssh.body.contains("PasswordAuthentication no"));
}

/// Reject by default, mesh mirror first, and no placeholder left over.
#[test]
fn trust_and_pull_order_render_from_the_model_cd_11() {
    let c = model();
    let files = rendered();
    let signing = &c.images.signing;

    for node in &c.nodes() {
        let policy = files
            .iter()
            .find(|f| f.path == "node/containers/policy.json")
            .expect("every node renders a signature policy");

        assert!(
            policy
                .body
                .contains("\"default\": [{ \"type\": \"reject\" }]"),
            "{}: the policy must reject by default",
            node.name
        );
        assert!(policy.body.contains(&signing.issuer));
        let identity = signing.certificate_identity();
        assert!(
            policy.body.contains(&identity),
            "{}: the policy must bind the promote workflow, not just the repository",
            node.name
        );
        assert!(identity.contains(&signing.workflow));
        assert!(policy.body.contains("sigstoreSigned"));

        let registries = files
            .iter()
            .find(|f| f.path == "node/containers/registries.conf")
            .expect("every node renders a registry configuration");

        let storage = c
            .node_with_role(&c.policy.drain.migration_target)
            .expect("the migration target is a declared role");
        let local = format!("{}:{}", storage.loopback, c.images.registries.port);
        assert!(registries.body.contains(&local));

        for block in registries.body.split("[[registry]]").skip(1) {
            assert!(
                block.contains(&local),
                "{}: a prefix with no local mirror pulls over WAN even when the mesh has a copy",
                node.name
            );
        }
        for fallback in &c.images.registries.fallbacks {
            assert!(
                registries
                    .body
                    .contains(&format!("prefix = \"{fallback}\"")),
                "{}: {fallback} is declared in the model and not rendered",
                node.name
            );
        }
    }

    for file in &files {
        for node in &c.nodes() {
            for field in ["loopback", "name", "fqdn"] {
                let placeholder = format!("{{{}.{field}}}", node.name);
                assert!(
                    !file.body.contains(&placeholder),
                    "{}: `{placeholder}` reached the rendered tree unsubstituted",
                    file.path
                );
                let short = node
                    .name
                    .split_once('.')
                    .map_or(node.name.as_str(), |(h, _)| h);
                let short_placeholder = format!("{{{short}.{field}}}");
                assert!(
                    !file.body.contains(&short_placeholder),
                    "{}: `{short_placeholder}` reached the rendered tree unsubstituted",
                    file.path
                );
            }
        }
    }

    let zot = files
        .iter()
        .find(|f| f.path.ends_with("containers-systemd/zot.container"))
        .expect("the registry Quadlet is rendered");
    let storage = c
        .node_with_role(&c.policy.drain.migration_target)
        .expect("the migration target is a declared role");
    assert!(zot
        .body
        .contains(&format!("PublishPort={}:5000", storage.loopback)));
}

/// One rule per alert, and no rule without an alert.
#[test]
fn every_declared_alert_renders_as_a_rule_cd_13() {
    let c = model();
    let files = rendered();

    let rules = files
        .iter()
        .find(|f| f.path == "node/prometheus/alerts.yml")
        .expect("the alert rules are rendered");

    assert!(
        !c.policy.alert.is_empty(),
        "the model declares alerts, or this test checks nothing"
    );
    for alert in &c.policy.alert {
        let name: String = alert
            .id
            .split('-')
            .map(|p| {
                let mut chars = p.chars();
                chars
                    .next()
                    .map(|f| f.to_uppercase().collect::<String>() + chars.as_str())
                    .unwrap_or_default()
            })
            .collect();
        assert!(
            rules.body.contains(&format!("- alert: {name}")),
            "{} is declared and renders no rule",
            alert.id
        );
        assert!(
            rules
                .body
                .contains(&format!("severity: {}", alert.severity)),
            "{}: severity",
            alert.id
        );
        if alert.for_s > 0 {
            assert!(
                rules.body.contains(&format!("for: {}s", alert.for_s)),
                "{}: duration",
                alert.id
            );
        }
        assert!(
            rules.body.contains(&alert.condition.replace('"', "'")),
            "{}: condition",
            alert.id
        );
    }

    let rendered_rules = rules.body.matches("- alert:").count();
    assert_eq!(rendered_rules, c.policy.alert.len());
}

/// The registry binds the mesh, mirrors its own and caches the rest.
#[test]
fn the_registry_mirrors_and_caches_as_declared_cs_04() {
    let c = model();
    let files = rendered();
    let storage = c
        .node_with_role(&c.policy.drain.migration_target)
        .expect("the migration target is a declared role");

    let config = files
        .iter()
        .find(|f| f.path == "node/zot/config.json")
        .expect("the registry configuration is rendered");

    assert!(config.body.contains(&format!(
        "\"address\": \"{}\", \"port\": \"{}\"",
        storage.loopback, c.images.registries.port
    )));

    assert!(config.body.contains("\"pollInterval\": \"5m\""));
    assert!(config
        .body
        .contains(&format!("/{}/**", c.images.signing.repository)));

    for fallback in &c.images.registries.fallbacks {
        assert!(
            config.body.contains(&format!("https://{fallback}")),
            "{fallback} is declared and not cached"
        );
    }
    assert_eq!(
        config.body.matches("\"onDemand\": true").count(),
        c.images.registries.fallbacks.len()
    );

    assert!(config.body.contains(&format!(
        "\"gcDelay\": \"{}h\"",
        c.policy.gc.registry_untagged_max_age_days * 24
    )));
}

/// A login is recorded, and never blocked by that.
#[test]
fn an_ssh_session_records_an_attachment_cg_07() {
    let c = model();
    let files = rendered();
    let control = c
        .node_with_role(&c.policy.drain.migration_target)
        .expect("the migration target is a declared role");

    for node in &c.nodes() {
        let hook = files
            .iter()
            .find(|f| f.path == "node/sshrc")
            .expect("every node renders the attachment hook");

        assert!(hook.body.contains("/attached"));
        assert!(hook
            .body
            .contains(&format!("http://{}:8080", control.loopback)));

        assert!(
            hook.body.contains("|| true"),
            "{}: a rebooting control plane must not block a login",
            node.name
        );
    }
}

/// One unit publishes the address the control plane binds.
#[test]
fn the_control_plane_is_published_on_the_tailnet_cd_15() {
    let c = model();
    let files = rendered();
    let node = c
        .node_with_role(&c.policy.drain.migration_target)
        .expect("the migration target is a declared role");

    let unit = files
        .iter()
        .find(|f| f.path == "node/systemd/tailscale-serve.service")
        .expect("the control plane is published");

    let control = files
        .iter()
        .find(|f| f.path == "node/systemd/cluster-ctl.service")
        .expect("the control plane unit is rendered");
    assert!(control.body.contains(&format!("{}:8080", node.loopback)));
    assert!(unit
        .body
        .contains(&format!("http://{}:8080", node.loopback)));
    assert!(unit.body.contains("--https=443"));
    assert!(
        unit.body.contains("Requires=cluster-ctl.service"),
        "publishing without the service behind it would serve a closed port"
    );
    assert!(
        unit.body.contains("ExecStop"),
        "stopping the unit must withdraw the publication"
    );

    let publishers: Vec<&Rendered> = files
        .iter()
        .filter(|f| f.path.ends_with("tailscale-serve.service"))
        .collect();
    assert_eq!(publishers.len(), 1);

    let acl = files
        .iter()
        .find(|f| f.path == "tailscale/policy.hujson")
        .expect("the tailnet policy is rendered");
    for login in &c.cluster.authorized_logins {
        assert!(
            acl.body.contains(login),
            "{login} is authorized and not admitted"
        );
    }
    assert!(acl.body.contains(&c.network.lan_prefix));
    for n in &c.nodes() {
        assert!(
            !acl.body.contains(&n.loopback),
            "{}: the mesh is never advertised",
            n.name
        );
    }
}

/// The published address is the bound one.
#[test]
fn the_publish_unit_serves_the_bound_address_cc_06() {
    the_control_plane_is_published_on_the_tailnet_cd_15();
}

/// JSON parses, scripts keep their first line, the rest names its origin.
#[test]
fn every_rendered_artifact_is_valid_in_its_syntax_cd_16() {
    let files = rendered();
    let mut json = 0usize;
    let mut scripts = 0usize;

    for file in &files {
        let contents = file.contents();

        if file.path.ends_with(".json") {
            json += 1;
            let parsed: serde_json::Value = serde_json::from_str(&contents)
                .unwrap_or_else(|e| panic!("{}: not valid JSON: {e}", file.path));

            let injected: Vec<&String> = parsed
                .as_object()
                .map(|o| o.keys().filter(|k| k.starts_with('_')).collect())
                .unwrap_or_default();
            assert!(
                injected.is_empty(),
                "{}: {injected:?} are not schema keys, and a strict validator rejects them only at install",
                file.path
            );
            assert!(
                !contents.lines().next().unwrap_or_default().starts_with('#'),
                "{}: a JSON document cannot open with a comment",
                file.path
            );
        } else {
            assert!(
                contents.contains(GENERATED_MARKER) && contents.contains(ASSERTED_BY),
                "{}: no provenance",
                file.path
            );
        }

        if file.body.trim_start().starts_with("#!") {
            scripts += 1;
            let first = contents.lines().next().unwrap_or_default();
            assert!(
                first.starts_with("#!"),
                "{}: the interpreter line must be first, not `{first}`",
                file.path
            );
            assert!(
                contents.lines().nth(1).unwrap_or_default().starts_with('#'),
                "{}: the provenance follows the shebang",
                file.path
            );
        }
    }

    assert!(json > 0, "no JSON is rendered, so this checks nothing");
    assert!(
        scripts > 0,
        "no scripts are rendered, so this checks nothing"
    );
}

/// A restricted rule is in its roles' files alone.
#[test]
fn every_role_renders_a_firewall_include_cd_18() {
    let c = model();
    let files = rendered();

    let common = files
        .iter()
        .find(|f| f.path == "node/nftables.conf")
        .expect("the common ruleset is rendered");
    let includes = common.body.matches("include \"").count();
    assert_eq!(
        includes, 1,
        "the common ruleset includes exactly one role file; one image carries one ruleset"
    );

    for role in &c.cluster.role {
        let file = files
            .iter()
            .find(|f| f.path == format!("node/nftables-role-{}.conf", role.id))
            .unwrap_or_else(|| {
                panic!(
                    "`{}` renders no firewall include. nft fails to load a ruleset that includes a file which is not there, so `no rules` has to be a file that says so",
                    role.id
                )
            });

        for rule in c.network.firewall.rule.iter().filter(|r| !r.is_universal()) {
            let port = format!("dport {}", rule.port);
            let expected = rule.applies_to(&role.id);
            assert_eq!(
                file.body.contains(&port),
                expected,
                "`{}`: `{}` must appear only in the roles it names",
                role.id,
                rule.comment
            );
            assert!(
                !common.body.contains(&port),
                "`{}` is restricted to a role and must not be in the common ruleset: putting it there opens the port on every machine",
                rule.comment
            );
        }
    }
}

/// Every role has a set, empty ones too.
#[test]
fn every_role_renders_a_kernel_argument_set_cd_19() {
    let c = model();
    let files = rendered();

    for role in &c.cluster.role {
        let file = files
            .iter()
            .find(|f| f.path == format!("node/role-kargs-{}.conf", role.id))
            .unwrap_or_else(|| {
                panic!(
                    "`{}` renders no kernel-argument set. cluster-init reads one per role, and an absent file is indistinguishable from a role whose arguments nobody rendered",
                    role.id
                )
            });
        assert!(
            file.body.lines().any(|l| l.starts_with("options=")),
            "`{}`: the set must be an `options=` line even when it is empty",
            role.id
        );

        let variant = c
            .images
            .variant_for(&role.id)
            .expect("the model check requires a variant per role");
        for karg in &variant.kargs {
            assert!(
                file.body.contains(karg),
                "`{}`: the model declares `{karg}` and the rendered set omits it",
                role.id
            );
        }
    }
}

/// A row says where a secret goes, and never what it is.
#[test]
fn the_enrolled_secrets_are_declared_by_destination_cd_20() {
    let c = model();
    let files = rendered();

    let policy = files
        .iter()
        .find(|f| f.path == "node/enrolment.conf")
        .expect("the enrolment policy is rendered");

    assert!(
        !c.policy.secret.is_empty(),
        "a cluster that enrols nothing pulls from nothing and joins no tailnet"
    );
    for secret in &c.policy.secret {
        let row = format!(
            "secret={}:{}:{}:{}:{}",
            secret.id,
            secret.path,
            secret.mode,
            secret.apply,
            secret.rendered_format()
        );
        assert!(
            policy.body.contains(&row),
            "the rendered policy must carry `{row}`, or cluster-ctl would need its own copy of the destination"
        );
        if secret.is_stored() {
            let mode = secret.mode_bits().expect("the model check requires octal");
            assert_eq!(
                mode & 0o022,
                0,
                "`{}` lands at {} with mode {}: a credential any local user can rewrite is a credential any local user has",
                secret.id,
                secret.path,
                secret.mode
            );
        }
    }

    if let Some(key) = c
        .policy
        .secret
        .iter()
        .find(|s| s.id == "ssh_authorized_key")
        .filter(|s| s.is_stored())
    {
        let sshd = files
            .iter()
            .find(|f| f.path == "node/sshd_config.d/10-cluster.conf")
            .expect("the sshd policy is rendered");
        let directory = key
            .path
            .rsplit_once('/')
            .map(|(dir, _)| dir)
            .expect("an absolute destination has a directory");
        let searched: Vec<&str> = sshd
            .body
            .lines()
            .find_map(|l| l.trim().strip_prefix("AuthorizedKeysFile "))
            .expect(
                "the sshd policy must say where to look, or an enrolled key lands somewhere sshd never reads",
            )
            .split_whitespace()
            .collect();
        assert!(
            searched
                .iter()
                .any(|p| p.starts_with(directory) && p.ends_with("%u")),
            "the enrolled key lands in {directory} and sshd searches {searched:?}. A key the operator entered would be ignored, and the page would say it was given"
        );
        assert!(
            searched.contains(&".ssh/authorized_keys"),
            "sshd's default must be kept alongside: {searched:?}"
        );
    }

    let ids: Vec<&str> = policy
        .body
        .lines()
        .filter_map(|l| l.strip_prefix("secret="))
        .filter_map(|l| l.split(':').next())
        .collect();
    let declared: Vec<&str> = c.policy.secret.iter().map(|s| s.id.as_str()).collect();
    assert_eq!(ids, declared, "every declared secret, in declaration order");

    for file in &files {
        for marker in ["ghp_", "github_pat_", "tskey-", "ssh-ed25519 ", "ssh-rsa "] {
            assert!(
                !file.body.contains(marker),
                "{}: carries `{marker}`, which is the shape of a credential. Values reach a node through the browser, never through an artifact",
                file.path
            );
        }
    }
}

fn find<'a>(files: &'a [Rendered], path: &str) -> &'a Rendered {
    files
        .iter()
        .find(|f| f.path == path)
        .unwrap_or_else(|| panic!("{path} is not rendered"))
}

fn fault(c: &Cluster) -> String {
    match c.check() {
        Err(ClusterError::Inconsistent(why)) => why,
        other => panic!("{other:?}"),
    }
}

/// Every file names the claim over the tree, and its header says so.
#[test]
fn every_file_names_its_claims() {
    for file in rendered() {
        assert!(!file.ids.is_empty(), "{}", file.path);
        assert!(file.ids.contains(&TREE_CLAIM), "{}", file.path);
        if !file.path.ends_with(".json") {
            assert!(file.contents().contains(ASSERTED_BY), "{}", file.path);
        }
    }
}

/// Paths come in order, each once.
#[test]
fn the_tree_is_sorted() {
    let files = rendered();
    for pair in files.windows(2) {
        assert!(pair[0].path < pair[1].path, "{} / {}", pair[0].path, pair[1].path);
    }
}

#[test]
fn a_header_stands_above_the_body() {
    let file = find(&rendered(), "node/sysctl.d/90-cluster.conf").contents();
    let first = file.lines().next().unwrap();
    assert!(first.starts_with("# ") && first.contains(GENERATED_MARKER), "{first}");
    assert!(file.lines().nth(3).unwrap().starts_with("# Asserted by: "));
}

/// What the host is told is what the model declares.
#[test]
fn host_policy_is_that_of_the_model() {
    let files = rendered();
    let ssh = &find(&files, "node/sshd_config.d/10-cluster.conf").body;
    assert!(ssh.contains("PasswordAuthentication no"));
    assert!(ssh.contains("KbdInteractiveAuthentication no"));
    assert!(ssh.contains("PermitRootLogin prohibit-password"));
    let se = &find(&files, "node/selinux/config").body;
    assert!(se.contains("SELINUX=enforcing"));
    assert!(se.contains("SELINUXTYPE=targeted"));
    let gb = &find(&files, "node/greenboot.conf").body;
    assert!(gb.contains("GREENBOOT_MAX_BOOT_ATTEMPTS=3"));
    assert!(gb.contains("GREENBOOT_HEALTHCHECK_TIMEOUT=600"));
}

/// A node reads its thresholds and roles from one file.
#[test]
fn the_node_policy_carries_thresholds_and_roles() {
    let files = rendered();
    let policy = &find(&files, "node/init.conf").body;
    for expected in [
        "mesh_min_speed_mbps=10000",
        "mesh_count=2",
        "mesh_mtu=9000",
        "lan_min_speed_mbps=1000",
        "lan_mtu=1500",
        "fleet_size=3",
        "loopback_base=10.10.255.0",
        "link_base=10.10.0.0",
        "direct_metric=100",
        "transit_metric=200",
        "discovery_group=ff02::6c75",
        "discovery_port=7946",
        "discovery_timeout_s=60",
        "machine_id_path=/sys/class/dmi/id/product_uuid",
        "bulk_disk_min_gb=1000",
        "domain=cluster.internal",
        "entry_name=cluster",
        "role=storage:bulk-disk:",
        "role=devcontainer:assigned:",
        "role=measurement:assigned:",
    ] {
        assert!(policy.contains(expected), "{expected}");
    }
}

/// Sizes are written in mebibytes, and what is left over grows.
#[test]
fn a_partition_is_sized_in_mebibytes() {
    let files = rendered();
    let ks = &find(&files, "bootstrap/node.ks").body;
    assert!(ks.contains("part /boot/efi "), "{ks}");
    assert!(ks.contains("--size=1024"), "{ks}");
    assert!(ks.contains("--size=512"), "{ks}");
    assert!(ks.contains("--grow"), "{ks}");
    assert!(ks.contains(
        "sizing: 64 GiB, used when the cache device is a\n  # partition of the M.2"
    ));
}

/// Four ordinals hold no more than their fleet.
#[test]
fn nodes_follow_the_ordinals() {
    let c = model();
    let nodes = c.nodes();
    assert_eq!(nodes.len(), 3);
    let storage = &nodes[0];
    assert_eq!(storage.ordinal, 1);
    assert_eq!(storage.name, "node1");
    assert_eq!(storage.fqdn, "node1.cluster.internal");
    assert_eq!(storage.role, "storage");
    assert_eq!(storage.loopback, "10.10.255.1");
    assert_eq!(storage.update_position, 3);

    assert_eq!(c.node_at(2).unwrap().role, "devcontainer");
    assert!(c.node_at(0).is_none());
    assert!(c.node_at(4).is_none());
    assert_eq!(c.node("node3").unwrap().ordinal, 3);
    assert!(c.node("node4").is_none());
    assert_eq!(c.node_with_role("measurement").unwrap().name, "node3");
    assert!(c.node_with_role("printing").is_none());

    let order: Vec<String> = c.in_update_order().into_iter().map(|n| n.name).collect();
    assert_eq!(order, ["node3", "node2", "node1"]);
    let peers: Vec<String> = c.peers_of("node2").into_iter().map(|n| n.name).collect();
    assert_eq!(peers, ["node1", "node3"]);
}

#[test]
fn roles_and_machines_are_looked_up() {
    let c = fleet();
    let f = &c.cluster;
    assert_eq!(f.role("storage").unwrap().update_position, 3);
    assert!(f.role("none").is_none());
    assert_eq!(f.role_of_ordinal(1).unwrap().id, "storage");
    assert_eq!(f.role_of_ordinal(2).unwrap().id, "devcontainer");
    assert_eq!(f.role_of_ordinal(3).unwrap().id, "measurement");
    assert!(f.role_of_ordinal(4).is_none());
    assert_eq!(f.self_detected_role().unwrap().id, "storage");
    assert_eq!(f.self_detected_roles().len(), 1);
    let assigned: Vec<&str> = f.assigned_roles().iter().map(|r| r.id.as_str()).collect();
    assert_eq!(assigned, ["devcontainer", "measurement"]);
    assert_eq!(f.fleet.name_of(2, "example.org"), "node2.example.org");
    assert_eq!(f.node("node2").unwrap().update_position, 2);
    let order: Vec<&str> = f.in_update_order().iter().map(|m| m.name.as_str()).collect();
    assert_eq!(order, ["node3", "node2", "node1"]);
    assert_eq!(f.profile_of(&f.machine[0]).unwrap().id, "xeon-d");
    let devices = &f.role[0].devices;
    assert_eq!(devices.volume_group.as_deref(), Some("vg_data"));
}

#[test]
fn placeholders_are_substituted() {
    let c = fleet();
    assert_eq!(c.substitute("{node1.loopback}:5000").unwrap(), "10.10.255.1:5000");
    assert_eq!(
        c.substitute("{node2.loopback},{node3.loopback}").unwrap(),
        "10.10.255.2,10.10.255.3"
    );
    assert!(c.substitute("{node2.name}").is_err());
    assert!(c.substitute("{node2.loopback").is_err());
    assert_eq!(c.substitute("nothing to do").unwrap(), "nothing to do");
    assert!(c.substitute("{node9.loopback}").is_err());
    let once = c.substitute("{node2.loopback},{node3.loopback}").unwrap();
    assert_eq!(c.substitute(&once).unwrap(), once);
    assert_eq!(
        c.expand_policy("--retention={policy.prometheus_retention_days}d"),
        "--retention=30d"
    );
}

#[test]
fn images_and_policies_are_looked_up() {
    let c = fleet();
    assert_eq!(c.images.variant_for("measurement").unwrap().id, "n3");
    assert!(c.images.variant_for("printing").is_none());
    assert_eq!(c.images.runtime("docker").unwrap().socket_unit, "docker.socket");
    assert_eq!(c.images.runtime_of(&c.images.variant[0]).unwrap().id, "podman-compat");
    assert!(c.images.hosts_runners());
    assert_eq!(c.images.runner_install_dir(), Some("/usr/lib/actions-runner"));
    assert_eq!(
        c.images.variant[2].all_kargs(&c.images.base),
        ["console=ttyS1,115200", "mitigations=auto", "isolcpus=2,3", "nohz_full=2,3", "nosmt"]
    );
    assert_eq!(
        c.images.signing.certificate_identity(),
        "https://github.com/afflom/cluster/.github/workflows/promote.yml@refs/heads/main"
    );
    assert_eq!(
        c.images.variant[0].quadlet[0].mount[0].volume_line(),
        "/etc/zot:/etc/zot:ro,Z"
    );
    assert_eq!(c.policy.budget("total").unwrap().budget_s, 21_600);
    assert!(c.policy.budget("lunch").is_none());
    assert_eq!(c.policy.alert("clock").unwrap().for_s, 600);
    assert_eq!(c.policy.tunnel.name_for("abc123"), "dc-abc123");
    assert_eq!(
        c.policy.tunnel.url_for("abc123", "workspace"),
        "https://vscode.dev/tunnel/dc-abc123/workspace"
    );
    let key = &c.policy.secret[0];
    assert!(key.is_stored());
    assert_eq!(key.mode_bits(), Some(0o600));
    assert_eq!(c.policy.secret[1].rendered_format(), "docker-auth@ghcr.io");
    assert!(!c.policy.secret[2].is_stored());
}

/// One change, one fault, and it is named.
#[test]
fn a_fault_of_the_fleet_is_named() {
    let mut c = fleet();
    c.network.spec = s("repo/1");
    assert!(fault(&c).contains("repo/1"), "{}", fault(&c));

    let mut c = fleet();
    c.cluster.role[1].update_position = 3;
    assert!(fault(&c).contains("update"), "{}", fault(&c));

    let mut c = fleet();
    c.cluster.role[2].assign_order = Some(1);
    assert!(c.check().is_err());

    let mut c = fleet();
    c.cluster.fleet.size = 4;
    assert!(c.check().is_err());

    let mut c = fleet();
    c.cluster.role.pop();
    assert!(c.check().is_err());
}

#[test]
fn a_fault_of_the_network_is_named() {
    let mut c = fleet();
    c.network.firewall.input_policy = s("accept");
    assert!(fault(&c).contains("accept"), "{}", fault(&c));

    let mut c = fleet();
    c.network.addressing.link_prefix_len = 30;
    assert!(c.check().is_err());

    let mut c = fleet();
    c.network.class[0].min_speed_mbps = 1000;
    assert!(c.check().is_err());

    let mut c = fleet();
    c.network.discovery.group = s("224.0.0.1");
    assert!(c.check().is_err());

    let mut c = fleet();
    c.network.routing.transit_metric = 100;
    assert!(c.check().is_err());

    let mut c = fleet();
    c.network.firewall.rule[4].roles[0] = s("printing");
    assert!(fault(&c).contains("printing"), "{}", fault(&c));
}

#[test]
fn a_fault_of_an_image_is_named() {
    let mut c = fleet();
    c.images.base.digest = s("aaaa");
    assert!(c.check().is_err());

    let mut c = fleet();
    c.images.default_runtime = s("runc");
    assert!(fault(&c).contains("runc"), "{}", fault(&c));

    let mut c = fleet();
    c.images.variant[0].quadlet[0].mount[0].relabel = s("");
    assert!(c.check().is_err());

    let mut c = fleet();
    c.images.variant[0].quadlet[0].publish[0] = s("{node9.loopback}:5000:5000");
    assert!(fault(&c).contains("node9"), "{}", fault(&c));

    let mut c = fleet();
    c.images.variant[1].upstream.clear();
    assert!(c.check().is_err());

    let mut c = fleet();
    c.images.variant[2].role = s("storage");
    assert!(c.check().is_err());
}

#[test]
fn a_fault_of_the_policy_is_named() {
    let mut c = fleet();
    c.policy.reclaim.purge_dirty = true;
    assert!(c.check().is_err());

    let mut c = fleet();
    c.policy.reclaim.archive_after_days = 7;
    assert!(c.check().is_err());

    let mut c = fleet();
    c.policy.auth.allowed_origin = s("http://afflom.github.io");
    assert!(c.check().is_err());

    let mut c = fleet();
    c.policy.health.mesh_mtu_probe_bytes = 9000;
    assert!(c.check().is_err());

    let mut c = fleet();
    c.policy.health.port = 9441;
    assert!(c.check().is_err());

    let mut c = fleet();
    c.policy.secret[0].mode = s("0666");
    assert!(c.check().is_err());

    let mut c = fleet();
    c.policy.secret[3].path = s("/etc/ostree/auth.json");
    assert!(c.check().is_err());

    let mut c = fleet();
    c.policy.drain.migration_target = s("measurement");
    assert!(c.check().is_err());
}

#[test]
fn an_alert_without_an_expression_does_not_render() {
    let mut c = fleet();
    c.policy.alert[0].id = s("printer-on-fire");
    assert!(!is_renderable(&c));
}

fn register(files: &[Rendered]) -> Ids {
    let mut ids: Vec<&str> = files.iter().flat_map(|f| f.ids.iter().copied()).collect();
    ids.sort();
    ids.dedup();
    Ids {
        spec: s(SPEC),
        id: ids
            .into_iter()
            .map(|id| IdRow {
                id: s(id),
                statement: s("what is rendered"),
                suite: s("definition"),
                tier: Tier::T0,
            })
            .collect(),
        error: Vec::new(),
    }
}

fn committed(files: &[Rendered]) -> Vec<Result<String, String>> {
    files.iter().map(|f| Ok(f.contents())).collect()
}

fn paths(files: &[Rendered]) -> Vec<String> {
    files.iter().map(|f| f.path.clone()).collect()
}

/// A tree committed as it renders passes, and the report counts it.
#[test]
fn the_committed_tree_is_the_rendered_one() {
    let files = rendered();
    let ids = register(&files);
    let report = check_render(&files, &committed(&files), &paths(&files), &ids).expect("it passes");
    assert!(report.starts_with(&format!("check-render: {} rendered files", files.len())), "{report}");
}

#[test]
fn a_hand_edited_file_is_caught() {
    let files = rendered();
    let ids = register(&files);

    let mut edited = committed(&files);
    edited[3] = Ok(s("by hand\n"));
    let why = check_render(&files, &edited, &paths(&files), &ids).expect_err("an edit");
    assert!(why.contains(&format!("{}: the committed file disagrees with the model", files[3].path)));

    let mut gone = committed(&files);
    gone[0] = Err(s("not found"));
    let why = check_render(&files, &gone, &paths(&files), &ids).expect_err("a gap");
    assert!(why.contains(&format!("{}: not found", files[0].path)));

    let mut found = paths(&files);
    found.push(s("node/left-over.conf"));
    let why = check_render(&files, &committed(&files), &found, &ids).expect_err("a stray");
    assert!(why.contains("node/left-over.conf: present under generated/ but rendered by nothing"));

    assert!(check_render(&Vec::new(), &Vec::new(), &Vec::new(), &ids).is_err());
}

#[test]
fn a_claim_that_covers_nothing_is_caught() {
    let files = rendered();
    let mut ids = register(&files);
    ids.id.push(IdRow {
        id: s("CD-99"),
        statement: s("nothing"),
        suite: s("definition"),
        tier: Tier::T0,
    });
    let why = check_render(&files, &committed(&files), &paths(&files), &ids).expect_err("vacuous");
    assert!(why.contains("CD-99: registered as a `CD-` claim but no rendered file names it."));

    let mut ids = register(&files);
    ids.id.retain(|row| row.id != TREE_CLAIM);
    let why = check_render(&files, &committed(&files), &paths(&files), &ids).expect_err("unknown");
    assert!(why.contains("names `CD-09`, which is not in the register"));
}

fn source(name: &str, text: &str) -> Source {
    Source {
        name: s(name),
        text: s(text),
    }
}

/// A build that copies every rendered file, one by one.
fn build(files: &[Rendered]) -> String {
    let mut text = String::from("FROM quay.io/fedora/fedora-bootc\n");
    for f in files {
        text.push_str(&format!("COPY generated/{} /usr/lib/cluster/{}\n", f.path, f.path));
    }
    text
}

fn repository(files: &[Rendered]) -> Repository {
    Repository {
        builds: vec![source("node", &build(files))],
        generated: vec![source(
            "node/systemd/x.service",
            "[Service]\nExecStart=/usr/bin/podman run\n# /usr/bin/unused\n",
        )],
        models: vec![source("policy", "spec = \"cluster/1\"\n[gc]\nschedule = \"weekly\"\n")],
        crates: vec![source(
            "crates/x/src/main.rs",
            "post(\"/api/sessions/abc/notify\"); let s = gc.schedule;",
        )],
        router: source(
            "api.rs",
            "    .route(\"/api/sessions/{id}/notify\", post(notify))\n",
        ),
    }
}

#[test]
fn a_repository_in_which_nothing_dangles_passes() {
    let c = model();
    let files = rendered();
    assert_eq!(
        check_wiring(&c, &files, &repository(&files)),
        Ok(s("check-wiring: every rendered artifact is consumed and every reference resolves"))
    );
}

#[test]
fn each_dangling_reference_is_named() {
    let files = rendered();

    let c = model();
    let mut r = repository(&files);
    r.builds[0].text = r.builds[0].text.replace("COPY generated/node/hosts ", "# ");
    let why = check_wiring(&c, &files, &r).expect_err("not copied");
    assert!(why.contains("generated/node/hosts: rendered and copied into no image."), "{why}");

    let mut r = repository(&files);
    r.generated[0].text.push_str("ExecStop=/usr/libexec/cluster/halt now\n");
    let why = check_wiring(&c, &files, &r).expect_err("not produced");
    assert!(why.contains("/usr/libexec/cluster/halt: invoked by node/systemd/x.service"), "{why}");

    let mut r = repository(&files);
    r.crates[0].text = s("get(`/api/nodes/$NODE/drain`); gc.schedule");
    let why = check_wiring(&c, &files, &r).expect_err("not routed");
    assert!(why.contains("/api/nodes/*/drain: called by crates/x/src/main.rs"), "{why}");
    assert!(why.contains("Routes: {\"/api/sessions/*/notify\"}"), "{why}");

    let mut r = repository(&files);
    r.crates[0].text = s("nothing");
    let why = check_wiring(&c, &files, &r).expect_err("not read");
    assert!(why.contains("model/policy.toml:3: `schedule` is declared and read by nothing."), "{why}");

    let mut c = model();
    c.images.variant[0].quadlet[1].image = s("ghcr.io/afflom/cluster/dash:1");
    let why = check_wiring(&c, &files, &repository(&files)).expect_err("not built");
    assert!(why.contains("n1: quadlet `prometheus` runs `ghcr.io/afflom/cluster/dash:1`"), "{why}");

    let mut c = model();
    c.images.variant[0].quadlet[0].mount[0].source = s("/etc/zotless");
    let why = check_wiring(&c, &files, &repository(&files)).expect_err("not rendered");
    assert!(why.contains("quadlet `zot` mounts /etc/zotless read-only"), "{why}");
}

/// An interpreter line comes first, whatever white space the body opens with.
#[test]
fn an_interpreter_line_comes_first() {
    let file = Rendered::new(s("node/x"), vec!["CD-16"], s("\n#!/bin/sh\nexit 0\n"));
    let contents = file.contents();
    let lines: Vec<&str> = contents.lines().collect();
    assert_eq!(lines[0], "#!/bin/sh");
    assert!(lines[1].starts_with("# @generated"), "{contents}");
    assert!(contents.ends_with("# Asserted by: CD-16\nexit 0\n"), "{contents}");
    let bare = Rendered::new(s("node/x"), vec!["CD-16"], s(" #!/bin/true"));
    assert!(bare.contents().starts_with("#!/bin/true\n# @generated"));
}

#[test]
fn a_route_serves_its_calls() {
    assert_eq!(normalise_route("/api/sessions/{id}/"), "/api/sessions/*");
    assert_eq!(normalise_route("/api/sessions/$(id)"), "/api/sessions/*");
    assert_eq!(normalise_route("/api/sessions/:id"), "/api/sessions/*");
    assert_eq!(normalise_route("/api/sessions/abc123"), "/api/sessions/*");
    assert_eq!(normalise_route("/api/sessions/$(echo x)"), "/api/sessions/*");
    assert_eq!(normalise_route("/api/nodes/n1/drain"), "/api/nodes/*/drain");
    assert_eq!(normalise_route("/api/sessions"), "/api/sessions");
    assert!(serves("/api/sessions/*", "/api/sessions/abc"));
    assert!(!serves("/api/sessions/*", "/api/sessions"));
    assert!(!serves("/api/sessions", "/api/sessions/abc"));
    assert!(!serves("/api/sessions/abc", "/api/sessions/*"));
}

/// Who calls the control plane, and whose code reads the model, is a matter of
/// the path.
#[test]
fn files_count_by_their_paths() {
    for name in ["cluster", "network", "images", "policy"] {
        assert!(declares_fields(&format!("crates/cluster-model/src/{name}.rs")));
        assert!(!declares_fields(&format!("crates/cluster-model/src/render/{name}.rs")));
    }
    assert!(!declares_fields("crates/cluster-model/src/lib.rs"));
    assert!(!declares_fields("cluster-model/src/network.rs"));
    assert!(!declares_fields("crates/cluster-model/src/network.old.rs"));

    let crates = vec![
        source("crates/cluster-ctl/src/api.rs", "own"),
        source("crates/cluster-model/src/policy.rs", "declared "),
        source("crates/cluster-model/src/lib.rs", "read "),
        source("crates/x/target/debug/out.rs", "built "),
        source("crates/x/README.md", "prose "),
        source("crates/x/.rs", "hidden "),
    ];
    let generated = vec![source("node/hosts", "hosts")];
    assert_eq!(reading_code_of(&crates), "ownread ");
    let names: Vec<String> = callers_of(&crates, &generated).into_iter().map(|c| c.name).collect();
    assert_eq!(
        names,
        [
            "crates/cluster-model/src/policy.rs",
            "crates/cluster-model/src/lib.rs",
            "crates/x/README.md",
            "crates/x/.rs",
            "generated/node/hosts",
        ]
    );

    let files = rendered();
    let mut r = repository(&files);
    r.crates.push(source("crates/cluster-ctl/src/lib.rs", "get(\"/api/elsewhere\")"));
    assert!(check_wiring(&model(), &files, &r).is_ok());
    r.crates[0].name = s("crates/cluster-model/src/policy.rs");
    let why = check_wiring(&model(), &files, &r).expect_err("declared and not read");
    assert!(why.contains("`schedule` is declared and read by nothing."), "{why}");
    r.generated.push(source("node/greenboot.sh", "curl http://c/api/lost"));
    let why = check_wiring(&model(), &files, &r).expect_err("called by the tree");
    assert!(why.contains("/api/lost: called by generated/node/greenboot.sh"), "{why}");
}

#[test]
fn endpoints_are_found_in_prose_and_code() {
    let found = called_endpoints(&vec![
        source("b.rs", "see `GET /api/auth/config`) and \"/api/sessions/{}\""),
        source("a.sh", "curl http://x/api/sessions/$ID; /api/"),
    ]);
    let pairs: Vec<(&str, Vec<&str>)> = found
        .iter()
        .map(|r| (r.to.as_str(), r.from.iter().map(|f| f.as_str()).collect()))
        .collect();
    assert_eq!(
        pairs,
        [
            ("/api/auth/config", vec!["b.rs"]),
            ("/api/sessions/*", vec!["a.sh", "b.rs"]),
        ]
    );
}

#[test]
fn copies_are_read_from_a_build() {
    let builds = vec![source(
        "node",
        "# COPY generated/old /x\n  COPY generated/node/hosts /etc/hosts\nCOPY --chmod=755 generated/node/libexec/ /usr/libexec/cluster/\nRUN true\n",
    )];
    assert_eq!(copy_sources(&builds), ["generated/node/hosts", "generated/node/libexec/"]);
    assert_eq!(copy_destinations(&builds), ["/usr/libexec/cluster/"]);
    let invoked = invoked_paths(&vec![source("u", "ExecStart=/usr/bin/a /usr/lib/ b\n# /usr/bin/c\n")]);
    assert_eq!(invoked.len(), 1);
    assert_eq!(invoked[0].to, "/usr/bin/a");
}

/// Once a machine knows its ordinal, its network units follow.
#[test]
fn a_machine_has_its_network_units() {
    let c = model();
    let node = c.node("node2").expect("the second slot");
    let units = machine_units(&c, &node, &c.cluster.machine[1]);
    let paths: Vec<&str> = units.iter().map(|f| f.path.as_str()).collect();
    assert_eq!(
        paths,
        [
            "node2/systemd-network/10-mgmt.network",
            "node2/systemd-network/20-mesh-a.network",
            "node2/systemd-network/21-mesh-b.network",
            "node2/systemd-network/30-loopback.network",
        ]
    );
    assert!(units[0].body.contains("[Match]\nMACAddress=02:00:00:00:00:01\n\n[Link]\nMTUBytes=1500\n"));
    assert!(units[0].body.contains("[Network]\nDHCP=yes\nIPv6AcceptRA=no\n"));
    let mesh = &units[1].body;
    assert!(mesh.contains("# node2 -> node1 over mesh_a, link l12."), "{mesh}");
    assert!(mesh.contains("Address=10.10.0.1/31\n"), "{mesh}");
    assert!(mesh.contains("Destination=10.10.255.1/32\nGateway=10.10.0.0\nMetric=100\n"), "{mesh}");
    assert!(mesh.contains("Destination=10.10.255.3/32\nGateway=10.10.0.0\nMetric=200\n"), "{mesh}");
    assert!(units[3].body.contains("Name=lo\n\n[Network]\nAddress=10.10.255.2/32\n"));
}

/// A runner reads its environment file after what the model says of it.
#[test]
fn a_runner_reads_its_environment_file() {
    let files = rendered();
    let units: Vec<&Rendered> = files
        .iter()
        .filter(|f| f.body.contains("ExecStart=/usr/libexec/cluster/runner-loop-"))
        .collect();
    assert!(!units.is_empty());
    for unit in units {
        assert!(
            unit.body.contains(
                "\nEnvironment=RUNNER_URL=https://github.com/afflom/cluster\n\
                 EnvironmentFile=/etc/cluster/runner.env\n\
                 ExecStart=/usr/libexec/cluster/runner-loop-"
            ),
            "{}",
            unit.path
        );
    }
}

/// The agent lands under the name that its variant enables; the agents of two
/// roles land under two names.
#[test]
fn the_agents_of_two_roles_have_two_paths() {
    let agents = |files: &[Rendered]| -> Vec<String> {
        paths(files)
            .into_iter()
            .filter(|p| p.starts_with("node/systemd/devcontainer-agent"))
            .collect()
    };
    assert_eq!(
        agents(&rendered()),
        ["node/systemd/devcontainer-agent.service"]
    );

    let mut c = fleet();
    c.images.variant[2].services = list(&["devcontainer-agent.service"]);
    c.check().expect("two roles may host the agent");
    assert!(is_renderable(&c));
    let files = render_all(&c);
    assert_eq!(
        agents(&files),
        [
            "node/systemd/devcontainer-agent-devcontainer.service",
            "node/systemd/devcontainer-agent-measurement.service",
        ]
    );
    assert!(find(&files, "node/systemd/devcontainer-agent-devcontainer.service")
        .body
        .contains("Environment=AGENT_BIND=10.10.255.2:8081"));
    assert!(find(&files, "node/systemd/devcontainer-agent-measurement.service")
        .body
        .contains("Environment=AGENT_BIND=10.10.255.3:8081"));
}
