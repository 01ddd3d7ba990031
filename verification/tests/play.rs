use maglev::command::play::{
    play_config, usable_address, Play, CP_JOIN_SCRIPT, FINGERPRINT_COMMAND, INIT_CHECK, JOIN_CHECK,
    WORKER_FINGERPRINT_COMMAND, WORKER_JOIN_SCRIPT,
};
use maglev::command::{heading, show_address};
use maglev::cp::cilium::{CHECK_COMMAND, LIST_COMMAND, LIST_WITH_REQUESTOR_COMMAND, STATUS_COMMAND};
use maglev::cp::STORED_ENDPOINT_COMMAND;
use maglev::ip::IpAddressType;
use maglev::provider::gcp::{GcpCredentials, GcpProvider};
use maglev::provider::LoadedProvider;
use maglev::registry::Registry;
use maglev::session::{Action, Event, Note, Progress, OUT_OF_STEP};
use maglev::structs::{
    ApiServerConfigYaml, CommonConfig, GenericsConfigYaml, GroupYaml, ProvisionerYaml, RuleYaml, SpecYaml,
};

type Log = Vec<Note<String>>;

fn say(s: &str) -> Note<String> {
    Note::Say(s.to_string())
}

fn warn(s: &str) -> Note<String> {
    Note::Warn(s.to_string())
}

fn output(s: &str) -> Event<String> {
    Event::Output(s.to_string())
}

fn failed(s: &str) -> Event<String> {
    Event::Failed(s.to_string())
}

fn list(items: &[&str]) -> Vec<String> {
    items.iter().map(|s| s.to_string()).collect()
}

fn layer(ip_address: IpAddressType, endpoint: Option<&str>, sans: &[&str]) -> GenericsConfigYaml {
    GenericsConfigYaml {
        ssh_public_key: Some("~/.ssh/id.pub".to_string()),
        script: Some("".to_string()),
        user: Some("root".to_string()),
        control_plane_endpoint: endpoint.map(|s| s.to_string()),
        api_server: Some(ApiServerConfigYaml { cert_sans: list(sans) }),
        machine_type: Some("m".to_string()),
        boot_disk_image: Some("i".to_string()),
        boot_disk_size: Some(10),
        ip_address: Some(ip_address),
    }
}

/// Groups of (type, nodes, reached publicly).
fn config(
    groups: &[(&str, &[&str], bool)],
    endpoint: Option<&str>,
    sans: &[&str],
    provisioner: Option<(&str, &str)>,
) -> LoadedProvider {
    let provisioner = provisioner
        .map(|(kind, node)| ProvisionerYaml { provisioner_type: kind.to_string(), node: node.to_string() });
    let common = CommonConfig {
        groups: groups
            .iter()
            .enumerate()
            .map(|(i, (kind, nodes, _))| GroupYaml {
                name: format!("g{i}"),
                group_type: kind.to_string(),
                node: list(nodes),
            })
            .collect(),
        specs: vec![
            SpecYaml { name: "public".to_string(), config: vec![layer(IpAddressType::Public, endpoint, sans)] },
            SpecYaml { name: "private".to_string(), config: vec![layer(IpAddressType::Private, endpoint, sans)] },
        ],
        rules: groups
            .iter()
            .enumerate()
            .map(|(i, (_, _, public))| RuleYaml {
                group: vec![format!("g{i}")],
                specs: list(&[if *public { "public" } else { "private" }]),
            })
            .collect(),
        provisioner,
        disks: None,
    };
    let creds = GcpCredentials {
        client_email: "".to_string(),
        private_key_path: "".to_string(),
        project_id: "p".to_string(),
        zone: "z".to_string(),
    };
    LoadedProvider::Gcp {
        common,
        location: "z".to_string(),
        provisioner: None,
        provider: GcpProvider::new(&creds, "t".to_string()),
    }
}

fn start(loaded: &LoadedProvider, auto: bool, log: &mut Log) -> Progress<Play, String> {
    play_config(loaded, Registry::new(), &Some("/home/a".to_string()), auto, false, log)
}

/// Carry the procedure through; `answer` gives the outcome of each action.
fn drive(
    mut p: Progress<Play, String>,
    log: &mut Log,
    answer: &mut dyn FnMut(&Action<String>) -> Event<String>,
) -> (Vec<Action<String>>, Result<(), String>) {
    let mut actions = Vec::new();
    loop {
        match p {
            Progress::Wait(m, a) => {
                let event = answer(&a);
                actions.push(a);
                p = m.step(event, log);
            }
            Progress::Done => return (actions, Ok(())),
            Progress::Failed(e) => return (actions, Err(e)),
        }
    }
}

/// A world in which everything works and nothing has been done yet.
fn fresh(a: &Action<String>) -> Event<String> {
    match a {
        Action::Confirm(_) => Event::Answer(true),
        Action::Address { instance, prefer_public } => {
            Event::Output(format!("{}-{instance}", if *prefer_public { "pub" } else { "priv" }))
        }
        Action::Capture { command, .. } => output(match command.as_str() {
            INIT_CHECK => "no",
            CHECK_COMMAND => "not_installed",
            LIST_COMMAND | LIST_WITH_REQUESTOR_COMMAND => "",
            CP_JOIN_SCRIPT => "kubeadm join --control-plane",
            WORKER_JOIN_SCRIPT => "kubeadm join",
            FINGERPRINT_COMMAND => "AA:BB",
            JOIN_CHECK => "not-joined",
            _ => "",
        }),
        _ => Event::Finished,
    }
}

fn runs(actions: &[Action<String>]) -> Vec<(String, Option<String>, String)> {
    actions
        .iter()
        .filter_map(|a| match a {
            Action::Run { ip, jump, command } => Some((ip.clone(), jump.clone(), command.clone())),
            _ => None,
        })
        .collect()
}

#[test]
fn headings_name_command_and_configuration() {
    let mut log = Log::new();
    heading("Play", "c.yaml", &mut log);
    assert_eq!(log, vec![say("=== Maglev Play ===\n"), say("Reading config: c.yaml")]);
}

#[test]
fn addresses_are_shown_in_columns() {
    assert_eq!(show_address("cp", "10.0.0.1", false), "  cp                             →  10.0.0.1  (private)");
    assert_eq!(show_address("cp", "1.2.3.4", true), "  cp                             →  1.2.3.4  (public)");
}

#[test]
fn single_node_cluster_is_provisioned() {
    let loaded = config(&[("control-plane", &["cp"], true), ("worker", &["w"], true)], None, &[], None);
    let mut log = Log::new();
    let p = start(&loaded, true, &mut log);
    let (actions, end) = drive(p, &mut log, &mut fresh);
    assert_eq!(end, Ok(()));
    assert!(!actions.iter().any(|a| matches!(a, Action::Confirm(_))));
    let ran = runs(&actions);
    assert_eq!(
        ran.iter().map(|r| (r.0.as_str(), r.1.is_none())).collect::<Vec<_>>(),
        vec![
            ("pub-cp", true),
            ("pub-cp", true),
            ("pub-cp", true),
            ("pub-cp", true),
            ("pub-cp", true),
            ("pub-w", true),
            ("pub-w", true),
        ]
    );
    assert_eq!(ran[0].2, "grep -qF 'pub-cp' /etc/hosts || echo 'pub-cp  pub-cp' | sudo tee -a /etc/hosts");
    assert!(ran[1].2.starts_with("cat > /tmp/kubeadm-config.yaml"));
    assert!(!ran[1].2.contains("controlPlaneEndpoint"));
    assert_eq!(ran[2].2, "sudo kubeadm init --config /tmp/kubeadm-config.yaml");
    assert_eq!(ran[4].2, STATUS_COMMAND);
    assert_eq!(ran[6].2, "sudo kubeadm join");
    assert!(log.contains(&say(
        "\n  ℹ  INFO: Single control-plane node — this cluster will not be highly available."
    )));
    assert!(log.contains(&say("  SSH user: root  private key: /home/a/.ssh/id")));
    assert!(log.contains(&say("\n  control-plane-endpoint: pub-cp:6443")));
    assert!(log.contains(&say("  Single-node cluster — no additional control-plane nodes to join.")));
    assert!(log.contains(&say("  Cluster CA fingerprint (SHA-256): AA:BB")));
    assert!(log.contains(&say("\n  ✓ w joined.")));
    assert_eq!(
        log[log.len() - 8..],
        [
            say("\n✓ Cluster provisioning complete!"),
            say("\n  Verify from the primary control-plane:"),
            say("\n  Using public IP:"),
            say("    ssh -i /home/a/.ssh/id root@pub-cp \\"),
            say("      sudo kubectl --kubeconfig /etc/kubernetes/admin.conf get po -A -o wide"),
            say("\n  Using private IP:"),
            say("    ssh -i /home/a/.ssh/id root@priv-cp \\"),
            say("      sudo kubectl --kubeconfig /etc/kubernetes/admin.conf get po -A -o wide"),
        ]
    );
}

#[test]
fn highly_available_cluster_is_provisioned_through_the_provisioner() {
    let loaded = config(
        &[("control-plane", &["cp1"], true), ("control-plane", &["cp2", "cp3"], false), ("worker", &["w"], false)],
        Some("10.9.9.9"),
        &["a.example"],
        Some(("public", "cp1")),
    );
    let mut log = Log::new();
    let p = start(&loaded, true, &mut log);
    let (actions, end) = drive(p, &mut log, &mut fresh);
    assert_eq!(end, Ok(()));
    let ran = runs(&actions);
    let routes: Vec<(&str, Option<&str>)> = ran.iter().map(|r| (r.0.as_str(), r.1.as_deref())).collect();
    assert_eq!(
        routes,
        vec![
            ("pub-cp1", Some("pub-cp1")),
            ("pub-cp1", Some("pub-cp1")),
            ("pub-cp1", Some("pub-cp1")),
            ("pub-cp1", Some("pub-cp1")),
            ("priv-cp2", Some("pub-cp1")),
            ("priv-cp3", Some("pub-cp1")),
            ("priv-w", Some("pub-cp1")),
        ]
    );
    assert!(ran[0].2.contains("controlPlaneEndpoint: 10.9.9.9:6443\napiServer:\n  certSANs:\n  - a.example\n"));
    assert_eq!(ran[1].2, "sudo kubeadm init --config /tmp/kubeadm-config.yaml --upload-certs");
    assert_eq!(ran[4].2, "sudo kubeadm join --control-plane");
    assert_eq!(ran[6].2, "sudo kubeadm join");
    let checked: Vec<(String, Option<String>, bool)> = actions
        .iter()
        .filter_map(|a| match a {
            Action::Containerd { name, jump, wait, .. } => Some((name.clone(), jump.clone(), *wait)),
            _ => None,
        })
        .collect();
    let jump = Some("pub-cp1".to_string());
    assert_eq!(
        checked,
        vec![
            ("cp1".to_string(), None, true),
            ("cp2".to_string(), jump.clone(), true),
            ("cp3".to_string(), jump.clone(), true),
            ("w".to_string(), jump, true),
        ]
    );
    assert!(log.contains(&say("\n  Provisioner node configured: cp1 (public)")));
    assert!(log.contains(&say("    IP: pub-cp1")));
    assert!(log.contains(&say("  apiServer certSANs:")) && log.contains(&say("    - a.example")));
    assert!(log.contains(&say("\n━━ Step 2 / 3 — Additional control-plane nodes (2 nodes) ━━━━━━━━━━━━━━")));
    assert!(log.contains(&say("\n  [2/3] cp2  (priv-cp2)")));
    assert!(log.contains(&say("    (routing through cp1 @ pub-cp1 via ProxyJump)")));
    assert!(log.contains(&say("\n  ✓ cp3 joined as control-plane.")));
    assert!(log.contains(&say("\n  [1/1] w  (priv-w)")));
}

#[test]
fn private_nodes_without_a_public_jump_host_are_reached_directly() {
    let loaded = config(
        &[("control-plane", &["cp"], false), ("worker", &["w"], false)],
        Some("10.9.9.9"),
        &[],
        Some(("private", "cp")),
    );
    let mut log = Log::new();
    let p = start(&loaded, true, &mut log);
    let (actions, end) = drive(p, &mut log, &mut fresh);
    assert_eq!(end, Ok(()));
    assert!(runs(&actions).iter().all(|r| r.1.is_none()));
}

#[test]
fn implicit_jump_host_is_the_primary_node() {
    let loaded = config(
        &[("control-plane", &["cp"], true), ("worker", &["w"], false)],
        Some("10.9.9.9"),
        &[],
        None,
    );
    let mut log = Log::new();
    let p = start(&loaded, true, &mut log);
    let (actions, _) = drive(p, &mut log, &mut fresh);
    let ran = runs(&actions);
    assert_eq!(ran[0].1, None);
    assert_eq!(ran.last().unwrap(), &("priv-w".to_string(), Some("pub-cp".to_string()), "sudo kubeadm join".to_string()));
}

#[test]
fn identifiers_of_the_state_are_used() {
    let loaded = config(&[("control-plane", &["cp"], true)], None, &[], None);
    let mut instances = Registry::new();
    instances.insert("cp".to_string(), "4711".to_string());
    let mut log = Log::new();
    let p = play_config(&loaded, instances, &None, false, true, &mut log);
    let Progress::Wait(m, a) = p else { panic!("did not start") };
    assert_eq!(a, Action::Address { instance: "4711".to_string(), prefer_public: true });
    let Progress::Wait(_, a) = m.step(output("1.2.3.4"), &mut log) else { panic!("stopped") };
    assert_eq!(
        a,
        Action::Containerd { ip: "1.2.3.4".to_string(), name: "cp".to_string(), jump: None, wait: false }
    );
    assert!(log.contains(&say("  SSH user: root  private key: ./.ssh/id")));
}

#[test]
fn address_is_asked_for_until_it_is_assigned() {
    let loaded = config(&[("control-plane", &["cp"], true)], None, &[], None);
    let mut log = Log::new();
    let p = start(&loaded, true, &mut log);
    let mut asked = 0;
    let (actions, end) = drive(p, &mut log, &mut |a| match a {
        Action::Address { .. } => {
            asked += 1;
            match asked {
                1 => output(" "),
                2 => output("NULL"),
                3 => failed("not yet"),
                4 => output("1.2.3.4"),
                _ => failed("enough"),
            }
        }
        Action::Containerd { .. } => failed("stop here"),
        _ => Event::Finished,
    });
    assert_eq!(end, Err("stop here".to_string()));
    assert_eq!(actions.iter().filter(|a| **a == Action::Pause(2)).count(), 3);
    assert_eq!(asked, 4);
}

#[test]
fn address_that_never_comes_is_an_error() {
    let loaded = config(&[("control-plane", &["cp"], true)], None, &[], None);
    let mut log = Log::new();
    let p = start(&loaded, true, &mut log);
    let mut asked = 0;
    let (actions, end) = drive(p, &mut log, &mut |a| match a {
        Action::Address { .. } => {
            asked += 1;
            Event::Failed(format!("attempt {asked}"))
        }
        _ => Event::Finished,
    });
    assert_eq!(end, Err("attempt 31".to_string()));
    assert_eq!(actions.iter().filter(|a| **a == Action::Pause(2)).count(), 30);
}

#[test]
fn provisioner_address_is_retried_too() {
    let loaded = config(&[("control-plane", &["cp"], true)], None, &[], Some(("public", "bastion")));
    let mut log = Log::new();
    let p = start(&loaded, true, &mut log);
    let mut asked = 0;
    let (_, end) = drive(p, &mut log, &mut |a| match a {
        Action::Address { instance, .. } if instance == "bastion" => {
            asked += 1;
            failed("nope")
        }
        other => fresh(other),
    });
    assert_eq!(end, Err("nope".to_string()));
    assert_eq!(asked, 31);
}

#[test]
fn usable_addresses() {
    assert!(usable_address("10.0.0.1"));
    assert!(!usable_address("  "));
    assert!(!usable_address("Null"));
    assert!(usable_address(" null"));
}

#[test]
fn configuration_without_control_plane_is_refused() {
    let mut log = Log::new();
    let Progress::Failed(e) = start(&config(&[("worker", &["w"], true)], None, &[], None), true, &mut log) else {
        panic!("started")
    };
    assert_eq!(e, "No control-plane rules found in config");
    let Progress::Failed(e) = start(&config(&[("control-plane", &[], true)], None, &[], None), true, &mut log)
    else {
        panic!("started")
    };
    assert_eq!(e, "No control-plane nodes found in config.");
}

#[test]
fn unknown_group_types_are_passed_over() {
    let mut log = Log::new();
    let p = start(&config(&[("storage", &["s"], true), ("control-plane", &["cp"], true)], None, &[], None), true, &mut log);
    assert!(matches!(p, Progress::Wait(_, Action::Address { instance, .. }) if instance == "cp"));
    assert!(log.contains(&warn("  ⚠ Unknown group type 'storage' — skipping in play.")));
}

#[test]
fn unresolvable_rules_are_an_error() {
    let loaded = config(&[("control-plane", &["cp"], true)], None, &[], None);
    let LoadedProvider::Gcp { mut common, location, provisioner, provider } = loaded else { panic!("not GCP") };
    common.rules[0].specs = list(&["gpu"]);
    let loaded = LoadedProvider::Gcp { common, location, provisioner, provider };
    let mut log = Log::new();
    let Progress::Failed(e) = start(&loaded, true, &mut log) else { panic!("started") };
    assert_eq!(e, "Rule references unknown spec 'gpu'");
}

#[test]
fn even_number_of_control_planes_is_a_warning() {
    let mut log = Log::new();
    let p = start(&config(&[("control-plane", &["a", "b", "c", "d"], true)], None, &[], None), true, &mut log);
    assert!(log.contains(&warn(
        "\n  ⚠  WARNING: Even number of control-plane nodes (4) detected. An odd count (e.g. 3 or 5) is \
         strongly recommended for proper etcd quorum. Proceed with caution."
    )));
    let (_, end) = drive(p, &mut log, &mut fresh);
    assert_eq!(end, Ok(()));
    assert!(log.iter().any(|n| matches!(n, Note::Warn(s) if s.starts_with(
        "\n  ⚠  WARNING: control-plane-endpoint is set to the primary node's own IP (pub-a:6443).\n"
    ))));
}

#[test]
fn initialised_cluster_is_not_initialised_again() {
    let loaded = config(&[("control-plane", &["a", "b", "c"], true)], Some("10.9.9.9"), &[], None);
    let mut log = Log::new();
    let p = start(&loaded, true, &mut log);
    let (actions, end) = drive(p, &mut log, &mut |a| match a {
        Action::Capture { command, .. } => match command.as_str() {
            INIT_CHECK => output("yes"),
            STORED_ENDPOINT_COMMAND => output("controlPlaneEndpoint: 10.9.9.9:6443"),
            CHECK_COMMAND => output("installed"),
            _ => fresh(a),
        },
        _ => fresh(a),
    });
    assert_eq!(end, Ok(()));
    assert_eq!(runs(&actions).iter().map(|r| r.2.as_str()).collect::<Vec<_>>(), vec![STATUS_COMMAND]);
    assert!(log.contains(&say("  ✓ a already initialised — skipping kubeadm init.")));
    assert!(log.contains(&say("  Verifying controlPlaneEndpoint in kubeadm-config …")));
    assert!(log.contains(&say("  ✓ b already part of the control-plane — skipping.")));
}

#[test]
fn initialised_cluster_without_an_endpoint_is_refused() {
    for stored in [output(""), failed("unreachable")] {
        let loaded = config(&[("control-plane", &["a", "b", "c"], true)], Some("10.9.9.9"), &[], None);
        let mut log = Log::new();
        let p = start(&loaded, true, &mut log);
        let mut stored = Some(stored);
        let (_, end) = drive(p, &mut log, &mut |a| match a {
            Action::Capture { command, .. } if command == INIT_CHECK => output("yes"),
            Action::Capture { command, .. } if command == STORED_ENDPOINT_COMMAND => stored.take().unwrap(),
            _ => fresh(a),
        });
        assert!(end.unwrap_err().starts_with("Cluster on a has no controlPlaneEndpoint stored"));
    }
}

#[test]
fn missing_join_commands_skip_the_nodes() {
    let loaded =
        config(&[("control-plane", &["a", "b", "c"], true), ("worker", &["w"], true)], Some("10.9.9.9"), &[], None);
    let mut log = Log::new();
    let p = start(&loaded, true, &mut log);
    let (actions, end) = drive(p, &mut log, &mut |a| match a {
        Action::Capture { command, .. } if command == CP_JOIN_SCRIPT => output(""),
        Action::Capture { command, .. } if command == WORKER_JOIN_SCRIPT => failed("down"),
        Action::Capture { command, .. } if command == FINGERPRINT_COMMAND => failed("down"),
        _ => fresh(a),
    });
    assert_eq!(end, Ok(()));
    assert!(runs(&actions).iter().all(|r| r.0 == "pub-a"));
    for line in [
        "  ✗ Empty control-plane join command from a — is it fully up?",
        "  ✗ No join command available — skipping b.",
        "  ✗ No join command available — skipping c.",
        "  ⚠  Could not determine cluster CA fingerprint: down — membership verification will be skipped.",
        "  ✗ Could not fetch worker join command: down",
        "  ✗ No join command available — skipping w.",
    ] {
        assert!(log.contains(&warn(line)), "{line}");
    }
}

#[test]
fn failed_joins_are_only_reported() {
    let loaded =
        config(&[("control-plane", &["a", "b", "c"], true), ("worker", &["w"], true)], Some("10.9.9.9"), &[], None);
    let mut log = Log::new();
    let p = start(&loaded, true, &mut log);
    let (_, end) = drive(p, &mut log, &mut |a| match a {
        Action::Run { command, .. } if command.starts_with("sudo kubeadm join") => failed("exit 1"),
        Action::Capture { ip, command, .. } if ip == "pub-c" && command == INIT_CHECK => failed("unreachable"),
        Action::Capture { command, .. } if command == JOIN_CHECK => failed("unreachable"),
        Action::Capture { command, .. } if command == CP_JOIN_SCRIPT => output("kubeadm join"),
        _ => fresh(a),
    });
    assert_eq!(end, Ok(()));
    for line in [
        "\n  ✗ Failed to join b: exit 1",
        "  ✗ Could not check join status on c: unreachable",
        "  ⚠  Could not check join status on w: unreachable",
        "  ✗ Failed to join w: exit 1",
    ] {
        assert!(log.contains(&warn(line)), "{line}");
    }
}

#[test]
fn joined_workers_are_left_alone() {
    for (fingerprint, note) in [
        (output("AA:BB\n"), say("  ✓ w already joined to this cluster (CA fingerprint verified) — skipping.")),
        (
            output("CC:DD"),
            warn(
                "  ✗ w is joined to a DIFFERENT cluster!\n\
                 Expected CA fingerprint : AA:BB\n\
                 Node CA fingerprint     : CC:DD\n\
                 Refusing to re-join — manual intervention required \
                 (reset the node with `sudo kubeadm reset` first).",
            ),
        ),
        (
            output(" "),
            warn(
                "  ⚠  w has kubelet.conf but the CA fingerprint could not be extracted — skipping to avoid \
                 overwriting an existing cluster member.",
            ),
        ),
        (
            failed("timeout"),
            warn(
                "  ⚠  w has kubelet.conf but CA fingerprint verification failed (timeout) — skipping to avoid \
                 overwriting an existing cluster member.",
            ),
        ),
    ] {
        let loaded = config(&[("control-plane", &["cp"], true), ("worker", &["w"], true)], Some("10.9.9.9"), &[], None);
        let mut log = Log::new();
        let p = start(&loaded, true, &mut log);
        let mut fingerprint = Some(fingerprint);
        let (actions, end) = drive(p, &mut log, &mut |a| match a {
            Action::Capture { command, .. } if command == JOIN_CHECK => output("joined"),
            Action::Capture { command, .. } if command == WORKER_FINGERPRINT_COMMAND => fingerprint.take().unwrap(),
            _ => fresh(a),
        });
        assert_eq!(end, Ok(()));
        assert!(runs(&actions).iter().all(|r| r.0 == "pub-cp"));
        assert!(log.contains(&note));
    }
}

#[test]
fn joined_worker_without_a_known_fingerprint_is_left_alone() {
    let loaded = config(&[("control-plane", &["cp"], true), ("worker", &["w"], true)], Some("10.9.9.9"), &[], None);
    let mut log = Log::new();
    let p = start(&loaded, true, &mut log);
    let (actions, _) = drive(p, &mut log, &mut |a| match a {
        Action::Capture { command, .. } if command == FINGERPRINT_COMMAND => output(" "),
        Action::Capture { command, .. } if command == JOIN_CHECK => output("joined"),
        _ => fresh(a),
    });
    assert!(runs(&actions).iter().all(|r| r.0 == "pub-cp"));
    assert!(log.contains(&warn(
        "  ⚠  Could not determine cluster CA fingerprint from cp — membership verification will be skipped."
    )));
    assert!(log.contains(&say(
        "  ✓ w already has kubelet.conf — skipping (CA fingerprint verification unavailable)."
    )));
}

#[test]
fn declined_nodes_are_left_alone() {
    let loaded =
        config(&[("control-plane", &["a", "b", "c"], true), ("worker", &["w"], true)], Some("10.9.9.9"), &[], None);
    let mut log = Log::new();
    let p = start(&loaded, false, &mut log);
    let (actions, end) = drive(p, &mut log, &mut |a| match a {
        Action::Confirm(_) => Event::Answer(false),
        Action::Address { prefer_public: false, .. } => failed("none"),
        _ => fresh(a),
    });
    assert_eq!(end, Ok(()));
    assert!(runs(&actions).is_empty());
    let questions: Vec<&str> =
        actions.iter().filter_map(|a| if let Action::Confirm(q) = a { Some(q.as_str()) } else { None }).collect();
    assert_eq!(
        questions,
        vec![
            "  SSH-check and provision a?",
            "  Check and join b as control-plane?",
            "  Check and join c as control-plane?",
            "  Check and join?",
        ]
    );
    assert_eq!(log.iter().filter(|n| **n == say("  Skipped.")).count(), 4);
    assert!(log.contains(&say("    ssh -i /home/a/.ssh/id root@<private-ip> \\")));
}

#[test]
fn declined_join_command_is_not_run() {
    let loaded = config(&[("control-plane", &["a", "b", "c"], true)], Some("10.9.9.9"), &[], None);
    let mut log = Log::new();
    let p = start(&loaded, false, &mut log);
    let (actions, end) = drive(p, &mut log, &mut |a| match a {
        Action::Confirm(q) => Event::Answer(q != "  Run join command?"),
        _ => fresh(a),
    });
    assert_eq!(end, Ok(()));
    assert!(runs(&actions).iter().all(|r| r.0 == "pub-a"));
    assert!(log.contains(&say("  Join command: kubeadm join --control-plane")));
}

#[test]
fn failures_on_the_primary_node_end_the_procedure() {
    let loaded = config(&[("control-plane", &["cp"], true)], Some("10.9.9.9"), &[], None);
    let mut log = Log::new();
    let p = start(&loaded, true, &mut log);
    let (_, end) = drive(p, &mut log, &mut |a| match a {
        Action::Capture { command, .. } if command == INIT_CHECK => failed("unreachable"),
        _ => fresh(a),
    });
    assert_eq!(end, Err("unreachable".to_string()));
    let p = start(&loaded, true, &mut log);
    let (_, end) = drive(p, &mut log, &mut |a| match a {
        Action::Run { command, .. } if command.starts_with("sudo kubeadm init") => failed("exit 1"),
        _ => fresh(a),
    });
    assert_eq!(end, Err("exit 1".to_string()));
}

#[test]
fn outcome_out_of_step_ends_the_procedure() {
    let loaded = config(&[("control-plane", &["cp"], true)], None, &[], None);
    let mut log = Log::new();
    let Progress::Wait(m, _) = start(&loaded, true, &mut log) else { panic!("did not start") };
    let Progress::Failed(e) = m.step(Event::Answer(true), &mut log) else { panic!("went on") };
    assert_eq!(e, OUT_OF_STEP);
}

#[test]
fn own_address_as_endpoint_is_a_warning() {
    for (endpoint, warned) in [("10.0.0.1:6443", true), ("10.0.0.1", true), ("10.0.0.10:6443", false), ("k8s", false)] {
        let loaded = config(&[("control-plane", &["a", "b", "c"], true)], Some(endpoint), &[], None);
        let mut log = Log::new();
        let p = start(&loaded, true, &mut log);
        drive(p, &mut log, &mut |a| match a {
            Action::Address { .. } => output("10.0.0.1"),
            _ => fresh(a),
        });
        let found = log.iter().any(|n| matches!(n, Note::Warn(s) if s.contains("is set to the primary node's own")));
        assert_eq!(found, warned, "{endpoint}");
    }
}
