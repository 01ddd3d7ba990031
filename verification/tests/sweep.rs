use maglev::command::reset::reset_config;
use maglev::command::restart::restart_config;
use maglev::command::sweep::{Sweep, REBOOT_COMMAND, RESET_COMMAND};
use maglev::ip::IpAddressType;
use maglev::provider::digitalocean::{DigitalOceanCredentials, DigitalOceanProvider};
use maglev::provider::LoadedProvider;
use maglev::registry::Registry;
use maglev::session::{Action, Event, Note, Progress, OUT_OF_STEP};
use maglev::structs::{CommonConfig, GenericsConfigYaml, GroupYaml, ProvisionerYaml, RuleYaml, SpecYaml};

type Log = Vec<Note<String>>;

fn say(s: &str) -> Note<String> {
    Note::Say(s.to_string())
}

fn failed(s: &str) -> Event<String> {
    Event::Failed(s.to_string())
}

fn list(items: &[&str]) -> Vec<String> {
    items.iter().map(|s| s.to_string()).collect()
}

fn layer(ip_address: IpAddressType) -> GenericsConfigYaml {
    GenericsConfigYaml {
        ssh_public_key: Some("~/.ssh/id.pub".to_string()),
        script: Some("#!/bin/bash".to_string()),
        user: Some("root".to_string()),
        control_plane_endpoint: None,
        api_server: None,
        machine_type: Some("s-2vcpu-4gb".to_string()),
        boot_disk_image: Some("debian-12".to_string()),
        boot_disk_size: Some(20),
        ip_address: Some(ip_address),
    }
}

/// Groups of (type, nodes, reached publicly).
fn common(groups: &[(&str, &[&str], bool)]) -> CommonConfig {
    CommonConfig {
        groups: groups
            .iter()
            .enumerate()
            .map(|(i, (kind, nodes, _))| GroupYaml {
                name: format!("g{i}"),
                group_type: kind.to_string(),
                node: list(nodes),
            })
            .collect(),
        specs: vec![
            SpecYaml { name: "public".to_string(), config: vec![layer(IpAddressType::Public)] },
            SpecYaml { name: "private".to_string(), config: vec![layer(IpAddressType::Private)] },
        ],
        rules: groups
            .iter()
            .enumerate()
            .map(|(i, (_, _, public))| RuleYaml {
                group: vec![format!("g{i}")],
                specs: list(&[if *public { "public" } else { "private" }]),
            })
            .collect(),
        provisioner: None,
        disks: None,
    }
}

fn on_digitalocean(common: CommonConfig) -> LoadedProvider {
    let creds = DigitalOceanCredentials { token: "t".to_string(), region: "nyc1".to_string() };
    LoadedProvider::DigitalOcean {
        common,
        location: "nyc1".to_string(),
        provisioner: None,
        provider: DigitalOceanProvider::new(&creds),
    }
}

fn with_provisioner(mut config: CommonConfig, kind: &str, node: &str) -> CommonConfig {
    config.provisioner =
        Some(ProvisionerYaml { provisioner_type: kind.to_string(), node: node.to_string() });
    config
}

fn drive(
    mut p: Progress<Sweep, String>,
    log: &mut Log,
    answer: &mut dyn FnMut(&Action<String>) -> Event<String>,
) -> (Vec<Action<String>>, Result<Option<Sweep>, String>) {
    let mut actions = Vec::new();
    loop {
        match p {
            Progress::Wait(m, Action::Broadcast) => {
                actions.push(Action::Broadcast);
                return (actions, Ok(Some(m)));
            }
            Progress::Wait(m, a) => {
                let event = answer(&a);
                actions.push(a);
                p = m.step(event, log);
            }
            Progress::Done => return (actions, Ok(None)),
            Progress::Failed(e) => return (actions, Err(e)),
        }
    }
}

fn works(a: &Action<String>) -> Event<String> {
    match a {
        Action::Confirm(_) => Event::Answer(true),
        Action::Address { instance, prefer_public } => {
            Event::Output(format!("{}-{instance}", if *prefer_public { "pub" } else { "priv" }))
        }
        _ => Event::Finished,
    }
}

fn routes(actions: &[Action<String>]) -> Vec<(String, Option<String>)> {
    actions
        .iter()
        .filter_map(|a| match a {
            Action::Run { ip, jump, command } => {
                assert_eq!(command, RESET_COMMAND);
                Some((ip.clone(), jump.clone()))
            }
            _ => None,
        })
        .collect()
}

fn home() -> Option<String> {
    Some("/home/a".to_string())
}

fn reset(config: CommonConfig) -> Vec<(String, Option<String>)> {
    let mut log = Log::new();
    let p = reset_config(&on_digitalocean(config), &home(), true, &mut log);
    let (actions, end) = drive(p, &mut log, &mut works);
    assert!(matches!(end, Ok(None)));
    routes(&actions)
}

fn to(ip: &str, jump: Option<&str>) -> (String, Option<String>) {
    (ip.to_string(), jump.map(|s| s.to_string()))
}

#[test]
fn nodes_are_reset_one_by_one() {
    let mut log = Log::new();
    let config = common(&[("control-plane", &["cp"], true), ("worker", &["w"], false)]);
    let p = reset_config(&on_digitalocean(config), &home(), false, &mut log);
    let (actions, _) = drive(p, &mut log, &mut works);
    assert_eq!(
        actions,
        vec![
            Action::Address { instance: "cp".to_string(), prefer_public: true },
            Action::Address { instance: "w".to_string(), prefer_public: false },
            Action::Confirm("\nProceed with kubeadm reset on all nodes?".to_string()),
            Action::Confirm("  Reset cp?".to_string()),
            Action::Run { ip: "pub-cp".to_string(), jump: None, command: RESET_COMMAND.to_string() },
            Action::Confirm("  Reset w?".to_string()),
            Action::Run {
                ip: "priv-w".to_string(),
                jump: Some("pub-cp".to_string()),
                command: RESET_COMMAND.to_string(),
            },
        ]
    );
    assert_eq!(
        log[3..],
        [
            say("\n── Nodes to reset ───────────────────────────────────────────────────────"),
            say("Fetching IPs …\n"),
            say("  cp                             →  pub-cp  (public)"),
            say("  w                              →  priv-w  (private)"),
            say("\n  SSH user: root  private key: /home/a/.ssh/id"),
            say("\n⚠  This will reset kubeadm state on all nodes. Any clusters will be destroyed."),
            say("\n  [1/2] cp  (pub-cp)"),
            say("  Running kubeadm reset …"),
            say("  ✓ cp reset."),
            say("\n  [2/2] w  (priv-w)"),
            say("  Running kubeadm reset …"),
            say("  ✓ w reset."),
            say("\n✓ Reset complete. All nodes have been reset to clean state."),
        ]
    );
    assert_eq!(
        RESET_COMMAND,
        "sudo kubeadm reset -f && sudo rm -rf /etc/cni /etc/kubernetes /var/lib/etcd /var/lib/kubelet"
    );
}

#[test]
fn provisioner_is_the_jump_host() {
    let config = common(&[("control-plane", &["cp"], true), ("worker", &["w"], false)]);
    assert_eq!(
        reset(with_provisioner(config, "public", "bastion")),
        vec![to("pub-cp", None), to("priv-w", Some("pub-bastion"))]
    );
}

#[test]
fn private_provisioner_is_no_jump_host() {
    let config = common(&[("control-plane", &["cp"], true), ("worker", &["w"], false)]);
    assert_eq!(
        reset(with_provisioner(config, "private", "cp")),
        vec![to("pub-cp", None), to("priv-w", Some("pub-cp"))]
    );
    let config = common(&[("worker", &["w1"], true), ("worker", &["w2"], false), ("control-plane", &["cp"], true)]);
    assert_eq!(
        reset(with_provisioner(config, "private", "cp")),
        vec![to("pub-w1", None), to("priv-w2", Some("pub-w1")), to("pub-cp", None)]
    );
}

#[test]
fn provisioner_is_not_asked_for_without_need() {
    let config = with_provisioner(common(&[("control-plane", &["cp"], true)]), "public", "bastion");
    let mut log = Log::new();
    let p = reset_config(&on_digitalocean(config), &home(), true, &mut log);
    let (actions, _) = drive(p, &mut log, &mut works);
    assert_eq!(actions.iter().filter(|a| matches!(a, Action::Address { .. })).count(), 1);
}

#[test]
fn first_control_plane_node_is_the_implicit_jump_host() {
    assert_eq!(
        reset(common(&[("worker", &["w1"], true), ("worker", &["w2"], false), ("control-plane", &["cp"], true)])),
        vec![to("pub-w1", None), to("priv-w2", Some("pub-cp")), to("pub-cp", None)]
    );
}

#[test]
fn any_public_node_may_be_the_jump_host() {
    assert_eq!(
        reset(common(&[("control-plane", &["cp"], false), ("worker", &["w"], true)])),
        vec![to("priv-cp", Some("pub-w")), to("pub-w", None)]
    );
    assert_eq!(
        reset(common(&[("control-plane", &["cp"], false)])),
        vec![to("priv-cp", None)]
    );
}

#[test]
fn declined_reset_touches_nothing() {
    let config = common(&[("control-plane", &["a", "b"], true)]);
    let mut log = Log::new();
    let p = reset_config(&on_digitalocean(config), &home(), false, &mut log);
    let (actions, end) = drive(p, &mut log, &mut |a| match a {
        Action::Confirm(_) => Event::Answer(false),
        _ => works(a),
    });
    assert!(matches!(end, Ok(None)));
    assert!(routes(&actions).is_empty());
    assert_eq!(log.last(), Some(&say("Aborted.")));

    let config = common(&[("control-plane", &["a", "b"], true)]);
    let p = reset_config(&on_digitalocean(config), &home(), false, &mut log);
    let (actions, _) = drive(p, &mut log, &mut |a| match a {
        Action::Confirm(q) => Event::Answer(q != "  Reset a?"),
        _ => works(a),
    });
    assert_eq!(routes(&actions), vec![to("pub-b", None)]);
    assert!(log.contains(&say("  Skipped.")));
}

#[test]
fn failed_reset_is_only_reported() {
    let config = common(&[("control-plane", &["a", "b"], true)]);
    let mut log = Log::new();
    let p = reset_config(&on_digitalocean(config), &home(), true, &mut log);
    let (actions, end) = drive(p, &mut log, &mut |a| match a {
        Action::Run { .. } => failed("Remote command exited 1"),
        _ => works(a),
    });
    assert!(matches!(end, Ok(None)));
    assert_eq!(routes(&actions).len(), 2);
    assert!(log.contains(&Note::Warn("  ✗ Failed to reset a: Remote command exited 1".to_string())));
}

#[test]
fn sweep_needs_nodes_and_a_control_plane() {
    let mut log = Log::new();
    let p = reset_config(&on_digitalocean(common(&[("control-plane", &[], true)])), &home(), true, &mut log);
    assert!(matches!(p, Progress::Done));
    assert_eq!(log.last(), Some(&say("  No nodes found in config.")));
    let p = reset_config(&on_digitalocean(common(&[("worker", &["w"], true)])), &home(), true, &mut log);
    assert!(matches!(p, Progress::Failed(e) if e == "No control-plane rules found in config"));
    let mut config = common(&[("worker", &["w"], true)]);
    config.rules[0].group = vec![];
    let p = reset_config(&on_digitalocean(config), &home(), true, &mut log);
    assert!(matches!(p, Progress::Failed(e) if e == "Rule has an empty group list"));
}

#[test]
fn address_that_cannot_be_had_ends_the_sweep() {
    let config = common(&[("control-plane", &["cp"], true)]);
    let mut log = Log::new();
    let p = reset_config(&on_digitalocean(config), &home(), true, &mut log);
    let (_, end) = drive(p, &mut log, &mut |_| failed("no such droplet"));
    assert!(matches!(end, Err(e) if e == "no such droplet"));
    let config =
        with_provisioner(common(&[("control-plane", &["cp"], false)]), "public", "bastion");
    let p = reset_config(&on_digitalocean(config), &home(), true, &mut log);
    let (_, end) = drive(p, &mut log, &mut |a| match a {
        Action::Address { prefer_public: true, .. } => failed("no bastion"),
        _ => works(a),
    });
    assert!(matches!(end, Err(e) if e == "no bastion"));
}

#[test]
fn outcome_out_of_step_ends_the_sweep() {
    let config = common(&[("control-plane", &["cp"], true)]);
    let mut log = Log::new();
    let Progress::Wait(m, _) = reset_config(&on_digitalocean(config), &home(), true, &mut log) else {
        panic!("did not start")
    };
    assert!(matches!(m.step(Event::Finished, &mut log), Progress::Failed(e) if e == OUT_OF_STEP));
}

fn reboot(ip: &str, jump: Option<&str>) -> Action<String> {
    Action::Run { ip: ip.to_string(), jump: jump.map(str::to_string), command: "sudo reboot".to_string() }
}

fn instances(pairs: &[(&str, &str)]) -> Registry {
    let mut r = Registry::new();
    for (name, id) in pairs {
        r.insert(name.to_string(), id.to_string());
    }
    r
}

#[test]
fn nodes_are_rebooted_together() {
    let config = common(&[("control-plane", &["cp"], true), ("worker", &["w1", "w2"], false)]);
    let mut log = Log::new();
    let known = instances(&[("cp", "1"), ("w1", "2"), ("w2", "3")]);
    let p = restart_config(&on_digitalocean(config), known, &home(), false, &mut log);
    let (actions, end) = drive(p, &mut log, &mut works);
    assert_eq!(
        actions,
        vec![
            Action::Address { instance: "1".to_string(), prefer_public: true },
            Action::Address { instance: "2".to_string(), prefer_public: false },
            Action::Address { instance: "3".to_string(), prefer_public: false },
            Action::Confirm("\nProceed with restarting all nodes?".to_string()),
            Action::Broadcast,
        ]
    );
    let Ok(Some(m)) = end else { panic!("no broadcast") };
    assert_eq!(
        m.orders(),
        vec![reboot("pub-1", None), reboot("priv-2", Some("pub-1")), reboot("priv-3", Some("pub-1"))]
    );
    assert_eq!((m.user.as_str(), m.key.as_str(), REBOOT_COMMAND), ("root", "/home/a/.ssh/id", "sudo reboot"));
    let start = log.len();
    m.report(
        &vec![None, Some("Remote command (jump) exited 255".to_string()), Some("Failed to spawn ssh: gone".to_string())],
        &mut log,
    );
    assert_eq!(log[start - 1], say("\nSending reboot signals to all nodes in parallel …"));
    assert_eq!(
        log[start..],
        [
            say("  ✓ cp reboot initiated."),
            say("  ✓ w1 reboot initiated (connection closed)."),
            Note::Warn("  ✗ Failed to restart w2: Failed to spawn ssh: gone".to_string()),
            say("\n✓ Restart signals sent to all nodes."),
            say("  Nodes will be available again in 1-2 minutes."),
        ]
    );
    let end = log.len();
    assert!(matches!(m.step(Event::Finished, &mut log), Progress::Done));
    assert_eq!(log.len(), end);
}

#[test]
fn restart_needs_every_identifier() {
    let config = common(&[("control-plane", &["cp"], true), ("worker", &["w"], false)]);
    let mut log = Log::new();
    let p = restart_config(&on_digitalocean(config), instances(&[("cp", "1")]), &home(), true, &mut log);
    let (actions, end) = drive(p, &mut log, &mut works);
    assert_eq!(actions, vec![Action::Address { instance: "1".to_string(), prefer_public: true }]);
    assert!(matches!(end, Err(e) if e == "No instance ID found for node 'w' in state. Run 'apply' first."));
}

#[test]
fn restart_asks_for_the_provisioner_by_identifier() {
    let config = common(&[("control-plane", &["cp"], false)]);
    let mut log = Log::new();
    let p = restart_config(
        &on_digitalocean(with_provisioner(config, "public", "cp")),
        instances(&[("cp", "1")]),
        &home(),
        true,
        &mut log,
    );
    let (actions, end) = drive(p, &mut log, &mut works);
    assert_eq!(actions[1], Action::Address { instance: "1".to_string(), prefer_public: true });
    let Ok(Some(m)) = end else { panic!("no broadcast") };
    assert_eq!(m.orders(), vec![reboot("priv-1", Some("pub-1"))]);
    assert!(log.contains(&say("\nProceed with restarting all nodes? [auto-approved]")));
    assert!(log.contains(&say("⚠  All nodes will be rebooted. Services will be temporarily unavailable.")));
}

#[test]
fn declined_restart_reboots_nothing() {
    let config = common(&[("control-plane", &["cp"], true)]);
    let mut log = Log::new();
    let p = restart_config(&on_digitalocean(config), instances(&[("cp", "1")]), &home(), false, &mut log);
    let (actions, end) = drive(p, &mut log, &mut |a| match a {
        Action::Confirm(_) => Event::Answer(false),
        _ => works(a),
    });
    assert!(matches!(end, Ok(None)));
    assert!(!actions.contains(&Action::Broadcast));
    assert_eq!(log.last(), Some(&say("Aborted.")));
}
