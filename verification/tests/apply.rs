use maglev::command::apply::{apply_config, id_from, instance_id, Apply, APPLY_QUESTION};
use maglev::ip::IpAddressType;
use maglev::json::{array, object, put, text, Json};
use maglev::provider::digitalocean::DigitalOceanCredentials;
use maglev::provider::gcp::GcpCredentials;
use maglev::provider::{DoSetup, GcpSetup, Setup};
use maglev::session::{Action, Event, Note, Progress, VmRequest, OUT_OF_STEP};
use maglev::state::State;
use maglev::structs::{CommonConfig, DiskYaml, GenericsConfigYaml, GroupYaml, RuleYaml, SpecYaml};

type Log = Vec<Note<String>>;

fn say(s: &str) -> Note<String> {
    Note::Say(s.to_string())
}

fn output(s: &str) -> Event<String> {
    Event::Output(s.to_string())
}

fn failed(s: &str) -> Event<String> {
    Event::Failed(s.to_string())
}

fn list(items: &[&str]) -> Vec<String> {
    items.iter().map(|s| s.to_string()).collect()
}

fn layer(ip_address: IpAddressType) -> GenericsConfigYaml {
    GenericsConfigYaml {
        ssh_public_key: Some("~/.ssh/id.pub".to_string()),
        script: Some("#!/bin/bash".to_string()),
        user: Some("root".to_string()),
        control_plane_endpoint: None,
        api_server: None,
        machine_type: Some("s-2vcpu-4gb".to_string()),
        boot_disk_image: Some("debian-12".to_string()),
        boot_disk_size: Some(20),
        ip_address: Some(ip_address),
    }
}

/// Groups of (type, nodes, reached publicly).
fn common(groups: &[(&str, &[&str], bool)]) -> CommonConfig {
    CommonConfig {
        groups: groups
            .iter()
            .enumerate()
            .map(|(i, (kind, nodes, _))| GroupYaml {
                name: format!("g{i}"),
                group_type: kind.to_string(),
                node: list(nodes),
            })
            .collect(),
        specs: vec![
            SpecYaml { name: "public".to_string(), config: vec![layer(IpAddressType::Public)] },
            SpecYaml { name: "private".to_string(), config: vec![layer(IpAddressType::Private)] },
        ],
        rules: groups
            .iter()
            .enumerate()
            .map(|(i, (_, _, public))| RuleYaml {
                group: vec![format!("g{i}")],
                specs: list(&[if *public { "public" } else { "private" }]),
            })
            .collect(),
        provisioner: None,
        disks: None,
    }
}

fn on_digitalocean(common: CommonConfig) -> Setup {
    let credentials = DigitalOceanCredentials { token: "t".to_string(), region: "nyc1".to_string() };
    Setup::DigitalOcean(DoSetup { common, credentials })
}

fn disk(name: &str, node: &str) -> DiskYaml {
    DiskYaml { name: name.to_string(), size: 100, node: node.to_string() }
}

fn state(instances: &[(&str, &str)], disks: &[(&str, &str)]) -> State {
    let mut s = State::default();
    for (name, id) in instances {
        s.instances.insert(name.to_string(), id.to_string());
    }
    for (name, id) in disks {
        s.disks.insert(name.to_string(), id.to_string());
    }
    s
}

struct Run {
    actions: Vec<Action<String>>,
    /// What was saved last, as pairs of name and identifier.
    saved: Option<(Vec<(String, String)>, Vec<(String, String)>)>,
    end: Result<(), String>,
}

fn drive(
    mut p: Progress<Apply, String>,
    log: &mut Log,
    answer: &mut dyn FnMut(&Action<String>) -> Event<String>,
) -> Run {
    let mut actions = Vec::new();
    let mut saved = None;
    loop {
        match p {
            Progress::Wait(m, a) => {
                if a == Action::Save {
                    let all = |r: &maglev::registry::Registry| (0..r.len()).map(|i| r.entry(i)).collect();
                    saved = Some((all(&m.state.instances), all(&m.state.disks)));
                }
                let event = answer(&a);
                actions.push(a);
                p = m.step(event, log);
            }
            Progress::Done => return Run { actions, saved, end: Ok(()) },
            Progress::Failed(e) => return Run { actions, saved, end: Err(e) },
        }
    }
}

/// Everything works; droplets and disks get identifiers made of their names.
fn works(a: &Action<String>) -> Event<String> {
    match a {
        Action::Confirm(_) => Event::Answer(true),
        Action::ReadFile(_) => output("ssh-ed25519 AAAA me\n"),
        Action::CreateVm(vm) => Event::Output(format!("{{\"droplet\":{{\"id\":\"id-{}\"}}}}", vm.name)),
        Action::CreateDisk { name, .. } => Event::Output(format!("id-{name}")),
        _ => Event::Finished,
    }
}

fn pair(a: &str, b: &str) -> (String, String) {
    (a.to_string(), b.to_string())
}

fn home() -> Option<String> {
    Some("/home/a".to_string())
}

#[test]
fn everything_is_created_from_nothing() {
    let mut config = common(&[("control-plane", &["cp"], true), ("worker", &["w1", "w2"], false)]);
    config.disks = Some(vec![disk("data", "w1"), disk("loose", "gone")]);
    let mut log = Log::new();
    let p = apply_config(&on_digitalocean(config), State::default(), &home(), false, false, &mut log);
    let run = drive(p, &mut log, &mut works);
    assert_eq!(run.end, Ok(()));
    let vm = |name: &str, public_ip: bool| {
        Action::CreateVm(VmRequest {
            name: name.to_string(),
            machine_type: "s-2vcpu-4gb".to_string(),
            boot_disk_image: "debian-12".to_string(),
            boot_disk_size_gb: 20,
            ssh_keys: "root:ssh-ed25519 AAAA me".to_string(),
            startup_script: "#!/bin/bash".to_string(),
            public_ip,
        })
    };
    let read = || Action::ReadFile("/home/a/.ssh/id.pub".to_string());
    assert_eq!(
        run.actions,
        vec![
            Action::Confirm(APPLY_QUESTION.to_string()),
            Action::Connect,
            read(),
            vm("cp", true),
            Action::Save,
            read(),
            vm("w1", false),
            Action::Save,
            vm("w2", false),
            Action::Save,
            Action::CreateDisk { name: "data".to_string(), size_gb: 100 },
            Action::Save,
            Action::AttachDisk { disk: "id-data".to_string(), instance: "id-w1".to_string() },
            Action::CreateDisk { name: "loose".to_string(), size_gb: 100 },
            Action::Save,
        ]
    );
    assert_eq!(
        run.saved,
        Some((
            vec![pair("cp", "id-cp"), pair("w1", "id-w1"), pair("w2", "id-w2")],
            vec![pair("data", "id-data"), pair("loose", "id-loose")],
        ))
    );
    assert_eq!(
        log,
        vec![
            say("\n── Provider settings ────────────────────────────────────────────────────"),
            say("  Provider:        DigitalOcean"),
            say("  Region:          nyc1"),
            say("\n── Execution Plan ───────────────────────────────────────────────────────"),
            say("Instances to create:"),
            say("  + cp (Type: s-2vcpu-4gb, Image: debian-12)"),
            say("  + w1 (Type: s-2vcpu-4gb, Image: debian-12)"),
            say("  + w2 (Type: s-2vcpu-4gb, Image: debian-12)"),
            say("Disks to create & attach:"),
            say("  + data (Size: 100GB, Node: w1)"),
            say("  + loose (Size: 100GB, Node: gone)"),
            say("\nSummary: 3 instances to create, 0 instances to destroy, 2 disks to create, 0 disks to destroy."),
            say("\n── Creating Instances ───────────────────────────────────────────────────"),
            say("\nCreating instance \"cp\"..."),
            say("Instance \"cp\" created with ID: id-cp"),
            say("\nCreating instance \"w1\"..."),
            say("Instance \"w1\" created with ID: id-w1"),
            say("\nCreating instance \"w2\"..."),
            say("Instance \"w2\" created with ID: id-w2"),
            say("\n✓ 3 VM creation request(s) submitted successfully."),
            say("\n── Creating & Attaching Disks ───────────────────────────────────────────"),
            say("\nCreating disk \"data\"..."),
            say("Disk \"data\" created with ID: id-data"),
            say("Attaching disk \"data\" to node \"w1\"..."),
            say("Successfully requested attach for \"data\"."),
            say("\nCreating disk \"loose\"..."),
            say("Disk \"loose\" created with ID: id-loose"),
            say("⚠ Cannot attach disk \"loose\": Target node \"gone\" not found in state."),
            say("\n✓ 2 disk(s) created and attachment requested."),
        ]
    );
}

#[test]
fn second_run_does_nothing() {
    let mut config = common(&[("control-plane", &["cp"], true)]);
    config.disks = Some(vec![disk("data", "cp")]);
    let mut log = Log::new();
    let known = state(&[("cp", "1")], &[("data", "2")]);
    let p = apply_config(&on_digitalocean(config), known, &home(), false, false, &mut log);
    let run = drive(p, &mut log, &mut works);
    assert_eq!((run.actions, run.end), (vec![Action::Connect], Ok(())));
    assert_eq!(
        log.last(),
        Some(&say("All nodes and disks are already in the desired state. Nothing to do."))
    );
}

#[test]
fn what_is_no_longer_wanted_is_deleted_first() {
    let config = common(&[("control-plane", &["cp", "new"], true)]);
    let mut log = Log::new();
    let known = state(&[("zeta", "9"), ("cp", "1"), ("alpha", "8")], &[("old", "7")]);
    let p = apply_config(&on_digitalocean(config), known, &home(), false, true, &mut log);
    let run = drive(p, &mut log, &mut works);
    assert_eq!(run.end, Ok(()));
    assert_eq!(
        run.actions[..7],
        [
            Action::Connect,
            Action::DestroyDisk("7".to_string()),
            Action::Save,
            Action::DestroyVm("8".to_string()),
            Action::Save,
            Action::DestroyVm("9".to_string()),
            Action::Save,
        ]
    );
    assert_eq!(run.saved, Some((vec![pair("cp", "1"), pair("new", "id-new")], vec![])));
    for line in [
        "Instances to destroy:",
        "  - alpha (ID: 8)",
        "  - zeta (ID: 9)",
        "Disks to destroy:",
        "  - old (ID: 7)",
        "\nSummary: 1 instances to create, 2 instances to destroy, 0 disks to create, 1 disks to destroy.",
        "\n── Destroying Disks ─────────────────────────────────────────────────────",
        "Destroying disk \"old\" (ID: 7)...",
        "Disk \"old\" destroyed.",
        "\n── Destroying Instances ─────────────────────────────────────────────────",
        "Destroying instance \"zeta\"...",
        "Instance \"zeta\" destroyed.",
    ] {
        assert!(log.contains(&say(line)), "{line}");
    }
}

#[test]
fn google_cloud_instances_are_deleted_by_name() {
    let credentials = GcpCredentials {
        client_email: "".to_string(),
        private_key_path: "".to_string(),
        project_id: "p".to_string(),
        zone: "z".to_string(),
    };
    let setup = Setup::Gcp(GcpSetup { common: common(&[]), credentials });
    let mut log = Log::new();
    let p = apply_config(&setup, state(&[("old", "{}")], &[]), &home(), false, true, &mut log);
    let run = drive(p, &mut log, &mut works);
    assert_eq!(run.actions, vec![Action::Connect, Action::DestroyVm("old".to_string()), Action::Save]);
    assert!(log.contains(&say("  Provider:        GCP")));
    assert!(log.contains(&say("  Zone:            z")));
}

#[test]
fn declined_plan_changes_nothing() {
    let mut log = Log::new();
    let p = apply_config(
        &on_digitalocean(common(&[("worker", &["w"], true)])),
        State::default(),
        &home(),
        true,
        false,
        &mut log,
    );
    let run = drive(p, &mut log, &mut |_| Event::Answer(false));
    assert_eq!(run.actions, vec![Action::Confirm(APPLY_QUESTION.to_string())]);
    assert_eq!(run.end, Ok(()));
    assert_eq!(log.last(), Some(&say("Aborted.")));
}

#[test]
fn failed_deletions_are_only_reported() {
    let mut log = Log::new();
    let known = state(&[("old", "9")], &[("disk", "7")]);
    let p = apply_config(&on_digitalocean(common(&[])), known, &home(), false, true, &mut log);
    let run = drive(p, &mut log, &mut |a| match a {
        Action::Connect => Event::Finished,
        _ => failed("busy"),
    });
    assert_eq!(run.end, Ok(()));
    assert_eq!(run.saved, None);
    assert!(log.contains(&Note::Warn("  ⚠ Failed to destroy disk disk: busy".to_string())));
    assert!(log.contains(&Note::Warn("  ⚠ Failed to destroy instance old: busy".to_string())));
}

#[test]
fn failed_creations_end_the_work() {
    let mut config = common(&[("worker", &["w"], true)]);
    config.disks = Some(vec![disk("data", "w")]);
    let setup = on_digitalocean(config);
    for (what, message) in [("vm", "no quota"), ("disk", "no space"), ("save", "read-only")] {
        let mut log = Log::new();
        let p = apply_config(&setup, State::default(), &home(), false, true, &mut log);
        let run = drive(p, &mut log, &mut |a| match a {
            Action::CreateVm(_) if what == "vm" => failed(message),
            Action::CreateDisk { .. } if what == "disk" => failed(message),
            Action::Save if what == "save" => failed(message),
            _ => works(a),
        });
        assert_eq!(run.end, Err(message.to_string()));
    }
}

#[test]
fn failed_attachment_is_only_reported() {
    let mut config = common(&[("worker", &["w"], true)]);
    config.disks = Some(vec![disk("data", "w")]);
    let mut log = Log::new();
    let p = apply_config(&on_digitalocean(config), state(&[("w", "1")], &[]), &home(), false, true, &mut log);
    let run = drive(p, &mut log, &mut |a| match a {
        Action::AttachDisk { .. } => failed("busy"),
        _ => works(a),
    });
    assert_eq!(run.end, Ok(()));
    assert!(log.contains(&Note::Warn("  ⚠ Failed to attach disk \"data\": busy".to_string())));
    assert!(log.contains(&say("\n✓ 1 disk(s) created and attachment requested.")));
}

#[test]
fn instance_is_created_without_a_readable_key() {
    let mut log = Log::new();
    let p = apply_config(
        &on_digitalocean(common(&[("worker", &["w"], true)])),
        State::default(),
        &None,
        false,
        true,
        &mut log,
    );
    let run = drive(p, &mut log, &mut |a| match a {
        Action::ReadFile(_) => failed("No such file"),
        _ => works(a),
    });
    assert_eq!(run.end, Ok(()));
    assert!(matches!(&run.actions[2], Action::CreateVm(vm) if vm.ssh_keys.is_empty()));
    assert!(log.contains(&Note::Warn(
        "  ⚠ Could not read SSH public key: Cannot read SSH public key from './.ssh/id.pub': No such file".to_string()
    )));
}

#[test]
fn node_of_two_rules_is_created_once() {
    let mut config = common(&[("worker", &["w"], true)]);
    config.rules.push(RuleYaml { group: list(&["g0"]), specs: list(&["private"]) });
    let mut log = Log::new();
    let p = apply_config(&on_digitalocean(config), State::default(), &home(), false, true, &mut log);
    let run = drive(p, &mut log, &mut works);
    assert_eq!(run.actions.iter().filter(|a| matches!(a, Action::CreateVm(_))).count(), 1);
    assert!(log.contains(&say(
        "\nSummary: 2 instances to create, 0 instances to destroy, 0 disks to create, 0 disks to destroy."
    )));
    assert!(log.contains(&say("\n✓ 1 VM creation request(s) submitted successfully.")));
}

#[test]
fn play_follows_where_it_is_wanted() {
    let setup = on_digitalocean(common(&[("control-plane", &["cp"], true)]));
    let mut log = Log::new();
    let p = apply_config(&setup, state(&[("cp", "1")], &[]), &home(), true, false, &mut log);
    let run = drive(p, &mut log, &mut works);
    assert_eq!((run.actions, run.end), (vec![Action::Connect, Action::Play], Ok(())));
    assert_eq!(
        log.last(),
        Some(&say("\n── --play flag set: handing off to play ────────────────────────────────"))
    );
    let p = apply_config(&setup, state(&[("cp", "1")], &[]), &home(), true, false, &mut log);
    let run = drive(p, &mut log, &mut |a| match a {
        Action::Play => failed("unreachable"),
        _ => works(a),
    });
    assert_eq!(run.end, Err("unreachable".to_string()));
}

#[test]
fn nothing_is_done_without_access() {
    let setup = on_digitalocean(common(&[("worker", &["w"], true)]));
    let mut log = Log::new();
    let p = apply_config(&setup, State::default(), &home(), true, true, &mut log);
    let run = drive(p, &mut log, &mut |_| failed("DigitalOcean authentication failed"));
    assert_eq!(run.actions, vec![Action::Connect]);
    assert_eq!(run.end, Err("DigitalOcean authentication failed".to_string()));
}

#[test]
fn identifiers_are_found_in_replies() {
    assert_eq!(instance_id("{\"droplet\":{\"id\":123}}"), "123");
    assert_eq!(instance_id("{\"droplet\":{\"id\":\"abc\"}}"), "abc");
    for reply in ["{\"droplet\":{\"id\":-1}}", "{\"droplet\":{\"id\":1.5}}", "{\"droplet\":{\"id\":null}}", "{}", "no json"] {
        assert_eq!(instance_id(reply), reply);
    }
    let droplet = |id: Json| put(object(), "droplet", put(object(), "id", id));
    assert_eq!(id_from(&droplet(Json::Number("7".to_string())), "r"), "7");
    assert_eq!(id_from(&droplet(text("x")), "r"), "x");
    assert_eq!(id_from(&droplet(Json::Number("7.5".to_string())), "r"), "r");
    assert_eq!(id_from(&array(), "r"), "r");
}

#[test]
fn unresolvable_rules_end_the_work() {
    let mut config = common(&[("worker", &["w"], true)]);
    config.rules[0].group = list(&["none"]);
    let mut log = Log::new();
    let Progress::Failed(e) = apply_config(&on_digitalocean(config), State::default(), &home(), false, true, &mut log)
    else {
        panic!("started")
    };
    assert_eq!(e, "Rule references unknown group 'none'");
}

#[test]
fn outcome_out_of_step_ends_the_work() {
    let setup = on_digitalocean(common(&[("worker", &["w"], true)]));
    let mut log = Log::new();
    let Progress::Wait(m, _) = apply_config(&setup, State::default(), &home(), false, false, &mut log) else {
        panic!("did not start")
    };
    let Progress::Failed(e) = m.step(Event::Finished, &mut log) else { panic!("went on") };
    assert_eq!(e, OUT_OF_STEP);
}
