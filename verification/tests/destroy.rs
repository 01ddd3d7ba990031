use maglev::command::destroy::{destroy_config, Destroy, DESTROY_QUESTION};
use maglev::ip::IpAddressType;
use maglev::provider::digitalocean::{DigitalOceanCredentials, DigitalOceanProvider};
use maglev::provider::LoadedProvider;
use maglev::session::{Action, Event, Note, Progress, OUT_OF_STEP};
use maglev::state::State;
use maglev::structs::{CommonConfig, GenericsConfigYaml, GroupYaml, RuleYaml, SpecYaml};

type Log = Vec<Note<String>>;

fn say(s: &str) -> Note<String> {
    Note::Say(s.to_string())
}

fn output(s: &str) -> Event<String> {
    Event::Output(s.to_string())
}

fn failed(s: &str) -> Event<String> {
    Event::Failed(s.to_string())
}

fn list(items: &[&str]) -> Vec<String> {
    items.iter().map(|s| s.to_string()).collect()
}

fn layer(ip_address: IpAddressType) -> GenericsConfigYaml {
    GenericsConfigYaml {
        ssh_public_key: Some("~/.ssh/id.pub".to_string()),
        script: Some("#!/bin/bash".to_string()),
        user: Some("root".to_string()),
        control_plane_endpoint: None,
        api_server: None,
        machine_type: Some("s-2vcpu-4gb".to_string()),
        boot_disk_image: Some("debian-12".to_string()),
        boot_disk_size: Some(20),
        ip_address: Some(ip_address),
    }
}

/// Groups of (type, nodes, reached publicly).
fn common(groups: &[(&str, &[&str], bool)]) -> CommonConfig {
    CommonConfig {
        groups: groups
            .iter()
            .enumerate()
            .map(|(i, (kind, nodes, _))| GroupYaml {
                name: format!("g{i}"),
                group_type: kind.to_string(),
                node: list(nodes),
            })
            .collect(),
        specs: vec![
            SpecYaml { name: "public".to_string(), config: vec![layer(IpAddressType::Public)] },
            SpecYaml { name: "private".to_string(), config: vec![layer(IpAddressType::Private)] },
        ],
        rules: groups
            .iter()
            .enumerate()
            .map(|(i, (_, _, public))| RuleYaml {
                group: vec![format!("g{i}")],
                specs: list(&[if *public { "public" } else { "private" }]),
            })
            .collect(),
        provisioner: None,
        disks: None,
    }
}

fn on_digitalocean(common: CommonConfig) -> LoadedProvider {
    let creds = DigitalOceanCredentials { token: "t".to_string(), region: "nyc1".to_string() };
    LoadedProvider::DigitalOcean {
        common,
        location: "nyc1".to_string(),
        provisioner: None,
        provider: DigitalOceanProvider::new(&creds),
    }
}

fn known() -> State {
    let mut s = State::default();
    s.instances.insert("cp".to_string(), "1".to_string());
    s.instances.insert("other".to_string(), "5".to_string());
    s.disks.insert("data".to_string(), "2".to_string());
    s
}

fn drive(
    mut p: Progress<Destroy, String>,
    log: &mut Log,
    answer: &mut dyn FnMut(&Action<String>) -> Event<String>,
) -> (Vec<Action<String>>, Vec<String>, Result<(), String>) {
    let mut actions = Vec::new();
    let mut left = Vec::new();
    loop {
        match p {
            Progress::Wait(m, a) => {
                if a == Action::Save {
                    left = [&m.state.instances, &m.state.disks]
                        .iter()
                        .flat_map(|r| (0..r.len()).map(|i| r.entry(i).0).collect::<Vec<_>>())
                        .collect();
                }
                let event = answer(&a);
                actions.push(a);
                p = m.step(event, log);
            }
            Progress::Done => return (actions, left, Ok(())),
            Progress::Failed(e) => return (actions, left, Err(e)),
        }
    }
}

fn config() -> LoadedProvider {
    on_digitalocean(common(&[("control-plane", &["cp"], true), ("worker", &["w"], false)]))
}

#[test]
fn everything_is_deleted() {
    let mut log = Log::new();
    let p = destroy_config(&config(), known(), false, &mut log);
    let (actions, left, end) = drive(p, &mut log, &mut |a| match a {
        Action::Confirm(_) => Event::Answer(true),
        Action::AttachedInstance(_) => output("1"),
        _ => Event::Finished,
    });
    assert_eq!(end, Ok(()));
    assert_eq!(
        actions,
        vec![
            Action::Confirm(DESTROY_QUESTION.to_string()),
            Action::AttachedInstance("2".to_string()),
            Action::Confirm("Detach disk \"data\" from instance \"1\"?".to_string()),
            Action::DetachDisk { disk: "2".to_string(), instance: "1".to_string() },
            Action::DestroyVm("1".to_string()),
            Action::DestroyVm("w".to_string()),
            Action::DestroyDisk("2".to_string()),
            Action::Save,
        ]
    );
    assert_eq!(left, list(&["other"]));
    assert_eq!(
        log,
        vec![
            say("\n── Provider settings ────────────────────────────────────────────────────"),
            say("  Provider:        DigitalOcean"),
            say("  Region:          nyc1"),
            say("\n── Instances to destroy ─────────────────────────────────────────────────"),
            say("  [control-plane] g0  →  cp"),
            say("  [worker] g1  →  w"),
            say(""),
            say("⚠  This action is IRREVERSIBLE. 2 VM instance(s) and 1"),
            say("   attached disk(s) will be permanently deleted."),
            say("\n── Pre-Destruction Checks ───────────────────────────────────────────────"),
            say("Checking if disk \"data\" needs to be detached..."),
            say("Disk \"data\" is attached to instance ID \"1\"."),
            say("Detaching disk \"data\"..."),
            say("Disk \"data\" detached."),
            say("\n[control-plane/g0] cp deleted"),
            say("\n[worker/g1] w deleted"),
            say("\n── Disks to destroy ─────────────────────────────────────────────────────"),
            say("  [Disk] data deleted"),
            say("\n✓ Deletion requests submitted. Operations may take a minute to complete."),
        ]
    );
}

#[test]
fn declined_destruction_deletes_nothing() {
    let mut log = Log::new();
    let p = destroy_config(&config(), known(), false, &mut log);
    let (actions, _, end) = drive(p, &mut log, &mut |_| Event::Answer(false));
    assert_eq!(actions, vec![Action::Confirm(DESTROY_QUESTION.to_string())]);
    assert_eq!(end, Ok(()));
    assert_eq!(log.last(), Some(&say("Aborted — nothing was deleted.")));
}

#[test]
fn blanket_approval_asks_nothing() {
    let mut log = Log::new();
    let p = destroy_config(&config(), known(), true, &mut log);
    let (actions, _, end) = drive(p, &mut log, &mut |a| match a {
        Action::AttachedInstance(_) => output("1"),
        _ => Event::Finished,
    });
    assert_eq!(end, Ok(()));
    assert!(!actions.iter().any(|a| matches!(a, Action::Confirm(_))));
    assert!(log.contains(&say("\nProceed with destroying all VM instances and disks? [auto-approved]")));
    assert!(log.contains(&say("Detach disk \"data\" from instance \"1\"? [auto-approved]")));
}

#[test]
fn disk_stays_attached_where_that_is_wanted() {
    for event in [Event::Finished, failed("unknown")] {
        let mut log = Log::new();
        let p = destroy_config(&config(), known(), true, &mut log);
        let mut event = Some(event);
        let (actions, _, _) = drive(p, &mut log, &mut |a| match a {
            Action::AttachedInstance(_) => event.take().unwrap(),
            _ => Event::Finished,
        });
        assert!(!actions.iter().any(|a| matches!(a, Action::DetachDisk { .. })));
    }
    let mut log = Log::new();
    let p = destroy_config(&config(), known(), false, &mut log);
    let (actions, _, _) = drive(p, &mut log, &mut |a| match a {
        Action::Confirm(q) => Event::Answer(q == DESTROY_QUESTION),
        Action::AttachedInstance(_) => output("1"),
        _ => Event::Finished,
    });
    assert!(!actions.iter().any(|a| matches!(a, Action::DetachDisk { .. })));
}

#[test]
fn what_is_not_there_is_forgotten() {
    let mut log = Log::new();
    let p = destroy_config(&config(), known(), true, &mut log);
    let (_, left, end) = drive(p, &mut log, &mut |a| match a {
        Action::DestroyVm(_) | Action::DestroyDisk(_) => failed("HTTP 404 Not Found"),
        _ => Event::Finished,
    });
    assert_eq!(end, Ok(()));
    assert_eq!(left, list(&["other"]));
    assert!(log.contains(&say("\n[control-plane/g0] cp not found (already deleted)")));
    assert!(log.contains(&say("  [Disk] data not found (already deleted)")));
}

#[test]
fn what_could_not_be_deleted_is_remembered() {
    let mut log = Log::new();
    let p = destroy_config(&config(), known(), true, &mut log);
    let (_, left, end) = drive(p, &mut log, &mut |a| match a {
        Action::AttachedInstance(_) => output("1"),
        _ => failed("HTTP 500"),
    });
    assert_eq!(end, Ok(()));
    assert_eq!(left, list(&["cp", "other", "data"]));
    for line in [
        "  ⚠ Failed to detach disk data: HTTP 500",
        "  ✗ Failed to delete cp: HTTP 500",
        "  ✗ Failed to delete w: HTTP 500",
        "  ✗ Failed to delete disk data: HTTP 500",
        "\n⚠ Failed to save state file updates: HTTP 500",
    ] {
        assert!(log.contains(&Note::Warn(line.to_string())), "{line}");
    }
}

#[test]
fn destruction_without_disks_goes_straight_to_the_instances() {
    let mut log = Log::new();
    let p = destroy_config(&config(), State::default(), true, &mut log);
    let (actions, left, _) = drive(p, &mut log, &mut |_| Event::Finished);
    assert_eq!(
        actions,
        vec![Action::DestroyVm("cp".to_string()), Action::DestroyVm("w".to_string()), Action::Save]
    );
    assert!(left.is_empty());
}

#[test]
fn outcome_out_of_step_ends_the_destruction() {
    let mut log = Log::new();
    let Progress::Wait(m, _) = destroy_config(&config(), known(), false, &mut log) else { panic!("did not start") };
    let Progress::Failed(e) = m.step(output("x"), &mut log) else { panic!("went on") };
    assert_eq!(e, OUT_OF_STEP);
}
