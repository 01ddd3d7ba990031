use maglev::containerd::{judge_containerd, Readiness, ATTEMPTS};
use maglev::endpoint::{add_port, control_plane_endpoint, endpoint_host, endpoint_is, ipv4, ipv6};
use maglev::ip::IpAddressType;
use maglev::json::Json;
use maglev::registry::Registry;
use maglev::rule::{resolve_rule, resolve_rules, RuleError};
use maglev::session::Note;
use maglev::spec::{merge_spec_configs, MergeError, RequiredField};
use maglev::state::State;
use maglev::structs::{
    clone_provisioner, ApiServerConfigYaml, CommonConfig, GenericsConfigYaml, GroupYaml,
    ProvisionerYaml, RuleYaml, SpecYaml,
};
use maglev::utils::{
    expand_tilde, home_dir, private_key_path, prompt_text, prompt_yes_no, read_ssh_public_key,
    validate_specs,
};

fn text(s: &str) -> Option<String> {
    Some(s.to_string())
}

fn list(items: &[&str]) -> Vec<String> {
    items.iter().map(|s| s.to_string()).collect()
}

fn blank() -> GenericsConfigYaml {
    GenericsConfigYaml {
        ssh_public_key: None,
        script: None,
        user: None,
        control_plane_endpoint: None,
        api_server: None,
        machine_type: None,
        boot_disk_image: None,
        boot_disk_size: None,
        ip_address: None,
    }
}

fn base() -> GenericsConfigYaml {
    GenericsConfigYaml {
        ssh_public_key: text("~/.ssh/id_ed25519.pub"),
        script: text("#!/bin/bash\n"),
        user: text("ubuntu"),
        control_plane_endpoint: text("k8s-api.example.com"),
        api_server: Some(ApiServerConfigYaml { cert_sans: list(&["a.example", "b.example"]) }),
        machine_type: text("e2-standard-2"),
        boot_disk_image: text("ubuntu-2404-lts-amd64"),
        boot_disk_size: None,
        ip_address: None,
    }
}

fn spec(name: &str, config: GenericsConfigYaml) -> SpecYaml {
    SpecYaml { name: name.to_string(), config: vec![config] }
}

fn group(name: &str, group_type: &str, nodes: &[&str]) -> GroupYaml {
    GroupYaml { name: name.to_string(), group_type: group_type.to_string(), node: list(nodes) }
}

fn rule(groups: &[&str], specs: &[&str]) -> RuleYaml {
    RuleYaml { group: list(groups), specs: list(specs) }
}

fn specs() -> Vec<SpecYaml> {
    let public = GenericsConfigYaml {
        boot_disk_size: Some(20),
        ip_address: Some(IpAddressType::Public),
        api_server: Some(ApiServerConfigYaml { cert_sans: list(&["b.example", "c.example"]) }),
        ..blank()
    };
    let worker =
        GenericsConfigYaml { boot_disk_size: Some(50), machine_type: text("e2-standard-4"), ..blank() };
    vec![spec("cisak", base()), spec("control-plane-public", public), spec("worker-nodes", worker)]
}

fn config(groups: Vec<GroupYaml>, rules: Vec<RuleYaml>) -> CommonConfig {
    CommonConfig { groups, specs: specs(), rules, provisioner: None, disks: None }
}

// ── ip-address ─────────────────────────────────────────────────────────────

#[test]
fn address_type_defaults_to_private() {
    assert_eq!(IpAddressType::default(), IpAddressType::Private);
    assert_eq!(IpAddressType::Private.to_string(), "private");
    assert_eq!(IpAddressType::Public.to_string(), "public");
}

// ── merging ────────────────────────────────────────────────────────────────

#[test]
fn later_specs_win() {
    let m = merge_spec_configs(&list(&["cisak", "worker-nodes"]), &specs()).unwrap();
    assert_eq!(m.machine_type, "e2-standard-4");
    assert_eq!(m.boot_disk_size, 50);
    assert_eq!(m.boot_disk_image, "ubuntu-2404-lts-amd64");
    assert_eq!(m.user, "ubuntu");
    assert_eq!(m.script, "#!/bin/bash\n");
    assert_eq!(m.ssh_public_key, "~/.ssh/id_ed25519.pub");
    assert_eq!(m.control_plane_endpoint, text("k8s-api.example.com"));
    assert_eq!(m.ip_address, IpAddressType::Private);
}

#[test]
fn order_of_specs_decides() {
    let m = merge_spec_configs(&list(&["worker-nodes", "cisak"]), &specs()).unwrap();
    assert_eq!(m.machine_type, "e2-standard-2");
    assert_eq!(m.boot_disk_size, 50);
}

#[test]
fn sans_are_united_first_seen_first() {
    let m = merge_spec_configs(&list(&["cisak", "control-plane-public"]), &specs()).unwrap();
    assert_eq!(m.cert_sans, list(&["a.example", "b.example", "c.example"]));
    assert_eq!(m.ip_address, IpAddressType::Public);
    let m = merge_spec_configs(&list(&["control-plane-public", "cisak"]), &specs()).unwrap();
    assert_eq!(m.cert_sans, list(&["b.example", "c.example", "a.example"]));
}

#[test]
fn merging_a_spec_twice_changes_nothing() {
    let once = merge_spec_configs(&list(&["cisak", "worker-nodes"]), &specs()).unwrap();
    let twice =
        merge_spec_configs(&list(&["cisak", "worker-nodes", "cisak", "worker-nodes"]), &specs()).unwrap();
    assert_eq!(once.machine_type, twice.machine_type);
    assert_eq!(once.boot_disk_size, twice.boot_disk_size);
    assert_eq!(once.cert_sans, twice.cert_sans);
}

#[test]
fn unknown_spec_is_reported() {
    let e = merge_spec_configs(&list(&["cisak", "gpu"]), &specs()).unwrap_err();
    assert!(matches!(&e, MergeError::UnknownSpec(name) if name == "gpu"));
    assert_eq!(e.message(), "Rule references unknown spec 'gpu'");
}

#[test]
fn unknown_spec_is_reported_before_a_missing_field() {
    let e = merge_spec_configs(&list(&["control-plane-public", "gpu"]), &specs()).unwrap_err();
    assert!(matches!(e, MergeError::UnknownSpec(_)));
}

#[test]
fn spec_without_configuration_is_unknown() {
    let empty = vec![SpecYaml { name: "cisak".to_string(), config: vec![] }];
    let e = merge_spec_configs(&list(&["cisak"]), &empty).unwrap_err();
    assert!(matches!(&e, MergeError::UnknownSpec(name) if name == "cisak"));
}

#[test]
fn only_the_first_configuration_entry_counts() {
    let mut all = specs();
    all[2].config.push(GenericsConfigYaml { boot_disk_size: Some(99), ..blank() });
    let m = merge_spec_configs(&list(&["cisak", "worker-nodes"]), &all).unwrap();
    assert_eq!(m.boot_disk_size, 50);
}

#[test]
fn last_spec_of_a_name_counts() {
    let mut all = specs();
    all.push(spec("worker-nodes", GenericsConfigYaml { boot_disk_size: Some(70), ..blank() }));
    let m = merge_spec_configs(&list(&["cisak", "worker-nodes"]), &all).unwrap();
    assert_eq!(m.boot_disk_size, 70);
    assert_eq!(m.machine_type, "e2-standard-2");
}

#[test]
fn each_missing_field_is_named() {
    let full = || GenericsConfigYaml { boot_disk_size: Some(20), ..base() };
    let cases = vec![
        (GenericsConfigYaml { machine_type: None, ..full() }, RequiredField::MachineType, "machine-type"),
        (GenericsConfigYaml { boot_disk_image: None, ..full() }, RequiredField::BootDiskImage, "boot-disk-image"),
        (GenericsConfigYaml { boot_disk_size: None, ..full() }, RequiredField::BootDiskSize, "boot-disk-size"),
        (GenericsConfigYaml { ssh_public_key: None, ..full() }, RequiredField::SshPublicKey, "ssh-public-key"),
        (GenericsConfigYaml { script: None, ..full() }, RequiredField::Script, "script"),
        (GenericsConfigYaml { user: None, ..full() }, RequiredField::User, "user"),
    ];
    for (layer, field, name) in cases {
        let e = merge_spec_configs(&list(&["s"]), &vec![spec("s", layer)]).unwrap_err();
        assert!(matches!(&e, MergeError::Missing(f, _) if *f == field));
        assert_eq!(field.name(), name);
        assert_eq!(e.message(), format!("No '{name}' found after merging specs [\"s\"]"));
    }
}

#[test]
fn missing_field_message_lists_every_spec() {
    let e = merge_spec_configs(&list(&["a", "b \"x\""]), &vec![spec("a", blank()), spec("b \"x\"", blank())])
        .unwrap_err();
    assert_eq!(e.message(), "No 'machine-type' found after merging specs [\"a\", \"b \\\"x\\\"\"]");
}

// ── rules ──────────────────────────────────────────────────────────────────

#[test]
fn rules_resolve_in_order() {
    let c = config(
        vec![
            group("public", "control-plane", &["cp-alpha"]),
            group("private", "control-plane", &["cp-beta", "cp-gamma"]),
            group("workers", "worker", &["w-alpha"]),
        ],
        vec![
            rule(&["public", "private"], &["cisak", "control-plane-public"]),
            rule(&["workers"], &["cisak", "worker-nodes"]),
        ],
    );
    let r = resolve_rules(&c).unwrap();
    assert_eq!(r.len(), 2);
    assert_eq!(r[0].nodes, list(&["cp-alpha", "cp-beta", "cp-gamma"]));
    assert_eq!(r[0].group_type, "control-plane");
    assert_eq!(r[0].group_names, list(&["public", "private"]));
    assert_eq!(r[0].generic_names, list(&["cisak", "control-plane-public"]));
    assert_eq!(r[0].merged.boot_disk_size, 20);
    assert_eq!(r[1].nodes, list(&["w-alpha"]));
    assert_eq!(r[1].group_type, "worker");
    assert_eq!(r[1].merged.boot_disk_size, 50);
}

#[test]
fn no_rules_resolve_to_nothing() {
    assert_eq!(resolve_rules(&config(vec![], vec![])).unwrap().len(), 0);
}

#[test]
fn unknown_group_is_reported() {
    let c = config(vec![], vec![rule(&["gpu"], &["cisak"])]);
    let e = resolve_rules(&c).unwrap_err();
    assert!(matches!(&e, RuleError::UnknownGroup(name) if name == "gpu"));
    assert_eq!(e.message(), "Rule references unknown group 'gpu'");
}

#[test]
fn mixed_group_types_are_reported() {
    let c = config(
        vec![group("a", "control-plane", &["x"]), group("b", "worker", &["y"])],
        vec![rule(&["a", "b"], &["cisak", "worker-nodes"])],
    );
    let e = resolve_rules(&c).unwrap_err();
    assert!(matches!(e, RuleError::MixedTypes { .. }));
    assert_eq!(
        e.message(),
        "Rule mixes groups of different types: 'control-plane' (previous) vs 'worker' ('b')"
    );
}

#[test]
fn empty_group_list_is_reported() {
    let c = config(vec![], vec![]);
    let e = resolve_rule(&rule(&[], &["gpu"]), &c).unwrap_err();
    assert!(matches!(e, RuleError::EmptyGroupList));
    assert_eq!(e.message(), "Rule has an empty group list");
}

#[test]
fn merge_errors_pass_through_rules() {
    let c = config(vec![group("a", "worker", &["x"])], vec![rule(&["a"], &["cisak"])]);
    let e = resolve_rules(&c).unwrap_err();
    assert!(matches!(e, RuleError::Spec(MergeError::Missing(RequiredField::BootDiskSize, _))));
    assert_eq!(e.message(), "No 'boot-disk-size' found after merging specs [\"cisak\"]");
}

#[test]
fn first_faulty_rule_is_reported() {
    let c = config(
        vec![group("a", "worker", &["x"])],
        vec![rule(&["a"], &["gpu"]), rule(&["b"], &["cisak"])],
    );
    assert_eq!(resolve_rules(&c).unwrap_err().message(), "Rule references unknown spec 'gpu'");
}

#[test]
fn last_group_of_a_name_counts() {
    let c = config(
        vec![group("a", "worker", &["x"]), group("a", "worker", &["y", "z"])],
        vec![rule(&["a"], &["cisak", "worker-nodes"])],
    );
    assert_eq!(resolve_rules(&c).unwrap()[0].nodes, list(&["y", "z"]));
}

#[test]
fn api_server_settings_default_to_no_sans() {
    assert!(ApiServerConfigYaml::default().cert_sans.is_empty());
}

#[test]
fn provisioner_copies_are_equal() {
    let p = Some(ProvisionerYaml { provisioner_type: "public".to_string(), node: "cp".to_string() });
    let q = clone_provisioner(&p).unwrap();
    assert_eq!((q.provisioner_type.as_str(), q.node.as_str()), ("public", "cp"));
    assert!(clone_provisioner(&None).is_none());
}

// ── paths and questions ────────────────────────────────────────────────────

#[test]
fn home_directory_comes_from_the_environment() {
    assert_eq!(home_dir(text("/home/a"), text("C:\\b"), None, None), text("/home/a"));
    assert_eq!(home_dir(None, text("C:\\b"), text("D:"), text("\\c")), text("C:\\b"));
    assert_eq!(home_dir(None, None, text("D:"), text("\\c")), text("D:\\c"));
    assert_eq!(home_dir(None, None, text("D:"), None), None);
    assert_eq!(home_dir(None, None, None, text("\\c")), None);
}

#[test]
fn tilde_stands_for_home() {
    let home = text("/home/a");
    assert_eq!(expand_tilde("~", &home), "/home/a");
    assert_eq!(expand_tilde("~/.ssh/id", &home), "/home/a/.ssh/id");
    assert_eq!(expand_tilde("~\\keys", &home), "/home/a\\keys");
    assert_eq!(expand_tilde("~b/keys", &home), "~b/keys");
    assert_eq!(expand_tilde("/etc/~/x", &home), "/etc/~/x");
    assert_eq!(expand_tilde("", &home), "");
    assert_eq!(expand_tilde("~/x", &None), "./x");
}

#[test]
fn expanding_twice_changes_nothing() {
    let home = text("/home/a");
    let once = expand_tilde("~/x", &home);
    assert_eq!(expand_tilde(&once, &home), once);
}

#[test]
fn private_key_lies_beside_the_public_key() {
    let home = text("/home/a");
    assert_eq!(private_key_path("~/.ssh/id_ed25519.pub", &home), "/home/a/.ssh/id_ed25519");
    assert_eq!(private_key_path("/keys/id", &home), "/keys/id");
}

#[test]
fn public_key_is_trimmed() {
    assert_eq!(
        read_ssh_public_key("/k.pub", Ok("ssh-ed25519 AAAA me\n".to_string())),
        Ok("ssh-ed25519 AAAA me".to_string())
    );
    assert_eq!(
        read_ssh_public_key("/k.pub", Err("No such file".to_string())),
        Err("Cannot read SSH public key from '/k.pub': No such file".to_string())
    );
}

#[test]
fn only_y_and_yes_mean_yes() {
    for line in ["y\n", "Y", " yes ", "YES\r\n", "yEs"] {
        assert!(prompt_yes_no(line), "{line:?}");
    }
    for line in ["", "\n", "n", "no", "ye", "yes!", "y y"] {
        assert!(!prompt_yes_no(line), "{line:?}");
    }
    assert_eq!(prompt_text("Proceed?"), "Proceed? [y/N]: ");
}

#[test]
fn address_types_of_all_layers_are_shown() {
    let mut all = specs();
    all[1].config.push(GenericsConfigYaml { ip_address: Some(IpAddressType::Private), ..blank() });
    let mut log = Vec::new();
    validate_specs(&all, &mut log);
    assert_eq!(
        log,
        vec![
            Note::Say("  spec 'cisak' [0]: ip-address = private (default)".to_string()),
            Note::Say("  spec 'control-plane-public' [0]: ip-address = public".to_string()),
            Note::Say("  spec 'control-plane-public' [1]: ip-address = private".to_string()),
            Note::Say("  spec 'worker-nodes' [0]: ip-address = private (default)".to_string()),
        ]
    );
}

// ── endpoint ───────────────────────────────────────────────────────────────

#[test]
fn endpoint_port_defaults_to_6443() {
    assert_eq!(add_port("k8s-api.example.com"), "k8s-api.example.com:6443");
    assert_eq!(add_port("k8s-api.example.com:443"), "k8s-api.example.com:443");
    assert_eq!(add_port(&add_port("k8s")), "k8s:6443");
}

#[test]
fn endpoint_falls_back_to_the_primary_address() {
    assert_eq!(control_plane_endpoint(&text(" k8s \n"), "10.0.0.1"), "k8s:6443");
    assert_eq!(control_plane_endpoint(&text("k8s:8443"), "10.0.0.1"), "k8s:8443");
    assert_eq!(control_plane_endpoint(&text("  "), "10.0.0.1"), "10.0.0.1:6443");
    assert_eq!(control_plane_endpoint(&None, "10.0.0.1"), "10.0.0.1:6443");
}

#[test]
fn endpoint_host_stands_before_the_colon() {
    assert_eq!(endpoint_host("k8s:6443"), "k8s");
    assert_eq!(endpoint_host("k8s"), "k8s");
    assert_eq!(endpoint_host(&add_port("k8s.example")), "k8s.example");
    assert_eq!(endpoint_host("fd00::1"), "fd00::1");
}

#[test]
fn endpoint_points_at_its_host_only() {
    assert!(endpoint_is("10.0.0.1:6443", "10.0.0.1"));
    assert!(endpoint_is("10.0.0.1:8443", "10.0.0.1"));
    assert!(endpoint_is("fd00::1", "fd00::1"));
    assert!(endpoint_is(&control_plane_endpoint(&None, "fd00::1"), "fd00::1"));
    assert!(!endpoint_is("10.0.0.10:6443", "10.0.0.1"));
    assert!(!endpoint_is("k8s:6443", "10.0.0.1"));
}

#[test]
fn recognises_ipv6_addresses() {
    for s in [
        "1:2:3:4:5:6:7:8", "fd00::1", "::", "::1", "1::", "1:2:3:4:5:6:7::", "::2:3:4:5:6:7:8", "FD00::aBcD",
        "::ffff:10.0.0.1", "1:2:3:4:5:6:10.0.0.1", "64:ff9b::1.2.3.4", "1::3:4:5:6:7:8", "0000:0::0",
    ] {
        assert!(ipv6(s), "{s:?}");
    }
    for s in [
        "", ":", "1", "1:2", "fd00", "10.0.0.1", "10.0.0.1:6443", "k8s:6443", "1:2:3:4:5:6:7", "1:2:3:4:5:6:7:8:9",
        "1:2:3:4:5:6:7:8::", "::1:2:3:4:5:6:7:8", "1::2::3", ":::", "1:::2", ":1::2", "1::2:", "12345::", "g::",
        "1.2.3.4::", "::1.2.3.4:5", "1:2:3:4:5:6:7:1.2.3.4", "::256.0.0.1", "[::1]", "[::1]:6443", "fe80::1%eth0",
        " ::1", "1:2:3:4:5:6:7:8:",
    ] {
        assert!(!ipv6(s), "{s:?}");
    }
}

#[test]
fn recognises_ipv4_addresses() {
    for s in ["10.0.0.1", "255.255.255.255", "0.0.0.0", "1.2.3.4"] {
        assert!(ipv4(s), "{s:?}");
    }
    for s in [
        "256.0.0.1", "1.2.3", "1.2.3.4.5", "01.2.3.4", "1.2.3.04", "1.2.3.", ".1.2.3", "a.b.c.d", "1.2.3.4 ",
        "-1.2.3.4", "+1.2.3.4", "1.2.3.1000", "", "k8s.example", "00.0.0.0", "1..2.3",
    ] {
        assert!(!ipv4(s), "{s:?}");
    }
}

// ── state ──────────────────────────────────────────────────────────────────

#[test]
fn registry_remembers_what_was_stored_last() {
    let mut r = Registry::new();
    assert_eq!(r.len(), 0);
    r.insert("a".to_string(), "1".to_string());
    r.insert("b".to_string(), "2".to_string());
    r.insert("a".to_string(), "3".to_string());
    assert_eq!(r.len(), 2);
    assert_eq!(r.get("a"), text("3"));
    assert_eq!(r.get("b"), text("2"));
    assert_eq!(r.get("c"), None);
    assert!(r.contains_key("b"));
    assert!(!r.contains_key("c"));
    assert_eq!(r.get_or_name("b"), "2");
    assert_eq!(r.get_or_name("c"), "c");
}

#[test]
fn registry_forgets_only_what_was_removed() {
    let mut r = Registry::new();
    r.insert("a".to_string(), "1".to_string());
    r.insert("b".to_string(), "2".to_string());
    r.remove("a");
    r.remove("z");
    assert_eq!(r.get("a"), None);
    assert_eq!(r.len(), 1);
    assert_eq!(r.entry(0), ("b".to_string(), "2".to_string()));
    assert_eq!(r.entries(), vec![("b".to_string(), "2".to_string())]);
}

#[test]
fn unwanted_names_come_in_order() {
    let mut r = Registry::new();
    for name in ["worker-2", "cp", "worker-1", "old"] {
        r.insert(name.to_string(), "id".to_string());
    }
    assert_eq!(r.not_in(&list(&["cp"])), list(&["old", "worker-1", "worker-2"]));
    assert_eq!(r.not_in(&list(&["cp", "old", "worker-1", "worker-2"])), list(&[]));
}

#[test]
fn state_lies_beside_the_configuration() {
    assert_eq!(State::file_path("config/gcp.yaml"), "config/gcp.yaml.state");
}

#[test]
fn missing_state_is_empty() {
    let s = State::load(&None);
    assert_eq!((s.instances.len(), s.disks.len()), (0, 0));
}

#[test]
fn saved_state_is_loaded_again() {
    let mut s = State::default();
    s.instances.insert("cp".to_string(), "{\"id\":\n7}".to_string());
    s.instances.insert("a \"b\" ü".to_string(), "".to_string());
    s.disks.insert("data".to_string(), "v-1".to_string());
    let content = s.save();
    let read = State::load(&Some(content));
    assert_eq!((read.instances.len(), read.disks.len()), (2, 1));
    assert_eq!(read.instances.get("cp"), text("{\"id\":\n7}"));
    assert_eq!(read.instances.get("a \"b\" ü"), text(""));
    assert_eq!(read.disks.get("data"), text("v-1"));
}

#[test]
fn state_file_is_readable() {
    let mut s = State::default();
    s.instances.insert("b".to_string(), "2".to_string());
    s.instances.insert("a".to_string(), "1".to_string());
    assert_eq!(
        s.save(),
        "{\n  \"instances\": {\n    \"a\": \"1\",\n    \"b\": \"2\"\n  },\n  \"disks\": {}\n}"
    );
}

#[test]
fn state_without_disks_is_loaded() {
    let s = State::load(&text("{\"instances\": {\"a\": \"1\"}, \"other\": 1}"));
    assert_eq!(s.instances.get("a"), text("1"));
    assert_eq!(s.disks.len(), 0);
}

#[test]
fn state_may_be_an_array_of_its_parts() {
    let s = State::load(&text("[{\"a\": \"1\"}]"));
    assert_eq!((s.instances.get("a"), s.disks.len()), (text("1"), 0));
    let s = State::load(&text("[{\"a\": \"1\"}, {\"d\": \"2\"}]"));
    assert_eq!((s.instances.get("a"), s.disks.get("d")), (text("1"), text("2")));
}

#[test]
fn containerd_is_waited_for() {
    let active = text("active");
    let inactive = text("inactive");
    assert_eq!(judge_containerd("n", &active, 1, false), Readiness::Ready);
    assert_eq!(judge_containerd("n", &active, ATTEMPTS, true), Readiness::Ready);
    for output in [&inactive, &None] {
        assert_eq!(judge_containerd("n", output, 1, true), Readiness::Again(10));
        assert_eq!(judge_containerd("n", output, 59, true), Readiness::Again(10));
        let refused = Readiness::Refused("containerd is not running on n".to_string());
        assert_eq!(judge_containerd("n", output, 60, true), refused);
        assert_eq!(judge_containerd("n", output, 1, false), refused);
    }
}

#[test]
fn content_that_is_no_state_is_empty() {
    for content in [
        "[{\"a\": \"1\"}, {}, {}]",
        "",
        "{",
        "[]",
        "{}",
        "{\"instances\": []}",
        "{\"instances\": {\"a\": 1}}",
        "{\"instances\": {\"a\": \"1\"}, \"disks\": null}",
        "{\"instances\": {\"a\": \"1\"}, \"disks\": {\"d\": {}}}",
    ] {
        let s = State::load(&text(content));
        assert_eq!((s.instances.len(), s.disks.len()), (0, 0), "{content}");
    }
    assert!(State::find(&Json::Null).is_none());
}
