use maglev::http::{error_text, read_body, read_document, show_body, success, Body, Method, Reply, Request};
use maglev::ip::IpAddressType;
use maglev::json::{append, array, get, get_item, get_text, object, put, text, whole, Json};
use maglev::provider::digitalocean::{
    create_vm, ensure_ssh_key, find_ssh_key_fingerprint, parse_number, read_account, read_attachment,
    read_deletion, read_droplet, read_volume, resolve_size, DigitalOceanCredentials, DigitalOceanProvider,
    DoCredentialsYaml, DoRoot, DoYaml, DropletCreation, Exchange, KeyReply,
};
use maglev::provider::gcp::{
    get_access_token, read_operation, read_token, GcpCredentials, GcpCredentialsYaml, GcpProvider, GcpRoot,
    GcpYaml,
};
use maglev::provider::{
    detect, digitalocean, gcp, key_failure, load_digitalocean, load_gcp, load_provider, parse_failure,
    read_failure, ready_to_connect, LoadedProvider, ProviderKind,
};
use maglev::session::{Note, VmRequest};
use maglev::structs::{
    CommonConfig, DiskYaml, GenericsConfigYaml, GroupYaml, ProvisionerYaml, RuleYaml, SpecYaml,
};

type Log = Vec<Note<String>>;

fn say(s: &str) -> Note<String> {
    Note::Say(s.to_string())
}

fn reply(status: u16, line: &str, body: &str) -> Reply {
    Reply { status, status_line: line.to_string(), body: body.to_string() }
}

fn ok(body: &str) -> Reply {
    reply(200, "200 OK", body)
}

fn vm(ssh_keys: &str, script: &str, public_ip: bool) -> VmRequest<String> {
    VmRequest {
        name: "cp".to_string(),
        machine_type: "e2-standard-2".to_string(),
        boot_disk_image: "ubuntu-2404-lts-amd64".to_string(),
        boot_disk_size_gb: 20,
        ssh_keys: ssh_keys.to_string(),
        startup_script: script.to_string(),
        public_ip,
    }
}

fn gcp_provider() -> GcpProvider {
    let creds = GcpCredentials {
        client_email: "a@b".to_string(),
        private_key_path: "k".to_string(),
        project_id: "proj".to_string(),
        zone: "us-central1-a".to_string(),
    };
    GcpProvider::new(&creds, "tok".to_string())
}

fn do_provider() -> DigitalOceanProvider {
    DigitalOceanProvider::new(&DigitalOceanCredentials { token: "tok".to_string(), region: "nyc1".to_string() })
}

fn bare(method: Method, url: &str) -> Request {
    Request { method, url: url.to_string(), bearer: Some("tok".to_string()), body: Body::Nothing }
}

fn post(url: &str, body: Json) -> Request {
    Request {
        method: Method::Post,
        url: url.to_string(),
        bearer: Some("tok".to_string()),
        body: Body::Json(body),
    }
}

fn one(value: Json) -> Json {
    append(array(), value)
}

// ── JSON ───────────────────────────────────────────────────────────────────

#[test]
fn documents_are_read_into_trees() {
    let tree = read_body(&ok("{\"b\": [null, true, -1.5, \"x\\n\"], \"a\": {\"k\": 18446744073709551615}}")).unwrap();
    let b = get(Some(&tree), "b");
    assert_eq!(get_item(b, 0), Some(&Json::Null));
    assert_eq!(get_item(b, 1), Some(&Json::Bool(true)));
    assert_eq!(get_item(b, 2), Some(&Json::Number("-1.5".to_string())));
    assert_eq!(get_text(get_item(b, 3)), Some("x\n".to_string()));
    assert_eq!(get_item(b, 4), None);
    assert_eq!(
        get(get(Some(&tree), "a"), "k"),
        Some(&Json::Number("18446744073709551615".to_string()))
    );
    assert_eq!(get(b, "a"), None);
    assert_eq!(get_text(b), None);
    assert_eq!(get_item(Some(&tree), 0), None);
    assert_eq!(get(None, "a"), None);
}

#[test]
fn last_member_of_a_name_counts() {
    let tree = put(put(object(), "a", text("1")), "a", text("2"));
    assert_eq!(get_text(get(Some(&tree), "a")), Some("2".to_string()));
    let tree = read_body(&ok("{\"a\": \"1\", \"a\": \"2\"}")).unwrap();
    assert_eq!(get_text(get(Some(&tree), "a")), Some("2".to_string()));
}

#[test]
fn whole_numbers_have_digits_only() {
    assert!(whole("0"));
    assert!(whole("42"));
    assert!(!whole(""));
    assert!(!whole("-1"));
    assert!(!whole("1.5"));
}

// ── HTTP ───────────────────────────────────────────────────────────────────

#[test]
fn success_is_the_two_hundreds() {
    assert!(success(200) && success(204) && success(299));
    assert!(!success(199) && !success(300) && !success(404));
}

#[test]
fn bodies_are_shown_compactly() {
    assert_eq!(show_body("{ \"b\" : 1,\n \"a\" : [ ] }"), "{\"a\":[],\"b\":1}");
    assert_eq!(show_body("<html>"), "<html>");
}

#[test]
fn failed_requests_tell_status_and_body() {
    let r = reply(403, "403 Forbidden", "{ \"error\": 1 }");
    assert_eq!(error_text("HTTP ", &r, ": "), "HTTP 403 Forbidden: {\"error\":1}");
    assert_eq!(read_document(&r, "HTTP ", " x: "), Err("HTTP 403 Forbidden x: {\"error\":1}".to_string()));
    assert_eq!(read_document(&ok("[]"), "", ""), Ok(array()));
}

#[test]
fn bodies_that_are_not_json_are_errors() {
    for status in [200, 500] {
        let e = read_document(&reply(status, "", "<html>"), "HTTP ", ": ").unwrap_err();
        assert_eq!(e, "json: expected value at line 1 column 1");
    }
}

// ── Google Cloud ───────────────────────────────────────────────────────────

#[test]
fn gcp_image_families_are_resolved() {
    for (image, path) in [
        ("ubuntu-2404-lts-amd64", "projects/ubuntu-os-cloud/global/images/family/ubuntu-2404-lts-amd64"),
        ("debian-12", "projects/debian-cloud/global/images/family/debian-12"),
        ("cos-stable", "projects/cos-cloud/global/images/family/cos-stable"),
        ("rhel-9", "projects/rhel-cloud/global/images/family/rhel-9"),
        ("rocky-linux-9", "projects/rocky-linux-cloud/global/images/family/rocky-linux-9"),
        ("fedora", "projects/debian-cloud/global/images/family/fedora"),
        ("projects/p/global/images/i", "projects/p/global/images/i"),
    ] {
        assert_eq!(gcp::resolve_image(image), path);
        assert_eq!(gcp::resolve_image(path), path);
    }
}

#[test]
fn gcp_instance_with_a_public_address() {
    let metadata = append(
        one(put(put(object(), "key", text("ssh-keys")), "value", text("u:ssh-ed25519 A"))),
        put(put(object(), "key", text("startup-script")), "value", text("#!/bin/bash")),
    );
    let access = put(
        put(put(object(), "type", text("ONE_TO_ONE_NAT")), "name", text("External NAT")),
        "networkTier",
        text("PREMIUM"),
    );
    let params = put(
        put(
            object(),
            "sourceImage",
            text("projects/ubuntu-os-cloud/global/images/family/ubuntu-2404-lts-amd64"),
        ),
        "diskSizeGb",
        text("20"),
    );
    let disk = put(
        put(put(object(), "boot", Json::Bool(true)), "autoDelete", Json::Bool(true)),
        "initializeParams",
        params,
    );
    let mut body = put(object(), "name", text("cp"));
    body = put(body, "machineType", text("zones/us-central1-a/machineTypes/e2-standard-2"));
    body = put(body, "disks", one(disk));
    body = put(
        body,
        "networkInterfaces",
        one(put(put(object(), "network", text("global/networks/default")), "accessConfigs", one(access))),
    );
    body = put(body, "metadata", put(object(), "items", metadata));
    assert_eq!(
        gcp_provider().create_vm(&vm("u:ssh-ed25519 A", "#!/bin/bash", true)),
        post("https://compute.googleapis.com/compute/v1/projects/proj/zones/us-central1-a/instances", body)
    );
}

#[test]
fn gcp_instance_without_a_public_address() {
    let request = gcp_provider().create_vm(&vm("", "", false));
    let Body::Json(body) = &request.body else { panic!("no document") };
    assert_eq!(
        get(Some(body), "networkInterfaces"),
        Some(&one(put(object(), "network", text("global/networks/default"))))
    );
    assert_eq!(get(Some(body), "metadata"), Some(&put(object(), "items", array())));
}

#[test]
fn gcp_instances_are_addressed_by_name() {
    let url = "https://compute.googleapis.com/compute/v1/projects/proj/zones/us-central1-a/instances/cp";
    assert_eq!(gcp_provider().destroy_vm("cp"), bare(Method::Delete, url));
    assert_eq!(gcp_provider().get_vm_ip("cp"), bare(Method::Get, url));
}

#[test]
fn gcp_operations_are_judged() {
    assert_eq!(read_operation(&ok("{\"id\" : \"7\"}")), Ok("{\"id\":\"7\"}".to_string()));
    assert_eq!(
        read_operation(&reply(409, "409 Conflict", "{}")),
        Err("Compute Engine API returned HTTP 409 Conflict: {}".to_string())
    );
}

#[test]
fn gcp_addresses_are_found() {
    let body = "{\"networkInterfaces\":[{\"networkIP\":\"10.0.0.2\",\"accessConfigs\":[{\"natIP\":\"1.2.3.4\"}]}]}";
    assert_eq!(gcp::read_address(&ok(body), "cp", true), Ok("1.2.3.4".to_string()));
    assert_eq!(gcp::read_address(&ok(body), "cp", false), Ok("10.0.0.2".to_string()));
    assert_eq!(
        gcp::read_address(&ok("{\"networkInterfaces\":[{\"networkIP\":\"10.0.0.2\"}]}"), "cp", true),
        Err("No external (public) IP found for instance 'cp'. Was it created with ip-address: public?".to_string())
    );
    let outer = "{\"networkInterfaces\":[{\"accessConfigs\":[{\"natIP\":\"34.1.2.3\"}]}]}";
    assert_eq!(gcp::read_address(&ok(outer), "cp", false), Ok("34.1.2.3".to_string()));
    assert_eq!(
        gcp::find_address(&object(), "cp", false),
        Err("No internal IP found for instance 'cp'".to_string())
    );
    assert_eq!(
        gcp::read_address(&reply(404, "404 Not Found", "{}"), "cp", true),
        Err("Compute Engine API returned HTTP 404 Not Found while fetching 'cp': {}".to_string())
    );
}

#[test]
fn gcp_tokens_are_exchanged() {
    assert_eq!(
        get_access_token("a.b.c"),
        Request {
            method: Method::Post,
            url: "https://oauth2.googleapis.com/token".to_string(),
            bearer: None,
            body: Body::Form(vec![
                ("grant_type".to_string(), "urn:ietf:params:oauth:grant-type:jwt-bearer".to_string()),
                ("assertion".to_string(), "a.b.c".to_string()),
            ]),
        }
    );
    assert_eq!(read_token(&ok("{\"access_token\":\"t\"}")), Ok("t".to_string()));
    assert_eq!(
        read_token(&ok("{\"token\" : \"t\"}")),
        Err("No access_token in response: {\"token\":\"t\"}".to_string())
    );
    assert_eq!(
        read_token(&reply(400, "400 Bad Request", "{}")),
        Err("Token endpoint returned HTTP 400 Bad Request: {}".to_string())
    );
}

// ── DigitalOcean ───────────────────────────────────────────────────────────

#[test]
fn digitalocean_images_are_translated() {
    for (image, slug) in [
        ("ubuntu-2404-lts-amd64", "ubuntu-24-04-x64"),
        ("ubuntu-2204-lts-amd64", "ubuntu-22-04-x64"),
        ("ubuntu-2004-lts-amd64", "ubuntu-20-04-x64"),
        ("debian-12", "debian-12-x64"),
        ("debian-11", "debian-11-x64"),
        ("fedora-40-x64", "fedora-40-x64"),
    ] {
        assert_eq!(digitalocean::resolve_image(image), slug);
        assert_eq!(digitalocean::resolve_image(slug), slug);
    }
}

#[test]
fn digitalocean_sizes_are_translated() {
    for (machine, slug) in [
        ("e2-micro", "s-1vcpu-1gb"),
        ("e2-small", "s-1vcpu-2gb"),
        ("e2-medium", "s-2vcpu-2gb"),
        ("e2-standard-2", "s-2vcpu-4gb"),
        ("e2-standard-4", "s-4vcpu-8gb"),
        ("e2-standard-8", "s-8vcpu-16gb"),
        ("e2-standard-16", "s-16vcpu-64gb"),
        ("c-2", "c-2"),
        ("g-2vcpu-8gb", "g-2vcpu-8gb"),
        ("m-2vcpu-16gb", "m-2vcpu-16gb"),
        ("so-2vcpu-16gb", "so-2vcpu-16gb"),
        ("n2-standard-2", "n2-standard-2"),
    ] {
        assert_eq!(resolve_size(machine), slug);
        assert_eq!(resolve_size(slug), slug);
    }
}

fn droplet(keys: Json) -> Json {
    let mut body = put(object(), "name", text("cp"));
    body = put(body, "region", text("nyc1"));
    body = put(body, "size", text("s-2vcpu-4gb"));
    body = put(body, "image", text("ubuntu-24-04-x64"));
    body = put(body, "ssh_keys", keys);
    body = put(body, "user_data", text("#!/bin/bash"));
    body = put(body, "tags", one(text("maglev")));
    put(body, "ipv6", Json::Bool(true))
}

fn ask(e: Exchange) -> (DropletCreation, Request) {
    match e {
        Exchange::Ask(c, r) => (c, r),
        Exchange::Replied(s) => panic!("replied: {s}"),
        Exchange::Refused(s) => panic!("refused: {s}"),
    }
}

fn refusal(e: Exchange) -> String {
    match e {
        Exchange::Refused(s) => s,
        _ => panic!("not refused"),
    }
}

const DROPLETS: &str = "https://api.digitalocean.com/v2/droplets";

#[test]
fn droplet_with_a_new_key() {
    let mut log = Log::new();
    let (c, r) = ask(create_vm(do_provider(), vm("root: ssh-ed25519 AAAA me@host\n", "#!/bin/bash", true), &mut log));
    let key = put(put(object(), "name", text("me@host")), "public_key", text("ssh-ed25519 AAAA me@host"));
    assert_eq!(r, post("https://api.digitalocean.com/v2/account/keys", key));
    let (c, r) = ask(c.step(&reply(201, "201 Created", "{\"ssh_key\":{\"fingerprint\":\"f:p\"}}"), &mut log));
    assert_eq!(r, post(DROPLETS, droplet(one(text("f:p")))));
    assert_eq!(log, vec![say("    SSH key fingerprint: f:p")]);
    let done = c.step(&reply(202, "202 Accepted", "{\"droplet\": {\"id\": 7}}"), &mut log);
    assert!(matches!(done, Exchange::Replied(s) if s == "{\"droplet\":{\"id\":7}}"));
}

#[test]
fn droplet_with_a_registered_key() {
    let mut log = Log::new();
    let (c, r) = ask(create_vm(do_provider(), vm("ssh-ed25519 AAAA", "#!/bin/bash", false), &mut log));
    let Body::Json(body) = &r.body else { panic!("no document") };
    assert_eq!(get_text(get(Some(body), "name")), Some("maglev-key".to_string()));
    let (c, r) = ask(c.step(&reply(422, "422 Unprocessable Entity", "{}"), &mut log));
    assert_eq!(r, bare(Method::Get, "https://api.digitalocean.com/v2/account/keys?per_page=200"));
    let list = "{\"ssh_keys\":[{\"public_key\":\"ssh-rsa B\",\"fingerprint\":\"no\"},{\"fingerprint\":\"no\"},\
                {\"public_key\":\"ssh-ed25519 AAAA other\",\"fingerprint\":\"f:p\"}]}";
    let (_, r) = ask(c.step(&ok(list), &mut log));
    assert_eq!(r, post(DROPLETS, droplet(one(text("f:p")))));
}

#[test]
fn droplet_without_a_key() {
    let mut log = Log::new();
    for keys in ["", "root: ", "  "] {
        let (_, r) = ask(create_vm(do_provider(), vm(keys, "#!/bin/bash", false), &mut log));
        assert_eq!(r, post(DROPLETS, droplet(array())));
    }
    assert!(log.is_empty());
}

#[test]
fn droplet_creation_fails_at_every_step() {
    let mut log = Log::new();
    let begin = |log: &mut Log| ask(create_vm(do_provider(), vm("ssh-ed25519 AAAA", "", false), log)).0;
    assert_eq!(
        refusal(begin(&mut log).step(&reply(401, "401 Unauthorized", "{}"), &mut log)),
        "Failed to register SSH key (HTTP 401 Unauthorized): {}"
    );
    assert_eq!(
        refusal(begin(&mut log).step(&reply(201, "201 Created", "{}"), &mut log)),
        "Missing fingerprint in SSH key registration response"
    );
    assert_eq!(
        refusal(begin(&mut log).step(&reply(201, "201 Created", "nope"), &mut log)),
        "json: expected ident at line 1 column 2"
    );
    let listing = |log: &mut Log| ask(begin(log).step(&reply(422, "422", "{}"), log)).0;
    assert_eq!(
        refusal(listing(&mut log).step(&reply(500, "500 Internal Server Error", "{}"), &mut log)),
        "Failed to list SSH keys (HTTP 500 Internal Server Error): {}"
    );
    assert_eq!(
        refusal(listing(&mut log).step(&ok("{}"), &mut log)),
        "No ssh_keys array in account keys response"
    );
    assert_eq!(
        refusal(listing(&mut log).step(&ok("{\"ssh_keys\":[]}"), &mut log)),
        "Could not find matching SSH key in DigitalOcean account"
    );
    let (c, _) = ask(listing(&mut log).step(&ok("{\"ssh_keys\":[{\"public_key\":\"ssh-ed25519 AAAA\",\"fingerprint\":\"f\"}]}"), &mut log));
    assert_eq!(
        refusal(c.step(&reply(422, "422 Unprocessable Entity", "{}"), &mut log)),
        "DigitalOcean API returned HTTP 422 Unprocessable Entity: {}"
    );
}

#[test]
fn keys_are_matched_by_type_and_data() {
    let list = ok("{\"ssh_keys\":[{\"public_key\":\"ssh-ed25519 AAAA x\",\"fingerprint\":\"f\"}]}");
    assert_eq!(find_ssh_key_fingerprint(&list, "ssh-ed25519  AAAA comment"), Ok("f".to_string()));
    assert!(find_ssh_key_fingerprint(&list, "ssh-ed25519 BBBB").is_err());
    let list = ok(
        "{\"ssh_keys\":[{\"public_key\":\"ssh-ed25519 AAAAB other\",\"fingerprint\":\"f1\"},\
         {\"public_key\":\"ssh-ed25519 AAAA me\",\"fingerprint\":\"f2\"}]}",
    );
    assert_eq!(find_ssh_key_fingerprint(&list, "ssh-ed25519 AAAA me"), Ok("f2".to_string()));
    assert_eq!(ensure_ssh_key(&reply(422, "422", "{}")), KeyReply::LookUp);
}

#[test]
fn droplets_are_addressed_by_id() {
    let url = "https://api.digitalocean.com/v2/droplets/7";
    assert_eq!(do_provider().destroy_vm("7"), bare(Method::Delete, url));
    assert_eq!(do_provider().get_vm_ip("7"), bare(Method::Get, url));
    assert_eq!(do_provider().account(), bare(Method::Get, "https://api.digitalocean.com/v2/account"));
}

#[test]
fn preferred_address_is_found_first() {
    let v4 = |networks: &str| format!("{{\"droplet\":{{\"networks\":{{\"v4\":[{networks}]}}}}}}");
    let public = "{\"type\":\"public\",\"ip_address\":\"1.2.3.4\"}";
    let private = "{\"type\":\"private\",\"ip_address\":\"10.0.0.2\"}";
    let both = ok(&v4(&format!("{public},{private}")));
    assert_eq!(digitalocean::read_address(&both, "7", true), Ok("1.2.3.4".to_string()));
    assert_eq!(digitalocean::read_address(&both, "7", false), Ok("10.0.0.2".to_string()));
    assert_eq!(digitalocean::read_address(&ok(&v4(public)), "7", false), Ok("1.2.3.4".to_string()));
    assert_eq!(digitalocean::read_address(&ok(&v4(private)), "7", true), Ok("10.0.0.2".to_string()));
    assert_eq!(
        digitalocean::read_address(&ok(&v4(&format!("{{\"type\":\"public\"}},{private}"))), "7", true),
        Err("No IP address found for droplet '7'".to_string())
    );
    assert_eq!(
        digitalocean::read_address(&ok(&v4("")), "7", true),
        Err("No IP address found for droplet '7'".to_string())
    );
    assert_eq!(
        digitalocean::read_address(&ok("{\"droplet\":{}}"), "7", true),
        Err("No v4 networks on droplet '7'".to_string())
    );
    for body in ["{}", "{\"droplet\":null}"] {
        assert_eq!(
            digitalocean::read_address(&ok(body), "7", true),
            Err("No droplet found with id '7'".to_string())
        );
    }
    assert_eq!(
        digitalocean::read_address(&reply(404, "404 Not Found", "{}"), "7", true),
        Err("DigitalOcean API returned HTTP 404 Not Found while fetching droplet '7': {}".to_string())
    );
}

#[test]
fn disks_are_created_and_attached() {
    let mut body = put(object(), "name", text("data"));
    body = put(body, "size_gigabytes", Json::Number("100".to_string()));
    body = put(body, "region", text("nyc1"));
    assert_eq!(do_provider().create_disk("data", 100), post("https://api.digitalocean.com/v2/volumes", body));
    let attach = put(put(object(), "type", text("attach")), "droplet_id", Json::Number("7".to_string()));
    assert_eq!(
        do_provider().attach_disk("v-1", "7"),
        Ok(post("https://api.digitalocean.com/v2/volumes/v-1/actions", attach))
    );
    assert_eq!(
        do_provider().attach_disk("v-1", "cp"),
        Err("Instance ID 'cp' is not a valid numeric DO Droplet ID".to_string())
    );
}

#[test]
fn numbers_agree_with_the_standard_library() {
    for s in [
        "0", "7", "007", "+7", "+", "", "-1", "-0", " 7", "7 ", "18446744073709551615", "18446744073709551616",
        "99999999999999999999", "1_000", "1e3", "++1", "000000000000000000000000000000001",
    ] {
        assert_eq!(parse_number(s), s.parse::<u64>().ok(), "{s:?}");
    }
}

#[test]
fn digitalocean_replies_are_judged() {
    assert_eq!(read_account(&ok("{}")), Ok(()));
    assert_eq!(
        read_account(&reply(401, "401 Unauthorized", "{\"id\":\"x\"}")),
        Err("DigitalOcean authentication failed (HTTP 401 Unauthorized): {\"id\":\"x\"}".to_string())
    );
    assert_eq!(read_droplet(&ok("{}")), Ok("{}".to_string()));
    assert_eq!(
        read_deletion(&reply(204, "204 No Content", ""), "7"),
        Ok(put(put(object(), "status", text("deleted")), "id", text("7")))
    );
    assert_eq!(
        read_deletion(&reply(404, "404 Not Found", "{}"), "7"),
        Err("DigitalOcean API returned HTTP 404 Not Found: {}".to_string())
    );
    assert!(read_deletion(&ok(""), "7").is_err());
    assert_eq!(read_volume(&ok("{\"volume\":{\"id\":\"v\"}}"), "data"), Ok("v".to_string()));
    assert_eq!(
        read_volume(&ok("{\"volume\":{}}"), "data"),
        Err("Missing volume id in DigitalOcean response".to_string())
    );
    assert_eq!(
        read_volume(&reply(409, "409 Conflict", "{}"), "data"),
        Err("DigitalOcean API returned HTTP 409 Conflict creating disk 'data': {}".to_string())
    );
    assert_eq!(read_attachment(&reply(201, "201 Created", "not json"), "v"), Ok(()));
    assert_eq!(
        read_attachment(&reply(404, "404 Not Found", "{}"), "v"),
        Err("DigitalOcean API returned HTTP 404 Not Found attaching disk 'v': {}".to_string())
    );
}

// ── loading ────────────────────────────────────────────────────────────────

#[test]
fn provider_is_detected_by_the_top_level_key() {
    assert_eq!(load_provider("c.yaml", "gcp:\n  group: []\n"), Ok(ProviderKind::Gcp));
    assert_eq!(load_provider("c.yaml", "digitalocean: {}\n"), Ok(ProviderKind::DigitalOcean));
    assert_eq!(load_provider("c.yaml", "digitalocean: 1\ngcp: 2\n"), Ok(ProviderKind::Gcp));
    let unknown =
        "Cannot detect provider in 'c.yaml': YAML must have a top-level 'gcp' or 'digitalocean' key".to_string();
    assert_eq!(load_provider("c.yaml", "aws: {}\n"), Err(unknown.clone()));
    assert_eq!(load_provider("c.yaml", "outer:\n  gcp: {}\n"), Err(unknown.clone()));
    assert_eq!(load_provider("c.yaml", "- gcp\n"), Err(unknown.clone()));
    assert_eq!(detect("c.yaml", false, false), Err(unknown));
    let e = load_provider("c.yaml", "gcp: [1").unwrap_err();
    assert!(e.starts_with("YAML parse error in 'c.yaml': "), "{e}");
}

#[test]
fn loading_failures_are_told() {
    assert_eq!(read_failure("c", "gone"), "Cannot read config file 'c': gone");
    assert_eq!(parse_failure(ProviderKind::Gcp, "c", "bad"), "GCP YAML parse error in 'c': bad");
    assert_eq!(parse_failure(ProviderKind::DigitalOcean, "c", "bad"), "DigitalOcean YAML parse error in 'c': bad");
    assert_eq!(key_failure("k", "gone"), "Cannot read GCP private key from 'k': gone");
}

fn layer(ip_address: Option<IpAddressType>) -> GenericsConfigYaml {
    GenericsConfigYaml {
        ssh_public_key: None,
        script: None,
        user: None,
        control_plane_endpoint: None,
        api_server: None,
        machine_type: None,
        boot_disk_image: None,
        boot_disk_size: None,
        ip_address,
    }
}

fn provisioner() -> Option<ProvisionerYaml> {
    Some(ProvisionerYaml { provisioner_type: "public".to_string(), node: "cp".to_string() })
}

fn gcp_root() -> GcpRoot {
    GcpRoot {
        gcp: GcpYaml {
            group: vec![GroupYaml {
                name: "g".to_string(),
                group_type: "worker".to_string(),
                node: vec!["n".to_string()],
            }],
            specs: vec![SpecYaml { name: "s".to_string(), config: vec![layer(Some(IpAddressType::Public))] }],
            rules: vec![RuleYaml { group: vec!["g".to_string()], specs: vec!["s".to_string()] }],
            credentials: GcpCredentialsYaml {
                client_email: "a@b".to_string(),
                private_key: "~/k.pem".to_string(),
                project_id: "proj".to_string(),
                zone: "z".to_string(),
            },
            provisioner: provisioner(),
        },
    }
}

#[test]
fn gcp_configuration_is_loaded() {
    let mut log = Log::new();
    let setup = load_gcp(gcp_root(), &Some("/home/a".to_string()), &mut log);
    assert_eq!(setup.credentials.private_key_path, "/home/a/k.pem");
    assert_eq!(log, vec![say("  spec 's' [0]: ip-address = public")]);
    assert!(setup.token_request("nonsense", &mut log).is_err());
    assert_eq!(log[1..], [say("  Signing JWT with RSA-SHA256 …")]);
    let loaded = setup.connect("tok".to_string());
    assert!(loaded.is_gcp());
    assert_eq!(loaded.common().groups[0].node, vec!["n".to_string()]);
    assert!(matches!(&loaded, LoadedProvider::Gcp { provider, .. } if provider.access_token == "tok"));
    let mut log = Log::new();
    loaded.describe(&mut log);
    assert_eq!(
        log,
        vec![
            say("  Provider:        GCP"),
            say("  Zone:            z"),
            say("  Provisioner:     cp (public)"),
        ]
    );
}

#[test]
fn digitalocean_configuration_is_loaded() {
    let root = DoRoot {
        digitalocean: DoYaml {
            group: vec![],
            specs: vec![],
            rules: vec![],
            credentials: DoCredentialsYaml { token: "tok".to_string(), region: "nyc1".to_string() },
            provisioner: None,
            disks: Some(vec![DiskYaml { name: "data".to_string(), size: 10, node: "n".to_string() }]),
        },
    };
    let mut log = Log::new();
    let setup = load_digitalocean(root, &mut log);
    assert_eq!(setup.account_request(&mut log), bare(Method::Get, "https://api.digitalocean.com/v2/account"));
    assert_eq!(log, vec![say("  Validating DigitalOcean API token …")]);
    let loaded = setup.connect();
    assert!(!loaded.is_gcp());
    assert_eq!(loaded.common().disks.as_ref().unwrap()[0].size, 10);
    let mut log = Log::new();
    loaded.describe(&mut log);
    assert_eq!(log, vec![say("  Provider:        DigitalOcean"), say("  Region:          nyc1")]);
}

#[test]
fn rules_are_resolved_before_the_provider_is_contacted() {
    let common = CommonConfig {
        groups: vec![],
        specs: vec![],
        rules: vec![RuleYaml { group: vec!["g".to_string()], specs: vec![] }],
        provisioner: None,
        disks: None,
    };
    assert_eq!(ready_to_connect(&common, true), Err("Rule references unknown group 'g'".to_string()));
    assert_eq!(ready_to_connect(&common, false), Ok(()));
    let common = CommonConfig { rules: vec![], ..common };
    assert_eq!(ready_to_connect(&common, true), Ok(()));
}
