//! DigitalOcean: requests to its API, and what the replies say.

use vstd::prelude::*;

use crate::endpoint::{is_digit, value_of};
use crate::http::{
    api_error, body_error, document, error_text, is_success, law_only_success_counts, read_body,
    read_document, show_body, shown_body, success, text_outcome, Body, BodyModel, Method, Reply, ReplyModel,
    Request, RequestModel,
};
use crate::json::{
    append, array, field, found, get, get_text, has_member, is_whole, json_outcome, json_view,
    law_members_are_had, object, parsed_json, put, text, text_of, Json, JsonModel,
};
use crate::session::{say, Log, Note, VmRequest};
use crate::structs::{DiskYaml, GroupYaml, ProvisionerYaml, RuleYaml, SpecYaml};
use crate::text::{
    after, after_first, begins, cat2, cat3, cat4, chars_of, decimal, is_space, join, joined,
    law_after_first, law_single_word, law_words_apart, number, numeric, same, split_words, trim,
    trimmed, words,
};

verus! {

// ---------------------------------------------------------------------------
// Types
// ---------------------------------------------------------------------------

/// What the program authenticates with.
#[derive(Debug, Clone)]
pub struct DigitalOceanCredentials {
    pub token: String,
    pub region: String,
}

/// The credentials of a configuration.
#[derive(Debug)]
pub struct DoCredentialsYaml {
    pub token: String,
    pub region: String,
}

/// A configuration for DigitalOcean.
#[derive(Debug)]
pub struct DoYaml {
    pub group: Vec<GroupYaml>,
    pub specs: Vec<SpecYaml>,
    pub rules: Vec<RuleYaml>,
    pub credentials: DoCredentialsYaml,
    pub provisioner: Option<ProvisionerYaml>,
    pub disks: Option<Vec<DiskYaml>>,
}

/// The document that holds a configuration for DigitalOcean.
#[derive(Debug)]
pub struct DoRoot {
    pub digitalocean: DoYaml,
}

/// Access to the DigitalOcean API.
pub struct DigitalOceanProvider {
    pub token: String,
    pub region: String,
}

pub struct DoModel {
    pub token: Seq<char>,
    pub region: Seq<char>,
}

impl DeepView for DigitalOceanProvider {
    type V = DoModel;

    open spec fn deep_view(&self) -> DoModel {
        DoModel { token: self.token@, region: self.region@ }
    }
}

// ---------------------------------------------------------------------------
// Images and sizes
// ---------------------------------------------------------------------------

/// The slug of an image; the names that Google Cloud uses are understood too.
pub open spec fn image_slug(image: Seq<char>) -> Seq<char> {
    if image == "ubuntu-2404-lts-amd64"@ || image == "ubuntu-24-04-x64"@ {
        "ubuntu-24-04-x64"@
    } else if image == "ubuntu-2204-lts-amd64"@ || image == "ubuntu-22-04-x64"@ {
        "ubuntu-22-04-x64"@
    } else if image == "ubuntu-2004-lts-amd64"@ || image == "ubuntu-20-04-x64"@ {
        "ubuntu-20-04-x64"@
    } else if image == "debian-12-x64"@ || image == "debian-12"@ {
        "debian-12-x64"@
    } else if image == "debian-11-x64"@ || image == "debian-11"@ {
        "debian-11-x64"@
    } else {
        image
    }
}

/// Whether a machine type is a size slug already.
pub open spec fn is_size_slug(machine_type: Seq<char>) -> bool {
    "s-"@.is_prefix_of(machine_type) || "c-"@.is_prefix_of(machine_type) || "g-"@.is_prefix_of(machine_type)
        || "m-"@.is_prefix_of(machine_type) || "so-"@.is_prefix_of(machine_type)
}

/// The size slug of a machine type; the names that Google Cloud uses are
/// understood too.
pub open spec fn size_slug(machine_type: Seq<char>) -> Seq<char> {
    if is_size_slug(machine_type) {
        machine_type
    } else if machine_type == "e2-micro"@ {
        "s-1vcpu-1gb"@
    } else if machine_type == "e2-small"@ {
        "s-1vcpu-2gb"@
    } else if machine_type == "e2-medium"@ {
        "s-2vcpu-2gb"@
    } else if machine_type == "e2-standard-2"@ {
        "s-2vcpu-4gb"@
    } else if machine_type == "e2-standard-4"@ {
        "s-4vcpu-8gb"@
    } else if machine_type == "e2-standard-8"@ {
        "s-8vcpu-16gb"@
    } else if machine_type == "e2-standard-16"@ {
        "s-16vcpu-64gb"@
    } else {
        machine_type
    }
}

/// The slug of an image is its own slug.
pub proof fn law_image_slug_idempotent(image: Seq<char>)
    ensures
        image_slug(image_slug(image)) == image_slug(image),
{
    reveal_strlit("ubuntu-2404-lts-amd64");
    reveal_strlit("ubuntu-24-04-x64");
    reveal_strlit("ubuntu-2204-lts-amd64");
    reveal_strlit("ubuntu-22-04-x64");
    reveal_strlit("ubuntu-2004-lts-amd64");
    reveal_strlit("ubuntu-20-04-x64");
    reveal_strlit("debian-12-x64");
    reveal_strlit("debian-11-x64");
    reveal_strlit("debian-12");
    assert("ubuntu-24-04-x64"@[8] == '4');
    assert("ubuntu-22-04-x64"@[8] == '2');
    assert("ubuntu-20-04-x64"@[8] == '0');
    assert("debian-12-x64"@[8] == '2');
    assert("debian-11-x64"@[8] == '1');
    assert(image_slug("ubuntu-24-04-x64"@) == "ubuntu-24-04-x64"@);
    assert(image_slug("ubuntu-22-04-x64"@) == "ubuntu-22-04-x64"@);
    assert(image_slug("ubuntu-20-04-x64"@) == "ubuntu-20-04-x64"@);
    assert(image_slug("debian-12-x64"@) == "debian-12-x64"@);
    assert(image_slug("debian-11-x64"@) == "debian-11-x64"@);
}

/// The size slug of a machine type is its own size slug.
pub proof fn law_size_slug_idempotent(machine_type: Seq<char>)
    ensures
        size_slug(size_slug(machine_type)) == size_slug(machine_type),
{
    reveal_strlit("s-");
    reveal_strlit("s-1vcpu-1gb");
    reveal_strlit("s-1vcpu-2gb");
    reveal_strlit("s-2vcpu-2gb");
    reveal_strlit("s-2vcpu-4gb");
    reveal_strlit("s-4vcpu-8gb");
    reveal_strlit("s-8vcpu-16gb");
    reveal_strlit("s-16vcpu-64gb");
    assert("s-"@.is_prefix_of("s-1vcpu-1gb"@));
    assert("s-"@.is_prefix_of("s-1vcpu-2gb"@));
    assert("s-"@.is_prefix_of("s-2vcpu-2gb"@));
    assert("s-"@.is_prefix_of("s-2vcpu-4gb"@));
    assert("s-"@.is_prefix_of("s-4vcpu-8gb"@));
    assert("s-"@.is_prefix_of("s-8vcpu-16gb"@));
    assert("s-"@.is_prefix_of("s-16vcpu-64gb"@));
}

/// A machine type that begins like a size slug is left alone, whatever follows.
pub proof fn law_size_slug_left_alone(rest: Seq<char>)
    ensures
        size_slug("s-"@ + rest) == "s-"@ + rest,
        size_slug("c-"@ + rest) == "c-"@ + rest,
        size_slug("g-"@ + rest) == "g-"@ + rest,
        size_slug("m-"@ + rest) == "m-"@ + rest,
        size_slug("so-"@ + rest) == "so-"@ + rest,
{
    assert(("s-"@ + rest).subrange(0, "s-"@.len() as int) =~= "s-"@);
    assert(("c-"@ + rest).subrange(0, "c-"@.len() as int) =~= "c-"@);
    assert(("g-"@ + rest).subrange(0, "g-"@.len() as int) =~= "g-"@);
    assert(("m-"@ + rest).subrange(0, "m-"@.len() as int) =~= "m-"@);
    assert(("so-"@ + rest).subrange(0, "so-"@.len() as int) =~= "so-"@);
}

/// Only the few names of Google Cloud that are understood are changed: any
/// other image and any other machine type stays what it is.
pub proof fn law_other_names_left_alone(name: Seq<char>)
    ensures
        image_slug(name) != name ==> name == "ubuntu-2404-lts-amd64"@ || name == "ubuntu-2204-lts-amd64"@ || name
            == "ubuntu-2004-lts-amd64"@ || name == "debian-12"@ || name == "debian-11"@,
        size_slug(name) != name ==> name == "e2-micro"@ || name == "e2-small"@ || name == "e2-medium"@ || name
            == "e2-standard-2"@ || name == "e2-standard-4"@ || name == "e2-standard-8"@ || name == "e2-standard-16"@,
{
}

/// The machine types of Google Cloud that are understood, each with its size
/// here.
pub open spec fn known_sizes() -> Seq<(Seq<char>, Seq<char>)> {
    seq![
        ("e2-micro"@, "s-1vcpu-1gb"@),
        ("e2-small"@, "s-1vcpu-2gb"@),
        ("e2-medium"@, "s-2vcpu-2gb"@),
        ("e2-standard-2"@, "s-2vcpu-4gb"@),
        ("e2-standard-4"@, "s-4vcpu-8gb"@),
        ("e2-standard-8"@, "s-8vcpu-16gb"@),
        ("e2-standard-16"@, "s-16vcpu-64gb"@),
    ]
}

/// The images of Google Cloud that are understood, each with its image here.
pub open spec fn known_images() -> Seq<(Seq<char>, Seq<char>)> {
    seq![
        ("ubuntu-2404-lts-amd64"@, "ubuntu-24-04-x64"@),
        ("ubuntu-2204-lts-amd64"@, "ubuntu-22-04-x64"@),
        ("ubuntu-2004-lts-amd64"@, "ubuntu-20-04-x64"@),
        ("debian-12"@, "debian-12-x64"@),
        ("debian-11"@, "debian-11-x64"@),
    ]
}

proof fn lemma_other_beginning(head: Seq<char>, s: Seq<char>)
    requires
        head.len() > 0,
        s.len() > 0,
        head[0] != s[0],
    ensures
        !head.is_prefix_of(s),
{
    if head.is_prefix_of(s) {
        assert(s.subrange(0, head.len() as int)[0] == s[0]);
    }
}

/// Every machine type of the table has the size that the table says, and every
/// image the image.
pub proof fn law_known_names_are_understood(i: int)
    ensures
        0 <= i < known_sizes().len() ==> size_slug(known_sizes()[i].0) == known_sizes()[i].1,
        0 <= i < known_images().len() ==> image_slug(known_images()[i].0) == known_images()[i].1,
{
    reveal_strlit("s-");
    reveal_strlit("c-");
    reveal_strlit("g-");
    reveal_strlit("m-");
    reveal_strlit("so-");
    reveal_strlit("e2-micro");
    reveal_strlit("e2-small");
    reveal_strlit("e2-medium");
    reveal_strlit("e2-standard-2");
    reveal_strlit("e2-standard-4");
    reveal_strlit("e2-standard-8");
    reveal_strlit("e2-standard-16");
    reveal_strlit("ubuntu-2404-lts-amd64");
    reveal_strlit("ubuntu-2204-lts-amd64");
    reveal_strlit("ubuntu-2004-lts-amd64");
    reveal_strlit("ubuntu-24-04-x64");
    reveal_strlit("ubuntu-22-04-x64");
    reveal_strlit("ubuntu-20-04-x64");
    reveal_strlit("debian-12-x64");
    reveal_strlit("debian-11-x64");
    reveal_strlit("debian-12");
    reveal_strlit("debian-11");
    if 0 <= i < known_sizes().len() {
        let name = known_sizes()[i].0;
        assert(name[0] == 'e');
        lemma_other_beginning("s-"@, name);
        lemma_other_beginning("c-"@, name);
        lemma_other_beginning("g-"@, name);
        lemma_other_beginning("m-"@, name);
        lemma_other_beginning("so-"@, name);
        assert("e2-micro"@[3] == 'm');
        assert("e2-small"@[3] == 's');
        assert("e2-standard-2"@[12] == '2');
        assert("e2-standard-4"@[12] == '4');
        assert("e2-standard-8"@[12] == '8');
    }
    assert("ubuntu-2404-lts-amd64"@[9] == '0' && "ubuntu-2404-lts-amd64"@[8] == '4');
    assert("ubuntu-2204-lts-amd64"@[8] == '2');
    assert("ubuntu-2004-lts-amd64"@[8] == '0');
    assert("debian-12"@[8] == '2');
    assert("debian-11"@[8] == '1');
    assert("ubuntu-2404-lts-amd64"@.len() == 21 && "ubuntu-2204-lts-amd64"@.len() == 21
        && "ubuntu-2004-lts-amd64"@.len() == 21);
    assert("ubuntu-24-04-x64"@.len() == 16 && "ubuntu-22-04-x64"@.len() == 16 && "ubuntu-20-04-x64"@.len() == 16);
    assert("debian-12-x64"@.len() == 13 && "debian-11-x64"@.len() == 13 && "debian-12"@.len() == 9
        && "debian-11"@.len() == 9);
    assert(image_slug("ubuntu-2404-lts-amd64"@) == "ubuntu-24-04-x64"@);
    assert(image_slug("ubuntu-2204-lts-amd64"@) == "ubuntu-22-04-x64"@);
    assert(image_slug("ubuntu-2004-lts-amd64"@) == "ubuntu-20-04-x64"@);
    assert(image_slug("debian-12"@) == "debian-12-x64"@);
    assert(image_slug("debian-11"@) == "debian-11-x64"@);
    assert(known_images()[0].0 == "ubuntu-2404-lts-amd64"@ && known_images()[1].0 == "ubuntu-2204-lts-amd64"@
        && known_images()[2].0 == "ubuntu-2004-lts-amd64"@ && known_images()[3].0 == "debian-12"@ && known_images()[4].0
        == "debian-11"@);
}

/// Where a reply lacks what it should hold, the error says what is missing, and
/// for which droplet.
pub proof fn law_what_is_missing_is_told(tree: JsonModel, reply: ReplyModel, needle: Seq<char>, id: Seq<char>, prefer_public: bool)
    ensures
        reply.status == 201 && !(field(field(Some(tree), "ssh_key"@), "fingerprint"@) matches Some(JsonModel::Text(_)))
            ==> key_reply_in(tree, reply) == KeyReply::Refused(
            "Missing fingerprint in SSH key registration response"@,
        ),
        !(field(Some(tree), "ssh_keys"@) matches Some(JsonModel::Array(_))) ==> fingerprint_in(tree, needle) == Err::<
            Seq<char>,
            Seq<char>,
        >("No ssh_keys array in account keys response"@),
        field(Some(tree), "ssh_keys"@) matches Some(JsonModel::Array(_)) ==> (fingerprint_in(tree, needle) matches Err(e)
            ==> e == "Could not find matching SSH key in DigitalOcean account"@),
        field(Some(tree), "droplet"@) is None || field(Some(tree), "droplet"@) == Some(JsonModel::Null) ==> address_in(
            tree,
            id,
            prefer_public,
        ) == Err::<Seq<char>, Seq<char>>("No droplet found with id '"@ + id + "'"@),
        address_in(tree, id, prefer_public) matches Err(e) ==> e == "No droplet found with id '"@ + id + "'"@ || e
            == "No IP address found for droplet '"@ + id + "'"@ || e == "No v4 networks on droplet '"@ + id + "'"@,
        !(field(field(Some(tree), "volume"@), "id"@) matches Some(JsonModel::Text(_))) ==> volume_in(tree) == Err::<
            Seq<char>,
            Seq<char>,
        >("Missing volume id in DigitalOcean response"@),
{
}

/// A failed request is told with the status and what it was about: the account,
/// the key, the droplet or the disk.
pub proof fn law_failures_are_told(
    reply: ReplyModel,
    id: Seq<char>,
    public_key: Seq<char>,
    prefer_public: bool,
)
    requires
        parsed_json(reply.body) is Ok,
        !(200 <= reply.status <= 299),
    ensures
        ({
            let status = reply.status_line;
            let body = shown_body(reply.body);
            &&& account_outcome(reply) == Some(
                "DigitalOcean authentication failed (HTTP "@ + status + "): "@ + body,
            )
            &&& reply.status != 422 ==> key_reply(reply) == KeyReply::Refused(
                "Failed to register SSH key (HTTP "@ + status + "): "@ + body,
            )
            &&& fingerprint_outcome(reply, public_key) == Err::<Seq<char>, Seq<char>>(
                "Failed to list SSH keys (HTTP "@ + status + "): "@ + body,
            )
            &&& droplet_outcome(reply) == Err::<Seq<char>, Seq<char>>("DigitalOcean API returned HTTP "@ + status + ": "@ + body)
            &&& deletion_outcome(reply, id) == Err::<JsonModel, Seq<char>>("DigitalOcean API returned HTTP "@ + status + ": "@ + body)
            &&& address_outcome(reply, id, prefer_public) == Err::<Seq<char>, Seq<char>>(
                "DigitalOcean API returned HTTP "@ + status + (" while fetching droplet '"@ + id + "': "@) + body,
            )
            &&& volume_outcome(reply, id) == Err::<Seq<char>, Seq<char>>(
                "DigitalOcean API returned HTTP "@ + status + (" creating disk '"@ + id + "': "@) + body,
            )
            &&& attachment_outcome(reply, id) == Some(
                "DigitalOcean API returned HTTP "@ + status + (" attaching disk '"@ + id + "': "@) + body,
            )
        }),
{
}

/// The slug of an image.
pub fn resolve_image(image: &str) -> (r: String)
    ensures
        r@ == image_slug(image@),
{
    let slug = if same(image, "ubuntu-2404-lts-amd64") || same(image, "ubuntu-24-04-x64") {
        "ubuntu-24-04-x64"
    } else if same(image, "ubuntu-2204-lts-amd64") || same(image, "ubuntu-22-04-x64") {
        "ubuntu-22-04-x64"
    } else if same(image, "ubuntu-2004-lts-amd64") || same(image, "ubuntu-20-04-x64") {
        "ubuntu-20-04-x64"
    } else if same(image, "debian-12-x64") || same(image, "debian-12") {
        "debian-12-x64"
    } else if same(image, "debian-11-x64") || same(image, "debian-11") {
        "debian-11-x64"
    } else {
        image
    };
    slug.to_owned()
}

/// The size slug of a machine type.
pub fn resolve_size(machine_type: &str) -> (r: String)
    ensures
        r@ == size_slug(machine_type@),
{
    if begins(machine_type, "s-") || begins(machine_type, "c-") || begins(machine_type, "g-") || begins(
        machine_type,
        "m-",
    ) || begins(machine_type, "so-") {
        return machine_type.to_owned();
    }
    let slug = if same(machine_type, "e2-micro") {
        "s-1vcpu-1gb"
    } else if same(machine_type, "e2-small") {
        "s-1vcpu-2gb"
    } else if same(machine_type, "e2-medium") {
        "s-2vcpu-2gb"
    } else if same(machine_type, "e2-standard-2") {
        "s-2vcpu-4gb"
    } else if same(machine_type, "e2-standard-4") {
        "s-4vcpu-8gb"
    } else if same(machine_type, "e2-standard-8") {
        "s-8vcpu-16gb"
    } else if same(machine_type, "e2-standard-16") {
        "s-16vcpu-64gb"
    } else {
        machine_type
    };
    slug.to_owned()
}

// ---------------------------------------------------------------------------
// Requests
// ---------------------------------------------------------------------------

pub const KEYS_URL: &'static str = "https://api.digitalocean.com/v2/account/keys";

pub const KEY_LIST_URL: &'static str = "https://api.digitalocean.com/v2/account/keys?per_page=200";

pub const DROPLETS_URL: &'static str = "https://api.digitalocean.com/v2/droplets";

pub const VOLUMES_URL: &'static str = "https://api.digitalocean.com/v2/volumes";

pub const ACCOUNT_URL: &'static str = "https://api.digitalocean.com/v2/account";

/// A request without a body.
pub open spec fn bare_request(m: DoModel, method: Method, url: Seq<char>) -> RequestModel {
    RequestModel { method, url, bearer: Some(m.token), body: BodyModel::Nothing }
}

/// A request that carries a document.
pub open spec fn post_request(m: DoModel, url: Seq<char>, body: JsonModel) -> RequestModel {
    RequestModel { method: Method::Post, url, bearer: Some(m.token), body: BodyModel::Json(body) }
}

/// Where a droplet is.
pub open spec fn droplet_url(id: Seq<char>) -> Seq<char> {
    DROPLETS_URL@ + "/"@ + id
}

/// The public key in `<user>:<public key>`, or in a bare public key.
pub open spec fn key_of(ssh_keys: Seq<char>) -> Seq<char> {
    match after_first(ssh_keys, ':') {
        Some(rest) => trimmed(rest),
        None => trimmed(ssh_keys),
    }
}

/// The name that a public key is registered under: its comment, if it has one.
pub open spec fn key_name(public_key: Seq<char>) -> Seq<char> {
    let w = words(public_key);
    if w.len() > 2 {
        w[2]
    } else {
        "maglev-key"@
    }
}

/// What a public key is recognised by: its type and its data.
pub open spec fn key_needle(public_key: Seq<char>) -> Seq<char> {
    let w = words(public_key);
    joined(
        if w.len() > 2 {
            w.take(2)
        } else {
            w
        },
        " "@,
    )
}

/// What a public key is registered with.
pub open spec fn key_body(public_key: Seq<char>) -> JsonModel {
    JsonModel::Object(
        seq![
            ("name"@, JsonModel::Text(key_name(public_key))),
            ("public_key"@, JsonModel::Text(public_key)),
        ],
    )
}

/// What a droplet is created from; `fingerprint` is that of its SSH key.
pub open spec fn droplet_body(m: DoModel, vm: VmRequest<Seq<char>>, fingerprint: Option<Seq<char>>) -> JsonModel {
    JsonModel::Object(
        seq![
            ("name"@, JsonModel::Text(vm.name)),
            ("region"@, JsonModel::Text(m.region)),
            ("size"@, JsonModel::Text(size_slug(vm.machine_type))),
            ("image"@, JsonModel::Text(image_slug(vm.boot_disk_image))),
            (
                "ssh_keys"@,
                JsonModel::Array(
                    match fingerprint {
                        Some(fp) => seq![JsonModel::Text(fp)],
                        None => Seq::empty(),
                    },
                ),
            ),
            ("user_data"@, JsonModel::Text(vm.startup_script)),
            ("tags"@, JsonModel::Array(seq![JsonModel::Text("maglev"@)])),
            ("ipv6"@, JsonModel::Bool(true)),
        ],
    )
}

/// What a disk is created from.
pub open spec fn volume_body(m: DoModel, name: Seq<char>, size_gb: u64) -> JsonModel {
    JsonModel::Object(
        seq![
            ("name"@, JsonModel::Text(name)),
            ("size_gigabytes"@, JsonModel::Number(decimal(size_gb as nat))),
            ("region"@, JsonModel::Text(m.region)),
        ],
    )
}

/// What a disk is attached with.
pub open spec fn attach_body(droplet: nat) -> JsonModel {
    JsonModel::Object(
        seq![
            ("type"@, JsonModel::Text("attach"@)),
            ("droplet_id"@, JsonModel::Number(decimal(droplet))),
        ],
    )
}

/// The number that a text stands for: decimal digits, perhaps behind a plus
/// sign, that do not go beyond 64 bits.
pub open spec fn number_in(s: Seq<char>) -> Option<nat> {
    let digits = if s.len() > 0 && s[0] == '+' {
        s.skip(1)
    } else {
        s
    };
    if is_whole(digits) && value_of(digits) <= u64::MAX {
        Some(value_of(digits) as nat)
    } else {
        None
    }
}

/// A droplet is created with the name, the script, the size and the image of
/// the request, in the region of the provider, with the key of the fingerprint
/// that is given and no other, and with the tag that marks what this program
/// made.
pub proof fn law_droplet_made_from_its_request(m: DoModel, vm: VmRequest<Seq<char>>, fingerprint: Option<Seq<char>>)
    ensures
        ({
            let body = droplet_body(m, vm, fingerprint);
            &&& body matches JsonModel::Object(members) && members.len() == 8
            &&& has_member(body, "name"@, JsonModel::Text(vm.name))
            &&& has_member(body, "region"@, JsonModel::Text(m.region))
            &&& has_member(body, "size"@, JsonModel::Text(size_slug(vm.machine_type)))
            &&& has_member(body, "image"@, JsonModel::Text(image_slug(vm.boot_disk_image)))
            &&& has_member(body, "user_data"@, JsonModel::Text(vm.startup_script))
            &&& has_member(body, "tags"@, JsonModel::Array(seq![JsonModel::Text("maglev"@)]))
            &&& has_member(body, "ipv6"@, JsonModel::Bool(true))
            &&& fingerprint matches Some(fp) ==> has_member(
                body,
                "ssh_keys"@,
                JsonModel::Array(seq![JsonModel::Text(fp)]),
            )
            &&& fingerprint is None ==> has_member(body, "ssh_keys"@, JsonModel::Array(Seq::empty()))
        }),
{
    let members = droplet_body(m, vm, fingerprint)->Object_0;
    law_members_are_had(members, 0);
    law_members_are_had(members, 1);
    law_members_are_had(members, 2);
    law_members_are_had(members, 3);
    law_members_are_had(members, 4);
    law_members_are_had(members, 5);
    law_members_are_had(members, 6);
    law_members_are_had(members, 7);
}

/// A disk is created with its name and its size, in the region of the provider;
/// it is attached to the droplet of a number; and a key is registered as it is.
pub proof fn law_disk_made_from_its_request(m: DoModel, name: Seq<char>, size_gb: u64, droplet: nat, key: Seq<char>)
    ensures
        has_member(volume_body(m, name, size_gb), "name"@, JsonModel::Text(name)),
        has_member(volume_body(m, name, size_gb), "size_gigabytes"@, JsonModel::Number(decimal(size_gb as nat))),
        has_member(volume_body(m, name, size_gb), "region"@, JsonModel::Text(m.region)),
        has_member(attach_body(droplet), "type"@, JsonModel::Text("attach"@)),
        has_member(attach_body(droplet), "droplet_id"@, JsonModel::Number(decimal(droplet))),
        has_member(key_body(key), "public_key"@, JsonModel::Text(key)),
{
    let volume = volume_body(m, name, size_gb)->Object_0;
    law_members_are_had(volume, 0);
    law_members_are_had(volume, 1);
    law_members_are_had(volume, 2);
    law_members_are_had(attach_body(droplet)->Object_0, 0);
    law_members_are_had(attach_body(droplet)->Object_0, 1);
    law_members_are_had(key_body(key)->Object_0, 1);
}

/// Every request carries the token of the provider, and a droplet is found
/// under its identifier.
pub proof fn law_requests_are_authorised(m: DoModel, method: Method, url: Seq<char>, body: JsonModel, id: Seq<char>)
    ensures
        bare_request(m, method, url) == (RequestModel {
            method,
            url,
            bearer: Some(m.token),
            body: BodyModel::Nothing,
        }),
        post_request(m, url, body) == (RequestModel {
            method: Method::Post,
            url,
            bearer: Some(m.token),
            body: BodyModel::Json(body),
        }),
        droplet_url(id) == "https://api.digitalocean.com/v2/droplets"@ + "/"@ + id,
{
}

/// The key of an instance is what follows its user and a colon, or all of it
/// where there is no colon; each time without the white space around it.
pub proof fn law_key_follows_user(user: Seq<char>, key: Seq<char>)
    requires
        !user.contains(':'),
    ensures
        key_of(user + seq![':'] + key) == trimmed(key),
        key_of(user) == trimmed(user),
{
    law_after_first(user, ':', key);
}

/// Whether `s` is a text without white space that is not empty.
pub open spec fn is_part(s: Seq<char>) -> bool {
    s.len() > 0 && forall|i: int| 0 <= i < s.len() ==> !is_space(#[trigger] s[i])
}

/// A public key goes by its comment, where it has one, and is recognised by its
/// type and its data, whatever its comment is.
pub proof fn law_key_known_by_type_and_data(kind: Seq<char>, data: Seq<char>, comment: Seq<char>)
    requires
        is_part(kind),
        is_part(data),
        is_part(comment),
    ensures
        key_name(kind + seq![' '] + data + seq![' '] + comment) == comment,
        key_name(kind + seq![' '] + data) == "maglev-key"@,
        key_needle(kind + seq![' '] + data) == kind + seq![' '] + data,
        key_needle(kind + seq![' '] + data + seq![' '] + comment) == kind + seq![' '] + data,
{
    reveal_strlit(" ");
    assert(" "@ =~= seq![' ']);
    let short = kind + seq![' '] + data;
    law_single_word(kind);
    law_single_word(data);
    law_single_word(comment);
    law_words_apart(kind, ' ', data);
    law_words_apart(short, ' ', comment);
    let two = seq![kind, data];
    assert(words(short) =~= two);
    let three = words(short + seq![' '] + comment);
    assert(three =~= seq![kind, data, comment]);
    assert(three.take(2) =~= two);
    assert(two.drop_last() =~= seq![kind]);
    assert(joined(two.drop_last(), " "@) == kind);
    assert(joined(two, " "@) =~= kind + seq![' '] + data);
}

/// A text of digits stands for its number, a plus sign before it changes
/// nothing, and no other text stands for one. Nor does a number beyond 64 bits.
pub proof fn law_number_in(s: Seq<char>)
    ensures
        is_whole(s) && numeric(s) <= u64::MAX ==> number_in(s) == Some(numeric(s) as nat) && number_in(seq!['+'] + s)
            == Some(numeric(s) as nat),
        is_whole(s) && numeric(s) > u64::MAX ==> number_in(s) is None && number_in(seq!['+'] + s) is None,
        !is_whole(s) && !(s.len() > 0 && s[0] == '+') ==> number_in(s) is None,
        number_in(s) matches Some(n) ==> n <= u64::MAX,
{
    lemma_value_is_numeric(s);
    let plus = seq!['+'] + s;
    assert(plus.skip(1) =~= s);
    if is_whole(s) {
        assert(is_digit(s[0]));
        lemma_value_nonnegative(s, s.len() as int);
        assert(s.take(s.len() as int) =~= s);
    }
    if s.len() > 0 && s[0] == '+' && is_whole(s.skip(1)) {
        let rest = s.skip(1);
        lemma_value_nonnegative(rest, rest.len() as int);
        assert(rest.take(rest.len() as int) =~= rest);
    }
}

proof fn lemma_value_is_numeric(s: Seq<char>)
    ensures
        value_of(s) == numeric(s),
    decreases s.len(),
{
    if s.len() > 0 {
        lemma_value_is_numeric(s.drop_last());
    }
}

proof fn lemma_value_grows(s: Seq<char>, n: int)
    requires
        0 <= n <= s.len(),
        is_whole(s),
    ensures
        0 <= value_of(s.take(n)) <= value_of(s),
    decreases s.len() - n,
{
    if n < s.len() {
        lemma_value_grows(s, n + 1);
        assert(s.take(n + 1).drop_last() =~= s.take(n));
        assert(s.take(n + 1).last() == s[n]);
        assert(is_digit(s[n]));
        lemma_value_nonnegative(s, n);
    } else {
        assert(s.take(n) =~= s);
        lemma_value_nonnegative(s, n);
    }
}

proof fn lemma_value_nonnegative(s: Seq<char>, n: int)
    requires
        0 <= n <= s.len(),
        is_whole(s),
    ensures
        0 <= value_of(s.take(n)),
    decreases n,
{
    if n > 0 {
        lemma_value_nonnegative(s, n - 1);
        assert(s.take(n).drop_last() =~= s.take(n - 1));
        assert(s.take(n).last() == s[n - 1]);
        assert(is_digit(s[n - 1]));
    }
}

/// The number that a text stands for.
pub fn parse_number(s: &str) -> (r: Option<u64>)
    ensures
        match r {
            Some(n) => number_in(s@) == Some(n as nat),
            None => number_in(s@) is None,
        },
{
    let chars = chars_of(s);
    let start: usize = if chars.len() > 0 && chars[0] == '+' {
        1
    } else {
        0
    };
    let ghost digits = s@.skip(start as int);
    assert(start == 0 ==> digits =~= s@);
    if start == chars.len() {
        return None;
    }
    let mut value: u64 = 0;
    let mut i: usize = start;
    assert(digits.take(0).len() == 0);
    while i < chars.len()
        invariant
            chars@ == s@,
            start <= i <= chars@.len(),
            start == (if s@.len() > 0 && s@[0] == '+' {
                1int
            } else {
                0int
            }),
            digits == s@.skip(start as int),
            digits.len() > 0,
            number_in(s@) == (if is_whole(digits) && value_of(digits) <= u64::MAX {
                Some(value_of(digits) as nat)
            } else {
                None::<nat>
            }),
            forall|k: int| 0 <= k < i - start ==> is_digit(#[trigger] digits[k]),
            value == value_of(digits.take(i - start)),
        decreases chars@.len() - i,
    {
        let c = chars[i];
        let ghost k = i - start;
        assert(digits[k] == c);
        if c < '0' || c > '9' {
            assert(!is_digit(digits[k]));
            return None;
        }
        let d: u64 = c as u64 - 48;
        assert(digits.take(k + 1).drop_last() =~= digits.take(k));
        assert(digits.take(k + 1).last() == c);
        if value > (u64::MAX - d) / 10 {
            proof {
                if is_whole(digits) {
                    lemma_value_grows(digits, k + 1);
                }
                assert(10 * value + d > u64::MAX);
            }
            return None;
        }
        value = 10 * value + d;
        i = i + 1;
    }
    assert(digits.take(i - start) =~= digits);
    Some(value)
}

impl DigitalOceanProvider {
    /// Access with the token of `creds`.
    pub fn new(creds: &DigitalOceanCredentials) -> (r: DigitalOceanProvider)
        ensures
            r.deep_view() == (DoModel { token: creds.token@, region: creds.region@ }),
    {
        DigitalOceanProvider { token: creds.token.clone(), region: creds.region.clone() }
    }

    fn bare(&self, method: Method, url: String) -> (r: Request)
        ensures
            r.deep_view() == bare_request(self.deep_view(), method, url@),
    {
        Request { method, url, bearer: Some(self.token.clone()), body: Body::Nothing }
    }

    fn post(&self, url: String, body: Json) -> (r: Request)
        ensures
            r.deep_view() == post_request(self.deep_view(), url@, body.deep_view()),
    {
        Request {
            method: Method::Post,
            url,
            bearer: Some(self.token.clone()),
            body: Body::Json(body),
        }
    }

    /// The request that tells whether the token is valid.
    pub fn account(&self) -> (r: Request)
        ensures
            r.deep_view() == bare_request(self.deep_view(), Method::Get, ACCOUNT_URL@),
    {
        self.bare(Method::Get, ACCOUNT_URL.to_owned())
    }

    fn register_key(&self, public_key: &str) -> (r: Request)
        ensures
            r.deep_view() == post_request(self.deep_view(), KEYS_URL@, key_body(public_key@)),
    {
        let parts = split_words(public_key);
        assert(forall|i: int| 0 <= i < parts@.len() ==> parts.deep_view()[i] == (#[trigger] parts@[i])@);
        let name = if parts.len() > 2 {
            parts[2].as_str()
        } else {
            "maglev-key"
        };
        let body = put(put(object(), "name", text(name)), "public_key", text(public_key));
        assert(body.deep_view()->Object_0 =~= key_body(public_key@)->Object_0);
        self.post(KEYS_URL.to_owned(), body)
    }

    fn create_droplet(&self, vm: &VmRequest<String>, fingerprint: Option<String>) -> (r: Request)
        ensures
            r.deep_view() == post_request(
                self.deep_view(),
                DROPLETS_URL@,
                droplet_body(self.deep_view(), vm.deep_view(), fingerprint.deep_view()),
            ),
    {
        let keys = match &fingerprint {
            Some(fp) => append(array(), text(fp.as_str())),
            None => array(),
        };
        let tags = append(array(), text("maglev"));
        let mut body = put(object(), "name", text(vm.name.as_str()));
        body = put(body, "region", text(self.region.as_str()));
        body = put(body, "size", text(resolve_size(vm.machine_type.as_str()).as_str()));
        body = put(body, "image", text(resolve_image(vm.boot_disk_image.as_str()).as_str()));
        body = put(body, "ssh_keys", keys);
        body = put(body, "user_data", text(vm.startup_script.as_str()));
        body = put(body, "tags", tags);
        body = put(body, "ipv6", Json::Bool(true));
        proof {
            let expected = droplet_body(self.deep_view(), vm.deep_view(), fingerprint.deep_view())->Object_0;
            assert(keys.deep_view()->Array_0 =~= expected[4].1->Array_0);
            assert(tags.deep_view()->Array_0 =~= expected[6].1->Array_0);
            assert(body.deep_view()->Object_0 =~= expected);
        }
        self.post(DROPLETS_URL.to_owned(), body)
    }

    /// The request that deletes a droplet.
    pub fn destroy_vm(&self, id: &str) -> (r: Request)
        ensures
            r.deep_view() == bare_request(self.deep_view(), Method::Delete, droplet_url(id@)),
    {
        self.bare(Method::Delete, cat3(DROPLETS_URL, "/", id))
    }

    /// The request that describes a droplet, its addresses among the rest.
    pub fn get_vm_ip(&self, id: &str) -> (r: Request)
        ensures
            r.deep_view() == bare_request(self.deep_view(), Method::Get, droplet_url(id@)),
    {
        self.bare(Method::Get, cat3(DROPLETS_URL, "/", id))
    }

    /// The request that creates a disk.
    pub fn create_disk(&self, name: &str, size_gb: u64) -> (r: Request)
        ensures
            r.deep_view() == post_request(
                self.deep_view(),
                VOLUMES_URL@,
                volume_body(self.deep_view(), name@, size_gb),
            ),
    {
        let mut body = put(object(), "name", text(name));
        body = put(body, "size_gigabytes", Json::Number(number(size_gb)));
        body = put(body, "region", text(self.region.as_str()));
        assert(body.deep_view()->Object_0 =~= volume_body(self.deep_view(), name@, size_gb)->Object_0);
        self.post(VOLUMES_URL.to_owned(), body)
    }

    /// The request that attaches a disk to a droplet, whose identifier has to
    /// be a number.
    pub fn attach_disk(&self, disk_id: &str, instance_id: &str) -> (r: Result<Request, String>)
        ensures
            match number_in(instance_id@) {
                Some(n) => r matches Ok(request) && request.deep_view() == post_request(
                    self.deep_view(),
                    VOLUMES_URL@ + "/"@ + disk_id@ + "/actions"@,
                    attach_body(n),
                ),
                None => r matches Err(e) && e@ == "Instance ID '"@ + instance_id@
                    + "' is not a valid numeric DO Droplet ID"@,
            },
    {
        match parse_number(instance_id) {
            Some(n) => {
                let body = put(
                    put(object(), "type", text("attach")),
                    "droplet_id",
                    Json::Number(number(n)),
                );
                assert(body.deep_view()->Object_0 =~= attach_body(n as nat)->Object_0);
                Ok(self.post(cat4(VOLUMES_URL, "/", disk_id, "/actions"), body))
            },
            None => Err(
                cat3("Instance ID '", instance_id, "' is not a valid numeric DO Droplet ID"),
            ),
        }
    }
}

/// Whatever requests come of asking for a droplet or a disk: deleting and
/// describing a droplet are about the droplet of that identifier, creating a
/// disk posts its name and size, and attaching one posts the number of the
/// droplet to the disk of that identifier; the latter is refused if and only if
/// the identifier of the droplet is no number. Each carries the provider's
/// token.
pub proof fn law_requests_are_about_the_droplet(
    provider: &DigitalOceanProvider,
    id: &str,
    disk: &str,
    size_gb: u64,
    account: Request,
    deletion: Request,
    description: Request,
    creation: Request,
    attachment: Result<Request, String>,
)
    requires
        call_ensures(DigitalOceanProvider::account, (provider,), account),
        call_ensures(DigitalOceanProvider::destroy_vm, (provider, id), deletion),
        call_ensures(DigitalOceanProvider::get_vm_ip, (provider, id), description),
        call_ensures(DigitalOceanProvider::create_disk, (provider, disk, size_gb), creation),
        call_ensures(DigitalOceanProvider::attach_disk, (provider, disk, id), attachment),
    ensures
        account.deep_view() == (RequestModel {
            method: Method::Get,
            url: "https://api.digitalocean.com/v2/account"@,
            bearer: Some(provider.token@),
            body: BodyModel::Nothing,
        }),
        deletion.deep_view() == (RequestModel {
            method: Method::Delete,
            url: "https://api.digitalocean.com/v2/droplets"@ + "/"@ + id@,
            bearer: Some(provider.token@),
            body: BodyModel::Nothing,
        }),
        description.deep_view() == (RequestModel {
            method: Method::Get,
            url: "https://api.digitalocean.com/v2/droplets"@ + "/"@ + id@,
            bearer: Some(provider.token@),
            body: BodyModel::Nothing,
        }),
        creation.deep_view().method == Method::Post,
        creation.deep_view().url == "https://api.digitalocean.com/v2/volumes"@,
        creation.deep_view().bearer == Some(provider.token@),
        creation.deep_view().body matches BodyModel::Json(body) && has_member(body, "name"@, JsonModel::Text(disk@))
            && has_member(body, "size_gigabytes"@, JsonModel::Number(decimal(size_gb as nat))) && has_member(
            body,
            "region"@,
            JsonModel::Text(provider.region@),
        ),
        attachment is Ok <==> number_in(id@) is Some,
        attachment matches Ok(request) ==> {
            &&& request.deep_view().method == Method::Post
            &&& request.deep_view().url == "https://api.digitalocean.com/v2/volumes"@ + "/"@ + disk@ + "/actions"@
            &&& request.deep_view().bearer == Some(provider.token@)
            &&& request.deep_view().body matches BodyModel::Json(body) && has_member(
                body,
                "type"@,
                JsonModel::Text("attach"@),
            ) && has_member(body, "droplet_id"@, JsonModel::Number(decimal(number_in(id@)->0)))
        },
{
    law_disk_made_from_its_request(
        provider.deep_view(),
        disk@,
        size_gb,
        number_in(id@)->0,
        Seq::empty(),
    );
}

/// The access that comes of credentials has their token and region.
pub proof fn law_access_is_to_its_region(creds: &DigitalOceanCredentials, r: DigitalOceanProvider)
    requires
        call_ensures(DigitalOceanProvider::new, (creds,), r),
    ensures
        r.token@ == creds.token@,
        r.region@ == creds.region@,
{
    assert(r.deep_view().token == creds.token@);
}

// ---------------------------------------------------------------------------
// Replies
// ---------------------------------------------------------------------------

pub const API_ERROR: &'static str = "DigitalOcean API returned HTTP ";

/// What the reply about the account says: nothing where the token is valid.
pub open spec fn account_outcome(reply: ReplyModel) -> Option<Seq<char>> {
    match document(reply, "DigitalOcean authentication failed (HTTP "@, "): "@) {
        Ok(_) => None,
        Err(e) => Some(e),
    }
}

/// What the reply to registering a key leads to.
#[derive(Debug, PartialEq, Eq)]
pub enum KeyReply<S> {
    /// The key has this fingerprint.
    Registered(S),
    /// The key is registered already: it has to be looked up.
    LookUp,
    Refused(S),
}

impl<S: DeepView> DeepView for KeyReply<S> {
    type V = KeyReply<S::V>;

    open spec fn deep_view(&self) -> KeyReply<S::V> {
        match *self {
            KeyReply::Registered(s) => KeyReply::Registered(s.deep_view()),
            KeyReply::LookUp => KeyReply::LookUp,
            KeyReply::Refused(s) => KeyReply::Refused(s.deep_view()),
        }
    }
}

/// What a document in reply to registering a key leads to.
pub open spec fn key_reply_in(tree: JsonModel, reply: ReplyModel) -> KeyReply<Seq<char>> {
    if reply.status == 201 {
        match text_of(field(field(Some(tree), "ssh_key"@), "fingerprint"@)) {
            Some(fp) => KeyReply::Registered(fp),
            None => KeyReply::Refused("Missing fingerprint in SSH key registration response"@),
        }
    } else if reply.status == 422 {
        KeyReply::LookUp
    } else {
        KeyReply::Refused(api_error("Failed to register SSH key (HTTP "@, reply, "): "@))
    }
}

/// What the reply to registering a key leads to.
pub open spec fn key_reply(reply: ReplyModel) -> KeyReply<Seq<char>> {
    match parsed_json(reply.body) {
        Ok(tree) => key_reply_in(tree, reply),
        Err(e) => KeyReply::Refused(body_error(e)),
    }
}

/// The first key whose type and data are those in `needle`.
pub open spec fn first_key(keys: Seq<JsonModel>, needle: Seq<char>) -> Option<JsonModel>
    decreases keys.len(),
{
    if keys.len() == 0 {
        None
    } else {
        match text_of(field(Some(keys[0]), "public_key"@)) {
            Some(key) => if key_needle(key) == needle {
                Some(keys[0])
            } else {
                first_key(keys.skip(1), needle)
            },
            None => first_key(keys.skip(1), needle),
        }
    }
}

/// The fingerprint of a key in the list of keys.
pub open spec fn fingerprint_in(tree: JsonModel, needle: Seq<char>) -> Result<Seq<char>, Seq<char>> {
    match field(Some(tree), "ssh_keys"@) {
        Some(JsonModel::Array(keys)) => match text_of(field(first_key(keys, needle), "fingerprint"@)) {
            Some(fp) => Ok(fp),
            None => Err("Could not find matching SSH key in DigitalOcean account"@),
        },
        _ => Err("No ssh_keys array in account keys response"@),
    }
}

/// What the list of keys says of a key.
pub open spec fn fingerprint_outcome(reply: ReplyModel, public_key: Seq<char>) -> Result<Seq<char>, Seq<char>> {
    match document(reply, "Failed to list SSH keys (HTTP "@, "): "@) {
        Ok(tree) => fingerprint_in(tree, key_needle(public_key)),
        Err(e) => Err(e),
    }
}

/// What the reply to creating a droplet says: its body where it succeeded.
pub open spec fn droplet_outcome(reply: ReplyModel) -> Result<Seq<char>, Seq<char>> {
    match document(reply, API_ERROR@, ": "@) {
        Ok(_) => Ok(shown_body(reply.body)),
        Err(e) => Err(e),
    }
}

/// The confirmation that a droplet was deleted.
pub open spec fn deleted(id: Seq<char>) -> JsonModel {
    JsonModel::Object(seq![("status"@, JsonModel::Text("deleted"@)), ("id"@, JsonModel::Text(id))])
}

/// What the reply to deleting a droplet says. A success has no body; a
/// confirmation is made for it.
pub open spec fn deletion_outcome(reply: ReplyModel, id: Seq<char>) -> Result<JsonModel, Seq<char>> {
    if reply.status == 204 {
        Ok(deleted(id))
    } else {
        match parsed_json(reply.body) {
            Ok(_) => Err(api_error(API_ERROR@, reply, ": "@)),
            Err(e) => Err(body_error(e)),
        }
    }
}

/// The first network of a kind.
pub open spec fn first_network(networks: Seq<JsonModel>, kind: Seq<char>) -> Option<JsonModel>
    decreases networks.len(),
{
    if networks.len() == 0 {
        None
    } else if text_of(field(Some(networks[0]), "type"@)) == Some(kind) {
        Some(networks[0])
    } else {
        first_network(networks.skip(1), kind)
    }
}

/// The network whose address is used: one of the preferred kind, or else one
/// of the other.
pub open spec fn chosen_network(networks: Seq<JsonModel>, prefer_public: bool) -> Option<JsonModel> {
    let (primary, fallback) = if prefer_public {
        ("public"@, "private"@)
    } else {
        ("private"@, "public"@)
    };
    match first_network(networks, primary) {
        Some(network) => Some(network),
        None => first_network(networks, fallback),
    }
}

/// The address in the description of a droplet.
pub open spec fn address_in(tree: JsonModel, id: Seq<char>, prefer_public: bool) -> Result<
    Seq<char>,
    Seq<char>,
> {
    let droplet = field(Some(tree), "droplet"@);
    if droplet is None || droplet == Some(JsonModel::Null) {
        Err("No droplet found with id '"@ + id + "'"@)
    } else {
        match field(field(droplet, "networks"@), "v4"@) {
            Some(JsonModel::Array(networks)) => match text_of(
                field(chosen_network(networks, prefer_public), "ip_address"@),
            ) {
                Some(ip) => Ok(ip),
                None => Err("No IP address found for droplet '"@ + id + "'"@),
            },
            _ => Err("No v4 networks on droplet '"@ + id + "'"@),
        }
    }
}

/// What the reply to describing a droplet says of its address.
pub open spec fn address_outcome(reply: ReplyModel, id: Seq<char>, prefer_public: bool) -> Result<
    Seq<char>,
    Seq<char>,
> {
    match document(reply, API_ERROR@, " while fetching droplet '"@ + id + "': "@) {
        Ok(tree) => address_in(tree, id, prefer_public),
        Err(e) => Err(e),
    }
}

/// The identifier in the reply to creating a disk.
pub open spec fn volume_in(tree: JsonModel) -> Result<Seq<char>, Seq<char>> {
    match text_of(field(field(Some(tree), "volume"@), "id"@)) {
        Some(id) => Ok(id),
        None => Err("Missing volume id in DigitalOcean response"@),
    }
}

/// What the reply to creating a disk says.
pub open spec fn volume_outcome(reply: ReplyModel, name: Seq<char>) -> Result<Seq<char>, Seq<char>> {
    match document(reply, API_ERROR@, " creating disk '"@ + name + "': "@) {
        Ok(tree) => volume_in(tree),
        Err(e) => Err(e),
    }
}

/// What the reply to attaching a disk says: nothing where it succeeded.
pub open spec fn attachment_outcome(reply: ReplyModel, disk_id: Seq<char>) -> Option<Seq<char>> {
    if is_success(reply.status) {
        None
    } else {
        match parsed_json(reply.body) {
            Ok(_) => Some(api_error(API_ERROR@, reply, " attaching disk '"@ + disk_id + "': "@)),
            Err(e) => Some(body_error(e)),
        }
    }
}

/// A droplet that has a network of the preferred kind is reached by an address
/// of that kind, or not at all.
pub proof fn law_preferred_network_wins(networks: Seq<JsonModel>, prefer_public: bool)
    ensures
        ({
            let preferred = if prefer_public {
                "public"@
            } else {
                "private"@
            };
            first_network(networks, preferred) is Some ==> text_of(
                field(chosen_network(networks, prefer_public), "type"@),
            ) == Some(preferred)
        }),
    decreases networks.len(),
{
    lemma_first_network_kind(networks, "public"@);
    lemma_first_network_kind(networks, "private"@);
}

proof fn lemma_first_network_kind(networks: Seq<JsonModel>, kind: Seq<char>)
    ensures
        first_network(networks, kind) matches Some(n) ==> text_of(field(Some(n), "type"@)) == Some(kind),
    decreases networks.len(),
{
    if networks.len() > 0 {
        lemma_first_network_kind(networks.skip(1), kind);
    }
}

/// Whether a document is a network of a kind.
pub open spec fn is_network(j: JsonModel, kind: Seq<char>) -> bool {
    field(Some(j), "type"@) == Some(JsonModel::Text(kind))
}

/// Whether there is a network of a kind.
pub open spec fn some_network(networks: Seq<JsonModel>, kind: Seq<char>) -> bool {
    exists|i: int| 0 <= i < networks.len() && is_network(#[trigger] networks[i], kind)
}

proof fn lemma_first_network(networks: Seq<JsonModel>, kind: Seq<char>)
    ensures
        match first_network(networks, kind) {
            Some(n) => exists|i: int|
                0 <= i < networks.len() && is_network(#[trigger] networks[i], kind) && n == networks[i] && forall|j: int|
                    0 <= j < i ==> !is_network(#[trigger] networks[j], kind),
            None => forall|j: int| 0 <= j < networks.len() ==> !is_network(#[trigger] networks[j], kind),
        },
    decreases networks.len(),
{
    if networks.len() > 0 {
        let rest = networks.skip(1);
        lemma_first_network(rest, kind);
        if is_network(networks[0], kind) {
            assert(first_network(networks, kind) == Some(networks[0]));
        } else {
            match first_network(rest, kind) {
                Some(n) => {
                    let i = choose|i: int|
                        0 <= i < rest.len() && is_network(#[trigger] rest[i], kind) && n == rest[i] && forall|j: int|
                            0 <= j < i ==> !is_network(#[trigger] rest[j], kind);
                    assert(networks[i + 1] == rest[i]);
                    assert forall|j: int| 0 <= j < i + 1 implies !is_network(#[trigger] networks[j], kind) by {
                        if j > 0 {
                            assert(rest[j - 1] == networks[j]);
                        }
                    }
                },
                None => {
                    assert forall|j: int| 0 <= j < networks.len() implies !is_network(#[trigger] networks[j], kind) by {
                        if j > 0 {
                            assert(rest[j - 1] == networks[j]);
                        }
                    }
                },
            }
        }
    }
}

/// The network whose address a droplet is reached by is one of its networks.
/// It is the first public one where a public address is preferred and there is
/// one, the first private one where a private address is preferred and there is
/// one, and else the first of the other kind.
pub proof fn law_network_is_the_first_of_its_kind(networks: Seq<JsonModel>, prefer_public: bool)
    ensures
        ({
            let kind = if prefer_public {
                if some_network(networks, "public"@) {
                    "public"@
                } else {
                    "private"@
                }
            } else {
                if some_network(networks, "private"@) {
                    "private"@
                } else {
                    "public"@
                }
            };
            match chosen_network(networks, prefer_public) {
                Some(n) => exists|i: int|
                    0 <= i < networks.len() && is_network(#[trigger] networks[i], kind) && n == networks[i]
                        && forall|j: int| 0 <= j < i ==> !is_network(#[trigger] networks[j], kind),
                None => !some_network(networks, "public"@) && !some_network(networks, "private"@),
            }
        }),
{
    lemma_first_network(networks, "public"@);
    lemma_first_network(networks, "private"@);
}

/// The address of a droplet is that of the network it is reached by, in its
/// description; it is an error where the droplet, its networks or the address
/// are missing.
pub proof fn law_address_of_its_network(tree: JsonModel, id: Seq<char>, prefer_public: bool)
    ensures
        match field(field(field(Some(tree), "droplet"@), "networks"@), "v4"@) {
            Some(JsonModel::Array(networks)) => match chosen_network(networks, prefer_public) {
                Some(network) => match field(Some(network), "ip_address"@) {
                    Some(JsonModel::Text(ip)) => address_in(tree, id, prefer_public) == Ok::<Seq<char>, Seq<char>>(ip),
                    _ => address_in(tree, id, prefer_public) is Err,
                },
                None => address_in(tree, id, prefer_public) is Err,
            },
            _ => address_in(tree, id, prefer_public) is Err,
        },
{
}

/// The key that is found in the list of keys is the first one with the type and
/// the data that are looked for.
pub proof fn law_found_key_is_the_first(keys: Seq<JsonModel>, needle: Seq<char>)
    ensures
        match first_key(keys, needle) {
            Some(k) => exists|i: int|
                0 <= i < keys.len() && has_key(#[trigger] keys[i], needle) && k == keys[i] && forall|j: int|
                    0 <= j < i ==> !has_key(#[trigger] keys[j], needle),
            None => forall|j: int| 0 <= j < keys.len() ==> !has_key(#[trigger] keys[j], needle),
        },
    decreases keys.len(),
{
    if keys.len() > 0 {
        let rest = keys.skip(1);
        law_found_key_is_the_first(rest, needle);
        if has_key(keys[0], needle) {
            assert(first_key(keys, needle) == Some(keys[0]));
        } else {
            match first_key(rest, needle) {
                Some(k) => {
                    let i = choose|i: int|
                        0 <= i < rest.len() && has_key(#[trigger] rest[i], needle) && k == rest[i] && forall|j: int|
                            0 <= j < i ==> !has_key(#[trigger] rest[j], needle);
                    assert(keys[i + 1] == rest[i]);
                    assert forall|j: int| 0 <= j < i + 1 implies !has_key(#[trigger] keys[j], needle) by {
                        if j > 0 {
                            assert(rest[j - 1] == keys[j]);
                        }
                    }
                },
                None => {
                    assert forall|j: int| 0 <= j < keys.len() implies !has_key(#[trigger] keys[j], needle) by {
                        if j > 0 {
                            assert(rest[j - 1] == keys[j]);
                        }
                    }
                },
            }
        }
    }
}

/// Whether a document is a key with a type and data.
pub open spec fn has_key(j: JsonModel, needle: Seq<char>) -> bool {
    field(Some(j), "public_key"@) matches Some(JsonModel::Text(key)) && key_needle(key) == needle
}

/// What the replies mean: a key was registered if and only if the status is 201
/// and the fingerprint is there, it has to be looked up if and only if the
/// status is 422, and anything else is a refusal. A droplet was deleted if and
/// only if the status is 204. A disk was attached if and only if the status is
/// in the two hundreds. All other requests succeeded only with such a status.
pub proof fn law_status_decides(reply: ReplyModel, id: Seq<char>, public_key: Seq<char>, prefer_public: bool)
    ensures
        key_reply(reply) is LookUp <==> parsed_json(reply.body) is Ok && reply.status == 422,
        key_reply(reply) matches KeyReply::Registered(fp) ==> reply.status == 201 && (parsed_json(reply.body)
            matches Ok(tree) && field(field(Some(tree), "ssh_key"@), "fingerprint"@) == Some(JsonModel::Text(fp))),
        parsed_json(reply.body) matches Ok(tree) ==> (reply.status == 201 && (field(
            field(Some(tree), "ssh_key"@),
            "fingerprint"@,
        ) matches Some(JsonModel::Text(_))) ==> key_reply(reply) is Registered),
        deletion_outcome(reply, id) is Ok <==> reply.status == 204,
        attachment_outcome(reply, id) is None <==> 200 <= reply.status <= 299,
        account_outcome(reply) is None <==> parsed_json(reply.body) is Ok && 200 <= reply.status <= 299,
        droplet_outcome(reply) is Ok <==> parsed_json(reply.body) is Ok && 200 <= reply.status <= 299,
        droplet_outcome(reply) matches Ok(body) ==> body == shown_body(reply.body),
        address_outcome(reply, id, prefer_public) is Ok ==> 200 <= reply.status <= 299,
        fingerprint_outcome(reply, public_key) is Ok ==> 200 <= reply.status <= 299,
        parsed_json(reply.body) matches Ok(tree) ==> (200 <= reply.status <= 299 ==> address_outcome(
            reply,
            id,
            prefer_public,
        ) == address_in(tree, id, prefer_public)),
        volume_outcome(reply, id) matches Ok(volume) ==> 200 <= reply.status <= 299 && (parsed_json(reply.body)
            matches Ok(tree) && field(field(Some(tree), "volume"@), "id"@) == Some(JsonModel::Text(volume))),
{
    law_only_success_counts(reply, API_ERROR@, ": "@);
}

/// The fingerprint of a key in the list of keys is that of the first key of the
/// same type and data.
pub proof fn law_fingerprint_of_the_same_key(tree: JsonModel, keys: Seq<JsonModel>, needle: Seq<char>, i: int, fp: Seq<char>)
    requires
        field(Some(tree), "ssh_keys"@) == Some(JsonModel::Array(keys)),
        0 <= i < keys.len(),
        has_key(keys[i], needle),
        forall|j: int| 0 <= j < i ==> !has_key(#[trigger] keys[j], needle),
        field(Some(keys[i]), "fingerprint"@) == Some(JsonModel::Text(fp)),
    ensures
        fingerprint_in(tree, needle) == Ok::<Seq<char>, Seq<char>>(fp),
{
    law_found_key_is_the_first(keys, needle);
    if let Some(k) = first_key(keys, needle) {
        let at = choose|at: int|
            0 <= at < keys.len() && has_key(#[trigger] keys[at], needle) && k == keys[at] && forall|j: int|
                0 <= j < at ==> !has_key(#[trigger] keys[j], needle);
        assert(at == i);
    }
}

/// Judge the reply about the account.
pub fn read_account(reply: &Reply) -> (r: Result<(), String>)
    ensures
        match r {
            Ok(_) => account_outcome(reply.deep_view()) is None,
            Err(e) => account_outcome(reply.deep_view()) == Some(e@),
        },
{
    match read_document(reply, "DigitalOcean authentication failed (HTTP ", "): ") {
        Ok(_) => Ok(()),
        Err(e) => Err(e),
    }
}

/// Judge a document in reply to registering a key.
pub fn find_registration(tree: &Json, reply: &Reply) -> (r: KeyReply<String>)
    ensures
        r.deep_view() == key_reply_in(tree.deep_view(), reply.deep_view()),
{
    if reply.status == 201 {
        match get_text(get(get(Some(tree), "ssh_key"), "fingerprint")) {
            Some(fp) => KeyReply::Registered(fp),
            None => KeyReply::Refused("Missing fingerprint in SSH key registration response".to_owned()),
        }
    } else if reply.status == 422 {
        KeyReply::LookUp
    } else {
        KeyReply::Refused(error_text("Failed to register SSH key (HTTP ", reply, "): "))
    }
}

/// Judge the reply to registering a key.
pub fn ensure_ssh_key(reply: &Reply) -> (r: KeyReply<String>)
    ensures
        r.deep_view() == key_reply(reply.deep_view()),
{
    match read_body(reply) {
        Ok(tree) => find_registration(&tree, reply),
        Err(e) => KeyReply::Refused(e),
    }
}

fn needle_of(public_key: &str) -> (r: String)
    ensures
        r@ == key_needle(public_key@),
{
    let mut parts = split_words(public_key);
    let ghost all = parts.deep_view();
    if parts.len() > 2 {
        parts.truncate(2);
        assert(parts.deep_view() =~= all.take(2));
    }
    join(&parts, " ")
}

/// The fingerprint of a key in the list of keys.
pub fn find_fingerprint(tree: &Json, needle: &str) -> (r: Result<String, String>)
    ensures
        text_outcome(r) == fingerprint_in(tree.deep_view(), needle@),
{
    match get(Some(tree), "ssh_keys") {
        Some(Json::Array(keys)) => {
            let ghost all = json_view(Json::Array(*keys))->Array_0;
            let mut i: usize = 0;
            assert(all.skip(0) =~= all);
            while i < keys.len()
                invariant
                    i <= keys@.len(),
                    all.len() == keys@.len(),
                    forall|k: int| 0 <= k < keys@.len() ==> #[trigger] all[k] == json_view(keys@[k]),
                    field(Some(tree.deep_view()), "ssh_keys"@) == Some(JsonModel::Array(all)),
                    first_key(all, needle@) == first_key(all.skip(i as int), needle@),
                decreases keys@.len() - i,
            {
                let ghost rest = all.skip(i as int);
                assert(rest[0] == all[i as int]);
                assert(rest.skip(1) =~= all.skip(i + 1));
                if let Some(key) = get_text(get(Some(&keys[i]), "public_key")) {
                    if same(needle_of(key.as_str()).as_str(), needle) {
                        return match get_text(get(Some(&keys[i]), "fingerprint")) {
                            Some(fp) => Ok(fp),
                            None => Err(
                                "Could not find matching SSH key in DigitalOcean account".to_owned(),
                            ),
                        };
                    }
                }
                i = i + 1;
            }
            Err("Could not find matching SSH key in DigitalOcean account".to_owned())
        },
        _ => Err("No ssh_keys array in account keys response".to_owned()),
    }
}

/// Judge the list of keys for the fingerprint of a key.
pub fn find_ssh_key_fingerprint(reply: &Reply, public_key: &str) -> (r: Result<String, String>)
    ensures
        text_outcome(r) == fingerprint_outcome(reply.deep_view(), public_key@),
{
    match read_document(reply, "Failed to list SSH keys (HTTP ", "): ") {
        Ok(tree) => find_fingerprint(&tree, needle_of(public_key).as_str()),
        Err(e) => Err(e),
    }
}

/// Judge the reply to creating a droplet.
pub fn read_droplet(reply: &Reply) -> (r: Result<String, String>)
    ensures
        text_outcome(r) == droplet_outcome(reply.deep_view()),
{
    match read_document(reply, API_ERROR, ": ") {
        Ok(_) => Ok(show_body(reply.body.as_str())),
        Err(e) => Err(e),
    }
}

/// Judge the reply to deleting a droplet.
pub fn read_deletion(reply: &Reply, id: &str) -> (r: Result<Json, String>)
    ensures
        json_outcome(r) == deletion_outcome(reply.deep_view(), id@),
{
    if reply.status == 204 {
        let confirmation = put(put(object(), "status", text("deleted")), "id", text(id));
        assert(confirmation.deep_view()->Object_0 =~= deleted(id@)->Object_0);
        return Ok(confirmation);
    }
    match read_body(reply) {
        Ok(_) => Err(error_text(API_ERROR, reply, ": ")),
        Err(e) => Err(e),
    }
}

fn find_network<'a>(networks: &'a Vec<Json>, kind: &str) -> (r: Option<&'a Json>)
    ensures
        found(r) == first_network(json_view(Json::Array(*networks))->Array_0, kind@),
{
    let ghost all = json_view(Json::Array(*networks))->Array_0;
    let mut i: usize = 0;
    assert(all.skip(0) =~= all);
    while i < networks.len()
        invariant
            i <= networks@.len(),
            all == json_view(Json::Array(*networks))->Array_0,
            all.len() == networks@.len(),
            forall|k: int| 0 <= k < networks@.len() ==> #[trigger] all[k] == json_view(networks@[k]),
            first_network(all, kind@) == first_network(all.skip(i as int), kind@),
        decreases networks@.len() - i,
    {
        let ghost rest = all.skip(i as int);
        assert(rest[0] == all[i as int]);
        assert(rest.skip(1) =~= all.skip(i + 1));
        if let Some(t) = get_text(get(Some(&networks[i]), "type")) {
            if same(t.as_str(), kind) {
                return Some(&networks[i]);
            }
        }
        i = i + 1;
    }
    None
}

/// The address in the description of a droplet.
pub fn find_address(tree: &Json, id: &str, prefer_public: bool) -> (r: Result<String, String>)
    ensures
        text_outcome(r) == address_in(tree.deep_view(), id@, prefer_public),
{
    let droplet = get(Some(tree), "droplet");
    match droplet {
        None => return Err(cat3("No droplet found with id '", id, "'")),
        Some(Json::Null) => return Err(cat3("No droplet found with id '", id, "'")),
        _ => {},
    }
    match get(get(droplet, "networks"), "v4") {
        Some(Json::Array(networks)) => {
            let (primary, fallback) = if prefer_public {
                ("public", "private")
            } else {
                ("private", "public")
            };
            let network = match find_network(networks, primary) {
                Some(network) => Some(network),
                None => find_network(networks, fallback),
            };
            match get_text(get(network, "ip_address")) {
                Some(ip) => Ok(ip),
                None => Err(cat3("No IP address found for droplet '", id, "'")),
            }
        },
        _ => Err(cat3("No v4 networks on droplet '", id, "'")),
    }
}

/// Judge the reply to describing a droplet.
pub fn read_address(reply: &Reply, id: &str, prefer_public: bool) -> (r: Result<String, String>)
    ensures
        text_outcome(r) == address_outcome(reply.deep_view(), id@, prefer_public),
{
    let middle = cat3(" while fetching droplet '", id, "': ");
    match read_document(reply, API_ERROR, middle.as_str()) {
        Ok(tree) => find_address(&tree, id, prefer_public),
        Err(e) => Err(e),
    }
}

/// The identifier in the reply to creating a disk.
pub fn find_volume(tree: &Json) -> (r: Result<String, String>)
    ensures
        text_outcome(r) == volume_in(tree.deep_view()),
{
    match get_text(get(get(Some(tree), "volume"), "id")) {
        Some(id) => Ok(id),
        None => Err("Missing volume id in DigitalOcean response".to_owned()),
    }
}

/// Judge the reply to creating a disk.
pub fn read_volume(reply: &Reply, name: &str) -> (r: Result<String, String>)
    ensures
        text_outcome(r) == volume_outcome(reply.deep_view(), name@),
{
    let middle = cat3(" creating disk '", name, "': ");
    match read_document(reply, API_ERROR, middle.as_str()) {
        Ok(tree) => find_volume(&tree),
        Err(e) => Err(e),
    }
}

/// Judge the reply to attaching a disk.
pub fn read_attachment(reply: &Reply, disk_id: &str) -> (r: Result<(), String>)
    ensures
        match r {
            Ok(_) => attachment_outcome(reply.deep_view(), disk_id@) is None,
            Err(e) => attachment_outcome(reply.deep_view(), disk_id@) == Some(e@),
        },
{
    if success(reply.status) {
        return Ok(());
    }
    match read_body(reply) {
        Ok(_) => {
            let middle = cat3(" attaching disk '", disk_id, "': ");
            Err(error_text(API_ERROR, reply, middle.as_str()))
        },
        Err(e) => Err(e),
    }
}

// ---------------------------------------------------------------------------
// Creating a droplet
// ---------------------------------------------------------------------------

/// Where the creation of a droplet stands.
#[derive(Clone, Copy, Debug)]
pub enum DropletStage {
    /// Its SSH key is being registered.
    Registering,
    /// Its SSH key is being looked up.
    Listing,
    /// It is being created.
    Creating,
}

/// The creation of a droplet.
pub struct DropletCreation {
    pub provider: DigitalOceanProvider,
    pub vm: VmRequest<String>,
    pub public_key: String,
    pub stage: DropletStage,
}

pub struct CreationModel {
    pub provider: DoModel,
    pub vm: VmRequest<Seq<char>>,
    pub public_key: Seq<char>,
    pub stage: DropletStage,
}

impl DeepView for DropletCreation {
    type V = CreationModel;

    open spec fn deep_view(&self) -> CreationModel {
        CreationModel {
            provider: self.provider.deep_view(),
            vm: self.vm.deep_view(),
            public_key: self.public_key@,
            stage: self.stage,
        }
    }
}

/// Where an exchange with an API stands.
pub enum Exchange {
    /// It waits for the reply to a request.
    Ask(DropletCreation, Request),
    /// It succeeded, with this reply.
    Replied(String),
    /// It failed, for this reason.
    Refused(String),
}

pub enum ExchangeModel {
    Ask(CreationModel, RequestModel),
    Replied(Seq<char>),
    Refused(Seq<char>),
}

impl DeepView for Exchange {
    type V = ExchangeModel;

    open spec fn deep_view(&self) -> ExchangeModel {
        match *self {
            Exchange::Ask(c, r) => ExchangeModel::Ask(c.deep_view(), r.deep_view()),
            Exchange::Replied(s) => ExchangeModel::Replied(s@),
            Exchange::Refused(s) => ExchangeModel::Refused(s@),
        }
    }
}

/// The droplet is asked for.
pub open spec fn ask_droplet(m: CreationModel, fingerprint: Option<Seq<char>>, log: Log) -> (ExchangeModel, Log) {
    (
        ExchangeModel::Ask(
            CreationModel { stage: DropletStage::Creating, ..m },
            post_request(m.provider, DROPLETS_URL@, droplet_body(m.provider, m.vm, fingerprint)),
        ),
        log,
    )
}

/// The fingerprint of the droplet's key is known.
pub open spec fn key_known(m: CreationModel, fingerprint: Seq<char>, log: Log) -> (ExchangeModel, Log) {
    ask_droplet(
        m,
        Some(fingerprint),
        log.push(Note::Say("    SSH key fingerprint: "@ + fingerprint)),
    )
}

/// The creation starts with registering the key, where there is one.
pub open spec fn creation_begin(provider: DoModel, vm: VmRequest<Seq<char>>, log: Log) -> (ExchangeModel, Log) {
    let key = key_of(vm.ssh_keys);
    let m = CreationModel { provider, vm, public_key: key, stage: DropletStage::Registering };
    if key.len() == 0 {
        ask_droplet(m, None, log)
    } else {
        (ExchangeModel::Ask(m, post_request(provider, KEYS_URL@, key_body(key))), log)
    }
}

/// What the creation does with a reply.
pub open spec fn creation_next(m: CreationModel, reply: ReplyModel, log: Log) -> (ExchangeModel, Log) {
    match m.stage {
        DropletStage::Registering => match key_reply(reply) {
            KeyReply::Registered(fp) => key_known(m, fp, log),
            KeyReply::LookUp => (
                ExchangeModel::Ask(
                    CreationModel { stage: DropletStage::Listing, ..m },
                    bare_request(m.provider, Method::Get, KEY_LIST_URL@),
                ),
                log,
            ),
            KeyReply::Refused(e) => (ExchangeModel::Refused(e), log),
        },
        DropletStage::Listing => match fingerprint_outcome(reply, m.public_key) {
            Ok(fp) => key_known(m, fp, log),
            Err(e) => (ExchangeModel::Refused(e), log),
        },
        DropletStage::Creating => match droplet_outcome(reply) {
            Ok(body) => (ExchangeModel::Replied(body), log),
            Err(e) => (ExchangeModel::Refused(e), log),
        },
    }
}

/// How far the creation is from its end.
pub open spec fn creation_rank(m: CreationModel) -> nat {
    match m.stage {
        DropletStage::Registering => 3,
        DropletStage::Listing => 2,
        DropletStage::Creating => 1,
    }
}

/// The creation comes to an end: every reply takes it nearer.
pub proof fn law_creation_ends(m: CreationModel, reply: ReplyModel, log: Log)
    ensures
        creation_next(m, reply, log).0 matches ExchangeModel::Ask(n, _) ==> creation_rank(n) < creation_rank(m),
{
}

/// A droplet that has a public key is not asked for before that key is seen
/// to, and one that has none is asked for without a key.
pub proof fn law_droplet_waits_for_its_key(provider: DoModel, vm: VmRequest<Seq<char>>, log: Log)
    ensures
        creation_begin(provider, vm, log).0 matches ExchangeModel::Ask(n, request) && (n.stage
            == DropletStage::Creating <==> key_of(vm.ssh_keys).len() == 0) && (n.stage
            == DropletStage::Creating ==> request == post_request(
            provider,
            DROPLETS_URL@,
            droplet_body(provider, vm, None),
        )),
{
}

/// Once its key is seen to, a droplet is asked for with the fingerprint that
/// was given for that key: at its registration, or in the list of keys.
pub proof fn law_droplet_has_its_key(m: CreationModel, reply: ReplyModel, log: Log)
    ensures
        creation_next(m, reply, log).0 matches ExchangeModel::Ask(n, request) ==> (n.stage
            == DropletStage::Creating ==> exists|fp: Seq<char>|
            #![trigger droplet_body(m.provider, m.vm, Some(fp))]
            {
                &&& request == post_request(
                    m.provider,
                    DROPLETS_URL@,
                    droplet_body(m.provider, m.vm, Some(fp)),
                )
                &&& m.stage == DropletStage::Registering ==> key_reply(reply) == KeyReply::Registered(fp)
                &&& m.stage == DropletStage::Listing ==> fingerprint_outcome(reply, m.public_key)
                    == Ok::<Seq<char>, Seq<char>>(fp)
            }),
{
    match m.stage {
        DropletStage::Registering => {
            if let KeyReply::Registered(fp) = key_reply(reply) {
                let body = droplet_body(m.provider, m.vm, Some(fp));
            }
        },
        DropletStage::Listing => {
            if let Ok(fp) = fingerprint_outcome(reply, m.public_key) {
                let body = droplet_body(m.provider, m.vm, Some(fp));
            }
        },
        DropletStage::Creating => {},
    }
}

/// Throughout, the droplet that is created is the one that was asked for, at
/// the provider that was given, and its key is the one of the request: the key
/// is registered as it is, then looked up in the list of all keys where it is
/// registered already.
pub proof fn law_creation_is_for_its_request(
    provider: DoModel,
    vm: VmRequest<Seq<char>>,
    m: CreationModel,
    reply: ReplyModel,
    log: Log,
)
    ensures
        creation_begin(provider, vm, log).0 matches ExchangeModel::Ask(n, request) && {
            &&& n.provider == provider
            &&& n.vm == vm
            &&& n.public_key == key_of(vm.ssh_keys)
            &&& request.method == Method::Post
            &&& request.bearer == Some(provider.token)
            &&& n.stage == DropletStage::Registering ==> request.url == "https://api.digitalocean.com/v2/account/keys"@
                && (request.body matches BodyModel::Json(body) && has_member(
                body,
                "public_key"@,
                JsonModel::Text(key_of(vm.ssh_keys)),
            ))
            &&& n.stage == DropletStage::Creating ==> request.url == "https://api.digitalocean.com/v2/droplets"@
        },
        creation_next(m, reply, log).0 matches ExchangeModel::Ask(n, request) ==> {
            &&& n.provider == m.provider
            &&& n.vm == m.vm
            &&& n.public_key == m.public_key
            &&& request.bearer == Some(m.provider.token)
            &&& n.stage == DropletStage::Listing ==> request.method == Method::Get && request.url
                == "https://api.digitalocean.com/v2/account/keys?per_page=200"@ && request.body is Nothing
            &&& n.stage == DropletStage::Creating ==> request.method == Method::Post && request.url
                == "https://api.digitalocean.com/v2/droplets"@
            &&& n.stage != DropletStage::Registering
        },
        m.stage == DropletStage::Creating ==> (creation_next(m, reply, log).0 matches ExchangeModel::Replied(body) ==> (
        200 <= reply.status <= 299 && body == shown_body(reply.body))),
        m.stage == DropletStage::Registering && reply.status == 422 && parsed_json(reply.body) is Ok ==> (creation_next(
            m,
            reply,
            log,
        ).0 matches ExchangeModel::Ask(n, _) && n.stage == DropletStage::Listing),
{
    law_members_are_had(key_body(key_of(vm.ssh_keys))->Object_0, 1);
    law_only_success_counts(reply, API_ERROR@, ": "@);
}

/// Start creating a droplet.
pub fn create_vm(provider: DigitalOceanProvider, vm: VmRequest<String>, log: &mut Vec<Note<String>>) -> (r:
    Exchange)
    ensures
        (r.deep_view(), final(log).deep_view()) == creation_begin(
            provider.deep_view(),
            vm.deep_view(),
            old(log).deep_view(),
        ),
{
    let public_key = match after(vm.ssh_keys.as_str(), ':') {
        Some(rest) => trim(rest.as_str()),
        None => trim(vm.ssh_keys.as_str()),
    };
    if public_key.as_str().is_empty() {
        let request = provider.create_droplet(&vm, None);
        Exchange::Ask(
            DropletCreation { provider, vm, public_key, stage: DropletStage::Creating },
            request,
        )
    } else {
        let request = provider.register_key(public_key.as_str());
        Exchange::Ask(
            DropletCreation { provider, vm, public_key, stage: DropletStage::Registering },
            request,
        )
    }
}

impl DropletCreation {
    fn key_known(self, fingerprint: String, log: &mut Vec<Note<String>>) -> (r: Exchange)
        ensures
            (r.deep_view(), final(log).deep_view()) == key_known(
                self.deep_view(),
                fingerprint@,
                old(log).deep_view(),
            ),
    {
        say(log, cat2("    SSH key fingerprint: ", fingerprint.as_str()));
        let request = self.provider.create_droplet(&self.vm, Some(fingerprint));
        Exchange::Ask(DropletCreation { stage: DropletStage::Creating, ..self }, request)
    }

    /// Take the reply to the request that was made.
    pub fn step(self, reply: &Reply, log: &mut Vec<Note<String>>) -> (r: Exchange)
        ensures
            (r.deep_view(), final(log).deep_view()) == creation_next(
                self.deep_view(),
                reply.deep_view(),
                old(log).deep_view(),
            ),
    {
        match self.stage {
            DropletStage::Registering => match ensure_ssh_key(reply) {
                KeyReply::Registered(fp) => self.key_known(fp, log),
                KeyReply::LookUp => {
                    let request = self.provider.bare(Method::Get, KEY_LIST_URL.to_owned());
                    Exchange::Ask(DropletCreation { stage: DropletStage::Listing, ..self }, request)
                },
                KeyReply::Refused(e) => Exchange::Refused(e),
            },
            DropletStage::Listing => match find_ssh_key_fingerprint(reply, self.public_key.as_str()) {
                Ok(fp) => self.key_known(fp, log),
                Err(e) => Exchange::Refused(e),
            },
            DropletStage::Creating => match read_droplet(reply) {
                Ok(body) => Exchange::Replied(body),
                Err(e) => Exchange::Refused(e),
            },
        }
    }
}

} // verus!
