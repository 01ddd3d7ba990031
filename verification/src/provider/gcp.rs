//! Google Cloud: requests to the Compute Engine API, and what its replies say.

use vstd::prelude::*;

use crate::http::{
    document, law_only_success_counts, read_document, shown_body, show_body, text_outcome, Body, BodyModel, Method,
    Reply, ReplyModel, Request, RequestModel,
};
use crate::json::{
    append, array, field, found, get, get_item, get_text, has_member, item, law_field,
    law_members_are_had, object, parsed_json, put, text, text_of, Json, JsonModel,
};
use crate::session::VmRequest;
use crate::structs::{GroupYaml, ProvisionerYaml, RuleYaml, SpecYaml};
use crate::text::{begins, cat2, cat3, cat4, cat5, contains_char, decimal, number};

verus! {

// ---------------------------------------------------------------------------
// Types
// ---------------------------------------------------------------------------

/// What the program authenticates with.
#[derive(Debug, Clone)]
pub struct GcpCredentials {
    pub client_email: String,
    /// Path to the PEM private key file.
    pub private_key_path: String,
    pub project_id: String,
    pub zone: String,
}

/// The credentials of a configuration.
#[derive(Debug)]
pub struct GcpCredentialsYaml {
    pub client_email: String,
    pub private_key: String,
    pub project_id: String,
    pub zone: String,
}

/// A configuration for Google Cloud.
#[derive(Debug)]
pub struct GcpYaml {
    pub group: Vec<GroupYaml>,
    pub specs: Vec<SpecYaml>,
    pub rules: Vec<RuleYaml>,
    pub credentials: GcpCredentialsYaml,
    pub provisioner: Option<ProvisionerYaml>,
}

/// The document that holds a configuration for Google Cloud.
#[derive(Debug)]
pub struct GcpRoot {
    pub gcp: GcpYaml,
}

/// Access to the Compute Engine API.
pub struct GcpProvider {
    pub access_token: String,
    pub project_id: String,
    pub zone: String,
}

pub struct GcpModel {
    pub access_token: Seq<char>,
    pub project_id: Seq<char>,
    pub zone: Seq<char>,
}

impl DeepView for GcpProvider {
    type V = GcpModel;

    open spec fn deep_view(&self) -> GcpModel {
        GcpModel {
            access_token: self.access_token@,
            project_id: self.project_id@,
            zone: self.zone@,
        }
    }
}

// ---------------------------------------------------------------------------
// Images
// ---------------------------------------------------------------------------

/// The project that publishes an image.
pub open spec fn image_project(image: Seq<char>) -> Seq<char> {
    if "ubuntu"@.is_prefix_of(image) {
        "ubuntu-os-cloud"@
    } else if "debian"@.is_prefix_of(image) {
        "debian-cloud"@
    } else if "cos"@.is_prefix_of(image) {
        "cos-cloud"@
    } else if "rhel"@.is_prefix_of(image) {
        "rhel-cloud"@
    } else if "rocky"@.is_prefix_of(image) {
        "rocky-linux-cloud"@
    } else {
        "debian-cloud"@
    }
}

/// The path of an image: what already is a path stays as it is, and anything
/// else names an image family.
pub open spec fn image_path(image: Seq<char>) -> Seq<char> {
    if image.contains('/') {
        image
    } else {
        "projects/"@ + image_project(image) + "/global/images/family/"@ + image
    }
}

/// The path of an image is its own path.
pub proof fn law_image_path_idempotent(image: Seq<char>)
    ensures
        image_path(image_path(image)) == image_path(image),
{
    reveal_strlit("projects/");
    if !image.contains('/') {
        assert(image_path(image)[8] == '/');
    }
}

/// An image without a slash is the family of that name. It is published by the
/// project of the distribution that its name begins with.
pub proof fn law_image_family_belongs_to_distribution(rest: Seq<char>)
    requires
        !rest.contains('/'),
    ensures
        image_path("ubuntu"@ + rest) == "projects/"@ + "ubuntu-os-cloud"@ + "/global/images/family/"@ + ("ubuntu"@
            + rest),
        image_path("debian"@ + rest) == "projects/"@ + "debian-cloud"@ + "/global/images/family/"@ + ("debian"@ + rest),
        image_path("cos"@ + rest) == "projects/"@ + "cos-cloud"@ + "/global/images/family/"@ + ("cos"@ + rest),
        image_path("rhel"@ + rest) == "projects/"@ + "rhel-cloud"@ + "/global/images/family/"@ + ("rhel"@ + rest),
        image_path("rocky"@ + rest) == "projects/"@ + "rocky-linux-cloud"@ + "/global/images/family/"@ + ("rocky"@
            + rest),
        rest.len() > 0 && rest[0] != 'u' && rest[0] != 'c' && rest[0] != 'r' ==> image_path(rest) == "projects/"@
            + "debian-cloud"@ + "/global/images/family/"@ + rest,
{
    reveal_strlit("ubuntu");
    reveal_strlit("debian");
    reveal_strlit("cos");
    reveal_strlit("rhel");
    reveal_strlit("rocky");
    lemma_begins_with("ubuntu"@, rest);
    lemma_begins_with("debian"@, rest);
    lemma_begins_with("cos"@, rest);
    lemma_begins_with("rhel"@, rest);
    lemma_begins_with("rocky"@, rest);
    assert("rhel"@[1] == 'h');
    assert("rocky"@[1] == 'o');
    if "rhel"@.is_prefix_of("rocky"@ + rest) {
        assert(("rocky"@ + rest)[1] == "rhel"@[1]);
    }
    lemma_other_beginning("ubuntu"@, "debian"@ + rest);
    lemma_other_beginning("ubuntu"@, "cos"@ + rest);
    lemma_other_beginning("debian"@, "cos"@ + rest);
    lemma_other_beginning("ubuntu"@, "rhel"@ + rest);
    lemma_other_beginning("debian"@, "rhel"@ + rest);
    lemma_other_beginning("cos"@, "rhel"@ + rest);
    lemma_other_beginning("ubuntu"@, "rocky"@ + rest);
    lemma_other_beginning("debian"@, "rocky"@ + rest);
    lemma_other_beginning("cos"@, "rocky"@ + rest);
    if rest.len() > 0 {
        lemma_other_beginning("ubuntu"@, rest);
        lemma_other_beginning("cos"@, rest);
        lemma_other_beginning("rhel"@, rest);
        lemma_other_beginning("rocky"@, rest);
    }
}

proof fn lemma_begins_with(head: Seq<char>, rest: Seq<char>)
    requires
        !rest.contains('/'),
        !head.contains('/'),
    ensures
        head.is_prefix_of(head + rest),
        !(head + rest).contains('/'),
{
    let all = head + rest;
    assert(all.subrange(0, head.len() as int) =~= head);
    if all.contains('/') {
        let i = choose|i: int| 0 <= i < all.len() && all[i] == '/';
        if i < head.len() {
            assert(head[i] == '/');
        } else {
            assert(rest[i - head.len()] == '/');
        }
    }
}

proof fn lemma_other_beginning(head: Seq<char>, s: Seq<char>)
    requires
        head.len() > 0,
        s.len() > 0,
    ensures
        head[0] != s[0] ==> !head.is_prefix_of(s),
{
    if head.is_prefix_of(s) {
        assert(head =~= s.subrange(0, head.len() as int));
        assert(head[0] == s[0]);
    }
}

/// The path of an image.
pub fn resolve_image(image: &str) -> (r: String)
    ensures
        r@ == image_path(image@),
{
    if contains_char(image, '/') {
        return image.to_owned();
    }
    let project = if begins(image, "ubuntu") {
        "ubuntu-os-cloud"
    } else if begins(image, "debian") {
        "debian-cloud"
    } else if begins(image, "cos") {
        "cos-cloud"
    } else if begins(image, "rhel") {
        "rhel-cloud"
    } else if begins(image, "rocky") {
        "rocky-linux-cloud"
    } else {
        "debian-cloud"
    };
    cat4("projects/", project, "/global/images/family/", image)
}

// ---------------------------------------------------------------------------
// Requests
// ---------------------------------------------------------------------------

/// Where the instances of a project's zone are.
pub open spec fn instances_url(m: GcpModel) -> Seq<char> {
    "https://compute.googleapis.com/compute/v1/projects/"@ + m.project_id + "/zones/"@ + m.zone
        + "/instances"@
}

/// Where an instance is.
pub open spec fn instance_url(m: GcpModel, name: Seq<char>) -> Seq<char> {
    instances_url(m) + "/"@ + name
}

/// One item of an instance's metadata.
pub open spec fn metadata_item(key: Seq<char>, value: Seq<char>) -> JsonModel {
    JsonModel::Object(seq![("key"@, JsonModel::Text(key)), ("value"@, JsonModel::Text(value))])
}

/// The metadata of an instance: its SSH keys and its startup script, as far as
/// it has them.
pub open spec fn metadata_items(vm: VmRequest<Seq<char>>) -> Seq<JsonModel> {
    let keys = if vm.ssh_keys.len() > 0 {
        Seq::<JsonModel>::empty().push(metadata_item("ssh-keys"@, vm.ssh_keys))
    } else {
        Seq::empty()
    };
    if vm.startup_script.len() > 0 {
        keys.push(metadata_item("startup-script"@, vm.startup_script))
    } else {
        keys
    }
}

/// The network interface of an instance; one with a public address is behind
/// a one-to-one NAT.
pub open spec fn network_interface(public_ip: bool) -> JsonModel {
    if public_ip {
        JsonModel::Object(
            seq![
                ("network"@, JsonModel::Text("global/networks/default"@)),
                (
                    "accessConfigs"@,
                    JsonModel::Array(
                        seq![
                            JsonModel::Object(
                                seq![
                                    ("type"@, JsonModel::Text("ONE_TO_ONE_NAT"@)),
                                    ("name"@, JsonModel::Text("External NAT"@)),
                                    ("networkTier"@, JsonModel::Text("PREMIUM"@)),
                                ],
                            ),
                        ],
                    ),
                ),
            ],
        )
    } else {
        JsonModel::Object(seq![("network"@, JsonModel::Text("global/networks/default"@))])
    }
}

/// The boot disk of an instance.
pub open spec fn boot_disk(vm: VmRequest<Seq<char>>) -> JsonModel {
    JsonModel::Object(
        seq![
            ("boot"@, JsonModel::Bool(true)),
            ("autoDelete"@, JsonModel::Bool(true)),
            (
                "initializeParams"@,
                JsonModel::Object(
                    seq![
                        ("sourceImage"@, JsonModel::Text(image_path(vm.boot_disk_image))),
                        ("diskSizeGb"@, JsonModel::Text(decimal(vm.boot_disk_size_gb as nat))),
                    ],
                ),
            ),
        ],
    )
}

/// What an instance is created from.
pub open spec fn instance_body(m: GcpModel, vm: VmRequest<Seq<char>>) -> JsonModel {
    JsonModel::Object(
        seq![
            ("name"@, JsonModel::Text(vm.name)),
            (
                "machineType"@,
                JsonModel::Text("zones/"@ + m.zone + "/machineTypes/"@ + vm.machine_type),
            ),
            ("disks"@, JsonModel::Array(seq![boot_disk(vm)])),
            ("networkInterfaces"@, JsonModel::Array(seq![network_interface(vm.public_ip)])),
            (
                "metadata"@,
                JsonModel::Object(seq![("items"@, JsonModel::Array(metadata_items(vm)))]),
            ),
        ],
    )
}

/// Whether a metadata item has this key and this value.
pub open spec fn is_item(j: JsonModel, key: Seq<char>, value: Seq<char>) -> bool {
    has_member(j, "key"@, JsonModel::Text(key)) && has_member(j, "value"@, JsonModel::Text(value))
}

/// What an instance is created from says its name and its machine type in the
/// zone, for any request.
pub proof fn law_instance_says_name_and_type(m: GcpModel, vm: VmRequest<Seq<char>>)
    ensures
        has_member(instance_body(m, vm), "name"@, JsonModel::Text(vm.name)),
        has_member(
            instance_body(m, vm),
            "machineType"@,
            JsonModel::Text("zones/"@ + m.zone + "/machineTypes/"@ + vm.machine_type),
        ),
        instance_body(m, vm) matches JsonModel::Object(members) && members.len() == 5,
{
    let members = instance_body(m, vm)->Object_0;
    law_members_are_had(members, 0);
    law_members_are_had(members, 1);
}

/// An instance has one disk, from which it boots, which goes when it goes, and
/// which has the image and the size of the request.
pub proof fn law_instance_boots_from_its_disk(m: GcpModel, vm: VmRequest<Seq<char>>)
    ensures
        exists|disk: JsonModel, params: JsonModel|
            #![trigger has_member(disk, "initializeParams"@, params)]
            {
                &&& has_member(instance_body(m, vm), "disks"@, JsonModel::Array(seq![disk]))
                &&& has_member(disk, "boot"@, JsonModel::Bool(true))
                &&& has_member(disk, "autoDelete"@, JsonModel::Bool(true))
                &&& has_member(disk, "initializeParams"@, params)
                &&& has_member(params, "sourceImage"@, JsonModel::Text(image_path(vm.boot_disk_image)))
                &&& has_member(params, "diskSizeGb"@, JsonModel::Text(decimal(vm.boot_disk_size_gb as nat)))
            },
{
    let members = instance_body(m, vm)->Object_0;
    let disk = boot_disk(vm);
    let params = disk->Object_0[2].1;
    law_members_are_had(members, 2);
    law_members_are_had(disk->Object_0, 0);
    law_members_are_had(disk->Object_0, 1);
    law_members_are_had(disk->Object_0, 2);
    law_members_are_had(params->Object_0, 0);
    law_members_are_had(params->Object_0, 1);
    assert(has_member(disk, "initializeParams"@, params));
}

/// An instance has one interface on the default network. It has an external
/// address if and only if the request asks for a public one.
pub proof fn law_instance_is_public_if_asked(m: GcpModel, vm: VmRequest<Seq<char>>)
    ensures
        exists|interface: JsonModel|
            #![trigger has_member(instance_body(m, vm), "networkInterfaces"@, JsonModel::Array(seq![interface]))]
            {
                &&& has_member(instance_body(m, vm), "networkInterfaces"@, JsonModel::Array(seq![interface]))
                &&& has_member(interface, "network"@, JsonModel::Text("global/networks/default"@))
                &&& field(Some(interface), "accessConfigs"@) is Some <==> vm.public_ip
                &&& vm.public_ip ==> (item(field(Some(interface), "accessConfigs"@), 0) matches Some(access)
                    && has_member(access, "type"@, JsonModel::Text("ONE_TO_ONE_NAT"@)))
            },
{
    reveal_strlit("network");
    reveal_strlit("accessConfigs");
    let members = instance_body(m, vm)->Object_0;
    let interface = network_interface(vm.public_ip);
    law_members_are_had(members, 3);
    law_members_are_had(interface->Object_0, 0);
    law_field(interface->Object_0, 1, "accessConfigs"@, JsonModel::Null);
    assert("network"@.len() != "accessConfigs"@.len());
    if vm.public_ip {
        let access = interface->Object_0[1].1->Array_0[0];
        law_members_are_had(access->Object_0, 0);
    }
    assert(has_member(instance_body(m, vm), "networkInterfaces"@, JsonModel::Array(seq![interface])));
}

/// The metadata of an instance hold its keys if and only if there are any, and
/// its script if and only if there is one, and nothing else.
pub proof fn law_instance_has_its_metadata(m: GcpModel, vm: VmRequest<Seq<char>>)
    ensures
        exists|metadata: JsonModel, items: Seq<JsonModel>|
            #![trigger has_member(metadata, "items"@, JsonModel::Array(items))]
            {
                &&& has_member(instance_body(m, vm), "metadata"@, metadata)
                &&& has_member(metadata, "items"@, JsonModel::Array(items))
                &&& vm.ssh_keys.len() > 0 && vm.startup_script.len() > 0 ==> items.len() == 2 && is_item(
                    items[0],
                    "ssh-keys"@,
                    vm.ssh_keys,
                ) && is_item(items[1], "startup-script"@, vm.startup_script)
                &&& vm.ssh_keys.len() > 0 && vm.startup_script.len() == 0 ==> items.len() == 1 && is_item(
                    items[0],
                    "ssh-keys"@,
                    vm.ssh_keys,
                )
                &&& vm.ssh_keys.len() == 0 && vm.startup_script.len() > 0 ==> items.len() == 1 && is_item(
                    items[0],
                    "startup-script"@,
                    vm.startup_script,
                )
                &&& vm.ssh_keys.len() == 0 && vm.startup_script.len() == 0 ==> items.len() == 0
            },
{
    let members = instance_body(m, vm)->Object_0;
    let items = metadata_items(vm);
    let metadata = members[4].1;
    law_members_are_had(members, 4);
    law_members_are_had(metadata->Object_0, 0);
    assert(has_member(instance_body(m, vm), "metadata"@, metadata));
    let keys = metadata_item("ssh-keys"@, vm.ssh_keys)->Object_0;
    let script = metadata_item("startup-script"@, vm.startup_script)->Object_0;
    law_members_are_had(keys, 0);
    law_members_are_had(keys, 1);
    law_members_are_had(script, 0);
    law_members_are_had(script, 1);
    assert(has_member(metadata, "items"@, JsonModel::Array(items)));
}

/// An instance is found in its project and its zone, under its name.
pub proof fn law_instance_is_in_its_zone(m: GcpModel, name: Seq<char>)
    ensures
        instance_url(m, name) == "https://compute.googleapis.com/compute/v1/projects/"@ + m.project_id + "/zones/"@
            + m.zone + "/instances"@ + "/"@ + name,
        instances_url(m) == "https://compute.googleapis.com/compute/v1/projects/"@ + m.project_id + "/zones/"@
            + m.zone + "/instances"@,
{
}

fn item_json(key: &str, value: &str) -> (r: Json)
    ensures
        r.deep_view() == metadata_item(key@, value@),
{
    let r = put(put(object(), "key", text(key)), "value", text(value));
    assert(r.deep_view()->Object_0 =~= metadata_item(key@, value@)->Object_0);
    r
}

fn interface_json(public_ip: bool) -> (r: Json)
    ensures
        r.deep_view() == network_interface(public_ip),
{
    let interface = put(object(), "network", text("global/networks/default"));
    let r = if public_ip {
        let access = put(
            put(put(object(), "type", text("ONE_TO_ONE_NAT")), "name", text("External NAT")),
            "networkTier",
            text("PREMIUM"),
        );
        let configs = append(array(), access);
        proof {
            let expected = network_interface(true)->Object_0[1].1->Array_0;
            assert(access.deep_view()->Object_0 =~= expected[0]->Object_0);
            assert(configs.deep_view()->Array_0 =~= expected);
        }
        put(interface, "accessConfigs", configs)
    } else {
        interface
    };
    assert(r.deep_view()->Object_0 =~= network_interface(public_ip)->Object_0);
    r
}

fn disk_json(vm: &VmRequest<String>) -> (r: Json)
    ensures
        r.deep_view() == boot_disk(vm.deep_view()),
{
    let params = put(
        put(object(), "sourceImage", text(resolve_image(vm.boot_disk_image.as_str()).as_str())),
        "diskSizeGb",
        text(number(vm.boot_disk_size_gb).as_str()),
    );
    let r = put(
        put(put(object(), "boot", Json::Bool(true)), "autoDelete", Json::Bool(true)),
        "initializeParams",
        params,
    );
    proof {
        let expected = boot_disk(vm.deep_view())->Object_0;
        assert(params.deep_view()->Object_0 =~= expected[2].1->Object_0);
        assert(r.deep_view()->Object_0 =~= expected);
    }
    r
}

fn items_json(vm: &VmRequest<String>) -> (r: Json)
    ensures
        r.deep_view() == JsonModel::Array(metadata_items(vm.deep_view())),
{
    let mut items = array();
    if !vm.ssh_keys.as_str().is_empty() {
        items = append(items, item_json("ssh-keys", vm.ssh_keys.as_str()));
    }
    if !vm.startup_script.as_str().is_empty() {
        items = append(items, item_json("startup-script", vm.startup_script.as_str()));
    }
    items
}

impl GcpProvider {
    /// Access with a token that was obtained for `creds`.
    pub fn new(creds: &GcpCredentials, access_token: String) -> (r: GcpProvider)
        ensures
            r.deep_view() == (GcpModel {
                access_token: access_token@,
                project_id: creds.project_id@,
                zone: creds.zone@,
            }),
    {
        GcpProvider {
            access_token,
            project_id: creds.project_id.clone(),
            zone: creds.zone.clone(),
        }
    }

    fn instances_url(&self) -> (r: String)
        ensures
            r@ == instances_url(self.deep_view()),
    {
        cat5(
            "https://compute.googleapis.com/compute/v1/projects/",
            self.project_id.as_str(),
            "/zones/",
            self.zone.as_str(),
            "/instances",
        )
    }

    fn instance_url(&self, name: &str) -> (r: String)
        ensures
            r@ == instance_url(self.deep_view(), name@),
    {
        cat3(self.instances_url().as_str(), "/", name)
    }

    /// The request that creates an instance.
    pub fn create_vm(&self, vm: &VmRequest<String>) -> (r: Request)
        ensures
            r.deep_view() == (RequestModel {
                method: Method::Post,
                url: instances_url(self.deep_view()),
                bearer: Some(self.deep_view().access_token),
                body: BodyModel::Json(instance_body(self.deep_view(), vm.deep_view())),
            }),
    {
        let machine = cat4("zones/", self.zone.as_str(), "/machineTypes/", vm.machine_type.as_str());
        let mut body = put(object(), "name", text(vm.name.as_str()));
        body = put(body, "machineType", text(machine.as_str()));
        let disks = append(array(), disk_json(vm));
        let interfaces = append(array(), interface_json(vm.public_ip));
        let metadata = put(object(), "items", items_json(vm));
        body = put(body, "disks", disks);
        body = put(body, "networkInterfaces", interfaces);
        body = put(body, "metadata", metadata);
        proof {
            let expected = instance_body(self.deep_view(), vm.deep_view())->Object_0;
            assert(disks.deep_view()->Array_0 =~= expected[2].1->Array_0);
            assert(interfaces.deep_view()->Array_0 =~= expected[3].1->Array_0);
            assert(metadata.deep_view()->Object_0 =~= expected[4].1->Object_0);
            assert(body.deep_view()->Object_0 =~= expected);
        }
        Request {
            method: Method::Post,
            url: self.instances_url(),
            bearer: Some(self.access_token.clone()),
            body: Body::Json(body),
        }
    }

    /// The request that deletes an instance.
    pub fn destroy_vm(&self, name: &str) -> (r: Request)
        ensures
            r.deep_view() == (RequestModel {
                method: Method::Delete,
                url: instance_url(self.deep_view(), name@),
                bearer: Some(self.deep_view().access_token),
                body: BodyModel::Nothing,
            }),
    {
        Request {
            method: Method::Delete,
            url: self.instance_url(name),
            bearer: Some(self.access_token.clone()),
            body: Body::Nothing,
        }
    }

    /// The request that describes an instance, its addresses among the rest.
    pub fn get_vm_ip(&self, name: &str) -> (r: Request)
        ensures
            r.deep_view() == (RequestModel {
                method: Method::Get,
                url: instance_url(self.deep_view(), name@),
                bearer: Some(self.deep_view().access_token),
                body: BodyModel::Nothing,
            }),
    {
        Request {
            method: Method::Get,
            url: self.instance_url(name),
            bearer: Some(self.access_token.clone()),
            body: Body::Nothing,
        }
    }
}

/// Whatever requests come of asking for an instance: creating one posts to the
/// instances of the provider's project and zone, deleting one and describing
/// one are about the instance of that name there, and each carries the
/// provider's token.
pub proof fn law_requests_are_about_the_instance(
    provider: &GcpProvider,
    vm: &VmRequest<String>,
    name: &str,
    creation: Request,
    deletion: Request,
    description: Request,
)
    requires
        call_ensures(GcpProvider::create_vm, (provider, vm), creation),
        call_ensures(GcpProvider::destroy_vm, (provider, name), deletion),
        call_ensures(GcpProvider::get_vm_ip, (provider, name), description),
    ensures
        ({
            let zone = "https://compute.googleapis.com/compute/v1/projects/"@ + provider.project_id@ + "/zones/"@
                + provider.zone@ + "/instances"@;
            &&& creation.method == Method::Post
            &&& creation.url@ == zone
            &&& creation.bearer matches Some(token) && token@ == provider.access_token@
            &&& creation.body.deep_view() matches BodyModel::Json(body) && has_member(
                body,
                "name"@,
                JsonModel::Text(vm.name@),
            )
            &&& deletion.method == Method::Delete
            &&& deletion.url@ == zone + "/"@ + name@
            &&& deletion.bearer matches Some(token) && token@ == provider.access_token@
            &&& deletion.body is Nothing
            &&& description.method == Method::Get
            &&& description.url@ == zone + "/"@ + name@
            &&& description.bearer matches Some(token) && token@ == provider.access_token@
            &&& description.body is Nothing
        }),
{
    law_instance_says_name_and_type(provider.deep_view(), vm.deep_view());
    assert(creation.deep_view().bearer == Some(provider.access_token@));
    assert(deletion.deep_view().bearer == Some(provider.access_token@));
    assert(description.deep_view().bearer == Some(provider.access_token@));
    assert(deletion.deep_view().body is Nothing);
    assert(description.deep_view().body is Nothing);
}

/// The access that comes of credentials is to their project and zone, with the
/// token that was given.
pub proof fn law_access_is_to_its_zone(creds: &GcpCredentials, access_token: String, r: GcpProvider)
    requires
        call_ensures(GcpProvider::new, (creds, access_token), r),
    ensures
        r.access_token@ == access_token@,
        r.project_id@ == creds.project_id@,
        r.zone@ == creds.zone@,
{
    assert(r.deep_view().access_token == access_token@);
}

// ---------------------------------------------------------------------------
// Replies
// ---------------------------------------------------------------------------

pub const API_ERROR: &'static str = "Compute Engine API returned HTTP ";

/// What the reply to creating or deleting an instance says: its body where it
/// succeeded.
pub open spec fn operation_outcome(reply: ReplyModel) -> Result<Seq<char>, Seq<char>> {
    match document(reply, API_ERROR@, ": "@) {
        Ok(_) => Ok(shown_body(reply.body)),
        Err(e) => Err(e),
    }
}

/// The address in the description of an instance: the external one behind its
/// NAT, or the internal one, in place of which the external one stands where
/// there is none.
pub open spec fn address_in(tree: JsonModel, name: Seq<char>, prefer_public: bool) -> Result<
    Seq<char>,
    Seq<char>,
> {
    let interface = item(field(Some(tree), "networkInterfaces"@), 0);
    let outer = text_of(field(item(field(interface, "accessConfigs"@), 0), "natIP"@));
    if prefer_public {
        match outer {
            Some(ip) => Ok(ip),
            None => Err(
                "No external (public) IP found for instance '"@ + name
                    + "'. Was it created with ip-address: public?"@,
            ),
        }
    } else {
        match (text_of(field(interface, "networkIP"@)), outer) {
            (Some(ip), _) => Ok(ip),
            (None, Some(ip)) => Ok(ip),
            (None, None) => Err("No internal IP found for instance '"@ + name + "'"@),
        }
    }
}

/// What the reply to describing an instance says of its address.
pub open spec fn address_outcome(reply: ReplyModel, name: Seq<char>, prefer_public: bool) -> Result<
    Seq<char>,
    Seq<char>,
> {
    match document(reply, API_ERROR@, " while fetching '"@ + name + "': "@) {
        Ok(tree) => address_in(tree, name, prefer_public),
        Err(e) => Err(e),
    }
}

/// The address of an instance in its description: for a public one the address
/// of the first access configuration of its first interface, and no other; for
/// a private one the address of that interface, and the public one only where
/// the interface has none. It is an error where there is none.
pub proof fn law_address_of_first_interface(tree: JsonModel, name: Seq<char>)
    ensures
        ({
            let interface = item(field(Some(tree), "networkInterfaces"@), 0);
            let outer = field(item(field(interface, "accessConfigs"@), 0), "natIP"@);
            let inner = field(interface, "networkIP"@);
            &&& outer matches Some(JsonModel::Text(ip)) ==> address_in(tree, name, true) == Ok::<Seq<char>, Seq<char>>(ip)
            &&& !(outer matches Some(JsonModel::Text(_))) ==> address_in(tree, name, true) is Err
            &&& inner matches Some(JsonModel::Text(ip)) ==> address_in(tree, name, false) == Ok::<
                Seq<char>,
                Seq<char>,
            >(ip)
            &&& !(inner matches Some(JsonModel::Text(_))) ==> (address_in(tree, name, false) is Ok <==> address_in(
                tree,
                name,
                true,
            ) is Ok)
            &&& !(inner matches Some(JsonModel::Text(_))) && (outer matches Some(JsonModel::Text(_))) ==> address_in(
                tree,
                name,
                false,
            ) == address_in(tree, name, true)
        }),
{
}

/// A request to create or delete an instance, and one to describe it, succeeded
/// if and only if its reply is JSON with a status in the two hundreds (and, for
/// a description, holds the address). Otherwise the outcome is an error.
pub proof fn law_operation_needs_success(reply: ReplyModel, name: Seq<char>, prefer_public: bool)
    ensures
        operation_outcome(reply) is Ok <==> parsed_json(reply.body) is Ok && 200 <= reply.status <= 299,
        operation_outcome(reply) matches Ok(body) ==> body == shown_body(reply.body),
        address_outcome(reply, name, prefer_public) is Ok ==> parsed_json(reply.body) is Ok && 200 <= reply.status
            <= 299,
        parsed_json(reply.body) matches Ok(tree) ==> (200 <= reply.status <= 299 ==> address_outcome(
            reply,
            name,
            prefer_public,
        ) == address_in(tree, name, prefer_public)),
        token_outcome(reply) is Ok ==> parsed_json(reply.body) is Ok && 200 <= reply.status <= 299,
        parsed_json(reply.body) matches Ok(tree) ==> (200 <= reply.status <= 299 ==> (match field(
            Some(tree),
            "access_token"@,
        ) {
            Some(JsonModel::Text(token)) => token_outcome(reply) == Ok::<Seq<char>, Seq<char>>(token),
            _ => token_outcome(reply) is Err,
        })),
{
    law_only_success_counts(reply, API_ERROR@, ": "@);
    law_only_success_counts(reply, API_ERROR@, " while fetching '"@ + name + "': "@);
    law_only_success_counts(reply, "Token endpoint returned HTTP "@, ": "@);
}

/// A failed request is told with the status and what it was about, and a missing
/// address or token is told, too.
pub proof fn law_instance_failures_are_told(reply: ReplyModel, tree: JsonModel, name: Seq<char>, prefer_public: bool)
    ensures
        parsed_json(reply.body) is Ok && !(200 <= reply.status <= 299) ==> {
            let status = reply.status_line;
            let body = shown_body(reply.body);
            &&& operation_outcome(reply) == Err::<Seq<char>, Seq<char>>("Compute Engine API returned HTTP "@ + status + ": "@ + body)
            &&& address_outcome(reply, name, prefer_public) == Err::<Seq<char>, Seq<char>>(
                "Compute Engine API returned HTTP "@ + status + (" while fetching '"@ + name + "': "@) + body,
            )
            &&& token_outcome(reply) == Err::<Seq<char>, Seq<char>>(
                "Token endpoint returned HTTP "@ + status + ": "@ + body,
            )
        },
        address_in(tree, name, true) matches Err(e) ==> e == "No external (public) IP found for instance '"@ + name
            + "'. Was it created with ip-address: public?"@,
        address_in(tree, name, false) matches Err(e) ==> e == "No internal IP found for instance '"@ + name + "'"@,
        token_in(tree, name) matches Err(e) ==> e == "No access_token in response: "@ + name,
{
}

/// Judge the reply to creating or deleting an instance.
pub fn read_operation(reply: &Reply) -> (r: Result<String, String>)
    ensures
        text_outcome(r) == operation_outcome(reply.deep_view()),
{
    match read_document(reply, API_ERROR, ": ") {
        Ok(_) => Ok(show_body(reply.body.as_str())),
        Err(e) => Err(e),
    }
}

/// The address in the description of an instance.
pub fn find_address(tree: &Json, name: &str, prefer_public: bool) -> (r: Result<String, String>)
    ensures
        text_outcome(r) == address_in(tree.deep_view(), name@, prefer_public),
{
    let interface = get_item(get(Some(tree), "networkInterfaces"), 0);
    let outer = get_text(get(get_item(get(interface, "accessConfigs"), 0), "natIP"));
    if prefer_public {
        match outer {
            Some(ip) => Ok(ip),
            None => Err(
                cat3(
                    "No external (public) IP found for instance '",
                    name,
                    "'. Was it created with ip-address: public?",
                ),
            ),
        }
    } else {
        match (get_text(get(interface, "networkIP")), outer) {
            (Some(ip), _) => Ok(ip),
            (None, Some(ip)) => Ok(ip),
            (None, None) => Err(cat3("No internal IP found for instance '", name, "'")),
        }
    }
}

/// Judge the reply to describing an instance.
pub fn read_address(reply: &Reply, name: &str, prefer_public: bool) -> (r: Result<String, String>)
    ensures
        text_outcome(r) == address_outcome(reply.deep_view(), name@, prefer_public),
{
    let middle = cat3(" while fetching '", name, "': ");
    match read_document(reply, API_ERROR, middle.as_str()) {
        Ok(tree) => find_address(&tree, name, prefer_public),
        Err(e) => Err(e),
    }
}

// ---------------------------------------------------------------------------
// Access tokens
// ---------------------------------------------------------------------------

pub const TOKEN_URL: &'static str = "https://oauth2.googleapis.com/token";

pub const GRANT_TYPE: &'static str = "urn:ietf:params:oauth:grant-type:jwt-bearer";

/// The request that exchanges a signed token for an access token.
pub fn get_access_token(jwt: &str) -> (r: Request)
    ensures
        r.deep_view() == (RequestModel {
            method: Method::Post,
            url: TOKEN_URL@,
            bearer: None,
            body: BodyModel::Form(seq![("grant_type"@, GRANT_TYPE@), ("assertion"@, jwt@)]),
        }),
{
    let fields: Vec<(String, String)> = vec![
        ("grant_type".to_owned(), GRANT_TYPE.to_owned()),
        ("assertion".to_owned(), jwt.to_owned()),
    ];
    assert(fields.deep_view() =~= seq![("grant_type"@, GRANT_TYPE@), ("assertion"@, jwt@)]);
    Request { method: Method::Post, url: TOKEN_URL.to_owned(), bearer: None, body: Body::Form(fields) }
}

/// The exchange for an access token posts the signed token, and nothing secret
/// besides, to the token server.
pub proof fn law_token_is_exchanged(jwt: &str, r: Request)
    requires
        call_ensures(get_access_token, (jwt,), r),
    ensures
        r.deep_view() == (RequestModel {
            method: Method::Post,
            url: "https://oauth2.googleapis.com/token"@,
            bearer: None,
            body: BodyModel::Form(
                seq![
                    ("grant_type"@, "urn:ietf:params:oauth:grant-type:jwt-bearer"@),
                    ("assertion"@, jwt@),
                ],
            ),
        }),
{
}

/// The access token in a reply.
pub open spec fn token_in(tree: JsonModel, body: Seq<char>) -> Result<Seq<char>, Seq<char>> {
    match text_of(field(Some(tree), "access_token"@)) {
        Some(token) => Ok(token),
        None => Err("No access_token in response: "@ + body),
    }
}

/// What the reply to the exchange says.
pub open spec fn token_outcome(reply: ReplyModel) -> Result<Seq<char>, Seq<char>> {
    match document(reply, "Token endpoint returned HTTP "@, ": "@) {
        Ok(tree) => token_in(tree, shown_body(reply.body)),
        Err(e) => Err(e),
    }
}

/// The access token in a reply; `body` is how the reply is shown.
pub fn find_token(tree: &Json, body: &str) -> (r: Result<String, String>)
    ensures
        text_outcome(r) == token_in(tree.deep_view(), body@),
{
    match get_text(get(Some(tree), "access_token")) {
        Some(token) => Ok(token),
        None => Err(cat2("No access_token in response: ", body)),
    }
}

/// Judge the reply to the exchange.
pub fn read_token(reply: &Reply) -> (r: Result<String, String>)
    ensures
        text_outcome(r) == token_outcome(reply.deep_view()),
{
    match read_document(reply, "Token endpoint returned HTTP ", ": ") {
        Ok(tree) => find_token(&tree, show_body(reply.body.as_str()).as_str()),
        Err(e) => Err(e),
    }
}

} // verus!
