//! The shapes of a configuration, and what each of them reads as.

use vstd::prelude::*;

use crate::ip::IpAddressType;

verus! {

/// A named group of node names.
///
/// `group_type` is `"control-plane"` or `"worker"` and determines how `play`
/// treats the nodes in this group.
#[derive(Debug)]
pub struct GroupYaml {
    pub name: String,
    pub group_type: String,
    pub node: Vec<String>,
}

/// A rule maps one or more group names to an ordered list of spec names.
///
/// The specs are merged left-to-right: later entries win for any field both
/// define. The merged result must satisfy every required field.
#[derive(Debug)]
pub struct RuleYaml {
    pub group: Vec<String>,
    pub specs: Vec<String>,
}

/// A named spec. Only its first configuration entry counts.
#[derive(Debug)]
pub struct SpecYaml {
    pub name: String,
    pub config: Vec<GenericsConfigYaml>,
}

/// Optional provisioner node for SSH jump-host routing.
///
/// `provisioner_type` — `"public"` or `"private"` — determines which address
/// of the provisioner node is used.
#[derive(Debug, Clone)]
pub struct ProvisionerYaml {
    pub provisioner_type: String,
    pub node: String,
}

/// A disk to create and to attach to a node.
#[derive(Debug)]
pub struct DiskYaml {
    pub name: String,
    /// Size in gigabytes.
    pub size: u64,
    pub node: String,
}

/// One layer of configuration. All fields are optional so that several layers
/// can be merged by a rule.
#[derive(Debug)]
pub struct GenericsConfigYaml {
    pub ssh_public_key: Option<String>,
    pub script: Option<String>,
    pub user: Option<String>,
    /// Optional stable address of the Kubernetes API server, `<host>` or
    /// `<host>:<port>`; the port defaults to 6443.
    pub control_plane_endpoint: Option<String>,
    pub api_server: Option<ApiServerConfigYaml>,
    pub machine_type: Option<String>,
    pub boot_disk_image: Option<String>,
    pub boot_disk_size: Option<u64>,
    /// When absent from every layer, a node's address type is `private`.
    pub ip_address: Option<IpAddressType>,
}

/// The provider-independent part of a configuration.
#[derive(Debug)]
pub struct CommonConfig {
    pub groups: Vec<GroupYaml>,
    pub specs: Vec<SpecYaml>,
    pub rules: Vec<RuleYaml>,
    pub provisioner: Option<ProvisionerYaml>,
    pub disks: Option<Vec<DiskYaml>>,
}

/// API-server settings of a layer.
#[derive(Debug, Clone)]
pub struct ApiServerConfigYaml {
    /// Additional Subject Alternative Names for the API-server TLS certificate.
    pub cert_sans: Vec<String>,
}

impl Default for ApiServerConfigYaml {
    fn default() -> (r: Self)
        ensures
            r.cert_sans@.len() == 0,
    {
        ApiServerConfigYaml { cert_sans: Vec::new() }
    }
}

// ---------------------------------------------------------------------------
// Models
// ---------------------------------------------------------------------------

pub struct GroupModel {
    pub name: Seq<char>,
    pub group_type: Seq<char>,
    pub node: Seq<Seq<char>>,
}

pub struct RuleModel {
    pub group: Seq<Seq<char>>,
    pub specs: Seq<Seq<char>>,
}

pub struct SpecModel {
    pub name: Seq<char>,
    pub config: Seq<LayerModel>,
}

pub struct ProvisionerModel {
    pub provisioner_type: Seq<char>,
    pub node: Seq<char>,
}

pub struct DiskModel {
    pub name: Seq<char>,
    pub size: u64,
    pub node: Seq<char>,
}

pub struct LayerModel {
    pub ssh_public_key: Option<Seq<char>>,
    pub script: Option<Seq<char>>,
    pub user: Option<Seq<char>>,
    pub control_plane_endpoint: Option<Seq<char>>,
    /// Empty where the layer has no API-server settings.
    pub cert_sans: Seq<Seq<char>>,
    pub machine_type: Option<Seq<char>>,
    pub boot_disk_image: Option<Seq<char>>,
    pub boot_disk_size: Option<u64>,
    pub ip_address: Option<IpAddressType>,
}

pub struct ConfigModel {
    pub groups: Seq<GroupModel>,
    pub specs: Seq<SpecModel>,
    pub rules: Seq<RuleModel>,
    pub provisioner: Option<ProvisionerModel>,
    pub disks: Option<Seq<DiskModel>>,
}

impl DeepView for GroupYaml {
    type V = GroupModel;

    open spec fn deep_view(&self) -> GroupModel {
        GroupModel {
            name: self.name@,
            group_type: self.group_type@,
            node: self.node.deep_view(),
        }
    }
}

impl DeepView for RuleYaml {
    type V = RuleModel;

    open spec fn deep_view(&self) -> RuleModel {
        RuleModel { group: self.group.deep_view(), specs: self.specs.deep_view() }
    }
}

impl DeepView for SpecYaml {
    type V = SpecModel;

    open spec fn deep_view(&self) -> SpecModel {
        SpecModel { name: self.name@, config: self.config.deep_view() }
    }
}

impl DeepView for ProvisionerYaml {
    type V = ProvisionerModel;

    open spec fn deep_view(&self) -> ProvisionerModel {
        ProvisionerModel { provisioner_type: self.provisioner_type@, node: self.node@ }
    }
}

impl DeepView for DiskYaml {
    type V = DiskModel;

    open spec fn deep_view(&self) -> DiskModel {
        DiskModel { name: self.name@, size: self.size, node: self.node@ }
    }
}

impl DeepView for GenericsConfigYaml {
    type V = LayerModel;

    open spec fn deep_view(&self) -> LayerModel {
        LayerModel {
            ssh_public_key: self.ssh_public_key.deep_view(),
            script: self.script.deep_view(),
            user: self.user.deep_view(),
            control_plane_endpoint: self.control_plane_endpoint.deep_view(),
            cert_sans: match self.api_server {
                Some(api) => api.cert_sans.deep_view(),
                None => Seq::empty(),
            },
            machine_type: self.machine_type.deep_view(),
            boot_disk_image: self.boot_disk_image.deep_view(),
            boot_disk_size: self.boot_disk_size,
            ip_address: self.ip_address,
        }
    }
}

impl DeepView for CommonConfig {
    type V = ConfigModel;

    open spec fn deep_view(&self) -> ConfigModel {
        ConfigModel {
            groups: self.groups.deep_view(),
            specs: self.specs.deep_view(),
            rules: self.rules.deep_view(),
            provisioner: self.provisioner.deep_view(),
            disks: self.disks.deep_view(),
        }
    }
}

/// A copy of an optional provisioner.
pub fn clone_provisioner(p: &Option<ProvisionerYaml>) -> (r: Option<ProvisionerYaml>)
    ensures
        r.deep_view() == p.deep_view(),
{
    match p {
        Some(p) => Some(
            ProvisionerYaml {
                provisioner_type: p.provisioner_type.clone(),
                node: p.node.clone(),
            },
        ),
        None => None,
    }
}

} // verus!
