//! A loaded configuration together with the provider it is for.

use vstd::prelude::*;

use crate::http::{BodyModel, Method, Request, RequestModel};
use crate::provider::digitalocean::{
    bare_request, DigitalOceanCredentials, DigitalOceanProvider, DoModel, DoRoot, DoYaml,
    ACCOUNT_URL,
};
use crate::provider::gcp::{
    get_access_token, GcpCredentials, GcpModel, GcpProvider, GcpRoot, GcpYaml, GRANT_TYPE,
    TOKEN_URL,
};
use crate::provider::jwt::{create_jwt, jwt_outcome};
use crate::rule::{resolve_rules, resolved_rules, rule_message};
use crate::session::{say, Log, Note};
use crate::structs::{
    clone_provisioner, CommonConfig, ConfigModel, ProvisionerModel, ProvisionerYaml,
};
use crate::text::{cat2, cat3, cat4, cat5};
use crate::utils::{expand_tilde, expanded, spec_lines, validate_specs};

pub mod credential;
pub mod digitalocean;
pub mod gcp;
pub mod jwt;

verus! {

/// A configuration, ready to be worked on.
pub enum LoadedProvider {
    Gcp {
        common: CommonConfig,
        location: String,
        provisioner: Option<ProvisionerYaml>,
        provider: GcpProvider,
    },
    DigitalOcean {
        common: CommonConfig,
        location: String,
        provisioner: Option<ProvisionerYaml>,
        provider: DigitalOceanProvider,
    },
}

/// What a loaded configuration reads as; the access to the provider is left
/// out.
pub struct LoadedModel {
    pub is_gcp: bool,
    pub common: ConfigModel,
    pub location: Seq<char>,
    pub provisioner: Option<ProvisionerModel>,
}

impl DeepView for LoadedProvider {
    type V = LoadedModel;

    open spec fn deep_view(&self) -> LoadedModel {
        match *self {
            LoadedProvider::Gcp { common, location, provisioner, .. } => LoadedModel {
                is_gcp: true,
                common: common.deep_view(),
                location: location@,
                provisioner: provisioner.deep_view(),
            },
            LoadedProvider::DigitalOcean { common, location, provisioner, .. } => LoadedModel {
                is_gcp: false,
                common: common.deep_view(),
                location: location@,
                provisioner: provisioner.deep_view(),
            },
        }
    }
}

/// The lines that describe a provider.
pub open spec fn described(m: LoadedModel, log: Log) -> Log {
    let named = if m.is_gcp {
        log.push(Note::Say("  Provider:        GCP"@)).push(Note::Say("  Zone:            "@ + m.location))
    } else {
        log.push(Note::Say("  Provider:        DigitalOcean"@)).push(
            Note::Say("  Region:          "@ + m.location),
        )
    };
    match m.provisioner {
        Some(p) => named.push(
            Note::Say("  Provisioner:     "@ + p.node + " ("@ + p.provisioner_type + ")"@),
        ),
        None => named,
    }
}

impl LoadedProvider {
    /// The part of the configuration that is the same for every provider.
    pub fn common(&self) -> (r: &CommonConfig)
        ensures
            r.deep_view() == self.deep_view().common,
    {
        match self {
            LoadedProvider::Gcp { common, .. } => common,
            LoadedProvider::DigitalOcean { common, .. } => common,
        }
    }

    /// Whether this is Google Cloud.
    pub fn is_gcp(&self) -> (r: bool)
        ensures
            r == self.deep_view().is_gcp,
    {
        match self {
            LoadedProvider::Gcp { .. } => true,
            LoadedProvider::DigitalOcean { .. } => false,
        }
    }

    /// Describe the provider.
    pub fn describe(&self, log: &mut Vec<Note<String>>)
        ensures
            final(log).deep_view() == described(self.deep_view(), old(log).deep_view()),
    {
        match self {
            LoadedProvider::Gcp { location, provisioner, .. } => {
                show_provider(true, location.as_str(), provisioner, log)
            },
            LoadedProvider::DigitalOcean { location, provisioner, .. } => {
                show_provider(false, location.as_str(), provisioner, log)
            },
        }
    }
}

fn show_provider(
    is_gcp: bool,
    location: &str,
    provisioner: &Option<ProvisionerYaml>,
    log: &mut Vec<Note<String>>,
)
    ensures
        forall|m: LoadedModel|
            m.is_gcp == is_gcp && m.location == location@ && m.provisioner == provisioner.deep_view()
                ==> final(log).deep_view() == #[trigger] described(m, old(log).deep_view()),
{
    if is_gcp {
        say(log, "  Provider:        GCP".to_owned());
        say(log, cat2("  Zone:            ", location));
    } else {
        say(log, "  Provider:        DigitalOcean".to_owned());
        say(log, cat2("  Region:          ", location));
    }
    if let Some(p) = provisioner {
        say(
            log,
            cat5("  Provisioner:     ", p.node.as_str(), " (", p.provisioner_type.as_str(), ")"),
        );
    }
}

// ---------------------------------------------------------------------------
// Loading
// ---------------------------------------------------------------------------

/// The providers.
#[derive(Clone, Copy, Debug, PartialEq, Eq, Structural)]
pub enum ProviderKind {
    Gcp,
    DigitalOcean,
}

/// Whether a YAML document has a member called `key` at its top level, or why
/// it is no YAML document.
pub uninterp spec fn yaml_has_key(content: Seq<char>, key: Seq<char>) -> Result<bool, Seq<char>>;

/// What a result of a truth value reads as.
pub open spec fn bool_outcome(r: Result<bool, String>) -> Result<bool, Seq<char>> {
    match r {
        Ok(b) => Ok(b),
        Err(e) => Err(e@),
    }
}

/// `serde_yaml::from_str` reads a text as a YAML value, and `Value::get` finds
/// a member of it. What is claimed: the outcome is a function of the text and
/// the key.
#[verifier::external_body]
fn has_key(content: &str, key: &str) -> (r: Result<bool, String>)
    ensures
        bool_outcome(r) == yaml_has_key(content@, key@),
{
    serde_yaml::from_str::<serde_yaml::Value>(content).map(|v| v.get(key).is_some()).map_err(|e| e.to_string())
}

/// The provider of a document that has the given members.
pub open spec fn kind_of(path: Seq<char>, gcp: bool, digitalocean: bool) -> Result<ProviderKind, Seq<char>> {
    if gcp {
        Ok(ProviderKind::Gcp)
    } else if digitalocean {
        Ok(ProviderKind::DigitalOcean)
    } else {
        Err(
            "Cannot detect provider in '"@ + path
                + "': YAML must have a top-level 'gcp' or 'digitalocean' key"@,
        )
    }
}

/// The provider that a configuration is for.
pub open spec fn provider_of(path: Seq<char>, content: Seq<char>) -> Result<ProviderKind, Seq<char>> {
    match (yaml_has_key(content, "gcp"@), yaml_has_key(content, "digitalocean"@)) {
        (Ok(gcp), Ok(digitalocean)) => kind_of(path, gcp, digitalocean),
        (Err(e), _) => Err("YAML parse error in '"@ + path + "': "@ + e),
        (_, Err(e)) => Err("YAML parse error in '"@ + path + "': "@ + e),
    }
}

/// What the outcome of looking for a provider reads as.
pub open spec fn kind_outcome(r: Result<ProviderKind, String>) -> Result<ProviderKind, Seq<char>> {
    match r {
        Ok(kind) => Ok(kind),
        Err(e) => Err(e@),
    }
}

/// The provider of a document that has the given members.
pub fn detect(path: &str, gcp: bool, digitalocean: bool) -> (r: Result<ProviderKind, String>)
    ensures
        kind_outcome(r) == kind_of(path@, gcp, digitalocean),
{
    if gcp {
        Ok(ProviderKind::Gcp)
    } else if digitalocean {
        Ok(ProviderKind::DigitalOcean)
    } else {
        Err(
            cat3(
                "Cannot detect provider in '",
                path,
                "': YAML must have a top-level 'gcp' or 'digitalocean' key",
            ),
        )
    }
}

/// The provider that the configuration in `content` is for; `path` is where
/// it was read from.
pub fn load_provider(path: &str, content: &str) -> (r: Result<ProviderKind, String>)
    ensures
        kind_outcome(r) == provider_of(path@, content@),
{
    match has_key(content, "gcp") {
        Ok(gcp) => match has_key(content, "digitalocean") {
            Ok(digitalocean) => detect(path, gcp, digitalocean),
            Err(e) => Err(cat4("YAML parse error in '", path, "': ", e.as_str())),
        },
        Err(e) => Err(cat4("YAML parse error in '", path, "': ", e.as_str())),
    }
}

/// A document with the member `gcp` is for Google Cloud, whatever else it has;
/// one without it is for DigitalOcean where it has the member `digitalocean`;
/// and any other is refused, as is what is no YAML document.
pub proof fn law_provider_by_member(path: Seq<char>, content: Seq<char>)
    ensures
        ({
            let gcp = yaml_has_key(content, "gcp"@);
            let digitalocean = yaml_has_key(content, "digitalocean"@);
            &&& gcp == Ok::<bool, Seq<char>>(true) && digitalocean is Ok ==> provider_of(path, content) == Ok::<
                ProviderKind,
                Seq<char>,
            >(ProviderKind::Gcp)
            &&& gcp == Ok::<bool, Seq<char>>(false) && digitalocean == Ok::<bool, Seq<char>>(true) ==> provider_of(
                path,
                content,
            ) == Ok::<ProviderKind, Seq<char>>(ProviderKind::DigitalOcean)
            &&& gcp == Ok::<bool, Seq<char>>(false) && digitalocean == Ok::<bool, Seq<char>>(false) ==> provider_of(
                path,
                content,
            ) == Err::<ProviderKind, Seq<char>>(
                "Cannot detect provider in '"@ + path
                    + "': YAML must have a top-level 'gcp' or 'digitalocean' key"@,
            )
            &&& gcp matches Err(e) ==> provider_of(path, content) == Err::<ProviderKind, Seq<char>>(
                "YAML parse error in '"@ + path + "': "@ + e,
            )
            &&& gcp is Ok ==> (digitalocean matches Err(e) ==> provider_of(path, content) == Err::<
                ProviderKind,
                Seq<char>,
            >("YAML parse error in '"@ + path + "': "@ + e))
        }),
        kind_of(path, true, true) == kind_of(path, true, false),
{
}

/// Whatever the configuration holds besides, its groups, specs, rules and
/// provisioner are kept as they are. Disks are kept for DigitalOcean, and there
/// are none for Google Cloud.
pub proof fn law_configuration_kept(gcp: GcpYaml, digitalocean: DoYaml)
    ensures
        gcp_common(gcp).groups == gcp.group.deep_view(),
        gcp_common(gcp).specs == gcp.specs.deep_view(),
        gcp_common(gcp).rules == gcp.rules.deep_view(),
        gcp_common(gcp).provisioner == gcp.provisioner.deep_view(),
        gcp_common(gcp).disks is None,
        do_common(digitalocean).groups == digitalocean.group.deep_view(),
        do_common(digitalocean).specs == digitalocean.specs.deep_view(),
        do_common(digitalocean).rules == digitalocean.rules.deep_view(),
        do_common(digitalocean).provisioner == digitalocean.provisioner.deep_view(),
        do_common(digitalocean).disks == digitalocean.disks.deep_view(),
{
}

/// The description of a provider says which it is, then where, then what its
/// provisioner is where there is one, and nothing else.
pub proof fn law_provider_described(m: LoadedModel, log: Log)
    ensures
        log.is_prefix_of(described(m, log)),
        described(m, log).len() == log.len() + (if m.provisioner is Some {
            3int
        } else {
            2
        }),
        described(m, log)[log.len() as int] == Note::Say(
            if m.is_gcp {
                "  Provider:        GCP"@
            } else {
                "  Provider:        DigitalOcean"@
            },
        ),
        described(m, log)[log.len() as int + 1] == Note::Say(
            if m.is_gcp {
                "  Zone:            "@ + m.location
            } else {
                "  Region:          "@ + m.location
            },
        ),
        m.provisioner matches Some(p) ==> described(m, log)[log.len() as int + 2] == Note::Say(
            "  Provisioner:     "@ + p.node + " ("@ + p.provisioner_type + ")"@,
        ),
{
    assert(described(m, log).subrange(0, log.len() as int) =~= log);
}

/// Why a configuration could not be read.
pub fn read_failure(path: &str, reason: &str) -> (r: String)
    ensures
        r@ == "Cannot read config file '"@ + path@ + "': "@ + reason@,
{
    cat4("Cannot read config file '", path, "': ", reason)
}

/// Why a configuration does not have the shape that its provider asks for.
pub fn parse_failure(kind: ProviderKind, path: &str, reason: &str) -> (r: String)
    ensures
        r@ == (match kind {
            ProviderKind::Gcp => "GCP"@,
            ProviderKind::DigitalOcean => "DigitalOcean"@,
        }) + " YAML parse error in '"@ + path@ + "': "@ + reason@,
{
    let name = match kind {
        ProviderKind::Gcp => "GCP",
        ProviderKind::DigitalOcean => "DigitalOcean",
    };
    cat5(name, " YAML parse error in '", path, "': ", reason)
}

/// Why the private key could not be read.
pub fn key_failure(path: &str, reason: &str) -> (r: String)
    ensures
        r@ == "Cannot read GCP private key from '"@ + path@ + "': "@ + reason@,
{
    cat4("Cannot read GCP private key from '", path, "': ", reason)
}

/// A configuration for Google Cloud that is not connected yet.
pub struct GcpSetup {
    pub common: CommonConfig,
    pub credentials: GcpCredentials,
}

/// A configuration for DigitalOcean that is not connected yet.
pub struct DoSetup {
    pub common: CommonConfig,
    pub credentials: DigitalOceanCredentials,
}

/// A configuration that is not connected yet.
pub enum Setup {
    Gcp(GcpSetup),
    DigitalOcean(DoSetup),
}

impl DeepView for Setup {
    type V = LoadedModel;

    open spec fn deep_view(&self) -> LoadedModel {
        match *self {
            Setup::Gcp(setup) => LoadedModel {
                is_gcp: true,
                common: setup.common.deep_view(),
                location: setup.credentials.zone@,
                provisioner: setup.common.deep_view().provisioner,
            },
            Setup::DigitalOcean(setup) => LoadedModel {
                is_gcp: false,
                common: setup.common.deep_view(),
                location: setup.credentials.region@,
                provisioner: setup.common.deep_view().provisioner,
            },
        }
    }
}

impl Setup {
    /// The part of the configuration that is the same for every provider.
    pub fn common(&self) -> (r: &CommonConfig)
        ensures
            r.deep_view() == self.deep_view().common,
    {
        match self {
            Setup::Gcp(setup) => &setup.common,
            Setup::DigitalOcean(setup) => &setup.common,
        }
    }

    /// Whether this is Google Cloud.
    pub fn is_gcp(&self) -> (r: bool)
        ensures
            r == self.deep_view().is_gcp,
    {
        match self {
            Setup::Gcp(_) => true,
            Setup::DigitalOcean(_) => false,
        }
    }

    /// Describe the provider.
    pub fn describe(&self, log: &mut Vec<Note<String>>)
        ensures
            final(log).deep_view() == described(self.deep_view(), old(log).deep_view()),
    {
        match self {
            Setup::Gcp(setup) => show_provider(
                true,
                setup.credentials.zone.as_str(),
                &setup.common.provisioner,
                log,
            ),
            Setup::DigitalOcean(setup) => show_provider(
                false,
                setup.credentials.region.as_str(),
                &setup.common.provisioner,
                log,
            ),
        }
    }
}

/// The provider-independent part of a configuration for Google Cloud.
pub open spec fn gcp_common(yaml: GcpYaml) -> ConfigModel {
    ConfigModel {
        groups: yaml.group.deep_view(),
        specs: yaml.specs.deep_view(),
        rules: yaml.rules.deep_view(),
        provisioner: yaml.provisioner.deep_view(),
        disks: None,
    }
}

/// The provider-independent part of a configuration for DigitalOcean.
pub open spec fn do_common(yaml: DoYaml) -> ConfigModel {
    ConfigModel {
        groups: yaml.group.deep_view(),
        specs: yaml.specs.deep_view(),
        rules: yaml.rules.deep_view(),
        provisioner: yaml.provisioner.deep_view(),
        disks: yaml.disks.deep_view(),
    }
}

/// Prepare a configuration for Google Cloud.
pub fn load_gcp(root: GcpRoot, home: &Option<String>, log: &mut Vec<Note<String>>) -> (r: GcpSetup)
    ensures
        r.common.deep_view() == gcp_common(root.gcp),
        r.credentials.client_email@ == root.gcp.credentials.client_email@,
        r.credentials.private_key_path@ == expanded(root.gcp.credentials.private_key@, home.deep_view()),
        r.credentials.project_id@ == root.gcp.credentials.project_id@,
        r.credentials.zone@ == root.gcp.credentials.zone@,
        final(log).deep_view() == spec_lines(root.gcp.specs.deep_view(), old(log).deep_view()),
{
    let yaml = root.gcp;
    validate_specs(&yaml.specs, log);
    let credentials = GcpCredentials {
        client_email: yaml.credentials.client_email,
        private_key_path: expand_tilde(yaml.credentials.private_key.as_str(), home),
        project_id: yaml.credentials.project_id,
        zone: yaml.credentials.zone,
    };
    GcpSetup {
        common: CommonConfig {
            groups: yaml.group,
            specs: yaml.specs,
            rules: yaml.rules,
            provisioner: yaml.provisioner,
            disks: None,
        },
        credentials,
    }
}

/// Prepare a configuration for DigitalOcean.
pub fn load_digitalocean(root: DoRoot, log: &mut Vec<Note<String>>) -> (r: DoSetup)
    ensures
        r.common.deep_view() == do_common(root.digitalocean),
        r.credentials.token@ == root.digitalocean.credentials.token@,
        r.credentials.region@ == root.digitalocean.credentials.region@,
        final(log).deep_view() == spec_lines(root.digitalocean.specs.deep_view(), old(log).deep_view()),
{
    let yaml = root.digitalocean;
    validate_specs(&yaml.specs, log);
    DoSetup {
        common: CommonConfig {
            groups: yaml.group,
            specs: yaml.specs,
            rules: yaml.rules,
            provisioner: yaml.provisioner,
            disks: yaml.disks,
        },
        credentials: DigitalOceanCredentials {
            token: yaml.credentials.token,
            region: yaml.credentials.region,
        },
    }
}

/// Whether the provider may be contacted: a command that works by the rules
/// needs every one of them to be resolved first.
pub fn ready_to_connect(common: &CommonConfig, by_rules: bool) -> (r: Result<(), String>)
    ensures
        match resolved_rules(common.deep_view().rules, common.deep_view()) {
            Ok(_) => r is Ok,
            Err(e) => if by_rules {
                r matches Err(message) && message@ == rule_message(e)
            } else {
                r is Ok
            },
        },
{
    match resolve_rules(common) {
        Ok(_) => Ok(()),
        Err(e) => if by_rules {
            Err(e.message())
        } else {
            Ok(())
        },
    }
}

/// The scope that access is asked for.
pub const COMPUTE_SCOPE: &'static str = "https://www.googleapis.com/auth/compute";

impl GcpSetup {
    /// The request for an access token, signed with the private key.
    pub fn token_request(&self, private_key_pem: &str, log: &mut Vec<Note<String>>) -> (r: Result<Request, String>)
        ensures
            final(log).deep_view() == match r {
                Ok(_) => old(log).deep_view().push(Note::Say("  Signing JWT with RSA-SHA256 …"@)).push(
                    Note::Say("  Exchanging JWT for OAuth2 access token …"@),
                ),
                Err(_) => old(log).deep_view().push(Note::Say("  Signing JWT with RSA-SHA256 …"@)),
            },
            exists|now: int|
                match #[trigger] jwt_outcome(
                    private_key_pem@,
                    self.credentials.client_email@,
                    COMPUTE_SCOPE@,
                    now,
                ) {
                    Ok(jwt) => r matches Ok(request) && request.deep_view() == (RequestModel {
                        method: Method::Post,
                        url: TOKEN_URL@,
                        bearer: None,
                        body: BodyModel::Form(seq![("grant_type"@, GRANT_TYPE@), ("assertion"@, jwt)]),
                    }),
                    Err(e) => r matches Err(message) && message@ == e,
                },
    {
        say(log, "  Signing JWT with RSA-SHA256 …".to_owned());
        match create_jwt(private_key_pem, self.credentials.client_email.as_str(), COMPUTE_SCOPE) {
            Ok(jwt) => {
                say(log, "  Exchanging JWT for OAuth2 access token …".to_owned());
                Ok(get_access_token(jwt.as_str()))
            },
            Err(e) => Err(e),
        }
    }

    /// The configuration, ready to be worked on with an access token.
    pub fn connect(self, access_token: String) -> (r: LoadedProvider)
        ensures
            r.deep_view() == Setup::Gcp(self).deep_view(),
            r matches LoadedProvider::Gcp { provider, .. } && provider.deep_view() == (GcpModel {
                access_token: access_token@,
                project_id: self.credentials.project_id@,
                zone: self.credentials.zone@,
            }),
    {
        let provisioner = clone_provisioner(&self.common.provisioner);
        let provider = GcpProvider::new(&self.credentials, access_token);
        LoadedProvider::Gcp { common: self.common, location: self.credentials.zone, provisioner, provider }
    }
}

impl DoSetup {
    /// The request that tells whether the token is valid.
    pub fn account_request(&self, log: &mut Vec<Note<String>>) -> (r: Request)
        ensures
            r.deep_view() == bare_request(
                DoModel { token: self.credentials.token@, region: self.credentials.region@ },
                Method::Get,
                ACCOUNT_URL@,
            ),
            final(log).deep_view() == old(log).deep_view().push(
                Note::Say("  Validating DigitalOcean API token …"@),
            ),
    {
        say(log, "  Validating DigitalOcean API token …".to_owned());
        DigitalOceanProvider::new(&self.credentials).account()
    }

    /// The configuration, ready to be worked on.
    pub fn connect(self) -> (r: LoadedProvider)
        ensures
            r.deep_view() == Setup::DigitalOcean(self).deep_view(),
            r matches LoadedProvider::DigitalOcean { provider, .. } && provider.deep_view() == (
            DoModel {
                token: self.credentials.token@,
                region: self.credentials.region@,
            }),
    {
        let provisioner = clone_provisioner(&self.common.provisioner);
        let provider = DigitalOceanProvider::new(&self.credentials);
        LoadedProvider::DigitalOcean {
            common: self.common,
            location: self.credentials.region,
            provisioner,
            provider,
        }
    }
}

/// A configuration that is prepared keeps its groups, specs, rules, provisioner
/// and disks and its credentials, and the path of the private key has its tilde
/// expanded.
pub proof fn law_setup_keeps_configuration(
    gcp: GcpRoot,
    digitalocean: DoRoot,
    home: &Option<String>,
    log: &mut Vec<Note<String>>,
    a: GcpSetup,
    b: DoSetup,
)
    requires
        call_ensures(load_gcp, (gcp, home, log), a),
        call_ensures(load_digitalocean, (digitalocean, log), b),
    ensures
        a.common.deep_view().groups == gcp.gcp.group.deep_view(),
        a.common.deep_view().specs == gcp.gcp.specs.deep_view(),
        a.common.deep_view().rules == gcp.gcp.rules.deep_view(),
        a.common.deep_view().provisioner == gcp.gcp.provisioner.deep_view(),
        a.common.deep_view().disks is None,
        a.credentials.client_email@ == gcp.gcp.credentials.client_email@,
        a.credentials.private_key_path@ == expanded(gcp.gcp.credentials.private_key@, home.deep_view()),
        a.credentials.project_id@ == gcp.gcp.credentials.project_id@,
        a.credentials.zone@ == gcp.gcp.credentials.zone@,
        b.common.deep_view().groups == digitalocean.digitalocean.group.deep_view(),
        b.common.deep_view().specs == digitalocean.digitalocean.specs.deep_view(),
        b.common.deep_view().rules == digitalocean.digitalocean.rules.deep_view(),
        b.common.deep_view().provisioner == digitalocean.digitalocean.provisioner.deep_view(),
        b.common.deep_view().disks == digitalocean.digitalocean.disks.deep_view(),
        b.credentials.token@ == digitalocean.digitalocean.credentials.token@,
        b.credentials.region@ == digitalocean.digitalocean.credentials.region@,
{
}

/// A configuration that is connected is the one that was prepared: it is for
/// the same provider, in the zone or region of the credentials, with the access
/// that the credentials give.
pub proof fn law_connected_is_what_was_prepared(
    a: GcpSetup,
    access_token: String,
    b: DoSetup,
    gcp: LoadedProvider,
    digitalocean: LoadedProvider,
)
    requires
        call_ensures(GcpSetup::connect, (a, access_token), gcp),
        call_ensures(DoSetup::connect, (b,), digitalocean),
    ensures
        gcp.deep_view().is_gcp,
        gcp.deep_view().common == a.common.deep_view(),
        gcp.deep_view().location == a.credentials.zone@,
        gcp.deep_view().provisioner == a.common.deep_view().provisioner,
        gcp matches LoadedProvider::Gcp { provider, .. } && provider.access_token@ == access_token@
            && provider.project_id@ == a.credentials.project_id@ && provider.zone@ == a.credentials.zone@,
        !digitalocean.deep_view().is_gcp,
        digitalocean.deep_view().common == b.common.deep_view(),
        digitalocean.deep_view().location == b.credentials.region@,
        digitalocean.deep_view().provisioner == b.common.deep_view().provisioner,
        digitalocean matches LoadedProvider::DigitalOcean { provider, .. } && provider.token@ == b.credentials.token@
            && provider.region@ == b.credentials.region@,
{
    if let LoadedProvider::Gcp { provider, .. } = gcp {
        assert(provider.deep_view().access_token == access_token@);
        assert(provider.deep_view().project_id == a.credentials.project_id@);
        assert(provider.deep_view().zone == a.credentials.zone@);
    }
    if let LoadedProvider::DigitalOcean { provider, .. } = digitalocean {
        assert(provider.deep_view().token == b.credentials.token@);
        assert(provider.deep_view().region == b.credentials.region@);
    }
}

/// A command that works by the rules contacts the provider only where all rules
/// can be resolved. Any other command always may.
pub proof fn law_rules_come_before_the_provider(common: &CommonConfig, by_rules: bool, r: Result<(), String>)
    requires
        call_ensures(ready_to_connect, (common, by_rules), r),
    ensures
        r is Ok <==> !by_rules || resolved_rules(common.deep_view().rules, common.deep_view()) is Ok,
{
}

} // verus!
