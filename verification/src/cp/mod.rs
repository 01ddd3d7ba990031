//! Control-plane procedures: initialising a node, checking the endpoint that
//! is stored in the cluster, and making the endpoint resolvable on a node.

use vstd::prelude::*;

use crate::cp::cilium::{
    cilium_asks, cilium_begin, cilium_next, cilium_rank, cilium_wf, law_cilium_asks_rightly,
    law_cilium_ends, law_cilium_keeps_route, law_cilium_tells, provision_cilium, Cilium, CiliumStage, CiliumStep,
};
use crate::endpoint::{
    add_port, endpoint_host, host_of, ipv4, ipv6, is_ipv4, is_ipv6, with_port,
};
use crate::session::{
    goes_to, kept, say, warn, Action, Event, Log, Note, Progress, AUTO_APPROVED, OUT_OF_STEP,
};
use crate::text::{
    cat2, cat3, cat5, cat7, has_part, join, joined, lemma_piece_added, lemma_single_piece,
    pieces, same, split, trim, trimmed,
};

pub mod cilium;

verus! {

/// The administrator's kubeconfig on a control-plane node.
pub const ADMIN_KUBECONFIG: &'static str = "/etc/kubernetes/admin.conf";

// ---------------------------------------------------------------------------
// kubeadm configuration
// ---------------------------------------------------------------------------

pub const CONFIG_HEAD: &'static str = "apiVersion: kubeadm.k8s.io/v1beta4\n\
    kind: InitConfiguration\n\
    skipPhases:\n\
    - addon/kube-proxy\n\
    ---\n\
    apiVersion: kubeadm.k8s.io/v1beta4\n\
    kind: ClusterConfiguration\n";

pub const CONFIG_TAIL: &'static str = "---\n\
    apiVersion: kubelet.config.k8s.io/v1beta1\n\
    kind: KubeletConfiguration\n\
    serverTLSBootstrap: true\n";

/// One list item per SAN.
pub open spec fn san_items(sans: Seq<Seq<char>>) -> Seq<Seq<char>> {
    sans.map_values(|san: Seq<char>| "  - "@ + san)
}

/// The `apiServer` section that lists the SANs; nothing where there are none.
pub open spec fn api_server_section(sans: Seq<Seq<char>>) -> Seq<char> {
    if sans.len() == 0 {
        ""@
    } else {
        "apiServer:\n  certSANs:\n"@ + joined(san_items(sans), "\n"@) + "\n"@
    }
}

/// The kubeadm configuration of a cluster. The endpoint is part of it where
/// the cluster is highly available.
pub open spec fn kubeadm_config(endpoint: Seq<char>, is_ha: bool, sans: Seq<Seq<char>>) -> Seq<char> {
    CONFIG_HEAD@ + (if is_ha {
        "controlPlaneEndpoint: "@ + endpoint + "\n"@
    } else {
        ""@
    }) + api_server_section(sans) + CONFIG_TAIL@
}

/// The command that writes the kubeadm configuration on a node.
pub open spec fn config_script(endpoint: Seq<char>, is_ha: bool, sans: Seq<Seq<char>>) -> Seq<char> {
    "cat > /tmp/kubeadm-config.yaml <<'KUBEADM_CONFIG_EOF'\n"@ + kubeadm_config(endpoint, is_ha, sans)
        + "\nKUBEADM_CONFIG_EOF"@
}

/// The command that initialises a cluster. Certificates are uploaded where
/// the cluster is highly available.
pub open spec fn init_command(is_ha: bool) -> Seq<char> {
    if is_ha {
        "sudo kubeadm init --config /tmp/kubeadm-config.yaml --upload-certs"@
    } else {
        "sudo kubeadm init --config /tmp/kubeadm-config.yaml"@
    }
}

fn api_server_block(sans: &Vec<String>) -> (r: String)
    ensures
        r@ == api_server_section(sans.deep_view()),
{
    if sans.len() == 0 {
        return "".to_owned();
    }
    let mut items: Vec<String> = Vec::new();
    let mut i: usize = 0;
    while i < sans.len()
        invariant
            i <= sans@.len(),
            items@.len() == i,
            forall|j: int| 0 <= j < i ==> (#[trigger] items@[j])@ == "  - "@ + sans@[j]@,
        decreases sans@.len() - i,
    {
        items.push(cat2("  - ", sans[i].as_str()));
        i = i + 1;
    }
    assert(items.deep_view() =~= san_items(sans.deep_view()));
    cat3("apiServer:\n  certSANs:\n", join(&items, "\n").as_str(), "\n")
}

fn write_config_command(endpoint: &str, is_ha: bool, sans: &Vec<String>) -> (r: String)
    ensures
        r@ == config_script(endpoint@, is_ha, sans.deep_view()),
{
    let own = if is_ha {
        cat3("controlPlaneEndpoint: ", endpoint, "\n")
    } else {
        "".to_owned()
    };
    let mut config = CONFIG_HEAD.to_owned();
    config.append(own.as_str());
    config.append(api_server_block(sans).as_str());
    config.append(CONFIG_TAIL);
    cat3(
        "cat > /tmp/kubeadm-config.yaml <<'KUBEADM_CONFIG_EOF'\n",
        config.as_str(),
        "\nKUBEADM_CONFIG_EOF",
    )
}

/// The configuration of a highly available cluster names its endpoint, that
/// of any other cluster is the same but for that line.
pub proof fn law_endpoint_in_config(endpoint: Seq<char>, sans: Seq<Seq<char>>)
    ensures
        exists|head: Seq<char>, tail: Seq<char>|
            #![trigger head + tail]
            {
                &&& kubeadm_config(endpoint, true, sans) == head + ("controlPlaneEndpoint: "@ + endpoint
                    + "\n"@) + tail
                &&& kubeadm_config(endpoint, false, sans) == head + tail
            },
{
    let head = CONFIG_HEAD@;
    let tail = api_server_section(sans) + CONFIG_TAIL@;
    reveal_strlit("");
    assert(kubeadm_config(endpoint, true, sans) =~= head + ("controlPlaneEndpoint: "@ + endpoint + "\n"@)
        + tail);
    assert(kubeadm_config(endpoint, false, sans) =~= head + tail);
}

// ---------------------------------------------------------------------------
// Initialising a control-plane node
// ---------------------------------------------------------------------------

/// Where the initialisation of a control-plane node stands.
pub enum InitStage<S> {
    /// The kubeadm configuration is being written.
    Writing,
    /// May kubeadm be run?
    AskInit,
    /// kubeadm is running.
    Initialising,
    /// The cluster is up; its network is being provisioned.
    Network(Cilium<S>),
}

/// The initialisation of the primary control-plane node.
pub struct Init<S> {
    pub ip: S,
    pub name: S,
    pub jump: Option<S>,
    pub is_ha: bool,
    pub auto: bool,
    pub stage: InitStage<S>,
}

impl<S: DeepView> DeepView for InitStage<S> {
    type V = InitStage<S::V>;

    open spec fn deep_view(&self) -> InitStage<S::V> {
        match *self {
            InitStage::Writing => InitStage::Writing,
            InitStage::AskInit => InitStage::AskInit,
            InitStage::Initialising => InitStage::Initialising,
            InitStage::Network(c) => InitStage::Network(c.deep_view()),
        }
    }
}

impl<S: DeepView> DeepView for Init<S> {
    type V = Init<S::V>;

    open spec fn deep_view(&self) -> Init<S::V> {
        Init {
            ip: self.ip.deep_view(),
            name: self.name.deep_view(),
            jump: self.jump.deep_view(),
            is_ha: self.is_ha,
            auto: self.auto,
            stage: self.stage.deep_view(),
        }
    }
}

pub type InitModel = Init<Seq<char>>;

pub type InitStep = (Progress<InitModel, Seq<char>>, Log);

/// Initialisation starts with writing the configuration.
pub open spec fn init_begin(m: InitModel, endpoint: Seq<char>, sans: Seq<Seq<char>>, log: Log) -> InitStep {
    (
        Progress::Wait(
            Init { stage: InitStage::Writing, ..m },
            Action::Run { ip: m.ip, jump: m.jump, command: config_script(endpoint, m.is_ha, sans) },
        ),
        log,
    )
}

/// kubeadm is run.
pub open spec fn init_run(m: InitModel, log: Log) -> InitStep {
    (
        Progress::Wait(
            Init { stage: InitStage::Initialising, ..m },
            Action::Run { ip: m.ip, jump: m.jump, command: init_command(m.is_ha) },
        ),
        log.push(Note::Say("\n  Running kubeadm init — this may take several minutes …\n"@)),
    )
}

/// The operator is asked whether kubeadm may be run.
pub open spec fn init_ask(m: InitModel, log: Log) -> InitStep {
    let told = log.push(Note::Say("\n  → Step A: initialise the cluster with kubeadm"@)).push(
        Note::Say("    $ "@ + init_command(m.is_ha)),
    );
    if m.auto {
        init_run(m, told.push(Note::Say("  Run kubeadm init?"@ + AUTO_APPROVED@)))
    } else {
        (
            Progress::Wait(Init { stage: InitStage::AskInit, ..m }, Action::Confirm("  Run kubeadm init?"@)),
            told,
        )
    }
}

/// The network's progress is the initialisation's.
pub open spec fn init_network(m: InitModel, s: CiliumStep) -> InitStep {
    match s.0 {
        Progress::Wait(c, a) => (Progress::Wait(Init { stage: InitStage::Network(c), ..m }, a), s.1),
        Progress::Done => (Progress::Done, s.1),
        Progress::Failed(e) => (Progress::Failed(e), s.1),
    }
}

/// What the initialisation does when it is told the outcome of its action.
pub open spec fn init_next(m: InitModel, event: Event<Seq<char>>, log: Log) -> InitStep {
    match (m.stage, event) {
        (InitStage::Writing, Event::Finished) => init_ask(m, log),
        (InitStage::Writing, Event::Failed(e)) => (Progress::Failed(e), log),
        (InitStage::AskInit, Event::Answer(yes)) => if yes {
            init_run(m, log)
        } else {
            (
                Progress::Done,
                log.push(
                    Note::Say("  Skipped — aborting control-plane provisioning for "@ + m.name + "."@),
                ),
            )
        },
        (InitStage::Initialising, Event::Finished) => init_network(
            m,
            cilium_begin(m.ip, m.name, m.jump, m.auto, log.push(Note::Say("\n  ✓ kubeadm init complete."@))),
        ),
        (InitStage::Initialising, Event::Failed(e)) => (Progress::Failed(e), log),
        (InitStage::Network(c), e) => init_network(m, cilium_next(c, e, log)),
        _ => (Progress::Failed(OUT_OF_STEP@), log),
    }
}

/// The network is provisioned on the same node, by the same route and with the
/// same approval as all the rest.
pub open spec fn init_wf(m: InitModel) -> bool {
    m.stage matches InitStage::Network(c) ==> c.ip == m.ip && c.jump == m.jump && c.auto == m.auto && cilium_wf(c)
}

/// Every command goes to the same node by the same route, and with blanket
/// approval no question is put.
pub proof fn law_init_keeps_route(m: InitModel, event: Event<Seq<char>>, log: Log)
    requires
        init_wf(m),
    ensures
        init_next(m, event, log).0 matches Progress::Wait(n, a) ==> n.ip == m.ip && n.jump == m.jump && n.auto
            == m.auto && n.name == m.name && n.is_ha == m.is_ha && init_wf(n) && goes_to(a, m.ip, m.jump) && (m.auto ==> !(a is Confirm)),
{
    if let InitStage::Network(c) = m.stage {
        law_cilium_keeps_route(c, event, log);
    }
}

/// How far the initialisation is from its end.
pub open spec fn init_rank(m: InitModel) -> nat {
    match m.stage {
        InitStage::Writing => 13,
        InitStage::AskInit => 12,
        InitStage::Initialising => 11,
        InitStage::Network(c) => cilium_rank(c),
    }
}

/// The initialisation comes to an end: every step takes it nearer.
pub proof fn law_init_ends(m: InitModel, event: Event<Seq<char>>, log: Log)
    ensures
        init_next(m, event, log).0 matches Progress::Wait(n, _) ==> init_rank(n) < init_rank(m),
{
    if let InitStage::Network(c) = m.stage {
        law_cilium_ends(c, event, log);
    }
}

/// kubeadm is run only with approval.
pub proof fn law_init_needs_approval(m: InitModel, event: Event<Seq<char>>, log: Log)
    requires
        m.stage is Writing || m.stage is AskInit,
    ensures
        init_next(m, event, log).0 matches Progress::Wait(_, Action::Run { .. }) ==> m.auto || event
            == Event::<Seq<char>>::Answer(true),
{
}

/// A list item for each of `sans` in order, each on a line of its own.
pub open spec fn item_lines(sans: Seq<Seq<char>>) -> Seq<char>
    decreases sans.len(),
{
    if sans.len() == 0 {
        Seq::empty()
    } else {
        item_lines(sans.drop_last()) + ("  - "@ + sans.last() + "\n"@)
    }
}

proof fn lemma_items_joined(sans: Seq<Seq<char>>)
    requires
        sans.len() > 0,
    ensures
        joined(san_items(sans), "\n"@) + "\n"@ == item_lines(sans),
    decreases sans.len(),
{
    let items = san_items(sans);
    assert(items.last() == "  - "@ + sans.last());
    if sans.len() == 1 {
        assert(item_lines(sans.drop_last()) =~= Seq::<char>::empty());
        assert(joined(items, "\n"@) + "\n"@ =~= item_lines(sans));
    } else {
        lemma_items_joined(sans.drop_last());
        assert(items.drop_last() =~= san_items(sans.drop_last()));
        assert(joined(items, "\n"@) + "\n"@ =~= item_lines(sans));
    }
}

/// The command that initialisation starts with writes, for any endpoint and
/// any SANs, a configuration of three documents. The second one names the
/// endpoint if and only if the cluster is highly available. Whether or not it
/// is, the second document lists every SAN in order, each on a line of its
/// own, and has no such list where there are no SANs.
pub proof fn law_config_holds_endpoint_and_sans(
    m: InitModel,
    endpoint: Seq<char>,
    sans: Seq<Seq<char>>,
    log: Log,
)
    ensures
        ({
            let own = if m.is_ha {
                "controlPlaneEndpoint: "@ + endpoint + "\n"@
            } else {
                Seq::empty()
            };
            let list = if sans.len() > 0 {
                "apiServer:\n  certSANs:\n"@ + item_lines(sans)
            } else {
                Seq::empty()
            };
            &&& init_begin(m, endpoint, sans, log).0 matches Progress::Wait(n, Action::Run { ip, jump, command })
            &&& n == (Init { stage: InitStage::Writing, ..m })
            &&& ip == m.ip
            &&& jump == m.jump
            &&& command == "cat > /tmp/kubeadm-config.yaml <<'KUBEADM_CONFIG_EOF'\n"@
                + "apiVersion: kubeadm.k8s.io/v1beta4\n\
                   kind: InitConfiguration\n\
                   skipPhases:\n\
                   - addon/kube-proxy\n\
                   ---\n\
                   apiVersion: kubeadm.k8s.io/v1beta4\n\
                   kind: ClusterConfiguration\n"@ + own + list
                + "---\n\
                   apiVersion: kubelet.config.k8s.io/v1beta1\n\
                   kind: KubeletConfiguration\n\
                   serverTLSBootstrap: true\n"@ + "\nKUBEADM_CONFIG_EOF"@
        }),
        init_begin(m, endpoint, sans, log).1 == log,
{
    reveal_strlit("");
    if sans.len() > 0 {
        lemma_items_joined(sans);
        assert(api_server_section(sans) =~= "apiServer:\n  certSANs:\n"@ + item_lines(sans));
    } else {
        assert(api_server_section(sans) =~= Seq::<char>::empty());
    }
    let own = if m.is_ha {
        "controlPlaneEndpoint: "@ + endpoint + "\n"@
    } else {
        Seq::empty()
    };
    assert(own =~= (if m.is_ha {
        "controlPlaneEndpoint: "@ + endpoint + "\n"@
    } else {
        ""@
    }));
    assert(config_script(endpoint, m.is_ha, sans) =~= "cat > /tmp/kubeadm-config.yaml <<'KUBEADM_CONFIG_EOF'\n"@
        + CONFIG_HEAD@ + own + api_server_section(sans) + CONFIG_TAIL@ + "\nKUBEADM_CONFIG_EOF"@);
}

/// Every SAN has its line in the configuration that is written, whether or
/// not the cluster is highly available.
pub proof fn law_every_san_written(m: InitModel, endpoint: Seq<char>, sans: Seq<Seq<char>>, k: int, log: Log)
    requires
        0 <= k < sans.len(),
    ensures
        init_begin(m, endpoint, sans, log).0 matches Progress::Wait(_, Action::Run { command, .. }) && has_part(
            command,
            "  - "@ + sans[k] + "\n"@,
        ),
{
    law_config_holds_endpoint_and_sans(m, endpoint, sans, log);
    lemma_item_has_line(sans, k);
    if let Progress::Wait(_, Action::Run { command, .. }) = init_begin(m, endpoint, sans, log).0 {
        let own = if m.is_ha {
            "controlPlaneEndpoint: "@ + endpoint + "\n"@
        } else {
            Seq::empty()
        };
        let before = "cat > /tmp/kubeadm-config.yaml <<'KUBEADM_CONFIG_EOF'\n"@ + CONFIG_HEAD@ + own
            + "apiServer:\n  certSANs:\n"@;
        let after = CONFIG_TAIL@ + "\nKUBEADM_CONFIG_EOF"@;
        assert(command =~= before + item_lines(sans) + after);
        lemma_part_of_middle(before, item_lines(sans), after, "  - "@ + sans[k] + "\n"@);
    }
}

proof fn lemma_part_of_middle(a: Seq<char>, b: Seq<char>, c: Seq<char>, part: Seq<char>)
    requires
        has_part(b, part),
    ensures
        has_part(a + b + c, part),
{
    let i = choose|i: int| 0 <= i <= b.len() - part.len() && #[trigger] b.subrange(i, i + part.len()) == part;
    let whole = a + b + c;
    let at = a.len() + i;
    assert(whole.subrange(at, at + part.len()) =~= b.subrange(i, i + part.len()));
}

proof fn lemma_item_has_line(sans: Seq<Seq<char>>, k: int)
    requires
        0 <= k < sans.len(),
    ensures
        has_part(item_lines(sans), "  - "@ + sans[k] + "\n"@),
    decreases sans.len(),
{
    let front = item_lines(sans.drop_last());
    let line = "  - "@ + sans.last() + "\n"@;
    if k == sans.len() - 1 {
        assert(item_lines(sans).subrange(front.len() as int, front.len() as int + line.len()) =~= line);
    } else {
        lemma_item_has_line(sans.drop_last(), k);
        assert(Seq::<char>::empty() + front + line =~= front + line);
        lemma_part_of_middle(Seq::empty(), front, line, "  - "@ + sans[k] + "\n"@);
    }
}

/// kubeadm is run, once it is run, on the configuration that was written, and
/// told to upload the certificates if and only if the cluster is highly
/// available. The network follows on the same node only after it succeeded.
pub proof fn law_init_runs_kubeadm(m: InitModel, event: Event<Seq<char>>, log: Log)
    requires
        init_wf(m),
    ensures
        init_next(m, event, log).0 matches Progress::Wait(n, a) ==> {
            &&& !(m.stage is Network) && n.stage is Initialising ==> a == (Action::Run {
                ip: m.ip,
                jump: m.jump,
                command: "sudo kubeadm init --config /tmp/kubeadm-config.yaml"@ + (if m.is_ha {
                    " --upload-certs"@
                } else {
                    Seq::empty()
                }),
            })
            &&& a is Run && !(n.stage is Network) ==> n.stage is Initialising
            &&& m.stage is Writing ==> event is Finished && (if m.auto {
                n.stage is Initialising
            } else {
                n.stage is AskInit && a is Confirm
            })
            &&& m.stage is AskInit ==> n.stage is Initialising
            &&& m.stage is Initialising ==> event is Finished && (n.stage matches InitStage::Network(c) && c.ip == m.ip
                && c.jump == m.jump && c.name == m.name && c.auto == m.auto && c.stage is Checking)
            &&& m.stage is Network ==> n.stage is Network
        },
        init_next(m, event, log).0 is Done ==> (m.stage is AskInit && event == Event::<Seq<char>>::Answer(false))
            || m.stage is Network,
        (m.stage is Writing || m.stage is Initialising) && event is Finished ==> init_next(m, event, log).0 is Wait,
        m.stage is AskInit && event == Event::<Seq<char>>::Answer(true) ==> init_next(m, event, log).0 is Wait,
        (m.stage is Writing || m.stage is Initialising) && event is Failed ==> init_next(m, event, log).0
            == Progress::<InitModel, Seq<char>>::Failed(event->Failed_0),
{
    let bare = "sudo kubeadm init --config /tmp/kubeadm-config.yaml"@;
    assert(bare + Seq::<char>::empty() =~= bare);
    assert("sudo kubeadm init --config /tmp/kubeadm-config.yaml --upload-certs"@ =~= bare + " --upload-certs"@) by {
        reveal_strlit("sudo kubeadm init --config /tmp/kubeadm-config.yaml --upload-certs");
        reveal_strlit("sudo kubeadm init --config /tmp/kubeadm-config.yaml");
        reveal_strlit(" --upload-certs");
    }
}

/// Whether an action is the one that belongs to the stage of the
/// initialisation. The command that writes the configuration is not spelt out.
pub open spec fn init_asks(m: InitModel, a: Action<Seq<char>>) -> bool {
    match (m.stage, a) {
        (InitStage::Writing, Action::Run { ip, jump, .. }) => ip == m.ip && jump == m.jump,
        (InitStage::AskInit, Action::Confirm(question)) => question == "  Run kubeadm init?"@,
        (InitStage::Initialising, Action::Run { ip, jump, command }) => ip == m.ip && jump == m.jump && command
            == "sudo kubeadm init --config /tmp/kubeadm-config.yaml"@ + (if m.is_ha {
            " --upload-certs"@
        } else {
            Seq::empty()
        }),
        (InitStage::Network(c), _) => cilium_asks(c, a),
        _ => false,
    }
}

/// Every action of the initialisation belongs to its stage.
pub proof fn law_init_asks_rightly(m: InitModel, event: Event<Seq<char>>, log: Log)
    requires
        init_wf(m),
    ensures
        init_next(m, event, log).0 matches Progress::Wait(n, a) ==> init_asks(n, a),
{
    law_init_runs_kubeadm(m, event, log);
    if let InitStage::Network(c) = m.stage {
        law_cilium_asks_rightly(c.ip, c.name, c.jump, c.auto, c, event, log);
    } else {
        law_cilium_asks_rightly(
            m.ip,
            m.name,
            m.jump,
            m.auto,
            Cilium { ip: m.ip, name: m.name, jump: m.jump, auto: m.auto, stage: CiliumStage::Checking },
            event,
            log.push(Note::Say("\n  ✓ kubeadm init complete."@)),
        );
    }
}

/// Start initialising the primary control-plane node: write the kubeadm
/// configuration, run kubeadm and provision the network.
pub fn provision_control_plane_node(
    ip: String,
    name: String,
    endpoint: &str,
    is_ha: bool,
    jump: Option<String>,
    auto: bool,
    cert_sans: &Vec<String>,
    log: &mut Vec<Note<String>>,
) -> (r: Progress<Init<String>, String>)
    ensures
        (r.deep_view(), final(log).deep_view()) == init_begin(
            Init {
                ip: ip@,
                name: name@,
                jump: jump.deep_view(),
                is_ha,
                auto,
                stage: InitStage::Writing,
            },
            endpoint@,
            cert_sans.deep_view(),
            old(log).deep_view(),
        ),
{
    let action = Action::Run {
        ip: ip.clone(),
        jump: jump.clone(),
        command: write_config_command(endpoint, is_ha, cert_sans),
    };
    Progress::Wait(Init { ip, name, jump, is_ha, auto, stage: InitStage::Writing }, action)
}

fn init_command_text(is_ha: bool) -> (r: String)
    ensures
        r@ == init_command(is_ha),
{
    if is_ha {
        "sudo kubeadm init --config /tmp/kubeadm-config.yaml --upload-certs".to_owned()
    } else {
        "sudo kubeadm init --config /tmp/kubeadm-config.yaml".to_owned()
    }
}

impl Init<String> {
    fn run(self, log: &mut Vec<Note<String>>) -> (r: Progress<Init<String>, String>)
        ensures
            (r.deep_view(), final(log).deep_view()) == init_run(self.deep_view(), old(log).deep_view()),
    {
        say(log, "\n  Running kubeadm init — this may take several minutes …\n".to_owned());
        let action = Action::Run {
            ip: self.ip.clone(),
            jump: self.jump.clone(),
            command: init_command_text(self.is_ha),
        };
        Progress::Wait(Init { stage: InitStage::Initialising, ..self }, action)
    }

    fn ask(self, log: &mut Vec<Note<String>>) -> (r: Progress<Init<String>, String>)
        ensures
            (r.deep_view(), final(log).deep_view()) == init_ask(self.deep_view(), old(log).deep_view()),
    {
        say(log, "\n  → Step A: initialise the cluster with kubeadm".to_owned());
        say(log, cat2("    $ ", init_command_text(self.is_ha).as_str()));
        if self.auto {
            say(log, cat2("  Run kubeadm init?", AUTO_APPROVED));
            self.run(log)
        } else {
            let action = Action::Confirm("  Run kubeadm init?".to_owned());
            Progress::Wait(Init { stage: InitStage::AskInit, ..self }, action)
        }
    }

    /// Take the outcome of the action that was asked for.
    pub fn step(self, event: Event<String>, log: &mut Vec<Note<String>>) -> (r: Progress<
        Init<String>,
        String,
    >)
        ensures
            (r.deep_view(), final(log).deep_view()) == init_next(
                self.deep_view(),
                event.deep_view(),
                old(log).deep_view(),
            ),
    {
        let Init { ip, name, jump, is_ha, auto, stage } = self;
        match (stage, event) {
            (InitStage::Writing, Event::Finished) => {
                Init { ip, name, jump, is_ha, auto, stage: InitStage::Writing }.ask(log)
            },
            (InitStage::Writing, Event::Failed(e)) => Progress::Failed(e),
            (InitStage::AskInit, Event::Answer(yes)) => if yes {
                Init { ip, name, jump, is_ha, auto, stage: InitStage::AskInit }.run(log)
            } else {
                say(
                    log,
                    cat3("  Skipped — aborting control-plane provisioning for ", name.as_str(), "."),
                );
                Progress::Done
            },
            (InitStage::Initialising, Event::Finished) => {
                say(log, "\n  ✓ kubeadm init complete.".to_owned());
                match provision_cilium(ip.clone(), name.clone(), jump.clone(), auto, log) {
                    Progress::Wait(c, a) => Progress::Wait(
                        Init { ip, name, jump, is_ha, auto, stage: InitStage::Network(c) },
                        a,
                    ),
                    Progress::Done => Progress::Done,
                    Progress::Failed(e) => Progress::Failed(e),
                }
            },
            (InitStage::Initialising, Event::Failed(e)) => Progress::Failed(e),
            (InitStage::Network(c), e) => match c.step(e, log) {
                Progress::Wait(c, a) => Progress::Wait(
                    Init { ip, name, jump, is_ha, auto, stage: InitStage::Network(c) },
                    a,
                ),
                Progress::Done => Progress::Done,
                Progress::Failed(e) => Progress::Failed(e),
            },
            _ => Progress::Failed(OUT_OF_STEP.to_owned()),
        }
    }
}

// ---------------------------------------------------------------------------
// The endpoint that is stored in the cluster
// ---------------------------------------------------------------------------

/// The command that reads the endpoint stored in the cluster.
pub const STORED_ENDPOINT_COMMAND: &'static str = "sudo kubectl --kubeconfig=/etc/kubernetes/admin.conf \
    get configmap kubeadm-config -n kube-system \
    -o jsonpath='{.data.ClusterConfiguration}' 2>/dev/null \
    | grep 'controlPlaneEndpoint' || true";

/// The value in a line `key: value`, up to its next colon.
pub open spec fn stored_endpoint(output: Seq<char>) -> Seq<char> {
    let parts = pieces(output, ':');
    if parts.len() > 1 {
        trimmed(parts[1])
    } else {
        ""@
    }
}

/// Why additional nodes cannot join a cluster that has no endpoint.
pub open spec fn no_endpoint_message(name: Seq<char>, expected: Seq<char>) -> Seq<char> {
    "Cluster on "@ + name + " has no controlPlaneEndpoint stored in kubeadm-config.\n\
     \n\
     This happens when the node was initialised without --control-plane-endpoint.\n\
     \n\
     Remediation — on every control-plane and worker node run:\n\
     \n\
     \tsudo kubeadm reset -f\n\
     \tsudo rm -rf /etc/cni /etc/kubernetes /var/lib/etcd /var/lib/kubelet\n\
     \n\
     Then re-run 'maglev play'.  Maglev will call:\n\
     \n\
     \tsudo kubeadm init \
     --control-plane-endpoint "@ + expected + " --upload-certs\n\
     \n\
     To use a dedicated load-balancer address instead of the primary \
     node's IP, add 'control-plane-endpoint' to the relevant spec block \
     in your config."@
}

/// What the operator reads about the stored endpoint.
pub open spec fn endpoint_notes(stored: Seq<char>, expected: Seq<char>, log: Log) -> Log {
    let found = log.push(Note::Say("  ✓ controlPlaneEndpoint: "@ + stored));
    if with_port(stored) == expected {
        found
    } else {
        found.push(
            Note::Warn(
                "  ⚠  controlPlaneEndpoint in kubeadm-config ("@ + with_port(stored)
                    + ") differs from the value in your config ("@ + expected
                    + ").\n\
                     The join command will target the stored endpoint — this is \
                     correct behaviour. Update your config if needed."@,
            ),
        )
    }
}

/// The stored endpoint is what stands between the first colon and the next one,
/// or the end, without the white space around it; there is none without a colon.
pub proof fn law_stored_endpoint_follows_key(key: Seq<char>, value: Seq<char>, rest: Seq<char>)
    requires
        !key.contains(':'),
        !value.contains(':'),
        !rest.contains(':'),
    ensures
        stored_endpoint(key + seq![':'] + value) == trimmed(value),
        stored_endpoint(key + seq![':'] + value + seq![':'] + rest) == trimmed(value),
        stored_endpoint(key).len() == 0,
{
    reveal_strlit("");
    lemma_single_piece(key, ':');
    lemma_piece_added(key, value, ':');
    lemma_piece_added(key + seq![':'] + value, rest, ':');
}

/// The operator is told the stored endpoint, and is warned if and only if it is
/// not the expected one, once port 6443 is added where it names none.
pub proof fn law_other_endpoint_is_warned_of(stored: Seq<char>, expected: Seq<char>, log: Log)
    ensures
        ({
            let told = endpoint_notes(stored, expected, log);
            let full = if stored.contains(':') {
                stored
            } else {
                stored + ":6443"@
            };
            &&& told.len() == log.len() + (if full == expected {
                1int
            } else {
                2
            })
            &&& told[log.len() as int] == Note::Say("  ✓ controlPlaneEndpoint: "@ + stored)
            &&& full != expected ==> told.last() == Note::Warn(
                "  ⚠  controlPlaneEndpoint in kubeadm-config ("@ + full
                    + ") differs from the value in your config ("@ + expected
                    + ").\n\
                     The join command will target the stored endpoint — this is \
                     correct behaviour. Update your config if needed."@,
            )
        }),
{
}

/// Judge what [`STORED_ENDPOINT_COMMAND`] printed on the primary node.
///
/// Fails where no endpoint is stored; warns where another one is stored than
/// the one expected.
pub fn verify_control_plane_endpoint(
    name: &str,
    expected: &str,
    output: &str,
    log: &mut Vec<Note<String>>,
) -> (r: Result<(), String>)
    ensures
        match r {
            Ok(_) => {
                &&& stored_endpoint(output@).len() > 0
                &&& final(log).deep_view() == endpoint_notes(
                    stored_endpoint(output@),
                    expected@,
                    old(log).deep_view(),
                )
            },
            Err(e) => {
                &&& stored_endpoint(output@).len() == 0
                &&& e@ == no_endpoint_message(name@, expected@)
                &&& final(log).deep_view() == old(log).deep_view()
            },
        },
{
    let parts = split(output, ':');
    let stored = if parts.len() > 1 {
        assert(parts.deep_view()[1] == parts@[1]@);
        trim(parts[1].as_str())
    } else {
        "".to_owned()
    };
    if stored.as_str().is_empty() {
        return Err(
            cat5(
                "Cluster on ",
                name,
                " has no controlPlaneEndpoint stored in kubeadm-config.\n\
                 \n\
                 This happens when the node was initialised without --control-plane-endpoint.\n\
                 \n\
                 Remediation — on every control-plane and worker node run:\n\
                 \n\
                 \tsudo kubeadm reset -f\n\
                 \tsudo rm -rf /etc/cni /etc/kubernetes /var/lib/etcd /var/lib/kubelet\n\
                 \n\
                 Then re-run 'maglev play'.  Maglev will call:\n\
                 \n\
                 \tsudo kubeadm init \
                 --control-plane-endpoint ",
                expected,
                " --upload-certs\n\
                 \n\
                 To use a dedicated load-balancer address instead of the primary \
                 node's IP, add 'control-plane-endpoint' to the relevant spec block \
                 in your config.",
            ),
        );
    }
    say(log, cat2("  ✓ controlPlaneEndpoint: ", stored.as_str()));
    let normalised = add_port(stored.as_str());
    if !same(normalised.as_str(), expected) {
        warn(
            log,
            cat5(
                "  ⚠  controlPlaneEndpoint in kubeadm-config (",
                normalised.as_str(),
                ") differs from the value in your config (",
                expected,
                ").\n\
                 The join command will target the stored endpoint — this is \
                 correct behaviour. Update your config if needed.",
            ),
        );
    }
    Ok(())
}

// ---------------------------------------------------------------------------
// Resolving the endpoint on a node
// ---------------------------------------------------------------------------

/// Where the endpoint check of a node stands.
pub enum GuardStage<S> {
    /// The host name is being looked up on the node.
    Lookup,
    /// It resolves to another address; may its entry be replaced?
    AskUpdate(S),
    /// Its entry is being replaced.
    Updating,
    /// It does not resolve; may an entry be added?
    AskAdd,
    /// An entry is being added.
    Adding,
}

/// The check that the control-plane endpoint resolves on a node.
pub struct Guard<S> {
    pub node: S,
    pub host: S,
    /// The address that the host should resolve to.
    pub fallback: S,
    pub ip: S,
    pub jump: Option<S>,
    pub auto: bool,
    pub stage: GuardStage<S>,
}

impl<S: DeepView> DeepView for GuardStage<S> {
    type V = GuardStage<S::V>;

    open spec fn deep_view(&self) -> GuardStage<S::V> {
        match *self {
            GuardStage::Lookup => GuardStage::Lookup,
            GuardStage::AskUpdate(s) => GuardStage::AskUpdate(s.deep_view()),
            GuardStage::Updating => GuardStage::Updating,
            GuardStage::AskAdd => GuardStage::AskAdd,
            GuardStage::Adding => GuardStage::Adding,
        }
    }
}

impl<S: DeepView> DeepView for Guard<S> {
    type V = Guard<S::V>;

    open spec fn deep_view(&self) -> Guard<S::V> {
        Guard {
            node: self.node.deep_view(),
            host: self.host.deep_view(),
            fallback: self.fallback.deep_view(),
            ip: self.ip.deep_view(),
            jump: self.jump.deep_view(),
            auto: self.auto,
            stage: self.stage.deep_view(),
        }
    }
}

pub type GuardModel = Guard<Seq<char>>;

pub type GuardStep = (Progress<GuardModel, Seq<char>>, Log);

/// The command that prints the address that a host name resolves to.
pub open spec fn lookup_command(host: Seq<char>) -> Seq<char> {
    "getent hosts "@ + host + " 2>/dev/null | awk '{ print $1 }' || echo ''"@
}

/// The command that replaces the entry of a host name.
pub open spec fn replace_command(host: Seq<char>, ip: Seq<char>) -> Seq<char> {
    "sudo sed -i '/[[:space:]]"@ + host + "[[:space:]]*$/d' /etc/hosts && echo '"@ + ip + "  "@ + host
        + "' | sudo tee -a /etc/hosts"@
}

/// The command that adds an entry for a host name unless there is one.
pub open spec fn add_command(host: Seq<char>, ip: Seq<char>) -> Seq<char> {
    "grep -qF '"@ + host + "' /etc/hosts || echo '"@ + ip + "  "@ + host + "' | sudo tee -a /etc/hosts"@
}

pub open spec fn update_question(g: GuardModel) -> Seq<char> {
    "  Update '"@ + g.host + "' in /etc/hosts to "@ + g.fallback + " on "@ + g.node + "?"@
}

pub open spec fn add_question(g: GuardModel) -> Seq<char> {
    "  Add '"@ + g.fallback + "  "@ + g.host + "' to /etc/hosts on "@ + g.node + "?"@
}

/// What the operator reads once an entry was written.
pub open spec fn placeholder_hint(host: Seq<char>) -> Seq<char> {
    ".\n\
     \n\
     ℹ  This is a temporary placeholder.\n\
     ℹ  Once your load-balancer is live, run on EVERY node:\n\
     \n\
     \t  sudo sed -i '/"@ + host + "/d' /etc/hosts\n\
     \n\
     ℹ  Then ensure DNS resolves '"@ + host + "' to the LB address."@
}

pub open spec fn mismatch_warning(g: GuardModel, resolved: Seq<char>) -> Seq<char> {
    "\n  ⚠  '"@ + g.host + "' currently resolves to "@ + resolved + " on "@ + g.node
        + ",\nbut it should resolve to "@ + g.fallback
        + ".\n\
         \n\
         kubeadm will fail or connect to the wrong endpoint.\n\
         \n\
         maglev will update /etc/hosts to fix this."@
}

pub open spec fn unresolved_warning(g: GuardModel) -> Seq<char> {
    "\n  ⚠  '"@ + g.host + "' does NOT resolve on "@ + g.node
        + ".\n\
         \n\
         kubeadm will fail unless the name is resolvable before it starts.\n\
         \n\
         Long-term fix: provision a load-balancer, point DNS '"@ + g.host
        + "' at it,\n\
         then remove the /etc/hosts workaround from every node.\n\
         \n\
         Short-term: maglev can add  "@ + g.fallback + "  "@ + g.host
        + "\n\
         to /etc/hosts on this node right now (idempotent — skipped if already present)."@
}

/// The end of both refusals.
pub open spec fn lb_hint(host: Seq<char>) -> Seq<char> {
    "\n\
     \n\
     Once a real load-balancer is provisioned, update the entry to point\n\
     to the LB address, or delete it and let DNS handle resolution:\n\
     \n\
     \tsudo sed -i '/"@ + host + "/d' /etc/hosts"@
}

pub open spec fn update_refused(g: GuardModel, resolved: Seq<char>) -> Seq<char> {
    "DNS resolution mismatch for '"@ + g.host + "'.\n\
     \n\
     Currently resolves to: "@ + resolved + "\n\
     Expected to resolve to: "@ + g.fallback
        + "\n\
         \n\
         Update the entry in /etc/hosts on EVERY cluster node\n\
         (all control-plane + worker nodes) before re-running 'maglev play':\n\
         \n\
         \t"@ + replace_command(g.host, g.fallback) + lb_hint(g.host)
}

pub open spec fn add_refused(g: GuardModel) -> Seq<char> {
    "DNS resolution for '"@ + g.host + "' is required before kubeadm can run.\n\
     \n\
     Add the following line to /etc/hosts on EVERY cluster node\n\
     (all control-plane + worker nodes) before re-running 'maglev play':\n\
     \n\
     \t"@ + g.fallback + "  "@ + g.host + "\n\
     \n\
     Example (run on each node):\n\
     \n\
     \techo '"@ + g.fallback + "  "@ + g.host + "' | sudo tee -a /etc/hosts"@ + lb_hint(g.host)
}

/// The check starts with a look-up, unless the endpoint is an address.
pub open spec fn guard_begin(g: GuardModel, log: Log) -> GuardStep {
    if is_ipv4(g.host) || is_ipv6(g.host) {
        (Progress::Done, log)
    } else {
        (
            Progress::Wait(
                Guard { stage: GuardStage::Lookup, ..g },
                Action::Capture { ip: g.ip, jump: g.jump, command: lookup_command(g.host) },
            ),
            log.push(Note::Say("  Checking if '"@ + g.host + "' resolves on "@ + g.node + " …"@)),
        )
    }
}

/// The entry is replaced.
pub open spec fn guard_update(g: GuardModel, log: Log) -> GuardStep {
    (
        Progress::Wait(
            Guard { stage: GuardStage::Updating, ..g },
            Action::Run { ip: g.ip, jump: g.jump, command: replace_command(g.host, g.fallback) },
        ),
        log,
    )
}

/// An entry is added.
pub open spec fn guard_add(g: GuardModel, log: Log) -> GuardStep {
    (
        Progress::Wait(
            Guard { stage: GuardStage::Adding, ..g },
            Action::Run { ip: g.ip, jump: g.jump, command: add_command(g.host, g.fallback) },
        ),
        log,
    )
}

/// The host name was looked up, and stands for `resolved` (nothing, where it
/// does not resolve).
pub open spec fn guard_judge(g: GuardModel, resolved: Seq<char>, log: Log) -> GuardStep {
    if resolved.len() > 0 && resolved == g.fallback {
        (Progress::Done, log.push(Note::Say("  ✓ '"@ + g.host + "' resolves to "@ + resolved + "."@)))
    } else if resolved.len() > 0 {
        let warned = log.push(Note::Warn(mismatch_warning(g, resolved)));
        if g.auto {
            guard_update(g, warned.push(Note::Say(update_question(g) + AUTO_APPROVED@)))
        } else {
            (
                Progress::Wait(
                    Guard { stage: GuardStage::AskUpdate(resolved), ..g },
                    Action::Confirm(update_question(g)),
                ),
                warned,
            )
        }
    } else {
        let warned = log.push(Note::Warn(unresolved_warning(g)));
        if g.auto {
            guard_add(g, warned.push(Note::Say(add_question(g) + AUTO_APPROVED@)))
        } else {
            (
                Progress::Wait(
                    Guard { stage: GuardStage::AskAdd, ..g },
                    Action::Confirm(add_question(g)),
                ),
                warned,
            )
        }
    }
}

/// What the check does when it is told the outcome of its action.
pub open spec fn guard_next(g: GuardModel, event: Event<Seq<char>>, log: Log) -> GuardStep {
    match (g.stage, event) {
        (GuardStage::Lookup, Event::Output(output)) => guard_judge(g, trimmed(output), log),
        (GuardStage::Lookup, Event::Failed(e)) => (Progress::Failed(e), log),
        (GuardStage::AskUpdate(resolved), Event::Answer(yes)) => if yes {
            guard_update(g, log)
        } else {
            (Progress::Failed(update_refused(g, resolved)), log)
        },
        (GuardStage::Updating, Event::Finished) => (
            Progress::Done,
            log.push(
                Note::Say(
                    "  ✓ Updated '"@ + g.host + "' in /etc/hosts to "@ + g.fallback + " on "@ + g.node
                        + placeholder_hint(g.host),
                ),
            ),
        ),
        (GuardStage::Updating, Event::Failed(e)) => (Progress::Failed(e), log),
        (GuardStage::AskAdd, Event::Answer(yes)) => if yes {
            guard_add(g, log)
        } else {
            (Progress::Failed(add_refused(g)), log)
        },
        (GuardStage::Adding, Event::Finished) => (
            Progress::Done,
            log.push(
                Note::Say(
                    "  ✓ Added '"@ + g.fallback + "  "@ + g.host + "' to /etc/hosts on "@ + g.node
                        + placeholder_hint(g.host),
                ),
            ),
        ),
        (GuardStage::Adding, Event::Failed(e)) => (Progress::Failed(e), log),
        _ => (Progress::Failed(OUT_OF_STEP@), log),
    }
}

/// A node's `/etc/hosts` is changed only with approval, and with blanket
/// approval no question is put.
pub proof fn law_guard_needs_approval(g: GuardModel, event: Event<Seq<char>>, log: Log)
    ensures
        guard_next(g, event, log).0 matches Progress::Wait(_, Action::Run { .. }) ==> g.auto || event
            == Event::<Seq<char>>::Answer(true),
        guard_next(g, event, log).0 matches Progress::Wait(_, Action::Confirm(_)) ==> !g.auto,
{
}

/// How far the check is from its end.
pub open spec fn guard_rank(g: GuardModel) -> nat {
    match g.stage {
        GuardStage::Lookup => 3,
        GuardStage::AskUpdate(_) => 2,
        GuardStage::AskAdd => 2,
        GuardStage::Updating => 1,
        GuardStage::Adding => 1,
    }
}

/// The check comes to an end: every step takes it nearer.
pub proof fn law_guard_ends(g: GuardModel, event: Event<Seq<char>>, log: Log)
    ensures
        guard_next(g, event, log).0 matches Progress::Wait(n, _) ==> guard_rank(n) < guard_rank(g),
{
}

/// Where the endpoint is an address, there is nothing to check.
pub proof fn law_address_needs_no_check(g: GuardModel, endpoint: Seq<char>, log: Log)
    requires
        g.host == host_of(endpoint),
        is_ipv4(host_of(endpoint)) || is_ipv6(endpoint),
    ensures
        guard_begin(g, log) == (Progress::<GuardModel, Seq<char>>::Done, log),
{
}

/// Every command of the check goes to the node being checked, by its route,
/// and what the check is about never changes.
pub proof fn law_guard_keeps_route(g: GuardModel, event: Event<Seq<char>>, log: Log)
    ensures
        guard_next(g, event, log).0 matches Progress::Wait(n, a) ==> n.ip == g.ip && n.jump == g.jump && n.auto
            == g.auto && n.node == g.node && n.host == g.host && n.fallback == g.fallback && goes_to(
            a,
            g.ip,
            g.jump,
        ),
{
}

/// The check starts with a look-up of the host on the node itself. It is over
/// at once if and only if the host is an address.
pub proof fn law_guard_looks_up(g: GuardModel, log: Log)
    ensures
        guard_begin(g, log).0 is Done <==> (is_ipv4(g.host) || is_ipv6(g.host)),
        guard_begin(g, log).0 matches Progress::Wait(n, a) ==> n == (Guard { stage: GuardStage::Lookup, ..g }) && a
            == (Action::Capture {
            ip: g.ip,
            jump: g.jump,
            command: "getent hosts "@ + g.host + " 2>/dev/null | awk '{ print $1 }' || echo ''"@,
        }),
        !(guard_begin(g, log).0 is Failed),
{
}

/// The text that writes an entry for a host name.
pub open spec fn entry_command(ip: Seq<char>, host: Seq<char>) -> Seq<char> {
    "echo '"@ + ip + "  "@ + host + "' | sudo tee -a /etc/hosts"@
}

/// Every command of the check that changes a node ends in writing one entry:
/// the host, for the address that it has to stand for. Before that, an entry
/// that stands for another address is deleted, and where there was none, the
/// command makes sure that there still is none.
pub proof fn law_guard_writes_the_entry(g: GuardModel, event: Event<Seq<char>>, log: Log)
    ensures
        guard_next(g, event, log).0 matches Progress::Wait(n, Action::Run { ip, jump, command }) ==> {
            &&& ip == g.ip
            &&& jump == g.jump
            &&& n.stage is Updating || n.stage is Adding
            &&& n.stage is Updating ==> command == "sudo sed -i '/[[:space:]]"@ + g.host
                + "[[:space:]]*$/d' /etc/hosts && "@ + entry_command(g.fallback, g.host)
            &&& n.stage is Adding ==> command == "grep -qF '"@ + g.host + "' /etc/hosts || "@ + entry_command(
                g.fallback,
                g.host,
            )
        },
{
    assert("[[:space:]]*$/d' /etc/hosts && echo '"@ =~= "[[:space:]]*$/d' /etc/hosts && "@ + "echo '"@) by {
        reveal_strlit("[[:space:]]*$/d' /etc/hosts && echo '");
        reveal_strlit("[[:space:]]*$/d' /etc/hosts && ");
        reveal_strlit("echo '");
    }
    assert("' /etc/hosts || echo '"@ =~= "' /etc/hosts || "@ + "echo '"@) by {
        reveal_strlit("' /etc/hosts || echo '");
        reveal_strlit("' /etc/hosts || ");
        reveal_strlit("echo '");
    }
    assert(replace_command(g.host, g.fallback) =~= "sudo sed -i '/[[:space:]]"@ + g.host
        + "[[:space:]]*$/d' /etc/hosts && "@ + entry_command(g.fallback, g.host));
    assert(add_command(g.host, g.fallback) =~= "grep -qF '"@ + g.host + "' /etc/hosts || "@ + entry_command(
        g.fallback,
        g.host,
    ));
}

/// Whether an action is the one that belongs to the stage of the check.
pub open spec fn guard_asks(g: GuardModel, a: Action<Seq<char>>) -> bool {
    match (g.stage, a) {
        (GuardStage::Lookup, Action::Capture { ip, jump, command }) => ip == g.ip && jump == g.jump && command
            == "getent hosts "@ + g.host + " 2>/dev/null | awk '{ print $1 }' || echo ''"@,
        (GuardStage::AskUpdate(_), Action::Confirm(question)) => question == "  Update '"@ + g.host
            + "' in /etc/hosts to "@ + g.fallback + " on "@ + g.node + "?"@,
        (GuardStage::Updating, Action::Run { ip, jump, command }) => ip == g.ip && jump == g.jump && command
            == "sudo sed -i '/[[:space:]]"@ + g.host + "[[:space:]]*$/d' /etc/hosts && "@ + entry_command(
            g.fallback,
            g.host,
        ),
        (GuardStage::AskAdd, Action::Confirm(question)) => question == "  Add '"@ + g.fallback + "  "@ + g.host
            + "' to /etc/hosts on "@ + g.node + "?"@,
        (GuardStage::Adding, Action::Run { ip, jump, command }) => ip == g.ip && jump == g.jump && command
            == "grep -qF '"@ + g.host + "' /etc/hosts || "@ + entry_command(g.fallback, g.host),
        _ => false,
    }
}

/// Every action of the check belongs to its stage.
pub proof fn law_guard_asks_rightly(g: GuardModel, event: Event<Seq<char>>, log: Log)
    ensures
        guard_begin(g, log).0 matches Progress::Wait(n, a) ==> guard_asks(n, a),
        guard_next(g, event, log).0 matches Progress::Wait(n, a) ==> guard_asks(n, a),
{
    law_guard_writes_the_entry(g, event, log);
}

/// What the look-up printed decides: the check is done without a change if
/// and only if the host stands for the right address. A host that stands for
/// another one has its entry replaced, and one that stands for none has an
/// entry added, each as soon as that is approved.
pub proof fn law_guard_judges_the_lookup(g: GuardModel, output: Seq<char>, log: Log)
    requires
        g.stage is Lookup,
    ensures
        guard_next(g, Event::Output(output), log).0 is Done <==> trimmed(output).len() > 0 && trimmed(output)
            == g.fallback,
        trimmed(output).len() > 0 && trimmed(output) != g.fallback ==> (guard_next(g, Event::Output(output), log).0
            matches Progress::Wait(n, a) && (if g.auto {
            n.stage is Updating && a is Run
        } else {
            n.stage == GuardStage::AskUpdate(trimmed(output)) && a is Confirm
        })),
        trimmed(output).len() == 0 ==> (guard_next(g, Event::Output(output), log).0 matches Progress::Wait(n, a)
            && (if g.auto {
            n.stage is Adding && a is Run
        } else {
            n.stage is AskAdd && a is Confirm
        })),
{
}

/// An approved change is made, a declined one ends the check with an error,
/// and the check is done once a change was made.
pub proof fn law_guard_follows_the_answer(g: GuardModel, e: Seq<char>, log: Log)
    ensures
        g.stage is AskUpdate ==> (guard_next(g, Event::Answer(true), log).0 matches Progress::Wait(n, a)
            && n.stage is Updating && a is Run) && guard_next(g, Event::Answer(false), log).0 is Failed,
        g.stage is AskAdd ==> (guard_next(g, Event::Answer(true), log).0 matches Progress::Wait(n, a)
            && n.stage is Adding && a is Run) && guard_next(g, Event::Answer(false), log).0 is Failed,
        g.stage is Updating || g.stage is Adding ==> guard_next(g, Event::Finished, log).0 is Done,
        g.stage is Updating || g.stage is Adding || g.stage is Lookup ==> guard_next(g, Event::Failed(e), log).0
            == Progress::<GuardModel, Seq<char>>::Failed(e),
{
}

/// No line that the operator was told is ever taken back. They are told what the
/// host stands for, and where that is wrong or nothing, which node it is about
/// and what should be there; and they are told when an entry was written. A
/// refusal says what to write by hand.
pub proof fn law_guard_tells(g: GuardModel, event: Event<Seq<char>>, output: Seq<char>, log: Log)
    ensures
        kept(log, guard_begin(g, log).1),
        kept(log, guard_next(g, event, log).1),
        guard_begin(g, log).0 is Wait ==> guard_begin(g, log).1 == log.push(
            Note::Say("  Checking if '"@ + g.host + "' resolves on "@ + g.node + " …"@),
        ),
        g.stage is Lookup ==> {
            let resolved = trimmed(output);
            let told = guard_next(g, Event::Output(output), log).1;
            &&& resolved.len() > 0 && resolved == g.fallback ==> told == log.push(
                Note::Say("  ✓ '"@ + g.host + "' resolves to "@ + resolved + "."@),
            )
            &&& resolved.len() > 0 && resolved != g.fallback ==> kept(
                log.push(
                    Note::Warn(
                        "\n  ⚠  '"@ + g.host + "' currently resolves to "@ + resolved + " on "@ + g.node
                            + ",\nbut it should resolve to "@ + g.fallback
                            + ".\n\
                             \n\
                             kubeadm will fail or connect to the wrong endpoint.\n\
                             \n\
                             maglev will update /etc/hosts to fix this."@,
                    ),
                ),
                told,
            )
            &&& resolved.len() == 0 ==> kept(
                log.push(
                    Note::Warn(
                        "\n  ⚠  '"@ + g.host + "' does NOT resolve on "@ + g.node
                            + ".\n\
                             \n\
                             kubeadm will fail unless the name is resolvable before it starts.\n\
                             \n\
                             Long-term fix: provision a load-balancer, point DNS '"@ + g.host
                            + "' at it,\n\
                             then remove the /etc/hosts workaround from every node.\n\
                             \n\
                             Short-term: maglev can add  "@ + g.fallback + "  "@ + g.host
                            + "\n\
                             to /etc/hosts on this node right now (idempotent — skipped if already present)."@,
                    ),
                ),
                told,
            )
        },
        ({
            let hint = ".\n\
                     \n\
                     ℹ  This is a temporary placeholder.\n\
                     ℹ  Once your load-balancer is live, run on EVERY node:\n\
                     \n\
                     \t  sudo sed -i '/"@ + g.host + "/d' /etc/hosts\n\
                     \n\
                     ℹ  Then ensure DNS resolves '"@ + g.host + "' to the LB address."@;
            &&& g.stage is Updating ==> guard_next(g, Event::Finished, log).1 == log.push(
                Note::Say("  ✓ Updated '"@ + g.host + "' in /etc/hosts to "@ + g.fallback + " on "@ + g.node + hint),
            )
            &&& g.stage is Adding ==> guard_next(g, Event::Finished, log).1 == log.push(
                Note::Say("  ✓ Added '"@ + g.fallback + "  "@ + g.host + "' to /etc/hosts on "@ + g.node + hint),
            )
        }),
        g.stage matches GuardStage::AskUpdate(resolved) ==> (guard_next(g, Event::Answer(false), log).0
            matches Progress::Failed(e) && ("DNS resolution mismatch for '"@ + g.host + "'.\n\
             \n\
             Currently resolves to: "@ + resolved + "\n\
             Expected to resolve to: "@ + g.fallback).is_prefix_of(e)),
        g.stage is AskAdd ==> (guard_next(g, Event::Answer(false), log).0 matches Progress::Failed(e) && (
        "DNS resolution for '"@ + g.host + "' is required before kubeadm can run.\n\
             \n\
             Add the following line to /etc/hosts on EVERY cluster node\n\
             (all control-plane + worker nodes) before re-running 'maglev play':\n\
             \n\
             \t"@ + g.fallback + "  "@ + g.host).is_prefix_of(e)),
{
    if let GuardStage::AskUpdate(resolved) = g.stage {
        let head = "DNS resolution mismatch for '"@ + g.host + "'.\n\
             \n\
             Currently resolves to: "@ + resolved + "\n\
             Expected to resolve to: "@ + g.fallback;
        let e = update_refused(g, resolved);
        assert(e.subrange(0, head.len() as int) =~= head);
    }
    if g.stage is AskAdd {
        let head = "DNS resolution for '"@ + g.host + "' is required before kubeadm can run.\n\
             \n\
             Add the following line to /etc/hosts on EVERY cluster node\n\
             (all control-plane + worker nodes) before re-running 'maglev play':\n\
             \n\
             \t"@ + g.fallback + "  "@ + g.host;
        let e = add_refused(g);
        assert(e.subrange(0, head.len() as int) =~= head);
    }
}

/// No line that the operator was told during the initialisation is ever taken
/// back. They are shown the command before it is run, and told when it was.
pub proof fn law_init_tells(m: InitModel, event: Event<Seq<char>>, log: Log)
    ensures
        kept(log, init_next(m, event, log).1),
        m.stage is Writing ==> kept(
            log.push(Note::Say("\n  → Step A: initialise the cluster with kubeadm"@)).push(
                Note::Say(
                    "    $ "@ + (if m.is_ha {
                        "sudo kubeadm init --config /tmp/kubeadm-config.yaml --upload-certs"@
                    } else {
                        "sudo kubeadm init --config /tmp/kubeadm-config.yaml"@
                    }),
                ),
            ),
            init_next(m, Event::Finished, log).1,
        ),
        m.stage is AskInit ==> init_next(m, Event::Answer(false), log).1 == log.push(
            Note::Say("  Skipped — aborting control-plane provisioning for "@ + m.name + "."@),
        ),
        m.stage is Initialising ==> kept(
            log.push(Note::Say("\n  ✓ kubeadm init complete."@)),
            init_next(m, Event::Finished, log).1,
        ),
{
    if let InitStage::Network(c) = m.stage {
        law_cilium_tells(c, event, ""@, log);
    }
}

/// Start checking that the host of `endpoint` resolves on a node.
///
/// There is nothing to do where the endpoint is an address. Where the host is
/// unresolvable, or resolves to another address than `fallback`, the operator
/// may let an `/etc/hosts` entry be written, or abort with instructions.
pub fn ensure_cp_endpoint_resolves(
    node: String,
    endpoint: &str,
    fallback: String,
    auto: bool,
    ip: String,
    jump: Option<String>,
    log: &mut Vec<Note<String>>,
) -> (r: Progress<Guard<String>, String>)
    ensures
        (r.deep_view(), final(log).deep_view()) == guard_begin(
            Guard {
                node: node@,
                host: host_of(endpoint@),
                fallback: fallback@,
                ip: ip@,
                jump: jump.deep_view(),
                auto,
                stage: GuardStage::Lookup,
            },
            old(log).deep_view(),
        ),
{
    let host = endpoint_host(endpoint);
    if ipv4(host.as_str()) || ipv6(host.as_str()) {
        return Progress::Done;
    }
    say(log, cat5("  Checking if '", host.as_str(), "' resolves on ", node.as_str(), " …"));
    let command = cat3("getent hosts ", host.as_str(), " 2>/dev/null | awk '{ print $1 }' || echo ''");
    let action = Action::Capture { ip: ip.clone(), jump: jump.clone(), command };
    Progress::Wait(Guard { node, host, fallback, ip, jump, auto, stage: GuardStage::Lookup }, action)
}

fn replace_text(host: &str, ip: &str) -> (r: String)
    ensures
        r@ == replace_command(host@, ip@),
{
    cat7(
        "sudo sed -i '/[[:space:]]",
        host,
        "[[:space:]]*$/d' /etc/hosts && echo '",
        ip,
        "  ",
        host,
        "' | sudo tee -a /etc/hosts",
    )
}

fn placeholder_text(host: &str) -> (r: String)
    ensures
        r@ == placeholder_hint(host@),
{
    cat5(
        ".\n\
         \n\
         ℹ  This is a temporary placeholder.\n\
         ℹ  Once your load-balancer is live, run on EVERY node:\n\
         \n\
         \t  sudo sed -i '/",
        host,
        "/d' /etc/hosts\n\
         \n\
         ℹ  Then ensure DNS resolves '",
        host,
        "' to the LB address.",
    )
}

fn lb_text(host: &str) -> (r: String)
    ensures
        r@ == lb_hint(host@),
{
    cat3(
        "\n\
         \n\
         Once a real load-balancer is provisioned, update the entry to point\n\
         to the LB address, or delete it and let DNS handle resolution:\n\
         \n\
         \tsudo sed -i '/",
        host,
        "/d' /etc/hosts",
    )
}

impl Guard<String> {
    fn update_question(&self) -> (r: String)
        ensures
            r@ == update_question(self.deep_view()),
    {
        cat7(
            "  Update '",
            self.host.as_str(),
            "' in /etc/hosts to ",
            self.fallback.as_str(),
            " on ",
            self.node.as_str(),
            "?",
        )
    }

    fn add_question(&self) -> (r: String)
        ensures
            r@ == add_question(self.deep_view()),
    {
        cat7(
            "  Add '",
            self.fallback.as_str(),
            "  ",
            self.host.as_str(),
            "' to /etc/hosts on ",
            self.node.as_str(),
            "?",
        )
    }

    fn mismatch_text(&self, resolved: &str) -> (r: String)
        ensures
            r@ == mismatch_warning(self.deep_view(), resolved@),
    {
        let mut t = cat7(
            "\n  ⚠  '",
            self.host.as_str(),
            "' currently resolves to ",
            resolved,
            " on ",
            self.node.as_str(),
            ",\nbut it should resolve to ",
        );
        t.append(self.fallback.as_str());
        t.append(
            ".\n\
             \n\
             kubeadm will fail or connect to the wrong endpoint.\n\
             \n\
             maglev will update /etc/hosts to fix this.",
        );
        t
    }

    fn unresolved_text(&self) -> (r: String)
        ensures
            r@ == unresolved_warning(self.deep_view()),
    {
        let mut t = cat5(
            "\n  ⚠  '",
            self.host.as_str(),
            "' does NOT resolve on ",
            self.node.as_str(),
            ".\n\
             \n\
             kubeadm will fail unless the name is resolvable before it starts.\n\
             \n\
             Long-term fix: provision a load-balancer, point DNS '",
        );
        t.append(self.host.as_str());
        t.append(
            "' at it,\n\
             then remove the /etc/hosts workaround from every node.\n\
             \n\
             Short-term: maglev can add  ",
        );
        t.append(self.fallback.as_str());
        t.append("  ");
        t.append(self.host.as_str());
        t.append(
            "\n\
             to /etc/hosts on this node right now (idempotent — skipped if already present).",
        );
        t
    }

    fn update_refused(&self, resolved: &str) -> (r: String)
        ensures
            r@ == update_refused(self.deep_view(), resolved@),
    {
        let mut t = cat7(
            "DNS resolution mismatch for '",
            self.host.as_str(),
            "'.\n\
             \n\
             Currently resolves to: ",
            resolved,
            "\n\
             Expected to resolve to: ",
            self.fallback.as_str(),
            "\n\
             \n\
             Update the entry in /etc/hosts on EVERY cluster node\n\
             (all control-plane + worker nodes) before re-running 'maglev play':\n\
             \n\
             \t",
        );
        t.append(replace_text(self.host.as_str(), self.fallback.as_str()).as_str());
        t.append(lb_text(self.host.as_str()).as_str());
        t
    }

    fn add_refused(&self) -> (r: String)
        ensures
            r@ == add_refused(self.deep_view()),
    {
        let mut t = cat5(
            "DNS resolution for '",
            self.host.as_str(),
            "' is required before kubeadm can run.\n\
             \n\
             Add the following line to /etc/hosts on EVERY cluster node\n\
             (all control-plane + worker nodes) before re-running 'maglev play':\n\
             \n\
             \t",
            self.fallback.as_str(),
            "  ",
        );
        t.append(self.host.as_str());
        t.append(
            "\n\
             \n\
             Example (run on each node):\n\
             \n\
             \techo '",
        );
        t.append(self.fallback.as_str());
        t.append("  ");
        t.append(self.host.as_str());
        t.append("' | sudo tee -a /etc/hosts");
        t.append(lb_text(self.host.as_str()).as_str());
        t
    }

    fn update(self, log: &mut Vec<Note<String>>) -> (r: Progress<Guard<String>, String>)
        ensures
            (r.deep_view(), final(log).deep_view()) == guard_update(self.deep_view(), old(log).deep_view()),
    {
        let command = replace_text(self.host.as_str(), self.fallback.as_str());
        let action = Action::Run { ip: self.ip.clone(), jump: self.jump.clone(), command };
        Progress::Wait(Guard { stage: GuardStage::Updating, ..self }, action)
    }

    fn add_entry(self, log: &mut Vec<Note<String>>) -> (r: Progress<Guard<String>, String>)
        ensures
            (r.deep_view(), final(log).deep_view()) == guard_add(self.deep_view(), old(log).deep_view()),
    {
        let command = cat7(
            "grep -qF '",
            self.host.as_str(),
            "' /etc/hosts || echo '",
            self.fallback.as_str(),
            "  ",
            self.host.as_str(),
            "' | sudo tee -a /etc/hosts",
        );
        let action = Action::Run { ip: self.ip.clone(), jump: self.jump.clone(), command };
        Progress::Wait(Guard { stage: GuardStage::Adding, ..self }, action)
    }

    fn judge(self, resolved: String, log: &mut Vec<Note<String>>) -> (r: Progress<Guard<String>, String>)
        ensures
            (r.deep_view(), final(log).deep_view()) == guard_judge(
                self.deep_view(),
                resolved@,
                old(log).deep_view(),
            ),
    {
        if resolved.as_str().is_empty() {
            warn(log, self.unresolved_text());
            let question = self.add_question();
            if self.auto {
                say(log, question.concat(AUTO_APPROVED));
                self.add_entry(log)
            } else {
                Progress::Wait(Guard { stage: GuardStage::AskAdd, ..self }, Action::Confirm(question))
            }
        } else if resolved == self.fallback {
            say(log, cat5("  ✓ '", self.host.as_str(), "' resolves to ", resolved.as_str(), "."));
            Progress::Done
        } else {
            warn(log, self.mismatch_text(resolved.as_str()));
            let question = self.update_question();
            if self.auto {
                say(log, question.concat(AUTO_APPROVED));
                self.update(log)
            } else {
                Progress::Wait(
                    Guard { stage: GuardStage::AskUpdate(resolved), ..self },
                    Action::Confirm(question),
                )
            }
        }
    }

    /// Take the outcome of the action that was asked for.
    pub fn step(self, event: Event<String>, log: &mut Vec<Note<String>>) -> (r: Progress<
        Guard<String>,
        String,
    >)
        ensures
            (r.deep_view(), final(log).deep_view()) == guard_next(
                self.deep_view(),
                event.deep_view(),
                old(log).deep_view(),
            ),
    {
        match (&self.stage, event) {
            (GuardStage::Lookup, Event::Output(output)) => self.judge(trim(output.as_str()), log),
            (GuardStage::Lookup, Event::Failed(e)) => Progress::Failed(e),
            (GuardStage::AskUpdate(resolved), Event::Answer(yes)) => if yes {
                self.update(log)
            } else {
                Progress::Failed(self.update_refused(resolved.as_str()))
            },
            (GuardStage::Updating, Event::Finished) => {
                let mut t = cat7(
                    "  ✓ Updated '",
                    self.host.as_str(),
                    "' in /etc/hosts to ",
                    self.fallback.as_str(),
                    " on ",
                    self.node.as_str(),
                    placeholder_text(self.host.as_str()).as_str(),
                );
                say(log, t);
                Progress::Done
            },
            (GuardStage::Updating, Event::Failed(e)) => Progress::Failed(e),
            (GuardStage::AskAdd, Event::Answer(yes)) => if yes {
                self.add_entry(log)
            } else {
                Progress::Failed(self.add_refused())
            },
            (GuardStage::Adding, Event::Finished) => {
                say(
                    log,
                    cat7(
                        "  ✓ Added '",
                        self.fallback.as_str(),
                        "  ",
                        self.host.as_str(),
                        "' to /etc/hosts on ",
                        self.node.as_str(),
                        placeholder_text(self.host.as_str()).as_str(),
                    ),
                );
                Progress::Done
            },
            (GuardStage::Adding, Event::Failed(e)) => Progress::Failed(e),
            _ => Progress::Failed(OUT_OF_STEP.to_owned()),
        }
    }
}

/// A check that starts is about the node that was named, on its address and by
/// its route: the host of the endpoint there has to stand for the fallback
/// address. It does not start where that host is an address.
pub proof fn law_check_is_about_its_node(
    node: String,
    endpoint: &str,
    fallback: String,
    auto: bool,
    ip: String,
    jump: Option<String>,
    log: &mut Vec<Note<String>>,
    r: Progress<Guard<String>, String>,
)
    requires
        call_ensures(ensure_cp_endpoint_resolves, (node, endpoint, fallback, auto, ip, jump, log), r),
    ensures
        match r {
            Progress::Wait(g, a) => {
                &&& !is_ipv4(host_of(endpoint@)) && !is_ipv6(host_of(endpoint@))
                &&& g.node@ == node@
                &&& g.host@ == host_of(endpoint@)
                &&& g.fallback@ == fallback@
                &&& g.ip@ == ip@
                &&& g.jump.deep_view() == jump.deep_view()
                &&& g.auto == auto
                &&& g.stage is Lookup
                &&& guard_asks(g.deep_view(), a.deep_view())
            },
            Progress::Done => is_ipv4(host_of(endpoint@)) || is_ipv6(host_of(endpoint@)),
            Progress::Failed(_) => false,
        },
{
    let model = Guard {
        node: node@,
        host: host_of(endpoint@),
        fallback: fallback@,
        ip: ip@,
        jump: jump.deep_view(),
        auto,
        stage: GuardStage::Lookup,
    };
    law_guard_asks_rightly(model, Event::Finished, old(log).deep_view());
    if let Progress::Wait(g, _) = r {
        assert(g.deep_view() == model);
        assert(g.deep_view().node == g.node@);
        assert(g.deep_view().host == g.host@);
        assert(g.deep_view().fallback == g.fallback@);
        assert(g.deep_view().ip == g.ip@);
    }
}

/// An initialisation that starts is that of the node that was named, on its
/// address and by its route.
pub proof fn law_initialisation_is_of_its_node(
    ip: String,
    name: String,
    endpoint: &str,
    is_ha: bool,
    jump: Option<String>,
    auto: bool,
    cert_sans: &Vec<String>,
    log: &mut Vec<Note<String>>,
    r: Progress<Init<String>, String>,
)
    requires
        call_ensures(provision_control_plane_node, (ip, name, endpoint, is_ha, jump, auto, cert_sans, log), r),
    ensures
        r matches Progress::Wait(m, a) && {
            &&& m.ip@ == ip@
            &&& m.name@ == name@
            &&& m.is_ha == is_ha
            &&& m.jump.deep_view() == jump.deep_view()
            &&& m.auto == auto
            &&& m.stage is Writing
            &&& a.deep_view() == (Action::Run {
                ip: ip@,
                jump: jump.deep_view(),
                command: config_script(endpoint@, is_ha, cert_sans.deep_view()),
            })
        },
{
    if let Progress::Wait(m, _) = r {
        assert(m.deep_view().ip == m.ip@);
        assert(m.deep_view().name == m.name@);
    }
}

/// An endpoint that is stored in the cluster is enough, whatever it is, and
/// none is an error that names the node and the endpoint that was expected.
pub proof fn law_some_endpoint_has_to_be_stored(
    name: &str,
    expected: &str,
    output: &str,
    log: &mut Vec<Note<String>>,
    r: Result<(), String>,
)
    requires
        call_ensures(verify_control_plane_endpoint, (name, expected, output, log), r),
    ensures
        r is Ok <==> stored_endpoint(output@).len() > 0,
        r matches Err(e) ==> ("Cluster on "@ + name@).is_prefix_of(e@) && has_part(e@, expected@),
{
    if let Err(e) = r {
        let head = "Cluster on "@ + name@;
        assert(e@.subrange(0, head.len() as int) =~= head);
        let before = "Cluster on "@ + name@
            + " has no controlPlaneEndpoint stored in kubeadm-config.\n\
               \n\
               This happens when the node was initialised without --control-plane-endpoint.\n\
               \n\
               Remediation — on every control-plane and worker node run:\n\
               \n\
               \tsudo kubeadm reset -f\n\
               \tsudo rm -rf /etc/cni /etc/kubernetes /var/lib/etcd /var/lib/kubelet\n\
               \n\
               Then re-run 'maglev play'.  Maglev will call:\n\
               \n\
               \tsudo kubeadm init \
               --control-plane-endpoint "@;
        let at = before.len() as int;
        assert(e@.subrange(at, at + expected@.len()) =~= expected@);
    }
}

} // verus!
