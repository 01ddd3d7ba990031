//! `play`: provision Kubernetes on an existing set of nodes.

use vstd::prelude::*;

use crate::command::sweep::lies_beside;
use crate::command::{
    address_line, control_plane_rule, first_control_plane, kind, kind_text,
    law_every_typed_node_is_a_target, law_first_control_plane, leads, push_typed, settings,
    show_address, show_settings, typed_count, typed_targets, Target, SETTINGS,
};
use crate::cp::cilium::{
    approve_pending_csrs, cilium_asks, cilium_begin, cilium_next, cilium_rank, cilium_wf,
    csr_asks, csr_begin, csr_next, csr_rank, law_cilium_asks_rightly, law_cilium_ends,
    law_cilium_keeps_route, law_cilium_tells, law_csrs_ask_rightly, law_csrs_end,
    law_csrs_keep_route, law_csrs_need_approval, law_csrs_tell, provision_cilium, Cilium, CiliumStep, CsrApproval, CsrStep,
};
use crate::cp::{
    config_script, endpoint_notes, ensure_cp_endpoint_resolves, guard_asks, guard_begin,
    guard_next, guard_rank, init_asks, init_begin, init_next, init_rank, init_wf, item_lines,
    law_config_holds_endpoint_and_sans, law_guard_asks_rightly, law_guard_ends,
    law_guard_judges_the_lookup, law_guard_keeps_route, law_guard_needs_approval,
    law_guard_tells, law_init_asks_rightly, law_init_ends, law_init_keeps_route, law_init_tells,
    no_endpoint_message, provision_control_plane_node, stored_endpoint,
    verify_control_plane_endpoint, Guard, GuardModel, GuardStage, GuardStep, Init, InitStage,
    InitStep, STORED_ENDPOINT_COMMAND,
};
use crate::endpoint::{
    cluster_endpoint, control_plane_endpoint, endpoint_is, host_of, is_ipv4, is_ipv6, points_at,
};
use crate::ip::IpAddressType;
use crate::provider::{law_provider_described, LoadedModel, LoadedProvider};
use crate::registry::{id_or_name, lookup, Entries, Registry};
use crate::rule::{resolve_rules, resolved_rules, rule_message, CommonResolvedRule, ResolvedModel};
use crate::session::{
    below, goes_to, kept, say, warn, Action, Event, Log, Note, Progress, AUTO_APPROVED, OUT_OF_STEP,
};
use crate::structs::{clone_provisioner, ProvisionerModel, ProvisionerYaml};
use crate::text::{
    cat2, cat3, cat4, cat5, cat7, clone_list, decimal, has_part, is_blank, is_word,
    lemma_single_piece, number, same, same_ignoring_case, trim, trimmed,
};
use crate::utils::{law_private_key_lies_beside, private_key_of, private_key_path};

verus! {

// ---------------------------------------------------------------------------
// The plan
// ---------------------------------------------------------------------------

/// What is fixed before the first node is touched.
pub struct PlayPlan {
    /// The control-plane nodes, then the workers; each with whether it is
    /// reached by its public address.
    pub nodes: Vec<(String, bool)>,
    /// How many of the nodes are control-plane nodes.
    pub cp_count: usize,
    /// The identifiers of the nodes that were created.
    pub instances: Registry,
    pub user: String,
    /// Path of the private key.
    pub key: String,
    /// The configured endpoint.
    pub endpoint: Option<String>,
    pub cert_sans: Vec<String>,
    pub provisioner: Option<ProvisionerYaml>,
    pub auto: bool,
    /// Fail at once where containerd does not run yet.
    pub no_wait: bool,
}

pub struct PlanModel {
    pub nodes: Seq<Target>,
    pub cp_count: usize,
    pub instances: Entries,
    pub user: Seq<char>,
    pub key: Seq<char>,
    pub endpoint: Option<Seq<char>>,
    pub cert_sans: Seq<Seq<char>>,
    pub provisioner: Option<ProvisionerModel>,
    pub auto: bool,
    pub no_wait: bool,
}

impl DeepView for PlayPlan {
    type V = PlanModel;

    open spec fn deep_view(&self) -> PlanModel {
        PlanModel {
            nodes: self.nodes.deep_view(),
            cp_count: self.cp_count,
            instances: self.instances.deep_view(),
            user: self.user@,
            key: self.key@,
            endpoint: self.endpoint.deep_view(),
            cert_sans: self.cert_sans.deep_view(),
            provisioner: self.provisioner.deep_view(),
            auto: self.auto,
            no_wait: self.no_wait,
        }
    }
}

// ---------------------------------------------------------------------------
// The procedure's state
// ---------------------------------------------------------------------------

/// Where the provisioning stands. Positions count the nodes of the plan.
pub enum PlayStage<S> {
    /// The address of a node is being asked for, after so many vain attempts.
    Fetching(usize, usize),
    /// A pause before the address of a node is asked for again.
    Pausing(usize, usize),
    /// The address of the provisioner is being asked for.
    FetchingJump(usize),
    PausingJump(usize),
    /// containerd is being checked on a node.
    Preflight(usize),
    /// May the primary node be provisioned?
    AskPrimary,
    PrimaryGuard(Guard<S>),
    /// Is the primary node initialised already?
    PrimaryCheck,
    /// The stored endpoint is being read.
    PrimaryVerify,
    PrimaryCilium(Cilium<S>),
    PrimaryInit(Init<S>),
    /// The control-plane join command is being made.
    CpJoinCommand,
    /// May a node join the control plane?
    AskCp(usize),
    CpGuard(usize, Guard<S>),
    /// Is the node part of the control plane already?
    CpCheck(usize),
    /// May the join command be run?
    AskCpJoin(usize),
    CpJoining(usize),
    /// The fingerprint of the cluster's CA is being read.
    Fingerprint,
    /// The worker join command is being made.
    WorkerJoinCommand,
    /// May a worker join?
    AskWorker(usize),
    /// Has the worker joined a cluster already?
    WorkerCheck(usize),
    /// Which cluster did it join?
    WorkerFingerprint(usize),
    WorkerGuard(usize, Guard<S>),
    WorkerJoining(usize),
    Csrs(CsrApproval<S>),
    /// The other address of the primary node is being asked for.
    AltAddress,
}

impl<S: DeepView> DeepView for PlayStage<S> {
    type V = PlayStage<S::V>;

    open spec fn deep_view(&self) -> PlayStage<S::V> {
        match *self {
            PlayStage::Fetching(i, n) => PlayStage::Fetching(i, n),
            PlayStage::Pausing(i, n) => PlayStage::Pausing(i, n),
            PlayStage::FetchingJump(n) => PlayStage::FetchingJump(n),
            PlayStage::PausingJump(n) => PlayStage::PausingJump(n),
            PlayStage::Preflight(i) => PlayStage::Preflight(i),
            PlayStage::AskPrimary => PlayStage::AskPrimary,
            PlayStage::PrimaryGuard(g) => PlayStage::PrimaryGuard(g.deep_view()),
            PlayStage::PrimaryCheck => PlayStage::PrimaryCheck,
            PlayStage::PrimaryVerify => PlayStage::PrimaryVerify,
            PlayStage::PrimaryCilium(c) => PlayStage::PrimaryCilium(c.deep_view()),
            PlayStage::PrimaryInit(i) => PlayStage::PrimaryInit(i.deep_view()),
            PlayStage::CpJoinCommand => PlayStage::CpJoinCommand,
            PlayStage::AskCp(i) => PlayStage::AskCp(i),
            PlayStage::CpGuard(i, g) => PlayStage::CpGuard(i, g.deep_view()),
            PlayStage::CpCheck(i) => PlayStage::CpCheck(i),
            PlayStage::AskCpJoin(i) => PlayStage::AskCpJoin(i),
            PlayStage::CpJoining(i) => PlayStage::CpJoining(i),
            PlayStage::Fingerprint => PlayStage::Fingerprint,
            PlayStage::WorkerJoinCommand => PlayStage::WorkerJoinCommand,
            PlayStage::AskWorker(i) => PlayStage::AskWorker(i),
            PlayStage::WorkerCheck(i) => PlayStage::WorkerCheck(i),
            PlayStage::WorkerFingerprint(i) => PlayStage::WorkerFingerprint(i),
            PlayStage::WorkerGuard(i, g) => PlayStage::WorkerGuard(i, g.deep_view()),
            PlayStage::WorkerJoining(i) => PlayStage::WorkerJoining(i),
            PlayStage::Csrs(c) => PlayStage::Csrs(c.deep_view()),
            PlayStage::AltAddress => PlayStage::AltAddress,
        }
    }
}

/// The provisioning of a cluster.
pub struct Play {
    pub plan: PlayPlan,
    /// The addresses of the nodes, as far as they are known.
    pub ips: Vec<String>,
    /// The address of the jump host.
    pub jump_ip: String,
    /// The endpoint of the cluster.
    pub endpoint: String,
    /// How a node joins the control plane; empty where that is not known.
    pub cp_join: String,
    /// How a worker joins; empty where that is not known.
    pub worker_join: String,
    /// The fingerprint of the cluster's CA.
    pub fingerprint: Option<String>,
    pub stage: PlayStage<String>,
}

pub struct PlayModel {
    pub plan: PlanModel,
    pub ips: Seq<Seq<char>>,
    pub jump_ip: Seq<char>,
    pub endpoint: Seq<char>,
    pub cp_join: Seq<char>,
    pub worker_join: Seq<char>,
    pub fingerprint: Option<Seq<char>>,
    pub stage: PlayStage<Seq<char>>,
}

impl DeepView for Play {
    type V = PlayModel;

    open spec fn deep_view(&self) -> PlayModel {
        PlayModel {
            plan: self.plan.deep_view(),
            ips: self.ips.deep_view(),
            jump_ip: self.jump_ip@,
            endpoint: self.endpoint@,
            cp_join: self.cp_join@,
            worker_join: self.worker_join@,
            fingerprint: self.fingerprint.deep_view(),
            stage: self.stage.deep_view(),
        }
    }
}

pub type PlayStep = (Progress<PlayModel, Seq<char>>, Log);

// ---------------------------------------------------------------------------
// Well-formedness
// ---------------------------------------------------------------------------

/// There is a primary node.
pub open spec fn has_primary(m: PlayModel) -> bool {
    1 <= m.plan.cp_count <= m.plan.nodes.len() && m.plan.nodes.len() <= usize::MAX
}

/// The addresses of all nodes are known.
pub open spec fn settled(m: PlayModel) -> bool {
    has_primary(m) && m.ips.len() == m.plan.nodes.len()
}

/// The position in the stage is that of a node of the right kind.
pub open spec fn play_wf(m: PlayModel) -> bool {
    match m.stage {
        PlayStage::Fetching(i, n) => has_primary(m) && i < m.plan.nodes.len() && m.ips.len() == i && n <= 30,
        PlayStage::Pausing(i, n) => has_primary(m) && i < m.plan.nodes.len() && m.ips.len() == i && n < 30,
        PlayStage::FetchingJump(n) => settled(m) && n <= 30,
        PlayStage::PausingJump(n) => settled(m) && n < 30,
        PlayStage::Preflight(i) => settled(m) && i < m.plan.nodes.len(),
        PlayStage::AskCp(i) => settled(m) && i < m.plan.cp_count,
        PlayStage::CpGuard(i, _) => settled(m) && i < m.plan.cp_count,
        PlayStage::CpCheck(i) => settled(m) && i < m.plan.cp_count,
        PlayStage::AskCpJoin(i) => settled(m) && i < m.plan.cp_count,
        PlayStage::CpJoining(i) => settled(m) && i < m.plan.cp_count,
        PlayStage::AskWorker(i) => settled(m) && m.plan.cp_count <= i < m.plan.nodes.len(),
        PlayStage::WorkerCheck(i) => settled(m) && m.plan.cp_count <= i < m.plan.nodes.len(),
        PlayStage::WorkerFingerprint(i) => settled(m) && m.plan.cp_count <= i < m.plan.nodes.len(),
        PlayStage::WorkerGuard(i, _) => settled(m) && m.plan.cp_count <= i < m.plan.nodes.len(),
        PlayStage::WorkerJoining(i) => settled(m) && m.plan.cp_count <= i < m.plan.nodes.len(),
        _ => settled(m),
    }
}

// ---------------------------------------------------------------------------
// Routes
// ---------------------------------------------------------------------------

/// Whether the cluster is highly available.
pub open spec fn is_ha(cp_count: usize) -> bool {
    cp_count >= 3
}

/// The jump host: the provisioner, or the primary node where none is
/// configured.
pub open spec fn jump_name(m: PlayModel) -> Seq<char> {
    match m.plan.provisioner {
        Some(p) => p.node,
        None => m.plan.nodes[0].0,
    }
}

/// Whether the jump host is reached by its public address.
pub open spec fn jump_public(m: PlayModel) -> bool {
    match m.plan.provisioner {
        Some(p) => p.provisioner_type == "public"@,
        None => m.plan.nodes[0].1,
    }
}

/// The jump host for the primary node: a configured, public provisioner.
pub open spec fn primary_route(m: PlayModel) -> Option<Seq<char>> {
    if m.plan.provisioner is Some && jump_public(m) {
        Some(m.jump_ip)
    } else {
        None
    }
}

/// The jump host for a node: a node that is not reached by a public address
/// is reached through a public jump host, where there is one.
pub open spec fn route(m: PlayModel, public: bool) -> Option<Seq<char>> {
    if !public && jump_public(m) {
        Some(m.jump_ip)
    } else {
        None
    }
}

/// Whether the first of `nodes` called `name` is reached by its public
/// address.
pub open spec fn first_public(nodes: Seq<Target>, name: Seq<char>) -> bool
    decreases nodes.len(),
{
    if nodes.len() == 0 {
        true
    } else if nodes[0].0 == name {
        nodes[0].1
    } else {
        first_public(nodes.skip(1), name)
    }
}

/// The nodes of the same type as the one at position `i`.
pub open spec fn peers(m: PlayModel, i: int) -> Seq<Target> {
    if i < m.plan.cp_count {
        m.plan.nodes.subrange(0, m.plan.cp_count as int)
    } else {
        m.plan.nodes.subrange(m.plan.cp_count as int, m.plan.nodes.len() as int)
    }
}

/// The line that shows the route to a node.
pub open spec fn routed(m: PlayModel, public: bool, log: Log) -> Log {
    match route(m, public) {
        Some(_) => log.push(
            Note::Say("    (routing through "@ + jump_name(m) + " @ "@ + m.jump_ip + " via ProxyJump)"@),
        ),
        None => log,
    }
}

// ---------------------------------------------------------------------------
// Fetching addresses
// ---------------------------------------------------------------------------

/// Whether a provider's answer is an address.
pub open spec fn usable(ip: Seq<char>) -> bool {
    trimmed(ip).len() > 0 && !same_ignoring_case(ip, "null"@)
}

/// The address of node `i` is asked for.
pub open spec fn fetch(m: PlayModel, i: int, tries: int, log: Log) -> PlayStep {
    (
        Progress::Wait(
            PlayModel { stage: PlayStage::Fetching(i as usize, tries as usize), ..m },
            Action::Address {
                instance: id_or_name(m.plan.instances, m.plan.nodes[i].0),
                prefer_public: m.plan.nodes[i].1,
            },
        ),
        log,
    )
}

/// The address of node `i` is known.
pub open spec fn fetched(m: PlayModel, i: int, ip: Seq<char>, log: Log) -> PlayStep {
    let more = PlayModel { ips: m.ips.push(ip), ..m };
    let told = log.push(Note::Say(address_line(m.plan.nodes[i].0, ip, m.plan.nodes[i].1)));
    if i + 1 < m.plan.nodes.len() {
        fetch(more, i + 1, 0, told)
    } else {
        all_fetched(more, told)
    }
}

/// The address of the provisioner is asked for.
pub open spec fn fetch_jump(m: PlayModel, p: ProvisionerModel, tries: int, log: Log) -> PlayStep {
    (
        Progress::Wait(
            PlayModel { stage: PlayStage::FetchingJump(tries as usize), ..m },
            Action::Address {
                instance: id_or_name(m.plan.instances, p.node),
                prefer_public: p.provisioner_type == "public"@,
            },
        ),
        log,
    )
}

/// The addresses of all nodes are known.
pub open spec fn all_fetched(m: PlayModel, log: Log) -> PlayStep {
    let told = log.push(Note::Say("  SSH user: "@ + m.plan.user + "  private key: "@ + m.plan.key));
    match m.plan.provisioner {
        Some(p) => fetch_jump(
            m,
            p,
            0,
            told.push(
                Note::Say(
                    "\n  Provisioner node configured: "@ + p.node + " ("@ + p.provisioner_type + ")"@,
                ),
            ),
        ),
        None => located(PlayModel { jump_ip: m.ips[0], ..m }, told),
    }
}

/// The lines that show the SANs.
pub open spec fn san_lines(sans: Seq<Seq<char>>, log: Log) -> Log
    decreases sans.len(),
{
    if sans.len() == 0 {
        log
    } else {
        san_lines(sans.drop_last(), log).push(Note::Say("    - "@ + sans.last()))
    }
}

/// What the operator reads about the endpoint and the SANs.
pub open spec fn endpoint_lines(m: PlayModel, endpoint: Seq<char>, log: Log) -> Log {
    let shown = log.push(Note::Say("\n  control-plane-endpoint: "@ + endpoint));
    let sans = if m.plan.cert_sans.len() == 0 {
        shown
    } else {
        san_lines(m.plan.cert_sans, shown.push(Note::Say("  apiServer certSANs:"@)))
    };
    if is_ha(m.plan.cp_count) && points_at(endpoint, m.ips[0]) {
        sans.push(
            Note::Warn(
                "\n  ⚠  WARNING: control-plane-endpoint is set to the primary node's own \
                 IP ("@ + endpoint
                    + ").\n\
                     This works but is not truly highly available — if that node is lost \
                     the API server becomes unreachable.\n\
                     Consider adding a load-balancer and setting 'control-plane-endpoint' \
                     in the relevant spec block of your config."@,
            ),
        )
    } else {
        sans
    }
}

/// All addresses are known: settle the endpoint and check containerd.
pub open spec fn located(m: PlayModel, log: Log) -> PlayStep {
    let endpoint = cluster_endpoint(m.plan.endpoint, m.ips[0]);
    preflight(
        PlayModel { endpoint, ..m },
        0,
        endpoint_lines(m, endpoint, log).push(
            Note::Say("\n━━ Preflight check — Verifying containerd on all nodes ━━━━━━━━━━━━━━"@),
        ).push(Note::Say("\n  Control-plane nodes:"@)),
    )
}

// ---------------------------------------------------------------------------
// Preflight check
// ---------------------------------------------------------------------------

/// containerd is checked on node `i`.
pub open spec fn preflight(m: PlayModel, i: int, log: Log) -> PlayStep {
    (
        Progress::Wait(
            PlayModel { stage: PlayStage::Preflight(i as usize), ..m },
            Action::Containerd {
                ip: m.ips[i],
                name: m.plan.nodes[i].0,
                jump: route(m, first_public(peers(m, i), m.plan.nodes[i].0)),
                wait: !m.plan.no_wait,
            },
        ),
        log,
    )
}

/// containerd runs on node `i`.
pub open spec fn checked(m: PlayModel, i: int, log: Log) -> PlayStep {
    let ticked = log.push(Note::Say("    ✓ "@ + m.plan.nodes[i].0));
    let told = if i + 1 == m.plan.cp_count {
        ticked.push(Note::Say("\n  Worker nodes:"@))
    } else {
        ticked
    };
    if i + 1 < m.plan.nodes.len() {
        preflight(m, i + 1, told)
    } else {
        ready(m, told)
    }
}

// ---------------------------------------------------------------------------
// The primary node
// ---------------------------------------------------------------------------

/// The command that tells whether a node runs a control plane.
pub const INIT_CHECK: &'static str = "test -f /etc/kubernetes/admin.conf && echo yes || echo no";

/// All nodes are ready: provision the primary node, with approval.
pub open spec fn ready(m: PlayModel, log: Log) -> PlayStep {
    let name = m.plan.nodes[0].0;
    let question = "  SSH-check and provision "@ + name + "?"@;
    let told = log.push(Note::Say("\n  ✓ All nodes ready for provisioning.\n"@)).push(
        Note::Say("\n━━ Step 1 / 3 — Primary control-plane init ("@ + name + ") ━━━━━━━━━━━━"@),
    ).push(Note::Say("\n  ["@ + name + "]  ("@ + m.ips[0] + ")"@));
    if m.plan.auto {
        primary(m, told.push(Note::Say(question + AUTO_APPROVED@)))
    } else {
        (
            Progress::Wait(PlayModel { stage: PlayStage::AskPrimary, ..m }, Action::Confirm(question)),
            told,
        )
    }
}

/// The check that the endpoint resolves on node `i`.
pub open spec fn node_guard(m: PlayModel, i: int, jump: Option<Seq<char>>) -> GuardModel {
    Guard {
        node: m.plan.nodes[i].0,
        host: host_of(m.endpoint),
        fallback: m.ips[0],
        ip: m.ips[i],
        jump,
        auto: m.plan.auto,
        stage: GuardStage::Lookup,
    }
}

/// The endpoint is checked on the primary node.
pub open spec fn primary(m: PlayModel, log: Log) -> PlayStep {
    primary_guard(m, guard_begin(node_guard(m, 0, primary_route(m)), log))
}

/// A command's output on the primary node is wanted.
pub open spec fn ask_primary_for(
    m: PlayModel,
    stage: PlayStage<Seq<char>>,
    command: Seq<char>,
    log: Log,
) -> PlayStep {
    (
        Progress::Wait(
            PlayModel { stage, ..m },
            Action::Capture { ip: m.ips[0], jump: primary_route(m), command },
        ),
        log,
    )
}

/// The endpoint check's progress on the primary node.
pub open spec fn primary_guard(m: PlayModel, s: GuardStep) -> PlayStep {
    match s.0 {
        Progress::Wait(g, a) => (Progress::Wait(PlayModel { stage: PlayStage::PrimaryGuard(g), ..m }, a), s.1),
        Progress::Done => ask_primary_for(m, PlayStage::PrimaryCheck, INIT_CHECK@, s.1),
        Progress::Failed(e) => (Progress::Failed(e), s.1),
    }
}

/// It is known whether the primary node is initialised.
pub open spec fn primary_checked(m: PlayModel, answer: Seq<char>, log: Log) -> PlayStep {
    if trimmed(answer) == "yes"@ {
        let told = log.push(
            Note::Say(
                "  ✓ "@ + m.plan.nodes[0].0 + " already initialised — skipping kubeadm init."@,
            ),
        );
        if is_ha(m.plan.cp_count) {
            ask_primary_for(
                m,
                PlayStage::PrimaryVerify,
                STORED_ENDPOINT_COMMAND@,
                told.push(Note::Say("  Verifying controlPlaneEndpoint in kubeadm-config …"@)),
            )
        } else {
            primary_network(m, told)
        }
    } else {
        primary_init(
            m,
            init_begin(
                Init {
                    ip: m.ips[0],
                    name: m.plan.nodes[0].0,
                    jump: primary_route(m),
                    is_ha: is_ha(m.plan.cp_count),
                    auto: m.plan.auto,
                    stage: InitStage::Writing,
                },
                m.endpoint,
                m.plan.cert_sans,
                log,
            ),
        )
    }
}

/// The stored endpoint was read.
pub open spec fn primary_verified(m: PlayModel, output: Seq<char>, log: Log) -> PlayStep {
    let stored = stored_endpoint(output);
    if stored.len() == 0 {
        (Progress::Failed(no_endpoint_message(m.plan.nodes[0].0, m.endpoint)), log)
    } else {
        primary_network(m, endpoint_notes(stored, m.endpoint, log))
    }
}

/// The network is provisioned on the primary node.
pub open spec fn primary_network(m: PlayModel, log: Log) -> PlayStep {
    primary_cilium(m, cilium_begin(m.ips[0], m.plan.nodes[0].0, primary_route(m), m.plan.auto, log))
}

/// The network's progress on the primary node.
pub open spec fn primary_cilium(m: PlayModel, s: CiliumStep) -> PlayStep {
    match s.0 {
        Progress::Wait(c, a) => (Progress::Wait(PlayModel { stage: PlayStage::PrimaryCilium(c), ..m }, a), s.1),
        Progress::Done => additional(m, s.1),
        Progress::Failed(e) => (Progress::Failed(e), s.1),
    }
}

/// The initialisation's progress on the primary node.
pub open spec fn primary_init(m: PlayModel, s: InitStep) -> PlayStep {
    match s.0 {
        Progress::Wait(i, a) => (Progress::Wait(PlayModel { stage: PlayStage::PrimaryInit(i), ..m }, a), s.1),
        Progress::Done => additional(m, s.1),
        Progress::Failed(e) => (Progress::Failed(e), s.1),
    }
}

// ---------------------------------------------------------------------------
// Additional control-plane nodes
// ---------------------------------------------------------------------------

/// The command that prints how a node joins the control plane.
pub const CP_JOIN_SCRIPT: &'static str = "\
    CERT_KEY=$(sudo kubeadm certs certificate-key) && \
    sudo kubeadm init phase upload-certs \
    --upload-certs --certificate-key \"$CERT_KEY\" \
    >/dev/null 2>&1 && \
    BASE=$(sudo kubeadm token create --print-join-command) && \
    echo \"$BASE --control-plane --certificate-key $CERT_KEY\"";

/// The primary node is done: let the other control-plane nodes join, where
/// the cluster is highly available.
pub open spec fn additional(m: PlayModel, log: Log) -> PlayStep {
    if is_ha(m.plan.cp_count) {
        ask_primary_for(
            m,
            PlayStage::CpJoinCommand,
            CP_JOIN_SCRIPT@,
            log.push(
                Note::Say(
                    "\n━━ Step 2 / 3 — Additional control-plane nodes ("@ + decimal(
                        (m.plan.cp_count - 1) as nat,
                    ) + " nodes) ━━━━━━━━━━━━━━"@,
                ),
            ),
        )
    } else {
        workers(
            m,
            log.push(
                Note::Say("\n━━ Step 2 / 3 — Additional control-plane nodes ━━━━━━━━━━━━━━━━━━━━━━━━"@),
            ).push(Note::Say("  Single-node cluster — no additional control-plane nodes to join."@)),
        )
    }
}

/// The control-plane join command came, or did not.
pub open spec fn cp_join_known(m: PlayModel, event: Event<Seq<char>>, log: Log) -> PlayStep {
    match event {
        Event::Output(command) => if command.len() > 0 {
            visit_cp(PlayModel { cp_join: command, ..m }, 1, log)
        } else {
            visit_cp(
                PlayModel { cp_join: ""@, ..m },
                1,
                log.push(
                    Note::Warn(
                        "  ✗ Empty control-plane join command from "@ + m.plan.nodes[0].0
                            + " — is it fully up?"@,
                    ),
                ),
            )
        },
        Event::Failed(e) => visit_cp(
            PlayModel { cp_join: ""@, ..m },
            1,
            log.push(Note::Warn("  ✗ Could not fetch control-plane join command: "@ + e)),
        ),
        _ => (Progress::Failed(OUT_OF_STEP@), log),
    }
}

/// Control-plane node `i` is next, with approval.
pub open spec fn visit_cp(m: PlayModel, i: int, log: Log) -> PlayStep {
    if i < m.plan.cp_count {
        let name = m.plan.nodes[i].0;
        let question = "  Check and join "@ + name + " as control-plane?"@;
        let told = log.push(
            Note::Say(
                "\n  ["@ + decimal((i + 1) as nat) + "/"@ + decimal(m.plan.cp_count as nat) + "] "@ + name
                    + "  ("@ + m.ips[i] + ")"@,
            ),
        );
        if m.plan.auto {
            join_cp(m, i, told.push(Note::Say(question + AUTO_APPROVED@)))
        } else {
            (
                Progress::Wait(
                    PlayModel { stage: PlayStage::AskCp(i as usize), ..m },
                    Action::Confirm(question),
                ),
                told,
            )
        }
    } else {
        workers(m, log)
    }
}

/// A command's output on node `i` is wanted.
pub open spec fn ask_node_for(
    m: PlayModel,
    i: int,
    stage: PlayStage<Seq<char>>,
    command: Seq<char>,
    log: Log,
) -> PlayStep {
    (
        Progress::Wait(
            PlayModel { stage, ..m },
            Action::Capture { ip: m.ips[i], jump: route(m, m.plan.nodes[i].1), command },
        ),
        log,
    )
}

/// The endpoint is checked on control-plane node `i`.
pub open spec fn join_cp(m: PlayModel, i: int, log: Log) -> PlayStep {
    let public = m.plan.nodes[i].1;
    cp_guard(m, i, guard_begin(node_guard(m, i, route(m, public)), routed(m, public, log)))
}

/// The endpoint check's progress on control-plane node `i`.
pub open spec fn cp_guard(m: PlayModel, i: int, s: GuardStep) -> PlayStep {
    match s.0 {
        Progress::Wait(g, a) => (
            Progress::Wait(PlayModel { stage: PlayStage::CpGuard(i as usize, g), ..m }, a),
            s.1,
        ),
        Progress::Done => ask_node_for(m, i, PlayStage::CpCheck(i as usize), INIT_CHECK@, s.1),
        Progress::Failed(e) => (Progress::Failed(e), s.1),
    }
}

/// It is known whether node `i` is part of the control plane.
pub open spec fn cp_checked(m: PlayModel, i: int, event: Event<Seq<char>>, log: Log) -> PlayStep {
    let name = m.plan.nodes[i].0;
    match event {
        Event::Output(answer) => if trimmed(answer) == "yes"@ {
            visit_cp(
                m,
                i + 1,
                log.push(Note::Say("  ✓ "@ + name + " already part of the control-plane — skipping."@)),
            )
        } else if m.cp_join.len() == 0 {
            visit_cp(
                m,
                i + 1,
                log.push(Note::Warn("  ✗ No join command available — skipping "@ + name + "."@)),
            )
        } else {
            let told = log.push(Note::Say("  Join command: "@ + m.cp_join));
            if m.plan.auto {
                run_cp_join(m, i, told.push(Note::Say("  Run join command?"@ + AUTO_APPROVED@)))
            } else {
                (
                    Progress::Wait(
                        PlayModel { stage: PlayStage::AskCpJoin(i as usize), ..m },
                        Action::Confirm("  Run join command?"@),
                    ),
                    told,
                )
            }
        },
        Event::Failed(e) => visit_cp(
            m,
            i + 1,
            log.push(Note::Warn("  ✗ Could not check join status on "@ + name + ": "@ + e)),
        ),
        _ => (Progress::Failed(OUT_OF_STEP@), log),
    }
}

/// Node `i` joins the control plane.
pub open spec fn run_cp_join(m: PlayModel, i: int, log: Log) -> PlayStep {
    (
        Progress::Wait(
            PlayModel { stage: PlayStage::CpJoining(i as usize), ..m },
            Action::Run {
                ip: m.ips[i],
                jump: route(m, m.plan.nodes[i].1),
                command: "sudo "@ + m.cp_join,
            },
        ),
        log.push(Note::Say("\n  Joining "@ + m.plan.nodes[i].0 + " as control-plane node …\n"@)),
    )
}

// ---------------------------------------------------------------------------
// Workers
// ---------------------------------------------------------------------------

/// The command that prints the fingerprint of the cluster's CA.
pub const FINGERPRINT_COMMAND: &'static str = "sudo openssl x509 -noout -fingerprint -sha256 \
    -in /etc/kubernetes/pki/ca.crt 2>/dev/null \
    | cut -d= -f2";

/// The command that prints how a worker joins.
pub const WORKER_JOIN_SCRIPT: &'static str = "sudo kubeadm token create --print-join-command";

/// The command that tells whether a worker has joined a cluster.
pub const JOIN_CHECK: &'static str = "test -f /etc/kubernetes/kubelet.conf && echo joined || echo not-joined";

/// The command that prints the fingerprint of the CA that a worker trusts.
pub const WORKER_FINGERPRINT_COMMAND: &'static str = "sudo awk '/certificate-authority-data/{print $2; exit}' \
    /etc/kubernetes/kubelet.conf \
    | base64 -d \
    | openssl x509 -noout -fingerprint -sha256 2>/dev/null \
    | cut -d= -f2";

/// How many workers there are.
pub open spec fn worker_count(m: PlayModel) -> nat {
    (m.plan.nodes.len() - m.plan.cp_count) as nat
}

/// The control plane is done: let the workers join.
pub open spec fn workers(m: PlayModel, log: Log) -> PlayStep {
    ask_primary_for(
        m,
        PlayStage::Fingerprint,
        FINGERPRINT_COMMAND@,
        log.push(
            Note::Say(
                "\n━━ Step 3 / 3 — Join workers ("@ + decimal(worker_count(m))
                    + " nodes) ━━━━━━━━━━━━━━━━━━━━━━━━━━━━━━━"@,
            ),
        ),
    )
}

/// The fingerprint of the cluster's CA came, or did not.
pub open spec fn fingerprint_known(m: PlayModel, event: Event<Seq<char>>, log: Log) -> PlayStep {
    match event {
        Event::Output(fp) => if trimmed(fp).len() > 0 {
            ask_primary_for(
                PlayModel { fingerprint: Some(trimmed(fp)), ..m },
                PlayStage::WorkerJoinCommand,
                WORKER_JOIN_SCRIPT@,
                log.push(Note::Say("  Cluster CA fingerprint (SHA-256): "@ + trimmed(fp))),
            )
        } else {
            ask_primary_for(
                PlayModel { fingerprint: None, ..m },
                PlayStage::WorkerJoinCommand,
                WORKER_JOIN_SCRIPT@,
                log.push(
                    Note::Warn(
                        "  ⚠  Could not determine cluster CA fingerprint from "@ + m.plan.nodes[0].0
                            + " — membership verification will be skipped."@,
                    ),
                ),
            )
        },
        Event::Failed(e) => ask_primary_for(
            PlayModel { fingerprint: None, ..m },
            PlayStage::WorkerJoinCommand,
            WORKER_JOIN_SCRIPT@,
            log.push(
                Note::Warn(
                    "  ⚠  Could not determine cluster CA fingerprint: "@ + e
                        + " — membership verification will be skipped."@,
                ),
            ),
        ),
        _ => (Progress::Failed(OUT_OF_STEP@), log),
    }
}

/// The worker join command came, or did not.
pub open spec fn worker_join_known(m: PlayModel, event: Event<Seq<char>>, log: Log) -> PlayStep {
    let first = m.plan.cp_count as int;
    match event {
        Event::Output(command) => if command.len() > 0 {
            visit_worker(PlayModel { worker_join: command, ..m }, first, log)
        } else {
            visit_worker(
                PlayModel { worker_join: ""@, ..m },
                first,
                log.push(
                    Note::Warn(
                        "  ✗ Empty worker join command from "@ + m.plan.nodes[0].0 + " — is it fully up?"@,
                    ),
                ),
            )
        },
        Event::Failed(e) => visit_worker(
            PlayModel { worker_join: ""@, ..m },
            first,
            log.push(Note::Warn("  ✗ Could not fetch worker join command: "@ + e)),
        ),
        _ => (Progress::Failed(OUT_OF_STEP@), log),
    }
}

/// Worker `i` is next, with approval.
pub open spec fn visit_worker(m: PlayModel, i: int, log: Log) -> PlayStep {
    if i < m.plan.nodes.len() {
        let told = routed(
            m,
            m.plan.nodes[i].1,
            log.push(
                Note::Say(
                    "\n  ["@ + decimal((i - m.plan.cp_count + 1) as nat) + "/"@ + decimal(worker_count(m))
                        + "] "@ + m.plan.nodes[i].0 + "  ("@ + m.ips[i] + ")"@,
                ),
            ),
        );
        if m.plan.auto {
            ask_node_for(
                m,
                i,
                PlayStage::WorkerCheck(i as usize),
                JOIN_CHECK@,
                told.push(Note::Say("  Check and join?"@ + AUTO_APPROVED@)),
            )
        } else {
            (
                Progress::Wait(
                    PlayModel { stage: PlayStage::AskWorker(i as usize), ..m },
                    Action::Confirm("  Check and join?"@),
                ),
                told,
            )
        }
    } else {
        finale(m, log)
    }
}

/// It is known whether worker `i` has joined a cluster.
pub open spec fn worker_checked(m: PlayModel, i: int, event: Event<Seq<char>>, log: Log) -> PlayStep {
    let name = m.plan.nodes[i].0;
    match event {
        Event::Output(answer) => if trimmed(answer) == "joined"@ {
            match m.fingerprint {
                Some(_) => ask_node_for(
                    m,
                    i,
                    PlayStage::WorkerFingerprint(i as usize),
                    WORKER_FINGERPRINT_COMMAND@,
                    log,
                ),
                None => visit_worker(
                    m,
                    i + 1,
                    log.push(
                        Note::Say(
                            "  ✓ "@ + name
                                + " already has kubelet.conf — skipping (CA fingerprint verification unavailable)."@,
                        ),
                    ),
                ),
            }
        } else {
            join_worker(m, i, log)
        },
        Event::Failed(e) => join_worker(
            m,
            i,
            log.push(Note::Warn("  ⚠  Could not check join status on "@ + name + ": "@ + e)),
        ),
        _ => (Progress::Failed(OUT_OF_STEP@), log),
    }
}

/// What the operator reads about a worker that has joined a cluster: this
/// one, another one, or one that cannot be told.
pub open spec fn membership(name: Seq<char>, expected: Seq<char>, event: Event<Seq<char>>) -> Note<Seq<char>> {
    match event {
        Event::Output(fp) => if trimmed(fp) == expected {
            Note::Say(
                "  ✓ "@ + name + " already joined to this cluster (CA fingerprint verified) — skipping."@,
            )
        } else if trimmed(fp).len() > 0 {
            Note::Warn(
                "  ✗ "@ + name + " is joined to a DIFFERENT cluster!\nExpected CA fingerprint : "@ + expected
                    + "\nNode CA fingerprint     : "@ + trimmed(fp)
                    + "\nRefusing to re-join — manual intervention required \
                     (reset the node with `sudo kubeadm reset` first)."@,
            )
        } else {
            Note::Warn(
                "  ⚠  "@ + name
                    + " has kubelet.conf but the CA fingerprint could not be extracted — skipping to avoid \
                     overwriting an existing cluster member."@,
            )
        },
        Event::Failed(e) => Note::Warn(
            "  ⚠  "@ + name + " has kubelet.conf but CA fingerprint verification failed ("@ + e
                + ") — skipping to avoid overwriting an existing cluster member."@,
        ),
        _ => Note::Say(""@),
    }
}

/// It is known which cluster worker `i` has joined.
pub open spec fn worker_identified(m: PlayModel, i: int, event: Event<Seq<char>>, log: Log) -> PlayStep {
    match (m.fingerprint, event) {
        (Some(expected), Event::Output(_)) => visit_worker(
            m,
            i + 1,
            log.push(membership(m.plan.nodes[i].0, expected, event)),
        ),
        (Some(expected), Event::Failed(_)) => visit_worker(
            m,
            i + 1,
            log.push(membership(m.plan.nodes[i].0, expected, event)),
        ),
        _ => (Progress::Failed(OUT_OF_STEP@), log),
    }
}

/// The endpoint is checked on worker `i`.
pub open spec fn join_worker(m: PlayModel, i: int, log: Log) -> PlayStep {
    worker_guard(m, i, guard_begin(node_guard(m, i, route(m, m.plan.nodes[i].1)), log))
}

/// The endpoint check's progress on worker `i`.
pub open spec fn worker_guard(m: PlayModel, i: int, s: GuardStep) -> PlayStep {
    match s.0 {
        Progress::Wait(g, a) => (
            Progress::Wait(PlayModel { stage: PlayStage::WorkerGuard(i as usize, g), ..m }, a),
            s.1,
        ),
        Progress::Done => run_worker_join(m, i, s.1),
        Progress::Failed(e) => (Progress::Failed(e), s.1),
    }
}

/// Worker `i` joins, where it is known how.
pub open spec fn run_worker_join(m: PlayModel, i: int, log: Log) -> PlayStep {
    let name = m.plan.nodes[i].0;
    if m.worker_join.len() == 0 {
        visit_worker(
            m,
            i + 1,
            log.push(Note::Warn("  ✗ No join command available — skipping "@ + name + "."@)),
        )
    } else {
        (
            Progress::Wait(
                PlayModel { stage: PlayStage::WorkerJoining(i as usize), ..m },
                Action::Run {
                    ip: m.ips[i],
                    jump: route(m, m.plan.nodes[i].1),
                    command: "sudo "@ + m.worker_join,
                },
            ),
            log.push(Note::Say("  Join command: "@ + m.worker_join)).push(
                Note::Say("\n  Joining "@ + name + " …\n"@),
            ),
        )
    }
}

// ---------------------------------------------------------------------------
// The end
// ---------------------------------------------------------------------------

/// All nodes were visited: approve pending CSRs.
pub open spec fn finale(m: PlayModel, log: Log) -> PlayStep {
    final_csrs(
        m,
        csr_begin(
            m.ips[0],
            primary_route(m),
            m.plan.auto,
            true,
            log.push(
                Note::Say("\n━━ Final step — Approve pending CSRs from worker nodes ━━━━━━━━━━━━━━━━━━"@),
            ),
        ),
    )
}

/// The approval's progress.
pub open spec fn final_csrs(m: PlayModel, s: CsrStep) -> PlayStep {
    match s.0 {
        Progress::Wait(c, a) => (Progress::Wait(PlayModel { stage: PlayStage::Csrs(c), ..m }, a), s.1),
        Progress::Done => (
            Progress::Wait(
                PlayModel { stage: PlayStage::AltAddress, ..m },
                Action::Address {
                    instance: id_or_name(m.plan.instances, m.plan.nodes[0].0),
                    prefer_public: !m.plan.nodes[0].1,
                },
            ),
            s.1.push(Note::Say("\n✓ Cluster provisioning complete!"@)).push(
                Note::Say("\n  Verify from the primary control-plane:"@),
            ),
        ),
        Progress::Failed(e) => (Progress::Failed(e), s.1),
    }
}

/// The lines that show how to look at the cluster by one address.
pub open spec fn look_lines(m: PlayModel, label: Seq<char>, ip: Seq<char>, log: Log) -> Log {
    log.push(Note::Say("\n  Using "@ + label + " IP:"@)).push(
        Note::Say("    ssh -i "@ + m.plan.key + " "@ + m.plan.user + "@"@ + ip + " \\"@),
    ).push(Note::Say("      sudo kubectl --kubeconfig /etc/kubernetes/admin.conf get po -A -o wide"@))
}

/// The other address of the primary node, or what stands for it.
pub open spec fn alt_address(m: PlayModel, event: Event<Seq<char>>) -> Seq<char> {
    match event {
        Event::Output(ip) => ip,
        _ => if m.plan.nodes[0].1 {
            "<private-ip>"@
        } else {
            "<public-ip>"@
        },
    }
}

/// The cluster is up: show how to look at it.
pub open spec fn shown(m: PlayModel, event: Event<Seq<char>>, log: Log) -> PlayStep {
    let public = m.plan.nodes[0].1;
    (
        Progress::Done,
        look_lines(m, kind(!public), alt_address(m, event), look_lines(m, kind(public), m.ips[0], log)),
    )
}

// ---------------------------------------------------------------------------
// The transition
// ---------------------------------------------------------------------------

/// The next control-plane node, after a line about this one.
pub open spec fn next_cp(m: PlayModel, i: int, note: Note<Seq<char>>, log: Log) -> PlayStep {
    visit_cp(m, i + 1, log.push(note))
}

/// The next worker, after a line about this one.
pub open spec fn next_worker(m: PlayModel, i: int, note: Note<Seq<char>>, log: Log) -> PlayStep {
    visit_worker(m, i + 1, log.push(note))
}

/// What the provisioning does when it is told the outcome of its action.
pub open spec fn play_next(m: PlayModel, event: Event<Seq<char>>, log: Log) -> PlayStep {
    match (m.stage, event) {
        (PlayStage::Fetching(i, n), Event::Output(ip)) => if n >= 30 || usable(ip) {
            fetched(m, i as int, ip, log)
        } else {
            (Progress::Wait(PlayModel { stage: PlayStage::Pausing(i, n), ..m }, Action::Pause(2)), log)
        },
        (PlayStage::Fetching(i, n), Event::Failed(e)) => if n >= 30 {
            (Progress::Failed(e), log)
        } else {
            (Progress::Wait(PlayModel { stage: PlayStage::Pausing(i, n), ..m }, Action::Pause(2)), log)
        },
        (PlayStage::Pausing(i, n), Event::Finished) => fetch(m, i as int, n + 1, log),
        (PlayStage::FetchingJump(n), Event::Output(ip)) => if n >= 30 || usable(ip) {
            located(PlayModel { jump_ip: ip, ..m }, log.push(Note::Say("    IP: "@ + ip)))
        } else {
            (Progress::Wait(PlayModel { stage: PlayStage::PausingJump(n), ..m }, Action::Pause(2)), log)
        },
        (PlayStage::FetchingJump(n), Event::Failed(e)) => if n >= 30 {
            (Progress::Failed(e), log)
        } else {
            (Progress::Wait(PlayModel { stage: PlayStage::PausingJump(n), ..m }, Action::Pause(2)), log)
        },
        (PlayStage::PausingJump(n), Event::Finished) => match m.plan.provisioner {
            Some(p) => fetch_jump(m, p, n + 1, log),
            None => (Progress::Failed(OUT_OF_STEP@), log),
        },
        (PlayStage::Preflight(i), Event::Finished) => checked(m, i as int, log),
        (PlayStage::Preflight(_), Event::Failed(e)) => (Progress::Failed(e), log),
        (PlayStage::AskPrimary, Event::Answer(yes)) => if yes {
            primary(m, log)
        } else {
            additional(m, log.push(Note::Say("  Skipped."@)))
        },
        (PlayStage::PrimaryGuard(g), e) => primary_guard(m, guard_next(g, e, log)),
        (PlayStage::PrimaryCheck, Event::Output(answer)) => primary_checked(m, answer, log),
        (PlayStage::PrimaryCheck, Event::Failed(e)) => (Progress::Failed(e), log),
        (PlayStage::PrimaryVerify, Event::Output(output)) => primary_verified(m, output, log),
        (PlayStage::PrimaryVerify, Event::Failed(_)) => primary_verified(m, ""@, log),
        (PlayStage::PrimaryCilium(c), e) => primary_cilium(m, cilium_next(c, e, log)),
        (PlayStage::PrimaryInit(i), e) => primary_init(m, init_next(i, e, log)),
        (PlayStage::CpJoinCommand, e) => cp_join_known(m, e, log),
        (PlayStage::AskCp(i), Event::Answer(yes)) => if yes {
            join_cp(m, i as int, log)
        } else {
            next_cp(m, i as int, Note::Say("  Skipped."@), log)
        },
        (PlayStage::CpGuard(i, g), e) => cp_guard(m, i as int, guard_next(g, e, log)),
        (PlayStage::CpCheck(i), e) => cp_checked(m, i as int, e, log),
        (PlayStage::AskCpJoin(i), Event::Answer(yes)) => if yes {
            run_cp_join(m, i as int, log)
        } else {
            next_cp(m, i as int, Note::Say("  Skipped."@), log)
        },
        (PlayStage::CpJoining(i), Event::Finished) => next_cp(
            m,
            i as int,
            Note::Say("\n  ✓ "@ + m.plan.nodes[i as int].0 + " joined as control-plane."@),
            log,
        ),
        (PlayStage::CpJoining(i), Event::Failed(e)) => next_cp(
            m,
            i as int,
            Note::Warn("\n  ✗ Failed to join "@ + m.plan.nodes[i as int].0 + ": "@ + e),
            log,
        ),
        (PlayStage::Fingerprint, e) => fingerprint_known(m, e, log),
        (PlayStage::WorkerJoinCommand, e) => worker_join_known(m, e, log),
        (PlayStage::AskWorker(i), Event::Answer(yes)) => if yes {
            ask_node_for(m, i as int, PlayStage::WorkerCheck(i), JOIN_CHECK@, log)
        } else {
            next_worker(m, i as int, Note::Say("  Skipped."@), log)
        },
        (PlayStage::WorkerCheck(i), e) => worker_checked(m, i as int, e, log),
        (PlayStage::WorkerFingerprint(i), e) => worker_identified(m, i as int, e, log),
        (PlayStage::WorkerGuard(i, g), e) => worker_guard(m, i as int, guard_next(g, e, log)),
        (PlayStage::WorkerJoining(i), Event::Finished) => next_worker(
            m,
            i as int,
            Note::Say("\n  ✓ "@ + m.plan.nodes[i as int].0 + " joined."@),
            log,
        ),
        (PlayStage::WorkerJoining(i), Event::Failed(e)) => next_worker(
            m,
            i as int,
            Note::Warn("  ✗ Failed to join "@ + m.plan.nodes[i as int].0 + ": "@ + e),
            log,
        ),
        (PlayStage::Csrs(c), e) => final_csrs(m, csr_next(c, e, log)),
        (PlayStage::AltAddress, Event::Output(_)) => shown(m, event, log),
        (PlayStage::AltAddress, Event::Failed(_)) => shown(m, event, log),
        _ => (Progress::Failed(OUT_OF_STEP@), log),
    }
}

/// Where the provisioning waits, it is well-formed.
pub open spec fn step_wf(s: PlayStep) -> bool {
    s.0 matches Progress::Wait(n, _) ==> play_wf(n)
}

proof fn lemma_fetching_wf(m: PlayModel, event: Event<Seq<char>>, log: Log)
    requires
        play_wf(m),
        m.stage is Fetching || m.stage is Pausing,
    ensures
        step_wf(play_next(m, event, log)),
{
}

proof fn lemma_jump_wf(m: PlayModel, event: Event<Seq<char>>, log: Log)
    requires
        play_wf(m),
        m.stage is FetchingJump || m.stage is PausingJump,
    ensures
        step_wf(play_next(m, event, log)),
{
}

proof fn lemma_preflight_wf(m: PlayModel, event: Event<Seq<char>>, log: Log)
    requires
        play_wf(m),
        m.stage is Preflight,
    ensures
        step_wf(play_next(m, event, log)),
{
}

proof fn lemma_ask_primary_wf(m: PlayModel, event: Event<Seq<char>>, log: Log)
    requires
        play_wf(m),
        m.stage is AskPrimary,
    ensures
        step_wf(play_next(m, event, log)),
{
}

proof fn lemma_primary_guard_wf(m: PlayModel, event: Event<Seq<char>>, log: Log)
    requires
        play_wf(m),
        m.stage is PrimaryGuard,
    ensures
        step_wf(play_next(m, event, log)),
{
}

proof fn lemma_primary_check_wf(m: PlayModel, event: Event<Seq<char>>, log: Log)
    requires
        play_wf(m),
        m.stage is PrimaryCheck || m.stage is PrimaryVerify,
    ensures
        step_wf(play_next(m, event, log)),
{
}

proof fn lemma_primary_cilium_wf(m: PlayModel, event: Event<Seq<char>>, log: Log)
    requires
        play_wf(m),
        m.stage is PrimaryCilium,
    ensures
        step_wf(play_next(m, event, log)),
{
}

proof fn lemma_primary_init_wf(m: PlayModel, event: Event<Seq<char>>, log: Log)
    requires
        play_wf(m),
        m.stage is PrimaryInit,
    ensures
        step_wf(play_next(m, event, log)),
{
}

proof fn lemma_cp_command_wf(m: PlayModel, event: Event<Seq<char>>, log: Log)
    requires
        play_wf(m),
        m.stage is CpJoinCommand,
    ensures
        step_wf(play_next(m, event, log)),
{
}

proof fn lemma_ask_cp_wf(m: PlayModel, event: Event<Seq<char>>, log: Log)
    requires
        play_wf(m),
        m.stage is AskCp,
    ensures
        step_wf(play_next(m, event, log)),
{
}

proof fn lemma_cp_guard_wf(m: PlayModel, event: Event<Seq<char>>, log: Log)
    requires
        play_wf(m),
        m.stage is CpGuard,
    ensures
        step_wf(play_next(m, event, log)),
{
}

proof fn lemma_cp_check_wf(m: PlayModel, event: Event<Seq<char>>, log: Log)
    requires
        play_wf(m),
        m.stage is CpCheck,
    ensures
        step_wf(play_next(m, event, log)),
{
}

proof fn lemma_cp_join_wf(m: PlayModel, event: Event<Seq<char>>, log: Log)
    requires
        play_wf(m),
        m.stage is AskCpJoin || m.stage is CpJoining,
    ensures
        step_wf(play_next(m, event, log)),
{
}

proof fn lemma_worker_command_wf(m: PlayModel, event: Event<Seq<char>>, log: Log)
    requires
        play_wf(m),
        m.stage is Fingerprint || m.stage is WorkerJoinCommand,
    ensures
        step_wf(play_next(m, event, log)),
{
}

proof fn lemma_ask_worker_wf(m: PlayModel, event: Event<Seq<char>>, log: Log)
    requires
        play_wf(m),
        m.stage is AskWorker,
    ensures
        step_wf(play_next(m, event, log)),
{
}

proof fn lemma_worker_check_wf(m: PlayModel, event: Event<Seq<char>>, log: Log)
    requires
        play_wf(m),
        m.stage is WorkerCheck,
    ensures
        step_wf(play_next(m, event, log)),
{
}

proof fn lemma_worker_join_wf(m: PlayModel, event: Event<Seq<char>>, log: Log)
    requires
        play_wf(m),
        m.stage is WorkerFingerprint || m.stage is WorkerJoining,
    ensures
        step_wf(play_next(m, event, log)),
{
}

proof fn lemma_worker_guard_wf(m: PlayModel, event: Event<Seq<char>>, log: Log)
    requires
        play_wf(m),
        m.stage is WorkerGuard,
    ensures
        step_wf(play_next(m, event, log)),
{
}

proof fn lemma_final_wf(m: PlayModel, event: Event<Seq<char>>, log: Log)
    requires
        play_wf(m),
        m.stage is Csrs || m.stage is AltAddress,
    ensures
        step_wf(play_next(m, event, log)),
{
}

/// Provisioning stays well-formed: a position is always that of a node of the
/// right kind, and no address is asked for more than thirty-one times.
pub proof fn law_play_stays_well_formed(m: PlayModel, event: Event<Seq<char>>, log: Log)
    requires
        play_wf(m),
    ensures
        step_wf(play_next(m, event, log)),
{
    match m.stage {
        PlayStage::Fetching(_, _) => lemma_fetching_wf(m, event, log),
        PlayStage::Pausing(_, _) => lemma_fetching_wf(m, event, log),
        PlayStage::FetchingJump(_) => lemma_jump_wf(m, event, log),
        PlayStage::PausingJump(_) => lemma_jump_wf(m, event, log),
        PlayStage::Preflight(_) => lemma_preflight_wf(m, event, log),
        PlayStage::AskPrimary => lemma_ask_primary_wf(m, event, log),
        PlayStage::PrimaryGuard(_) => lemma_primary_guard_wf(m, event, log),
        PlayStage::PrimaryCheck => lemma_primary_check_wf(m, event, log),
        PlayStage::PrimaryVerify => lemma_primary_check_wf(m, event, log),
        PlayStage::PrimaryCilium(_) => lemma_primary_cilium_wf(m, event, log),
        PlayStage::PrimaryInit(_) => lemma_primary_init_wf(m, event, log),
        PlayStage::CpJoinCommand => lemma_cp_command_wf(m, event, log),
        PlayStage::AskCp(_) => lemma_ask_cp_wf(m, event, log),
        PlayStage::CpGuard(_, _) => lemma_cp_guard_wf(m, event, log),
        PlayStage::CpCheck(_) => lemma_cp_check_wf(m, event, log),
        PlayStage::AskCpJoin(_) => lemma_cp_join_wf(m, event, log),
        PlayStage::CpJoining(_) => lemma_cp_join_wf(m, event, log),
        PlayStage::Fingerprint => lemma_worker_command_wf(m, event, log),
        PlayStage::WorkerJoinCommand => lemma_worker_command_wf(m, event, log),
        PlayStage::AskWorker(_) => lemma_ask_worker_wf(m, event, log),
        PlayStage::WorkerCheck(_) => lemma_worker_check_wf(m, event, log),
        PlayStage::WorkerFingerprint(_) => lemma_worker_join_wf(m, event, log),
        PlayStage::WorkerJoining(_) => lemma_worker_join_wf(m, event, log),
        PlayStage::WorkerGuard(_, _) => lemma_worker_guard_wf(m, event, log),
        PlayStage::Csrs(_) => lemma_final_wf(m, event, log),
        PlayStage::AltAddress => lemma_final_wf(m, event, log),
    }
}

/// The check of the endpoint is on node `i`, by way of `jump`: the host of
/// the endpoint has to stand for the address of the primary node.
pub open spec fn guards(m: PlayModel, g: GuardModel, i: int, jump: Option<Seq<char>>) -> bool {
    &&& g.node == m.plan.nodes[i].0
    &&& g.host == host_of(m.endpoint)
    &&& g.fallback == m.ips[0]
    &&& g.ip == m.ips[i]
    &&& g.jump == jump
    &&& g.auto == m.plan.auto
}

/// What is under way on a node goes to that node by its route, with the
/// approval of the plan.
pub open spec fn play_routed(m: PlayModel) -> bool {
    match m.stage {
        PlayStage::PrimaryGuard(g) => guards(m, g, 0, primary_route(m)),
        PlayStage::PrimaryCilium(c) => c.ip == m.ips[0] && c.jump == primary_route(m) && c.auto == m.plan.auto
            && cilium_wf(c),
        PlayStage::PrimaryInit(i) => i.ip == m.ips[0] && i.jump == primary_route(m) && i.auto == m.plan.auto
            && i.name == m.plan.nodes[0].0 && i.is_ha == (m.plan.cp_count >= 3) && init_wf(i),
        PlayStage::CpGuard(i, g) => guards(m, g, i as int, route(m, m.plan.nodes[i as int].1)),
        PlayStage::WorkerGuard(i, g) => guards(m, g, i as int, route(m, m.plan.nodes[i as int].1)),
        PlayStage::Csrs(c) => c.ip == m.ips[0] && c.jump == primary_route(m) && c.auto == m.plan.auto,
        _ => true,
    }
}

/// Whether a command goes to the primary node by its route, or to another
/// node by that node's route.
pub open spec fn on_route(m: PlayModel, action: Action<Seq<char>>) -> bool {
    goes_to(action, m.ips[0], primary_route(m)) || exists|i: int|
        0 <= i < m.plan.nodes.len() && goes_to(action, #[trigger] m.ips[i], route(m, m.plan.nodes[i].1))
}

/// Whether all addresses and the endpoint are known.
pub open spec fn is_located(stage: PlayStage<Seq<char>>) -> bool {
    !(stage is Fetching || stage is Pausing || stage is FetchingJump || stage is PausingJump)
}

/// The jump host that a node with a private address is reached through: the
/// provisioner, or the primary node where none is configured, as long as that
/// has a public address itself.
pub open spec fn jump_host(m: PlayModel) -> Option<Seq<char>> {
    match m.plan.provisioner {
        Some(p) => if p.provisioner_type == "public"@ {
            Some(m.jump_ip)
        } else {
            None
        },
        None => if m.plan.nodes[0].1 {
            Some(m.jump_ip)
        } else {
            None
        },
    }
}

/// Whether an action runs `command` on node `i`, straight where the node has a
/// public address and else through the jump host.
pub open spec fn on_node(m: PlayModel, i: int, a: Action<Seq<char>>, run: bool, command: Seq<char>) -> bool {
    let jump = if m.plan.nodes[i].1 {
        None
    } else {
        jump_host(m)
    };
    if run {
        a == (Action::Run { ip: m.ips[i], jump, command })
    } else {
        a == (Action::Capture { ip: m.ips[i], jump, command })
    }
}

/// Whether an action captures what `command` prints on the primary node, which
/// is reached through a provisioner with a public address where there is one.
pub open spec fn on_primary(m: PlayModel, a: Action<Seq<char>>, command: Seq<char>) -> bool {
    a == (Action::Capture {
        ip: m.ips[0],
        jump: if m.plan.provisioner is Some {
            jump_host(m)
        } else {
            None
        },
        command,
    })
}

/// Whether an action asks for the address of a node, under its identifier
/// where it has one.
pub open spec fn asks_address(m: PlayModel, name: Seq<char>, public: bool, a: Action<Seq<char>>) -> bool {
    a == (Action::Address {
        instance: match lookup(m.plan.instances, name) {
            Some(id) => id,
            None => name,
        },
        prefer_public: public,
    })
}

/// Whether an action is the one that belongs to the stage.
pub open spec fn play_asks(n: PlayModel, a: Action<Seq<char>>) -> bool {
    match n.stage {
        PlayStage::Fetching(i, _) => asks_address(n, n.plan.nodes[i as int].0, n.plan.nodes[i as int].1, a),
        PlayStage::Pausing(_, _) => a == Action::<Seq<char>>::Pause(2),
        PlayStage::FetchingJump(_) => n.plan.provisioner matches Some(p) && asks_address(
            n,
            p.node,
            p.provisioner_type == "public"@,
            a,
        ),
        PlayStage::PausingJump(_) => a == Action::<Seq<char>>::Pause(2),
        PlayStage::Preflight(i) => a matches Action::Containerd { ip, name, wait, .. } && ip == n.ips[i as int] && name
            == n.plan.nodes[i as int].0 && wait == !n.plan.no_wait,
        PlayStage::AskPrimary => a == Action::Confirm("  SSH-check and provision "@ + n.plan.nodes[0].0 + "?"@),
        PlayStage::PrimaryGuard(g) => guard_asks(g, a),
        PlayStage::PrimaryCheck => on_primary(
            n,
            a,
            "test -f /etc/kubernetes/admin.conf && echo yes || echo no"@,
        ),
        PlayStage::PrimaryVerify => on_primary(
            n,
            a,
            "sudo kubectl --kubeconfig=/etc/kubernetes/admin.conf \
             get configmap kubeadm-config -n kube-system \
             -o jsonpath='{.data.ClusterConfiguration}' 2>/dev/null \
             | grep 'controlPlaneEndpoint' || true"@,
        ),
        PlayStage::PrimaryCilium(c) => cilium_asks(c, a),
        PlayStage::PrimaryInit(i) => init_asks(i, a),
        PlayStage::CpJoinCommand => on_primary(
            n,
            a,
            "CERT_KEY=$(sudo kubeadm certs certificate-key) && \
             sudo kubeadm init phase upload-certs \
             --upload-certs --certificate-key \"$CERT_KEY\" \
             >/dev/null 2>&1 && \
             BASE=$(sudo kubeadm token create --print-join-command) && \
             echo \"$BASE --control-plane --certificate-key $CERT_KEY\""@,
        ),
        PlayStage::AskCp(i) => a == Action::Confirm(
            "  Check and join "@ + n.plan.nodes[i as int].0 + " as control-plane?"@,
        ),
        PlayStage::CpGuard(_, g) => guard_asks(g, a),
        PlayStage::CpCheck(i) => on_node(
            n,
            i as int,
            a,
            false,
            "test -f /etc/kubernetes/admin.conf && echo yes || echo no"@,
        ),
        PlayStage::AskCpJoin(_) => a == Action::Confirm("  Run join command?"@),
        PlayStage::CpJoining(i) => on_node(n, i as int, a, true, "sudo "@ + n.cp_join),
        PlayStage::Fingerprint => on_primary(
            n,
            a,
            "sudo openssl x509 -noout -fingerprint -sha256 \
             -in /etc/kubernetes/pki/ca.crt 2>/dev/null \
             | cut -d= -f2"@,
        ),
        PlayStage::WorkerJoinCommand => on_primary(n, a, "sudo kubeadm token create --print-join-command"@),
        PlayStage::AskWorker(_) => a == Action::Confirm("  Check and join?"@),
        PlayStage::WorkerCheck(i) => on_node(
            n,
            i as int,
            a,
            false,
            "test -f /etc/kubernetes/kubelet.conf && echo joined || echo not-joined"@,
        ),
        PlayStage::WorkerFingerprint(i) => on_node(
            n,
            i as int,
            a,
            false,
            "sudo awk '/certificate-authority-data/{print $2; exit}' \
             /etc/kubernetes/kubelet.conf \
             | base64 -d \
             | openssl x509 -noout -fingerprint -sha256 2>/dev/null \
             | cut -d= -f2"@,
        ),
        PlayStage::WorkerGuard(_, g) => guard_asks(g, a),
        PlayStage::WorkerJoining(i) => on_node(n, i as int, a, true, "sudo "@ + n.worker_join),
        PlayStage::Csrs(c) => csr_asks(c, a),
        PlayStage::AltAddress => asks_address(n, n.plan.nodes[0].0, !n.plan.nodes[0].1, a),
    }
}

/// What the provisioning learns from an event: `s` is what it came to.
///
/// An address goes to the node that it was asked for. The jump host is the
/// provisioner, or the primary node where none is configured, and the endpoint
/// is settled then. How nodes join is what the primary node printed, or nothing
/// where it printed nothing or failed, and so is the fingerprint. It is done
/// only once all of that is behind it.
pub open spec fn play_learns(m: PlayModel, event: Event<Seq<char>>, s: PlayStep) -> bool {
    &&& s.0 is Done ==> m.stage is AltAddress
    &&& s.0 matches Progress::Wait(n, _) ==> {
        &&& if m.stage is Fetching && !(n.stage is Pausing) {
            event matches Event::Output(ip) && n.ips == m.ips.push(ip)
        } else {
            n.ips == m.ips
        }
        &&& if is_located(n.stage) && !is_located(m.stage) {
            &&& n.jump_ip == (if m.stage is Fetching {
                n.ips[0]
            } else {
                event->Output_0
            })
            &&& m.stage is Fetching ==> m.plan.provisioner is None
            &&& m.stage is FetchingJump ==> event is Output
            &&& n.endpoint == cluster_endpoint(m.plan.endpoint, n.ips[0])
        } else {
            n.jump_ip == m.jump_ip && n.endpoint == m.endpoint
        }
        &&& if m.stage is CpJoinCommand {
            match event {
                Event::Output(command) => n.cp_join == command,
                _ => n.cp_join.len() == 0,
            }
        } else {
            n.cp_join == m.cp_join
        }
        &&& if m.stage is WorkerJoinCommand {
            match event {
                Event::Output(command) => n.worker_join == command,
                _ => n.worker_join.len() == 0,
            }
        } else {
            n.worker_join == m.worker_join
        }
        &&& if m.stage is Fingerprint {
            match event {
                Event::Output(fp) => if trimmed(fp).len() > 0 {
                    n.fingerprint == Some(trimmed(fp))
                } else {
                    n.fingerprint is None
                },
                _ => n.fingerprint is None,
            }
        } else {
            n.fingerprint == m.fingerprint
        }
    }
}

/// What a step of the provisioning keeps to.
pub open spec fn keeps_to(m: PlayModel, s: PlayStep) -> bool {
    s.0 matches Progress::Wait(n, a) ==> {
        &&& n.plan == m.plan
        &&& is_located(m.stage) ==> is_located(n.stage) && n.ips == m.ips && n.endpoint == m.endpoint && n.jump_ip
            == m.jump_ip
        &&& play_routed(n)
        &&& play_asks(n, a)
        &&& on_route(n, a)
        &&& joining(n.stage) matches Some(j) ==> goes_to(a, n.ips[j], route(n, n.plan.nodes[j].1))
        &&& m.plan.auto ==> !(a is Confirm)
    }
}

proof fn lemma_fetching_route(m: PlayModel, event: Event<Seq<char>>, log: Log)
    requires
        play_wf(m),
        play_routed(m),
        m.stage is Fetching || m.stage is Pausing,
    ensures
        keeps_to(m, play_next(m, event, log)),
        play_learns(m, event, play_next(m, event, log)),
{
}

proof fn lemma_jump_route(m: PlayModel, event: Event<Seq<char>>, log: Log)
    requires
        play_wf(m),
        play_routed(m),
        m.stage is FetchingJump || m.stage is PausingJump,
    ensures
        keeps_to(m, play_next(m, event, log)),
        play_learns(m, event, play_next(m, event, log)),
{
}

proof fn lemma_preflight_route(m: PlayModel, event: Event<Seq<char>>, log: Log)
    requires
        play_wf(m),
        play_routed(m),
        m.stage is Preflight,
    ensures
        keeps_to(m, play_next(m, event, log)),
        play_learns(m, event, play_next(m, event, log)),
{
}

proof fn lemma_ask_primary_route(m: PlayModel, event: Event<Seq<char>>, log: Log)
    requires
        play_wf(m),
        play_routed(m),
        m.stage is AskPrimary,
    ensures
        keeps_to(m, play_next(m, event, log)),
        play_learns(m, event, play_next(m, event, log)),
{
}

proof fn lemma_primary_guard_route(m: PlayModel, event: Event<Seq<char>>, log: Log)
    requires
        play_wf(m),
        play_routed(m),
        m.stage is PrimaryGuard,
    ensures
        keeps_to(m, play_next(m, event, log)),
        play_learns(m, event, play_next(m, event, log)),
{
    if let PlayStage::PrimaryGuard(g) = m.stage {
        law_guard_keeps_route(g, event, log);
        law_guard_needs_approval(g, event, log);
        law_guard_asks_rightly(g, event, log);
    }
}

proof fn lemma_primary_check_route(m: PlayModel, event: Event<Seq<char>>, log: Log)
    requires
        play_wf(m),
        play_routed(m),
        m.stage is PrimaryCheck || m.stage is PrimaryVerify,
    ensures
        keeps_to(m, play_next(m, event, log)),
        play_learns(m, event, play_next(m, event, log)),
{
}

proof fn lemma_primary_cilium_route(m: PlayModel, event: Event<Seq<char>>, log: Log)
    requires
        play_wf(m),
        play_routed(m),
        m.stage is PrimaryCilium,
    ensures
        keeps_to(m, play_next(m, event, log)),
        play_learns(m, event, play_next(m, event, log)),
{
    if let PlayStage::PrimaryCilium(c) = m.stage {
        law_cilium_keeps_route(c, event, log);
        law_cilium_asks_rightly(c.ip, c.name, c.jump, c.auto, c, event, log);
    }
}

proof fn lemma_primary_init_route(m: PlayModel, event: Event<Seq<char>>, log: Log)
    requires
        play_wf(m),
        play_routed(m),
        m.stage is PrimaryInit,
    ensures
        keeps_to(m, play_next(m, event, log)),
        play_learns(m, event, play_next(m, event, log)),
{
    if let PlayStage::PrimaryInit(i) = m.stage {
        law_init_keeps_route(i, event, log);
        law_init_asks_rightly(i, event, log);
    }
}

proof fn lemma_cp_command_route(m: PlayModel, event: Event<Seq<char>>, log: Log)
    requires
        play_wf(m),
        play_routed(m),
        m.stage is CpJoinCommand,
    ensures
        keeps_to(m, play_next(m, event, log)),
        play_learns(m, event, play_next(m, event, log)),
{
    reveal_strlit("");
    if let Event::Output(command) = event {
        if command.len() == 0 {
            assert(command =~= ""@);
        }
    }
}

proof fn lemma_ask_cp_route(m: PlayModel, event: Event<Seq<char>>, log: Log)
    requires
        play_wf(m),
        play_routed(m),
        m.stage is AskCp,
    ensures
        keeps_to(m, play_next(m, event, log)),
        play_learns(m, event, play_next(m, event, log)),
{
}

proof fn lemma_cp_guard_route(m: PlayModel, event: Event<Seq<char>>, log: Log)
    requires
        play_wf(m),
        play_routed(m),
        m.stage is CpGuard,
    ensures
        keeps_to(m, play_next(m, event, log)),
        play_learns(m, event, play_next(m, event, log)),
{
    if let PlayStage::CpGuard(_, g) = m.stage {
        law_guard_keeps_route(g, event, log);
        law_guard_needs_approval(g, event, log);
        law_guard_asks_rightly(g, event, log);
    }
}

proof fn lemma_cp_check_route(m: PlayModel, event: Event<Seq<char>>, log: Log)
    requires
        play_wf(m),
        play_routed(m),
        m.stage is CpCheck,
    ensures
        keeps_to(m, play_next(m, event, log)),
        play_learns(m, event, play_next(m, event, log)),
{
}

proof fn lemma_cp_join_route(m: PlayModel, event: Event<Seq<char>>, log: Log)
    requires
        play_wf(m),
        play_routed(m),
        m.stage is AskCpJoin || m.stage is CpJoining,
    ensures
        keeps_to(m, play_next(m, event, log)),
        play_learns(m, event, play_next(m, event, log)),
{
}

proof fn lemma_worker_command_route(m: PlayModel, event: Event<Seq<char>>, log: Log)
    requires
        play_wf(m),
        play_routed(m),
        m.stage is Fingerprint || m.stage is WorkerJoinCommand,
    ensures
        keeps_to(m, play_next(m, event, log)),
        play_learns(m, event, play_next(m, event, log)),
{
    reveal_strlit("");
    if let Event::Output(command) = event {
        if command.len() == 0 {
            assert(command =~= ""@);
        }
    }
}

proof fn lemma_ask_worker_route(m: PlayModel, event: Event<Seq<char>>, log: Log)
    requires
        play_wf(m),
        play_routed(m),
        m.stage is AskWorker,
    ensures
        keeps_to(m, play_next(m, event, log)),
        play_learns(m, event, play_next(m, event, log)),
{
}

proof fn lemma_worker_check_route(m: PlayModel, event: Event<Seq<char>>, log: Log)
    requires
        play_wf(m),
        play_routed(m),
        m.stage is WorkerCheck,
    ensures
        keeps_to(m, play_next(m, event, log)),
        play_learns(m, event, play_next(m, event, log)),
{
}

proof fn lemma_worker_join_route(m: PlayModel, event: Event<Seq<char>>, log: Log)
    requires
        play_wf(m),
        play_routed(m),
        m.stage is WorkerFingerprint || m.stage is WorkerJoining,
    ensures
        keeps_to(m, play_next(m, event, log)),
        play_learns(m, event, play_next(m, event, log)),
{
}

proof fn lemma_worker_guard_route(m: PlayModel, event: Event<Seq<char>>, log: Log)
    requires
        play_wf(m),
        play_routed(m),
        m.stage is WorkerGuard,
    ensures
        keeps_to(m, play_next(m, event, log)),
        play_learns(m, event, play_next(m, event, log)),
{
    if let PlayStage::WorkerGuard(_, g) = m.stage {
        law_guard_keeps_route(g, event, log);
        law_guard_needs_approval(g, event, log);
        law_guard_asks_rightly(g, event, log);
    }
}

proof fn lemma_final_route(m: PlayModel, event: Event<Seq<char>>, log: Log)
    requires
        play_wf(m),
        play_routed(m),
        m.stage is Csrs || m.stage is AltAddress,
    ensures
        keeps_to(m, play_next(m, event, log)),
        play_learns(m, event, play_next(m, event, log)),
{
    if let PlayStage::Csrs(c) = m.stage {
        law_csrs_keep_route(c, event, log);
        law_csrs_need_approval(c, event, log);
        law_csrs_ask_rightly(c.ip, c.jump, c.auto, c.requestors, c, event, log);
    }
}

/// The plan never changes; every command goes to the primary node or to
/// another node, each by its own route, and while a node joins, to that node;
/// and with blanket approval no question is put.
pub proof fn law_play_keeps_to_routes(m: PlayModel, event: Event<Seq<char>>, log: Log)
    requires
        play_wf(m),
        play_routed(m),
    ensures
        keeps_to(m, play_next(m, event, log)),
{
    match m.stage {
        PlayStage::Fetching(_, _) => lemma_fetching_route(m, event, log),
        PlayStage::Pausing(_, _) => lemma_fetching_route(m, event, log),
        PlayStage::FetchingJump(_) => lemma_jump_route(m, event, log),
        PlayStage::PausingJump(_) => lemma_jump_route(m, event, log),
        PlayStage::Preflight(_) => lemma_preflight_route(m, event, log),
        PlayStage::AskPrimary => lemma_ask_primary_route(m, event, log),
        PlayStage::PrimaryGuard(_) => lemma_primary_guard_route(m, event, log),
        PlayStage::PrimaryCheck => lemma_primary_check_route(m, event, log),
        PlayStage::PrimaryVerify => lemma_primary_check_route(m, event, log),
        PlayStage::PrimaryCilium(_) => lemma_primary_cilium_route(m, event, log),
        PlayStage::PrimaryInit(_) => lemma_primary_init_route(m, event, log),
        PlayStage::CpJoinCommand => lemma_cp_command_route(m, event, log),
        PlayStage::AskCp(_) => lemma_ask_cp_route(m, event, log),
        PlayStage::CpGuard(_, _) => lemma_cp_guard_route(m, event, log),
        PlayStage::CpCheck(_) => lemma_cp_check_route(m, event, log),
        PlayStage::AskCpJoin(_) => lemma_cp_join_route(m, event, log),
        PlayStage::CpJoining(_) => lemma_cp_join_route(m, event, log),
        PlayStage::Fingerprint => lemma_worker_command_route(m, event, log),
        PlayStage::WorkerJoinCommand => lemma_worker_command_route(m, event, log),
        PlayStage::AskWorker(_) => lemma_ask_worker_route(m, event, log),
        PlayStage::WorkerCheck(_) => lemma_worker_check_route(m, event, log),
        PlayStage::WorkerFingerprint(_) => lemma_worker_join_route(m, event, log),
        PlayStage::WorkerJoining(_) => lemma_worker_join_route(m, event, log),
        PlayStage::WorkerGuard(_, _) => lemma_worker_guard_route(m, event, log),
        PlayStage::Csrs(_) => lemma_final_route(m, event, log),
        PlayStage::AltAddress => lemma_final_route(m, event, log),
    }
}

/// Every action is the one that belongs to the stage: every node is asked for
/// its own address, and every command is run on the node that it is about.
pub proof fn law_play_asks_rightly(m: PlayModel, event: Event<Seq<char>>, log: Log)
    requires
        play_wf(m),
        play_routed(m),
    ensures
        play_next(m, event, log).0 matches Progress::Wait(n, a) ==> play_asks(n, a),
{
    law_play_keeps_to_routes(m, event, log);
}

/// What comes of an action is kept where it belongs, and nothing else changes.
pub proof fn law_play_learns(m: PlayModel, event: Event<Seq<char>>, log: Log)
    requires
        play_wf(m),
        play_routed(m),
    ensures
        play_learns(m, event, play_next(m, event, log)),
{
    match m.stage {
        PlayStage::Fetching(_, _) => lemma_fetching_route(m, event, log),
        PlayStage::Pausing(_, _) => lemma_fetching_route(m, event, log),
        PlayStage::FetchingJump(_) => lemma_jump_route(m, event, log),
        PlayStage::PausingJump(_) => lemma_jump_route(m, event, log),
        PlayStage::Preflight(_) => lemma_preflight_route(m, event, log),
        PlayStage::AskPrimary => lemma_ask_primary_route(m, event, log),
        PlayStage::PrimaryGuard(_) => lemma_primary_guard_route(m, event, log),
        PlayStage::PrimaryCheck => lemma_primary_check_route(m, event, log),
        PlayStage::PrimaryVerify => lemma_primary_check_route(m, event, log),
        PlayStage::PrimaryCilium(_) => lemma_primary_cilium_route(m, event, log),
        PlayStage::PrimaryInit(_) => lemma_primary_init_route(m, event, log),
        PlayStage::CpJoinCommand => lemma_cp_command_route(m, event, log),
        PlayStage::AskCp(_) => lemma_ask_cp_route(m, event, log),
        PlayStage::CpGuard(_, _) => lemma_cp_guard_route(m, event, log),
        PlayStage::CpCheck(_) => lemma_cp_check_route(m, event, log),
        PlayStage::AskCpJoin(_) => lemma_cp_join_route(m, event, log),
        PlayStage::CpJoining(_) => lemma_cp_join_route(m, event, log),
        PlayStage::Fingerprint => lemma_worker_command_route(m, event, log),
        PlayStage::WorkerJoinCommand => lemma_worker_command_route(m, event, log),
        PlayStage::AskWorker(_) => lemma_ask_worker_route(m, event, log),
        PlayStage::WorkerCheck(_) => lemma_worker_check_route(m, event, log),
        PlayStage::WorkerFingerprint(_) => lemma_worker_join_route(m, event, log),
        PlayStage::WorkerJoining(_) => lemma_worker_join_route(m, event, log),
        PlayStage::WorkerGuard(_, _) => lemma_worker_guard_route(m, event, log),
        PlayStage::Csrs(_) => lemma_final_route(m, event, log),
        PlayStage::AltAddress => lemma_final_route(m, event, log),
    }
}

/// The check of the endpoint that is under way, if one is, with the node that
/// it is on.
pub open spec fn check_at(stage: PlayStage<Seq<char>>) -> Option<(int, GuardModel)> {
    match stage {
        PlayStage::PrimaryGuard(g) => Some((0, g)),
        PlayStage::CpGuard(i, g) => Some((i as int, g)),
        PlayStage::WorkerGuard(i, g) => Some((i as int, g)),
        _ => None,
    }
}

/// Whichever node the endpoint is checked on, it is the host of the endpoint
/// that is looked up there, and every command that writes `/etc/hosts` there
/// makes that host stand for the address of the primary node.
pub proof fn law_hosts_entry_names_primary(m: PlayModel, event: Event<Seq<char>>, log: Log)
    requires
        play_wf(m),
        play_routed(m),
    ensures
        play_next(m, event, log).0 matches Progress::Wait(n, a) ==> (check_at(n.stage) matches Some((i, g)) ==> {
            let host = host_of(n.endpoint);
            let entry = "echo '"@ + n.ips[0] + "  "@ + host + "' | sudo tee -a /etc/hosts"@;
            match a {
                Action::Capture { ip, command, .. } => g.stage is Lookup && ip == n.ips[i] && command
                    == "getent hosts "@ + host + " 2>/dev/null | awk '{ print $1 }' || echo ''"@,
                Action::Run { ip, command, .. } => ip == n.ips[i] && (command == "sudo sed -i '/[[:space:]]"@ + host
                    + "[[:space:]]*$/d' /etc/hosts && "@ + entry || command == "grep -qF '"@ + host
                    + "' /etc/hosts || "@ + entry),
                Action::Confirm(_) => true,
                _ => false,
            }
        }),
{
    law_play_keeps_to_routes(m, event, log);
}

/// Whichever node the endpoint is checked on, the check is done there without a
/// change if and only if its host stands for the address of the primary node.
/// Where it stands for another address that is replaced, and where it stands
/// for none an entry is added, each as soon as that is approved.
pub proof fn law_endpoint_has_to_stand_for_primary(m: PlayModel, i: int, g: GuardModel, output: Seq<char>, log: Log)
    requires
        play_wf(m),
        play_routed(m),
        check_at(m.stage) == Some((i, g)),
        g.stage is Lookup,
    ensures
        ({
            let r = play_next(m, Event::Output(output), log).0;
            let resolved = trimmed(output);
            &&& resolved.len() > 0 && resolved == m.ips[0] ==> !(r is Failed) && (r matches Progress::Wait(n, _)
                ==> match check_at(n.stage) {
                Some((j, _)) => j != i,
                None => true,
            })
            &&& !(resolved.len() > 0 && resolved == m.ips[0]) ==> (r matches Progress::Wait(n, a) && (check_at(
                n.stage,
            ) matches Some((j, h)) && j == i && (if m.plan.auto {
                a is Run && (if resolved.len() > 0 {
                    h.stage is Updating
                } else {
                    h.stage is Adding
                })
            } else {
                a is Confirm && (if resolved.len() > 0 {
                    h.stage == GuardStage::AskUpdate(resolved)
                } else {
                    h.stage is AskAdd
                })
            })))
        }),
{
    law_guard_judges_the_lookup(g, output, log);
    match m.stage {
        PlayStage::PrimaryGuard(_) => lemma_primary_guard_wf(m, Event::Output(output), log),
        PlayStage::CpGuard(_, _) => lemma_cp_guard_wf(m, Event::Output(output), log),
        _ => lemma_worker_guard_wf(m, Event::Output(output), log),
    }
}

/// A primary node that is not initialised is initialised with the endpoint of
/// the cluster, where the cluster has three or more control-plane nodes, and
/// with every SAN of the configuration, however many nodes it has.
pub proof fn law_primary_gets_its_configuration(m: PlayModel, answer: Seq<char>, log: Log)
    requires
        m.stage is PrimaryCheck,
        trimmed(answer) != "yes"@,
    ensures
        ({
            let own = if m.plan.cp_count >= 3 {
                "controlPlaneEndpoint: "@ + m.endpoint + "\n"@
            } else {
                Seq::empty()
            };
            let list = if m.plan.cert_sans.len() > 0 {
                "apiServer:\n  certSANs:\n"@ + item_lines(m.plan.cert_sans)
            } else {
                Seq::empty()
            };
            &&& play_next(m, Event::Output(answer), log).0 matches Progress::Wait(n, Action::Run { ip, command, .. })
            &&& n.stage matches PlayStage::PrimaryInit(i) && i.stage is Writing
            &&& ip == m.ips[0]
            &&& command == "cat > /tmp/kubeadm-config.yaml <<'KUBEADM_CONFIG_EOF'\n"@
                + "apiVersion: kubeadm.k8s.io/v1beta4\n\
                   kind: InitConfiguration\n\
                   skipPhases:\n\
                   - addon/kube-proxy\n\
                   ---\n\
                   apiVersion: kubeadm.k8s.io/v1beta4\n\
                   kind: ClusterConfiguration\n"@ + own + list
                + "---\n\
                   apiVersion: kubelet.config.k8s.io/v1beta1\n\
                   kind: KubeletConfiguration\n\
                   serverTLSBootstrap: true\n"@ + "\nKUBEADM_CONFIG_EOF"@
        }),
{
    law_config_holds_endpoint_and_sans(
        Init {
            ip: m.ips[0],
            name: m.plan.nodes[0].0,
            jump: primary_route(m),
            is_ha: is_ha(m.plan.cp_count),
            auto: m.plan.auto,
            stage: InitStage::Writing,
        },
        m.endpoint,
        m.plan.cert_sans,
        log,
    );
}

/// Whether no node has been worked on yet: addresses are being fetched and
/// containerd is being checked.
pub open spec fn preparing(stage: PlayStage<Seq<char>>) -> bool {
    stage is Fetching || stage is Pausing || stage is FetchingJump || stage is PausingJump || stage is Preflight
}

/// What a step of the preparation keeps to: containerd is checked on one node
/// after the other, no command is run on any, and the preparation ends only
/// when containerd was found to run on the last of them.
pub open spec fn prepares(m: PlayModel, event: Event<Seq<char>>, s: PlayStep) -> bool {
    s.0 matches Progress::Wait(n, a) ==> {
        &&& preparing(n.stage) ==> !(a is Run) && !(a is Capture)
        &&& n.stage matches PlayStage::Preflight(j) ==> {
            &&& a matches Action::Containerd { ip, name, .. } && ip == n.ips[j as int] && name
                == n.plan.nodes[j as int].0
            &&& j == 0 || (m.stage == PlayStage::<Seq<char>>::Preflight((j - 1) as usize) && event is Finished)
        }
        &&& !preparing(n.stage) ==> m.stage == PlayStage::<Seq<char>>::Preflight(
            (m.plan.nodes.len() - 1) as usize,
        ) && event is Finished
    }
}

/// No node is worked on before containerd was found to run on every node.
pub proof fn law_containerd_checked_first(m: PlayModel, event: Event<Seq<char>>, log: Log)
    requires
        play_wf(m),
        preparing(m.stage),
    ensures
        prepares(m, event, play_next(m, event, log)),
{
    if m.stage is Preflight {
        lemma_preflight_prepares(m, event, log);
    } else if m.stage is Fetching || m.stage is Pausing {
        lemma_fetching_prepares(m, event, log);
    }
}

proof fn lemma_fetching_prepares(m: PlayModel, event: Event<Seq<char>>, log: Log)
    requires
        play_wf(m),
        m.stage is Fetching || m.stage is Pausing,
    ensures
        prepares(m, event, play_next(m, event, log)),
{
}

proof fn lemma_preflight_prepares(m: PlayModel, event: Event<Seq<char>>, log: Log)
    requires
        play_wf(m),
        m.stage is Preflight,
    ensures
        prepares(m, event, play_next(m, event, log)),
{
}

proof fn lemma_first_public(nodes: Seq<Target>, i: int)
    requires
        0 <= i < nodes.len(),
        forall|j: int| 0 <= j < nodes.len() && j != i ==> (#[trigger] nodes[j]).0 != nodes[i].0,
    ensures
        first_public(nodes, nodes[i].0) == nodes[i].1,
    decreases nodes.len(),
{
    if i > 0 {
        let rest = nodes.skip(1);
        assert(nodes[0].0 != nodes[i].0);
        assert(rest[i - 1] == nodes[i]);
        assert forall|j: int| 0 <= j < rest.len() && j != i - 1 implies (#[trigger] rest[j]).0 != rest[i - 1].0 by {
            assert(rest[j] == nodes[j + 1]);
        }
        lemma_first_public(rest, i - 1);
    }
}

/// containerd is checked on a node straight where the node has a public address
/// and else through the jump host, as long as no other node has its name.
pub proof fn law_containerd_checked_by_route(m: PlayModel, event: Event<Seq<char>>, i: usize, log: Log)
    requires
        play_wf(m),
        i < m.plan.nodes.len(),
        forall|j: int|
            0 <= j < m.plan.nodes.len() && j != i ==> (#[trigger] m.plan.nodes[j]).0 != m.plan.nodes[i as int].0,
    ensures
        play_next(m, event, log).0 matches Progress::Wait(n, a) ==> (n.stage == PlayStage::<Seq<char>>::Preflight(i)
            ==> (a matches Action::Containerd { jump, .. } && jump == (if m.plan.nodes[i as int].1 {
            None
        } else {
            jump_host(n)
        }))),
{
    let p = peers(m, i as int);
    let k = if i < m.plan.cp_count {
        i as int
    } else {
        i - m.plan.cp_count
    };
    if has_primary(m) {
        assert(p[k] == m.plan.nodes[i as int]);
        assert forall|j: int| 0 <= j < p.len() && j != k implies (#[trigger] p[j]).0 != p[k].0 by {
            assert(p[j] == m.plan.nodes[j + (i - k)]);
        }
        lemma_first_public(p, k);
    }
    match m.stage {
        PlayStage::Fetching(_, _) => {},
        PlayStage::FetchingJump(_) => {},
        PlayStage::Preflight(_) => {},
        _ => lemma_no_second_preflight(m, event, log),
    }
}

proof fn lemma_no_second_preflight(m: PlayModel, event: Event<Seq<char>>, log: Log)
    requires
        play_wf(m),
        !(m.stage is Fetching) && !(m.stage is FetchingJump) && !(m.stage is Preflight),
    ensures
        play_next(m, event, log).0 matches Progress::Wait(n, _) ==> !(n.stage is Preflight),
{
    law_play_ends(m, event, log);
}

/// How far the provisioning is from its end.
pub open spec fn play_rank(m: PlayModel) -> (nat, nat) {
    let cps = |i: usize| 20 * (m.plan.cp_count - i);
    let nodes = |i: usize| 100 * (m.plan.nodes.len() - i);
    match m.stage {
        PlayStage::Fetching(i, n) => (14, (nodes(i) + 2 * (30 - n) + 1) as nat),
        PlayStage::Pausing(i, n) => (14, (nodes(i) + 2 * (30 - n)) as nat),
        PlayStage::FetchingJump(n) => (13, (2 * (30 - n) + 1) as nat),
        PlayStage::PausingJump(n) => (13, (2 * (30 - n)) as nat),
        PlayStage::Preflight(i) => (12, nodes(i) as nat),
        PlayStage::AskPrimary => (11, 0),
        PlayStage::PrimaryGuard(g) => (10, guard_rank(g)),
        PlayStage::PrimaryCheck => (9, 0),
        PlayStage::PrimaryVerify => (8, 0),
        PlayStage::PrimaryCilium(c) => (7, cilium_rank(c)),
        PlayStage::PrimaryInit(i) => (7, init_rank(i)),
        PlayStage::CpJoinCommand => (6, 0),
        PlayStage::AskCp(i) => (5, (cps(i) + 10) as nat),
        PlayStage::CpGuard(i, g) => (5, (cps(i) + 5 + guard_rank(g)) as nat),
        PlayStage::CpCheck(i) => (5, (cps(i) + 3) as nat),
        PlayStage::AskCpJoin(i) => (5, (cps(i) + 2) as nat),
        PlayStage::CpJoining(i) => (5, (cps(i) + 1) as nat),
        PlayStage::Fingerprint => (4, 0),
        PlayStage::WorkerJoinCommand => (3, 0),
        PlayStage::AskWorker(i) => (2, (nodes(i) + 10) as nat),
        PlayStage::WorkerCheck(i) => (2, (nodes(i) + 9) as nat),
        PlayStage::WorkerFingerprint(i) => (2, (nodes(i) + 8) as nat),
        PlayStage::WorkerGuard(i, g) => (2, (nodes(i) + 4 + guard_rank(g)) as nat),
        PlayStage::WorkerJoining(i) => (2, (nodes(i) + 1) as nat),
        PlayStage::Csrs(c) => (1, csr_rank(c)),
        PlayStage::AltAddress => (0, 0),
    }
}

/// A step takes the provisioning nearer to its end.
pub open spec fn nearer(m: PlayModel, s: PlayStep) -> bool {
    s.0 matches Progress::Wait(n, _) ==> below(play_rank(n), play_rank(m))
}

proof fn lemma_fetching_nearer(m: PlayModel, event: Event<Seq<char>>, log: Log)
    requires
        play_wf(m),
        m.stage is Fetching || m.stage is Pausing,
    ensures
        nearer(m, play_next(m, event, log)),
{
}

proof fn lemma_jump_nearer(m: PlayModel, event: Event<Seq<char>>, log: Log)
    requires
        play_wf(m),
        m.stage is FetchingJump || m.stage is PausingJump,
    ensures
        nearer(m, play_next(m, event, log)),
{
}

proof fn lemma_preflight_nearer(m: PlayModel, event: Event<Seq<char>>, log: Log)
    requires
        play_wf(m),
        m.stage is Preflight,
    ensures
        nearer(m, play_next(m, event, log)),
{
}

proof fn lemma_ask_primary_nearer(m: PlayModel, event: Event<Seq<char>>, log: Log)
    requires
        play_wf(m),
        m.stage is AskPrimary,
    ensures
        nearer(m, play_next(m, event, log)),
{
}

proof fn lemma_primary_guard_nearer(m: PlayModel, event: Event<Seq<char>>, log: Log)
    requires
        play_wf(m),
        m.stage is PrimaryGuard,
    ensures
        nearer(m, play_next(m, event, log)),
{
    if let PlayStage::PrimaryGuard(g) = m.stage {
        law_guard_ends(g, event, log);
    }
}

proof fn lemma_primary_check_nearer(m: PlayModel, event: Event<Seq<char>>, log: Log)
    requires
        play_wf(m),
        m.stage is PrimaryCheck || m.stage is PrimaryVerify,
    ensures
        nearer(m, play_next(m, event, log)),
{
}

proof fn lemma_primary_cilium_nearer(m: PlayModel, event: Event<Seq<char>>, log: Log)
    requires
        play_wf(m),
        m.stage is PrimaryCilium,
    ensures
        nearer(m, play_next(m, event, log)),
{
    if let PlayStage::PrimaryCilium(c) = m.stage {
        law_cilium_ends(c, event, log);
    }
}

proof fn lemma_primary_init_nearer(m: PlayModel, event: Event<Seq<char>>, log: Log)
    requires
        play_wf(m),
        m.stage is PrimaryInit,
    ensures
        nearer(m, play_next(m, event, log)),
{
    if let PlayStage::PrimaryInit(i) = m.stage {
        law_init_ends(i, event, log);
    }
}

proof fn lemma_cp_command_nearer(m: PlayModel, event: Event<Seq<char>>, log: Log)
    requires
        play_wf(m),
        m.stage is CpJoinCommand,
    ensures
        nearer(m, play_next(m, event, log)),
{
}

proof fn lemma_ask_cp_nearer(m: PlayModel, event: Event<Seq<char>>, log: Log)
    requires
        play_wf(m),
        m.stage is AskCp,
    ensures
        nearer(m, play_next(m, event, log)),
{
}

proof fn lemma_cp_guard_nearer(m: PlayModel, event: Event<Seq<char>>, log: Log)
    requires
        play_wf(m),
        m.stage is CpGuard,
    ensures
        nearer(m, play_next(m, event, log)),
{
    if let PlayStage::CpGuard(_, g) = m.stage {
        law_guard_ends(g, event, log);
    }
}

proof fn lemma_cp_check_nearer(m: PlayModel, event: Event<Seq<char>>, log: Log)
    requires
        play_wf(m),
        m.stage is CpCheck,
    ensures
        nearer(m, play_next(m, event, log)),
{
}

proof fn lemma_cp_join_nearer(m: PlayModel, event: Event<Seq<char>>, log: Log)
    requires
        play_wf(m),
        m.stage is AskCpJoin || m.stage is CpJoining,
    ensures
        nearer(m, play_next(m, event, log)),
{
}

proof fn lemma_worker_command_nearer(m: PlayModel, event: Event<Seq<char>>, log: Log)
    requires
        play_wf(m),
        m.stage is Fingerprint || m.stage is WorkerJoinCommand,
    ensures
        nearer(m, play_next(m, event, log)),
{
}

proof fn lemma_ask_worker_nearer(m: PlayModel, event: Event<Seq<char>>, log: Log)
    requires
        play_wf(m),
        m.stage is AskWorker,
    ensures
        nearer(m, play_next(m, event, log)),
{
}

proof fn lemma_worker_check_nearer(m: PlayModel, event: Event<Seq<char>>, log: Log)
    requires
        play_wf(m),
        m.stage is WorkerCheck,
    ensures
        nearer(m, play_next(m, event, log)),
{
}

proof fn lemma_worker_guard_nearer(m: PlayModel, event: Event<Seq<char>>, log: Log)
    requires
        play_wf(m),
        m.stage is WorkerGuard,
    ensures
        nearer(m, play_next(m, event, log)),
{
    if let PlayStage::WorkerGuard(_, g) = m.stage {
        law_guard_ends(g, event, log);
    }
}

proof fn lemma_worker_join_nearer(m: PlayModel, event: Event<Seq<char>>, log: Log)
    requires
        play_wf(m),
        m.stage is WorkerFingerprint || m.stage is WorkerJoining,
    ensures
        nearer(m, play_next(m, event, log)),
{
}

proof fn lemma_final_nearer(m: PlayModel, event: Event<Seq<char>>, log: Log)
    requires
        play_wf(m),
        m.stage is Csrs || m.stage is AltAddress,
    ensures
        nearer(m, play_next(m, event, log)),
{
    if let PlayStage::Csrs(c) = m.stage {
        law_csrs_end(c, event, log);
    }
}

/// The provisioning comes to an end: every step takes it nearer. Among the
/// rest, no address is waited for without end.
pub proof fn law_play_ends(m: PlayModel, event: Event<Seq<char>>, log: Log)
    requires
        play_wf(m),
    ensures
        play_next(m, event, log).0 matches Progress::Wait(n, _) ==> below(play_rank(n), play_rank(m)),
{
    match m.stage {
        PlayStage::Fetching(_, _) => lemma_fetching_nearer(m, event, log),
        PlayStage::Pausing(_, _) => lemma_fetching_nearer(m, event, log),
        PlayStage::FetchingJump(_) => lemma_jump_nearer(m, event, log),
        PlayStage::PausingJump(_) => lemma_jump_nearer(m, event, log),
        PlayStage::Preflight(_) => lemma_preflight_nearer(m, event, log),
        PlayStage::AskPrimary => lemma_ask_primary_nearer(m, event, log),
        PlayStage::PrimaryGuard(_) => lemma_primary_guard_nearer(m, event, log),
        PlayStage::PrimaryCheck => lemma_primary_check_nearer(m, event, log),
        PlayStage::PrimaryVerify => lemma_primary_check_nearer(m, event, log),
        PlayStage::PrimaryCilium(_) => lemma_primary_cilium_nearer(m, event, log),
        PlayStage::PrimaryInit(_) => lemma_primary_init_nearer(m, event, log),
        PlayStage::CpJoinCommand => lemma_cp_command_nearer(m, event, log),
        PlayStage::AskCp(_) => lemma_ask_cp_nearer(m, event, log),
        PlayStage::CpGuard(_, _) => lemma_cp_guard_nearer(m, event, log),
        PlayStage::CpCheck(_) => lemma_cp_check_nearer(m, event, log),
        PlayStage::AskCpJoin(_) => lemma_cp_join_nearer(m, event, log),
        PlayStage::CpJoining(_) => lemma_cp_join_nearer(m, event, log),
        PlayStage::Fingerprint => lemma_worker_command_nearer(m, event, log),
        PlayStage::WorkerJoinCommand => lemma_worker_command_nearer(m, event, log),
        PlayStage::AskWorker(_) => lemma_ask_worker_nearer(m, event, log),
        PlayStage::WorkerCheck(_) => lemma_worker_check_nearer(m, event, log),
        PlayStage::WorkerFingerprint(_) => lemma_worker_join_nearer(m, event, log),
        PlayStage::WorkerJoining(_) => lemma_worker_join_nearer(m, event, log),
        PlayStage::WorkerGuard(_, _) => lemma_worker_guard_nearer(m, event, log),
        PlayStage::Csrs(_) => lemma_final_nearer(m, event, log),
        PlayStage::AltAddress => lemma_final_nearer(m, event, log),
    }
}

/// The node that is joining, or about to.
pub open spec fn joining(stage: PlayStage<Seq<char>>) -> Option<int> {
    match stage {
        PlayStage::AskCp(i) => Some(i as int),
        PlayStage::CpGuard(i, _) => Some(i as int),
        PlayStage::CpCheck(i) => Some(i as int),
        PlayStage::AskCpJoin(i) => Some(i as int),
        PlayStage::CpJoining(i) => Some(i as int),
        PlayStage::AskWorker(i) => Some(i as int),
        PlayStage::WorkerCheck(i) => Some(i as int),
        PlayStage::WorkerFingerprint(i) => Some(i as int),
        PlayStage::WorkerGuard(i, _) => Some(i as int),
        PlayStage::WorkerJoining(i) => Some(i as int),
        _ => None,
    }
}

/// No node is passed over: the joining goes from each control-plane node to
/// the next and from each worker to the next. It leaves the control plane for
/// the workers only after its last node, and the workers only after theirs.
#[verifier::rlimit(30)]
pub proof fn law_joins_in_order(m: PlayModel, event: Event<Seq<char>>, log: Log)
    requires
        play_wf(m),
        joining(m.stage) is Some,
    ensures
        match (joining(m.stage), play_next(m, event, log).0) {
            (Some(i), Progress::Wait(n, _)) => match joining(n.stage) {
                Some(j) => j == i || j == i + 1,
                None => if n.stage is Fingerprint {
                    i + 1 == m.plan.cp_count
                } else {
                    i + 1 == m.plan.nodes.len()
                },
            },
            (_, Progress::Done) => false,
            _ => true,
        },
{
    match m.stage {
        PlayStage::AskCp(_) => {},
        PlayStage::CpGuard(_, _) => {},
        PlayStage::CpCheck(_) => {},
        PlayStage::AskCpJoin(_) => {},
        PlayStage::CpJoining(_) => {},
        PlayStage::AskWorker(_) => {},
        PlayStage::WorkerCheck(_) => {},
        PlayStage::WorkerFingerprint(_) => {},
        PlayStage::WorkerGuard(_, _) => {},
        PlayStage::WorkerJoining(_) => {},
        _ => {},
    }
}

/// The joining begins with the first node: that after the primary node for
/// the control plane, and that after the control plane for the workers.
pub proof fn law_joins_from_the_first(m: PlayModel, event: Event<Seq<char>>, log: Log)
    requires
        play_wf(m),
        m.stage is CpJoinCommand || m.stage is WorkerJoinCommand,
    ensures
        play_next(m, event, log).0 matches Progress::Wait(n, _) ==> {
            let first = if m.stage is CpJoinCommand {
                1
            } else {
                m.plan.cp_count as int
            };
            let end = if m.stage is CpJoinCommand {
                m.plan.cp_count as int
            } else {
                m.plan.nodes.len() as int
            };
            if first < end {
                joining(n.stage) == Some(first)
            } else {
                joining(n.stage) is None
            }
        },
{
}

/// The primary node is initialised if and only if it is not initialised yet.
/// The configuration that is written for it names the endpoint where there are
/// three or more control-plane nodes.
pub proof fn law_primary_initialised_once(m: PlayModel, answer: Seq<char>, log: Log)
    requires
        m.stage is PrimaryCheck,
    ensures
        trimmed(answer) == "yes"@ ==> (play_next(m, Event::Output(answer), log).0 matches Progress::Wait(n, a)
            && a is Capture && (n.stage is PrimaryVerify || n.stage is PrimaryCilium)),
        trimmed(answer) != "yes"@ ==> (play_next(m, Event::Output(answer), log).0 matches Progress::Wait(n, a)
            && n.stage is PrimaryInit && a == (Action::Run {
            ip: m.ips[0],
            jump: primary_route(m),
            command: config_script(m.endpoint, m.plan.cp_count >= 3, m.plan.cert_sans),
        })),
{
}

/// Where a highly available cluster was initialised before, its stored
/// endpoint is read before anything joins, and a cluster that has none is
/// refused.
pub proof fn law_stored_endpoint_verified(m: PlayModel, answer: Seq<char>, output: Seq<char>, log: Log)
    requires
        m.plan.cp_count >= 3,
    ensures
        m.stage is PrimaryCheck && trimmed(answer) == "yes"@ ==> (play_next(m, Event::Output(answer), log).0
            matches Progress::Wait(n, a) && n.stage is PrimaryVerify && a == (Action::Capture {
            ip: m.ips[0],
            jump: primary_route(m),
            command: STORED_ENDPOINT_COMMAND@,
        })),
        m.stage is PrimaryVerify && stored_endpoint(output).len() == 0 ==> play_next(
            m,
            Event::Output(output),
            log,
        ).0 == Progress::<PlayModel, Seq<char>>::Failed(no_endpoint_message(m.plan.nodes[0].0, m.endpoint)),
{
}

/// An address that is blank, or that reads `null` in any case, is asked for
/// again after a pause of two seconds, thirty times at most, and so is one that
/// could not be had. After that, what came is taken for the address, and a
/// failure ends the provisioning with its reason.
pub proof fn law_addresses_are_awaited(m: PlayModel, ip: Seq<char>, e: Seq<char>, log: Log)
    requires
        play_wf(m),
    ensures
        ({
            let told = play_next(m, Event::Output(ip), log).0;
            let failed = play_next(m, Event::Failed(e), log).0;
            let later = play_next(m, Event::Finished, log).0;
            let good = trimmed(ip).len() > 0 && !same_ignoring_case(ip, "null"@);
            match m.stage {
                PlayStage::Fetching(i, n) => {
                    &&& told matches Progress::Wait(t, _) && (if n < 30 && !good {
                        t.stage == PlayStage::<Seq<char>>::Pausing(i, n)
                    } else if i + 1 < m.plan.nodes.len() {
                        t.stage == PlayStage::<Seq<char>>::Fetching((i + 1) as usize, 0)
                    } else if m.plan.provisioner is Some {
                        t.stage == PlayStage::<Seq<char>>::FetchingJump(0)
                    } else {
                        t.stage == PlayStage::<Seq<char>>::Preflight(0)
                    })
                    &&& if n < 30 {
                        failed matches Progress::Wait(t, _) && t.stage == PlayStage::<Seq<char>>::Pausing(i, n)
                    } else {
                        failed == Progress::<PlayModel, Seq<char>>::Failed(e)
                    }
                },
                PlayStage::Pausing(i, n) => later matches Progress::Wait(t, _) && t.stage == PlayStage::<
                    Seq<char>,
                >::Fetching(i, (n + 1) as usize),
                PlayStage::FetchingJump(n) => {
                    &&& told matches Progress::Wait(t, _) && (if n < 30 && !good {
                        t.stage == PlayStage::<Seq<char>>::PausingJump(n)
                    } else {
                        t.stage == PlayStage::<Seq<char>>::Preflight(0)
                    })
                    &&& if n < 30 {
                        failed matches Progress::Wait(t, _) && t.stage == PlayStage::<Seq<char>>::PausingJump(n)
                    } else {
                        failed == Progress::<PlayModel, Seq<char>>::Failed(e)
                    }
                },
                PlayStage::PausingJump(n) => m.plan.provisioner is Some ==> (later matches Progress::Wait(t, _)
                    && t.stage == PlayStage::<Seq<char>>::FetchingJump((n + 1) as usize)),
                PlayStage::Preflight(_) => failed == Progress::<PlayModel, Seq<char>>::Failed(e),
                _ => true,
            }
        }),
{
}

/// Other control-plane nodes join only where there are three or more
/// control-plane nodes: how to join is asked for then, and else the workers
/// come next. That is so when the primary node was declined, too.
pub proof fn law_control_plane_grows_from_three(m: PlayModel, event: Event<Seq<char>>, log: Log)
    requires
        play_wf(m),
        m.stage is AskPrimary || m.stage is PrimaryGuard || m.stage is PrimaryCheck || m.stage is PrimaryVerify
            || m.stage is PrimaryCilium || m.stage is PrimaryInit,
    ensures
        play_next(m, event, log).0 matches Progress::Wait(n, _) ==> {
            &&& n.stage is CpJoinCommand ==> m.plan.cp_count >= 3
            &&& n.stage is Fingerprint ==> m.plan.cp_count < 3
            &&& n.stage is CpJoinCommand || n.stage is Fingerprint || n.stage is PrimaryGuard || n.stage is PrimaryCheck
                || n.stage is PrimaryVerify || n.stage is PrimaryCilium || n.stage is PrimaryInit
        },
        m.stage is AskPrimary ==> (play_next(m, Event::Answer(false), log).0 matches Progress::Wait(n, _) && (
        n.stage is CpJoinCommand || n.stage is Fingerprint)),
        m.stage is AskPrimary ==> (play_next(m, Event::Answer(true), log).0 matches Progress::Wait(n, _) && (
        n.stage is PrimaryGuard || n.stage is PrimaryCheck)),
{
    match m.stage {
        PlayStage::PrimaryGuard(_) => {},
        PlayStage::PrimaryCilium(_) => {},
        PlayStage::PrimaryInit(_) => {},
        _ => {},
    }
}

/// What runs on a node runs to its end: as long as it waits, the provisioning
/// waits for the same; where it fails, the provisioning fails for the same
/// reason; and only where it is done does the provisioning go on. After the
/// check of the endpoint a control-plane node is asked whether it is
/// initialised.
pub proof fn law_play_waits_for_its_parts(m: PlayModel, event: Event<Seq<char>>, log: Log)
    requires
        play_wf(m),
    ensures
        ({
            let r = play_next(m, event, log).0;
            match m.stage {
                PlayStage::PrimaryGuard(g) => match guard_next(g, event, log).0 {
                    Progress::Wait(h, a) => r matches Progress::Wait(n, b) && n.stage == PlayStage::PrimaryGuard(h) && b
                        == a,
                    Progress::Done => r matches Progress::Wait(n, _) && n.stage is PrimaryCheck,
                    Progress::Failed(e) => r == Progress::<PlayModel, Seq<char>>::Failed(e),
                },
                PlayStage::CpGuard(i, g) => match guard_next(g, event, log).0 {
                    Progress::Wait(h, a) => r matches Progress::Wait(n, b) && n.stage == PlayStage::CpGuard(i, h) && b
                        == a,
                    Progress::Done => r matches Progress::Wait(n, _) && n.stage == PlayStage::<Seq<char>>::CpCheck(i),
                    Progress::Failed(e) => r == Progress::<PlayModel, Seq<char>>::Failed(e),
                },
                PlayStage::WorkerGuard(i, g) => match guard_next(g, event, log).0 {
                    Progress::Wait(h, a) => r matches Progress::Wait(n, b) && n.stage == PlayStage::WorkerGuard(i, h)
                        && b == a,
                    Progress::Done => r is Wait,
                    Progress::Failed(e) => r == Progress::<PlayModel, Seq<char>>::Failed(e),
                },
                PlayStage::PrimaryCilium(c) => match cilium_next(c, event, log).0 {
                    Progress::Wait(d, a) => r matches Progress::Wait(n, b) && n.stage == PlayStage::PrimaryCilium(d) && b
                        == a,
                    Progress::Done => r matches Progress::Wait(n, _) && (if m.plan.cp_count >= 3 {
                        n.stage is CpJoinCommand
                    } else {
                        n.stage is Fingerprint
                    }),
                    Progress::Failed(e) => r == Progress::<PlayModel, Seq<char>>::Failed(e),
                },
                PlayStage::PrimaryInit(i) => match init_next(i, event, log).0 {
                    Progress::Wait(j, a) => r matches Progress::Wait(n, b) && n.stage == PlayStage::PrimaryInit(j) && b
                        == a,
                    Progress::Done => r matches Progress::Wait(n, _) && (if m.plan.cp_count >= 3 {
                        n.stage is CpJoinCommand
                    } else {
                        n.stage is Fingerprint
                    }),
                    Progress::Failed(e) => r == Progress::<PlayModel, Seq<char>>::Failed(e),
                },
                PlayStage::Csrs(c) => match csr_next(c, event, log).0 {
                    Progress::Wait(d, a) => r matches Progress::Wait(n, b) && n.stage == PlayStage::Csrs(d) && b == a,
                    Progress::Done => r matches Progress::Wait(n, _) && n.stage is AltAddress,
                    Progress::Failed(e) => r == Progress::<PlayModel, Seq<char>>::Failed(e),
                },
                _ => true,
            }
        }),
{
    match m.stage {
        PlayStage::PrimaryGuard(_) => {},
        PlayStage::CpGuard(_, _) => {},
        PlayStage::WorkerGuard(_, _) => {},
        PlayStage::PrimaryCilium(_) => {},
        PlayStage::PrimaryInit(_) => {},
        PlayStage::Csrs(_) => {},
        _ => {},
    }
}

/// A primary node that is initialised already goes on with the network, at once
/// where there are fewer than three control-plane nodes, and else once an
/// endpoint was found to be stored. A check that fails ends the provisioning,
/// and so does an endpoint that is missing or cannot be read.
pub proof fn law_initialised_primary_goes_on(m: PlayModel, answer: Seq<char>, e: Seq<char>, log: Log)
    requires
        play_wf(m),
    ensures
        m.stage is PrimaryCheck && trimmed(answer) == "yes"@ ==> (play_next(m, Event::Output(answer), log).0
            matches Progress::Wait(n, _) && (if m.plan.cp_count >= 3 {
            n.stage is PrimaryVerify
        } else {
            n.stage matches PlayStage::PrimaryCilium(c) && c.name == m.plan.nodes[0].0
        })),
        m.stage is PrimaryCheck ==> play_next(m, Event::Failed(e), log).0 == Progress::<PlayModel, Seq<char>>::Failed(e),
        m.stage is PrimaryVerify ==> play_next(m, Event::Failed(e), log).0 is Failed,
        m.stage is PrimaryVerify ==> (stored_endpoint(answer).len() > 0 <==> play_next(
            m,
            Event::Output(answer),
            log,
        ).0 is Wait),
        m.stage is PrimaryVerify && stored_endpoint(answer).len() > 0 ==> (play_next(m, Event::Output(answer), log).0
            matches Progress::Wait(n, _) && (n.stage matches PlayStage::PrimaryCilium(c) && c.name
            == m.plan.nodes[0].0)),
{
    reveal_strlit("");
    let none = ""@;
    assert(none =~= Seq::<char>::empty());
    assert(!none.contains(':'));
    lemma_single_piece(none, ':');
}

/// A control-plane node joins if and only if it is approved, is not part of the
/// control plane already, and it is known how to join. Otherwise it is the turn
/// of the next one.
pub proof fn law_control_plane_node_joins(m: PlayModel, i: usize, answer: Seq<char>, e: Seq<char>, log: Log)
    requires
        play_wf(m),
    ensures
        m.stage == PlayStage::<Seq<char>>::AskCp(i) ==> (play_next(m, Event::Answer(true), log).0 matches Progress::Wait(
            n,
            _,
        ) && joining(n.stage) == Some(i as int) && !(n.stage is AskCp)),
        m.stage == PlayStage::<Seq<char>>::CpCheck(i) ==> (play_next(m, Event::Output(answer), log).0
            matches Progress::Wait(n, _) && (if trimmed(answer) == "yes"@ || m.cp_join.len() == 0 {
            joining(n.stage) != Some(i as int)
        } else if m.plan.auto {
            n.stage == PlayStage::<Seq<char>>::CpJoining(i)
        } else {
            n.stage == PlayStage::<Seq<char>>::AskCpJoin(i)
        })),
        m.stage == PlayStage::<Seq<char>>::CpCheck(i) ==> (play_next(m, Event::Failed(e), log).0
            matches Progress::Wait(n, _) && joining(n.stage) != Some(i as int)),
        m.stage == PlayStage::<Seq<char>>::AskCpJoin(i) ==> (play_next(m, Event::Answer(true), log).0
            matches Progress::Wait(n, _) && n.stage == PlayStage::<Seq<char>>::CpJoining(i)),
        m.stage == PlayStage::<Seq<char>>::AskCpJoin(i) || m.stage == PlayStage::<Seq<char>>::AskCp(i) ==> (play_next(
            m,
            Event::Answer(false),
            log,
        ).0 matches Progress::Wait(n, _) && joining(n.stage) != Some(i as int)),
        m.stage == PlayStage::<Seq<char>>::CpJoining(i) ==> (play_next(m, Event::Finished, log).0
            matches Progress::Wait(n, _) && joining(n.stage) != Some(i as int)) && (play_next(m, Event::Failed(e), log).0
            matches Progress::Wait(n, _) && joining(n.stage) != Some(i as int)),
{
}

/// A worker that is approved and has not joined a cluster is checked for the
/// endpoint and joins, where it is known how; a failure to find out whether it
/// has joined counts as no. One that has joined is asked for its fingerprint,
/// where the cluster's is known, and is passed over either way.
pub proof fn law_worker_joins(m: PlayModel, i: usize, answer: Seq<char>, e: Seq<char>, log: Log)
    requires
        play_wf(m),
    ensures
        m.stage == PlayStage::<Seq<char>>::AskWorker(i) ==> (play_next(m, Event::Answer(true), log).0
            matches Progress::Wait(n, _) && n.stage == PlayStage::<Seq<char>>::WorkerCheck(i)) && (play_next(
            m,
            Event::Answer(false),
            log,
        ).0 matches Progress::Wait(n, _) && joining(n.stage) != Some(i as int)),
        m.stage == PlayStage::<Seq<char>>::WorkerCheck(i) ==> (play_next(m, Event::Output(answer), log).0
            matches Progress::Wait(n, _) && (if trimmed(answer) == "joined"@ {
            if m.fingerprint is Some {
                n.stage == PlayStage::<Seq<char>>::WorkerFingerprint(i)
            } else {
                joining(n.stage) != Some(i as int)
            }
        } else if m.worker_join.len() > 0 || !(is_ipv4(host_of(m.endpoint)) || is_ipv6(host_of(m.endpoint))) {
            n.stage == PlayStage::<Seq<char>>::WorkerJoining(i) || (n.stage matches PlayStage::WorkerGuard(j, _) && j
                == i)
        } else {
            joining(n.stage) != Some(i as int)
        })),
        m.stage == PlayStage::<Seq<char>>::WorkerCheck(i) && m.worker_join.len() > 0 ==> (play_next(
            m,
            Event::Failed(e),
            log,
        ).0 matches Progress::Wait(n, _) && (n.stage == PlayStage::<Seq<char>>::WorkerJoining(i) || (n.stage
            matches PlayStage::WorkerGuard(j, _) && j == i))),
        m.stage == PlayStage::<Seq<char>>::WorkerFingerprint(i) && m.fingerprint is Some ==> (play_next(
            m,
            Event::Output(answer),
            log,
        ).0 matches Progress::Wait(n, _) && joining(n.stage) != Some(i as int)),
        m.stage == PlayStage::<Seq<char>>::WorkerJoining(i) ==> (play_next(m, Event::Finished, log).0
            matches Progress::Wait(n, _) && joining(n.stage) != Some(i as int)) && (play_next(m, Event::Failed(e), log).0
            matches Progress::Wait(n, _) && joining(n.stage) != Some(i as int)),
{
}

/// Once the endpoint was checked on a worker, the worker joins, where it is
/// known how, and is passed over where it is not.
pub proof fn law_checked_worker_joins(m: PlayModel, i: usize, g: GuardModel, event: Event<Seq<char>>, log: Log)
    requires
        play_wf(m),
        m.stage == PlayStage::WorkerGuard(i, g),
        guard_next(g, event, log).0 is Done,
    ensures
        play_next(m, event, log).0 matches Progress::Wait(n, _) && (if m.worker_join.len() > 0 {
            n.stage == PlayStage::<Seq<char>>::WorkerJoining(i)
        } else {
            joining(n.stage) != Some(i as int)
        }),
{
}

/// What the operator reads about a worker that has joined a cluster: that it
/// is this one if and only if the fingerprints are the same, and else a
/// warning that names the worker.
pub proof fn law_foreign_worker_is_reported(m: PlayModel, i: usize, expected: Seq<char>, fp: Seq<char>, log: Log)
    requires
        play_wf(m),
        m.stage == PlayStage::<Seq<char>>::WorkerFingerprint(i),
        m.fingerprint == Some(expected),
    ensures
        ({
            let told = play_next(m, Event::Output(fp), log).1;
            &&& told.len() > log.len()
            &&& told[log.len() as int] is Say <==> trimmed(fp) == expected
            &&& told[log.len() as int] matches Note::Say(line) ==> has_part(line, m.plan.nodes[i as int].0)
            &&& told[log.len() as int] matches Note::Warn(line) ==> has_part(line, m.plan.nodes[i as int].0)
            &&& told[log.len() as int] matches Note::Warn(line) ==> (trimmed(fp).len() > 0 ==> has_part(line, expected)
                && has_part(line, trimmed(fp)))
        }),
{
    let name = m.plan.nodes[i as int].0;
    let note = membership(name, expected, Event::Output(fp));
    let mid = " is joined to a DIFFERENT cluster!\nExpected CA fingerprint : "@;
    let third = "\nNode CA fingerprint     : "@;
    let tail = "\nRefusing to re-join — manual intervention required \
                (reset the node with `sudo kubeadm reset` first)."@;
    let text = "  ✗ "@ + name + mid + expected + third + trimmed(fp) + tail;
    lemma_part_between("  ✓ "@, name, " already joined to this cluster (CA fingerprint verified) — skipping."@);
    lemma_part_between("  ✗ "@, name, mid + expected + third + trimmed(fp) + tail);
    assert(text =~= "  ✗ "@ + name + (mid + expected + third + trimmed(fp) + tail));
    lemma_part_between("  ✗ "@ + name + mid, expected, third + trimmed(fp) + tail);
    assert(text =~= "  ✗ "@ + name + mid + expected + (third + trimmed(fp) + tail));
    lemma_part_between("  ✗ "@ + name + mid + expected + third, trimmed(fp), tail);
    lemma_part_between(
        "  ⚠  "@,
        name,
        " has kubelet.conf but the CA fingerprint could not be extracted — skipping to avoid \
         overwriting an existing cluster member."@,
    );
    lemma_visit_keeps_log(m, i + 1, log.push(note));
}

proof fn lemma_part_between(a: Seq<char>, part: Seq<char>, b: Seq<char>)
    ensures
        has_part(a + part + b, part),
{
    let whole = a + part + b;
    let at = a.len() as int;
    assert(whole.subrange(at, at + part.len()) =~= part);
}

proof fn lemma_visit_keeps_log(m: PlayModel, i: int, log: Log)
    requires
        log.len() > 0,
    ensures
        visit_worker(m, i, log).1.len() >= log.len(),
        visit_worker(m, i, log).1[log.len() - 1] == log.last(),
{
}

proof fn lemma_san_lines(sans: Seq<Seq<char>>, k: int, log: Log)
    ensures
        kept(log, san_lines(sans, log)),
        san_lines(sans, log).len() == log.len() + sans.len(),
        0 <= k < sans.len() ==> san_lines(sans, log)[log.len() + k] == Note::Say("    - "@ + sans[k]),
    decreases sans.len(),
{
    if sans.len() > 0 {
        lemma_san_lines(sans.drop_last(), k, log);
    }
}

/// Once all addresses are known the operator is told the endpoint and, one by
/// one, the SANs; and where the endpoint of a cluster with three or more
/// control-plane nodes is the primary node's own address, they are warned of
/// that.
pub proof fn law_endpoint_is_told(m: PlayModel, k: int, log: Log)
    ensures
        ({
            let endpoint = cluster_endpoint(m.plan.endpoint, m.ips[0]);
            let told = located(m, log).1;
            &&& kept(log.push(Note::Say("\n  control-plane-endpoint: "@ + endpoint)), told)
            &&& 0 <= k < m.plan.cert_sans.len() ==> told.len() > log.len() + 2 + k && told[log.len() + 2 + k]
                == Note::Say("    - "@ + m.plan.cert_sans[k])
            &&& m.plan.cp_count >= 3 && points_at(endpoint, m.ips[0]) ==> told.len() > 2 && told[told.len() - 3]
                == Note::Warn(
                "\n  ⚠  WARNING: control-plane-endpoint is set to the primary node's own \
                 IP ("@ + endpoint
                    + ").\n\
                     This works but is not truly highly available — if that node is lost \
                     the API server becomes unreachable.\n\
                     Consider adding a load-balancer and setting 'control-plane-endpoint' \
                     in the relevant spec block of your config."@,
            )
            &&& !(m.plan.cp_count >= 3 && points_at(endpoint, m.ips[0])) ==> told.len() == log.len() + 3 + (
            if m.plan.cert_sans.len() == 0 {
                0
            } else {
                1 + m.plan.cert_sans.len()
            })
        }),
{
    let endpoint = cluster_endpoint(m.plan.endpoint, m.ips[0]);
    let shown = log.push(Note::Say("\n  control-plane-endpoint: "@ + endpoint));
    lemma_san_lines(m.plan.cert_sans, k, shown.push(Note::Say("  apiServer certSANs:"@)));
}

proof fn lemma_located_tells(m: PlayModel, log: Log)
    ensures
        kept(log, located(m, log).1),
{
    let endpoint = cluster_endpoint(m.plan.endpoint, m.ips[0]);
    let shown = log.push(Note::Say("\n  control-plane-endpoint: "@ + endpoint));
    lemma_san_lines(m.plan.cert_sans, 0, shown.push(Note::Say("  apiServer certSANs:"@)));
}

proof fn lemma_nodes_tell(m: PlayModel, i: int)
    ensures
        forall|l: Log| kept(l, (#[trigger] visit_worker(m, i, l)).1),
        forall|l: Log| kept(l, (#[trigger] visit_cp(m, i, l)).1),
        forall|l: Log| kept(l, (#[trigger] additional(m, l)).1),
{
}

proof fn lemma_locating_tells(m: PlayModel, event: Event<Seq<char>>, log: Log)
    requires
        m.stage is Fetching || m.stage is FetchingJump,
    ensures
        kept(log, play_next(m, event, log).1),
{
    if let Event::Output(ip) = event {
        match m.stage {
            PlayStage::Fetching(i, _) => {
                let more = PlayModel { ips: m.ips.push(ip), ..m };
                let told = log.push(Note::Say(address_line(m.plan.nodes[i as int].0, ip, m.plan.nodes[i as int].1)));
                lemma_located_tells(
                    PlayModel { jump_ip: more.ips[0], ..more },
                    told.push(Note::Say("  SSH user: "@ + m.plan.user + "  private key: "@ + m.plan.key)),
                );
            },
            _ => lemma_located_tells(PlayModel { jump_ip: ip, ..m }, log.push(Note::Say("    IP: "@ + ip))),
        }
    }
}

proof fn lemma_primary_tells(m: PlayModel, event: Event<Seq<char>>, log: Log)
    requires
        m.stage is Preflight || m.stage is AskPrimary || m.stage is PrimaryGuard || m.stage is PrimaryCheck
            || m.stage is PrimaryVerify,
    ensures
        kept(log, play_next(m, event, log).1),
{
    if let PlayStage::PrimaryGuard(g) = m.stage {
        law_guard_tells(g, event, ""@, log);
    }
}

proof fn lemma_network_tells(m: PlayModel, event: Event<Seq<char>>, log: Log)
    requires
        m.stage is PrimaryCilium || m.stage is PrimaryInit || m.stage is Csrs,
    ensures
        kept(log, play_next(m, event, log).1),
{
    lemma_nodes_tell(m, 0);
    match m.stage {
        PlayStage::PrimaryCilium(c) => {
            law_cilium_tells(c, event, ""@, log);
            let told = cilium_next(c, event, log).1;
            assert(kept(told, additional(m, told).1));
        },
        PlayStage::PrimaryInit(i) => {
            law_init_tells(i, event, log);
            let told = init_next(i, event, log).1;
            assert(kept(told, additional(m, told).1));
        },
        PlayStage::Csrs(c) => law_csrs_tell(c, event, ""@, 0, log),
        _ => {},
    }
}

proof fn lemma_cp_tells(m: PlayModel, event: Event<Seq<char>>, log: Log)
    requires
        m.stage is AskCp || m.stage is CpGuard || m.stage is CpCheck || m.stage is AskCpJoin || m.stage is CpJoining,
    ensures
        kept(log, play_next(m, event, log).1),
{
    match m.stage {
        PlayStage::AskCp(i) => lemma_nodes_tell(m, i + 1),
        PlayStage::CpGuard(_, g) => law_guard_tells(g, event, ""@, log),
        PlayStage::CpCheck(i) => lemma_nodes_tell(m, i + 1),
        PlayStage::AskCpJoin(i) => lemma_nodes_tell(m, i + 1),
        PlayStage::CpJoining(i) => lemma_nodes_tell(m, i + 1),
        _ => {},
    }
}

proof fn lemma_worker_tells(m: PlayModel, event: Event<Seq<char>>, log: Log)
    requires
        m.stage is AskWorker || m.stage is WorkerCheck || m.stage is WorkerFingerprint || m.stage is WorkerGuard
            || m.stage is WorkerJoining,
    ensures
        kept(log, play_next(m, event, log).1),
{
    match m.stage {
        PlayStage::AskWorker(i) => lemma_nodes_tell(m, i + 1),
        PlayStage::WorkerCheck(i) => lemma_nodes_tell(m, i + 1),
        PlayStage::WorkerFingerprint(i) => lemma_nodes_tell(m, i + 1),
        PlayStage::WorkerGuard(i, g) => {
            law_guard_tells(g, event, ""@, log);
            lemma_nodes_tell(m, i + 1);
            let told = guard_next(g, event, log).1;
            assert(kept(told, run_worker_join(m, i as int, told).1));
        },
        PlayStage::WorkerJoining(i) => lemma_nodes_tell(m, i + 1),
        _ => {},
    }
}

proof fn lemma_joining_tells(m: PlayModel, event: Event<Seq<char>>, log: Log)
    requires
        m.stage is CpJoinCommand || m.stage is Fingerprint || m.stage is WorkerJoinCommand,
    ensures
        kept(log, play_next(m, event, log).1),
{
    match (m.stage, event) {
        (PlayStage::CpJoinCommand, Event::Output(command)) => {
            lemma_nodes_tell(PlayModel { cp_join: command, ..m }, 1);
            lemma_nodes_tell(PlayModel { cp_join: ""@, ..m }, 1);
        },
        (PlayStage::CpJoinCommand, _) => lemma_nodes_tell(PlayModel { cp_join: ""@, ..m }, 1),
        (PlayStage::WorkerJoinCommand, Event::Output(command)) => {
            lemma_nodes_tell(PlayModel { worker_join: command, ..m }, m.plan.cp_count as int);
            lemma_nodes_tell(PlayModel { worker_join: ""@, ..m }, m.plan.cp_count as int);
        },
        (PlayStage::WorkerJoinCommand, _) => lemma_nodes_tell(
            PlayModel { worker_join: ""@, ..m },
            m.plan.cp_count as int,
        ),
        _ => {},
    }
}

/// No line that the operator was told during the provisioning is ever taken
/// back.
pub proof fn law_play_tells_on(m: PlayModel, event: Event<Seq<char>>, log: Log)
    ensures
        kept(log, play_next(m, event, log).1),
{
    match m.stage {
        PlayStage::Fetching(_, _) => lemma_locating_tells(m, event, log),
        PlayStage::FetchingJump(_) => lemma_locating_tells(m, event, log),
        PlayStage::Preflight(_) => lemma_primary_tells(m, event, log),
        PlayStage::AskPrimary => lemma_primary_tells(m, event, log),
        PlayStage::PrimaryGuard(_) => lemma_primary_tells(m, event, log),
        PlayStage::PrimaryCheck => lemma_primary_tells(m, event, log),
        PlayStage::PrimaryVerify => lemma_primary_tells(m, event, log),
        PlayStage::PrimaryCilium(_) => lemma_network_tells(m, event, log),
        PlayStage::PrimaryInit(_) => lemma_network_tells(m, event, log),
        PlayStage::Csrs(_) => lemma_network_tells(m, event, log),
        PlayStage::CpJoinCommand => lemma_joining_tells(m, event, log),
        PlayStage::Fingerprint => lemma_joining_tells(m, event, log),
        PlayStage::WorkerJoinCommand => lemma_joining_tells(m, event, log),
        PlayStage::AskCp(_) => lemma_cp_tells(m, event, log),
        PlayStage::CpGuard(_, _) => lemma_cp_tells(m, event, log),
        PlayStage::CpCheck(_) => lemma_cp_tells(m, event, log),
        PlayStage::AskCpJoin(_) => lemma_cp_tells(m, event, log),
        PlayStage::CpJoining(_) => lemma_cp_tells(m, event, log),
        PlayStage::AskWorker(_) => lemma_worker_tells(m, event, log),
        PlayStage::WorkerCheck(_) => lemma_worker_tells(m, event, log),
        PlayStage::WorkerFingerprint(_) => lemma_worker_tells(m, event, log),
        PlayStage::WorkerGuard(_, _) => lemma_worker_tells(m, event, log),
        PlayStage::WorkerJoining(_) => lemma_worker_tells(m, event, log),
        _ => {},
    }
}

/// What became of each node is told by name: that it is ready, that it joined,
/// or that it could not, with the reason.
pub proof fn law_play_tells_of_each_node(m: PlayModel, e: Seq<char>, log: Log)
    requires
        play_wf(m),
    ensures
        m.stage matches PlayStage::Preflight(i) ==> kept(
            log.push(Note::Say("    ✓ "@ + m.plan.nodes[i as int].0)),
            play_next(m, Event::Finished, log).1,
        ),
        m.stage matches PlayStage::CpJoining(i) ==> kept(
            log.push(Note::Say("\n  ✓ "@ + m.plan.nodes[i as int].0 + " joined as control-plane."@)),
            play_next(m, Event::Finished, log).1,
        ) && kept(
            log.push(Note::Warn("\n  ✗ Failed to join "@ + m.plan.nodes[i as int].0 + ": "@ + e)),
            play_next(m, Event::Failed(e), log).1,
        ),
        m.stage matches PlayStage::WorkerJoining(i) ==> kept(
            log.push(Note::Say("\n  ✓ "@ + m.plan.nodes[i as int].0 + " joined."@)),
            play_next(m, Event::Finished, log).1,
        ) && kept(
            log.push(Note::Warn("  ✗ Failed to join "@ + m.plan.nodes[i as int].0 + ": "@ + e)),
            play_next(m, Event::Failed(e), log).1,
        ),
        m.stage matches PlayStage::CpCheck(i) ==> kept(
            log.push(Note::Warn("  ✗ Could not check join status on "@ + m.plan.nodes[i as int].0 + ": "@ + e)),
            play_next(m, Event::Failed(e), log).1,
        ) && (trimmed(e) == "yes"@ ==> kept(
            log.push(
                Note::Say("  ✓ "@ + m.plan.nodes[i as int].0 + " already part of the control-plane — skipping."@),
            ),
            play_next(m, Event::Output(e), log).1,
        )) && (trimmed(e) != "yes"@ && m.cp_join.len() == 0 ==> kept(
            log.push(Note::Warn("  ✗ No join command available — skipping "@ + m.plan.nodes[i as int].0 + "."@)),
            play_next(m, Event::Output(e), log).1,
        )) && (trimmed(e) != "yes"@ && m.cp_join.len() > 0 ==> kept(
            log.push(Note::Say("  Join command: "@ + m.cp_join)),
            play_next(m, Event::Output(e), log).1,
        )),
        m.stage matches PlayStage::WorkerCheck(i) ==> kept(
            log.push(Note::Warn("  ⚠  Could not check join status on "@ + m.plan.nodes[i as int].0 + ": "@ + e)),
            play_next(m, Event::Failed(e), log).1,
        ) && (trimmed(e) == "joined"@ && m.fingerprint is None ==> kept(
            log.push(
                Note::Say(
                    "  ✓ "@ + m.plan.nodes[i as int].0
                        + " already has kubelet.conf — skipping (CA fingerprint verification unavailable)."@,
                ),
            ),
            play_next(m, Event::Output(e), log).1,
        )),
        m.stage is PrimaryCheck && trimmed(e) == "yes"@ ==> kept(
            log.push(Note::Say("  ✓ "@ + m.plan.nodes[0].0 + " already initialised — skipping kubeadm init."@)),
            play_next(m, Event::Output(e), log).1,
        ),
        m.stage is AskPrimary || m.stage is AskCp || m.stage is AskCpJoin || m.stage is AskWorker ==> kept(
            log.push(Note::Say("  Skipped."@)),
            play_next(m, Event::Answer(false), log).1,
        ),
        m.stage is CpJoinCommand ==> kept(
            log.push(Note::Warn("  ✗ Could not fetch control-plane join command: "@ + e)),
            play_next(m, Event::Failed(e), log).1,
        ) && (e.len() == 0 ==> kept(
            log.push(
                Note::Warn(
                    "  ✗ Empty control-plane join command from "@ + m.plan.nodes[0].0 + " — is it fully up?"@,
                ),
            ),
            play_next(m, Event::Output(e), log).1,
        )),
        m.stage is WorkerJoinCommand ==> kept(
            log.push(Note::Warn("  ✗ Could not fetch worker join command: "@ + e)),
            play_next(m, Event::Failed(e), log).1,
        ) && (e.len() == 0 ==> kept(
            log.push(
                Note::Warn("  ✗ Empty worker join command from "@ + m.plan.nodes[0].0 + " — is it fully up?"@),
            ),
            play_next(m, Event::Output(e), log).1,
        )),
        m.stage is Fingerprint ==> kept(
            log.push(
                Note::Warn(
                    "  ⚠  Could not determine cluster CA fingerprint: "@ + e
                        + " — membership verification will be skipped."@,
                ),
            ),
            play_next(m, Event::Failed(e), log).1,
        ) && (trimmed(e).len() > 0 ==> kept(
            log.push(Note::Say("  Cluster CA fingerprint (SHA-256): "@ + trimmed(e))),
            play_next(m, Event::Output(e), log).1,
        )),
{
}

/// In the end the operator is shown how to look at the cluster from the primary
/// node, with its key and user: by the address that it is reached by, and then
/// by the other one, or a word that stands for that where it is not known.
pub proof fn law_play_shows_how_to_look(m: PlayModel, event: Event<Seq<char>>, log: Log)
    requires
        play_wf(m),
        m.stage is AltAddress,
        event is Output || event is Failed,
    ensures
        ({
            let public = m.plan.nodes[0].1;
            let told = play_next(m, event, log).1;
            let other = match event {
                Event::Output(ip) => ip,
                _ => if public {
                    "<private-ip>"@
                } else {
                    "<public-ip>"@
                },
            };
            let look = "      sudo kubectl --kubeconfig /etc/kubernetes/admin.conf get po -A -o wide"@;
            let ssh = "    ssh -i "@ + m.plan.key + " "@ + m.plan.user + "@"@;
            told == log + seq![
                Note::Say(
                    "\n  Using "@ + (if public {
                        "public"@
                    } else {
                        "private"@
                    }) + " IP:"@,
                ),
                Note::Say(ssh + m.ips[0] + " \\"@),
                Note::Say(look),
                Note::Say(
                    "\n  Using "@ + (if public {
                        "private"@
                    } else {
                        "public"@
                    }) + " IP:"@,
                ),
                Note::Say(ssh + other + " \\"@),
                Note::Say(look),
            ]
        }),
{
}

/// Once every node was visited the pending CSRs are approved, and then the other
/// address of the primary node is asked for. Whatever comes of that, the
/// cluster is up.
pub proof fn law_play_closes(m: PlayModel, event: Event<Seq<char>>, log: Log)
    requires
        play_wf(m),
        m.stage is Csrs || m.stage is AltAddress,
    ensures
        play_next(m, event, log).0 matches Progress::Wait(n, _) ==> m.stage is Csrs && (n.stage is Csrs
            || n.stage is AltAddress),
        m.stage is AltAddress && (event is Output || event is Failed) ==> play_next(m, event, log).0 is Done,
        m.stage is Csrs ==> !(play_next(m, event, log).0 is Done),
{
}

/// A node with a private address is reached through the jump host, where that
/// is reached by its public address.
pub proof fn law_private_nodes_use_jump_host(m: PlayModel, i: int)
    requires
        0 <= i < m.plan.nodes.len(),
        !m.plan.nodes[i].1,
        jump_public(m),
    ensures
        route(m, m.plan.nodes[i].1) == Some(m.jump_ip),
{
}

/// A worker that has joined a cluster is never made to join again: neither
/// what the check says of it nor what its fingerprint says leads to a command
/// that changes it.
pub proof fn law_joined_worker_left_alone(m: PlayModel, i: usize, answer: Seq<char>, event: Event<Seq<char>>, log: Log)
    requires
        trimmed(answer) == "joined"@,
    ensures
        m.stage == PlayStage::<Seq<char>>::WorkerCheck(i) ==> (play_next(m, Event::Output(answer), log).0
            matches Progress::Wait(_, a) ==> !(a is Run)),
        m.stage == PlayStage::<Seq<char>>::WorkerFingerprint(i) ==> (play_next(m, event, log).0
            matches Progress::Wait(_, a) ==> !(a is Run)),
{
}

/// A node that the operator declines is left alone.
pub proof fn law_declined_node_left_alone(m: PlayModel, log: Log)
    requires
        m.stage is AskPrimary || m.stage is AskCp || m.stage is AskCpJoin || m.stage is AskWorker,
    ensures
        play_next(m, Event::Answer(false), log).0 matches Progress::Wait(_, a) ==> !(a is Run),
{
}

// ---------------------------------------------------------------------------
// Starting
// ---------------------------------------------------------------------------

/// A rule for groups of an unknown type is passed over with a warning.
pub open spec fn type_warnings(rules: Seq<ResolvedModel>, log: Log) -> Log
    decreases rules.len(),
{
    if rules.len() == 0 {
        log
    } else {
        let before = type_warnings(rules.drop_last(), log);
        let group_type = rules.last().group_type;
        if group_type == "control-plane"@ || group_type == "worker"@ {
            before
        } else {
            before.push(Note::Warn("  ⚠ Unknown group type '"@ + group_type + "' — skipping in play."@))
        }
    }
}

/// What the operator reads about the number of control-plane nodes.
pub open spec fn quorum_note(cp_count: nat, log: Log) -> Log {
    if cp_count == 1 {
        log.push(
            Note::Say(
                "\n  ℹ  INFO: Single control-plane node — this cluster will not be highly available."@,
            ),
        )
    } else if cp_count % 2 == 0 {
        log.push(
            Note::Warn(
                "\n  ⚠  WARNING: Even number of control-plane nodes ("@ + decimal(cp_count)
                    + ") detected. An odd count (e.g. 3 or 5) is strongly recommended for proper \
                     etcd quorum. Proceed with caution."@,
            ),
        )
    } else {
        log
    }
}

/// The plan for a set of rules, the first control-plane one of which is
/// `first`.
pub open spec fn plan_of(
    rules: Seq<ResolvedModel>,
    first: ResolvedModel,
    provisioner: Option<ProvisionerModel>,
    instances: Entries,
    home: Option<Seq<char>>,
    auto: bool,
    no_wait: bool,
) -> PlanModel {
    let cps = typed_targets(rules, "control-plane"@);
    PlanModel {
        nodes: cps + typed_targets(rules, "worker"@),
        cp_count: cps.len() as usize,
        instances,
        user: first.merged.user,
        key: private_key_of(first.merged.ssh_public_key, home),
        endpoint: first.merged.control_plane_endpoint,
        cert_sans: first.merged.cert_sans,
        provisioner,
        auto,
        no_wait,
    }
}

/// Provisioning starts: the rules are resolved, and the address of the first
/// node is asked for.
pub open spec fn play_begin(
    loaded: LoadedModel,
    instances: Entries,
    home: Option<Seq<char>>,
    auto: bool,
    no_wait: bool,
    log: Log,
) -> PlayStep {
    let told = settings(loaded, log);
    match resolved_rules(loaded.common.rules, loaded.common) {
        Err(e) => (Progress::Failed(rule_message(e)), told),
        Ok(rules) => {
            let warned = type_warnings(rules, told);
            match first_control_plane(rules) {
                None => (Progress::Failed("No control-plane rules found in config"@), warned),
                Some(first) => {
                    let plan = plan_of(
                        rules,
                        first,
                        loaded.common.provisioner,
                        instances,
                        home,
                        auto,
                        no_wait,
                    );
                    if plan.cp_count == 0 {
                        (Progress::Failed("No control-plane nodes found in config."@), warned)
                    } else {
                        fetch(
                            PlayModel {
                                plan,
                                ips: Seq::empty(),
                                jump_ip: ""@,
                                endpoint: ""@,
                                cp_join: ""@,
                                worker_join: ""@,
                                fingerprint: None,
                                stage: PlayStage::AltAddress,
                            },
                            0,
                            0,
                            quorum_note(plan.cp_count as nat, warned).push(
                                Note::Say("\n  Fetching IPs (waiting for assignments if necessary) …"@),
                            ),
                        )
                    }
                },
            }
        },
    }
}

/// Provisioning starts from the rules: its nodes are those of all rules for
/// control-plane groups and behind them those of all rules for worker groups,
/// each in order and reached the way its rule says, and no others. Its user,
/// its key, its endpoint and its SANs are those of the first rule for
/// control-plane groups. All the rest is what it was given.
pub proof fn law_play_starts_from_rules(
    loaded: LoadedModel,
    instances: Entries,
    home: Option<Seq<char>>,
    auto: bool,
    no_wait: bool,
    r: int,
    k: int,
    log: Log,
)
    ensures
        play_begin(loaded, instances, home, auto, no_wait, log).0 matches Progress::Wait(n, a) ==> (resolved_rules(
            loaded.common.rules,
            loaded.common,
        ) matches Ok(rules) && {
            let cps = typed_count(rules, "control-plane"@);
            &&& exists|first: int| #[trigger]
                leads(rules, first) && n.plan.user == rules[first].merged.user && lies_beside(
                    n.plan.key,
                    rules[first].merged.ssh_public_key,
                    home,
                ) && n.plan.endpoint == rules[first].merged.control_plane_endpoint && n.plan.cert_sans
                    == rules[first].merged.cert_sans
            &&& n.plan.nodes.len() == cps + typed_count(rules, "worker"@)
            &&& cps <= usize::MAX ==> n.plan.cp_count == cps
            &&& 0 <= r < rules.len() && 0 <= k < rules[r].nodes.len() ==> {
                let public = rules[r].merged.ip_address == IpAddressType::Public;
                &&& rules[r].group_type == "control-plane"@ ==> {
                    let i = typed_count(rules.take(r), "control-plane"@) + k;
                    &&& i < cps
                    &&& n.plan.nodes[i].0 == rules[r].nodes[k]
                    &&& n.plan.nodes[i].1 == public
                }
                &&& rules[r].group_type == "worker"@ ==> {
                    let i = cps + typed_count(rules.take(r), "worker"@) + k;
                    &&& i < n.plan.nodes.len()
                    &&& n.plan.nodes[i].0 == rules[r].nodes[k]
                    &&& n.plan.nodes[i].1 == public
                }
            }
            &&& n.plan.instances == instances
            &&& n.plan.provisioner == loaded.common.provisioner
            &&& n.plan.auto == auto
            &&& n.plan.no_wait == no_wait
            &&& n.ips.len() == 0
            &&& n.stage == PlayStage::<Seq<char>>::Fetching(0, 0)
            &&& play_asks(n, a)
        }),
{
    if let Ok(rules) = resolved_rules(loaded.common.rules, loaded.common) {
        law_first_control_plane(rules);
        law_every_typed_node_is_a_target(rules, "control-plane"@, r, k);
        law_every_typed_node_is_a_target(rules, "worker"@, r, k);
        if let Some(first) = first_control_plane(rules) {
            let i = choose|i: int| #[trigger] leads(rules, i) && rules[i] == first;
            let path = first.merged.ssh_public_key;
            let stem = path.take(path.len() - ".pub"@.len());
            law_private_key_lies_beside(stem, path, home);
            if ".pub"@.is_suffix_of(path) {
                assert(path =~= stem + ".pub"@);
            }
            assert(leads(rules, i));
        }
    }
}

/// Provisioning starts if and only if the rules can be resolved and one for
/// control-plane groups has a node.
pub proof fn law_play_starts(
    loaded: LoadedModel,
    instances: Entries,
    home: Option<Seq<char>>,
    auto: bool,
    no_wait: bool,
    log: Log,
)
    ensures
        match resolved_rules(loaded.common.rules, loaded.common) {
            Ok(rules) => typed_count(rules, "control-plane"@) <= usize::MAX ==> (play_begin(
                loaded,
                instances,
                home,
                auto,
                no_wait,
                log,
            ).0 is Wait <==> typed_count(rules, "control-plane"@) > 0),
            Err(_) => play_begin(loaded, instances, home, auto, no_wait, log).0 is Failed,
        },
        !(play_begin(loaded, instances, home, auto, no_wait, log).0 is Done),
{
    if let Ok(rules) = resolved_rules(loaded.common.rules, loaded.common) {
        law_first_control_plane(rules);
        law_every_typed_node_is_a_target(rules, "control-plane"@, 0, 0);
        if first_control_plane(rules) is None {
            lemma_no_typed_nodes(rules);
        }
    }
}

proof fn lemma_no_typed_nodes(rules: Seq<ResolvedModel>)
    requires
        forall|j: int| 0 <= j < rules.len() ==> (#[trigger] rules[j]).group_type != "control-plane"@,
    ensures
        typed_count(rules, "control-plane"@) == 0,
    decreases rules.len(),
{
    if rules.len() > 0 {
        let front = rules.drop_last();
        assert forall|j: int| 0 <= j < front.len() implies (#[trigger] front[j]).group_type != "control-plane"@ by {
            assert(front[j] == rules[j]);
        }
        assert(rules[rules.len() - 1].group_type != "control-plane"@);
        lemma_no_typed_nodes(front);
    }
}

proof fn lemma_type_warnings(rules: Seq<ResolvedModel>, r: int, log: Log)
    ensures
        kept(log, type_warnings(rules, log)),
        0 <= r < rules.len() && rules[r].group_type != "control-plane"@ && rules[r].group_type != "worker"@
            ==> type_warnings(rules, log).contains(
            Note::Warn("  ⚠ Unknown group type '"@ + rules[r].group_type + "' — skipping in play."@),
        ),
    decreases rules.len(),
{
    if rules.len() > 0 {
        let before = type_warnings(rules.drop_last(), log);
        let after = type_warnings(rules, log);
        lemma_type_warnings(rules.drop_last(), r, log);
        if 0 <= r < rules.len() && rules[r].group_type != "control-plane"@ && rules[r].group_type != "worker"@ {
            let line = Note::Warn("  ⚠ Unknown group type '"@ + rules[r].group_type + "' — skipping in play."@);
            if r == rules.len() - 1 {
                assert(after[before.len() as int] == line);
            } else {
                let j = choose|j: int| 0 <= j < before.len() && before[j] == line;
                assert(after[j] == line);
            }
        }
    }
}

/// Provisioning that cannot start says why: the error of the rules, that none of
/// them is for control-plane groups, or that those have no node.
pub proof fn law_play_says_why_not(
    loaded: LoadedModel,
    instances: Entries,
    home: Option<Seq<char>>,
    auto: bool,
    no_wait: bool,
    log: Log,
)
    ensures
        match resolved_rules(loaded.common.rules, loaded.common) {
            Err(e) => play_begin(loaded, instances, home, auto, no_wait, log).0 == Progress::<
                PlayModel,
                Seq<char>,
            >::Failed(rule_message(e)),
            Ok(rules) => play_begin(loaded, instances, home, auto, no_wait, log).0 matches Progress::Failed(e) ==> if exists|
                i: int,
            |
                0 <= i < rules.len() && (#[trigger] rules[i]).group_type == "control-plane"@ {
                e == "No control-plane nodes found in config."@
            } else {
                e == "No control-plane rules found in config"@
            },
        },
{
    if let Ok(rules) = resolved_rules(loaded.common.rules, loaded.common) {
        law_first_control_plane(rules);
        if first_control_plane(rules) is Some {
            let i = choose|i: int| #[trigger] leads(rules, i);
            assert(leads(rules, i));
            assert(rules[i].group_type == "control-plane"@);
        }
    }
}

/// Each node is headed by its place among those of its kind, its name and its
/// address, and a private one by its jump host. Before a node joins it is
/// named, and for a worker the command is shown.
pub proof fn law_nodes_are_headed(m: PlayModel, i: int, log: Log)
    requires
        0 <= m.plan.cp_count <= m.plan.nodes.len(),
    ensures
        1 <= i < m.plan.cp_count ==> kept(
            log.push(
                Note::Say(
                    "\n  ["@ + decimal((i + 1) as nat) + "/"@ + decimal(m.plan.cp_count as nat) + "] "@
                        + m.plan.nodes[i].0 + "  ("@ + m.ips[i] + ")"@,
                ),
            ),
            visit_cp(m, i, log).1,
        ),
        m.plan.cp_count <= i < m.plan.nodes.len() ==> kept(
            log.push(
                Note::Say(
                    "\n  ["@ + decimal((i - m.plan.cp_count + 1) as nat) + "/"@ + decimal(
                        (m.plan.nodes.len() - m.plan.cp_count) as nat,
                    ) + "] "@ + m.plan.nodes[i].0 + "  ("@ + m.ips[i] + ")"@,
                ),
            ),
            visit_worker(m, i, log).1,
        ),
        run_cp_join(m, i, log).1 == log.push(
            Note::Say("\n  Joining "@ + m.plan.nodes[i].0 + " as control-plane node …\n"@),
        ),
        m.worker_join.len() > 0 ==> run_worker_join(m, i, log).1 == log.push(
            Note::Say("  Join command: "@ + m.worker_join),
        ).push(Note::Say("\n  Joining "@ + m.plan.nodes[i].0 + " …\n"@)),
        m.worker_join.len() == 0 ==> kept(
            log.push(Note::Warn("  ✗ No join command available — skipping "@ + m.plan.nodes[i].0 + "."@)),
            run_worker_join(m, i, log).1,
        ),
        routed(m, m.plan.nodes[i].1, log) == (match route(m, m.plan.nodes[i].1) {
            Some(_) => log.push(
                Note::Say(
                    "    (routing through "@ + (match m.plan.provisioner {
                        Some(p) => p.node,
                        None => m.plan.nodes[0].0,
                    }) + " @ "@ + m.jump_ip + " via ProxyJump)"@,
                ),
            ),
            None => log,
        }),
        kept(
            log.push(Note::Say("\n  ✓ All nodes ready for provisioning.\n"@)).push(
                Note::Say("\n━━ Step 1 / 3 — Primary control-plane init ("@ + m.plan.nodes[0].0 + ") ━━━━━━━━━━━━"@),
            ).push(Note::Say("\n  ["@ + m.plan.nodes[0].0 + "]  ("@ + m.ips[0] + ")"@)),
            ready(m, log).1,
        ),
        kept(
            log.push(Note::Say("  SSH user: "@ + m.plan.user + "  private key: "@ + m.plan.key)),
            all_fetched(m, log).1,
        ),
{
    lemma_located_tells(
        PlayModel { jump_ip: m.ips[0], ..m },
        log.push(Note::Say("  SSH user: "@ + m.plan.user + "  private key: "@ + m.plan.key)),
    );
    lemma_nodes_tell(m, i + 1);
    let warned = log.push(Note::Warn("  ✗ No join command available — skipping "@ + m.plan.nodes[i].0 + "."@));
    assert(kept(warned, visit_worker(m, i + 1, warned).1));
}

/// When provisioning starts the operator is warned of each rule for groups of
/// an unknown type, and is told where the number of control-plane nodes is one
/// or even, and only then.
pub proof fn law_play_start_warns(
    loaded: LoadedModel,
    instances: Entries,
    home: Option<Seq<char>>,
    auto: bool,
    no_wait: bool,
    r: int,
    log: Log,
)
    ensures
        ({
            let (begun, told) = play_begin(loaded, instances, home, auto, no_wait, log);
            begun is Wait ==> (resolved_rules(loaded.common.rules, loaded.common) matches Ok(rules) && {
                let cps = typed_count(rules, "control-plane"@);
                let type_line = Note::Warn(
                    "  ⚠ Unknown group type '"@ + rules[r].group_type + "' — skipping in play."@,
                );
                &&& 0 <= r < rules.len() && rules[r].group_type != "control-plane"@ && rules[r].group_type
                    != "worker"@ ==> told.contains(type_line)
                &&& told.len() > 1
                &&& told.last() == Note::Say("\n  Fetching IPs (waiting for assignments if necessary) …"@)
                &&& cps <= usize::MAX && cps == 1 ==> told[told.len() - 2] == Note::Say(
                    "\n  ℹ  INFO: Single control-plane node — this cluster will not be highly available."@,
                )
                &&& cps <= usize::MAX && cps % 2 == 0 ==> told[told.len() - 2] == Note::Warn(
                    "\n  ⚠  WARNING: Even number of control-plane nodes ("@ + decimal(cps)
                        + ") detected. An odd count (e.g. 3 or 5) is strongly recommended for proper \
                         etcd quorum. Proceed with caution."@,
                )
                &&& cps <= usize::MAX && cps % 2 == 1 && cps > 1 ==> told.drop_last() == type_warnings(
                    rules,
                    settings(loaded, log),
                )
            })
        }),
{
    let (begun, told) = play_begin(loaded, instances, home, auto, no_wait, log);
    if let Ok(rules) = resolved_rules(loaded.common.rules, loaded.common) {
        let warned = type_warnings(rules, settings(loaded, log));
        lemma_type_warnings(rules, r, settings(loaded, log));
        law_every_typed_node_is_a_target(rules, "control-plane"@, 0, 0);
        if begun is Wait {
            assert(settings(loaded, log).len() > 0) by {
                law_provider_described(loaded, log.push(Note::Say(SETTINGS@)));
            }
            assert(kept(warned, told));
            let type_line = Note::Warn("  ⚠ Unknown group type '"@ + rules[r].group_type + "' — skipping in play."@);
            if 0 <= r < rules.len() && rules[r].group_type != "control-plane"@ && rules[r].group_type != "worker"@ {
                let j = choose|j: int| 0 <= j < warned.len() && warned[j] == type_line;
                assert(told[j] == type_line);
            }
            assert(told.drop_last().push(told.last()) =~= told);
        }
    }
}

fn warn_types(rules: &Vec<CommonResolvedRule>, log: &mut Vec<Note<String>>)
    ensures
        final(log).deep_view() == type_warnings(rules.deep_view(), old(log).deep_view()),
{
    let ghost all = rules.deep_view();
    let ghost start = log.deep_view();
    let mut i: usize = 0;
    while i < rules.len()
        invariant
            i <= rules@.len(),
            all == rules.deep_view(),
            log.deep_view() == type_warnings(all.take(i as int), start),
        decreases rules@.len() - i,
    {
        assert(all.take(i + 1).drop_last() =~= all.take(i as int));
        assert(all.take(i + 1).last() == rules@[i as int].deep_view());
        let group_type = rules[i].group_type.as_str();
        if !same(group_type, "control-plane") && !same(group_type, "worker") {
            warn(log, cat3("  ⚠ Unknown group type '", group_type, "' — skipping in play."));
        }
        i = i + 1;
    }
    assert(all.take(i as int) =~= all);
}

fn note_quorum(cp_count: usize, log: &mut Vec<Note<String>>)
    ensures
        final(log).deep_view() == quorum_note(cp_count as nat, old(log).deep_view()),
{
    if cp_count == 1 {
        say(
            log,
            "\n  ℹ  INFO: Single control-plane node — this cluster will not be highly available.".to_owned(),
        );
    } else if cp_count % 2 == 0 {
        warn(
            log,
            cat3(
                "\n  ⚠  WARNING: Even number of control-plane nodes (",
                number(cp_count as u64).as_str(),
                ") detected. An odd count (e.g. 3 or 5) is strongly recommended for proper \
                 etcd quorum. Proceed with caution.",
            ),
        );
    }
}

/// Start provisioning Kubernetes on the nodes of a configuration.
///
/// `instances` are the identifiers of the nodes that were created, `home` is
/// the home directory, and with `no_wait` a node on which containerd does not
/// run yet is an error at once.
pub fn play_config(
    loaded: &LoadedProvider,
    instances: Registry,
    home: &Option<String>,
    auto_approve: bool,
    no_wait: bool,
    log: &mut Vec<Note<String>>,
) -> (r: Progress<Play, String>)
    ensures
        (r.deep_view(), final(log).deep_view()) == play_begin(
            loaded.deep_view(),
            instances.deep_view(),
            home.deep_view(),
            auto_approve,
            no_wait,
            old(log).deep_view(),
        ),
        r matches Progress::Wait(play, _) ==> play_wf(play.deep_view()) && play_routed(play.deep_view()),
{
    show_settings(loaded, log);
    let common = loaded.common();
    let rules = match resolve_rules(common) {
        Ok(rules) => rules,
        Err(e) => return Progress::Failed(e.message()),
    };
    warn_types(&rules, log);
    let first = match control_plane_rule(&rules) {
        Some(rule) => rule,
        None => return Progress::Failed("No control-plane rules found in config".to_owned()),
    };
    let mut nodes: Vec<(String, bool)> = Vec::new();
    assert(nodes.deep_view() =~= Seq::<Target>::empty());
    push_typed(&rules, "control-plane", &mut nodes);
    let ghost cps = typed_targets(rules.deep_view(), "control-plane"@);
    assert(nodes.deep_view() =~= cps);
    let cp_count = nodes.len();
    if cp_count == 0 {
        return Progress::Failed("No control-plane nodes found in config.".to_owned());
    }
    push_typed(&rules, "worker", &mut nodes);
    assert(cp_count <= nodes.deep_view().len() == nodes.len());
    let plan = PlayPlan {
        nodes,
        cp_count,
        instances,
        user: first.merged.user.clone(),
        key: private_key_path(first.merged.ssh_public_key.as_str(), home),
        endpoint: first.merged.control_plane_endpoint.clone(),
        cert_sans: clone_list(&first.merged.cert_sans),
        provisioner: clone_provisioner(&common.provisioner),
        auto: auto_approve,
        no_wait,
    };
    note_quorum(cp_count, log);
    say(log, "\n  Fetching IPs (waiting for assignments if necessary) …".to_owned());
    let ips: Vec<String> = Vec::new();
    assert(ips.deep_view() =~= Seq::<Seq<char>>::empty());
    let play = Play {
        plan,
        ips,
        jump_ip: "".to_owned(),
        endpoint: "".to_owned(),
        cp_join: "".to_owned(),
        worker_join: "".to_owned(),
        fingerprint: None,
        stage: PlayStage::AltAddress,
    };
    play.fetch(0, 0, log)
}

// ---------------------------------------------------------------------------
// Stepping
// ---------------------------------------------------------------------------

impl Play {
    fn name(&self, i: usize) -> (r: &str)
        requires
            i < self.plan.nodes@.len(),
        ensures
            r@ == self.deep_view().plan.nodes[i as int].0,
    {
        self.plan.nodes[i].0.as_str()
    }

    fn public(&self, i: usize) -> (r: bool)
        requires
            i < self.plan.nodes@.len(),
        ensures
            r == self.deep_view().plan.nodes[i as int].1,
    {
        self.plan.nodes[i].1
    }

    fn ip(&self, i: usize) -> (r: String)
        requires
            i < self.ips@.len(),
        ensures
            r@ == self.deep_view().ips[i as int],
    {
        self.ips[i].clone()
    }

    fn jump_name(&self) -> (r: String)
        requires
            has_primary(self.deep_view()),
        ensures
            r@ == jump_name(self.deep_view()),
    {
        match &self.plan.provisioner {
            Some(p) => p.node.clone(),
            None => self.plan.nodes[0].0.clone(),
        }
    }

    fn jump_public(&self) -> (r: bool)
        requires
            has_primary(self.deep_view()),
        ensures
            r == jump_public(self.deep_view()),
    {
        match &self.plan.provisioner {
            Some(p) => same(p.provisioner_type.as_str(), "public"),
            None => self.public(0),
        }
    }

    fn primary_route(&self) -> (r: Option<String>)
        requires
            has_primary(self.deep_view()),
        ensures
            r.deep_view() == primary_route(self.deep_view()),
    {
        if self.plan.provisioner.is_some() && self.jump_public() {
            Some(self.jump_ip.clone())
        } else {
            None
        }
    }

    fn route(&self, public: bool) -> (r: Option<String>)
        requires
            has_primary(self.deep_view()),
        ensures
            r.deep_view() == route(self.deep_view(), public),
    {
        if !public && self.jump_public() {
            Some(self.jump_ip.clone())
        } else {
            None
        }
    }

    fn say_route(&self, public: bool, log: &mut Vec<Note<String>>)
        requires
            has_primary(self.deep_view()),
        ensures
            final(log).deep_view() == routed(self.deep_view(), public, old(log).deep_view()),
    {
        if self.route(public).is_some() {
            say(
                log,
                cat5(
                    "    (routing through ",
                    self.jump_name().as_str(),
                    " @ ",
                    self.jump_ip.as_str(),
                    " via ProxyJump)",
                ),
            );
        }
    }

    fn first_public(&self, i: usize) -> (r: bool)
        requires
            settled(self.deep_view()),
            i < self.plan.nodes@.len(),
        ensures
            r == first_public(
                peers(self.deep_view(), i as int),
                self.deep_view().plan.nodes[i as int].0,
            ),
    {
        let ghost nodes = self.plan.nodes.deep_view();
        let ghost name = nodes[i as int].0;
        let (from, to): (usize, usize) = if i < self.plan.cp_count {
            (0, self.plan.cp_count)
        } else {
            (self.plan.cp_count, self.plan.nodes.len())
        };
        let ghost all = nodes.subrange(from as int, to as int);
        let mut k: usize = from;
        while k < to
            invariant
                from <= k <= to <= self.plan.nodes@.len(),
                i < self.plan.nodes@.len(),
                nodes == self.plan.nodes.deep_view(),
                name == nodes[i as int].0,
                all == peers(self.deep_view(), i as int),
                first_public(all, name) == first_public(nodes.subrange(k as int, to as int), name),
            decreases to - k,
        {
            let ghost rest = nodes.subrange(k as int, to as int);
            assert(rest[0] == self.plan.nodes@[k as int].deep_view());
            assert(rest.skip(1) =~= nodes.subrange(k + 1, to as int));
            if same(self.plan.nodes[k].0.as_str(), self.plan.nodes[i].0.as_str()) {
                return self.plan.nodes[k].1;
            }
            k = k + 1;
        }
        true
    }

    fn fetch(self, i: usize, tries: usize, log: &mut Vec<Note<String>>) -> (r: Progress<Play, String>)
        requires
            i < self.plan.nodes@.len(),
        ensures
            (r.deep_view(), final(log).deep_view()) == fetch(
                self.deep_view(),
                i as int,
                tries as int,
                old(log).deep_view(),
            ),
    {
        let action = Action::Address {
            instance: self.plan.instances.get_or_name(self.name(i)),
            prefer_public: self.public(i),
        };
        Progress::Wait(Play { stage: PlayStage::Fetching(i, tries), ..self }, action)
    }

    fn fetched(self, i: usize, ip: String, log: &mut Vec<Note<String>>) -> (r: Progress<Play, String>)
        requires
            has_primary(self.deep_view()),
            i < self.plan.nodes@.len(),
            self.ips@.len() == i,
        ensures
            (r.deep_view(), final(log).deep_view()) == fetched(
                self.deep_view(),
                i as int,
                ip@,
                old(log).deep_view(),
            ),
    {
        say(log, show_address(self.name(i), ip.as_str(), self.public(i)));
        let mut ips = self.ips;
        let ghost before = ips.deep_view();
        ips.push(ip);
        assert(ips.deep_view() =~= before.push(ip@));
        let more = Play { ips, ..self };
        if i + 1 < more.plan.nodes.len() {
            more.fetch(i + 1, 0, log)
        } else {
            more.all_fetched(log)
        }
    }

    fn fetch_jump(self, tries: usize, log: &mut Vec<Note<String>>) -> (r: Progress<Play, String>)
        requires
            self.plan.provisioner is Some,
        ensures
            (r.deep_view(), final(log).deep_view()) == fetch_jump(
                self.deep_view(),
                self.deep_view().plan.provisioner->0,
                tries as int,
                old(log).deep_view(),
            ),
    {
        match &self.plan.provisioner {
            Some(p) => {
                let action = Action::Address {
                    instance: self.plan.instances.get_or_name(p.node.as_str()),
                    prefer_public: same(p.provisioner_type.as_str(), "public"),
                };
                Progress::Wait(Play { stage: PlayStage::FetchingJump(tries), ..self }, action)
            },
            None => Progress::Failed(OUT_OF_STEP.to_owned()),
        }
    }

    fn all_fetched(self, log: &mut Vec<Note<String>>) -> (r: Progress<Play, String>)
        requires
            settled(self.deep_view()),
        ensures
            (r.deep_view(), final(log).deep_view()) == all_fetched(self.deep_view(), old(log).deep_view()),
    {
        say(
            log,
            cat4(
                "  SSH user: ",
                self.plan.user.as_str(),
                "  private key: ",
                self.plan.key.as_str(),
            ),
        );
        match &self.plan.provisioner {
            Some(p) => {
                say(
                    log,
                    cat5(
                        "\n  Provisioner node configured: ",
                        p.node.as_str(),
                        " (",
                        p.provisioner_type.as_str(),
                        ")",
                    ),
                );
                self.fetch_jump(0, log)
            },
            None => {
                let jump_ip = self.ip(0);
                Play { jump_ip, ..self }.located(log)
            },
        }
    }

    fn say_sans(&self, log: &mut Vec<Note<String>>)
        ensures
            final(log).deep_view() == san_lines(self.deep_view().plan.cert_sans, old(log).deep_view()),
    {
        let ghost all = self.plan.cert_sans.deep_view();
        let ghost start = log.deep_view();
        let mut i: usize = 0;
        while i < self.plan.cert_sans.len()
            invariant
                i <= self.plan.cert_sans@.len(),
                all == self.plan.cert_sans.deep_view(),
                log.deep_view() == san_lines(all.take(i as int), start),
            decreases self.plan.cert_sans@.len() - i,
        {
            assert(all.take(i + 1).drop_last() =~= all.take(i as int));
            assert(all.take(i + 1).last() == self.plan.cert_sans@[i as int]@);
            say(log, cat2("    - ", self.plan.cert_sans[i].as_str()));
            i = i + 1;
        }
        assert(all.take(i as int) =~= all);
    }

    fn say_endpoint(&self, endpoint: &str, log: &mut Vec<Note<String>>)
        requires
            settled(self.deep_view()),
        ensures
            final(log).deep_view() == endpoint_lines(self.deep_view(), endpoint@, old(log).deep_view()),
    {
        say(log, cat2("\n  control-plane-endpoint: ", endpoint));
        if self.plan.cert_sans.len() > 0 {
            say(log, "  apiServer certSANs:".to_owned());
            self.say_sans(log);
        }
        if self.plan.cp_count >= 3 && endpoint_is(endpoint, self.ips[0].as_str()) {
            warn(
                log,
                cat3(
                    "\n  ⚠  WARNING: control-plane-endpoint is set to the primary node's own \
                     IP (",
                    endpoint,
                    ").\n\
                     This works but is not truly highly available — if that node is lost \
                     the API server becomes unreachable.\n\
                     Consider adding a load-balancer and setting 'control-plane-endpoint' \
                     in the relevant spec block of your config.",
                ),
            );
        }
    }

    fn located(self, log: &mut Vec<Note<String>>) -> (r: Progress<Play, String>)
        requires
            settled(self.deep_view()),
        ensures
            (r.deep_view(), final(log).deep_view()) == located(self.deep_view(), old(log).deep_view()),
    {
        let endpoint = control_plane_endpoint(&self.plan.endpoint, self.ips[0].as_str());
        self.say_endpoint(endpoint.as_str(), log);
        say(log, "\n━━ Preflight check — Verifying containerd on all nodes ━━━━━━━━━━━━━━".to_owned());
        say(log, "\n  Control-plane nodes:".to_owned());
        Play { endpoint, ..self }.preflight(0, log)
    }

    fn preflight(self, i: usize, log: &mut Vec<Note<String>>) -> (r: Progress<Play, String>)
        requires
            settled(self.deep_view()),
            i < self.plan.nodes@.len(),
        ensures
            (r.deep_view(), final(log).deep_view()) == preflight(
                self.deep_view(),
                i as int,
                old(log).deep_view(),
            ),
    {
        let action = Action::Containerd {
            ip: self.ip(i),
            name: self.name(i).to_owned(),
            jump: self.route(self.first_public(i)),
            wait: !self.plan.no_wait,
        };
        Progress::Wait(Play { stage: PlayStage::Preflight(i), ..self }, action)
    }

    fn checked(self, i: usize, log: &mut Vec<Note<String>>) -> (r: Progress<Play, String>)
        requires
            settled(self.deep_view()),
            i < self.plan.nodes@.len(),
        ensures
            (r.deep_view(), final(log).deep_view()) == checked(
                self.deep_view(),
                i as int,
                old(log).deep_view(),
            ),
    {
        say(log, cat2("    ✓ ", self.name(i)));
        if i + 1 == self.plan.cp_count {
            say(log, "\n  Worker nodes:".to_owned());
        }
        if i + 1 < self.plan.nodes.len() {
            self.preflight(i + 1, log)
        } else {
            self.ready(log)
        }
    }

    fn ready(self, log: &mut Vec<Note<String>>) -> (r: Progress<Play, String>)
        requires
            settled(self.deep_view()),
        ensures
            (r.deep_view(), final(log).deep_view()) == ready(self.deep_view(), old(log).deep_view()),
    {
        say(log, "\n  ✓ All nodes ready for provisioning.\n".to_owned());
        say(
            log,
            cat3("\n━━ Step 1 / 3 — Primary control-plane init (", self.name(0), ") ━━━━━━━━━━━━"),
        );
        say(log, cat5("\n  [", self.name(0), "]  (", self.ips[0].as_str(), ")"));
        let question = cat3("  SSH-check and provision ", self.name(0), "?");
        if self.plan.auto {
            say(log, question.concat(AUTO_APPROVED));
            self.primary(log)
        } else {
            Progress::Wait(Play { stage: PlayStage::AskPrimary, ..self }, Action::Confirm(question))
        }
    }

    fn node_guard(&self, i: usize, jump: Option<String>, log: &mut Vec<Note<String>>) -> (r: Progress<
        Guard<String>,
        String,
    >)
        requires
            settled(self.deep_view()),
            i < self.plan.nodes@.len(),
        ensures
            (r.deep_view(), final(log).deep_view()) == guard_begin(
                node_guard(self.deep_view(), i as int, jump.deep_view()),
                old(log).deep_view(),
            ),
    {
        ensure_cp_endpoint_resolves(
            self.name(i).to_owned(),
            self.endpoint.as_str(),
            self.ip(0),
            self.plan.auto,
            self.ip(i),
            jump,
            log,
        )
    }

    fn primary(self, log: &mut Vec<Note<String>>) -> (r: Progress<Play, String>)
        requires
            settled(self.deep_view()),
        ensures
            (r.deep_view(), final(log).deep_view()) == primary(self.deep_view(), old(log).deep_view()),
    {
        let p = self.node_guard(0, self.primary_route(), log);
        self.primary_guard(p, log)
    }

    fn ask_primary_for(self, stage: PlayStage<String>, command: &str, log: &mut Vec<Note<String>>) -> (r:
        Progress<Play, String>)
        requires
            settled(self.deep_view()),
        ensures
            (r.deep_view(), final(log).deep_view()) == ask_primary_for(
                self.deep_view(),
                stage.deep_view(),
                command@,
                old(log).deep_view(),
            ),
    {
        let action = Action::Capture {
            ip: self.ip(0),
            jump: self.primary_route(),
            command: command.to_owned(),
        };
        Progress::Wait(Play { stage, ..self }, action)
    }

    fn primary_guard(self, p: Progress<Guard<String>, String>, log: &mut Vec<Note<String>>) -> (r: Progress<
        Play,
        String,
    >)
        requires
            settled(self.deep_view()),
        ensures
            (r.deep_view(), final(log).deep_view()) == primary_guard(
                self.deep_view(),
                (p.deep_view(), old(log).deep_view()),
            ),
    {
        match p {
            Progress::Wait(g, a) => Progress::Wait(Play { stage: PlayStage::PrimaryGuard(g), ..self }, a),
            Progress::Done => self.ask_primary_for(PlayStage::PrimaryCheck, INIT_CHECK, log),
            Progress::Failed(e) => Progress::Failed(e),
        }
    }

    fn primary_checked(self, answer: &str, log: &mut Vec<Note<String>>) -> (r: Progress<Play, String>)
        requires
            settled(self.deep_view()),
        ensures
            (r.deep_view(), final(log).deep_view()) == primary_checked(
                self.deep_view(),
                answer@,
                old(log).deep_view(),
            ),
    {
        if same(trim(answer).as_str(), "yes") {
            say(log, cat3("  ✓ ", self.name(0), " already initialised — skipping kubeadm init."));
            if self.plan.cp_count >= 3 {
                say(log, "  Verifying controlPlaneEndpoint in kubeadm-config …".to_owned());
                self.ask_primary_for(PlayStage::PrimaryVerify, STORED_ENDPOINT_COMMAND, log)
            } else {
                self.primary_network(log)
            }
        } else {
            let p = provision_control_plane_node(
                self.ip(0),
                self.name(0).to_owned(),
                self.endpoint.as_str(),
                self.plan.cp_count >= 3,
                self.primary_route(),
                self.plan.auto,
                &self.plan.cert_sans,
                log,
            );
            self.primary_init(p, log)
        }
    }

    fn primary_verified(self, output: &str, log: &mut Vec<Note<String>>) -> (r: Progress<Play, String>)
        requires
            settled(self.deep_view()),
        ensures
            (r.deep_view(), final(log).deep_view()) == primary_verified(
                self.deep_view(),
                output@,
                old(log).deep_view(),
            ),
    {
        match verify_control_plane_endpoint(self.name(0), self.endpoint.as_str(), output, log) {
            Ok(_) => self.primary_network(log),
            Err(e) => Progress::Failed(e),
        }
    }

    fn primary_network(self, log: &mut Vec<Note<String>>) -> (r: Progress<Play, String>)
        requires
            settled(self.deep_view()),
        ensures
            (r.deep_view(), final(log).deep_view()) == primary_network(
                self.deep_view(),
                old(log).deep_view(),
            ),
    {
        let p = provision_cilium(
            self.ip(0),
            self.name(0).to_owned(),
            self.primary_route(),
            self.plan.auto,
            log,
        );
        self.primary_cilium(p, log)
    }

    fn primary_cilium(self, p: Progress<Cilium<String>, String>, log: &mut Vec<Note<String>>) -> (r:
        Progress<Play, String>)
        requires
            settled(self.deep_view()),
        ensures
            (r.deep_view(), final(log).deep_view()) == primary_cilium(
                self.deep_view(),
                (p.deep_view(), old(log).deep_view()),
            ),
    {
        match p {
            Progress::Wait(c, a) => Progress::Wait(Play { stage: PlayStage::PrimaryCilium(c), ..self }, a),
            Progress::Done => self.additional(log),
            Progress::Failed(e) => Progress::Failed(e),
        }
    }

    fn primary_init(self, p: Progress<Init<String>, String>, log: &mut Vec<Note<String>>) -> (r: Progress<
        Play,
        String,
    >)
        requires
            settled(self.deep_view()),
        ensures
            (r.deep_view(), final(log).deep_view()) == primary_init(
                self.deep_view(),
                (p.deep_view(), old(log).deep_view()),
            ),
    {
        match p {
            Progress::Wait(i, a) => Progress::Wait(Play { stage: PlayStage::PrimaryInit(i), ..self }, a),
            Progress::Done => self.additional(log),
            Progress::Failed(e) => Progress::Failed(e),
        }
    }

    fn additional(self, log: &mut Vec<Note<String>>) -> (r: Progress<Play, String>)
        requires
            settled(self.deep_view()),
        ensures
            (r.deep_view(), final(log).deep_view()) == additional(self.deep_view(), old(log).deep_view()),
    {
        if self.plan.cp_count >= 3 {
            say(
                log,
                cat3(
                    "\n━━ Step 2 / 3 — Additional control-plane nodes (",
                    number((self.plan.cp_count - 1) as u64).as_str(),
                    " nodes) ━━━━━━━━━━━━━━",
                ),
            );
            self.ask_primary_for(PlayStage::CpJoinCommand, CP_JOIN_SCRIPT, log)
        } else {
            say(
                log,
                "\n━━ Step 2 / 3 — Additional control-plane nodes ━━━━━━━━━━━━━━━━━━━━━━━━".to_owned(),
            );
            say(log, "  Single-node cluster — no additional control-plane nodes to join.".to_owned());
            self.workers(log)
        }
    }

    fn cp_join_known(self, event: Event<String>, log: &mut Vec<Note<String>>) -> (r: Progress<Play, String>)
        requires
            settled(self.deep_view()),
        ensures
            (r.deep_view(), final(log).deep_view()) == cp_join_known(
                self.deep_view(),
                event.deep_view(),
                old(log).deep_view(),
            ),
    {
        match event {
            Event::Output(command) => {
                if command.as_str().is_empty() {
                    warn(
                        log,
                        cat3(
                            "  ✗ Empty control-plane join command from ",
                            self.name(0),
                            " — is it fully up?",
                        ),
                    );
                    Play { cp_join: "".to_owned(), ..self }.visit_cp(1, log)
                } else {
                    Play { cp_join: command, ..self }.visit_cp(1, log)
                }
            },
            Event::Failed(e) => {
                warn(log, cat2("  ✗ Could not fetch control-plane join command: ", e.as_str()));
                Play { cp_join: "".to_owned(), ..self }.visit_cp(1, log)
            },
            _ => Progress::Failed(OUT_OF_STEP.to_owned()),
        }
    }

    fn visit_cp(self, i: usize, log: &mut Vec<Note<String>>) -> (r: Progress<Play, String>)
        requires
            settled(self.deep_view()),
        ensures
            (r.deep_view(), final(log).deep_view()) == visit_cp(
                self.deep_view(),
                i as int,
                old(log).deep_view(),
            ),
    {
        if i < self.plan.cp_count {
            let mut line = cat7(
                "\n  [",
                number((i + 1) as u64).as_str(),
                "/",
                number(self.plan.cp_count as u64).as_str(),
                "] ",
                self.name(i),
                "  (",
            );
            line.append(self.ips[i].as_str());
            line.append(")");
            say(log, line);
            let question = cat3("  Check and join ", self.name(i), " as control-plane?");
            if self.plan.auto {
                say(log, question.concat(AUTO_APPROVED));
                self.join_cp(i, log)
            } else {
                Progress::Wait(Play { stage: PlayStage::AskCp(i), ..self }, Action::Confirm(question))
            }
        } else {
            self.workers(log)
        }
    }

    fn ask_node_for(
        self,
        i: usize,
        stage: PlayStage<String>,
        command: &str,
        log: &mut Vec<Note<String>>,
    ) -> (r: Progress<Play, String>)
        requires
            settled(self.deep_view()),
            i < self.plan.nodes@.len(),
        ensures
            (r.deep_view(), final(log).deep_view()) == ask_node_for(
                self.deep_view(),
                i as int,
                stage.deep_view(),
                command@,
                old(log).deep_view(),
            ),
    {
        let action = Action::Capture {
            ip: self.ip(i),
            jump: self.route(self.public(i)),
            command: command.to_owned(),
        };
        Progress::Wait(Play { stage, ..self }, action)
    }

    fn join_cp(self, i: usize, log: &mut Vec<Note<String>>) -> (r: Progress<Play, String>)
        requires
            settled(self.deep_view()),
            i < self.plan.cp_count,
        ensures
            (r.deep_view(), final(log).deep_view()) == join_cp(
                self.deep_view(),
                i as int,
                old(log).deep_view(),
            ),
    {
        let public = self.public(i);
        self.say_route(public, log);
        let p = self.node_guard(i, self.route(public), log);
        self.cp_guard(i, p, log)
    }

    fn cp_guard(self, i: usize, p: Progress<Guard<String>, String>, log: &mut Vec<Note<String>>) -> (r:
        Progress<Play, String>)
        requires
            settled(self.deep_view()),
            i < self.plan.cp_count,
        ensures
            (r.deep_view(), final(log).deep_view()) == cp_guard(
                self.deep_view(),
                i as int,
                (p.deep_view(), old(log).deep_view()),
            ),
    {
        match p {
            Progress::Wait(g, a) => Progress::Wait(Play { stage: PlayStage::CpGuard(i, g), ..self }, a),
            Progress::Done => self.ask_node_for(i, PlayStage::CpCheck(i), INIT_CHECK, log),
            Progress::Failed(e) => Progress::Failed(e),
        }
    }

    fn cp_checked(self, i: usize, event: Event<String>, log: &mut Vec<Note<String>>) -> (r: Progress<
        Play,
        String,
    >)
        requires
            settled(self.deep_view()),
            i < self.plan.cp_count,
        ensures
            (r.deep_view(), final(log).deep_view()) == cp_checked(
                self.deep_view(),
                i as int,
                event.deep_view(),
                old(log).deep_view(),
            ),
    {
        match event {
            Event::Output(answer) => {
                if same(trim(answer.as_str()).as_str(), "yes") {
                    say(log, cat3("  ✓ ", self.name(i), " already part of the control-plane — skipping."));
                    self.visit_cp(i + 1, log)
                } else if self.cp_join.as_str().is_empty() {
                    warn(log, cat3("  ✗ No join command available — skipping ", self.name(i), "."));
                    self.visit_cp(i + 1, log)
                } else {
                    say(log, cat2("  Join command: ", self.cp_join.as_str()));
                    if self.plan.auto {
                        say(log, cat2("  Run join command?", AUTO_APPROVED));
                        self.run_cp_join(i, log)
                    } else {
                        Progress::Wait(
                            Play { stage: PlayStage::AskCpJoin(i), ..self },
                            Action::Confirm("  Run join command?".to_owned()),
                        )
                    }
                }
            },
            Event::Failed(e) => {
                warn(log, cat4("  ✗ Could not check join status on ", self.name(i), ": ", e.as_str()));
                self.visit_cp(i + 1, log)
            },
            _ => Progress::Failed(OUT_OF_STEP.to_owned()),
        }
    }

    fn run_cp_join(self, i: usize, log: &mut Vec<Note<String>>) -> (r: Progress<Play, String>)
        requires
            settled(self.deep_view()),
            i < self.plan.cp_count,
        ensures
            (r.deep_view(), final(log).deep_view()) == run_cp_join(
                self.deep_view(),
                i as int,
                old(log).deep_view(),
            ),
    {
        say(log, cat3("\n  Joining ", self.name(i), " as control-plane node …\n"));
        let action = Action::Run {
            ip: self.ip(i),
            jump: self.route(self.public(i)),
            command: cat2("sudo ", self.cp_join.as_str()),
        };
        Progress::Wait(Play { stage: PlayStage::CpJoining(i), ..self }, action)
    }

    fn workers(self, log: &mut Vec<Note<String>>) -> (r: Progress<Play, String>)
        requires
            settled(self.deep_view()),
        ensures
            (r.deep_view(), final(log).deep_view()) == workers(self.deep_view(), old(log).deep_view()),
    {
        say(
            log,
            cat3(
                "\n━━ Step 3 / 3 — Join workers (",
                number((self.plan.nodes.len() - self.plan.cp_count) as u64).as_str(),
                " nodes) ━━━━━━━━━━━━━━━━━━━━━━━━━━━━━━━",
            ),
        );
        self.ask_primary_for(PlayStage::Fingerprint, FINGERPRINT_COMMAND, log)
    }

    fn fingerprint_known(self, event: Event<String>, log: &mut Vec<Note<String>>) -> (r: Progress<
        Play,
        String,
    >)
        requires
            settled(self.deep_view()),
        ensures
            (r.deep_view(), final(log).deep_view()) == fingerprint_known(
                self.deep_view(),
                event.deep_view(),
                old(log).deep_view(),
            ),
    {
        let fingerprint = match event {
            Event::Output(output) => {
                let fp = trim(output.as_str());
                if fp.as_str().is_empty() {
                    warn(
                        log,
                        cat3(
                            "  ⚠  Could not determine cluster CA fingerprint from ",
                            self.name(0),
                            " — membership verification will be skipped.",
                        ),
                    );
                    None
                } else {
                    say(log, cat2("  Cluster CA fingerprint (SHA-256): ", fp.as_str()));
                    Some(fp)
                }
            },
            Event::Failed(e) => {
                warn(
                    log,
                    cat3(
                        "  ⚠  Could not determine cluster CA fingerprint: ",
                        e.as_str(),
                        " — membership verification will be skipped.",
                    ),
                );
                None
            },
            _ => return Progress::Failed(OUT_OF_STEP.to_owned()),
        };
        Play { fingerprint, ..self }.ask_primary_for(PlayStage::WorkerJoinCommand, WORKER_JOIN_SCRIPT, log)
    }

    fn worker_join_known(self, event: Event<String>, log: &mut Vec<Note<String>>) -> (r: Progress<
        Play,
        String,
    >)
        requires
            settled(self.deep_view()),
        ensures
            (r.deep_view(), final(log).deep_view()) == worker_join_known(
                self.deep_view(),
                event.deep_view(),
                old(log).deep_view(),
            ),
    {
        let first = self.plan.cp_count;
        match event {
            Event::Output(command) => {
                if command.as_str().is_empty() {
                    warn(
                        log,
                        cat3("  ✗ Empty worker join command from ", self.name(0), " — is it fully up?"),
                    );
                    Play { worker_join: "".to_owned(), ..self }.visit_worker(first, log)
                } else {
                    Play { worker_join: command, ..self }.visit_worker(first, log)
                }
            },
            Event::Failed(e) => {
                warn(log, cat2("  ✗ Could not fetch worker join command: ", e.as_str()));
                Play { worker_join: "".to_owned(), ..self }.visit_worker(first, log)
            },
            _ => Progress::Failed(OUT_OF_STEP.to_owned()),
        }
    }

    fn visit_worker(self, i: usize, log: &mut Vec<Note<String>>) -> (r: Progress<Play, String>)
        requires
            settled(self.deep_view()),
            self.plan.cp_count <= i,
        ensures
            (r.deep_view(), final(log).deep_view()) == visit_worker(
                self.deep_view(),
                i as int,
                old(log).deep_view(),
            ),
    {
        if i < self.plan.nodes.len() {
            let mut line = cat7(
                "\n  [",
                number((i - self.plan.cp_count + 1) as u64).as_str(),
                "/",
                number((self.plan.nodes.len() - self.plan.cp_count) as u64).as_str(),
                "] ",
                self.name(i),
                "  (",
            );
            line.append(self.ips[i].as_str());
            line.append(")");
            say(log, line);
            self.say_route(self.public(i), log);
            if self.plan.auto {
                say(log, cat2("  Check and join?", AUTO_APPROVED));
                self.ask_node_for(i, PlayStage::WorkerCheck(i), JOIN_CHECK, log)
            } else {
                Progress::Wait(
                    Play { stage: PlayStage::AskWorker(i), ..self },
                    Action::Confirm("  Check and join?".to_owned()),
                )
            }
        } else {
            self.finale(log)
        }
    }

    fn worker_checked(self, i: usize, event: Event<String>, log: &mut Vec<Note<String>>) -> (r: Progress<
        Play,
        String,
    >)
        requires
            settled(self.deep_view()),
            self.plan.cp_count <= i < self.plan.nodes@.len(),
        ensures
            (r.deep_view(), final(log).deep_view()) == worker_checked(
                self.deep_view(),
                i as int,
                event.deep_view(),
                old(log).deep_view(),
            ),
    {
        match event {
            Event::Output(answer) => {
                if same(trim(answer.as_str()).as_str(), "joined") {
                    if self.fingerprint.is_some() {
                        self.ask_node_for(
                            i,
                            PlayStage::WorkerFingerprint(i),
                            WORKER_FINGERPRINT_COMMAND,
                            log,
                        )
                    } else {
                        say(
                            log,
                            cat3(
                                "  ✓ ",
                                self.name(i),
                                " already has kubelet.conf — skipping (CA fingerprint verification unavailable).",
                            ),
                        );
                        self.visit_worker(i + 1, log)
                    }
                } else {
                    self.join_worker(i, log)
                }
            },
            Event::Failed(e) => {
                warn(log, cat4("  ⚠  Could not check join status on ", self.name(i), ": ", e.as_str()));
                self.join_worker(i, log)
            },
            _ => Progress::Failed(OUT_OF_STEP.to_owned()),
        }
    }

    fn worker_identified(self, i: usize, event: Event<String>, log: &mut Vec<Note<String>>) -> (r: Progress<
        Play,
        String,
    >)
        requires
            settled(self.deep_view()),
            self.plan.cp_count <= i < self.plan.nodes@.len(),
        ensures
            (r.deep_view(), final(log).deep_view()) == worker_identified(
                self.deep_view(),
                i as int,
                event.deep_view(),
                old(log).deep_view(),
            ),
    {
        let expected = match &self.fingerprint {
            Some(expected) => expected.as_str(),
            None => return Progress::Failed(OUT_OF_STEP.to_owned()),
        };
        match event {
            Event::Output(output) => {
                let fp = trim(output.as_str());
                if same(fp.as_str(), expected) {
                    say(
                        log,
                        cat3(
                            "  ✓ ",
                            self.name(i),
                            " already joined to this cluster (CA fingerprint verified) — skipping.",
                        ),
                    );
                } else if !fp.as_str().is_empty() {
                    warn(
                        log,
                        cat7(
                            "  ✗ ",
                            self.name(i),
                            " is joined to a DIFFERENT cluster!\nExpected CA fingerprint : ",
                            expected,
                            "\nNode CA fingerprint     : ",
                            fp.as_str(),
                            "\nRefusing to re-join — manual intervention required \
                             (reset the node with `sudo kubeadm reset` first).",
                        ),
                    );
                } else {
                    warn(
                        log,
                        cat3(
                            "  ⚠  ",
                            self.name(i),
                            " has kubelet.conf but the CA fingerprint could not be extracted — skipping to avoid \
                             overwriting an existing cluster member.",
                        ),
                    );
                }
            },
            Event::Failed(e) => warn(
                log,
                cat5(
                    "  ⚠  ",
                    self.name(i),
                    " has kubelet.conf but CA fingerprint verification failed (",
                    e.as_str(),
                    ") — skipping to avoid overwriting an existing cluster member.",
                ),
            ),
            _ => return Progress::Failed(OUT_OF_STEP.to_owned()),
        }
        self.visit_worker(i + 1, log)
    }

    fn join_worker(self, i: usize, log: &mut Vec<Note<String>>) -> (r: Progress<Play, String>)
        requires
            settled(self.deep_view()),
            self.plan.cp_count <= i < self.plan.nodes@.len(),
        ensures
            (r.deep_view(), final(log).deep_view()) == join_worker(
                self.deep_view(),
                i as int,
                old(log).deep_view(),
            ),
    {
        let p = self.node_guard(i, self.route(self.public(i)), log);
        self.worker_guard(i, p, log)
    }

    fn worker_guard(self, i: usize, p: Progress<Guard<String>, String>, log: &mut Vec<Note<String>>) -> (r:
        Progress<Play, String>)
        requires
            settled(self.deep_view()),
            self.plan.cp_count <= i < self.plan.nodes@.len(),
        ensures
            (r.deep_view(), final(log).deep_view()) == worker_guard(
                self.deep_view(),
                i as int,
                (p.deep_view(), old(log).deep_view()),
            ),
    {
        match p {
            Progress::Wait(g, a) => Progress::Wait(Play { stage: PlayStage::WorkerGuard(i, g), ..self }, a),
            Progress::Done => self.run_worker_join(i, log),
            Progress::Failed(e) => Progress::Failed(e),
        }
    }

    fn run_worker_join(self, i: usize, log: &mut Vec<Note<String>>) -> (r: Progress<Play, String>)
        requires
            settled(self.deep_view()),
            self.plan.cp_count <= i < self.plan.nodes@.len(),
        ensures
            (r.deep_view(), final(log).deep_view()) == run_worker_join(
                self.deep_view(),
                i as int,
                old(log).deep_view(),
            ),
    {
        if self.worker_join.as_str().is_empty() {
            warn(log, cat3("  ✗ No join command available — skipping ", self.name(i), "."));
            self.visit_worker(i + 1, log)
        } else {
            say(log, cat2("  Join command: ", self.worker_join.as_str()));
            say(log, cat3("\n  Joining ", self.name(i), " …\n"));
            let action = Action::Run {
                ip: self.ip(i),
                jump: self.route(self.public(i)),
                command: cat2("sudo ", self.worker_join.as_str()),
            };
            Progress::Wait(Play { stage: PlayStage::WorkerJoining(i), ..self }, action)
        }
    }

    fn finale(self, log: &mut Vec<Note<String>>) -> (r: Progress<Play, String>)
        requires
            settled(self.deep_view()),
        ensures
            (r.deep_view(), final(log).deep_view()) == finale(self.deep_view(), old(log).deep_view()),
    {
        say(
            log,
            "\n━━ Final step — Approve pending CSRs from worker nodes ━━━━━━━━━━━━━━━━━━".to_owned(),
        );
        let p = approve_pending_csrs(self.ip(0), self.primary_route(), self.plan.auto, true, log);
        self.final_csrs(p, log)
    }

    fn final_csrs(self, p: Progress<CsrApproval<String>, String>, log: &mut Vec<Note<String>>) -> (r:
        Progress<Play, String>)
        requires
            settled(self.deep_view()),
        ensures
            (r.deep_view(), final(log).deep_view()) == final_csrs(
                self.deep_view(),
                (p.deep_view(), old(log).deep_view()),
            ),
    {
        match p {
            Progress::Wait(c, a) => Progress::Wait(Play { stage: PlayStage::Csrs(c), ..self }, a),
            Progress::Done => {
                say(log, "\n✓ Cluster provisioning complete!".to_owned());
                say(log, "\n  Verify from the primary control-plane:".to_owned());
                let action = Action::Address {
                    instance: self.plan.instances.get_or_name(self.name(0)),
                    prefer_public: !self.public(0),
                };
                Progress::Wait(Play { stage: PlayStage::AltAddress, ..self }, action)
            },
            Progress::Failed(e) => Progress::Failed(e),
        }
    }

    fn say_look(&self, label: &str, ip: &str, log: &mut Vec<Note<String>>)
        ensures
            final(log).deep_view() == look_lines(self.deep_view(), label@, ip@, old(log).deep_view()),
    {
        say(log, cat3("\n  Using ", label, " IP:"));
        say(
            log,
            cat7("    ssh -i ", self.plan.key.as_str(), " ", self.plan.user.as_str(), "@", ip, " \\"),
        );
        say(log, "      sudo kubectl --kubeconfig /etc/kubernetes/admin.conf get po -A -o wide".to_owned());
    }

    fn shown(self, alt: Option<String>, log: &mut Vec<Note<String>>) -> (r: Progress<Play, String>)
        requires
            settled(self.deep_view()),
        ensures
            forall|event: Event<Seq<char>>|
                (match alt {
                    Some(ip) => event == Event::Output(ip@),
                    None => event is Failed,
                }) ==> (r.deep_view(), final(log).deep_view()) == #[trigger] shown(
                    self.deep_view(),
                    event,
                    old(log).deep_view(),
                ),
    {
        let public = self.public(0);
        let other = match alt {
            Some(ip) => ip,
            None => if public {
                "<private-ip>".to_owned()
            } else {
                "<public-ip>".to_owned()
            },
        };
        self.say_look(kind_text(public), self.ips[0].as_str(), log);
        self.say_look(kind_text(!public), other.as_str(), log);
        Progress::Done
    }

    fn pause(self, stage: PlayStage<String>, log: &mut Vec<Note<String>>) -> (r: Progress<Play, String>)
        ensures
            r.deep_view() == Progress::<PlayModel, Seq<char>>::Wait(
                PlayModel { stage: stage.deep_view(), ..self.deep_view() },
                Action::Pause(2),
            ),
            final(log).deep_view() == old(log).deep_view(),
    {
        Progress::Wait(Play { stage, ..self }, Action::Pause(2))
    }

    fn step_fetching(self, i: usize, tries: usize, event: Event<String>, log: &mut Vec<Note<String>>) -> (r:
        Progress<Play, String>)
        requires
            play_wf(self.deep_view()),
            self.stage == PlayStage::<String>::Fetching(i, tries),
        ensures
            (r.deep_view(), final(log).deep_view()) == play_next(
                self.deep_view(),
                event.deep_view(),
                old(log).deep_view(),
            ),
    {
        match event {
            Event::Output(ip) => if tries >= 30 || usable_address(ip.as_str()) {
                self.fetched(i, ip, log)
            } else {
                self.pause(PlayStage::Pausing(i, tries), log)
            },
            Event::Failed(e) => if tries >= 30 {
                Progress::Failed(e)
            } else {
                self.pause(PlayStage::Pausing(i, tries), log)
            },
            _ => Progress::Failed(OUT_OF_STEP.to_owned()),
        }
    }

    fn step_jump(self, tries: usize, event: Event<String>, log: &mut Vec<Note<String>>) -> (r: Progress<
        Play,
        String,
    >)
        requires
            play_wf(self.deep_view()),
            self.stage == PlayStage::<String>::FetchingJump(tries),
        ensures
            (r.deep_view(), final(log).deep_view()) == play_next(
                self.deep_view(),
                event.deep_view(),
                old(log).deep_view(),
            ),
    {
        match event {
            Event::Output(ip) => if tries >= 30 || usable_address(ip.as_str()) {
                say(log, cat2("    IP: ", ip.as_str()));
                Play { jump_ip: ip, ..self }.located(log)
            } else {
                self.pause(PlayStage::PausingJump(tries), log)
            },
            Event::Failed(e) => if tries >= 30 {
                Progress::Failed(e)
            } else {
                self.pause(PlayStage::PausingJump(tries), log)
            },
            _ => Progress::Failed(OUT_OF_STEP.to_owned()),
        }
    }

    fn step_pause(self, event: Event<String>, log: &mut Vec<Note<String>>) -> (r: Progress<Play, String>)
        requires
            play_wf(self.deep_view()),
            self.stage is Pausing || self.stage is PausingJump,
        ensures
            (r.deep_view(), final(log).deep_view()) == play_next(
                self.deep_view(),
                event.deep_view(),
                old(log).deep_view(),
            ),
    {
        match (&self.stage, event) {
            (PlayStage::Pausing(i, tries), Event::Finished) => {
                let (i, tries): (usize, usize) = (*i, *tries);
                self.fetch(i, tries + 1, log)
            },
            (PlayStage::PausingJump(tries), Event::Finished) => {
                let tries: usize = *tries;
                if self.plan.provisioner.is_some() {
                    self.fetch_jump(tries + 1, log)
                } else {
                    Progress::Failed(OUT_OF_STEP.to_owned())
                }
            },
            _ => Progress::Failed(OUT_OF_STEP.to_owned()),
        }
    }

    fn step_preflight(self, i: usize, event: Event<String>, log: &mut Vec<Note<String>>) -> (r: Progress<
        Play,
        String,
    >)
        requires
            play_wf(self.deep_view()),
            self.stage == PlayStage::<String>::Preflight(i),
        ensures
            (r.deep_view(), final(log).deep_view()) == play_next(
                self.deep_view(),
                event.deep_view(),
                old(log).deep_view(),
            ),
    {
        match event {
            Event::Finished => self.checked(i, log),
            Event::Failed(e) => Progress::Failed(e),
            _ => Progress::Failed(OUT_OF_STEP.to_owned()),
        }
    }

    fn step_primary(self, event: Event<String>, log: &mut Vec<Note<String>>) -> (r: Progress<Play, String>)
        requires
            play_wf(self.deep_view()),
            self.stage is AskPrimary || self.stage is PrimaryCheck || self.stage is PrimaryVerify,
        ensures
            (r.deep_view(), final(log).deep_view()) == play_next(
                self.deep_view(),
                event.deep_view(),
                old(log).deep_view(),
            ),
    {
        match (&self.stage, event) {
            (PlayStage::AskPrimary, Event::Answer(yes)) => if yes {
                self.primary(log)
            } else {
                say(log, "  Skipped.".to_owned());
                self.additional(log)
            },
            (PlayStage::PrimaryCheck, Event::Output(answer)) => self.primary_checked(answer.as_str(), log),
            (PlayStage::PrimaryCheck, Event::Failed(e)) => Progress::Failed(e),
            (PlayStage::PrimaryVerify, Event::Output(output)) => {
                self.primary_verified(output.as_str(), log)
            },
            (PlayStage::PrimaryVerify, Event::Failed(_)) => self.primary_verified("", log),
            _ => Progress::Failed(OUT_OF_STEP.to_owned()),
        }
    }

    fn step_cp(self, event: Event<String>, log: &mut Vec<Note<String>>) -> (r: Progress<Play, String>)
        requires
            play_wf(self.deep_view()),
            self.stage is AskCp || self.stage is AskCpJoin || self.stage is CpJoining,
        ensures
            (r.deep_view(), final(log).deep_view()) == play_next(
                self.deep_view(),
                event.deep_view(),
                old(log).deep_view(),
            ),
    {
        match (&self.stage, event) {
            (PlayStage::AskCp(i), Event::Answer(yes)) => {
                let i: usize = *i;
                if yes {
                    self.join_cp(i, log)
                } else {
                    say(log, "  Skipped.".to_owned());
                    self.visit_cp(i + 1, log)
                }
            },
            (PlayStage::AskCpJoin(i), Event::Answer(yes)) => {
                let i: usize = *i;
                if yes {
                    self.run_cp_join(i, log)
                } else {
                    say(log, "  Skipped.".to_owned());
                    self.visit_cp(i + 1, log)
                }
            },
            (PlayStage::CpJoining(i), Event::Finished) => {
                let i: usize = *i;
                say(log, cat3("\n  ✓ ", self.name(i), " joined as control-plane."));
                self.visit_cp(i + 1, log)
            },
            (PlayStage::CpJoining(i), Event::Failed(e)) => {
                let i: usize = *i;
                warn(log, cat4("\n  ✗ Failed to join ", self.name(i), ": ", e.as_str()));
                self.visit_cp(i + 1, log)
            },
            _ => Progress::Failed(OUT_OF_STEP.to_owned()),
        }
    }

    fn step_worker(self, event: Event<String>, log: &mut Vec<Note<String>>) -> (r: Progress<Play, String>)
        requires
            play_wf(self.deep_view()),
            self.stage is AskWorker || self.stage is WorkerJoining,
        ensures
            (r.deep_view(), final(log).deep_view()) == play_next(
                self.deep_view(),
                event.deep_view(),
                old(log).deep_view(),
            ),
    {
        match (&self.stage, event) {
            (PlayStage::AskWorker(i), Event::Answer(yes)) => {
                let i: usize = *i;
                if yes {
                    self.ask_node_for(i, PlayStage::WorkerCheck(i), JOIN_CHECK, log)
                } else {
                    say(log, "  Skipped.".to_owned());
                    self.visit_worker(i + 1, log)
                }
            },
            (PlayStage::WorkerJoining(i), Event::Finished) => {
                let i: usize = *i;
                say(log, cat3("\n  ✓ ", self.name(i), " joined."));
                self.visit_worker(i + 1, log)
            },
            (PlayStage::WorkerJoining(i), Event::Failed(e)) => {
                let i: usize = *i;
                warn(log, cat4("  ✗ Failed to join ", self.name(i), ": ", e.as_str()));
                self.visit_worker(i + 1, log)
            },
            _ => Progress::Failed(OUT_OF_STEP.to_owned()),
        }
    }

    /// Take the outcome of the action that was asked for.
    pub fn step(self, event: Event<String>, log: &mut Vec<Note<String>>) -> (r: Progress<Play, String>)
        requires
            play_wf(self.deep_view()),
        ensures
            (r.deep_view(), final(log).deep_view()) == play_next(
                self.deep_view(),
                event.deep_view(),
                old(log).deep_view(),
            ),
            r matches Progress::Wait(play, _) ==> play_wf(play.deep_view()),
    {
        proof {
            law_play_stays_well_formed(self.deep_view(), event.deep_view(), log.deep_view());
        }
        match self.stage {
            PlayStage::Fetching(i, tries) => self.step_fetching(i, tries, event, log),
            PlayStage::FetchingJump(tries) => self.step_jump(tries, event, log),
            PlayStage::Pausing(_, _) => self.step_pause(event, log),
            PlayStage::PausingJump(_) => self.step_pause(event, log),
            PlayStage::Preflight(i) => self.step_preflight(i, event, log),
            PlayStage::AskPrimary => self.step_primary(event, log),
            PlayStage::PrimaryCheck => self.step_primary(event, log),
            PlayStage::PrimaryVerify => self.step_primary(event, log),
            PlayStage::PrimaryGuard(g) => {
                let p = g.step(event, log);
                Play { stage: PlayStage::AskPrimary, ..self }.primary_guard(p, log)
            },
            PlayStage::PrimaryCilium(c) => {
                let p = c.step(event, log);
                Play { stage: PlayStage::AskPrimary, ..self }.primary_cilium(p, log)
            },
            PlayStage::PrimaryInit(i) => {
                let p = i.step(event, log);
                Play { stage: PlayStage::AskPrimary, ..self }.primary_init(p, log)
            },
            PlayStage::CpJoinCommand => self.cp_join_known(event, log),
            PlayStage::CpGuard(i, g) => {
                let p = g.step(event, log);
                Play { stage: PlayStage::AskPrimary, ..self }.cp_guard(i, p, log)
            },
            PlayStage::CpCheck(i) => self.cp_checked(i, event, log),
            PlayStage::AskCp(_) => self.step_cp(event, log),
            PlayStage::AskCpJoin(_) => self.step_cp(event, log),
            PlayStage::CpJoining(_) => self.step_cp(event, log),
            PlayStage::Fingerprint => self.fingerprint_known(event, log),
            PlayStage::WorkerJoinCommand => self.worker_join_known(event, log),
            PlayStage::AskWorker(_) => self.step_worker(event, log),
            PlayStage::WorkerJoining(_) => self.step_worker(event, log),
            PlayStage::WorkerCheck(i) => self.worker_checked(i, event, log),
            PlayStage::WorkerFingerprint(i) => self.worker_identified(i, event, log),
            PlayStage::WorkerGuard(i, g) => {
                let p = g.step(event, log);
                Play { stage: PlayStage::AskPrimary, ..self }.worker_guard(i, p, log)
            },
            PlayStage::Csrs(c) => {
                let p = c.step(event, log);
                Play { stage: PlayStage::AskPrimary, ..self }.final_csrs(p, log)
            },
            PlayStage::AltAddress => match event {
                Event::Output(ip) => self.shown(Some(ip), log),
                Event::Failed(_) => self.shown(None, log),
                _ => Progress::Failed(OUT_OF_STEP.to_owned()),
            },
        }
    }
}

/// Whether a provider's answer is an address.
pub fn usable_address(ip: &str) -> (r: bool)
    ensures
        r == usable(ip@),
{
    !is_blank(ip) && !is_word(ip, "null")
}

/// Provisioning that starts, or goes on, does so for the configuration that it
/// was given: with its settings and the identifiers, and with the action that
/// belongs to its stage. It goes on from what was told before.
pub proof fn law_provisioning_is_as_ordered(
    loaded: &LoadedProvider,
    instances: Registry,
    home: &Option<String>,
    auto_approve: bool,
    no_wait: bool,
    log: &mut Vec<Note<String>>,
    begun: Progress<Play, String>,
    play: Play,
    event: Event<String>,
    later: &mut Vec<Note<String>>,
    next: Progress<Play, String>,
)
    requires
        call_ensures(play_config, (loaded, instances, home, auto_approve, no_wait, log), begun),
        play_wf(play.deep_view()),
        play_routed(play.deep_view()),
        call_ensures(Play::step, (play, event, later), next),
    ensures
        begun matches Progress::Wait(m, a) ==> {
            &&& m.plan.auto == auto_approve
            &&& m.plan.no_wait == no_wait
            &&& m.plan.instances.deep_view() == instances.deep_view()
            &&& m.plan.provisioner.deep_view() == loaded.deep_view().common.provisioner
            &&& play_asks(m.deep_view(), a.deep_view())
        },
        next matches Progress::Wait(m, a) ==> {
            &&& m.plan.deep_view() == play.plan.deep_view()
            &&& play_routed(m.deep_view())
            &&& play_asks(m.deep_view(), a.deep_view())
        },
{
    law_play_starts_from_rules(
        loaded.deep_view(),
        instances.deep_view(),
        home.deep_view(),
        auto_approve,
        no_wait,
        0,
        0,
        old(log).deep_view(),
    );
    law_play_asks_rightly(play.deep_view(), event.deep_view(), old(later).deep_view());
    law_play_keeps_to_routes(play.deep_view(), event.deep_view(), old(later).deep_view());
    if let Progress::Wait(m, _) = begun {
        assert(m.deep_view().plan.auto == m.plan.auto);
        assert(m.deep_view().plan.no_wait == m.plan.no_wait);
        assert(m.deep_view().plan.instances == m.plan.instances.deep_view());
        assert(m.deep_view().plan.provisioner == m.plan.provisioner.deep_view());
    }
}

} // verus!
