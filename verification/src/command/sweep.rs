//! Going over all nodes of a configuration: the procedure behind `reset` and
//! `restart`.

use vstd::prelude::*;

use crate::command::{
    address_line, all_targets, control_plane_rule, first_control_plane, law_every_node_is_a_target,
    law_first_control_plane, leads, node_count, settings, show_address, show_settings, targets,
    Target,
};
use crate::ip::IpAddressType;
use crate::provider::{LoadedModel, LoadedProvider};
use crate::registry::{id_or_name, lookup, Entries, Registry};
use crate::rule::{resolve_rules, resolved_rules, rule_message, CommonResolvedRule, ResolvedModel};
use crate::session::{
    below, kept, say, warn, Action, Event, Log, Note, Progress, AUTO_APPROVED, OUT_OF_STEP,
};
use crate::structs::{clone_provisioner, ProvisionerModel, ProvisionerYaml};
use crate::text::{cat2, cat3, cat4, cat7, decimal, number, padded, same};
use crate::utils::{expanded, law_private_key_lies_beside, private_key_of, private_key_path};

verus! {

// ---------------------------------------------------------------------------
// State
// ---------------------------------------------------------------------------

/// Where the procedure stands. Positions count the nodes.
#[derive(Clone, Copy)]
pub enum SweepStage {
    /// The address of a node is being asked for.
    Fetching(usize),
    /// The address of the provisioner is being asked for.
    FetchingJump,
    /// May it be done to all nodes?
    AskAll,
    /// May a node be reset?
    AskNode(usize),
    Resetting(usize),
    /// All nodes are being rebooted.
    Rebooting,
}

/// The procedure behind `reset` and `restart`.
pub struct Sweep {
    /// Whether the nodes are restarted rather than reset.
    pub restart: bool,
    /// All nodes, each with whether it is reached by its public address.
    pub nodes: Vec<(String, bool)>,
    /// The position of the first control-plane node.
    pub lead: Option<usize>,
    /// The identifiers of the nodes; where there are none, nodes go by name.
    pub instances: Option<Registry>,
    pub provisioner: Option<ProvisionerYaml>,
    pub user: String,
    /// Path of the private key.
    pub key: String,
    pub auto: bool,
    /// The addresses of the nodes, as far as they are known.
    pub ips: Vec<String>,
    /// The address of the jump host for nodes without a public address.
    pub jump: Option<String>,
    pub stage: SweepStage,
}

pub struct SweepModel {
    pub restart: bool,
    pub nodes: Seq<Target>,
    pub lead: Option<usize>,
    pub instances: Option<Entries>,
    pub provisioner: Option<ProvisionerModel>,
    pub user: Seq<char>,
    pub key: Seq<char>,
    pub auto: bool,
    pub ips: Seq<Seq<char>>,
    pub jump: Option<Seq<char>>,
    pub stage: SweepStage,
}

impl DeepView for Sweep {
    type V = SweepModel;

    open spec fn deep_view(&self) -> SweepModel {
        SweepModel {
            restart: self.restart,
            nodes: self.nodes.deep_view(),
            lead: self.lead,
            instances: self.instances.deep_view(),
            provisioner: self.provisioner.deep_view(),
            user: self.user@,
            key: self.key@,
            auto: self.auto,
            ips: self.ips.deep_view(),
            jump: self.jump.deep_view(),
            stage: self.stage,
        }
    }
}

pub type SweepStep = (Progress<SweepModel, Seq<char>>, Log);

/// The position of the first control-plane node is one.
pub open spec fn lead_ok(m: SweepModel) -> bool {
    m.lead matches Some(i) ==> i < m.nodes.len()
}

/// The position in the stage is that of a node, and the addresses are known
/// as far as they should be.
pub open spec fn sweep_wf(m: SweepModel) -> bool {
    &&& 0 < m.nodes.len() <= usize::MAX
    &&& lead_ok(m)
    &&& match m.stage {
        SweepStage::Fetching(i) => i < m.nodes.len() && m.ips.len() == i,
        SweepStage::AskNode(i) => i < m.nodes.len() && m.ips.len() == m.nodes.len(),
        SweepStage::Resetting(i) => i < m.nodes.len() && m.ips.len() == m.nodes.len(),
        _ => m.ips.len() == m.nodes.len(),
    }
}

// ---------------------------------------------------------------------------
// Jump host
// ---------------------------------------------------------------------------

/// The position of the first control-plane node among all nodes.
pub open spec fn lead_position(rules: Seq<ResolvedModel>) -> Option<nat>
    decreases rules.len(),
{
    if rules.len() == 0 {
        None
    } else {
        match lead_position(rules.drop_last()) {
            Some(i) => Some(i),
            None => if rules.last().group_type == "control-plane"@ && rules.last().nodes.len() > 0 {
                Some(all_targets(rules.drop_last()).len())
            } else {
                None
            },
        }
    }
}

/// The address of the first node that is reached by its public address.
pub open spec fn first_public_ip(nodes: Seq<Target>, ips: Seq<Seq<char>>, n: nat) -> Option<Seq<char>>
    decreases n,
{
    if n == 0 {
        None
    } else {
        match first_public_ip(nodes, ips, (n - 1) as nat) {
            Some(ip) => Some(ip),
            None => if nodes[n - 1].1 {
                Some(ips[n - 1])
            } else {
                None
            },
        }
    }
}

/// The jump host where no provisioner is configured: the first control-plane
/// node where it is reached by its public address, else the first node that
/// is.
pub open spec fn implicit_jump(m: SweepModel) -> Option<Seq<char>> {
    match m.lead {
        Some(i) => if m.nodes[i as int].1 {
            Some(m.ips[i as int])
        } else {
            first_public_ip(m.nodes, m.ips, m.nodes.len())
        },
        None => first_public_ip(m.nodes, m.ips, m.nodes.len()),
    }
}

/// How node `i` is reached: directly by its public address, else through the
/// jump host, where there is one.
pub open spec fn node_route(m: SweepModel, i: int) -> Option<Seq<char>> {
    if m.nodes[i].1 {
        None
    } else {
        m.jump
    }
}

/// Whether some node is not reached by its public address.
pub open spec fn some_private(nodes: Seq<Target>) -> bool {
    exists|i: int| 0 <= i < nodes.len() && !(#[trigger] nodes[i]).1
}

// ---------------------------------------------------------------------------
// Transitions
// ---------------------------------------------------------------------------

/// The command that resets a node.
pub const RESET_COMMAND: &'static str = "sudo kubeadm reset -f && \
    sudo rm -rf /etc/cni /etc/kubernetes /var/lib/etcd /var/lib/kubelet";

/// The command that reboots a node.
pub const REBOOT_COMMAND: &'static str = "sudo reboot";

/// The address of node `i` is asked for.
pub open spec fn sweep_fetch(m: SweepModel, i: int, log: Log) -> SweepStep {
    let name = m.nodes[i].0;
    let next = SweepModel { stage: SweepStage::Fetching(i as usize), ..m };
    match m.instances {
        None => (
            Progress::Wait(next, Action::Address { instance: name, prefer_public: m.nodes[i].1 }),
            log,
        ),
        Some(entries) => match lookup(entries, name) {
            Some(id) => (
                Progress::Wait(next, Action::Address { instance: id, prefer_public: m.nodes[i].1 }),
                log,
            ),
            None => (
                Progress::Failed(
                    "No instance ID found for node '"@ + name + "' in state. Run 'apply' first."@,
                ),
                log,
            ),
        },
    }
}

/// The address of node `i` is known.
pub open spec fn sweep_fetched(m: SweepModel, i: int, ip: Seq<char>, log: Log) -> SweepStep {
    let more = SweepModel { ips: m.ips.push(ip), ..m };
    let told = log.push(Note::Say(address_line(m.nodes[i].0, ip, m.nodes[i].1)));
    if i + 1 < m.nodes.len() {
        sweep_fetch(more, i + 1, told)
    } else {
        sweep_jump(more, told)
    }
}

/// All addresses are known: find the jump host, where one is needed. A
/// provisioner without a public address cannot be one; then the first node with
/// a public address is.
pub open spec fn sweep_jump(m: SweepModel, log: Log) -> SweepStep {
    match m.provisioner {
        Some(p) => if p.provisioner_type == "public"@ && some_private(m.nodes) {
            (
                Progress::Wait(
                    SweepModel { stage: SweepStage::FetchingJump, ..m },
                    Action::Address {
                        instance: match m.instances {
                            Some(entries) => id_or_name(entries, p.node),
                            None => p.node,
                        },
                        prefer_public: true,
                    },
                ),
                log,
            )
        } else {
            sweep_ready(SweepModel { jump: first_public_ip(m.nodes, m.ips, m.nodes.len()), ..m }, log)
        },
        None => sweep_ready(SweepModel { jump: implicit_jump(m), ..m }, log),
    }
}

/// What is asked before anything is done.
pub open spec fn sweep_question(restart: bool) -> Seq<char> {
    if restart {
        "\nProceed with restarting all nodes?"@
    } else {
        "\nProceed with kubeadm reset on all nodes?"@
    }
}

/// Everything is known: go ahead, with approval.
pub open spec fn sweep_ready(m: SweepModel, log: Log) -> SweepStep {
    let told = log.push(Note::Say("\n  SSH user: "@ + m.user + "  private key: "@ + m.key)).push(
        Note::Say(
            if m.restart {
                "⚠  All nodes will be rebooted. Services will be temporarily unavailable."@
            } else {
                "\n⚠  This will reset kubeadm state on all nodes. Any clusters will be destroyed."@
            },
        ),
    );
    if m.auto {
        sweep_go(m, told.push(Note::Say(sweep_question(m.restart) + AUTO_APPROVED@)))
    } else {
        (
            Progress::Wait(
                SweepModel { stage: SweepStage::AskAll, ..m },
                Action::Confirm(sweep_question(m.restart)),
            ),
            told,
        )
    }
}

/// Approved: reset the nodes one by one, or reboot them all at once.
pub open spec fn sweep_go(m: SweepModel, log: Log) -> SweepStep {
    if m.restart {
        (
            Progress::Wait(SweepModel { stage: SweepStage::Rebooting, ..m }, Action::Broadcast),
            log.push(Note::Say("\nSending reboot signals to all nodes in parallel …"@)),
        )
    } else {
        sweep_visit(m, 0, log)
    }
}

/// Node `i` is next to be reset, with approval.
pub open spec fn sweep_visit(m: SweepModel, i: int, log: Log) -> SweepStep {
    if i < m.nodes.len() {
        let name = m.nodes[i].0;
        let question = "  Reset "@ + name + "?"@;
        let told = log.push(
            Note::Say(
                "\n  ["@ + decimal((i + 1) as nat) + "/"@ + decimal(m.nodes.len()) + "] "@ + name + "  ("@
                    + m.ips[i] + ")"@,
            ),
        );
        if m.auto {
            sweep_reset(m, i, told.push(Note::Say(question + AUTO_APPROVED@)))
        } else {
            (
                Progress::Wait(
                    SweepModel { stage: SweepStage::AskNode(i as usize), ..m },
                    Action::Confirm(question),
                ),
                told,
            )
        }
    } else {
        (
            Progress::Done,
            log.push(Note::Say("\n✓ Reset complete. All nodes have been reset to clean state."@)),
        )
    }
}

/// Node `i` is reset.
pub open spec fn sweep_reset(m: SweepModel, i: int, log: Log) -> SweepStep {
    (
        Progress::Wait(
            SweepModel { stage: SweepStage::Resetting(i as usize), ..m },
            Action::Run { ip: m.ips[i], jump: node_route(m, i), command: RESET_COMMAND@ },
        ),
        log.push(Note::Say("  Running kubeadm reset …"@)),
    )
}

/// The order to reboot node `i`.
pub open spec fn reboot_order(m: SweepModel, i: int) -> Action<Seq<char>> {
    Action::Run { ip: m.ips[i], jump: node_route(m, i), command: REBOOT_COMMAND@ }
}

/// The orders to reboot all nodes: one for each.
pub open spec fn reboot_orders(m: SweepModel) -> Seq<Action<Seq<char>>> {
    Seq::new(m.nodes.len(), |i: int| reboot_order(m, i))
}

/// What the procedure does when it is told the outcome of its action.
pub open spec fn sweep_next(m: SweepModel, event: Event<Seq<char>>, log: Log) -> SweepStep {
    match (m.stage, event) {
        (SweepStage::Fetching(i), Event::Output(ip)) => sweep_fetched(m, i as int, ip, log),
        (SweepStage::Fetching(_), Event::Failed(e)) => (Progress::Failed(e), log),
        (SweepStage::FetchingJump, Event::Output(ip)) => sweep_ready(SweepModel { jump: Some(ip), ..m }, log),
        (SweepStage::FetchingJump, Event::Failed(e)) => (Progress::Failed(e), log),
        (SweepStage::AskAll, Event::Answer(yes)) => if yes {
            sweep_go(m, log)
        } else {
            (Progress::Done, log.push(Note::Say("Aborted."@)))
        },
        (SweepStage::AskNode(i), Event::Answer(yes)) => if yes {
            sweep_reset(m, i as int, log)
        } else {
            sweep_visit(m, i + 1, log.push(Note::Say("  Skipped."@)))
        },
        (SweepStage::Resetting(i), Event::Finished) => sweep_visit(
            m,
            i + 1,
            log.push(Note::Say("  ✓ "@ + m.nodes[i as int].0 + " reset."@)),
        ),
        (SweepStage::Resetting(i), Event::Failed(e)) => sweep_visit(
            m,
            i + 1,
            log.push(Note::Warn("  ✗ Failed to reset "@ + m.nodes[i as int].0 + ": "@ + e)),
        ),
        (SweepStage::Rebooting, Event::Finished) => (Progress::Done, log),
        _ => (Progress::Failed(OUT_OF_STEP@), log),
    }
}

/// The procedure starts: the rules are resolved, and the address of the first
/// node is asked for.
pub open spec fn sweep_begin(
    restart: bool,
    loaded: LoadedModel,
    instances: Option<Entries>,
    home: Option<Seq<char>>,
    auto: bool,
    log: Log,
) -> SweepStep {
    let told = settings(loaded, log);
    match resolved_rules(loaded.common.rules, loaded.common) {
        Err(e) => (Progress::Failed(rule_message(e)), told),
        Ok(rules) => {
            let nodes = all_targets(rules);
            if nodes.len() == 0 {
                (Progress::Done, told.push(Note::Say("  No nodes found in config."@)))
            } else {
                match first_control_plane(rules) {
                    None => (Progress::Failed("No control-plane rules found in config"@), told),
                    Some(first) => sweep_fetch(
                        SweepModel {
                            restart,
                            nodes,
                            lead: match lead_position(rules) {
                                Some(i) => Some(i as usize),
                                None => None,
                            },
                            instances,
                            provisioner: loaded.common.provisioner,
                            user: first.merged.user,
                            key: private_key_of(first.merged.ssh_public_key, home),
                            auto,
                            ips: Seq::empty(),
                            jump: None,
                            stage: SweepStage::AskAll,
                        },
                        0,
                        told.push(
                            Note::Say(
                                if restart {
                                    "\n── Nodes to restart ─────────────────────────────────────────────────────"@
                                } else {
                                    "\n── Nodes to reset ───────────────────────────────────────────────────────"@
                                },
                            ),
                        ).push(Note::Say("Fetching IPs …\n"@)),
                    ),
                }
            }
        },
    }
}

// ---------------------------------------------------------------------------
// Laws
// ---------------------------------------------------------------------------

/// No line that the operator was told is ever taken back, and each outcome is
/// told by name: the address of each node, that a node was reset, and that it
/// could not be, with the reason.
pub proof fn law_sweep_tells_each_outcome(m: SweepModel, event: Event<Seq<char>>, e: Seq<char>, log: Log)
    ensures
        kept(log, sweep_next(m, event, log).1),
        m.stage matches SweepStage::Fetching(i) ==> kept(
            log.push(
                Note::Say(
                    "  "@ + padded(m.nodes[i as int].0, 30) + " →  "@ + e + "  ("@ + (if m.nodes[i as int].1 {
                        "public"@
                    } else {
                        "private"@
                    }) + ")"@,
                ),
            ),
            sweep_next(m, Event::Output(e), log).1,
        ),
        m.stage is AskAll ==> sweep_next(m, Event::Answer(false), log).1 == log.push(Note::Say("Aborted."@)),
        sweep_next(m, event, log).0 matches Progress::Wait(n, _) ==> {
            let told = sweep_next(m, event, log).1;
            match n.stage {
                SweepStage::AskAll => told.len() > 1 && told[told.len() - 2] == Note::Say(
                    "\n  SSH user: "@ + m.user + "  private key: "@ + m.key,
                ) && told.last() == Note::Say(
                    if m.restart {
                        "⚠  All nodes will be rebooted. Services will be temporarily unavailable."@
                    } else {
                        "\n⚠  This will reset kubeadm state on all nodes. Any clusters will be destroyed."@
                    },
                ),
                SweepStage::AskNode(_) => true,
                SweepStage::Resetting(_) => told.last() == Note::Say("  Running kubeadm reset …"@),
                SweepStage::Rebooting => told.last() == Note::Say(
                    "\nSending reboot signals to all nodes in parallel …"@,
                ),
                _ => true,
            }
        },
        m.stage is Fetching ==> (sweep_next(m, Event::Output(e), log).0 matches Progress::Failed(why)
            ==> exists|i: int|
            0 <= i < m.nodes.len() && why == "No instance ID found for node '"@ + (#[trigger] m.nodes[i]).0
                + "' in state. Run 'apply' first."@),
        m.stage matches SweepStage::Resetting(i) ==> kept(
            log.push(Note::Say("  ✓ "@ + m.nodes[i as int].0 + " reset."@)),
            sweep_next(m, Event::Finished, log).1,
        ) && kept(
            log.push(Note::Warn("  ✗ Failed to reset "@ + m.nodes[i as int].0 + ": "@ + e)),
            sweep_next(m, Event::Failed(e), log).1,
        ),
{
    if let SweepStage::Fetching(i) = m.stage {
        if i + 1 < m.nodes.len() {
            assert(m.nodes[i + 1].0 == m.nodes[i + 1].0);
        }
    }
}

/// A procedure that cannot start says why: the error of the rules, or that none
/// of them is for control-plane groups. Without a node there is nothing to do.
pub proof fn law_sweep_says_why_not(
    restart: bool,
    loaded: LoadedModel,
    home: Option<Seq<char>>,
    auto: bool,
    log: Log,
)
    ensures
        ({
            let (r, told) = sweep_begin(restart, loaded, None, home, auto, log);
            match resolved_rules(loaded.common.rules, loaded.common) {
                Err(e) => r == Progress::<SweepModel, Seq<char>>::Failed(rule_message(e)),
                Ok(rules) => {
                    &&& r matches Progress::Failed(e) ==> e == "No control-plane rules found in config"@
                    &&& r is Done ==> told.last() == Note::Say("  No nodes found in config."@)
                    &&& r is Done <==> node_count(rules) == 0
                },
            }
        }),
{
    if let Ok(rules) = resolved_rules(loaded.common.rules, loaded.common) {
        law_every_node_is_a_target(rules, 0, 0);
    }
}

/// The procedure stays well-formed.
pub proof fn law_sweep_stays_well_formed(m: SweepModel, event: Event<Seq<char>>, log: Log)
    requires
        sweep_wf(m),
    ensures
        sweep_next(m, event, log).0 matches Progress::Wait(n, _) ==> sweep_wf(n),
{
}

/// Every command resets a node and goes to it by its route; with blanket
/// approval no question is put, and without it no node is reset and none is
/// rebooted but with an answer of yes.
pub proof fn law_sweep_needs_approval(m: SweepModel, event: Event<Seq<char>>, log: Log)
    requires
        sweep_wf(m),
    ensures
        sweep_next(m, event, log).0 matches Progress::Wait(_, a) ==> {
            &&& m.auto ==> !(a is Confirm)
            &&& !m.auto && (a is Run || a is Broadcast) ==> event == Event::<Seq<char>>::Answer(true)
        },
        sweep_next(m, event, log).0 matches Progress::Wait(n, Action::Run { ip, jump, command }) ==> {
            &&& command == RESET_COMMAND@
            &&& n.stage matches SweepStage::Resetting(i) && ip == n.ips[i as int] && jump == node_route(n, i as int)
        },
{
}

/// How far the procedure is from its end.
pub open spec fn sweep_rank(m: SweepModel) -> (nat, nat) {
    let left = |i: int| (2 * (m.nodes.len() - i)) as nat;
    match m.stage {
        SweepStage::Fetching(i) => (4, left(i as int)),
        SweepStage::FetchingJump => (3, 0),
        SweepStage::AskAll => (2, 0),
        SweepStage::AskNode(i) => (1, left(i as int)),
        SweepStage::Resetting(i) => (1, (left(i as int) - 1) as nat),
        SweepStage::Rebooting => (0, 0),
    }
}

/// The procedure comes to an end: every step takes it nearer.
pub proof fn law_sweep_ends(m: SweepModel, event: Event<Seq<char>>, log: Log)
    requires
        sweep_wf(m),
    ensures
        sweep_next(m, event, log).0 matches Progress::Wait(n, _) ==> below(sweep_rank(n), sweep_rank(m)),
{
}

/// The node that is being reset, or about to be.
pub open spec fn node_at(stage: SweepStage) -> Option<int> {
    match stage {
        SweepStage::AskNode(i) => Some(i as int),
        SweepStage::Resetting(i) => Some(i as int),
        _ => None,
    }
}

/// No node is passed over: a reset goes from each node to the next, from the
/// first to the last.
pub proof fn law_no_node_passed_over(m: SweepModel, event: Event<Seq<char>>, log: Log)
    requires
        sweep_wf(m),
    ensures
        node_at(m.stage) matches Some(i) ==> match sweep_next(m, event, log).0 {
            Progress::Wait(n, _) => node_at(n.stage) == Some(i) || node_at(n.stage) == Some(i + 1),
            Progress::Done => i + 1 == m.nodes.len(),
            Progress::Failed(_) => true,
        },
        node_at(m.stage) is None ==> (sweep_next(m, event, log).0 matches Progress::Wait(n, _) ==> (node_at(
            n.stage,
        ) matches Some(i) ==> i == 0)),
{
}

/// A public provisioner that was asked for is the jump host of every node that
/// is not reached by its public address.
pub proof fn law_provisioner_is_jump_host(m: SweepModel, ip: Seq<char>, log: Log)
    requires
        sweep_wf(m),
        m.stage == SweepStage::FetchingJump,
    ensures
        sweep_next(m, Event::Output(ip), log).0 matches Progress::Wait(n, _) && n.jump == Some(ip) && n.nodes
            == m.nodes && forall|i: int|
            0 <= i < n.nodes.len() && !n.nodes[i].1 ==> #[trigger] node_route(n, i) == Some(ip),
{
}

/// Once the operator is asked, the addresses and the jump host stay what they
/// are.
pub proof fn law_routes_stay(m: SweepModel, event: Event<Seq<char>>, log: Log)
    requires
        !(m.stage is Fetching),
        m.stage != SweepStage::FetchingJump,
    ensures
        sweep_next(m, event, log).0 matches Progress::Wait(n, _) ==> n.nodes == m.nodes && n.ips == m.ips
            && n.jump == m.jump,
{
}

proof fn lemma_first_public_ip(nodes: Seq<Target>, ips: Seq<Seq<char>>, n: nat, i: int)
    requires
        0 <= i < n,
        nodes[i].1,
    ensures
        first_public_ip(nodes, ips, n) is Some,
    decreases n,
{
    if i < n - 1 {
        lemma_first_public_ip(nodes, ips, (n - 1) as nat, i);
    }
}

/// Where some node has a public address, a jump host is found, unless that of
/// the provisioner is asked for.
pub proof fn law_jump_host_found(m: SweepModel, i: int, log: Log)
    requires
        0 <= i < m.nodes.len(),
        m.nodes[i].1,
    ensures
        implicit_jump(m) is Some,
        sweep_jump(m, log).0 matches Progress::Wait(n, _) ==> n.stage is FetchingJump || n.jump is Some,
{
    lemma_first_public_ip(m.nodes, m.ips, m.nodes.len(), i);
}

proof fn lemma_first_public_is_first(nodes: Seq<Target>, ips: Seq<Seq<char>>, n: nat)
    ensures
        match first_public_ip(nodes, ips, n) {
            Some(ip) => exists|i: int|
                0 <= i < n && (#[trigger] nodes[i]).1 && ip == ips[i] && forall|j: int|
                    0 <= j < i ==> !(#[trigger] nodes[j]).1,
            None => forall|j: int| 0 <= j < n ==> !(#[trigger] nodes[j]).1,
        },
    decreases n,
{
    if n > 0 {
        lemma_first_public_is_first(nodes, ips, (n - 1) as nat);
        match first_public_ip(nodes, ips, (n - 1) as nat) {
            Some(ip) => {
                let i = choose|i: int|
                    0 <= i < n - 1 && (#[trigger] nodes[i]).1 && ip == ips[i] && forall|j: int|
                        0 <= j < i ==> !(#[trigger] nodes[j]).1;
                assert(nodes[i].1 && ip == ips[i]);
            },
            None => {
                if nodes[n - 1].1 {
                    assert(first_public_ip(nodes, ips, n) == Some(ips[n - 1]));
                }
            },
        }
    }
}

/// Whether rule `r` is the first one for control-plane groups that has nodes.
pub open spec fn leads_with_nodes(rules: Seq<ResolvedModel>, r: int) -> bool {
    &&& 0 <= r < rules.len()
    &&& rules[r].group_type == "control-plane"@
    &&& rules[r].nodes.len() > 0
    &&& forall|j: int|
        0 <= j < r ==> (#[trigger] rules[j]).group_type != "control-plane"@ || rules[j].nodes.len() == 0
}

proof fn lemma_lead_is_first(rules: Seq<ResolvedModel>)
    ensures
        match lead_position(rules) {
            Some(i) => exists|r: int| #[trigger] leads_with_nodes(rules, r) && i == node_count(rules.take(r)),
            None => forall|j: int|
                0 <= j < rules.len() ==> (#[trigger] rules[j]).group_type != "control-plane"@
                    || rules[j].nodes.len() == 0,
        },
    decreases rules.len(),
{
    if rules.len() > 0 {
        let front = rules.drop_last();
        lemma_lead_is_first(front);
        law_every_node_is_a_target(front, 0, 0);
        match lead_position(front) {
            Some(i) => {
                let r = choose|r: int| #[trigger] leads_with_nodes(front, r) && i == node_count(front.take(r));
                assert(front.take(r) =~= rules.take(r));
                assert forall|j: int| 0 <= j < r implies (#[trigger] rules[j]).group_type != "control-plane"@
                    || rules[j].nodes.len() == 0 by {
                    assert(front[j] == rules[j]);
                }
                assert(leads_with_nodes(rules, r));
            },
            None => {
                assert forall|j: int| 0 <= j < front.len() implies (#[trigger] rules[j]).group_type
                    != "control-plane"@ || rules[j].nodes.len() == 0 by {
                    assert(front[j] == rules[j]);
                }
                if rules.last().group_type == "control-plane"@ && rules.last().nodes.len() > 0 {
                    assert(rules.take(rules.len() - 1) =~= front);
                    assert(leads_with_nodes(rules, rules.len() - 1));
                }
            },
        }
    }
}

/// A procedure that starts goes over every node of every rule, each reached
/// the way its rule says, and over no other. Its user is that of the first
/// rule for control-plane groups, and its key is the private key beside the
/// public key of that rule. What it was asked to do, the identifiers, the
/// provisioner and the approval are those it was given.
pub proof fn law_sweep_starts_from_rules(
    restart: bool,
    loaded: LoadedModel,
    instances: Option<Entries>,
    home: Option<Seq<char>>,
    auto: bool,
    r: int,
    k: int,
    log: Log,
)
    ensures
        sweep_begin(restart, loaded, instances, home, auto, log).0 matches Progress::Wait(n, _) ==> (resolved_rules(
            loaded.common.rules,
            loaded.common,
        ) matches Ok(rules) && {
            &&& exists|first: int| #[trigger]
                leads(rules, first) && n.user == rules[first].merged.user && lies_beside(
                    n.key,
                    rules[first].merged.ssh_public_key,
                    home,
                )
            &&& n.nodes.len() == node_count(rules)
            &&& 0 <= r < rules.len() && 0 <= k < rules[r].nodes.len() ==> {
                let i = node_count(rules.take(r)) + k;
                &&& i < n.nodes.len()
                &&& n.nodes[i].0 == rules[r].nodes[k]
                &&& n.nodes[i].1 == (rules[r].merged.ip_address == IpAddressType::Public)
            }
            &&& node_count(rules) <= usize::MAX ==> match n.lead {
                Some(i) => exists|first: int| #[trigger]
                    leads_with_nodes(rules, first) && i == node_count(rules.take(first)),
                None => forall|first: int| !#[trigger] leads_with_nodes(rules, first),
            }
            &&& n.restart == restart
            &&& n.instances == instances
            &&& n.provisioner == loaded.common.provisioner
            &&& n.auto == auto
            &&& n.ips.len() == 0
            &&& n.stage == SweepStage::Fetching(0)
        }),
{
    if let Ok(rules) = resolved_rules(loaded.common.rules, loaded.common) {
        law_first_control_plane(rules);
        law_every_node_is_a_target(rules, r, k);
        lemma_lead_is_first(rules);
        lemma_lead(rules);
        if let Some(first) = first_control_plane(rules) {
            let i = choose|i: int| #[trigger] leads(rules, i) && rules[i] == first;
            let path = first.merged.ssh_public_key;
            let stem = path.take(path.len() - ".pub"@.len());
            law_private_key_lies_beside(stem, path, home);
            if ".pub"@.is_suffix_of(path) {
                assert(path =~= stem + ".pub"@);
            }
            assert(leads(rules, i));
        }
    }
}

/// Whether `key` is the private key beside the public key at `path`: the path
/// without `.pub`, where it ends in it, with its tilde expanded.
pub open spec fn lies_beside(key: Seq<char>, path: Seq<char>, home: Option<Seq<char>>) -> bool {
    if ".pub"@.is_suffix_of(path) {
        exists|stem: Seq<char>| path == #[trigger] (stem + ".pub"@) && key == expanded(stem, home)
    } else {
        key == expanded(path, home)
    }
}

/// Whatever happens, the user, the key, the nodes, the identifiers, the
/// provisioner, the approval and what was asked for stay what they were.
pub proof fn law_sweep_keeps_its_settings(m: SweepModel, event: Event<Seq<char>>, log: Log)
    ensures
        sweep_next(m, event, log).0 matches Progress::Wait(n, _) ==> {
            &&& n.user == m.user
            &&& n.key == m.key
            &&& n.nodes == m.nodes
            &&& n.lead == m.lead
            &&& n.instances == m.instances
            &&& n.provisioner == m.provisioner
            &&& n.auto == m.auto
            &&& n.restart == m.restart
        },
{
}

/// The address of every node is asked for under its own identifier, or its
/// name where the procedure goes by names, and of the kind that the node is
/// reached by. What comes back is the address of that node, and those that are
/// known stay.
pub proof fn law_sweep_asks_for_each_address(m: SweepModel, event: Event<Seq<char>>, log: Log)
    requires
        sweep_wf(m),
    ensures
        sweep_next(m, event, log).0 matches Progress::Wait(n, a) ==> {
            &&& n.stage matches SweepStage::Fetching(i) ==> {
                &&& a matches Action::Address { instance, prefer_public } && prefer_public == m.nodes[i as int].1 && (
                match m.instances {
                    None => instance == m.nodes[i as int].0,
                    Some(entries) => lookup(entries, m.nodes[i as int].0) == Some(instance),
                })
                &&& m.stage == SweepStage::Fetching((i - 1) as usize) && i > 0
            }
            &&& m.stage matches SweepStage::Fetching(i) ==> (event matches Event::Output(ip) && n.ips == m.ips.push(
                ip,
            ) && (if i + 1 < m.nodes.len() {
                n.stage == SweepStage::Fetching((i + 1) as usize)
            } else {
                !(n.stage is Fetching)
            }))
            &&& !(m.stage is Fetching) ==> n.ips == m.ips
            &&& n.stage is FetchingJump ==> (m.provisioner matches Some(p) && p.provisioner_type == "public"@ && (
            a matches Action::Address { instance, prefer_public } && prefer_public && instance == (
            match m.instances {
                Some(entries) => match lookup(entries, p.node) {
                    Some(id) => id,
                    None => p.node,
                },
                None => p.node,
            })))
        },
{
}

/// An address that cannot be had ends the procedure with the reason.
pub proof fn law_sweep_needs_addresses(m: SweepModel, e: Seq<char>, log: Log)
    requires
        m.stage is Fetching || m.stage is FetchingJump,
    ensures
        sweep_next(m, Event::Failed(e), log).0 == Progress::<SweepModel, Seq<char>>::Failed(e),
{
}

/// The procedure starts if and only if there is a node, there is a rule for
/// control-plane groups, and, where it goes by identifiers, the first node has
/// one. Without a node it is done at once.
pub proof fn law_sweep_starts(
    restart: bool,
    loaded: LoadedModel,
    instances: Option<Entries>,
    home: Option<Seq<char>>,
    auto: bool,
    log: Log,
)
    ensures
        match resolved_rules(loaded.common.rules, loaded.common) {
            Ok(rules) => {
                let r = sweep_begin(restart, loaded, instances, home, auto, log).0;
                &&& r is Done <==> node_count(rules) == 0
                &&& r is Wait ==> exists|first: int| #[trigger] leads(rules, first)
                &&& node_count(rules) > 0 && (exists|first: int| #[trigger] leads(rules, first)) && instances is None
                    ==> r is Wait
            },
            Err(_) => sweep_begin(restart, loaded, instances, home, auto, log).0 is Failed,
        },
{
    if let Ok(rules) = resolved_rules(loaded.common.rules, loaded.common) {
        law_every_node_is_a_target(rules, 0, 0);
        law_first_control_plane(rules);
        if first_control_plane(rules) is None {
            assert forall|first: int| !#[trigger] leads(rules, first) by {
                if 0 <= first < rules.len() {
                    assert(rules[first].group_type != "control-plane"@);
                }
            }
        }
    }
}

/// The first address is asked for in the same way.
pub proof fn law_sweep_asks_for_the_first_address(
    restart: bool,
    loaded: LoadedModel,
    instances: Option<Entries>,
    home: Option<Seq<char>>,
    auto: bool,
    log: Log,
)
    ensures
        sweep_begin(restart, loaded, instances, home, auto, log).0 matches Progress::Wait(n, a) ==> (a
            matches Action::Address { instance, prefer_public } && prefer_public == n.nodes[0].1 && (match instances {
            None => instance == n.nodes[0].0,
            Some(entries) => lookup(entries, n.nodes[0].0) == Some(instance),
        })),
{
}

/// The jump host, where no provisioner's address is asked for: without a
/// provisioner it is the first control-plane node, where that is reached by
/// its public address; else it is the first node that is, and there is none
/// where no node is.
pub proof fn law_jump_host_is_the_first_public_node(m: SweepModel, ip: Seq<char>, log: Log)
    requires
        sweep_wf(m),
        m.stage == SweepStage::Fetching((m.nodes.len() - 1) as usize),
    ensures
        sweep_next(m, Event::Output(ip), log).0 matches Progress::Wait(n, _) && (if m.provisioner matches Some(p)
            && p.provisioner_type == "public"@ && exists|i: int| 0 <= i < m.nodes.len() && !(#[trigger] m.nodes[i]).1 {
            n.stage is FetchingJump
        } else if m.provisioner is None && m.lead is Some && m.nodes[m.lead->0 as int].1 {
            n.jump == Some(n.ips[m.lead->0 as int])
        } else {
            match n.jump {
                Some(jump) => exists|i: int|
                    0 <= i < m.nodes.len() && (#[trigger] m.nodes[i]).1 && jump == n.ips[i] && forall|j: int|
                        0 <= j < i ==> !(#[trigger] m.nodes[j]).1,
                None => forall|j: int| 0 <= j < m.nodes.len() ==> !(#[trigger] m.nodes[j]).1,
            }
        }),
{
    lemma_first_public_is_first(m.nodes, m.ips.push(ip), m.nodes.len());
}

/// A node is reset by one command, which goes straight to a node that is
/// reached by its public address and through the jump host to any other.
/// Every node that is approved is reset, and a failure stops nothing.
pub proof fn law_sweep_resets_the_node_at_hand(m: SweepModel, event: Event<Seq<char>>, log: Log)
    requires
        sweep_wf(m),
    ensures
        sweep_next(m, event, log).0 matches Progress::Wait(n, a) ==> {
            &&& a is Run || a is Broadcast || a is Confirm || a is Address
            &&& a matches Action::Run { ip, jump, command } ==> {
                &&& node_at(m.stage) is None ==> !m.restart
                &&& n.stage matches SweepStage::Resetting(i) && ip == n.ips[i as int] && jump == (
                if m.nodes[i as int].1 {
                    None
                } else {
                    n.jump
                })
                &&& command == "sudo kubeadm reset -f && \
                     sudo rm -rf /etc/cni /etc/kubernetes /var/lib/etcd /var/lib/kubelet"@
            }
            &&& n.stage is Resetting ==> a is Run
            &&& a is Broadcast ==> m.restart && n.stage is Rebooting
            &&& a matches Action::Confirm(question) ==> match n.stage {
                SweepStage::AskAll => question == (if m.restart {
                    "\nProceed with restarting all nodes?"@
                } else {
                    "\nProceed with kubeadm reset on all nodes?"@
                }),
                SweepStage::AskNode(i) => question == "  Reset "@ + m.nodes[i as int].0 + "?"@,
                _ => false,
            }
        },
        m.stage matches SweepStage::AskNode(i) ==> (sweep_next(m, Event::Answer(true), log).0 matches Progress::Wait(
            n,
            _,
        ) && n.stage == SweepStage::Resetting(i)),
        m.stage is Resetting && (event is Finished || event is Failed) ==> !(sweep_next(m, event, log).0 is Failed),
        m.stage is AskAll ==> (sweep_next(m, Event::Answer(true), log).0 matches Progress::Wait(n, _) && (if m.restart {
            n.stage is Rebooting
        } else if m.auto {
            n.stage == SweepStage::Resetting(0)
        } else {
            n.stage == SweepStage::AskNode(0)
        })),
        m.stage is AskAll ==> sweep_next(m, Event::Answer(false), log).0 is Done,
{
}

proof fn lemma_lead(rules: Seq<ResolvedModel>)
    ensures
        lead_position(rules) matches Some(i) ==> i < all_targets(rules).len(),
    decreases rules.len(),
{
    if rules.len() > 0 {
        lemma_lead(rules.drop_last());
    }
}

// ---------------------------------------------------------------------------
// Code
// ---------------------------------------------------------------------------

fn find_lead(rules: &Vec<CommonResolvedRule>, total: usize) -> (r: Option<usize>)
    requires
        total == all_targets(rules.deep_view()).len(),
    ensures
        match r {
            Some(i) => lead_position(rules.deep_view()) == Some(i as nat) && i < total,
            None => lead_position(rules.deep_view()) is None,
        },
{
    let ghost all = rules.deep_view();
    let mut count: usize = 0;
    let mut i: usize = 0;
    while i < rules.len()
        invariant
            i <= rules@.len(),
            all == rules.deep_view(),
            total == all_targets(all).len(),
            count == all_targets(all.take(i as int)).len(),
            lead_position(all.take(i as int)) is None,
        decreases rules@.len() - i,
    {
        assert(all.take(i + 1).drop_last() =~= all.take(i as int));
        assert(all.take(i + 1).last() == rules@[i as int].deep_view());
        proof {
            lemma_targets_grow(all, i + 1);
            lemma_lead(all);
        }
        if same(rules[i].group_type.as_str(), "control-plane") && rules[i].nodes.len() > 0 {
            proof {
                lemma_lead_stays(all, i + 1);
            }
            return Some(count);
        }
        count = count + rules[i].nodes.len();
        i = i + 1;
    }
    assert(all.take(i as int) =~= all);
    None
}

proof fn lemma_targets_grow(rules: Seq<ResolvedModel>, n: int)
    requires
        0 <= n <= rules.len(),
    ensures
        all_targets(rules.take(n)).len() <= all_targets(rules).len(),
    decreases rules.len() - n,
{
    if n < rules.len() {
        assert(rules.take(n + 1).drop_last() =~= rules.take(n));
        lemma_targets_grow(rules, n + 1);
    } else {
        assert(rules.take(n) =~= rules);
    }
}

proof fn lemma_lead_stays(rules: Seq<ResolvedModel>, n: int)
    requires
        0 <= n <= rules.len(),
        lead_position(rules.take(n)) is Some,
    ensures
        lead_position(rules) == lead_position(rules.take(n)),
    decreases rules.len() - n,
{
    if n < rules.len() {
        assert(rules.take(n + 1).drop_last() =~= rules.take(n));
        lemma_lead_stays(rules, n + 1);
    } else {
        assert(rules.take(n) =~= rules);
    }
}

/// Start going over all nodes of a configuration.
pub fn sweep(
    restart: bool,
    loaded: &LoadedProvider,
    instances: Option<Registry>,
    home: &Option<String>,
    auto_approve: bool,
    log: &mut Vec<Note<String>>,
) -> (r: Progress<Sweep, String>)
    ensures
        (r.deep_view(), final(log).deep_view()) == sweep_begin(
            restart,
            loaded.deep_view(),
            instances.deep_view(),
            home.deep_view(),
            auto_approve,
            old(log).deep_view(),
        ),
        r matches Progress::Wait(m, _) ==> sweep_wf(m.deep_view()),
{
    show_settings(loaded, log);
    let common = loaded.common();
    let rules = match resolve_rules(common) {
        Ok(rules) => rules,
        Err(e) => return Progress::Failed(e.message()),
    };
    let nodes = targets(&rules);
    assert(nodes.deep_view().len() == nodes.len());
    if nodes.len() == 0 {
        say(log, "  No nodes found in config.".to_owned());
        return Progress::Done;
    }
    let first = match control_plane_rule(&rules) {
        Some(rule) => rule,
        None => return Progress::Failed("No control-plane rules found in config".to_owned()),
    };
    let lead = find_lead(&rules, nodes.len());
    let title = if restart {
        "\n── Nodes to restart ─────────────────────────────────────────────────────"
    } else {
        "\n── Nodes to reset ───────────────────────────────────────────────────────"
    };
    say(log, title.to_owned());
    say(log, "Fetching IPs …\n".to_owned());
    let ips: Vec<String> = Vec::new();
    assert(ips.deep_view() =~= Seq::<Seq<char>>::empty());
    let provisioner = clone_provisioner(&common.provisioner);
    let m = Sweep {
        restart,
        nodes,
        lead,
        instances,
        provisioner,
        user: first.merged.user.clone(),
        key: private_key_path(first.merged.ssh_public_key.as_str(), home),
        auto: auto_approve,
        ips,
        jump: None,
        stage: SweepStage::AskAll,
    };
    m.fetch(0, log)
}

impl Sweep {
    fn fetch(self, i: usize, log: &mut Vec<Note<String>>) -> (r: Progress<Sweep, String>)
        requires
            i < self.nodes@.len(),
        ensures
            (r.deep_view(), final(log).deep_view()) == sweep_fetch(
                self.deep_view(),
                i as int,
                old(log).deep_view(),
            ),
    {
        let name = self.nodes[i].0.clone();
        let prefer_public = self.nodes[i].1;
        let instance = match &self.instances {
            None => name,
            Some(entries) => match entries.get(name.as_str()) {
                Some(id) => id,
                None => {
                    return Progress::Failed(
                        cat3(
                            "No instance ID found for node '",
                            name.as_str(),
                            "' in state. Run 'apply' first.",
                        ),
                    );
                },
            },
        };
        Progress::Wait(
            Sweep { stage: SweepStage::Fetching(i), ..self },
            Action::Address { instance, prefer_public },
        )
    }

    fn fetched(self, i: usize, ip: String, log: &mut Vec<Note<String>>) -> (r: Progress<Sweep, String>)
        requires
            lead_ok(self.deep_view()),
            i < self.nodes@.len(),
            self.ips@.len() == i,
        ensures
            (r.deep_view(), final(log).deep_view()) == sweep_fetched(
                self.deep_view(),
                i as int,
                ip@,
                old(log).deep_view(),
            ),
    {
        let n: usize = self.nodes.len();
        say(log, show_address(self.nodes[i].0.as_str(), ip.as_str(), self.nodes[i].1));
        let mut ips = self.ips;
        let ghost before = ips.deep_view();
        ips.push(ip);
        assert(ips.deep_view() =~= before.push(ip@));
        let more = Sweep { ips, ..self };
        if i + 1 < n {
            more.fetch(i + 1, log)
        } else {
            more.find_jump(log)
        }
    }

    fn some_private(&self) -> (r: bool)
        ensures
            r == some_private(self.deep_view().nodes),
    {
        let ghost nodes = self.nodes.deep_view();
        let mut i: usize = 0;
        while i < self.nodes.len()
            invariant
                i <= self.nodes@.len(),
                nodes == self.nodes.deep_view(),
                forall|k: int| 0 <= k < i ==> (#[trigger] nodes[k]).1,
            decreases self.nodes@.len() - i,
        {
            if !self.nodes[i].1 {
                assert(!nodes[i as int].1);
                return true;
            }
            i = i + 1;
        }
        false
    }

    fn first_public(&self) -> (r: Option<String>)
        requires
            self.ips@.len() == self.nodes@.len(),
        ensures
            r.deep_view() == first_public_ip(
                self.deep_view().nodes,
                self.deep_view().ips,
                self.deep_view().nodes.len(),
            ),
    {
        let ghost nodes = self.nodes.deep_view();
        let ghost ips = self.ips.deep_view();
        let mut i: usize = 0;
        while i < self.nodes.len()
            invariant
                i <= self.nodes@.len(),
                self.ips@.len() == self.nodes@.len(),
                nodes == self.nodes.deep_view(),
                ips == self.ips.deep_view(),
                first_public_ip(nodes, ips, i as nat) is None,
            decreases self.nodes@.len() - i,
        {
            assert(nodes[i as int] == self.nodes@[i as int].deep_view());
            if self.nodes[i].1 {
                proof {
                    lemma_first_public_stays(nodes, ips, (i + 1) as nat, nodes.len());
                }
                return Some(self.ips[i].clone());
            }
            i = i + 1;
        }
        None
    }

    fn implicit_jump(&self) -> (r: Option<String>)
        requires
            lead_ok(self.deep_view()),
            self.ips@.len() == self.nodes@.len(),
        ensures
            r.deep_view() == implicit_jump(self.deep_view()),
    {
        if let Some(i) = self.lead {
            if self.nodes[i].1 {
                return Some(self.ips[i].clone());
            }
        }
        self.first_public()
    }

    fn find_jump(self, log: &mut Vec<Note<String>>) -> (r: Progress<Sweep, String>)
        requires
            lead_ok(self.deep_view()),
            self.ips@.len() == self.nodes@.len(),
        ensures
            (r.deep_view(), final(log).deep_view()) == sweep_jump(self.deep_view(), old(log).deep_view()),
    {
        match &self.provisioner {
            Some(p) => if same(p.provisioner_type.as_str(), "public") && self.some_private() {
                let instance = match &self.instances {
                    Some(entries) => entries.get_or_name(p.node.as_str()),
                    None => p.node.clone(),
                };
                Progress::Wait(
                    Sweep { stage: SweepStage::FetchingJump, ..self },
                    Action::Address { instance, prefer_public: true },
                )
            } else {
                let jump = self.first_public();
                Sweep { jump, ..self }.ready(log)
            },
            None => {
                let jump = self.implicit_jump();
                Sweep { jump, ..self }.ready(log)
            },
        }
    }

    fn ready(self, log: &mut Vec<Note<String>>) -> (r: Progress<Sweep, String>)
        requires
            self.ips@.len() == self.nodes@.len(),
        ensures
            (r.deep_view(), final(log).deep_view()) == sweep_ready(self.deep_view(), old(log).deep_view()),
    {
        say(log, cat4("\n  SSH user: ", self.user.as_str(), "  private key: ", self.key.as_str()));
        let (warning, question) = if self.restart {
            (
                "⚠  All nodes will be rebooted. Services will be temporarily unavailable.",
                "\nProceed with restarting all nodes?",
            )
        } else {
            (
                "\n⚠  This will reset kubeadm state on all nodes. Any clusters will be destroyed.",
                "\nProceed with kubeadm reset on all nodes?",
            )
        };
        say(log, warning.to_owned());
        if self.auto {
            say(log, cat2(question, AUTO_APPROVED));
            self.go(log)
        } else {
            Progress::Wait(
                Sweep { stage: SweepStage::AskAll, ..self },
                Action::Confirm(question.to_owned()),
            )
        }
    }

    fn go(self, log: &mut Vec<Note<String>>) -> (r: Progress<Sweep, String>)
        requires
            self.ips@.len() == self.nodes@.len(),
        ensures
            (r.deep_view(), final(log).deep_view()) == sweep_go(self.deep_view(), old(log).deep_view()),
    {
        if self.restart {
            say(log, "\nSending reboot signals to all nodes in parallel …".to_owned());
            Progress::Wait(Sweep { stage: SweepStage::Rebooting, ..self }, Action::Broadcast)
        } else {
            self.visit(0, log)
        }
    }

    fn visit(self, i: usize, log: &mut Vec<Note<String>>) -> (r: Progress<Sweep, String>)
        requires
            self.ips@.len() == self.nodes@.len(),
        ensures
            (r.deep_view(), final(log).deep_view()) == sweep_visit(
                self.deep_view(),
                i as int,
                old(log).deep_view(),
            ),
    {
        if i < self.nodes.len() {
            let name = self.nodes[i].0.as_str();
            let mut line = cat7(
                "\n  [",
                number((i + 1) as u64).as_str(),
                "/",
                number(self.nodes.len() as u64).as_str(),
                "] ",
                name,
                "  (",
            );
            line.append(self.ips[i].as_str());
            line.append(")");
            say(log, line);
            let question = cat3("  Reset ", name, "?");
            if self.auto {
                say(log, question.concat(AUTO_APPROVED));
                self.reset(i, log)
            } else {
                Progress::Wait(Sweep { stage: SweepStage::AskNode(i), ..self }, Action::Confirm(question))
            }
        } else {
            say(log, "\n✓ Reset complete. All nodes have been reset to clean state.".to_owned());
            Progress::Done
        }
    }

    fn route(&self, i: usize) -> (r: Option<String>)
        requires
            i < self.nodes@.len(),
        ensures
            r.deep_view() == node_route(self.deep_view(), i as int),
    {
        if self.nodes[i].1 {
            None
        } else {
            self.jump.clone()
        }
    }

    fn reset(self, i: usize, log: &mut Vec<Note<String>>) -> (r: Progress<Sweep, String>)
        requires
            i < self.nodes@.len() == self.ips@.len(),
        ensures
            (r.deep_view(), final(log).deep_view()) == sweep_reset(
                self.deep_view(),
                i as int,
                old(log).deep_view(),
            ),
    {
        say(log, "  Running kubeadm reset …".to_owned());
        let action = Action::Run {
            ip: self.ips[i].clone(),
            jump: self.route(i),
            command: RESET_COMMAND.to_owned(),
        };
        Progress::Wait(Sweep { stage: SweepStage::Resetting(i), ..self }, action)
    }

    /// Take the outcome of the action that was asked for.
    pub fn step(self, event: Event<String>, log: &mut Vec<Note<String>>) -> (r: Progress<Sweep, String>)
        requires
            sweep_wf(self.deep_view()),
        ensures
            (r.deep_view(), final(log).deep_view()) == sweep_next(
                self.deep_view(),
                event.deep_view(),
                old(log).deep_view(),
            ),
            r matches Progress::Wait(m, _) ==> sweep_wf(m.deep_view()),
    {
        proof {
            law_sweep_stays_well_formed(self.deep_view(), event.deep_view(), log.deep_view());
        }
        match (self.stage, event) {
            (SweepStage::Fetching(i), Event::Output(ip)) => self.fetched(i, ip, log),
            (SweepStage::Fetching(_), Event::Failed(e)) => Progress::Failed(e),
            (SweepStage::FetchingJump, Event::Output(ip)) => Sweep { jump: Some(ip), ..self }.ready(log),
            (SweepStage::FetchingJump, Event::Failed(e)) => Progress::Failed(e),
            (SweepStage::AskAll, Event::Answer(yes)) => if yes {
                self.go(log)
            } else {
                say(log, "Aborted.".to_owned());
                Progress::Done
            },
            (SweepStage::AskNode(i), Event::Answer(yes)) => if yes {
                self.reset(i, log)
            } else {
                say(log, "  Skipped.".to_owned());
                self.visit(i + 1, log)
            },
            (SweepStage::Resetting(i), Event::Finished) => {
                say(log, cat3("  ✓ ", self.nodes[i].0.as_str(), " reset."));
                self.visit(i + 1, log)
            },
            (SweepStage::Resetting(i), Event::Failed(e)) => {
                warn(log, cat4("  ✗ Failed to reset ", self.nodes[i].0.as_str(), ": ", e.as_str()));
                self.visit(i + 1, log)
            },
            (SweepStage::Rebooting, Event::Finished) => Progress::Done,
            _ => Progress::Failed(OUT_OF_STEP.to_owned()),
        }
    }

    /// The orders to carry out all at once: a reboot for every node.
    pub fn orders(&self) -> (r: Vec<Action<String>>)
        requires
            sweep_wf(self.deep_view()),
            self.stage is Rebooting,
        ensures
            r.deep_view() == reboot_orders(self.deep_view()),
    {
        let mut out: Vec<Action<String>> = Vec::new();
        let ghost m = self.deep_view();
        let mut i: usize = 0;
        while i < self.nodes.len()
            invariant
                m == self.deep_view(),
                i <= self.nodes@.len() == self.ips@.len(),
                out@.len() == i,
                forall|k: int| 0 <= k < i ==> (#[trigger] out@[k]).deep_view() == reboot_order(m, k),
            decreases self.nodes@.len() - i,
        {
            out.push(
                Action::Run {
                    ip: self.ips[i].clone(),
                    jump: self.route(i),
                    command: REBOOT_COMMAND.to_owned(),
                },
            );
            i = i + 1;
        }
        assert(out.deep_view() =~= reboot_orders(m));
        out
    }
}

proof fn lemma_first_public_stays(nodes: Seq<Target>, ips: Seq<Seq<char>>, k: nat, n: nat)
    requires
        k <= n,
        first_public_ip(nodes, ips, k) is Some,
    ensures
        first_public_ip(nodes, ips, n) == first_public_ip(nodes, ips, k),
    decreases n - k,
{
    if k < n {
        lemma_first_public_stays(nodes, ips, k, (n - 1) as nat);
    }
}

} // verus!
