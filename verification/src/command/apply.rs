//! `apply`: create what a configuration asks for and delete what it no longer
//! asks for.

use vstd::prelude::*;

use crate::command::{
    all_targets, law_every_node_is_a_target, node_count, rule_targets, settings, targets, Target,
    SETTINGS,
};
use crate::endpoint::is_digit;
use crate::ip::IpAddressType;
use crate::json::{field, found, get, is_whole, parse_json, parsed_json, whole, Json, JsonModel};
use crate::provider::{LoadedModel, Setup};
use crate::registry::{
    id_or_name, known, law_stored, law_unwanted, law_without, lookup, stored, unwanted, without,
    Entries, Registry,
};
use crate::rule::{
    resolve_rules, resolved_rules, rule_message, CommonResolvedRule, ResolvedModel, RuleFault,
};
use crate::session::{
    below, kept, say, warn, Action, Event, Log, Note, Progress, VmRequest, OUT_OF_STEP,
};
use crate::state::{State, StateModel};
use crate::structs::{DiskModel, DiskYaml};
use crate::text::{cat2, cat3, cat4, cat5, cat7, decimal, number, trimmed};
use crate::utils::{expand_tilde, expanded, read_ssh_public_key};

verus! {

// ---------------------------------------------------------------------------
// State
// ---------------------------------------------------------------------------

/// Where the work stands. Positions count disks, instances, or rules and the
/// nodes within them.
#[derive(Clone, Copy)]
pub enum ApplyStage {
    /// May the changes be made?
    AskAll,
    /// Access to the provider is being asked for.
    Connecting,
    /// A disk is being deleted, and then the state saved.
    DestroyingDisk(usize),
    DiskDestroyed(usize),
    /// An instance is being deleted, and then the state saved.
    DestroyingVm(usize),
    VmDestroyed(usize),
    /// The public key of a rule is being read.
    ReadingKey(usize),
    /// An instance is being created, and then the state saved.
    Creating(usize, usize),
    Created(usize, usize),
    /// A disk is being created, and then the state saved.
    CreatingDisk(usize),
    DiskCreated(usize),
    /// A disk is being attached.
    Attaching(usize),
    /// Kubernetes is being provisioned.
    Playing,
}

/// The work of bringing a configuration about.
pub struct Apply {
    pub rules: Vec<CommonResolvedRule>,
    pub disks: Vec<DiskYaml>,
    pub state: State,
    pub is_gcp: bool,
    /// The home directory.
    pub home: Option<String>,
    /// Whether to provision Kubernetes in the end.
    pub play: bool,
    /// The instances and the disks to delete.
    pub doomed_vms: Vec<String>,
    pub doomed_disks: Vec<String>,
    /// How many instances and how many disks are to be created.
    pub vms_wanted: usize,
    pub disks_wanted: usize,
    /// `<user>:<public key>` of the rule at hand, or nothing.
    pub ssh_keys: String,
    /// How many instances and how many disks were created.
    pub created: usize,
    pub created_disks: usize,
    pub stage: ApplyStage,
}

pub struct ApplyModel {
    pub rules: Seq<ResolvedModel>,
    pub disks: Seq<DiskModel>,
    pub state: StateModel,
    pub is_gcp: bool,
    pub home: Option<Seq<char>>,
    pub play: bool,
    pub doomed_vms: Seq<Seq<char>>,
    pub doomed_disks: Seq<Seq<char>>,
    pub vms_wanted: usize,
    pub disks_wanted: usize,
    pub ssh_keys: Seq<char>,
    pub created: usize,
    pub created_disks: usize,
    pub stage: ApplyStage,
}

impl DeepView for Apply {
    type V = ApplyModel;

    open spec fn deep_view(&self) -> ApplyModel {
        ApplyModel {
            rules: self.rules.deep_view(),
            disks: self.disks.deep_view(),
            state: self.state.deep_view(),
            is_gcp: self.is_gcp,
            home: self.home.deep_view(),
            play: self.play,
            doomed_vms: self.doomed_vms.deep_view(),
            doomed_disks: self.doomed_disks.deep_view(),
            vms_wanted: self.vms_wanted,
            disks_wanted: self.disks_wanted,
            ssh_keys: self.ssh_keys@,
            created: self.created,
            created_disks: self.created_disks,
            stage: self.stage,
        }
    }
}

pub type ApplyStep = (Progress<ApplyModel, Seq<char>>, Log);

/// How many nodes the first `r` rules have.
pub open spec fn nodes_before(rules: Seq<ResolvedModel>, r: int) -> nat {
    all_targets(rules.take(r)).len()
}

/// The sizes of the plan are those of lists.
pub open spec fn sizes_ok(m: ApplyModel) -> bool {
    &&& all_targets(m.rules).len() <= usize::MAX
    &&& m.rules.len() <= usize::MAX
    &&& m.disks.len() <= usize::MAX
    &&& m.doomed_vms.len() <= usize::MAX
    &&& m.doomed_disks.len() <= usize::MAX
}

/// The position in the stage is one, and no more was created than was gone
/// over.
pub open spec fn apply_wf(m: ApplyModel) -> bool {
    &&& sizes_ok(m)
    &&& match m.stage {
        ApplyStage::AskAll => m.created == 0 && m.created_disks == 0,
        ApplyStage::Connecting => m.created == 0 && m.created_disks == 0,
        ApplyStage::DestroyingDisk(i) => i < m.doomed_disks.len() && m.created == 0 && m.created_disks == 0,
        ApplyStage::DiskDestroyed(i) => i < m.doomed_disks.len() && m.created == 0 && m.created_disks == 0,
        ApplyStage::DestroyingVm(i) => i < m.doomed_vms.len() && m.created == 0 && m.created_disks == 0,
        ApplyStage::VmDestroyed(i) => i < m.doomed_vms.len() && m.created == 0 && m.created_disks == 0,
        ApplyStage::ReadingKey(r) => r < m.rules.len() && m.created <= nodes_before(m.rules, r as int)
            && m.created_disks == 0,
        ApplyStage::Creating(r, k) => creating_at(m, r as int, k as int),
        ApplyStage::Created(r, k) => creating_at(m, r as int, k as int),
        ApplyStage::CreatingDisk(i) => i < m.disks.len() && m.created_disks <= i,
        ApplyStage::DiskCreated(i) => i < m.disks.len() && m.created_disks <= i,
        ApplyStage::Attaching(i) => i < m.disks.len() && m.created_disks <= i + 1,
        ApplyStage::Playing => true,
    }
}

pub open spec fn creating_at(m: ApplyModel, r: int, k: int) -> bool {
    &&& 0 <= r < m.rules.len()
    &&& 0 <= k < m.rules[r].nodes.len()
    &&& m.rules[r].nodes.len() <= usize::MAX
    &&& m.created <= nodes_before(m.rules, r) + k
    &&& m.created_disks == 0
}

// ---------------------------------------------------------------------------
// The plan
// ---------------------------------------------------------------------------

/// The names of nodes.
pub open spec fn names_of(nodes: Seq<Target>) -> Seq<Seq<char>> {
    nodes.map_values(|t: Target| t.0)
}

/// The names of all nodes that the rules ask for.
pub open spec fn vm_names(rules: Seq<ResolvedModel>) -> Seq<Seq<char>> {
    names_of(all_targets(rules))
}

/// The names of disks.
pub open spec fn disk_names(disks: Seq<DiskModel>) -> Seq<Seq<char>> {
    disks.map_values(|d: DiskModel| d.name)
}

/// How many of `names` are not known.
pub open spec fn missing(names: Seq<Seq<char>>, entries: Entries) -> nat
    decreases names.len(),
{
    if names.len() == 0 {
        0
    } else if known(entries, names.last()) {
        missing(names.drop_last(), entries)
    } else {
        missing(names.drop_last(), entries) + 1
    }
}

/// The lines for what is deleted.
pub open spec fn doomed_lines(names: Seq<Seq<char>>, entries: Entries, log: Log) -> Log
    decreases names.len(),
{
    if names.len() == 0 {
        log
    } else {
        doomed_lines(names.drop_last(), entries, log).push(
            Note::Say("  - "@ + names.last() + " (ID: "@ + id_or_name(entries, names.last()) + ")"@),
        )
    }
}

/// The lines for the first `n` nodes of a rule, as far as they are created.
pub open spec fn rule_lines(rule: ResolvedModel, entries: Entries, n: nat, log: Log) -> Log
    decreases n,
{
    if n == 0 {
        log
    } else {
        let before = rule_lines(rule, entries, (n - 1) as nat, log);
        let node = rule.nodes[n - 1];
        if known(entries, node) {
            before
        } else {
            before.push(
                Note::Say(
                    "  + "@ + node + " (Type: "@ + rule.merged.machine_type + ", Image: "@
                        + rule.merged.boot_disk_image + ")"@,
                ),
            )
        }
    }
}

/// The lines for the instances that are created.
pub open spec fn create_lines(rules: Seq<ResolvedModel>, entries: Entries, log: Log) -> Log
    decreases rules.len(),
{
    if rules.len() == 0 {
        log
    } else {
        rule_lines(
            rules.last(),
            entries,
            rules.last().nodes.len(),
            create_lines(rules.drop_last(), entries, log),
        )
    }
}

/// The lines for the disks that are created.
pub open spec fn disk_lines(disks: Seq<DiskModel>, entries: Entries, log: Log) -> Log
    decreases disks.len(),
{
    if disks.len() == 0 {
        log
    } else {
        let before = disk_lines(disks.drop_last(), entries, log);
        let d = disks.last();
        if known(entries, d.name) {
            before
        } else {
            before.push(
                Note::Say(
                    "  + "@ + d.name + " (Size: "@ + decimal(d.size as nat) + "GB, Node: "@ + d.node + ")"@,
                ),
            )
        }
    }
}

/// Whether there is anything to do.
pub open spec fn has_changes(m: ApplyModel) -> bool {
    m.doomed_vms.len() > 0 || m.vms_wanted > 0 || m.doomed_disks.len() > 0 || m.disks_wanted > 0
}

/// What the operator reads about the plan.
pub open spec fn plan_lines(m: ApplyModel, log: Log) -> Log {
    let l0 = log.push(
        Note::Say("\n── Execution Plan ───────────────────────────────────────────────────────"@),
    );
    let l1 = if m.doomed_vms.len() > 0 {
        doomed_lines(m.doomed_vms, m.state.instances, l0.push(Note::Say("Instances to destroy:"@)))
    } else {
        l0
    };
    let l2 = if m.vms_wanted > 0 {
        create_lines(m.rules, m.state.instances, l1.push(Note::Say("Instances to create:"@)))
    } else {
        l1
    };
    let l3 = if m.doomed_disks.len() > 0 {
        doomed_lines(m.doomed_disks, m.state.disks, l2.push(Note::Say("Disks to destroy:"@)))
    } else {
        l2
    };
    if m.disks_wanted > 0 {
        disk_lines(m.disks, m.state.disks, l3.push(Note::Say("Disks to create & attach:"@)))
    } else {
        l3
    }
}

/// The line that sums the plan up.
pub open spec fn summary_line(m: ApplyModel) -> Seq<char> {
    "\nSummary: "@ + decimal(m.vms_wanted as nat) + " instances to create, "@ + decimal(m.doomed_vms.len())
        + " instances to destroy, "@ + decimal(m.disks_wanted as nat) + " disks to create, "@ + decimal(
        m.doomed_disks.len(),
    ) + " disks to destroy."@
}

pub const APPLY_QUESTION: &'static str = "\nProceed with these changes?";

/// The plan for a set of rules and disks in a state.
pub open spec fn apply_plan(
    rules: Seq<ResolvedModel>,
    disks: Seq<DiskModel>,
    state: StateModel,
    is_gcp: bool,
    home: Option<Seq<char>>,
    play: bool,
) -> ApplyModel {
    ApplyModel {
        rules,
        disks,
        state,
        is_gcp,
        home,
        play,
        doomed_vms: unwanted(state.instances, vm_names(rules)),
        doomed_disks: unwanted(state.disks, disk_names(disks)),
        vms_wanted: missing(vm_names(rules), state.instances) as usize,
        disks_wanted: missing(disk_names(disks), state.disks) as usize,
        ssh_keys: ""@,
        created: 0,
        created_disks: 0,
        stage: ApplyStage::AskAll,
    }
}

/// The work starts: the plan is shown, and the operator is asked where it
/// changes anything.
pub open spec fn apply_begin(
    loaded: LoadedModel,
    state: StateModel,
    home: Option<Seq<char>>,
    play: bool,
    auto: bool,
    log: Log,
) -> ApplyStep {
    let told = settings(loaded, log);
    match resolved_rules(loaded.common.rules, loaded.common) {
        Err(e) => (Progress::Failed(rule_message(e)), told),
        Ok(rules) => {
            let disks = match loaded.common.disks {
                Some(d) => d,
                None => Seq::empty(),
            };
            let m = apply_plan(rules, disks, state, loaded.is_gcp, home, play);
            let planned = plan_lines(m, told);
            if !has_changes(m) {
                connect(
                    m,
                    planned.push(
                        Note::Say("All nodes and disks are already in the desired state. Nothing to do."@),
                    ),
                )
            } else {
                let summed = planned.push(Note::Say(summary_line(m)));
                if auto {
                    connect(m, summed)
                } else {
                    (Progress::Wait(m, Action::Confirm(APPLY_QUESTION@)), summed)
                }
            }
        },
    }
}

/// The changes may be made: get access to the provider.
pub open spec fn connect(m: ApplyModel, log: Log) -> ApplyStep {
    (Progress::Wait(ApplyModel { stage: ApplyStage::Connecting, ..m }, Action::Connect), log)
}

// ---------------------------------------------------------------------------
// Deleting
// ---------------------------------------------------------------------------

/// The changes are made, beginning with the disks to delete.
pub open spec fn apply_go(m: ApplyModel, log: Log) -> ApplyStep {
    if m.doomed_disks.len() > 0 {
        drop_disk(
            m,
            0,
            log.push(
                Note::Say("\n── Destroying Disks ─────────────────────────────────────────────────────"@),
            ),
        )
    } else {
        drop_vms(m, log)
    }
}

/// Disk `i` of those to delete is next.
pub open spec fn drop_disk(m: ApplyModel, i: int, log: Log) -> ApplyStep {
    if i < m.doomed_disks.len() {
        let name = m.doomed_disks[i];
        let id = id_or_name(m.state.disks, name);
        (
            Progress::Wait(
                ApplyModel { stage: ApplyStage::DestroyingDisk(i as usize), ..m },
                Action::DestroyDisk(id),
            ),
            log.push(Note::Say("Destroying disk \""@ + name + "\" (ID: "@ + id + ")..."@)),
        )
    } else {
        drop_vms(m, log)
    }
}

/// The instances to delete come next.
pub open spec fn drop_vms(m: ApplyModel, log: Log) -> ApplyStep {
    if m.doomed_vms.len() > 0 {
        drop_vm(
            m,
            0,
            log.push(
                Note::Say("\n── Destroying Instances ─────────────────────────────────────────────────"@),
            ),
        )
    } else {
        create_vms(m, log)
    }
}

/// Instance `i` of those to delete is next. Google Cloud wants its name, and
/// DigitalOcean its identifier.
pub open spec fn drop_vm(m: ApplyModel, i: int, log: Log) -> ApplyStep {
    if i < m.doomed_vms.len() {
        let name = m.doomed_vms[i];
        (
            Progress::Wait(
                ApplyModel { stage: ApplyStage::DestroyingVm(i as usize), ..m },
                Action::DestroyVm(
                    if m.is_gcp {
                        name
                    } else {
                        id_or_name(m.state.instances, name)
                    },
                ),
            ),
            log.push(Note::Say("Destroying instance \""@ + name + "\"..."@)),
        )
    } else {
        create_vms(m, log)
    }
}

// ---------------------------------------------------------------------------
// Creating instances
// ---------------------------------------------------------------------------

/// The instances to create come next.
pub open spec fn create_vms(m: ApplyModel, log: Log) -> ApplyStep {
    if m.vms_wanted > 0 {
        read_key(
            m,
            0,
            log.push(
                Note::Say("\n── Creating Instances ───────────────────────────────────────────────────"@),
            ),
        )
    } else {
        create_disks(m, log)
    }
}

/// Rule `r` is next: read its public key.
pub open spec fn read_key(m: ApplyModel, r: int, log: Log) -> ApplyStep {
    if r < m.rules.len() {
        (
            Progress::Wait(
                ApplyModel { stage: ApplyStage::ReadingKey(r as usize), ..m },
                Action::ReadFile(expanded(m.rules[r].merged.ssh_public_key, m.home)),
            ),
            log,
        )
    } else {
        create_disks(
            m,
            log.push(
                Note::Say(
                    "\n✓ "@ + decimal(m.created as nat) + " VM creation request(s) submitted successfully."@,
                ),
            ),
        )
    }
}

/// The public key of rule `r` came, or did not.
pub open spec fn key_read(m: ApplyModel, r: int, event: Event<Seq<char>>, log: Log) -> ApplyStep {
    let merged = m.rules[r].merged;
    match event {
        Event::Output(content) => create_from(
            ApplyModel { ssh_keys: merged.user + ":"@ + trimmed(content), ..m },
            r,
            0,
            log,
        ),
        Event::Failed(e) => create_from(
            ApplyModel { ssh_keys: ""@, ..m },
            r,
            0,
            log.push(
                Note::Warn(
                    "  ⚠ Could not read SSH public key: "@ + ("Cannot read SSH public key from '"@ + expanded(
                        merged.ssh_public_key,
                        m.home,
                    ) + "': "@ + e),
                ),
            ),
        ),
        _ => (Progress::Failed(OUT_OF_STEP@), log),
    }
}

/// What node `k` of rule `r` is created from.
pub open spec fn vm_request(m: ApplyModel, r: int, k: int) -> VmRequest<Seq<char>> {
    let merged = m.rules[r].merged;
    VmRequest {
        name: m.rules[r].nodes[k],
        machine_type: merged.machine_type,
        boot_disk_image: merged.boot_disk_image,
        boot_disk_size_gb: merged.boot_disk_size,
        ssh_keys: m.ssh_keys,
        startup_script: merged.script,
        public_ip: merged.ip_address == IpAddressType::Public,
    }
}

/// The next node of rule `r` that is not known yet, from node `k` on.
pub open spec fn create_from(m: ApplyModel, r: int, k: int, log: Log) -> ApplyStep
    decreases m.rules[r].nodes.len() - k,
{
    if k >= m.rules[r].nodes.len() {
        read_key(m, r + 1, log)
    } else if known(m.state.instances, m.rules[r].nodes[k]) {
        create_from(m, r, k + 1, log)
    } else {
        (
            Progress::Wait(
                ApplyModel { stage: ApplyStage::Creating(r as usize, k as usize), ..m },
                Action::CreateVm(vm_request(m, r, k)),
            ),
            log.push(Note::Say("\nCreating instance \""@ + m.rules[r].nodes[k] + "\"..."@)),
        )
    }
}

/// The identifier in the reply to a request to create an instance: that of a
/// droplet, or the reply itself where it has none.
pub open spec fn id_in(tree: JsonModel, reply: Seq<char>) -> Seq<char> {
    match field(field(Some(tree), "droplet"@), "id"@) {
        Some(JsonModel::Number(n)) => if is_whole(n) {
            n
        } else {
            reply
        },
        Some(JsonModel::Text(s)) => s,
        _ => reply,
    }
}

/// The identifier in a reply that may not be JSON.
pub open spec fn reply_id(reply: Seq<char>) -> Seq<char> {
    match parsed_json(reply) {
        Ok(tree) => id_in(tree, reply),
        Err(_) => reply,
    }
}

/// `m` with an identifier for an instance.
pub open spec fn with_vm(m: ApplyModel, name: Seq<char>, id: Seq<char>) -> ApplyModel {
    ApplyModel {
        state: StateModel { instances: stored(m.state.instances, name, id), ..m.state },
        ..m
    }
}

/// `m` with an identifier for a disk.
pub open spec fn with_disk(m: ApplyModel, name: Seq<char>, id: Seq<char>) -> ApplyModel {
    ApplyModel {
        state: StateModel { disks: stored(m.state.disks, name, id), ..m.state },
        ..m
    }
}

/// `m` without an instance.
pub open spec fn without_vm(m: ApplyModel, name: Seq<char>) -> ApplyModel {
    ApplyModel {
        state: StateModel { instances: without(m.state.instances, name), ..m.state },
        ..m
    }
}

/// `m` without a disk.
pub open spec fn without_disk(m: ApplyModel, name: Seq<char>) -> ApplyModel {
    ApplyModel {
        state: StateModel { disks: without(m.state.disks, name), ..m.state },
        ..m
    }
}

/// Node `k` of rule `r` was created: remember it.
pub open spec fn vm_created(m: ApplyModel, r: int, k: int, id: Seq<char>, log: Log) -> ApplyStep {
    let name = m.rules[r].nodes[k];
    (
        Progress::Wait(
            ApplyModel { stage: ApplyStage::Created(r as usize, k as usize), ..with_vm(m, name, id) },
            Action::Save,
        ),
        log.push(Note::Say("Instance \""@ + name + "\" created with ID: "@ + id)),
    )
}

// ---------------------------------------------------------------------------
// Creating disks
// ---------------------------------------------------------------------------

/// The disks to create come next.
pub open spec fn create_disks(m: ApplyModel, log: Log) -> ApplyStep {
    if m.disks_wanted > 0 {
        disk_from(
            m,
            0,
            log.push(
                Note::Say("\n── Creating & Attaching Disks ───────────────────────────────────────────"@),
            ),
        )
    } else {
        apply_end(m, log)
    }
}

/// The next disk that is not known yet, from disk `i` on.
pub open spec fn disk_from(m: ApplyModel, i: int, log: Log) -> ApplyStep
    decreases m.disks.len() - i,
{
    if i >= m.disks.len() {
        apply_end(
            m,
            log.push(
                Note::Say(
                    "\n✓ "@ + decimal(m.created_disks as nat) + " disk(s) created and attachment requested."@,
                ),
            ),
        )
    } else if known(m.state.disks, m.disks[i].name) {
        disk_from(m, i + 1, log)
    } else {
        (
            Progress::Wait(
                ApplyModel { stage: ApplyStage::CreatingDisk(i as usize), ..m },
                Action::CreateDisk { name: m.disks[i].name, size_gb: m.disks[i].size },
            ),
            log.push(Note::Say("\nCreating disk \""@ + m.disks[i].name + "\"..."@)),
        )
    }
}

/// Disk `i` was created: remember it.
pub open spec fn disk_created(m: ApplyModel, i: int, id: Seq<char>, log: Log) -> ApplyStep {
    let name = m.disks[i].name;
    (
        Progress::Wait(
            ApplyModel { stage: ApplyStage::DiskCreated(i as usize), ..with_disk(m, name, id) },
            Action::Save,
        ),
        log.push(Note::Say("Disk \""@ + name + "\" created with ID: "@ + id)),
    )
}

/// Disk `i` is attached to its node, where that is known.
pub open spec fn attach(m: ApplyModel, i: int, log: Log) -> ApplyStep {
    let d = m.disks[i];
    match lookup(m.state.instances, d.node) {
        Some(instance) => (
            Progress::Wait(
                ApplyModel { stage: ApplyStage::Attaching(i as usize), ..m },
                Action::AttachDisk { disk: id_or_name(m.state.disks, d.name), instance },
            ),
            log.push(Note::Say("Attaching disk \""@ + d.name + "\" to node \""@ + d.node + "\"..."@)),
        ),
        None => disk_from(
            m,
            i + 1,
            log.push(
                Note::Say(
                    "⚠ Cannot attach disk \""@ + d.name + "\": Target node \""@ + d.node
                        + "\" not found in state."@,
                ),
            ),
        ),
    }
}

/// All changes are made: provision Kubernetes, where that is wanted.
pub open spec fn apply_end(m: ApplyModel, log: Log) -> ApplyStep {
    if m.play {
        (
            Progress::Wait(ApplyModel { stage: ApplyStage::Playing, ..m }, Action::Play),
            log.push(
                Note::Say("\n── --play flag set: handing off to play ────────────────────────────────"@),
            ),
        )
    } else {
        (Progress::Done, log)
    }
}

// ---------------------------------------------------------------------------
// The transition
// ---------------------------------------------------------------------------

/// What the work does when it is told the outcome of its action.
pub open spec fn apply_next(m: ApplyModel, event: Event<Seq<char>>, log: Log) -> ApplyStep {
    match (m.stage, event) {
        (ApplyStage::AskAll, Event::Answer(yes)) => if yes {
            connect(m, log)
        } else {
            (Progress::Done, log.push(Note::Say("Aborted."@)))
        },
        (ApplyStage::Connecting, Event::Finished) => apply_go(m, log),
        (ApplyStage::Connecting, Event::Failed(e)) => (Progress::Failed(e), log),
        (ApplyStage::DestroyingDisk(i), Event::Finished) => (
            Progress::Wait(
                ApplyModel {
                    stage: ApplyStage::DiskDestroyed(i),
                    ..without_disk(m, m.doomed_disks[i as int])
                },
                Action::Save,
            ),
            log.push(Note::Say("Disk \""@ + m.doomed_disks[i as int] + "\" destroyed."@)),
        ),
        (ApplyStage::DestroyingDisk(i), Event::Failed(e)) => drop_disk(
            m,
            i + 1,
            log.push(
                Note::Warn("  ⚠ Failed to destroy disk "@ + m.doomed_disks[i as int] + ": "@ + e),
            ),
        ),
        (ApplyStage::DiskDestroyed(i), Event::Finished) => drop_disk(m, i + 1, log),
        (ApplyStage::DiskDestroyed(_), Event::Failed(e)) => (Progress::Failed(e), log),
        (ApplyStage::DestroyingVm(i), Event::Finished) => (
            Progress::Wait(
                ApplyModel { stage: ApplyStage::VmDestroyed(i), ..without_vm(m, m.doomed_vms[i as int]) },
                Action::Save,
            ),
            log.push(Note::Say("Instance \""@ + m.doomed_vms[i as int] + "\" destroyed."@)),
        ),
        (ApplyStage::DestroyingVm(i), Event::Failed(e)) => drop_vm(
            m,
            i + 1,
            log.push(
                Note::Warn("  ⚠ Failed to destroy instance "@ + m.doomed_vms[i as int] + ": "@ + e),
            ),
        ),
        (ApplyStage::VmDestroyed(i), Event::Finished) => drop_vm(m, i + 1, log),
        (ApplyStage::VmDestroyed(_), Event::Failed(e)) => (Progress::Failed(e), log),
        (ApplyStage::ReadingKey(r), e) => key_read(m, r as int, e, log),
        (ApplyStage::Creating(r, k), Event::Output(reply)) => vm_created(
            m,
            r as int,
            k as int,
            reply_id(reply),
            log,
        ),
        (ApplyStage::Creating(_, _), Event::Failed(e)) => (Progress::Failed(e), log),
        (ApplyStage::Created(r, k), Event::Finished) => create_from(
            ApplyModel { created: (m.created + 1) as usize, ..m },
            r as int,
            k + 1,
            log,
        ),
        (ApplyStage::Created(_, _), Event::Failed(e)) => (Progress::Failed(e), log),
        (ApplyStage::CreatingDisk(i), Event::Output(id)) => disk_created(m, i as int, id, log),
        (ApplyStage::CreatingDisk(_), Event::Failed(e)) => (Progress::Failed(e), log),
        (ApplyStage::DiskCreated(i), Event::Finished) => attach(
            ApplyModel { created_disks: (m.created_disks + 1) as usize, ..m },
            i as int,
            log,
        ),
        (ApplyStage::DiskCreated(_), Event::Failed(e)) => (Progress::Failed(e), log),
        (ApplyStage::Attaching(i), Event::Finished) => disk_from(
            m,
            i + 1,
            log.push(Note::Say("Successfully requested attach for \""@ + m.disks[i as int].name + "\"."@)),
        ),
        (ApplyStage::Attaching(i), Event::Failed(e)) => disk_from(
            m,
            i + 1,
            log.push(
                Note::Warn("  ⚠ Failed to attach disk \""@ + m.disks[i as int].name + "\": "@ + e),
            ),
        ),
        (ApplyStage::Playing, Event::Finished) => (Progress::Done, log),
        (ApplyStage::Playing, Event::Failed(e)) => (Progress::Failed(e), log),
        _ => (Progress::Failed(OUT_OF_STEP@), log),
    }
}

// ---------------------------------------------------------------------------
// Well-formedness
// ---------------------------------------------------------------------------

/// Where the work waits, it is well-formed.
pub open spec fn apply_step_wf(s: ApplyStep) -> bool {
    s.0 matches Progress::Wait(n, _) ==> apply_wf(n)
}

proof fn lemma_nodes_before(rules: Seq<ResolvedModel>, r: int)
    requires
        0 <= r < rules.len(),
    ensures
        nodes_before(rules, r + 1) == nodes_before(rules, r) + rules[r].nodes.len(),
        nodes_before(rules, r + 1) <= all_targets(rules).len(),
    decreases rules.len() - r,
{
    assert(rules.take(r + 1).drop_last() =~= rules.take(r));
    if r + 1 < rules.len() {
        lemma_nodes_before(rules, r + 1);
    } else {
        assert(rules.take(r + 1) =~= rules);
    }
}

proof fn lemma_disk_from_wf(m: ApplyModel, i: int, log: Log)
    requires
        sizes_ok(m),
        0 <= i <= m.disks.len(),
        m.created_disks <= i,
    ensures
        apply_step_wf(disk_from(m, i, log)),
    decreases m.disks.len() - i,
{
    if i < m.disks.len() && known(m.state.disks, m.disks[i].name) {
        lemma_disk_from_wf(m, i + 1, log);
    }
}

proof fn lemma_read_key_wf(m: ApplyModel, r: int, log: Log)
    requires
        sizes_ok(m),
        0 <= r <= m.rules.len(),
        m.created <= nodes_before(m.rules, r),
        m.created_disks == 0,
    ensures
        apply_step_wf(read_key(m, r, log)),
        apply_step_wf(create_disks(m, log)),
{
    assert forall|l: Log| apply_step_wf(#[trigger] create_disks(m, l)) by {
        let told = l.push(
            Note::Say("\n── Creating & Attaching Disks ───────────────────────────────────────────"@),
        );
        lemma_disk_from_wf(m, 0, told);
    }
}

proof fn lemma_create_from_wf(m: ApplyModel, r: int, k: int, log: Log)
    requires
        sizes_ok(m),
        0 <= r < m.rules.len(),
        0 <= k <= m.rules[r].nodes.len(),
        m.created <= nodes_before(m.rules, r) + k,
        m.created_disks == 0,
    ensures
        apply_step_wf(create_from(m, r, k, log)),
    decreases m.rules[r].nodes.len() - k,
{
    lemma_nodes_before(m.rules, r);
    if k >= m.rules[r].nodes.len() {
        lemma_read_key_wf(m, r + 1, log);
    } else if known(m.state.instances, m.rules[r].nodes[k]) {
        lemma_create_from_wf(m, r, k + 1, log);
    }
}

proof fn lemma_go_wf(m: ApplyModel, i: int, log: Log)
    requires
        sizes_ok(m),
        m.created == 0,
        m.created_disks == 0,
        0 <= i,
    ensures
        apply_step_wf(apply_go(m, log)),
        apply_step_wf(drop_disk(m, i, log)),
        apply_step_wf(drop_vm(m, i, log)),
{
    assert forall|l: Log| apply_step_wf(#[trigger] create_vms(m, l)) by {
        lemma_read_key_wf(
            m,
            0,
            l.push(
                Note::Say("\n── Creating Instances ───────────────────────────────────────────────────"@),
            ),
        );
        lemma_read_key_wf(m, 0, l);
    }
}

/// The work stays well-formed.
pub proof fn law_apply_stays_well_formed(m: ApplyModel, event: Event<Seq<char>>, log: Log)
    requires
        apply_wf(m),
    ensures
        apply_step_wf(apply_next(m, event, log)),
{
    match (m.stage, event) {
        (ApplyStage::Connecting, _) => lemma_go_wf(m, 0, log),
        (ApplyStage::DestroyingDisk(i), Event::Failed(e)) => lemma_go_wf(
            m,
            i + 1,
            log.push(
                Note::Warn("  ⚠ Failed to destroy disk "@ + m.doomed_disks[i as int] + ": "@ + e),
            ),
        ),
        (ApplyStage::DiskDestroyed(i), _) => lemma_go_wf(m, i + 1, log),
        (ApplyStage::DestroyingVm(i), Event::Failed(e)) => lemma_go_wf(
            m,
            i + 1,
            log.push(
                Note::Warn("  ⚠ Failed to destroy instance "@ + m.doomed_vms[i as int] + ": "@ + e),
            ),
        ),
        (ApplyStage::VmDestroyed(i), _) => lemma_go_wf(m, i + 1, log),
        (ApplyStage::ReadingKey(r), Event::Output(content)) => lemma_create_from_wf(
            ApplyModel { ssh_keys: m.rules[r as int].merged.user + ":"@ + trimmed(content), ..m },
            r as int,
            0,
            log,
        ),
        (ApplyStage::ReadingKey(r), Event::Failed(e)) => lemma_create_from_wf(
            ApplyModel { ssh_keys: ""@, ..m },
            r as int,
            0,
            log.push(
                Note::Warn(
                    "  ⚠ Could not read SSH public key: "@ + ("Cannot read SSH public key from '"@ + expanded(
                        m.rules[r as int].merged.ssh_public_key,
                        m.home,
                    ) + "': "@ + e),
                ),
            ),
        ),
        (ApplyStage::Created(r, k), _) => {
            lemma_nodes_before(m.rules, r as int);
            lemma_create_from_wf(
                ApplyModel { created: (m.created + 1) as usize, ..m },
                r as int,
                k + 1,
                log,
            );
        },
        (ApplyStage::DiskCreated(i), _) => {
            let n = ApplyModel { created_disks: (m.created_disks + 1) as usize, ..m };
            let d = m.disks[i as int];
            lemma_disk_from_wf(
                n,
                i + 1,
                log.push(
                    Note::Say(
                        "⚠ Cannot attach disk \""@ + d.name + "\": Target node \""@ + d.node
                            + "\" not found in state."@,
                    ),
                ),
            );
        },
        (ApplyStage::Attaching(i), Event::Finished) => lemma_disk_from_wf(
            m,
            i + 1,
            log.push(Note::Say("Successfully requested attach for \""@ + m.disks[i as int].name + "\"."@)),
        ),
        (ApplyStage::Attaching(i), Event::Failed(e)) => lemma_disk_from_wf(
            m,
            i + 1,
            log.push(
                Note::Warn("  ⚠ Failed to attach disk \""@ + m.disks[i as int].name + "\": "@ + e),
            ),
        ),
        _ => {},
    }
}

// ---------------------------------------------------------------------------
// Laws
// ---------------------------------------------------------------------------

/// How many nodes are left from node `k` of rule `r` on.
pub open spec fn nodes_left(m: ApplyModel, r: int, k: int) -> int {
    all_targets(m.rules).len() - nodes_before(m.rules, r) - k
}

/// How far the work is from its end.
pub open spec fn apply_rank(m: ApplyModel) -> (nat, nat) {
    match m.stage {
        ApplyStage::AskAll => (6, 0),
        ApplyStage::Connecting => (5, 0),
        ApplyStage::DestroyingDisk(i) => (4, (2 * (m.doomed_disks.len() - i) + 1) as nat),
        ApplyStage::DiskDestroyed(i) => (4, (2 * (m.doomed_disks.len() - i)) as nat),
        ApplyStage::DestroyingVm(i) => (3, (2 * (m.doomed_vms.len() - i) + 1) as nat),
        ApplyStage::VmDestroyed(i) => (3, (2 * (m.doomed_vms.len() - i)) as nat),
        ApplyStage::ReadingKey(r) => (
            2,
            (2 * nodes_left(m, r as int, 0) + 2 * (m.rules.len() - r)) as nat,
        ),
        ApplyStage::Creating(r, k) => (
            2,
            (2 * nodes_left(m, r as int, k as int) + 2 * (m.rules.len() - r) - 1) as nat,
        ),
        ApplyStage::Created(r, k) => (
            2,
            (2 * nodes_left(m, r as int, k as int) + 2 * (m.rules.len() - r) - 2) as nat,
        ),
        ApplyStage::CreatingDisk(i) => (1, (3 * (m.disks.len() - i) + 2) as nat),
        ApplyStage::DiskCreated(i) => (1, (3 * (m.disks.len() - i) + 1) as nat),
        ApplyStage::Attaching(i) => (1, (3 * (m.disks.len() - i)) as nat),
        ApplyStage::Playing => (0, 0),
    }
}

/// A step takes the work nearer to its end than `rank`, and asks nothing.
pub open spec fn goes_on(rank: (nat, nat), s: ApplyStep) -> bool {
    s.0 matches Progress::Wait(n, a) ==> below(apply_rank(n), rank) && a !is Confirm
}

proof fn lemma_disk_from_goes_on(m: ApplyModel, i: int, log: Log, rank: (nat, nat))
    requires
        sizes_ok(m),
        0 <= i <= m.disks.len(),
        rank.0 > 1 || rank.0 == 1 && rank.1 > 3 * (m.disks.len() - i) + 2,
    ensures
        goes_on(rank, disk_from(m, i, log)),
    decreases m.disks.len() - i,
{
    if i < m.disks.len() && known(m.state.disks, m.disks[i].name) {
        lemma_disk_from_goes_on(m, i + 1, log, rank);
    }
}

proof fn lemma_create_disks_goes_on(m: ApplyModel, log: Log, rank: (nat, nat))
    requires
        sizes_ok(m),
        rank.0 > 1,
    ensures
        goes_on(rank, create_disks(m, log)),
{
    lemma_disk_from_goes_on(
        m,
        0,
        log.push(
            Note::Say("\n── Creating & Attaching Disks ───────────────────────────────────────────"@),
        ),
        rank,
    );
}

proof fn lemma_read_key_goes_on(m: ApplyModel, r: int, log: Log, rank: (nat, nat))
    requires
        sizes_ok(m),
        0 <= r <= m.rules.len(),
        rank.0 > 2 || rank.0 == 2 && rank.1 > 2 * nodes_left(m, r, 0) + 2 * (m.rules.len() - r),
    ensures
        goes_on(rank, read_key(m, r, log)),
{
    if r < m.rules.len() {
        lemma_nodes_before(m.rules, r);
    } else {
        lemma_create_disks_goes_on(
            m,
            log.push(
                Note::Say(
                    "\n✓ "@ + decimal(m.created as nat) + " VM creation request(s) submitted successfully."@,
                ),
            ),
            rank,
        );
    }
}

proof fn lemma_create_from_goes_on(m: ApplyModel, r: int, k: int, log: Log, rank: (nat, nat))
    requires
        sizes_ok(m),
        0 <= r < m.rules.len(),
        0 <= k <= m.rules[r].nodes.len(),
        rank.0 == 2,
        rank.1 > 2 * nodes_left(m, r, k) + 2 * (m.rules.len() - r) - 1,
    ensures
        goes_on(rank, create_from(m, r, k, log)),
    decreases m.rules[r].nodes.len() - k,
{
    lemma_nodes_before(m.rules, r);
    if k >= m.rules[r].nodes.len() {
        lemma_read_key_goes_on(m, r + 1, log, rank);
    } else if known(m.state.instances, m.rules[r].nodes[k]) {
        lemma_create_from_goes_on(m, r, k + 1, log, rank);
    }
}

proof fn lemma_create_vms_goes_on(m: ApplyModel, log: Log, rank: (nat, nat))
    requires
        sizes_ok(m),
        rank.0 > 2,
    ensures
        goes_on(rank, create_vms(m, log)),
{
    lemma_create_disks_goes_on(m, log, rank);
    lemma_read_key_goes_on(
        m,
        0,
        log.push(
            Note::Say("\n── Creating Instances ───────────────────────────────────────────────────"@),
        ),
        rank,
    );
}

proof fn lemma_drop_vm_goes_on(m: ApplyModel, i: int, log: Log, rank: (nat, nat))
    requires
        sizes_ok(m),
        0 <= i,
        rank.0 > 3 || rank.0 == 3 && rank.1 > 2 * (m.doomed_vms.len() - i) + 1,
    ensures
        goes_on(rank, drop_vm(m, i, log)),
{
    lemma_create_vms_goes_on(m, log, rank);
}

proof fn lemma_drop_disk_goes_on(m: ApplyModel, i: int, log: Log, rank: (nat, nat))
    requires
        sizes_ok(m),
        0 <= i,
        rank.0 > 4 || rank.0 == 4 && rank.1 > 2 * (m.doomed_disks.len() - i) + 1,
    ensures
        goes_on(rank, drop_disk(m, i, log)),
        goes_on(rank, drop_vms(m, log)),
{
    lemma_create_vms_goes_on(m, log, rank);
    lemma_drop_vm_goes_on(
        m,
        0,
        log.push(
            Note::Say("\n── Destroying Instances ─────────────────────────────────────────────────"@),
        ),
        rank,
    );
}

/// The work comes to an end: every step takes it nearer. And nothing is asked
/// beyond the one question it may begin with.
pub proof fn law_apply_ends(m: ApplyModel, event: Event<Seq<char>>, log: Log)
    requires
        apply_wf(m),
    ensures
        apply_next(m, event, log).0 matches Progress::Wait(n, a) ==> below(apply_rank(n), apply_rank(m))
            && a !is Confirm,
{
    let rank = apply_rank(m);
    match (m.stage, event) {
        (ApplyStage::Connecting, _) => {
            lemma_drop_disk_goes_on(m, 0, log, rank);
            lemma_drop_disk_goes_on(
                m,
                0,
                log.push(
                    Note::Say("\n── Destroying Disks ─────────────────────────────────────────────────────"@),
                ),
                rank,
            );
        },
        (ApplyStage::DestroyingDisk(i), Event::Failed(e)) => lemma_drop_disk_goes_on(
            m,
            i + 1,
            log.push(
                Note::Warn("  ⚠ Failed to destroy disk "@ + m.doomed_disks[i as int] + ": "@ + e),
            ),
            rank,
        ),
        (ApplyStage::DiskDestroyed(i), _) => lemma_drop_disk_goes_on(m, i + 1, log, rank),
        (ApplyStage::DestroyingVm(i), Event::Failed(e)) => lemma_drop_vm_goes_on(
            m,
            i + 1,
            log.push(
                Note::Warn("  ⚠ Failed to destroy instance "@ + m.doomed_vms[i as int] + ": "@ + e),
            ),
            rank,
        ),
        (ApplyStage::VmDestroyed(i), _) => lemma_drop_vm_goes_on(m, i + 1, log, rank),
        (ApplyStage::ReadingKey(r), Event::Output(content)) => {
            lemma_nodes_before(m.rules, r as int);
            lemma_create_from_goes_on(
                ApplyModel { ssh_keys: m.rules[r as int].merged.user + ":"@ + trimmed(content), ..m },
                r as int,
                0,
                log,
                rank,
            );
        },
        (ApplyStage::ReadingKey(r), Event::Failed(e)) => {
            lemma_nodes_before(m.rules, r as int);
            lemma_create_from_goes_on(
                ApplyModel { ssh_keys: ""@, ..m },
                r as int,
                0,
                log.push(
                    Note::Warn(
                        "  ⚠ Could not read SSH public key: "@ + ("Cannot read SSH public key from '"@
                            + expanded(m.rules[r as int].merged.ssh_public_key, m.home) + "': "@ + e),
                    ),
                ),
                rank,
            );
        },
        (ApplyStage::Creating(r, _), _) => lemma_nodes_before(m.rules, r as int),
        (ApplyStage::Created(r, k), _) => {
            lemma_nodes_before(m.rules, r as int);
            lemma_create_from_goes_on(
                ApplyModel { created: (m.created + 1) as usize, ..m },
                r as int,
                k + 1,
                log,
                rank,
            );
        },
        (ApplyStage::DiskCreated(i), _) => {
            let d = m.disks[i as int];
            lemma_disk_from_goes_on(
                ApplyModel { created_disks: (m.created_disks + 1) as usize, ..m },
                i + 1,
                log.push(
                    Note::Say(
                        "⚠ Cannot attach disk \""@ + d.name + "\": Target node \""@ + d.node
                            + "\" not found in state."@,
                    ),
                ),
                rank,
            );
        },
        (ApplyStage::Attaching(i), Event::Finished) => lemma_disk_from_goes_on(
            m,
            i + 1,
            log.push(Note::Say("Successfully requested attach for \""@ + m.disks[i as int].name + "\"."@)),
            rank,
        ),
        (ApplyStage::Attaching(i), Event::Failed(e)) => lemma_disk_from_goes_on(
            m,
            i + 1,
            log.push(
                Note::Warn("  ⚠ Failed to attach disk \""@ + m.disks[i as int].name + "\": "@ + e),
            ),
            rank,
        ),
        _ => {},
    }
}

/// Without blanket approval, nothing is asked of the provider for a plan with
/// changes before the operator has agreed; once they decline, the work is over.
/// For a plan without changes the provider is asked for access and for nothing
/// else.
pub proof fn law_apply_needs_approval(
    loaded: LoadedModel,
    state: StateModel,
    home: Option<Seq<char>>,
    play: bool,
    m: ApplyModel,
    event: Event<Seq<char>>,
    log: Log,
)
    ensures
        apply_begin(loaded, state, home, play, false, log).0 matches Progress::Wait(n, a) ==> if has_changes(n) {
            a is Confirm
        } else {
            a is Connect
        },
        m.stage is AskAll && event != Event::<Seq<char>>::Answer(true) ==> !(apply_next(m, event, log).0 is Wait),
        m.stage is AskAll ==> apply_next(m, Event::Answer(false), log).0 == Progress::<ApplyModel, Seq<char>>::Done,
        m.stage is Connecting && !has_changes(m) ==> (apply_next(m, event, log).0 matches Progress::Wait(_, a)
            ==> a is Play),
{
}

/// The first thing that is asked of the provider is access, and only with
/// access is anything else asked.
pub proof fn law_access_comes_first(
    loaded: LoadedModel,
    state: StateModel,
    home: Option<Seq<char>>,
    play: bool,
    auto: bool,
    m: ApplyModel,
    event: Event<Seq<char>>,
    log: Log,
)
    ensures
        apply_begin(loaded, state, home, play, auto, log).0 matches Progress::Wait(_, a) ==> a is Confirm
            || a is Connect,
        m.stage is AskAll ==> (apply_next(m, event, log).0 matches Progress::Wait(n, a) ==> a is Connect
            && n.stage is Connecting),
        m.stage is Connecting && event != Event::<Seq<char>>::Finished ==> apply_next(m, event, log).0 is Failed,
{
}

/// All of `names` are known.
pub open spec fn all_known(names: Seq<Seq<char>>, entries: Entries) -> bool {
    forall|n: Seq<char>| #[trigger] names.contains(n) ==> known(entries, n)
}

/// None of `names` is known.
pub open spec fn none_known(names: Seq<Seq<char>>, entries: Entries) -> bool {
    forall|n: Seq<char>| #[trigger] names.contains(n) ==> !known(entries, n)
}

/// `names` and `others` have nothing in common.
pub open spec fn apart(names: Seq<Seq<char>>, others: Seq<Seq<char>>) -> bool {
    forall|n: Seq<char>| #[trigger] names.contains(n) ==> !others.contains(n)
}

/// Nothing is known but `names` and `others`.
pub open spec fn only_known(entries: Entries, names: Seq<Seq<char>>, others: Seq<Seq<char>>) -> bool {
    forall|n: Seq<char>| #[trigger] known(entries, n) ==> names.contains(n) || others.contains(n)
}

/// The first `k` nodes of rule `r` and all nodes of the rules before it are
/// known.
pub open spec fn known_up_to(m: ApplyModel, r: int, k: int) -> bool {
    all_known(vm_names(m.rules.take(r)), m.state.instances) && forall|j: int|
        0 <= j < k ==> known(m.state.instances, #[trigger] m.rules[r].nodes[j])
}

/// The first `i` disks are known, and all nodes.
pub open spec fn disks_up_to(m: ApplyModel, i: int) -> bool {
    all_known(vm_names(m.rules), m.state.instances) && forall|j: int|
        0 <= j < i ==> known(m.state.disks, (#[trigger] m.disks[j]).name)
}

/// What is to be deleted is not wanted, only that and what is wanted is
/// known, and what was gone over is known.
pub open spec fn on_course(m: ApplyModel) -> bool {
    &&& apart(m.doomed_vms, vm_names(m.rules))
    &&& apart(m.doomed_disks, disk_names(m.disks))
    &&& only_known(m.state.instances, vm_names(m.rules), m.doomed_vms)
    &&& only_known(m.state.disks, disk_names(m.disks), m.doomed_disks)
    &&& m.vms_wanted == 0 ==> all_known(vm_names(m.rules), m.state.instances)
    &&& m.disks_wanted == 0 ==> all_known(disk_names(m.disks), m.state.disks)
    &&& match m.stage {
        ApplyStage::ReadingKey(r) => known_up_to(m, r as int, 0),
        ApplyStage::Creating(r, k) => known_up_to(m, r as int, k as int),
        ApplyStage::Created(r, k) => known_up_to(m, r as int, k + 1),
        ApplyStage::CreatingDisk(i) => disks_up_to(m, i as int),
        ApplyStage::DiskCreated(i) => disks_up_to(m, i + 1),
        ApplyStage::Attaching(i) => disks_up_to(m, i + 1),
        ApplyStage::Playing => arrived(m),
        _ => true,
    }
}

/// Everything that is wanted is known.
pub open spec fn arrived(m: ApplyModel) -> bool {
    all_known(vm_names(m.rules), m.state.instances) && all_known(disk_names(m.disks), m.state.disks)
}

/// What was to be deleted and was gone over is forgotten.
pub open spec fn cleared(m: ApplyModel) -> bool {
    match m.stage {
        ApplyStage::AskAll => true,
        ApplyStage::Connecting => true,
        ApplyStage::DestroyingDisk(i) => none_known(m.doomed_disks.take(i as int), m.state.disks),
        ApplyStage::DiskDestroyed(i) => none_known(m.doomed_disks.take(i + 1), m.state.disks),
        ApplyStage::DestroyingVm(i) => none_known(m.doomed_disks, m.state.disks) && none_known(
            m.doomed_vms.take(i as int),
            m.state.instances,
        ),
        ApplyStage::VmDestroyed(i) => none_known(m.doomed_disks, m.state.disks) && none_known(
            m.doomed_vms.take(i + 1),
            m.state.instances,
        ),
        _ => none_known(m.doomed_disks, m.state.disks) && none_known(m.doomed_vms, m.state.instances),
    }
}

/// A step is on course: where it waits, it is on course for the same things,
/// and where it ends, everything that is wanted is known.
pub open spec fn course_step(m: ApplyModel, s: ApplyStep) -> bool {
    match s.0 {
        Progress::Wait(n, _) => on_course(n) && n.rules == m.rules && n.disks == m.disks,
        Progress::Done => arrived(m),
        Progress::Failed(_) => true,
    }
}

pub open spec fn cleared_step(m: ApplyModel, s: ApplyStep) -> bool {
    match s.0 {
        Progress::Wait(n, _) => cleared(n),
        Progress::Done => none_known(m.doomed_disks, m.state.disks) && none_known(
            m.doomed_vms,
            m.state.instances,
        ),
        Progress::Failed(_) => true,
    }
}

proof fn lemma_known_stored(entries: Entries, name: Seq<char>, id: Seq<char>)
    ensures
        forall|n: Seq<char>| #[trigger]
            known(stored(entries, name, id), n) <==> n == name || known(entries, n),
{
    assert forall|n: Seq<char>| #[trigger]
        known(stored(entries, name, id), n) <==> n == name || known(entries, n) by {
        law_stored(entries, name, id, n);
    }
}

proof fn lemma_known_without(entries: Entries, name: Seq<char>)
    ensures
        forall|n: Seq<char>| #[trigger]
            known(without(entries, name), n) <==> n != name && known(entries, n),
{
    assert forall|n: Seq<char>| #[trigger]
        known(without(entries, name), n) <==> n != name && known(entries, n) by {
        law_without(entries, name, n);
    }
}

/// The names up to rule `r + 1` are those up to rule `r` and its nodes.
proof fn lemma_names_grow(rules: Seq<ResolvedModel>, r: int)
    requires
        0 <= r < rules.len(),
    ensures
        forall|n: Seq<char>| #[trigger]
            vm_names(rules.take(r + 1)).contains(n) <==> vm_names(rules.take(r)).contains(n)
                || rules[r].nodes.contains(n),
{
    assert(rules.take(r + 1).drop_last() =~= rules.take(r));
    let before = all_targets(rules.take(r));
    let more = rule_targets(rules[r]);
    assert(all_targets(rules.take(r + 1)) == before + more);
    assert forall|n: Seq<char>| #[trigger]
        vm_names(rules.take(r + 1)).contains(n) <==> vm_names(rules.take(r)).contains(n)
            || rules[r].nodes.contains(n) by {
        let all = vm_names(rules.take(r + 1));
        if all.contains(n) {
            let i = choose|i: int| 0 <= i < all.len() && all[i] == n;
            if i < before.len() {
                assert(vm_names(rules.take(r))[i] == n);
            } else {
                assert(rules[r].nodes[i - before.len()] == n);
            }
        }
        if vm_names(rules.take(r)).contains(n) {
            let i = choose|i: int| 0 <= i < before.len() && vm_names(rules.take(r))[i] == n;
            assert(all[i] == n);
        }
        if rules[r].nodes.contains(n) {
            let i = choose|i: int| 0 <= i < rules[r].nodes.len() && rules[r].nodes[i] == n;
            assert(all[before.len() + i] == n);
        }
    }
}

/// A node of a rule is one of the names that are wanted.
proof fn lemma_node_wanted(rules: Seq<ResolvedModel>, r: int, k: int)
    requires
        0 <= r < rules.len(),
        0 <= k < rules[r].nodes.len(),
    ensures
        vm_names(rules).contains(rules[r].nodes[k]),
{
    lemma_names_grow(rules, r);
    assert(rules[r].nodes.contains(rules[r].nodes[k]));
    lemma_name_stays(rules, r + 1, rules[r].nodes[k]);
}

proof fn lemma_name_stays(rules: Seq<ResolvedModel>, n: int, name: Seq<char>)
    requires
        0 <= n <= rules.len(),
        vm_names(rules.take(n)).contains(name),
    ensures
        vm_names(rules).contains(name),
    decreases rules.len() - n,
{
    if n < rules.len() {
        lemma_names_grow(rules, n);
        lemma_name_stays(rules, n + 1, name);
    } else {
        assert(rules.take(n) =~= rules);
    }
}

proof fn lemma_disk_wanted(disks: Seq<DiskModel>, i: int)
    requires
        0 <= i < disks.len(),
    ensures
        disk_names(disks).contains(disks[i].name),
{
    assert(disk_names(disks)[i] == disks[i].name);
}

proof fn lemma_nothing_missing(names: Seq<Seq<char>>, entries: Entries)
    requires
        missing(names, entries) == 0,
    ensures
        all_known(names, entries),
    decreases names.len(),
{
    if names.len() > 0 {
        lemma_nothing_missing(names.drop_last(), entries);
        assert forall|n: Seq<char>| #[trigger] names.contains(n) implies known(entries, n) by {
            let i = choose|i: int| 0 <= i < names.len() && names[i] == n;
            if i < names.len() - 1 {
                assert(names.drop_last()[i] == n);
                assert(names.drop_last().contains(n));
            }
        }
    }
}

proof fn lemma_all_known(names: Seq<Seq<char>>, entries: Entries)
    requires
        all_known(names, entries),
    ensures
        missing(names, entries) == 0,
    decreases names.len(),
{
    if names.len() > 0 {
        assert(names[names.len() - 1] == names.last());
        assert(names.contains(names.last()));
        assert forall|n: Seq<char>| #[trigger] names.drop_last().contains(n) implies known(entries, n) by {
            let i = choose|i: int| 0 <= i < names.len() - 1 && names.drop_last()[i] == n;
            assert(names[i] == n);
            assert(names.contains(n));
        }
        lemma_all_known(names.drop_last(), entries);
    }
}

proof fn lemma_take_grows(names: Seq<Seq<char>>, i: int)
    requires
        0 <= i < names.len(),
    ensures
        forall|n: Seq<char>| #[trigger]
            names.take(i + 1).contains(n) <==> names.take(i).contains(n) || n == names[i],
        names.contains(names[i]),
{
    let more = names.take(i + 1);
    let less = names.take(i);
    assert forall|n: Seq<char>| #[trigger] more.contains(n) <==> less.contains(n) || n == names[i] by {
        if more.contains(n) {
            let j = choose|j: int| 0 <= j < more.len() && more[j] == n;
            if j < i {
                assert(less[j] == n);
            }
        }
        if less.contains(n) {
            let j = choose|j: int| 0 <= j < less.len() && less[j] == n;
            assert(more[j] == n);
        }
        assert(more[i] == names[i]);
    }
}

/// The parts of being on course that do not depend on the stage.
pub open spec fn base_course(m: ApplyModel) -> bool {
    on_course(ApplyModel { stage: ApplyStage::AskAll, ..m })
}

proof fn lemma_disk_from_course(m: ApplyModel, i: int, log: Log)
    requires
        base_course(m),
        0 <= i <= m.disks.len() <= usize::MAX,
        disks_up_to(m, i),
    ensures
        course_step(m, disk_from(m, i, log)),
    decreases m.disks.len() - i,
{
    if i >= m.disks.len() {
        assert forall|n: Seq<char>| #[trigger] disk_names(m.disks).contains(n) implies known(m.state.disks, n) by {
            let j = choose|j: int| 0 <= j < m.disks.len() && disk_names(m.disks)[j] == n;
            assert(m.disks[j].name == n);
        }
    } else if known(m.state.disks, m.disks[i].name) {
        lemma_disk_from_course(m, i + 1, log);
    }
}

proof fn lemma_create_disks_course(m: ApplyModel, log: Log)
    requires
        base_course(m),
        m.disks.len() <= usize::MAX,
        all_known(vm_names(m.rules), m.state.instances),
    ensures
        course_step(m, create_disks(m, log)),
{
    lemma_disk_from_course(
        m,
        0,
        log.push(
            Note::Say("\n── Creating & Attaching Disks ───────────────────────────────────────────"@),
        ),
    );
}

proof fn lemma_read_key_course(m: ApplyModel, r: int, log: Log)
    requires
        base_course(m),
        sizes_ok(m),
        0 <= r <= m.rules.len(),
        all_known(vm_names(m.rules.take(r)), m.state.instances),
    ensures
        course_step(m, read_key(m, r, log)),
{
    if r >= m.rules.len() {
        assert(m.rules.take(r) =~= m.rules);
        lemma_create_disks_course(
            m,
            log.push(
                Note::Say(
                    "\n✓ "@ + decimal(m.created as nat) + " VM creation request(s) submitted successfully."@,
                ),
            ),
        );
    }
}

proof fn lemma_create_from_course(m: ApplyModel, r: int, k: int, log: Log)
    requires
        base_course(m),
        sizes_ok(m),
        0 <= r < m.rules.len(),
        0 <= k <= m.rules[r].nodes.len(),
        known_up_to(m, r, k),
    ensures
        course_step(m, create_from(m, r, k, log)),
    decreases m.rules[r].nodes.len() - k,
{
    lemma_nodes_before(m.rules, r);
    if k >= m.rules[r].nodes.len() {
        lemma_names_grow(m.rules, r);
        assert(all_known(vm_names(m.rules.take(r + 1)), m.state.instances)) by {
            assert forall|n: Seq<char>| #[trigger] vm_names(m.rules.take(r + 1)).contains(n) implies known(
                m.state.instances,
                n,
            ) by {
                if m.rules[r].nodes.contains(n) {
                    let j = choose|j: int| 0 <= j < m.rules[r].nodes.len() && m.rules[r].nodes[j] == n;
                    assert(known(m.state.instances, m.rules[r].nodes[j]));
                }
            }
        }
        lemma_read_key_course(m, r + 1, log);
    } else if known(m.state.instances, m.rules[r].nodes[k]) {
        lemma_create_from_course(m, r, k + 1, log);
    }
}

proof fn lemma_go_course(m: ApplyModel, i: int, log: Log)
    requires
        base_course(m),
        sizes_ok(m),
        0 <= i,
    ensures
        course_step(m, apply_go(m, log)),
        course_step(m, drop_disk(m, i, log)),
        course_step(m, drop_vm(m, i, log)),
{
    assert(m.rules.take(0) =~= Seq::<ResolvedModel>::empty());
    assert(vm_names(m.rules.take(0)) =~= Seq::<Seq<char>>::empty());
    assert forall|l: Log| course_step(m, #[trigger] create_vms(m, l)) by {
        if m.vms_wanted > 0 {
            lemma_read_key_course(
                m,
                0,
                l.push(
                    Note::Say("\n── Creating Instances ───────────────────────────────────────────────────"@),
                ),
            );
        } else {
            lemma_create_disks_course(m, l);
        }
    }
}

/// The plan for a state is on course from the start.
pub proof fn law_plan_is_on_course(
    rules: Seq<ResolvedModel>,
    disks: Seq<DiskModel>,
    state: StateModel,
    is_gcp: bool,
    home: Option<Seq<char>>,
    play: bool,
)
    requires
        all_targets(rules).len() <= usize::MAX,
        disks.len() <= usize::MAX,
    ensures
        on_course(apply_plan(rules, disks, state, is_gcp, home, play)),
        cleared(apply_plan(rules, disks, state, is_gcp, home, play)),
{
    law_unwanted(state.instances, vm_names(rules));
    law_unwanted(state.disks, disk_names(disks));
    lemma_missing_bound(vm_names(rules), state.instances);
    lemma_missing_bound(disk_names(disks), state.disks);
    if missing(vm_names(rules), state.instances) == 0 {
        lemma_nothing_missing(vm_names(rules), state.instances);
    }
    if missing(disk_names(disks), state.disks) == 0 {
        lemma_nothing_missing(disk_names(disks), state.disks);
    }
}

proof fn lemma_missing_bound(names: Seq<Seq<char>>, entries: Entries)
    ensures
        missing(names, entries) <= names.len(),
    decreases names.len(),
{
    if names.len() > 0 {
        lemma_missing_bound(names.drop_last(), entries);
    }
}

/// The work stays on course, whatever comes of its actions: where it ends
/// without having been declined and without a failure, every node and every
/// disk that the configuration asks for is known.
pub proof fn law_apply_stays_on_course(m: ApplyModel, event: Event<Seq<char>>, log: Log)
    requires
        apply_wf(m),
        on_course(m),
        m.stage == ApplyStage::AskAll ==> event != Event::<Seq<char>>::Answer(false),
    ensures
        course_step(m, apply_next(m, event, log)),
{
    match (m.stage, event) {
        (ApplyStage::Connecting, _) => lemma_go_course(m, 0, log),
        (ApplyStage::DestroyingDisk(i), Event::Finished) => {
            lemma_known_without(m.state.disks, m.doomed_disks[i as int]);
            assert(m.doomed_disks.contains(m.doomed_disks[i as int]));
        },
        (ApplyStage::DestroyingDisk(i), Event::Failed(e)) => lemma_go_course(
            m,
            i + 1,
            log.push(
                Note::Warn("  ⚠ Failed to destroy disk "@ + m.doomed_disks[i as int] + ": "@ + e),
            ),
        ),
        (ApplyStage::DiskDestroyed(i), _) => lemma_go_course(m, i + 1, log),
        (ApplyStage::DestroyingVm(i), Event::Finished) => {
            lemma_known_without(m.state.instances, m.doomed_vms[i as int]);
            assert(m.doomed_vms.contains(m.doomed_vms[i as int]));
        },
        (ApplyStage::DestroyingVm(i), Event::Failed(e)) => lemma_go_course(
            m,
            i + 1,
            log.push(
                Note::Warn("  ⚠ Failed to destroy instance "@ + m.doomed_vms[i as int] + ": "@ + e),
            ),
        ),
        (ApplyStage::VmDestroyed(i), _) => lemma_go_course(m, i + 1, log),
        (ApplyStage::ReadingKey(r), Event::Output(content)) => lemma_create_from_course(
            ApplyModel { ssh_keys: m.rules[r as int].merged.user + ":"@ + trimmed(content), ..m },
            r as int,
            0,
            log,
        ),
        (ApplyStage::ReadingKey(r), Event::Failed(e)) => lemma_create_from_course(
            ApplyModel { ssh_keys: ""@, ..m },
            r as int,
            0,
            log.push(
                Note::Warn(
                    "  ⚠ Could not read SSH public key: "@ + ("Cannot read SSH public key from '"@ + expanded(
                        m.rules[r as int].merged.ssh_public_key,
                        m.home,
                    ) + "': "@ + e),
                ),
            ),
        ),
        (ApplyStage::Creating(r, k), Event::Output(reply)) => {
            lemma_known_stored(m.state.instances, m.rules[r as int].nodes[k as int], reply_id(reply));
            lemma_node_wanted(m.rules, r as int, k as int);
        },
        (ApplyStage::Created(r, k), _) => lemma_create_from_course(
            ApplyModel { created: (m.created + 1) as usize, ..m },
            r as int,
            k + 1,
            log,
        ),
        (ApplyStage::CreatingDisk(i), Event::Output(id)) => {
            lemma_known_stored(m.state.disks, m.disks[i as int].name, id);
            lemma_disk_wanted(m.disks, i as int);
        },
        (ApplyStage::DiskCreated(i), _) => {
            let n = ApplyModel { created_disks: (m.created_disks + 1) as usize, ..m };
            let d = m.disks[i as int];
            lemma_disk_from_course(
                n,
                i + 1,
                log.push(
                    Note::Say(
                        "⚠ Cannot attach disk \""@ + d.name + "\": Target node \""@ + d.node
                            + "\" not found in state."@,
                    ),
                ),
            );
        },
        (ApplyStage::Attaching(i), Event::Finished) => lemma_disk_from_course(
            m,
            i + 1,
            log.push(Note::Say("Successfully requested attach for \""@ + m.disks[i as int].name + "\"."@)),
        ),
        (ApplyStage::Attaching(i), Event::Failed(e)) => lemma_disk_from_course(
            m,
            i + 1,
            log.push(
                Note::Warn("  ⚠ Failed to attach disk \""@ + m.disks[i as int].name + "\": "@ + e),
            ),
        ),
        _ => {},
    }
}

/// Where a state knows exactly what the configuration asks for, there is
/// nothing to do: a second run changes nothing.
pub proof fn law_second_run_changes_nothing(
    rules: Seq<ResolvedModel>,
    disks: Seq<DiskModel>,
    state: StateModel,
    is_gcp: bool,
    home: Option<Seq<char>>,
    play: bool,
)
    requires
        all_known(vm_names(rules), state.instances),
        all_known(disk_names(disks), state.disks),
        only_known(state.instances, vm_names(rules), Seq::empty()),
        only_known(state.disks, disk_names(disks), Seq::empty()),
    ensures
        !has_changes(apply_plan(rules, disks, state, is_gcp, home, play)),
{
    lemma_all_known(vm_names(rules), state.instances);
    lemma_all_known(disk_names(disks), state.disks);
    law_unwanted(state.instances, vm_names(rules));
    law_unwanted(state.disks, disk_names(disks));
    let a = unwanted(state.instances, vm_names(rules));
    let b = unwanted(state.disks, disk_names(disks));
    if a.len() > 0 {
        assert(a.contains(a[0]));
        assert(known(state.instances, a[0]));
    }
    if b.len() > 0 {
        assert(b.contains(b[0]));
        assert(known(state.disks, b[0]));
    }
}

/// Nothing of what was to be deleted is known.
pub open spec fn doomed_gone(m: ApplyModel) -> bool {
    none_known(m.doomed_disks, m.state.disks) && none_known(m.doomed_vms, m.state.instances)
}

proof fn lemma_disk_from_clears(m: ApplyModel, i: int, log: Log)
    requires
        doomed_gone(m),
        0 <= i,
    ensures
        cleared_step(m, disk_from(m, i, log)),
    decreases m.disks.len() - i,
{
    if i < m.disks.len() && known(m.state.disks, m.disks[i].name) {
        lemma_disk_from_clears(m, i + 1, log);
    }
}

proof fn lemma_read_key_clears(m: ApplyModel, r: int, log: Log)
    requires
        doomed_gone(m),
    ensures
        cleared_step(m, read_key(m, r, log)),
        cleared_step(m, create_vms(m, log)),
{
    assert forall|l: Log| cleared_step(m, #[trigger] create_disks(m, l)) by {
        lemma_disk_from_clears(
            m,
            0,
            l.push(
                Note::Say("\n── Creating & Attaching Disks ───────────────────────────────────────────"@),
            ),
        );
    }
}

proof fn lemma_create_from_clears(m: ApplyModel, r: int, k: int, log: Log)
    requires
        doomed_gone(m),
        0 <= k,
    ensures
        cleared_step(m, create_from(m, r, k, log)),
    decreases m.rules[r].nodes.len() - k,
{
    if k >= m.rules[r].nodes.len() {
        lemma_read_key_clears(m, r + 1, log);
    } else if known(m.state.instances, m.rules[r].nodes[k]) {
        lemma_create_from_clears(m, r, k + 1, log);
    }
}

proof fn lemma_drop_vm_clears(m: ApplyModel, i: int, log: Log)
    requires
        sizes_ok(m),
        0 <= i <= m.doomed_vms.len(),
        none_known(m.doomed_disks, m.state.disks),
        none_known(m.doomed_vms.take(i), m.state.instances),
    ensures
        cleared_step(m, drop_vm(m, i, log)),
{
    if i >= m.doomed_vms.len() {
        assert(m.doomed_vms.take(i) =~= m.doomed_vms);
        lemma_read_key_clears(m, 0, log);
    }
}

proof fn lemma_drop_vms_clears(m: ApplyModel, log: Log)
    requires
        sizes_ok(m),
        none_known(m.doomed_disks, m.state.disks),
    ensures
        cleared_step(m, drop_vms(m, log)),
{
    assert(m.doomed_vms.take(0) =~= Seq::<Seq<char>>::empty());
    lemma_drop_vm_clears(
        m,
        0,
        log.push(
            Note::Say("\n── Destroying Instances ─────────────────────────────────────────────────"@),
        ),
    );
    if m.doomed_vms.len() == 0 {
        assert(m.doomed_vms =~= Seq::<Seq<char>>::empty());
        lemma_read_key_clears(m, 0, log);
    }
}

proof fn lemma_drop_disk_clears(m: ApplyModel, i: int, log: Log)
    requires
        sizes_ok(m),
        0 <= i <= m.doomed_disks.len(),
        none_known(m.doomed_disks.take(i), m.state.disks),
    ensures
        cleared_step(m, drop_disk(m, i, log)),
{
    if i >= m.doomed_disks.len() {
        assert(m.doomed_disks.take(i) =~= m.doomed_disks);
        lemma_drop_vms_clears(m, log);
    }
}

/// As long as every deletion succeeds, what the configuration no longer asks
/// for is forgotten. Together with staying on course: in the end exactly what
/// it asks for is known.
pub proof fn law_apply_clears(m: ApplyModel, event: Event<Seq<char>>, log: Log)
    requires
        apply_wf(m),
        on_course(m),
        cleared(m),
        m.stage == ApplyStage::AskAll ==> event != Event::<Seq<char>>::Answer(false),
        m.stage is DestroyingDisk || m.stage is DestroyingVm ==> !(event is Failed),
    ensures
        cleared_step(m, apply_next(m, event, log)),
{
    match (m.stage, event) {
        (ApplyStage::Connecting, _) => {
            assert(m.doomed_disks.take(0) =~= Seq::<Seq<char>>::empty());
            lemma_drop_disk_clears(
                m,
                0,
                log.push(
                    Note::Say("\n── Destroying Disks ─────────────────────────────────────────────────────"@),
                ),
            );
            if m.doomed_disks.len() == 0 {
                assert(m.doomed_disks =~= Seq::<Seq<char>>::empty());
                lemma_drop_vms_clears(m, log);
            }
        },
        (ApplyStage::DestroyingDisk(i), _) => {
            lemma_known_without(m.state.disks, m.doomed_disks[i as int]);
            lemma_take_grows(m.doomed_disks, i as int);
        },
        (ApplyStage::DiskDestroyed(i), _) => lemma_drop_disk_clears(m, i + 1, log),
        (ApplyStage::DestroyingVm(i), _) => {
            lemma_known_without(m.state.instances, m.doomed_vms[i as int]);
            lemma_take_grows(m.doomed_vms, i as int);
        },
        (ApplyStage::VmDestroyed(i), _) => lemma_drop_vm_clears(m, i + 1, log),
        (ApplyStage::ReadingKey(r), Event::Output(content)) => lemma_create_from_clears(
            ApplyModel { ssh_keys: m.rules[r as int].merged.user + ":"@ + trimmed(content), ..m },
            r as int,
            0,
            log,
        ),
        (ApplyStage::ReadingKey(r), Event::Failed(e)) => lemma_create_from_clears(
            ApplyModel { ssh_keys: ""@, ..m },
            r as int,
            0,
            log.push(
                Note::Warn(
                    "  ⚠ Could not read SSH public key: "@ + ("Cannot read SSH public key from '"@ + expanded(
                        m.rules[r as int].merged.ssh_public_key,
                        m.home,
                    ) + "': "@ + e),
                ),
            ),
        ),
        (ApplyStage::Creating(r, k), Event::Output(reply)) => {
            lemma_known_stored(m.state.instances, m.rules[r as int].nodes[k as int], reply_id(reply));
            lemma_node_wanted(m.rules, r as int, k as int);
        },
        (ApplyStage::Created(r, k), _) => lemma_create_from_clears(
            ApplyModel { created: (m.created + 1) as usize, ..m },
            r as int,
            k + 1,
            log,
        ),
        (ApplyStage::CreatingDisk(i), Event::Output(id)) => {
            lemma_known_stored(m.state.disks, m.disks[i as int].name, id);
            lemma_disk_wanted(m.disks, i as int);
        },
        (ApplyStage::DiskCreated(i), _) => {
            let n = ApplyModel { created_disks: (m.created_disks + 1) as usize, ..m };
            let d = m.disks[i as int];
            lemma_disk_from_clears(
                n,
                i + 1,
                log.push(
                    Note::Say(
                        "⚠ Cannot attach disk \""@ + d.name + "\": Target node \""@ + d.node
                            + "\" not found in state."@,
                    ),
                ),
            );
        },
        (ApplyStage::Attaching(i), Event::Finished) => lemma_disk_from_clears(
            m,
            i + 1,
            log.push(Note::Say("Successfully requested attach for \""@ + m.disks[i as int].name + "\"."@)),
        ),
        (ApplyStage::Attaching(i), Event::Failed(e)) => lemma_disk_from_clears(
            m,
            i + 1,
            log.push(
                Note::Warn("  ⚠ Failed to attach disk \""@ + m.disks[i as int].name + "\": "@ + e),
            ),
        ),
        _ => {},
    }
}

/// Where everything that is wanted is known and nothing of what was to be
/// deleted is, exactly what is wanted is known.
pub proof fn law_converged(m: ApplyModel, name: Seq<char>)
    requires
        on_course(m),
        arrived(m),
        doomed_gone(m),
    ensures
        known(m.state.instances, name) <==> vm_names(m.rules).contains(name),
        known(m.state.disks, name) <==> disk_names(m.disks).contains(name),
{
}

/// Whether every one of the outcomes `events`, told one after the other, is
/// neither a refusal of the plan nor a failed deletion.
pub open spec fn smooth(m: ApplyModel, events: Seq<Event<Seq<char>>>, log: Log) -> bool
    decreases events.len(),
{
    events.len() > 0 ==> {
        &&& m.stage == ApplyStage::AskAll ==> events[0] != Event::<Seq<char>>::Answer(false)
        &&& m.stage is DestroyingDisk || m.stage is DestroyingVm ==> !(events[0] is Failed)
        &&& match apply_next(m, events[0], log) {
            (Progress::Wait(n, _), told) => smooth(n, events.skip(1), told),
            _ => true,
        }
    }
}

/// The work as it stood when the last of the outcomes `events` ended it.
pub open spec fn ended(m: ApplyModel, events: Seq<Event<Seq<char>>>, log: Log) -> Option<ApplyModel>
    decreases events.len(),
{
    if events.len() == 0 {
        None
    } else {
        match apply_next(m, events[0], log) {
            (Progress::Wait(n, _), told) => ended(n, events.skip(1), told),
            (Progress::Done, _) => Some(m),
            _ => None,
        }
    }
}

/// A run that ends, and in which neither the plan was refused nor a deletion
/// failed, leaves exactly the nodes and disks that the configuration asks for.
pub proof fn law_run_converges(m: ApplyModel, events: Seq<Event<Seq<char>>>, log: Log, name: Seq<char>)
    requires
        apply_wf(m),
        on_course(m),
        cleared(m),
        smooth(m, events, log),
        ended(m, events, log) is Some,
    ensures
        known(ended(m, events, log)->0.state.instances, name) <==> vm_names(m.rules).contains(name),
        known(ended(m, events, log)->0.state.disks, name) <==> disk_names(m.disks).contains(name),
    decreases events.len(),
{
    let event = events[0];
    law_apply_stays_well_formed(m, event, log);
    law_apply_stays_on_course(m, event, log);
    law_apply_clears(m, event, log);
    match apply_next(m, event, log) {
        (Progress::Wait(n, _), told) => law_run_converges(n, events.skip(1), told, name),
        _ => law_converged(m, name),
    }
}

// ---------------------------------------------------------------------------
// What is asked for
// ---------------------------------------------------------------------------

/// Whether an action is about what the stage is at, in every detail.
///
/// An instance that is created is a node of its rule that is not known yet. It
/// gets its machine type, its image, the size of its disk, its script and its
/// kind of address from that rule, and the key that was read. A disk that is
/// created is not known yet and has the size that the configuration asks for;
/// it is attached to the instance of the node that the configuration names.
/// What is deleted is what is no longer wanted.
pub open spec fn asks_rightly(n: ApplyModel, a: Action<Seq<char>>) -> bool {
    match (n.stage, a) {
        (ApplyStage::AskAll, Action::Confirm(question)) => question == "\nProceed with these changes?"@,
        (ApplyStage::Connecting, Action::Connect) => true,
        (ApplyStage::DestroyingDisk(i), Action::DestroyDisk(id)) => {
            &&& i < n.doomed_disks.len()
            &&& id == (match lookup(n.state.disks, n.doomed_disks[i as int]) {
                Some(known_id) => known_id,
                None => n.doomed_disks[i as int],
            })
        },
        (ApplyStage::DestroyingVm(i), Action::DestroyVm(target)) => {
            &&& i < n.doomed_vms.len()
            &&& target == (match lookup(n.state.instances, n.doomed_vms[i as int]) {
                Some(known_id) => if n.is_gcp {
                    n.doomed_vms[i as int]
                } else {
                    known_id
                },
                None => n.doomed_vms[i as int],
            })
        },
        (ApplyStage::DiskDestroyed(_), Action::Save) => true,
        (ApplyStage::VmDestroyed(_), Action::Save) => true,
        (ApplyStage::Created(_, _), Action::Save) => true,
        (ApplyStage::DiskCreated(_), Action::Save) => true,
        (ApplyStage::ReadingKey(r), Action::ReadFile(path)) => {
            &&& r < n.rules.len()
            &&& path == expanded(n.rules[r as int].merged.ssh_public_key, n.home)
        },
        (ApplyStage::Creating(r, k), Action::CreateVm(vm)) => {
            &&& r < n.rules.len()
            &&& k < n.rules[r as int].nodes.len()
            &&& lookup(n.state.instances, vm.name) is None
            &&& vm.name == n.rules[r as int].nodes[k as int]
            &&& vm.machine_type == n.rules[r as int].merged.machine_type
            &&& vm.boot_disk_image == n.rules[r as int].merged.boot_disk_image
            &&& vm.boot_disk_size_gb == n.rules[r as int].merged.boot_disk_size
            &&& vm.startup_script == n.rules[r as int].merged.script
            &&& vm.public_ip <==> n.rules[r as int].merged.ip_address == IpAddressType::Public
            &&& vm.ssh_keys == n.ssh_keys
        },
        (ApplyStage::CreatingDisk(i), Action::CreateDisk { name, size_gb }) => {
            &&& i < n.disks.len()
            &&& lookup(n.state.disks, name) is None
            &&& name == n.disks[i as int].name
            &&& size_gb == n.disks[i as int].size
        },
        (ApplyStage::Attaching(i), Action::AttachDisk { disk, instance }) => {
            &&& i < n.disks.len()
            &&& lookup(n.state.instances, n.disks[i as int].node) == Some(instance)
            &&& disk == (match lookup(n.state.disks, n.disks[i as int].name) {
                Some(id) => id,
                None => n.disks[i as int].name,
            })
        },
        (ApplyStage::Playing, Action::Play) => n.play,
        _ => false,
    }
}

/// What the work is about is the same.
pub open spec fn same_plan(m: ApplyModel, n: ApplyModel) -> bool {
    &&& n.rules == m.rules
    &&& n.disks == m.disks
    &&& n.is_gcp == m.is_gcp
    &&& n.home == m.home
    &&& n.play == m.play
    &&& n.doomed_vms == m.doomed_vms
    &&& n.doomed_disks == m.doomed_disks
    &&& n.vms_wanted == m.vms_wanted
    &&& n.disks_wanted == m.disks_wanted
}

/// What is done next was announced by name in the last line.
pub open spec fn announced(s: ApplyStep) -> bool {
    s.0 matches Progress::Wait(n, _) ==> match n.stage {
        ApplyStage::DestroyingDisk(i) => s.1.len() > 0 && s.1.last() == Note::Say(
            "Destroying disk \""@ + n.doomed_disks[i as int] + "\" (ID: "@ + (match lookup(
                n.state.disks,
                n.doomed_disks[i as int],
            ) {
                Some(id) => id,
                None => n.doomed_disks[i as int],
            }) + ")..."@,
        ),
        ApplyStage::DestroyingVm(i) => s.1.len() > 0 && s.1.last() == Note::Say(
            "Destroying instance \""@ + n.doomed_vms[i as int] + "\"..."@,
        ),
        ApplyStage::Creating(r, k) => s.1.len() > 0 && s.1.last() == Note::Say(
            "\nCreating instance \""@ + n.rules[r as int].nodes[k as int] + "\"..."@,
        ),
        ApplyStage::CreatingDisk(i) => s.1.len() > 0 && s.1.last() == Note::Say(
            "\nCreating disk \""@ + n.disks[i as int].name + "\"..."@,
        ),
        ApplyStage::Attaching(i) => s.1.len() > 0 && s.1.last() == Note::Say(
            "Attaching disk \""@ + n.disks[i as int].name + "\" to node \""@ + n.disks[i as int].node + "\"..."@,
        ),
        ApplyStage::Playing => s.1.len() > 0 && s.1.last() == Note::Say(
            "\n── --play flag set: handing off to play ────────────────────────────────"@,
        ),
        _ => true,
    }
}

/// What comes next asks rightly, for the same plan, and changes nothing else.
spec fn goes_on_rightly(m: ApplyModel, s: ApplyStep) -> bool {
    announced(s) && (s.0 matches Progress::Wait(n, a) ==> {
        &&& same_plan(m, n)
        &&& asks_rightly(n, a)
        &&& n.state == m.state
        &&& n.ssh_keys == m.ssh_keys
        &&& n.created == m.created
        &&& n.created_disks == m.created_disks
    })
}

proof fn lemma_disk_from_asks(m: ApplyModel, i: int)
    requires
        sizes_ok(m),
        0 <= i,
    ensures
        forall|l: Log| goes_on_rightly(m, #[trigger] disk_from(m, i, l)) && (disk_from(m, i, l).0 matches Progress::Wait(
            n,
            _,
        ) ==> !(n.stage is Creating)),
    decreases m.disks.len() - i,
{
    if i < m.disks.len() && known(m.state.disks, m.disks[i].name) {
        lemma_disk_from_asks(m, i + 1);
        assert forall|l: Log| #[trigger] disk_from(m, i, l) == disk_from(m, i + 1, l) by {}
    }
}

proof fn lemma_read_key_asks(m: ApplyModel, r: int)
    requires
        sizes_ok(m),
        0 <= r,
    ensures
        forall|l: Log| goes_on_rightly(m, #[trigger] create_disks(m, l)) && (create_disks(m, l).0 matches Progress::Wait(
            n,
            _,
        ) ==> !(n.stage is Creating)),
        forall|l: Log| goes_on_rightly(m, #[trigger] read_key(m, r, l)) && (read_key(m, r, l).0 matches Progress::Wait(
            n,
            _,
        ) ==> !(n.stage is Creating)),
{
    lemma_disk_from_asks(m, 0);
}

/// The nodes of rule `r` from `k` on up to that of the stage are known.
pub open spec fn passes_known_only(n: ApplyModel, r: int, k: int) -> bool {
    n.stage matches ApplyStage::Creating(r2, k2) ==> r2 == r && k <= k2 && forall|j: int|
        k <= j < k2 ==> lookup(n.state.instances, #[trigger] n.rules[r].nodes[j]) is Some
}

proof fn lemma_create_from_asks(m: ApplyModel, r: int, k: int)
    requires
        sizes_ok(m),
        0 <= r < m.rules.len(),
        0 <= k,
    ensures
        forall|l: Log| goes_on_rightly(m, #[trigger] create_from(m, r, k, l)) && (create_from(
            m,
            r,
            k,
            l,
        ).0 matches Progress::Wait(n, _) ==> passes_known_only(n, r, k)),
    decreases m.rules[r].nodes.len() - k,
{
    lemma_nodes_before(m.rules, r);
    if k >= m.rules[r].nodes.len() {
        lemma_read_key_asks(m, r + 1);
    } else if known(m.state.instances, m.rules[r].nodes[k]) {
        lemma_create_from_asks(m, r, k + 1);
        assert forall|l: Log| #[trigger] create_from(m, r, k, l) == create_from(m, r, k + 1, l) by {}
    }
}

proof fn lemma_go_asks(m: ApplyModel, i: int)
    requires
        sizes_ok(m),
        0 <= i,
    ensures
        forall|l: Log| goes_on_rightly(m, #[trigger] drop_vm(m, i, l)) && (drop_vm(m, i, l).0 matches Progress::Wait(
            n,
            _,
        ) ==> !(n.stage is Creating)),
        forall|l: Log| goes_on_rightly(m, #[trigger] drop_disk(m, i, l)) && (drop_disk(m, i, l).0 matches Progress::Wait(
            n,
            _,
        ) ==> !(n.stage is Creating)),
        forall|l: Log| goes_on_rightly(m, #[trigger] apply_go(m, l)) && (apply_go(m, l).0 matches Progress::Wait(
            n,
            _,
        ) ==> !(n.stage is Creating)),
{
    lemma_read_key_asks(m, 0);
}

/// Everything that is asked for on the way is about what is at hand, in every
/// detail, and the plan never changes.
pub proof fn law_apply_asks_rightly(m: ApplyModel, event: Event<Seq<char>>, log: Log)
    requires
        apply_wf(m),
    ensures
        apply_next(m, event, log).0 matches Progress::Wait(n, a) ==> same_plan(m, n) && asks_rightly(n, a),
        announced(apply_next(m, event, log)),
{
    lemma_go_asks(m, 0);
    match (m.stage, event) {
        (ApplyStage::DestroyingDisk(i), _) => lemma_go_asks(m, i + 1),
        (ApplyStage::DiskDestroyed(i), _) => lemma_go_asks(m, i + 1),
        (ApplyStage::DestroyingVm(i), _) => lemma_go_asks(m, i + 1),
        (ApplyStage::VmDestroyed(i), _) => lemma_go_asks(m, i + 1),
        (ApplyStage::ReadingKey(r), Event::Output(content)) => lemma_create_from_asks(
            ApplyModel { ssh_keys: m.rules[r as int].merged.user + ":"@ + trimmed(content), ..m },
            r as int,
            0,
        ),
        (ApplyStage::ReadingKey(r), _) => lemma_create_from_asks(ApplyModel { ssh_keys: ""@, ..m }, r as int, 0),
        (ApplyStage::Created(r, k), _) => lemma_create_from_asks(
            ApplyModel { created: (m.created + 1) as usize, ..m },
            r as int,
            k + 1,
        ),
        (ApplyStage::DiskCreated(i), _) => lemma_disk_from_asks(
            ApplyModel { created_disks: (m.created_disks + 1) as usize, ..m },
            i + 1,
        ),
        (ApplyStage::Attaching(i), _) => lemma_disk_from_asks(m, i + 1),
        _ => {},
    }
}

/// Whenever an instance is created, it is node `k` of rule `r` for some `r`
/// and `k`, and it is made from the settings of that very rule.
pub proof fn law_instance_made_from_its_rule(m: ApplyModel, event: Event<Seq<char>>, log: Log)
    requires
        apply_wf(m),
    ensures
        apply_next(m, event, log).0 matches Progress::Wait(n, Action::CreateVm(vm)) ==> {
            &&& n.rules == m.rules
            &&& n.stage matches ApplyStage::Creating(r, k) && vm == (VmRequest {
                name: m.rules[r as int].nodes[k as int],
                machine_type: m.rules[r as int].merged.machine_type,
                boot_disk_image: m.rules[r as int].merged.boot_disk_image,
                boot_disk_size_gb: m.rules[r as int].merged.boot_disk_size,
                ssh_keys: n.ssh_keys,
                startup_script: m.rules[r as int].merged.script,
                public_ip: m.rules[r as int].merged.ip_address == IpAddressType::Public,
            })
        },
{
    law_apply_asks_rightly(m, event, log);
}

/// The key that an instance is created with is the one of its own rule: the
/// user of the rule, a colon, and what the file of the rule's public key holds
/// without the white space around it; or nothing, where that cannot be read.
/// From one instance of a rule to the next the key stays. The nodes between
/// them are known already.
pub proof fn law_key_goes_with_its_rule(m: ApplyModel, event: Event<Seq<char>>, log: Log)
    requires
        apply_wf(m),
    ensures
        apply_next(m, event, log).0 matches Progress::Wait(n, _) ==> {
            &&& m.stage matches ApplyStage::ReadingKey(r) ==> {
                &&& event matches Event::Output(content) ==> n.ssh_keys == m.rules[r as int].merged.user + ":"@
                    + trimmed(content)
                &&& !(event is Output) ==> n.ssh_keys.len() == 0
                &&& passes_known_only(n, r as int, 0)
            }
            &&& !(m.stage is ReadingKey) ==> n.ssh_keys == m.ssh_keys
            &&& m.stage matches ApplyStage::Created(r, k) ==> passes_known_only(n, r as int, k + 1)
            &&& n.stage is Creating ==> m.stage is ReadingKey || m.stage is Created
        },
{
    reveal_strlit("");
    lemma_go_asks(m, 0);
    match (m.stage, event) {
        (ApplyStage::DestroyingDisk(i), _) => lemma_go_asks(m, i + 1),
        (ApplyStage::DiskDestroyed(i), _) => lemma_go_asks(m, i + 1),
        (ApplyStage::DestroyingVm(i), _) => lemma_go_asks(m, i + 1),
        (ApplyStage::VmDestroyed(i), _) => lemma_go_asks(m, i + 1),
        (ApplyStage::ReadingKey(r), Event::Output(content)) => lemma_create_from_asks(
            ApplyModel { ssh_keys: m.rules[r as int].merged.user + ":"@ + trimmed(content), ..m },
            r as int,
            0,
        ),
        (ApplyStage::ReadingKey(r), _) => lemma_create_from_asks(ApplyModel { ssh_keys: ""@, ..m }, r as int, 0),
        (ApplyStage::Created(r, k), _) => lemma_create_from_asks(
            ApplyModel { created: (m.created + 1) as usize, ..m },
            r as int,
            k + 1,
        ),
        (ApplyStage::DiskCreated(i), _) => lemma_disk_from_asks(
            ApplyModel { created_disks: (m.created_disks + 1) as usize, ..m },
            i + 1,
        ),
        (ApplyStage::Attaching(i), _) => lemma_disk_from_asks(m, i + 1),
        _ => {},
    }
}

/// What comes of an action is remembered, and nothing else is: a new instance
/// and a new disk under their names, and what was deleted is forgotten. Each
/// time the state is saved at once. A deletion that failed changes nothing.
/// And every instance and every disk that was created counts once.
pub proof fn law_apply_remembers(m: ApplyModel, event: Event<Seq<char>>, other: Seq<char>, log: Log)
    requires
        apply_wf(m),
    ensures
        apply_next(m, event, log).0 matches Progress::Wait(n, a) ==> {
            &&& match (m.stage, event) {
                (ApplyStage::DestroyingDisk(i), Event::Finished) => {
                    let name = m.doomed_disks[i as int];
                    &&& a is Save
                    &&& n.state.instances == m.state.instances
                    &&& lookup(n.state.disks, name) is None
                    &&& other != name ==> lookup(n.state.disks, other) == lookup(m.state.disks, other)
                },
                (ApplyStage::DestroyingVm(i), Event::Finished) => {
                    let name = m.doomed_vms[i as int];
                    &&& a is Save
                    &&& n.state.disks == m.state.disks
                    &&& lookup(n.state.instances, name) is None
                    &&& other != name ==> lookup(n.state.instances, other) == lookup(m.state.instances, other)
                },
                (ApplyStage::Creating(r, k), Event::Output(reply)) => {
                    let name = m.rules[r as int].nodes[k as int];
                    &&& a is Save
                    &&& n.state.disks == m.state.disks
                    &&& lookup(n.state.instances, name) == Some(reply_id(reply))
                    &&& other != name ==> lookup(n.state.instances, other) == lookup(m.state.instances, other)
                },
                (ApplyStage::CreatingDisk(i), Event::Output(id)) => {
                    let name = m.disks[i as int].name;
                    &&& a is Save
                    &&& n.state.instances == m.state.instances
                    &&& lookup(n.state.disks, name) == Some(id)
                    &&& other != name ==> lookup(n.state.disks, other) == lookup(m.state.disks, other)
                },
                _ => n.state == m.state,
            }
            &&& n.created == m.created + (if m.stage is Created {
                1int
            } else {
                0
            })
            &&& n.created_disks == m.created_disks + (if m.stage is DiskCreated {
                1int
            } else {
                0
            })
        },
{
    lemma_go_asks(m, 0);
    match (m.stage, event) {
        (ApplyStage::DestroyingDisk(i), Event::Finished) => law_without(
            m.state.disks,
            m.doomed_disks[i as int],
            other,
        ),
        (ApplyStage::DestroyingDisk(i), _) => lemma_go_asks(m, i + 1),
        (ApplyStage::DiskDestroyed(i), _) => lemma_go_asks(m, i + 1),
        (ApplyStage::DestroyingVm(i), Event::Finished) => law_without(
            m.state.instances,
            m.doomed_vms[i as int],
            other,
        ),
        (ApplyStage::DestroyingVm(i), _) => lemma_go_asks(m, i + 1),
        (ApplyStage::VmDestroyed(i), _) => lemma_go_asks(m, i + 1),
        (ApplyStage::ReadingKey(r), Event::Output(content)) => lemma_create_from_asks(
            ApplyModel { ssh_keys: m.rules[r as int].merged.user + ":"@ + trimmed(content), ..m },
            r as int,
            0,
        ),
        (ApplyStage::ReadingKey(r), _) => lemma_create_from_asks(ApplyModel { ssh_keys: ""@, ..m }, r as int, 0),
        (ApplyStage::Creating(r, k), Event::Output(reply)) => law_stored(
            m.state.instances,
            m.rules[r as int].nodes[k as int],
            reply_id(reply),
            other,
        ),
        (ApplyStage::Created(r, k), _) => {
            lemma_nodes_before(m.rules, r as int);
            lemma_create_from_asks(ApplyModel { created: (m.created + 1) as usize, ..m }, r as int, k + 1);
        },
        (ApplyStage::CreatingDisk(i), Event::Output(id)) => law_stored(
            m.state.disks,
            m.disks[i as int].name,
            id,
            other,
        ),
        (ApplyStage::DiskCreated(i), _) => lemma_disk_from_asks(
            ApplyModel { created_disks: (m.created_disks + 1) as usize, ..m },
            i + 1,
        ),
        (ApplyStage::Attaching(i), _) => lemma_disk_from_asks(m, i + 1),
        _ => {},
    }
}

/// A failed creation and a failed save end the work with their reason, as does
/// a failure to get access; a failed deletion and a failed attachment do not.
pub proof fn law_apply_gives_up(m: ApplyModel, e: Seq<char>, log: Log)
    requires
        apply_wf(m),
    ensures
        m.stage is Connecting || m.stage is DiskDestroyed || m.stage is VmDestroyed || m.stage is Creating
            || m.stage is Created || m.stage is CreatingDisk || m.stage is DiskCreated || m.stage is Playing
            ==> apply_next(m, Event::Failed(e), log).0 == Progress::<ApplyModel, Seq<char>>::Failed(e),
        m.stage is DestroyingDisk || m.stage is DestroyingVm || m.stage is ReadingKey || m.stage is Attaching
            ==> !(apply_next(m, Event::Failed(e), log).0 is Failed),
{
    match m.stage {
        ApplyStage::DestroyingDisk(i) => lemma_never_fails(m, i + 1),
        ApplyStage::DestroyingVm(i) => lemma_never_fails(m, i + 1),
        ApplyStage::ReadingKey(r) => lemma_create_from_never_fails(ApplyModel { ssh_keys: ""@, ..m }, r as int, 0),
        ApplyStage::Attaching(i) => lemma_disk_from_never_fails(m, i + 1),
        _ => {},
    }
}

proof fn lemma_disk_from_never_fails(m: ApplyModel, i: int)
    requires
        0 <= i,
    ensures
        forall|l: Log| !((#[trigger] disk_from(m, i, l)).0 is Failed),
    decreases m.disks.len() - i,
{
    if i < m.disks.len() && known(m.state.disks, m.disks[i].name) {
        lemma_disk_from_never_fails(m, i + 1);
        assert forall|l: Log| #[trigger] disk_from(m, i, l) == disk_from(m, i + 1, l) by {}
    }
}

proof fn lemma_create_from_never_fails(m: ApplyModel, r: int, k: int)
    requires
        0 <= k,
    ensures
        forall|l: Log| !((#[trigger] create_from(m, r, k, l)).0 is Failed),
    decreases m.rules[r].nodes.len() - k,
{
    lemma_disk_from_never_fails(m, 0);
    if k < m.rules[r].nodes.len() && known(m.state.instances, m.rules[r].nodes[k]) {
        lemma_create_from_never_fails(m, r, k + 1);
        assert forall|l: Log| #[trigger] create_from(m, r, k, l) == create_from(m, r, k + 1, l) by {}
    }
}

proof fn lemma_never_fails(m: ApplyModel, i: int)
    ensures
        forall|l: Log| !((#[trigger] drop_vm(m, i, l)).0 is Failed),
        forall|l: Log| !((#[trigger] drop_disk(m, i, l)).0 is Failed),
{
    lemma_disk_from_never_fails(m, 0);
}

/// The work ends in provisioning if and only if that is wanted: it is done
/// without it only where it is not wanted, or where the plan was declined.
pub proof fn law_apply_plays_if_wanted(m: ApplyModel, event: Event<Seq<char>>, log: Log)
    requires
        apply_wf(m),
    ensures
        apply_next(m, event, log).0 is Done ==> !m.play || m.stage is Playing || (m.stage is AskAll && event == Event::<
            Seq<char>,
        >::Answer(false)),
        apply_next(m, event, log).0 matches Progress::Wait(n, a) ==> (a is Play ==> m.play),
{
    law_apply_asks_rightly(m, event, log);
    lemma_done_unless_played(m, 0);
    match m.stage {
        ApplyStage::DestroyingDisk(i) => lemma_done_unless_played(m, i + 1),
        ApplyStage::DiskDestroyed(i) => lemma_done_unless_played(m, i + 1),
        ApplyStage::DestroyingVm(i) => lemma_done_unless_played(m, i + 1),
        ApplyStage::VmDestroyed(i) => lemma_done_unless_played(m, i + 1),
        ApplyStage::ReadingKey(r) => {
            if let Event::Output(content) = event {
                lemma_create_from_done(
                    ApplyModel { ssh_keys: m.rules[r as int].merged.user + ":"@ + trimmed(content), ..m },
                    r as int,
                    0,
                );
            } else {
                lemma_create_from_done(ApplyModel { ssh_keys: ""@, ..m }, r as int, 0);
            }
        },
        ApplyStage::Created(r, k) => lemma_create_from_done(
            ApplyModel { created: (m.created + 1) as usize, ..m },
            r as int,
            k + 1,
        ),
        ApplyStage::DiskCreated(i) => lemma_disk_from_done(
            ApplyModel { created_disks: (m.created_disks + 1) as usize, ..m },
            i + 1,
        ),
        ApplyStage::Attaching(i) => lemma_disk_from_done(m, i + 1),
        _ => {},
    }
}

proof fn lemma_disk_from_done(m: ApplyModel, i: int)
    requires
        0 <= i,
    ensures
        forall|l: Log| (#[trigger] disk_from(m, i, l)).0 is Done ==> !m.play,
    decreases m.disks.len() - i,
{
    if i < m.disks.len() && known(m.state.disks, m.disks[i].name) {
        lemma_disk_from_done(m, i + 1);
        assert forall|l: Log| #[trigger] disk_from(m, i, l) == disk_from(m, i + 1, l) by {}
    }
}

proof fn lemma_create_from_done(m: ApplyModel, r: int, k: int)
    requires
        0 <= k,
    ensures
        forall|l: Log| (#[trigger] create_from(m, r, k, l)).0 is Done ==> !m.play,
    decreases m.rules[r].nodes.len() - k,
{
    lemma_disk_from_done(m, 0);
    if k < m.rules[r].nodes.len() && known(m.state.instances, m.rules[r].nodes[k]) {
        lemma_create_from_done(m, r, k + 1);
        assert forall|l: Log| #[trigger] create_from(m, r, k, l) == create_from(m, r, k + 1, l) by {}
    }
}

proof fn lemma_done_unless_played(m: ApplyModel, i: int)
    ensures
        forall|l: Log| (#[trigger] drop_vm(m, i, l)).0 is Done ==> !m.play,
        forall|l: Log| (#[trigger] drop_disk(m, i, l)).0 is Done ==> !m.play,
        forall|l: Log| (#[trigger] apply_go(m, l)).0 is Done ==> !m.play,
{
    lemma_disk_from_done(m, 0);
}

/// A disk that was created is attached to its node if and only if the state
/// knows that node.
pub proof fn law_new_disk_is_attached(m: ApplyModel, i: usize, log: Log)
    requires
        apply_wf(m),
        m.stage == ApplyStage::DiskCreated(i),
    ensures
        lookup(m.state.instances, m.disks[i as int].node) matches Some(instance) ==> (apply_next(
            m,
            Event::Finished,
            log,
        ).0 matches Progress::Wait(n, a) && n.stage == ApplyStage::Attaching(i) && (a matches Action::AttachDisk {
            instance: to,
            ..
        } && to == instance)),
        lookup(m.state.instances, m.disks[i as int].node) is None ==> (apply_next(m, Event::Finished, log).0
            matches Progress::Wait(n, a) ==> !(a is AttachDisk)),
{
    lemma_disk_from_asks(ApplyModel { created_disks: (m.created_disks + 1) as usize, ..m }, i + 1);
    lemma_disk_from_not_attaching(ApplyModel { created_disks: (m.created_disks + 1) as usize, ..m }, i + 1);
}

proof fn lemma_disk_from_not_attaching(m: ApplyModel, i: int)
    requires
        0 <= i,
    ensures
        forall|l: Log| (#[trigger] disk_from(m, i, l)).0 matches Progress::Wait(_, a) ==> !(a is AttachDisk),
    decreases m.disks.len() - i,
{
    if i < m.disks.len() && known(m.state.disks, m.disks[i].name) {
        lemma_disk_from_not_attaching(m, i + 1);
        assert forall|l: Log| #[trigger] disk_from(m, i, l) == disk_from(m, i + 1, l) by {}
    }
}

/// The identifier of a new instance is that of the droplet in the reply, where
/// that is a whole number or a text, and else the reply itself.
pub proof fn law_identifier_in_reply(reply: Seq<char>)
    ensures
        match parsed_json(reply) {
            Ok(tree) => match field(field(Some(tree), "droplet"@), "id"@) {
                Some(JsonModel::Text(id)) => reply_id(reply) == id,
                Some(JsonModel::Number(id)) => if id.len() > 0 && forall|i: int|
                    0 <= i < id.len() ==> '0' <= #[trigger] id[i] <= '9' {
                    reply_id(reply) == id
                } else {
                    reply_id(reply) == reply
                },
                _ => reply_id(reply) == reply,
            },
            Err(_) => reply_id(reply) == reply,
        },
{
    if let Ok(tree) = parsed_json(reply) {
        if let Some(JsonModel::Number(id)) = field(field(Some(tree), "droplet"@), "id"@) {
            assert(is_whole(id) <==> id.len() > 0 && forall|i: int|
                0 <= i < id.len() ==> '0' <= #[trigger] id[i] <= '9') by {
                if is_whole(id) {
                    assert forall|i: int| 0 <= i < id.len() implies '0' <= #[trigger] id[i] <= '9' by {
                        assert(is_digit(id[i]));
                    }
                }
                if id.len() > 0 && forall|i: int| 0 <= i < id.len() ==> '0' <= #[trigger] id[i] <= '9' {
                    assert forall|i: int| 0 <= i < id.len() implies is_digit(#[trigger] id[i]) by {}
                }
            }
        }
    }
}

proof fn lemma_disk_from_tells(m: ApplyModel, i: int)
    ensures
        forall|l: Log| kept(l, (#[trigger] disk_from(m, i, l)).1),
        forall|l: Log| kept(l, (#[trigger] apply_end(m, l)).1),
    decreases m.disks.len() - i,
{
    if i < m.disks.len() && known(m.state.disks, m.disks[i].name) {
        lemma_disk_from_tells(m, i + 1);
        assert forall|l: Log| #[trigger] disk_from(m, i, l) == disk_from(m, i + 1, l) by {}
    }
}

proof fn lemma_create_tells(m: ApplyModel, r: int, k: int)
    ensures
        forall|l: Log| kept(l, (#[trigger] create_disks(m, l)).1),
        forall|l: Log| kept(l, (#[trigger] read_key(m, r, l)).1),
        forall|l: Log| kept(l, (#[trigger] create_from(m, r, k, l)).1),
        forall|l: Log| kept(l, (#[trigger] create_vms(m, l)).1),
    decreases m.rules[r].nodes.len() - k,
{
    lemma_disk_from_tells(m, 0);
    if k < m.rules[r].nodes.len() && known(m.state.instances, m.rules[r].nodes[k]) {
        lemma_create_tells(m, r, k + 1);
        assert forall|l: Log| #[trigger] create_from(m, r, k, l) == create_from(m, r, k + 1, l) by {}
    }
}

proof fn lemma_drop_tells(m: ApplyModel, i: int)
    ensures
        forall|l: Log| kept(l, (#[trigger] drop_vm(m, i, l)).1),
        forall|l: Log| kept(l, (#[trigger] drop_disk(m, i, l)).1),
        forall|l: Log| kept(l, (#[trigger] apply_go(m, l)).1),
{
    lemma_create_tells(m, 0, 0);
    assert forall|l: Log| kept(l, (#[trigger] drop_vm(m, i, l)).1) by {}
    assert forall|l: Log| kept(l, (#[trigger] drop_vms(m, l)).1) by {
        assert(kept(l, drop_vm(m, 0, l).1));
    }
    assert forall|l: Log| kept(l, (#[trigger] drop_disk(m, i, l)).1) by {
        assert(kept(l, drop_vms(m, l).1));
    }
}

/// No line that the operator was told is ever taken back, and each outcome is
/// told by name: what was deleted, created or attached, with its identifier
/// where there is one, and what could not be, with the reason.
pub proof fn law_apply_tells_each_outcome(m: ApplyModel, event: Event<Seq<char>>, e: Seq<char>, log: Log)
    requires
        apply_wf(m),
    ensures
        kept(log, apply_next(m, event, log).1),
        m.stage matches ApplyStage::DestroyingDisk(i) ==> kept(
            log.push(Note::Say("Disk \""@ + m.doomed_disks[i as int] + "\" destroyed."@)),
            apply_next(m, Event::Finished, log).1,
        ) && kept(
            log.push(Note::Warn("  ⚠ Failed to destroy disk "@ + m.doomed_disks[i as int] + ": "@ + e)),
            apply_next(m, Event::Failed(e), log).1,
        ),
        m.stage matches ApplyStage::DestroyingVm(i) ==> kept(
            log.push(Note::Say("Instance \""@ + m.doomed_vms[i as int] + "\" destroyed."@)),
            apply_next(m, Event::Finished, log).1,
        ) && kept(
            log.push(Note::Warn("  ⚠ Failed to destroy instance "@ + m.doomed_vms[i as int] + ": "@ + e)),
            apply_next(m, Event::Failed(e), log).1,
        ),
        m.stage matches ApplyStage::ReadingKey(r) ==> kept(
            log.push(
                Note::Warn(
                    "  ⚠ Could not read SSH public key: "@ + ("Cannot read SSH public key from '"@ + expanded(
                        m.rules[r as int].merged.ssh_public_key,
                        m.home,
                    ) + "': "@ + e),
                ),
            ),
            apply_next(m, Event::Failed(e), log).1,
        ),
        m.stage matches ApplyStage::Creating(r, k) ==> kept(
            log.push(
                Note::Say(
                    "Instance \""@ + m.rules[r as int].nodes[k as int] + "\" created with ID: "@ + reply_id(e),
                ),
            ),
            apply_next(m, Event::Output(e), log).1,
        ),
        m.stage matches ApplyStage::CreatingDisk(i) ==> kept(
            log.push(Note::Say("Disk \""@ + m.disks[i as int].name + "\" created with ID: "@ + e)),
            apply_next(m, Event::Output(e), log).1,
        ),
        m.stage matches ApplyStage::DiskCreated(i) ==> lookup(m.state.instances, m.disks[i as int].node) is None
            ==> kept(
            log.push(
                Note::Say(
                    "⚠ Cannot attach disk \""@ + m.disks[i as int].name + "\": Target node \""@
                        + m.disks[i as int].node + "\" not found in state."@,
                ),
            ),
            apply_next(m, Event::Finished, log).1,
        ),
        m.stage matches ApplyStage::Attaching(i) ==> kept(
            log.push(Note::Say("Successfully requested attach for \""@ + m.disks[i as int].name + "\"."@)),
            apply_next(m, Event::Finished, log).1,
        ) && kept(
            log.push(Note::Warn("  ⚠ Failed to attach disk \""@ + m.disks[i as int].name + "\": "@ + e)),
            apply_next(m, Event::Failed(e), log).1,
        ),
{
    match m.stage {
        ApplyStage::Connecting => lemma_drop_tells(m, 0),
        ApplyStage::DestroyingDisk(i) => lemma_drop_tells(m, i + 1),
        ApplyStage::DiskDestroyed(i) => lemma_drop_tells(m, i + 1),
        ApplyStage::DestroyingVm(i) => lemma_drop_tells(m, i + 1),
        ApplyStage::VmDestroyed(i) => lemma_drop_tells(m, i + 1),
        ApplyStage::ReadingKey(r) => {
            lemma_create_tells(ApplyModel { ssh_keys: ""@, ..m }, r as int, 0);
            if let Event::Output(content) = event {
                lemma_create_tells(
                    ApplyModel { ssh_keys: m.rules[r as int].merged.user + ":"@ + trimmed(content), ..m },
                    r as int,
                    0,
                );
            }
        },
        ApplyStage::Created(r, k) => lemma_create_tells(
            ApplyModel { created: (m.created + 1) as usize, ..m },
            r as int,
            k + 1,
        ),
        ApplyStage::DiskCreated(i) => lemma_disk_from_tells(
            ApplyModel { created_disks: (m.created_disks + 1) as usize, ..m },
            i + 1,
        ),
        ApplyStage::Attaching(i) => lemma_disk_from_tells(m, i + 1),
        _ => {},
    }
}

proof fn lemma_doomed_lines(names: Seq<Seq<char>>, entries: Entries, k: int, log: Log)
    ensures
        kept(log, doomed_lines(names, entries, log)),
        doomed_lines(names, entries, log).len() == log.len() + names.len(),
        0 <= k < names.len() ==> doomed_lines(names, entries, log)[log.len() + k] == Note::Say(
            "  - "@ + names[k] + " (ID: "@ + (match lookup(entries, names[k]) {
                Some(id) => id,
                None => names[k],
            }) + ")"@,
        ),
    decreases names.len(),
{
    if names.len() > 0 {
        lemma_doomed_lines(names.drop_last(), entries, k, log);
    }
}

proof fn lemma_rule_lines(rule: ResolvedModel, entries: Entries, n: nat, k: int, log: Log)
    requires
        n <= rule.nodes.len(),
    ensures
        kept(log, rule_lines(rule, entries, n, log)),
        0 <= k < n && lookup(entries, rule.nodes[k]) is None ==> rule_lines(rule, entries, n, log).contains(
            Note::Say(
                "  + "@ + rule.nodes[k] + " (Type: "@ + rule.merged.machine_type + ", Image: "@
                    + rule.merged.boot_disk_image + ")"@,
            ),
        ),
    decreases n,
{
    if n > 0 {
        let before = rule_lines(rule, entries, (n - 1) as nat, log);
        let after = rule_lines(rule, entries, n, log);
        lemma_rule_lines(rule, entries, (n - 1) as nat, k, log);
        if 0 <= k < n && lookup(entries, rule.nodes[k]) is None {
            let line = Note::Say(
                "  + "@ + rule.nodes[k] + " (Type: "@ + rule.merged.machine_type + ", Image: "@
                    + rule.merged.boot_disk_image + ")"@,
            );
            if k == n - 1 {
                assert(after[before.len() as int] == line);
            } else {
                let j = choose|j: int| 0 <= j < before.len() && before[j] == line;
                assert(after[j] == line);
            }
        }
    }
}

proof fn lemma_create_lines(rules: Seq<ResolvedModel>, entries: Entries, r: int, k: int, log: Log)
    ensures
        kept(log, create_lines(rules, entries, log)),
        0 <= r < rules.len() && 0 <= k < rules[r].nodes.len() && lookup(entries, rules[r].nodes[k]) is None
            ==> create_lines(rules, entries, log).contains(
            Note::Say(
                "  + "@ + rules[r].nodes[k] + " (Type: "@ + rules[r].merged.machine_type + ", Image: "@
                    + rules[r].merged.boot_disk_image + ")"@,
            ),
        ),
    decreases rules.len(),
{
    if rules.len() > 0 {
        let before = create_lines(rules.drop_last(), entries, log);
        let after = create_lines(rules, entries, log);
        lemma_create_lines(rules.drop_last(), entries, r, k, log);
        lemma_rule_lines(rules.last(), entries, rules.last().nodes.len(), k, before);
        if 0 <= r < rules.len() - 1 && 0 <= k < rules[r].nodes.len() && lookup(entries, rules[r].nodes[k]) is None {
            let line = Note::Say(
                "  + "@ + rules[r].nodes[k] + " (Type: "@ + rules[r].merged.machine_type + ", Image: "@
                    + rules[r].merged.boot_disk_image + ")"@,
            );
            let j = choose|j: int| 0 <= j < before.len() && before[j] == line;
            assert(after[j] == line);
        }
    }
}

proof fn lemma_disk_lines(disks: Seq<DiskModel>, entries: Entries, k: int, log: Log)
    ensures
        kept(log, disk_lines(disks, entries, log)),
        0 <= k < disks.len() && lookup(entries, disks[k].name) is None ==> disk_lines(disks, entries, log).contains(
            Note::Say(
                "  + "@ + disks[k].name + " (Size: "@ + decimal(disks[k].size as nat) + "GB, Node: "@
                    + disks[k].node + ")"@,
            ),
        ),
    decreases disks.len(),
{
    if disks.len() > 0 {
        let before = disk_lines(disks.drop_last(), entries, log);
        let after = disk_lines(disks, entries, log);
        lemma_disk_lines(disks.drop_last(), entries, k, log);
        if 0 <= k < disks.len() && lookup(entries, disks[k].name) is None {
            let line = Note::Say(
                "  + "@ + disks[k].name + " (Size: "@ + decimal(disks[k].size as nat) + "GB, Node: "@
                    + disks[k].node + ")"@,
            );
            if k == disks.len() - 1 {
                assert(after[before.len() as int] == line);
            } else {
                let j = choose|j: int| 0 <= j < before.len() && before[j] == line;
                assert(after[j] == line);
            }
        }
    }
}

proof fn lemma_still_contains(before: Log, after: Log, line: Note<Seq<char>>)
    requires
        kept(before, after),
        before.contains(line),
    ensures
        after.contains(line),
{
    let j = choose|j: int| 0 <= j < before.len() && before[j] == line;
    assert(after[j] == line);
}

/// The operator sees the whole plan before anything is done: each instance and
/// each disk that will be deleted, with its identifier; each instance that will
/// be created, with the machine type and the image of its rule; each disk that
/// will be created, with its size and its node; and last the four numbers, or
/// that there is nothing to do.
pub proof fn law_apply_shows_its_plan(
    loaded: LoadedModel,
    state: StateModel,
    home: Option<Seq<char>>,
    play: bool,
    auto: bool,
    r: int,
    k: int,
    log: Log,
)
    ensures
        ({
            let (done, told) = apply_begin(loaded, state, home, play, auto, log);
            done matches Progress::Wait(n, _) ==> {
                &&& 0 <= k < n.doomed_vms.len() ==> told.contains(
                    Note::Say(
                        "  - "@ + n.doomed_vms[k] + " (ID: "@ + (match lookup(state.instances, n.doomed_vms[k]) {
                            Some(id) => id,
                            None => n.doomed_vms[k],
                        }) + ")"@,
                    ),
                )
                &&& 0 <= k < n.doomed_disks.len() ==> told.contains(
                    Note::Say(
                        "  - "@ + n.doomed_disks[k] + " (ID: "@ + (match lookup(state.disks, n.doomed_disks[k]) {
                            Some(id) => id,
                            None => n.doomed_disks[k],
                        }) + ")"@,
                    ),
                )
                &&& n.vms_wanted > 0 && 0 <= r < n.rules.len() && 0 <= k < n.rules[r].nodes.len() && lookup(
                    state.instances,
                    n.rules[r].nodes[k],
                ) is None ==> told.contains(
                    Note::Say(
                        "  + "@ + n.rules[r].nodes[k] + " (Type: "@ + n.rules[r].merged.machine_type + ", Image: "@
                            + n.rules[r].merged.boot_disk_image + ")"@,
                    ),
                )
                &&& n.disks_wanted > 0 && 0 <= k < n.disks.len() && lookup(state.disks, n.disks[k].name) is None
                    ==> told.contains(
                    Note::Say(
                        "  + "@ + n.disks[k].name + " (Size: "@ + decimal(n.disks[k].size as nat) + "GB, Node: "@
                            + n.disks[k].node + ")"@,
                    ),
                )
                &&& told.last() == Note::Say(
                    if n.doomed_vms.len() == 0 && n.vms_wanted == 0 && n.doomed_disks.len() == 0 && n.disks_wanted
                        == 0 {
                        "All nodes and disks are already in the desired state. Nothing to do."@
                    } else {
                        "\nSummary: "@ + decimal(n.vms_wanted as nat) + " instances to create, "@ + decimal(
                            n.doomed_vms.len(),
                        ) + " instances to destroy, "@ + decimal(n.disks_wanted as nat) + " disks to create, "@
                            + decimal(n.doomed_disks.len()) + " disks to destroy."@
                    },
                )
            }
        }),
{
    let (done, told) = apply_begin(loaded, state, home, play, auto, log);
    if let Progress::Wait(n, _) = done {
        let m = ApplyModel { stage: ApplyStage::AskAll, ..n };
        let l0 = settings(loaded, log).push(
            Note::Say("\n── Execution Plan ───────────────────────────────────────────────────────"@),
        );
        let b1 = l0.push(Note::Say("Instances to destroy:"@));
        let d1 = doomed_lines(m.doomed_vms, m.state.instances, b1);
        let l1 = if m.doomed_vms.len() > 0 {
            d1
        } else {
            l0
        };
        let b2 = l1.push(Note::Say("Instances to create:"@));
        let d2 = create_lines(m.rules, m.state.instances, b2);
        let l2 = if m.vms_wanted > 0 {
            d2
        } else {
            l1
        };
        let b3 = l2.push(Note::Say("Disks to destroy:"@));
        let d3 = doomed_lines(m.doomed_disks, m.state.disks, b3);
        let l3 = if m.doomed_disks.len() > 0 {
            d3
        } else {
            l2
        };
        let b4 = l3.push(Note::Say("Disks to create & attach:"@));
        let d4 = disk_lines(m.disks, m.state.disks, b4);
        let l4 = if m.disks_wanted > 0 {
            d4
        } else {
            l3
        };
        assert(l4 == plan_lines(m, settings(loaded, log)));
        lemma_doomed_lines(m.doomed_vms, m.state.instances, k, b1);
        lemma_create_lines(m.rules, m.state.instances, r, k, b2);
        lemma_doomed_lines(m.doomed_disks, m.state.disks, k, b3);
        lemma_disk_lines(m.disks, m.state.disks, k, b4);
        assert(told.drop_last() =~= l4);
        assert(kept(l4, told));
        assert(kept(l3, told));
        assert(kept(l2, l3));
        assert(kept(l2, told));
        assert(kept(l1, l2));
        assert(kept(l1, told));
        if 0 <= k < n.doomed_vms.len() {
            assert(told[b1.len() + k] == d1[b1.len() + k]);
        }
        if 0 <= k < n.doomed_disks.len() {
            assert(told[b3.len() + k] == d3[b3.len() + k]);
        }
        if n.vms_wanted > 0 && 0 <= r < n.rules.len() && 0 <= k < n.rules[r].nodes.len() && lookup(
            state.instances,
            n.rules[r].nodes[k],
        ) is None {
            lemma_still_contains(
                d2,
                told,
                Note::Say(
                    "  + "@ + n.rules[r].nodes[k] + " (Type: "@ + n.rules[r].merged.machine_type + ", Image: "@
                        + n.rules[r].merged.boot_disk_image + ")"@,
                ),
            );
        }
        if n.disks_wanted > 0 && 0 <= k < n.disks.len() && lookup(state.disks, n.disks[k].name) is None {
            lemma_still_contains(
                d4,
                told,
                Note::Say(
                    "  + "@ + n.disks[k].name + " (Size: "@ + decimal(n.disks[k].size as nat) + "GB, Node: "@
                        + n.disks[k].node + ")"@,
                ),
            );
        }
    }
}

/// The work starts from the rules and disks of the configuration and from the
/// state. The operator is asked if and only if there is something to change
/// and it was not approved beforehand.
pub proof fn law_apply_starts_from_configuration(
    loaded: LoadedModel,
    state: StateModel,
    home: Option<Seq<char>>,
    play: bool,
    auto: bool,
    log: Log,
)
    ensures
        apply_begin(loaded, state, home, play, auto, log).0 matches Progress::Wait(n, a) ==> (resolved_rules(
            loaded.common.rules,
            loaded.common,
        ) matches Ok(rules) && {
            &&& n.rules == rules
            &&& n.disks == (match loaded.common.disks {
                Some(disks) => disks,
                None => Seq::empty(),
            })
            &&& n.state == state
            &&& n.is_gcp == loaded.is_gcp
            &&& n.home == home
            &&& n.play == play
            &&& n.created == 0
            &&& n.created_disks == 0
            &&& a is Confirm <==> !auto && (n.doomed_vms.len() > 0 || n.vms_wanted > 0 || n.doomed_disks.len() > 0
                || n.disks_wanted > 0)
            &&& a is Confirm || a is Connect
            &&& a is Connect ==> n.stage is Connecting
            &&& a is Confirm ==> n.stage is AskAll && a == Action::Confirm("\nProceed with these changes?"@)
        }),
        apply_begin(loaded, state, home, play, auto, log).0 is Wait <==> resolved_rules(
            loaded.common.rules,
            loaded.common,
        ) is Ok,
        resolved_rules(loaded.common.rules, loaded.common) matches Err(e) ==> apply_begin(
            loaded,
            state,
            home,
            play,
            auto,
            log,
        ).0 == Progress::<ApplyModel, Seq<char>>::Failed(rule_message(e)),
{
}

/// What the work will delete is what the state knows and no rule or disk of
/// the configuration names. There is an instance to create if and only if some
/// rule names a node that the state does not know, and a disk if and only if
/// the configuration has one that the state does not know.
pub proof fn law_apply_plans_the_difference(
    loaded: LoadedModel,
    state: StateModel,
    home: Option<Seq<char>>,
    play: bool,
    auto: bool,
    name: Seq<char>,
    log: Log,
)
    ensures
        apply_begin(loaded, state, home, play, auto, log).0 matches Progress::Wait(n, _) ==> {
            &&& n.doomed_vms.contains(name) <==> lookup(state.instances, name) is Some && !named(n.rules, name)
            &&& n.doomed_disks.contains(name) <==> lookup(state.disks, name) is Some && !has_disk(n.disks, name)
            &&& node_count(n.rules) <= usize::MAX && named(n.rules, name) && lookup(state.instances, name) is None
                ==> n.vms_wanted > 0
            &&& n.disks.len() <= usize::MAX && has_disk(n.disks, name) && lookup(state.disks, name) is None
                ==> n.disks_wanted > 0
            &&& node_count(n.rules) <= usize::MAX && n.vms_wanted > 0 ==> exists|other: Seq<char>| #[trigger]
                named(n.rules, other) && lookup(state.instances, other) is None
            &&& n.disks.len() <= usize::MAX && n.disks_wanted > 0 ==> exists|other: Seq<char>| #[trigger]
                has_disk(n.disks, other) && lookup(state.disks, other) is None
        },
{
    if let Ok(rules) = resolved_rules(loaded.common.rules, loaded.common) {
        let disks = match loaded.common.disks {
            Some(d) => d,
            None => Seq::empty(),
        };
        law_every_node_is_a_target(rules, 0, 0);
        law_unwanted(state.instances, vm_names(rules));
        law_unwanted(state.disks, disk_names(disks));
        lemma_named(rules, name);
        lemma_has_disk(disks, name);
        lemma_missing_bound(vm_names(rules), state.instances);
        lemma_missing_bound(disk_names(disks), state.disks);
        if missing(vm_names(rules), state.instances) == 0 {
            lemma_nothing_missing(vm_names(rules), state.instances);
        } else {
            let other = lemma_something_missing(vm_names(rules), state.instances);
            lemma_named(rules, other);
        }
        if missing(disk_names(disks), state.disks) == 0 {
            lemma_nothing_missing(disk_names(disks), state.disks);
        } else {
            let other = lemma_something_missing(disk_names(disks), state.disks);
            lemma_has_disk(disks, other);
        }
    }
}

/// Whether there is a disk of a name.
pub open spec fn has_disk(disks: Seq<DiskModel>, name: Seq<char>) -> bool {
    exists|i: int| 0 <= i < disks.len() && (#[trigger] disks[i]).name == name
}

proof fn lemma_has_disk(disks: Seq<DiskModel>, name: Seq<char>)
    ensures
        disk_names(disks).contains(name) <==> has_disk(disks, name),
{
    let d = disk_names(disks);
    if d.contains(name) {
        let i = choose|i: int| 0 <= i < d.len() && d[i] == name;
        assert(disks[i].name == name);
    }
    if has_disk(disks, name) {
        let i = choose|i: int| 0 <= i < disks.len() && (#[trigger] disks[i]).name == name;
        assert(d[i] == name);
    }
}

/// Whether some rule names a node.
pub open spec fn named(rules: Seq<ResolvedModel>, name: Seq<char>) -> bool {
    exists|r: int, k: int| 0 <= r < rules.len() && 0 <= k < rules[r].nodes.len() && #[trigger] rules[r].nodes[k] == name
}

proof fn lemma_named(rules: Seq<ResolvedModel>, name: Seq<char>)
    ensures
        vm_names(rules).contains(name) <==> named(rules, name),
    decreases rules.len(),
{
    if rules.len() == 0 {
        assert(!vm_names(rules).contains(name));
    } else {
        let front = rules.drop_last();
        let last = rules.len() - 1;
        lemma_named(front, name);
        lemma_names_grow(rules, last);
        assert(rules.take(last) =~= front);
        assert(rules.take(last + 1) =~= rules);
        if named(front, name) {
            let (r, k) = choose|r: int, k: int|
                0 <= r < front.len() && 0 <= k < front[r].nodes.len() && #[trigger] front[r].nodes[k] == name;
            assert(rules[r].nodes[k] == name);
        }
        if rules[last].nodes.contains(name) {
            let k = choose|k: int| 0 <= k < rules[last].nodes.len() && rules[last].nodes[k] == name;
            assert(rules[last].nodes[k] == name);
        }
        if named(rules, name) {
            let (r, k) = choose|r: int, k: int|
                0 <= r < rules.len() && 0 <= k < rules[r].nodes.len() && #[trigger] rules[r].nodes[k] == name;
            if r < last {
                assert(front[r].nodes[k] == name);
            }
        }
    }
}

proof fn lemma_something_missing(names: Seq<Seq<char>>, entries: Entries) -> (n: Seq<char>)
    requires
        missing(names, entries) > 0,
    ensures
        names.contains(n),
        lookup(entries, n) is None,
    decreases names.len(),
{
    let last = names.last();
    assert(names[names.len() - 1] == last);
    if known(entries, last) {
        let n = lemma_something_missing(names.drop_last(), entries);
        let i = choose|i: int| 0 <= i < names.drop_last().len() && names.drop_last()[i] == n;
        assert(names[i] == n);
        n
    } else {
        last
    }
}

/// As many instances and disks are wanted as the configuration has names that
/// the state does not know.
pub proof fn law_wanted_are_counted(
    loaded: LoadedModel,
    state: StateModel,
    home: Option<Seq<char>>,
    play: bool,
    auto: bool,
    log: Log,
)
    ensures
        apply_begin(loaded, state, home, play, auto, log).0 matches Progress::Wait(n, _) ==> (node_count(n.rules)
            <= usize::MAX && n.disks.len() <= usize::MAX ==> {
            &&& n.vms_wanted == Seq::new(node_count(n.rules), |i: int| all_targets(n.rules)[i].0).filter(
                |name: Seq<char>| lookup(state.instances, name) is None,
            ).len()
            &&& n.disks_wanted == n.disks.filter(|d: DiskModel| lookup(state.disks, d.name) is None).len()
        }),
{
    if let Ok(rules) = resolved_rules(loaded.common.rules, loaded.common) {
        let disks = match loaded.common.disks {
            Some(d) => d,
            None => Seq::empty(),
        };
        law_every_node_is_a_target(rules, 0, 0);
        let names = Seq::new(node_count(rules), |i: int| all_targets(rules)[i].0);
        assert(names =~= vm_names(rules));
        lemma_missing_is_filter(names, state.instances);
        lemma_missing_bound(names, state.instances);
        lemma_missing_disks(disks, state.disks);
        lemma_missing_bound(disk_names(disks), state.disks);
    }
}

proof fn lemma_missing_is_filter(names: Seq<Seq<char>>, entries: Entries)
    ensures
        missing(names, entries) == names.filter(|name: Seq<char>| lookup(entries, name) is None).len(),
    decreases names.len(),
{
    reveal(Seq::filter);
    if names.len() > 0 {
        lemma_missing_is_filter(names.drop_last(), entries);
    }
}

proof fn lemma_missing_disks(disks: Seq<DiskModel>, entries: Entries)
    ensures
        missing(disk_names(disks), entries) == disks.filter(|d: DiskModel| lookup(entries, d.name) is None).len(),
    decreases disks.len(),
{
    reveal(Seq::filter);
    if disks.len() > 0 {
        lemma_missing_disks(disks.drop_last(), entries);
        assert(disk_names(disks).drop_last() =~= disk_names(disks.drop_last()));
    }
}

// ---------------------------------------------------------------------------
// Code
// ---------------------------------------------------------------------------

/// The identifier in the reply to a request to create an instance.
pub fn id_from(tree: &Json, reply: &str) -> (r: String)
    ensures
        r@ == id_in(tree.deep_view(), reply@),
{
    match get(get(Some(tree), "droplet"), "id") {
        Some(Json::Number(n)) => if whole(n.as_str()) {
            n.clone()
        } else {
            reply.to_owned()
        },
        Some(Json::Text(s)) => s.clone(),
        _ => reply.to_owned(),
    }
}

/// The identifier in a reply that may not be JSON.
pub fn instance_id(reply: &str) -> (r: String)
    ensures
        r@ == reply_id(reply@),
{
    match parse_json(reply) {
        Ok(tree) => id_from(&tree, reply),
        Err(_) => reply.to_owned(),
    }
}

fn names(nodes: &Vec<(String, bool)>) -> (r: Vec<String>)
    ensures
        r.deep_view() == names_of(nodes.deep_view()),
{
    let mut out: Vec<String> = Vec::new();
    let mut i: usize = 0;
    while i < nodes.len()
        invariant
            i <= nodes@.len(),
            out@.len() == i,
            forall|k: int| 0 <= k < i ==> (#[trigger] out@[k])@ == nodes@[k].0@,
        decreases nodes@.len() - i,
    {
        out.push(nodes[i].0.clone());
        i = i + 1;
    }
    assert(out.deep_view() =~= names_of(nodes.deep_view()));
    out
}

fn names_of_disks(disks: &Vec<DiskYaml>) -> (r: Vec<String>)
    ensures
        r.deep_view() == disk_names(disks.deep_view()),
{
    let mut out: Vec<String> = Vec::new();
    let mut i: usize = 0;
    while i < disks.len()
        invariant
            i <= disks@.len(),
            out@.len() == i,
            forall|k: int| 0 <= k < i ==> (#[trigger] out@[k])@ == disks@[k].name@,
        decreases disks@.len() - i,
    {
        out.push(disks[i].name.clone());
        i = i + 1;
    }
    assert(out.deep_view() =~= disk_names(disks.deep_view()));
    out
}

fn count_missing(wanted: &Vec<String>, registry: &Registry) -> (r: usize)
    ensures
        r == missing(wanted.deep_view(), registry.deep_view()),
        r <= wanted@.len(),
{
    let ghost all = wanted.deep_view();
    let mut count: usize = 0;
    let mut i: usize = 0;
    while i < wanted.len()
        invariant
            i <= wanted@.len(),
            all == wanted.deep_view(),
            count <= i,
            count == missing(all.take(i as int), registry.deep_view()),
        decreases wanted@.len() - i,
    {
        assert(all.take(i + 1).drop_last() =~= all.take(i as int));
        assert(all.take(i + 1).last() == wanted@[i as int]@);
        if !registry.contains_key(wanted[i].as_str()) {
            count = count + 1;
        }
        i = i + 1;
    }
    assert(all.take(i as int) =~= all);
    count
}

fn clone_disks(disks: &Option<Vec<DiskYaml>>) -> (r: Vec<DiskYaml>)
    ensures
        r.deep_view() == match disks.deep_view() {
            Some(d) => d,
            None => Seq::<DiskModel>::empty(),
        },
{
    let mut out: Vec<DiskYaml> = Vec::new();
    match disks {
        Some(d) => {
            let mut i: usize = 0;
            while i < d.len()
                invariant
                    i <= d@.len(),
                    out@.len() == i,
                    forall|k: int| 0 <= k < i ==> (#[trigger] out@[k]).deep_view() == d@[k].deep_view(),
                decreases d@.len() - i,
            {
                out.push(DiskYaml { name: d[i].name.clone(), size: d[i].size, node: d[i].node.clone() });
                i = i + 1;
            }
            assert(out.deep_view() =~= d.deep_view());
        },
        None => {
            assert(out.deep_view() =~= Seq::<DiskModel>::empty());
        },
    }
    out
}

fn show_doomed(doomed: &Vec<String>, registry: &Registry, log: &mut Vec<Note<String>>)
    ensures
        final(log).deep_view() == doomed_lines(
            doomed.deep_view(),
            registry.deep_view(),
            old(log).deep_view(),
        ),
{
    let ghost all = doomed.deep_view();
    let ghost start = log.deep_view();
    let mut i: usize = 0;
    while i < doomed.len()
        invariant
            i <= doomed@.len(),
            all == doomed.deep_view(),
            log.deep_view() == doomed_lines(all.take(i as int), registry.deep_view(), start),
        decreases doomed@.len() - i,
    {
        assert(all.take(i + 1).drop_last() =~= all.take(i as int));
        assert(all.take(i + 1).last() == doomed@[i as int]@);
        let name = doomed[i].as_str();
        say(log, cat5("  - ", name, " (ID: ", registry.get_or_name(name).as_str(), ")"));
        i = i + 1;
    }
    assert(all.take(i as int) =~= all);
}

fn show_rule(rule: &CommonResolvedRule, registry: &Registry, log: &mut Vec<Note<String>>)
    ensures
        final(log).deep_view() == rule_lines(
            rule.deep_view(),
            registry.deep_view(),
            rule.deep_view().nodes.len(),
            old(log).deep_view(),
        ),
{
    let ghost start = log.deep_view();
    let mut i: usize = 0;
    while i < rule.nodes.len()
        invariant
            i <= rule.nodes@.len(),
            log.deep_view() == rule_lines(rule.deep_view(), registry.deep_view(), i as nat, start),
        decreases rule.nodes@.len() - i,
    {
        let node = rule.nodes[i].as_str();
        assert(rule.deep_view().nodes[i as int] == node@);
        if !registry.contains_key(node) {
            say(
                log,
                cat7(
                    "  + ",
                    node,
                    " (Type: ",
                    rule.merged.machine_type.as_str(),
                    ", Image: ",
                    rule.merged.boot_disk_image.as_str(),
                    ")",
                ),
            );
        }
        i = i + 1;
    }
}

fn show_created(rules: &Vec<CommonResolvedRule>, registry: &Registry, log: &mut Vec<Note<String>>)
    ensures
        final(log).deep_view() == create_lines(
            rules.deep_view(),
            registry.deep_view(),
            old(log).deep_view(),
        ),
{
    let ghost all = rules.deep_view();
    let ghost start = log.deep_view();
    let mut i: usize = 0;
    while i < rules.len()
        invariant
            i <= rules@.len(),
            all == rules.deep_view(),
            log.deep_view() == create_lines(all.take(i as int), registry.deep_view(), start),
        decreases rules@.len() - i,
    {
        assert(all.take(i + 1).drop_last() =~= all.take(i as int));
        assert(all.take(i + 1).last() == rules@[i as int].deep_view());
        show_rule(&rules[i], registry, log);
        i = i + 1;
    }
    assert(all.take(i as int) =~= all);
}

fn show_disks(disks: &Vec<DiskYaml>, registry: &Registry, log: &mut Vec<Note<String>>)
    ensures
        final(log).deep_view() == disk_lines(disks.deep_view(), registry.deep_view(), old(log).deep_view()),
{
    let ghost all = disks.deep_view();
    let ghost start = log.deep_view();
    let mut i: usize = 0;
    while i < disks.len()
        invariant
            i <= disks@.len(),
            all == disks.deep_view(),
            log.deep_view() == disk_lines(all.take(i as int), registry.deep_view(), start),
        decreases disks@.len() - i,
    {
        assert(all.take(i + 1).drop_last() =~= all.take(i as int));
        assert(all.take(i + 1).last() == disks@[i as int].deep_view());
        let d = &disks[i];
        if !registry.contains_key(d.name.as_str()) {
            say(
                log,
                cat7(
                    "  + ",
                    d.name.as_str(),
                    " (Size: ",
                    number(d.size).as_str(),
                    "GB, Node: ",
                    d.node.as_str(),
                    ")",
                ),
            );
        }
        i = i + 1;
    }
    assert(all.take(i as int) =~= all);
}

/// Start bringing a configuration about.
///
/// `state` is what was created before, `home` is the home directory, and with
/// `play` Kubernetes is provisioned in the end.
pub fn apply_config(
    setup: &Setup,
    state: State,
    home: &Option<String>,
    play: bool,
    auto_approve: bool,
    log: &mut Vec<Note<String>>,
) -> (r: Progress<Apply, String>)
    ensures
        (r.deep_view(), final(log).deep_view()) == apply_begin(
            setup.deep_view(),
            state.deep_view(),
            home.deep_view(),
            play,
            auto_approve,
            old(log).deep_view(),
        ),
        r matches Progress::Wait(m, _) ==> apply_wf(m.deep_view()),
{
    say(log, SETTINGS.to_owned());
    setup.describe(log);
    let common = setup.common();
    let rules = match resolve_rules(common) {
        Ok(rules) => rules,
        Err(e) => return Progress::Failed(e.message()),
    };
    let disks = clone_disks(&common.disks);
    let nodes = targets(&rules);
    assert(nodes.deep_view().len() == nodes.len());
    let wanted = names(&nodes);
    let wanted_disks = names_of_disks(&disks);
    let doomed_vms = state.instances.not_in(&wanted);
    let doomed_disks = state.disks.not_in(&wanted_disks);
    let vms_wanted = count_missing(&wanted, &state.instances);
    let disks_wanted = count_missing(&wanted_disks, &state.disks);
    let m = Apply {
        rules,
        disks,
        state,
        is_gcp: setup.is_gcp(),
        home: home.clone(),
        play,
        doomed_vms,
        doomed_disks,
        vms_wanted,
        disks_wanted,
        ssh_keys: "".to_owned(),
        created: 0,
        created_disks: 0,
        stage: ApplyStage::AskAll,
    };
    assert(m.doomed_vms.deep_view().len() == m.doomed_vms.len());
    assert(m.doomed_disks.deep_view().len() == m.doomed_disks.len());
    assert(m.rules.deep_view().len() == m.rules.len());
    assert(m.disks.deep_view().len() == m.disks.len());
    m.show_plan(log);
    if m.doomed_vms.len() == 0 && m.vms_wanted == 0 && m.doomed_disks.len() == 0 && m.disks_wanted == 0 {
        say(log, "All nodes and disks are already in the desired state. Nothing to do.".to_owned());
        m.connect()
    } else {
        say(log, m.summary());
        if auto_approve {
            m.connect()
        } else {
            Progress::Wait(m, Action::Confirm(APPLY_QUESTION.to_owned()))
        }
    }
}

impl Apply {
    fn show_plan(&self, log: &mut Vec<Note<String>>)
        ensures
            final(log).deep_view() == plan_lines(self.deep_view(), old(log).deep_view()),
    {
        say(log, "\n── Execution Plan ───────────────────────────────────────────────────────".to_owned());
        if self.doomed_vms.len() > 0 {
            say(log, "Instances to destroy:".to_owned());
            show_doomed(&self.doomed_vms, &self.state.instances, log);
        }
        if self.vms_wanted > 0 {
            say(log, "Instances to create:".to_owned());
            show_created(&self.rules, &self.state.instances, log);
        }
        if self.doomed_disks.len() > 0 {
            say(log, "Disks to destroy:".to_owned());
            show_doomed(&self.doomed_disks, &self.state.disks, log);
        }
        if self.disks_wanted > 0 {
            say(log, "Disks to create & attach:".to_owned());
            show_disks(&self.disks, &self.state.disks, log);
        }
    }

    fn summary(&self) -> (r: String)
        ensures
            r@ == summary_line(self.deep_view()),
    {
        let mut t = cat7(
            "\nSummary: ",
            number(self.vms_wanted as u64).as_str(),
            " instances to create, ",
            number(self.doomed_vms.len() as u64).as_str(),
            " instances to destroy, ",
            number(self.disks_wanted as u64).as_str(),
            " disks to create, ",
        );
        t.append(number(self.doomed_disks.len() as u64).as_str());
        t.append(" disks to destroy.");
        t
    }

    fn connect(self) -> (r: Progress<Apply, String>)
        ensures
            forall|log: Log| (r.deep_view(), log) == #[trigger] connect(self.deep_view(), log),
            r matches Progress::Wait(m, _) && m.deep_view() == (ApplyModel {
                stage: ApplyStage::Connecting,
                ..self.deep_view()
            }),
    {
        Progress::Wait(Apply { stage: ApplyStage::Connecting, ..self }, Action::Connect)
    }

    fn go(self, log: &mut Vec<Note<String>>) -> (r: Progress<Apply, String>)
        requires
            apply_wf(self.deep_view()),
            self.created == 0 && self.created_disks == 0,
        ensures
            (r.deep_view(), final(log).deep_view()) == apply_go(self.deep_view(), old(log).deep_view()),
            r matches Progress::Wait(m, _) ==> apply_wf(m.deep_view()),
    {
        proof {
            lemma_go_wf(self.deep_view(), 0, log.deep_view());
        }
        if self.doomed_disks.len() > 0 {
            say(log, "\n── Destroying Disks ─────────────────────────────────────────────────────".to_owned());
            self.drop_disk(0, log)
        } else {
            self.drop_vms(log)
        }
    }

    fn drop_disk(self, i: usize, log: &mut Vec<Note<String>>) -> (r: Progress<Apply, String>)
        ensures
            (r.deep_view(), final(log).deep_view()) == drop_disk(
                self.deep_view(),
                i as int,
                old(log).deep_view(),
            ),
    {
        if i < self.doomed_disks.len() {
            let name = self.doomed_disks[i].as_str();
            let id = self.state.disks.get_or_name(name);
            say(log, cat5("Destroying disk \"", name, "\" (ID: ", id.as_str(), ")..."));
            Progress::Wait(
                Apply { stage: ApplyStage::DestroyingDisk(i), ..self },
                Action::DestroyDisk(id),
            )
        } else {
            self.drop_vms(log)
        }
    }

    fn drop_vms(self, log: &mut Vec<Note<String>>) -> (r: Progress<Apply, String>)
        ensures
            (r.deep_view(), final(log).deep_view()) == drop_vms(self.deep_view(), old(log).deep_view()),
    {
        if self.doomed_vms.len() > 0 {
            say(log, "\n── Destroying Instances ─────────────────────────────────────────────────".to_owned());
            self.drop_vm(0, log)
        } else {
            self.create_vms(log)
        }
    }

    fn drop_vm(self, i: usize, log: &mut Vec<Note<String>>) -> (r: Progress<Apply, String>)
        ensures
            (r.deep_view(), final(log).deep_view()) == drop_vm(
                self.deep_view(),
                i as int,
                old(log).deep_view(),
            ),
    {
        if i < self.doomed_vms.len() {
            let name = self.doomed_vms[i].clone();
            say(log, cat3("Destroying instance \"", name.as_str(), "\"..."));
            let target = if self.is_gcp {
                name
            } else {
                self.state.instances.get_or_name(name.as_str())
            };
            Progress::Wait(
                Apply { stage: ApplyStage::DestroyingVm(i), ..self },
                Action::DestroyVm(target),
            )
        } else {
            self.create_vms(log)
        }
    }

    fn create_vms(self, log: &mut Vec<Note<String>>) -> (r: Progress<Apply, String>)
        ensures
            (r.deep_view(), final(log).deep_view()) == create_vms(self.deep_view(), old(log).deep_view()),
    {
        if self.vms_wanted > 0 {
            say(log, "\n── Creating Instances ───────────────────────────────────────────────────".to_owned());
            self.read_key(0, log)
        } else {
            self.create_disks(log)
        }
    }

    fn read_key(self, r: usize, log: &mut Vec<Note<String>>) -> (p: Progress<Apply, String>)
        ensures
            (p.deep_view(), final(log).deep_view()) == read_key(
                self.deep_view(),
                r as int,
                old(log).deep_view(),
            ),
    {
        if r < self.rules.len() {
            let path = expand_tilde(self.rules[r].merged.ssh_public_key.as_str(), &self.home);
            Progress::Wait(Apply { stage: ApplyStage::ReadingKey(r), ..self }, Action::ReadFile(path))
        } else {
            say(
                log,
                cat3(
                    "\n✓ ",
                    number(self.created as u64).as_str(),
                    " VM creation request(s) submitted successfully.",
                ),
            );
            self.create_disks(log)
        }
    }

    fn key_read(self, r: usize, event: Event<String>, log: &mut Vec<Note<String>>) -> (p: Progress<
        Apply,
        String,
    >)
        requires
            r < self.rules@.len(),
        ensures
            (p.deep_view(), final(log).deep_view()) == key_read(
                self.deep_view(),
                r as int,
                event.deep_view(),
                old(log).deep_view(),
            ),
    {
        let read = match event {
            Event::Output(content) => Ok(content),
            Event::Failed(e) => Err(e),
            _ => return Progress::Failed(OUT_OF_STEP.to_owned()),
        };
        let merged = &self.rules[r].merged;
        let path = expand_tilde(merged.ssh_public_key.as_str(), &self.home);
        let ssh_keys = match read_ssh_public_key(path.as_str(), read) {
            Ok(key) => cat3(merged.user.as_str(), ":", key.as_str()),
            Err(e) => {
                warn(log, cat2("  ⚠ Could not read SSH public key: ", e.as_str()));
                "".to_owned()
            },
        };
        Apply { ssh_keys, ..self }.create_from(r, 0, log)
    }

    fn vm_request(&self, r: usize, k: usize) -> (q: VmRequest<String>)
        requires
            r < self.rules@.len(),
            k < self.rules@[r as int].nodes@.len(),
        ensures
            q.deep_view() == vm_request(self.deep_view(), r as int, k as int),
    {
        let rule = &self.rules[r];
        VmRequest {
            name: rule.nodes[k].clone(),
            machine_type: rule.merged.machine_type.clone(),
            boot_disk_image: rule.merged.boot_disk_image.clone(),
            boot_disk_size_gb: rule.merged.boot_disk_size,
            ssh_keys: self.ssh_keys.clone(),
            startup_script: rule.merged.script.clone(),
            public_ip: rule.merged.ip_address == IpAddressType::Public,
        }
    }

    fn create_from(self, r: usize, k: usize, log: &mut Vec<Note<String>>) -> (p: Progress<Apply, String>)
        requires
            r < self.rules@.len(),
        ensures
            (p.deep_view(), final(log).deep_view()) == create_from(
                self.deep_view(),
                r as int,
                k as int,
                old(log).deep_view(),
            ),
    {
        let ghost m = self.deep_view();
        let ghost start = log.deep_view();
        let mut j: usize = k;
        while j < self.rules[r].nodes.len()
            invariant
                r < self.rules@.len(),
                m == self.deep_view(),
                log.deep_view() == start,
                start == old(log).deep_view(),
                create_from(m, r as int, k as int, start) == create_from(m, r as int, j as int, start),
            decreases self.rules@[r as int].nodes@.len() - j,
        {
            assert(m.rules[r as int].nodes[j as int] == self.rules@[r as int].nodes@[j as int]@);
            if !self.state.instances.contains_key(self.rules[r].nodes[j].as_str()) {
                say(log, cat3("\nCreating instance \"", self.rules[r].nodes[j].as_str(), "\"..."));
                let request = self.vm_request(r, j);
                return Progress::Wait(
                    Apply { stage: ApplyStage::Creating(r, j), ..self },
                    Action::CreateVm(request),
                );
            }
            j = j + 1;
        }
        assert(self.rules@.len() == self.rules.len());
        self.read_key(r + 1, log)
    }

    fn vm_created(self, r: usize, k: usize, id: String, log: &mut Vec<Note<String>>) -> (p: Progress<
        Apply,
        String,
    >)
        requires
            r < self.rules@.len(),
            k < self.rules@[r as int].nodes@.len(),
        ensures
            (p.deep_view(), final(log).deep_view()) == vm_created(
                self.deep_view(),
                r as int,
                k as int,
                id@,
                old(log).deep_view(),
            ),
    {
        let name = self.rules[r].nodes[k].clone();
        say(log, cat4("Instance \"", name.as_str(), "\" created with ID: ", id.as_str()));
        let State { instances, disks } = self.state;
        let mut instances = instances;
        instances.insert(name, id);
        Progress::Wait(
            Apply { stage: ApplyStage::Created(r, k), state: State { instances, disks }, ..self },
            Action::Save,
        )
    }

    fn create_disks(self, log: &mut Vec<Note<String>>) -> (r: Progress<Apply, String>)
        ensures
            (r.deep_view(), final(log).deep_view()) == create_disks(self.deep_view(), old(log).deep_view()),
    {
        if self.disks_wanted > 0 {
            say(log, "\n── Creating & Attaching Disks ───────────────────────────────────────────".to_owned());
            self.disk_from(0, log)
        } else {
            self.end(log)
        }
    }

    fn disk_from(self, i: usize, log: &mut Vec<Note<String>>) -> (r: Progress<Apply, String>)
        ensures
            (r.deep_view(), final(log).deep_view()) == disk_from(
                self.deep_view(),
                i as int,
                old(log).deep_view(),
            ),
    {
        let ghost m = self.deep_view();
        let ghost start = log.deep_view();
        let mut j: usize = i;
        while j < self.disks.len()
            invariant
                m == self.deep_view(),
                log.deep_view() == start,
                start == old(log).deep_view(),
                disk_from(m, i as int, start) == disk_from(m, j as int, start),
            decreases self.disks@.len() - j,
        {
            assert(m.disks[j as int] == self.disks@[j as int].deep_view());
            if !self.state.disks.contains_key(self.disks[j].name.as_str()) {
                say(log, cat3("\nCreating disk \"", self.disks[j].name.as_str(), "\"..."));
                let action = Action::CreateDisk {
                    name: self.disks[j].name.clone(),
                    size_gb: self.disks[j].size,
                };
                return Progress::Wait(Apply { stage: ApplyStage::CreatingDisk(j), ..self }, action);
            }
            j = j + 1;
        }
        say(
            log,
            cat3(
                "\n✓ ",
                number(self.created_disks as u64).as_str(),
                " disk(s) created and attachment requested.",
            ),
        );
        self.end(log)
    }

    fn disk_created(self, i: usize, id: String, log: &mut Vec<Note<String>>) -> (r: Progress<Apply, String>)
        requires
            i < self.disks@.len(),
        ensures
            (r.deep_view(), final(log).deep_view()) == disk_created(
                self.deep_view(),
                i as int,
                id@,
                old(log).deep_view(),
            ),
    {
        let name = self.disks[i].name.clone();
        say(log, cat4("Disk \"", name.as_str(), "\" created with ID: ", id.as_str()));
        let State { instances, disks } = self.state;
        let mut disks = disks;
        disks.insert(name, id);
        Progress::Wait(
            Apply { stage: ApplyStage::DiskCreated(i), state: State { instances, disks }, ..self },
            Action::Save,
        )
    }

    fn attach(self, i: usize, log: &mut Vec<Note<String>>) -> (r: Progress<Apply, String>)
        requires
            i < self.disks@.len(),
        ensures
            (r.deep_view(), final(log).deep_view()) == attach(
                self.deep_view(),
                i as int,
                old(log).deep_view(),
            ),
    {
        let d = &self.disks[i];
        assert(self.disks@.len() == self.disks.len());
        match self.state.instances.get(d.node.as_str()) {
            Some(instance) => {
                say(
                    log,
                    cat5("Attaching disk \"", d.name.as_str(), "\" to node \"", d.node.as_str(), "\"..."),
                );
                let disk = self.state.disks.get_or_name(d.name.as_str());
                Progress::Wait(
                    Apply { stage: ApplyStage::Attaching(i), ..self },
                    Action::AttachDisk { disk, instance },
                )
            },
            None => {
                say(
                    log,
                    cat5(
                        "⚠ Cannot attach disk \"",
                        d.name.as_str(),
                        "\": Target node \"",
                        d.node.as_str(),
                        "\" not found in state.",
                    ),
                );
                self.disk_from(i + 1, log)
            },
        }
    }

    fn end(self, log: &mut Vec<Note<String>>) -> (r: Progress<Apply, String>)
        ensures
            (r.deep_view(), final(log).deep_view()) == apply_end(self.deep_view(), old(log).deep_view()),
    {
        if self.play {
            say(log, "\n── --play flag set: handing off to play ────────────────────────────────".to_owned());
            Progress::Wait(Apply { stage: ApplyStage::Playing, ..self }, Action::Play)
        } else {
            Progress::Done
        }
    }

    fn step_deleting(self, event: Event<String>, log: &mut Vec<Note<String>>) -> (p: Progress<Apply, String>)
        requires
            apply_wf(self.deep_view()),
            self.stage is DestroyingDisk || self.stage is DiskDestroyed || self.stage is DestroyingVm
                || self.stage is VmDestroyed,
        ensures
            (p.deep_view(), final(log).deep_view()) == apply_next(
                self.deep_view(),
                event.deep_view(),
                old(log).deep_view(),
            ),
    {
        match (self.stage, event) {
            (ApplyStage::DestroyingDisk(i), Event::Finished) => {
                let name = self.doomed_disks[i].clone();
                say(log, cat3("Disk \"", name.as_str(), "\" destroyed."));
                let State { instances, disks } = self.state;
                let mut disks = disks;
                disks.remove(name.as_str());
                Progress::Wait(
                    Apply {
                        stage: ApplyStage::DiskDestroyed(i),
                        state: State { instances, disks },
                        ..self
                    },
                    Action::Save,
                )
            },
            (ApplyStage::DestroyingDisk(i), Event::Failed(e)) => {
                warn(
                    log,
                    cat4("  ⚠ Failed to destroy disk ", self.doomed_disks[i].as_str(), ": ", e.as_str()),
                );
                self.drop_disk(i + 1, log)
            },
            (ApplyStage::DiskDestroyed(i), Event::Finished) => self.drop_disk(i + 1, log),
            (ApplyStage::DiskDestroyed(_), Event::Failed(e)) => Progress::Failed(e),
            (ApplyStage::DestroyingVm(i), Event::Finished) => {
                let name = self.doomed_vms[i].clone();
                say(log, cat3("Instance \"", name.as_str(), "\" destroyed."));
                let State { instances, disks } = self.state;
                let mut instances = instances;
                instances.remove(name.as_str());
                Progress::Wait(
                    Apply {
                        stage: ApplyStage::VmDestroyed(i),
                        state: State { instances, disks },
                        ..self
                    },
                    Action::Save,
                )
            },
            (ApplyStage::DestroyingVm(i), Event::Failed(e)) => {
                warn(
                    log,
                    cat4("  ⚠ Failed to destroy instance ", self.doomed_vms[i].as_str(), ": ", e.as_str()),
                );
                self.drop_vm(i + 1, log)
            },
            (ApplyStage::VmDestroyed(i), Event::Finished) => self.drop_vm(i + 1, log),
            (ApplyStage::VmDestroyed(_), Event::Failed(e)) => Progress::Failed(e),
            _ => Progress::Failed(OUT_OF_STEP.to_owned()),
        }
    }

    fn step_creating(self, event: Event<String>, log: &mut Vec<Note<String>>) -> (p: Progress<Apply, String>)
        requires
            apply_wf(self.deep_view()),
            self.stage is Creating || self.stage is Created,
        ensures
            (p.deep_view(), final(log).deep_view()) == apply_next(
                self.deep_view(),
                event.deep_view(),
                old(log).deep_view(),
            ),
    {
        match (self.stage, event) {
            (ApplyStage::Creating(r, k), Event::Output(reply)) => {
                let id = instance_id(reply.as_str());
                self.vm_created(r, k, id, log)
            },
            (ApplyStage::Creating(_, _), Event::Failed(e)) => Progress::Failed(e),
            (ApplyStage::Created(r, k), Event::Finished) => {
                proof {
                    lemma_nodes_before(self.deep_view().rules, r as int);
                }
                let created: usize = self.created + 1;
                Apply { created, ..self }.create_from(r, k + 1, log)
            },
            (ApplyStage::Created(_, _), Event::Failed(e)) => Progress::Failed(e),
            _ => Progress::Failed(OUT_OF_STEP.to_owned()),
        }
    }

    fn step_disks(self, event: Event<String>, log: &mut Vec<Note<String>>) -> (p: Progress<Apply, String>)
        requires
            apply_wf(self.deep_view()),
            self.stage is CreatingDisk || self.stage is DiskCreated || self.stage is Attaching,
        ensures
            (p.deep_view(), final(log).deep_view()) == apply_next(
                self.deep_view(),
                event.deep_view(),
                old(log).deep_view(),
            ),
    {
        match (self.stage, event) {
            (ApplyStage::CreatingDisk(i), Event::Output(id)) => self.disk_created(i, id, log),
            (ApplyStage::CreatingDisk(_), Event::Failed(e)) => Progress::Failed(e),
            (ApplyStage::DiskCreated(i), Event::Finished) => {
                let created_disks: usize = self.created_disks + 1;
                Apply { created_disks, ..self }.attach(i, log)
            },
            (ApplyStage::DiskCreated(_), Event::Failed(e)) => Progress::Failed(e),
            (ApplyStage::Attaching(i), Event::Finished) => {
                say(
                    log,
                    cat3("Successfully requested attach for \"", self.disks[i].name.as_str(), "\"."),
                );
                self.disk_from(i + 1, log)
            },
            (ApplyStage::Attaching(i), Event::Failed(e)) => {
                warn(
                    log,
                    cat4("  ⚠ Failed to attach disk \"", self.disks[i].name.as_str(), "\": ", e.as_str()),
                );
                self.disk_from(i + 1, log)
            },
            _ => Progress::Failed(OUT_OF_STEP.to_owned()),
        }
    }

    /// Take the outcome of the action that was asked for.
    pub fn step(self, event: Event<String>, log: &mut Vec<Note<String>>) -> (p: Progress<Apply, String>)
        requires
            apply_wf(self.deep_view()),
        ensures
            (p.deep_view(), final(log).deep_view()) == apply_next(
                self.deep_view(),
                event.deep_view(),
                old(log).deep_view(),
            ),
            p matches Progress::Wait(m, _) ==> apply_wf(m.deep_view()),
    {
        proof {
            law_apply_stays_well_formed(self.deep_view(), event.deep_view(), log.deep_view());
        }
        match self.stage {
            ApplyStage::AskAll => match event {
                Event::Answer(yes) => if yes {
                    self.connect()
                } else {
                    say(log, "Aborted.".to_owned());
                    Progress::Done
                },
                _ => Progress::Failed(OUT_OF_STEP.to_owned()),
            },
            ApplyStage::Connecting => match event {
                Event::Finished => self.go(log),
                Event::Failed(e) => Progress::Failed(e),
                _ => Progress::Failed(OUT_OF_STEP.to_owned()),
            },
            ApplyStage::DestroyingDisk(_) => self.step_deleting(event, log),
            ApplyStage::DiskDestroyed(_) => self.step_deleting(event, log),
            ApplyStage::DestroyingVm(_) => self.step_deleting(event, log),
            ApplyStage::VmDestroyed(_) => self.step_deleting(event, log),
            ApplyStage::ReadingKey(r) => self.key_read(r, event, log),
            ApplyStage::Creating(_, _) => self.step_creating(event, log),
            ApplyStage::Created(_, _) => self.step_creating(event, log),
            ApplyStage::CreatingDisk(_) => self.step_disks(event, log),
            ApplyStage::DiskCreated(_) => self.step_disks(event, log),
            ApplyStage::Attaching(_) => self.step_disks(event, log),
            ApplyStage::Playing => match event {
                Event::Finished => Progress::Done,
                Event::Failed(e) => Progress::Failed(e),
                _ => Progress::Failed(OUT_OF_STEP.to_owned()),
            },
        }
    }
}

/// Work that starts, or goes on, does so for the configuration, the state and
/// the wishes that it was given, and with the action that belongs to its stage.
pub proof fn law_work_is_as_ordered(
    setup: &Setup,
    state: State,
    home: &Option<String>,
    play: bool,
    auto_approve: bool,
    log: &mut Vec<Note<String>>,
    begun: Progress<Apply, String>,
    apply: Apply,
    event: Event<String>,
    later: &mut Vec<Note<String>>,
    next: Progress<Apply, String>,
)
    requires
        call_ensures(apply_config, (setup, state, home, play, auto_approve, log), begun),
        apply_wf(apply.deep_view()),
        call_ensures(Apply::step, (apply, event, later), next),
    ensures
        begun matches Progress::Wait(m, a) ==> {
            &&& m.state.deep_view() == state.deep_view()
            &&& m.play == play
            &&& m.home.deep_view() == home.deep_view()
            &&& m.is_gcp == setup.deep_view().is_gcp
            &&& resolved_rules(setup.deep_view().common.rules, setup.deep_view().common) == Ok::<
                Seq<ResolvedModel>,
                RuleFault,
            >(m.rules.deep_view())
            &&& auto_approve ==> a is Connect
        },
        next matches Progress::Wait(m, a) ==> {
            &&& same_plan(apply.deep_view(), m.deep_view())
            &&& asks_rightly(m.deep_view(), a.deep_view())
        },
{
    law_apply_starts_from_configuration(
        setup.deep_view(),
        state.deep_view(),
        home.deep_view(),
        play,
        auto_approve,
        old(log).deep_view(),
    );
    law_apply_asks_rightly(apply.deep_view(), event.deep_view(), old(later).deep_view());
    if let Progress::Wait(m, a) = begun {
        assert(m.deep_view().state == m.state.deep_view());
        assert(m.deep_view().play == m.play);
        assert(m.deep_view().home == m.home.deep_view());
        assert(m.deep_view().is_gcp == m.is_gcp);
        assert(m.deep_view().rules == m.rules.deep_view());
        if auto_approve {
            assert(a.deep_view() is Connect);
        }
    }
}

} // verus!
