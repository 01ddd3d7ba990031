//! `destroy`: delete all instances of a configuration, and all its disks.

use vstd::prelude::*;

use crate::command::{settings, show_settings};
use crate::provider::{LoadedModel, LoadedProvider};
use crate::registry::{id_or_name, known, law_without, lookup, without, Entries};
use crate::session::{
    below, kept, say, warn, Action, Event, Log, Note, Progress, AUTO_APPROVED, OUT_OF_STEP,
};
use crate::state::{State, StateModel};
use crate::structs::{GroupModel, GroupYaml};
use crate::text::{cat2, cat3, cat4, cat5, cat6, cat7, contains, decimal, has_part, number};

verus! {

// ---------------------------------------------------------------------------
// State
// ---------------------------------------------------------------------------

/// A node with the group it belongs to.
pub struct Member<S> {
    pub group: S,
    pub group_type: S,
    pub node: S,
}

impl<S: DeepView> DeepView for Member<S> {
    type V = Member<S::V>;

    open spec fn deep_view(&self) -> Member<S::V> {
        Member {
            group: self.group.deep_view(),
            group_type: self.group_type.deep_view(),
            node: self.node.deep_view(),
        }
    }
}

pub type MemberModel = Member<Seq<char>>;

/// Where the deletion stands. Positions count nodes or disks.
pub enum DestroyStage<S> {
    /// May everything be deleted?
    AskAll,
    /// Which instance is a disk attached to?
    Attached(usize),
    /// May a disk be detached from this instance?
    AskDetach(usize, S),
    Detaching(usize),
    DestroyingVm(usize),
    DestroyingDisk(usize),
    Saving,
}

impl<S: DeepView> DeepView for DestroyStage<S> {
    type V = DestroyStage<S::V>;

    open spec fn deep_view(&self) -> DestroyStage<S::V> {
        match *self {
            DestroyStage::AskAll => DestroyStage::AskAll,
            DestroyStage::Attached(i) => DestroyStage::Attached(i),
            DestroyStage::AskDetach(i, s) => DestroyStage::AskDetach(i, s.deep_view()),
            DestroyStage::Detaching(i) => DestroyStage::Detaching(i),
            DestroyStage::DestroyingVm(i) => DestroyStage::DestroyingVm(i),
            DestroyStage::DestroyingDisk(i) => DestroyStage::DestroyingDisk(i),
            DestroyStage::Saving => DestroyStage::Saving,
        }
    }
}

/// The deletion of everything that a configuration stands for.
pub struct Destroy {
    pub members: Vec<Member<String>>,
    /// The disks that were known at the start.
    pub disks: Vec<(String, String)>,
    pub state: State,
    pub auto: bool,
    pub stage: DestroyStage<String>,
}

pub struct DestroyModel {
    pub members: Seq<MemberModel>,
    pub disks: Entries,
    pub state: StateModel,
    pub auto: bool,
    pub stage: DestroyStage<Seq<char>>,
}

impl DeepView for Destroy {
    type V = DestroyModel;

    open spec fn deep_view(&self) -> DestroyModel {
        DestroyModel {
            members: self.members.deep_view(),
            disks: self.disks.deep_view(),
            state: self.state.deep_view(),
            auto: self.auto,
            stage: self.stage.deep_view(),
        }
    }
}

pub type DestroyStep = (Progress<DestroyModel, Seq<char>>, Log);

/// The position in the stage is that of a node, or of a disk.
pub open spec fn destroy_wf(m: DestroyModel) -> bool {
    match m.stage {
        DestroyStage::Attached(i) => i < m.disks.len(),
        DestroyStage::AskDetach(i, _) => i < m.disks.len(),
        DestroyStage::Detaching(i) => i < m.disks.len(),
        DestroyStage::DestroyingVm(i) => i < m.members.len(),
        DestroyStage::DestroyingDisk(i) => i < m.disks.len(),
        _ => true,
    }
}

// ---------------------------------------------------------------------------
// Nodes
// ---------------------------------------------------------------------------

/// The nodes of one group.
pub open spec fn group_members(group: GroupModel) -> Seq<MemberModel> {
    group.node.map_values(
        |n: Seq<char>| Member { group: group.name, group_type: group.group_type, node: n },
    )
}

/// The nodes of all groups in order.
pub open spec fn all_members(groups: Seq<GroupModel>) -> Seq<MemberModel>
    decreases groups.len(),
{
    if groups.len() == 0 {
        Seq::empty()
    } else {
        all_members(groups.drop_last()) + group_members(groups.last())
    }
}

/// The lines that show the nodes.
pub open spec fn member_lines(members: Seq<MemberModel>, log: Log) -> Log
    decreases members.len(),
{
    if members.len() == 0 {
        log
    } else {
        let m = members.last();
        member_lines(members.drop_last(), log).push(
            Note::Say("  ["@ + m.group_type + "] "@ + m.group + "  →  "@ + m.node),
        )
    }
}

// ---------------------------------------------------------------------------
// Transitions
// ---------------------------------------------------------------------------

pub const DESTROY_QUESTION: &'static str = "\nProceed with destroying all VM instances and disks?";

/// The deletion starts: everything that will be deleted is shown, and the
/// operator is asked.
pub open spec fn destroy_begin(loaded: LoadedModel, state: StateModel, auto: bool, log: Log) -> DestroyStep {
    let members = all_members(loaded.common.groups);
    let m = DestroyModel { members, disks: state.disks, state, auto, stage: DestroyStage::AskAll };
    let told = member_lines(
        members,
        settings(loaded, log).push(
            Note::Say("\n── Instances to destroy ─────────────────────────────────────────────────"@),
        ),
    ).push(Note::Say(""@)).push(
        Note::Say(
            "⚠  This action is IRREVERSIBLE. "@ + decimal(members.len()) + " VM instance(s) and "@ + decimal(
                state.disks.len(),
            ),
        ),
    ).push(Note::Say("   attached disk(s) will be permanently deleted."@));
    if auto {
        destroy_go(m, told.push(Note::Say(DESTROY_QUESTION@ + AUTO_APPROVED@)))
    } else {
        (Progress::Wait(m, Action::Confirm(DESTROY_QUESTION@)), told)
    }
}

/// Approved: look at the disks first, where there are any.
pub open spec fn destroy_go(m: DestroyModel, log: Log) -> DestroyStep {
    if m.disks.len() > 0 {
        check_disk(
            m,
            0,
            log.push(
                Note::Say("\n── Pre-Destruction Checks ───────────────────────────────────────────────"@),
            ),
        )
    } else {
        destroy_vm(m, 0, log)
    }
}

/// Disk `i` is next to be looked at.
pub open spec fn check_disk(m: DestroyModel, i: int, log: Log) -> DestroyStep {
    if i < m.disks.len() {
        (
            Progress::Wait(
                DestroyModel { stage: DestroyStage::Attached(i as usize), ..m },
                Action::AttachedInstance(m.disks[i].1),
            ),
            log.push(Note::Say("Checking if disk \""@ + m.disks[i].0 + "\" needs to be detached..."@)),
        )
    } else {
        destroy_vm(m, 0, log)
    }
}

/// Disk `i` is attached to an instance: detach it, with approval.
pub open spec fn attached(m: DestroyModel, i: int, instance: Seq<char>, log: Log) -> DestroyStep {
    let name = m.disks[i].0;
    let question = "Detach disk \""@ + name + "\" from instance \""@ + instance + "\"?"@;
    let told = log.push(Note::Say("Disk \""@ + name + "\" is attached to instance ID \""@ + instance + "\"."@));
    if m.auto {
        detach(m, i, instance, told.push(Note::Say(question + AUTO_APPROVED@)))
    } else {
        (
            Progress::Wait(
                DestroyModel { stage: DestroyStage::AskDetach(i as usize, instance), ..m },
                Action::Confirm(question),
            ),
            told,
        )
    }
}

/// Disk `i` is detached.
pub open spec fn detach(m: DestroyModel, i: int, instance: Seq<char>, log: Log) -> DestroyStep {
    (
        Progress::Wait(
            DestroyModel { stage: DestroyStage::Detaching(i as usize), ..m },
            Action::DetachDisk { disk: m.disks[i].1, instance },
        ),
        log.push(Note::Say("Detaching disk \""@ + m.disks[i].0 + "\"..."@)),
    )
}

/// Node `i` is next to be deleted.
pub open spec fn destroy_vm(m: DestroyModel, i: int, log: Log) -> DestroyStep {
    if i < m.members.len() {
        (
            Progress::Wait(
                DestroyModel { stage: DestroyStage::DestroyingVm(i as usize), ..m },
                Action::DestroyVm(id_or_name(m.state.instances, m.members[i].node)),
            ),
            log,
        )
    } else if m.state.disks.len() > 0 {
        destroy_disk(
            m,
            0,
            log.push(
                Note::Say("\n── Disks to destroy ─────────────────────────────────────────────────────"@),
            ),
        )
    } else {
        destroy_save(m, log)
    }
}

/// `m` without the instance of node `i`.
pub open spec fn vm_gone(m: DestroyModel, i: int) -> DestroyModel {
    DestroyModel {
        state: StateModel { instances: without(m.state.instances, m.members[i].node), ..m.state },
        ..m
    }
}

/// `m` without disk `i`.
pub open spec fn disk_gone(m: DestroyModel, i: int) -> DestroyModel {
    DestroyModel {
        state: StateModel { disks: without(m.state.disks, m.disks[i].0), ..m.state },
        ..m
    }
}

/// Disk `i` is next to be deleted.
pub open spec fn destroy_disk(m: DestroyModel, i: int, log: Log) -> DestroyStep {
    if i < m.disks.len() {
        (
            Progress::Wait(
                DestroyModel { stage: DestroyStage::DestroyingDisk(i as usize), ..m },
                Action::DestroyDisk(m.disks[i].1),
            ),
            log,
        )
    } else {
        destroy_save(m, log)
    }
}

/// Everything was gone over: save what is left.
pub open spec fn destroy_save(m: DestroyModel, log: Log) -> DestroyStep {
    (Progress::Wait(DestroyModel { stage: DestroyStage::Saving, ..m }, Action::Save), log)
}

/// Whether a failure means that what should be deleted is not there.
pub open spec fn not_found(e: Seq<char>) -> bool {
    has_part(e, "404"@)
}

/// How a line about node `i` begins.
pub open spec fn member_label(m: DestroyModel, i: int) -> Seq<char> {
    "\n["@ + m.members[i].group_type + "/"@ + m.members[i].group + "] "@ + m.members[i].node
}

/// What the deletion does when it is told the outcome of its action.
pub open spec fn destroy_next(m: DestroyModel, event: Event<Seq<char>>, log: Log) -> DestroyStep {
    match (m.stage, event) {
        (DestroyStage::AskAll, Event::Answer(yes)) => if yes {
            destroy_go(m, log)
        } else {
            (Progress::Done, log.push(Note::Say("Aborted — nothing was deleted."@)))
        },
        (DestroyStage::Attached(i), Event::Output(instance)) => attached(m, i as int, instance, log),
        (DestroyStage::Attached(i), Event::Finished) => check_disk(m, i + 1, log),
        (DestroyStage::Attached(i), Event::Failed(_)) => check_disk(m, i + 1, log),
        (DestroyStage::AskDetach(i, instance), Event::Answer(yes)) => if yes {
            detach(m, i as int, instance, log)
        } else {
            check_disk(m, i + 1, log)
        },
        (DestroyStage::Detaching(i), Event::Finished) => check_disk(
            m,
            i + 1,
            log.push(Note::Say("Disk \""@ + m.disks[i as int].0 + "\" detached."@)),
        ),
        (DestroyStage::Detaching(i), Event::Failed(e)) => check_disk(
            m,
            i + 1,
            log.push(Note::Warn("  ⚠ Failed to detach disk "@ + m.disks[i as int].0 + ": "@ + e)),
        ),
        (DestroyStage::DestroyingVm(i), Event::Finished) => destroy_vm(
            vm_gone(m, i as int),
            i + 1,
            log.push(Note::Say(member_label(m, i as int) + " deleted"@)),
        ),
        (DestroyStage::DestroyingVm(i), Event::Failed(e)) => if not_found(e) {
            destroy_vm(
                vm_gone(m, i as int),
                i + 1,
                log.push(Note::Say(member_label(m, i as int) + " not found (already deleted)"@)),
            )
        } else {
            destroy_vm(
                m,
                i + 1,
                log.push(Note::Warn("  ✗ Failed to delete "@ + m.members[i as int].node + ": "@ + e)),
            )
        },
        (DestroyStage::DestroyingDisk(i), Event::Finished) => destroy_disk(
            disk_gone(m, i as int),
            i + 1,
            log.push(Note::Say("  [Disk] "@ + m.disks[i as int].0 + " deleted"@)),
        ),
        (DestroyStage::DestroyingDisk(i), Event::Failed(e)) => if not_found(e) {
            destroy_disk(
                disk_gone(m, i as int),
                i + 1,
                log.push(Note::Say("  [Disk] "@ + m.disks[i as int].0 + " not found (already deleted)"@)),
            )
        } else {
            destroy_disk(
                m,
                i + 1,
                log.push(Note::Warn("  ✗ Failed to delete disk "@ + m.disks[i as int].0 + ": "@ + e)),
            )
        },
        (DestroyStage::Saving, Event::Finished) => destroy_end(log),
        (DestroyStage::Saving, Event::Failed(e)) => destroy_end(
            log.push(Note::Warn("\n⚠ Failed to save state file updates: "@ + e)),
        ),
        _ => (Progress::Failed(OUT_OF_STEP@), log),
    }
}

pub open spec fn destroy_end(log: Log) -> DestroyStep {
    (
        Progress::Done,
        log.push(
            Note::Say("\n✓ Deletion requests submitted. Operations may take a minute to complete."@),
        ),
    )
}

// ---------------------------------------------------------------------------
// Laws
// ---------------------------------------------------------------------------

/// The deletion stays well-formed.
pub proof fn law_destroy_stays_well_formed(m: DestroyModel, event: Event<Seq<char>>, log: Log)
    requires
        destroy_wf(m),
        m.members.len() <= usize::MAX,
        m.disks.len() <= usize::MAX,
    ensures
        destroy_next(m, event, log).0 matches Progress::Wait(n, _) ==> destroy_wf(n) && n.members == m.members
            && n.disks == m.disks,
{
}

/// Whether an action deletes or detaches something.
pub open spec fn is_deletion<S>(action: Action<S>) -> bool {
    action is DestroyVm || action is DestroyDisk || action is DetachDisk
}

/// Without blanket approval, nothing is deleted before the operator has
/// agreed; once they decline, the procedure is over.
pub proof fn law_destroy_needs_approval(loaded: LoadedModel, state: StateModel, m: DestroyModel, log: Log)
    requires
        m.stage == DestroyStage::<Seq<char>>::AskAll,
    ensures
        destroy_begin(loaded, state, false, log).0 matches Progress::Wait(n, a) && a == Action::Confirm(
            "\nProceed with destroying all VM instances and disks?"@,
        ) && n.stage == DestroyStage::<Seq<char>>::AskAll,
        destroy_next(m, Event::Answer(false), log).0 == Progress::<DestroyModel, Seq<char>>::Done,
        forall|event: Event<Seq<char>>|
            event != Event::<Seq<char>>::Answer(true) ==> ((#[trigger] destroy_next(m, event, log)).0
                matches Progress::Wait(_, a) ==> !is_deletion(a)),
{
}

/// With blanket approval no question is put.
pub proof fn law_destroy_auto_approve(m: DestroyModel, event: Event<Seq<char>>, log: Log)
    requires
        m.auto,
    ensures
        destroy_next(m, event, log).0 matches Progress::Wait(n, a) ==> !(a is Confirm) && n.auto,
{
}

/// How far the deletion is from its end.
pub open spec fn destroy_rank(m: DestroyModel) -> (nat, nat) {
    match m.stage {
        DestroyStage::AskAll => (4, 0),
        DestroyStage::Attached(i) => (3, (3 * (m.disks.len() - i)) as nat),
        DestroyStage::AskDetach(i, _) => (3, (3 * (m.disks.len() - i) - 1) as nat),
        DestroyStage::Detaching(i) => (3, (3 * (m.disks.len() - i) - 2) as nat),
        DestroyStage::DestroyingVm(i) => (2, (m.members.len() - i) as nat),
        DestroyStage::DestroyingDisk(i) => (1, (m.disks.len() - i) as nat),
        DestroyStage::Saving => (0, 0),
    }
}

/// The deletion comes to an end: every step takes it nearer.
pub proof fn law_destroy_ends(m: DestroyModel, event: Event<Seq<char>>, log: Log)
    requires
        destroy_wf(m),
        m.members.len() <= usize::MAX,
        m.disks.len() <= usize::MAX,
    ensures
        destroy_next(m, event, log).0 matches Progress::Wait(n, _) ==> below(destroy_rank(n), destroy_rank(m)),
{
}

/// No node is passed over: the deletion goes from each node to the next, from
/// the first to the last.
pub proof fn law_every_node_deleted(m: DestroyModel, event: Event<Seq<char>>, log: Log)
    requires
        destroy_wf(m),
        m.members.len() <= usize::MAX,
        m.disks.len() <= usize::MAX,
    ensures
        destroy_next(m, event, log).0 matches Progress::Wait(n, a) ==> {
            &&& m.stage matches DestroyStage::DestroyingVm(i) ==> n.stage == DestroyStage::<
                Seq<char>,
            >::DestroyingVm((i + 1) as usize) || i + 1 == m.members.len()
            &&& n.stage matches DestroyStage::DestroyingVm(i) ==> {
                &&& a == Action::DestroyVm(id_or_name(n.state.instances, n.members[i as int].node))
                &&& i == 0 || m.stage == DestroyStage::<Seq<char>>::DestroyingVm((i - 1) as usize)
            }
        },
{
}

/// Every node and disk that was gone over is forgotten.
pub open spec fn gone_so_far(m: DestroyModel) -> bool {
    match m.stage {
        DestroyStage::DestroyingVm(i) => forall|j: int|
            0 <= j < i && j < m.members.len() ==> !known(m.state.instances, (#[trigger] m.members[j]).node),
        DestroyStage::DestroyingDisk(i) => {
            &&& forall|j: int|
                0 <= j < m.members.len() ==> !known(m.state.instances, (#[trigger] m.members[j]).node)
            &&& forall|j: int| 0 <= j < i && j < m.disks.len() ==> !known(m.state.disks, (#[trigger] m.disks[j]).0)
        },
        DestroyStage::Saving => {
            &&& forall|j: int|
                0 <= j < m.members.len() ==> !known(m.state.instances, (#[trigger] m.members[j]).node)
            &&& forall|j: int| 0 <= j < m.disks.len() ==> !known(m.state.disks, (#[trigger] m.disks[j]).0)
        },
        _ => true,
    }
}

/// Whether the outcome of a deletion means that what was deleted is gone.
pub open spec fn gone(event: Event<Seq<char>>) -> bool {
    event is Finished || (event matches Event::Failed(e) && not_found(e))
}

proof fn lemma_vm_forgotten(m: DestroyModel, i: int)
    requires
        0 <= i < m.members.len(),
        forall|j: int| 0 <= j < i ==> !known(m.state.instances, (#[trigger] m.members[j]).node),
    ensures
        forall|j: int|
            0 <= j < i + 1 ==> !known(vm_gone(m, i).state.instances, (#[trigger] m.members[j]).node),
{
    assert forall|j: int| 0 <= j < i + 1 implies !known(
        vm_gone(m, i).state.instances,
        (#[trigger] m.members[j]).node,
    ) by {
        law_without(m.state.instances, m.members[i].node, m.members[j].node);
    }
}

proof fn lemma_disk_forgotten(m: DestroyModel, i: int)
    requires
        0 <= i < m.disks.len(),
        forall|j: int| 0 <= j < i ==> !known(m.state.disks, (#[trigger] m.disks[j]).0),
    ensures
        forall|j: int| 0 <= j < i + 1 ==> !known(disk_gone(m, i).state.disks, (#[trigger] m.disks[j]).0),
{
    assert forall|j: int| 0 <= j < i + 1 implies !known(
        disk_gone(m, i).state.disks,
        (#[trigger] m.disks[j]).0,
    ) by {
        law_without(m.state.disks, m.disks[i].0, m.disks[j].0);
    }
}

/// As long as everything that should be deleted is gone, or turns out to be
/// gone already, it is forgotten: in the end the state knows no node of the
/// configuration and no disk that it knew at the start.
pub proof fn law_destroyed_is_forgotten(m: DestroyModel, event: Event<Seq<char>>, log: Log)
    requires
        destroy_wf(m),
        gone_so_far(m),
        m.stage is DestroyingVm || m.stage is DestroyingDisk ==> gone(event),
    ensures
        destroy_next(m, event, log).0 matches Progress::Wait(n, _) ==> gone_so_far(n),
{
    match m.stage {
        DestroyStage::DestroyingVm(i) => lemma_vm_forgotten(m, i as int),
        DestroyStage::DestroyingDisk(i) => lemma_disk_forgotten(m, i as int),
        _ => {},
    }
}

/// What was not deleted is remembered: a failure other than one that means
/// that nothing is there leaves the state alone.
pub proof fn law_failure_is_remembered(m: DestroyModel, e: Seq<char>, log: Log)
    requires
        !not_found(e),
    ensures
        destroy_next(m, Event::Failed(e), log).0 matches Progress::Wait(n, _) ==> n.state == m.state,
{
}

/// How many nodes the groups have together.
pub open spec fn member_count(groups: Seq<GroupModel>) -> nat
    decreases groups.len(),
{
    if groups.len() == 0 {
        0
    } else {
        member_count(groups.drop_last()) + groups.last().node.len()
    }
}

proof fn lemma_members(groups: Seq<GroupModel>, g: int, k: int)
    ensures
        all_members(groups).len() == member_count(groups),
        0 <= g < groups.len() && 0 <= k < groups[g].node.len() ==> {
            let i = member_count(groups.take(g)) + k;
            &&& i < all_members(groups).len()
            &&& all_members(groups)[i].group == groups[g].name
            &&& all_members(groups)[i].group_type == groups[g].group_type
            &&& all_members(groups)[i].node == groups[g].node[k]
        },
    decreases groups.len(),
{
    if groups.len() > 0 {
        let front = groups.drop_last();
        lemma_members(front, g, k);
        if 0 <= g < front.len() {
            assert(front.take(g) =~= groups.take(g));
        } else if g == front.len() {
            assert(groups.take(g) =~= front);
        }
    }
}

/// The deletion starts with every node of every group of the configuration,
/// each behind those of the groups before its own and with its group's name
/// and type, and with nothing else; and with every disk that the state knows.
pub proof fn law_destroy_starts_with_everything(
    loaded: LoadedModel,
    state: StateModel,
    auto: bool,
    g: int,
    k: int,
    log: Log,
)
    ensures
        destroy_begin(loaded, state, auto, log).0 matches Progress::Wait(n, _) && {
            let groups = loaded.common.groups;
            &&& n.members.len() == member_count(groups)
            &&& 0 <= g < groups.len() && 0 <= k < groups[g].node.len() ==> {
                let i = member_count(groups.take(g)) + k;
                &&& i < n.members.len()
                &&& n.members[i].group == groups[g].name
                &&& n.members[i].group_type == groups[g].group_type
                &&& n.members[i].node == groups[g].node[k]
            }
            &&& n.disks == state.disks
            &&& n.state == state
            &&& n.auto == auto
        },
{
    lemma_members(loaded.common.groups, g, k);
}

/// Every node of every group is one of those that the deletion starts with.
pub proof fn law_no_node_spared(
    loaded: LoadedModel,
    state: StateModel,
    auto: bool,
    g: int,
    k: int,
    log: Log,
)
    requires
        0 <= g < loaded.common.groups.len(),
        0 <= k < loaded.common.groups[g].node.len(),
    ensures
        destroy_begin(loaded, state, auto, log).0 matches Progress::Wait(n, _) && n.members.contains(
            Member {
                group: loaded.common.groups[g].name,
                group_type: loaded.common.groups[g].group_type,
                node: loaded.common.groups[g].node[k],
            },
        ),
{
    let groups = loaded.common.groups;
    lemma_members(groups, g, k);
    let member = all_members(groups)[member_count(groups.take(g)) + k];
    assert(member == (Member {
        group: groups[g].name,
        group_type: groups[g].group_type,
        node: groups[g].node[k],
    }));
    assert(all_members(groups).contains(member));
}

/// What is asked of the provider is about the node or the disk at hand: nodes
/// are deleted by their identifiers, disks are looked at, detached and deleted
/// by theirs, and a disk is detached from the instance that it is attached to.
pub proof fn law_destroy_names_what_is_at_hand(m: DestroyModel, event: Event<Seq<char>>, log: Log)
    requires
        destroy_wf(m),
        m.members.len() <= usize::MAX,
        m.disks.len() <= usize::MAX,
    ensures
        destroy_next(m, event, log).0 matches Progress::Wait(n, a) ==> {
            &&& n.auto == m.auto
            &&& match n.stage {
                DestroyStage::AskAll => false,
                DestroyStage::Attached(i) => a == Action::AttachedInstance(m.disks[i as int].1),
                DestroyStage::AskDetach(i, instance) => a == Action::Confirm(
                    "Detach disk \""@ + m.disks[i as int].0 + "\" from instance \""@ + instance + "\"?"@,
                ) && m.stage == DestroyStage::<Seq<char>>::Attached(i) && event == Event::Output(instance),
                DestroyStage::Detaching(i) => a matches Action::DetachDisk { disk, instance } && disk
                    == m.disks[i as int].1 && ((m.stage == DestroyStage::<Seq<char>>::Attached(i) && event
                    == Event::Output(instance)) || (m.stage == DestroyStage::AskDetach(i, instance) && event
                    == Event::<Seq<char>>::Answer(true))),
                DestroyStage::DestroyingVm(i) => a == Action::DestroyVm(
                    match lookup(n.state.instances, m.members[i as int].node) {
                        Some(id) => id,
                        None => m.members[i as int].node,
                    },
                ),
                DestroyStage::DestroyingDisk(i) => a == Action::DestroyDisk(m.disks[i as int].1),
                DestroyStage::Saving => a is Save,
            }
        },
{
}

/// No disk is passed over: each one is looked at before the first node is
/// deleted, and each one is deleted after the last node, unless the state
/// knows of no disk.
pub proof fn law_every_disk_deleted(m: DestroyModel, event: Event<Seq<char>>, log: Log)
    requires
        destroy_wf(m),
        m.members.len() <= usize::MAX,
        m.disks.len() <= usize::MAX,
    ensures
        destroy_next(m, event, log).0 matches Progress::Wait(n, _) ==> {
            let disk_before = match m.stage {
                DestroyStage::Attached(i) => Some(i),
                DestroyStage::AskDetach(i, _) => Some(i),
                DestroyStage::Detaching(i) => Some(i),
                _ => None,
            };
            &&& m.stage == DestroyStage::<Seq<char>>::AskAll && m.disks.len() > 0 ==> n.stage == DestroyStage::<
                Seq<char>,
            >::Attached(0)
            &&& m.stage == DestroyStage::<Seq<char>>::AskAll && m.disks.len() == 0 && m.members.len() > 0
                ==> n.stage == DestroyStage::<Seq<char>>::DestroyingVm(0)
            &&& disk_before matches Some(i) ==> match n.stage {
                DestroyStage::Attached(j) => j == i + 1,
                DestroyStage::AskDetach(j, _) => j == i,
                DestroyStage::Detaching(j) => j == i,
                _ => i + 1 == m.disks.len(),
            }
            &&& disk_before is Some && m.members.len() > 0 ==> !(n.stage is DestroyingDisk) && !(n.stage is Saving)
            &&& m.stage is DestroyingVm && !(n.stage is DestroyingVm) ==> (if n.state.disks.len() > 0
                && m.disks.len() > 0 {
                n.stage == DestroyStage::<Seq<char>>::DestroyingDisk(0)
            } else {
                n.stage is Saving
            })
            &&& m.stage matches DestroyStage::DestroyingDisk(i) ==> (if i + 1 < m.disks.len() {
                n.stage == DestroyStage::<Seq<char>>::DestroyingDisk((i + 1) as usize)
            } else {
                n.stage is Saving
            })
        },
{
}

/// A disk that is attached is detached, with approval; one that is not, one
/// that nobody can tell of and one whose detaching is declined are passed over.
/// A failure stops nothing, not even a failure to save.
pub proof fn law_attached_disks_are_detached(m: DestroyModel, i: usize, instance: Seq<char>, e: Seq<char>, log: Log)
    requires
        destroy_wf(m),
        m.disks.len() <= usize::MAX,
        m.members.len() <= usize::MAX,
    ensures
        m.stage == DestroyStage::<Seq<char>>::Attached(i) ==> (destroy_next(m, Event::Output(instance), log).0
            matches Progress::Wait(n, _) && (if m.auto {
            n.stage == DestroyStage::<Seq<char>>::Detaching(i)
        } else {
            n.stage == DestroyStage::AskDetach(i, instance)
        })) && (destroy_next(m, Event::Finished, log).0 matches Progress::Wait(n, a) && !(a is DetachDisk))
            && (destroy_next(m, Event::Failed(e), log).0 matches Progress::Wait(n, a) && !(a is DetachDisk)),
        m.stage is AskDetach ==> (destroy_next(m, Event::Answer(true), log).0 matches Progress::Wait(_, a)
            && a is DetachDisk) && (destroy_next(m, Event::Answer(false), log).0 matches Progress::Wait(_, a)
            && !(a is DetachDisk)),
        m.stage is Detaching || m.stage is DestroyingVm || m.stage is DestroyingDisk ==> destroy_next(
            m,
            Event::Failed(e),
            log,
        ).0 is Wait && destroy_next(m, Event::Finished, log).0 is Wait,
        m.stage is Saving ==> destroy_next(m, Event::Failed(e), log).0 is Done && destroy_next(
            m,
            Event::Finished,
            log,
        ).0 is Done,
        m.stage is AskAll ==> destroy_next(m, Event::Answer(true), log).0 is Wait,
{
}

/// The nodes are shown before the operator is asked, each with its group and
/// the type of that, in order; then come an empty line and the numbers of nodes
/// and disks.
pub proof fn law_destroy_shows_every_node(loaded: LoadedModel, state: StateModel, k: int, log: Log)
    ensures
        ({
            let (r, told) = destroy_begin(loaded, state, false, log);
            let start = settings(loaded, log).len() + 1;
            &&& r matches Progress::Wait(n, _) && {
                &&& told.len() == start + n.members.len() + 3
                &&& 0 <= k < n.members.len() ==> told[start + k] == Note::Say(
                    "  ["@ + n.members[k].group_type + "] "@ + n.members[k].group + "  →  "@ + n.members[k].node,
                )
                &&& told[start as int + n.members.len() + 1] == Note::Say(
                    "⚠  This action is IRREVERSIBLE. "@ + decimal(member_count(loaded.common.groups))
                        + " VM instance(s) and "@ + decimal(state.disks.len()),
                )
            }
        }),
{
    let members = all_members(loaded.common.groups);
    let start = settings(loaded, log).push(
        Note::Say("\n── Instances to destroy ─────────────────────────────────────────────────"@),
    );
    lemma_members(loaded.common.groups, 0, 0);
    lemma_member_lines(members, k, start);
}

proof fn lemma_member_lines(members: Seq<MemberModel>, k: int, log: Log)
    ensures
        member_lines(members, log).len() == log.len() + members.len(),
        0 <= k < members.len() ==> member_lines(members, log)[log.len() + k] == Note::Say(
            "  ["@ + members[k].group_type + "] "@ + members[k].group + "  →  "@ + members[k].node,
        ),
    decreases members.len(),
{
    if members.len() > 0 {
        lemma_member_lines(members.drop_last(), k, log);
    }
}

/// No line that the operator was told is ever taken back, and each outcome is
/// told by name: what was detached or deleted, what was gone already, and what
/// could not be, with the reason.
pub proof fn law_destroy_tells_each_outcome(m: DestroyModel, event: Event<Seq<char>>, e: Seq<char>, log: Log)
    requires
        destroy_wf(m),
    ensures
        kept(log, destroy_next(m, event, log).1),
        m.stage matches DestroyStage::Attached(i) ==> kept(
            log.push(
                Note::Say("Disk \""@ + m.disks[i as int].0 + "\" is attached to instance ID \""@ + e + "\"."@),
            ),
            destroy_next(m, Event::Output(e), log).1,
        ),
        m.stage matches DestroyStage::Detaching(i) ==> kept(
            log.push(Note::Say("Disk \""@ + m.disks[i as int].0 + "\" detached."@)),
            destroy_next(m, Event::Finished, log).1,
        ) && kept(
            log.push(Note::Warn("  ⚠ Failed to detach disk "@ + m.disks[i as int].0 + ": "@ + e)),
            destroy_next(m, Event::Failed(e), log).1,
        ),
        m.stage matches DestroyStage::DestroyingVm(i) ==> {
            let node = m.members[i as int];
            let label = "\n["@ + node.group_type + "/"@ + node.group + "] "@ + node.node;
            &&& kept(log.push(Note::Say(label + " deleted"@)), destroy_next(m, Event::Finished, log).1)
            &&& has_part(e, "404"@) ==> kept(
                log.push(Note::Say(label + " not found (already deleted)"@)),
                destroy_next(m, Event::Failed(e), log).1,
            )
            &&& !has_part(e, "404"@) ==> kept(
                log.push(Note::Warn("  ✗ Failed to delete "@ + node.node + ": "@ + e)),
                destroy_next(m, Event::Failed(e), log).1,
            )
        },
        m.stage matches DestroyStage::DestroyingDisk(i) ==> {
            let disk = m.disks[i as int].0;
            &&& kept(
                log.push(Note::Say("  [Disk] "@ + disk + " deleted"@)),
                destroy_next(m, Event::Finished, log).1,
            )
            &&& has_part(e, "404"@) ==> kept(
                log.push(Note::Say("  [Disk] "@ + disk + " not found (already deleted)"@)),
                destroy_next(m, Event::Failed(e), log).1,
            )
            &&& !has_part(e, "404"@) ==> kept(
                log.push(Note::Warn("  ✗ Failed to delete disk "@ + disk + ": "@ + e)),
                destroy_next(m, Event::Failed(e), log).1,
            )
        },
        m.stage is Saving ==> kept(
            log.push(Note::Warn("\n⚠ Failed to save state file updates: "@ + e)),
            destroy_next(m, Event::Failed(e), log).1,
        ),
        m.disks.len() <= usize::MAX ==> (destroy_next(m, event, log).0 matches Progress::Wait(n, _) ==> match n.stage {
            DestroyStage::Attached(i) => destroy_next(m, event, log).1.last() == Note::Say(
                "Checking if disk \""@ + m.disks[i as int].0 + "\" needs to be detached..."@,
            ),
            DestroyStage::Detaching(i) => destroy_next(m, event, log).1.last() == Note::Say(
                "Detaching disk \""@ + m.disks[i as int].0 + "\"..."@,
            ),
            _ => true,
        }),
        destroy_next(m, event, log).0 is Done && !(m.stage is AskAll) ==> destroy_next(m, event, log).1.last()
            == Note::Say("\n✓ Deletion requests submitted. Operations may take a minute to complete."@),
        m.stage is AskAll ==> destroy_next(m, Event::Answer(false), log).1 == log.push(
            Note::Say("Aborted — nothing was deleted."@),
        ),
{
}

/// A node or a disk is forgotten if and only if it was deleted, or the failure
/// speaks of a 404. Nothing else is ever forgotten.
pub proof fn law_only_what_is_gone_is_forgotten(
    m: DestroyModel,
    event: Event<Seq<char>>,
    other: Seq<char>,
    log: Log,
)
    requires
        destroy_wf(m),
    ensures
        destroy_next(m, event, log).0 matches Progress::Wait(n, _) ==> {
            let is_gone = event is Finished || (event matches Event::Failed(e) && has_part(e, "404"@));
            match m.stage {
                DestroyStage::DestroyingVm(i) => {
                    let node = m.members[i as int].node;
                    &&& n.state.disks == m.state.disks
                    &&& is_gone ==> lookup(n.state.instances, node) is None
                    &&& is_gone && other != node ==> lookup(n.state.instances, other) == lookup(
                        m.state.instances,
                        other,
                    )
                    &&& !is_gone ==> n.state == m.state
                },
                DestroyStage::DestroyingDisk(i) => {
                    let disk = m.disks[i as int].0;
                    &&& n.state.instances == m.state.instances
                    &&& is_gone ==> lookup(n.state.disks, disk) is None
                    &&& is_gone && other != disk ==> lookup(n.state.disks, other) == lookup(m.state.disks, other)
                    &&& !is_gone ==> n.state == m.state
                },
                _ => n.state == m.state,
            }
        },
{
    match m.stage {
        DestroyStage::DestroyingVm(i) => law_without(m.state.instances, m.members[i as int].node, other),
        DestroyStage::DestroyingDisk(i) => law_without(m.state.disks, m.disks[i as int].0, other),
        _ => {},
    }
}

// ---------------------------------------------------------------------------
// Code
// ---------------------------------------------------------------------------

fn collect_members(groups: &Vec<GroupYaml>) -> (r: Vec<Member<String>>)
    ensures
        r.deep_view() == all_members(groups.deep_view()),
{
    let mut out: Vec<Member<String>> = Vec::new();
    let ghost all = groups.deep_view();
    let mut i: usize = 0;
    assert(out.deep_view() =~= all_members(all.take(0)));
    while i < groups.len()
        invariant
            i <= groups@.len(),
            all == groups.deep_view(),
            out.deep_view() == all_members(all.take(i as int)),
        decreases groups@.len() - i,
    {
        assert(all.take(i + 1).drop_last() =~= all.take(i as int));
        assert(all.take(i + 1).last() == groups@[i as int].deep_view());
        let group = &groups[i];
        let ghost start = out.deep_view();
        let ghost more = group_members(group.deep_view());
        let mut k: usize = 0;
        assert(start + more.take(0) =~= start);
        while k < group.node.len()
            invariant
                k <= group.node@.len(),
                more == group_members(group.deep_view()),
                out.deep_view() == start + more.take(k as int),
            decreases group.node@.len() - k,
        {
            let ghost before = out.deep_view();
            let member = Member {
                group: group.name.clone(),
                group_type: group.group_type.clone(),
                node: group.node[k].clone(),
            };
            out.push(member);
            assert(more[k as int] == member.deep_view());
            assert(out.deep_view() =~= before.push(more[k as int]));
            assert(more.take(k + 1) =~= more.take(k as int).push(more[k as int]));
            assert(out.deep_view() =~= start + more.take(k + 1));
            k = k + 1;
        }
        assert(more.take(k as int) =~= more);
        i = i + 1;
    }
    assert(all.take(i as int) =~= all);
    out
}

fn show_members(members: &Vec<Member<String>>, log: &mut Vec<Note<String>>)
    ensures
        final(log).deep_view() == member_lines(members.deep_view(), old(log).deep_view()),
{
    let ghost all = members.deep_view();
    let ghost start = log.deep_view();
    let mut i: usize = 0;
    while i < members.len()
        invariant
            i <= members@.len(),
            all == members.deep_view(),
            log.deep_view() == member_lines(all.take(i as int), start),
        decreases members@.len() - i,
    {
        assert(all.take(i + 1).drop_last() =~= all.take(i as int));
        assert(all.take(i + 1).last() == members@[i as int].deep_view());
        let m = &members[i];
        say(log, cat6("  [", m.group_type.as_str(), "] ", m.group.as_str(), "  →  ", m.node.as_str()));
        i = i + 1;
    }
    assert(all.take(i as int) =~= all);
}

/// Start deleting everything that a configuration stands for.
pub fn destroy_config(
    loaded: &LoadedProvider,
    state: State,
    auto_approve: bool,
    log: &mut Vec<Note<String>>,
) -> (r: Progress<Destroy, String>)
    ensures
        (r.deep_view(), final(log).deep_view()) == destroy_begin(
            loaded.deep_view(),
            state.deep_view(),
            auto_approve,
            old(log).deep_view(),
        ),
        r matches Progress::Wait(m, _) ==> destroy_wf(m.deep_view()),
{
    show_settings(loaded, log);
    say(log, "\n── Instances to destroy ─────────────────────────────────────────────────".to_owned());
    let members = collect_members(&loaded.common().groups);
    show_members(&members, log);
    let disks = state.disks.entries();
    assert(members.deep_view().len() == members@.len());
    assert(disks.deep_view().len() == disks@.len());
    say(log, "".to_owned());
    say(
        log,
        cat4(
            "⚠  This action is IRREVERSIBLE. ",
            number(members.len() as u64).as_str(),
            " VM instance(s) and ",
            number(disks.len() as u64).as_str(),
        ),
    );
    say(log, "   attached disk(s) will be permanently deleted.".to_owned());
    let m = Destroy { members, disks, state, auto: auto_approve, stage: DestroyStage::AskAll };
    if auto_approve {
        say(log, cat2(DESTROY_QUESTION, AUTO_APPROVED));
        m.go(log)
    } else {
        Progress::Wait(m, Action::Confirm(DESTROY_QUESTION.to_owned()))
    }
}

impl Destroy {
    fn go(self, log: &mut Vec<Note<String>>) -> (r: Progress<Destroy, String>)
        ensures
            (r.deep_view(), final(log).deep_view()) == destroy_go(self.deep_view(), old(log).deep_view()),
            r matches Progress::Wait(m, _) ==> destroy_wf(m.deep_view()),
    {
        if self.disks.len() > 0 {
            say(log, "\n── Pre-Destruction Checks ───────────────────────────────────────────────".to_owned());
            self.check_disk(0, log)
        } else {
            self.destroy_vm(0, log)
        }
    }

    fn check_disk(self, i: usize, log: &mut Vec<Note<String>>) -> (r: Progress<Destroy, String>)
        ensures
            (r.deep_view(), final(log).deep_view()) == check_disk(
                self.deep_view(),
                i as int,
                old(log).deep_view(),
            ),
            r matches Progress::Wait(m, _) ==> destroy_wf(m.deep_view()),
    {
        if i < self.disks.len() {
            say(log, cat3("Checking if disk \"", self.disks[i].0.as_str(), "\" needs to be detached..."));
            let action = Action::AttachedInstance(self.disks[i].1.clone());
            Progress::Wait(Destroy { stage: DestroyStage::Attached(i), ..self }, action)
        } else {
            self.destroy_vm(0, log)
        }
    }

    fn attached(self, i: usize, instance: String, log: &mut Vec<Note<String>>) -> (r: Progress<
        Destroy,
        String,
    >)
        requires
            i < self.disks@.len(),
        ensures
            (r.deep_view(), final(log).deep_view()) == attached(
                self.deep_view(),
                i as int,
                instance@,
                old(log).deep_view(),
            ),
            r matches Progress::Wait(m, _) ==> destroy_wf(m.deep_view()),
    {
        let name = self.disks[i].0.as_str();
        say(log, cat5("Disk \"", name, "\" is attached to instance ID \"", instance.as_str(), "\"."));
        let question = cat5("Detach disk \"", name, "\" from instance \"", instance.as_str(), "\"?");
        if self.auto {
            say(log, question.concat(AUTO_APPROVED));
            self.detach(i, instance, log)
        } else {
            Progress::Wait(
                Destroy { stage: DestroyStage::AskDetach(i, instance), ..self },
                Action::Confirm(question),
            )
        }
    }

    fn detach(self, i: usize, instance: String, log: &mut Vec<Note<String>>) -> (r: Progress<Destroy, String>)
        requires
            i < self.disks@.len(),
        ensures
            (r.deep_view(), final(log).deep_view()) == detach(
                self.deep_view(),
                i as int,
                instance@,
                old(log).deep_view(),
            ),
            r matches Progress::Wait(m, _) ==> destroy_wf(m.deep_view()),
    {
        say(log, cat3("Detaching disk \"", self.disks[i].0.as_str(), "\"..."));
        let action = Action::DetachDisk { disk: self.disks[i].1.clone(), instance };
        Progress::Wait(Destroy { stage: DestroyStage::Detaching(i), ..self }, action)
    }

    fn destroy_vm(self, i: usize, log: &mut Vec<Note<String>>) -> (r: Progress<Destroy, String>)
        ensures
            (r.deep_view(), final(log).deep_view()) == destroy_vm(
                self.deep_view(),
                i as int,
                old(log).deep_view(),
            ),
            r matches Progress::Wait(m, _) ==> destroy_wf(m.deep_view()),
    {
        if i < self.members.len() {
            let target = self.state.instances.get_or_name(self.members[i].node.as_str());
            Progress::Wait(
                Destroy { stage: DestroyStage::DestroyingVm(i), ..self },
                Action::DestroyVm(target),
            )
        } else if self.state.disks.len() > 0 {
            say(log, "\n── Disks to destroy ─────────────────────────────────────────────────────".to_owned());
            self.destroy_disk(0, log)
        } else {
            self.save()
        }
    }

    fn destroy_disk(self, i: usize, log: &mut Vec<Note<String>>) -> (r: Progress<Destroy, String>)
        ensures
            (r.deep_view(), final(log).deep_view()) == destroy_disk(
                self.deep_view(),
                i as int,
                old(log).deep_view(),
            ),
            r matches Progress::Wait(m, _) ==> destroy_wf(m.deep_view()),
    {
        if i < self.disks.len() {
            let action = Action::DestroyDisk(self.disks[i].1.clone());
            Progress::Wait(Destroy { stage: DestroyStage::DestroyingDisk(i), ..self }, action)
        } else {
            self.save()
        }
    }

    fn save(self) -> (r: Progress<Destroy, String>)
        ensures
            forall|log: Log| (r.deep_view(), log) == #[trigger] destroy_save(self.deep_view(), log),
            r matches Progress::Wait(m, _) ==> destroy_wf(m.deep_view()),
    {
        Progress::Wait(Destroy { stage: DestroyStage::Saving, ..self }, Action::Save)
    }

    fn vm_gone(self, i: usize) -> (r: Destroy)
        requires
            i < self.members@.len(),
        ensures
            r.deep_view() == vm_gone(self.deep_view(), i as int),
    {
        let Destroy { members, disks, state, auto, stage } = self;
        let State { instances, disks: known_disks } = state;
        let mut instances = instances;
        instances.remove(members[i].node.as_str());
        Destroy { members, disks, state: State { instances, disks: known_disks }, auto, stage }
    }

    fn disk_gone(self, i: usize) -> (r: Destroy)
        requires
            i < self.disks@.len(),
        ensures
            r.deep_view() == disk_gone(self.deep_view(), i as int),
    {
        let Destroy { members, disks, state, auto, stage } = self;
        let State { instances, disks: known_disks } = state;
        let mut known_disks = known_disks;
        known_disks.remove(disks[i].0.as_str());
        Destroy { members, disks, state: State { instances, disks: known_disks }, auto, stage }
    }

    fn label(&self, i: usize, end: &str) -> (r: String)
        requires
            i < self.members@.len(),
        ensures
            r@ == member_label(self.deep_view(), i as int) + end@,
    {
        let m = &self.members[i];
        cat7("\n[", m.group_type.as_str(), "/", m.group.as_str(), "] ", m.node.as_str(), end)
    }

    fn step_disks(self, event: Event<String>, log: &mut Vec<Note<String>>) -> (r: Progress<Destroy, String>)
        requires
            destroy_wf(self.deep_view()),
            self.stage is Attached || self.stage is AskDetach || self.stage is Detaching,
        ensures
            (r.deep_view(), final(log).deep_view()) == destroy_next(
                self.deep_view(),
                event.deep_view(),
                old(log).deep_view(),
            ),
            r matches Progress::Wait(m, _) ==> destroy_wf(m.deep_view()),
    {
        let Destroy { members, disks, state, auto, stage } = self;
        let m = Destroy { members, disks, state, auto, stage: DestroyStage::AskAll };
        assert(m.disks@.len() == m.disks.len());
        match (stage, event) {
            (DestroyStage::Attached(i), Event::Output(instance)) => m.attached(i, instance, log),
            (DestroyStage::Attached(i), Event::Finished) => m.check_disk(i + 1, log),
            (DestroyStage::Attached(i), Event::Failed(_)) => m.check_disk(i + 1, log),
            (DestroyStage::AskDetach(i, instance), Event::Answer(yes)) => if yes {
                m.detach(i, instance, log)
            } else {
                m.check_disk(i + 1, log)
            },
            (DestroyStage::Detaching(i), Event::Finished) => {
                say(log, cat3("Disk \"", m.disks[i].0.as_str(), "\" detached."));
                m.check_disk(i + 1, log)
            },
            (DestroyStage::Detaching(i), Event::Failed(e)) => {
                warn(log, cat4("  ⚠ Failed to detach disk ", m.disks[i].0.as_str(), ": ", e.as_str()));
                m.check_disk(i + 1, log)
            },
            _ => Progress::Failed(OUT_OF_STEP.to_owned()),
        }
    }

    fn step_vm(self, i: usize, event: Event<String>, log: &mut Vec<Note<String>>) -> (r: Progress<
        Destroy,
        String,
    >)
        requires
            destroy_wf(self.deep_view()),
            self.stage == DestroyStage::<String>::DestroyingVm(i),
        ensures
            (r.deep_view(), final(log).deep_view()) == destroy_next(
                self.deep_view(),
                event.deep_view(),
                old(log).deep_view(),
            ),
            r matches Progress::Wait(m, _) ==> destroy_wf(m.deep_view()),
    {
        assert(self.members@.len() == self.members.len());
        match event {
            Event::Finished => {
                say(log, self.label(i, " deleted"));
                self.vm_gone(i).destroy_vm(i + 1, log)
            },
            Event::Failed(e) => if contains(e.as_str(), "404") {
                say(log, self.label(i, " not found (already deleted)"));
                self.vm_gone(i).destroy_vm(i + 1, log)
            } else {
                warn(
                    log,
                    cat4("  ✗ Failed to delete ", self.members[i].node.as_str(), ": ", e.as_str()),
                );
                self.destroy_vm(i + 1, log)
            },
            _ => Progress::Failed(OUT_OF_STEP.to_owned()),
        }
    }

    fn step_disk(self, i: usize, event: Event<String>, log: &mut Vec<Note<String>>) -> (r: Progress<
        Destroy,
        String,
    >)
        requires
            destroy_wf(self.deep_view()),
            self.stage == DestroyStage::<String>::DestroyingDisk(i),
        ensures
            (r.deep_view(), final(log).deep_view()) == destroy_next(
                self.deep_view(),
                event.deep_view(),
                old(log).deep_view(),
            ),
            r matches Progress::Wait(m, _) ==> destroy_wf(m.deep_view()),
    {
        assert(self.disks@.len() == self.disks.len());
        match event {
            Event::Finished => {
                say(log, cat3("  [Disk] ", self.disks[i].0.as_str(), " deleted"));
                self.disk_gone(i).destroy_disk(i + 1, log)
            },
            Event::Failed(e) => if contains(e.as_str(), "404") {
                say(log, cat3("  [Disk] ", self.disks[i].0.as_str(), " not found (already deleted)"));
                self.disk_gone(i).destroy_disk(i + 1, log)
            } else {
                warn(
                    log,
                    cat4("  ✗ Failed to delete disk ", self.disks[i].0.as_str(), ": ", e.as_str()),
                );
                self.destroy_disk(i + 1, log)
            },
            _ => Progress::Failed(OUT_OF_STEP.to_owned()),
        }
    }

    /// Take the outcome of the action that was asked for.
    pub fn step(self, event: Event<String>, log: &mut Vec<Note<String>>) -> (r: Progress<Destroy, String>)
        requires
            destroy_wf(self.deep_view()),
        ensures
            (r.deep_view(), final(log).deep_view()) == destroy_next(
                self.deep_view(),
                event.deep_view(),
                old(log).deep_view(),
            ),
            r matches Progress::Wait(m, _) ==> destroy_wf(m.deep_view()),
    {
        match &self.stage {
            DestroyStage::AskAll => match event {
                Event::Answer(yes) => if yes {
                    self.go(log)
                } else {
                    say(log, "Aborted — nothing was deleted.".to_owned());
                    Progress::Done
                },
                _ => Progress::Failed(OUT_OF_STEP.to_owned()),
            },
            DestroyStage::Attached(_) => self.step_disks(event, log),
            DestroyStage::AskDetach(_, _) => self.step_disks(event, log),
            DestroyStage::Detaching(_) => self.step_disks(event, log),
            DestroyStage::DestroyingVm(i) => {
                let i: usize = *i;
                self.step_vm(i, event, log)
            },
            DestroyStage::DestroyingDisk(i) => {
                let i: usize = *i;
                self.step_disk(i, event, log)
            },
            DestroyStage::Saving => {
                match event {
                    Event::Finished => {},
                    Event::Failed(e) => {
                        warn(log, cat2("\n⚠ Failed to save state file updates: ", e.as_str()));
                    },
                    _ => return Progress::Failed(OUT_OF_STEP.to_owned()),
                }
                say(
                    log,
                    "\n✓ Deletion requests submitted. Operations may take a minute to complete.".to_owned(),
                );
                Progress::Done
            },
        }
    }
}

/// A deletion that starts is that of every node of the configuration and every
/// disk of the state, and nothing is forgotten yet. Without approval beforehand
/// it starts with the question.
pub proof fn law_deletion_is_as_ordered(
    loaded: &LoadedProvider,
    state: State,
    auto_approve: bool,
    log: &mut Vec<Note<String>>,
    begun: Progress<Destroy, String>,
    g: int,
    k: int,
)
    requires
        call_ensures(destroy_config, (loaded, state, auto_approve, log), begun),
    ensures
        begun matches Progress::Wait(m, a) && {
            &&& m.auto == auto_approve
            &&& m.members@.len() == member_count(loaded.deep_view().common.groups)
            &&& m.disks.deep_view() == state.disks.deep_view()
            &&& m.state.deep_view() == state.deep_view()
            &&& !auto_approve ==> a is Confirm && m.stage is AskAll
        },
{
    law_destroy_starts_with_everything(
        loaded.deep_view(),
        state.deep_view(),
        auto_approve,
        g,
        k,
        old(log).deep_view(),
    );
    if let Progress::Wait(m, a) = begun {
        assert(m.deep_view().auto == m.auto);
        assert(m.deep_view().members.len() == m.members@.len());
        assert(m.deep_view().disks == m.disks.deep_view());
        assert(m.deep_view().state == m.state.deep_view());
        if !auto_approve {
            assert(a.deep_view() is Confirm);
            assert(m.deep_view().stage is AskAll);
        }
    }
}

} // verus!
