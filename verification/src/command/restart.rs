//! `restart`: reboot every node.

use vstd::prelude::*;

use crate::command::sweep::{
    law_sweep_starts_from_rules, lies_beside, node_route, reboot_orders, sweep, sweep_begin,
    sweep_next, sweep_wf, Sweep, SweepModel, SweepStage, REBOOT_COMMAND,
};
use crate::command::{leads, node_count};
use crate::provider::{LoadedModel, LoadedProvider};
use crate::registry::{known, Entries, Registry};
use crate::rule::resolved_rules;
use crate::session::{say, warn, Action, Event, Log, Note, Progress};
use crate::text::{cat3, cat4, contains, has_part};

verus! {

/// Start rebooting all nodes of a configuration. Nodes go by the identifiers
/// in `instances`, and one without an identifier is an error.
pub fn restart_config(
    loaded: &LoadedProvider,
    instances: Registry,
    home: &Option<String>,
    auto_approve: bool,
    log: &mut Vec<Note<String>>,
) -> (r: Progress<Sweep, String>)
    ensures
        (r.deep_view(), final(log).deep_view()) == sweep_begin(
            true,
            loaded.deep_view(),
            Some(instances.deep_view()),
            home.deep_view(),
            auto_approve,
            old(log).deep_view(),
        ),
        r matches Progress::Wait(m, _) ==> sweep_wf(m.deep_view()),
{
    sweep(true, loaded, Some(instances), home, auto_approve, log)
}

/// A restart that starts goes by the identifiers it was given, over every node
/// of every rule, as the user of the first rule for control-plane groups and
/// with the private key beside that rule's public key. It asks before it goes
/// ahead unless it was approved beforehand.
pub proof fn law_restart_starts_from_rules(
    loaded: &LoadedProvider,
    instances: Registry,
    home: &Option<String>,
    auto_approve: bool,
    log: &mut Vec<Note<String>>,
    r: Progress<Sweep, String>,
)
    requires
        call_ensures(restart_config, (loaded, instances, home, auto_approve, log), r),
    ensures
        r matches Progress::Wait(m, _) ==> (resolved_rules(
            loaded.deep_view().common.rules,
            loaded.deep_view().common,
        ) matches Ok(rules) && {
            &&& m.restart
            &&& m.instances matches Some(given) && given.deep_view() == instances.deep_view()
            &&& m.auto == auto_approve
            &&& m.nodes@.len() == node_count(rules)
            &&& exists|first: int| #[trigger]
                leads(rules, first) && m.user@ == rules[first].merged.user && lies_beside(
                    m.key@,
                    rules[first].merged.ssh_public_key,
                    home.deep_view(),
                )
        }),
{
    law_sweep_starts_from_rules(
        true,
        loaded.deep_view(),
        Some(instances.deep_view()),
        home.deep_view(),
        auto_approve,
        0,
        0,
        old(log).deep_view(),
    );
    if let Progress::Wait(m, _) = r {
        assert(m.deep_view().nodes.len() == m.nodes@.len());
        assert(m.deep_view().instances == Some(instances.deep_view()));
    }
}

/// What the operator reads about the reboot of one node. A connection that
/// the reboot closed is no failure.
pub open spec fn reboot_note(name: Seq<char>, failure: Option<Seq<char>>) -> Note<Seq<char>> {
    match failure {
        None => Note::Say("  ✓ "@ + name + " reboot initiated."@),
        Some(e) => if has_part(e, "status"@) || has_part(e, "exited"@) {
            Note::Say("  ✓ "@ + name + " reboot initiated (connection closed)."@)
        } else {
            Note::Warn("  ✗ Failed to restart "@ + name + ": "@ + e)
        },
    }
}

/// What the operator reads about the first `n` nodes.
pub open spec fn reboot_notes(
    names: Seq<(Seq<char>, bool)>,
    failures: Seq<Option<Seq<char>>>,
    n: nat,
    log: Log,
) -> Log
    decreases n,
{
    if n == 0 {
        log
    } else {
        reboot_notes(names, failures, (n - 1) as nat, log).push(reboot_note(names[n - 1].0, failures[n - 1]))
    }
}

/// What the operator reads once all nodes were told to reboot.
pub open spec fn reported(m: SweepModel, failures: Seq<Option<Seq<char>>>, log: Log) -> Log {
    reboot_notes(m.nodes, failures, m.nodes.len(), log).push(
        Note::Say("\n✓ Restart signals sent to all nodes."@),
    ).push(Note::Say("  Nodes will be available again in 1-2 minutes."@))
}

/// Once a restart is approved, every node gets one order, which is to reboot and
/// goes to it by its route; and whatever came of the orders, the restart ends in
/// success.
pub proof fn law_restart_succeeds(m: SweepModel, failures: Seq<Option<Seq<char>>>, log: Log)
    requires
        sweep_wf(m),
        m.restart,
        m.stage is AskAll,
        failures.len() == m.nodes.len(),
    ensures
        sweep_next(m, Event::Answer(true), log) matches (Progress::Wait(n, a), told) && {
            &&& a is Broadcast
            &&& sweep_wf(n)
            &&& n.stage is Rebooting
            &&& reboot_orders(n).len() == m.nodes.len()
            &&& forall|i: int|
                0 <= i < m.nodes.len() ==> #[trigger] reboot_orders(n)[i] == (Action::Run {
                    ip: m.ips[i],
                    jump: node_route(m, i),
                    command: REBOOT_COMMAND@,
                })
            &&& sweep_next(n, Event::Finished, reported(n, failures, told)) == (
                Progress::<SweepModel, Seq<char>>::Done,
                reported(n, failures, told),
            )
        },
{
}

/// Whether every node whose address was asked for has an identifier.
pub open spec fn all_identified(m: SweepModel) -> bool {
    match m.instances {
        Some(entries) => forall|i: int|
            0 <= i < m.nodes.len() && (m.stage matches SweepStage::Fetching(k) ==> i <= k) ==> known(
                entries,
                (#[trigger] m.nodes[i]).0,
            ),
        None => false,
    }
}

/// No node is rebooted unless all have an identifier: a restart asks for the
/// address of each node by its identifier, and gives up where there is none.
pub proof fn law_restart_needs_identifiers(
    loaded: LoadedModel,
    entries: Entries,
    home: Option<Seq<char>>,
    auto: bool,
    m: SweepModel,
    event: Event<Seq<char>>,
    log: Log,
)
    ensures
        sweep_begin(true, loaded, Some(entries), home, auto, log).0 matches Progress::Wait(n, _)
            ==> all_identified(n),
        sweep_wf(m) && all_identified(m) ==> (sweep_next(m, event, log).0 matches Progress::Wait(n, a) ==> {
            &&& all_identified(n)
            &&& n.nodes == m.nodes
            &&& n.instances == m.instances
            &&& a is Broadcast ==> forall|i: int|
                0 <= i < n.nodes.len() ==> known(m.instances->0, (#[trigger] n.nodes[i]).0)
        }),
        (m.stage matches SweepStage::Fetching(i) && i + 1 < m.nodes.len() && m.instances is Some && !known(
            m.instances->0,
            m.nodes[i + 1].0,
        )) ==> sweep_next(m, event, log).0 is Failed,
{
}

/// The report has one line for each node, in order: a success where nothing
/// failed or where the failure speaks of a status or of an exit, as it does
/// when the reboot closes the connection, and else a warning with the reason.
/// Two more lines follow, and nothing that was there before is changed.
pub proof fn law_every_reboot_reported(m: SweepModel, failures: Seq<Option<Seq<char>>>, i: int, log: Log)
    requires
        0 <= i < m.nodes.len(),
        failures.len() == m.nodes.len(),
    ensures
        reported(m, failures, log).len() == log.len() + m.nodes.len() + 2,
        log.is_prefix_of(reported(m, failures, log)),
        match failures[i] {
            None => reported(m, failures, log)[log.len() + i] == Note::Say(
                "  ✓ "@ + m.nodes[i].0 + " reboot initiated."@,
            ),
            Some(e) => if has_part(e, "status"@) || has_part(e, "exited"@) {
                reported(m, failures, log)[log.len() + i] == Note::Say(
                    "  ✓ "@ + m.nodes[i].0 + " reboot initiated (connection closed)."@,
                )
            } else {
                reported(m, failures, log)[log.len() + i] == Note::Warn(
                    "  ✗ Failed to restart "@ + m.nodes[i].0 + ": "@ + e,
                )
            },
        },
{
    lemma_reboot_notes(m.nodes, failures, m.nodes.len(), i, log);
    let notes = reboot_notes(m.nodes, failures, m.nodes.len(), log);
    let all = reported(m, failures, log);
    assert(all.take(log.len() as int) =~= notes.take(log.len() as int));
    assert(all.subrange(0, log.len() as int) =~= log);
}

proof fn lemma_reboot_notes(
    names: Seq<(Seq<char>, bool)>,
    failures: Seq<Option<Seq<char>>>,
    n: nat,
    i: int,
    log: Log,
)
    ensures
        reboot_notes(names, failures, n, log).len() == log.len() + n,
        reboot_notes(names, failures, n, log).take(log.len() as int) == log,
        0 <= i < n ==> reboot_notes(names, failures, n, log)[log.len() + i] == reboot_note(names[i].0, failures[i]),
    decreases n,
{
    if n > 0 {
        lemma_reboot_notes(names, failures, (n - 1) as nat, i, log);
        let before = reboot_notes(names, failures, (n - 1) as nat, log);
        assert(reboot_notes(names, failures, n, log).take(log.len() as int) =~= before.take(log.len() as int));
    } else {
        assert(log.take(log.len() as int) =~= log);
    }
}

/// The order that each node gets is the command `sudo reboot`. It goes
/// straight to a node that is reached by its public address and through the
/// jump host to any other.
pub proof fn law_each_node_gets_its_reboot(m: SweepModel, i: int)
    requires
        0 <= i < m.nodes.len(),
    ensures
        reboot_orders(m).len() == m.nodes.len(),
        reboot_orders(m)[i] == (Action::Run {
            ip: m.ips[i],
            jump: if m.nodes[i].1 {
                None
            } else {
                m.jump
            },
            command: "sudo reboot"@,
        }),
{
}

impl Sweep {
    /// Report what came of rebooting all nodes: for each node nothing, or why
    /// it failed.
    pub fn report(&self, failures: &Vec<Option<String>>, log: &mut Vec<Note<String>>)
        requires
            failures@.len() == self.deep_view().nodes.len(),
        ensures
            final(log).deep_view() == reported(
                self.deep_view(),
                failures.deep_view(),
                old(log).deep_view(),
            ),
    {
        let ghost start = log.deep_view();
        let ghost names = self.nodes.deep_view();
        let ghost all = failures.deep_view();
        let mut i: usize = 0;
        while i < failures.len()
            invariant
                i <= failures@.len() == self.nodes@.len(),
                names == self.nodes.deep_view(),
                all == failures.deep_view(),
                log.deep_view() == reboot_notes(names, all, i as nat, start),
            decreases failures@.len() - i,
        {
            let name = self.nodes[i].0.as_str();
            assert(all[i as int] == failures@[i as int].deep_view());
            match &failures[i] {
                None => say(log, cat3("  ✓ ", name, " reboot initiated.")),
                Some(e) => if contains(e.as_str(), "status") || contains(e.as_str(), "exited") {
                    say(log, cat3("  ✓ ", name, " reboot initiated (connection closed)."));
                } else {
                    warn(log, cat4("  ✗ Failed to restart ", name, ": ", e.as_str()));
                },
            }
            i = i + 1;
        }
        say(log, "\n✓ Restart signals sent to all nodes.".to_owned());
        say(log, "  Nodes will be available again in 1-2 minutes.".to_owned());
    }
}

} // verus!
