//! `reset`: run `kubeadm reset` on every node.

use vstd::prelude::*;

use crate::command::sweep::{
    law_sweep_starts_from_rules, lies_beside, sweep, sweep_begin, sweep_wf, Sweep,
};
use crate::command::{leads, node_count};
use crate::provider::LoadedProvider;
use crate::rule::resolved_rules;
use crate::session::{Note, Progress};

verus! {

/// Start resetting all nodes of a configuration. Nodes go by their names.
pub fn reset_config(
    loaded: &LoadedProvider,
    home: &Option<String>,
    auto_approve: bool,
    log: &mut Vec<Note<String>>,
) -> (r: Progress<Sweep, String>)
    ensures
        (r.deep_view(), final(log).deep_view()) == sweep_begin(
            false,
            loaded.deep_view(),
            None,
            home.deep_view(),
            auto_approve,
            old(log).deep_view(),
        ),
        r matches Progress::Wait(m, _) ==> sweep_wf(m.deep_view()),
{
    sweep(false, loaded, None, home, auto_approve, log)
}

/// A reset that starts goes by names, over every node of every rule, as the
/// user of the first rule for control-plane groups and with the private key
/// beside that rule's public key. It asks before it goes ahead unless it was
/// approved beforehand.
pub proof fn law_reset_starts_from_rules(
    loaded: &LoadedProvider,
    home: &Option<String>,
    auto_approve: bool,
    log: &mut Vec<Note<String>>,
    r: Progress<Sweep, String>,
)
    requires
        call_ensures(reset_config, (loaded, home, auto_approve, log), r),
    ensures
        r matches Progress::Wait(m, _) ==> (resolved_rules(
            loaded.deep_view().common.rules,
            loaded.deep_view().common,
        ) matches Ok(rules) && {
            &&& !m.restart
            &&& m.instances is None
            &&& m.auto == auto_approve
            &&& m.nodes@.len() == node_count(rules)
            &&& exists|first: int| #[trigger]
                leads(rules, first) && m.user@ == rules[first].merged.user && lies_beside(
                    m.key@,
                    rules[first].merged.ssh_public_key,
                    home.deep_view(),
                )
        }),
{
    law_sweep_starts_from_rules(
        false,
        loaded.deep_view(),
        None,
        home.deep_view(),
        auto_approve,
        0,
        0,
        old(log).deep_view(),
    );
    if let Progress::Wait(m, _) = r {
        assert(m.deep_view().nodes.len() == m.nodes@.len());
    }
}

} // verus!
