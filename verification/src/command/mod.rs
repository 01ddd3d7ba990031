//! The commands, each as a procedure that hands out actions and takes their
//! outcomes.

use vstd::prelude::*;

use crate::ip::IpAddressType;
use crate::provider::{described, LoadedModel, LoadedProvider};
use crate::rule::{CommonResolvedRule, ResolvedModel};
use crate::session::{say, Log, Note};
use crate::text::{cat2, cat3, cat7, pad, padded, same};

pub mod apply;
pub mod destroy;
pub mod play;
pub mod reset;
pub mod restart;
pub mod sweep;

verus! {

// ---------------------------------------------------------------------------
// Headings
// ---------------------------------------------------------------------------

/// What every command says first.
pub open spec fn headed(title: Seq<char>, config_path: Seq<char>, log: Log) -> Log {
    log.push(Note::Say("=== Maglev "@ + title + " ===\n"@)).push(Note::Say("Reading config: "@ + config_path))
}

/// The banner above the description of the provider.
pub const SETTINGS: &'static str = "\n── Provider settings ────────────────────────────────────────────────────";

/// What every command says about its provider.
pub open spec fn settings(m: LoadedModel, log: Log) -> Log {
    described(m, log.push(Note::Say(SETTINGS@)))
}

/// A command starts by saying its name and which configuration it reads.
pub proof fn law_command_is_announced(title: Seq<char>, config_path: Seq<char>, log: Log)
    ensures
        headed(title, config_path, log) == log + seq![
            Note::Say("=== Maglev "@ + title + " ===\n"@),
            Note::Say("Reading config: "@ + config_path),
        ],
{
}

/// Say what a command says first; `title` is its name.
pub fn heading(title: &str, config_path: &str, log: &mut Vec<Note<String>>)
    ensures
        final(log).deep_view() == headed(title@, config_path@, old(log).deep_view()),
{
    say(log, cat3("=== Maglev ", title, " ===\n"));
    say(log, cat2("Reading config: ", config_path));
}

/// Describe the provider under a banner.
pub fn show_settings(loaded: &LoadedProvider, log: &mut Vec<Note<String>>)
    ensures
        final(log).deep_view() == settings(loaded.deep_view(), old(log).deep_view()),
{
    say(log, SETTINGS.to_owned());
    loaded.describe(log);
}

// ---------------------------------------------------------------------------
// Nodes
// ---------------------------------------------------------------------------

/// A node and whether it is reached by its public address.
pub type Target = (Seq<char>, bool);

/// The nodes of one rule.
pub open spec fn rule_targets(rule: ResolvedModel) -> Seq<Target> {
    rule.nodes.map_values(|n: Seq<char>| (n, rule.merged.ip_address == IpAddressType::Public))
}

/// The nodes of all rules in order.
pub open spec fn all_targets(rules: Seq<ResolvedModel>) -> Seq<Target>
    decreases rules.len(),
{
    if rules.len() == 0 {
        Seq::empty()
    } else {
        all_targets(rules.drop_last()) + rule_targets(rules.last())
    }
}

/// The nodes of all rules for groups of one type, in order.
pub open spec fn typed_targets(rules: Seq<ResolvedModel>, group_type: Seq<char>) -> Seq<Target>
    decreases rules.len(),
{
    if rules.len() == 0 {
        Seq::empty()
    } else if rules.last().group_type == group_type {
        typed_targets(rules.drop_last(), group_type) + rule_targets(rules.last())
    } else {
        typed_targets(rules.drop_last(), group_type)
    }
}

/// The first rule for control-plane groups.
pub open spec fn first_control_plane(rules: Seq<ResolvedModel>) -> Option<ResolvedModel>
    decreases rules.len(),
{
    if rules.len() == 0 {
        None
    } else {
        match first_control_plane(rules.drop_last()) {
            Some(rule) => Some(rule),
            None => if rules.last().group_type == "control-plane"@ {
                Some(rules.last())
            } else {
                None
            },
        }
    }
}

// ---------------------------------------------------------------------------
// Laws
// ---------------------------------------------------------------------------

/// How many nodes the rules have together.
pub open spec fn node_count(rules: Seq<ResolvedModel>) -> nat
    decreases rules.len(),
{
    if rules.len() == 0 {
        0
    } else {
        node_count(rules.drop_last()) + rules.last().nodes.len()
    }
}

/// How many nodes the rules for groups of one type have together.
pub open spec fn typed_count(rules: Seq<ResolvedModel>, group_type: Seq<char>) -> nat
    decreases rules.len(),
{
    if rules.len() == 0 {
        0
    } else if rules.last().group_type == group_type {
        typed_count(rules.drop_last(), group_type) + rules.last().nodes.len()
    } else {
        typed_count(rules.drop_last(), group_type)
    }
}

/// Every node of every rule has its place behind the nodes of the rules before
/// its own, and is reached the way its rule says. There are no other nodes.
pub proof fn law_every_node_is_a_target(rules: Seq<ResolvedModel>, r: int, k: int)
    ensures
        all_targets(rules).len() == node_count(rules),
        0 <= r < rules.len() && 0 <= k < rules[r].nodes.len() ==> {
            let i = node_count(rules.take(r)) + k;
            &&& i < all_targets(rules).len()
            &&& all_targets(rules)[i].0 == rules[r].nodes[k]
            &&& all_targets(rules)[i].1 == (rules[r].merged.ip_address == IpAddressType::Public)
        },
    decreases rules.len(),
{
    if rules.len() > 0 {
        let front = rules.drop_last();
        law_every_node_is_a_target(front, r, k);
        if 0 <= r < front.len() {
            assert(front.take(r) =~= rules.take(r));
        } else if r == front.len() {
            assert(rules.take(r) =~= front);
        }
    }
}

/// Every node of every rule for groups of one type has its place behind the
/// nodes of such rules before its own, and is reached the way its rule says.
/// There are no other nodes.
pub proof fn law_every_typed_node_is_a_target(rules: Seq<ResolvedModel>, group_type: Seq<char>, r: int, k: int)
    ensures
        typed_targets(rules, group_type).len() == typed_count(rules, group_type),
        0 <= r < rules.len() && rules[r].group_type == group_type && 0 <= k < rules[r].nodes.len() ==> {
            let i = typed_count(rules.take(r), group_type) + k;
            &&& i < typed_targets(rules, group_type).len()
            &&& typed_targets(rules, group_type)[i].0 == rules[r].nodes[k]
            &&& typed_targets(rules, group_type)[i].1 == (rules[r].merged.ip_address == IpAddressType::Public)
        },
    decreases rules.len(),
{
    if rules.len() > 0 {
        let front = rules.drop_last();
        law_every_typed_node_is_a_target(front, group_type, r, k);
        if 0 <= r < front.len() {
            assert(front.take(r) =~= rules.take(r));
        } else if r == front.len() {
            assert(rules.take(r) =~= front);
        }
    }
}

/// Whether rule `r` is the first one for control-plane groups.
pub open spec fn leads(rules: Seq<ResolvedModel>, r: int) -> bool {
    &&& 0 <= r < rules.len()
    &&& rules[r].group_type == "control-plane"@
    &&& forall|j: int| 0 <= j < r ==> (#[trigger] rules[j]).group_type != "control-plane"@
}

/// The first rule for control-plane groups is one of the rules, no rule before
/// it is for such groups, and it is missing only where no rule is.
pub proof fn law_first_control_plane(rules: Seq<ResolvedModel>)
    ensures
        match first_control_plane(rules) {
            Some(rule) => exists|r: int| #[trigger] leads(rules, r) && rules[r] == rule,
            None => forall|j: int| 0 <= j < rules.len() ==> (#[trigger] rules[j]).group_type != "control-plane"@,
        },
    decreases rules.len(),
{
    if rules.len() > 0 {
        let front = rules.drop_last();
        law_first_control_plane(front);
        match first_control_plane(front) {
            Some(rule) => {
                let r = choose|r: int| #[trigger] leads(front, r) && front[r] == rule;
                assert forall|j: int| 0 <= j < r implies (#[trigger] rules[j]).group_type != "control-plane"@ by {
                    assert(front[j].group_type != "control-plane"@);
                }
                assert(leads(rules, r) && rules[r] == rule);
            },
            None => {
                assert forall|j: int| 0 <= j < front.len() implies (#[trigger] rules[j]).group_type
                    != "control-plane"@ by {
                    assert(front[j].group_type != "control-plane"@);
                }
                if rules.last().group_type == "control-plane"@ {
                    assert(leads(rules, rules.len() - 1));
                }
            },
        }
    }
}

/// The kind of address that a node is reached by.
pub open spec fn kind(public: bool) -> Seq<char> {
    if public {
        "public"@
    } else {
        "private"@
    }
}

/// The line that shows the address of a node.
pub open spec fn address_line(name: Seq<char>, ip: Seq<char>, public: bool) -> Seq<char> {
    "  "@ + padded(name, 30) + " →  "@ + ip + "  ("@ + kind(public) + ")"@
}

/// Add the nodes of one rule to `out`.
pub fn push_targets(rule: &CommonResolvedRule, out: &mut Vec<(String, bool)>)
    ensures
        final(out).deep_view() == old(out).deep_view() + rule_targets(rule.deep_view()),
{
    let public = rule.merged.ip_address == IpAddressType::Public;
    let ghost start = out.deep_view();
    let ghost more = rule_targets(rule.deep_view());
    let mut i: usize = 0;
    assert(start + more.take(0) =~= start);
    while i < rule.nodes.len()
        invariant
            i <= rule.nodes@.len(),
            public == (rule.merged.ip_address == IpAddressType::Public),
            more == rule_targets(rule.deep_view()),
            out.deep_view() == start + more.take(i as int),
        decreases rule.nodes@.len() - i,
    {
        let ghost before = out.deep_view();
        let name = rule.nodes[i].clone();
        out.push((name, public));
        assert(more[i as int] == (rule.nodes@[i as int]@, public));
        assert(out.deep_view() =~= before.push(more[i as int]));
        assert(more.take(i + 1) =~= more.take(i as int).push(more[i as int]));
        assert(out.deep_view() =~= start + more.take(i + 1));
        i = i + 1;
    }
    assert(more.take(i as int) =~= more);
}

/// The nodes of all rules in order.
pub fn targets(rules: &Vec<CommonResolvedRule>) -> (r: Vec<(String, bool)>)
    ensures
        r.deep_view() == all_targets(rules.deep_view()),
{
    let mut out: Vec<(String, bool)> = Vec::new();
    let ghost all = rules.deep_view();
    let mut i: usize = 0;
    assert(out.deep_view() =~= all_targets(all.take(0)));
    while i < rules.len()
        invariant
            i <= rules@.len(),
            all == rules.deep_view(),
            out.deep_view() == all_targets(all.take(i as int)),
        decreases rules@.len() - i,
    {
        assert(all.take(i + 1).drop_last() =~= all.take(i as int));
        assert(all.take(i + 1).last() == rules@[i as int].deep_view());
        push_targets(&rules[i], &mut out);
        i = i + 1;
    }
    assert(all.take(i as int) =~= all);
    out
}

/// Add the nodes of all rules for groups of one type to `out`.
pub fn push_typed(rules: &Vec<CommonResolvedRule>, group_type: &str, out: &mut Vec<(String, bool)>)
    ensures
        final(out).deep_view() == old(out).deep_view() + typed_targets(rules.deep_view(), group_type@),
{
    let ghost start = out.deep_view();
    let ghost all = rules.deep_view();
    let mut i: usize = 0;
    assert(start + typed_targets(all.take(0), group_type@) =~= start);
    while i < rules.len()
        invariant
            i <= rules@.len(),
            all == rules.deep_view(),
            out.deep_view() == start + typed_targets(all.take(i as int), group_type@),
        decreases rules@.len() - i,
    {
        assert(all.take(i + 1).drop_last() =~= all.take(i as int));
        assert(all.take(i + 1).last() == rules@[i as int].deep_view());
        if same(rules[i].group_type.as_str(), group_type) {
            push_targets(&rules[i], out);
            assert(out.deep_view() =~= start + typed_targets(all.take(i + 1), group_type@));
        }
        i = i + 1;
    }
    assert(all.take(i as int) =~= all);
}

/// The first rule for control-plane groups.
pub fn control_plane_rule<'a>(rules: &'a Vec<CommonResolvedRule>) -> (r: Option<&'a CommonResolvedRule>)
    ensures
        match r {
            Some(rule) => first_control_plane(rules.deep_view()) == Some(rule.deep_view()),
            None => first_control_plane(rules.deep_view()) is None,
        },
{
    let ghost all = rules.deep_view();
    let mut i: usize = 0;
    while i < rules.len()
        invariant
            i <= rules@.len(),
            all == rules.deep_view(),
            first_control_plane(all.take(i as int)) is None,
        decreases rules@.len() - i,
    {
        assert(all.take(i + 1).drop_last() =~= all.take(i as int));
        assert(all.take(i + 1).last() == rules@[i as int].deep_view());
        if same(rules[i].group_type.as_str(), "control-plane") {
            proof {
                lemma_first_stays(all, i + 1);
            }
            return Some(&rules[i]);
        }
        i = i + 1;
    }
    assert(all.take(i as int) =~= all);
    None
}

proof fn lemma_first_stays(rules: Seq<ResolvedModel>, n: int)
    requires
        0 <= n <= rules.len(),
        first_control_plane(rules.take(n)) is Some,
    ensures
        first_control_plane(rules) == first_control_plane(rules.take(n)),
    decreases rules.len() - n,
{
    if n < rules.len() {
        assert(rules.take(n + 1).drop_last() =~= rules.take(n));
        lemma_first_stays(rules, n + 1);
    } else {
        assert(rules.take(n) =~= rules);
    }
}

/// The kind of address that a node is reached by.
pub fn kind_text(public: bool) -> (r: &'static str)
    ensures
        r@ == kind(public),
{
    if public {
        "public"
    } else {
        "private"
    }
}

/// The line that shows the address of a node.
pub fn show_address(name: &str, ip: &str, public: bool) -> (r: String)
    ensures
        r@ == address_line(name@, ip@, public),
{
    cat7("  ", pad(name, 30).as_str(), " →  ", ip, "  (", kind_text(public), ")")
}

} // verus!
