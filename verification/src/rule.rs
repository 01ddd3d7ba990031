//! Resolving rules: which nodes a rule covers, and how they are configured.

use vstd::prelude::*;

use crate::spec::{
    merge_message, merge_spec_configs, merged, MergeError, MergeFault, MergedModel, MergedSpec,
};
use crate::structs::{CommonConfig, ConfigModel, GroupModel, GroupYaml, RuleModel, RuleYaml};
use crate::text::{cat3, cat7, clone_list, same};

verus! {

/// The fully resolved view of a single rule: the nodes of the groups it
/// refers to, and their merged configuration.
#[derive(Debug)]
pub struct CommonResolvedRule {
    /// Names of every group referenced by this rule.
    pub group_names: Vec<String>,
    /// The shared type of all groups in this rule.
    pub group_type: String,
    /// Names of every spec referenced by this rule, in merge order.
    pub generic_names: Vec<String>,
    /// Every node name collected from all referenced groups.
    pub nodes: Vec<String>,
    /// Result of merging all referenced specs left-to-right.
    pub merged: MergedSpec,
}

/// Why a rule could not be resolved.
#[derive(Debug)]
pub enum RuleError {
    UnknownGroup(String),
    /// The groups of the rule are not all of one type.
    MixedTypes { existing: String, found: String, group: String },
    EmptyGroupList,
    Spec(MergeError),
}

// ---------------------------------------------------------------------------
// Models
// ---------------------------------------------------------------------------

pub struct ResolvedModel {
    pub group_names: Seq<Seq<char>>,
    pub group_type: Seq<char>,
    pub generic_names: Seq<Seq<char>>,
    pub nodes: Seq<Seq<char>>,
    pub merged: MergedModel,
}

pub enum RuleFault {
    UnknownGroup(Seq<char>),
    MixedTypes { existing: Seq<char>, found: Seq<char>, group: Seq<char> },
    EmptyGroupList,
    Spec(MergeFault),
}

impl DeepView for CommonResolvedRule {
    type V = ResolvedModel;

    open spec fn deep_view(&self) -> ResolvedModel {
        ResolvedModel {
            group_names: self.group_names.deep_view(),
            group_type: self.group_type@,
            generic_names: self.generic_names.deep_view(),
            nodes: self.nodes.deep_view(),
            merged: self.merged.deep_view(),
        }
    }
}

impl DeepView for RuleError {
    type V = RuleFault;

    open spec fn deep_view(&self) -> RuleFault {
        match *self {
            RuleError::UnknownGroup(name) => RuleFault::UnknownGroup(name@),
            RuleError::MixedTypes { existing, found, group } => RuleFault::MixedTypes {
                existing: existing@,
                found: found@,
                group: group@,
            },
            RuleError::EmptyGroupList => RuleFault::EmptyGroupList,
            RuleError::Spec(e) => RuleFault::Spec(e.deep_view()),
        }
    }
}

/// What the outcome of resolving one rule reads as.
pub open spec fn rule_outcome(r: Result<CommonResolvedRule, RuleError>) -> Result<
    ResolvedModel,
    RuleFault,
> {
    match r {
        Ok(rule) => Ok(rule.deep_view()),
        Err(e) => Err(e.deep_view()),
    }
}

/// What the outcome of resolving all rules reads as.
pub open spec fn rules_outcome(r: Result<Vec<CommonResolvedRule>, RuleError>) -> Result<
    Seq<ResolvedModel>,
    RuleFault,
> {
    match r {
        Ok(rules) => Ok(rules.deep_view()),
        Err(e) => Err(e.deep_view()),
    }
}

/// The last group called `name`.
pub open spec fn find_group(groups: Seq<GroupModel>, name: Seq<char>) -> Option<GroupModel>
    decreases groups.len(),
{
    if groups.len() == 0 {
        None
    } else if groups.last().name == name {
        Some(groups.last())
    } else {
        find_group(groups.drop_last(), name)
    }
}

/// The shared type of the groups called `names` (none for no groups) and all
/// their nodes in order, or the first thing wrong with them.
pub open spec fn gathered(names: Seq<Seq<char>>, groups: Seq<GroupModel>) -> Result<
    (Option<Seq<char>>, Seq<Seq<char>>),
    RuleFault,
>
    decreases names.len(),
{
    if names.len() == 0 {
        Ok((None, Seq::empty()))
    } else {
        match gathered(names.drop_last(), groups) {
            Err(e) => Err(e),
            Ok((kind, nodes)) => match (find_group(groups, names.last()), kind) {
                (None, _) => Err(RuleFault::UnknownGroup(names.last())),
                (Some(g), Some(k)) => if k == g.group_type {
                    Ok((kind, nodes + g.node))
                } else {
                    Err(RuleFault::MixedTypes { existing: k, found: g.group_type, group: names.last() })
                },
                (Some(g), None) => Ok((Some(g.group_type), nodes + g.node)),
            },
        }
    }
}

/// The outcome of resolving one rule.
pub open spec fn resolved_rule(rule: RuleModel, config: ConfigModel) -> Result<
    ResolvedModel,
    RuleFault,
> {
    match gathered(rule.group, config.groups) {
        Err(e) => Err(e),
        Ok((None, _)) => Err(RuleFault::EmptyGroupList),
        Ok((Some(group_type), nodes)) => match merged(rule.specs, config.specs) {
            Err(e) => Err(RuleFault::Spec(e)),
            Ok(m) => Ok(
                ResolvedModel {
                    group_names: rule.group,
                    group_type,
                    generic_names: rule.specs,
                    nodes,
                    merged: m,
                },
            ),
        },
    }
}

/// The outcome of resolving `rules` in order: all of them, or what is wrong
/// with the first that cannot be resolved.
pub open spec fn resolved_rules(rules: Seq<RuleModel>, config: ConfigModel) -> Result<
    Seq<ResolvedModel>,
    RuleFault,
>
    decreases rules.len(),
{
    if rules.len() == 0 {
        Ok(Seq::empty())
    } else {
        match resolved_rules(rules.drop_last(), config) {
            Err(e) => Err(e),
            Ok(done) => match resolved_rule(rules.last(), config) {
                Err(e) => Err(e),
                Ok(r) => Ok(done.push(r)),
            },
        }
    }
}

/// The message of a rule error.
pub open spec fn rule_message(e: RuleFault) -> Seq<char> {
    match e {
        RuleFault::UnknownGroup(name) => "Rule references unknown group '"@ + name + "'"@,
        RuleFault::MixedTypes { existing, found, group } => "Rule mixes groups of different types: '"@
            + existing + "' (previous) vs '"@ + found + "' ('"@ + group + "')"@,
        RuleFault::EmptyGroupList => "Rule has an empty group list"@,
        RuleFault::Spec(m) => merge_message(m),
    }
}

// ---------------------------------------------------------------------------
// Laws
// ---------------------------------------------------------------------------

/// The message of a rule error names the group that is not there, or the two
/// types and the group at which they met; an error of the specs keeps its own
/// message.
pub proof fn law_rule_error_names_its_cause(error: RuleError, r: String, merge: MergeError, m: String)
    requires
        call_ensures(RuleError::message, (&error,), r),
        call_ensures(MergeError::message, (&merge,), m),
    ensures
        match error {
            RuleError::UnknownGroup(name) => r@ == "Rule references unknown group '"@ + name@ + "'"@,
            RuleError::MixedTypes { existing, found, group } => r@ == "Rule mixes groups of different types: '"@
                + existing@ + "' (previous) vs '"@ + found@ + "' ('"@ + group@ + "')"@,
            RuleError::EmptyGroupList => r@ == "Rule has an empty group list"@,
            RuleError::Spec(e) => e == merge ==> r@ == m@,
        },
{
}

/// All groups of a resolved rule exist and share its type, and every node of
/// each of them is covered by the rule.
pub proof fn law_groups_share_type(rule: RuleModel, config: ConfigModel, i: int)
    requires
        resolved_rule(rule, config) is Ok,
        0 <= i < rule.group.len(),
    ensures
        find_group(config.groups, rule.group[i]) is Some,
        find_group(config.groups, rule.group[i])->0.group_type == resolved_rule(rule, config)->Ok_0.group_type,
        forall|node: Seq<char>| #[trigger]
            find_group(config.groups, rule.group[i])->0.node.contains(node)
                ==> resolved_rule(rule, config)->Ok_0.nodes.contains(node),
{
    lemma_gathered(rule.group, config.groups, i);
}

proof fn lemma_gathered(names: Seq<Seq<char>>, groups: Seq<GroupModel>, i: int)
    requires
        gathered(names, groups) is Ok,
        0 <= i < names.len(),
    ensures
        find_group(groups, names[i]) is Some,
        gathered(names, groups)->Ok_0.0 == Some(find_group(groups, names[i])->0.group_type),
        forall|node: Seq<char>| #[trigger]
            find_group(groups, names[i])->0.node.contains(node) ==> gathered(names, groups)->Ok_0.1.contains(node),
    decreases names.len(),
{
    let front = names.drop_last();
    let before = gathered(front, groups)->Ok_0.1;
    let last = find_group(groups, names.last())->0.node;
    let nodes = gathered(names, groups)->Ok_0.1;
    assert(nodes == before + last);
    let own = find_group(groups, names[i])->0.node;
    if i < front.len() {
        assert(front[i] == names[i]);
        lemma_gathered(front, groups, i);
        assert forall|node: Seq<char>| #[trigger] own.contains(node) implies nodes.contains(node) by {
            let k = choose|k: int| 0 <= k < before.len() && before[k] == node;
            assert(nodes[k] == node);
        }
    } else {
        assert forall|node: Seq<char>| #[trigger] own.contains(node) implies nodes.contains(node) by {
            let k = choose|k: int| 0 <= k < last.len() && last[k] == node;
            assert(nodes[before.len() + k] == node);
        }
    }
}

/// Rules are resolved one by one: each resolved rule is the outcome of the
/// rule it stands for.
pub proof fn law_rules_in_order(rules: Seq<RuleModel>, config: ConfigModel, i: int)
    requires
        resolved_rules(rules, config) is Ok,
        0 <= i < rules.len(),
    ensures
        resolved_rules(rules, config)->Ok_0.len() == rules.len(),
        resolved_rule(rules[i], config) == Ok::<ResolvedModel, RuleFault>(
            resolved_rules(rules, config)->Ok_0[i],
        ),
    decreases rules.len(),
{
    reveal_with_fuel(resolved_rules, 2);
    let front = rules.drop_last();
    if front.len() > 0 {
        law_rules_in_order(front, config, if i < front.len() { i } else { 0 });
    }
}

/// What is wrong among the first names of a list is what is wrong with the list.
proof fn lemma_gather_fails_early(names: Seq<Seq<char>>, groups: Seq<GroupModel>, n: int)
    requires
        0 <= n <= names.len(),
        gathered(names.take(n), groups) is Err,
    ensures
        gathered(names, groups) == gathered(names.take(n), groups),
    decreases names.len(),
{
    if n == names.len() {
        assert(names.take(n) =~= names);
    } else {
        assert(names.drop_last().take(n) =~= names.take(n));
        lemma_gather_fails_early(names.drop_last(), groups, n);
    }
}

/// What is wrong among the first rules is what is wrong with all.
proof fn lemma_rules_fail_early(rules: Seq<RuleModel>, config: ConfigModel, n: int)
    requires
        0 <= n <= rules.len(),
        resolved_rules(rules.take(n), config) is Err,
    ensures
        resolved_rules(rules, config) == resolved_rules(rules.take(n), config),
    decreases rules.len(),
{
    if n == rules.len() {
        assert(rules.take(n) =~= rules);
    } else {
        assert(rules.drop_last().take(n) =~= rules.take(n));
        lemma_rules_fail_early(rules.drop_last(), config, n);
    }
}

/// A name stands for the last group that is called so, and for nothing where
/// there is none.
pub proof fn law_name_stands_for_last_group(groups: Seq<GroupModel>, name: Seq<char>)
    ensures
        match find_group(groups, name) {
            Some(group) => exists|i: int|
                0 <= i < groups.len() && #[trigger] groups[i] == group && group.name == name && forall|j: int|
                    i < j < groups.len() ==> (#[trigger] groups[j]).name != name,
            None => forall|j: int| 0 <= j < groups.len() ==> (#[trigger] groups[j]).name != name,
        },
    decreases groups.len(),
{
    if groups.len() > 0 {
        let front = groups.drop_last();
        let last = groups.len() - 1;
        law_name_stands_for_last_group(front, name);
        if groups.last().name == name {
            assert(groups[last] == groups.last());
        } else {
            match find_group(front, name) {
                Some(group) => {
                    let i = choose|i: int|
                        0 <= i < front.len() && #[trigger] front[i] == group && group.name == name && forall|j: int|
                            i < j < front.len() ==> (#[trigger] front[j]).name != name;
                    assert(groups[i] == group);
                    assert forall|j: int| i < j < groups.len() implies (#[trigger] groups[j]).name != name by {
                        if j < last {
                            assert(front[j] == groups[j]);
                        }
                    }
                },
                None => {
                    assert forall|j: int| 0 <= j < groups.len() implies (#[trigger] groups[j]).name != name by {
                        if j < last {
                            assert(front[j] == groups[j]);
                        }
                    }
                },
            }
        }
    }
}

/// How many nodes the groups called `names` have together.
pub open spec fn covered_count(names: Seq<Seq<char>>, groups: Seq<GroupModel>) -> nat
    decreases names.len(),
{
    if names.len() == 0 {
        0
    } else {
        covered_count(names.drop_last(), groups) + find_group(groups, names.last())->0.node.len()
    }
}

proof fn lemma_gathered_in_order(names: Seq<Seq<char>>, groups: Seq<GroupModel>, i: int, k: int)
    requires
        gathered(names, groups) is Ok,
    ensures
        gathered(names, groups)->Ok_0.1.len() == covered_count(names, groups),
        0 <= i < names.len() && 0 <= k < find_group(groups, names[i])->0.node.len() ==> {
            let at = covered_count(names.take(i), groups) + k;
            &&& at < covered_count(names, groups)
            &&& gathered(names, groups)->Ok_0.1[at] == find_group(groups, names[i])->0.node[k]
        },
    decreases names.len(),
{
    if names.len() > 0 {
        let front = names.drop_last();
        lemma_gathered_in_order(front, groups, i, k);
        if 0 <= i < front.len() {
            assert(front.take(i) =~= names.take(i));
            assert(front[i] == names[i]);
        } else if i == front.len() {
            assert(names.take(i) =~= front);
        }
    }
}

/// A resolved rule covers every node of every group that it names, each behind
/// those of the groups before its own, and no other node. It is configured by
/// its own specs, and it keeps its names.
pub proof fn law_rule_covers_its_groups(rule: RuleModel, config: ConfigModel, i: int, k: int)
    ensures
        resolved_rule(rule, config) matches Ok(r) ==> {
            &&& r.group_names == rule.group
            &&& r.generic_names == rule.specs
            &&& merged(rule.specs, config.specs) == Ok::<MergedModel, MergeFault>(r.merged)
            &&& r.nodes.len() == covered_count(rule.group, config.groups)
            &&& 0 <= i < rule.group.len() && 0 <= k < find_group(config.groups, rule.group[i])->0.node.len() ==> {
                let at = covered_count(rule.group.take(i), config.groups) + k;
                &&& at < r.nodes.len()
                &&& r.nodes[at] == find_group(config.groups, rule.group[i])->0.node[k]
            }
        },
{
    if gathered(rule.group, config.groups) is Ok {
        lemma_gathered_in_order(rule.group, config.groups, i, k);
    }
}

/// A rule is refused for one of four reasons: a group that it names is not
/// there; two groups of it have different types; it names no group; or its
/// specs cannot be merged. Otherwise it is resolved.
pub proof fn law_rule_refused_for_a_reason(rule: RuleModel, config: ConfigModel)
    ensures
        match resolved_rule(rule, config) {
            Ok(_) => {
                &&& rule.group.len() > 0
                &&& merged(rule.specs, config.specs) is Ok
                &&& forall|i: int, j: int|
                    0 <= i < rule.group.len() && 0 <= j < rule.group.len() ==> same_type(
                        config.groups,
                        #[trigger] rule.group[i],
                        #[trigger] rule.group[j],
                    )
            },
            Err(RuleFault::UnknownGroup(name)) => rule.group.contains(name) && find_group(config.groups, name) is None,
            Err(RuleFault::MixedTypes { existing, found, group }) => {
                &&& rule.group.contains(group)
                &&& existing != found
                &&& find_group(config.groups, group) matches Some(g) && g.group_type == found
                &&& exists|i: int|
                    0 <= i < rule.group.len() && (find_group(config.groups, #[trigger] rule.group[i]) matches Some(g)
                        && g.group_type == existing)
            },
            Err(RuleFault::EmptyGroupList) => rule.group.len() == 0,
            Err(RuleFault::Spec(e)) => merged(rule.specs, config.specs) == Err::<MergedModel, MergeFault>(e),
        },
{
    lemma_gathered_reason(rule.group, config.groups);
}

/// Whether two groups are there and have the same type.
pub open spec fn same_type(groups: Seq<GroupModel>, a: Seq<char>, b: Seq<char>) -> bool {
    find_group(groups, a) is Some && find_group(groups, b) is Some && find_group(groups, a)->0.group_type
        == find_group(groups, b)->0.group_type
}

proof fn lemma_gathered_reason(names: Seq<Seq<char>>, groups: Seq<GroupModel>)
    ensures
        match gathered(names, groups) {
            Ok((None, nodes)) => names.len() == 0 && nodes.len() == 0,
            Ok((Some(kind), _)) => names.len() > 0 && forall|i: int|
                0 <= i < names.len() ==> (find_group(groups, #[trigger] names[i]) matches Some(g) && g.group_type
                    == kind),
            Err(RuleFault::UnknownGroup(name)) => names.contains(name) && find_group(groups, name) is None,
            Err(RuleFault::MixedTypes { existing, found, group }) => {
                &&& names.contains(group)
                &&& existing != found
                &&& find_group(groups, group) matches Some(g) && g.group_type == found
                &&& exists|i: int|
                    0 <= i < names.len() && (find_group(groups, #[trigger] names[i]) matches Some(g) && g.group_type
                        == existing)
            },
            Err(_) => false,
        },
    decreases names.len(),
{
    if names.len() > 0 {
        let front = names.drop_last();
        let last = names.len() - 1;
        lemma_gathered_reason(front, groups);
        assert(names[last] == names.last());
        assert forall|i: int| 0 <= i < last implies #[trigger] names[i] == front[i] by {}
        match gathered(front, groups) {
            Ok((Some(kind), _)) => {
                assert(find_group(groups, front[0]) matches Some(g) && g.group_type == kind);
                assert(names[0] == front[0]);
            },
            Err(RuleFault::UnknownGroup(name)) => {
                let i = choose|i: int| 0 <= i < front.len() && front[i] == name;
                assert(names[i] == name);
            },
            Err(RuleFault::MixedTypes { existing, group, .. }) => {
                let i = choose|i: int| 0 <= i < front.len() && front[i] == group;
                assert(names[i] == group);
                let k = choose|k: int|
                    0 <= k < front.len() && (find_group(groups, #[trigger] front[k]) matches Some(g) && g.group_type
                        == existing);
                assert(names[k] == front[k]);
            },
            _ => {},
        }
    }
}

/// All rules are resolved, or none is: the outcome is an error if and only if
/// some rule is refused, and then it is that of the first one that is.
pub proof fn law_first_refused_rule_counts(rules: Seq<RuleModel>, config: ConfigModel)
    ensures
        match resolved_rules(rules, config) {
            Ok(done) => done.len() == rules.len(),
            Err(e) => exists|i: int|
                0 <= i < rules.len() && resolved_rule(#[trigger] rules[i], config) == Err::<ResolvedModel, RuleFault>(e)
                    && forall|j: int| 0 <= j < i ==> resolved_rule(#[trigger] rules[j], config) is Ok,
        },
    decreases rules.len(),
{
    if rules.len() > 0 {
        let front = rules.drop_last();
        let last = rules.len() - 1;
        law_first_refused_rule_counts(front, config);
        assert(rules[last] == rules.last());
        match resolved_rules(front, config) {
            Err(e) => {
                let i = choose|i: int|
                    0 <= i < front.len() && resolved_rule(#[trigger] front[i], config) == Err::<
                        ResolvedModel,
                        RuleFault,
                    >(e) && forall|j: int| 0 <= j < i ==> resolved_rule(#[trigger] front[j], config) is Ok;
                assert(rules[i] == front[i]);
                assert forall|j: int| 0 <= j < i implies resolved_rule(#[trigger] rules[j], config) is Ok by {
                    assert(front[j] == rules[j]);
                }
            },
            Ok(_) => {
                assert forall|j: int| 0 <= j < last implies resolved_rule(#[trigger] rules[j], config) is Ok by {
                    law_rules_in_order(front, config, j);
                    assert(front[j] == rules[j]);
                }
            },
        }
    }
}

// ---------------------------------------------------------------------------
// Code
// ---------------------------------------------------------------------------

impl RuleError {
    /// The message for the operator.
    pub fn message(&self) -> (r: String)
        ensures
            r@ == rule_message(self.deep_view()),
    {
        match self {
            RuleError::UnknownGroup(name) => cat3("Rule references unknown group '", name.as_str(), "'"),
            RuleError::MixedTypes { existing, found, group } => cat7(
                "Rule mixes groups of different types: '",
                existing.as_str(),
                "' (previous) vs '",
                found.as_str(),
                "' ('",
                group.as_str(),
                "')",
            ),
            RuleError::EmptyGroupList => "Rule has an empty group list".to_owned(),
            RuleError::Spec(e) => e.message(),
        }
    }
}

/// Find the group that `name` stands for.
fn group_index(groups: &Vec<GroupYaml>, name: &String) -> (r: Option<usize>)
    ensures
        match r {
            Some(i) => i < groups@.len() && find_group(groups.deep_view(), name@) == Some(
                groups@[i as int].deep_view(),
            ),
            None => find_group(groups.deep_view(), name@) is None,
        },
{
    let mut n: usize = groups.len();
    let ghost all = groups.deep_view();
    assert(all.take(n as int) =~= all);
    while n > 0
        invariant
            n <= groups@.len(),
            all == groups.deep_view(),
            find_group(all, name@) == find_group(all.take(n as int), name@),
        decreases n,
    {
        assert(all.take(n as int).drop_last() =~= all.take(n - 1));
        assert(all.take(n as int).last() == groups@[n - 1].deep_view());
        if groups[n - 1].name == *name {
            return Some(n - 1);
        }
        n = n - 1;
    }
    None
}

/// Resolve one rule.
pub fn resolve_rule(rule: &RuleYaml, common: &CommonConfig) -> (r: Result<
    CommonResolvedRule,
    RuleError,
>)
    ensures
        rule_outcome(r) == resolved_rule(rule.deep_view(), common.deep_view()),
{
    let mut nodes: Vec<String> = Vec::new();
    let mut kind: Option<String> = None;
    let ghost names = rule.group.deep_view();
    let ghost all = common.groups.deep_view();
    let mut i: usize = 0;
    assert(nodes.deep_view() =~= Seq::<Seq<char>>::empty());
    while i < rule.group.len()
        invariant
            i <= rule.group@.len(),
            names == rule.group.deep_view(),
            all == common.groups.deep_view(),
            gathered(names.take(i as int), all) == Ok::<(Option<Seq<char>>, Seq<Seq<char>>), RuleFault>(
                (kind.deep_view(), nodes.deep_view()),
            ),
        decreases rule.group@.len() - i,
    {
        let name = &rule.group[i];
        assert(names.take(i + 1).drop_last() =~= names.take(i as int));
        assert(names.take(i + 1).last() == name@);
        let at = match group_index(&common.groups, name) {
            Some(at) => at,
            None => {
                proof {
                    lemma_gather_fails_early(names, all, i + 1);
                }
                return Err(RuleError::UnknownGroup(name.clone()));
            },
        };
        let group = &common.groups[at];
        let mixed = match &kind {
            Some(existing) => !same(existing.as_str(), group.group_type.as_str()),
            None => false,
        };
        if mixed {
            let existing = match kind {
                Some(existing) => existing,
                None => String::new(),
            };
            proof {
                lemma_gather_fails_early(names, all, i + 1);
            }
            return Err(
                RuleError::MixedTypes { existing, found: group.group_type.clone(), group: name.clone() },
            );
        }
        if kind.is_none() {
            kind = Some(group.group_type.clone());
        }
        append_list(&mut nodes, &group.node);
        i = i + 1;
    }
    assert(names.take(i as int) =~= names);
    let group_type = match kind {
        Some(k) => k,
        None => return Err(RuleError::EmptyGroupList),
    };
    match merge_spec_configs(&rule.specs, &common.specs) {
        Err(e) => Err(RuleError::Spec(e)),
        Ok(m) => Ok(
            CommonResolvedRule {
                group_names: clone_list(&rule.group),
                group_type,
                generic_names: clone_list(&rule.specs),
                nodes,
                merged: m,
            },
        ),
    }
}

/// Add the entries of `more` to the end of `list`.
fn append_list(list: &mut Vec<String>, more: &Vec<String>)
    ensures
        final(list).deep_view() == old(list).deep_view() + more.deep_view(),
{
    let mut i: usize = 0;
    let ghost before = list.deep_view();
    let ghost all = more.deep_view();
    assert(before + all.take(0) =~= before);
    while i < more.len()
        invariant
            i <= more@.len(),
            all == more.deep_view(),
            list.deep_view() == before + all.take(i as int),
        decreases more@.len() - i,
    {
        let ghost prior = list.deep_view();
        list.push(more[i].clone());
        assert(list.deep_view() =~= prior.push(more@[i as int]@));
        i = i + 1;
        assert(list.deep_view() =~= before + all.take(i as int));
    }
    assert(all.take(i as int) =~= all);
}

/// Resolve every rule of a configuration, in order.
///
/// Fails with what is wrong with the first rule that cannot be resolved.
pub fn resolve_rules(common: &CommonConfig) -> (r: Result<Vec<CommonResolvedRule>, RuleError>)
    ensures
        rules_outcome(r) == resolved_rules(common.deep_view().rules, common.deep_view()),
{
    let mut out: Vec<CommonResolvedRule> = Vec::new();
    let ghost rules = common.rules.deep_view();
    let ghost config = common.deep_view();
    let mut i: usize = 0;
    assert(out.deep_view() =~= Seq::<ResolvedModel>::empty());
    while i < common.rules.len()
        invariant
            i <= common.rules@.len(),
            rules == common.rules.deep_view(),
            config == common.deep_view(),
            resolved_rules(rules.take(i as int), config) == Ok::<Seq<ResolvedModel>, RuleFault>(
                out.deep_view(),
            ),
        decreases common.rules@.len() - i,
    {
        assert(rules.take(i + 1).drop_last() =~= rules.take(i as int));
        assert(rules.take(i + 1).last() == common.rules@[i as int].deep_view());
        match resolve_rule(&common.rules[i], common) {
            Err(e) => {
                proof {
                    lemma_rules_fail_early(rules, config, i + 1);
                }
                return Err(e);
            },
            Ok(rule) => {
                let ghost before = out.deep_view();
                out.push(rule);
                assert(out.deep_view() =~= before.push(rule.deep_view()));
            },
        }
        i = i + 1;
    }
    assert(rules.take(i as int) =~= rules);
    Ok(out)
}

} // verus!
