//! What a name stands for: an association list in which every name occurs at
//! most once.

use vstd::prelude::*;

use crate::text::{in_order, listed, same, text_le};

verus! {

/// The names that are known, each with its identifier.
pub struct Registry {
    entries: Vec<(String, String)>,
}

/// What a registry reads as.
pub type Entries = Seq<(Seq<char>, Seq<char>)>;

impl DeepView for Registry {
    type V = Entries;

    closed spec fn deep_view(&self) -> Entries {
        self.entries.deep_view()
    }
}

/// The identifier of `name`.
pub open spec fn lookup(entries: Entries, name: Seq<char>) -> Option<Seq<char>>
    decreases entries.len(),
{
    if entries.len() == 0 {
        None
    } else if entries.last().0 == name {
        Some(entries.last().1)
    } else {
        lookup(entries.drop_last(), name)
    }
}

/// Whether `name` is known.
pub open spec fn known(entries: Entries, name: Seq<char>) -> bool {
    lookup(entries, name) is Some
}

/// `entries` but for `name`.
pub open spec fn without(entries: Entries, name: Seq<char>) -> Entries
    decreases entries.len(),
{
    if entries.len() == 0 {
        Seq::empty()
    } else if entries.last().0 == name {
        without(entries.drop_last(), name)
    } else {
        without(entries.drop_last(), name).push(entries.last())
    }
}

/// `entries` with `id` as the identifier of `name`.
pub open spec fn stored(entries: Entries, name: Seq<char>, id: Seq<char>) -> Entries {
    without(entries, name).push((name, id))
}

/// The identifier of `name`, or `name` itself where it has none.
pub open spec fn id_or_name(entries: Entries, name: Seq<char>) -> Seq<char> {
    match lookup(entries, name) {
        Some(id) => id,
        None => name,
    }
}

/// No name occurs twice.
pub open spec fn distinct(entries: Entries) -> bool {
    forall|i: int, j: int| 0 <= i < j < entries.len() ==> (#[trigger] entries[i]).0 != (#[trigger] entries[j]).0
}

// ---------------------------------------------------------------------------
// Laws
// ---------------------------------------------------------------------------

/// Removing a name forgets that name and nothing else.
pub proof fn law_without(entries: Entries, name: Seq<char>, other: Seq<char>)
    ensures
        lookup(without(entries, name), name) == None::<Seq<char>>,
        other != name ==> lookup(without(entries, name), other) == lookup(entries, other),
    decreases entries.len(),
{
    if entries.len() > 0 {
        law_without(entries.drop_last(), name, other);
        let rest = without(entries.drop_last(), name);
        assert(rest.push(entries.last()).drop_last() =~= rest);
    }
}

/// A stored identifier is found again, and every other name keeps its own.
pub proof fn law_stored(entries: Entries, name: Seq<char>, id: Seq<char>, other: Seq<char>)
    ensures
        lookup(stored(entries, name, id), name) == Some(id),
        other != name ==> lookup(stored(entries, name, id), other) == lookup(entries, other),
{
    let rest = without(entries, name);
    assert(rest.push((name, id)).drop_last() =~= rest);
    law_without(entries, name, other);
}

/// A name is known if and only if it occurs.
pub proof fn law_known(entries: Entries, name: Seq<char>)
    ensures
        known(entries, name) <==> exists|i: int| 0 <= i < entries.len() && (#[trigger] entries[i]).0 == name,
    decreases entries.len(),
{
    if entries.len() > 0 {
        let rest = entries.drop_last();
        law_known(rest, name);
        if entries.last().0 == name {
            assert(entries[entries.len() - 1].0 == name);
        } else {
            if known(rest, name) {
                let i = choose|i: int| 0 <= i < rest.len() && (#[trigger] rest[i]).0 == name;
                assert(entries[i].0 == name);
            }
            if exists|i: int| 0 <= i < entries.len() && (#[trigger] entries[i]).0 == name {
                let i = choose|i: int| 0 <= i < entries.len() && (#[trigger] entries[i]).0 == name;
                assert(rest[i].0 == name);
            }
        }
    }
}

/// Where every name occurs once, the identifier of a name is the one that it
/// occurs with, and only a name that does not occur has none.
pub proof fn law_lookup(entries: Entries, i: int, name: Seq<char>)
    requires
        distinct(entries),
    ensures
        0 <= i < entries.len() ==> lookup(entries, entries[i].0) == Some(entries[i].1),
        lookup(entries, name) matches Some(id) ==> exists|k: int|
            0 <= k < entries.len() && (#[trigger] entries[k]).0 == name && entries[k].1 == id,
    decreases entries.len(),
{
    if entries.len() > 0 {
        let rest = entries.drop_last();
        assert forall|a: int, b: int| 0 <= a < b < rest.len() implies (#[trigger] rest[a]).0 != (
        #[trigger] rest[b]).0 by {
            assert(entries[a].0 != entries[b].0);
        }
        law_lookup(rest, i, name);
        if 0 <= i < rest.len() {
            assert(entries[i].0 != entries[entries.len() - 1].0);
            assert(rest[i] == entries[i]);
        }
        if entries.last().0 == name {
            assert(entries[entries.len() - 1].0 == name);
        } else if let Some(id) = lookup(rest, name) {
            let k = choose|k: int| 0 <= k < rest.len() && (#[trigger] rest[k]).0 == name && rest[k].1 == id;
            assert(entries[k].0 == name);
        }
    }
}

/// A name that has an identifier goes by it, and any other by itself.
pub proof fn law_goes_by_identifier(entries: Entries, name: Seq<char>, id: Seq<char>, other: Seq<char>)
    ensures
        id_or_name(stored(entries, name, id), name) == id,
        id_or_name(without(entries, name), name) == name,
        other != name ==> id_or_name(stored(entries, name, id), other) == id_or_name(entries, other),
{
    law_stored(entries, name, id, other);
    law_without(entries, name, other);
}

proof fn lemma_without_occurs(entries: Entries, name: Seq<char>)
    ensures
        forall|j: int|
            0 <= j < without(entries, name).len() ==> exists|i: int|
                0 <= i < entries.len() && #[trigger] entries[i] == #[trigger] without(entries, name)[j]
                    && entries[i].0 != name,
    decreases entries.len(),
{
    if entries.len() > 0 {
        let rest = entries.drop_last();
        lemma_without_occurs(rest, name);
        let all = without(entries, name);
        assert forall|j: int| 0 <= j < all.len() implies exists|i: int|
            0 <= i < entries.len() && #[trigger] entries[i] == #[trigger] all[j] && entries[i].0 != name by {
            if j < without(rest, name).len() {
                assert(all[j] == without(rest, name)[j]);
                let i = choose|i: int|
                    0 <= i < rest.len() && #[trigger] rest[i] == without(rest, name)[j] && rest[i].0 != name;
                assert(entries[i] == all[j]);
            } else {
                assert(entries[entries.len() - 1] == all[j]);
            }
        }
    }
}

/// Storing and removing keep every name unique.
pub proof fn law_distinct(entries: Entries, name: Seq<char>, id: Seq<char>)
    requires
        distinct(entries),
    ensures
        distinct(without(entries, name)),
        distinct(stored(entries, name, id)),
    decreases entries.len(),
{
    lemma_without_occurs(entries, name);
    if entries.len() > 0 {
        let rest = entries.drop_last();
        assert forall|i: int, j: int| 0 <= i < j < rest.len() implies (#[trigger] rest[i]).0 != (
        #[trigger] rest[j]).0 by {
            assert(entries[i].0 != entries[j].0);
        }
        law_distinct(rest, name, id);
        lemma_without_occurs(rest, name);
        let all = without(entries, name);
        assert forall|i: int, j: int| 0 <= i < j < all.len() implies (#[trigger] all[i]).0 != (
        #[trigger] all[j]).0 by {
            if entries.last().0 != name && j == all.len() - 1 {
                let part = without(rest, name);
                assert(all[i] == part[i]);
                let k = choose|k: int|
                    0 <= k < rest.len() && #[trigger] rest[k] == part[i] && rest[k].0 != name;
                assert(entries[k].0 != entries[entries.len() - 1].0);
            } else {
                assert(all[i] == without(rest, name)[i]);
                assert(all[j] == without(rest, name)[j]);
            }
        }
    }
    let full = stored(entries, name, id);
    assert forall|i: int, j: int| 0 <= i < j < full.len() implies (#[trigger] full[i]).0 != (
    #[trigger] full[j]).0 by {
        if j == full.len() - 1 {
            assert(full[i] == without(entries, name)[i]);
        }
    }
}

// ---------------------------------------------------------------------------
// Code
// ---------------------------------------------------------------------------

impl Registry {
    #[verifier::type_invariant]
    spec fn well_formed(self) -> bool {
        distinct(self.entries.deep_view())
    }

    /// A registry that knows no name.
    pub fn new() -> (r: Registry)
        ensures
            r.deep_view() == Entries::empty(),
    {
        let entries: Vec<(String, String)> = Vec::new();
        assert(entries.deep_view() =~= Entries::empty());
        Registry { entries }
    }

    /// How many names are known.
    pub fn len(&self) -> (r: usize)
        ensures
            r == self.deep_view().len(),
            distinct(self.deep_view()),
    {
        proof {
            use_type_invariant(self);
        }
        self.entries.len()
    }

    /// The name at position `i`, and its identifier.
    pub fn entry(&self, i: usize) -> (r: (String, String))
        requires
            i < self.deep_view().len(),
        ensures
            r.deep_view() == self.deep_view()[i as int],
    {
        (self.entries[i].0.clone(), self.entries[i].1.clone())
    }

    /// All names with their identifiers.
    pub fn entries(&self) -> (r: Vec<(String, String)>)
        ensures
            r.deep_view() == self.deep_view(),
    {
        let mut all: Vec<(String, String)> = Vec::new();
        let mut i: usize = 0;
        while i < self.entries.len()
            invariant
                i <= self.entries@.len(),
                all@.len() == i,
                forall|k: int| 0 <= k < i ==> (#[trigger] all@[k]).deep_view() == self.entries@[k].deep_view(),
            decreases self.entries@.len() - i,
        {
            all.push((self.entries[i].0.clone(), self.entries[i].1.clone()));
            i = i + 1;
        }
        assert(all.deep_view() =~= self.entries.deep_view());
        all
    }

    /// The identifier of `name`.
    pub fn get(&self, name: &str) -> (r: Option<String>)
        ensures
            r.deep_view() == lookup(self.deep_view(), name@),
    {
        let mut found: Option<String> = None;
        let ghost all = self.entries.deep_view();
        let mut i: usize = 0;
        while i < self.entries.len()
            invariant
                i <= self.entries@.len(),
                all == self.entries.deep_view(),
                found.deep_view() == lookup(all.take(i as int), name@),
            decreases self.entries@.len() - i,
        {
            assert(all.take(i + 1).drop_last() =~= all.take(i as int));
            assert(all.take(i + 1).last() == self.entries@[i as int].deep_view());
            if same(self.entries[i].0.as_str(), name) {
                found = Some(self.entries[i].1.clone());
            }
            i = i + 1;
        }
        assert(all.take(i as int) =~= all);
        found
    }

    /// Whether `name` is known.
    pub fn contains_key(&self, name: &str) -> (r: bool)
        ensures
            r == known(self.deep_view(), name@),
    {
        self.get(name).is_some()
    }

    /// The identifier of `name`, or `name` itself where it has none.
    pub fn get_or_name(&self, name: &str) -> (r: String)
        ensures
            r@ == id_or_name(self.deep_view(), name@),
    {
        match self.get(name) {
            Some(id) => id,
            None => name.to_owned(),
        }
    }

    fn rest(&self, name: &str) -> (r: Vec<(String, String)>)
        ensures
            r.deep_view() == without(self.deep_view(), name@),
            distinct(self.deep_view()),
    {
        proof {
            use_type_invariant(self);
        }
        let mut kept: Vec<(String, String)> = Vec::new();
        let ghost all = self.entries.deep_view();
        let mut i: usize = 0;
        assert(kept.deep_view() =~= without(all.take(0), name@));
        while i < self.entries.len()
            invariant
                i <= self.entries@.len(),
                all == self.entries.deep_view(),
                kept.deep_view() == without(all.take(i as int), name@),
            decreases self.entries@.len() - i,
        {
            assert(all.take(i + 1).drop_last() =~= all.take(i as int));
            assert(all.take(i + 1).last() == self.entries@[i as int].deep_view());
            let ghost before = kept.deep_view();
            if !same(self.entries[i].0.as_str(), name) {
                kept.push((self.entries[i].0.clone(), self.entries[i].1.clone()));
                assert(kept.deep_view() =~= before.push(self.entries@[i as int].deep_view()));
            }
            i = i + 1;
        }
        assert(all.take(i as int) =~= all);
        kept
    }

    /// Make `id` the identifier of `name`.
    pub fn insert(&mut self, name: String, id: String)
        ensures
            final(self).deep_view() == stored(old(self).deep_view(), name@, id@),
    {
        let mut kept = self.rest(name.as_str());
        let ghost before = kept.deep_view();
        proof {
            law_distinct(self.deep_view(), name@, id@);
        }
        kept.push((name, id));
        assert(kept.deep_view() =~= before.push((name@, id@)));
        *self = Registry { entries: kept };
    }

    /// Forget `name`.
    pub fn remove(&mut self, name: &str)
        ensures
            final(self).deep_view() == without(old(self).deep_view(), name@),
    {
        let kept = self.rest(name);
        proof {
            law_distinct(self.deep_view(), name@, name@);
        }
        *self = Registry { entries: kept };
    }
}

// ---------------------------------------------------------------------------
// Names that are no longer wanted
// ---------------------------------------------------------------------------

/// `names` with `name` at its place in code-point order.
pub open spec fn placed(names: Seq<Seq<char>>, name: Seq<char>) -> Seq<Seq<char>>
    decreases names.len(),
{
    if names.len() == 0 {
        seq![name]
    } else if text_le(names.last(), name) {
        names.push(name)
    } else {
        placed(names.drop_last(), name).push(names.last())
    }
}

/// The names of `entries` that are not in `wanted`, in code-point order.
pub open spec fn unwanted(entries: Entries, wanted: Seq<Seq<char>>) -> Seq<Seq<char>>
    decreases entries.len(),
{
    if entries.len() == 0 {
        Seq::empty()
    } else if wanted.contains(entries.last().0) {
        unwanted(entries.drop_last(), wanted)
    } else {
        placed(unwanted(entries.drop_last(), wanted), entries.last().0)
    }
}

/// In code-point order.
pub open spec fn ordered(names: Seq<Seq<char>>) -> bool {
    forall|i: int, j: int| 0 <= i < j < names.len() ==> text_le(#[trigger] names[i], #[trigger] names[j])
}

proof fn lemma_le_total(a: Seq<char>, b: Seq<char>)
    ensures
        text_le(a, b) || text_le(b, a),
    decreases a.len(),
{
    if a.len() > 0 && b.len() > 0 && a[0] == b[0] {
        lemma_le_total(a.skip(1), b.skip(1));
    }
}

proof fn lemma_le_transitive(a: Seq<char>, b: Seq<char>, c: Seq<char>)
    requires
        text_le(a, b),
        text_le(b, c),
    ensures
        text_le(a, c),
    decreases a.len(),
{
    if a.len() > 0 && b.len() > 0 && c.len() > 0 && a[0] == b[0] && b[0] == c[0] {
        lemma_le_transitive(a.skip(1), b.skip(1), c.skip(1));
    }
}

proof fn lemma_placed(names: Seq<Seq<char>>, name: Seq<char>)
    requires
        ordered(names),
    ensures
        ordered(placed(names, name)),
        placed(names, name).to_multiset() =~= names.to_multiset().insert(name),
        placed(names, name).len() == names.len() + 1,
        forall|n: Seq<char>| #[trigger] placed(names, name).contains(n) <==> names.contains(n) || n == name,
    decreases names.len(),
{
    broadcast use vstd::seq_lib::group_to_multiset_ensures;

    let all = placed(names, name);
    if names.len() == 0 {
        assert(all =~= names.push(name));
    } else if text_le(names.last(), name) {
        assert forall|i: int, j: int| 0 <= i < j < all.len() implies text_le(
            #[trigger] all[i],
            #[trigger] all[j],
        ) by {
            if j == names.len() && i < names.len() - 1 {
                assert(text_le(names[i], names[names.len() - 1]));
                lemma_le_transitive(names[i], names.last(), name);
            }
        }
    } else {
        let front = names.drop_last();
        assert(ordered(front)) by {
            assert forall|i: int, j: int| 0 <= i < j < front.len() implies text_le(
                #[trigger] front[i],
                #[trigger] front[j],
            ) by {
                assert(text_le(names[i], names[j]));
            }
        }
        lemma_placed(front, name);
        lemma_le_total(names.last(), name);
        let part = placed(front, name);
        assert forall|i: int, j: int| 0 <= i < j < all.len() implies text_le(
            #[trigger] all[i],
            #[trigger] all[j],
        ) by {
            if j == part.len() {
                assert(part.contains(part[i]));
                if part[i] != name {
                    let k = choose|k: int| 0 <= k < front.len() && front[k] == part[i];
                    assert(text_le(names[k], names[names.len() - 1]));
                }
            } else {
                assert(text_le(part[i], part[j]));
            }
        }
        assert(names =~= front.push(names.last()));
    }
    assert(names.to_multiset().insert(name) =~= names.push(name).to_multiset());
    assert forall|n: Seq<char>| #[trigger] all.contains(n) <==> names.contains(n) || n == name by {
        assert(all.contains(n) <==> all.to_multiset().count(n) > 0);
        assert(names.push(name).contains(n) <==> names.push(name).to_multiset().count(n) > 0);
        if names.contains(n) {
            let k = choose|k: int| 0 <= k < names.len() && names[k] == n;
            assert(names.push(name)[k] == n);
        }
        assert(names.push(name)[names.len() as int] == name);
    }
}

/// The names that are no longer wanted come in code-point order, and they are
/// the known names that are not wanted.
pub proof fn law_unwanted(entries: Entries, wanted: Seq<Seq<char>>)
    ensures
        ordered(unwanted(entries, wanted)),
        forall|n: Seq<char>| #[trigger]
            unwanted(entries, wanted).contains(n) <==> known(entries, n) && !wanted.contains(n),
    decreases entries.len(),
{
    if entries.len() > 0 {
        let rest = entries.drop_last();
        law_unwanted(rest, wanted);
        let part = unwanted(rest, wanted);
        if !wanted.contains(entries.last().0) {
            lemma_placed(part, entries.last().0);
        }
        assert forall|n: Seq<char>| #[trigger]
            unwanted(entries, wanted).contains(n) <==> known(entries, n) && !wanted.contains(n) by {
            assert(part.contains(n) <==> known(rest, n) && !wanted.contains(n));
        }
    }
}

fn place(names: &mut Vec<String>, name: String)
    ensures
        final(names).deep_view() == placed(old(names).deep_view(), name@),
{
    let ghost all = names.deep_view();
    let mut k: usize = names.len();
    assert(all.take(k as int) =~= all);
    assert(placed(all, name@) =~= placed(all.take(k as int), name@) + all.skip(k as int));
    while k > 0 && !in_order(names[k - 1].as_str(), name.as_str())
        invariant
            k <= names@.len(),
            all == names.deep_view(),
            names.deep_view() == old(names).deep_view(),
            placed(all, name@) == placed(all.take(k as int), name@) + all.skip(k as int),
        decreases k,
    {
        assert(all.take(k as int).last() == names@[k - 1]@);
        assert(all.take(k as int).drop_last() =~= all.take(k - 1));
        assert(placed(all, name@) =~= placed(all.take(k - 1), name@) + all.skip(k - 1));
        k = k - 1;
    }
    proof {
        if k > 0 {
            assert(all.take(k as int).last() == names@[k - 1]@);
        }
        assert(placed(all.take(k as int), name@) =~= all.take(k as int).push(name@));
        assert(all.insert(k as int, name@) =~= all.take(k as int).push(name@) + all.skip(k as int));
    }
    names.insert(k, name);
    assert(names.deep_view() =~= all.insert(k as int, name@));
}

impl Registry {
    /// The known names that are not in `wanted`, in code-point order.
    pub fn not_in(&self, wanted: &Vec<String>) -> (r: Vec<String>)
        ensures
            r.deep_view() == unwanted(self.deep_view(), wanted.deep_view()),
    {
        let mut names: Vec<String> = Vec::new();
        let ghost all = self.entries.deep_view();
        let mut i: usize = 0;
        assert(names.deep_view() =~= unwanted(all.take(0), wanted.deep_view()));
        while i < self.entries.len()
            invariant
                i <= self.entries@.len(),
                all == self.entries.deep_view(),
                names.deep_view() == unwanted(all.take(i as int), wanted.deep_view()),
            decreases self.entries@.len() - i,
        {
            assert(all.take(i + 1).drop_last() =~= all.take(i as int));
            assert(all.take(i + 1).last() == self.entries@[i as int].deep_view());
            if !listed(wanted, self.entries[i].0.as_str()) {
                place(&mut names, self.entries[i].0.clone());
            }
            i = i + 1;
        }
        assert(all.take(i as int) =~= all);
        names
    }
}

/// Storing an identifier makes it the one that is found by its name, removing a
/// name leaves none, and neither touches any other name.
pub proof fn law_registry_remembers(
    filled: &mut Registry,
    name: String,
    id: String,
    emptied: &mut Registry,
    gone: &str,
    other: Seq<char>,
)
    requires
        distinct(old(filled).deep_view()),
        distinct(old(emptied).deep_view()),
        call_ensures(Registry::insert, (filled, name, id), ()),
        call_ensures(Registry::remove, (emptied, gone), ()),
    ensures
        lookup(final(filled).deep_view(), name@) == Some(id@),
        other != name@ ==> lookup(final(filled).deep_view(), other) == lookup(old(filled).deep_view(), other),
        lookup(final(emptied).deep_view(), gone@) is None,
        other != gone@ ==> lookup(final(emptied).deep_view(), other) == lookup(old(emptied).deep_view(), other),
{
    law_stored(old(filled).deep_view(), name@, id@, other);
    law_without(old(emptied).deep_view(), gone@, other);
}

} // verus!
