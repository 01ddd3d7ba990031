//! The instances and disks that were created for a configuration.

use vstd::prelude::*;

use crate::json::{
    field, found, get, get_item, gives_tables, has_texts, is_texts, item, json_view, member,
    named_once, parse_json, parsed_json, pretty_tables, print_tables, text_of, Json, JsonModel,
};
use crate::registry::{law_stored, lookup, stored, Entries, Registry};
use crate::text::cat2;

verus! {

/// What was created: names of nodes and disks with the provider's identifiers.
pub struct State {
    pub instances: Registry,
    pub disks: Registry,
}

/// What a state reads as.
pub struct StateModel {
    pub instances: Entries,
    pub disks: Entries,
}

impl DeepView for State {
    type V = StateModel;

    open spec fn deep_view(&self) -> StateModel {
        StateModel { instances: self.instances.deep_view(), disks: self.disks.deep_view() }
    }
}

/// Nothing was created yet.
pub open spec fn empty_state() -> StateModel {
    StateModel { instances: Entries::empty(), disks: Entries::empty() }
}

impl Default for State {
    /// Nothing was created yet.
    fn default() -> (r: State)
        ensures
            r.deep_view() == empty_state(),
    {
        State { instances: Registry::new(), disks: Registry::new() }
    }
}

// ---------------------------------------------------------------------------
// The state file
// ---------------------------------------------------------------------------

/// The names and identifiers in an object; none where a value is not a text.
pub open spec fn entries_of(members: Seq<(Seq<char>, JsonModel)>) -> Option<Entries>
    decreases members.len(),
{
    if members.len() == 0 {
        Some(Seq::empty())
    } else {
        match (entries_of(members.drop_last()), members.last().1) {
            (Some(entries), JsonModel::Text(id)) => Some(stored(entries, members.last().0, id)),
            _ => None,
        }
    }
}

/// The names and identifiers in a value that should be an object.
pub open spec fn registry_in(j: Option<JsonModel>) -> Option<Entries> {
    match j {
        Some(JsonModel::Object(members)) => entries_of(members),
        _ => None,
    }
}

/// A part of a state: the member called `key` of an object, or the element at
/// `i` of an array, which holds nothing but the parts.
pub open spec fn part(tree: JsonModel, key: Seq<char>, i: int) -> Option<JsonModel> {
    match tree {
        JsonModel::Array(items) => if items.len() <= 2 {
            item(Some(tree), i)
        } else {
            None
        },
        _ => field(Some(tree), key),
    }
}

/// The state in a document. The disks may be left out.
pub open spec fn state_in(tree: JsonModel) -> Option<StateModel> {
    match registry_in(part(tree, "instances"@, 0)) {
        None => None,
        Some(instances) => if part(tree, "disks"@, 1) is None {
            Some(StateModel { instances, disks: Seq::empty() })
        } else {
            match registry_in(part(tree, "disks"@, 1)) {
                None => None,
                Some(disks) => Some(StateModel { instances, disks }),
            }
        },
    }
}

/// What the content of a state file says; nothing was created where it is not
/// a state.
pub open spec fn state_read(content: Seq<char>) -> StateModel {
    match parsed_json(content) {
        Ok(tree) => match state_in(tree) {
            Some(state) => state,
            None => empty_state(),
        },
        Err(_) => empty_state(),
    }
}

/// Whether two states know the same names by the same identifiers.
pub open spec fn same_state(a: StateModel, b: StateModel) -> bool {
    &&& forall|name: Seq<char>| #[trigger] lookup(a.instances, name) == lookup(b.instances, name)
    &&& forall|name: Seq<char>| #[trigger] lookup(a.disks, name) == lookup(b.disks, name)
}

/// An object of texts is read entry by entry.
proof fn lemma_entries_of(members: Seq<(Seq<char>, JsonModel)>, key: Seq<char>)
    requires
        is_texts(JsonModel::Object(members)),
    ensures
        entries_of(members) matches Some(entries) && lookup(entries, key) == text_of(member(members, key)),
    decreases members.len(),
{
    if members.len() > 0 {
        let rest = members.drop_last();
        assert forall|i: int| 0 <= i < rest.len() implies (#[trigger] rest[i]).1 is Text by {
            assert(members[i].1 is Text);
        }
        assert(members[members.len() - 1].1 is Text);
        lemma_entries_of(rest, key);
        law_stored(entries_of(rest)->0, members.last().0, members.last().1->Text_0, key);
    }
}

proof fn lemma_texts_read(table: JsonModel, entries: Entries)
    requires
        has_texts(table, entries),
    ensures
        registry_in(Some(table)) matches Some(read) && forall|name: Seq<char>| #[trigger]
            lookup(read, name) == lookup(entries, name),
{
    let members = table->Object_0;
    lemma_entries_of(members, Seq::empty());
    let read = entries_of(members)->0;
    assert forall|name: Seq<char>| #[trigger] lookup(read, name) == lookup(entries, name) by {
        lemma_entries_of(members, name);
        assert(text_of(field(Some(table), name)) == lookup(entries, name));
    }
}

/// A document with an object of texts as its instances, and one as its disks
/// or none, is a state that knows exactly those names by those identifiers. The
/// two objects may also be the elements of an array. A document that has no
/// such instances, or something else as its disks, is no state.
pub proof fn law_state_is_read(tree: JsonModel, instances: JsonModel, disks: JsonModel, name: Seq<char>)
    requires
        is_texts(instances),
        is_texts(disks),
    ensures
        !(tree is Array) && field(Some(tree), "instances"@) == Some(instances) && field(Some(tree), "disks"@)
            == Some(disks) ==> (state_in(tree) matches Some(state) && lookup(state.instances, name) == text_of(
            field(Some(instances), name),
        ) && lookup(state.disks, name) == text_of(field(Some(disks), name))),
        !(tree is Array) && field(Some(tree), "instances"@) == Some(instances) && field(Some(tree), "disks"@) is None
            ==> (state_in(tree) matches Some(state) && lookup(state.instances, name) == text_of(
            field(Some(instances), name),
        ) && lookup(state.disks, name) is None),
        state_in(JsonModel::Array(seq![instances, disks])) matches Some(state) && lookup(state.instances, name)
            == text_of(field(Some(instances), name)) && lookup(state.disks, name) == text_of(field(Some(disks), name)),
        !(tree is Array) && !(field(Some(tree), "instances"@) matches Some(JsonModel::Object(_))) ==> state_in(
            tree,
        ) is None,
        !(tree is Array) && field(Some(tree), "disks"@) is Some && !(field(Some(tree), "disks"@) matches Some(
            JsonModel::Object(_),
        )) ==> state_in(tree) is None,
{
    lemma_entries_of(instances->Object_0, name);
    lemma_entries_of(disks->Object_0, name);
    let pair = seq![instances, disks];
    assert(part(JsonModel::Array(pair), "instances"@, 0) == Some(instances));
    assert(part(JsonModel::Array(pair), "disks"@, 1) == Some(disks));
}

/// What is no state, and what is no JSON, is read as the state in which nothing
/// was created.
pub proof fn law_no_state_is_empty(content: Seq<char>, name: Seq<char>)
    ensures
        parsed_json(content) is Err || (parsed_json(content) matches Ok(tree) && state_in(tree) is None) ==> lookup(
            state_read(content).instances,
            name,
        ) is None && lookup(state_read(content).disks, name) is None,
        parsed_json(content) matches Ok(tree) ==> (state_in(tree) matches Some(state) ==> state_read(content) == state),
{
}

/// A file holds the instances under that name and the disks under that name,
/// for any state.
pub proof fn law_state_file_holds_both(state: StateModel)
    ensures
        state_tables(state).contains(("instances"@, state.instances)),
        state_tables(state).contains(("disks"@, state.disks)),
        state_tables(state).len() == 2,
{
    assert(state_tables(state)[0] == ("instances"@, state.instances));
    assert(state_tables(state)[1] == ("disks"@, state.disks));
}

/// What a state file holds: the instances and the disks.
pub open spec fn state_tables(state: StateModel) -> Seq<(Seq<char>, Entries)> {
    seq![("instances"@, state.instances), ("disks"@, state.disks)]
}

proof fn lemma_state_read(content: Seq<char>, state: StateModel)
    requires
        gives_tables(parsed_json(content), state_tables(state)),
    ensures
        same_state(state_read(content), state),
{
    let tables = state_tables(state);
    reveal_strlit("instances");
    reveal_strlit("disks");
    assert("instances"@.len() != "disks"@.len());
    assert(named_once(tables, 0));
    assert(named_once(tables, 1));
    let tree = parsed_json(content)->Ok_0;
    lemma_texts_read(field(Some(tree), "instances"@)->0, state.instances);
    lemma_texts_read(field(Some(tree), "disks"@)->0, state.disks);
}

/// A part of a state.
fn find_part<'a>(tree: &'a Json, key: &str, i: usize) -> (r: Option<&'a Json>)
    ensures
        found(r) == part(tree.deep_view(), key@, i as int),
{
    match tree {
        Json::Array(items) => if items.len() <= 2 {
            get_item(Some(tree), i)
        } else {
            None
        },
        _ => get(Some(tree), key),
    }
}

/// The names and identifiers in an object.
fn read_registry(members: &Vec<(String, Json)>) -> (r: Option<Registry>)
    ensures
        r.deep_view() == entries_of(json_view(Json::Object(*members))->Object_0),
{
    let ghost all = json_view(Json::Object(*members))->Object_0;
    let mut registry = Registry::new();
    let mut i: usize = 0;
    while i < members.len()
        invariant
            i <= members@.len(),
            all.len() == members@.len(),
            all == json_view(Json::Object(*members))->Object_0,
            forall|k: int|
                0 <= k < members@.len() ==> #[trigger] all[k] == (members@[k].0@, json_view(members@[k].1)),
            entries_of(all.take(i as int)) == Some(registry.deep_view()),
        decreases members@.len() - i,
    {
        assert(all.take(i + 1).drop_last() =~= all.take(i as int));
        assert(all.take(i + 1).last() == all[i as int]);
        match &members[i].1 {
            Json::Text(id) => registry.insert(members[i].0.clone(), id.clone()),
            _ => {
                proof {
                    lemma_none_stays(all, i + 1);
                }
                return None;
            },
        }
        i = i + 1;
    }
    assert(all.take(i as int) =~= all);
    Some(registry)
}

proof fn lemma_none_stays(members: Seq<(Seq<char>, JsonModel)>, n: int)
    requires
        0 <= n <= members.len(),
        entries_of(members.take(n)) is None,
    ensures
        entries_of(members) is None,
    decreases members.len() - n,
{
    if n < members.len() {
        assert(members.take(n + 1).drop_last() =~= members.take(n));
        lemma_none_stays(members, n + 1);
    } else {
        assert(members.take(n) =~= members);
    }
}

impl State {
    /// The file that holds the state of a configuration.
    pub fn file_path(config_path: &str) -> (r: String)
        ensures
            r@ == config_path@ + ".state"@,
    {
        cat2(config_path, ".state")
    }

    /// The state in a document.
    pub fn find(tree: &Json) -> (r: Option<State>)
        ensures
            r.deep_view() == state_in(tree.deep_view()),
    {
        let instances = match find_part(tree, "instances", 0) {
            Some(Json::Object(members)) => read_registry(members)?,
            _ => return None,
        };
        let disks = match find_part(tree, "disks", 1) {
            None => Registry::new(),
            Some(Json::Object(members)) => read_registry(members)?,
            _ => return None,
        };
        Some(State { instances, disks })
    }

    /// The state to work with: what the content of the state file says, or
    /// nothing where there is no file to read.
    pub fn load(content: &Option<String>) -> (r: State)
        ensures
            r.deep_view() == match content.deep_view() {
                Some(content) => state_read(content),
                None => empty_state(),
            },
    {
        match content {
            Some(content) => match parse_json(content.as_str()) {
                Ok(tree) => match State::find(&tree) {
                    Some(state) => state,
                    None => State::default(),
                },
                Err(_) => State::default(),
            },
            None => State::default(),
        }
    }

    /// The content of the state file. Loading it gives back every name with
    /// its identifier, and no other name.
    pub fn save(&self) -> (r: String)
        ensures
            r@ == pretty_tables(state_tables(self.deep_view())),
            same_state(state_read(r@), self.deep_view()),
    {
        let tables: Vec<(String, Vec<(String, String)>)> = vec![
            ("instances".to_owned(), self.instances.entries()),
            ("disks".to_owned(), self.disks.entries()),
        ];
        assert(tables.deep_view() =~= state_tables(self.deep_view()));
        let r = print_tables(&tables);
        proof {
            lemma_state_read(r@, self.deep_view());
        }
        r
    }
}

/// What is saved is loaded again: every name with its identifier, and no other.
/// Without a file nothing was created. The file lies beside the configuration.
pub proof fn law_saved_state_is_loaded(
    state: &State,
    content: String,
    loaded: State,
    fresh: State,
    config_path: &str,
    path: String,
    name: Seq<char>,
)
    requires
        call_ensures(State::save, (state,), content),
        call_ensures(State::load, (&Some(content),), loaded),
        call_ensures(State::load, (&None::<String>,), fresh),
        call_ensures(State::file_path, (config_path,), path),
    ensures
        lookup(loaded.instances.deep_view(), name) == lookup(state.instances.deep_view(), name),
        lookup(loaded.disks.deep_view(), name) == lookup(state.disks.deep_view(), name),
        lookup(fresh.instances.deep_view(), name) is None,
        lookup(fresh.disks.deep_view(), name) is None,
        path@ == config_path@ + ".state"@,
{
    assert(loaded.deep_view() == state_read(content@));
    assert(fresh.deep_view() == empty_state());
    assert(lookup(loaded.deep_view().instances, name) == lookup(state.deep_view().instances, name));
    assert(lookup(loaded.deep_view().disks, name) == lookup(state.deep_view().disks, name));
}

} // verus!
