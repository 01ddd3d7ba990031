//! A map of source code: what the items of a file are called.

use vstd::prelude::*;

use crate::session::{say, Log, Note};
use crate::text::{cat2, cat3};

verus! {

/// What a file declares.
#[derive(Debug, PartialEq, Eq)]
pub struct FileMap {
    pub structs: Vec<String>,
    pub enums: Vec<String>,
    pub traits: Vec<String>,
    pub functions: Vec<String>,
    /// As `Type::method`.
    pub methods: Vec<String>,
}

pub struct MapModel {
    pub structs: Seq<Seq<char>>,
    pub enums: Seq<Seq<char>>,
    pub traits: Seq<Seq<char>>,
    pub functions: Seq<Seq<char>>,
    pub methods: Seq<Seq<char>>,
}

impl DeepView for FileMap {
    type V = MapModel;

    open spec fn deep_view(&self) -> MapModel {
        MapModel {
            structs: self.structs.deep_view(),
            enums: self.enums.deep_view(),
            traits: self.traits.deep_view(),
            functions: self.functions.deep_view(),
            methods: self.methods.deep_view(),
        }
    }
}

/// The map of a file that declares nothing.
pub open spec fn empty_map() -> MapModel {
    MapModel {
        structs: Seq::empty(),
        enums: Seq::empty(),
        traits: Seq::empty(),
        functions: Seq::empty(),
        methods: Seq::empty(),
    }
}

/// Something that a file declares.
pub enum Item<S> {
    Struct(S),
    Enum(S),
    Trait(S),
    Function(S),
    /// An `impl` block begins; it is for this type, where that has a name.
    ImplBegin(Option<S>),
    Method(S),
    ImplEnd,
}

impl<S: DeepView> DeepView for Item<S> {
    type V = Item<S::V>;

    open spec fn deep_view(&self) -> Item<S::V> {
        match *self {
            Item::Struct(s) => Item::Struct(s.deep_view()),
            Item::Enum(s) => Item::Enum(s.deep_view()),
            Item::Trait(s) => Item::Trait(s.deep_view()),
            Item::Function(s) => Item::Function(s.deep_view()),
            Item::ImplBegin(s) => Item::ImplBegin(s.deep_view()),
            Item::Method(s) => Item::Method(s.deep_view()),
            Item::ImplEnd => Item::ImplEnd,
        }
    }
}

/// Goes over the items of a file and keeps their names.
pub struct MapVisitor {
    pub map: FileMap,
    /// The type that the `impl` block at hand is for.
    pub current_impl_target: Option<String>,
}

pub struct VisitorModel {
    pub map: MapModel,
    pub target: Option<Seq<char>>,
}

impl DeepView for MapVisitor {
    type V = VisitorModel;

    open spec fn deep_view(&self) -> VisitorModel {
        VisitorModel { map: self.map.deep_view(), target: self.current_impl_target.deep_view() }
    }
}

/// What going over an item does to a visitor. A method outside of a named
/// type's `impl` block is passed over.
pub open spec fn visited(v: VisitorModel, item: Item<Seq<char>>) -> VisitorModel {
    match item {
        Item::Struct(name) => VisitorModel {
            map: MapModel { structs: v.map.structs.push(name), ..v.map },
            ..v
        },
        Item::Enum(name) => VisitorModel { map: MapModel { enums: v.map.enums.push(name), ..v.map }, ..v },
        Item::Trait(name) => VisitorModel {
            map: MapModel { traits: v.map.traits.push(name), ..v.map },
            ..v
        },
        Item::Function(name) => VisitorModel {
            map: MapModel { functions: v.map.functions.push(name), ..v.map },
            ..v
        },
        Item::ImplBegin(Some(name)) => VisitorModel { target: Some(name), ..v },
        Item::ImplBegin(None) => v,
        Item::Method(name) => match v.target {
            Some(target) => VisitorModel {
                map: MapModel { methods: v.map.methods.push(target + "::"@ + name), ..v.map },
                ..v
            },
            None => v,
        },
        Item::ImplEnd => VisitorModel { target: None, ..v },
    }
}

/// A method is kept under the name of the type whose `impl` block it is in;
/// behind the block, a method is passed over.
pub proof fn law_method_belongs_to_its_type(v: VisitorModel, target: Seq<char>, name: Seq<char>)
    ensures
        visited(visited(v, Item::ImplBegin(Some(target))), Item::Method(name)).map == (MapModel {
            methods: v.map.methods.push(target + "::"@ + name),
            ..v.map
        }),
        visited(visited(v, Item::ImplEnd), Item::Method(name)).map == v.map,
{
}

/// Every item is kept in the list of its kind, behind those that were kept
/// before, and no other list changes. Only `impl` blocks change the type that
/// methods belong to, and one for a type without a name does not.
pub proof fn law_items_kept_by_kind(v: VisitorModel, name: Seq<char>)
    ensures
        visited(v, Item::Struct(name)) == (VisitorModel {
            map: MapModel {
                structs: v.map.structs.push(name),
                enums: v.map.enums,
                traits: v.map.traits,
                functions: v.map.functions,
                methods: v.map.methods,
            },
            target: v.target,
        }),
        visited(v, Item::Enum(name)) == (VisitorModel {
            map: MapModel {
                structs: v.map.structs,
                enums: v.map.enums.push(name),
                traits: v.map.traits,
                functions: v.map.functions,
                methods: v.map.methods,
            },
            target: v.target,
        }),
        visited(v, Item::Trait(name)) == (VisitorModel {
            map: MapModel {
                structs: v.map.structs,
                enums: v.map.enums,
                traits: v.map.traits.push(name),
                functions: v.map.functions,
                methods: v.map.methods,
            },
            target: v.target,
        }),
        visited(v, Item::Function(name)) == (VisitorModel {
            map: MapModel {
                structs: v.map.structs,
                enums: v.map.enums,
                traits: v.map.traits,
                functions: v.map.functions.push(name),
                methods: v.map.methods,
            },
            target: v.target,
        }),
        visited(v, Item::ImplBegin(Some(name))).target == Some(name),
        visited(v, Item::ImplBegin(Some(name))).map == v.map,
        visited(v, Item::ImplBegin(None)) == v,
        visited(v, Item::ImplEnd).target is None,
        visited(v, Item::ImplEnd).map == v.map,
        visited(v, Item::Method(name)).target == v.target,
{
}

impl MapVisitor {
    /// A visitor that has seen nothing yet.
    pub fn new() -> (r: MapVisitor)
        ensures
            r.deep_view() == (VisitorModel { map: empty_map(), target: None }),
    {
        let map = FileMap {
            structs: Vec::new(),
            enums: Vec::new(),
            traits: Vec::new(),
            functions: Vec::new(),
            methods: Vec::new(),
        };
        assert(map.structs.deep_view() =~= Seq::<Seq<char>>::empty());
        assert(map.enums.deep_view() =~= Seq::<Seq<char>>::empty());
        assert(map.traits.deep_view() =~= Seq::<Seq<char>>::empty());
        assert(map.functions.deep_view() =~= Seq::<Seq<char>>::empty());
        assert(map.methods.deep_view() =~= Seq::<Seq<char>>::empty());
        MapVisitor { map, current_impl_target: None }
    }

    /// Go over an item.
    pub fn visit(self, item: Item<String>) -> (r: MapVisitor)
        ensures
            r.deep_view() == visited(self.deep_view(), item.deep_view()),
    {
        let MapVisitor { map, current_impl_target } = self;
        let FileMap { structs, enums, traits, functions, methods } = map;
        let mut structs = structs;
        let mut enums = enums;
        let mut traits = traits;
        let mut functions = functions;
        let mut methods = methods;
        let mut target = current_impl_target;
        match item {
            Item::Struct(name) => keep(&mut structs, name),
            Item::Enum(name) => keep(&mut enums, name),
            Item::Trait(name) => keep(&mut traits, name),
            Item::Function(name) => keep(&mut functions, name),
            Item::ImplBegin(name) => {
                if name.is_some() {
                    target = name;
                }
            },
            Item::Method(name) => {
                if let Some(t) = &target {
                    keep(&mut methods, cat3(t.as_str(), "::", name.as_str()));
                }
            },
            Item::ImplEnd => {
                target = None;
            },
        }
        MapVisitor {
            map: FileMap { structs, enums, traits, functions, methods },
            current_impl_target: target,
        }
    }
}

fn keep(names: &mut Vec<String>, name: String)
    ensures
        final(names).deep_view() == old(names).deep_view().push(name@),
{
    names.push(name);
    assert(names.deep_view() =~= old(names).deep_view().push(name@));
}

/// One line per name.
pub open spec fn name_lines(names: Seq<Seq<char>>, log: Log) -> Log
    decreases names.len(),
{
    if names.len() == 0 {
        log
    } else {
        name_lines(names.drop_last(), log).push(Note::Say("     - "@ + names.last()))
    }
}

/// A section of a map, where it has any names.
pub open spec fn section(title: Seq<char>, names: Seq<Seq<char>>, log: Log) -> Log {
    if names.len() == 0 {
        log
    } else {
        name_lines(names, log.push(Note::Say(title)))
    }
}

/// The lines that show the map of a file; one that declares nothing is passed
/// over.
pub open spec fn map_lines(path: Seq<char>, map: MapModel, log: Log) -> Log {
    if map.structs.len() == 0 && map.enums.len() == 0 && map.traits.len() == 0 && map.functions.len() == 0
        && map.methods.len() == 0 {
        log
    } else {
        section(
            "  🔧 Impl Methods:"@,
            map.methods,
            section(
                "  ⚡ Free Functions:"@,
                map.functions,
                section(
                    "  📜 Traits:"@,
                    map.traits,
                    section(
                        "  🎲 Enums:"@,
                        map.enums,
                        section("  📦 Structs:"@, map.structs, log.push(Note::Say("\n📄 "@ + path))),
                    ),
                ),
            ),
        )
    }
}

proof fn lemma_name_lines(names: Seq<Seq<char>>, k: int, log: Log)
    ensures
        name_lines(names, log).len() == log.len() + names.len(),
        forall|i: int| 0 <= i < log.len() ==> #[trigger] name_lines(names, log)[i] == log[i],
        0 <= k < names.len() ==> name_lines(names, log)[log.len() + k] == Note::Say("     - "@ + names[k]),
    decreases names.len(),
{
    if names.len() > 0 {
        lemma_name_lines(names.drop_last(), k, log);
    }
}

/// A section has its title and one line for each name, in order, behind what
/// was there before, and nothing where there is no name.
pub proof fn law_section_lists_every_name(title: Seq<char>, names: Seq<Seq<char>>, k: int, i: int, log: Log)
    ensures
        names.len() == 0 ==> section(title, names, log) == log,
        names.len() > 0 ==> {
            let all = section(title, names, log);
            &&& all.len() == log.len() + 1 + names.len()
            &&& 0 <= i < log.len() ==> all[i] == log[i]
            &&& all[log.len() as int] == Note::Say(title)
            &&& 0 <= k < names.len() ==> all[log.len() + 1 + k] == Note::Say("     - "@ + names[k])
        },
{
    lemma_name_lines(names, k, log.push(Note::Say(title)));
    if names.len() > 0 && 0 <= i < log.len() {
        assert(name_lines(names, log.push(Note::Say(title)))[i] == log.push(Note::Say(title))[i]);
    }
    if names.len() > 0 {
        assert(name_lines(names, log.push(Note::Say(title)))[log.len() as int] == log.push(Note::Say(title))[log.len() as int]);
    }
}

/// The map of a file has as many lines as it has names, besides one for the
/// file and one for each kind that has a name; and none where it has no name.
pub proof fn law_map_shows_every_name(path: Seq<char>, map: MapModel, log: Log)
    ensures
        ({
            let total = map.structs.len() + map.enums.len() + map.traits.len() + map.functions.len()
                + map.methods.len();
            let titled = |names: Seq<Seq<char>>| if names.len() > 0 {
                1int
            } else {
                0
            };
            &&& total == 0 ==> map_lines(path, map, log) == log
            &&& total > 0 ==> map_lines(path, map, log).len() == log.len() + 1 + total + titled(map.structs) + titled(
                map.enums,
            ) + titled(map.traits) + titled(map.functions) + titled(map.methods)
        }),
{
    let l0 = log.push(Note::Say("\n📄 "@ + path));
    law_section_lists_every_name("  📦 Structs:"@, map.structs, 0, 0, l0);
    let l1 = section("  📦 Structs:"@, map.structs, l0);
    law_section_lists_every_name("  🎲 Enums:"@, map.enums, 0, 0, l1);
    let l2 = section("  🎲 Enums:"@, map.enums, l1);
    law_section_lists_every_name("  📜 Traits:"@, map.traits, 0, 0, l2);
    let l3 = section("  📜 Traits:"@, map.traits, l2);
    law_section_lists_every_name("  ⚡ Free Functions:"@, map.functions, 0, 0, l3);
    let l4 = section("  ⚡ Free Functions:"@, map.functions, l3);
    law_section_lists_every_name("  🔧 Impl Methods:"@, map.methods, 0, 0, l4);
}

fn show_section(title: &str, names: &Vec<String>, log: &mut Vec<Note<String>>)
    ensures
        final(log).deep_view() == section(title@, names.deep_view(), old(log).deep_view()),
{
    if names.len() == 0 {
        return;
    }
    say(log, title.to_owned());
    let ghost all = names.deep_view();
    let ghost start = log.deep_view();
    let mut i: usize = 0;
    while i < names.len()
        invariant
            i <= names@.len(),
            all == names.deep_view(),
            log.deep_view() == name_lines(all.take(i as int), start),
        decreases names@.len() - i,
    {
        assert(all.take(i + 1).drop_last() =~= all.take(i as int));
        assert(all.take(i + 1).last() == names@[i as int]@);
        say(log, cat2("     - ", names[i].as_str()));
        i = i + 1;
    }
    assert(all.take(i as int) =~= all);
}

/// Show the map of a file.
pub fn print_map(path: &str, map: &FileMap, log: &mut Vec<Note<String>>)
    ensures
        final(log).deep_view() == map_lines(path@, map.deep_view(), old(log).deep_view()),
{
    if map.structs.len() == 0 && map.enums.len() == 0 && map.traits.len() == 0 && map.functions.len() == 0
        && map.methods.len() == 0 {
        return;
    }
    say(log, cat2("\n📄 ", path));
    show_section("  📦 Structs:", &map.structs, log);
    show_section("  🎲 Enums:", &map.enums, log);
    show_section("  📜 Traits:", &map.traits, log);
    show_section("  ⚡ Free Functions:", &map.functions, log);
    show_section("  🔧 Impl Methods:", &map.methods, log);
}

} // verus!
