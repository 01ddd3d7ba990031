use maglev::mapper::{print_map, FileMap, Item, MapVisitor};
use maglev::session::Note;

fn say(s: &str) -> Note<String> {
    Note::Say(s.to_string())
}

fn name(s: &str) -> String {
    s.to_string()
}

fn mapped() -> FileMap {
    [
        Item::Struct(name("State")),
        Item::Enum(name("Kind")),
        Item::Trait(name("Provider")),
        Item::Function(name("main")),
        Item::ImplBegin(Some(name("State"))),
        Item::Method(name("load")),
        Item::Function(name("inner")),
        Item::Method(name("save")),
        Item::ImplEnd,
        Item::Method(name("stray")),
        Item::ImplBegin(None),
        Item::Method(name("nameless")),
        Item::ImplEnd,
    ]
    .into_iter()
    .fold(MapVisitor::new(), |v, item| v.visit(item))
    .map
}

#[test]
fn items_are_kept_by_kind() {
    let map = mapped();
    assert_eq!(map.structs, vec![name("State")]);
    assert_eq!(map.enums, vec![name("Kind")]);
    assert_eq!(map.traits, vec![name("Provider")]);
    assert_eq!(map.functions, vec![name("main"), name("inner")]);
}

#[test]
fn methods_belong_to_their_type() {
    assert_eq!(mapped().methods, vec![name("State::load"), name("State::save")]);
}

#[test]
fn map_is_shown_in_sections() {
    let mut log = Vec::new();
    print_map("src/state.rs", &mapped(), &mut log);
    assert_eq!(
        log,
        vec![
            say("\n📄 src/state.rs"),
            say("  📦 Structs:"),
            say("     - State"),
            say("  🎲 Enums:"),
            say("     - Kind"),
            say("  📜 Traits:"),
            say("     - Provider"),
            say("  ⚡ Free Functions:"),
            say("     - main"),
            say("     - inner"),
            say("  🔧 Impl Methods:"),
            say("     - State::load"),
            say("     - State::save"),
        ]
    );
}

#[test]
fn file_that_declares_nothing_is_passed_over() {
    let mut log = Vec::new();
    print_map("src/empty.rs", &MapVisitor::new().map, &mut log);
    assert!(log.is_empty());
    print_map("src/one.rs", &MapVisitor::new().visit(Item::Enum(name("E"))).map, &mut log);
    assert_eq!(log, vec![say("\n📄 src/one.rs"), say("  🎲 Enums:"), say("     - E")]);
}
