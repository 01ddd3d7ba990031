//! JSON documents as trees.

use serde_json::Value;
use std::collections::BTreeMap;
use vstd::prelude::*;

use crate::endpoint::is_digit;
use crate::registry::{lookup, Entries};
use crate::text::{chars_of, same};

verus! {

/// A JSON document. A number is kept as its text.
#[derive(Debug, PartialEq, Eq)]
pub enum Json {
    Null,
    Bool(bool),
    Number(String),
    Text(String),
    Array(Vec<Json>),
    /// The members; those of a document that was parsed stand in the order of
    /// their keys.
    Object(Vec<(String, Json)>),
}

/// What a JSON document reads as.
pub enum JsonModel {
    Null,
    Bool(bool),
    Number(Seq<char>),
    Text(Seq<char>),
    Array(Seq<JsonModel>),
    Object(Seq<(Seq<char>, JsonModel)>),
}

/// What a JSON document reads as.
pub open spec fn json_view(j: Json) -> JsonModel
    decreases j,
{
    match j {
        Json::Null => JsonModel::Null,
        Json::Bool(b) => JsonModel::Bool(b),
        Json::Number(n) => JsonModel::Number(n@),
        Json::Text(s) => JsonModel::Text(s@),
        Json::Array(v) => JsonModel::Array(
            Seq::new(
                v@.len(),
                |i: int|
                    if 0 <= i < v@.len() {
                        json_view(v@[i])
                    } else {
                        JsonModel::Null
                    },
            ),
        ),
        Json::Object(v) => JsonModel::Object(
            Seq::new(
                v@.len(),
                |i: int|
                    if 0 <= i < v@.len() {
                        (v@[i].0@, json_view(v@[i].1))
                    } else {
                        (Seq::empty(), JsonModel::Null)
                    },
            ),
        ),
    }
}

impl DeepView for Json {
    type V = JsonModel;

    open spec fn deep_view(&self) -> JsonModel {
        json_view(*self)
    }
}

// ---------------------------------------------------------------------------
// Reading
// ---------------------------------------------------------------------------

/// What a value that may be absent reads as.
pub open spec fn found(j: Option<&Json>) -> Option<JsonModel> {
    match j {
        Some(v) => Some(v.deep_view()),
        None => None,
    }
}

/// The value of the member called `key`.
pub open spec fn member(members: Seq<(Seq<char>, JsonModel)>, key: Seq<char>) -> Option<JsonModel>
    decreases members.len(),
{
    if members.len() == 0 {
        None
    } else if members.last().0 == key {
        Some(members.last().1)
    } else {
        member(members.drop_last(), key)
    }
}

/// The member called `key` of an object; nothing else has members.
pub open spec fn field(j: Option<JsonModel>, key: Seq<char>) -> Option<JsonModel> {
    match j {
        Some(JsonModel::Object(members)) => member(members, key),
        _ => None,
    }
}

/// The element at `i` of an array; nothing else has elements.
pub open spec fn item(j: Option<JsonModel>, i: int) -> Option<JsonModel> {
    match j {
        Some(JsonModel::Array(items)) => if 0 <= i < items.len() {
            Some(items[i])
        } else {
            None
        },
        _ => None,
    }
}

/// The text of a text; nothing else has one.
pub open spec fn text_of(j: Option<JsonModel>) -> Option<Seq<char>> {
    match j {
        Some(JsonModel::Text(s)) => Some(s),
        _ => None,
    }
}

/// Whether `s` is written with decimal digits alone.
pub open spec fn is_whole(s: Seq<char>) -> bool {
    s.len() > 0 && forall|i: int| 0 <= i < s.len() ==> is_digit(#[trigger] s[i])
}

/// Whether a document is an object with a member of this key and value.
pub open spec fn has_member(j: JsonModel, key: Seq<char>, value: JsonModel) -> bool {
    j matches JsonModel::Object(members) && members.contains((key, value))
}

/// Every member of an object is one that it has.
pub proof fn law_members_are_had(members: Seq<(Seq<char>, JsonModel)>, i: int)
    requires
        0 <= i < members.len(),
    ensures
        has_member(JsonModel::Object(members), members[i].0, members[i].1),
{
    assert(members[i] == (members[i].0, members[i].1));
}

/// A member of an object is found under its key, as long as no member behind it
/// has the same key. Under any other key nothing is found, and nothing is found
/// in what is no object.
pub proof fn law_field(members: Seq<(Seq<char>, JsonModel)>, i: int, key: Seq<char>, j: JsonModel)
    ensures
        0 <= i < members.len() && (forall|k: int|
            i < k < members.len() ==> (#[trigger] members[k]).0 != members[i].0) ==> field(
            Some(JsonModel::Object(members)),
            members[i].0,
        ) == Some(members[i].1),
        (forall|k: int| 0 <= k < members.len() ==> (#[trigger] members[k]).0 != key) ==> field(
            Some(JsonModel::Object(members)),
            key,
        ) is None,
        !(j is Object) ==> field(Some(j), key) is None,
        field(None, key) is None,
    decreases members.len(),
{
    if members.len() > 0 {
        let front = members.drop_last();
        law_field(front, i, key, j);
        if 0 <= i < front.len() && (forall|k: int| i < k < members.len() ==> (#[trigger] members[k]).0 != members[i].0) {
            assert(members[members.len() - 1].0 != members[i].0);
            assert forall|k: int| i < k < front.len() implies (#[trigger] front[k]).0 != front[i].0 by {
                assert(members[k].0 != members[i].0);
            }
        }
        if forall|k: int| 0 <= k < members.len() ==> (#[trigger] members[k]).0 != key {
            assert(members[members.len() - 1].0 != key);
            assert forall|k: int| 0 <= k < front.len() implies (#[trigger] front[k]).0 != key by {
                assert(members[k].0 != key);
            }
        }
    }
}

/// The elements of an array are found by their positions, and a text is its
/// text. Nothing else has elements, and nothing else is a text.
pub proof fn law_item_and_text(items: Seq<JsonModel>, i: int, s: Seq<char>, j: JsonModel)
    ensures
        0 <= i < items.len() ==> item(Some(JsonModel::Array(items)), i) == Some(items[i]),
        !(0 <= i < items.len()) ==> item(Some(JsonModel::Array(items)), i) is None,
        !(j is Array) ==> item(Some(j), i) is None,
        text_of(Some(JsonModel::Text(s))) == Some(s),
        !(j is Text) ==> text_of(Some(j)) is None,
        item(None, i) is None,
        text_of(None) is None,
{
}

/// The member called `key` of an object.
pub fn get<'a>(j: Option<&'a Json>, key: &str) -> (r: Option<&'a Json>)
    ensures
        found(r) == field(found(j), key@),
{
    match j {
        Some(Json::Object(members)) => {
            let ghost all = json_view(*j->0)->Object_0;
            let mut i: usize = members.len();
            assert(all.take(i as int) =~= all);
            while i > 0
                invariant
                    i <= members@.len(),
                    found(j) == Some(JsonModel::Object(all)),
                    all.len() == members@.len(),
                    forall|k: int|
                        0 <= k < members@.len() ==> #[trigger] all[k] == (members@[k].0@, json_view(members@[k].1)),
                    member(all, key@) == member(all.take(i as int), key@),
                decreases i,
            {
                i = i - 1;
                assert(all.take(i + 1).last() == all[i as int]);
                assert(all.take(i + 1).drop_last() =~= all.take(i as int));
                if same(members[i].0.as_str(), key) {
                    return Some(&members[i].1);
                }
            }
            None
        },
        _ => None,
    }
}

/// The element at `i` of an array.
pub fn get_item<'a>(j: Option<&'a Json>, i: usize) -> (r: Option<&'a Json>)
    ensures
        found(r) == item(found(j), i as int),
{
    match j {
        Some(Json::Array(items)) => if i < items.len() {
            Some(&items[i])
        } else {
            None
        },
        _ => None,
    }
}

/// The text of a text.
pub fn get_text(j: Option<&Json>) -> (r: Option<String>)
    ensures
        r.deep_view() == text_of(found(j)),
{
    match j {
        Some(Json::Text(s)) => Some(s.clone()),
        _ => None,
    }
}

/// Whether `s` is written with decimal digits alone.
pub fn whole(s: &str) -> (r: bool)
    ensures
        r == is_whole(s@),
{
    let chars = chars_of(s);
    if chars.len() == 0 {
        return false;
    }
    let mut i: usize = 0;
    while i < chars.len()
        invariant
            chars@ == s@,
            i <= chars@.len(),
            forall|k: int| 0 <= k < i ==> is_digit(#[trigger] s@[k]),
        decreases chars@.len() - i,
    {
        if chars[i] < '0' || chars[i] > '9' {
            assert(!is_digit(s@[i as int]));
            return false;
        }
        i = i + 1;
    }
    true
}

// ---------------------------------------------------------------------------
// Writing
// ---------------------------------------------------------------------------

/// An object without members.
pub fn object() -> (r: Json)
    ensures
        r is Object,
        r.deep_view() == JsonModel::Object(Seq::empty()),
{
    let members: Vec<(String, Json)> = Vec::new();
    let r = Json::Object(members);
    assert(json_view(r)->Object_0 =~= Seq::<(Seq<char>, JsonModel)>::empty());
    r
}

/// An object with one more member.
pub fn put(j: Json, key: &str, value: Json) -> (r: Json)
    requires
        j is Object,
    ensures
        r is Object,
        r.deep_view() == JsonModel::Object(j.deep_view()->Object_0.push((key@, value.deep_view()))),
{
    match j {
        Json::Object(members) => {
            let ghost before = json_view(Json::Object(members))->Object_0;
            let mut members = members;
            members.push((key.to_owned(), value));
            let r = Json::Object(members);
            assert(json_view(r)->Object_0 =~= before.push((key@, json_view(value))));
            r
        },
        other => other,
    }
}

/// A text.
pub fn text(s: &str) -> (r: Json)
    ensures
        r.deep_view() == JsonModel::Text(s@),
{
    Json::Text(s.to_owned())
}

/// An array without elements.
pub fn array() -> (r: Json)
    ensures
        r is Array,
        r.deep_view() == JsonModel::Array(Seq::empty()),
{
    let items: Vec<Json> = Vec::new();
    let r = Json::Array(items);
    assert(json_view(r)->Array_0 =~= Seq::<JsonModel>::empty());
    r
}

/// An array with one more element.
pub fn append(j: Json, value: Json) -> (r: Json)
    requires
        j is Array,
    ensures
        r is Array,
        r.deep_view() == JsonModel::Array(j.deep_view()->Array_0.push(value.deep_view())),
{
    match j {
        Json::Array(items) => {
            let ghost before = json_view(Json::Array(items))->Array_0;
            let mut items = items;
            items.push(value);
            let r = Json::Array(items);
            assert(json_view(r)->Array_0 =~= before.push(json_view(value)));
            r
        },
        other => other,
    }
}

// ---------------------------------------------------------------------------
// Parsing
// ---------------------------------------------------------------------------

/// What parsing a text as JSON gives: the document, or why it is none.
pub uninterp spec fn parsed_json(text: Seq<char>) -> Result<JsonModel, Seq<char>>;

/// A text that is JSON, without the white space that JSON does not need and
/// with the members of every object in the order of their keys.
pub uninterp spec fn compact_json(text: Seq<char>) -> Option<Seq<char>>;

/// What the outcome of parsing reads as.
pub open spec fn json_outcome(r: Result<Json, String>) -> Result<JsonModel, Seq<char>> {
    match r {
        Ok(j) => Ok(j.deep_view()),
        Err(e) => Err(e@),
    }
}

/// `serde_json::from_str` reads a text as a JSON value. The parts of an array
/// or object are printed with `Value`'s `Display` and read in the same way.
/// What is claimed: the outcome is a function of the text.
#[verifier::external_body]
pub(crate) fn parse_json(text: &str) -> (r: Result<Json, String>)
    ensures
        json_outcome(r) == parsed_json(text@),
{
    let value: Value = serde_json::from_str(text).map_err(|e| e.to_string())?;
    Ok(match value {
        Value::Null => Json::Null,
        Value::Bool(b) => Json::Bool(b),
        Value::Number(n) => Json::Number(n.to_string()),
        Value::String(s) => Json::Text(s),
        Value::Array(v) => {
            Json::Array(v.iter().map(|e| parse_json(&e.to_string())).collect::<Result<_, _>>()?)
        },
        Value::Object(v) => Json::Object(
            v.iter().map(|(k, e)| Ok((k.clone(), parse_json(&e.to_string())?))).collect::<Result<_, String>>()?,
        ),
    })
}

/// Whether a document is an object of texts in which every key has the value
/// that it has in `entries`, and no other key occurs.
pub open spec fn has_texts(tree: JsonModel, entries: Entries) -> bool {
    &&& is_texts(tree)
    &&& forall|key: Seq<char>| #[trigger] text_of(field(Some(tree), key)) == lookup(entries, key)
}

/// Whether a document is an object of texts.
pub open spec fn is_texts(tree: JsonModel) -> bool {
    match tree {
        JsonModel::Object(members) => forall|i: int|
            0 <= i < members.len() ==> (#[trigger] members[i]).1 is Text,
        _ => false,
    }
}

/// Whether a document was parsed, and it is an object of texts with `entries`.
pub open spec fn gives_texts(parsed: Result<JsonModel, Seq<char>>, entries: Entries) -> bool {
    parsed matches Ok(tree) && has_texts(tree, entries)
}

/// Whether no other table has the name of table `i`.
pub open spec fn named_once(tables: Seq<(Seq<char>, Entries)>, i: int) -> bool {
    forall|j: int| 0 <= j < tables.len() && j != i ==> (#[trigger] tables[j]).0 != tables[i].0
}

/// Whether a document was parsed, and under the name of each table that shares
/// it with no other it has an object of texts with the entries of that table.
pub open spec fn gives_tables(
    parsed: Result<JsonModel, Seq<char>>,
    tables: Seq<(Seq<char>, Entries)>,
) -> bool {
    parsed matches Ok(tree) && forall|i: int|
        0 <= i < tables.len() && #[trigger] named_once(tables, i) ==> (field(Some(tree), tables[i].0)
            matches Some(table) && has_texts(table, tables[i].1))
}

/// An object of texts, printed with one member on each line.
pub uninterp spec fn pretty_texts(entries: Entries) -> Seq<char>;

/// Objects of texts as the members of one object, printed with one member on
/// each line.
pub uninterp spec fn pretty_tables(tables: Seq<(Seq<char>, Entries)>) -> Seq<char>;

/// `Serializer::collect_map` of the crate `serde`, on the pretty serializer of
/// `serde_json`, prints keys and texts as an object. What is claimed: the
/// result is a function of the entries, and parsing it gives them back.
#[verifier::external_body]
pub(crate) fn print_texts(entries: &Vec<(String, String)>) -> (r: String)
    ensures
        r@ == pretty_texts(entries.deep_view()),
        gives_texts(parsed_json(r@), entries.deep_view()),
{
    let mut out = Vec::new();
    let mut printer = serde_json::Serializer::pretty(&mut out);
    serde::Serializer::collect_map(&mut printer, entries.iter().map(|(k, v)| (k, v))).unwrap();
    String::from_utf8(out).unwrap()
}

/// `Serializer::collect_map` of the crate `serde`, on the pretty serializer of
/// `serde_json`, prints the tables, each as a `BTreeMap`, as an object. What is
/// claimed: the result is a function of the tables, and parsing it gives back
/// the entries of each table whose name is not that of another.
#[verifier::external_body]
pub(crate) fn print_tables(tables: &Vec<(String, Vec<(String, String)>)>) -> (r: String)
    ensures
        r@ == pretty_tables(tables.deep_view()),
        gives_tables(parsed_json(r@), tables.deep_view()),
{
    let mut out = Vec::new();
    let mut printer = serde_json::Serializer::pretty(&mut out);
    let rows = tables.iter().map(|(name, t)| (name, t.iter().map(|(k, v)| (k, v)).collect::<BTreeMap<_, _>>()));
    serde::Serializer::collect_map(&mut printer, rows).unwrap();
    String::from_utf8(out).unwrap()
}

/// `serde_json::Value`'s `Display` prints a value in compact form; here it is
/// the value that `serde_json::from_str` reads from a text. What is claimed:
/// the outcome is a function of the text.
#[verifier::external_body]
pub(crate) fn compact(text: &str) -> (r: Option<String>)
    ensures
        r.deep_view() == compact_json(text@),
{
    serde_json::from_str::<Value>(text).ok().map(|v| v.to_string())
}

} // verus!
