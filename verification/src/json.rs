//! JSON objects: what the daemon answers, sends and keeps on disk.

use vstd::prelude::*;

use crate::text::is_digit;

verus! {

/// A JSON document.
pub enum Json {
    Null,
    Bool(bool),
    /// A number, by its text.
    Number(Seq<char>),
    Text(Seq<char>),
    Array(Seq<Json>),
    Object(Map<Seq<char>, Json>),
}

/// The members of a JSON object, by their names.
pub type Members = Map<Seq<char>, Json>;

/// A JSON array of texts.
pub open spec fn texts(items: Seq<Seq<char>>) -> Json {
    Json::Array(items.map_values(|item: Seq<char>| Json::Text(item)))
}

/// Whether the document is a text, a flag, nothing, or a list of texts.
pub open spec fn is_plain(json: Json) -> bool {
    match json {
        Json::Null => true,
        Json::Bool(_) => true,
        Json::Text(_) => true,
        Json::Array(items) => forall|i: int| 0 <= i < items.len() ==> #[trigger] items[i] is Text,
        Json::Number(_) => false,
        Json::Object(_) => false,
    }
}

/// Whether every member is a text, a flag, nothing, or a list of texts.
pub open spec fn all_plain(all: Members) -> bool {
    forall|name: Seq<char>| #[trigger] all.dom().contains(name) ==> is_plain(all[name])
}

/// How deep arrays and objects may stand in one another in a text that is read.
pub const MAX_NESTING: u32 = 127;

/// Whether the text of a number is that of a whole number: digits, and perhaps
/// a sign in front of them.
pub open spec fn is_whole(number: Seq<char>) -> bool {
    &&& number.len() > 0 && number.last() != '-'
    &&& forall|i: int|
        0 <= i < number.len() ==> is_digit(#[trigger] number[i]) || i == 0 && number[i] == '-'
}

/// Whether every number in the document is whole, and arrays and objects stand
/// in one another at most `depth` deep.
pub open spec fn is_simple(json: Json, depth: nat) -> bool
    decreases depth,
{
    match json {
        Json::Null => true,
        Json::Bool(_) => true,
        Json::Text(_) => true,
        Json::Number(number) => is_whole(number),
        Json::Array(items) => depth > 0 && forall|i: int|
            0 <= i < items.len() ==> is_simple(#[trigger] items[i], (depth - 1) as nat),
        Json::Object(all) => depth > 0 && forall|name: Seq<char>| #[trigger]
            all.dom().contains(name) ==> is_simple(all[name], (depth - 1) as nat),
    }
}

/// Whether the document comes back as it is when it is written and read: its
/// numbers are whole, and it is not nested too deep.
pub open spec fn survives(json: Json) -> bool {
    is_simple(json, MAX_NESTING as nat)
}

/// Whether the document is an object with the same names as `all`, and with the
/// same members but for those that may not come back as they are.
pub open spec fn keeps(document: Json, all: Members) -> bool {
    &&& document matches Json::Object(found)
    &&& found.dom() == all.dom()
    &&& forall|name: Seq<char>|
        (#[trigger] all.dom().contains(name)) && is_simple(all[name], (MAX_NESTING - 1) as nat)
            ==> found[name] == all[name]
}

/// An object of texts, flags and lists of texts comes back as it is.
pub proof fn plain_survives(all: Members)
    requires
        all_plain(all),
    ensures
        survives(Json::Object(all)),
{
    reveal_with_fuel(is_simple, 4);
}

proof fn member_is_simple(all: Members, name: Seq<char>, depth: nat)
    requires
        is_simple(Json::Object(all), depth),
        all.dom().contains(name),
    ensures
        is_simple(all[name], (depth - 1) as nat),
{
    let json = Json::Object(all);
    assert(json->Object_0.dom().contains(name));
}

/// A text, a flag or nothing more does not matter to whether an object comes
/// back as it is.
pub proof fn insert_survives(all: Members, name: Seq<char>, value: Json)
    requires
        survives(Json::Object(all)),
        value is Text || value is Bool || value is Null,
    ensures
        survives(Json::Object(all.insert(name, value))),
{
    let after = all.insert(name, value);
    let depth = (MAX_NESTING - 1) as nat;
    assert forall|n: Seq<char>| #[trigger] after.dom().contains(n) implies is_simple(
        after[n],
        depth,
    ) by {
        if n != name {
            assert(all.dom().contains(n));
            member_is_simple(all, n, MAX_NESTING as nat);
        } else {
            assert(is_simple(value, depth));
        }
    }
}

/// A list of objects of texts, flags and lists of texts comes back as it is.
pub proof fn plain_list_survives(items: Seq<Json>)
    requires
        forall|i: int|
            0 <= i < items.len() ==> (#[trigger] items[i]) is Object && all_plain(
                items[i]->Object_0,
            ),
    ensures
        survives(Json::Array(items)),
{
    reveal_with_fuel(is_simple, 5);
}

/// The flag under `name`, if there is one.
pub open spec fn flag_in(all: Members, name: Seq<char>) -> Option<bool> {
    if all.dom().contains(name) && all[name] is Bool {
        Some(all[name]->Bool_0)
    } else {
        None
    }
}

/// The text under `name`, if there is one.
pub open spec fn text_in(all: Members, name: Seq<char>) -> Option<Seq<char>> {
    if all.dom().contains(name) && all[name] is Text {
        Some(all[name]->Text_0)
    } else {
        None
    }
}

pub open spec fn no_members() -> Members {
    Map::empty()
}

/// The object type of `serde_json`.
pub type Object = serde_json::Map<String, serde_json::Value>;

/// Declares `serde_json::Map`, of which nothing is claimed.
#[verifier::external_type_specification]
#[verifier::external_body]
#[verifier::reject_recursive_types(K)]
#[verifier::reject_recursive_types(V)]
pub struct ExMap<K, V>(serde_json::Map<K, V>);

/// Declares `serde_json::Value`, of which nothing is claimed.
#[verifier::external_type_specification]
#[verifier::external_body]
pub struct ExValue(serde_json::Value);

/// The members that an object holds.
pub uninterp spec fn members(object: serde_json::Map<String, serde_json::Value>) -> Members;

/// The document that a text reads_as_document, or the error that reading it gives, by
/// `serde_json::from_str`.
pub uninterp spec fn json_read(text: Seq<char>) -> Result<Json, Seq<char>>;

/// Whether the text is read as this document.
pub open spec fn reads_as_document(text: Seq<char>, document: Json) -> bool {
    json_read(text) matches Ok(found) && found == document
}

/// Whether the text is read as the object with these members.
pub open spec fn reads_as(text: Seq<char>, all: Members) -> bool {
    reads_as_document(text, Json::Object(all))
}

/// Whether the text, if it is read at all, is read as an object with these
/// members, but for those that may not come back as they are.
pub open spec fn reads_like(text: Seq<char>, all: Members) -> bool {
    json_read(text) matches Ok(found) ==> keeps(found, all)
}

/// A document as one line of text, by `serde_json::to_string`.
pub uninterp spec fn json_line(json: Json) -> Seq<char>;

/// A document as indented text, by `serde_json::to_string_pretty`.
pub uninterp spec fn json_page(json: Json) -> Seq<char>;

/// An object without members, by `serde_json::Map::new`.
#[verifier::external_body]
pub(crate) fn new_object() -> (r: Object)
    ensures
        members(r) == no_members(),
{
    serde_json::Map::new()
}

/// Sets the member `name` to a text, by `serde_json::Map::insert`: a member of
/// that name is replaced, the others stay.
#[verifier::external_body]
pub(crate) fn set_text(object: &mut Object, name: &str, value: &str)
    ensures
        members(*final(object)) == members(*old(object)).insert(name@, Json::Text(value@)),
{
    object.insert(name.to_string(), serde_json::Value::from(value));
}

/// Sets the member `name` to a flag, by `serde_json::Map::insert`: a member of
/// that name is replaced, the others stay.
#[verifier::external_body]
pub(crate) fn set_flag(object: &mut Object, name: &str, value: bool)
    ensures
        members(*final(object)) == members(*old(object)).insert(name@, Json::Bool(value)),
{
    object.insert(name.to_string(), serde_json::Value::from(value));
}

/// Sets the member `name` to nothing, by `serde_json::Map::insert`: a member of
/// that name is replaced, the others stay.
#[verifier::external_body]
pub(crate) fn set_null(object: &mut Object, name: &str)
    ensures
        members(*final(object)) == members(*old(object)).insert(name@, Json::Null),
{
    object.insert(name.to_string(), serde_json::Value::Null);
}

/// Sets the member `name` to an array of texts, by `serde_json::Map::insert`: a
/// member of that name is replaced, the others stay.
#[verifier::external_body]
pub(crate) fn set_texts(object: &mut Object, name: &str, values: &Vec<String>)
    ensures
        members(*final(object)) == members(*old(object)).insert(name@, texts(values.deep_view())),
{
    object.insert(name.to_string(), serde_json::Value::from(values.clone()));
}

/// The flag under `name`, by `serde_json::Map::get` and `serde_json::Value::as_bool`.
#[verifier::external_body]
pub(crate) fn get_flag(object: &Object, name: &str) -> (r: Option<bool>)
    ensures
        r == flag_in(members(*object), name@),
{
    object.get(name)?.as_bool()
}

/// The text under `name`, by `serde_json::Map::get` and `serde_json::Value::as_str`.
#[verifier::external_body]
pub(crate) fn get_text(object: &Object, name: &str) -> (r: Option<String>)
    ensures
        r.deep_view() == text_in(members(*object), name@),
{
    Some(object.get(name)?.as_str()?.to_string())
}

/// Reads a document, by `serde_json::from_str`: its object, nothing where it is
/// some other document, or the error.
#[verifier::external_body]
pub(crate) fn read_object(text: &str) -> (r: Result<Option<Object>, String>)
    ensures
        match json_read(text@) {
            Ok(Json::Object(all)) => r matches Ok(Some(object)) && members(object) == all,
            Ok(_) => r matches Ok(None),
            Err(error) => r matches Err(message) && message@ == error,
        },
{
    match serde_json::from_str(text) {
        Ok(serde_json::Value::Object(object)) => Ok(Some(object)),
        Ok(_) => Ok(None),
        Err(error) => Err(error.to_string()),
    }
}

/// The object as one line of text, by `serde_json::to_string`. Reading that
/// text gives the object back where its numbers are whole and it is not nested
/// too deep to be read.
#[verifier::external_body]
pub(crate) fn write_line(object: &Object) -> (r: String)
    ensures
        r@ == json_line(Json::Object(members(*object))),
        survives(Json::Object(members(*object))) ==> reads_as(r@, members(*object)),
{
    serde_json::to_string(object).unwrap()
}

/// The object as indented text, by `serde_json::to_string_pretty`. Reading that
/// text gives the object back where its numbers are whole and it is not nested
/// too deep to be read. A number with a fraction may come back changed in its
/// last digit; where the text is read, the names and the other members are
/// those of the object all the same. That a text with such a number is read is
/// not said.
#[verifier::external_body]
pub(crate) fn write_page(object: &Object) -> (r: String)
    ensures
        r@ == json_page(Json::Object(members(*object))),
        survives(Json::Object(members(*object))) ==> reads_as(r@, members(*object)),
        reads_like(r@, members(*object)),
{
    serde_json::to_string_pretty(object).unwrap()
}

/// The objects as a JSON array.
pub open spec fn list_of(objects: Seq<Object>) -> Json {
    Json::Array(objects.map_values(|object: Object| Json::Object(members(object))))
}

/// The objects as an array on one line of text, by `serde_json::to_string`.
/// Reading that text gives the array back where its numbers are whole and it is
/// not nested too deep to be read.
#[verifier::external_body]
pub(crate) fn write_list(objects: &Vec<Object>) -> (r: String)
    ensures
        r@ == json_line(list_of(objects@)),
        survives(list_of(objects@)) ==> reads_as_document(r@, list_of(objects@)),
{
    serde_json::to_string(objects).unwrap()
}

} // verus!
