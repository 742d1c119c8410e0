//! Mappings that keep the order of their entries.

use vstd::prelude::*;

use crate::json::{no_members, reads_as, Json, Members};
use crate::text::decimal;

verus! {

/// A value in a mapping.
pub enum Yaml {
    Null,
    Flag(bool),
    Number(nat),
    Text(Seq<char>),
    Table(Seq<(Seq<char>, Yaml)>),
}

/// The entries of a mapping, in order.
pub type Entries = Seq<(Seq<char>, Yaml)>;

/// Declares `serde_yaml::Mapping`, of which nothing is claimed.
#[verifier::external_type_specification]
#[verifier::external_body]
pub struct ExMapping(serde_yaml::Mapping);

/// The entries that a mapping holds.
pub uninterp spec fn yaml_entries(mapping: serde_yaml::Mapping) -> Entries;

/// The text of a mapping, or the error that writing it gives, by
/// `serde_yaml::to_string`.
pub uninterp spec fn yaml_written(entries: Entries) -> Result<Seq<char>, Seq<char>>;

/// A mapping as an indented JSON object with its entries in order, by
/// `serde_json::to_string_pretty`.
pub uninterp spec fn json_in_order(entries: Entries) -> Seq<char>;

/// Whether an entry has this name.
pub open spec fn names(entries: Entries, name: Seq<char>) -> bool {
    exists|i: int| 0 <= i < entries.len() && #[trigger] entries[i].0 == name
}

pub open spec fn no_entries() -> Entries {
    Seq::empty()
}

/// Whether every value is a text, a flag or nothing.
pub open spec fn is_flat(entries: Entries) -> bool {
    forall|i: int|
        0 <= i < entries.len() ==> match (#[trigger] entries[i]).1 {
            Yaml::Null => true,
            Yaml::Flag(_) => true,
            Yaml::Text(_) => true,
            Yaml::Number(_) => false,
            Yaml::Table(_) => false,
        }
}

/// The value as a JSON document.
pub open spec fn as_json(value: Yaml) -> Json
    decreases value,
{
    match value {
        Yaml::Null => Json::Null,
        Yaml::Flag(flag) => Json::Bool(flag),
        Yaml::Number(number) => Json::Number(decimal(number)),
        Yaml::Text(text) => Json::Text(text),
        Yaml::Table(entries) => Json::Object(members_of(entries)),
    }
}

/// The entries as the members of a JSON object.
pub open spec fn members_of(entries: Entries) -> Members
    decreases entries,
{
    if entries.len() == 0 {
        no_members()
    } else {
        members_of(entries.drop_last()).insert(entries.last().0, as_json(entries.last().1))
    }
}

/// A mapping without entries, by `serde_yaml::Mapping::new`.
#[verifier::external_body]
pub(crate) fn new_mapping() -> (r: serde_yaml::Mapping)
    ensures
        yaml_entries(r) == no_entries(),
{
    serde_yaml::Mapping::new()
}

/// Adds a text under a new name, by `serde_yaml::Mapping::insert`: it comes last.
#[verifier::external_body]
pub(crate) fn add_text(mapping: &mut serde_yaml::Mapping, name: &str, value: &str)
    requires
        !names(yaml_entries(*old(mapping)), name@),
    ensures
        yaml_entries(*final(mapping)) == yaml_entries(*old(mapping)).push(
            (name@, Yaml::Text(value@)),
        ),
{
    mapping.insert(serde_yaml::Value::from(name), serde_yaml::Value::from(value));
}

/// Adds a number under a new name, by `serde_yaml::Mapping::insert`: it comes last.
#[verifier::external_body]
pub(crate) fn add_number(mapping: &mut serde_yaml::Mapping, name: &str, value: u32)
    requires
        !names(yaml_entries(*old(mapping)), name@),
    ensures
        yaml_entries(*final(mapping)) == yaml_entries(*old(mapping)).push(
            (name@, Yaml::Number(value as nat)),
        ),
{
    mapping.insert(serde_yaml::Value::from(name), serde_yaml::Value::from(value));
}

/// Adds a flag under a new name, by `serde_yaml::Mapping::insert`: it comes last.
#[verifier::external_body]
pub(crate) fn add_flag(mapping: &mut serde_yaml::Mapping, name: &str, value: bool)
    requires
        !names(yaml_entries(*old(mapping)), name@),
    ensures
        yaml_entries(*final(mapping)) == yaml_entries(*old(mapping)).push(
            (name@, Yaml::Flag(value)),
        ),
{
    mapping.insert(serde_yaml::Value::from(name), serde_yaml::Value::from(value));
}

/// Adds nothing under a new name, by `serde_yaml::Mapping::insert`: it comes last.
#[verifier::external_body]
pub(crate) fn add_null(mapping: &mut serde_yaml::Mapping, name: &str)
    requires
        !names(yaml_entries(*old(mapping)), name@),
    ensures
        yaml_entries(*final(mapping)) == yaml_entries(*old(mapping)).push((name@, Yaml::Null)),
{
    mapping.insert(serde_yaml::Value::from(name), serde_yaml::Value::Null);
}

/// Adds a mapping under a new name, by `serde_yaml::Mapping::insert`: it comes last.
#[verifier::external_body]
pub(crate) fn add_table(mapping: &mut serde_yaml::Mapping, name: &str, value: serde_yaml::Mapping)
    requires
        !names(yaml_entries(*old(mapping)), name@),
    ensures
        yaml_entries(*final(mapping)) == yaml_entries(*old(mapping)).push(
            (name@, Yaml::Table(yaml_entries(value))),
        ),
{
    mapping.insert(serde_yaml::Value::from(name), serde_yaml::Value::from(value));
}

/// The text of a mapping, or the error, by `serde_yaml::to_string`.
#[verifier::external_body]
pub(crate) fn write_mapping(mapping: &serde_yaml::Mapping) -> (r: Result<String, String>)
    ensures
        match yaml_written(yaml_entries(*mapping)) {
            Ok(text) => r matches Ok(written) && written@ == text,
            Err(error) => r matches Err(message) && message@ == error,
        },
{
    match serde_yaml::to_string(mapping) {
        Ok(text) => Ok(text),
        Err(error) => Err(error.to_string()),
    }
}

/// The mapping as an indented JSON object with its entries in order, by
/// `serde_json::to_string_pretty`. Reading that text gives the members back.
#[verifier::external_body]
pub(crate) fn write_json(mapping: &serde_yaml::Mapping) -> (r: String)
    requires
        is_flat(yaml_entries(*mapping)),
    ensures
        r@ == json_in_order(yaml_entries(*mapping)),
        reads_as(r@, members_of(yaml_entries(*mapping))),
{
    serde_json::to_string_pretty(mapping).unwrap()
}

/// An entry at the end adds its name.
pub proof fn names_of_pushed(entries: Entries, name: Seq<char>, value: Yaml)
    ensures
        forall|n: Seq<char>| #[trigger]
            names(entries.push((name, value)), n) <==> names(entries, n) || n == name,
{
    let all = entries.push((name, value));
    assert forall|n: Seq<char>| #[trigger] names(all, n) <==> names(entries, n) || n == name by {
        if names(entries, n) {
            let i = choose|i: int| 0 <= i < entries.len() && #[trigger] entries[i].0 == n;
            assert(all[i].0 == n);
        }
        if n == name {
            assert(all[entries.len() as int].0 == n);
        }
        if names(all, n) {
            let i = choose|i: int| 0 <= i < all.len() && #[trigger] all[i].0 == n;
            if i < entries.len() {
                assert(entries[i].0 == n);
            }
        }
    }
}

} // verus!
