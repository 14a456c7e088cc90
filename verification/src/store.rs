//! TOML documents: the configuration of a site and the build-state file.
//! The tables are those of the `toml` crate; what is read out of them and
//! put into them goes through the functions of this module, whose contracts
//! are taken on trust.

use vstd::prelude::*;
use crate::field::{entries_of, nested_of, spec_lookup, Field, FieldView, Tree};

verus! {

/// `toml::Value`: a value of a TOML document. Nothing of its inside is
/// known here.
#[verifier::external_type_specification]
#[verifier::external_body]
pub struct ExTomlValue(toml::Value);

/// `toml::map::Map`: the table of a TOML document. Nothing of its inside is
/// known here.
#[verifier::external_type_specification]
#[verifier::external_body]
#[verifier::reject_recursive_types(K)]
#[verifier::reject_recursive_types(V)]
pub struct ExTomlMap<K, V>(toml::map::Map<K, V>);

/// What a value is, with everything in it: a string, an integer, a truth
/// value, a list of values, a table of values; for a float or a date the
/// text that stands for it in a document.
pub uninterp spec fn toml_tree(value: toml::Value) -> Tree;

/// What a table holds: each key with what its value is.
pub uninterp spec fn toml_trees(table: toml::map::Map<String, toml::Value>) -> Map<
    Seq<char>,
    Tree,
>;

/// What the parser of the `toml` crate makes of a text: what the table of
/// the TOML document holds that the text is, or the parser's message for a
/// text that is none.
pub uninterp spec fn toml_document(text: Seq<char>) -> Result<Map<Seq<char>, Tree>, Seq<char>>;

/// What the serializer of the `toml` crate makes of a table: the TOML
/// document that holds its entries, or the serializer's message for a table
/// that it cannot write.
pub uninterp spec fn toml_text(table: toml::map::Map<String, toml::Value>) -> Result<
    Seq<char>,
    Seq<char>,
>;

/// The entries of a table: each key with what its value is. A string, an
/// integer and a truth value are that; a value of any other kind is
/// `FieldView::Other`.
pub open spec fn toml_entries(table: toml::map::Map<String, toml::Value>) -> Map<
    Seq<char>,
    FieldView,
> {
    entries_of(toml_trees(table))
}

/// The entries of the tables in a table: each key whose value is itself a
/// table, paired with each key of that table, with what the value there is.
pub open spec fn toml_nested(table: toml::map::Map<String, toml::Value>) -> Map<
    (Seq<char>, Seq<char>),
    FieldView,
> {
    nested_of(toml_trees(table))
}

/// The trees of a list of values.
pub open spec fn trees_of(values: Seq<toml::Value>) -> Seq<Tree> {
    Seq::new(values.len(), |i: int| toml_tree(values[i]))
}

/// `str::parse` to a `toml::Table`: the table of a TOML document, or the
/// parser's message for a text that is none. The same text gives the same
/// table or the same message, which `toml_document` names.
#[verifier::external_body]
pub(crate) fn toml_parse(text: &str) -> (r: Result<toml::map::Map<String, toml::Value>, String>)
    ensures
        match r {
            Ok(table) => toml_document(text@) == Ok::<Map<Seq<char>, Tree>, Seq<char>>(
                toml_trees(table),
            ),
            Err(message) => toml_document(text@) == Err::<Map<Seq<char>, Tree>, Seq<char>>(
                message@,
            ),
        },
{
    text.parse::<toml::Table>().map_err(|e| e.to_string())
}

/// `toml::to_string`: the table as a TOML document, or the serializer's
/// message. The same table gives the same text or the same message, which
/// `toml_text` names.
#[verifier::external_body]
pub(crate) fn toml_render(table: &toml::map::Map<String, toml::Value>) -> (r: Result<
    String,
    String,
>)
    ensures
        match r {
            Ok(text) => toml_text(*table) == Ok::<Seq<char>, Seq<char>>(text@),
            Err(message) => toml_text(*table) == Err::<Seq<char>, Seq<char>>(message@),
        },
{
    toml::to_string(table).map_err(|e| e.to_string())
}

/// `toml::map::Map::new`: a table without entries.
#[verifier::external_body]
pub(crate) fn table_new() -> (fresh: toml::map::Map<String, toml::Value>)
    ensures
        forall|key: Seq<char>| !toml_trees(fresh).contains_key(key),
{
    toml::map::Map::new()
}

/// `toml::map::Map::get`: what the table holds under `key`. A string, an
/// integer and a truth value come back as such, a value of any other kind
/// as `Field::Other`, and `Field::Absent` where the table has no such key.
#[verifier::external_body]
pub(crate) fn table_get(table: &toml::map::Map<String, toml::Value>, key: &str) -> (field: Field)
    ensures
        field@ == spec_lookup(toml_entries(*table), key@),
        field is Absent <==> !toml_trees(*table).contains_key(key@),
{
    match table.get(key) {
        None => Field::Absent,
        Some(toml::Value::String(s)) => Field::Text(s.clone()),
        Some(toml::Value::Integer(n)) => Field::Number(*n),
        Some(toml::Value::Boolean(b)) => Field::Flag(*b),
        Some(_) => Field::Other,
    }
}

/// `toml::map::Map::get` for a value that is a table: the table under
/// `key`, or `None` where there is no such key or its value is no table.
#[verifier::external_body]
pub(crate) fn table_section<'a>(table: &'a toml::map::Map<String, toml::Value>, key: &str) -> (r:
    Option<&'a toml::map::Map<String, toml::Value>>)
    ensures
        match r {
            Some(inner) => toml_trees(*table).contains_key(key@) && toml_trees(*table)[key@]
                == Tree::Table(toml_trees(*inner)),
            None => !(toml_trees(*table).contains_key(key@) && toml_trees(*table)[key@] is Table),
        },
{
    match table.get(key) {
        Some(toml::Value::Table(inner)) => Some(inner),
        _ => None,
    }
}

/// `toml::map::Map::get` with a copy of what is found: the value under
/// `key`, or `None` where the table has no such key.
#[verifier::external_body]
pub(crate) fn table_value(table: &toml::map::Map<String, toml::Value>, key: &str) -> (r: Option<
    toml::Value,
>)
    ensures
        r is Some <==> toml_trees(*table).contains_key(key@),
        r matches Some(v) ==> toml_tree(v) == toml_trees(*table)[key@],
{
    table.get(key).cloned()
}

/// `toml::map::Map::insert`: puts `value` under `key`, in place of what was
/// there; every other entry stays as it is.
#[verifier::external_body]
pub(crate) fn table_insert(
    table: &mut toml::map::Map<String, toml::Value>,
    key: &str,
    value: toml::Value,
)
    ensures
        toml_trees(*final(table)) == toml_trees(*old(table)).insert(key@, toml_tree(value)),
{
    table.insert(key.to_string(), value);
}

/// `toml::map::Map::remove`: takes out the entry under `key`, if there is
/// one; every other entry stays as it is.
#[verifier::external_body]
pub(crate) fn table_remove(table: &mut toml::map::Map<String, toml::Value>, key: &str)
    ensures
        toml_trees(*final(table)) == toml_trees(*old(table)).remove(key@),
{
    table.remove(key);
}

/// `toml::Value::String`: a string as a value.
#[verifier::external_body]
pub(crate) fn value_text(text: &str) -> (value: toml::Value)
    ensures
        toml_tree(value) == Tree::Text(text@),
{
    toml::Value::String(text.to_string())
}

/// `toml::Value::Integer`: an integer as a value.
#[verifier::external_body]
pub(crate) fn value_number(number: i64) -> (value: toml::Value)
    ensures
        toml_tree(value) == Tree::Number(number),
{
    toml::Value::Integer(number)
}

/// `toml::Value::Array`: a list of values as a value.
#[verifier::external_body]
pub(crate) fn value_array(items: Vec<toml::Value>) -> (value: toml::Value)
    ensures
        toml_tree(value) == Tree::List(trees_of(items@)),
{
    toml::Value::Array(items)
}

/// `toml::Value::Table`: a table as a value.
#[verifier::external_body]
pub(crate) fn value_table(table: toml::map::Map<String, toml::Value>) -> (value: toml::Value)
    ensures
        toml_tree(value) == Tree::Table(toml_trees(table)),
{
    toml::Value::Table(table)
}

} // verus!
