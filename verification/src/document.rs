//! TOML documents as the configuration loader reads them.

use vstd::prelude::*;

verus! {

/// `toml::Value`, a parsed TOML value. Nothing is known of what is inside but
/// through `value_node`.
#[verifier::external_type_specification]
#[verifier::external_body]
pub struct ExTomlValue(toml::Value);

/// `toml::de::Error`, the error of a text that is refused. It is only
/// carried, never read.
#[verifier::external_type_specification]
#[verifier::external_body]
pub struct ExTomlError(toml::de::Error);

/// A TOML value, as far as the loader tells values apart: strings, arrays and
/// tables are read, every other kind of value is only known not to be one of
/// these.
pub enum Node {
    Text(Seq<char>),
    List(Seq<Node>),
    Table(Map<Seq<char>, Node>),
    Other,
}

impl Node {
    /// The entry of `key`, where this is a table that has one.
    pub open spec fn entry(self, key: Seq<char>) -> Option<Node> {
        match self {
            Node::Table(entries) if entries.contains_key(key) => Some(entries[key]),
            _ => None,
        }
    }

    /// The texts of the items, where this is an array of strings.
    pub open spec fn texts(self) -> Option<Seq<Seq<char>>> {
        match self {
            Node::List(items) if forall|i: int| 0 <= i < items.len() ==> items[i] is Text => Some(
                Seq::new(items.len(), |i: int| items[i]->Text_0),
            ),
            _ => None,
        }
    }
}

/// What a `toml::Value` holds.
pub uninterp spec fn value_node(value: toml::Value) -> Node;

/// What `toml::from_str` reads from `text` as a `toml::Value`: the root table
/// of the document, or nothing where it refuses `text`.
pub uninterp spec fn toml_document(text: Seq<char>) -> Option<Node>;

/// What each of `values` holds.
pub open spec fn value_nodes(values: Seq<toml::Value>) -> Seq<Node> {
    Seq::new(values.len(), |i: int| value_node(values[i]))
}

/// Calls `toml::from_str` for a `toml::Value`. What it gives depends on the
/// text alone: the root table of the document, or an error.
#[verifier::external_body]
pub(crate) fn parse_document(text: &str) -> (r: Result<toml::Value, toml::de::Error>)
    ensures
        match r {
            Ok(root) => toml_document(text@) == Some(value_node(root)),
            Err(_) => toml_document(text@) is None,
        },
{
    toml::from_str::<toml::Value>(text)
}

/// Calls `toml::Value::get` with a string key: the entry of that key where the
/// value is a table that has one, nothing otherwise (also where the value is
/// no table).
#[verifier::external_body]
pub(crate) fn entry<'a>(value: &'a toml::Value, key: &str) -> (r: Option<&'a toml::Value>)
    ensures
        match value_node(*value).entry(key@) {
            Some(node) => r matches Some(found) && value_node(*found) == node,
            None => r is None,
        },
{
    value.get(key)
}

/// `toml::Value::as_str` gives the text of a string and nothing for any other
/// value.
pub assume_specification[ toml::Value::as_str ](value: &toml::Value) -> (r: Option<&str>)
    ensures
        match value_node(*value) {
            Node::Text(text) => r matches Some(s) && s@ == text,
            _ => r is None,
        },
;

/// `toml::Value::as_array` gives the items of an array, in order, and nothing
/// for any other value.
pub assume_specification[ toml::Value::as_array ](value: &toml::Value) -> (r: Option<
    &Vec<toml::Value>,
>)
    ensures
        match value_node(*value) {
            Node::List(items) => r matches Some(list) && value_nodes(list@) == items,
            _ => r is None,
        },
;

} // verus!
