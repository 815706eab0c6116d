//! YAML documents of one mapping with text, flag and list values: written
//! by `serde_yaml`, read by the YAML engine of `gray_matter`. The
//! contracts of this module are taken on trust from the sources of the two
//! crates; what the text of a document is, and what a reader finds in a
//! text, is named here and not described.

use crate::text::views_of;
use gray_matter::engine::{Engine, YAML};
use gray_matter::Pod;
use serde_yaml::{Mapping, Value};
use vstd::prelude::*;

verus! {

/// The value of one field of a document.
#[derive(Debug)]
pub enum FieldValue {
    /// The text holds no mapping: it does not parse, or is a document of
    /// another kind.
    Unreadable,
    /// The mapping has no such field.
    Missing,
    /// A string.
    Text(String),
    /// A boolean.
    Flag(bool),
    /// A sequence of strings.
    List(Vec<String>),
    /// A value of any other kind.
    Other,
}

/// A field's value as contracts speak of it.
pub enum FieldView {
    Unreadable,
    Missing,
    Text(Seq<char>),
    Flag(bool),
    List(Seq<Seq<char>>),
    Other,
}

impl View for FieldValue {
    type V = FieldView;

    open spec fn view(&self) -> FieldView {
        match self {
            FieldValue::Unreadable => FieldView::Unreadable,
            FieldValue::Missing => FieldView::Missing,
            FieldValue::Text(text) => FieldView::Text(text@),
            FieldValue::Flag(flag) => FieldView::Flag(*flag),
            FieldValue::List(items) => FieldView::List(views_of(items@)),
            FieldValue::Other => FieldView::Other,
        }
    }
}

#[verifier::external_type_specification]
#[verifier::external_body]
pub struct ExMapping(Mapping);

/// The fields that a mapping holds, in the order in which they were put.
pub uninterp spec fn mapping_entries(mapping: Mapping) -> Seq<(Seq<char>, FieldView)>;

/// The text of the document whose fields are `entries`, or `None` where
/// the writer fails.
pub uninterp spec fn yaml_text(entries: Seq<(Seq<char>, FieldView)>) -> Option<Seq<char>>;

/// What a reader finds under `key` in the document `text`.
pub uninterp spec fn yaml_field(text: Seq<char>, key: Seq<char>) -> FieldView;

/// The keys of a sequence of fields.
pub open spec fn entry_keys(entries: Seq<(Seq<char>, FieldView)>) -> Seq<Seq<char>> {
    entries.map_values(|entry: (Seq<char>, FieldView)| entry.0)
}

/// `Mapping::new`: a mapping without fields.
#[verifier::external_body]
pub(crate) fn mapping_new() -> (mapping: Mapping)
    ensures
        mapping_entries(mapping) == Seq::<(Seq<char>, FieldView)>::empty(),
{
    Mapping::new()
}

/// `Mapping::insert` of a string under a key that the mapping does not
/// hold yet: the field comes after the others.
#[verifier::external_body]
pub(crate) fn mapping_put_text(mapping: &mut Mapping, key: &str, value: &str)
    requires
        !entry_keys(mapping_entries(*old(mapping))).contains(key@),
    ensures
        mapping_entries(*final(mapping)) == mapping_entries(*old(mapping)).push(
            (key@, FieldView::Text(value@)),
        ),
{
    mapping.insert(Value::String(key.to_owned()), Value::String(value.to_owned()));
}

/// `Mapping::insert` of a boolean under a key that the mapping does not
/// hold yet: the field comes after the others.
#[verifier::external_body]
pub(crate) fn mapping_put_flag(mapping: &mut Mapping, key: &str, value: bool)
    requires
        !entry_keys(mapping_entries(*old(mapping))).contains(key@),
    ensures
        mapping_entries(*final(mapping)) == mapping_entries(*old(mapping)).push(
            (key@, FieldView::Flag(value)),
        ),
{
    mapping.insert(Value::String(key.to_owned()), Value::Bool(value));
}

/// `Mapping::insert` of a sequence of strings under a key that the
/// mapping does not hold yet: the field comes after the others.
#[verifier::external_body]
pub(crate) fn mapping_put_list(mapping: &mut Mapping, key: &str, value: &Vec<String>)
    requires
        !entry_keys(mapping_entries(*old(mapping))).contains(key@),
    ensures
        mapping_entries(*final(mapping)) == mapping_entries(*old(mapping)).push(
            (key@, FieldView::List(views_of(value@))),
        ),
{
    let items = value.iter().map(|item| Value::String(item.clone())).collect();
    mapping.insert(Value::String(key.to_owned()), Value::Sequence(items));
}

/// `serde_yaml::to_string` of a mapping: the text of the document, which
/// depends on the fields alone, or `None` where the writer fails.
#[verifier::external_body]
pub(crate) fn mapping_to_text(mapping: &Mapping) -> (text: Option<String>)
    ensures
        match text {
            Some(text) => yaml_text(mapping_entries(*mapping)) == Some(text@),
            None => yaml_text(mapping_entries(*mapping)) is None,
        },
{
    serde_yaml::to_string(mapping).ok()
}

/// `YAML::parse` of `gray_matter`, and the value that the parsed mapping
/// holds under `key`. A text that does not parse, or parses to anything but
/// a mapping, is told apart from a mapping without the field. The result
/// depends on the text and the key alone.
#[verifier::external_body]
pub(crate) fn read_yaml_field(text: &str, key: &str) -> (value: FieldValue)
    ensures
        value@ == yaml_field(text@, key@),
{
    match <YAML as Engine>::parse(text) {
        Ok(Pod::Hash(fields)) => match fields.get(key) {
            Some(Pod::String(text)) => FieldValue::Text(text.clone()),
            Some(Pod::Boolean(flag)) => FieldValue::Flag(*flag),
            Some(Pod::Array(items)) => match items.iter().map(Pod::as_string).collect() {
                Ok(texts) => FieldValue::List(texts),
                Err(_) => FieldValue::Other,
            },
            Some(_) => FieldValue::Other,
            None => FieldValue::Missing,
        },
        _ => FieldValue::Unreadable,
    }
}

} // verus!
