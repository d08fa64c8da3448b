//! JSON documents, read value by value: each value of a document is found
//! under its JSON pointer.

use vstd::prelude::*;

verus! {

/// What stands under a pointer of a document.
#[derive(Debug)]
pub enum Lookup {
    /// The pointer leads to no value.
    Missing,
    Null,
    Bool(bool),
    /// A number: its value where it is a whole number from 0 to `u64::MAX`
    /// written without fraction or exponent, nothing otherwise.
    Number(Option<u64>),
    Text(String),
    /// An array, with the number of its items.
    Array(usize),
    Object,
}

pub enum LookupView {
    Missing,
    Null,
    Bool(bool),
    Number(Option<u64>),
    Text(Seq<char>),
    Array(nat),
    Object,
}

impl View for Lookup {
    type V = LookupView;

    open spec fn view(&self) -> LookupView {
        match self {
            Lookup::Missing => LookupView::Missing,
            Lookup::Null => LookupView::Null,
            Lookup::Bool(b) => LookupView::Bool(*b),
            Lookup::Number(n) => LookupView::Number(*n),
            Lookup::Text(text) => LookupView::Text(text@),
            Lookup::Array(count) => LookupView::Array(*count as nat),
            Lookup::Object => LookupView::Object,
        }
    }
}

/// `serde_json::Value`: a document that was read. The library looks values
/// up in it and does not take it apart.
#[verifier::external_type_specification]
#[verifier::external_body]
pub struct ExValue(serde_json::Value);

/// The values that a document of `serde_json` holds, each under the JSON
/// pointer that leads to it.
pub uninterp spec fn value_entries(value: serde_json::Value) -> Map<Seq<char>, LookupView>;

/// The values of the document that `text` holds, where `text` is one
/// well-formed JSON document as `serde_json` reads it.
pub uninterp spec fn json_entries(text: Seq<char>) -> Option<Map<Seq<char>, LookupView>>;

/// What `entries` hold under `pointer`.
pub open spec fn entry(entries: Map<Seq<char>, LookupView>, pointer: Seq<char>) -> LookupView {
    if entries.dom().contains(pointer) {
        entries[pointer]
    } else {
        LookupView::Missing
    }
}

/// Reads `text` with `serde_json::from_str`. Whether a document comes out,
/// and what it holds, depends on `text` alone. Text that is no JSON, or that
/// goes on behind the first value, gives no document.
#[verifier::external_body]
fn read_value(text: &str) -> (value: Option<serde_json::Value>)
    ensures
        match value {
            Some(document) => json_entries(text@) == Some(value_entries(document)),
            None => json_entries(text@) is None,
        },
{
    serde_json::from_str::<serde_json::Value>(text).ok()
}

/// Looks `pointer` up with `serde_json::Value::pointer` and tells what kind
/// of value it leads to. A number is given as `serde_json::Number::as_u64`
/// gives it, an array by the number of its items.
#[verifier::external_body]
fn look_up(value: &serde_json::Value, pointer: &str) -> (found: Lookup)
    ensures
        found@ == entry(value_entries(*value), pointer@),
{
    match value.pointer(pointer) {
        None => Lookup::Missing,
        Some(serde_json::Value::Null) => Lookup::Null,
        Some(serde_json::Value::Bool(b)) => Lookup::Bool(*b),
        Some(serde_json::Value::Number(n)) => Lookup::Number(n.as_u64()),
        Some(serde_json::Value::String(s)) => Lookup::Text(s.clone()),
        Some(serde_json::Value::Array(items)) => Lookup::Array(items.len()),
        Some(serde_json::Value::Object(_)) => Lookup::Object,
    }
}

/// A JSON document.
#[derive(Debug)]
pub struct Document {
    value: serde_json::Value,
}

impl View for Document {
    type V = Map<Seq<char>, LookupView>;

    closed spec fn view(&self) -> Map<Seq<char>, LookupView> {
        value_entries(self.value)
    }
}

impl Document {
    /// The document that `text` holds, if it holds one.
    pub fn parse(text: &str) -> (document: Option<Document>)
        ensures
            match document {
                Some(document) => json_entries(text@) == Some(document@),
                None => json_entries(text@) is None,
            },
    {
        match read_value(text) {
            Some(value) => Some(Document { value }),
            None => None,
        }
    }

    /// What stands under `pointer`.
    pub fn at(&self, pointer: &str) -> (found: Lookup)
        ensures
            found@ == entry(self@, pointer@),
    {
        look_up(&self.value, pointer)
    }
}

} // verus!
