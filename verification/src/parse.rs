//! The boundary to the external TOML parser.
use vstd::prelude::*;

use crate::value::{TreeModel, ValueTree};

verus! {

#[verifier::external_type_specification]
#[verifier::external_body]
pub struct ExTomlValue(toml::Value);

/// What the external TOML parser yields for a document: the document's
/// value tree, or nothing when the text is not well-formed TOML.
pub uninterp spec fn parsed_document(s: Seq<char>) -> Option<TreeModel>;

/// Relies on toml::from_str::<toml::Value>: parsing is deterministic in the
/// source text alone, succeeds exactly on well-formed TOML, and yields the
/// document's tree of tables, arrays and scalars.
#[verifier::external_body]
pub(crate) fn parse_document(source: &str) -> (r: Result<ValueTree, String>)
    ensures
        match r {
            Ok(t) => parsed_document(source@) == Some(t@),
            Err(_) => parsed_document(source@) is None,
        },
{
    match toml::from_str::<toml::Value>(source) {
        Ok(v) => Ok(convert_value(v)),
        Err(e) => Err(format!("{e}")),
    }
}

/// Relies on the variants of toml::Value: each arm moves one variant's
/// payload into the library's own tree, rendering the scalars the merge
/// never interprets as text.
#[verifier::external_body]
fn convert_value(v: toml::Value) -> ValueTree {
    match v {
        toml::Value::String(s) => ValueTree::Str(s),
        toml::Value::Integer(i) => ValueTree::Int(i),
        toml::Value::Float(x) => ValueTree::Float(format!("{x}")),
        toml::Value::Boolean(b) => ValueTree::Bool(b),
        toml::Value::Datetime(d) => ValueTree::Datetime(format!("{d}")),
        toml::Value::Array(a) => ValueTree::Array(a.into_iter().map(convert_value).collect()),
        toml::Value::Table(t) => ValueTree::Table(
            t.into_iter().map(|(k, val)| (k, convert_value(val))).collect(),
        ),
    }
}

} // verus!
