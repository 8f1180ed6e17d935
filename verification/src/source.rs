//! The deserialization collaborator: decoding TOML text into a partial
//! record of top-level key/value pairs. The decoding itself is delegated to
//! the `toml` crate; everything downstream of it is verified against the
//! name given to its result here.

use vstd::prelude::*;

use crate::value::{Raw, RawModel};

verus! {

/// The partial record a TOML document stands for: its top-level key/value
/// pairs (in the deterministic order the decoder yields them), or nothing
/// when the document is malformed. A function of the text alone.
pub uninterp spec fn toml_partial(source: Seq<char>) -> Option<Seq<(Seq<char>, RawModel)>>;

/// Relies on the `toml` crate: parsing a document into a `toml::Table`
/// yields its top-level key/value pairs, a function of the text alone, and
/// fails exactly on malformed text. Strings, integers and booleans are
/// carried over one to one; entries of any other kind are kept as
/// [`Raw::ROther`].
#[verifier::external_body]
pub fn parse_toml(source: &str) -> (r: Option<Vec<(String, Raw)>>)
    ensures
        match r {
            Some(record) => toml_partial(source@) == Some(record.deep_view()),
            None => toml_partial(source@) is None,
        },
{
    let table: toml::Table = match source.parse() {
        Ok(t) => t,
        Err(_) => return None,
    };
    Some(table.into_iter().map(|(k, v)| (k, match v {
        toml::Value::String(s) => Raw::RStr(s),
        toml::Value::Integer(i) => Raw::RInt(i),
        toml::Value::Boolean(b) => Raw::RBool(b),
        _ => Raw::ROther,
    })).collect())
}

} // verus!
