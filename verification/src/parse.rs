//! Parsing TOML text into a configuration tree.

use vstd::prelude::*;

use crate::value::ConfigValue;
use crate::value::ValueModel;

verus! {

/// What parsing a TOML document yields: the model of its value tree when
/// the text is well-formed TOML, nothing otherwise.  The grammar is the
/// parser's own; it is named here, not restated.
pub uninterp spec fn toml_document(s: Seq<char>) -> Option<ValueModel>;

#[verifier::external_type_specification]
#[verifier::external_body]
pub struct ExTomlValue(toml::Value);

/// Relies on toml::Value's variants: each arm moves one variant's content
/// into the library's tree.  A float or datetime keeps the text that
/// toml's own rendering gives it.
#[verifier::external_body]
fn convert_value(v: &toml::Value) -> ConfigValue {
    match v {
        toml::Value::String(s) => ConfigValue::Str(s.clone()),
        toml::Value::Integer(i) => ConfigValue::Int(*i),
        toml::Value::Float(_) => ConfigValue::Float(v.to_string()),
        toml::Value::Boolean(b) => ConfigValue::Bool(*b),
        toml::Value::Datetime(d) => ConfigValue::DateTime(d.to_string()),
        toml::Value::Array(a) => ConfigValue::Array(a.iter().map(convert_value).collect()),
        toml::Value::Table(t) => ConfigValue::Table(
            t.iter().map(|(k, w)| (k.clone(), convert_value(w))).collect(),
        ),
    }
}

/// Relies on toml::from_str: what a text parses to depends on the text
/// alone, so two parses of equal text agree.
#[verifier::external_body]
fn parse_toml(text: &str) -> (r: Result<ConfigValue, String>)
    ensures
        match r {
            Ok(v) => toml_document(text@) == Some(v@),
            Err(_) => toml_document(text@) is None,
        },
{
    match toml::from_str::<toml::Value>(text) {
        Ok(v) => Ok(convert_value(&v)),
        Err(e) => Err(e.to_string()),
    }
}

/// Why resolving a configuration failed.
#[derive(Debug, PartialEq, Eq)]
pub enum ResolveError {
    /// The path does not exist or could not be canonicalized.
    PathError(String),
    /// The file exists but could not be read as UTF-8 text.
    ReadError(String),
    /// The text is not well-formed TOML, or its root is not a table.
    ParseError(String),
}

impl ResolveError {
    /// The error's description.
    pub open spec fn spec_message(&self) -> Seq<char> {
        match self {
            ResolveError::PathError(s) => s@,
            ResolveError::ReadError(s) => s@,
            ResolveError::ParseError(s) => s@,
        }
    }

    /// The error's description.
    pub fn message(&self) -> (r: &str)
        ensures
            r@ == self.spec_message(),
    {
        match self {
            ResolveError::PathError(s) => s.as_str(),
            ResolveError::ReadError(s) => s.as_str(),
            ResolveError::ParseError(s) => s.as_str(),
        }
    }
}

/// What `parse_config` returns for a given text: the parsed tree exactly
/// when the text is well-formed TOML whose root is a table, and a parse
/// error otherwise.
pub open spec fn parse_outcome(text: Seq<char>, r: Result<ConfigValue, ResolveError>) -> bool {
    match r {
        Ok(v) => toml_document(text) == Some(v@) && v@ is Table,
        Err(e) => e is ParseError && match toml_document(text) {
            Some(m) => !(m is Table),
            None => true,
        },
    }
}

/// Parses TOML text into a configuration tree whose root is a table.
pub fn parse_config(text: &str) -> (r: Result<ConfigValue, ResolveError>)
    ensures
        parse_outcome(text@, r),
{
    match parse_toml(text) {
        Ok(v) => {
            if v.is_table() {
                Ok(v)
            } else {
                Err(
                    ResolveError::ParseError(
                        "the root of the document is not a table".to_owned(),
                    ),
                )
            }
        },
        Err(msg) => Err(ResolveError::ParseError(msg)),
    }
}

/// Parsing is a function of the text: two parses of the same text succeed
/// together and, when they succeed, yield structurally equal trees.  Two
/// resolutions of an unchanged file therefore agree.
pub proof fn lemma_parse_idempotent(
    text: Seq<char>,
    r1: Result<ConfigValue, ResolveError>,
    r2: Result<ConfigValue, ResolveError>,
)
    requires
        parse_outcome(text, r1),
        parse_outcome(text, r2),
    ensures
        r1 is Ok <==> r2 is Ok,
        r1 is Ok ==> r1.unwrap()@ == r2.unwrap()@,
{
}

} // verus!
