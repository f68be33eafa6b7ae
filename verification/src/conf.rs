//! The merged key-value configuration store. The store itself belongs
//! to crate `config`; the library reads it through one trusted lookup
//! and works with its own strongly typed value kind from there on.

use vstd::prelude::*;

verus! {

/// A configuration value as the library reads it: the scalar kinds the
/// pipeline understands, a list of strings, or something it does not
/// use (`Other`), which every consumer treats as a type error.
#[derive(Debug, PartialEq)]
pub enum ConfValue {
    Str(String),
    Int(i64),
    Bool(bool),
    List(Vec<String>),
    Other,
}

/// The outside configuration store (crate `config`).
#[verifier::external_type_specification]
#[verifier::external_body]
pub struct ExConfig(config::Config);

/// What the store holds: the dotted key paths on which a lookup
/// succeeds, each mapped to the value the lookup yields, converted to
/// `ConfValue` as `config_get` converts it.
pub uninterp spec fn config_model(c: &config::Config) -> Map<Seq<char>, ConfValue>;

/// A lookup in a model map.
pub open spec fn conf_lookup(m: Map<Seq<char>, ConfValue>, key: Seq<char>) -> Option<ConfValue> {
    if m.dom().contains(key) {
        Some(m[key])
    } else {
        None
    }
}

/// Relies on `config::Config::get`: it resolves a dotted key path in
/// the merged configuration cache and returns the value there, if any.
/// String, integer and boolean values carry over directly; an array
/// carries over when each element converts to a string (as
/// `config::Value::into_str` converts it); any other value (nil,
/// float, table, or an unconvertible array) is `Other`.
#[verifier::external_body]
pub fn config_get(c: &config::Config, key: &str) -> (r: Option<ConfValue>)
    ensures
        r == conf_lookup(config_model(c), key@),
{
    match c.get(key) {
        None => None,
        Some(config::Value::String(s)) => Some(ConfValue::Str(s)),
        Some(config::Value::Integer(i)) => Some(ConfValue::Int(i)),
        Some(config::Value::Boolean(b)) => Some(ConfValue::Bool(b)),
        Some(config::Value::Array(a)) => Some(
            a.into_iter().map(config::Value::into_str).collect::<Option<Vec<String>>>().map_or(
                ConfValue::Other,
                ConfValue::List,
            ),
        ),
        Some(_) => Some(ConfValue::Other),
    }
}

} // verus!
