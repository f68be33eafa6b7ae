//! Types shared by the whole rendering pipeline: the error type, the
//! per-segment result type, and small configuration helpers.

use vstd::prelude::*;

use crate::color::Color;
use crate::conf::{conf_lookup, config_get, config_model, ConfValue};

verus! {

/// The view of an optional string slice.
pub open spec fn view_opt_str(o: Option<&str>) -> Option<Seq<char>> {
    match o {
        Some(s) => Some(s@),
        None => None,
    }
}

/// Gets an array from the configuration using a key, returning `None`
/// if the key wasn't present or doesn't hold an array of strings.
pub fn ref_get_array(key: &str, config: &config::Config) -> (r: Option<Vec<String>>)
    ensures
        r == (match conf_lookup(config_model(config), key@) {
            Some(ConfValue::List(v)) => Some(v),
            _ => None::<Vec<String>>,
        }),
{
    match config_get(config, key) {
        Some(ConfValue::List(v)) => Some(v),
        _ => None,
    }
}

/// What formatting one segment yields: its rendered text, if it is
/// visible at all, and the background the segment rendered before it
/// (in display order) must paint its separator with. An invisible
/// segment contributes neither.
#[derive(Debug, PartialEq)]
pub struct FormatResult {
    pub output: Option<String>,
    pub next_bg: Option<Color>,
}

/// The mathematical shape of a segment's result.
pub ghost struct FormatResultV {
    pub output: Option<Seq<char>>,
    pub next_bg: Option<Color>,
}

impl View for FormatResult {
    type V = FormatResultV;

    open spec fn view(&self) -> FormatResultV {
        FormatResultV {
            output: match self.output {
                Some(s) => Some(s@),
                None => None,
            },
            next_bg: self.next_bg,
        }
    }
}

/// The absent result: no output, no background.
pub open spec fn spec_default_format_result() -> FormatResultV {
    FormatResultV { output: None, next_bg: None }
}

impl Default for FormatResult {
    /// The default result is entirely absent: such a segment is fully
    /// skipped, separator and padding included.
    fn default() -> (r: FormatResult)
        ensures
            r@ == spec_default_format_result(),
    {
        FormatResult { output: None, next_bg: None }
    }
}

/// Error type for when parsing a configuration value to another type fails.
#[derive(Debug, PartialEq, Eq, Structural, Clone, Copy)]
pub enum ModuleError {
    /// Input doesn't correspond to a valid result.
    NoSuchMatch,
    /// Input is malformed and cannot be parsed.
    InvalidForm,
    /// A key holds a value of the wrong kind (e.g. boolean where a
    /// string was expected).
    InvalidType,
    /// An error was encountered while creating the output.
    FormatFailure,
}

impl ModuleError {
    /// A short human-readable account of the error.
    pub fn description(&self) -> (r: &'static str)
        ensures
            *self is NoSuchMatch ==> r@ == "no match was found for the provided input"@,
            *self is InvalidForm ==> r@ == "provided input was malformed and could not be parsed"@,
            *self is InvalidType ==> r@ == "provided input had the wrong type"@,
            *self is FormatFailure ==> r@ == "there was an error while trying to format the output"@,
    {
        match *self {
            ModuleError::NoSuchMatch => "no match was found for the provided input",
            ModuleError::InvalidForm => "provided input was malformed and could not be parsed",
            ModuleError::InvalidType => "provided input had the wrong type",
            ModuleError::FormatFailure => "there was an error while trying to format the output",
        }
    }
}

} // verus!
