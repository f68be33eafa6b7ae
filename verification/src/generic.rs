//! User-defined segments: content comes solely from the configured
//! `output` override; a segment with no configured output contributes
//! nothing, which is no error.

use vstd::prelude::*;

use crate::color::Color;
use crate::conf::{config_model, ConfValue};
use crate::options::{spec_read_options, read_options};
use crate::render::{spec_format_for_module, format_for_module, Shell};
use crate::utils::{
    spec_default_format_result, FormatResult, FormatResultV, ModuleError,
};

verus! {

/// What a user-defined segment yields: its configured `output`
/// override, rendered with its options, or — with no output configured
/// — an entirely absent result (silently skipped, not an error).
pub open spec fn spec_format_generic(
    m: Map<Seq<char>, ConfValue>,
    name: Seq<char>,
    next_bg: Option<Color>,
    shell: Shell,
) -> Result<FormatResultV, ModuleError> {
    let opts = spec_read_options(m, name);
    if opts is Err {
        Err(opts->Err_0)
    } else if opts->Ok_0.output is Some {
        match spec_format_for_module(""@, opts->Ok_0, next_bg, shell) {
            Ok(o) => Ok(FormatResultV { output: Some(o), next_bg: opts->Ok_0.style.background }),
            Err(e) => Err(e),
        }
    } else {
        Ok(spec_default_format_result())
    }
}

/// Formats a user-defined segment using the options in the
/// configuration.
pub fn format_generic(name: &str, c: &config::Config, next_bg: Option<Color>, shell: Shell) -> (r:
    Result<FormatResult, ModuleError>)
    ensures
        ({
            let s = spec_format_generic(config_model(c), name@, next_bg, shell);
            match r {
                Ok(o) => s == Ok::<FormatResultV, ModuleError>(o@),
                Err(e) => s == Err::<FormatResultV, ModuleError>(e),
            }
        }),
{
    let options = read_options(name, c)?;
    if options.output.is_some() {
        match format_for_module("", &options, next_bg, shell) {
            Ok(o) => Ok(FormatResult { output: Some(o), next_bg: options.style.background }),
            Err(e) => Err(e),
        }
    } else {
        Ok(FormatResult::default())
    }
}

} // verus!
