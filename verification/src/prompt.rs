//! The prompt-glyph segment: a `$`, painted with the same
//! success-or-error sub-style selection as the exit code.

use vstd::prelude::*;

use crate::color::Color;
use crate::conf::{config_model, ConfValue};
use crate::options::{
    spec_read_options, spec_read_style, read_options, read_style, ModuleOptionsV,
};
use crate::render::{spec_format_for_module, format_for_module, Shell};
use crate::utils::{FormatResult, FormatResultV, ModuleError};

verus! {

/// What the prompt segment yields: a `$` glyph in the `style_success`
/// block for a zero exit code and the `style_error` block otherwise;
/// the sub-style replaces the segment's own style outright.
pub open spec fn spec_format_prompt(
    m: Map<Seq<char>, ConfValue>,
    exit_code: u8,
    next_bg: Option<Color>,
    shell: Shell,
) -> Result<FormatResultV, ModuleError> {
    let opts = spec_read_options(m, "prompt"@);
    let ss = spec_read_style(m, "modules.prompt.style_success"@);
    let es = spec_read_style(m, "modules.prompt.style_error"@);
    if opts is Err {
        Err(opts->Err_0)
    } else if ss is Err {
        Err(ss->Err_0)
    } else if es is Err {
        Err(es->Err_0)
    } else {
        let style = if exit_code == 0 {
            ss->Ok_0
        } else {
            es->Ok_0
        };
        let opts2 = ModuleOptionsV { style, ..opts->Ok_0 };
        match spec_format_for_module("$"@, opts2, next_bg, shell) {
            Ok(o) => Ok(FormatResultV { output: Some(o), next_bg: style.background }),
            Err(e) => Err(e),
        }
    }
}

/// Formats the prompt segment using the options in the configuration.
pub fn format_prompt(
    c: &config::Config,
    exit_code: u8,
    next_bg: Option<Color>,
    shell: Shell,
) -> (r: Result<FormatResult, ModuleError>)
    ensures
        ({
            let s = spec_format_prompt(config_model(c), exit_code, next_bg, shell);
            match r {
                Ok(o) => s == Ok::<FormatResultV, ModuleError>(o@),
                Err(e) => s == Err::<FormatResultV, ModuleError>(e),
            }
        }),
{
    let mut options = read_options("prompt", c)?;
    let style_success = read_style("modules.prompt.style_success", c)?;
    let style_error = read_style("modules.prompt.style_error", c)?;
    if exit_code == 0 {
        options.style = style_success;
    } else {
        options.style = style_error;
    }
    match format_for_module("$", &options, next_bg, shell) {
        Ok(o) => Ok(FormatResult { output: Some(o), next_bg: options.style.background }),
        Err(e) => Err(e),
    }
}

} // verus!
