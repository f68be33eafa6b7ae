//! The exit-code segment: the numeric code of the last command,
//! painted with a success or an error sub-style.

use vstd::prelude::*;

use crate::chars::{dec_nat, dec_u64_string};
use crate::color::Color;
use crate::conf::{config_model, ConfValue};
use crate::options::{
    spec_read_options, spec_read_style, read_options, read_style, ModuleOptionsV,
};
use crate::render::{spec_format_for_module, format_for_module, Shell};
use crate::utils::{FormatResult, FormatResultV, ModuleError};

verus! {

/// What the exit-code segment yields: the code rendered in the
/// `style_success` block when it is zero and the `style_error` block
/// otherwise — the sub-style replaces the segment's own style outright,
/// never field by field. A command exited successfully if and only if
/// the exit code is 0.
pub open spec fn spec_format_exit_code(
    m: Map<Seq<char>, ConfValue>,
    exit_code: u8,
    next_bg: Option<Color>,
    shell: Shell,
) -> Result<FormatResultV, ModuleError> {
    let opts = spec_read_options(m, "exit_code"@);
    let ss = spec_read_style(m, "modules.exit_code.style_success"@);
    let es = spec_read_style(m, "modules.exit_code.style_error"@);
    if opts is Err {
        Err(opts->Err_0)
    } else if ss is Err {
        Err(ss->Err_0)
    } else if es is Err {
        Err(es->Err_0)
    } else {
        let style = if exit_code == 0 {
            ss->Ok_0
        } else {
            es->Ok_0
        };
        let opts2 = ModuleOptionsV { style, ..opts->Ok_0 };
        match spec_format_for_module(dec_nat(exit_code as nat), opts2, next_bg, shell) {
            Ok(o) => Ok(FormatResultV { output: Some(o), next_bg: style.background }),
            Err(e) => Err(e),
        }
    }
}

/// Formats the exit-code segment using the options in the
/// configuration.
pub fn format_exit_code(
    c: &config::Config,
    exit_code: u8,
    next_bg: Option<Color>,
    shell: Shell,
) -> (r: Result<FormatResult, ModuleError>)
    ensures
        ({
            let s = spec_format_exit_code(config_model(c), exit_code, next_bg, shell);
            match r {
                Ok(o) => s == Ok::<FormatResultV, ModuleError>(o@),
                Err(e) => s == Err::<FormatResultV, ModuleError>(e),
            }
        }),
{
    let mut options = read_options("exit_code", c)?;
    let style_success = read_style("modules.exit_code.style_success", c)?;
    let style_error = read_style("modules.exit_code.style_error", c)?;
    if exit_code == 0 {
        options.style = style_success;
    } else {
        options.style = style_error;
    }
    let content = dec_u64_string(exit_code as u64);
    match format_for_module(content.as_str(), &options, next_bg, shell) {
        Ok(o) => Ok(FormatResult { output: Some(o), next_bg: options.style.background }),
        Err(e) => Err(e),
    }
}

} // verus!
