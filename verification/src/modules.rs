//! The fused resolver-and-renderer: one formatting routine that looks
//! every field up itself, falling through `modules.<name>.<field>` to
//! `global.<field>`, and per-segment entry points built on it. The
//! success/error background of the exit-code and prompt segments is
//! passed in as an explicit override, never round-tripped through the
//! configuration store.

use vstd::prelude::*;

use crate::color::{
    spec_string_to_colour, spec_string_to_style, string_to_colour, string_to_style, attrs_empty,
    Color, TextAttributes,
};
use crate::conf::{conf_lookup, config_get, config_model, ConfValue};
use crate::cwd::{
    path_components, path_components_x, path_display, path_display_x, spec_max_depth,
    spec_truncate, read_max_depth, tilde_components, tilde_components_x, truncate_components,
};
use crate::gitinfo::{gather_git_info, GitInfo, GitInfoV};
use crate::options::{
    spec_bool_field, spec_module_key, spec_opt_str_field, spec_str_field, module_key, read_bool,
    unwrap_value_if_string,
};
use crate::render::{spec_wrapped_block, push_wrapped_block, Shell};
use crate::style::Style;
use crate::utils::ModuleError;

verus! {

/// The dotted path of a global field: `global.<field>`.
pub open spec fn spec_global_key(field: Seq<char>) -> Seq<char> {
    "global."@ + field
}

/// Builds `global.<field>`.
pub fn global_key(field: &str) -> (r: String)
    ensures
        r@ == spec_global_key(field@),
{
    let mut s = String::from_str("global.");
    s.append(field);
    s
}

/// A string field looked up on the segment first, then globally, then
/// defaulting to the empty string; a present non-string value is a type
/// error at either level.
pub open spec fn spec_fallback_str(
    m: Map<Seq<char>, ConfValue>,
    k1: Seq<char>,
    k2: Seq<char>,
) -> Result<Seq<char>, ModuleError> {
    match conf_lookup(m, k1) {
        Some(ConfValue::Str(s)) => Ok(s@),
        Some(_) => Err(ModuleError::InvalidType),
        None => spec_str_field(m, k2, Seq::empty()),
    }
}

/// Reads a string field with segment-to-global fallback.
pub fn fallback_str(config: &config::Config, k1: &str, k2: &str) -> (r: Result<
    String,
    ModuleError,
>)
    ensures
        ({
            let s = spec_fallback_str(config_model(config), k1@, k2@);
            match r {
                Ok(v) => s == Ok::<Seq<char>, ModuleError>(v@),
                Err(e) => s == Err::<Seq<char>, ModuleError>(e),
            }
        }),
{
    match config_get(config, k1) {
        Some(v) => unwrap_value_if_string(v),
        None => match config_get(config, k2) {
            Some(v) => unwrap_value_if_string(v),
            None => Ok(String::new()),
        },
    }
}

/// The background color *string* of a segment: an explicit override
/// wins; an absent or empty segment value falls through to
/// `global.background`; absent globally means the empty string (which
/// no color parse accepts).
pub open spec fn spec_bg_string(
    m: Map<Seq<char>, ConfValue>,
    name: Seq<char>,
    bg_override: Option<Seq<char>>,
) -> Result<Seq<char>, ModuleError> {
    let seg = match bg_override {
        Some(o) => Ok::<Option<Seq<char>>, ModuleError>(Some(o)),
        None => spec_opt_str_field(m, spec_module_key(name, "background"@)),
    };
    if seg is Err {
        Err(seg->Err_0)
    } else {
        match seg->Ok_0 {
            Some(s) => if s.len() > 0 {
                Ok(s)
            } else {
                spec_str_field(m, spec_global_key("background"@), Seq::empty())
            },
            None => spec_str_field(m, spec_global_key("background"@), Seq::empty()),
        }
    }
}

/// The shell whose wrapper markers to use, from `global.shell`: absent
/// means bash; anything but `bash` or `zsh` is unrecognized and fatal.
pub open spec fn spec_shell_choice(m: Map<Seq<char>, ConfValue>) -> Result<Shell, ModuleError> {
    let s = spec_str_field(m, "global.shell"@, "bash"@);
    if s is Err {
        Err(s->Err_0)
    } else if s->Ok_0 == "bash"@ {
        Ok(Shell::Bash)
    } else if s->Ok_0 == "zsh"@ {
        Ok(Shell::Zsh)
    } else {
        Err(ModuleError::NoSuchMatch)
    }
}

/// Reads the shell choice from the configuration.
pub fn shell_choice(config: &config::Config) -> (r: Result<Shell, ModuleError>)
    ensures
        r == spec_shell_choice(config_model(config)),
{
    let s = match config_get(config, "global.shell") {
        Some(v) => unwrap_value_if_string(v)?,
        None => String::from_str("bash"),
    };
    if crate::chars::str_eq(s.as_str(), "bash") {
        Ok(Shell::Bash)
    } else if crate::chars::str_eq(s.as_str(), "zsh") {
        Ok(Shell::Zsh)
    } else {
        Err(ModuleError::NoSuchMatch)
    }
}

/// What the fused formatter emits. With neither configured `output`
/// nor computed `output` the segment is skipped silently (`Ok(None)`).
/// Otherwise every color is resolved with global fallback (a segment
/// needs both a foreground and a background here), the content is
/// wrapped in the main style, and the separator is painted with the
/// colors swapped: on the segment's own background as foreground, over
/// the following segment's background — or flat, with no attributes,
/// after the last segment.
pub open spec fn spec_format_module(
    m: Map<Seq<char>, ConfValue>,
    name: Seq<char>,
    output: Option<Seq<char>>,
    last: Option<Seq<char>>,
    bg_override: Option<Seq<char>>,
) -> Result<Option<Seq<char>>, ModuleError> {
    let cfg_out = spec_opt_str_field(m, spec_module_key(name, "output"@));
    if cfg_out is Err {
        Err(cfg_out->Err_0)
    } else if cfg_out->Ok_0 is None && output is None {
        Ok(None)
    } else {
        let fg_s = spec_fallback_str(
            m,
            spec_module_key(name, "foreground"@),
            spec_global_key("foreground"@),
        );
        if fg_s is Err {
            Err(fg_s->Err_0)
        } else {
            let fg_c = spec_string_to_colour(fg_s->Ok_0);
            if fg_c is Err {
                Err(fg_c->Err_0)
            } else {
                let bg_s = spec_bg_string(m, name, bg_override);
                if bg_s is Err {
                    Err(bg_s->Err_0)
                } else {
                    let bg_c = spec_string_to_colour(bg_s->Ok_0);
                    if bg_c is Err {
                        Err(bg_c->Err_0)
                    } else {
                        spec_format_module_styled(
                            m,
                            name,
                            output,
                            last,
                            fg_c->Ok_0,
                            bg_c->Ok_0,
                            cfg_out->Ok_0,
                        )
                    }
                }
            }
        }
    }
}

/// The tail of `spec_format_module`, once both colors are resolved:
/// paddings, separator and style with global fallback, the shell
/// choice, then the assembled text.
pub open spec fn spec_format_module_styled(
    m: Map<Seq<char>, ConfValue>,
    name: Seq<char>,
    output: Option<Seq<char>>,
    last: Option<Seq<char>>,
    fg: Color,
    bg: Color,
    cfg_out: Option<Seq<char>>,
) -> Result<Option<Seq<char>>, ModuleError> {
    let pl = spec_fallback_str(
        m,
        spec_module_key(name, "padding_left"@),
        spec_global_key("padding_left"@),
    );
    let pr = spec_fallback_str(
        m,
        spec_module_key(name, "padding_right"@),
        spec_global_key("padding_right"@),
    );
    let sep = spec_fallback_str(
        m,
        spec_module_key(name, "separator"@),
        spec_global_key("separator"@),
    );
    let style_s = spec_fallback_str(m, spec_module_key(name, "style"@), spec_global_key("style"@));
    if pl is Err {
        Err(pl->Err_0)
    } else if pr is Err {
        Err(pr->Err_0)
    } else if sep is Err {
        Err(sep->Err_0)
    } else if style_s is Err {
        Err(style_s->Err_0)
    } else {
        let attrs = spec_string_to_style(style_s->Ok_0);
        if attrs is Err {
            Err(attrs->Err_0)
        } else {
            let shell = spec_shell_choice(m);
            if shell is Err {
                Err(shell->Err_0)
            } else {
                let text = match cfg_out {
                    Some(o) => o,
                    None => match output {
                        Some(o) => o,
                        None => Seq::empty(),
                    },
                };
                let main_style = Style {
                    attrs: attrs->Ok_0,
                    background: Some(bg),
                    foreground: Some(fg),
                };
                let content = spec_wrapped_block(
                    main_style,
                    true,
                    shell->Ok_0,
                    pl->Ok_0,
                    text,
                    pr->Ok_0,
                );
                match last {
                    Some(lname) => {
                        let nb_s = spec_fallback_str(
                            m,
                            spec_module_key(lname, "background"@),
                            spec_global_key("background"@),
                        );
                        if nb_s is Err {
                            Err(nb_s->Err_0)
                        } else {
                            let nb_c = spec_string_to_colour(nb_s->Ok_0);
                            if nb_c is Err {
                                Err(nb_c->Err_0)
                            } else {
                                let sep_style = Style {
                                    attrs: attrs->Ok_0,
                                    background: Some(nb_c->Ok_0),
                                    foreground: Some(bg),
                                };
                                let sep_part = spec_wrapped_block(
                                    sep_style,
                                    true,
                                    shell->Ok_0,
                                    Seq::empty(),
                                    sep->Ok_0,
                                    Seq::empty(),
                                );
                                Ok(Some(content + sep_part))
                            }
                        }
                    },
                    None => {
                        let flat_style = Style {
                            attrs: attrs_empty(),
                            background: None,
                            foreground: Some(bg),
                        };
                        let sep_part = spec_wrapped_block(
                            flat_style,
                            true,
                            shell->Ok_0,
                            Seq::empty(),
                            sep->Ok_0,
                            Seq::empty(),
                        );
                        Ok(Some(content + sep_part))
                    },
                }
            }
        }
    }
}

/// Formats a segment from the configuration alone: `output` is the
/// computed content (a configured `modules.<name>.output` overrides
/// it), `last` the name of the following visible segment whose
/// background paints the separator, and `bg_override` an explicit
/// background-color string that supersedes the configured one.
/// `Ok(None)` means the segment is skipped entirely.
pub fn format_module(
    c: &config::Config,
    name: &str,
    output: Option<String>,
    last: Option<&str>,
    bg_override: Option<&str>,
) -> (r: Result<Option<String>, ModuleError>)
    ensures
        ({
            let s = spec_format_module(
                config_model(c),
                name@,
                match output {
                    Some(o) => Some(o@),
                    None => None,
                },
                match last {
                    Some(l) => Some(l@),
                    None => None,
                },
                match bg_override {
                    Some(b) => Some(b@),
                    None => None,
                },
            );
            match r {
                Ok(Some(o)) => s == Ok::<Option<Seq<char>>, ModuleError>(Some(o@)),
                Ok(None) => s == Ok::<Option<Seq<char>>, ModuleError>(None),
                Err(e) => s == Err::<Option<Seq<char>>, ModuleError>(e),
            }
        }),
{
    let out_key = module_key(name, "output");
    let cfg_out = match config_get(c, out_key.as_str()) {
        Some(v) => Some(unwrap_value_if_string(v)?),
        None => None,
    };
    if cfg_out.is_none() && output.is_none() {
        return Ok(None);
    }
    let fg_key = module_key(name, "foreground");
    let gfg_key = global_key("foreground");
    let fg_s = fallback_str(c, fg_key.as_str(), gfg_key.as_str())?;
    let fg = string_to_colour(fg_s.as_str())?;
    let gbg_key = global_key("background");
    let bg_s: String = match bg_override {
        Some(o) => {
            if o.unicode_len() > 0 {
                String::from_str(o)
            } else {
                match config_get(c, gbg_key.as_str()) {
                    Some(v) => unwrap_value_if_string(v)?,
                    None => String::new(),
                }
            }
        },
        None => {
            let bg_key = module_key(name, "background");
            let seg_bg = match config_get(c, bg_key.as_str()) {
                Some(v) => Some(unwrap_value_if_string(v)?),
                None => None,
            };
            match seg_bg {
                Some(s) => {
                    if s.as_str().unicode_len() > 0 {
                        s
                    } else {
                        match config_get(c, gbg_key.as_str()) {
                            Some(v) => unwrap_value_if_string(v)?,
                            None => String::new(),
                        }
                    }
                },
                None => match config_get(c, gbg_key.as_str()) {
                    Some(v) => unwrap_value_if_string(v)?,
                    None => String::new(),
                },
            }
        },
    };
    let bg = string_to_colour(bg_s.as_str())?;
    let pl_key = module_key(name, "padding_left");
    let gpl_key = global_key("padding_left");
    let pl = fallback_str(c, pl_key.as_str(), gpl_key.as_str())?;
    let pr_key = module_key(name, "padding_right");
    let gpr_key = global_key("padding_right");
    let pr = fallback_str(c, pr_key.as_str(), gpr_key.as_str())?;
    let sep_key = module_key(name, "separator");
    let gsep_key = global_key("separator");
    let sep = fallback_str(c, sep_key.as_str(), gsep_key.as_str())?;
    let style_key = module_key(name, "style");
    let gstyle_key = global_key("style");
    let style_s = fallback_str(c, style_key.as_str(), gstyle_key.as_str())?;
    let attrs = string_to_style(style_s.as_str())?;
    let shell = shell_choice(c)?;
    let text: &str = match &cfg_out {
        Some(o) => o.as_str(),
        None => match &output {
            Some(o) => o.as_str(),
            None => "",
        },
    };
    proof {
        reveal_strlit("");
    }
    let main_style = Style { attrs, background: Some(bg), foreground: Some(fg) };
    let mut out = String::new();
    push_wrapped_block(&mut out, &main_style, true, shell, pl.as_str(), text, pr.as_str());
    match last {
        Some(lname) => {
            let nb_key = module_key(lname, "background");
            let nb_s = fallback_str(c, nb_key.as_str(), gbg_key.as_str())?;
            let nb = string_to_colour(nb_s.as_str())?;
            let sep_style = Style { attrs, background: Some(nb), foreground: Some(bg) };
            push_wrapped_block(&mut out, &sep_style, true, shell, "", sep.as_str(), "");
        },
        None => {
            let flat_style = Style {
                attrs: TextAttributes::empty(),
                background: None,
                foreground: Some(bg),
            };
            push_wrapped_block(&mut out, &flat_style, true, shell, "", sep.as_str(), "");
        },
    }
    proof {
        assert(""@ =~= Seq::<char>::empty());
    }
    Ok(Some(out))
}

/// What the prompt segment emits here: the `bg_success` or `bg_error`
/// color string (for a `0` exit code and anything else respectively)
/// overrides the background, and the configured `modules.prompt.output`
/// is the content.
pub open spec fn spec_format_module_prompt(
    m: Map<Seq<char>, ConfValue>,
    last: Option<Seq<char>>,
    exit_code: Seq<char>,
) -> Result<Option<Seq<char>>, ModuleError> {
    let key = if exit_code == "0"@ {
        "modules.prompt.bg_success"@
    } else {
        "modules.prompt.bg_error"@
    };
    let bg = spec_str_field(m, key, Seq::empty());
    if bg is Err {
        Err(bg->Err_0)
    } else {
        let out = spec_str_field(m, "modules.prompt.output"@, Seq::empty());
        if out is Err {
            Err(out->Err_0)
        } else {
            spec_format_module(m, "prompt"@, Some(out->Ok_0), last, Some(bg->Ok_0))
        }
    }
}

/// Formats the prompt segment: success or error background by the exit
/// code, content from `modules.prompt.output`.
pub fn format_module_prompt(c: &config::Config, last: Option<&str>, exit_code: &str) -> (r: Result<
    Option<String>,
    ModuleError,
>)
    ensures
        ({
            let s = spec_format_module_prompt(
                config_model(c),
                match last {
                    Some(l) => Some(l@),
                    None => None,
                },
                exit_code@,
            );
            match r {
                Ok(Some(o)) => s == Ok::<Option<Seq<char>>, ModuleError>(Some(o@)),
                Ok(None) => s == Ok::<Option<Seq<char>>, ModuleError>(None),
                Err(e) => s == Err::<Option<Seq<char>>, ModuleError>(e),
            }
        }),
{
    let bg = if crate::chars::str_eq(exit_code, "0") {
        crate::options::read_str_field("modules.prompt.bg_success", c, "")?
    } else {
        crate::options::read_str_field("modules.prompt.bg_error", c, "")?
    };
    let output = crate::options::read_str_field("modules.prompt.output", c, "")?;
    proof {
        reveal_strlit("");
        assert(""@ =~= Seq::<char>::empty());
    }
    format_module(c, "prompt", Some(output), last, Some(bg.as_str()))
}

/// What the exit-code segment emits here: like the prompt, but the
/// content is the exit code itself.
pub open spec fn spec_format_module_exit_code(
    m: Map<Seq<char>, ConfValue>,
    last: Option<Seq<char>>,
    exit_code: Seq<char>,
) -> Result<Option<Seq<char>>, ModuleError> {
    let key = if exit_code == "0"@ {
        "modules.exit_code.bg_success"@
    } else {
        "modules.exit_code.bg_error"@
    };
    let bg = spec_str_field(m, key, Seq::empty());
    if bg is Err {
        Err(bg->Err_0)
    } else {
        spec_format_module(m, "exit_code"@, Some(exit_code), last, Some(bg->Ok_0))
    }
}

/// Formats the exit-code segment: success or error background by the
/// exit code, the code itself as content.
pub fn format_module_exit_code(c: &config::Config, last: Option<&str>, exit_code: &str) -> (r:
    Result<Option<String>, ModuleError>)
    ensures
        ({
            let s = spec_format_module_exit_code(
                config_model(c),
                match last {
                    Some(l) => Some(l@),
                    None => None,
                },
                exit_code@,
            );
            match r {
                Ok(Some(o)) => s == Ok::<Option<Seq<char>>, ModuleError>(Some(o@)),
                Ok(None) => s == Ok::<Option<Seq<char>>, ModuleError>(None),
                Err(e) => s == Err::<Option<Seq<char>>, ModuleError>(e),
            }
        }),
{
    let bg = if crate::chars::str_eq(exit_code, "0") {
        crate::options::read_str_field("modules.exit_code.bg_success", c, "")?
    } else {
        crate::options::read_str_field("modules.exit_code.bg_error", c, "")?
    };
    proof {
        reveal_strlit("");
        assert(""@ =~= Seq::<char>::empty());
    }
    format_module(c, "exit_code", Some(String::from_str(exit_code)), last, Some(bg.as_str()))
}

/// What the directory segment emits here: the working directory with
/// the home prefix as `~`, truncated to `modules.directory.max_depth`
/// (default 4) under the policy of `modules.directory.truncate_middle`.
pub open spec fn spec_format_module_directory(
    m: Map<Seq<char>, ConfValue>,
    last: Option<Seq<char>>,
    home: Seq<char>,
    cwd: Seq<char>,
) -> Result<Option<Seq<char>>, ModuleError> {
    let comps = tilde_components(path_components(cwd), path_components(home));
    let md = spec_max_depth(m, "modules.directory.max_depth"@, 4);
    if md is Err {
        Err(md->Err_0)
    } else {
        let middle = spec_bool_field(m, "modules.directory.truncate_middle"@, false);
        if middle is Err {
            Err(middle->Err_0)
        } else {
            let display = path_display(spec_truncate(comps, md->Ok_0, middle->Ok_0));
            spec_format_module(m, "directory"@, Some(display), last, None)
        }
    }
}

/// Formats the directory segment. `home` and `cwd` are plain values
/// handed in by the caller (the environment's home directory and the
/// current working directory).
pub fn format_module_directory(c: &config::Config, last: Option<&str>, home: &str, cwd: &str) -> (r:
    Result<Option<String>, ModuleError>)
    ensures
        ({
            let s = spec_format_module_directory(
                config_model(c),
                match last {
                    Some(l) => Some(l@),
                    None => None,
                },
                home@,
                cwd@,
            );
            match r {
                Ok(Some(o)) => s == Ok::<Option<Seq<char>>, ModuleError>(Some(o@)),
                Ok(None) => s == Ok::<Option<Seq<char>>, ModuleError>(None),
                Err(e) => s == Err::<Option<Seq<char>>, ModuleError>(e),
            }
        }),
{
    let hc = path_components_x(home);
    let comps = tilde_components_x(path_components_x(cwd), &hc);
    let md = read_max_depth("modules.directory.max_depth", c, 4)?;
    let middle = read_bool("modules.directory.truncate_middle", c, false)?;
    let display = path_display_x(&truncate_components(comps, md, middle));
    format_module(c, "directory", Some(display), last, None)
}

/// The change fragment of the git text: when changes are to be shown
/// and any file differs, either literal deletion/insertion counts with
/// their configured symbols, or just the insertion symbol as a marker.
pub open spec fn spec_git_changed_fragment(
    m: Map<Seq<char>, ConfValue>,
    gi: GitInfoV,
    show_changed: bool,
    show_diffs: bool,
) -> Result<Seq<char>, ModuleError> {
    if show_changed {
        match gi.stats {
            Some(st) => if st.files_changed > 0 {
                let si = spec_str_field(m, "modules.git.symbol_insertion"@, Seq::empty());
                if si is Err {
                    Err(si->Err_0)
                } else if show_diffs {
                    let sd = spec_str_field(m, "modules.git.symbol_deletion"@, Seq::empty());
                    if sd is Err {
                        Err(sd->Err_0)
                    } else {
                        Ok(
                            " ("@ + sd->Ok_0 + crate::chars::dec_nat(st.deletions as nat) + ", "@
                                + si->Ok_0 + crate::chars::dec_nat(st.insertions as nat) + ")"@,
                        )
                    }
                } else {
                    Ok(" "@ + si->Ok_0)
                }
            } else {
                Ok(Seq::empty())
            },
            None => Ok(Seq::empty()),
        }
    } else {
        Ok(Seq::empty())
    }
}

/// The unpushed/unpulled fragment of the git text: the ahead and behind
/// counts against upstream, each shown only when nonzero, each with its
/// own configured symbol.
pub open spec fn spec_git_unpushed_fragment(
    m: Map<Seq<char>, ConfValue>,
    gi: GitInfoV,
    show_unpushed: bool,
) -> Result<Seq<char>, ModuleError> {
    if show_unpushed {
        match gi.ahead_behind {
            Some(ab) => if ab.ahead > 0 {
                let sp = spec_str_field(m, "modules.git.symbol_push"@, Seq::empty());
                if sp is Err {
                    Err(sp->Err_0)
                } else {
                    let ahead_part = " "@ + sp->Ok_0 + crate::chars::dec_nat(ab.ahead as nat);
                    if ab.behind > 0 {
                        let sl = spec_str_field(m, "modules.git.symbol_pull"@, Seq::empty());
                        if sl is Err {
                            Err(sl->Err_0)
                        } else {
                            Ok(ahead_part + (" "@ + sl->Ok_0 + crate::chars::dec_nat(
                                ab.behind as nat,
                            )))
                        }
                    } else {
                        Ok(ahead_part)
                    }
                }
            } else if ab.behind > 0 {
                let sl = spec_str_field(m, "modules.git.symbol_pull"@, Seq::empty());
                if sl is Err {
                    Err(sl->Err_0)
                } else {
                    Ok(" "@ + sl->Ok_0 + crate::chars::dec_nat(ab.behind as nat))
                }
            } else {
                Ok(Seq::empty())
            },
            None => Ok(Seq::empty()),
        }
    } else {
        Ok(Seq::empty())
    }
}

/// What the git segment emits here for a given repository snapshot:
/// nothing for no snapshot or an empty status text; otherwise the
/// branch name, the change fragment and the unpushed fragment, rendered
/// through the fused formatter. Only configuration errors propagate.
pub open spec fn spec_format_module_git_info(
    m: Map<Seq<char>, ConfValue>,
    last: Option<Seq<char>>,
    info: Option<GitInfoV>,
) -> Result<Option<Seq<char>>, ModuleError> {
    match info {
        None => Ok(None),
        Some(gi) => {
            let sd = spec_bool_field(m, "modules.git.show_diff_stats"@, false);
            if sd is Err {
                Err(sd->Err_0)
            } else {
                let sc = spec_bool_field(m, "modules.git.show_changed"@, false);
                if sc is Err {
                    Err(sc->Err_0)
                } else {
                    let frag1 = spec_git_changed_fragment(m, gi, sc->Ok_0, sd->Ok_0);
                    if frag1 is Err {
                        Err(frag1->Err_0)
                    } else {
                        let su = spec_bool_field(m, "modules.git.show_unpushed"@, false);
                        if su is Err {
                            Err(su->Err_0)
                        } else {
                            let frag2 = spec_git_unpushed_fragment(m, gi, su->Ok_0);
                            if frag2 is Err {
                                Err(frag2->Err_0)
                            } else {
                                let text = (match gi.branch {
                                    Some(b) => b,
                                    None => Seq::<char>::empty(),
                                }) + frag1->Ok_0 + frag2->Ok_0;
                                if text.len() == 0 {
                                    Ok(None)
                                } else {
                                    spec_format_module(m, "git"@, Some(text), last, None)
                                }
                            }
                        }
                    }
                }
            }
        },
    }
}

/// Appends the change fragment to `text`.
fn push_changed_fragment(
    text: &mut String,
    c: &config::Config,
    gi: &GitInfo,
    show_changed: bool,
    show_diffs: bool,
) -> (r: Result<(), ModuleError>)
    ensures
        ({
            let f = spec_git_changed_fragment(config_model(c), gi@, show_changed, show_diffs);
            match r {
                Ok(_) => f is Ok && final(text)@ == old(text)@ + f->Ok_0,
                Err(e) => f == Err::<Seq<char>, ModuleError>(e),
            }
        }),
{
    proof {
        reveal_strlit("");
        assert(""@ =~= Seq::<char>::empty());
    }
    if show_changed {
        match &gi.stats {
            Some(st) => {
                if st.files_changed > 0 {
                    let si = crate::options::read_str_field("modules.git.symbol_insertion", c, "")?;
                    if show_diffs {
                        let sd = crate::options::read_str_field(
                            "modules.git.symbol_deletion",
                            c,
                            "",
                        )?;
                        text.append(" (");
                        text.append(sd.as_str());
                        crate::chars::push_dec_u64(text, st.deletions as u64);
                        text.append(", ");
                        text.append(si.as_str());
                        crate::chars::push_dec_u64(text, st.insertions as u64);
                        text.append(")");
                        proof {
                            reveal_strlit(" (");
                            reveal_strlit(", ");
                            reveal_strlit(")");
                            assert(text@ =~= old(text)@ + spec_git_changed_fragment(
                                config_model(c),
                                gi@,
                                show_changed,
                                show_diffs,
                            )->Ok_0);
                        }
                    } else {
                        text.append(" ");
                        text.append(si.as_str());
                        proof {
                            reveal_strlit(" ");
                            assert(text@ =~= old(text)@ + spec_git_changed_fragment(
                                config_model(c),
                                gi@,
                                show_changed,
                                show_diffs,
                            )->Ok_0);
                        }
                    }
                    return Ok(());
                }
            },
            None => (),
        }
    }
    proof {
        assert(text@ =~= old(text)@ + spec_git_changed_fragment(
            config_model(c),
            gi@,
            show_changed,
            show_diffs,
        )->Ok_0);
    }
    Ok(())
}

/// Appends the unpushed/unpulled fragment to `text`.
fn push_unpushed_fragment(
    text: &mut String,
    c: &config::Config,
    gi: &GitInfo,
    show_unpushed: bool,
) -> (r: Result<(), ModuleError>)
    ensures
        ({
            let f = spec_git_unpushed_fragment(config_model(c), gi@, show_unpushed);
            match r {
                Ok(_) => f is Ok && final(text)@ == old(text)@ + f->Ok_0,
                Err(e) => f == Err::<Seq<char>, ModuleError>(e),
            }
        }),
{
    proof {
        reveal_strlit("");
        assert(""@ =~= Seq::<char>::empty());
    }
    if show_unpushed {
        match &gi.ahead_behind {
            Some(ab) => {
                let ghost mid0 = text@;
                if ab.ahead > 0 {
                    let sp = crate::options::read_str_field("modules.git.symbol_push", c, "")?;
                    text.append(" ");
                    text.append(sp.as_str());
                    crate::chars::push_dec_u64(text, ab.ahead as u64);
                }
                if ab.behind > 0 {
                    let sl = crate::options::read_str_field("modules.git.symbol_pull", c, "")?;
                    text.append(" ");
                    text.append(sl.as_str());
                    crate::chars::push_dec_u64(text, ab.behind as u64);
                }
                proof {
                    reveal_strlit(" ");
                    assert(text@ =~= old(text)@ + spec_git_unpushed_fragment(
                        config_model(c),
                        gi@,
                        show_unpushed,
                    )->Ok_0);
                }
                return Ok(());
            },
            None => (),
        }
    }
    proof {
        assert(text@ =~= old(text)@ + spec_git_unpushed_fragment(
            config_model(c),
            gi@,
            show_unpushed,
        )->Ok_0);
    }
    Ok(())
}

/// Renders the git segment from an already-taken repository snapshot.
pub fn format_module_git_info(c: &config::Config, last: Option<&str>, info: Option<&GitInfo>) -> (r:
    Result<Option<String>, ModuleError>)
    ensures
        ({
            let s = spec_format_module_git_info(
                config_model(c),
                match last {
                    Some(l) => Some(l@),
                    None => None,
                },
                match info {
                    Some(gi) => Some(gi@),
                    None => None,
                },
            );
            match r {
                Ok(Some(o)) => s == Ok::<Option<Seq<char>>, ModuleError>(Some(o@)),
                Ok(None) => s == Ok::<Option<Seq<char>>, ModuleError>(None),
                Err(e) => s == Err::<Option<Seq<char>>, ModuleError>(e),
            }
        }),
{
    let gi = match info {
        None => {
            return Ok(None);
        },
        Some(g) => g,
    };
    let show_diffs = read_bool("modules.git.show_diff_stats", c, false)?;
    let show_changed = read_bool("modules.git.show_changed", c, false)?;
    let mut text = String::new();
    match &gi.branch {
        Some(b) => text.append(b.as_str()),
        None => (),
    }
    proof {
        assert(text@ =~= match gi@.branch {
            Some(b) => b,
            None => Seq::<char>::empty(),
        });
        reveal_strlit("");
        assert(""@ =~= Seq::<char>::empty());
    }
    push_changed_fragment(&mut text, c, gi, show_changed, show_diffs)?;
    let show_unpushed = read_bool("modules.git.show_unpushed", c, false)?;
    push_unpushed_fragment(&mut text, c, gi, show_unpushed)?;
    if text.as_str().unicode_len() == 0 {
        Ok(None)
    } else {
        format_module(c, "git", Some(text), last, None)
    }
}

/// Finds and formats the git segment from the repository enclosing
/// `path`, if any: absent without a repository; otherwise the rendering
/// of whatever snapshot the repository yielded, as
/// `spec_format_module_git_info` states it.
pub fn format_module_git(c: &config::Config, last: Option<&str>, path: &str) -> (r: Result<
    Option<String>,
    ModuleError,
>)
    ensures
        exists|info: Option<GitInfoV>|
            {
                let s = #[trigger] spec_format_module_git_info(
                    config_model(c),
                    crate::utils::view_opt_str(last),
                    info,
                );
                match r {
                    Ok(Some(o)) => s == Ok::<Option<Seq<char>>, ModuleError>(Some(o@)),
                    Ok(None) => s == Ok::<Option<Seq<char>>, ModuleError>(None),
                    Err(e) => s == Err::<Option<Seq<char>>, ModuleError>(e),
                }
            },
{
    let info = gather_git_info(path);
    let r = match &info {
        Some(gi) => format_module_git_info(c, last, Some(gi)),
        None => format_module_git_info(c, last, None),
    };
    proof {
        let w: Option<GitInfoV> = match info {
            Some(gi) => Some(gi@),
            None => None,
        };
        let s = spec_format_module_git_info(
            config_model(c),
            match last {
                Some(l) => Some(l@),
                None => None,
            },
            w,
        );
        assert(match r {
            Ok(Some(o)) => s == Ok::<Option<Seq<char>>, ModuleError>(Some(o@)),
            Ok(None) => s == Ok::<Option<Seq<char>>, ModuleError>(None),
            Err(e) => s == Err::<Option<Seq<char>>, ModuleError>(e),
        });
    }
    r
}

} // verus!
