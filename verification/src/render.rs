//! Rendering one segment: content between its style's escape codes,
//! padding, and the separator painted with swapped colors, everything
//! wrapped in shell-specific zero-width markers where escape codes are
//! actually emitted.

use vstd::prelude::*;

use crate::color::{attrs_empty, Color, TextAttributes};
use crate::options::{ModuleOptions, ModuleOptionsV, ModuleStyle};
use crate::style::{
    push_style_prefix, push_style_suffix, spec_style_prefix, spec_style_suffix, style_has_codes,
    Style,
};
use crate::utils::ModuleError;

verus! {

/// The shell the prompt is rendered for; it decides the zero-width
/// wrapper markers around escape codes. Only `bash` and `zsh` markers
/// are known; rendering styled output for another shell is a fatal
/// error, never a silent fallback.
#[derive(Clone, Copy, Debug, PartialEq, Eq, Structural)]
pub enum Shell {
    Bash,
    Zsh,
    Fish,
}

/// The shells whose wrapper markers are known.
pub open spec fn shell_supported(sh: Shell) -> bool {
    sh is Bash || sh is Zsh
}

/// The marker opening a zero-width run: `\[` for bash, `%{` for zsh.
pub open spec fn wrap_start(sh: Shell) -> Seq<char> {
    match sh {
        Shell::Bash => seq!['\\', '['],
        Shell::Zsh => seq!['%', '{'],
        Shell::Fish => Seq::empty(),
    }
}

/// The marker closing a zero-width run: `\]` for bash, `%}` for zsh.
pub open spec fn wrap_end(sh: Shell) -> Seq<char> {
    match sh {
        Shell::Bash => seq!['\\', ']'],
        Shell::Zsh => seq!['%', '}'],
        Shell::Fish => Seq::empty(),
    }
}

/// A partial segment style made paintable: absent attributes become no
/// attributes; the colors stay as they are.
pub open spec fn spec_style_from_modulestyle(s: ModuleStyle) -> Style {
    Style {
        attrs: match s.text_properties {
            Some(a) => a,
            None => attrs_empty(),
        },
        background: s.background,
        foreground: s.foreground,
    }
}

/// Converts a `ModuleStyle` into a paintable `Style`.
pub fn style_from_modulestyle(s: &ModuleStyle) -> (r: Style)
    ensures
        r == spec_style_from_modulestyle(*s),
{
    Style {
        attrs: match s.text_properties {
            Some(a) => a,
            None => TextAttributes::empty(),
        },
        background: s.background,
        foreground: s.foreground,
    }
}

/// Whether the main content emits escape codes (and so needs wrapping):
/// true exactly when its style emits at least one code fragment.
pub open spec fn needs_wrap_content(opts: ModuleOptionsV) -> bool {
    crate::style::style_codes(spec_style_from_modulestyle(opts.style)).len() > 0
}

/// Whether the separator emits escape codes (and so needs wrapping):
/// true exactly when the swapped separator style emits at least one
/// code fragment.
pub open spec fn needs_wrap_sep(opts: ModuleOptionsV, next_bg: Option<Color>) -> bool {
    crate::style::style_codes(spec_sep_style(opts, next_bg)).len() > 0
}

/// The separator's style: foreground becomes the segment's own
/// background, background becomes the next visible segment's background
/// (or none at all, painting the separator flat), attributes carry
/// over.
pub open spec fn spec_sep_style(opts: ModuleOptionsV, next_bg: Option<Color>) -> Style {
    spec_style_from_modulestyle(
        ModuleStyle {
            foreground: opts.style.background,
            background: next_bg,
            text_properties: opts.style.text_properties,
        },
    )
}

/// One styled run: the style's escape prefix, the text between `left`
/// and `right`, and the escape suffix — with each escape run bracketed
/// by the shell's zero-width markers when `wrap` is set.
pub open spec fn spec_wrapped_block(
    st: Style,
    wrap: bool,
    shell: Shell,
    left: Seq<char>,
    text: Seq<char>,
    right: Seq<char>,
) -> Seq<char> {
    let w1 = if wrap {
        wrap_start(shell)
    } else {
        Seq::empty()
    };
    let w2 = if wrap {
        wrap_end(shell)
    } else {
        Seq::empty()
    };
    w1 + spec_style_prefix(st) + w2 + left + text + right + w1 + spec_style_suffix(st) + w2
}

/// The rendered content of one segment: its padded text in its own
/// style.
pub open spec fn spec_module_content(s: Seq<char>, opts: ModuleOptionsV, shell: Shell) -> Seq<
    char,
> {
    let text = match opts.output {
        Some(o) => o,
        None => s,
    };
    spec_wrapped_block(
        spec_style_from_modulestyle(opts.style),
        needs_wrap_content(opts),
        shell,
        opts.padding_left,
        text,
        opts.padding_right,
    )
}

/// The rendered separator of one segment, in the swapped style.
pub open spec fn spec_module_separator(
    opts: ModuleOptionsV,
    next_bg: Option<Color>,
    shell: Shell,
) -> Seq<char> {
    spec_wrapped_block(
        spec_sep_style(opts, next_bg),
        needs_wrap_sep(opts, next_bg),
        shell,
        Seq::empty(),
        opts.separator,
        Seq::empty(),
    )
}

/// What one rendered segment looks like: the content between its
/// style's escape codes and paddings, then the separator in the swapped
/// style — each escape-code run bracketed by the shell's zero-width
/// markers, which are omitted entirely where no codes are emitted.
/// Styled output for a shell without known markers is a fatal error.
pub open spec fn spec_format_for_module(
    s: Seq<char>,
    opts: ModuleOptionsV,
    next_bg: Option<Color>,
    shell: Shell,
) -> Result<Seq<char>, ModuleError> {
    if (needs_wrap_content(opts) || needs_wrap_sep(opts, next_bg)) && !shell_supported(shell) {
        Err(ModuleError::FormatFailure)
    } else {
        Ok(spec_module_content(s, opts, shell) + spec_module_separator(opts, next_bg, shell))
    }
}

/// Appends one wrapped styled run to `out`.
#[verifier::rlimit(100)]
pub(crate) fn push_wrapped_block(
    out: &mut String,
    st: &Style,
    wrap: bool,
    shell: Shell,
    left: &str,
    text: &str,
    right: &str,
)
    ensures
        final(out)@ == old(out)@ + spec_wrapped_block(*st, wrap, shell, left@, text@, right@),
{
    let w1: &str = if wrap {
        match shell {
            Shell::Bash => "\\[",
            Shell::Zsh => "%{",
            Shell::Fish => "",
        }
    } else {
        ""
    };
    let w2: &str = if wrap {
        match shell {
            Shell::Bash => "\\]",
            Shell::Zsh => "%}",
            Shell::Fish => "",
        }
    } else {
        ""
    };
    proof {
        reveal_strlit("\\[");
        reveal_strlit("%{");
        reveal_strlit("\\]");
        reveal_strlit("%}");
        reveal_strlit("");
        assert(w1@ =~= if wrap {
            wrap_start(shell)
        } else {
            Seq::<char>::empty()
        });
        assert(w2@ =~= if wrap {
            wrap_end(shell)
        } else {
            Seq::<char>::empty()
        });
    }
    out.append(w1);
    push_style_prefix(out, st);
    out.append(w2);
    out.append(left);
    out.append(text);
    out.append(right);
    out.append(w1);
    push_style_suffix(out, st);
    out.append(w2);
    proof {
        assert(final(out)@ =~= old(out)@ + spec_wrapped_block(*st, wrap, shell, left@, text@,
        right@));
    }
}

/// Formats a string with the given options for a specific shell.
///
/// `s` is the segment's computed content (replaced outright by the
/// `output` override when one is set), `next_bg` the background of the
/// next visible segment, used to paint the separator.
#[verifier::rlimit(100)]
pub fn format_for_module(
    s: &str,
    options: &ModuleOptions,
    next_bg: Option<Color>,
    shell: Shell,
) -> (r: Result<String, ModuleError>)
    ensures
        ({
            let sp = spec_format_for_module(s@, options@, next_bg, shell);
            match r {
                Ok(o) => sp == Ok::<Seq<char>, ModuleError>(o@),
                Err(e) => sp == Err::<Seq<char>, ModuleError>(e),
            }
        }),
{
    let st = style_from_modulestyle(&options.style);
    let needs_content = style_has_codes(&st);
    let sep_style = Style {
        attrs: match options.style.text_properties {
            Some(a) => a,
            None => TextAttributes::empty(),
        },
        background: next_bg,
        foreground: options.style.background,
    };
    let needs_sep = style_has_codes(&sep_style);
    proof {
        assert(sep_style == spec_sep_style(options@, next_bg));
    }
    let supported = match shell {
        Shell::Bash => true,
        Shell::Zsh => true,
        Shell::Fish => false,
    };
    if (needs_content || needs_sep) && !supported {
        return Err(ModuleError::FormatFailure);
    }
    let mut out = String::new();
    let text: &str = match &options.output {
        Some(o) => o.as_str(),
        None => s,
    };
    push_wrapped_block(
        &mut out,
        &st,
        needs_content,
        shell,
        options.padding_left.as_str(),
        text,
        options.padding_right.as_str(),
    );
    proof {
        assert(out@ == spec_module_content(s@, options@, shell));
    }
    push_wrapped_block(&mut out, &sep_style, needs_sep, shell, "", options.separator.as_str(), "");
    proof {
        reveal_strlit("");
        assert(""@ =~= Seq::<char>::empty());
        assert(out@ == spec_module_content(s@, options@, shell) + spec_module_separator(
            options@,
            next_bg,
            shell,
        ));
    }
    Ok(out)
}

} // verus!
