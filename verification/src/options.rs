//! Resolving a segment's options from the configuration: padding,
//! separator, output override, and its (still partial) style.

use vstd::prelude::*;

use crate::chars::{is_digit, lower_seq};
use crate::color::{
    attr_token_ok, apply_attr, attrs_empty, spec_try_color_from_str, spec_try_fixed_from_str,
    spec_try_rgb_from_str, spec_try_text_props_from_vec, Color, TextAttributes,
    try_color_from_str, try_fixed_from_str, try_rgb_from_str, try_text_prop_from_str,
    try_text_props_from_vec,
};
use crate::conf::{conf_lookup, config_get, config_model, ConfValue};
use crate::utils::ModuleError;

verus! {

/// How to style a segment. A `None` field means "inherit the global
/// default", resolved when the chain is rendered.
#[derive(Debug, Clone, Copy, PartialEq)]
pub struct ModuleStyle {
    /// Color behind the text.
    pub background: Option<Color>,
    /// Color of the text.
    pub foreground: Option<Color>,
    /// Combination of attributes like bold, italicized, etc.
    pub text_properties: Option<TextAttributes>,
}

impl Default for ModuleStyle {
    /// The default style inherits everything.
    fn default() -> (r: ModuleStyle)
        ensures
            r == (ModuleStyle {
                background: None::<Color>,
                foreground: None::<Color>,
                text_properties: None::<TextAttributes>,
            }),
    {
        ModuleStyle { background: None, foreground: None, text_properties: None }
    }
}

/// Fully resolved per-segment options, created fresh for one render
/// pass and read-only afterwards.
#[derive(Debug, PartialEq)]
pub struct ModuleOptions {
    /// String that, if present, overrides the output of the segment.
    pub output: Option<String>,
    /// String to display to the left of the content.
    pub padding_left: String,
    /// String to display to the right of the content.
    pub padding_right: String,
    /// String to print out after the content and right padding.
    pub separator: String,
    /// Background color, foreground color, etc.
    pub style: ModuleStyle,
}

/// The mathematical shape of resolved options.
pub ghost struct ModuleOptionsV {
    pub output: Option<Seq<char>>,
    pub padding_left: Seq<char>,
    pub padding_right: Seq<char>,
    pub separator: Seq<char>,
    pub style: ModuleStyle,
}

impl View for ModuleOptions {
    type V = ModuleOptionsV;

    open spec fn view(&self) -> ModuleOptionsV {
        ModuleOptionsV {
            output: match self.output {
                Some(s) => Some(s@),
                None => None,
            },
            padding_left: self.padding_left@,
            padding_right: self.padding_right@,
            separator: self.separator@,
            style: self.style,
        }
    }
}

/// The defaults: single-space padding, empty separator, no override,
/// inherit-everything style.
pub open spec fn spec_default_options() -> ModuleOptionsV {
    ModuleOptionsV {
        output: None,
        padding_left: " "@,
        padding_right: " "@,
        separator: ""@,
        style: ModuleStyle { background: None, foreground: None, text_properties: None },
    }
}

impl Default for ModuleOptions {
    /// The defaults, kept in sync with what `read_options` falls back
    /// to when a key is absent.
    fn default() -> (r: ModuleOptions)
        ensures
            r@ == spec_default_options(),
    {
        ModuleOptions {
            output: None,
            padding_left: String::from_str(" "),
            padding_right: String::from_str(" "),
            separator: String::from_str(""),
            style: ModuleStyle { background: None, foreground: None, text_properties: None },
        }
    }
}

/// Turns a configuration value into a `String`, or `InvalidType` if the
/// value wasn't a string to begin with: the configuration is strongly
/// typed, and an integer where a string was expected is an error.
pub fn unwrap_value_if_string(v: ConfValue) -> (r: Result<String, ModuleError>)
    ensures
        r matches Ok(s) ==> v matches ConfValue::Str(t) && s == t,
        r matches Err(e) ==> !(v is Str) && e == ModuleError::InvalidType,
{
    match v {
        ConfValue::Str(s) => Ok(s),
        _ => Err(ModuleError::InvalidType),
    }
}

/// The dotted path of a segment field: `modules.<name>.<field>`.
pub open spec fn spec_module_key(name: Seq<char>, field: Seq<char>) -> Seq<char> {
    "modules."@ + name + "."@ + field
}

/// Builds `modules.<name>.<field>`.
pub fn module_key(name: &str, field: &str) -> (r: String)
    ensures
        r@ == spec_module_key(name@, field@),
{
    let mut s = String::from_str("modules.");
    s.append(name);
    s.append(".");
    s.append(field);
    s
}

/// Builds `<key><suffix>` (the suffix carries its own leading dot).
pub fn sub_key(key: &str, suffix: &str) -> (r: String)
    ensures
        r@ == key@ + suffix@,
{
    let mut s = String::from_str(key);
    s.append(suffix);
    s
}

/// A string-valued field: absent means the default, any non-string
/// value is a type error.
pub open spec fn spec_str_field(
    m: Map<Seq<char>, ConfValue>,
    key: Seq<char>,
    default: Seq<char>,
) -> Result<Seq<char>, ModuleError> {
    match conf_lookup(m, key) {
        None => Ok(default),
        Some(ConfValue::Str(s)) => Ok(s@),
        Some(_) => Err(ModuleError::InvalidType),
    }
}

/// An optional string-valued field: absent stays absent.
pub open spec fn spec_opt_str_field(m: Map<Seq<char>, ConfValue>, key: Seq<char>) -> Result<
    Option<Seq<char>>,
    ModuleError,
> {
    match conf_lookup(m, key) {
        None => Ok(None),
        Some(ConfValue::Str(s)) => Ok(Some(s@)),
        Some(_) => Err(ModuleError::InvalidType),
    }
}

/// Reads a string field with a default for an absent key.
pub fn read_str_field(key: &str, config: &config::Config, default: &str) -> (r: Result<
    String,
    ModuleError,
>)
    ensures
        ({
            let s = spec_str_field(config_model(config), key@, default@);
            match r {
                Ok(v) => s == Ok::<Seq<char>, ModuleError>(v@),
                Err(e) => s == Err::<Seq<char>, ModuleError>(e),
            }
        }),
{
    match config_get(config, key) {
        Some(v) => unwrap_value_if_string(v),
        None => Ok(String::from_str(default)),
    }
}

/// A boolean-valued field: absent means the default, any non-boolean
/// value is a type error.
pub open spec fn spec_bool_field(
    m: Map<Seq<char>, ConfValue>,
    key: Seq<char>,
    default: bool,
) -> Result<bool, ModuleError> {
    match conf_lookup(m, key) {
        None => Ok(default),
        Some(ConfValue::Bool(b)) => Ok(b),
        Some(_) => Err(ModuleError::InvalidType),
    }
}

/// Reads a boolean flag from the configuration.
pub fn read_bool(key: &str, config: &config::Config, default: bool) -> (r: Result<
    bool,
    ModuleError,
>)
    ensures
        r == spec_bool_field(config_model(config), key@, default),
{
    match config_get(config, key) {
        None => Ok(default),
        Some(ConfValue::Bool(b)) => Ok(b),
        Some(_) => Err(ModuleError::InvalidType),
    }
}

/// True when the string is made only of the characters a numeric or
/// RGB color value could contain; such a string that still fails to
/// parse is malformed rather than unrecognized.
pub open spec fn colorlike(s: Seq<char>) -> bool {
    forall|i: int|
        0 <= i < s.len() ==> is_digit(#[trigger] s[i]) || s[i] == ',' || s[i] == '(' || s[i] == ')'
            || s[i] == ' ' || s[i] == '+'
}

/// What a color-valued configuration entry resolves to. An integer in
/// `0..=255` is an indexed color (out of range is malformed, never
/// clamped); a string is tried as a color name, then as an index, then
/// as an RGB triple, and when all fail it is `InvalidForm` if it was
/// color-like (digits and punctuation) and `NoSuchMatch` otherwise;
/// any other value kind is a type error. An absent key is no color.
pub open spec fn spec_try_color_from_config(m: Map<Seq<char>, ConfValue>, key: Seq<char>) -> Result<
    Option<Color>,
    ModuleError,
> {
    match conf_lookup(m, key) {
        None => Ok(None),
        Some(ConfValue::Int(i)) => if 0 <= i <= 255 {
            Ok(Some(Color::Fixed(i as u8)))
        } else {
            Err(ModuleError::InvalidForm)
        },
        Some(ConfValue::Str(s)) => if spec_try_color_from_str(s@) is Ok {
            Ok(Some(spec_try_color_from_str(s@)->Ok_0))
        } else if spec_try_fixed_from_str(s@) is Ok {
            Ok(Some(spec_try_fixed_from_str(s@)->Ok_0))
        } else if spec_try_rgb_from_str(s@) is Ok {
            Ok(Some(spec_try_rgb_from_str(s@)->Ok_0))
        } else if colorlike(s@) {
            Err(ModuleError::InvalidForm)
        } else {
            Err(ModuleError::NoSuchMatch)
        },
        Some(_) => Err(ModuleError::InvalidType),
    }
}

/// Exec counterpart of `colorlike`.
fn colorlike_x(s: &str) -> (r: bool)
    ensures
        r == colorlike(s@),
{
    let n = s.unicode_len();
    let mut i: usize = 0;
    while i < n
        invariant
            i <= n,
            n == s@.len(),
            forall|j: int|
                0 <= j < i ==> is_digit(#[trigger] s@[j]) || s@[j] == ',' || s@[j] == '(' || s@[j]
                    == ')' || s@[j] == ' ' || s@[j] == '+',
        decreases n - i,
    {
        let c = s.get_char(i);
        let u = c as u32;
        if !((48 <= u && u <= 57) || c == ',' || c == '(' || c == ')' || c == ' ' || c == '+') {
            return false;
        }
        i += 1;
    }
    true
}

/// Attempts to create a `Color` from the configuration.
///
/// Returns `Ok(None)` if the key has no value. A color may be given as
/// an integer palette index, a color name, an index in a string, or an
/// RGB triple; anything else fails as `spec_try_color_from_config`
/// states.
pub fn try_color_from_config(key: &str, config: &config::Config) -> (r: Result<
    Option<Color>,
    ModuleError,
>)
    ensures
        r == spec_try_color_from_config(config_model(config), key@),
{
    match config_get(config, key) {
        None => Ok(None),
        Some(ConfValue::Int(i)) => {
            if 0 <= i && i <= 255 {
                Ok(Some(Color::Fixed(i as u8)))
            } else {
                Err(ModuleError::InvalidForm)
            }
        },
        Some(ConfValue::Str(s)) => {
            if let Ok(c) = try_color_from_str(s.as_str()) {
                Ok(Some(c))
            } else if let Ok(c) = try_fixed_from_str(s.as_str()) {
                Ok(Some(c))
            } else if let Ok(c) = try_rgb_from_str(s.as_str()) {
                Ok(Some(c))
            } else if colorlike_x(s.as_str()) {
                Err(ModuleError::InvalidForm)
            } else {
                Err(ModuleError::NoSuchMatch)
            }
        },
        Some(_) => Err(ModuleError::InvalidType),
    }
}

/// What a text-properties entry resolves to: a single attribute name,
/// or an array of names, each recognized case-insensitively; an absent
/// key means no explicit attributes; any other kind is a type error.
pub open spec fn spec_try_text_props_from_config(
    m: Map<Seq<char>, ConfValue>,
    key: Seq<char>,
) -> Result<Option<TextAttributes>, ModuleError> {
    match conf_lookup(m, key) {
        None => Ok(None),
        Some(ConfValue::Str(s)) => if attr_token_ok(lower_seq(s@)) {
            Ok(Some(apply_attr(attrs_empty(), lower_seq(s@))))
        } else {
            Err(ModuleError::NoSuchMatch)
        },
        Some(ConfValue::List(v)) => match spec_try_text_props_from_vec(v.deep_view()) {
            Ok(a) => Ok(Some(a)),
            Err(e) => Err(e),
        },
        Some(_) => Err(ModuleError::InvalidType),
    }
}

/// Attempts to read a set of text attributes from the configuration.
///
/// The only two valid kinds for this option are a single string or an
/// array of strings.
pub fn try_text_props_from_config(key: &str, config: &config::Config) -> (r: Result<
    Option<TextAttributes>,
    ModuleError,
>)
    ensures
        r == spec_try_text_props_from_config(config_model(config), key@),
{
    match config_get(config, key) {
        None => Ok(None),
        Some(ConfValue::Str(s)) => match try_text_prop_from_str(Some(s.as_str())) {
            Ok(a) => Ok(Some(a)),
            Err(e) => Err(e),
        },
        Some(ConfValue::List(v)) => match try_text_props_from_vec(&v) {
            Ok(a) => Ok(Some(a)),
            Err(e) => Err(e),
        },
        Some(_) => Err(ModuleError::InvalidType),
    }
}

/// What a whole style block resolves to, field order background,
/// foreground, text properties; the first failing field decides the
/// error.
pub open spec fn spec_read_style(m: Map<Seq<char>, ConfValue>, key: Seq<char>) -> Result<
    ModuleStyle,
    ModuleError,
> {
    let bg = spec_try_color_from_config(m, key + ".background"@);
    let fg = spec_try_color_from_config(m, key + ".foreground"@);
    let text = spec_try_text_props_from_config(m, key + ".text_properties"@);
    if bg is Err {
        Err(bg->Err_0)
    } else if fg is Err {
        Err(fg->Err_0)
    } else if text is Err {
        Err(text->Err_0)
    } else {
        Ok(ModuleStyle { background: bg->Ok_0, foreground: fg->Ok_0, text_properties: text->Ok_0 })
    }
}

/// Gets a segment's style from the configuration.
///
/// `key` names the style block, for example `modules.prompt.style`;
/// the fields read are `<key>.background`, `<key>.foreground` and
/// `<key>.text_properties`. Fields left out stay `None` (they inherit
/// later); a field that fails to parse fails the whole resolution.
pub fn read_style(key: &str, config: &config::Config) -> (r: Result<ModuleStyle, ModuleError>)
    ensures
        r == spec_read_style(config_model(config), key@),
{
    let bg_key = sub_key(key, ".background");
    let bg = try_color_from_config(bg_key.as_str(), config)?;
    let fg_key = sub_key(key, ".foreground");
    let fg = try_color_from_config(fg_key.as_str(), config)?;
    let text_key = sub_key(key, ".text_properties");
    let text = try_text_props_from_config(text_key.as_str(), config)?;
    Ok(ModuleStyle { background: bg, foreground: fg, text_properties: text })
}

/// What a segment's whole option block resolves to: paddings default to
/// one space, the separator to the empty string, the output override to
/// absent (it is segment-local only, with no global fallback), and the
/// style to its own resolution; the first failing field (in that
/// order) decides the error.
pub open spec fn spec_read_options(m: Map<Seq<char>, ConfValue>, name: Seq<char>) -> Result<
    ModuleOptionsV,
    ModuleError,
> {
    let pl = spec_str_field(m, spec_module_key(name, "padding_left"@), " "@);
    let pr = spec_str_field(m, spec_module_key(name, "padding_right"@), " "@);
    let sep = spec_str_field(m, spec_module_key(name, "separator"@), ""@);
    let out = spec_opt_str_field(m, spec_module_key(name, "output"@));
    let style = spec_read_style(m, spec_module_key(name, "style"@));
    if pl is Err {
        Err(pl->Err_0)
    } else if pr is Err {
        Err(pr->Err_0)
    } else if sep is Err {
        Err(sep->Err_0)
    } else if out is Err {
        Err(out->Err_0)
    } else if style is Err {
        Err(style->Err_0)
    } else {
        Ok(
            ModuleOptionsV {
                output: out->Ok_0,
                padding_left: pl->Ok_0,
                padding_right: pr->Ok_0,
                separator: sep->Ok_0,
                style: style->Ok_0,
            },
        )
    }
}

/// Gets a segment's options from the configuration.
///
/// `key` is the segment's name, for example `prompt`; the fields are
/// read from `modules.<name>.<field>`. Returns an error if any present
/// field fails to parse; absent fields take their documented defaults.
pub fn read_options(key: &str, config: &config::Config) -> (r: Result<ModuleOptions, ModuleError>)
    ensures
        ({
            let s = spec_read_options(config_model(config), key@);
            match r {
                Ok(o) => s == Ok::<ModuleOptionsV, ModuleError>(o@),
                Err(e) => s == Err::<ModuleOptionsV, ModuleError>(e),
            }
        }),
{
    let pl_key = module_key(key, "padding_left");
    let padding_left = match config_get(config, pl_key.as_str()) {
        Some(v) => unwrap_value_if_string(v)?,
        None => String::from_str(" "),
    };
    let pr_key = module_key(key, "padding_right");
    let padding_right = match config_get(config, pr_key.as_str()) {
        Some(v) => unwrap_value_if_string(v)?,
        None => String::from_str(" "),
    };
    let sep_key = module_key(key, "separator");
    let separator = match config_get(config, sep_key.as_str()) {
        Some(v) => unwrap_value_if_string(v)?,
        None => String::from_str(""),
    };
    let out_key = module_key(key, "output");
    let overridden_output = match config_get(config, out_key.as_str()) {
        Some(v) => Some(unwrap_value_if_string(v)?),
        None => None,
    };
    let style_key = module_key(key, "style");
    let style = read_style(style_key.as_str(), config)?;
    Ok(
        ModuleOptions {
            output: overridden_output,
            padding_left,
            padding_right,
            separator,
            style,
        },
    )
}

} // verus!
