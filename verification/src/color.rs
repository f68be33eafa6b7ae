//! Colors and text attributes, and the parsers that turn loosely typed
//! configuration scalars into validated values of them.

use vstd::prelude::*;

use crate::chars::{is_u8_str, lower_seq, parse_u8, str_eq_lower, u8_str_val};
use crate::utils::ModuleError;

verus! {

/// One of the eight base palette entries a color name can refer to.
#[derive(Clone, Copy, Debug, PartialEq, Eq, Structural)]
pub enum NamedColor {
    Black,
    Red,
    Green,
    Yellow,
    Blue,
    Purple,
    Cyan,
    White,
}

/// A validated terminal color: a named palette entry, an 8-bit indexed
/// color, or a 24-bit RGB triple.
#[derive(Clone, Copy, Debug, PartialEq, Eq, Structural)]
pub enum Color {
    Named(NamedColor),
    Fixed(u8),
    Rgb(u8, u8, u8),
}

/// A set of independent boolean text attributes. Order of declaration
/// is the order their escape codes are emitted in.
#[derive(Clone, Copy, Debug, PartialEq, Eq, Structural)]
pub struct TextAttributes {
    pub bold: bool,
    pub dimmed: bool,
    pub italic: bool,
    pub underline: bool,
    pub blink: bool,
    pub reverse: bool,
    pub hidden: bool,
    pub strikethrough: bool,
}

/// The attribute set with every flag cleared.
pub open spec fn attrs_empty() -> TextAttributes {
    TextAttributes {
        bold: false,
        dimmed: false,
        italic: false,
        underline: false,
        blink: false,
        reverse: false,
        hidden: false,
        strikethrough: false,
    }
}

impl TextAttributes {
    /// No attributes at all.
    pub fn empty() -> (r: TextAttributes)
        ensures
            r == attrs_empty(),
    {
        TextAttributes {
            bold: false,
            dimmed: false,
            italic: false,
            underline: false,
            blink: false,
            reverse: false,
            hidden: false,
            strikethrough: false,
        }
    }
}

impl Default for TextAttributes {
    /// The default attribute set has every flag cleared.
    fn default() -> (r: TextAttributes)
        ensures
            r == attrs_empty(),
    {
        TextAttributes::empty()
    }
}

/// The base color a lowercased name refers to, if any.
pub open spec fn spec_color_name(l: Seq<char>) -> Option<NamedColor> {
    if l == "black"@ {
        Some(NamedColor::Black)
    } else if l == "red"@ {
        Some(NamedColor::Red)
    } else if l == "green"@ {
        Some(NamedColor::Green)
    } else if l == "yellow"@ {
        Some(NamedColor::Yellow)
    } else if l == "blue"@ {
        Some(NamedColor::Blue)
    } else if l == "purple"@ {
        Some(NamedColor::Purple)
    } else if l == "cyan"@ {
        Some(NamedColor::Cyan)
    } else if l == "white"@ {
        Some(NamedColor::White)
    } else {
        None
    }
}

/// The bright palette index (8–15) a lowercased `bright_` name refers
/// to, if any.
pub open spec fn spec_bright_name_index(l: Seq<char>) -> Option<u8> {
    if l == "bright_black"@ {
        Some(8u8)
    } else if l == "bright_red"@ {
        Some(9u8)
    } else if l == "bright_green"@ {
        Some(10u8)
    } else if l == "bright_yellow"@ {
        Some(11u8)
    } else if l == "bright_blue"@ {
        Some(12u8)
    } else if l == "bright_purple"@ {
        Some(13u8)
    } else if l == "bright_cyan"@ {
        Some(14u8)
    } else if l == "bright_white"@ {
        Some(15u8)
    } else {
        None
    }
}

/// What `try_color_from_str` returns: one of the sixteen named palette
/// entries (case-insensitively) — the eight base names as named colors,
/// their `bright_` counterparts as the bright palette indices 8–15 —
/// and `NoSuchMatch` for anything else.
pub open spec fn spec_try_color_from_str(s: Seq<char>) -> Result<Color, ModuleError> {
    match spec_color_name(lower_seq(s)) {
        Some(n) => Ok(Color::Named(n)),
        None => match spec_bright_name_index(lower_seq(s)) {
            Some(i) => Ok(Color::Fixed(i)),
            None => Err(ModuleError::NoSuchMatch),
        },
    }
}

/// Attempts to convert a string into one of the sixteen named colors.
///
/// Returns `NoSuchMatch` if the provided string doesn't match any of
/// the color names, compared case-insensitively.
pub fn try_color_from_str(s: &str) -> (r: Result<Color, ModuleError>)
    ensures
        r == spec_try_color_from_str(s@),
{
    if str_eq_lower(s, "black") {
        Ok(Color::Named(NamedColor::Black))
    } else if str_eq_lower(s, "red") {
        Ok(Color::Named(NamedColor::Red))
    } else if str_eq_lower(s, "green") {
        Ok(Color::Named(NamedColor::Green))
    } else if str_eq_lower(s, "yellow") {
        Ok(Color::Named(NamedColor::Yellow))
    } else if str_eq_lower(s, "blue") {
        Ok(Color::Named(NamedColor::Blue))
    } else if str_eq_lower(s, "purple") {
        Ok(Color::Named(NamedColor::Purple))
    } else if str_eq_lower(s, "cyan") {
        Ok(Color::Named(NamedColor::Cyan))
    } else if str_eq_lower(s, "white") {
        Ok(Color::Named(NamedColor::White))
    } else if str_eq_lower(s, "bright_black") {
        Ok(Color::Fixed(8))
    } else if str_eq_lower(s, "bright_red") {
        Ok(Color::Fixed(9))
    } else if str_eq_lower(s, "bright_green") {
        Ok(Color::Fixed(10))
    } else if str_eq_lower(s, "bright_yellow") {
        Ok(Color::Fixed(11))
    } else if str_eq_lower(s, "bright_blue") {
        Ok(Color::Fixed(12))
    } else if str_eq_lower(s, "bright_purple") {
        Ok(Color::Fixed(13))
    } else if str_eq_lower(s, "bright_cyan") {
        Ok(Color::Fixed(14))
    } else if str_eq_lower(s, "bright_white") {
        Ok(Color::Fixed(15))
    } else {
        Err(ModuleError::NoSuchMatch)
    }
}

/// What `try_fixed_from_str` returns: an indexed color when the string
/// is a decimal numeral in `0..=255`, `InvalidForm` otherwise.
pub open spec fn spec_try_fixed_from_str(s: Seq<char>) -> Result<Color, ModuleError> {
    if is_u8_str(s) {
        Ok(Color::Fixed(u8_str_val(s)))
    } else {
        Err(ModuleError::InvalidForm)
    }
}

/// Attempts to convert a string into an 8-bit indexed color.
///
/// Returns `InvalidForm` if the string is not a decimal numeral that
/// fits in eight bits; out-of-range values are rejected, never clamped.
pub fn try_fixed_from_str(s: &str) -> (r: Result<Color, ModuleError>)
    ensures
        r == spec_try_fixed_from_str(s@),
{
    match parse_u8(s) {
        Some(v) => Ok(Color::Fixed(v)),
        None => Err(ModuleError::InvalidForm),
    }
}

/// The palette index (0–15) a lowercased name of the sixteen-entry
/// table refers to, if any: the eight base names and their `bright_`
/// counterparts eight places up.
pub open spec fn spec_color16_index(l: Seq<char>) -> Option<u8> {
    if l == "black"@ {
        Some(0u8)
    } else if l == "bright_black"@ {
        Some(8u8)
    } else if l == "red"@ {
        Some(1u8)
    } else if l == "bright_red"@ {
        Some(9u8)
    } else if l == "green"@ {
        Some(2u8)
    } else if l == "bright_green"@ {
        Some(10u8)
    } else if l == "yellow"@ {
        Some(3u8)
    } else if l == "bright_yellow"@ {
        Some(11u8)
    } else if l == "blue"@ {
        Some(4u8)
    } else if l == "bright_blue"@ {
        Some(12u8)
    } else if l == "purple"@ {
        Some(5u8)
    } else if l == "bright_purple"@ {
        Some(13u8)
    } else if l == "cyan"@ {
        Some(6u8)
    } else if l == "bright_cyan"@ {
        Some(14u8)
    } else if l == "white"@ {
        Some(7u8)
    } else if l == "bright_white"@ {
        Some(15u8)
    } else {
        None
    }
}

/// What `string_to_colour` returns: a numeral becomes that palette
/// index, one of the sixteen names becomes its fixed palette index, and
/// anything else is `NoSuchMatch`.
pub open spec fn spec_string_to_colour(s: Seq<char>) -> Result<Color, ModuleError> {
    if is_u8_str(s) {
        Ok(Color::Fixed(u8_str_val(s)))
    } else {
        match spec_color16_index(lower_seq(s)) {
            Some(i) => Ok(Color::Fixed(i)),
            None => Err(ModuleError::NoSuchMatch),
        }
    }
}

/// Converts a configuration string to an indexed color: either a bare
/// palette index in `0..=255`, or one of the sixteen color names
/// (case-insensitively), mapped to palette indices 0–15.
pub fn string_to_colour(s: &str) -> (r: Result<Color, ModuleError>)
    ensures
        r == spec_string_to_colour(s@),
{
    if let Some(v) = parse_u8(s) {
        return Ok(Color::Fixed(v));
    }
    if str_eq_lower(s, "black") {
        Ok(Color::Fixed(0))
    } else if str_eq_lower(s, "bright_black") {
        Ok(Color::Fixed(8))
    } else if str_eq_lower(s, "red") {
        Ok(Color::Fixed(1))
    } else if str_eq_lower(s, "bright_red") {
        Ok(Color::Fixed(9))
    } else if str_eq_lower(s, "green") {
        Ok(Color::Fixed(2))
    } else if str_eq_lower(s, "bright_green") {
        Ok(Color::Fixed(10))
    } else if str_eq_lower(s, "yellow") {
        Ok(Color::Fixed(3))
    } else if str_eq_lower(s, "bright_yellow") {
        Ok(Color::Fixed(11))
    } else if str_eq_lower(s, "blue") {
        Ok(Color::Fixed(4))
    } else if str_eq_lower(s, "bright_blue") {
        Ok(Color::Fixed(12))
    } else if str_eq_lower(s, "purple") {
        Ok(Color::Fixed(5))
    } else if str_eq_lower(s, "bright_purple") {
        Ok(Color::Fixed(13))
    } else if str_eq_lower(s, "cyan") {
        Ok(Color::Fixed(6))
    } else if str_eq_lower(s, "bright_cyan") {
        Ok(Color::Fixed(14))
    } else if str_eq_lower(s, "white") {
        Ok(Color::Fixed(7))
    } else if str_eq_lower(s, "bright_white") {
        Ok(Color::Fixed(15))
    } else {
        Err(ModuleError::NoSuchMatch)
    }
}

/// True for the eight recognized (lowercased) attribute names.
pub open spec fn attr_token_ok(l: Seq<char>) -> bool {
    l == "bold"@ || l == "blink"@ || l == "dimmed"@ || l == "hidden"@ || l == "italic"@ || l
        == "reverse"@ || l == "strikethrough"@ || l == "underline"@
}

/// `a` with the flag named by the lowercased token `l` set; unknown
/// tokens leave `a` unchanged.
pub open spec fn apply_attr(a: TextAttributes, l: Seq<char>) -> TextAttributes {
    if l == "bold"@ {
        TextAttributes { bold: true, ..a }
    } else if l == "blink"@ {
        TextAttributes { blink: true, ..a }
    } else if l == "dimmed"@ {
        TextAttributes { dimmed: true, ..a }
    } else if l == "hidden"@ {
        TextAttributes { hidden: true, ..a }
    } else if l == "italic"@ {
        TextAttributes { italic: true, ..a }
    } else if l == "reverse"@ {
        TextAttributes { reverse: true, ..a }
    } else if l == "strikethrough"@ {
        TextAttributes { strikethrough: true, ..a }
    } else if l == "underline"@ {
        TextAttributes { underline: true, ..a }
    } else {
        a
    }
}

/// Exec counterpart of `apply_attr`, reporting whether the token was
/// recognized.
pub fn apply_attr_x(a: TextAttributes, t: &str) -> (r: Option<TextAttributes>)
    ensures
        r == if attr_token_ok(lower_seq(t@)) {
            Some(apply_attr(a, lower_seq(t@)))
        } else {
            None::<TextAttributes>
        },
{
    if str_eq_lower(t, "bold") {
        Some(TextAttributes { bold: true, ..a })
    } else if str_eq_lower(t, "blink") {
        Some(TextAttributes { blink: true, ..a })
    } else if str_eq_lower(t, "dimmed") {
        Some(TextAttributes { dimmed: true, ..a })
    } else if str_eq_lower(t, "hidden") {
        Some(TextAttributes { hidden: true, ..a })
    } else if str_eq_lower(t, "italic") {
        Some(TextAttributes { italic: true, ..a })
    } else if str_eq_lower(t, "reverse") {
        Some(TextAttributes { reverse: true, ..a })
    } else if str_eq_lower(t, "strikethrough") {
        Some(TextAttributes { strikethrough: true, ..a })
    } else if str_eq_lower(t, "underline") {
        Some(TextAttributes { underline: true, ..a })
    } else {
        None
    }
}

/// What `try_text_prop_from_str` returns: the empty attribute set for
/// an absent value, a single-flag set for a recognized name, and
/// `NoSuchMatch` for anything else.
pub open spec fn spec_try_text_prop_from_str(o: Option<Seq<char>>) -> Result<
    TextAttributes,
    ModuleError,
> {
    match o {
        None => Ok(attrs_empty()),
        Some(s) => if attr_token_ok(lower_seq(s)) {
            Ok(apply_attr(attrs_empty(), lower_seq(s)))
        } else {
            Err(ModuleError::NoSuchMatch)
        },
    }
}

/// Attempts to convert a string into a single text attribute
/// (case-insensitively). An absent value yields the empty set; an
/// unrecognized name yields `NoSuchMatch`.
pub fn try_text_prop_from_str(s: Option<&str>) -> (r: Result<TextAttributes, ModuleError>)
    ensures
        r == spec_try_text_prop_from_str(match s {
            Some(t) => Some(t@),
            None => None,
        }),
{
    match s {
        None => Ok(TextAttributes::empty()),
        Some(t) => match apply_attr_x(TextAttributes::empty(), t) {
            Some(a) => Ok(a),
            None => Err(ModuleError::NoSuchMatch),
        },
    }
}

/// The attribute set named by a list of tokens, folded left to right.
pub open spec fn spec_attrs_fold(toks: Seq<Seq<char>>) -> TextAttributes
    decreases toks.len(),
{
    if toks.len() == 0 {
        attrs_empty()
    } else {
        apply_attr(spec_attrs_fold(toks.drop_last()), lower_seq(toks.last()))
    }
}

/// True when every token in the list names an attribute.
pub open spec fn all_attr_tokens_ok(toks: Seq<Seq<char>>) -> bool {
    forall|i: int| 0 <= i < toks.len() ==> attr_token_ok(lower_seq(toks[i]))
}

/// What `try_text_props_from_vec` returns.
pub open spec fn spec_try_text_props_from_vec(toks: Seq<Seq<char>>) -> Result<
    TextAttributes,
    ModuleError,
> {
    if all_attr_tokens_ok(toks) {
        Ok(spec_attrs_fold(toks))
    } else {
        Err(ModuleError::NoSuchMatch)
    }
}

/// Attempts to convert a list of strings into a single attribute set.
///
/// Returns `NoSuchMatch` if any of the strings fails to name an
/// attribute. Duplicates are idempotent and order does not matter.
pub fn try_text_props_from_vec(props: &Vec<String>) -> (r: Result<TextAttributes, ModuleError>)
    ensures
        r == spec_try_text_props_from_vec(props.deep_view()),
{
    let ghost toks = props.deep_view();
    let mut cur = TextAttributes::empty();
    let mut i: usize = 0;
    while i < props.len()
        invariant
            i <= props.len(),
            toks == props.deep_view(),
            toks.len() == props.len(),
            cur == spec_attrs_fold(toks.take(i as int)),
            forall|j: int| 0 <= j < i ==> attr_token_ok(lower_seq(toks[j])),
        decreases props.len() - i,
    {
        proof {
            assert(toks[i as int] == props@[i as int]@);
            assert(toks.take(i + 1).drop_last() =~= toks.take(i as int));
            assert(toks.take(i + 1).last() == toks[i as int]);
        }
        match apply_attr_x(cur, props[i].as_str()) {
            Some(a) => {
                cur = a;
            },
            None => {
                return Err(ModuleError::NoSuchMatch);
            },
        }
        i += 1;
    }
    proof {
        assert(toks.take(props.len() as int) =~= toks);
    }
    Ok(cur)
}

/// True when some token of the list lowercases to `l`.
pub open spec fn spec_attr_token_hit(toks: Seq<Seq<char>>, l: Seq<char>) -> bool {
    exists|i: int| 0 <= i < toks.len() && lower_seq(#[trigger] toks[i]) == l
}

/// The attribute set named by a token list, characterized by
/// membership alone: each flag is set exactly when some token
/// (lowercased) names it.
pub open spec fn spec_attrs_of_tokens(toks: Seq<Seq<char>>) -> TextAttributes {
    TextAttributes {
        bold: spec_attr_token_hit(toks, "bold"@),
        dimmed: spec_attr_token_hit(toks, "dimmed"@),
        italic: spec_attr_token_hit(toks, "italic"@),
        underline: spec_attr_token_hit(toks, "underline"@),
        blink: spec_attr_token_hit(toks, "blink"@),
        reverse: spec_attr_token_hit(toks, "reverse"@),
        hidden: spec_attr_token_hit(toks, "hidden"@),
        strikethrough: spec_attr_token_hit(toks, "strikethrough"@),
    }
}

/// Folding the tokens yields exactly the membership characterization:
/// each flag depends only on whether its name occurs among the tokens.
#[verifier::rlimit(100)]
pub proof fn lemma_attrs_fold_is_membership(toks: Seq<Seq<char>>)
    ensures
        spec_attrs_fold(toks) == spec_attrs_of_tokens(toks),
    decreases toks.len(),
{
    reveal_strlit("bold");
    reveal_strlit("dimmed");
    reveal_strlit("italic");
    reveal_strlit("underline");
    reveal_strlit("blink");
    reveal_strlit("reverse");
    reveal_strlit("hidden");
    reveal_strlit("strikethrough");
    if toks.len() == 0 {
        assert(spec_attrs_fold(toks) == spec_attrs_of_tokens(toks));
    } else {
        let front = toks.drop_last();
        lemma_attrs_fold_is_membership(front);
        assert(forall|i: int| 0 <= i < front.len() ==> front[i] == #[trigger] toks[i]);
        assert forall|l: Seq<char>|
            #[trigger] spec_attr_token_hit(toks, l) == (spec_attr_token_hit(front, l) || lower_seq(
                toks.last(),
            ) == l) by {
            if spec_attr_token_hit(front, l) {
                let w = choose|i: int| 0 <= i < front.len() && lower_seq(#[trigger] front[i]) == l;
                assert(lower_seq(toks[w]) == l);
                assert(spec_attr_token_hit(toks, l));
            }
            if lower_seq(toks.last()) == l {
                assert(lower_seq(toks[toks.len() - 1]) == l);
                assert(spec_attr_token_hit(toks, l));
            }
            if spec_attr_token_hit(toks, l) {
                let w = choose|i: int| 0 <= i < toks.len() && lower_seq(#[trigger] toks[i]) == l;
                if w < toks.len() - 1 {
                    assert(lower_seq(front[w]) == l);
                    assert(spec_attr_token_hit(front, l));
                }
            }
        }
        let lst = lower_seq(toks.last());
        assert(spec_attrs_fold(toks) == apply_attr(spec_attrs_of_tokens(front), lst));
        assert("bold"@.len() == 4 && "blink"@.len() == 5 && "dimmed"@.len() == 6 && "italic"@.len()
            == 6 && "hidden"@.len() == 6 && "reverse"@.len() == 7 && "underline"@.len() == 9
            && "strikethrough"@.len() == 13);
        assert("dimmed"@[0] == 'd' && "italic"@[0] == 'i' && "hidden"@[0] == 'h');
        assert("bold"@ != "dimmed"@ && "bold"@ != "italic"@ && "bold"@ != "underline"@ && "bold"@
            != "blink"@ && "bold"@ != "reverse"@ && "bold"@ != "hidden"@ && "bold"@
            != "strikethrough"@);
        assert("dimmed"@ != "italic"@ && "dimmed"@ != "underline"@ && "dimmed"@ != "blink"@
            && "dimmed"@ != "reverse"@ && "dimmed"@ != "hidden"@ && "dimmed"@
            != "strikethrough"@);
        assert("italic"@ != "underline"@ && "italic"@ != "blink"@ && "italic"@ != "reverse"@
            && "italic"@ != "hidden"@ && "italic"@ != "strikethrough"@);
        assert("underline"@ != "blink"@ && "underline"@ != "reverse"@ && "underline"@ != "hidden"@
            && "underline"@ != "strikethrough"@);
        assert("blink"@ != "reverse"@ && "blink"@ != "hidden"@ && "blink"@ != "strikethrough"@);
        assert("reverse"@ != "hidden"@ && "reverse"@ != "strikethrough"@);
        assert("hidden"@ != "strikethrough"@);
        assert(spec_attr_token_hit(toks, "bold"@) == (spec_attr_token_hit(front, "bold"@) || lst
            == "bold"@));
        assert(spec_attr_token_hit(toks, "dimmed"@) == (spec_attr_token_hit(front, "dimmed"@)
            || lst == "dimmed"@));
        assert(spec_attr_token_hit(toks, "italic"@) == (spec_attr_token_hit(front, "italic"@)
            || lst == "italic"@));
        assert(spec_attr_token_hit(toks, "underline"@) == (spec_attr_token_hit(front, "underline"@)
            || lst == "underline"@));
        assert(spec_attr_token_hit(toks, "blink"@) == (spec_attr_token_hit(front, "blink"@) || lst
            == "blink"@));
        assert(spec_attr_token_hit(toks, "reverse"@) == (spec_attr_token_hit(front, "reverse"@)
            || lst == "reverse"@));
        assert(spec_attr_token_hit(toks, "hidden"@) == (spec_attr_token_hit(front, "hidden"@)
            || lst == "hidden"@));
        assert(spec_attr_token_hit(toks, "strikethrough"@) == (spec_attr_token_hit(
            front,
            "strikethrough"@,
        ) || lst == "strikethrough"@));
        assert(spec_attrs_fold(toks).bold == spec_attrs_of_tokens(toks).bold);
        assert(spec_attrs_fold(toks).dimmed == spec_attrs_of_tokens(toks).dimmed);
        assert(spec_attrs_fold(toks).italic == spec_attrs_of_tokens(toks).italic);
        assert(spec_attrs_fold(toks).underline == spec_attrs_of_tokens(toks).underline);
        assert(spec_attrs_fold(toks).blink == spec_attrs_of_tokens(toks).blink);
        assert(spec_attrs_fold(toks).reverse == spec_attrs_of_tokens(toks).reverse);
        assert(spec_attrs_fold(toks).hidden == spec_attrs_of_tokens(toks).hidden);
        assert(spec_attrs_fold(toks).strikethrough == spec_attrs_of_tokens(toks).strikethrough);
        assert(spec_attrs_fold(toks) == spec_attrs_of_tokens(toks));
    }
}

/// Idempotence and order-independence: two token lists on which the
/// same names occur (duplicates and order aside) resolve to the same
/// attribute set, and fail together.
pub proof fn lemma_text_props_set_independent(a: Seq<Seq<char>>, b: Seq<Seq<char>>)
    requires
        forall|l: Seq<char>| #[trigger] spec_attr_token_hit(a, l) == spec_attr_token_hit(b, l),
    ensures
        spec_try_text_props_from_vec(a) == spec_try_text_props_from_vec(b),
{
    lemma_attrs_fold_is_membership(a);
    lemma_attrs_fold_is_membership(b);
    assert(spec_attrs_of_tokens(a) == spec_attrs_of_tokens(b));
    if all_attr_tokens_ok(a) != all_attr_tokens_ok(b) {
        if all_attr_tokens_ok(a) {
            let w = choose|i: int| 0 <= i < b.len() && !attr_token_ok(lower_seq(#[trigger] b[i]));
            assert(spec_attr_token_hit(b, lower_seq(b[w])));
            assert(spec_attr_token_hit(a, lower_seq(b[w])));
            let v = choose|i: int|
                0 <= i < a.len() && lower_seq(#[trigger] a[i]) == lower_seq(b[w]);
            assert(attr_token_ok(lower_seq(a[v])));
            assert(false);
        } else {
            let w = choose|i: int| 0 <= i < a.len() && !attr_token_ok(lower_seq(#[trigger] a[i]));
            assert(spec_attr_token_hit(a, lower_seq(a[w])));
            assert(spec_attr_token_hit(b, lower_seq(a[w])));
            let v = choose|i: int|
                0 <= i < b.len() && lower_seq(#[trigger] b[i]) == lower_seq(a[w]);
            assert(attr_token_ok(lower_seq(b[v])));
            assert(false);
        }
    }
}

/// What `string_to_style` returns: `default`, `normal` or the empty
/// string mean no attributes; a recognized attribute name sets that
/// flag; anything else is `NoSuchMatch`.
pub open spec fn spec_string_to_style(s: Seq<char>) -> Result<TextAttributes, ModuleError> {
    let l = lower_seq(s);
    if l == "default"@ || l == ""@ || l == "normal"@ {
        Ok(attrs_empty())
    } else if attr_token_ok(l) {
        Ok(apply_attr(attrs_empty(), l))
    } else {
        Err(ModuleError::NoSuchMatch)
    }
}

/// Converts a configuration string to a text attribute set
/// (case-insensitively). `default`, `normal` and the empty string mean
/// "no attributes"; an unrecognized name is `NoSuchMatch`.
pub fn string_to_style(s: &str) -> (r: Result<TextAttributes, ModuleError>)
    ensures
        r == spec_string_to_style(s@),
{
    if str_eq_lower(s, "default") || str_eq_lower(s, "") || str_eq_lower(s, "normal") {
        Ok(TextAttributes::empty())
    } else {
        match apply_attr_x(TextAttributes::empty(), s) {
            Some(a) => Ok(a),
            None => Err(ModuleError::NoSuchMatch),
        }
    }
}

/// The characters the RGB parser strips out before reading numerals.
pub open spec fn is_rgb_junk(c: char) -> bool {
    c == '(' || c == ')' || c == ' '
}

/// A piece of an RGB string with the cosmetic characters removed.
pub open spec fn clean_rgb(p: Seq<char>) -> Seq<char>
    decreases p.len(),
{
    if p.len() == 0 {
        Seq::empty()
    } else {
        let r = clean_rgb(p.drop_last());
        if is_rgb_junk(p.last()) {
            r
        } else {
            r.push(p.last())
        }
    }
}

/// A string split at every comma; always at least one piece.
pub open spec fn split_commas(s: Seq<char>) -> Seq<Seq<char>>
    decreases s.len(),
{
    if s.len() == 0 {
        seq![Seq::empty()]
    } else {
        let rest = split_commas(s.drop_last());
        if s.last() == ',' {
            rest.push(Seq::empty())
        } else {
            rest.update(rest.len() - 1, rest.last().push(s.last()))
        }
    }
}

/// Splitting yields at least one piece.
pub proof fn lemma_split_commas_nonempty(s: Seq<char>)
    ensures
        split_commas(s).len() >= 1,
    decreases s.len(),
{
    if s.len() > 0 {
        lemma_split_commas_nonempty(s.drop_last());
    }
}

/// The comma-separated pieces of an RGB string, cleaned.
pub open spec fn rgb_pieces(s: Seq<char>) -> Seq<Seq<char>> {
    split_commas(s).map_values(|p: Seq<char>| clean_rgb(p))
}

/// How the cleaned pieces evolve as one more character is read.
proof fn lemma_rgb_pieces_step(s: Seq<char>, i: int)
    requires
        0 <= i < s.len(),
    ensures
        rgb_pieces(s.take(i)).len() >= 1,
        s[i] == ',' ==> rgb_pieces(s.take(i + 1)) == rgb_pieces(s.take(i)).push(
            Seq::<char>::empty(),
        ),
        s[i] != ',' && is_rgb_junk(s[i]) ==> rgb_pieces(s.take(i + 1)) == rgb_pieces(s.take(i)),
        s[i] != ',' && !is_rgb_junk(s[i]) ==> rgb_pieces(s.take(i + 1)) == rgb_pieces(
            s.take(i),
        ).update(rgb_pieces(s.take(i)).len() - 1, rgb_pieces(s.take(i)).last().push(s[i])),
{
    lemma_split_commas_nonempty(s.take(i));
    assert(s.take(i + 1).drop_last() =~= s.take(i));
    assert(s.take(i + 1).last() == s[i]);
    let sc_prev = split_commas(s.take(i));
    let sc_next = split_commas(s.take(i + 1));
    if s[i] == ',' {
        assert(sc_next == sc_prev.push(Seq::<char>::empty()));
        assert(rgb_pieces(s.take(i + 1)) =~~= rgb_pieces(s.take(i)).push(Seq::<char>::empty()));
    } else {
        assert(sc_next == sc_prev.update(sc_prev.len() - 1, sc_prev.last().push(s[i])));
        assert(sc_prev.last().push(s[i]).drop_last() =~= sc_prev.last());
        assert(sc_prev.last().push(s[i]).last() == s[i]);
        if is_rgb_junk(s[i]) {
            assert(clean_rgb(sc_prev.last().push(s[i])) == clean_rgb(sc_prev.last()));
            assert(rgb_pieces(s.take(i + 1)) =~~= rgb_pieces(s.take(i)));
        } else {
            assert(clean_rgb(sc_prev.last().push(s[i])) == clean_rgb(sc_prev.last()).push(s[i]));
            assert(rgb_pieces(s.take(i))[rgb_pieces(s.take(i)).len() - 1] == clean_rgb(
                sc_prev.last(),
            ));
            assert(rgb_pieces(s.take(i + 1)) =~~= rgb_pieces(s.take(i)).update(
                rgb_pieces(s.take(i)).len() - 1,
                rgb_pieces(s.take(i)).last().push(s[i]),
            ));
        }
    }
}

/// True when every cleaned piece is an eight-bit numeral.
pub open spec fn all_rgb_pieces_ok(s: Seq<char>) -> bool {
    forall|i: int| 0 <= i < rgb_pieces(s).len() ==> is_u8_str(#[trigger] rgb_pieces(s)[i])
}

/// What `try_rgb_from_str` returns: three comma-separated eight-bit
/// numerals (cosmetic parentheses and spaces ignored) make an RGB
/// color; a piece that is no numeral, an out-of-range component or a
/// wrong number of pieces is `InvalidForm`.
pub open spec fn spec_try_rgb_from_str(s: Seq<char>) -> Result<Color, ModuleError> {
    let pieces = rgb_pieces(s);
    if !all_rgb_pieces_ok(s) {
        Err(ModuleError::InvalidForm)
    } else if pieces.len() != 3 {
        Err(ModuleError::InvalidForm)
    } else {
        Ok(Color::Rgb(u8_str_val(pieces[0]), u8_str_val(pieces[1]), u8_str_val(pieces[2])))
    }
}

/// Attempts to convert a string like `(14, 76, 1)` into an RGB color.
///
/// Tolerates extra parentheses and spaces, but rejects a wrong number
/// of components and non-numeric or out-of-range components.
pub fn try_rgb_from_str(s: &str) -> (r: Result<Color, ModuleError>)
    ensures
        r == spec_try_rgb_from_str(s@),
{
    let n = s.unicode_len();
    let mut pieces: Vec<String> = Vec::new();
    pieces.push(String::new());
    proof {
        assert(pieces.deep_view() =~~= rgb_pieces(s@.take(0)));
    }
    let mut i: usize = 0;
    while i < n
        invariant
            i <= n,
            n == s@.len(),
            pieces.len() >= 1,
            pieces.deep_view() == rgb_pieces(s@.take(i as int)),
        decreases n - i,
    {
        let c = s.get_char(i);
        let ghost old_dv = pieces.deep_view();
        proof {
            lemma_rgb_pieces_step(s@, i as int);
        }
        if c == ',' {
            pieces.push(String::new());
            proof {
                assert(pieces.deep_view() =~~= old_dv.push(Seq::<char>::empty()));
            }
        } else if c == '(' || c == ')' || c == ' ' {
            proof {
                assert(pieces.deep_view() == rgb_pieces(s@.take(i + 1)));
            }
        } else {
            let piece_str = s.substring_char(i, i + 1);
            proof {
                assert(piece_str@ =~= seq![s@[i as int]]);
            }
            let mut last_piece = match pieces.pop() {
                Some(p) => p,
                None => String::new(),
            };
            last_piece.append(piece_str);
            pieces.push(last_piece);
            proof {
                assert(old_dv.last().push(s@[i as int]) =~= old_dv.last() + piece_str@);
                assert(pieces.deep_view() =~~= old_dv.update(
                    old_dv.len() - 1,
                    old_dv.last().push(s@[i as int]),
                ));
            }
        }
        i += 1;
    }
    proof {
        assert(s@.take(n as int) =~= s@);
    }
    let ghost rp = rgb_pieces(s@);
    let mut vals: Vec<u8> = Vec::new();
    let mut k: usize = 0;
    while k < pieces.len()
        invariant
            k <= pieces.len(),
            vals.len() == k,
            rp == rgb_pieces(s@),
            pieces.deep_view() == rp,
            rp.len() == pieces.len(),
            forall|j: int| 0 <= j < k ==> is_u8_str(#[trigger] rp[j]) && vals@[j] == u8_str_val(
                rp[j],
            ),
        decreases pieces.len() - k,
    {
        proof {
            assert(pieces@[k as int]@ == rp[k as int]);
        }
        match parse_u8(pieces[k].as_str()) {
            Some(v) => {
                vals.push(v);
            },
            None => {
                proof {
                    assert(!is_u8_str(rgb_pieces(s@)[k as int]));
                }
                return Err(ModuleError::InvalidForm);
            },
        }
        k += 1;
    }
    if vals.len() != 3 {
        return Err(ModuleError::InvalidForm);
    }
    Ok(Color::Rgb(vals[0], vals[1], vals[2]))
}

} // verus!
