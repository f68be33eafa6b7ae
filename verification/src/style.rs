//! A resolved paint style — attribute flags plus optional foreground
//! and background colors — and the exact ANSI escape sequences it
//! emits. A plain style emits no escape codes at all.

use vstd::prelude::*;

use crate::chars::{
    dec_nat, is_digit, is_u8_str, is_upper, lower_char, lower_seq, push_dec_u64, strip_plus,
};
use crate::color::{
    attrs_empty, spec_color16_index, spec_string_to_colour, Color, NamedColor, TextAttributes,
};
use crate::utils::ModuleError;

verus! {

/// A fully resolved style, ready to paint with.
#[derive(Clone, Copy, Debug, PartialEq)]
pub struct Style {
    pub attrs: TextAttributes,
    pub background: Option<Color>,
    pub foreground: Option<Color>,
}

/// Numeric foreground code of a named color (30–37).
pub open spec fn named_fg(n: NamedColor) -> nat {
    match n {
        NamedColor::Black => 30,
        NamedColor::Red => 31,
        NamedColor::Green => 32,
        NamedColor::Yellow => 33,
        NamedColor::Blue => 34,
        NamedColor::Purple => 35,
        NamedColor::Cyan => 36,
        NamedColor::White => 37,
    }
}

/// Numeric background code of a named color (40–47).
pub open spec fn named_bg(n: NamedColor) -> nat {
    named_fg(n) + 10
}

/// The foreground escape-code fragment of a color: `3x` for a named
/// color, `38;5;n` for an indexed one, `38;2;r;g;b` for RGB.
pub open spec fn fg_code(c: Color) -> Seq<char> {
    match c {
        Color::Named(n) => dec_nat(named_fg(n)),
        Color::Fixed(v) => seq!['3', '8', ';', '5', ';'] + dec_nat(v as nat),
        Color::Rgb(r, g, b) => seq!['3', '8', ';', '2', ';'] + dec_nat(r as nat) + seq![';']
            + dec_nat(g as nat) + seq![';'] + dec_nat(b as nat),
    }
}

/// The background escape-code fragment of a color: `4x`, `48;5;n` or
/// `48;2;r;g;b`.
pub open spec fn bg_code(c: Color) -> Seq<char> {
    match c {
        Color::Named(n) => dec_nat(named_bg(n)),
        Color::Fixed(v) => seq!['4', '8', ';', '5', ';'] + dec_nat(v as nat),
        Color::Rgb(r, g, b) => seq!['4', '8', ';', '2', ';'] + dec_nat(r as nat) + seq![';']
            + dec_nat(g as nat) + seq![';'] + dec_nat(b as nat),
    }
}

/// Attribute code fragments accumulated flag by flag, in declaration
/// order: 1, 2, 3, 4, 5, 7, 8, 9.
pub open spec fn codes_upto_bold(a: TextAttributes) -> Seq<Seq<char>> {
    if a.bold {
        seq![seq!['1']]
    } else {
        Seq::empty()
    }
}

pub open spec fn codes_upto_dimmed(a: TextAttributes) -> Seq<Seq<char>> {
    if a.dimmed {
        codes_upto_bold(a).push(seq!['2'])
    } else {
        codes_upto_bold(a)
    }
}

pub open spec fn codes_upto_italic(a: TextAttributes) -> Seq<Seq<char>> {
    if a.italic {
        codes_upto_dimmed(a).push(seq!['3'])
    } else {
        codes_upto_dimmed(a)
    }
}

pub open spec fn codes_upto_underline(a: TextAttributes) -> Seq<Seq<char>> {
    if a.underline {
        codes_upto_italic(a).push(seq!['4'])
    } else {
        codes_upto_italic(a)
    }
}

pub open spec fn codes_upto_blink(a: TextAttributes) -> Seq<Seq<char>> {
    if a.blink {
        codes_upto_underline(a).push(seq!['5'])
    } else {
        codes_upto_underline(a)
    }
}

pub open spec fn codes_upto_reverse(a: TextAttributes) -> Seq<Seq<char>> {
    if a.reverse {
        codes_upto_blink(a).push(seq!['7'])
    } else {
        codes_upto_blink(a)
    }
}

pub open spec fn codes_upto_hidden(a: TextAttributes) -> Seq<Seq<char>> {
    if a.hidden {
        codes_upto_reverse(a).push(seq!['8'])
    } else {
        codes_upto_reverse(a)
    }
}

/// All attribute code fragments of `a`.
pub open spec fn attr_codes(a: TextAttributes) -> Seq<Seq<char>> {
    if a.strikethrough {
        codes_upto_hidden(a).push(seq!['9'])
    } else {
        codes_upto_hidden(a)
    }
}

/// Attribute codes followed by the background code, if any.
pub open spec fn codes_with_bg(st: Style) -> Seq<Seq<char>> {
    match st.background {
        Some(c) => attr_codes(st.attrs).push(bg_code(c)),
        None => attr_codes(st.attrs),
    }
}

/// The ordered list of code fragments a style emits: attribute codes
/// in declaration order, then the background, then the foreground.
pub open spec fn style_codes(st: Style) -> Seq<Seq<char>> {
    match st.foreground {
        Some(c) => codes_with_bg(st).push(fg_code(c)),
        None => codes_with_bg(st),
    }
}

/// Code fragments joined with semicolons.
pub open spec fn join_semi(l: Seq<Seq<char>>) -> Seq<char>
    decreases l.len(),
{
    if l.len() == 0 {
        Seq::empty()
    } else if l.len() == 1 {
        l[0]
    } else {
        join_semi(l.drop_last()) + seq![';'] + l.last()
    }
}

/// Appending one fragment extends the joined string by a semicolon (if
/// anything came before) and the fragment.
pub proof fn lemma_join_push(l: Seq<Seq<char>>, x: Seq<char>)
    ensures
        join_semi(l.push(x)) == if l.len() == 0 {
            x
        } else {
            join_semi(l) + seq![';'] + x
        },
{
    assert(l.push(x).drop_last() =~= l);
    assert(l.push(x).last() == x);
    if l.len() == 0 {
        assert(join_semi(l.push(x)) == l.push(x)[0]);
    }
}

/// The full escape prefix of a style: empty when the style is plain,
/// otherwise `ESC [`, the joined codes, and `m`.
pub open spec fn spec_style_prefix(st: Style) -> Seq<char> {
    if style_codes(st).len() == 0 {
        Seq::empty()
    } else {
        seq!['\u{1b}', '['] + join_semi(style_codes(st)) + seq!['m']
    }
}

/// The escape suffix: the reset sequence, or nothing for a plain style.
pub open spec fn spec_style_suffix(st: Style) -> Seq<char> {
    if style_codes(st).len() == 0 {
        Seq::empty()
    } else {
        seq!['\u{1b}', '[', '0', 'm']
    }
}

/// Content wrapped in a style's prefix and suffix.
pub open spec fn spec_paint(st: Style, s: Seq<char>) -> Seq<char> {
    spec_style_prefix(st) + s + spec_style_suffix(st)
}

/// Exec counterpart of `named_fg`.
pub fn named_fg_x(n: NamedColor) -> (r: u64)
    ensures
        r as nat == named_fg(n),
{
    match n {
        NamedColor::Black => 30,
        NamedColor::Red => 31,
        NamedColor::Green => 32,
        NamedColor::Yellow => 33,
        NamedColor::Blue => 34,
        NamedColor::Purple => 35,
        NamedColor::Cyan => 36,
        NamedColor::White => 37,
    }
}

/// The foreground code fragment of a color, as a string.
pub fn fg_code_string(c: Color) -> (out: String)
    ensures
        out@ == fg_code(c),
{
    let mut s = String::new();
    match c {
        Color::Named(n) => {
            push_dec_u64(&mut s, named_fg_x(n));
        },
        Color::Fixed(v) => {
            s.append("38;5;");
            push_dec_u64(&mut s, v as u64);
        },
        Color::Rgb(cr, cg, cb) => {
            s.append("38;2;");
            push_dec_u64(&mut s, cr as u64);
            s.append(";");
            push_dec_u64(&mut s, cg as u64);
            s.append(";");
            push_dec_u64(&mut s, cb as u64);
        },
    }
    proof {
        reveal_strlit("38;5;");
        reveal_strlit("38;2;");
        reveal_strlit(";");
        assert(s@ =~= fg_code(c));
    }
    s
}

/// The background code fragment of a color, as a string.
pub fn bg_code_string(c: Color) -> (out: String)
    ensures
        out@ == bg_code(c),
{
    let mut s = String::new();
    match c {
        Color::Named(n) => {
            push_dec_u64(&mut s, named_fg_x(n) + 10);
        },
        Color::Fixed(v) => {
            s.append("48;5;");
            push_dec_u64(&mut s, v as u64);
        },
        Color::Rgb(cr, cg, cb) => {
            s.append("48;2;");
            push_dec_u64(&mut s, cr as u64);
            s.append(";");
            push_dec_u64(&mut s, cg as u64);
            s.append(";");
            push_dec_u64(&mut s, cb as u64);
        },
    }
    proof {
        reveal_strlit("48;5;");
        reveal_strlit("48;2;");
        reveal_strlit(";");
        assert(s@ =~= bg_code(c));
    }
    s
}

/// The code fragments of `st` as strings, in emission order.
#[verifier::rlimit(100)]
fn style_code_strings(st: &Style) -> (v: Vec<String>)
    ensures
        v.deep_view() == style_codes(*st),
{
    let a = st.attrs;
    let mut v: Vec<String> = Vec::new();
    if a.bold {
        v.push(String::from_str("1"));
    }
    proof {
        reveal_strlit("1");
        assert(v.deep_view() =~~= codes_upto_bold(a));
    }
    if a.dimmed {
        v.push(String::from_str("2"));
    }
    proof {
        reveal_strlit("2");
        assert(v.deep_view() =~~= codes_upto_dimmed(a));
    }
    if a.italic {
        v.push(String::from_str("3"));
    }
    proof {
        reveal_strlit("3");
        assert(v.deep_view() =~~= codes_upto_italic(a));
    }
    if a.underline {
        v.push(String::from_str("4"));
    }
    proof {
        reveal_strlit("4");
        assert(v.deep_view() =~~= codes_upto_underline(a));
    }
    if a.blink {
        v.push(String::from_str("5"));
    }
    proof {
        reveal_strlit("5");
        assert(v.deep_view() =~~= codes_upto_blink(a));
    }
    if a.reverse {
        v.push(String::from_str("7"));
    }
    proof {
        reveal_strlit("7");
        assert(v.deep_view() =~~= codes_upto_reverse(a));
    }
    if a.hidden {
        v.push(String::from_str("8"));
    }
    proof {
        reveal_strlit("8");
        assert(v.deep_view() =~~= codes_upto_hidden(a));
    }
    if a.strikethrough {
        v.push(String::from_str("9"));
    }
    proof {
        reveal_strlit("9");
        assert(v.deep_view() =~~= attr_codes(a));
    }
    if let Some(c) = st.background {
        v.push(bg_code_string(c));
    }
    proof {
        assert(v.deep_view() =~~= codes_with_bg(*st));
    }
    if let Some(c) = st.foreground {
        v.push(fg_code_string(c));
    }
    proof {
        assert(v.deep_view() =~~= style_codes(*st));
    }
    v
}

/// The fragments joined with semicolons.
fn join_code_strings(codes: &Vec<String>) -> (r: String)
    ensures
        r@ == join_semi(codes.deep_view()),
{
    let ghost dv = codes.deep_view();
    let mut out = String::new();
    let mut i: usize = 0;
    while i < codes.len()
        invariant
            i <= codes.len(),
            dv == codes.deep_view(),
            dv.len() == codes.len(),
            out@ == join_semi(dv.take(i as int)),
        decreases codes.len() - i,
    {
        if i > 0 {
            out.append(";");
        }
        out.append(codes[i].as_str());
        proof {
            reveal_strlit(";");
            assert(dv.take(i + 1).drop_last() =~= dv.take(i as int));
            assert(dv.take(i + 1).last() == dv[i as int]);
            lemma_join_push(dv.take(i as int), dv[i as int]);
            assert(dv.take(i as int).push(dv[i as int]) =~= dv.take(i + 1));
            assert(codes@[i as int]@ == dv[i as int]);
            assert(out@ =~= join_semi(dv.take(i + 1)));
        }
        i += 1;
    }
    proof {
        assert(dv.take(codes.len() as int) =~= dv);
    }
    out
}

/// True exactly when the style emits at least one code fragment.
pub fn style_has_codes(st: &Style) -> (r: bool)
    ensures
        r == (style_codes(*st).len() > 0),
{
    let a = st.attrs;
    a.bold || a.dimmed || a.italic || a.underline || a.blink || a.reverse || a.hidden
        || a.strikethrough || st.background.is_some() || st.foreground.is_some()
}

/// Appends the escape prefix of `st` to `out`.
pub fn push_style_prefix(out: &mut String, st: &Style)
    ensures
        final(out)@ == old(out)@ + spec_style_prefix(*st),
{
    if !style_has_codes(st) {
        proof {
            assert(final(out)@ =~= old(out)@ + spec_style_prefix(*st));
        }
        return ;
    }
    out.append("\x1B[");
    let fragments = style_code_strings(st);
    let joined = join_code_strings(&fragments);
    out.append(joined.as_str());
    out.append("m");
    proof {
        reveal_strlit("\x1B[");
        reveal_strlit("m");
        assert(final(out)@ =~= old(out)@ + spec_style_prefix(*st));
    }
}

/// Appends the escape suffix of `st` (the reset code, unless plain).
pub fn push_style_suffix(out: &mut String, st: &Style)
    ensures
        final(out)@ == old(out)@ + spec_style_suffix(*st),
{
    let a = st.attrs;
    let has_codes = a.bold || a.dimmed || a.italic || a.underline || a.blink || a.reverse
        || a.hidden || a.strikethrough || st.background.is_some() || st.foreground.is_some();
    if has_codes {
        out.append("\x1B[0m");
        proof {
            reveal_strlit("\x1B[0m");
            assert(style_codes(*st).len() > 0);
            assert(final(out)@ =~= old(out)@ + spec_style_suffix(*st));
        }
    } else {
        proof {
            assert(style_codes(*st).len() == 0);
            assert(final(out)@ =~= old(out)@ + spec_style_suffix(*st));
        }
    }
}

/// A string whose first character lowers to a letter is no numeral.
proof fn lemma_letter_head_not_numeral(s: Seq<char>)
    requires
        s.len() > 0,
        97 <= lower_char(s[0]) as u32 <= 122,
    ensures
        !is_u8_str(s),
{
    let c = s[0];
    if is_upper(c) {
        assert(65 <= c as u32 <= 90);
        assert(!is_digit(c));
        assert(c as u32 != 43);
    } else {
        assert(lower_char(c) == c);
        assert(97 <= c as u32 <= 122);
        assert(!is_digit(c));
        assert(c as u32 != 43);
    }
    assert(c != '+');
    assert(strip_plus(s) == s);
    assert(!is_digit(strip_plus(s)[0]));
}

/// Round trip: for every named color string of the sixteen-entry table
/// (compared case-insensitively), parsing it yields exactly that name's
/// fixed palette index, and painting any content with that color as
/// foreground emits exactly the `ESC [ 38;5;<index> m` prefix and the
/// reset suffix around the content.
pub proof fn lemma_named_color_round_trip(name: Seq<char>, content: Seq<char>)
    requires
        spec_color16_index(lower_seq(name)) is Some,
    ensures
        spec_string_to_colour(name) == Ok::<Color, ModuleError>(
            Color::Fixed(spec_color16_index(lower_seq(name))->0),
        ),
        spec_paint(
            Style {
                attrs: attrs_empty(),
                background: None,
                foreground: Some(Color::Fixed(spec_color16_index(lower_seq(name))->0)),
            },
            content,
        ) == seq!['\u{1b}', '[', '3', '8', ';', '5', ';'] + dec_nat(
            spec_color16_index(lower_seq(name))->0 as nat,
        ) + seq!['m'] + content + seq!['\u{1b}', '[', '0', 'm'],
{
    reveal_strlit("black");
    reveal_strlit("bright_black");
    reveal_strlit("red");
    reveal_strlit("bright_red");
    reveal_strlit("green");
    reveal_strlit("bright_green");
    reveal_strlit("yellow");
    reveal_strlit("bright_yellow");
    reveal_strlit("blue");
    reveal_strlit("bright_blue");
    reveal_strlit("purple");
    reveal_strlit("bright_purple");
    reveal_strlit("cyan");
    reveal_strlit("bright_cyan");
    reveal_strlit("white");
    reveal_strlit("bright_white");
    let l = lower_seq(name);
    let idx = spec_color16_index(l)->0;
    assert(l.len() == name.len());
    assert(l.len() > 0);
    assert(l[0] == lower_char(name[0]));
    assert(97 <= l[0] as u32 <= 122);
    lemma_letter_head_not_numeral(name);
    assert(spec_string_to_colour(name) == Ok::<Color, ModuleError>(Color::Fixed(idx)));
    let st = Style {
        attrs: attrs_empty(),
        background: None,
        foreground: Some(Color::Fixed(idx)),
    };
    assert(style_codes(st) =~= seq![fg_code(Color::Fixed(idx))]);
    assert(join_semi(style_codes(st)) == style_codes(st)[0]);
    assert(spec_paint(st, content) =~= seq!['\u{1b}', '[', '3', '8', ';', '5', ';'] + dec_nat(
        idx as nat,
    ) + seq!['m'] + content + seq!['\u{1b}', '[', '0', 'm']);
}

/// Paints `s` with `st`: prefix, content, suffix.
pub fn style_paint(st: &Style, s: &str) -> (r: String)
    ensures
        r@ == spec_paint(*st, s@),
{
    let mut out = String::new();
    push_style_prefix(&mut out, st);
    out.append(s);
    push_style_suffix(&mut out, st);
    proof {
        assert(out@ =~= spec_paint(*st, s@));
    }
    out
}

} // verus!
