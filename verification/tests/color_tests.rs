use contrail::color::{
    string_to_colour, string_to_style, try_color_from_str, try_fixed_from_str, try_rgb_from_str,
    try_text_props_from_vec, Color, NamedColor, TextAttributes,
};
use contrail::style::{style_paint, Style};
use contrail::utils::ModuleError;

fn paint_fg(color: Color, attrs: TextAttributes, content: &str) -> String {
    let style = Style {
        attrs,
        background: None,
        foreground: Some(color),
    };
    style_paint(&style, content)
}

#[test]
fn test_colour_and_style() {
    const CONTENT: &'static str = "hi";

    struct Test<'a> {
        color: &'static str,
        style: &'static str,
        expected: &'a str,
    }

    let tests = [
        Test {
            color: "blue",
            style: "bold",
            expected: &format!("\x1B[1;38;5;4m{}\x1B[0m", CONTENT),
        },
        Test {
            color: "bright_white",
            style: "",
            expected: &format!("\x1B[38;5;15m{}\x1B[0m", CONTENT),
        },
    ];

    for test in &tests {
        let style = string_to_style(test.style).unwrap();
        let color = string_to_colour(test.color).unwrap();
        let result = paint_fg(color, style, CONTENT);

        assert_eq!(test.expected, result);
    }
}

#[test]
fn test_string_to_style() {
    const CONTENT: &'static str = "hi";

    struct Test<'a> {
        input: &'static str,
        expected: &'a str,
    }

    let tests = [
        Test {
            input: "bold",
            expected: &format!("\x1B[1m{}\x1B[0m", CONTENT),
        },
        Test {
            input: "italic",
            expected: &format!("\x1B[3m{}\x1B[0m", CONTENT),
        },
    ];

    for test in &tests {
        let attrs = string_to_style(test.input).unwrap();
        let style = Style {
            attrs,
            background: None,
            foreground: None,
        };
        let result = style_paint(&style, CONTENT);

        assert_eq!(test.expected, result);
    }
}

#[test]
fn test_string_to_colour() {
    const CONTENT: &'static str = "hi";

    struct Test<'a> {
        input: &'static str,
        expected: &'a str,
    }

    let tests = [
        Test {
            input: "green",
            expected: &format!("\x1B[38;5;2m{}\x1B[0m", CONTENT),
        },
        Test {
            input: "bright_green",
            expected: &format!("\x1B[38;5;10m{}\x1B[0m", CONTENT),
        },
    ];

    for test in &tests {
        let color = string_to_colour(test.input).unwrap();
        let result = paint_fg(color, TextAttributes::empty(), CONTENT);

        assert_eq!(test.expected, result);
    }
}

#[test]
fn test_try_color_from_str() {
    // Corresponds to one of the eight named colors
    assert_eq!(try_color_from_str("blue"), Ok(Color::Named(NamedColor::Blue)));

    // Not part of the palette
    assert!(try_color_from_str("teal").is_err());
}

#[test]
fn test_try_fixed_from_str() {
    // Valid inputs
    assert_eq!(try_fixed_from_str("0"), Ok(Color::Fixed(0)));
    assert_eq!(try_fixed_from_str("100"), Ok(Color::Fixed(100)));

    // Inputs that can't be parsed to an eight-bit index
    assert!(try_fixed_from_str("256").is_err());
    assert!(try_fixed_from_str("-1").is_err());
}

#[test]
fn test_try_rgb_from_str() {
    // Valid inputs
    assert_eq!(try_rgb_from_str("(0, 0, 0)"), Ok(Color::Rgb(0, 0, 0)));
    assert_eq!(
        try_rgb_from_str("(255, 255, 255)"),
        Ok(Color::Rgb(255, 255, 255))
    );

    // Questionable inputs (should still work)
    assert_eq!(try_rgb_from_str("(0, 0, 0))"), Ok(Color::Rgb(0, 0, 0)));

    // Improperly formed ("too many" inputs)
    assert!(try_rgb_from_str("(0, 0, 0,)").is_err());

    // Too few inputs
    assert!(try_rgb_from_str("(0, 0)").is_err());

    // Inputs aren't u8's
    assert!(try_rgb_from_str("(1000, 0, 0)").is_err());
    assert!(try_rgb_from_str("(0, 0, -1)").is_err());
}

#[test]
fn rgb_error_kinds() {
    // A component out of eight-bit range is malformed, never clamped
    assert_eq!(try_rgb_from_str("(256, 0, 0)"), Err(ModuleError::InvalidForm));
    // Wrong arity is malformed too
    assert_eq!(try_rgb_from_str("(1,2,3,4)"), Err(ModuleError::InvalidForm));
    // Exactly three in-range components parse
    assert_eq!(try_rgb_from_str("(1, 2, 3)"), Ok(Color::Rgb(1, 2, 3)));
}

#[test]
fn color_error_kinds() {
    // Unrecognized names versus malformed numerals
    assert_eq!(try_color_from_str("teal"), Err(ModuleError::NoSuchMatch));
    assert_eq!(try_fixed_from_str("256"), Err(ModuleError::InvalidForm));
    assert_eq!(string_to_colour("turquoise"), Err(ModuleError::NoSuchMatch));
    assert_eq!(string_to_style("shiny"), Err(ModuleError::NoSuchMatch));
}

#[test]
fn text_props_duplicates_are_idempotent() {
    let twice = vec!["bold".to_string(), "bold".to_string()];
    let once = vec!["bold".to_string()];
    assert_eq!(
        try_text_props_from_vec(&twice),
        try_text_props_from_vec(&once)
    );
    let mixed_case = vec!["BOLD".to_string()];
    assert_eq!(
        try_text_props_from_vec(&mixed_case),
        try_text_props_from_vec(&once)
    );
}

#[test]
fn named_color_escape_indices() {
    // The sixteen names map onto palette indices 0 through 15
    let names = [
        ("black", 0),
        ("red", 1),
        ("green", 2),
        ("yellow", 3),
        ("blue", 4),
        ("purple", 5),
        ("cyan", 6),
        ("white", 7),
        ("bright_black", 8),
        ("bright_red", 9),
        ("bright_green", 10),
        ("bright_yellow", 11),
        ("bright_blue", 12),
        ("bright_purple", 13),
        ("bright_cyan", 14),
        ("bright_white", 15),
    ];
    for (name, idx) in names.iter() {
        assert_eq!(string_to_colour(name), Ok(Color::Fixed(*idx)));
        let painted = paint_fg(Color::Fixed(*idx), TextAttributes::empty(), "x");
        assert_eq!(painted, format!("\x1B[38;5;{}mx\x1B[0m", idx));
    }
}

#[test]
fn escape_codes_match_ansi_term() {
    // The verified emitter and crate ansi_term agree byte for byte.
    let mine = paint_fg(Color::Named(NamedColor::Red), TextAttributes::empty(), "ok");
    let theirs = ansi_term::Colour::Red.paint("ok").to_string();
    assert_eq!(mine, theirs);

    let mut attrs = TextAttributes::empty();
    attrs.bold = true;
    attrs.underline = true;
    let mine = style_paint(
        &Style {
            attrs,
            background: Some(Color::Fixed(93)),
            foreground: Some(Color::Rgb(1, 22, 255)),
        },
        "deep",
    );
    let theirs = ansi_term::Style::new()
        .bold()
        .underline()
        .on(ansi_term::Colour::Fixed(93))
        .fg(ansi_term::Colour::RGB(1, 22, 255))
        .paint("deep")
        .to_string();
    assert_eq!(mine, theirs);

    let mine = style_paint(
        &Style {
            attrs: TextAttributes::empty(),
            background: None,
            foreground: None,
        },
        "plain",
    );
    assert_eq!(mine, "plain");
}

#[test]
fn numeral_edge_cases() {
    // Leading zeros and an explicit plus sign are fine; whitespace is not.
    assert_eq!(try_fixed_from_str("007"), Ok(Color::Fixed(7)));
    assert_eq!(try_fixed_from_str("+5"), Ok(Color::Fixed(5)));
    assert_eq!(try_fixed_from_str(""), Err(ModuleError::InvalidForm));
    assert_eq!(try_fixed_from_str(" 5"), Err(ModuleError::InvalidForm));
    assert_eq!(try_fixed_from_str("255"), Ok(Color::Fixed(255)));
    assert_eq!(string_to_colour("15"), Ok(Color::Fixed(15)));
}

#[test]
fn bright_names_parse_in_the_options_path() {
    // All sixteen entries of the table parse here: the eight base names
    // as named colors, the bright ones as palette indices 8-15.
    assert_eq!(try_color_from_str("bright_black"), Ok(Color::Fixed(8)));
    assert_eq!(try_color_from_str("bright_red"), Ok(Color::Fixed(9)));
    assert_eq!(try_color_from_str("bright_green"), Ok(Color::Fixed(10)));
    assert_eq!(try_color_from_str("bright_yellow"), Ok(Color::Fixed(11)));
    assert_eq!(try_color_from_str("BRIGHT_BLUE"), Ok(Color::Fixed(12)));
    assert_eq!(try_color_from_str("bright_purple"), Ok(Color::Fixed(13)));
    assert_eq!(try_color_from_str("bright_cyan"), Ok(Color::Fixed(14)));
    assert_eq!(try_color_from_str("bright_white"), Ok(Color::Fixed(15)));
}
