use config::Config;

use contrail::color::{
    try_text_prop_from_str, try_text_props_from_vec, Color, NamedColor, TextAttributes,
};
use contrail::options::{
    read_options, read_style, try_color_from_config, try_text_props_from_config, ModuleOptions,
    ModuleStyle,
};

fn bold() -> TextAttributes {
    TextAttributes {
        bold: true,
        ..Default::default()
    }
}

#[test]
fn test_read_options_from_config() {
    let mut c = Config::new();

    // No options set
    assert_eq!(read_options("prompt", &c), Ok(ModuleOptions::default()));

    // Only a separator set
    let options = ModuleOptions {
        output: None,
        padding_left: String::from(" "),
        padding_right: String::from(" "),
        separator: String::from(">"),
        style: ModuleStyle::default(),
    };
    c.set("modules.prompt.separator", ">").unwrap();
    assert_eq!(read_options("prompt", &c), Ok(options));

    // All options set
    let options = ModuleOptions {
        output: Some(String::from("Hello")),
        padding_left: String::from("|"),
        padding_right: String::from("/"),
        separator: String::from(" "),
        style: ModuleStyle {
            foreground: Some(Color::Named(NamedColor::White)),
            background: Some(Color::Rgb(6, 47, 200)),
            text_properties: Some(bold()),
        },
    };
    c.set("modules.prompt.output", "Hello").unwrap();
    c.set("modules.prompt.padding_left", "|").unwrap();
    c.set("modules.prompt.padding_right", "/").unwrap();
    c.set("modules.prompt.separator", " ").unwrap();
    c.set("modules.prompt.style.foreground", "white").unwrap();
    c.set("modules.prompt.style.background", "(6, 47, 200)")
        .unwrap();
    c.set("modules.prompt.style.text_properties", "bold")
        .unwrap();
    assert_eq!(read_options("prompt", &c), Ok(options));

    // Error in one of the options
    c.set("modules.prompt.padding_left", true).unwrap();
    assert!(read_options("prompt", &c).is_err());
}

#[test]
fn test_read_style_from_config() {
    let mut c = Config::new();

    // No options set
    assert_eq!(read_style("prompt", &c), Ok(ModuleStyle::default()));

    // Only a background set
    c.set("modules.prompt.style.background", "blue").unwrap();
    let style = ModuleStyle {
        foreground: None,
        background: Some(Color::Named(NamedColor::Blue)),
        text_properties: None,
    };
    assert_eq!(read_style("modules.prompt.style", &c), Ok(style));

    // All properties set
    c.set("modules.prompt.style.foreground", "white").unwrap();
    c.set("modules.prompt.style.background", "50").unwrap();
    c.set(
        "modules.prompt.style.text_properties",
        vec!["bold", "italic"],
    )
    .unwrap();
    let style = ModuleStyle {
        foreground: Some(Color::Named(NamedColor::White)),
        background: Some(Color::Fixed(50)),
        text_properties: Some(TextAttributes {
            bold: true,
            italic: true,
            ..Default::default()
        }),
    };
    assert_eq!(read_style("modules.prompt.style", &c), Ok(style));

    // Erroneous property set (malformed RGB, too many inputs)
    c.set("modules.prompt.style.foreground", "(0, 0, 0, 0)")
        .unwrap();
    assert!(read_style("modules.prompt.style", &c).is_err());
}

#[test]
fn test_try_text_props_from_config() {
    let mut c = Config::new();

    // No text properties set
    assert_eq!(try_text_props_from_config("text_properties", &c), Ok(None));

    // Text properties are a single string
    c.set("text_properties", "bold").unwrap();
    assert_eq!(
        try_text_props_from_config("text_properties", &c),
        Ok(Some(bold()))
    );

    // Text properties are a vec of strings
    c.set("text_properties", vec!["bold", "underline", "italic"])
        .unwrap();
    assert_eq!(
        try_text_props_from_config("text_properties", &c),
        Ok(Some(TextAttributes {
            bold: true,
            underline: true,
            italic: true,
            ..Default::default()
        }))
    );

    // Text properties are an invalid type
    c.set("text_properties", true).unwrap();
    assert!(try_text_props_from_config("text_properties", &c).is_err());
}

#[test]
fn test_try_text_props_from_vec() {
    // A single valid text property
    let props = vec!["bold".to_string()];
    assert_eq!(try_text_props_from_vec(&props), Ok(bold()));

    // Multiple valid text properties
    let props = vec![
        "bold".to_string(),
        "hidden".to_string(),
        "underline".to_string(),
    ];
    assert_eq!(
        try_text_props_from_vec(&props),
        Ok(TextAttributes {
            bold: true,
            hidden: true,
            underline: true,
            ..Default::default()
        })
    );

    // No text properties
    let props: Vec<String> = Vec::new();
    assert_eq!(try_text_props_from_vec(&props), Ok(TextAttributes::empty()));

    // Invalid text property
    let props = vec!["hidden".to_string(), "invalid".to_string()];
    assert!(try_text_props_from_vec(&props).is_err());
}

#[test]
fn test_try_text_prop_from_str() {
    // Valid text property
    assert_eq!(try_text_prop_from_str(Some("bold")), Ok(bold()));

    // No string passed
    assert_eq!(try_text_prop_from_str(None), Ok(TextAttributes::empty()));

    // Invalid text property
    assert!(try_text_prop_from_str(Some("invalid")).is_err());
}

#[test]
fn test_try_color_from_config() {
    let mut c = Config::new();

    // No fg or bg set
    assert_eq!(try_color_from_config("foreground", &c), Ok(None));
    assert_eq!(try_color_from_config("background", &c), Ok(None));

    // Only a fg set
    c.set("foreground", "white").unwrap();
    assert_eq!(
        try_color_from_config("foreground", &c),
        Ok(Some(Color::Named(NamedColor::White)))
    );
    assert_eq!(try_color_from_config("background", &c), Ok(None));

    // Both fg and bg set
    c.set("foreground", "green").unwrap();
    c.set("background", "black").unwrap();
    assert_eq!(
        try_color_from_config("foreground", &c),
        Ok(Some(Color::Named(NamedColor::Green)))
    );
    assert_eq!(
        try_color_from_config("background", &c),
        Ok(Some(Color::Named(NamedColor::Black)))
    );

    // fg set to a valid u8
    c.set("foreground", 10).unwrap();
    assert_eq!(
        try_color_from_config("foreground", &c),
        Ok(Some(Color::Fixed(10)))
    );

    // fg set to an invalid u8
    c.set("foreground", -1).unwrap();
    assert!(try_color_from_config("foreground", &c).is_err());

    // bg set to an invalid type
    c.set("background", true).unwrap();
    assert!(try_color_from_config("background", &c).is_err());

    c.set("background", vec!["a", "b", "c"]).unwrap();
    assert!(try_color_from_config("background", &c).is_err());
}

#[test]
fn util_test_ref_get_array() {
    let mut c: Config = Config::new();
    c.set("numbers", vec![1, 2, 3]).unwrap();
    c.set("boolean", true).unwrap();

    // The array's elements come back as strings, as the configuration
    // store coerces them.
    assert_eq!(
        contrail::util::ref_get_array("numbers", &c),
        Some(vec!["1".to_string(), "2".to_string(), "3".to_string()])
    );
    assert_eq!(contrail::util::ref_get_array("boolean", &c), None);
}

#[test]
fn utils_test_ref_get_array() {
    let mut c: Config = Config::new();
    c.set("numbers", vec![1, 2, 3]).unwrap();
    c.set("boolean", true).unwrap();

    assert_eq!(
        contrail::utils::ref_get_array("numbers", &c),
        Some(vec!["1".to_string(), "2".to_string(), "3".to_string()])
    );
    assert_eq!(contrail::utils::ref_get_array("boolean", &c), None);
}
