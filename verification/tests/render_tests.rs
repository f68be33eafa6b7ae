use config::Config;

use contrail::chain::render_prompt;
use contrail::color::{Color, NamedColor, TextAttributes};
use contrail::cwd::{format_cwd, truncate_components};
use contrail::exit_code::format_exit_code;
use contrail::generic::format_generic;
use contrail::git::format_git_info;
use contrail::options::{read_options, try_color_from_config, ModuleOptions, ModuleStyle};
use contrail::prompt::format_prompt;
use contrail::render::{format_for_module, style_from_modulestyle, Shell};
use contrail::style::style_paint;
use contrail::utils::{FormatResult, ModuleError};

fn bold() -> TextAttributes {
    TextAttributes {
        bold: true,
        ..Default::default()
    }
}

#[test]
fn test_exit_code() {
    let mut c = Config::new();

    c.set("modules.exit_code.style_success.background", "green")
        .unwrap();
    c.set("modules.exit_code.style_error.background", "red")
        .unwrap();

    // Exit code of 0 should be green
    let result = format_exit_code(&c, 0, None, Shell::Bash).unwrap();
    assert_eq!(result.next_bg, Some(Color::Named(NamedColor::Green)));

    // Exit code of non-zero should be red
    let result = format_exit_code(&c, 1, None, Shell::Bash).unwrap();
    assert_eq!(result.next_bg, Some(Color::Named(NamedColor::Red)));
}

#[test]
fn test_format_prompt() {
    let mut c = Config::new();

    c.set("modules.prompt.style_success.background", "green")
        .unwrap();
    c.set("modules.prompt.style_error.background", "red")
        .unwrap();

    // Exit code of 0 should be green
    let result = format_prompt(&c, 0, None, Shell::Bash).unwrap();
    assert_eq!(result.next_bg, Some(Color::Named(NamedColor::Green)));

    // Exit code of non-zero should be red
    let result = format_prompt(&c, 1, None, Shell::Bash).unwrap();
    assert_eq!(result.next_bg, Some(Color::Named(NamedColor::Red)));
}

#[test]
fn test_format_generic() {
    let mut c = Config::new();

    // Not in the config file == nothing to print
    assert_eq!(
        format_generic("nonexistant", &c, None, Shell::Bash)
            .unwrap()
            .output,
        None
    );

    c.set("modules.exists.output", "hello").unwrap();

    assert_eq!(
        format_generic("exists", &c, None, Shell::Bash)
            .unwrap()
            .output,
        Some(String::from(" hello "))
    );
}

#[test]
fn test_format_for_module() {
    const CONTENT: &'static str = "Hello";
    const PADDING: &'static str = " ";
    const SEPARATOR: &'static str = ">";

    let mut options = ModuleOptions {
        output: None,
        padding_left: PADDING.to_string(),
        padding_right: PADDING.to_string(),
        separator: SEPARATOR.to_string(),
        style: ModuleStyle {
            background: Some(Color::Named(NamedColor::Blue)),
            foreground: Some(Color::Named(NamedColor::White)),
            text_properties: Some(bold()),
        },
    };

    let formatted_string = format_for_module(CONTENT, &options, None, Shell::Bash).unwrap();
    assert_eq!(
        format!(
            "\\[\x1B[1;44;37m\\]{}{}{}\\[\x1B[0m\\]\\[\x1B[1;34m\\]{}\\[\x1B[0m\\]",
            PADDING, CONTENT, PADDING, SEPARATOR
        ),
        formatted_string
    );

    // Override the output
    options.output = Some(String::from("modified"));
    let formatted_string = format_for_module(CONTENT, &options, None, Shell::Bash).unwrap();
    assert_eq!(
        format!(
            "\\[\x1B[1;44;37m\\]{}{}{}\\[\x1B[0m\\]\\[\x1B[1;34m\\]{}\\[\x1B[0m\\]",
            PADDING, "modified", PADDING, SEPARATOR
        ),
        formatted_string
    );
}

#[test]
fn test_style_from_modulestyle() {
    const CONTENT: &'static str = "Hello";

    struct Test {
        style: ModuleStyle,
        expected: String,
    }

    let tests = [
        // Normal text, no bg, custom fg
        Test {
            style: ModuleStyle {
                background: None,
                foreground: Some(Color::Named(NamedColor::White)),
                text_properties: None,
            },
            expected: format!("\x1B[37m{}\x1B[0m", CONTENT),
        },
        // Bold text, no fg, custom bg
        Test {
            style: ModuleStyle {
                background: Some(Color::Named(NamedColor::Blue)),
                foreground: None,
                text_properties: Some(bold()),
            },
            expected: format!("\x1B[1;44m{}\x1B[0m", CONTENT),
        },
        // Underlined text, custom bg and fg
        Test {
            style: ModuleStyle {
                background: Some(Color::Named(NamedColor::Blue)),
                foreground: Some(Color::Named(NamedColor::White)),
                text_properties: Some(TextAttributes {
                    underline: true,
                    ..Default::default()
                }),
            },
            expected: format!("\x1B[4;44;37m{}\x1B[0m", CONTENT),
        },
        // Normal text, no bg nor fg
        Test {
            style: ModuleStyle {
                background: None,
                foreground: None,
                text_properties: None,
            },
            expected: format!("{}", CONTENT),
        },
    ];

    for test in &tests {
        let result = style_paint(&style_from_modulestyle(&test.style), CONTENT);
        assert_eq!(result, test.expected);
    }
}

#[test]
fn unsupported_shell_is_fatal() {
    // Styled output for a shell without known markers must fail hard,
    // never fall back to a default.
    let options = ModuleOptions {
        output: None,
        padding_left: String::new(),
        padding_right: String::new(),
        separator: String::new(),
        style: ModuleStyle {
            background: Some(Color::Named(NamedColor::Blue)),
            foreground: None,
            text_properties: None,
        },
    };
    assert_eq!(
        format_for_module("", &options, None, Shell::Fish),
        Err(ModuleError::FormatFailure)
    );

    // Plain output needs no markers, so any shell will do.
    let plain = ModuleOptions {
        output: None,
        padding_left: String::new(),
        padding_right: String::new(),
        separator: String::new(),
        style: ModuleStyle::default(),
    };
    assert_eq!(
        format_for_module("ok", &plain, None, Shell::Fish),
        Ok("ok".to_string())
    );
}

#[test]
fn global_background_scenario() {
    // Configuration sets a global background; the exit-code segment's
    // own success background supersedes it, and the prompt (the final
    // visible segment) inherits the global background and paints its
    // separator flat.
    let mut c = Config::new();
    c.set("global.background", "blue").unwrap();
    c.set("modules.exit_code.style_success.background", "green")
        .unwrap();
    let names = vec!["exit_code".to_string(), "prompt".to_string()];

    let rendered = render_prompt(&c, &names, Shell::Bash, 0, "/", None, None).unwrap();

    let exit_piece = "\\[\x1B[42m\\] 0 \\[\x1B[0m\\]\\[\x1B[44;32m\\]\\[\x1B[0m\\]";
    let prompt_piece = "\\[\x1B[44m\\] $ \\[\x1B[0m\\]\\[\x1B[34m\\]\\[\x1B[0m\\]";
    assert_eq!(rendered, format!("{}{}", exit_piece, prompt_piece));
}

#[test]
fn invisible_segment_keeps_the_chain() {
    // A git segment outside any repository is invisible: the rendering
    // with it in the middle equals the rendering without it, so the
    // exit-code separator is painted with the prompt's background.
    let mut c = Config::new();
    c.set("global.background", "blue").unwrap();
    c.set("modules.exit_code.style_success.background", "green")
        .unwrap();
    let with_git = vec![
        "exit_code".to_string(),
        "git".to_string(),
        "prompt".to_string(),
    ];
    let without_git = vec!["exit_code".to_string(), "prompt".to_string()];

    let a = render_prompt(&c, &with_git, Shell::Bash, 0, "/", None, None).unwrap();
    let b = render_prompt(&c, &without_git, Shell::Bash, 0, "/", None, None).unwrap();
    assert_eq!(a, b);
}

#[test]
fn git_outside_repository_is_absent() {
    // A git segment with no repository yields an entirely absent render
    // result: no content, no style, no separator — and no error.
    let c = Config::new();
    let result = format_git_info(&c, None, None, Shell::Bash).unwrap();
    assert_eq!(result, FormatResult::default());
    assert_eq!(result.output, None);
    assert_eq!(result.next_bg, None);
}

#[test]
fn git_discovery_outside_repository() {
    // Discovery starting at the filesystem root finds no repository;
    // the whole segment is absent, not an error.
    let c = Config::new();
    let result = contrail::git::format_git(&c, "/", None, Shell::Bash).unwrap();
    assert_eq!(result, FormatResult::default());
}

#[test]
fn truncation_keeps_max_depth_components() {
    // A path of depth 6 with max_depth 4 truncates to exactly 4 real
    // components plus exactly one ellipsis, whichever policy is used.
    let comps: Vec<String> = vec!["a", "b", "c", "d", "e", "f"]
        .into_iter()
        .map(|s| s.to_string())
        .collect();

    let leading = truncate_components(comps.clone(), 4, false);
    assert_eq!(leading, vec!["...", "c", "d", "e", "f"]);
    assert_eq!(leading.iter().filter(|p| p.as_str() == "...").count(), 1);
    assert_eq!(leading.len(), 5);

    let comps: Vec<String> = vec!["a", "b", "c", "d", "e", "f"]
        .into_iter()
        .map(|s| s.to_string())
        .collect();
    let middle = truncate_components(comps, 4, true);
    assert_eq!(middle, vec!["a", "b", "...", "e", "f"]);
    assert_eq!(middle.iter().filter(|p| p.as_str() == "...").count(), 1);
    assert_eq!(middle.len(), 5);
}

#[test]
fn cwd_home_substitution_and_truncation() {
    let c = Config::new();
    let result = format_cwd(
        &c,
        "/home/someone/projects/prompt",
        Some("/home/someone"),
        None,
        Shell::Bash,
    )
    .unwrap();
    assert_eq!(result.output, Some(" ~/projects/prompt ".to_string()));

    // Depth 6 against the default limit of 4: leading components
    // collapse into one ellipsis.
    let result = format_cwd(&c, "/a/b/c/d/e", None, None, Shell::Bash).unwrap();
    assert_eq!(result.output, Some(" .../b/c/d/e ".to_string()));
}

#[test]
fn wrong_kind_is_a_type_error() {
    let mut c = Config::new();
    c.set("background", true).unwrap();
    assert_eq!(
        try_color_from_config("background", &c),
        Err(ModuleError::InvalidType)
    );
    c.set("modules.prompt.padding_left", 7).unwrap();
    assert_eq!(read_options("prompt", &c), Err(ModuleError::InvalidType));
}

#[test]
fn zsh_markers_wrap_escape_runs() {
    let options = ModuleOptions {
        output: None,
        padding_left: " ".to_string(),
        padding_right: " ".to_string(),
        separator: "".to_string(),
        style: ModuleStyle {
            background: Some(Color::Named(NamedColor::Blue)),
            foreground: None,
            text_properties: None,
        },
    };
    let formatted = format_for_module("x", &options, None, Shell::Zsh).unwrap();
    assert_eq!(
        formatted,
        "%{\x1B[44m%} x %{\x1B[0m%}%{\x1B[34m%}%{\x1B[0m%}"
    );
}

#[test]
fn user_defined_segment_in_the_chain() {
    let mut c = Config::new();
    c.set("modules.note.output", "hi").unwrap();
    c.set("modules.note.style.background", "green").unwrap();
    let names = vec!["note".to_string(), "prompt".to_string()];
    let rendered = render_prompt(&c, &names, Shell::Bash, 0, "/", None, None).unwrap();
    // The note renders its override on its own background; the prompt
    // is plain (no styles configured at all), so it needs no markers.
    let note_piece = "\\[\x1B[42m\\] hi \\[\x1B[0m\\]\\[\x1B[32m\\]\\[\x1B[0m\\]";
    let prompt_piece = " $ ";
    assert_eq!(rendered, format!("{}{}", note_piece, prompt_piece));
}

#[test]
fn bright_global_foreground_renders() {
    // The shipped defaults use a bright global foreground; the chain
    // must resolve it, not fail.
    let mut c = Config::new();
    c.set("global.foreground", "bright_white").unwrap();
    c.set("global.background", "blue").unwrap();
    assert_eq!(
        try_color_from_config("global.foreground", &c),
        Ok(Some(Color::Fixed(15)))
    );
    let names = vec!["prompt".to_string()];
    let rendered = render_prompt(&c, &names, Shell::Bash, 0, "/", None, None).unwrap();
    assert_eq!(
        rendered,
        "\\[\x1B[44;38;5;15m\\] $ \\[\x1B[0m\\]\\[\x1B[34m\\]\\[\x1B[0m\\]"
    );
}

#[test]
fn attribute_only_styles_are_wrapped() {
    // A style with attributes but no colors still emits escape codes,
    // so its runs carry the zero-width markers too.
    let options = ModuleOptions {
        output: None,
        padding_left: " ".to_string(),
        padding_right: " ".to_string(),
        separator: "".to_string(),
        style: ModuleStyle {
            background: None,
            foreground: None,
            text_properties: Some(bold()),
        },
    };
    let formatted = format_for_module("x", &options, None, Shell::Bash).unwrap();
    assert_eq!(
        formatted,
        "\\[\x1B[1m\\] x \\[\x1B[0m\\]\\[\x1B[1m\\]\\[\x1B[0m\\]"
    );

    // And on a shell without known markers, such a style is fatal.
    assert_eq!(
        format_for_module("x", &options, None, Shell::Fish),
        Err(ModuleError::FormatFailure)
    );
}
