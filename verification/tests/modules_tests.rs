use config::Config;

use contrail::git::git_status_text;
use contrail::gitinfo::{AheadBehind, DiffTotals, GitInfo};
use contrail::modules::{
    format_module, format_module_directory, format_module_exit_code, format_module_git_info,
    format_module_prompt,
};
use contrail::utils::ModuleError;

fn base_config() -> Config {
    let mut c = Config::new();
    c.set("global.foreground", "bright_white").unwrap();
    c.set("global.background", "blue").unwrap();
    c.set("global.padding_left", " ").unwrap();
    c.set("global.padding_right", " ").unwrap();
    c
}

#[test]
fn module_without_output_is_skipped() {
    let c = Config::new();
    assert_eq!(format_module(&c, "ghost", None, None, None), Ok(None));
}

#[test]
fn module_renders_with_global_fallback() {
    let c = base_config();
    let rendered = format_module(&c, "prompt", Some("$".to_string()), None, None).unwrap();
    assert_eq!(
        rendered,
        Some(
            "\\[\x1B[48;5;4;38;5;15m\\] $ \\[\x1B[0m\\]\\[\x1B[38;5;4m\\]\\[\x1B[0m\\]"
                .to_string()
        )
    );
}

#[test]
fn module_separator_uses_next_background() {
    let mut c = base_config();
    c.set("modules.next.background", "red").unwrap();
    let rendered = format_module(&c, "prompt", Some("$".to_string()), Some("next"), None).unwrap();
    assert_eq!(
        rendered,
        Some(
            "\\[\x1B[48;5;4;38;5;15m\\] $ \\[\x1B[0m\\]\\[\x1B[48;5;1;38;5;4m\\]\\[\x1B[0m\\]"
                .to_string()
        )
    );
}

#[test]
fn module_zsh_wrappers_and_unknown_shell() {
    let mut c = base_config();
    c.set("global.shell", "zsh").unwrap();
    let rendered = format_module(&c, "prompt", Some("$".to_string()), None, None).unwrap();
    assert_eq!(
        rendered,
        Some("%{\x1B[48;5;4;38;5;15m%} $ %{\x1B[0m%}%{\x1B[38;5;4m%}%{\x1B[0m%}".to_string())
    );

    c.set("global.shell", "fish").unwrap();
    assert_eq!(
        format_module(&c, "prompt", Some("$".to_string()), None, None),
        Err(ModuleError::NoSuchMatch)
    );
}

#[test]
fn module_exit_code_picks_success_and_error_background() {
    let mut c = base_config();
    c.set("modules.exit_code.bg_success", "green").unwrap();
    let rendered = format_module_exit_code(&c, None, "0").unwrap();
    assert_eq!(
        rendered,
        Some(
            "\\[\x1B[48;5;2;38;5;15m\\] 0 \\[\x1B[0m\\]\\[\x1B[38;5;2m\\]\\[\x1B[0m\\]"
                .to_string()
        )
    );

    // No error background configured: falls through to the global one.
    let rendered = format_module_exit_code(&c, None, "1").unwrap();
    assert_eq!(
        rendered,
        Some(
            "\\[\x1B[48;5;4;38;5;15m\\] 1 \\[\x1B[0m\\]\\[\x1B[38;5;4m\\]\\[\x1B[0m\\]"
                .to_string()
        )
    );
}

#[test]
fn module_prompt_uses_configured_output() {
    let mut c = base_config();
    c.set("modules.prompt.bg_success", "green").unwrap();
    c.set("modules.prompt.output", "$$").unwrap();
    let rendered = format_module_prompt(&c, None, "0").unwrap();
    assert_eq!(
        rendered,
        Some(
            "\\[\x1B[48;5;2;38;5;15m\\] $$ \\[\x1B[0m\\]\\[\x1B[38;5;2m\\]\\[\x1B[0m\\]"
                .to_string()
        )
    );
}

#[test]
fn module_directory_truncates_in_the_middle() {
    let mut c = base_config();
    c.set("modules.directory.max_depth", 3).unwrap();
    c.set("modules.directory.truncate_middle", true).unwrap();
    let rendered =
        format_module_directory(&c, None, "/home/u", "/home/u/a/b/c/d").unwrap();
    assert_eq!(
        rendered,
        Some(
            "\\[\x1B[48;5;4;38;5;15m\\] ~/.../d \\[\x1B[0m\\]\\[\x1B[38;5;4m\\]\\[\x1B[0m\\]"
                .to_string()
        )
    );
}

fn sample_info() -> GitInfo {
    GitInfo {
        branch: Some("master".to_string()),
        stats: Some(DiffTotals {
            files_changed: 2,
            insertions: 3,
            deletions: 1,
        }),
        ahead_behind: Some(AheadBehind {
            ahead: 1,
            behind: 2,
        }),
    }
}

#[test]
fn module_git_renders_snapshot() {
    let mut c = base_config();
    c.set("modules.git.show_changed", true).unwrap();
    c.set("modules.git.show_unpushed", true).unwrap();
    c.set("modules.git.symbol_insertion", "+").unwrap();
    c.set("modules.git.symbol_push", "^").unwrap();
    c.set("modules.git.symbol_pull", "v").unwrap();
    let info = sample_info();
    let rendered = format_module_git_info(&c, None, Some(&info)).unwrap();
    assert_eq!(
        rendered,
        Some(
            "\\[\x1B[48;5;4;38;5;15m\\] master + ^1 v2 \\[\x1B[0m\\]\\[\x1B[38;5;4m\\]\\[\x1B[0m\\]"
                .to_string()
        )
    );

    // Literal counts when diff stats are enabled.
    c.set("modules.git.show_diff_stats", true).unwrap();
    c.set("modules.git.symbol_deletion", "-").unwrap();
    let rendered = format_module_git_info(&c, None, Some(&info)).unwrap();
    assert_eq!(
        rendered,
        Some(
            "\\[\x1B[48;5;4;38;5;15m\\] master (-1, +3) ^1 v2 \\[\x1B[0m\\]\\[\x1B[38;5;4m\\]\\[\x1B[0m\\]"
                .to_string()
        )
    );
}

#[test]
fn module_git_without_repository_is_skipped() {
    let c = base_config();
    assert_eq!(format_module_git_info(&c, None, None), Ok(None));
}

#[test]
fn status_text_of_snapshot() {
    let info = sample_info();
    assert_eq!(git_status_text(&info), "master + \u{21e1}1 \u{21e3}2");

    let empty = GitInfo {
        branch: None,
        stats: None,
        ahead_behind: None,
    };
    assert_eq!(git_status_text(&empty), "");
}
