//! Renders a shell prompt as a chain of colored "segments" (working
//! directory, exit code, git status, prompt glyph, user-defined text).
//! Each segment's trailing separator is painted with the background of
//! the next visible segment, producing a seamless powerline-style bar.
//!
//! Configuration is read from a merged key-value store; loosely typed
//! values are parsed into validated colors and text attributes, and the
//! final output is wrapped in shell-specific zero-width markers so the
//! shell's line-length accounting ignores the escape codes.

pub mod chain;
pub mod chars;
pub mod cmdline;
pub mod color;
pub mod conf;
pub mod cwd;
pub mod exit_code;
pub mod generic;
pub mod git;
pub mod gitinfo;
pub mod modules;
pub mod options;
pub mod prompt;
pub mod render;
pub mod style;
pub mod util;
pub mod utils;
