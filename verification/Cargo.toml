[package]
name = "contrail"
version = "0.1.0"
edition = "2021"
publish = false

[dependencies]
config = "0.4.1"
git2 = { version = "0.19", default-features = false }
clap = "2"
lazy_static = "1"

[dev-dependencies]
ansi_term = "0.12"
