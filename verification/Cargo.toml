[package]
name = "git_ref_select"
version = "0.1.0"
edition = "2021"
publish = false

[dependencies]
chumsky = "=1.0.0-alpha.4"
clap = { version = "4", features = ["derive"] }
env_logger = "*"
ezcmd = "*"
log = "0.4"
miette = "*"
thiserror = "*"
