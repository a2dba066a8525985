[package]
name = "f2b_buxjr"
version = "0.1.0"
edition = "2021"
publish = false

[dependencies]
chrono = "0.4"
clap = { version = "4", features = ["derive"] }
crossterm = "*"
env_logger = "*"
log = "0.4"
nix = { version = "*", features = ["user"] }
ratatui = "*"
thiserror = "*"
unicode-width = "*"
