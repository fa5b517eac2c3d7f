[package]
name = "oh_my_todo"
version = "0.1.0"
edition = "2021"
publish = false

[dependencies]
clap = { version = "4", features = ["derive"] }
crossterm = "0.28"
directories = "5"
ratatui = "0.29"
ron = "0.8"
serde = { version = "1", features = ["derive"] }
thiserror = "2"
time = { version = "0.3", features = ["serde", "formatting", "parsing"] }
tui-textarea = "0.7"
ulid = "1"
