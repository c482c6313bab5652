[package]
name = "halp"
version = "0.2.0"
edition = "2021"
publish = false

[dependencies]
clap = { version = "4", features = ["derive", "env"] }
colored = "*"
console = "*"
dialoguer = "*"
dirs = "*"
process_control = "*"
serde = { version = "1", features = ["derive"] }
thiserror = "*"
toml = "*"
ureq = "2"
