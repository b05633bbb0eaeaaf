[package]
name = "wordle"
version = "0.1.0"
edition = "2021"
publish = false

[dependencies]
rand = "0.8"
console = "0.15"
atty = "0.2"
crossterm = "0.25"
tui = "0.19"
serde = { version = "1", features = ["derive"] }
serde_derive = "1"
serde_json = "1"
text_io = "0.1"
