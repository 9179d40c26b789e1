[package]
name = "prowl"
version = "0.1.0"
edition = "2021"
publish = false

[dependencies]
anstyle = "1"
anyhow = "1"
chrono = "0.4"
clap = { version = "4", features = ["derive"] }
ctrlc = "3"
keyring = "3"
libc = "0.2"
serde = { version = "1", features = ["derive"] }
serde_json = "1"
uncurses = "*"
ureq = { version = "3", features = ["json"] }
