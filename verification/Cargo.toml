[package]
name = "sbc"
version = "0.1.0"
edition = "2021"
publish = false

[dependencies]
serde_json = "1"
anyhow = "1"
clap = { version = "4", features = ["derive"] }
ctrlc = "3"
libc = "0.2"
log = "0.4"
nix = { version = "0.29", features = ["signal"] }
ureq = "2"
