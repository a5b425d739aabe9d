[package]
name = "me"
version = "0.4.0"
edition = "2021"
publish = false

[dependencies]
anyhow = "1"
clap = { version = "4", features = ["derive"] }
ctrlc = "3"
dirs = "5"
hostname = "0.4"
is-terminal = "0.4"
libc = "0.2"
local-ip-address = "0.6"
owo-colors = "4"
serde = { version = "1", features = ["derive"] }
serde_json = "1"
serde_yaml = "0.9"
sha2 = "0.10"
thiserror = "2"
which = "6"
