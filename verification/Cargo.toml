[package]
name = "midi_plugins"
version = "0.1.0"
edition = "2021"
publish = false

[dependencies]
uuid = { version = "1", features = ["v4"] }
vst = "0.2"
serde = { version = "1", features = ["derive"] }
bincode = "1"
log = "0.4"
async-channel = "1"
async-std = "1"
smol = "1"
async-net = "1"
futures-lite = "1"
ipc-channel = "*"
midir = "*"
itertools = "0.10"
simplelog = "*"
log-panics = "2"
global_counter = "*"
