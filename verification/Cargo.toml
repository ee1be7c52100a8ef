[package]
name = "plane_core"
version = "0.1.0"
edition = "2021"
publish = false

[dependencies]
anyhow = "1"
async-channel = "2"
bitflare = "*"
clap = { version = "4", features = ["derive"] }
crossbeam-channel = "0.5"
defmt = "1"
defmt-decoder = "1"
defmt-parser = "1"
futures-util = "0.3"
gilrs = "*"
heapless = { version = "0.8", features = ["serde"] }
log = "0.4"
nusb = "0.1"
postcard = { version = "1", features = ["use-std"] }
ratatui = "0.29"
serde = { version = "1", features = ["derive"] }
serde_json = "1"
tokio = { version = "1", features = ["rt-multi-thread", "io-util", "fs", "time", "macros", "sync"] }
tokio-serial = "5"
