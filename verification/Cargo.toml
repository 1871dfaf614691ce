[package]
name = "terminal_hell"
version = "0.1.0"
edition = "2021"
publish = false

[dependencies]
anyhow = "1"
base32 = "0.5"
getrandom = "0.2"
hmac = "0.12"
sha2 = "0.10"
rand = { version = "0.8", features = ["small_rng"] }
libc = "0.2"
tracing = "0.1"
tracing-subscriber = "0.3"
clap = { version = "4", features = ["derive"] }
crossterm = "0.28"
gilrs = "0.11"
tiny_http = "0.12"
igd = "0.12"
arboard = "3"
serde = { version = "1", features = ["derive"] }
bincode = { version = "2", features = ["serde"] }
renet = "1"
renet_netcode = "1"
