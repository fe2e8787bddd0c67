[package]
name = "hawkeye"
version = "0.1.0"
edition = "2021"
publish = false

[dependencies]
serde_json = "=1.0.151"
anyhow = "*"
aya = "=0.14.0"
aya-log = "=0.3.0"
bytes = "*"
clap = { version = "*", features = ["derive"] }
env_logger = "*"
hostname = "*"
libc = "*"
log = "*"
nix = { version = "*", features = ["time"] }
reqwest = { version = "*", default-features = false }
tempfile = "*"
tokio = { version = "*", features = ["macros", "rt-multi-thread", "signal", "time"] }
