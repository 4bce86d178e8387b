[package]
name = "trusty_launcher"
version = "0.1.0"
edition = "2021"
publish = false

[dependencies]
anyhow = "1"
android_logger = "*"
clap = { version = "4", features = ["derive"] }
env_logger = "*"
kernlog = "*"
libc = "0.2"
log = "0.4"
nix = { version = "*", features = ["fs"] }
scopeguard = "1"
serde = { version = "1", features = ["derive"] }
serde_json = "1"
thiserror = "*"
