[package]
name = "pw_ac3_live"
version = "0.1.0"
edition = "2021"
publish = false

[dependencies]
rtrb = "*"
anyhow = "1"
log = "0.4"
libc = "0.2"
ctrlc = "3"
env_logger = "0.11"
clap = { version = "4", features = ["derive"] }
pipewire = "0.8"
libspa = "0.8"
