[package]
name = "waylock"
version = "0.3.0"
edition = "2021"
publish = false

[dependencies]
chrono = "0.4"
fontdue = "0.7"
users = "0.11"
log = "0.4"
nix = "0.26"
serde = { version = "1", features = ["derive"] }
toml = "0.5"
structopt = "0.3"
font-loader = "0.11"
pam = "0.7"
smithay-client-toolkit = { version = "0.12", default-features = false, features = ["calloop"] }
