[package]
name = "horust"
version = "0.1.0"
edition = "2021"
publish = false

[dependencies]
libc = "0.2"
nix = "0.17"
serde = { version = "1.0", features = ["derive"] }
shlex = "0.1"
structopt = "0.3"
toml = "0.5"
