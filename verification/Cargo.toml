[package]
name = "rboy_lego"
version = "0.1.0"
edition = "2021"
publish = false

[dependencies]
anyhow = "1"
argh = "*"
clap = "4"
cpal = "*"
font8x8 = "*"
libc = "0.2"
log = "0.4"
serde = { version = "1", features = ["derive"] }
toml = "*"
