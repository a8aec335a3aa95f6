[package]
name = "dune2_rc"
version = "0.1.0"
edition = "2021"
publish = false

[dependencies]
anyhow = "*"
clap = { version = "*", features = ["derive"] }
csscolorparser = "*"
flate2 = "*"
rmp-serde = "*"
serde = { version = "*", features = ["derive"] }
toml = "*"
