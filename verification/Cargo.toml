[package]
name = "flazky_bird_lib"
version = "0.1.0"
edition = "2021"
publish = false

[dependencies]
tiny-keccak = { version = "2.0", features = ["keccak"] }
alloy-primitives = "0.8"
clap = { version = "4", features = ["derive"] }
hex = "0.4"
eyre = "0.6"
rand = "0.8"

[dev-dependencies]
alloy-sol-types = "0.8"
