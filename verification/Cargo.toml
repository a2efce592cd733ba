[package]
name = "binator_network"
version = "0.1.0"
edition = "2021"
publish = false

[dependencies]
binator_base = "*"
binator_context = "*"
binator_core = "*"
binator_number = "*"
binator_utils = "*"
serde = { version = "1", features = ["derive"] }
