[package]
name = "modelo720"
version = "0.1.0"
edition = "2021"
publish = false

[dependencies]
chrono = { version = "0.4", default-features = false, features = ["std"] }
clap = { version = "4", features = ["derive"] }
csv = "1"
fixed_width = "*"
fixed_width_derive = "*"
once_cell = "1"
regex = "1"
rust_decimal = "1"
serde = { version = "1", features = ["derive"] }
