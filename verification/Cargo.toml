[package]
name = "rtic_scope_recovery"
version = "0.1.0"
edition = "2021"
publish = false

[dependencies]
syn = { version = "1", features = ["full", "extra-traits"] }
proc-macro2 = "1"
quote = "1"
rtic-syntax = "1"
chrono = { version = "0.4", features = ["serde"] }
include_dir = "0.7"
libloading = "0.7"
cargo_metadata = "0.14"
serde = { version = "1", features = ["derive"] }
thiserror = "1"
