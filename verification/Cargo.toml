[package]
name = "colek"
version = "0.1.0"
edition = "2021"
publish = false

[dependencies]
xxhash-rust = { version = "0.8", features = ["xxh3"] }
clap = { version = "4", features = ["derive"] }
ignore = "0.4"
rayon = "1"
log = "0.4"
sysinfo = "0.29"
zip = { version = "0.6", default-features = false, features = ["deflate"] }
dirs = "5"
