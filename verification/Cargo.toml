[package]
name = "tailwind_css"
version = "0.1.0"
edition = "2021"
publish = false

[dependencies]
xxhash-rust = { version = "*", features = ["xxh3"] }
lightningcss = "1.0.0-alpha.72"
clap = { version = "*", features = ["derive"] }
glob = "*"
byte-unit = "*"
