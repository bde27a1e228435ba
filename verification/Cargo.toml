[package]
name = "jetsongpio"
version = "0.1.0"
edition = "2021"
publish = false

[dependencies]
anyhow = "1"
clap = { version = "4", features = ["derive"] }
libc = "0.2"
mio = { version = "1", features = ["os-poll", "os-ext"] }
