[package]
name = "dinit_dash"
version = "0.1.0"
edition = "2021"
publish = false

[dependencies]
libc = "0.2"
open = "5"
tokio = { version = "1", features = ["process", "rt"] }
