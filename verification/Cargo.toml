[package]
name = "coachman"
version = "0.1.0"
edition = "2021"
publish = false

[dependencies]
log = "0.4"
slab = "0.4"
tokio = { version = "1", features = ["rt", "rt-multi-thread", "sync", "macros", "time"] }
