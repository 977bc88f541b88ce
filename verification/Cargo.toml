[package]
name = "zellij_load"
version = "0.1.0"
edition = "2021"
publish = false

[dependencies]
colored = "3"
regex = "1"
sysinfo = { version = "0.37", default-features = false, features = ["system"] }
serde = { version = "1", features = ["derive"] }
serde_json = "1"
glob = "0.3"
gfxinfo = "0.1"
single-instance = "0.3"
tokio = { version = "1", features = ["rt-multi-thread", "macros", "process", "sync", "time"] }
