[package]
name = "argvus-storage"
version = "0.1.0"
edition = "2021"
publish = false

[dependencies]
serde_json = "1"
libc = "0.2"
tokio = { version = "1", features = ["rt-multi-thread", "macros", "signal", "time", "sync"] }
zbus = "5"
zvariant = "5"
futures-lite = "2"
arboard = "3"
gtk = "0.18"
gtk-layer-shell = "0.8"
