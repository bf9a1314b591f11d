[package]
name = "lan_mouse"
version = "0.1.0"
edition = "2021"
publish = false

[dependencies]
arboard = { version = "3", default-features = false }
tokio = { version = "1", features = ["process", "io-util", "sync", "rt", "time", "macros"] }
thiserror = "2"
log = "0.4"
x11 = { version = "2", features = ["xlib"] }
futures-core = "0.3"
async-trait = "0.1"
num_enum = "0.7"
