[package]
name = "mafa"
version = "0.1.0"
edition = "2021"
publish = false

[dependencies]
bwrap = { version = "=1.3.0", features = ["use_std"] }
clap = "=4.6.7"
libc = "=0.2.190"
once_cell = "=1.21.4"
quick-xml = { version = "=0.42.0", features = ["serialize"] }
rustyline = "=18.0.1"
serde = { version = "=1.0.229", features = ["derive"] }
serde_json = "=1.0.151"
unicode-width = "=0.2.2"
wda = "=0.5.1"
