[package]
name = "zkclient"
version = "0.1.0"
edition = "2021"
publish = false

[dependencies]
tokio = { version = "1", default-features = false, features = ["net", "time", "sync", "rt", "io-util", "macros"] }

[dev-dependencies]
byteorder = "1"
