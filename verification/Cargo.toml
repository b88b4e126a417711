[package]
name = "hash_codec"
version = "0.1.0"
edition = "2021"
publish = false

[dependencies]
serde = { version = "1", default-features = false, features = ["std"] }

[dev-dependencies]
serde_json = { version = "1", default-features = false, features = ["std"] }
postcard = { version = "1", default-features = false, features = ["use-std"] }
