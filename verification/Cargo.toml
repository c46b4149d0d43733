[package]
name = "sysconfig"
version = "0.1.0"
edition = "2021"
publish = false

[dependencies]
pwhash = "*"
md-5 = "*"
sha1 = "*"
digest = "*"
uuid = { version = "*", features = ["v4"] }
serde = { version = "*", features = ["derive"] }
serde_json = "*"
serde_yaml = "*"
ron = "*"
clap = { version = "*", features = ["derive", "env"] }
anyhow = "*"
