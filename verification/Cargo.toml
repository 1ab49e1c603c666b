[package]
name = "conman"
version = "0.1.0"
edition = "2021"
publish = false

[dependencies]
anyhow = "*"
directories = "*"
structopt = "*"
symlink = "*"
uuid = { version = "*", features = ["v4"] }

[dev-dependencies]
serde_json = "*"
