[package]
name = "comet"
version = "0.1.0"
edition = "2021"
publish = false

[dependencies]
smallvec = "1"
vte = "*"
portable-pty = "*"
toml = "*"
serde = { version = "1", features = ["derive"] }
directories = "*"
