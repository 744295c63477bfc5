[package]
name = "sky"
version = "0.1.0"
edition = "2021"
publish = false

[dependencies]
clap = { version = "4", features = ["derive"] }
confy = "*"
serde = { version = "1", features = ["derive"] }
ureq = { version = "2", features = ["json"] }
