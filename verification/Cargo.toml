[package]
name = "colorctl"
version = "0.1.0"
edition = "2021"
publish = false

[dependencies]
clap = { version = "4", features = ["derive"] }
colored = "2"
directories = "5"
serde = { version = "1", features = ["derive"] }
serde_json = "1"
shellexpand = "3"

[dev-dependencies]
regex = "1"
