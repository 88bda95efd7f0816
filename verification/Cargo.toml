[package]
name = "twtgui"
version = "0.1.0"
edition = "2021"
publish = false

[dependencies]
blake2 = "*"
data-encoding = "*"
sha2 = "*"
hex = "*"
chrono = "*"
url = "*"
serde = { version = "*", features = ["derive"] }
serde_json = "*"
toml = "*"
directories = "*"
webbrowser = "*"
bytes = "*"
reqwest = { version = "*", default-features = false, features = ["blocking"] }
