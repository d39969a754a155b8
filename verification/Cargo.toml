[package]
name = "pydeps"
version = "0.1.0"
edition = "2021"
publish = false

[dependencies]
crossterm = "0.27"
data-encoding = "2"
flate2 = "1"
fs_extra = "1"
regex = "1"
reqwest = { version = "0.12", default-features = false, features = ["blocking"] }
ring = "0.17"
serde = { version = "1", features = ["derive"] }
tar = "0.4"
toml = "0.8"
zip = { version = "0.6", default-features = false, features = ["deflate"] }
