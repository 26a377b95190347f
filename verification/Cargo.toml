[package]
name = "mm1_level_to_img"
version = "0.1.0"
edition = "2021"
publish = false

[dependencies]
chrono = "0.4"
csv = "1"
image = { version = "0.25", default-features = false, features = ["png"] }
indicatif = "0.17"
random_word = { version = "0.4", features = ["en"] }
tar = "0.4"
zstd = "0.13"
