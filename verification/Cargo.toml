[package]
name = "bonsai"
version = "0.1.0"
edition = "2021"
publish = false

[dependencies]
image = { version = "*", default-features = false, features = ["png"] }
texture_packer = "*"
walkdir = "*"
rayon = "*"
clap = { version = "*", features = ["derive"] }
colored = "*"
chrono = "*"
indicatif = "*"
thiserror = "*"
serde = { version = "*", features = ["derive"] }
toml_edit = { version = "*", features = ["serde"] }
regex = "*"
url = "*"
dirs = "*"
scopeguard = "*"
ctrlc = "*"
git2 = "*"
reqwest = { version = "*", features = ["blocking"] }
rouille = "*"
