[package]
name = "phm"
version = "0.2.5"
edition = "2021"
publish = false

[dependencies]
dirs = "*"
serde_json = "1"
flate2 = "1"
tar = "0.4"
anyhow = "1"
atty = "0.2"
clap = { version = "4", features = ["derive"] }
clap_complete = "4"
colored_text = "*"
reqwest = { version = "0.12", default-features = false, features = ["blocking", "rustls-tls"] }
libc = "0.2"
