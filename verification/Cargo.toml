[package]
name = "fuota"
version = "0.1.0"
edition = "2021"
publish = false

[dependencies]
anyhow = "=1.0.104"
chrono = "=0.4.45"
lrwn = { version = "=4.13.0", features = ["applayer", "crypto", "regions"] }
tracing = "=0.1.44"
