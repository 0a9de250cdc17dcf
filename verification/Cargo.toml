[package]
name = "jmdict-fast"
version = "0.1.4"
edition = "2021"
publish = false

[dependencies]
fst = { version = "=0.4.7", features = ["levenshtein"] }
deunicode = "=1.6.2"
postcard = { version = "=1.1.3", default-features = false, features = ["alloc"] }
serde = { version = "=1.0.229", features = ["derive"] }
serde_json = "=1.0.154"
memmap2 = "=0.9.12"
dirs = "=5.0.1"
chrono = "=0.4.45"
flate2 = "=1.1.10"
tar = "=0.4.46"
ureq = { version = "=2.12.1", default-features = false }
clap = { version = "=4.6.7", features = ["derive"] }
anyhow = "=1.0.104"
