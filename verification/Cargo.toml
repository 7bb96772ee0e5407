[package]
name = "spectool"
version = "0.1.0"
edition = "2021"
publish = false

[dependencies]
serde_json = "=1.0.151"
anyhow = "=1.0.104"
clap = { version = "=4.6.7", features = ["derive"] }
clap-verbosity-flag = { version = "=3.0.4", default-features = false, features = ["tracing"] }
git2 = { version = "=0.21.0", default-features = false }
tempfile = "=3.27.0"
fs_extra = "=1.3.0"
tracing = "=0.1.44"
tracing-subscriber = "=0.3.23"
jaq-core = "=3.1.1"
jaq-json = "=2.0.3"
jaq-std = "=3.0.3"
serde = { version = "=1.0.229", features = ["derive"] }

[dev-dependencies]
