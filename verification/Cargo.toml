[package]
name = "anahtar"
version = "0.1.0"
edition = "2021"
publish = false

[dependencies]
keepass = { version = "=0.17.0", features = ["save_kdbx4", "totp"] }
uuid = "=1.29.0"
rand = "=0.10.3"
serde = { version = "=1.0.229", features = ["derive"] }
serde_json = "=1.0.154"
thiserror = "=2.0.21"
anyhow = "=1.0.104"
clap = { version = "=4.6.7", features = ["derive"] }
clap_complete = "=4.6.11"
directories = "=6.0.0"
toml = "=1.1.8"
rpassword = "=7.5.4"
arboard = { version = "=3.7.0", default-features = false }

[dev-dependencies]
tempfile = "=3.27.0"
