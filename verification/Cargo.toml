[package]
name = "cliq"
version = "0.1.0"
edition = "2021"
publish = false

[dependencies]
anyhow = "=1.0.104"
clap = { version = "=4.6.7", features = ["derive"] }
confique = { version = "=0.4.0", features = ["toml"] }
crossbeam-channel = "=0.5.17"
crossterm = "=0.29.0"
hdf5 = "=0.8.1"
log = "=0.4.34"
ndarray = "=0.17.2"
rand = "=0.10.3"
ratatui = "=0.30.2"
serde = { version = "=1.0.229", features = ["derive"] }
simplelog = "=0.12.2"
