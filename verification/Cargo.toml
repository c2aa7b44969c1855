[package]
name = "puffin_workspace"
version = "0.1.0"
edition = "2021"
publish = false

[dependencies]
toml_edit = { version = "0.21", features = ["serde"] }
pep508_rs = "0.2"
pyproject-toml = "0.8"
serde = { version = "1", features = ["derive"] }
thiserror = "1"
fs-err = "2"
