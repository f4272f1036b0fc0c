[package]
name = "migrate_to_uv"
version = "0.1.0"
edition = "2021"
publish = false

[dependencies]
pep440_rs = "*"
pep508_rs = "*"
url = "*"
configparser = "*"
toml_edit = "*"
clap = { version = "*", features = ["derive"] }
clap-verbosity-flag = "*"
log = "*"
owo-colors = "*"
which = "*"
