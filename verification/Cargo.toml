[package]
name = "gitclient_worker"
version = "0.1.0"
edition = "2021"
publish = false

[dependencies]
sicompass-sdk = "*"
sicompass-pdk = "*"
