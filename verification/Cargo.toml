[package]
name = "sagas"
version = "0.1.0"
edition = "2021"
publish = false

[dependencies]
async-trait = "0.1"
candid = "0.10"
ic-cdk = "0.17"
