[package]
name = "paid_notes"
version = "0.1.0"
edition = "2021"
publish = false

[dependencies]
hex = "*"
candid = "*"
ic-cdk = "*"
ic-stable-structures = "*"
icrc-ledger-types = "*"
num-traits = "*"
serde = { version = "*", features = ["derive"] }
